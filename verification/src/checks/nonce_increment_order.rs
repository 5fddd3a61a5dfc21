//! A nonce written back after an external call or transfer instead of
//! before it.

use vstd::prelude::*;
use crate::syntax::{Expr, FnDef, Lit, SourceFile, Stmt};
use crate::walk::{ev_stmt, expr_at, lemma_some_expr_step, plain, plain_walk, some_expr, stmt_events, Event};
use crate::finding::{fv, lemma_views_append, new_finding, views, Check, Finding, FindingView, Severity};
use crate::contract::{contract_fns, contractimpl_functions, over_fns};
use crate::text::{contains, lower_text, seq_contains, str_eq, to_lower};

verus! {

pub const CHECK_NAME: &'static str = "nonce-increment-order";

/// Flags a function whose first top-level statement with an external call
/// comes before its first top-level statement that stores a nonce.
pub struct NonceIncrementOrderCheck;

/// A path whose last segment, or a string literal whose value, mentions
/// `nonce` in any case; through `&`.
pub open spec fn spec_contains_nonce(e: &Expr) -> bool
    decreases e,
{
    match e {
        Expr::Path { path, .. } => {
            let s = if path.segments.len() > 0 { path.segments@.last().ident@ } else { Seq::empty() };
            seq_contains(lower_text(s), "nonce"@)
        },
        Expr::Reference { expr } => spec_contains_nonce(expr),
        Expr::Lit { lit } => match lit {
            Lit::Str { value } => seq_contains(lower_text(value@), "nonce"@),
            _ => false,
        },
        _ => false,
    }
}

fn contains_nonce(e: &Expr) -> (r: bool)
    ensures r == spec_contains_nonce(e),
    decreases e,
{
    match e {
        Expr::Path { path, .. } => {
            let n = path.segments.len();
            let s = if n > 0 { to_lower(path.segments[n - 1].ident.as_str()) } else { to_lower("") };
            proof {
                if n == 0 {
                    reveal_strlit("");
                    assert(""@ =~= Seq::<char>::empty());
                }
            }
            contains(s.as_str(), "nonce")
        }
        Expr::Reference { expr } => contains_nonce(expr),
        Expr::Lit { lit } => match lit {
            Lit::Str { value } => {
                let s = to_lower(value.as_str());
                contains(s.as_str(), "nonce")
            }
            _ => false,
        },
        _ => false,
    }
}

/// A `set` call with an argument that mentions a nonce.
pub open spec fn spec_is_nonce_set(e: &Expr) -> bool {
    match e {
        Expr::MethodCall { method, args, .. } =>
            method@ == "set"@ && exists|i: int| 0 <= i < args.len() && spec_contains_nonce(#[trigger] &args@[i]),
        _ => false,
    }
}

fn is_nonce_set(e: &Expr) -> (r: bool)
    ensures r == spec_is_nonce_set(e),
{
    match e {
        Expr::MethodCall { method, args, .. } => str_eq(method.as_str(), "set") && args_mention_nonce(args),
        _ => false,
    }
}

fn args_mention_nonce(args: &Vec<Expr>) -> (r: bool)
    ensures r == exists|i: int| 0 <= i < args.len() && spec_contains_nonce(#[trigger] &args@[i]),
{
    let mut i: usize = 0;
    while i < args.len()
        invariant
            i <= args.len(),
            forall|k: int| 0 <= k < i ==> !spec_contains_nonce(#[trigger] &args@[k]),
        decreases args.len() - i,
    {
        if contains_nonce(&args[i]) {
            return true;
        }
        i = i + 1;
    }
    false
}

/// An `invoke_contract`, `transfer`, `transfer_from` or `call` method call.
pub open spec fn spec_is_external(e: &Expr) -> bool {
    match e {
        Expr::MethodCall { method, .. } =>
            method@ == "invoke_contract"@ || method@ == "transfer"@ || method@ == "transfer_from"@ || method@ == "call"@,
        _ => false,
    }
}

fn is_external(e: &Expr) -> (r: bool)
    ensures r == spec_is_external(e),
{
    match e {
        Expr::MethodCall { method, .. } => {
            let m = method.as_str();
            str_eq(m, "invoke_contract") || str_eq(m, "transfer") || str_eq(m, "transfer_from") || str_eq(m, "call")
        }
        _ => false,
    }
}

pub open spec fn nonce_p<'a>() -> spec_fn(&'a Expr) -> bool { |e: &'a Expr| spec_is_nonce_set(e) }
pub open spec fn external_p<'a>() -> spec_fn(&'a Expr) -> bool { |e: &'a Expr| spec_is_external(e) }

/// The index of the first statement from `i` on whose walk meets an
/// expression satisfying `p`.
pub open spec fn first_stmt(stmts: Seq<Stmt>, p: spec_fn(&Expr) -> bool, i: int) -> Option<int>
    decreases stmts.len() - i,
{
    if i < 0 || i >= stmts.len() {
        None
    } else if some_expr(ev_stmt(&stmts[i], i as usize, plain()), p) {
        Some(i)
    } else {
        first_stmt(stmts, p, i + 1)
    }
}

pub open spec fn description(func: Seq<char>) -> Seq<char> {
    "`"@ + func + "` performs an external call or token transfer before writing the incremented nonce back to storage. A reentrant caller can reuse the same nonce. Increment and store the nonce before any external interaction."@
}

pub open spec fn fn_findings(f: &FnDef) -> Seq<FindingView> {
    let stmts = f.block.stmts@;
    match (first_stmt(stmts, nonce_p(), 0), first_stmt(stmts, external_p(), 0)) {
        (Some(set_idx), Some(ext_idx)) =>
            if ext_idx < set_idx {
                seq![fv(CHECK_NAME@, Severity::High, stmts[ext_idx].line, f.name@, description(f.name@))]
            } else {
                Seq::empty()
            },
        _ => Seq::empty(),
    }
}

/// Which of the two kinds of call the walk of one statement meets.
fn stmt_flags(s: &Stmt, idx: usize) -> (r: (bool, bool))
    ensures
        r.0 == some_expr(ev_stmt(s, idx, plain()), nonce_p()),
        r.1 == some_expr(ev_stmt(s, idx, plain()), external_p()),
{
    let evs = stmt_events(s, idx, plain_walk());
    let ghost pn = nonce_p();
    let ghost pe = external_p();
    let mut n = false;
    let mut x = false;
    let mut j: usize = 0;
    while j < evs.len()
        invariant
            j <= evs.len(),
            pn == nonce_p(),
            pe == external_p(),
            n == exists|k: int| 0 <= k < j && #[trigger] expr_at(evs@, k, pn),
            x == exists|k: int| 0 <= k < j && #[trigger] expr_at(evs@, k, pe),
        decreases evs.len() - j,
    {
        proof {
            lemma_some_expr_step(evs@, j as int, pn);
            lemma_some_expr_step(evs@, j as int, pe);
        }
        match evs[j] {
            Event::Expr(e) => {
                if is_nonce_set(e) {
                    n = true;
                }
                if is_external(e) {
                    x = true;
                }
            }
            _ => {}
        }
        j = j + 1;
    }
    (n, x)
}

fn scan_fn(f: &FnDef) -> (r: Vec<Finding>)
    ensures views(r@) == fn_findings(f),
{
    let stmts = &f.block.stmts;
    let mut set_idx: Option<usize> = None;
    let mut ext_idx: Option<usize> = None;
    let mut i: usize = 0;
    while i < stmts.len()
        invariant
            i <= stmts.len(),
            stmts@ == f.block.stmts@,
            first_stmt(stmts@, nonce_p(), 0) == match set_idx {
                Some(k) => Some(k as int),
                None => first_stmt(stmts@, nonce_p(), i as int),
            },
            first_stmt(stmts@, external_p(), 0) == match ext_idx {
                Some(k) => Some(k as int),
                None => first_stmt(stmts@, external_p(), i as int),
            },
            set_idx matches Some(k) ==> k < stmts.len(),
            ext_idx matches Some(k) ==> k < stmts.len(),
        decreases stmts.len() - i,
    {
        let (n, x) = stmt_flags(&stmts[i], i);
        if n && set_idx.is_none() {
            set_idx = Some(i);
        }
        if x && ext_idx.is_none() {
            ext_idx = Some(i);
        }
        i = i + 1;
    }
    let mut out: Vec<Finding> = Vec::new();
    match (set_idx, ext_idx) {
        (Some(s), Some(e)) => {
            if e < s {
                let mut d = String::from_str("`");
                d.append(f.name.as_str());
                d.append("` performs an external call or token transfer before writing the incremented nonce back to storage. A reentrant caller can reuse the same nonce. Increment and store the nonce before any external interaction.");
                out.push(new_finding(CHECK_NAME, Severity::High, stmts[e].line, f.name.as_str(), d));
            }
        }
        _ => {}
    }
    assert(views(out@) =~= fn_findings(f));
    out
}

impl Check for NonceIncrementOrderCheck {
    open spec fn spec_name(&self) -> Seq<char> {
        CHECK_NAME@
    }

    open spec fn spec_run(&self, file: &SourceFile, source: Seq<char>) -> Seq<FindingView> {
        over_fns(contract_fns(file), |f: &FnDef| fn_findings(f), contract_fns(file).len() as int)
    }

    fn name(&self) -> (r: &str) {
        CHECK_NAME
    }

    fn run(&self, file: &SourceFile, source: &str) -> (r: Vec<Finding>) {
        let fns = contractimpl_functions(file);
        let mut out: Vec<Finding> = Vec::new();
        let mut i: usize = 0;
        while i < fns.len()
            invariant
                i <= fns.len(),
                fns@ == contract_fns(file),
                views(out@) == over_fns(contract_fns(file), |f: &FnDef| fn_findings(f), i as int),
            decreases fns.len() - i,
        {
            let mut found = scan_fn(fns[i]);
            proof { lemma_views_append(out@, found@); }
            out.append(&mut found);
            i = i + 1;
        }
        out
    }
}

} // verus!

verus! {

/// Every finding of this check names it, is of high severity, and has an
/// empty file path.
pub proof fn lemma_findings_tagged(file: &SourceFile, source: Seq<char>)
    ensures crate::finding::tagged(NonceIncrementOrderCheck.spec_run(file, source), CHECK_NAME@, Severity::High),
{
    let fns = contract_fns(file);
    crate::contract::lemma_over_fns_tagged(fns, |f: &FnDef| fn_findings(f), fns.len() as int, CHECK_NAME@, Severity::High);
}

} // verus!

verus! {

/// Only the functions of `#[contractimpl]` blocks are examined: one more
/// top-level item that is not such a block changes no finding.
pub proof fn lemma_ignores_other_items(a: &SourceFile, b: &SourceFile, source: Seq<char>)
    requires crate::contract::extended_by_other_item(a, b),
    ensures NonceIncrementOrderCheck.spec_run(b, source) == NonceIncrementOrderCheck.spec_run(a, source),
{
    crate::contract::lemma_contract_fns_extra_item(a, b);
}

} // verus!

verus! {

/// The statement is an expression statement whose expression is a call of
/// a method named `m`.
pub open spec fn stmt_calls(s: Stmt, m: Seq<char>) -> bool {
    s.kind matches crate::syntax::StmtKind::Expr { expr, .. } && (expr matches Expr::MethodCall { method, .. } && method@ == m)
}

/// The statement is `<..>.set(..)` with some argument a string literal that
/// (in lower case) mentions `nonce`.
pub open spec fn stmt_sets_nonce(s: Stmt) -> bool {
    s.kind matches crate::syntax::StmtKind::Expr { expr, .. }
        && (expr matches Expr::MethodCall { method, args, .. } && method@ == "set"@
            && exists|i: int| 0 <= i < args.len()
                && (#[trigger] args@[i] matches Expr::Lit { lit: Lit::Str { value } } && seq_contains(lower_text(value@), "nonce"@)))
}

proof fn lemma_first_stmt_bound(stmts: Seq<Stmt>, p: spec_fn(&Expr) -> bool, i: int, q: int)
    requires
        0 <= i <= q < stmts.len(),
        some_expr(ev_stmt(&stmts[q], q as usize, plain()), p),
    ensures
        first_stmt(stmts, p, i) is Some,
        i <= first_stmt(stmts, p, i).unwrap() <= q,
        some_expr(ev_stmt(&stmts[first_stmt(stmts, p, i).unwrap()], first_stmt(stmts, p, i).unwrap() as usize, plain()), p),
        forall|r: int| i <= r < first_stmt(stmts, p, i).unwrap() ==> !some_expr(#[trigger] ev_stmt(&stmts[r], r as usize, plain()), p),
    decreases q - i,
{
    if i < q && !some_expr(ev_stmt(&stmts[i], i as usize, plain()), p) {
        lemma_first_stmt_bound(stmts, p, i + 1, q);
    }
}

/// An external call statement (`invoke_contract`, `transfer`,
/// `transfer_from` or `call`) that comes before the statement writing the
/// nonce, with no `set` anywhere in the statements up to the call, gives the
/// function one finding.
pub proof fn lemma_call_before_nonce_flagged(f: &FnDef, x: int, y: int)
    requires
        0 <= x < y < f.block.stmts.len(),
        stmt_calls(f.block.stmts@[x], "call"@) || stmt_calls(f.block.stmts@[x], "transfer_from"@)
            || stmt_calls(f.block.stmts@[x], "transfer"@) || stmt_calls(f.block.stmts@[x], "invoke_contract"@),
        stmt_sets_nonce(f.block.stmts@[y]),
        forall|q: int, k: int| 0 <= q <= x && 0 <= k < ev_stmt(&f.block.stmts@[q], q as usize, plain()).len()
            ==> !(#[trigger] ev_stmt(&f.block.stmts@[q], q as usize, plain())[k] matches Event::Expr(e)
                && e matches Expr::MethodCall { method, .. } && method@ == "set"@),
    ensures fn_findings(f).len() == 1,
{
    let stmts = f.block.stmts@;
    match &stmts[x].kind {
        crate::syntax::StmtKind::Expr { expr, .. } => {
            assert(ev_stmt(&stmts[x], x as usize, plain())[1] == Event::Expr(expr));
            assert(expr_at(ev_stmt(&stmts[x], x as usize, plain()), 1, external_p()));
        },
        _ => {},
    }
    match &stmts[y].kind {
        crate::syntax::StmtKind::Expr { expr, .. } => {
            match expr {
                Expr::MethodCall { args, .. } => {
                    let i = choose|i: int| 0 <= i < args.len()
                        && (#[trigger] args@[i] matches Expr::Lit { lit: Lit::Str { value } } && seq_contains(lower_text(value@), "nonce"@));
                    assert(spec_contains_nonce(&args@[i]));
                },
                _ => {},
            }
            assert(ev_stmt(&stmts[y], y as usize, plain())[1] == Event::Expr(expr));
            assert(expr_at(ev_stmt(&stmts[y], y as usize, plain()), 1, nonce_p()));
        },
        _ => {},
    }
    lemma_first_stmt_bound(stmts, external_p(), 0, x);
    lemma_first_stmt_bound(stmts, nonce_p(), 0, y);
    let ext = first_stmt(stmts, external_p(), 0).unwrap();
    let set = first_stmt(stmts, nonce_p(), 0).unwrap();
    assert(ext < set) by {
        if set <= x {
            let evs = ev_stmt(&stmts[set], set as usize, plain());
            let k = choose|k: int| 0 <= k < evs.len() && #[trigger] expr_at(evs, k, nonce_p());
            assert(0 <= set <= x && 0 <= k < evs.len());
            assert(!(evs[k] matches Event::Expr(e) && e matches Expr::MethodCall { method, .. } && method@ == "set"@));
        }
    }
}

} // verus!
