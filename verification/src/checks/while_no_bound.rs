//! `while` loops whose condition depends on storage or a parameter and that
//! lack a bounded exit.

use vstd::prelude::*;
use crate::syntax::{BinOp, Block, Expr, FnArg, FnDef, Pat, SourceFile};
use crate::walk::{block_events, ev_block, expr_at, lemma_some_expr_step, plain, plain_walk, some_expr, Event};
use crate::finding::{fv, lemma_views_append, lemma_views_push, new_finding, views, Check, Finding, FindingView, Severity};
use crate::contract::{contract_fns, contractimpl_functions, hits, over_fns};
use crate::text::{alphanumeric, char_is_alphanumeric, chars_of, contains, occurs_at, seq_contains, str_eq};

verus! {

pub const CHECK_NAME: &'static str = "while-no-bound";

/// Flags `while` loops whose condition mentions storage or a parameter and
/// whose body lacks a `break` together with a comparison.
pub struct WhileNoBoundCheck;

/// A character that separates identifier pieces.
pub open spec fn is_sep(c: char) -> bool {
    !(alphanumeric(c) || c == '_')
}

/// `ident` is a whole piece of `t` starting at `i`, pieces being the runs
/// between separator characters.
pub open spec fn piece_at(t: Seq<char>, ident: Seq<char>, i: int) -> bool {
    &&& occurs_at(t, ident, i)
    &&& (i == 0 || is_sep(t[i - 1]))
    &&& (i + ident.len() == t.len() || is_sep(t[i + ident.len()]))
    &&& forall|k: int| i <= k < i + ident.len() ==> !is_sep(#[trigger] t[k])
}

/// Splitting `t` at separator characters yields a piece equal to `ident`.
pub open spec fn spec_ident_in_tokens(t: Seq<char>, ident: Seq<char>) -> bool {
    exists|i: int| piece_at(t, ident, i)
}

fn sep(c: char) -> (r: bool)
    ensures r == is_sep(c),
{
    !(char_is_alphanumeric(c) || c == '_')
}

fn piece_at_exec(t: &Vec<char>, ident: &Vec<char>, i: usize) -> (r: bool)
    requires i <= t.len(),
    ensures r == piece_at(t@, ident@, i as int),
{
    if ident.len() > t.len() - i {
        return false;
    }
    let end = i + ident.len();
    if i > 0 && !sep(t[i - 1]) {
        return false;
    }
    if end < t.len() && !sep(t[end]) {
        return false;
    }
    let mut k: usize = i;
    while k < end
        invariant
            i <= k <= end,
            end == i + ident.len(),
            end <= t.len(),
            forall|m: int| i <= m < k ==> t@[m] == ident@[m - i] && !is_sep(#[trigger] t@[m]),
        decreases end - k,
    {
        if t[k] != ident[k - i] {
            assert(t@.subrange(i as int, end as int)[k - i] != ident@[k - i]);
            return false;
        }
        if sep(t[k]) {
            return false;
        }
        k = k + 1;
    }
    assert(t@.subrange(i as int, end as int) =~= ident@);
    true
}

/// Whether `ident` is one of the pieces of `tokens` split at every character
/// that is neither alphanumeric nor `_`.
pub fn ident_in_tokens(tokens: &str, ident: &str) -> (r: bool)
    ensures r == spec_ident_in_tokens(tokens@, ident@),
{
    let t = chars_of(tokens);
    let id = chars_of(ident);
    let mut i: usize = 0;
    while i < t.len()
        invariant
            i <= t.len(),
            t@ == tokens@,
            id@ == ident@,
            forall|m: int| 0 <= m < i ==> !piece_at(t@, id@, m),
        decreases t.len() - i,
    {
        if piece_at_exec(&t, &id, i) {
            return true;
        }
        i = i + 1;
    }
    if piece_at_exec(&t, &id, t.len()) {
        return true;
    }
    assert forall|m: int| !piece_at(t@, id@, m) by {
        if m > t@.len() || m < 0 {
            assert(!occurs_at(t@, id@, m));
        }
    }
    false
}

/// A method/field chain, or a binary/unary/parenthesized expression over
/// such chains, that calls `storage()`.
pub open spec fn spec_receiver_chain_contains_storage(e: &Expr) -> bool
    decreases e,
{
    match e {
        Expr::MethodCall { receiver, method, .. } => method@ == "storage"@ || spec_receiver_chain_contains_storage(receiver),
        Expr::Field { base, .. } => spec_receiver_chain_contains_storage(base),
        Expr::Binary { left, right, .. } => spec_receiver_chain_contains_storage(left) || spec_receiver_chain_contains_storage(right),
        Expr::Unary { expr } => spec_receiver_chain_contains_storage(expr),
        Expr::Paren { expr } => spec_receiver_chain_contains_storage(expr),
        _ => false,
    }
}

fn receiver_chain_contains_storage(e: &Expr) -> (r: bool)
    ensures r == spec_receiver_chain_contains_storage(e),
    decreases e,
{
    match e {
        Expr::MethodCall { receiver, method, .. } => str_eq(method.as_str(), "storage") || receiver_chain_contains_storage(receiver),
        Expr::Field { base, .. } => receiver_chain_contains_storage(base),
        Expr::Binary { left, right, .. } => receiver_chain_contains_storage(left) || receiver_chain_contains_storage(right),
        Expr::Unary { expr } => receiver_chain_contains_storage(expr),
        Expr::Paren { expr } => receiver_chain_contains_storage(expr),
        _ => false,
    }
}

/// The name of a parameter bound by a plain identifier pattern.
pub open spec fn param_name(a: FnArg) -> Option<Seq<char>> {
    match a {
        FnArg::Typed { pat: Pat::Ident { name, .. }, .. } => Some(name@),
        _ => None,
    }
}

/// The condition's text mentions `storage`, its structure calls `storage()`,
/// or one of the parameter names is a piece of its text.
pub open spec fn spec_condition_is_unbounded_candidate(f: &FnDef, cond: &Expr, text: Seq<char>) -> bool {
    seq_contains(text, "storage"@) || spec_receiver_chain_contains_storage(cond)
        || exists|i: int| 0 <= i < f.inputs.len() && #[trigger] param_name(f.inputs@[i]) is Some
            && spec_ident_in_tokens(text, param_name(f.inputs@[i]).unwrap())
}

fn condition_is_unbounded_candidate(f: &FnDef, cond: &Expr, text: &String) -> (r: bool)
    ensures r == spec_condition_is_unbounded_candidate(f, cond, text@),
{
    if contains(text.as_str(), "storage") || receiver_chain_contains_storage(cond) {
        return true;
    }
    let mut i: usize = 0;
    while i < f.inputs.len()
        invariant
            i <= f.inputs.len(),
            forall|k: int| 0 <= k < i ==> !(#[trigger] param_name(f.inputs@[k]) is Some
                && spec_ident_in_tokens(text@, param_name(f.inputs@[k]).unwrap())),
        decreases f.inputs.len() - i,
    {
        match &f.inputs[i] {
            FnArg::Typed { pat: Pat::Ident { name, .. }, .. } => {
                if ident_in_tokens(text.as_str(), name.as_str()) {
                    assert(param_name(f.inputs@[i as int]) == Some(name@));
                    return true;
                }
            }
            _ => {}
        }
        i = i + 1;
    }
    false
}

pub open spec fn spec_is_break(e: &Expr) -> bool {
    e is Break
}

pub open spec fn spec_is_order_comparison(e: &Expr) -> bool {
    match e {
        Expr::Binary { op, .. } => *op == BinOp::Ge || *op == BinOp::Gt || *op == BinOp::Le || *op == BinOp::Lt,
        _ => false,
    }
}

pub open spec fn break_p<'a>() -> spec_fn(&'a Expr) -> bool {
    |e: &Expr| spec_is_break(e)
}

pub open spec fn order_p<'a>() -> spec_fn(&'a Expr) -> bool {
    |e: &Expr| spec_is_order_comparison(e)
}

/// The body holds a `break` and an ordering comparison.
pub open spec fn spec_body_has_capped_exit(body: &Block) -> bool {
    some_expr(ev_block(body, plain()), break_p()) && some_expr(ev_block(body, plain()), order_p())
}

fn body_has_capped_exit(body: &Block) -> (r: bool)
    ensures r == spec_body_has_capped_exit(body),
{
    let evs = block_events(body, plain_walk());
    let ghost pb = break_p();
    let ghost pc = order_p();
    let mut has_break = false;
    let mut has_comparison = false;
    let mut j: usize = 0;
    while j < evs.len()
        invariant
            j <= evs.len(),
            pb == break_p(),
            pc == order_p(),
            has_break == exists|k: int| 0 <= k < j && #[trigger] expr_at(evs@, k, pb),
            has_comparison == exists|k: int| 0 <= k < j && #[trigger] expr_at(evs@, k, pc),
        decreases evs.len() - j,
    {
        proof {
            lemma_some_expr_step(evs@, j as int, pb);
            lemma_some_expr_step(evs@, j as int, pc);
        }
        match evs[j] {
            Event::Expr(e) => {
                match e {
                    Expr::Break { .. } => {
                        has_break = true;
                    }
                    Expr::Binary { op, .. } => match op {
                        BinOp::Ge | BinOp::Gt | BinOp::Le | BinOp::Lt => {
                            has_comparison = true;
                        }
                        _ => {}
                    },
                    _ => {}
                }
            }
            _ => {}
        }
        j = j + 1;
    }
    has_break && has_comparison
}

pub open spec fn description(func: Seq<char>) -> Seq<char> {
    "While loop in `"@ + func
        + "` has a condition that depends on storage or a user-supplied parameter but no bounded exit (no `break` paired with a comparison guard). On Soroban this can iterate unboundedly and exhaust the instruction limit. Add a counter capped against a maximum and `break`."@
}

pub open spec fn event_hit(f: &FnDef, ev: Event) -> Seq<FindingView> {
    match ev {
        Event::Expr(e) => match e {
            Expr::While { cond, body, cond_text, line } =>
                if spec_condition_is_unbounded_candidate(f, cond, cond_text@) && !spec_body_has_capped_exit(body) {
                    seq![fv(CHECK_NAME@, Severity::Medium, *line, f.name@, description(f.name@))]
                } else {
                    Seq::empty()
                },
            _ => Seq::empty(),
        },
        _ => Seq::empty(),
    }
}

pub open spec fn fn_findings(f: &FnDef) -> Seq<FindingView> {
    hits(ev_block(&f.block, plain()), |ev: Event| event_hit(f, ev), ev_block(&f.block, plain()).len() as int)
}

fn scan_fn(f: &FnDef) -> (r: Vec<Finding>)
    ensures views(r@) == fn_findings(f),
{
    let evs = block_events(&f.block, plain_walk());
    let ghost h = |ev: Event| event_hit(f, ev);
    let mut out: Vec<Finding> = Vec::new();
    let mut j: usize = 0;
    while j < evs.len()
        invariant
            j <= evs.len(),
            evs@ == ev_block(&f.block, plain()),
            h == (|ev: Event| event_hit(f, ev)),
            views(out@) == hits(evs@, h, j as int),
        decreases evs.len() - j,
    {
        match evs[j] {
            Event::Expr(e) => match e {
                Expr::While { cond, body, cond_text, line } => {
                    if condition_is_unbounded_candidate(f, cond, cond_text) && !body_has_capped_exit(body) {
                        let mut d = String::from_str("While loop in `");
                        d.append(f.name.as_str());
                        d.append("` has a condition that depends on storage or a user-supplied parameter but no bounded exit (no `break` paired with a comparison guard). On Soroban this can iterate unboundedly and exhaust the instruction limit. Add a counter capped against a maximum and `break`.");
                        let fd = new_finding(CHECK_NAME, Severity::Medium, *line, f.name.as_str(), d);
                        proof { lemma_views_push(out@, fd); }
                        out.push(fd);
                    }
                }
                _ => {}
            },
            _ => {}
        }
        assert(views(out@) =~= hits(evs@, h, j + 1));
        j = j + 1;
    }
    out
}

impl Check for WhileNoBoundCheck {
    open spec fn spec_name(&self) -> Seq<char> {
        CHECK_NAME@
    }

    open spec fn spec_run(&self, file: &SourceFile, source: Seq<char>) -> Seq<FindingView> {
        over_fns(contract_fns(file), |f: &FnDef| fn_findings(f), contract_fns(file).len() as int)
    }

    fn name(&self) -> (r: &str) {
        CHECK_NAME
    }

    fn run(&self, file: &SourceFile, source: &str) -> (r: Vec<Finding>) {
        let fns = contractimpl_functions(file);
        let mut out: Vec<Finding> = Vec::new();
        let mut i: usize = 0;
        while i < fns.len()
            invariant
                i <= fns.len(),
                fns@ == contract_fns(file),
                views(out@) == over_fns(contract_fns(file), |f: &FnDef| fn_findings(f), i as int),
            decreases fns.len() - i,
        {
            let mut found = scan_fn(fns[i]);
            proof { lemma_views_append(out@, found@); }
            out.append(&mut found);
            i = i + 1;
        }
        out
    }
}

} // verus!

verus! {

proof fn lemma_fn_tagged(f: &FnDef)
    ensures crate::finding::tagged(fn_findings(f), CHECK_NAME@, Severity::Medium),
{
    let evs = ev_block(&f.block, plain());
    crate::contract::lemma_hits_tagged(evs, |ev: Event| event_hit(f, ev), evs.len() as int, CHECK_NAME@, Severity::Medium);
}

/// Every finding of this check names it, is of medium severity, and has an
/// empty file path.
pub proof fn lemma_findings_tagged(file: &SourceFile, source: Seq<char>)
    ensures crate::finding::tagged(WhileNoBoundCheck.spec_run(file, source), CHECK_NAME@, Severity::Medium),
{
    let fns = contract_fns(file);
    assert forall|k: int| 0 <= k < fns.len() implies crate::finding::tagged(fn_findings(fns[k]), CHECK_NAME@, Severity::Medium) by {
        lemma_fn_tagged(fns[k]);
    }
    crate::contract::lemma_over_fns_tagged(fns, |f: &FnDef| fn_findings(f), fns.len() as int, CHECK_NAME@, Severity::Medium);
}

} // verus!

verus! {

/// Only the functions of `#[contractimpl]` blocks are examined: one more
/// top-level item that is not such a block changes no finding.
pub proof fn lemma_ignores_other_items(a: &SourceFile, b: &SourceFile, source: Seq<char>)
    requires crate::contract::extended_by_other_item(a, b),
    ensures WhileNoBoundCheck.spec_run(b, source) == WhileNoBoundCheck.spec_run(a, source),
{
    crate::contract::lemma_contract_fns_extra_item(a, b);
}

} // verus!

verus! {

/// The body's walk meets no `break`, or meets no `<`, `<=`, `>`, `>=`
/// comparison: it has no capped exit.
pub open spec fn lacks_capped_exit(body: &Block) -> bool {
    (forall|k: int| 0 <= k < ev_block(body, plain()).len() ==> !(#[trigger] ev_block(body, plain())[k] matches Event::Expr(e) && e is Break))
    || (forall|k: int| 0 <= k < ev_block(body, plain()).len() ==> !(#[trigger] ev_block(body, plain())[k] matches Event::Expr(e)
        && e matches Expr::Binary { op, .. } && (op == BinOp::Lt || op == BinOp::Le || op == BinOp::Gt || op == BinOp::Ge)))
}

/// A `while` loop whose condition text mentions `storage` and whose body
/// has no capped exit (no `break`, or no ordering comparison) is reported
/// at its line.
pub proof fn lemma_storage_while_flagged(f: &FnDef, k: int)
    requires
        0 <= k < ev_block(&f.block, plain()).len(),
        ev_block(&f.block, plain())[k] matches Event::Expr(e)
            && (*e matches Expr::While { cond_text, body, .. } && seq_contains(cond_text@, "storage"@)
                && lacks_capped_exit(&body)),
    ensures
        fn_findings(f).contains(fv(CHECK_NAME@, Severity::Medium, ev_block(&f.block, plain())[k]->Expr_0->While_line,
            f.name@, description(f.name@))),
{
    let evs = ev_block(&f.block, plain());
    let h = |ev: Event| event_hit(f, ev);
    let x = fv(CHECK_NAME@, Severity::Medium, evs[k]->Expr_0->While_line, f.name@, description(f.name@));
    match evs[k] {
        Event::Expr(e) => match e {
            Expr::While { body, .. } => {
                let bevs = ev_block(body, plain());
                assert(!spec_body_has_capped_exit(body)) by {
                    if some_expr(bevs, break_p()) && some_expr(bevs, order_p()) {
                        let i = choose|i: int| 0 <= i < bevs.len() && #[trigger] expr_at(bevs, i, break_p());
                        let j = choose|j: int| 0 <= j < bevs.len() && #[trigger] expr_at(bevs, j, order_p());
                        assert(bevs[i] matches Event::Expr(e) && e is Break);
                        assert(bevs[j] matches Event::Expr(e)
                            && e matches Expr::Binary { op, .. } && (op == BinOp::Lt || op == BinOp::Le || op == BinOp::Gt || op == BinOp::Ge));
                    }
                }
            },
            _ => {},
        },
        _ => {},
    }
    assert(h(evs[k])[0] == x);
    crate::contract::lemma_hits_contain(evs, h, k, evs.len() as int, x);
}

} // verus!
