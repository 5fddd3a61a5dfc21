//! A balance read from persistent storage, increased with an unchecked `+` or
//! `+=`, and written back.

use vstd::prelude::*;
use crate::syntax::{BinOp, Expr, FnDef, SourceFile, Stmt, StmtKind};
use crate::walk::{block_events, ev_block, plain, plain_walk, Event};
use crate::finding::{fv, lemma_views_append, lemma_views_push, new_finding, views, Check, Finding, FindingView, Severity};
use crate::contract::{contract_fns, contractimpl_functions, over_fns};
use crate::text::str_eq;

verus! {

pub const CHECK_NAME: &'static str = "balance-overflow";

/// Flags every unchecked `+`/`+=` in a function whose top-level statements
/// both read from and write to persistent storage.
pub struct BalanceOverflowCheck;

/// A chain of method calls that calls a method named `name`.
pub open spec fn spec_chain_calls(e: &Expr, name: Seq<char>) -> bool
    decreases e,
{
    match e {
        Expr::MethodCall { receiver, method, .. } => method@ == name || spec_chain_calls(receiver, name),
        _ => false,
    }
}

fn chain_calls(e: &Expr, name: &str) -> (r: bool)
    ensures r == spec_chain_calls(e, name@),
    decreases e,
{
    match e {
        Expr::MethodCall { receiver, method, .. } => str_eq(method.as_str(), name) || chain_calls(receiver, name),
        _ => false,
    }
}

/// A receiver chain that calls both `persistent()` and `storage()`.
pub open spec fn spec_persistent_receiver(receiver: &Expr) -> bool {
    spec_chain_calls(receiver, "persistent"@) && spec_chain_calls(receiver, "storage"@)
}

/// A persistent `get`, found through the arguments and receivers of method
/// calls.
pub open spec fn spec_has_persistent_get(e: &Expr) -> bool
    decreases e, 0nat, 0int,
{
    match e {
        Expr::MethodCall { receiver, method, args, .. } =>
            (method@ == "get"@ && spec_persistent_receiver(receiver))
                || (exists|i: int| 0 <= i < args.len() && spec_has_persistent_get(#[trigger] &args@[i]))
                || spec_has_persistent_get(receiver),
        _ => false,
    }
}

fn has_persistent_get(e: &Expr) -> (r: bool)
    ensures r == spec_has_persistent_get(e),
    decreases e, 0nat, 0int,
{
    match e {
        Expr::MethodCall { receiver, method, args, .. } => {
            if str_eq(method.as_str(), "get") && chain_calls(receiver, "persistent") && chain_calls(receiver, "storage") {
                return true;
            }
            args_have_get(args) || has_persistent_get(receiver)
        }
        _ => false,
    }
}

fn args_have_get(v: &Vec<Expr>) -> (r: bool)
    ensures r == exists|i: int| 0 <= i < v.len() && spec_has_persistent_get(#[trigger] &v@[i]),
    decreases v, 1nat, v.len(),
{
    let mut i: usize = 0;
    while i < v.len()
        invariant
            i <= v.len(),
            forall|k: int| 0 <= k < i ==> !spec_has_persistent_get(#[trigger] &v@[k]),
        decreases v.len() - i,
    {
        if has_persistent_get(&v[i]) {
            return true;
        }
        i = i + 1;
    }
    false
}

/// A persistent `set`, found through the receivers of method calls.
pub open spec fn spec_has_persistent_set(e: &Expr) -> bool
    decreases e,
{
    match e {
        Expr::MethodCall { receiver, method, .. } =>
            (method@ == "set"@ && spec_persistent_receiver(receiver)) || spec_has_persistent_set(receiver),
        _ => false,
    }
}

fn has_persistent_set(e: &Expr) -> (r: bool)
    ensures r == spec_has_persistent_set(e),
    decreases e,
{
    match e {
        Expr::MethodCall { receiver, method, .. } =>
            (str_eq(method.as_str(), "set") && chain_calls(receiver, "persistent") && chain_calls(receiver, "storage"))
                || has_persistent_set(receiver),
        _ => false,
    }
}

/// A `let` whose initializer, or an expression statement, reads persistently.
pub open spec fn stmt_gets(s: Stmt) -> bool {
    match &s.kind {
        StmtKind::Local { local } => match &local.init {
            Some(init) => spec_has_persistent_get(init),
            None => false,
        },
        StmtKind::Expr { expr, .. } => spec_has_persistent_get(expr),
        _ => false,
    }
}

/// An expression statement that writes persistently.
pub open spec fn stmt_sets(s: Stmt) -> bool {
    match &s.kind {
        StmtKind::Expr { expr, .. } => spec_has_persistent_set(expr),
        _ => false,
    }
}

pub open spec fn op_text(op: BinOp) -> Seq<char> {
    if op == BinOp::Add { "+"@ } else { "+="@ }
}

pub open spec fn description(func: Seq<char>, op: BinOp) -> Seq<char> {
    "`"@ + func + "` reads a balance from persistent storage and adds to it with `"@ + op_text(op)
        + "` without `checked_add`. A large deposit can overflow the balance to a negative or zero value, effectively stealing funds."@
}

/// One finding per `+` or `+=` among the first `n` events.
pub open spec fn add_hits(evs: Seq<Event>, func: Seq<char>, n: int) -> Seq<FindingView>
    decreases n,
{
    if n <= 0 || n > evs.len() {
        Seq::empty()
    } else {
        add_hits(evs, func, n - 1) + match evs[n - 1] {
            Event::Expr(e) => match e {
                Expr::Binary { op, line, .. } =>
                    if *op == BinOp::Add || *op == BinOp::AddAssign {
                        seq![fv(CHECK_NAME@, Severity::High, *line, func, description(func, *op))]
                    } else {
                        Seq::empty()
                    },
                _ => Seq::empty(),
            },
            _ => Seq::empty(),
        }
    }
}

pub open spec fn fn_findings(f: &FnDef) -> Seq<FindingView> {
    let stmts = f.block.stmts@;
    if (exists|i: int| 0 <= i < stmts.len() && #[trigger] stmt_gets(stmts[i]))
        && (exists|i: int| 0 <= i < stmts.len() && #[trigger] stmt_sets(stmts[i])) {
        let evs = ev_block(&f.block, plain());
        add_hits(evs, f.name@, evs.len() as int)
    } else {
        Seq::empty()
    }
}

fn scan_fn(f: &FnDef) -> (r: Vec<Finding>)
    ensures views(r@) == fn_findings(f),
{
    let stmts = &f.block.stmts;
    let mut gets = false;
    let mut sets = false;
    let mut i: usize = 0;
    while i < stmts.len()
        invariant
            i <= stmts.len(),
            stmts@ == f.block.stmts@,
            gets == exists|k: int| 0 <= k < i && #[trigger] stmt_gets(stmts@[k]),
            sets == exists|k: int| 0 <= k < i && #[trigger] stmt_sets(stmts@[k]),
        decreases stmts.len() - i,
    {
        let (g, s) = match &stmts[i].kind {
            StmtKind::Local { local } => match &local.init {
                Some(init) => (has_persistent_get(init), false),
                None => (false, false),
            },
            StmtKind::Expr { expr, .. } => (has_persistent_get(expr), has_persistent_set(expr)),
            _ => (false, false),
        };
        assert(g == stmt_gets(stmts@[i as int]));
        assert(s == stmt_sets(stmts@[i as int]));
        if g {
            gets = true;
        }
        if s {
            sets = true;
        }
        i = i + 1;
        proof {
            assert(gets == exists|k: int| 0 <= k < i && #[trigger] stmt_gets(stmts@[k])) by {
                if stmt_gets(stmts@[i - 1]) {
                    assert(0 <= i - 1 < i && stmt_gets(stmts@[i - 1]));
                }
            }
            assert(sets == exists|k: int| 0 <= k < i && #[trigger] stmt_sets(stmts@[k])) by {
                if stmt_sets(stmts@[i - 1]) {
                    assert(0 <= i - 1 < i && stmt_sets(stmts@[i - 1]));
                }
            }
        }
    }
    let mut out: Vec<Finding> = Vec::new();
    if !(gets && sets) {
        assert(views(out@) =~= fn_findings(f));
        return out;
    }
    let evs = block_events(&f.block, plain_walk());
    let mut j: usize = 0;
    while j < evs.len()
        invariant
            j <= evs.len(),
            evs@ == ev_block(&f.block, plain()),
            views(out@) == add_hits(evs@, f.name@, j as int),
        decreases evs.len() - j,
    {
        match evs[j] {
            Event::Expr(e) => match e {
                Expr::Binary { op, line, .. } => {
                    let add = match op {
                        BinOp::Add => true,
                        _ => false,
                    };
                    let add_assign = match op {
                        BinOp::AddAssign => true,
                        _ => false,
                    };
                    if add || add_assign {
                        let mut d = String::from_str("`");
                        d.append(f.name.as_str());
                        d.append("` reads a balance from persistent storage and adds to it with `");
                        if add {
                            d.append("+");
                        } else {
                            d.append("+=");
                        }
                        d.append("` without `checked_add`. A large deposit can overflow the balance to a negative or zero value, effectively stealing funds.");
                        let fd = new_finding(CHECK_NAME, Severity::High, *line, f.name.as_str(), d);
                        proof { lemma_views_push(out@, fd); }
                        out.push(fd);
                    }
                }
                _ => {}
            },
            _ => {}
        }
        j = j + 1;
    }
    out
}

impl Check for BalanceOverflowCheck {
    open spec fn spec_name(&self) -> Seq<char> {
        CHECK_NAME@
    }

    open spec fn spec_run(&self, file: &SourceFile, source: Seq<char>) -> Seq<FindingView> {
        over_fns(contract_fns(file), |f: &FnDef| fn_findings(f), contract_fns(file).len() as int)
    }

    fn name(&self) -> (r: &str) {
        CHECK_NAME
    }

    fn run(&self, file: &SourceFile, source: &str) -> (r: Vec<Finding>) {
        let fns = contractimpl_functions(file);
        let mut out: Vec<Finding> = Vec::new();
        let mut i: usize = 0;
        while i < fns.len()
            invariant
                i <= fns.len(),
                fns@ == contract_fns(file),
                views(out@) == over_fns(contract_fns(file), |f: &FnDef| fn_findings(f), i as int),
            decreases fns.len() - i,
        {
            let mut found = scan_fn(fns[i]);
            proof { lemma_views_append(out@, found@); }
            out.append(&mut found);
            i = i + 1;
        }
        out
    }
}

} // verus!

verus! {

proof fn lemma_hits_tagged(evs: Seq<Event>, func: Seq<char>, n: int)
    ensures crate::finding::tagged(add_hits(evs, func, n), CHECK_NAME@, Severity::High),
    decreases n,
{
    if n > 0 && n <= evs.len() {
        lemma_hits_tagged(evs, func, n - 1);
        let prev = add_hits(evs, func, n - 1);
        let cur = add_hits(evs, func, n);
        assert forall|i: int| 0 <= i < cur.len() implies #[trigger] crate::finding::tag_ok(cur[i], CHECK_NAME@, Severity::High) by {
            if i < prev.len() {
                assert(cur[i] == prev[i]);
            }
        }
    }
}

proof fn lemma_fn_tagged(f: &FnDef)
    ensures crate::finding::tagged(fn_findings(f), CHECK_NAME@, Severity::High),
{
    let evs = ev_block(&f.block, plain());
    lemma_hits_tagged(evs, f.name@, evs.len() as int);
}

/// Every finding of this check names it, is of high severity, and has an
/// empty file path.
pub proof fn lemma_findings_tagged(file: &SourceFile, source: Seq<char>)
    ensures crate::finding::tagged(BalanceOverflowCheck.spec_run(file, source), CHECK_NAME@, Severity::High),
{
    let fns = contract_fns(file);
    assert forall|k: int| 0 <= k < fns.len() implies crate::finding::tagged(fn_findings(fns[k]), CHECK_NAME@, Severity::High) by {
        lemma_fn_tagged(fns[k]);
    }
    crate::contract::lemma_over_fns_tagged(fns, |f: &FnDef| fn_findings(f), fns.len() as int, CHECK_NAME@, Severity::High);
}

} // verus!

verus! {

/// Only the functions of `#[contractimpl]` blocks are examined: one more
/// top-level item that is not such a block changes no finding.
pub proof fn lemma_ignores_other_items(a: &SourceFile, b: &SourceFile, source: Seq<char>)
    requires crate::contract::extended_by_other_item(a, b),
    ensures BalanceOverflowCheck.spec_run(b, source) == BalanceOverflowCheck.spec_run(a, source),
{
    crate::contract::lemma_contract_fns_extra_item(a, b);
}

} // verus!

verus! {

/// `e` is `<chain>.<m>(..)` where the chain calls both `storage` and
/// `persistent`.
pub open spec fn persistent_call(e: &Expr, m: Seq<char>) -> bool {
    e matches Expr::MethodCall { receiver, method, .. } && method@ == m
        && spec_chain_calls(receiver, "storage"@) && spec_chain_calls(receiver, "persistent"@)
}

proof fn lemma_add_hits_contain(evs: Seq<Event>, func: Seq<char>, k: int, n: int, x: FindingView)
    requires
        0 <= k < n <= evs.len(),
        add_hits(evs, func, k + 1) == add_hits(evs, func, k).push(x),
    ensures add_hits(evs, func, n).contains(x),
    decreases n,
{
    if n == k + 1 {
        assert(add_hits(evs, func, n)[add_hits(evs, func, k).len() as int] == x);
    } else {
        lemma_add_hits_contain(evs, func, k, n - 1, x);
        let prev = add_hits(evs, func, n - 1);
        let j = choose|j: int| 0 <= j < prev.len() && prev[j] == x;
        assert(add_hits(evs, func, n)[j] == x);
    }
}

/// In a function whose top-level statements read a persistent value
/// (`let v = <persistent>.get(..);`) and write one back
/// (`<persistent>.set(..);`), every `+` or `+=` is reported at its line.
pub proof fn lemma_unchecked_add_flagged(f: &FnDef, i: int, j: int, k: int)
    requires
        0 <= i < f.block.stmts.len(),
        f.block.stmts@[i].kind matches StmtKind::Local { local }
            && (local.init matches Some(init) && persistent_call(&*init, "get"@)),
        0 <= j < f.block.stmts.len(),
        f.block.stmts@[j].kind matches StmtKind::Expr { expr, .. } && persistent_call(&expr, "set"@),
        0 <= k < ev_block(&f.block, plain()).len(),
        ev_block(&f.block, plain())[k] matches Event::Expr(e)
            && e matches Expr::Binary { op, .. } && (op == BinOp::AddAssign || op == BinOp::Add),
    ensures
        fn_findings(f).contains(fv(CHECK_NAME@, Severity::High, ev_block(&f.block, plain())[k]->Expr_0->Binary_line, f.name@,
            description(f.name@, ev_block(&f.block, plain())[k]->Expr_0->Binary_op))),
{
    let stmts = f.block.stmts@;
    assert(stmt_gets(stmts[i]));
    assert(stmt_sets(stmts[j]));
    let evs = ev_block(&f.block, plain());
    let x = fv(CHECK_NAME@, Severity::High, evs[k]->Expr_0->Binary_line, f.name@, description(f.name@, evs[k]->Expr_0->Binary_op));
    assert(add_hits(evs, f.name@, k + 1) == add_hits(evs, f.name@, k).push(x));
    lemma_add_hits_contain(evs, f.name@, k, evs.len() as int, x);
}

} // verus!
