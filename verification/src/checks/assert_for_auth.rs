//! `assert!` used for access control in place of `require_auth`.

use vstd::prelude::*;
use crate::syntax::{BinOp, Expr, FnDef, Macro, SourceFile};
use crate::walk::{block_events, ev_block, plain, plain_walk, Event};
use crate::finding::{fv, lemma_views_append, lemma_views_push, new_finding, views, Check, Finding, FindingView, Severity};
use crate::contract::{contract_fns, contractimpl_functions, over_fns, path_ends_with, path_last_is};

verus! {

pub const CHECK_NAME: &'static str = "assert-for-auth";

/// Flags `assert!(a == b)` or `assert!(a != b)` in `#[contractimpl]`
/// functions where a side is a single identifier (a possible `Address`).
pub struct AssertForAuthCheck;

/// A one-segment path expression.
pub open spec fn spec_is_single_ident(e: &Expr) -> bool {
    match e {
        Expr::Path { path, .. } => path.segments.len() == 1,
        _ => false,
    }
}

/// `==` or `!=` with a single identifier on a side.
pub open spec fn spec_address_comparison(e: &Expr) -> bool {
    match e {
        Expr::Binary { left, op, right, .. } =>
            (*op == BinOp::Eq || *op == BinOp::Ne) && (spec_is_single_ident(left) || spec_is_single_ident(right)),
        _ => false,
    }
}

fn address_comparison(e: &Expr) -> (r: bool)
    ensures r == spec_address_comparison(e),
{
    match e {
        Expr::Binary { left, op, right, .. } => {
            let eq = match op {
                BinOp::Eq | BinOp::Ne => true,
                _ => false,
            };
            let l = match &**left {
                Expr::Path { path, .. } => path.segments.len() == 1,
                _ => false,
            };
            let r = match &**right {
                Expr::Path { path, .. } => path.segments.len() == 1,
                _ => false,
            };
            eq && (l || r)
        }
        _ => false,
    }
}

/// An `assert!` whose argument is such a comparison.
pub open spec fn spec_is_auth_assert(m: &Macro) -> bool {
    path_ends_with(&m.path, "assert"@) && match &m.body {
        Some(cond) => spec_address_comparison(cond),
        None => false,
    }
}

pub open spec fn description(func: Seq<char>) -> Seq<char> {
    "Function `"@ + func + "` uses `assert!` for access control with Address comparison. Use `require_auth()` instead for proper authorization that integrates with Soroban's authorization framework."@
}

/// One finding per such `assert!` among the first `n` events.
pub open spec fn assert_hits(evs: Seq<Event>, func: Seq<char>, n: int) -> Seq<FindingView>
    decreases n,
{
    if n <= 0 || n > evs.len() {
        Seq::empty()
    } else {
        assert_hits(evs, func, n - 1) + match evs[n - 1] {
            Event::Macro(m) =>
                if spec_is_auth_assert(m) { seq![fv(CHECK_NAME@, Severity::High, m.line, func, description(func))] } else { Seq::empty() },
            _ => Seq::empty(),
        }
    }
}

pub open spec fn fn_findings(f: &FnDef) -> Seq<FindingView> {
    let evs = ev_block(&f.block, plain());
    assert_hits(evs, f.name@, evs.len() as int)
}

fn scan_fn(f: &FnDef) -> (r: Vec<Finding>)
    ensures views(r@) == fn_findings(f),
{
    let evs = block_events(&f.block, plain_walk());
    let mut out: Vec<Finding> = Vec::new();
    let mut j: usize = 0;
    while j < evs.len()
        invariant
            j <= evs.len(),
            evs@ == ev_block(&f.block, plain()),
            views(out@) == assert_hits(evs@, f.name@, j as int),
        decreases evs.len() - j,
    {
        match evs[j] {
            Event::Macro(m) => {
                let hit = path_last_is(&m.path, "assert") && match &m.body {
                    Some(cond) => address_comparison(cond),
                    None => false,
                };
                if hit {
                    let mut d = String::from_str("Function `");
                    d.append(f.name.as_str());
                    d.append("` uses `assert!` for access control with Address comparison. Use `require_auth()` instead for proper authorization that integrates with Soroban's authorization framework.");
                    let fd = new_finding(CHECK_NAME, Severity::High, m.line, f.name.as_str(), d);
                    proof { lemma_views_push(out@, fd); }
                    out.push(fd);
                }
            }
            _ => {}
        }
        j = j + 1;
    }
    out
}

impl Check for AssertForAuthCheck {
    open spec fn spec_name(&self) -> Seq<char> {
        CHECK_NAME@
    }

    open spec fn spec_run(&self, file: &SourceFile, source: Seq<char>) -> Seq<FindingView> {
        over_fns(contract_fns(file), |f: &FnDef| fn_findings(f), contract_fns(file).len() as int)
    }

    fn name(&self) -> (r: &str) {
        CHECK_NAME
    }

    fn run(&self, file: &SourceFile, source: &str) -> (r: Vec<Finding>) {
        let fns = contractimpl_functions(file);
        let mut out: Vec<Finding> = Vec::new();
        let mut i: usize = 0;
        while i < fns.len()
            invariant
                i <= fns.len(),
                fns@ == contract_fns(file),
                views(out@) == over_fns(contract_fns(file), |f: &FnDef| fn_findings(f), i as int),
            decreases fns.len() - i,
        {
            let mut found = scan_fn(fns[i]);
            proof { lemma_views_append(out@, found@); }
            out.append(&mut found);
            i = i + 1;
        }
        out
    }
}

} // verus!

verus! {

proof fn lemma_hits_tagged(evs: Seq<Event>, func: Seq<char>, n: int)
    ensures crate::finding::tagged(assert_hits(evs, func, n), CHECK_NAME@, Severity::High),
    decreases n,
{
    if n > 0 && n <= evs.len() {
        lemma_hits_tagged(evs, func, n - 1);
        let prev = assert_hits(evs, func, n - 1);
        let cur = assert_hits(evs, func, n);
        assert forall|i: int| 0 <= i < cur.len() implies #[trigger] crate::finding::tag_ok(cur[i], CHECK_NAME@, Severity::High) by {
            if i < prev.len() {
                assert(cur[i] == prev[i]);
            }
        }
    }
}

proof fn lemma_fn_tagged(f: &FnDef)
    ensures crate::finding::tagged(fn_findings(f), CHECK_NAME@, Severity::High),
{
    let evs = ev_block(&f.block, plain());
    lemma_hits_tagged(evs, f.name@, evs.len() as int);
}

/// Every finding of this check names it, is of high severity, and has an
/// empty file path.
pub proof fn lemma_findings_tagged(file: &SourceFile, source: Seq<char>)
    ensures crate::finding::tagged(AssertForAuthCheck.spec_run(file, source), CHECK_NAME@, Severity::High),
{
    let fns = contract_fns(file);
    assert forall|k: int| 0 <= k < fns.len() implies crate::finding::tagged(fn_findings(fns[k]), CHECK_NAME@, Severity::High) by {
        lemma_fn_tagged(fns[k]);
    }
    crate::contract::lemma_over_fns_tagged(fns, |f: &FnDef| fn_findings(f), fns.len() as int, CHECK_NAME@, Severity::High);
}

} // verus!

verus! {

/// Only the functions of `#[contractimpl]` blocks are examined: one more
/// top-level item that is not such a block changes no finding.
pub proof fn lemma_ignores_other_items(a: &SourceFile, b: &SourceFile, source: Seq<char>)
    requires crate::contract::extended_by_other_item(a, b),
    ensures AssertForAuthCheck.spec_run(b, source) == AssertForAuthCheck.spec_run(a, source),
{
    crate::contract::lemma_contract_fns_extra_item(a, b);
}

} // verus!

verus! {

proof fn lemma_assert_hits_contain(evs: Seq<Event>, func: Seq<char>, k: int, n: int, x: FindingView)
    requires
        0 <= k < n <= evs.len(),
        assert_hits(evs, func, k + 1) == assert_hits(evs, func, k).push(x),
    ensures assert_hits(evs, func, n).contains(x),
    decreases n,
{
    if n == k + 1 {
        assert(assert_hits(evs, func, n)[assert_hits(evs, func, k).len() as int] == x);
    } else {
        lemma_assert_hits_contain(evs, func, k, n - 1, x);
        let prev = assert_hits(evs, func, n - 1);
        let j = choose|j: int| 0 <= j < prev.len() && prev[j] == x;
        assert(assert_hits(evs, func, n)[j] == x);
    }
}

/// `assert!(a == b)` or `assert!(a != b)` with a one-segment name on either
/// side, used in place of `require_auth`, is reported at its line.
pub proof fn lemma_assert_comparison_flagged(f: &FnDef, k: int)
    requires
        0 <= k < ev_block(&f.block, plain()).len(),
        ev_block(&f.block, plain())[k] matches Event::Macro(m)
            && m.path.segments.len() > 0 && m.path.segments@.last().ident@ == "assert"@
            && (m.body matches Some(cond)
                && (*cond matches Expr::Binary { left, op, right, .. }
                    && (op == BinOp::Ne || op == BinOp::Eq)
                    && ((*left matches Expr::Path { path: pl, .. } && pl.segments.len() == 1)
                        || (*right matches Expr::Path { path: pr, .. } && pr.segments.len() == 1)))),
    ensures
        fn_findings(f).contains(fv(CHECK_NAME@, Severity::High, ev_block(&f.block, plain())[k]->Macro_0.line, f.name@, description(f.name@))),
{
    let evs = ev_block(&f.block, plain());
    let x = fv(CHECK_NAME@, Severity::High, evs[k]->Macro_0.line, f.name@, description(f.name@));
    assert(assert_hits(evs, f.name@, k + 1) == assert_hits(evs, f.name@, k).push(x));
    lemma_assert_hits_contain(evs, f.name@, k, evs.len() as int, x);
}

} // verus!
