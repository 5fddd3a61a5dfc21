//! `timestamp() + lock_period` cast to or stored as `u32` (truncation bypass).

use vstd::prelude::*;
use crate::syntax::{BinOp, Expr, FnDef, Pat, SourceFile, Ty};
use crate::walk::{block_events, ev_block, plain, plain_walk, Event};
use crate::finding::{fv, lemma_views_append, lemma_views_push, new_finding, views, Check, Finding, FindingView, Severity};
use crate::contract::{contract_fns, contractimpl_functions, hits, over_fns, path_ident_is, path_is_ident};
use crate::text::str_eq;

verus! {

pub const CHECK_NAME: &'static str = "lock-period-truncation";

/// Flags `env.ledger().timestamp() + x` whose result is cast to `u32` or bound
/// by a `u32`-typed `let`.
pub struct LockPeriodTruncationCheck;

/// A method-call chain that calls `timestamp()`.
pub open spec fn spec_contains_timestamp(e: &Expr) -> bool
    decreases e,
{
    match e {
        Expr::MethodCall { receiver, method, .. } => method@ == "timestamp"@ || spec_contains_timestamp(receiver),
        _ => false,
    }
}

fn contains_timestamp(e: &Expr) -> (r: bool)
    ensures r == spec_contains_timestamp(e),
    decreases e,
{
    match e {
        Expr::MethodCall { receiver, method, .. } => str_eq(method.as_str(), "timestamp") || contains_timestamp(receiver),
        _ => false,
    }
}

/// `e`, with parentheses removed, is an addition with a timestamp chain on
/// either side.
pub open spec fn spec_is_timestamp_add(e: &Expr) -> bool
    decreases e,
{
    match e {
        Expr::Binary { left, op, right, .. } => *op == BinOp::Add && (spec_contains_timestamp(left) || spec_contains_timestamp(right)),
        Expr::Paren { expr } => spec_is_timestamp_add(expr),
        _ => false,
    }
}

fn is_timestamp_add(e: &Expr) -> (r: bool)
    ensures r == spec_is_timestamp_add(e),
    decreases e,
{
    match e {
        Expr::Binary { left, op, right, .. } => *op == BinOp::Add && (contains_timestamp(left) || contains_timestamp(right)),
        Expr::Paren { expr } => is_timestamp_add(expr),
        _ => false,
    }
}

pub open spec fn spec_type_is_u32(ty: &Ty) -> bool {
    match ty {
        Ty::Path { path } => path_is_ident(path, "u32"@),
        _ => false,
    }
}

fn type_is_u32(ty: &Ty) -> (r: bool)
    ensures r == spec_type_is_u32(ty),
{
    match ty {
        Ty::Path { path } => path_ident_is(path, "u32"),
        _ => false,
    }
}

pub open spec fn description(func: Seq<char>) -> Seq<char> {
    "`"@ + func
        + "` adds a lock/cooldown period to `env.ledger().timestamp()` and stores the result as `u32`. After year 2106 the value wraps, silently bypassing the time-lock. Use `u64` for all unlock timestamps."@
}

pub open spec fn spec_finding(line: usize, func: Seq<char>) -> FindingView {
    fv(CHECK_NAME@, Severity::Medium, line, func, description(func))
}

/// The finding reported at `line` in function `fn_name`.
pub fn finding(line: usize, fn_name: &str) -> (r: Finding)
    ensures r@ == spec_finding(line, fn_name@),
{
    let mut d = String::from_str("`");
    d.append(fn_name);
    d.append("` adds a lock/cooldown period to `env.ledger().timestamp()` and stores the result as `u32`. After year 2106 the value wraps, silently bypassing the time-lock. Use `u64` for all unlock timestamps.");
    new_finding(CHECK_NAME, Severity::Medium, line, fn_name, d)
}

/// `(timestamp + x) as u32`, or `let v: u32 = timestamp + x;`.
pub open spec fn event_hit(func: Seq<char>, ev: Event) -> Seq<FindingView> {
    match ev {
        Event::Expr(e) => match e {
            Expr::Cast { expr, ty, line } =>
                if spec_type_is_u32(ty) && spec_is_timestamp_add(expr) {
                    seq![spec_finding(*line, func)]
                } else {
                    Seq::empty()
                },
            _ => Seq::empty(),
        },
        Event::Local(l) => match &l.pat {
            Pat::Typed { ty, .. } => match &l.init {
                Some(init) => if spec_type_is_u32(ty) && spec_is_timestamp_add(init) {
                    seq![spec_finding(l.line, func)]
                } else {
                    Seq::empty()
                },
                None => Seq::empty(),
            },
            _ => Seq::empty(),
        },
        _ => Seq::empty(),
    }
}

pub open spec fn fn_findings(f: &FnDef) -> Seq<FindingView> {
    hits(ev_block(&f.block, plain()), |ev: Event| event_hit(f.name@, ev), ev_block(&f.block, plain()).len() as int)
}

fn scan_fn(f: &FnDef) -> (r: Vec<Finding>)
    ensures views(r@) == fn_findings(f),
{
    let evs = block_events(&f.block, plain_walk());
    let ghost h = |ev: Event| event_hit(f.name@, ev);
    let mut out: Vec<Finding> = Vec::new();
    let mut j: usize = 0;
    while j < evs.len()
        invariant
            j <= evs.len(),
            evs@ == ev_block(&f.block, plain()),
            h == (|ev: Event| event_hit(f.name@, ev)),
            views(out@) == hits(evs@, h, j as int),
        decreases evs.len() - j,
    {
        match evs[j] {
            Event::Expr(e) => match e {
                Expr::Cast { expr, ty, line } => {
                    if type_is_u32(ty) && is_timestamp_add(expr) {
                        let fd = finding(*line, f.name.as_str());
                        proof { lemma_views_push(out@, fd); }
                        out.push(fd);
                    }
                }
                _ => {}
            },
            Event::Local(l) => match &l.pat {
                Pat::Typed { ty, .. } => match &l.init {
                    Some(init) => {
                        if type_is_u32(ty) && is_timestamp_add(init) {
                            let fd = finding(l.line, f.name.as_str());
                            proof { lemma_views_push(out@, fd); }
                            out.push(fd);
                        }
                    }
                    None => {}
                },
                _ => {}
            },
            _ => {}
        }
        assert(views(out@) =~= hits(evs@, h, j + 1));
        j = j + 1;
    }
    out
}

impl Check for LockPeriodTruncationCheck {
    open spec fn spec_name(&self) -> Seq<char> {
        CHECK_NAME@
    }

    open spec fn spec_run(&self, file: &SourceFile, source: Seq<char>) -> Seq<FindingView> {
        over_fns(contract_fns(file), |f: &FnDef| fn_findings(f), contract_fns(file).len() as int)
    }

    fn name(&self) -> (r: &str) {
        CHECK_NAME
    }

    fn run(&self, file: &SourceFile, source: &str) -> (r: Vec<Finding>) {
        let fns = contractimpl_functions(file);
        let mut out: Vec<Finding> = Vec::new();
        let mut i: usize = 0;
        while i < fns.len()
            invariant
                i <= fns.len(),
                fns@ == contract_fns(file),
                views(out@) == over_fns(contract_fns(file), |f: &FnDef| fn_findings(f), i as int),
            decreases fns.len() - i,
        {
            let mut found = scan_fn(fns[i]);
            proof { lemma_views_append(out@, found@); }
            out.append(&mut found);
            i = i + 1;
        }
        out
    }
}

} // verus!

verus! {

proof fn lemma_fn_tagged(f: &FnDef)
    ensures crate::finding::tagged(fn_findings(f), CHECK_NAME@, Severity::Medium),
{
    let evs = ev_block(&f.block, plain());
    crate::contract::lemma_hits_tagged(evs, |ev: Event| event_hit(f.name@, ev), evs.len() as int, CHECK_NAME@, Severity::Medium);
}

/// Every finding of this check names it, is of medium severity, and has an
/// empty file path.
pub proof fn lemma_findings_tagged(file: &SourceFile, source: Seq<char>)
    ensures crate::finding::tagged(LockPeriodTruncationCheck.spec_run(file, source), CHECK_NAME@, Severity::Medium),
{
    let fns = contract_fns(file);
    assert forall|k: int| 0 <= k < fns.len() implies crate::finding::tagged(fn_findings(fns[k]), CHECK_NAME@, Severity::Medium) by {
        lemma_fn_tagged(fns[k]);
    }
    crate::contract::lemma_over_fns_tagged(fns, |f: &FnDef| fn_findings(f), fns.len() as int, CHECK_NAME@, Severity::Medium);
}

} // verus!

verus! {

/// Only the functions of `#[contractimpl]` blocks are examined: one more
/// top-level item that is not such a block changes no finding.
pub proof fn lemma_ignores_other_items(a: &SourceFile, b: &SourceFile, source: Seq<char>)
    requires crate::contract::extended_by_other_item(a, b),
    ensures LockPeriodTruncationCheck.spec_run(b, source) == LockPeriodTruncationCheck.spec_run(a, source),
{
    crate::contract::lemma_contract_fns_extra_item(a, b);
}

} // verus!

verus! {

/// `e` is a method chain that calls `timestamp()` somewhere.
pub open spec fn calls_timestamp(e: &Expr) -> bool
    decreases e,
{
    match e {
        Expr::MethodCall { receiver, method, .. } => method@ == "timestamp"@ || calls_timestamp(receiver),
        _ => false,
    }
}

/// `e` is `a + b` with a timestamp call chain on either side.
pub open spec fn adds_to_timestamp(e: &Expr) -> bool {
    e matches Expr::Binary { left, op, right, .. } && op == BinOp::Add && (calls_timestamp(left) || calls_timestamp(right))
}

/// The type is the plain identifier `u32`.
pub open spec fn is_u32(t: &Ty) -> bool {
    t matches Ty::Path { path } && !path.leading_colon && path.segments.len() == 1
        && !path.segments@[0].has_args && path.segments@[0].ident@ == "u32"@
}

proof fn lemma_calls_timestamp(e: &Expr)
    requires calls_timestamp(e),
    ensures spec_contains_timestamp(e),
    decreases e,
{
    match e {
        Expr::MethodCall { receiver, method, .. } => {
            if method@ != "timestamp"@ {
                lemma_calls_timestamp(receiver);
            }
        },
        _ => {},
    }
}

/// `(timestamp + period) as u32` is reported at its line.
pub proof fn lemma_u32_cast_flagged(f: &FnDef, k: int)
    requires
        0 <= k < ev_block(&f.block, plain()).len(),
        ev_block(&f.block, plain())[k] matches Event::Expr(e)
            && e matches Expr::Cast { expr, ty, .. } && is_u32(&ty)
            && (adds_to_timestamp(&**expr) || (**expr matches Expr::Paren { expr: inner } && adds_to_timestamp(&*inner))),
    ensures fn_findings(f).contains(spec_finding(ev_block(&f.block, plain())[k]->Expr_0->Cast_line, f.name@)),
{
    let evs = ev_block(&f.block, plain());
    let h = |ev: Event| event_hit(f.name@, ev);
    let x = spec_finding(evs[k]->Expr_0->Cast_line, f.name@);
    match evs[k] {
        Event::Expr(e) => match e {
            Expr::Cast { expr, .. } => {
                match &**expr {
                    Expr::Paren { expr: inner } => {
                        match &**inner {
                            Expr::Binary { left, right, .. } => {
                                if calls_timestamp(left) { lemma_calls_timestamp(left); } else { lemma_calls_timestamp(right); }
                            },
                            _ => {},
                        }
                        assert(spec_is_timestamp_add(&**inner));
                    },
                    Expr::Binary { left, right, .. } => {
                        if calls_timestamp(left) { lemma_calls_timestamp(left); } else { lemma_calls_timestamp(right); }
                    },
                    _ => {},
                }
                assert(spec_is_timestamp_add(&**expr));
            },
            _ => {},
        },
        _ => {},
    }
    assert(h(evs[k])[0] == x);
    crate::contract::lemma_hits_contain(evs, h, k, evs.len() as int, x);
}

/// `let x: u32 = timestamp + period;` is reported at its line.
pub proof fn lemma_u32_binding_flagged(f: &FnDef, k: int)
    requires
        0 <= k < ev_block(&f.block, plain()).len(),
        ev_block(&f.block, plain())[k] matches Event::Local(l)
            && (l.pat matches Pat::Typed { ty, .. } && is_u32(&ty))
            && (l.init matches Some(init) && adds_to_timestamp(&*init)),
    ensures fn_findings(f).contains(spec_finding(ev_block(&f.block, plain())[k]->Local_0.line, f.name@)),
{
    let evs = ev_block(&f.block, plain());
    let h = |ev: Event| event_hit(f.name@, ev);
    let x = spec_finding(evs[k]->Local_0.line, f.name@);
    match evs[k] {
        Event::Local(l) => match &l.init {
            Some(init) => match &**init {
                Expr::Binary { left, right, .. } => {
                    if calls_timestamp(left) { lemma_calls_timestamp(left); } else { lemma_calls_timestamp(right); }
                },
                _ => {},
            },
            None => {},
        },
        _ => {},
    }
    assert(h(evs[k])[0] == x);
    crate::contract::lemma_hits_contain(evs, h, k, evs.len() as int, x);
}

} // verus!
