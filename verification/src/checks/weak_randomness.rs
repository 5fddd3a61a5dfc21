//! `env.ledger().timestamp()` / `env.ledger().sequence()` used as randomness.

use vstd::prelude::*;
use crate::syntax::{BinOp, Expr, FnDef, SourceFile};
use crate::walk::{block_events, ev_block, plain, plain_walk, Event};
use crate::finding::{fv, lemma_views_append, lemma_views_push, new_finding, views, Check, Finding, FindingView, Severity};
use crate::contract::{contract_fns, contractimpl_functions, hits, over_fns};
use crate::text::str_eq;

verus! {

pub const CHECK_NAME: &'static str = "weak-randomness";

/// Flags arithmetic on, and storage writes of, ledger timestamp or sequence
/// values inside `#[contractimpl]` functions.
pub struct WeakRandomnessCheck;

/// `*.ledger().timestamp()` or `*.ledger().sequence()`, possibly behind `&`.
pub open spec fn spec_is_ledger_rand(e: &Expr) -> bool
    decreases e,
{
    match e {
        Expr::Reference { expr } => spec_is_ledger_rand(expr),
        Expr::MethodCall { receiver, method, .. } =>
            (method@ == "timestamp"@ || method@ == "sequence"@) && match &**receiver {
                Expr::MethodCall { method: inner, .. } => inner@ == "ledger"@,
                _ => false,
            },
        _ => false,
    }
}

fn is_ledger_rand(e: &Expr) -> (r: bool)
    ensures r == spec_is_ledger_rand(e),
    decreases e,
{
    match e {
        Expr::Reference { expr } => is_ledger_rand(expr),
        Expr::MethodCall { receiver, method, .. } => {
            if !(str_eq(method.as_str(), "timestamp") || str_eq(method.as_str(), "sequence")) {
                return false;
            }
            match &**receiver {
                Expr::MethodCall { method: inner, .. } => str_eq(inner.as_str(), "ledger"),
                _ => false,
            }
        }
        _ => false,
    }
}

/// `+ - * / %`.
pub open spec fn spec_is_arithmetic_op(op: BinOp) -> bool {
    op == BinOp::Add || op == BinOp::Sub || op == BinOp::Mul || op == BinOp::Div || op == BinOp::Rem
}

fn is_arithmetic_op(op: BinOp) -> (r: bool)
    ensures r == spec_is_arithmetic_op(op),
{
    match op {
        BinOp::Add | BinOp::Sub | BinOp::Mul | BinOp::Div | BinOp::Rem => true,
        _ => false,
    }
}

pub open spec fn description(func: Seq<char>) -> Seq<char> {
    "`env.ledger().timestamp()` or `env.ledger().sequence()` used as a randomness source in `"@ + func
        + "`. Validators can influence these values; use a VRF or commit-reveal scheme instead."@
}

pub open spec fn spec_finding(line: usize, func: Seq<char>) -> FindingView {
    fv(CHECK_NAME@, Severity::Medium, line, func, description(func))
}

/// The finding reported at `line` in function `fn_name`.
pub fn finding(line: usize, fn_name: &str) -> (r: Finding)
    ensures r@ == spec_finding(line, fn_name@),
{
    let mut d = String::from_str("`env.ledger().timestamp()` or `env.ledger().sequence()` used as a randomness source in `");
    d.append(fn_name);
    d.append("`. Validators can influence these values; use a VRF or commit-reveal scheme instead.");
    new_finding(CHECK_NAME, Severity::Medium, line, fn_name, d)
}

/// Arithmetic with a ledger value as an operand, or a `set` whose last
/// argument is a ledger value.
pub open spec fn event_hit(func: Seq<char>, ev: Event) -> Seq<FindingView> {
    match ev {
        Event::Expr(e) => match e {
            Expr::Binary { left, op, right, line } =>
                if spec_is_arithmetic_op(*op) && (spec_is_ledger_rand(left) || spec_is_ledger_rand(right)) {
                    seq![spec_finding(*line, func)]
                } else {
                    Seq::empty()
                },
            Expr::MethodCall { method, args, line, .. } =>
                if method@ == "set"@ && args.len() > 0 && spec_is_ledger_rand(&args@.last()) {
                    seq![spec_finding(*line, func)]
                } else {
                    Seq::empty()
                },
            _ => Seq::empty(),
        },
        _ => Seq::empty(),
    }
}

pub open spec fn fn_findings(f: &FnDef) -> Seq<FindingView> {
    hits(ev_block(&f.block, plain()), |ev: Event| event_hit(f.name@, ev), ev_block(&f.block, plain()).len() as int)
}

fn scan_fn(f: &FnDef) -> (r: Vec<Finding>)
    ensures views(r@) == fn_findings(f),
{
    let evs = block_events(&f.block, plain_walk());
    let ghost h = |ev: Event| event_hit(f.name@, ev);
    let mut out: Vec<Finding> = Vec::new();
    let mut j: usize = 0;
    while j < evs.len()
        invariant
            j <= evs.len(),
            evs@ == ev_block(&f.block, plain()),
            h == (|ev: Event| event_hit(f.name@, ev)),
            views(out@) == hits(evs@, h, j as int),
        decreases evs.len() - j,
    {
        match evs[j] {
            Event::Expr(e) => match e {
                Expr::Binary { left, op, right, line } => {
                    if is_arithmetic_op(*op) && (is_ledger_rand(left) || is_ledger_rand(right)) {
                        let fd = finding(*line, f.name.as_str());
                        proof { lemma_views_push(out@, fd); }
                        out.push(fd);
                    }
                }
                Expr::MethodCall { method, args, line, .. } => {
                    if str_eq(method.as_str(), "set") && args.len() > 0 && is_ledger_rand(&args[args.len() - 1]) {
                        let fd = finding(*line, f.name.as_str());
                        proof { lemma_views_push(out@, fd); }
                        out.push(fd);
                    }
                }
                _ => {}
            },
            _ => {}
        }
        assert(views(out@) =~= hits(evs@, h, j + 1));
        j = j + 1;
    }
    out
}

impl Check for WeakRandomnessCheck {
    open spec fn spec_name(&self) -> Seq<char> {
        CHECK_NAME@
    }

    open spec fn spec_run(&self, file: &SourceFile, source: Seq<char>) -> Seq<FindingView> {
        over_fns(contract_fns(file), |f: &FnDef| fn_findings(f), contract_fns(file).len() as int)
    }

    fn name(&self) -> (r: &str) {
        CHECK_NAME
    }

    fn run(&self, file: &SourceFile, source: &str) -> (r: Vec<Finding>) {
        let fns = contractimpl_functions(file);
        let mut out: Vec<Finding> = Vec::new();
        let mut i: usize = 0;
        while i < fns.len()
            invariant
                i <= fns.len(),
                fns@ == contract_fns(file),
                views(out@) == over_fns(contract_fns(file), |f: &FnDef| fn_findings(f), i as int),
            decreases fns.len() - i,
        {
            let mut found = scan_fn(fns[i]);
            proof { lemma_views_append(out@, found@); }
            out.append(&mut found);
            i = i + 1;
        }
        out
    }
}

} // verus!

verus! {

proof fn lemma_fn_tagged(f: &FnDef)
    ensures crate::finding::tagged(fn_findings(f), CHECK_NAME@, Severity::Medium),
{
    let evs = ev_block(&f.block, plain());
    crate::contract::lemma_hits_tagged(evs, |ev: Event| event_hit(f.name@, ev), evs.len() as int, CHECK_NAME@, Severity::Medium);
}

/// Every finding of this check names it, is of medium severity, and has an
/// empty file path.
pub proof fn lemma_findings_tagged(file: &SourceFile, source: Seq<char>)
    ensures crate::finding::tagged(WeakRandomnessCheck.spec_run(file, source), CHECK_NAME@, Severity::Medium),
{
    let fns = contract_fns(file);
    assert forall|k: int| 0 <= k < fns.len() implies crate::finding::tagged(fn_findings(fns[k]), CHECK_NAME@, Severity::Medium) by {
        lemma_fn_tagged(fns[k]);
    }
    crate::contract::lemma_over_fns_tagged(fns, |f: &FnDef| fn_findings(f), fns.len() as int, CHECK_NAME@, Severity::Medium);
}

} // verus!

verus! {

/// Only the functions of `#[contractimpl]` blocks are examined: one more
/// top-level item that is not such a block changes no finding.
pub proof fn lemma_ignores_other_items(a: &SourceFile, b: &SourceFile, source: Seq<char>)
    requires crate::contract::extended_by_other_item(a, b),
    ensures WeakRandomnessCheck.spec_run(b, source) == WeakRandomnessCheck.spec_run(a, source),
{
    crate::contract::lemma_contract_fns_extra_item(a, b);
}

} // verus!

verus! {

/// `e` (possibly under one `&`) is `<x>.ledger().timestamp()` or
/// `<x>.ledger().sequence()`.
pub open spec fn is_ledger_value(e: &Expr) -> bool {
    let inner = match e {
        Expr::Reference { expr } => &**expr,
        other => other,
    };
    inner matches Expr::MethodCall { receiver, method, .. }
        && (method@ == "sequence"@ || method@ == "timestamp"@)
        && (**receiver matches Expr::MethodCall { method: m2, .. } && m2@ == "ledger"@)
}

/// Arithmetic (`+`, `-`, `*`, `/`, `%`) with a ledger timestamp or sequence
/// on either side is reported at its line.
pub proof fn lemma_ledger_arithmetic_flagged(f: &FnDef, k: int)
    requires
        0 <= k < ev_block(&f.block, plain()).len(),
        ev_block(&f.block, plain())[k] matches Event::Expr(e)
            && e matches Expr::Binary { left, op, right, .. }
            && (op == BinOp::Rem || op == BinOp::Div || op == BinOp::Mul || op == BinOp::Sub || op == BinOp::Add)
            && (is_ledger_value(left) || is_ledger_value(right)),
    ensures
        fn_findings(f).contains(spec_finding(ev_block(&f.block, plain())[k]->Expr_0->Binary_line, f.name@)),
{
    let evs = ev_block(&f.block, plain());
    let h = |ev: Event| event_hit(f.name@, ev);
    let x = spec_finding(evs[k]->Expr_0->Binary_line, f.name@);
    match evs[k] {
        Event::Expr(e) => match e {
            Expr::Binary { left, right, .. } => {
                assert(spec_is_ledger_rand(left) || spec_is_ledger_rand(right)) by {
                    if is_ledger_value(left) {
                        match &**left {
                            Expr::Reference { expr } => { assert(spec_is_ledger_rand(&**expr)); },
                            _ => {},
                        }
                    } else {
                        match &**right {
                            Expr::Reference { expr } => { assert(spec_is_ledger_rand(&**expr)); },
                            _ => {},
                        }
                    }
                }
                assert(h(evs[k])[0] == x);
            },
            _ => {},
        },
        _ => {},
    }
    crate::contract::lemma_hits_contain(evs, h, k, evs.len() as int, x);
}

/// A `set(.., v)` call whose last argument is a ledger timestamp or sequence
/// is reported at its line.
pub proof fn lemma_ledger_value_stored_flagged(f: &FnDef, k: int)
    requires
        0 <= k < ev_block(&f.block, plain()).len(),
        ev_block(&f.block, plain())[k] matches Event::Expr(e)
            && e matches Expr::MethodCall { method, args, .. } && method@ == "set"@ && args.len() > 0
            && is_ledger_value(&args@.last()),
    ensures
        fn_findings(f).contains(spec_finding(ev_block(&f.block, plain())[k]->Expr_0->MethodCall_line, f.name@)),
{
    let evs = ev_block(&f.block, plain());
    let h = |ev: Event| event_hit(f.name@, ev);
    let x = spec_finding(evs[k]->Expr_0->MethodCall_line, f.name@);
    match evs[k] {
        Event::Expr(e) => match e {
            Expr::MethodCall { args, .. } => {
                let a = &args@.last();
                assert(spec_is_ledger_rand(a)) by {
                    match a {
                        Expr::Reference { expr } => { assert(spec_is_ledger_rand(&**expr)); },
                        _ => {},
                    }
                }
                assert(h(evs[k])[0] == x);
            },
            _ => {},
        },
        _ => {},
    }
    crate::contract::lemma_hits_contain(evs, h, k, evs.len() as int, x);
}

} // verus!
