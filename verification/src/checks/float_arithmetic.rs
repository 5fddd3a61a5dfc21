//! Floating-point arithmetic (`f32`/`f64`) in contract methods.

use vstd::prelude::*;
use crate::syntax::{BinOp, Expr, FnDef, Lit, SourceFile, Ty};
use crate::walk::{block_events, ev_block, plain, plain_walk, Event};
use crate::finding::{fv, lemma_views_append, lemma_views_push, new_finding, views, Check, Finding, FindingView, Severity};
use crate::contract::{contract_fns, contractimpl_functions, hits, over_fns, path_ends_with, path_last_is};

verus! {

pub const CHECK_NAME: &'static str = "float-arithmetic";

/// Flags arithmetic with a floating-point literal or an `as f32`/`as f64`
/// cast as an operand, inside `#[contractimpl]` functions.
pub struct FloatArithmeticCheck;

/// `+ - * /` and their compound assignments.
pub open spec fn spec_is_arithmetic(op: BinOp) -> bool {
    op == BinOp::Add || op == BinOp::Sub || op == BinOp::Mul || op == BinOp::Div
        || op == BinOp::AddAssign || op == BinOp::SubAssign || op == BinOp::MulAssign || op == BinOp::DivAssign
}

fn is_arithmetic(op: BinOp) -> (r: bool)
    ensures r == spec_is_arithmetic(op),
{
    match op {
        BinOp::Add | BinOp::Sub | BinOp::Mul | BinOp::Div | BinOp::AddAssign | BinOp::SubAssign | BinOp::MulAssign | BinOp::DivAssign => true,
        _ => false,
    }
}

pub open spec fn spec_is_float_lit(e: &Expr) -> bool {
    match e {
        Expr::Lit { lit } => lit is Float,
        _ => false,
    }
}

/// `x as f32` or `x as f64`.
pub open spec fn spec_is_float_cast(e: &Expr) -> bool {
    match e {
        Expr::Cast { ty, .. } => match ty {
            Ty::Path { path } => path_ends_with(path, "f32"@) || path_ends_with(path, "f64"@),
            _ => false,
        },
        _ => false,
    }
}

/// A float literal or float cast, possibly in parentheses.
pub open spec fn spec_operand_is_float(e: &Expr) -> bool
    decreases e,
{
    match e {
        Expr::Paren { expr } => spec_operand_is_float(expr),
        _ => spec_is_float_lit(e) || spec_is_float_cast(e),
    }
}

fn is_float_lit(e: &Expr) -> (r: bool)
    ensures r == spec_is_float_lit(e),
{
    match e {
        Expr::Lit { lit } => match lit {
            Lit::Float => true,
            _ => false,
        },
        _ => false,
    }
}

fn is_float_cast(e: &Expr) -> (r: bool)
    ensures r == spec_is_float_cast(e),
{
    match e {
        Expr::Cast { ty, .. } => match ty {
            Ty::Path { path } => path_last_is(path, "f32") || path_last_is(path, "f64"),
            _ => false,
        },
        _ => false,
    }
}

fn operand_is_float(e: &Expr) -> (r: bool)
    ensures r == spec_operand_is_float(e),
    decreases e,
{
    match e {
        Expr::Paren { expr } => operand_is_float(expr),
        _ => is_float_lit(e) || is_float_cast(e),
    }
}

pub open spec fn description(func: Seq<char>) -> Seq<char> {
    "Floating-point arithmetic detected in `"@ + func
        + "`. f32/f64 results can differ across host environments; use integer math for all financial calculations."@
}

/// One finding per arithmetic expression with a float operand.
pub open spec fn event_hit(func: Seq<char>, ev: Event) -> Seq<FindingView> {
    match ev {
        Event::Expr(e) => match e {
            Expr::Binary { left, op, right, line } =>
                if spec_is_arithmetic(*op) && (spec_operand_is_float(left) || spec_operand_is_float(right)) {
                    seq![fv(CHECK_NAME@, Severity::Medium, *line, func, description(func))]
                } else {
                    Seq::empty()
                },
            _ => Seq::empty(),
        },
        _ => Seq::empty(),
    }
}

pub open spec fn fn_findings(f: &FnDef) -> Seq<FindingView> {
    hits(ev_block(&f.block, plain()), |ev: Event| event_hit(f.name@, ev), ev_block(&f.block, plain()).len() as int)
}

fn scan_fn(f: &FnDef) -> (r: Vec<Finding>)
    ensures views(r@) == fn_findings(f),
{
    let evs = block_events(&f.block, plain_walk());
    let ghost h = |ev: Event| event_hit(f.name@, ev);
    let mut out: Vec<Finding> = Vec::new();
    let mut j: usize = 0;
    while j < evs.len()
        invariant
            j <= evs.len(),
            evs@ == ev_block(&f.block, plain()),
            h == (|ev: Event| event_hit(f.name@, ev)),
            views(out@) == hits(evs@, h, j as int),
        decreases evs.len() - j,
    {
        match evs[j] {
            Event::Expr(e) => match e {
                Expr::Binary { left, op, right, line } => {
                    if is_arithmetic(*op) && (operand_is_float(left) || operand_is_float(right)) {
                        let mut d = String::from_str("Floating-point arithmetic detected in `");
                        d.append(f.name.as_str());
                        d.append("`. f32/f64 results can differ across host environments; use integer math for all financial calculations.");
                        let fd = new_finding(CHECK_NAME, Severity::Medium, *line, f.name.as_str(), d);
                        proof { lemma_views_push(out@, fd); }
                        out.push(fd);
                    }
                }
                _ => {}
            },
            _ => {}
        }
        assert(views(out@) =~= hits(evs@, h, j + 1));
        j = j + 1;
    }
    out
}

impl Check for FloatArithmeticCheck {
    open spec fn spec_name(&self) -> Seq<char> {
        CHECK_NAME@
    }

    open spec fn spec_run(&self, file: &SourceFile, source: Seq<char>) -> Seq<FindingView> {
        over_fns(contract_fns(file), |f: &FnDef| fn_findings(f), contract_fns(file).len() as int)
    }

    fn name(&self) -> (r: &str) {
        CHECK_NAME
    }

    fn run(&self, file: &SourceFile, source: &str) -> (r: Vec<Finding>) {
        let fns = contractimpl_functions(file);
        let mut out: Vec<Finding> = Vec::new();
        let mut i: usize = 0;
        while i < fns.len()
            invariant
                i <= fns.len(),
                fns@ == contract_fns(file),
                views(out@) == over_fns(contract_fns(file), |f: &FnDef| fn_findings(f), i as int),
            decreases fns.len() - i,
        {
            let mut found = scan_fn(fns[i]);
            proof { lemma_views_append(out@, found@); }
            out.append(&mut found);
            i = i + 1;
        }
        out
    }
}

} // verus!

verus! {

proof fn lemma_fn_tagged(f: &FnDef)
    ensures crate::finding::tagged(fn_findings(f), CHECK_NAME@, Severity::Medium),
{
    let evs = ev_block(&f.block, plain());
    crate::contract::lemma_hits_tagged(evs, |ev: Event| event_hit(f.name@, ev), evs.len() as int, CHECK_NAME@, Severity::Medium);
}

/// Every finding of this check names it, is of medium severity, and has an
/// empty file path.
pub proof fn lemma_findings_tagged(file: &SourceFile, source: Seq<char>)
    ensures crate::finding::tagged(FloatArithmeticCheck.spec_run(file, source), CHECK_NAME@, Severity::Medium),
{
    let fns = contract_fns(file);
    assert forall|k: int| 0 <= k < fns.len() implies crate::finding::tagged(fn_findings(fns[k]), CHECK_NAME@, Severity::Medium) by {
        lemma_fn_tagged(fns[k]);
    }
    crate::contract::lemma_over_fns_tagged(fns, |f: &FnDef| fn_findings(f), fns.len() as int, CHECK_NAME@, Severity::Medium);
}

} // verus!

verus! {

/// Only the functions of `#[contractimpl]` blocks are examined: one more
/// top-level item that is not such a block changes no finding.
pub proof fn lemma_ignores_other_items(a: &SourceFile, b: &SourceFile, source: Seq<char>)
    requires crate::contract::extended_by_other_item(a, b),
    ensures FloatArithmeticCheck.spec_run(b, source) == FloatArithmeticCheck.spec_run(a, source),
{
    crate::contract::lemma_contract_fns_extra_item(a, b);
}

} // verus!

verus! {

/// `e` is a float literal or a cast to a type whose last segment is `f32`
/// or `f64`.
pub open spec fn is_float_value(e: &Expr) -> bool {
    (e matches Expr::Lit { lit: Lit::Float })
        || (e matches Expr::Cast { ty: Ty::Path { path }, .. } && path.segments.len() > 0
            && (path.segments@.last().ident@ == "f64"@ || path.segments@.last().ident@ == "f32"@))
}

/// `+`, `-`, `*`, `/` or their compound assignments with a float literal or
/// float cast on either side are reported at their line.
pub proof fn lemma_float_arithmetic_flagged(f: &FnDef, k: int)
    requires
        0 <= k < ev_block(&f.block, plain()).len(),
        ev_block(&f.block, plain())[k] matches Event::Expr(e)
            && e matches Expr::Binary { left, op, right, .. }
            && (op == BinOp::Div || op == BinOp::Mul || op == BinOp::Sub || op == BinOp::Add
                || op == BinOp::DivAssign || op == BinOp::MulAssign || op == BinOp::SubAssign || op == BinOp::AddAssign)
            && (is_float_value(left) || is_float_value(right)),
    ensures
        fn_findings(f).contains(fv(CHECK_NAME@, Severity::Medium, ev_block(&f.block, plain())[k]->Expr_0->Binary_line,
            f.name@, description(f.name@))),
{
    let evs = ev_block(&f.block, plain());
    let h = |ev: Event| event_hit(f.name@, ev);
    let x = fv(CHECK_NAME@, Severity::Medium, evs[k]->Expr_0->Binary_line, f.name@, description(f.name@));
    assert(h(evs[k])[0] == x);
    crate::contract::lemma_hits_contain(evs, h, k, evs.len() as int, x);
}

/// A function with no arithmetic on a float literal or float cast (and no
/// parenthesised one) gets no finding.
pub proof fn lemma_no_float_arithmetic_passes(f: &FnDef)
    requires
        forall|k: int| 0 <= k < ev_block(&f.block, plain()).len() ==> !(#[trigger] ev_block(&f.block, plain())[k] matches Event::Expr(e)
            && e matches Expr::Binary { left, right, .. }
            && (spec_operand_is_float(left) || spec_operand_is_float(right))),
    ensures fn_findings(f).len() == 0,
{
    let evs = ev_block(&f.block, plain());
    let h = |ev: Event| event_hit(f.name@, ev);
    assert forall|k: int| 0 <= k < evs.len() && k < evs.len() implies (#[trigger] h(evs[k])).len() == 0 by {
        assert(!(evs[k] matches Event::Expr(e) && e matches Expr::Binary { left, right, .. }
            && (spec_operand_is_float(left) || spec_operand_is_float(right))));
    }
    crate::contract::lemma_hits_none(evs, h, evs.len() as int);
}

} // verus!
