//! Transfer/mint/burn functions without zero-amount validation.

use vstd::prelude::*;
use crate::syntax::{BinOp, Expr, FnArg, FnDef, Lit, Pat, SourceFile};
use crate::walk::{block_events, ev_block, expr_at, lemma_some_expr_step, plain, plain_walk, some_expr, Event};
use crate::finding::{fv, lemma_views_append, new_finding, views, Check, Finding, FindingView, Severity};
use crate::contract::{contract_fns, contractimpl_functions, over_fns, path_ident_is, path_is_ident};
use crate::text::{chars_of, str_eq};

verus! {

pub const CHECK_NAME: &'static str = "zero-amount-transfer";

/// Flags `transfer`/`mint`/`burn` functions with an `amount` parameter whose
/// body never compares `amount` with 0.
pub struct ZeroAmountCheck;

/// The bare identifier `name`.
pub open spec fn spec_expr_is_ident(e: &Expr, name: Seq<char>) -> bool {
    match e {
        Expr::Path { path, .. } => path_is_ident(path, name),
        _ => false,
    }
}

fn expr_is_ident(e: &Expr, name: &str) -> (r: bool)
    ensures r == spec_expr_is_ident(e, name@),
{
    match e {
        Expr::Path { path, .. } => path_ident_is(path, name),
        _ => false,
    }
}

/// Base-10 digits that denote zero.
pub open spec fn digits_are_zero(d: Seq<char>) -> bool {
    d.len() > 0 && forall|i: int| 0 <= i < d.len() ==> d[i] == '0'
}

/// An integer literal whose value is 0.
pub open spec fn spec_expr_is_zero(e: &Expr) -> bool {
    match e {
        Expr::Lit { lit: Lit::Int { digits, .. } } => digits_are_zero(digits@),
        _ => false,
    }
}

fn expr_is_zero(e: &Expr) -> (r: bool)
    ensures r == spec_expr_is_zero(e),
{
    match e {
        Expr::Lit { lit: Lit::Int { digits, .. } } => {
            let d = chars_of(digits.as_str());
            if d.len() == 0 {
                return false;
            }
            let mut i: usize = 0;
            while i < d.len()
                invariant
                    i <= d.len(),
                    d@ == digits@,
                    d@.len() > 0,
                    spec_expr_is_zero(e) == digits_are_zero(digits@),
                    forall|k: int| 0 <= k < i ==> d@[k] == '0',
                decreases d.len() - i,
            {
                if d[i] != '0' {
                    assert(d@[i as int] != '0');
                    assert(!digits_are_zero(d@));
                    return false;
                }
                i = i + 1;
            }
            true
        }
        _ => false,
    }
}

/// A comparison operator: `==`, `!=`, `<`, `<=`, `>` or `>=`.
pub open spec fn spec_is_comparison(op: BinOp) -> bool {
    op == BinOp::Eq || op == BinOp::Ne || op == BinOp::Lt || op == BinOp::Le || op == BinOp::Gt || op == BinOp::Ge
}

/// A comparison of `amount` against 0, either way round: `amount > 0`,
/// `amount == 0`, `0 < amount`, `0 != amount` and so on.
pub open spec fn spec_is_amount_check(e: &Expr) -> bool {
    match e {
        Expr::Binary { left, op, right, .. } =>
            spec_is_comparison(*op) && (
                (spec_expr_is_ident(left, "amount"@) && spec_expr_is_zero(right))
                || (spec_expr_is_zero(left) && spec_expr_is_ident(right, "amount"@))),
        _ => false,
    }
}

fn is_amount_check(e: &Expr) -> (r: bool)
    ensures r == spec_is_amount_check(e),
{
    match e {
        Expr::Binary { left, op, right, .. } => {
            let compares = match op {
                BinOp::Eq | BinOp::Ne | BinOp::Lt | BinOp::Le | BinOp::Gt | BinOp::Ge => true,
                _ => false,
            };
            compares && ((expr_is_ident(left, "amount") && expr_is_zero(right)) || (expr_is_zero(left) && expr_is_ident(right, "amount")))
        }
        _ => false,
    }
}

pub open spec fn check_p<'a>() -> spec_fn(&'a Expr) -> bool {
    |e: &Expr| spec_is_amount_check(e)
}

fn body_checks_amount_positive(f: &FnDef) -> (r: bool)
    ensures r == some_expr(ev_block(&f.block, plain()), check_p()),
{
    let evs = block_events(&f.block, plain_walk());
    let ghost p = check_p();
    let mut found_check = false;
    let mut j: usize = 0;
    while j < evs.len()
        invariant
            j <= evs.len(),
            p == check_p(),
            found_check == exists|k: int| 0 <= k < j && #[trigger] expr_at(evs@, k, p),
        decreases evs.len() - j,
    {
        proof { lemma_some_expr_step(evs@, j as int, p); }
        match evs[j] {
            Event::Expr(e) => {
                if is_amount_check(e) {
                    found_check = true;
                }
            }
            _ => {}
        }
        j = j + 1;
    }
    found_check
}

/// A parameter bound by the identifier `amount`.
pub open spec fn is_amount_param(a: FnArg) -> bool {
    match a {
        FnArg::Typed { pat: Pat::Ident { name, .. }, .. } => name@ == "amount"@,
        _ => false,
    }
}

fn has_amount_param(f: &FnDef) -> (r: bool)
    ensures r == exists|i: int| 0 <= i < f.inputs.len() && is_amount_param(#[trigger] f.inputs@[i]),
{
    let mut i: usize = 0;
    while i < f.inputs.len()
        invariant
            i <= f.inputs.len(),
            forall|k: int| 0 <= k < i ==> !is_amount_param(#[trigger] f.inputs@[k]),
        decreases f.inputs.len() - i,
    {
        match &f.inputs[i] {
            FnArg::Typed { pat: Pat::Ident { name, .. }, .. } => {
                if str_eq(name.as_str(), "amount") {
                    return true;
                }
            }
            _ => {}
        }
        i = i + 1;
    }
    false
}

pub open spec fn description(func: Seq<char>) -> Seq<char> {
    "Function `"@ + func
        + "` accepts an 'amount' parameter but contains no check that amount > 0. Zero-amount transfers can emit spurious events or trigger unintended side effects."@
}

pub open spec fn fn_findings(f: &FnDef) -> Seq<FindingView> {
    if (f.name@ == "transfer"@ || f.name@ == "mint"@ || f.name@ == "burn"@)
        && (exists|i: int| 0 <= i < f.inputs.len() && is_amount_param(#[trigger] f.inputs@[i]))
        && !some_expr(ev_block(&f.block, plain()), check_p()) {
        seq![fv(CHECK_NAME@, Severity::Low, f.fn_line, f.name@, description(f.name@))]
    } else {
        Seq::empty()
    }
}

fn scan_fn(f: &FnDef) -> (r: Vec<Finding>)
    ensures views(r@) == fn_findings(f),
{
    let mut out: Vec<Finding> = Vec::new();
    let name = f.name.as_str();
    if !(str_eq(name, "transfer") || str_eq(name, "mint") || str_eq(name, "burn")) {
        return out;
    }
    if !has_amount_param(f) {
        return out;
    }
    if !body_checks_amount_positive(f) {
        let mut d = String::from_str("Function `");
        d.append(name);
        d.append("` accepts an 'amount' parameter but contains no check that amount > 0. Zero-amount transfers can emit spurious events or trigger unintended side effects.");
        out.push(new_finding(CHECK_NAME, Severity::Low, f.fn_line, name, d));
    }
    assert(views(out@) =~= fn_findings(f));
    out
}

impl Check for ZeroAmountCheck {
    open spec fn spec_name(&self) -> Seq<char> {
        CHECK_NAME@
    }

    open spec fn spec_run(&self, file: &SourceFile, source: Seq<char>) -> Seq<FindingView> {
        over_fns(contract_fns(file), |f: &FnDef| fn_findings(f), contract_fns(file).len() as int)
    }

    fn name(&self) -> (r: &str) {
        CHECK_NAME
    }

    fn run(&self, file: &SourceFile, source: &str) -> (r: Vec<Finding>) {
        let fns = contractimpl_functions(file);
        let mut out: Vec<Finding> = Vec::new();
        let mut i: usize = 0;
        while i < fns.len()
            invariant
                i <= fns.len(),
                fns@ == contract_fns(file),
                views(out@) == over_fns(contract_fns(file), |f: &FnDef| fn_findings(f), i as int),
            decreases fns.len() - i,
        {
            let mut found = scan_fn(fns[i]);
            proof { lemma_views_append(out@, found@); }
            out.append(&mut found);
            i = i + 1;
        }
        out
    }
}

} // verus!

verus! {

/// Every finding of this check names it, is of low severity, and has an
/// empty file path.
pub proof fn lemma_findings_tagged(file: &SourceFile, source: Seq<char>)
    ensures crate::finding::tagged(ZeroAmountCheck.spec_run(file, source), CHECK_NAME@, Severity::Low),
{
    let fns = contract_fns(file);
    crate::contract::lemma_over_fns_tagged(fns, |f: &FnDef| fn_findings(f), fns.len() as int, CHECK_NAME@, Severity::Low);
}

} // verus!

verus! {

/// Only the functions of `#[contractimpl]` blocks are examined: one more
/// top-level item that is not such a block changes no finding.
pub proof fn lemma_ignores_other_items(a: &SourceFile, b: &SourceFile, source: Seq<char>)
    requires crate::contract::extended_by_other_item(a, b),
    ensures ZeroAmountCheck.spec_run(b, source) == ZeroAmountCheck.spec_run(a, source),
{
    crate::contract::lemma_contract_fns_extra_item(a, b);
}

} // verus!

verus! {

/// `e` is the plain identifier `amount`.
pub open spec fn is_amount_ident(e: &Expr) -> bool {
    e matches Expr::Path { path, .. } && !path.leading_colon && path.segments.len() == 1
        && !path.segments@[0].has_args && path.segments@[0].ident@ == "amount"@
}

/// `e` is an integer literal written with zeros only, such as `0` or `0u64`.
pub open spec fn is_zero_literal(e: &Expr) -> bool {
    e matches Expr::Lit { lit: Lit::Int { digits, .. } } && digits@.len() > 0
        && forall|i: int| 0 <= i < digits@.len() ==> digits@[i] == '0'
}

/// `e` compares `amount` with 0, either way round, by any of `>`, `>=`,
/// `<`, `<=`, `!=`, `==`.
pub open spec fn compares_amount_with_zero(e: &Expr) -> bool {
    e matches Expr::Binary { left, op, right, .. }
        && (op == BinOp::Gt || op == BinOp::Ge || op == BinOp::Lt || op == BinOp::Le || op == BinOp::Ne || op == BinOp::Eq)
        && ((is_amount_ident(left) && is_zero_literal(right)) || (is_zero_literal(left) && is_amount_ident(right)))
}

/// A function that compares `amount` with 0 anywhere in its body, in any
/// direction and with either operand first, gets no finding.
pub proof fn lemma_zero_check_passes(f: &FnDef, k: int)
    requires
        0 <= k < ev_block(&f.block, plain()).len(),
        ev_block(&f.block, plain())[k] matches Event::Expr(e) && compares_amount_with_zero(e),
    ensures fn_findings(f) == Seq::<FindingView>::empty(),
{
    assert(expr_at(ev_block(&f.block, plain()), k, check_p()));
}

/// A `transfer`, `mint` or `burn` function with an `amount` parameter and no
/// comparison of `amount` with 0 anywhere gets one finding, at `fn`.
pub proof fn lemma_missing_zero_check_flagged(f: &FnDef, a: int)
    requires
        f.name@ == "burn"@ || f.name@ == "mint"@ || f.name@ == "transfer"@,
        0 <= a < f.inputs.len(),
        f.inputs@[a] matches FnArg::Typed { pat: Pat::Ident { name, .. }, .. } && name@ == "amount"@,
        forall|k: int| 0 <= k < ev_block(&f.block, plain()).len() ==> !(#[trigger] ev_block(&f.block, plain())[k] matches Event::Expr(e)
            && compares_amount_with_zero(e)),
    ensures fn_findings(f) == seq![fv(CHECK_NAME@, Severity::Low, f.fn_line, f.name@, description(f.name@))],
{
    let evs = ev_block(&f.block, plain());
    assert(is_amount_param(f.inputs@[a]));
    assert(!some_expr(evs, check_p())) by {
        if some_expr(evs, check_p()) {
            let j = choose|j: int| 0 <= j < evs.len() && #[trigger] expr_at(evs, j, check_p());
            assert(!(evs[j] matches Event::Expr(e) && compares_amount_with_zero(e)));
        }
    }
}

} // verus!
