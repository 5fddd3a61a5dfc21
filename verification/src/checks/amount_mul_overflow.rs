//! Token amount multiplication passed directly to transfer/mint/burn calls
//! without `checked_mul`.

use vstd::prelude::*;
use crate::syntax::{BinOp, Expr, FnDef, SourceFile};
use crate::walk::{block_events, ev_block, plain, plain_walk, Event};
use crate::finding::{fv, lemma_views_append, lemma_views_push, new_finding, views, Check, Finding, FindingView, Severity};
use crate::contract::{contract_fns, contractimpl_functions, hits, over_fns, path_ident_is, path_is_ident};
use crate::text::str_eq;

verus! {

pub const CHECK_NAME: &'static str = "amount-mul-overflow";

/// Flags `.transfer(_, _, a * b)`, `.mint(_, a * b)` and `.burn(_, a * b)`
/// calls whose receiver is not the bare `env`.
pub struct AmountMulOverflowCheck;

/// Anything but the bare path `env`.
pub open spec fn spec_receiver_is_not_bare_env(e: &Expr) -> bool {
    match e {
        Expr::Path { path, .. } => !path_is_ident(path, "env"@),
        _ => true,
    }
}

fn receiver_is_not_bare_env(e: &Expr) -> (r: bool)
    ensures r == spec_receiver_is_not_bare_env(e),
{
    match e {
        Expr::Path { path, .. } => !path_ident_is(path, "env"),
        _ => true,
    }
}

/// A multiplication, possibly behind `&` or parentheses.
pub open spec fn spec_is_mul_binary(e: &Expr) -> bool
    decreases e,
{
    match e {
        Expr::Binary { op, .. } => *op == BinOp::Mul,
        Expr::Reference { expr } => spec_is_mul_binary(expr),
        Expr::Paren { expr } => spec_is_mul_binary(expr),
        _ => false,
    }
}

fn is_mul_binary(e: &Expr) -> (r: bool)
    ensures r == spec_is_mul_binary(e),
    decreases e,
{
    match e {
        Expr::Binary { op, .. } => *op == BinOp::Mul,
        Expr::Reference { expr } => is_mul_binary(expr),
        Expr::Paren { expr } => is_mul_binary(expr),
        _ => false,
    }
}

/// The amount argument of `transfer` (the third) or of `burn`/`mint` (the
/// second) is a multiplication.
pub open spec fn spec_is_token_amount_binary_arg(method: Seq<char>, args: Seq<Expr>) -> bool {
    if method == "transfer"@ {
        args.len() > 2 && spec_is_mul_binary(&args[2])
    } else if method == "burn"@ || method == "mint"@ {
        args.len() > 1 && spec_is_mul_binary(&args[1])
    } else {
        false
    }
}

fn is_token_amount_binary_arg(method: &String, args: &Vec<Expr>) -> (r: bool)
    ensures r == spec_is_token_amount_binary_arg(method@, args@),
{
    if str_eq(method.as_str(), "transfer") {
        args.len() > 2 && is_mul_binary(&args[2])
    } else if str_eq(method.as_str(), "burn") || str_eq(method.as_str(), "mint") {
        args.len() > 1 && is_mul_binary(&args[1])
    } else {
        false
    }
}

pub open spec fn description(func: Seq<char>, method: Seq<char>) -> Seq<char> {
    "Method `"@ + func + "` passes the result of `*` directly into `."@ + method
        + "` without `checked_mul`. \n                         Multiply token amounts with `checked_mul` or `saturating_mul` to avoid silent overflow."@
}

pub open spec fn event_hit(func: Seq<char>, ev: Event) -> Seq<FindingView> {
    match ev {
        Event::Expr(e) => match e {
            Expr::MethodCall { receiver, method, args, line } =>
                if spec_is_token_amount_binary_arg(method@, args@) && spec_receiver_is_not_bare_env(receiver) {
                    seq![fv(CHECK_NAME@, Severity::High, *line, func, description(func, method@))]
                } else {
                    Seq::empty()
                },
            _ => Seq::empty(),
        },
        _ => Seq::empty(),
    }
}

pub open spec fn fn_findings(f: &FnDef) -> Seq<FindingView> {
    hits(ev_block(&f.block, plain()), |ev: Event| event_hit(f.name@, ev), ev_block(&f.block, plain()).len() as int)
}

fn scan_fn(f: &FnDef) -> (r: Vec<Finding>)
    ensures views(r@) == fn_findings(f),
{
    let evs = block_events(&f.block, plain_walk());
    let ghost h = |ev: Event| event_hit(f.name@, ev);
    let mut out: Vec<Finding> = Vec::new();
    let mut j: usize = 0;
    while j < evs.len()
        invariant
            j <= evs.len(),
            evs@ == ev_block(&f.block, plain()),
            h == (|ev: Event| event_hit(f.name@, ev)),
            views(out@) == hits(evs@, h, j as int),
        decreases evs.len() - j,
    {
        match evs[j] {
            Event::Expr(e) => match e {
                Expr::MethodCall { receiver, method, args, line } => {
                    if is_token_amount_binary_arg(method, args) && receiver_is_not_bare_env(receiver) {
                        let mut d = String::from_str("Method `");
                        d.append(f.name.as_str());
                        d.append("` passes the result of `*` directly into `.");
                        d.append(method.as_str());
                        d.append("` without `checked_mul`. \n                         Multiply token amounts with `checked_mul` or `saturating_mul` to avoid silent overflow.");
                        let fd = new_finding(CHECK_NAME, Severity::High, *line, f.name.as_str(), d);
                        proof { lemma_views_push(out@, fd); }
                        out.push(fd);
                    }
                }
                _ => {}
            },
            _ => {}
        }
        assert(views(out@) =~= hits(evs@, h, j + 1));
        j = j + 1;
    }
    out
}

impl Check for AmountMulOverflowCheck {
    open spec fn spec_name(&self) -> Seq<char> {
        CHECK_NAME@
    }

    open spec fn spec_run(&self, file: &SourceFile, source: Seq<char>) -> Seq<FindingView> {
        over_fns(contract_fns(file), |f: &FnDef| fn_findings(f), contract_fns(file).len() as int)
    }

    fn name(&self) -> (r: &str) {
        CHECK_NAME
    }

    fn run(&self, file: &SourceFile, source: &str) -> (r: Vec<Finding>) {
        let fns = contractimpl_functions(file);
        let mut out: Vec<Finding> = Vec::new();
        let mut i: usize = 0;
        while i < fns.len()
            invariant
                i <= fns.len(),
                fns@ == contract_fns(file),
                views(out@) == over_fns(contract_fns(file), |f: &FnDef| fn_findings(f), i as int),
            decreases fns.len() - i,
        {
            let mut found = scan_fn(fns[i]);
            proof { lemma_views_append(out@, found@); }
            out.append(&mut found);
            i = i + 1;
        }
        out
    }
}

} // verus!

verus! {

proof fn lemma_fn_tagged(f: &FnDef)
    ensures crate::finding::tagged(fn_findings(f), CHECK_NAME@, Severity::High),
{
    let evs = ev_block(&f.block, plain());
    crate::contract::lemma_hits_tagged(evs, |ev: Event| event_hit(f.name@, ev), evs.len() as int, CHECK_NAME@, Severity::High);
}

/// Every finding of this check names it, is of high severity, and has an
/// empty file path.
pub proof fn lemma_findings_tagged(file: &SourceFile, source: Seq<char>)
    ensures crate::finding::tagged(AmountMulOverflowCheck.spec_run(file, source), CHECK_NAME@, Severity::High),
{
    let fns = contract_fns(file);
    assert forall|k: int| 0 <= k < fns.len() implies crate::finding::tagged(fn_findings(fns[k]), CHECK_NAME@, Severity::High) by {
        lemma_fn_tagged(fns[k]);
    }
    crate::contract::lemma_over_fns_tagged(fns, |f: &FnDef| fn_findings(f), fns.len() as int, CHECK_NAME@, Severity::High);
}

} // verus!

verus! {

/// Only the functions of `#[contractimpl]` blocks are examined: one more
/// top-level item that is not such a block changes no finding.
pub proof fn lemma_ignores_other_items(a: &SourceFile, b: &SourceFile, source: Seq<char>)
    requires crate::contract::extended_by_other_item(a, b),
    ensures AmountMulOverflowCheck.spec_run(b, source) == AmountMulOverflowCheck.spec_run(a, source),
{
    crate::contract::lemma_contract_fns_extra_item(a, b);
}

} // verus!

verus! {

/// `e` is a plain `a * b`.
pub open spec fn is_product(e: &Expr) -> bool {
    e matches Expr::Binary { op, .. } && op == BinOp::Mul
}

/// `e` is the plain identifier `env`.
pub open spec fn is_bare_env(e: &Expr) -> bool {
    e matches Expr::Path { path, .. } && !path.leading_colon && path.segments.len() == 1
        && !path.segments@[0].has_args && path.segments@[0].ident@ == "env"@
}

/// A token call that takes a product as its amount (`transfer(from, to, a *
/// b)`, `burn(from, a * b)`, `mint(to, a * b)`, the product possibly under
/// `&`), on any receiver but the bare `env`, is reported at its line.
pub proof fn lemma_unchecked_product_flagged(f: &FnDef, k: int, amount_index: int)
    requires
        0 <= k < ev_block(&f.block, plain()).len(),
        ev_block(&f.block, plain())[k] matches Event::Expr(e)
            && e matches Expr::MethodCall { receiver, method, args, .. } && !is_bare_env(receiver)
            && (((method@ == "mint"@ || method@ == "burn"@) && amount_index == 1)
                || (method@ == "transfer"@ && amount_index == 2))
            && amount_index < args.len()
            && (is_product(&args@[amount_index])
                || (args@[amount_index] matches Expr::Reference { expr } && is_product(&*expr))),
    ensures
        fn_findings(f).contains(fv(CHECK_NAME@, Severity::High, ev_block(&f.block, plain())[k]->Expr_0->MethodCall_line,
            f.name@, description(f.name@, ev_block(&f.block, plain())[k]->Expr_0->MethodCall_method@))),
{
    let evs = ev_block(&f.block, plain());
    let h = |ev: Event| event_hit(f.name@, ev);
    let x = fv(CHECK_NAME@, Severity::High, evs[k]->Expr_0->MethodCall_line, f.name@, description(f.name@, evs[k]->Expr_0->MethodCall_method@));
    match evs[k] {
        Event::Expr(e) => match e {
            Expr::MethodCall { args, .. } => {
                match &args@[amount_index] {
                    Expr::Reference { expr } => { assert(spec_is_mul_binary(&**expr)); },
                    _ => {},
                }
                assert(spec_is_mul_binary(&args@[amount_index]));
                reveal_strlit("transfer");
                reveal_strlit("burn");
                reveal_strlit("mint");
                assert("transfer"@ != "burn"@) by { assert("transfer"@.len() != "burn"@.len()); }
                assert("transfer"@ != "mint"@) by { assert("transfer"@.len() != "mint"@.len()); }
            },
            _ => {},
        },
        _ => {},
    }
    assert(h(evs[k])[0] == x);
    crate::contract::lemma_hits_contain(evs, h, k, evs.len() as int, x);
}

} // verus!
