//! `transfer` functions that never assert `from != to`.

use vstd::prelude::*;
use crate::syntax::{BinOp, Expr, FnArg, FnDef, Pat, SourceFile, Ty};
use crate::walk::{block_events, bodies_walk, ev_block, expr_at, some_expr, with_bodies, Event};
use crate::finding::{fv, lemma_views_append, new_finding, views, Check, Finding, FindingView, Severity};
use crate::contract::{contract_fns, contractimpl_functions, over_fns, path_ends_with, path_last_is};
use crate::text::{lemma_texts_push, str_eq, string_in, texts};
use crate::checks::unbounded_input_storage::{path_ident, spec_path_ident};

verus! {

pub const CHECK_NAME: &'static str = "self-transfer";

/// Flags a `transfer` function with two or more `Address` parameters where
/// no `a != b` over two of them appears (macro arguments included).
pub struct SelfTransferCheck;

pub open spec fn spec_is_address_type(t: &Ty) -> bool {
    match t {
        Ty::Path { path } => path_ends_with(path, "Address"@),
        _ => false,
    }
}

/// The names of the first `n` parameters that are identifiers whose type's
/// last segment is `Address`.
pub open spec fn address_params(inputs: Seq<FnArg>, n: int) -> Seq<Seq<char>>
    decreases n,
{
    if n <= 0 || n > inputs.len() {
        Seq::empty()
    } else {
        address_params(inputs, n - 1) + match &inputs[n - 1] {
            FnArg::Typed { pat, ty } =>
                if spec_is_address_type(ty) {
                    match pat {
                        Pat::Ident { name, .. } => seq![name@],
                        _ => Seq::empty(),
                    }
                } else {
                    Seq::empty()
                },
            _ => Seq::empty(),
        }
    }
}

fn collect_address_params(inputs: &Vec<FnArg>) -> (r: Vec<String>)
    ensures texts(r@) == address_params(inputs@, inputs.len() as int),
{
    let mut out: Vec<String> = Vec::new();
    let mut i: usize = 0;
    while i < inputs.len()
        invariant
            i <= inputs.len(),
            texts(out@) == address_params(inputs@, i as int),
        decreases inputs.len() - i,
    {
        match &inputs[i] {
            FnArg::Typed { pat, ty } => {
                let is_addr = match ty {
                    Ty::Path { path } => path_last_is(path, "Address"),
                    _ => false,
                };
                if is_addr {
                    match pat {
                        Pat::Ident { name, .. } => {
                            let n = name.clone();
                            proof { lemma_texts_push(out@, n); }
                            out.push(n);
                        }
                        _ => {}
                    }
                }
            }
            _ => {}
        }
        i = i + 1;
        assert(texts(out@) =~= address_params(inputs@, i as int));
    }
    out
}

/// The identifier a path expression is.
pub open spec fn spec_ident_name(e: &Expr) -> Option<Seq<char>> {
    match e {
        Expr::Path { path, .. } => spec_path_ident(path),
        _ => None,
    }
}

fn ident_name(e: &Expr) -> (r: Option<&String>)
    ensures
        r is Some <==> spec_ident_name(e) is Some,
        r is Some ==> r.unwrap()@ == spec_ident_name(e).unwrap(),
{
    match e {
        Expr::Path { path, .. } => path_ident(path),
        _ => None,
    }
}

/// `a != b` where both sides are address parameters.
pub open spec fn spec_is_ne_guard(e: &Expr, names: Seq<Seq<char>>) -> bool {
    match e {
        Expr::Binary { left, op, right, .. } => *op == BinOp::Ne && match (spec_ident_name(left), spec_ident_name(right)) {
            (Some(l), Some(r)) => names.contains(l) && names.contains(r),
            _ => false,
        },
        _ => false,
    }
}

fn is_ne_guard(e: &Expr, names: &Vec<String>) -> (r: bool)
    ensures r == spec_is_ne_guard(e, texts(names@)),
{
    match e {
        Expr::Binary { left, op, right, .. } => {
            let ne = match op {
                BinOp::Ne => true,
                _ => false,
            };
            ne && match (ident_name(left), ident_name(right)) {
                (Some(l), Some(r)) => string_in(names, l.as_str()) && string_in(names, r.as_str()),
                _ => false,
            }
        }
        _ => false,
    }
}

pub open spec fn ne_guard_p<'a>(names: Seq<Seq<char>>) -> spec_fn(&'a Expr) -> bool {
    |e: &'a Expr| spec_is_ne_guard(e, names)
}

pub open spec fn description() -> Seq<char> {
    "`transfer` accepts `from` and `to` Address parameters but never asserts `from != to`. Self-transfers produce confusing accounting and event logs."@
}

pub open spec fn fn_findings(f: &FnDef) -> Seq<FindingView> {
    let names = address_params(f.inputs@, f.inputs.len() as int);
    if f.name@ != "transfer"@ || names.len() < 2 {
        Seq::empty()
    } else {
        let evs = ev_block(&f.block, with_bodies());
        if some_expr(evs, ne_guard_p(names)) {
            Seq::empty()
        } else {
            seq![fv(CHECK_NAME@, Severity::Low, f.fn_line, f.name@, description())]
        }
    }
}

fn scan_fn(f: &FnDef) -> (r: Vec<Finding>)
    ensures views(r@) == fn_findings(f),
{
    let mut out: Vec<Finding> = Vec::new();
    if !str_eq(f.name.as_str(), "transfer") {
        assert(views(out@) =~= fn_findings(f));
        return out;
    }
    let names = collect_address_params(&f.inputs);
    if names.len() < 2 {
        assert(views(out@) =~= fn_findings(f));
        return out;
    }
    let ghost nv = texts(names@);
    let ghost p = ne_guard_p(nv);
    let evs = block_events(&f.block, bodies_walk());
    let mut j: usize = 0;
    while j < evs.len()
        invariant
            j <= evs.len(),
            nv == texts(names@),
            nv == address_params(f.inputs@, f.inputs.len() as int),
            nv.len() >= 2,
            f.name@ == "transfer"@,
            out@.len() == 0,
            p == ne_guard_p(nv),
            evs@ == ev_block(&f.block, with_bodies()),
            forall|k: int| 0 <= k < j ==> !#[trigger] expr_at(evs@, k, p),
        decreases evs.len() - j,
    {
        match evs[j] {
            Event::Expr(e) => {
                if is_ne_guard(e, &names) {
                    assert(expr_at(evs@, j as int, p));
                    assert(views(out@) =~= fn_findings(f));
                    return out;
                }
            }
            _ => {}
        }
        j = j + 1;
    }
    out.push(new_finding(CHECK_NAME, Severity::Low, f.fn_line, f.name.as_str(), String::from_str(
        "`transfer` accepts `from` and `to` Address parameters but never asserts `from != to`. Self-transfers produce confusing accounting and event logs.")));
    assert(views(out@) =~= fn_findings(f));
    out
}

impl Check for SelfTransferCheck {
    open spec fn spec_name(&self) -> Seq<char> {
        CHECK_NAME@
    }

    open spec fn spec_run(&self, file: &SourceFile, source: Seq<char>) -> Seq<FindingView> {
        over_fns(contract_fns(file), |f: &FnDef| fn_findings(f), contract_fns(file).len() as int)
    }

    fn name(&self) -> (r: &str) {
        CHECK_NAME
    }

    fn run(&self, file: &SourceFile, source: &str) -> (r: Vec<Finding>) {
        let fns = contractimpl_functions(file);
        let mut out: Vec<Finding> = Vec::new();
        let mut i: usize = 0;
        while i < fns.len()
            invariant
                i <= fns.len(),
                fns@ == contract_fns(file),
                views(out@) == over_fns(contract_fns(file), |f: &FnDef| fn_findings(f), i as int),
            decreases fns.len() - i,
        {
            let mut found = scan_fn(fns[i]);
            proof { lemma_views_append(out@, found@); }
            out.append(&mut found);
            i = i + 1;
        }
        out
    }
}

} // verus!

verus! {

/// Every finding of this check names it, is of low severity, and has an
/// empty file path.
pub proof fn lemma_findings_tagged(file: &SourceFile, source: Seq<char>)
    ensures crate::finding::tagged(SelfTransferCheck.spec_run(file, source), CHECK_NAME@, Severity::Low),
{
    let fns = contract_fns(file);
    crate::contract::lemma_over_fns_tagged(fns, |f: &FnDef| fn_findings(f), fns.len() as int, CHECK_NAME@, Severity::Low);
}

} // verus!

verus! {

/// Only the functions of `#[contractimpl]` blocks are examined: one more
/// top-level item that is not such a block changes no finding.
pub proof fn lemma_ignores_other_items(a: &SourceFile, b: &SourceFile, source: Seq<char>)
    requires crate::contract::extended_by_other_item(a, b),
    ensures SelfTransferCheck.spec_run(b, source) == SelfTransferCheck.spec_run(a, source),
{
    crate::contract::lemma_contract_fns_extra_item(a, b);
}

} // verus!

verus! {

/// Parameter `i` is the plain identifier `name` typed by a path ending in
/// `Address`.
pub open spec fn address_param_at(inputs: Seq<FnArg>, i: int, name: Seq<char>) -> bool {
    0 <= i < inputs.len()
        && (inputs[i] matches FnArg::Typed { pat: Pat::Ident { name: n, .. }, ty: Ty::Path { path } }
            && n@ == name && path.segments.len() > 0 && path.segments@.last().ident@ == "Address"@)
}

/// Some parameter is an `Address` named `name`.
pub open spec fn is_address_param(inputs: Seq<FnArg>, name: Seq<char>) -> bool {
    exists|i: int| #[trigger] address_param_at(inputs, i, name)
}

/// `e` is the plain identifier `name`.
pub open spec fn is_plain_ident(e: &Expr, name: Seq<char>) -> bool {
    e matches Expr::Path { path, .. } && !path.leading_colon && path.segments.len() == 1
        && !path.segments@[0].has_args && path.segments@[0].ident@ == name
}

proof fn lemma_address_params_exact(inputs: Seq<FnArg>, n: int)
    requires 0 <= n <= inputs.len(),
    ensures
        forall|x: Seq<char>| #[trigger] address_params(inputs, n).contains(x)
            <==> exists|i: int| 0 <= i < n && #[trigger] address_param_at(inputs, i, x),
        forall|i: int, j: int, x: Seq<char>, y: Seq<char>| 0 <= i < j < n && #[trigger] address_param_at(inputs, i, x)
            && #[trigger] address_param_at(inputs, j, y) ==> address_params(inputs, n).len() >= 2,
        forall|i: int, x: Seq<char>| 0 <= i < n && #[trigger] address_param_at(inputs, i, x) ==> address_params(inputs, n).len() >= 1,
    decreases n,
{
    if n > 0 {
        lemma_address_params_exact(inputs, n - 1);
        let prev = address_params(inputs, n - 1);
        let cur = address_params(inputs, n);
        match &inputs[n - 1] {
            FnArg::Typed { pat, ty } => {
                if spec_is_address_type(ty) {
                    match pat {
                        Pat::Ident { name, .. } => { assert(cur =~= prev.push(name@)); },
                        _ => { assert(cur =~= prev); },
                    }
                } else {
                    assert(cur =~= prev);
                }
            },
            _ => { assert(cur =~= prev); },
        }
        assert forall|x: Seq<char>| #[trigger] cur.contains(x)
            <==> exists|i: int| 0 <= i < n && #[trigger] address_param_at(inputs, i, x) by {
            if cur.contains(x) {
                let q = choose|q: int| 0 <= q < cur.len() && cur[q] == x;
                if q < prev.len() {
                    assert(prev[q] == x);
                    assert(prev.contains(x));
                    let i = choose|i: int| 0 <= i < n - 1 && #[trigger] address_param_at(inputs, i, x);
                    assert(0 <= i < n && address_param_at(inputs, i, x));
                } else {
                    assert(address_param_at(inputs, n - 1, x));
                }
            }
            if exists|i: int| 0 <= i < n && #[trigger] address_param_at(inputs, i, x) {
                let i = choose|i: int| 0 <= i < n && #[trigger] address_param_at(inputs, i, x);
                if i < n - 1 {
                    assert(0 <= i < n - 1 && address_param_at(inputs, i, x));
                    assert(prev.contains(x));
                    let q = choose|q: int| 0 <= q < prev.len() && prev[q] == x;
                    assert(cur[q] == x);
                } else {
                    assert(cur[prev.len() as int] == x);
                }
            }
        }
        assert forall|i: int, x: Seq<char>| 0 <= i < n && #[trigger] address_param_at(inputs, i, x) implies cur.len() >= 1 by {
            if i == n - 1 {
                assert(cur.len() == prev.len() + 1);
            }
        }
        assert forall|i: int, j: int, x: Seq<char>, y: Seq<char>| 0 <= i < j < n && #[trigger] address_param_at(inputs, i, x)
            && #[trigger] address_param_at(inputs, j, y) implies cur.len() >= 2 by {
            if j == n - 1 {
                assert(prev.len() >= 1);
                assert(cur.len() == prev.len() + 1);
            }
        }
    }
}

/// `transfer` that compares two of its `Address` parameters with `!=`
/// anywhere (macro arguments included) gets no finding.
pub proof fn lemma_ne_guard_passes(f: &FnDef, k: int, a: Seq<char>, b: Seq<char>)
    requires
        is_address_param(f.inputs@, a),
        is_address_param(f.inputs@, b),
        0 <= k < ev_block(&f.block, with_bodies()).len(),
        ev_block(&f.block, with_bodies())[k] matches Event::Expr(e)
            && e matches Expr::Binary { left, op, right, .. } && op == BinOp::Ne
            && is_plain_ident(left, a) && is_plain_ident(right, b),
    ensures fn_findings(f) == Seq::<FindingView>::empty(),
{
    let inputs = f.inputs@;
    let names = address_params(inputs, inputs.len() as int);
    lemma_address_params_exact(inputs, inputs.len() as int);
    let ia = choose|i: int| #[trigger] address_param_at(inputs, i, a);
    let ib = choose|i: int| #[trigger] address_param_at(inputs, i, b);
    assert(names.contains(a));
    assert(names.contains(b));
    let evs = ev_block(&f.block, with_bodies());
    match evs[k] {
        Event::Expr(e) => match e {
            Expr::Binary { left, right, .. } => {
                match (&**left, &**right) {
                    (Expr::Path { path: pl, .. }, Expr::Path { path: pr, .. }) => {
                        assert(spec_path_ident(pl) == Some(a));
                        assert(spec_path_ident(pr) == Some(b));
                    },
                    _ => {},
                }
            },
            _ => {},
        },
        _ => {},
    }
    assert(expr_at(evs, k, ne_guard_p(names)));
}

/// `transfer` with two `Address` parameters and no `!=` between two of them
/// anywhere gets one finding, at `fn`.
pub proof fn lemma_missing_ne_guard_flagged(f: &FnDef, i: int, j: int, x: Seq<char>, y: Seq<char>)
    requires
        f.name@ == "transfer"@,
        i < j,
        address_param_at(f.inputs@, i, x),
        address_param_at(f.inputs@, j, y),
        forall|k: int| 0 <= k < ev_block(&f.block, with_bodies()).len() ==> !(#[trigger] ev_block(&f.block, with_bodies())[k] matches Event::Expr(e)
            && e matches Expr::Binary { left, op, right, .. } && op == BinOp::Ne
            && (**left matches Expr::Path { path: pl, .. } && pl.segments.len() > 0 && is_address_param(f.inputs@, pl.segments@[0].ident@)
                && is_plain_ident(left, pl.segments@[0].ident@))
            && (**right matches Expr::Path { path: pr, .. } && pr.segments.len() > 0 && is_address_param(f.inputs@, pr.segments@[0].ident@)
                && is_plain_ident(right, pr.segments@[0].ident@))),
    ensures fn_findings(f) == seq![fv(CHECK_NAME@, Severity::Low, f.fn_line, f.name@, description())],
{
    let inputs = f.inputs@;
    let names = address_params(inputs, inputs.len() as int);
    lemma_address_params_exact(inputs, inputs.len() as int);
    assert(names.len() >= 2);
    let evs = ev_block(&f.block, with_bodies());
    assert(!some_expr(evs, ne_guard_p(names))) by {
        if some_expr(evs, ne_guard_p(names)) {
            let k = choose|k: int| 0 <= k < evs.len() && #[trigger] expr_at(evs, k, ne_guard_p(names));
            match evs[k] {
                Event::Expr(e) => match e {
                    Expr::Binary { left, right, .. } => {
                        match (&**left, &**right) {
                            (Expr::Path { path: pl, .. }, Expr::Path { path: pr, .. }) => {
                                let l = spec_path_ident(pl).unwrap();
                                let r = spec_path_ident(pr).unwrap();
                                assert(names.contains(l));
                                assert(names.contains(r));
                                let il = choose|q: int| 0 <= q < inputs.len() && #[trigger] address_param_at(inputs, q, l);
                                let ir = choose|q: int| 0 <= q < inputs.len() && #[trigger] address_param_at(inputs, q, r);
                                assert(is_address_param(inputs, l));
                                assert(is_address_param(inputs, r));
                                assert(!(evs[k] matches Event::Expr(e)
                                    && e matches Expr::Binary { left, op, right, .. } && op == BinOp::Ne
                                    && (**left matches Expr::Path { path: pl, .. } && pl.segments.len() > 0 && is_address_param(f.inputs@, pl.segments@[0].ident@)
                                        && is_plain_ident(left, pl.segments@[0].ident@))
                                    && (**right matches Expr::Path { path: pr, .. } && pr.segments.len() > 0 && is_address_param(f.inputs@, pr.segments@[0].ident@)
                                        && is_plain_ident(right, pr.segments@[0].ident@))));
                            },
                            _ => {},
                        }
                    },
                    _ => {},
                },
                _ => {},
            }
        }
    }
}

} // verus!
