//! Deposit-like functions accepting a negative `i128` amount without a guard.
//!
//! Passing a negative amount to a deposit function withdraws funds while
//! appearing to deposit; the amount must be checked positive before use.

use vstd::prelude::*;
use crate::syntax::{BinOp, Expr, FnArg, FnDef, Pat, SourceFile, TokenTree, Ty};
use crate::walk::{block_events, ev_block, Event, MacroBodies, Walk};
use crate::finding::{fv, lemma_views_append, new_finding, views, Check, Finding, FindingView, Severity};
use crate::contract::{contract_fns, contractimpl_functions, over_fns};
use crate::text::{contains, lemma_texts_push, seq_contains, str_eq, string_in, texts};
use crate::checks::unbounded_input_storage::{path_ident, spec_path_ident};
use crate::checks::keys::{receiver_chain_contains, spec_receiver_chain_contains};

verus! {

pub const CHECK_NAME: &'static str = "negative-deposit";

/// A top-level `,` among a macro's argument tokens.
pub open spec fn is_comma(t: TokenTree) -> bool {
    t matches TokenTree::Punct { ch } && ch == ','
}

/// How many leading top-level tokens of a macro's arguments make up its
/// first argument: all of them up to the first `,` (which is not counted).
pub fn extract_first_macro_arg(tokens: &Vec<TokenTree>) -> (r: usize)
    ensures
        r <= tokens.len(),
        forall|i: int| 0 <= i < r ==> !is_comma(#[trigger] tokens@[i]),
        r < tokens.len() ==> is_comma(tokens@[r as int]),
{
    let mut i: usize = 0;
    while i < tokens.len()
        invariant
            i <= tokens.len(),
            forall|k: int| 0 <= k < i ==> !is_comma(#[trigger] tokens@[k]),
        decreases tokens.len() - i,
    {
        match &tokens[i] {
            TokenTree::Punct { ch } => {
                if *ch == ',' {
                    return i;
                }
            }
            _ => {}
        }
        i = i + 1;
    }
    i
}

/// Flags public deposit-like functions with an `i128` parameter that write
/// storage without first comparing such a parameter with `<`, `<=`, `>` or
/// `>=` (macro arguments included), as in `assert!(amount > 0)`.
pub struct NegativeDepositCheck;

/// The names of deposit-like functions.
pub const DEPOSIT_NAMES: [&'static str; 5] = ["deposit", "fund", "add", "add_funds", "deposit_funds"];

pub open spec fn spec_is_deposit_fn(name: Seq<char>) -> bool {
    exists|i: int| 0 <= i < 5 && name == #[trigger] DEPOSIT_NAMES@[i]@
}

/// Whether a function name is one of the deposit-like names.
pub fn is_deposit_fn(name: &str) -> (r: bool)
    ensures r == spec_is_deposit_fn(name@),
{
    let mut i: usize = 0;
    while i < 5
        invariant
            i <= 5,
            forall|k: int| 0 <= k < i ==> name@ != #[trigger] DEPOSIT_NAMES@[k]@,
        decreases 5 - i,
    {
        if str_eq(name, DEPOSIT_NAMES[i]) {
            return true;
        }
        i = i + 1;
    }
    false
}

/// The last path segment of a type, through references; empty otherwise.
pub open spec fn spec_type_to_str(ty: &Ty) -> Seq<char>
    decreases ty,
{
    match ty {
        Ty::Path { path } => if path.segments.len() > 0 { path.segments@.last().ident@ } else { Seq::empty() },
        Ty::Reference { elem } => spec_type_to_str(elem),
        Ty::Other => Seq::empty(),
    }
}

fn type_to_str(ty: &Ty) -> (r: String)
    ensures r@ == spec_type_to_str(ty),
    decreases ty,
{
    match ty {
        Ty::Path { path } => {
            let n = path.segments.len();
            if n > 0 { path.segments[n - 1].ident.clone() } else { String::new() }
        }
        Ty::Reference { elem } => type_to_str(elem),
        Ty::Other => String::new(),
    }
}

/// The names of the first `n` parameters that are identifiers whose type's
/// last segment mentions `i128`.
pub open spec fn i128_params(inputs: Seq<FnArg>, n: int) -> Seq<Seq<char>>
    decreases n,
{
    if n <= 0 || n > inputs.len() {
        Seq::empty()
    } else {
        i128_params(inputs, n - 1) + match &inputs[n - 1] {
            FnArg::Typed { pat, ty } => match pat {
                Pat::Ident { name, .. } => if seq_contains(spec_type_to_str(ty), "i128"@) { seq![name@] } else { Seq::empty() },
                _ => Seq::empty(),
            },
            FnArg::Receiver => Seq::empty(),
        }
    }
}

fn collect_i128_params(inputs: &Vec<FnArg>) -> (r: Vec<String>)
    ensures texts(r@) == i128_params(inputs@, inputs.len() as int),
{
    let mut out: Vec<String> = Vec::new();
    let mut i: usize = 0;
    while i < inputs.len()
        invariant
            i <= inputs.len(),
            texts(out@) == i128_params(inputs@, i as int),
        decreases inputs.len() - i,
    {
        match &inputs[i] {
            FnArg::Typed { pat, ty } => match pat {
                Pat::Ident { name, .. } => {
                    let t = type_to_str(ty);
                    if contains(t.as_str(), "i128") {
                        let n = name.clone();
                        proof { lemma_texts_push(out@, n); }
                        out.push(n);
                    }
                }
                _ => {}
            },
            FnArg::Receiver => {}
        }
        i = i + 1;
        assert(texts(out@) =~= i128_params(inputs@, i as int));
    }
    out
}

/// The expression is one of the amount parameters, as a plain identifier.
pub open spec fn spec_is_amount(e: &Expr, names: Seq<Seq<char>>) -> bool {
    match e {
        Expr::Path { path, .. } => match spec_path_ident(path) {
            Some(id) => names.contains(id),
            None => false,
        },
        _ => false,
    }
}

fn is_amount(e: &Expr, names: &Vec<String>) -> (r: bool)
    ensures r == spec_is_amount(e, texts(names@)),
{
    match e {
        Expr::Path { path, .. } => match path_ident(path) {
            Some(id) => string_in(names, id.as_str()),
            None => false,
        },
        _ => false,
    }
}

/// A comparison `<`, `<=`, `>` or `>=` with an amount parameter on a side,
/// such as `amount > 0` or `0 < amount`.
pub open spec fn spec_is_guard(e: &Expr, names: Seq<Seq<char>>) -> bool {
    match e {
        Expr::Binary { left, op, right, .. } =>
            (*op == BinOp::Gt || *op == BinOp::Ge || *op == BinOp::Lt || *op == BinOp::Le)
                && (spec_is_amount(left, names) || spec_is_amount(right, names)),
        _ => false,
    }
}

fn is_guard(e: &Expr, names: &Vec<String>) -> (r: bool)
    ensures r == spec_is_guard(e, texts(names@)),
{
    match e {
        Expr::Binary { left, op, right, .. } => {
            let ordering = match op {
                BinOp::Gt | BinOp::Ge | BinOp::Lt | BinOp::Le => true,
                _ => false,
            };
            ordering && (is_amount(left, names) || is_amount(right, names))
        }
        _ => false,
    }
}

/// `set(..)` on a receiver chain that calls `storage()`.
pub open spec fn spec_is_storage_set(e: &Expr) -> bool {
    match e {
        Expr::MethodCall { receiver, method, .. } => method@ == "set"@ && spec_receiver_chain_contains(receiver, "storage"@),
        _ => false,
    }
}

fn is_storage_set(e: &Expr) -> (r: bool)
    ensures r == spec_is_storage_set(e),
{
    match e {
        Expr::MethodCall { receiver, method, .. } => str_eq(method.as_str(), "set") && receiver_chain_contains(receiver, "storage"),
        _ => false,
    }
}

/// The walk used here: macro arguments are visited, the whole argument list
/// when it reads as one expression, else its first argument.
pub open spec fn deposit_walk() -> Walk {
    Walk { macros: MacroBodies::BodyOrFirstArg, prune_storage_probes: false }
}

/// Whether a guard was met before the first storage write, and that write's
/// line once it is met.
pub struct DepositScan {
    pub guarded: bool,
    pub first_set: Option<usize>,
}

pub open spec fn step(st: DepositScan, ev: Event, names: Seq<Seq<char>>) -> DepositScan {
    match ev {
        Event::Expr(e) =>
            if st.first_set is Some {
                st
            } else if spec_is_guard(e, names) {
                DepositScan { guarded: true, ..st }
            } else if spec_is_storage_set(e) {
                match e {
                    Expr::MethodCall { line, .. } => DepositScan { first_set: Some(*line), ..st },
                    _ => st,
                }
            } else {
                st
            },
        _ => st,
    }
}

pub open spec fn scan(evs: Seq<Event>, names: Seq<Seq<char>>, n: int) -> DepositScan
    decreases n,
{
    if n <= 0 || n > evs.len() {
        DepositScan { guarded: false, first_set: None }
    } else {
        step(scan(evs, names, n - 1), evs[n - 1], names)
    }
}

pub open spec fn description(name: Seq<char>) -> Seq<char> {
    "Method `"@ + name
        + "` accepts an `i128` amount parameter and writes to storage without a positive-value guard (`amount > 0`). A caller passing a negative amount can effectively withdraw funds while appearing to deposit. Add an explicit check that `amount > 0` before any storage write."@
}

/// A finding for a public deposit-like function with `i128` parameters that
/// writes storage with no ordering comparison of such a parameter before the
/// first write; at that write's line, or at the `fn` keyword when that line
/// is 0.
pub open spec fn fn_findings(f: &FnDef) -> Seq<FindingView> {
    let names = i128_params(f.inputs@, f.inputs.len() as int);
    let evs = ev_block(&f.block, deposit_walk());
    let st = scan(evs, names, evs.len() as int);
    if f.is_pub && spec_is_deposit_fn(f.name@) && names.len() > 0 && st.first_set is Some && !st.guarded {
        let l = st.first_set.unwrap();
        seq![fv(CHECK_NAME@, Severity::High, if l > 0 { l } else { f.fn_line }, f.name@, description(f.name@))]
    } else {
        Seq::empty()
    }
}

fn scan_fn(f: &FnDef) -> (r: Vec<Finding>)
    ensures views(r@) == fn_findings(f),
{
    let mut out: Vec<Finding> = Vec::new();
    if !f.is_pub || !is_deposit_fn(f.name.as_str()) {
        return out;
    }
    let names = collect_i128_params(&f.inputs);
    if names.len() == 0 {
        return out;
    }
    let ghost nv = texts(names@);
    let evs = block_events(&f.block, Walk { macros: MacroBodies::BodyOrFirstArg, prune_storage_probes: false });
    let mut guarded = false;
    let mut first_set: Option<usize> = None;
    let mut j: usize = 0;
    while j < evs.len()
        invariant
            j <= evs.len(),
            nv == texts(names@),
            scan(evs@, nv, j as int) == (DepositScan { guarded, first_set }),
        decreases evs.len() - j,
    {
        match evs[j] {
            Event::Expr(e) => {
                if first_set.is_none() {
                    if is_guard(e, &names) {
                        guarded = true;
                    } else if is_storage_set(e) {
                        match e {
                            Expr::MethodCall { line, .. } => {
                                first_set = Some(*line);
                            }
                            _ => {}
                        }
                    }
                }
            }
            _ => {}
        }
        j = j + 1;
    }
    match first_set {
        Some(l) => {
            if !guarded {
                let line = if l > 0 { l } else { f.fn_line };
                let mut d = String::from_str("Method `");
                d.append(f.name.as_str());
                d.append("` accepts an `i128` amount parameter and writes to storage without a positive-value guard (`amount > 0`). A caller passing a negative amount can effectively withdraw funds while appearing to deposit. Add an explicit check that `amount > 0` before any storage write.");
                out.push(new_finding(CHECK_NAME, Severity::High, line, f.name.as_str(), d));
            }
        }
        None => {}
    }
    assert(views(out@) =~= fn_findings(f));
    out
}

impl Check for NegativeDepositCheck {
    open spec fn spec_name(&self) -> Seq<char> {
        CHECK_NAME@
    }

    open spec fn spec_run(&self, file: &SourceFile, source: Seq<char>) -> Seq<FindingView> {
        over_fns(contract_fns(file), |f: &FnDef| fn_findings(f), contract_fns(file).len() as int)
    }

    fn name(&self) -> (r: &str) {
        CHECK_NAME
    }

    fn run(&self, file: &SourceFile, source: &str) -> (r: Vec<Finding>) {
        let fns = contractimpl_functions(file);
        let mut out: Vec<Finding> = Vec::new();
        let mut i: usize = 0;
        while i < fns.len()
            invariant
                i <= fns.len(),
                fns@ == contract_fns(file),
                views(out@) == over_fns(contract_fns(file), |f: &FnDef| fn_findings(f), i as int),
            decreases fns.len() - i,
        {
            let mut found = scan_fn(fns[i]);
            proof { lemma_views_append(out@, found@); }
            out.append(&mut found);
            i = i + 1;
        }
        out
    }
}

} // verus!

verus! {

/// Every finding of this check names it, is of high severity, and has an
/// empty file path.
pub proof fn lemma_findings_tagged(file: &SourceFile, source: Seq<char>)
    ensures crate::finding::tagged(NegativeDepositCheck.spec_run(file, source), CHECK_NAME@, Severity::High),
{
    let fns = contract_fns(file);
    crate::contract::lemma_over_fns_tagged(fns, |f: &FnDef| fn_findings(f), fns.len() as int, CHECK_NAME@, Severity::High);
}

} // verus!

verus! {

/// Only the functions of `#[contractimpl]` blocks are examined: one more
/// top-level item that is not such a block changes no finding.
pub proof fn lemma_ignores_other_items(a: &SourceFile, b: &SourceFile, source: Seq<char>)
    requires crate::contract::extended_by_other_item(a, b),
    ensures NegativeDepositCheck.spec_run(b, source) == NegativeDepositCheck.spec_run(a, source),
{
    crate::contract::lemma_contract_fns_extra_item(a, b);
}

} // verus!

verus! {

/// `e` is the plain identifier `name`.
pub open spec fn is_ident_expr(e: &Expr, name: Seq<char>) -> bool {
    e matches Expr::Path { path, .. } && !path.leading_colon && path.segments.len() == 1
        && !path.segments@[0].has_args && path.segments@[0].ident@ == name
}

/// `e` compares `name` by `<`, `<=`, `>` or `>=` with anything, on either side.
pub open spec fn orders_ident(e: &Expr, name: Seq<char>) -> bool {
    e matches Expr::Binary { left, op, right, .. }
        && (op == BinOp::Lt || op == BinOp::Le || op == BinOp::Gt || op == BinOp::Ge)
        && (is_ident_expr(left, name) || is_ident_expr(right, name))
}

proof fn lemma_no_set_before(evs: Seq<Event>, names: Seq<Seq<char>>, k: int, n: int)
    requires
        0 <= n <= k <= evs.len(),
        forall|j: int| 0 <= j < k ==> !(#[trigger] evs[j] matches Event::Expr(e) && spec_is_storage_set(e)),
    ensures scan(evs, names, n).first_set is None,
    decreases n,
{
    if n > 0 {
        lemma_no_set_before(evs, names, k, n - 1);
    }
}

proof fn lemma_guard_stays(evs: Seq<Event>, names: Seq<Seq<char>>, k: int, n: int)
    requires
        0 <= k < n <= evs.len(),
        scan(evs, names, k + 1).guarded,
    ensures scan(evs, names, n).guarded,
    decreases n,
{
    if n > k + 1 {
        lemma_guard_stays(evs, names, k, n - 1);
    }
}

/// A deposit function that compares an `i128` amount parameter with `<`,
/// `<=`, `>` or `>=` (the amount on either side, as in `amount > 0` or
/// `0 < amount`) before any storage write gets no finding.
pub proof fn lemma_guard_before_write_passes(f: &FnDef, k: int, amount: Seq<char>)
    requires
        0 <= k < ev_block(&f.block, deposit_walk()).len(),
        i128_params(f.inputs@, f.inputs.len() as int).contains(amount),
        ev_block(&f.block, deposit_walk())[k] matches Event::Expr(e) && orders_ident(e, amount),
        forall|j: int| 0 <= j < k ==> !(#[trigger] ev_block(&f.block, deposit_walk())[j] matches Event::Expr(e)
            && e matches Expr::MethodCall { method, receiver, .. } && method@ == "set"@
            && spec_receiver_chain_contains(receiver, "storage"@)),
    ensures fn_findings(f) == Seq::<FindingView>::empty(),
{
    let names = i128_params(f.inputs@, f.inputs.len() as int);
    let evs = ev_block(&f.block, deposit_walk());
    assert forall|j: int| 0 <= j < k implies !(#[trigger] evs[j] matches Event::Expr(e) && spec_is_storage_set(e)) by {
        assert(!(evs[j] matches Event::Expr(e)
            && e matches Expr::MethodCall { method, receiver, .. } && method@ == "set"@
            && spec_receiver_chain_contains(receiver, "storage"@)));
    }
    lemma_no_set_before(evs, names, k, k);
    match evs[k] {
        Event::Expr(e) => {
            assert(spec_is_guard(e, names)) by {
                match e {
                    Expr::Binary { left, right, .. } => {
                        if is_ident_expr(left, amount) {
                            match &**left {
                                Expr::Path { path, .. } => { assert(spec_path_ident(path) == Some(amount)); },
                                _ => {},
                            }
                        } else {
                            match &**right {
                                Expr::Path { path, .. } => { assert(spec_path_ident(path) == Some(amount)); },
                                _ => {},
                            }
                        }
                    },
                    _ => {},
                }
            }
        },
        _ => {},
    }
    assert(scan(evs, names, k + 1).guarded);
    lemma_guard_stays(evs, names, k, evs.len() as int);
}


proof fn lemma_unguarded_prefix(evs: Seq<Event>, names: Seq<Seq<char>>, k: int, n: int)
    requires
        0 <= n <= k <= evs.len(),
        forall|j: int| 0 <= j < k ==> !(#[trigger] evs[j] matches Event::Expr(e) && spec_is_storage_set(e)),
        forall|j: int| 0 <= j < k ==> !(#[trigger] evs[j] matches Event::Expr(e) && spec_is_guard(e, names)),
    ensures
        scan(evs, names, n).first_set is None,
        !scan(evs, names, n).guarded,
    decreases n,
{
    if n > 0 {
        lemma_unguarded_prefix(evs, names, k, n - 1);
    }
}

proof fn lemma_first_set_stays(evs: Seq<Event>, names: Seq<Seq<char>>, k: int, n: int)
    requires
        0 <= k < n <= evs.len(),
        scan(evs, names, k + 1).first_set is Some,
    ensures scan(evs, names, n) == scan(evs, names, k + 1),
    decreases n,
{
    if n > k + 1 {
        lemma_first_set_stays(evs, names, k, n - 1);
    }
}

/// A public deposit-like function with `i128` parameters whose first storage
/// write (at a known line) comes with no `<`/`<=`/`>`/`>=` comparison of such
/// a parameter before it gets exactly one finding, at that write.
pub proof fn lemma_unguarded_write_flagged(f: &FnDef, k: int)
    requires
        f.is_pub,
        spec_is_deposit_fn(f.name@),
        i128_params(f.inputs@, f.inputs.len() as int).len() > 0,
        0 <= k < ev_block(&f.block, deposit_walk()).len(),
        ev_block(&f.block, deposit_walk())[k] matches Event::Expr(e)
            && e matches Expr::MethodCall { method, receiver, line, .. } && method@ == "set"@
            && spec_receiver_chain_contains(receiver, "storage"@) && line > 0,
        forall|j: int| 0 <= j < k ==> !(#[trigger] ev_block(&f.block, deposit_walk())[j] matches Event::Expr(e)
            && e matches Expr::MethodCall { method, receiver, .. } && method@ == "set"@
            && spec_receiver_chain_contains(receiver, "storage"@)),
        forall|j: int, i: int| 0 <= j < k && 0 <= i < i128_params(f.inputs@, f.inputs.len() as int).len()
            ==> !(#[trigger] ev_block(&f.block, deposit_walk())[j] matches Event::Expr(e)
            && orders_ident(e, #[trigger] i128_params(f.inputs@, f.inputs.len() as int)[i])),
    ensures
        fn_findings(f) == seq![fv(CHECK_NAME@, Severity::High,
            ev_block(&f.block, deposit_walk())[k]->Expr_0->MethodCall_line, f.name@, description(f.name@))],
{
    let names = i128_params(f.inputs@, f.inputs.len() as int);
    let evs = ev_block(&f.block, deposit_walk());
    assert forall|j: int| 0 <= j < k implies !(#[trigger] evs[j] matches Event::Expr(e) && spec_is_storage_set(e)) by {
        assert(!(evs[j] matches Event::Expr(e)
            && e matches Expr::MethodCall { method, receiver, .. } && method@ == "set"@
            && spec_receiver_chain_contains(receiver, "storage"@)));
    }
    assert forall|j: int| 0 <= j < k implies !(#[trigger] evs[j] matches Event::Expr(e) && spec_is_guard(e, names)) by {
        match evs[j] {
            Event::Expr(e) => {
                match e {
                    Expr::Binary { left, right, .. } => {
                        if spec_is_guard(e, names) {
                            let side = if spec_is_amount(left, names) { &**left } else { &**right };
                            match side {
                                Expr::Path { path, .. } => {
                                    let id = spec_path_ident(path).unwrap();
                                    let i = choose|i: int| 0 <= i < names.len() && names[i] == id;
                                    assert(orders_ident(e, names[i]));
                                },
                                _ => {},
                            }
                        }
                    },
                    _ => {},
                }
            },
            _ => {},
        }
    }
    lemma_unguarded_prefix(evs, names, k, k);
    lemma_first_set_stays(evs, names, k, evs.len() as int);
}
} // verus!
