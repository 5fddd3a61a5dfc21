//! `env.ledger().sequence()` used as a replay-protection nonce without storing
//! the last-used sequence number in persistent storage.

use vstd::prelude::*;
use crate::syntax::{BinOp, Expr, FnDef, SourceFile};
use crate::walk::{block_events, ev_block, expr_at, lemma_some_expr_step, plain, plain_walk, some_expr, Event};
use crate::finding::{fv, lemma_views_append, new_finding, tagged, views, Check, Finding, FindingView, Severity};
use crate::contract::{contract_fns, contractimpl_functions, lemma_over_fns_tagged, over_fns, path_ident_is, path_is_ident};
use crate::text::str_eq;

verus! {

pub const CHECK_NAME: &'static str = "sequence-nonce";

/// Detects `env.ledger().sequence()` used in a `>`, `>=` or `==` comparison
/// without an `env.storage().persistent().set(...)` call in the same function.
pub struct SequenceNonceCheck;

/// Exactly `env.ledger().sequence()`.
pub open spec fn spec_is_sequence_call(e: &Expr) -> bool {
    match e {
        Expr::MethodCall { receiver, method, .. } => method@ == "sequence"@ && match &**receiver {
            Expr::MethodCall { receiver: base, method: inner, .. } => inner@ == "ledger"@ && match &**base {
                Expr::Path { path, .. } => path_is_ident(path, "env"@),
                _ => false,
            },
            _ => false,
        },
        _ => false,
    }
}

fn is_sequence_call(e: &Expr) -> (r: bool)
    ensures r == spec_is_sequence_call(e),
{
    match e {
        Expr::MethodCall { receiver, method, .. } => {
            if !str_eq(method.as_str(), "sequence") {
                return false;
            }
            match &**receiver {
                Expr::MethodCall { receiver: base, method: inner, .. } => {
                    if !str_eq(inner.as_str(), "ledger") {
                        return false;
                    }
                    match &**base {
                        Expr::Path { path, .. } => path_ident_is(path, "env"),
                        _ => false,
                    }
                }
                _ => false,
            }
        }
        _ => false,
    }
}

/// A method/field chain that calls `persistent()`.
pub open spec fn spec_receiver_chain_contains_persistent(e: &Expr) -> bool
    decreases e,
{
    match e {
        Expr::MethodCall { receiver, method, .. } => method@ == "persistent"@ || spec_receiver_chain_contains_persistent(receiver),
        Expr::Field { base, .. } => spec_receiver_chain_contains_persistent(base),
        _ => false,
    }
}

fn receiver_chain_contains_persistent(e: &Expr) -> (r: bool)
    ensures r == spec_receiver_chain_contains_persistent(e),
    decreases e,
{
    match e {
        Expr::MethodCall { receiver, method, .. } => str_eq(method.as_str(), "persistent") || receiver_chain_contains_persistent(receiver),
        Expr::Field { base, .. } => receiver_chain_contains_persistent(base),
        _ => false,
    }
}

/// `….persistent()….set(..)`.
pub open spec fn spec_is_persistent_set_call(e: &Expr) -> bool {
    match e {
        Expr::MethodCall { receiver, method, .. } => method@ == "set"@ && spec_receiver_chain_contains_persistent(receiver),
        _ => false,
    }
}

fn is_persistent_set_call(e: &Expr) -> (r: bool)
    ensures r == spec_is_persistent_set_call(e),
{
    match e {
        Expr::MethodCall { receiver, method, .. } => str_eq(method.as_str(), "set") && receiver_chain_contains_persistent(receiver),
        _ => false,
    }
}

/// A `>`, `>=` or `==` comparison with `env.ledger().sequence()` on a side.
pub open spec fn spec_is_sequence_comparison(e: &Expr) -> bool {
    match e {
        Expr::Binary { left, op, right, .. } =>
            (spec_is_sequence_call(left) || spec_is_sequence_call(right))
                && (*op == BinOp::Gt || *op == BinOp::Ge || *op == BinOp::Eq),
        _ => false,
    }
}

fn is_sequence_comparison(e: &Expr) -> (r: bool)
    ensures r == spec_is_sequence_comparison(e),
{
    match e {
        Expr::Binary { left, op, right, .. } => {
            if is_sequence_call(left) || is_sequence_call(right) {
                match op {
                    BinOp::Gt | BinOp::Ge | BinOp::Eq => true,
                    _ => false,
                }
            } else {
                false
            }
        }
        _ => false,
    }
}

pub open spec fn description() -> Seq<char> {
    "Function uses `env.ledger().sequence()` in a comparison but does not store the sequence value in persistent storage. This provides no replay protection as the same transaction can be replayed in the same ledger window."@
}

pub open spec fn fn_findings(f: &FnDef) -> Seq<FindingView> {
    let evs = ev_block(&f.block, plain());
    if some_expr(evs, |e: &Expr| spec_is_sequence_comparison(e)) && !some_expr(evs, |e: &Expr| spec_is_persistent_set_call(e)) {
        seq![fv(CHECK_NAME@, Severity::Medium, f.name_line, f.name@, description())]
    } else {
        Seq::empty()
    }
}

fn scan_fn(f: &FnDef) -> (r: Vec<Finding>)
    ensures views(r@) == fn_findings(f),
{
    let evs = block_events(&f.block, plain_walk());
    let ghost pc = |e: &Expr| spec_is_sequence_comparison(e);
    let ghost ps = |e: &Expr| spec_is_persistent_set_call(e);
    let mut sequence_used_in_comparison = false;
    let mut persistent_set_called = false;
    let mut j: usize = 0;
    while j < evs.len()
        invariant
            j <= evs.len(),
            pc == (|e: &Expr| spec_is_sequence_comparison(e)),
            ps == (|e: &Expr| spec_is_persistent_set_call(e)),
            sequence_used_in_comparison == exists|k: int| 0 <= k < j && #[trigger] expr_at(evs@, k, pc),
            persistent_set_called == exists|k: int| 0 <= k < j && #[trigger] expr_at(evs@, k, ps),
        decreases evs.len() - j,
    {
        proof {
            lemma_some_expr_step(evs@, j as int, pc);
            lemma_some_expr_step(evs@, j as int, ps);
        }
        match evs[j] {
            Event::Expr(e) => {
                if is_sequence_comparison(e) {
                    sequence_used_in_comparison = true;
                }
                if is_persistent_set_call(e) {
                    persistent_set_called = true;
                }
            }
            _ => {}
        }
        j = j + 1;
    }
    let mut out: Vec<Finding> = Vec::new();
    if sequence_used_in_comparison && !persistent_set_called {
        let d = String::from_str("Function uses `env.ledger().sequence()` in a comparison but does not store the sequence value in persistent storage. This provides no replay protection as the same transaction can be replayed in the same ledger window.");
        out.push(new_finding(CHECK_NAME, Severity::Medium, f.name_line, f.name.as_str(), d));
    }
    assert(views(out@) =~= fn_findings(f));
    out
}

impl Check for SequenceNonceCheck {
    open spec fn spec_name(&self) -> Seq<char> {
        CHECK_NAME@
    }

    open spec fn spec_run(&self, file: &SourceFile, source: Seq<char>) -> Seq<FindingView> {
        over_fns(contract_fns(file), |f: &FnDef| fn_findings(f), contract_fns(file).len() as int)
    }

    fn name(&self) -> (r: &str) {
        CHECK_NAME
    }

    fn run(&self, file: &SourceFile, source: &str) -> (r: Vec<Finding>) {
        let fns = contractimpl_functions(file);
        let mut out: Vec<Finding> = Vec::new();
        let mut i: usize = 0;
        while i < fns.len()
            invariant
                i <= fns.len(),
                fns@ == contract_fns(file),
                views(out@) == over_fns(contract_fns(file), |f: &FnDef| fn_findings(f), i as int),
            decreases fns.len() - i,
        {
            let mut found = scan_fn(fns[i]);
            proof { lemma_views_append(out@, found@); }
            out.append(&mut found);
            i = i + 1;
        }
        out
    }
}

} // verus!

verus! {

/// Every finding of this check names it, is of medium severity, and has an
/// empty file path.
pub proof fn lemma_findings_tagged(file: &SourceFile, source: Seq<char>)
    ensures tagged(SequenceNonceCheck.spec_run(file, source), CHECK_NAME@, Severity::Medium),
{
    let fns = contract_fns(file);
    lemma_over_fns_tagged(fns, |f: &FnDef| fn_findings(f), fns.len() as int, CHECK_NAME@, Severity::Medium);
}

} // verus!

verus! {

/// Only the functions of `#[contractimpl]` blocks are examined: one more
/// top-level item that is not such a block changes no finding.
pub proof fn lemma_ignores_other_items(a: &SourceFile, b: &SourceFile, source: Seq<char>)
    requires crate::contract::extended_by_other_item(a, b),
    ensures SequenceNonceCheck.spec_run(b, source) == SequenceNonceCheck.spec_run(a, source),
{
    crate::contract::lemma_contract_fns_extra_item(a, b);
}

} // verus!

verus! {

/// `e` is `env.ledger().sequence()`.
pub open spec fn is_env_sequence(e: &Expr) -> bool {
    e matches Expr::MethodCall { receiver, method, .. } && method@ == "sequence"@
        && (**receiver matches Expr::MethodCall { receiver: base, method: m2, .. } && m2@ == "ledger"@
            && (*base matches Expr::Path { path, .. } && path_is_ident(&path, "env"@)))
}

/// `e` compares the ledger sequence, on either side, by `==`, `>=` or `>`.
pub open spec fn compares_sequence(e: &Expr) -> bool {
    e matches Expr::Binary { left, op, right, .. }
        && (op == BinOp::Eq || op == BinOp::Ge || op == BinOp::Gt)
        && (is_env_sequence(left) || is_env_sequence(right))
}

/// `e` is a `set` on a chain that calls `persistent()`.
pub open spec fn persists(e: &Expr) -> bool {
    e matches Expr::MethodCall { receiver, method, .. } && method@ == "set"@
        && spec_receiver_chain_contains_persistent(receiver)
}

/// A function that compares the ledger sequence (as a nonce) and never
/// writes persistent storage gets one finding, at its name.
pub proof fn lemma_sequence_nonce_flagged(f: &FnDef, k: int)
    requires
        0 <= k < ev_block(&f.block, plain()).len(),
        ev_block(&f.block, plain())[k] matches Event::Expr(e) && compares_sequence(e),
        forall|j: int| 0 <= j < ev_block(&f.block, plain()).len() ==> !(#[trigger] ev_block(&f.block, plain())[j] matches Event::Expr(e) && persists(e)),
    ensures fn_findings(f) == seq![fv(CHECK_NAME@, Severity::Medium, f.name_line, f.name@, description())],
{
    let evs = ev_block(&f.block, plain());
    let p = |e: &Expr| spec_is_sequence_comparison(e);
    let q = |e: &Expr| spec_is_persistent_set_call(e);
    assert(expr_at(evs, k, p));
    assert(!some_expr(evs, q)) by {
        if some_expr(evs, q) {
            let j = choose|j: int| 0 <= j < evs.len() && #[trigger] expr_at(evs, j, q);
            assert(!(evs[j] matches Event::Expr(e) && persists(e)));
        }
    }
}

/// A function that writes persistent storage anywhere gets no finding.
pub proof fn lemma_persistent_write_passes(f: &FnDef, j: int)
    requires
        0 <= j < ev_block(&f.block, plain()).len(),
        ev_block(&f.block, plain())[j] matches Event::Expr(e) && persists(e),
    ensures fn_findings(f) == Seq::<FindingView>::empty(),
{
    let q = |e: &Expr| spec_is_persistent_set_call(e);
    assert(expr_at(ev_block(&f.block, plain()), j, q));
}

} // verus!
