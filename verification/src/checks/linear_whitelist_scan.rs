//! Linear `.iter().any(…)` scans over a storage-backed `Vec` used as a whitelist.

use vstd::prelude::*;
use crate::syntax::{Expr, FnDef, SourceFile};
use crate::walk::{block_events, ev_block, expr_at, lemma_some_expr_step, method_chain_has_storage, plain, plain_walk, some_expr, storage_in_method_chain, Event};
use crate::finding::{fv, lemma_views_append, lemma_views_push, new_finding, views, Check, Finding, FindingView, Severity};
use crate::contract::{contract_fns, contractimpl_functions, hits, over_fns};
use crate::text::str_eq;

verus! {

pub const CHECK_NAME: &'static str = "linear-whitelist-scan";

/// Flags `.iter().any(…)` chains in functions that also read from storage,
/// an O(n) whitelist membership check that can be DoS'd.
pub struct LinearWhitelistScanCheck;

/// A `get`/`get_unchecked` call whose receiver chain calls `storage()`.
pub open spec fn spec_is_storage_get(e: &Expr) -> bool {
    match e {
        Expr::MethodCall { receiver, method, .. } =>
            (method@ == "get"@ || method@ == "get_unchecked"@) && method_chain_has_storage(receiver),
        _ => false,
    }
}

fn is_storage_get(e: &Expr) -> (r: bool)
    ensures r == spec_is_storage_get(e),
{
    match e {
        Expr::MethodCall { receiver, method, .. } =>
            (str_eq(method.as_str(), "get") || str_eq(method.as_str(), "get_unchecked")) && storage_in_method_chain(receiver),
        _ => false,
    }
}

/// An `.any(..)` call on an `.iter()` call.
pub open spec fn spec_is_iter_any(e: &Expr) -> bool {
    match e {
        Expr::MethodCall { receiver, method, .. } => method@ == "any"@ && match &**receiver {
            Expr::MethodCall { method: inner, .. } => inner@ == "iter"@,
            _ => false,
        },
        _ => false,
    }
}

fn is_iter_any(e: &Expr) -> (r: bool)
    ensures r == spec_is_iter_any(e),
{
    match e {
        Expr::MethodCall { receiver, method, .. } => {
            if !str_eq(method.as_str(), "any") {
                return false;
            }
            match &**receiver {
                Expr::MethodCall { method: inner, .. } => str_eq(inner.as_str(), "iter"),
                _ => false,
            }
        }
        _ => false,
    }
}

pub open spec fn description(func: Seq<char>) -> Seq<char> {
    "`"@ + func
        + "` performs a linear `.iter().any(…)` scan over a storage-backed Vec. An attacker who can grow the list makes every call O(n), enabling DoS. Use a `Map<Address, bool>` for O(1) membership checks."@
}

pub open spec fn event_hit(func: Seq<char>, ev: Event) -> Seq<FindingView> {
    match ev {
        Event::Expr(e) => if spec_is_iter_any(e) {
            match e {
                Expr::MethodCall { line, .. } => seq![fv(CHECK_NAME@, Severity::Medium, *line, func, description(func))],
                _ => Seq::empty(),
            }
        } else {
            Seq::empty()
        },
        _ => Seq::empty(),
    }
}

/// When the function reads from storage, one finding per `.iter().any(..)`.
pub open spec fn fn_findings(f: &FnDef) -> Seq<FindingView> {
    let evs = ev_block(&f.block, plain());
    if some_expr(evs, |e: &Expr| spec_is_storage_get(e)) {
        hits(evs, |ev: Event| event_hit(f.name@, ev), evs.len() as int)
    } else {
        Seq::empty()
    }
}

fn scan_fn(f: &FnDef) -> (r: Vec<Finding>)
    ensures views(r@) == fn_findings(f),
{
    let evs = block_events(&f.block, plain_walk());
    let ghost p = |e: &Expr| spec_is_storage_get(e);
    let mut has_storage_get = false;
    let mut j: usize = 0;
    while j < evs.len()
        invariant
            j <= evs.len(),
            p == (|e: &Expr| spec_is_storage_get(e)),
            has_storage_get == exists|k: int| 0 <= k < j && #[trigger] expr_at(evs@, k, p),
        decreases evs.len() - j,
    {
        proof { lemma_some_expr_step(evs@, j as int, p); }
        match evs[j] {
            Event::Expr(e) => {
                if is_storage_get(e) {
                    has_storage_get = true;
                }
            }
            _ => {}
        }
        j = j + 1;
    }
    let mut out: Vec<Finding> = Vec::new();
    if !has_storage_get {
        return out;
    }
    let ghost h = |ev: Event| event_hit(f.name@, ev);
    let mut j: usize = 0;
    while j < evs.len()
        invariant
            j <= evs.len(),
            evs@ == ev_block(&f.block, plain()),
            h == (|ev: Event| event_hit(f.name@, ev)),
            views(out@) == hits(evs@, h, j as int),
        decreases evs.len() - j,
    {
        match evs[j] {
            Event::Expr(e) => {
                if is_iter_any(e) {
                    match e {
                        Expr::MethodCall { line, .. } => {
                            let mut d = String::from_str("`");
                            d.append(f.name.as_str());
                            d.append("` performs a linear `.iter().any(…)` scan over a storage-backed Vec. An attacker who can grow the list makes every call O(n), enabling DoS. Use a `Map<Address, bool>` for O(1) membership checks.");
                            let fd = new_finding(CHECK_NAME, Severity::Medium, *line, f.name.as_str(), d);
                            proof { lemma_views_push(out@, fd); }
                            out.push(fd);
                        }
                        _ => {}
                    }
                }
            }
            _ => {}
        }
        assert(views(out@) =~= hits(evs@, h, j + 1));
        j = j + 1;
    }
    out
}

impl Check for LinearWhitelistScanCheck {
    open spec fn spec_name(&self) -> Seq<char> {
        CHECK_NAME@
    }

    open spec fn spec_run(&self, file: &SourceFile, source: Seq<char>) -> Seq<FindingView> {
        over_fns(contract_fns(file), |f: &FnDef| fn_findings(f), contract_fns(file).len() as int)
    }

    fn name(&self) -> (r: &str) {
        CHECK_NAME
    }

    fn run(&self, file: &SourceFile, source: &str) -> (r: Vec<Finding>) {
        let fns = contractimpl_functions(file);
        let mut out: Vec<Finding> = Vec::new();
        let mut i: usize = 0;
        while i < fns.len()
            invariant
                i <= fns.len(),
                fns@ == contract_fns(file),
                views(out@) == over_fns(contract_fns(file), |f: &FnDef| fn_findings(f), i as int),
            decreases fns.len() - i,
        {
            let mut found = scan_fn(fns[i]);
            proof { lemma_views_append(out@, found@); }
            out.append(&mut found);
            i = i + 1;
        }
        out
    }
}

} // verus!

verus! {

proof fn lemma_fn_tagged(f: &FnDef)
    ensures crate::finding::tagged(fn_findings(f), CHECK_NAME@, Severity::Medium),
{
    let evs = ev_block(&f.block, plain());
    crate::contract::lemma_hits_tagged(evs, |ev: Event| event_hit(f.name@, ev), evs.len() as int, CHECK_NAME@, Severity::Medium);
}

/// Every finding of this check names it, is of medium severity, and has an
/// empty file path.
pub proof fn lemma_findings_tagged(file: &SourceFile, source: Seq<char>)
    ensures crate::finding::tagged(LinearWhitelistScanCheck.spec_run(file, source), CHECK_NAME@, Severity::Medium),
{
    let fns = contract_fns(file);
    assert forall|k: int| 0 <= k < fns.len() implies crate::finding::tagged(fn_findings(fns[k]), CHECK_NAME@, Severity::Medium) by {
        lemma_fn_tagged(fns[k]);
    }
    crate::contract::lemma_over_fns_tagged(fns, |f: &FnDef| fn_findings(f), fns.len() as int, CHECK_NAME@, Severity::Medium);
}

} // verus!

verus! {

/// Only the functions of `#[contractimpl]` blocks are examined: one more
/// top-level item that is not such a block changes no finding.
pub proof fn lemma_ignores_other_items(a: &SourceFile, b: &SourceFile, source: Seq<char>)
    requires crate::contract::extended_by_other_item(a, b),
    ensures LinearWhitelistScanCheck.spec_run(b, source) == LinearWhitelistScanCheck.spec_run(a, source),
{
    crate::contract::lemma_contract_fns_extra_item(a, b);
}

} // verus!

verus! {

/// In a function that reads storage with `get` or `get_unchecked` (on a
/// chain that calls `storage()`), every `.iter().any(..)` is reported at its
/// line.
pub proof fn lemma_iter_any_flagged(f: &FnDef, g: int, k: int)
    requires
        0 <= g < ev_block(&f.block, plain()).len(),
        ev_block(&f.block, plain())[g] matches Event::Expr(e)
            && e matches Expr::MethodCall { receiver, method, .. }
            && (method@ == "get_unchecked"@ || method@ == "get"@) && method_chain_has_storage(receiver),
        0 <= k < ev_block(&f.block, plain()).len(),
        ev_block(&f.block, plain())[k] matches Event::Expr(e)
            && e matches Expr::MethodCall { receiver, method, .. } && method@ == "any"@
            && (**receiver matches Expr::MethodCall { method: m2, .. } && m2@ == "iter"@),
    ensures
        fn_findings(f).contains(fv(CHECK_NAME@, Severity::Medium, ev_block(&f.block, plain())[k]->Expr_0->MethodCall_line,
            f.name@, description(f.name@))),
{
    let evs = ev_block(&f.block, plain());
    let p = |e: &Expr| spec_is_storage_get(e);
    assert(expr_at(evs, g, p));
    assert(some_expr(evs, p));
    let h = |ev: Event| event_hit(f.name@, ev);
    let x = fv(CHECK_NAME@, Severity::Medium, evs[k]->Expr_0->MethodCall_line, f.name@, description(f.name@));
    assert(h(evs[k])[0] == x);
    crate::contract::lemma_hits_contain(evs, h, k, evs.len() as int, x);
}

/// A function with no storage `get`/`get_unchecked` gets no finding.
pub proof fn lemma_no_storage_read_passes(f: &FnDef)
    requires
        forall|g: int| 0 <= g < ev_block(&f.block, plain()).len() ==> !(#[trigger] ev_block(&f.block, plain())[g] matches Event::Expr(e)
            && e matches Expr::MethodCall { receiver, method, .. }
            && (method@ == "get_unchecked"@ || method@ == "get"@) && method_chain_has_storage(receiver)),
    ensures fn_findings(f) == Seq::<FindingView>::empty(),
{
    let evs = ev_block(&f.block, plain());
    let p = |e: &Expr| spec_is_storage_get(e);
    assert(!some_expr(evs, p)) by {
        if some_expr(evs, p) {
            let g = choose|g: int| 0 <= g < evs.len() && #[trigger] expr_at(evs, g, p);
            assert(!(evs[g] matches Event::Expr(e)
                && e matches Expr::MethodCall { receiver, method, .. }
                && (method@ == "get_unchecked"@ || method@ == "get"@) && method_chain_has_storage(receiver)));
        }
    }
}

} // verus!
