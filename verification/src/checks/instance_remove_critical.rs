//! `storage().instance().remove()` on a critical key (self-destruct risk).
//!
//! Removing critical contract state (admin, owner, paused flag, supply)
//! without authorization can permanently brick the contract.

use vstd::prelude::*;
use crate::syntax::{Expr, FnDef, SourceFile};
use crate::walk::{block_events, ev_block, expr_at, lemma_some_expr_step, plain, plain_walk, some_expr, Event};
use crate::finding::{fv, lemma_views_append, lemma_views_push, new_finding, views, Check, Finding, FindingView, Severity};
use crate::contract::{contract_fns, contractimpl_functions, hits, over_fns};
use crate::text::{contains_any, contains_any_of, lower_text, seq_contains, str_eq, to_lower};
use crate::checks::keys::{extract_key_literal, receiver_chain_contains, spec_extract_key_literal, spec_receiver_chain_contains};

verus! {

pub const CHECK_NAME: &'static str = "instance-remove-critical";

/// Key fragments that mark critical contract state.
pub const CRITICAL_PATTERNS: [&'static str; 5] = ["admin", "owner", "paused", "supply", "initialized"];

/// Flags `storage().instance().remove(key)` with a literal key naming
/// critical state, in functions without `require_auth`.
pub struct InstanceRemoveCriticalCheck;

/// A call of a method named `require_auth`.
pub open spec fn spec_is_require_auth(e: &Expr) -> bool {
    match e {
        Expr::MethodCall { method, .. } => method@ == "require_auth"@,
        _ => false,
    }
}

fn is_require_auth(e: &Expr) -> (r: bool)
    ensures r == spec_is_require_auth(e),
{
    match e {
        Expr::MethodCall { method, .. } => str_eq(method.as_str(), "require_auth"),
        _ => false,
    }
}

/// The receiver chain calls both `instance()` and `storage()`.
pub open spec fn spec_is_instance_storage_call(receiver: &Expr) -> bool {
    spec_receiver_chain_contains(receiver, "instance"@) && spec_receiver_chain_contains(receiver, "storage"@)
}

pub open spec fn description(func: Seq<char>, key: Seq<char>) -> Seq<char> {
    "Function `"@ + func + "` calls storage().instance().remove() on critical key '"@ + key
        + "' without require_auth(). Removing critical state can permanently brick the contract. Add strict authorization and re-initialization guards."@
}

/// A `remove` on instance storage whose literal key, lower-cased, contains a
/// critical pattern; reported only when the function has no `require_auth`.
pub open spec fn event_hit(func: Seq<char>, authed: bool, ev: Event) -> Seq<FindingView> {
    match ev {
        Event::Expr(e) => match e {
            Expr::MethodCall { receiver, method, args, line } =>
                if method@ == "remove"@ && spec_is_instance_storage_call(receiver) {
                    match spec_extract_key_literal(args@) {
                        Some(key) =>
                            if contains_any_of(lower_text(key), CRITICAL_PATTERNS@) && !authed {
                                seq![fv(CHECK_NAME@, Severity::High, *line, func, description(func, key))]
                            } else {
                                Seq::empty()
                            },
                        None => Seq::empty(),
                    }
                } else {
                    Seq::empty()
                },
            _ => Seq::empty(),
        },
        _ => Seq::empty(),
    }
}

pub open spec fn fn_findings(f: &FnDef) -> Seq<FindingView> {
    let evs = ev_block(&f.block, plain());
    let authed = some_expr(evs, |e: &Expr| spec_is_require_auth(e));
    hits(evs, |ev: Event| event_hit(f.name@, authed, ev), evs.len() as int)
}

fn scan_fn(f: &FnDef) -> (r: Vec<Finding>)
    ensures views(r@) == fn_findings(f),
{
    let evs = block_events(&f.block, plain_walk());
    let ghost p = |e: &Expr| spec_is_require_auth(e);
    let mut has_require_auth = false;
    let mut j: usize = 0;
    while j < evs.len()
        invariant
            j <= evs.len(),
            p == (|e: &Expr| spec_is_require_auth(e)),
            has_require_auth == exists|k: int| 0 <= k < j && #[trigger] expr_at(evs@, k, p),
        decreases evs.len() - j,
    {
        proof { lemma_some_expr_step(evs@, j as int, p); }
        match evs[j] {
            Event::Expr(e) => {
                if is_require_auth(e) {
                    has_require_auth = true;
                }
            }
            _ => {}
        }
        j = j + 1;
    }
    let ghost h = |ev: Event| event_hit(f.name@, has_require_auth, ev);
    let mut out: Vec<Finding> = Vec::new();
    let mut j: usize = 0;
    while j < evs.len()
        invariant
            j <= evs.len(),
            evs@ == ev_block(&f.block, plain()),
            h == (|ev: Event| event_hit(f.name@, has_require_auth, ev)),
            views(out@) == hits(evs@, h, j as int),
        decreases evs.len() - j,
    {
        match evs[j] {
            Event::Expr(e) => match e {
                Expr::MethodCall { receiver, method, args, line } => {
                    if str_eq(method.as_str(), "remove") && receiver_chain_contains(receiver, "instance")
                        && receiver_chain_contains(receiver, "storage") {
                        if let Some(key_str) = extract_key_literal(args) {
                            let key_lower = to_lower(key_str.as_str());
                            if contains_any(key_lower.as_str(), &CRITICAL_PATTERNS) && !has_require_auth {
                                let mut d = String::from_str("Function `");
                                d.append(f.name.as_str());
                                d.append("` calls storage().instance().remove() on critical key '");
                                d.append(key_str.as_str());
                                d.append("' without require_auth(). Removing critical state can permanently brick the contract. Add strict authorization and re-initialization guards.");
                                let fd = new_finding(CHECK_NAME, Severity::High, *line, f.name.as_str(), d);
                                proof { lemma_views_push(out@, fd); }
                                out.push(fd);
                            }
                        }
                    }
                }
                _ => {}
            },
            _ => {}
        }
        assert(views(out@) =~= hits(evs@, h, j + 1));
        j = j + 1;
    }
    out
}

impl Check for InstanceRemoveCriticalCheck {
    open spec fn spec_name(&self) -> Seq<char> {
        CHECK_NAME@
    }

    open spec fn spec_run(&self, file: &SourceFile, source: Seq<char>) -> Seq<FindingView> {
        over_fns(contract_fns(file), |f: &FnDef| fn_findings(f), contract_fns(file).len() as int)
    }

    fn name(&self) -> (r: &str) {
        CHECK_NAME
    }

    fn run(&self, file: &SourceFile, source: &str) -> (r: Vec<Finding>) {
        let fns = contractimpl_functions(file);
        let mut out: Vec<Finding> = Vec::new();
        let mut i: usize = 0;
        while i < fns.len()
            invariant
                i <= fns.len(),
                fns@ == contract_fns(file),
                views(out@) == over_fns(contract_fns(file), |f: &FnDef| fn_findings(f), i as int),
            decreases fns.len() - i,
        {
            let mut found = scan_fn(fns[i]);
            proof { lemma_views_append(out@, found@); }
            out.append(&mut found);
            i = i + 1;
        }
        out
    }
}

} // verus!

verus! {

proof fn lemma_fn_tagged(f: &FnDef)
    ensures crate::finding::tagged(fn_findings(f), CHECK_NAME@, Severity::High),
{
    let evs = ev_block(&f.block, plain());
    let authed = some_expr(evs, |e: &Expr| spec_is_require_auth(e));
    crate::contract::lemma_hits_tagged(evs, |ev: Event| event_hit(f.name@, authed, ev), evs.len() as int, CHECK_NAME@, Severity::High);
}

/// Every finding of this check names it, is of high severity, and has an
/// empty file path.
pub proof fn lemma_findings_tagged(file: &SourceFile, source: Seq<char>)
    ensures crate::finding::tagged(InstanceRemoveCriticalCheck.spec_run(file, source), CHECK_NAME@, Severity::High),
{
    let fns = contract_fns(file);
    assert forall|k: int| 0 <= k < fns.len() implies crate::finding::tagged(fn_findings(fns[k]), CHECK_NAME@, Severity::High) by {
        lemma_fn_tagged(fns[k]);
    }
    crate::contract::lemma_over_fns_tagged(fns, |f: &FnDef| fn_findings(f), fns.len() as int, CHECK_NAME@, Severity::High);
}

} // verus!

verus! {

/// Only the functions of `#[contractimpl]` blocks are examined: one more
/// top-level item that is not such a block changes no finding.
pub proof fn lemma_ignores_other_items(a: &SourceFile, b: &SourceFile, source: Seq<char>)
    requires crate::contract::extended_by_other_item(a, b),
    ensures InstanceRemoveCriticalCheck.spec_run(b, source) == InstanceRemoveCriticalCheck.spec_run(a, source),
{
    crate::contract::lemma_contract_fns_extra_item(a, b);
}

} // verus!

verus! {

/// `e` is the string literal `key`, possibly under one `&`.
pub open spec fn is_literal_key(e: &Expr, key: Seq<char>) -> bool {
    (e matches Expr::Lit { lit: crate::syntax::Lit::Str { value } } && value@ == key)
        || (e matches Expr::Reference { expr } && (**expr matches Expr::Lit { lit: crate::syntax::Lit::Str { value } } && value@ == key))
}

/// The text, in lower case, names critical state: it mentions `initialized`,
/// `supply`, `paused`, `owner` or `admin`.
pub open spec fn names_critical_state(t: Seq<char>) -> bool {
    seq_contains(t, "initialized"@) || seq_contains(t, "supply"@) || seq_contains(t, "paused"@)
        || seq_contains(t, "owner"@) || seq_contains(t, "admin"@)
}

/// In a function that never calls `require_auth`, an instance-storage
/// `remove` of a literal key naming critical state (in any letter case) is
/// reported at its line.
pub proof fn lemma_critical_remove_flagged(f: &FnDef, k: int, key: Seq<char>)
    requires
        0 <= k < ev_block(&f.block, plain()).len(),
        ev_block(&f.block, plain())[k] matches Event::Expr(e)
            && e matches Expr::MethodCall { receiver, method, args, .. } && method@ == "remove"@
            && spec_receiver_chain_contains(receiver, "instance"@) && spec_receiver_chain_contains(receiver, "storage"@)
            && args.len() > 0 && is_literal_key(&args@[0], key),
        names_critical_state(lower_text(key)),
        forall|j: int| 0 <= j < ev_block(&f.block, plain()).len() ==> !(#[trigger] ev_block(&f.block, plain())[j] matches Event::Expr(e)
            && e matches Expr::MethodCall { method, .. } && method@ == "require_auth"@),
    ensures
        fn_findings(f).contains(fv(CHECK_NAME@, Severity::High, ev_block(&f.block, plain())[k]->Expr_0->MethodCall_line,
            f.name@, description(f.name@, key))),
{
    let evs = ev_block(&f.block, plain());
    let p = |e: &Expr| spec_is_require_auth(e);
    let authed = some_expr(evs, p);
    assert(!authed) by {
        if authed {
            let j = choose|j: int| 0 <= j < evs.len() && #[trigger] expr_at(evs, j, p);
            assert(!(evs[j] matches Event::Expr(e) && e matches Expr::MethodCall { method, .. } && method@ == "require_auth"@));
        }
    }
    let h = |ev: Event| event_hit(f.name@, authed, ev);
    let x = fv(CHECK_NAME@, Severity::High, evs[k]->Expr_0->MethodCall_line, f.name@, description(f.name@, key));
    let lk = lower_text(key);
    assert(contains_any_of(lk, CRITICAL_PATTERNS@)) by {
        assert(CRITICAL_PATTERNS@[0]@ == "admin"@);
        assert(CRITICAL_PATTERNS@[1]@ == "owner"@);
        assert(CRITICAL_PATTERNS@[2]@ == "paused"@);
        assert(CRITICAL_PATTERNS@[3]@ == "supply"@);
        assert(CRITICAL_PATTERNS@[4]@ == "initialized"@);
        if seq_contains(lk, "admin"@) { assert(seq_contains(lk, CRITICAL_PATTERNS@[0]@)); }
        else if seq_contains(lk, "owner"@) { assert(seq_contains(lk, CRITICAL_PATTERNS@[1]@)); }
        else if seq_contains(lk, "paused"@) { assert(seq_contains(lk, CRITICAL_PATTERNS@[2]@)); }
        else if seq_contains(lk, "supply"@) { assert(seq_contains(lk, CRITICAL_PATTERNS@[3]@)); }
        else { assert(seq_contains(lk, CRITICAL_PATTERNS@[4]@)); }
    }
    match evs[k] {
        Event::Expr(e) => match e {
            Expr::MethodCall { args, .. } => {
                assert(spec_extract_key_literal(args@) == Some(key));
            },
            _ => {},
        },
        _ => {},
    }
    assert(h(evs[k])[0] == x);
    crate::contract::lemma_hits_contain(evs, h, k, evs.len() as int, x);
}

} // verus!
