//! Unauthenticated read of a sensitive storage value (data exposure).
//!
//! A function that reads and returns a sensitive storage value (an admin
//! address, key material, a secret nonce) without `require_auth` exposes it
//! to any caller.

use vstd::prelude::*;
use crate::syntax::{Expr, FnDef, SourceFile};
use crate::walk::{block_events, ev_block, expr_at, lemma_some_expr_step, plain, plain_walk, some_expr, Event};
use crate::finding::{fv, lemma_views_append, lemma_views_push, new_finding, views, Check, Finding, FindingView, Severity};
use crate::contract::{contract_fns, contractimpl_functions, hits, over_fns};
use crate::text::{contains_any, contains_any_of, lower_text, seq_contains, str_eq, to_lower};
use crate::checks::keys::{extract_key_literal, receiver_chain_contains, spec_extract_key_literal, spec_receiver_chain_contains};

verus! {

pub const CHECK_NAME: &'static str = "unauth-sensitive-read";

/// Key fragments that mark sensitive values.
pub const SENSITIVE_PATTERNS: [&'static str; 5] = ["admin", "owner", "secret", "key", "priv"];

/// Flags storage `get(key)` calls with a literal key naming a sensitive value,
/// in functions that return a value and have no `require_auth`.
pub struct UnauthSensitiveReadCheck;

/// A call of a method named `require_auth`.
pub open spec fn spec_is_require_auth(e: &Expr) -> bool {
    match e {
        Expr::MethodCall { method, .. } => method@ == "require_auth"@,
        _ => false,
    }
}

fn is_require_auth(e: &Expr) -> (r: bool)
    ensures r == spec_is_require_auth(e),
{
    match e {
        Expr::MethodCall { method, .. } => str_eq(method.as_str(), "require_auth"),
        _ => false,
    }
}

pub open spec fn description(func: Seq<char>, key: Seq<char>) -> Seq<char> {
    "Function `"@ + func + "` reads and returns sensitive storage key '"@ + key
        + "' without require_auth(). This exposes sensitive data to any caller. Add authorization checks before returning sensitive values."@
}

/// A storage `get` whose literal key, lower-cased, contains a sensitive
/// pattern.
pub open spec fn event_hit(func: Seq<char>, ev: Event) -> Seq<FindingView> {
    match ev {
        Event::Expr(e) => match e {
            Expr::MethodCall { receiver, method, args, line } =>
                if method@ == "get"@ && spec_receiver_chain_contains(receiver, "storage"@) {
                    match spec_extract_key_literal(args@) {
                        Some(key) =>
                            if contains_any_of(lower_text(key), SENSITIVE_PATTERNS@) {
                                seq![fv(CHECK_NAME@, Severity::Medium, *line, func, description(func, key))]
                            } else {
                                Seq::empty()
                            },
                        None => Seq::empty(),
                    }
                } else {
                    Seq::empty()
                },
            _ => Seq::empty(),
        },
        _ => Seq::empty(),
    }
}

/// Nothing for a function returning `()` or calling `require_auth`;
/// otherwise one finding per sensitive storage read.
pub open spec fn fn_findings(f: &FnDef) -> Seq<FindingView> {
    let evs = ev_block(&f.block, plain());
    if f.output_is_unit || some_expr(evs, |e: &Expr| spec_is_require_auth(e)) {
        Seq::empty()
    } else {
        hits(evs, |ev: Event| event_hit(f.name@, ev), evs.len() as int)
    }
}

fn scan_fn(f: &FnDef) -> (r: Vec<Finding>)
    ensures views(r@) == fn_findings(f),
{
    let mut out: Vec<Finding> = Vec::new();
    if f.output_is_unit {
        return out;
    }
    let evs = block_events(&f.block, plain_walk());
    let ghost p = |e: &Expr| spec_is_require_auth(e);
    let mut has_require_auth = false;
    let mut j: usize = 0;
    while j < evs.len()
        invariant
            j <= evs.len(),
            p == (|e: &Expr| spec_is_require_auth(e)),
            has_require_auth == exists|k: int| 0 <= k < j && #[trigger] expr_at(evs@, k, p),
        decreases evs.len() - j,
    {
        proof { lemma_some_expr_step(evs@, j as int, p); }
        match evs[j] {
            Event::Expr(e) => {
                if is_require_auth(e) {
                    has_require_auth = true;
                }
            }
            _ => {}
        }
        j = j + 1;
    }
    if has_require_auth {
        return out;
    }
    let ghost h = |ev: Event| event_hit(f.name@, ev);
    let mut j: usize = 0;
    while j < evs.len()
        invariant
            j <= evs.len(),
            evs@ == ev_block(&f.block, plain()),
            h == (|ev: Event| event_hit(f.name@, ev)),
            views(out@) == hits(evs@, h, j as int),
        decreases evs.len() - j,
    {
        match evs[j] {
            Event::Expr(e) => match e {
                Expr::MethodCall { receiver, method, args, line } => {
                    if str_eq(method.as_str(), "get") && receiver_chain_contains(receiver, "storage") {
                        if let Some(key_str) = extract_key_literal(args) {
                            let key_lower = to_lower(key_str.as_str());
                            if contains_any(key_lower.as_str(), &SENSITIVE_PATTERNS) {
                                let mut d = String::from_str("Function `");
                                d.append(f.name.as_str());
                                d.append("` reads and returns sensitive storage key '");
                                d.append(key_str.as_str());
                                d.append("' without require_auth(). This exposes sensitive data to any caller. Add authorization checks before returning sensitive values.");
                                let fd = new_finding(CHECK_NAME, Severity::Medium, *line, f.name.as_str(), d);
                                proof { lemma_views_push(out@, fd); }
                                out.push(fd);
                            }
                        }
                    }
                }
                _ => {}
            },
            _ => {}
        }
        assert(views(out@) =~= hits(evs@, h, j + 1));
        j = j + 1;
    }
    out
}

impl Check for UnauthSensitiveReadCheck {
    open spec fn spec_name(&self) -> Seq<char> {
        CHECK_NAME@
    }

    open spec fn spec_run(&self, file: &SourceFile, source: Seq<char>) -> Seq<FindingView> {
        over_fns(contract_fns(file), |f: &FnDef| fn_findings(f), contract_fns(file).len() as int)
    }

    fn name(&self) -> (r: &str) {
        CHECK_NAME
    }

    fn run(&self, file: &SourceFile, source: &str) -> (r: Vec<Finding>) {
        let fns = contractimpl_functions(file);
        let mut out: Vec<Finding> = Vec::new();
        let mut i: usize = 0;
        while i < fns.len()
            invariant
                i <= fns.len(),
                fns@ == contract_fns(file),
                views(out@) == over_fns(contract_fns(file), |f: &FnDef| fn_findings(f), i as int),
            decreases fns.len() - i,
        {
            let mut found = scan_fn(fns[i]);
            proof { lemma_views_append(out@, found@); }
            out.append(&mut found);
            i = i + 1;
        }
        out
    }
}

} // verus!

verus! {

proof fn lemma_fn_tagged(f: &FnDef)
    ensures crate::finding::tagged(fn_findings(f), CHECK_NAME@, Severity::Medium),
{
    let evs = ev_block(&f.block, plain());
    crate::contract::lemma_hits_tagged(evs, |ev: Event| event_hit(f.name@, ev), evs.len() as int, CHECK_NAME@, Severity::Medium);
}

/// Every finding of this check names it, is of medium severity, and has an
/// empty file path.
pub proof fn lemma_findings_tagged(file: &SourceFile, source: Seq<char>)
    ensures crate::finding::tagged(UnauthSensitiveReadCheck.spec_run(file, source), CHECK_NAME@, Severity::Medium),
{
    let fns = contract_fns(file);
    assert forall|k: int| 0 <= k < fns.len() implies crate::finding::tagged(fn_findings(fns[k]), CHECK_NAME@, Severity::Medium) by {
        lemma_fn_tagged(fns[k]);
    }
    crate::contract::lemma_over_fns_tagged(fns, |f: &FnDef| fn_findings(f), fns.len() as int, CHECK_NAME@, Severity::Medium);
}

} // verus!

verus! {

/// Only the functions of `#[contractimpl]` blocks are examined: one more
/// top-level item that is not such a block changes no finding.
pub proof fn lemma_ignores_other_items(a: &SourceFile, b: &SourceFile, source: Seq<char>)
    requires crate::contract::extended_by_other_item(a, b),
    ensures UnauthSensitiveReadCheck.spec_run(b, source) == UnauthSensitiveReadCheck.spec_run(a, source),
{
    crate::contract::lemma_contract_fns_extra_item(a, b);
}

} // verus!

verus! {

/// `e` is the string literal `key`, possibly under one `&`.
pub open spec fn is_literal_key(e: &Expr, key: Seq<char>) -> bool {
    (e matches Expr::Lit { lit: crate::syntax::Lit::Str { value } } && value@ == key)
        || (e matches Expr::Reference { expr } && (**expr matches Expr::Lit { lit: crate::syntax::Lit::Str { value } } && value@ == key))
}

/// The text, in lower case, looks sensitive: it mentions `priv`, `key`,
/// `secret`, `owner` or `admin`.
pub open spec fn names_sensitive_data(t: Seq<char>) -> bool {
    seq_contains(t, "priv"@) || seq_contains(t, "key"@) || seq_contains(t, "secret"@)
        || seq_contains(t, "owner"@) || seq_contains(t, "admin"@)
}

/// In a function that returns a value and never calls `require_auth`, a
/// storage `get` of a literal key that looks sensitive (in any letter case)
/// is reported at its line.
pub proof fn lemma_sensitive_read_flagged(f: &FnDef, k: int, key: Seq<char>)
    requires
        !f.output_is_unit,
        0 <= k < ev_block(&f.block, plain()).len(),
        ev_block(&f.block, plain())[k] matches Event::Expr(e)
            && e matches Expr::MethodCall { receiver, method, args, .. } && method@ == "get"@
            && spec_receiver_chain_contains(receiver, "storage"@)
            && args.len() > 0 && is_literal_key(&args@[0], key),
        names_sensitive_data(lower_text(key)),
        forall|j: int| 0 <= j < ev_block(&f.block, plain()).len() ==> !(#[trigger] ev_block(&f.block, plain())[j] matches Event::Expr(e)
            && e matches Expr::MethodCall { method, .. } && method@ == "require_auth"@),
    ensures
        fn_findings(f).contains(fv(CHECK_NAME@, Severity::Medium, ev_block(&f.block, plain())[k]->Expr_0->MethodCall_line,
            f.name@, description(f.name@, key))),
{
    let evs = ev_block(&f.block, plain());
    let p = |e: &Expr| spec_is_require_auth(e);
    assert(!some_expr(evs, p)) by {
        if some_expr(evs, p) {
            let j = choose|j: int| 0 <= j < evs.len() && #[trigger] expr_at(evs, j, p);
            assert(!(evs[j] matches Event::Expr(e) && e matches Expr::MethodCall { method, .. } && method@ == "require_auth"@));
        }
    }
    let h = |ev: Event| event_hit(f.name@, ev);
    let x = fv(CHECK_NAME@, Severity::Medium, evs[k]->Expr_0->MethodCall_line, f.name@, description(f.name@, key));
    let lk = lower_text(key);
    assert(contains_any_of(lk, SENSITIVE_PATTERNS@)) by {
        assert(SENSITIVE_PATTERNS@[0]@ == "admin"@);
        assert(SENSITIVE_PATTERNS@[1]@ == "owner"@);
        assert(SENSITIVE_PATTERNS@[2]@ == "secret"@);
        assert(SENSITIVE_PATTERNS@[3]@ == "key"@);
        assert(SENSITIVE_PATTERNS@[4]@ == "priv"@);
        if seq_contains(lk, "admin"@) { assert(seq_contains(lk, SENSITIVE_PATTERNS@[0]@)); }
        else if seq_contains(lk, "owner"@) { assert(seq_contains(lk, SENSITIVE_PATTERNS@[1]@)); }
        else if seq_contains(lk, "secret"@) { assert(seq_contains(lk, SENSITIVE_PATTERNS@[2]@)); }
        else if seq_contains(lk, "key"@) { assert(seq_contains(lk, SENSITIVE_PATTERNS@[3]@)); }
        else { assert(seq_contains(lk, SENSITIVE_PATTERNS@[4]@)); }
    }
    match evs[k] {
        Event::Expr(e) => match e {
            Expr::MethodCall { args, .. } => {
                assert(spec_extract_key_literal(args@) == Some(key));
            },
            _ => {},
        },
        _ => {},
    }
    assert(h(evs[k])[0] == x);
    crate::contract::lemma_hits_contain(evs, h, k, evs.len() as int, x);
}

} // verus!
