//! Maps written with many distinct string-literal keys (key explosion).
//!
//! More than eight distinct string-literal keys in one function bypasses
//! Soroban's type-safe storage keys and makes the storage layout hard to audit.

use vstd::prelude::*;
use crate::syntax::{Expr, FnDef, Lit, SourceFile};
use crate::walk::{block_events, ev_block, plain, plain_walk, Event};
use crate::finding::{fv, lemma_views_append, new_finding, views, Check, Finding, FindingView, Severity};
use crate::contract::{contract_fns, contractimpl_functions, over_fns};
use crate::text::{decimal, decimal_string, lemma_texts_push, str_eq, string_in, texts};

verus! {

pub const CHECK_NAME: &'static str = "map-key-explosion";

/// The largest number of distinct string-literal keys that is not reported.
pub const MAX_DISTINCT_KEYS: usize = 8;

/// Flags functions that call `.set(key, value)` with more than eight distinct
/// string-literal keys.
pub struct MapKeyExplosionCheck;

/// The key of `.set("key", value, ..)`: a string literal first argument of a
/// `set` call with at least two arguments.
pub open spec fn spec_set_key(e: &Expr) -> Option<Seq<char>> {
    match e {
        Expr::MethodCall { method, args, .. } =>
            if method@ == "set"@ && args.len() >= 2 {
                match &args@[0] {
                    Expr::Lit { lit: Lit::Str { value } } => Some(value@),
                    _ => None,
                }
            } else {
                None
            },
        _ => None,
    }
}

fn set_key(e: &Expr) -> (r: Option<&String>)
    ensures
        r is Some <==> spec_set_key(e) is Some,
        r is Some ==> r.unwrap()@ == spec_set_key(e).unwrap(),
{
    match e {
        Expr::MethodCall { method, args, .. } => {
            if str_eq(method.as_str(), "set") && args.len() >= 2 {
                match &args[0] {
                    Expr::Lit { lit: Lit::Str { value } } => Some(value),
                    _ => None,
                }
            } else {
                None
            }
        }
        _ => None,
    }
}

/// The distinct keys set among the first `n` events, in order of first use.
pub open spec fn distinct_keys(evs: Seq<Event>, n: int) -> Seq<Seq<char>>
    decreases n,
{
    if n <= 0 || n > evs.len() {
        Seq::empty()
    } else {
        let prev = distinct_keys(evs, n - 1);
        match evs[n - 1] {
            Event::Expr(e) => match spec_set_key(e) {
                Some(k) => if prev.contains(k) { prev } else { prev.push(k) },
                None => prev,
            },
            _ => prev,
        }
    }
}

pub open spec fn description(func: Seq<char>, count: nat) -> Seq<char> {
    "Function `"@ + func + "` uses Map with "@ + decimal(count) + " distinct string literal keys (threshold: "@
        + decimal(8)
        + "). This 'key explosion' pattern bypasses Soroban's type-safe storage system. Consider using a typed struct or enum key for better type safety and auditability."@
}

pub open spec fn fn_findings(f: &FnDef) -> Seq<FindingView> {
    let evs = ev_block(&f.block, plain());
    let keys = distinct_keys(evs, evs.len() as int);
    if keys.len() > 8 {
        seq![fv(CHECK_NAME@, Severity::Low, f.name_line, f.name@, description(f.name@, keys.len()))]
    } else {
        Seq::empty()
    }
}

fn scan_fn(f: &FnDef) -> (r: Vec<Finding>)
    ensures views(r@) == fn_findings(f),
{
    let evs = block_events(&f.block, plain_walk());
    let mut string_keys: Vec<String> = Vec::new();
    let mut j: usize = 0;
    while j < evs.len()
        invariant
            j <= evs.len(),
            texts(string_keys@) == distinct_keys(evs@, j as int),
        decreases evs.len() - j,
    {
        match evs[j] {
            Event::Expr(e) => {
                if let Some(k) = set_key(e) {
                    if !string_in(&string_keys, k.as_str()) {
                        let ks = k.clone();
                        proof { lemma_texts_push(string_keys@, ks); }
                        string_keys.push(ks);
                    }
                }
            }
            _ => {}
        }
        j = j + 1;
    }
    let mut out: Vec<Finding> = Vec::new();
    if string_keys.len() > MAX_DISTINCT_KEYS {
        let mut d = String::from_str("Function `");
        d.append(f.name.as_str());
        d.append("` uses Map with ");
        let n = decimal_string(string_keys.len());
        d.append(n.as_str());
        d.append(" distinct string literal keys (threshold: ");
        let t = decimal_string(MAX_DISTINCT_KEYS);
        d.append(t.as_str());
        d.append("). This 'key explosion' pattern bypasses Soroban's type-safe storage system. Consider using a typed struct or enum key for better type safety and auditability.");
        out.push(new_finding(CHECK_NAME, Severity::Low, f.name_line, f.name.as_str(), d));
    }
    assert(views(out@) =~= fn_findings(f));
    out
}

impl Check for MapKeyExplosionCheck {
    open spec fn spec_name(&self) -> Seq<char> {
        CHECK_NAME@
    }

    open spec fn spec_run(&self, file: &SourceFile, source: Seq<char>) -> Seq<FindingView> {
        over_fns(contract_fns(file), |f: &FnDef| fn_findings(f), contract_fns(file).len() as int)
    }

    fn name(&self) -> (r: &str) {
        CHECK_NAME
    }

    fn run(&self, file: &SourceFile, source: &str) -> (r: Vec<Finding>) {
        let fns = contractimpl_functions(file);
        let mut out: Vec<Finding> = Vec::new();
        let mut i: usize = 0;
        while i < fns.len()
            invariant
                i <= fns.len(),
                fns@ == contract_fns(file),
                views(out@) == over_fns(contract_fns(file), |f: &FnDef| fn_findings(f), i as int),
            decreases fns.len() - i,
        {
            let mut found = scan_fn(fns[i]);
            proof { lemma_views_append(out@, found@); }
            out.append(&mut found);
            i = i + 1;
        }
        out
    }
}

} // verus!

verus! {

/// Every finding of this check names it, is of low severity, and has an
/// empty file path.
pub proof fn lemma_findings_tagged(file: &SourceFile, source: Seq<char>)
    ensures crate::finding::tagged(MapKeyExplosionCheck.spec_run(file, source), CHECK_NAME@, Severity::Low),
{
    let fns = contract_fns(file);
    crate::contract::lemma_over_fns_tagged(fns, |f: &FnDef| fn_findings(f), fns.len() as int, CHECK_NAME@, Severity::Low);
}

} // verus!

verus! {

/// Only the functions of `#[contractimpl]` blocks are examined: one more
/// top-level item that is not such a block changes no finding.
pub proof fn lemma_ignores_other_items(a: &SourceFile, b: &SourceFile, source: Seq<char>)
    requires crate::contract::extended_by_other_item(a, b),
    ensures MapKeyExplosionCheck.spec_run(b, source) == MapKeyExplosionCheck.spec_run(a, source),
{
    crate::contract::lemma_contract_fns_extra_item(a, b);
}

} // verus!

verus! {

/// The key of event `i`, when it is a `set` with a string-literal key.
pub open spec fn key_at(evs: Seq<Event>, i: int) -> Option<Seq<char>> {
    match evs[i] {
        Event::Expr(e) => spec_set_key(e),
        _ => None,
    }
}

/// The keys counted are pairwise different, and they are exactly the
/// string-literal keys of the `set` calls among the events: the count is the
/// number of distinct keys.
pub proof fn lemma_distinct_keys(evs: Seq<Event>, n: int)
    requires 0 <= n <= evs.len(),
    ensures
        forall|i: int, j: int| 0 <= i < j < distinct_keys(evs, n).len() ==> #[trigger] distinct_keys(evs, n)[i] != #[trigger] distinct_keys(evs, n)[j],
        forall|x: Seq<char>| #[trigger] distinct_keys(evs, n).contains(x) <==> (exists|i: int| 0 <= i < n && key_at(evs, i) == Some(x)),
    decreases n,
{
    if n > 0 {
        lemma_distinct_keys(evs, n - 1);
        let ks = distinct_keys(evs, n - 1);
        let r = distinct_keys(evs, n);
        assert forall|i: int, j: int| 0 <= i < j < r.len() implies #[trigger] r[i] != #[trigger] r[j] by {
            if j >= ks.len() {
                assert(r[i] == ks[i]);
                assert(!ks.contains(r[j]));
            } else {
                assert(r[i] == ks[i] && r[j] == ks[j]);
            }
        }
        assert forall|x: Seq<char>| #[trigger] r.contains(x) <==> (exists|i: int| 0 <= i < n && key_at(evs, i) == Some(x)) by {
            if r.contains(x) {
                let q = choose|q: int| 0 <= q < r.len() && r[q] == x;
                if q < ks.len() {
                    assert(ks[q] == x);
                    assert(ks.contains(x));
                    let i = choose|i: int| 0 <= i < n - 1 && key_at(evs, i) == Some(x);
                    assert(0 <= i < n && key_at(evs, i) == Some(x));
                } else {
                    assert(key_at(evs, n - 1) == Some(x));
                }
            }
            if exists|i: int| 0 <= i < n && key_at(evs, i) == Some(x) {
                let i = choose|i: int| 0 <= i < n && key_at(evs, i) == Some(x);
                if i < n - 1 {
                    assert(exists|i2: int| 0 <= i2 < n - 1 && key_at(evs, i2) == Some(x));
                    assert(ks.contains(x));
                    let q = choose|q: int| 0 <= q < ks.len() && ks[q] == x;
                    assert(r[q] == x);
                } else if ks.contains(x) {
                    let q = choose|q: int| 0 <= q < ks.len() && ks[q] == x;
                    assert(r[q] == x);
                } else {
                    assert(r[ks.len() as int] == x);
                }
            }
        }
    }
}

} // verus!

verus! {

/// `e` is `.set(key, ..)` with a string literal `key` and a value.
pub open spec fn sets_literal_key(e: &Expr, key: Seq<char>) -> bool {
    e matches Expr::MethodCall { method, args, .. } && method@ == "set"@ && args.len() >= 2
        && (args@[0] matches Expr::Lit { lit: Lit::Str { value } } && value@ == key)
}

/// The key is written as a literal by some `set` call among the events.
pub open spec fn key_is_set(evs: Seq<Event>, key: Seq<char>) -> bool {
    exists|k: int| 0 <= k < evs.len() && (#[trigger] evs[k] matches Event::Expr(e) && sets_literal_key(e, key))
}

proof fn lemma_key_sets(evs: Seq<Event>)
    ensures
        distinct_keys(evs, evs.len() as int).no_duplicates(),
        forall|x: Seq<char>| #[trigger] distinct_keys(evs, evs.len() as int).to_set().contains(x) <==> key_is_set(evs, x),
{
    let dk = distinct_keys(evs, evs.len() as int);
    lemma_distinct_keys(evs, evs.len() as int);
    assert forall|x: Seq<char>| #[trigger] dk.to_set().contains(x) <==> key_is_set(evs, x) by {
        if dk.contains(x) {
            let i = choose|i: int| 0 <= i < evs.len() && key_at(evs, i) == Some(x);
            assert(evs[i] matches Event::Expr(e) && sets_literal_key(e, x));
        }
        if key_is_set(evs, x) {
            let k = choose|k: int| 0 <= k < evs.len() && (#[trigger] evs[k] matches Event::Expr(e) && sets_literal_key(e, x));
            assert(key_at(evs, k) == Some(x));
        }
    }
}

/// A function that writes more than eight different string-literal keys
/// with `set` gets one finding.
pub proof fn lemma_many_keys_flagged(f: &FnDef, keys: Set<Seq<char>>)
    requires
        keys.finite(),
        keys.len() > 8,
        forall|x: Seq<char>| #[trigger] keys.contains(x) ==> key_is_set(ev_block(&f.block, plain()), x),
    ensures fn_findings(f).len() == 1,
{
    broadcast use vstd::seq_lib::seq_to_set_is_finite;
    let evs = ev_block(&f.block, plain());
    let dk = distinct_keys(evs, evs.len() as int);
    lemma_key_sets(evs);
    dk.unique_seq_to_set();
    assert(keys.subset_of(dk.to_set()));
    vstd::set_lib::lemma_len_subset(keys, dk.to_set());
}

/// A function all of whose string-literal `set` keys lie in a set of at
/// most eight keys gets no finding.
pub proof fn lemma_few_keys_pass(f: &FnDef, keys: Set<Seq<char>>)
    requires
        keys.finite(),
        keys.len() <= 8,
        forall|x: Seq<char>| key_is_set(ev_block(&f.block, plain()), x) ==> #[trigger] keys.contains(x),
    ensures fn_findings(f).len() == 0,
{
    let evs = ev_block(&f.block, plain());
    let dk = distinct_keys(evs, evs.len() as int);
    lemma_key_sets(evs);
    dk.unique_seq_to_set();
    assert(dk.to_set().subset_of(keys));
    vstd::set_lib::lemma_len_subset(dk.to_set(), keys);
}

} // verus!
