//! `has(key)` then `get(key)` on one storage tier with host calls between
//! them: the entry's TTL may run out between the check and the read.

use vstd::prelude::*;
use crate::syntax::{Expr, FnDef, SourceFile};
use crate::walk::{block_events, ev_block, method_chain_has_storage, storage_in_method_chain, storage_tier, tier_in_chain, Event, MacroBodies, Walk};
use crate::finding::{fv, lemma_views_append, lemma_views_push, new_finding, views, Check, Finding, FindingView, Severity};
use crate::contract::{contract_fns, contractimpl_functions, over_fns};
use crate::text::str_eq;

verus! {

pub const CHECK_NAME: &'static str = "storage-ttl-has-get-race";

/// Flags a storage `get` on a tier after a `has` on the same tier with at
/// least one other method call met in between.
pub struct StorageHasGetRaceCheck;

/// The walk of this check: a storage `has`/`get` on a tier is met, but what
/// it is called on and with is not.
pub open spec fn race_walk() -> Walk {
    Walk { macros: MacroBodies::Skip, prune_storage_probes: true }
}

/// The tier of a `has`/`get` (by `name`) on a storage chain that names one.
pub open spec fn probe_tier(e: &Expr, name: Seq<char>) -> Option<Seq<char>> {
    match e {
        Expr::MethodCall { receiver, method, .. } =>
            if method@ == name && method_chain_has_storage(receiver) { storage_tier(receiver) } else { None },
        _ => None,
    }
}

fn probe_tier_of<'a>(e: &'a Expr, name: &str) -> (r: Option<&'a String>)
    ensures
        r is Some <==> probe_tier(e, name@) is Some,
        r is Some ==> r.unwrap()@ == probe_tier(e, name@).unwrap(),
{
    match e {
        Expr::MethodCall { receiver, method, .. } => {
            if str_eq(method.as_str(), name) && storage_in_method_chain(receiver) { tier_in_chain(receiver) } else { None }
        }
        _ => None,
    }
}

/// The `has` calls seen (tier, calls counted when seen), the number of
/// counted calls, and the findings so far.
pub struct RaceScan {
    pub has_seen: Seq<(Seq<char>, int)>,
    pub count: int,
    pub found: Seq<FindingView>,
}

pub open spec fn description(func: Seq<char>, tier: Seq<char>) -> Seq<char> {
    "`"@ + func + "` calls `has()` then `get()` on `"@ + tier
        + "` storage with intervening host calls. The TTL may expire between the check and the read, causing an unexpected panic. Use `get()` directly with `unwrap_or_default()`, or extend the TTL immediately after `has()`."@
}

/// A `has` on `tier` before which fewer calls were counted than now.
pub open spec fn raced(st: RaceScan, tier: Seq<char>) -> bool {
    exists|i: int| 0 <= i < st.has_seen.len() && (#[trigger] st.has_seen[i]).0 == tier && st.count - st.has_seen[i].1 >= 1
}

/// How one method call changes the scan. A call counts when neither it nor
/// its receiver chain is a `storage()` call.
pub open spec fn step(st: RaceScan, ev: Event, func: Seq<char>) -> RaceScan {
    match ev {
        Event::Expr(e) => match e {
            Expr::MethodCall { line, .. } =>
                match probe_tier(e, "has"@) {
                    Some(t) => RaceScan { has_seen: st.has_seen.push((t, st.count)), ..st },
                    None => match probe_tier(e, "get"@) {
                        Some(t) =>
                            if raced(st, t) {
                                RaceScan { found: st.found.push(fv(CHECK_NAME@, Severity::Medium, *line, func, description(func, t))), ..st }
                            } else {
                                st
                            },
                        None => if !method_chain_has_storage(e) { RaceScan { count: st.count + 1, ..st } } else { st },
                    },
                },
            _ => st,
        },
        _ => st,
    }
}

pub open spec fn scan(evs: Seq<Event>, func: Seq<char>, n: int) -> RaceScan
    decreases n,
{
    if n <= 0 || n > evs.len() {
        RaceScan { has_seen: Seq::empty(), count: 0, found: Seq::empty() }
    } else {
        step(scan(evs, func, n - 1), evs[n - 1], func)
    }
}

pub open spec fn fn_findings(f: &FnDef) -> Seq<FindingView> {
    let evs = ev_block(&f.block, race_walk());
    scan(evs, f.name@, evs.len() as int).found
}

pub open spec fn seen_views(v: Seq<(String, usize)>) -> Seq<(Seq<char>, int)> {
    v.map_values(|p: (String, usize)| (p.0@, p.1 as int))
}

fn scan_fn(f: &FnDef) -> (r: Vec<Finding>)
    ensures views(r@) == fn_findings(f),
{
    let evs = block_events(&f.block, Walk { macros: MacroBodies::Skip, prune_storage_probes: true });
    let mut has_seen: Vec<(String, usize)> = Vec::new();
    let mut count: usize = 0;
    let mut out: Vec<Finding> = Vec::new();
    let mut j: usize = 0;
    assert(seen_views(has_seen@) =~= Seq::empty());
    assert(views(out@) =~= Seq::empty());
    while j < evs.len()
        invariant
            j <= evs.len(),
            count <= j,
            evs@ == ev_block(&f.block, race_walk()),
            scan(evs@, f.name@, j as int) == (RaceScan { has_seen: seen_views(has_seen@), count: count as int, found: views(out@) }),
        decreases evs.len() - j,
    {
        match evs[j] {
            Event::Expr(e) => match e {
                Expr::MethodCall { line, .. } => {
                    match probe_tier_of(e, "has") {
                        Some(t) => {
                            let ghost sv = seen_views(has_seen@);
                            has_seen.push((t.clone(), count));
                            assert(seen_views(has_seen@) =~= sv.push((t@, count as int)));
                        }
                        None => match probe_tier_of(e, "get") {
                            Some(t) => {
                                let ghost st = RaceScan { has_seen: seen_views(has_seen@), count: count as int, found: views(out@) };
                                let mut race = false;
                                let mut k: usize = 0;
                                while k < has_seen.len()
                                    invariant
                                        k <= has_seen.len(),
                                        st.has_seen == seen_views(has_seen@),
                                        st.count == count as int,
                                        race == exists|i: int| 0 <= i < k && (#[trigger] st.has_seen[i]).0 == t@
                                            && st.count - st.has_seen[i].1 >= 1,
                                    decreases has_seen.len() - k,
                                {
                                    assert(st.has_seen[k as int] == (has_seen@[k as int].0@, has_seen@[k as int].1 as int));
                                    if str_eq(has_seen[k].0.as_str(), t.as_str()) && count > has_seen[k].1 {
                                        race = true;
                                    }
                                    k = k + 1;
                                    proof {
                                        let i = k - 1;
                                        if st.has_seen[i].0 == t@ && st.count - st.has_seen[i].1 >= 1 {
                                            assert(0 <= i < k && (#[trigger] st.has_seen[i]).0 == t@ && st.count - st.has_seen[i].1 >= 1);
                                        }
                                    }
                                }
                                if race {
                                    let mut d = String::from_str("`");
                                    d.append(f.name.as_str());
                                    d.append("` calls `has()` then `get()` on `");
                                    d.append(t.as_str());
                                    d.append("` storage with intervening host calls. The TTL may expire between the check and the read, causing an unexpected panic. Use `get()` directly with `unwrap_or_default()`, or extend the TTL immediately after `has()`.");
                                    let fd = new_finding(CHECK_NAME, Severity::Medium, *line, f.name.as_str(), d);
                                    proof { lemma_views_push(out@, fd); }
                                    out.push(fd);
                                }
                            }
                            None => {
                                if !storage_in_method_chain(e) {
                                    count = count + 1;
                                }
                            }
                        },
                    }
                }
                _ => {}
            },
            _ => {}
        }
        j = j + 1;
    }
    out
}

impl Check for StorageHasGetRaceCheck {
    open spec fn spec_name(&self) -> Seq<char> {
        CHECK_NAME@
    }

    open spec fn spec_run(&self, file: &SourceFile, source: Seq<char>) -> Seq<FindingView> {
        over_fns(contract_fns(file), |f: &FnDef| fn_findings(f), contract_fns(file).len() as int)
    }

    fn name(&self) -> (r: &str) {
        CHECK_NAME
    }

    fn run(&self, file: &SourceFile, source: &str) -> (r: Vec<Finding>) {
        let fns = contractimpl_functions(file);
        let mut out: Vec<Finding> = Vec::new();
        let mut i: usize = 0;
        while i < fns.len()
            invariant
                i <= fns.len(),
                fns@ == contract_fns(file),
                views(out@) == over_fns(contract_fns(file), |f: &FnDef| fn_findings(f), i as int),
            decreases fns.len() - i,
        {
            let mut found = scan_fn(fns[i]);
            proof { lemma_views_append(out@, found@); }
            out.append(&mut found);
            i = i + 1;
        }
        out
    }
}

} // verus!

verus! {

proof fn lemma_scan_tagged(evs: Seq<Event>, func: Seq<char>, n: int)
    ensures crate::finding::tagged(scan(evs, func, n).found, CHECK_NAME@, Severity::Medium),
    decreases n,
{
    if n > 0 && n <= evs.len() {
        lemma_scan_tagged(evs, func, n - 1);
        let prev = scan(evs, func, n - 1).found;
        let cur = scan(evs, func, n).found;
        assert forall|i: int| 0 <= i < cur.len() implies #[trigger] crate::finding::tag_ok(cur[i], CHECK_NAME@, Severity::Medium) by {
            if i < prev.len() {
                assert(cur[i] == prev[i]);
            }
        }
    }
}

proof fn lemma_fn_tagged(f: &FnDef)
    ensures crate::finding::tagged(fn_findings(f), CHECK_NAME@, Severity::Medium),
{
    let evs = ev_block(&f.block, race_walk());
    lemma_scan_tagged(evs, f.name@, evs.len() as int);
}

/// Every finding of this check names it, is of medium severity, and has an
/// empty file path.
pub proof fn lemma_findings_tagged(file: &SourceFile, source: Seq<char>)
    ensures crate::finding::tagged(StorageHasGetRaceCheck.spec_run(file, source), CHECK_NAME@, Severity::Medium),
{
    let fns = contract_fns(file);
    assert forall|k: int| 0 <= k < fns.len() implies crate::finding::tagged(fn_findings(fns[k]), CHECK_NAME@, Severity::Medium) by {
        lemma_fn_tagged(fns[k]);
    }
    crate::contract::lemma_over_fns_tagged(fns, |f: &FnDef| fn_findings(f), fns.len() as int, CHECK_NAME@, Severity::Medium);
}

} // verus!

verus! {

/// Only the functions of `#[contractimpl]` blocks are examined: one more
/// top-level item that is not such a block changes no finding.
pub proof fn lemma_ignores_other_items(a: &SourceFile, b: &SourceFile, source: Seq<char>)
    requires crate::contract::extended_by_other_item(a, b),
    ensures StorageHasGetRaceCheck.spec_run(b, source) == StorageHasGetRaceCheck.spec_run(a, source),
{
    crate::contract::lemma_contract_fns_extra_item(a, b);
}

} // verus!

verus! {

proof fn lemma_scan_grows(evs: Seq<Event>, func: Seq<char>, a: int, n: int, h: (Seq<char>, int))
    requires
        0 <= a <= n <= evs.len(),
    ensures
        scan(evs, func, a).count <= scan(evs, func, n).count,
        scan(evs, func, a).has_seen.contains(h) ==> scan(evs, func, n).has_seen.contains(h),
        scan(evs, func, a).found.len() > 0 ==> scan(evs, func, n).found.len() > 0,
    decreases n,
{
    if n > a {
        lemma_scan_grows(evs, func, a, n - 1, h);
        let p = scan(evs, func, n - 1);
        let c = scan(evs, func, n);
        if p.has_seen.contains(h) {
            let q = choose|q: int| 0 <= q < p.has_seen.len() && p.has_seen[q] == h;
            assert(c.has_seen[q] == h);
        }
    }
}

/// `x.has(..)` on a storage tier, then some method call that does not touch
/// storage, then `x.get(..)` on the same tier: the read may see a changed
/// state, and the function gets a finding.
pub proof fn lemma_has_then_get_flagged(f: &FnDef, a: int, c: int, g: int, t: Seq<char>)
    requires
        0 <= a < c < g < ev_block(&f.block, race_walk()).len(),
        ev_block(&f.block, race_walk())[a] matches Event::Expr(e) && probe_tier(e, "has"@) == Some(t),
        ev_block(&f.block, race_walk())[c] matches Event::Expr(e) && e is MethodCall && !method_chain_has_storage(e),
        ev_block(&f.block, race_walk())[g] matches Event::Expr(e) && probe_tier(e, "get"@) == Some(t),
    ensures fn_findings(f).len() > 0,
{
    let evs = ev_block(&f.block, race_walk());
    let func = f.name@;
    let sa = scan(evs, func, a);
    let h = (t, sa.count);
    assert(scan(evs, func, a + 1).has_seen[sa.has_seen.len() as int] == h);
    lemma_scan_grows(evs, func, a + 1, c, h);
    match evs[c] {
        Event::Expr(e) => match e {
            Expr::MethodCall { receiver, .. } => {
                assert(!method_chain_has_storage(receiver));
                assert(probe_tier(e, "has"@) is None);
                assert(probe_tier(e, "get"@) is None);
                assert(scan(evs, func, c + 1).count == scan(evs, func, c).count + 1);
                assert(scan(evs, func, c + 1).has_seen == scan(evs, func, c).has_seen);
            },
            _ => {},
        },
        _ => {},
    }
    lemma_scan_grows(evs, func, c + 1, g, h);
    let sg = scan(evs, func, g);
    assert(sg.has_seen.contains(h));
    let i = choose|i: int| 0 <= i < sg.has_seen.len() && sg.has_seen[i] == h;
    assert(sg.count - sg.has_seen[i].1 >= 1);
    assert(raced(sg, t));
    match evs[g] {
        Event::Expr(e) => {
            reveal_strlit("has");
            reveal_strlit("get");
            assert("has"@ != "get"@) by { assert("has"@[0] != "get"@[0]); }
            assert(probe_tier(e, "has"@) is None);
        },
        _ => {},
    }
    assert(scan(evs, func, g + 1).found.len() > 0);
    lemma_scan_grows(evs, func, g + 1, evs.len() as int, h);
}

} // verus!
