//! One string-literal key used in both temporary and persistent/instance
//! storage, anywhere in a contract.
//!
//! Reads from one storage tier never see writes to the other, so sharing a
//! key across tiers gives stale or empty results.

use vstd::prelude::*;
use crate::syntax::{Expr, FnDef, Lit, SourceFile};
use crate::walk::{block_events, ev_block, plain, plain_walk, Event};
use crate::finding::{fv, lemma_views_push, new_finding, views, Check, Finding, FindingView, Severity};
use crate::contract::{contract_fns, contractimpl_functions};
use crate::text::{lemma_texts_push, str_eq, string_in, texts};

verus! {

pub const CHECK_NAME: &'static str = "tier-key-collision";

/// Flags every use of a key that the contract's functions use with both
/// `temporary()` and `persistent()`/`instance()` storage.
pub struct TierKeyCollisionCheck;

/// The nearest `persistent`, `instance` or `temporary` call along a
/// method/field chain.
pub open spec fn spec_tier(e: &Expr) -> Option<Seq<char>>
    decreases e,
{
    match e {
        Expr::MethodCall { receiver, method, .. } =>
            if method@ == "persistent"@ || method@ == "instance"@ || method@ == "temporary"@ {
                Some(method@)
            } else {
                spec_tier(receiver)
            },
        Expr::Field { base, .. } => spec_tier(base),
        _ => None,
    }
}

fn tier_of(e: &Expr) -> (r: Option<&String>)
    ensures
        r is Some <==> spec_tier(e) is Some,
        r is Some ==> r.unwrap()@ == spec_tier(e).unwrap(),
    decreases e,
{
    match e {
        Expr::MethodCall { receiver, method, .. } => {
            let m = method.as_str();
            if str_eq(m, "persistent") || str_eq(m, "instance") || str_eq(m, "temporary") {
                Some(method)
            } else {
                tier_of(receiver)
            }
        }
        Expr::Field { base, .. } => tier_of(base),
        _ => None,
    }
}

/// The first argument as a string literal, possibly under one `&`.
pub open spec fn spec_string_key(args: Seq<Expr>) -> Option<Seq<char>> {
    if args.len() == 0 {
        None
    } else {
        let inner = match &args[0] {
            Expr::Reference { expr } => &**expr,
            other => other,
        };
        match inner {
            Expr::Lit { lit } => match lit {
                Lit::Str { value } => Some(value@),
                _ => None,
            },
            _ => None,
        }
    }
}

fn string_key(args: &Vec<Expr>) -> (r: Option<&String>)
    ensures
        r is Some <==> spec_string_key(args@) is Some,
        r is Some ==> r.unwrap()@ == spec_string_key(args@).unwrap(),
{
    if args.len() == 0 {
        return None;
    }
    let inner = match &args[0] {
        Expr::Reference { expr } => &**expr,
        other => other,
    };
    match inner {
        Expr::Lit { lit } => match lit {
            Lit::Str { value } => Some(value),
            _ => None,
        },
        _ => None,
    }
}

/// A keyed storage access: its key, tier, line and function.
pub struct KeyUseView {
    pub key: Seq<char>,
    pub tier: Seq<char>,
    pub line: usize,
    pub func: Seq<char>,
}

pub struct KeyUse {
    pub key: String,
    pub tier: String,
    pub line: usize,
    pub func: String,
}

impl View for KeyUse {
    type V = KeyUseView;

    open spec fn view(&self) -> KeyUseView {
        KeyUseView { key: self.key@, tier: self.tier@, line: self.line, func: self.func@ }
    }
}

pub open spec fn use_views(v: Seq<KeyUse>) -> Seq<KeyUseView> {
    v.map_values(|u: KeyUse| u@)
}

/// The use that an event makes: a `set`/`get`/`remove`/`has` call with a tier
/// in its receiver chain and a string-literal key.
pub open spec fn use_at(ev: Event, func: Seq<char>) -> Seq<KeyUseView> {
    match ev {
        Event::Expr(e) => match e {
            Expr::MethodCall { receiver, method, args, line } =>
                if (method@ == "set"@ || method@ == "get"@ || method@ == "remove"@ || method@ == "has"@)
                    && spec_tier(receiver) is Some && spec_string_key(args@) is Some {
                    seq![KeyUseView { key: spec_string_key(args@).unwrap(), tier: spec_tier(receiver).unwrap(), line: *line, func }]
                } else {
                    Seq::empty()
                },
            _ => Seq::empty(),
        },
        _ => Seq::empty(),
    }
}

pub open spec fn uses_in(evs: Seq<Event>, func: Seq<char>, n: int) -> Seq<KeyUseView>
    decreases n,
{
    if n <= 0 || n > evs.len() {
        Seq::empty()
    } else {
        uses_in(evs, func, n - 1) + use_at(evs[n - 1], func)
    }
}

pub open spec fn fn_uses(f: &FnDef) -> Seq<KeyUseView> {
    let evs = ev_block(&f.block, plain());
    uses_in(evs, f.name@, evs.len() as int)
}

/// The uses of the first `n` functions, in order.
pub open spec fn all_uses(fns: Seq<&FnDef>, n: int) -> Seq<KeyUseView>
    decreases n,
{
    if n <= 0 || n > fns.len() {
        Seq::empty()
    } else {
        all_uses(fns, n - 1) + fn_uses(fns[n - 1])
    }
}

/// The keys of the first `n` uses, each once, in order of first use.
pub open spec fn distinct_keys(us: Seq<KeyUseView>, n: int) -> Seq<Seq<char>>
    decreases n,
{
    if n <= 0 || n > us.len() {
        Seq::empty()
    } else {
        let ks = distinct_keys(us, n - 1);
        if ks.contains(us[n - 1].key) { ks } else { ks.push(us[n - 1].key) }
    }
}

/// The first `n` uses whose key is `key`.
pub open spec fn group(us: Seq<KeyUseView>, key: Seq<char>, n: int) -> Seq<KeyUseView>
    decreases n,
{
    if n <= 0 || n > us.len() {
        Seq::empty()
    } else {
        group(us, key, n - 1) + if us[n - 1].key == key { seq![us[n - 1]] } else { Seq::empty() }
    }
}

pub open spec fn is_temp(u: KeyUseView) -> bool {
    u.tier == "temporary"@
}

pub open spec fn is_lasting(u: KeyUseView) -> bool {
    u.tier == "persistent"@ || u.tier == "instance"@
}

pub open spec fn description(key: Seq<char>, tier: Seq<char>) -> Seq<char> {
    "Key `"@ + key + "` is used in both temporary and persistent/instance storage (tier `"@ + tier
        + "` here). Reads from one tier will never see writes to the other, causing stale or empty results."@
}

/// One finding per use of the first `n` uses of a group.
pub open spec fn group_hits(g: Seq<KeyUseView>, n: int) -> Seq<FindingView>
    decreases n,
{
    if n <= 0 || n > g.len() {
        Seq::empty()
    } else {
        group_hits(g, n - 1) + seq![fv(CHECK_NAME@, Severity::Medium, g[n - 1].line, g[n - 1].func, description(g[n - 1].key, g[n - 1].tier))]
    }
}

/// Every use of the key, when the key is used in both kinds of tier.
pub open spec fn key_findings(us: Seq<KeyUseView>, key: Seq<char>) -> Seq<FindingView> {
    let g = group(us, key, us.len() as int);
    if (exists|i: int| 0 <= i < g.len() && #[trigger] is_temp(g[i])) && (exists|i: int| 0 <= i < g.len() && #[trigger] is_lasting(g[i])) {
        group_hits(g, g.len() as int)
    } else {
        Seq::empty()
    }
}

pub open spec fn keys_findings(us: Seq<KeyUseView>, ks: Seq<Seq<char>>, n: int) -> Seq<FindingView>
    decreases n,
{
    if n <= 0 || n > ks.len() {
        Seq::empty()
    } else {
        keys_findings(us, ks, n - 1) + key_findings(us, ks[n - 1])
    }
}

/// The findings, key by key in order of first use.
pub open spec fn file_findings(file: &SourceFile) -> Seq<FindingView> {
    let fns = contract_fns(file);
    let us = all_uses(fns, fns.len() as int);
    let ks = distinct_keys(us, us.len() as int);
    keys_findings(us, ks, ks.len() as int)
}

fn push_uses(f: &FnDef, out: &mut Vec<KeyUse>)
    ensures use_views(final(out)@) == use_views(old(out)@) + fn_uses(f),
{
    let evs = block_events(&f.block, plain_walk());
    let ghost start = use_views(out@);
    let mut j: usize = 0;
    assert(use_views(out@) =~= start + uses_in(evs@, f.name@, 0));
    while j < evs.len()
        invariant
            j <= evs.len(),
            evs@ == ev_block(&f.block, plain()),
            use_views(out@) == start + uses_in(evs@, f.name@, j as int),
        decreases evs.len() - j,
    {
        let ghost before = use_views(out@);
        match evs[j] {
            Event::Expr(e) => match e {
                Expr::MethodCall { receiver, method, args, line } => {
                    let m = method.as_str();
                    if str_eq(m, "set") || str_eq(m, "get") || str_eq(m, "remove") || str_eq(m, "has") {
                        match (tier_of(receiver), string_key(args)) {
                            (Some(t), Some(k)) => {
                                out.push(KeyUse { key: k.clone(), tier: t.clone(), line: *line, func: f.name.clone() });
                            }
                            _ => {}
                        }
                    }
                }
                _ => {}
            },
            _ => {}
        }
        assert(use_views(out@) =~= before + use_at(evs@[j as int], f.name@));
        j = j + 1;
    }
}

fn check_key(us: &Vec<KeyUse>, key: &str, out: &mut Vec<Finding>)
    ensures views(final(out)@) == views(old(out)@) + key_findings(use_views(us@), key@),
{
    let ghost uv = use_views(us@);
    let mut g: Vec<&KeyUse> = Vec::new();
    let mut j: usize = 0;
    while j < us.len()
        invariant
            j <= us.len(),
            uv == use_views(us@),
            g@.map_values(|u: &KeyUse| u@) == group(uv, key@, j as int),
        decreases us.len() - j,
    {
        if str_eq(us[j].key.as_str(), key) {
            g.push(&us[j]);
        }
        assert(g@.map_values(|u: &KeyUse| u@) =~= group(uv, key@, j + 1));
        j = j + 1;
    }
    let ghost gv = group(uv, key@, uv.len() as int);
    let mut temp = false;
    let mut lasting = false;
    let mut k: usize = 0;
    while k < g.len()
        invariant
            k <= g.len(),
            gv == g@.map_values(|u: &KeyUse| u@),
            temp == exists|i: int| 0 <= i < k && #[trigger] is_temp(gv[i]),
            lasting == exists|i: int| 0 <= i < k && #[trigger] is_lasting(gv[i]),
        decreases g.len() - k,
    {
        let t = g[k].tier.as_str();
        assert(gv[k as int] == g@[k as int]@);
        if str_eq(t, "temporary") {
            temp = true;
        }
        if str_eq(t, "persistent") || str_eq(t, "instance") {
            lasting = true;
        }
        k = k + 1;
        proof {
            if is_temp(gv[k - 1]) {
                assert(0 <= k - 1 < k && is_temp(gv[k - 1]));
            }
            if is_lasting(gv[k - 1]) {
                assert(0 <= k - 1 < k && is_lasting(gv[k - 1]));
            }
        }
    }
    if !(temp && lasting) {
        assert(views(out@) =~= views(old(out)@) + key_findings(uv, key@));
        return;
    }
    let ghost start = views(out@);
    let mut q: usize = 0;
    while q < g.len()
        invariant
            q <= g.len(),
            gv == g@.map_values(|u: &KeyUse| u@),
            views(out@) == start + group_hits(gv, q as int),
        decreases g.len() - q,
    {
        let u = g[q];
        assert(gv[q as int] == u@);
        let mut d = String::from_str("Key `");
        d.append(u.key.as_str());
        d.append("` is used in both temporary and persistent/instance storage (tier `");
        d.append(u.tier.as_str());
        d.append("` here). Reads from one tier will never see writes to the other, causing stale or empty results.");
        let fd = new_finding(CHECK_NAME, Severity::Medium, u.line, u.func.as_str(), d);
        proof { lemma_views_push(out@, fd); }
        out.push(fd);
        q = q + 1;
        assert(views(out@) =~= start + group_hits(gv, q as int));
    }
}

fn run_file(file: &SourceFile) -> (r: Vec<Finding>)
    ensures views(r@) == file_findings(file),
{
    let fns = contractimpl_functions(file);
    let mut us: Vec<KeyUse> = Vec::new();
    let mut i: usize = 0;
    while i < fns.len()
        invariant
            i <= fns.len(),
            fns@ == contract_fns(file),
            use_views(us@) == all_uses(fns@, i as int),
        decreases fns.len() - i,
    {
        push_uses(fns[i], &mut us);
        i = i + 1;
    }
    let ghost uv = use_views(us@);
    let mut ks: Vec<String> = Vec::new();
    let mut j: usize = 0;
    while j < us.len()
        invariant
            j <= us.len(),
            uv == use_views(us@),
            texts(ks@) == distinct_keys(uv, j as int),
        decreases us.len() - j,
    {
        assert(uv[j as int] == us@[j as int]@);
        if !string_in(&ks, us[j].key.as_str()) {
            let k = us[j].key.clone();
            proof { lemma_texts_push(ks@, k); }
            ks.push(k);
        }
        j = j + 1;
    }
    let ghost kv = texts(ks@);
    let mut out: Vec<Finding> = Vec::new();
    let mut q: usize = 0;
    while q < ks.len()
        invariant
            q <= ks.len(),
            uv == use_views(us@),
            kv == texts(ks@),
            views(out@) == keys_findings(uv, kv, q as int),
        decreases ks.len() - q,
    {
        check_key(&us, ks[q].as_str(), &mut out);
        q = q + 1;
    }
    out
}

impl Check for TierKeyCollisionCheck {
    open spec fn spec_name(&self) -> Seq<char> {
        CHECK_NAME@
    }

    open spec fn spec_run(&self, file: &SourceFile, source: Seq<char>) -> Seq<FindingView> {
        file_findings(file)
    }

    fn name(&self) -> (r: &str) {
        CHECK_NAME
    }

    fn run(&self, file: &SourceFile, source: &str) -> (r: Vec<Finding>) {
        run_file(file)
    }
}

} // verus!

verus! {

proof fn lemma_group_tagged(g: Seq<KeyUseView>, n: int)
    ensures crate::finding::tagged(group_hits(g, n), CHECK_NAME@, Severity::Medium),
    decreases n,
{
    if n > 0 && n <= g.len() {
        lemma_group_tagged(g, n - 1);
        let prev = group_hits(g, n - 1);
        let cur = group_hits(g, n);
        assert forall|i: int| 0 <= i < cur.len() implies #[trigger] crate::finding::tag_ok(cur[i], CHECK_NAME@, Severity::Medium) by {
            if i < prev.len() {
                assert(cur[i] == prev[i]);
            }
        }
    }
}

proof fn lemma_keys_tagged(us: Seq<KeyUseView>, ks: Seq<Seq<char>>, n: int)
    ensures crate::finding::tagged(keys_findings(us, ks, n), CHECK_NAME@, Severity::Medium),
    decreases n,
{
    if n > 0 && n <= ks.len() {
        lemma_keys_tagged(us, ks, n - 1);
        let g = group(us, ks[n - 1], us.len() as int);
        lemma_group_tagged(g, g.len() as int);
        crate::finding::lemma_tagged_add(keys_findings(us, ks, n - 1), key_findings(us, ks[n - 1]), CHECK_NAME@, Severity::Medium);
    }
}

/// Every finding of this check names it, is of medium severity, and has an
/// empty file path.
pub proof fn lemma_findings_tagged(file: &SourceFile, source: Seq<char>)
    ensures crate::finding::tagged(TierKeyCollisionCheck.spec_run(file, source), CHECK_NAME@, Severity::Medium),
{
    let fns = contract_fns(file);
    let us = all_uses(fns, fns.len() as int);
    let ks = distinct_keys(us, us.len() as int);
    lemma_keys_tagged(us, ks, ks.len() as int);
}

} // verus!

verus! {

/// The keys are examined each once, and they are exactly the keys of the
/// uses.
pub proof fn lemma_distinct_keys(us: Seq<KeyUseView>, n: int)
    requires 0 <= n <= us.len(),
    ensures
        forall|i: int, j: int| 0 <= i < j < distinct_keys(us, n).len() ==> #[trigger] distinct_keys(us, n)[i] != #[trigger] distinct_keys(us, n)[j],
        forall|x: Seq<char>| #[trigger] distinct_keys(us, n).contains(x) <==> (exists|i: int| 0 <= i < n && us[i].key == x),
    decreases n,
{
    if n > 0 {
        lemma_distinct_keys(us, n - 1);
        let ks = distinct_keys(us, n - 1);
        let k = us[n - 1].key;
        let r = distinct_keys(us, n);
        if !ks.contains(k) {
            assert forall|i: int, j: int| 0 <= i < j < r.len() implies #[trigger] r[i] != #[trigger] r[j] by {
                if j == ks.len() {
                    assert(r[i] == ks[i]);
                    assert(r[j] == k);
                }
            }
        }
        assert forall|x: Seq<char>| #[trigger] r.contains(x) <==> (exists|i: int| 0 <= i < n && us[i].key == x) by {
            if r.contains(x) {
                let q = choose|q: int| 0 <= q < r.len() && r[q] == x;
                if q < ks.len() {
                    assert(ks[q] == x);
                    assert(ks.contains(x));
                    let i = choose|i: int| 0 <= i < n - 1 && us[i].key == x;
                    assert(0 <= i < n && us[i].key == x);
                } else {
                    assert(us[n - 1].key == x);
                }
            }
            if exists|i: int| 0 <= i < n && us[i].key == x {
                let i = choose|i: int| 0 <= i < n && us[i].key == x;
                if i < n - 1 {
                    assert(exists|i2: int| 0 <= i2 < n - 1 && us[i2].key == x);
                    assert(ks.contains(x));
                    let q = choose|q: int| 0 <= q < ks.len() && ks[q] == x;
                    assert(r[q] == x);
                } else if ks.contains(k) {
                    let q = choose|q: int| 0 <= q < ks.len() && ks[q] == k;
                    assert(r[q] == x);
                } else {
                    assert(r[ks.len() as int] == x);
                }
            }
        }
    }
}

} // verus!

verus! {

/// Only the functions of `#[contractimpl]` blocks are examined: one more
/// top-level item that is not such a block changes no finding.
pub proof fn lemma_ignores_other_items(a: &SourceFile, b: &SourceFile, source: Seq<char>)
    requires crate::contract::extended_by_other_item(a, b),
    ensures TierKeyCollisionCheck.spec_run(b, source) == TierKeyCollisionCheck.spec_run(a, source),
{
    crate::contract::lemma_contract_fns_extra_item(a, b);
}

} // verus!

verus! {

/// `e` is the string literal `key`, possibly under one `&`.
pub open spec fn is_str_key(e: &Expr, key: Seq<char>) -> bool {
    (e matches Expr::Lit { lit: Lit::Str { value } } && value@ == key)
        || (e matches Expr::Reference { expr } && (**expr matches Expr::Lit { lit: Lit::Str { value } } && value@ == key))
}

/// `e` is `<chain>.<tier>().<m>(key, ..)` with `m` one of `set`, `get`,
/// `remove`, `has` and `tier` one of `temporary`, `persistent`, `instance`.
pub open spec fn keyed_call(e: &Expr, key: Seq<char>, tier: Seq<char>) -> bool {
    e matches Expr::MethodCall { receiver, method, args, .. }
        && (method@ == "remove"@ || method@ == "set"@ || method@ == "has"@ || method@ == "get"@)
        && (tier == "temporary"@ || tier == "persistent"@ || tier == "instance"@)
        && (**receiver matches Expr::MethodCall { method: tm, .. } && tm@ == tier)
        && args.len() > 0 && is_str_key(&args@[0], key)
}

proof fn lemma_uses_grow(evs: Seq<Event>, func: Seq<char>, k: int, n: int, u: KeyUseView)
    requires
        0 <= k < n <= evs.len(),
        uses_in(evs, func, k + 1).contains(u),
    ensures uses_in(evs, func, n).contains(u),
    decreases n,
{
    if n > k + 1 {
        lemma_uses_grow(evs, func, k, n - 1, u);
        let prev = uses_in(evs, func, n - 1);
        let j = choose|j: int| 0 <= j < prev.len() && prev[j] == u;
        assert(uses_in(evs, func, n)[j] == u);
    }
}

/// Every `set`, `get`, `remove` or `has` call on a storage tier with a
/// string-literal key is a use of that key, in that tier, at that line.
pub proof fn lemma_keyed_call_is_use(f: &FnDef, k: int, key: Seq<char>, tier: Seq<char>)
    requires
        0 <= k < ev_block(&f.block, plain()).len(),
        ev_block(&f.block, plain())[k] matches Event::Expr(e) && keyed_call(e, key, tier),
    ensures
        fn_uses(f).contains(KeyUseView { key, tier, line: ev_block(&f.block, plain())[k]->Expr_0->MethodCall_line, func: f.name@ }),
{
    let evs = ev_block(&f.block, plain());
    let u = KeyUseView { key, tier, line: evs[k]->Expr_0->MethodCall_line, func: f.name@ };
    match evs[k] {
        Event::Expr(e) => match e {
            Expr::MethodCall { receiver, args, .. } => {
                assert(spec_tier(receiver) == Some(tier));
                assert(spec_string_key(args@) == Some(key));
                assert(use_at(evs[k], f.name@) == seq![u]);
                assert(uses_in(evs, f.name@, k + 1)[uses_in(evs, f.name@, k).len() as int] == u);
            },
            _ => {},
        },
        _ => {},
    }
    if k + 1 < evs.len() {
        lemma_uses_grow(evs, f.name@, k, evs.len() as int, u);
    }
}

proof fn lemma_all_uses_contain(fns: Seq<&FnDef>, a: int, n: int, u: KeyUseView)
    requires
        0 <= a < n <= fns.len(),
        fn_uses(fns[a]).contains(u),
    ensures all_uses(fns, n).contains(u),
    decreases n,
{
    if n == a + 1 {
        let j = choose|j: int| 0 <= j < fn_uses(fns[a]).len() && fn_uses(fns[a])[j] == u;
        assert(all_uses(fns, n)[all_uses(fns, a).len() + j] == u);
    } else {
        lemma_all_uses_contain(fns, a, n - 1, u);
        let prev = all_uses(fns, n - 1);
        let j = choose|j: int| 0 <= j < prev.len() && prev[j] == u;
        assert(all_uses(fns, n)[j] == u);
    }
}

proof fn lemma_group_contains(us: Seq<KeyUseView>, key: Seq<char>, n: int, i: int)
    requires
        0 <= i < n <= us.len(),
        us[i].key == key,
    ensures group(us, key, n).contains(us[i]),
    decreases n,
{
    if n == i + 1 {
        assert(group(us, key, n)[group(us, key, i).len() as int] == us[i]);
    } else {
        lemma_group_contains(us, key, n - 1, i);
        let prev = group(us, key, n - 1);
        let j = choose|j: int| 0 <= j < prev.len() && prev[j] == us[i];
        assert(group(us, key, n)[j] == us[i]);
    }
}

proof fn lemma_group_hits_contain(g: Seq<KeyUseView>, n: int, j: int)
    requires 0 <= j < n <= g.len(),
    ensures group_hits(g, n).contains(fv(CHECK_NAME@, Severity::Medium, g[j].line, g[j].func, description(g[j].key, g[j].tier))),
    decreases n,
{
    let fd = fv(CHECK_NAME@, Severity::Medium, g[j].line, g[j].func, description(g[j].key, g[j].tier));
    if n == j + 1 {
        assert(group_hits(g, n)[group_hits(g, j).len() as int] == fd);
    } else {
        lemma_group_hits_contain(g, n - 1, j);
        let prev = group_hits(g, n - 1);
        let q = choose|q: int| 0 <= q < prev.len() && prev[q] == fd;
        assert(group_hits(g, n)[q] == fd);
    }
}

proof fn lemma_keys_findings_contain(us: Seq<KeyUseView>, ks: Seq<Seq<char>>, n: int, q: int, fd: FindingView)
    requires
        0 <= q < n <= ks.len(),
        key_findings(us, ks[q]).contains(fd),
    ensures keys_findings(us, ks, n).contains(fd),
    decreases n,
{
    if n == q + 1 {
        let j = choose|j: int| 0 <= j < key_findings(us, ks[q]).len() && key_findings(us, ks[q])[j] == fd;
        assert(keys_findings(us, ks, n)[keys_findings(us, ks, q).len() + j] == fd);
    } else {
        lemma_keys_findings_contain(us, ks, n - 1, q, fd);
        let prev = keys_findings(us, ks, n - 1);
        let j = choose|j: int| 0 <= j < prev.len() && prev[j] == fd;
        assert(keys_findings(us, ks, n)[j] == fd);
    }
}

/// When a key has a use in temporary storage and a use in persistent or
/// instance storage, every use of it is reported, at its line and function.
pub proof fn lemma_mixed_key_uses_reported(file: &SourceFile, i: int, t: int, l: int)
    requires
        0 <= i < all_uses(contract_fns(file), contract_fns(file).len() as int).len(),
        0 <= t < all_uses(contract_fns(file), contract_fns(file).len() as int).len(),
        0 <= l < all_uses(contract_fns(file), contract_fns(file).len() as int).len(),
        all_uses(contract_fns(file), contract_fns(file).len() as int)[t].key == all_uses(contract_fns(file), contract_fns(file).len() as int)[i].key,
        all_uses(contract_fns(file), contract_fns(file).len() as int)[l].key == all_uses(contract_fns(file), contract_fns(file).len() as int)[i].key,
        all_uses(contract_fns(file), contract_fns(file).len() as int)[t].tier == "temporary"@,
        all_uses(contract_fns(file), contract_fns(file).len() as int)[l].tier == "persistent"@
            || all_uses(contract_fns(file), contract_fns(file).len() as int)[l].tier == "instance"@,
    ensures ({
        let u = all_uses(contract_fns(file), contract_fns(file).len() as int)[i];
        file_findings(file).contains(fv(CHECK_NAME@, Severity::Medium, u.line, u.func, description(u.key, u.tier)))
    }),
{
    let fns = contract_fns(file);
    let us = all_uses(fns, fns.len() as int);
    let u = us[i];
    let key = u.key;
    let ks = distinct_keys(us, us.len() as int);
    lemma_distinct_keys(us, us.len() as int);
    assert(ks.contains(key));
    let q = choose|q: int| 0 <= q < ks.len() && ks[q] == key;
    let g = group(us, key, us.len() as int);
    lemma_group_contains(us, key, us.len() as int, t);
    lemma_group_contains(us, key, us.len() as int, l);
    lemma_group_contains(us, key, us.len() as int, i);
    let jt = choose|j: int| 0 <= j < g.len() && g[j] == us[t];
    let jl = choose|j: int| 0 <= j < g.len() && g[j] == us[l];
    let ji = choose|j: int| 0 <= j < g.len() && g[j] == u;
    assert(is_temp(g[jt]));
    assert(is_lasting(g[jl]));
    lemma_group_hits_contain(g, g.len() as int, ji);
    let fd = fv(CHECK_NAME@, Severity::Medium, u.line, u.func, description(u.key, u.tier));
    assert(key_findings(us, ks[q]).contains(fd));
    lemma_keys_findings_contain(us, ks, ks.len() as int, q, fd);
}

/// A string-literal key that one `#[contractimpl]` function reaches in
/// temporary storage and another (or the same) reaches in persistent or
/// instance storage, through any of `set`, `get`, `remove`, `has`, is
/// reported at both calls.
pub proof fn lemma_cross_tier_calls_reported(file: &SourceFile, a: int, ka: int, b: int, kb: int, key: Seq<char>, tier_b: Seq<char>)
    requires
        0 <= a < contract_fns(file).len(),
        0 <= b < contract_fns(file).len(),
        0 <= ka < ev_block(&contract_fns(file)[a].block, plain()).len(),
        0 <= kb < ev_block(&contract_fns(file)[b].block, plain()).len(),
        ev_block(&contract_fns(file)[a].block, plain())[ka] matches Event::Expr(e) && keyed_call(e, key, "temporary"@),
        tier_b == "persistent"@ || tier_b == "instance"@,
        ev_block(&contract_fns(file)[b].block, plain())[kb] matches Event::Expr(e) && keyed_call(e, key, tier_b),
    ensures
        file_findings(file).contains(fv(CHECK_NAME@, Severity::Medium,
            ev_block(&contract_fns(file)[a].block, plain())[ka]->Expr_0->MethodCall_line, contract_fns(file)[a].name@,
            description(key, "temporary"@))),
        file_findings(file).contains(fv(CHECK_NAME@, Severity::Medium,
            ev_block(&contract_fns(file)[b].block, plain())[kb]->Expr_0->MethodCall_line, contract_fns(file)[b].name@,
            description(key, tier_b))),
{
    let fns = contract_fns(file);
    let us = all_uses(fns, fns.len() as int);
    let fa = fns[a];
    let fb = fns[b];
    lemma_keyed_call_is_use(fa, ka, key, "temporary"@);
    lemma_keyed_call_is_use(fb, kb, key, tier_b);
    let ua = KeyUseView { key, tier: "temporary"@, line: ev_block(&fa.block, plain())[ka]->Expr_0->MethodCall_line, func: fa.name@ };
    let ub = KeyUseView { key, tier: tier_b, line: ev_block(&fb.block, plain())[kb]->Expr_0->MethodCall_line, func: fb.name@ };
    lemma_all_uses_contain(fns, a, fns.len() as int, ua);
    lemma_all_uses_contain(fns, b, fns.len() as int, ub);
    let ia = choose|j: int| 0 <= j < us.len() && us[j] == ua;
    let ib = choose|j: int| 0 <= j < us.len() && us[j] == ub;
    lemma_mixed_key_uses_reported(file, ia, ia, ib);
    lemma_mixed_key_uses_reported(file, ib, ia, ib);
}

} // verus!
