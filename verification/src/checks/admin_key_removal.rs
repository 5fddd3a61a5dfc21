//! `persistent().remove(key)` on an admin/owner/operator key without a later
//! `persistent().set(key, …)` in the same function.

use vstd::prelude::*;
use crate::syntax::{Expr, FnDef, Lit, Local, Pat, SourceFile};
use crate::walk::{block_events, ev_block, plain, plain_walk, Event};
use crate::finding::{fv, lemma_views_append, lemma_views_push, new_finding, views, Check, Finding, FindingView, Severity};
use crate::contract::{contract_fns, contractimpl_functions, over_fns};
use crate::text::{contains, lower_text, seq_contains, str_eq, strip, strip_both, to_lower};
use crate::checks::keys::{receiver_chain_contains, spec_receiver_chain_contains};

verus! {

pub const CHECK_NAME: &'static str = "admin-key-removal";

/// Flags persistent-storage removals of admin-like keys that no persistent
/// `set` of a matching key follows.
pub struct AdminKeyRemovalCheck;

pub open spec fn spec_is_admin_name(s: Seq<char>) -> bool {
    seq_contains(s, "admin"@) || seq_contains(s, "owner"@) || seq_contains(s, "operator"@)
}

/// Whether a key name mentions `admin`, `owner` or `operator`.
pub fn is_admin_name(s: &str) -> (r: bool)
    ensures r == spec_is_admin_name(s@),
{
    contains(s, "admin") || contains(s, "owner") || contains(s, "operator")
}

/// The segments of a path joined with `::`.
pub open spec fn join_segments(p: Seq<crate::syntax::PathSegment>, n: int) -> Seq<char>
    decreases n,
{
    if n <= 0 || n > p.len() {
        Seq::empty()
    } else if n == 1 {
        p[0].ident@
    } else {
        join_segments(p, n - 1) + "::"@ + p[n - 1].ident@
    }
}

/// A key argument as text: a path's segments joined with `::` or a string
/// literal's value, through `&`; empty otherwise.
pub open spec fn spec_quote_expr(e: &Expr) -> Seq<char>
    decreases e,
{
    match e {
        Expr::Reference { expr } => spec_quote_expr(expr),
        Expr::Path { path, .. } => join_segments(path.segments@, path.segments.len() as int),
        Expr::Lit { lit } => match lit {
            Lit::Str { value } => value@,
            _ => Seq::empty(),
        },
        _ => Seq::empty(),
    }
}

fn quote_expr(e: &Expr) -> (r: String)
    ensures r@ == spec_quote_expr(e),
    decreases e,
{
    match e {
        Expr::Reference { expr } => quote_expr(expr),
        Expr::Path { path, .. } => {
            let mut s = String::new();
            let mut i: usize = 0;
            while i < path.segments.len()
                invariant
                    i <= path.segments.len(),
                    s@ == join_segments(path.segments@, i as int),
                decreases path.segments.len() - i,
            {
                if i > 0 {
                    s.append("::");
                }
                s.append(path.segments[i].ident.as_str());
                i = i + 1;
            }
            s
        }
        Expr::Lit { lit } => match lit {
            Lit::Str { value } => value.clone(),
            _ => String::new(),
        },
        _ => String::new(),
    }
}

/// The symbol a `let` initializer names: a macro's argument text trimmed of
/// white space and then of `"`, a call's last argument when it is a string
/// literal, or a string literal.
pub open spec fn spec_extract_symbol_string(e: &Expr) -> Option<Seq<char>> {
    match e {
        Expr::Macro { mac } => Some(strip_both(strip_both(mac.text@, false), true)),
        Expr::Call { args, .. } =>
            if args.len() > 0 {
                match &args@.last() {
                    Expr::Lit { lit: Lit::Str { value } } => Some(value@),
                    _ => None,
                }
            } else {
                None
            },
        Expr::Lit { lit: Lit::Str { value } } => Some(value@),
        _ => None,
    }
}

fn extract_symbol_string(e: &Expr) -> (r: Option<String>)
    ensures
        r is Some <==> spec_extract_symbol_string(e) is Some,
        r is Some ==> r.unwrap()@ == spec_extract_symbol_string(e).unwrap(),
{
    match e {
        Expr::Macro { mac } => {
            let t = strip(mac.text.as_str(), false);
            Some(strip(t.as_str(), true))
        }
        Expr::Call { args, .. } => {
            let n = args.len();
            if n > 0 {
                match &args[n - 1] {
                    Expr::Lit { lit: Lit::Str { value } } => Some(value.clone()),
                    _ => None,
                }
            } else {
                None
            }
        }
        Expr::Lit { lit: Lit::Str { value } } => Some(value.clone()),
        _ => None,
    }
}

/// The name bound by a pattern, through a type ascription.
pub open spec fn bound_name(p: &Pat) -> Option<Seq<char>> {
    let inner = match p {
        Pat::Typed { pat, .. } => &**pat,
        _ => p,
    };
    match inner {
        Pat::Ident { name, .. } => Some(name@),
        _ => None,
    }
}

pub fn bound_name_of_pat(p: &Pat) -> (r: Option<&String>)
    ensures
        r is Some <==> bound_name(p) is Some,
        r is Some ==> r.unwrap()@ == bound_name(p).unwrap(),
{
    let inner = match p {
        Pat::Typed { pat, .. } => &**pat,
        _ => p,
    };
    match inner {
        Pat::Ident { name, .. } => Some(name),
        _ => None,
    }
}

/// A `remove`/`set` (by `method`) on a receiver chain calling both
/// `persistent()` and `storage()`.
pub open spec fn spec_is_persistent_call(e: &Expr, method_name: Seq<char>) -> bool {
    match e {
        Expr::MethodCall { receiver, method, .. } =>
            method@ == method_name && spec_receiver_chain_contains(receiver, "persistent"@)
                && spec_receiver_chain_contains(receiver, "storage"@),
        _ => false,
    }
}

fn is_persistent_call(e: &Expr, method_name: &str) -> (r: bool)
    ensures r == spec_is_persistent_call(e, method_name@),
{
    match e {
        Expr::MethodCall { receiver, method, .. } =>
            str_eq(method.as_str(), method_name) && receiver_chain_contains(receiver, "persistent")
                && receiver_chain_contains(receiver, "storage"),
        _ => false,
    }
}

/// What the scan of a function body has gathered.
pub struct RemovalState {
    /// (line, key) of each admin-key removal.
    pub removals: Seq<(usize, Seq<char>)>,
    /// The key of each persistent `set` after the first admin-key removal.
    pub sets: Seq<Seq<char>>,
    pub seen_removal: bool,
    /// Local variable bindings to symbol strings, latest last.
    pub bindings: Seq<(Seq<char>, Seq<char>)>,
}

/// The latest binding of `k`.
pub open spec fn lookup(b: Seq<(Seq<char>, Seq<char>)>, k: Seq<char>) -> Option<Seq<char>>
    decreases b.len(),
{
    if b.len() == 0 {
        None
    } else if b.last().0 == k {
        Some(b.last().1)
    } else {
        lookup(b.drop_last(), k)
    }
}

/// A key text with a bound variable replaced by its symbol.
pub open spec fn resolve(b: Seq<(Seq<char>, Seq<char>)>, raw: Seq<char>) -> Seq<char> {
    match lookup(b, raw) {
        Some(v) => v,
        None => raw,
    }
}

/// How one event changes the scan.
pub open spec fn step(st: RemovalState, ev: Event) -> RemovalState {
    match ev {
        Event::Local(l) => match &l.init {
            Some(init) => match (spec_extract_symbol_string(init), bound_name(&l.pat)) {
                (Some(s), Some(n)) => RemovalState { bindings: st.bindings.push((n, s)), ..st },
                _ => st,
            },
            None => st,
        },
        Event::Expr(e) => match e {
            Expr::MethodCall { args, line, .. } =>
                if spec_is_persistent_call(e, "remove"@) {
                    if args.len() > 0 {
                        let k = resolve(st.bindings, spec_quote_expr(&args@[0]));
                        if spec_is_admin_name(k) {
                            RemovalState { removals: st.removals.push((*line, k)), seen_removal: true, ..st }
                        } else {
                            st
                        }
                    } else {
                        st
                    }
                } else if st.seen_removal && spec_is_persistent_call(e, "set"@) {
                    if args.len() > 0 {
                        RemovalState { sets: st.sets.push(resolve(st.bindings, spec_quote_expr(&args@[0]))), ..st }
                    } else {
                        st
                    }
                } else {
                    st
                },
            _ => st,
        },
        _ => st,
    }
}

/// The scan after the first `n` events.
pub open spec fn removal_scan(evs: Seq<Event>, n: int) -> RemovalState
    decreases n,
{
    if n <= 0 || n > evs.len() {
        RemovalState { removals: Seq::empty(), sets: Seq::empty(), seen_removal: false, bindings: Seq::empty() }
    } else {
        step(removal_scan(evs, n - 1), evs[n - 1])
    }
}

/// A later `set` key equals the removed key, or both are admin-like, ignoring
/// case.
pub open spec fn replaced(sets: Seq<Seq<char>>, key: Seq<char>) -> bool {
    exists|i: int| 0 <= i < sets.len() && (lower_text(#[trigger] sets[i]) == lower_text(key)
        || (spec_is_admin_name(lower_text(sets[i])) && spec_is_admin_name(lower_text(key))))
}

pub open spec fn description(func: Seq<char>, key: Seq<char>) -> Seq<char> {
    "`"@ + func + "` calls `persistent().remove("@ + key
        + ")` on an admin key without atomically replacing it with `persistent().set(…)`. The contract will be permanently left without an admin."@
}

/// One finding per removal, in order, that no later `set` replaces.
pub open spec fn removal_hits(st: RemovalState, func: Seq<char>, n: int) -> Seq<FindingView>
    decreases n,
{
    if n <= 0 || n > st.removals.len() {
        Seq::empty()
    } else {
        removal_hits(st, func, n - 1) + {
            let (line, key) = st.removals[n - 1];
            if replaced(st.sets, key) {
                Seq::empty()
            } else {
                seq![fv(CHECK_NAME@, Severity::High, line, func, description(func, key))]
            }
        }
    }
}

pub open spec fn fn_findings(f: &FnDef) -> Seq<FindingView> {
    let evs = ev_block(&f.block, plain());
    let st = removal_scan(evs, evs.len() as int);
    removal_hits(st, f.name@, st.removals.len() as int)
}

pub open spec fn pairs_view(v: Seq<(String, String)>) -> Seq<(Seq<char>, Seq<char>)> {
    v.map_values(|p: (String, String)| (p.0@, p.1@))
}

pub open spec fn removals_view(v: Seq<(usize, String)>) -> Seq<(usize, Seq<char>)> {
    v.map_values(|p: (usize, String)| (p.0, p.1@))
}

pub open spec fn strings_view(v: Seq<String>) -> Seq<Seq<char>> {
    v.map_values(|s: String| s@)
}

pub fn lookup_binding(b: &Vec<(String, String)>, k: &str) -> (r: Option<String>)
    ensures
        r is Some <==> lookup(pairs_view(b@), k@) is Some,
        r is Some ==> r.unwrap()@ == lookup(pairs_view(b@), k@).unwrap(),
{
    let mut i: usize = b.len();
    assert(b@.subrange(0, b.len() as int) =~= b@);
    while i > 0
        invariant
            i <= b.len(),
            lookup(pairs_view(b@), k@) == lookup(pairs_view(b@.subrange(0, i as int)), k@),
        decreases i,
    {
        let ghost pv = pairs_view(b@.subrange(0, i as int));
        assert(pv.drop_last() =~= pairs_view(b@.subrange(0, i - 1)));
        if str_eq(b[i - 1].0.as_str(), k) {
            return Some(b[i - 1].1.clone());
        }
        i = i - 1;
    }
    assert(pairs_view(b@.subrange(0, 0)) =~= Seq::empty());
    None
}

fn scan_fn(f: &FnDef) -> (r: Vec<Finding>)
    ensures views(r@) == fn_findings(f),
{
    let evs = block_events(&f.block, plain_walk());
    let mut removals: Vec<(usize, String)> = Vec::new();
    let mut sets: Vec<String> = Vec::new();
    let mut seen_removal = false;
    let mut bindings: Vec<(String, String)> = Vec::new();
    assert(pairs_view(bindings@) =~= Seq::empty());
    assert(removals_view(removals@) =~= Seq::empty());
    assert(strings_view(sets@) =~= Seq::empty());
    let mut j: usize = 0;
    while j < evs.len()
        invariant
            j <= evs.len(),
            removal_scan(evs@, j as int) == (RemovalState {
                removals: removals_view(removals@),
                sets: strings_view(sets@),
                seen_removal,
                bindings: pairs_view(bindings@),
            }),
        decreases evs.len() - j,
    {
        match evs[j] {
            Event::Local(l) => match &l.init {
                Some(init) => {
                    let s = extract_symbol_string(init);
                    let n = bound_name_of_pat(&l.pat);
                    if s.is_some() && n.is_some() {
                        let pair = (n.unwrap().clone(), s.unwrap());
                        bindings.push(pair);
                        assert(pairs_view(bindings@) =~= removal_scan(evs@, j + 1).bindings);
                    }
                }
                None => {}
            },
            Event::Expr(e) => match e {
                Expr::MethodCall { args, line, .. } => {
                    if is_persistent_call(e, "remove") {
                        if args.len() > 0 {
                            let raw = quote_expr(&args[0]);
                            let resolved = match lookup_binding(&bindings, raw.as_str()) {
                                Some(v) => v,
                                None => raw,
                            };
                            if is_admin_name(resolved.as_str()) {
                                removals.push((*line, resolved));
                                seen_removal = true;
                                assert(removals_view(removals@) =~= removal_scan(evs@, j + 1).removals);
                            }
                        }
                    } else if seen_removal && is_persistent_call(e, "set") {
                        if args.len() > 0 {
                            let raw = quote_expr(&args[0]);
                            let resolved = match lookup_binding(&bindings, raw.as_str()) {
                                Some(v) => v,
                                None => raw,
                            };
                            sets.push(resolved);
                            assert(strings_view(sets@) =~= removal_scan(evs@, j + 1).sets);
                        }
                    }
                }
                _ => {}
            },
            _ => {}
        }
        j = j + 1;
    }
    let ghost st = removal_scan(evs@, evs@.len() as int);
    let mut out: Vec<Finding> = Vec::new();
    let mut i: usize = 0;
    while i < removals.len()
        invariant
            i <= removals.len(),
            st == (RemovalState {
                removals: removals_view(removals@),
                sets: strings_view(sets@),
                seen_removal,
                bindings: pairs_view(bindings@),
            }),
            views(out@) == removal_hits(st, f.name@, i as int),
        decreases removals.len() - i,
    {
        let key_text = &removals[i].1;
        let r = to_lower(key_text.as_str());
        let mut is_replaced = false;
        let mut k: usize = 0;
        while k < sets.len()
            invariant
                k <= sets.len(),
                r@ == lower_text(key_text@),
                is_replaced == exists|m: int| 0 <= m < k && (lower_text(#[trigger] strings_view(sets@)[m]) == lower_text(key_text@)
                    || (spec_is_admin_name(lower_text(strings_view(sets@)[m])) && spec_is_admin_name(lower_text(key_text@)))),
            decreases sets.len() - k,
        {
            let s = to_lower(sets[k].as_str());
            let this = str_eq(s.as_str(), r.as_str()) || (is_admin_name(s.as_str()) && is_admin_name(r.as_str()));
            assert(strings_view(sets@)[k as int] == sets@[k as int]@);
            if this {
                is_replaced = true;
            }
            k = k + 1;
        }
        assert(removals_view(removals@)[i as int] == (removals@[i as int].0, removals@[i as int].1@));
        if !is_replaced {
            let mut d = String::from_str("`");
            d.append(f.name.as_str());
            d.append("` calls `persistent().remove(");
            d.append(key_text.as_str());
            d.append(")` on an admin key without atomically replacing it with `persistent().set(…)`. The contract will be permanently left without an admin.");
            let fd = new_finding(CHECK_NAME, Severity::High, removals[i].0, f.name.as_str(), d);
            proof { lemma_views_push(out@, fd); }
            out.push(fd);
        }
        assert(views(out@) =~= removal_hits(st, f.name@, i + 1));
        i = i + 1;
    }
    out
}

impl Check for AdminKeyRemovalCheck {
    open spec fn spec_name(&self) -> Seq<char> {
        CHECK_NAME@
    }

    open spec fn spec_run(&self, file: &SourceFile, source: Seq<char>) -> Seq<FindingView> {
        over_fns(contract_fns(file), |f: &FnDef| fn_findings(f), contract_fns(file).len() as int)
    }

    fn name(&self) -> (r: &str) {
        CHECK_NAME
    }

    fn run(&self, file: &SourceFile, source: &str) -> (r: Vec<Finding>) {
        let fns = contractimpl_functions(file);
        let mut out: Vec<Finding> = Vec::new();
        let mut i: usize = 0;
        while i < fns.len()
            invariant
                i <= fns.len(),
                fns@ == contract_fns(file),
                views(out@) == over_fns(contract_fns(file), |f: &FnDef| fn_findings(f), i as int),
            decreases fns.len() - i,
        {
            let mut found = scan_fn(fns[i]);
            proof { lemma_views_append(out@, found@); }
            out.append(&mut found);
            i = i + 1;
        }
        out
    }
}

} // verus!

verus! {

proof fn lemma_hits_tagged(st: RemovalState, func: Seq<char>, n: int)
    ensures crate::finding::tagged(removal_hits(st, func, n), CHECK_NAME@, Severity::High),
    decreases n,
{
    if n > 0 && n <= st.removals.len() {
        lemma_hits_tagged(st, func, n - 1);
        let prev = removal_hits(st, func, n - 1);
        let cur = removal_hits(st, func, n);
        assert forall|i: int| 0 <= i < cur.len() implies #[trigger] crate::finding::tag_ok(cur[i], CHECK_NAME@, Severity::High) by {
            if i < prev.len() {
                assert(cur[i] == prev[i]);
            }
        }
    }
}

proof fn lemma_fn_tagged(f: &FnDef)
    ensures crate::finding::tagged(fn_findings(f), CHECK_NAME@, Severity::High),
{
    let evs = ev_block(&f.block, plain());
    let st = removal_scan(evs, evs.len() as int);
    lemma_hits_tagged(st, f.name@, st.removals.len() as int);
}

/// Every finding of this check names it, is of high severity, and has an
/// empty file path.
pub proof fn lemma_findings_tagged(file: &SourceFile, source: Seq<char>)
    ensures crate::finding::tagged(AdminKeyRemovalCheck.spec_run(file, source), CHECK_NAME@, Severity::High),
{
    let fns = contract_fns(file);
    assert forall|k: int| 0 <= k < fns.len() implies crate::finding::tagged(fn_findings(fns[k]), CHECK_NAME@, Severity::High) by {
        lemma_fn_tagged(fns[k]);
    }
    crate::contract::lemma_over_fns_tagged(fns, |f: &FnDef| fn_findings(f), fns.len() as int, CHECK_NAME@, Severity::High);
}

} // verus!

verus! {

/// Only the functions of `#[contractimpl]` blocks are examined: one more
/// top-level item that is not such a block changes no finding.
pub proof fn lemma_ignores_other_items(a: &SourceFile, b: &SourceFile, source: Seq<char>)
    requires crate::contract::extended_by_other_item(a, b),
    ensures AdminKeyRemovalCheck.spec_run(b, source) == AdminKeyRemovalCheck.spec_run(a, source),
{
    crate::contract::lemma_contract_fns_extra_item(a, b);
}

} // verus!

verus! {

/// `e` is `<chain>.<m>(..)` with both `storage` and `persistent` called in
/// its receiver chain.
pub open spec fn persistent_method(e: &Expr, m: Seq<char>) -> bool {
    e matches Expr::MethodCall { receiver, method, .. } && method@ == m
        && spec_receiver_chain_contains(receiver, "storage"@) && spec_receiver_chain_contains(receiver, "persistent"@)
}

/// The key text that the call at `k` (a method call with an argument)
/// removes: its first argument as text, a variable bound by an earlier `let`
/// replaced by its symbol.
pub open spec fn removed_key(evs: Seq<Event>, k: int) -> Seq<char> {
    resolve(removal_scan(evs, k).bindings, spec_quote_expr(&evs[k]->Expr_0->MethodCall_args@[0]))
}

proof fn lemma_no_sets(evs: Seq<Event>, n: int)
    requires
        0 <= n <= evs.len(),
        forall|j: int| 0 <= j < evs.len() ==> !(#[trigger] evs[j] matches Event::Expr(e) && persistent_method(e, "set"@)),
    ensures removal_scan(evs, n).sets.len() == 0,
    decreases n,
{
    if n > 0 {
        lemma_no_sets(evs, n - 1);
        match evs[n - 1] {
            Event::Expr(e) => {
                assert(!persistent_method(e, "set"@));
            },
            _ => {},
        }
    }
}

proof fn lemma_removals_grow(evs: Seq<Event>, k: int, n: int, r: (usize, Seq<char>))
    requires
        0 <= k < n <= evs.len(),
        removal_scan(evs, k + 1).removals.contains(r),
    ensures removal_scan(evs, n).removals.contains(r),
    decreases n,
{
    if n > k + 1 {
        lemma_removals_grow(evs, k, n - 1, r);
        let prev = removal_scan(evs, n - 1).removals;
        let j = choose|j: int| 0 <= j < prev.len() && prev[j] == r;
        assert(removal_scan(evs, n).removals[j] == r);
    }
}

proof fn lemma_hits_contain(st: RemovalState, func: Seq<char>, m: int, i: int)
    requires
        0 <= i < m <= st.removals.len(),
        st.sets.len() == 0,
    ensures
        removal_hits(st, func, m).contains(fv(CHECK_NAME@, Severity::High, st.removals[i].0, func, description(func, st.removals[i].1))),
    decreases m,
{
    let fd = fv(CHECK_NAME@, Severity::High, st.removals[i].0, func, description(func, st.removals[i].1));
    assert(!replaced(st.sets, st.removals[i].1));
    if m == i + 1 {
        assert(removal_hits(st, func, m)[removal_hits(st, func, i).len() as int] == fd);
    } else {
        lemma_hits_contain(st, func, m - 1, i);
        let prev = removal_hits(st, func, m - 1);
        let j = choose|j: int| 0 <= j < prev.len() && prev[j] == fd;
        assert(removal_hits(st, func, m)[j] == fd);
    }
}

/// A `persistent().remove(key)` whose key text mentions `operator`,
/// `owner` or `admin`, in a function that never calls `persistent().set`,
/// is reported at its line.
pub proof fn lemma_admin_removal_flagged(f: &FnDef, k: int)
    requires
        0 <= k < ev_block(&f.block, plain()).len(),
        ev_block(&f.block, plain())[k] matches Event::Expr(e) && persistent_method(e, "remove"@)
            && e->MethodCall_args.len() > 0,
        seq_contains(removed_key(ev_block(&f.block, plain()), k), "operator"@)
            || seq_contains(removed_key(ev_block(&f.block, plain()), k), "owner"@)
            || seq_contains(removed_key(ev_block(&f.block, plain()), k), "admin"@),
        forall|j: int| 0 <= j < ev_block(&f.block, plain()).len() ==> !(#[trigger] ev_block(&f.block, plain())[j] matches Event::Expr(e)
            && persistent_method(e, "set"@)),
    ensures
        fn_findings(f).contains(fv(CHECK_NAME@, Severity::High, ev_block(&f.block, plain())[k]->Expr_0->MethodCall_line,
            f.name@, description(f.name@, removed_key(ev_block(&f.block, plain()), k)))),
{
    let evs = ev_block(&f.block, plain());
    let key = removed_key(evs, k);
    let line = evs[k]->Expr_0->MethodCall_line;
    let r = (line, key);
    match evs[k] {
        Event::Expr(e) => {
            assert(spec_is_persistent_call(e, "remove"@));
            assert(spec_is_admin_name(key));
            let st = removal_scan(evs, k);
            assert(removal_scan(evs, k + 1).removals == st.removals.push(r));
            assert(removal_scan(evs, k + 1).removals[st.removals.len() as int] == r);
        },
        _ => {},
    }
    if k + 1 < evs.len() {
        lemma_removals_grow(evs, k, evs.len() as int, r);
    }
    let st = removal_scan(evs, evs.len() as int);
    lemma_no_sets(evs, evs.len() as int);
    let i = choose|i: int| 0 <= i < st.removals.len() && st.removals[i] == r;
    lemma_hits_contain(st, f.name@, st.removals.len() as int, i);
}


proof fn lemma_no_removals(evs: Seq<Event>, n: int)
    requires
        0 <= n <= evs.len(),
        forall|j: int| 0 <= j < evs.len() && (#[trigger] evs[j] matches Event::Expr(e) && persistent_method(e, "remove"@)
            && e->MethodCall_args.len() > 0) ==> !seq_contains(removed_key(evs, j), "operator"@)
            && !seq_contains(removed_key(evs, j), "owner"@) && !seq_contains(removed_key(evs, j), "admin"@),
    ensures removal_scan(evs, n).removals.len() == 0,
    decreases n,
{
    if n > 0 {
        lemma_no_removals(evs, n - 1);
        match evs[n - 1] {
            Event::Expr(e) => {
                if spec_is_persistent_call(e, "remove"@) && e->MethodCall_args.len() > 0 {
                    assert(persistent_method(e, "remove"@));
                    assert(!spec_is_admin_name(removed_key(evs, n - 1)));
                }
            },
            _ => {},
        }
    }
}

/// A function none of whose `persistent().remove(key)` calls names a key
/// mentioning `operator`, `owner` or `admin` gets no finding.
pub proof fn lemma_no_admin_removal_passes(f: &FnDef)
    requires
        forall|j: int| 0 <= j < ev_block(&f.block, plain()).len()
            && (#[trigger] ev_block(&f.block, plain())[j] matches Event::Expr(e) && persistent_method(e, "remove"@)
            && e->MethodCall_args.len() > 0)
            ==> !seq_contains(removed_key(ev_block(&f.block, plain()), j), "operator"@)
            && !seq_contains(removed_key(ev_block(&f.block, plain()), j), "owner"@)
            && !seq_contains(removed_key(ev_block(&f.block, plain()), j), "admin"@),
    ensures fn_findings(f) == Seq::<FindingView>::empty(),
{
    let evs = ev_block(&f.block, plain());
    lemma_no_removals(evs, evs.len() as int);
}
} // verus!
