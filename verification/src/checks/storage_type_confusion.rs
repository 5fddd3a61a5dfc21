//! The same storage key written with different value types across the
//! functions of one `#[contractimpl]` block.
//!
//! `set(key, value)` called with the same literal key in two functions but
//! with structurally different value expressions makes readers deserialize
//! one type where another was stored.

use vstd::prelude::*;
use crate::syntax::{Expr, FnDef, ImplItem, Item, Lit, SourceFile, Ty};
use crate::walk::{block_events, ev_block, plain, plain_walk, Event};
use crate::finding::{fv, lemma_views_append, new_finding, views, Check, Finding, FindingView, Severity};
use crate::contract::{impl_fns, is_contractimpl, spec_is_contractimpl};
use crate::text::{decimal, decimal_string, insert_key, sort_dedup, str_eq, strip, strip_both, texts};
use crate::checks::keys::{receiver_chain_contains, spec_receiver_chain_contains};

verus! {

pub const CHECK_NAME: &'static str = "storage-type-confusion";

/// Flags a storage key that two `set` calls of one `#[contractimpl]` block
/// write with different kinds of value.
pub struct StorageTypeConfusionCheck;

/// One `storage()….set(key, value)` call with a literal key.
pub struct SetEntry {
    pub key: String,
    pub type_hint: String,
    pub fn_name: String,
    pub line: usize,
}

pub struct SetEntryView {
    pub key: Seq<char>,
    pub type_hint: Seq<char>,
    pub fn_name: Seq<char>,
    pub line: usize,
}

impl View for SetEntry {
    type V = SetEntryView;

    open spec fn view(&self) -> SetEntryView {
        SetEntryView { key: self.key@, type_hint: self.type_hint@, fn_name: self.fn_name@, line: self.line }
    }
}

pub open spec fn entry_views(v: Seq<SetEntry>) -> Seq<SetEntryView> {
    v.map_values(|e: SetEntry| e@)
}

/// `e` without one leading `&`.
pub open spec fn unref(e: &Expr) -> &Expr {
    match e {
        Expr::Reference { expr } => &**expr,
        _ => e,
    }
}

/// The key of a `set` call's first argument: a string literal's value, or the
/// text of a macro call's tokens with white space and then `"` characters
/// stripped from both ends, when that is not empty.
pub open spec fn spec_key_of(arg: &Expr) -> Option<Seq<char>> {
    match unref(arg) {
        Expr::Lit { lit } => match lit {
            Lit::Str { value } => Some(value@),
            _ => None,
        },
        Expr::Macro { mac } => {
            let t = strip_both(strip_both(mac.text@, false), true);
            if t.len() > 0 { Some(t) } else { None }
        },
        _ => None,
    }
}

fn key_of(arg: &Expr) -> (r: Option<String>)
    ensures
        r is Some <==> spec_key_of(arg) is Some,
        r is Some ==> r.unwrap()@ == spec_key_of(arg).unwrap(),
{
    let inner = match arg {
        Expr::Reference { expr } => &**expr,
        _ => arg,
    };
    match inner {
        Expr::Lit { lit } => match lit {
            Lit::Str { value } => Some(value.clone()),
            _ => None,
        },
        Expr::Macro { mac } => {
            let t = strip(mac.text.as_str(), false);
            let u = strip(t.as_str(), true);
            if u.unicode_len() > 0 { Some(u) } else { None }
        },
        _ => None,
    }
}

/// The last segment of a path, or `fallback` when it has none.
pub open spec fn last_or(p: &crate::syntax::Path, fallback: Seq<char>) -> Seq<char> {
    if p.segments.len() > 0 { p.segments@.last().ident@ } else { fallback }
}

fn last_or_exec(p: &crate::syntax::Path, fallback: &str) -> (r: String)
    ensures r@ == last_or(p, fallback@),
{
    let n = p.segments.len();
    if n > 0 { p.segments[n - 1].ident.clone() } else { String::from_str(fallback) }
}

/// A coarse name for the kind of value that an expression is.
pub open spec fn spec_value_type_hint(e: &Expr) -> Seq<char> {
    match unref(e) {
        Expr::Lit { lit } => match lit {
            Lit::Int { suffix, .. } => if suffix@.len() == 0 { "int_lit"@ } else { suffix@ },
            Lit::Bool => "bool"@,
            Lit::Str { .. } => "str"@,
            _ => "lit"@,
        },
        Expr::Path { path, .. } => last_or(path, "path"@),
        Expr::Call { func, .. } => match &**func {
            Expr::Path { path, .. } => last_or(path, "call"@),
            _ => "call"@,
        },
        Expr::Cast { ty, .. } => match ty {
            Ty::Path { path } => last_or(path, "cast"@),
            _ => "cast"@,
        },
        _ => "expr"@,
    }
}

fn value_type_hint(e: &Expr) -> (r: String)
    ensures r@ == spec_value_type_hint(e),
{
    let inner = match e {
        Expr::Reference { expr } => &**expr,
        _ => e,
    };
    match inner {
        Expr::Lit { lit } => match lit {
            Lit::Int { suffix, .. } => {
                if suffix.unicode_len() == 0 { String::from_str("int_lit") } else { suffix.clone() }
            }
            Lit::Bool => String::from_str("bool"),
            Lit::Str { .. } => String::from_str("str"),
            _ => String::from_str("lit"),
        },
        Expr::Path { path, .. } => last_or_exec(path, "path"),
        Expr::Call { func, .. } => match &**func {
            Expr::Path { path, .. } => last_or_exec(path, "call"),
            _ => String::from_str("call"),
        },
        Expr::Cast { ty, .. } => match ty {
            Ty::Path { path } => last_or_exec(path, "cast"),
            _ => String::from_str("cast"),
        },
        _ => String::from_str("expr"),
    }
}

/// The entry that an event gives in function `func`: a `set` method call on a
/// storage chain with at least two arguments and a literal key.
pub open spec fn entry_at(ev: Event, func: Seq<char>) -> Seq<SetEntryView> {
    match ev {
        Event::Expr(e) => match e {
            Expr::MethodCall { receiver, method, args, line } =>
                if method@ == "set"@ && spec_receiver_chain_contains(receiver, "storage"@) && args.len() >= 2
                    && spec_key_of(&args@[0]) is Some {
                    seq![SetEntryView {
                        key: spec_key_of(&args@[0]).unwrap(),
                        type_hint: spec_value_type_hint(&args@[1]),
                        fn_name: func,
                        line: *line,
                    }]
                } else {
                    Seq::empty()
                },
            _ => Seq::empty(),
        },
        _ => Seq::empty(),
    }
}

/// The entries of the first `n` events.
pub open spec fn entries_in(evs: Seq<Event>, func: Seq<char>, n: int) -> Seq<SetEntryView>
    decreases n,
{
    if n <= 0 || n > evs.len() {
        Seq::empty()
    } else {
        entries_in(evs, func, n - 1) + entry_at(evs[n - 1], func)
    }
}

/// The entries of one function, in walk order.
pub open spec fn fn_entries(f: &FnDef) -> Seq<SetEntryView> {
    let evs = ev_block(&f.block, plain());
    entries_in(evs, f.name@, evs.len() as int)
}

/// The entries of the first `n` functions.
pub open spec fn entries_of_fns(fns: Seq<&FnDef>, n: int) -> Seq<SetEntryView>
    decreases n,
{
    if n <= 0 || n > fns.len() {
        Seq::empty()
    } else {
        entries_of_fns(fns, n - 1) + fn_entries(fns[n - 1])
    }
}

/// The keys of the entries.
pub open spec fn entry_keys(es: Seq<SetEntryView>) -> Seq<Seq<char>> {
    es.map_values(|e: SetEntryView| e.key)
}

/// The first `n` entries whose key is `key`.
pub open spec fn with_key(es: Seq<SetEntryView>, key: Seq<char>, n: int) -> Seq<SetEntryView>
    decreases n,
{
    if n <= 0 || n > es.len() {
        Seq::empty()
    } else {
        with_key(es, key, n - 1) + if es[n - 1].key == key { seq![es[n - 1]] } else { Seq::empty() }
    }
}

/// The index of the first entry from `j` on whose type differs from the
/// first entry's.
pub open spec fn mismatch_from(es: Seq<SetEntryView>, j: int) -> Option<int>
    decreases es.len() - j,
{
    if j < 1 || j >= es.len() {
        None
    } else if es[j].type_hint != es[0].type_hint {
        Some(j)
    } else {
        mismatch_from(es, j + 1)
    }
}

pub open spec fn describe(key: Seq<char>, first: SetEntryView, second: SetEntryView) -> Seq<char> {
    "Storage key `"@ + key + "` is written with type `"@ + first.type_hint + "` in `"@ + first.fn_name
        + "` (line "@ + decimal(first.line as nat) + ") but with type `"@ + second.type_hint + "` in `"@
        + second.fn_name + "` (line "@ + decimal(second.line as nat)
        + "). Readers expecting one type will deserialize garbage when the other type was stored."@
}

/// The finding for one key: at the first entry whose type differs from the
/// first entry's.
pub open spec fn key_findings(es: Seq<SetEntryView>, key: Seq<char>) -> Seq<FindingView> {
    let sel = with_key(es, key, es.len() as int);
    if sel.len() < 2 {
        Seq::empty()
    } else {
        match mismatch_from(sel, 1) {
            Some(j) => seq![fv(CHECK_NAME@, Severity::Medium, sel[j].line, sel[j].fn_name, describe(key, sel[0], sel[j]))],
            None => Seq::empty(),
        }
    }
}

/// The findings for the first `n` keys.
pub open spec fn keys_findings(es: Seq<SetEntryView>, keys: Seq<Seq<char>>, n: int) -> Seq<FindingView>
    decreases n,
{
    if n <= 0 || n > keys.len() {
        Seq::empty()
    } else {
        keys_findings(es, keys, n - 1) + key_findings(es, keys[n - 1])
    }
}

/// The findings of one `#[contractimpl]` block: its keys in sorted order.
pub open spec fn block_findings(items: &Vec<ImplItem>) -> Seq<FindingView> {
    let fns = impl_fns(items, items.len() as int);
    let es = entries_of_fns(fns, fns.len() as int);
    let keys = sort_dedup(entry_keys(es), es.len() as int);
    keys_findings(es, keys, keys.len() as int)
}

/// The findings of the first `n` top-level items.
pub open spec fn items_findings(items: &Vec<Item>, n: int) -> Seq<FindingView>
    decreases n,
{
    if n <= 0 || n > items.len() {
        Seq::empty()
    } else {
        items_findings(items, n - 1) + match &items@[n - 1] {
            Item::Impl { imp } => if spec_is_contractimpl(imp) { block_findings(&imp.items) } else { Seq::empty() },
            _ => Seq::empty(),
        }
    }
}

fn push_entries(f: &FnDef, out: &mut Vec<SetEntry>)
    ensures entry_views(final(out)@) == entry_views(old(out)@) + fn_entries(f),
{
    let evs = block_events(&f.block, plain_walk());
    let ghost start = entry_views(out@);
    let mut j: usize = 0;
    while j < evs.len()
        invariant
            j <= evs.len(),
            evs@ == ev_block(&f.block, plain()),
            entry_views(out@) == start + entries_in(evs@, f.name@, j as int),
        decreases evs.len() - j,
    {
        let ghost before = out@;
        match evs[j] {
            Event::Expr(e) => match e {
                Expr::MethodCall { receiver, method, args, line } => {
                    if str_eq(method.as_str(), "set") && receiver_chain_contains(receiver, "storage") && args.len() >= 2 {
                        match key_of(&args[0]) {
                            Some(key) => {
                                let type_hint = value_type_hint(&args[1]);
                                out.push(SetEntry { key, type_hint, fn_name: f.name.clone(), line: *line });
                            }
                            None => {}
                        }
                    }
                }
                _ => {}
            },
            _ => {}
        }
        assert(entry_views(out@) =~= entry_views(before) + entry_at(evs@[j as int], f.name@));
        j = j + 1;
    }
}

fn description(key: &str, first: &SetEntry, second: &SetEntry) -> (r: String)
    ensures r@ == describe(key@, first@, second@),
{
    let mut s = String::from_str("Storage key `");
    s.append(key);
    s.append("` is written with type `");
    s.append(first.type_hint.as_str());
    s.append("` in `");
    s.append(first.fn_name.as_str());
    s.append("` (line ");
    let l1 = decimal_string(first.line);
    s.append(l1.as_str());
    s.append(") but with type `");
    s.append(second.type_hint.as_str());
    s.append("` in `");
    s.append(second.fn_name.as_str());
    s.append("` (line ");
    let l2 = decimal_string(second.line);
    s.append(l2.as_str());
    s.append("). Readers expecting one type will deserialize garbage when the other type was stored.");
    s
}

fn check_key(all: &Vec<SetEntry>, key: &str) -> (r: Vec<Finding>)
    ensures views(r@) == key_findings(entry_views(all@), key@),
{
    let ghost es = entry_views(all@);
    let mut sel: Vec<&SetEntry> = Vec::new();
    let mut j: usize = 0;
    while j < all.len()
        invariant
            j <= all.len(),
            es == entry_views(all@),
            sel@.map_values(|e: &SetEntry| e@) == with_key(es, key@, j as int),
        decreases all.len() - j,
    {
        let ghost before = sel@;
        if str_eq(all[j].key.as_str(), key) {
            sel.push(&all[j]);
        }
        assert(sel@.map_values(|e: &SetEntry| e@) =~= with_key(es, key@, j + 1));
        j = j + 1;
    }
    let ghost sv = with_key(es, key@, es.len() as int);
    assert(sv == sel@.map_values(|e: &SetEntry| e@));
    let mut out: Vec<Finding> = Vec::new();
    if sel.len() < 2 {
        return out;
    }
    let mut k: usize = 1;
    while k < sel.len() && str_eq(sel[k].type_hint.as_str(), sel[0].type_hint.as_str())
        invariant
            1 <= k <= sel.len(),
            sv == sel@.map_values(|e: &SetEntry| e@),
            mismatch_from(sv, 1) == mismatch_from(sv, k as int),
        decreases sel.len() - k,
    {
        assert(sv[k as int] == sel@[k as int]@);
        assert(sv[0] == sel@[0]@);
        k = k + 1;
    }
    if k < sel.len() {
        assert(sv[k as int] == sel@[k as int]@);
        assert(sv[0] == sel@[0]@);
        let second = sel[k];
        let first = sel[0];
        let d = description(key, first, second);
        out.push(new_finding(CHECK_NAME, Severity::Medium, second.line, second.fn_name.as_str(), d));
    }
    assert(views(out@) =~= key_findings(es, key@));
    out
}

fn check_block(items: &Vec<ImplItem>) -> (r: Vec<Finding>)
    ensures views(r@) == block_findings(items),
{
    let ghost fns = impl_fns(items, items.len() as int);
    let mut all: Vec<SetEntry> = Vec::new();
    let mut i: usize = 0;
    while i < items.len()
        invariant
            i <= items.len(),
            fns == impl_fns(items, items.len() as int),
            entry_views(all@) == entries_of_fns(impl_fns(items, i as int), impl_fns(items, i as int).len() as int),
        decreases items.len() - i,
    {
        let ghost prev = impl_fns(items, i as int);
        match &items[i] {
            ImplItem::Fn { func } => {
                push_entries(func, &mut all);
                assert(impl_fns(items, i + 1) == prev.push(func));
                assert(impl_fns(items, i + 1).drop_last() =~= prev);
                assert(entries_of_fns(prev.push(func), prev.len() as int) == entries_of_fns(prev, prev.len() as int)) by {
                    lemma_entries_prefix(prev.push(func), prev, prev.len() as int);
                }
            }
            _ => {
                assert(impl_fns(items, i + 1) =~= prev);
            }
        }
        i = i + 1;
    }
    let ghost es = entry_views(all@);
    let mut keys: Vec<String> = Vec::new();
    let mut j: usize = 0;
    while j < all.len()
        invariant
            j <= all.len(),
            es == entry_views(all@),
            texts(keys@) == sort_dedup(entry_keys(es), j as int),
        decreases all.len() - j,
    {
        insert_key(&mut keys, all[j].key.as_str());
        j = j + 1;
    }
    let ghost ks = texts(keys@);
    let mut out: Vec<Finding> = Vec::new();
    let mut q: usize = 0;
    while q < keys.len()
        invariant
            q <= keys.len(),
            es == entry_views(all@),
            ks == texts(keys@),
            views(out@) == keys_findings(es, ks, q as int),
        decreases keys.len() - q,
    {
        let mut found = check_key(&all, keys[q].as_str());
        proof { lemma_views_append(out@, found@); }
        out.append(&mut found);
        q = q + 1;
    }
    out
}

proof fn lemma_entries_prefix(a: Seq<&FnDef>, b: Seq<&FnDef>, n: int)
    requires
        0 <= n <= b.len(),
        n <= a.len(),
        forall|k: int| 0 <= k < n ==> a[k] == b[k],
    ensures entries_of_fns(a, n) == entries_of_fns(b, n),
    decreases n,
{
    if n > 0 {
        lemma_entries_prefix(a, b, n - 1);
    }
}

impl Check for StorageTypeConfusionCheck {
    open spec fn spec_name(&self) -> Seq<char> {
        CHECK_NAME@
    }

    open spec fn spec_run(&self, file: &SourceFile, source: Seq<char>) -> Seq<FindingView> {
        items_findings(&file.items, file.items.len() as int)
    }

    fn name(&self) -> (r: &str) {
        CHECK_NAME
    }

    fn run(&self, file: &SourceFile, source: &str) -> (r: Vec<Finding>) {
        let mut out: Vec<Finding> = Vec::new();
        let mut i: usize = 0;
        while i < file.items.len()
            invariant
                i <= file.items.len(),
                views(out@) == items_findings(&file.items, i as int),
            decreases file.items.len() - i,
        {
            match &file.items[i] {
                Item::Impl { imp } => {
                    if is_contractimpl(imp) {
                        let mut found = check_block(&imp.items);
                        proof { lemma_views_append(out@, found@); }
                        out.append(&mut found);
                    }
                }
                _ => {}
            }
            i = i + 1;
        }
        out
    }
}

} // verus!

verus! {

proof fn lemma_keys_tagged(es: Seq<SetEntryView>, keys: Seq<Seq<char>>, n: int)
    ensures crate::finding::tagged(keys_findings(es, keys, n), CHECK_NAME@, Severity::Medium),
    decreases n,
{
    if n > 0 && n <= keys.len() {
        lemma_keys_tagged(es, keys, n - 1);
        crate::finding::lemma_tagged_add(keys_findings(es, keys, n - 1), key_findings(es, keys[n - 1]), CHECK_NAME@, Severity::Medium);
    }
}

proof fn lemma_items_tagged(items: &Vec<Item>, n: int)
    ensures crate::finding::tagged(items_findings(items, n), CHECK_NAME@, Severity::Medium),
    decreases n,
{
    if n > 0 && n <= items.len() {
        lemma_items_tagged(items, n - 1);
        match &items@[n - 1] {
            Item::Impl { imp } => {
                let fns = impl_fns(&imp.items, imp.items.len() as int);
                let es = entries_of_fns(fns, fns.len() as int);
                let keys = sort_dedup(entry_keys(es), es.len() as int);
                lemma_keys_tagged(es, keys, keys.len() as int);
            }
            _ => {}
        }
        let prev = items_findings(items, n - 1);
        let cur = items_findings(items, n);
        assert forall|i: int| 0 <= i < cur.len() implies #[trigger] crate::finding::tag_ok(cur[i], CHECK_NAME@, Severity::Medium) by {
            if i < prev.len() {
                assert(cur[i] == prev[i]);
            }
        }
    }
}

/// Every finding of this check names it, is of medium severity, and has an
/// empty file path.
pub proof fn lemma_findings_tagged(file: &SourceFile, source: Seq<char>)
    ensures crate::finding::tagged(StorageTypeConfusionCheck.spec_run(file, source), CHECK_NAME@, Severity::Medium),
{
    lemma_items_tagged(&file.items, file.items.len() as int);
}

} // verus!

verus! {

/// The keys of a `#[contractimpl]` block are examined in strictly increasing
/// lexicographic order, each once, and they are exactly the keys that the
/// block's storage `set` calls write.
pub proof fn lemma_block_keys(items: &Vec<ImplItem>)
    ensures ({
        let fns = impl_fns(items, items.len() as int);
        let es = entries_of_fns(fns, fns.len() as int);
        let keys = sort_dedup(entry_keys(es), es.len() as int);
        &&& crate::text::strictly_sorted(keys)
        &&& forall|x: Seq<char>| #[trigger] keys.contains(x) <==> (exists|i: int| 0 <= i < es.len() && es[i].key == x)
    }),
{
    let fns = impl_fns(items, items.len() as int);
    let es = entries_of_fns(fns, fns.len() as int);
    let ks = entry_keys(es);
    crate::text::lemma_sort_dedup(ks, es.len() as int);
    let keys = sort_dedup(ks, es.len() as int);
    assert forall|x: Seq<char>| #[trigger] keys.contains(x) <==> (exists|i: int| 0 <= i < es.len() && es[i].key == x) by {
        if keys.contains(x) {
            let i = choose|i: int| 0 <= i < es.len() && ks[i] == x;
            assert(es[i].key == x);
        }
        if exists|i: int| 0 <= i < es.len() && es[i].key == x {
            let i = choose|i: int| 0 <= i < es.len() && es[i].key == x;
            assert(ks[i] == x);
        }
    }
}

} // verus!

verus! {

proof fn lemma_items_prefix(a: &Vec<Item>, b: &Vec<Item>, n: int)
    requires
        0 <= n <= a.len(),
        n <= b.len(),
        forall|i: int| 0 <= i < a.len() && i < b.len() ==> #[trigger] b@[i] == a@[i],
    ensures items_findings(b, n) == items_findings(a, n),
    decreases n,
{
    if n > 0 {
        lemma_items_prefix(a, b, n - 1);
        assert(b@[n - 1] == a@[n - 1]);
    }
}

/// Only `#[contractimpl]` blocks are examined: one more top-level item that
/// is not such a block changes no finding.
pub proof fn lemma_ignores_other_items(a: &SourceFile, b: &SourceFile, source: Seq<char>)
    requires crate::contract::extended_by_other_item(a, b),
    ensures StorageTypeConfusionCheck.spec_run(b, source) == StorageTypeConfusionCheck.spec_run(a, source),
{
    let n = a.items.len() as int;
    lemma_items_prefix(&a.items, &b.items, n);
    assert(items_findings(&b.items, n + 1) =~= items_findings(&b.items, n));
}

} // verus!

verus! {

/// One leading `&` does not change the kind of value that is recorded: a
/// value written as `&v` gets the same hint as `v`.
pub proof fn lemma_hint_ignores_reference(e: Expr)
    requires !(e is Reference),
    ensures spec_value_type_hint(&Expr::Reference { expr: Box::new(e) }) == spec_value_type_hint(&e),
{
}

} // verus!

verus! {

proof fn lemma_with_key_contains(es: Seq<SetEntryView>, key: Seq<char>, n: int, i: int)
    requires
        0 <= i < n <= es.len(),
        es[i].key == key,
    ensures with_key(es, key, n).contains(es[i]),
    decreases n,
{
    if n == i + 1 {
        assert(with_key(es, key, n)[with_key(es, key, i).len() as int] == es[i]);
    } else {
        lemma_with_key_contains(es, key, n - 1, i);
        let prev = with_key(es, key, n - 1);
        let j = choose|j: int| 0 <= j < prev.len() && prev[j] == es[i];
        assert(with_key(es, key, n)[j] == es[i]);
    }
}

proof fn lemma_mismatch_found(sel: Seq<SetEntryView>, j: int, q: int)
    requires
        1 <= j <= q < sel.len(),
        sel[q].type_hint != sel[0].type_hint,
    ensures mismatch_from(sel, j) is Some,
    decreases q - j,
{
    if j < q && sel[j].type_hint == sel[0].type_hint {
        lemma_mismatch_found(sel, j + 1, q);
    }
}

/// Two writes of one key with different value types give that key exactly
/// one finding.
pub proof fn lemma_conflicting_types_reported(es: Seq<SetEntryView>, i: int, j: int)
    requires
        0 <= i < es.len(),
        0 <= j < es.len(),
        es[i].key == es[j].key,
        es[i].type_hint != es[j].type_hint,
    ensures key_findings(es, es[i].key).len() == 1,
{
    let key = es[i].key;
    let sel = with_key(es, key, es.len() as int);
    lemma_with_key_contains(es, key, es.len() as int, i);
    lemma_with_key_contains(es, key, es.len() as int, j);
    let pi = choose|p: int| 0 <= p < sel.len() && sel[p] == es[i];
    let pj = choose|p: int| 0 <= p < sel.len() && sel[p] == es[j];
    assert(pi != pj);
    assert(sel.len() >= 2);
    if sel[pi].type_hint != sel[0].type_hint {
        lemma_mismatch_found(sel, 1, pi);
    } else {
        lemma_mismatch_found(sel, 1, pj);
    }
}

proof fn lemma_keys_findings_grow(es: Seq<SetEntryView>, keys: Seq<Seq<char>>, q: int, n: int)
    requires 0 <= q < n <= keys.len(),
    ensures keys_findings(es, keys, n).len() >= key_findings(es, keys[q]).len(),
    decreases n,
{
    if n > q + 1 {
        lemma_keys_findings_grow(es, keys, q, n - 1);
    }
}

/// In one `#[contractimpl]` block, a key written by two `set` calls with
/// different value types gives the block at least one finding.
pub proof fn lemma_block_conflict_reported(items: &Vec<ImplItem>, i: int, j: int)
    requires ({
        let fns = impl_fns(items, items.len() as int);
        let es = entries_of_fns(fns, fns.len() as int);
        &&& 0 <= i < es.len()
        &&& 0 <= j < es.len()
        &&& es[i].key == es[j].key
        &&& es[i].type_hint != es[j].type_hint
    }),
    ensures block_findings(items).len() > 0,
{
    let fns = impl_fns(items, items.len() as int);
    let es = entries_of_fns(fns, fns.len() as int);
    let keys = sort_dedup(entry_keys(es), es.len() as int);
    lemma_block_keys(items);
    assert(keys.contains(es[i].key));
    let q = choose|q: int| 0 <= q < keys.len() && keys[q] == es[i].key;
    lemma_conflicting_types_reported(es, i, j);
    lemma_keys_findings_grow(es, keys, q, keys.len() as int);
}

} // verus!
