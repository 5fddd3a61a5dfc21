//! Storage keys with names so similar that one may be used for the other.
//!
//! Keys such as `owner`, `owner_addr` and `owner_address` in one contract
//! invite accidental overwrites.

use vstd::prelude::*;
use crate::syntax::{Expr, FnDef, ImplItem, Item, Lit, SourceFile};
use crate::walk::{ev_fn, fn_events, plain, plain_walk, Event};
use crate::finding::{fv, lemma_views_push, new_finding, views, Check, Finding, FindingView, Severity};
use crate::text::{contains, lower_text, seq_contains, seq_starts_with, starts_with, str_eq, to_lower};
use crate::checks::unbounded_input_storage::{path_ident, spec_path_ident};

verus! {

pub const CHECK_NAME: &'static str = "storage-key-collision";

/// Flags each pair of different storage keys (in order of use) where one
/// name, in lower case, starts with or contains the other; a key written
/// twice is no collision.
pub struct StorageKeyCollisionCheck;

/// A `set` key: a string literal or an identifier, through `&`.
pub open spec fn spec_key_name(e: &Expr) -> Option<Seq<char>>
    decreases e,
{
    match e {
        Expr::Reference { expr } => spec_key_name(expr),
        Expr::Lit { lit } => match lit {
            Lit::Str { value } => Some(value@),
            _ => None,
        },
        Expr::Path { path, .. } => spec_path_ident(path),
        _ => None,
    }
}

fn key_name(e: &Expr) -> (r: Option<&String>)
    ensures
        r is Some <==> spec_key_name(e) is Some,
        r is Some ==> r.unwrap()@ == spec_key_name(e).unwrap(),
    decreases e,
{
    match e {
        Expr::Reference { expr } => key_name(expr),
        Expr::Lit { lit } => match lit {
            Lit::Str { value } => Some(value),
            _ => None,
        },
        Expr::Path { path, .. } => path_ident(path),
        _ => None,
    }
}

/// The keys of the `set` calls among the first `n` events, with their lines.
pub open spec fn keys_in(evs: Seq<Event>, n: int) -> Seq<(Seq<char>, usize)>
    decreases n,
{
    if n <= 0 || n > evs.len() {
        Seq::empty()
    } else {
        keys_in(evs, n - 1) + match evs[n - 1] {
            Event::Expr(e) => match e {
                Expr::MethodCall { method, args, line, .. } =>
                    if method@ == "set"@ && args.len() > 0 {
                        match spec_key_name(&args@[0]) {
                            Some(k) => seq![(k, *line)],
                            None => Seq::empty(),
                        }
                    } else {
                        Seq::empty()
                    },
                _ => Seq::empty(),
            },
            _ => Seq::empty(),
        }
    }
}

pub open spec fn fn_keys(f: &FnDef) -> Seq<(Seq<char>, usize)> {
    let evs = ev_fn(f, plain());
    keys_in(evs, evs.len() as int)
}

/// The keys of the functions among the first `n` items of an `impl` block.
pub open spec fn impl_keys(items: Seq<ImplItem>, n: int) -> Seq<(Seq<char>, usize)>
    decreases n,
{
    if n <= 0 || n > items.len() {
        Seq::empty()
    } else {
        impl_keys(items, n - 1) + match &items[n - 1] {
            ImplItem::Fn { func } => fn_keys(func),
            _ => Seq::empty(),
        }
    }
}

/// The keys of the top-level functions and `impl` functions among the first
/// `n` items.
pub open spec fn file_keys(items: Seq<Item>, n: int) -> Seq<(Seq<char>, usize)>
    decreases n,
{
    if n <= 0 || n > items.len() {
        Seq::empty()
    } else {
        file_keys(items, n - 1) + match &items[n - 1] {
            Item::Fn { func } => fn_keys(func),
            Item::Impl { imp } => impl_keys(imp.items@, imp.items.len() as int),
            _ => Seq::empty(),
        }
    }
}

/// Two different keys, both at least three bytes long (in UTF-8, as
/// `str::len` counts), one of which, in lower case, starts with or contains
/// the other.
pub open spec fn similar(a: Seq<char>, b: Seq<char>) -> bool {
    let la = lower_text(a);
    let lb = lower_text(b);
    a != b && (vstd::utf8::encode_utf8(a).len() as usize) >= 3 && (vstd::utf8::encode_utf8(b).len() as usize) >= 3
        && (seq_starts_with(la, lb) || seq_starts_with(lb, la) || seq_contains(la, lb) || seq_contains(lb, la))
}

pub open spec fn description(a: Seq<char>, b: Seq<char>) -> Seq<char> {
    "Potential storage key collision between '"@ + a + "' and '"@ + b
        + "'. Consider using more distinct key names to avoid accidental overwrites."@
}

pub open spec fn pair_finding(keys: Seq<(Seq<char>, usize)>, i: int, j: int) -> Seq<FindingView> {
    if similar(keys[i].0, keys[j].0) {
        seq![fv(CHECK_NAME@, Severity::Medium, keys[i].1, Seq::empty(), description(keys[i].0, keys[j].0))]
    } else {
        Seq::empty()
    }
}

/// The findings for key `i` paired with each key from `i + 1` up to `n`.
pub open spec fn row(keys: Seq<(Seq<char>, usize)>, i: int, n: int) -> Seq<FindingView>
    decreases n,
{
    if n <= 0 || n <= i + 1 || n > keys.len() {
        Seq::empty()
    } else {
        row(keys, i, n - 1) + pair_finding(keys, i, n - 1)
    }
}

/// The findings for the pairs whose first key is among the first `m` keys.
pub open spec fn rows(keys: Seq<(Seq<char>, usize)>, m: int) -> Seq<FindingView>
    decreases m,
{
    if m <= 0 || m > keys.len() {
        Seq::empty()
    } else {
        rows(keys, m - 1) + row(keys, m - 1, keys.len() as int)
    }
}

pub open spec fn key_views(v: Seq<(String, usize)>) -> Seq<(Seq<char>, usize)> {
    v.map_values(|p: (String, usize)| (p.0@, p.1))
}

fn push_fn_keys(f: &FnDef, keys: &mut Vec<(String, usize)>)
    ensures key_views(final(keys)@) == key_views(old(keys)@) + fn_keys(f),
{
    let evs = fn_events(f, plain_walk());
    let ghost start = key_views(keys@);
    let mut j: usize = 0;
    assert(key_views(keys@) =~= start + keys_in(evs@, 0));
    while j < evs.len()
        invariant
            j <= evs.len(),
            evs@ == ev_fn(f, plain()),
            key_views(keys@) == start + keys_in(evs@, j as int),
        decreases evs.len() - j,
    {
        let ghost before = key_views(keys@);
        match evs[j] {
            Event::Expr(e) => match e {
                Expr::MethodCall { method, args, line, .. } => {
                    if str_eq(method.as_str(), "set") && args.len() > 0 {
                        match key_name(&args[0]) {
                            Some(k) => {
                                keys.push((k.clone(), *line));
                                assert(key_views(keys@) =~= before.push((k@, *line)));
                            }
                            None => {}
                        }
                    }
                }
                _ => {}
            },
            _ => {}
        }
        assert(key_views(keys@) =~= start + keys_in(evs@, j + 1));
        j = j + 1;
    }
}

fn is_similar(a: &str, b: &str) -> (r: bool)
    ensures r == similar(a@, b@),
{
    let la = to_lower(a);
    let lb = to_lower(b);
    !str_eq(a, b) && a.len() >= 3 && b.len() >= 3
        && (starts_with(la.as_str(), lb.as_str()) || starts_with(lb.as_str(), la.as_str())
            || contains(la.as_str(), lb.as_str()) || contains(lb.as_str(), la.as_str()))
}

fn run_file(file: &SourceFile) -> (r: Vec<Finding>)
    ensures views(r@) == rows(file_keys(file.items@, file.items.len() as int), file_keys(file.items@, file.items.len() as int).len() as int),
{
    let mut keys: Vec<(String, usize)> = Vec::new();
    let mut i: usize = 0;
    assert(key_views(keys@) =~= Seq::empty());
    while i < file.items.len()
        invariant
            i <= file.items.len(),
            key_views(keys@) == file_keys(file.items@, i as int),
        decreases file.items.len() - i,
    {
        match &file.items[i] {
            Item::Fn { func } => push_fn_keys(func, &mut keys),
            Item::Impl { imp } => {
                let ghost before = key_views(keys@);
                let mut k: usize = 0;
                while k < imp.items.len()
                    invariant
                        k <= imp.items.len(),
                        key_views(keys@) == before + impl_keys(imp.items@, k as int),
                    decreases imp.items.len() - k,
                {
                    match &imp.items[k] {
                        ImplItem::Fn { func } => push_fn_keys(func, &mut keys),
                        _ => {}
                    }
                    k = k + 1;
                }
            }
            _ => {}
        }
        i = i + 1;
    }
    let ghost kv = key_views(keys@);
    let mut out: Vec<Finding> = Vec::new();
    let mut a: usize = 0;
    while a < keys.len()
        invariant
            a <= keys.len(),
            kv == key_views(keys@),
            views(out@) == rows(kv, a as int),
        decreases keys.len() - a,
    {
        let ghost start = views(out@);
        let mut b: usize = a + 1;
        assert(row(kv, a as int, b as int) =~= Seq::empty());
        while b < keys.len()
            invariant
                a < b <= keys.len(),
                kv == key_views(keys@),
                views(out@) == start + row(kv, a as int, b as int),
            decreases keys.len() - b,
        {
            assert(kv[a as int] == (keys@[a as int].0@, keys@[a as int].1));
            assert(kv[b as int] == (keys@[b as int].0@, keys@[b as int].1));
            if is_similar(keys[a].0.as_str(), keys[b].0.as_str()) {
                let mut d = String::from_str("Potential storage key collision between '");
                d.append(keys[a].0.as_str());
                d.append("' and '");
                d.append(keys[b].0.as_str());
                d.append("'. Consider using more distinct key names to avoid accidental overwrites.");
                let fd = new_finding(CHECK_NAME, Severity::Medium, keys[a].1, "", d);
                proof {
                    lemma_views_push(out@, fd);
                    reveal_strlit("");
                    assert(""@ =~= Seq::<char>::empty());
                }
                out.push(fd);
            }
            b = b + 1;
            assert(views(out@) =~= start + row(kv, a as int, b as int));
        }
        a = a + 1;
    }
    out
}

impl Check for StorageKeyCollisionCheck {
    open spec fn spec_name(&self) -> Seq<char> {
        CHECK_NAME@
    }

    open spec fn spec_run(&self, file: &SourceFile, source: Seq<char>) -> Seq<FindingView> {
        let keys = file_keys(file.items@, file.items.len() as int);
        rows(keys, keys.len() as int)
    }

    fn name(&self) -> (r: &str) {
        CHECK_NAME
    }

    fn run(&self, file: &SourceFile, source: &str) -> (r: Vec<Finding>) {
        run_file(file)
    }
}

} // verus!

verus! {

proof fn lemma_row_tagged(keys: Seq<(Seq<char>, usize)>, i: int, n: int)
    ensures crate::finding::tagged(row(keys, i, n), CHECK_NAME@, Severity::Medium),
    decreases n,
{
    if !(n <= 0 || n <= i + 1 || n > keys.len()) {
        lemma_row_tagged(keys, i, n - 1);
        crate::finding::lemma_tagged_add(row(keys, i, n - 1), pair_finding(keys, i, n - 1), CHECK_NAME@, Severity::Medium);
    }
}

proof fn lemma_rows_tagged(keys: Seq<(Seq<char>, usize)>, m: int)
    ensures crate::finding::tagged(rows(keys, m), CHECK_NAME@, Severity::Medium),
    decreases m,
{
    if m > 0 && m <= keys.len() {
        lemma_rows_tagged(keys, m - 1);
        lemma_row_tagged(keys, m - 1, keys.len() as int);
        crate::finding::lemma_tagged_add(rows(keys, m - 1), row(keys, m - 1, keys.len() as int), CHECK_NAME@, Severity::Medium);
    }
}

/// Every finding of this check names it, is of medium severity, and has an
/// empty file path.
pub proof fn lemma_findings_tagged(file: &SourceFile, source: Seq<char>)
    ensures crate::finding::tagged(StorageKeyCollisionCheck.spec_run(file, source), CHECK_NAME@, Severity::Medium),
{
    let keys = file_keys(file.items@, file.items.len() as int);
    lemma_rows_tagged(keys, keys.len() as int);
}

} // verus!

verus! {

proof fn lemma_row_contains(keys: Seq<(Seq<char>, usize)>, i: int, j: int, n: int, x: FindingView)
    requires
        0 <= i < j < n <= keys.len(),
        pair_finding(keys, i, j).contains(x),
    ensures row(keys, i, n).contains(x),
    decreases n,
{
    if n == j + 1 {
        let p = pair_finding(keys, i, j);
        let q = choose|q: int| 0 <= q < p.len() && p[q] == x;
        assert(row(keys, i, n)[row(keys, i, j).len() + q] == x);
    } else {
        lemma_row_contains(keys, i, j, n - 1, x);
        let prev = row(keys, i, n - 1);
        let q = choose|q: int| 0 <= q < prev.len() && prev[q] == x;
        assert(row(keys, i, n)[q] == x);
    }
}

proof fn lemma_rows_contain(keys: Seq<(Seq<char>, usize)>, i: int, m: int, x: FindingView)
    requires
        0 <= i < m <= keys.len(),
        row(keys, i, keys.len() as int).contains(x),
    ensures rows(keys, m).contains(x),
    decreases m,
{
    if m == i + 1 {
        let r = row(keys, i, keys.len() as int);
        let q = choose|q: int| 0 <= q < r.len() && r[q] == x;
        assert(rows(keys, m)[rows(keys, i).len() + q] == x);
    } else {
        lemma_rows_contain(keys, i, m - 1, x);
        let prev = rows(keys, m - 1);
        let q = choose|q: int| 0 <= q < prev.len() && prev[q] == x;
        assert(rows(keys, m)[q] == x);
    }
}

/// Two different keys written with `set` anywhere in the file, each at least
/// three bytes long in UTF-8 (and of a length that fits in `usize`), where one (in lower case) occurs inside the
/// other, are reported at the first one's line.
pub proof fn lemma_similar_keys_reported(file: &SourceFile, i: int, j: int)
    requires
        0 <= i < j < file_keys(file.items@, file.items.len() as int).len(),
        ({
            let keys = file_keys(file.items@, file.items.len() as int);
            let a = keys[i].0;
            let b = keys[j].0;
            &&& a != b
            &&& 3 <= vstd::utf8::encode_utf8(a).len() <= usize::MAX
            &&& 3 <= vstd::utf8::encode_utf8(b).len() <= usize::MAX
            &&& (seq_contains(lower_text(a), lower_text(b)) || seq_contains(lower_text(b), lower_text(a)))
        }),
    ensures ({
        let keys = file_keys(file.items@, file.items.len() as int);
        StorageKeyCollisionCheck.spec_run(file, Seq::empty()).contains(
            fv(CHECK_NAME@, Severity::Medium, keys[i].1, Seq::empty(), description(keys[i].0, keys[j].0)))
    }),
{
    let keys = file_keys(file.items@, file.items.len() as int);
    let x = fv(CHECK_NAME@, Severity::Medium, keys[i].1, Seq::empty(), description(keys[i].0, keys[j].0));
    assert(pair_finding(keys, i, j)[0] == x);
    lemma_row_contains(keys, i, j, keys.len() as int, x);
    lemma_rows_contain(keys, i, keys.len() as int, x);
}

proof fn lemma_rows_none(keys: Seq<(Seq<char>, usize)>, m: int)
    requires forall|i: int| 0 <= i < keys.len() ==> #[trigger] keys[i].0 == keys[0].0,
    ensures rows(keys, m).len() == 0,
    decreases m,
{
    if m > 0 && m <= keys.len() {
        lemma_rows_none(keys, m - 1);
        lemma_row_none(keys, m - 1, keys.len() as int);
    }
}

proof fn lemma_row_none(keys: Seq<(Seq<char>, usize)>, i: int, n: int)
    requires
        0 <= i < keys.len(),
        forall|q: int| 0 <= q < keys.len() ==> #[trigger] keys[q].0 == keys[0].0,
    ensures row(keys, i, n).len() == 0,
    decreases n,
{
    if n > 0 && n > i + 1 && n <= keys.len() {
        lemma_row_none(keys, i, n - 1);
        assert(keys[i].0 == keys[n - 1].0);
    }
}

/// A file whose `set` calls all use one and the same key gets no finding:
/// a key written twice is no collision.
pub proof fn lemma_single_key_passes(file: &SourceFile)
    requires
        forall|i: int| 0 <= i < file_keys(file.items@, file.items.len() as int).len()
            ==> #[trigger] file_keys(file.items@, file.items.len() as int)[i].0 == file_keys(file.items@, file.items.len() as int)[0].0,
    ensures StorageKeyCollisionCheck.spec_run(file, Seq::empty()).len() == 0,
{
    let keys = file_keys(file.items@, file.items.len() as int);
    lemma_rows_none(keys, keys.len() as int);
}

} // verus!
