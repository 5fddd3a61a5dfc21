//! An error enum used with `panic_with_error!` that lacks `#[contracterror]`.
//!
//! Without `#[contracterror]` or `#[repr(u32)]` the Soroban host cannot map
//! the error to a structured error code.

use vstd::prelude::*;
use crate::syntax::{Attribute, FnDef, Macro, SourceFile, TokenTree, TypeDef};
use crate::walk::{ev_file, file_events, plain, plain_walk, Event};
use crate::finding::{fv, lemma_views_push, new_finding, views, Check, Finding, FindingView, Severity};
use crate::contract::{path_ends_with, path_last_is};
use crate::text::{contains, seq_contains, str_eq};

verus! {

pub const CHECK_NAME: &'static str = "contracterror-attr";

/// Flags `panic_with_error!(&env, MyError::Variant)` where the file's enum
/// `MyError` has neither `#[contracterror]` nor `#[repr(u32)]`.
pub struct ContracterrorAttrCheck;

/// The index just past the first `,` at or after `i`, or the end.
pub open spec fn after_first_comma(ts: Seq<TokenTree>, i: int) -> int
    decreases ts.len() - i,
{
    if i < 0 || i >= ts.len() {
        ts.len() as int
    } else {
        match ts[i] {
            TokenTree::Punct { ch } => if ch == ',' { i + 1 } else { after_first_comma(ts, i + 1) },
            _ => after_first_comma(ts, i + 1),
        }
    }
}

/// The identifiers of the path that starts at `i`: identifiers are kept, a
/// `:` skips the token after it, and `,` or `)` ends the path.
pub open spec fn path_parts(ts: Seq<TokenTree>, i: int, parts: Seq<Seq<char>>) -> Seq<Seq<char>>
    decreases ts.len() + 1 - i,
{
    if i < 0 || i >= ts.len() {
        parts
    } else {
        match ts[i] {
            TokenTree::Ident { name } => path_parts(ts, i + 1, parts.push(name@)),
            TokenTree::Punct { ch } =>
                if ch == ':' {
                    path_parts(ts, i + 2, parts)
                } else if ch == ',' || ch == ')' {
                    parts
                } else {
                    path_parts(ts, i + 1, parts)
                },
            _ => path_parts(ts, i + 1, parts),
        }
    }
}

/// The enum named by the second argument of `panic_with_error!`: the
/// second-to-last identifier of its path, or the only one.
pub open spec fn spec_enum_name(ts: Seq<TokenTree>) -> Option<Seq<char>> {
    let parts = path_parts(ts, after_first_comma(ts, 0), Seq::empty());
    if parts.len() >= 2 {
        Some(parts[parts.len() - 2])
    } else if parts.len() == 1 {
        Some(parts[0])
    } else {
        None
    }
}

fn enum_name(ts: &Vec<TokenTree>) -> (r: Option<String>)
    ensures
        r is Some <==> spec_enum_name(ts@) is Some,
        r is Some ==> r.unwrap()@ == spec_enum_name(ts@).unwrap(),
{
    let mut i: usize = 0;
    while i < ts.len()
        invariant_except_break
            i <= ts.len(),
            after_first_comma(ts@, 0) == after_first_comma(ts@, i as int),
        ensures
            i <= ts.len(),
            after_first_comma(ts@, 0) == i,
        decreases ts.len() - i,
    {
        match &ts[i] {
            TokenTree::Punct { ch } => {
                if *ch == ',' {
                    i = i + 1;
                    break;
                }
            }
            _ => {}
        }
        i = i + 1;
    }
    let mut parts: Vec<String> = Vec::new();
    let ghost start = i as int;
    assert(parts@.map_values(|s: String| s@) =~= Seq::<Seq<char>>::empty());
    while i < ts.len()
        invariant_except_break
            i <= ts.len(),
            path_parts(ts@, start, Seq::empty()) == path_parts(ts@, i as int, parts@.map_values(|s: String| s@)),
        ensures
            path_parts(ts@, start, Seq::empty()) == parts@.map_values(|s: String| s@),
        decreases ts.len() + 1 - i,
    {
        let ghost pv = parts@.map_values(|s: String| s@);
        let ghost before = path_parts(ts@, i as int, pv);
        match &ts[i] {
            TokenTree::Ident { name } => {
                assert(before == path_parts(ts@, i + 1, pv.push(name@)));
                parts.push(name.clone());
                assert(parts@.map_values(|s: String| s@) =~= pv.push(name@));
                i = i + 1;
            }
            TokenTree::Punct { ch } => {
                if *ch == ':' {
                    assert(before == path_parts(ts@, i + 2, pv));
                    if i + 1 < ts.len() {
                        i = i + 2;
                    } else {
                        i = ts.len();
                    }
                } else if *ch == ',' || *ch == ')' {
                    break;
                } else {
                    assert(before == path_parts(ts@, i + 1, pv));
                    i = i + 1;
                }
            }
            _ => {
                assert(before == path_parts(ts@, i + 1, pv));
                i = i + 1;
            }
        }
    }
    let ghost pv = parts@.map_values(|s: String| s@);
    let n = parts.len();
    if n >= 2 {
        Some(parts[n - 2].clone())
    } else if n == 1 {
        Some(parts[0].clone())
    } else {
        None
    }
}

/// An attribute whose path ends in `contracterror`.
pub open spec fn spec_has_contracterror(attrs: Seq<Attribute>) -> bool {
    exists|i: int| 0 <= i < attrs.len() && path_ends_with(&#[trigger] attrs[i].path, "contracterror"@)
}

/// An attribute whose path ends in `repr` and whose list mentions `u32`.
pub open spec fn repr_u32(a: Attribute) -> bool {
    path_ends_with(&a.path, "repr"@) && match &a.list_tokens {
        Some(t) => seq_contains(t@, "u32"@),
        None => false,
    }
}

pub open spec fn spec_has_repr_u32(attrs: Seq<Attribute>) -> bool {
    exists|i: int| 0 <= i < attrs.len() && #[trigger] repr_u32(attrs[i])
}

/// The enum lacks both attributes.
pub open spec fn lacks_attrs(def: &TypeDef) -> bool {
    !spec_has_contracterror(def.attrs@) && !spec_has_repr_u32(def.attrs@)
}

fn enum_lacks_attrs(def: &TypeDef) -> (r: bool)
    ensures r == lacks_attrs(def),
{
    let attrs = &def.attrs;
    let mut i: usize = 0;
    while i < attrs.len()
        invariant
            i <= attrs.len(),
            attrs@ == def.attrs@,
            forall|k: int| 0 <= k < i ==> !path_ends_with(&#[trigger] attrs@[k].path, "contracterror"@),
            forall|k: int| 0 <= k < i ==> !#[trigger] repr_u32(attrs@[k]),
        decreases attrs.len() - i,
    {
        let a = &attrs[i];
        if path_last_is(&a.path, "contracterror") {
            assert(path_ends_with(&def.attrs@[i as int].path, "contracterror"@));
            return false;
        }
        if path_last_is(&a.path, "repr") {
            match &a.list_tokens {
                Some(t) => {
                    if contains(t.as_str(), "u32") {
                        assert(repr_u32(def.attrs@[i as int]));
                        return false;
                    }
                }
                None => {}
            }
        }
        i = i + 1;
    }
    true
}

/// A `panic_with_error!` use: the enum it names, its line, and the function
/// that encloses it (empty until one is found).
pub struct UsageView {
    pub enum_name: Seq<char>,
    pub line: usize,
    pub func: Seq<char>,
}

pub struct Usage {
    pub enum_name: String,
    pub line: usize,
    pub function_name: String,
}

impl View for Usage {
    type V = UsageView;

    open spec fn view(&self) -> UsageView {
        UsageView { enum_name: self.enum_name@, line: self.line, func: self.function_name@ }
    }
}

pub open spec fn usage_views(v: Seq<Usage>) -> Seq<UsageView> {
    v.map_values(|u: Usage| u@)
}

/// The enums seen (name, lacks both attributes), and the uses so far.
pub struct ErrorScan {
    pub enums: Seq<(Seq<char>, bool)>,
    pub usages: Seq<UsageView>,
}

/// A use whose line lies in the function's lines takes the function's name.
pub open spec fn attribute_usage(u: UsageView, f: &FnDef) -> UsageView {
    if f.span_start <= u.line && u.line <= f.span_end { UsageView { func: f.name@, ..u } } else { u }
}

/// How one event changes the scan. A function's name is given to the uses
/// met before the function itself.
pub open spec fn step(st: ErrorScan, ev: Event) -> ErrorScan {
    match ev {
        Event::Enum(def) => ErrorScan { enums: st.enums.push((def.name@, lacks_attrs(def))), ..st },
        Event::Macro(m) =>
            if path_ends_with(&m.path, "panic_with_error"@) {
                match spec_enum_name(m.tokens@) {
                    Some(n) => ErrorScan { usages: st.usages.push(UsageView { enum_name: n, line: m.line, func: Seq::empty() }), ..st },
                    None => st,
                }
            } else {
                st
            },
        Event::Fn(f) => ErrorScan { usages: st.usages.map_values(|u: UsageView| attribute_usage(u, f)), ..st },
        _ => st,
    }
}

pub open spec fn scan(evs: Seq<Event>, n: int) -> ErrorScan
    decreases n,
{
    if n <= 0 || n > evs.len() {
        ErrorScan { enums: Seq::empty(), usages: Seq::empty() }
    } else {
        step(scan(evs, n - 1), evs[n - 1])
    }
}

/// The latest enum entry named `k`.
pub open spec fn lookup_enum(b: Seq<(Seq<char>, bool)>, k: Seq<char>) -> Option<bool>
    decreases b.len(),
{
    if b.len() == 0 {
        None
    } else if b.last().0 == k {
        Some(b.last().1)
    } else {
        lookup_enum(b.drop_last(), k)
    }
}

pub open spec fn description(name: Seq<char>) -> Seq<char> {
    "panic_with_error! uses enum `"@ + name
        + "` which lacks both #[contracterror] and #[repr(u32)] attributes. Without these, the Soroban host cannot map the error to a structured error code."@
}

/// One finding per use, in order, whose enum (its latest definition) lacks
/// both attributes.
pub open spec fn usage_hits(st: ErrorScan, n: int) -> Seq<FindingView>
    decreases n,
{
    if n <= 0 || n > st.usages.len() {
        Seq::empty()
    } else {
        usage_hits(st, n - 1) + {
            let u = st.usages[n - 1];
            if lookup_enum(st.enums, u.enum_name) == Some(true) {
                seq![fv(CHECK_NAME@, Severity::Low, u.line, u.func, description(u.enum_name))]
            } else {
                Seq::empty()
            }
        }
    }
}

pub open spec fn file_findings(file: &SourceFile) -> Seq<FindingView> {
    let evs = ev_file(file, plain());
    let st = scan(evs, evs.len() as int);
    usage_hits(st, st.usages.len() as int)
}

fn lookup_enum_exec(b: &Vec<(String, bool)>, k: &str) -> (r: Option<bool>)
    ensures r == lookup_enum(b@.map_values(|p: (String, bool)| (p.0@, p.1)), k@),
{
    let ghost full = b@.map_values(|p: (String, bool)| (p.0@, p.1));
    let mut i: usize = b.len();
    assert(b@.subrange(0, b.len() as int).map_values(|p: (String, bool)| (p.0@, p.1)) =~= full);
    while i > 0
        invariant
            i <= b.len(),
            full == b@.map_values(|p: (String, bool)| (p.0@, p.1)),
            lookup_enum(full, k@) == lookup_enum(b@.subrange(0, i as int).map_values(|p: (String, bool)| (p.0@, p.1)), k@),
        decreases i,
    {
        let ghost pv = b@.subrange(0, i as int).map_values(|p: (String, bool)| (p.0@, p.1));
        assert(pv.drop_last() =~= b@.subrange(0, i - 1).map_values(|p: (String, bool)| (p.0@, p.1)));
        if str_eq(b[i - 1].0.as_str(), k) {
            return Some(b[i - 1].1);
        }
        i = i - 1;
    }
    None
}

fn attribute_usages(usages: &mut Vec<Usage>, f: &FnDef)
    ensures usage_views(final(usages)@) == usage_views(old(usages)@).map_values(|u: UsageView| attribute_usage(u, f)),
{
    let ghost orig = usage_views(usages@);
    let mut i: usize = 0;
    while i < usages.len()
        invariant
            i <= usages.len(),
            usages.len() == orig.len(),
            orig == usage_views(old(usages)@),
            forall|k: int| 0 <= k < i ==> (#[trigger] usages@[k])@ == attribute_usage(orig[k], f),
            forall|k: int| i <= k < usages.len() ==> (#[trigger] usages@[k])@ == orig[k],
        decreases usages.len() - i,
    {
        let line = usages[i].line;
        if f.span_start <= line && line <= f.span_end {
            let u = Usage { enum_name: usages[i].enum_name.clone(), line, function_name: f.name.clone() };
            usages.set(i, u);
        }
        i = i + 1;
    }
    assert(usage_views(usages@) =~= orig.map_values(|u: UsageView| attribute_usage(u, f)));
}

fn run_file(file: &SourceFile) -> (r: Vec<Finding>)
    ensures views(r@) == file_findings(file),
{
    let evs = file_events(file, plain_walk());
    let mut enums: Vec<(String, bool)> = Vec::new();
    let mut usages: Vec<Usage> = Vec::new();
    let mut j: usize = 0;
    assert(enums@.map_values(|p: (String, bool)| (p.0@, p.1)) =~= Seq::empty());
    assert(usage_views(usages@) =~= Seq::empty());
    while j < evs.len()
        invariant
            j <= evs.len(),
            evs@ == ev_file(file, plain()),
            scan(evs@, j as int) == (ErrorScan {
                enums: enums@.map_values(|p: (String, bool)| (p.0@, p.1)),
                usages: usage_views(usages@),
            }),
        decreases evs.len() - j,
    {
        match evs[j] {
            Event::Enum(def) => {
                let ghost ev = enums@.map_values(|p: (String, bool)| (p.0@, p.1));
                let lacks = enum_lacks_attrs(def);
                enums.push((def.name.clone(), lacks));
                assert(enums@.map_values(|p: (String, bool)| (p.0@, p.1)) =~= ev.push((def.name@, lacks)));
            }
            Event::Macro(m) => {
                if path_last_is(&m.path, "panic_with_error") {
                    match enum_name(&m.tokens) {
                        Some(n) => {
                            let ghost uv = usage_views(usages@);
                            let u = Usage { enum_name: n, line: m.line, function_name: String::new() };
                            usages.push(u);
                            assert(usage_views(usages@) =~= uv.push(u@));
                        }
                        None => {}
                    }
                }
            }
            Event::Fn(f) => {
                attribute_usages(&mut usages, f);
            }
            _ => {}
        }
        j = j + 1;
    }
    let ghost st = scan(evs@, evs@.len() as int);
    let mut out: Vec<Finding> = Vec::new();
    let mut i: usize = 0;
    while i < usages.len()
        invariant
            i <= usages.len(),
            st == (ErrorScan {
                enums: enums@.map_values(|p: (String, bool)| (p.0@, p.1)),
                usages: usage_views(usages@),
            }),
            views(out@) == usage_hits(st, i as int),
        decreases usages.len() - i,
    {
        let u = &usages[i];
        assert(st.usages[i as int] == u@);
        if lookup_enum_exec(&enums, u.enum_name.as_str()) == Some(true) {
            let mut d = String::from_str("panic_with_error! uses enum `");
            d.append(u.enum_name.as_str());
            d.append("` which lacks both #[contracterror] and #[repr(u32)] attributes. Without these, the Soroban host cannot map the error to a structured error code.");
            let fd = new_finding(CHECK_NAME, Severity::Low, u.line, u.function_name.as_str(), d);
            proof { lemma_views_push(out@, fd); }
            out.push(fd);
        }
        assert(views(out@) =~= usage_hits(st, i + 1));
        i = i + 1;
    }
    out
}

impl Check for ContracterrorAttrCheck {
    open spec fn spec_name(&self) -> Seq<char> {
        CHECK_NAME@
    }

    open spec fn spec_run(&self, file: &SourceFile, source: Seq<char>) -> Seq<FindingView> {
        file_findings(file)
    }

    fn name(&self) -> (r: &str) {
        CHECK_NAME
    }

    fn run(&self, file: &SourceFile, source: &str) -> (r: Vec<Finding>) {
        run_file(file)
    }
}

} // verus!

verus! {

proof fn lemma_hits_tagged(st: ErrorScan, n: int)
    ensures crate::finding::tagged(usage_hits(st, n), CHECK_NAME@, Severity::Low),
    decreases n,
{
    if n > 0 && n <= st.usages.len() {
        lemma_hits_tagged(st, n - 1);
        let prev = usage_hits(st, n - 1);
        let cur = usage_hits(st, n);
        assert forall|i: int| 0 <= i < cur.len() implies #[trigger] crate::finding::tag_ok(cur[i], CHECK_NAME@, Severity::Low) by {
            if i < prev.len() {
                assert(cur[i] == prev[i]);
            }
        }
    }
}

/// Every finding of this check names it, is of low severity, and has an
/// empty file path.
pub proof fn lemma_findings_tagged(file: &SourceFile, source: Seq<char>)
    ensures crate::finding::tagged(ContracterrorAttrCheck.spec_run(file, source), CHECK_NAME@, Severity::Low),
{
    let evs = ev_file(file, plain());
    let st = scan(evs, evs.len() as int);
    lemma_hits_tagged(st, st.usages.len() as int);
}

} // verus!

verus! {

proof fn lemma_no_usages(evs: Seq<Event>, n: int)
    requires
        0 <= n <= evs.len(),
        forall|k: int| 0 <= k < evs.len() ==> !(#[trigger] evs[k] matches Event::Macro(m)
            && m.path.segments.len() > 0 && m.path.segments@.last().ident@ == "panic_with_error"@),
    ensures scan(evs, n).usages.len() == 0,
    decreases n,
{
    if n > 0 {
        lemma_no_usages(evs, n - 1);
    }
}

/// A file with no `panic_with_error!` call gets no finding.
pub proof fn lemma_no_panic_with_error_passes(file: &SourceFile)
    requires
        forall|k: int| 0 <= k < ev_file(file, plain()).len() ==> !(#[trigger] ev_file(file, plain())[k] matches Event::Macro(m)
            && m.path.segments.len() > 0 && m.path.segments@.last().ident@ == "panic_with_error"@),
    ensures ContracterrorAttrCheck.spec_run(file, Seq::empty()).len() == 0,
{
    let evs = ev_file(file, plain());
    lemma_no_usages(evs, evs.len() as int);
}

} // verus!
