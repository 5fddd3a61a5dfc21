//! Locating the functions of `#[contractimpl]` blocks.

use vstd::prelude::*;
use crate::syntax::{Attribute, FnDef, ImplItem, Item, ItemImpl, Path, SourceFile};
use crate::finding::{lemma_tagged_add, tagged, FindingView, Severity};
use crate::text::str_eq;

verus! {

/// The last segment of `p` is `name`.
pub open spec fn path_ends_with(p: &Path, name: Seq<char>) -> bool {
    p.segments.len() > 0 && p.segments@.last().ident@ == name
}

/// `p` is the single identifier `name`, with no leading `::` and no arguments.
pub open spec fn path_is_ident(p: &Path, name: Seq<char>) -> bool {
    !p.leading_colon && p.segments.len() == 1 && !p.segments@[0].has_args && p.segments@[0].ident@ == name
}

/// Some attribute's path ends with `name`.
pub open spec fn has_attr_ending(attrs: Seq<Attribute>, name: Seq<char>) -> bool {
    exists|i: int| 0 <= i < attrs.len() && path_ends_with(&#[trigger] attrs[i].path, name)
}

/// An `impl` block marked `#[contractimpl]`.
pub open spec fn spec_is_contractimpl(imp: &ItemImpl) -> bool {
    has_attr_ending(imp.attrs@, "contractimpl"@)
}

/// The functions among the first `n` items of an `impl` block.
pub open spec fn impl_fns<'a>(v: &'a Vec<ImplItem>, n: int) -> Seq<&'a FnDef>
    decreases n,
{
    if n <= 0 || n > v.len() {
        Seq::empty()
    } else {
        impl_fns(v, n - 1) + match &v@[n - 1] {
            ImplItem::Fn { func } => seq![func],
            _ => Seq::empty(),
        }
    }
}

/// The functions of the `#[contractimpl]` blocks among the first `n` items.
pub open spec fn contract_fns_of<'a>(v: &'a Vec<Item>, n: int) -> Seq<&'a FnDef>
    decreases n,
{
    if n <= 0 || n > v.len() {
        Seq::empty()
    } else {
        contract_fns_of(v, n - 1) + match &v@[n - 1] {
            Item::Impl { imp } => if spec_is_contractimpl(imp) { impl_fns(&imp.items, imp.items.len() as int) } else { Seq::empty() },
            _ => Seq::empty(),
        }
    }
}

/// The functions of the file's top-level `#[contractimpl]` blocks, in order.
pub open spec fn contract_fns<'a>(f: &'a SourceFile) -> Seq<&'a FnDef> {
    contract_fns_of(&f.items, f.items.len() as int)
}

/// What `g` reports for each of the first `n` functions, in order.
pub open spec fn over_fns<'a>(fns: Seq<&'a FnDef>, g: spec_fn(&'a FnDef) -> Seq<FindingView>, n: int) -> Seq<FindingView>
    decreases n,
{
    if n <= 0 || n > fns.len() {
        Seq::empty()
    } else {
        over_fns(fns, g, n - 1) + g(fns[n - 1])
    }
}

/// Whether the last segment of `p` is `name`.
pub fn path_last_is(p: &Path, name: &str) -> (r: bool)
    ensures r == path_ends_with(p, name@),
{
    let n = p.segments.len();
    n > 0 && str_eq(p.segments[n - 1].ident.as_str(), name)
}

/// Whether `p` is the single identifier `name`.
pub fn path_ident_is(p: &Path, name: &str) -> (r: bool)
    ensures r == path_is_ident(p, name@),
{
    !p.leading_colon && p.segments.len() == 1 && !p.segments[0].has_args && str_eq(p.segments[0].ident.as_str(), name)
}

/// Whether some attribute's path ends with `name`.
pub fn attrs_have(attrs: &Vec<Attribute>, name: &str) -> (r: bool)
    ensures r == has_attr_ending(attrs@, name@),
{
    let mut i: usize = 0;
    while i < attrs.len()
        invariant
            i <= attrs.len(),
            forall|j: int| 0 <= j < i ==> !path_ends_with(&#[trigger] attrs@[j].path, name@),
        decreases attrs.len() - i,
    {
        if path_last_is(&attrs[i].path, name) {
            return true;
        }
        i = i + 1;
    }
    false
}

/// Whether an `impl` block is marked `#[contractimpl]`.
pub fn is_contractimpl(imp: &ItemImpl) -> (r: bool)
    ensures r == spec_is_contractimpl(imp),
{
    attrs_have(&imp.attrs, "contractimpl")
}

/// The functions of the file's top-level `#[contractimpl]` blocks, in order.
pub fn contractimpl_functions<'a>(f: &'a SourceFile) -> (r: Vec<&'a FnDef>)
    ensures r@ == contract_fns(f),
{
    let mut out: Vec<&'a FnDef> = Vec::new();
    let mut i: usize = 0;
    while i < f.items.len()
        invariant
            i <= f.items.len(),
            out@ == contract_fns_of(&f.items, i as int),
        decreases f.items.len() - i,
    {
        let ghost before = out@;
        match &f.items[i] {
            Item::Impl { imp } => {
                if is_contractimpl(imp) {
                    let mut j: usize = 0;
                    while j < imp.items.len()
                        invariant
                            j <= imp.items.len(),
                            out@ == before + impl_fns(&imp.items, j as int),
                        decreases imp.items.len() - j,
                    {
                        match &imp.items[j] {
                            ImplItem::Fn { func } => out.push(func),
                            _ => {}
                        }
                        j = j + 1;
                        assert(out@ =~= before + impl_fns(&imp.items, j as int));
                    }
                }
            }
            _ => {}
        }
        i = i + 1;
        assert(out@ =~= contract_fns_of(&f.items, i as int));
    }
    out
}

} // verus!

verus! {

/// What `h` reports for each of the first `n` events, in order.
pub open spec fn hits(evs: Seq<crate::walk::Event>, h: spec_fn(crate::walk::Event) -> Seq<FindingView>, n: int) -> Seq<FindingView>
    decreases n,
{
    if n <= 0 || n > evs.len() {
        Seq::empty()
    } else {
        hits(evs, h, n - 1) + h(evs[n - 1])
    }
}

} // verus!

verus! {

/// When `g` tags every function's findings, their concatenation is tagged.
pub proof fn lemma_over_fns_tagged<'a>(fns: Seq<&'a FnDef>, g: spec_fn(&'a FnDef) -> Seq<FindingView>, n: int, name: Seq<char>, sev: Severity)
    requires forall|k: int| 0 <= k < fns.len() ==> tagged(#[trigger] g(fns[k]), name, sev),
    ensures tagged(over_fns(fns, g, n), name, sev),
    decreases n,
{
    if n > 0 && n <= fns.len() {
        lemma_over_fns_tagged(fns, g, n - 1, name, sev);
        lemma_tagged_add(over_fns(fns, g, n - 1), g(fns[n - 1]), name, sev);
    }
}

/// When `h` tags every event's findings, their concatenation is tagged.
pub proof fn lemma_hits_tagged(evs: Seq<crate::walk::Event>, h: spec_fn(crate::walk::Event) -> Seq<FindingView>, n: int, name: Seq<char>, sev: Severity)
    requires forall|k: int| 0 <= k < evs.len() ==> tagged(#[trigger] h(evs[k]), name, sev),
    ensures tagged(hits(evs, h, n), name, sev),
    decreases n,
{
    if n > 0 && n <= evs.len() {
        lemma_hits_tagged(evs, h, n - 1, name, sev);
        lemma_tagged_add(hits(evs, h, n - 1), h(evs[n - 1]), name, sev);
    }
}

} // verus!

verus! {

/// `b` is `a` with one more top-level item at the end, and that item is not
/// a `#[contractimpl]` block.
pub open spec fn extended_by_other_item(a: &SourceFile, b: &SourceFile) -> bool {
    &&& b.items.len() == a.items.len() + 1
    &&& forall|i: int| 0 <= i < a.items.len() ==> #[trigger] b.items@[i] == a.items@[i]
    &&& !(match &b.items@[a.items.len() as int] {
        Item::Impl { imp } => spec_is_contractimpl(imp),
        _ => false,
    })
}

proof fn lemma_contract_fns_prefix(a: &Vec<Item>, b: &Vec<Item>, n: int)
    requires
        0 <= n <= a.len(),
        n <= b.len(),
        forall|i: int| 0 <= i < a.len() && i < b.len() ==> #[trigger] b@[i] == a@[i],
    ensures contract_fns_of(b, n) == contract_fns_of(a, n),
    decreases n,
{
    if n > 0 {
        lemma_contract_fns_prefix(a, b, n - 1);
        assert(b@[n - 1] == a@[n - 1]);
    }
}

/// An item that is not a `#[contractimpl]` block adds no contract function.
pub proof fn lemma_contract_fns_extra_item(a: &SourceFile, b: &SourceFile)
    requires extended_by_other_item(a, b),
    ensures contract_fns(b) == contract_fns(a),
{
    let n = a.items.len() as int;
    lemma_contract_fns_prefix(&a.items, &b.items, n);
    assert(contract_fns_of(&b.items, n + 1) =~= contract_fns_of(&b.items, n));
}

} // verus!

verus! {

/// What an event contributes stays among the findings of every longer
/// prefix of the walk.
pub proof fn lemma_hits_contain(evs: Seq<crate::walk::Event>, h: spec_fn(crate::walk::Event) -> Seq<FindingView>, k: int, n: int, x: FindingView)
    requires
        0 <= k < n <= evs.len(),
        h(evs[k]).contains(x),
    ensures hits(evs, h, n).contains(x),
    decreases n,
{
    if n == k + 1 {
        let hk = h(evs[k]);
        let j = choose|j: int| 0 <= j < hk.len() && hk[j] == x;
        assert(hits(evs, h, n)[hits(evs, h, k).len() + j] == x);
    } else {
        lemma_hits_contain(evs, h, k, n - 1, x);
        let prev = hits(evs, h, n - 1);
        let j = choose|j: int| 0 <= j < prev.len() && prev[j] == x;
        assert(hits(evs, h, n)[j] == x);
    }
}

/// With no event contributing anything, there are no findings.
pub proof fn lemma_hits_none(evs: Seq<crate::walk::Event>, h: spec_fn(crate::walk::Event) -> Seq<FindingView>, n: int)
    requires forall|k: int| 0 <= k < n && k < evs.len() ==> (#[trigger] h(evs[k])).len() == 0,
    ensures hits(evs, h, n).len() == 0,
    decreases n,
{
    if n > 0 && n <= evs.len() {
        lemma_hits_none(evs, h, n - 1);
    }
}

} // verus!
