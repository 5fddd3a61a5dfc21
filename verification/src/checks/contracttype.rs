//! Structs and enums stored in contract storage without `#[contracttype]`.
//!
//! Custom types written to Soroban storage must carry `#[contracttype]` so the
//! host can serialize them; storing one without it fails at run time.

use vstd::prelude::*;
use crate::syntax::{Attribute, Expr, FnDef, Item, SourceFile, TypeDef};
use crate::walk::{block_events, ev_block, plain, plain_walk, Event};
use crate::finding::{fv, lemma_views_push, new_finding, views, Check, Finding, FindingView, Severity};
use crate::contract::{contract_fns, contractimpl_functions, path_ident_is, path_is_ident};
use crate::text::{contains, lemma_texts_push, seq_contains, str_eq, string_in, texts};
use crate::checks::admin_key_removal::{bound_name, bound_name_of_pat, lookup, lookup_binding, pairs_view};

verus! {

pub const CHECK_NAME: &'static str = "missing-contracttype";

/// Flags top-level structs and enums that a `#[contractimpl]` function writes
/// to storage but that lack `#[contracttype]`.
pub struct MissingContracttypeCheck;

/// `#[contracttype]`, or `#[derive(..)]` whose tokens mention `contracttype`.
pub open spec fn spec_has_contracttype(attrs: Seq<Attribute>) -> bool {
    exists|i: int| 0 <= i < attrs.len() && ({
        let a = #[trigger] attrs[i];
        path_is_ident(&a.path, "contracttype"@) || (path_is_ident(&a.path, "derive"@) && match &a.list_tokens {
            Some(t) => seq_contains(t@, "contracttype"@),
            None => false,
        })
    })
}

fn has_contracttype(attrs: &Vec<Attribute>) -> (r: bool)
    ensures r == spec_has_contracttype(attrs@),
{
    let mut i: usize = 0;
    while i < attrs.len()
        invariant
            i <= attrs.len(),
            forall|k: int| 0 <= k < i ==> !({
                let a = #[trigger] attrs@[k];
                path_is_ident(&a.path, "contracttype"@) || (path_is_ident(&a.path, "derive"@) && match &a.list_tokens {
                    Some(t) => seq_contains(t@, "contracttype"@),
                    None => false,
                })
            }),
        decreases attrs.len() - i,
    {
        let a = &attrs[i];
        if path_ident_is(&a.path, "contracttype") {
            return true;
        }
        if path_ident_is(&a.path, "derive") {
            match &a.list_tokens {
                Some(t) => {
                    if contains(t.as_str(), "contracttype") {
                        return true;
                    }
                }
                None => {}
            }
        }
        i = i + 1;
    }
    false
}

/// A method/field chain that calls `storage()`, `instance()` or `persistent()`.
pub open spec fn spec_from_storage(e: &Expr) -> bool
    decreases e,
{
    match e {
        Expr::MethodCall { receiver, method, .. } =>
            method@ == "storage"@ || method@ == "instance"@ || method@ == "persistent"@ || spec_from_storage(receiver),
        Expr::Field { base, .. } => spec_from_storage(base),
        _ => false,
    }
}

fn from_storage(e: &Expr) -> (r: bool)
    ensures r == spec_from_storage(e),
    decreases e,
{
    match e {
        Expr::MethodCall { receiver, method, .. } =>
            str_eq(method.as_str(), "storage") || str_eq(method.as_str(), "instance") || str_eq(method.as_str(), "persistent")
                || from_storage(receiver),
        Expr::Field { base, .. } => from_storage(base),
        _ => false,
    }
}

/// The type name of a stored value: a one-segment path (a variable bound to
/// a struct literal stands for that struct's name), a one-segment struct
/// literal, through `&`.
pub open spec fn spec_type_name(e: &Expr, vars: Seq<(Seq<char>, Seq<char>)>) -> Option<Seq<char>>
    decreases e,
{
    match e {
        Expr::Path { path, .. } =>
            if path.segments.len() == 1 {
                let name = path.segments@[0].ident@;
                match lookup(vars, name) {
                    Some(t) => Some(t),
                    None => Some(name),
                }
            } else {
                None
            },
        Expr::Struct { path, .. } => if path.segments.len() == 1 { Some(path.segments@[0].ident@) } else { None },
        Expr::Reference { expr } => spec_type_name(expr, vars),
        _ => None,
    }
}

fn stored_type_name(e: &Expr, vars: &Vec<(String, String)>) -> (r: Option<String>)
    ensures
        r is Some <==> spec_type_name(e, pairs_view(vars@)) is Some,
        r is Some ==> r.unwrap()@ == spec_type_name(e, pairs_view(vars@)).unwrap(),
    decreases e,
{
    match e {
        Expr::Path { path, .. } => {
            if path.segments.len() == 1 {
                let name = &path.segments[0].ident;
                match lookup_binding(vars, name.as_str()) {
                    Some(t) => Some(t),
                    None => Some(name.clone()),
                }
            } else {
                None
            }
        }
        Expr::Struct { path, .. } => {
            if path.segments.len() == 1 { Some(path.segments[0].ident.clone()) } else { None }
        }
        Expr::Reference { expr } => stored_type_name(expr, vars),
        _ => None,
    }
}

/// The scan of one function: variables bound to struct literals, and the
/// type names written to storage.
pub struct TypeScan {
    pub vars: Seq<(Seq<char>, Seq<char>)>,
    pub types: Seq<Seq<char>>,
}

pub open spec fn step(st: TypeScan, ev: Event) -> TypeScan {
    match ev {
        Event::Local(l) => match &l.init {
            Some(init) => match &**init {
                Expr::Struct { path, .. } =>
                    if path.segments.len() == 1 {
                        match bound_name(&l.pat) {
                            Some(n) => TypeScan { vars: st.vars.push((n, path.segments@[0].ident@)), ..st },
                            None => st,
                        }
                    } else {
                        st
                    },
                _ => st,
            },
            None => st,
        },
        Event::Expr(e) => match e {
            Expr::MethodCall { receiver, method, args, .. } =>
                if method@ == "set"@ && spec_from_storage(receiver) && args.len() >= 2 {
                    match spec_type_name(&args@[1], st.vars) {
                        Some(t) => TypeScan { types: st.types.push(t), ..st },
                        None => st,
                    }
                } else {
                    st
                },
            _ => st,
        },
        _ => st,
    }
}

pub open spec fn scan(evs: Seq<Event>, n: int) -> TypeScan
    decreases n,
{
    if n <= 0 || n > evs.len() {
        TypeScan { vars: Seq::empty(), types: Seq::empty() }
    } else {
        step(scan(evs, n - 1), evs[n - 1])
    }
}

/// The type names that one function writes to storage, in walk order.
pub open spec fn fn_types(f: &FnDef) -> Seq<Seq<char>> {
    let evs = ev_block(&f.block, plain());
    scan(evs, evs.len() as int).types
}

/// The type names that the first `n` functions write to storage.
pub open spec fn stored_types(fns: Seq<&FnDef>, n: int) -> Seq<Seq<char>>
    decreases n,
{
    if n <= 0 || n > fns.len() {
        Seq::empty()
    } else {
        stored_types(fns, n - 1) + fn_types(fns[n - 1])
    }
}

pub open spec fn def_findings(def: &TypeDef, kind: Seq<char>, types: Seq<Seq<char>>) -> Seq<FindingView> {
    if types.contains(def.name@) && !spec_has_contracttype(def.attrs@) {
        seq![fv(CHECK_NAME@, Severity::Medium, def.line, Seq::empty(),
            kind + " `"@ + def.name@ + "` is stored in env.storage() but lacks #[contracttype] attribute. This will cause runtime serialization errors."@)]
    } else {
        Seq::empty()
    }
}

/// The findings for the first `n` top-level items.
pub open spec fn items_findings(items: Seq<Item>, types: Seq<Seq<char>>, n: int) -> Seq<FindingView>
    decreases n,
{
    if n <= 0 || n > items.len() {
        Seq::empty()
    } else {
        items_findings(items, types, n - 1) + match &items[n - 1] {
            Item::Struct { def } => def_findings(def, "Struct"@, types),
            Item::Enum { def } => def_findings(def, "Enum"@, types),
            _ => Seq::empty(),
        }
    }
}

fn push_types(f: &FnDef, types: &mut Vec<String>)
    ensures texts(final(types)@) == texts(old(types)@) + fn_types(f),
{
    let evs = block_events(&f.block, plain_walk());
    let ghost start = texts(types@);
    let mut vars: Vec<(String, String)> = Vec::new();
    let mut j: usize = 0;
    assert(texts(types@) =~= start + Seq::<Seq<char>>::empty());
    assert(pairs_view(vars@) =~= Seq::empty());
    while j < evs.len()
        invariant
            j <= evs.len(),
            evs@ == ev_block(&f.block, plain()),
            pairs_view(vars@) == scan(evs@, j as int).vars,
            texts(types@) == start + scan(evs@, j as int).types,
        decreases evs.len() - j,
    {
        let ghost tv = texts(types@);
        let ghost vv = pairs_view(vars@);
        match evs[j] {
            Event::Local(l) => match &l.init {
                Some(init) => match &**init {
                    Expr::Struct { path, .. } => {
                        if path.segments.len() == 1 {
                            match bound_name_of_pat(&l.pat) {
                                Some(n) => {
                                    vars.push((n.clone(), path.segments[0].ident.clone()));
                                    assert(pairs_view(vars@) =~= vv.push((n@, path.segments@[0].ident@)));
                                }
                                None => {}
                            }
                        }
                    }
                    _ => {}
                },
                None => {}
            },
            Event::Expr(e) => match e {
                Expr::MethodCall { receiver, method, args, .. } => {
                    if str_eq(method.as_str(), "set") && from_storage(receiver) && args.len() >= 2 {
                        match stored_type_name(&args[1], &vars) {
                            Some(t) => {
                                proof { lemma_texts_push(types@, t); }
                                types.push(t);
                                assert(texts(types@) =~= start + scan(evs@, j as int).types.push(t@));
                            }
                            None => {}
                        }
                    }
                }
                _ => {}
            },
            _ => {}
        }
        j = j + 1;
    }
}

fn def_check(def: &TypeDef, kind: &str, types: &Vec<String>, out: &mut Vec<Finding>)
    ensures views(final(out)@) == views(old(out)@) + def_findings(def, kind@, texts(types@)),
{
    if string_in(types, def.name.as_str()) && !has_contracttype(&def.attrs) {
        let mut d = String::from_str(kind);
        d.append(" `");
        d.append(def.name.as_str());
        d.append("` is stored in env.storage() but lacks #[contracttype] attribute. This will cause runtime serialization errors.");
        let fd = new_finding(CHECK_NAME, Severity::Medium, def.line, "", d);
        proof {
            lemma_views_push(out@, fd);
            reveal_strlit("");
            assert(""@ =~= Seq::<char>::empty());
        }
        out.push(fd);
    }
    assert(views(out@) =~= views(old(out)@) + def_findings(def, kind@, texts(types@)));
}

impl Check for MissingContracttypeCheck {
    open spec fn spec_name(&self) -> Seq<char> {
        CHECK_NAME@
    }

    open spec fn spec_run(&self, file: &SourceFile, source: Seq<char>) -> Seq<FindingView> {
        let types = stored_types(contract_fns(file), contract_fns(file).len() as int);
        items_findings(file.items@, types, file.items.len() as int)
    }

    fn name(&self) -> (r: &str) {
        CHECK_NAME
    }

    fn run(&self, file: &SourceFile, source: &str) -> (r: Vec<Finding>) {
        let fns = contractimpl_functions(file);
        let mut types: Vec<String> = Vec::new();
        let mut i: usize = 0;
        while i < fns.len()
            invariant
                i <= fns.len(),
                fns@ == contract_fns(file),
                texts(types@) == stored_types(contract_fns(file), i as int),
            decreases fns.len() - i,
        {
            push_types(fns[i], &mut types);
            i = i + 1;
        }
        let ghost ts = texts(types@);
        let mut out: Vec<Finding> = Vec::new();
        let mut k: usize = 0;
        while k < file.items.len()
            invariant
                k <= file.items.len(),
                ts == texts(types@),
                views(out@) == items_findings(file.items@, ts, k as int),
            decreases file.items.len() - k,
        {
            match &file.items[k] {
                Item::Struct { def } => def_check(def, "Struct", &types, &mut out),
                Item::Enum { def } => def_check(def, "Enum", &types, &mut out),
                _ => {}
            }
            k = k + 1;
        }
        out
    }
}

} // verus!

verus! {

proof fn lemma_items_tagged(items: Seq<Item>, types: Seq<Seq<char>>, n: int)
    ensures crate::finding::tagged(items_findings(items, types, n), CHECK_NAME@, Severity::Medium),
    decreases n,
{
    if n > 0 && n <= items.len() {
        lemma_items_tagged(items, types, n - 1);
        let prev = items_findings(items, types, n - 1);
        let cur = items_findings(items, types, n);
        assert forall|i: int| 0 <= i < cur.len() implies #[trigger] crate::finding::tag_ok(cur[i], CHECK_NAME@, Severity::Medium) by {
            if i < prev.len() {
                assert(cur[i] == prev[i]);
            }
        }
    }
}

/// Every finding of this check names it, is of medium severity, and has an
/// empty file path.
pub proof fn lemma_findings_tagged(file: &SourceFile, source: Seq<char>)
    ensures crate::finding::tagged(MissingContracttypeCheck.spec_run(file, source), CHECK_NAME@, Severity::Medium),
{
    let types = stored_types(contract_fns(file), contract_fns(file).len() as int);
    lemma_items_tagged(file.items@, types, file.items.len() as int);
}

} // verus!

verus! {

proof fn lemma_items_findings_contain(items: Seq<Item>, types: Seq<Seq<char>>, q: int, n: int, x: FindingView)
    requires
        0 <= q < n <= items.len(),
        items_findings(items, types, q + 1) == items_findings(items, types, q).push(x),
    ensures items_findings(items, types, n).contains(x),
    decreases n,
{
    if n == q + 1 {
        assert(items_findings(items, types, n)[items_findings(items, types, q).len() as int] == x);
    } else {
        lemma_items_findings_contain(items, types, q, n - 1, x);
        let prev = items_findings(items, types, n - 1);
        let j = choose|j: int| 0 <= j < prev.len() && prev[j] == x;
        assert(items_findings(items, types, n)[j] == x);
    }
}

/// A struct with no attributes whose name is stored by some
/// `#[contractimpl]` function is reported at its line.
pub proof fn lemma_bare_stored_struct_flagged(file: &SourceFile, q: int)
    requires
        0 <= q < file.items.len(),
        file.items@[q] matches Item::Struct { def } && def.attrs.len() == 0
            && stored_types(contract_fns(file), contract_fns(file).len() as int).contains(def.name@),
    ensures ({
        let def = file.items@[q]->Struct_def;
        MissingContracttypeCheck.spec_run(file, Seq::empty()).contains(fv(CHECK_NAME@, Severity::Medium, def.line, Seq::empty(),
            "Struct"@ + " `"@ + def.name@ + "` is stored in env.storage() but lacks #[contracttype] attribute. This will cause runtime serialization errors."@))
    }),
{
    let types = stored_types(contract_fns(file), contract_fns(file).len() as int);
    let def = file.items@[q]->Struct_def;
    let x = fv(CHECK_NAME@, Severity::Medium, def.line, Seq::empty(),
        "Struct"@ + " `"@ + def.name@ + "` is stored in env.storage() but lacks #[contracttype] attribute. This will cause runtime serialization errors."@);
    assert(!spec_has_contracttype(def.attrs@));
    assert(items_findings(file.items@, types, q + 1) == items_findings(file.items@, types, q).push(x));
    lemma_items_findings_contain(file.items@, types, q, file.items.len() as int, x);
}

proof fn lemma_items_none(items: Seq<Item>, types: Seq<Seq<char>>, n: int)
    requires
        forall|q: int| 0 <= q < items.len() ==> match #[trigger] items[q] {
            Item::Struct { def } => def.attrs.len() > 0 && path_is_ident(&def.attrs@[0].path, "contracttype"@),
            Item::Enum { def } => def.attrs.len() > 0 && path_is_ident(&def.attrs@[0].path, "contracttype"@),
            _ => true,
        },
    ensures items_findings(items, types, n).len() == 0,
    decreases n,
{
    if n > 0 && n <= items.len() {
        lemma_items_none(items, types, n - 1);
        match &items[n - 1] {
            Item::Struct { def } => { assert(spec_has_contracttype(def.attrs@)); },
            Item::Enum { def } => { assert(spec_has_contracttype(def.attrs@)); },
            _ => {},
        }
    }
}

/// A file whose structs and enums all carry `#[contracttype]` (as their
/// first attribute) gets no finding.
pub proof fn lemma_all_contracttype_passes(file: &SourceFile)
    requires
        forall|q: int| 0 <= q < file.items.len() ==> match #[trigger] file.items@[q] {
            Item::Struct { def } => def.attrs.len() > 0 && path_is_ident(&def.attrs@[0].path, "contracttype"@),
            Item::Enum { def } => def.attrs.len() > 0 && path_is_ident(&def.attrs@[0].path, "contracttype"@),
            _ => true,
        },
    ensures MissingContracttypeCheck.spec_run(file, Seq::empty()).len() == 0,
{
    lemma_items_none(file.items@, stored_types(contract_fns(file), contract_fns(file).len() as int), file.items.len() as int);
}

} // verus!
