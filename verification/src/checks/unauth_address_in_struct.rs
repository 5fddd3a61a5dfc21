//! An address field of a stored struct taken from an unauthenticated
//! parameter.
//!
//! `storage().set(key, MyStruct { owner: addr, .. })` where `addr` is an
//! `Address` parameter and the function never calls `require_auth` lets anyone
//! register arbitrary addresses as owners of stored records.

use vstd::prelude::*;
use crate::syntax::{Expr, FieldValue, FnArg, FnDef, Pat, SourceFile, Ty};
use crate::walk::{block_events, ev_block, expr_at, plain, plain_walk, some_expr, Event};
use crate::finding::{fv, lemma_views_append, lemma_views_push, new_finding, views, Check, Finding, FindingView, Severity};
use crate::contract::{contract_fns, contractimpl_functions, over_fns};
use crate::text::{lemma_texts_push, str_eq, string_in, texts};
use crate::checks::keys::{receiver_chain_contains, spec_receiver_chain_contains};

verus! {

pub const CHECK_NAME: &'static str = "unauth-address-in-struct";

/// Flags storage writes of struct literals holding an `Address` parameter in
/// functions that never call `require_auth`.
pub struct UnauthAddressInStructCheck;

/// The last identifier of a type's path, through references; empty for other
/// types.
pub open spec fn spec_type_last_ident(t: &Ty) -> Seq<char>
    decreases t,
{
    match t {
        Ty::Path { path } => if path.segments.len() > 0 { path.segments@.last().ident@ } else { Seq::empty() },
        Ty::Reference { elem } => spec_type_last_ident(elem),
        Ty::Other => Seq::empty(),
    }
}

fn type_is_address(t: &Ty) -> (r: bool)
    ensures r == (spec_type_last_ident(t) == "Address"@),
    decreases t,
{
    match t {
        Ty::Path { path } => {
            let n = path.segments.len();
            if n > 0 {
                assert(path.segments@.last() == path.segments@[n - 1]);
                str_eq(path.segments[n - 1].ident.as_str(), "Address")
            } else {
                proof {
                    reveal_strlit("Address");
                    assert("Address"@.len() == 7);
                }
                false
            }
        }
        Ty::Reference { elem } => type_is_address(elem),
        Ty::Other => {
            proof {
                reveal_strlit("Address");
                assert("Address"@.len() == 7);
            }
            false
        }
    }
}

/// The names of the first `n` parameters that are plain identifiers typed
/// `Address`.
pub open spec fn address_params(inputs: Seq<FnArg>, n: int) -> Seq<Seq<char>>
    decreases n,
{
    if n <= 0 || n > inputs.len() {
        Seq::empty()
    } else {
        address_params(inputs, n - 1) + match &inputs[n - 1] {
            FnArg::Typed { pat, ty } => match pat {
                Pat::Ident { name, .. } => if spec_type_last_ident(ty) == "Address"@ { seq![name@] } else { Seq::empty() },
                _ => Seq::empty(),
            },
            _ => Seq::empty(),
        }
    }
}

fn collect_address_params(inputs: &Vec<FnArg>) -> (r: Vec<String>)
    ensures texts(r@) == address_params(inputs@, inputs.len() as int),
{
    let mut out: Vec<String> = Vec::new();
    let mut i: usize = 0;
    while i < inputs.len()
        invariant
            i <= inputs.len(),
            texts(out@) == address_params(inputs@, i as int),
        decreases inputs.len() - i,
    {
        match &inputs[i] {
            FnArg::Typed { pat, ty } => match pat {
                Pat::Ident { name, .. } => {
                    if type_is_address(ty) {
                        let n = name.clone();
                        proof { lemma_texts_push(out@, n); }
                        out.push(n);
                    }
                }
                _ => {}
            },
            _ => {}
        }
        i = i + 1;
        assert(texts(out@) =~= address_params(inputs@, i as int));
    }
    out
}

/// The last identifier of a path expression, through `&`.
pub open spec fn spec_expr_ident(e: &Expr) -> Option<Seq<char>>
    decreases e,
{
    match e {
        Expr::Path { path, .. } => if path.segments.len() > 0 { Some(path.segments@.last().ident@) } else { None },
        Expr::Reference { expr } => spec_expr_ident(expr),
        _ => None,
    }
}

fn expr_ident(e: &Expr) -> (r: Option<&String>)
    ensures
        r is Some <==> spec_expr_ident(e) is Some,
        r is Some ==> r.unwrap()@ == spec_expr_ident(e).unwrap(),
    decreases e,
{
    match e {
        Expr::Path { path, .. } => {
            let n = path.segments.len();
            if n > 0 { Some(&path.segments[n - 1].ident) } else { None }
        }
        Expr::Reference { expr } => expr_ident(expr),
        _ => None,
    }
}

/// The field's value names one of the address parameters.
pub open spec fn field_has_param(f: FieldValue, ps: Seq<Seq<char>>) -> bool {
    match spec_expr_ident(&f.expr) {
        Some(n) => ps.contains(n),
        None => false,
    }
}

/// Some field of a struct literal is one of the address parameters.
pub open spec fn spec_struct_has_param(fields: Seq<FieldValue>, ps: Seq<Seq<char>>) -> bool {
    exists|i: int| 0 <= i < fields.len() && #[trigger] field_has_param(fields[i], ps)
}

fn struct_has_param(fields: &Vec<FieldValue>, ps: &Vec<String>) -> (r: bool)
    ensures r == spec_struct_has_param(fields@, texts(ps@)),
{
    let mut i: usize = 0;
    while i < fields.len()
        invariant
            i <= fields.len(),
            forall|k: int| 0 <= k < i ==> !#[trigger] field_has_param(fields@[k], texts(ps@)),
        decreases fields.len() - i,
    {
        match expr_ident(&fields[i].expr) {
            Some(n) => {
                if string_in(ps, n.as_str()) {
                    assert(field_has_param(fields@[i as int], texts(ps@)));
                    return true;
                }
            }
            None => {}
        }
        i = i + 1;
    }
    false
}

/// A struct literal, possibly under one `&`, holding an address parameter.
pub open spec fn spec_value_has_param(arg: &Expr, ps: Seq<Seq<char>>) -> bool {
    let inner = match arg {
        Expr::Reference { expr } => &**expr,
        other => other,
    };
    match inner {
        Expr::Struct { fields, .. } => spec_struct_has_param(fields@, ps),
        _ => false,
    }
}

fn value_has_param(arg: &Expr, ps: &Vec<String>) -> (r: bool)
    ensures r == spec_value_has_param(arg, texts(ps@)),
{
    let inner = match arg {
        Expr::Reference { expr } => &**expr,
        other => other,
    };
    match inner {
        Expr::Struct { fields, .. } => struct_has_param(fields, ps),
        _ => false,
    }
}

/// A `require_auth` or `require_auth_for_args` method call.
pub open spec fn spec_is_auth_call(e: &Expr) -> bool {
    match e {
        Expr::MethodCall { method, .. } => method@ == "require_auth"@ || method@ == "require_auth_for_args"@,
        _ => false,
    }
}

pub fn is_auth_call(e: &Expr) -> (r: bool)
    ensures r == spec_is_auth_call(e),
{
    match e {
        Expr::MethodCall { method, .. } => str_eq(method.as_str(), "require_auth") || str_eq(method.as_str(), "require_auth_for_args"),
        _ => false,
    }
}

pub open spec fn auth_p<'a>() -> spec_fn(&'a Expr) -> bool {
    |e: &'a Expr| spec_is_auth_call(e)
}

pub open spec fn description(func: Seq<char>) -> Seq<char> {
    "Method `"@ + func + "` stores a struct containing an `Address` field sourced from a function parameter without calling `require_auth()` on that address. An attacker can register arbitrary addresses as owners of stored records. Call `require_auth()` on the address parameter before the write."@
}

/// One finding for each storage `set` among the first `n` events whose value
/// is a struct literal holding an address parameter.
pub open spec fn write_hits(evs: Seq<Event>, ps: Seq<Seq<char>>, func: Seq<char>, n: int) -> Seq<FindingView>
    decreases n,
{
    if n <= 0 || n > evs.len() {
        Seq::empty()
    } else {
        write_hits(evs, ps, func, n - 1) + match evs[n - 1] {
            Event::Expr(e) => match e {
                Expr::MethodCall { receiver, method, args, line } =>
                    if method@ == "set"@ && spec_receiver_chain_contains(receiver, "storage"@) && args.len() >= 2
                        && spec_value_has_param(&args@[1], ps) {
                        seq![fv(CHECK_NAME@, Severity::High, *line, func, description(func))]
                    } else {
                        Seq::empty()
                    },
                _ => Seq::empty(),
            },
            _ => Seq::empty(),
        }
    }
}

/// Nothing without address parameters or with some `require_auth` call;
/// otherwise one finding per such write.
pub open spec fn fn_findings(f: &FnDef) -> Seq<FindingView> {
    let ps = address_params(f.inputs@, f.inputs.len() as int);
    let evs = ev_block(&f.block, plain());
    if ps.len() == 0 || some_expr(evs, auth_p()) {
        Seq::empty()
    } else {
        write_hits(evs, ps, f.name@, evs.len() as int)
    }
}

fn scan_fn(f: &FnDef) -> (r: Vec<Finding>)
    ensures views(r@) == fn_findings(f),
{
    let ps = collect_address_params(&f.inputs);
    let mut out: Vec<Finding> = Vec::new();
    if ps.len() == 0 {
        return out;
    }
    let evs = block_events(&f.block, plain_walk());
    let ghost p = auth_p();
    let mut j: usize = 0;
    while j < evs.len()
        invariant
            j <= evs.len(),
            evs@ == ev_block(&f.block, plain()),
            p == auth_p(),
            forall|k: int| 0 <= k < j ==> !#[trigger] expr_at(evs@, k, p),
        decreases evs.len() - j,
    {
        match evs[j] {
            Event::Expr(e) => {
                if is_auth_call(e) {
                    assert(expr_at(evs@, j as int, p));
                    let none: Vec<Finding> = Vec::new();
                    assert(views(none@) =~= Seq::empty());
                    return none;
                }
            }
            _ => {}
        }
        j = j + 1;
    }
    let mut k: usize = 0;
    while k < evs.len()
        invariant
            k <= evs.len(),
            evs@ == ev_block(&f.block, plain()),
            views(out@) == write_hits(evs@, texts(ps@), f.name@, k as int),
        decreases evs.len() - k,
    {
        match evs[k] {
            Event::Expr(e) => match e {
                Expr::MethodCall { receiver, method, args, line } => {
                    if str_eq(method.as_str(), "set") && receiver_chain_contains(receiver, "storage") && args.len() >= 2
                        && value_has_param(&args[1], &ps) {
                        let mut d = String::from_str("Method `");
                        d.append(f.name.as_str());
                        d.append("` stores a struct containing an `Address` field sourced from a function parameter without calling `require_auth()` on that address. An attacker can register arbitrary addresses as owners of stored records. Call `require_auth()` on the address parameter before the write.");
                        let fd = new_finding(CHECK_NAME, Severity::High, *line, f.name.as_str(), d);
                        proof { lemma_views_push(out@, fd); }
                        out.push(fd);
                    }
                }
                _ => {}
            },
            _ => {}
        }
        k = k + 1;
    }
    out
}

impl Check for UnauthAddressInStructCheck {
    open spec fn spec_name(&self) -> Seq<char> {
        CHECK_NAME@
    }

    open spec fn spec_run(&self, file: &SourceFile, source: Seq<char>) -> Seq<FindingView> {
        over_fns(contract_fns(file), |f: &FnDef| fn_findings(f), contract_fns(file).len() as int)
    }

    fn name(&self) -> (r: &str) {
        CHECK_NAME
    }

    fn run(&self, file: &SourceFile, source: &str) -> (r: Vec<Finding>) {
        let fns = contractimpl_functions(file);
        let mut out: Vec<Finding> = Vec::new();
        let mut i: usize = 0;
        while i < fns.len()
            invariant
                i <= fns.len(),
                fns@ == contract_fns(file),
                views(out@) == over_fns(contract_fns(file), |f: &FnDef| fn_findings(f), i as int),
            decreases fns.len() - i,
        {
            let mut found = scan_fn(fns[i]);
            proof { lemma_views_append(out@, found@); }
            out.append(&mut found);
            i = i + 1;
        }
        out
    }
}

} // verus!

verus! {

proof fn lemma_hits_tagged(evs: Seq<Event>, ps: Seq<Seq<char>>, func: Seq<char>, n: int)
    ensures crate::finding::tagged(write_hits(evs, ps, func, n), CHECK_NAME@, Severity::High),
    decreases n,
{
    if n > 0 && n <= evs.len() {
        lemma_hits_tagged(evs, ps, func, n - 1);
        let prev = write_hits(evs, ps, func, n - 1);
        let cur = write_hits(evs, ps, func, n);
        assert forall|i: int| 0 <= i < cur.len() implies #[trigger] crate::finding::tag_ok(cur[i], CHECK_NAME@, Severity::High) by {
            if i < prev.len() {
                assert(cur[i] == prev[i]);
            }
        }
    }
}

proof fn lemma_fn_tagged(f: &FnDef)
    ensures crate::finding::tagged(fn_findings(f), CHECK_NAME@, Severity::High),
{
    let evs = ev_block(&f.block, plain());
    let ps = address_params(f.inputs@, f.inputs.len() as int);
    lemma_hits_tagged(evs, ps, f.name@, evs.len() as int);
}

/// Every finding of this check names it, is of high severity, and has an
/// empty file path.
pub proof fn lemma_findings_tagged(file: &SourceFile, source: Seq<char>)
    ensures crate::finding::tagged(UnauthAddressInStructCheck.spec_run(file, source), CHECK_NAME@, Severity::High),
{
    let fns = contract_fns(file);
    assert forall|k: int| 0 <= k < fns.len() implies crate::finding::tagged(fn_findings(fns[k]), CHECK_NAME@, Severity::High) by {
        lemma_fn_tagged(fns[k]);
    }
    crate::contract::lemma_over_fns_tagged(fns, |f: &FnDef| fn_findings(f), fns.len() as int, CHECK_NAME@, Severity::High);
}

} // verus!

verus! {

/// Only the functions of `#[contractimpl]` blocks are examined: one more
/// top-level item that is not such a block changes no finding.
pub proof fn lemma_ignores_other_items(a: &SourceFile, b: &SourceFile, source: Seq<char>)
    requires crate::contract::extended_by_other_item(a, b),
    ensures UnauthAddressInStructCheck.spec_run(b, source) == UnauthAddressInStructCheck.spec_run(a, source),
{
    crate::contract::lemma_contract_fns_extra_item(a, b);
}

} // verus!

verus! {

/// `e` is a path whose last segment is `name`.
pub open spec fn path_ends_in(e: &Expr, name: Seq<char>) -> bool {
    e matches Expr::Path { path, .. } && path.segments.len() > 0 && path.segments@.last().ident@ == name
}

/// `v` is a struct literal, or a reference to one, some field of which (in
/// any position) is a path ending in `name`.
pub open spec fn literal_holds(v: &Expr, name: Seq<char>) -> bool {
    let inner = match v {
        Expr::Reference { expr } => &**expr,
        other => other,
    };
    inner matches Expr::Struct { fields, .. }
        && exists|i: int| 0 <= i < fields.len() && path_ends_in(&#[trigger] fields@[i].expr, name)
}

proof fn lemma_hits_contain(evs: Seq<Event>, ps: Seq<Seq<char>>, func: Seq<char>, k: int, n: int, fd: FindingView)
    requires
        0 <= k < n <= evs.len(),
        write_hits(evs, ps, func, k + 1) == write_hits(evs, ps, func, k).push(fd),
    ensures write_hits(evs, ps, func, n).contains(fd),
    decreases n,
{
    if n == k + 1 {
        assert(write_hits(evs, ps, func, n)[k as int - k + write_hits(evs, ps, func, k).len()] == fd);
    } else {
        lemma_hits_contain(evs, ps, func, k, n - 1, fd);
        let prev = write_hits(evs, ps, func, n - 1);
        let j = choose|j: int| 0 <= j < prev.len() && prev[j] == fd;
        assert(write_hits(evs, ps, func, n)[j] == fd);
    }
}

/// In a function with no `require_auth`/`require_auth_for_args` call, a
/// storage `set` whose value is a struct literal with some field (first,
/// last or between) holding an `Address` parameter is reported at its line.
pub proof fn lemma_address_field_flagged(f: &FnDef, k: int, name: Seq<char>)
    requires
        address_params(f.inputs@, f.inputs.len() as int).contains(name),
        forall|j: int| 0 <= j < ev_block(&f.block, plain()).len() ==> !(#[trigger] ev_block(&f.block, plain())[j] matches Event::Expr(e)
            && e matches Expr::MethodCall { method, .. }
            && (method@ == "require_auth"@ || method@ == "require_auth_for_args"@)),
        0 <= k < ev_block(&f.block, plain()).len(),
        ev_block(&f.block, plain())[k] matches Event::Expr(e)
            && e matches Expr::MethodCall { method, receiver, args, .. } && method@ == "set"@
            && spec_receiver_chain_contains(receiver, "storage"@) && args.len() >= 2
            && literal_holds(&args@[1], name),
    ensures
        fn_findings(f).contains(fv(CHECK_NAME@, Severity::High,
            ev_block(&f.block, plain())[k]->Expr_0->MethodCall_line, f.name@, description(f.name@))),
{
    let ps = address_params(f.inputs@, f.inputs.len() as int);
    let evs = ev_block(&f.block, plain());
    assert(!some_expr(evs, auth_p())) by {
        if some_expr(evs, auth_p()) {
            let j = choose|j: int| 0 <= j < evs.len() && #[trigger] expr_at(evs, j, auth_p());
            assert(!(evs[j] matches Event::Expr(e)
                && e matches Expr::MethodCall { method, .. }
                && (method@ == "require_auth"@ || method@ == "require_auth_for_args"@)));
        }
    }
    match evs[k] {
        Event::Expr(e) => match e {
            Expr::MethodCall { args, .. } => {
                let v = &args@[1];
                let inner = match v {
                    Expr::Reference { expr } => &**expr,
                    other => other,
                };
                match inner {
                    Expr::Struct { fields, .. } => {
                        let i = choose|i: int| 0 <= i < fields.len() && path_ends_in(&#[trigger] fields@[i].expr, name);
                        assert(field_has_param(fields@[i], ps));
                        assert(spec_struct_has_param(fields@, ps));
                    },
                    _ => {},
                }
            },
            _ => {},
        },
        _ => {},
    }
    let fd = fv(CHECK_NAME@, Severity::High, evs[k]->Expr_0->MethodCall_line, f.name@, description(f.name@));
    assert(write_hits(evs, ps, f.name@, k + 1) == write_hits(evs, ps, f.name@, k).push(fd));
    lemma_hits_contain(evs, ps, f.name@, k, evs.len() as int, fd);
}


/// A function that calls `require_auth` or `require_auth_for_args` anywhere
/// gets no finding.
pub proof fn lemma_auth_call_clears(f: &FnDef, j: int)
    requires
        0 <= j < ev_block(&f.block, plain()).len(),
        ev_block(&f.block, plain())[j] matches Event::Expr(e)
            && e matches Expr::MethodCall { method, .. }
            && (method@ == "require_auth"@ || method@ == "require_auth_for_args"@),
    ensures fn_findings(f) == Seq::<FindingView>::empty(),
{
    assert(expr_at(ev_block(&f.block, plain()), j, auth_p()));
}
} // verus!
