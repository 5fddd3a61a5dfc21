//! `env.crypto().ed25519_verify(...)` with a public key read from temporary
//! storage.
//!
//! Temporary entries expire, so a later verification may run against a
//! default key.

use vstd::prelude::*;
use crate::syntax::{Expr, FnDef, SourceFile};
use crate::walk::{block_events, ev_block, plain, plain_walk, Event};
use crate::finding::{fv, lemma_views_append, lemma_views_push, new_finding, views, Check, Finding, FindingView, Severity};
use crate::contract::{contract_fns, contractimpl_functions, over_fns, path_ident_is, path_is_ident};
use crate::text::{lemma_texts_push, str_eq, string_in, texts};
use crate::checks::admin_key_removal::{bound_name, bound_name_of_pat};
use crate::checks::unbounded_input_storage::{path_ident, spec_path_ident};

verus! {

pub const CHECK_NAME: &'static str = "ed25519-key-in-temp";

/// Flags `ed25519_verify` calls whose public-key argument comes from
/// temporary storage, directly or through a variable.
pub struct Ed25519KeyInTempCheck;

/// Exactly the identifier `env`.
pub open spec fn spec_is_env(e: &Expr) -> bool {
    match e {
        Expr::Path { path, .. } => path_is_ident(path, "env"@),
        _ => false,
    }
}

fn is_env(e: &Expr) -> (r: bool)
    ensures r == spec_is_env(e),
{
    match e {
        Expr::Path { path, .. } => path_ident_is(path, "env"),
        _ => false,
    }
}

/// A chain whose `crypto()` call is made on `env`, or that ends in `env`.
pub open spec fn spec_chain_is_crypto(e: &Expr) -> bool
    decreases e,
{
    match e {
        Expr::MethodCall { receiver, method, .. } =>
            if method@ == "crypto"@ { spec_is_env(receiver) } else { spec_chain_is_crypto(receiver) },
        Expr::Field { base, .. } => spec_chain_is_crypto(base),
        Expr::Path { path, .. } => path_is_ident(path, "env"@),
        _ => false,
    }
}

fn chain_is_crypto(e: &Expr) -> (r: bool)
    ensures r == spec_chain_is_crypto(e),
    decreases e,
{
    match e {
        Expr::MethodCall { receiver, method, .. } => {
            if str_eq(method.as_str(), "crypto") { is_env(receiver) } else { chain_is_crypto(receiver) }
        }
        Expr::Field { base, .. } => chain_is_crypto(base),
        Expr::Path { path, .. } => path_ident_is(path, "env"),
        _ => false,
    }
}

/// A chain whose (nearest) `storage()` call is made on `env`.
pub open spec fn spec_chain_has_storage(e: &Expr) -> bool
    decreases e,
{
    match e {
        Expr::MethodCall { receiver, method, .. } =>
            if method@ == "storage"@ { spec_is_env(receiver) } else { spec_chain_has_storage(receiver) },
        Expr::Field { base, .. } => spec_chain_has_storage(base),
        _ => false,
    }
}

fn chain_has_storage(e: &Expr) -> (r: bool)
    ensures r == spec_chain_has_storage(e),
    decreases e,
{
    match e {
        Expr::MethodCall { receiver, method, .. } => {
            if str_eq(method.as_str(), "storage") { is_env(receiver) } else { chain_has_storage(receiver) }
        }
        Expr::Field { base, .. } => chain_has_storage(base),
        _ => false,
    }
}

/// A chain whose (nearest) `temporary()` call is made on `env.storage()`.
pub open spec fn spec_chain_has_temporary(e: &Expr) -> bool
    decreases e,
{
    match e {
        Expr::MethodCall { receiver, method, .. } =>
            if method@ == "temporary"@ { spec_chain_has_storage(receiver) } else { spec_chain_has_temporary(receiver) },
        Expr::Field { base, .. } => spec_chain_has_temporary(base),
        _ => false,
    }
}

fn chain_has_temporary(e: &Expr) -> (r: bool)
    ensures r == spec_chain_has_temporary(e),
    decreases e,
{
    match e {
        Expr::MethodCall { receiver, method, .. } => {
            if str_eq(method.as_str(), "temporary") { chain_has_storage(receiver) } else { chain_has_temporary(receiver) }
        }
        Expr::Field { base, .. } => chain_has_temporary(base),
        _ => false,
    }
}

/// A `get(..)` call on `env.storage().temporary()`.
pub open spec fn spec_is_temporary_get(e: &Expr) -> bool {
    match e {
        Expr::MethodCall { receiver, method, .. } => method@ == "get"@ && spec_chain_has_temporary(receiver),
        _ => false,
    }
}

fn is_temporary_get(e: &Expr) -> (r: bool)
    ensures r == spec_is_temporary_get(e),
{
    match e {
        Expr::MethodCall { receiver, method, .. } => str_eq(method.as_str(), "get") && chain_has_temporary(receiver),
        _ => false,
    }
}

/// A temporary `get`, under `&` and field accesses.
pub open spec fn spec_expr_is_temporary_get(e: &Expr) -> bool
    decreases e,
{
    match e {
        Expr::Reference { expr } => spec_expr_is_temporary_get(expr),
        Expr::MethodCall { .. } => spec_is_temporary_get(e),
        Expr::Field { base, .. } => spec_expr_is_temporary_get(base),
        _ => false,
    }
}

fn expr_is_temporary_get(e: &Expr) -> (r: bool)
    ensures r == spec_expr_is_temporary_get(e),
    decreases e,
{
    match e {
        Expr::Reference { expr } => expr_is_temporary_get(expr),
        Expr::MethodCall { .. } => is_temporary_get(e),
        Expr::Field { base, .. } => expr_is_temporary_get(base),
        _ => false,
    }
}

/// A method chain with a temporary `get` somewhere along it.
pub open spec fn spec_contains_temp_get(e: &Expr) -> bool
    decreases e,
{
    match e {
        Expr::MethodCall { receiver, .. } => spec_is_temporary_get(e) || spec_contains_temp_get(receiver),
        _ => false,
    }
}

fn contains_temp_get(e: &Expr) -> (r: bool)
    ensures r == spec_contains_temp_get(e),
    decreases e,
{
    match e {
        Expr::MethodCall { receiver, .. } => is_temporary_get(e) || contains_temp_get(receiver),
        _ => false,
    }
}

/// An `ed25519_verify(..)` call on a crypto chain.
pub open spec fn spec_is_verify(e: &Expr) -> bool {
    match e {
        Expr::MethodCall { receiver, method, .. } => method@ == "ed25519_verify"@ && spec_chain_is_crypto(receiver),
        _ => false,
    }
}

fn is_verify(e: &Expr) -> (r: bool)
    ensures r == spec_is_verify(e),
{
    match e {
        Expr::MethodCall { receiver, method, .. } => str_eq(method.as_str(), "ed25519_verify") && chain_is_crypto(receiver),
        _ => false,
    }
}

/// The identifier that the first argument names, through one `&`.
pub open spec fn first_arg_ident(args: Seq<Expr>) -> Option<Seq<char>> {
    if args.len() == 0 {
        None
    } else {
        let inner = match &args[0] {
            Expr::Reference { expr } => &**expr,
            other => other,
        };
        match inner {
            Expr::Path { path, .. } => spec_path_ident(path),
            _ => None,
        }
    }
}

fn first_arg_ident_of(args: &Vec<Expr>) -> (r: Option<&String>)
    ensures
        r is Some <==> first_arg_ident(args@) is Some,
        r is Some ==> r.unwrap()@ == first_arg_ident(args@).unwrap(),
{
    if args.len() == 0 {
        return None;
    }
    let inner = match &args[0] {
        Expr::Reference { expr } => &**expr,
        other => other,
    };
    match inner {
        Expr::Path { path, .. } => path_ident(path),
        _ => None,
    }
}

pub open spec fn description(func: Seq<char>) -> Seq<char> {
    "Method `"@ + func + "` calls `env.crypto().ed25519_verify(...)` with a public key read from temporary storage. Temporary storage entries expire, which may cause verification to use a default key."@
}

/// Variables bound to temporary reads, and the findings so far.
pub struct TempScan {
    pub temp_vars: Seq<Seq<char>>,
    pub found: Seq<FindingView>,
}

pub open spec fn step(st: TempScan, ev: Event, func: Seq<char>) -> TempScan {
    match ev {
        Event::Local(l) => match &l.init {
            Some(init) =>
                if spec_contains_temp_get(init) {
                    match bound_name(&l.pat) {
                        Some(n) => TempScan { temp_vars: st.temp_vars.push(n), ..st },
                        None => st,
                    }
                } else {
                    st
                },
            None => st,
        },
        Event::Expr(e) => match e {
            Expr::MethodCall { args, line, .. } =>
                if spec_is_verify(e) && ((args.len() > 0 && spec_expr_is_temporary_get(&args@[0])) || match first_arg_ident(args@) {
                    Some(id) => st.temp_vars.contains(id),
                    None => false,
                }) {
                    TempScan { found: st.found.push(fv(CHECK_NAME@, Severity::High, *line, func, description(func))), ..st }
                } else {
                    st
                },
            _ => st,
        },
        _ => st,
    }
}

pub open spec fn scan(evs: Seq<Event>, func: Seq<char>, n: int) -> TempScan
    decreases n,
{
    if n <= 0 || n > evs.len() {
        TempScan { temp_vars: Seq::empty(), found: Seq::empty() }
    } else {
        step(scan(evs, func, n - 1), evs[n - 1], func)
    }
}

pub open spec fn fn_findings(f: &FnDef) -> Seq<FindingView> {
    let evs = ev_block(&f.block, plain());
    scan(evs, f.name@, evs.len() as int).found
}

fn scan_fn(f: &FnDef) -> (r: Vec<Finding>)
    ensures views(r@) == fn_findings(f),
{
    let evs = block_events(&f.block, plain_walk());
    let mut temp_vars: Vec<String> = Vec::new();
    let mut out: Vec<Finding> = Vec::new();
    let mut j: usize = 0;
    assert(texts(temp_vars@) =~= Seq::empty());
    assert(views(out@) =~= Seq::empty());
    while j < evs.len()
        invariant
            j <= evs.len(),
            evs@ == ev_block(&f.block, plain()),
            scan(evs@, f.name@, j as int) == (TempScan { temp_vars: texts(temp_vars@), found: views(out@) }),
        decreases evs.len() - j,
    {
        match evs[j] {
            Event::Local(l) => match &l.init {
                Some(init) => {
                    if contains_temp_get(init) {
                        match bound_name_of_pat(&l.pat) {
                            Some(n) => {
                                let nc = n.clone();
                                proof { lemma_texts_push(temp_vars@, nc); }
                                temp_vars.push(nc);
                            }
                            None => {}
                        }
                    }
                }
                None => {}
            },
            Event::Expr(e) => match e {
                Expr::MethodCall { args, line, .. } => {
                    if is_verify(e) {
                        let direct = args.len() > 0 && expr_is_temporary_get(&args[0]);
                        let via_var = match first_arg_ident_of(args) {
                            Some(id) => string_in(&temp_vars, id.as_str()),
                            None => false,
                        };
                        if direct || via_var {
                            let mut d = String::from_str("Method `");
                            d.append(f.name.as_str());
                            d.append("` calls `env.crypto().ed25519_verify(...)` with a public key read from temporary storage. Temporary storage entries expire, which may cause verification to use a default key.");
                            let fd = new_finding(CHECK_NAME, Severity::High, *line, f.name.as_str(), d);
                            proof { lemma_views_push(out@, fd); }
                            out.push(fd);
                        }
                    }
                }
                _ => {}
            },
            _ => {}
        }
        j = j + 1;
    }
    out
}

impl Check for Ed25519KeyInTempCheck {
    open spec fn spec_name(&self) -> Seq<char> {
        CHECK_NAME@
    }

    open spec fn spec_run(&self, file: &SourceFile, source: Seq<char>) -> Seq<FindingView> {
        over_fns(contract_fns(file), |f: &FnDef| fn_findings(f), contract_fns(file).len() as int)
    }

    fn name(&self) -> (r: &str) {
        CHECK_NAME
    }

    fn run(&self, file: &SourceFile, source: &str) -> (r: Vec<Finding>) {
        let fns = contractimpl_functions(file);
        let mut out: Vec<Finding> = Vec::new();
        let mut i: usize = 0;
        while i < fns.len()
            invariant
                i <= fns.len(),
                fns@ == contract_fns(file),
                views(out@) == over_fns(contract_fns(file), |f: &FnDef| fn_findings(f), i as int),
            decreases fns.len() - i,
        {
            let mut found = scan_fn(fns[i]);
            proof { lemma_views_append(out@, found@); }
            out.append(&mut found);
            i = i + 1;
        }
        out
    }
}

} // verus!

verus! {

proof fn lemma_scan_tagged(evs: Seq<Event>, func: Seq<char>, n: int)
    ensures crate::finding::tagged(scan(evs, func, n).found, CHECK_NAME@, Severity::High),
    decreases n,
{
    if n > 0 && n <= evs.len() {
        lemma_scan_tagged(evs, func, n - 1);
        let prev = scan(evs, func, n - 1).found;
        let cur = scan(evs, func, n).found;
        assert forall|i: int| 0 <= i < cur.len() implies #[trigger] crate::finding::tag_ok(cur[i], CHECK_NAME@, Severity::High) by {
            if i < prev.len() {
                assert(cur[i] == prev[i]);
            }
        }
    }
}

proof fn lemma_fn_tagged(f: &FnDef)
    ensures crate::finding::tagged(fn_findings(f), CHECK_NAME@, Severity::High),
{
    let evs = ev_block(&f.block, plain());
    lemma_scan_tagged(evs, f.name@, evs.len() as int);
}

/// Every finding of this check names it, is of high severity, and has an
/// empty file path.
pub proof fn lemma_findings_tagged(file: &SourceFile, source: Seq<char>)
    ensures crate::finding::tagged(Ed25519KeyInTempCheck.spec_run(file, source), CHECK_NAME@, Severity::High),
{
    let fns = contract_fns(file);
    assert forall|k: int| 0 <= k < fns.len() implies crate::finding::tagged(fn_findings(fns[k]), CHECK_NAME@, Severity::High) by {
        lemma_fn_tagged(fns[k]);
    }
    crate::contract::lemma_over_fns_tagged(fns, |f: &FnDef| fn_findings(f), fns.len() as int, CHECK_NAME@, Severity::High);
}

} // verus!

verus! {

/// Only the functions of `#[contractimpl]` blocks are examined: one more
/// top-level item that is not such a block changes no finding.
pub proof fn lemma_ignores_other_items(a: &SourceFile, b: &SourceFile, source: Seq<char>)
    requires crate::contract::extended_by_other_item(a, b),
    ensures Ed25519KeyInTempCheck.spec_run(b, source) == Ed25519KeyInTempCheck.spec_run(a, source),
{
    crate::contract::lemma_contract_fns_extra_item(a, b);
}

} // verus!

verus! {

/// `e` is the plain identifier `env`.
pub open spec fn is_env_ident(e: &Expr) -> bool {
    e matches Expr::Path { path, .. } && path_is_ident(&path, "env"@)
}

/// `e` is `env.<m>()`.
pub open spec fn env_method(e: &Expr, m: Seq<char>) -> bool {
    e matches Expr::MethodCall { receiver, method, .. } && method@ == m && is_env_ident(&**receiver)
}

/// `e` is `env.storage().temporary().get(..)`.
pub open spec fn temp_storage_get(e: &Expr) -> bool {
    e matches Expr::MethodCall { receiver, method, .. } && method@ == "get"@
        && (**receiver matches Expr::MethodCall { receiver: r2, method: m2, .. } && m2@ == "temporary"@
            && env_method(&*r2, "storage"@))
}

/// `env.crypto().ed25519_verify(k, ..)` with `k` read straight from
/// temporary storage (`env.storage().temporary().get(..)`, possibly under
/// `&`) is reported at its line.
pub proof fn lemma_verify_with_temp_key_flagged(f: &FnDef, k: int)
    requires
        0 <= k < ev_block(&f.block, plain()).len(),
        ev_block(&f.block, plain())[k] matches Event::Expr(e)
            && e matches Expr::MethodCall { receiver, method, args, .. } && method@ == "ed25519_verify"@
            && env_method(&**receiver, "crypto"@) && args.len() > 0
            && (temp_storage_get(&args@[0]) || (args@[0] matches Expr::Reference { expr } && temp_storage_get(&*expr))),
    ensures
        fn_findings(f).contains(fv(CHECK_NAME@, Severity::High, ev_block(&f.block, plain())[k]->Expr_0->MethodCall_line,
            f.name@, description(f.name@))),
{
    let evs = ev_block(&f.block, plain());
    let x = fv(CHECK_NAME@, Severity::High, evs[k]->Expr_0->MethodCall_line, f.name@, description(f.name@));
    match evs[k] {
        Event::Expr(e) => match e {
            Expr::MethodCall { receiver, args, .. } => {
                match &**receiver {
                    Expr::MethodCall { receiver: r, .. } => {
                        assert(spec_is_env(&**r));
                    },
                    _ => {},
                }
                assert(spec_chain_is_crypto(&**receiver));
                assert(spec_is_verify(e));
                let a0 = &args@[0];
                let g = match a0 {
                    Expr::Reference { expr } => &**expr,
                    other => other,
                };
                match g {
                    Expr::MethodCall { receiver: t, .. } => {
                        match &**t {
                            Expr::MethodCall { receiver: s, .. } => {
                                match &**s {
                                    Expr::MethodCall { receiver: en, .. } => { assert(spec_is_env(&**en)); },
                                    _ => {},
                                }
                                assert(spec_chain_has_storage(&**s));
                            },
                            _ => {},
                        }
                        assert(spec_chain_has_temporary(&**t));
                    },
                    _ => {},
                }
                assert(spec_is_temporary_get(g));
                assert(spec_expr_is_temporary_get(g));
                assert(spec_expr_is_temporary_get(a0));
                let st = scan(evs, f.name@, k);
                assert(scan(evs, f.name@, k + 1).found == st.found.push(x));
                assert(scan(evs, f.name@, k + 1).found[st.found.len() as int] == x);
            },
            _ => {},
        },
        _ => {},
    }
    lemma_found_contains(evs, f.name@, k, evs.len() as int, x);
}

proof fn lemma_found_contains(evs: Seq<Event>, func: Seq<char>, k: int, n: int, x: FindingView)
    requires
        0 <= k < n <= evs.len(),
        scan(evs, func, k + 1).found.contains(x),
    ensures scan(evs, func, n).found.contains(x),
    decreases n,
{
    if n > k + 1 {
        lemma_found_contains(evs, func, k, n - 1, x);
        let prev = scan(evs, func, n - 1).found;
        let j = choose|j: int| 0 <= j < prev.len() && prev[j] == x;
        assert(scan(evs, func, n).found[j] == x);
    }
}

} // verus!
