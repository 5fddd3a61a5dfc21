//! A token client's `burn(from, ..)` called without `require_auth` on `from`.

use vstd::prelude::*;
use crate::syntax::{Expr, FnArg, FnDef, Pat, SourceFile, Ty};
use crate::walk::{block_events, ev_block, plain, plain_walk, Event};
use crate::finding::{fv, lemma_views_append, lemma_views_push, new_finding, views, Check, Finding, FindingView, Severity};
use crate::contract::{contract_fns, contractimpl_functions, over_fns};
use crate::text::{lemma_texts_push, str_eq, string_in, texts};
use crate::checks::unbounded_input_storage::{path_ident, spec_path_ident};

verus! {

pub const CHECK_NAME: &'static str = "token-burn-auth";

/// Flags `.burn(from, amount)` calls on a token client in `#[contractimpl]`
/// functions where `from` is a plain identifier that no preceding
/// `require_auth` in the function covers.
pub struct TokenBurnAuthCheck;

/// A token client receiver: a method chain (that ends in a field or path, or
/// calls `client()`), a field access, or a path.
pub open spec fn spec_is_token_client(e: &Expr) -> bool
    decreases e,
{
    match e {
        Expr::MethodCall { receiver, method, .. } => method@ == "client"@ || spec_is_token_client(receiver),
        Expr::Field { .. } => true,
        Expr::Path { .. } => true,
        _ => false,
    }
}

fn is_token_client(e: &Expr) -> (r: bool)
    ensures r == spec_is_token_client(e),
    decreases e,
{
    match e {
        Expr::MethodCall { receiver, method, .. } => str_eq(method.as_str(), "client") || is_token_client(receiver),
        Expr::Field { .. } => true,
        Expr::Path { .. } => true,
        _ => false,
    }
}

/// The identifier an expression is, through `&`.
pub open spec fn spec_param_name(e: &Expr) -> Option<Seq<char>>
    decreases e,
{
    match e {
        Expr::Path { path, .. } => spec_path_ident(path),
        Expr::Reference { expr } => spec_param_name(expr),
        _ => None,
    }
}

fn param_name(e: &Expr) -> (r: Option<&String>)
    ensures
        r is Some <==> spec_param_name(e) is Some,
        r is Some ==> r.unwrap()@ == spec_param_name(e).unwrap(),
    decreases e,
{
    match e {
        Expr::Path { path, .. } => path_ident(path),
        Expr::Reference { expr } => param_name(expr),
        _ => None,
    }
}

/// The type is the plain identifier `Address`.
pub open spec fn spec_is_address_type(t: &Ty) -> bool {
    match t {
        Ty::Path { path } => spec_path_ident(path) == Some("Address"@),
        _ => false,
    }
}

fn is_address_type(t: &Ty) -> (r: bool)
    ensures r == spec_is_address_type(t),
{
    match t {
        Ty::Path { path } => match path_ident(path) {
            Some(id) => str_eq(id.as_str(), "Address"),
            None => false,
        },
        _ => false,
    }
}

/// The names of the first `n` parameters that are identifiers typed `Address`.
pub open spec fn address_params(inputs: Seq<FnArg>, n: int) -> Seq<Seq<char>>
    decreases n,
{
    if n <= 0 || n > inputs.len() {
        Seq::empty()
    } else {
        address_params(inputs, n - 1) + match &inputs[n - 1] {
            FnArg::Typed { pat, ty } =>
                if spec_is_address_type(ty) {
                    match pat {
                        Pat::Ident { name, .. } => seq![name@],
                        _ => Seq::empty(),
                    }
                } else {
                    Seq::empty()
                },
            _ => Seq::empty(),
        }
    }
}

fn collect_address_params(inputs: &Vec<FnArg>) -> (r: Vec<String>)
    ensures texts(r@) == address_params(inputs@, inputs.len() as int),
{
    let mut out: Vec<String> = Vec::new();
    let mut i: usize = 0;
    while i < inputs.len()
        invariant
            i <= inputs.len(),
            texts(out@) == address_params(inputs@, i as int),
        decreases inputs.len() - i,
    {
        match &inputs[i] {
            FnArg::Typed { pat, ty } => {
                if is_address_type(ty) {
                    match pat {
                        Pat::Ident { name, .. } => {
                            let n = name.clone();
                            proof { lemma_texts_push(out@, n); }
                            out.push(n);
                        }
                        _ => {}
                    }
                }
            }
            _ => {}
        }
        i = i + 1;
        assert(texts(out@) =~= address_params(inputs@, i as int));
    }
    out
}

/// The names that one call authorizes: the receiver of `x.require_auth()`,
/// and every `Address` parameter for `require_auth_for_args`.
pub open spec fn auth_added(e: &Expr, params: Seq<Seq<char>>) -> Seq<Seq<char>> {
    match e {
        Expr::MethodCall { receiver, method, .. } =>
            if method@ == "require_auth"@ {
                match spec_param_name(receiver) {
                    Some(p) => seq![p],
                    None => Seq::empty(),
                }
            } else if method@ == "require_auth_for_args"@ {
                params
            } else {
                Seq::empty()
            },
        _ => Seq::empty(),
    }
}

/// For `client.burn(from, ..)` on a token client with an identifier `from`:
/// that name and the call's line.
pub open spec fn burn_call(e: &Expr) -> Option<(Seq<char>, usize)> {
    match e {
        Expr::MethodCall { receiver, method, args, line } =>
            if method@ == "burn"@ && spec_is_token_client(receiver) && args.len() > 0 {
                match spec_param_name(&args@[0]) {
                    Some(p) => Some((p, *line)),
                    None => None,
                }
            } else {
                None
            },
        _ => None,
    }
}

pub open spec fn description(func: Seq<char>, from: Seq<char>) -> Seq<char> {
    "Method `"@ + func + "` calls `burn("@ + from
        + ", ...)` without prior `require_auth()` on the `from` address. This allows burning tokens from arbitrary addresses without authorization."@
}

/// The names authorized so far, and the findings so far.
pub struct BurnScan {
    pub auth: Seq<Seq<char>>,
    pub found: Seq<FindingView>,
}

/// One event of the walk: a call first adds what it authorizes; a burn whose
/// `from` is not authorized by then is a finding.
pub open spec fn step(st: BurnScan, ev: Event, params: Seq<Seq<char>>, func: Seq<char>) -> BurnScan {
    match ev {
        Event::Expr(e) => {
            let auth = st.auth + auth_added(e, params);
            match burn_call(e) {
                Some((p, line)) =>
                    if auth.contains(p) {
                        BurnScan { auth, found: st.found }
                    } else {
                        BurnScan { auth, found: st.found.push(fv(CHECK_NAME@, Severity::High, line, func, description(func, p))) }
                    },
                None => BurnScan { auth, found: st.found },
            }
        },
        _ => st,
    }
}

pub open spec fn scan(evs: Seq<Event>, params: Seq<Seq<char>>, func: Seq<char>, n: int) -> BurnScan
    decreases n,
{
    if n <= 0 || n > evs.len() {
        BurnScan { auth: Seq::empty(), found: Seq::empty() }
    } else {
        step(scan(evs, params, func, n - 1), evs[n - 1], params, func)
    }
}

pub open spec fn fn_findings(f: &FnDef) -> Seq<FindingView> {
    let evs = ev_block(&f.block, plain());
    scan(evs, address_params(f.inputs@, f.inputs.len() as int), f.name@, evs.len() as int).found
}

fn scan_fn(f: &FnDef) -> (r: Vec<Finding>)
    ensures views(r@) == fn_findings(f),
{
    let params = collect_address_params(&f.inputs);
    let ghost pv = texts(params@);
    let evs = block_events(&f.block, plain_walk());
    let mut auth: Vec<String> = Vec::new();
    let mut out: Vec<Finding> = Vec::new();
    let mut j: usize = 0;
    assert(texts(auth@) =~= Seq::empty());
    assert(views(out@) =~= Seq::empty());
    while j < evs.len()
        invariant
            j <= evs.len(),
            evs@ == ev_block(&f.block, plain()),
            pv == texts(params@),
            pv == address_params(f.inputs@, f.inputs.len() as int),
            scan(evs@, pv, f.name@, j as int) == (BurnScan { auth: texts(auth@), found: views(out@) }),
        decreases evs.len() - j,
    {
        let ghost av = texts(auth@);
        match evs[j] {
            Event::Expr(e) => match e {
                Expr::MethodCall { receiver, method, args, line } => {
                    if str_eq(method.as_str(), "require_auth") {
                        match param_name(receiver) {
                            Some(p) => {
                                let pc = p.clone();
                                proof { lemma_texts_push(auth@, pc); }
                                auth.push(pc);
                            }
                            None => {}
                        }
                        assert(texts(auth@) =~= av + auth_added(e, pv));
                    } else if str_eq(method.as_str(), "require_auth_for_args") {
                        let mut k: usize = 0;
                        while k < params.len()
                            invariant
                                k <= params.len(),
                                pv == texts(params@),
                                texts(auth@) == av + pv.take(k as int),
                            decreases params.len() - k,
                        {
                            let pc = params[k].clone();
                            proof { lemma_texts_push(auth@, pc); }
                            auth.push(pc);
                            k = k + 1;
                            assert(texts(auth@) =~= av + pv.take(k as int));
                        }
                        assert(pv.take(params.len() as int) =~= pv);
                    } else {
                        assert(texts(auth@) =~= av + auth_added(e, pv));
                    }
                    if str_eq(method.as_str(), "burn") && is_token_client(receiver) && args.len() > 0 {
                        match param_name(&args[0]) {
                            Some(p) => {
                                if !string_in(&auth, p.as_str()) {
                                    let mut d = String::from_str("Method `");
                                    d.append(f.name.as_str());
                                    d.append("` calls `burn(");
                                    d.append(p.as_str());
                                    d.append(", ...)` without prior `require_auth()` on the `from` address. This allows burning tokens from arbitrary addresses without authorization.");
                                    let fd = new_finding(CHECK_NAME, Severity::High, *line, f.name.as_str(), d);
                                    proof { lemma_views_push(out@, fd); }
                                    out.push(fd);
                                }
                            }
                            None => {}
                        }
                    }
                }
                _ => {
                    assert(texts(auth@) =~= av + auth_added(e, pv));
                }
            },
            _ => {}
        }
        j = j + 1;
    }
    out
}

impl Check for TokenBurnAuthCheck {
    open spec fn spec_name(&self) -> Seq<char> {
        CHECK_NAME@
    }

    open spec fn spec_run(&self, file: &SourceFile, source: Seq<char>) -> Seq<FindingView> {
        over_fns(contract_fns(file), |f: &FnDef| fn_findings(f), contract_fns(file).len() as int)
    }

    fn name(&self) -> (r: &str) {
        CHECK_NAME
    }

    fn run(&self, file: &SourceFile, source: &str) -> (r: Vec<Finding>) {
        let fns = contractimpl_functions(file);
        let mut out: Vec<Finding> = Vec::new();
        let mut i: usize = 0;
        while i < fns.len()
            invariant
                i <= fns.len(),
                fns@ == contract_fns(file),
                views(out@) == over_fns(contract_fns(file), |f: &FnDef| fn_findings(f), i as int),
            decreases fns.len() - i,
        {
            let mut found = scan_fn(fns[i]);
            proof { lemma_views_append(out@, found@); }
            out.append(&mut found);
            i = i + 1;
        }
        out
    }
}

} // verus!

verus! {

proof fn lemma_scan_tagged(evs: Seq<Event>, params: Seq<Seq<char>>, func: Seq<char>, n: int)
    ensures crate::finding::tagged(scan(evs, params, func, n).found, CHECK_NAME@, Severity::High),
    decreases n,
{
    if n > 0 && n <= evs.len() {
        lemma_scan_tagged(evs, params, func, n - 1);
        let prev = scan(evs, params, func, n - 1).found;
        let cur = scan(evs, params, func, n).found;
        assert forall|i: int| 0 <= i < cur.len() implies #[trigger] crate::finding::tag_ok(cur[i], CHECK_NAME@, Severity::High) by {
            if i < prev.len() {
                assert(cur[i] == prev[i]);
            }
        }
    }
}

proof fn lemma_fn_tagged(f: &FnDef)
    ensures crate::finding::tagged(fn_findings(f), CHECK_NAME@, Severity::High),
{
    let evs = ev_block(&f.block, plain());
    lemma_scan_tagged(evs, address_params(f.inputs@, f.inputs.len() as int), f.name@, evs.len() as int);
}

/// Every finding of this check names it, is of high severity, and has an
/// empty file path.
pub proof fn lemma_findings_tagged(file: &SourceFile, source: Seq<char>)
    ensures crate::finding::tagged(TokenBurnAuthCheck.spec_run(file, source), CHECK_NAME@, Severity::High),
{
    let fns = contract_fns(file);
    assert forall|k: int| 0 <= k < fns.len() implies crate::finding::tagged(fn_findings(fns[k]), CHECK_NAME@, Severity::High) by {
        lemma_fn_tagged(fns[k]);
    }
    crate::contract::lemma_over_fns_tagged(fns, |f: &FnDef| fn_findings(f), fns.len() as int, CHECK_NAME@, Severity::High);
}

} // verus!

verus! {

/// Only the functions of `#[contractimpl]` blocks are examined: one more
/// top-level item that is not such a block changes no finding.
pub proof fn lemma_ignores_other_items(a: &SourceFile, b: &SourceFile, source: Seq<char>)
    requires crate::contract::extended_by_other_item(a, b),
    ensures TokenBurnAuthCheck.spec_run(b, source) == TokenBurnAuthCheck.spec_run(a, source),
{
    crate::contract::lemma_contract_fns_extra_item(a, b);
}

} // verus!

verus! {

/// `e` is `x.require_auth()` (or on `&x`) for the identifier `p`.
pub open spec fn requires_auth_of(e: &Expr, p: Seq<char>) -> bool {
    e matches Expr::MethodCall { receiver, method, .. } && method@ == "require_auth"@
        && spec_param_name(receiver) == Some(p)
}

/// `e` is some `require_auth_for_args(..)` call.
pub open spec fn requires_auth_for_args(e: &Expr) -> bool {
    e matches Expr::MethodCall { method, .. } && method@ == "require_auth_for_args"@
}

/// `e` is `<client>.burn(from, ..)` on a token client (a path, a field, or a
/// method chain ending in one or calling `client()`), with `from` naming `p`.
pub open spec fn burns_from(e: &Expr, p: Seq<char>) -> bool {
    e matches Expr::MethodCall { receiver, method, args, .. } && method@ == "burn"@
        && spec_is_token_client(receiver) && args.len() > 0 && spec_param_name(&args@[0]) == Some(p)
}

proof fn lemma_not_authorized_yet(evs: Seq<Event>, params: Seq<Seq<char>>, func: Seq<char>, p: Seq<char>, k: int, n: int)
    requires
        0 <= n <= k < evs.len(),
        forall|j: int| 0 <= j < k ==> !(#[trigger] evs[j] matches Event::Expr(e) && (requires_auth_of(e, p) || requires_auth_for_args(e))),
    ensures !scan(evs, params, func, n).auth.contains(p),
    decreases n,
{
    if n > 0 {
        lemma_not_authorized_yet(evs, params, func, p, k, n - 1);
        let st = scan(evs, params, func, n - 1);
        match evs[n - 1] {
            Event::Expr(e) => {
                assert(!(requires_auth_of(e, p) || requires_auth_for_args(e)));
                let added = auth_added(e, params);
                assert(!added.contains(p));
                let auth = st.auth + added;
                assert(!auth.contains(p)) by {
                    if auth.contains(p) {
                        let q = choose|q: int| 0 <= q < auth.len() && auth[q] == p;
                        if q < st.auth.len() {
                            assert(st.auth[q] == p);
                        } else {
                            assert(added[q - st.auth.len()] == p);
                        }
                    }
                }
            },
            _ => {},
        }
    }
}

proof fn lemma_found_stays(evs: Seq<Event>, params: Seq<Seq<char>>, func: Seq<char>, k: int, n: int, x: FindingView)
    requires
        0 <= k < n <= evs.len(),
        scan(evs, params, func, k + 1).found.contains(x),
    ensures scan(evs, params, func, n).found.contains(x),
    decreases n,
{
    if n > k + 1 {
        lemma_found_stays(evs, params, func, k, n - 1, x);
        let prev = scan(evs, params, func, n - 1).found;
        let j = choose|j: int| 0 <= j < prev.len() && prev[j] == x;
        assert(scan(evs, params, func, n).found[j] == x);
    }
}

/// A burn from `p` on a token client, with no `p.require_auth()` and no
/// `require_auth_for_args` before it, is reported at its line; an
/// authorization after the burn does not help.
pub proof fn lemma_unauthorized_burn_flagged(f: &FnDef, k: int, p: Seq<char>)
    requires
        0 <= k < ev_block(&f.block, plain()).len(),
        ev_block(&f.block, plain())[k] matches Event::Expr(e) && burns_from(e, p),
        forall|j: int| 0 <= j < k ==> !(#[trigger] ev_block(&f.block, plain())[j] matches Event::Expr(e)
            && (requires_auth_of(e, p) || requires_auth_for_args(e))),
    ensures
        fn_findings(f).contains(fv(CHECK_NAME@, Severity::High, ev_block(&f.block, plain())[k]->Expr_0->MethodCall_line,
            f.name@, description(f.name@, p))),
{
    let evs = ev_block(&f.block, plain());
    let params = address_params(f.inputs@, f.inputs.len() as int);
    lemma_not_authorized_yet(evs, params, f.name@, p, k, k);
    let st = scan(evs, params, f.name@, k);
    let x = fv(CHECK_NAME@, Severity::High, evs[k]->Expr_0->MethodCall_line, f.name@, description(f.name@, p));
    match evs[k] {
        Event::Expr(e) => {
            reveal_strlit("burn");
            reveal_strlit("require_auth");
            reveal_strlit("require_auth_for_args");
            assert("burn"@ != "require_auth"@) by { assert("burn"@.len() != "require_auth"@.len()); }
            assert("burn"@ != "require_auth_for_args"@) by { assert("burn"@.len() != "require_auth_for_args"@.len()); }
            assert(auth_added(e, params) =~= Seq::<Seq<char>>::empty());
            assert(st.auth + auth_added(e, params) =~= st.auth);
            assert(burn_call(e) == Some((p, evs[k]->Expr_0->MethodCall_line)));
            assert(scan(evs, params, f.name@, k + 1).found == st.found.push(x));
            assert(scan(evs, params, f.name@, k + 1).found[st.found.len() as int] == x);
        },
        _ => {},
    }
    if k + 1 < evs.len() {
        lemma_found_stays(evs, params, f.name@, k, evs.len() as int, x);
    }
}

} // verus!
