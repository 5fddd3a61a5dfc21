//! `env.authorize_as_current_contract(..)` without a prior `require_auth`.

use vstd::prelude::*;
use crate::syntax::{Expr, FnDef, SourceFile};
use crate::walk::{block_events, ev_block, expr_at, plain, plain_walk, Event};
use crate::finding::{fv, lemma_views_append, new_finding, views, Check, Finding, FindingView, Severity};
use crate::contract::{contract_fns, contractimpl_functions, over_fns, path_ident_is, path_is_ident};
use crate::text::str_eq;

verus! {

pub const CHECK_NAME: &'static str = "authorize-as-contract";

/// Detects `env.authorize_as_current_contract(...)` calls in `#[contractimpl]`
/// functions without a preceding `require_auth` or `require_auth_for_args` call
/// on `env` in the same function body.
pub struct AuthorizeAsContractCheck;

/// `e` is the bare path `env`.
pub open spec fn is_env(e: &Expr) -> bool {
    match e {
        Expr::Path { path, .. } => path_is_ident(path, "env"@),
        _ => false,
    }
}

/// `env.require_auth(..)` or `env.require_auth_for_args(..)`.
pub open spec fn spec_is_require_auth_call(e: &Expr) -> bool {
    match e {
        Expr::MethodCall { receiver, method, .. } =>
            (method@ == "require_auth"@ || method@ == "require_auth_for_args"@) && is_env(receiver),
        _ => false,
    }
}

/// `env.authorize_as_current_contract(..)`.
pub open spec fn spec_is_authorize_call(e: &Expr) -> bool {
    match e {
        Expr::MethodCall { receiver, method, .. } => method@ == "authorize_as_current_contract"@ && is_env(receiver),
        _ => false,
    }
}

fn receiver_is_env(e: &Expr) -> (r: bool)
    ensures r == is_env(e),
{
    match e {
        Expr::Path { path, .. } => path_ident_is(path, "env"),
        _ => false,
    }
}

fn is_require_auth_call(e: &Expr) -> (r: bool)
    ensures r == spec_is_require_auth_call(e),
{
    match e {
        Expr::MethodCall { receiver, method, .. } =>
            (str_eq(method.as_str(), "require_auth") || str_eq(method.as_str(), "require_auth_for_args")) && receiver_is_env(receiver),
        _ => false,
    }
}

fn is_authorize_current_contract_call(e: &Expr) -> (r: bool)
    ensures r == spec_is_authorize_call(e),
{
    match e {
        Expr::MethodCall { receiver, method, .. } => str_eq(method.as_str(), "authorize_as_current_contract") && receiver_is_env(receiver),
        _ => false,
    }
}

pub open spec fn description(func: Seq<char>) -> Seq<char> {
    "Function `"@ + func
        + "` calls `env.authorize_as_current_contract(...)` without prior `require_auth()` or `require_auth_for_args()`. This may allow unauthorized callers to escalate contract authorization."@
}

/// Whether an authorization call with no `require_auth` before it was met,
/// after the first `n` events.
pub open spec fn unguarded(evs: Seq<Event>, n: int) -> bool
    decreases n,
{
    if n <= 0 || n > evs.len() {
        false
    } else {
        unguarded(evs, n - 1) || match evs[n - 1] {
            Event::Expr(e) => spec_is_authorize_call(e) && !required_before(evs, n - 1),
            _ => false,
        }
    }
}

/// Some `require_auth`/`require_auth_for_args` call on `env` is among the
/// first `n` events.
pub open spec fn required_before(evs: Seq<Event>, n: int) -> bool {
    exists|k: int| 0 <= k < n && k < evs.len() && #[trigger] expr_at(evs, k, require_p())
}

pub open spec fn require_p<'a>() -> spec_fn(&'a Expr) -> bool {
    |e: &'a Expr| spec_is_require_auth_call(e)
}

/// A finding at the function's name when it authorizes as the current
/// contract at a point that no `require_auth`/`require_auth_for_args` call on
/// `env` precedes.
pub open spec fn fn_findings(f: &FnDef) -> Seq<FindingView> {
    let evs = ev_block(&f.block, plain());
    if unguarded(evs, evs.len() as int) {
        seq![fv(CHECK_NAME@, Severity::High, f.name_line, f.name@, description(f.name@))]
    } else {
        Seq::empty()
    }
}

fn scan_fn(f: &FnDef) -> (r: Vec<Finding>)
    ensures views(r@) == fn_findings(f),
{
    let evs = block_events(&f.block, plain_walk());
    let ghost pr = require_p();
    let mut flagged = false;
    let mut require_auth_found = false;
    let mut j: usize = 0;
    while j < evs.len()
        invariant
            j <= evs.len(),
            pr == require_p(),
            flagged == unguarded(evs@, j as int),
            require_auth_found == required_before(evs@, j as int),
        decreases evs.len() - j,
    {
        let ghost r0 = require_auth_found;
        match evs[j] {
            Event::Expr(e) => {
                if is_authorize_current_contract_call(e) && !require_auth_found {
                    flagged = true;
                }
                if is_require_auth_call(e) {
                    require_auth_found = true;
                }
            }
            _ => {}
        }
        proof {
            if expr_at(evs@, j as int, pr) {
                assert(0 <= j < j + 1 && j < evs@.len() && expr_at(evs@, j as int, pr));
            }
            if required_before(evs@, j + 1) {
                let k = choose|k: int| 0 <= k < j + 1 && k < evs@.len() && #[trigger] expr_at(evs@, k, pr);
                if k < j {
                    assert(0 <= k < j && k < evs@.len() && expr_at(evs@, k, pr));
                }
            }
        }
        assert(require_auth_found == (r0 || expr_at(evs@, j as int, pr)));
        j = j + 1;
    }
    let mut out: Vec<Finding> = Vec::new();
    if flagged {
        let mut d = String::from_str("Function `");
        d.append(f.name.as_str());
        d.append("` calls `env.authorize_as_current_contract(...)` without prior `require_auth()` or `require_auth_for_args()`. This may allow unauthorized callers to escalate contract authorization.");
        out.push(new_finding(CHECK_NAME, Severity::High, f.name_line, f.name.as_str(), d));
        assert(views(out@) =~= fn_findings(f));
    } else {
        assert(views(out@) =~= fn_findings(f));
    }
    out
}

impl Check for AuthorizeAsContractCheck {
    open spec fn spec_name(&self) -> Seq<char> {
        CHECK_NAME@
    }

    open spec fn spec_run(&self, file: &SourceFile, source: Seq<char>) -> Seq<FindingView> {
        over_fns(contract_fns(file), |f: &FnDef| fn_findings(f), contract_fns(file).len() as int)
    }

    fn name(&self) -> (r: &str) {
        CHECK_NAME
    }

    fn run(&self, file: &SourceFile, source: &str) -> (r: Vec<Finding>) {
        let fns = contractimpl_functions(file);
        let mut out: Vec<Finding> = Vec::new();
        let mut i: usize = 0;
        while i < fns.len()
            invariant
                i <= fns.len(),
                fns@ == contract_fns(file),
                views(out@) == over_fns(contract_fns(file), |f: &FnDef| fn_findings(f), i as int),
            decreases fns.len() - i,
        {
            let mut found = scan_fn(fns[i]);
            proof { lemma_views_append(out@, found@); }
            out.append(&mut found);
            i = i + 1;
        }
        out
    }
}

} // verus!

verus! {

/// Every finding of this check names it, is of high severity, and has an
/// empty file path.
pub proof fn lemma_findings_tagged(file: &SourceFile, source: Seq<char>)
    ensures crate::finding::tagged(AuthorizeAsContractCheck.spec_run(file, source), CHECK_NAME@, Severity::High),
{
    let fns = contract_fns(file);
    crate::contract::lemma_over_fns_tagged(fns, |f: &FnDef| fn_findings(f), fns.len() as int, CHECK_NAME@, Severity::High);
}

} // verus!

verus! {

/// Only the functions of `#[contractimpl]` blocks are examined: one more
/// top-level item that is not such a block changes no finding.
pub proof fn lemma_ignores_other_items(a: &SourceFile, b: &SourceFile, source: Seq<char>)
    requires crate::contract::extended_by_other_item(a, b),
    ensures AuthorizeAsContractCheck.spec_run(b, source) == AuthorizeAsContractCheck.spec_run(a, source),
{
    crate::contract::lemma_contract_fns_extra_item(a, b);
}

} // verus!

verus! {

/// `e` is `env.<m>(..)` with the plain identifier `env` as receiver.
pub open spec fn env_call(e: &Expr, m: Seq<char>) -> bool {
    e matches Expr::MethodCall { receiver, method, .. } && method@ == m
        && (**receiver matches Expr::Path { path, .. } && !path.leading_colon && path.segments.len() == 1
            && !path.segments@[0].has_args && path.segments@[0].ident@ == "env"@)
}

proof fn lemma_unguarded_stays(evs: Seq<Event>, k: int, n: int)
    requires
        0 <= k < n <= evs.len(),
        unguarded(evs, k + 1),
    ensures unguarded(evs, n),
    decreases n,
{
    if n > k + 1 {
        lemma_unguarded_stays(evs, k, n - 1);
    }
}

/// `env.authorize_as_current_contract(..)` with no `env.require_auth(..)` or
/// `env.require_auth_for_args(..)` before it gives one finding, at the
/// function's name; a `require_auth` after it does not help.
pub proof fn lemma_unguarded_authorize_flagged(f: &FnDef, k: int)
    requires
        0 <= k < ev_block(&f.block, plain()).len(),
        ev_block(&f.block, plain())[k] matches Event::Expr(e) && env_call(e, "authorize_as_current_contract"@),
        forall|j: int| 0 <= j < k ==> !(#[trigger] ev_block(&f.block, plain())[j] matches Event::Expr(e)
            && (env_call(e, "require_auth_for_args"@) || env_call(e, "require_auth"@))),
    ensures fn_findings(f) == seq![fv(CHECK_NAME@, Severity::High, f.name_line, f.name@, description(f.name@))],
{
    let evs = ev_block(&f.block, plain());
    assert(!required_before(evs, k)) by {
        if required_before(evs, k) {
            let j = choose|j: int| 0 <= j < k && j < evs.len() && #[trigger] expr_at(evs, j, require_p());
            assert(!(evs[j] matches Event::Expr(e)
                && (env_call(e, "require_auth_for_args"@) || env_call(e, "require_auth"@))));
        }
    }
    assert(unguarded(evs, k + 1));
    lemma_unguarded_stays(evs, k, evs.len() as int);
}

proof fn lemma_guarded_prefix(evs: Seq<Event>, r: int, n: int)
    requires
        0 <= r < evs.len(),
        0 <= n <= evs.len(),
        evs[r] matches Event::Expr(e) && (env_call(e, "require_auth_for_args"@) || env_call(e, "require_auth"@)),
        forall|k: int| 0 <= k < evs.len() && (#[trigger] evs[k] matches Event::Expr(e) && env_call(e, "authorize_as_current_contract"@)) ==> r < k,
    ensures !unguarded(evs, n),
    decreases n,
{
    if n > 0 {
        lemma_guarded_prefix(evs, r, n - 1);
        match evs[n - 1] {
            Event::Expr(e) => {
                if spec_is_authorize_call(e) {
                    assert(env_call(e, "authorize_as_current_contract"@));
                    assert(expr_at(evs, r, require_p()));
                    assert(required_before(evs, n - 1));
                }
            },
            _ => {},
        }
    }
}

/// When an `env.require_auth(..)` (or `require_auth_for_args`) comes before
/// every `env.authorize_as_current_contract(..)`, there is no finding.
pub proof fn lemma_auth_first_passes(f: &FnDef, r: int)
    requires
        0 <= r < ev_block(&f.block, plain()).len(),
        ev_block(&f.block, plain())[r] matches Event::Expr(e)
            && (env_call(e, "require_auth_for_args"@) || env_call(e, "require_auth"@)),
        forall|k: int| 0 <= k < ev_block(&f.block, plain()).len()
            && (#[trigger] ev_block(&f.block, plain())[k] matches Event::Expr(e) && env_call(e, "authorize_as_current_contract"@)) ==> r < k,
    ensures fn_findings(f) == Seq::<FindingView>::empty(),
{
    let evs = ev_block(&f.block, plain());
    lemma_guarded_prefix(evs, r, evs.len() as int);
}

} // verus!
