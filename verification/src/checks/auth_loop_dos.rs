//! `require_auth()` called in a loop over a `Vec` read from storage.
//!
//! The cost of such a loop grows with the stored list; whoever can grow the
//! list can make every later call too expensive to run.

use vstd::prelude::*;
use crate::syntax::{Block, Expr, FnDef, SourceFile};
use crate::walk::{block_events, ev_block, plain, plain_walk, Event};
use crate::finding::{fv, lemma_views_append, lemma_views_push, new_finding, views, Check, Finding, FindingView, Severity};
use crate::contract::{contract_fns, contractimpl_functions, over_fns};
use crate::text::{lemma_texts_push, str_eq, string_in, texts};
use crate::checks::keys::{receiver_chain_contains, spec_receiver_chain_contains};
use crate::checks::admin_key_removal::{bound_name, bound_name_of_pat};
use crate::checks::unbounded_input_storage::{path_ident, spec_path_ident};
use crate::checks::unauth_address_in_struct::{is_auth_call, spec_is_auth_call};

verus! {

pub const CHECK_NAME: &'static str = "auth-loop-dos";

/// Flags `for` loops over storage-backed collections whose body calls
/// `require_auth`.
pub struct AuthLoopDosCheck;

/// A storage `get`/`get_unchecked`, possibly followed by `unwrap`,
/// `unwrap_or`, `unwrap_or_else`, `unwrap_or_default` or `expect` calls.
pub open spec fn spec_is_storage_get(e: &Expr) -> bool
    decreases e,
{
    match e {
        Expr::MethodCall { receiver, method, .. } => {
            let n = method@;
            if n == "get"@ || n == "get_unchecked"@ || n == "unwrap"@ || n == "unwrap_or"@ || n == "unwrap_or_else"@
                || n == "unwrap_or_default"@ || n == "expect"@ {
                ((n == "get"@ || n == "get_unchecked"@) && spec_receiver_chain_contains(receiver, "storage"@))
                    || spec_is_storage_get(receiver)
            } else {
                false
            }
        },
        _ => false,
    }
}

fn is_storage_get(e: &Expr) -> (r: bool)
    ensures r == spec_is_storage_get(e),
    decreases e,
{
    match e {
        Expr::MethodCall { receiver, method, .. } => {
            let n = method.as_str();
            let getter = str_eq(n, "get") || str_eq(n, "get_unchecked");
            if getter || str_eq(n, "unwrap") || str_eq(n, "unwrap_or") || str_eq(n, "unwrap_or_else")
                || str_eq(n, "unwrap_or_default") || str_eq(n, "expect") {
                (getter && receiver_chain_contains(receiver, "storage")) || is_storage_get(receiver)
            } else {
                false
            }
        }
        _ => false,
    }
}

/// The line of the first `require_auth` call among the events from `j` on.
pub open spec fn first_auth_line(evs: Seq<Event>, j: int) -> Option<usize>
    decreases evs.len() - j,
{
    if j < 0 || j >= evs.len() {
        None
    } else {
        match evs[j] {
            Event::Expr(e) => match e {
                Expr::MethodCall { line, .. } => if spec_is_auth_call(e) { Some(*line) } else { first_auth_line(evs, j + 1) },
                _ => first_auth_line(evs, j + 1),
            },
            _ => first_auth_line(evs, j + 1),
        }
    }
}

fn body_auth_line(body: &Block) -> (r: Option<usize>)
    ensures r == first_auth_line(ev_block(body, plain()), 0),
{
    let evs = block_events(body, plain_walk());
    let mut j: usize = 0;
    while j < evs.len()
        invariant
            j <= evs.len(),
            evs@ == ev_block(body, plain()),
            first_auth_line(evs@, 0) == first_auth_line(evs@, j as int),
        decreases evs.len() - j,
    {
        match evs[j] {
            Event::Expr(e) => match e {
                Expr::MethodCall { line, .. } => {
                    if is_auth_call(e) {
                        return Some(*line);
                    }
                }
                _ => {}
            },
            _ => {}
        }
        j = j + 1;
    }
    None
}

/// The loop's iterable comes from storage: directly, or through a variable
/// bound to a storage read.
pub open spec fn spec_iter_from_storage(e: &Expr, bindings: Seq<Seq<char>>) -> bool {
    spec_is_storage_get(e) || match e {
        Expr::Path { path, .. } => match spec_path_ident(path) {
            Some(id) => bindings.contains(id),
            None => false,
        },
        _ => false,
    }
}

pub open spec fn description(func: Seq<char>) -> Seq<char> {
    "Method `"@ + func + "` calls `require_auth()` inside a loop over a storage-backed Vec. The gas cost scales with the list size; an attacker who can append to the list can DoS the contract by making every call prohibitively expensive. Consider a single-signer or threshold pattern instead."@
}

/// Variables bound to storage reads, and the findings so far.
pub struct LoopScan {
    pub bindings: Seq<Seq<char>>,
    pub found: Seq<FindingView>,
}

pub open spec fn step(st: LoopScan, ev: Event, func: Seq<char>) -> LoopScan {
    match ev {
        Event::Local(l) => match &l.init {
            Some(init) =>
                if spec_is_storage_get(init) {
                    match bound_name(&l.pat) {
                        Some(n) => LoopScan { bindings: st.bindings.push(n), ..st },
                        None => st,
                    }
                } else {
                    st
                },
            None => st,
        },
        Event::Expr(e) => match e {
            Expr::ForLoop { expr, body, .. } =>
                if spec_iter_from_storage(expr, st.bindings) {
                    match first_auth_line(ev_block(body, plain()), 0) {
                        Some(line) => LoopScan { found: st.found.push(fv(CHECK_NAME@, Severity::Medium, line, func, description(func))), ..st },
                        None => st,
                    }
                } else {
                    st
                },
            _ => st,
        },
        _ => st,
    }
}

pub open spec fn scan(evs: Seq<Event>, func: Seq<char>, n: int) -> LoopScan
    decreases n,
{
    if n <= 0 || n > evs.len() {
        LoopScan { bindings: Seq::empty(), found: Seq::empty() }
    } else {
        step(scan(evs, func, n - 1), evs[n - 1], func)
    }
}

pub open spec fn fn_findings(f: &FnDef) -> Seq<FindingView> {
    let evs = ev_block(&f.block, plain());
    scan(evs, f.name@, evs.len() as int).found
}

fn scan_fn(f: &FnDef) -> (r: Vec<Finding>)
    ensures views(r@) == fn_findings(f),
{
    let evs = block_events(&f.block, plain_walk());
    let mut bindings: Vec<String> = Vec::new();
    let mut out: Vec<Finding> = Vec::new();
    let mut j: usize = 0;
    assert(texts(bindings@) =~= Seq::empty());
    assert(views(out@) =~= Seq::empty());
    while j < evs.len()
        invariant
            j <= evs.len(),
            evs@ == ev_block(&f.block, plain()),
            scan(evs@, f.name@, j as int) == (LoopScan { bindings: texts(bindings@), found: views(out@) }),
        decreases evs.len() - j,
    {
        match evs[j] {
            Event::Local(l) => match &l.init {
                Some(init) => {
                    if is_storage_get(init) {
                        match bound_name_of_pat(&l.pat) {
                            Some(n) => {
                                let nc = n.clone();
                                proof { lemma_texts_push(bindings@, nc); }
                                bindings.push(nc);
                            }
                            None => {}
                        }
                    }
                }
                None => {}
            },
            Event::Expr(e) => match e {
                Expr::ForLoop { expr, body, .. } => {
                    let from_storage = is_storage_get(expr) || match &**expr {
                        Expr::Path { path, .. } => match path_ident(path) {
                            Some(id) => string_in(&bindings, id.as_str()),
                            None => false,
                        },
                        _ => false,
                    };
                    if from_storage {
                        match body_auth_line(body) {
                            Some(line) => {
                                let mut d = String::from_str("Method `");
                                d.append(f.name.as_str());
                                d.append("` calls `require_auth()` inside a loop over a storage-backed Vec. The gas cost scales with the list size; an attacker who can append to the list can DoS the contract by making every call prohibitively expensive. Consider a single-signer or threshold pattern instead.");
                                let fd = new_finding(CHECK_NAME, Severity::Medium, line, f.name.as_str(), d);
                                proof { lemma_views_push(out@, fd); }
                                out.push(fd);
                            }
                            None => {}
                        }
                    }
                }
                _ => {}
            },
            _ => {}
        }
        j = j + 1;
    }
    out
}

impl Check for AuthLoopDosCheck {
    open spec fn spec_name(&self) -> Seq<char> {
        CHECK_NAME@
    }

    open spec fn spec_run(&self, file: &SourceFile, source: Seq<char>) -> Seq<FindingView> {
        over_fns(contract_fns(file), |f: &FnDef| fn_findings(f), contract_fns(file).len() as int)
    }

    fn name(&self) -> (r: &str) {
        CHECK_NAME
    }

    fn run(&self, file: &SourceFile, source: &str) -> (r: Vec<Finding>) {
        let fns = contractimpl_functions(file);
        let mut out: Vec<Finding> = Vec::new();
        let mut i: usize = 0;
        while i < fns.len()
            invariant
                i <= fns.len(),
                fns@ == contract_fns(file),
                views(out@) == over_fns(contract_fns(file), |f: &FnDef| fn_findings(f), i as int),
            decreases fns.len() - i,
        {
            let mut found = scan_fn(fns[i]);
            proof { lemma_views_append(out@, found@); }
            out.append(&mut found);
            i = i + 1;
        }
        out
    }
}

} // verus!

verus! {

proof fn lemma_scan_tagged(evs: Seq<Event>, func: Seq<char>, n: int)
    ensures crate::finding::tagged(scan(evs, func, n).found, CHECK_NAME@, Severity::Medium),
    decreases n,
{
    if n > 0 && n <= evs.len() {
        lemma_scan_tagged(evs, func, n - 1);
        let prev = scan(evs, func, n - 1).found;
        let cur = scan(evs, func, n).found;
        assert forall|i: int| 0 <= i < cur.len() implies #[trigger] crate::finding::tag_ok(cur[i], CHECK_NAME@, Severity::Medium) by {
            if i < prev.len() {
                assert(cur[i] == prev[i]);
            }
        }
    }
}

proof fn lemma_fn_tagged(f: &FnDef)
    ensures crate::finding::tagged(fn_findings(f), CHECK_NAME@, Severity::Medium),
{
    let evs = ev_block(&f.block, plain());
    lemma_scan_tagged(evs, f.name@, evs.len() as int);
}

/// Every finding of this check names it, is of medium severity, and has an
/// empty file path.
pub proof fn lemma_findings_tagged(file: &SourceFile, source: Seq<char>)
    ensures crate::finding::tagged(AuthLoopDosCheck.spec_run(file, source), CHECK_NAME@, Severity::Medium),
{
    let fns = contract_fns(file);
    assert forall|k: int| 0 <= k < fns.len() implies crate::finding::tagged(fn_findings(fns[k]), CHECK_NAME@, Severity::Medium) by {
        lemma_fn_tagged(fns[k]);
    }
    crate::contract::lemma_over_fns_tagged(fns, |f: &FnDef| fn_findings(f), fns.len() as int, CHECK_NAME@, Severity::Medium);
}

} // verus!

verus! {

/// Only the functions of `#[contractimpl]` blocks are examined: one more
/// top-level item that is not such a block changes no finding.
pub proof fn lemma_ignores_other_items(a: &SourceFile, b: &SourceFile, source: Seq<char>)
    requires crate::contract::extended_by_other_item(a, b),
    ensures AuthLoopDosCheck.spec_run(b, source) == AuthLoopDosCheck.spec_run(a, source),
{
    crate::contract::lemma_contract_fns_extra_item(a, b);
}

} // verus!

verus! {

/// `e` is `<chain>.get(..)` or `<chain>.get_unchecked(..)` with `storage`
/// called in its receiver chain.
pub open spec fn reads_storage(e: &Expr) -> bool {
    e matches Expr::MethodCall { receiver, method, .. } && (method@ == "get_unchecked"@ || method@ == "get"@)
        && spec_receiver_chain_contains(receiver, "storage"@)
}

/// `e` is a `require_auth` or `require_auth_for_args` call.
pub open spec fn authorizes(e: &Expr) -> bool {
    e matches Expr::MethodCall { method, .. } && (method@ == "require_auth_for_args"@ || method@ == "require_auth"@)
}

proof fn lemma_auth_line_found(evs: Seq<Event>, j: int, q: int)
    requires
        0 <= j <= q < evs.len(),
        evs[q] matches Event::Expr(e) && authorizes(e),
    ensures first_auth_line(evs, j) is Some,
    decreases q - j,
{
    if j < q {
        match evs[j] {
            Event::Expr(e) => match e {
                Expr::MethodCall { .. } => {
                    if !spec_is_auth_call(e) {
                        lemma_auth_line_found(evs, j + 1, q);
                    }
                },
                _ => { lemma_auth_line_found(evs, j + 1, q); },
            },
            _ => { lemma_auth_line_found(evs, j + 1, q); },
        }
    }
}

proof fn lemma_found_nonempty_stays(evs: Seq<Event>, func: Seq<char>, k: int, n: int)
    requires
        0 <= k < n <= evs.len(),
        scan(evs, func, k + 1).found.len() > 0,
    ensures scan(evs, func, n).found.len() > 0,
    decreases n,
{
    if n > k + 1 {
        lemma_found_nonempty_stays(evs, func, k, n - 1);
    }
}

/// A `for` loop directly over a storage read whose body calls
/// `require_auth` (or `require_auth_for_args`) gives the function a finding.
pub proof fn lemma_auth_in_storage_loop_flagged(f: &FnDef, k: int, q: int)
    requires
        0 <= k < ev_block(&f.block, plain()).len(),
        ev_block(&f.block, plain())[k] matches Event::Expr(e)
            && (*e matches Expr::ForLoop { expr, body, .. } && reads_storage(&*expr)
                && 0 <= q < ev_block(&body, plain()).len()
                && (ev_block(&body, plain())[q] matches Event::Expr(a) && authorizes(a))),
    ensures fn_findings(f).len() > 0,
{
    let evs = ev_block(&f.block, plain());
    match evs[k] {
        Event::Expr(e) => match e {
            Expr::ForLoop { expr, body, .. } => {
                assert(spec_is_storage_get(&**expr));
                lemma_auth_line_found(ev_block(body, plain()), 0, q);
                assert(scan(evs, f.name@, k + 1).found.len() > 0);
            },
            _ => {},
        },
        _ => {},
    }
    if k + 1 < evs.len() {
        lemma_found_nonempty_stays(evs, f.name@, k, evs.len() as int);
    }
}

} // verus!
