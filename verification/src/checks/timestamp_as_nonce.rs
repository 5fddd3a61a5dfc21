//! `env.ledger().timestamp()` used as a nonce or unique identifier.
//!
//! The ledger timestamp is the close time of the current ledger, identical for
//! every transaction in that ledger, so it cannot tell transactions apart.

use vstd::prelude::*;
use crate::syntax::{Expr, FnDef, SourceFile};
use crate::walk::{block_events, ev_block, ev_expr, expr_at, expr_events, lemma_some_expr_step, plain, plain_walk, some_expr, Event};
use crate::finding::{fv, lemma_views_append, new_finding, views, Check, Finding, FindingView, Severity};
use crate::contract::{contract_fns, contractimpl_functions, over_fns, path_ident_is, path_is_ident};
use crate::text::{contains, lower_text, seq_contains, str_eq, to_lower};
use crate::checks::keys::{receiver_chain_contains, spec_receiver_chain_contains};
use crate::checks::admin_key_removal::{bound_name, bound_name_of_pat};

verus! {

pub const CHECK_NAME: &'static str = "timestamp-as-nonce";

/// Flags `#[contractimpl]` functions that bind a ledger timestamp to a
/// nonce-like name, or write a value built from it to storage.
pub struct TimestampAsNonceCheck;

/// Exactly `env.ledger().timestamp()`.
pub open spec fn spec_is_ledger_timestamp_call(e: &Expr) -> bool {
    match e {
        Expr::MethodCall { receiver, method, .. } => method@ == "timestamp"@ && match &**receiver {
            Expr::MethodCall { receiver: base, method: inner, .. } => inner@ == "ledger"@ && match &**base {
                Expr::Path { path, .. } => path_is_ident(path, "env"@),
                _ => false,
            },
            _ => false,
        },
        _ => false,
    }
}

fn is_ledger_timestamp_call(e: &Expr) -> (r: bool)
    ensures r == spec_is_ledger_timestamp_call(e),
{
    match e {
        Expr::MethodCall { receiver, method, .. } => {
            if !str_eq(method.as_str(), "timestamp") {
                return false;
            }
            match &**receiver {
                Expr::MethodCall { receiver: base, method: inner, .. } => {
                    if !str_eq(inner.as_str(), "ledger") {
                        return false;
                    }
                    match &**base {
                        Expr::Path { path, .. } => path_ident_is(path, "env"),
                        _ => false,
                    }
                }
                _ => false,
            }
        }
        _ => false,
    }
}

pub open spec fn ts_p<'a>() -> spec_fn(&'a Expr) -> bool {
    |e: &Expr| spec_is_ledger_timestamp_call(e)
}

/// `e` holds an `env.ledger().timestamp()` call anywhere inside it.
pub open spec fn spec_expr_contains_timestamp_chain(e: &Expr) -> bool {
    some_expr(ev_expr(e, plain()), ts_p())
}

fn expr_contains_timestamp_chain(e: &Expr) -> (r: bool)
    ensures r == spec_expr_contains_timestamp_chain(e),
{
    let evs = expr_events(e, plain_walk());
    let ghost p = ts_p();
    let mut found = false;
    let mut j: usize = 0;
    while j < evs.len()
        invariant
            j <= evs.len(),
            p == ts_p(),
            found == exists|k: int| 0 <= k < j && #[trigger] expr_at(evs@, k, p),
        decreases evs.len() - j,
    {
        proof { lemma_some_expr_step(evs@, j as int, p); }
        match evs[j] {
            Event::Expr(x) => {
                if is_ledger_timestamp_call(x) {
                    found = true;
                }
            }
            _ => {}
        }
        j = j + 1;
    }
    found
}

pub open spec fn spec_ident_looks_like_nonce(name: Seq<char>) -> bool {
    seq_contains(lower_text(name), "nonce"@) || seq_contains(lower_text(name), "id"@)
        || seq_contains(lower_text(name), "unique_id"@)
}

/// Whether a name looks like a nonce or identifier, ignoring case.
pub fn ident_looks_like_nonce(name: &str) -> (r: bool)
    ensures r == spec_ident_looks_like_nonce(name@),
{
    let lower = to_lower(name);
    contains(lower.as_str(), "nonce") || contains(lower.as_str(), "id") || contains(lower.as_str(), "unique_id")
}

/// The first line flagged in a function body.
pub struct FuncBodyScan {
    pub first_line: Option<usize>,
}

impl FuncBodyScan {
    /// Records `line` unless a line is already recorded.
    pub fn flag(&mut self, line: usize)
        ensures
            final(self).first_line == if old(self).first_line is Some { old(self).first_line } else { Some(line) },
    {
        if self.first_line.is_none() {
            self.first_line = Some(line);
        }
    }
}

/// The line an event flags, if it flags one: a `let` binding a nonce-like
/// name to a value holding a timestamp call, or a storage `set` with an
/// argument holding one.
pub open spec fn flagged_line(ev: Event) -> Option<usize> {
    match ev {
        Event::Local(l) => match &l.init {
            Some(init) =>
                if spec_expr_contains_timestamp_chain(init) && bound_name(&l.pat) is Some
                    && spec_ident_looks_like_nonce(bound_name(&l.pat).unwrap()) {
                    Some(l.line)
                } else {
                    None
                },
            None => None,
        },
        Event::Expr(e) => match e {
            Expr::MethodCall { receiver, method, args, line } =>
                if method@ == "set"@ && spec_receiver_chain_contains(receiver, "storage"@)
                    && exists|i: int| 0 <= i < args.len() && spec_expr_contains_timestamp_chain(#[trigger] &args@[i]) {
                    Some(*line)
                } else {
                    None
                },
            _ => None,
        },
        _ => None,
    }
}

/// The first line flagged among the first `n` events.
pub open spec fn first_flag(evs: Seq<Event>, n: int) -> Option<usize>
    decreases n,
{
    if n <= 0 || n > evs.len() {
        None
    } else {
        match first_flag(evs, n - 1) {
            Some(l) => Some(l),
            None => flagged_line(evs[n - 1]),
        }
    }
}

pub open spec fn description(func: Seq<char>) -> Seq<char> {
    "Method `"@ + func
        + "` derives a nonce/identifier from `env.ledger().timestamp()`. The ledger timestamp is the close time of the current ledger and is identical for every transaction in that ledger, so two transactions can collide on the same value, enabling replay. Use a monotonically incrementing counter in storage or `env.prng()` instead."@
}

/// One finding, at the first flagged line, when some event is flagged.
pub open spec fn fn_findings(f: &FnDef) -> Seq<FindingView> {
    let evs = ev_block(&f.block, plain());
    match first_flag(evs, evs.len() as int) {
        Some(l) => seq![fv(CHECK_NAME@, Severity::High, l, f.name@, description(f.name@))],
        None => Seq::empty(),
    }
}

fn any_arg_holds_timestamp(args: &Vec<Expr>) -> (r: bool)
    ensures r == exists|i: int| 0 <= i < args.len() && spec_expr_contains_timestamp_chain(#[trigger] &args@[i]),
{
    let mut i: usize = 0;
    while i < args.len()
        invariant
            i <= args.len(),
            forall|k: int| 0 <= k < i ==> !spec_expr_contains_timestamp_chain(#[trigger] &args@[k]),
        decreases args.len() - i,
    {
        if expr_contains_timestamp_chain(&args[i]) {
            return true;
        }
        i = i + 1;
    }
    false
}

fn scan_fn(f: &FnDef) -> (r: Vec<Finding>)
    ensures views(r@) == fn_findings(f),
{
    let evs = block_events(&f.block, plain_walk());
    let mut scan = FuncBodyScan { first_line: None };
    let mut j: usize = 0;
    while j < evs.len()
        invariant
            j <= evs.len(),
            scan.first_line == first_flag(evs@, j as int),
        decreases evs.len() - j,
    {
        match evs[j] {
            Event::Local(l) => match &l.init {
                Some(init) => {
                    if expr_contains_timestamp_chain(init) {
                        if let Some(name) = bound_name_of_pat(&l.pat) {
                            if ident_looks_like_nonce(name.as_str()) {
                                scan.flag(l.line);
                            }
                        }
                    }
                }
                None => {}
            },
            Event::Expr(e) => match e {
                Expr::MethodCall { receiver, method, args, line } => {
                    if str_eq(method.as_str(), "set") && receiver_chain_contains(receiver, "storage") {
                        if any_arg_holds_timestamp(args) {
                            scan.flag(*line);
                        }
                    }
                }
                _ => {}
            },
            _ => {}
        }
        j = j + 1;
    }
    let mut out: Vec<Finding> = Vec::new();
    if let Some(line) = scan.first_line {
        let mut d = String::from_str("Method `");
        d.append(f.name.as_str());
        d.append("` derives a nonce/identifier from `env.ledger().timestamp()`. The ledger timestamp is the close time of the current ledger and is identical for every transaction in that ledger, so two transactions can collide on the same value, enabling replay. Use a monotonically incrementing counter in storage or `env.prng()` instead.");
        out.push(new_finding(CHECK_NAME, Severity::High, line, f.name.as_str(), d));
    }
    assert(views(out@) =~= fn_findings(f));
    out
}

impl Check for TimestampAsNonceCheck {
    open spec fn spec_name(&self) -> Seq<char> {
        CHECK_NAME@
    }

    open spec fn spec_run(&self, file: &SourceFile, source: Seq<char>) -> Seq<FindingView> {
        over_fns(contract_fns(file), |f: &FnDef| fn_findings(f), contract_fns(file).len() as int)
    }

    fn name(&self) -> (r: &str) {
        CHECK_NAME
    }

    fn run(&self, file: &SourceFile, source: &str) -> (r: Vec<Finding>) {
        let fns = contractimpl_functions(file);
        let mut out: Vec<Finding> = Vec::new();
        let mut i: usize = 0;
        while i < fns.len()
            invariant
                i <= fns.len(),
                fns@ == contract_fns(file),
                views(out@) == over_fns(contract_fns(file), |f: &FnDef| fn_findings(f), i as int),
            decreases fns.len() - i,
        {
            let mut found = scan_fn(fns[i]);
            proof { lemma_views_append(out@, found@); }
            out.append(&mut found);
            i = i + 1;
        }
        out
    }
}

} // verus!

verus! {

/// Every finding of this check names it, is of high severity, and has an
/// empty file path.
pub proof fn lemma_findings_tagged(file: &SourceFile, source: Seq<char>)
    ensures crate::finding::tagged(TimestampAsNonceCheck.spec_run(file, source), CHECK_NAME@, Severity::High),
{
    let fns = contract_fns(file);
    crate::contract::lemma_over_fns_tagged(fns, |f: &FnDef| fn_findings(f), fns.len() as int, CHECK_NAME@, Severity::High);
}

} // verus!

verus! {

/// Only the functions of `#[contractimpl]` blocks are examined: one more
/// top-level item that is not such a block changes no finding.
pub proof fn lemma_ignores_other_items(a: &SourceFile, b: &SourceFile, source: Seq<char>)
    requires crate::contract::extended_by_other_item(a, b),
    ensures TimestampAsNonceCheck.spec_run(b, source) == TimestampAsNonceCheck.spec_run(a, source),
{
    crate::contract::lemma_contract_fns_extra_item(a, b);
}

} // verus!

verus! {

/// `e` is `env.ledger().timestamp()`.
pub open spec fn is_env_timestamp(e: &Expr) -> bool {
    e matches Expr::MethodCall { receiver, method, .. } && method@ == "timestamp"@
        && (**receiver matches Expr::MethodCall { receiver: base, method: m2, .. } && m2@ == "ledger"@
            && (*base matches Expr::Path { path, .. } && path_is_ident(&path, "env"@)))
}

/// The name, in lower case, mentions `unique_id`, `id` or `nonce`.
pub open spec fn nonce_like(name: Seq<char>) -> bool {
    seq_contains(lower_text(name), "unique_id"@) || seq_contains(lower_text(name), "id"@)
        || seq_contains(lower_text(name), "nonce"@)
}

proof fn lemma_flag_stays(evs: Seq<Event>, k: int, n: int)
    requires
        0 <= k < n <= evs.len(),
        first_flag(evs, k + 1) is Some,
    ensures first_flag(evs, n) is Some,
    decreases n,
{
    if n > k + 1 {
        lemma_flag_stays(evs, k, n - 1);
    }
}

/// `let <nonce-like name> = env.ledger().timestamp();` (the name mentioning
/// `nonce`, `id` or `unique_id` in any case, possibly with a type) gives
/// the function one finding.
pub proof fn lemma_timestamp_nonce_binding_flagged(f: &FnDef, k: int, name: Seq<char>)
    requires
        0 <= k < ev_block(&f.block, plain()).len(),
        ev_block(&f.block, plain())[k] matches Event::Local(l)
            && (l.init matches Some(init) && is_env_timestamp(&*init))
            && bound_name(&l.pat) == Some(name),
        nonce_like(name),
    ensures fn_findings(f).len() == 1,
{
    let evs = ev_block(&f.block, plain());
    match evs[k] {
        Event::Local(l) => match &l.init {
            Some(init) => {
                assert(ev_expr(&**init, plain())[0] == Event::Expr(&**init));
                assert(expr_at(ev_expr(&**init, plain()), 0, ts_p()));
                assert(spec_expr_contains_timestamp_chain(&**init));
                assert(flagged_line(evs[k]) is Some);
            },
            None => {},
        },
        _ => {},
    }
    assert(first_flag(evs, k + 1) is Some);
    lemma_flag_stays(evs, k, evs.len() as int);
}

/// A storage `set` with `env.ledger().timestamp()` as an argument gives the
/// function one finding.
pub proof fn lemma_timestamp_stored_flagged(f: &FnDef, k: int, i: int)
    requires
        0 <= k < ev_block(&f.block, plain()).len(),
        ev_block(&f.block, plain())[k] matches Event::Expr(e)
            && e matches Expr::MethodCall { receiver, method, args, .. } && method@ == "set"@
            && spec_receiver_chain_contains(receiver, "storage"@)
            && 0 <= i < args.len() && is_env_timestamp(&args@[i]),
    ensures fn_findings(f).len() == 1,
{
    let evs = ev_block(&f.block, plain());
    match evs[k] {
        Event::Expr(e) => match e {
            Expr::MethodCall { args, .. } => {
                let a = &args@[i];
                assert(ev_expr(a, plain())[0] == Event::Expr(a));
                assert(expr_at(ev_expr(a, plain()), 0, ts_p()));
                assert(spec_expr_contains_timestamp_chain(a));
                assert(flagged_line(evs[k]) is Some);
            },
            _ => {},
        },
        _ => {},
    }
    assert(first_flag(evs, k + 1) is Some);
    lemma_flag_stays(evs, k, evs.len() as int);
}

} // verus!
