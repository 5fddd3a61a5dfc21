//! External token transfers without post-balance verification.

use vstd::prelude::*;
use crate::syntax::{Expr, FnDef, SourceFile, StmtKind};
use crate::walk::{block_events, ev_block, plain, plain_walk, Event};
use crate::finding::{fv, lemma_views_append, lemma_views_push, new_finding, views, Check, Finding, FindingView, Severity};
use crate::contract::{contract_fns, contractimpl_functions, hits, over_fns, path_ident_is, path_is_ident};
use crate::text::str_eq;

verus! {

pub const CHECK_NAME: &'static str = "balance-not-verified-after-transfer";

/// Flags statements `x.transfer(...)` (the receiver not the bare `env`)
/// inside `#[contractimpl]` functions: no balance verification is recognised
/// after a transfer, so every such transfer is reported.
pub struct BalanceNotVerifiedAfterTransferCheck;

/// Anything but the bare path `env`.
pub open spec fn spec_receiver_is_not_bare_env(e: &Expr) -> bool {
    match e {
        Expr::Path { path, .. } => !path_is_ident(path, "env"@),
        _ => true,
    }
}

fn receiver_is_not_bare_env(e: &Expr) -> (r: bool)
    ensures r == spec_receiver_is_not_bare_env(e),
{
    match e {
        Expr::Path { path, .. } => !path_ident_is(path, "env"),
        _ => true,
    }
}

pub open spec fn description(func: Seq<char>) -> Seq<char> {
    "Method `"@ + func
        + "` calls `.transfer(...)` on an external token but does not verify the balance after the transfer. External token transfers can fail or behave unexpectedly; verify the balance to ensure the transfer succeeded and prevent accounting errors."@
}

/// An expression statement that is a `.transfer(..)` call.
pub open spec fn event_hit(func: Seq<char>, ev: Event) -> Seq<FindingView> {
    match ev {
        Event::Stmt(s, _) => match &s.kind {
            StmtKind::Expr { expr, .. } => match expr {
                Expr::MethodCall { receiver, method, line, .. } =>
                    if method@ == "transfer"@ && spec_receiver_is_not_bare_env(receiver) {
                        seq![fv(CHECK_NAME@, Severity::Medium, *line, func, description(func))]
                    } else {
                        Seq::empty()
                    },
                _ => Seq::empty(),
            },
            _ => Seq::empty(),
        },
        _ => Seq::empty(),
    }
}

pub open spec fn fn_findings(f: &FnDef) -> Seq<FindingView> {
    hits(ev_block(&f.block, plain()), |ev: Event| event_hit(f.name@, ev), ev_block(&f.block, plain()).len() as int)
}

fn scan_fn(f: &FnDef) -> (r: Vec<Finding>)
    ensures views(r@) == fn_findings(f),
{
    let evs = block_events(&f.block, plain_walk());
    let ghost h = |ev: Event| event_hit(f.name@, ev);
    let mut out: Vec<Finding> = Vec::new();
    let mut j: usize = 0;
    while j < evs.len()
        invariant
            j <= evs.len(),
            evs@ == ev_block(&f.block, plain()),
            h == (|ev: Event| event_hit(f.name@, ev)),
            views(out@) == hits(evs@, h, j as int),
        decreases evs.len() - j,
    {
        match evs[j] {
            Event::Stmt(s, _) => match &s.kind {
                StmtKind::Expr { expr, .. } => match expr {
                    Expr::MethodCall { receiver, method, line, .. } => {
                        if str_eq(method.as_str(), "transfer") && receiver_is_not_bare_env(receiver) {
                            let mut d = String::from_str("Method `");
                            d.append(f.name.as_str());
                            d.append("` calls `.transfer(...)` on an external token but does not verify the balance after the transfer. External token transfers can fail or behave unexpectedly; verify the balance to ensure the transfer succeeded and prevent accounting errors.");
                            let fd = new_finding(CHECK_NAME, Severity::Medium, *line, f.name.as_str(), d);
                            proof { lemma_views_push(out@, fd); }
                            out.push(fd);
                        }
                    }
                    _ => {}
                },
                _ => {}
            },
            _ => {}
        }
        assert(views(out@) =~= hits(evs@, h, j + 1));
        j = j + 1;
    }
    out
}

impl Check for BalanceNotVerifiedAfterTransferCheck {
    open spec fn spec_name(&self) -> Seq<char> {
        CHECK_NAME@
    }

    open spec fn spec_run(&self, file: &SourceFile, source: Seq<char>) -> Seq<FindingView> {
        over_fns(contract_fns(file), |f: &FnDef| fn_findings(f), contract_fns(file).len() as int)
    }

    fn name(&self) -> (r: &str) {
        CHECK_NAME
    }

    fn run(&self, file: &SourceFile, source: &str) -> (r: Vec<Finding>) {
        let fns = contractimpl_functions(file);
        let mut out: Vec<Finding> = Vec::new();
        let mut i: usize = 0;
        while i < fns.len()
            invariant
                i <= fns.len(),
                fns@ == contract_fns(file),
                views(out@) == over_fns(contract_fns(file), |f: &FnDef| fn_findings(f), i as int),
            decreases fns.len() - i,
        {
            let mut found = scan_fn(fns[i]);
            proof { lemma_views_append(out@, found@); }
            out.append(&mut found);
            i = i + 1;
        }
        out
    }
}

} // verus!

verus! {

proof fn lemma_fn_tagged(f: &FnDef)
    ensures crate::finding::tagged(fn_findings(f), CHECK_NAME@, Severity::Medium),
{
    let evs = ev_block(&f.block, plain());
    crate::contract::lemma_hits_tagged(evs, |ev: Event| event_hit(f.name@, ev), evs.len() as int, CHECK_NAME@, Severity::Medium);
}

/// Every finding of this check names it, is of medium severity, and has an
/// empty file path.
pub proof fn lemma_findings_tagged(file: &SourceFile, source: Seq<char>)
    ensures crate::finding::tagged(BalanceNotVerifiedAfterTransferCheck.spec_run(file, source), CHECK_NAME@, Severity::Medium),
{
    let fns = contract_fns(file);
    assert forall|k: int| 0 <= k < fns.len() implies crate::finding::tagged(fn_findings(fns[k]), CHECK_NAME@, Severity::Medium) by {
        lemma_fn_tagged(fns[k]);
    }
    crate::contract::lemma_over_fns_tagged(fns, |f: &FnDef| fn_findings(f), fns.len() as int, CHECK_NAME@, Severity::Medium);
}

} // verus!

verus! {

/// Only the functions of `#[contractimpl]` blocks are examined: one more
/// top-level item that is not such a block changes no finding.
pub proof fn lemma_ignores_other_items(a: &SourceFile, b: &SourceFile, source: Seq<char>)
    requires crate::contract::extended_by_other_item(a, b),
    ensures BalanceNotVerifiedAfterTransferCheck.spec_run(b, source) == BalanceNotVerifiedAfterTransferCheck.spec_run(a, source),
{
    crate::contract::lemma_contract_fns_extra_item(a, b);
}

} // verus!

verus! {

/// `e` is the plain identifier `env`.
pub open spec fn is_bare_env(e: &Expr) -> bool {
    e matches Expr::Path { path, .. } && !path.leading_colon && path.segments.len() == 1
        && !path.segments@[0].has_args && path.segments@[0].ident@ == "env"@
}

/// A statement `x.transfer(..)` whose receiver is anything but the bare
/// `env` is reported at its line.
pub proof fn lemma_token_transfer_flagged(f: &FnDef, k: int)
    requires
        0 <= k < ev_block(&f.block, plain()).len(),
        ev_block(&f.block, plain())[k] matches Event::Stmt(s, _)
            && s.kind matches StmtKind::Expr { expr, .. }
            && expr matches Expr::MethodCall { receiver, method, .. }
            && method@ == "transfer"@ && !is_bare_env(&*receiver),
    ensures
        fn_findings(f).contains(fv(CHECK_NAME@, Severity::Medium,
            ev_block(&f.block, plain())[k]->Stmt_0.kind->Expr_expr->MethodCall_line, f.name@, description(f.name@))),
{
    let evs = ev_block(&f.block, plain());
    let h = |ev: Event| event_hit(f.name@, ev);
    let x = fv(CHECK_NAME@, Severity::Medium, evs[k]->Stmt_0.kind->Expr_expr->MethodCall_line, f.name@, description(f.name@));
    assert(h(evs[k])[0] == x);
    crate::contract::lemma_hits_contain(evs, h, k, evs.len() as int, x);
}

} // verus!
