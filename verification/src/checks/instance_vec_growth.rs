//! A `Vec` in instance storage that grows without a length cap.
//!
//! Reading a `Vec` from `instance()` storage, pushing to it and writing it
//! back, with no `.len()` check, lets the entry grow past the instance storage
//! limit and brick the contract.

use vstd::prelude::*;
use crate::syntax::{Expr, FnDef, SourceFile};
use crate::walk::{block_events, bodies_walk, ev_block, expr_at, lemma_some_expr_step, some_expr, with_bodies, Event};
use crate::finding::{fv, lemma_views_append, new_finding, views, Check, Finding, FindingView, Severity};
use crate::contract::{contract_fns, contractimpl_functions, over_fns};
use crate::text::str_eq;
use crate::checks::keys::{receiver_chain_contains, spec_receiver_chain_contains};

verus! {

pub const CHECK_NAME: &'static str = "instance-vec-growth";

/// Flags functions that read from instance storage, push to a `Vec`, write
/// to instance storage, and never call `.len()` (macro arguments included).
pub struct InstanceVecGrowthCheck;

/// A receiver chain that calls both `storage()` and `instance()`.
pub open spec fn spec_instance_receiver(receiver: &Expr) -> bool {
    spec_receiver_chain_contains(receiver, "storage"@) && spec_receiver_chain_contains(receiver, "instance"@)
}

fn instance_receiver(receiver: &Expr) -> (r: bool)
    ensures r == spec_instance_receiver(receiver),
{
    receiver_chain_contains(receiver, "storage") && receiver_chain_contains(receiver, "instance")
}

pub open spec fn spec_is_instance_get(e: &Expr) -> bool {
    match e {
        Expr::MethodCall { receiver, method, .. } =>
            (method@ == "get"@ || method@ == "get_unchecked"@) && spec_instance_receiver(receiver),
        _ => false,
    }
}

pub open spec fn spec_is_instance_set(e: &Expr) -> bool {
    match e {
        Expr::MethodCall { receiver, method, .. } => method@ == "set"@ && spec_instance_receiver(receiver),
        _ => false,
    }
}

pub open spec fn spec_is_vec_push(e: &Expr) -> bool {
    match e {
        Expr::MethodCall { method, .. } => method@ == "push_back"@ || method@ == "push_front"@,
        _ => false,
    }
}

pub open spec fn spec_is_len_call(e: &Expr) -> bool {
    match e {
        Expr::MethodCall { method, .. } => method@ == "len"@,
        _ => false,
    }
}

pub open spec fn get_p<'a>() -> spec_fn(&'a Expr) -> bool { |e: &'a Expr| spec_is_instance_get(e) }
pub open spec fn set_p<'a>() -> spec_fn(&'a Expr) -> bool { |e: &'a Expr| spec_is_instance_set(e) }
pub open spec fn len_p<'a>() -> spec_fn(&'a Expr) -> bool { |e: &'a Expr| spec_is_len_call(e) }

/// The line of the first `push_back`/`push_front` call from event `j` on.
pub open spec fn first_push_line(evs: Seq<Event>, j: int) -> Option<usize>
    decreases evs.len() - j,
{
    if j < 0 || j >= evs.len() {
        None
    } else {
        match evs[j] {
            Event::Expr(e) => match e {
                Expr::MethodCall { line, .. } => if spec_is_vec_push(e) { Some(*line) } else { first_push_line(evs, j + 1) },
                _ => first_push_line(evs, j + 1),
            },
            _ => first_push_line(evs, j + 1),
        }
    }
}

pub open spec fn description(func: Seq<char>) -> Seq<char> {
    "Method `"@ + func + "` reads a Vec from `instance()` storage, pushes an element, and writes it back without checking `.len()` first. An unbounded Vec will eventually exceed the maximum instance storage entry size, permanently bricking the contract. Enforce a maximum length before appending."@
}

pub open spec fn fn_findings(f: &FnDef) -> Seq<FindingView> {
    let evs = ev_block(&f.block, with_bodies());
    if some_expr(evs, get_p()) && first_push_line(evs, 0) is Some && some_expr(evs, set_p()) && !some_expr(evs, len_p()) {
        seq![fv(CHECK_NAME@, Severity::High, first_push_line(evs, 0).unwrap(), f.name@, description(f.name@))]
    } else {
        Seq::empty()
    }
}

proof fn lemma_first_push_step(evs: Seq<Event>, j: int)
    requires 0 <= j < evs.len(),
    ensures
        first_push_line(evs, j) == match evs[j] {
            Event::Expr(e) => match e {
                Expr::MethodCall { line, .. } => if spec_is_vec_push(e) { Some(*line) } else { first_push_line(evs, j + 1) },
                _ => first_push_line(evs, j + 1),
            },
            _ => first_push_line(evs, j + 1),
        },
{
}

fn scan_fn(f: &FnDef) -> (r: Vec<Finding>)
    ensures views(r@) == fn_findings(f),
{
    let evs = block_events(&f.block, bodies_walk());
    let ghost pg = get_p();
    let ghost ps = set_p();
    let ghost pl = len_p();
    let mut get = false;
    let mut set = false;
    let mut len = false;
    let mut push: Option<usize> = None;
    let mut j: usize = 0;
    while j < evs.len()
        invariant
            j <= evs.len(),
            pg == get_p(),
            ps == set_p(),
            pl == len_p(),
            get == exists|k: int| 0 <= k < j && #[trigger] expr_at(evs@, k, pg),
            set == exists|k: int| 0 <= k < j && #[trigger] expr_at(evs@, k, ps),
            len == exists|k: int| 0 <= k < j && #[trigger] expr_at(evs@, k, pl),
            first_push_line(evs@, 0) == match push {
                Some(l) => Some(l),
                None => first_push_line(evs@, j as int),
            },
        decreases evs.len() - j,
    {
        proof {
            lemma_some_expr_step(evs@, j as int, pg);
            lemma_some_expr_step(evs@, j as int, ps);
            lemma_some_expr_step(evs@, j as int, pl);
            lemma_first_push_step(evs@, j as int);
        }
        match evs[j] {
            Event::Expr(e) => match e {
                Expr::MethodCall { receiver, method, line, .. } => {
                    let m = method.as_str();
                    if (str_eq(m, "get") || str_eq(m, "get_unchecked")) && instance_receiver(receiver) {
                        get = true;
                    }
                    if (str_eq(m, "push_back") || str_eq(m, "push_front")) && push.is_none() {
                        push = Some(*line);
                    }
                    if str_eq(m, "set") && instance_receiver(receiver) {
                        set = true;
                    }
                    if str_eq(m, "len") {
                        len = true;
                    }
                }
                _ => {}
            },
            _ => {}
        }
        j = j + 1;
    }
    let mut out: Vec<Finding> = Vec::new();
    match push {
        Some(line) => {
            if get && set && !len {
                let mut d = String::from_str("Method `");
                d.append(f.name.as_str());
                d.append("` reads a Vec from `instance()` storage, pushes an element, and writes it back without checking `.len()` first. An unbounded Vec will eventually exceed the maximum instance storage entry size, permanently bricking the contract. Enforce a maximum length before appending.");
                out.push(new_finding(CHECK_NAME, Severity::High, line, f.name.as_str(), d));
            }
        }
        None => {}
    }
    assert(views(out@) =~= fn_findings(f));
    out
}

impl Check for InstanceVecGrowthCheck {
    open spec fn spec_name(&self) -> Seq<char> {
        CHECK_NAME@
    }

    open spec fn spec_run(&self, file: &SourceFile, source: Seq<char>) -> Seq<FindingView> {
        over_fns(contract_fns(file), |f: &FnDef| fn_findings(f), contract_fns(file).len() as int)
    }

    fn name(&self) -> (r: &str) {
        CHECK_NAME
    }

    fn run(&self, file: &SourceFile, source: &str) -> (r: Vec<Finding>) {
        let fns = contractimpl_functions(file);
        let mut out: Vec<Finding> = Vec::new();
        let mut i: usize = 0;
        while i < fns.len()
            invariant
                i <= fns.len(),
                fns@ == contract_fns(file),
                views(out@) == over_fns(contract_fns(file), |f: &FnDef| fn_findings(f), i as int),
            decreases fns.len() - i,
        {
            let mut found = scan_fn(fns[i]);
            proof { lemma_views_append(out@, found@); }
            out.append(&mut found);
            i = i + 1;
        }
        out
    }
}

} // verus!

verus! {

/// Every finding of this check names it, is of high severity, and has an
/// empty file path.
pub proof fn lemma_findings_tagged(file: &SourceFile, source: Seq<char>)
    ensures crate::finding::tagged(InstanceVecGrowthCheck.spec_run(file, source), CHECK_NAME@, Severity::High),
{
    let fns = contract_fns(file);
    crate::contract::lemma_over_fns_tagged(fns, |f: &FnDef| fn_findings(f), fns.len() as int, CHECK_NAME@, Severity::High);
}

} // verus!

verus! {

/// Only the functions of `#[contractimpl]` blocks are examined: one more
/// top-level item that is not such a block changes no finding.
pub proof fn lemma_ignores_other_items(a: &SourceFile, b: &SourceFile, source: Seq<char>)
    requires crate::contract::extended_by_other_item(a, b),
    ensures InstanceVecGrowthCheck.spec_run(b, source) == InstanceVecGrowthCheck.spec_run(a, source),
{
    crate::contract::lemma_contract_fns_extra_item(a, b);
}

} // verus!

verus! {

/// `e` is `<chain>.<m>(..)` with `storage` and `instance` both called in its
/// receiver chain.
pub open spec fn instance_call(e: &Expr, m: Seq<char>) -> bool {
    e matches Expr::MethodCall { receiver, method, .. } && method@ == m
        && spec_receiver_chain_contains(receiver, "instance"@) && spec_receiver_chain_contains(receiver, "storage"@)
}

/// `e` calls the method `m`, on anything.
pub open spec fn calls(e: &Expr, m: Seq<char>) -> bool {
    e matches Expr::MethodCall { method, .. } && method@ == m
}

proof fn lemma_push_found(evs: Seq<Event>, j: int, p: int)
    requires
        0 <= j <= p < evs.len(),
        evs[p] matches Event::Expr(e) && (calls(e, "push_front"@) || calls(e, "push_back"@)),
    ensures first_push_line(evs, j) is Some,
    decreases p - j,
{
    if j < p {
        match evs[j] {
            Event::Expr(e) => match e {
                Expr::MethodCall { .. } => {
                    if !spec_is_vec_push(e) {
                        lemma_push_found(evs, j + 1, p);
                    }
                },
                _ => { lemma_push_found(evs, j + 1, p); },
            },
            _ => { lemma_push_found(evs, j + 1, p); },
        }
    }
}

/// A function that reads an instance-storage value, pushes onto a vector
/// (`push_back` or `push_front`) and writes instance storage back, with no
/// `.len()` call anywhere, gets one finding.
pub proof fn lemma_unbounded_growth_flagged(f: &FnDef, g: int, p: int, s: int)
    requires
        0 <= g < ev_block(&f.block, with_bodies()).len(),
        0 <= p < ev_block(&f.block, with_bodies()).len(),
        0 <= s < ev_block(&f.block, with_bodies()).len(),
        ev_block(&f.block, with_bodies())[g] matches Event::Expr(e) && (instance_call(e, "get_unchecked"@) || instance_call(e, "get"@)),
        ev_block(&f.block, with_bodies())[p] matches Event::Expr(e) && (calls(e, "push_front"@) || calls(e, "push_back"@)),
        ev_block(&f.block, with_bodies())[s] matches Event::Expr(e) && instance_call(e, "set"@),
        forall|j: int| 0 <= j < ev_block(&f.block, with_bodies()).len() ==> !(#[trigger] ev_block(&f.block, with_bodies())[j] matches Event::Expr(e)
            && calls(e, "len"@)),
    ensures fn_findings(f).len() == 1,
{
    let evs = ev_block(&f.block, with_bodies());
    assert(expr_at(evs, g, get_p()));
    assert(expr_at(evs, s, set_p()));
    lemma_push_found(evs, 0, p);
    assert(!some_expr(evs, len_p())) by {
        if some_expr(evs, len_p()) {
            let j = choose|j: int| 0 <= j < evs.len() && #[trigger] expr_at(evs, j, len_p());
            assert(!(evs[j] matches Event::Expr(e) && calls(e, "len"@)));
        }
    }
}

/// A function that calls `.len()` anywhere gets no finding.
pub proof fn lemma_len_call_passes(f: &FnDef, j: int)
    requires
        0 <= j < ev_block(&f.block, with_bodies()).len(),
        ev_block(&f.block, with_bodies())[j] matches Event::Expr(e) && calls(e, "len"@),
    ensures fn_findings(f).len() == 0,
{
    assert(expr_at(ev_block(&f.block, with_bodies()), j, len_p()));
}

} // verus!
