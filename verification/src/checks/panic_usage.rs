//! `panic!` and `unreachable!` inside `#[contractimpl]` functions.
//!
//! Panicking in Soroban contracts aborts the transaction with an unhelpful
//! error; contracts should return `Err` or use `panic_with_error!`.

use vstd::prelude::*;
use crate::syntax::{FnDef, Macro, SourceFile};
use crate::walk::{block_events, ev_block, plain, Event, MacroBodies, Walk};
use crate::finding::{fv, lemma_views_append, lemma_views_push, new_finding, views, Check, Finding, FindingView, Severity};
use crate::contract::{contract_fns, contractimpl_functions, over_fns, path_ends_with, path_last_is};

verus! {

pub const CHECK_NAME: &'static str = "panic-usage";

/// Flags `panic!(...)` and `unreachable!(...)` invocations inside
/// `#[contractimpl]` function bodies.
pub struct PanicUsageCheck;

pub open spec fn description(func: Seq<char>, mac: Seq<char>) -> Seq<char> {
    "Method `"@ + func + "` contains `"@ + mac
        + "!` macro. Panicking in Soroban contracts causes transaction abort with unhelpful errors. Use Err returns or `panic_with_error!` for structured error reporting."@
}

fn make_description(func: &str, mac: &str) -> (r: String)
    ensures r@ == description(func@, mac@),
{
    let mut d = String::from_str("Method `");
    d.append(func);
    d.append("` contains `");
    d.append(mac);
    d.append("!` macro. Panicking in Soroban contracts causes transaction abort with unhelpful errors. Use Err returns or `panic_with_error!` for structured error reporting.");
    d
}

/// The name of a panicking macro that `m` invokes, if it invokes one.
pub open spec fn panicking_macro(m: &Macro) -> Option<Seq<char>> {
    if path_ends_with(&m.path, "panic"@) {
        Some("panic"@)
    } else if path_ends_with(&m.path, "unreachable"@) {
        Some("unreachable"@)
    } else {
        None
    }
}

/// Findings for the panicking macros among the first `n` events.
pub open spec fn macro_hits(evs: Seq<Event>, func: Seq<char>, n: int) -> Seq<FindingView>
    decreases n,
{
    if n <= 0 || n > evs.len() {
        Seq::empty()
    } else {
        macro_hits(evs, func, n - 1) + match evs[n - 1] {
            Event::Macro(m) => match panicking_macro(m) {
                Some(name) => seq![fv(CHECK_NAME@, Severity::Low, m.line, func, description(func, name))],
                None => Seq::empty(),
            },
            _ => Seq::empty(),
        }
    }
}

pub open spec fn fn_findings(f: &FnDef) -> Seq<FindingView> {
    macro_hits(ev_block(&f.block, plain()), f.name@, ev_block(&f.block, plain()).len() as int)
}

fn scan_fn(f: &FnDef) -> (r: Vec<Finding>)
    ensures views(r@) == fn_findings(f),
{
    let evs = block_events(&f.block, Walk { macros: MacroBodies::Skip, prune_storage_probes: false });
    let mut out: Vec<Finding> = Vec::new();
    let mut j: usize = 0;
    while j < evs.len()
        invariant
            j <= evs.len(),
            evs@ == ev_block(&f.block, plain()),
            views(out@) == macro_hits(evs@, f.name@, j as int),
        decreases evs.len() - j,
    {
        match evs[j] {
            Event::Macro(m) => {
                let name: Option<&str> = if path_last_is(&m.path, "panic") {
                    Some("panic")
                } else if path_last_is(&m.path, "unreachable") {
                    Some("unreachable")
                } else {
                    None
                };
                if let Some(nm) = name {
                    let d = make_description(f.name.as_str(), nm);
                    let fd = new_finding(CHECK_NAME, Severity::Low, m.line, f.name.as_str(), d);
                    proof { lemma_views_push(out@, fd); }
                    out.push(fd);
                }
            }
            _ => {}
        }
        j = j + 1;
    }
    out
}

impl Check for PanicUsageCheck {
    open spec fn spec_name(&self) -> Seq<char> {
        CHECK_NAME@
    }

    open spec fn spec_run(&self, file: &SourceFile, source: Seq<char>) -> Seq<FindingView> {
        over_fns(contract_fns(file), |f: &FnDef| fn_findings(f), contract_fns(file).len() as int)
    }

    fn name(&self) -> (r: &str) {
        CHECK_NAME
    }

    fn run(&self, file: &SourceFile, source: &str) -> (r: Vec<Finding>) {
        let fns = contractimpl_functions(file);
        let mut out: Vec<Finding> = Vec::new();
        let mut i: usize = 0;
        while i < fns.len()
            invariant
                i <= fns.len(),
                fns@ == contract_fns(file),
                views(out@) == over_fns(contract_fns(file), |f: &FnDef| fn_findings(f), i as int),
            decreases fns.len() - i,
        {
            let mut found = scan_fn(fns[i]);
            proof { lemma_views_append(out@, found@); }
            out.append(&mut found);
            i = i + 1;
        }
        out
    }
}

} // verus!

verus! {

proof fn lemma_hits_tagged(evs: Seq<Event>, func: Seq<char>, n: int)
    ensures crate::finding::tagged(macro_hits(evs, func, n), CHECK_NAME@, Severity::Low),
    decreases n,
{
    if n > 0 && n <= evs.len() {
        lemma_hits_tagged(evs, func, n - 1);
        let prev = macro_hits(evs, func, n - 1);
        let cur = macro_hits(evs, func, n);
        assert forall|i: int| 0 <= i < cur.len() implies #[trigger] crate::finding::tag_ok(cur[i], CHECK_NAME@, Severity::Low) by {
            if i < prev.len() {
                assert(cur[i] == prev[i]);
            }
        }
    }
}

proof fn lemma_fn_tagged(f: &FnDef)
    ensures crate::finding::tagged(fn_findings(f), CHECK_NAME@, Severity::Low),
{
    let evs = ev_block(&f.block, plain());
    lemma_hits_tagged(evs, f.name@, evs.len() as int);
}

/// Every finding of this check names it, is of low severity, and has an
/// empty file path.
pub proof fn lemma_findings_tagged(file: &SourceFile, source: Seq<char>)
    ensures crate::finding::tagged(PanicUsageCheck.spec_run(file, source), CHECK_NAME@, Severity::Low),
{
    let fns = contract_fns(file);
    assert forall|k: int| 0 <= k < fns.len() implies crate::finding::tagged(fn_findings(fns[k]), CHECK_NAME@, Severity::Low) by {
        lemma_fn_tagged(fns[k]);
    }
    crate::contract::lemma_over_fns_tagged(fns, |f: &FnDef| fn_findings(f), fns.len() as int, CHECK_NAME@, Severity::Low);
}

} // verus!

verus! {

/// Only the functions of `#[contractimpl]` blocks are examined: one more
/// top-level item that is not such a block changes no finding.
pub proof fn lemma_ignores_other_items(a: &SourceFile, b: &SourceFile, source: Seq<char>)
    requires crate::contract::extended_by_other_item(a, b),
    ensures PanicUsageCheck.spec_run(b, source) == PanicUsageCheck.spec_run(a, source),
{
    crate::contract::lemma_contract_fns_extra_item(a, b);
}

} // verus!

verus! {

proof fn lemma_macro_hits_contain(evs: Seq<Event>, func: Seq<char>, k: int, n: int, x: FindingView)
    requires
        0 <= k < n <= evs.len(),
        macro_hits(evs, func, k + 1) == macro_hits(evs, func, k).push(x),
    ensures macro_hits(evs, func, n).contains(x),
    decreases n,
{
    if n == k + 1 {
        assert(macro_hits(evs, func, n)[macro_hits(evs, func, k).len() as int] == x);
    } else {
        lemma_macro_hits_contain(evs, func, k, n - 1, x);
        let prev = macro_hits(evs, func, n - 1);
        let j = choose|j: int| 0 <= j < prev.len() && prev[j] == x;
        assert(macro_hits(evs, func, n)[j] == x);
    }
}

/// A `panic!` or `unreachable!` call (by any path ending in that name) is
/// reported at its line, naming the macro.
pub proof fn lemma_panicking_macro_flagged(f: &FnDef, k: int, name: Seq<char>)
    requires
        name == "unreachable"@ || name == "panic"@,
        0 <= k < ev_block(&f.block, plain()).len(),
        ev_block(&f.block, plain())[k] matches Event::Macro(m)
            && m.path.segments.len() > 0 && m.path.segments@.last().ident@ == name,
    ensures
        fn_findings(f).contains(fv(CHECK_NAME@, Severity::Low, ev_block(&f.block, plain())[k]->Macro_0.line,
            f.name@, description(f.name@, name))),
{
    let evs = ev_block(&f.block, plain());
    let x = fv(CHECK_NAME@, Severity::Low, evs[k]->Macro_0.line, f.name@, description(f.name@, name));
    reveal_strlit("panic");
    reveal_strlit("unreachable");
    assert("panic"@ != "unreachable"@) by {
        assert("panic"@.len() != "unreachable"@.len());
    }
    assert(macro_hits(evs, f.name@, k + 1) == macro_hits(evs, f.name@, k).push(x));
    lemma_macro_hits_contain(evs, f.name@, k, evs.len() as int, x);
}

} // verus!
