//! A persistent storage write before a fallible operation.
//!
//! If the operation fails, the contract is left partly updated.

use vstd::prelude::*;
use crate::syntax::{Expr, FnDef, SourceFile, StmtKind};
use crate::walk::{block_events, ev_block, plain, plain_walk, Event};
use crate::finding::{fv, lemma_views_append, new_finding, views, Check, Finding, FindingView, Severity};
use crate::contract::{contract_fns, contractimpl_functions, over_fns, path_ends_with, path_last_is};
use crate::text::str_eq;
use crate::checks::keys::{receiver_chain_contains, spec_receiver_chain_contains};

verus! {

pub const CHECK_NAME: &'static str = "partial-write-on-error";

/// Flags a function, once, when a `persistent().set(..)` expression
/// statement's index in its block is below the index of some `?` or
/// `return Err(..)` statement; the first such write is reported.
///
/// Statement indices count within each block, while the reported line is
/// looked up among all statements of the function in walk order, by that
/// same index (which is always in range).
pub struct PartialWriteOnErrorCheck;

/// A `set` call on a chain that calls `persistent()`.
pub open spec fn spec_is_persistent_write(e: &Expr) -> bool {
    match e {
        Expr::MethodCall { receiver, method, .. } => method@ == "set"@ && spec_receiver_chain_contains(receiver, "persistent"@),
        _ => false,
    }
}

fn is_persistent_write(e: &Expr) -> (r: bool)
    ensures r == spec_is_persistent_write(e),
{
    match e {
        Expr::MethodCall { receiver, method, .. } => str_eq(method.as_str(), "set") && receiver_chain_contains(receiver, "persistent"),
        _ => false,
    }
}

/// A `?` expression, or `return Err(..)`.
pub open spec fn spec_is_error_point(e: &Expr) -> bool {
    match e {
        Expr::Try { .. } => true,
        Expr::Return { expr } => match expr {
            Some(x) => match &**x {
                Expr::Call { func, .. } => match &**func {
                    Expr::Path { path, .. } => path_ends_with(path, "Err"@),
                    _ => false,
                },
                _ => false,
            },
            None => false,
        },
        _ => false,
    }
}

fn is_error_point(e: &Expr) -> (r: bool)
    ensures r == spec_is_error_point(e),
{
    match e {
        Expr::Try { .. } => true,
        Expr::Return { expr } => match expr {
            Some(x) => match &**x {
                Expr::Call { func, .. } => match &**func {
                    Expr::Path { path, .. } => path_last_is(path, "Err"),
                    _ => false,
                },
                _ => false,
            },
            None => false,
        },
        _ => false,
    }
}

/// What the statements among the first `n` events give: every statement's
/// line, the in-block indices of writes, and those of error points.
pub struct StmtScan {
    pub lines: Seq<usize>,
    pub writes: Seq<usize>,
    pub errors: Seq<usize>,
}

pub open spec fn step(st: StmtScan, ev: Event) -> StmtScan {
    match ev {
        Event::Stmt(s, idx) => {
            let st1 = StmtScan { lines: st.lines.push(s.line), ..st };
            match &s.kind {
                StmtKind::Expr { expr, .. } => {
                    let st2 = if spec_is_persistent_write(expr) { StmtScan { writes: st1.writes.push(idx), ..st1 } } else { st1 };
                    if spec_is_error_point(expr) { StmtScan { errors: st2.errors.push(idx), ..st2 } } else { st2 }
                },
                _ => st1,
            }
        },
        _ => st,
    }
}

pub open spec fn scan(evs: Seq<Event>, n: int) -> StmtScan
    decreases n,
{
    if n <= 0 || n > evs.len() {
        StmtScan { lines: Seq::empty(), writes: Seq::empty(), errors: Seq::empty() }
    } else {
        step(scan(evs, n - 1), evs[n - 1])
    }
}

pub open spec fn description(func: Seq<char>) -> Seq<char> {
    "Method `"@ + func + "` writes to persistent storage before a fallible operation. If the operation fails, the contract will be left in a partially-updated state."@
}

/// Some error point's index exceeds `w`.
pub open spec fn before_error(st: StmtScan, w: usize) -> bool {
    exists|k: int| 0 <= k < st.errors.len() && w < #[trigger] st.errors[k]
}

/// The first write, from position `i` of the writes on, that some error
/// point's index exceeds.
pub open spec fn first_write(st: StmtScan, i: int) -> Option<usize>
    decreases st.writes.len() - i,
{
    if i < 0 || i >= st.writes.len() {
        None
    } else if before_error(st, st.writes[i]) {
        Some(st.writes[i])
    } else {
        first_write(st, i + 1)
    }
}

/// Every recorded write index names a statement already recorded, and the
/// statements recorded are those met so far.
proof fn lemma_writes_in_range(evs: Seq<Event>, n: int)
    requires
        crate::numbering::numbered(evs, 0),
        0 <= n <= evs.len(),
    ensures
        scan(evs, n).lines.len() == crate::numbering::stmt_count(evs.take(n)),
        forall|q: int| 0 <= q < scan(evs, n).writes.len() ==> #[trigger] scan(evs, n).writes[q] < scan(evs, n).lines.len(),
    decreases n,
{
    if n == 0 {
        assert(evs.take(0) =~= Seq::<Event>::empty());
    } else {
        lemma_writes_in_range(evs, n - 1);
        assert(evs.take(n).drop_last() =~= evs.take(n - 1));
        assert(evs.take(n).last() == evs[n - 1]);
        assert(crate::numbering::index_ok(evs, n - 1, 0));
        let prev = scan(evs, n - 1);
        let cur = scan(evs, n);
        assert forall|q: int| 0 <= q < cur.writes.len() implies #[trigger] cur.writes[q] < cur.lines.len() by {
            if q < prev.writes.len() {
                assert(cur.writes[q] == prev.writes[q]);
            }
        }
    }
}

pub open spec fn fn_findings(f: &FnDef) -> Seq<FindingView> {
    let evs = ev_block(&f.block, plain());
    let st = scan(evs, evs.len() as int);
    match first_write(st, 0) {
        Some(w) => seq![fv(CHECK_NAME@, Severity::Medium, st.lines[w as int], f.name@, description(f.name@))],
        None => Seq::empty(),
    }
}

fn scan_fn(f: &FnDef) -> (r: Vec<Finding>)
    ensures views(r@) == fn_findings(f),
{
    let evs = block_events(&f.block, plain_walk());
    let mut lines: Vec<usize> = Vec::new();
    let mut writes: Vec<usize> = Vec::new();
    let mut errors: Vec<usize> = Vec::new();
    let mut j: usize = 0;
    while j < evs.len()
        invariant
            j <= evs.len(),
            evs@ == ev_block(&f.block, plain()),
            scan(evs@, j as int) == (StmtScan { lines: lines@, writes: writes@, errors: errors@ }),
        decreases evs.len() - j,
    {
        match evs[j] {
            Event::Stmt(s, idx) => {
                lines.push(s.line);
                match &s.kind {
                    StmtKind::Expr { expr, .. } => {
                        if is_persistent_write(expr) {
                            writes.push(idx);
                        }
                        if is_error_point(expr) {
                            errors.push(idx);
                        }
                    }
                    _ => {}
                }
            }
            _ => {}
        }
        j = j + 1;
    }
    let ghost st = scan(evs@, evs@.len() as int);
    proof {
        crate::numbering::lemma_block_numbered(&f.block, plain());
        lemma_writes_in_range(evs@, evs@.len() as int);
    }
    let mut out: Vec<Finding> = Vec::new();
    let mut i: usize = 0;
    while i < writes.len()
        invariant
            i <= writes.len(),
            st == (StmtScan { lines: lines@, writes: writes@, errors: errors@ }),
            forall|q: int| 0 <= q < st.writes.len() ==> #[trigger] st.writes[q] < st.lines.len(),
            first_write(st, 0) == first_write(st, i as int),
            st == scan(ev_block(&f.block, plain()), ev_block(&f.block, plain()).len() as int),
            out@.len() == 0,
        decreases writes.len() - i,
    {
        let w = writes[i];
        let mut later = false;
        let mut k: usize = 0;
        while k < errors.len()
            invariant
                k <= errors.len(),
                errors@ == st.errors,
                later == exists|q: int| 0 <= q < k && w < #[trigger] st.errors[q],
            decreases errors.len() - k,
        {
            if w < errors[k] {
                later = true;
            }
            k = k + 1;
            proof {
                if w < st.errors[k - 1] {
                    assert(0 <= k - 1 < k && w < st.errors[k - 1]);
                }
            }
        }
        assert(w == st.writes[i as int]);
        assert(later == before_error(st, w));
        if later {
            assert(st.writes[i as int] < st.lines.len());
            let line = lines[w];
            let mut d = String::from_str("Method `");
            d.append(f.name.as_str());
            d.append("` writes to persistent storage before a fallible operation. If the operation fails, the contract will be left in a partially-updated state.");
            out.push(new_finding(CHECK_NAME, Severity::Medium, line, f.name.as_str(), d));
            assert(views(out@) =~= fn_findings(f));
            return out;
        }
        i = i + 1;
    }
    assert(views(out@) =~= fn_findings(f));
    out
}

impl Check for PartialWriteOnErrorCheck {
    open spec fn spec_name(&self) -> Seq<char> {
        CHECK_NAME@
    }

    open spec fn spec_run(&self, file: &SourceFile, source: Seq<char>) -> Seq<FindingView> {
        over_fns(contract_fns(file), |f: &FnDef| fn_findings(f), contract_fns(file).len() as int)
    }

    fn name(&self) -> (r: &str) {
        CHECK_NAME
    }

    fn run(&self, file: &SourceFile, source: &str) -> (r: Vec<Finding>) {
        let fns = contractimpl_functions(file);
        let mut out: Vec<Finding> = Vec::new();
        let mut i: usize = 0;
        while i < fns.len()
            invariant
                i <= fns.len(),
                fns@ == contract_fns(file),
                views(out@) == over_fns(contract_fns(file), |f: &FnDef| fn_findings(f), i as int),
            decreases fns.len() - i,
        {
            let mut found = scan_fn(fns[i]);
            proof { lemma_views_append(out@, found@); }
            out.append(&mut found);
            i = i + 1;
        }
        out
    }
}

} // verus!

verus! {

proof fn lemma_fn_tagged(f: &FnDef)
    ensures crate::finding::tagged(fn_findings(f), CHECK_NAME@, Severity::Medium),
{
}

/// Every finding of this check names it, is of medium severity, and has an
/// empty file path.
pub proof fn lemma_findings_tagged(file: &SourceFile, source: Seq<char>)
    ensures crate::finding::tagged(PartialWriteOnErrorCheck.spec_run(file, source), CHECK_NAME@, Severity::Medium),
{
    let fns = contract_fns(file);
    assert forall|k: int| 0 <= k < fns.len() implies crate::finding::tagged(fn_findings(fns[k]), CHECK_NAME@, Severity::Medium) by {
        lemma_fn_tagged(fns[k]);
    }
    crate::contract::lemma_over_fns_tagged(fns, |f: &FnDef| fn_findings(f), fns.len() as int, CHECK_NAME@, Severity::Medium);
}

} // verus!

verus! {

/// Only the functions of `#[contractimpl]` blocks are examined: one more
/// top-level item that is not such a block changes no finding.
pub proof fn lemma_ignores_other_items(a: &SourceFile, b: &SourceFile, source: Seq<char>)
    requires crate::contract::extended_by_other_item(a, b),
    ensures PartialWriteOnErrorCheck.spec_run(b, source) == PartialWriteOnErrorCheck.spec_run(a, source),
{
    crate::contract::lemma_contract_fns_extra_item(a, b);
}

} // verus!

verus! {

/// `e` is `<chain>.set(..)` with `persistent` called in its receiver chain.
pub open spec fn writes_persistent(e: &Expr) -> bool {
    e matches Expr::MethodCall { receiver, method, .. } && method@ == "set"@
        && spec_receiver_chain_contains(receiver, "persistent"@)
}

/// `e` can leave the function with an error: `x?`, or `return Err(..)`
/// (by any path ending in `Err`).
pub open spec fn fails_here(e: &Expr) -> bool {
    (e matches Expr::Try { .. })
        || (e matches Expr::Return { expr: Some(x) }
            && (**x matches Expr::Call { func, .. }
                && (*func matches Expr::Path { path, .. } && path.segments.len() > 0 && path.segments@.last().ident@ == "Err"@)))
}

proof fn lemma_scan_keeps(evs: Seq<Event>, a: int, n: int, w: usize, e: usize)
    requires
        0 <= a < n <= evs.len(),
        scan(evs, a + 1).writes.contains(w) || scan(evs, a + 1).errors.contains(e),
    ensures
        scan(evs, a + 1).writes.contains(w) ==> scan(evs, n).writes.contains(w),
        scan(evs, a + 1).errors.contains(e) ==> scan(evs, n).errors.contains(e),
    decreases n,
{
    if n > a + 1 {
        lemma_scan_keeps(evs, a, n - 1, w, e);
        let p = scan(evs, n - 1);
        let c = scan(evs, n);
        if p.writes.contains(w) {
            let q = choose|q: int| 0 <= q < p.writes.len() && p.writes[q] == w;
            assert(c.writes[q] == w);
        }
        if p.errors.contains(e) {
            let q = choose|q: int| 0 <= q < p.errors.len() && p.errors[q] == e;
            assert(c.errors[q] == e);
        }
    }
}

proof fn lemma_first_write_some(st: StmtScan, i: int, q: int)
    requires
        0 <= i <= q < st.writes.len(),
        before_error(st, st.writes[q]),
    ensures first_write(st, i) is Some,
    decreases q - i,
{
    if i < q && !before_error(st, st.writes[i]) {
        lemma_first_write_some(st, i + 1, q);
    }
}

/// A persistent write statement whose index in its block is below that of
/// an error-point statement (`x?;` or `return Err(..);`) gives the function
/// exactly one finding.
pub proof fn lemma_write_before_error_flagged(f: &FnDef, a: int, b: int)
    requires
        0 <= a < ev_block(&f.block, plain()).len(),
        0 <= b < ev_block(&f.block, plain()).len(),
        ev_block(&f.block, plain())[a] matches Event::Stmt(s, _)
            && (s.kind matches StmtKind::Expr { expr, .. } && writes_persistent(&expr)),
        ev_block(&f.block, plain())[b] matches Event::Stmt(s, _)
            && (s.kind matches StmtKind::Expr { expr, .. } && fails_here(&expr)),
        ev_block(&f.block, plain())[a]->Stmt_1 < ev_block(&f.block, plain())[b]->Stmt_1,
    ensures fn_findings(f).len() == 1,
{
    let evs = ev_block(&f.block, plain());
    let wi = evs[a]->Stmt_1;
    let ei = evs[b]->Stmt_1;
    match evs[a] {
        Event::Stmt(s, _) => match &s.kind {
            StmtKind::Expr { expr, .. } => {
                assert(spec_is_persistent_write(expr));
                let p = scan(evs, a);
                let st1 = StmtScan { lines: p.lines.push(s.line), ..p };
                let st2 = StmtScan { writes: st1.writes.push(wi), ..st1 };
                assert(scan(evs, a + 1).writes.contains(wi)) by {
                    assert(st2.writes[p.writes.len() as int] == wi);
                    if spec_is_error_point(expr) {
                        assert(scan(evs, a + 1).writes == st2.writes);
                    }
                }
            },
            _ => {},
        },
        _ => {},
    }
    match evs[b] {
        Event::Stmt(s, _) => match &s.kind {
            StmtKind::Expr { expr, .. } => {
                match expr {
                    Expr::Return { expr: Some(x) } => {
                        match &**x {
                            Expr::Call { func, .. } => {
                                match &**func {
                                    Expr::Path { path, .. } => { assert(path_ends_with(path, "Err"@)); },
                                    _ => {},
                                }
                            },
                            _ => {},
                        }
                    },
                    _ => {},
                }
                assert(spec_is_error_point(expr));
                let p = scan(evs, b);
                let c = scan(evs, b + 1);
                assert(c.errors[c.errors.len() - 1] == ei);
                assert(c.errors.contains(ei));
            },
            _ => {},
        },
        _ => {},
    }
    let n = evs.len() as int;
    if a + 1 < n {
        lemma_scan_keeps(evs, a, n, wi, ei);
    }
    if b + 1 < n {
        lemma_scan_keeps(evs, b, n, wi, ei);
    }
    let st = scan(evs, n);
    let q = choose|q: int| 0 <= q < st.writes.len() && st.writes[q] == wi;
    let r = choose|r: int| 0 <= r < st.errors.len() && st.errors[r] == ei;
    assert(wi < st.errors[r]);
    assert(before_error(st, st.writes[q]));
    lemma_first_write_some(st, 0, q);
}

} // verus!
