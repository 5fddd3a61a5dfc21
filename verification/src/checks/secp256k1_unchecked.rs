//! `env.crypto().secp256k1_recover(...)` whose result is never compared
//! against a trusted key.
//!
//! Recovering a public key authenticates nothing unless the key is then
//! compared (`==`) with a stored or expected one.

use vstd::prelude::*;
use crate::syntax::{BinOp, Expr, FnDef, Local, Macro, SourceFile};
use crate::walk::{block_events, ev_block, ev_expr, expr_at, expr_events, plain, plain_walk, some_expr, Event};
use crate::finding::{fv, lemma_views_append, lemma_views_push, new_finding, views, Check, Finding, FindingView, Severity};
use crate::contract::{contract_fns, contractimpl_functions, over_fns, path_ends_with, path_last_is};
use crate::text::{contains, seq_contains, str_eq, string_in, texts, lemma_texts_push};
use crate::checks::keys::{receiver_chain_contains, spec_receiver_chain_contains};
use crate::checks::admin_key_removal::{bound_name, bound_name_of_pat};

verus! {

pub const CHECK_NAME: &'static str = "secp256k1-unchecked";

/// Flags `secp256k1_recover` results that no `==`/`!=` comparison (or
/// `assert_eq!`/`assert_ne!`/`require!`) looks at.
pub struct Secp256k1UncheckedCheck;

/// A `secp256k1_recover(..)` call on a chain that calls `crypto()`.
pub open spec fn spec_is_recover(e: &Expr) -> bool {
    match e {
        Expr::MethodCall { receiver, method, .. } =>
            method@ == "secp256k1_recover"@ && spec_receiver_chain_contains(receiver, "crypto"@),
        _ => false,
    }
}

fn is_recover(e: &Expr) -> (r: bool)
    ensures r == spec_is_recover(e),
{
    match e {
        Expr::MethodCall { receiver, method, .. } =>
            str_eq(method.as_str(), "secp256k1_recover") && receiver_chain_contains(receiver, "crypto"),
        _ => false,
    }
}

pub open spec fn recover_p<'a>() -> spec_fn(&'a Expr) -> bool {
    |e: &Expr| spec_is_recover(e)
}

/// Whether the walk of `e` meets a recover call.
fn has_recover(e: &Expr) -> (r: bool)
    ensures r == some_expr(ev_expr(e, plain()), recover_p()),
{
    let evs = expr_events(e, plain_walk());
    let ghost p = recover_p();
    let mut j: usize = 0;
    while j < evs.len()
        invariant
            j <= evs.len(),
            evs@ == ev_expr(e, plain()),
            p == recover_p(),
            forall|k: int| 0 <= k < j ==> !#[trigger] expr_at(evs@, k, p),
        decreases evs.len() - j,
    {
        match evs[j] {
            Event::Expr(x) => {
                if is_recover(x) {
                    assert(expr_at(evs@, j as int, p));
                    return true;
                }
            }
            _ => {}
        }
        j = j + 1;
    }
    false
}

/// The name a `let` binds to a value that contains a recover call.
pub open spec fn local_binding(l: &Local) -> Option<Seq<char>> {
    match &l.init {
        Some(init) => if some_expr(ev_expr(init, plain()), recover_p()) { bound_name(&l.pat) } else { None },
        None => None,
    }
}

/// The names bound to recovered keys among the first `n` events.
pub open spec fn bindings_in(evs: Seq<Event>, n: int) -> Seq<Seq<char>>
    decreases n,
{
    if n <= 0 || n > evs.len() {
        Seq::empty()
    } else {
        bindings_in(evs, n - 1) + match evs[n - 1] {
            Event::Local(l) => match local_binding(l) {
                Some(b) => seq![b],
                None => Seq::empty(),
            },
            _ => Seq::empty(),
        }
    }
}

/// A path whose last segment is one of the bindings, possibly under `&` and
/// method calls.
pub open spec fn spec_contains_binding(e: &Expr, bs: Seq<Seq<char>>) -> bool
    decreases e,
{
    match e {
        Expr::Path { path, .. } => path.segments.len() > 0 && bs.contains(path.segments@.last().ident@),
        Expr::Reference { expr } => spec_contains_binding(expr, bs),
        Expr::MethodCall { receiver, .. } => spec_contains_binding(receiver, bs),
        _ => false,
    }
}

fn contains_binding(e: &Expr, bs: &Vec<String>) -> (r: bool)
    ensures r == spec_contains_binding(e, texts(bs@)),
    decreases e,
{
    match e {
        Expr::Path { path, .. } => {
            let n = path.segments.len();
            n > 0 && string_in(bs, path.segments[n - 1].ident.as_str())
        }
        Expr::Reference { expr } => contains_binding(expr, bs),
        Expr::MethodCall { receiver, .. } => contains_binding(receiver, bs),
        _ => false,
    }
}

/// Some binding occurs in the text.
pub open spec fn mentions_any(text: Seq<char>, bs: Seq<Seq<char>>) -> bool {
    exists|i: int| 0 <= i < bs.len() && seq_contains(text, #[trigger] bs[i])
}

fn mentions(text: &str, bs: &Vec<String>) -> (r: bool)
    ensures r == mentions_any(text@, texts(bs@)),
{
    let mut i: usize = 0;
    while i < bs.len()
        invariant
            i <= bs.len(),
            forall|k: int| 0 <= k < i ==> !seq_contains(text@, #[trigger] texts(bs@)[k]),
        decreases bs.len() - i,
    {
        if contains(text, bs[i].as_str()) {
            assert(seq_contains(text@, texts(bs@)[i as int]));
            return true;
        }
        i = i + 1;
    }
    false
}

/// An `assert_eq!`, `assert_ne!` or `require!` invocation.
pub open spec fn spec_is_compare_macro(m: &Macro) -> bool {
    path_ends_with(&m.path, "assert_eq"@) || path_ends_with(&m.path, "assert_ne"@) || path_ends_with(&m.path, "require"@)
}

/// The event compares a binding: `==`/`!=` with a binding on a side, or a
/// comparing macro whose tokens mention one.
pub open spec fn compares_at(evs: Seq<Event>, k: int, bs: Seq<Seq<char>>) -> bool {
    match evs[k] {
        Event::Expr(e) => match e {
            Expr::Binary { left, op, right, .. } =>
                (*op == BinOp::Eq || *op == BinOp::Ne) && (spec_contains_binding(left, bs) || spec_contains_binding(right, bs)),
            _ => false,
        },
        Event::Macro(m) => spec_is_compare_macro(m) && mentions_any(m.text@, bs),
        _ => false,
    }
}

/// The line of the first recover call among the events from `j` on; 0 when
/// there is none.
pub open spec fn first_recover_line(evs: Seq<Event>, j: int) -> usize
    decreases evs.len() - j,
{
    if j < 0 || j >= evs.len() {
        0
    } else {
        match evs[j] {
            Event::Expr(e) => match e {
                Expr::MethodCall { line, .. } => if spec_is_recover(e) { *line } else { first_recover_line(evs, j + 1) },
                _ => first_recover_line(evs, j + 1),
            },
            _ => first_recover_line(evs, j + 1),
        }
    }
}

pub open spec fn unchecked_text(func: Seq<char>) -> Seq<char> {
    "Method `"@ + func + "` calls `secp256k1_recover()` but the recovered public key is never compared (`==`) against a trusted key. The recovery result provides no authentication guarantee unless verified against a stored or expected public key."@
}

pub open spec fn inline_text(func: Seq<char>) -> Seq<char> {
    "Method `"@ + func + "` calls `secp256k1_recover()` but the result is not stored or compared against a trusted key. The recovery provides no authentication guarantee."@
}

/// One finding for each recover call among the first `n` events.
pub open spec fn inline_hits(evs: Seq<Event>, func: Seq<char>, n: int) -> Seq<FindingView>
    decreases n,
{
    if n <= 0 || n > evs.len() {
        Seq::empty()
    } else {
        inline_hits(evs, func, n - 1) + match evs[n - 1] {
            Event::Expr(e) => match e {
                Expr::MethodCall { line, .. } =>
                    if spec_is_recover(e) { seq![fv(CHECK_NAME@, Severity::High, *line, func, inline_text(func))] } else { Seq::empty() },
                _ => Seq::empty(),
            },
            _ => Seq::empty(),
        }
    }
}

/// With no binding of a recovered key, every recover call is reported; with
/// bindings that no comparison looks at, the first recover call is.
pub open spec fn fn_findings(f: &FnDef) -> Seq<FindingView> {
    let evs = ev_block(&f.block, plain());
    let bs = bindings_in(evs, evs.len() as int);
    if bs.len() == 0 {
        inline_hits(evs, f.name@, evs.len() as int)
    } else if exists|k: int| 0 <= k < evs.len() && #[trigger] compares_at(evs, k, bs) {
        Seq::empty()
    } else {
        seq![fv(CHECK_NAME@, Severity::High, first_recover_line(evs, 0), f.name@, unchecked_text(f.name@))]
    }
}

fn scan_fn(f: &FnDef) -> (r: Vec<Finding>)
    ensures views(r@) == fn_findings(f),
{
    let evs = block_events(&f.block, plain_walk());
    // The names bound to recovered keys.
    let mut bs: Vec<String> = Vec::new();
    let mut j: usize = 0;
    while j < evs.len()
        invariant
            j <= evs.len(),
            evs@ == ev_block(&f.block, plain()),
            texts(bs@) == bindings_in(evs@, j as int),
        decreases evs.len() - j,
    {
        match evs[j] {
            Event::Local(l) => {
                match &l.init {
                    Some(init) => {
                        if has_recover(init) {
                            match bound_name_of_pat(&l.pat) {
                                Some(n) => {
                                    let nc = n.clone();
                                    proof { lemma_texts_push(bs@, nc); }
                                    bs.push(nc);
                                }
                                None => {}
                            }
                        }
                    }
                    None => {}
                }
            }
            _ => {}
        }
        j = j + 1;
        assert(texts(bs@) =~= bindings_in(evs@, j as int));
    }
    let ghost b = texts(bs@);
    let mut out: Vec<Finding> = Vec::new();
    if bs.len() == 0 {
        let mut k: usize = 0;
        while k < evs.len()
            invariant
                k <= evs.len(),
                evs@ == ev_block(&f.block, plain()),
                views(out@) == inline_hits(evs@, f.name@, k as int),
            decreases evs.len() - k,
        {
            match evs[k] {
                Event::Expr(e) => match e {
                    Expr::MethodCall { line, .. } => {
                        if is_recover(e) {
                            let mut d = String::from_str("Method `");
                            d.append(f.name.as_str());
                            d.append("` calls `secp256k1_recover()` but the result is not stored or compared against a trusted key. The recovery provides no authentication guarantee.");
                            let fd = new_finding(CHECK_NAME, Severity::High, *line, f.name.as_str(), d);
                            proof { lemma_views_push(out@, fd); }
                            out.push(fd);
                        }
                    }
                    _ => {}
                },
                _ => {}
            }
            k = k + 1;
        }
        return out;
    }
    // Is some binding compared?
    let mut compared = false;
    let mut k: usize = 0;
    while k < evs.len() && !compared
        invariant
            k <= evs.len(),
            b == texts(bs@),
            compared ==> exists|q: int| 0 <= q < evs.len() && #[trigger] compares_at(evs@, q, b),
            !compared ==> forall|q: int| 0 <= q < k ==> !#[trigger] compares_at(evs@, q, b),
        decreases evs.len() - k,
    {
        match evs[k] {
            Event::Expr(e) => match e {
                Expr::Binary { left, op, right, .. } => {
                    let is_eq = match op {
                        BinOp::Eq | BinOp::Ne => true,
                        _ => false,
                    };
                    if is_eq && (contains_binding(left, &bs) || contains_binding(right, &bs)) {
                        compared = true;
                    }
                }
                _ => {}
            },
            Event::Macro(m) => {
                if (path_last_is(&m.path, "assert_eq") || path_last_is(&m.path, "assert_ne") || path_last_is(&m.path, "require"))
                    && mentions(m.text.as_str(), &bs) {
                    compared = true;
                }
            }
            _ => {}
        }
        proof {
            if compared {
                assert(compares_at(evs@, k as int, b));
            }
        }
        k = k + 1;
    }
    if !compared {
        // The line of the first recover call.
        let mut line: usize = 0;
        let mut q: usize = 0;
        while q < evs.len()
            invariant_except_break
                q <= evs.len(),
                line == 0,
                first_recover_line(evs@, 0) == first_recover_line(evs@, q as int),
            ensures
                line == first_recover_line(evs@, 0),
            decreases evs.len() - q,
        {
            match evs[q] {
                Event::Expr(e) => match e {
                    Expr::MethodCall { line: l, .. } => {
                        if is_recover(e) {
                            line = *l;
                            break;
                        }
                    }
                    _ => {}
                },
                _ => {}
            }
            q = q + 1;
        }
        let mut d = String::from_str("Method `");
        d.append(f.name.as_str());
        d.append("` calls `secp256k1_recover()` but the recovered public key is never compared (`==`) against a trusted key. The recovery result provides no authentication guarantee unless verified against a stored or expected public key.");
        out.push(new_finding(CHECK_NAME, Severity::High, line, f.name.as_str(), d));
    }
    assert(views(out@) =~= fn_findings(f));
    out
}

impl Check for Secp256k1UncheckedCheck {
    open spec fn spec_name(&self) -> Seq<char> {
        CHECK_NAME@
    }

    open spec fn spec_run(&self, file: &SourceFile, source: Seq<char>) -> Seq<FindingView> {
        over_fns(contract_fns(file), |f: &FnDef| fn_findings(f), contract_fns(file).len() as int)
    }

    fn name(&self) -> (r: &str) {
        CHECK_NAME
    }

    fn run(&self, file: &SourceFile, source: &str) -> (r: Vec<Finding>) {
        let fns = contractimpl_functions(file);
        let mut out: Vec<Finding> = Vec::new();
        let mut i: usize = 0;
        while i < fns.len()
            invariant
                i <= fns.len(),
                fns@ == contract_fns(file),
                views(out@) == over_fns(contract_fns(file), |f: &FnDef| fn_findings(f), i as int),
            decreases fns.len() - i,
        {
            let mut found = scan_fn(fns[i]);
            proof { lemma_views_append(out@, found@); }
            out.append(&mut found);
            i = i + 1;
        }
        out
    }
}

} // verus!

verus! {

proof fn lemma_hits_tagged(evs: Seq<Event>, func: Seq<char>, n: int)
    ensures crate::finding::tagged(inline_hits(evs, func, n), CHECK_NAME@, Severity::High),
    decreases n,
{
    if n > 0 && n <= evs.len() {
        lemma_hits_tagged(evs, func, n - 1);
        let prev = inline_hits(evs, func, n - 1);
        let cur = inline_hits(evs, func, n);
        assert forall|i: int| 0 <= i < cur.len() implies #[trigger] crate::finding::tag_ok(cur[i], CHECK_NAME@, Severity::High) by {
            if i < prev.len() {
                assert(cur[i] == prev[i]);
            }
        }
    }
}

proof fn lemma_fn_tagged(f: &FnDef)
    ensures crate::finding::tagged(fn_findings(f), CHECK_NAME@, Severity::High),
{
    let evs = ev_block(&f.block, plain());
    lemma_hits_tagged(evs, f.name@, evs.len() as int);
}

/// Every finding of this check names it, is of high severity, and has an
/// empty file path.
pub proof fn lemma_findings_tagged(file: &SourceFile, source: Seq<char>)
    ensures crate::finding::tagged(Secp256k1UncheckedCheck.spec_run(file, source), CHECK_NAME@, Severity::High),
{
    let fns = contract_fns(file);
    assert forall|k: int| 0 <= k < fns.len() implies crate::finding::tagged(fn_findings(fns[k]), CHECK_NAME@, Severity::High) by {
        lemma_fn_tagged(fns[k]);
    }
    crate::contract::lemma_over_fns_tagged(fns, |f: &FnDef| fn_findings(f), fns.len() as int, CHECK_NAME@, Severity::High);
}

} // verus!

verus! {

/// Only the functions of `#[contractimpl]` blocks are examined: one more
/// top-level item that is not such a block changes no finding.
pub proof fn lemma_ignores_other_items(a: &SourceFile, b: &SourceFile, source: Seq<char>)
    requires crate::contract::extended_by_other_item(a, b),
    ensures Secp256k1UncheckedCheck.spec_run(b, source) == Secp256k1UncheckedCheck.spec_run(a, source),
{
    crate::contract::lemma_contract_fns_extra_item(a, b);
}

} // verus!

verus! {

/// `e` is `<chain>.secp256k1_recover(..)` with `crypto` called in its
/// receiver chain.
pub open spec fn recovers(e: &Expr) -> bool {
    e matches Expr::MethodCall { receiver, method, .. } && method@ == "secp256k1_recover"@
        && spec_receiver_chain_contains(receiver, "crypto"@)
}

/// `e` is a path whose last segment is `b`.
pub open spec fn names_var(e: &Expr, b: Seq<char>) -> bool {
    e matches Expr::Path { path, .. } && path.segments.len() > 0 && path.segments@.last().ident@ == b
}

proof fn lemma_bindings_contain(evs: Seq<Event>, a: int, n: int, b: Seq<char>)
    requires
        0 <= a < n <= evs.len(),
        bindings_in(evs, a + 1).contains(b),
    ensures bindings_in(evs, n).contains(b),
    decreases n,
{
    if n > a + 1 {
        lemma_bindings_contain(evs, a, n - 1, b);
        let prev = bindings_in(evs, n - 1);
        let j = choose|j: int| 0 <= j < prev.len() && prev[j] == b;
        assert(bindings_in(evs, n)[j] == b);
    }
}

/// `let b = <crypto>.secp256k1_recover(..);` followed anywhere by a `==`
/// or `!=` comparison with `b` on either side: the recovered key is checked
/// and the function gets no finding.
pub proof fn lemma_checked_recovery_passes(f: &FnDef, a: int, k: int, b: Seq<char>)
    requires
        0 <= a < ev_block(&f.block, plain()).len(),
        ev_block(&f.block, plain())[a] matches Event::Local(l)
            && (l.init matches Some(init) && recovers(&*init)) && bound_name(&l.pat) == Some(b),
        0 <= k < ev_block(&f.block, plain()).len(),
        ev_block(&f.block, plain())[k] matches Event::Expr(e)
            && e matches Expr::Binary { left, op, right, .. } && (op == BinOp::Ne || op == BinOp::Eq)
            && (names_var(&**left, b) || names_var(&**right, b)),
    ensures fn_findings(f) == Seq::<FindingView>::empty(),
{
    let evs = ev_block(&f.block, plain());
    match evs[a] {
        Event::Local(l) => match &l.init {
            Some(init) => {
                assert(ev_expr(&**init, plain())[0] == Event::Expr(&**init));
                assert(expr_at(ev_expr(&**init, plain()), 0, recover_p()));
                assert(local_binding(l) == Some(b));
                assert(bindings_in(evs, a + 1)[bindings_in(evs, a).len() as int] == b);
            },
            None => {},
        },
        _ => {},
    }
    if a + 1 < evs.len() {
        lemma_bindings_contain(evs, a, evs.len() as int, b);
    }
    let bs = bindings_in(evs, evs.len() as int);
    assert(bs.contains(b));
    assert(compares_at(evs, k, bs));
}

} // verus!
