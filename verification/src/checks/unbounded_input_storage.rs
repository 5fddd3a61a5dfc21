//! Storage writes of `Vec`/`Map` parameters without a size guard.
//!
//! Flags `storage()….set(key, value)` where `value` is a function parameter
//! typed `Vec<_>` or `Map<_, _>` (or a clone of one) and no `.len()`
//! comparison on a parameter comes before it.

use vstd::prelude::*;
use crate::syntax::{BinOp, Expr, FnArg, FnDef, Pat, Path, SourceFile, Ty};
use crate::walk::{block_events, ev_block, plain, plain_walk, Event};
use crate::finding::{fv, lemma_views_append, lemma_views_push, new_finding, views, Check, Finding, FindingView, Severity};
use crate::contract::{contract_fns, contractimpl_functions, over_fns, path_ends_with, path_last_is};
use crate::text::{lemma_texts_push, str_eq, string_in, texts};
use crate::checks::keys::{receiver_chain_contains, spec_receiver_chain_contains};

verus! {

pub const CHECK_NAME: &'static str = "unbounded-input-storage";

/// Flags storage `set` calls whose value is a `Vec`/`Map` parameter when no
/// length guard precedes them.
pub struct UnboundedInputStorageCheck;

/// The identifier that a path is, if it is a single plain identifier.
pub open spec fn spec_path_ident(p: &Path) -> Option<Seq<char>> {
    if !p.leading_colon && p.segments.len() == 1 && !p.segments@[0].has_args { Some(p.segments@[0].ident@) } else { None }
}

pub fn path_ident(p: &Path) -> (r: Option<&String>)
    ensures
        r is Some <==> spec_path_ident(p) is Some,
        r is Some ==> r.unwrap()@ == spec_path_ident(p).unwrap(),
{
    if !p.leading_colon && p.segments.len() == 1 && !p.segments[0].has_args { Some(&p.segments[0].ident) } else { None }
}

/// The identifier an expression names, through `&` and `.clone()`.
pub open spec fn spec_extract_ident(e: &Expr) -> Option<Seq<char>>
    decreases e,
{
    match e {
        Expr::Path { path, .. } => spec_path_ident(path),
        Expr::Reference { expr } => spec_extract_ident(expr),
        Expr::MethodCall { receiver, method, .. } => if method@ == "clone"@ { spec_extract_ident(receiver) } else { None },
        _ => None,
    }
}

fn extract_ident(e: &Expr) -> (r: Option<&String>)
    ensures
        r is Some <==> spec_extract_ident(e) is Some,
        r is Some ==> r.unwrap()@ == spec_extract_ident(e).unwrap(),
    decreases e,
{
    match e {
        Expr::Path { path, .. } => path_ident(path),
        Expr::Reference { expr } => extract_ident(expr),
        Expr::MethodCall { receiver, method, .. } => {
            if str_eq(method.as_str(), "clone") { extract_ident(receiver) } else { None }
        }
        _ => None,
    }
}

/// The identifier whose `.len()` an expression is.
pub open spec fn spec_len_call_ident(e: &Expr) -> Option<Seq<char>> {
    match e {
        Expr::MethodCall { receiver, method, .. } => if method@ == "len"@ { spec_extract_ident(receiver) } else { None },
        _ => None,
    }
}

fn len_call_ident(e: &Expr) -> (r: Option<&String>)
    ensures
        r is Some <==> spec_len_call_ident(e) is Some,
        r is Some ==> r.unwrap()@ == spec_len_call_ident(e).unwrap(),
{
    match e {
        Expr::MethodCall { receiver, method, .. } => {
            if str_eq(method.as_str(), "len") { extract_ident(receiver) } else { None }
        }
        _ => None,
    }
}

pub open spec fn spec_is_comparison(op: BinOp) -> bool {
    op == BinOp::Lt || op == BinOp::Le || op == BinOp::Gt || op == BinOp::Ge || op == BinOp::Eq || op == BinOp::Ne
}

fn is_comparison(op: BinOp) -> (r: bool)
    ensures r == spec_is_comparison(op),
{
    match op {
        BinOp::Lt | BinOp::Le | BinOp::Gt | BinOp::Ge | BinOp::Eq | BinOp::Ne => true,
        _ => false,
    }
}

/// A type whose last path segment is `Vec` or `Map`.
pub open spec fn spec_is_vec_or_map(t: &Ty) -> bool {
    match t {
        Ty::Path { path } => path_ends_with(path, "Vec"@) || path_ends_with(path, "Map"@),
        _ => false,
    }
}

/// The names of the first `n` parameters that are plain identifiers typed
/// `Vec`/`Map`.
pub open spec fn vec_map_params(inputs: Seq<FnArg>, n: int) -> Seq<Seq<char>>
    decreases n,
{
    if n <= 0 || n > inputs.len() {
        Seq::empty()
    } else {
        vec_map_params(inputs, n - 1) + match &inputs[n - 1] {
            FnArg::Typed { pat, ty } => match pat {
                Pat::Ident { name, .. } => if spec_is_vec_or_map(ty) { seq![name@] } else { Seq::empty() },
                _ => Seq::empty(),
            },
            _ => Seq::empty(),
        }
    }
}

fn collect_params(inputs: &Vec<FnArg>) -> (r: Vec<String>)
    ensures texts(r@) == vec_map_params(inputs@, inputs.len() as int),
{
    let mut out: Vec<String> = Vec::new();
    let mut i: usize = 0;
    while i < inputs.len()
        invariant
            i <= inputs.len(),
            texts(out@) == vec_map_params(inputs@, i as int),
        decreases inputs.len() - i,
    {
        match &inputs[i] {
            FnArg::Typed { pat, ty } => match pat {
                Pat::Ident { name, .. } => {
                    let keep = match ty {
                        Ty::Path { path } => path_last_is(path, "Vec") || path_last_is(path, "Map"),
                        _ => false,
                    };
                    if keep {
                        let n = name.clone();
                        proof { lemma_texts_push(out@, n); }
                        out.push(n);
                    }
                }
                _ => {}
            },
            _ => {}
        }
        i = i + 1;
        assert(texts(out@) =~= vec_map_params(inputs@, i as int));
    }
    out
}

/// Some name of `b` is in `a`.
pub open spec fn overlaps(a: Seq<Seq<char>>, b: Seq<Seq<char>>) -> bool {
    exists|i: int| 0 <= i < b.len() && a.contains(#[trigger] b[i])
}

fn overlap(a: &Vec<String>, b: &Vec<String>) -> (r: bool)
    ensures r == overlaps(texts(a@), texts(b@)),
{
    let mut i: usize = 0;
    while i < b.len()
        invariant
            i <= b.len(),
            forall|k: int| 0 <= k < i ==> !texts(a@).contains(#[trigger] texts(b@)[k]),
        decreases b.len() - i,
    {
        if string_in(a, b[i].as_str()) {
            assert(texts(a@).contains(texts(b@)[i as int]));
            return true;
        }
        i = i + 1;
    }
    false
}

/// The scan of one function: names cloned from parameters, parameters whose
/// length was compared, and the findings so far.
pub struct InputScan {
    pub derived: Seq<Seq<char>>,
    pub checked: Seq<Seq<char>>,
    pub found: Seq<FindingView>,
}

pub open spec fn description(func: Seq<char>, ident: Seq<char>) -> Seq<char> {
    "Method `"@ + func + "` writes Vec/Map parameter `"@ + ident
        + "` directly to storage \\\nwithout a preceding size guard (`.len()` comparison). This may cause \\\nthe storage entry to exceed ledger limits and brick the contract."@
}

/// The parameter names that a comparison's side adds to `checked`.
pub open spec fn len_checked_side(side: &Expr, params: Seq<Seq<char>>) -> Seq<Seq<char>> {
    match spec_len_call_ident(side) {
        Some(id) => if params.contains(id) { seq![id] } else { Seq::empty() },
        None => Seq::empty(),
    }
}

/// How one event changes the scan.
pub open spec fn step(st: InputScan, ev: Event, params: Seq<Seq<char>>, func: Seq<char>) -> InputScan {
    match ev {
        Event::Local(l) => match &l.init {
            Some(init) => match &**init {
                Expr::MethodCall { receiver, method, .. } =>
                    if method@ == "clone"@ {
                        match (spec_extract_ident(receiver), &l.pat) {
                            (Some(src), Pat::Ident { name, .. }) =>
                                if params.contains(src) || st.derived.contains(src) {
                                    InputScan { derived: st.derived.push(name@), ..st }
                                } else {
                                    st
                                },
                            _ => st,
                        }
                    } else {
                        st
                    },
                _ => st,
            },
            None => st,
        },
        Event::Expr(e) => match e {
            Expr::MethodCall { receiver, method, args, line } =>
                if method@ == "set"@ && spec_receiver_chain_contains(receiver, "storage"@) && args.len() >= 2 {
                    match spec_extract_ident(&args@[1]) {
                        Some(id) => {
                            let is_param = params.contains(id) || st.derived.contains(id);
                            let is_checked = st.checked.contains(id) || overlaps(st.checked, st.derived)
                                || overlaps(st.checked, params);
                            if is_param && !is_checked {
                                InputScan {
                                    found: st.found.push(fv(CHECK_NAME@, Severity::High, *line, func, description(func, id))),
                                    ..st
                                }
                            } else {
                                st
                            }
                        },
                        None => st,
                    }
                } else {
                    st
                },
            Expr::Binary { left, op, right, .. } =>
                if spec_is_comparison(*op) {
                    InputScan {
                        checked: st.checked + len_checked_side(left, params) + len_checked_side(right, params),
                        ..st
                    }
                } else {
                    st
                },
            _ => st,
        },
        _ => st,
    }
}

/// The scan after the first `n` events.
pub open spec fn scan(evs: Seq<Event>, params: Seq<Seq<char>>, func: Seq<char>, n: int) -> InputScan
    decreases n,
{
    if n <= 0 || n > evs.len() {
        InputScan { derived: Seq::empty(), checked: Seq::empty(), found: Seq::empty() }
    } else {
        step(scan(evs, params, func, n - 1), evs[n - 1], params, func)
    }
}

pub open spec fn fn_findings(f: &FnDef) -> Seq<FindingView> {
    let params = vec_map_params(f.inputs@, f.inputs.len() as int);
    let evs = ev_block(&f.block, plain());
    if params.len() == 0 {
        Seq::empty()
    } else {
        scan(evs, params, f.name@, evs.len() as int).found
    }
}

fn add_len_checked(side: &Expr, params: &Vec<String>, checked: &mut Vec<String>)
    ensures texts(final(checked)@) == texts(old(checked)@) + len_checked_side(side, texts(params@)),
{
    match len_call_ident(side) {
        Some(id) => {
            if string_in(params, id.as_str()) {
                let c = id.clone();
                proof { lemma_texts_push(checked@, c); }
                checked.push(c);
            }
        }
        None => {}
    }
    assert(texts(checked@) =~= texts(old(checked)@) + len_checked_side(side, texts(params@)));
}

fn scan_fn(f: &FnDef) -> (r: Vec<Finding>)
    ensures views(r@) == fn_findings(f),
{
    let params = collect_params(&f.inputs);
    let mut out: Vec<Finding> = Vec::new();
    if params.len() == 0 {
        return out;
    }
    let ghost ps = texts(params@);
    let evs = block_events(&f.block, plain_walk());
    let mut derived: Vec<String> = Vec::new();
    let mut checked: Vec<String> = Vec::new();
    let mut j: usize = 0;
    assert(texts(derived@) =~= Seq::empty());
    assert(texts(checked@) =~= Seq::empty());
    assert(views(out@) =~= Seq::empty());
    while j < evs.len()
        invariant
            j <= evs.len(),
            ps == texts(params@),
            ps == vec_map_params(f.inputs@, f.inputs.len() as int),
            evs@ == ev_block(&f.block, plain()),
            scan(evs@, ps, f.name@, j as int)
                == (InputScan { derived: texts(derived@), checked: texts(checked@), found: views(out@) }),
        decreases evs.len() - j,
    {
        match evs[j] {
            Event::Local(l) => match &l.init {
                Some(init) => match &**init {
                    Expr::MethodCall { receiver, method, .. } => {
                        if str_eq(method.as_str(), "clone") {
                            match (extract_ident(receiver), &l.pat) {
                                (Some(src), Pat::Ident { name, .. }) => {
                                    if string_in(&params, src.as_str()) || string_in(&derived, src.as_str()) {
                                        let n = name.clone();
                                        proof { lemma_texts_push(derived@, n); }
                                        derived.push(n);
                                    }
                                }
                                _ => {}
                            }
                        }
                    }
                    _ => {}
                },
                None => {}
            },
            Event::Expr(e) => match e {
                Expr::MethodCall { receiver, method, args, line } => {
                    if str_eq(method.as_str(), "set") && receiver_chain_contains(receiver, "storage") && args.len() >= 2 {
                        match extract_ident(&args[1]) {
                            Some(id) => {
                                let is_param = string_in(&params, id.as_str()) || string_in(&derived, id.as_str());
                                let is_checked = string_in(&checked, id.as_str()) || overlap(&checked, &derived)
                                    || overlap(&checked, &params);
                                if is_param && !is_checked {
                                    let mut d = String::from_str("Method `");
                                    d.append(f.name.as_str());
                                    d.append("` writes Vec/Map parameter `");
                                    d.append(id.as_str());
                                    d.append("` directly to storage \\\nwithout a preceding size guard (`.len()` comparison). This may cause \\\nthe storage entry to exceed ledger limits and brick the contract.");
                                    let fd = new_finding(CHECK_NAME, Severity::High, *line, f.name.as_str(), d);
                                    proof { lemma_views_push(out@, fd); }
                                    out.push(fd);
                                }
                            }
                            None => {}
                        }
                    }
                }
                Expr::Binary { left, op, right, .. } => {
                    if is_comparison(*op) {
                        add_len_checked(left, &params, &mut checked);
                        add_len_checked(right, &params, &mut checked);
                    }
                }
                _ => {}
            },
            _ => {}
        }
        j = j + 1;
    }
    out
}

impl Check for UnboundedInputStorageCheck {
    open spec fn spec_name(&self) -> Seq<char> {
        CHECK_NAME@
    }

    open spec fn spec_run(&self, file: &SourceFile, source: Seq<char>) -> Seq<FindingView> {
        over_fns(contract_fns(file), |f: &FnDef| fn_findings(f), contract_fns(file).len() as int)
    }

    fn name(&self) -> (r: &str) {
        CHECK_NAME
    }

    fn run(&self, file: &SourceFile, source: &str) -> (r: Vec<Finding>) {
        let fns = contractimpl_functions(file);
        let mut out: Vec<Finding> = Vec::new();
        let mut i: usize = 0;
        while i < fns.len()
            invariant
                i <= fns.len(),
                fns@ == contract_fns(file),
                views(out@) == over_fns(contract_fns(file), |f: &FnDef| fn_findings(f), i as int),
            decreases fns.len() - i,
        {
            let mut found = scan_fn(fns[i]);
            proof { lemma_views_append(out@, found@); }
            out.append(&mut found);
            i = i + 1;
        }
        out
    }
}

} // verus!

verus! {

proof fn lemma_scan_tagged(evs: Seq<Event>, params: Seq<Seq<char>>, func: Seq<char>, n: int)
    ensures crate::finding::tagged(scan(evs, params, func, n).found, CHECK_NAME@, Severity::High),
    decreases n,
{
    if n > 0 && n <= evs.len() {
        lemma_scan_tagged(evs, params, func, n - 1);
        let prev = scan(evs, params, func, n - 1).found;
        let cur = scan(evs, params, func, n).found;
        assert forall|i: int| 0 <= i < cur.len() implies #[trigger] crate::finding::tag_ok(cur[i], CHECK_NAME@, Severity::High) by {
            if i < prev.len() {
                assert(cur[i] == prev[i]);
            }
        }
    }
}

proof fn lemma_fn_tagged(f: &FnDef)
    ensures crate::finding::tagged(fn_findings(f), CHECK_NAME@, Severity::High),
{
    let evs = ev_block(&f.block, plain());
    let params = vec_map_params(f.inputs@, f.inputs.len() as int);
    lemma_scan_tagged(evs, params, f.name@, evs.len() as int);
}

/// Every finding of this check names it, is of high severity, and has an
/// empty file path.
pub proof fn lemma_findings_tagged(file: &SourceFile, source: Seq<char>)
    ensures crate::finding::tagged(UnboundedInputStorageCheck.spec_run(file, source), CHECK_NAME@, Severity::High),
{
    let fns = contract_fns(file);
    assert forall|k: int| 0 <= k < fns.len() implies crate::finding::tagged(fn_findings(fns[k]), CHECK_NAME@, Severity::High) by {
        lemma_fn_tagged(fns[k]);
    }
    crate::contract::lemma_over_fns_tagged(fns, |f: &FnDef| fn_findings(f), fns.len() as int, CHECK_NAME@, Severity::High);
}

} // verus!

verus! {

/// Only the functions of `#[contractimpl]` blocks are examined: one more
/// top-level item that is not such a block changes no finding.
pub proof fn lemma_ignores_other_items(a: &SourceFile, b: &SourceFile, source: Seq<char>)
    requires crate::contract::extended_by_other_item(a, b),
    ensures UnboundedInputStorageCheck.spec_run(b, source) == UnboundedInputStorageCheck.spec_run(a, source),
{
    crate::contract::lemma_contract_fns_extra_item(a, b);
}

} // verus!

verus! {

/// `e` is the plain identifier `name`.
pub open spec fn is_plain_ident(e: &Expr, name: Seq<char>) -> bool {
    e matches Expr::Path { path, .. } && !path.leading_colon && path.segments.len() == 1
        && !path.segments@[0].has_args && path.segments@[0].ident@ == name
}

/// `e` is `name.len()`.
pub open spec fn is_len_of(e: &Expr, name: Seq<char>) -> bool {
    e matches Expr::MethodCall { receiver, method, .. } && method@ == "len"@ && is_plain_ident(receiver, name)
}

/// `e` compares `name.len()`, on either side, by `<`, `<=`, `>`, `>=`, `==`
/// or `!=`.
pub open spec fn compares_len(e: &Expr, name: Seq<char>) -> bool {
    e matches Expr::Binary { left, op, right, .. }
        && (op == BinOp::Eq || op == BinOp::Ne || op == BinOp::Lt || op == BinOp::Gt || op == BinOp::Le || op == BinOp::Ge)
        && (is_len_of(left, name) || is_len_of(right, name))
}

proof fn lemma_checked_stays(evs: Seq<Event>, params: Seq<Seq<char>>, func: Seq<char>, k: int, n: int, p: Seq<char>)
    requires
        0 <= k < n <= evs.len(),
        params.contains(p),
        scan(evs, params, func, k + 1).checked.contains(p),
        scan(evs, params, func, k + 1).found == scan(evs, params, func, k).found,
    ensures
        scan(evs, params, func, n).checked.contains(p),
        scan(evs, params, func, n).found == scan(evs, params, func, k).found,
    decreases n,
{
    if n > k + 1 {
        lemma_checked_stays(evs, params, func, k, n - 1, p);
        let st = scan(evs, params, func, n - 1);
        let i = choose|i: int| 0 <= i < params.len() && params[i] == p;
        assert(overlaps(st.checked, params));
        let st2 = scan(evs, params, func, n);
        assert(st2.checked.contains(p)) by {
            let q = choose|q: int| 0 <= q < st.checked.len() && st.checked[q] == p;
            match evs[n - 1] {
                Event::Expr(e) => match e {
                    Expr::Binary { left, op, right, .. } => {
                        if spec_is_comparison(*op) {
                            assert(st2.checked[q] == p);
                        }
                    },
                    _ => {},
                },
                _ => {},
            }
        }
    }
}

/// Once the length of a `Vec`/`Map` parameter has been compared (by any of
/// `<`, `<=`, `>`, `>=`, `==`, `!=`, with `p.len()` on either side), no later
/// storage write gives a finding: the findings are those made before.
pub proof fn lemma_len_check_stops_findings(f: &FnDef, k: int, p: Seq<char>)
    requires
        vec_map_params(f.inputs@, f.inputs.len() as int).contains(p),
        0 <= k < ev_block(&f.block, plain()).len(),
        ev_block(&f.block, plain())[k] matches Event::Expr(e) && compares_len(e, p),
    ensures
        fn_findings(f) == scan(ev_block(&f.block, plain()), vec_map_params(f.inputs@, f.inputs.len() as int), f.name@, k).found,
{
    let params = vec_map_params(f.inputs@, f.inputs.len() as int);
    let evs = ev_block(&f.block, plain());
    let st = scan(evs, params, f.name@, k);
    match evs[k] {
        Event::Expr(e) => match e {
            Expr::Binary { left, right, .. } => {
                let lc = len_checked_side(left, params);
                let rc = len_checked_side(right, params);
                let st1 = scan(evs, params, f.name@, k + 1);
                assert(st1.checked == st.checked + lc + rc);
                if is_len_of(left, p) {
                    assert(lc == seq![p]);
                    assert(st1.checked[st.checked.len() as int] == p);
                } else {
                    assert(rc == seq![p]);
                    assert(st1.checked[(st.checked.len() + lc.len()) as int] == p);
                }
            },
            _ => {},
        },
        _ => {},
    }
    if k + 1 < evs.len() {
        lemma_checked_stays(evs, params, f.name@, k, evs.len() as int, p);
    }
}

proof fn lemma_unchecked_prefix(evs: Seq<Event>, params: Seq<Seq<char>>, func: Seq<char>, k: int, n: int)
    requires
        0 <= n <= k <= evs.len(),
        forall|j: int| 0 <= j < k ==> !(#[trigger] evs[j] matches Event::Expr(e) && e is Binary),
    ensures scan(evs, params, func, n).checked.len() == 0,
    decreases n,
{
    if n > 0 {
        lemma_unchecked_prefix(evs, params, func, k, n - 1);
    }
}

proof fn lemma_found_grows(evs: Seq<Event>, params: Seq<Seq<char>>, func: Seq<char>, k: int, n: int, fd: FindingView)
    requires
        0 <= k < n <= evs.len(),
        scan(evs, params, func, k + 1).found.contains(fd),
    ensures scan(evs, params, func, n).found.contains(fd),
    decreases n,
{
    if n > k + 1 {
        lemma_found_grows(evs, params, func, k, n - 1, fd);
        let prev = scan(evs, params, func, n - 1).found;
        let j = choose|j: int| 0 <= j < prev.len() && prev[j] == fd;
        assert(scan(evs, params, func, n).found[j] == fd);
    }
}

/// A storage `set` whose value is a `Vec`/`Map` parameter (plain or under
/// `&`), with no comparison of any kind before it in the function, is
/// reported at its line.
pub proof fn lemma_unchecked_write_flagged(f: &FnDef, k: int, p: Seq<char>)
    requires
        vec_map_params(f.inputs@, f.inputs.len() as int).contains(p),
        0 <= k < ev_block(&f.block, plain()).len(),
        ev_block(&f.block, plain())[k] matches Event::Expr(e)
            && e matches Expr::MethodCall { method, receiver, args, .. } && method@ == "set"@
            && spec_receiver_chain_contains(receiver, "storage"@) && args.len() >= 2
            && (is_plain_ident(&args@[1], p) || (args@[1] matches Expr::Reference { expr } && is_plain_ident(&*expr, p))),
        forall|j: int| 0 <= j < k ==> !(#[trigger] ev_block(&f.block, plain())[j] matches Event::Expr(e) && e is Binary),
    ensures
        fn_findings(f).contains(fv(CHECK_NAME@, Severity::High,
            ev_block(&f.block, plain())[k]->Expr_0->MethodCall_line, f.name@, description(f.name@, p))),
{
    let params = vec_map_params(f.inputs@, f.inputs.len() as int);
    let evs = ev_block(&f.block, plain());
    lemma_unchecked_prefix(evs, params, f.name@, k, k);
    let st = scan(evs, params, f.name@, k);
    let fd = fv(CHECK_NAME@, Severity::High, evs[k]->Expr_0->MethodCall_line, f.name@, description(f.name@, p));
    match evs[k] {
        Event::Expr(e) => match e {
            Expr::MethodCall { args, .. } => {
                assert(spec_extract_ident(&args@[1]) == Some(p)) by {
                    match &args@[1] {
                        Expr::Reference { expr } => {
                            match &**expr {
                                Expr::Path { path, .. } => {
                                    assert(spec_path_ident(path) == Some(p));
                                    assert(spec_extract_ident(&**expr) == Some(p));
                                },
                                _ => {},
                            }
                        },
                        Expr::Path { path, .. } => { assert(spec_path_ident(path) == Some(p)); },
                        _ => {},
                    }
                }
                assert(!overlaps(st.checked, st.derived));
                assert(!overlaps(st.checked, params));
                assert(scan(evs, params, f.name@, k + 1).found == st.found.push(fd));
                assert(scan(evs, params, f.name@, k + 1).found[st.found.len() as int] == fd);
            },
            _ => {},
        },
        _ => {},
    }
    if k + 1 < evs.len() {
        lemma_found_grows(evs, params, f.name@, k, evs.len() as int, fd);
    }
}

} // verus!
