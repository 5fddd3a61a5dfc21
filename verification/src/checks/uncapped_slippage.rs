//! Swap functions that take a slippage parameter without capping it.

use vstd::prelude::*;
use crate::syntax::{BinOp, Expr, FnArg, FnDef, Pat, SourceFile, TokenTree};
use crate::walk::{block_events, ev_block, plain, plain_walk, Event};
use crate::finding::{fv, lemma_views_append, new_finding, views, Check, Finding, FindingView, Severity};
use crate::contract::{contract_fns, contractimpl_functions, over_fns, path_ident_is, path_is_ident};
use crate::text::{chars_contain, chars_of, join_lines, join_range, line_fold, line_range, lines_of, seq_contains, split_lines, str_eq};

verus! {

pub const CHECK_NAME: &'static str = "uncapped-slippage";

/// Flags public `swap`/`trade`/`exchange` functions of `#[contractimpl]`
/// blocks that take a slippage parameter and never compare it with `<=`.
pub struct UncappedSlippageCheck;

pub open spec fn spec_is_swap_name(n: Seq<char>) -> bool {
    n == "swap"@ || n == "trade"@ || n == "exchange"@
}

pub open spec fn spec_is_slippage_name(n: Seq<char>) -> bool {
    n == "slippage"@ || n == "slippage_bps"@ || n == "max_slippage"@
}

/// The first parameter that is an identifier with a slippage name.
pub open spec fn slippage_param_from(inputs: Seq<FnArg>, i: int) -> Option<Seq<char>>
    decreases inputs.len() - i,
{
    if i < 0 || i >= inputs.len() {
        None
    } else {
        match &inputs[i] {
            FnArg::Typed { pat, .. } => match pat {
                Pat::Ident { name, .. } =>
                    if spec_is_slippage_name(name@) { Some(name@) } else { slippage_param_from(inputs, i + 1) },
                _ => slippage_param_from(inputs, i + 1),
            },
            _ => slippage_param_from(inputs, i + 1),
        }
    }
}

fn slippage_param(inputs: &Vec<FnArg>) -> (r: Option<&String>)
    ensures
        r is Some <==> slippage_param_from(inputs@, 0) is Some,
        r is Some ==> r.unwrap()@ == slippage_param_from(inputs@, 0).unwrap(),
{
    let mut i: usize = 0;
    while i < inputs.len()
        invariant
            i <= inputs.len(),
            slippage_param_from(inputs@, 0) == slippage_param_from(inputs@, i as int),
        decreases inputs.len() - i,
    {
        match &inputs[i] {
            FnArg::Typed { pat, .. } => match pat {
                Pat::Ident { name, .. } => {
                    let n = name.as_str();
                    if str_eq(n, "slippage") || str_eq(n, "slippage_bps") || str_eq(n, "max_slippage") {
                        return Some(name);
                    }
                }
                _ => {}
            },
            _ => {}
        }
        i = i + 1;
    }
    None
}

/// The identifier `param` directly followed by a `<` among a macro's tokens.
pub open spec fn spec_tokens_le_guard(ts: Seq<TokenTree>, param: Seq<char>) -> bool {
    exists|k: int| 0 <= k && k + 1 < ts.len() && #[trigger] ident_then_lt(ts, k, param)
}

pub open spec fn ident_then_lt(ts: Seq<TokenTree>, k: int, param: Seq<char>) -> bool {
    (match ts[k] {
        TokenTree::Ident { name } => name@ == param,
        _ => false,
    }) && (match ts[k + 1] {
        TokenTree::Punct { ch } => ch == '<',
        _ => false,
    })
}

fn tokens_le_guard(ts: &Vec<TokenTree>, param: &str) -> (r: bool)
    ensures r == spec_tokens_le_guard(ts@, param@),
{
    if ts.len() < 2 {
        return false;
    }
    let mut k: usize = 0;
    while k < ts.len() - 1
        invariant
            ts.len() >= 2,
            forall|q: int| 0 <= q < k && q + 1 < ts.len() ==> !#[trigger] ident_then_lt(ts@, q, param@),
        decreases ts.len() - k,
    {
        let first = match &ts[k] {
            TokenTree::Ident { name } => str_eq(name.as_str(), param),
            _ => false,
        };
        let second = match &ts[k + 1] {
            TokenTree::Punct { ch } => *ch == '<',
            _ => false,
        };
        if first && second {
            assert(ident_then_lt(ts@, k as int, param@));
            return true;
        }
        k = k + 1;
    }
    false
}

/// The event guards `param`: `param <= ..`, or a macro (in expression or
/// statement position) whose tokens hold `param <`.
pub open spec fn guard_at(evs: Seq<Event>, k: int, param: Seq<char>) -> bool {
    match evs[k] {
        Event::Expr(e) => match e {
            Expr::Binary { left, op, .. } => *op == BinOp::Le && match &**left {
                Expr::Path { path, .. } => path_is_ident(path, param),
                _ => false,
            },
            _ => false,
        },
        Event::Macro(m) => spec_tokens_le_guard(m.tokens@, param),
        _ => false,
    }
}

/// The function's source lines, from the one before `fn` to the one after
/// the closing brace, joined with `\n`.
pub open spec fn body_text(f: &FnDef, source: Seq<char>) -> Seq<char> {
    let lo = if f.fn_line == 0 { 0 } else { f.fn_line - 1 };
    join_lines(line_range(lines_of(source), lo, f.block.close_line as int))
}

pub open spec fn description(func: Seq<char>, param: Seq<char>) -> Seq<char> {
    "`"@ + func + "` accepts `"@ + param + "` but never asserts `"@ + param
        + " <= MAX`. A caller can pass 100% slippage, disabling price protection and enabling sandwich attacks."@
}

/// A finding for a public swap function with a slippage parameter that no
/// `<=` guard (in the tree, or as `param <=` / `param<=` in its source lines)
/// caps.
pub open spec fn fn_findings(f: &FnDef, source: Seq<char>) -> Seq<FindingView> {
    if !f.is_pub || !spec_is_swap_name(f.name@) {
        Seq::empty()
    } else {
        match slippage_param_from(f.inputs@, 0) {
            None => Seq::empty(),
            Some(param) => {
                let evs = ev_block(&f.block, plain());
                let guarded = (exists|k: int| 0 <= k < evs.len() && #[trigger] guard_at(evs, k, param))
                    || seq_contains(body_text(f, source), param + " <="@)
                    || seq_contains(body_text(f, source), param + "<="@);
                if guarded {
                    Seq::empty()
                } else {
                    seq![fv(CHECK_NAME@, Severity::High, f.fn_line, f.name@, description(f.name@, param))]
                }
            },
        }
    }
}

fn pattern(param: &str, spaced: bool) -> (r: Vec<char>)
    ensures r@ == param@ + (if spaced { " <="@ } else { "<="@ }),
{
    let mut p = chars_of(param);
    if spaced {
        p.push(' ');
    }
    p.push('<');
    p.push('=');
    proof {
        reveal_strlit(" <=");
        reveal_strlit("<=");
    }
    assert(p@ =~= param@ + (if spaced { " <="@ } else { "<="@ }));
    p
}

fn scan_fn(f: &FnDef, lines: &Vec<Vec<char>>, source: &str) -> (r: Vec<Finding>)
    requires lines@.map_values(|l: Vec<char>| l@) == lines_of(source@),
    ensures views(r@) == fn_findings(f, source@),
{
    let mut out: Vec<Finding> = Vec::new();
    if !f.is_pub || !(str_eq(f.name.as_str(), "swap") || str_eq(f.name.as_str(), "trade") || str_eq(f.name.as_str(), "exchange")) {
        assert(views(out@) =~= Seq::empty());
        return out;
    }
    let param = match slippage_param(&f.inputs) {
        Some(p) => p,
        None => {
            assert(views(out@) =~= Seq::empty());
            return out;
        }
    };
    let evs = block_events(&f.block, plain_walk());
    let mut found = false;
    let mut j: usize = 0;
    while j < evs.len() && !found
        invariant
            j <= evs.len(),
            found ==> exists|k: int| 0 <= k < evs.len() && #[trigger] guard_at(evs@, k, param@),
            !found ==> forall|k: int| 0 <= k < j ==> !#[trigger] guard_at(evs@, k, param@),
        decreases evs.len() - j,
    {
        match evs[j] {
            Event::Expr(e) => match e {
                Expr::Binary { left, op, .. } => {
                    let le = match op {
                        BinOp::Le => true,
                        _ => false,
                    };
                    if le {
                        match &**left {
                            Expr::Path { path, .. } => {
                                if path_ident_is(path, param.as_str()) {
                                    found = true;
                                }
                            }
                            _ => {}
                        }
                    }
                }
                _ => {}
            },
            Event::Macro(m) => {
                if tokens_le_guard(&m.tokens, param.as_str()) {
                    found = true;
                }
            }
            _ => {}
        }
        proof {
            if found {
                assert(guard_at(evs@, j as int, param@));
            }
        }
        j = j + 1;
    }
    if !found {
        let lo = if f.fn_line == 0 { 0 } else { f.fn_line - 1 };
        let body = join_range(lines, lo, f.block.close_line);
        let p1 = pattern(param.as_str(), true);
        let p2 = pattern(param.as_str(), false);
        if chars_contain(&body, &p1) || chars_contain(&body, &p2) {
            found = true;
        }
    }
    if !found {
        let mut d = String::from_str("`");
        d.append(f.name.as_str());
        d.append("` accepts `");
        d.append(param.as_str());
        d.append("` but never asserts `");
        d.append(param.as_str());
        d.append(" <= MAX`. A caller can pass 100% slippage, disabling price protection and enabling sandwich attacks.");
        out.push(new_finding(CHECK_NAME, Severity::High, f.fn_line, f.name.as_str(), d));
    }
    assert(views(out@) =~= fn_findings(f, source@));
    out
}

impl Check for UncappedSlippageCheck {
    open spec fn spec_name(&self) -> Seq<char> {
        CHECK_NAME@
    }

    open spec fn spec_run(&self, file: &SourceFile, source: Seq<char>) -> Seq<FindingView> {
        over_fns(contract_fns(file), |f: &FnDef| fn_findings(f, source), contract_fns(file).len() as int)
    }

    fn name(&self) -> (r: &str) {
        CHECK_NAME
    }

    fn run(&self, file: &SourceFile, source: &str) -> (r: Vec<Finding>) {
        let fns = contractimpl_functions(file);
        let lines = split_lines(source);
        let mut out: Vec<Finding> = Vec::new();
        let mut i: usize = 0;
        while i < fns.len()
            invariant
                i <= fns.len(),
                fns@ == contract_fns(file),
                lines@.map_values(|l: Vec<char>| l@) == lines_of(source@),
                views(out@) == over_fns(contract_fns(file), |f: &FnDef| fn_findings(f, source@), i as int),
            decreases fns.len() - i,
        {
            let mut found = scan_fn(fns[i], &lines, source);
            proof { lemma_views_append(out@, found@); }
            out.append(&mut found);
            i = i + 1;
        }
        out
    }
}

} // verus!

verus! {

/// Every finding of this check names it, is of high severity, and has an
/// empty file path.
pub proof fn lemma_findings_tagged(file: &SourceFile, source: Seq<char>)
    ensures crate::finding::tagged(UncappedSlippageCheck.spec_run(file, source), CHECK_NAME@, Severity::High),
{
    let fns = contract_fns(file);
    crate::contract::lemma_over_fns_tagged(fns, |f: &FnDef| fn_findings(f, source), fns.len() as int, CHECK_NAME@, Severity::High);
}

} // verus!

verus! {

/// Only the functions of `#[contractimpl]` blocks are examined: one more
/// top-level item that is not such a block changes no finding.
pub proof fn lemma_ignores_other_items(a: &SourceFile, b: &SourceFile, source: Seq<char>)
    requires crate::contract::extended_by_other_item(a, b),
    ensures UncappedSlippageCheck.spec_run(b, source) == UncappedSlippageCheck.spec_run(a, source),
{
    crate::contract::lemma_contract_fns_extra_item(a, b);
}

} // verus!

verus! {

/// `a` is `b` with some of its elements left out, the rest in their order.
pub open spec fn is_subseq<A>(a: Seq<A>, b: Seq<A>) -> bool
    decreases b.len(),
{
    if b.len() == 0 {
        a.len() == 0
    } else {
        is_subseq(a, b.drop_last())
            || (a.len() > 0 && a.last() == b.last() && is_subseq(a.drop_last(), b.drop_last()))
    }
}

proof fn lemma_subseq_empty<A>(b: Seq<A>)
    ensures is_subseq(Seq::<A>::empty(), b),
    decreases b.len(),
{
    if b.len() > 0 {
        lemma_subseq_empty(b.drop_last());
    }
}

proof fn lemma_subseq_refl<A>(b: Seq<A>)
    ensures is_subseq(b, b),
    decreases b.len(),
{
    if b.len() > 0 {
        lemma_subseq_refl(b.drop_last());
    }
}

proof fn lemma_subseq_concat<A>(a1: Seq<A>, b1: Seq<A>, a2: Seq<A>, b2: Seq<A>)
    requires is_subseq(a1, b1), is_subseq(a2, b2),
    ensures is_subseq(a1 + a2, b1 + b2),
    decreases b2.len(),
{
    if b2.len() == 0 {
        assert(a1 + a2 =~= a1);
        assert(b1 + b2 =~= b1);
    } else {
        assert((b1 + b2).drop_last() =~= b1 + b2.drop_last());
        if is_subseq(a2, b2.drop_last()) {
            lemma_subseq_concat(a1, b1, a2, b2.drop_last());
        } else {
            lemma_subseq_concat(a1, b1, a2.drop_last(), b2.drop_last());
            assert((a1 + a2).drop_last() =~= a1 + a2.drop_last());
        }
    }
}

proof fn lemma_empty_source_no_text_guard(f: &FnDef, needle: Seq<char>)
    requires needle.len() > 0,
    ensures !seq_contains(body_text(f, Seq::empty()), needle),
{
    let lo = if f.fn_line == 0 { 0 } else { f.fn_line - 1 };
    assert(line_fold(Seq::<char>::empty(), 0) == (Seq::<Seq<char>>::empty(), Seq::<char>::empty()));
    assert(lines_of(Seq::<char>::empty()) =~= Seq::<Seq<char>>::empty());
    assert(line_range(Seq::<Seq<char>>::empty(), lo as int, f.block.close_line as int) =~= Seq::<Seq<char>>::empty());
    assert(body_text(f, Seq::empty()) =~= Seq::<char>::empty());
}

/// The source text can only take a finding away: for every function, what
/// is found with some source text is either nothing or what is found with
/// none.
pub proof fn lemma_fn_source_only_suppresses(f: &FnDef, source: Seq<char>)
    ensures
        fn_findings(f, source).len() == 0 || fn_findings(f, source) == fn_findings(f, Seq::empty()),
{
    match slippage_param_from(f.inputs@, 0) {
        Some(param) => {
            reveal_strlit(" <=");
            reveal_strlit("<=");
            lemma_empty_source_no_text_guard(f, param + " <="@);
            lemma_empty_source_no_text_guard(f, param + "<="@);
        },
        None => {},
    }
}

/// The source text can only take findings away: what the check reports with
/// some source text is what it reports with none, some of it left out.
pub proof fn lemma_source_only_suppresses(file: &SourceFile, source: Seq<char>)
    ensures is_subseq(UncappedSlippageCheck.spec_run(file, source), UncappedSlippageCheck.spec_run(file, Seq::empty())),
{
    let fns = contract_fns(file);
    lemma_over_fns_subseq(fns, source, fns.len() as int);
}

proof fn lemma_over_fns_subseq(fns: Seq<&FnDef>, source: Seq<char>, n: int)
    ensures
        is_subseq(
            over_fns(fns, |f: &FnDef| fn_findings(f, source), n),
            over_fns(fns, |f: &FnDef| fn_findings(f, Seq::empty()), n),
        ),
    decreases n,
{
    if n <= 0 || n > fns.len() {
        lemma_subseq_empty(Seq::<FindingView>::empty());
    } else {
        lemma_over_fns_subseq(fns, source, n - 1);
        let f = fns[n - 1];
        lemma_fn_source_only_suppresses(f, source);
        if fn_findings(f, source).len() == 0 {
            lemma_subseq_empty(fn_findings(f, Seq::empty()));
            assert(fn_findings(f, source) =~= Seq::<FindingView>::empty());
        } else {
            lemma_subseq_refl(fn_findings(f, Seq::empty()));
        }
        lemma_subseq_concat(
            over_fns(fns, |f: &FnDef| fn_findings(f, source), n - 1),
            over_fns(fns, |f: &FnDef| fn_findings(f, Seq::empty()), n - 1),
            fn_findings(f, source),
            fn_findings(f, Seq::empty()),
        );
    }
}

} // verus!

verus! {

/// The name is `max_slippage`, `slippage_bps` or `slippage`.
pub open spec fn slippage_word(n: Seq<char>) -> bool {
    n == "max_slippage"@ || n == "slippage_bps"@ || n == "slippage"@
}

/// Parameter `i` is the plain identifier `name`.
pub open spec fn param_named(inputs: Seq<FnArg>, i: int, name: Seq<char>) -> bool {
    0 <= i < inputs.len() && (inputs[i] matches FnArg::Typed { pat: Pat::Ident { name: n, .. }, .. } && n@ == name)
}

/// `e` is `p <= ..` with the plain identifier `p` on the left.
pub open spec fn caps(e: &Expr, p: Seq<char>) -> bool {
    e matches Expr::Binary { left, op, .. } && op == BinOp::Le
        && (**left matches Expr::Path { path, .. } && !path.leading_colon && path.segments.len() == 1
            && !path.segments@[0].has_args && path.segments@[0].ident@ == p)
}

/// A macro's tokens hold `p <`.
pub open spec fn macro_caps(ts: Seq<TokenTree>, p: Seq<char>) -> bool {
    exists|k: int| 0 <= k && k + 1 < ts.len()
        && (#[trigger] ts[k] matches TokenTree::Ident { name } && name@ == p)
        && (ts[k + 1] matches TokenTree::Punct { ch } && ch == '<')
}

proof fn lemma_slippage_param_at(inputs: Seq<FnArg>, i: int, j: int, p: Seq<char>)
    requires
        0 <= j <= i < inputs.len(),
        param_named(inputs, i, p),
        slippage_word(p),
        forall|q: int, n: Seq<char>| 0 <= q < i && #[trigger] param_named(inputs, q, n) ==> !slippage_word(n),
    ensures slippage_param_from(inputs, j) == Some(p),
    decreases i - j,
{
    if j < i {
        lemma_slippage_param_at(inputs, i, j + 1, p);
        match &inputs[j] {
            FnArg::Typed { pat, .. } => match pat {
                Pat::Ident { name, .. } => {
                    assert(param_named(inputs, j, name@));
                },
                _ => {},
            },
            _ => {},
        }
    }
}

/// A public `swap`, `trade` or `exchange` whose first slippage-named
/// parameter `p` is never capped in the syntax tree (no `p <= ..`, and no
/// macro whose tokens hold `p <`, in statement or expression position) gets
/// one finding at `fn` when no source text is given.
pub proof fn lemma_uncapped_flagged(f: &FnDef, i: int, p: Seq<char>)
    requires
        f.is_pub,
        f.name@ == "exchange"@ || f.name@ == "trade"@ || f.name@ == "swap"@,
        param_named(f.inputs@, i, p),
        slippage_word(p),
        forall|q: int, n: Seq<char>| 0 <= q < i && #[trigger] param_named(f.inputs@, q, n) ==> !slippage_word(n),
        forall|k: int| 0 <= k < ev_block(&f.block, plain()).len() ==> !(#[trigger] ev_block(&f.block, plain())[k] matches Event::Expr(e) && caps(e, p)),
        forall|k: int| 0 <= k < ev_block(&f.block, plain()).len() ==> !(#[trigger] ev_block(&f.block, plain())[k] matches Event::Macro(m) && macro_caps(m.tokens@, p)),
    ensures fn_findings(f, Seq::empty()) == seq![fv(CHECK_NAME@, Severity::High, f.fn_line, f.name@, description(f.name@, p))],
{
    lemma_slippage_param_at(f.inputs@, i, 0, p);
    let evs = ev_block(&f.block, plain());
    assert forall|k: int| 0 <= k < evs.len() implies !#[trigger] guard_at(evs, k, p) by {
        match evs[k] {
            Event::Expr(e) => {
                assert(!caps(e, p));
            },
            Event::Macro(m) => {
                assert(!macro_caps(m.tokens@, p));
                if spec_tokens_le_guard(m.tokens@, p) {
                    let q = choose|q: int| 0 <= q && q + 1 < m.tokens@.len() && #[trigger] ident_then_lt(m.tokens@, q, p);
                    assert(m.tokens@[q] matches TokenTree::Ident { name } && name@ == p);
                }
            },
            _ => {},
        }
    }
    reveal_strlit(" <=");
    reveal_strlit("<=");
    lemma_empty_source_no_text_guard(f, p + " <="@);
    lemma_empty_source_no_text_guard(f, p + "<="@);
}

/// A `p <= ..` comparison of the slippage parameter anywhere in the body
/// clears the function, whatever the source text.
pub proof fn lemma_capped_passes(f: &FnDef, k: int, source: Seq<char>)
    requires
        slippage_param_from(f.inputs@, 0) is Some,
        0 <= k < ev_block(&f.block, plain()).len(),
        ev_block(&f.block, plain())[k] matches Event::Expr(e) && caps(e, slippage_param_from(f.inputs@, 0).unwrap()),
    ensures fn_findings(f, source) == Seq::<FindingView>::empty(),
{
    let evs = ev_block(&f.block, plain());
    assert(guard_at(evs, k, slippage_param_from(f.inputs@, 0).unwrap()));
}


/// A macro anywhere in the body (statement or expression, such as
/// `assert!(slippage <= 1000);`) whose tokens hold `p <` for the slippage
/// parameter `p` clears the function, whatever the source text.
pub proof fn lemma_macro_capped_passes(f: &FnDef, k: int, source: Seq<char>)
    requires
        slippage_param_from(f.inputs@, 0) is Some,
        0 <= k < ev_block(&f.block, plain()).len(),
        ev_block(&f.block, plain())[k] matches Event::Macro(m) && macro_caps(m.tokens@, slippage_param_from(f.inputs@, 0).unwrap()),
    ensures fn_findings(f, source) == Seq::<FindingView>::empty(),
{
    let evs = ev_block(&f.block, plain());
    let p = slippage_param_from(f.inputs@, 0).unwrap();
    match evs[k] {
        Event::Macro(m) => {
            let q = choose|q: int| 0 <= q && q + 1 < m.tokens@.len()
                && (#[trigger] m.tokens@[q] matches TokenTree::Ident { name } && name@ == p)
                && (m.tokens@[q + 1] matches TokenTree::Punct { ch } && ch == '<');
            assert(ident_then_lt(m.tokens@, q, p));
        },
        _ => {},
    }
    assert(guard_at(evs, k, p));
}
} // verus!
