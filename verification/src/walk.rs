//! The order in which a syntax-tree walk meets the nodes of a tree.
//!
//! `ev_*` state, as a sequence of events, which nodes a depth-first,
//! left-to-right walk meets and in which order; each node is met before the
//! nodes inside it. The `collect_*` functions gather those events.

use vstd::prelude::*;
use crate::syntax::{Arm, Block, Expr, FieldValue, FnDef, ImplItem, Item, Local, Macro, SourceFile, Stmt, StmtKind, TraitItem, TypeDef, UseTree};
use crate::text::str_eq;

verus! {

/// What a walk does with the arguments of a macro invocation.
#[derive(PartialEq, Eq, Structural, Clone, Copy)]
pub enum MacroBodies {
    /// Macro arguments are tokens, not visited.
    Skip,
    /// When the arguments read as one expression, that expression is visited.
    Body,
    /// As `Body`; otherwise the part before the first top-level comma is
    /// visited when it reads as one expression.
    BodyOrFirstArg,
}

/// How a walk goes. With `prune_storage_probes`, a `has`/`get` call on a
/// storage tier is met but its receiver and arguments are not.
#[derive(Clone, Copy)]
pub struct Walk {
    pub macros: MacroBodies,
    pub prune_storage_probes: bool,
}

/// A node met by a walk. `Stmt` carries the statement's index in its block.
pub enum Event<'a> {
    Block(&'a Block),
    Stmt(&'a Stmt, usize),
    Local(&'a Local),
    Expr(&'a Expr),
    Macro(&'a Macro),
    Fn(&'a FnDef),
    Enum(&'a TypeDef),
    Use(&'a UseTree),
}

/// The plain walk of the syntax tree: macro arguments are not visited.
pub open spec fn plain() -> Walk {
    Walk { macros: MacroBodies::Skip, prune_storage_probes: false }
}

/// True when `e` is a chain of method calls ending in one named `storage`.
pub open spec fn method_chain_has_storage(e: &Expr) -> bool
    decreases e,
{
    match e {
        Expr::MethodCall { receiver, method, .. } => method@ == "storage"@ || method_chain_has_storage(receiver),
        _ => false,
    }
}

/// The nearest `persistent`, `temporary` or `instance` call along a chain of
/// method calls.
pub open spec fn storage_tier(e: &Expr) -> Option<Seq<char>>
    decreases e,
{
    match e {
        Expr::MethodCall { receiver, method, .. } =>
            if method@ == "persistent"@ || method@ == "temporary"@ || method@ == "instance"@ {
                Some(method@)
            } else {
                storage_tier(receiver)
            },
        _ => None,
    }
}

/// A `has(..)` or `get(..)` call whose receiver chain calls `storage()` and
/// names a tier.
pub open spec fn is_storage_probe(e: &Expr) -> bool {
    match e {
        Expr::MethodCall { receiver, method, .. } =>
            (method@ == "has"@ || method@ == "get"@) && method_chain_has_storage(receiver) && storage_tier(receiver) is Some,
        _ => false,
    }
}

pub open spec fn ev_expr<'a>(e: &'a Expr, w: Walk) -> Seq<Event<'a>>
    decreases e, 0nat, 0int,
{
    seq![Event::Expr(e)] + match e {
        Expr::MethodCall { receiver, args, .. } =>
            if w.prune_storage_probes && is_storage_probe(e) {
                Seq::empty()
            } else {
                ev_expr(receiver, w) + ev_exprs(args, args.len() as int, w)
            },
        Expr::Call { func, args } => ev_expr(func, w) + ev_exprs(args, args.len() as int, w),
        Expr::Path { .. } => Seq::empty(),
        Expr::Lit { .. } => Seq::empty(),
        Expr::Field { base, .. } => ev_expr(base, w),
        Expr::Reference { expr } => ev_expr(expr, w),
        Expr::Paren { expr } => ev_expr(expr, w),
        Expr::Binary { left, right, .. } => ev_expr(left, w) + ev_expr(right, w),
        Expr::Unary { expr } => ev_expr(expr, w),
        Expr::Cast { expr, .. } => ev_expr(expr, w),
        Expr::Macro { mac } => ev_macro(mac, w),
        Expr::ForLoop { expr, body, .. } => ev_expr(expr, w) + ev_block(body, w),
        Expr::While { cond, body, .. } => ev_expr(cond, w) + ev_block(body, w),
        Expr::Loop { body } => ev_block(body, w),
        Expr::If { cond, then_branch, else_branch } =>
            ev_expr(cond, w) + ev_block(then_branch, w) + ev_opt(else_branch, w),
        Expr::Match { expr, arms } => ev_expr(expr, w) + ev_arms(arms, arms.len() as int, w),
        Expr::Block { block } => ev_block(block, w),
        Expr::Closure { body } => ev_expr(body, w),
        Expr::Return { expr } => ev_opt(expr, w),
        Expr::Break { expr } => ev_opt(expr, w),
        Expr::Struct { fields, rest, .. } => ev_fields(fields, fields.len() as int, w) + ev_opt(rest, w),
        Expr::Try { expr } => ev_expr(expr, w),
        Expr::Other { children } => ev_exprs(children, children.len() as int, w),
    }
}

pub open spec fn ev_opt<'a>(o: &'a Option<Box<Expr>>, w: Walk) -> Seq<Event<'a>>
    decreases o, 0nat, 0int,
{
    match o {
        Some(b) => ev_expr(b, w),
        None => Seq::empty(),
    }
}

/// Events of the first `n` expressions of `v`.
pub open spec fn ev_exprs<'a>(v: &'a Vec<Expr>, n: int, w: Walk) -> Seq<Event<'a>>
    decreases v, 1nat, n,
{
    if n <= 0 || n > v.len() {
        Seq::empty()
    } else {
        ev_exprs(v, n - 1, w) + ev_expr(&v@[n - 1], w)
    }
}

pub open spec fn ev_arms<'a>(v: &'a Vec<Arm>, n: int, w: Walk) -> Seq<Event<'a>>
    decreases v, 1nat, n,
{
    if n <= 0 || n > v.len() {
        Seq::empty()
    } else {
        ev_arms(v, n - 1, w) + ev_opt(&v@[n - 1].guard, w) + ev_expr(&v@[n - 1].body, w)
    }
}

pub open spec fn ev_fields<'a>(v: &'a Vec<FieldValue>, n: int, w: Walk) -> Seq<Event<'a>>
    decreases v, 1nat, n,
{
    if n <= 0 || n > v.len() {
        Seq::empty()
    } else {
        ev_fields(v, n - 1, w) + ev_expr(&v@[n - 1].expr, w)
    }
}

/// A macro invocation is met, then (depending on the walk) its arguments.
pub open spec fn ev_macro<'a>(m: &'a Macro, w: Walk) -> Seq<Event<'a>>
    decreases m, 0nat, 0int,
{
    seq![Event::Macro(m)] + match w.macros {
        MacroBodies::Skip => Seq::empty(),
        MacroBodies::Body => ev_opt(&m.body, w),
        MacroBodies::BodyOrFirstArg =>
            if m.body is Some { ev_opt(&m.body, w) } else { ev_opt(&m.first_arg, w) },
    }
}

pub open spec fn ev_block<'a>(b: &'a Block, w: Walk) -> Seq<Event<'a>>
    decreases b, 0nat, 0int,
{
    seq![Event::Block(b)] + ev_stmts(&b.stmts, b.stmts.len() as int, w)
}

pub open spec fn ev_stmts<'a>(v: &'a Vec<Stmt>, n: int, w: Walk) -> Seq<Event<'a>>
    decreases v, 1nat, n,
{
    if n <= 0 || n > v.len() {
        Seq::empty()
    } else {
        ev_stmts(v, n - 1, w) + ev_stmt(&v@[n - 1], (n - 1) as usize, w)
    }
}

pub open spec fn ev_stmt<'a>(s: &'a Stmt, idx: usize, w: Walk) -> Seq<Event<'a>>
    decreases s, 0nat, 0int,
{
    seq![Event::Stmt(s, idx)] + match &s.kind {
        StmtKind::Local { local } => ev_local(local, w),
        StmtKind::Item { item } => ev_item(item, w),
        StmtKind::Expr { expr, .. } => ev_expr(expr, w),
        StmtKind::Macro { mac } => ev_macro(mac, w),
    }
}

pub open spec fn ev_local<'a>(l: &'a Local, w: Walk) -> Seq<Event<'a>>
    decreases l, 0nat, 0int,
{
    seq![Event::Local(l)] + ev_opt(&l.init, w) + ev_opt(&l.diverge, w)
}

pub open spec fn ev_fn<'a>(f: &'a FnDef, w: Walk) -> Seq<Event<'a>>
    decreases f, 0nat, 0int,
{
    seq![Event::Fn(f)] + ev_block(&f.block, w)
}

pub open spec fn ev_item<'a>(i: &'a Item, w: Walk) -> Seq<Event<'a>>
    decreases i, 0nat, 0int,
{
    match i {
        Item::Fn { func } => ev_fn(func, w),
        Item::Impl { imp } => ev_impl_items(&imp.items, imp.items.len() as int, w),
        Item::Trait { items } => ev_trait_items(items, items.len() as int, w),
        Item::Struct { .. } => Seq::empty(),
        Item::Enum { def } => seq![Event::Enum(def)],
        Item::Use { tree } => ev_use(tree),
        Item::Mod { items } => ev_items(items, items.len() as int, w),
        Item::Const { expr } => ev_expr(expr, w),
        Item::Other => Seq::empty(),
    }
}

pub open spec fn ev_items<'a>(v: &'a Vec<Item>, n: int, w: Walk) -> Seq<Event<'a>>
    decreases v, 1nat, n,
{
    if n <= 0 || n > v.len() {
        Seq::empty()
    } else {
        ev_items(v, n - 1, w) + ev_item(&v@[n - 1], w)
    }
}

pub open spec fn ev_impl_items<'a>(v: &'a Vec<ImplItem>, n: int, w: Walk) -> Seq<Event<'a>>
    decreases v, 1nat, n,
{
    if n <= 0 || n > v.len() {
        Seq::empty()
    } else {
        ev_impl_items(v, n - 1, w) + match &v@[n - 1] {
            ImplItem::Fn { func } => ev_fn(func, w),
            ImplItem::Const { expr } => ev_expr(expr, w),
            ImplItem::Other => Seq::empty(),
        }
    }
}

/// The default bodies and values of the first `n` trait items.
pub open spec fn ev_trait_items<'a>(v: &'a Vec<TraitItem>, n: int, w: Walk) -> Seq<Event<'a>>
    decreases v, 1nat, n,
{
    if n <= 0 || n > v.len() {
        Seq::empty()
    } else {
        ev_trait_items(v, n - 1, w) + match &v@[n - 1] {
            TraitItem::Fn { body } => match body {
                Some(b) => ev_block(b, w),
                None => Seq::empty(),
            },
            TraitItem::Const { default } => match default {
                Some(e) => ev_expr(e, w),
                None => Seq::empty(),
            },
            TraitItem::Other => Seq::empty(),
        }
    }
}

pub open spec fn ev_use<'a>(t: &'a UseTree) -> Seq<Event<'a>>
    decreases t, 0nat, 0int,
{
    seq![Event::Use(t)] + match t {
        UseTree::Path { tree, .. } => ev_use(tree),
        UseTree::Group { items } => ev_uses(items, items.len() as int),
        _ => Seq::empty(),
    }
}

pub open spec fn ev_uses<'a>(v: &'a Vec<UseTree>, n: int) -> Seq<Event<'a>>
    decreases v, 1nat, n,
{
    if n <= 0 || n > v.len() {
        Seq::empty()
    } else {
        ev_uses(v, n - 1) + ev_use(&v@[n - 1])
    }
}

/// Events of a whole file.
pub open spec fn ev_file<'a>(f: &'a SourceFile, w: Walk) -> Seq<Event<'a>> {
    ev_items(&f.items, f.items.len() as int, w)
}

// ---------------------------------------------------------------------------
// Gathering the events.

pub fn storage_in_method_chain(e: &Expr) -> (r: bool)
    ensures r == method_chain_has_storage(e),
    decreases e,
{
    match e {
        Expr::MethodCall { receiver, method, .. } => str_eq(method.as_str(), "storage") || storage_in_method_chain(receiver),
        _ => false,
    }
}

/// The nearest tier named along a chain of method calls.
pub fn tier_in_chain(e: &Expr) -> (r: Option<&String>)
    ensures
        r is Some <==> storage_tier(e) is Some,
        r is Some ==> r.unwrap()@ == storage_tier(e).unwrap(),
    decreases e,
{
    match e {
        Expr::MethodCall { receiver, method, .. } => {
            let m = method.as_str();
            if str_eq(m, "persistent") || str_eq(m, "temporary") || str_eq(m, "instance") {
                Some(method)
            } else {
                tier_in_chain(receiver)
            }
        }
        _ => None,
    }
}

fn storage_probe(e: &Expr) -> (r: bool)
    ensures r == is_storage_probe(e),
{
    match e {
        Expr::MethodCall { receiver, method, .. } =>
            (str_eq(method.as_str(), "has") || str_eq(method.as_str(), "get")) && storage_in_method_chain(receiver)
                && tier_in_chain(receiver).is_some(),
        _ => false,
    }
}

pub fn collect_expr<'a>(e: &'a Expr, w: Walk, out: &mut Vec<Event<'a>>)
    ensures final(out)@ == old(out)@ + ev_expr(e, w),
    decreases e, 0nat, 0int,
{
    out.push(Event::Expr(e));
    match e {
        Expr::MethodCall { receiver, args, .. } => {
            if !(w.prune_storage_probes && storage_probe(e)) {
                collect_expr(receiver, w, out);
                collect_exprs(args, w, out);
            }
        }
        Expr::Call { func, args } => {
            collect_expr(func, w, out);
            collect_exprs(args, w, out);
        }
        Expr::Path { .. } => {}
        Expr::Lit { .. } => {}
        Expr::Field { base, .. } => collect_expr(base, w, out),
        Expr::Reference { expr } => collect_expr(expr, w, out),
        Expr::Paren { expr } => collect_expr(expr, w, out),
        Expr::Binary { left, right, .. } => {
            collect_expr(left, w, out);
            collect_expr(right, w, out);
        }
        Expr::Unary { expr } => collect_expr(expr, w, out),
        Expr::Cast { expr, .. } => collect_expr(expr, w, out),
        Expr::Macro { mac } => collect_macro(mac, w, out),
        Expr::ForLoop { expr, body, .. } => {
            collect_expr(expr, w, out);
            collect_block(body, w, out);
        }
        Expr::While { cond, body, .. } => {
            collect_expr(cond, w, out);
            collect_block(body, w, out);
        }
        Expr::Loop { body } => collect_block(body, w, out),
        Expr::If { cond, then_branch, else_branch } => {
            collect_expr(cond, w, out);
            collect_block(then_branch, w, out);
            collect_opt(else_branch, w, out);
        }
        Expr::Match { expr, arms } => {
            collect_expr(expr, w, out);
            collect_arms(arms, w, out);
        }
        Expr::Block { block } => collect_block(block, w, out),
        Expr::Closure { body } => collect_expr(body, w, out),
        Expr::Return { expr } => collect_opt(expr, w, out),
        Expr::Break { expr } => collect_opt(expr, w, out),
        Expr::Struct { fields, rest, .. } => {
            collect_fields(fields, w, out);
            collect_opt(rest, w, out);
        }
        Expr::Try { expr } => collect_expr(expr, w, out),
        Expr::Other { children } => collect_exprs(children, w, out),
    }
    proof {
        assert(final(out)@ =~= old(out)@ + ev_expr(e, w));
    }
}

pub fn collect_opt<'a>(o: &'a Option<Box<Expr>>, w: Walk, out: &mut Vec<Event<'a>>)
    ensures final(out)@ == old(out)@ + ev_opt(o, w),
    decreases o, 0nat, 0int,
{
    match o {
        Some(b) => collect_expr(b, w, out),
        None => {
            assert(out@ =~= old(out)@ + ev_opt(o, w));
        }
    }
}

pub fn collect_exprs<'a>(v: &'a Vec<Expr>, w: Walk, out: &mut Vec<Event<'a>>)
    ensures final(out)@ == old(out)@ + ev_exprs(v, v.len() as int, w),
    decreases v, 1nat, v.len(),
{
    let mut i: usize = 0;
    assert(out@ =~= old(out)@ + ev_exprs(v, 0, w));
    while i < v.len()
        invariant
            i <= v.len(),
            out@ == old(out)@ + ev_exprs(v, i as int, w),
        decreases v.len() - i,
    {
        collect_expr(&v[i], w, out);
        i = i + 1;
        assert(out@ =~= old(out)@ + ev_exprs(v, i as int, w));
    }
}

pub fn collect_arms<'a>(v: &'a Vec<Arm>, w: Walk, out: &mut Vec<Event<'a>>)
    ensures final(out)@ == old(out)@ + ev_arms(v, v.len() as int, w),
    decreases v, 1nat, v.len(),
{
    let mut i: usize = 0;
    assert(out@ =~= old(out)@ + ev_arms(v, 0, w));
    while i < v.len()
        invariant
            i <= v.len(),
            out@ == old(out)@ + ev_arms(v, i as int, w),
        decreases v.len() - i,
    {
        collect_opt(&v[i].guard, w, out);
        collect_expr(&v[i].body, w, out);
        i = i + 1;
        assert(out@ =~= old(out)@ + ev_arms(v, i as int, w));
    }
}

pub fn collect_fields<'a>(v: &'a Vec<FieldValue>, w: Walk, out: &mut Vec<Event<'a>>)
    ensures final(out)@ == old(out)@ + ev_fields(v, v.len() as int, w),
    decreases v, 1nat, v.len(),
{
    let mut i: usize = 0;
    assert(out@ =~= old(out)@ + ev_fields(v, 0, w));
    while i < v.len()
        invariant
            i <= v.len(),
            out@ == old(out)@ + ev_fields(v, i as int, w),
        decreases v.len() - i,
    {
        collect_expr(&v[i].expr, w, out);
        i = i + 1;
        assert(out@ =~= old(out)@ + ev_fields(v, i as int, w));
    }
}

pub fn collect_macro<'a>(m: &'a Macro, w: Walk, out: &mut Vec<Event<'a>>)
    ensures final(out)@ == old(out)@ + ev_macro(m, w),
    decreases m, 0nat, 0int,
{
    out.push(Event::Macro(m));
    match w.macros {
        MacroBodies::Skip => {}
        MacroBodies::Body => collect_opt(&m.body, w, out),
        MacroBodies::BodyOrFirstArg => {
            if m.body.is_some() {
                collect_opt(&m.body, w, out);
            } else {
                collect_opt(&m.first_arg, w, out);
            }
        }
    }
    assert(out@ =~= old(out)@ + ev_macro(m, w));
}

pub fn collect_block<'a>(b: &'a Block, w: Walk, out: &mut Vec<Event<'a>>)
    ensures final(out)@ == old(out)@ + ev_block(b, w),
    decreases b, 0nat, 0int,
{
    out.push(Event::Block(b));
    collect_stmts(&b.stmts, w, out);
    assert(out@ =~= old(out)@ + ev_block(b, w));
}

pub fn collect_stmts<'a>(v: &'a Vec<Stmt>, w: Walk, out: &mut Vec<Event<'a>>)
    ensures final(out)@ == old(out)@ + ev_stmts(v, v.len() as int, w),
    decreases v, 1nat, v.len(),
{
    let mut i: usize = 0;
    assert(out@ =~= old(out)@ + ev_stmts(v, 0, w));
    while i < v.len()
        invariant
            i <= v.len(),
            out@ == old(out)@ + ev_stmts(v, i as int, w),
        decreases v.len() - i,
    {
        collect_stmt(&v[i], i, w, out);
        i = i + 1;
        assert(out@ =~= old(out)@ + ev_stmts(v, i as int, w));
    }
}

pub fn collect_stmt<'a>(s: &'a Stmt, idx: usize, w: Walk, out: &mut Vec<Event<'a>>)
    ensures final(out)@ == old(out)@ + ev_stmt(s, idx, w),
    decreases s, 0nat, 0int,
{
    out.push(Event::Stmt(s, idx));
    match &s.kind {
        StmtKind::Local { local } => collect_local(local, w, out),
        StmtKind::Item { item } => collect_item(item, w, out),
        StmtKind::Expr { expr, .. } => collect_expr(expr, w, out),
        StmtKind::Macro { mac } => collect_macro(mac, w, out),
    }
    assert(out@ =~= old(out)@ + ev_stmt(s, idx, w));
}

pub fn collect_local<'a>(l: &'a Local, w: Walk, out: &mut Vec<Event<'a>>)
    ensures final(out)@ == old(out)@ + ev_local(l, w),
    decreases l, 0nat, 0int,
{
    out.push(Event::Local(l));
    collect_opt(&l.init, w, out);
    collect_opt(&l.diverge, w, out);
    assert(out@ =~= old(out)@ + ev_local(l, w));
}

pub fn collect_fn<'a>(f: &'a FnDef, w: Walk, out: &mut Vec<Event<'a>>)
    ensures final(out)@ == old(out)@ + ev_fn(f, w),
    decreases f, 0nat, 0int,
{
    out.push(Event::Fn(f));
    collect_block(&f.block, w, out);
    assert(out@ =~= old(out)@ + ev_fn(f, w));
}

pub fn collect_item<'a>(i: &'a Item, w: Walk, out: &mut Vec<Event<'a>>)
    ensures final(out)@ == old(out)@ + ev_item(i, w),
    decreases i, 0nat, 0int,
{
    match i {
        Item::Fn { func } => collect_fn(func, w, out),
        Item::Impl { imp } => collect_impl_items(&imp.items, w, out),
        Item::Trait { items } => collect_trait_items(items, w, out),
        Item::Struct { .. } => {}
        Item::Enum { def } => out.push(Event::Enum(def)),
        Item::Use { tree } => collect_use(tree, out),
        Item::Mod { items } => collect_items(items, w, out),
        Item::Const { expr } => collect_expr(expr, w, out),
        Item::Other => {}
    }
    assert(out@ =~= old(out)@ + ev_item(i, w));
}

pub fn collect_items<'a>(v: &'a Vec<Item>, w: Walk, out: &mut Vec<Event<'a>>)
    ensures final(out)@ == old(out)@ + ev_items(v, v.len() as int, w),
    decreases v, 1nat, v.len(),
{
    let mut i: usize = 0;
    assert(out@ =~= old(out)@ + ev_items(v, 0, w));
    while i < v.len()
        invariant
            i <= v.len(),
            out@ == old(out)@ + ev_items(v, i as int, w),
        decreases v.len() - i,
    {
        collect_item(&v[i], w, out);
        i = i + 1;
        assert(out@ =~= old(out)@ + ev_items(v, i as int, w));
    }
}

pub fn collect_impl_items<'a>(v: &'a Vec<ImplItem>, w: Walk, out: &mut Vec<Event<'a>>)
    ensures final(out)@ == old(out)@ + ev_impl_items(v, v.len() as int, w),
    decreases v, 1nat, v.len(),
{
    let mut i: usize = 0;
    assert(out@ =~= old(out)@ + ev_impl_items(v, 0, w));
    while i < v.len()
        invariant
            i <= v.len(),
            out@ == old(out)@ + ev_impl_items(v, i as int, w),
        decreases v.len() - i,
    {
        match &v[i] {
            ImplItem::Fn { func } => collect_fn(func, w, out),
            ImplItem::Const { expr } => collect_expr(expr, w, out),
            ImplItem::Other => {}
        }
        i = i + 1;
        assert(out@ =~= old(out)@ + ev_impl_items(v, i as int, w));
    }
}

pub fn collect_trait_items<'a>(v: &'a Vec<TraitItem>, w: Walk, out: &mut Vec<Event<'a>>)
    ensures final(out)@ == old(out)@ + ev_trait_items(v, v.len() as int, w),
    decreases v, 1nat, v.len(),
{
    let mut i: usize = 0;
    assert(out@ =~= old(out)@ + ev_trait_items(v, 0, w));
    while i < v.len()
        invariant
            i <= v.len(),
            out@ == old(out)@ + ev_trait_items(v, i as int, w),
        decreases v.len() - i,
    {
        match &v[i] {
            TraitItem::Fn { body } => match body {
                Some(b) => collect_block(b, w, out),
                None => {}
            },
            TraitItem::Const { default } => match default {
                Some(e) => collect_expr(e, w, out),
                None => {}
            },
            TraitItem::Other => {}
        }
        i = i + 1;
        assert(out@ =~= old(out)@ + ev_trait_items(v, i as int, w));
    }
}

pub fn collect_use<'a>(t: &'a UseTree, out: &mut Vec<Event<'a>>)
    ensures final(out)@ == old(out)@ + ev_use(t),
    decreases t, 0nat, 0int,
{
    out.push(Event::Use(t));
    match t {
        UseTree::Path { tree, .. } => collect_use(tree, out),
        UseTree::Group { items } => collect_uses(items, out),
        _ => {}
    }
    assert(out@ =~= old(out)@ + ev_use(t));
}

pub fn collect_uses<'a>(v: &'a Vec<UseTree>, out: &mut Vec<Event<'a>>)
    ensures final(out)@ == old(out)@ + ev_uses(v, v.len() as int),
    decreases v, 1nat, v.len(),
{
    let mut i: usize = 0;
    assert(out@ =~= old(out)@ + ev_uses(v, 0));
    while i < v.len()
        invariant
            i <= v.len(),
            out@ == old(out)@ + ev_uses(v, i as int),
        decreases v.len() - i,
    {
        collect_use(&v[i], out);
        i = i + 1;
        assert(out@ =~= old(out)@ + ev_uses(v, i as int));
    }
}

/// The events of a block, in walk order.
pub fn block_events<'a>(b: &'a Block, w: Walk) -> (r: Vec<Event<'a>>)
    ensures r@ == ev_block(b, w),
{
    let mut out: Vec<Event<'a>> = Vec::new();
    collect_block(b, w, &mut out);
    assert(out@ =~= ev_block(b, w));
    out
}

/// The events of an expression, in walk order.
pub fn expr_events<'a>(e: &'a Expr, w: Walk) -> (r: Vec<Event<'a>>)
    ensures r@ == ev_expr(e, w),
{
    let mut out: Vec<Event<'a>> = Vec::new();
    collect_expr(e, w, &mut out);
    assert(out@ =~= ev_expr(e, w));
    out
}

/// The events of a statement, in walk order.
pub fn stmt_events<'a>(s: &'a Stmt, idx: usize, w: Walk) -> (r: Vec<Event<'a>>)
    ensures r@ == ev_stmt(s, idx, w),
{
    let mut out: Vec<Event<'a>> = Vec::new();
    collect_stmt(s, idx, w, &mut out);
    assert(out@ =~= ev_stmt(s, idx, w));
    out
}

/// The events of a function, in walk order.
pub fn fn_events<'a>(f: &'a FnDef, w: Walk) -> (r: Vec<Event<'a>>)
    ensures r@ == ev_fn(f, w),
{
    let mut out: Vec<Event<'a>> = Vec::new();
    collect_fn(f, w, &mut out);
    assert(out@ =~= ev_fn(f, w));
    out
}

/// The events of a whole file, in walk order.
pub fn file_events<'a>(f: &'a SourceFile, w: Walk) -> (r: Vec<Event<'a>>)
    ensures r@ == ev_file(f, w),
{
    let mut out: Vec<Event<'a>> = Vec::new();
    collect_items(&f.items, w, &mut out);
    assert(out@ =~= ev_file(f, w));
    out
}

} // verus!

verus! {

/// Some expression among the events satisfies `p`.
pub open spec fn some_expr(evs: Seq<Event>, p: spec_fn(&Expr) -> bool) -> bool {
    exists|k: int| 0 <= k < evs.len() && #[trigger] expr_at(evs, k, p)
}

/// The event at `k` is an expression that satisfies `p`.
pub open spec fn expr_at(evs: Seq<Event>, k: int, p: spec_fn(&Expr) -> bool) -> bool {
    match evs[k] {
        Event::Expr(e) => p(e),
        _ => false,
    }
}

/// The walk that visits macro arguments when they read as one expression.
pub open spec fn with_bodies() -> Walk {
    Walk { macros: MacroBodies::Body, prune_storage_probes: false }
}

/// The plain walk, as a value.
pub fn plain_walk() -> (w: Walk)
    ensures w == plain(),
{
    Walk { macros: MacroBodies::Skip, prune_storage_probes: false }
}

/// The walk that visits macro arguments, as a value.
pub fn bodies_walk() -> (w: Walk)
    ensures w == with_bodies(),
{
    Walk { macros: MacroBodies::Body, prune_storage_probes: false }
}

} // verus!

verus! {

pub proof fn lemma_some_expr_step(evs: Seq<Event>, j: int, p: spec_fn(&Expr) -> bool)
    requires 0 <= j < evs.len(),
    ensures
        (exists|k: int| 0 <= k < j + 1 && #[trigger] expr_at(evs, k, p))
            == ((exists|k: int| 0 <= k < j && #[trigger] expr_at(evs, k, p)) || expr_at(evs, j, p)),
{
    if expr_at(evs, j, p) {
        assert(0 <= j < j + 1 && expr_at(evs, j, p));
    }
    if exists|k: int| 0 <= k < j + 1 && #[trigger] expr_at(evs, k, p) {
        let k = choose|k: int| 0 <= k < j + 1 && #[trigger] expr_at(evs, k, p);
        if k < j {
            assert(0 <= k < j && expr_at(evs, k, p));
        }
    }
}

} // verus!
