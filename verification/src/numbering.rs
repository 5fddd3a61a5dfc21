//! How statement indices relate to the walk order.
//!
//! A statement's index within its block never exceeds the number of
//! statements that a walk meets before it: the earlier statements of its own
//! block come first.

use vstd::prelude::*;
use crate::syntax::{Block, Expr, FnDef, Item, Local, Macro, Stmt, StmtKind, TraitItem, UseTree};
use crate::walk::{
    ev_arms, ev_block, ev_expr, ev_exprs, ev_fields, ev_fn, ev_impl_items, ev_item, ev_items, ev_local, ev_macro,
    ev_opt, ev_stmt, ev_stmts, ev_trait_items, ev_use, ev_uses, Event, MacroBodies, Walk,
};

verus! {

/// The number of statement events in `evs`.
pub open spec fn stmt_count(evs: Seq<Event>) -> nat
    decreases evs.len(),
{
    if evs.len() == 0 {
        0
    } else {
        stmt_count(evs.drop_last()) + if evs.last() is Stmt { 1nat } else { 0nat }
    }
}

/// Every statement event's index is at most `base` plus the number of
/// statement events before it.
pub open spec fn numbered(evs: Seq<Event>, base: nat) -> bool {
    forall|k: int| 0 <= k < evs.len() ==> #[trigger] index_ok(evs, k, base)
}

pub open spec fn index_ok(evs: Seq<Event>, k: int, base: nat) -> bool {
    match evs[k] {
        Event::Stmt(_, idx) => idx <= base + stmt_count(evs.take(k)),
        _ => true,
    }
}

pub proof fn lemma_count_add(a: Seq<Event>, b: Seq<Event>)
    ensures stmt_count(a + b) == stmt_count(a) + stmt_count(b),
    decreases b.len(),
{
    if b.len() == 0 {
        assert(a + b =~= a);
    } else {
        assert((a + b).drop_last() =~= a + b.drop_last());
        lemma_count_add(a, b.drop_last());
    }
}

pub proof fn lemma_count_take_le(a: Seq<Event>, k: int)
    requires 0 <= k <= a.len(),
    ensures stmt_count(a.take(k)) <= stmt_count(a),
    decreases a.len() - k,
{
    if k < a.len() {
        lemma_count_take_le(a, k + 1);
        assert(a.take(k + 1).drop_last() =~= a.take(k));
    } else {
        assert(a.take(k) =~= a);
    }
}

/// Numbering is kept by concatenation: the events of `b` may count those of
/// `a` before them.
pub proof fn lemma_numbered_add(a: Seq<Event>, b: Seq<Event>, base: nat, base_b: nat)
    requires
        numbered(a, base),
        numbered(b, base_b),
        base_b <= base + stmt_count(a),
    ensures numbered(a + b, base),
{
    let c = a + b;
    assert forall|k: int| 0 <= k < c.len() implies #[trigger] index_ok(c, k, base) by {
        if k < a.len() {
            assert(c.take(k) =~= a.take(k));
            assert(index_ok(a, k, base));
        } else {
            let kb = k - a.len();
            assert(c.take(k) =~= a + b.take(kb));
            lemma_count_add(a, b.take(kb));
            assert(index_ok(b, kb, base_b));
            assert(c[k] == b[kb]);
        }
    }
}

pub proof fn lemma_numbered_raise(a: Seq<Event>, base: nat, base2: nat)
    requires
        numbered(a, base),
        base <= base2,
    ensures numbered(a, base2),
{
    assert forall|k: int| 0 <= k < a.len() implies #[trigger] index_ok(a, k, base2) by {
        assert(index_ok(a, k, base));
    }
}

pub proof fn lemma_numbered_empty()
    ensures numbered(Seq::<Event>::empty(), 0),
{
}

/// A single event that is not a statement.
pub proof fn lemma_numbered_one(ev: Event)
    requires !(ev is Stmt),
    ensures numbered(seq![ev], 0),
{
    assert(index_ok(seq![ev], 0, 0));
}

proof fn lemma_cat2(a: Seq<Event>, b: Seq<Event>)
    requires
        numbered(a, 0),
        numbered(b, 0),
    ensures numbered(a + b, 0),
{
    lemma_numbered_add(a, b, 0, 0);
}

proof fn lemma_cat3(a: Seq<Event>, b: Seq<Event>, c: Seq<Event>)
    requires
        numbered(a, 0),
        numbered(b, 0),
        numbered(c, 0),
    ensures numbered(a + b + c, 0),
{
    lemma_cat2(a, b);
    lemma_cat2(a + b, c);
}

pub proof fn lemma_expr_numbered(e: &Expr, w: Walk)
    ensures numbered(ev_expr(e, w), 0),
    decreases e, 0nat, 0int,
{
    let head = seq![Event::Expr(e)];
    lemma_numbered_one(Event::Expr(e));
    match e {
        Expr::MethodCall { receiver, args, .. } => {
            lemma_expr_numbered(receiver, w);
            lemma_exprs_numbered(args, args.len() as int, w);
            lemma_cat2(ev_expr(receiver, w), ev_exprs(args, args.len() as int, w));
            lemma_numbered_empty();
            lemma_cat2(head, ev_expr(receiver, w) + ev_exprs(args, args.len() as int, w));
            lemma_cat2(head, Seq::empty());
        },
        Expr::Call { func, args } => {
            lemma_expr_numbered(func, w);
            lemma_exprs_numbered(args, args.len() as int, w);
            lemma_cat3(head, ev_expr(func, w), ev_exprs(args, args.len() as int, w));
            assert(head + (ev_expr(func, w) + ev_exprs(args, args.len() as int, w)) =~= head + ev_expr(func, w) + ev_exprs(args, args.len() as int, w));
        },
        Expr::Path { .. } => {
            lemma_numbered_empty();
            lemma_cat2(head, Seq::empty());
        },
        Expr::Lit { .. } => {
            lemma_numbered_empty();
            lemma_cat2(head, Seq::empty());
        },
        Expr::Field { base, .. } => {
            lemma_expr_numbered(base, w);
            lemma_cat2(head, ev_expr(base, w));
        },
        Expr::Reference { expr } => {
            lemma_expr_numbered(expr, w);
            lemma_cat2(head, ev_expr(expr, w));
        },
        Expr::Paren { expr } => {
            lemma_expr_numbered(expr, w);
            lemma_cat2(head, ev_expr(expr, w));
        },
        Expr::Binary { left, right, .. } => {
            lemma_expr_numbered(left, w);
            lemma_expr_numbered(right, w);
            lemma_cat3(head, ev_expr(left, w), ev_expr(right, w));
            assert(head + (ev_expr(left, w) + ev_expr(right, w)) =~= head + ev_expr(left, w) + ev_expr(right, w));
        },
        Expr::Unary { expr } => {
            lemma_expr_numbered(expr, w);
            lemma_cat2(head, ev_expr(expr, w));
        },
        Expr::Cast { expr, .. } => {
            lemma_expr_numbered(expr, w);
            lemma_cat2(head, ev_expr(expr, w));
        },
        Expr::Macro { mac } => {
            lemma_macro_numbered(mac, w);
            lemma_cat2(head, ev_macro(mac, w));
        },
        Expr::ForLoop { expr, body, .. } => {
            lemma_expr_numbered(expr, w);
            lemma_block_numbered(body, w);
            lemma_cat3(head, ev_expr(expr, w), ev_block(body, w));
            assert(head + (ev_expr(expr, w) + ev_block(body, w)) =~= head + ev_expr(expr, w) + ev_block(body, w));
        },
        Expr::While { cond, body, .. } => {
            lemma_expr_numbered(cond, w);
            lemma_block_numbered(body, w);
            lemma_cat3(head, ev_expr(cond, w), ev_block(body, w));
            assert(head + (ev_expr(cond, w) + ev_block(body, w)) =~= head + ev_expr(cond, w) + ev_block(body, w));
        },
        Expr::Loop { body } => {
            lemma_block_numbered(body, w);
            lemma_cat2(head, ev_block(body, w));
        },
        Expr::If { cond, then_branch, else_branch } => {
            lemma_expr_numbered(cond, w);
            lemma_block_numbered(then_branch, w);
            lemma_opt_numbered(else_branch, w);
            lemma_cat3(ev_expr(cond, w), ev_block(then_branch, w), ev_opt(else_branch, w));
            lemma_cat2(head, ev_expr(cond, w) + ev_block(then_branch, w) + ev_opt(else_branch, w));
        },
        Expr::Match { expr, arms } => {
            lemma_expr_numbered(expr, w);
            lemma_arms_numbered(arms, arms.len() as int, w);
            lemma_cat3(head, ev_expr(expr, w), ev_arms(arms, arms.len() as int, w));
            assert(head + (ev_expr(expr, w) + ev_arms(arms, arms.len() as int, w)) =~= head + ev_expr(expr, w) + ev_arms(arms, arms.len() as int, w));
        },
        Expr::Block { block } => {
            lemma_block_numbered(block, w);
            lemma_cat2(head, ev_block(block, w));
        },
        Expr::Closure { body } => {
            lemma_expr_numbered(body, w);
            lemma_cat2(head, ev_expr(body, w));
        },
        Expr::Return { expr } => {
            lemma_opt_numbered(expr, w);
            lemma_cat2(head, ev_opt(expr, w));
        },
        Expr::Break { expr } => {
            lemma_opt_numbered(expr, w);
            lemma_cat2(head, ev_opt(expr, w));
        },
        Expr::Struct { fields, rest, .. } => {
            lemma_fields_numbered(fields, fields.len() as int, w);
            lemma_opt_numbered(rest, w);
            lemma_cat3(head, ev_fields(fields, fields.len() as int, w), ev_opt(rest, w));
            assert(head + (ev_fields(fields, fields.len() as int, w) + ev_opt(rest, w)) =~= head + ev_fields(fields, fields.len() as int, w) + ev_opt(rest, w));
        },
        Expr::Try { expr } => {
            lemma_expr_numbered(expr, w);
            lemma_cat2(head, ev_expr(expr, w));
        },
        Expr::Other { children } => {
            lemma_exprs_numbered(children, children.len() as int, w);
            lemma_cat2(head, ev_exprs(children, children.len() as int, w));
        },
    }
}

pub proof fn lemma_opt_numbered(o: &Option<Box<Expr>>, w: Walk)
    ensures numbered(ev_opt(o, w), 0),
    decreases o, 0nat, 0int,
{
    match o {
        Some(b) => lemma_expr_numbered(b, w),
        None => lemma_numbered_empty(),
    }
}

pub proof fn lemma_exprs_numbered(v: &Vec<Expr>, n: int, w: Walk)
    ensures numbered(ev_exprs(v, n, w), 0),
    decreases v, 1nat, n,
{
    if n <= 0 || n > v.len() {
        lemma_numbered_empty();
    } else {
        lemma_exprs_numbered(v, n - 1, w);
        lemma_expr_numbered(&v@[n - 1], w);
        lemma_cat2(ev_exprs(v, n - 1, w), ev_expr(&v@[n - 1], w));
    }
}

pub proof fn lemma_arms_numbered(v: &Vec<crate::syntax::Arm>, n: int, w: Walk)
    ensures numbered(ev_arms(v, n, w), 0),
    decreases v, 1nat, n,
{
    if n <= 0 || n > v.len() {
        lemma_numbered_empty();
    } else {
        lemma_arms_numbered(v, n - 1, w);
        lemma_opt_numbered(&v@[n - 1].guard, w);
        lemma_expr_numbered(&v@[n - 1].body, w);
        lemma_cat3(ev_arms(v, n - 1, w), ev_opt(&v@[n - 1].guard, w), ev_expr(&v@[n - 1].body, w));
    }
}

pub proof fn lemma_fields_numbered(v: &Vec<crate::syntax::FieldValue>, n: int, w: Walk)
    ensures numbered(ev_fields(v, n, w), 0),
    decreases v, 1nat, n,
{
    if n <= 0 || n > v.len() {
        lemma_numbered_empty();
    } else {
        lemma_fields_numbered(v, n - 1, w);
        lemma_expr_numbered(&v@[n - 1].expr, w);
        lemma_cat2(ev_fields(v, n - 1, w), ev_expr(&v@[n - 1].expr, w));
    }
}

pub proof fn lemma_macro_numbered(m: &Macro, w: Walk)
    ensures numbered(ev_macro(m, w), 0),
    decreases m, 0nat, 0int,
{
    let head = seq![Event::Macro(m)];
    lemma_numbered_one(Event::Macro(m));
    lemma_opt_numbered(&m.body, w);
    lemma_opt_numbered(&m.first_arg, w);
    lemma_numbered_empty();
    match w.macros {
        MacroBodies::Skip => lemma_cat2(head, Seq::empty()),
        MacroBodies::Body => lemma_cat2(head, ev_opt(&m.body, w)),
        MacroBodies::BodyOrFirstArg => {
            lemma_cat2(head, ev_opt(&m.body, w));
            lemma_cat2(head, ev_opt(&m.first_arg, w));
        },
    }
}

pub proof fn lemma_block_numbered(b: &Block, w: Walk)
    ensures numbered(ev_block(b, w), 0),
    decreases b, 0nat, 0int,
{
    lemma_numbered_one(Event::Block(b));
    lemma_stmts_numbered(&b.stmts, b.stmts.len() as int, w);
    lemma_cat2(seq![Event::Block(b)], ev_stmts(&b.stmts, b.stmts.len() as int, w));
}

pub proof fn lemma_stmts_numbered(v: &Vec<Stmt>, n: int, w: Walk)
    ensures
        numbered(ev_stmts(v, n, w), 0),
        n <= v.len() ==> stmt_count(ev_stmts(v, n, w)) >= n,
    decreases v, 1nat, n,
{
    if n <= 0 || n > v.len() {
        lemma_numbered_empty();
    } else {
        let a = ev_stmts(v, n - 1, w);
        let b = ev_stmt(&v@[n - 1], (n - 1) as usize, w);
        lemma_stmts_numbered(v, n - 1, w);
        lemma_stmt_numbered(&v@[n - 1], (n - 1) as usize, w);
        lemma_numbered_add(a, b, 0, (n - 1) as nat);
        lemma_count_add(a, b);
        lemma_count_head(&v@[n - 1], (n - 1) as usize, w);
    }
}

proof fn lemma_count_head(s: &Stmt, idx: usize, w: Walk)
    ensures stmt_count(ev_stmt(s, idx, w)) >= 1,
{
    let evs = ev_stmt(s, idx, w);
    let rest = evs.subrange(1, evs.len() as int);
    assert(evs =~= seq![Event::Stmt(s, idx)] + rest);
    lemma_count_add(seq![Event::Stmt(s, idx)], rest);
    assert(seq![Event::Stmt(s, idx)].drop_last() =~= Seq::<Event>::empty());
}

pub proof fn lemma_stmt_numbered(s: &Stmt, idx: usize, w: Walk)
    ensures numbered(ev_stmt(s, idx, w), idx as nat),
    decreases s, 0nat, 0int,
{
    let head = seq![Event::Stmt(s, idx)];
    assert(index_ok(head, 0, idx as nat)) by {
        assert(head.take(0) =~= Seq::<Event>::empty());
    }
    assert(numbered(head, idx as nat));
    let rest = match &s.kind {
        StmtKind::Local { local } => ev_local(local, w),
        StmtKind::Item { item } => ev_item(item, w),
        StmtKind::Expr { expr, .. } => ev_expr(expr, w),
        StmtKind::Macro { mac } => ev_macro(mac, w),
    };
    match &s.kind {
        StmtKind::Local { local } => lemma_local_numbered(local, w),
        StmtKind::Item { item } => lemma_item_numbered(item, w),
        StmtKind::Expr { expr, .. } => lemma_expr_numbered(expr, w),
        StmtKind::Macro { mac } => lemma_macro_numbered(mac, w),
    }
    lemma_numbered_add(head, rest, idx as nat, 0);
}

pub proof fn lemma_local_numbered(l: &Local, w: Walk)
    ensures numbered(ev_local(l, w), 0),
    decreases l, 0nat, 0int,
{
    lemma_numbered_one(Event::Local(l));
    lemma_opt_numbered(&l.init, w);
    lemma_opt_numbered(&l.diverge, w);
    lemma_cat3(seq![Event::Local(l)], ev_opt(&l.init, w), ev_opt(&l.diverge, w));
}

pub proof fn lemma_fn_numbered(f: &FnDef, w: Walk)
    ensures numbered(ev_fn(f, w), 0),
    decreases f, 0nat, 0int,
{
    lemma_numbered_one(Event::Fn(f));
    lemma_block_numbered(&f.block, w);
    lemma_cat2(seq![Event::Fn(f)], ev_block(&f.block, w));
}

pub proof fn lemma_item_numbered(i: &Item, w: Walk)
    ensures numbered(ev_item(i, w), 0),
    decreases i, 0nat, 0int,
{
    match i {
        Item::Fn { func } => lemma_fn_numbered(func, w),
        Item::Impl { imp } => lemma_impl_items_numbered(&imp.items, imp.items.len() as int, w),
        Item::Trait { items } => lemma_trait_items_numbered(items, items.len() as int, w),
        Item::Struct { .. } => lemma_numbered_empty(),
        Item::Enum { def } => lemma_numbered_one(Event::Enum(def)),
        Item::Use { tree } => lemma_use_numbered(tree),
        Item::Mod { items } => lemma_items_numbered(items, items.len() as int, w),
        Item::Const { expr } => lemma_expr_numbered(expr, w),
        Item::Other => lemma_numbered_empty(),
    }
}

pub proof fn lemma_items_numbered(v: &Vec<Item>, n: int, w: Walk)
    ensures numbered(ev_items(v, n, w), 0),
    decreases v, 1nat, n,
{
    if n <= 0 || n > v.len() {
        lemma_numbered_empty();
    } else {
        lemma_items_numbered(v, n - 1, w);
        lemma_item_numbered(&v@[n - 1], w);
        lemma_cat2(ev_items(v, n - 1, w), ev_item(&v@[n - 1], w));
    }
}

pub proof fn lemma_impl_items_numbered(v: &Vec<crate::syntax::ImplItem>, n: int, w: Walk)
    ensures numbered(ev_impl_items(v, n, w), 0),
    decreases v, 1nat, n,
{
    if n <= 0 || n > v.len() {
        lemma_numbered_empty();
    } else {
        lemma_impl_items_numbered(v, n - 1, w);
        match &v@[n - 1] {
            crate::syntax::ImplItem::Fn { func } => {
                lemma_fn_numbered(func, w);
                lemma_cat2(ev_impl_items(v, n - 1, w), ev_fn(func, w));
            },
            crate::syntax::ImplItem::Const { expr } => {
                lemma_expr_numbered(expr, w);
                lemma_cat2(ev_impl_items(v, n - 1, w), ev_expr(expr, w));
            },
            crate::syntax::ImplItem::Other => {
                lemma_numbered_empty();
                lemma_cat2(ev_impl_items(v, n - 1, w), Seq::empty());
            },
        }
    }
}

pub proof fn lemma_trait_items_numbered(v: &Vec<TraitItem>, n: int, w: Walk)
    ensures numbered(ev_trait_items(v, n, w), 0),
    decreases v, 1nat, n,
{
    if n <= 0 || n > v.len() {
        lemma_numbered_empty();
    } else {
        lemma_trait_items_numbered(v, n - 1, w);
        lemma_numbered_empty();
        match &v@[n - 1] {
            TraitItem::Fn { body } => match body {
                Some(b) => {
                    lemma_block_numbered(b, w);
                    lemma_cat2(ev_trait_items(v, n - 1, w), ev_block(b, w));
                },
                None => lemma_cat2(ev_trait_items(v, n - 1, w), Seq::empty()),
            },
            TraitItem::Const { default } => match default {
                Some(e) => {
                    lemma_expr_numbered(e, w);
                    lemma_cat2(ev_trait_items(v, n - 1, w), ev_expr(e, w));
                },
                None => lemma_cat2(ev_trait_items(v, n - 1, w), Seq::empty()),
            },
            TraitItem::Other => lemma_cat2(ev_trait_items(v, n - 1, w), Seq::empty()),
        }
    }
}

pub proof fn lemma_use_numbered(t: &UseTree)
    ensures numbered(ev_use(t), 0),
    decreases t, 0nat, 0int,
{
    lemma_numbered_one(Event::Use(t));
    match t {
        UseTree::Path { tree, .. } => {
            lemma_use_numbered(tree);
            lemma_cat2(seq![Event::Use(t)], ev_use(tree));
        },
        UseTree::Group { items } => {
            lemma_uses_numbered(items, items.len() as int);
            lemma_cat2(seq![Event::Use(t)], ev_uses(items, items.len() as int));
        },
        _ => {
            lemma_numbered_empty();
            lemma_cat2(seq![Event::Use(t)], Seq::empty());
        },
    }
}

pub proof fn lemma_uses_numbered(v: &Vec<UseTree>, n: int)
    ensures numbered(ev_uses(v, n), 0),
    decreases v, 1nat, n,
{
    if n <= 0 || n > v.len() {
        lemma_numbered_empty();
    } else {
        lemma_uses_numbered(v, n - 1);
        lemma_use_numbered(&v@[n - 1]);
        lemma_cat2(ev_uses(v, n - 1), ev_use(&v@[n - 1]));
    }
}

} // verus!
