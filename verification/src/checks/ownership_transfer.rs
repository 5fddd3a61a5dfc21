//! `accept_ownership` / `claim_ownership` without reading the pending owner.
//!
//! A two-step ownership transfer must read the pending-owner key from storage
//! (and check the caller against it) before writing the new admin.

use vstd::prelude::*;
use crate::syntax::{Expr, FnDef, Lit, SourceFile};
use crate::walk::{block_events, ev_block, expr_at, lemma_some_expr_step, plain, plain_walk, some_expr, Event};
use crate::finding::{fv, lemma_views_append, new_finding, views, Check, Finding, FindingView, Severity};
use crate::contract::{contract_fns, contractimpl_functions, over_fns};
use crate::text::{contains, lower_text, seq_contains, str_eq, to_lower};
use crate::checks::keys::{receiver_chain_contains, spec_receiver_chain_contains};

verus! {

pub const CHECK_NAME: &'static str = "ownership-transfer-unchecked";

/// Flags public `accept_ownership`/`claim_ownership` functions that write an
/// admin/owner key before reading a pending-owner key from storage.
pub struct OwnershipTransferCheck;

pub open spec fn spec_is_accept_fn(name: Seq<char>) -> bool {
    name == "accept_ownership"@ || name == "claim_ownership"@
}

/// Whether a function name is that of the accepting step of a transfer.
pub fn is_accept_fn(name: &str) -> (r: bool)
    ensures r == spec_is_accept_fn(name@),
{
    str_eq(name, "accept_ownership") || str_eq(name, "claim_ownership")
}

pub open spec fn spec_key_looks_like_pending(key: Seq<char>) -> bool {
    seq_contains(lower_text(key), "pending"@) || seq_contains(lower_text(key), "proposed"@)
        || seq_contains(lower_text(key), "nominee"@)
}

/// Whether a key names a pending/proposed/nominated owner, ignoring case.
pub fn key_looks_like_pending(key: &str) -> (r: bool)
    ensures r == spec_key_looks_like_pending(key@),
{
    let lower = to_lower(key);
    contains(lower.as_str(), "pending") || contains(lower.as_str(), "proposed") || contains(lower.as_str(), "nominee")
}

pub open spec fn spec_key_looks_like_admin(key: Seq<char>) -> bool {
    seq_contains(lower_text(key), "admin"@) || seq_contains(lower_text(key), "owner"@)
        || seq_contains(lower_text(key), "role"@)
}

/// Whether a key names an admin/owner/role, ignoring case.
pub fn key_looks_like_admin(key: &str) -> (r: bool)
    ensures r == spec_key_looks_like_admin(key@),
{
    let lower = to_lower(key);
    contains(lower.as_str(), "admin") || contains(lower.as_str(), "owner") || contains(lower.as_str(), "role")
}

/// The text of a key argument (through one `&`): a path's last segment, a
/// string literal's value, or a macro's argument tokens.
pub open spec fn spec_extract_key_str(arg: &Expr) -> Seq<char> {
    let inner = match arg {
        Expr::Reference { expr } => &**expr,
        _ => arg,
    };
    match inner {
        Expr::Path { path, .. } => if path.segments.len() > 0 { path.segments@.last().ident@ } else { Seq::empty() },
        Expr::Lit { lit } => match lit {
            Lit::Str { value } => value@,
            _ => Seq::empty(),
        },
        Expr::Macro { mac } => mac.text@,
        _ => Seq::empty(),
    }
}

fn extract_key_str(arg: &Expr) -> (r: String)
    ensures r@ == spec_extract_key_str(arg),
{
    let inner = match arg {
        Expr::Reference { expr } => &**expr,
        _ => arg,
    };
    match inner {
        Expr::Path { path, .. } => {
            let n = path.segments.len();
            if n > 0 { path.segments[n - 1].ident.clone() } else { String::new() }
        }
        Expr::Lit { lit } => match lit {
            Lit::Str { value } => value.clone(),
            _ => String::new(),
        },
        Expr::Macro { mac } => mac.text.clone(),
        _ => String::new(),
    }
}

/// A storage read (`get`/`has`/`get_unchecked`) of a pending-owner key.
pub open spec fn spec_is_pending_read(e: &Expr) -> bool {
    match e {
        Expr::MethodCall { receiver, method, args, .. } =>
            (method@ == "get"@ || method@ == "has"@ || method@ == "get_unchecked"@)
                && spec_receiver_chain_contains(receiver, "storage"@) && args.len() > 0
                && spec_key_looks_like_pending(spec_extract_key_str(&args@[0])),
        _ => false,
    }
}

fn is_pending_read(e: &Expr) -> (r: bool)
    ensures r == spec_is_pending_read(e),
{
    match e {
        Expr::MethodCall { receiver, method, args, .. } => {
            if (str_eq(method.as_str(), "get") || str_eq(method.as_str(), "has") || str_eq(method.as_str(), "get_unchecked"))
                && receiver_chain_contains(receiver, "storage") && args.len() > 0 {
                let key = extract_key_str(&args[0]);
                key_looks_like_pending(key.as_str())
            } else {
                false
            }
        }
        _ => false,
    }
}

/// A storage `set` of an admin/owner key.
pub open spec fn spec_is_admin_write(e: &Expr) -> bool {
    match e {
        Expr::MethodCall { receiver, method, args, .. } =>
            method@ == "set"@ && spec_receiver_chain_contains(receiver, "storage"@) && args.len() > 0
                && spec_key_looks_like_admin(spec_extract_key_str(&args@[0])),
        _ => false,
    }
}

fn is_admin_write(e: &Expr) -> (r: bool)
    ensures r == spec_is_admin_write(e),
{
    match e {
        Expr::MethodCall { receiver, method, args, .. } => {
            if str_eq(method.as_str(), "set") && receiver_chain_contains(receiver, "storage") && args.len() > 0 {
                let key = extract_key_str(&args[0]);
                key_looks_like_admin(key.as_str())
            } else {
                false
            }
        }
        _ => false,
    }
}

pub open spec fn is_write_p<'a>() -> spec_fn(&'a Expr) -> bool {
    |e: &Expr| spec_is_admin_write(e)
}

pub open spec fn is_pending_p<'a>() -> spec_fn(&'a Expr) -> bool {
    |e: &Expr| spec_is_pending_read(e)
}

/// The line of the first admin write among the first `n` events.
pub open spec fn first_write_line(evs: Seq<Event>, n: int) -> Option<usize>
    decreases n,
{
    if n <= 0 || n > evs.len() {
        None
    } else {
        match first_write_line(evs, n - 1) {
            Some(l) => Some(l),
            None => match evs[n - 1] {
                Event::Expr(e) => if spec_is_admin_write(e) {
                    match e {
                        Expr::MethodCall { line, .. } => Some(*line),
                        _ => None,
                    }
                } else {
                    None
                },
                _ => None,
            },
        }
    }
}

/// Some pending-owner read among the first `n` events precedes every admin
/// write.
pub open spec fn pending_before_write(evs: Seq<Event>, n: int) -> bool {
    exists|k: int| 0 <= k < n && #[trigger] expr_at(evs, k, is_pending_p())
        && !(exists|m: int| 0 <= m < k && #[trigger] expr_at(evs, m, is_write_p()))
}

proof fn lemma_first_write_line(evs: Seq<Event>, n: int)
    requires 0 <= n <= evs.len(),
    ensures
        first_write_line(evs, n) is Some <==> (exists|m: int| 0 <= m < n && #[trigger] expr_at(evs, m, is_write_p())),
    decreases n,
{
    if n > 0 {
        lemma_first_write_line(evs, n - 1);
        lemma_some_expr_step(evs, n - 1, is_write_p());
    }
}

pub open spec fn description(name: Seq<char>) -> Seq<char> {
    "Method `"@ + name
        + "` writes a new admin/owner key without first reading the pending-owner key from storage. Any address can call this function and claim ownership. Read and verify the pending owner from storage before updating the admin key."@
}

/// A finding for a public accepting function that writes an admin key with
/// no pending-owner read before its first admin write; it stands at that
/// write's line, or at the `fn` keyword when that line is 0.
pub open spec fn fn_findings(f: &FnDef) -> Seq<FindingView> {
    let evs = ev_block(&f.block, plain());
    if f.is_pub && spec_is_accept_fn(f.name@) && some_expr(evs, is_write_p())
        && !pending_before_write(evs, evs.len() as int) {
        let l = first_write_line(evs, evs.len() as int).unwrap();
        seq![fv(CHECK_NAME@, Severity::High, if l > 0 { l } else { f.fn_line }, f.name@, description(f.name@))]
    } else {
        Seq::empty()
    }
}

fn scan_fn(f: &FnDef) -> (r: Vec<Finding>)
    ensures views(r@) == fn_findings(f),
{
    let mut out: Vec<Finding> = Vec::new();
    if !f.is_pub || !is_accept_fn(f.name.as_str()) {
        return out;
    }
    let evs = block_events(&f.block, plain_walk());
    let ghost pw = is_write_p();
    let ghost pp = is_pending_p();
    let mut pending_before = false;
    let mut admin_write_seen = false;
    let mut admin_write_line: usize = 0;
    let mut j: usize = 0;
    while j < evs.len()
        invariant
            j <= evs.len(),
            pw == is_write_p(),
            pp == is_pending_p(),
            admin_write_seen == (exists|m: int| 0 <= m < j && #[trigger] expr_at(evs@, m, pw)),
            pending_before == pending_before_write(evs@, j as int),
            admin_write_seen ==> first_write_line(evs@, j as int) == Some(admin_write_line),
        decreases evs.len() - j,
    {
        proof {
            lemma_some_expr_step(evs@, j as int, pw);
            lemma_first_write_line(evs@, j as int);
        }
        match evs[j] {
            Event::Expr(e) => {
                if is_pending_read(e) {
                    if !admin_write_seen {
                        pending_before = true;
                        assert(expr_at(evs@, j as int, pp));
                    }
                }
                if is_admin_write(e) && !admin_write_seen {
                    admin_write_seen = true;
                    match e {
                        Expr::MethodCall { line, .. } => {
                            admin_write_line = *line;
                        }
                        _ => {}
                    }
                }
            }
            _ => {}
        }
        assert(pending_before == pending_before_write(evs@, j + 1)) by {
            if pending_before_write(evs@, j + 1) && !pending_before_write(evs@, j as int) {
                let k = choose|k: int| 0 <= k < j + 1 && #[trigger] expr_at(evs@, k, pp)
                    && !(exists|m: int| 0 <= m < k && #[trigger] expr_at(evs@, m, pw));
                assert(k == j);
            }
        }
        j = j + 1;
    }
    if !admin_write_seen || pending_before {
        return out;
    }
    let line = if admin_write_line > 0 { admin_write_line } else { f.fn_line };
    let mut d = String::from_str("Method `");
    d.append(f.name.as_str());
    d.append("` writes a new admin/owner key without first reading the pending-owner key from storage. Any address can call this function and claim ownership. Read and verify the pending owner from storage before updating the admin key.");
    out.push(new_finding(CHECK_NAME, Severity::High, line, f.name.as_str(), d));
    assert(views(out@) =~= fn_findings(f));
    out
}

impl Check for OwnershipTransferCheck {
    open spec fn spec_name(&self) -> Seq<char> {
        CHECK_NAME@
    }

    open spec fn spec_run(&self, file: &SourceFile, source: Seq<char>) -> Seq<FindingView> {
        over_fns(contract_fns(file), |f: &FnDef| fn_findings(f), contract_fns(file).len() as int)
    }

    fn name(&self) -> (r: &str) {
        CHECK_NAME
    }

    fn run(&self, file: &SourceFile, source: &str) -> (r: Vec<Finding>) {
        let fns = contractimpl_functions(file);
        let mut out: Vec<Finding> = Vec::new();
        let mut i: usize = 0;
        while i < fns.len()
            invariant
                i <= fns.len(),
                fns@ == contract_fns(file),
                views(out@) == over_fns(contract_fns(file), |f: &FnDef| fn_findings(f), i as int),
            decreases fns.len() - i,
        {
            let mut found = scan_fn(fns[i]);
            proof { lemma_views_append(out@, found@); }
            out.append(&mut found);
            i = i + 1;
        }
        out
    }
}

} // verus!

verus! {

/// Every finding of this check names it, is of high severity, and has an
/// empty file path.
pub proof fn lemma_findings_tagged(file: &SourceFile, source: Seq<char>)
    ensures crate::finding::tagged(OwnershipTransferCheck.spec_run(file, source), CHECK_NAME@, Severity::High),
{
    let fns = contract_fns(file);
    crate::contract::lemma_over_fns_tagged(fns, |f: &FnDef| fn_findings(f), fns.len() as int, CHECK_NAME@, Severity::High);
}

} // verus!

verus! {

/// Only the functions of `#[contractimpl]` blocks are examined: one more
/// top-level item that is not such a block changes no finding.
pub proof fn lemma_ignores_other_items(a: &SourceFile, b: &SourceFile, source: Seq<char>)
    requires crate::contract::extended_by_other_item(a, b),
    ensures OwnershipTransferCheck.spec_run(b, source) == OwnershipTransferCheck.spec_run(a, source),
{
    crate::contract::lemma_contract_fns_extra_item(a, b);
}

} // verus!

verus! {

/// `e` is `<chain>.<m>(..)` with `storage` called in its receiver chain and
/// at least one argument.
pub open spec fn storage_call(e: &Expr, m: Seq<char>) -> bool {
    e matches Expr::MethodCall { receiver, method, args, .. } && method@ == m
        && spec_receiver_chain_contains(receiver, "storage"@) && args.len() > 0
}

/// The key text of a storage call, in lower case.
pub open spec fn lower_key(e: &Expr) -> Seq<char> {
    lower_text(spec_extract_key_str(&e->MethodCall_args@[0]))
}

/// `e` reads a pending-owner key: a storage `get`, `has` or `get_unchecked`
/// whose key mentions `nominee`, `proposed` or `pending`, in any case.
pub open spec fn reads_pending(e: &Expr) -> bool {
    (storage_call(e, "get_unchecked"@) || storage_call(e, "has"@) || storage_call(e, "get"@))
        && (seq_contains(lower_key(e), "nominee"@) || seq_contains(lower_key(e), "proposed"@) || seq_contains(lower_key(e), "pending"@))
}

/// `e` writes an admin key: a storage `set` whose key mentions `role`,
/// `owner` or `admin`, in any case.
pub open spec fn writes_admin(e: &Expr) -> bool {
    storage_call(e, "set"@)
        && (seq_contains(lower_key(e), "role"@) || seq_contains(lower_key(e), "owner"@) || seq_contains(lower_key(e), "admin"@))
}

/// Reading the pending-owner key before any admin write means no finding.
pub proof fn lemma_pending_read_passes(f: &FnDef, k: int)
    requires
        0 <= k < ev_block(&f.block, plain()).len(),
        ev_block(&f.block, plain())[k] matches Event::Expr(e) && reads_pending(e),
        forall|j: int| 0 <= j < k ==> !(#[trigger] ev_block(&f.block, plain())[j] matches Event::Expr(e) && writes_admin(e)),
    ensures fn_findings(f) == Seq::<FindingView>::empty(),
{
    let evs = ev_block(&f.block, plain());
    assert(expr_at(evs, k, is_pending_p()));
    assert(!(exists|m: int| 0 <= m < k && #[trigger] expr_at(evs, m, is_write_p()))) by {
        if exists|m: int| 0 <= m < k && #[trigger] expr_at(evs, m, is_write_p()) {
            let m = choose|m: int| 0 <= m < k && #[trigger] expr_at(evs, m, is_write_p());
            assert(!(evs[m] matches Event::Expr(e) && writes_admin(e)));
        }
    }
    assert(pending_before_write(evs, evs.len() as int));
}

proof fn lemma_first_write_at(evs: Seq<Event>, k: int, n: int)
    requires
        0 <= k < evs.len(),
        0 <= n <= evs.len(),
        evs[k] matches Event::Expr(e) && writes_admin(e),
        forall|j: int| 0 <= j < k ==> !(#[trigger] evs[j] matches Event::Expr(e) && writes_admin(e)),
    ensures
        n <= k ==> first_write_line(evs, n) is None,
        n > k ==> first_write_line(evs, n) == Some(evs[k]->Expr_0->MethodCall_line),
    decreases n,
{
    if n > 0 {
        lemma_first_write_at(evs, k, n - 1);
        match evs[n - 1] {
            Event::Expr(e) => {
                if n - 1 < k {
                    assert(!writes_admin(e));
                }
            },
            _ => {},
        }
    }
}

/// A public `accept_ownership`/`claim_ownership` whose first admin-key
/// write (at a known line) has no pending-owner read before it gets exactly
/// one finding there.
pub proof fn lemma_unchecked_accept_flagged(f: &FnDef, k: int)
    requires
        f.is_pub,
        f.name@ == "claim_ownership"@ || f.name@ == "accept_ownership"@,
        0 <= k < ev_block(&f.block, plain()).len(),
        ev_block(&f.block, plain())[k] matches Event::Expr(e) && writes_admin(e) && e->MethodCall_line > 0,
        forall|j: int| 0 <= j < k ==> !(#[trigger] ev_block(&f.block, plain())[j] matches Event::Expr(e) && writes_admin(e)),
        forall|j: int| 0 <= j < k ==> !(#[trigger] ev_block(&f.block, plain())[j] matches Event::Expr(e) && reads_pending(e)),
    ensures
        fn_findings(f) == seq![fv(CHECK_NAME@, Severity::High, ev_block(&f.block, plain())[k]->Expr_0->MethodCall_line,
            f.name@, description(f.name@))],
{
    let evs = ev_block(&f.block, plain());
    assert(expr_at(evs, k, is_write_p()));
    lemma_first_write_at(evs, k, evs.len() as int);
    assert(!pending_before_write(evs, evs.len() as int)) by {
        if pending_before_write(evs, evs.len() as int) {
            let r = choose|r: int| 0 <= r < evs.len() && #[trigger] expr_at(evs, r, is_pending_p())
                && !(exists|m: int| 0 <= m < r && #[trigger] expr_at(evs, m, is_write_p()));
            if r < k {
                assert(!(evs[r] matches Event::Expr(e) && reads_pending(e)));
            } else if r > k {
                assert(0 <= k < r && expr_at(evs, k, is_write_p()));
            } else {
                reveal_strlit("set");
                reveal_strlit("get");
                reveal_strlit("has");
                reveal_strlit("get_unchecked");
                assert("set"@[0] != "get"@[0]);
                assert("set"@ != "get"@);
                assert("set"@ != "has"@);
                assert("set"@.len() != "get_unchecked"@.len());
            }
        }
    }
}

} // verus!
