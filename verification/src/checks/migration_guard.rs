//! Storage migration functions without a version sentinel guard.
//!
//! A public `migrate` / `upgrade_storage` / `migrate_*` function that writes
//! storage without first reading a version/schema key can corrupt data when
//! it runs twice or out of order.

use vstd::prelude::*;
use crate::syntax::{Expr, FnDef, Lit, SourceFile};
use crate::walk::{block_events, ev_block, expr_at, lemma_some_expr_step, plain, plain_walk, some_expr, Event};
use crate::finding::{fv, lemma_views_append, new_finding, views, Check, Finding, FindingView, Severity};
use crate::contract::{contract_fns, contractimpl_functions, over_fns};
use crate::text::{contains, lower_text, seq_contains, seq_starts_with, starts_with, str_eq, to_lower};
use crate::checks::keys::{receiver_chain_contains, spec_receiver_chain_contains};

verus! {

pub const CHECK_NAME: &'static str = "migration-guard-missing";

/// Flags public migration functions of `#[contractimpl]` blocks that write
/// storage before reading a version/schema/migration key.
pub struct MigrationGuardCheck;

pub open spec fn spec_is_migration_fn(name: Seq<char>) -> bool {
    name == "migrate"@ || name == "upgrade_storage"@ || seq_starts_with(name, "migrate_v"@)
        || seq_starts_with(name, "migrate_"@)
}

/// Whether a function name marks a storage migration.
pub fn is_migration_fn(name: &str) -> (r: bool)
    ensures r == spec_is_migration_fn(name@),
{
    str_eq(name, "migrate") || str_eq(name, "upgrade_storage") || starts_with(name, "migrate_v") || starts_with(name, "migrate_")
}

/// The segments of a path joined with `::`.
pub open spec fn join_segments(p: Seq<crate::syntax::PathSegment>, n: int) -> Seq<char>
    decreases n,
{
    if n <= 0 || n > p.len() {
        Seq::empty()
    } else if n == 1 {
        p[0].ident@
    } else {
        join_segments(p, n - 1) + "::"@ + p[n - 1].ident@
    }
}

/// The text that stands for a key argument: a path's segments joined with
/// `::`, a string literal's value, or a macro call's name followed by the
/// text of its arguments (so `symbol_short!("version")` mentions `version`);
/// through `&`.
pub open spec fn spec_quote_expr(e: &Expr) -> Seq<char>
    decreases e,
{
    match e {
        Expr::Reference { expr } => spec_quote_expr(expr),
        Expr::Path { path, .. } => join_segments(path.segments@, path.segments.len() as int),
        Expr::Lit { lit } => match lit {
            Lit::Str { value } => value@,
            _ => Seq::empty(),
        },
        Expr::Macro { mac } =>
            (if mac.path.segments.len() > 0 { mac.path.segments@.last().ident@ } else { Seq::empty() }) + "!("@ + mac.text@
                + ")"@,
        _ => Seq::empty(),
    }
}

fn quote_expr(e: &Expr) -> (r: String)
    ensures r@ == spec_quote_expr(e),
    decreases e,
{
    match e {
        Expr::Reference { expr } => quote_expr(expr),
        Expr::Path { path, .. } => {
            let mut s = String::new();
            let mut i: usize = 0;
            while i < path.segments.len()
                invariant
                    i <= path.segments.len(),
                    s@ == join_segments(path.segments@, i as int),
                decreases path.segments.len() - i,
            {
                if i > 0 {
                    s.append("::");
                }
                s.append(path.segments[i].ident.as_str());
                i = i + 1;
            }
            s
        }
        Expr::Lit { lit } => match lit {
            Lit::Str { value } => value.clone(),
            _ => String::new(),
        },
        Expr::Macro { mac } => {
            let n = mac.path.segments.len();
            let mut s = if n > 0 { mac.path.segments[n - 1].ident.clone() } else { String::new() };
            s.append("!(");
            s.append(mac.text.as_str());
            s.append(")");
            s
        }
        _ => String::new(),
    }
}

/// `set(..)` on a receiver chain that calls `storage()`.
pub open spec fn spec_is_storage_set(e: &Expr) -> bool {
    match e {
        Expr::MethodCall { receiver, method, .. } => method@ == "set"@ && spec_receiver_chain_contains(receiver, "storage"@),
        _ => false,
    }
}

fn is_storage_set(e: &Expr) -> (r: bool)
    ensures r == spec_is_storage_set(e),
{
    match e {
        Expr::MethodCall { receiver, method, .. } => str_eq(method.as_str(), "set") && receiver_chain_contains(receiver, "storage"),
        _ => false,
    }
}

/// `get`/`has`/`get_unchecked` on storage whose first argument, as text and
/// lower-cased, mentions `version`, `schema` or `migration`.
pub open spec fn spec_is_version_read(e: &Expr) -> bool {
    match e {
        Expr::MethodCall { receiver, method, args, .. } =>
            (method@ == "get"@ || method@ == "has"@ || method@ == "get_unchecked"@)
                && spec_receiver_chain_contains(receiver, "storage"@)
                && args.len() > 0
                && {
                    let t = lower_text(spec_quote_expr(&args@[0]));
                    seq_contains(t, "version"@) || seq_contains(t, "schema"@) || seq_contains(t, "migration"@)
                },
        _ => false,
    }
}

fn is_version_read(e: &Expr) -> (r: bool)
    ensures r == spec_is_version_read(e),
{
    match e {
        Expr::MethodCall { receiver, method, args, .. } => {
            if !(str_eq(method.as_str(), "get") || str_eq(method.as_str(), "has") || str_eq(method.as_str(), "get_unchecked")) {
                return false;
            }
            if !receiver_chain_contains(receiver, "storage") {
                return false;
            }
            if args.len() > 0 {
                let q = quote_expr(&args[0]);
                let t = to_lower(q.as_str());
                contains(t.as_str(), "version") || contains(t.as_str(), "schema") || contains(t.as_str(), "migration")
            } else {
                false
            }
        }
        _ => false,
    }
}

/// What a migration function's body does with storage, in walk order.
pub struct MigrationScan {
    pub version_read_seen: bool,
    pub storage_set_seen: bool,
    pub first_set_line: usize,
    /// A version read came before the first storage write.
    pub version_read_before_set: bool,
}

impl MigrationScan {
    /// A scan that has seen nothing.
    pub fn new() -> (r: Self)
        ensures
            !r.version_read_seen,
            !r.storage_set_seen,
            r.first_set_line == 0,
            !r.version_read_before_set,
    {
        MigrationScan { version_read_seen: false, storage_set_seen: false, first_set_line: 0, version_read_before_set: false }
    }
}

/// `spec_is_storage_set` as a predicate value.
pub open spec fn is_set_p<'a>() -> spec_fn(&'a Expr) -> bool {
    |e: &Expr| spec_is_storage_set(e)
}

/// `spec_is_version_read` as a predicate value.
pub open spec fn is_read_p<'a>() -> spec_fn(&'a Expr) -> bool {
    |e: &Expr| spec_is_version_read(e)
}

/// The line of the first storage write among the first `n` events.
pub open spec fn first_set_line(evs: Seq<Event>, n: int) -> Option<usize>
    decreases n,
{
    if n <= 0 || n > evs.len() {
        None
    } else {
        match first_set_line(evs, n - 1) {
            Some(l) => Some(l),
            None => match evs[n - 1] {
                Event::Expr(e) => if spec_is_storage_set(e) {
                    match e {
                        Expr::MethodCall { line, .. } => Some(*line),
                        _ => None,
                    }
                } else {
                    None
                },
                _ => None,
            },
        }
    }
}

/// Some version read among the first `n` events precedes every storage write.
pub open spec fn read_before_set(evs: Seq<Event>, n: int) -> bool {
    exists|k: int| 0 <= k < n && #[trigger] expr_at(evs, k, is_read_p())
        && !(exists|m: int| 0 <= m < k && #[trigger] expr_at(evs, m, is_set_p()))
}

pub open spec fn description(name: Seq<char>) -> Seq<char> {
    "Migration function `"@ + name
        + "` writes to storage without first reading a version/schema sentinel key. Calling this function twice or out of order can corrupt contract state. Read and assert the current schema version before performing any storage writes, then update the version key."@
}

/// A finding for a public migration function that writes storage and reads
/// no version key before its first write; it stands at the first write's
/// line, or at the `fn` keyword when that line is 0.
pub open spec fn fn_findings(f: &FnDef) -> Seq<FindingView> {
    let evs = ev_block(&f.block, plain());
    if f.is_pub && spec_is_migration_fn(f.name@) && some_expr(evs, is_set_p())
        && !read_before_set(evs, evs.len() as int) {
        let l = first_set_line(evs, evs.len() as int).unwrap();
        seq![fv(CHECK_NAME@, Severity::High, if l > 0 { l } else { f.fn_line }, f.name@, description(f.name@))]
    } else {
        Seq::empty()
    }
}

proof fn lemma_first_set_line(evs: Seq<Event>, n: int)
    requires 0 <= n <= evs.len(),
    ensures
        first_set_line(evs, n) is Some <==> (exists|m: int| 0 <= m < n && #[trigger] expr_at(evs, m, is_set_p())),
    decreases n,
{
    let ps = is_set_p();
    if n > 0 {
        lemma_first_set_line(evs, n - 1);
        lemma_some_expr_step(evs, n - 1, ps);
    }
}

/// Scans a block for storage writes and version reads, in walk order.
fn scan_block(evs: &Vec<Event>) -> (r: MigrationScan)
    ensures
        r.storage_set_seen == (exists|m: int| 0 <= m < evs@.len() && #[trigger] expr_at(evs@, m, is_set_p())),
        r.version_read_before_set == read_before_set(evs@, evs@.len() as int),
        r.storage_set_seen ==> first_set_line(evs@, evs@.len() as int) == Some(r.first_set_line),
{
    let ghost ps = is_set_p();
    let ghost pv = is_read_p();
    let mut s = MigrationScan::new();
    let mut j: usize = 0;
    while j < evs.len()
        invariant
            j <= evs.len(),
            ps == (is_set_p()),
            pv == (is_read_p()),
            s.storage_set_seen == (exists|m: int| 0 <= m < j && #[trigger] expr_at(evs@, m, ps)),
            s.version_read_before_set == read_before_set(evs@, j as int),
            s.storage_set_seen ==> first_set_line(evs@, j as int) == Some(s.first_set_line),
        decreases evs.len() - j,
    {
        proof {
            lemma_some_expr_step(evs@, j as int, ps);
            lemma_first_set_line(evs@, j as int);
        }
        let ghost before = s.storage_set_seen;
        match evs[j] {
            Event::Expr(e) => {
                if is_version_read(e) {
                    s.version_read_seen = true;
                    if !s.storage_set_seen {
                        s.version_read_before_set = true;
                        assert(expr_at(evs@, j as int, pv));
                    }
                }
                if is_storage_set(e) && !s.storage_set_seen {
                    s.storage_set_seen = true;
                    match e {
                        Expr::MethodCall { line, .. } => {
                            s.first_set_line = *line;
                        }
                        _ => {}
                    }
                }
            }
            _ => {}
        }
        assert(s.version_read_before_set == read_before_set(evs@, j + 1)) by {
            if read_before_set(evs@, j + 1) && !read_before_set(evs@, j as int) {
                let k = choose|k: int| 0 <= k < j + 1 && #[trigger] expr_at(evs@, k, pv)
                    && !(exists|m: int| 0 <= m < k && #[trigger] expr_at(evs@, m, ps));
                assert(k == j);
            }
        }
        j = j + 1;
    }
    s
}

fn scan_fn(f: &FnDef) -> (r: Vec<Finding>)
    ensures views(r@) == fn_findings(f),
{
    let mut out: Vec<Finding> = Vec::new();
    if !f.is_pub || !is_migration_fn(f.name.as_str()) {
        return out;
    }
    let evs = block_events(&f.block, plain_walk());
    let scan = scan_block(&evs);
    if !scan.storage_set_seen || scan.version_read_before_set {
        return out;
    }
    let line = if scan.first_set_line > 0 { scan.first_set_line } else { f.fn_line };
    let mut d = String::from_str("Migration function `");
    d.append(f.name.as_str());
    d.append("` writes to storage without first reading a version/schema sentinel key. Calling this function twice or out of order can corrupt contract state. Read and assert the current schema version before performing any storage writes, then update the version key.");
    out.push(new_finding(CHECK_NAME, Severity::High, line, f.name.as_str(), d));
    assert(views(out@) =~= fn_findings(f));
    out
}

impl Check for MigrationGuardCheck {
    open spec fn spec_name(&self) -> Seq<char> {
        CHECK_NAME@
    }

    open spec fn spec_run(&self, file: &SourceFile, source: Seq<char>) -> Seq<FindingView> {
        over_fns(contract_fns(file), |f: &FnDef| fn_findings(f), contract_fns(file).len() as int)
    }

    fn name(&self) -> (r: &str) {
        CHECK_NAME
    }

    fn run(&self, file: &SourceFile, source: &str) -> (r: Vec<Finding>) {
        let fns = contractimpl_functions(file);
        let mut out: Vec<Finding> = Vec::new();
        let mut i: usize = 0;
        while i < fns.len()
            invariant
                i <= fns.len(),
                fns@ == contract_fns(file),
                views(out@) == over_fns(contract_fns(file), |f: &FnDef| fn_findings(f), i as int),
            decreases fns.len() - i,
        {
            let mut found = scan_fn(fns[i]);
            proof { lemma_views_append(out@, found@); }
            out.append(&mut found);
            i = i + 1;
        }
        out
    }
}

} // verus!

verus! {

/// Every finding of this check names it, is of high severity, and has an
/// empty file path.
pub proof fn lemma_findings_tagged(file: &SourceFile, source: Seq<char>)
    ensures crate::finding::tagged(MigrationGuardCheck.spec_run(file, source), CHECK_NAME@, Severity::High),
{
    let fns = contract_fns(file);
    crate::contract::lemma_over_fns_tagged(fns, |f: &FnDef| fn_findings(f), fns.len() as int, CHECK_NAME@, Severity::High);
}

} // verus!

verus! {

/// Only the functions of `#[contractimpl]` blocks are examined: one more
/// top-level item that is not such a block changes no finding.
pub proof fn lemma_ignores_other_items(a: &SourceFile, b: &SourceFile, source: Seq<char>)
    requires crate::contract::extended_by_other_item(a, b),
    ensures MigrationGuardCheck.spec_run(b, source) == MigrationGuardCheck.spec_run(a, source),
{
    crate::contract::lemma_contract_fns_extra_item(a, b);
}

} // verus!

verus! {

/// `e` is `<chain>.<m>(..)` with `storage` called in its receiver chain.
pub open spec fn storage_method(e: &Expr, m: Seq<char>) -> bool {
    e matches Expr::MethodCall { receiver, method, .. } && method@ == m && spec_receiver_chain_contains(receiver, "storage"@)
}

/// `e` reads a sentinel: a storage `get`, `has` or `get_unchecked` whose key
/// text (a path, a string literal, or a macro call with its arguments) in
/// lower case mentions `migration`, `schema` or `version`.
pub open spec fn reads_sentinel(e: &Expr) -> bool {
    (storage_method(e, "get_unchecked"@) || storage_method(e, "has"@) || storage_method(e, "get"@))
        && e->MethodCall_args.len() > 0
        && (seq_contains(lower_text(spec_quote_expr(&e->MethodCall_args@[0])), "migration"@)
            || seq_contains(lower_text(spec_quote_expr(&e->MethodCall_args@[0])), "schema"@)
            || seq_contains(lower_text(spec_quote_expr(&e->MethodCall_args@[0])), "version"@))
}

/// A function that reads a version/schema/migration sentinel before any
/// storage write gets no finding.
pub proof fn lemma_sentinel_read_passes(f: &FnDef, k: int)
    requires
        0 <= k < ev_block(&f.block, plain()).len(),
        ev_block(&f.block, plain())[k] matches Event::Expr(e) && reads_sentinel(e),
        forall|j: int| 0 <= j < k ==> !(#[trigger] ev_block(&f.block, plain())[j] matches Event::Expr(e) && storage_method(e, "set"@)),
    ensures fn_findings(f) == Seq::<FindingView>::empty(),
{
    let evs = ev_block(&f.block, plain());
    assert(expr_at(evs, k, is_read_p()));
    assert(!(exists|m: int| 0 <= m < k && #[trigger] expr_at(evs, m, is_set_p()))) by {
        if exists|m: int| 0 <= m < k && #[trigger] expr_at(evs, m, is_set_p()) {
            let m = choose|m: int| 0 <= m < k && #[trigger] expr_at(evs, m, is_set_p());
            assert(!(evs[m] matches Event::Expr(e) && storage_method(e, "set"@)));
        }
    }
    assert(read_before_set(evs, evs.len() as int));
}

proof fn lemma_first_set_at(evs: Seq<Event>, k: int, n: int)
    requires
        0 <= k < evs.len(),
        0 <= n <= evs.len(),
        evs[k] matches Event::Expr(e) && storage_method(e, "set"@),
        forall|j: int| 0 <= j < k ==> !(#[trigger] evs[j] matches Event::Expr(e) && storage_method(e, "set"@)),
    ensures
        n <= k ==> first_set_line(evs, n) is None,
        n > k ==> first_set_line(evs, n) == Some(evs[k]->Expr_0->MethodCall_line),
    decreases n,
{
    if n > 0 {
        lemma_first_set_at(evs, k, n - 1);
        match evs[n - 1] {
            Event::Expr(e) => {
                if n - 1 < k {
                    assert(!storage_method(e, "set"@));
                }
            },
            _ => {},
        }
    }
}

/// A public migration function (`migrate`, `upgrade_storage`, `migrate_*`)
/// whose first storage write (at a known line) comes with no
/// version/schema/migration read before it gets exactly one finding there.
pub proof fn lemma_unguarded_migration_flagged(f: &FnDef, k: int)
    requires
        f.is_pub,
        f.name@ == "upgrade_storage"@ || f.name@ == "migrate"@ || seq_starts_with(f.name@, "migrate_"@),
        0 <= k < ev_block(&f.block, plain()).len(),
        ev_block(&f.block, plain())[k] matches Event::Expr(e) && storage_method(e, "set"@) && e->MethodCall_line > 0,
        forall|j: int| 0 <= j < k ==> !(#[trigger] ev_block(&f.block, plain())[j] matches Event::Expr(e) && storage_method(e, "set"@)),
        forall|j: int| 0 <= j < k ==> !(#[trigger] ev_block(&f.block, plain())[j] matches Event::Expr(e) && reads_sentinel(e)),
    ensures
        fn_findings(f) == seq![fv(CHECK_NAME@, Severity::High, ev_block(&f.block, plain())[k]->Expr_0->MethodCall_line,
            f.name@, description(f.name@))],
{
    let evs = ev_block(&f.block, plain());
    assert(expr_at(evs, k, is_set_p()));
    assert(some_expr(evs, is_set_p()));
    lemma_first_set_at(evs, k, evs.len() as int);
    assert(!read_before_set(evs, evs.len() as int)) by {
        if read_before_set(evs, evs.len() as int) {
            let r = choose|r: int| 0 <= r < evs.len() && #[trigger] expr_at(evs, r, is_read_p())
                && !(exists|m: int| 0 <= m < r && #[trigger] expr_at(evs, m, is_set_p()));
            if r < k {
                assert(!(evs[r] matches Event::Expr(e) && reads_sentinel(e)));
            } else if r > k {
                assert(0 <= k < r && expr_at(evs, k, is_set_p()));
            } else {
                reveal_strlit("set");
                reveal_strlit("get");
                reveal_strlit("has");
                reveal_strlit("get_unchecked");
                assert("set"@[0] != "get"@[0]);
                assert("set"@ != "get"@);
                assert("set"@ != "has"@);
                assert("set"@.len() != "get_unchecked"@.len());
            }
        }
    }
}

} // verus!
