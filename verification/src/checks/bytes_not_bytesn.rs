//! `Bytes` used instead of `BytesN<N>` for fixed-size cryptographic parameters.
//!
//! Parameters such as `wasm_hash`, `public_key` or `signature` must be exactly
//! N bytes; variable-length `Bytes` lets callers pass wrongly-sized inputs.

use vstd::prelude::*;
use crate::syntax::{FnArg, FnDef, Pat, SourceFile, Ty};
use crate::finding::{fv, lemma_views_append, lemma_views_push, new_finding, views, Check, Finding, FindingView, Severity};
use crate::contract::{contract_fns, contractimpl_functions, over_fns};
use crate::text::{contains, lower_text, seq_contains, str_eq, to_lower};

verus! {

pub const CHECK_NAME: &'static str = "bytes-not-bytesn";

/// Flags `#[contractimpl]` function parameters with a sensitive name whose type
/// is plain `Bytes`.
pub struct BytesNotBytesNCheck;

/// The parameter names that mark a fixed-size cryptographic value.
pub open spec fn sensitive_names() -> Seq<Seq<char>> {
    seq!["wasm_hash"@, "public_key"@, "signature"@, "hash"@, "seed"@, "pubkey"@, "sig"@, "key_hash"@]
}

/// The lower-cased name equals or contains one of the sensitive names.
pub open spec fn spec_param_name_is_sensitive(name: Seq<char>) -> bool {
    exists|i: int| 0 <= i < sensitive_names().len()
        && (lower_text(name) == #[trigger] sensitive_names()[i] || seq_contains(lower_text(name), sensitive_names()[i]))
}

/// Whether a parameter name is one of the sensitive names, or contains one,
/// ignoring case.
pub fn param_name_is_sensitive(name: &str) -> (r: bool)
    ensures r == spec_param_name_is_sensitive(name@),
{
    let lower = to_lower(name);
    let names: [&str; 8] = ["wasm_hash", "public_key", "signature", "hash", "seed", "pubkey", "sig", "key_hash"];
    let ghost sn = sensitive_names();
    assert(sn.len() == 8);
    let mut i: usize = 0;
    while i < 8
        invariant
            i <= 8,
            lower@ == lower_text(name@),
            sn == sensitive_names(),
            forall|k: int| 0 <= k < 8 ==> names@[k]@ == #[trigger] sn[k],
            forall|k: int| 0 <= k < i ==> !(lower@ == #[trigger] sn[k] || seq_contains(lower@, sn[k])),
        decreases 8 - i,
    {
        let s = names[i];
        if str_eq(lower.as_str(), s) || contains(lower.as_str(), s) {
            assert(lower@ == sn[i as int] || seq_contains(lower@, sn[i as int]));
            return true;
        }
        i = i + 1;
    }
    false
}

/// `Bytes` without generic arguments, possibly behind `&`.
pub open spec fn spec_type_is_plain_bytes(ty: &Ty) -> bool
    decreases ty,
{
    match ty {
        Ty::Path { path } => path.segments.len() > 0 && path.segments@.last().ident@ == "Bytes"@
            && !path.segments@.last().has_args,
        Ty::Reference { elem } => spec_type_is_plain_bytes(elem),
        Ty::Other => false,
    }
}

fn type_is_plain_bytes(ty: &Ty) -> (r: bool)
    ensures r == spec_type_is_plain_bytes(ty),
    decreases ty,
{
    match ty {
        Ty::Path { path } => {
            let n = path.segments.len();
            if n == 0 {
                return false;
            }
            str_eq(path.segments[n - 1].ident.as_str(), "Bytes") && !path.segments[n - 1].has_args
        }
        Ty::Reference { elem } => type_is_plain_bytes(elem),
        Ty::Other => false,
    }
}

pub open spec fn description(param: Seq<char>, func: Seq<char>) -> Seq<char> {
    "Parameter `"@ + param + "` in `"@ + func
        + "` uses `Bytes` (variable-length) instead of `BytesN<N>` (fixed-length). Callers can pass incorrectly-sized inputs that will panic or produce wrong results at runtime. Use `BytesN<32>` for hashes or `BytesN<64>` for signatures."@
}

/// What the parameter reports: a finding when it is a sensitive name typed
/// plain `Bytes`.
pub open spec fn param_hit(func: Seq<char>, a: FnArg) -> Seq<FindingView> {
    match a {
        FnArg::Typed { pat, ty } => match pat {
            Pat::Ident { name, line } =>
                if spec_param_name_is_sensitive(name@) && spec_type_is_plain_bytes(&ty) {
                    seq![fv(CHECK_NAME@, Severity::Medium, line, func, description(name@, func))]
                } else {
                    Seq::empty()
                },
            _ => Seq::empty(),
        },
        FnArg::Receiver => Seq::empty(),
    }
}

/// Findings for the first `n` parameters, in order.
pub open spec fn param_hits(args: Seq<FnArg>, func: Seq<char>, n: int) -> Seq<FindingView>
    decreases n,
{
    if n <= 0 || n > args.len() {
        Seq::empty()
    } else {
        param_hits(args, func, n - 1) + param_hit(func, args[n - 1])
    }
}

pub open spec fn fn_findings(f: &FnDef) -> Seq<FindingView> {
    param_hits(f.inputs@, f.name@, f.inputs.len() as int)
}

fn scan_fn(f: &FnDef) -> (r: Vec<Finding>)
    ensures views(r@) == fn_findings(f),
{
    let mut out: Vec<Finding> = Vec::new();
    let mut j: usize = 0;
    while j < f.inputs.len()
        invariant
            j <= f.inputs.len(),
            views(out@) == param_hits(f.inputs@, f.name@, j as int),
        decreases f.inputs.len() - j,
    {
        match &f.inputs[j] {
            FnArg::Typed { pat, ty } => match pat {
                Pat::Ident { name, line } => {
                    if param_name_is_sensitive(name.as_str()) && type_is_plain_bytes(ty) {
                        let mut d = String::from_str("Parameter `");
                        d.append(name.as_str());
                        d.append("` in `");
                        d.append(f.name.as_str());
                        d.append("` uses `Bytes` (variable-length) instead of `BytesN<N>` (fixed-length). Callers can pass incorrectly-sized inputs that will panic or produce wrong results at runtime. Use `BytesN<32>` for hashes or `BytesN<64>` for signatures.");
                        let fd = new_finding(CHECK_NAME, Severity::Medium, *line, f.name.as_str(), d);
                        proof { lemma_views_push(out@, fd); }
                        out.push(fd);
                    }
                }
                _ => {}
            },
            FnArg::Receiver => {}
        }
        assert(views(out@) =~= param_hits(f.inputs@, f.name@, j + 1));
        j = j + 1;
    }
    out
}

impl Check for BytesNotBytesNCheck {
    open spec fn spec_name(&self) -> Seq<char> {
        CHECK_NAME@
    }

    open spec fn spec_run(&self, file: &SourceFile, source: Seq<char>) -> Seq<FindingView> {
        over_fns(contract_fns(file), |f: &FnDef| fn_findings(f), contract_fns(file).len() as int)
    }

    fn name(&self) -> (r: &str) {
        CHECK_NAME
    }

    fn run(&self, file: &SourceFile, source: &str) -> (r: Vec<Finding>) {
        let fns = contractimpl_functions(file);
        let mut out: Vec<Finding> = Vec::new();
        let mut i: usize = 0;
        while i < fns.len()
            invariant
                i <= fns.len(),
                fns@ == contract_fns(file),
                views(out@) == over_fns(contract_fns(file), |f: &FnDef| fn_findings(f), i as int),
            decreases fns.len() - i,
        {
            let mut found = scan_fn(fns[i]);
            proof { lemma_views_append(out@, found@); }
            out.append(&mut found);
            i = i + 1;
        }
        out
    }
}

} // verus!

verus! {

proof fn lemma_hits_tagged(args: Seq<FnArg>, func: Seq<char>, n: int)
    ensures crate::finding::tagged(param_hits(args, func, n), CHECK_NAME@, Severity::Medium),
    decreases n,
{
    if n > 0 && n <= args.len() {
        lemma_hits_tagged(args, func, n - 1);
        let prev = param_hits(args, func, n - 1);
        let cur = param_hits(args, func, n);
        assert forall|i: int| 0 <= i < cur.len() implies #[trigger] crate::finding::tag_ok(cur[i], CHECK_NAME@, Severity::Medium) by {
            if i < prev.len() {
                assert(cur[i] == prev[i]);
            }
        }
    }
}

proof fn lemma_fn_tagged(f: &FnDef)
    ensures crate::finding::tagged(fn_findings(f), CHECK_NAME@, Severity::Medium),
{
    lemma_hits_tagged(f.inputs@, f.name@, f.inputs.len() as int);
}

/// Every finding of this check names it, is of medium severity, and has an
/// empty file path.
pub proof fn lemma_findings_tagged(file: &SourceFile, source: Seq<char>)
    ensures crate::finding::tagged(BytesNotBytesNCheck.spec_run(file, source), CHECK_NAME@, Severity::Medium),
{
    let fns = contract_fns(file);
    assert forall|k: int| 0 <= k < fns.len() implies crate::finding::tagged(fn_findings(fns[k]), CHECK_NAME@, Severity::Medium) by {
        lemma_fn_tagged(fns[k]);
    }
    crate::contract::lemma_over_fns_tagged(fns, |f: &FnDef| fn_findings(f), fns.len() as int, CHECK_NAME@, Severity::Medium);
}

} // verus!

verus! {

/// Only the functions of `#[contractimpl]` blocks are examined: one more
/// top-level item that is not such a block changes no finding.
pub proof fn lemma_ignores_other_items(a: &SourceFile, b: &SourceFile, source: Seq<char>)
    requires crate::contract::extended_by_other_item(a, b),
    ensures BytesNotBytesNCheck.spec_run(b, source) == BytesNotBytesNCheck.spec_run(a, source),
{
    crate::contract::lemma_contract_fns_extra_item(a, b);
}

} // verus!

verus! {

/// The name, in lower case, mentions one of `key_hash`, `sig`, `pubkey`,
/// `seed`, `hash`, `signature`, `public_key`, `wasm_hash`.
pub open spec fn mentions_crypto_word(name: Seq<char>) -> bool {
    let l = lower_text(name);
    seq_contains(l, "key_hash"@) || seq_contains(l, "sig"@) || seq_contains(l, "pubkey"@) || seq_contains(l, "seed"@)
        || seq_contains(l, "hash"@) || seq_contains(l, "signature"@) || seq_contains(l, "public_key"@)
        || seq_contains(l, "wasm_hash"@)
}

proof fn lemma_param_hits_contain(args: Seq<FnArg>, func: Seq<char>, k: int, n: int, x: FindingView)
    requires
        0 <= k < n <= args.len(),
        param_hit(func, args[k]).contains(x),
    ensures param_hits(args, func, n).contains(x),
    decreases n,
{
    if n == k + 1 {
        let h = param_hit(func, args[k]);
        let j = choose|j: int| 0 <= j < h.len() && h[j] == x;
        assert(param_hits(args, func, n)[param_hits(args, func, k).len() + j] == x);
    } else {
        lemma_param_hits_contain(args, func, k, n - 1, x);
        let prev = param_hits(args, func, n - 1);
        let j = choose|j: int| 0 <= j < prev.len() && prev[j] == x;
        assert(param_hits(args, func, n)[j] == x);
    }
}

/// A parameter typed plain `Bytes` whose name mentions a key, hash, seed or
/// signature word (in any case) is reported at its line.
pub proof fn lemma_crypto_bytes_param_flagged(f: &FnDef, k: int)
    requires
        0 <= k < f.inputs.len(),
        f.inputs@[k] matches FnArg::Typed { pat: Pat::Ident { name, .. }, ty: Ty::Path { path } }
            && path.segments.len() > 0 && path.segments@.last().ident@ == "Bytes"@ && !path.segments@.last().has_args
            && mentions_crypto_word(name@),
    ensures
        fn_findings(f).contains(fv(CHECK_NAME@, Severity::Medium, f.inputs@[k]->Typed_pat->Ident_line, f.name@,
            description(f.inputs@[k]->Typed_pat->Ident_name@, f.name@))),
{
    let name = f.inputs@[k]->Typed_pat->Ident_name@;
    let l = lower_text(name);
    let ws = sensitive_names();
    assert(spec_param_name_is_sensitive(name)) by {
        if seq_contains(l, "key_hash"@) { assert(seq_contains(l, ws[7])); }
        else if seq_contains(l, "sig"@) { assert(seq_contains(l, ws[6])); }
        else if seq_contains(l, "pubkey"@) { assert(seq_contains(l, ws[5])); }
        else if seq_contains(l, "seed"@) { assert(seq_contains(l, ws[4])); }
        else if seq_contains(l, "hash"@) { assert(seq_contains(l, ws[3])); }
        else if seq_contains(l, "signature"@) { assert(seq_contains(l, ws[2])); }
        else if seq_contains(l, "public_key"@) { assert(seq_contains(l, ws[1])); }
        else { assert(seq_contains(l, ws[0])); }
    }
    let x = fv(CHECK_NAME@, Severity::Medium, f.inputs@[k]->Typed_pat->Ident_line, f.name@, description(name, f.name@));
    assert(param_hit(f.name@, f.inputs@[k])[0] == x);
    lemma_param_hits_contain(f.inputs@, f.name@, k, f.inputs.len() as int, x);
}

} // verus!
