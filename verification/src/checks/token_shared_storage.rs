//! Token storage keys and governance/staking keys in one file.
//!
//! Keys such as `balance` next to keys such as `stake` mean token and
//! non-token logic share a storage namespace, which risks collisions.

use vstd::prelude::*;
use crate::syntax::{Expr, Lit, SourceFile};
use crate::walk::{ev_file, file_events, plain, plain_walk, Event};
use crate::finding::{fv, new_finding, views, Check, Finding, FindingView, Severity};
use crate::text::{contains, contains_any, contains_any_of, first_quoted, first_quoted_text, join_sep, join_strings,
    lemma_texts_push, lower_text, seq_contains, str_eq, string_in, texts, to_lower};

verus! {

pub const CHECK_NAME: &'static str = "token-shared-storage";

/// Flags a file whose storage keys hold both token terms
/// (`balance`/`allowance`/`total_supply`) and governance or staking terms
/// (`vote`/`proposal`/`stake`/`reward`).
pub struct TokenSharedStorageCheck;

pub open spec fn token_terms() -> Seq<&'static str> {
    seq!["balance", "allowance", "total_supply"]
}

pub open spec fn gov_terms() -> Seq<&'static str> {
    seq!["vote", "proposal", "stake", "reward"]
}

/// A key argument: a string literal (through `&`), or the text between the
/// first two `"` of a macro call's tokens.
pub open spec fn spec_string_key(e: &Expr) -> Option<Seq<char>>
    decreases e,
{
    match e {
        Expr::Reference { expr } => spec_string_key(expr),
        Expr::Lit { lit } => match lit {
            Lit::Str { value } => Some(value@),
            _ => None,
        },
        Expr::Macro { mac } => first_quoted(mac.text@),
        _ => None,
    }
}

fn string_key(e: &Expr) -> (r: Option<String>)
    ensures
        r is Some <==> spec_string_key(e) is Some,
        r is Some ==> r.unwrap()@ == spec_string_key(e).unwrap(),
    decreases e,
{
    match e {
        Expr::Reference { expr } => string_key(expr),
        Expr::Lit { lit } => match lit {
            Lit::Str { value } => Some(value.clone()),
            _ => None,
        },
        Expr::Macro { mac } => first_quoted_text(mac.text.as_str()),
        _ => None,
    }
}

/// Distinct token keys and governance keys in order of first use, and the
/// line of the first keyed call of either kind.
pub struct KeyScan {
    pub token: Seq<Seq<char>>,
    pub gov: Seq<Seq<char>>,
    pub first_line: Option<usize>,
}

/// `v` with `k` appended unless it is there.
pub open spec fn add_once(v: Seq<Seq<char>>, k: Seq<char>) -> Seq<Seq<char>> {
    if v.contains(k) { v } else { v.push(k) }
}

pub open spec fn step(st: KeyScan, ev: Event) -> KeyScan {
    match ev {
        Event::Expr(e) => match e {
            Expr::MethodCall { method, args, line, .. } =>
                if (method@ == "set"@ || method@ == "get"@ || method@ == "has"@ || method@ == "remove"@) && args.len() > 0 {
                    match spec_string_key(&args@[0]) {
                        Some(key) => {
                            let lower = lower_text(key);
                            let first = if st.first_line is None { Some(*line) } else { st.first_line };
                            if contains_any_of(lower, token_terms()) {
                                KeyScan { token: add_once(st.token, key), first_line: first, ..st }
                            } else if contains_any_of(lower, gov_terms()) {
                                KeyScan { gov: add_once(st.gov, key), first_line: first, ..st }
                            } else {
                                st
                            }
                        },
                        None => st,
                    }
                } else {
                    st
                },
            _ => st,
        },
        _ => st,
    }
}

pub open spec fn scan(evs: Seq<Event>, n: int) -> KeyScan
    decreases n,
{
    if n <= 0 || n > evs.len() {
        KeyScan { token: Seq::empty(), gov: Seq::empty(), first_line: None }
    } else {
        step(scan(evs, n - 1), evs[n - 1])
    }
}

pub open spec fn description(token: Seq<Seq<char>>, gov: Seq<Seq<char>>) -> Seq<char> {
    "Token storage keys ("@ + join_sep(token, ", "@) + ") and governance/staking keys ("@ + join_sep(gov, ", "@)
        + ") share the same storage namespace. This risks key collisions and unintended data corruption. Separate token and non-token logic into distinct contracts or storage domains."@
}

/// One finding when both kinds of key occur, at the first keyed call.
pub open spec fn file_findings(file: &SourceFile) -> Seq<FindingView> {
    let evs = ev_file(file, plain());
    let st = scan(evs, evs.len() as int);
    if st.token.len() > 0 && st.gov.len() > 0 {
        let line = match st.first_line {
            Some(l) => l,
            None => 1,
        };
        seq![fv(CHECK_NAME@, Severity::Low, line, Seq::empty(), description(st.token, st.gov))]
    } else {
        Seq::empty()
    }
}

fn add_key(v: &mut Vec<String>, k: String)
    ensures texts(final(v)@) == add_once(texts(old(v)@), k@),
{
    if !string_in(v, k.as_str()) {
        proof { lemma_texts_push(v@, k); }
        v.push(k);
    }
}

fn run_file(file: &SourceFile) -> (r: Vec<Finding>)
    ensures views(r@) == file_findings(file),
{
    let evs = file_events(file, plain_walk());
    let tok_pats: [&str; 3] = ["balance", "allowance", "total_supply"];
    let gov_pats: [&str; 4] = ["vote", "proposal", "stake", "reward"];
    assert(tok_pats@ == token_terms());
    assert(gov_pats@ == gov_terms());
    let mut token: Vec<String> = Vec::new();
    let mut gov: Vec<String> = Vec::new();
    let mut first_line: Option<usize> = None;
    let mut j: usize = 0;
    assert(texts(token@) =~= Seq::empty());
    assert(texts(gov@) =~= Seq::empty());
    while j < evs.len()
        invariant
            j <= evs.len(),
            evs@ == ev_file(file, plain()),
            tok_pats@ == token_terms(),
            gov_pats@ == gov_terms(),
            scan(evs@, j as int) == (KeyScan { token: texts(token@), gov: texts(gov@), first_line }),
        decreases evs.len() - j,
    {
        match evs[j] {
            Event::Expr(e) => match e {
                Expr::MethodCall { method, args, line, .. } => {
                    let m = method.as_str();
                    if (str_eq(m, "set") || str_eq(m, "get") || str_eq(m, "has") || str_eq(m, "remove")) && args.len() > 0 {
                        match string_key(&args[0]) {
                            Some(key) => {
                                let lower = to_lower(key.as_str());
                                if contains_any(lower.as_str(), &tok_pats) {
                                    if first_line.is_none() {
                                        first_line = Some(*line);
                                    }
                                    add_key(&mut token, key);
                                } else if contains_any(lower.as_str(), &gov_pats) {
                                    if first_line.is_none() {
                                        first_line = Some(*line);
                                    }
                                    add_key(&mut gov, key);
                                }
                            }
                            None => {}
                        }
                    }
                }
                _ => {}
            },
            _ => {}
        }
        j = j + 1;
    }
    let mut out: Vec<Finding> = Vec::new();
    if token.len() > 0 && gov.len() > 0 {
        let line = match first_line {
            Some(l) => l,
            None => 1,
        };
        let mut d = String::from_str("Token storage keys (");
        let tj = join_strings(&token, ", ");
        d.append(tj.as_str());
        d.append(") and governance/staking keys (");
        let gj = join_strings(&gov, ", ");
        d.append(gj.as_str());
        d.append(") share the same storage namespace. This risks key collisions and unintended data corruption. Separate token and non-token logic into distinct contracts or storage domains.");
        let fd = new_finding(CHECK_NAME, Severity::Low, line, "", d);
        proof {
            reveal_strlit("");
            assert(""@ =~= Seq::<char>::empty());
        }
        out.push(fd);
    }
    assert(views(out@) =~= file_findings(file));
    out
}

impl Check for TokenSharedStorageCheck {
    open spec fn spec_name(&self) -> Seq<char> {
        CHECK_NAME@
    }

    open spec fn spec_run(&self, file: &SourceFile, source: Seq<char>) -> Seq<FindingView> {
        file_findings(file)
    }

    fn name(&self) -> (r: &str) {
        CHECK_NAME
    }

    fn run(&self, file: &SourceFile, source: &str) -> (r: Vec<Finding>) {
        run_file(file)
    }
}

} // verus!

verus! {

/// Every finding of this check names it, is of low severity, and has an
/// empty file path.
pub proof fn lemma_findings_tagged(file: &SourceFile, source: Seq<char>)
    ensures crate::finding::tagged(TokenSharedStorageCheck.spec_run(file, source), CHECK_NAME@, Severity::Low),
{
}

} // verus!

verus! {

/// `e` is `.m(key, ..)` for `m` one of `remove`, `has`, `get`, `set`, with
/// `key` a string literal (possibly under `&`).
pub open spec fn keyed_access(e: &Expr, key: Seq<char>) -> bool {
    e matches Expr::MethodCall { method, args, .. }
        && (method@ == "remove"@ || method@ == "has"@ || method@ == "get"@ || method@ == "set"@)
        && args.len() > 0
        && ((args@[0] matches Expr::Lit { lit: Lit::Str { value } } && value@ == key)
            || (args@[0] matches Expr::Reference { expr } && (*expr matches Expr::Lit { lit: Lit::Str { value } } && value@ == key)))
}

/// The key (in lower case) names token state: `total_supply`, `allowance`
/// or `balance`.
pub open spec fn token_key(key: Seq<char>) -> bool {
    let l = lower_text(key);
    seq_contains(l, "total_supply"@) || seq_contains(l, "allowance"@) || seq_contains(l, "balance"@)
}

/// The key (in lower case) names governance or staking state: `reward`,
/// `stake`, `proposal` or `vote`.
pub open spec fn gov_key(key: Seq<char>) -> bool {
    let l = lower_text(key);
    seq_contains(l, "reward"@) || seq_contains(l, "stake"@) || seq_contains(l, "proposal"@) || seq_contains(l, "vote"@)
}

proof fn lemma_kinds_stay(evs: Seq<Event>, k: int, n: int)
    requires 0 <= k < n <= evs.len(),
    ensures
        scan(evs, k + 1).token.len() > 0 ==> scan(evs, n).token.len() > 0,
        scan(evs, k + 1).gov.len() > 0 ==> scan(evs, n).gov.len() > 0,
    decreases n,
{
    if n > k + 1 {
        lemma_kinds_stay(evs, k, n - 1);
    }
}

proof fn lemma_token_words(key: Seq<char>)
    requires token_key(key),
    ensures contains_any_of(lower_text(key), token_terms()),
{
    let l = lower_text(key);
    let ts = token_terms();
    reveal_strlit("balance");
    reveal_strlit("allowance");
    reveal_strlit("total_supply");
    if seq_contains(l, "balance"@) { assert(seq_contains(l, ts[0]@)); }
    else if seq_contains(l, "allowance"@) { assert(seq_contains(l, ts[1]@)); }
    else { assert(seq_contains(l, ts[2]@)); }
}

proof fn lemma_gov_words(key: Seq<char>)
    requires gov_key(key),
    ensures contains_any_of(lower_text(key), gov_terms()),
{
    let l = lower_text(key);
    let gs = gov_terms();
    if seq_contains(l, "vote"@) { assert(seq_contains(l, gs[0]@)); }
    else if seq_contains(l, "proposal"@) { assert(seq_contains(l, gs[1]@)); }
    else if seq_contains(l, "stake"@) { assert(seq_contains(l, gs[2]@)); }
    else { assert(seq_contains(l, gs[3]@)); }
}

proof fn lemma_token_terms_exact(key: Seq<char>)
    requires !token_key(key),
    ensures !contains_any_of(lower_text(key), token_terms()),
{
    let l = lower_text(key);
    let ts = token_terms();
    if contains_any_of(l, ts) {
        let i = choose|i: int| 0 <= i < ts.len() && seq_contains(l, #[trigger] ts[i]@);
        assert(ts[0]@ == "balance"@);
        assert(ts[1]@ == "allowance"@);
        assert(ts[2]@ == "total_supply"@);
    }
}

/// A file that accesses a token key (one mentioning `balance`,
/// `allowance` or `total_supply`) and, elsewhere, a governance key (one
/// mentioning `vote`, `proposal`, `stake` or `reward` and no token word),
/// each by a string literal, gets one finding.
pub proof fn lemma_shared_namespace_flagged(file: &SourceFile, a: int, ka: Seq<char>, b: int, kb: Seq<char>)
    requires
        0 <= a < ev_file(file, plain()).len(),
        0 <= b < ev_file(file, plain()).len(),
        ev_file(file, plain())[a] matches Event::Expr(e) && keyed_access(e, ka),
        ev_file(file, plain())[b] matches Event::Expr(e) && keyed_access(e, kb),
        token_key(ka),
        gov_key(kb) && !token_key(kb),
    ensures TokenSharedStorageCheck.spec_run(file, Seq::empty()).len() == 1,
{
    let evs = ev_file(file, plain());
    lemma_token_words(ka);
    lemma_gov_words(kb);
    lemma_token_terms_exact(kb);
    match evs[a] {
        Event::Expr(e) => match e {
            Expr::MethodCall { args, .. } => {
                match &args@[0] {
                    Expr::Reference { expr } => { assert(spec_string_key(&**expr) == Some(ka)); },
                    _ => {},
                }
                assert(spec_string_key(&args@[0]) == Some(ka));
                assert(scan(evs, a + 1).token.len() > 0);
            },
            _ => {},
        },
        _ => {},
    }
    match evs[b] {
        Event::Expr(e) => match e {
            Expr::MethodCall { args, .. } => {
                match &args@[0] {
                    Expr::Reference { expr } => { assert(spec_string_key(&**expr) == Some(kb)); },
                    _ => {},
                }
                assert(spec_string_key(&args@[0]) == Some(kb));
                assert(scan(evs, b + 1).gov.len() > 0);
            },
            _ => {},
        },
        _ => {},
    }
    if a + 1 < evs.len() { lemma_kinds_stay(evs, a, evs.len() as int); }
    if b + 1 < evs.len() { lemma_kinds_stay(evs, b, evs.len() as int); }
}

} // verus!
