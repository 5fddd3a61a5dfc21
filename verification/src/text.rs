//! Text helpers: equality, substring search, prefixes, case folding.

use vstd::prelude::*;
use vstd::string::*;

verus! {

/// `needle` occurs in `hay` starting at `i`.
pub open spec fn occurs_at(hay: Seq<char>, needle: Seq<char>, i: int) -> bool {
    0 <= i && i + needle.len() <= hay.len() && hay.subrange(i, i + needle.len()) == needle
}

/// `needle` occurs somewhere in `hay`.
pub open spec fn seq_contains(hay: Seq<char>, needle: Seq<char>) -> bool {
    exists|i: int| occurs_at(hay, needle, i)
}

/// `hay` starts with `prefix`.
pub open spec fn seq_starts_with(hay: Seq<char>, prefix: Seq<char>) -> bool {
    occurs_at(hay, prefix, 0)
}

/// The characters of a string.
pub fn chars_of(s: &str) -> (r: Vec<char>)
    ensures r@ == s@,
{
    let n = s.unicode_len();
    let mut out: Vec<char> = Vec::new();
    let mut i: usize = 0;
    while i < n
        invariant
            n == s@.len(),
            i <= n,
            out@ == s@.subrange(0, i as int),
        decreases n - i,
    {
        let c = s.get_char(i);
        out.push(c);
        i = i + 1;
        assert(out@ =~= s@.subrange(0, i as int));
    }
    assert(out@ =~= s@);
    out
}

/// Whether two strings are equal, character by character.
pub fn str_eq(a: &str, b: &str) -> (r: bool)
    ensures r == (a@ == b@),
{
    let x = chars_of(a);
    let y = chars_of(b);
    if x.len() != y.len() {
        return false;
    }
    let mut i: usize = 0;
    while i < x.len()
        invariant
            x@ == a@,
            y@ == b@,
            x.len() == y.len(),
            i <= x.len(),
            x@.subrange(0, i as int) == y@.subrange(0, i as int),
        decreases x.len() - i,
    {
        if x[i] != y[i] {
            assert(x@[i as int] != y@[i as int]);
            return false;
        }
        i = i + 1;
        assert(x@.subrange(0, i as int) =~= y@.subrange(0, i as int)) by {
            assert forall|k: int| 0 <= k < i implies x@.subrange(0, i as int)[k] == y@.subrange(0, i as int)[k] by {
                if k < i - 1 {
                    assert(x@.subrange(0, i - 1)[k] == y@.subrange(0, i - 1)[k]);
                }
            }
        }
    }
    assert(x@ =~= x@.subrange(0, x.len() as int));
    assert(y@ =~= y@.subrange(0, y.len() as int));
    true
}

/// Whether `needle` occurs in `hay` at position `i`.
fn chars_occur_at(hay: &Vec<char>, needle: &Vec<char>, i: usize) -> (r: bool)
    requires i <= hay.len(),
    ensures r == occurs_at(hay@, needle@, i as int),
{
    if needle.len() > hay.len() - i {
        return false;
    }
    let mut k: usize = 0;
    while k < needle.len()
        invariant
            i + needle.len() <= hay.len(),
            k <= needle.len(),
            forall|j: int| 0 <= j < k ==> hay@[i + j] == needle@[j],
        decreases needle.len() - k,
    {
        if hay[i + k] != needle[k] {
            assert(hay@.subrange(i as int, i + needle.len())[k as int] != needle@[k as int]);
            return false;
        }
        k = k + 1;
    }
    assert(hay@.subrange(i as int, i + needle.len()) =~= needle@);
    true
}

/// Whether `needle` occurs somewhere in `hay`.
pub fn chars_contain(hay: &Vec<char>, needle: &Vec<char>) -> (r: bool)
    ensures r == seq_contains(hay@, needle@),
{
    if needle.len() == 0 {
        assert(occurs_at(hay@, needle@, 0)) by {
            assert(hay@.subrange(0, 0) =~= needle@);
        }
        return true;
    }
    let mut i: usize = 0;
    while i < hay.len()
        invariant
            i <= hay.len(),
            needle.len() > 0,
            forall|j: int| 0 <= j < i ==> !occurs_at(hay@, needle@, j),
        decreases hay.len() - i,
    {
        if chars_occur_at(hay, needle, i) {
            return true;
        }
        i = i + 1;
    }
    assert forall|j: int| !occurs_at(hay@, needle@, j) by {
        if 0 <= j < i {
        } else if j >= i {
            assert(!(j + needle@.len() <= hay@.len()));
        }
    }
    false
}

/// Whether `needle` occurs somewhere in `hay`.
pub fn contains(hay: &str, needle: &str) -> (r: bool)
    ensures r == seq_contains(hay@, needle@),
{
    let h = chars_of(hay);
    let n = chars_of(needle);
    chars_contain(&h, &n)
}

/// Whether `hay` starts with `prefix`.
pub fn starts_with(hay: &str, prefix: &str) -> (r: bool)
    ensures r == seq_starts_with(hay@, prefix@),
{
    let h = chars_of(hay);
    let p = chars_of(prefix);
    chars_occur_at(&h, &p, 0)
}

/// The lower-case form of a string, as Unicode's case mapping defines it.
pub uninterp spec fn lowercase(s: Seq<char>) -> Seq<char>;

/// The character with ASCII `A`..`Z` taken to `a`..`z`, any other unchanged.
pub open spec fn ascii_lower(c: char) -> char {
    if 'A' <= c && c <= 'Z' { ((c as int) + 32) as char } else { c }
}

/// Every character is ASCII.
pub open spec fn all_ascii(s: Seq<char>) -> bool {
    forall|i: int| 0 <= i < s.len() ==> (#[trigger] s[i] as int) < 128
}

/// The lower-case form of a text: on ASCII text, `A`..`Z` lowered one for
/// one; otherwise the Unicode case mapping.
pub open spec fn lower_text(s: Seq<char>) -> Seq<char> {
    if all_ascii(s) { s.map_values(|c: char| ascii_lower(c)) } else { lowercase(s) }
}

/// Calls `str::to_lowercase`. The contract claims that the result depends
/// on the characters of `s` alone (it is named `lowercase` of them), and that
/// on ASCII text it lowers `A`..`Z` one for one and keeps every other
/// character, as std's documentation of `to_ascii_lowercase` and
/// `to_lowercase` describes; what the Unicode mapping gives for other
/// characters is left unsaid.
#[verifier::external_body]
pub(crate) fn to_lower(s: &str) -> (r: String)
    ensures
        r@ == lowercase(s@),
        all_ascii(s@) ==> r@ == s@.map_values(|c: char| ascii_lower(c)),
{
    s.to_lowercase()
}

} // verus!

verus! {

/// The decimal digit `d` as text.
pub open spec fn digit_text(d: nat) -> Seq<char> {
    if d == 0 { "0"@ } else if d == 1 { "1"@ } else if d == 2 { "2"@ } else if d == 3 { "3"@ }
    else if d == 4 { "4"@ } else if d == 5 { "5"@ } else if d == 6 { "6"@ } else if d == 7 { "7"@ }
    else if d == 8 { "8"@ } else { "9"@ }
}

/// `n` written in base 10.
pub open spec fn decimal(n: nat) -> Seq<char>
    decreases n,
{
    if n < 10 {
        digit_text(n)
    } else {
        decimal(n / 10) + digit_text(n % 10)
    }
}

fn digit_str(d: usize) -> (r: &'static str)
    requires d < 10,
    ensures r@ == digit_text(d as nat),
{
    if d == 0 { "0" } else if d == 1 { "1" } else if d == 2 { "2" } else if d == 3 { "3" }
    else if d == 4 { "4" } else if d == 5 { "5" } else if d == 6 { "6" } else if d == 7 { "7" }
    else if d == 8 { "8" } else { "9" }
}

/// `n` written in base 10.
pub fn decimal_string(n: usize) -> (r: String)
    ensures r@ == decimal(n as nat),
    decreases n,
{
    if n < 10 {
        String::from_str(digit_str(n))
    } else {
        let mut s = decimal_string(n / 10);
        s.append(digit_str(n % 10));
        s
    }
}

} // verus!

verus! {

/// The texts of a sequence of strings.
pub open spec fn texts(v: Seq<String>) -> Seq<Seq<char>> {
    v.map_values(|s: String| s@)
}

/// Whether `s` is among the strings of `v`.
pub fn string_in(v: &Vec<String>, s: &str) -> (r: bool)
    ensures r == texts(v@).contains(s@),
{
    let mut i: usize = 0;
    while i < v.len()
        invariant
            i <= v.len(),
            forall|k: int| 0 <= k < i ==> v@[k]@ != s@,
        decreases v.len() - i,
    {
        if str_eq(v[i].as_str(), s) {
            assert(texts(v@)[i as int] == s@);
            return true;
        }
        i = i + 1;
    }
    assert(!texts(v@).contains(s@)) by {
        if texts(v@).contains(s@) {
            let k = choose|k: int| 0 <= k < texts(v@).len() && texts(v@)[k] == s@;
            assert(v@[k]@ == s@);
        }
    }
    false
}

pub proof fn lemma_texts_push(v: Seq<String>, s: String)
    ensures texts(v.push(s)) == texts(v).push(s@),
{
    assert(texts(v.push(s)) =~= texts(v).push(s@));
}

} // verus!

verus! {

/// Some pattern of `pats` occurs in `hay`.
pub open spec fn contains_any_of(hay: Seq<char>, pats: Seq<&str>) -> bool {
    exists|i: int| 0 <= i < pats.len() && seq_contains(hay, #[trigger] pats[i]@)
}

/// Whether some pattern of `pats` occurs in `hay`.
pub fn contains_any(hay: &str, pats: &[&str]) -> (r: bool)
    ensures r == contains_any_of(hay@, pats@),
{
    let mut i: usize = 0;
    while i < pats.len()
        invariant
            i <= pats.len(),
            forall|k: int| 0 <= k < i ==> !seq_contains(hay@, #[trigger] pats@[k]@),
        decreases pats.len() - i,
    {
        if contains(hay, pats[i]) {
            return true;
        }
        i = i + 1;
    }
    false
}

} // verus!

verus! {

/// Unicode `White_Space`, the characters that `char::is_whitespace` accepts.
pub open spec fn is_ws(c: char) -> bool {
    c == '\t' || c == '\n' || c == '\u{0B}' || c == '\u{0C}' || c == '\r' || c == ' ' || c == '\u{85}'
        || c == '\u{A0}' || c == '\u{1680}' || ('\u{2000}' <= c && c <= '\u{200A}') || c == '\u{2028}'
        || c == '\u{2029}' || c == '\u{202F}' || c == '\u{205F}' || c == '\u{3000}'
}

/// The character class that a strip removes: white space, or `"`.
pub open spec fn strippable(c: char, quote: bool) -> bool {
    if quote { c == '"' } else { is_ws(c) }
}

/// `s` without its leading strippable characters.
pub open spec fn strip_front(s: Seq<char>, quote: bool) -> Seq<char>
    decreases s.len(),
{
    if s.len() > 0 && strippable(s[0], quote) { strip_front(s.drop_first(), quote) } else { s }
}

/// `s` without its trailing strippable characters.
pub open spec fn strip_back(s: Seq<char>, quote: bool) -> Seq<char>
    decreases s.len(),
{
    if s.len() > 0 && strippable(s.last(), quote) { strip_back(s.drop_last(), quote) } else { s }
}

/// `str::trim` (with `quote` false) or `str::trim_matches('"')` (with
/// `quote` true).
pub open spec fn strip_both(s: Seq<char>, quote: bool) -> Seq<char> {
    strip_back(strip_front(s, quote), quote)
}

fn is_strippable(c: char, quote: bool) -> (r: bool)
    ensures r == strippable(c, quote),
{
    if quote {
        c == '"'
    } else {
        c == '\t' || c == '\n' || c == '\u{0B}' || c == '\u{0C}' || c == '\r' || c == ' ' || c == '\u{85}'
            || c == '\u{A0}' || c == '\u{1680}' || ('\u{2000}' <= c && c <= '\u{200A}') || c == '\u{2028}'
            || c == '\u{2029}' || c == '\u{202F}' || c == '\u{205F}' || c == '\u{3000}'
    }
}

proof fn lemma_strip_front_skip(s: Seq<char>, i: int, quote: bool)
    requires
        0 <= i <= s.len(),
        forall|k: int| 0 <= k < i ==> strippable(s[k], quote),
    ensures strip_front(s, quote) == strip_front(s.subrange(i, s.len() as int), quote),
    decreases i,
{
    if i > 0 {
        assert(s.drop_first().subrange(i - 1, s.drop_first().len() as int) =~= s.subrange(i, s.len() as int));
        lemma_strip_front_skip(s.drop_first(), i - 1, quote);
    } else {
        assert(s.subrange(0, s.len() as int) =~= s);
    }
}

proof fn lemma_strip_back_skip(s: Seq<char>, j: int, quote: bool)
    requires
        0 <= j <= s.len(),
        forall|k: int| j <= k < s.len() ==> strippable(s[k], quote),
    ensures strip_back(s, quote) == strip_back(s.subrange(0, j), quote),
    decreases s.len() - j,
{
    if j < s.len() {
        assert(s.drop_last().subrange(0, j) =~= s.subrange(0, j));
        lemma_strip_back_skip(s.drop_last(), j, quote);
    } else {
        assert(s.subrange(0, j) =~= s);
    }
}

/// `s` with leading and trailing white space (or `"` characters) removed.
pub fn strip(s: &str, quote: bool) -> (r: String)
    ensures r@ == strip_both(s@, quote),
{
    let cs = chars_of(s);
    let n = cs.len();
    let mut a: usize = 0;
    while a < n && is_strippable(cs[a], quote)
        invariant
            a <= n,
            n == cs@.len(),
            cs@ == s@,
            forall|k: int| 0 <= k < a ==> strippable(cs@[k], quote),
        decreases n - a,
    {
        a = a + 1;
    }
    proof { lemma_strip_front_skip(s@, a as int, quote); }
    let ghost front = s@.subrange(a as int, n as int);
    assert(a == n || !strippable(front[0], quote));
    assert(strip_front(s@, quote) == front);
    let mut b: usize = n;
    while b > a && is_strippable(cs[b - 1], quote)
        invariant
            a <= b <= n,
            n == cs@.len(),
            cs@ == s@,
            forall|k: int| b <= k < n ==> strippable(cs@[k], quote),
        decreases b,
    {
        b = b - 1;
    }
    proof {
        assert forall|k: int| b - a <= k < front.len() implies strippable(front[k], quote) by {
            assert(front[k] == cs@[a + k]);
        }
        lemma_strip_back_skip(front, b - a, quote);
        assert(front.subrange(0, b - a) =~= s@.subrange(a as int, b as int));
        if b > a {
            assert(front.subrange(0, b - a).last() == cs@[b - 1]);
        }
    }
    String::from_str(s.substring_char(a, b))
}

} // verus!

verus! {

/// Whether `c` is alphabetic or numeric in Unicode's sense.
pub uninterp spec fn alphanumeric(c: char) -> bool;

/// Calls `char::is_alphanumeric`. The contract claims only that the result
/// depends on `c` alone (it is named `alphanumeric` of it); which characters
/// Unicode counts as alphabetic or numeric is left unsaid.
#[verifier::external_body]
pub(crate) fn char_is_alphanumeric(c: char) -> (r: bool)
    ensures r == alphanumeric(c),
{
    c.is_alphanumeric()
}

} // verus!

verus! {

/// `a` comes before `b` in lexicographic order of code points (the order of
/// `String`'s `Ord`).
pub open spec fn lex_lt(a: Seq<char>, b: Seq<char>) -> bool
    decreases a.len(),
{
    if a.len() == 0 {
        b.len() > 0
    } else if b.len() == 0 {
        false
    } else if a[0] < b[0] {
        true
    } else if a[0] == b[0] {
        lex_lt(a.drop_first(), b.drop_first())
    } else {
        false
    }
}

pub proof fn lemma_lex_lt_irreflexive(a: Seq<char>)
    ensures !lex_lt(a, a),
    decreases a.len(),
{
    if a.len() > 0 {
        lemma_lex_lt_irreflexive(a.drop_first());
    }
}

pub proof fn lemma_lex_lt_asymmetric(a: Seq<char>, b: Seq<char>)
    ensures lex_lt(a, b) ==> !lex_lt(b, a),
    decreases a.len(),
{
    if a.len() > 0 && b.len() > 0 && a[0] == b[0] {
        lemma_lex_lt_asymmetric(a.drop_first(), b.drop_first());
    }
}

/// Whether `a` comes before `b` in lexicographic order of code points.
pub fn lex_less(a: &str, b: &str) -> (r: bool)
    ensures r == lex_lt(a@, b@),
{
    let x = chars_of(a);
    let y = chars_of(b);
    let mut i: usize = 0;
    assert(x@.skip(0) =~= x@);
    assert(y@.skip(0) =~= y@);
    while i < x.len() && i < y.len() && x[i] == y[i]
        invariant
            i <= x.len(),
            i <= y.len(),
            x@ == a@,
            y@ == b@,
            lex_lt(a@, b@) == lex_lt(x@.skip(i as int), y@.skip(i as int)),
        decreases x.len() - i,
    {
        assert(x@.skip(i as int).drop_first() =~= x@.skip(i + 1));
        assert(y@.skip(i as int).drop_first() =~= y@.skip(i + 1));
        i = i + 1;
    }
    if i == x.len() {
        assert(x@.skip(i as int).len() == 0);
        return i < y.len();
    }
    if i == y.len() {
        assert(y@.skip(i as int).len() == 0);
        return false;
    }
    assert(x@.skip(i as int)[0] == x@[i as int]);
    assert(y@.skip(i as int)[0] == y@[i as int]);
    x[i] < y[i]
}

/// `s` with `k` inserted in order, unless `k` is already there.
pub open spec fn insert_sorted(s: Seq<Seq<char>>, k: Seq<char>) -> Seq<Seq<char>>
    decreases s.len(),
{
    if s.len() == 0 {
        seq![k]
    } else if s[0] == k {
        s
    } else if lex_lt(k, s[0]) {
        seq![k] + s
    } else {
        seq![s[0]] + insert_sorted(s.drop_first(), k)
    }
}

/// The first `n` keys of `keys`, sorted and without duplicates.
pub open spec fn sort_dedup(keys: Seq<Seq<char>>, n: int) -> Seq<Seq<char>>
    decreases n,
{
    if n <= 0 || n > keys.len() {
        Seq::empty()
    } else {
        insert_sorted(sort_dedup(keys, n - 1), keys[n - 1])
    }
}

proof fn lemma_insert_at(s: Seq<Seq<char>>, k: Seq<char>, p: int)
    requires
        0 <= p <= s.len(),
        forall|q: int| 0 <= q < p ==> lex_lt(#[trigger] s[q], k),
        p == s.len() || !lex_lt(s[p], k),
    ensures
        insert_sorted(s, k) == if p < s.len() && s[p] == k { s } else { s.take(p) + seq![k] + s.skip(p) },
    decreases p,
{
    if p == 0 {
        if s.len() > 0 && s[0] != k {
            lemma_lex_lt_asymmetric(s[0], k);
            lemma_total(s[0], k);
        }
        assert(s.take(0) + seq![k] + s.skip(0) =~= seq![k] + s);
    } else {
        lemma_lex_lt_irreflexive(k);
        assert(s[0] != k);
        lemma_lex_lt_asymmetric(s[0], k);
        let t = s.drop_first();
        assert forall|q: int| 0 <= q < p - 1 implies lex_lt(#[trigger] t[q], k) by {
            assert(t[q] == s[q + 1]);
        }
        lemma_insert_at(t, k, p - 1);
        if p < s.len() && s[p] == k {
            assert(seq![s[0]] + t =~= s);
        } else {
            assert(seq![s[0]] + (t.take(p - 1) + seq![k] + t.skip(p - 1)) =~= s.take(p) + seq![k] + s.skip(p));
        }
    }
}

pub proof fn lemma_total(a: Seq<char>, b: Seq<char>)
    ensures a != b ==> lex_lt(a, b) || lex_lt(b, a),
    decreases a.len(),
{
    if a.len() > 0 && b.len() > 0 && a[0] == b[0] {
        lemma_total(a.drop_first(), b.drop_first());
        if a != b {
            assert(a.drop_first() != b.drop_first()) by {
                if a.drop_first() == b.drop_first() {
                    assert(a =~= seq![a[0]] + a.drop_first());
                    assert(b =~= seq![b[0]] + b.drop_first());
                }
            }
        }
    } else if a.len() == 0 && b.len() == 0 {
        assert(a =~= b);
    } else if a.len() > 0 && b.len() > 0 {
        assert(a[0] != b[0]);
    }
}

/// Inserts `k` into the sorted, duplicate-free `v`, unless it is there.
pub fn insert_key(v: &mut Vec<String>, k: &str)
    ensures texts(final(v)@) == insert_sorted(texts(old(v)@), k@),
{
    let ghost s = texts(v@);
    let mut p: usize = 0;
    while p < v.len() && lex_less(v[p].as_str(), k)
        invariant
            p <= v.len(),
            s == texts(v@),
            forall|q: int| 0 <= q < p ==> lex_lt(#[trigger] s[q], k@),
        decreases v.len() - p,
    {
        p = p + 1;
    }
    proof { lemma_insert_at(s, k@, p as int); }
    if p < v.len() && str_eq(v[p].as_str(), k) {
        return;
    }
    v.insert(p, String::from_str(k));
    assert(texts(v@) =~= s.take(p as int) + seq![k@] + s.skip(p as int));
}

} // verus!

verus! {

/// `cur` without one trailing `\r`.
pub open spec fn strip_cr(cur: Seq<char>) -> Seq<char> {
    if cur.len() > 0 && cur.last() == '\r' { cur.drop_last() } else { cur }
}

/// The finished lines and the unfinished one after the first `n` characters.
pub open spec fn line_fold(s: Seq<char>, n: int) -> (Seq<Seq<char>>, Seq<char>)
    decreases n,
{
    if n <= 0 || n > s.len() {
        (Seq::empty(), Seq::empty())
    } else {
        let (ls, cur) = line_fold(s, n - 1);
        if s[n - 1] == '\n' { (ls.push(strip_cr(cur)), Seq::empty()) } else { (ls, cur.push(s[n - 1])) }
    }
}

/// The lines of a text as `str::lines` gives them: split at `\n`, a `\r`
/// before a `\n` dropped, no empty line after a final `\n`.
pub open spec fn lines_of(s: Seq<char>) -> Seq<Seq<char>> {
    let (ls, cur) = line_fold(s, s.len() as int);
    if cur.len() > 0 { ls.push(cur) } else { ls }
}

/// The lines of `s`.
pub fn split_lines(s: &str) -> (r: Vec<Vec<char>>)
    ensures r@.map_values(|l: Vec<char>| l@) == lines_of(s@),
{
    let cs = chars_of(s);
    let mut lines: Vec<Vec<char>> = Vec::new();
    let mut cur: Vec<char> = Vec::new();
    let mut i: usize = 0;
    assert(lines@.map_values(|l: Vec<char>| l@) =~= Seq::<Seq<char>>::empty());
    while i < cs.len()
        invariant
            i <= cs.len(),
            cs@ == s@,
            line_fold(s@, i as int) == (lines@.map_values(|l: Vec<char>| l@), cur@),
        decreases cs.len() - i,
    {
        let ghost lv = lines@.map_values(|l: Vec<char>| l@);
        let c = cs[i];
        if c == '\n' {
            let n = cur.len();
            if n > 0 && cur[n - 1] == '\r' {
                cur.pop();
            }
            assert(cur@ == strip_cr(line_fold(s@, i as int).1));
            lines.push(cur);
            cur = Vec::new();
            assert(lines@.map_values(|l: Vec<char>| l@) =~= lv.push(strip_cr(line_fold(s@, i as int).1)));
        } else {
            cur.push(c);
        }
        i = i + 1;
    }
    if cur.len() > 0 {
        let ghost lv = lines@.map_values(|l: Vec<char>| l@);
        let ghost cv = cur@;
        lines.push(cur);
        assert(lines@.map_values(|l: Vec<char>| l@) =~= lv.push(cv));
    }
    lines
}

/// The lines joined with `\n` between them.
pub open spec fn join_lines(ls: Seq<Seq<char>>) -> Seq<char>
    decreases ls.len(),
{
    if ls.len() == 0 {
        Seq::empty()
    } else if ls.len() == 1 {
        ls[0]
    } else {
        join_lines(ls.drop_last()) + seq!['\n'] + ls.last()
    }
}

/// The lines whose (0-based) index lies in `lo..=hi`.
pub open spec fn line_range(ls: Seq<Seq<char>>, lo: int, hi: int) -> Seq<Seq<char>> {
    let a = if lo < 0 { 0 } else if lo > ls.len() { ls.len() as int } else { lo };
    let b = if hi + 1 > ls.len() { ls.len() as int } else { hi + 1 };
    if b <= a { Seq::empty() } else { ls.subrange(a, b) }
}

/// The lines of `ls` with index in `lo..=hi`, joined with `\n`.
pub fn join_range(ls: &Vec<Vec<char>>, lo: usize, hi: usize) -> (r: Vec<char>)
    ensures r@ == join_lines(line_range(ls@.map_values(|l: Vec<char>| l@), lo as int, hi as int)),
{
    let ghost all = ls@.map_values(|l: Vec<char>| l@);
    let a = if lo > ls.len() { ls.len() } else { lo };
    let b = if hi >= ls.len() { ls.len() } else { hi + 1 };
    let mut out: Vec<char> = Vec::new();
    if b <= a {
        return out;
    }
    let ghost sel = all.subrange(a as int, b as int);
    assert(sel == line_range(all, lo as int, hi as int));
    let mut i: usize = a;
    while i < b
        invariant
            a <= i <= b,
            b <= ls.len(),
            all == ls@.map_values(|l: Vec<char>| l@),
            sel == all.subrange(a as int, b as int),
            out@ == join_lines(sel.take(i - a)),
        decreases b - i,
    {
        let ghost before = out@;
        if i > a {
            out.push('\n');
        }
        let line = &ls[i];
        let mut k: usize = 0;
        while k < line.len()
            invariant
                k <= line.len(),
                out@ == (if i > a { before + seq!['\n'] } else { before }) + line@.take(k as int),
            decreases line.len() - k,
        {
            out.push(line[k]);
            k = k + 1;
            assert(out@ =~= (if i > a { before + seq!['\n'] } else { before }) + line@.take(k as int));
        }
        assert(line@.take(line.len() as int) =~= line@);
        let ghost t = sel.take(i + 1 - a);
        assert(t.drop_last() =~= sel.take(i - a));
        assert(t.last() == line@);
        if i == a {
            assert(sel.take(0) =~= Seq::<Seq<char>>::empty());
        }
        i = i + 1;
    }
    assert(sel.take(b - a) =~= sel);
    out
}

} // verus!

verus! {

/// The strings joined with `sep` between them.
pub open spec fn join_sep(ls: Seq<Seq<char>>, sep: Seq<char>) -> Seq<char>
    decreases ls.len(),
{
    if ls.len() == 0 {
        Seq::empty()
    } else if ls.len() == 1 {
        ls[0]
    } else {
        join_sep(ls.drop_last(), sep) + sep + ls.last()
    }
}

/// The strings of `v` joined with `sep` between them.
pub fn join_strings(v: &Vec<String>, sep: &str) -> (r: String)
    ensures r@ == join_sep(texts(v@), sep@),
{
    let mut out = String::new();
    let mut i: usize = 0;
    while i < v.len()
        invariant
            i <= v.len(),
            out@ == join_sep(texts(v@).take(i as int), sep@),
        decreases v.len() - i,
    {
        let ghost before = out@;
        if i > 0 {
            out.append(sep);
        }
        out.append(v[i].as_str());
        let ghost t = texts(v@).take(i + 1);
        assert(t.drop_last() =~= texts(v@).take(i as int));
        assert(t.last() == v@[i as int]@);
        if i == 0 {
            assert(before =~= Seq::<char>::empty());
            assert(out@ =~= v@[0]@);
        }
        i = i + 1;
    }
    assert(texts(v@).take(v.len() as int) =~= texts(v@));
    out
}

/// The index of the first `c` in `s` at or after `i`.
pub open spec fn find_char(s: Seq<char>, c: char, i: int) -> Option<int>
    decreases s.len() - i,
{
    if i < 0 || i >= s.len() {
        None
    } else if s[i] == c {
        Some(i)
    } else {
        find_char(s, c, i + 1)
    }
}

/// The text between the first two `"` characters of `s`.
pub open spec fn first_quoted(s: Seq<char>) -> Option<Seq<char>> {
    match find_char(s, '"', 0) {
        Some(a) => match find_char(s, '"', a + 1) {
            Some(b) => Some(s.subrange(a + 1, b)),
            None => None,
        },
        None => None,
    }
}

fn find_char_exec(s: &Vec<char>, c: char, start: usize) -> (r: Option<usize>)
    ensures
        r is Some <==> find_char(s@, c, start as int) is Some,
        r is Some ==> r.unwrap() as int == find_char(s@, c, start as int).unwrap() && start <= r.unwrap() < s.len(),
{
    let mut i: usize = start;
    if i > s.len() {
        return None;
    }
    while i < s.len()
        invariant
            start <= i <= s.len(),
            find_char(s@, c, start as int) == find_char(s@, c, i as int),
        decreases s.len() - i,
    {
        if s[i] == c {
            return Some(i);
        }
        i = i + 1;
    }
    None
}

/// The text between the first two `"` characters of `s`, if there are two.
pub fn first_quoted_text(s: &str) -> (r: Option<String>)
    ensures
        r is Some <==> first_quoted(s@) is Some,
        r is Some ==> r.unwrap()@ == first_quoted(s@).unwrap(),
{
    let cs = chars_of(s);
    assert(cs@.len() == s@.len());
    match find_char_exec(&cs, '"', 0) {
        Some(a) => match find_char_exec(&cs, '"', a + 1) {
            Some(b) => Some(String::from_str(s.substring_char(a + 1, b))),
            None => None,
        },
        None => None,
    }
}

} // verus!

verus! {

pub proof fn lemma_lex_lt_transitive(a: Seq<char>, b: Seq<char>, c: Seq<char>)
    requires
        lex_lt(a, b),
        lex_lt(b, c),
    ensures lex_lt(a, c),
    decreases a.len(),
{
    if a.len() > 0 && b.len() > 0 && c.len() > 0 && a[0] == b[0] && b[0] == c[0] {
        lemma_lex_lt_transitive(a.drop_first(), b.drop_first(), c.drop_first());
    }
}

/// Each key comes strictly before the next in lexicographic order.
pub open spec fn strictly_sorted(s: Seq<Seq<char>>) -> bool {
    forall|i: int, j: int| 0 <= i < j < s.len() ==> lex_lt(#[trigger] s[i], #[trigger] s[j])
}

proof fn lemma_insert_sorted(s: Seq<Seq<char>>, k: Seq<char>)
    requires strictly_sorted(s),
    ensures
        strictly_sorted(insert_sorted(s, k)),
        forall|x: Seq<char>| #[trigger] insert_sorted(s, k).contains(x) <==> (s.contains(x) || x == k),
    decreases s.len(),
{
    let r = insert_sorted(s, k);
    if s.len() == 0 {
        assert(r =~= seq![k]);
        assert forall|x: Seq<char>| r.contains(x) <==> (s.contains(x) || x == k) by {
            if x == k {
                assert(r[0] == k);
            }
        }
    } else if s[0] == k {
        assert forall|x: Seq<char>| r.contains(x) <==> (s.contains(x) || x == k) by {
            if x == k {
                assert(s[0] == k);
            }
        }
    } else if lex_lt(k, s[0]) {
        assert(r =~= seq![k] + s);
        assert forall|i: int, j: int| 0 <= i < j < r.len() implies lex_lt(#[trigger] r[i], #[trigger] r[j]) by {
            if i == 0 {
                assert(r[j] == s[j - 1]);
                if j - 1 > 0 {
                    assert(lex_lt(s[0], s[j - 1]));
                    lemma_lex_lt_transitive(k, s[0], s[j - 1]);
                }
            } else {
                assert(r[i] == s[i - 1] && r[j] == s[j - 1]);
            }
        }
        assert forall|x: Seq<char>| r.contains(x) <==> (s.contains(x) || x == k) by {
            if x == k {
                assert(r[0] == k);
            }
            if s.contains(x) {
                let i = choose|i: int| 0 <= i < s.len() && s[i] == x;
                assert(r[i + 1] == x);
            }
            if r.contains(x) {
                let i = choose|i: int| 0 <= i < r.len() && r[i] == x;
                if i > 0 {
                    assert(s[i - 1] == x);
                }
            }
        }
    } else {
        let t = s.drop_first();
        assert forall|i: int, j: int| 0 <= i < j < t.len() implies lex_lt(#[trigger] t[i], #[trigger] t[j]) by {
            assert(t[i] == s[i + 1] && t[j] == s[j + 1]);
        }
        lemma_insert_sorted(t, k);
        let rt = insert_sorted(t, k);
        assert(rt.contains(k) <==> (t.contains(k) || k == k));
        assert(rt.contains(k));
        assert(r =~= seq![s[0]] + rt);
        lemma_total(k, s[0]);
        assert(lex_lt(s[0], k));
        assert forall|i: int, j: int| 0 <= i < j < r.len() implies lex_lt(#[trigger] r[i], #[trigger] r[j]) by {
            if i == 0 {
                assert(r[j] == rt[j - 1]);
                assert(rt.contains(rt[j - 1]));
                if rt[j - 1] == k {
                } else {
                    assert(t.contains(rt[j - 1]));
                    let q = choose|q: int| 0 <= q < t.len() && t[q] == rt[j - 1];
                    assert(t[q] == s[q + 1]);
                    assert(lex_lt(s[0], s[q + 1]));
                }
            } else {
                assert(r[i] == rt[i - 1] && r[j] == rt[j - 1]);
            }
        }
        assert forall|x: Seq<char>| r.contains(x) <==> (s.contains(x) || x == k) by {
            if r.contains(x) {
                let i = choose|i: int| 0 <= i < r.len() && r[i] == x;
                if i == 0 {
                    assert(s[0] == x);
                } else {
                    assert(rt[i - 1] == x);
                    assert(rt.contains(x));
                    if t.contains(x) {
                        let q = choose|q: int| 0 <= q < t.len() && t[q] == x;
                        assert(s[q + 1] == x);
                    }
                }
            }
            if s.contains(x) {
                let i = choose|i: int| 0 <= i < s.len() && s[i] == x;
                if i == 0 {
                    assert(r[0] == x);
                } else {
                    assert(t[i - 1] == x);
                    assert(t.contains(x));
                    assert(rt.contains(x));
                    let q = choose|q: int| 0 <= q < rt.len() && rt[q] == x;
                    assert(r[q + 1] == x);
                }
            }
            if x == k {
                assert(rt.contains(k));
                let q = choose|q: int| 0 <= q < rt.len() && rt[q] == k;
                assert(r[q + 1] == k);
            }
        }
    }
}

/// `sort_dedup` gives the keys in strictly increasing lexicographic order,
/// so each once, and exactly the keys among the first `n`.
pub proof fn lemma_sort_dedup(keys: Seq<Seq<char>>, n: int)
    requires 0 <= n <= keys.len(),
    ensures
        strictly_sorted(sort_dedup(keys, n)),
        forall|x: Seq<char>| #[trigger] sort_dedup(keys, n).contains(x) <==> (exists|i: int| 0 <= i < n && keys[i] == x),
    decreases n,
{
    if n > 0 {
        lemma_sort_dedup(keys, n - 1);
        lemma_insert_sorted(sort_dedup(keys, n - 1), keys[n - 1]);
        assert forall|x: Seq<char>| sort_dedup(keys, n).contains(x) <==> (exists|i: int| 0 <= i < n && keys[i] == x) by {
            if exists|i: int| 0 <= i < n && keys[i] == x {
                let i = choose|i: int| 0 <= i < n && keys[i] == x;
                if i < n - 1 {
                    assert(exists|i2: int| 0 <= i2 < n - 1 && keys[i2] == x);
                }
            }
            if sort_dedup(keys, n - 1).contains(x) {
                let i = choose|i: int| 0 <= i < n - 1 && keys[i] == x;
                assert(0 <= i < n && keys[i] == x);
            }
        }
    } else {
        assert(sort_dedup(keys, 0) =~= Seq::<Seq<char>>::empty());
    }
}

} // verus!
