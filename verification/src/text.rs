//! Small verified text utilities shared by the triage pipeline.
//!
//! The pipeline works on `Vec<char>` internally: every `String` that enters
//! the library is expanded to its characters once, and every piece of text
//! the library produces is assembled as characters and packed back into a
//! `String` at the end.

use vstd::prelude::*;

verus! {

/// Expands a string slice into its characters.
pub fn chars_of(s: &str) -> (r: Vec<char>)
    ensures
        r@ == s@,
{
    let n = s.unicode_len();
    let mut r: Vec<char> = Vec::new();
    let mut i: usize = 0;
    while i < n
        invariant
            n == s@.len(),
            i <= n,
            r@ == s@.subrange(0, i as int),
        decreases n - i,
    {
        r.push(s.get_char(i));
        i = i + 1;
        proof {
            assert(r@ =~= s@.subrange(0, i as int));
        }
    }
    proof {
        assert(r@ =~= s@);
    }
    r
}

/// Relies on `String`'s `FromIterator` over `char`: collecting characters
/// yields the string made of exactly those characters, in order.
#[verifier::external_body]
pub fn string_of(v: Vec<char>) -> (r: String)
    ensures
        r@ == v@,
{
    v.into_iter().collect()
}

/// True when `sub` occurs in `s` starting at index `at`.
pub open spec fn matches_at(s: Seq<char>, sub: Seq<char>, at: int) -> bool {
    &&& 0 <= at
    &&& at + sub.len() <= s.len()
    &&& s.subrange(at, at + sub.len() as int) == sub
}

/// True when `sub` occurs somewhere in `s`.
pub open spec fn contains_seq(s: Seq<char>, sub: Seq<char>) -> bool {
    exists|i: int| matches_at(s, sub, i)
}

/// Tests whether `sub` occurs in `s` at index `at`.
fn check_match(s: &Vec<char>, sub: &Vec<char>, at: usize) -> (r: bool)
    requires
        at + sub@.len() <= s@.len(),
    ensures
        r == matches_at(s@, sub@, at as int),
{
    let n = s.len();
    let m = sub.len();
    let mut j: usize = 0;
    while j < m
        invariant
            n == s@.len(),
            m == sub@.len(),
            at + m <= n,
            j <= m,
            s@.subrange(at as int, at + j) == sub@.subrange(0, j as int),
        decreases m - j,
    {
        if s[at + j] != sub[j] {
            proof {
                assert(s@.subrange(at as int, at + m as int)[j as int] == s@[at + j]);
                assert(sub@[j as int] != s@[at + j]);
            }
            return false;
        }
        j = j + 1;
        proof {
            assert(s@.subrange(at as int, at + j) =~= sub@.subrange(0, j as int));
        }
    }
    proof {
        assert(sub@.subrange(0, m as int) =~= sub@);
        assert(s@.subrange(at as int, at + m as int) =~= sub@);
    }
    true
}

/// Index of the first occurrence of `sub` in `s`, if any.
pub open spec fn spec_find(s: Seq<char>, sub: Seq<char>) -> Option<int>
    decreases s.len(),
{
    if matches_at(s, sub, 0) {
        Some(0)
    } else if s.len() == 0 {
        None
    } else {
        match spec_find(s.drop_first(), sub) {
            Some(i) => Some(1 + i),
            None => None,
        }
    }
}

proof fn lemma_match_shift(s: Seq<char>, sub: Seq<char>, j: int)
    requires
        s.len() > 0,
        0 <= j,
    ensures
        matches_at(s, sub, j + 1) <==> matches_at(s.drop_first(), sub, j),
{
    if j + 1 + sub.len() <= s.len() {
        assert(s.subrange(j + 1, j + 1 + sub.len() as int) =~= s.drop_first().subrange(
            j,
            j + sub.len() as int,
        ));
    }
}

pub(crate) proof fn lemma_spec_find_correct(s: Seq<char>, sub: Seq<char>)
    ensures
        spec_find(s, sub) matches Some(i) ==> 0 <= i && matches_at(s, sub, i) && forall|j: int|
            0 <= j < i ==> !matches_at(s, sub, j),
        spec_find(s, sub) is None ==> !contains_seq(s, sub),
    decreases s.len(),
{
    if matches_at(s, sub, 0) {
    } else if s.len() == 0 {
        assert forall|j: int| !matches_at(s, sub, j) by {
            if matches_at(s, sub, j) {
                assert(j == 0);
            }
        }
        assert(!contains_seq(s, sub));
    } else {
        lemma_spec_find_correct(s.drop_first(), sub);
        match spec_find(s.drop_first(), sub) {
            Some(i) => {
                lemma_match_shift(s, sub, i);
                assert forall|j: int| 0 <= j < 1 + i implies !matches_at(s, sub, j) by {
                    if j > 0 {
                        lemma_match_shift(s, sub, j - 1);
                    }
                }
            },
            None => {
                assert forall|j: int| !matches_at(s, sub, j) by {
                    if matches_at(s, sub, j) {
                        if j > 0 {
                            lemma_match_shift(s, sub, j - 1);
                            assert(contains_seq(s.drop_first(), sub));
                        }
                    }
                }
                assert(!contains_seq(s, sub));
            },
        }
    }
}

proof fn lemma_first_match_exists(s: Seq<char>, sub: Seq<char>, i: int)
    requires
        matches_at(s, sub, i),
        forall|j: int| 0 <= j < i ==> !matches_at(s, sub, j),
    ensures
        spec_find(s, sub) == Some(i),
{
    lemma_spec_find_correct(s, sub);
    match spec_find(s, sub) {
        Some(w) => {
            if w < i {
                assert(!matches_at(s, sub, w));
            }
            if i < w {
                assert(!matches_at(s, sub, i));
            }
        },
        None => {
            assert(contains_seq(s, sub));
        },
    }
}

/// Finds the first occurrence of `sub` in `s`.
pub fn find_seq(s: &Vec<char>, sub: &Vec<char>) -> (r: Option<usize>)
    ensures
        match r {
            Some(i) => spec_find(s@, sub@) == Some(i as int),
            None => spec_find(s@, sub@) is None,
        },
{
    let n = s.len();
    let m = sub.len();
    if m == 0 {
        proof {
            assert(s@.subrange(0, 0) =~= sub@);
            assert(matches_at(s@, sub@, 0));
            lemma_first_match_exists(s@, sub@, 0);
        }
        return Some(0);
    }
    if m > n {
        proof {
            assert(forall|i: int| !matches_at(s@, sub@, i));
            lemma_no_match_no_find(s@, sub@);
        }
        return None;
    }
    let mut i: usize = 0;
    while i <= n - m
        invariant
            n == s@.len(),
            m == sub@.len(),
            1 <= m <= n,
            i <= n - m + 1,
            forall|j: int| 0 <= j < i ==> !matches_at(s@, sub@, j),
        decreases n - m + 1 - i,
    {
        if check_match(s, sub, i) {
            proof {
                lemma_first_match_exists(s@, sub@, i as int);
            }
            return Some(i);
        }
        i = i + 1;
    }
    proof {
        assert(forall|j: int| matches_at(s@, sub@, j) ==> 0 <= j < i);
        assert(forall|j: int| !matches_at(s@, sub@, j));
        lemma_no_match_no_find(s@, sub@);
    }
    None
}

proof fn lemma_no_match_no_find(s: Seq<char>, sub: Seq<char>)
    requires
        forall|j: int| !matches_at(s, sub, j),
    ensures
        spec_find(s, sub) is None,
{
    lemma_spec_find_correct(s, sub);
    match spec_find(s, sub) {
        Some(w) => {
            assert(matches_at(s, sub, w));
        },
        None => (),
    }
}

/// Tests whether two character vectors hold the same text.
pub fn chars_eq(a: &Vec<char>, b: &Vec<char>) -> (r: bool)
    ensures
        r == (a@ == b@),
{
    let n = a.len();
    if n != b.len() {
        return false;
    }
    let mut i: usize = 0;
    while i < n
        invariant
            n == a@.len() == b@.len(),
            i <= n,
            forall|j: int| 0 <= j < i ==> a@[j] == b@[j],
        decreases n - i,
    {
        if a[i] != b[i] {
            return false;
        }
        i = i + 1;
    }
    proof {
        assert(a@ =~= b@);
    }
    true
}

/// Tests whether a string slice holds the same text as a character vector.
pub fn str_eq_chars(s: &str, v: &Vec<char>) -> (r: bool)
    ensures
        r == (s@ == v@),
{
    let a = chars_of(s);
    chars_eq(&a, v)
}

/// Appends the characters of `s` to `out`.
pub fn append_str(out: &mut Vec<char>, s: &str)
    ensures
        final(out)@ == old(out)@ + s@,
{
    let mut cs = chars_of(s);
    out.append(&mut cs);
}

/// Appends the characters of `s` to `out`.
pub fn append_chars(out: &mut Vec<char>, s: &Vec<char>)
    ensures
        final(out)@ == old(out)@ + s@,
{
    let n = s.len();
    let mut i: usize = 0;
    while i < n
        invariant
            n == s@.len(),
            i <= n,
            out@ == old(out)@ + s@.subrange(0, i as int),
        decreases n - i,
    {
        out.push(s[i]);
        i = i + 1;
        proof {
            assert(old(out)@ + s@.subrange(0, i as int) =~= (old(out)@ + s@.subrange(
                0,
                i - 1,
            )).push(s@[i - 1]));
        }
    }
    proof {
        assert(s@.subrange(0, n as int) =~= s@);
    }
}

/// Copies `s[a..b]` into a fresh vector.
pub fn subvec(s: &Vec<char>, a: usize, b: usize) -> (r: Vec<char>)
    requires
        a <= b <= s@.len(),
    ensures
        r@ == s@.subrange(a as int, b as int),
{
    let mut r: Vec<char> = Vec::new();
    let mut i: usize = a;
    while i < b
        invariant
            a <= i <= b <= s@.len(),
            r@ == s@.subrange(a as int, i as int),
        decreases b - i,
    {
        r.push(s[i]);
        i = i + 1;
        proof {
            assert(s@.subrange(a as int, i as int) =~= s@.subrange(a as int, i - 1).push(
                s@[i - 1],
            ));
        }
    }
    r
}

/// True when `pre` is a prefix of `s`.
pub open spec fn has_prefix(s: Seq<char>, pre: Seq<char>) -> bool {
    matches_at(s, pre, 0)
}

/// True when `suf` is a suffix of `s`.
pub open spec fn has_suffix(s: Seq<char>, suf: Seq<char>) -> bool {
    matches_at(s, suf, s.len() - suf.len())
}

/// Tests whether `pre` is a prefix of `s`.
pub fn starts_with_chars(s: &Vec<char>, pre: &Vec<char>) -> (r: bool)
    ensures
        r == has_prefix(s@, pre@),
{
    if pre.len() > s.len() {
        return false;
    }
    check_match(s, pre, 0)
}

/// Tests whether `suf` is a suffix of `s`.
pub fn ends_with_chars(s: &Vec<char>, suf: &Vec<char>) -> (r: bool)
    ensures
        r == has_suffix(s@, suf@),
{
    if suf.len() > s.len() {
        return false;
    }
    check_match(s, suf, s.len() - suf.len())
}

/// The whitespace characters the pipeline recognises when it splits text
/// into tokens or trims a rating: the ASCII ones.
pub open spec fn is_ws(c: char) -> bool {
    c == ' ' || c == '\t' || c == '\n' || c == '\r'
}

/// Tests whether `c` is ASCII whitespace.
pub fn is_ws_char(c: char) -> (r: bool)
    ensures
        r == is_ws(c),
{
    c == ' ' || c == '\t' || c == '\n' || c == '\r'
}

/// `s` without leading and trailing ASCII whitespace.
pub open spec fn trimmed(s: Seq<char>) -> Seq<char>
    decreases s.len(),
{
    if s.len() > 0 && is_ws(s[0]) {
        trimmed(s.drop_first())
    } else if s.len() > 0 && is_ws(s.last()) {
        trimmed(s.drop_last())
    } else {
        s
    }
}

/// Removes leading and trailing ASCII whitespace.
pub fn trim_chars(s: &Vec<char>) -> (r: Vec<char>)
    ensures
        r@ == trimmed(s@),
{
    let n = s.len();
    let mut a: usize = 0;
    while a < n && is_ws_char(s[a])
        invariant
            n == s@.len(),
            a <= n,
            forall|j: int| 0 <= j < a ==> is_ws(s@[j]),
        decreases n - a,
    {
        a = a + 1;
    }
    if a == n {
        proof {
            lemma_trim_all_ws(s@);
        }
        return Vec::new();
    }
    let mut b: usize = n;
    while b > a + 1 && is_ws_char(s[b - 1])
        invariant
            n == s@.len(),
            a < b <= n,
            forall|j: int| b <= j < n ==> is_ws(s@[j]),
        decreases b,
    {
        b = b - 1;
    }
    let r = subvec(s, a, b);
    proof {
        lemma_trim_inner(s@, a as int, b as int);
    }
    r
}

proof fn lemma_trim_all_ws(s: Seq<char>)
    requires
        forall|j: int| 0 <= j < s.len() ==> is_ws(s[j]),
    ensures
        trimmed(s) == Seq::<char>::empty(),
    decreases s.len(),
{
    if s.len() > 0 {
        lemma_trim_all_ws(s.drop_first());
    } else {
        assert(s =~= Seq::<char>::empty());
    }
}

proof fn lemma_trim_inner(s: Seq<char>, a: int, b: int)
    requires
        0 <= a < b <= s.len(),
        forall|j: int| 0 <= j < a ==> is_ws(s[j]),
        forall|j: int| b <= j < s.len() ==> is_ws(s[j]),
        !is_ws(s[a]),
        b == a + 1 || !is_ws(s[b - 1]),
    ensures
        trimmed(s) == s.subrange(a, b),
    decreases s.len(),
{
    if a > 0 {
        lemma_trim_inner(s.drop_first(), a - 1, b - 1);
        assert(s.drop_first().subrange(a - 1, b - 1) =~= s.subrange(a, b));
    } else if b < s.len() {
        lemma_trim_inner(s.drop_last(), a, b);
        assert(s.drop_last().subrange(a, b) =~= s.subrange(a, b));
    } else {
        assert(s.subrange(0, s.len() as int) =~= s);
    }
}

/// How many newline characters `s` holds.
pub open spec fn newline_count(s: Seq<char>) -> nat
    decreases s.len(),
{
    if s.len() == 0 {
        0
    } else {
        newline_count(s.drop_last()) + if s.last() == '\n' {
            1nat
        } else {
            0nat
        }
    }
}

/// How many lines `s` holds, counting as the standard library's line
/// iterator does: every newline ends a line, and a non-empty tail after the
/// last newline counts as one more.
pub open spec fn line_count(s: Seq<char>) -> nat {
    if s.len() == 0 {
        0
    } else if s.last() == '\n' {
        newline_count(s)
    } else {
        newline_count(s) + 1
    }
}

/// Counts the lines of `s`.
pub fn count_lines(s: &Vec<char>) -> (r: usize)
    ensures
        r == line_count(s@),
{
    let n = s.len();
    let mut nl: usize = 0;
    let mut i: usize = 0;
    while i < n
        invariant
            n == s@.len(),
            i <= n,
            nl == newline_count(s@.subrange(0, i as int)),
            nl <= i,
        decreases n - i,
    {
        if s[i] == '\n' {
            nl = nl + 1;
        }
        i = i + 1;
        proof {
            assert(s@.subrange(0, i as int).drop_last() =~= s@.subrange(0, i - 1));
            assert(s@.subrange(0, i as int).last() == s@[i - 1]);
        }
    }
    proof {
        assert(s@.subrange(0, n as int) =~= s@);
    }
    if n == 0 {
        0
    } else if s[n - 1] == '\n' {
        nl
    } else {
        proof {
            lemma_newline_count_le(s@.drop_last());
            assert(nl == newline_count(s@.drop_last()));
        }
        nl + 1
    }
}

proof fn lemma_newline_count_le(s: Seq<char>)
    ensures
        newline_count(s) <= s.len(),
    decreases s.len(),
{
    if s.len() > 0 {
        lemma_newline_count_le(s.drop_last());
    }
}

/// Tests whether `sub` occurs anywhere in `s`.
pub fn contains_chars(s: &Vec<char>, sub: &Vec<char>) -> (r: bool)
    ensures
        r == contains_seq(s@, sub@),
{
    proof {
        lemma_spec_find_correct(s@, sub@);
    }
    match find_seq(s, sub) {
        Some(_) => {
            proof {
                assert(contains_seq(s@, sub@));
            }
            true
        },
        None => false,
    }
}

/// `c` mapped to lower case, for the ASCII letters only.
pub open spec fn to_lower_char(c: char) -> char {
    if 'A' <= c && c <= 'Z' {
        (c as u8 + 32) as char
    } else {
        c
    }
}

/// `c` mapped to upper case, for the ASCII letters only.
pub open spec fn to_upper_char(c: char) -> char {
    if 'a' <= c && c <= 'z' {
        (c as u8 - 32) as char
    } else {
        c
    }
}

/// Lowers the ASCII letters of `c`.
pub fn lower_char(c: char) -> (r: char)
    ensures
        r == to_lower_char(c),
{
    if 'A' <= c && c <= 'Z' {
        ((c as u8) + 32) as char
    } else {
        c
    }
}

/// Raises the ASCII letters of `c`.
pub fn upper_char(c: char) -> (r: char)
    ensures
        r == to_upper_char(c),
{
    if 'a' <= c && c <= 'z' {
        ((c as u8) - 32) as char
    } else {
        c
    }
}

/// `s` with every ASCII letter lowered.
pub open spec fn ascii_lower(s: Seq<char>) -> Seq<char> {
    s.map(|_i: int, c: char| to_lower_char(c))
}

/// Lowers every ASCII letter of `s`.
pub fn ascii_lower_chars(s: &Vec<char>) -> (r: Vec<char>)
    ensures
        r@ == ascii_lower(s@),
{
    let n = s.len();
    let mut r: Vec<char> = Vec::new();
    let mut i: usize = 0;
    while i < n
        invariant
            n == s@.len(),
            i <= n,
            r@ == ascii_lower(s@.subrange(0, i as int)),
        decreases n - i,
    {
        r.push(lower_char(s[i]));
        i = i + 1;
        proof {
            assert(r@ =~= ascii_lower(s@.subrange(0, i as int)));
        }
    }
    proof {
        assert(s@.subrange(0, n as int) =~= s@);
    }
    r
}

/// `s` with its first character lowered, when it is an ASCII letter.
pub open spec fn lower_first(s: Seq<char>) -> Seq<char> {
    if s.len() == 0 {
        s
    } else {
        s.update(0, to_lower_char(s[0]))
    }
}

/// `s` with its first character raised, when it is an ASCII letter.
pub open spec fn upper_first(s: Seq<char>) -> Seq<char> {
    if s.len() == 0 {
        s
    } else {
        s.update(0, to_upper_char(s[0]))
    }
}

/// Lowers the first character of `s` when it is an ASCII letter.
pub fn lower_first_chars(s: &Vec<char>) -> (r: Vec<char>)
    ensures
        r@ == lower_first(s@),
{
    if s.len() == 0 {
        return Vec::new();
    }
    let mut r = subvec(s, 0, s.len());
    proof {
        assert(r@ =~= s@);
    }
    let c = lower_char(s[0]);
    r.set(0, c);
    r
}

/// Raises the first character of `s` when it is an ASCII letter.
pub fn upper_first_chars(s: &Vec<char>) -> (r: Vec<char>)
    ensures
        r@ == upper_first(s@),
{
    if s.len() == 0 {
        return Vec::new();
    }
    let mut r = subvec(s, 0, s.len());
    proof {
        assert(r@ =~= s@);
    }
    let c = upper_char(s[0]);
    r.set(0, c);
    r
}

/// Length of the maximal run of non-whitespace characters at the head of
/// `s`.
pub open spec fn leading_token_len(s: Seq<char>) -> nat
    decreases s.len(),
{
    if s.len() == 0 || is_ws(s[0]) {
        0
    } else {
        1 + leading_token_len(s.drop_first())
    }
}

/// The first whitespace-delimited token of `s` that has `sub` as a
/// substring, if any.
pub open spec fn first_token_containing(s: Seq<char>, sub: Seq<char>) -> Option<Seq<char>>
    decreases s.len(),
    via first_token_containing_decreases
{
    if s.len() == 0 {
        None
    } else if is_ws(s[0]) {
        first_token_containing(s.drop_first(), sub)
    } else {
        let t = s.subrange(0, leading_token_len(s) as int);
        if contains_seq(t, sub) {
            Some(t)
        } else {
            first_token_containing(s.skip(leading_token_len(s) as int), sub)
        }
    }
}

#[via_fn]
proof fn first_token_containing_decreases(s: Seq<char>, sub: Seq<char>) {
    if s.len() > 0 && !is_ws(s[0]) {
        assert(leading_token_len(s) == 1 + leading_token_len(s.drop_first()));
        lemma_leading_token_len_le(s);
    }
}

proof fn lemma_leading_token_len_le(s: Seq<char>)
    ensures
        leading_token_len(s) <= s.len(),
    decreases s.len(),
{
    if !(s.len() == 0 || is_ws(s[0])) {
        lemma_leading_token_len_le(s.drop_first());
    }
}

proof fn lemma_leading_token_len(u: Seq<char>, m: int)
    requires
        0 <= m <= u.len(),
        forall|p: int| 0 <= p < m ==> !is_ws(u[p]),
        m == u.len() || is_ws(u[m]),
    ensures
        leading_token_len(u) == m,
    decreases m,
{
    if m == 0 {
    } else {
        assert(!is_ws(u[0]));
        lemma_leading_token_len(u.drop_first(), m - 1);
    }
}

proof fn lemma_leading_token_facts(s: Seq<char>)
    ensures
        leading_token_len(s) <= s.len(),
        forall|p: int| 0 <= p < leading_token_len(s) ==> !is_ws(#[trigger] s[p]),
        leading_token_len(s) == s.len() || is_ws(s[leading_token_len(s) as int]),
    decreases s.len(),
{
    if !(s.len() == 0 || is_ws(s[0])) {
        lemma_leading_token_facts(s.drop_first());
        let d = s.drop_first();
        assert forall|p: int| 0 <= p < leading_token_len(s) implies !is_ws(#[trigger] s[p]) by {
            if p > 0 {
                assert(s[p] == d[p - 1]);
            }
        }
        if leading_token_len(s) < s.len() {
            assert(s[leading_token_len(s) as int] == d[leading_token_len(d) as int]);
        }
    }
}

proof fn lemma_match_skip(s: Seq<char>, sub: Seq<char>, k: int, j: int)
    requires
        0 <= k <= s.len(),
        0 <= j,
    ensures
        matches_at(s, sub, k + j) <==> matches_at(s.skip(k), sub, j),
{
    if k + j + sub.len() <= s.len() {
        assert(s.subrange(k + j, k + j + sub.len() as int) =~= s.skip(k).subrange(
            j,
            j + sub.len() as int,
        ));
    }
}

/// A needle without whitespace cannot straddle a token boundary: some
/// whitespace-delimited token of `s` holds `sub` exactly when `s` itself
/// holds `sub`.
#[verifier::rlimit(50)]
pub proof fn lemma_token_iff_contains(s: Seq<char>, sub: Seq<char>)
    requires
        sub.len() > 0,
        forall|i: int| 0 <= i < sub.len() ==> !is_ws(#[trigger] sub[i]),
    ensures
        (first_token_containing(s, sub) is Some) <==> contains_seq(s, sub),
    decreases s.len(),
{
    if s.len() == 0 {
        assert forall|i: int| !matches_at(s, sub, i) by {}
    } else if is_ws(s[0]) {
        lemma_token_iff_contains(s.drop_first(), sub);
        assert(first_token_containing(s, sub) == first_token_containing(s.drop_first(), sub));
        assert forall|i: int| matches_at(s, sub, i) implies contains_seq(s.drop_first(), sub) by {
            if i == 0 {
                assert(s.subrange(0, sub.len() as int)[0] == s[0]);
                assert(!is_ws(sub[0]));
            } else {
                lemma_match_shift(s, sub, i - 1);
            }
        }
        if contains_seq(s.drop_first(), sub) {
            let w = choose|w: int| matches_at(s.drop_first(), sub, w);
            lemma_match_shift(s, sub, w);
            assert(matches_at(s, sub, w + 1));
        }
    } else {
        lemma_leading_token_facts(s);
        let len = leading_token_len(s) as int;
        let t = s.subrange(0, len);
        if contains_seq(t, sub) {
            let w = choose|w: int| matches_at(t, sub, w);
            assert(s.subrange(w, w + sub.len() as int) =~= t.subrange(w, w + sub.len() as int));
            assert(matches_at(s, sub, w));
        } else {
            lemma_token_iff_contains(s.skip(len), sub);
            assert(first_token_containing(s, sub) == first_token_containing(s.skip(len), sub));
            if contains_seq(s, sub) {
                let w = choose|w: int| matches_at(s, sub, w);
                if w + sub.len() <= len {
                    assert(t.subrange(w, w + sub.len() as int) =~= s.subrange(
                        w,
                        w + sub.len() as int,
                    ));
                    assert(matches_at(t, sub, w));
                } else if w < len {
                    assert(len < s.len());
                    assert(s.subrange(w, w + sub.len() as int)[len - w] == s[len]);
                    assert(sub[len - w] == s[len]);
                    assert(!is_ws(sub[len - w]));
                } else {
                    lemma_match_skip(s, sub, len, w - len);
                    assert(contains_seq(s.skip(len), sub));
                }
            }
            if contains_seq(s.skip(len), sub) {
                let w = choose|w: int| matches_at(s.skip(len), sub, w);
                lemma_match_skip(s, sub, len, w);
                assert(matches_at(s, sub, len + w));
            }
        }
    }
}

/// Finds the first whitespace-delimited token of `s` containing `sub`.
pub fn first_token_with(s: &Vec<char>, sub: &Vec<char>) -> (r: Option<Vec<char>>)
    ensures
        match r {
            Some(t) => first_token_containing(s@, sub@) == Some(t@),
            None => first_token_containing(s@, sub@) is None,
        },
{
    let n = s.len();
    let mut i: usize = 0;
    proof {
        assert(s@.skip(0) =~= s@);
    }
    loop
        invariant
            n == s@.len(),
            i <= n,
            first_token_containing(s@, sub@) == first_token_containing(s@.skip(i as int), sub@),
        decreases n - i,
    {
        if i == n {
            proof {
                assert(s@.skip(n as int) =~= Seq::<char>::empty());
            }
            return None;
        }
        if is_ws_char(s[i]) {
            proof {
                assert(s@.skip(i as int).drop_first() =~= s@.skip(i + 1));
            }
            i = i + 1;
        } else {
            let start = i;
            let mut j = i + 1;
            while j < n && !is_ws_char(s[j])
                invariant
                    n == s@.len(),
                    start < j <= n,
                    forall|p: int| start <= p < j ==> !is_ws(s@[p]),
                decreases n - j,
            {
                j = j + 1;
            }
            proof {
                let u = s@.skip(start as int);
                assert(forall|p: int|
                    0 <= p < j - start ==> u[p] == s@[p + start] && !is_ws(u[p]));
                if j < n {
                    assert(is_ws(u[j - start]));
                }
                lemma_leading_token_len(u, j - start);
            }
            let t = subvec(s, start, j);
            proof {
                assert(s@.skip(start as int).subrange(0, j - start) =~= t@);
            }
            if contains_chars(&t, sub) {
                proof {
                    assert(contains_seq(t@, sub@));
                    assert(first_token_containing(s@.skip(start as int), sub@) == Some(t@));
                }
                return Some(t);
            }
            proof {
                assert(s@.skip(start as int).skip(j - start) =~= s@.skip(j as int));
                assert(first_token_containing(s@.skip(start as int), sub@)
                    == first_token_containing(s@.skip(j as int), sub@));
            }
            i = j;
        }
    }
}

/// The triple-backtick fence that delimits a code block.
pub open spec fn fence() -> Seq<char> {
    seq!['`', '`', '`']
}

/// Builds the fence as a vector.
fn fence_vec() -> (r: Vec<char>)
    ensures
        r@ == fence(),
{
    let mut v: Vec<char> = Vec::new();
    v.push('`');
    v.push('`');
    v.push('`');
    proof {
        assert(v@ =~= fence());
    }
    v
}

proof fn lemma_spec_find_bounds(s: Seq<char>, sub: Seq<char>)
    ensures
        spec_find(s, sub) matches Some(i) ==> matches_at(s, sub, i),
{
    lemma_spec_find_correct(s, sub);
}

/// What extracting the `tag`-marked code block from `s` yields. Each fence
/// opens a segment that the next fence closes (the text after a final,
/// unclosed fence counts as a segment too); the result is the first such
/// segment that begins with `tag`, with the tag stripped. A missing block is
/// `None`, distinct from a present but empty block; an empty tag matches the
/// first fenced segment outright.
pub open spec fn codeblock_spec(s: Seq<char>, tag: Seq<char>) -> Option<Seq<char>>
    decreases s.len(),
    via codeblock_spec_decreases
{
    match spec_find(s, fence()) {
        None => None,
        Some(i) => {
            let rest1 = s.skip(i + 3);
            match spec_find(rest1, fence()) {
                None => if has_prefix(rest1, tag) {
                    Some(rest1.skip(tag.len() as int))
                } else {
                    None
                },
                Some(j) => {
                    let seg1 = rest1.subrange(0, j);
                    if has_prefix(seg1, tag) {
                        Some(seg1.skip(tag.len() as int))
                    } else {
                        codeblock_spec(rest1.skip(j + 3), tag)
                    }
                },
            }
        },
    }
}

#[via_fn]
proof fn codeblock_spec_decreases(s: Seq<char>, tag: Seq<char>) {
    lemma_spec_find_bounds(s, fence());
    match spec_find(s, fence()) {
        Some(i) => lemma_spec_find_bounds(s.skip(i + 3), fence()),
        None => (),
    }
}

/// Extracts the first code block of `s` whose opening fence is followed by
/// `tag`.
pub fn extract_block(s: &Vec<char>, tag: &Vec<char>) -> (r: Option<Vec<char>>)
    ensures
        match r {
            Some(b) => codeblock_spec(s@, tag@) == Some(b@),
            None => codeblock_spec(s@, tag@) is None,
        },
    decreases s@.len(),
{
    let f = fence_vec();
    let n = s.len();
    match find_seq(s, &f) {
        None => None,
        Some(i) => {
            proof {
                lemma_spec_find_bounds(s@, fence());
            }
            let rest1 = subvec(s, i + 3, n);
            proof {
                assert(rest1@ =~= s@.skip(i + 3));
            }
            match find_seq(&rest1, &f) {
                None => {
                    if starts_with_chars(&rest1, tag) {
                        let b = subvec(&rest1, tag.len(), rest1.len());
                        proof {
                            assert(b@ =~= rest1@.skip(tag@.len() as int));
                        }
                        Some(b)
                    } else {
                        None
                    }
                },
                Some(j) => {
                    proof {
                        lemma_spec_find_bounds(rest1@, fence());
                    }
                    let seg1 = subvec(&rest1, 0, j);
                    let rest2 = subvec(&rest1, j + 3, rest1.len());
                    proof {
                        assert(seg1@ =~= rest1@.subrange(0, j as int));
                        assert(rest2@ =~= rest1@.skip(j + 3));
                    }
                    if starts_with_chars(&seg1, tag) {
                        let b = subvec(&seg1, tag.len(), seg1.len());
                        proof {
                            assert(b@ =~= seg1@.skip(tag@.len() as int));
                        }
                        Some(b)
                    } else {
                        extract_block(&rest2, tag)
                    }
                },
            }
        },
    }
}

/// `xs` joined with `sep` between neighbours.
pub open spec fn join_sep(xs: Seq<Seq<char>>, sep: Seq<char>) -> Seq<char>
    decreases xs.len(),
{
    if xs.len() == 0 {
        Seq::empty()
    } else if xs.len() == 1 {
        xs[0]
    } else {
        join_sep(xs.drop_last(), sep) + sep + xs.last()
    }
}

/// The views of a list of character vectors.
pub open spec fn views(xs: Seq<Vec<char>>) -> Seq<Seq<char>> {
    xs.map(|_i: int, v: Vec<char>| v@)
}

pub fn join_with(xs: &Vec<Vec<char>>, sep: &str) -> (r: Vec<char>)
    ensures
        r@ == join_sep(views(xs@), sep@),
{
    let n = xs.len();
    let mut r: Vec<char> = Vec::new();
    let mut i: usize = 0;
    proof {
        assert(views(xs@).subrange(0, 0) =~= Seq::<Seq<char>>::empty());
    }
    while i < n
        invariant
            n == xs@.len(),
            i <= n,
            r@ == join_sep(views(xs@).subrange(0, i as int), sep@),
        decreases n - i,
    {
        if i > 0 {
            append_str(&mut r, sep);
        }
        append_chars(&mut r, &xs[i]);
        i = i + 1;
        proof {
            assert(views(xs@).subrange(0, i as int).drop_last() =~= views(xs@).subrange(
                0,
                i - 1,
            ));
            assert(views(xs@).subrange(0, i as int).last() == views(xs@)[i - 1]);
            assert(views(xs@)[i - 1] == xs@[i - 1]@);
        }
    }
    proof {
        assert(views(xs@).subrange(0, n as int) =~= views(xs@));
    }
    r
}


} // verus!
