//! Text primitives over `Seq<char>` shared by the gateway's rules.
use vstd::prelude::*;
use vstd::string::*;

verus! {

/// `p` is a prefix of `s`.
pub open spec fn is_prefix(p: Seq<char>, s: Seq<char>) -> bool {
    p.len() <= s.len() && s.subrange(0, p.len() as int) == p
}

/// The characters of an optional string slice.
pub open spec fn opt_text(s: Option<&str>) -> Option<Seq<char>> {
    match s {
        Some(x) => Some(x@),
        None => None,
    }
}

/// The characters of an optional string.
pub open spec fn opt_string(s: Option<String>) -> Option<Seq<char>> {
    match s {
        Some(x) => Some(x@),
        None => None,
    }
}

/// `c` occurs in `s`.
pub open spec fn has_char(s: Seq<char>, c: char) -> bool {
    exists|i: int| 0 <= i < s.len() && s[i] == c
}

/// Characters that `char::is_whitespace` accepts (the Unicode `White_Space` property).
pub open spec fn is_white(c: char) -> bool {
    ||| ('\u{9}' <= c && c <= '\u{d}')
    ||| c == ' '
    ||| c == '\u{85}'
    ||| c == '\u{a0}'
    ||| c == '\u{1680}'
    ||| ('\u{2000}' <= c && c <= '\u{200a}')
    ||| c == '\u{2028}'
    ||| c == '\u{2029}'
    ||| c == '\u{202f}'
    ||| c == '\u{205f}'
    ||| c == '\u{3000}'
}

/// Number of leading white-space characters of `s`.
pub open spec fn lead_white(s: Seq<char>) -> nat
    decreases s.len(),
{
    if s.len() > 0 && is_white(s[0]) {
        1 + lead_white(s.drop_first())
    } else {
        0
    }
}

/// Number of trailing white-space characters of `s`.
pub open spec fn trail_white(s: Seq<char>) -> nat
    decreases s.len(),
{
    if s.len() > 0 && is_white(s.last()) {
        1 + trail_white(s.drop_last())
    } else {
        0
    }
}

/// `s` without white space at either end, as `str::trim` returns it.
pub open spec fn trimmed(s: Seq<char>) -> Seq<char> {
    let t = s.subrange(lead_white(s) as int, s.len() as int);
    t.subrange(0, t.len() - trail_white(t))
}

/// Index of the first `c` in `s`, or the length of `s` when there is none.
pub open spec fn find_char(s: Seq<char>, c: char) -> nat
    decreases s.len(),
{
    if s.len() == 0 {
        0
    } else if s[0] == c {
        0
    } else {
        1 + find_char(s.drop_first(), c)
    }
}

/// The part of `s` before the first `c` (all of `s` when `c` does not occur).
pub open spec fn before_char(s: Seq<char>, c: char) -> Seq<char> {
    s.subrange(0, find_char(s, c) as int)
}

/// Decimal digit character for a value below ten.
pub open spec fn digit_char(d: nat) -> char {
    if d == 0 { '0' }
    else if d == 1 { '1' }
    else if d == 2 { '2' }
    else if d == 3 { '3' }
    else if d == 4 { '4' }
    else if d == 5 { '5' }
    else if d == 6 { '6' }
    else if d == 7 { '7' }
    else if d == 8 { '8' }
    else { '9' }
}

/// Decimal text of `n`, without sign or leading zeros.
pub open spec fn dec_text(n: nat) -> Seq<char>
    decreases n,
{
    if n < 10 {
        seq![digit_char(n)]
    } else {
        dec_text(n / 10).push(digit_char(n % 10))
    }
}

/// Decimal text of a signed value, with `-` before negative ones.
pub open spec fn int_text(n: int) -> Seq<char> {
    if n < 0 {
        seq!['-'] + dec_text((-n) as nat)
    } else {
        dec_text(n as nat)
    }
}

/// Lowercase hexadecimal digit character for a value below sixteen.
pub open spec fn hex_char(d: nat) -> char {
    if d < 10 { digit_char(d) }
    else if d == 10 { 'a' }
    else if d == 11 { 'b' }
    else if d == 12 { 'c' }
    else if d == 13 { 'd' }
    else if d == 14 { 'e' }
    else { 'f' }
}

/// The `width` lowest hexadecimal digits of `n`, most significant first.
pub open spec fn hex_digits(n: nat, width: nat) -> Seq<char>
    decreases width,
{
    if width == 0 {
        Seq::empty()
    } else {
        hex_digits(n / 16, (width - 1) as nat).push(hex_char(n % 16))
    }
}

/// Hyphenated lowercase form of a 128-bit identifier (8-4-4-4-12 digits).
pub open spec fn uuid_text(id: u128) -> Seq<char> {
    let h = hex_digits(id as nat, 32);
    h.subrange(0, 8) + seq!['-'] + h.subrange(8, 12) + seq!['-'] + h.subrange(12, 16)
        + seq!['-'] + h.subrange(16, 20) + seq!['-'] + h.subrange(20, 32)
}

/// Upper-case form of `s` as `str::to_uppercase` gives it.
pub uninterp spec fn upper_of(s: Seq<char>) -> Seq<char>;

/// Relies on `str::to_uppercase`: the upper-case mapping of each character,
/// a function of the characters alone.
#[verifier::external_body]
pub(crate) fn uppercase(s: &str) -> (r: String)
    ensures
        r@ == upper_of(s@),
{
    s.to_uppercase()
}

/// Whether `a` and `b` hold the same characters.
pub fn same_text(a: &str, b: &str) -> (r: bool)
    ensures
        r == (a@ == b@),
{
    let x = String::from_str(a);
    let y = String::from_str(b);
    x == y
}

/// Whether `s` begins with `p`.
pub fn starts_with(s: &str, p: &str) -> (r: bool)
    ensures
        r == is_prefix(p@, s@),
{
    let n = s.unicode_len();
    let m = p.unicode_len();
    if m > n {
        return false;
    }
    let mut i: usize = 0;
    while i < m
        invariant
            n == s@.len(),
            m == p@.len(),
            m <= n,
            i <= m,
            forall|j: int| 0 <= j < i ==> s@[j] == p@[j],
        decreases m - i,
    {
        if s.get_char(i) != p.get_char(i) {
            assert(s@.subrange(0, m as int)[i as int] != p@[i as int]);
            return false;
        }
        i = i + 1;
    }
    assert(s@.subrange(0, m as int) =~= p@);
    true
}

/// Whether `c` occurs in `s`.
pub fn contains_char(s: &str, c: char) -> (r: bool)
    ensures
        r == has_char(s@, c),
{
    let n = s.unicode_len();
    let mut i: usize = 0;
    while i < n
        invariant
            n == s@.len(),
            i <= n,
            forall|j: int| 0 <= j < i ==> s@[j] != c,
        decreases n - i,
    {
        if s.get_char(i) == c {
            return true;
        }
        i = i + 1;
    }
    false
}

proof fn lemma_find_char(s: Seq<char>, c: char, i: int)
    requires
        0 <= i <= s.len(),
        forall|j: int| 0 <= j < i ==> s[j] != c,
        i == s.len() || s[i] == c,
    ensures
        find_char(s, c) == i,
    decreases s.len(),
{
    if s.len() > 0 && i > 0 {
        assert forall|j: int| 0 <= j < i - 1 implies s.drop_first()[j] != c by {
            assert(s[j + 1] != c);
        }
        lemma_find_char(s.drop_first(), c, i - 1);
    }
}

/// The part of `s` before the first `c`.
pub fn prefix_before<'a>(s: &'a str, c: char) -> (r: &'a str)
    ensures
        r@ == before_char(s@, c),
{
    let n = s.unicode_len();
    let mut i: usize = 0;
    while i < n && s.get_char(i) != c
        invariant
            n == s@.len(),
            i <= n,
            forall|j: int| 0 <= j < i ==> s@[j] != c,
        decreases n - i,
    {
        i = i + 1;
    }
    proof {
        lemma_find_char(s@, c, i as int);
    }
    s.substring_char(0, i)
}

proof fn lemma_lead_white(s: Seq<char>, i: int)
    requires
        0 <= i <= s.len(),
        forall|j: int| 0 <= j < i ==> is_white(s[j]),
        i == s.len() || !is_white(s[i]),
    ensures
        lead_white(s) == i,
    decreases s.len(),
{
    if s.len() > 0 && i > 0 {
        assert forall|j: int| 0 <= j < i - 1 implies is_white(s.drop_first()[j]) by {
            assert(is_white(s[j + 1]));
        }
        lemma_lead_white(s.drop_first(), i - 1);
    }
}

proof fn lemma_trail_white(s: Seq<char>, k: int)
    requires
        0 <= k <= s.len(),
        forall|j: int| k <= j < s.len() ==> is_white(s[j]),
        k == 0 || !is_white(s[k - 1]),
    ensures
        trail_white(s) == s.len() - k,
    decreases s.len(),
{
    if s.len() > 0 && k < s.len() {
        assert forall|j: int| k <= j < s.drop_last().len() implies is_white(s.drop_last()[j]) by {
            assert(is_white(s[j]));
        }
        lemma_trail_white(s.drop_last(), k);
    }
}

/// Whether `c` is white space in the sense of `is_white`.
pub fn white(c: char) -> (r: bool)
    ensures
        r == is_white(c),
{
    ('\u{9}' <= c && c <= '\u{d}') || c == ' ' || c == '\u{85}' || c == '\u{a0}'
        || c == '\u{1680}' || ('\u{2000}' <= c && c <= '\u{200a}') || c == '\u{2028}'
        || c == '\u{2029}' || c == '\u{202f}' || c == '\u{205f}' || c == '\u{3000}'
}

/// `s` without white space at either end.
pub fn trim<'a>(s: &'a str) -> (r: &'a str)
    ensures
        r@ == trimmed(s@),
{
    let n = s.unicode_len();
    let mut i: usize = 0;
    while i < n && white(s.get_char(i))
        invariant
            n == s@.len(),
            i <= n,
            forall|j: int| 0 <= j < i ==> is_white(s@[j]),
        decreases n - i,
    {
        i = i + 1;
    }
    proof {
        lemma_lead_white(s@, i as int);
    }
    let t = s.substring_char(i, n);
    let m = t.unicode_len();
    let mut k: usize = m;
    while k > 0 && white(t.get_char(k - 1))
        invariant
            m == t@.len(),
            k <= m,
            forall|j: int| k <= j < m ==> is_white(t@[j]),
        decreases k,
    {
        k = k - 1;
    }
    proof {
        lemma_trail_white(t@, k as int);
    }
    t.substring_char(0, k)
}

/// `s` without every trailing `c`.
pub open spec fn strip_trailing(s: Seq<char>, c: char) -> Seq<char>
    decreases s.len(),
{
    if s.len() > 0 && s.last() == c {
        strip_trailing(s.drop_last(), c)
    } else {
        s
    }
}

proof fn lemma_strip_trailing(s: Seq<char>, c: char, k: int)
    requires
        0 <= k <= s.len(),
        forall|j: int| k <= j < s.len() ==> s[j] == c,
        k == 0 || s[k - 1] != c,
    ensures
        strip_trailing(s, c) == s.subrange(0, k),
    decreases s.len(),
{
    if s.len() > 0 && k < s.len() {
        assert forall|j: int| k <= j < s.drop_last().len() implies s.drop_last()[j] == c by {
            assert(s[j] == c);
        }
        lemma_strip_trailing(s.drop_last(), c, k);
        assert(s.drop_last().subrange(0, k) =~= s.subrange(0, k));
    } else {
        assert(s.subrange(0, k) =~= s);
    }
}

/// `s` without every trailing `c`, as `str::trim_end_matches` with a character.
pub fn trim_end_char<'a>(s: &'a str, c: char) -> (r: &'a str)
    ensures
        r@ == strip_trailing(s@, c),
{
    let n = s.unicode_len();
    let mut k: usize = n;
    while k > 0 && s.get_char(k - 1) == c
        invariant
            n == s@.len(),
            k <= n,
            forall|j: int| k <= j < n ==> s@[j] == c,
        decreases k,
    {
        k = k - 1;
    }
    proof {
        lemma_strip_trailing(s@, c, k as int);
    }
    s.substring_char(0, k)
}

fn digit_str(d: u64) -> (r: &'static str)
    requires
        d < 10,
    ensures
        r@ == seq![digit_char(d as nat)],
{
    proof {
        reveal_strlit("0");
        reveal_strlit("1");
        reveal_strlit("2");
        reveal_strlit("3");
        reveal_strlit("4");
        reveal_strlit("5");
        reveal_strlit("6");
        reveal_strlit("7");
        reveal_strlit("8");
        reveal_strlit("9");
    }
    let r = if d == 0 { "0" }
    else if d == 1 { "1" }
    else if d == 2 { "2" }
    else if d == 3 { "3" }
    else if d == 4 { "4" }
    else if d == 5 { "5" }
    else if d == 6 { "6" }
    else if d == 7 { "7" }
    else if d == 8 { "8" }
    else { "9" };
    assert(r@ =~= seq![digit_char(d as nat)]);
    r
}

/// Decimal text of `n`.
pub fn u64_text(n: u64) -> (r: String)
    ensures
        r@ == dec_text(n as nat),
    decreases n,
{
    if n < 10 {
        String::from_str(digit_str(n))
    } else {
        let mut s = u64_text(n / 10);
        s.append(digit_str(n % 10));
        assert(s@ =~= dec_text(n as nat));
        s
    }
}

/// Decimal text of a signed value.
pub fn i64_text(n: i64) -> (r: String)
    ensures
        r@ == int_text(n as int),
{
    if n < 0 {
        proof {
            reveal_strlit("-");
        }
        let m: u64 = (0i128 - n as i128) as u64;
        let mut s = String::from_str("-");
        let digits = u64_text(m);
        s.append(digits.as_str());
        assert(s@ =~= seq!['-'] + dec_text((-n) as nat));
        s
    } else {
        u64_text(n as u64)
    }
}

} // verus!
