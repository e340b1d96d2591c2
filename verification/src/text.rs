//! Character-level text utilities shared by the tokenizer and the resolvers:
//! character classes, class scans, string equality and containment, search-key
//! normalization, and decimal rendering/parsing.

use vstd::prelude::*;

verus! {

/// Relies on `String::push`: appends the character to the end of the string.
pub assume_specification[ String::push ](s: &mut String, c: char)
    ensures
        final(s)@ == old(s)@.push(c),
;

/// The views of a sequence of owned strings.
pub open spec fn views(v: Seq<String>) -> Seq<Seq<char>> {
    v.map_values(|x: String| x@)
}

pub open spec fn is_upper(c: char) -> bool {
    'A' <= c && c <= 'Z'
}

pub open spec fn is_low(c: char) -> bool {
    'a' <= c && c <= 'z'
}

pub open spec fn is_letter(c: char) -> bool {
    is_upper(c) || is_low(c)
}

pub open spec fn is_digit(c: char) -> bool {
    '0' <= c && c <= '9'
}

pub open spec fn is_ws(c: char) -> bool {
    c == ' ' || c == '\t' || c == '\r' || c == '\n'
}

/// A character class the scanners can advance over.
#[derive(Clone, Copy, PartialEq, Eq, Structural)]
pub enum Class {
    /// Tail characters of a header word: `a`-`z`, `0`-`9`, `:`, `'`.
    HeadTail,
    /// Tail characters of a move word: `a`-`z`, `'`.
    MoveTail,
    /// Decimal digits.
    Digit,
    /// Lowercase letters.
    LowAlpha,
    /// Whitespace: space, tab, carriage return, newline.
    Ws,
    /// A single space.
    Space,
    /// A newline.
    Newline,
    /// Any character but a newline.
    NonNewline,
    /// Any character but a hyphen.
    NonHyphen,
}

pub open spec fn in_class(cl: Class, c: char) -> bool {
    match cl {
        Class::HeadTail => is_low(c) || is_digit(c) || c == ':' || c == '\'',
        Class::MoveTail => is_low(c) || c == '\'',
        Class::Digit => is_digit(c),
        Class::LowAlpha => is_low(c),
        Class::Ws => is_ws(c),
        Class::Space => c == ' ',
        Class::Newline => c == '\n',
        Class::NonNewline => c != '\n',
        Class::NonHyphen => c != '-',
    }
}

/// First position at or after `p` whose character is outside the class
/// (or the end of the sequence).
pub open spec fn scan_end(cl: Class, s: Seq<char>, p: int) -> int
    recommends
        0 <= p <= s.len(),
    decreases s.len() - p,
{
    if p < s.len() && in_class(cl, s[p]) {
        scan_end(cl, s, p + 1)
    } else {
        p
    }
}

pub proof fn lemma_scan_end_bounds(cl: Class, s: Seq<char>, p: int)
    requires
        0 <= p <= s.len(),
    ensures
        p <= scan_end(cl, s, p) <= s.len(),
        forall|j: int| p <= j < scan_end(cl, s, p) ==> in_class(cl, s[j]),
        scan_end(cl, s, p) < s.len() ==> !in_class(cl, s[scan_end(cl, s, p)]),
    decreases s.len() - p,
{
    if p < s.len() && in_class(cl, s[p]) {
        lemma_scan_end_bounds(cl, s, p + 1);
    }
}

pub fn class_test(cl: Class, c: char) -> (r: bool)
    ensures
        r == in_class(cl, c),
{
    let u = c as u32;
    match cl {
        Class::HeadTail => (97 <= u && u <= 122) || (48 <= u && u <= 57) || u == 58 || u == 39,
        Class::MoveTail => (97 <= u && u <= 122) || u == 39,
        Class::Digit => 48 <= u && u <= 57,
        Class::LowAlpha => 97 <= u && u <= 122,
        Class::Ws => u == 32 || u == 9 || u == 13 || u == 10,
        Class::Space => u == 32,
        Class::Newline => u == 10,
        Class::NonNewline => u != 10,
        Class::NonHyphen => u != 45,
    }
}

/// Advances from `from` over characters of the class and returns the first
/// position outside it.
pub fn scan(cl: Class, s: &str, from: usize) -> (r: usize)
    requires
        from <= s@.len(),
    ensures
        r == scan_end(cl, s@, from as int),
        from <= r <= s@.len(),
{
    let n = s.unicode_len();
    let mut i = from;
    loop
        invariant_except_break
            n == s@.len(),
            from <= i <= n,
            scan_end(cl, s@, from as int) == scan_end(cl, s@, i as int),
        ensures
            i == scan_end(cl, s@, from as int),
            from <= i <= n,
        decreases n - i,
    {
        if i >= n {
            break ;
        }
        let c = s.get_char(i);
        if !class_test(cl, c) {
            break ;
        }
        i += 1;
    }
    proof {
        lemma_scan_end_bounds(cl, s@, from as int);
    }
    i
}

/// First position at or before `p` such that every character between it and
/// `p` is in the class (scanning leftwards from `p`).
pub open spec fn rscan_end(cl: Class, s: Seq<char>, p: int) -> int
    recommends
        0 <= p <= s.len(),
    decreases p,
{
    if p > 0 && in_class(cl, s[p - 1]) {
        rscan_end(cl, s, p - 1)
    } else {
        p
    }
}

pub proof fn lemma_rscan_end_bounds(cl: Class, s: Seq<char>, p: int)
    requires
        0 <= p <= s.len(),
    ensures
        0 <= rscan_end(cl, s, p) <= p,
    decreases p,
{
    if p > 0 && in_class(cl, s[p - 1]) {
        lemma_rscan_end_bounds(cl, s, p - 1);
    }
}

/// Scans leftwards from `from` over characters of the class and returns the
/// first position such that everything between it and `from` is in the class.
pub fn rscan(cl: Class, s: &str, from: usize) -> (r: usize)
    requires
        from <= s@.len(),
    ensures
        r == rscan_end(cl, s@, from as int),
        r <= from,
{
    let mut i = from;
    loop
        invariant_except_break
            from <= s@.len(),
            i <= from,
            rscan_end(cl, s@, from as int) == rscan_end(cl, s@, i as int),
        ensures
            i == rscan_end(cl, s@, from as int),
            i <= from,
        decreases i,
    {
        if i == 0 {
            break ;
        }
        let c = s.get_char(i - 1);
        if !class_test(cl, c) {
            break ;
        }
        i -= 1;
    }
    i
}

/// The text with leading and trailing whitespace removed.
pub open spec fn trim_seq(s: Seq<char>) -> Seq<char> {
    let te = rscan_end(Class::Ws, s, s.len() as int);
    let t1 = s.subrange(0, te);
    t1.subrange(scan_end(Class::Ws, t1, 0), t1.len() as int)
}

/// Trims leading and trailing whitespace.
pub fn trim_str<'a>(s: &'a str) -> (r: &'a str)
    ensures
        r@ == trim_seq(s@),
{
    let n = s.unicode_len();
    let te = rscan(Class::Ws, s, n);
    let t1 = s.substring_char(0, te);
    let ts = scan(Class::Ws, t1, 0);
    t1.substring_char(ts, te)
}

pub fn str_eq(a: &str, b: &str) -> (r: bool)
    ensures
        r == (a@ == b@),
{
    let n = a.unicode_len();
    if n != b.unicode_len() {
        return false;
    }
    let mut i: usize = 0;
    while i < n
        invariant
            n == a@.len() == b@.len(),
            i <= n,
            forall|j: int| 0 <= j < i ==> a@[j] == b@[j],
        decreases n - i,
    {
        if a.get_char(i) != b.get_char(i) {
            return false;
        }
        i += 1;
    }
    proof {
        assert(a@ =~= b@);
    }
    true
}

/// The pattern occurs in `s` starting at position `i`.
pub open spec fn occurs_at(s: Seq<char>, pat: Seq<char>, i: int) -> bool {
    0 <= i && i + pat.len() <= s.len() && s.subrange(i, i + pat.len()) == pat
}

/// The pattern occurs somewhere in `s`.
pub open spec fn contains_seq(s: Seq<char>, pat: Seq<char>) -> bool {
    exists|i: int| occurs_at(s, pat, i)
}

fn match_at(s: &str, pat: &str, i: usize) -> (r: bool)
    requires
        i + pat@.len() <= s@.len(),
    ensures
        r == occurs_at(s@, pat@, i as int),
{
    let n = s.unicode_len();
    let m = pat.unicode_len();
    let mut j: usize = 0;
    while j < m
        invariant
            n == s@.len(),
            m == pat@.len(),
            i + m <= n,
            j <= m,
            forall|k: int| 0 <= k < j ==> s@[i + k] == pat@[k],
        decreases m - j,
    {
        if s.get_char(i + j) != pat.get_char(j) {
            proof {
                assert(s@.subrange(i as int, i + pat@.len())[j as int] == s@[i + j]);
            }
            return false;
        }
        j += 1;
    }
    proof {
        assert(s@.subrange(i as int, i + pat@.len()) =~= pat@);
    }
    true
}

pub fn contains_str(s: &str, pat: &str) -> (r: bool)
    ensures
        r == contains_seq(s@, pat@),
{
    let n = s.unicode_len();
    let m = pat.unicode_len();
    if m > n {
        proof {
            assert(forall|i: int| !occurs_at(s@, pat@, i));
        }
        return false;
    }
    if m == 0 {
        proof {
            assert(s@.subrange(0, 0) =~= pat@);
            assert(occurs_at(s@, pat@, 0));
        }
        return true;
    }
    let mut i: usize = 0;
    while i <= n - m
        invariant
            n == s@.len(),
            m == pat@.len(),
            1 <= m <= n,
            i <= n - m + 1,
            forall|k: int| 0 <= k < i ==> !occurs_at(s@, pat@, k),
        decreases n - i,
    {
        if match_at(s, pat, i) {
            return true;
        }
        i += 1;
    }
    proof {
        assert(forall|k: int| occurs_at(s@, pat@, k) ==> 0 <= k <= n - m);
    }
    false
}

/// Lowercases an ASCII uppercase letter and leaves every other character as
/// it is.
pub open spec fn lower_char(c: char) -> char {
    if is_upper(c) {
        ((c as u32) + 32) as char
    } else {
        c
    }
}

/// One character of search-key normalization: spaces become hyphens and
/// uppercase ASCII letters become lowercase.
pub open spec fn norm_char(c: char) -> char {
    if c == ' ' {
        '-'
    } else {
        lower_char(c)
    }
}

/// The search key derived from a display token: lowercased, with spaces
/// replaced by hyphens.
pub open spec fn norm_key_seq(s: Seq<char>) -> Seq<char> {
    s.map_values(|c: char| norm_char(c))
}

fn norm_char_exec(c: char) -> (r: char)
    ensures
        r == norm_char(c),
{
    let u = c as u32;
    if u == 32 {
        '-'
    } else if 65 <= u && u <= 90 {
        ((u + 32) as u8) as char
    } else {
        c
    }
}

/// Derives the search key for a display token: lowercase, spaces to hyphens.
pub fn norm_key(s: &str) -> (r: String)
    ensures
        r@ == norm_key_seq(s@),
{
    let n = s.unicode_len();
    let mut r = String::new();
    let mut i: usize = 0;
    while i < n
        invariant
            n == s@.len(),
            i <= n,
            r@ == norm_key_seq(s@.subrange(0, i as int)),
        decreases n - i,
    {
        let c = s.get_char(i);
        r.push(norm_char_exec(c));
        i += 1;
        proof {
            assert(norm_key_seq(s@.subrange(0, i as int)) =~= norm_key_seq(
                s@.subrange(0, i - 1),
            ).push(norm_char(s@[i - 1])));
        }
    }
    proof {
        assert(s@.subrange(0, n as int) =~= s@);
    }
    r
}

pub open spec fn dec_digit(d: nat) -> char
    recommends
        d < 10,
{
    if d == 0 {
        '0'
    } else if d == 1 {
        '1'
    } else if d == 2 {
        '2'
    } else if d == 3 {
        '3'
    } else if d == 4 {
        '4'
    } else if d == 5 {
        '5'
    } else if d == 6 {
        '6'
    } else if d == 7 {
        '7'
    } else if d == 8 {
        '8'
    } else {
        '9'
    }
}

/// The decimal digits of `n`, most significant first.
pub open spec fn dec_str(n: nat) -> Seq<char>
    decreases n,
{
    if n < 10 {
        seq![dec_digit(n)]
    } else {
        dec_str(n / 10).push(dec_digit(n % 10))
    }
}

fn dec_digit_exec(d: u64) -> (r: char)
    requires
        d < 10,
    ensures
        r == dec_digit(d as nat),
{
    match d {
        0 => '0',
        1 => '1',
        2 => '2',
        3 => '3',
        4 => '4',
        5 => '5',
        6 => '6',
        7 => '7',
        8 => '8',
        _ => '9',
    }
}

/// Renders `n` in decimal.
pub fn u64_dec(n: u64) -> (r: String)
    ensures
        r@ == dec_str(n as nat),
    decreases n,
{
    if n < 10 {
        let mut s = String::new();
        s.push(dec_digit_exec(n));
        proof {
            assert(s@ =~= dec_str(n as nat));
        }
        s
    } else {
        let mut s = u64_dec(n / 10);
        s.push(dec_digit_exec(n % 10));
        s
    }
}

/// The numeric value of a digit character.
pub open spec fn digit_val(c: char) -> nat
    recommends
        is_digit(c),
{
    (c as int - '0' as int) as nat
}

/// The numeric value of a sequence of decimal digits (empty means zero).
pub open spec fn digits_val(s: Seq<char>) -> nat
    decreases s.len(),
{
    if s.len() == 0 {
        0
    } else {
        digits_val(s.drop_last()) * 10 + digit_val(s.last())
    }
}

/// Parses the digits of `s` between `from` and `to` as a `u32`; values that
/// do not fit return `None`.
pub fn parse_u32(s: &str, from: usize, to: usize) -> (r: Option<u32>)
    requires
        from <= to <= s@.len(),
        forall|j: int| from <= j < to ==> is_digit(s@[j]),
    ensures
        match r {
            Some(v) => v == digits_val(s@.subrange(from as int, to as int)) && digits_val(
                s@.subrange(from as int, to as int),
            ) <= u32::MAX,
            None => digits_val(s@.subrange(from as int, to as int)) > u32::MAX,
        },
{
    let mut acc: u64 = 0;
    let mut i = from;
    while i < to
        invariant
            from <= i <= to <= s@.len(),
            forall|j: int| from <= j < to ==> is_digit(s@[j]),
            acc == digits_val(s@.subrange(from as int, i as int)),
            acc <= u32::MAX,
        decreases to - i,
    {
        let c = s.get_char(i);
        let d = (c as u32) - 48;
        acc = acc * 10 + (d as u64);
        i += 1;
        proof {
            assert(s@.subrange(from as int, i as int).drop_last() =~= s@.subrange(
                from as int,
                i - 1,
            ));
            assert(s@.subrange(from as int, i as int).last() == s@[i - 1]);
        }
        if acc > 0xffff_ffff {
            proof {
                lemma_digits_too_big(s@, from as int, i as int, to as int);
            }
            return None;
        }
    }
    proof {
        assert(s@.subrange(from as int, to as int) == s@.subrange(from as int, i as int));
    }
    Some(acc as u32)
}

/// Once a digit prefix exceeds `u32::MAX`, every extension of it does too.
proof fn lemma_digits_too_big(s: Seq<char>, from: int, mid: int, to: int)
    requires
        0 <= from <= mid <= to <= s.len(),
        digits_val(s.subrange(from, mid)) > u32::MAX,
    ensures
        digits_val(s.subrange(from, to)) > u32::MAX,
    decreases to - mid,
{
    if mid < to {
        assert(s.subrange(from, mid + 1).drop_last() =~= s.subrange(from, mid));
        lemma_digits_too_big(s, from, mid + 1, to);
    }
}

} // verus!
