//! Stanza segmentation: a paste splits into stanzas on runs of two or more
//! newlines; each stanza is trimmed and empty stanzas are dropped. A stanza
//! splits into lines on single newlines.

use vstd::prelude::*;

use crate::text::{
    in_class, Class, scan_end, scan, trim_seq, trim_str, views, lemma_scan_end_bounds,
};

verus! {

/// The first position at or after `p` where two consecutive newlines start,
/// or the end of the text.
pub open spec fn find_break(s: Seq<char>, p: int) -> int
    recommends
        0 <= p,
    decreases s.len() - p,
{
    if p + 1 >= s.len() {
        s.len() as int
    } else if s[p] == '\n' && s[p + 1] == '\n' {
        p
    } else {
        find_break(s, p + 1)
    }
}

pub proof fn lemma_find_break_bounds(s: Seq<char>, p: int)
    requires
        0 <= p <= s.len(),
    ensures
        p <= find_break(s, p) <= s.len(),
        find_break(s, p) < s.len() ==> find_break(s, p) + 1 < s.len() && s[find_break(s, p)]
            == '\n' && s[find_break(s, p) + 1] == '\n',
    decreases s.len() - p,
{
    if p + 1 < s.len() && !(s[p] == '\n' && s[p + 1] == '\n') {
        lemma_find_break_bounds(s, p + 1);
    }
}

/// The trimmed, non-empty stanzas of the text from position `p` on.
pub open spec fn stanzas_from(s: Seq<char>, p: int) -> Seq<Seq<char>>
    recommends
        0 <= p <= s.len(),
    decreases s.len() - p
        when 0 <= p <= s.len()
        via stanzas_from_decreases
{
    let b = find_break(s, p);
    let blk = trim_seq(s.subrange(p, b));
    let head: Seq<Seq<char>> = if blk.len() > 0 {
        seq![blk]
    } else {
        Seq::empty()
    };
    if b >= s.len() {
        head
    } else {
        head + stanzas_from(s, scan_end(Class::Newline, s, b))
    }
}

#[via_fn]
proof fn stanzas_from_decreases(s: Seq<char>, p: int) {
    lemma_find_break_bounds(s, p);
    let b = find_break(s, p);
    if b < s.len() {
        lemma_scan_end_bounds(Class::Newline, s, b);
        assert(scan_end(Class::Newline, s, b) == scan_end(Class::Newline, s, b + 1));
        assert(scan_end(Class::Newline, s, b + 1) == scan_end(Class::Newline, s, b + 2));
        lemma_scan_end_bounds(Class::Newline, s, b + 2);
    }
}

/// The trimmed, non-empty stanzas of a paste, in source order.
pub open spec fn stanzas(s: Seq<char>) -> Seq<Seq<char>> {
    stanzas_from(s, 0)
}

fn find_break_exec(s: &str, p: usize) -> (r: usize)
    requires
        p <= s@.len(),
    ensures
        r == find_break(s@, p as int),
        p <= r <= s@.len(),
{
    let n = s.unicode_len();
    let mut i = p;
    loop
        invariant_except_break
            n == s@.len(),
            p <= i <= n,
            find_break(s@, p as int) == find_break(s@, i as int),
        ensures
            i == find_break(s@, p as int),
            p <= i <= n,
        decreases n - i,
    {
        if n - i <= 1 {
            proof {
                lemma_find_break_bounds(s@, i as int);
            }
            i = n;
            break ;
        }
        if s.get_char(i) == '\n' && s.get_char(i + 1) == '\n' {
            break ;
        }
        i += 1;
    }
    i
}

/// Splits a paste into its trimmed, non-empty stanzas.
pub fn split_stanzas(text: &str) -> (r: Vec<String>)
    ensures
        views(r@) == stanzas(text@),
{
    let n = text.unicode_len();
    let mut out: Vec<String> = Vec::new();
    let mut p: usize = 0;
    loop
        invariant_except_break
            n == text@.len(),
            p <= n,
            stanzas(text@) == views(out@) + stanzas_from(text@, p as int),
        ensures
            views(out@) == stanzas(text@),
        decreases n - p,
    {
        let b = find_break_exec(text, p);
        let blk = text.substring_char(p, b);
        let t = trim_str(blk);
        let ghost old_out = out@;
        let ghost head: Seq<Seq<char>> = if t@.len() > 0 {
            seq![t@]
        } else {
            Seq::empty()
        };
        if t.unicode_len() > 0 {
            out.push(t.to_owned());
        }
        proof {
            assert(views(out@) =~= views(old_out) + head);
        }
        if b >= n {
            proof {
                assert(stanzas_from(text@, p as int) == head);
                assert(stanzas(text@) =~= views(out@));
            }
            break ;
        }
        let p2 = scan(Class::Newline, text, b);
        proof {
            lemma_find_break_bounds(text@, p as int);
            assert(scan_end(Class::Newline, text@, b as int) == scan_end(
                Class::Newline,
                text@,
                b + 1,
            ));
            assert(scan_end(Class::Newline, text@, b + 1) == scan_end(
                Class::Newline,
                text@,
                b + 2,
            ));
            lemma_scan_end_bounds(Class::Newline, text@, b + 2);
            assert(stanzas_from(text@, p as int) == head + stanzas_from(text@, p2 as int));
            assert(stanzas(text@) =~= views(out@) + stanzas_from(text@, p2 as int));
        }
        p = p2;
    }
    out
}

/// The lines of a stanza from position `p` on, split on single newlines.
pub open spec fn lines_from(s: Seq<char>, p: int) -> Seq<Seq<char>>
    recommends
        0 <= p <= s.len(),
    decreases s.len() - p
        when 0 <= p <= s.len()
        via lines_from_decreases
{
    let e = scan_end(Class::NonNewline, s, p);
    let head = seq![s.subrange(p, e)];
    if e >= s.len() {
        head
    } else {
        head + lines_from(s, e + 1)
    }
}

#[via_fn]
proof fn lines_from_decreases(s: Seq<char>, p: int) {
    lemma_scan_end_bounds(Class::NonNewline, s, p);
}

/// The lines of a stanza, in order.
pub open spec fn lines(s: Seq<char>) -> Seq<Seq<char>> {
    lines_from(s, 0)
}

/// Splits a stanza into its lines.
pub fn split_lines(text: &str) -> (r: Vec<String>)
    ensures
        views(r@) == lines(text@),
        r@.len() >= 1,
{
    let n = text.unicode_len();
    let mut out: Vec<String> = Vec::new();
    let mut p: usize = 0;
    loop
        invariant_except_break
            n == text@.len(),
            p <= n,
            lines(text@) == views(out@) + lines_from(text@, p as int),
        ensures
            views(out@) == lines(text@),
            out@.len() >= 1,
        decreases n - p,
    {
        let e = scan(Class::NonNewline, text, p);
        let ln = text.substring_char(p, e);
        let ghost old_out = out@;
        out.push(ln.to_owned());
        proof {
            assert(views(out@) =~= views(old_out) + seq![ln@]);
        }
        if e >= n {
            proof {
                assert(lines_from(text@, p as int) == seq![ln@]);
                assert(lines(text@) =~= views(out@));
            }
            break ;
        }
        proof {
            assert(lines_from(text@, p as int) == seq![ln@] + lines_from(text@, e + 1));
            assert(lines(text@) =~= views(out@) + lines_from(text@, e + 1));
        }
        p = e + 1;
    }
    out
}

} // verus!
