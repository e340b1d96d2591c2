//! Token grammars for header and body lines: species tokens, held-item
//! tokens, move names and bracketed type names. Each grammar is stated as a
//! character-at-a-time state machine in spec land and checked by a verified
//! scan.

use vstd::prelude::*;

use crate::text::{is_upper, is_letter, in_class, Class, class_test};

verus! {

/// States of the species-token grammar. The first word must open with an
/// uppercase letter and carry at least one tail character; later words open
/// with any letter and may be bare; every word may close with a period;
/// words are separated by a single hyphen or space.
#[derive(Clone, Copy, PartialEq, Eq, Structural)]
pub enum SpSt {
    Start,
    NeedTail,
    InWord,
    AfterDot,
    AfterSep,
}

pub open spec fn sp_acc(st: SpSt) -> bool {
    st == SpSt::InWord || st == SpSt::AfterDot
}

pub open spec fn sp_step(st: SpSt, c: char) -> Option<SpSt> {
    match st {
        SpSt::Start => if is_upper(c) {
            Some(SpSt::NeedTail)
        } else {
            None
        },
        SpSt::NeedTail => if in_class(Class::HeadTail, c) {
            Some(SpSt::InWord)
        } else {
            None
        },
        SpSt::InWord => if in_class(Class::HeadTail, c) {
            Some(SpSt::InWord)
        } else if c == '.' {
            Some(SpSt::AfterDot)
        } else if c == '-' || c == ' ' {
            Some(SpSt::AfterSep)
        } else {
            None
        },
        SpSt::AfterDot => if c == '-' || c == ' ' {
            Some(SpSt::AfterSep)
        } else {
            None
        },
        SpSt::AfterSep => if is_letter(c) {
            Some(SpSt::InWord)
        } else {
            None
        },
    }
}

pub open spec fn sp_run(s: Seq<char>, p: int, st: SpSt) -> bool
    recommends
        0 <= p <= s.len(),
    decreases s.len() - p,
{
    if p >= s.len() {
        sp_acc(st)
    } else {
        match sp_step(st, s[p]) {
            Some(st2) => sp_run(s, p + 1, st2),
            None => false,
        }
    }
}

/// The whole sequence is a well-formed species token.
pub open spec fn matches_species(s: Seq<char>) -> bool {
    sp_run(s, 0, SpSt::Start)
}

fn sp_step_exec(st: SpSt, c: char) -> (r: Option<SpSt>)
    ensures
        r == sp_step(st, c),
{
    match st {
        SpSt::Start => if upper_test(c) {
            Some(SpSt::NeedTail)
        } else {
            None
        },
        SpSt::NeedTail => if class_test(Class::HeadTail, c) {
            Some(SpSt::InWord)
        } else {
            None
        },
        SpSt::InWord => if class_test(Class::HeadTail, c) {
            Some(SpSt::InWord)
        } else if c == '.' {
            Some(SpSt::AfterDot)
        } else if c == '-' || c == ' ' {
            Some(SpSt::AfterSep)
        } else {
            None
        },
        SpSt::AfterDot => if c == '-' || c == ' ' {
            Some(SpSt::AfterSep)
        } else {
            None
        },
        SpSt::AfterSep => if letter_test(c) {
            Some(SpSt::InWord)
        } else {
            None
        },
    }
}

pub fn upper_test(c: char) -> (r: bool)
    ensures
        r == is_upper(c),
{
    let u = c as u32;
    65 <= u && u <= 90
}

pub fn letter_test(c: char) -> (r: bool)
    ensures
        r == is_letter(c),
{
    let u = c as u32;
    (65 <= u && u <= 90) || (97 <= u && u <= 122)
}

/// Checks a whole string against the species-token grammar.
pub fn check_species(t: &str) -> (r: bool)
    ensures
        r == matches_species(t@),
{
    let n = t.unicode_len();
    let mut st = SpSt::Start;
    let mut i: usize = 0;
    loop
        invariant_except_break
            n == t@.len(),
            i <= n,
            matches_species(t@) == sp_run(t@, i as int, st),
        ensures
            matches_species(t@) == sp_run(t@, i as int, st),
            i >= n || sp_step(st, t@[i as int]) is None,
        decreases n - i,
    {
        if i >= n {
            break ;
        }
        match sp_step_exec(st, t.get_char(i)) {
            Some(st2) => {
                st = st2;
                i += 1;
            },
            None => {
                break ;
            },
        }
    }
    if i >= n {
        sp_acc_exec(st)
    } else {
        false
    }
}

fn sp_acc_exec(st: SpSt) -> (r: bool)
    ensures
        r == sp_acc(st),
{
    match st {
        SpSt::InWord => true,
        SpSt::AfterDot => true,
        _ => false,
    }
}

/// States of the held-item grammar: words of an uppercase letter followed by
/// tail characters, separated by a single hyphen or space.
#[derive(Clone, Copy, PartialEq, Eq, Structural)]
pub enum ItSt {
    Start,
    InWord,
    AfterSep,
}

pub open spec fn it_step(st: ItSt, c: char) -> Option<ItSt> {
    match st {
        ItSt::Start => if is_upper(c) {
            Some(ItSt::InWord)
        } else {
            None
        },
        ItSt::InWord => if in_class(Class::HeadTail, c) {
            Some(ItSt::InWord)
        } else if c == '-' || c == ' ' {
            Some(ItSt::AfterSep)
        } else {
            None
        },
        ItSt::AfterSep => if is_upper(c) {
            Some(ItSt::InWord)
        } else {
            None
        },
    }
}

pub open spec fn it_run(s: Seq<char>, p: int, st: ItSt) -> bool
    recommends
        0 <= p <= s.len(),
    decreases s.len() - p,
{
    if p >= s.len() {
        st == ItSt::InWord
    } else {
        match it_step(st, s[p]) {
            Some(st2) => it_run(s, p + 1, st2),
            None => false,
        }
    }
}

/// The whole sequence is a well-formed held-item token.
pub open spec fn matches_item(s: Seq<char>) -> bool {
    it_run(s, 0, ItSt::Start)
}

fn it_step_exec(st: ItSt, c: char) -> (r: Option<ItSt>)
    ensures
        r == it_step(st, c),
{
    match st {
        ItSt::Start => if upper_test(c) {
            Some(ItSt::InWord)
        } else {
            None
        },
        ItSt::InWord => if class_test(Class::HeadTail, c) {
            Some(ItSt::InWord)
        } else if c == '-' || c == ' ' {
            Some(ItSt::AfterSep)
        } else {
            None
        },
        ItSt::AfterSep => if upper_test(c) {
            Some(ItSt::InWord)
        } else {
            None
        },
    }
}

/// Checks a whole string against the held-item grammar.
pub fn check_item(t: &str) -> (r: bool)
    ensures
        r == matches_item(t@),
{
    let n = t.unicode_len();
    let mut st = ItSt::Start;
    let mut i: usize = 0;
    loop
        invariant_except_break
            n == t@.len(),
            i <= n,
            matches_item(t@) == it_run(t@, i as int, st),
        ensures
            matches_item(t@) == it_run(t@, i as int, st),
            i >= n || it_step(st, t@[i as int]) is None,
        decreases n - i,
    {
        if i >= n {
            break ;
        }
        match it_step_exec(st, t.get_char(i)) {
            Some(st2) => {
                st = st2;
                i += 1;
            },
            None => {
                break ;
            },
        }
    }
    if i >= n {
        matches!(st, ItSt::InWord)
    } else {
        false
    }
}

/// States of the move-name scan: a first word opening with an uppercase
/// letter, later words opening with any letter, words of lowercase letters
/// and apostrophes, separated by a single hyphen or space. The scan stops at
/// the first character that cannot extend the name.
#[derive(Clone, Copy, PartialEq, Eq, Structural)]
pub enum MnSt {
    Start,
    InWord,
    AfterSep,
}

/// The end position of a move name read from position `p`, or `None` when no
/// name starts there. A separator that is not followed by a letter is not
/// part of the name.
pub open spec fn mname_run(s: Seq<char>, p: int, st: MnSt) -> Option<int>
    recommends
        0 <= p <= s.len(),
    decreases s.len() - p,
{
    if p >= s.len() {
        match st {
            MnSt::Start => None,
            MnSt::InWord => Some(p),
            MnSt::AfterSep => Some(p - 1),
        }
    } else {
        match st {
            MnSt::Start => if is_upper(s[p]) {
                mname_run(s, p + 1, MnSt::InWord)
            } else {
                None
            },
            MnSt::InWord => if in_class(Class::MoveTail, s[p]) {
                mname_run(s, p + 1, MnSt::InWord)
            } else if s[p] == '-' || s[p] == ' ' {
                mname_run(s, p + 1, MnSt::AfterSep)
            } else {
                Some(p)
            },
            MnSt::AfterSep => if is_letter(s[p]) {
                mname_run(s, p + 1, MnSt::InWord)
            } else {
                Some(p - 1)
            },
        }
    }
}

pub open spec fn mname_end(s: Seq<char>, p: int) -> Option<int> {
    mname_run(s, p, MnSt::Start)
}

proof fn lemma_mname_run_bounds(s: Seq<char>, p: int, st: MnSt)
    requires
        0 <= p <= s.len(),
    ensures
        match mname_run(s, p, st) {
            Some(e) => (match st {
                MnSt::Start => p + 1,
                MnSt::InWord => p,
                MnSt::AfterSep => p - 1,
            }) <= e <= s.len(),
            None => true,
        },
    decreases s.len() - p,
{
    if p < s.len() {
        match st {
            MnSt::Start => {
                if is_upper(s[p]) {
                    lemma_mname_run_bounds(s, p + 1, MnSt::InWord);
                }
            },
            MnSt::InWord => {
                if in_class(Class::MoveTail, s[p]) {
                    lemma_mname_run_bounds(s, p + 1, MnSt::InWord);
                } else if s[p] == '-' || s[p] == ' ' {
                    lemma_mname_run_bounds(s, p + 1, MnSt::AfterSep);
                }
            },
            MnSt::AfterSep => {
                if is_letter(s[p]) {
                    lemma_mname_run_bounds(s, p + 1, MnSt::InWord);
                }
            },
        }
    }
}

/// A move name read from position `p` ends after `p` and within the line.
pub proof fn lemma_mname_end_bounds(s: Seq<char>, p: int)
    requires
        0 <= p <= s.len(),
    ensures
        match mname_end(s, p) {
            Some(e) => p < e <= s.len(),
            None => true,
        },
{
    lemma_mname_run_bounds(s, p, MnSt::Start);
}

/// Scans a move name starting at `from`; returns its end position.
pub fn scan_mname(t: &str, from: usize) -> (r: Option<usize>)
    requires
        from <= t@.len(),
    ensures
        match r {
            Some(e) => Some(e as int) == mname_end(t@, from as int) && from <= e <= t@.len(),
            None => mname_end(t@, from as int) is None,
        },
{
    let n = t.unicode_len();
    let mut st = MnSt::Start;
    let mut i: usize = from;
    loop
        invariant_except_break
            n == t@.len(),
            from <= i <= n,
            st == MnSt::Start ==> i == from,
            st == MnSt::InWord ==> i >= from + 1,
            st == MnSt::AfterSep ==> i >= from + 2,
            mname_end(t@, from as int) == mname_run(t@, i as int, st),
        ensures
            from <= i <= n,
            st == MnSt::Start ==> i == from,
            st == MnSt::InWord ==> i >= from + 1,
            st == MnSt::AfterSep ==> i >= from + 2,
            mname_end(t@, from as int) == mname_run(t@, i as int, st),
            i >= n || (match st {
                MnSt::Start => !is_upper(t@[i as int]),
                MnSt::InWord => !in_class(Class::MoveTail, t@[i as int]) && t@[i as int] != '-'
                    && t@[i as int] != ' ',
                MnSt::AfterSep => !is_letter(t@[i as int]),
            }),
        decreases n - i,
    {
        if i >= n {
            break ;
        }
        let c = t.get_char(i);
        match st {
            MnSt::Start => {
                if upper_test(c) {
                    st = MnSt::InWord;
                    i += 1;
                } else {
                    break ;
                }
            },
            MnSt::InWord => {
                if class_test(Class::MoveTail, c) {
                    i += 1;
                } else if c == '-' || c == ' ' {
                    st = MnSt::AfterSep;
                    i += 1;
                } else {
                    break ;
                }
            },
            MnSt::AfterSep => {
                if letter_test(c) {
                    st = MnSt::InWord;
                    i += 1;
                } else {
                    break ;
                }
            },
        }
    }
    match st {
        MnSt::Start => None,
        MnSt::InWord => Some(i),
        MnSt::AfterSep => Some(i - 1),
    }
}

} // verus!
