//! Line-level tokenizing: the stanza header (nickname, species, gender, held
//! item) and the body lines (moves, allocation lines, unclassified text).
//!
//! Each rule is stated as a spec-level parse over the line's characters; the
//! executable parsers are proved to return exactly that parse. A first line
//! that fits no header form is "no structure": the caller keeps the whole
//! stanza as opaque text.

use vstd::prelude::*;

use crate::text::{
    Class, scan_end, scan, rscan_end, rscan, occurs_at, digits_val, is_upper, str_eq, parse_u32,
};
use crate::token::{
    matches_species, matches_item, mname_end, check_species, check_item, scan_mname,
};

verus! {

/// The gender letter captured from a header, `M` or `F`.
#[derive(Clone, Copy, PartialEq, Eq, Structural, Debug)]
pub enum Gender {
    Male,
    Female,
}

/// Spec-level image of a parsed header.
pub ghost struct HeaderV {
    pub nickname: Option<Seq<char>>,
    pub species: Seq<char>,
    pub gender: Option<Gender>,
    pub item: Option<Seq<char>>,
}

/// A parsed stanza header.
pub struct Header {
    pub nickname: Option<String>,
    pub species: String,
    pub gender: Option<Gender>,
    pub item: Option<String>,
}

impl View for Header {
    type V = HeaderV;

    open spec fn view(&self) -> HeaderV {
        HeaderV {
            nickname: match self.nickname {
                Some(n) => Some(n@),
                None => None,
            },
            species: self.species@,
            gender: self.gender,
            item: match self.item {
                Some(i) => Some(i@),
                None => None,
            },
        }
    }
}

/// The last position at or before `from` where the pattern occurs, if any.
pub open spec fn rfind_at(s: Seq<char>, pat: Seq<char>, from: int) -> Option<int>
    decreases from + 1,
{
    if from < 0 {
        None
    } else if occurs_at(s, pat, from) {
        Some(from)
    } else {
        rfind_at(s, pat, from - 1)
    }
}

fn match_at_exec(s: &str, pat: &str, i: usize) -> (r: bool)
    requires
        i + pat@.len() <= s@.len(),
    ensures
        r == occurs_at(s@, pat@, i as int),
{
    let n = s.unicode_len();
    let m = pat.unicode_len();
    let sub = s.substring_char(i, i + m);
    let r = str_eq(sub, pat);
    proof {
        assert(occurs_at(s@, pat@, i as int) == (sub@ == pat@));
    }
    r
}

/// Finds the last occurrence of the pattern in `s`.
fn rfind_str(s: &str, pat: &str) -> (r: Option<usize>)
    requires
        pat@.len() >= 1,
    ensures
        match r {
            Some(i) => Some(i as int) == rfind_at(s@, pat@, s@.len() - pat@.len()) && i + pat@.len()
                <= s@.len(),
            None => rfind_at(s@, pat@, s@.len() - pat@.len()) is None,
        },
{
    let n = s.unicode_len();
    let m = pat.unicode_len();
    if m > n {
        proof {
            lemma_rfind_none(s@, pat@, n as int - m as int);
        }
        return None;
    }
    let mut best: Option<usize> = None;
    let mut i: usize = 0;
    while i <= n - m
        invariant
            n == s@.len(),
            m == pat@.len(),
            1 <= m <= n,
            i <= n - m + 1,
            match best {
                Some(b) => Some(b as int) == rfind_at(s@, pat@, i - 1) && b + m <= n,
                None => rfind_at(s@, pat@, i - 1) is None,
            },
        decreases n - i,
    {
        if match_at_exec(s, pat, i) {
            best = Some(i);
        }
        i += 1;
    }
    proof {
        lemma_rfind_monotone(s@, pat@, i - 1, s@.len() - pat@.len());
    }
    best
}

proof fn lemma_rfind_none(s: Seq<char>, pat: Seq<char>, from: int)
    requires
        forall|i: int| i <= from ==> !occurs_at(s, pat, i),
    ensures
        rfind_at(s, pat, from) is None,
    decreases from + 1,
{
    if from >= 0 {
        lemma_rfind_none(s, pat, from - 1);
    }
}

/// A found occurrence really occurs at the reported position.
proof fn lemma_rfind_occurs(s: Seq<char>, pat: Seq<char>, from: int)
    ensures
        match rfind_at(s, pat, from) {
            Some(p) => occurs_at(s, pat, p) && p <= from,
            None => true,
        },
    decreases from + 1,
{
    if from >= 0 && !occurs_at(s, pat, from) {
        lemma_rfind_occurs(s, pat, from - 1);
    }
}

/// Between two bounds with no occurrence in between, the last occurrence is
/// the same.
proof fn lemma_rfind_monotone(s: Seq<char>, pat: Seq<char>, lo: int, hi: int)
    requires
        lo <= hi,
        forall|i: int| lo < i <= hi ==> !occurs_at(s, pat, i),
    ensures
        rfind_at(s, pat, hi) == rfind_at(s, pat, lo),
    decreases hi - lo,
{
    if lo < hi {
        lemma_rfind_monotone(s, pat, lo, hi - 1);
    }
}

/// The line with trailing spaces removed.
pub open spec fn rtrim_spaces(line: Seq<char>) -> Seq<char> {
    line.subrange(0, rscan_end(Class::Space, line, line.len() as int))
}

/// Peels a trailing ` @ <Item>` suffix. The item separator, when an item is
/// present, is the last ` @ ` of the line, since an item token cannot
/// contain `@`.
pub open spec fn peel_item(t: Seq<char>) -> (Option<Seq<char>>, Seq<char>) {
    match rfind_at(t, " @ "@, t.len() - 3) {
        Some(p) => {
            let it = t.subrange(p + 3, t.len() as int);
            if matches_item(it) {
                (Some(it), t.subrange(0, p))
            } else {
                (None, t)
            }
        },
        None => (None, t),
    }
}

/// Peels a trailing ` (M)` or ` (F)` gender marker.
pub open spec fn peel_gender(t: Seq<char>) -> (Option<Gender>, Seq<char>) {
    if t.len() >= 4 && t.subrange(t.len() - 4, t.len() as int) == " (M)"@ {
        (Some(Gender::Male), t.subrange(0, t.len() - 4))
    } else if t.len() >= 4 && t.subrange(t.len() - 4, t.len() as int) == " (F)"@ {
        (Some(Gender::Female), t.subrange(0, t.len() - 4))
    } else {
        (None, t)
    }
}

/// The core of a header: either `<nickname> (<Species>)` or a bare
/// `<Species>`. In the first form the parenthesis opening the species is the
/// last one of the text, since a species token contains no parentheses.
pub open spec fn core_form(t: Seq<char>) -> Option<(Option<Seq<char>>, Seq<char>)> {
    if t.len() >= 1 && t[t.len() - 1] == ')' && rfind_at(t, "("@, t.len() - 1) is Some {
        let p = rfind_at(t, "("@, t.len() - 1)->Some_0;
        if p >= 1 && t[p - 1] == ' ' && matches_species(t.subrange(p + 1, t.len() - 1)) {
            Some((Some(t.subrange(0, p - 1)), t.subrange(p + 1, t.len() - 1)))
        } else if matches_species(t) {
            Some((None, t))
        } else {
            None
        }
    } else if matches_species(t) {
        Some((None, t))
    } else {
        None
    }
}

/// The header parse of a stanza's first line, or `None` when the line has no
/// recognizable structure.
pub open spec fn header_spec(line: Seq<char>) -> Option<HeaderV> {
    let t = rtrim_spaces(line);
    let (item, t2) = peel_item(t);
    let (gender, t3) = peel_gender(t2);
    match core_form(t3) {
        Some((nickname, species)) => Some(HeaderV { nickname, species, gender, item }),
        None => None,
    }
}

/// The view of an optional header.
pub open spec fn header_opt_view(r: Option<Header>) -> Option<HeaderV> {
    match r {
        Some(h) => Some(h@),
        None => None,
    }
}

/// Parses a stanza's first line into its header fields; `None` means the
/// line has no recognizable structure and the stanza stays opaque text.
pub fn parse_header(line: &str) -> (r: Option<Header>)
    ensures
        header_opt_view(r) == header_spec(line@),
{
    proof {
        reveal_strlit(" @ ");
        reveal_strlit("(");
    }
    let n = line.unicode_len();
    let te = rscan(Class::Space, line, n);
    let t = line.substring_char(0, te);
    // item
    let tn = t.unicode_len();
    let mut item: Option<String> = None;
    let mut t2: &str = t;
    match rfind_str(t, " @ ") {
        Some(p) => {
            let it = t.substring_char(p + 3, tn);
            if check_item(it) {
                item = Some(it.to_owned());
                t2 = t.substring_char(0, p);
            }
        },
        None => {},
    }
    proof {
        assert((match item {
            Some(i) => Some(i@),
            None => None,
        }, t2@) == peel_item(t@));
    }
    // gender
    let t2n = t2.unicode_len();
    let mut gender: Option<Gender> = None;
    let mut t3: &str = t2;
    if t2n >= 4 {
        let tail = t2.substring_char(t2n - 4, t2n);
        if str_eq(tail, " (M)") {
            gender = Some(Gender::Male);
            t3 = t2.substring_char(0, t2n - 4);
        } else if str_eq(tail, " (F)") {
            gender = Some(Gender::Female);
            t3 = t2.substring_char(0, t2n - 4);
        }
    }
    proof {
        assert((gender, t3@) == peel_gender(t2@));
    }
    // core
    let t3n = t3.unicode_len();
    if t3n >= 1 && t3.get_char(t3n - 1) == ')' {
        match rfind_str(t3, "(") {
            Some(p) => {
                proof {
                    lemma_rfind_occurs(t3@, "("@, t3@.len() - 1);
                    assert(t3@.subrange(p as int, p + 1)[0] == t3@[p as int]);
                    assert(t3@[p as int] == '(');
                    assert(p < t3n - 1);
                }
                if p >= 1 && t3.get_char(p - 1) == ' ' {
                    let species = t3.substring_char(p + 1, t3n - 1);
                    if check_species(species) {
                        let nickname = t3.substring_char(0, p - 1);
                        return Some(
                            Header {
                                nickname: Some(nickname.to_owned()),
                                species: species.to_owned(),
                                gender,
                                item,
                            },
                        );
                    }
                }
                if check_species(t3) {
                    return Some(
                        Header { nickname: None, species: t3.to_owned(), gender, item },
                    );
                }
                return None;
            },
            None => {
                if check_species(t3) {
                    return Some(
                        Header { nickname: None, species: t3.to_owned(), gender, item },
                    );
                }
                return None;
            },
        }
    }
    if check_species(t3) {
        return Some(Header { nickname: None, species: t3.to_owned(), gender, item });
    }
    None
}

/// Spec-level image of a move line: the first move name and the optional
/// bracketed hidden-power type. Alternates after `/` are recognized but not
/// recorded.
pub ghost struct MoveLineV {
    pub name: Seq<char>,
    pub hp_type: Option<Seq<char>>,
}

/// A parsed move line.
pub struct MoveLine {
    pub name: String,
    pub hp_type: Option<String>,
}

impl View for MoveLine {
    type V = MoveLineV;

    open spec fn view(&self) -> MoveLineV {
        MoveLineV {
            name: self.name@,
            hp_type: match self.hp_type {
                Some(t) => Some(t@),
                None => None,
            },
        }
    }
}

/// The end of a ` [Type]` bracket starting at `e`, with the type name.
pub open spec fn bracket_spec(line: Seq<char>, e: int) -> Option<(Seq<char>, int)> {
    if e + 2 < line.len() && line[e] == ' ' && line[e + 1] == '[' {
        let tb = e + 2;
        let te = scan_end(Class::LowAlpha, line, tb + 1);
        if is_upper(line[tb]) && te - tb >= 2 && te < line.len() && line[te] == ']' {
            Some((line.subrange(tb, te), te + 1))
        } else {
            None
        }
    } else {
        None
    }
}

/// After the recorded parts of a move line: zero or more ` / <Alternate>`
/// groups, then only spaces to the end of the line.
pub open spec fn alts_ok(line: Seq<char>, q: int) -> bool
    recommends
        0 <= q <= line.len(),
    decreases line.len() - q
        when 0 <= q <= line.len()
        via alts_ok_decreases
{
    if scan_end(Class::Space, line, q) == line.len() {
        true
    } else if q + 3 <= line.len() && line[q] == ' ' && line[q + 1] == '/' && line[q + 2] == ' ' {
        match mname_end(line, q + 3) {
            Some(e2) => alts_ok(line, e2),
            None => false,
        }
    } else {
        false
    }
}

#[via_fn]
proof fn alts_ok_decreases(line: Seq<char>, q: int) {
    if q + 3 <= line.len() {
        crate::token::lemma_mname_end_bounds(line, q + 3);
    }
}

/// The move-line parse of a body line, or `None` when the line is not a move
/// line.
pub open spec fn move_spec(line: Seq<char>) -> Option<MoveLineV> {
    if line.len() >= 2 && line[0] == '-' && line[1] == ' ' {
        match mname_end(line, 2) {
            Some(e) => {
                let name = line.subrange(2, e);
                if e + 1 < line.len() && line[e] == ' ' && line[e + 1] == '[' {
                    match bracket_spec(line, e) {
                        Some((ty, q)) => if alts_ok(line, q) {
                            Some(MoveLineV { name, hp_type: Some(ty) })
                        } else {
                            None
                        },
                        None => None,
                    }
                } else if alts_ok(line, e) {
                    Some(MoveLineV { name, hp_type: None })
                } else {
                    None
                }
            },
            None => None,
        }
    } else {
        None
    }
}

/// Checks the alternates-and-spaces tail of a move line from `q` on.
fn alts_check(line: &str, q: usize) -> (r: bool)
    requires
        q <= line@.len(),
    ensures
        r == alts_ok(line@, q as int),
{
    let n = line.unicode_len();
    let mut i = q;
    loop
        invariant
            n == line@.len(),
            q <= i <= n,
            alts_ok(line@, q as int) == alts_ok(line@, i as int),
        decreases n - i,
    {
        if scan(Class::Space, line, i) == n {
            return true;
        }
        if n - i >= 3 && line.get_char(i) == ' ' && line.get_char(i + 1) == '/' && line.get_char(
            i + 2,
        ) == ' ' {
            match scan_mname(line, i + 3) {
                Some(e2) => {
                    i = e2;
                },
                None => {
                    return false;
                },
            }
        } else {
            return false;
        }
    }
}

/// Parses a body line as a move line.
pub fn parse_move(line: &str) -> (r: Option<MoveLine>)
    ensures
        match (r, move_spec(line@)) {
            (Some(m), Some(mv)) => m@ == mv,
            (None, None) => true,
            _ => false,
        },
{
    let n = line.unicode_len();
    if n < 2 || line.get_char(0) != '-' || line.get_char(1) != ' ' {
        return None;
    }
    let e = match scan_mname(line, 2) {
        Some(e) => e,
        None => {
            return None;
        },
    };
    let name = line.substring_char(2, e);
    if n - e > 1 && line.get_char(e) == ' ' && line.get_char(e + 1) == '[' {
        let tb = e + 2;
        if tb >= n {
            return None;
        }
        let te = scan(Class::LowAlpha, line, tb + 1);
        if !upper_test_at(line, tb) || te - tb < 2 || te >= n || line.get_char(te) != ']' {
            return None;
        }
        let ty = line.substring_char(tb, te);
        if alts_check(line, te + 1) {
            Some(MoveLine { name: name.to_owned(), hp_type: Some(ty.to_owned()) })
        } else {
            None
        }
    } else {
        if alts_check(line, e) {
            Some(MoveLine { name: name.to_owned(), hp_type: None })
        } else {
            None
        }
    }
}

fn upper_test_at(line: &str, i: usize) -> (r: bool)
    requires
        i < line@.len(),
    ensures
        r == is_upper(line@[i as int]),
{
    crate::token::upper_test(line.get_char(i))
}

/// The two allocation kinds an allocation line can declare.
#[derive(Clone, Copy, PartialEq, Eq, Structural, Debug)]
pub enum AllocKind {
    Ev,
    Iv,
}

/// Spec-level image of an allocation line: the declared kind and one
/// optional numeric value per stat slot, in the fixed slot order.
pub ghost struct AllocV {
    pub kind: AllocKind,
    pub hp: Option<nat>,
    pub atk: Option<nat>,
    pub def: Option<nat>,
    pub spa: Option<nat>,
    pub spd: Option<nat>,
    pub spe: Option<nat>,
}

/// A parsed allocation line.
pub struct AllocLine {
    pub kind: AllocKind,
    pub hp: Option<u32>,
    pub atk: Option<u32>,
    pub def: Option<u32>,
    pub spa: Option<u32>,
    pub spd: Option<u32>,
    pub spe: Option<u32>,
}

pub open spec fn nat_opt(o: Option<u32>) -> Option<nat> {
    match o {
        Some(v) => Some(v as nat),
        None => None,
    }
}

impl View for AllocLine {
    type V = AllocV;

    open spec fn view(&self) -> AllocV {
        AllocV {
            kind: self.kind,
            hp: nat_opt(self.hp),
            atk: nat_opt(self.atk),
            def: nat_opt(self.def),
            spa: nat_opt(self.spa),
            spd: nat_opt(self.spd),
            spe: nat_opt(self.spe),
        }
    }
}

/// One `<integer> <StatAbbrev>` slot starting at `p`: its numeric value and
/// the position after it.
pub open spec fn slot_end(line: Seq<char>, p: int, abbr: Seq<char>) -> Option<(nat, int)> {
    let d = scan_end(Class::Digit, line, p);
    if d > p && d + 1 + abbr.len() <= line.len() && line[d] == ' ' && line.subrange(
        d + 1,
        d + 1 + abbr.len(),
    ) == abbr {
        Some((digits_val(line.subrange(p, d)), d + 1 + abbr.len()))
    } else {
        None
    }
}

/// An optional slot: the value if the slot is present, and the position the
/// parse continues from.
pub open spec fn opt_slot(line: Seq<char>, p: int, abbr: Seq<char>) -> (Option<nat>, int) {
    match slot_end(line, p, abbr) {
        Some((v, e)) => (Some(v), e),
        None => (None, p),
    }
}

/// An optional ` / ` separator.
pub open spec fn sep_end(line: Seq<char>, p: int) -> int {
    if p + 3 <= line.len() && line[p] == ' ' && line[p + 1] == '/' && line[p + 2] == ' ' {
        p + 3
    } else {
        p
    }
}

/// The slot values of an allocation line's remainder (after the kind
/// prefix): six optional slots in fixed order, separated by optional ` / `,
/// followed only by spaces.
pub open spec fn stat_body(line: Seq<char>, kind: AllocKind) -> Option<AllocV> {
    let (hp, p1) = opt_slot(line, 5, "HP"@);
    let (atk, p2) = opt_slot(line, sep_end(line, p1), "Atk"@);
    let (def, p3) = opt_slot(line, sep_end(line, p2), "Def"@);
    let (spa, p4) = opt_slot(line, sep_end(line, p3), "SpA"@);
    let (spd, p5) = opt_slot(line, sep_end(line, p4), "SpD"@);
    let (spe, p6) = opt_slot(line, sep_end(line, p5), "Spe"@);
    if scan_end(Class::Space, line, p6) == line.len() {
        Some(AllocV { kind, hp, atk, def, spa, spd, spe })
    } else {
        None
    }
}

/// The allocation-line parse of a body line, or `None` when the line is not
/// an allocation line. Values are unbounded here; whether they fit the
/// machine type is judged by `alloc_fits`.
pub open spec fn stat_spec(line: Seq<char>) -> Option<AllocV> {
    if line.len() >= 5 && line.subrange(0, 5) == "EVs: "@ {
        stat_body(line, AllocKind::Ev)
    } else if line.len() >= 5 && line.subrange(0, 5) == "IVs: "@ {
        stat_body(line, AllocKind::Iv)
    } else {
        None
    }
}

pub open spec fn fits(o: Option<nat>) -> bool {
    match o {
        Some(v) => v <= u32::MAX,
        None => true,
    }
}

/// Every slot value of the line fits the machine type; a line with a value
/// that does not is kept as unclassified text.
pub open spec fn alloc_fits(a: AllocV) -> bool {
    fits(a.hp) && fits(a.atk) && fits(a.def) && fits(a.spa) && fits(a.spd) && fits(a.spe)
}

/// One parsed slot, as (value, overflowed, next position): the value when
/// the slot is present and fits, or no value with the overflow flag set
/// when the slot's number exceeds the machine type.
fn slot_exec(line: &str, p: usize, abbr: &str) -> (r: (Option<u32>, bool, usize))
    requires
        p <= line@.len(),
    ensures
        r.2 == opt_slot(line@, p as int, abbr@).1,
        p <= r.2 <= line@.len(),
        match opt_slot(line@, p as int, abbr@).0 {
            Some(x) => (r.1 ==> x > u32::MAX) && (!r.1 ==> r.0 == Some(x as u32) && x <= u32::MAX),
            None => r.0 is None && !r.1 && r.2 == p,
        },
        r.0 is None || !r.1,
{
    let n = line.unicode_len();
    let m = abbr.unicode_len();
    let d = scan(Class::Digit, line, p);
    if d > p && d < n && line.get_char(d) == ' ' && n - d - 1 >= m && match_at_exec(
        line,
        abbr,
        d + 1,
    ) {
        proof {
            crate::text::lemma_scan_end_bounds(Class::Digit, line@, p as int);
        }
        let v = parse_u32(line, p, d);
        match v {
            Some(x) => (Some(x), false, d + 1 + m),
            None => (None, true, d + 1 + m),
        }
    } else {
        (None, false, p)
    }
}

fn sep_exec(line: &str, p: usize) -> (r: usize)
    requires
        p <= line@.len(),
    ensures
        r == sep_end(line@, p as int),
        p <= r <= line@.len(),
{
    let n = line.unicode_len();
    if n - p >= 3 && line.get_char(p) == ' ' && line.get_char(p + 1) == '/' && line.get_char(p + 2)
        == ' ' {
        p + 3
    } else {
        p
    }
}

/// The outcome of trying a body line as an allocation line.
enum AllocParse {
    /// The line is not an allocation line.
    NotAlloc,
    /// A well-formed allocation line whose values all fit.
    Alloc(AllocLine),
    /// The line matches the allocation pattern, but a value overflows; the
    /// line is kept as unclassified text.
    TooBig,
}

fn parse_alloc(line: &str) -> (r: AllocParse)
    ensures
        match r {
            AllocParse::NotAlloc => stat_spec(line@) is None,
            AllocParse::Alloc(a) => stat_spec(line@) == Some(a@) && alloc_fits(a@),
            AllocParse::TooBig => stat_spec(line@) matches Some(st) && !alloc_fits(st),
        },
{
    let n = line.unicode_len();
    if n < 5 {
        return AllocParse::NotAlloc;
    }
    let prefix = line.substring_char(0, 5);
    let kind: AllocKind;
    if str_eq(prefix, "EVs: ") {
        kind = AllocKind::Ev;
    } else if str_eq(prefix, "IVs: ") {
        kind = AllocKind::Iv;
    } else {
        return AllocParse::NotAlloc;
    }
    let (hp, b1, p1) = slot_exec(line, 5, "HP");
    let q1 = sep_exec(line, p1);
    let (atk, b2, p2) = slot_exec(line, q1, "Atk");
    let q2 = sep_exec(line, p2);
    let (def, b3, p3) = slot_exec(line, q2, "Def");
    let q3 = sep_exec(line, p3);
    let (spa, b4, p4) = slot_exec(line, q3, "SpA");
    let q4 = sep_exec(line, p4);
    let (spd, b5, p5) = slot_exec(line, q4, "SpD");
    let q5 = sep_exec(line, p5);
    let (spe, b6, p6) = slot_exec(line, q5, "Spe");
    if scan(Class::Space, line, p6) != n {
        return AllocParse::NotAlloc;
    }
    if b1 || b2 || b3 || b4 || b5 || b6 {
        return AllocParse::TooBig;
    }
    AllocParse::Alloc(AllocLine { kind, hp, atk, def, spa, spd, spe })
}

/// The classification of one body line.
pub ghost enum LineV {
    /// A move line.
    MoveL(MoveLineV),
    /// An allocation line whose values all fit.
    AllocL(AllocV),
    /// Unclassified text, kept verbatim.
    Plain,
}

/// A classified body line.
pub enum LineClass {
    MoveL(MoveLine),
    AllocL(AllocLine),
    Plain,
}

impl View for LineClass {
    type V = LineV;

    open spec fn view(&self) -> LineV {
        match self {
            LineClass::MoveL(m) => LineV::MoveL(m@),
            LineClass::AllocL(a) => LineV::AllocL(a@),
            LineClass::Plain => LineV::Plain,
        }
    }
}

/// The classification of a body line: a move line, an allocation line whose
/// values fit, or unclassified text.
pub open spec fn classify_spec(line: Seq<char>) -> LineV {
    match move_spec(line) {
        Some(m) => LineV::MoveL(m),
        None => match stat_spec(line) {
            Some(st) => if alloc_fits(st) {
                LineV::AllocL(st)
            } else {
                LineV::Plain
            },
            None => LineV::Plain,
        },
    }
}

/// Classifies one body line.
pub fn classify_line(line: &str) -> (r: LineClass)
    ensures
        r@ == classify_spec(line@),
{
    match parse_move(line) {
        Some(m) => LineClass::MoveL(m),
        None => {
            match parse_alloc(line) {
                AllocParse::Alloc(a) => LineClass::AllocL(a),
                AllocParse::NotAlloc => LineClass::Plain,
                AllocParse::TooBig => LineClass::Plain,
            }
        },
    }
}

} // verus!
