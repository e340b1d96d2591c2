//! The sprite resolver: maps a species query plus shiny/female flags to an
//! asset path under the `home/` root.
//!
//! Resolution is split into a deterministic plan and a probe. The plan is an
//! ordered list of candidate paths (tried in order against the asset store)
//! and a fallback path returned when none exists; `choose_existing` picks
//! the first candidate whose existence flag is set. The multi-decoration
//! species family resolves to a fixed path without probing, from an
//! explicitly passed decoration choice.

use vstd::prelude::*;

use crate::dict::{Dict, Mon, first_idx, filter_by};
use crate::text::{
    Class, scan_end, scan, contains_seq, contains_str, dec_str, u64_dec,
};

verus! {

/// Relies on `std::path::Path::exists`: whether the asset store holds the
/// path at this moment. The result depends on the store, so nothing more is
/// assumed of it.
#[verifier::external_body]
fn asset_exists(path: &str) -> bool {
    std::path::Path::new(path).exists()
}

/// Relies on `rand::random_range` over `0..n`: a uniformly drawn index
/// below `n`; the range is non-empty, so the call returns.
#[verifier::external_body]
fn random_below(n: usize) -> (r: usize)
    requires
        n > 0,
    ensures
        r < n,
{
    rand::random_range(0..n)
}

/// The seven decoration names of the multi-decoration species family.
pub open spec fn decoration_name(dec: int) -> Seq<char> {
    if dec == 0 {
        "berry-sweet"@
    } else if dec == 1 {
        "clove-sweet"@
    } else if dec == 2 {
        "flower-sweet"@
    } else if dec == 3 {
        "love-sweet"@
    } else if dec == 4 {
        "ribbon-sweet"@
    } else if dec == 5 {
        "star-sweet"@
    } else {
        "strawberry-sweet"@
    }
}

fn decoration_name_exec(dec: usize) -> (r: &'static str)
    requires
        dec < 7,
    ensures
        r@ == decoration_name(dec as int),
{
    match dec {
        0 => "berry-sweet",
        1 => "clove-sweet",
        2 => "flower-sweet",
        3 => "love-sweet",
        4 => "ribbon-sweet",
        5 => "star-sweet",
        _ => "strawberry-sweet",
    }
}

/// Spec-level image of a resolution plan.
pub ghost struct SpritePlanV {
    /// Candidate paths, tried in order against the asset store.
    pub candidates: Seq<Seq<char>>,
    /// The path returned when no candidate exists.
    pub fallback: Seq<char>,
}

/// A resolution plan: candidate paths tried in order, and the fallback
/// returned when none exists.
pub struct SpritePlan {
    pub candidates: Vec<String>,
    pub fallback: String,
}

impl View for SpritePlan {
    type V = SpritePlanV;

    open spec fn view(&self) -> SpritePlanV {
        SpritePlanV {
            candidates: crate::text::views(self.candidates@),
            fallback: self.fallback@,
        }
    }
}

/// The directory cascade for an id: the full path with the `shiny` and
/// `female` segments, then the same with `female` stripped, then with
/// `shiny` stripped too.
pub open spec fn seg_candidates(id: Seq<char>, shiny: bool, female: bool) -> Seq<Seq<char>> {
    if shiny && female {
        seq![
            "home/shiny/female/"@ + id + ".png"@,
            "home/shiny/"@ + id + ".png"@,
            "home/"@ + id + ".png"@,
        ]
    } else if shiny {
        seq!["home/shiny/"@ + id + ".png"@, "home/"@ + id + ".png"@]
    } else if female {
        seq!["home/female/"@ + id + ".png"@, "home/"@ + id + ".png"@]
    } else {
        seq!["home/"@ + id + ".png"@]
    }
}

/// The query names the multi-decoration species family (and not its
/// max form, which follows the general algorithm).
pub open spec fn is_deco_family(q: Seq<char>) -> bool {
    contains_seq(q, "alcremie"@) && !contains_seq(q, "gmax"@)
}

/// The fixed path of a multi-decoration family member: decoration drawn by
/// the caller; non-shiny paths carry a flavor, the default one for the bare
/// family name and the part after the first hyphen otherwise.
pub open spec fn deco_path(q: Seq<char>, shiny: bool, dec: int) -> Seq<char> {
    if shiny {
        "home/shiny/869-"@ + decoration_name(dec) + ".png"@
    } else {
        let c = scan_end(Class::NonHyphen, q, 0);
        let flavor = if q == "alcremie"@ {
            "vanilla-cream"@
        } else if c < q.len() {
            q.subrange(c + 1, q.len() as int)
        } else {
            Seq::empty()
        };
        "home/869-"@ + flavor + "-"@ + decoration_name(dec) + ".png"@
    }
}

/// The resolution plan for a query: the multi-decoration family resolves to
/// a fixed path; a direct dictionary key gets the directory cascade over its
/// id; otherwise a hyphenated query whose root is a key gets the cascade
/// over `<root-id>-<suffix>` plus the bare root id; everything else falls
/// straight to the placeholder.
pub open spec fn plan_spec(
    keys: Seq<Seq<char>>,
    vals: Seq<Mon>,
    q: Seq<char>,
    shiny: bool,
    female: bool,
    dec: int,
) -> SpritePlanV {
    if is_deco_family(q) {
        SpritePlanV { candidates: Seq::empty(), fallback: deco_path(q, shiny, dec) }
    } else {
        match first_idx(keys, q, 0) {
            Some(i) => SpritePlanV {
                candidates: seg_candidates(dec_str(vals[i]@.id as nat), shiny, female),
                fallback: "home/0.png"@,
            },
            None => {
                let c = scan_end(Class::NonHyphen, q, 0);
                if c < q.len() && first_idx(keys, q.subrange(0, c), 0) is Some {
                    let i = first_idx(keys, q.subrange(0, c), 0)->Some_0;
                    let rootid = dec_str(vals[i]@.id as nat);
                    let idstr = rootid + "-"@ + q.subrange(c + 1, q.len() as int);
                    SpritePlanV {
                        candidates: seg_candidates(idstr, shiny, female).push(
                            "home/"@ + rootid + ".png"@,
                        ),
                        fallback: "home/0.png"@,
                    }
                } else {
                    SpritePlanV { candidates: Seq::empty(), fallback: "home/0.png"@ }
                }
            },
        }
    }
}

fn png_path(dir: &str, id: &str) -> (r: String)
    ensures
        r@ == dir@ + id@ + ".png"@,
{
    let mut s = String::from_str(dir);
    s.append(id);
    s.append(".png");
    s
}

fn seg_candidates_exec(id: &str, shiny: bool, female: bool) -> (r: Vec<String>)
    ensures
        crate::text::views(r@) =~= seg_candidates(id@, shiny, female),
{
    let mut v: Vec<String> = Vec::new();
    if shiny && female {
        v.push(png_path("home/shiny/female/", id));
        v.push(png_path("home/shiny/", id));
        v.push(png_path("home/", id));
    } else if shiny {
        v.push(png_path("home/shiny/", id));
        v.push(png_path("home/", id));
    } else if female {
        v.push(png_path("home/female/", id));
        v.push(png_path("home/", id));
    } else {
        v.push(png_path("home/", id));
    }
    v
}

/// Builds the resolution plan for a query, with an explicit decoration
/// choice for the multi-decoration family.
pub fn sprite_plan(
    dict: &Dict<Mon>,
    query: &str,
    shiny: bool,
    female: bool,
    decoration: usize,
) -> (r: SpritePlan)
    requires
        decoration < 7,
    ensures
        r@ == plan_spec(dict.keys(), dict.vals(), query@, shiny, female, decoration as int),
{
    let n = query.unicode_len();
    if contains_str(query, "alcremie") && !contains_str(query, "gmax") {
        let deco = decoration_name_exec(decoration);
        let fallback: String;
        if shiny {
            let mut s = String::from_str("home/shiny/869-");
            s.append(deco);
            s.append(".png");
            fallback = s;
        } else {
            let c = scan(Class::NonHyphen, query, 0);
            let mut s = String::from_str("home/869-");
            if crate::text::str_eq(query, "alcremie") {
                s.append("vanilla-cream");
            } else if c < n {
                let suffix = query.substring_char(c + 1, n);
                s.append(suffix);
            }
            s.append("-");
            s.append(deco);
            s.append(".png");
            fallback = s;
        }
        let r = SpritePlan { candidates: Vec::new(), fallback };
        proof {
            assert(r@.candidates =~= Seq::<Seq<char>>::empty());
            assert(r@.fallback =~= deco_path(query@, shiny, decoration as int));
        }
        return r;
    }
    if let Some(i) = dict.find(query) {
        let id = u64_dec(dict.val_at(i).id as u64);
        let r = SpritePlan {
            candidates: seg_candidates_exec(id.as_str(), shiny, female),
            fallback: String::from_str("home/0.png"),
        };
        return r;
    }
    let c = scan(Class::NonHyphen, query, 0);
    if c < n {
        let root = query.substring_char(0, c);
        if let Some(i) = dict.find(root) {
            let rootid = u64_dec(dict.val_at(i).id as u64);
            let suffix = query.substring_char(c + 1, n);
            let mut idstr = rootid.clone();
            idstr.append("-");
            idstr.append(suffix);
            let mut cands = seg_candidates_exec(idstr.as_str(), shiny, female);
            let ghost pre = cands@;
            cands.push(png_path("home/", rootid.as_str()));
            let r = SpritePlan { candidates: cands, fallback: String::from_str("home/0.png") };
            proof {
                assert(crate::text::views(r.candidates@) =~= crate::text::views(pre).push(
                    "home/"@ + rootid@ + ".png"@,
                ));
            }
            return r;
        }
    }
    let r = SpritePlan { candidates: Vec::new(), fallback: String::from_str("home/0.png") };
    proof {
        assert(r@.candidates =~= Seq::<Seq<char>>::empty());
    }
    r
}

/// The first candidate whose flag is set, from position `i` on, or the
/// fallback.
pub open spec fn choose_from(
    cands: Seq<Seq<char>>,
    fallback: Seq<char>,
    flags: Seq<bool>,
    i: int,
) -> Seq<char>
    recommends
        0 <= i,
        cands.len() == flags.len(),
    decreases cands.len() - i,
{
    if i < 0 || i >= cands.len() {
        fallback
    } else if flags[i] {
        cands[i]
    } else {
        choose_from(cands, fallback, flags, i + 1)
    }
}

/// The resolved path of a plan under the given existence flags: the first
/// existing candidate, or the fallback.
pub open spec fn choose_spec(plan: SpritePlanV, flags: Seq<bool>) -> Seq<char> {
    choose_from(plan.candidates, plan.fallback, flags, 0)
}

/// Picks the first candidate whose existence flag is set, or the fallback.
pub fn choose_existing(plan: &SpritePlan, flags: &Vec<bool>) -> (r: String)
    requires
        flags@.len() == plan.candidates@.len(),
    ensures
        r@ == choose_spec(plan@, flags@),
{
    let n = plan.candidates.len();
    let mut i: usize = 0;
    while i < n
        invariant
            n == plan.candidates@.len() == flags@.len(),
            i <= n,
            choose_spec(plan@, flags@) == choose_from(
                plan@.candidates,
                plan@.fallback,
                flags@,
                i as int,
            ),
        decreases n - i,
    {
        if flags[i] {
            return plan.candidates[i].clone();
        }
        i += 1;
    }
    plan.fallback.clone()
}

/// Resolves a query to an asset path: builds the plan with a random
/// decoration choice, probes the asset store for each candidate in order,
/// and returns the first existing candidate or the plan's fallback. The
/// result is always the resolution of the plan for some decoration under
/// some set of probe outcomes.
pub fn get_image(dict: &Dict<Mon>, query: &str, shiny: bool, female: bool) -> (r: String)
    ensures
        exists|dec: int, flags: Seq<bool>|
            0 <= dec < 7 && flags.len() == plan_spec(
                dict.keys(),
                dict.vals(),
                query@,
                shiny,
                female,
                dec,
            ).candidates.len() && r@ == choose_spec(
                plan_spec(dict.keys(), dict.vals(), query@, shiny, female, dec),
                flags,
            ),
{
    let decoration = random_below(7);
    let plan = sprite_plan(dict, query, shiny, female, decoration);
    let n = plan.candidates.len();
    let mut flags: Vec<bool> = Vec::new();
    let mut i: usize = 0;
    while i < n
        invariant
            n == plan.candidates@.len(),
            i <= n,
            flags@.len() == i,
        decreases n - i,
    {
        flags.push(asset_exists(plan.candidates[i].as_str()));
        i += 1;
    }
    let r = choose_existing(&plan, &flags);
    proof {
        assert(0 <= decoration < 7 && flags@.len() == plan_spec(
            dict.keys(),
            dict.vals(),
            query@,
            shiny,
            female,
            decoration as int,
        ).candidates.len() && r@ == choose_spec(
            plan_spec(dict.keys(), dict.vals(), query@, shiny, female, decoration as int),
            flags@,
        ));
    }
    r
}

/// When some candidate's flag is set, the cascade picks a candidate.
proof fn lemma_choose_hits(cands: Seq<Seq<char>>, fb: Seq<char>, flags: Seq<bool>, i: int)
    requires
        0 <= i,
        cands.len() == flags.len(),
        exists|k: int| i <= k < flags.len() && flags[k],
    ensures
        exists|k: int|
            i <= k < cands.len() && choose_from(cands, fb, flags, i) == cands[k],
    decreases cands.len() - i,
{
    if i < cands.len() && flags[i] {
        assert(choose_from(cands, fb, flags, i) == cands[i]);
    } else {
        lemma_choose_hits(cands, fb, flags, i + 1);
    }
}

/// Every directory-cascade candidate contains the id between its directory
/// prefix and the file suffix.
proof fn lemma_seg_candidates_contain(id: Seq<char>, shiny: bool, female: bool)
    ensures
        forall|k: int|
            0 <= k < seg_candidates(id, shiny, female).len() ==> contains_seq(
                #[trigger] seg_candidates(id, shiny, female)[k],
                id,
            ),
{
    reveal_strlit("home/shiny/female/");
    reveal_strlit("home/shiny/");
    reveal_strlit("home/female/");
    reveal_strlit("home/");
    reveal_strlit(".png");
    assert forall|k: int| 0 <= k < seg_candidates(id, shiny, female).len() implies contains_seq(
        #[trigger] seg_candidates(id, shiny, female)[k],
        id,
    ) by {
        let c = seg_candidates(id, shiny, female)[k];
        if c == "home/shiny/female/"@ + id + ".png"@ {
            assert(c.subrange(18, 18 + id.len() as int) =~= id);
            assert(crate::text::occurs_at(c, id, 18));
        } else if c == "home/shiny/"@ + id + ".png"@ {
            assert(c.subrange(11, 11 + id.len() as int) =~= id);
            assert(crate::text::occurs_at(c, id, 11));
        } else if c == "home/female/"@ + id + ".png"@ {
            assert(c.subrange(12, 12 + id.len() as int) =~= id);
            assert(crate::text::occurs_at(c, id, 12));
        } else {
            assert(c == "home/"@ + id + ".png"@);
            assert(c.subrange(5, 5 + id.len() as int) =~= id);
            assert(crate::text::occurs_at(c, id, 5));
        }
    }
}

/// Direct-match resolution carries the key's id: for a dictionary key
/// (outside the multi-decoration family), whenever any probe reports a file
/// present, the resolved path contains the key's numeric id in decimal.
pub proof fn lemma_direct_key_path_has_id(
    keys: Seq<Seq<char>>,
    vals: Seq<Mon>,
    q: Seq<char>,
    shiny: bool,
    female: bool,
    dec: int,
    flags: Seq<bool>,
)
    requires
        !is_deco_family(q),
        first_idx(keys, q, 0) is Some,
        flags.len() == plan_spec(keys, vals, q, shiny, female, dec).candidates.len(),
        exists|k: int| 0 <= k < flags.len() && flags[k],
    ensures
        contains_seq(
            choose_spec(plan_spec(keys, vals, q, shiny, female, dec), flags),
            dec_str(vals[first_idx(keys, q, 0)->Some_0]@.id as nat),
        ),
{
    let plan = plan_spec(keys, vals, q, shiny, female, dec);
    let id = dec_str(vals[first_idx(keys, q, 0)->Some_0]@.id as nat);
    lemma_choose_hits(plan.candidates, plan.fallback, flags, 0);
    lemma_seg_candidates_contain(id, shiny, female);
}

/// A query that is no dictionary key and has no exploitable hyphen — none
/// at all, or a root that is no key either — resolves to the fixed
/// placeholder path, whatever the probes report.
pub proof fn lemma_unresolved_placeholder(
    keys: Seq<Seq<char>>,
    vals: Seq<Mon>,
    q: Seq<char>,
    shiny: bool,
    female: bool,
    dec: int,
    flags: Seq<bool>,
)
    requires
        !is_deco_family(q),
        first_idx(keys, q, 0) is None,
        scan_end(Class::NonHyphen, q, 0) >= q.len() || first_idx(
            keys,
            q.subrange(0, scan_end(Class::NonHyphen, q, 0)),
            0,
        ) is None,
    ensures
        choose_spec(plan_spec(keys, vals, q, shiny, female, dec), flags) == "home/0.png"@,
{
}

/// With the shiny flag set for a dictionary key (outside the
/// multi-decoration family, gender flag clear), the resolved path is the
/// `shiny` one when its file exists, and falls back to the bare-id path
/// when it does not but that file exists.
pub proof fn lemma_shiny_cascade(
    keys: Seq<Seq<char>>,
    vals: Seq<Mon>,
    q: Seq<char>,
    dec: int,
    flags: Seq<bool>,
)
    requires
        !is_deco_family(q),
        first_idx(keys, q, 0) is Some,
        flags.len() == plan_spec(keys, vals, q, true, false, dec).candidates.len(),
    ensures
        flags[0] ==> choose_spec(plan_spec(keys, vals, q, true, false, dec), flags)
            == "home/shiny/"@ + dec_str(vals[first_idx(keys, q, 0)->Some_0]@.id as nat) + ".png"@,
        !flags[0] && flags[1] ==> choose_spec(plan_spec(keys, vals, q, true, false, dec), flags)
            == "home/"@ + dec_str(vals[first_idx(keys, q, 0)->Some_0]@.id as nat) + ".png"@,
{
    let plan = plan_spec(keys, vals, q, true, false, dec);
    if !flags[0] {
        assert(choose_spec(plan, flags) == choose_from(plan.candidates, plan.fallback, flags, 1));
    }
}

/// Drops every species whose bare-id image is absent from the asset store.
/// Which entries survive depends on the store, so the contract states that
/// the result is an in-order selection of the old entries under one keep-set.
pub fn verify_map(map: &mut Dict<Mon>)
    ensures
        exists|keep: Seq<bool>|
            keep.len() == old(map).spec_len() && final(map).keys() == filter_by(
                old(map).keys(),
                keep,
            ) && final(map).vals() == filter_by(old(map).vals(), keep),
        old(map).wf() ==> final(map).wf(),
{
    let n = map.len();
    let mut flags: Vec<bool> = Vec::new();
    let mut i: usize = 0;
    while i < n
        invariant
            n == map.spec_len(),
            i <= n,
            flags@.len() == i,
        decreases n - i,
    {
        let id = u64_dec(map.val_at(i).id as u64);
        let path = png_path("home/", id.as_str());
        flags.push(asset_exists(path.as_str()));
        i += 1;
    }
    let ghost keys0 = map.keys();
    let ghost vals0 = map.vals();
    map.retain_by_flags(&flags);
    proof {
        assert(map.keys() == filter_by(keys0, flags@) && map.vals() == filter_by(vals0, flags@));
    }
}

} // verus!
