//! The assembler: turns each stanza into one content entry. A stanza whose
//! first line has no recognizable header stays opaque text; otherwise the
//! header and body fields are combined with dictionary resolution, sprite
//! resolution and icon resolution into a structured entity. Stanza order is
//! preserved.

use vstd::prelude::*;

use crate::dict::{Dict, Mon, Move, ItemRecord};
use crate::icon::{item_image_spec, get_item_image};
use crate::lines::{
    Gender, MoveLineV, LineV, classify_spec, classify_line, header_spec, parse_header, LineClass,
    AllocKind,
};
use crate::resolver::{resolve_spec, patterns_ok, try_search_like};
use crate::segment::{lines, stanzas, split_lines, split_stanzas};
use crate::sprite::{plan_spec, choose_spec, get_image};
use crate::text::{norm_key_seq, norm_key, contains_seq, contains_str, views};

verus! {

/// One move of an entity: the name as written, the bracketed hidden-power
/// type if one was given, and the resolved type where resolution succeeded.
pub struct MoveSlot {
    pub name: String,
    pub hp_type: Option<String>,
    pub rtype: Option<String>,
}

/// Spec-level image of a move slot.
pub ghost struct MoveSlotV {
    pub name: Seq<char>,
    pub hp_type: Option<Seq<char>>,
    pub rtype: Option<Seq<char>>,
}

impl View for MoveSlot {
    type V = MoveSlotV;

    open spec fn view(&self) -> MoveSlotV {
        MoveSlotV {
            name: self.name@,
            hp_type: match self.hp_type {
                Some(t) => Some(t@),
                None => None,
            },
            rtype: match self.rtype {
                Some(t) => Some(t@),
                None => None,
            },
        }
    }
}

/// The six effort-value buckets; an omitted slot keeps its default of zero.
#[derive(Clone, Copy, PartialEq, Eq, Structural, Debug)]
pub struct EvSet {
    pub hp: u32,
    pub atk: u32,
    pub def: u32,
    pub spa: u32,
    pub spd: u32,
    pub spe: u32,
}

impl View for EvSet {
    type V = EvSet;

    open spec fn view(&self) -> EvSet {
        *self
    }
}

/// The six innate-value buckets; an omitted slot stays unset.
#[derive(Clone, Copy, PartialEq, Eq, Structural, Debug)]
pub struct IvSet {
    pub hp: Option<u32>,
    pub atk: Option<u32>,
    pub def: Option<u32>,
    pub spa: Option<u32>,
    pub spd: Option<u32>,
    pub spe: Option<u32>,
}

impl View for IvSet {
    type V = IvSet;

    open spec fn view(&self) -> IvSet {
        *self
    }
}

/// A structured entity assembled from one stanza.
pub struct ParsedEntity {
    pub nickname: Option<String>,
    pub display_name: String,
    pub search_key: String,
    pub rtype: Option<String>,
    pub gender: Option<Gender>,
    pub item: Option<String>,
    pub moves: Vec<MoveSlot>,
    pub evs: EvSet,
    pub ivs: IvSet,
    pub others: Vec<String>,
    pub shiny: bool,
    pub sprite: String,
    pub item_icon: Option<String>,
}

/// Spec-level image of an entity.
pub ghost struct EntityV {
    pub nickname: Option<Seq<char>>,
    pub display_name: Seq<char>,
    pub search_key: Seq<char>,
    pub rtype: Option<Seq<char>>,
    pub gender: Option<Gender>,
    pub item: Option<Seq<char>>,
    pub moves: Seq<MoveSlotV>,
    pub evs: EvSet,
    pub ivs: IvSet,
    pub others: Seq<Seq<char>>,
    pub shiny: bool,
    pub sprite: Seq<char>,
    pub item_icon: Option<Seq<char>>,
}

impl View for ParsedEntity {
    type V = EntityV;

    open spec fn view(&self) -> EntityV {
        EntityV {
            nickname: match self.nickname {
                Some(n) => Some(n@),
                None => None,
            },
            display_name: self.display_name@,
            search_key: self.search_key@,
            rtype: match self.rtype {
                Some(t) => Some(t@),
                None => None,
            },
            gender: self.gender,
            item: match self.item {
                Some(i) => Some(i@),
                None => None,
            },
            moves: self.moves@.map_values(|m: MoveSlot| m@),
            evs: self.evs,
            ivs: self.ivs,
            others: views(self.others@),
            shiny: self.shiny,
            sprite: self.sprite@,
            item_icon: match self.item_icon {
                Some(s) => Some(s@),
                None => None,
            },
        }
    }
}

/// One entry of a document: an opaque stanza kept verbatim, or a structured
/// entity.
pub enum ContentEntry {
    Text(String),
    Entity(ParsedEntity),
}

/// Spec-level image of a content entry.
pub ghost enum ContentEntryV {
    Text(Seq<char>),
    Entity(EntityV),
}

impl View for ContentEntry {
    type V = ContentEntryV;

    open spec fn view(&self) -> ContentEntryV {
        match self {
            ContentEntry::Text(t) => ContentEntryV::Text(t@),
            ContentEntry::Entity(e) => ContentEntryV::Entity(e@),
        }
    }
}

/// The body fields accumulated over a stanza's lines after the header.
pub ghost struct BodyV {
    pub moves: Seq<MoveLineV>,
    pub evs: EvSet,
    pub ivs: IvSet,
    pub others: Seq<Seq<char>>,
}

pub open spec fn body_init() -> BodyV {
    BodyV {
        moves: Seq::empty(),
        evs: EvSet { hp: 0, atk: 0, def: 0, spa: 0, spd: 0, spe: 0 },
        ivs: IvSet { hp: None, atk: None, def: None, spa: None, spd: None, spe: None },
        others: Seq::empty(),
    }
}

pub open spec fn upd_ev(cur: u32, v: Option<nat>) -> u32 {
    match v {
        Some(x) => x as u32,
        None => cur,
    }
}

pub open spec fn upd_iv(cur: Option<u32>, v: Option<nat>) -> Option<u32> {
    match v {
        Some(x) => Some(x as u32),
        None => cur,
    }
}

/// How one classified line changes the accumulated body fields.
pub open spec fn body_step(acc: BodyV, raw: Seq<char>) -> BodyV {
    match classify_spec(raw) {
        LineV::MoveL(m) => BodyV { moves: acc.moves.push(m), ..acc },
        LineV::AllocL(a) => match a.kind {
            AllocKind::Ev => BodyV {
                evs: EvSet {
                    hp: upd_ev(acc.evs.hp, a.hp),
                    atk: upd_ev(acc.evs.atk, a.atk),
                    def: upd_ev(acc.evs.def, a.def),
                    spa: upd_ev(acc.evs.spa, a.spa),
                    spd: upd_ev(acc.evs.spd, a.spd),
                    spe: upd_ev(acc.evs.spe, a.spe),
                },
                ..acc
            },
            AllocKind::Iv => BodyV {
                ivs: IvSet {
                    hp: upd_iv(acc.ivs.hp, a.hp),
                    atk: upd_iv(acc.ivs.atk, a.atk),
                    def: upd_iv(acc.ivs.def, a.def),
                    spa: upd_iv(acc.ivs.spa, a.spa),
                    spd: upd_iv(acc.ivs.spd, a.spd),
                    spe: upd_iv(acc.ivs.spe, a.spe),
                },
                ..acc
            },
        },
        LineV::Plain => BodyV { others: acc.others.push(raw), ..acc },
    }
}

/// The body fields of a stanza: its lines after the first, folded in order.
pub open spec fn fold_body(ls: Seq<Seq<char>>, i: int, acc: BodyV) -> BodyV
    recommends
        0 <= i <= ls.len(),
    decreases ls.len() - i,
{
    if i >= ls.len() {
        acc
    } else {
        fold_body(ls, i + 1, body_step(acc, ls[i]))
    }
}

/// The species resolution of a normalized query: the reported search key
/// and the resolved primary type. A query whose derived wildcard patterns
/// the pattern engine rejects resolves like a miss.
pub open spec fn species_resolution(
    keys: Seq<Seq<char>>,
    vals: Seq<Mon>,
    q: Seq<char>,
) -> (Seq<char>, Option<Seq<char>>) {
    if patterns_ok(q) {
        match resolve_spec(keys, q) {
            Some((k, i)) => (k, Some(vals[i]@.type1)),
            None => (q, None),
        }
    } else {
        (q, None)
    }
}

/// The resolved type of a normalized move query, where resolution succeeds.
pub open spec fn move_type(keys: Seq<Seq<char>>, vals: Seq<Move>, q: Seq<char>) -> Option<
    Seq<char>,
> {
    if patterns_ok(q) {
        match resolve_spec(keys, q) {
            Some((k, i)) => Some(vals[i]@.type1),
            None => None,
        }
    } else {
        None
    }
}

/// The entity's sprite path is a resolution of its plan: for some decoration
/// choice and some probe outcomes, it is what the cascade picks.
pub open spec fn sprite_admissible(
    path: Seq<char>,
    skeys: Seq<Seq<char>>,
    svals: Seq<Mon>,
    q: Seq<char>,
    shiny: bool,
    female: bool,
) -> bool {
    exists|dec: int, flags: Seq<bool>|
        0 <= dec < 7 && flags.len() == plan_spec(skeys, svals, q, shiny, female, dec).candidates.len()
            && path == choose_spec(plan_spec(skeys, svals, q, shiny, female, dec), flags)
}

/// The stanza-wide marker that selects shiny artwork.
pub open spec fn shiny_marker() -> Seq<char> {
    "Shiny: Yes"@
}

/// What a structured entity assembled from this stanza holds: every field
/// is pinned by the header, the folded body lines and the resolvers; only
/// the sprite path, which depends on the decoration draw and the asset
/// store, is constrained to an admissible resolution of its plan.
pub open spec fn entity_ok(
    e: EntityV,
    stanza: Seq<char>,
    sp: &Dict<Mon>,
    mv: &Dict<Move>,
    it: &Dict<ItemRecord>,
) -> bool {
    let ls = lines(stanza);
    match header_spec(ls[0]) {
        Some(hv) => {
            let q = norm_key_seq(hv.species);
            let skey = species_resolution(sp.keys(), sp.vals(), q).0;
            let sty = species_resolution(sp.keys(), sp.vals(), q).1;
            let body = fold_body(ls, 1, body_init());
            let shiny = contains_seq(stanza, shiny_marker());
            let female = hv.gender == Some(Gender::Female);
            e.nickname == hv.nickname && e.display_name == hv.species && e.search_key == skey
                && e.rtype == sty && e.gender == hv.gender && e.item == hv.item && e.moves.len()
                == body.moves.len() && (forall|j: int|
                0 <= j < body.moves.len() ==> (#[trigger] e.moves[j]).name == body.moves[j].name
                    && e.moves[j].hp_type == body.moves[j].hp_type && e.moves[j].rtype == move_type(
                    mv.keys(),
                    mv.vals(),
                    norm_key_seq(body.moves[j].name),
                )) && e.evs == body.evs && e.ivs == body.ivs && e.others == body.others && e.shiny
                == shiny && e.item_icon == (match hv.item {
                Some(itname) => Some(item_image_spec(it.keys(), it.vals(), itname)),
                None => None,
            }) && sprite_admissible(e.sprite, sp.keys(), sp.vals(), skey, shiny, female)
        },
        None => false,
    }
}

/// What the entry for this stanza holds: opaque text equal to the stanza
/// when its first line has no recognizable header, a structured entity
/// otherwise.
pub open spec fn entry_ok(
    en: ContentEntryV,
    stanza: Seq<char>,
    sp: &Dict<Mon>,
    mv: &Dict<Move>,
    it: &Dict<ItemRecord>,
) -> bool {
    match header_spec(lines(stanza)[0]) {
        None => en == ContentEntryV::Text(stanza),
        Some(_) => en matches ContentEntryV::Entity(e) && entity_ok(e, stanza, sp, mv, it),
    }
}

/// Assembles one stanza into its content entry.
fn assemble_stanza(
    stanza: &str,
    sp: &Dict<Mon>,
    mv: &Dict<Move>,
    it: &Dict<ItemRecord>,
) -> (r: ContentEntry)
    ensures
        entry_ok(r@, stanza@, sp, mv, it),
{
    let ls = split_lines(stanza);
    let header = match parse_header(ls[0].as_str()) {
        Some(h) => h,
        None => {
            return ContentEntry::Text(stanza.to_owned());
        },
    };
    let q = norm_key(header.species.as_str());
    let (search_key, rtype): (String, Option<String>) = match try_search_like(sp, q.as_str()) {
        Some((k, i)) => {
            let t = sp.val_at(i).type1.clone();
            (k, Some(t))
        },
        None => (q.clone(), None),
    };
    let n = ls.len();
    let mut moves: Vec<MoveSlot> = Vec::new();
    let mut evs = EvSet { hp: 0, atk: 0, def: 0, spa: 0, spd: 0, spe: 0 };
    let mut ivs = IvSet { hp: None, atk: None, def: None, spa: None, spd: None, spe: None };
    let mut others: Vec<String> = Vec::new();
    let ghost mut gacc = body_init();
    proof {
        assert(moves@.map_values(|m: MoveSlot| m@).map_values(
            |m: MoveSlotV| MoveLineV { name: m.name, hp_type: m.hp_type },
        ) =~= gacc.moves);
        assert(views(others@) =~= gacc.others);
    }
    let mut i: usize = 1;
    while i < n
        invariant
            1 <= i <= n,
            n == ls@.len(),
            views(ls@) == lines(stanza@),
            fold_body(lines(stanza@), 1, body_init()) == fold_body(lines(stanza@), i as int, gacc),
            gacc.moves == moves@.map_values(|m: MoveSlot| m@).map_values(
                |m: MoveSlotV| MoveLineV { name: m.name, hp_type: m.hp_type },
            ),
            gacc.evs == evs,
            gacc.ivs == ivs,
            gacc.others == views(others@),
            forall|j: int|
                0 <= j < moves@.len() ==> (#[trigger] moves@[j])@.rtype == move_type(
                    mv.keys(),
                    mv.vals(),
                    norm_key_seq(moves@[j]@.name),
                ),
        decreases n - i,
    {
        let ghost pre = gacc;
        let ghost raw = lines(stanza@)[i as int];
        proof {
            assert(raw == ls@[i as int]@);
        }
        match classify_line(ls[i].as_str()) {
            LineClass::MoveL(m) => {
                let ghost mview = m@;
                let mq = norm_key(m.name.as_str());
                let rt: Option<String> = match try_search_like(mv, mq.as_str()) {
                    Some((_k, idx)) => Some(mv.val_at(idx).type1.clone()),
                    None => None,
                };
                let ghost pre_moves = moves@;
                moves.push(MoveSlot { name: m.name, hp_type: m.hp_type, rtype: rt });
                proof {
                    gacc = body_step(pre, raw);
                    assert(moves@.map_values(|mm: MoveSlot| mm@).map_values(
                        |mm: MoveSlotV| MoveLineV { name: mm.name, hp_type: mm.hp_type },
                    ) =~= pre.moves.push(MoveLineV { name: mview.name, hp_type: mview.hp_type }));
                }
            },
            LineClass::AllocL(a) => {
                match a.kind {
                    AllocKind::Ev => {
                        if let Some(v) = a.hp {
                            evs.hp = v;
                        }
                        if let Some(v) = a.atk {
                            evs.atk = v;
                        }
                        if let Some(v) = a.def {
                            evs.def = v;
                        }
                        if let Some(v) = a.spa {
                            evs.spa = v;
                        }
                        if let Some(v) = a.spd {
                            evs.spd = v;
                        }
                        if let Some(v) = a.spe {
                            evs.spe = v;
                        }
                    },
                    AllocKind::Iv => {
                        if let Some(v) = a.hp {
                            ivs.hp = Some(v);
                        }
                        if let Some(v) = a.atk {
                            ivs.atk = Some(v);
                        }
                        if let Some(v) = a.def {
                            ivs.def = Some(v);
                        }
                        if let Some(v) = a.spa {
                            ivs.spa = Some(v);
                        }
                        if let Some(v) = a.spd {
                            ivs.spd = Some(v);
                        }
                        if let Some(v) = a.spe {
                            ivs.spe = Some(v);
                        }
                    },
                }
                proof {
                    gacc = body_step(pre, raw);
                }
            },
            LineClass::Plain => {
                others.push(ls[i].clone());
                proof {
                    gacc = body_step(pre, raw);
                    assert(views(others@) =~= pre.others.push(raw));
                }
            },
        }
        i += 1;
    }
    let shiny = contains_str(stanza, "Shiny: Yes");
    let female = match header.gender {
        Some(Gender::Female) => true,
        _ => false,
    };
    let sprite = get_image(sp, search_key.as_str(), shiny, female);
    let item_icon: Option<String> = match &header.item {
        Some(itname) => Some(get_item_image(it, itname.as_str())),
        None => None,
    };
    ContentEntry::Entity(
        ParsedEntity {
            nickname: header.nickname,
            display_name: header.species,
            search_key,
            rtype,
            gender: header.gender,
            item: header.item,
            moves,
            evs,
            ivs,
            others,
            shiny,
            sprite,
            item_icon,
        },
    )
}

/// Parses a whole paste: one content entry per stanza, in stanza order. A
/// stanza whose first line has no recognizable header is kept as opaque
/// text; every other stanza becomes a structured entity.
pub fn parse_document(
    text: &str,
    sp: &Dict<Mon>,
    mv: &Dict<Move>,
    it: &Dict<ItemRecord>,
) -> (r: Vec<ContentEntry>)
    ensures
        r@.len() == stanzas(text@).len(),
        forall|i: int|
            0 <= i < r@.len() ==> entry_ok((#[trigger] r@[i])@, stanzas(text@)[i], sp, mv, it),
{
    let sts = split_stanzas(text);
    let n = sts.len();
    let mut out: Vec<ContentEntry> = Vec::new();
    let mut i: usize = 0;
    while i < n
        invariant
            n == sts@.len(),
            views(sts@) == stanzas(text@),
            i <= n,
            out@.len() == i,
            forall|j: int|
                0 <= j < i ==> entry_ok((#[trigger] out@[j])@, stanzas(text@)[j], sp, mv, it),
        decreases n - i,
    {
        out.push(assemble_stanza(sts[i].as_str(), sp, mv, it));
        i += 1;
    }
    out
}

/// An input that is one stanza whose first line has no recognizable header
/// produces exactly one opaque-text entry equal to that (trimmed) stanza.
/// The premises on `doc` are what `parse_document` ensures of its result.
pub proof fn lemma_unstructured_input(
    doc: Seq<ContentEntryV>,
    text: Seq<char>,
    sp: &Dict<Mon>,
    mv: &Dict<Move>,
    it: &Dict<ItemRecord>,
)
    requires
        stanzas(text).len() == 1,
        header_spec(lines(stanzas(text)[0])[0]) is None,
        doc.len() == stanzas(text).len(),
        forall|i: int| 0 <= i < doc.len() ==> entry_ok(#[trigger] doc[i], stanzas(text)[i], sp, mv, it),
    ensures
        doc =~= seq![ContentEntryV::Text(stanzas(text)[0])],
{
    assert(entry_ok(doc[0], stanzas(text)[0], sp, mv, it));
}

} // verus!
