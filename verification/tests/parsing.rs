//! Tests for segmentation, line tokenizing and document assembly.

use pokebin::assemble::{parse_document, ContentEntry, EvSet, IvSet};
use pokebin::dict::{Dict, ItemRecord, Mon, Move};
use pokebin::lines::{classify_line, parse_header, AllocKind, Gender, LineClass};
use pokebin::segment::split_stanzas;

fn species_dict() -> Dict<Mon> {
    let mut d: Dict<Mon> = Dict::new();
    d.insert(
        "garchomp".to_string(),
        Mon {
            id: 445,
            type1: "ground".to_string(),
            type2: "dragon".to_string(),
            has_shiny: true,
            has_female: true,
        },
    );
    d
}

fn move_dict() -> Dict<Move> {
    let mut d: Dict<Move> = Dict::new();
    d.insert(
        "earthquake".to_string(),
        Move {
            name: "earthquake".to_string(),
            id: 89,
            type1: "ground".to_string(),
        },
    );
    d.insert(
        "stone-edge".to_string(),
        Move {
            name: "stone-edge".to_string(),
            id: 444,
            type1: "rock".to_string(),
        },
    );
    d
}

fn item_dict() -> Dict<ItemRecord> {
    let mut d: Dict<ItemRecord> = Dict::new();
    d.insert("Black Sludge".to_string(), ItemRecord { sprite_num: Some(17) });
    d
}

#[test]
fn splits_stanzas_and_preserves_order() {
    let text = "first stanza\nline two\n\nsecond stanza\n\n\n\nthird";
    let st = split_stanzas(text);
    assert_eq!(st.len(), 3);
    assert_eq!(st[0], "first stanza\nline two");
    assert_eq!(st[1], "second stanza");
    assert_eq!(st[2], "third");
}

#[test]
fn empty_input_yields_empty_document() {
    let sp = species_dict();
    let mv = move_dict();
    let it = item_dict();
    let doc = parse_document("", &sp, &mv, &it);
    assert_eq!(doc.len(), 0);
    let doc = parse_document("  \n\n   \n\n", &sp, &mv, &it);
    assert_eq!(doc.len(), 0);
}

#[test]
fn header_form_a_nickname() {
    let h = parse_header("Chompy (Garchomp) (F) @ Rocky Helmet").expect("header");
    assert_eq!(h.nickname.as_deref(), Some("Chompy"));
    assert_eq!(h.species, "Garchomp");
    assert_eq!(h.gender, Some(Gender::Female));
    assert_eq!(h.item.as_deref(), Some("Rocky Helmet"));
}

#[test]
fn header_form_b_bare_species() {
    let h = parse_header("Mr. Mime (M)").expect("header");
    assert_eq!(h.nickname, None);
    assert_eq!(h.species, "Mr. Mime");
    assert_eq!(h.gender, Some(Gender::Male));
    assert_eq!(h.item, None);
}

#[test]
fn header_rejects_free_text() {
    assert!(parse_header("hello there, this is chat").is_none());
    assert!(parse_header("").is_none());
    assert!(parse_header("lowercase start").is_none());
}

#[test]
fn header_species_with_punctuation() {
    let h = parse_header("Type: Null").expect("header");
    assert_eq!(h.species, "Type: Null");
    let h = parse_header("Ho-Oh").expect("header");
    assert_eq!(h.species, "Ho-Oh");
    let h = parse_header("Farfetch'd (M)").expect("header");
    assert_eq!(h.species, "Farfetch'd");
    assert_eq!(h.gender, Some(Gender::Male));
}

#[test]
fn header_nickname_may_contain_parentheses() {
    let h = parse_header("My (Cool) Nick (Garchomp) (F) @ Rocky Helmet").expect("header");
    assert_eq!(h.nickname.as_deref(), Some("My (Cool) Nick"));
    assert_eq!(h.species, "Garchomp");
    assert_eq!(h.gender, Some(Gender::Female));
    assert_eq!(h.item.as_deref(), Some("Rocky Helmet"));
}

#[test]
fn header_item_must_follow_gender() {
    // an item marker before the gender marker fits no header form
    assert!(parse_header("Garchomp @ Rocky Helmet (M)").is_none());
}

#[test]
fn header_trailing_spaces_tolerated() {
    let h = parse_header("Garchomp @ Rocky Helmet   ").expect("header");
    assert_eq!(h.species, "Garchomp");
    assert_eq!(h.item.as_deref(), Some("Rocky Helmet"));
}

#[test]
fn move_line_with_hidden_power_type() {
    match classify_line("- Hidden Power [Ice]") {
        LineClass::MoveL(m) => {
            assert_eq!(m.name, "Hidden Power");
            assert_eq!(m.hp_type.as_deref(), Some("Ice"));
        }
        _ => panic!("expected a move line"),
    }
}

#[test]
fn move_line_alternates_recognized_not_recorded() {
    match classify_line("- Surf / Thunderbolt / Ice Beam") {
        LineClass::MoveL(m) => {
            assert_eq!(m.name, "Surf");
            assert_eq!(m.hp_type, None);
        }
        _ => panic!("expected a move line"),
    }
}

#[test]
fn move_line_requires_leading_dash() {
    assert!(matches!(classify_line("Surf"), LineClass::Plain));
    assert!(matches!(classify_line("- lowercase"), LineClass::Plain));
}

#[test]
fn ev_line_fixed_order_slots() {
    match classify_line("EVs: 252 HP / 252 Atk / 4 SpD") {
        LineClass::AllocL(a) => {
            assert!(matches!(a.kind, AllocKind::Ev));
            assert_eq!(a.hp, Some(252));
            assert_eq!(a.atk, Some(252));
            assert_eq!(a.def, None);
            assert_eq!(a.spa, None);
            assert_eq!(a.spd, Some(4));
            assert_eq!(a.spe, None);
        }
        _ => panic!("expected an allocation line"),
    }
}

#[test]
fn iv_line_sets_only_present_slots() {
    match classify_line("IVs: 0 Atk / 30 Spe") {
        LineClass::AllocL(a) => {
            assert!(matches!(a.kind, AllocKind::Iv));
            assert_eq!(a.hp, None);
            assert_eq!(a.atk, Some(0));
            assert_eq!(a.spe, Some(30));
        }
        _ => panic!("expected an allocation line"),
    }
}

#[test]
fn alloc_out_of_order_is_unclassified() {
    assert!(matches!(classify_line("EVs: 252 Spe / 252 HP"), LineClass::Plain));
}

#[test]
fn alloc_overflow_value_is_unclassified() {
    assert!(matches!(classify_line("EVs: 99999999999 HP"), LineClass::Plain));
    match classify_line("EVs: 4294967295 HP") {
        LineClass::AllocL(a) => assert_eq!(a.hp, Some(4294967295)),
        _ => panic!("largest fitting value must still classify"),
    }
}

#[test]
fn garchomp_stanza_end_to_end() {
    let sp = species_dict();
    let mv = move_dict();
    let it = item_dict();
    let text = "Garchomp @ Rocky Helmet\n- Earthquake\n- Stone Edge\nEVs: 252 HP / 252 Atk / 4 SpD";
    let doc = parse_document(text, &sp, &mv, &it);
    assert_eq!(doc.len(), 1);
    match &doc[0] {
        ContentEntry::Entity(e) => {
            assert_eq!(e.nickname, None);
            assert_eq!(e.display_name, "Garchomp");
            assert_eq!(e.search_key, "garchomp");
            assert_eq!(e.rtype.as_deref(), Some("ground"));
            assert_eq!(e.item.as_deref(), Some("Rocky Helmet"));
            assert_eq!(e.moves.len(), 2);
            assert_eq!(e.moves[0].name, "Earthquake");
            assert_eq!(e.moves[0].rtype.as_deref(), Some("ground"));
            assert_eq!(e.moves[1].name, "Stone Edge");
            assert_eq!(e.moves[1].rtype.as_deref(), Some("rock"));
            assert_eq!(
                e.evs,
                EvSet { hp: 252, atk: 252, def: 0, spa: 0, spd: 4, spe: 0 }
            );
            assert_eq!(
                e.ivs,
                IvSet { hp: None, atk: None, def: None, spa: None, spd: None, spe: None }
            );
            assert!(e.others.is_empty());
            assert!(!e.shiny);
        }
        ContentEntry::Text(_) => panic!("expected a structured entity"),
    }
}

#[test]
fn free_chat_is_opaque() {
    let sp = species_dict();
    let mv = move_dict();
    let it = item_dict();
    let text = "  just some chat text\nwith a second line  ";
    let doc = parse_document(text, &sp, &mv, &it);
    assert_eq!(doc.len(), 1);
    match &doc[0] {
        ContentEntry::Text(t) => {
            assert_eq!(t, "just some chat text\nwith a second line");
        }
        ContentEntry::Entity(_) => panic!("expected opaque text"),
    }
}

#[test]
fn shiny_marker_detected_in_stanza() {
    let sp = species_dict();
    let mv = move_dict();
    let it = item_dict();
    let text = "Garchomp\nShiny: Yes\n- Earthquake";
    let doc = parse_document(text, &sp, &mv, &it);
    assert_eq!(doc.len(), 1);
    match &doc[0] {
        ContentEntry::Entity(e) => {
            assert!(e.shiny);
            // the marker line itself is no move or allocation line
            assert_eq!(e.others.len(), 1);
            assert_eq!(e.others[0], "Shiny: Yes");
        }
        ContentEntry::Text(_) => panic!("expected a structured entity"),
    }
}

#[test]
fn multiple_stanzas_preserve_order() {
    let sp = species_dict();
    let mv = move_dict();
    let it = item_dict();
    let text = "Garchomp\n\nsome chat\n\nGarchomp (F)";
    let doc = parse_document(text, &sp, &mv, &it);
    assert_eq!(doc.len(), 3);
    assert!(matches!(&doc[0], ContentEntry::Entity(_)));
    assert!(matches!(&doc[1], ContentEntry::Text(_)));
    match &doc[2] {
        ContentEntry::Entity(e) => assert_eq!(e.gender, Some(Gender::Female)),
        _ => panic!("expected an entity"),
    }
}

#[test]
fn unresolved_species_keeps_normalized_query() {
    let sp = species_dict();
    let mv = move_dict();
    let it = item_dict();
    let doc = parse_document("Tapu Koko", &sp, &mv, &it);
    assert_eq!(doc.len(), 1);
    match &doc[0] {
        ContentEntry::Entity(e) => {
            assert_eq!(e.display_name, "Tapu Koko");
            assert_eq!(e.search_key, "tapu-koko");
            assert_eq!(e.rtype, None);
            assert_eq!(e.sprite, "home/0.png");
        }
        _ => panic!("expected an entity"),
    }
}
