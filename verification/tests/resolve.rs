//! Tests for dictionary resolution, sprite-path resolution and icon
//! sprite-sheet offsets.

use pokebin::dict::{Dict, ItemRecord, Mon};
use pokebin::icon::get_item_image;
use pokebin::resolver::{search_like, try_search_like};
use pokebin::sprite::{choose_existing, get_image, sprite_plan, verify_map};
use pokebin::text::{norm_key, u64_dec};

fn mon(id: u32) -> Mon {
    Mon {
        id,
        type1: "normal".to_string(),
        type2: String::new(),
        has_shiny: true,
        has_female: false,
    }
}

fn sample_dict() -> Dict<Mon> {
    let mut d: Dict<Mon> = Dict::new();
    d.insert("bulbasaur".to_string(), mon(1));
    d.insert("charizard".to_string(), mon(6));
    d.insert("unown".to_string(), mon(201));
    d.insert("unown-question".to_string(), mon(201));
    d.insert("floette".to_string(), mon(670));
    d.insert("unfezant".to_string(), mon(521));
    d
}

#[test]
fn resolve_exact_key() {
    let d = sample_dict();
    let (key, idx) = search_like(&d, "charizard").expect("hit");
    assert_eq!(key, "charizard");
    assert_eq!(idx, 1);
}

#[test]
fn resolve_wildcard_percent() {
    let d = sample_dict();
    let (key, idx) = search_like(&d, "unown-q%").expect("hit");
    assert_eq!(key, "unown-question");
    assert_eq!(idx, 3);
}

#[test]
fn resolve_wildcard_case_insensitive_prefix() {
    let d = sample_dict();
    let (key, _) = search_like(&d, "CHARI%").expect("hit");
    assert_eq!(key, "charizard");
}

#[test]
fn resolve_wildcard_underscore_single_char() {
    let d = sample_dict();
    let (key, _) = search_like(&d, "bulbasau_").expect("hit");
    assert_eq!(key, "bulbasaur");
}

#[test]
fn resolve_wildcard_tie_goes_to_enumeration_order() {
    let d = sample_dict();
    // both unown entries match; the first in insertion order wins
    let (key, idx) = search_like(&d, "unow%").expect("hit");
    assert_eq!(key, "unown");
    assert_eq!(idx, 2);
}

#[test]
fn resolve_hyphen_prefix_reports_original_query() {
    let d = sample_dict();
    // a typo with a hyphen: no exact, no wildcard, but the part before the
    // first hyphen is a key; the reported key is the original query
    let (key, idx) = search_like(&d, "unown-quesiton").expect("hit");
    assert_eq!(key, "unown-quesiton");
    assert_eq!(idx, 2);
}

#[test]
fn resolve_no_hyphen_no_match_is_none() {
    let d = sample_dict();
    assert!(search_like(&d, "qwerty").is_none());
}

#[test]
fn resolve_is_repeatable() {
    let d = sample_dict();
    let a = search_like(&d, "unown-quesiton");
    let b = search_like(&d, "unown-quesiton");
    assert_eq!(a, b);
}

#[test]
fn try_resolve_rejects_broken_pattern() {
    let d = sample_dict();
    // an unbalanced parenthesis does not compile as a wildcard pattern
    assert!(try_search_like(&d, "(oops").is_none());
    let r = try_search_like(&d, "charizard").expect("hit");
    assert_eq!(r.0, "charizard");
}

#[test]
fn search_key_normalization() {
    assert_eq!(norm_key("Tapu Koko"), "tapu-koko");
    assert_eq!(norm_key("Mr. Mime"), "mr.-mime");
    assert_eq!(norm_key("Farfetch'd"), "farfetch'd");
}

#[test]
fn decimal_rendering() {
    assert_eq!(u64_dec(0), "0");
    assert_eq!(u64_dec(10034), "10034");
    assert_eq!(u64_dec(4294967295), "4294967295");
}

#[test]
fn direct_key_shiny_cascade() {
    let d = sample_dict();
    let plan = sprite_plan(&d, "charizard", true, false, 0);
    assert_eq!(plan.candidates, vec!["home/shiny/6.png", "home/6.png"]);
    assert_eq!(plan.fallback, "home/0.png");
    // the shiny file exists: resolved under the shiny segment
    assert_eq!(choose_existing(&plan, &vec![true, true]), "home/shiny/6.png");
    // the shiny file is absent: falls back to the bare id
    assert_eq!(choose_existing(&plan, &vec![false, true]), "home/6.png");
    // nothing exists: the placeholder
    assert_eq!(choose_existing(&plan, &vec![false, false]), "home/0.png");
}

#[test]
fn direct_key_female_cascade() {
    let d = sample_dict();
    let plan = sprite_plan(&d, "unfezant", false, true, 0);
    assert_eq!(plan.candidates, vec!["home/female/521.png", "home/521.png"]);
    assert_eq!(choose_existing(&plan, &vec![true, true]), "home/female/521.png");
}

#[test]
fn both_flags_strip_female_then_shiny() {
    let d = sample_dict();
    let plan = sprite_plan(&d, "charizard", true, true, 0);
    assert_eq!(
        plan.candidates,
        vec!["home/shiny/female/6.png", "home/shiny/6.png", "home/6.png"]
    );
}

#[test]
fn variant_suffix_uses_root_id() {
    let d = sample_dict();
    let plan = sprite_plan(&d, "floette-white", false, false, 0);
    assert_eq!(plan.candidates, vec!["home/670-white.png", "home/670.png"]);
    assert_eq!(choose_existing(&plan, &vec![true, true]), "home/670-white.png");
    // no distinct artwork for the variant: the bare species file
    assert_eq!(choose_existing(&plan, &vec![false, true]), "home/670.png");
}

#[test]
fn unknown_species_resolves_to_placeholder() {
    let d = sample_dict();
    assert_eq!(get_image(&d, "qwerty", false, false), "home/0.png");
    // a hyphenated query whose root is unknown falls through as well
    assert_eq!(get_image(&d, "qwerty-form", true, false), "home/0.png");
}

#[test]
fn deco_family_shiny_path() {
    let d = sample_dict();
    let decorations = [
        "berry-sweet",
        "clove-sweet",
        "flower-sweet",
        "love-sweet",
        "ribbon-sweet",
        "star-sweet",
        "strawberry-sweet",
    ];
    let r = get_image(&d, "alcremie-mint-cream", true, false);
    assert!(decorations
        .iter()
        .any(|dec| r == format!("home/shiny/869-{}.png", dec)));
}

#[test]
fn deco_family_flavor_path() {
    let d = sample_dict();
    let r = get_image(&d, "alcremie-matcha-cream", false, false);
    assert!(r.starts_with("home/869-matcha-cream-"));
    assert!(r.ends_with(".png"));
    let r = get_image(&d, "alcremie", false, false);
    assert!(r.starts_with("home/869-vanilla-cream-"));
}

#[test]
fn icon_known_item_offsets() {
    let mut d: Dict<ItemRecord> = Dict::new();
    d.insert("Black Sludge".to_string(), ItemRecord { sprite_num: Some(17) });
    d.insert("Leftovers".to_string(), ItemRecord { sprite_num: None });
    let r = get_item_image(&d, "Black Sludge");
    assert_eq!(
        r,
        "background: transparent url(\"assets/sprites\") -48px -48px no-repeat"
    );
}

#[test]
fn icon_index_zero_is_origin() {
    let mut d: Dict<ItemRecord> = Dict::new();
    d.insert("Oran Berry".to_string(), ItemRecord { sprite_num: Some(0) });
    d.insert("Sitrus Berry".to_string(), ItemRecord { sprite_num: Some(16) });
    let r0 = get_item_image(&d, "Oran Berry");
    assert_eq!(
        r0,
        "background: transparent url(\"assets/sprites\") -0px -0px no-repeat"
    );
    // sixteen indices further: one tile (48px) lower, same column
    let r16 = get_item_image(&d, "Sitrus Berry");
    assert_eq!(
        r16,
        "background: transparent url(\"assets/sprites\") -0px -48px no-repeat"
    );
}

#[test]
fn icon_missing_item_or_index_is_placeholder() {
    let mut d: Dict<ItemRecord> = Dict::new();
    d.insert("Leftovers".to_string(), ItemRecord { sprite_num: None });
    let placeholder = "background: transparent url(\"https://play.pokemonshowdown.com/sprites/pokemonicons-sheet.png?v16\") -360px -2580px no-repeat";
    assert_eq!(get_item_image(&d, "lucky-egg"), placeholder);
    assert_eq!(get_item_image(&d, "Leftovers"), placeholder);
}

#[test]
fn verify_map_drops_entries_without_images() {
    // no asset store is mounted here, so every entry is dropped
    let mut d = sample_dict();
    verify_map(&mut d);
    assert_eq!(d.len(), 0);
}

#[test]
fn insert_rejects_duplicate_keys() {
    let mut d: Dict<Mon> = Dict::new();
    assert!(d.insert("unown".to_string(), mon(201)));
    assert!(!d.insert("unown".to_string(), mon(202)));
    assert_eq!(d.len(), 1);
    let (_, idx) = search_like(&d, "unown").expect("hit");
    assert_eq!(d.val_at(idx).id, 201);
}
