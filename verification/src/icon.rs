//! The icon resolver: maps an item name to a style descriptor addressing a
//! fixed-size tile in the icon sprite sheet. Lookup is by exact key only;
//! a missing item or a record without a sprite index resolves to a fixed
//! placeholder style.

use vstd::prelude::*;

use crate::dict::{Dict, ItemRecord, first_idx};
use crate::text::{dec_str, u64_dec};

verus! {

/// The vertical pixel offset of a sprite index: its row times one rendered
/// tile (24 logical pixels, doubled).
pub open spec fn top_of(n: nat) -> nat {
    (n / 16) * 48
}

/// The horizontal pixel offset of a sprite index: its column times one
/// rendered tile.
pub open spec fn left_of(n: nat) -> nat {
    (n % 16) * 48
}

/// The style descriptor addressing the tile at the given pixel offsets.
pub open spec fn icon_style(left: nat, top: nat) -> Seq<char> {
    "background: transparent url(\"assets/sprites\") -"@ + dec_str(left) + "px -"@ + dec_str(top)
        + "px no-repeat"@
}

/// The fixed placeholder style for an unknown item or a record without a
/// sprite index.
pub open spec fn icon_placeholder() -> Seq<char> {
    "background: transparent url(\"https://play.pokemonshowdown.com/sprites/pokemonicons-sheet.png?v16\") -360px -2580px no-repeat"@
}

/// The icon style of an item name: exact-key lookup only; a missing key or
/// a record without a sprite index yields the placeholder.
pub open spec fn item_image_spec(
    keys: Seq<Seq<char>>,
    vals: Seq<ItemRecord>,
    item: Seq<char>,
) -> Seq<char> {
    match first_idx(keys, item, 0) {
        Some(i) => match vals[i].sprite_num {
            Some(num) => icon_style(left_of(num as nat), top_of(num as nat)),
            None => icon_placeholder(),
        },
        None => icon_placeholder(),
    }
}

fn placeholder_style() -> (r: String)
    ensures
        r@ == icon_placeholder(),
{
    String::from_str(
        "background: transparent url(\"https://play.pokemonshowdown.com/sprites/pokemonicons-sheet.png?v16\") -360px -2580px no-repeat",
    )
}

/// Resolves an item name to its sprite-sheet style descriptor.
pub fn get_item_image(map: &Dict<ItemRecord>, item: &str) -> (r: String)
    ensures
        r@ == item_image_spec(map.keys(), map.vals(), item@),
{
    let i = match map.find(item) {
        Some(i) => i,
        None => {
            return placeholder_style();
        },
    };
    let num = match map.val_at(i).sprite_num {
        Some(num) => num,
        None => {
            return placeholder_style();
        },
    };
    let top: u64 = ((num as u64) / 16) * 48;
    let left: u64 = ((num as u64) % 16) * 48;
    let mut s = String::from_str("background: transparent url(\"assets/sprites\") -");
    s.append(u64_dec(left).as_str());
    s.append("px -");
    s.append(u64_dec(top).as_str());
    s.append("px no-repeat");
    s
}

/// The icon offset scales linearly with the sprite index: sixteen indices
/// further is exactly one tile lower in the same column, and index zero
/// sits at the sheet's origin.
pub proof fn lemma_icon_offset_linear(n: nat)
    ensures
        top_of(n + 16) == top_of(n) + 48,
        left_of(n + 16) == left_of(n),
        top_of(0) == 0,
        left_of(0) == 0,
{
    assert((n + 16) / 16 == n / 16 + 1) by (nonlinear_arith);
    assert((n + 16) % 16 == n % 16) by (nonlinear_arith);
}

} // verus!
