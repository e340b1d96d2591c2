//! Set parser and asset resolution engine for shared team-export pastes.
//!
//! The library recovers structure from freeform stanza text: it segments a
//! paste into stanzas, tokenizes header and body lines, resolves names
//! against read-only reference dictionaries, and maps resolved entities to
//! sprite paths and icon sprite-sheet offsets.

pub mod assemble;
pub mod dict;
pub mod icon;
pub mod lines;
pub mod resolver;
pub mod segment;
pub mod sprite;
pub mod text;
pub mod token;
