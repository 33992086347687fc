//! The in-memory schema model: an ordered mapping of flavor keys to
//! flavor records, each an ordered mapping of color keys to color
//! records. Order is declaration order and is preserved end-to-end.

use vstd::prelude::*;
use crate::color::Rgb;
use crate::color::Hsl;

verus! {

/// One color's schema record: the raw `#RRGGBB` hex field plus its RGB
/// triple, HSL triple and accent flag.
#[derive(Debug, Clone, PartialEq)]
pub struct ColorSchema {
    pub hex: String,
    pub rgb: Rgb,
    pub hsl: Hsl,
    pub accent: bool,
}

/// An ordered entry of a flavor's color mapping.
#[derive(Debug, Clone, PartialEq)]
pub struct ColorEntry {
    pub key: String,
    pub value: ColorSchema,
}

/// One flavor's schema record: display name, dark flag, ordered colors.
#[derive(Debug, Clone, PartialEq)]
pub struct FlavorSchema {
    pub name: String,
    pub dark: bool,
    pub colors: Vec<ColorEntry>,
}

/// An ordered entry of the palette's flavor mapping.
#[derive(Debug, Clone, PartialEq)]
pub struct FlavorEntry {
    pub key: String,
    pub value: FlavorSchema,
}

/// The whole palette schema, in declaration order.
#[derive(Debug, Clone, PartialEq)]
pub struct PaletteSchema {
    pub flavors: Vec<FlavorEntry>,
}

/// The ordered color keys of one flavor.
pub open spec fn color_keys(f: FlavorSchema) -> Seq<Seq<char>> {
    f.colors@.map(|i: int, e: ColorEntry| e.key@)
}

/// The ordered flavor keys of the schema.
pub open spec fn flavor_keys(p: PaletteSchema) -> Seq<Seq<char>> {
    p.flavors@.map(|i: int, e: FlavorEntry| e.key@)
}

/// The ordered flavor display names of the schema.
pub open spec fn flavor_names(p: PaletteSchema) -> Seq<Seq<char>> {
    p.flavors@.map(|i: int, e: FlavorEntry| e.value.name@)
}

/// The canonical color-key universe: the first flavor's ordered keys.
pub open spec fn canonical_keys(p: PaletteSchema) -> Seq<Seq<char>> {
    color_keys(p.flavors@[0].value)
}

/// Pairwise distinctness of a key list.
pub open spec fn keys_distinct(keys: Seq<Seq<char>>) -> bool {
    forall|i: int, j: int| 0 <= i < j < keys.len() ==> keys[i] != keys[j]
}

/// Two key lists with the same members, order aside.
pub open spec fn same_key_set(a: Seq<Seq<char>>, b: Seq<Seq<char>>) -> bool {
    &&& forall|i: int| 0 <= i < a.len() ==> b.contains(#[trigger] a[i])
    &&& forall|i: int| 0 <= i < b.len() ==> a.contains(#[trigger] b[i])
}

} // verus!
