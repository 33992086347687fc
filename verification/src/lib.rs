//! A verified palette compiler and its generated access layer.
//!
//! The library turns a hierarchical color-palette schema (named flavors, each
//! holding the same named colors with hex, RGB and HSL forms) into a typed,
//! statically checked artifact: value types, closed enumerations over flavor
//! and color names with string round-trips, exhaustive accessor pairs, and a
//! fully materialized palette value.

pub mod strutil;
pub mod hex;
pub mod ident;
pub mod color;
pub mod error;
pub mod palette;
pub mod schema;
pub mod compile;

pub use color::Color;
pub use color::Hsl;
pub use color::Rgb;
pub use compile::Artifact;
pub use compile::EnumDef;
pub use compile::FlavorData;
pub use compile::Variant;
pub use compile::build_enum;
pub use compile::compile;
pub use compile::to_schema;
pub use error::CompileError;
pub use error::UnknownVariantError;
pub use hex::decode_hex;
pub use hex::encode_hex;
pub use ident::to_camel_ident;
pub use ident::to_snake_ident;
pub use palette::ColorIdent;
pub use palette::Colors;
pub use palette::Flavor;
pub use palette::FlavorIdent;
pub use palette::FlavorName;
pub use palette::Palette;
pub use palette::sample_palette;
pub use schema::ColorEntry;
pub use schema::ColorSchema;
pub use schema::FlavorEntry;
pub use schema::FlavorSchema;
pub use schema::PaletteSchema;
