//! The generated access layer for the sample palette: closed enumerations
//! with string round-trips, exhaustive enum-indexed accessors, named
//! accessors, and the materialized palette value.
//!
//! The sample dataset has a light flavor `latte` and a dark flavor
//! `mocha`, each providing the single color `red`.

use vstd::prelude::*;
use crate::color::Color;
use crate::color::Rgb;
use crate::color::Hsl;
use crate::error::UnknownVariantError;
use crate::strutil::str_eq;

verus! {

/// Flavor display names, in declaration order.
#[derive(Debug, Clone, Copy, PartialEq, Eq, PartialOrd, Ord, Hash, Structural)]
pub enum FlavorName {
    Latte,
    Mocha,
}

/// Flavor schema keys, in declaration order.
#[derive(Debug, Clone, Copy, PartialEq, Eq, PartialOrd, Ord, Hash, Structural)]
pub enum FlavorIdent {
    Latte,
    Mocha,
}

/// Color schema keys, in declaration order.
#[derive(Debug, Clone, Copy, PartialEq, Eq, PartialOrd, Ord, Hash, Structural)]
pub enum ColorIdent {
    Red,
}

/// All colors of one flavor, one field per canonical color key.
#[derive(Debug, Clone, Copy, PartialEq, Eq, Structural)]
pub struct Colors {
    pub red: Color,
}

/// One flavor: its display name, dark flag, and colors.
#[derive(Debug, Clone, Copy, PartialEq, Eq, Structural)]
pub struct Flavor {
    pub name: FlavorName,
    pub dark: bool,
    pub colors: Colors,
}

/// The whole palette, one field per flavor key.
#[derive(Debug, Clone, Copy, PartialEq, Eq, Structural)]
pub struct Palette {
    pub latte: Flavor,
    pub mocha: Flavor,
}

impl FlavorName {
    /// The exact original display-name string of this variant.
    pub open spec fn spec_text(self) -> Seq<char> {
        match self {
            FlavorName::Latte => "Latte"@,
            FlavorName::Mocha => "Mocha"@,
        }
    }

    /// The variant a display-name string denotes, if any.
    pub open spec fn spec_parse(s: Seq<char>) -> Option<FlavorName> {
        if s == "Latte"@ {
            Some(FlavorName::Latte)
        } else if s == "Mocha"@ {
            Some(FlavorName::Mocha)
        } else {
            None
        }
    }

    /// Formats the variant back to its original display name. Total.
    pub fn text(&self) -> (r: &'static str)
        ensures
            r@ == self.spec_text(),
    {
        match self {
            FlavorName::Latte => "Latte",
            FlavorName::Mocha => "Mocha",
        }
    }

    /// Parses a display-name string; fails exactly on strings that
    /// name no variant.
    pub fn parse(s: &str) -> (r: Result<FlavorName, UnknownVariantError>)
        ensures
            match r {
                Ok(v) => Self::spec_parse(s@) == Some(v),
                Err(e) => Self::spec_parse(s@) is None && e.input@ == s@,
            },
    {
        if str_eq(s, "Latte") {
            Ok(FlavorName::Latte)
        } else if str_eq(s, "Mocha") {
            Ok(FlavorName::Mocha)
        } else {
            Err(UnknownVariantError { input: s.to_owned() })
        }
    }
}

impl FlavorIdent {
    /// The exact original schema key of this variant.
    pub open spec fn spec_text(self) -> Seq<char> {
        match self {
            FlavorIdent::Latte => "latte"@,
            FlavorIdent::Mocha => "mocha"@,
        }
    }

    /// The variant a schema key denotes, if any.
    pub open spec fn spec_parse(s: Seq<char>) -> Option<FlavorIdent> {
        if s == "latte"@ {
            Some(FlavorIdent::Latte)
        } else if s == "mocha"@ {
            Some(FlavorIdent::Mocha)
        } else {
            None
        }
    }

    /// Formats the variant back to its original schema key. Total.
    pub fn text(&self) -> (r: &'static str)
        ensures
            r@ == self.spec_text(),
    {
        match self {
            FlavorIdent::Latte => "latte",
            FlavorIdent::Mocha => "mocha",
        }
    }

    /// Parses a schema key; fails exactly on strings that name no
    /// variant.
    pub fn parse(s: &str) -> (r: Result<FlavorIdent, UnknownVariantError>)
        ensures
            match r {
                Ok(v) => Self::spec_parse(s@) == Some(v),
                Err(e) => Self::spec_parse(s@) is None && e.input@ == s@,
            },
    {
        if str_eq(s, "latte") {
            Ok(FlavorIdent::Latte)
        } else if str_eq(s, "mocha") {
            Ok(FlavorIdent::Mocha)
        } else {
            Err(UnknownVariantError { input: s.to_owned() })
        }
    }
}

impl ColorIdent {
    /// The exact original schema key of this variant.
    pub open spec fn spec_text(self) -> Seq<char> {
        match self {
            ColorIdent::Red => "red"@,
        }
    }

    /// The variant a schema key denotes, if any.
    pub open spec fn spec_parse(s: Seq<char>) -> Option<ColorIdent> {
        if s == "red"@ {
            Some(ColorIdent::Red)
        } else {
            None
        }
    }

    /// Formats the variant back to its original schema key. Total.
    pub fn text(&self) -> (r: &'static str)
        ensures
            r@ == self.spec_text(),
    {
        match self {
            ColorIdent::Red => "red",
        }
    }

    /// Parses a schema key; fails exactly on strings that name no
    /// variant.
    pub fn parse(s: &str) -> (r: Result<ColorIdent, UnknownVariantError>)
        ensures
            match r {
                Ok(v) => Self::spec_parse(s@) == Some(v),
                Err(e) => Self::spec_parse(s@) is None && e.input@ == s@,
            },
    {
        if str_eq(s, "red") {
            Ok(ColorIdent::Red)
        } else {
            Err(UnknownVariantError { input: s.to_owned() })
        }
    }
}

/// Law: round-trip identity of the enum string associations. Parsing a
/// formatted variant gives the variant back, and formatting a parsed
/// valid key gives the key back, for all three enumerations.
pub proof fn lemma_enum_round_trip(n: FlavorName, f: FlavorIdent, c: ColorIdent, s: Seq<char>)
    ensures
        FlavorName::spec_parse(n.spec_text()) == Some(n),
        FlavorIdent::spec_parse(f.spec_text()) == Some(f),
        ColorIdent::spec_parse(c.spec_text()) == Some(c),
        FlavorName::spec_parse(s) matches Some(v) ==> v.spec_text() == s,
        FlavorIdent::spec_parse(s) matches Some(v) ==> v.spec_text() == s,
        ColorIdent::spec_parse(s) matches Some(v) ==> v.spec_text() == s,
{
    reveal_strlit("Latte");
    reveal_strlit("Mocha");
    reveal_strlit("latte");
    reveal_strlit("mocha");
    reveal_strlit("red");
    assert("Latte"@[0] != "Mocha"@[0]);
    assert("latte"@[0] != "mocha"@[0]);
}

impl Flavor {
    pub fn new(name: FlavorName, dark: bool, red: Color) -> (f: Self)
        ensures
            f == (Flavor { name, dark, colors: Colors { red } }),
    {
        Flavor { name, dark, colors: Colors { red } }
    }

    pub fn name(&self) -> (v: FlavorName)
        ensures
            v == self.name,
    {
        self.name
    }

    pub fn dark(&self) -> (v: bool)
        ensures
            v == self.dark,
    {
        self.dark
    }

    /// The field a color key selects.
    pub open spec fn spec_color(self, c: ColorIdent) -> Color {
        match c {
            ColorIdent::Red => self.colors.red,
        }
    }

    /// The flavor with the selected color field replaced.
    pub open spec fn spec_with_color(self, c: ColorIdent, v: Color) -> Flavor {
        match c {
            ColorIdent::Red => Flavor { colors: Colors { red: v }, ..self },
        }
    }

    /// Named read accessor for the `red` color.
    pub fn red(&self) -> (v: Color)
        ensures
            v == self.colors.red,
    {
        self.colors.red
    }

    /// Named mutable accessor for the `red` color.
    pub fn red_mut(&mut self) -> (m: &mut Color)
        ensures
            *m == old(self).colors.red,
            *final(self) == old(self).spec_with_color(ColorIdent::Red, *final(m)),
    {
        &mut self.colors.red
    }

    /// Enum-indexed read accessor: an exhaustive case analysis over
    /// every color key, with no default arm.
    pub fn color(&self, c: ColorIdent) -> (v: Color)
        ensures
            v == self.spec_color(c),
    {
        match c {
            ColorIdent::Red => self.red(),
        }
    }

    /// Enum-indexed mutable accessor, exhaustive over every color key.
    pub fn color_mut(&mut self, c: ColorIdent) -> (m: &mut Color)
        ensures
            *m == old(self).spec_color(c),
            *final(self) == old(self).spec_with_color(c, *final(m)),
    {
        match c {
            ColorIdent::Red => self.red_mut(),
        }
    }
}

impl Palette {
    pub fn new(latte: Flavor, mocha: Flavor) -> (p: Self)
        ensures
            p == (Palette { latte, mocha }),
    {
        Palette { latte, mocha }
    }

    /// The field a flavor key selects.
    pub open spec fn spec_flavor(self, f: FlavorIdent) -> Flavor {
        match f {
            FlavorIdent::Latte => self.latte,
            FlavorIdent::Mocha => self.mocha,
        }
    }

    /// The palette with the selected flavor field replaced.
    pub open spec fn spec_with_flavor(self, f: FlavorIdent, v: Flavor) -> Palette {
        match f {
            FlavorIdent::Latte => Palette { latte: v, ..self },
            FlavorIdent::Mocha => Palette { mocha: v, ..self },
        }
    }

    /// Named read accessor for the `latte` flavor.
    pub fn latte(&self) -> (v: Flavor)
        ensures
            v == self.latte,
    {
        self.latte
    }

    /// Named read accessor for the `mocha` flavor.
    pub fn mocha(&self) -> (v: Flavor)
        ensures
            v == self.mocha,
    {
        self.mocha
    }

    /// Named mutable accessor for the `latte` flavor.
    pub fn latte_mut(&mut self) -> (m: &mut Flavor)
        ensures
            *m == old(self).latte,
            *final(self) == old(self).spec_with_flavor(FlavorIdent::Latte, *final(m)),
    {
        &mut self.latte
    }

    /// Named mutable accessor for the `mocha` flavor.
    pub fn mocha_mut(&mut self) -> (m: &mut Flavor)
        ensures
            *m == old(self).mocha,
            *final(self) == old(self).spec_with_flavor(FlavorIdent::Mocha, *final(m)),
    {
        &mut self.mocha
    }

    /// Enum-indexed read accessor: an exhaustive case analysis over
    /// every flavor key, with no default arm.
    pub fn flavor(&self, f: FlavorIdent) -> (v: Flavor)
        ensures
            v == self.spec_flavor(f),
    {
        match f {
            FlavorIdent::Latte => self.latte(),
            FlavorIdent::Mocha => self.mocha(),
        }
    }

    /// Enum-indexed mutable accessor, exhaustive over every flavor key.
    pub fn flavor_mut(&mut self, f: FlavorIdent) -> (m: &mut Flavor)
        ensures
            *m == old(self).spec_flavor(f),
            *final(self) == old(self).spec_with_flavor(f, *final(m)),
    {
        match f {
            FlavorIdent::Latte => self.latte_mut(),
            FlavorIdent::Mocha => self.mocha_mut(),
        }
    }
}

/// Law: dual-indexing equivalence. For every palette value, enum-indexed
/// access selects exactly the field the named accessors read, at both
/// levels, so the two access styles can never diverge.
pub proof fn lemma_dual_indexing(p: Palette, f: FlavorIdent, c: ColorIdent)
    ensures
        p.spec_flavor(FlavorIdent::Latte) == p.latte,
        p.spec_flavor(FlavorIdent::Mocha) == p.mocha,
        p.spec_flavor(f).spec_color(ColorIdent::Red) == p.spec_flavor(f).colors.red,
{
}

/// The materialized sample palette value: the light flavor `latte` and
/// the dark flavor `mocha`, each with its `red` color. Every color's
/// packed hex value equals the value composed from its RGB triple.
pub fn sample_palette() -> (p: Palette)
    ensures
        p.latte.name == FlavorName::Latte,
        p.latte.dark == false,
        p.latte.colors.red == (Color {
            hex: 0xd20f39,
            rgb: Rgb { r: 210, g: 15, b: 57 },
            hsl: Hsl { h: 0, s: 0, l: 0 },
            accent: true,
        }),
        p.mocha.name == FlavorName::Mocha,
        p.mocha.dark == true,
        p.mocha.colors.red == (Color {
            hex: 0xf38ba8,
            rgb: Rgb { r: 243, g: 139, b: 168 },
            hsl: Hsl { h: 0, s: 0, l: 0 },
            accent: true,
        }),
        crate::color::rgb_value(p.latte.colors.red.rgb) == p.latte.colors.red.hex as nat,
        crate::color::rgb_value(p.mocha.colors.red.rgb) == p.mocha.colors.red.hex as nat,
{
    let latte_red = Color::new(0xd20f39, Rgb::new(210, 15, 57), Hsl::new(0, 0, 0), true);
    let mocha_red = Color::new(0xf38ba8, Rgb::new(243, 139, 168), Hsl::new(0, 0, 0), true);
    let latte = Flavor::new(FlavorName::Latte, false, latte_red);
    let mocha = Flavor::new(FlavorName::Mocha, true, mocha_red);
    Palette::new(latte, mocha)
}

} // verus!
