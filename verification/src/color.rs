//! The palette value types: plain, copyable aggregates.

use vstd::prelude::*;
use crate::hex::spec_hex_string;
use crate::hex::encode_hex;

verus! {

/// A red/green/blue triple, one eight-bit channel each.
#[derive(Debug, Clone, Copy, PartialEq, Eq, Structural)]
pub struct Rgb {
    pub r: u8,
    pub g: u8,
    pub b: u8,
}

/// The 24-bit value `0xRRGGBB` composed from an RGB triple.
pub open spec fn rgb_value(c: Rgb) -> nat {
    c.r as nat * 0x10000 + c.g as nat * 0x100 + c.b as nat
}

impl Rgb {
    pub fn new(r: u8, g: u8, b: u8) -> (c: Self)
        ensures
            c == (Rgb { r, g, b }),
    {
        Rgb { r, g, b }
    }

    pub fn r(&self) -> (v: u8)
        ensures
            v == self.r,
    {
        self.r
    }

    pub fn g(&self) -> (v: u8)
        ensures
            v == self.g,
    {
        self.g
    }

    pub fn b(&self) -> (v: u8)
        ensures
            v == self.b,
    {
        self.b
    }

    pub fn r_mut(&mut self) -> (m: &mut u8)
        ensures
            *m == old(self).r,
            *final(self) == (Rgb { r: *final(m), ..*old(self) }),
    {
        &mut self.r
    }

    pub fn g_mut(&mut self) -> (m: &mut u8)
        ensures
            *m == old(self).g,
            *final(self) == (Rgb { g: *final(m), ..*old(self) }),
    {
        &mut self.g
    }

    pub fn b_mut(&mut self) -> (m: &mut u8)
        ensures
            *m == old(self).b,
            *final(self) == (Rgb { b: *final(m), ..*old(self) }),
    {
        &mut self.b
    }
}

/// A hue/saturation/lightness triple. Each component is the raw 32-bit
/// pattern of the schema's numeric value; the library carries these
/// patterns through unchanged and never interprets them numerically.
#[derive(Debug, Clone, Copy, PartialEq, Eq, Structural)]
pub struct Hsl {
    pub h: u32,
    pub s: u32,
    pub l: u32,
}

impl Hsl {
    pub fn new(h: u32, s: u32, l: u32) -> (c: Self)
        ensures
            c == (Hsl { h, s, l }),
    {
        Hsl { h, s, l }
    }

    pub fn h(&self) -> (v: u32)
        ensures
            v == self.h,
    {
        self.h
    }

    pub fn s(&self) -> (v: u32)
        ensures
            v == self.s,
    {
        self.s
    }

    pub fn l(&self) -> (v: u32)
        ensures
            v == self.l,
    {
        self.l
    }

    pub fn h_mut(&mut self) -> (m: &mut u32)
        ensures
            *m == old(self).h,
            *final(self) == (Hsl { h: *final(m), ..*old(self) }),
    {
        &mut self.h
    }

    pub fn s_mut(&mut self) -> (m: &mut u32)
        ensures
            *m == old(self).s,
            *final(self) == (Hsl { s: *final(m), ..*old(self) }),
    {
        &mut self.s
    }

    pub fn l_mut(&mut self) -> (m: &mut u32)
        ensures
            *m == old(self).l,
            *final(self) == (Hsl { l: *final(m), ..*old(self) }),
    {
        &mut self.l
    }
}

/// One concrete color: the packed 24-bit hex value, its RGB and HSL
/// forms, and the accent flag.
#[derive(Debug, Clone, Copy, PartialEq, Eq, Structural)]
pub struct Color {
    pub hex: u32,
    pub rgb: Rgb,
    pub hsl: Hsl,
    pub accent: bool,
}

impl Color {
    pub fn new(hex: u32, rgb: Rgb, hsl: Hsl, accent: bool) -> (c: Self)
        ensures
            c == (Color { hex, rgb, hsl, accent }),
    {
        Color { hex, rgb, hsl, accent }
    }

    pub fn hex(&self) -> (v: u32)
        ensures
            v == self.hex,
    {
        self.hex
    }

    pub fn rgb(&self) -> (v: Rgb)
        ensures
            v == self.rgb,
    {
        self.rgb
    }

    pub fn hsl(&self) -> (v: Hsl)
        ensures
            v == self.hsl,
    {
        self.hsl
    }

    pub fn accent(&self) -> (v: bool)
        ensures
            v == self.accent,
    {
        self.accent
    }

    pub fn hex_mut(&mut self) -> (m: &mut u32)
        ensures
            *m == old(self).hex,
            *final(self) == (Color { hex: *final(m), ..*old(self) }),
    {
        &mut self.hex
    }

    pub fn rgb_mut(&mut self) -> (m: &mut Rgb)
        ensures
            *m == old(self).rgb,
            *final(self) == (Color { rgb: *final(m), ..*old(self) }),
    {
        &mut self.rgb
    }

    pub fn hsl_mut(&mut self) -> (m: &mut Hsl)
        ensures
            *m == old(self).hsl,
            *final(self) == (Color { hsl: *final(m), ..*old(self) }),
    {
        &mut self.hsl
    }

    /// The canonical lowercase `#RRGGBB` rendering of the hex value.
    pub fn hex_string(&self) -> (r: String)
        requires
            self.hex < 0x1000000,
        ensures
            r@ == spec_hex_string(self.hex as nat),
    {
        encode_hex(self.hex)
    }
}

} // verus!
