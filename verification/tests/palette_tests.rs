//! Tests of the generated access layer: the sample palette, dual
//! indexing, enum string round-trips, mutation isolation, and the hex
//! codec.

use catppuccin::sample_palette;
use catppuccin::Color;
use catppuccin::ColorIdent;
use catppuccin::FlavorIdent;
use catppuccin::FlavorName;
use catppuccin::Hsl;
use catppuccin::Rgb;
use catppuccin::decode_hex;
use catppuccin::encode_hex;

#[test]
fn sample_palette_values() {
    let p = sample_palette();
    assert_eq!(p.latte().name(), FlavorName::Latte);
    assert!(!p.latte().dark());
    assert_eq!(p.latte().red().hex(), 0xd20f39);
    assert_eq!(p.latte().red().rgb(), Rgb::new(210, 15, 57));
    assert_eq!(p.mocha().name(), FlavorName::Mocha);
    assert!(p.mocha().dark());
    assert_eq!(p.mocha().red().hex(), 0xf38ba8);
    assert_eq!(p.mocha().red().rgb(), Rgb::new(243, 139, 168));
}

#[test]
fn dual_indexing_equivalence() {
    let p = sample_palette();
    assert_eq!(p.flavor(FlavorIdent::Latte), p.latte());
    assert_eq!(p.flavor(FlavorIdent::Mocha), p.mocha());
    for f in [FlavorIdent::Latte, FlavorIdent::Mocha] {
        let flavor = p.flavor(f);
        assert_eq!(flavor.color(ColorIdent::Red), flavor.red());
    }
}

#[test]
fn hex_rgb_agreement() {
    let p = sample_palette();
    for f in [FlavorIdent::Latte, FlavorIdent::Mocha] {
        let c = p.flavor(f).color(ColorIdent::Red);
        let rgb = c.rgb();
        let composed = ((rgb.r() as u32) << 16) | ((rgb.g() as u32) << 8) | rgb.b() as u32;
        assert_eq!(c.hex(), composed);
    }
}

#[test]
fn enum_round_trips() {
    assert_eq!(FlavorName::parse("Latte"), Ok(FlavorName::Latte));
    assert_eq!(FlavorName::parse("Mocha"), Ok(FlavorName::Mocha));
    assert_eq!(FlavorIdent::parse("latte"), Ok(FlavorIdent::Latte));
    assert_eq!(FlavorIdent::parse("mocha"), Ok(FlavorIdent::Mocha));
    assert_eq!(ColorIdent::parse("red"), Ok(ColorIdent::Red));
    for n in [FlavorName::Latte, FlavorName::Mocha] {
        assert_eq!(FlavorName::parse(n.text()), Ok(n));
    }
    for f in [FlavorIdent::Latte, FlavorIdent::Mocha] {
        assert_eq!(FlavorIdent::parse(f.text()), Ok(f));
    }
    assert_eq!(ColorIdent::parse(ColorIdent::Red.text()), Ok(ColorIdent::Red));
    let err = FlavorIdent::parse("espresso").unwrap_err();
    assert_eq!(err.input, "espresso");
    assert!(ColorIdent::parse("Latte").is_err());
}

#[test]
fn mutation_isolation() {
    let p = sample_palette();
    let mut q = p;
    *q.latte_mut().red_mut().hex_mut() = 0x000000;
    *q.latte_mut().red_mut().rgb_mut().r_mut() = 0;
    assert_eq!(q.latte().red().hex(), 0x000000);
    assert_eq!(q.latte().red().rgb().r(), 0);
    assert_eq!(p.latte().red().hex(), 0xd20f39);
    assert_eq!(p.latte().red().rgb().r(), 210);
    assert_eq!(q.mocha(), p.mocha());
}

#[test]
fn accessor_mutators_frame() {
    let mut c = Color::new(0x123456, Rgb::new(1, 2, 3), Hsl::new(4, 5, 6), false);
    *c.rgb_mut().g_mut() = 99;
    assert_eq!(c.rgb(), Rgb::new(1, 99, 3));
    assert_eq!(c.hex(), 0x123456);
    *c.hsl_mut().l_mut() = 7;
    assert_eq!(c.hsl(), Hsl::new(4, 5, 7));
    assert!(!c.accent());
}

#[test]
fn hex_codec_exact_values() {
    assert_eq!(decode_hex("#d20f39"), Some(0xd20f39));
    assert_eq!(decode_hex("#D20F39"), Some(0xd20f39));
    assert_eq!(decode_hex("#000000"), Some(0));
    assert_eq!(decode_hex("#ffffff"), Some(0xffffff));
    assert_eq!(decode_hex("d20f39"), None);
    assert_eq!(decode_hex("#d20f3"), None);
    assert_eq!(decode_hex("#d20f399"), None);
    assert_eq!(decode_hex("#d20g39"), None);
    assert_eq!(decode_hex(""), None);
    assert_eq!(encode_hex(0xd20f39), "#d20f39");
    assert_eq!(encode_hex(0), "#000000");
    assert_eq!(encode_hex(0xffffff), "#ffffff");
    for v in [0u32, 1, 0xabc, 0xd20f39, 0xffffff] {
        assert_eq!(decode_hex(&encode_hex(v)), Some(v));
    }
}

#[test]
fn color_hex_string() {
    let p = sample_palette();
    assert_eq!(p.latte().red().hex_string(), "#d20f39");
    assert_eq!(p.mocha().red().hex_string(), "#f38ba8");
}
