//! Tests of the schema compiler: the documented two-flavor scenario,
//! each error stage, the identifier normalizer, and the document
//! round trip.

use catppuccin::compile;
use catppuccin::to_schema;
use catppuccin::encode_hex;
use catppuccin::to_camel_ident;
use catppuccin::to_snake_ident;
use catppuccin::ColorEntry;
use catppuccin::ColorSchema;
use catppuccin::CompileError;
use catppuccin::FlavorEntry;
use catppuccin::FlavorSchema;
use catppuccin::Hsl;
use catppuccin::PaletteSchema;
use catppuccin::Rgb;

fn color(hex: &str, r: u8, g: u8, b: u8) -> ColorSchema {
    ColorSchema {
        hex: hex.to_string(),
        rgb: Rgb::new(r, g, b),
        hsl: Hsl::new(0.0f32.to_bits(), 0.0f32.to_bits(), 0.5f32.to_bits()),
        accent: true,
    }
}

fn entry(key: &str, value: ColorSchema) -> ColorEntry {
    ColorEntry { key: key.to_string(), value }
}

fn sample_schema() -> PaletteSchema {
    PaletteSchema {
        flavors: vec![
            FlavorEntry {
                key: "latte".to_string(),
                value: FlavorSchema {
                    name: "Latte".to_string(),
                    dark: false,
                    colors: vec![entry("red", color("#d20f39", 210, 15, 57))],
                },
            },
            FlavorEntry {
                key: "mocha".to_string(),
                value: FlavorSchema {
                    name: "Mocha".to_string(),
                    dark: true,
                    colors: vec![entry("red", color("#f38ba8", 243, 139, 168))],
                },
            },
        ],
    }
}

#[test]
fn scenario_two_flavors() {
    let artifact = compile(&sample_schema()).unwrap();
    let fi: Vec<&str> = artifact.flavor_idents.variants.iter().map(|v| v.ident.as_str()).collect();
    assert_eq!(fi, ["Latte", "Mocha"]);
    let fo: Vec<&str> = artifact
        .flavor_idents
        .variants
        .iter()
        .map(|v| v.original.as_str())
        .collect();
    assert_eq!(fo, ["latte", "mocha"]);
    let ci: Vec<&str> = artifact.color_idents.variants.iter().map(|v| v.ident.as_str()).collect();
    assert_eq!(ci, ["Red"]);
    let pf: Vec<&str> = artifact.palette_fields.variants.iter().map(|v| v.ident.as_str()).collect();
    assert_eq!(pf, ["latte", "mocha"]);
    let cf: Vec<&str> = artifact.colors_fields.variants.iter().map(|v| v.ident.as_str()).collect();
    assert_eq!(cf, ["red"]);
    assert_eq!(artifact.flavors.len(), 2);
    assert!(!artifact.flavors[0].dark);
    assert!(artifact.flavors[1].dark);
    assert_eq!(artifact.flavors[0].colors[0].hex, 0xd20f39);
    assert_eq!(artifact.flavors[1].colors[0].hex, 0xf38ba8);
    assert_eq!(artifact.flavors[0].colors[0].rgb, Rgb::new(210, 15, 57));
}

#[test]
fn scenario_hex_consistency_error() {
    let mut schema = sample_schema();
    schema.flavors[1].value.colors[0].value.hex = "#000000".to_string();
    match compile(&schema) {
        Err(CompileError::HexConsistency { flavor_key, color_key, decoded, composed }) => {
            assert_eq!(flavor_key, "mocha");
            assert_eq!(color_key, "red");
            assert_eq!(decoded, 0x000000);
            assert_eq!(composed, 0xf38ba8);
        },
        other => panic!("expected a hex consistency error, got {:?}", other),
    }
}

#[test]
fn uniformity_error() {
    let mut schema = sample_schema();
    schema.flavors[1].value.colors[0].key = "blue".to_string();
    match compile(&schema) {
        Err(CompileError::Uniformity { flavor_key, missing, extra }) => {
            assert_eq!(flavor_key, "mocha");
            assert_eq!(missing, ["red"]);
            assert_eq!(extra, ["blue"]);
        },
        other => panic!("expected a uniformity error, got {:?}", other),
    }
}

#[test]
fn identifier_collision_error() {
    let mut schema = sample_schema();
    schema.flavors[1].key = "Latte".to_string();
    schema.flavors[1].value.name = "Other".to_string();
    match compile(&schema) {
        Err(CompileError::IdentifierCollision { first, second, ident }) => {
            assert_eq!(first, "latte");
            assert_eq!(second, "Latte");
            assert_eq!(ident, "Latte");
        },
        other => panic!("expected an identifier collision, got {:?}", other),
    }
}

#[test]
fn schema_shape_errors() {
    let mut schema = sample_schema();
    schema.flavors[1].key = "latte".to_string();
    match compile(&schema) {
        Err(CompileError::SchemaShape { key }) => assert_eq!(key, "latte"),
        other => panic!("expected a shape error, got {:?}", other),
    }
    let mut schema = sample_schema();
    schema.flavors[0].value.colors[0].value.hex = "#d20f3x".to_string();
    match compile(&schema) {
        Err(CompileError::SchemaShape { key }) => assert_eq!(key, "#d20f3x"),
        other => panic!("expected a shape error, got {:?}", other),
    }
}

#[test]
fn enum_def_parse_format() {
    let artifact = compile(&sample_schema()).unwrap();
    let idents = &artifact.flavor_idents;
    assert_eq!(idents.parse("latte"), Ok(0));
    assert_eq!(idents.parse("mocha"), Ok(1));
    assert_eq!(idents.format(0), "latte");
    assert_eq!(idents.format(1), "mocha");
    for i in 0..idents.len() {
        assert_eq!(idents.parse(&idents.format(i)), Ok(i));
    }
    let err = idents.parse("espresso").unwrap_err();
    assert_eq!(err.input, "espresso");
}

#[test]
fn normalizer_forms() {
    assert_eq!(to_snake_ident("helloWorld"), "hello_world");
    assert_eq!(to_snake_ident("Latte"), "latte");
    assert_eq!(to_snake_ident("subtext1"), "subtext1");
    assert_eq!(to_snake_ident("a-b c"), "a_b_c");
    assert_eq!(to_snake_ident("123"), "_123");
    assert_eq!(to_camel_ident("latte"), "Latte");
    assert_eq!(to_camel_ident("subtext1"), "Subtext1");
    assert_eq!(to_camel_ident("hello_world"), "HelloWorld");
    assert_eq!(to_camel_ident("--"), "_");
    assert_eq!(to_camel_ident("Frappé"), "Frapp");
    assert_eq!(to_snake_ident("Frappé"), "frapp_");
}

#[test]
fn document_round_trip() {
    let schema = sample_schema();
    let artifact = compile(&schema).unwrap();
    let rebuilt = to_schema(&artifact);
    assert_eq!(rebuilt, schema);
    let artifact2 = compile(&rebuilt).unwrap();
    assert_eq!(artifact2, artifact);
}

#[test]
fn document_serializer_renders_hex_canonically() {
    let mut schema = sample_schema();
    schema.flavors[0].value.colors[0].value.hex = "#D20F39".to_string();
    let artifact = compile(&schema).unwrap();
    let doc = to_schema(&artifact);
    assert_eq!(doc.flavors[0].value.colors[0].value.hex, "#d20f39");
    assert_eq!(doc.flavors[0].value.colors[0].value.hex, encode_hex(0xd20f39));
}
