//! The `#RRGGBB` hex codec used by the constant materializer.
//!
//! A well-formed hex field is exactly seven characters: a leading `#`
//! followed by six hexadecimal digits encoding a 24-bit value.

use vstd::prelude::*;
use vstd::string::StrSliceExecFns;
use crate::strutil::push_char;

verus! {

/// True of a hexadecimal digit character, either case.
pub open spec fn is_hex_digit(c: char) -> bool {
    match c {
        '0' | '1' | '2' | '3' | '4' | '5' | '6' | '7' | '8' | '9' => true,
        'a' | 'b' | 'c' | 'd' | 'e' | 'f' => true,
        'A' | 'B' | 'C' | 'D' | 'E' | 'F' => true,
        _ => false,
    }
}

/// The numeric value of a hexadecimal digit character; zero elsewhere.
pub open spec fn hex_digit_value(c: char) -> nat {
    match c {
        '0' => 0,
        '1' => 1,
        '2' => 2,
        '3' => 3,
        '4' => 4,
        '5' => 5,
        '6' => 6,
        '7' => 7,
        '8' => 8,
        '9' => 9,
        'a' | 'A' => 10,
        'b' | 'B' => 11,
        'c' | 'C' => 12,
        'd' | 'D' => 13,
        'e' | 'E' => 14,
        'f' | 'F' => 15,
        _ => 0,
    }
}

/// The number denoted by a big-endian sequence of hexadecimal digits.
pub open spec fn hex_number(digits: Seq<char>) -> nat
    decreases digits.len(),
{
    if digits.len() == 0 {
        0
    } else {
        hex_number(digits.drop_last()) * 16 + hex_digit_value(digits.last())
    }
}

/// A well-formed hex field: `#` followed by six hexadecimal digits.
pub open spec fn is_well_formed_hex(s: Seq<char>) -> bool {
    &&& s.len() == 7
    &&& s[0] == '#'
    &&& forall|i: int| 1 <= i < 7 ==> is_hex_digit(#[trigger] s[i])
}

/// The 24-bit value a well-formed hex field denotes.
pub open spec fn spec_hex_value(s: Seq<char>) -> nat {
    hex_number(s.subrange(1, 7))
}

/// Sixteen to the given power.
pub open spec fn pow16(n: nat) -> nat
    decreases n,
{
    if n == 0 {
        1
    } else {
        16 * pow16((n - 1) as nat)
    }
}

proof fn lemma_hex_number_bound(digits: Seq<char>)
    ensures
        hex_number(digits) < pow16(digits.len()),
    decreases digits.len(),
{
    if digits.len() == 0 {
    } else {
        lemma_hex_number_bound(digits.drop_last());
        let prefix = hex_number(digits.drop_last());
        let d = hex_digit_value(digits.last());
        assert(d < 16);
        assert(prefix * 16 + d < 16 * pow16((digits.len() - 1) as nat)) by (nonlinear_arith)
            requires
                prefix < pow16((digits.len() - 1) as nat),
                d < 16,
        ;
    }
}

/// Decodes a `#RRGGBB` hex field into its 24-bit value; returns `None`
/// exactly when the string is not a well-formed hex field.
pub fn decode_hex(s: &str) -> (r: Option<u32>)
    ensures
        match r {
            Some(v) => is_well_formed_hex(s@) && v as nat == spec_hex_value(s@) && v < 0x1000000,
            None => !is_well_formed_hex(s@),
        },
{
    let n = s.unicode_len();
    if n != 7 {
        return None;
    }
    if s.get_char(0) != '#' {
        return None;
    }
    let mut v: u32 = 0;
    let mut i: usize = 1;
    while i < 7
        invariant
            1 <= i <= 7,
            s@.len() == 7,
            s@[0] == '#',
            forall|j: int| 1 <= j < i ==> is_hex_digit(#[trigger] s@[j]),
            v as nat == hex_number(s@.subrange(1, i as int)),
        decreases 7 - i,
    {
        let c = s.get_char(i);
        let d: u32 = match c {
            '0' => 0,
            '1' => 1,
            '2' => 2,
            '3' => 3,
            '4' => 4,
            '5' => 5,
            '6' => 6,
            '7' => 7,
            '8' => 8,
            '9' => 9,
            'a' | 'A' => 10,
            'b' | 'B' => 11,
            'c' | 'C' => 12,
            'd' | 'D' => 13,
            'e' | 'E' => 14,
            'f' | 'F' => 15,
            _ => {
                return None;
            },
        };
        proof {
            assert(is_hex_digit(s@[i as int]));
            assert(d as nat == hex_digit_value(s@[i as int]));
            lemma_hex_number_bound(s@.subrange(1, i as int));
            reveal_with_fuel(pow16, 8);
            assert(hex_number(s@.subrange(1, i as int)) < pow16(6));
            let next = s@.subrange(1, i + 1);
            assert(next.drop_last() =~= s@.subrange(1, i as int));
            assert(next.last() == s@[i as int]);
        }
        v = v * 16 + d;
        i += 1;
    }
    proof {
        lemma_hex_number_bound(s@.subrange(1, 7));
        reveal_with_fuel(pow16, 8);
    }
    Some(v)
}

/// The lowercase hexadecimal digit character for a value below sixteen.
pub open spec fn hex_digit_char(d: nat) -> char {
    if d == 0 { '0' }
    else if d == 1 { '1' }
    else if d == 2 { '2' }
    else if d == 3 { '3' }
    else if d == 4 { '4' }
    else if d == 5 { '5' }
    else if d == 6 { '6' }
    else if d == 7 { '7' }
    else if d == 8 { '8' }
    else if d == 9 { '9' }
    else if d == 10 { 'a' }
    else if d == 11 { 'b' }
    else if d == 12 { 'c' }
    else if d == 13 { 'd' }
    else if d == 14 { 'e' }
    else if d == 15 { 'f' }
    else { '0' }
}

/// The canonical lowercase `#RRGGBB` rendering of a 24-bit value.
pub open spec fn spec_hex_string(v: nat) -> Seq<char> {
    seq![
        '#',
        hex_digit_char((v / 0x100000) % 16),
        hex_digit_char((v / 0x10000) % 16),
        hex_digit_char((v / 0x1000) % 16),
        hex_digit_char((v / 0x100) % 16),
        hex_digit_char((v / 0x10) % 16),
        hex_digit_char(v % 16),
    ]
}

fn hex_char_of(d: u32) -> (c: char)
    requires
        d < 16,
    ensures
        c == hex_digit_char(d as nat),
{
    match d {
        0 => '0',
        1 => '1',
        2 => '2',
        3 => '3',
        4 => '4',
        5 => '5',
        6 => '6',
        7 => '7',
        8 => '8',
        9 => '9',
        10 => 'a',
        11 => 'b',
        12 => 'c',
        13 => 'd',
        14 => 'e',
        _ => 'f',
    }
}

/// Encodes a 24-bit value as its canonical lowercase `#RRGGBB` field.
pub fn encode_hex(v: u32) -> (r: String)
    requires
        v < 0x1000000,
    ensures
        r@ == spec_hex_string(v as nat),
{
    let mut r = String::new();
    push_char(&mut r, '#');
    push_char(&mut r, hex_char_of((v / 0x100000) % 16));
    push_char(&mut r, hex_char_of((v / 0x10000) % 16));
    push_char(&mut r, hex_char_of((v / 0x1000) % 16));
    push_char(&mut r, hex_char_of((v / 0x100) % 16));
    push_char(&mut r, hex_char_of((v / 0x10) % 16));
    push_char(&mut r, hex_char_of(v % 16));
    proof {
        assert(r@ =~= spec_hex_string(v as nat));
    }
    r
}

proof fn lemma_hex_char_value(d: nat)
    requires
        d < 16,
    ensures
        is_hex_digit(hex_digit_char(d)),
        hex_digit_value(hex_digit_char(d)) == d,
{
}

/// A well-formed hex field always denotes a 24-bit value.
pub proof fn lemma_well_formed_hex_bound(s: Seq<char>)
    requires
        is_well_formed_hex(s),
    ensures
        spec_hex_value(s) < 0x1000000,
{
    lemma_hex_number_bound(s.subrange(1, 7));
    reveal_with_fuel(pow16, 8);
}

/// Law: encoding a 24-bit value yields a well-formed hex field that decodes
/// back to the same value.
pub proof fn lemma_hex_round_trip(v: nat)
    requires
        v < 0x1000000,
    ensures
        is_well_formed_hex(spec_hex_string(v)),
        spec_hex_value(spec_hex_string(v)) == v,
{
    let s = spec_hex_string(v);
    assert forall|i: int| 1 <= i < 7 implies is_hex_digit(#[trigger] s[i]) by {
        lemma_hex_char_value((v / 0x100000) % 16);
        lemma_hex_char_value((v / 0x10000) % 16);
        lemma_hex_char_value((v / 0x1000) % 16);
        lemma_hex_char_value((v / 0x100) % 16);
        lemma_hex_char_value((v / 0x10) % 16);
        lemma_hex_char_value(v % 16);
    }
    let digits = s.subrange(1, 7);
    lemma_hex_char_value((v / 0x100000) % 16);
    lemma_hex_char_value((v / 0x10000) % 16);
    lemma_hex_char_value((v / 0x1000) % 16);
    lemma_hex_char_value((v / 0x100) % 16);
    lemma_hex_char_value((v / 0x10) % 16);
    lemma_hex_char_value(v % 16);
    reveal_with_fuel(hex_number, 8);
    assert(digits.len() == 6);
    assert(digits.drop_last() =~= s.subrange(1, 6));
    assert(s.subrange(1, 6).drop_last() =~= s.subrange(1, 5));
    assert(s.subrange(1, 5).drop_last() =~= s.subrange(1, 4));
    assert(s.subrange(1, 4).drop_last() =~= s.subrange(1, 3));
    assert(s.subrange(1, 3).drop_last() =~= s.subrange(1, 2));
    assert(s.subrange(1, 2).drop_last() =~= s.subrange(1, 1));
    assert(s.subrange(1, 1).len() == 0);
    assert(hex_number(digits) ==
        ((((((v / 0x100000) % 16) * 16 + (v / 0x10000) % 16) * 16 + (v / 0x1000) % 16) * 16
            + (v / 0x100) % 16) * 16 + (v / 0x10) % 16) * 16 + v % 16);
    let w = v as u32;
    assert(((((((w / 0x100000) % 16) * 16 + (w / 0x10000) % 16) * 16 + (w / 0x1000) % 16) * 16
            + (w / 0x100) % 16) * 16 + (w / 0x10) % 16) * 16 + w % 16 == w) by (bit_vector)
        requires
            w < 0x1000000,
    ;
}

} // verus!
