//! The identifier normalizer.
//!
//! Every schema string is normalized to two canonical source-identifier
//! forms: a lower-delimited form (field and function names) and a
//! capitalized-word form (enum variant names). Both are pure,
//! deterministic functions of the input, and both always yield a valid
//! identifier: letters, digits and underscores, not starting with a
//! digit. ASCII letters are the only cased alphabet here; any other
//! character acts as a word delimiter.

use vstd::prelude::*;
use vstd::string::StrSliceExecFns;
use crate::strutil::push_char;

verus! {

pub open spec fn is_ascii_upper(c: char) -> bool {
    65 <= c as u32 && c as u32 <= 90
}

pub open spec fn is_ascii_lower(c: char) -> bool {
    97 <= c as u32 && c as u32 <= 122
}

pub open spec fn is_ascii_digit(c: char) -> bool {
    48 <= c as u32 && c as u32 <= 57
}

pub open spec fn is_ascii_alnum(c: char) -> bool {
    is_ascii_upper(c) || is_ascii_lower(c) || is_ascii_digit(c)
}

/// A character acceptable anywhere in a normalized identifier.
pub open spec fn is_ident_char(c: char) -> bool {
    is_ascii_alnum(c) || c == '_'
}

/// A valid source identifier: non-empty, identifier characters only,
/// not starting with a digit.
pub open spec fn is_valid_ident(s: Seq<char>) -> bool {
    &&& s.len() > 0
    &&& !is_ascii_digit(s[0])
    &&& forall|i: int| 0 <= i < s.len() ==> is_ident_char(#[trigger] s[i])
}

/// The lowercase form of an ASCII uppercase letter; identity elsewhere.
pub open spec fn lower_char(c: char) -> char {
    if is_ascii_upper(c) {
        (c as u32 + 32) as char
    } else {
        c
    }
}

/// The uppercase form of an ASCII lowercase letter; identity elsewhere.
pub open spec fn upper_char(c: char) -> char {
    if is_ascii_lower(c) {
        (c as u32 - 32) as char
    } else {
        c
    }
}

/// What one input character contributes to the lower-delimited form,
/// given the character before it (`None` at the start).
pub open spec fn snake_piece(prev: Option<char>, c: char) -> Seq<char> {
    if is_ascii_upper(c) {
        if prev matches Some(p) && (is_ascii_lower(p) || is_ascii_digit(p)) {
            seq!['_', lower_char(c)]
        } else {
            seq![lower_char(c)]
        }
    } else if is_ascii_lower(c) || is_ascii_digit(c) {
        seq![c]
    } else {
        seq!['_']
    }
}

pub open spec fn snake_core(s: Seq<char>) -> Seq<char>
    decreases s.len(),
{
    if s.len() == 0 {
        Seq::empty()
    } else {
        let prev = if s.len() == 1 { None } else { Some(s[s.len() - 2]) };
        snake_core(s.drop_last()) + snake_piece(prev, s.last())
    }
}

/// The lower-delimited identifier form of a schema string.
pub open spec fn snake_of(s: Seq<char>) -> Seq<char> {
    let core = snake_core(s);
    if core.len() == 0 || is_ascii_digit(core[0]) {
        seq!['_'] + core
    } else {
        core
    }
}

/// What one input character contributes to the capitalized-word form.
pub open spec fn camel_piece(prev: Option<char>, c: char) -> Seq<char> {
    if is_ascii_alnum(c) {
        if prev matches Some(p) && is_ascii_alnum(p) {
            seq![c]
        } else {
            seq![upper_char(c)]
        }
    } else {
        Seq::empty()
    }
}

pub open spec fn camel_core(s: Seq<char>) -> Seq<char>
    decreases s.len(),
{
    if s.len() == 0 {
        Seq::empty()
    } else {
        let prev = if s.len() == 1 { None } else { Some(s[s.len() - 2]) };
        camel_core(s.drop_last()) + camel_piece(prev, s.last())
    }
}

/// The capitalized-word identifier form of a schema string.
pub open spec fn camel_of(s: Seq<char>) -> Seq<char> {
    let core = camel_core(s);
    if core.len() == 0 || is_ascii_digit(core[0]) {
        seq!['_'] + core
    } else {
        core
    }
}

fn lower_char_exec(c: char) -> (r: char)
    ensures
        r == lower_char(c),
{
    match c {
        'A' => 'a', 'B' => 'b', 'C' => 'c', 'D' => 'd', 'E' => 'e', 'F' => 'f',
        'G' => 'g', 'H' => 'h', 'I' => 'i', 'J' => 'j', 'K' => 'k', 'L' => 'l',
        'M' => 'm', 'N' => 'n', 'O' => 'o', 'P' => 'p', 'Q' => 'q', 'R' => 'r',
        'S' => 's', 'T' => 't', 'U' => 'u', 'V' => 'v', 'W' => 'w', 'X' => 'x',
        'Y' => 'y', 'Z' => 'z',
        _ => c,
    }
}

fn upper_char_exec(c: char) -> (r: char)
    ensures
        r == upper_char(c),
{
    match c {
        'a' => 'A', 'b' => 'B', 'c' => 'C', 'd' => 'D', 'e' => 'E', 'f' => 'F',
        'g' => 'G', 'h' => 'H', 'i' => 'I', 'j' => 'J', 'k' => 'K', 'l' => 'L',
        'm' => 'M', 'n' => 'N', 'o' => 'O', 'p' => 'P', 'q' => 'Q', 'r' => 'R',
        's' => 'S', 't' => 'T', 'u' => 'U', 'v' => 'V', 'w' => 'W', 'x' => 'X',
        'y' => 'Y', 'z' => 'Z',
        _ => c,
    }
}

fn is_upper_exec(c: char) -> (r: bool)
    ensures
        r == is_ascii_upper(c),
{
    let u = c as u32;
    65 <= u && u <= 90
}

fn is_lower_exec(c: char) -> (r: bool)
    ensures
        r == is_ascii_lower(c),
{
    let u = c as u32;
    97 <= u && u <= 122
}

fn is_digit_exec(c: char) -> (r: bool)
    ensures
        r == is_ascii_digit(c),
{
    let u = c as u32;
    48 <= u && u <= 57
}

/// Normalizes a schema string to its lower-delimited identifier form.
pub fn to_snake_ident(s: &str) -> (r: String)
    ensures
        r@ == snake_of(s@),
{
    let n = s.unicode_len();
    let mut core = String::new();
    let mut i: usize = 0;
    while i < n
        invariant
            i <= n,
            n == s@.len(),
            core@ == snake_core(s@.subrange(0, i as int)),
        decreases n - i,
    {
        let c = s.get_char(i);
        proof {
            let t = s@.subrange(0, i + 1);
            assert(t.drop_last() =~= s@.subrange(0, i as int));
            assert(t.last() == s@[i as int]);
            if i > 0 {
                assert(t[t.len() - 2] == s@[i - 1]);
            }
        }
        if is_upper_exec(c) {
            if i > 0 {
                let p = s.get_char(i - 1);
                if is_lower_exec(p) || is_digit_exec(p) {
                    push_char(&mut core, '_');
                }
            }
            push_char(&mut core, lower_char_exec(c));
        } else if is_lower_exec(c) || is_digit_exec(c) {
            push_char(&mut core, c);
        } else {
            push_char(&mut core, '_');
        }
        proof {
            assert(core@ =~= snake_core(s@.subrange(0, i + 1)));
        }
        i += 1;
    }
    proof {
        assert(s@.subrange(0, n as int) =~= s@);
    }
    if core.unicode_len() == 0 || is_digit_exec(core.as_str().get_char(0)) {
        let mut prefixed = String::new();
        push_char(&mut prefixed, '_');
        prefixed.append(core.as_str());
        proof {
            assert(prefixed@ =~= snake_of(s@));
        }
        prefixed
    } else {
        core
    }
}

/// Normalizes a schema string to its capitalized-word identifier form.
pub fn to_camel_ident(s: &str) -> (r: String)
    ensures
        r@ == camel_of(s@),
{
    let n = s.unicode_len();
    let mut core = String::new();
    let mut i: usize = 0;
    while i < n
        invariant
            i <= n,
            n == s@.len(),
            core@ == camel_core(s@.subrange(0, i as int)),
        decreases n - i,
    {
        let c = s.get_char(i);
        proof {
            let t = s@.subrange(0, i + 1);
            assert(t.drop_last() =~= s@.subrange(0, i as int));
            assert(t.last() == s@[i as int]);
            if i > 0 {
                assert(t[t.len() - 2] == s@[i - 1]);
            }
        }
        if is_upper_exec(c) || is_lower_exec(c) || is_digit_exec(c) {
            let boundary = if i == 0 {
                true
            } else {
                let p = s.get_char(i - 1);
                !(is_upper_exec(p) || is_lower_exec(p) || is_digit_exec(p))
            };
            if boundary {
                push_char(&mut core, upper_char_exec(c));
            } else {
                push_char(&mut core, c);
            }
        }
        proof {
            assert(core@ =~= camel_core(s@.subrange(0, i + 1)));
        }
        i += 1;
    }
    proof {
        assert(s@.subrange(0, n as int) =~= s@);
    }
    if core.unicode_len() == 0 || is_digit_exec(core.as_str().get_char(0)) {
        let mut prefixed = String::new();
        push_char(&mut prefixed, '_');
        prefixed.append(core.as_str());
        proof {
            assert(prefixed@ =~= camel_of(s@));
        }
        prefixed
    } else {
        core
    }
}

proof fn lemma_snake_core_chars(s: Seq<char>)
    ensures
        forall|i: int| 0 <= i < snake_core(s).len() ==>
            is_ident_char(#[trigger] snake_core(s)[i]) && !is_ascii_upper(snake_core(s)[i]),
    decreases s.len(),
{
    if s.len() == 0 {
    } else {
        lemma_snake_core_chars(s.drop_last());
        let prev = if s.len() == 1 { None } else { Some(s[s.len() - 2]) };
        let piece = snake_piece(prev, s.last());
        let head = snake_core(s.drop_last());
        assert forall|i: int| 0 <= i < snake_core(s).len() implies
            is_ident_char(#[trigger] snake_core(s)[i]) && !is_ascii_upper(snake_core(s)[i]) by {
            if i < head.len() {
                assert(snake_core(s)[i] == head[i]);
            } else {
                assert(snake_core(s)[i] == piece[i - head.len()]);
            }
        }
    }
}

proof fn lemma_camel_core_chars(s: Seq<char>)
    ensures
        forall|i: int| 0 <= i < camel_core(s).len() ==> is_ascii_alnum(#[trigger] camel_core(s)[i]),
    decreases s.len(),
{
    if s.len() == 0 {
    } else {
        lemma_camel_core_chars(s.drop_last());
        let prev = if s.len() == 1 { None } else { Some(s[s.len() - 2]) };
        let piece = camel_piece(prev, s.last());
        let head = camel_core(s.drop_last());
        assert forall|i: int| 0 <= i < camel_core(s).len() implies
            is_ascii_alnum(#[trigger] camel_core(s)[i]) by {
            if i < head.len() {
                assert(camel_core(s)[i] == head[i]);
            } else {
                assert(camel_core(s)[i] == piece[i - head.len()]);
            }
        }
    }
}

/// Law: normalization always yields a valid source identifier, in both
/// forms, for every input string.
pub proof fn lemma_normalizer_valid(s: Seq<char>)
    ensures
        is_valid_ident(snake_of(s)),
        is_valid_ident(camel_of(s)),
{
    lemma_snake_core_chars(s);
    lemma_camel_core_chars(s);
}

} // verus!
