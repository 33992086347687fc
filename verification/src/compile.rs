//! The schema compiler: validates the palette schema (document shape,
//! shape uniformity, identifier collisions, hex/RGB consistency) and
//! builds the generated artifact — enumeration definitions with their
//! original strings and normalized identifiers, the field lists of the
//! value types, and the fully materialized palette data.

use vstd::prelude::*;
use vstd::pervasive::unreached;
use crate::color::Color;
use crate::color::Rgb;
use crate::color::rgb_value;
use crate::error::CompileError;
use crate::error::UnknownVariantError;
use crate::hex::decode_hex;
use crate::hex::is_well_formed_hex;
use crate::hex::spec_hex_value;
use crate::ident::camel_of;
use crate::ident::snake_of;
use crate::ident::to_camel_ident;
use crate::ident::to_snake_ident;
use crate::schema::ColorEntry;
use crate::schema::ColorSchema;
use crate::schema::FlavorEntry;
use crate::schema::FlavorSchema;
use crate::schema::PaletteSchema;
use crate::schema::canonical_keys;
use crate::schema::color_keys;
use crate::schema::flavor_keys;
use crate::schema::flavor_names;
use crate::schema::keys_distinct;
use crate::schema::same_key_set;
use crate::strutil::str_eq;

verus! {

/// The views of a list of strings.
pub open spec fn str_views(v: Seq<String>) -> Seq<Seq<char>> {
    v.map(|i: int, s: String| s@)
}

/// The chosen normal form: capitalized-word or lower-delimited.
pub open spec fn norm_of(s: Seq<char>, capitalized: bool) -> Seq<char> {
    if capitalized {
        camel_of(s)
    } else {
        snake_of(s)
    }
}

/// No two originals of the namespace normalize to the same identifier.
pub open spec fn no_collision(os: Seq<Seq<char>>, capitalized: bool) -> bool {
    forall|i: int, j: int| 0 <= i < j < os.len() ==>
        norm_of(os[i], capitalized) != norm_of(os[j], capitalized)
}

/// A collision witness matching an `IdentifierCollision` payload.
pub open spec fn collision_in(
    os: Seq<Seq<char>>,
    capitalized: bool,
    first: Seq<char>,
    second: Seq<char>,
    ident: Seq<char>,
) -> bool {
    exists|i: int, j: int| {
        &&& 0 <= i < j < os.len()
        &&& norm_of(os[i], capitalized) == norm_of(os[j], capitalized)
        &&& first == os[i]
        &&& second == os[j]
        &&& ident == norm_of(os[i], capitalized)
    }
}

/// One variant of a generated enumeration: the exact original schema
/// string and its normalized identifier.
#[derive(Debug, Clone, PartialEq)]
pub struct Variant {
    pub original: String,
    pub ident: String,
}

/// A generated closed enumeration: its ordered variants.
#[derive(Debug, Clone, PartialEq)]
pub struct EnumDef {
    pub variants: Vec<Variant>,
}

impl EnumDef {
    /// The ordered original strings of the variants.
    pub open spec fn spec_originals(self) -> Seq<Seq<char>> {
        self.variants@.map(|i: int, v: Variant| v.original@)
    }

    /// The ordered normalized identifiers of the variants.
    pub open spec fn spec_idents(self) -> Seq<Seq<char>> {
        self.variants@.map(|i: int, v: Variant| v.ident@)
    }

    pub fn len(&self) -> (n: usize)
        ensures
            n == self.variants@.len(),
    {
        self.variants.len()
    }

    /// Formats a variant back to its exact original string. Total on
    /// the variant set.
    pub fn format(&self, i: usize) -> (r: String)
        requires
            i < self.variants@.len(),
        ensures
            r@ == self.spec_originals()[i as int],
    {
        self.variants[i].original.clone()
    }

    /// Parses an original string to its variant index; fails exactly
    /// on strings that name no variant.
    pub fn parse(&self, s: &str) -> (r: Result<usize, UnknownVariantError>)
        ensures
            match r {
                Ok(i) => first_match_from(self.spec_originals(), s@, 0) == Some(i as int),
                Err(e) => first_match_from(self.spec_originals(), s@, 0) is None && e.input@ == s@,
            },
    {
        let ghost os = self.spec_originals();
        let n = self.variants.len();
        let mut i: usize = 0;
        while i < n
            invariant
                i <= n,
                n == self.variants@.len(),
                os == self.spec_originals(),
                first_match_from(os, s@, 0) == first_match_from(os, s@, i as int),
            decreases n - i,
        {
            if str_eq(self.variants[i].original.as_str(), s) {
                return Ok(i);
            }
            i += 1;
        }
        Err(UnknownVariantError { input: s.to_owned() })
    }
}

/// The index of the first entry of `os` equal to `s`, at or after `k`.
pub open spec fn first_match_from(os: Seq<Seq<char>>, s: Seq<char>, k: int) -> Option<int>
    decreases os.len() - k,
{
    if k < 0 || k >= os.len() {
        None
    } else if os[k] == s {
        Some(k)
    } else {
        first_match_from(os, s, k + 1)
    }
}

proof fn lemma_first_match_props(os: Seq<Seq<char>>, s: Seq<char>, k: int)
    requires
        0 <= k <= os.len(),
    ensures
        first_match_from(os, s, k) matches Some(j) ==>
            k <= j < os.len() && os[j] == s && forall|t: int| k <= t < j ==> os[t] != s,
        first_match_from(os, s, k) is None ==> forall|t: int| k <= t < os.len() ==> os[t] != s,
    decreases os.len() - k,
{
    if k < os.len() {
        lemma_first_match_props(os, s, k + 1);
    }
}

/// Law: round-trip identity for every namespace with distinct
/// originals. Parsing the formatted original of a variant yields the
/// variant back, and formatting a successfully parsed string yields
/// the string back.
pub proof fn lemma_parse_format_round_trip(os: Seq<Seq<char>>, i: int, s: Seq<char>)
    requires
        keys_distinct(os),
        0 <= i < os.len(),
    ensures
        first_match_from(os, os[i], 0) == Some(i),
        first_match_from(os, s, 0) matches Some(j) ==> 0 <= j < os.len() && os[j] == s,
{
    lemma_first_match_props(os, os[i], 0);
    lemma_first_match_props(os, s, 0);
    match first_match_from(os, os[i], 0) {
        Some(j) => {
            if j < i {
                assert(os[j] == os[i]);
                assert(false);
            } else if j > i {
                assert(os[i] != os[i]);
                assert(false);
            }
        },
        None => {
            assert(os[i] != os[i]);
            assert(false);
        },
    }
}

/// Builds one enumeration namespace: normalizes every original and
/// rejects the namespace exactly when two originals share a normalized
/// identifier. Normalization itself is total and always yields a valid
/// identifier (`crate::ident::lemma_normalizer_valid`).
pub fn build_enum(originals: &Vec<String>, capitalized: bool) -> (r: Result<
    EnumDef,
    CompileError,
>)
    ensures
        match r {
            Ok(d) => {
                &&& enum_matches(d, str_views(originals@), capitalized)
                &&& no_collision(str_views(originals@), capitalized)
            },
            Err(e) => match e {
                CompileError::IdentifierCollision { first, second, ident } => collision_in(
                    str_views(originals@),
                    capitalized,
                    first@,
                    second@,
                    ident@,
                ),
                _ => false,
            },
        },
{
    let ghost os = str_views(originals@);
    let n = originals.len();
    let mut variants: Vec<Variant> = Vec::new();
    let mut idx: usize = 0;
    while idx < n
        invariant
            idx <= n,
            n == originals@.len(),
            os == str_views(originals@),
            variants@.len() == idx,
            forall|i: int| 0 <= i < idx ==> #[trigger] variants@[i].original@ == os[i],
            forall|i: int| 0 <= i < idx ==> #[trigger] variants@[i].ident@ == norm_of(
                os[i],
                capitalized,
            ),
            forall|i: int, j: int| 0 <= i < j < idx ==> norm_of(os[i], capitalized) != norm_of(
                os[j],
                capitalized,
            ),
        decreases n - idx,
    {
        let orig = &originals[idx];
        let ident = if capitalized {
            to_camel_ident(orig.as_str())
        } else {
            to_snake_ident(orig.as_str())
        };
        let mut k: usize = 0;
        while k < idx
            invariant
                k <= idx,
                idx < n,
                n == originals@.len(),
                os == str_views(originals@),
                variants@.len() == idx,
                ident@ == norm_of(os[idx as int], capitalized),
                forall|i: int| 0 <= i < idx ==> #[trigger] variants@[i].original@ == os[i],
                forall|i: int| 0 <= i < idx ==> #[trigger] variants@[i].ident@ == norm_of(
                    os[i],
                    capitalized,
                ),
                forall|i: int| 0 <= i < k ==> norm_of(#[trigger] os[i], capitalized) != norm_of(
                    os[idx as int],
                    capitalized,
                ),
            decreases idx - k,
        {
            if variants[k].ident == ident {
                let first = variants[k].original.clone();
                let second = originals[idx].clone();
                proof {
                    let i0 = k as int;
                    let j0 = idx as int;
                    assert(variants@[i0].original@ == os[i0]);
                    assert(variants@[i0].ident@ == norm_of(os[i0], capitalized));
                    assert(first@ == os[i0]);
                    assert(second@ == originals@[j0]@);
                    assert(os[j0] == originals@[j0]@);
                    assert(norm_of(os[i0], capitalized) == norm_of(os[j0], capitalized));
                    assert(ident@ == norm_of(os[i0], capitalized));
                    assert(collision_in(os, capitalized, first@, second@, ident@));
                }
                return Err(CompileError::IdentifierCollision { first, second, ident });
            }
            k += 1;
        }
        variants.push(Variant { original: originals[idx].clone(), ident });
        idx += 1;
    }
    Ok(EnumDef { variants })
}

/// The exact relation between a built enumeration and its namespace.
pub open spec fn enum_matches(d: EnumDef, os: Seq<Seq<char>>, capitalized: bool) -> bool {
    &&& d.variants@.len() == os.len()
    &&& forall|i: int| 0 <= i < os.len() ==> #[trigger] d.variants@[i].original@ == os[i]
    &&& forall|i: int| 0 <= i < os.len() ==> #[trigger] d.variants@[i].ident@ == norm_of(
        os[i],
        capitalized,
    )
}

/// Law: a built enumeration is exhaustive over its namespace — its
/// variant set (by original string) is exactly the given key universe.
pub proof fn lemma_exhaustive_variants(d: EnumDef, os: Seq<Seq<char>>, capitalized: bool)
    requires
        enum_matches(d, os, capitalized),
    ensures
        d.spec_originals() == os,
{
    assert(d.spec_originals() =~= os);
}

/// Document-shape well-formedness: distinct flavor keys, distinct
/// color keys within each flavor, and well-formed hex fields.
pub open spec fn shape_ok(p: PaletteSchema) -> bool {
    &&& keys_distinct(flavor_keys(p))
    &&& forall|fi: int| 0 <= fi < p.flavors@.len() ==> keys_distinct(
        color_keys(#[trigger] p.flavors@[fi].value),
    )
    &&& forall|fi: int, ci: int|
        0 <= fi < p.flavors@.len() && 0 <= ci < p.flavors@[fi].value.colors@.len()
            ==> is_well_formed_hex(#[trigger] p.flavors@[fi].value.colors@[ci].value.hex@)
}

/// A witness matching a `SchemaShape` payload.
pub open spec fn shape_offender(p: PaletteSchema, k: Seq<char>) -> bool {
    ||| exists|i: int, j: int|
        0 <= i < j < flavor_keys(p).len() && flavor_keys(p)[i] == flavor_keys(p)[j]
            && flavor_keys(p)[i] == k
    ||| exists|fi: int, i: int, j: int| {
        &&& 0 <= fi < p.flavors@.len()
        &&& 0 <= i < j < color_keys(p.flavors@[fi].value).len()
        &&& #[trigger] color_keys(p.flavors@[fi].value)[i]
            == #[trigger] color_keys(p.flavors@[fi].value)[j]
        &&& color_keys(p.flavors@[fi].value)[i] == k
    }
    ||| exists|fi: int, ci: int| {
        &&& 0 <= fi < p.flavors@.len()
        &&& 0 <= ci < p.flavors@[fi].value.colors@.len()
        &&& #[trigger] p.flavors@[fi].value.colors@[ci].value.hex@ == k
        &&& !is_well_formed_hex(k)
    }
}

/// Every color's decoded hex field agrees with its RGB triple.
pub open spec fn hex_all_ok(p: PaletteSchema) -> bool {
    forall|fi: int, ci: int|
        0 <= fi < p.flavors@.len() && 0 <= ci < p.flavors@[fi].value.colors@.len()
            ==> spec_hex_value(#[trigger] p.flavors@[fi].value.colors@[ci].value.hex@)
                == rgb_value(p.flavors@[fi].value.colors@[ci].value.rgb)
}

/// Every flavor's color-key set equals the canonical universe.
pub open spec fn uniform_ok(p: PaletteSchema) -> bool {
    forall|fi: int| 0 <= fi < p.flavors@.len() ==> same_key_set(
        color_keys(#[trigger] p.flavors@[fi].value),
        canonical_keys(p),
    )
}

/// Freedom from identifier collisions in all five generated
/// namespaces: display names and flavor keys (capitalized), flavor
/// keys and canonical color keys (lower-delimited), canonical color
/// keys (capitalized).
pub open spec fn namespaces_ok(p: PaletteSchema) -> bool {
    &&& no_collision(flavor_names(p), true)
    &&& no_collision(flavor_keys(p), true)
    &&& no_collision(flavor_keys(p), false)
    &&& no_collision(canonical_keys(p), true)
    &&& no_collision(canonical_keys(p), false)
}

fn find_color(colors: &Vec<ColorEntry>, key: &str) -> (r: Option<usize>)
    ensures
        match r {
            Some(i) => i < colors@.len() && colors@[i as int].key@ == key@,
            None => forall|j: int| 0 <= j < colors@.len() ==> #[trigger] colors@[j].key@ != key@,
        },
{
    let n = colors.len();
    let mut i: usize = 0;
    while i < n
        invariant
            i <= n,
            n == colors@.len(),
            forall|j: int| 0 <= j < i ==> #[trigger] colors@[j].key@ != key@,
        decreases n - i,
    {
        if str_eq(colors[i].key.as_str(), key) {
            return Some(i);
        }
        i += 1;
    }
    None
}


/// Checks document shape: key uniqueness at both levels and hex-field
/// well-formedness.
fn check_shape(p: &PaletteSchema) -> (r: Option<CompileError>)
    ensures
        match r {
            None => shape_ok(*p),
            Some(e) => !shape_ok(*p) && match e {
                CompileError::SchemaShape { key } => shape_offender(*p, key@),
                _ => false,
            },
        },
{
    let nf = p.flavors.len();
    let mut fi: usize = 0;
    while fi < nf
        invariant
            fi <= nf,
            nf == p.flavors@.len(),
            forall|i: int, j: int| 0 <= i < j < fi ==> #[trigger] p.flavors@[i].key@
                != #[trigger] p.flavors@[j].key@,
            forall|f: int| 0 <= f < fi ==> keys_distinct(color_keys(#[trigger] p.flavors@[f].value)),
            forall|f: int, c: int| 0 <= f < fi && 0 <= c < p.flavors@[f].value.colors@.len()
                ==> is_well_formed_hex(#[trigger] p.flavors@[f].value.colors@[c].value.hex@),
        decreases nf - fi,
    {
        let mut fj: usize = 0;
        while fj < fi
            invariant
                fj <= fi,
                fi < nf,
                nf == p.flavors@.len(),
                forall|j: int| 0 <= j < fj ==> #[trigger] p.flavors@[j].key@
                    != p.flavors@[fi as int].key@,
            decreases fi - fj,
        {
            if str_eq(p.flavors[fj].key.as_str(), p.flavors[fi].key.as_str()) {
                let key = p.flavors[fi].key.clone();
                proof {
                    let i0 = fj as int;
                    let j0 = fi as int;
                    assert(flavor_keys(*p)[i0] == p.flavors@[i0].key@);
                    assert(flavor_keys(*p)[j0] == p.flavors@[j0].key@);
                    assert(flavor_keys(*p)[i0] == flavor_keys(*p)[j0] && flavor_keys(*p)[i0]
                        == key@ && 0 <= i0 < j0 < flavor_keys(*p).len());
                    assert(shape_offender(*p, key@));
                    assert(!keys_distinct(flavor_keys(*p)));
                }
                return Some(CompileError::SchemaShape { key });
            }
            fj += 1;
        }
        let nc = p.flavors[fi].value.colors.len();
        let mut ci: usize = 0;
        while ci < nc
            invariant
                ci <= nc,
                fi < nf,
                nf == p.flavors@.len(),
                nc == p.flavors@[fi as int].value.colors@.len(),
                forall|i: int, j: int| 0 <= i < j < ci ==>
                    #[trigger] p.flavors@[fi as int].value.colors@[i].key@
                    != #[trigger] p.flavors@[fi as int].value.colors@[j].key@,
                forall|c: int| 0 <= c < ci ==> is_well_formed_hex(
                    #[trigger] p.flavors@[fi as int].value.colors@[c].value.hex@,
                ),
        decreases nc - ci,
        {
            let mut cj: usize = 0;
            while cj < ci
                invariant
                    cj <= ci,
                    ci < nc,
                    fi < nf,
                    nf == p.flavors@.len(),
                    nc == p.flavors@[fi as int].value.colors@.len(),
                    forall|j: int| 0 <= j < cj ==>
                        #[trigger] p.flavors@[fi as int].value.colors@[j].key@
                        != p.flavors@[fi as int].value.colors@[ci as int].key@,
                decreases ci - cj,
            {
                if str_eq(
                    p.flavors[fi].value.colors[cj].key.as_str(),
                    p.flavors[fi].value.colors[ci].key.as_str(),
                ) {
                    let key = p.flavors[fi].value.colors[ci].key.clone();
                    proof {
                        let f0 = fi as int;
                        let i0 = cj as int;
                        let j0 = ci as int;
                        let ks = color_keys(p.flavors@[f0].value);
                        assert(ks[i0] == p.flavors@[f0].value.colors@[i0].key@);
                        assert(ks[j0] == p.flavors@[f0].value.colors@[j0].key@);
                        assert(0 <= i0 < j0 < ks.len() && ks[i0] == ks[j0] && ks[i0] == key@);
                        assert(shape_offender(*p, key@));
                        assert(!keys_distinct(color_keys(p.flavors@[f0].value)));
                    }
                    return Some(CompileError::SchemaShape { key });
                }
                cj += 1;
            }
            if decode_hex(p.flavors[fi].value.colors[ci].value.hex.as_str()).is_none() {
                let key = p.flavors[fi].value.colors[ci].value.hex.clone();
                proof {
                    let f0 = fi as int;
                    let c0 = ci as int;
                    assert(p.flavors@[f0].value.colors@[c0].value.hex@ == key@
                        && !is_well_formed_hex(key@) && 0 <= f0 < p.flavors@.len() && 0 <= c0
                        < p.flavors@[f0].value.colors@.len());
                    assert(shape_offender(*p, key@));
                }
                return Some(CompileError::SchemaShape { key });
            }
            ci += 1;
        }
        proof {
            assert forall|f: int, c: int|
                0 <= f < fi + 1 && 0 <= c < p.flavors@[f].value.colors@.len() implies
                is_well_formed_hex(#[trigger] p.flavors@[f].value.colors@[c].value.hex@) by {
                if f == fi as int {
                    assert(0 <= c < p.flavors@[fi as int].value.colors@.len());
                    assert(is_well_formed_hex(p.flavors@[fi as int].value.colors@[c].value.hex@));
                }
            }
        }
        fi += 1;
    }
    proof {
        assert forall|i: int, j: int| 0 <= i < j < flavor_keys(*p).len() implies flavor_keys(
            *p,
        )[i] != flavor_keys(*p)[j] by {
            assert(flavor_keys(*p)[i] == p.flavors@[i].key@);
            assert(flavor_keys(*p)[j] == p.flavors@[j].key@);
        }
    }
    None
}

/// Checks shape uniformity: every flavor's color-key set must equal the
/// canonical universe taken from the first flavor. Order differences
/// alone are accepted.
/// A uniformity-failure witness matching a `Uniformity` payload: the
/// named flavor's key set differs from the canonical universe, every
/// reported missing key is canonical but absent from that flavor, and
/// every reported extra key occurs in that flavor but is not canonical.
pub open spec fn uniformity_witness(
    p: PaletteSchema,
    flavor_key: Seq<char>,
    missing: Seq<String>,
    extra: Seq<String>,
) -> bool {
    exists|fi: int| {
        &&& 0 <= fi < p.flavors@.len()
        &&& #[trigger] p.flavors@[fi].key@ == flavor_key
        &&& !same_key_set(color_keys(p.flavors@[fi].value), canonical_keys(p))
        &&& forall|i: int| 0 <= i < missing.len() ==> canonical_keys(p).contains(
            #[trigger] missing[i]@,
        ) && !color_keys(p.flavors@[fi].value).contains(missing[i]@)
        &&& forall|i: int| 0 <= i < extra.len() ==> color_keys(p.flavors@[fi].value).contains(
            #[trigger] extra[i]@,
        ) && !canonical_keys(p).contains(extra[i]@)
    }
}

fn check_uniformity(p: &PaletteSchema) -> (r: Option<CompileError>)
    requires
        p.flavors@.len() > 0,
    ensures
        match r {
            None => uniform_ok(*p),
            Some(e) => !uniform_ok(*p) && match e {
                CompileError::Uniformity { flavor_key, missing, extra } => uniformity_witness(
                    *p,
                    flavor_key@,
                    missing@,
                    extra@,
                ),
                _ => false,
            },
        },
{
    let nf = p.flavors.len();
    let mut fi: usize = 0;
    while fi < nf
        invariant
            fi <= nf,
            nf == p.flavors@.len(),
            nf > 0,
            forall|f: int| 0 <= f < fi ==> same_key_set(
                color_keys(#[trigger] p.flavors@[f].value),
                canonical_keys(*p),
            ),
        decreases nf - fi,
    {
        let canonical = &p.flavors[0].value.colors;
        let flavor_colors = &p.flavors[fi].value.colors;
        let mut missing: Vec<String> = Vec::new();
        let mut extra: Vec<String> = Vec::new();
        let ghost fks = color_keys(p.flavors@[fi as int].value);
        let ghost cks = canonical_keys(*p);
        let mut ci: usize = 0;
        while ci < canonical.len()
            invariant
                ci <= canonical@.len(),
                fi < nf,
                nf == p.flavors@.len(),
                canonical@ == p.flavors@[0].value.colors@,
                flavor_colors@ == p.flavors@[fi as int].value.colors@,
                fks == color_keys(p.flavors@[fi as int].value),
                cks == canonical_keys(*p),
                cks.len() == canonical@.len(),
                forall|i: int| 0 <= i < missing@.len() ==> cks.contains(#[trigger] missing@[i]@)
                    && !fks.contains(missing@[i]@),
                missing@.len() == 0 ==> forall|c: int| 0 <= c < ci ==> fks.contains(
                    #[trigger] cks[c],
                ),
            decreases canonical@.len() - ci,
        {
            proof {
                assert(cks[ci as int] == p.flavors@[0].value.colors@[ci as int].key@);
            }
            let ghost old_missing = missing@;
            match find_color(flavor_colors, canonical[ci].key.as_str()) {
                Some(j) => {
                    proof {
                        assert(flavor_colors@[j as int].key@ == cks[ci as int]);
                        assert(fks[j as int] == p.flavors@[fi as int].value.colors@[
                            j as int
                        ].key@);
                        assert(fks.contains(cks[ci as int]));
                    }
                },
                None => {
                    proof {
                        assert forall|t: int| 0 <= t < fks.len() implies #[trigger] fks[t]
                            != cks[ci as int] by {
                            assert(fks[t] == p.flavors@[fi as int].value.colors@[t].key@);
                        }
                        assert(!fks.contains(cks[ci as int]));
                    }
                    missing.push(canonical[ci].key.clone());
                    proof {
                        assert(missing@ == old_missing + seq![canonical@[ci as int].key]);
                        assert forall|i: int| 0 <= i < missing@.len() implies cks.contains(
                            #[trigger] missing@[i]@,
                        ) && !fks.contains(missing@[i]@) by {
                            if i < old_missing.len() {
                                assert(missing@[i] == old_missing[i]);
                            } else {
                                assert(missing@[i]@ == cks[ci as int]);
                                assert(cks.contains(cks[ci as int]));
                            }
                        }
                    }
                },
            }
            ci += 1;
        }
        let mut fj: usize = 0;
        while fj < flavor_colors.len()
            invariant
                fj <= flavor_colors@.len(),
                fi < nf,
                nf == p.flavors@.len(),
                canonical@ == p.flavors@[0].value.colors@,
                flavor_colors@ == p.flavors@[fi as int].value.colors@,
                fks == color_keys(p.flavors@[fi as int].value),
                cks == canonical_keys(*p),
                cks.len() == canonical@.len(),
                fks.len() == flavor_colors@.len(),
                forall|i: int| 0 <= i < missing@.len() ==> cks.contains(#[trigger] missing@[i]@)
                    && !fks.contains(missing@[i]@),
                missing@.len() == 0 ==> forall|c: int| 0 <= c < cks.len() ==> fks.contains(
                    #[trigger] cks[c],
                ),
                forall|i: int| 0 <= i < extra@.len() ==> fks.contains(#[trigger] extra@[i]@)
                    && !cks.contains(extra@[i]@),
                extra@.len() == 0 ==> forall|c: int| 0 <= c < fj ==> cks.contains(
                    #[trigger] fks[c],
                ),
            decreases flavor_colors@.len() - fj,
        {
            proof {
                assert(fks[fj as int] == p.flavors@[fi as int].value.colors@[fj as int].key@);
            }
            let ghost old_extra = extra@;
            match find_color(canonical, flavor_colors[fj].key.as_str()) {
                Some(j) => {
                    proof {
                        assert(canonical@[j as int].key@ == fks[fj as int]);
                        assert(cks[j as int] == p.flavors@[0].value.colors@[j as int].key@);
                        assert(cks.contains(fks[fj as int]));
                    }
                },
                None => {
                    proof {
                        assert forall|t: int| 0 <= t < cks.len() implies #[trigger] cks[t]
                            != fks[fj as int] by {
                            assert(cks[t] == p.flavors@[0].value.colors@[t].key@);
                        }
                        assert(!cks.contains(fks[fj as int]));
                    }
                    extra.push(flavor_colors[fj].key.clone());
                    proof {
                        assert(extra@ == old_extra + seq![flavor_colors@[fj as int].key]);
                        assert forall|i: int| 0 <= i < extra@.len() implies fks.contains(
                            #[trigger] extra@[i]@,
                        ) && !cks.contains(extra@[i]@) by {
                            if i < old_extra.len() {
                                assert(extra@[i] == old_extra[i]);
                            } else {
                                assert(extra@[i]@ == fks[fj as int]);
                                assert(fks.contains(fks[fj as int]));
                            }
                        }
                    }
                },
            }
            fj += 1;
        }
        if missing.len() > 0 || extra.len() > 0 {
            let flavor_key = p.flavors[fi].key.clone();
            proof {
                let fi0 = fi as int;
                if missing@.len() > 0 {
                    assert(cks.contains(missing@[0]@) && !fks.contains(missing@[0]@));
                    let w = choose|w: int| 0 <= w < cks.len() && cks[w] == missing@[0]@;
                    assert(!same_key_set(fks, cks));
                } else {
                    assert(fks.contains(extra@[0]@) && !cks.contains(extra@[0]@));
                    let w = choose|w: int| 0 <= w < fks.len() && fks[w] == extra@[0]@;
                    assert(!same_key_set(fks, cks));
                }
                assert({
                    &&& 0 <= fi0 < p.flavors@.len()
                    &&& p.flavors@[fi0].key@ == flavor_key@
                    &&& !same_key_set(color_keys(p.flavors@[fi0].value), canonical_keys(*p))
                    &&& forall|i: int| 0 <= i < missing@.len() ==> canonical_keys(*p).contains(
                        #[trigger] missing@[i]@,
                    ) && !color_keys(p.flavors@[fi0].value).contains(missing@[i]@)
                    &&& forall|i: int| 0 <= i < extra@.len() ==> color_keys(
                        p.flavors@[fi0].value,
                    ).contains(#[trigger] extra@[i]@) && !canonical_keys(*p).contains(extra@[i]@)
                });
                assert(uniformity_witness(*p, flavor_key@, missing@, extra@));
                assert(!uniform_ok(*p));
            }
            return Some(CompileError::Uniformity { flavor_key, missing, extra });
        }
        proof {
            assert forall|c: int| 0 <= c < fks.len() implies cks.contains(#[trigger] fks[c]) by {}
            assert forall|c: int| 0 <= c < cks.len() implies fks.contains(#[trigger] cks[c]) by {}
            assert(same_key_set(fks, cks));
        }
        fi += 1;
    }
    None
}

/// The color record a key selects within a flavor; meaningful when the
/// key occurs and the flavor's keys are distinct.
/// The position of a key within a flavor's ordered colors; meaningful
/// when the key occurs.
pub open spec fn key_index(f: FlavorSchema, k: Seq<char>) -> int {
    choose|j: int| 0 <= j < f.colors@.len() && f.colors@[j].key@ == k
}

pub open spec fn color_with_key(f: FlavorSchema, k: Seq<char>) -> ColorSchema {
    f.colors@[key_index(f, k)].value
}

proof fn lemma_color_with_key_unique(f: FlavorSchema, k: Seq<char>, ji: int)
    requires
        keys_distinct(color_keys(f)),
        0 <= ji < f.colors@.len(),
        f.colors@[ji].key@ == k,
    ensures
        color_with_key(f, k) == f.colors@[ji].value,
{
    assert(exists|j: int| 0 <= j < f.colors@.len() && f.colors@[j].key@ == k);
    let j2 = key_index(f, k);
    assert(0 <= j2 < f.colors@.len() && f.colors@[j2].key@ == k);
    assert(color_keys(f)[ji] == f.colors@[ji].key@);
    assert(color_keys(f)[j2] == f.colors@[j2].key@);
    if ji != j2 {
        if ji < j2 {
            assert(color_keys(f)[ji] != color_keys(f)[j2]);
        } else {
            assert(color_keys(f)[j2] != color_keys(f)[ji]);
        }
        assert(false);
    }
}

/// The materialized constant value of one color record: the decoded
/// hex value, with RGB, HSL and accent carried through unchanged.
pub open spec fn spec_color_value(c: ColorSchema) -> Color {
    Color { hex: spec_hex_value(c.hex@) as u32, rgb: c.rgb, hsl: c.hsl, accent: c.accent }
}

/// The materialized data of one flavor: its dark flag and its colors
/// in canonical key order.
#[derive(Debug, Clone, PartialEq)]
pub struct FlavorData {
    pub dark: bool,
    pub colors: Vec<Color>,
}

/// The exact relation between materialized flavor data and its schema.
pub open spec fn flavor_data_matches(
    fd: FlavorData,
    f: FlavorSchema,
    canonical: Seq<Seq<char>>,
) -> bool {
    &&& fd.dark == f.dark
    &&& fd.colors@.len() == canonical.len()
    &&& forall|ci: int| 0 <= ci < canonical.len() ==> #[trigger] fd.colors@[ci]
        == spec_color_value(color_with_key(f, canonical[ci]))
}

fn rgb_compose(c: &Rgb) -> (v: u32)
    ensures
        v as nat == rgb_value(*c),
{
    c.r as u32 * 0x10000 + c.g as u32 * 0x100 + c.b as u32
}

/// The exact relation between the materialized flavor list and the
/// schema it came from.
pub open spec fn data_matches(fds: Seq<FlavorData>, p: PaletteSchema) -> bool {
    &&& fds.len() == p.flavors@.len()
    &&& forall|fi: int| 0 <= fi < p.flavors@.len() ==> flavor_data_matches(
        #[trigger] fds[fi],
        p.flavors@[fi].value,
        canonical_keys(p),
    )
}

/// A hex/RGB mismatch witness matching a `HexConsistency` payload.
pub open spec fn hex_mismatch_witness(
    p: PaletteSchema,
    flavor_key: Seq<char>,
    color_key: Seq<char>,
    decoded: u32,
    composed: u32,
) -> bool {
    exists|fi: int, ci: int| {
        &&& 0 <= fi < p.flavors@.len()
        &&& 0 <= ci < p.flavors@[fi].value.colors@.len()
        &&& #[trigger] p.flavors@[fi].key@ == flavor_key
        &&& #[trigger] p.flavors@[fi].value.colors@[ci].key@ == color_key
        &&& spec_hex_value(p.flavors@[fi].value.colors@[ci].value.hex@) == decoded as nat
        &&& rgb_value(p.flavors@[fi].value.colors@[ci].value.rgb) == composed as nat
        &&& decoded != composed
    }
}

/// What an `Err` of the materializer promises of its payload.
pub open spec fn hex_error_matches(e: CompileError, p: PaletteSchema) -> bool {
    match e {
        CompileError::HexConsistency { flavor_key, color_key, decoded, composed } =>
            hex_mismatch_witness(p, flavor_key@, color_key@, decoded, composed),
        _ => false,
    }
}

/// Materializes every flavor: decodes each hex field, enforces
/// hex/RGB consistency, and assembles each flavor's colors in
/// canonical key order.
/// What the materializer promises of its result.
pub open spec fn materialize_post(r: Result<Vec<FlavorData>, CompileError>, p: PaletteSchema) -> bool {
    match r {
        Ok(fds) => hex_all_ok(p) && data_matches(fds@, p),
        Err(e) => !hex_all_ok(p) && hex_error_matches(e, p),
    }
}

fn materialize(p: &PaletteSchema) -> (r: Result<Vec<FlavorData>, CompileError>)
    requires
        p.flavors@.len() > 0,
        shape_ok(*p),
        uniform_ok(*p),
    ensures
        materialize_post(r, *p),
{
    let nf = p.flavors.len();
    let mut fi: usize = 0;
    while fi < nf
        invariant
            fi <= nf,
            nf == p.flavors@.len(),
            shape_ok(*p),
            forall|f: int, c: int| 0 <= f < fi && 0 <= c < p.flavors@[f].value.colors@.len()
                ==> spec_hex_value(#[trigger] p.flavors@[f].value.colors@[c].value.hex@)
                    == rgb_value(p.flavors@[f].value.colors@[c].value.rgb),
        decreases nf - fi,
    {
        let nc = p.flavors[fi].value.colors.len();
        let mut ci: usize = 0;
        while ci < nc
            invariant
                ci <= nc,
                fi < nf,
                nf == p.flavors@.len(),
                nc == p.flavors@[fi as int].value.colors@.len(),
                shape_ok(*p),
                forall|c: int| 0 <= c < ci ==> spec_hex_value(
                    #[trigger] p.flavors@[fi as int].value.colors@[c].value.hex@,
                ) == rgb_value(p.flavors@[fi as int].value.colors@[c].value.rgb),
            decreases nc - ci,
        {
            let entry = &p.flavors[fi].value.colors[ci];
            let decoded = match decode_hex(entry.value.hex.as_str()) {
                Some(d) => d,
                None => {
                    proof {
                        assert(is_well_formed_hex(
                            p.flavors@[fi as int].value.colors@[ci as int].value.hex@,
                        ));
                    }
                    unreached()
                },
            };
            let composed = rgb_compose(&entry.value.rgb);
            if decoded != composed {
                let flavor_key = p.flavors[fi].key.clone();
                let color_key = p.flavors[fi].value.colors[ci].key.clone();
                proof {
                    let f0 = fi as int;
                    let c0 = ci as int;
                    assert({
                        &&& 0 <= f0 < p.flavors@.len()
                        &&& 0 <= c0 < p.flavors@[f0].value.colors@.len()
                        &&& p.flavors@[f0].key@ == flavor_key@
                        &&& p.flavors@[f0].value.colors@[c0].key@ == color_key@
                        &&& spec_hex_value(p.flavors@[f0].value.colors@[c0].value.hex@)
                            == decoded as nat
                        &&& rgb_value(p.flavors@[f0].value.colors@[c0].value.rgb) == composed as nat
                    });
                    assert(hex_mismatch_witness(*p, flavor_key@, color_key@, decoded, composed));
                }
                return Err(CompileError::HexConsistency {
                    flavor_key,
                    color_key,
                    decoded,
                    composed,
                });
            }
            ci += 1;
        }
        proof {
            assert forall|f: int, c: int|
                0 <= f < fi + 1 && 0 <= c < p.flavors@[f].value.colors@.len() implies
                spec_hex_value(#[trigger] p.flavors@[f].value.colors@[c].value.hex@) == rgb_value(
                p.flavors@[f].value.colors@[c].value.rgb,
            ) by {
                if f == fi as int {
                    assert(0 <= c < p.flavors@[fi as int].value.colors@.len());
                    assert(spec_hex_value(p.flavors@[fi as int].value.colors@[c].value.hex@)
                        == rgb_value(p.flavors@[fi as int].value.colors@[c].value.rgb));
                }
            }
        }
        fi += 1;
    }
    let mut fds: Vec<FlavorData> = Vec::new();
    let mut fx: usize = 0;
    while fx < nf
        invariant
            fx <= nf,
            nf == p.flavors@.len(),
            nf > 0,
            shape_ok(*p),
            uniform_ok(*p),
            hex_all_ok(*p),
            fds@.len() == fx,
            forall|f: int| 0 <= f < fx ==> flavor_data_matches(
                #[trigger] fds@[f],
                p.flavors@[f].value,
                canonical_keys(*p),
            ),
        decreases nf - fx,
    {
        let canonical = &p.flavors[0].value.colors;
        let flavor_colors = &p.flavors[fx].value.colors;
        let ghost cks = canonical_keys(*p);
        let ghost f = p.flavors@[fx as int].value;
        let mut colors: Vec<Color> = Vec::new();
        let mut ci: usize = 0;
        while ci < canonical.len()
            invariant
                ci <= canonical@.len(),
                fx < nf,
                nf == p.flavors@.len(),
                canonical@ == p.flavors@[0].value.colors@,
                flavor_colors@ == p.flavors@[fx as int].value.colors@,
                cks == canonical_keys(*p),
                cks.len() == canonical@.len(),
                f == p.flavors@[fx as int].value,
                shape_ok(*p),
                uniform_ok(*p),
                hex_all_ok(*p),
                colors@.len() == ci,
                forall|c: int| 0 <= c < ci ==> #[trigger] colors@[c] == spec_color_value(
                    color_with_key(f, cks[c]),
                ),
            decreases canonical@.len() - ci,
        {
            proof {
                assert(cks[ci as int] == p.flavors@[0].value.colors@[ci as int].key@);
            }
            let j = match find_color(flavor_colors, canonical[ci].key.as_str()) {
                Some(j) => j,
                None => {
                    proof {
                        assert(same_key_set(color_keys(f), cks));
                        assert(cks.contains(cks[ci as int]));
                        let w = choose|w: int| 0 <= w < color_keys(f).len() && color_keys(f)[w]
                            == cks[ci as int];
                        assert(color_keys(f)[w] == f.colors@[w].key@);
                        assert(false);
                    }
                    unreached()
                },
            };
            let entry = &flavor_colors[j];
            let decoded = match decode_hex(entry.value.hex.as_str()) {
                Some(d) => d,
                None => {
                    proof {
                        assert(is_well_formed_hex(f.colors@[j as int].value.hex@));
                    }
                    unreached()
                },
            };
            let c = Color {
                hex: decoded,
                rgb: entry.value.rgb,
                hsl: entry.value.hsl,
                accent: entry.value.accent,
            };
            proof {
                lemma_color_with_key_unique(f, cks[ci as int], j as int);
                assert(c == spec_color_value(color_with_key(f, cks[ci as int])));
            }
            colors.push(c);
            ci += 1;
        }
        let fd = FlavorData { dark: p.flavors[fx].value.dark, colors };
        proof {
            assert(flavor_data_matches(fd, p.flavors@[fx as int].value, canonical_keys(*p)));
        }
        fds.push(fd);
        fx += 1;
    }
    Ok(fds)
}


/// The generated artifact: the three enumerations, the field lists of
/// the two aggregate value types, and the materialized palette data,
/// all in schema declaration order.
#[derive(Debug, Clone, PartialEq)]
pub struct Artifact {
    pub flavor_names: EnumDef,
    pub flavor_idents: EnumDef,
    pub color_idents: EnumDef,
    pub palette_fields: EnumDef,
    pub colors_fields: EnumDef,
    pub flavors: Vec<FlavorData>,
}

/// The exact relation between a compiled artifact and its schema.
pub open spec fn artifact_matches(a: Artifact, p: PaletteSchema) -> bool {
    &&& enum_matches(a.flavor_names, flavor_names(p), true)
    &&& enum_matches(a.flavor_idents, flavor_keys(p), true)
    &&& enum_matches(a.color_idents, canonical_keys(p), true)
    &&& enum_matches(a.palette_fields, flavor_keys(p), false)
    &&& enum_matches(a.colors_fields, canonical_keys(p), false)
    &&& data_matches(a.flavors@, p)
}

/// A collision witness in one of the five generated namespaces.
pub open spec fn collision_witness(
    p: PaletteSchema,
    first: Seq<char>,
    second: Seq<char>,
    ident: Seq<char>,
) -> bool {
    ||| collision_in(flavor_names(p), true, first, second, ident)
    ||| collision_in(flavor_keys(p), true, first, second, ident)
    ||| collision_in(flavor_keys(p), false, first, second, ident)
    ||| collision_in(canonical_keys(p), true, first, second, ident)
    ||| collision_in(canonical_keys(p), false, first, second, ident)
}

/// What each error of the compiler says of the schema: which stage
/// rejected it, with a witness matching the reported payload. Earlier
/// stages passing is part of each later stage's condition.
pub open spec fn compile_error_matches(e: CompileError, p: PaletteSchema) -> bool {
    match e {
        CompileError::SchemaShape { key } => !shape_ok(p) && shape_offender(p, key@),
        CompileError::Uniformity { flavor_key, missing, extra } => shape_ok(p) && !uniform_ok(p)
            && uniformity_witness(p, flavor_key@, missing@, extra@),
        CompileError::IdentifierCollision { first, second, ident } => shape_ok(p) && uniform_ok(p)
            && collision_witness(p, first@, second@, ident@),
        CompileError::HexConsistency { flavor_key, color_key, decoded, composed } => shape_ok(p)
            && uniform_ok(p) && namespaces_ok(p) && !hex_all_ok(p) && hex_mismatch_witness(
            p,
            flavor_key@,
            color_key@,
            decoded,
            composed,
        ),
    }
}

fn flavor_name_list(p: &PaletteSchema) -> (r: Vec<String>)
    ensures
        str_views(r@) == flavor_names(*p),
{
    let mut r: Vec<String> = Vec::new();
    let mut i: usize = 0;
    while i < p.flavors.len()
        invariant
            i <= p.flavors@.len(),
            r@.len() == i,
            forall|j: int| 0 <= j < i ==> #[trigger] r@[j]@ == p.flavors@[j].value.name@,
        decreases p.flavors@.len() - i,
    {
        r.push(p.flavors[i].value.name.clone());
        i += 1;
    }
    proof {
        assert forall|j: int| 0 <= j < r@.len() implies #[trigger] str_views(r@)[j]
            == flavor_names(*p)[j] by {
            assert(str_views(r@)[j] == r@[j]@);
            assert(flavor_names(*p)[j] == p.flavors@[j].value.name@);
        }
        assert(str_views(r@) =~= flavor_names(*p));
    }
    r
}

fn flavor_key_list(p: &PaletteSchema) -> (r: Vec<String>)
    ensures
        str_views(r@) == flavor_keys(*p),
{
    let mut r: Vec<String> = Vec::new();
    let mut i: usize = 0;
    while i < p.flavors.len()
        invariant
            i <= p.flavors@.len(),
            r@.len() == i,
            forall|j: int| 0 <= j < i ==> #[trigger] r@[j]@ == p.flavors@[j].key@,
        decreases p.flavors@.len() - i,
    {
        r.push(p.flavors[i].key.clone());
        i += 1;
    }
    proof {
        assert forall|j: int| 0 <= j < r@.len() implies #[trigger] str_views(r@)[j]
            == flavor_keys(*p)[j] by {
            assert(str_views(r@)[j] == r@[j]@);
            assert(flavor_keys(*p)[j] == p.flavors@[j].key@);
        }
        assert(str_views(r@) =~= flavor_keys(*p));
    }
    r
}

fn canonical_key_list(p: &PaletteSchema) -> (r: Vec<String>)
    requires
        p.flavors@.len() > 0,
    ensures
        str_views(r@) == canonical_keys(*p),
{
    let first = &p.flavors[0].value.colors;
    let mut r: Vec<String> = Vec::new();
    let mut i: usize = 0;
    while i < first.len()
        invariant
            i <= first@.len(),
            first@ == p.flavors@[0].value.colors@,
            r@.len() == i,
            forall|j: int| 0 <= j < i ==> #[trigger] r@[j]@ == p.flavors@[0].value.colors@[j].key@,
        decreases first@.len() - i,
    {
        r.push(first[i].key.clone());
        i += 1;
    }
    proof {
        assert forall|j: int| 0 <= j < r@.len() implies #[trigger] str_views(r@)[j]
            == canonical_keys(*p)[j] by {
            assert(str_views(r@)[j] == r@[j]@);
            assert(canonical_keys(*p)[j] == p.flavors@[0].value.colors@[j].key@);
        }
        assert(str_views(r@) =~= canonical_keys(*p));
    }
    r
}

/// Compiles a palette schema into the generated artifact. Succeeds
/// exactly when the document shape, shape uniformity, identifier
/// uniqueness and hex/RGB consistency all hold; otherwise reports the
/// first violated invariant with its offending keys and values.
pub fn compile(p: &PaletteSchema) -> (r: Result<Artifact, CompileError>)
    requires
        p.flavors@.len() > 0,
    ensures
        match r {
            Ok(a) => shape_ok(*p) && uniform_ok(*p) && namespaces_ok(*p) && hex_all_ok(*p)
                && artifact_matches(a, *p),
            Err(e) => compile_error_matches(e, *p),
        },
{
    if let Some(e) = check_shape(p) {
        return Err(e);
    }
    if let Some(e) = check_uniformity(p) {
        return Err(e);
    }
    let name_list = flavor_name_list(p);
    let key_list = flavor_key_list(p);
    let canon_list = canonical_key_list(p);
    let flavor_names_enum = match build_enum(&name_list, true) {
        Ok(d) => d,
        Err(e) => {
            return Err(e);
        },
    };
    let flavor_idents_enum = match build_enum(&key_list, true) {
        Ok(d) => d,
        Err(e) => {
            return Err(e);
        },
    };
    let palette_fields = match build_enum(&key_list, false) {
        Ok(d) => d,
        Err(e) => {
            return Err(e);
        },
    };
    let color_idents_enum = match build_enum(&canon_list, true) {
        Ok(d) => d,
        Err(e) => {
            return Err(e);
        },
    };
    let colors_fields = match build_enum(&canon_list, false) {
        Ok(d) => d,
        Err(e) => {
            return Err(e);
        },
    };
    let flavors = match materialize(p) {
        Ok(v) => v,
        Err(e) => {
            return Err(e);
        },
    };
    Ok(Artifact {
        flavor_names: flavor_names_enum,
        flavor_idents: flavor_idents_enum,
        color_idents: color_idents_enum,
        palette_fields,
        colors_fields,
        flavors,
    })
}


/// Law: hex/RGB agreement of every materialized color. In any flavor
/// data that a schema compiles to, each color's packed hex value is
/// exactly the 24-bit value composed from its RGB triple.
pub proof fn lemma_generated_hex_rgb_agreement(
    fds: Seq<FlavorData>,
    p: PaletteSchema,
    fi: int,
    ci: int,
)
    requires
        shape_ok(p),
        uniform_ok(p),
        hex_all_ok(p),
        data_matches(fds, p),
        0 <= fi < fds.len(),
        0 <= ci < fds[fi].colors@.len(),
    ensures
        fds[fi].colors@[ci].hex as nat == rgb_value(fds[fi].colors@[ci].rgb),
        fds[fi].colors@[ci].hex < 0x1000000,
{
    let f = p.flavors@[fi].value;
    let cks = canonical_keys(p);
    assert(flavor_data_matches(fds[fi], f, cks));
    assert(fds[fi].colors@[ci] == spec_color_value(color_with_key(f, cks[ci])));
    assert(same_key_set(color_keys(f), cks));
    assert(cks[ci] == p.flavors@[0].value.colors@[ci].key@);
    assert(cks.contains(cks[ci]));
    let w = choose|w: int| 0 <= w < color_keys(f).len() && color_keys(f)[w] == cks[ci];
    assert(color_keys(f)[w] == f.colors@[w].key@);
    assert(exists|j: int| 0 <= j < f.colors@.len() && f.colors@[j].key@ == cks[ci]);
    let j = key_index(f, cks[ci]);
    assert(0 <= j < f.colors@.len() && f.colors@[j].key@ == cks[ci]);
    assert(color_with_key(f, cks[ci]) == f.colors@[j].value);
    assert(spec_hex_value(f.colors@[j].value.hex@) == rgb_value(f.colors@[j].value.rgb));
    assert(is_well_formed_hex(f.colors@[j].value.hex@));
    crate::hex::lemma_well_formed_hex_bound(f.colors@[j].value.hex@);
}


/// Size and bound agreements every compiled artifact has; what the
/// document serializer needs of its input.
pub open spec fn artifact_sizes_ok(a: Artifact) -> bool {
    &&& a.flavor_names.variants@.len() == a.flavors@.len()
    &&& a.flavor_idents.variants@.len() == a.flavors@.len()
    &&& forall|fi: int| 0 <= fi < a.flavors@.len() ==> #[trigger] a.flavors@[fi].colors@.len()
        == a.color_idents.variants@.len()
    &&& forall|fi: int, ci: int|
        0 <= fi < a.flavors@.len() && 0 <= ci < a.flavors@[fi].colors@.len()
            ==> #[trigger] a.flavors@[fi].colors@[ci].hex < 0x1000000
}

/// Law: an artifact the compiler accepts always has consistent sizes
/// and 24-bit hex values.
pub proof fn lemma_compiled_artifact_sizes(a: Artifact, p: PaletteSchema)
    requires
        shape_ok(p),
        uniform_ok(p),
        hex_all_ok(p),
        artifact_matches(a, p),
    ensures
        artifact_sizes_ok(a),
{
    assert forall|fi: int| 0 <= fi < a.flavors@.len() implies #[trigger] a.flavors@[fi].colors@.len()
        == a.color_idents.variants@.len() by {
        assert(flavor_data_matches(a.flavors@[fi], p.flavors@[fi].value, canonical_keys(p)));
    }
    assert forall|fi: int, ci: int|
        0 <= fi < a.flavors@.len() && 0 <= ci < a.flavors@[fi].colors@.len() implies #[trigger] a
        .flavors@[fi].colors@[ci].hex < 0x1000000 by {
        lemma_generated_hex_rgb_agreement(a.flavors@, p, fi, ci);
    }
}

/// One serialized color entry of the interchange document.
pub open spec fn color_entry_matches(ce: ColorEntry, a: Artifact, fi: int, ci: int) -> bool {
    &&& ce.key@ == a.color_idents.variants@[ci].original@
    &&& ce.value.hex@ == crate::hex::spec_hex_string(a.flavors@[fi].colors@[ci].hex as nat)
    &&& ce.value.rgb == a.flavors@[fi].colors@[ci].rgb
    &&& ce.value.hsl == a.flavors@[fi].colors@[ci].hsl
    &&& ce.value.accent == a.flavors@[fi].colors@[ci].accent
}

/// One serialized flavor entry of the interchange document.
pub open spec fn flavor_entry_matches(fe: FlavorEntry, a: Artifact, fi: int) -> bool {
    &&& fe.key@ == a.flavor_idents.variants@[fi].original@
    &&& fe.value.name@ == a.flavor_names.variants@[fi].original@
    &&& fe.value.dark == a.flavors@[fi].dark
    &&& fe.value.colors@.len() == a.flavors@[fi].colors@.len()
    &&& forall|ci: int| 0 <= ci < fe.value.colors@.len() ==> color_entry_matches(
        #[trigger] fe.value.colors@[ci],
        a,
        fi,
        ci,
    )
}

/// The exact relation between a serialized document and its artifact:
/// the same shape as the input schema, original strings carried back,
/// hex fields rendered canonically.
pub open spec fn document_matches(s: PaletteSchema, a: Artifact) -> bool {
    &&& s.flavors@.len() == a.flavors@.len()
    &&& forall|fi: int| 0 <= fi < s.flavors@.len() ==> flavor_entry_matches(
        #[trigger] s.flavors@[fi],
        a,
        fi,
    )
}

/// Serializes a compiled artifact back to the interchange document
/// shape.
pub fn to_schema(a: &Artifact) -> (s: PaletteSchema)
    requires
        artifact_sizes_ok(*a),
    ensures
        document_matches(s, *a),
{
    let mut flavors: Vec<FlavorEntry> = Vec::new();
    let nf = a.flavors.len();
    let mut fi: usize = 0;
    while fi < nf
        invariant
            fi <= nf,
            nf == a.flavors@.len(),
            artifact_sizes_ok(*a),
            flavors@.len() == fi,
            forall|f: int| 0 <= f < fi ==> flavor_entry_matches(#[trigger] flavors@[f], *a, f),
        decreases nf - fi,
    {
        let nc = a.flavors[fi].colors.len();
        let mut colors: Vec<ColorEntry> = Vec::new();
        let mut ci: usize = 0;
        while ci < nc
            invariant
                ci <= nc,
                fi < nf,
                nf == a.flavors@.len(),
                nc == a.flavors@[fi as int].colors@.len(),
                artifact_sizes_ok(*a),
                colors@.len() == ci,
                forall|c: int| 0 <= c < ci ==> color_entry_matches(
                    #[trigger] colors@[c],
                    *a,
                    fi as int,
                    c,
                ),
            decreases nc - ci,
        {
            let c = &a.flavors[fi].colors[ci];
            let ce = ColorEntry {
                key: a.color_idents.variants[ci].original.clone(),
                value: ColorSchema {
                    hex: crate::hex::encode_hex(c.hex),
                    rgb: c.rgb,
                    hsl: c.hsl,
                    accent: c.accent,
                },
            };
            colors.push(ce);
            ci += 1;
        }
        let fe = FlavorEntry {
            key: a.flavor_idents.variants[fi].original.clone(),
            value: FlavorSchema {
                name: a.flavor_names.variants[fi].original.clone(),
                dark: a.flavors[fi].dark,
                colors,
            },
        };
        flavors.push(fe);
        fi += 1;
    }
    PaletteSchema { flavors }
}

/// Law: document round trip of one color record. Re-materializing a
/// serialized color yields the same value in every field.
pub proof fn lemma_color_document_round_trip(ce: ColorEntry, a: Artifact, fi: int, ci: int)
    requires
        color_entry_matches(ce, a, fi, ci),
        0 <= fi < a.flavors@.len(),
        0 <= ci < a.flavors@[fi].colors@.len(),
        a.flavors@[fi].colors@[ci].hex < 0x1000000,
    ensures
        spec_color_value(ce.value) == a.flavors@[fi].colors@[ci],
{
    crate::hex::lemma_hex_round_trip(a.flavors@[fi].colors@[ci].hex as nat);
}

proof fn lemma_no_collision_distinct(os: Seq<Seq<char>>, capitalized: bool)
    requires
        no_collision(os, capitalized),
    ensures
        keys_distinct(os),
{
    assert forall|i: int, j: int| 0 <= i < j < os.len() implies os[i] != os[j] by {
        assert(norm_of(os[i], capitalized) != norm_of(os[j], capitalized));
    }
}

/// Law: document round trip of the whole generated constant. Serialize
/// a compiled artifact to the interchange document, re-materialize the
/// document, and every flavor's data comes back equal in every field.
pub proof fn lemma_document_round_trip(
    p: PaletteSchema,
    a: Artifact,
    s: PaletteSchema,
    fds2: Seq<FlavorData>,
)
    requires
        p.flavors@.len() > 0,
        shape_ok(p),
        uniform_ok(p),
        namespaces_ok(p),
        hex_all_ok(p),
        artifact_matches(a, p),
        document_matches(s, a),
        data_matches(fds2, s),
    ensures
        fds2.len() == a.flavors@.len(),
        forall|fi: int| 0 <= fi < fds2.len() ==> #[trigger] fds2[fi].dark == a.flavors@[fi].dark,
        forall|fi: int| 0 <= fi < fds2.len() ==> #[trigger] fds2[fi].colors@
            =~= a.flavors@[fi].colors@,
{
    lemma_compiled_artifact_sizes(a, p);
    let cks = canonical_keys(s);
    assert(s.flavors@.len() == a.flavors@.len());
    assert(flavor_entry_matches(s.flavors@[0], a, 0));
    assert forall|ci: int| 0 <= ci < cks.len() implies #[trigger] cks[ci]
        == a.color_idents.variants@[ci].original@ by {
        assert(cks[ci] == s.flavors@[0].value.colors@[ci].key@);
        assert(color_entry_matches(s.flavors@[0].value.colors@[ci], a, 0, ci));
    }
    assert(cks.len() == a.color_idents.variants@.len());
    assert forall|ci: int| 0 <= ci < cks.len() implies #[trigger] cks[ci]
        == canonical_keys(p)[ci] by {
        assert(a.color_idents.variants@[ci].original@ == canonical_keys(p)[ci]);
    }
    assert(cks =~= canonical_keys(p));
    lemma_no_collision_distinct(canonical_keys(p), true);
    assert forall|fi: int| 0 <= fi < fds2.len() implies #[trigger] fds2[fi].colors@
        =~= a.flavors@[fi].colors@ by {
        assert(flavor_entry_matches(s.flavors@[fi], a, fi));
        assert(flavor_data_matches(fds2[fi], s.flavors@[fi].value, cks));
        let f = s.flavors@[fi].value;
        assert forall|ci: int| 0 <= ci < cks.len() implies #[trigger] fds2[fi].colors@[ci]
            == a.flavors@[fi].colors@[ci] by {
            assert(color_entry_matches(f.colors@[ci], a, fi, ci));
            assert forall|t: int| 0 <= t < color_keys(f).len() implies #[trigger] color_keys(
                f,
            )[t] == cks[t] by {
                assert(color_entry_matches(f.colors@[t], a, fi, t));
                assert(color_keys(f)[t] == f.colors@[t].key@);
            }
            assert(color_keys(f) =~= cks);
            assert(f.colors@[ci].key@ == cks[ci]);
            lemma_color_with_key_unique(f, cks[ci], ci);
            assert(fds2[fi].colors@[ci] == spec_color_value(color_with_key(f, cks[ci])));
            lemma_color_document_round_trip(f.colors@[ci], a, fi, ci);
        }
    }
    assert forall|fi: int| 0 <= fi < fds2.len() implies #[trigger] fds2[fi].dark
        == a.flavors@[fi].dark by {
        assert(flavor_entry_matches(s.flavors@[fi], a, fi));
        assert(flavor_data_matches(fds2[fi], s.flavors@[fi].value, cks));
    }
}

} // verus!
