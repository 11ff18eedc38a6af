//! Blood-glucose values: a reading tagged with its unit, conversion
//! between mg/dL and mmol/L, display, and the parser for free-form
//! readings.
//!
//! One millimole of glucose per litre is 18.015588 milligrams per
//! decilitre. A mg/dL reading is an integer count; a mmol/L reading is a
//! [`Decimal`]. Converting to mg/dL rounds to the nearest integer, ties
//! away from zero; converting to mmol/L rounds to the nearest millionth.

use vstd::prelude::*;

use crate::decimal::{is_number, number_micros, parse_number, Decimal};
use crate::rounding::{
    lemma_rdiv_error, lemma_rdiv_monotone, lemma_rdiv_neg, lemma_rdiv_nonneg, lemma_rdiv_unique,
    rdiv, rdiv_i128,
};
use crate::text::{
    chars_eq_str, chars_of, dec_str, decomma_chars, decommaed, digit_char, int_str,
    is_numeric_shape, is_numeric_shape_char, lower, lower_chars, push_int, push_uint,
    lemma_decomma_trim_commute, lemma_lower_trim_commute, string_of_chars, subvec, trim_chars,
    trimmed,
};

verus! {

/// Micrograms per decilitre in one thousandth of a mmol/L: the conversion
/// factor 18.015588 scaled to millionths.
pub open spec fn mgdl_per_mmol_micros() -> int {
    18015588
}

/// A glucose reading: either an integer count in mg/dL or a decimal
/// number of mmol/L.
#[derive(Clone, Copy, Debug, PartialEq, Eq, Structural)]
pub enum Glucose {
    MgDl(i32),
    Mmol(Decimal),
}

/// A unit a caller can name explicitly when asking for a parse or a
/// conversion.
#[derive(Clone, Copy, Debug, PartialEq, Eq, Structural)]
pub enum GlucoseUnit {
    Mgdl,
    Mmol,
}

/// The canonical label of a unit.
pub open spec fn unit_label(u: GlucoseUnit) -> Seq<char> {
    match u {
        GlucoseUnit::Mgdl => "mg/dL"@,
        GlucoseUnit::Mmol => "mmol/L"@,
    }
}

impl GlucoseUnit {
    /// The canonical unit label, as shown to users and accepted back by
    /// the parser.
    pub fn name(&self) -> (r: String)
        ensures
            r@ == unit_label(*self),
    {
        match self {
            GlucoseUnit::Mgdl => String::from_str("mg/dL"),
            GlucoseUnit::Mmol => String::from_str("mmol/L"),
        }
    }
}

/// The mg/dL count nearest to a mmol/L value given in millionths.
pub open spec fn mgdl_of_mmol_micros(v: int) -> int {
    rdiv(v * mgdl_per_mmol_micros(), 1000000000000)
}

/// The millionths of a mmol/L nearest to an integer mg/dL count.
pub open spec fn mmol_micros_of_mgdl(m: int) -> int {
    rdiv(m * 1000000000000, mgdl_per_mmol_micros())
}

/// The numeric magnitude of a reading in mg/dL: the count itself, or the
/// nearest count for a mmol/L reading.
pub open spec fn mgdl_value(g: Glucose) -> int {
    match g {
        Glucose::MgDl(m) => m as int,
        Glucose::Mmol(d) => mgdl_of_mmol_micros(d.micros as int),
    }
}

/// The reading converted to mg/dL; a mg/dL reading is unchanged.
pub open spec fn spec_to_mgdl(g: Glucose) -> Glucose {
    match g {
        Glucose::MgDl(_) => g,
        Glucose::Mmol(d) => Glucose::MgDl(mgdl_of_mmol_micros(d.micros as int) as i32),
    }
}

/// The reading converted to mmol/L; a mmol/L reading is unchanged.
pub open spec fn spec_to_mmol(g: Glucose) -> Glucose {
    match g {
        Glucose::MgDl(m) => Glucose::Mmol(Decimal { micros: mmol_micros_of_mgdl(m as int) as i64 }),
        Glucose::Mmol(_) => g,
    }
}

/// The reading converted to the opposite unit.
pub open spec fn spec_convert(g: Glucose) -> Glucose {
    match g {
        Glucose::MgDl(_) => spec_to_mmol(g),
        Glucose::Mmol(_) => spec_to_mgdl(g),
    }
}

impl Glucose {
    /// A machine bound, not a medical one: a mmol/L reading is
    /// well formed when its mg/dL equivalent fits an `i32` count.
    /// Every parsed reading is far inside the bound.
    pub open spec fn wf(self) -> bool {
        match self {
            Glucose::MgDl(_) => true,
            Glucose::Mmol(d) => -2147483648 <= mgdl_of_mmol_micros(d.micros as int)
                <= 2147483647,
        }
    }

    /// The numeric magnitude of the reading in mg/dL, rounded to the
    /// nearest integer count.
    pub fn as_mgdl_value(self) -> (r: i32)
        requires
            self.wf(),
        ensures
            Glucose::MgDl(r) == spec_to_mgdl(self),
            r as int == mgdl_value(self),
    {
        match self {
            Glucose::MgDl(m) => m,
            Glucose::Mmol(d) => {
                rdiv_i128((d.micros as i128) * 18015588, 1000000000000) as i32
            },
        }
    }

    /// Converts the value to mg/dL.
    /// If the value is already in mg/dL, it returns itself.
    pub fn to_mgdl(self) -> (r: Glucose)
        requires
            self.wf(),
        ensures
            r == spec_to_mgdl(self),
            r.wf(),
    {
        match self {
            Glucose::MgDl(_) => self,
            Glucose::Mmol(_) => Glucose::MgDl(self.as_mgdl_value()),
        }
    }

    /// Converts the value to mmol/L.
    /// If the value is already in mmol/L, it returns itself.
    pub fn to_mmol(self) -> (r: Glucose)
        ensures
            r == spec_to_mmol(self),
            self.wf() ==> r.wf(),
    {
        match self {
            Glucose::MgDl(m) => {
                proof {
                    lemma_mmol_of_mgdl_bound(m as int);
                    lemma_mgdl_mmol_round_trip(m as int);
                }
                Glucose::Mmol(
                    Decimal { micros: rdiv_i128((m as i128) * 1000000000000, 18015588) as i64 },
                )
            },
            Glucose::Mmol(_) => self,
        }
    }

    /// Convert this [`Glucose`] into the opposite unit.
    pub fn convert(&self) -> (r: Glucose)
        requires
            self.wf(),
        ensures
            r == spec_convert(*self),
            r.wf(),
    {
        match self {
            Glucose::MgDl(_) => self.to_mmol(),
            Glucose::Mmol(_) => self.to_mgdl(),
        }
    }
}

/// The unit suffix of a displayed mg/dL reading.
pub open spec fn mgdl_suffix() -> Seq<char> {
    seq![' ', 'm', 'g', '/', 'd', 'L']
}

/// The unit suffix of a displayed mmol/L reading.
pub open spec fn mmol_suffix() -> Seq<char> {
    seq![' ', 'm', 'm', 'o', 'l', '/', 'L']
}

/// The text of a mmol/L count of millionths, rounded to one decimal
/// place, ties away from zero, the sign taken from the exact value.
pub open spec fn mmol_text(v: int) -> Seq<char> {
    let t = rdiv(if v < 0 { -v } else { v }, 100000);
    (if v < 0 { seq!['-'] } else { Seq::<char>::empty() }) + dec_str(t / 10) + seq!['.'] + seq![
        digit_char(t % 10),
    ]
}

/// The display text of a reading: the count and its unit for mg/dL, the
/// value to one decimal place and its unit for mmol/L.
pub open spec fn spec_display(g: Glucose) -> Seq<char> {
    match g {
        Glucose::MgDl(m) => int_str(m as int) + mgdl_suffix(),
        Glucose::Mmol(d) => mmol_text(d.micros as int) + mmol_suffix(),
    }
}

impl Glucose {
    /// Renders the reading: `"120 mg/dL"`, or `"6.4 mmol/L"` with one
    /// decimal place kept, a trailing zero included.
    pub fn display(&self) -> (r: String)
        requires
            self.wf(),
        ensures
            r@ == spec_display(*self),
    {
        match self {
            Glucose::MgDl(m) => {
                let mut s = String::new();
                push_int(&mut s, *m as i64);
                s.append(" mg/dL");
                proof {
                    reveal_strlit(" mg/dL");
                    assert(" mg/dL"@ =~= mgdl_suffix());
                    assert(s@ =~= spec_display(*self));
                }
                s
            },
            Glucose::Mmol(d) => {
                proof {
                    if d.micros < -200000000000000 {
                        lemma_rdiv_monotone(
                            d.micros as int * 18015588,
                            (-200000000000000int) * 18015588,
                            1000000000000int,
                        );
                        lemma_rdiv_neg(200000000000000int * 18015588, 1000000000000int);
                    }
                    if d.micros > 200000000000000 {
                        lemma_rdiv_monotone(
                            200000000000000int * 18015588,
                            d.micros as int * 18015588,
                            1000000000000int,
                        );
                    }
                }
                let mag: i64 = if d.micros < 0 {
                    -d.micros
                } else {
                    d.micros
                };
                proof {
                    lemma_rdiv_nonneg(mag as int, 100000);
                    lemma_rdiv_monotone(mag as int, 200000000000000int, 100000int);
                }
                let t: u64 = rdiv_i128(mag as i128, 100000) as u64;
                let mut s = String::new();
                if d.micros < 0 {
                    s.append("-");
                    proof {
                        reveal_strlit("-");
                        assert("-"@ =~= seq!['-']);
                    }
                }
                push_uint(&mut s, t / 10);
                s.append(".");
                push_uint(&mut s, t % 10);
                s.append(" mmol/L");
                proof {
                    reveal_strlit(".");
                    reveal_strlit(" mmol/L");
                    assert("."@ =~= seq!['.']);
                    assert(" mmol/L"@ =~= mmol_suffix());
                    assert(dec_str(t as int % 10) =~= seq![digit_char(t as int % 10)]);
                    assert(s@ =~= spec_display(*self));
                }
                s
            },
        }
    }
}

/// An `i32` mg/dL count converts to a bounded count of millionths of a
/// mmol/L: the extreme counts convert to 119201418627025 and
/// -119201418682532 millionths.
proof fn lemma_mmol_of_mgdl_bound(m: int)
    requires
        -2147483648 <= m <= 2147483647,
    ensures
        -119201418682532 <= mmol_micros_of_mgdl(m) <= 119201418627025,
{
    lemma_rdiv_monotone(m * 1000000000000, 2147483647int * 1000000000000, 18015588int);
    lemma_rdiv_monotone((-2147483648int) * 1000000000000, m * 1000000000000, 18015588int);
    lemma_rdiv_neg(2147483648int * 1000000000000, 18015588int);
}

/// Converting an mg/dL count to mmol/L and back returns the very count it
/// started from: the conversion factor is so much finer than the mmol/L
/// grid that the round trip is exact, for every integer count.
pub proof fn lemma_mgdl_mmol_round_trip(m: int)
    ensures
        mgdl_of_mmol_micros(mmol_micros_of_mgdl(m)) == m,
{
    let v = mmol_micros_of_mgdl(m);
    lemma_rdiv_error(m * 1000000000000int, 18015588int);
    lemma_rdiv_unique(v * 18015588int, 1000000000000int, m);
}

/// The round trip at the level of readings: mg/dL to mmol/L and back is
/// the identity.
pub proof fn lemma_convert_round_trip(m: i32)
    ensures
        spec_convert(spec_convert(Glucose::MgDl(m))) == Glucose::MgDl(m),
        spec_to_mgdl(spec_to_mmol(Glucose::MgDl(m))) == Glucose::MgDl(m),
{
    lemma_mmol_of_mgdl_bound(m as int);
    lemma_mgdl_mmol_round_trip(m as int);
}

/// Converting to a unit a reading already has changes nothing, so each
/// directed conversion is idempotent.
pub proof fn lemma_conversions_idempotent(g: Glucose)
    ensures
        spec_to_mgdl(spec_to_mgdl(g)) == spec_to_mgdl(g),
        spec_to_mmol(spec_to_mmol(g)) == spec_to_mmol(g),
{
}

/// The normalised input: trimmed, with decimal commas replaced by
/// decimal points.
pub open spec fn norm(s: Seq<char>) -> Seq<char> {
    decommaed(trimmed(s))
}

/// Where the numeric prefix ends: the position of the first character
/// that is not a digit, a decimal point or a minus sign, or the length if
/// every character qualifies.
pub open spec fn split_idx(s: Seq<char>) -> int
    decreases s.len(),
{
    if s.len() == 0 {
        0
    } else if !is_numeric_shape_char(s[0]) {
        0
    } else {
        1 + split_idx(s.drop_first())
    }
}

proof fn lemma_split_idx_at(s: Seq<char>, k: int)
    requires
        0 <= k <= s.len(),
        forall|i: int| 0 <= i < k ==> is_numeric_shape_char(#[trigger] s[i]),
        k < s.len() ==> !is_numeric_shape_char(s[k]),
    ensures
        split_idx(s) == k,
    decreases k + 1,
{
    if s.len() == 0 {
    } else if k == 0 {
    } else {
        let t = s.drop_first();
        assert(forall|i: int| 0 <= i < k - 1 ==> is_numeric_shape_char(#[trigger] t[i]));
        lemma_split_idx_at(t, k - 1);
    }
}

/// The numeric prefix of the normalised input.
pub open spec fn num_text(s: Seq<char>) -> Seq<char> {
    norm(s).take(split_idx(norm(s)))
}

/// The unit text embedded in the input: what follows the numeric prefix,
/// trimmed.
pub open spec fn unit_text(s: Seq<char>) -> Seq<char> {
    trimmed(norm(s).skip(split_idx(norm(s))))
}

/// The view of an optional unit argument.
pub open spec fn opt_view(u: Option<&str>) -> Option<Seq<char>> {
    match u {
        Some(x) => Some(x@),
        None => None,
    }
}

/// The unit the parse goes by: an explicit unit argument always wins over
/// a unit embedded in the input, and unit text is trimmed and folded to
/// ASCII lower case.
pub open spec fn resolved_unit(s: Seq<char>, unit: Option<Seq<char>>) -> Option<Seq<char>> {
    match unit {
        Some(u) => Some(lower(trimmed(u))),
        None => if unit_text(s).len() > 0 {
            Some(lower(unit_text(s)))
        } else {
            None
        },
    }
}

/// Whether a resolved unit leaves the reading unitless: no unit at all,
/// or empty unit text.
pub open spec fn unit_is_empty(u: Option<Seq<char>>) -> bool {
    match u {
        None => true,
        Some(x) => x.len() == 0,
    }
}

/// The text of a resolved unit, empty when there is none.
pub open spec fn unit_seq(u: Option<Seq<char>>) -> Seq<char> {
    match u {
        Some(x) => x,
        None => Seq::<char>::empty(),
    }
}

/// The accepted range of readings, in millionths: -9999 to 9999.
pub open spec fn in_range(m: int) -> bool {
    -9999000000 <= m <= 9999000000
}

/// The band, in millionths, where a bare number is plausible in either
/// unit: 25 to 50 inclusive.
pub open spec fn ambiguous_band(m: int) -> bool {
    25000000 <= m <= 50000000
}

/// A spelling that names mmol/L once folded to lower case.
pub open spec fn is_mmol_alias(u: Seq<char>) -> bool {
    u == "mmol"@ || u == "mmol/l"@
}

/// A spelling that names mg/dL once folded to lower case.
pub open spec fn is_mgdl_alias(u: Seq<char>) -> bool {
    u == "mg"@ || u == "mg/dl"@ || u == "mgdl"@
}

/// A parsed reading within the accepted range converts to an mg/dL count
/// far inside the `i32` range.
proof fn lemma_small_mmol_wf(v: int)
    requires
        -10000000000 <= v <= 10000000000,
    ensures
        -2147483648 <= mgdl_of_mmol_micros(v) <= 2147483647,
{
    lemma_rdiv_monotone(v * 18015588, 10000000000int * 18015588, 1000000000000int);
    lemma_rdiv_monotone((-10000000000int) * 18015588, v * 18015588, 1000000000000int);
    lemma_rdiv_neg(10000000000int * 18015588, 1000000000000int);
}

/// Why a reading could not be parsed.
#[derive(Debug)]
pub enum ParseGlucoseError {
    /// Missing or empty input.
    EmptyInput,
    /// The numeric prefix failed to parse; carries that prefix, or the
    /// whole normalised input when no prefix was found.
    InvalidNumber(String),
    /// The value lies outside -9999 to 9999; carries the raw input.
    OutOfRange(String),
    /// The unit text is not a recognised spelling; carries it folded to
    /// lower case.
    UnknownUnit(String),
}

impl PartialEq for ParseGlucoseError {
    fn eq(&self, other: &Self) -> (r: bool) {
        match (self, other) {
            (ParseGlucoseError::EmptyInput, ParseGlucoseError::EmptyInput) => true,
            (ParseGlucoseError::InvalidNumber(a), ParseGlucoseError::InvalidNumber(b)) => *a == *b,
            (ParseGlucoseError::OutOfRange(a), ParseGlucoseError::OutOfRange(b)) => *a == *b,
            (ParseGlucoseError::UnknownUnit(a), ParseGlucoseError::UnknownUnit(b)) => *a == *b,
            _ => false,
        }
    }
}

impl vstd::std_specs::cmp::PartialEqSpecImpl for ParseGlucoseError {
    open spec fn obeys_eq_spec() -> bool {
        true
    }

    open spec fn eq_spec(&self, other: &Self) -> bool {
        match (self, other) {
            (ParseGlucoseError::EmptyInput, ParseGlucoseError::EmptyInput) => true,
            (ParseGlucoseError::InvalidNumber(a), ParseGlucoseError::InvalidNumber(b)) => a@ == b@,
            (ParseGlucoseError::OutOfRange(a), ParseGlucoseError::OutOfRange(b)) => a@ == b@,
            (ParseGlucoseError::UnknownUnit(a), ParseGlucoseError::UnknownUnit(b)) => a@ == b@,
            _ => false,
        }
    }
}

/// The result of parsing a string containing a glucose value, which may
/// have ambiguous units.
#[derive(Debug)]
pub enum ParsedGlucoseResult {
    /// The value and unit were determined unambiguously.
    Known(Glucose),
    /// The value falls in a range where the unit is unclear.
    Ambiguous { original: String, as_mmol: Glucose, as_mgdl: Glucose },
}

impl PartialEq for ParsedGlucoseResult {
    fn eq(&self, other: &Self) -> (r: bool) {
        match (self, other) {
            (ParsedGlucoseResult::Known(a), ParsedGlucoseResult::Known(b)) => *a == *b,
            (
                ParsedGlucoseResult::Ambiguous { original: ao, as_mmol: am, as_mgdl: ag },
                ParsedGlucoseResult::Ambiguous { original: bo, as_mmol: bm, as_mgdl: bg },
            ) => *ao == *bo && *am == *bm && *ag == *bg,
            _ => false,
        }
    }
}

impl vstd::std_specs::cmp::PartialEqSpecImpl for ParsedGlucoseResult {
    open spec fn obeys_eq_spec() -> bool {
        true
    }

    open spec fn eq_spec(&self, other: &Self) -> bool {
        match (self, other) {
            (ParsedGlucoseResult::Known(a), ParsedGlucoseResult::Known(b)) => a == b,
            (
                ParsedGlucoseResult::Ambiguous { original: ao, as_mmol: am, as_mgdl: ag },
                ParsedGlucoseResult::Ambiguous { original: bo, as_mmol: bm, as_mgdl: bg },
            ) => ao@ == bo@ && am == bm && ag == bg,
            _ => false,
        }
    }
}

/// Parses a blood glucose value and its unit from string input, returning
/// a `(number, unit)` pair.
///
/// The unit string in the result is always lowercased. This function only
/// extracts the unit; it does not verify that it names a known unit.
///
/// If both the value string and the `unit` parameter specify a unit, the
/// `unit` parameter takes precedence.
pub fn parse_glucose_input(value: &str, unit: Option<&str>) -> (r: Result<
    (Decimal, Option<String>),
    ParseGlucoseError,
>)
    ensures
        ({
            let sv = value@;
            let n = norm(sv);
            let sp = split_idx(n);
            let nt = num_text(sv);
            match r {
                Ok(p) => {
                    &&& n.len() > 0
                    &&& sp > 0
                    &&& is_number(nt)
                    &&& p.0.micros == number_micros(nt)
                    &&& -100001000000 <= p.0.micros <= 100001000000
                    &&& (match (p.1, resolved_unit(sv, opt_view(unit))) {
                        (Some(us), Some(ru)) => us@ == ru,
                        (None, None) => true,
                        _ => false,
                    })
                },
                Err(ParseGlucoseError::EmptyInput) => n.len() == 0,
                Err(ParseGlucoseError::InvalidNumber(t)) => n.len() > 0 && ((sp == 0 && t@ == n)
                    || (sp > 0 && !is_number(nt) && t@ == nt)),
                Err(_) => false,
            }
        }),
{
    let vchars = chars_of(value);
    let tr = trim_chars(&vchars);
    let normed = decomma_chars(&tr);
    if normed.len() == 0 {
        return Err(ParseGlucoseError::EmptyInput);
    }
    let nlen = normed.len();
    let mut sp: usize = 0;
    while sp < nlen && is_numeric_shape(normed[sp])
        invariant
            nlen == normed@.len(),
            sp <= nlen,
            forall|i: int| 0 <= i < sp ==> is_numeric_shape_char(#[trigger] normed@[i]),
        decreases nlen - sp,
    {
        sp = sp + 1;
    }
    proof {
        lemma_split_idx_at(normed@, sp as int);
    }
    if sp == 0 {
        return Err(ParseGlucoseError::InvalidNumber(string_of_chars(&normed)));
    }
    let num_part = subvec(&normed, 0, sp);
    proof {
        assert(num_part@ =~= num_text(value@));
    }
    let unit_raw = subvec(&normed, sp, nlen);
    let unit_tr = trim_chars(&unit_raw);
    proof {
        assert(unit_raw@ =~= norm(value@).skip(sp as int));
    }
    let num = match parse_number(&num_part) {
        Some(d) => d,
        None => {
            return Err(ParseGlucoseError::InvalidNumber(string_of_chars(&num_part)));
        },
    };
    let final_unit: Option<String> = match unit {
        Some(u) => {
            let uc = chars_of(u);
            let ut = trim_chars(&uc);
            let ul = lower_chars(&ut);
            Some(string_of_chars(&ul))
        },
        None => {
            if unit_tr.len() > 0 {
                let ul = lower_chars(&unit_tr);
                Some(string_of_chars(&ul))
            } else {
                None
            }
        },
    };
    Ok((num, final_unit))
}

/// Everything a parse promises, as one predicate over the view of the
/// input, the view of the optional explicit unit, and the result: each
/// error arises exactly on its condition and carries its exact text, and
/// each successful reading is the pinned value of the numeric prefix
/// under the resolved unit.
pub open spec fn parse_post(
    sv: Seq<char>,
    unit: Option<Seq<char>>,
    r: Result<ParsedGlucoseResult, ParseGlucoseError>,
) -> bool {
    let n = norm(sv);
    let sp = split_idx(n);
    let nt = num_text(sv);
    let valid = n.len() > 0 && sp > 0 && is_number(nt);
    let m = number_micros(nt);
    let ru = resolved_unit(sv, unit);
    match r {
        Err(ParseGlucoseError::EmptyInput) => n.len() == 0,
        Err(ParseGlucoseError::InvalidNumber(t)) => n.len() > 0 && ((sp == 0 && t@ == n) || (sp
            > 0 && !is_number(nt) && t@ == nt)),
        Err(ParseGlucoseError::OutOfRange(t)) => valid && !in_range(m) && t@ == sv,
        Err(ParseGlucoseError::UnknownUnit(t)) => valid && in_range(m) && !unit_is_empty(ru)
            && !is_mmol_alias(unit_seq(ru)) && !is_mgdl_alias(unit_seq(ru)) && t@ == unit_seq(ru),
        Ok(p) => valid && in_range(m) && match p {
            ParsedGlucoseResult::Known(g) => g.wf() && match g {
                Glucose::Mmol(d) => d.micros == m && ((unit_is_empty(ru) && m < 25000000) || (
                !unit_is_empty(ru) && is_mmol_alias(unit_seq(ru)))),
                Glucose::MgDl(k) => k == rdiv(m, 1000000) && ((unit_is_empty(ru) && m > 50000000)
                    || (!unit_is_empty(ru) && is_mgdl_alias(unit_seq(ru)))),
            },
            ParsedGlucoseResult::Ambiguous { original, as_mmol, as_mgdl } => {
                &&& unit_is_empty(ru)
                &&& ambiguous_band(m)
                &&& original@ == trimmed(sv)
                &&& as_mmol == Glucose::Mmol(Decimal { micros: m as i64 })
                &&& as_mgdl == Glucose::MgDl(rdiv(m, 1000000) as i32)
                &&& as_mmol.wf()
            },
        },
    }
}

impl ParsedGlucoseResult {
    /// Parses a glucose value with an optional unit.
    ///
    /// If both the string and the parameter specify a unit, the parameter
    /// takes precedence. A bare number below 25 is read as mmol/L, above
    /// 50 as mg/dL, and in between as ambiguous, with both readings
    /// returned.
    pub fn parse(s: &str, unit: Option<&str>) -> (r: Result<Self, ParseGlucoseError>)
        ensures
            parse_post(s@, opt_view(unit), r),
    {
        let parsed = match parse_glucose_input(s, unit) {
            Ok(p) => p,
            Err(e) => {
                return Err(e);
            },
        };
        let num = parsed.0;
        let parsed_unit = parsed.1;
        if num.micros < -9999000000 || num.micros > 9999000000 {
            return Err(ParseGlucoseError::OutOfRange(String::from_str(s)));
        }
        proof {
            lemma_rdiv_monotone(num.micros as int, 9999000000int, 1000000int);
            lemma_rdiv_monotone(-9999000000int, num.micros as int, 1000000int);
            lemma_rdiv_neg(9999000000int, 1000000int);
            lemma_small_mmol_wf(num.micros as int);
        }
        let num_int: i32 = rdiv_i128(num.micros as i128, 1000000) as i32;
        let no_unit: bool = match &parsed_unit {
            None => true,
            Some(u) => u.as_str().is_empty(),
        };
        if no_unit {
            if 25000000 <= num.micros && num.micros <= 50000000 {
                let schars = chars_of(s);
                let strim = trim_chars(&schars);
                Ok(
                    ParsedGlucoseResult::Ambiguous {
                        original: string_of_chars(&strim),
                        as_mmol: Glucose::Mmol(num),
                        as_mgdl: Glucose::MgDl(num_int),
                    },
                )
            } else if num.micros < 25000000 {
                Ok(ParsedGlucoseResult::Known(Glucose::Mmol(num)))
            } else {
                Ok(ParsedGlucoseResult::Known(Glucose::MgDl(num_int)))
            }
        } else {
            let u = parsed_unit.unwrap();
            let uc = chars_of(u.as_str());
            if chars_eq_str(&uc, "mmol") || chars_eq_str(&uc, "mmol/l") {
                Ok(ParsedGlucoseResult::Known(Glucose::Mmol(num)))
            } else if chars_eq_str(&uc, "mg") || chars_eq_str(&uc, "mg/dl") || chars_eq_str(
                &uc,
                "mgdl",
            ) {
                Ok(ParsedGlucoseResult::Known(Glucose::MgDl(num_int)))
            } else {
                Err(ParseGlucoseError::UnknownUnit(u))
            }
        }
    }
}

/// Unit matching is insensitive to ASCII case: two unit spellings that
/// agree once folded to lower case resolve to the same unit, whatever
/// the reading says.
pub proof fn lemma_unit_case_insensitive(s: Seq<char>, u1: Seq<char>, u2: Seq<char>)
    requires
        lower(u1) == lower(u2),
    ensures
        resolved_unit(s, Some(u1)) == resolved_unit(s, Some(u2)),
{
    lemma_lower_trim_commute(u1);
    lemma_lower_trim_commute(u2);
}

/// A decimal comma reads as a decimal point: writing the reading with
/// commas already replaced changes neither the numeric text, nor the
/// embedded unit text, nor the unit the parse goes by.
pub proof fn lemma_comma_equivalent(s: Seq<char>, unit: Option<Seq<char>>)
    ensures
        norm(decommaed(s)) == norm(s),
        num_text(decommaed(s)) == num_text(s),
        unit_text(decommaed(s)) == unit_text(s),
        resolved_unit(decommaed(s), unit) == resolved_unit(s, unit),
{
    lemma_decomma_trim_commute(s);
    lemma_decomma_trim_commute(trimmed(s));
}

/// An explicit unit parameter always wins: with one given, the unit the
/// parse goes by is that parameter, trimmed and folded, whatever unit
/// text the reading itself embeds.
pub proof fn lemma_explicit_unit_overrides(s1: Seq<char>, s2: Seq<char>, u: Seq<char>)
    ensures
        resolved_unit(s1, Some(u)) == Some(lower(trimmed(u))),
        resolved_unit(s1, Some(u)) == resolved_unit(s2, Some(u)),
{
}

impl core::str::FromStr for ParsedGlucoseResult {
    type Err = ParseGlucoseError;

    /// The convenience entry point: a parse with no unit override.
    fn from_str(s: &str) -> (r: Result<Self, Self::Err>)
        ensures
            parse_post(s@, None, r),
    {
        Self::parse(s, None)
    }
}

} // verus!
