//! A small hand-written JSON parser.
//!
//! [`parse_bytes`] turns a byte slice into a [`Json`] value, or reports an
//! [`Error`] together with the byte index at which parsing failed.  The
//! accepted grammar makes a few deliberate simplifications: numbers are kept
//! as integer/fraction/exponent parts rather than floats, exponents are
//! unsigned, `\u` escapes are replaced by a question mark, and objects keep
//! their members in insertion order with later duplicates overwriting
//! earlier ones.
//!
//! Every parsing function is pinned to a spec-level model over byte
//! sequences and integer positions; [`spec_parse_bytes`] is the model of the
//! whole parser.

use vstd::prelude::*;

verus! {

use vstd::string::StringSliceAdditionalSpecFns;

/// A parsed JSON value.  Numbers keep their decimal parts separate instead
/// of committing to a floating-point representation: `precision` is the
/// number of fraction digits written.
#[derive(Debug, PartialEq)]
pub enum Json {
    Null,
    Bool(bool),
    Number { integer: i64, fraction: i64, precision: usize, exponent: i64 },
    String(String),
    Array(Vec<Json>),
    Object(Dict),
}

/// An object: members in insertion order, keys unique.
#[derive(Debug, PartialEq)]
pub struct Dict {
    pub entries: Vec<(String, Json)>,
}

/// Why parsing failed.
///
/// `UtfDecodingError` reports string contents that are not valid UTF-8, and
/// `NumberOutOfRange` a numeric part that does not fit in an `i64`.
#[derive(Clone, Copy, Debug, PartialEq, Eq, Structural)]
pub enum Error {
    EmptyString,
    CharMismatch { expected: u8, actual: u8 },
    HexCharExpected,
    UtfDecodingError,
    NullExpected,
    TrueExpected,
    FalseExpected,
    ExponentRequired,
    UnrecognisedEscapeSequence(u8),
    InvalidValue,
    OutOfBounds,
    Garbage,
    NumberOutOfRange,
}

/// The mathematical shape of a JSON value: what a [`Json`] views to.
pub enum JsonValue {
    Null,
    Bool(bool),
    Number { integer: int, fraction: int, precision: int, exponent: int },
    String(Seq<char>),
    Array(Seq<JsonValue>),
    Object(Seq<(Seq<char>, JsonValue)>),
}

/// The value a [`Json`] tree stands for.
pub open spec fn json_view(j: Json) -> JsonValue
    decreases j,
{
    match j {
        Json::Null => JsonValue::Null,
        Json::Bool(b) => JsonValue::Bool(b),
        Json::Number { integer, fraction, precision, exponent } => JsonValue::Number {
            integer: integer as int,
            fraction: fraction as int,
            precision: precision as int,
            exponent: exponent as int,
        },
        Json::String(s) => JsonValue::String(s@),
        Json::Array(items) => JsonValue::Array(json_seq_view(items@)),
        Json::Object(Dict { entries }) => JsonValue::Object(json_entries_view(entries@)),
    }
}

/// The values an array's elements stand for.
pub open spec fn json_seq_view(items: Seq<Json>) -> Seq<JsonValue>
    decreases items,
{
    if items.len() == 0 {
        Seq::empty()
    } else {
        seq![json_view(items[0])] + json_seq_view(items.drop_first())
    }
}

/// The key/value pairs an object's members stand for.
pub open spec fn json_entries_view(entries: Seq<(String, Json)>) -> Seq<(Seq<char>, JsonValue)>
    decreases entries,
{
    if entries.len() == 0 {
        Seq::empty()
    } else {
        seq![(entries[0].0@, json_view(entries[0].1))] + json_entries_view(entries.drop_first())
    }
}

/// [`json_seq_view`] maps the elements one for one.
pub proof fn lemma_json_seq_view(items: Seq<Json>)
    ensures
        json_seq_view(items).len() == items.len(),
        forall|i: int|
            0 <= i < items.len() ==> #[trigger] json_seq_view(items)[i] == json_view(items[i]),
    decreases items.len(),
{
    if items.len() > 0 {
        lemma_json_seq_view(items.drop_first());
    }
}

/// [`json_entries_view`] maps the members one for one.
pub proof fn lemma_json_entries_view(entries: Seq<(String, Json)>)
    ensures
        json_entries_view(entries).len() == entries.len(),
        forall|i: int|
            0 <= i < entries.len() ==> #[trigger] json_entries_view(entries)[i] == (
                entries[i].0@,
                json_view(entries[i].1),
            ),
    decreases entries.len(),
{
    if entries.len() > 0 {
        lemma_json_entries_view(entries.drop_first());
    }
}

impl View for Json {
    type V = JsonValue;

    open spec fn view(&self) -> JsonValue {
        json_view(*self)
    }
}

impl View for Dict {
    type V = Seq<(Seq<char>, JsonValue)>;

    open spec fn view(&self) -> Seq<(Seq<char>, JsonValue)> {
        json_entries_view(self.entries@)
    }
}

/// Whether the byte is an ASCII letter.
pub open spec fn spec_is_alpha(ch: u8) -> bool {
    (0x61 <= ch <= 0x7A) || (0x41 <= ch <= 0x5A)
}

/// Whether the byte is an ASCII digit.
pub open spec fn spec_is_digit(ch: u8) -> bool {
    0x30 <= ch <= 0x39
}

/// Whether the byte is an ASCII hexadecimal digit.
pub open spec fn spec_is_hex(ch: u8) -> bool {
    (0x30 <= ch <= 0x39) || (0x61 <= ch <= 0x66) || (0x41 <= ch <= 0x46)
}

/// Whether the byte is JSON whitespace.
pub open spec fn spec_is_ws(c: u8) -> bool {
    c == 0x20 || c == 0x09 || c == 0x0A || c == 0x0D
}

/// Whether the byte is an ASCII letter.
pub fn is_alpha(ch: u8) -> (r: bool)
    ensures
        r == spec_is_alpha(ch),
{
    (0x61 <= ch && ch <= 0x7A) || (0x41 <= ch && ch <= 0x5A)
}

/// Whether the byte is an ASCII digit.
pub fn is_digit(ch: u8) -> (r: bool)
    ensures
        r == spec_is_digit(ch),
{
    0x30 <= ch && ch <= 0x39
}

/// Whether the byte is an ASCII hexadecimal digit.
pub fn is_hex(ch: u8) -> (r: bool)
    ensures
        r == spec_is_hex(ch),
{
    (0x30 <= ch && ch <= 0x39) || (0x61 <= ch && ch <= 0x66) || (0x41 <= ch && ch <= 0x46)
}

/// Whether the byte is JSON whitespace.
pub fn is_ws(c: u8) -> (r: bool)
    ensures
        r == spec_is_ws(c),
{
    c == 0x20 || c == 0x09 || c == 0x0A || c == 0x0D
}

/// End of the whitespace run starting at `pos`.
pub open spec fn spec_skip_ws(bytes: Seq<u8>, pos: int) -> int
    decreases bytes.len() - pos,
{
    if 0 <= pos < bytes.len() && spec_is_ws(bytes[pos]) {
        spec_skip_ws(bytes, pos + 1)
    } else {
        pos
    }
}

/// Skipping whitespace never moves backwards and never leaves the input.
pub proof fn lemma_skip_ws_bounds(bytes: Seq<u8>, pos: int)
    requires
        0 <= pos <= bytes.len(),
    ensures
        pos <= spec_skip_ws(bytes, pos) <= bytes.len(),
    decreases bytes.len() - pos,
{
    if 0 <= pos < bytes.len() && spec_is_ws(bytes[pos]) {
        lemma_skip_ws_bounds(bytes, pos + 1);
    }
}

/// Skips whitespace from `pos`.
pub fn skip_ws(s: &[u8], pos: usize) -> (r: usize)
    requires
        pos <= s@.len(),
    ensures
        r == spec_skip_ws(s@, pos as int),
        pos <= r <= s@.len(),
{
    let mut i = pos;
    while i < s.len() && is_ws(s[i])
        invariant
            pos <= i <= s@.len(),
            spec_skip_ws(s@, pos as int) == spec_skip_ws(s@, i as int),
        decreases s@.len() - i,
    {
        i = i + 1;
    }
    i
}

/// End of the letter run starting at `pos`.
pub open spec fn spec_scan_alpha(bytes: Seq<u8>, pos: int) -> int
    decreases bytes.len() - pos,
{
    if 0 <= pos < bytes.len() && spec_is_alpha(bytes[pos]) {
        spec_scan_alpha(bytes, pos + 1)
    } else {
        pos
    }
}

/// Scans past the letter run starting at `pos`.
pub fn scan_alpha(s: &[u8], pos: usize) -> (r: usize)
    requires
        pos <= s@.len(),
    ensures
        r == spec_scan_alpha(s@, pos as int),
        pos <= r <= s@.len(),
{
    let mut i = pos;
    while i < s.len() && is_alpha(s[i])
        invariant
            pos <= i <= s@.len(),
            spec_scan_alpha(s@, pos as int) == spec_scan_alpha(s@, i as int),
        decreases s@.len() - i,
    {
        i = i + 1;
    }
    i
}

/// End of the digit run starting at `pos`.
pub open spec fn spec_scan_digits(bytes: Seq<u8>, pos: int) -> int
    decreases bytes.len() - pos,
{
    if 0 <= pos < bytes.len() && spec_is_digit(bytes[pos]) {
        spec_scan_digits(bytes, pos + 1)
    } else {
        pos
    }
}

/// A digit scan never moves backwards and never leaves the input.
pub proof fn lemma_scan_digits_bounds(bytes: Seq<u8>, pos: int)
    requires
        0 <= pos <= bytes.len(),
    ensures
        pos <= spec_scan_digits(bytes, pos) <= bytes.len(),
    decreases bytes.len() - pos,
{
    if 0 <= pos < bytes.len() && spec_is_digit(bytes[pos]) {
        lemma_scan_digits_bounds(bytes, pos + 1);
    }
}

/// Scans past the digit run starting at `pos`.
pub fn scan_digits(s: &[u8], pos: usize) -> (r: usize)
    requires
        pos <= s@.len(),
    ensures
        r == spec_scan_digits(s@, pos as int),
        pos <= r <= s@.len(),
{
    let mut i = pos;
    while i < s.len() && is_digit(s[i])
        invariant
            pos <= i <= s@.len(),
            spec_scan_digits(s@, pos as int) == spec_scan_digits(s@, i as int),
        decreases s@.len() - i,
    {
        i = i + 1;
    }
    i
}

/// Every byte passed over by a digit scan is a digit.
pub proof fn lemma_scan_digits_run(bytes: Seq<u8>, pos: int)
    requires
        0 <= pos <= bytes.len(),
    ensures
        forall|i: int|
            pos <= i < spec_scan_digits(bytes, pos) ==> spec_is_digit(#[trigger] bytes[i]),
    decreases bytes.len() - pos,
{
    if 0 <= pos < bytes.len() && spec_is_digit(bytes[pos]) {
        lemma_scan_digits_run(bytes, pos + 1);
        lemma_scan_digits_bounds(bytes, pos + 1);
    }
}

/// The decimal value of the digit run `bytes[pos..end]`.
pub open spec fn spec_digits_value(bytes: Seq<u8>, pos: int, end: int) -> int
    decreases end - pos,
{
    if end <= pos {
        0
    } else {
        spec_digits_value(bytes, pos, end - 1) * 10 + (bytes[end - 1] - 0x30)
    }
}

/// A digit run's value is never negative.
pub proof fn lemma_digits_value_nonneg(bytes: Seq<u8>, pos: int, end: int)
    requires
        0 <= pos,
        end <= bytes.len(),
        forall|i: int| pos <= i < end ==> spec_is_digit(#[trigger] bytes[i]),
    ensures
        spec_digits_value(bytes, pos, end) >= 0,
    decreases end - pos,
{
    if end > pos {
        lemma_digits_value_nonneg(bytes, pos, end - 1);
    }
}

/// A digit run's value only grows as the run extends.
pub proof fn lemma_digits_value_monotonic(bytes: Seq<u8>, pos: int, end1: int, end2: int)
    requires
        0 <= pos <= end1 <= end2 <= bytes.len(),
        forall|i: int| pos <= i < end2 ==> spec_is_digit(#[trigger] bytes[i]),
    ensures
        spec_digits_value(bytes, pos, end1) <= spec_digits_value(bytes, pos, end2),
    decreases end2 - end1,
{
    if end2 > end1 {
        lemma_digits_value_monotonic(bytes, pos, end1, end2 - 1);
        lemma_digits_value_nonneg(bytes, pos, end2 - 1);
    }
}

/// Reads the decimal value of the digit run `s[pos..end]` into an `i64`, or
/// reports that it does not fit.
pub fn to_i64(s: &[u8], pos: usize, end: usize) -> (r: Option<i64>)
    requires
        pos <= end <= s@.len(),
        forall|i: int| pos <= i < end ==> spec_is_digit(#[trigger] s@[i]),
    ensures
        match r {
            Some(v) => v == spec_digits_value(s@, pos as int, end as int) && spec_digits_value(
                s@,
                pos as int,
                end as int,
            ) <= i64::MAX,
            None => spec_digits_value(s@, pos as int, end as int) > i64::MAX,
        },
{
    let mut value: i64 = 0;
    let mut i = pos;
    while i < end
        invariant
            pos <= i <= end <= s@.len(),
            forall|k: int| pos <= k < end ==> spec_is_digit(#[trigger] s@[k]),
            value == spec_digits_value(s@, pos as int, i as int),
            value >= 0,
        decreases end - i,
    {
        let digit = (s[i] - 0x30) as i64;
        let scaled = match value.checked_mul(10) {
            Some(scaled) => scaled,
            None => {
                proof {
                    lemma_digits_value_monotonic(s@, pos as int, i as int + 1, end as int);
                }
                return None;
            },
        };
        value = match scaled.checked_add(digit) {
            Some(next) => next,
            None => {
                proof {
                    lemma_digits_value_monotonic(s@, pos as int, i as int + 1, end as int);
                }
                return None;
            },
        };
        i = i + 1;
    }
    Some(value)
}

/// The integer part of a number, with `NumberOutOfRange` when it does not
/// fit in an `i64` and `EmptyString` when no digit is present.
pub open spec fn spec_parse_integer_part(bytes: Seq<u8>, pos: int) -> Result<
    (i64, int),
    (Error, int),
> {
    let end = spec_scan_digits(bytes, pos);
    if end == pos {
        Err((Error::EmptyString, pos))
    } else if spec_digits_value(bytes, pos, end) > i64::MAX {
        Err((Error::NumberOutOfRange, pos))
    } else {
        Ok((spec_digits_value(bytes, pos, end) as i64, end))
    }
}

/// The fraction digits after a decimal point: their value, their count, and
/// the position after them.  An empty run is not an error; it reads as zero.
pub open spec fn spec_parse_fraction(bytes: Seq<u8>, pos: int) -> Result<
    (i64, int, int),
    (Error, int),
> {
    let end = spec_scan_digits(bytes, pos);
    if end == pos {
        Ok((0, 0, pos))
    } else if spec_digits_value(bytes, pos, end) > i64::MAX {
        Err((Error::NumberOutOfRange, pos))
    } else {
        Ok((spec_digits_value(bytes, pos, end) as i64, end - pos, end))
    }
}

/// The exponent digits after an `e`: at least one digit is required.
pub open spec fn spec_parse_exponent(bytes: Seq<u8>, pos: int) -> Result<(i64, int), (Error, int)> {
    let end = spec_scan_digits(bytes, pos);
    if end == pos {
        Err((Error::ExponentRequired, pos))
    } else if spec_digits_value(bytes, pos, end) > i64::MAX {
        Err((Error::NumberOutOfRange, pos))
    } else {
        Ok((spec_digits_value(bytes, pos, end) as i64, end))
    }
}

/// Reads the fraction digits after a decimal point.
pub fn parse_fraction(s: &[u8], pos: usize) -> (r: Result<(i64, usize, usize), (Error, usize)>)
    requires
        pos <= s@.len(),
    ensures
        match (r, spec_parse_fraction(s@, pos as int)) {
            (Ok((v, n, p)), Ok((sv, sn, sp))) => v == sv && n == sn && p == sp && pos <= p
                <= s@.len(),
            (Err((e, p)), Err((se, sp))) => e == se && p == sp && pos <= p <= s@.len(),
            _ => false,
        },
{
    let end = scan_digits(s, pos);
    if end == pos {
        return Ok((0, 0, pos));
    }
    proof {
        lemma_scan_digits_run(s@, pos as int);
    }
    match to_i64(s, pos, end) {
        Some(v) => Ok((v, end - pos, end)),
        None => Err((Error::NumberOutOfRange, pos)),
    }
}

/// Reads the exponent digits after an `e`.
pub fn parse_exponent(s: &[u8], pos: usize) -> (r: Result<(i64, usize), (Error, usize)>)
    requires
        pos <= s@.len(),
    ensures
        match (r, spec_parse_exponent(s@, pos as int)) {
            (Ok((v, p)), Ok((sv, sp))) => v == sv && p == sp && pos <= p <= s@.len(),
            (Err((e, p)), Err((se, sp))) => e == se && p == sp && pos <= p <= s@.len(),
            _ => false,
        },
{
    let end = scan_digits(s, pos);
    if end == pos {
        return Err((Error::ExponentRequired, pos));
    }
    proof {
        lemma_scan_digits_run(s@, pos as int);
    }
    match to_i64(s, pos, end) {
        Some(v) => Ok((v, end)),
        None => Err((Error::NumberOutOfRange, pos)),
    }
}

/// The four decimal parts of a number: integer digits, then an optional
/// point with fraction digits, then an optional `e` with exponent digits.
pub open spec fn spec_parse_number_parts(bytes: Seq<u8>, pos: int) -> Result<
    (i64, i64, int, i64, int),
    (Error, int),
> {
    match spec_parse_integer_part(bytes, pos) {
        Err(e) => Err(e),
        Ok((integer, p1)) => {
            let fraction_step: Result<(i64, int, int), (Error, int)> = match spec_chr(
                bytes,
                p1,
                0x2E,
            ) {
                Ok(p2) => spec_parse_fraction(bytes, p2),
                Err(_) => Ok((0, 0, p1)),
            };
            match fraction_step {
                Err(e) => Err(e),
                Ok((fraction, precision, p3)) => {
                    let exponent_step: Result<(i64, int), (Error, int)> = match spec_chr(
                        bytes,
                        p3,
                        0x65,
                    ) {
                        Ok(p4) => spec_parse_exponent(bytes, p4),
                        Err(_) => Ok((0, p3)),
                    };
                    match exponent_step {
                        Err(e) => Err(e),
                        Ok((exponent, p5)) => Ok((integer, fraction, precision, exponent, p5)),
                    }
                },
            }
        },
    }
}

/// Reads the four decimal parts of a number starting at `pos`.
pub fn parse_number_parts(s: &[u8], pos: usize) -> (r: Result<
    (i64, i64, usize, i64, usize),
    (Error, usize),
>)
    requires
        pos <= s@.len(),
    ensures
        match (r, spec_parse_number_parts(s@, pos as int)) {
            (Ok((a, b, c, d, p)), Ok((sa, sb, sc, sd, sp))) => a == sa && b == sb && c == sc && d
                == sd && p == sp && pos < p <= s@.len() && a >= 0,
            (Err((e, p)), Err((se, sp))) => e == se && p == sp && pos <= p <= s@.len(),
            _ => false,
        },
{
    let int_end = scan_digits(s, pos);
    if int_end == pos {
        return Err((Error::EmptyString, pos));
    }
    proof {
        lemma_scan_digits_run(s@, pos as int);
    }
    let integer = match to_i64(s, pos, int_end) {
        Some(v) => v,
        None => {
            return Err((Error::NumberOutOfRange, pos));
        },
    };
    proof {
        lemma_digits_value_nonneg(s@, pos as int, int_end as int);
    }

    let (fraction, precision, p3) = match chr(s, int_end, 0x2E) {
        Ok(p2) => {
            match parse_fraction(s, p2) {
                Ok(t) => t,
                Err(e) => {
                    return Err(e);
                },
            }
        },
        Err(_) => (0, 0, int_end),
    };

    let (exponent, p5) = match chr(s, p3, 0x65) {
        Ok(p4) => {
            match parse_exponent(s, p4) {
                Ok(t) => t,
                Err(e) => {
                    return Err(e);
                },
            }
        },
        Err(_) => (0, p3),
    };

    Ok((integer, fraction, precision, exponent, p5))
}

/// Expecting one particular byte: consume it, or report `CharMismatch` (or
/// `OutOfBounds` at the end of input).
pub open spec fn spec_chr(bytes: Seq<u8>, pos: int, ch: u8) -> Result<int, (Error, int)> {
    if pos >= bytes.len() {
        Err((Error::OutOfBounds, pos))
    } else if bytes[pos] == ch {
        Ok(pos + 1)
    } else {
        Err((Error::CharMismatch { expected: ch, actual: bytes[pos] }, pos))
    }
}

/// Consumes the expected byte at `pos`.
pub fn chr(s: &[u8], pos: usize, ch: u8) -> (r: Result<usize, (Error, usize)>)
    requires
        pos <= s@.len(),
    ensures
        match (r, spec_chr(s@, pos as int, ch)) {
            (Ok(p), Ok(sp)) => p == sp && p <= s@.len(),
            (Err((e, p)), Err((se, sp))) => e == se && p == sp && pos <= p <= s@.len(),
            _ => false,
        },
{
    if pos >= s.len() {
        Err((Error::OutOfBounds, pos))
    } else if s[pos] == ch {
        Ok(pos + 1)
    } else {
        Err((Error::CharMismatch { expected: ch, actual: s[pos] }, pos))
    }
}

/// `null`: exactly that letter run.
pub open spec fn spec_parse_null(bytes: Seq<u8>, pos: int) -> Result<
    (JsonValue, int),
    (Error, int),
> {
    let end = spec_scan_alpha(bytes, pos);
    if end - pos == 4 && bytes[pos] == 0x6E && bytes[pos + 1] == 0x75 && bytes[pos + 2] == 0x6C
        && bytes[pos + 3] == 0x6C {
        Ok((JsonValue::Null, end))
    } else {
        Err((Error::NullExpected, pos))
    }
}

/// Reads the literal `null`.
pub fn parse_null(s: &[u8], pos: usize) -> (r: Result<(Json, usize), (Error, usize)>)
    requires
        pos <= s@.len(),
    ensures
        match (r, spec_parse_null(s@, pos as int)) {
            (Ok((j, p)), Ok((sj, sp))) => j@ == sj && p == sp && pos < p <= s@.len(),
            (Err((e, p)), Err((se, sp))) => e == se && p == sp && pos <= p <= s@.len(),
            _ => false,
        },
{
    let end = scan_alpha(s, pos);
    if end - pos == 4 && s[pos] == 0x6E && s[pos + 1] == 0x75 && s[pos + 2] == 0x6C && s[pos + 3]
        == 0x6C {
        Ok((Json::Null, end))
    } else {
        Err((Error::NullExpected, pos))
    }
}

/// `true`: exactly that letter run.
pub open spec fn spec_parse_true(bytes: Seq<u8>, pos: int) -> Result<
    (JsonValue, int),
    (Error, int),
> {
    let end = spec_scan_alpha(bytes, pos);
    if end - pos == 4 && bytes[pos] == 0x74 && bytes[pos + 1] == 0x72 && bytes[pos + 2] == 0x75
        && bytes[pos + 3] == 0x65 {
        Ok((JsonValue::Bool(true), end))
    } else {
        Err((Error::TrueExpected, pos))
    }
}

/// Reads the literal `true`.
pub fn parse_true(s: &[u8], pos: usize) -> (r: Result<(Json, usize), (Error, usize)>)
    requires
        pos <= s@.len(),
    ensures
        match (r, spec_parse_true(s@, pos as int)) {
            (Ok((j, p)), Ok((sj, sp))) => j@ == sj && p == sp && pos < p <= s@.len(),
            (Err((e, p)), Err((se, sp))) => e == se && p == sp && pos <= p <= s@.len(),
            _ => false,
        },
{
    let end = scan_alpha(s, pos);
    if end - pos == 4 && s[pos] == 0x74 && s[pos + 1] == 0x72 && s[pos + 2] == 0x75 && s[pos + 3]
        == 0x65 {
        Ok((Json::Bool(true), end))
    } else {
        Err((Error::TrueExpected, pos))
    }
}

/// `false`: exactly that letter run.
pub open spec fn spec_parse_false(bytes: Seq<u8>, pos: int) -> Result<
    (JsonValue, int),
    (Error, int),
> {
    let end = spec_scan_alpha(bytes, pos);
    if end - pos == 5 && bytes[pos] == 0x66 && bytes[pos + 1] == 0x61 && bytes[pos + 2] == 0x6C
        && bytes[pos + 3] == 0x73 && bytes[pos + 4] == 0x65 {
        Ok((JsonValue::Bool(false), end))
    } else {
        Err((Error::FalseExpected, pos))
    }
}

/// Reads the literal `false`.
pub fn parse_false(s: &[u8], pos: usize) -> (r: Result<(Json, usize), (Error, usize)>)
    requires
        pos <= s@.len(),
    ensures
        match (r, spec_parse_false(s@, pos as int)) {
            (Ok((j, p)), Ok((sj, sp))) => j@ == sj && p == sp && pos < p <= s@.len(),
            (Err((e, p)), Err((se, sp))) => e == se && p == sp && pos <= p <= s@.len(),
            _ => false,
        },
{
    let end = scan_alpha(s, pos);
    if end - pos == 5 && s[pos] == 0x66 && s[pos + 1] == 0x61 && s[pos + 2] == 0x6C && s[pos + 3]
        == 0x73 && s[pos + 4] == 0x65 {
        Ok((Json::Bool(false), end))
    } else {
        Err((Error::FalseExpected, pos))
    }
}

/// A number: its parts assembled into a value.
pub open spec fn spec_parse_number(bytes: Seq<u8>, pos: int) -> Result<
    (JsonValue, int),
    (Error, int),
> {
    match spec_parse_number_parts(bytes, pos) {
        Err(e) => Err(e),
        Ok((integer, fraction, precision, exponent, p)) => Ok(
            (
                JsonValue::Number {
                    integer: integer as int,
                    fraction: fraction as int,
                    precision,
                    exponent: exponent as int,
                },
                p,
            ),
        ),
    }
}

/// Reads an unsigned number.
pub fn parse_number(s: &[u8], pos: usize) -> (r: Result<(Json, usize), (Error, usize)>)
    requires
        pos <= s@.len(),
    ensures
        match (r, spec_parse_number(s@, pos as int)) {
            (Ok((j, p)), Ok((sj, sp))) => j@ == sj && p == sp && pos < p <= s@.len(),
            (Err((e, p)), Err((se, sp))) => e == se && p == sp && pos <= p <= s@.len(),
            _ => false,
        },
{
    match parse_number_parts(s, pos) {
        Err(e) => Err(e),
        Ok((integer, fraction, precision, exponent, p)) => Ok(
            (Json::Number { integer, fraction, precision, exponent }, p),
        ),
    }
}

/// A number behind a minus sign: the integer part is negated.
pub open spec fn spec_parse_negative_number(bytes: Seq<u8>, pos: int) -> Result<
    (JsonValue, int),
    (Error, int),
> {
    match spec_chr(bytes, pos, 0x2D) {
        Err(e) => Err(e),
        Ok(p1) => match spec_parse_number_parts(bytes, p1) {
            Err(e) => Err(e),
            Ok((integer, fraction, precision, exponent, p)) => Ok(
                (
                    JsonValue::Number {
                        integer: -(integer as int),
                        fraction: fraction as int,
                        precision,
                        exponent: exponent as int,
                    },
                    p,
                ),
            ),
        },
    }
}

/// Reads a number behind a minus sign.
pub fn parse_negative_number(s: &[u8], pos: usize) -> (r: Result<(Json, usize), (Error, usize)>)
    requires
        pos <= s@.len(),
    ensures
        match (r, spec_parse_negative_number(s@, pos as int)) {
            (Ok((j, p)), Ok((sj, sp))) => j@ == sj && p == sp && pos < p <= s@.len(),
            (Err((e, p)), Err((se, sp))) => e == se && p == sp && pos <= p <= s@.len(),
            _ => false,
        },
{
    let p1 = match chr(s, pos, 0x2D) {
        Ok(p1) => p1,
        Err(e) => {
            return Err(e);
        },
    };
    match parse_number_parts(s, p1) {
        Err(e) => Err(e),
        Ok((integer, fraction, precision, exponent, p)) => Ok(
            (Json::Number { integer: -integer, fraction, precision, exponent }, p),
        ),
    }
}

/// One hexadecimal digit.
pub open spec fn spec_hex(bytes: Seq<u8>, pos: int) -> Result<int, (Error, int)> {
    if pos >= bytes.len() {
        Err((Error::OutOfBounds, pos))
    } else if spec_is_hex(bytes[pos]) {
        Ok(pos + 1)
    } else {
        Err((Error::HexCharExpected, pos))
    }
}

/// Consumes one hexadecimal digit.
pub fn hex(s: &[u8], pos: usize) -> (r: Result<usize, (Error, usize)>)
    requires
        pos <= s@.len(),
    ensures
        match (r, spec_hex(s@, pos as int)) {
            (Ok(p), Ok(sp)) => p == sp && p <= s@.len(),
            (Err((e, p)), Err((se, sp))) => e == se && p == sp && pos <= p <= s@.len(),
            _ => false,
        },
{
    if pos >= s.len() {
        Err((Error::OutOfBounds, pos))
    } else if is_hex(s[pos]) {
        Ok(pos + 1)
    } else {
        Err((Error::HexCharExpected, pos))
    }
}

/// Four hexadecimal digits.  Unicode escapes are not interpreted; the
/// decoded character is always a question mark.
pub open spec fn spec_hexword(bytes: Seq<u8>, pos: int) -> Result<int, (Error, int)> {
    match spec_hex(bytes, pos) {
        Err(e) => Err(e),
        Ok(p1) => match spec_hex(bytes, p1) {
            Err(e) => Err(e),
            Ok(p2) => match spec_hex(bytes, p2) {
                Err(e) => Err(e),
                Ok(p3) => spec_hex(bytes, p3),
            },
        },
    }
}

/// Consumes four hexadecimal digits.
pub fn hexword(s: &[u8], pos: usize) -> (r: Result<usize, (Error, usize)>)
    requires
        pos <= s@.len(),
    ensures
        match (r, spec_hexword(s@, pos as int)) {
            (Ok(p), Ok(sp)) => p == sp && p <= s@.len(),
            (Err((e, p)), Err((se, sp))) => e == se && p == sp && pos <= p <= s@.len(),
            _ => false,
        },
{
    let p1 = match hex(s, pos) {
        Ok(p) => p,
        Err(e) => {
            return Err(e);
        },
    };
    let p2 = match hex(s, p1) {
        Ok(p) => p,
        Err(e) => {
            return Err(e);
        },
    };
    let p3 = match hex(s, p2) {
        Ok(p) => p,
        Err(e) => {
            return Err(e);
        },
    };
    hex(s, p3)
}

/// One string-content step: `None` at the closing quote, otherwise the next
/// content byte with escapes resolved (`\u` escapes read as `?`).
pub open spec fn spec_string_char(bytes: Seq<u8>, pos: int) -> Result<
    (Option<u8>, int),
    (Error, int),
> {
    if pos >= bytes.len() {
        Err((Error::OutOfBounds, pos))
    } else if bytes[pos] == 0x22 {
        Ok((None, pos))
    } else if bytes[pos] == 0x5C {
        if pos + 1 >= bytes.len() {
            Err((Error::OutOfBounds, pos + 1))
        } else {
            let escape = bytes[pos + 1];
            if escape == 0x22 {
                Ok((Some(0x22u8), pos + 2))
            } else if escape == 0x5C {
                Ok((Some(0x5Cu8), pos + 2))
            } else if escape == 0x2F {
                Ok((Some(0x2Fu8), pos + 2))
            } else if escape == 0x62 {
                Ok((Some(0x08u8), pos + 2))
            } else if escape == 0x66 {
                Ok((Some(0x0Cu8), pos + 2))
            } else if escape == 0x6E {
                Ok((Some(0x0Au8), pos + 2))
            } else if escape == 0x72 {
                Ok((Some(0x0Du8), pos + 2))
            } else if escape == 0x74 {
                Ok((Some(0x09u8), pos + 2))
            } else if escape == 0x75 {
                match spec_hexword(bytes, pos + 2) {
                    Err(e) => Err(e),
                    Ok(p) => Ok((Some(0x3Fu8), p)),
                }
            } else {
                Err((Error::UnrecognisedEscapeSequence(escape), pos + 1))
            }
        }
    } else {
        Ok((Some(bytes[pos]), pos + 1))
    }
}

/// Reads one string-content step at `pos`.
pub fn string_char(s: &[u8], pos: usize) -> (r: Result<(Option<u8>, usize), (Error, usize)>)
    requires
        pos <= s@.len(),
    ensures
        match (r, spec_string_char(s@, pos as int)) {
            (Ok((c, p)), Ok((sc, sp))) => c == sc && p == sp && p <= s@.len() && (c is Some ==> p
                > pos) && (c is None ==> p == pos),
            (Err((e, p)), Err((se, sp))) => e == se && p == sp && pos <= p <= s@.len(),
            _ => false,
        },
{
    if pos >= s.len() {
        Err((Error::OutOfBounds, pos))
    } else if s[pos] == 0x22 {
        Ok((None, pos))
    } else if s[pos] == 0x5C {
        if pos + 1 >= s.len() {
            Err((Error::OutOfBounds, pos + 1))
        } else {
            let escape = s[pos + 1];
            match escape {
                0x22 => Ok((Some(0x22), pos + 2)),
                0x5C => Ok((Some(0x5C), pos + 2)),
                0x2F => Ok((Some(0x2F), pos + 2)),
                0x62 => Ok((Some(0x08), pos + 2)),
                0x66 => Ok((Some(0x0C), pos + 2)),
                0x6E => Ok((Some(0x0A), pos + 2)),
                0x72 => Ok((Some(0x0D), pos + 2)),
                0x74 => Ok((Some(0x09), pos + 2)),
                0x75 => match hexword(s, pos + 2) {
                    Err(e) => Err(e),
                    Ok(p) => Ok((Some(0x3F), p)),
                },
                _ => Err((Error::UnrecognisedEscapeSequence(escape), pos + 1)),
            }
        }
    } else {
        Ok((Some(s[pos]), pos + 1))
    }
}

/// The raw content bytes of a string, up to but not including the closing
/// quote.  Reaching the end of input without one yields what was collected.
pub open spec fn spec_string_content(bytes: Seq<u8>, pos: int) -> Result<
    (Seq<u8>, int),
    (Error, int),
>
    decreases bytes.len() - pos,
{
    if pos >= bytes.len() {
        Ok((Seq::empty(), pos))
    } else {
        match spec_string_char(bytes, pos) {
            Err(e) => Err(e),
            Ok((None, p)) => Ok((Seq::empty(), p)),
            Ok((Some(c), p)) => match spec_string_content(bytes, p) {
                Err(e) => Err(e),
                Ok((rest, end)) => Ok((seq![c] + rest, end)),
            },
        }
    }
}

/// Collects the raw content bytes of a string starting at `pos`.
fn read_string_content(s: &[u8], pos: usize) -> (r: Result<(Vec<u8>, usize), (Error, usize)>)
    requires
        pos <= s@.len(),
    ensures
        match (r, spec_string_content(s@, pos as int)) {
            (Ok((data, p)), Ok((sdata, sp))) => data@ == sdata && p == sp && pos <= p <= s@.len(),
            (Err((e, p)), Err((se, sp))) => e == se && p == sp && pos <= p <= s@.len(),
            _ => false,
        },
{
    let mut data: Vec<u8> = Vec::new();
    let mut cur = pos;
    loop
        invariant
            pos <= cur <= s@.len(),
            match spec_string_content(s@, cur as int) {
                Ok((rest, end)) => spec_string_content(s@, pos as int) == Ok::<
                    (Seq<u8>, int),
                    (Error, int),
                >((data@ + rest, end)),
                Err(e) => spec_string_content(s@, pos as int) == Err::<
                    (Seq<u8>, int),
                    (Error, int),
                >(e),
            },
        decreases s@.len() - cur,
    {
        if cur >= s.len() {
            proof {
                assert(data@ + Seq::<u8>::empty() =~= data@);
            }
            return Ok((data, cur));
        }
        match string_char(s, cur) {
            Err((e, p)) => {
                return Err((e, p));
            },
            Ok((None, p)) => {
                proof {
                    assert(data@ + Seq::<u8>::empty() =~= data@);
                }
                return Ok((data, p));
            },
            Ok((Some(c), p)) => {
                proof {
                    let rest_result = spec_string_content(s@, p as int);
                    if rest_result is Ok {
                        let (rest, _) = rest_result->Ok_0;
                        assert(data@ + (seq![c] + rest) =~= data@.push(c) + rest);
                    }
                }
                data.push(c);
                cur = p;
            },
        }
    }
}

/// Relies on `String::from_utf8`: it succeeds exactly on valid UTF-8 input
/// and yields the characters those bytes encode.
#[verifier::external_body]
fn bytes_to_string(data: Vec<u8>) -> (r: Option<String>)
    ensures
        match r {
            Some(s) => vstd::utf8::valid_utf8(data@) && s@ == vstd::utf8::decode_utf8(data@),
            None => !vstd::utf8::valid_utf8(data@),
        },
{
    match String::from_utf8(data) {
        Ok(s) => Some(s),
        Err(_) => None,
    }
}

/// A quoted string: its decoded characters and the position after the
/// closing quote.  Content that is not valid UTF-8 is an error, reported at
/// the end of the content.
pub open spec fn spec_parse_string_raw(bytes: Seq<u8>, pos: int) -> Result<
    (Seq<char>, int),
    (Error, int),
> {
    match spec_chr(bytes, pos, 0x22) {
        Err(e) => Err(e),
        Ok(p1) => match spec_string_content(bytes, p1) {
            Err(e) => Err(e),
            Ok((content, p2)) => {
                if !vstd::utf8::valid_utf8(content) {
                    Err((Error::UtfDecodingError, p2))
                } else {
                    match spec_chr(bytes, p2, 0x22) {
                        Err(e) => Err(e),
                        Ok(p3) => Ok((vstd::utf8::decode_utf8(content), p3)),
                    }
                }
            },
        },
    }
}

/// Reads a quoted string into its decoded characters.
pub fn parse_string_raw(s: &[u8], pos: usize) -> (r: Result<(String, usize), (Error, usize)>)
    requires
        pos <= s@.len(),
    ensures
        match (r, spec_parse_string_raw(s@, pos as int)) {
            (Ok((out, p)), Ok((sout, sp))) => out@ == sout && p == sp && pos < p <= s@.len(),
            (Err((e, p)), Err((se, sp))) => e == se && p == sp && pos <= p <= s@.len(),
            _ => false,
        },
{
    let p1 = match chr(s, pos, 0x22) {
        Ok(p) => p,
        Err(e) => {
            return Err(e);
        },
    };
    let (data, p2) = match read_string_content(s, p1) {
        Ok(t) => t,
        Err(e) => {
            return Err(e);
        },
    };
    let contents = match bytes_to_string(data) {
        Some(contents) => contents,
        None => {
            return Err((Error::UtfDecodingError, p2));
        },
    };
    match chr(s, p2, 0x22) {
        Ok(p3) => Ok((contents, p3)),
        Err(e) => Err(e),
    }
}

/// A quoted string as a JSON value.
pub open spec fn spec_parse_string(bytes: Seq<u8>, pos: int) -> Result<
    (JsonValue, int),
    (Error, int),
> {
    match spec_parse_string_raw(bytes, pos) {
        Err(e) => Err(e),
        Ok((content, p)) => Ok((JsonValue::String(content), p)),
    }
}

/// Reads a quoted string as a JSON value.
pub fn parse_string(s: &[u8], pos: usize) -> (r: Result<(Json, usize), (Error, usize)>)
    requires
        pos <= s@.len(),
    ensures
        match (r, spec_parse_string(s@, pos as int)) {
            (Ok((j, p)), Ok((sj, sp))) => j@ == sj && p == sp && pos < p <= s@.len(),
            (Err((e, p)), Err((se, sp))) => e == se && p == sp && pos <= p <= s@.len(),
            _ => false,
        },
{
    match parse_string_raw(s, pos) {
        Err(e) => Err(e),
        Ok((contents, p)) => Ok((Json::String(contents), p)),
    }
}

/// Index of the first member with the given key, or `-1` when absent.
pub open spec fn spec_find_key(entries: Seq<(Seq<char>, JsonValue)>, key: Seq<char>) -> int
    decreases entries.len(),
{
    if entries.len() == 0 {
        -1
    } else if entries[0].0 == key {
        0
    } else {
        let rest = spec_find_key(entries.drop_first(), key);
        if rest < 0 {
            -1
        } else {
            rest + 1
        }
    }
}

/// [`spec_find_key`] yields `-1` exactly when the key is absent, and
/// otherwise the first index holding it.
pub proof fn lemma_find_key(entries: Seq<(Seq<char>, JsonValue)>, key: Seq<char>)
    ensures
        spec_find_key(entries, key) == -1 <==> (forall|i: int|
            0 <= i < entries.len() ==> (#[trigger] entries[i]).0 != key),
        spec_find_key(entries, key) != -1 ==> {
            let r = spec_find_key(entries, key);
            &&& 0 <= r < entries.len()
            &&& entries[r].0 == key
            &&& forall|j: int| 0 <= j < r ==> (#[trigger] entries[j]).0 != key
        },
    decreases entries.len(),
{
    if entries.len() > 0 && entries[0].0 != key {
        let rest = entries.drop_first();
        lemma_find_key(rest, key);
        assert(forall|i: int| 0 <= i < rest.len() ==> #[trigger] rest[i] == entries[i + 1]);
        if spec_find_key(rest, key) == -1 {
            assert forall|i: int| 0 <= i < entries.len() implies (#[trigger] entries[i]).0
                != key by {
                if i > 0 {
                    assert(entries[i] == rest[i - 1]);
                }
            }
        } else {
            let r = spec_find_key(rest, key) + 1;
            assert(entries[r] == rest[r - 1]);
            assert forall|j: int| 0 <= j < r implies (#[trigger] entries[j]).0 != key by {
                if j > 0 {
                    assert(entries[j] == rest[j - 1]);
                }
            }
        }
    }
}

/// A member insertion: the first member with the same key is replaced,
/// otherwise the pair is appended.
pub open spec fn spec_entries_insert(
    entries: Seq<(Seq<char>, JsonValue)>,
    key: Seq<char>,
    value: JsonValue,
) -> Seq<(Seq<char>, JsonValue)> {
    let r = spec_find_key(entries, key);
    if r < 0 {
        entries.push((key, value))
    } else {
        entries.update(r, (key, value))
    }
}

impl Dict {
    /// Well-formedness: no two members share a key.
    pub open spec fn wf(&self) -> bool {
        forall|i: int, j: int|
            0 <= i < j < self@.len() ==> (#[trigger] self@[i]).0 != (#[trigger] self@[j]).0
    }

    /// An empty object.
    pub fn new() -> (r: Dict)
        ensures
            r@ == Seq::<(Seq<char>, JsonValue)>::empty(),
            r.wf(),
    {
        Dict { entries: Vec::new() }
    }

    /// Inserts a member, replacing the first member with an equal key if one
    /// exists and appending otherwise.
    pub fn insert(&mut self, key: String, value: Json)
        ensures
            final(self)@ == spec_entries_insert(old(self)@, key@, json_view(value)),
            old(self).wf() ==> final(self).wf(),
    {
        proof {
            lemma_json_entries_view(self.entries@);
            lemma_find_key(self@, key@);
        }
        let n = self.entries.len();
        let mut i: usize = 0;
        while i < n
            invariant
                *self == *old(self),
                n == self.entries@.len(),
                i <= n,
                forall|j: int| 0 <= j < i ==> old(self).entries@[j].0@ != key@,
            decreases n - i,
        {
            if self.entries[i].0 == key {
                proof {
                    lemma_json_entries_view(self.entries@);
                    lemma_find_key(self@, key@);
                    assert(self@[i as int].0 == key@);
                    assert(spec_find_key(self@, key@) == i);
                }
                let ghost previous = self.entries@;
                self.entries[i] = (key, value);
                proof {
                    lemma_json_entries_view(previous);
                    lemma_json_entries_view(self.entries@);
                    assert(self.entries@ =~= previous.update(i as int, self.entries@[i as int]));
                    assert(final(self)@ =~= spec_entries_insert(
                        old(self)@,
                        key@,
                        json_view(self.entries@[i as int].1),
                    ));
                }
                return;
            }
            i = i + 1;
        }
        proof {
            lemma_json_entries_view(self.entries@);
            assert(spec_find_key(self@, key@) == -1);
        }
        let ghost previous = self.entries@;
        self.entries.push((key, value));
        proof {
            lemma_json_entries_view(previous);
            lemma_json_entries_view(self.entries@);
            assert(final(self)@ =~= spec_entries_insert(
                old(self)@,
                key@,
                json_view(self.entries@[self.entries@.len() - 1].1),
            ));
        }
    }
}

/// One JSON value after optional whitespace, dispatched on its first byte.
///
/// The bounds guard at the top and the progress guards around the recursive
/// calls below are never reached; they keep the mutual recursion
/// well-founded.
pub open spec fn spec_parse_value(bytes: Seq<u8>, pos: int) -> Result<
    (JsonValue, int),
    (Error, int),
>
    decreases bytes.len() - pos, 1int,
{
    if !(0 <= pos <= bytes.len()) {
        Err((Error::OutOfBounds, pos))
    } else {
        proof {
            lemma_skip_ws_bounds(bytes, pos);
        }
        let p = spec_skip_ws(bytes, pos);
        if p >= bytes.len() {
            Err((Error::OutOfBounds, p))
        } else {
            let c = bytes[p];
            if c == 0x6E {
                spec_parse_null(bytes, p)
            } else if c == 0x74 {
                spec_parse_true(bytes, p)
            } else if c == 0x66 {
                spec_parse_false(bytes, p)
            } else if 0x30 <= c <= 0x39 {
                spec_parse_number(bytes, p)
            } else if c == 0x2D {
                spec_parse_negative_number(bytes, p)
            } else if c == 0x22 {
                spec_parse_string(bytes, p)
            } else if c == 0x5B {
                spec_parse_array(bytes, p)
            } else if c == 0x7B {
                spec_parse_object(bytes, p)
            } else {
                Err((Error::InvalidValue, p))
            }
        }
    }
}

/// An array: `[`, an optional first value, further comma-separated values,
/// then `]`.  A failed first value simply means an empty array; parsing
/// resumes where that attempt stopped.
pub open spec fn spec_parse_array(bytes: Seq<u8>, pos: int) -> Result<
    (JsonValue, int),
    (Error, int),
>
    decreases bytes.len() - pos, 0int,
{
    if !(0 <= pos <= bytes.len()) {
        Err((Error::OutOfBounds, pos))
    } else {
        match spec_chr(bytes, pos, 0x5B) {
            Err(e) => Err(e),
            Ok(p1) => {
                let items_step: Result<(Seq<JsonValue>, int), (Error, int)> = match spec_parse_value(
                    bytes,
                    p1,
                ) {
                    Err((_, ep)) => if !(0 <= ep <= bytes.len()) {
                        Err((Error::OutOfBounds, ep))
                    } else {
                        Ok((Seq::empty(), ep))
                    },
                    Ok((first, p2)) => if !(pos < p2 <= bytes.len()) {
                        Err((Error::InvalidValue, pos))
                    } else {
                        spec_parse_array_items(bytes, p2, seq![first])
                    },
                };
                match items_step {
                    Err(e) => Err(e),
                    Ok((items, p3)) => {
                        let p4 = spec_skip_ws(bytes, p3);
                        match spec_chr(bytes, p4, 0x5D) {
                            Err(e) => Err(e),
                            Ok(p5) => Ok((JsonValue::Array(items), p5)),
                        }
                    },
                }
            },
        }
    }
}

/// Further array elements: as long as a comma follows (after whitespace),
/// one more value is read and appended.
pub open spec fn spec_parse_array_items(bytes: Seq<u8>, pos: int, acc: Seq<JsonValue>) -> Result<
    (Seq<JsonValue>, int),
    (Error, int),
>
    decreases bytes.len() - pos, 0int,
{
    if !(0 <= pos <= bytes.len()) {
        Err((Error::OutOfBounds, pos))
    } else {
        proof {
            lemma_skip_ws_bounds(bytes, pos);
        }
        let pc = spec_skip_ws(bytes, pos);
        match spec_chr(bytes, pc, 0x2C) {
            Err(_) => Ok((acc, pos)),
            Ok(p1) => match spec_parse_value(bytes, p1) {
                Err(e) => Err(e),
                Ok((v, p2)) => if !(pos < p2 <= bytes.len()) {
                    Err((Error::InvalidValue, pos))
                } else {
                    spec_parse_array_items(bytes, p2, acc.push(v))
                },
            },
        }
    }
}

/// One `"key": value` member, with whitespace allowed around the key.
pub open spec fn spec_parse_key_value_pair(bytes: Seq<u8>, pos: int) -> Result<
    (Seq<char>, JsonValue, int),
    (Error, int),
>
    decreases bytes.len() - pos, 0int,
{
    if !(0 <= pos <= bytes.len()) {
        Err((Error::OutOfBounds, pos))
    } else {
        proof {
            lemma_skip_ws_bounds(bytes, pos);
        }
        let pk = spec_skip_ws(bytes, pos);
        match spec_parse_string_raw(bytes, pk) {
            Err(e) => Err(e),
            Ok((key, p1)) => if !(pk < p1 <= bytes.len()) {
                Err((Error::InvalidValue, pos))
            } else {
                proof {
                    lemma_skip_ws_bounds(bytes, p1);
                }
                let p2 = spec_skip_ws(bytes, p1);
                match spec_chr(bytes, p2, 0x3A) {
                    Err(e) => Err(e),
                    Ok(p3) => match spec_parse_value(bytes, p3) {
                        Err(e) => Err(e),
                        Ok((v, p4)) => Ok((key, v, p4)),
                    },
                }
            },
        }
    }
}

/// An object: `{`, an optional first member, further comma-separated
/// members, then `}`.  Members insert as [`spec_entries_insert`] does, so a
/// repeated key overwrites the earlier value in place.
pub open spec fn spec_parse_object(bytes: Seq<u8>, pos: int) -> Result<
    (JsonValue, int),
    (Error, int),
>
    decreases bytes.len() - pos, 0int,
{
    if !(0 <= pos <= bytes.len()) {
        Err((Error::OutOfBounds, pos))
    } else {
        match spec_chr(bytes, pos, 0x7B) {
            Err(e) => Err(e),
            Ok(p1) => {
                proof {
                    lemma_skip_ws_bounds(bytes, p1);
                }
                let pw = spec_skip_ws(bytes, p1);
                let members_step: Result<(Seq<(Seq<char>, JsonValue)>, int), (Error, int)> = if pw
                    < bytes.len() && bytes[pw] == 0x22 {
                    match spec_parse_key_value_pair(bytes, pw) {
                        Err(e) => Err(e),
                        Ok((key, value, p2)) => if !(pos < p2 <= bytes.len()) {
                            Err((Error::InvalidValue, pos))
                        } else {
                            spec_parse_object_items(
                                bytes,
                                p2,
                                spec_entries_insert(Seq::empty(), key, value),
                            )
                        },
                    }
                } else {
                    Ok((Seq::empty(), pw))
                };
                match members_step {
                    Err(e) => Err(e),
                    Ok((entries, p3)) => {
                        let p4 = spec_skip_ws(bytes, p3);
                        match spec_chr(bytes, p4, 0x7D) {
                            Err(e) => Err(e),
                            Ok(p5) => Ok((JsonValue::Object(entries), p5)),
                        }
                    },
                }
            },
        }
    }
}

/// Further object members: as long as a comma follows (after whitespace),
/// one more member is read and inserted.
pub open spec fn spec_parse_object_items(
    bytes: Seq<u8>,
    pos: int,
    acc: Seq<(Seq<char>, JsonValue)>,
) -> Result<(Seq<(Seq<char>, JsonValue)>, int), (Error, int)>
    decreases bytes.len() - pos, 0int,
{
    if !(0 <= pos <= bytes.len()) {
        Err((Error::OutOfBounds, pos))
    } else {
        proof {
            lemma_skip_ws_bounds(bytes, pos);
        }
        let pc = spec_skip_ws(bytes, pos);
        match spec_chr(bytes, pc, 0x2C) {
            Err(_) => Ok((acc, pos)),
            Ok(p1) => match spec_parse_key_value_pair(bytes, p1) {
                Err(e) => Err(e),
                Ok((key, value, p2)) => if !(pos < p2 <= bytes.len()) {
                    Err((Error::InvalidValue, pos))
                } else {
                    spec_parse_object_items(bytes, p2, spec_entries_insert(acc, key, value))
                },
            },
        }
    }
}

/// Appending an element and then viewing is viewing and then appending.
pub proof fn lemma_json_seq_view_push(items: Seq<Json>, j: Json)
    ensures
        json_seq_view(items.push(j)) =~= json_seq_view(items).push(json_view(j)),
{
    lemma_json_seq_view(items.push(j));
    lemma_json_seq_view(items);
}

/// Reads one JSON value after optional whitespace.
pub fn parse_value(s: &[u8], pos: usize) -> (r: Result<(Json, usize), (Error, usize)>)
    requires
        pos <= s@.len(),
    ensures
        match (r, spec_parse_value(s@, pos as int)) {
            (Ok((j, p)), Ok((sj, sp))) => j@ == sj && p == sp && pos < p <= s@.len(),
            (Err((e, p)), Err((se, sp))) => e == se && p == sp && pos <= p <= s@.len(),
            _ => false,
        },
    decreases s@.len() - pos, 1int,
{
    let p = skip_ws(s, pos);
    if p >= s.len() {
        return Err((Error::OutOfBounds, p));
    }
    let c = s[p];
    if c == 0x6E {
        parse_null(s, p)
    } else if c == 0x74 {
        parse_true(s, p)
    } else if c == 0x66 {
        parse_false(s, p)
    } else if 0x30 <= c && c <= 0x39 {
        parse_number(s, p)
    } else if c == 0x2D {
        parse_negative_number(s, p)
    } else if c == 0x22 {
        parse_string(s, p)
    } else if c == 0x5B {
        parse_array(s, p)
    } else if c == 0x7B {
        parse_object(s, p)
    } else {
        Err((Error::InvalidValue, p))
    }
}

/// Reads an array.
pub fn parse_array(s: &[u8], pos: usize) -> (r: Result<(Json, usize), (Error, usize)>)
    requires
        pos <= s@.len(),
    ensures
        match (r, spec_parse_array(s@, pos as int)) {
            (Ok((j, p)), Ok((sj, sp))) => j@ == sj && p == sp && pos < p <= s@.len(),
            (Err((e, p)), Err((se, sp))) => e == se && p == sp && pos <= p <= s@.len(),
            _ => false,
        },
    decreases s@.len() - pos, 0int,
{
    let p1 = match chr(s, pos, 0x5B) {
        Ok(p) => p,
        Err(e) => {
            return Err(e);
        },
    };
    let (items, p3) = match parse_value(s, p1) {
        Err((_, ep)) => (Vec::new(), ep),
        Ok((first, p2)) => {
            match parse_array_items(s, p2, first) {
                Ok(t) => t,
                Err(e) => {
                    return Err(e);
                },
            }
        },
    };
    let p4 = skip_ws(s, p3);
    match chr(s, p4, 0x5D) {
        Ok(p5) => {
            proof {
                lemma_json_seq_view(items@);
                if items@.len() == 0 {
                    assert(json_seq_view(items@) =~= Seq::<JsonValue>::empty());
                }
            }
            Ok((Json::Array(items), p5))
        },
        Err(e) => Err(e),
    }
}

/// Reads the array elements that follow the first one.
#[verifier::loop_isolation(false)]
pub fn parse_array_items(s: &[u8], pos: usize, value: Json) -> (r: Result<
    (Vec<Json>, usize),
    (Error, usize),
>)
    requires
        pos <= s@.len(),
    ensures
        match (r, spec_parse_array_items(s@, pos as int, seq![json_view(value)])) {
            (Ok((items, p)), Ok((sitems, sp))) => json_seq_view(items@) == sitems && p == sp && pos
                <= p <= s@.len(),
            (Err((e, p)), Err((se, sp))) => e == se && p == sp && pos <= p <= s@.len(),
            _ => false,
        },
    decreases s@.len() - pos, 0int,
{
    let ghost first_view = json_view(value);
    let mut items: Vec<Json> = Vec::new();
    items.push(value);
    proof {
        lemma_json_seq_view(items@);
        assert(json_seq_view(items@) =~= seq![first_view]);
    }
    let mut cur = pos;
    loop
        invariant
            pos <= cur <= s@.len(),
            spec_parse_array_items(s@, pos as int, seq![first_view]) == spec_parse_array_items(
                s@,
                cur as int,
                json_seq_view(items@),
            ),
        decreases s@.len() - cur,
    {
        let pc = skip_ws(s, cur);
        let p1 = match chr(s, pc, 0x2C) {
            Ok(p1) => p1,
            Err(_) => {
                return Ok((items, cur));
            },
        };
        match parse_value(s, p1) {
            Err(e) => {
                return Err(e);
            },
            Ok((v, p2)) => {
                proof {
                    lemma_json_seq_view_push(items@, v);
                }
                items.push(v);
                cur = p2;
            },
        }
    }
}

/// Reads one `"key": value` member.
pub fn parse_key_value_pair(s: &[u8], pos: usize) -> (r: Result<
    (String, Json, usize),
    (Error, usize),
>)
    requires
        pos <= s@.len(),
    ensures
        match (r, spec_parse_key_value_pair(s@, pos as int)) {
            (Ok((key, value, p)), Ok((skey, svalue, sp))) => key@ == skey && value@ == svalue && p
                == sp && pos < p <= s@.len(),
            (Err((e, p)), Err((se, sp))) => e == se && p == sp && pos <= p <= s@.len(),
            _ => false,
        },
    decreases s@.len() - pos, 0int,
{
    let pk = skip_ws(s, pos);
    let (key, p1) = match parse_string_raw(s, pk) {
        Ok(t) => t,
        Err(e) => {
            return Err(e);
        },
    };
    let p2 = skip_ws(s, p1);
    let p3 = match chr(s, p2, 0x3A) {
        Ok(p) => p,
        Err(e) => {
            return Err(e);
        },
    };
    match parse_value(s, p3) {
        Err(e) => Err(e),
        Ok((v, p4)) => Ok((key, v, p4)),
    }
}

/// Reads an object.
pub fn parse_object(s: &[u8], pos: usize) -> (r: Result<(Json, usize), (Error, usize)>)
    requires
        pos <= s@.len(),
    ensures
        match (r, spec_parse_object(s@, pos as int)) {
            (Ok((j, p)), Ok((sj, sp))) => j@ == sj && p == sp && pos < p <= s@.len(),
            (Err((e, p)), Err((se, sp))) => e == se && p == sp && pos <= p <= s@.len(),
            _ => false,
        },
    decreases s@.len() - pos, 0int,
{
    let p1 = match chr(s, pos, 0x7B) {
        Ok(p) => p,
        Err(e) => {
            return Err(e);
        },
    };
    let pw = skip_ws(s, p1);
    let (pairs, p3) = if pw < s.len() && s[pw] == 0x22 {
        let (key, value, p2) = match parse_key_value_pair(s, pw) {
            Ok(t) => t,
            Err(e) => {
                return Err(e);
            },
        };
        match parse_object_items(s, p2, key, value) {
            Ok(t) => t,
            Err(e) => {
                return Err(e);
            },
        }
    } else {
        (Dict::new(), pw)
    };
    let p4 = skip_ws(s, p3);
    match chr(s, p4, 0x7D) {
        Ok(p5) => Ok((Json::Object(pairs), p5)),
        Err(e) => Err(e),
    }
}

/// Reads the object members that follow the first one.
#[verifier::loop_isolation(false)]
pub fn parse_object_items(s: &[u8], pos: usize, key: String, value: Json) -> (r: Result<
    (Dict, usize),
    (Error, usize),
>)
    requires
        pos <= s@.len(),
    ensures
        match (
            r,
            spec_parse_object_items(
                s@,
                pos as int,
                spec_entries_insert(Seq::empty(), key@, json_view(value)),
            ),
        ) {
            (Ok((dict, p)), Ok((sentries, sp))) => dict@ == sentries && p == sp && pos <= p
                <= s@.len() && dict.wf(),
            (Err((e, p)), Err((se, sp))) => e == se && p == sp && pos <= p <= s@.len(),
            _ => false,
        },
    decreases s@.len() - pos, 0int,
{
    let ghost first_entries = spec_entries_insert(Seq::empty(), key@, json_view(value));
    let mut items = Dict::new();
    items.insert(key, value);
    let mut cur = pos;
    loop
        invariant
            pos <= cur <= s@.len(),
            items.wf(),
            spec_parse_object_items(s@, pos as int, first_entries) == spec_parse_object_items(
                s@,
                cur as int,
                items@,
            ),
        decreases s@.len() - cur,
    {
        let pc = skip_ws(s, cur);
        let p1 = match chr(s, pc, 0x2C) {
            Ok(p1) => p1,
            Err(_) => {
                return Ok((items, cur));
            },
        };
        match parse_key_value_pair(s, p1) {
            Err(e) => {
                return Err(e);
            },
            Ok((k, v, p2)) => {
                items.insert(k, v);
                cur = p2;
            },
        }
    }
}

/// A whole input: optional whitespace, one value, optional whitespace, and
/// nothing else.  Errors carry the byte index at which they were noticed.
pub open spec fn spec_parse_bytes(bytes: Seq<u8>) -> Result<JsonValue, (Error, int)> {
    let p0 = spec_skip_ws(bytes, 0);
    if p0 >= bytes.len() {
        Err((Error::EmptyString, 0))
    } else {
        match spec_parse_value(bytes, p0) {
            Err(e) => Err(e),
            Ok((v, p)) => {
                let p2 = spec_skip_ws(bytes, p);
                if p2 >= bytes.len() {
                    Ok(v)
                } else {
                    Err((Error::Garbage, p2))
                }
            },
        }
    }
}

/// Parses a byte slice holding one JSON document.
pub fn parse_bytes(s: &[u8]) -> (r: Result<Json, (Error, usize)>)
    ensures
        match (r, spec_parse_bytes(s@)) {
            (Ok(j), Ok(sj)) => j@ == sj,
            (Err((e, p)), Err((se, sp))) => e == se && p == sp,
            _ => false,
        },
{
    let p0 = skip_ws(s, 0);
    if p0 >= s.len() {
        return Err((Error::EmptyString, 0));
    }
    match parse_value(s, p0) {
        Err(e) => Err(e),
        Ok((json, p)) => {
            let p2 = skip_ws(s, p);
            if p2 >= s.len() {
                Ok(json)
            } else {
                Err((Error::Garbage, p2))
            }
        },
    }
}

/// Parses a string slice holding one JSON document.
pub fn parse_str(s: &str) -> (r: Result<Json, (Error, usize)>)
    ensures
        match (r, spec_parse_bytes(s.spec_bytes())) {
            (Ok(j), Ok(sj)) => j@ == sj,
            (Err((e, p)), Err((se, sp))) => e == se && p == sp,
            _ => false,
        },
{
    parse_bytes(s.as_bytes())
}

} // verus!
