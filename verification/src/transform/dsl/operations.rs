//! Operations: the atomic transforms of one value.
//!
//! Every operation is total. On a scalar it works on the scalar's text; null,
//! an array or an object it hands back as it found it.

use vstd::prelude::*;
use vstd::utf8::encode_utf8;
use crate::number::{parse_integer, parse_signed, parse_i64, parse_digits};
use crate::pattern::{regex_replaced, regex_first_match, replace_all, first_match};
use crate::text::{
    trim, trim_str, str_to_lowercase, str_to_uppercase, starts_with, starts_with_str, ends_with,
    ends_with_str, split, split_str, str_views, concat_strs, is_digit, char_is_alphanumeric,
    chars_of, string_of, digits_of, alphanumerics_of, slice_chars, repeat_char, append_chars,
    clone_strings, str_eq, trim_chars,
};
use crate::value::{Value, Json, scalar_text, values_view, lemma_view_array};
use super::mapping::{Mapping, Table, lookup_folded};
use crate::assoc::lookup;

verus! {

/// The pattern that finds a year: four decimal digits in a row.
pub const YEAR_PATTERN: &'static str = "\\d{4}";

/// One atomic transform of a value.
#[derive(Debug, PartialEq)]
#[allow(inconsistent_fields)]
pub enum Operation {
    /// Remove leading and trailing whitespace.
    Trim,
    /// Convert to uppercase.
    Uppercase,
    /// Convert to lowercase.
    Lowercase,
    /// Replace every match of a regular expression.
    Replace { pattern: String, value: String },
    /// Pad at the start up to a byte length.
    PadStart { length: usize, char: String },
    /// Pad at the end up to a byte length.
    PadEnd { length: usize, char: String },
    /// The first run of four digits, as a number.
    ExtractYear,
    /// Make sure the text starts with a prefix.
    EnsurePrefix { value: String },
    /// Make sure the text ends with a suffix.
    EnsureSuffix { value: String },
    /// Look the text up in a table.
    Lookup { mapping: Mapping, case_insensitive: bool, default_unmapped: Option<String> },
    /// Split the text into an array of trimmed pieces.
    Split { separator: String },
    /// True where the text is one of the truthy words, whatever its case.
    ToBoolean { true_values: Vec<String> },
    /// The integer that the digits of the text write.
    ToNumber,
    /// A slice of the text, counted in characters.
    Substring { start: usize, length: Option<usize> },
    /// Keep the alphanumeric characters.
    Alphanumeric,
    /// Keep the ASCII digits.
    DigitsOnly,
}

/// The content of an [`Operation`].
#[allow(inconsistent_fields)]
pub enum Op {
    Trim,
    Uppercase,
    Lowercase,
    Replace { pattern: Seq<char>, value: Seq<char> },
    PadStart { length: nat, pad: Seq<char> },
    PadEnd { length: nat, pad: Seq<char> },
    ExtractYear,
    EnsurePrefix { value: Seq<char> },
    EnsureSuffix { value: Seq<char> },
    Lookup { mapping: Table, case_insensitive: bool, default_unmapped: Option<Seq<char>> },
    Split { separator: Seq<char> },
    ToBoolean { true_values: Seq<Seq<char>> },
    ToNumber,
    Substring { start: nat, length: Option<nat> },
    Alphanumeric,
    DigitsOnly,
}

/// The content of a text, if there is one.
pub open spec fn option_text(o: Option<String>) -> Option<Seq<char>> {
    match o {
        Some(s) => Some(s@),
        None => None,
    }
}

impl View for Operation {
    type V = Op;

    open spec fn view(&self) -> Op {
        match self {
            Operation::Trim => Op::Trim,
            Operation::Uppercase => Op::Uppercase,
            Operation::Lowercase => Op::Lowercase,
            Operation::Replace { pattern, value } => Op::Replace {
                pattern: pattern@,
                value: value@,
            },
            Operation::PadStart { length, char } => Op::PadStart {
                length: *length as nat,
                pad: char@,
            },
            Operation::PadEnd { length, char } => Op::PadEnd { length: *length as nat, pad: char@ },
            Operation::ExtractYear => Op::ExtractYear,
            Operation::EnsurePrefix { value } => Op::EnsurePrefix { value: value@ },
            Operation::EnsureSuffix { value } => Op::EnsureSuffix { value: value@ },
            Operation::Lookup { mapping, case_insensitive, default_unmapped } => Op::Lookup {
                mapping: mapping@,
                case_insensitive: *case_insensitive,
                default_unmapped: option_text(*default_unmapped),
            },
            Operation::Split { separator } => Op::Split { separator: separator@ },
            Operation::ToBoolean { true_values } => Op::ToBoolean {
                true_values: str_views(true_values@),
            },
            Operation::ToNumber => Op::ToNumber,
            Operation::Substring { start, length } => Op::Substring {
                start: *start as nat,
                length: match length {
                    Some(l) => Some(*l as nat),
                    None => None,
                },
            },
            Operation::Alphanumeric => Op::Alphanumeric,
            Operation::DigitsOnly => Op::DigitsOnly,
        }
    }
}

/// The value is null, an array or an object: it has no text.
pub open spec fn is_non_scalar(v: Json) -> bool {
    v is Null || v is Array || v is Object
}

/// `f` of the scalar's text as a text value; a non-scalar unchanged.
pub open spec fn on_text(v: Json, f: spec_fn(Seq<char>) -> Seq<char>) -> Json {
    match scalar_text(v) {
        Some(s) => Json::String(f(s)),
        None => v,
    }
}

/// What trimming makes of a value: the scalar's text without the whitespace
/// around it.
pub open spec fn trimmed(v: Json) -> Json {
    on_text(v, |s: Seq<char>| trim(s))
}

/// What the conversion to uppercase makes of a value.
pub open spec fn uppercased(v: Json) -> Json {
    on_text(v, |s: Seq<char>| str_to_uppercase(s))
}

/// What the conversion to lowercase makes of a value.
pub open spec fn lowercased(v: Json) -> Json {
    on_text(v, |s: Seq<char>| str_to_lowercase(s))
}

/// What a replacement leaves: the replaced text, or the input where the
/// pattern was not accepted.
pub open spec fn replace_outcome(v: Json, replaced: Option<Seq<char>>) -> Json {
    match replaced {
        Some(t) => Json::String(t),
        None => v,
    }
}

/// What a replacement makes of a value: the scalar's text with the matches of
/// the pattern replaced; the value itself where the pattern is not accepted.
pub open spec fn replaced(v: Json, pattern: Seq<char>, replacement: Seq<char>) -> Json {
    match scalar_text(v) {
        Some(s) => replace_outcome(v, regex_replaced(pattern, s, replacement)),
        None => v,
    }
}

/// The length of a text in bytes of UTF-8.
pub open spec fn byte_len(s: Seq<char>) -> nat {
    encode_utf8(s).len()
}

/// The character to pad with: the first of `pad`, or `0` where it is empty.
pub open spec fn pad_char(pad: Seq<char>) -> char {
    if pad.len() > 0 {
        pad[0]
    } else {
        '0'
    }
}

/// How many characters of `width` bytes each it takes to make up for
/// `missing` bytes: the least number whose bytes are no fewer.
pub open spec fn pad_count(missing: nat, width: nat) -> nat {
    if width == 0 {
        missing
    } else if missing % width == 0 {
        missing / width
    } else {
        missing / width + 1
    }
}

/// The padding that brings `s` to `length` bytes: the pad character as often
/// as it takes to reach the length, and no more often.
pub open spec fn padding(s: Seq<char>, length: nat, pad: Seq<char>) -> Seq<char> {
    if byte_len(s) >= length {
        Seq::empty()
    } else {
        Seq::new(
            pad_count((length - byte_len(s)) as nat, byte_len(seq![pad_char(pad)])),
            |i: int| pad_char(pad),
        )
    }
}

/// A character takes between one and four bytes.
pub proof fn lemma_char_width(c: char)
    ensures
        1 <= byte_len(seq![c]) <= 4,
{
    let one = seq![c];
    assert(one.drop_first() =~= Seq::<char>::empty());
    assert(encode_utf8(one.drop_first()) =~= Seq::<u8>::empty());
    assert(encode_utf8(one) =~= vstd::utf8::encode_scalar(c as u32));
}

/// The count is the least that reaches what is missing: so many characters
/// have bytes enough, and one character fewer would not.
pub proof fn lemma_pad_count_is_least(missing: nat, width: nat)
    requires
        width > 0,
    ensures
        pad_count(missing, width) * width >= missing,
        pad_count(missing, width) > 0 ==> (pad_count(missing, width) - 1) * width < missing,
        missing > 0 ==> pad_count(missing, width) > 0,
{
    let q = missing / width;
    let r = missing % width;
    vstd::arithmetic::div_mod::lemma_fundamental_div_mod(missing as int, width as int);
    assert(missing == width * q + r);
    assert(0 <= r < width);
    assert((q + 1) * width == q * width + width) by (nonlinear_arith);
    assert(width * q == q * width) by (nonlinear_arith);
    if r == 0 {
        assert((q - 1) * width == q * width - width) by (nonlinear_arith);
        if missing > 0 && q == 0 {
            assert(0 * width == 0) by (nonlinear_arith);
        }
    }
}

/// The bytes of two texts in a row are the bytes of the one and of the other.
pub proof fn lemma_byte_len_concat(a: Seq<char>, b: Seq<char>)
    ensures
        byte_len(a + b) == byte_len(a) + byte_len(b),
    decreases a.len(),
{
    if a.len() == 0 {
        assert(a + b =~= b);
        assert(encode_utf8(a) =~= Seq::<u8>::empty());
    } else {
        assert((a + b).drop_first() =~= a.drop_first() + b);
        assert((a + b)[0] == a[0]);
        lemma_byte_len_concat(a.drop_first(), b);
    }
}

/// A character repeated has the bytes of the character as often.
pub proof fn lemma_byte_len_repeat(c: char, n: nat)
    ensures
        byte_len(Seq::new(n, |i: int| c)) == n * byte_len(seq![c]),
    decreases n,
{
    let all = Seq::new(n, |i: int| c);
    if n == 0 {
        assert(encode_utf8(all) =~= Seq::<u8>::empty());
        assert(0 * byte_len(seq![c]) == 0) by (nonlinear_arith);
    } else {
        let rest = Seq::new((n - 1) as nat, |i: int| c);
        assert(all =~= seq![c] + rest);
        lemma_byte_len_concat(seq![c], rest);
        lemma_byte_len_repeat(c, (n - 1) as nat);
        let w = byte_len(seq![c]);
        assert(n * w == w + (n - 1) * w) by (nonlinear_arith);
    }
}

/// Padding reaches the length and goes no further than it must: the padded
/// text has no fewer bytes than asked for, a text that is long enough gets no
/// padding, and with one pad character fewer the text would fall short.
pub proof fn lemma_padding_reaches_length(s: Seq<char>, length: nat, pad: Seq<char>)
    ensures
        byte_len(padding(s, length, pad) + s) >= length,
        byte_len(s + padding(s, length, pad)) >= length,
        byte_len(s) >= length ==> padding(s, length, pad).len() == 0,
        padding(s, length, pad).len() > 0 ==> byte_len(padding(s, length, pad) + s) - byte_len(
            seq![pad_char(pad)],
        ) < length,
{
    let p = padding(s, length, pad);
    let c = pad_char(pad);
    let w = byte_len(seq![c]);
    lemma_char_width(c);
    lemma_byte_len_concat(p, s);
    lemma_byte_len_concat(s, p);
    if byte_len(s) < length {
        let missing = (length - byte_len(s)) as nat;
        let n = pad_count(missing, w);
        lemma_pad_count_is_least(missing, w);
        lemma_byte_len_repeat(c, n);
        assert(p =~= Seq::new(n, |i: int| c));
        assert((n - 1) * w == n * w - w) by (nonlinear_arith);
    } else {
        assert(encode_utf8(p) =~= Seq::<u8>::empty());
    }
}

/// What padding at the start makes of a value: the padding, then the scalar's text.
pub open spec fn padded_start(v: Json, length: nat, pad: Seq<char>) -> Json {
    on_text(v, |s: Seq<char>| padding(s, length, pad) + s)
}

/// What padding at the end makes of a value: the scalar's text, then the padding.
pub open spec fn padded_end(v: Json, length: nat, pad: Seq<char>) -> Json {
    on_text(v, |s: Seq<char>| s + padding(s, length, pad))
}

/// The number that a matched year writes; null where nothing matched or the
/// match is no integer.
pub open spec fn year_of_match(m: Option<Seq<char>>) -> Json {
    match m {
        Some(t) => match parse_integer(t) {
            Some(n) => Json::Number(n),
            None => Json::Null,
        },
        None => Json::Null,
    }
}

/// What the extraction of a year makes of a value: the first run of four
/// digits in the scalar's text as a number, null where the text has none; a
/// value without text stays.
pub open spec fn year_extracted(v: Json) -> Json {
    match scalar_text(v) {
        Some(s) => year_of_match(regex_first_match(YEAR_PATTERN@, s)),
        None => v,
    }
}

/// What the enforcement of a prefix makes of a value: the scalar's text,
/// with the prefix before it unless it starts with it.
pub open spec fn with_prefix(v: Json, prefix: Seq<char>) -> Json {
    on_text(
        v,
        |s: Seq<char>|
            if starts_with(s, prefix) {
                s
            } else {
                prefix + s
            },
    )
}

/// What the enforcement of a suffix makes of a value: the scalar's text,
/// with the suffix behind it unless it ends with it.
pub open spec fn with_suffix(v: Json, suffix: Seq<char>) -> Json {
    on_text(
        v,
        |s: Seq<char>|
            if ends_with(s, suffix) {
                s
            } else {
                s + suffix
            },
    )
}

/// What the table gives for `s`: the value under `s` itself, or, without regard
/// to case, the value of the first entry whose lowercase key is the lowercase `s`.
pub open spec fn table_match(mapping: Table, case_insensitive: bool, s: Seq<char>) -> Option<
    Seq<char>,
> {
    if case_insensitive {
        lookup_folded(mapping, str_to_lowercase(s))
    } else {
        lookup(mapping, s)
    }
}

/// What a lookup makes of a value: what the table gives for the scalar's
/// text, else the default for unmapped texts, else the empty text.
pub open spec fn mapped(
    v: Json,
    mapping: Table,
    case_insensitive: bool,
    default_unmapped: Option<Seq<char>>,
) -> Json {
    on_text(
        v,
        |s: Seq<char>|
            match table_match(mapping, case_insensitive, s) {
                Some(t) => t,
                None => match default_unmapped {
                    Some(d) => d,
                    None => Seq::empty(),
                },
            },
    )
}

/// The trimmed pieces of a text, each as a text value.
pub open spec fn split_pieces(s: Seq<char>, separator: Seq<char>) -> Seq<Json> {
    Seq::new(split(s, separator).len(), |i: int| Json::String(trim(split(s, separator)[i])))
}

/// What splitting makes of a value: the array of the trimmed pieces of the
/// scalar's text.
pub open spec fn split_up(v: Json, separator: Seq<char>) -> Json {
    match scalar_text(v) {
        Some(s) => Json::Array(split_pieces(s, separator)),
        None => v,
    }
}

/// Some truthy word equals `s` once both are in lowercase.
pub open spec fn is_truthy(true_values: Seq<Seq<char>>, s: Seq<char>) -> bool {
    exists|i: int|
        0 <= i < true_values.len() && str_to_lowercase(#[trigger] true_values[i])
            == str_to_lowercase(s)
}

/// What the coercion to a boolean makes of a value: a boolean stays; any other
/// scalar is true where its text is truthy, else false; a value without text
/// stays.
pub open spec fn as_boolean(v: Json, true_values: Seq<Seq<char>>) -> Json {
    match v {
        Json::Bool(b) => v,
        _ => match scalar_text(v) {
            Some(s) => Json::Bool(is_truthy(true_values, s)),
            None => v,
        },
    }
}

/// The integer that the digits of a text write, negative where the trimmed
/// text starts with a minus sign; null without digits or out of range.
pub open spec fn number_of_text(s: Seq<char>) -> Json {
    let digits = s.filter(|c: char| is_digit(c));
    if digits.len() == 0 {
        Json::Null
    } else {
        match parse_signed(digits, starts_with(trim(s), seq!['-'])) {
            Some(n) => Json::Number(n),
            None => Json::Null,
        }
    }
}

/// What the coercion to a number makes of a value: a number stays; any other
/// scalar gives the number of its text, null where the text writes none; a
/// value without text stays.
pub open spec fn as_number(v: Json) -> Json {
    match v {
        Json::Number(_) => v,
        Json::Decimal(_) => v,
        _ => match scalar_text(v) {
            Some(s) => number_of_text(s),
            None => v,
        },
    }
}

/// The characters of `s` from `start`, `length` of them or all that follow;
/// what lies beyond the end is left out.
pub open spec fn char_slice(s: Seq<char>, start: nat, length: Option<nat>) -> Seq<char> {
    let wanted = match length {
        Some(l) => start + l,
        None => s.len(),
    };
    let end = if wanted < s.len() {
        wanted
    } else {
        s.len()
    };
    if start <= end {
        s.subrange(start as int, end as int)
    } else {
        Seq::empty()
    }
}

/// What taking a substring makes of a value.
pub open spec fn sliced(v: Json, start: nat, length: Option<nat>) -> Json {
    on_text(v, |s: Seq<char>| char_slice(s, start, length))
}

/// What keeping the alphanumeric characters makes of a value.
pub open spec fn alphanumeric_only(v: Json) -> Json {
    on_text(v, |s: Seq<char>| s.filter(|c: char| char_is_alphanumeric(c)))
}

/// What keeping the digits makes of a value.
pub open spec fn digits_only(v: Json) -> Json {
    on_text(v, |s: Seq<char>| s.filter(|c: char| is_digit(c)))
}

/// What an operation makes of a value.
pub open spec fn apply_op(op: Op, v: Json) -> Json {
    match op {
        Op::Trim => trimmed(v),
        Op::Uppercase => uppercased(v),
        Op::Lowercase => lowercased(v),
        Op::Replace { pattern, value } => replaced(v, pattern, value),
        Op::PadStart { length, pad } => padded_start(v, length, pad),
        Op::PadEnd { length, pad } => padded_end(v, length, pad),
        Op::ExtractYear => year_extracted(v),
        Op::EnsurePrefix { value } => with_prefix(v, value),
        Op::EnsureSuffix { value } => with_suffix(v, value),
        Op::Lookup { mapping, case_insensitive, default_unmapped } => mapped(
            v,
            mapping,
            case_insensitive,
            default_unmapped,
        ),
        Op::Split { separator } => split_up(v, separator),
        Op::ToBoolean { true_values } => as_boolean(v, true_values),
        Op::ToNumber => as_number(v),
        Op::Substring { start, length } => sliced(v, start, length),
        Op::Alphanumeric => alphanumeric_only(v),
        Op::DigitsOnly => digits_only(v),
    }
}

/// Every operation leaves null, an array or an object as it found it.
pub proof fn lemma_non_scalar_unchanged(op: Op, v: Json)
    requires
        is_non_scalar(v),
    ensures
        apply_op(op, v) == v,
{
}

/// Enforcing a prefix twice is the same as enforcing it once.
pub proof fn lemma_prefix_idempotent(v: Json, prefix: Seq<char>)
    ensures
        with_prefix(with_prefix(v, prefix), prefix) == with_prefix(v, prefix),
{
    match scalar_text(v) {
        Some(s) => {
            if !starts_with(s, prefix) {
                assert((prefix + s).subrange(0, prefix.len() as int) =~= prefix);
            }
        },
        None => {},
    }
}

/// Enforcing a suffix twice is the same as enforcing it once.
pub proof fn lemma_suffix_idempotent(v: Json, suffix: Seq<char>)
    ensures
        with_suffix(with_suffix(v, suffix), suffix) == with_suffix(v, suffix),
{
    match scalar_text(v) {
        Some(s) => {
            if !ends_with(s, suffix) {
                let t = s + suffix;
                assert(t.subrange(t.len() - suffix.len(), t.len() as int) =~= suffix);
            }
        },
        None => {},
    }
}

/// The pad character where an operation names none: `0`.
pub fn default_pad_char() -> (r: String)
    ensures
        r@ == seq!['0'],
{
    let r = "0".to_string();
    proof {
        reveal_strlit("0");
        assert(r@ =~= seq!['0']);
    }
    r
}

/// The separator where a split names none: a comma.
pub fn default_split_separator() -> (r: String)
    ensures
        r@ == seq![','],
{
    let r = ",".to_string();
    proof {
        reveal_strlit(",");
        assert(r@ =~= seq![',']);
    }
    r
}

/// The words that count as true where a rule names none.
pub open spec fn default_truthy() -> Seq<Seq<char>> {
    seq!["true"@, "1"@, "yes"@, "oui"@, "o"@, "y"@]
}

/// The truthy words where a coercion to a boolean names none.
pub fn default_true_values() -> (r: Vec<String>)
    ensures
        str_views(r@) == default_truthy(),
{
    let mut r: Vec<String> = Vec::new();
    r.push("true".to_string());
    r.push("1".to_string());
    r.push("yes".to_string());
    r.push("oui".to_string());
    r.push("o".to_string());
    r.push("y".to_string());
    assert(str_views(r@) =~= default_truthy());
    r
}

impl Operation {
    /// Apply this operation to a value.
    pub fn apply(&self, value: &Value) -> (r: Value)
        ensures
            r@ == apply_op(self@, value@),
    {
        match self {
            Operation::Trim => self.apply_trim(value),
            Operation::Uppercase => self.apply_uppercase(value),
            Operation::Lowercase => self.apply_lowercase(value),
            Operation::Replace { pattern, value: replacement } => {
                self.apply_replace(value, pattern.as_str(), replacement.as_str())
            },
            Operation::PadStart { length, char } => self.apply_pad_start(
                value,
                *length,
                char.as_str(),
            ),
            Operation::PadEnd { length, char } => self.apply_pad_end(value, *length, char.as_str()),
            Operation::ExtractYear => self.apply_extract_year(value),
            Operation::EnsurePrefix { value: prefix } => self.apply_ensure_prefix(
                value,
                prefix.as_str(),
            ),
            Operation::EnsureSuffix { value: suffix } => self.apply_ensure_suffix(
                value,
                suffix.as_str(),
            ),
            Operation::Lookup { mapping, case_insensitive, default_unmapped } => {
                self.apply_map(value, mapping, *case_insensitive, default_unmapped)
            },
            Operation::Split { separator } => self.apply_split(value, separator.as_str()),
            Operation::ToBoolean { true_values } => self.apply_to_boolean(value, true_values),
            Operation::ToNumber => self.apply_to_number(value),
            Operation::Substring { start, length } => self.apply_substring(
                value,
                *start,
                *length,
            ),
            Operation::Alphanumeric => self.apply_alphanumeric(value),
            Operation::DigitsOnly => self.apply_digits_only(value),
        }
    }

    /// The text of a scalar value.
    pub fn as_string(value: &Value) -> (r: Option<String>)
        ensures
            option_text(r) == scalar_text(value@),
    {
        value.scalar_string()
    }

    /// Remove leading and trailing whitespace.
    pub fn apply_trim(&self, value: &Value) -> (r: Value)
        ensures
            r@ == trimmed(value@),
    {
        match Self::as_string(value) {
            Some(s) => Value::String(trim_str(s.as_str())),
            None => value.clone(),
        }
    }

    /// Convert to uppercase.
    pub fn apply_uppercase(&self, value: &Value) -> (r: Value)
        ensures
            r@ == uppercased(value@),
    {
        match Self::as_string(value) {
            Some(s) => Value::String(s.as_str().to_uppercase()),
            None => value.clone(),
        }
    }

    /// Convert to lowercase.
    pub fn apply_lowercase(&self, value: &Value) -> (r: Value)
        ensures
            r@ == lowercased(value@),
    {
        match Self::as_string(value) {
            Some(s) => Value::String(s.as_str().to_lowercase()),
            None => value.clone(),
        }
    }

    /// What a replacement that came out as `replaced` leaves of `value`.
    pub fn replace_result(value: &Value, replaced: Option<String>) -> (r: Value)
        ensures
            r@ == replace_outcome(value@, option_text(replaced)),
    {
        match replaced {
            Some(t) => Value::String(t),
            None => value.clone(),
        }
    }

    /// Replace every match of a regular expression.
    pub fn apply_replace(&self, value: &Value, pattern: &str, replacement: &str) -> (r: Value)
        ensures
            r@ == replaced(value@, pattern@, replacement@),
    {
        match Self::as_string(value) {
            Some(s) => {
                let out = replace_all(pattern, s.as_str(), replacement);
                Self::replace_result(value, out)
            },
            None => value.clone(),
        }
    }

    /// The padding that brings `s` to `length` bytes.
    pub fn padding_for(s: &str, length: usize, pad: &str) -> (r: Vec<char>)
        ensures
            r@ == padding(s@, length as nat, pad@),
    {
        let have = s.as_bytes().len();
        if have >= length {
            Vec::new()
        } else {
            let p = chars_of(pad);
            let c = if p.len() > 0 {
                p[0]
            } else {
                '0'
            };
            let mut one: Vec<char> = Vec::new();
            one.push(c);
            assert(one@ =~= seq![c]);
            let width = string_of(&one).as_str().as_bytes().len();
            proof {
                lemma_char_width(c);
            }
            let missing = length - have;
            proof {
                if width >= 2 {
                    vstd::arithmetic::div_mod::lemma_div_is_ordered_by_denominator(
                        missing as int,
                        2,
                        width as int,
                    );
                }
            }
            let count = if missing % width == 0 {
                missing / width
            } else {
                missing / width + 1
            };
            let r = repeat_char(c, count);
            assert(r@ =~= padding(s@, length as nat, pad@));
            r
        }
    }

    /// Pad at the start up to a length in bytes.
    pub fn apply_pad_start(&self, value: &Value, length: usize, pad_char: &str) -> (r: Value)
        ensures
            r@ == padded_start(value@, length as nat, pad_char@),
    {
        match Self::as_string(value) {
            Some(s) => {
                let mut out = Self::padding_for(s.as_str(), length, pad_char);
                let tail = chars_of(s.as_str());
                append_chars(&mut out, &tail);
                Value::String(string_of(&out))
            },
            None => value.clone(),
        }
    }

    /// Pad at the end up to a length in bytes.
    pub fn apply_pad_end(&self, value: &Value, length: usize, pad_char: &str) -> (r: Value)
        ensures
            r@ == padded_end(value@, length as nat, pad_char@),
    {
        match Self::as_string(value) {
            Some(s) => {
                let tail = Self::padding_for(s.as_str(), length, pad_char);
                let mut out = chars_of(s.as_str());
                append_chars(&mut out, &tail);
                Value::String(string_of(&out))
            },
            None => value.clone(),
        }
    }

    /// The number that a matched year writes.
    pub fn year_from_match(found: Option<String>) -> (r: Value)
        ensures
            r@ == year_of_match(option_text(found)),
    {
        match found {
            Some(t) => match parse_i64(t.as_str()) {
                Some(n) => Value::Number(n),
                None => Value::Null,
            },
            None => Value::Null,
        }
    }

    /// Extract the first run of four digits as a number.
    pub fn apply_extract_year(&self, value: &Value) -> (r: Value)
        ensures
            r@ == year_extracted(value@),
    {
        match Self::as_string(value) {
            Some(s) => {
                let found = first_match(YEAR_PATTERN, s.as_str());
                Self::year_from_match(found)
            },
            None => value.clone(),
        }
    }

    /// Make sure the text starts with a prefix.
    pub fn apply_ensure_prefix(&self, value: &Value, prefix: &str) -> (r: Value)
        ensures
            r@ == with_prefix(value@, prefix@),
    {
        match Self::as_string(value) {
            Some(s) => {
                if starts_with_str(s.as_str(), prefix) {
                    Value::String(s)
                } else {
                    Value::String(concat_strs(prefix, s.as_str()))
                }
            },
            None => value.clone(),
        }
    }

    /// Make sure the text ends with a suffix.
    pub fn apply_ensure_suffix(&self, value: &Value, suffix: &str) -> (r: Value)
        ensures
            r@ == with_suffix(value@, suffix@),
    {
        match Self::as_string(value) {
            Some(s) => {
                if ends_with_str(s.as_str(), suffix) {
                    Value::String(s)
                } else {
                    Value::String(concat_strs(s.as_str(), suffix))
                }
            },
            None => value.clone(),
        }
    }

    /// Look the text up in a table.
    pub fn apply_map(
        &self,
        value: &Value,
        mapping: &Mapping,
        case_insensitive: bool,
        default_unmapped: &Option<String>,
    ) -> (r: Value)
        ensures
            r@ == mapped(value@, mapping@, case_insensitive, option_text(*default_unmapped)),
    {
        match Self::as_string(value) {
            Some(s) => {
                let found = if case_insensitive {
                    let key = s.as_str().to_lowercase();
                    mapping.get_folded(key.as_str())
                } else {
                    mapping.get(s.as_str())
                };
                match found {
                    Some(v) => Value::String(v.clone()),
                    None => match default_unmapped {
                        Some(d) => Value::String(d.clone()),
                        None => Value::String(String::new()),
                    },
                }
            },
            None => value.clone(),
        }
    }

    /// Split the text into an array of trimmed pieces.
    pub fn apply_split(&self, value: &Value, separator: &str) -> (r: Value)
        ensures
            r@ == split_up(value@, separator@),
    {
        match Self::as_string(value) {
            Some(s) => {
                let pieces = split_str(s.as_str(), separator);
                let mut parts: Vec<Value> = Vec::new();
                let mut i: usize = 0;
                assert(str_views(pieces@).len() == pieces@.len());
                while i < pieces.len()
                    invariant
                        i <= pieces.len(),
                        parts@.len() == i,
                        str_views(pieces@) == split(s@, separator@),
                        forall|j: int|
                            0 <= j < i ==> parts@[j]@ == Json::String(
                                trim(split(s@, separator@)[j]),
                            ),
                    decreases pieces.len() - i,
                {
                    assert(str_views(pieces@)[i as int] == pieces@[i as int]@);
                    parts.push(Value::String(trim_str(pieces[i].as_str())));
                    i += 1;
                }
                proof {
                    lemma_view_array(parts);
                    assert(values_view(parts@) =~= split_pieces(s@, separator@));
                }
                Value::Array(parts)
            },
            None => value.clone(),
        }
    }

    /// Coerce to a boolean.
    pub fn apply_to_boolean(&self, value: &Value, true_values: &Vec<String>) -> (r: Value)
        ensures
            r@ == as_boolean(value@, str_views(true_values@)),
    {
        match value {
            Value::Bool(b) => Value::Bool(*b),
            _ => match Self::as_string(value) {
                Some(s) => {
                    let lower = s.as_str().to_lowercase();
                    let ghost words = str_views(true_values@);
                    let mut i: usize = 0;
                    while i < true_values.len()
                        invariant
                            i <= true_values.len(),
                            words == str_views(true_values@),
                            lower@ == str_to_lowercase(s@),
                            !(value@ is Bool),
                            scalar_text(value@) == Some(s@),
                            forall|j: int|
                                0 <= j < i ==> str_to_lowercase(#[trigger] words[j]) != lower@,
                        decreases true_values.len() - i,
                    {
                        assert(words[i as int] == true_values@[i as int]@);
                        let word = true_values[i].as_str().to_lowercase();
                        if str_eq(word.as_str(), lower.as_str()) {
                            assert(is_truthy(words, s@));
                            return Value::Bool(true);
                        }
                        i += 1;
                    }
                    assert(!is_truthy(words, s@));
                    Value::Bool(false)
                },
                None => value.clone(),
            },
        }
    }

    /// The integer that the digits of a text write.
    pub fn number_from_text(s: &str) -> (r: Value)
        ensures
            r@ == number_of_text(s@),
    {
        let chars = chars_of(s);
        let trimmed = trim_chars(&chars);
        let negative = trimmed.len() > 0 && trimmed[0] == '-';
        proof {
            let t = trim(s@);
            let minus = seq!['-'];
            if t.len() > 0 {
                assert(t.subrange(0, 1) =~= seq![t[0]]);
                if t[0] == '-' {
                    assert(t.subrange(0, 1) =~= minus);
                } else {
                    assert(t.subrange(0, 1)[0] != minus[0]);
                }
            }
            assert(negative == starts_with(t, minus));
        }
        let digits = digits_of(&chars);
        if digits.len() == 0 {
            return Value::Null;
        }
        match parse_digits(&digits, negative) {
            Some(n) => Value::Number(n),
            None => Value::Null,
        }
    }

    /// Coerce to an integer number.
    pub fn apply_to_number(&self, value: &Value) -> (r: Value)
        ensures
            r@ == as_number(value@),
    {
        match value {
            Value::Number(_) => value.clone(),
            Value::Decimal(_) => value.clone(),
            _ => match Self::as_string(value) {
                Some(s) => Self::number_from_text(s.as_str()),
                None => value.clone(),
            },
        }
    }

    /// Take a slice of the text, counted in characters.
    pub fn apply_substring(&self, value: &Value, start: usize, length: Option<usize>) -> (r: Value)
        ensures
            r@ == sliced(
                value@,
                start as nat,
                match length {
                    Some(l) => Some(l as nat),
                    None => None,
                },
            ),
    {
        match Self::as_string(value) {
            Some(s) => {
                let chars = chars_of(s.as_str());
                let n = chars.len();
                let end = match length {
                    Some(l) => if l > n || start > n - l {
                        n
                    } else {
                        start + l
                    },
                    None => n,
                };
                if start <= end {
                    Value::String(string_of(&slice_chars(&chars, start, end)))
                } else {
                    Value::String(String::new())
                }
            },
            None => value.clone(),
        }
    }

    /// Keep the alphanumeric characters.
    pub fn apply_alphanumeric(&self, value: &Value) -> (r: Value)
        ensures
            r@ == alphanumeric_only(value@),
    {
        match Self::as_string(value) {
            Some(s) => {
                let chars = chars_of(s.as_str());
                Value::String(string_of(&alphanumerics_of(&chars)))
            },
            None => value.clone(),
        }
    }

    /// Keep the ASCII digits.
    pub fn apply_digits_only(&self, value: &Value) -> (r: Value)
        ensures
            r@ == digits_only(value@),
    {
        match Self::as_string(value) {
            Some(s) => {
                let chars = chars_of(s.as_str());
                Value::String(string_of(&digits_of(&chars)))
            },
            None => value.clone(),
        }
    }
}

impl Clone for Operation {
    fn clone(&self) -> (r: Self)
        ensures
            r@ == self@,
    {
        match self {
            Operation::Trim => Operation::Trim,
            Operation::Uppercase => Operation::Uppercase,
            Operation::Lowercase => Operation::Lowercase,
            Operation::Replace { pattern, value } => Operation::Replace {
                pattern: pattern.clone(),
                value: value.clone(),
            },
            Operation::PadStart { length, char } => Operation::PadStart {
                length: *length,
                char: char.clone(),
            },
            Operation::PadEnd { length, char } => Operation::PadEnd {
                length: *length,
                char: char.clone(),
            },
            Operation::ExtractYear => Operation::ExtractYear,
            Operation::EnsurePrefix { value } => Operation::EnsurePrefix { value: value.clone() },
            Operation::EnsureSuffix { value } => Operation::EnsureSuffix { value: value.clone() },
            Operation::Lookup { mapping, case_insensitive, default_unmapped } => Operation::Lookup {
                mapping: mapping.clone(),
                case_insensitive: *case_insensitive,
                default_unmapped: match default_unmapped {
                    Some(d) => Some(d.clone()),
                    None => None,
                },
            },
            Operation::Split { separator } => Operation::Split { separator: separator.clone() },
            Operation::ToBoolean { true_values } => Operation::ToBoolean {
                true_values: clone_strings(true_values),
            },
            Operation::ToNumber => Operation::ToNumber,
            Operation::Substring { start, length } => Operation::Substring {
                start: *start,
                length: *length,
            },
            Operation::Alphanumeric => Operation::Alphanumeric,
            Operation::DigitsOnly => Operation::DigitsOnly,
        }
    }
}

/// The operations and their parameters, as a table for a reader.
pub const OPERATIONS_TABLE: &'static str = r#"Available transformation operations:

| Operation | Description | Parameters |
|-----------|-------------|------------|
| trim | Remove leading/trailing whitespace | - |
| uppercase | Convert to uppercase | - |
| lowercase | Convert to lowercase | - |
| replace | Regex pattern replacement | pattern: regex, value: replacement |
| pad_start | Pad string at start | length: target length, char: pad character (default "0") |
| pad_end | Pad string at end | length: target length, char: pad character (default "0") |
| extract_year | Extract 4-digit year from date | - |
| ensure_prefix | Add prefix if not present | value: prefix string |
| ensure_suffix | Add suffix if not present | value: suffix string |
| map | Map values using lookup table | mapping: {source: target}, case_insensitive: bool |
| split | Split into array | separator: split char (default ",") |
| to_boolean | Convert to boolean | true_values: list of truthy strings |
| to_number | Convert to integer | - |
| substring | Extract substring | start: start index, length: optional length |
| alphanumeric | Keep only alphanumeric chars | - |
| digits_only | Keep only digits | - |

Example operations in JSON:
[
  {"type": "trim"},
  {"type": "replace", "pattern": "[-. ]", "value": ""},
  {"type": "map", "mapping": {"CA": "Composer", "A": "Author"}, "case_insensitive": true},
  {"type": "to_number"},
  {"type": "ensure_prefix", "value": "T"}
]"#;

/// A description of all operations, for a generator's prompt.
pub fn operations_description() -> (r: String)
    ensures
        r@ == OPERATIONS_TABLE@,
{
    OPERATIONS_TABLE.to_string()
}

} // verus!
