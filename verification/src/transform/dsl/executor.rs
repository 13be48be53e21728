//! The executor: applies a matrix to a batch of rows.
//!
//! Every row is first expanded into one or more pairs of a row and overriding
//! rules; every pair is then resolved, field by field, into a record, a
//! reported skip, or nothing.

use vstd::prelude::*;
use crate::assoc::{lookup, with_entry, lemma_with_entry};
use crate::number::{decimal, u64_to_string};
use crate::text::{
    trim, trim_str, is_blank, is_blank_str, split, split_str, join, join_strs, str_views,
    lemma_str_views_push, concat_strs,
};
use crate::value::{
    Value, Json, Entry, Entries, entries_view, values_view, json_is_empty, get_entry, set_entry,
    clone_entries, lemma_view_object,
};
use super::mapping::Table;
use super::matrix::{
    FieldTransform, FieldRule, TransformMap, Rules, TransformationMatrix, MatrixView, ExpandConfig,
    Expansion, VariantView, variants_view, blank_rule, option_json, ops_view, clone_option_value,
};
use super::operations::{Operation, Op, apply_op};

verus! {

/// The target field that role expansion forces.
pub const ROLE_FIELD: &'static str = "creatorRole";

/// Why a row that is no object is skipped.
pub const NOT_AN_OBJECT: &'static str = "Row is not a JSON object";

/// Why a row that lacks a required field is skipped.
pub const MISSING_REQUIRED: &'static str = "Missing required fields";

/// An error during transformation.
#[derive(Debug, PartialEq)]
pub struct TransformError {
    pub row: usize,
    pub field: String,
    pub message: String,
}

/// A row that was skipped.
#[derive(Debug, PartialEq)]
pub struct SkippedRow {
    pub row: usize,
    pub reason: String,
    pub missing_fields: Vec<String>,
}

/// The content of a [`SkippedRow`].
pub struct Skip {
    pub row: nat,
    pub reason: Seq<char>,
    pub missing_fields: Seq<Seq<char>>,
}

impl View for SkippedRow {
    type V = Skip;

    open spec fn view(&self) -> Skip {
        Skip {
            row: self.row as nat,
            reason: self.reason@,
            missing_fields: str_views(self.missing_fields@),
        }
    }
}

impl Clone for SkippedRow {
    fn clone(&self) -> (r: Self)
        ensures
            r@ == self@,
    {
        SkippedRow {
            row: self.row,
            reason: self.reason.clone(),
            missing_fields: crate::text::clone_strings(&self.missing_fields),
        }
    }
}

impl Clone for TransformError {
    fn clone(&self) -> (r: Self)
        ensures
            r.row == self.row,
            r.field@ == self.field@,
            r.message@ == self.message@,
    {
        TransformError {
            row: self.row,
            field: self.field.clone(),
            message: self.message.clone(),
        }
    }
}

/// The result of executing a matrix on a batch.
#[derive(Debug, PartialEq)]
pub struct TransformResult {
    /// The records.
    pub records: Vec<Value>,
    /// Errors met on the way.
    pub errors: Vec<TransformError>,
    /// Rows skipped for want of a required field.
    pub skipped: Vec<SkippedRow>,
}

/// The skips by content.
pub open spec fn skips_view(s: Seq<SkippedRow>) -> Seq<Skip> {
    Seq::new(s.len(), |i: int| s[i]@)
}

/// What an execution yields: the records and the reported skips.
pub struct Outcome {
    pub records: Seq<Json>,
    pub skipped: Seq<Skip>,
}

impl TransformResult {
    /// The records and skips, by content.
    pub open spec fn outcome(&self) -> Outcome {
        Outcome { records: values_view(self.records@), skipped: skips_view(self.skipped@) }
    }

    /// The text of the summary for given counts.
    pub open spec fn summary_text(records: nat, errors: nat, skipped: nat) -> Seq<char> {
        "Transformed: "@ + decimal(records as int) + " records, "@ + decimal(errors as int)
            + " errors, "@ + decimal(skipped as int) + " skipped"@
    }

    /// A result without records, errors or skips.
    pub fn new() -> (r: Self)
        ensures
            r.records@.len() == 0,
            r.errors@.len() == 0,
            r.skipped@.len() == 0,
    {
        TransformResult { records: Vec::new(), errors: Vec::new(), skipped: Vec::new() }
    }

    /// Whether the transformation met no error.
    pub fn is_ok(&self) -> (r: bool)
        ensures
            r == (self.errors@.len() == 0),
    {
        self.errors.len() == 0
    }

    /// The counts of records, errors and skips in one line.
    pub fn summary(&self) -> (r: String)
        ensures
            r@ == Self::summary_text(
                self.records@.len(),
                self.errors@.len(),
                self.skipped@.len(),
            ),
    {
        let a = concat_strs("Transformed: ", u64_to_string(self.records.len() as u64).as_str());
        let b = concat_strs(a.as_str(), " records, ");
        let c = concat_strs(b.as_str(), u64_to_string(self.errors.len() as u64).as_str());
        let d = concat_strs(c.as_str(), " errors, ");
        let e = concat_strs(d.as_str(), u64_to_string(self.skipped.len() as u64).as_str());
        concat_strs(e.as_str(), " skipped")
    }
}

impl Default for TransformResult {
    fn default() -> (r: Self)
        ensures
            r.records@.len() == 0,
            r.errors@.len() == 0,
            r.skipped@.len() == 0,
    {
        TransformResult::new()
    }
}

/// Whether a value counts as empty: null, blank text, an array or object
/// without entries.
pub fn is_empty(value: &Value) -> (r: bool)
    ensures
        r == json_is_empty(value@),
{
    value.is_empty()
}

/// The value after the first `n` operations of the chain.
pub open spec fn run_ops(ops: Seq<Op>, v: Json, n: int) -> Json
    decreases n,
{
    if n <= 0 || n > ops.len() {
        v
    } else {
        apply_op(ops[n - 1], run_ops(ops, v, n - 1))
    }
}

/// What one joined column contributes: its text trimmed, where the row holds
/// text there that is not blank.
pub open spec fn part_of(row: Entries, column: Seq<char>) -> Option<Seq<char>> {
    match lookup(row, column) {
        Some(Json::String(t)) => if trim(t).len() == 0 {
            None
        } else {
            Some(trim(t))
        },
        _ => None,
    }
}

/// The contributions of the first `n` joined columns.
pub open spec fn parts_upto(row: Entries, columns: Seq<Seq<char>>, n: int) -> Seq<Seq<char>>
    decreases n,
{
    if n <= 0 || n > columns.len() {
        Seq::empty()
    } else {
        match part_of(row, columns[n - 1]) {
            Some(p) => parts_upto(row, columns, n - 1).push(p),
            None => parts_upto(row, columns, n - 1),
        }
    }
}

/// The value that a rule starts from: the single source column, else the
/// joined columns, else the constant.
pub open spec fn source_value(row: Entries, rule: FieldRule) -> Option<Json> {
    match rule.source {
        Some(s) => lookup(row, s),
        None => match rule.sources {
            Some(ss) => {
                let parts = parts_upto(row, ss, ss.len() as int);
                if parts.len() == 0 {
                    None
                } else {
                    Some(Json::String(join(parts, rule.concat_separator)))
                }
            },
            None => rule.constant,
        },
    }
}

/// The source value, or the default in its place where it is missing or empty.
pub open spec fn seeded_value(row: Entries, rule: FieldRule) -> Option<Json> {
    let initial = source_value(row, rule);
    let lacking = match initial {
        Some(v) => json_is_empty(v),
        None => true,
    };
    if lacking && rule.default is Some {
        rule.default
    } else {
        initial
    }
}

/// What a rule makes of a row: the seeded value run through the operations,
/// and the default once more where that came out empty.
pub open spec fn resolve_rule(row: Entries, rule: FieldRule) -> Option<Json> {
    match seeded_value(row, rule) {
        Some(v) => {
            let out = run_ops(rule.operations, v, rule.operations.len() as int);
            if json_is_empty(out) {
                rule.default
            } else {
                Some(out)
            }
        },
        None => None,
    }
}

/// The rule in force for a target field: the override where there is one.
pub open spec fn effective_rule(target: Seq<char>, rule: FieldRule, overrides: Option<Rules>)
    -> FieldRule {
    match overrides {
        Some(o) => match lookup(o, target) {
            Some(r) => r,
            None => rule,
        },
        None => rule,
    }
}

/// The fields resolved so far, and the required ones found missing.
pub struct Resolution {
    pub output: Entries,
    pub missing: Seq<Seq<char>>,
}

/// One more field: its value goes to the output where it is not empty; else a
/// required field is noted as missing, and another gets its default, if any.
pub open spec fn resolve_step(acc: Resolution, row: Entries, target: Seq<char>, rule: FieldRule)
    -> Resolution {
    let value = resolve_rule(row, rule);
    let usable = match value {
        Some(v) => !json_is_empty(v),
        None => false,
    };
    if usable {
        Resolution { output: with_entry(acc.output, target, value->0), ..acc }
    } else if rule.required {
        Resolution { missing: acc.missing.push(target), ..acc }
    } else {
        match rule.default {
            Some(d) => Resolution { output: with_entry(acc.output, target, d), ..acc },
            None => acc,
        }
    }
}

/// The first `n` fields of the matrix resolved on a row.
pub open spec fn resolve_fields(row: Entries, rules: Rules, overrides: Option<Rules>, n: int)
    -> Resolution
    decreases n,
{
    if n <= 0 || n > rules.len() {
        Resolution { output: Seq::empty(), missing: Seq::empty() }
    } else {
        resolve_step(
            resolve_fields(row, rules, overrides, n - 1),
            row,
            rules[n - 1].0,
            effective_rule(rules[n - 1].0, rules[n - 1].1, overrides),
        )
    }
}

/// What one pair of a row and overriding rules resolves to: a record, nothing
/// where no field came out, or a skip where the row is no object or a required
/// field is missing.
pub open spec fn resolved_row(row: Json, rules: Rules, overrides: Option<Rules>, index: nat)
    -> Result<Option<Json>, Skip> {
    match row {
        Json::Object(fields) => {
            let res = resolve_fields(fields, rules, overrides, rules.len() as int);
            if res.missing.len() > 0 {
                Err(Skip { row: index, reason: MISSING_REQUIRED@, missing_fields: res.missing })
            } else if res.output.len() == 0 {
                Ok(None)
            } else {
                Ok(Some(Json::Object(res.output)))
            }
        },
        _ => Err(Skip { row: index, reason: NOT_AN_OBJECT@, missing_fields: Seq::empty() }),
    }
}

/// A row with the rules that override the matrix's own for it.
pub type Pair = (Json, Option<Rules>);

/// The text under a column, or the empty text where the row holds none there.
pub open spec fn text_or_empty(o: Option<Json>) -> Seq<char> {
    match o {
        Some(Json::String(s)) => s,
        _ => Seq::empty(),
    }
}

/// The role that a token stands for: what the mapping gives for the trimmed
/// token, or the trimmed token itself.
pub open spec fn mapped_role(mapping: Table, token: Seq<char>) -> Seq<char> {
    match lookup(mapping, trim(token)) {
        Some(m) => m,
        None => trim(token),
    }
}

/// The rules that force the role field to a constant.
pub open spec fn role_override(role: Seq<char>) -> Rules {
    seq![(ROLE_FIELD@, FieldRule { constant: Some(Json::String(role)), ..blank_rule() })]
}

/// The pair that one token of a combined role gives: the row with the role in
/// its source column, and the role field forced to it.
pub open spec fn role_pair(fields: Entries, source: Seq<char>, mapping: Table, token: Seq<char>)
    -> Pair {
    let role = mapped_role(mapping, token);
    (Json::Object(with_entry(fields, source, Json::String(role))), Some(role_override(role)))
}

/// Whether a variant gives a record for a row.
pub open spec fn variant_emits(fields: Entries, v: VariantView) -> bool {
    match v.condition_column {
        Some(c) => !is_blank(text_or_empty(lookup(fields, c))),
        None => true,
    }
}

/// The pairs that the first `n` variants give.
pub open spec fn variants_pairs(row: Json, fields: Entries, vs: Seq<VariantView>, n: int) -> Seq<
    Pair,
>
    decreases n,
{
    if n <= 0 || n > vs.len() {
        Seq::empty()
    } else if variant_emits(fields, vs[n - 1]) {
        variants_pairs(row, fields, vs, n - 1).push((row, Some(vs[n - 1].overrides)))
    } else {
        variants_pairs(row, fields, vs, n - 1)
    }
}

/// The pairs that a row expands to. Without expansion, and wherever expansion
/// finds nothing to do, the row alone with no overrides.
pub open spec fn expanded(row: Json, expand: Option<Expansion>) -> Seq<Pair> {
    match row {
        Json::Object(fields) => match expand {
            None => seq![(row, None)],
            Some(Expansion::SplitRole { source, separator, mapping }) => {
                let role_value = text_or_empty(lookup(fields, source));
                let tokens = split(role_value, separator);
                if role_value.len() == 0 || separator.len() == 0 || tokens.len() <= 1 {
                    seq![(row, None)]
                } else {
                    Seq::new(tokens.len(), |i: int| role_pair(fields, source, mapping, tokens[i]))
                }
            },
            Some(Expansion::MultipleColumns { variants }) => {
                let pairs = variants_pairs(row, fields, variants, variants.len() as int);
                if pairs.len() == 0 {
                    seq![(row, None)]
                } else {
                    pairs
                }
            },
        },
        _ => seq![(row, None)],
    }
}

/// One more pair: its record, its skip, or nothing.
pub open spec fn pair_step(acc: Outcome, pair: Pair, rules: Rules, index: nat) -> Outcome {
    match resolved_row(pair.0, rules, pair.1, index) {
        Ok(Some(record)) => Outcome { records: acc.records.push(record), ..acc },
        Ok(None) => acc,
        Err(skip) => Outcome { skipped: acc.skipped.push(skip), ..acc },
    }
}

/// The outcome after the first `k` pairs of a row.
pub open spec fn pairs_outcome(acc: Outcome, pairs: Seq<Pair>, rules: Rules, index: nat, k: int)
    -> Outcome
    decreases k,
{
    if k <= 0 || k > pairs.len() {
        acc
    } else {
        pair_step(pairs_outcome(acc, pairs, rules, index, k - 1), pairs[k - 1], rules, index)
    }
}

/// The outcome after the first `n` rows of a batch.
pub open spec fn rows_outcome(rows: Seq<Json>, m: MatrixView, n: int) -> Outcome
    decreases n,
{
    if n <= 0 || n > rows.len() {
        Outcome { records: Seq::empty(), skipped: Seq::empty() }
    } else {
        let pairs = expanded(rows[n - 1], m.expand);
        pairs_outcome(
            rows_outcome(rows, m, n - 1),
            pairs,
            m.transforms,
            (n - 1) as nat,
            pairs.len() as int,
        )
    }
}

/// What executing a matrix on a batch yields.
pub open spec fn executed(rows: Seq<Json>, m: MatrixView) -> Outcome {
    rows_outcome(rows, m, rows.len() as int)
}

/// No field is put out empty, unless its rule's default is empty itself: a
/// step leaves the output as it was, or puts under the target a value that
/// is not empty or is the default of the rule.
pub proof fn lemma_nothing_empty_but_a_default(
    acc: Resolution,
    row: Entries,
    target: Seq<char>,
    rule: FieldRule,
)
    ensures
        ({
            let after = resolve_step(acc, row, target, rule);
            ||| after.output == acc.output
            ||| exists|v: Json|
                after.output == with_entry(acc.output, target, v) && (!json_is_empty(v)
                    || rule.default == Some(v))
        }),
{
    let after = resolve_step(acc, row, target, rule);
    let value = resolve_rule(row, rule);
    let usable = match value {
        Some(v) => !json_is_empty(v),
        None => false,
    };
    if usable {
        assert(after.output == with_entry(acc.output, target, value->0));
    } else if !rule.required {
        match rule.default {
            Some(d) => {
                assert(after.output == with_entry(acc.output, target, d));
            },
            None => {},
        }
    }
}

/// A required field whose rule reads a column that the row lacks, and has no
/// default, resolves to nothing.
pub proof fn lemma_absent_source_resolves_to_nothing(row: Entries, rule: FieldRule)
    requires
        rule.source is Some,
        lookup(row, rule.source->0).is_none(),
        rule.default.is_none(),
    ensures
        resolve_rule(row, rule).is_none(),
{
}

/// Once a required field has been found missing, it stays so to the end.
proof fn lemma_missing_grows(row: Entries, rules: Rules, overrides: Option<Rules>, i: int, n: int)
    requires
        0 <= i < n <= rules.len(),
        ({
            let rule = effective_rule(rules[i].0, rules[i].1, overrides);
            let value = resolve_rule(row, rule);
            rule.required && (value.is_none() || json_is_empty(value->0))
        }),
    ensures
        resolve_fields(row, rules, overrides, n).missing.contains(rules[i].0),
    decreases n,
{
    let before = resolve_fields(row, rules, overrides, n - 1);
    let after = resolve_fields(row, rules, overrides, n);
    if n - 1 == i {
        assert(after.missing == before.missing.push(rules[i].0));
        assert(after.missing[before.missing.len() as int] == rules[i].0);
    } else {
        lemma_missing_grows(row, rules, overrides, i, n - 1);
        let k = choose|k: int| 0 <= k < before.missing.len() && before.missing[k] == rules[i].0;
        if after.missing != before.missing {
            assert(after.missing == before.missing.push(rules[n - 1].0));
            assert(after.missing[k] == before.missing[k]);
        }
    }
}

/// Required-field policy: where some required field of the matrix resolves to
/// nothing or to an empty value on a row, the row gives no record; it is
/// skipped, under its own index, and the skip names that field.
pub proof fn lemma_missing_required_is_skipped(
    row: Entries,
    rules: Rules,
    overrides: Option<Rules>,
    index: nat,
    i: int,
)
    requires
        0 <= i < rules.len(),
        ({
            let rule = effective_rule(rules[i].0, rules[i].1, overrides);
            let value = resolve_rule(row, rule);
            rule.required && (value.is_none() || json_is_empty(value->0))
        }),
    ensures
        resolved_row(Json::Object(row), rules, overrides, index) is Err,
        resolved_row(Json::Object(row), rules, overrides, index)->Err_0.row == index,
        resolved_row(Json::Object(row), rules, overrides, index)->Err_0.missing_fields.contains(
            rules[i].0,
        ),
        forall|acc: Outcome|
            pair_step(acc, (Json::Object(row), overrides), rules, index).records == acc.records,
{
    lemma_missing_grows(row, rules, overrides, i, rules.len() as int);
}

/// Role expansion: a row whose role column holds more than one token expands
/// to one pair per token. Each pair holds the role that the token stands for in
/// the role column, and forces the role field to that role, whatever rule the
/// matrix has for the field.
pub proof fn lemma_split_role_expansion(
    fields: Entries,
    source: Seq<char>,
    separator: Seq<char>,
    mapping: Table,
    rule: FieldRule,
    i: int,
)
    requires
        text_or_empty(lookup(fields, source)).len() > 0,
        separator.len() > 0,
        split(text_or_empty(lookup(fields, source)), separator).len() > 1,
        0 <= i < split(text_or_empty(lookup(fields, source)), separator).len(),
    ensures
        ({
            let tokens = split(text_or_empty(lookup(fields, source)), separator);
            let role = mapped_role(mapping, tokens[i]);
            let pairs = expanded(
                Json::Object(fields),
                Some(Expansion::SplitRole { source, separator, mapping }),
            );
            let forced = FieldRule { constant: Some(Json::String(role)), ..blank_rule() };
            &&& pairs.len() == tokens.len()
            &&& pairs[i].0 == Json::Object(with_entry(fields, source, Json::String(role)))
            &&& lookup(with_entry(fields, source, Json::String(role)), source) == Some(
                Json::String(role),
            )
            &&& effective_rule(ROLE_FIELD@, rule, pairs[i].1) == forced
            &&& !is_blank(role) ==> forall|row: Entries|
                resolve_rule(row, forced) == Some(Json::String(role))
        }),
{
    let tokens = split(text_or_empty(lookup(fields, source)), separator);
    let role = mapped_role(mapping, tokens[i]);
    let forced = FieldRule { constant: Some(Json::String(role)), ..blank_rule() };
    lemma_with_entry(fields, source, Json::String(role));
    let over = role_override(role);
    assert(over[0].0 == ROLE_FIELD@);
    assert(lookup(over, ROLE_FIELD@) == Some(forced));
    if !is_blank(role) {
        assert forall|row: Entries| resolve_rule(row, forced) == Some(Json::String(role)) by {
            assert(source_value(row, forced) == Some(Json::String(role)));
            assert(run_ops(forced.operations, Json::String(role), 0) == Json::String(role));
        }
    }
}

/// Without expansion every row is resolved once, under the matrix's own rules.
pub proof fn lemma_no_expansion(row: Json)
    ensures
        expanded(row, None) == seq![(row, None::<Rules>)],
{
}

/// Expansion by column groups never loses a row: where no variant gives a
/// record, the row goes on alone.
pub proof fn lemma_variants_never_empty(row: Json, expand: Option<Expansion>)
    ensures
        expanded(row, expand).len() >= 1,
{
    match row {
        Json::Object(fields) => match expand {
            Some(Expansion::SplitRole { source, separator, mapping }) => {},
            _ => {},
        },
        _ => {},
    }
}

/// The content of borrowed overriding rules, if there are any.
pub open spec fn option_rules(o: Option<&TransformMap>) -> Option<Rules> {
    match o {
        Some(t) => Some(t@),
        None => None,
    }
}

/// The content of overriding rules, if there are any.
pub open spec fn owned_rules(o: Option<TransformMap>) -> Option<Rules> {
    match o {
        Some(t) => Some(t@),
        None => None,
    }
}

/// The pairs by content.
pub open spec fn pairs_view(pairs: Seq<(Value, Option<TransformMap>)>) -> Seq<Pair> {
    Seq::new(pairs.len(), |i: int| (pairs[i].0@, owned_rules(pairs[i].1)))
}

/// Runs the operations of a chain in order.
pub fn apply_operations(ops: &Vec<Operation>, value: Value) -> (r: Value)
    ensures
        r@ == run_ops(ops_view(ops@), value@, ops@.len() as int),
{
    let ghost start = value@;
    let mut v = value;
    let mut i: usize = 0;
    while i < ops.len()
        invariant
            i <= ops.len(),
            v@ == run_ops(ops_view(ops@), start, i as int),
        decreases ops.len() - i,
    {
        assert(ops_view(ops@)[i as int] == ops@[i as int]@);
        v = ops[i].apply(&v);
        i += 1;
    }
    v
}

/// The trimmed, non-blank texts that the row holds under the joined columns.
pub fn joined_parts(row: &Vec<Entry>, sources: &Vec<String>) -> (r: Vec<String>)
    ensures
        str_views(r@) == parts_upto(
            entries_view(row@),
            str_views(sources@),
            sources@.len() as int,
        ),
{
    let mut parts: Vec<String> = Vec::new();
    let mut i: usize = 0;
    assert(str_views(parts@) =~= Seq::<Seq<char>>::empty());
    while i < sources.len()
        invariant
            i <= sources.len(),
            str_views(parts@) == parts_upto(entries_view(row@), str_views(sources@), i as int),
        decreases sources.len() - i,
    {
        assert(str_views(sources@)[i as int] == sources@[i as int]@);
        match get_entry(row, sources[i].as_str()) {
            Some(v) => match v.as_str() {
                Some(s) => {
                    let t = trim_str(s);
                    if t.as_str().unicode_len() > 0 {
                        proof {
                            lemma_str_views_push(parts@, t);
                        }
                        parts.push(t);
                    }
                },
                None => {},
            },
            None => {},
        }
        i += 1;
    }
    parts
}

/// Apply a field rule to a row.
pub fn apply_transform(row: &Vec<Entry>, transform: &FieldTransform) -> (r: Option<Value>)
    ensures
        option_json(r) == resolve_rule(entries_view(row@), transform@),
{
    let mut value: Option<Value> = match &transform.source {
        Some(source) => match get_entry(row, source.as_str()) {
            Some(v) => Some(v.clone()),
            None => None,
        },
        None => match &transform.sources {
            Some(sources) => {
                let parts = joined_parts(row, sources);
                if parts.len() == 0 {
                    None
                } else {
                    Some(Value::String(join_strs(&parts, transform.concat_separator.as_str())))
                }
            },
            None => clone_option_value(&transform.constant),
        },
    };
    assert(option_json(value) == source_value(entries_view(row@), transform@));
    let lacking = match &value {
        Some(v) => is_empty(v),
        None => true,
    };
    if lacking {
        match &transform.default {
            Some(default) => {
                value = Some(default.clone());
            },
            None => {},
        }
    }
    assert(option_json(value) == seeded_value(entries_view(row@), transform@));
    match value {
        Some(v) => {
            let out = apply_operations(&transform.operations, v);
            if is_empty(&out) {
                clone_option_value(&transform.default)
            } else {
                Some(out)
            }
        },
        None => None,
    }
}

/// Transform one row, with the rules that override the matrix's own for it.
pub fn transform_row_with_overrides(
    row: &Value,
    matrix: &TransformationMatrix,
    row_idx: usize,
    overrides: Option<&TransformMap>,
) -> (r: Result<Option<Value>, SkippedRow>)
    ensures
        match r {
            Ok(Some(record)) => resolved_row(
                row@,
                matrix@.transforms,
                option_rules(overrides),
                row_idx as nat,
            ) == Ok::<Option<Json>, Skip>(Some(record@)),
            Ok(None) => resolved_row(
                row@,
                matrix@.transforms,
                option_rules(overrides),
                row_idx as nat,
            ) == Ok::<Option<Json>, Skip>(None),
            Err(skip) => resolved_row(
                row@,
                matrix@.transforms,
                option_rules(overrides),
                row_idx as nat,
            ) == Err::<Option<Json>, Skip>(skip@),
        },
{
    let row_obj = match row.as_object() {
        Some(obj) => obj,
        None => {
            let skip = SkippedRow {
                row: row_idx,
                reason: NOT_AN_OBJECT.to_string(),
                missing_fields: Vec::new(),
            };
            assert(skip@.missing_fields =~= Seq::empty());
            return Err(skip);
        },
    };
    let ghost fields = entries_view(row_obj@);
    let ghost rules = matrix@.transforms;
    let ghost over = option_rules(overrides);
    let mut output: Vec<Entry> = Vec::new();
    let mut missing_required: Vec<String> = Vec::new();
    let n = matrix.transforms.len();
    let mut i: usize = 0;
    assert(entries_view(output@) =~= Seq::empty());
    assert(str_views(missing_required@) =~= Seq::<Seq<char>>::empty());
    while i < n
        invariant
            i <= n,
            n == rules.len(),
            rules == matrix@.transforms,
            fields == entries_view(row_obj@),
            over == option_rules(overrides),
            entries_view(output@) == resolve_fields(fields, rules, over, i as int).output,
            str_views(missing_required@) == resolve_fields(fields, rules, over, i as int).missing,
        decreases n - i,
    {
        let target_field = matrix.transforms.key_at(i);
        let transform = matrix.transforms.value_at(i);
        let effective_transform = match overrides {
            Some(o) => match o.get(target_field.as_str()) {
                Some(t) => t,
                None => transform,
            },
            None => transform,
        };
        assert(effective_transform@ == effective_rule(rules[i as int].0, rules[i as int].1, over));
        let value = apply_transform(row_obj, effective_transform);
        let usable = match &value {
            Some(v) => !is_empty(v),
            None => false,
        };
        if usable {
            match value {
                Some(v) => {
                    set_entry(&mut output, target_field.clone(), v);
                },
                None => {},
            }
        } else if effective_transform.required {
            let name = target_field.clone();
            proof {
                lemma_str_views_push(missing_required@, name);
            }
            missing_required.push(name);
        } else {
            match &effective_transform.default {
                Some(default) => {
                    set_entry(&mut output, target_field.clone(), default.clone());
                },
                None => {},
            }
        }
        i += 1;
    }
    if missing_required.len() > 0 {
        return Err(
            SkippedRow {
                row: row_idx,
                reason: MISSING_REQUIRED.to_string(),
                missing_fields: missing_required,
            },
        );
    }
    if output.len() == 0 {
        return Ok(None);
    }
    proof {
        lemma_view_object(output);
    }
    Ok(Some(Value::Object(output)))
}

/// The rules that force the role field to `role`.
pub fn role_overrides(role: &str) -> (r: TransformMap)
    ensures
        r@ == role_override(role@),
{
    let mut overrides = TransformMap::new();
    overrides.insert(ROLE_FIELD.to_string(), FieldTransform::from_constant(Value::text(role)));
    proof {
        crate::assoc::lemma_index_of_key(Seq::<(Seq<char>, FieldRule)>::empty(), ROLE_FIELD@);
        assert(overrides@ =~= role_override(role@));
    }
    overrides
}

/// Expand a row into the pairs that the matrix's expansion asks for.
pub fn expand_row(row: &Value, matrix: &TransformationMatrix, _row_idx: usize) -> (r: Vec<
    (Value, Option<TransformMap>),
>)
    ensures
        pairs_view(r@) == expanded(row@, matrix@.expand),
{
    let row_obj = match row.as_object() {
        Some(obj) => obj,
        None => {
            return single_pair(row);
        },
    };
    let ghost fields = entries_view(row_obj@);
    match &matrix.expand {
        None => single_pair(row),
        Some(ExpandConfig::SplitRole { source, separator, mapping }) => {
            let role_value: &str = match get_entry(row_obj, source.as_str()) {
                Some(v) => match v.as_str() {
                    Some(s) => s,
                    None => "",
                },
                None => "",
            };
            proof {
                reveal_strlit("");
                assert(""@ =~= Seq::<char>::empty());
                assert(role_value@ == text_or_empty(lookup(fields, source@)));
            }
            if role_value.unicode_len() == 0 || separator.as_str().unicode_len() == 0 {
                return single_pair(row);
            }
            let tokens = split_str(role_value, separator.as_str());
            if tokens.len() <= 1 {
                return single_pair(row);
            }
            let ghost toks = split(role_value@, separator@);
            let mut out: Vec<(Value, Option<TransformMap>)> = Vec::new();
            let mut i: usize = 0;
            while i < tokens.len()
                invariant
                    i <= tokens.len(),
                    toks == str_views(tokens@),
                    fields == entries_view(row_obj@),
                    out@.len() == i,
                    forall|j: int|
                        0 <= j < i ==> (out@[j].0@, owned_rules(out@[j].1)) == role_pair(
                            fields,
                            source@,
                            mapping@,
                            toks[j],
                        ),
                decreases tokens.len() - i,
            {
                assert(toks[i as int] == tokens@[i as int]@);
                let role = trim_str(tokens[i].as_str());
                let mapped: String = match mapping.get(role.as_str()) {
                    Some(m) => m.clone(),
                    None => role,
                };
                let mut new_row = clone_entries(row_obj);
                set_entry(&mut new_row, source.clone(), Value::text(mapped.as_str()));
                let overrides = role_overrides(mapped.as_str());
                proof {
                    lemma_view_object(new_row);
                }
                out.push((Value::Object(new_row), Some(overrides)));
                i += 1;
            }
            assert(pairs_view(out@) =~= expanded(row@, matrix@.expand));
            out
        },
        Some(ExpandConfig::MultipleColumns { variants }) => {
            let ghost vs = variants_view(variants@);
            let mut out: Vec<(Value, Option<TransformMap>)> = Vec::new();
            let mut i: usize = 0;
            assert(pairs_view(out@) =~= variants_pairs(row@, fields, vs, 0));
            while i < variants.len()
                invariant
                    i <= variants.len(),
                    vs == variants_view(variants@),
                    fields == entries_view(row_obj@),
                    pairs_view(out@) == variants_pairs(row@, fields, vs, i as int),
                decreases variants.len() - i,
            {
                let variant = &variants[i];
                assert(vs[i as int] == variant@);
                let emits = match &variant.condition_column {
                    Some(cond_col) => {
                        let cond_value: &str = match get_entry(row_obj, cond_col.as_str()) {
                            Some(v) => match v.as_str() {
                                Some(s) => s,
                                None => "",
                            },
                            None => "",
                        };
                        proof {
                            reveal_strlit("");
                            assert(""@ =~= Seq::<char>::empty());
                        }
                        !is_blank_str(cond_value)
                    },
                    None => true,
                };
                if emits {
                    let ghost before = pairs_view(out@);
                    let copy = row.clone();
                    let rules = variant.overrides.clone();
                    out.push((copy, Some(rules)));
                    assert(pairs_view(out@) =~= before.push((row@, Some(variant@.overrides))));
                }
                i += 1;
            }
            if out.len() == 0 {
                single_pair(row)
            } else {
                out
            }
        },
    }
}

/// The row alone, with no overriding rules.
pub fn single_pair(row: &Value) -> (r: Vec<(Value, Option<TransformMap>)>)
    ensures
        pairs_view(r@) == seq![(row@, None::<Rules>)],
{
    let mut out: Vec<(Value, Option<TransformMap>)> = Vec::new();
    out.push((row.clone(), None));
    assert(pairs_view(out@) =~= seq![(row@, None::<Rules>)]);
    out
}

/// Execute a transformation matrix on a batch of rows.
pub fn execute(csv_data: &Vec<Value>, matrix: &TransformationMatrix) -> (r: TransformResult)
    ensures
        r.outcome() == executed(values_view(csv_data@), matrix@),
        r.errors@.len() == 0,
{
    let ghost rows = values_view(csv_data@);
    let mut result = TransformResult::new();
    let mut row_idx: usize = 0;
    assert(result.outcome().records =~= Seq::empty());
    assert(result.outcome().skipped =~= Seq::empty());
    while row_idx < csv_data.len()
        invariant
            row_idx <= csv_data.len(),
            rows == values_view(csv_data@),
            result.errors@.len() == 0,
            result.outcome() == rows_outcome(rows, matrix@, row_idx as int),
        decreases csv_data.len() - row_idx,
    {
        let row = &csv_data[row_idx];
        assert(rows[row_idx as int] == row@);
        let expanded_rows = expand_row(row, matrix, row_idx);
        let ghost pairs = pairs_view(expanded_rows@);
        let ghost start = result.outcome();
        let mut k: usize = 0;
        while k < expanded_rows.len()
            invariant
                k <= expanded_rows.len(),
                pairs == pairs_view(expanded_rows@),
                result.errors@.len() == 0,
                result.outcome() == pairs_outcome(
                    start,
                    pairs,
                    matrix@.transforms,
                    row_idx as nat,
                    k as int,
                ),
            decreases expanded_rows.len() - k,
        {
            let pair = &expanded_rows[k];
            assert(pairs[k as int] == (pair.0@, owned_rules(pair.1)));
            let ghost before = result.outcome();
            match transform_row_with_overrides(&pair.0, matrix, row_idx, pair.1.as_ref()) {
                Ok(Some(record)) => {
                    result.records.push(record);
                    assert(result.outcome().records =~= before.records.push(record@));
                    assert(result.outcome().skipped =~= before.skipped);
                },
                Ok(None) => {},
                Err(skip) => {
                    result.skipped.push(skip);
                    assert(result.outcome().skipped =~= before.skipped.push(skip@));
                    assert(result.outcome().records =~= before.records);
                },
            }
            k += 1;
        }
        row_idx += 1;
    }
    result
}

/// One row of cells as an object of text values.
pub fn row_object(cells: &Vec<(String, String)>) -> (r: Value)
    ensures
        r@ is Object,
        r@ == Json::Object(cells_entries(cells@, cells@.len() as int)),
{
    let mut fields: Vec<Entry> = Vec::new();
    let mut i: usize = 0;
    assert(entries_view(fields@) =~= cells_entries(cells@, 0));
    while i < cells.len()
        invariant
            i <= cells.len(),
            entries_view(fields@) == cells_entries(cells@, i as int),
        decreases cells.len() - i,
    {
        set_entry(&mut fields, cells[i].0.clone(), Value::String(cells[i].1.clone()));
        i += 1;
    }
    proof {
        lemma_view_object(fields);
    }
    Value::Object(fields)
}

/// The entries that the first `n` cells of a row give, a later cell under a
/// column taking the place of an earlier one.
pub open spec fn cells_entries(cells: Seq<(String, String)>, n: int) -> Entries
    decreases n,
{
    if n <= 0 || n > cells.len() {
        Seq::empty()
    } else {
        with_entry(cells_entries(cells, n - 1), cells[n - 1].0@, Json::String(cells[n - 1].1@))
    }
}

/// The rows of cells as objects of text values.
pub open spec fn cell_rows(data: Seq<Vec<(String, String)>>) -> Seq<Json> {
    Seq::new(data.len(), |i: int| Json::Object(cells_entries(data[i]@, data[i]@.len() as int)))
}

/// Execute a matrix on rows given as lists of column name and text.
pub fn execute_hashmap(csv_data: &Vec<Vec<(String, String)>>, matrix: &TransformationMatrix) -> (r:
    TransformResult)
    ensures
        r.outcome() == executed(cell_rows(csv_data@), matrix@),
        r.errors@.len() == 0,
{
    let mut json_data: Vec<Value> = Vec::new();
    let mut i: usize = 0;
    while i < csv_data.len()
        invariant
            i <= csv_data.len(),
            json_data@.len() == i,
            forall|j: int| 0 <= j < i ==> json_data@[j]@ == cell_rows(csv_data@)[j],
        decreases csv_data.len() - i,
    {
        json_data.push(row_object(&csv_data[i]));
        i += 1;
    }
    assert(values_view(json_data@) =~= cell_rows(csv_data@));
    execute(&json_data, matrix)
}

} // verus!
