//! The transformation matrix: one rule per target field, and how a row fans
//! out into several records.

use vstd::prelude::*;
use crate::assoc::{
    lookup, index_of_key, with_entry, distinct_keys, keys_of, lemma_index_of_key, lemma_with_entry,
    lemma_lookup_at,
};
use crate::text::{
    str_eq, str_views, clone_strings, contains_str, strictly_sorted, text_less, str_less,
    lemma_text_order, push_all,
};
use crate::value::{Value, Json};
use super::mapping::{Mapping, Table};
use super::operations::{Operation, Op, option_text};

verus! {

/// The rule for one target field. The value comes from one source column, or
/// from several joined by a separator, or from a constant, in this order of
/// precedence; then the operations run in order.
#[derive(Debug, PartialEq)]
pub struct FieldTransform {
    /// Source column name.
    pub source: Option<String>,
    /// Several source columns to join.
    pub sources: Option<Vec<String>>,
    /// What stands between the joined columns.
    pub concat_separator: String,
    /// A constant value.
    pub constant: Option<Value>,
    /// The operations, applied in order.
    pub operations: Vec<Operation>,
    /// The value used where the source or the result is empty.
    pub default: Option<Value>,
    /// Whether a record cannot do without this field.
    pub required: bool,
}

/// The content of a [`FieldTransform`].
pub struct FieldRule {
    pub source: Option<Seq<char>>,
    pub sources: Option<Seq<Seq<char>>>,
    pub concat_separator: Seq<char>,
    pub constant: Option<Json>,
    pub operations: Seq<Op>,
    pub default: Option<Json>,
    pub required: bool,
}

/// The rules of a set of target fields, by field name, in insertion order.
pub type Rules = Seq<(Seq<char>, FieldRule)>;

/// The content of a value, if there is one.
pub open spec fn option_json(o: Option<Value>) -> Option<Json> {
    match o {
        Some(v) => Some(v@),
        None => None,
    }
}

/// The content of a list of texts, if there is one.
pub open spec fn option_texts(o: Option<Vec<String>>) -> Option<Seq<Seq<char>>> {
    match o {
        Some(v) => Some(str_views(v@)),
        None => None,
    }
}

/// The operations by content.
pub open spec fn ops_view(ops: Seq<Operation>) -> Seq<Op> {
    Seq::new(ops.len(), |i: int| ops[i]@)
}

impl View for FieldTransform {
    type V = FieldRule;

    open spec fn view(&self) -> FieldRule {
        FieldRule {
            source: option_text(self.source),
            sources: option_texts(self.sources),
            concat_separator: self.concat_separator@,
            constant: option_json(self.constant),
            operations: ops_view(self.operations@),
            default: option_json(self.default),
            required: self.required,
        }
    }
}

/// The separator between joined columns where a rule names none: one space.
pub open spec fn default_separator() -> Seq<char> {
    seq![' ']
}

/// A rule with nothing in it but the default separator.
pub open spec fn blank_rule() -> FieldRule {
    FieldRule {
        source: None,
        sources: None,
        concat_separator: default_separator(),
        constant: None,
        operations: Seq::empty(),
        default: None,
        required: false,
    }
}

/// The source columns that a rule names: the single one, then the joined ones.
pub open spec fn rule_sources(rule: FieldRule) -> Seq<Seq<char>> {
    (match rule.source {
        Some(s) => seq![s],
        None => Seq::empty(),
    }) + (match rule.sources {
        Some(ss) => ss,
        None => Seq::empty(),
    })
}

/// The separator between joined columns where a rule names none.
pub fn default_concat_separator() -> (r: String)
    ensures
        r@ == default_separator(),
{
    let r = " ".to_string();
    proof {
        reveal_strlit(" ");
        assert(r@ =~= seq![' ']);
    }
    r
}

/// A copy of a list of operations.
pub fn clone_operations(ops: &Vec<Operation>) -> (r: Vec<Operation>)
    ensures
        ops_view(r@) == ops_view(ops@),
{
    let mut out: Vec<Operation> = Vec::new();
    let mut i: usize = 0;
    while i < ops.len()
        invariant
            i <= ops.len(),
            out@.len() == i,
            forall|j: int| 0 <= j < i ==> out@[j]@ == ops@[j]@,
        decreases ops.len() - i,
    {
        out.push(ops[i].clone());
        i += 1;
    }
    assert(ops_view(out@) =~= ops_view(ops@));
    out
}

/// A copy of an optional value.
pub fn clone_option_value(o: &Option<Value>) -> (r: Option<Value>)
    ensures
        option_json(r) == option_json(*o),
{
    match o {
        Some(v) => Some(v.clone()),
        None => None,
    }
}

impl FieldTransform {
    /// A rule that reads one source column.
    pub fn from_source(source: &str) -> (r: Self)
        ensures
            r@ == (FieldRule { source: Some(source@), ..blank_rule() }),
    {
        let r = FieldTransform {
            source: Some(source.to_string()),
            sources: None,
            concat_separator: default_concat_separator(),
            constant: None,
            operations: Vec::new(),
            default: None,
            required: false,
        };
        assert(r@.operations =~= Seq::empty());
        r
    }

    /// A rule that joins several source columns.
    pub fn from_sources(sources: Vec<String>, separator: &str) -> (r: Self)
        ensures
            r@ == (FieldRule {
                sources: Some(str_views(sources@)),
                concat_separator: separator@,
                ..blank_rule()
            }),
    {
        let r = FieldTransform {
            source: None,
            sources: Some(sources),
            concat_separator: separator.to_string(),
            constant: None,
            operations: Vec::new(),
            default: None,
            required: false,
        };
        assert(r@.operations =~= Seq::empty());
        r
    }

    /// A rule that yields a constant.
    pub fn from_constant(value: Value) -> (r: Self)
        ensures
            r@ == (FieldRule { constant: Some(value@), ..blank_rule() }),
    {
        let r = FieldTransform {
            source: None,
            sources: None,
            concat_separator: default_concat_separator(),
            constant: Some(value),
            operations: Vec::new(),
            default: None,
            required: false,
        };
        assert(r@.operations =~= Seq::empty());
        r
    }

    /// The rule with one more operation at the end of its chain.
    pub fn with_operation(self, op: Operation) -> (r: Self)
        ensures
            r@ == (FieldRule { operations: self@.operations.push(op@), ..self@ }),
    {
        let mut r = self;
        r.operations.push(op);
        assert(r@.operations =~= self@.operations.push(op@));
        r
    }

    /// The rule with a default value.
    pub fn with_default(self, default: Value) -> (r: Self)
        ensures
            r@ == (FieldRule { default: Some(default@), ..self@ }),
    {
        let mut r = self;
        r.default = Some(default);
        r
    }

    /// The rule, marked as required.
    pub fn required(self) -> (r: Self)
        ensures
            r@ == (FieldRule { required: true, ..self@ }),
    {
        let mut r = self;
        r.required = true;
        r
    }

    /// The source columns that this rule names.
    pub fn get_sources(&self) -> (r: Vec<String>)
        ensures
            str_views(r@) == rule_sources(self@),
    {
        let mut result: Vec<String> = Vec::new();
        match &self.source {
            Some(s) => {
                result.push(s.clone());
            },
            None => {},
        }
        assert(str_views(result@) =~= match self@.source {
            Some(s) => seq![s],
            None => Seq::empty(),
        });
        match &self.sources {
            Some(ss) => {
                push_all(&mut result, ss);
            },
            None => {
                assert(str_views(result@) + Seq::<Seq<char>>::empty() =~= str_views(result@));
            },
        }
        result
    }
}

impl Clone for FieldTransform {
    fn clone(&self) -> (r: Self)
        ensures
            r@ == self@,
    {
        FieldTransform {
            source: match &self.source {
                Some(s) => Some(s.clone()),
                None => None,
            },
            sources: match &self.sources {
                Some(ss) => Some(clone_strings(ss)),
                None => None,
            },
            concat_separator: self.concat_separator.clone(),
            constant: clone_option_value(&self.constant),
            operations: clone_operations(&self.operations),
            default: clone_option_value(&self.default),
            required: self.required,
        }
    }
}

/// Rules by target field. Every field stands once; a second insertion under a
/// field replaces the rule that the first one put there.
#[derive(Debug, PartialEq)]
pub struct TransformMap {
    entries: Vec<(String, FieldTransform)>,
}

impl View for TransformMap {
    type V = Rules;

    closed spec fn view(&self) -> Rules {
        Seq::new(self.entries@.len(), |i: int| (self.entries@[i].0@, self.entries@[i].1@))
    }
}

impl TransformMap {
    /// The target fields are distinct.
    pub open spec fn wf(&self) -> bool {
        distinct_keys(self@)
    }

    /// No rules.
    pub fn new() -> (r: TransformMap)
        ensures
            r@ == Seq::<(Seq<char>, FieldRule)>::empty(),
            r.wf(),
    {
        let r = TransformMap { entries: Vec::new() };
        assert(r@ =~= Seq::<(Seq<char>, FieldRule)>::empty());
        r
    }

    /// The number of rules.
    pub fn len(&self) -> (r: usize)
        ensures
            r == self@.len(),
    {
        self.entries.len()
    }

    /// Whether there is no rule.
    pub fn is_empty(&self) -> (r: bool)
        ensures
            r == (self@.len() == 0),
    {
        self.entries.len() == 0
    }

    /// The target field of the rule at `i`.
    pub fn key_at(&self, i: usize) -> (r: &String)
        requires
            i < self@.len(),
        ensures
            r@ == self@[i as int].0,
    {
        &self.entries[i].0
    }

    /// The rule at `i`.
    pub fn value_at(&self, i: usize) -> (r: &FieldTransform)
        requires
            i < self@.len(),
        ensures
            r@ == self@[i as int].1,
    {
        &self.entries[i].1
    }

    /// Position of the rule for `key`, or the number of rules.
    pub fn position(&self, key: &str) -> (r: usize)
        ensures
            r == index_of_key(self@, key@),
            r <= self@.len(),
            r < self@.len() ==> lookup(self@, key@) == Some(self@[r as int].1),
            r == self@.len() ==> lookup(self@, key@).is_none(),
    {
        let ghost t = self@;
        proof {
            lemma_index_of_key(t, key@);
        }
        let mut i: usize = 0;
        while i < self.entries.len()
            invariant
                i <= self.entries.len(),
                self@ == t,
                t.len() == self.entries.len(),
                forall|j: int| 0 <= j < i ==> (#[trigger] t[j]).0 != key@,
            decreases self.entries.len() - i,
        {
            assert(t[i as int].0 == self.entries@[i as int].0@);
            if str_eq(self.entries[i].0.as_str(), key) {
                proof {
                    lemma_lookup_at(t, key@, i as int);
                }
                return i;
            }
            i += 1;
        }
        proof {
            let k = index_of_key(t, key@);
            if k < t.len() {
                assert(t[k].0 == key@);
            }
        }
        i
    }

    /// Puts `rule` under `key`, over the rule that stood there or at the end.
    /// Returns the rule that stood under the key before.
    pub fn insert(&mut self, key: String, rule: FieldTransform) -> (r: Option<FieldTransform>)
        ensures
            final(self)@ == with_entry(old(self)@, key@, rule@),
            old(self).wf() ==> final(self).wf(),
            match r {
                Some(previous) => lookup(old(self)@, key@) == Some(previous@),
                None => lookup(old(self)@, key@).is_none(),
            },
    {
        let ghost before = self@;
        proof {
            lemma_with_entry(before, key@, rule@);
        }
        let i = self.position(key.as_str());
        if i < self.entries.len() {
            let mut pair = (key, rule);
            assert(before[i as int].1 == self.entries@[i as int].1@);
            std::mem::swap(&mut self.entries[i], &mut pair);
            assert(self@ =~= before.update(i as int, (key@, rule@)));
            Some(pair.1)
        } else {
            self.entries.push((key, rule));
            assert(self@ =~= before.push((key@, rule@)));
            None
        }
    }

    /// The rule for `key`.
    pub fn get(&self, key: &str) -> (r: Option<&FieldTransform>)
        ensures
            match r {
                Some(v) => lookup(self@, key@) == Some(v@),
                None => lookup(self@, key@).is_none(),
            },
    {
        let i = self.position(key);
        if i < self.entries.len() {
            assert(self@[i as int].1 == self.entries@[i as int].1@);
            Some(&self.entries[i].1)
        } else {
            None
        }
    }

    /// The target fields, in insertion order.
    pub fn keys(&self) -> (r: Vec<String>)
        ensures
            str_views(r@) == keys_of(self@),
    {
        let mut out: Vec<String> = Vec::new();
        let mut i: usize = 0;
        while i < self.entries.len()
            invariant
                i <= self.entries.len(),
                out@.len() == i,
                forall|j: int| 0 <= j < i ==> out@[j]@ == self.entries@[j].0@,
            decreases self.entries.len() - i,
        {
            out.push(self.entries[i].0.clone());
            i += 1;
        }
        assert(str_views(out@) =~= keys_of(self@));
        out
    }
}

impl Clone for TransformMap {
    fn clone(&self) -> (r: Self)
        ensures
            r@ == self@,
    {
        let mut out: Vec<(String, FieldTransform)> = Vec::new();
        let mut i: usize = 0;
        while i < self.entries.len()
            invariant
                i <= self.entries.len(),
                out@.len() == i,
                forall|j: int|
                    0 <= j < i ==> out@[j].0@ == self.entries@[j].0@ && out@[j].1@
                        == self.entries@[j].1@,
            decreases self.entries.len() - i,
        {
            out.push((self.entries[i].0.clone(), self.entries[i].1.clone()));
            i += 1;
        }
        let r = TransformMap { entries: out };
        assert(r@ =~= self@);
        r
    }
}

/// One way for a row to produce a record under expansion by column groups.
#[derive(Debug, PartialEq)]
pub struct ColumnVariant {
    /// The record is produced only where this column is not blank.
    pub condition_column: Option<String>,
    /// Rules that replace the matrix's own for this record.
    pub overrides: TransformMap,
}

/// The content of a [`ColumnVariant`].
pub struct VariantView {
    pub condition_column: Option<Seq<char>>,
    pub overrides: Rules,
}

impl View for ColumnVariant {
    type V = VariantView;

    open spec fn view(&self) -> VariantView {
        VariantView {
            condition_column: option_text(self.condition_column),
            overrides: self.overrides@,
        }
    }
}

impl Clone for ColumnVariant {
    fn clone(&self) -> (r: Self)
        ensures
            r@ == self@,
    {
        ColumnVariant {
            condition_column: match &self.condition_column {
                Some(c) => Some(c.clone()),
                None => None,
            },
            overrides: self.overrides.clone(),
        }
    }
}

/// The variants by content.
pub open spec fn variants_view(vs: Seq<ColumnVariant>) -> Seq<VariantView> {
    Seq::new(vs.len(), |i: int| vs[i]@)
}

/// How one row fans out into several records.
#[derive(Debug, PartialEq)]
pub enum ExpandConfig {
    /// One column holds several roles joined by a separator.
    SplitRole { source: String, separator: String, mapping: Mapping },
    /// Several groups of columns each give a record.
    MultipleColumns { variants: Vec<ColumnVariant> },
}

/// The content of an [`ExpandConfig`].
pub enum Expansion {
    SplitRole { source: Seq<char>, separator: Seq<char>, mapping: Table },
    MultipleColumns { variants: Seq<VariantView> },
}

impl View for ExpandConfig {
    type V = Expansion;

    open spec fn view(&self) -> Expansion {
        match self {
            ExpandConfig::SplitRole { source, separator, mapping } => Expansion::SplitRole {
                source: source@,
                separator: separator@,
                mapping: mapping@,
            },
            ExpandConfig::MultipleColumns { variants } => Expansion::MultipleColumns {
                variants: variants_view(variants@),
            },
        }
    }
}

impl Clone for ExpandConfig {
    fn clone(&self) -> (r: Self)
        ensures
            r@ == self@,
    {
        match self {
            ExpandConfig::SplitRole { source, separator, mapping } => ExpandConfig::SplitRole {
                source: source.clone(),
                separator: separator.clone(),
                mapping: mapping.clone(),
            },
            ExpandConfig::MultipleColumns { variants } => {
                let mut out: Vec<ColumnVariant> = Vec::new();
                let mut i: usize = 0;
                while i < variants.len()
                    invariant
                        i <= variants.len(),
                        out@.len() == i,
                        forall|j: int| 0 <= j < i ==> out@[j]@ == variants@[j]@,
                    decreases variants.len() - i,
                {
                    out.push(variants[i].clone());
                    i += 1;
                }
                assert(variants_view(out@) =~= variants_view(variants@));
                ExpandConfig::MultipleColumns { variants: out }
            },
        }
    }
}

/// The separator between roles where an expansion names none: a plus sign.
pub fn default_role_separator() -> (r: String)
    ensures
        r@ == seq!['+'],
{
    let r = "+".to_string();
    proof {
        reveal_strlit("+");
        assert(r@ =~= seq!['+']);
    }
    r
}

/// What is known of the file that a matrix was made for.
#[derive(Debug, PartialEq)]
pub struct SourceFormat {
    pub delimiter: Option<char>,
    pub encoding: Option<String>,
    pub header_rows: usize,
}

/// The content of a [`SourceFormat`].
pub struct SourceFormatView {
    pub delimiter: Option<char>,
    pub encoding: Option<Seq<char>>,
    pub header_rows: nat,
}

impl View for SourceFormat {
    type V = SourceFormatView;

    open spec fn view(&self) -> SourceFormatView {
        SourceFormatView {
            delimiter: self.delimiter,
            encoding: option_text(self.encoding),
            header_rows: self.header_rows as nat,
        }
    }
}

impl Clone for SourceFormat {
    fn clone(&self) -> (r: Self)
        ensures
            r@ == self@,
    {
        SourceFormat {
            delimiter: self.delimiter,
            encoding: match &self.encoding {
                Some(e) => Some(e.clone()),
                None => None,
            },
            header_rows: self.header_rows,
        }
    }
}

/// The number of header rows where a source format names none.
pub fn default_header_rows() -> (r: usize)
    ensures
        r == 1,
{
    1
}

/// The version of a matrix that names none.
pub open spec fn default_version_text() -> Seq<char> {
    seq!['1', '.', '0']
}

/// The version of a matrix that names none.
pub fn default_version() -> (r: String)
    ensures
        r@ == default_version_text(),
{
    let r = "1.0".to_string();
    proof {
        reveal_strlit("1.0");
        assert(r@ =~= seq!['1', '.', '0']);
    }
    r
}

/// A complete transformation matrix.
#[derive(Debug, PartialEq)]
pub struct TransformationMatrix {
    /// Version of the matrix format.
    pub version: String,
    /// Human-readable description.
    pub description: String,
    /// Source format metadata.
    pub source_format: Option<SourceFormat>,
    /// The rule of each target field.
    pub transforms: TransformMap,
    /// How one row fans out into several records.
    pub expand: Option<ExpandConfig>,
}

/// The content of a [`TransformationMatrix`].
pub struct MatrixView {
    pub version: Seq<char>,
    pub description: Seq<char>,
    pub source_format: Option<SourceFormatView>,
    pub transforms: Rules,
    pub expand: Option<Expansion>,
}

/// The content of a source format, if there is one.
pub open spec fn option_format(o: Option<SourceFormat>) -> Option<SourceFormatView> {
    match o {
        Some(f) => Some(f@),
        None => None,
    }
}

/// The content of an expansion, if there is one.
pub open spec fn option_expand(o: Option<ExpandConfig>) -> Option<Expansion> {
    match o {
        Some(e) => Some(e@),
        None => None,
    }
}

impl View for TransformationMatrix {
    type V = MatrixView;

    open spec fn view(&self) -> MatrixView {
        MatrixView {
            version: self.version@,
            description: self.description@,
            source_format: option_format(self.source_format),
            transforms: self.transforms@,
            expand: option_expand(self.expand),
        }
    }
}

impl Clone for TransformationMatrix {
    fn clone(&self) -> (r: Self)
        ensures
            r@ == self@,
    {
        TransformationMatrix {
            version: self.version.clone(),
            description: self.description.clone(),
            source_format: match &self.source_format {
                Some(f) => Some(f.clone()),
                None => None,
            },
            transforms: self.transforms.clone(),
            expand: match &self.expand {
                Some(e) => Some(e.clone()),
                None => None,
            },
        }
    }
}

impl Default for TransformationMatrix {
    fn default() -> (r: Self)
        ensures
            r@ == (MatrixView {
                version: default_version_text(),
                description: Seq::empty(),
                source_format: None,
                transforms: Seq::empty(),
                expand: None,
            }),
            r.transforms.wf(),
    {
        TransformationMatrix::new()
    }
}

/// The source columns that the first `n` rules name, in order, with repeats.
pub open spec fn rules_sources(rules: Rules, n: int) -> Seq<Seq<char>>
    decreases n,
{
    if n <= 0 || n > rules.len() {
        Seq::empty()
    } else {
        rules_sources(rules, n - 1) + rule_sources(rules[n - 1].1)
    }
}

/// The columns that one variant names: its condition column, then the sources
/// of its overrides.
pub open spec fn variant_sources(v: VariantView) -> Seq<Seq<char>> {
    (match v.condition_column {
        Some(c) => seq![c],
        None => Seq::empty(),
    }) + rules_sources(v.overrides, v.overrides.len() as int)
}

/// The columns that the first `n` variants name.
pub open spec fn variants_sources(vs: Seq<VariantView>, n: int) -> Seq<Seq<char>>
    decreases n,
{
    if n <= 0 || n > vs.len() {
        Seq::empty()
    } else {
        variants_sources(vs, n - 1) + variant_sources(vs[n - 1])
    }
}

/// The columns that the expansion names.
pub open spec fn expand_sources(e: Option<Expansion>) -> Seq<Seq<char>> {
    match e {
        None => Seq::empty(),
        Some(Expansion::SplitRole { source, separator, mapping }) => seq![source],
        Some(Expansion::MultipleColumns { variants }) => variants_sources(
            variants,
            variants.len() as int,
        ),
    }
}

/// Every column that the matrix names, in order of appearance, with repeats.
pub open spec fn named_columns(m: MatrixView) -> Seq<Seq<char>> {
    rules_sources(m.transforms, m.transforms.len() as int) + expand_sources(m.expand)
}

/// Appends to `out` the source columns of every rule of `rules`.
fn push_rules_sources(out: &mut Vec<String>, rules: &TransformMap)
    ensures
        str_views(final(out)@) == str_views(old(out)@) + rules_sources(
            rules@,
            rules@.len() as int,
        ),
{
    let ghost head = str_views(out@);
    let mut i: usize = 0;
    assert(str_views(out@) =~= head + rules_sources(rules@, 0));
    while i < rules.len()
        invariant
            i <= rules@.len(),
            str_views(out@) == head + rules_sources(rules@, i as int),
        decreases rules@.len() - i,
    {
        let cols = rules.value_at(i).get_sources();
        push_all(out, &cols);
        i += 1;
        assert(str_views(out@) =~= head + rules_sources(rules@, i as int));
    }
}

/// Puts `s` at its place in a strictly sorted list, unless the list holds it.
pub fn insert_sorted(out: &mut Vec<String>, s: String)
    requires
        strictly_sorted(str_views(old(out)@)),
    ensures
        strictly_sorted(str_views(final(out)@)),
        forall|c: Seq<char>|
            str_views(final(out)@).contains(c) <==> (str_views(old(out)@).contains(c) || c == s@),
{
    let ghost before = str_views(out@);
    let mut i: usize = 0;
    while i < out.len() && str_less(out[i].as_str(), s.as_str())
        invariant
            i <= out.len(),
            before == str_views(out@),
            forall|j: int| 0 <= j < i ==> text_less(#[trigger] before[j], s@),
        decreases out.len() - i,
    {
        assert(before[i as int] == out@[i as int]@);
        i += 1;
    }
    if i < out.len() {
        assert(before[i as int] == out@[i as int]@);
    }
    if i < out.len() && str_eq(out[i].as_str(), s.as_str()) {
        assert forall|c: Seq<char>| before.contains(c) || c == s@ implies before.contains(c) by {
            if c == s@ {
                assert(before[i as int] == c);
            }
        }
        return ;
    }
    out.insert(i, s);
    let ghost after = str_views(out@);
    assert(after =~= before.insert(i as int, s@));
    proof {
        assert forall|a: int, b: int| 0 <= a < b < after.len() implies text_less(
            #[trigger] after[a],
            #[trigger] after[b],
        ) by {
            if b < i {
                assert(after[a] == before[a] && after[b] == before[b]);
            } else if b == i {
                assert(after[a] == before[a]);
            } else {
                assert(after[b] == before[b - 1]);
                lemma_text_order(before[i as int], s@, before[b - 1]);
                lemma_text_order(s@, before[i as int], before[b - 1]);
                if a < i {
                    assert(after[a] == before[a]);
                    lemma_text_order(before[a], s@, before[b - 1]);
                } else if a == i {
                } else {
                    assert(after[a] == before[a - 1]);
                }
            }
        }
        assert forall|c: Seq<char>| after.contains(c) <==> (before.contains(c) || c == s@) by {
            if after.contains(c) {
                let k = choose|k: int| 0 <= k < after.len() && after[k] == c;
                if k < i {
                    assert(before[k] == c);
                } else if k > i {
                    assert(before[k - 1] == c);
                }
            }
            if before.contains(c) {
                let k = choose|k: int| 0 <= k < before.len() && before[k] == c;
                if k < i {
                    assert(after[k] == c);
                } else {
                    assert(after[k + 1] == c);
                }
            }
            if c == s@ {
                assert(after[i as int] == c);
            }
        }
    }
}

/// The strings of a strictly sorted list that `present` lacks, in order.
pub fn lacking(columns: &Vec<String>, present: &Vec<String>) -> (r: Vec<String>)
    requires
        strictly_sorted(str_views(columns@)),
    ensures
        strictly_sorted(str_views(r@)),
        forall|c: Seq<char>|
            str_views(r@).contains(c) <==> (str_views(columns@).contains(c) && !str_views(
                present@,
            ).contains(c)),
{
    let ghost cols = str_views(columns@);
    let ghost have = str_views(present@);
    let mut out: Vec<String> = Vec::new();
    let ghost mut idx: Seq<int> = Seq::empty();
    let mut i: usize = 0;
    while i < columns.len()
        invariant
            i <= columns.len(),
            cols == str_views(columns@),
            have == str_views(present@),
            strictly_sorted(cols),
            idx.len() == out@.len(),
            forall|k: int|
                0 <= k < idx.len() ==> 0 <= #[trigger] idx[k] < i && out@[k]@ == cols[idx[k]]
                    && !have.contains(cols[idx[k]]),
            forall|a: int, b: int| 0 <= a < b < idx.len() ==> #[trigger] idx[a] < #[trigger] idx[b],
            forall|j: int|
                0 <= j < i && !have.contains(#[trigger] cols[j]) ==> str_views(out@).contains(
                    cols[j],
                ),
        decreases columns.len() - i,
    {
        assert(cols[i as int] == columns@[i as int]@);
        if !contains_str(present, columns[i].as_str()) {
            let ghost old_out = str_views(out@);
            out.push(columns[i].clone());
            proof {
                idx = idx.push(i as int);
                let new_out = str_views(out@);
                assert forall|j: int| 0 <= j < i + 1 && !have.contains(
                    #[trigger] cols[j],
                ) implies new_out.contains(cols[j]) by {
                    if j < i {
                        let k = choose|k: int| 0 <= k < old_out.len() && old_out[k] == cols[j];
                        assert(new_out[k] == cols[j]);
                    } else {
                        assert(new_out[out@.len() - 1] == cols[j]);
                    }
                }
            }
        }
        i += 1;
    }
    proof {
        let res = str_views(out@);
        assert forall|a: int, b: int| 0 <= a < b < res.len() implies text_less(
            #[trigger] res[a],
            #[trigger] res[b],
        ) by {
            assert(idx[a] < idx[b]);
            assert(res[a] == cols[idx[a]]);
            assert(res[b] == cols[idx[b]]);
        }
        assert forall|c: Seq<char>| res.contains(c) <==> (cols.contains(c) && !have.contains(
            c,
        )) by {
            if res.contains(c) {
                let k = choose|k: int| 0 <= k < res.len() && res[k] == c;
                assert(res[k] == cols[idx[k]]);
            }
            if cols.contains(c) && !have.contains(c) {
                let j = choose|j: int| 0 <= j < cols.len() && cols[j] == c;
                assert(res.contains(cols[j]));
            }
        }
    }
    out
}

/// The strings of `all`, each once, in the order of the dictionary.
pub fn sorted_unique(all: &Vec<String>) -> (r: Vec<String>)
    ensures
        strictly_sorted(str_views(r@)),
        forall|c: Seq<char>| str_views(r@).contains(c) <==> str_views(all@).contains(c),
{
    let mut out: Vec<String> = Vec::new();
    let mut i: usize = 0;
    while i < all.len()
        invariant
            i <= all.len(),
            strictly_sorted(str_views(out@)),
            forall|c: Seq<char>|
                str_views(out@).contains(c) <==> str_views(all@).subrange(0, i as int).contains(c),
        decreases all.len() - i,
    {
        let ghost before = str_views(out@);
        insert_sorted(&mut out, all[i].clone());
        proof {
            let seen = str_views(all@).subrange(0, i as int);
            let next = str_views(all@).subrange(0, i + 1);
            assert(next =~= seen.push(all@[i as int]@));
            assert forall|c: Seq<char>| str_views(out@).contains(c) <==> next.contains(c) by {
                if next.contains(c) {
                    let k = choose|k: int| 0 <= k < next.len() && next[k] == c;
                    if k < i {
                        assert(seen[k] == c);
                    }
                }
                if seen.contains(c) {
                    let k = choose|k: int| 0 <= k < seen.len() && seen[k] == c;
                    assert(next[k] == c);
                }
                if c == all@[i as int]@ {
                    assert(next[i as int] == c);
                }
            }
        }
        i += 1;
    }
    assert(str_views(all@).subrange(0, all.len() as int) =~= str_views(all@));
    out
}

impl TransformationMatrix {
    /// An empty matrix.
    pub fn new() -> (r: Self)
        ensures
            r@ == (MatrixView {
                version: default_version_text(),
                description: Seq::empty(),
                source_format: None,
                transforms: Seq::empty(),
                expand: None,
            }),
            r.transforms.wf(),
    {
        TransformationMatrix {
            version: default_version(),
            description: String::new(),
            source_format: None,
            transforms: TransformMap::new(),
            expand: None,
        }
    }

    /// Every column that the matrix names, in order of appearance, with repeats.
    pub fn all_named_columns(&self) -> (r: Vec<String>)
        ensures
            str_views(r@) == named_columns(self@),
    {
        let mut columns: Vec<String> = Vec::new();
        assert(str_views(columns@) =~= Seq::<Seq<char>>::empty());
        push_rules_sources(&mut columns, &self.transforms);
        let ghost head = str_views(columns@);
        assert(head =~= rules_sources(self@.transforms, self@.transforms.len() as int));
        match &self.expand {
            None => {
                assert(head + Seq::<Seq<char>>::empty() =~= head);
            },
            Some(ExpandConfig::SplitRole { source, separator, mapping }) => {
                columns.push(source.clone());
                assert(str_views(columns@) =~= head + seq![source@]);
            },
            Some(ExpandConfig::MultipleColumns { variants }) => {
                let ghost vs = variants_view(variants@);
                let mut i: usize = 0;
                assert(str_views(columns@) =~= head + variants_sources(vs, 0));
                while i < variants.len()
                    invariant
                        i <= variants.len(),
                        vs == variants_view(variants@),
                        str_views(columns@) == head + variants_sources(vs, i as int),
                    decreases variants.len() - i,
                {
                    let variant = &variants[i];
                    assert(vs[i as int] == variant@);
                    let ghost before = str_views(columns@);
                    match &variant.condition_column {
                        Some(col) => {
                            columns.push(col.clone());
                            assert(str_views(columns@) =~= before + seq![col@]);
                        },
                        None => {
                            assert(str_views(columns@) =~= before + Seq::<Seq<char>>::empty());
                        },
                    }
                    push_rules_sources(&mut columns, &variant.overrides);
                    i += 1;
                    assert(str_views(columns@) =~= head + variants_sources(vs, i as int));
                }
            },
        }
        columns
    }

    /// The source columns that the matrix names, each once, in the order of
    /// the dictionary.
    pub fn source_columns(&self) -> (r: Vec<String>)
        ensures
            strictly_sorted(str_views(r@)),
            forall|c: Seq<char>| str_views(r@).contains(c) <==> named_columns(self@).contains(c),
    {
        let columns = self.all_named_columns();
        sorted_unique(&columns)
    }

    /// The target fields.
    pub fn target_fields(&self) -> (r: Vec<String>)
        ensures
            str_views(r@) == keys_of(self@.transforms),
    {
        self.transforms.keys()
    }

    /// Checks that the headers hold every source column of the matrix. The
    /// error lists the columns that they lack.
    pub fn validate_headers(&self, headers: &Vec<String>) -> (r: Result<(), Vec<String>>)
        ensures
            match r {
                Ok(_) => forall|c: Seq<char>|
                    named_columns(self@).contains(c) ==> str_views(headers@).contains(c),
                Err(missing) => {
                    &&& missing@.len() > 0
                    &&& strictly_sorted(str_views(missing@))
                    &&& forall|c: Seq<char>|
                        str_views(missing@).contains(c) <==> (named_columns(self@).contains(c)
                            && !str_views(headers@).contains(c))
                },
            },
    {
        let columns = self.source_columns();
        let missing = lacking(&columns, headers);
        proof {
            let cols = str_views(columns@);
            let have = str_views(headers@);
            let miss = str_views(missing@);
            if missing@.len() == 0 {
                assert forall|c: Seq<char>| named_columns(self@).contains(c) implies have.contains(
                    c,
                ) by {
                    if !have.contains(c) {
                        assert(cols.contains(c));
                        assert(miss.contains(c));
                    }
                }
            }
        }
        if missing.len() == 0 {
            Ok(())
        } else {
            Err(missing)
        }
    }
}

/// The role table of the example matrix.
pub open spec fn example_roles() -> Table {
    with_entry(
        with_entry(
            with_entry(Seq::<(Seq<char>, Seq<char>)>::empty(), "CA"@, "Composer"@),
            "A"@,
            "Author"@,
        ),
        "AR"@,
        "Arranger"@,
    )
}

/// The rule of the example matrix for the work code.
pub open spec fn example_iswc() -> FieldRule {
    FieldRule {
        source: Some("Code ISWC"@),
        operations: seq![
            Op::Trim,
            Op::Replace { pattern: "[-. ]"@, value: ""@ },
            Op::EnsurePrefix { value: "T"@ },
        ],
        required: true,
        ..blank_rule()
    }
}

/// The rule of the example matrix for the title.
pub open spec fn example_title() -> FieldRule {
    FieldRule { source: Some("Titre"@), operations: seq![Op::Trim], required: true, ..blank_rule() }
}

/// The rule of the example matrix for the role.
pub open spec fn example_role() -> FieldRule {
    FieldRule {
        source: Some("Role"@),
        operations: seq![
            Op::Trim,
            Op::Uppercase,
            Op::Lookup {
                mapping: example_roles(),
                case_insensitive: true,
                default_unmapped: None,
            },
        ],
        default: Some(Json::String("Composer"@)),
        required: true,
        ..blank_rule()
    }
}

/// The rule of the example matrix for the IPI.
pub open spec fn example_ipi() -> FieldRule {
    FieldRule {
        source: Some("IPI"@),
        operations: seq![Op::DigitsOnly, Op::ToNumber],
        required: true,
        ..blank_rule()
    }
}

/// The rule of the example matrix for the instrumental flag.
pub open spec fn example_instrumental() -> FieldRule {
    FieldRule {
        source: Some("Instrumental"@),
        operations: seq![
            Op::ToBoolean { true_values: seq!["oui"@, "yes"@, "1"@, "true"@, "x"@] },
        ],
        default: Some(Json::Bool(false)),
        ..blank_rule()
    }
}

/// The example matrix, by content.
pub open spec fn example_view() -> MatrixView {
    MatrixView {
        version: "1.0"@,
        description: "Example transformation matrix for MIDDS Musical Work"@,
        source_format: Some(
            SourceFormatView { delimiter: Some(';'), encoding: Some("utf-8"@), header_rows: 1 },
        ),
        transforms: with_entry(
            with_entry(
                with_entry(
                    with_entry(
                        with_entry(
                            Seq::<(Seq<char>, FieldRule)>::empty(),
                            "iswc"@,
                            example_iswc(),
                        ),
                        "title"@,
                        example_title(),
                    ),
                    "creatorRole"@,
                    example_role(),
                ),
                "creatorIpi"@,
                example_ipi(),
            ),
            "instrumental"@,
            example_instrumental(),
        ),
        expand: None,
    }
}

/// An example matrix: a work code, a title, a role, an IPI and an
/// instrumental flag out of a French catalogue.
pub fn example_matrix() -> (r: TransformationMatrix)
    ensures
        r@ == example_view(),
        r.transforms.wf(),
{
    let mut transforms = TransformMap::new();
    let iswc = FieldTransform::from_source("Code ISWC").with_operation(
        Operation::Trim,
    ).with_operation(
        Operation::Replace { pattern: "[-. ]".to_string(), value: "".to_string() },
    ).with_operation(Operation::EnsurePrefix { value: "T".to_string() }).required();
    assert(iswc@.operations =~= example_iswc().operations);
    transforms.insert("iswc".to_string(), iswc);

    let title = FieldTransform::from_source("Titre").with_operation(Operation::Trim).required();
    assert(title@.operations =~= example_title().operations);
    transforms.insert("title".to_string(), title);

    let mut role_mapping = Mapping::new();
    role_mapping.insert("CA".to_string(), "Composer".to_string());
    role_mapping.insert("A".to_string(), "Author".to_string());
    role_mapping.insert("AR".to_string(), "Arranger".to_string());
    let role = FieldTransform::from_source("Role").with_operation(Operation::Trim).with_operation(
        Operation::Uppercase,
    ).with_operation(
        Operation::Lookup {
            mapping: role_mapping,
            case_insensitive: true,
            default_unmapped: None,
        },
    ).with_default(Value::text("Composer")).required();
    assert(role@.operations =~= example_role().operations);
    transforms.insert("creatorRole".to_string(), role);

    let ipi = FieldTransform::from_source("IPI").with_operation(
        Operation::DigitsOnly,
    ).with_operation(Operation::ToNumber).required();
    assert(ipi@.operations =~= example_ipi().operations);
    transforms.insert("creatorIpi".to_string(), ipi);

    let mut truthy: Vec<String> = Vec::new();
    truthy.push("oui".to_string());
    truthy.push("yes".to_string());
    truthy.push("1".to_string());
    truthy.push("true".to_string());
    truthy.push("x".to_string());
    assert(str_views(truthy@) =~= seq!["oui"@, "yes"@, "1"@, "true"@, "x"@]);
    let instrumental = FieldTransform::from_source("Instrumental").with_operation(
        Operation::ToBoolean { true_values: truthy },
    ).with_default(Value::Bool(false));
    assert(instrumental@.operations =~= example_instrumental().operations);
    transforms.insert("instrumental".to_string(), instrumental);

    TransformationMatrix {
        version: "1.0".to_string(),
        description: "Example transformation matrix for MIDDS Musical Work".to_string(),
        source_format: Some(
            SourceFormat {
                delimiter: Some(';'),
                encoding: Some("utf-8".to_string()),
                header_rows: 1,
            },
        ),
        transforms,
        expand: None,
    }
}

} // verus!
