//! What a front end is told about an upload.

use vstd::prelude::*;
use crate::ident::new_job_id;
use crate::number::{decimal, decimal_nat, digit_char, u64_to_string};
use crate::text::{chars_of, string_of, append_chars, str_views};
use crate::transform::dsl::operations::option_text;
use crate::transform::pipeline::{PipelineResult, errors_view};

use crate::value::{
    Value, Json, Entry, entries_view, values_view, lemma_view_object, lemma_view_array,
};

verus! {

/// The cost of one work, in hundredths of a token.
pub const COST_PER_WORK_CENTS: u64 = 5;

/// What is known of the file.
#[derive(Debug, PartialEq)]
pub struct CsvMetadata {
    pub encoding: String,
    pub delimiter: String,
    pub row_count: usize,
    pub columns: Vec<String>,
}

/// A validation error of one record.
#[derive(Debug, PartialEq)]
pub struct ValidationError {
    pub record_index: usize,
    pub errors: Vec<String>,
}

/// The counts of a validation.
#[derive(Debug, PartialEq)]
pub struct ValidationStats {
    pub valid: usize,
    pub invalid: usize,
    pub errors: Vec<ValidationError>,
}

/// What is known of a transformation.
#[derive(Debug, PartialEq)]
pub struct ResponseMetadata {
    /// Total number of works.
    pub total_works: usize,
    /// Estimated cost.
    pub estimated_cost: String,
    /// The template that was used or stored.
    pub matrix_id: Option<String>,
    /// Whether a template was used or stored.
    pub cached: bool,
    /// What is known of the file.
    pub csv_info: CsvMetadata,
    /// The counts of the validation.
    pub validation: ValidationStats,
}

/// The answer to an upload.
#[derive(Debug, PartialEq)]
pub struct UploadResponse {
    /// Unique job identifier.
    pub job_id: String,
    /// `ready`, or `warning` where some record is invalid.
    pub status: String,
    /// The grouped works.
    pub musical_works: Vec<Value>,
    /// What is known of the transformation.
    pub metadata: ResponseMetadata,
}

/// Two decimal digits.
pub open spec fn two_digits(n: nat) -> Seq<char> {
    seq![digit_char((n / 10) as int), digit_char((n % 10) as int)]
}

/// The estimated cost of so many works: five hundredths of a token each,
/// written with two decimals.
pub open spec fn cost_text(works: nat) -> Seq<char> {
    let cents = works * COST_PER_WORK_CENTS as nat;
    decimal_nat(cents / 100) + seq!['.'] + two_digits(cents % 100) + " AFT"@
}

/// The estimated cost of so many works.
pub fn estimated_cost(works: usize) -> (r: String)
    ensures
        r@ == cost_text(works as nat),
{
    let cents: u128 = (works as u128) * (COST_PER_WORK_CENTS as u128);
    let whole: u64 = (cents / 100) as u64;
    let rest: u8 = (cents % 100) as u8;
    let mut out = chars_of(u64_to_string(whole).as_str());
    out.push('.');
    out.push((48u8 + rest / 10) as char);
    out.push((48u8 + rest % 10) as char);
    append_chars(&mut out, &chars_of(" AFT"));
    assert(out@ =~= cost_text(works as nat));
    string_of(&out)
}

/// The errors by content: the index of a record and its messages.
pub open spec fn stats_errors(errors: Seq<ValidationError>) -> Seq<(nat, Seq<Seq<char>>)> {
    Seq::new(errors.len(), |i: int| (errors[i].record_index as nat, str_views(errors[i].errors@)))
}

/// The status of a result: ready where no record is invalid.
pub open spec fn status_text(invalid: nat) -> Seq<char> {
    if invalid == 0 {
        "ready"@
    } else {
        "warning"@
    }
}

/// The work as the front end takes it. A grouped work is in that form already.
pub fn ensure_midds_format(work: Value) -> (r: Value)
    ensures
        r == work,
{
    work
}

/// The answer is the one for a result, under the given job identifier.
pub open spec fn is_response_for(r: UploadResponse, result: PipelineResult, job_id: Seq<char>)
    -> bool {
    &&& r.job_id@ == job_id
    &&& r.status@ == status_text(result.invalid_count as nat)
    &&& values_view(r.musical_works@) == values_view(result.grouped@)
    &&& r.metadata.total_works == result.grouped@.len()
    &&& r.metadata.estimated_cost@ == cost_text(result.grouped@.len())
    &&& option_text(r.metadata.matrix_id) == option_text(result.template_id)
    &&& r.metadata.cached == result.template_id.is_some()
    &&& r.metadata.csv_info.encoding@ == result.csv_info.encoding@
    &&& r.metadata.csv_info.delimiter@ == seq![result.csv_info.delimiter]
    &&& r.metadata.csv_info.row_count == result.csv_info.row_count
    &&& str_views(r.metadata.csv_info.columns@) == str_views(result.csv_info.headers@)
    &&& r.metadata.validation.valid == result.valid_count
    &&& r.metadata.validation.invalid == result.invalid_count
    &&& stats_errors(r.metadata.validation.errors@) == errors_view(result.validation_errors@)
}

/// The works as the front end takes them.
fn ensure_all(works: Vec<Value>) -> (r: Vec<Value>)
    ensures
        values_view(r@) == values_view(works@),
{
    let mut works = works;
    let ghost all = values_view(works@);
    let mut out: Vec<Value> = Vec::new();
    while works.len() > 0
        invariant
            out@.len() + works@.len() == all.len(),
            forall|j: int| 0 <= j < out@.len() ==> out@[j]@ == all[j],
            forall|j: int| 0 <= j < works@.len() ==> (#[trigger] works@[j])@ == all[out@.len() + j],
        decreases works@.len(),
    {
        let work = works.remove(0);
        out.push(ensure_midds_format(work));
    }
    assert(values_view(out@) =~= all);
    out
}

impl UploadResponse {
    /// The answer for a result, under the given job identifier.
    pub fn from_result(result: PipelineResult, job_id: String) -> (r: Self)
        ensures
            is_response_for(r, result, job_id@),
    {
        let status = if result.invalid_count == 0 {
            "ready".to_string()
        } else {
            "warning".to_string()
        };
        let mut one: Vec<char> = Vec::new();
        one.push(result.csv_info.delimiter);
        assert(one@ =~= seq![result.csv_info.delimiter]);
        let mut errors: Vec<ValidationError> = Vec::new();
        let validation_errors = result.validation_errors;
        let mut i: usize = 0;
        while i < validation_errors.len()
            invariant
                i <= validation_errors.len(),
                errors@.len() == i,
                forall|j: int|
                    0 <= j < i ==> errors@[j].record_index == validation_errors@[j].0
                        && str_views(errors@[j].errors@) == str_views(validation_errors@[j].1@),
            decreases validation_errors.len() - i,
        {
            errors.push(
                ValidationError {
                    record_index: validation_errors[i].0,
                    errors: crate::text::clone_strings(&validation_errors[i].1),
                },
            );
            i += 1;
        }
        assert(stats_errors(errors@) =~= errors_view(validation_errors@));
        let ghost grouped = result.grouped@;
        let musical_works = ensure_all(result.grouped);
        let total = musical_works.len();
        assert(values_view(musical_works@).len() == musical_works@.len());
        assert(values_view(grouped).len() == grouped.len());
        UploadResponse {
            job_id,
            status,
            musical_works,
            metadata: ResponseMetadata {
                total_works: total,
                estimated_cost: estimated_cost(total),
                cached: result.template_id.is_some(),
                matrix_id: result.template_id,
                csv_info: CsvMetadata {
                    encoding: result.csv_info.encoding,
                    delimiter: string_of(&one),
                    row_count: result.csv_info.row_count,
                    columns: result.csv_info.headers,
                },
                validation: ValidationStats {
                    valid: result.valid_count,
                    invalid: result.invalid_count,
                    errors,
                },
            },
        }
    }

    /// The answer for a result, under a new job identifier.
    pub fn from(result: PipelineResult) -> (r: Self)
        ensures
            exists|job_id: Seq<char>| #[trigger] is_response_for(r, result, job_id),
    {
        Self::from_result(result, new_job_id())
    }
}

/// The answer for an error, under the given job identifier.
pub open spec fn error_json(error: Seq<char>, job_id: Seq<char>) -> Json {
    Json::Object(
        seq![
            ("jobId"@, Json::String(job_id)),
            ("status"@, Json::String("error"@)),
            ("error"@, Json::String(error)),
            ("musicalWorks"@, Json::Array(Seq::empty())),
            (
                "metadata"@,
                Json::Object(
                    seq![
                        ("totalWorks"@, Json::Number(0)),
                        ("estimatedCost"@, Json::String("0 AFT"@)),
                        ("matrixId"@, Json::Null),
                        ("cached"@, Json::Bool(false)),
                    ],
                ),
            ),
        ],
    )
}

/// The answer for an error, under the given job identifier.
pub fn error_response_for(error: &str, job_id: String) -> (r: Value)
    ensures
        r@ == error_json(error@, job_id@),
{
    let mut metadata: Vec<Entry> = Vec::new();
    metadata.push(Entry { key: "totalWorks".to_string(), value: Value::Number(0) });
    metadata.push(Entry { key: "estimatedCost".to_string(), value: Value::text("0 AFT") });
    metadata.push(Entry { key: "matrixId".to_string(), value: Value::Null });
    metadata.push(Entry { key: "cached".to_string(), value: Value::Bool(false) });
    let none: Vec<Value> = Vec::new();
    let mut fields: Vec<Entry> = Vec::new();
    fields.push(Entry { key: "jobId".to_string(), value: Value::String(job_id) });
    fields.push(Entry { key: "status".to_string(), value: Value::text("error") });
    fields.push(Entry { key: "error".to_string(), value: Value::text(error) });
    proof {
        lemma_view_array(none);
        assert(values_view(none@) =~= Seq::<Json>::empty());
        lemma_view_object(metadata);
        assert(entries_view(metadata@) =~= error_json(error@, job_id@)->Object_0[4].1->Object_0);
    }
    fields.push(Entry { key: "musicalWorks".to_string(), value: Value::Array(none) });
    fields.push(Entry { key: "metadata".to_string(), value: Value::Object(metadata) });
    proof {
        lemma_view_object(fields);
        assert(entries_view(fields@) =~= error_json(error@, job_id@)->Object_0);
    }
    Value::Object(fields)
}

/// The answer for an error, under a new job identifier.
pub fn error_response(error: &str) -> (r: Value)
    ensures
        exists|job_id: Seq<char>| r@ == #[trigger] error_json(error@, job_id),
{
    let job_id = new_job_id();
    let ghost witness = error_json(error@, job_id@);
    error_response_for(error, job_id)
}

} // verus!
