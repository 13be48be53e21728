//! The pipeline: which matrix a batch is transformed with, and what comes
//! out of it.
//!
//! A matrix named by the caller is used as it is. Otherwise the cached
//! templates that fit the file are tried, best first, until one yields a
//! valid record; every trial is fed back into the template's statistics.
//! Where none serves, a new matrix has to be generated: it is stored, tried
//! once, and its result stands, good or bad.
//!
//! Judging a record is not this library's business: the validator is a
//! function that the caller hands in, and an empty list from it means valid.

use vstd::prelude::*;
use crate::cache::{
    MatrixRegistry, Stored, Ranked, ranked, with_trial, with_stored, fresh, id_text,
    distinct_ids, after_trial, lemma_ranking_places, lemma_find_own_id,
};
use crate::api::logs::{LogEntry, LogLevel};
use crate::clock::{now_millis, now_rfc3339};
use crate::error::{debug_str, debug_string};
use crate::number::{decimal, u64_to_string};
use crate::text::{concat_strs, join, join_strs, str_eq, lemma_str_views_push};
use crate::transform::dsl::executor::{Skip, SkippedRow, TransformError, skips_view};
use crate::transform::dsl::matrix::{Rules, FieldRule};
use crate::parser::ParseResult;
use crate::text::{str_views, clone_strings};
use crate::value::{Value, Json, values_view};
use crate::transform::dsl::executor::{execute, executed, TransformResult};
use crate::transform::dsl::matrix::{TransformationMatrix, MatrixView};
use crate::transform::dsl::operations::option_text;
use crate::transform::grouper::{flat_to_grouped, grouped};

verus! {

/// How many validation errors a tally keeps at most.
pub const MAX_REPORTED: usize = 10;

/// Options for the pipeline.
#[derive(Debug, PartialEq)]
pub struct TransformOptions {
    /// Use this matrix file and nothing else.
    pub matrix_path: Option<String>,
    /// How many rows a generator is shown.
    pub preview_rows: usize,
    /// Skip validation.
    pub skip_validation: bool,
    /// Do not try cached templates.
    pub no_cache: bool,
    /// Do not store a generated matrix.
    pub no_save: bool,
}

impl Default for TransformOptions {
    fn default() -> (r: Self)
        ensures
            r.matrix_path.is_none(),
            r.preview_rows == 10,
            !r.skip_validation,
            !r.no_cache,
            !r.no_save,
    {
        TransformOptions {
            matrix_path: None,
            preview_rows: 10,
            skip_validation: false,
            no_cache: false,
            no_save: false,
        }
    }
}

impl Clone for TransformOptions {
    fn clone(&self) -> (r: Self)
        ensures
            option_text(r.matrix_path) == option_text(self.matrix_path),
            r.preview_rows == self.preview_rows,
            r.skip_validation == self.skip_validation,
            r.no_cache == self.no_cache,
            r.no_save == self.no_save,
    {
        TransformOptions {
            matrix_path: match &self.matrix_path {
                Some(p) => Some(p.clone()),
                None => None,
            },
            preview_rows: self.preview_rows,
            skip_validation: self.skip_validation,
            no_cache: self.no_cache,
            no_save: self.no_save,
        }
    }
}

/// What is known of the parsed file.
#[derive(Debug, PartialEq)]
pub struct CsvInfo {
    pub encoding: String,
    pub delimiter: char,
    pub headers: Vec<String>,
    pub row_count: usize,
}

/// Why the pipeline stopped.
#[derive(Debug, PartialEq)]
pub enum PipelineError {
    /// The file could not be parsed.
    CsvError(String),
    /// The generator failed.
    AiError(String),
    /// The matrix could not be had or used.
    MatrixError(String),
    /// Validation failed as a whole.
    ValidationError(String),
    /// Reading or writing failed.
    IoError(String),
}

impl PipelineError {
    /// The text of the error.
    pub open spec fn text(&self) -> Seq<char> {
        match self {
            PipelineError::CsvError(m) => "CSV parsing error: "@ + m@,
            PipelineError::AiError(m) => "AI error: "@ + m@,
            PipelineError::MatrixError(m) => "Matrix error: "@ + m@,
            PipelineError::ValidationError(m) => "Validation error: "@ + m@,
            PipelineError::IoError(m) => "IO error: "@ + m@,
        }
    }

    /// The error as one line of text.
    pub fn to_string(&self) -> (r: String)
        ensures
            r@ == self.text(),
    {
        match self {
            PipelineError::CsvError(m) => concat_strs("CSV parsing error: ", m.as_str()),
            PipelineError::AiError(m) => concat_strs("AI error: ", m.as_str()),
            PipelineError::MatrixError(m) => concat_strs("Matrix error: ", m.as_str()),
            PipelineError::ValidationError(m) => concat_strs("Validation error: ", m.as_str()),
            PipelineError::IoError(m) => concat_strs("IO error: ", m.as_str()),
        }
    }
}

/// The message for a file without rows.
pub const EMPTY_FILE: &'static str = "CSV file is empty";

/// The name under which a generated matrix is stored where the file has none.
pub const GENERATED_NAME: &'static str = "auto-generated";

/// The counts of a validation, with the first errors.
pub struct Tally {
    pub valid: nat,
    pub invalid: nat,
    pub errors: Seq<(nat, Seq<Seq<char>>)>,
}

/// The verdicts by content: one list of messages per record.
pub open spec fn verdicts_view(verdicts: Seq<Vec<String>>) -> Seq<Seq<Seq<char>>> {
    Seq::new(verdicts.len(), |i: int| str_views(verdicts[i]@))
}

/// The kept errors by content: the index of a record and its messages.
pub open spec fn errors_view(errors: Seq<(usize, Vec<String>)>) -> Seq<(nat, Seq<Seq<char>>)> {
    Seq::new(errors.len(), |i: int| (errors[i].0 as nat, str_views(errors[i].1@)))
}

/// The tally of the first `n` verdicts: a record without messages is valid;
/// of the others, the first ten are kept with their index.
pub open spec fn tally_upto(verdicts: Seq<Seq<Seq<char>>>, n: int) -> Tally
    decreases n,
{
    if n <= 0 || n > verdicts.len() {
        Tally { valid: 0, invalid: 0, errors: Seq::empty() }
    } else {
        let t = tally_upto(verdicts, n - 1);
        if verdicts[n - 1].len() == 0 {
            Tally { valid: t.valid + 1, ..t }
        } else {
            Tally {
                invalid: t.invalid + 1,
                errors: if t.errors.len() < MAX_REPORTED {
                    t.errors.push(((n - 1) as nat, verdicts[n - 1]))
                } else {
                    t.errors
                },
                ..t
            }
        }
    }
}

/// The tally of a list of verdicts.
pub open spec fn tally(verdicts: Seq<Seq<Seq<char>>>) -> Tally {
    tally_upto(verdicts, verdicts.len() as int)
}

/// The tally where nothing was validated: every record counts as valid.
pub open spec fn unchecked(records: nat) -> Tally {
    Tally { valid: records, invalid: 0, errors: Seq::empty() }
}

/// Every record is counted once, and at most ten errors are kept.
pub proof fn lemma_tally_counts(verdicts: Seq<Seq<Seq<char>>>, n: int)
    requires
        0 <= n <= verdicts.len(),
    ensures
        tally_upto(verdicts, n).valid + tally_upto(verdicts, n).invalid == n,
        tally_upto(verdicts, n).errors.len() <= MAX_REPORTED,
        tally_upto(verdicts, n).errors.len() <= tally_upto(verdicts, n).invalid,
        tally_upto(verdicts, n).valid > 0 <==> exists|i: int|
            0 <= i < n && (#[trigger] verdicts[i]).len() == 0,
    decreases n,
{
    if n > 0 {
        lemma_tally_counts(verdicts, n - 1);
        if tally_upto(verdicts, n - 1).valid > 0 {
            let i = choose|i: int| 0 <= i < n - 1 && (#[trigger] verdicts[i]).len() == 0;
            assert(verdicts[i].len() == 0);
        }
        if verdicts[n - 1].len() == 0 {
            assert(tally_upto(verdicts, n).valid > 0);
        }
    }
}

/// The counts of a validation, with the first errors.
#[derive(Debug, PartialEq)]
pub struct ValidationSummary {
    pub valid_count: usize,
    pub invalid_count: usize,
    pub validation_errors: Vec<(usize, Vec<String>)>,
}

impl View for ValidationSummary {
    type V = Tally;

    open spec fn view(&self) -> Tally {
        Tally {
            valid: self.valid_count as nat,
            invalid: self.invalid_count as nat,
            errors: errors_view(self.validation_errors@),
        }
    }
}

/// Counts the verdicts of a validator: one list of messages per record, an
/// empty list for a valid one.
pub fn tally_verdicts(verdicts: &Vec<Vec<String>>) -> (r: ValidationSummary)
    ensures
        r@ == tally(verdicts_view(verdicts@)),
{
    let ghost vs = verdicts_view(verdicts@);
    let mut valid: usize = 0;
    let mut invalid: usize = 0;
    let mut errors: Vec<(usize, Vec<String>)> = Vec::new();
    let mut i: usize = 0;
    assert(errors_view(errors@) =~= Seq::empty());
    while i < verdicts.len()
        invariant
            i <= verdicts.len(),
            vs == verdicts_view(verdicts@),
            valid + invalid == i,
            valid == tally_upto(vs, i as int).valid,
            invalid == tally_upto(vs, i as int).invalid,
            errors_view(errors@) == tally_upto(vs, i as int).errors,
        decreases verdicts.len() - i,
    {
        assert(vs[i as int] == str_views(verdicts@[i as int]@));
        if verdicts[i].len() == 0 {
            valid += 1;
        } else {
            invalid += 1;
            if errors.len() < MAX_REPORTED {
                let ghost before = errors_view(errors@);
                let copy = clone_strings(&verdicts[i]);
                errors.push((i, copy));
                assert(errors_view(errors@) =~= before.push((i as nat, vs[i as int])));
            }
        }
        i += 1;
    }
    ValidationSummary { valid_count: valid, invalid_count: invalid, validation_errors: errors }
}

/// The verdicts are what the validator says of the records, one by one.
pub open spec fn verdicts_of<F: Fn(&Value) -> Vec<String>>(
    validator: &F,
    records: Seq<Value>,
    verdicts: Seq<Vec<String>>,
) -> bool {
    &&& verdicts.len() == records.len()
    &&& forall|i: int|
        0 <= i < records.len() ==> call_ensures(*validator, (&records[i],), #[trigger] verdicts[i])
}

/// The tally is what comes of the validator's verdicts on the records.
pub open spec fn judged_by<F: Fn(&Value) -> Vec<String>>(
    validator: &F,
    records: Seq<Value>,
    t: Tally,
) -> bool {
    exists|verdicts: Seq<Vec<String>>| #[trigger]
        verdicts_of(validator, records, verdicts) && t == tally(verdicts_view(verdicts))
}

/// Asks the validator about every record.
pub fn collect_verdicts<F: Fn(&Value) -> Vec<String>>(records: &Vec<Value>, validator: &F) -> (r:
    Vec<Vec<String>>)
    requires
        forall|v: &Value| call_requires(*validator, (v,)),
    ensures
        verdicts_of(validator, records@, r@),
{
    let mut out: Vec<Vec<String>> = Vec::new();
    let mut i: usize = 0;
    while i < records.len()
        invariant
            i <= records.len(),
            out@.len() == i,
            forall|v: &Value| call_requires(*validator, (v,)),
            forall|j: int|
                0 <= j < i ==> call_ensures(*validator, (&records@[j],), #[trigger] out@[j]),
        decreases records.len() - i,
    {
        let verdict = validator(&records[i]);
        out.push(verdict);
        i += 1;
    }
    out
}

/// Validate records and return the counts: valid, invalid, and the first
/// ten errors with the index of their record.
pub fn validate_records<F: Fn(&Value) -> Vec<String>>(records: &Vec<Value>, validator: &F) -> (r:
    ValidationSummary)
    requires
        forall|v: &Value| call_requires(*validator, (v,)),
    ensures
        judged_by(validator, records@, r@),
        r.valid_count + r.invalid_count == records@.len(),
{
    let verdicts = collect_verdicts(records, validator);
    proof {
        lemma_tally_counts(verdicts_view(verdicts@), verdicts@.len() as int);
    }
    let r = tally_verdicts(&verdicts);
    assert(verdicts_of(validator, records@, verdicts@) && r@ == tally(verdicts_view(verdicts@)));
    r
}

/// One matrix tried on a batch: what it made of the rows, and how the
/// records fared in validation.
#[derive(Debug, PartialEq)]
pub struct Trial {
    pub matrix: TransformationMatrix,
    pub template_id: Option<String>,
    pub transform_result: TransformResult,
    pub valid_count: usize,
    pub invalid_count: usize,
    pub validation_errors: Vec<(usize, Vec<String>)>,
}

impl Trial {
    /// The counts of the trial.
    pub open spec fn tally(&self) -> Tally {
        Tally {
            valid: self.valid_count as nat,
            invalid: self.invalid_count as nat,
            errors: errors_view(self.validation_errors@),
        }
    }

    /// A trial succeeds where at least one record is valid.
    pub open spec fn succeeded(&self) -> bool {
        self.valid_count > 0
    }

    /// The trial is what `matrix` makes of `rows`, under `template_id`, with
    /// the records judged by the validator, or all taken as valid where
    /// validation is skipped.
    pub open spec fn is_trial_of<F: Fn(&Value) -> Vec<String>>(
        &self,
        rows: Seq<Json>,
        matrix: MatrixView,
        template_id: Option<Seq<char>>,
        skip_validation: bool,
        validator: &F,
    ) -> bool {
        &&& self.matrix@ == matrix
        &&& option_text(self.template_id) == template_id
        &&& self.transform_result.outcome() == executed(rows, matrix)
        &&& self.transform_result.errors@.len() == 0
        &&& self.valid_count + self.invalid_count == self.transform_result.records@.len()
        &&& if skip_validation {
            self.tally() == unchecked(self.transform_result.records@.len() as nat)
        } else {
            judged_by(validator, self.transform_result.records@, self.tally())
        }
    }
}

/// Try a matrix on the rows: execute it, then validate what came out.
pub fn try_matrix<F: Fn(&Value) -> Vec<String>>(
    parse_result: &ParseResult,
    matrix: TransformationMatrix,
    template_id: Option<String>,
    options: &TransformOptions,
    validator: &F,
) -> (r: Trial)
    requires
        forall|v: &Value| call_requires(*validator, (v,)),
    ensures
        r.is_trial_of(
            values_view(parse_result.records@),
            matrix@,
            option_text(template_id),
            options.skip_validation,
            validator,
        ),
{
    let transform_result = execute(&parse_result.records, &matrix);
    if options.skip_validation {
        let n = transform_result.records.len();
        let errors: Vec<(usize, Vec<String>)> = Vec::new();
        assert(errors_view(errors@) =~= Seq::empty());
        Trial {
            matrix,
            template_id,
            transform_result,
            valid_count: n,
            invalid_count: 0,
            validation_errors: errors,
        }
    } else {
        let summary = validate_records(&transform_result.records, validator);
        Trial {
            matrix,
            template_id,
            transform_result,
            valid_count: summary.valid_count,
            invalid_count: summary.invalid_count,
            validation_errors: summary.validation_errors,
        }
    }
}

/// The registry after the first `tried` candidates of a ranking were tried
/// at the time `now`: all failed, but the last one where `last_succeeded`.
pub open spec fn after_trials(
    reg: Seq<Stored>,
    order: Seq<Ranked>,
    tried: int,
    last_succeeded: bool,
    now: Seq<char>,
) -> Seq<Stored>
    decreases tried,
{
    if tried <= 0 || tried > order.len() {
        reg
    } else {
        with_trial(
            after_trials(reg, order, tried - 1, false, now),
            reg[order[tried - 1].index].id,
            last_succeeded,
            now,
        )
    }
}

/// No retry within a batch: the trials touch every tried candidate exactly
/// once, and no other template. After the first `tried` candidates of the
/// ranking were tried, the template at `k` is as it was, unless it stands
/// at a place `j` before `tried` in the ranking: then it has exactly the one
/// trial more, a failure unless `j` is the last place tried and that trial
/// succeeded.
pub proof fn lemma_each_candidate_tried_once(
    reg: Seq<Stored>,
    csv: Seq<Seq<char>>,
    tried: int,
    last_succeeded: bool,
    now: Seq<char>,
    k: int,
)
    requires
        distinct_ids(reg),
        0 <= tried <= ranked(reg, csv).len(),
        0 <= k < reg.len(),
    ensures
        ({
            let order = ranked(reg, csv);
            let after = after_trials(reg, order, tried, last_succeeded, now);
            &&& after.len() == reg.len()
            &&& after[k].id == reg[k].id
            &&& forall|j: int|
                0 <= j < tried && (#[trigger] order[j]).index == k ==> after[k] == after_trial(
                    reg[k],
                    j == tried - 1 && last_succeeded,
                    now,
                )
            &&& (forall|j: int| 0 <= j < tried ==> (#[trigger] order[j]).index != k) ==> after[k]
                == reg[k]
        }),
    decreases tried,
{
    let order = ranked(reg, csv);
    lemma_ranking_places(reg, csv, reg.len() as int);
    if tried > 0 {
        let t = order[tried - 1].index;
        let before = after_trials(reg, order, tried - 1, false, now);
        let after = after_trials(reg, order, tried, last_succeeded, now);
        lemma_each_candidate_tried_once(reg, csv, tried - 1, false, now, k);
        lemma_each_candidate_tried_once(reg, csv, tried - 1, false, now, t);
        assert forall|a: int, b: int| 0 <= a < b < before.len() implies (#[trigger] before[a]).id
            != (#[trigger] before[b]).id by {
            lemma_each_candidate_tried_once(reg, csv, tried - 1, false, now, a);
            lemma_each_candidate_tried_once(reg, csv, tried - 1, false, now, b);
            assert(reg[a].id != reg[b].id);
        }
        assert(before[t].id == reg[t].id);
        lemma_find_own_id(before, t);
        assert(after == before.update(t, after_trial(before[t], last_succeeded, now)));
        assert forall|j: int| 0 <= j < tried - 1 implies (#[trigger] order[j]).index != t by {
            assert(order[j].index != order[tried - 1].index);
        }
        assert(before[t] == reg[t]);
        assert forall|j: int| 0 <= j < tried && (#[trigger] order[j]).index == k implies after[k]
            == after_trial(reg[k], j == tried - 1 && last_succeeded, now) by {
            if j == tried - 1 {
                assert(k == t);
            } else {
                assert(order[j].index != order[tried - 1].index);
                assert(k != t);
                assert(after[k] == before[k]);
            }
        }
        if forall|j: int| 0 <= j < tried ==> (#[trigger] order[j]).index != k {
            assert(order[tried - 1].index != k);
            assert(after[k] == before[k]);
        }
    }
}

/// The template failed on the rows: a trial of its matrix on them, under
/// its identifier, yielded no valid record.
pub open spec fn failed_on<F: Fn(&Value) -> Vec<String>>(
    stored: Stored,
    rows: Seq<Json>,
    skip_validation: bool,
    validator: &F,
) -> bool {
    exists|t: Trial| #[trigger]
        t.is_trial_of(rows, stored.matrix, Some(stored.id), skip_validation, validator)
            && !t.succeeded()
}

/// Each of the first `tried` candidates of the ranking failed on the rows.
pub open spec fn all_failed<F: Fn(&Value) -> Vec<String>>(
    reg: Seq<Stored>,
    order: Seq<Ranked>,
    tried: int,
    rows: Seq<Json>,
    skip_validation: bool,
    validator: &F,
) -> bool {
    forall|j: int|
        0 <= j < tried ==> failed_on(
            reg[(#[trigger] order[j]).index],
            rows,
            skip_validation,
            validator,
        )
}

/// What the cached templates gave.
pub enum CachedOutcome {
    /// The template at this place of the ranking served.
    Served { place: usize, trial: Trial },
    /// None served; so many were tried.
    Exhausted { tried: usize },
}

/// Try the cached templates that fit the file, best first, at the time
/// `now`. Every trial is recorded in the registry. The first template that
/// yields a valid record serves: every one before it was tried and failed,
/// and the ones after it are not tried.
pub fn try_cached_at<F: Fn(&Value) -> Vec<String>>(
    parse_result: &ParseResult,
    options: &TransformOptions,
    registry: &mut MatrixRegistry,
    validator: &F,
    now: &str,
) -> (r: CachedOutcome)
    requires
        forall|v: &Value| call_requires(*validator, (v,)),
    ensures
        ({
            let reg = old(registry)@;
            let order = ranked(reg, str_views(parse_result.headers@));
            match r {
                CachedOutcome::Served { place, trial } => {
                    &&& place < order.len()
                    &&& 0 <= order[place as int].index < reg.len()
                    &&& trial.succeeded()
                    &&& trial.is_trial_of(
                        values_view(parse_result.records@),
                        reg[order[place as int].index].matrix,
                        Some(reg[order[place as int].index].id),
                        options.skip_validation,
                        validator,
                    )
                    &&& all_failed(
                        reg,
                        order,
                        place as int,
                        values_view(parse_result.records@),
                        options.skip_validation,
                        validator,
                    )
                    &&& final(registry)@ == after_trials(reg, order, place + 1, true, now@)
                },
                CachedOutcome::Exhausted { tried } => {
                    &&& tried == order.len()
                    &&& all_failed(
                        reg,
                        order,
                        tried as int,
                        values_view(parse_result.records@),
                        options.skip_validation,
                        validator,
                    )
                    &&& final(registry)@ == after_trials(reg, order, tried as int, false, now@)
                },
            }
        }),
{
    let ghost reg = registry@;
    let ghost order = ranked(reg, str_views(parse_result.headers@));
    let mut ids: Vec<String> = Vec::new();
    let mut matrices: Vec<TransformationMatrix> = Vec::new();
    {
        let compatible = registry.find_compatible(&parse_result.headers);
        let mut c: usize = 0;
        while c < compatible.len()
            invariant
                c <= compatible@.len(),
                compatible@.len() == order.len(),
                ids@.len() == c,
                matrices@.len() == c,
                forall|k: int|
                    0 <= k < compatible@.len() ==> 0 <= (#[trigger] order[k]).index < reg.len()
                        && compatible@[k].0@ == reg[order[k].index],
                forall|k: int|
                    0 <= k < c ==> ids@[k]@ == reg[(#[trigger] order[k]).index].id
                        && matrices@[k]@ == reg[order[k].index].matrix,
            decreases compatible@.len() - c,
        {
            assert(compatible@[c as int].0@ == reg[order[c as int].index]);
            let template = compatible[c].0;
            ids.push(template.id.clone());
            matrices.push(template.matrix.clone());
            c += 1;
        }
    }
    let mut i: usize = 0;
    while i < ids.len()
        invariant
            i <= ids@.len(),
            reg == old(registry)@,
            order == ranked(reg, str_views(parse_result.headers@)),
            ids@.len() == order.len(),
            matrices@.len() == order.len(),
            forall|v: &Value| call_requires(*validator, (v,)),
            forall|k: int|
                0 <= k < order.len() ==> 0 <= (#[trigger] order[k]).index < reg.len() && ids@[k]@
                    == reg[order[k].index].id && matrices@[k]@ == reg[order[k].index].matrix,
            registry@ == after_trials(reg, order, i as int, false, now@),
            all_failed(
                reg,
                order,
                i as int,
                values_view(parse_result.records@),
                options.skip_validation,
                validator,
            ),
        decreases ids@.len() - i,
    {
        assert(ids@[i as int]@ == reg[order[i as int].index].id);
        let trial = try_matrix(
            parse_result,
            matrices[i].clone(),
            Some(ids[i].clone()),
            options,
            validator,
        );
        let success = trial.valid_count > 0;
        registry.update_stats_at(ids[i].as_str(), success, now.to_string());
        if success {
            return CachedOutcome::Served { place: i, trial };
        }
        assert(failed_on(
            reg[order[i as int].index],
            values_view(parse_result.records@),
            options.skip_validation,
            validator,
        )) by {
            assert(trial.is_trial_of(
                values_view(parse_result.records@),
                reg[order[i as int].index].matrix,
                Some(reg[order[i as int].index].id),
                options.skip_validation,
                validator,
            ) && !trial.succeeded());
        }
        i += 1;
    }
    CachedOutcome::Exhausted { tried: i }
}

/// What to do next for a batch.
pub enum Plan {
    /// The batch is done: this trial stands.
    Finished(Trial),
    /// Read the matrix from this file and go on with it.
    NeedMatrixFile(String),
    /// Have a matrix generated from this many preview rows and go on with it.
    NeedGeneration { preview_rows: usize },
}

/// The number of rows that a generator is shown: as many as the options ask
/// for, and no more than there are.
pub open spec fn preview_count(wanted: nat, rows: nat) -> nat {
    if wanted < rows {
        wanted
    } else {
        rows
    }
}

/// The plan is the one that the options, the file and the registry call
/// for at the time `now`. A matrix file named in the options is asked for,
/// and the registry stays as it is. Else, unless the options forbid it, the
/// cached templates were tried in the order of their ranking: where one
/// served, the batch is finished with its trial, every candidate before it
/// failed on the rows, and the registry holds the trials up to and including
/// that one. Else a matrix is asked for, from no more preview rows than there
/// are rows; every candidate failed on the rows, and the registry holds the
/// failed trial of each.
pub open spec fn plan_follows<F: Fn(&Value) -> Vec<String>>(
    plan: Plan,
    parse_result: &ParseResult,
    options: &TransformOptions,
    before: Seq<Stored>,
    after: Seq<Stored>,
    validator: &F,
    now: Seq<char>,
) -> bool {
    let order = ranked(before, str_views(parse_result.headers@));
    match plan {
        Plan::NeedMatrixFile(path) => {
            &&& options.matrix_path is Some
            &&& path@ == options.matrix_path->0@
            &&& after == before
        },
        Plan::Finished(trial) => {
            &&& options.matrix_path is None
            &&& !options.no_cache
            &&& trial.succeeded()
            &&& exists|place: int|
                0 <= place < order.len() && 0 <= order[place].index < before.len()
                    && #[trigger] trial.is_trial_of(
                    values_view(parse_result.records@),
                    before[order[place].index].matrix,
                    Some(before[order[place].index].id),
                    options.skip_validation,
                    validator,
                ) && all_failed(
                    before,
                    order,
                    place,
                    values_view(parse_result.records@),
                    options.skip_validation,
                    validator,
                ) && after == after_trials(before, order, place + 1, true, now)
        },
        Plan::NeedGeneration { preview_rows } => {
            &&& options.matrix_path is None
            &&& preview_rows == preview_count(
                options.preview_rows as nat,
                parse_result.records@.len(),
            )
            &&& options.no_cache || all_failed(
                before,
                order,
                order.len() as int,
                values_view(parse_result.records@),
                options.skip_validation,
                validator,
            )
            &&& after == if options.no_cache {
                before
            } else {
                after_trials(before, order, order.len() as int, false, now)
            }
        },
    }
}

/// Decide how the batch gets its matrix, at the time `now`. A matrix file
/// named in the options is used and nothing else. Else the cached templates
/// are tried, unless the options forbid it; where one serves, the batch is
/// done. Else a matrix has to be generated.
pub fn get_matrix_with_fallback_at<F: Fn(&Value) -> Vec<String>>(
    parse_result: &ParseResult,
    options: &TransformOptions,
    registry: &mut MatrixRegistry,
    validator: &F,
    now: &str,
) -> (r: Plan)
    requires
        forall|v: &Value| call_requires(*validator, (v,)),
    ensures
        plan_follows(r, parse_result, options, old(registry)@, final(registry)@, validator, now@),
{
    match &options.matrix_path {
        Some(path) => {
            return Plan::NeedMatrixFile(path.clone());
        },
        None => {},
    }
    if !options.no_cache {
        match try_cached_at(parse_result, options, registry, validator, now) {
            CachedOutcome::Served { place, trial } => {
                return Plan::Finished(trial);
            },
            CachedOutcome::Exhausted { tried } => {},
        }
    }
    let preview_rows = if options.preview_rows < parse_result.records.len() {
        options.preview_rows
    } else {
        parse_result.records.len()
    };
    Plan::NeedGeneration { preview_rows }
}

/// Decide how the batch gets its matrix, at the current time.
pub fn get_matrix_with_fallback<F: Fn(&Value) -> Vec<String>>(
    parse_result: &ParseResult,
    options: &TransformOptions,
    registry: &mut MatrixRegistry,
    validator: &F,
) -> (r: Plan)
    requires
        forall|v: &Value| call_requires(*validator, (v,)),
    ensures
        exists|now: Seq<char>| #[trigger]
            plan_follows(
                r,
                parse_result,
                options,
                old(registry)@,
                final(registry)@,
                validator,
                now,
            ),
{
    let now = now_rfc3339();
    get_matrix_with_fallback_at(parse_result, options, registry, validator, now.as_str())
}

/// Go on with the matrix that was read from the file named in the options:
/// it is tried once and its result stands.
pub fn with_explicit_matrix<F: Fn(&Value) -> Vec<String>>(
    parse_result: &ParseResult,
    matrix: TransformationMatrix,
    options: &TransformOptions,
    validator: &F,
) -> (r: Trial)
    requires
        forall|v: &Value| call_requires(*validator, (v,)),
    ensures
        r.is_trial_of(
            values_view(parse_result.records@),
            matrix@,
            None,
            options.skip_validation,
            validator,
        ),
{
    try_matrix(parse_result, matrix, None, options, validator)
}

/// The trial is the one of a generated matrix at the time given: unless the
/// options forbid it, the matrix was stored under `name` for the file's
/// columns, and the trial is recorded for that template; the trial is what
/// the matrix makes of the rows.
pub open spec fn generated_follows<F: Fn(&Value) -> Vec<String>>(
    trial: Trial,
    parse_result: &ParseResult,
    matrix: MatrixView,
    options: &TransformOptions,
    before: Seq<Stored>,
    after: Seq<Stored>,
    name: Seq<char>,
    validator: &F,
    timestamp_millis: int,
    now: Seq<char>,
) -> bool {
    &&& trial.is_trial_of(
        values_view(parse_result.records@),
        matrix,
        if options.no_save {
            None
        } else {
            Some(id_text(name, timestamp_millis))
        },
        options.skip_validation,
        validator,
    )
    &&& after == if options.no_save {
        before
    } else {
        with_trial(
            with_stored(
                before,
                fresh(matrix, name, str_views(parse_result.headers@), timestamp_millis, now),
            ),
            id_text(name, timestamp_millis),
            trial.succeeded(),
            now,
        )
    }
}

/// Go on with a generated matrix, at the time given: unless the options
/// forbid it, the matrix is stored under `name` for the file's columns; it is
/// tried once; the trial is recorded for the stored template; and the result
/// stands, even where no record is valid.
pub fn with_generated_matrix_at<F: Fn(&Value) -> Vec<String>>(
    parse_result: &ParseResult,
    matrix: TransformationMatrix,
    options: &TransformOptions,
    registry: &mut MatrixRegistry,
    name: &str,
    validator: &F,
    timestamp_millis: i64,
    now: &str,
) -> (r: Trial)
    requires
        forall|v: &Value| call_requires(*validator, (v,)),
    ensures
        generated_follows(
            r,
            parse_result,
            matrix@,
            options,
            old(registry)@,
            final(registry)@,
            name@,
            validator,
            timestamp_millis as int,
            now@,
        ),
{
    let template_id = if !options.no_save {
        Some(
            registry.save_at(
                matrix.clone(),
                name,
                clone_strings(&parse_result.headers),
                timestamp_millis,
                now.to_string(),
            ),
        )
    } else {
        None
    };
    let id_copy = match &template_id {
        Some(id) => Some(id.clone()),
        None => None,
    };
    let trial = try_matrix(parse_result, matrix, template_id, options, validator);
    match id_copy {
        Some(id) => {
            registry.update_stats_at(id.as_str(), trial.valid_count > 0, now.to_string());
        },
        None => {},
    }
    trial
}

/// Go on with a generated matrix, at the current time.
pub fn with_generated_matrix<F: Fn(&Value) -> Vec<String>>(
    parse_result: &ParseResult,
    matrix: TransformationMatrix,
    options: &TransformOptions,
    registry: &mut MatrixRegistry,
    name: &str,
    validator: &F,
) -> (r: Trial)
    requires
        forall|v: &Value| call_requires(*validator, (v,)),
    ensures
        exists|timestamp_millis: int, now: Seq<char>| #[trigger]
            generated_follows(
                r,
                parse_result,
                matrix@,
                options,
                old(registry)@,
                final(registry)@,
                name@,
                validator,
                timestamp_millis,
                now,
            ),
{
    let timestamp = now_millis();
    let now = now_rfc3339();
    with_generated_matrix_at(
        parse_result,
        matrix,
        options,
        registry,
        name,
        validator,
        timestamp,
        now.as_str(),
    )
}

/// The result of a whole pipeline.
#[derive(Debug, PartialEq)]
pub struct PipelineResult {
    /// Flat records, one per creator.
    pub flat: Vec<Value>,
    /// Grouped records, one per work.
    pub grouped: Vec<Value>,
    /// Number of valid records.
    pub valid_count: usize,
    /// Number of invalid records.
    pub invalid_count: usize,
    /// Validation errors by record index.
    pub validation_errors: Vec<(usize, Vec<String>)>,
    /// The matrix that was used.
    pub matrix: TransformationMatrix,
    /// The template that was used or stored.
    pub template_id: Option<String>,
    /// What is known of the parsed file.
    pub csv_info: CsvInfo,
}

/// A copy of a list of values.
pub fn clone_values(items: &Vec<Value>) -> (r: Vec<Value>)
    ensures
        values_view(r@) == values_view(items@),
{
    let mut out: Vec<Value> = Vec::new();
    let mut i: usize = 0;
    while i < items.len()
        invariant
            i <= items.len(),
            out@.len() == i,
            forall|j: int| 0 <= j < i ==> out@[j]@ == items@[j]@,
        decreases items.len() - i,
    {
        out.push(items[i].clone());
        i += 1;
    }
    assert(values_view(out@) =~= values_view(items@));
    out
}

/// What is known of a parsed file.
pub fn csv_info_of(parse_result: &ParseResult) -> (r: CsvInfo)
    ensures
        r.encoding@ == parse_result.encoding@,
        r.delimiter == parse_result.delimiter,
        str_views(r.headers@) == str_views(parse_result.headers@),
        r.row_count == parse_result.records@.len(),
{
    CsvInfo {
        encoding: parse_result.encoding.clone(),
        delimiter: parse_result.delimiter,
        headers: clone_strings(&parse_result.headers),
        row_count: parse_result.records.len(),
    }
}

/// The first step for a parsed file: a file without rows is refused; for any
/// other the matrix is decided on.
pub fn transform_parsed<F: Fn(&Value) -> Vec<String>>(
    parse_result: &ParseResult,
    options: &TransformOptions,
    registry: &mut MatrixRegistry,
    validator: &F,
) -> (r: Result<Plan, PipelineError>)
    requires
        forall|v: &Value| call_requires(*validator, (v,)),
    ensures
        match r {
            Err(e) => parse_result.records@.len() == 0 && final(registry)@ == old(registry)@ && (e
                matches PipelineError::MatrixError(m) && m@ == EMPTY_FILE@),
            Ok(plan) => parse_result.records@.len() > 0 && exists|now: Seq<char>| #[trigger]
                plan_follows(
                    plan,
                    parse_result,
                    options,
                    old(registry)@,
                    final(registry)@,
                    validator,
                    now,
                ),
        },
{
    if parse_result.records.len() == 0 {
        return Err(PipelineError::MatrixError(EMPTY_FILE.to_string()));
    }
    Ok(get_matrix_with_fallback(parse_result, options, registry, validator))
}

/// The last step: the records of the trial that stands, grouped by work.
pub fn complete(trial: Trial, csv_info: CsvInfo) -> (r: PipelineResult)
    ensures
        values_view(r.flat@) == values_view(trial.transform_result.records@),
        values_view(r.grouped@) == grouped(values_view(trial.transform_result.records@)),
        r.valid_count == trial.valid_count,
        r.invalid_count == trial.invalid_count,
        errors_view(r.validation_errors@) == errors_view(trial.validation_errors@),
        r.matrix@ == trial.matrix@,
        option_text(r.template_id) == option_text(trial.template_id),
        r.csv_info == csv_info,
{
    let copy = clone_values(&trial.transform_result.records);
    let grouped = flat_to_grouped(copy);
    PipelineResult {
        flat: trial.transform_result.records,
        grouped,
        valid_count: trial.valid_count,
        invalid_count: trial.invalid_count,
        validation_errors: trial.validation_errors,
        matrix: trial.matrix,
        template_id: trial.template_id,
        csv_info,
    }
}

/// The result of a transformation with a given matrix.
#[derive(Debug, PartialEq)]
pub struct TransformWithMatrixResult {
    pub flat: Vec<Value>,
    pub grouped: Vec<Value>,
    pub valid_count: usize,
    pub invalid_count: usize,
    pub validation_errors: Vec<(usize, Vec<String>)>,
    pub skipped: usize,
    pub errors: usize,
}

/// Transform with a given matrix: execute it, validate the records where
/// asked to, and group them.
pub fn transform_with_matrix<F: Fn(&Value) -> Vec<String>>(
    records: &Vec<Value>,
    matrix: &TransformationMatrix,
    validate: bool,
    validator: &F,
) -> (r: TransformWithMatrixResult)
    requires
        forall|v: &Value| call_requires(*validator, (v,)),
    ensures
        values_view(r.flat@) == executed(values_view(records@), matrix@).records,
        values_view(r.grouped@) == grouped(executed(values_view(records@), matrix@).records),
        r.skipped == executed(values_view(records@), matrix@).skipped.len(),
        r.errors == 0,
        r.valid_count + r.invalid_count == r.flat@.len(),
        !validate ==> r.invalid_count == 0 && r.validation_errors@.len() == 0,
        validate ==> judged_by(
            validator,
            r.flat@,
            Tally {
                valid: r.valid_count as nat,
                invalid: r.invalid_count as nat,
                errors: errors_view(r.validation_errors@),
            },
        ),
{
    let result = execute(records, matrix);
    let summary = if validate {
        validate_records(&result.records, validator)
    } else {
        ValidationSummary {
            valid_count: result.records.len(),
            invalid_count: 0,
            validation_errors: Vec::new(),
        }
    };
    let copy = clone_values(&result.records);
    let grouped = flat_to_grouped(copy);
    TransformWithMatrixResult {
        flat: result.records,
        grouped,
        valid_count: summary.valid_count,
        invalid_count: summary.invalid_count,
        validation_errors: summary.validation_errors,
        skipped: result.skipped.len(),
        errors: result.errors.len(),
    }
}

/// The delimiter as it is shown.
pub fn format_delimiter(d: char) -> (r: &'static str)
    ensures
        r@ == (if d == ';' {
            ";"@
        } else if d == ',' {
            ","@
        } else if d == '\t' {
            "TAB"@
        } else if d == '|' {
            "|"@
        } else {
            "?"@
        }),
{
    if d == ';' {
        ";"
    } else if d == ',' {
        ","
    } else if d == '\t' {
        "TAB"
    } else if d == '|' {
        "|"
    } else {
        "?"
    }
}

/// A line of a report: its level and its message.
pub struct Line {
    pub level: LogLevel,
    pub message: Seq<char>,
}

/// The entries as lines.
pub open spec fn lines_view(entries: Seq<LogEntry>) -> Seq<Line> {
    Seq::new(entries.len(), |i: int| Line { level: entries[i].level, message: entries[i].message@ })
}

/// A line that informs.
pub open spec fn info_line(message: Seq<char>) -> Line {
    Line { level: LogLevel::Info, message }
}

/// A line that tells of a success.
pub open spec fn success_line(message: Seq<char>) -> Line {
    Line { level: LogLevel::Success, message }
}

/// A line that warns.
pub open spec fn warning_line(message: Seq<char>) -> Line {
    Line { level: LogLevel::Warning, message }
}

/// A line that tells of an error.
pub open spec fn error_line(message: Seq<char>) -> Line {
    Line { level: LogLevel::Error, message }
}

fn push_line(out: &mut Vec<LogEntry>, entry: LogEntry)
    requires
        entry.indent == 0,
    ensures
        lines_view(final(out)@) == lines_view(old(out)@).push(
            Line { level: entry.level, message: entry.message@ },
        ),
{
    let ghost before = lines_view(out@);
    out.push(entry);
    assert(lines_view(out@) =~= before.push(Line { level: entry.level, message: entry.message@ }));
}

/// The line that tells where a field comes from; none for a rule without a
/// source, sources or a constant.
pub open spec fn mapping_line(field: Seq<char>, rule: FieldRule) -> Option<Line> {
    match rule.source {
        Some(src) => Some(info_line(src + " \u{2192} "@ + field)),
        None => match rule.sources {
            Some(srcs) => Some(
                info_line("["@ + join(srcs, " + "@) + "] \u{2192} "@ + field),
            ),
            None => if rule.constant is Some {
                Some(info_line("(constant) \u{2192} "@ + field))
            } else {
                None
            },
        },
    }
}

/// The lines for the first `n` rules.
pub open spec fn mapping_lines(rules: Rules, n: int) -> Seq<Line>
    decreases n,
{
    if n <= 0 || n > rules.len() {
        seq![info_line("Matrix mapping:"@)]
    } else {
        match mapping_line(rules[n - 1].0, rules[n - 1].1) {
            Some(line) => mapping_lines(rules, n - 1).push(line),
            None => mapping_lines(rules, n - 1),
        }
    }
}

/// What a matrix maps, line by line: a heading, then where each field
/// comes from.
pub fn print_matrix_mapping(matrix: &TransformationMatrix) -> (r: Vec<LogEntry>)
    ensures
        lines_view(r@) == mapping_lines(matrix@.transforms, matrix@.transforms.len() as int),
{
    let mut out: Vec<LogEntry> = Vec::new();
    assert(lines_view(out@) =~= Seq::<Line>::empty());
    push_line(&mut out, LogEntry::info("Matrix mapping:"));
    assert(lines_view(out@) =~= seq![info_line("Matrix mapping:"@)]);
    let mut i: usize = 0;
    while i < matrix.transforms.len()
        invariant
            i <= matrix@.transforms.len(),
            lines_view(out@) == mapping_lines(matrix@.transforms, i as int),
        decreases matrix@.transforms.len() - i,
    {
        let field = matrix.transforms.key_at(i);
        let transform = matrix.transforms.value_at(i);
        match &transform.source {
            Some(src) => {
                let a = concat_strs(src.as_str(), " \u{2192} ");
                push_line(&mut out, LogEntry::info(concat_strs(a.as_str(), field.as_str()).as_str()));
            },
            None => match &transform.sources {
                Some(srcs) => {
                    let a = concat_strs("[", join_strs(srcs, " + ").as_str());
                    let b = concat_strs(a.as_str(), "] \u{2192} ");
                    push_line(
                        &mut out,
                        LogEntry::info(concat_strs(b.as_str(), field.as_str()).as_str()),
                    );
                },
                None => {
                    if transform.constant.is_some() {
                        push_line(
                            &mut out,
                            LogEntry::info(
                                concat_strs("(constant) \u{2192} ", field.as_str()).as_str(),
                            ),
                        );
                    }
                },
            },
        }
        i += 1;
    }
    out
}

/// The lines that tell how a validation went.
pub open spec fn validation_lines(valid: nat, invalid: nat) -> Seq<Line> {
    if invalid == 0 {
        seq![success_line("All "@ + decimal(valid as int) + " records valid!"@)]
    } else {
        seq![
            success_line("Valid: "@ + decimal(valid as int)),
            error_line("Invalid: "@ + decimal(invalid as int)),
        ]
    }
}

/// How a validation went, line by line.
pub fn print_validation_result(valid: usize, invalid: usize) -> (r: Vec<LogEntry>)
    ensures
        lines_view(r@) == validation_lines(valid as nat, invalid as nat),
{
    let mut out: Vec<LogEntry> = Vec::new();
    assert(lines_view(out@) =~= Seq::<Line>::empty());
    if invalid == 0 {
        let a = concat_strs("All ", u64_to_string(valid as u64).as_str());
        push_line(&mut out, LogEntry::success(concat_strs(a.as_str(), " records valid!").as_str()));
        assert(lines_view(out@) =~= validation_lines(valid as nat, invalid as nat));
    } else {
        push_line(
            &mut out,
            LogEntry::success(concat_strs("Valid: ", u64_to_string(valid as u64).as_str()).as_str()),
        );
        push_line(
            &mut out,
            LogEntry::error(
                concat_strs("Invalid: ", u64_to_string(invalid as u64).as_str()).as_str(),
            ),
        );
        assert(lines_view(out@) =~= validation_lines(valid as nat, invalid as nat));
    }
    out
}

/// The rows that were skipped for one reason.
pub struct SkipGroup {
    pub reason: Seq<char>,
    pub rows: Seq<nat>,
}

/// The reason under which a skip is counted: the missing fields where it
/// names any, else its own reason.
pub open spec fn skip_key(skip: Skip) -> Seq<char> {
    if skip.missing_fields.len() == 0 {
        skip.reason
    } else {
        "Missing: "@ + join(skip.missing_fields, ", "@)
    }
}

/// Index of the first group at or after `i` with the reason `key`, or the
/// number of groups.
pub open spec fn find_group(groups: Seq<SkipGroup>, key: Seq<char>, i: int) -> int
    decreases groups.len() - i,
{
    if i < 0 || i >= groups.len() {
        groups.len() as int
    } else if groups[i].reason == key {
        i
    } else {
        find_group(groups, key, i + 1)
    }
}

/// The groups with one more skip: in the group of its reason, or in a new
/// group at the end.
pub open spec fn with_skip(groups: Seq<SkipGroup>, skip: Skip) -> Seq<SkipGroup> {
    let key = skip_key(skip);
    let i = find_group(groups, key, 0);
    if i < groups.len() {
        groups.update(i, SkipGroup { rows: groups[i].rows.push(skip.row), ..groups[i] })
    } else {
        groups.push(SkipGroup { reason: key, rows: seq![skip.row] })
    }
}

/// The first `n` skips by reason, the reasons in order of first appearance.
pub open spec fn skip_groups(skips: Seq<Skip>, n: int) -> Seq<SkipGroup>
    decreases n,
{
    if n <= 0 || n > skips.len() {
        Seq::empty()
    } else {
        with_skip(skip_groups(skips, n - 1), skips[n - 1])
    }
}

/// The first `n` row numbers as texts.
pub open spec fn row_texts(rows: Seq<nat>, n: int) -> Seq<Seq<char>>
    decreases n,
{
    if n <= 0 || n > rows.len() {
        Seq::empty()
    } else {
        row_texts(rows, n - 1).push(decimal(rows[n - 1] as int))
    }
}

/// The line of a group: its reason, its first five rows, and how many more
/// there are.
pub open spec fn group_line(g: SkipGroup) -> Line {
    let shown = if g.rows.len() > 5 {
        5
    } else {
        g.rows.len() as int
    };
    let more = if g.rows.len() > 5 {
        "... +"@ + decimal(g.rows.len() - 5)
    } else {
        Seq::empty()
    };
    warning_line(
        "\u{2022} "@ + g.reason + " (rows: "@ + join(row_texts(g.rows, shown), ", "@) + more
            + ")"@,
    )
}

/// The lines of the first `n` groups.
pub open spec fn group_lines(groups: Seq<SkipGroup>, n: int) -> Seq<Line>
    decreases n,
{
    if n <= 0 || n > groups.len() {
        Seq::empty()
    } else {
        group_lines(groups, n - 1).push(group_line(groups[n - 1]))
    }
}

/// An error as it is shown.
pub open spec fn error_shown(e: TransformError) -> Seq<char> {
    "TransformError { row: "@ + decimal(e.row as int) + ", field: "@ + debug_string(e.field@)
        + ", message: "@ + debug_string(e.message@) + " }"@
}

/// The lines of the first `n` errors.
pub open spec fn error_lines(errors: Seq<TransformError>, n: int) -> Seq<Line>
    decreases n,
{
    if n <= 0 || n > errors.len() {
        Seq::empty()
    } else {
        error_lines(errors, n - 1).push(error_line(error_shown(errors[n - 1])))
    }
}

/// The smaller of a number and a limit.
pub open spec fn at_most(n: nat, limit: nat) -> int {
    if n < limit {
        n as int
    } else {
        limit as int
    }
}

/// The lines that tell what an execution gave: the number of records; the
/// number of errors and the first three of them, where there are any; the
/// number of skipped rows and the first five reasons with their rows, where
/// there are any.
pub open spec fn result_lines(records: nat, errors: Seq<TransformError>, skips: Seq<Skip>)
    -> Seq<Line> {
    let head = seq![success_line("Generated "@ + decimal(records as int) + " flat records"@)];
    let failed = if errors.len() > 0 {
        seq![warning_line(decimal(errors.len() as int) + " errors during transformation"@)]
            + error_lines(errors, at_most(errors.len(), 3))
    } else {
        Seq::empty()
    };
    let groups = skip_groups(skips, skips.len() as int);
    let skipped = if skips.len() > 0 {
        seq![
            warning_line(
                decimal(skips.len() as int) + " rows skipped (missing required fields)"@,
            ),
        ] + group_lines(groups, at_most(groups.len(), 5))
    } else {
        Seq::empty()
    };
    head + failed + skipped
}

/// The row numbers by content.
pub open spec fn rows_view(rows: Seq<usize>) -> Seq<nat> {
    Seq::new(rows.len(), |i: int| rows[i] as nat)
}

/// The groups by content.
pub open spec fn groups_view(groups: Seq<(String, Vec<usize>)>) -> Seq<SkipGroup> {
    Seq::new(
        groups.len(),
        |i: int| SkipGroup { reason: groups[i].0@, rows: rows_view(groups[i].1@) },
    )
}

/// The skips by reason, the reasons in order of first appearance.
pub fn group_skips(skipped: &Vec<SkippedRow>) -> (r: Vec<(String, Vec<usize>)>)
    ensures
        groups_view(r@) == skip_groups(skips_view(skipped@), skipped@.len() as int),
{
    let ghost skips = skips_view(skipped@);
    let mut groups: Vec<(String, Vec<usize>)> = Vec::new();
    let mut n: usize = 0;
    assert(groups_view(groups@) =~= Seq::<SkipGroup>::empty());
    while n < skipped.len()
        invariant
            n <= skipped.len(),
            skips == skips_view(skipped@),
            groups_view(groups@) == skip_groups(skips, n as int),
        decreases skipped.len() - n,
    {
        let skip = &skipped[n];
        assert(skips[n as int] == skip@);
        let key = if skip.missing_fields.len() == 0 {
            skip.reason.clone()
        } else {
            concat_strs("Missing: ", join_strs(&skip.missing_fields, ", ").as_str())
        };
        assert(key@ == skip_key(skip@));
        let ghost before = groups_view(groups@);
        let mut i: usize = 0;
        while i < groups.len() && !str_eq(groups[i].0.as_str(), key.as_str())
            invariant
                i <= groups.len(),
                before == groups_view(groups@),
                find_group(before, key@, 0) == find_group(before, key@, i as int),
            decreases groups.len() - i,
        {
            assert(before[i as int].reason == groups@[i as int].0@);
            i += 1;
        }
        if i < groups.len() {
            assert(before[i as int].reason == groups@[i as int].0@);
            assert(before[i as int].rows == rows_view(groups@[i as int].1@));
            let mut group = groups.remove(i);
            group.1.push(skip.row);
            assert(rows_view(group.1@) =~= before[i as int].rows.push(skip.row as nat));
            groups.insert(i, group);
            assert(groups_view(groups@) =~= with_skip(before, skip@));
        } else {
            let mut rows: Vec<usize> = Vec::new();
            rows.push(skip.row);
            assert(rows_view(rows@) =~= seq![skip.row as nat]);
            groups.push((key, rows));
            assert(groups_view(groups@) =~= with_skip(before, skip@));
        }
        n += 1;
    }
    groups
}

/// The line of a group of skips.
pub fn line_of_group(reason: &str, rows: &Vec<usize>) -> (r: LogEntry)
    ensures
        r.indent == 0,
        (Line { level: r.level, message: r.message@ }) == group_line(
            SkipGroup { reason: reason@, rows: rows_view(rows@) },
        ),
{
    let ghost rs = rows_view(rows@);
    let shown = if rows.len() > 5 {
        5
    } else {
        rows.len()
    };
    let mut sample: Vec<String> = Vec::new();
    let mut i: usize = 0;
    assert(crate::text::str_views(sample@) =~= row_texts(rs, 0));
    while i < shown
        invariant
            i <= shown <= rows.len(),
            rs == rows_view(rows@),
            crate::text::str_views(sample@) == row_texts(rs, i as int),
        decreases shown - i,
    {
        let t = u64_to_string(rows[i] as u64);
        proof {
            lemma_str_views_push(sample@, t);
        }
        sample.push(t);
        i += 1;
    }
    let more = if rows.len() > 5 {
        concat_strs("... +", u64_to_string((rows.len() - 5) as u64).as_str())
    } else {
        String::new()
    };
    let a = concat_strs("\u{2022} ", reason);
    let b = concat_strs(a.as_str(), " (rows: ");
    let c = concat_strs(b.as_str(), join_strs(&sample, ", ").as_str());
    let d = concat_strs(c.as_str(), more.as_str());
    let e = concat_strs(d.as_str(), ")");
    LogEntry::warning(e.as_str())
}

/// An error as it is shown.
pub fn show_error(e: &TransformError) -> (r: String)
    ensures
        r@ == error_shown(*e),
{
    let a = concat_strs("TransformError { row: ", u64_to_string(e.row as u64).as_str());
    let b = concat_strs(a.as_str(), ", field: ");
    let c = concat_strs(b.as_str(), debug_str(e.field.as_str()).as_str());
    let d = concat_strs(c.as_str(), ", message: ");
    let f = concat_strs(d.as_str(), debug_str(e.message.as_str()).as_str());
    concat_strs(f.as_str(), " }")
}

/// What an execution gave, line by line.
pub fn print_transform_result(result: &TransformResult) -> (r: Vec<LogEntry>)
    ensures
        lines_view(r@) == result_lines(
            result.records@.len(),
            result.errors@,
            skips_view(result.skipped@),
        ),
{
    let mut out: Vec<LogEntry> = Vec::new();
    assert(lines_view(out@) =~= Seq::<Line>::empty());
    let a = concat_strs("Generated ", u64_to_string(result.records.len() as u64).as_str());
    push_line(&mut out, LogEntry::success(concat_strs(a.as_str(), " flat records").as_str()));
    let ghost head = lines_view(out@);
    assert(head =~= seq![
        success_line("Generated "@ + decimal(result.records@.len() as int) + " flat records"@),
    ]);
    if result.errors.len() > 0 {
        push_line(
            &mut out,
            LogEntry::warning(
                concat_strs(
                    u64_to_string(result.errors.len() as u64).as_str(),
                    " errors during transformation",
                ).as_str(),
            ),
        );
        let ghost start = lines_view(out@);
        let limit = if result.errors.len() < 3 {
            result.errors.len()
        } else {
            3
        };
        let mut i: usize = 0;
        assert(lines_view(out@) =~= start + error_lines(result.errors@, 0));
        while i < limit
            invariant
                i <= limit <= result.errors@.len(),
                lines_view(out@) == start + error_lines(result.errors@, i as int),
            decreases limit - i,
        {
            push_line(&mut out, LogEntry::error(show_error(&result.errors[i]).as_str()));
            i += 1;
            assert(lines_view(out@) =~= start + error_lines(result.errors@, i as int));
        }
        assert(lines_view(out@) =~= head + (seq![
            warning_line(
                decimal(result.errors@.len() as int) + " errors during transformation"@,
            ),
        ] + error_lines(result.errors@, at_most(result.errors@.len(), 3))));
    } else {
        assert(lines_view(out@) =~= head + Seq::<Line>::empty());
    }
    let ghost middle = lines_view(out@);
    if result.skipped.len() > 0 {
        push_line(
            &mut out,
            LogEntry::warning(
                concat_strs(
                    u64_to_string(result.skipped.len() as u64).as_str(),
                    " rows skipped (missing required fields)",
                ).as_str(),
            ),
        );
        let groups = group_skips(&result.skipped);
        let ghost gs = groups_view(groups@);
        let ghost start = lines_view(out@);
        let limit = if groups.len() < 5 {
            groups.len()
        } else {
            5
        };
        let mut i: usize = 0;
        assert(lines_view(out@) =~= start + group_lines(gs, 0));
        while i < limit
            invariant
                i <= limit <= groups@.len(),
                gs == groups_view(groups@),
                lines_view(out@) == start + group_lines(gs, i as int),
            decreases limit - i,
        {
            assert(gs[i as int] == SkipGroup {
                reason: groups@[i as int].0@,
                rows: rows_view(groups@[i as int].1@),
            });
            push_line(&mut out, line_of_group(groups[i].0.as_str(), &groups[i].1));
            i += 1;
            assert(lines_view(out@) =~= start + group_lines(gs, i as int));
        }
        assert(lines_view(out@) =~= middle + (seq![
            warning_line(
                decimal(result.skipped@.len() as int)
                    + " rows skipped (missing required fields)"@,
            ),
        ] + group_lines(gs, at_most(gs.len(), 5))));
    } else {
        assert(lines_view(out@) =~= middle + Seq::<Line>::empty());
    }
    out
}

} // verus!
