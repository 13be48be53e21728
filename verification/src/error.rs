//! Errors, from the parsing of a file up to the pipeline as a whole, each
//! with the text it is reported as.

use vstd::prelude::*;
use crate::number::{decimal, u64_to_string};
use crate::text::{
    concat_strs, str_views, join, join_strs, chars_of, string_of, append_chars,
    lemma_str_views_push,
};

verus! {

/// A text as `Debug` formatting of the standard library writes it: in
/// double quotes, with its special characters escaped.
pub uninterp spec fn debug_string(s: Seq<char>) -> Seq<char>;

/// `format!("{:?}", s)` on a string. The contract only names the outcome: it
/// is the named text of the string.
#[verifier::external_body]
pub(crate) fn debug_str(s: &str) -> (r: String)
    ensures
        r@ == debug_string(s@),
{
    format!("{:?}", s)
}

/// The first `n` texts as they are shown.
pub open spec fn debug_strings(items: Seq<Seq<char>>, n: int) -> Seq<Seq<char>>
    decreases n,
{
    if n <= 0 || n > items.len() {
        Seq::empty()
    } else {
        debug_strings(items, n - 1).push(debug_string(items[n - 1]))
    }
}

/// A list of texts as it is shown: in square brackets, each text in double
/// quotes with its special characters escaped, a comma and a space between
/// each two.
pub open spec fn debug_text(items: Seq<Seq<char>>) -> Seq<char> {
    seq!['['] + join(debug_strings(items, items.len() as int), ", "@) + seq![']']
}

/// A list of texts as it is shown.
pub fn debug_list(items: &Vec<String>) -> (r: String)
    ensures
        r@ == debug_text(str_views(items@)),
{
    let mut shown: Vec<String> = Vec::new();
    let mut i: usize = 0;
    assert(str_views(shown@) =~= debug_strings(str_views(items@), 0));
    while i < items.len()
        invariant
            i <= items.len(),
            str_views(shown@) == debug_strings(str_views(items@), i as int),
        decreases items.len() - i,
    {
        assert(str_views(items@)[i as int] == items@[i as int]@);
        let text = debug_str(items[i].as_str());
        proof {
            lemma_str_views_push(shown@, text);
        }
        shown.push(text);
        i += 1;
    }
    let mut out: Vec<char> = Vec::new();
    out.push('[');
    append_chars(&mut out, &chars_of(join_strs(&shown, ", ").as_str()));
    out.push(']');
    assert(out@ =~= debug_text(str_views(items@)));
    string_of(&out)
}

/// Errors during CSV parsing.
#[derive(Debug, PartialEq)]
pub enum CsvError {
    /// Failed to read file.
    IoError(String),
    /// Failed to detect encoding.
    EncodingError(String),
    /// Invalid CSV format.
    ParseError(String),
    /// Empty file.
    EmptyFile,
    /// No headers found.
    NoHeaders,
}

impl CsvError {
    /// The text of the error.
    pub open spec fn text(&self) -> Seq<char> {
        match self {
            CsvError::IoError(m) => "Failed to read file: "@ + m@,
            CsvError::EncodingError(m) => "Failed to detect encoding: "@ + m@,
            CsvError::ParseError(m) => "Invalid CSV format: "@ + m@,
            CsvError::EmptyFile => "CSV file is empty"@,
            CsvError::NoHeaders => "No headers found in CSV"@,
        }
    }

    /// The error as one line of text.
    pub fn to_string(&self) -> (r: String)
        ensures
            r@ == self.text(),
    {
        match self {
            CsvError::IoError(m) => concat_strs("Failed to read file: ", m.as_str()),
            CsvError::EncodingError(m) => concat_strs("Failed to detect encoding: ", m.as_str()),
            CsvError::ParseError(m) => concat_strs("Invalid CSV format: ", m.as_str()),
            CsvError::EmptyFile => "CSV file is empty".to_string(),
            CsvError::NoHeaders => "No headers found in CSV".to_string(),
        }
    }
}

/// Errors during transformation.
#[derive(Debug, PartialEq)]
pub enum TransformError {
    /// Invalid transformation matrix.
    InvalidMatrix(String),
    /// Missing required source column.
    MissingColumn(String),
    /// Operation execution failed.
    OperationFailed { field: String, message: String },
    /// JSON error.
    JsonError(String),
}

impl TransformError {
    /// The text of the error.
    pub open spec fn text(&self) -> Seq<char> {
        match self {
            TransformError::InvalidMatrix(m) => "Invalid transformation matrix: "@ + m@,
            TransformError::MissingColumn(m) => "Missing source column: "@ + m@,
            TransformError::OperationFailed { field, message } => "Operation failed on field '"@
                + field@ + "': "@ + message@,
            TransformError::JsonError(m) => "JSON error: "@ + m@,
        }
    }

    /// The error as one line of text.
    pub fn to_string(&self) -> (r: String)
        ensures
            r@ == self.text(),
    {
        match self {
            TransformError::InvalidMatrix(m) => concat_strs(
                "Invalid transformation matrix: ",
                m.as_str(),
            ),
            TransformError::MissingColumn(m) => concat_strs("Missing source column: ", m.as_str()),
            TransformError::OperationFailed { field, message } => {
                let a = concat_strs("Operation failed on field '", field.as_str());
                let b = concat_strs(a.as_str(), "': ");
                concat_strs(b.as_str(), message.as_str())
            },
            TransformError::JsonError(m) => concat_strs("JSON error: ", m.as_str()),
        }
    }
}

/// Errors from the generator's client.
#[derive(Debug, PartialEq)]
pub enum AiError {
    /// Missing API key.
    MissingApiKey,
    /// HTTP request failed.
    HttpError(String),
    /// Invalid response.
    InvalidResponse(String),
    /// Rate limited.
    RateLimited(u64),
    /// Timeout.
    Timeout,
}

impl AiError {
    /// The text of the error.
    pub open spec fn text(&self) -> Seq<char> {
        match self {
            AiError::MissingApiKey => "Missing API key environment variable"@,
            AiError::HttpError(m) => "HTTP request failed: "@ + m@,
            AiError::InvalidResponse(m) => "Invalid AI response: "@ + m@,
            AiError::RateLimited(s) => "Rate limited, retry after "@ + decimal(*s as int)
                + " seconds"@,
            AiError::Timeout => "Request timed out"@,
        }
    }

    /// The error as one line of text.
    pub fn to_string(&self) -> (r: String)
        ensures
            r@ == self.text(),
    {
        match self {
            AiError::MissingApiKey => "Missing API key environment variable".to_string(),
            AiError::HttpError(m) => concat_strs("HTTP request failed: ", m.as_str()),
            AiError::InvalidResponse(m) => concat_strs("Invalid AI response: ", m.as_str()),
            AiError::RateLimited(s) => {
                let a = concat_strs("Rate limited, retry after ", u64_to_string(*s).as_str());
                concat_strs(a.as_str(), " seconds")
            },
            AiError::Timeout => "Request timed out".to_string(),
        }
    }
}

/// Errors from the template registry.
#[derive(Debug, PartialEq)]
pub enum RegistryError {
    /// Template not found.
    NotFound(String),
    /// Failed to save template.
    SaveError(String),
    /// Invalid template data.
    InvalidTemplate(String),
    /// IO error.
    IoError(String),
    /// JSON error.
    JsonError(String),
}

impl RegistryError {
    /// The text of the error.
    pub open spec fn text(&self) -> Seq<char> {
        match self {
            RegistryError::NotFound(m) => "Template not found: "@ + m@,
            RegistryError::SaveError(m) => "Failed to save template: "@ + m@,
            RegistryError::InvalidTemplate(m) => "Invalid template: "@ + m@,
            RegistryError::IoError(m) => "Registry IO error: "@ + m@,
            RegistryError::JsonError(m) => "Registry JSON error: "@ + m@,
        }
    }

    /// The error as one line of text.
    pub fn to_string(&self) -> (r: String)
        ensures
            r@ == self.text(),
    {
        match self {
            RegistryError::NotFound(m) => concat_strs("Template not found: ", m.as_str()),
            RegistryError::SaveError(m) => concat_strs("Failed to save template: ", m.as_str()),
            RegistryError::InvalidTemplate(m) => concat_strs("Invalid template: ", m.as_str()),
            RegistryError::IoError(m) => concat_strs("Registry IO error: ", m.as_str()),
            RegistryError::JsonError(m) => concat_strs("Registry JSON error: ", m.as_str()),
        }
    }
}

/// Errors during validation.
#[derive(Debug, PartialEq)]
pub enum ValidationError {
    /// Schema validation failed.
    SchemaError { errors: Vec<String> },
    /// Missing required field.
    MissingField(String),
    /// Invalid field value.
    InvalidValue { field: String, message: String },
}

impl ValidationError {
    /// The text of the error.
    pub open spec fn text(&self) -> Seq<char> {
        match self {
            ValidationError::SchemaError { errors } => "Validation failed: "@ + debug_text(
                str_views(errors@),
            ),
            ValidationError::MissingField(m) => "Missing required field: "@ + m@,
            ValidationError::InvalidValue { field, message } => "Invalid value for field '"@
                + field@ + "': "@ + message@,
        }
    }

    /// The error as one line of text.
    pub fn to_string(&self) -> (r: String)
        ensures
            r@ == self.text(),
    {
        match self {
            ValidationError::SchemaError { errors } => concat_strs(
                "Validation failed: ",
                debug_list(errors).as_str(),
            ),
            ValidationError::MissingField(m) => concat_strs("Missing required field: ", m.as_str()),
            ValidationError::InvalidValue { field, message } => {
                let a = concat_strs("Invalid value for field '", field.as_str());
                let b = concat_strs(a.as_str(), "': ");
                concat_strs(b.as_str(), message.as_str())
            },
        }
    }
}

/// Errors of the pipeline as a whole.
#[derive(Debug, PartialEq)]
pub enum PipelineError {
    /// CSV parsing error.
    Csv(CsvError),
    /// Transformation error.
    Transform(TransformError),
    /// Generator error.
    Ai(AiError),
    /// Registry error.
    Registry(RegistryError),
    /// Validation error.
    Validation(ValidationError),
    /// No records to transform.
    EmptyInput,
    /// All records were invalid.
    AllInvalid(usize),
}

impl PipelineError {
    /// The text of the error.
    pub open spec fn text(&self) -> Seq<char> {
        match self {
            PipelineError::Csv(e) => "CSV error: "@ + e.text(),
            PipelineError::Transform(e) => "Transform error: "@ + e.text(),
            PipelineError::Ai(e) => "AI error: "@ + e.text(),
            PipelineError::Registry(e) => "Registry error: "@ + e.text(),
            PipelineError::Validation(e) => "Validation error: "@ + e.text(),
            PipelineError::EmptyInput => "No records to transform"@,
            PipelineError::AllInvalid(n) => "All "@ + decimal(*n as int)
                + " records failed validation"@,
        }
    }

    /// The error as one line of text.
    pub fn to_string(&self) -> (r: String)
        ensures
            r@ == self.text(),
    {
        match self {
            PipelineError::Csv(e) => concat_strs("CSV error: ", e.to_string().as_str()),
            PipelineError::Transform(e) => concat_strs("Transform error: ", e.to_string().as_str()),
            PipelineError::Ai(e) => concat_strs("AI error: ", e.to_string().as_str()),
            PipelineError::Registry(e) => concat_strs("Registry error: ", e.to_string().as_str()),
            PipelineError::Validation(e) => concat_strs(
                "Validation error: ",
                e.to_string().as_str(),
            ),
            PipelineError::EmptyInput => "No records to transform".to_string(),
            PipelineError::AllInvalid(n) => {
                let a = concat_strs("All ", u64_to_string(*n as u64).as_str());
                concat_strs(a.as_str(), " records failed validation")
            },
        }
    }
}

/// Errors of the server.
#[derive(Debug, PartialEq)]
pub enum ServerError {
    /// Pipeline error.
    Pipeline(PipelineError),
    /// Invalid request.
    BadRequest(String),
    /// Server internal error.
    Internal(String),
}

impl ServerError {
    /// The text of the error.
    pub open spec fn text(&self) -> Seq<char> {
        match self {
            ServerError::Pipeline(e) => "Pipeline error: "@ + e.text(),
            ServerError::BadRequest(m) => "Invalid request: "@ + m@,
            ServerError::Internal(m) => "Internal server error: "@ + m@,
        }
    }

    /// The error as one line of text.
    pub fn to_string(&self) -> (r: String)
        ensures
            r@ == self.text(),
    {
        match self {
            ServerError::Pipeline(e) => concat_strs("Pipeline error: ", e.to_string().as_str()),
            ServerError::BadRequest(m) => concat_strs("Invalid request: ", m.as_str()),
            ServerError::Internal(m) => concat_strs("Internal server error: ", m.as_str()),
        }
    }
}

impl From<CsvError> for PipelineError {
    fn from(e: CsvError) -> (r: Self) {
        PipelineError::Csv(e)
    }
}

impl vstd::std_specs::convert::FromSpecImpl<CsvError> for PipelineError {
    open spec fn obeys_from_spec() -> bool {
        true
    }

    open spec fn from_spec(e: CsvError) -> Self {
        PipelineError::Csv(e)
    }
}

impl From<TransformError> for PipelineError {
    fn from(e: TransformError) -> (r: Self) {
        PipelineError::Transform(e)
    }
}

impl vstd::std_specs::convert::FromSpecImpl<TransformError> for PipelineError {
    open spec fn obeys_from_spec() -> bool {
        true
    }

    open spec fn from_spec(e: TransformError) -> Self {
        PipelineError::Transform(e)
    }
}

impl From<AiError> for PipelineError {
    fn from(e: AiError) -> (r: Self) {
        PipelineError::Ai(e)
    }
}

impl vstd::std_specs::convert::FromSpecImpl<AiError> for PipelineError {
    open spec fn obeys_from_spec() -> bool {
        true
    }

    open spec fn from_spec(e: AiError) -> Self {
        PipelineError::Ai(e)
    }
}

impl From<RegistryError> for PipelineError {
    fn from(e: RegistryError) -> (r: Self) {
        PipelineError::Registry(e)
    }
}

impl vstd::std_specs::convert::FromSpecImpl<RegistryError> for PipelineError {
    open spec fn obeys_from_spec() -> bool {
        true
    }

    open spec fn from_spec(e: RegistryError) -> Self {
        PipelineError::Registry(e)
    }
}

impl From<ValidationError> for PipelineError {
    fn from(e: ValidationError) -> (r: Self) {
        PipelineError::Validation(e)
    }
}

impl vstd::std_specs::convert::FromSpecImpl<ValidationError> for PipelineError {
    open spec fn obeys_from_spec() -> bool {
        true
    }

    open spec fn from_spec(e: ValidationError) -> Self {
        PipelineError::Validation(e)
    }
}

impl From<PipelineError> for ServerError {
    fn from(e: PipelineError) -> (r: Self) {
        ServerError::Pipeline(e)
    }
}

impl vstd::std_specs::convert::FromSpecImpl<PipelineError> for ServerError {
    open spec fn obeys_from_spec() -> bool {
        true
    }

    open spec fn from_spec(e: PipelineError) -> Self {
        ServerError::Pipeline(e)
    }
}

} // verus!
