//! Rows of a music catalogue into structured records: a small rule language
//! for values, fields and rows; the grouping of records into works; and a
//! registry of rule sets that remembers which of them served.

pub mod text;
pub mod number;
pub mod assoc;
pub mod value;
pub mod pattern;
pub mod clock;
pub mod ident;
pub mod transform;
pub mod cache;
pub mod parser;
pub mod models;
pub mod error;
pub mod ai;
pub mod api;

pub use value::{Value, Entry};
pub use models::{PartyId, CreatorRole, MusicalWorkType};
pub use parser::{
    csv_to_json, decode_content, detect_delimiter, detect_encoding, parse_bytes_auto, CsvError,
    ParseResult,
};
pub use transform::grouper::flat_to_grouped;
pub use transform::dsl::matrix::{
    example_matrix, ColumnVariant, ExpandConfig, FieldTransform, SourceFormat, TransformMap,
    TransformationMatrix,
};
pub use transform::dsl::mapping::Mapping;
pub use transform::dsl::operations::{operations_description, Operation};
pub use transform::dsl::executor::{
    execute, execute_hashmap, SkippedRow, TransformError, TransformResult,
};
pub use transform::pipeline::{
    transform_with_matrix, CsvInfo, PipelineError, PipelineResult, TransformOptions,
    TransformWithMatrixResult,
};
pub use cache::{Compatibility, MatrixRegistry, StoredMatrix};
pub use ai::{AiClient, AiError};
pub use api::types::{
    error_response, CsvMetadata, ResponseMetadata, UploadResponse, ValidationError,
    ValidationStats,
};
