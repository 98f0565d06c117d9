//! Converts a PDF file's extracted text into a JSON document holding the
//! file's name and the extracted text.
//!
//! The pipeline is linear: the caller reads the file and runs the external
//! text extractor over its bytes; the extractor's outcome and the path come
//! in as plain values, the file name is derived from the path, and the two
//! are serialized as a pretty-printed JSON record with the fields `filename`
//! and `extracted_text`.

pub mod convert;
pub mod filename;
pub mod json;
