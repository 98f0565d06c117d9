//! The converter: from a path and the extraction outcome to the conversion
//! record, and from the record to its serialized JSON text.
//!
//! Reading the file and running the external text extractor are the caller's
//! business: the extractor is free to fail — or, on some malformed documents,
//! to abort outright — so its outcome reaches the library as a plain value,
//! `Ok` with the extracted text or `Err` with the reported message. The
//! converter is verified for every such value: it derives the file name from
//! the path, builds the record, and maps a failed extraction to the
//! extraction error, message unchanged.

use vstd::prelude::*;

use crate::filename::{file_name_component, file_name_spec};
use crate::json::{json_record, render_record};

verus! {

/// The output record of one conversion: the input file's base name and the
/// full text extracted from it. Immutable once constructed; an empty
/// `extracted_text` is a valid value.
#[derive(Debug)]
pub struct ConversionResult {
    pub filename: String,
    pub extracted_text: String,
}

/// The mathematical content of a `ConversionResult`: its two fields as
/// character sequences.
#[verifier::ext_equal]
pub ghost struct ConversionResultView {
    pub filename: Seq<char>,
    pub extracted_text: Seq<char>,
}

impl View for ConversionResult {
    type V = ConversionResultView;

    open spec fn view(&self) -> ConversionResultView {
        ConversionResultView { filename: self.filename@, extracted_text: self.extracted_text@ }
    }
}

/// Why a conversion failed: the file could not be read, or its bytes could
/// not be extracted as a PDF. Each variant carries the reported message.
#[derive(Debug)]
pub enum ConvertError {
    Io(String),
    Extraction(String),
}

impl ConvertError {
    /// The message carried by the error.
    pub fn message(&self) -> (m: String)
        ensures
            m@ == (match self {
                ConvertError::Io(s) => s@,
                ConvertError::Extraction(s) => s@,
            }),
    {
        match self {
            ConvertError::Io(s) => s.clone(),
            ConvertError::Extraction(s) => s.clone(),
        }
    }
}

/// The record that a successful conversion returns: the path's file name and
/// the extracted text, verbatim.
pub open spec fn convert_spec(path: Seq<char>, text: Seq<char>) -> ConversionResultView {
    ConversionResultView { filename: file_name_spec(path), extracted_text: text }
}

/// Builds the conversion record from a path and the extraction outcome.
///
/// Succeeds exactly when extraction did: the record then holds the path's
/// final component and the extracted text verbatim. A failed extraction
/// becomes the extraction error, carrying the reported message unchanged.
pub fn convert(path: &str, extraction: Result<String, String>) -> (r: Result<
    ConversionResult,
    ConvertError,
>)
    ensures
        r is Ok <==> extraction is Ok,
        r is Ok ==> r->Ok_0@ == convert_spec(path@, extraction->Ok_0@),
        r is Err ==> (r->Err_0 matches ConvertError::Extraction(m) && m@ == extraction->Err_0@),
{
    match extraction {
        Ok(text) => {
            let name = file_name_component(path);
            let res = ConversionResult { filename: name, extracted_text: text };
            proof {
                assert(res@ =~= convert_spec(path@, extraction->Ok_0@));
            }
            Ok(res)
        },
        Err(message) => Err(ConvertError::Extraction(message)),
    }
}

/// The whole pipeline on in-memory values: convert, then serialize.
///
/// On a successful extraction the result is the pretty-printed JSON record
/// of the path's file name and the extracted text.
pub fn pdf_to_json_converter(path: &str, extraction: Result<String, String>) -> (r: Result<
    String,
    ConvertError,
>)
    ensures
        r is Ok <==> extraction is Ok,
        r is Ok ==> r->Ok_0@ == json_record(file_name_spec(path@), extraction->Ok_0@),
        r is Err ==> (r->Err_0 matches ConvertError::Extraction(m) && m@ == extraction->Err_0@),
{
    match convert(path, extraction) {
        Ok(res) => Ok(render_record(res.filename.as_str(), res.extracted_text.as_str())),
        Err(e) => Err(e),
    }
}

/// Law: the conversion itself adds no variation. Equal paths and equal
/// extraction outcomes yield the identical record — in particular the
/// identical `extracted_text` — so two runs over a byte-identical file can
/// differ only if the extraction capability itself does, which is the
/// caller's premise, not this library's.
pub proof fn lemma_convert_deterministic(
    path1: Seq<char>,
    text1: Seq<char>,
    path2: Seq<char>,
    text2: Seq<char>,
)
    requires
        path1 == path2,
        text1 == text2,
    ensures
        convert_spec(path1, text1) == convert_spec(path2, text2),
        json_record(file_name_spec(path1), text1) == json_record(file_name_spec(path2), text2),
{
}

} // verus!
