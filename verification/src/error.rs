//! The library's error type.

use vstd::prelude::*;

verus! {

#[verifier::external_type_specification]
#[verifier::external_body]
pub struct ExXlsxError(calamine::XlsxError);

#[verifier::external_type_specification]
#[verifier::external_body]
pub struct ExDocxReaderError(docx_rs::ReaderError);

#[verifier::external_type_specification]
#[verifier::external_body]
pub struct ExImageError(image::ImageError);

#[verifier::external_type_specification]
#[verifier::external_body]
pub struct ExDecodeError(base64::DecodeError);

/// What went wrong, with a message where one is given.
#[derive(Debug)]
pub enum ChonkitError {
    DoesNotExist(String),
    InvalidFile(String),
    AlreadyExists(String),
    UnsupportedFileType(String),
    InvalidEmbeddingModel(String),
    InvalidParameter(String),
    OperationUnsupported(String),
    Chunks(String),
    InvalidProvider(String),
    ParseConfig(String),
    Validation(crate::validation::ValidationErrors),
    Regex(regex::Error),
    Xlsx(calamine::XlsxError),
    DocxRead(docx_rs::ReaderError),
    Image(image::ImageError),
    Base64(base64::DecodeError),
    Tokenizer(String),
}

} // verus!
