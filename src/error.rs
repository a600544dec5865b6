use vstd::prelude::*;

verus! {

/// The ways an operation on a document can fail.
#[derive(Clone, Copy, Debug, PartialEq, Eq, Structural)]
pub enum SepaError {
    /// The text is not a well-formed document of the supported shape.
    MalformedDocument,
    /// The document could not be written out as text.
    Encoding,
    /// A transaction amount is not a decimal number.
    InvalidAmount,
    /// A transaction index does not address an existing transaction.
    IndexOutOfRange,
}

impl SepaError {
    /// A short human-readable description of the error.
    pub fn message(&self) -> (r: &'static str) {
        match self {
            SepaError::MalformedDocument => "malformed document",
            SepaError::Encoding => "encoding error",
            SepaError::InvalidAmount => "invalid amount",
            SepaError::IndexOutOfRange => "transaction index out of range",
        }
    }
}

} // verus!
