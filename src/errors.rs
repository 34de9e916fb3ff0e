use vstd::prelude::*;

verus! {

/// The kinds of failure that the decoders and lookups report.
#[derive(Clone, Copy, Debug, PartialEq, Eq, Structural)]
pub enum FerricError {
    /// The header region has a length or a marker of no known layout.
    Format,
    /// A numeric field holds bytes that do not decode to an integer.
    BcdDecoding,
    /// A date field holds bytes that do not decode to a calendar date.
    DateDecoding,
    /// A text field's declared length disagrees with its contents.
    TextDecoding,
    /// The requested table, row or column does not exist.
    NotFound,
    /// The request is structurally unsupported by this reader.
    NotSupported,
    /// A decoder was handed a buffer that should have been rejected earlier.
    Internal,
}

impl FerricError {
    /// A short, stable name of the error kind.
    pub fn name(&self) -> (r: &'static str)
        ensures
            *self == FerricError::Format ==> r@ == "FormatError"@,
            *self == FerricError::BcdDecoding ==> r@ == "BCDDecodingError"@,
            *self == FerricError::DateDecoding ==> r@ == "DateDecodingError"@,
            *self == FerricError::TextDecoding ==> r@ == "TextFieldDecodingError"@,
            *self == FerricError::NotFound ==> r@ == "NotFoundError"@,
            *self == FerricError::NotSupported ==> r@ == "NotSupportedError"@,
            *self == FerricError::Internal ==> r@ == "InternalError"@,
    {
        match self {
            FerricError::Format => "FormatError",
            FerricError::BcdDecoding => "BCDDecodingError",
            FerricError::DateDecoding => "DateDecodingError",
            FerricError::TextDecoding => "TextFieldDecodingError",
            FerricError::NotFound => "NotFoundError",
            FerricError::NotSupported => "NotSupportedError",
            FerricError::Internal => "InternalError",
        }
    }
}

} // verus!
