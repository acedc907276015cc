//! Why a photograph could not be converted.

use vstd::prelude::*;

verus! {

/// The ways in which the conversion of one photograph fails. None of them
/// concerns any other photograph.
#[derive(Clone, Copy, Debug, PartialEq, Eq, Structural)]
pub enum ConvertError {
    /// The bytes are not a picture that the decoder can read.
    Decode,
    /// The picture is too large to be resampled in this machine's memory.
    TooLarge,
    /// The encoder refused the canvas.
    Encode,
}

impl ConvertError {
    /// A line that names the failure.
    pub fn message(&self) -> (text: &'static str)
        ensures
            text@ == match *self {
                ConvertError::Decode => "the file is not a JPEG picture that can be decoded"@,
                ConvertError::TooLarge => "the picture is too large to be resampled"@,
                ConvertError::Encode => "the canvas could not be encoded"@,
            },
    {
        match self {
            ConvertError::Decode => "the file is not a JPEG picture that can be decoded",
            ConvertError::TooLarge => "the picture is too large to be resampled",
            ConvertError::Encode => "the canvas could not be encoded",
        }
    }
}

} // verus!
