//! The error type shared by the conversion helpers.

use vstd::prelude::*;
use vstd::string::StringExecFns;

use crate::text::signed_decimal_digits;

verus! {

/// A conversion failure, carrying the offending code or a message.
#[derive(Debug)]
pub enum ConversionError {
    UnsupportedOnnxDataType(i32),
    InvalidAttribute(String),
    InvalidTensorData(String),
    Internal(String),
}

impl ConversionError {
    /// The human-readable description of the error.
    pub open spec fn spec_message(&self) -> Seq<char> {
        match self {
            ConversionError::UnsupportedOnnxDataType(code) => "unsupported data type code: "@
                + signed_decimal_digits(*code as int),
            ConversionError::InvalidAttribute(m) => "invalid attribute: "@ + m@,
            ConversionError::InvalidTensorData(m) => "invalid tensor data: "@ + m@,
            ConversionError::Internal(m) => "internal error: "@ + m@,
        }
    }

    /// Renders the error as a human-readable message.
    pub fn message(&self) -> (r: String)
        ensures
            r@ == self.spec_message(),
    {
        match self {
            ConversionError::UnsupportedOnnxDataType(code) => {
                let mut out: String = "unsupported data type code: ".to_owned();
                crate::text::push_signed_decimal(*code as i64, &mut out);
                out
            },
            ConversionError::InvalidAttribute(m) => {
                let mut out: String = "invalid attribute: ".to_owned();
                out.append(m.as_str());
                out
            },
            ConversionError::InvalidTensorData(m) => {
                let mut out: String = "invalid tensor data: ".to_owned();
                out.append(m.as_str());
                out
            },
            ConversionError::Internal(m) => {
                let mut out: String = "internal error: ".to_owned();
                out.append(m.as_str());
                out
            },
        }
    }
}

} // verus!
