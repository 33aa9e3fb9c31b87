use vstd::prelude::*;

verus! {

/// Why a value could not be read from its JSON form.
#[derive(Debug, PartialEq, Eq, Clone, Copy)]
pub enum Error {
    InvalidJsonStructure,
    InvalidModelName,
    InvalidFinishReason,
    InvalidResponseFormat,
    InvalidToolChoice,
    JsonExpectedArray,
    JsonExpectedI64,
    JsonExpectedString,
    JsonExpectedBool,
}

} // verus!
