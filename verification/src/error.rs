//! The failure taxonomy shared by every component.

use vstd::prelude::*;

verus! {

/// Why a request could not be answered.  Every failure is reported to the
/// caller; no partial value accompanies it.
#[derive(Clone, Copy, Debug, PartialEq, Eq, Structural)]
pub enum Error {
    /// A symbol, type or field is absent.
    NotFound,
    /// Several resolutions are equally valid.
    Ambiguous,
    /// The bytes do not fit the declared shape of the type.
    MalformedLayout,
    /// The operation does not apply to this kind of value.
    TypeMismatch,
    /// An index or a slice bound lies outside the value.
    OutOfRange,
    /// The memory or invocation collaborator failed; never retried here.
    IoError,
}

impl Error {
    /// What is shown to the user for this failure.
    pub open spec fn message_spec(self) -> Seq<char> {
        match self {
            Error::NotFound => "not found"@,
            Error::Ambiguous => "ambiguous"@,
            Error::MalformedLayout => "malformed layout"@,
            Error::TypeMismatch => "type mismatch"@,
            Error::OutOfRange => "out of range"@,
            Error::IoError => "input/output error"@,
        }
    }

    /// What is shown to the user for this failure.
    pub fn message(&self) -> (r: String)
        ensures
            r@ == self.message_spec(),
    {
        match self {
            Error::NotFound => "not found".to_owned(),
            Error::Ambiguous => "ambiguous".to_owned(),
            Error::MalformedLayout => "malformed layout".to_owned(),
            Error::TypeMismatch => "type mismatch".to_owned(),
            Error::OutOfRange => "out of range".to_owned(),
            Error::IoError => "input/output error".to_owned(),
        }
    }
}

} // verus!
