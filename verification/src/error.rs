use vstd::prelude::*;

verus! {

/// The closed set of failure classes this library reports.
#[derive(Debug, Clone, Copy, PartialEq, Eq, Structural)]
pub enum FreesasaErrorKind {
    /// A chain label was not exactly one printable character.
    InvalidChainLabel,
    /// A residue-number field did not parse as a signed integer with an
    /// optional trailing insertion code.
    InvalidResidueNumber,
    /// A required field of the native tree was absent (a null sentinel).
    NullNativeField,
    /// The native tree had no structure node, or an unexpected shape.
    NativeTreeConstructionFailed,
    /// The native join of two trees reported a failure.
    JoinFailed,
    /// A structure or result handle required for tree construction was null.
    StructureOrResultNull,
}

/// Error value carried out of every fallible operation of this library.
#[derive(Debug)]
pub struct FreesasaError {
    pub message: String,
    pub kind: Option<FreesasaErrorKind>,
    pub code: Option<i32>,
}

impl FreesasaError {
    /// Builds an error from a message, an optional kind and an optional
    /// native status code.
    pub fn new(message: &str, kind: Option<FreesasaErrorKind>, code: Option<i32>) -> (r:
        FreesasaError)
        ensures
            r.message@ == message@,
            r.kind == kind,
            r.code == code,
    {
        FreesasaError { message: message.to_owned(), kind, code }
    }

    /// The native status code, when one was recorded.
    pub fn code(&self) -> (r: Option<i32>)
        ensures
            r == self.code,
    {
        self.code
    }

    /// The failure class, when one was recorded.
    pub fn kind(&self) -> (r: Option<FreesasaErrorKind>)
        ensures
            r == self.kind,
    {
        self.kind
    }

    /// The human-readable description the error was built with.
    pub fn message(&self) -> (r: &str)
        ensures
            r@ == self.message@,
    {
        self.message.as_str()
    }
}

} // verus!
