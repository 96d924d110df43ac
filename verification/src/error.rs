use vstd::prelude::*;

verus! {

/// Why building a relation, taking a key, proving or verifying was refused.
///
/// A proof that does not verify is not an error: verification answers `false`.
#[derive(Clone, Copy, Debug, PartialEq, Eq, Structural)]
pub enum Error {
    /// A value was needed for a variable and none was supplied.
    AssignmentMissing,
    /// Some constraint `(A·w) * (B·w) = (C·w)` does not hold of the assignment.
    ConstraintUnsatisfied,
    /// A key made for one constraint shape was used with another.
    ShapeMismatch,
    /// The bytes of a key do not decode to a key.
    MalformedKey,
    /// The system is larger than the evaluation domains of the field allow.
    DomainTooLarge,
}

impl Error {
    /// A short description of the error.
    pub fn message(&self) -> (s: &'static str)
        ensures
            s@ == error_text(*self),
    {
        match self {
            Error::AssignmentMissing => "an assignment for a variable is missing",
            Error::ConstraintUnsatisfied => "a constraint is not satisfied by the assignment",
            Error::ShapeMismatch => "the key was made for another constraint shape",
            Error::MalformedKey => "the key is malformed",
            Error::DomainTooLarge => "the constraint system is too large for the field",
        }
    }
}

/// The text that [`Error::message`] gives for each error.
pub open spec fn error_text(e: Error) -> Seq<char> {
    match e {
        Error::AssignmentMissing => "an assignment for a variable is missing"@,
        Error::ConstraintUnsatisfied => "a constraint is not satisfied by the assignment"@,
        Error::ShapeMismatch => "the key was made for another constraint shape"@,
        Error::MalformedKey => "the key is malformed"@,
        Error::DomainTooLarge => "the constraint system is too large for the field"@,
    }
}

} // verus!
