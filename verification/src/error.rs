use vstd::prelude::*;

verus! {

/// Domain errors for the integrity engine.
#[derive(Debug, Clone, Copy, PartialEq, Eq, Structural)]
pub enum DfimError {
    InvalidParameter,
    ParameterOverflow,
    BufferTooShort,
    BufferTooLong,
    UncorrectableError,
    CorruptMetadata,
    IntegrityFailure,
    WorkCapExceeded,
    EmptyInput,
}

/// Operator-facing text of each error.
pub open spec fn error_text(e: DfimError) -> Seq<char> {
    match e {
        DfimError::InvalidParameter => "invalid parameter"@,
        DfimError::ParameterOverflow => "parameter overflow"@,
        DfimError::BufferTooShort => "buffer too short"@,
        DfimError::BufferTooLong => "buffer too long"@,
        DfimError::UncorrectableError => "uncorrectable error detected"@,
        DfimError::CorruptMetadata => "corrupt metadata detected"@,
        DfimError::IntegrityFailure => "integrity verification failed"@,
        DfimError::WorkCapExceeded => "computation work cap exceeded"@,
        DfimError::EmptyInput => "empty input"@,
    }
}

impl DfimError {
    /// Stable human-readable description of the error.
    pub fn as_str(self) -> (s: &'static str)
        ensures
            s@ == error_text(self),
    {
        match self {
            DfimError::InvalidParameter => "invalid parameter",
            DfimError::ParameterOverflow => "parameter overflow",
            DfimError::BufferTooShort => "buffer too short",
            DfimError::BufferTooLong => "buffer too long",
            DfimError::UncorrectableError => "uncorrectable error detected",
            DfimError::CorruptMetadata => "corrupt metadata detected",
            DfimError::IntegrityFailure => "integrity verification failed",
            DfimError::WorkCapExceeded => "computation work cap exceeded",
            DfimError::EmptyInput => "empty input",
        }
    }
}

} // verus!
