use vstd::prelude::*;

verus! {

/// Declares `std::io::Error`, carried opaque by `ProcStatusError::Io`.
#[verifier::external_type_specification]
#[verifier::external_body]
pub struct ExIoError(std::io::Error);

/// Declares `std::num::ParseIntError`, carried opaque by
/// `ProcStatusError::ParseInt`.
#[verifier::external_type_specification]
#[verifier::external_body]
pub struct ExParseIntError(std::num::ParseIntError);

/// Any error that this library reports.
///
/// Where the system has no `/proc` pseudo file system, reading a status
/// gives `ProcStatusError::Io`.
#[derive(Debug)]
pub enum ProcStatusError {
    /// Reading the `/proc` file failed.
    Io(std::io::Error),
    /// The number of a size value could not be parsed.
    ParseInt(std::num::ParseIntError),
    /// A non-blank line holds no colon; the line is kept.
    NoColon(String),
    /// No entry has the key that was asked for; the key is kept.
    EntryNotFound(String),
    /// The value does not end with ` kB`.
    NotInKib,
    /// A size, counted in bytes, does not fit in `usize`; the key is kept.
    SizeOverflow(String),
}

impl From<std::io::Error> for ProcStatusError {
    fn from(e: std::io::Error) -> Self {
        ProcStatusError::Io(e)
    }
}

impl vstd::std_specs::convert::FromSpecImpl<std::io::Error> for ProcStatusError {
    open spec fn obeys_from_spec() -> bool {
        true
    }

    open spec fn from_spec(v: std::io::Error) -> Self {
        ProcStatusError::Io(v)
    }
}

impl From<std::num::ParseIntError> for ProcStatusError {
    fn from(e: std::num::ParseIntError) -> Self {
        ProcStatusError::ParseInt(e)
    }
}

impl vstd::std_specs::convert::FromSpecImpl<std::num::ParseIntError> for ProcStatusError {
    open spec fn obeys_from_spec() -> bool {
        true
    }

    open spec fn from_spec(v: std::num::ParseIntError) -> Self {
        ProcStatusError::ParseInt(v)
    }
}

} // verus!
