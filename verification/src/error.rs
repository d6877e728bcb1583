//! The error of the metadata generator.

use vstd::prelude::*;
use vstd::std_specs::convert::FromSpecImpl;

verus! {

/// An input/output error, as an opaque value.
#[verifier::external_type_specification]
#[verifier::external_body]
pub struct ExIoError(std::io::Error);

/// Why generating the package metadata failed.
#[derive(Debug)]
pub enum Error {
    /// The artifact could not be created or written.
    IOError,
}

impl From<std::io::Error> for Error {
    fn from(_e: std::io::Error) -> (err: Error) {
        Error::IOError
    }
}

impl FromSpecImpl<std::io::Error> for Error {
    open spec fn obeys_from_spec() -> bool {
        true
    }

    open spec fn from_spec(_e: std::io::Error) -> Error {
        Error::IOError
    }
}

} // verus!
