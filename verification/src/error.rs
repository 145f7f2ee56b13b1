//! The ways in which reading the dataset can fail.

use vstd::prelude::*;

verus! {

/// `std::io::Error`, of which the library knows nothing: it carries it from
/// the caller that read a file to the caller that asked for a table.
#[verifier::external_type_specification]
#[verifier::external_body]
pub struct ExIoError(std::io::Error);

/// Why a text, a record or a table was refused. Each kind that comes from a
/// text carries the text that was refused.
#[derive(Debug)]
pub enum Error {
    /// No element has this atomic number.
    InvalidAtomicNumber(u8),
    /// No nuclide of this name, or none in the index table.
    InvalidNuclide(String),
    /// Not a number followed by a unit of time, or not a positive number in
    /// range.
    InvalidHalfLife(String),
    /// Not the token of a decay mode.
    InvalidDecayMode(String),
    /// Not the token of a kind of radiation.
    InvalidRadiationType(String),
    /// Not a decimal number, or not one in range.
    InvalidFloat(String),
    /// Not an integer.
    InvalidInteger(String),
    /// Not an energy: not a decimal number, or not one in range.
    InvalidEnergy(String),
    /// The path does not name a file of the dataset.
    InvalidFilePath,
    /// The file system refused to read a file.
    StdIoError(std::io::Error),
}

impl From<std::io::Error> for Error {
    fn from(e: std::io::Error) -> (r: Error) {
        Error::StdIoError(e)
    }
}

impl vstd::std_specs::convert::FromSpecImpl<std::io::Error> for Error {
    open spec fn obeys_from_spec() -> bool {
        true
    }

    open spec fn from_spec(e: std::io::Error) -> Error {
        Error::StdIoError(e)
    }
}

} // verus!
