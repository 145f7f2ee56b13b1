//! Read-only access to a nuclear-decay reference dataset: nuclides, half-lives,
//! decay progeny and emission spectra, with the tables loaded once and kept.
//!
//! - [`nuclide`]: the identity of a nuclide, its name and its key.
//! - [`decimal`], [`numeral`], [`order`], [`field`]: the numbers of the tables,
//!   held exactly, and how they are read and written.
//! - [`half_life`]: half-lives and units of time.
//! - [`written`]: that what is written is what is read, and the other way
//!   round.
//! - [`table`]: the index and the spectra, built from the records of a file.
//! - [`dataset`]: the tables of one directory, each loaded at most once.
//! - [`decay`]: the lookups that a calculator of decay chains needs.
//!
//! The library reads no file and holds no floating-point number: a caller
//! reads the files and hands in their records, and turns the exact numbers
//! into floating-point numbers where it needs them.

mod cell;
pub mod dataset;
pub mod decay;
pub mod decimal;
pub mod error;
pub mod field;
pub mod half_life;
pub mod nuclide;
pub mod numeral;
pub mod order;
pub mod table;
pub mod text;
pub mod written;

pub use crate::dataset::icrp107::Icrp107;
pub use crate::dataset::NuclideData;
pub use crate::decay::DecayData;
pub use crate::decimal::Decimal;
pub use crate::error::Error;
pub use crate::field::{parse_energy, parse_integer};
pub use crate::half_life::{HalfLife, TimeUnit};
pub use crate::nuclide::{Nuclide, State};
pub use crate::table::{
    AckSpectrum, Attribute, BetSpectrum, DecayMode, IndexTable, NsfSpectrum, Progeny,
    RadSpectrum, RadiationType, SpectrumTable,
};
