//! What a calculator of decay chains may ask of a dataset.

use vstd::prelude::*;
use crate::error::Error;
use crate::half_life::HalfLife;
use crate::nuclide::Nuclide;
use crate::table::{Attribute, IndexTable, Progeny};

verus! {

/// Lookups in an index that is there. Each of them answers for the nuclides
/// that the index holds, and refuses every other nuclide as
/// [`Error::InvalidNuclide`] with the name of the nuclide.
///
/// A dataset, whose index may not be loaded yet, has lookups of the same
/// names that take what was read of the index file.
pub trait DecayData {
    /// The index that answers the lookups.
    spec fn decay_index(&self) -> Map<u64, Attribute>;

    /// Whether the index holds `nuclide`.
    fn check_nuclide(&self, nuclide: Nuclide) -> (r: Result<(), Error>)
        ensures
            if self.decay_index().contains_key(nuclide@.key()) {
                r is Ok
            } else {
                r matches Err(Error::InvalidNuclide(name)) && name@ == nuclide@.text()
            },
    ;

    /// The nuclides that the decay of `nuclide` produces, in the order of the
    /// index.
    fn progeny(&self, nuclide: Nuclide) -> (r: Result<&[Progeny], Error>)
        ensures
            if self.decay_index().contains_key(nuclide@.key()) {
                let listed = self.decay_index()[nuclide@.key()];
                r matches Ok(progeny) && progeny@ == listed.progeny@
            } else {
                r matches Err(Error::InvalidNuclide(name)) && name@ == nuclide@.text()
            },
    ;

    /// The half-life of `nuclide`.
    fn half_life(&self, nuclide: Nuclide) -> (r: Result<HalfLife, Error>)
        ensures
            if self.decay_index().contains_key(nuclide@.key()) {
                let listed = self.decay_index()[nuclide@.key()];
                r matches Ok(half_life) && half_life@ == listed.half_life@
            } else {
                r matches Err(Error::InvalidNuclide(name)) && name@ == nuclide@.text()
            },
    ;
}

impl DecayData for IndexTable {
    open spec fn decay_index(&self) -> Map<u64, Attribute> {
        self@
    }

    fn check_nuclide(&self, nuclide: Nuclide) -> (r: Result<(), Error>) {
        match self.get(nuclide) {
            Some(_) => Ok(()),
            None => Err(Error::InvalidNuclide(nuclide.to_string())),
        }
    }

    fn progeny(&self, nuclide: Nuclide) -> (r: Result<&[Progeny], Error>) {
        match self.get(nuclide) {
            Some(attribute) => Ok(attribute.progeny.as_slice()),
            None => Err(Error::InvalidNuclide(nuclide.to_string())),
        }
    }

    fn half_life(&self, nuclide: Nuclide) -> (r: Result<HalfLife, Error>) {
        match self.get(nuclide) {
            Some(attribute) => Ok(attribute.half_life.clone()),
            None => Err(Error::InvalidNuclide(nuclide.to_string())),
        }
    }
}

} // verus!
