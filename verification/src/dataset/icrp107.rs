//! The dataset of ICRP Publication 107.

use vstd::prelude::*;
use crate::dataset::{loaded, Store, NDX_FILE};
use crate::decay::DecayData;
use crate::error::Error;
use crate::half_life::HalfLife;
use crate::nuclide::Nuclide;
use crate::table::{
    AckSpectrum, BetSpectrum, IndexTable, NsfSpectrum, Progeny, RadSpectrum, SpectrumTable,
};

verus! {

/// The dataset of ICRP Publication 107 in one directory: its index and its four
/// tables of spectra.
pub struct Icrp107 {
    store: Store,
}

impl Icrp107 {
    /// Each cell of the dataset holds nothing or a table of its own kind.
    pub closed spec fn wf(&self) -> bool {
        self.store.wf()
    }

    /// The directory of the dataset.
    pub closed spec fn root(&self) -> Seq<char> {
        self.store.root@
    }

    /// The table of the index of the nuclides, once it is loaded.
    pub closed spec fn index_table(&self) -> Option<IndexTable> {
        self.store.index_spec()
    }

    /// The table of the spectra of discrete radiations, once it is loaded.
    pub closed spec fn discrete_table(&self) -> Option<SpectrumTable<RadSpectrum>> {
        self.store.discrete_spec()
    }

    /// The table of the beta spectra, once it is loaded.
    pub closed spec fn beta_table(&self) -> Option<SpectrumTable<BetSpectrum>> {
        self.store.beta_spec()
    }

    /// The table of the spectra of Auger and Coster-Kronig electrons, once it
    /// is loaded.
    pub closed spec fn auger_table(&self) -> Option<SpectrumTable<AckSpectrum>> {
        self.store.auger_spec()
    }

    /// The table of the spectra of neutrons from spontaneous fission, once it
    /// is loaded.
    pub closed spec fn fission_neutron_table(&self) -> Option<SpectrumTable<NsfSpectrum>> {
        self.store.fission_neutron_spec()
    }

    /// Opens the dataset in the directory `path`. No file is read and no table
    /// is loaded yet.
    pub fn open(path: &str) -> (r: Result<Icrp107, Error>)
        ensures
            r matches Ok(dataset) && dataset.wf() && dataset.root() == path@
                && dataset.index_table() is None && dataset.discrete_table() is None
                && dataset.beta_table() is None && dataset.auger_table() is None
                && dataset.fission_neutron_table() is None,
    {
        Ok(Icrp107 { store: Store::open(path) })
    }

    /// The directory of the dataset.
    pub fn path(&self) -> (r: &str)
        ensures
            r@ == self.root(),
    {
        self.store.root.as_str()
    }

    /// The table of the index of the nuclides, if it is loaded. Where it is
    /// not, the file [`NDX_FILE`] is to be read and handed to [`Self::ndx`].
    pub fn index(&self) -> (r: Option<&IndexTable>)
        requires
            self.wf(),
        ensures
            r == match self.index_table() {
                Some(table) => Some(&table),
                None => None,
            },
    {
        self.store.index()
    }

    /// The table of the index of the nuclides, which is loaded with this call
    /// if it was not loaded before. `read` is what came of reading the file
    /// [`NDX_FILE`] and building the table: it is kept if it is a table and
    /// none was loaded, and is not looked at if one was. Where no table was
    /// loaded and `read` is an error, that error is returned and the dataset
    /// stays as it was, so that the table can be asked for again.
    pub fn ndx(&mut self, read: Result<IndexTable, Error>) -> (r: Result<&IndexTable, Error>)
        requires
            old(self).wf(),
        ensures
            final(self).wf(),
            final(self).root() == old(self).root(),
            final(self).index_table() == loaded(old(self).index_table(), read),
            match final(self).index_table() {
                Some(table) => r == Ok::<&IndexTable, Error>(&table),
                None => read is Err && r == Err::<&IndexTable, Error>(read->Err_0),
            },
            final(self).discrete_table() == old(self).discrete_table(),
            final(self).beta_table() == old(self).beta_table(),
            final(self).auger_table() == old(self).auger_table(),
            final(self).fission_neutron_table() == old(self).fission_neutron_table(),
    {
        self.store.ndx(read)
    }

    /// The table of the spectra of discrete radiations, if it is loaded. Where
    /// it is not, the file [`RAD_FILE`] is to be read and handed to
    /// [`Self::rad`].
    pub fn discrete(&self) -> (r: Option<&SpectrumTable<RadSpectrum>>)
        requires
            self.wf(),
        ensures
            r == match self.discrete_table() {
                Some(table) => Some(&table),
                None => None,
            },
    {
        self.store.discrete()
    }

    /// The table of the spectra of discrete radiations, which is loaded with
    /// this call if it was not loaded before. `read` is what came of reading
    /// the file [`RAD_FILE`] and building the table: it is kept if it is a
    /// table and none was loaded, and is not looked at if one was. Where no
    /// table was loaded and `read` is an error, that error is returned and the
    /// dataset stays as it was, so that the table can be asked for again.
    pub fn rad(&mut self, read: Result<SpectrumTable<RadSpectrum>, Error>) -> (r: Result<
        &SpectrumTable<RadSpectrum>,
        Error,
    >)
        requires
            old(self).wf(),
        ensures
            final(self).wf(),
            final(self).root() == old(self).root(),
            final(self).discrete_table() == loaded(old(self).discrete_table(), read),
            match final(self).discrete_table() {
                Some(table) => r == Ok::<&SpectrumTable<RadSpectrum>, Error>(&table),
                None => read is Err && r == Err::<&SpectrumTable<RadSpectrum>, Error>(read->Err_0),
            },
            final(self).index_table() == old(self).index_table(),
            final(self).beta_table() == old(self).beta_table(),
            final(self).auger_table() == old(self).auger_table(),
            final(self).fission_neutron_table() == old(self).fission_neutron_table(),
    {
        self.store.rad(read)
    }

    /// The table of the beta spectra, if it is loaded. Where it is not, the
    /// file [`BET_FILE`] is to be read and handed to [`Self::bet`].
    pub fn beta(&self) -> (r: Option<&SpectrumTable<BetSpectrum>>)
        requires
            self.wf(),
        ensures
            r == match self.beta_table() {
                Some(table) => Some(&table),
                None => None,
            },
    {
        self.store.beta()
    }

    /// The table of the beta spectra, which is loaded with this call if it was
    /// not loaded before. `read` is what came of reading the file [`BET_FILE`]
    /// and building the table: it is kept if it is a table and none was loaded,
    /// and is not looked at if one was. Where no table was loaded and `read` is
    /// an error, that error is returned and the dataset stays as it was, so
    /// that the table can be asked for again.
    pub fn bet(&mut self, read: Result<SpectrumTable<BetSpectrum>, Error>) -> (r: Result<
        &SpectrumTable<BetSpectrum>,
        Error,
    >)
        requires
            old(self).wf(),
        ensures
            final(self).wf(),
            final(self).root() == old(self).root(),
            final(self).beta_table() == loaded(old(self).beta_table(), read),
            match final(self).beta_table() {
                Some(table) => r == Ok::<&SpectrumTable<BetSpectrum>, Error>(&table),
                None => read is Err && r == Err::<&SpectrumTable<BetSpectrum>, Error>(read->Err_0),
            },
            final(self).index_table() == old(self).index_table(),
            final(self).discrete_table() == old(self).discrete_table(),
            final(self).auger_table() == old(self).auger_table(),
            final(self).fission_neutron_table() == old(self).fission_neutron_table(),
    {
        self.store.bet(read)
    }

    /// The table of the spectra of Auger and Coster-Kronig electrons, if it is
    /// loaded. Where it is not, the file [`ACK_FILE`] is to be read and handed
    /// to [`Self::ack`].
    pub fn auger(&self) -> (r: Option<&SpectrumTable<AckSpectrum>>)
        requires
            self.wf(),
        ensures
            r == match self.auger_table() {
                Some(table) => Some(&table),
                None => None,
            },
    {
        self.store.auger()
    }

    /// The table of the spectra of Auger and Coster-Kronig electrons, which is
    /// loaded with this call if it was not loaded before. `read` is what came
    /// of reading the file [`ACK_FILE`] and building the table: it is kept if
    /// it is a table and none was loaded, and is not looked at if one was.
    /// Where no table was loaded and `read` is an error, that error is returned
    /// and the dataset stays as it was, so that the table can be asked for
    /// again.
    pub fn ack(&mut self, read: Result<SpectrumTable<AckSpectrum>, Error>) -> (r: Result<
        &SpectrumTable<AckSpectrum>,
        Error,
    >)
        requires
            old(self).wf(),
        ensures
            final(self).wf(),
            final(self).root() == old(self).root(),
            final(self).auger_table() == loaded(old(self).auger_table(), read),
            match final(self).auger_table() {
                Some(table) => r == Ok::<&SpectrumTable<AckSpectrum>, Error>(&table),
                None => read is Err && r == Err::<&SpectrumTable<AckSpectrum>, Error>(read->Err_0),
            },
            final(self).index_table() == old(self).index_table(),
            final(self).discrete_table() == old(self).discrete_table(),
            final(self).beta_table() == old(self).beta_table(),
            final(self).fission_neutron_table() == old(self).fission_neutron_table(),
    {
        self.store.ack(read)
    }

    /// The table of the spectra of neutrons from spontaneous fission, if it is
    /// loaded. Where it is not, the file [`NSF_FILE`] is to be read and handed
    /// to [`Self::nsf`].
    pub fn fission_neutron(&self) -> (r: Option<&SpectrumTable<NsfSpectrum>>)
        requires
            self.wf(),
        ensures
            r == match self.fission_neutron_table() {
                Some(table) => Some(&table),
                None => None,
            },
    {
        self.store.fission_neutron()
    }

    /// The table of the spectra of neutrons from spontaneous fission, which is
    /// loaded with this call if it was not loaded before. `read` is what came
    /// of reading the file [`NSF_FILE`] and building the table: it is kept if
    /// it is a table and none was loaded, and is not looked at if one was.
    /// Where no table was loaded and `read` is an error, that error is returned
    /// and the dataset stays as it was, so that the table can be asked for
    /// again.
    pub fn nsf(&mut self, read: Result<SpectrumTable<NsfSpectrum>, Error>) -> (r: Result<
        &SpectrumTable<NsfSpectrum>,
        Error,
    >)
        requires
            old(self).wf(),
        ensures
            final(self).wf(),
            final(self).root() == old(self).root(),
            final(self).fission_neutron_table() == loaded(old(self).fission_neutron_table(), read),
            match final(self).fission_neutron_table() {
                Some(table) => r == Ok::<&SpectrumTable<NsfSpectrum>, Error>(&table),
                None => read is Err && r == Err::<&SpectrumTable<NsfSpectrum>, Error>(read->Err_0),
            },
            final(self).index_table() == old(self).index_table(),
            final(self).discrete_table() == old(self).discrete_table(),
            final(self).beta_table() == old(self).beta_table(),
            final(self).auger_table() == old(self).auger_table(),
    {
        self.store.nsf(read)
    }
}

/// The lookups of a dataset. Each of them goes by the index, which is loaded
/// with the call if it was not loaded before: `read` is what came of reading
/// the file [`NDX_FILE`] and building the index, and is not looked at if the
/// index was loaded. Where no index was loaded and `read` is an error, that
/// error is returned as it is and the dataset stays as it was. Otherwise the
/// lookup answers for the nuclides that the index holds, and refuses every
/// other nuclide as [`Error::InvalidNuclide`] with the name of the nuclide.
impl Icrp107 {
    /// Whether the index holds `nuclide`.
    pub fn check_nuclide(&mut self, read: Result<IndexTable, Error>, nuclide: Nuclide) -> (r:
        Result<(), Error>)
        requires
            old(self).wf(),
        ensures
            final(self).wf(),
            final(self).root() == old(self).root(),
            final(self).index_table() == loaded(old(self).index_table(), read),
            final(self).discrete_table() == old(self).discrete_table(),
            final(self).beta_table() == old(self).beta_table(),
            final(self).auger_table() == old(self).auger_table(),
            final(self).fission_neutron_table() == old(self).fission_neutron_table(),
            match final(self).index_table() {
                Some(table) => if table@.contains_key(nuclide@.key()) {
                    r is Ok
                } else {
                    r matches Err(Error::InvalidNuclide(name)) && name@ == nuclide@.text()
                },
                None => read is Err && r == Err::<(), Error>(read->Err_0),
            },
    {
        match self.ndx(read) {
            Ok(table) => table.check_nuclide(nuclide),
            Err(e) => Err(e),
        }
    }

    /// The nuclides that the decay of `nuclide` produces, in the order of the
    /// index.
    pub fn progeny(&mut self, read: Result<IndexTable, Error>, nuclide: Nuclide) -> (r: Result<
        &[Progeny],
        Error,
    >)
        requires
            old(self).wf(),
        ensures
            final(self).wf(),
            final(self).root() == old(self).root(),
            final(self).index_table() == loaded(old(self).index_table(), read),
            final(self).discrete_table() == old(self).discrete_table(),
            final(self).beta_table() == old(self).beta_table(),
            final(self).auger_table() == old(self).auger_table(),
            final(self).fission_neutron_table() == old(self).fission_neutron_table(),
            match final(self).index_table() {
                Some(table) => if table@.contains_key(nuclide@.key()) {
                    r matches Ok(progeny) && progeny@ == table@[nuclide@.key()].progeny@
                } else {
                    r matches Err(Error::InvalidNuclide(name)) && name@ == nuclide@.text()
                },
                None => read is Err && r == Err::<&[Progeny], Error>(read->Err_0),
            },
    {
        match self.ndx(read) {
            Ok(table) => table.progeny(nuclide),
            Err(e) => Err(e),
        }
    }

    /// The half-life of `nuclide`.
    pub fn half_life(&mut self, read: Result<IndexTable, Error>, nuclide: Nuclide) -> (r: Result<
        HalfLife,
        Error,
    >)
        requires
            old(self).wf(),
        ensures
            final(self).wf(),
            final(self).root() == old(self).root(),
            final(self).index_table() == loaded(old(self).index_table(), read),
            final(self).discrete_table() == old(self).discrete_table(),
            final(self).beta_table() == old(self).beta_table(),
            final(self).auger_table() == old(self).auger_table(),
            final(self).fission_neutron_table() == old(self).fission_neutron_table(),
            match final(self).index_table() {
                Some(table) => if table@.contains_key(nuclide@.key()) {
                    r matches Ok(half_life) && half_life@ == table@[nuclide@.key()].half_life@
                } else {
                    r matches Err(Error::InvalidNuclide(name)) && name@ == nuclide@.text()
                },
                None => read is Err && r == Err::<HalfLife, Error>(read->Err_0),
            },
    {
        match self.ndx(read) {
            Ok(table) => table.half_life(nuclide),
            Err(e) => Err(e),
        }
    }
}

} // verus!
