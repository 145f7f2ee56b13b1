//! A dataset: the directory of its files and the tables that were loaded from
//! them. Each table is loaded at most once and does not change afterwards.
//!
//! The library reads no file. A caller asks for a table; where its cell is
//! empty, the caller reads the file of the table, builds the table from its
//! records, and hands in what came of that. A table that could not be read or
//! built leaves the cell empty, so that it can be tried again; a table that
//! is there is never replaced.

pub mod icrp107;

use vstd::prelude::*;
use vstd::string::StringExecFns;
use once_cell::sync::OnceCell;
use crate::cell::{held, slot_get, slot_new, slot_set, Table};
use crate::decay::DecayData;
use crate::error::Error;
use crate::half_life::HalfLife;
use crate::nuclide::Nuclide;
use crate::table::{
    AckSpectrum, BetSpectrum, IndexTable, NsfSpectrum, Progeny, RadSpectrum, SpectrumTable,
};

verus! {

/// The name of the file that holds the index of the nuclides.
pub const NDX_FILE: &'static str = "ICRP-07.NDX";

/// The name of the file that holds the spectra of discrete radiations.
pub const RAD_FILE: &'static str = "ICRP-07.RAD";

/// The name of the file that holds the beta spectra.
pub const BET_FILE: &'static str = "ICRP-07.BET";

/// The name of the file that holds the spectra of Auger and Coster-Kronig
/// electrons.
pub const ACK_FILE: &'static str = "ICRP-07.ACK";

/// The name of the file that holds the spectra of neutrons from spontaneous
/// fission.
pub const NSF_FILE: &'static str = "ICRP-07.NSF";

/// Fills `cell` with the table of `outcome` if it is empty and there is such
/// a table, and hands out what it holds then, or else the error of `outcome`.
pub(crate) fn fill(cell: &mut OnceCell<Table>, outcome: Result<Table, Error>) -> (r: Result<
    &Table,
    Error,
>)
    ensures
        held(*final(cell)) == loaded(held(*old(cell)), outcome),
        match held(*final(cell)) {
            Some(table) => r == Ok::<&Table, Error>(&table),
            None => outcome is Err && r == Err::<&Table, Error>(outcome->Err_0),
        },
{
    if slot_get(cell).is_none() {
        match outcome {
            Ok(table) => {
                let _ = slot_set(cell, table);
            },
            Err(e) => {
                return Err(e);
            },
        }
    }
    match slot_get(cell) {
        Some(table) => Ok(table),
        None => Err(Error::InvalidFilePath),
    }
}

/// The directory of a dataset and one cell for each of its tables.
pub(crate) struct Store {
    pub root: String,
    pub ndx: OnceCell<Table>,
    pub rad: OnceCell<Table>,
    pub bet: OnceCell<Table>,
    pub ack: OnceCell<Table>,
    pub nsf: OnceCell<Table>,
}

impl Store {
    /// Each cell holds nothing or a table of its own kind.
    pub(crate) open spec fn wf(&self) -> bool {
        &&& held(self.ndx) matches Some(table) ==> table is Index
        &&& held(self.rad) matches Some(table) ==> table is Rad
        &&& held(self.bet) matches Some(table) ==> table is Bet
        &&& held(self.ack) matches Some(table) ==> table is Ack
        &&& held(self.nsf) matches Some(table) ==> table is Nsf
    }

    /// A dataset in the directory `path`, with no table loaded.
    pub(crate) fn open(path: &str) -> (r: Store)
        ensures
            r.wf(),
            r.root@ == path@,
            held(r.ndx) is None,
            held(r.rad) is None,
            held(r.bet) is None,
            held(r.ack) is None,
            held(r.nsf) is None,
    {
        Store {
            root: String::from_str(path),
            ndx: slot_new(),
            rad: slot_new(),
            bet: slot_new(),
            ack: slot_new(),
            nsf: slot_new(),
        }
    }

    /// The table in the cell `ndx`, as a table of its kind.
    pub(crate) open spec fn index_spec(&self) -> Option<IndexTable> {
        match held(self.ndx) {
            Some(Table::Index(table)) => Some(table),
            _ => None,
        }
    }

    /// The table in the cell `ndx`, if it is loaded.
    pub(crate) fn index(&self) -> (r: Option<&IndexTable>)
        requires
            self.wf(),
        ensures
            r == match self.index_spec() {
                Some(table) => Some(&table),
                None => None,
            },
    {
        match slot_get(&self.ndx) {
            Some(Table::Index(table)) => Some(table),
            _ => None,
        }
    }

    /// Loads the table of the cell `ndx` if it is not loaded, and hands
    /// it out.
    pub(crate) fn ndx(&mut self, read: Result<IndexTable, Error>) -> (r: Result<&IndexTable, Error>)
        requires
            old(self).wf(),
        ensures
            final(self).wf(),
            final(self).root == old(self).root,
            final(self).index_spec() == loaded(old(self).index_spec(), read),
            match final(self).index_spec() {
                Some(table) => r == Ok::<&IndexTable, Error>(&table),
                None => read is Err && r == Err::<&IndexTable, Error>(read->Err_0),
            },
            final(self).rad == old(self).rad,
            final(self).bet == old(self).bet,
            final(self).ack == old(self).ack,
            final(self).nsf == old(self).nsf,
    {
        let outcome = match read {
            Ok(table) => Ok(Table::Index(table)),
            Err(e) => Err(e),
        };
        match fill(&mut self.ndx, outcome) {
            Ok(Table::Index(table)) => Ok(table),
            Ok(_) => Err(Error::InvalidFilePath),
            Err(e) => Err(e),
        }
    }

    /// The table in the cell `rad`, as a table of its kind.
    pub(crate) open spec fn discrete_spec(&self) -> Option<SpectrumTable<RadSpectrum>> {
        match held(self.rad) {
            Some(Table::Rad(table)) => Some(table),
            _ => None,
        }
    }

    /// The table in the cell `rad`, if it is loaded.
    pub(crate) fn discrete(&self) -> (r: Option<&SpectrumTable<RadSpectrum>>)
        requires
            self.wf(),
        ensures
            r == match self.discrete_spec() {
                Some(table) => Some(&table),
                None => None,
            },
    {
        match slot_get(&self.rad) {
            Some(Table::Rad(table)) => Some(table),
            _ => None,
        }
    }

    /// Loads the table of the cell `rad` if it is not loaded, and hands
    /// it out.
    pub(crate) fn rad(&mut self, read: Result<SpectrumTable<RadSpectrum>, Error>) -> (r: Result<
        &SpectrumTable<RadSpectrum>,
        Error,
    >)
        requires
            old(self).wf(),
        ensures
            final(self).wf(),
            final(self).root == old(self).root,
            final(self).discrete_spec() == loaded(old(self).discrete_spec(), read),
            match final(self).discrete_spec() {
                Some(table) => r == Ok::<&SpectrumTable<RadSpectrum>, Error>(&table),
                None => read is Err && r == Err::<&SpectrumTable<RadSpectrum>, Error>(read->Err_0),
            },
            final(self).ndx == old(self).ndx,
            final(self).bet == old(self).bet,
            final(self).ack == old(self).ack,
            final(self).nsf == old(self).nsf,
    {
        let outcome = match read {
            Ok(table) => Ok(Table::Rad(table)),
            Err(e) => Err(e),
        };
        match fill(&mut self.rad, outcome) {
            Ok(Table::Rad(table)) => Ok(table),
            Ok(_) => Err(Error::InvalidFilePath),
            Err(e) => Err(e),
        }
    }

    /// The table in the cell `bet`, as a table of its kind.
    pub(crate) open spec fn beta_spec(&self) -> Option<SpectrumTable<BetSpectrum>> {
        match held(self.bet) {
            Some(Table::Bet(table)) => Some(table),
            _ => None,
        }
    }

    /// The table in the cell `bet`, if it is loaded.
    pub(crate) fn beta(&self) -> (r: Option<&SpectrumTable<BetSpectrum>>)
        requires
            self.wf(),
        ensures
            r == match self.beta_spec() {
                Some(table) => Some(&table),
                None => None,
            },
    {
        match slot_get(&self.bet) {
            Some(Table::Bet(table)) => Some(table),
            _ => None,
        }
    }

    /// Loads the table of the cell `bet` if it is not loaded, and hands
    /// it out.
    pub(crate) fn bet(&mut self, read: Result<SpectrumTable<BetSpectrum>, Error>) -> (r: Result<
        &SpectrumTable<BetSpectrum>,
        Error,
    >)
        requires
            old(self).wf(),
        ensures
            final(self).wf(),
            final(self).root == old(self).root,
            final(self).beta_spec() == loaded(old(self).beta_spec(), read),
            match final(self).beta_spec() {
                Some(table) => r == Ok::<&SpectrumTable<BetSpectrum>, Error>(&table),
                None => read is Err && r == Err::<&SpectrumTable<BetSpectrum>, Error>(read->Err_0),
            },
            final(self).ndx == old(self).ndx,
            final(self).rad == old(self).rad,
            final(self).ack == old(self).ack,
            final(self).nsf == old(self).nsf,
    {
        let outcome = match read {
            Ok(table) => Ok(Table::Bet(table)),
            Err(e) => Err(e),
        };
        match fill(&mut self.bet, outcome) {
            Ok(Table::Bet(table)) => Ok(table),
            Ok(_) => Err(Error::InvalidFilePath),
            Err(e) => Err(e),
        }
    }

    /// The table in the cell `ack`, as a table of its kind.
    pub(crate) open spec fn auger_spec(&self) -> Option<SpectrumTable<AckSpectrum>> {
        match held(self.ack) {
            Some(Table::Ack(table)) => Some(table),
            _ => None,
        }
    }

    /// The table in the cell `ack`, if it is loaded.
    pub(crate) fn auger(&self) -> (r: Option<&SpectrumTable<AckSpectrum>>)
        requires
            self.wf(),
        ensures
            r == match self.auger_spec() {
                Some(table) => Some(&table),
                None => None,
            },
    {
        match slot_get(&self.ack) {
            Some(Table::Ack(table)) => Some(table),
            _ => None,
        }
    }

    /// Loads the table of the cell `ack` if it is not loaded, and hands
    /// it out.
    pub(crate) fn ack(&mut self, read: Result<SpectrumTable<AckSpectrum>, Error>) -> (r: Result<
        &SpectrumTable<AckSpectrum>,
        Error,
    >)
        requires
            old(self).wf(),
        ensures
            final(self).wf(),
            final(self).root == old(self).root,
            final(self).auger_spec() == loaded(old(self).auger_spec(), read),
            match final(self).auger_spec() {
                Some(table) => r == Ok::<&SpectrumTable<AckSpectrum>, Error>(&table),
                None => read is Err && r == Err::<&SpectrumTable<AckSpectrum>, Error>(read->Err_0),
            },
            final(self).ndx == old(self).ndx,
            final(self).rad == old(self).rad,
            final(self).bet == old(self).bet,
            final(self).nsf == old(self).nsf,
    {
        let outcome = match read {
            Ok(table) => Ok(Table::Ack(table)),
            Err(e) => Err(e),
        };
        match fill(&mut self.ack, outcome) {
            Ok(Table::Ack(table)) => Ok(table),
            Ok(_) => Err(Error::InvalidFilePath),
            Err(e) => Err(e),
        }
    }

    /// The table in the cell `nsf`, as a table of its kind.
    pub(crate) open spec fn fission_neutron_spec(&self) -> Option<SpectrumTable<NsfSpectrum>> {
        match held(self.nsf) {
            Some(Table::Nsf(table)) => Some(table),
            _ => None,
        }
    }

    /// The table in the cell `nsf`, if it is loaded.
    pub(crate) fn fission_neutron(&self) -> (r: Option<&SpectrumTable<NsfSpectrum>>)
        requires
            self.wf(),
        ensures
            r == match self.fission_neutron_spec() {
                Some(table) => Some(&table),
                None => None,
            },
    {
        match slot_get(&self.nsf) {
            Some(Table::Nsf(table)) => Some(table),
            _ => None,
        }
    }

    /// Loads the table of the cell `nsf` if it is not loaded, and hands
    /// it out.
    pub(crate) fn nsf(&mut self, read: Result<SpectrumTable<NsfSpectrum>, Error>) -> (r: Result<
        &SpectrumTable<NsfSpectrum>,
        Error,
    >)
        requires
            old(self).wf(),
        ensures
            final(self).wf(),
            final(self).root == old(self).root,
            final(self).fission_neutron_spec() == loaded(old(self).fission_neutron_spec(), read),
            match final(self).fission_neutron_spec() {
                Some(table) => r == Ok::<&SpectrumTable<NsfSpectrum>, Error>(&table),
                None => read is Err && r == Err::<&SpectrumTable<NsfSpectrum>, Error>(read->Err_0),
            },
            final(self).ndx == old(self).ndx,
            final(self).rad == old(self).rad,
            final(self).bet == old(self).bet,
            final(self).ack == old(self).ack,
    {
        let outcome = match read {
            Ok(table) => Ok(Table::Nsf(table)),
            Err(e) => Err(e),
        };
        match fill(&mut self.nsf, outcome) {
            Ok(Table::Nsf(table)) => Ok(table),
            Ok(_) => Err(Error::InvalidFilePath),
            Err(e) => Err(e),
        }
    }
}

/// What a cell holds after a table was asked for: what it held before, or
/// else the table that was read, or else nothing.
pub open spec fn loaded<T>(before: Option<T>, read: Result<T, Error>) -> Option<T> {
    match before {
        Some(table) => Some(table),
        None => match read {
            Ok(table) => Some(table),
            Err(_) => None,
        },
    }
}

/// A dataset of nuclides in one directory: its index and its four tables of
/// spectra.
pub struct NuclideData {
    store: Store,
}

impl NuclideData {
    /// Each cell of the dataset holds nothing or a table of its own kind.
    pub closed spec fn wf(&self) -> bool {
        self.store.wf()
    }

    /// The directory of the dataset.
    pub closed spec fn root(&self) -> Seq<char> {
        self.store.root@
    }

    /// The table of the index of the nuclides, once it is loaded.
    pub closed spec fn index_table(&self) -> Option<IndexTable> {
        self.store.index_spec()
    }

    /// The table of the spectra of discrete radiations, once it is loaded.
    pub closed spec fn discrete_table(&self) -> Option<SpectrumTable<RadSpectrum>> {
        self.store.discrete_spec()
    }

    /// The table of the beta spectra, once it is loaded.
    pub closed spec fn beta_table(&self) -> Option<SpectrumTable<BetSpectrum>> {
        self.store.beta_spec()
    }

    /// The table of the spectra of Auger and Coster-Kronig electrons, once it
    /// is loaded.
    pub closed spec fn auger_table(&self) -> Option<SpectrumTable<AckSpectrum>> {
        self.store.auger_spec()
    }

    /// The table of the spectra of neutrons from spontaneous fission, once it
    /// is loaded.
    pub closed spec fn fission_neutron_table(&self) -> Option<SpectrumTable<NsfSpectrum>> {
        self.store.fission_neutron_spec()
    }

    /// Opens the dataset in the directory `path`. No file is read and no table
    /// is loaded yet.
    pub fn open(path: &str) -> (r: Result<NuclideData, Error>)
        ensures
            r matches Ok(dataset) && dataset.wf() && dataset.root() == path@
                && dataset.index_table() is None && dataset.discrete_table() is None
                && dataset.beta_table() is None && dataset.auger_table() is None
                && dataset.fission_neutron_table() is None,
    {
        Ok(NuclideData { store: Store::open(path) })
    }

    /// The directory of the dataset.
    pub fn path(&self) -> (r: &str)
        ensures
            r@ == self.root(),
    {
        self.store.root.as_str()
    }

    /// The table of the index of the nuclides, if it is loaded. Where it is
    /// not, the file [`NDX_FILE`] is to be read and handed to [`Self::ndx`].
    pub fn index(&self) -> (r: Option<&IndexTable>)
        requires
            self.wf(),
        ensures
            r == match self.index_table() {
                Some(table) => Some(&table),
                None => None,
            },
    {
        self.store.index()
    }

    /// The table of the index of the nuclides, which is loaded with this call
    /// if it was not loaded before. `read` is what came of reading the file
    /// [`NDX_FILE`] and building the table: it is kept if it is a table and
    /// none was loaded, and is not looked at if one was. Where no table was
    /// loaded and `read` is an error, that error is returned and the dataset
    /// stays as it was, so that the table can be asked for again.
    pub fn ndx(&mut self, read: Result<IndexTable, Error>) -> (r: Result<&IndexTable, Error>)
        requires
            old(self).wf(),
        ensures
            final(self).wf(),
            final(self).root() == old(self).root(),
            final(self).index_table() == loaded(old(self).index_table(), read),
            match final(self).index_table() {
                Some(table) => r == Ok::<&IndexTable, Error>(&table),
                None => read is Err && r == Err::<&IndexTable, Error>(read->Err_0),
            },
            final(self).discrete_table() == old(self).discrete_table(),
            final(self).beta_table() == old(self).beta_table(),
            final(self).auger_table() == old(self).auger_table(),
            final(self).fission_neutron_table() == old(self).fission_neutron_table(),
    {
        self.store.ndx(read)
    }

    /// The table of the spectra of discrete radiations, if it is loaded. Where
    /// it is not, the file [`RAD_FILE`] is to be read and handed to
    /// [`Self::rad`].
    pub fn discrete(&self) -> (r: Option<&SpectrumTable<RadSpectrum>>)
        requires
            self.wf(),
        ensures
            r == match self.discrete_table() {
                Some(table) => Some(&table),
                None => None,
            },
    {
        self.store.discrete()
    }

    /// The table of the spectra of discrete radiations, which is loaded with
    /// this call if it was not loaded before. `read` is what came of reading
    /// the file [`RAD_FILE`] and building the table: it is kept if it is a
    /// table and none was loaded, and is not looked at if one was. Where no
    /// table was loaded and `read` is an error, that error is returned and the
    /// dataset stays as it was, so that the table can be asked for again.
    pub fn rad(&mut self, read: Result<SpectrumTable<RadSpectrum>, Error>) -> (r: Result<
        &SpectrumTable<RadSpectrum>,
        Error,
    >)
        requires
            old(self).wf(),
        ensures
            final(self).wf(),
            final(self).root() == old(self).root(),
            final(self).discrete_table() == loaded(old(self).discrete_table(), read),
            match final(self).discrete_table() {
                Some(table) => r == Ok::<&SpectrumTable<RadSpectrum>, Error>(&table),
                None => read is Err && r == Err::<&SpectrumTable<RadSpectrum>, Error>(read->Err_0),
            },
            final(self).index_table() == old(self).index_table(),
            final(self).beta_table() == old(self).beta_table(),
            final(self).auger_table() == old(self).auger_table(),
            final(self).fission_neutron_table() == old(self).fission_neutron_table(),
    {
        self.store.rad(read)
    }

    /// The table of the beta spectra, if it is loaded. Where it is not, the
    /// file [`BET_FILE`] is to be read and handed to [`Self::bet`].
    pub fn beta(&self) -> (r: Option<&SpectrumTable<BetSpectrum>>)
        requires
            self.wf(),
        ensures
            r == match self.beta_table() {
                Some(table) => Some(&table),
                None => None,
            },
    {
        self.store.beta()
    }

    /// The table of the beta spectra, which is loaded with this call if it was
    /// not loaded before. `read` is what came of reading the file [`BET_FILE`]
    /// and building the table: it is kept if it is a table and none was loaded,
    /// and is not looked at if one was. Where no table was loaded and `read` is
    /// an error, that error is returned and the dataset stays as it was, so
    /// that the table can be asked for again.
    pub fn bet(&mut self, read: Result<SpectrumTable<BetSpectrum>, Error>) -> (r: Result<
        &SpectrumTable<BetSpectrum>,
        Error,
    >)
        requires
            old(self).wf(),
        ensures
            final(self).wf(),
            final(self).root() == old(self).root(),
            final(self).beta_table() == loaded(old(self).beta_table(), read),
            match final(self).beta_table() {
                Some(table) => r == Ok::<&SpectrumTable<BetSpectrum>, Error>(&table),
                None => read is Err && r == Err::<&SpectrumTable<BetSpectrum>, Error>(read->Err_0),
            },
            final(self).index_table() == old(self).index_table(),
            final(self).discrete_table() == old(self).discrete_table(),
            final(self).auger_table() == old(self).auger_table(),
            final(self).fission_neutron_table() == old(self).fission_neutron_table(),
    {
        self.store.bet(read)
    }

    /// The table of the spectra of Auger and Coster-Kronig electrons, if it is
    /// loaded. Where it is not, the file [`ACK_FILE`] is to be read and handed
    /// to [`Self::ack`].
    pub fn auger(&self) -> (r: Option<&SpectrumTable<AckSpectrum>>)
        requires
            self.wf(),
        ensures
            r == match self.auger_table() {
                Some(table) => Some(&table),
                None => None,
            },
    {
        self.store.auger()
    }

    /// The table of the spectra of Auger and Coster-Kronig electrons, which is
    /// loaded with this call if it was not loaded before. `read` is what came
    /// of reading the file [`ACK_FILE`] and building the table: it is kept if
    /// it is a table and none was loaded, and is not looked at if one was.
    /// Where no table was loaded and `read` is an error, that error is returned
    /// and the dataset stays as it was, so that the table can be asked for
    /// again.
    pub fn ack(&mut self, read: Result<SpectrumTable<AckSpectrum>, Error>) -> (r: Result<
        &SpectrumTable<AckSpectrum>,
        Error,
    >)
        requires
            old(self).wf(),
        ensures
            final(self).wf(),
            final(self).root() == old(self).root(),
            final(self).auger_table() == loaded(old(self).auger_table(), read),
            match final(self).auger_table() {
                Some(table) => r == Ok::<&SpectrumTable<AckSpectrum>, Error>(&table),
                None => read is Err && r == Err::<&SpectrumTable<AckSpectrum>, Error>(read->Err_0),
            },
            final(self).index_table() == old(self).index_table(),
            final(self).discrete_table() == old(self).discrete_table(),
            final(self).beta_table() == old(self).beta_table(),
            final(self).fission_neutron_table() == old(self).fission_neutron_table(),
    {
        self.store.ack(read)
    }

    /// The table of the spectra of neutrons from spontaneous fission, if it is
    /// loaded. Where it is not, the file [`NSF_FILE`] is to be read and handed
    /// to [`Self::nsf`].
    pub fn fission_neutron(&self) -> (r: Option<&SpectrumTable<NsfSpectrum>>)
        requires
            self.wf(),
        ensures
            r == match self.fission_neutron_table() {
                Some(table) => Some(&table),
                None => None,
            },
    {
        self.store.fission_neutron()
    }

    /// The table of the spectra of neutrons from spontaneous fission, which is
    /// loaded with this call if it was not loaded before. `read` is what came
    /// of reading the file [`NSF_FILE`] and building the table: it is kept if
    /// it is a table and none was loaded, and is not looked at if one was.
    /// Where no table was loaded and `read` is an error, that error is returned
    /// and the dataset stays as it was, so that the table can be asked for
    /// again.
    pub fn nsf(&mut self, read: Result<SpectrumTable<NsfSpectrum>, Error>) -> (r: Result<
        &SpectrumTable<NsfSpectrum>,
        Error,
    >)
        requires
            old(self).wf(),
        ensures
            final(self).wf(),
            final(self).root() == old(self).root(),
            final(self).fission_neutron_table() == loaded(old(self).fission_neutron_table(), read),
            match final(self).fission_neutron_table() {
                Some(table) => r == Ok::<&SpectrumTable<NsfSpectrum>, Error>(&table),
                None => read is Err && r == Err::<&SpectrumTable<NsfSpectrum>, Error>(read->Err_0),
            },
            final(self).index_table() == old(self).index_table(),
            final(self).discrete_table() == old(self).discrete_table(),
            final(self).beta_table() == old(self).beta_table(),
            final(self).auger_table() == old(self).auger_table(),
    {
        self.store.nsf(read)
    }
}

/// The lookups of a dataset. Each of them goes by the index, which is loaded
/// with the call if it was not loaded before: `read` is what came of reading
/// the file [`NDX_FILE`] and building the index, and is not looked at if the
/// index was loaded. Where no index was loaded and `read` is an error, that
/// error is returned as it is and the dataset stays as it was. Otherwise the
/// lookup answers for the nuclides that the index holds, and refuses every
/// other nuclide as [`Error::InvalidNuclide`] with the name of the nuclide.
impl NuclideData {
    /// Whether the index holds `nuclide`.
    pub fn check_nuclide(&mut self, read: Result<IndexTable, Error>, nuclide: Nuclide) -> (r:
        Result<(), Error>)
        requires
            old(self).wf(),
        ensures
            final(self).wf(),
            final(self).root() == old(self).root(),
            final(self).index_table() == loaded(old(self).index_table(), read),
            final(self).discrete_table() == old(self).discrete_table(),
            final(self).beta_table() == old(self).beta_table(),
            final(self).auger_table() == old(self).auger_table(),
            final(self).fission_neutron_table() == old(self).fission_neutron_table(),
            match final(self).index_table() {
                Some(table) => if table@.contains_key(nuclide@.key()) {
                    r is Ok
                } else {
                    r matches Err(Error::InvalidNuclide(name)) && name@ == nuclide@.text()
                },
                None => read is Err && r == Err::<(), Error>(read->Err_0),
            },
    {
        match self.ndx(read) {
            Ok(table) => table.check_nuclide(nuclide),
            Err(e) => Err(e),
        }
    }

    /// The nuclides that the decay of `nuclide` produces, in the order of the
    /// index.
    pub fn progeny(&mut self, read: Result<IndexTable, Error>, nuclide: Nuclide) -> (r: Result<
        &[Progeny],
        Error,
    >)
        requires
            old(self).wf(),
        ensures
            final(self).wf(),
            final(self).root() == old(self).root(),
            final(self).index_table() == loaded(old(self).index_table(), read),
            final(self).discrete_table() == old(self).discrete_table(),
            final(self).beta_table() == old(self).beta_table(),
            final(self).auger_table() == old(self).auger_table(),
            final(self).fission_neutron_table() == old(self).fission_neutron_table(),
            match final(self).index_table() {
                Some(table) => if table@.contains_key(nuclide@.key()) {
                    r matches Ok(progeny) && progeny@ == table@[nuclide@.key()].progeny@
                } else {
                    r matches Err(Error::InvalidNuclide(name)) && name@ == nuclide@.text()
                },
                None => read is Err && r == Err::<&[Progeny], Error>(read->Err_0),
            },
    {
        match self.ndx(read) {
            Ok(table) => table.progeny(nuclide),
            Err(e) => Err(e),
        }
    }

    /// The half-life of `nuclide`.
    pub fn half_life(&mut self, read: Result<IndexTable, Error>, nuclide: Nuclide) -> (r: Result<
        HalfLife,
        Error,
    >)
        requires
            old(self).wf(),
        ensures
            final(self).wf(),
            final(self).root() == old(self).root(),
            final(self).index_table() == loaded(old(self).index_table(), read),
            final(self).discrete_table() == old(self).discrete_table(),
            final(self).beta_table() == old(self).beta_table(),
            final(self).auger_table() == old(self).auger_table(),
            final(self).fission_neutron_table() == old(self).fission_neutron_table(),
            match final(self).index_table() {
                Some(table) => if table@.contains_key(nuclide@.key()) {
                    r matches Ok(half_life) && half_life@ == table@[nuclide@.key()].half_life@
                } else {
                    r matches Err(Error::InvalidNuclide(name)) && name@ == nuclide@.text()
                },
                None => read is Err && r == Err::<HalfLife, Error>(read->Err_0),
            },
    {
        match self.ndx(read) {
            Ok(table) => table.half_life(nuclide),
            Err(e) => Err(e),
        }
    }
}

/// The lookups of a dataset that answer with nothing for a nuclide that the
/// index lacks. They load the index as the other lookups do, and return the
/// error of `read` as it is where no index was loaded and `read` is an error.
impl NuclideData {
    /// The nuclides that the decay of `nuclide` produces, in the order of the
    /// index, if the index holds the nuclide.
    pub fn get_progeny(&mut self, read: Result<IndexTable, Error>, nuclide: &Nuclide) -> (r:
        Result<Option<Vec<Progeny>>, Error>)
        requires
            old(self).wf(),
        ensures
            final(self).wf(),
            final(self).root() == old(self).root(),
            final(self).index_table() == loaded(old(self).index_table(), read),
            final(self).discrete_table() == old(self).discrete_table(),
            final(self).beta_table() == old(self).beta_table(),
            final(self).auger_table() == old(self).auger_table(),
            final(self).fission_neutron_table() == old(self).fission_neutron_table(),
            match final(self).index_table() {
                Some(table) => if table@.contains_key(nuclide@.key()) {
                    let listed = table@[nuclide@.key()].progeny@;
                    &&& r matches Ok(Some(progeny))
                    &&& progeny@.len() == listed.len()
                    &&& forall|i: int|
                        0 <= i < listed.len() ==> (#[trigger] progeny@[i])@ == listed[i]@
                } else {
                    r matches Ok(None)
                },
                None => read is Err && r == Err::<Option<Vec<Progeny>>, Error>(read->Err_0),
            },
    {
        match self.ndx(read) {
            Ok(table) => match table.get(*nuclide) {
                Some(attribute) => Ok(Some(attribute.progeny.clone())),
                None => Ok(None),
            },
            Err(e) => Err(e),
        }
    }

    /// The half-life of `nuclide`, if the index holds the nuclide.
    pub fn get_half_life(&mut self, read: Result<IndexTable, Error>, nuclide: &Nuclide) -> (r:
        Result<Option<HalfLife>, Error>)
        requires
            old(self).wf(),
        ensures
            final(self).wf(),
            final(self).root() == old(self).root(),
            final(self).index_table() == loaded(old(self).index_table(), read),
            final(self).discrete_table() == old(self).discrete_table(),
            final(self).beta_table() == old(self).beta_table(),
            final(self).auger_table() == old(self).auger_table(),
            final(self).fission_neutron_table() == old(self).fission_neutron_table(),
            match final(self).index_table() {
                Some(table) => if table@.contains_key(nuclide@.key()) {
                    let listed = table@[nuclide@.key()];
                    r matches Ok(Some(half_life)) && half_life@ == listed.half_life@
                } else {
                    r matches Ok(None)
                },
                None => read is Err && r == Err::<Option<HalfLife>, Error>(read->Err_0),
            },
    {
        match self.ndx(read) {
            Ok(table) => match table.get(*nuclide) {
                Some(attribute) => Ok(Some(attribute.half_life.clone())),
                None => Ok(None),
            },
            Err(e) => Err(e),
        }
    }
}

} // verus!
