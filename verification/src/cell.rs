//! Slots that are filled once: the cells in which a dataset keeps its tables.
//!
//! Nothing in this file is proved. It states what the library takes from the
//! crate `once_cell`, whose cells it changes through exclusive references
//! only.

use vstd::prelude::*;
use once_cell::sync::OnceCell;
use crate::table::{AckSpectrum, BetSpectrum, IndexTable, NsfSpectrum, RadSpectrum, SpectrumTable};

verus! {

/// A table of any of the five kinds, as a cell holds it.
pub enum Table {
    Index(IndexTable),
    Rad(SpectrumTable<RadSpectrum>),
    Bet(SpectrumTable<BetSpectrum>),
    Ack(SpectrumTable<AckSpectrum>),
    Nsf(SpectrumTable<NsfSpectrum>),
}

/// `once_cell::sync::OnceCell`, a cell that is empty or holds one value.
/// Nothing of its inside is known here.
#[verifier::external_type_specification]
#[verifier::external_body]
#[verifier::reject_recursive_types(T)]
pub struct ExOnceCell<T>(OnceCell<T>);

/// What a cell holds: nothing, or the one table that it was filled with.
pub uninterp spec fn held(cell: OnceCell<Table>) -> Option<Table>;

/// `OnceCell::new`, which makes an empty cell: the new cell holds nothing.
#[verifier::external_body]
pub(crate) fn slot_new() -> (cell: OnceCell<Table>)
    ensures
        held(cell) is None,
{
    OnceCell::new()
}

/// `OnceCell::get`, which hands out a reference to what the cell holds, and
/// nothing where the cell is empty.
#[verifier::external_body]
pub(crate) fn slot_get(cell: &OnceCell<Table>) -> (r: Option<&Table>)
    ensures
        r matches Some(table) ==> held(*cell) == Some(*table),
        r is None ==> held(*cell) is None,
{
    cell.get()
}

/// `OnceCell::set`, which fills an empty cell with the value and returns
/// `Ok`, and leaves a full cell as it is and hands the value back as `Err`.
#[verifier::external_body]
pub(crate) fn slot_set(cell: &mut OnceCell<Table>, table: Table) -> (r: Result<(), Table>)
    ensures
        match held(*old(cell)) {
            Some(before) => held(*final(cell)) == Some(before) && r == Err::<(), Table>(table),
            None => held(*final(cell)) == Some(table) && r is Ok,
        },
{
    cell.set(table)
}

} // verus!
