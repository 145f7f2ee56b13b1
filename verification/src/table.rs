//! The tables of the dataset: the index of the nuclides and their spectra.
//!
//! A table is built whole from the records of one file, in the order in
//! which they stand there, and does not change afterwards.

use vstd::prelude::*;
use vstd::string::{StrSliceExecFns, StringExecFns};
use std::collections::HashMap;
use crate::decimal::{Decimal, DecimalView};
use crate::error::Error;
use crate::half_life::HalfLife;
use crate::nuclide::{lemma_key_injective, Nuclide, NuclideView};
use crate::text::chars_of;

verus! {

broadcast use vstd::std_specs::hash::group_hash_axioms;

/// The way in which a nucleus decays.
#[derive(Clone, Copy, Debug, PartialEq, Eq, Structural)]
pub enum DecayMode {
    /// Emission of an alpha particle, written `A`.
    Alpha,
    /// Emission of an electron, written `B-`.
    BetaMinus,
    /// Emission of a positron, written `B+`.
    BetaPlus,
    /// Capture of an electron of the atom, written `EC`.
    ElectronCapture,
    /// Transition to a lower state of the same nucleus, written `IT`.
    IsomericTransition,
    /// Fission without a cause from outside, written `SF`.
    SpontaneousFission,
}

impl DecayMode {
    /// The token by which it is written in the tables.
    pub open spec fn token(self) -> Seq<char> {
        match self {
            DecayMode::Alpha => seq!['A'],
            DecayMode::BetaMinus => seq!['B', '-'],
            DecayMode::BetaPlus => seq!['B', '+'],
            DecayMode::ElectronCapture => seq!['E', 'C'],
            DecayMode::IsomericTransition => seq!['I', 'T'],
            DecayMode::SpontaneousFission => seq!['S', 'F'],
        }
    }

    /// The token by which it is written in the tables.
    fn token_str(&self) -> (r: &'static str)
        ensures
            r@ == self.token(),
    {
        proof {
            reveal_strlit("A");
            reveal_strlit("B-");
            reveal_strlit("B+");
            reveal_strlit("EC");
            reveal_strlit("IT");
            reveal_strlit("SF");
        }
        let r = match self {
            DecayMode::Alpha => "A",
            DecayMode::BetaMinus => "B-",
            DecayMode::BetaPlus => "B+",
            DecayMode::ElectronCapture => "EC",
            DecayMode::IsomericTransition => "IT",
            DecayMode::SpontaneousFission => "SF",
        };
        assert(r@ =~= self.token());
        r
    }

    /// The token by which it is written in the tables.
    pub fn to_string(&self) -> (r: String)
        ensures
            r@ == self.token(),
    {
        String::from_str(self.token_str())
    }

    /// Reads the token of a decay mode. Any other text is refused as
    /// [`Error::InvalidDecayMode`].
    pub fn from_str(s: &str) -> (r: Result<DecayMode, Error>)
        ensures
            match decay_mode_of(s@) {
                Some(v) => r == Ok::<DecayMode, Error>(v),
                None => r matches Err(Error::InvalidDecayMode(t)) && t@ == s@,
            },
    {
        let text = chars_of(s);
        if is_token(&text, DecayMode::Alpha.token_str()) {
            Ok(DecayMode::Alpha)
        }         else if is_token(&text, DecayMode::BetaMinus.token_str()) {
            Ok(DecayMode::BetaMinus)
        }         else if is_token(&text, DecayMode::BetaPlus.token_str()) {
            Ok(DecayMode::BetaPlus)
        }         else if is_token(&text, DecayMode::ElectronCapture.token_str()) {
            Ok(DecayMode::ElectronCapture)
        }         else if is_token(&text, DecayMode::IsomericTransition.token_str()) {
            Ok(DecayMode::IsomericTransition)
        }         else if is_token(&text, DecayMode::SpontaneousFission.token_str()) {
            Ok(DecayMode::SpontaneousFission)
        } else {
            Err(Error::InvalidDecayMode(String::from_str(s)))
        }
    }
}

/// The decay mode that the token `s` names.
pub open spec fn decay_mode_of(s: Seq<char>) -> Option<DecayMode> {
    if s =~= DecayMode::Alpha.token() {
        Some(DecayMode::Alpha)
    }     else if s =~= DecayMode::BetaMinus.token() {
        Some(DecayMode::BetaMinus)
    }     else if s =~= DecayMode::BetaPlus.token() {
        Some(DecayMode::BetaPlus)
    }     else if s =~= DecayMode::ElectronCapture.token() {
        Some(DecayMode::ElectronCapture)
    }     else if s =~= DecayMode::IsomericTransition.token() {
        Some(DecayMode::IsomericTransition)
    }     else if s =~= DecayMode::SpontaneousFission.token() {
        Some(DecayMode::SpontaneousFission)
    } else {
        None
    }
}

/// The kind of an emitted radiation.
#[derive(Clone, Copy, Debug, PartialEq, Eq, Structural)]
pub enum RadiationType {
    /// Gamma rays, written `G`.
    Gamma,
    /// Gamma rays that come with a fission, written `PG`.
    PromptGamma,
    /// Gamma rays of the fission products, written `DG`.
    DelayedGamma,
    /// X-rays, written `X`.
    XRay,
    /// Photons from the annihilation of a positron, written `AQ`.
    AnnihilationPhoton,
    /// Positrons, written `B+`.
    BetaPlus,
    /// Electrons of a beta decay, written `B-`.
    BetaMinus,
    /// Electrons of the fission products, written `BD`.
    DelayedBeta,
    /// Electrons of an internal conversion, written `IE`.
    ConversionElectron,
    /// Auger electrons, written `AE`.
    AugerElectron,
    /// Alpha particles, written `A`.
    Alpha,
    /// Nuclei that recoil from an alpha decay, written `AR`.
    AlphaRecoil,
    /// Fragments of a fission, written `FF`.
    FissionFragment,
    /// Neutrons, written `N`.
    Neutron,
}

impl RadiationType {
    /// The token by which it is written in the tables.
    pub open spec fn token(self) -> Seq<char> {
        match self {
            RadiationType::Gamma => seq!['G'],
            RadiationType::PromptGamma => seq!['P', 'G'],
            RadiationType::DelayedGamma => seq!['D', 'G'],
            RadiationType::XRay => seq!['X'],
            RadiationType::AnnihilationPhoton => seq!['A', 'Q'],
            RadiationType::BetaPlus => seq!['B', '+'],
            RadiationType::BetaMinus => seq!['B', '-'],
            RadiationType::DelayedBeta => seq!['B', 'D'],
            RadiationType::ConversionElectron => seq!['I', 'E'],
            RadiationType::AugerElectron => seq!['A', 'E'],
            RadiationType::Alpha => seq!['A'],
            RadiationType::AlphaRecoil => seq!['A', 'R'],
            RadiationType::FissionFragment => seq!['F', 'F'],
            RadiationType::Neutron => seq!['N'],
        }
    }

    /// The token by which it is written in the tables.
    fn token_str(&self) -> (r: &'static str)
        ensures
            r@ == self.token(),
    {
        proof {
            reveal_strlit("G");
            reveal_strlit("PG");
            reveal_strlit("DG");
            reveal_strlit("X");
            reveal_strlit("AQ");
            reveal_strlit("B+");
            reveal_strlit("B-");
            reveal_strlit("BD");
            reveal_strlit("IE");
            reveal_strlit("AE");
            reveal_strlit("A");
            reveal_strlit("AR");
            reveal_strlit("FF");
            reveal_strlit("N");
        }
        let r = match self {
            RadiationType::Gamma => "G",
            RadiationType::PromptGamma => "PG",
            RadiationType::DelayedGamma => "DG",
            RadiationType::XRay => "X",
            RadiationType::AnnihilationPhoton => "AQ",
            RadiationType::BetaPlus => "B+",
            RadiationType::BetaMinus => "B-",
            RadiationType::DelayedBeta => "BD",
            RadiationType::ConversionElectron => "IE",
            RadiationType::AugerElectron => "AE",
            RadiationType::Alpha => "A",
            RadiationType::AlphaRecoil => "AR",
            RadiationType::FissionFragment => "FF",
            RadiationType::Neutron => "N",
        };
        assert(r@ =~= self.token());
        r
    }

    /// The token by which it is written in the tables.
    pub fn to_string(&self) -> (r: String)
        ensures
            r@ == self.token(),
    {
        String::from_str(self.token_str())
    }

    /// Reads the token of a kind of radiation. Any other text is refused as
    /// [`Error::InvalidRadiationType`].
    pub fn from_str(s: &str) -> (r: Result<RadiationType, Error>)
        ensures
            match radiation_type_of(s@) {
                Some(v) => r == Ok::<RadiationType, Error>(v),
                None => r matches Err(Error::InvalidRadiationType(t)) && t@ == s@,
            },
    {
        let text = chars_of(s);
        if is_token(&text, RadiationType::Gamma.token_str()) {
            Ok(RadiationType::Gamma)
        }         else if is_token(&text, RadiationType::PromptGamma.token_str()) {
            Ok(RadiationType::PromptGamma)
        }         else if is_token(&text, RadiationType::DelayedGamma.token_str()) {
            Ok(RadiationType::DelayedGamma)
        }         else if is_token(&text, RadiationType::XRay.token_str()) {
            Ok(RadiationType::XRay)
        }         else if is_token(&text, RadiationType::AnnihilationPhoton.token_str()) {
            Ok(RadiationType::AnnihilationPhoton)
        }         else if is_token(&text, RadiationType::BetaPlus.token_str()) {
            Ok(RadiationType::BetaPlus)
        }         else if is_token(&text, RadiationType::BetaMinus.token_str()) {
            Ok(RadiationType::BetaMinus)
        }         else if is_token(&text, RadiationType::DelayedBeta.token_str()) {
            Ok(RadiationType::DelayedBeta)
        }         else if is_token(&text, RadiationType::ConversionElectron.token_str()) {
            Ok(RadiationType::ConversionElectron)
        }         else if is_token(&text, RadiationType::AugerElectron.token_str()) {
            Ok(RadiationType::AugerElectron)
        }         else if is_token(&text, RadiationType::Alpha.token_str()) {
            Ok(RadiationType::Alpha)
        }         else if is_token(&text, RadiationType::AlphaRecoil.token_str()) {
            Ok(RadiationType::AlphaRecoil)
        }         else if is_token(&text, RadiationType::FissionFragment.token_str()) {
            Ok(RadiationType::FissionFragment)
        }         else if is_token(&text, RadiationType::Neutron.token_str()) {
            Ok(RadiationType::Neutron)
        } else {
            Err(Error::InvalidRadiationType(String::from_str(s)))
        }
    }
}

/// The kind of radiation that the token `s` names.
pub open spec fn radiation_type_of(s: Seq<char>) -> Option<RadiationType> {
    if s =~= RadiationType::Gamma.token() {
        Some(RadiationType::Gamma)
    }     else if s =~= RadiationType::PromptGamma.token() {
        Some(RadiationType::PromptGamma)
    }     else if s =~= RadiationType::DelayedGamma.token() {
        Some(RadiationType::DelayedGamma)
    }     else if s =~= RadiationType::XRay.token() {
        Some(RadiationType::XRay)
    }     else if s =~= RadiationType::AnnihilationPhoton.token() {
        Some(RadiationType::AnnihilationPhoton)
    }     else if s =~= RadiationType::BetaPlus.token() {
        Some(RadiationType::BetaPlus)
    }     else if s =~= RadiationType::BetaMinus.token() {
        Some(RadiationType::BetaMinus)
    }     else if s =~= RadiationType::DelayedBeta.token() {
        Some(RadiationType::DelayedBeta)
    }     else if s =~= RadiationType::ConversionElectron.token() {
        Some(RadiationType::ConversionElectron)
    }     else if s =~= RadiationType::AugerElectron.token() {
        Some(RadiationType::AugerElectron)
    }     else if s =~= RadiationType::Alpha.token() {
        Some(RadiationType::Alpha)
    }     else if s =~= RadiationType::AlphaRecoil.token() {
        Some(RadiationType::AlphaRecoil)
    }     else if s =~= RadiationType::FissionFragment.token() {
        Some(RadiationType::FissionFragment)
    }     else if s =~= RadiationType::Neutron.token() {
        Some(RadiationType::Neutron)
    } else {
        None
    }
}

/// Whether `text` is the token `token`.
fn is_token(text: &Vec<char>, token: &str) -> (r: bool)
    ensures
        r == (text@ =~= token@),
{
    let n = text.len();
    if token.unicode_len() != n {
        return false;
    }
    let mut i: usize = 0;
    while i < n
        invariant
            i <= n,
            n == text.len(),
            token@.len() == n,
            forall|k: int| 0 <= k < i ==> token@[k] == text@[k],
        decreases n - i,
    {
        if token.get_char(i) != text[i] {
            return false;
        }
        i += 1;
    }
    true
}

/// A nuclide that a decay produces.
#[derive(Debug, PartialEq, Eq)]
pub struct Progeny {
    /// The nuclide that is produced.
    pub target: Nuclide,
    /// The way in which the parent decays into it.
    pub decay_mode: DecayMode,
    /// The fraction of the decays of the parent that produce it.
    pub branching_fraction: Decimal,
}

/// What a [`Progeny`] is.
pub struct ProgenyView {
    pub target: NuclideView,
    pub decay_mode: DecayMode,
    pub branching_fraction: DecimalView,
}

impl View for Progeny {
    type V = ProgenyView;

    open spec fn view(&self) -> ProgenyView {
        ProgenyView {
            target: self.target@,
            decay_mode: self.decay_mode,
            branching_fraction: self.branching_fraction@,
        }
    }
}

impl Clone for Progeny {
    /// The same target, decay mode and branching fraction.
    fn clone(&self) -> (r: Progeny)
        ensures
            r@ == self@,
    {
        Progeny {
            target: self.target,
            decay_mode: self.decay_mode,
            branching_fraction: self.branching_fraction.clone(),
        }
    }
}

/// What the index says of one nuclide.
#[derive(Debug, PartialEq, Eq)]
pub struct Attribute {
    /// The half-life of the nuclide.
    pub half_life: HalfLife,
    /// The nuclides that its decay produces, in the order of the index.
    pub progeny: Vec<Progeny>,
}

/// One line of a spectrum of discrete radiations.
#[derive(Debug, PartialEq, Eq)]
pub struct RadSpectrum {
    /// The kind of radiation.
    pub radiation: RadiationType,
    /// The energy of the radiation.
    pub energy: Decimal,
    /// How many are emitted per decay.
    pub intensity: Decimal,
}

/// One point of a beta spectrum.
#[derive(Debug, PartialEq, Eq)]
pub struct BetSpectrum {
    /// The energy at which the bin begins.
    pub energy: Decimal,
    /// How many are emitted per decay and unit of energy.
    pub intensity: Decimal,
}

/// One line of a spectrum of Auger and Coster-Kronig electrons.
#[derive(Debug, PartialEq, Eq)]
pub struct AckSpectrum {
    /// The energy of the electron.
    pub energy: Decimal,
    /// How many are emitted per decay.
    pub intensity: Decimal,
}

/// One bin of a spectrum of neutrons from spontaneous fission.
#[derive(Debug, PartialEq, Eq)]
pub struct NsfSpectrum {
    /// The energy at which the bin begins.
    pub energy: Decimal,
    /// How many are emitted per decay in the bin.
    pub intensity: Decimal,
}

/// Where the first record from the place `from` on stands that could not be
/// read, or the count of the records if all from there on were read.
pub open spec fn first_failure<T>(records: Seq<Result<T, Error>>, from: int) -> int
    decreases records.len() - from,
{
    if 0 <= from < records.len() && records[from] is Ok {
        first_failure(records, from + 1)
    } else {
        from
    }
}

/// The index that the first `n` records make: each record that was read puts
/// its nuclide into the index, or replaces what an earlier record said of it.
pub open spec fn index_map(
    records: Seq<Result<(Nuclide, Attribute), Error>>,
    n: int,
) -> Map<u64, Attribute>
    decreases n,
{
    if n <= 0 {
        Map::empty()
    } else {
        match records[n - 1] {
            Ok((nuclide, attribute)) => index_map(records, n - 1).insert(nuclide@.key(), attribute),
            Err(_) => index_map(records, n - 1),
        }
    }
}

/// The records among the first `n` that are of the nuclide with the key
/// `key`, in their order.
pub open spec fn spectrum_of<R>(
    records: Seq<Result<(Nuclide, R), Error>>,
    n: int,
    key: u64,
) -> Seq<R>
    decreases n,
{
    if n <= 0 {
        Seq::empty()
    } else {
        match records[n - 1] {
            Ok((nuclide, record)) => if nuclide@.key() == key {
                spectrum_of(records, n - 1, key).push(record)
            } else {
                spectrum_of(records, n - 1, key)
            },
            Err(_) => spectrum_of(records, n - 1, key),
        }
    }
}

/// The spectra that the first `n` records make: each nuclide that has a
/// record among them, with its records in their order.
pub open spec fn spectrum_map<R>(records: Seq<Result<(Nuclide, R), Error>>, n: int) -> Map<
    u64,
    Seq<R>,
> {
    Map::new(
        |key: u64| spectrum_of(records, n, key).len() > 0,
        |key: u64| spectrum_of(records, n, key),
    )
}

/// Whether the first `n` records were all read and are of `n` different
/// nuclides.
pub open spec fn distinct_nuclides<R>(records: Seq<Result<(Nuclide, R), Error>>, n: int) -> bool {
    &&& forall|i: int| 0 <= i < n ==> (#[trigger] records[i]) is Ok
    &&& forall|i: int, j: int|
        0 <= i < j < n ==> (#[trigger] records[i])->Ok_0.0@ != (#[trigger] records[j])->Ok_0.0@
}

/// An index that is built from records of different nuclides holds as many
/// nuclides as there are records.
#[verifier::rlimit(50)]
pub proof fn lemma_index_of_distinct_nuclides(
    records: Seq<Result<(Nuclide, Attribute), Error>>,
    n: int,
)
    requires
        0 <= n <= records.len(),
        distinct_nuclides(records, n),
    ensures
        first_failure(records, 0) >= n,
        index_map(records, n).dom().finite(),
        index_map(records, n).dom().len() == n,
        forall|i: int|
            0 <= i < n ==> index_map(records, n).contains_key(
                (#[trigger] records[i])->Ok_0.0@.key(),
            ) && index_map(records, n)[records[i]->Ok_0.0@.key()] == records[i]->Ok_0.1,
    decreases n,
{
    lemma_all_read(records, 0, n);
    if n > 0 {
        lemma_index_of_distinct_nuclides(records, n - 1);
        let before = index_map(records, n - 1);
        let last = records[n - 1]->Ok_0;
        lemma_index_keys(records, n - 1, last.0@.key());
        if before.contains_key(last.0@.key()) {
            let i = choose|i: int|
                0 <= i < n - 1 && (#[trigger] records[i]) is Ok && records[i]->Ok_0.0@.key()
                    == last.0@.key();
            lemma_key_injective(records[i]->Ok_0.0@, last.0@);
        }
        assert forall|i: int| 0 <= i < n - 1 implies (#[trigger] records[i])->Ok_0.0@.key()
            != last.0@.key() by {
            if records[i]->Ok_0.0@.key() == last.0@.key() {
                lemma_key_injective(records[i]->Ok_0.0@, last.0@);
            }
        }
    }
}

/// Records that were all read hold no failure.
proof fn lemma_all_read<T>(records: Seq<Result<T, Error>>, from: int, n: int)
    requires
        0 <= from <= n <= records.len(),
        forall|i: int| 0 <= i < n ==> (#[trigger] records[i]) is Ok,
    ensures
        first_failure(records, from) >= n,
    decreases n - from,
{
    if from < n {
        assert(records[from] is Ok);
        lemma_all_read(records, from + 1, n);
    } else {
        lemma_first_failure(records, from);
    }
}

/// The first failure from a place on stands at that place or behind it,
/// within the records, and the records before it were read.
pub proof fn lemma_first_failure<T>(records: Seq<Result<T, Error>>, from: int)
    requires
        0 <= from <= records.len(),
    ensures
        from <= first_failure(records, from) <= records.len(),
        forall|i: int| from <= i < first_failure(records, from) ==> (#[trigger] records[i]) is Ok,
        first_failure(records, from) < records.len() ==> records[first_failure(
            records,
            from,
        )] is Err,
    decreases records.len() - from,
{
    if from < records.len() && records[from] is Ok {
        lemma_first_failure(records, from + 1);
    }
}

/// The index of the first `n` records holds the nuclides of those records
/// that were read, and no other.
pub proof fn lemma_index_keys(
    records: Seq<Result<(Nuclide, Attribute), Error>>,
    n: int,
    key: u64,
)
    requires
        0 <= n <= records.len(),
    ensures
        index_map(records, n).contains_key(key) <==> exists|i: int|
            0 <= i < n && (#[trigger] records[i]) is Ok && records[i]->Ok_0.0@.key() == key,
    decreases n,
{
    if n > 0 {
        lemma_index_keys(records, n - 1, key);
        if index_map(records, n).contains_key(key) {
            if records[n - 1] is Ok && records[n - 1]->Ok_0.0@.key() == key {
            } else {
                let i = choose|i: int|
                    0 <= i < n - 1 && (#[trigger] records[i]) is Ok && records[i]->Ok_0.0@.key()
                        == key;
                assert(0 <= i < n && records[i] is Ok);
            }
        }
    }
}

/// The record of `record` if it was read and is of the nuclide with the key
/// `key`.
pub open spec fn record_of<R>(record: Result<(Nuclide, R), Error>, key: u64) -> Option<R> {
    match record {
        Ok((nuclide, line)) => if nuclide@.key() == key {
            Some(line)
        } else {
            None
        },
        Err(_) => None,
    }
}

/// The spectrum of a nuclide is what is left of the records when those of
/// other nuclides are taken out: as many records as the file has of the
/// nuclide, in the order of the file.
#[verifier::rlimit(50)]
pub proof fn lemma_spectrum_is_filtered<R>(
    records: Seq<Result<(Nuclide, R), Error>>,
    n: int,
    key: u64,
)
    requires
        0 <= n <= records.len(),
    ensures
        spectrum_of(records, n, key) == records.take(n).filter_map(
            |record: Result<(Nuclide, R), Error>| record_of(record, key),
        ),
    decreases n,
{
    let pick = |record: Result<(Nuclide, R), Error>| record_of(record, key);
    if n > 0 {
        lemma_spectrum_is_filtered(records, n - 1, key);
        assert(records.take(n).drop_last() =~= records.take(n - 1));
        assert(records.take(n).last() == records[n - 1]);
        match pick(records[n - 1]) {
            Some(line) => {
                assert(spectrum_of(records, n - 1, key).push(line) =~= spectrum_of(
                    records,
                    n - 1,
                    key,
                ) + seq![line]);
            },
            None => {},
        }
    } else {
        assert(records.take(0) =~= Seq::empty());
    }
}

/// A table of spectra holds the nuclides of those records that were read,
/// and no other.
pub proof fn lemma_spectrum_keys<R>(records: Seq<Result<(Nuclide, R), Error>>, n: int, key: u64)
    requires
        0 <= n <= records.len(),
    ensures
        spectrum_map(records, n).contains_key(key) <==> exists|i: int|
            0 <= i < n && (#[trigger] records[i]) is Ok && records[i]->Ok_0.0@.key() == key,
    decreases n,
{
    if n > 0 {
        lemma_spectrum_keys(records, n - 1, key);
        if spectrum_map(records, n).contains_key(key) {
            if records[n - 1] is Ok && records[n - 1]->Ok_0.0@.key() == key {
            } else {
                assert(spectrum_map(records, n - 1).contains_key(key));
                let i = choose|i: int|
                    0 <= i < n - 1 && (#[trigger] records[i]) is Ok && records[i]->Ok_0.0@.key()
                        == key;
                assert(0 <= i < n && records[i] is Ok);
            }
        }
    }
}

/// A table of spectra that is built from records of different nuclides holds
/// as many nuclides as there are records, each with its one record.
#[verifier::rlimit(50)]
pub proof fn lemma_spectrum_of_distinct_nuclides<R>(
    records: Seq<Result<(Nuclide, R), Error>>,
    n: int,
)
    requires
        0 <= n <= records.len(),
        distinct_nuclides(records, n),
    ensures
        first_failure(records, 0) >= n,
        spectrum_map(records, n).dom().finite(),
        spectrum_map(records, n).dom().len() == n,
        forall|i: int|
            0 <= i < n ==> spectrum_map(records, n).contains_key(
                (#[trigger] records[i])->Ok_0.0@.key(),
            ) && spectrum_map(records, n)[records[i]->Ok_0.0@.key()] == seq![records[i]->Ok_0.1],
    decreases n,
{
    lemma_all_read(records, 0, n);
    if n > 0 {
        lemma_spectrum_of_distinct_nuclides(records, n - 1);
        let before = spectrum_map(records, n - 1);
        let last = records[n - 1]->Ok_0;
        let key = last.0@.key();
        lemma_spectrum_keys(records, n - 1, key);
        if before.contains_key(key) {
            let i = choose|i: int|
                0 <= i < n - 1 && (#[trigger] records[i]) is Ok && records[i]->Ok_0.0@.key() == key;
            lemma_key_injective(records[i]->Ok_0.0@, last.0@);
        }
        assert(spectrum_of(records, n - 1, key).len() == 0);
        assert(spectrum_of(records, n, key) =~= seq![last.1]);
        assert(spectrum_map(records, n).dom() =~= before.dom().insert(key));
        assert forall|i: int| 0 <= i < n - 1 implies spectrum_map(records, n).contains_key(
            (#[trigger] records[i])->Ok_0.0@.key(),
        ) && spectrum_map(records, n)[records[i]->Ok_0.0@.key()] == seq![records[i]->Ok_0.1] by {
            if records[i]->Ok_0.0@.key() == key {
                lemma_key_injective(records[i]->Ok_0.0@, last.0@);
            }
            assert(before.contains_key(records[i]->Ok_0.0@.key()));
        }
    } else {
        assert(spectrum_map(records, 0).dom() =~= Set::<u64>::empty());
    }
}

/// The index of the nuclides: what is known of each.
pub struct IndexTable {
    map: HashMap<u64, Attribute>,
}

impl View for IndexTable {
    type V = Map<u64, Attribute>;

    closed spec fn view(&self) -> Map<u64, Attribute> {
        self.map@
    }
}

impl IndexTable {
    /// Builds the index from the records of the index file, each as it was
    /// read or with the reason why it could not be read. One record that
    /// could not be read fails the whole index, with the reason of the first
    /// such record.
    #[verifier::rlimit(50)]
    pub fn build(records: Vec<Result<(Nuclide, Attribute), Error>>) -> (r: Result<
        IndexTable,
        Error,
    >)
        ensures
            if first_failure(records@, 0) < records@.len() {
                r == Err::<IndexTable, Error>(records@[first_failure(records@, 0)]->Err_0)
            } else {
                r matches Ok(t) && t@ == index_map(records@, records@.len() as int)
            },
    {
        let mut map: HashMap<u64, Attribute> = HashMap::new();
        let ghost all = records@;
        for record in it: records
            invariant
                it.seq() == all,
                first_failure(all, 0) == first_failure(all, it.index() as int),
                map@ == index_map(all, it.index() as int),
        {
            match record {
                Ok((nuclide, attribute)) => {
                    map.insert(nuclide.key(), attribute);
                },
                Err(e) => {
                    return Err(e);
                },
            }
        }
        Ok(IndexTable { map })
    }

    /// How many nuclides the index holds.
    pub fn len(&self) -> (r: usize)
        ensures
            r == self@.dom().len(),
    {
        self.map.len()
    }

    /// What the index says of `nuclide`, if it holds it.
    pub fn get(&self, nuclide: Nuclide) -> (r: Option<&Attribute>)
        ensures
            r == if self@.contains_key(nuclide@.key()) {
                Some(&self@[nuclide@.key()])
            } else {
                None
            },
    {
        let key = nuclide.key();
        self.map.get(&key)
    }
}

/// The spectra of one kind: for each nuclide its records, in the order of
/// the file.
pub struct SpectrumTable<R> {
    map: HashMap<u64, Vec<R>>,
}

impl<R> View for SpectrumTable<R> {
    type V = Map<u64, Seq<R>>;

    closed spec fn view(&self) -> Map<u64, Seq<R>> {
        Map::new(|key: u64| self.map@.contains_key(key), |key: u64| self.map@[key]@)
    }
}

impl<R> SpectrumTable<R> {
    /// Builds the table from the records of a spectrum file, each as it was
    /// read or with the reason why it could not be read. The first record of
    /// a nuclide opens its spectrum, and each later one is put behind those
    /// before it. One record that could not be read fails the whole table,
    /// with the reason of the first such record.
    #[verifier::rlimit(50)]
    pub fn build(records: Vec<Result<(Nuclide, R), Error>>) -> (r: Result<SpectrumTable<R>, Error>)
        ensures
            if first_failure(records@, 0) < records@.len() {
                r == Err::<SpectrumTable<R>, Error>(records@[first_failure(records@, 0)]->Err_0)
            } else {
                r matches Ok(t) && t@ == spectrum_map(records@, records@.len() as int)
            },
    {
        let mut map: HashMap<u64, Vec<R>> = HashMap::new();
        let ghost all = records@;
        for record in it: records
            invariant
                it.seq() == all,
                first_failure(all, 0) == first_failure(all, it.index() as int),
                forall|key: u64|
                    #![trigger map@.contains_key(key)]
                    #![trigger map@[key]]
                    {
                        &&& map@.contains_key(key) <==> spectrum_of(
                            all,
                            it.index() as int,
                            key,
                        ).len() > 0
                        &&& map@.contains_key(key) ==> map@[key]@ == spectrum_of(
                            all,
                            it.index() as int,
                            key,
                        )
                    },
        {
            match record {
                Ok((nuclide, line)) => {
                    let key = nuclide.key();
                    let mut lines = match map.remove(&key) {
                        Some(lines) => lines,
                        None => Vec::new(),
                    };
                    lines.push(line);
                    map.insert(key, lines);
                },
                Err(e) => {
                    return Err(e);
                },
            }
        }
        let table = SpectrumTable { map };
        assert(table@ =~= spectrum_map(all, all.len() as int));
        Ok(table)
    }

    /// How many nuclides the table holds.
    pub fn len(&self) -> (r: usize)
        ensures
            r == self@.dom().len(),
    {
        assert(self@.dom() =~= self.map@.dom());
        self.map.len()
    }

    /// The records of `nuclide`, in the order of the file, if the table holds
    /// the nuclide.
    pub fn get(&self, nuclide: Nuclide) -> (r: Option<&[R]>)
        ensures
            r is Some <==> self@.contains_key(nuclide@.key()),
            r matches Some(lines) ==> lines@ == self@[nuclide@.key()],
    {
        let key = nuclide.key();
        match self.map.get(&key) {
            Some(lines) => Some(lines.as_slice()),
            None => None,
        }
    }
}

} // verus!
