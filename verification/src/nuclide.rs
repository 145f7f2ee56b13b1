//! Nuclides: an element, a mass number and a state.

use vstd::prelude::*;
use vstd::string::{StrSliceExecFns, StringExecFns};
use crate::decimal::{all_digits, digit_char, digit_chars, digits_value, push_digits};
use crate::error::Error;
use crate::numeral::{
    digit_values, digits_end, digits_only, is_digit, lemma_run_of_digits, scan_power,
};
use crate::written::lemma_digit_char;
use crate::text::chars_of;

verus! {

/// The largest atomic number of a known element.
pub const MAX_ATOMIC_NUMBER: u8 = 118;

/// The state of a nucleus: the ground state or one of two metastable levels,
/// which are written `m` and `n`.
#[derive(Clone, Copy, Debug, PartialEq, Eq, Hash, Structural)]
pub enum State {
    Ground,
    First,
    Second,
}

impl State {
    /// The letter that marks the state behind the mass number; none for the
    /// ground state.
    pub open spec fn suffix(self) -> Seq<char> {
        match self {
            State::Ground => Seq::empty(),
            State::First => seq!['m'],
            State::Second => seq!['n'],
        }
    }

    /// The number by which the state enters the key of a nuclide.
    pub open spec fn code(self) -> nat {
        match self {
            State::Ground => 0,
            State::First => 1,
            State::Second => 2,
        }
    }
}

/// The state that the text `s` marks.
pub open spec fn state_of(s: Seq<char>) -> Option<State> {
    if s.len() == 0 {
        Some(State::Ground)
    } else if s =~= seq!['m'] {
        Some(State::First)
    } else if s =~= seq!['n'] {
        Some(State::Second)
    } else {
        None
    }
}

/// The symbol of the element with the atomic number `z`; empty where there
/// is no such element.
pub open spec fn element_symbol(z: u8) -> Seq<char> {
    match z {
        1 => seq!['H'],
        2 => seq!['H', 'e'],
        3 => seq!['L', 'i'],
        4 => seq!['B', 'e'],
        5 => seq!['B'],
        6 => seq!['C'],
        7 => seq!['N'],
        8 => seq!['O'],
        9 => seq!['F'],
        10 => seq!['N', 'e'],
        11 => seq!['N', 'a'],
        12 => seq!['M', 'g'],
        13 => seq!['A', 'l'],
        14 => seq!['S', 'i'],
        15 => seq!['P'],
        16 => seq!['S'],
        17 => seq!['C', 'l'],
        18 => seq!['A', 'r'],
        19 => seq!['K'],
        20 => seq!['C', 'a'],
        21 => seq!['S', 'c'],
        22 => seq!['T', 'i'],
        23 => seq!['V'],
        24 => seq!['C', 'r'],
        25 => seq!['M', 'n'],
        26 => seq!['F', 'e'],
        27 => seq!['C', 'o'],
        28 => seq!['N', 'i'],
        29 => seq!['C', 'u'],
        30 => seq!['Z', 'n'],
        31 => seq!['G', 'a'],
        32 => seq!['G', 'e'],
        33 => seq!['A', 's'],
        34 => seq!['S', 'e'],
        35 => seq!['B', 'r'],
        36 => seq!['K', 'r'],
        37 => seq!['R', 'b'],
        38 => seq!['S', 'r'],
        39 => seq!['Y'],
        40 => seq!['Z', 'r'],
        41 => seq!['N', 'b'],
        42 => seq!['M', 'o'],
        43 => seq!['T', 'c'],
        44 => seq!['R', 'u'],
        45 => seq!['R', 'h'],
        46 => seq!['P', 'd'],
        47 => seq!['A', 'g'],
        48 => seq!['C', 'd'],
        49 => seq!['I', 'n'],
        50 => seq!['S', 'n'],
        51 => seq!['S', 'b'],
        52 => seq!['T', 'e'],
        53 => seq!['I'],
        54 => seq!['X', 'e'],
        55 => seq!['C', 's'],
        56 => seq!['B', 'a'],
        57 => seq!['L', 'a'],
        58 => seq!['C', 'e'],
        59 => seq!['P', 'r'],
        60 => seq!['N', 'd'],
        61 => seq!['P', 'm'],
        62 => seq!['S', 'm'],
        63 => seq!['E', 'u'],
        64 => seq!['G', 'd'],
        65 => seq!['T', 'b'],
        66 => seq!['D', 'y'],
        67 => seq!['H', 'o'],
        68 => seq!['E', 'r'],
        69 => seq!['T', 'm'],
        70 => seq!['Y', 'b'],
        71 => seq!['L', 'u'],
        72 => seq!['H', 'f'],
        73 => seq!['T', 'a'],
        74 => seq!['W'],
        75 => seq!['R', 'e'],
        76 => seq!['O', 's'],
        77 => seq!['I', 'r'],
        78 => seq!['P', 't'],
        79 => seq!['A', 'u'],
        80 => seq!['H', 'g'],
        81 => seq!['T', 'l'],
        82 => seq!['P', 'b'],
        83 => seq!['B', 'i'],
        84 => seq!['P', 'o'],
        85 => seq!['A', 't'],
        86 => seq!['R', 'n'],
        87 => seq!['F', 'r'],
        88 => seq!['R', 'a'],
        89 => seq!['A', 'c'],
        90 => seq!['T', 'h'],
        91 => seq!['P', 'a'],
        92 => seq!['U'],
        93 => seq!['N', 'p'],
        94 => seq!['P', 'u'],
        95 => seq!['A', 'm'],
        96 => seq!['C', 'm'],
        97 => seq!['B', 'k'],
        98 => seq!['C', 'f'],
        99 => seq!['E', 's'],
        100 => seq!['F', 'm'],
        101 => seq!['M', 'd'],
        102 => seq!['N', 'o'],
        103 => seq!['L', 'r'],
        104 => seq!['R', 'f'],
        105 => seq!['D', 'b'],
        106 => seq!['S', 'g'],
        107 => seq!['B', 'h'],
        108 => seq!['H', 's'],
        109 => seq!['M', 't'],
        110 => seq!['D', 's'],
        111 => seq!['R', 'g'],
        112 => seq!['C', 'n'],
        113 => seq!['N', 'h'],
        114 => seq!['F', 'l'],
        115 => seq!['M', 'c'],
        116 => seq!['L', 'v'],
        117 => seq!['T', 's'],
        118 => seq!['O', 'g'],
        _ => Seq::empty(),
    }
}

/// The symbol of the element with the atomic number `z`, from 1 to 30.
fn symbol_first(z: u8) -> (r: &'static str)
    requires
        1 <= z <= 30,
    ensures
        r@ == element_symbol(z),
{
    let r = match z {
        1 => {
            proof {
                reveal_strlit("H");
            }
            "H"
        },
        2 => {
            proof {
                reveal_strlit("He");
            }
            "He"
        },
        3 => {
            proof {
                reveal_strlit("Li");
            }
            "Li"
        },
        4 => {
            proof {
                reveal_strlit("Be");
            }
            "Be"
        },
        5 => {
            proof {
                reveal_strlit("B");
            }
            "B"
        },
        6 => {
            proof {
                reveal_strlit("C");
            }
            "C"
        },
        7 => {
            proof {
                reveal_strlit("N");
            }
            "N"
        },
        8 => {
            proof {
                reveal_strlit("O");
            }
            "O"
        },
        9 => {
            proof {
                reveal_strlit("F");
            }
            "F"
        },
        10 => {
            proof {
                reveal_strlit("Ne");
            }
            "Ne"
        },
        11 => {
            proof {
                reveal_strlit("Na");
            }
            "Na"
        },
        12 => {
            proof {
                reveal_strlit("Mg");
            }
            "Mg"
        },
        13 => {
            proof {
                reveal_strlit("Al");
            }
            "Al"
        },
        14 => {
            proof {
                reveal_strlit("Si");
            }
            "Si"
        },
        15 => {
            proof {
                reveal_strlit("P");
            }
            "P"
        },
        16 => {
            proof {
                reveal_strlit("S");
            }
            "S"
        },
        17 => {
            proof {
                reveal_strlit("Cl");
            }
            "Cl"
        },
        18 => {
            proof {
                reveal_strlit("Ar");
            }
            "Ar"
        },
        19 => {
            proof {
                reveal_strlit("K");
            }
            "K"
        },
        20 => {
            proof {
                reveal_strlit("Ca");
            }
            "Ca"
        },
        21 => {
            proof {
                reveal_strlit("Sc");
            }
            "Sc"
        },
        22 => {
            proof {
                reveal_strlit("Ti");
            }
            "Ti"
        },
        23 => {
            proof {
                reveal_strlit("V");
            }
            "V"
        },
        24 => {
            proof {
                reveal_strlit("Cr");
            }
            "Cr"
        },
        25 => {
            proof {
                reveal_strlit("Mn");
            }
            "Mn"
        },
        26 => {
            proof {
                reveal_strlit("Fe");
            }
            "Fe"
        },
        27 => {
            proof {
                reveal_strlit("Co");
            }
            "Co"
        },
        28 => {
            proof {
                reveal_strlit("Ni");
            }
            "Ni"
        },
        29 => {
            proof {
                reveal_strlit("Cu");
            }
            "Cu"
        },
        _ => {
            proof {
                reveal_strlit("Zn");
            }
            "Zn"
        },
    };
    assert(r@ =~= element_symbol(z));
    r
}

/// The symbol of the element with the atomic number `z`, from 31 to 60.
fn symbol_second(z: u8) -> (r: &'static str)
    requires
        31 <= z <= 60,
    ensures
        r@ == element_symbol(z),
{
    let r = match z {
        31 => {
            proof {
                reveal_strlit("Ga");
            }
            "Ga"
        },
        32 => {
            proof {
                reveal_strlit("Ge");
            }
            "Ge"
        },
        33 => {
            proof {
                reveal_strlit("As");
            }
            "As"
        },
        34 => {
            proof {
                reveal_strlit("Se");
            }
            "Se"
        },
        35 => {
            proof {
                reveal_strlit("Br");
            }
            "Br"
        },
        36 => {
            proof {
                reveal_strlit("Kr");
            }
            "Kr"
        },
        37 => {
            proof {
                reveal_strlit("Rb");
            }
            "Rb"
        },
        38 => {
            proof {
                reveal_strlit("Sr");
            }
            "Sr"
        },
        39 => {
            proof {
                reveal_strlit("Y");
            }
            "Y"
        },
        40 => {
            proof {
                reveal_strlit("Zr");
            }
            "Zr"
        },
        41 => {
            proof {
                reveal_strlit("Nb");
            }
            "Nb"
        },
        42 => {
            proof {
                reveal_strlit("Mo");
            }
            "Mo"
        },
        43 => {
            proof {
                reveal_strlit("Tc");
            }
            "Tc"
        },
        44 => {
            proof {
                reveal_strlit("Ru");
            }
            "Ru"
        },
        45 => {
            proof {
                reveal_strlit("Rh");
            }
            "Rh"
        },
        46 => {
            proof {
                reveal_strlit("Pd");
            }
            "Pd"
        },
        47 => {
            proof {
                reveal_strlit("Ag");
            }
            "Ag"
        },
        48 => {
            proof {
                reveal_strlit("Cd");
            }
            "Cd"
        },
        49 => {
            proof {
                reveal_strlit("In");
            }
            "In"
        },
        50 => {
            proof {
                reveal_strlit("Sn");
            }
            "Sn"
        },
        51 => {
            proof {
                reveal_strlit("Sb");
            }
            "Sb"
        },
        52 => {
            proof {
                reveal_strlit("Te");
            }
            "Te"
        },
        53 => {
            proof {
                reveal_strlit("I");
            }
            "I"
        },
        54 => {
            proof {
                reveal_strlit("Xe");
            }
            "Xe"
        },
        55 => {
            proof {
                reveal_strlit("Cs");
            }
            "Cs"
        },
        56 => {
            proof {
                reveal_strlit("Ba");
            }
            "Ba"
        },
        57 => {
            proof {
                reveal_strlit("La");
            }
            "La"
        },
        58 => {
            proof {
                reveal_strlit("Ce");
            }
            "Ce"
        },
        59 => {
            proof {
                reveal_strlit("Pr");
            }
            "Pr"
        },
        _ => {
            proof {
                reveal_strlit("Nd");
            }
            "Nd"
        },
    };
    assert(r@ =~= element_symbol(z));
    r
}

/// The symbol of the element with the atomic number `z`, from 61 to 90.
fn symbol_third(z: u8) -> (r: &'static str)
    requires
        61 <= z <= 90,
    ensures
        r@ == element_symbol(z),
{
    let r = match z {
        61 => {
            proof {
                reveal_strlit("Pm");
            }
            "Pm"
        },
        62 => {
            proof {
                reveal_strlit("Sm");
            }
            "Sm"
        },
        63 => {
            proof {
                reveal_strlit("Eu");
            }
            "Eu"
        },
        64 => {
            proof {
                reveal_strlit("Gd");
            }
            "Gd"
        },
        65 => {
            proof {
                reveal_strlit("Tb");
            }
            "Tb"
        },
        66 => {
            proof {
                reveal_strlit("Dy");
            }
            "Dy"
        },
        67 => {
            proof {
                reveal_strlit("Ho");
            }
            "Ho"
        },
        68 => {
            proof {
                reveal_strlit("Er");
            }
            "Er"
        },
        69 => {
            proof {
                reveal_strlit("Tm");
            }
            "Tm"
        },
        70 => {
            proof {
                reveal_strlit("Yb");
            }
            "Yb"
        },
        71 => {
            proof {
                reveal_strlit("Lu");
            }
            "Lu"
        },
        72 => {
            proof {
                reveal_strlit("Hf");
            }
            "Hf"
        },
        73 => {
            proof {
                reveal_strlit("Ta");
            }
            "Ta"
        },
        74 => {
            proof {
                reveal_strlit("W");
            }
            "W"
        },
        75 => {
            proof {
                reveal_strlit("Re");
            }
            "Re"
        },
        76 => {
            proof {
                reveal_strlit("Os");
            }
            "Os"
        },
        77 => {
            proof {
                reveal_strlit("Ir");
            }
            "Ir"
        },
        78 => {
            proof {
                reveal_strlit("Pt");
            }
            "Pt"
        },
        79 => {
            proof {
                reveal_strlit("Au");
            }
            "Au"
        },
        80 => {
            proof {
                reveal_strlit("Hg");
            }
            "Hg"
        },
        81 => {
            proof {
                reveal_strlit("Tl");
            }
            "Tl"
        },
        82 => {
            proof {
                reveal_strlit("Pb");
            }
            "Pb"
        },
        83 => {
            proof {
                reveal_strlit("Bi");
            }
            "Bi"
        },
        84 => {
            proof {
                reveal_strlit("Po");
            }
            "Po"
        },
        85 => {
            proof {
                reveal_strlit("At");
            }
            "At"
        },
        86 => {
            proof {
                reveal_strlit("Rn");
            }
            "Rn"
        },
        87 => {
            proof {
                reveal_strlit("Fr");
            }
            "Fr"
        },
        88 => {
            proof {
                reveal_strlit("Ra");
            }
            "Ra"
        },
        89 => {
            proof {
                reveal_strlit("Ac");
            }
            "Ac"
        },
        _ => {
            proof {
                reveal_strlit("Th");
            }
            "Th"
        },
    };
    assert(r@ =~= element_symbol(z));
    r
}

/// The symbol of the element with the atomic number `z`, from 91 to 118.
fn symbol_fourth(z: u8) -> (r: &'static str)
    requires
        91 <= z <= 118,
    ensures
        r@ == element_symbol(z),
{
    let r = match z {
        91 => {
            proof {
                reveal_strlit("Pa");
            }
            "Pa"
        },
        92 => {
            proof {
                reveal_strlit("U");
            }
            "U"
        },
        93 => {
            proof {
                reveal_strlit("Np");
            }
            "Np"
        },
        94 => {
            proof {
                reveal_strlit("Pu");
            }
            "Pu"
        },
        95 => {
            proof {
                reveal_strlit("Am");
            }
            "Am"
        },
        96 => {
            proof {
                reveal_strlit("Cm");
            }
            "Cm"
        },
        97 => {
            proof {
                reveal_strlit("Bk");
            }
            "Bk"
        },
        98 => {
            proof {
                reveal_strlit("Cf");
            }
            "Cf"
        },
        99 => {
            proof {
                reveal_strlit("Es");
            }
            "Es"
        },
        100 => {
            proof {
                reveal_strlit("Fm");
            }
            "Fm"
        },
        101 => {
            proof {
                reveal_strlit("Md");
            }
            "Md"
        },
        102 => {
            proof {
                reveal_strlit("No");
            }
            "No"
        },
        103 => {
            proof {
                reveal_strlit("Lr");
            }
            "Lr"
        },
        104 => {
            proof {
                reveal_strlit("Rf");
            }
            "Rf"
        },
        105 => {
            proof {
                reveal_strlit("Db");
            }
            "Db"
        },
        106 => {
            proof {
                reveal_strlit("Sg");
            }
            "Sg"
        },
        107 => {
            proof {
                reveal_strlit("Bh");
            }
            "Bh"
        },
        108 => {
            proof {
                reveal_strlit("Hs");
            }
            "Hs"
        },
        109 => {
            proof {
                reveal_strlit("Mt");
            }
            "Mt"
        },
        110 => {
            proof {
                reveal_strlit("Ds");
            }
            "Ds"
        },
        111 => {
            proof {
                reveal_strlit("Rg");
            }
            "Rg"
        },
        112 => {
            proof {
                reveal_strlit("Cn");
            }
            "Cn"
        },
        113 => {
            proof {
                reveal_strlit("Nh");
            }
            "Nh"
        },
        114 => {
            proof {
                reveal_strlit("Fl");
            }
            "Fl"
        },
        115 => {
            proof {
                reveal_strlit("Mc");
            }
            "Mc"
        },
        116 => {
            proof {
                reveal_strlit("Lv");
            }
            "Lv"
        },
        117 => {
            proof {
                reveal_strlit("Ts");
            }
            "Ts"
        },
        _ => {
            proof {
                reveal_strlit("Og");
            }
            "Og"
        },
    };
    assert(r@ =~= element_symbol(z));
    r
}

/// The symbol of the element with the atomic number `z`.
fn symbol_str(z: u8) -> (r: &'static str)
    requires
        1 <= z <= MAX_ATOMIC_NUMBER,
    ensures
        r@ == element_symbol(z),
{
    if z <= 30 {
        symbol_first(z)
    } else if z <= 60 {
        symbol_second(z)
    } else if z <= 90 {
        symbol_third(z)
    } else {
        symbol_fourth(z)
    }
}

/// What a [`Nuclide`] is.
pub struct NuclideView {
    pub atomic_number: u8,
    pub mass_number: u16,
    pub state: State,
}

impl NuclideView {
    /// A nuclide is of a known element.
    pub open spec fn valid(self) -> bool {
        1 <= self.atomic_number <= MAX_ATOMIC_NUMBER
    }

    /// The number that stands for the nuclide in the tables: no two nuclides
    /// have the same.
    pub open spec fn key(self) -> u64 {
        (self.atomic_number as nat * 0x100_0000 + self.mass_number as nat * 0x100
            + self.state.code()) as u64
    }

    /// The name of the nuclide: the symbol of the element, a hyphen, the
    /// mass number, and the letter of the state.
    pub open spec fn text(self) -> Seq<char> {
        element_symbol(self.atomic_number) + seq!['-'] + number_text(self.mass_number as nat)
            + self.state.suffix()
    }
}

/// The number `n` in decimal digits, without leading zeros.
pub open spec fn number_text(n: nat) -> Seq<char>
    decreases n,
{
    if n < 10 {
        seq![digit_char(n as u8)]
    } else {
        number_text(n / 10).push(digit_char((n % 10) as u8))
    }
}

/// Where the first hyphen of `s` from the place `from` on stands, or the
/// length of `s` if there is none.
pub open spec fn first_hyphen(s: Seq<char>, from: int) -> int
    decreases s.len() - from,
{
    if 0 <= from < s.len() && s[from] != '-' {
        first_hyphen(s, from + 1)
    } else {
        from
    }
}

/// The first atomic number from `from` on whose element has the symbol `symbol`.
pub open spec fn find_element(symbol: Seq<char>, from: int) -> Option<u8>
    decreases MAX_ATOMIC_NUMBER + 1 - from,
{
    if from < 1 || from > MAX_ATOMIC_NUMBER {
        None
    } else if element_symbol(from as u8) =~= symbol {
        Some(from as u8)
    } else {
        find_element(symbol, from + 1)
    }
}

/// The nuclide that the text `s` names: the symbol of an element, a hyphen,
/// a mass number of one digit or more that is at most 65535, and nothing, `m`
/// or `n` for the state.
pub open spec fn nuclide_of(s: Seq<char>) -> Option<NuclideView> {
    let hyphen = first_hyphen(s, 0);
    if hyphen >= s.len() {
        None
    } else {
        let mass_end = digits_end(s, hyphen + 1);
        let mass = digits_value(digit_values(s.subrange(hyphen + 1, mass_end)));
        match (find_element(s.take(hyphen), 1), state_of(s.skip(mass_end))) {
            (Some(z), Some(state)) => if mass_end > hyphen + 1 && mass <= u16::MAX {
                Some(NuclideView { atomic_number: z, mass_number: mass as u16, state })
            } else {
                None
            },
            _ => None,
        }
    }
}

/// No two nuclides have the same key.
pub proof fn lemma_key_injective(a: NuclideView, b: NuclideView)
    requires
        a.key() == b.key(),
    ensures
        a == b,
{
}

/// The symbol of an element is one capital letter, or a capital and a small
/// letter.
pub proof fn lemma_symbol_letters(z: u8)
    requires
        1 <= z <= MAX_ATOMIC_NUMBER,
    ensures
        1 <= element_symbol(z).len() <= 2,
        65 <= element_symbol(z)[0] as u32 <= 90,
        element_symbol(z).len() == 2 ==> 97 <= element_symbol(z)[1] as u32 <= 122,
{
}

/// The number that stands for a symbol of one or two letters.
spec fn symbol_number(s: Seq<char>) -> int {
    if s.len() == 1 {
        s[0] as u32 * 256
    } else {
        s[0] as u32 * 256 + s[1] as u32
    }
}

/// The number that stands for the symbol of an element.
proof fn lemma_symbol_number(z: u8) -> (n: int)
    requires
        1 <= z <= MAX_ATOMIC_NUMBER,
    ensures
        n == symbol_number(element_symbol(z)),
        n == symbol_table(z),
{
    symbol_number(element_symbol(z))
}

/// No two elements have the same symbol.
pub proof fn lemma_symbols_differ(a: u8, b: u8)
    requires
        1 <= a <= MAX_ATOMIC_NUMBER,
        1 <= b <= MAX_ATOMIC_NUMBER,
        a != b,
    ensures
        element_symbol(a) != element_symbol(b),
{
    let x = lemma_symbol_number(a);
    let y = lemma_symbol_number(b);
    lemma_symbol_table(a, b);
}

/// The symbol of an element names that element.
pub proof fn lemma_find_element(z: u8, from: int)
    requires
        1 <= from <= z <= MAX_ATOMIC_NUMBER,
    ensures
        find_element(element_symbol(z), from) == Some(z),
    decreases z - from,
{
    if from < z {
        lemma_symbols_differ(from as u8, z);
        lemma_find_element(z, from + 1);
    }
}

/// A number that is written in decimal digits is digits only, and reads
/// back as the number.
pub proof fn lemma_number_text(n: nat)
    ensures
        number_text(n).len() > 0,
        digits_only(number_text(n)),
        digits_value(digit_values(number_text(n))) == n,
    decreases n,
{
    if n < 10 {
        lemma_digit_char(n as u8);
        assert(digit_values(number_text(n)) =~= seq![n as u8]);
        assert(seq![n as u8].drop_last() =~= Seq::<u8>::empty());
        reveal_with_fuel(digits_value, 2);
    } else {
        lemma_number_text(n / 10);
        lemma_digit_char((n % 10) as u8);
        let front = number_text(n / 10);
        let all = number_text(n);
        assert(digit_values(all).drop_last() =~= digit_values(front));
        assert(digit_values(all).last() == (n % 10) as u8);
        assert forall|i: int| 0 <= i < all.len() implies is_digit(#[trigger] all[i]) by {
            if i < front.len() {
                assert(all[i] == front[i]);
            }
        }
    }
}

/// The name of a nuclide reads back as that nuclide.
#[verifier::rlimit(50)]
pub proof fn lemma_name_reads_back(v: NuclideView)
    requires
        v.valid(),
    ensures
        nuclide_of(v.text()) == Some(v),
{
    let symbol = element_symbol(v.atomic_number);
    let mass = number_text(v.mass_number as nat);
    let suffix = v.state.suffix();
    let s = v.text();
    let k = symbol.len() as int;
    lemma_symbol_letters(v.atomic_number);
    lemma_number_text(v.mass_number as nat);
    lemma_find_element(v.atomic_number, 1);
    assert(s == symbol + seq!['-'] + mass + suffix);
    assert forall|i: int| 0 <= i < k implies s[i] == symbol[i] by {}
    assert(s[k] == '-');
    assert forall|i: int| 0 <= i < mass.len() implies s[k + 1 + i] == mass[i] by {}
    assert forall|i: int| 0 <= i < suffix.len() implies s[k + 1 + mass.len() + i] == suffix[i] by {}
    assert(first_hyphen(s, 0) == k) by {
        if k == 2 {
            assert(s[1] != '-');
            assert(first_hyphen(s, 1) == first_hyphen(s, 2));
        }
        assert(s[0] != '-');
        assert(first_hyphen(s, k) == k);
    }
    assert(s.take(k) =~= symbol);
    let end = k + 1 + mass.len();
    assert forall|i: int| k + 1 <= i < end implies is_digit(#[trigger] s[i]) by {
        assert(s[i] == mass[i - k - 1]);
    }
    if end < s.len() {
        assert(s[end] == suffix[0]);
        assert(!is_digit(s[end]));
    }
    lemma_run_of_digits(s, k + 1, mass.len() as int);
    assert(s.subrange(k + 1, end) =~= mass);
    assert(s.skip(end) =~= suffix);
    assert(state_of(suffix) == Some(v.state)) by {
        assert(seq!['m'][0] == 'm');
        assert(seq!['n'][0] == 'n');
    }
}
/// The numbers that stand for the symbols of the elements.
spec fn symbol_table(z: u8) -> int {
    match z {
        1 => 18432,
        2 => 18533,
        3 => 19561,
        4 => 16997,
        5 => 16896,
        6 => 17152,
        7 => 19968,
        8 => 20224,
        9 => 17920,
        10 => 20069,
        11 => 20065,
        12 => 19815,
        13 => 16748,
        14 => 21353,
        15 => 20480,
        16 => 21248,
        17 => 17260,
        18 => 16754,
        19 => 19200,
        20 => 17249,
        21 => 21347,
        22 => 21609,
        23 => 22016,
        24 => 17266,
        25 => 19822,
        26 => 18021,
        27 => 17263,
        28 => 20073,
        29 => 17269,
        30 => 23150,
        31 => 18273,
        32 => 18277,
        33 => 16755,
        34 => 21349,
        35 => 17010,
        36 => 19314,
        37 => 21090,
        38 => 21362,
        39 => 22784,
        40 => 23154,
        41 => 20066,
        42 => 19823,
        43 => 21603,
        44 => 21109,
        45 => 21096,
        46 => 20580,
        47 => 16743,
        48 => 17252,
        49 => 18798,
        50 => 21358,
        51 => 21346,
        52 => 21605,
        53 => 18688,
        54 => 22629,
        55 => 17267,
        56 => 16993,
        57 => 19553,
        58 => 17253,
        59 => 20594,
        60 => 20068,
        61 => 20589,
        62 => 21357,
        63 => 17781,
        64 => 18276,
        65 => 21602,
        66 => 17529,
        67 => 18543,
        68 => 17778,
        69 => 21613,
        70 => 22882,
        71 => 19573,
        72 => 18534,
        73 => 21601,
        74 => 22272,
        75 => 21093,
        76 => 20339,
        77 => 18802,
        78 => 20596,
        79 => 16757,
        80 => 18535,
        81 => 21612,
        82 => 20578,
        83 => 17001,
        84 => 20591,
        85 => 16756,
        86 => 21102,
        87 => 18034,
        88 => 21089,
        89 => 16739,
        90 => 21608,
        91 => 20577,
        92 => 21760,
        93 => 20080,
        94 => 20597,
        95 => 16749,
        96 => 17261,
        97 => 17003,
        98 => 17254,
        99 => 17779,
        100 => 18029,
        101 => 19812,
        102 => 20079,
        103 => 19570,
        104 => 21094,
        105 => 17506,
        106 => 21351,
        107 => 17000,
        108 => 18547,
        109 => 19828,
        110 => 17523,
        111 => 21095,
        112 => 17262,
        113 => 20072,
        114 => 18028,
        115 => 19811,
        116 => 19574,
        117 => 21619,
        118 => 20327,
        _ => 0,
    }
}

/// No two elements have the same number for their symbol.
#[verifier::rlimit(100)]
proof fn lemma_symbol_table(a: u8, b: u8)
    requires
        1 <= a <= MAX_ATOMIC_NUMBER,
        1 <= b <= MAX_ATOMIC_NUMBER,
        a != b,
    ensures
        symbol_table(a) != symbol_table(b),
{
}

/// A species of atom: an element, a mass number and a state.
#[derive(Clone, Copy, Debug, PartialEq, Eq, Hash, Structural)]
pub struct Nuclide {
    atomic_number: u8,
    mass_number: u16,
    state: State,
}

impl View for Nuclide {
    type V = NuclideView;

    closed spec fn view(&self) -> NuclideView {
        NuclideView {
            atomic_number: self.atomic_number,
            mass_number: self.mass_number,
            state: self.state,
        }
    }
}

impl Nuclide {
    /// Every nuclide is of a known element.
    #[verifier::type_invariant]
    pub open spec fn wf(&self) -> bool {
        self@.valid()
    }

    /// The nuclide of the element with the atomic number `atomic_number`,
    /// which is refused as [`Error::InvalidAtomicNumber`] unless it is from 1
    /// to 118.
    pub fn new(atomic_number: u8, mass_number: u16, state: State) -> (r: Result<Nuclide, Error>)
        ensures
            if 1 <= atomic_number <= MAX_ATOMIC_NUMBER {
                r matches Ok(n) && n.wf() && n@ == (NuclideView {
                    atomic_number,
                    mass_number,
                    state,
                })
            } else {
                r matches Err(Error::InvalidAtomicNumber(z)) && z == atomic_number
            },
    {
        if 1 <= atomic_number && atomic_number <= MAX_ATOMIC_NUMBER {
            Ok(Nuclide { atomic_number, mass_number, state })
        } else {
            Err(Error::InvalidAtomicNumber(atomic_number))
        }
    }

    /// The atomic number, from 1 to 118.
    pub fn atomic_number(&self) -> (r: u8)
        ensures
            r == self@.atomic_number,
            1 <= r <= MAX_ATOMIC_NUMBER,
    {
        proof {
            use_type_invariant(self);
        }
        self.atomic_number
    }

    /// The mass number.
    pub fn mass_number(&self) -> (r: u16)
        ensures
            r == self@.mass_number,
    {
        self.mass_number
    }

    /// The state.
    pub fn state(&self) -> (r: State)
        ensures
            r == self@.state,
    {
        self.state
    }

    /// The number that stands for the nuclide in the tables.
    pub fn key(&self) -> (r: u64)
        ensures
            r == self@.key(),
    {
        let code: u64 = match self.state {
            State::Ground => 0,
            State::First => 1,
            State::Second => 2,
        };
        self.atomic_number as u64 * 0x100_0000 + self.mass_number as u64 * 0x100 + code
    }

    /// The name of the nuclide, such as `Co-60` or `Tc-99m`.
    pub fn to_string(&self) -> (r: String)
        ensures
            r@ == self@.text(),
    {
        proof {
            use_type_invariant(self);
        }
        let mut out = String::from_str(symbol_str(self.atomic_number));
        proof {
            reveal_strlit("-");
            reveal_strlit("m");
            reveal_strlit("n");
        }
        out.append("-");
        push_number(&mut out, self.mass_number);
        match self.state {
            State::Ground => {},
            State::First => {
                out.append("m");
            },
            State::Second => {
                out.append("n");
            },
        }
        assert(out@ =~= self@.text());
        out
    }

    /// Reads the name of a nuclide: the symbol of an element, a hyphen, the
    /// mass number, and nothing, `m` or `n` for the state. Zeros before the
    /// mass number do not count. Any other text is refused as
    /// [`Error::InvalidNuclide`].
    #[verifier::rlimit(50)]
    pub fn from_str(s: &str) -> (r: Result<Nuclide, Error>)
        ensures
            match nuclide_of(s@) {
                Some(v) => r matches Ok(n) && n@ == v && n.wf(),
                None => r matches Err(Error::InvalidNuclide(t)) && t@ == s@,
            },
    {
        let text = chars_of(s);
        let n = text.len();
        let mut hyphen: usize = 0;
        while hyphen < n && text[hyphen] != '-'
            invariant
                hyphen <= n,
                n == text.len(),
                first_hyphen(text@, 0) == first_hyphen(text@, hyphen as int),
            decreases n - hyphen,
        {
            hyphen += 1;
        }
        if hyphen >= n {
            return Err(Error::InvalidNuclide(String::from_str(s)));
        }
        let atomic_number = match read_element(&text, hyphen) {
            Some(z) => z,
            None => {
                return Err(Error::InvalidNuclide(String::from_str(s)));
            },
        };
        let (mass_end, mass, huge) = scan_power(&text, hyphen + 1);
        let state = match read_state(&text, mass_end) {
            Some(state) => state,
            None => {
                return Err(Error::InvalidNuclide(String::from_str(s)));
            },
        };
        if mass_end == hyphen + 1 || huge || mass > 0xffff {
            return Err(Error::InvalidNuclide(String::from_str(s)));
        }
        Ok(Nuclide { atomic_number, mass_number: mass as u16, state })
    }
}

/// Writes the number `n` in decimal digits at the end of `out`.
fn push_number(out: &mut String, n: u16)
    ensures
        final(out)@ == old(out)@ + number_text(n as nat),
{
    let mut digits: Vec<u8> = Vec::new();
    let mut rest: u16 = n;
    assert(digit_chars(digits@) =~= Seq::<char>::empty());
    while rest >= 10
        invariant
            all_digits(digits@),
            number_text(n as nat) == number_text(rest as nat) + digit_chars(digits@),
        decreases rest,
    {
        let d: u8 = (rest % 10) as u8;
        let ghost before = digits@;
        digits.insert(0, d);
        proof {
            assert(digit_chars(digits@) =~= seq![digit_char(d)] + digit_chars(before));
            assert(number_text(rest as nat) == number_text((rest / 10) as nat).push(digit_char(d)));
            assert(number_text((rest / 10) as nat).push(digit_char(d)) + digit_chars(before)
                =~= number_text((rest / 10) as nat) + digit_chars(digits@));
        }
        rest = rest / 10;
    }
    let ghost before = digits@;
    digits.insert(0, rest as u8);
    proof {
        assert(digit_chars(digits@) =~= seq![digit_char(rest as u8)] + digit_chars(before));
        assert(number_text(rest as nat) =~= seq![digit_char(rest as u8)]);
        assert(digits@.subrange(0, digits@.len() as int) =~= digits@);
    }
    let len = digits.len();
    push_digits(out, &digits, 0, len);
}

/// The atomic number of the element whose symbol the first `len` characters
/// of `text` are.
fn read_element(text: &Vec<char>, len: usize) -> (r: Option<u8>)
    requires
        len <= text.len(),
    ensures
        r == find_element(text@.take(len as int), 1),
        r matches Some(z) ==> 1 <= z <= MAX_ATOMIC_NUMBER,
{
    let mut z: u8 = 1;
    while z <= MAX_ATOMIC_NUMBER
        invariant
            1 <= z <= MAX_ATOMIC_NUMBER + 1,
            len <= text.len(),
            find_element(text@.take(len as int), 1) == find_element(
                text@.take(len as int),
                z as int,
            ),
        decreases MAX_ATOMIC_NUMBER + 1 - z,
    {
        let symbol = symbol_str(z);
        if same_text(symbol, text, len) {
            return Some(z);
        }
        z += 1;
    }
    None
}

/// Whether `symbol` is the first `len` characters of `text`.
fn same_text(symbol: &str, text: &Vec<char>, len: usize) -> (r: bool)
    requires
        len <= text.len(),
    ensures
        r == (symbol@ =~= text@.take(len as int)),
{
    if symbol.unicode_len() != len {
        return false;
    }
    let mut i: usize = 0;
    while i < len
        invariant
            i <= len <= text.len(),
            symbol@.len() == len,
            forall|k: int| 0 <= k < i ==> symbol@[k] == text@[k],
        decreases len - i,
    {
        if symbol.get_char(i) != text[i] {
            assert(symbol@[i as int] != text@.take(len as int)[i as int]);
            return false;
        }
        i += 1;
    }
    true
}

/// The state that the rest of `text` from the place `from` on marks.
fn read_state(text: &Vec<char>, from: usize) -> (r: Option<State>)
    requires
        from <= text.len(),
    ensures
        r == state_of(text@.skip(from as int)),
{
    let n = text.len();
    let ghost rest = text@.skip(from as int);
    if n == from {
        Some(State::Ground)
    } else if n - from == 1 {
        let c = text[from];
        assert(rest[0] == c);
        if c == 'm' {
            assert(rest =~= seq!['m']);
            Some(State::First)
        } else if c == 'n' {
            assert(rest =~= seq!['n']);
            Some(State::Second)
        } else {
            None
        }
    } else {
        None
    }
}

impl std::str::FromStr for Nuclide {
    type Err = Error;

    /// Reads the name of a nuclide as [`Nuclide::from_str`] does: the symbol
    /// of an element, a hyphen, the mass number, and nothing, `m` or `n` for
    /// the state. Any other text is refused as [`Error::InvalidNuclide`].
    fn from_str(s: &str) -> (r: Result<Nuclide, Error>)
        ensures
            match nuclide_of(s@) {
                Some(v) => r matches Ok(n) && n@ == v && n.wf(),
                None => r matches Err(Error::InvalidNuclide(t)) && t@ == s@,
            },
    {
        Nuclide::from_str(s)
    }
}

} // verus!
