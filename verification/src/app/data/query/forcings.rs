//! What a query is asked to produce, and how far it must be driven for it.
use vstd::prelude::*;

verus! {

/// The built-in outputs.
#[derive(Debug, Clone, Copy, PartialEq, Eq, Structural)]
pub enum Output {
    FileCount,
    FilePaths,
    TagCount,
    TagNames,
    Serialize,
}

/// A state that a query can be forced to reach.
#[derive(Debug, Clone, Copy, PartialEq, Eq, Structural)]
pub enum Forcing {
    Mapped,
    Filtered,
    Piped,
}

impl Forcing {
    /// The bit of a forcing in a set of forcings.
    pub open spec fn bit(self) -> u8 {
        match self {
            Forcing::Mapped => 1,
            Forcing::Filtered => 2,
            Forcing::Piped => 4,
        }
    }

    /// The bit of a forcing in a set of forcings.
    pub fn mask(self) -> (m: u8)
        ensures
            m == self.bit(),
    {
        match self {
            Forcing::Mapped => 1,
            Forcing::Filtered => 2,
            Forcing::Piped => 4,
        }
    }
}

/// A set of forcings. `Filtered` and `Piped` never come without `Mapped`.
#[derive(Debug, Clone, Copy, PartialEq, Eq)]
pub struct Forcings(u8);

/// A set of forcings, as plain values.
pub struct Forced {
    pub mapped: bool,
    pub filtered: bool,
    pub piped: bool,
}

impl View for Forcings {
    type V = Forced;

    closed spec fn view(&self) -> Forced {
        Forced {
            mapped: self.0 & 1 != 0,
            filtered: self.0 & 2 != 0,
            piped: self.0 & 4 != 0,
        }
    }
}

impl Forcings {
    /// Only the three bits are used, and the bit of `Mapped` is set where
    /// another is.
    pub closed spec fn wf(&self) -> bool {
        &&& self.0 & !7u8 == 0
        &&& (self.0 & 6 != 0 ==> self.0 & 1 != 0)
    }

    /// What every well-formed set holds: `Filtered` and `Piped` imply
    /// `Mapped`.
    pub proof fn lemma_implied(&self)
        requires
            self.wf(),
        ensures
            self@.filtered ==> self@.mapped,
            self@.piped ==> self@.mapped,
    {
        let b = self.0;
        assert((b & 6 != 0 ==> b & 1 != 0) && b & 2 != 0 ==> b & 1 != 0) by (bit_vector);
        assert((b & 6 != 0 ==> b & 1 != 0) && b & 4 != 0 ==> b & 1 != 0) by (bit_vector);
    }

    /// The forcings of either set.
    pub fn combine(self, other: Forcings) -> (f: Self)
        ensures
            f@ == (Forced {
                mapped: self@.mapped || other@.mapped,
                filtered: self@.filtered || other@.filtered,
                piped: self@.piped || other@.piped,
            }),
            self.wf() && other.wf() ==> f.wf(),
    {
        let a = self.0;
        let b = other.0;
        proof {
            assert(((a | b) & 1 != 0) == (a & 1 != 0 || b & 1 != 0)) by (bit_vector);
            assert(((a | b) & 2 != 0) == (a & 2 != 0 || b & 2 != 0)) by (bit_vector);
            assert(((a | b) & 4 != 0) == (a & 4 != 0 || b & 4 != 0)) by (bit_vector);
            assert(a & !7u8 == 0 && b & !7u8 == 0 ==> (a | b) & !7u8 == 0) by (bit_vector);
            assert((a & 6 != 0 ==> a & 1 != 0) && (b & 6 != 0 ==> b & 1 != 0) ==> ((a | b) & 6
                != 0 ==> (a | b) & 1 != 0)) by (bit_vector);
        }
        Forcings(a | b)
    }

    /// No forcing.
    pub fn new() -> (f: Self)
        ensures
            f.wf(),
            f@ == (Forced { mapped: false, filtered: false, piped: false }),
    {
        proof {
            assert(0u8 & 1 == 0 && 0u8 & 2 == 0 && 0u8 & 4 == 0 && 0u8 & !7u8 == 0 && 0u8 & 6
                == 0) by (bit_vector);
        }
        Forcings(0u8)
    }

    /// The set with `Mapped`.
    pub fn mapped(self) -> (f: Self)
        ensures
            f@ == (Forced { mapped: true, ..self@ }),
            self.wf() ==> f.wf(),
    {
        let a = self.0;
        proof {
            assert((a | 1) & 1 != 0) by (bit_vector);
            assert(((a | 1) & 2 != 0) == (a & 2 != 0)) by (bit_vector);
            assert(((a | 1) & 4 != 0) == (a & 4 != 0)) by (bit_vector);
            assert(a & !7u8 == 0 ==> (a | 1) & !7u8 == 0) by (bit_vector);
        }
        Forcings(a | 1u8)
    }

    /// The set with `Filtered`, and `Mapped` with it.
    pub fn filtered(self) -> (f: Self)
        ensures
            f@ == (Forced { mapped: true, filtered: true, ..self@ }),
            self.wf() ==> f.wf(),
    {
        let a = self.0;
        proof {
            assert((a | 1 | 2) & 1 != 0) by (bit_vector);
            assert((a | 1 | 2) & 2 != 0) by (bit_vector);
            assert(((a | 1 | 2) & 4 != 0) == (a & 4 != 0)) by (bit_vector);
            assert(a & !7u8 == 0 ==> (a | 1 | 2) & !7u8 == 0) by (bit_vector);
        }
        Forcings(a | 1u8 | 2u8)
    }

    /// The set with `Piped`, and `Mapped` with it.
    pub fn piped(self) -> (f: Self)
        ensures
            f@ == (Forced { mapped: true, piped: true, ..self@ }),
            self.wf() ==> f.wf(),
    {
        let a = self.0;
        proof {
            assert((a | 1 | 4) & 1 != 0) by (bit_vector);
            assert((a | 1 | 4) & 4 != 0) by (bit_vector);
            assert(((a | 1 | 4) & 2 != 0) == (a & 2 != 0)) by (bit_vector);
            assert(a & !7u8 == 0 ==> (a | 1 | 4) & !7u8 == 0) by (bit_vector);
        }
        Forcings(a | 1u8 | 4u8)
    }

    /// Whether the set is empty.
    pub fn has_none(&self) -> (b: bool)
        ensures
            self.wf() ==> b == (!self@.mapped && !self@.filtered && !self@.piped),
            b ==> !self@.mapped && !self@.filtered && !self@.piped,
    {
        let a = self.0;
        proof {
            assert(a == 0 ==> a & 1 == 0 && a & 2 == 0 && a & 4 == 0) by (bit_vector);
            assert(a & !7u8 == 0 && a & 1 == 0 && a & 2 == 0 && a & 4 == 0 ==> a == 0)
                by (bit_vector);
        }
        a == 0u8
    }

    /// Whether the set has `Mapped`.
    pub fn has_mapped(&self) -> (b: bool)
        ensures
            b == self@.mapped,
    {
        (self.0 & 1u8) != 0u8
    }

    /// Whether the set has `Filtered`.
    pub fn has_filtered(&self) -> (b: bool)
        ensures
            b == self@.filtered,
    {
        (self.0 & 2u8) != 0u8
    }

    /// Whether the set has `Piped`.
    pub fn has_piped(&self) -> (b: bool)
        ensures
            b == self@.piped,
    {
        (self.0 & 4u8) != 0u8
    }
}

} // verus!
