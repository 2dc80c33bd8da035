//! Sine and cosine tables for the math coprocessors.
use vstd::prelude::*;

verus! {

/// Number of entries of a full table: one per 16-bit angle.
pub const TRIG_TABLE_LEN: usize = 0x10000;

/// Q15 sine and cosine of every 16-bit angle (a full turn is 65536 units), indexed by the
/// angle's bit pattern.
///
/// The values are computed outside the library; an empty table reads as zero everywhere.
#[derive(Debug, PartialEq, Eq)]
pub struct TrigTable {
    sin: Vec<i16>,
    cos: Vec<i16>,
}

impl Clone for TrigTable {
    fn clone(&self) -> (t: Self)
        ensures
            t.sin_view() == self.sin_view(),
            t.cos_view() == self.cos_view(),
    {
        let sin = self.sin.clone();
        let cos = self.cos.clone();
        assert(sin@ =~= self.sin@);
        assert(cos@ =~= self.cos@);
        TrigTable { sin, cos }
    }
}

impl TrigTable {
    /// Tabulated sines.
    pub closed spec fn sin_view(&self) -> Seq<i16> {
        self.sin@
    }

    /// Tabulated cosines.
    pub closed spec fn cos_view(&self) -> Seq<i16> {
        self.cos@
    }

    /// Sine of `angle`: the table entry when the table is full, else zero.
    pub open spec fn spec_sin(&self, angle: i16) -> i16 {
        if self.sin_view().len() == 0x10000 { self.sin_view()[angle as u16 as int] } else { 0 }
    }

    /// Cosine of `angle`: the table entry when the table is full, else zero.
    pub open spec fn spec_cos(&self, angle: i16) -> i16 {
        if self.cos_view().len() == 0x10000 { self.cos_view()[angle as u16 as int] } else { 0 }
    }

    /// A table without entries.
    pub fn empty() -> (t: Self)
        ensures
            t.sin_view().len() == 0,
            t.cos_view().len() == 0,
    {
        TrigTable { sin: Vec::new(), cos: Vec::new() }
    }

    /// A table from 65536 sines and 65536 cosines; `None` when either has another length.
    pub fn from_values(sin: Vec<i16>, cos: Vec<i16>) -> (t: Option<Self>)
        ensures
            t is Some <==> sin@.len() == 0x10000 && cos@.len() == 0x10000,
            t matches Some(table) ==> table.sin_view() == sin@ && table.cos_view() == cos@,
    {
        if sin.len() == TRIG_TABLE_LEN && cos.len() == TRIG_TABLE_LEN {
            Some(TrigTable { sin, cos })
        } else {
            None
        }
    }

    /// Whether the table holds an entry for every angle.
    pub fn is_full(&self) -> (r: bool)
        ensures
            r == (self.sin_view().len() == 0x10000 && self.cos_view().len() == 0x10000),
    {
        self.sin.len() == TRIG_TABLE_LEN && self.cos.len() == TRIG_TABLE_LEN
    }

    /// Q15 sine of `angle`.
    pub fn sin(&self, angle: i16) -> (s: i16)
        ensures
            s == self.spec_sin(angle),
    {
        if self.sin.len() == TRIG_TABLE_LEN {
            self.sin[angle as u16 as usize]
        } else {
            0
        }
    }

    /// Q15 cosine of `angle`.
    pub fn cos(&self, angle: i16) -> (c: i16)
        ensures
            c == self.spec_cos(angle),
    {
        if self.cos.len() == TRIG_TABLE_LEN {
            self.cos[angle as u16 as usize]
        } else {
            0
        }
    }
}

} // verus!
