//! A resolved record: one code of the table bound to its mnemonic and description.

use vstd::prelude::*;
use crate::table::{description, lemma_mnemonic, mnemonic};

verus! {

/// Information about one code.
#[derive(Debug, PartialEq, Clone, Copy)]
pub struct Code {
    pub code: u8,
    pub human: &'static str,
    pub desc: &'static str,
}

/// What a `Code` says: the code's value, its mnemonic and its description as text.
pub ghost struct Record {
    pub code: u8,
    pub human: Seq<char>,
    pub desc: Seq<char>,
}

impl Record {
    /// The record fits the columns: its code lies within the table, and its mnemonic has
    /// at most seven characters.
    pub open spec fn narrow(self) -> bool {
        self.code < 128 && self.human.len() <= 7
    }
}

impl View for Code {
    type V = Record;

    open spec fn view(&self) -> Record {
        Record { code: self.code, human: self.human@, desc: self.desc@ }
    }
}

impl DeepView for Code {
    type V = Record;

    open spec fn deep_view(&self) -> Record {
        self@
    }
}

/// The record that the table holds for index `i`.
pub open spec fn record(i: int) -> Record
    recommends
        0 <= i < 128,
{
    Record { code: i as u8, human: mnemonic(i), desc: description(i) }
}

/// Every record of the table fits the columns.
pub proof fn lemma_record_narrow(i: int)
    requires
        0 <= i < 128,
    ensures
        record(i).narrow(),
        record(i).code == i,
{
    lemma_mnemonic(i);
}

impl Code {
    /// Decimal code value.
    pub fn code(&self) -> (r: u8)
        ensures
            r == self@.code,
    {
        self.code
    }

    /// Human representation.
    pub fn human(&self) -> (r: &'static str)
        ensures
            r@ == self@.human,
    {
        self.human
    }

    /// Code description.
    pub fn desc(&self) -> (r: &'static str)
        ensures
            r@ == self@.desc,
    {
        self.desc
    }
}

} // verus!
