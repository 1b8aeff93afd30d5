//! The catalogue's record type.

use crate::numeral::{decimal, decimal_of_i32};
use vstd::prelude::*;

verus! {

/// How many copies of an item have to be researched to unlock it.
///
/// Most catalogue entries give a number. A few cannot be researched in the
/// ordinary way and carry a remark instead.
#[derive(Debug, Clone, PartialEq, Eq)]
pub enum Amount {
    Number(i32),
    Other(String),
}

/// The mathematical model of an [`Amount`].
pub enum AmountView {
    Number(i32),
    Other(Seq<char>),
}

impl View for Amount {
    type V = AmountView;

    open spec fn view(&self) -> AmountView {
        match self {
            Amount::Number(n) => AmountView::Number(*n),
            Amount::Other(text) => AmountView::Other(text@),
        }
    }
}

impl AmountView {
    /// The count from which on the entry is complete. A remark asks for
    /// nothing, so every count meets it.
    pub open spec fn threshold(self) -> int {
        match self {
            AmountView::Number(n) => n as int,
            AmountView::Other(_) => 0,
        }
    }

    /// The amount as a report shows it: a number in decimal, a remark as it
    /// stands.
    pub open spec fn text(self) -> Seq<char> {
        match self {
            AmountView::Number(n) => decimal(n as int),
            AmountView::Other(remark) => remark,
        }
    }
}

impl Amount {
    /// The count from which on the entry is complete.
    pub fn as_i32(&self) -> (threshold: i32)
        ensures
            threshold == self@.threshold(),
    {
        match self {
            Amount::Number(n) => *n,
            _ => 0,
        }
    }

    /// The amount as a report shows it.
    pub fn to_text(&self) -> (text: String)
        ensures
            text@ == self@.text(),
    {
        match self {
            Amount::Number(n) => decimal_of_i32(*n),
            Amount::Other(remark) => remark.clone(),
        }
    }
}

/// One entry of the catalogue.
#[derive(Debug, Clone, PartialEq, Eq)]
pub struct ResearchItem {
    pub id: i32,
    pub url: String,
    pub name: String,
    pub amount: Amount,
}

/// The mathematical model of a [`ResearchItem`].
pub struct ResearchItemView {
    pub id: i32,
    pub url: Seq<char>,
    pub name: Seq<char>,
    pub amount: AmountView,
}

impl View for ResearchItem {
    type V = ResearchItemView;

    open spec fn view(&self) -> ResearchItemView {
        ResearchItemView {
            id: self.id,
            url: self.url@,
            name: self.name@,
            amount: self.amount@,
        }
    }
}

} // verus!
