//! Numbers as they occur in values: unsigned and signed integers, and
//! fractional numbers kept as their decimal text.

use vstd::prelude::*;
use crate::text::{decimal, push_decimal, push_signed_decimal, push_text, signed_decimal};

verus! {

/// A number.
///
/// An integer from zero upwards is a `PosInt`, an integer below zero a
/// `NegInt`. Any other finite number is a `Float` and holds its shortest
/// decimal text that reads back as the same number.
#[derive(Debug, PartialEq, Eq)]
pub enum Number {
    /// An integer that is not negative.
    PosInt(u64),
    /// An integer below zero.
    NegInt(i64),
    /// A fractional number, as decimal text.
    Float(String),
}

/// The mathematical model of a [`Number`].
pub enum NumberView {
    PosInt(int),
    NegInt(int),
    Float(Seq<char>),
}

impl View for Number {
    type V = NumberView;

    open spec fn view(&self) -> NumberView {
        match self {
            Number::PosInt(n) => NumberView::PosInt(*n as int),
            Number::NegInt(n) => NumberView::NegInt(*n as int),
            Number::Float(text) => NumberView::Float(text@),
        }
    }
}

/// The literal text of a number: the decimal numeral of an integer, the text
/// of a fractional number.
pub open spec fn number_text(n: NumberView) -> Seq<char> {
    match n {
        NumberView::PosInt(n) => decimal(n as nat),
        NumberView::NegInt(n) => signed_decimal(n),
        NumberView::Float(text) => text,
    }
}

impl Number {
    /// Appends the literal text of the number to `out`.
    pub fn write_to(&self, out: &mut String)
        ensures
            final(out)@ == old(out)@ + number_text(self@),
    {
        match self {
            Number::PosInt(n) => push_decimal(out, *n as u128),
            Number::NegInt(n) => push_signed_decimal(out, *n as i128),
            Number::Float(text) => push_text(out, text.as_str()),
        }
    }

    /// The literal text of the number.
    pub fn to_string(&self) -> (r: String)
        ensures
            r@ == number_text(self@),
    {
        let mut out = String::new();
        self.write_to(&mut out);
        assert(out@ =~= number_text(self@));
        out
    }
}

impl Clone for Number {
    fn clone(&self) -> (r: Self)
        ensures
            r@ == self@,
    {
        match self {
            Number::PosInt(n) => Number::PosInt(*n),
            Number::NegInt(n) => Number::NegInt(*n),
            Number::Float(text) => Number::Float(text.clone()),
        }
    }
}

} // verus!
