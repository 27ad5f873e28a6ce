//! Errors that the execution of a query reports.

use vstd::prelude::*;
use crate::pos::Pos;
use crate::render::render;
use crate::text::push_text;
use crate::value::{ConstValue, ValueView};

verus! {

/// An error with the positions in the query that it is about.
#[derive(Debug, PartialEq, Eq)]
pub struct ServerError {
    /// What went wrong.
    pub message: String,
    /// Where in the query it went wrong.
    pub locations: Vec<Pos>,
}

/// The mathematical model of a [`ServerError`].
pub struct ServerErrorView {
    pub message: Seq<char>,
    pub locations: Seq<Pos>,
}

impl View for ServerError {
    type V = ServerErrorView;

    open spec fn view(&self) -> ServerErrorView {
        ServerErrorView { message: self.message@, locations: self.locations@ }
    }
}

/// The error with the message `message` at the position `pos`.
pub open spec fn error_at(message: Seq<char>, pos: Pos) -> ServerErrorView {
    ServerErrorView { message, locations: seq![pos] }
}

impl ServerError {
    /// An error with the message `message` and no position.
    pub fn new(message: String) -> (r: Self)
        ensures
            r.message@ == message@,
            r.locations@ == Seq::<Pos>::empty(),
    {
        ServerError { message, locations: Vec::new() }
    }

    /// The same error, with `pos` added to its positions.
    pub fn at(self, pos: Pos) -> (r: Self)
        ensures
            r.message@ == self.message@,
            r.locations@ == self.locations@.push(pos),
    {
        let mut locations = self.locations;
        locations.push(pos);
        ServerError { message: self.message, locations }
    }
}

/// An error without a position.
#[derive(Debug, PartialEq, Eq)]
pub struct Error {
    /// What went wrong.
    pub message: String,
}

impl Error {
    /// An error with the message `message`.
    pub fn new(message: String) -> (r: Self)
        ensures
            r.message@ == message@,
    {
        Error { message }
    }

    /// The same error as a [`ServerError`] without a position.
    pub fn into_server_error(self) -> (r: ServerError)
        ensures
            r.message@ == self.message@,
            r.locations@ == Seq::<Pos>::empty(),
    {
        ServerError::new(self.message)
    }
}

/// The message for a value that does not have the type named `expected`:
/// `Expected input type "<type>", found <value>.`
pub open spec fn expected_type_text(expected: Seq<char>, value: ValueView) -> Seq<char> {
    "Expected input type \""@ + expected + "\", found "@ + render(value) + "."@
}

/// An error that the parsing of an input value reports.
#[derive(Debug, PartialEq, Eq)]
pub struct InputValueError {
    /// What went wrong.
    pub message: String,
}

impl InputValueError {
    /// The error for a value that does not have the type named `expected`.
    pub fn expected_type(expected: &str, value: &ConstValue) -> (r: Self)
        ensures
            r.message@ == expected_type_text(expected@, value@),
    {
        let mut message = String::new();
        push_text(&mut message, "Expected input type \"");
        push_text(&mut message, expected);
        push_text(&mut message, "\", found ");
        value.write_to(&mut message);
        push_text(&mut message, ".");
        assert(message@ =~= expected_type_text(expected@, value@));
        InputValueError { message }
    }

    /// An error with the message `message`.
    pub fn custom(message: String) -> (r: Self)
        ensures
            r.message@ == message@,
    {
        InputValueError { message }
    }

    /// The same error as a [`ServerError`] without a position.
    pub fn into_server_error(self) -> (r: ServerError)
        ensures
            r.message@ == self.message@,
            r.locations@ == Seq::<Pos>::empty(),
    {
        ServerError::new(self.message)
    }
}

} // verus!
