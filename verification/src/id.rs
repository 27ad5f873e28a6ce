//! Identifiers and uploads as they pass through a query.

use vstd::prelude::*;
use crate::number::{number_text, Number, NumberView};
use crate::text::{chars_of, parse_signed, parse_unsigned, signed_of, str_eq, unsigned_of};
use crate::value::{ConstValue, ValueView};

verus! {

/// An identifier. It is read from a string or from an integer, and is always
/// written as a string.
#[derive(Clone, Ord, PartialOrd, Eq, PartialEq, Hash, Debug)]
pub struct ID(pub String);

impl View for ID {
    type V = Seq<char>;

    open spec fn view(&self) -> Seq<char> {
        self.0@
    }
}

/// The identifier that `value` stands for: a string as it is, an integer as
/// its decimal numeral, nothing else.
pub open spec fn id_of(value: ValueView) -> Option<Seq<char>> {
    match value {
        ValueView::String(s) => Some(s),
        ValueView::Number(NumberView::PosInt(n)) => Some(number_text(NumberView::PosInt(n))),
        ValueView::Number(NumberView::NegInt(n)) => Some(number_text(NumberView::NegInt(n))),
        _ => None,
    }
}

/// The value of the hexadecimal digit `c`, in either case.
pub open spec fn hex_value(c: char) -> Option<int> {
    if '0' <= c && c <= '9' {
        Some(c as int - '0' as int)
    } else if 'a' <= c && c <= 'f' {
        Some(c as int - 'a' as int + 10)
    } else if 'A' <= c && c <= 'F' {
        Some(c as int - 'A' as int + 10)
    } else {
        None
    }
}

/// The twelve bytes that `text` spells as 24 hexadecimal digits, if it does.
pub open spec fn object_id_bytes(text: Seq<char>) -> Option<Seq<u8>> {
    if text.len() == 24 && forall|i: int| 0 <= i < 24 ==> hex_value(#[trigger] text[i]) is Some {
        Some(
            Seq::new(
                12,
                |i: int| (hex_value(text[2 * i])->Some_0 * 16 + hex_value(text[2 * i + 1])->Some_0) as u8,
            ),
        )
    } else {
        None
    }
}

/// The UUID that `text` spells, as a number of 128 bits whose highest byte
/// is the first byte of the UUID; none where `text` spells no UUID.
pub uninterp spec fn uuid_of(text: Seq<char>) -> Option<u128>;

/// `Uuid::parse_str`, then `Uuid::as_u128`.
#[verifier::external_body]
fn parse_uuid(text: &str) -> (r: Option<u128>)
    ensures
        r == uuid_of(text@),
{
    match uuid::Uuid::parse_str(text) {
        Ok(id) => Some(id.as_u128()),
        Err(_) => None,
    }
}

/// `ObjectId::with_string`, then `ObjectId::bytes`: the twelve bytes that
/// the text spells as 24 hexadecimal digits, in either case of the letters;
/// none for any other text.
#[verifier::external_body]
fn parse_object_id(text: &str) -> (r: Option<Vec<u8>>)
    ensures
        match object_id_bytes(text@) {
            Some(bytes) => r is Some && r->Some_0@ == bytes,
            None => r is None,
        },
{
    match bson::oid::ObjectId::with_string(text) {
        Ok(id) => Some(id.bytes().to_vec()),
        Err(_) => None,
    }
}

impl ID {
    /// The identifier with the text `text`.
    pub fn new(text: String) -> (r: Self)
        ensures
            r@ == text@,
    {
        ID(text)
    }

    /// Reads an identifier from a value: from a string or from an integer.
    pub fn from_value(value: &ConstValue) -> (r: Option<Self>)
        ensures
            match id_of(value@) {
                Some(text) => r is Some && r->Some_0@ == text,
                None => r is None,
            },
    {
        match value {
            ConstValue::String(s) => Some(ID(s.clone())),
            ConstValue::Number(Number::PosInt(n)) => Some(ID(Number::PosInt(*n).to_string())),
            ConstValue::Number(Number::NegInt(n)) => Some(ID(Number::NegInt(*n).to_string())),
            _ => None,
        }
    }

    /// The identifier as a value: always a string.
    pub fn to_value(&self) -> (r: ConstValue)
        ensures
            r@ == ValueView::String(self@),
    {
        ConstValue::String(self.0.clone())
    }

    /// The text of the identifier.
    pub fn as_str(&self) -> (r: &str)
        ensures
            r@ == self@,
    {
        self.0.as_str()
    }

    /// The text of the identifier.
    pub fn into_string(self) -> (r: String)
        ensures
            r@ == self@,
    {
        self.0
    }

    /// Whether the identifier reads `other`.
    pub fn eq_str(&self, other: &str) -> (r: bool)
        ensures
            r == (self@ == other@),
    {
        str_eq(self.0.as_str(), other)
    }

    /// The identifier as an unsigned number of 64 bits, where its text
    /// spells one: decimal digits, after a `+` or not.
    pub fn to_u64(&self) -> (r: Option<u64>)
        ensures
            match unsigned_of(self@, u64::MAX as nat) {
                Some(n) => r == Some(n as u64),
                None => r is None,
            },
    {
        let chars = chars_of(self.0.as_str());
        assert(chars@.subrange(0, chars@.len() as int) =~= self@);
        parse_unsigned(&chars, 0, chars.len(), u64::MAX)
    }

    /// The identifier as a signed number of 64 bits, where its text spells
    /// one: decimal digits, after a `+` or a `-` or neither.
    pub fn to_i64(&self) -> (r: Option<i64>)
        ensures
            match signed_of(self@, 0x8000_0000_0000_0000, 0x7fff_ffff_ffff_ffff) {
                Some(n) => r == Some(n as i64),
                None => r is None,
            },
    {
        let chars = chars_of(self.0.as_str());
        assert(chars@.subrange(0, chars@.len() as int) =~= self@);
        parse_signed(&chars, 0, chars.len())
    }

    /// The identifier as a UUID, where its text spells one.
    pub fn to_uuid(&self) -> (r: Option<u128>)
        ensures
            r == uuid_of(self@),
    {
        parse_uuid(self.0.as_str())
    }

    /// The identifier as the twelve bytes of an object id, where its text
    /// spells them as 24 hexadecimal digits.
    pub fn to_object_id(&self) -> (r: Option<Vec<u8>>)
        ensures
            match object_id_bytes(self@) {
                Some(bytes) => r is Some && r->Some_0@ == bytes,
                None => r is None,
            },
    {
        parse_object_id(self.0.as_str())
    }
}

/// An uploaded file, by the place of its content in the request.
#[derive(Clone, Eq, PartialEq, Debug)]
pub struct Upload(pub String);

} // verus!
