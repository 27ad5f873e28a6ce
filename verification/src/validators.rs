//! Validators of input values.

use vstd::prelude::*;
use vstd::string::StrSliceExecFns;
use vstd::utf8::encode_utf8;
use crate::number::{Number, NumberView};
use crate::text::{push_signed_decimal, push_text, signed_decimal};
use crate::value::{ConstValue, ValueView};

verus! {

/// One end of a range of integers.
#[derive(Debug, Clone, Copy, PartialEq, Eq, Structural)]
pub enum Bound {
    /// The range reaches this number and holds it.
    Included(i128),
    /// The range reaches this number and does not hold it.
    Excluded(i128),
    /// The range has no end on this side.
    Unbounded,
}

/// A range of integers, given by its two ends.
#[derive(Debug, Clone, Copy, PartialEq, Eq, Structural)]
pub struct Bounds {
    /// The lower end.
    pub start: Bound,
    /// The upper end.
    pub end: Bound,
}

/// What follows the message where the items of the thing have a name:
/// `` <items> long``.
pub open spec fn items_suffix(items: Option<Seq<char>>) -> Seq<char> {
    match items {
        Some(items) => " "@ + items + " long"@,
        None => Seq::empty(),
    }
}

/// What is wrong with `value` as seen from `range`, if anything is.
///
/// The lower end is looked at first. The thing is called `item`, and is too
/// `low` below the range and too `high` above it.
pub open spec fn range_verdict(
    range: Bounds,
    value: int,
    item: Seq<char>,
    items: Option<Seq<char>>,
    low: Seq<char>,
    high: Seq<char>,
) -> Option<Seq<char>> {
    if range.start is Included && value < range.start->Included_0 {
        Some(
            item + " is too "@ + low + ", must be "@ + signed_decimal(
                range.start->Included_0 as int,
            ) + " or above"@ + items_suffix(items),
        )
    } else if range.start is Excluded && value <= range.start->Excluded_0 {
        Some(
            item + " is too "@ + low + ", must be above "@ + signed_decimal(
                range.start->Excluded_0 as int,
            ) + items_suffix(items),
        )
    } else if range.end is Included && value > range.end->Included_0 {
        Some(
            item + " is too "@ + high + ", must be "@ + signed_decimal(
                range.end->Included_0 as int,
            ) + " or below"@ + items_suffix(items),
        )
    } else if range.end is Excluded && value >= range.end->Excluded_0 {
        Some(
            item + " is too "@ + high + ", must be below "@ + signed_decimal(
                range.end->Excluded_0 as int,
            ) + items_suffix(items),
        )
    } else {
        None
    }
}

/// A range accepts exactly the numbers between its ends.
pub proof fn lemma_range_verdict(
    range: Bounds,
    value: int,
    item: Seq<char>,
    items: Option<Seq<char>>,
    low: Seq<char>,
    high: Seq<char>,
)
    ensures
        range_verdict(range, value, item, items, low, high) is None <==> {
            &&& match range.start {
                Bound::Included(bound) => bound <= value,
                Bound::Excluded(bound) => bound < value,
                Bound::Unbounded => true,
            }
            &&& match range.end {
                Bound::Included(bound) => value <= bound,
                Bound::Excluded(bound) => value < bound,
                Bound::Unbounded => true,
            }
        },
{
}

fn push_suffix(out: &mut String, items: Option<&str>)
    ensures
        final(out)@ == old(out)@ + items_suffix(
            match items {
                Some(items) => Some(items@),
                None => None,
            },
        ),
{
    match items {
        Some(items) => {
            push_text(out, " ");
            push_text(out, items);
            push_text(out, " long");
            assert(out@ =~= old(out)@ + (" "@ + items@ + " long"@));
        },
        None => {
            assert(out@ =~= old(out)@ + Seq::<char>::empty());
        },
    }
}

/// Checks `value` against `range`, and says what is wrong with it if
/// something is.
pub fn range_contains(
    range: &Bounds,
    value: i128,
    item: &str,
    items: Option<&str>,
    error_types: (&str, &str),
) -> (r: Result<(), String>)
    ensures
        match range_verdict(
            *range,
            value as int,
            item@,
            match items {
                Some(items) => Some(items@),
                None => None,
            },
            error_types.0@,
            error_types.1@,
        ) {
            None => r is Ok,
            Some(message) => r is Err && r->Err_0@ == message,
        },
{
    let ghost wanted = range_verdict(
        *range,
        value as int,
        item@,
        match items {
            Some(items) => Some(items@),
            None => None,
        },
        error_types.0@,
        error_types.1@,
    );
    let mut out = String::new();
    match range.start {
        Bound::Included(bound) => {
            if value < bound {
                push_text(&mut out, item);
                push_text(&mut out, " is too ");
                push_text(&mut out, error_types.0);
                push_text(&mut out, ", must be ");
                push_signed_decimal(&mut out, bound);
                push_text(&mut out, " or above");
                push_suffix(&mut out, items);
                assert(out@ =~= wanted->Some_0);
                return Err(out);
            }
        },
        Bound::Excluded(bound) => {
            if value <= bound {
                push_text(&mut out, item);
                push_text(&mut out, " is too ");
                push_text(&mut out, error_types.0);
                push_text(&mut out, ", must be above ");
                push_signed_decimal(&mut out, bound);
                push_suffix(&mut out, items);
                assert(out@ =~= wanted->Some_0);
                return Err(out);
            }
        },
        Bound::Unbounded => {},
    }
    match range.end {
        Bound::Included(bound) => {
            if value > bound {
                push_text(&mut out, item);
                push_text(&mut out, " is too ");
                push_text(&mut out, error_types.1);
                push_text(&mut out, ", must be ");
                push_signed_decimal(&mut out, bound);
                push_text(&mut out, " or below");
                push_suffix(&mut out, items);
                assert(out@ =~= wanted->Some_0);
                return Err(out);
            }
        },
        Bound::Excluded(bound) => {
            if value >= bound {
                push_text(&mut out, item);
                push_text(&mut out, " is too ");
                push_text(&mut out, error_types.1);
                push_text(&mut out, ", must be below ");
                push_signed_decimal(&mut out, bound);
                push_suffix(&mut out, items);
                assert(out@ =~= wanted->Some_0);
                return Err(out);
            }
        },
        Bound::Unbounded => {},
    }
    Ok(())
}

/// A check that an input value passes or fails.
pub trait InputValueValidator {
    /// What is wrong with `value`, if anything is.
    spec fn verdict(&self, value: ValueView) -> Option<Seq<char>>;

    /// Checks `value`, and says what is wrong with it if something is.
    fn validate(&self, value: &ConstValue) -> (r: Result<(), String>)
        ensures
            match self.verdict(value@) {
                None => r is Ok,
                Some(message) => r is Err && r->Err_0@ == message,
            },
    ;
}

fn refusal(message: &str) -> (r: Result<(), String>)
    ensures
        r is Err,
        r->Err_0@ == message@,
{
    let mut out = String::new();
    push_text(&mut out, message);
    assert(out@ =~= message@);
    Err(out)
}

/// Accepts if both validators accept; says what the first finds wrong, else
/// what the second finds wrong.
#[derive(Debug, Clone, Copy, PartialEq, Eq, Hash)]
pub struct And<A, B>(pub A, pub B);

impl<A: InputValueValidator, B: InputValueValidator> InputValueValidator for And<A, B> {
    open spec fn verdict(&self, value: ValueView) -> Option<Seq<char>> {
        match self.0.verdict(value) {
            Some(message) => Some(message),
            None => self.1.verdict(value),
        }
    }

    fn validate(&self, value: &ConstValue) -> (r: Result<(), String>) {
        match self.0.validate(value) {
            Ok(()) => self.1.validate(value),
            Err(message) => Err(message),
        }
    }
}

/// Accepts if one of the validators accepts; says what the second finds
/// wrong if both find something.
#[derive(Debug, Clone, Copy, PartialEq, Eq, Hash)]
pub struct Or<A, B>(pub A, pub B);

impl<A: InputValueValidator, B: InputValueValidator> InputValueValidator for Or<A, B> {
    open spec fn verdict(&self, value: ValueView) -> Option<Seq<char>> {
        match self.0.verdict(value) {
            None => None,
            Some(_) => self.1.verdict(value),
        }
    }

    fn validate(&self, value: &ConstValue) -> (r: Result<(), String>) {
        match self.0.validate(value) {
            Ok(()) => Ok(()),
            Err(_) => self.1.validate(value),
        }
    }
}

/// Ways to put two validators together.
pub trait InputValueValidatorExt: InputValueValidator + Sized {
    /// A validator that accepts what both `self` and `other` accept.
    fn and<R: InputValueValidator>(self, other: R) -> (r: And<Self, R>)
        ensures
            r == And(self, other),
    {
        And(self, other)
    }

    /// A validator that accepts what `self` or `other` accepts.
    fn or<R: InputValueValidator>(self, other: R) -> (r: Or<Self, R>)
        ensures
            r == Or(self, other),
    {
        Or(self, other)
    }
}

impl<I: InputValueValidator> InputValueValidatorExt for I {
}

/// Accepts an integer in a range.
#[derive(Debug, Clone, Copy, PartialEq, Eq)]
pub struct InRange {
    /// The range in which the value must lie.
    pub range: Bounds,
}

impl InRange {
    /// A validator for the range `range`.
    pub fn new(range: Bounds) -> (r: Self)
        ensures
            r.range == range,
    {
        InRange { range }
    }
}

impl InputValueValidator for InRange {
    open spec fn verdict(&self, value: ValueView) -> Option<Seq<char>> {
        match value {
            ValueView::Number(NumberView::PosInt(n)) => range_verdict(
                self.range,
                n,
                "value"@,
                None,
                "low"@,
                "high"@,
            ),
            ValueView::Number(NumberView::NegInt(n)) => range_verdict(
                self.range,
                n,
                "value"@,
                None,
                "low"@,
                "high"@,
            ),
            _ => Some("expected an integer"@),
        }
    }

    fn validate(&self, value: &ConstValue) -> (r: Result<(), String>) {
        match value {
            ConstValue::Number(Number::PosInt(n)) => range_contains(
                &self.range,
                *n as i128,
                "value",
                None,
                ("low", "high"),
            ),
            ConstValue::Number(Number::NegInt(n)) => range_contains(
                &self.range,
                *n as i128,
                "value",
                None,
                ("low", "high"),
            ),
            _ => refusal("expected an integer"),
        }
    }
}

/// Accepts a list whose length lies in a range.
#[derive(Debug, Clone, Copy, PartialEq, Eq)]
pub struct ListLength {
    /// The range in which the length of the list must lie.
    pub range: Bounds,
}

impl ListLength {
    /// A validator for lengths in the range `range`.
    pub fn new(range: Bounds) -> (r: Self)
        ensures
            r.range == range,
    {
        ListLength { range }
    }
}

impl InputValueValidator for ListLength {
    open spec fn verdict(&self, value: ValueView) -> Option<Seq<char>> {
        match value {
            ValueView::List(items) => range_verdict(
                self.range,
                items.len() as int,
                "list"@,
                Some("items"@),
                "short"@,
                "long"@,
            ),
            _ => Some("expected a list"@),
        }
    }

    fn validate(&self, value: &ConstValue) -> (r: Result<(), String>) {
        match value {
            ConstValue::List(items) => range_contains(
                &self.range,
                items.len() as i128,
                "list",
                Some("items"),
                ("short", "long"),
            ),
            _ => refusal("expected a list"),
        }
    }
}

/// Accepts a string whose length in bytes, in UTF-8, lies in a range.
#[derive(Debug, Clone, Copy, PartialEq, Eq)]
pub struct StringLength {
    /// The range in which the length of the string must lie.
    pub range: Bounds,
}

impl StringLength {
    /// A validator for lengths in the range `range`.
    pub fn new(range: Bounds) -> (r: Self)
        ensures
            r.range == range,
    {
        StringLength { range }
    }
}

impl InputValueValidator for StringLength {
    open spec fn verdict(&self, value: ValueView) -> Option<Seq<char>> {
        match value {
            ValueView::String(s) => range_verdict(
                self.range,
                (encode_utf8(s).len() as usize) as int,
                "string"@,
                Some("bytes"@),
                "short"@,
                "long"@,
            ),
            _ => Some("expected a string"@),
        }
    }

    fn validate(&self, value: &ConstValue) -> (r: Result<(), String>) {
        match value {
            ConstValue::String(s) => range_contains(
                &self.range,
                s.as_str().len() as i128,
                "string",
                Some("bytes"),
                ("short", "long"),
            ),
            _ => refusal("expected a string"),
        }
    }
}

/// Accepts a string whose number of characters lies in a range.
#[derive(Debug, Clone, Copy, PartialEq, Eq)]
pub struct StringChars {
    /// The range in which the number of characters must lie.
    pub range: Bounds,
}

impl StringChars {
    /// A validator for numbers of characters in the range `range`.
    pub fn new(range: Bounds) -> (r: Self)
        ensures
            r.range == range,
    {
        StringChars { range }
    }
}

impl InputValueValidator for StringChars {
    open spec fn verdict(&self, value: ValueView) -> Option<Seq<char>> {
        match value {
            ValueView::String(s) => range_verdict(
                self.range,
                s.len() as int,
                "string"@,
                Some("characters"@),
                "short"@,
                "long"@,
            ),
            _ => Some("expected a string"@),
        }
    }

    fn validate(&self, value: &ConstValue) -> (r: Result<(), String>) {
        match value {
            ConstValue::String(s) => range_contains(
                &self.range,
                s.as_str().unicode_len() as i128,
                "string",
                Some("characters"),
                ("short", "long"),
            ),
            _ => refusal("expected a string"),
        }
    }
}

/// What the regular expression `pattern` says of `text`: whether it matches
/// somewhere in it; none where `pattern` is not a regular expression.
pub uninterp spec fn regex_match(pattern: Seq<char>, text: Seq<char>) -> Option<bool>;

/// `Regex::new`, then `Regex::is_match`: whether the pattern matches
/// somewhere in the text; none where the pattern does not compile.
#[verifier::external_body]
fn regex_is_match(pattern: &str, text: &str) -> (r: Option<bool>)
    ensures
        r == regex_match(pattern@, text@),
{
    match regex::Regex::new(pattern) {
        Ok(regex) => Some(regex.is_match(text)),
        Err(_) => None,
    }
}

/// What a validator by the regular expression `pattern` finds wrong with
/// `value`: anything but a string that the pattern matches is `refused`.
pub open spec fn pattern_verdict(pattern: Seq<char>, value: ValueView, refused: Seq<char>)
    -> Option<Seq<char>> {
    match value {
        ValueView::String(s) => if regex_match(pattern, s) == Some(true) {
            None
        } else {
            Some(refused)
        },
        _ => Some("expected a string"@),
    }
}

/// Checks a value that the regular expression `pattern` has been run on.
pub fn judge_pattern(matched: Option<bool>, refused: &str) -> (r: Result<(), String>)
    ensures
        matched == Some(true) ==> r is Ok,
        matched != Some(true) ==> r is Err && r->Err_0@ == refused@,
{
    match matched {
        Some(true) => Ok(()),
        _ => refusal(refused),
    }
}

fn validate_pattern(pattern: &str, value: &ConstValue, refused: &str) -> (r: Result<(), String>)
    ensures
        match pattern_verdict(pattern@, value@, refused@) {
            None => r is Ok,
            Some(message) => r is Err && r->Err_0@ == message,
        },
{
    match value {
        ConstValue::String(s) => judge_pattern(regex_is_match(pattern, s.as_str()), refused),
        _ => refusal("expected a string"),
    }
}

/// The pattern of the start of an email address, up to the `@`.
pub const EMAIL_PATTERN: &'static str =
    "^(([0-9A-Za-z!#$%&'*+-/=?^_`{|}~&&[^@]]+)|(\"([0-9A-Za-z!#$%&'*+-/=?^_`{|}~ \"(),:;<>@\\[\\\\\\]]+)\"))@";

/// The pattern of a MAC address with colons.
pub const MAC_ADDRESS_PATTERN: &'static str = "^([0-9a-fA-F]{2}:){5}[0-9a-fA-F]{2}$";

/// The pattern of a MAC address without colons.
pub const MAC_ADDRESS_NO_COLON_PATTERN: &'static str = "^[0-9a-fA-F]{12}$";

/// Accepts a string that starts as an email address does.
#[derive(Debug, Clone, Copy, PartialEq, Eq, Hash)]
pub struct Email;

impl Default for Email {
    /// The validator of email addresses; there is only one.
    fn default() -> (r: Self)
        ensures
            r == Email,
    {
        Email
    }
}

impl InputValueValidator for Email {
    open spec fn verdict(&self, value: ValueView) -> Option<Seq<char>> {
        pattern_verdict(EMAIL_PATTERN@, value, "expected a valid email"@)
    }

    fn validate(&self, value: &ConstValue) -> (r: Result<(), String>) {
        validate_pattern(EMAIL_PATTERN, value, "expected a valid email")
    }
}

/// Accepts a string that is a MAC address.
#[derive(Debug, Clone, Copy, PartialEq, Eq, Hash)]
pub struct MAC {
    /// Whether the address must be written with colons.
    pub colon: bool,
}

impl Default for MAC {
    /// A validator for addresses that are written without colons.
    fn default() -> (r: Self)
        ensures
            !r.colon,
    {
        MAC { colon: false }
    }
}

impl MAC {
    /// The same validator, with `colon` saying whether the address must be
    /// written with colons.
    pub fn colon(self, colon: bool) -> (r: Self)
        ensures
            r.colon == colon,
    {
        MAC { colon }
    }
}

impl InputValueValidator for MAC {
    open spec fn verdict(&self, value: ValueView) -> Option<Seq<char>> {
        pattern_verdict(
            if self.colon {
                MAC_ADDRESS_PATTERN@
            } else {
                MAC_ADDRESS_NO_COLON_PATTERN@
            },
            value,
            "expected a valid MAC address"@,
        )
    }

    fn validate(&self, value: &ConstValue) -> (r: Result<(), String>) {
        if self.colon {
            validate_pattern(MAC_ADDRESS_PATTERN, value, "expected a valid MAC address")
        } else {
            validate_pattern(MAC_ADDRESS_NO_COLON_PATTERN, value, "expected a valid MAC address")
        }
    }
}

} // verus!
