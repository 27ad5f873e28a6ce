//! Rendering of values in the literal syntax of the query language.

use vstd::prelude::*;
use vstd::std_specs::iter::IteratorSpec;
use crate::number::number_text;
use crate::text::{push_char, push_text};
use crate::value::{ConstValue, EntryView, Value, ValueView};

verus! {

/// The character of the hexadecimal digit `d`, in lower case.
pub open spec fn hex_digit_char(d: int) -> char {
    if d == 0 {
        '0'
    } else if d == 1 {
        '1'
    } else if d == 2 {
        '2'
    } else if d == 3 {
        '3'
    } else if d == 4 {
        '4'
    } else if d == 5 {
        '5'
    } else if d == 6 {
        '6'
    } else if d == 7 {
        '7'
    } else if d == 8 {
        '8'
    } else if d == 9 {
        '9'
    } else if d == 10 {
        'a'
    } else if d == 11 {
        'b'
    } else if d == 12 {
        'c'
    } else if d == 13 {
        'd'
    } else if d == 14 {
        'e'
    } else {
        'f'
    }
}

/// The four hexadecimal digits of `n`, the lowest sixteen bits of it.
pub open spec fn hex4(n: int) -> Seq<char> {
    seq![
        hex_digit_char((n / 4096) % 16),
        hex_digit_char((n / 256) % 16),
        hex_digit_char((n / 16) % 16),
        hex_digit_char(n % 16),
    ]
}

/// Whether `c` is a control character: U+0000 to U+001F, or U+007F to U+009F.
pub open spec fn is_control(c: char) -> bool {
    (c as u32) <= 0x1f || (0x7f <= (c as u32) && (c as u32) <= 0x9f)
}

/// How one character of a string is written between the quotes.
pub open spec fn escape(c: char) -> Seq<char> {
    if c == '\r' {
        seq!['\\', 'r']
    } else if c == '\n' {
        seq!['\\', 'n']
    } else if c == '\t' {
        seq!['\\', 't']
    } else if c == '"' {
        seq!['\\', '"']
    } else if c == '\\' {
        seq!['\\', '\\']
    } else if is_control(c) {
        seq!['\\', 'u'] + hex4(c as u32 as int)
    } else {
        seq![c]
    }
}

/// The characters of `s`, each written as [`escape`] says.
pub open spec fn escaped(s: Seq<char>) -> Seq<char>
    decreases s.len(),
{
    if s.len() == 0 {
        Seq::empty()
    } else {
        escaped(s.drop_last()) + escape(s.last())
    }
}

/// The string `s` as a literal: escaped, between double quotes.
pub open spec fn quoted(s: Seq<char>) -> Seq<char> {
    seq!['"'] + escaped(s) + seq!['"']
}

/// The literal text of a value.
///
/// A list is written in brackets and an object in braces; each item of a
/// list, and each `key: value` pair of an object, is followed by a comma.
pub open spec fn render(v: ValueView) -> Seq<char>
    decreases v,
{
    match v {
        ValueView::Variable(name) => seq!['$'] + name,
        ValueView::Null => seq!['n', 'u', 'l', 'l'],
        ValueView::Number(n) => number_text(n),
        ValueView::String(s) => quoted(s),
        ValueView::Boolean(b) => if b {
            seq!['t', 'r', 'u', 'e']
        } else {
            seq!['f', 'a', 'l', 's', 'e']
        },
        ValueView::Enum(name) => name,
        ValueView::List(items) => seq!['['] + render_items(items) + seq![']'],
        ValueView::Object(entries) => seq!['{'] + render_entries(entries) + seq!['}'],
    }
}

/// The items of a list, each followed by a comma.
pub open spec fn render_items(items: Seq<ValueView>) -> Seq<char>
    decreases items,
{
    if items.len() == 0 {
        Seq::empty()
    } else {
        render_items(items.drop_last()) + render(items.last()) + seq![',']
    }
}

/// The entries of an object, each as `key: value` and followed by a comma.
pub open spec fn render_entries(entries: Seq<EntryView>) -> Seq<char>
    decreases entries,
{
    if entries.len() == 0 {
        Seq::empty()
    } else {
        render_entries(entries.drop_last()) + entries.last().key + seq![':', ' '] + render(
            entries.last().value,
        ) + seq![',']
    }
}

proof fn lemma_render_items_step(items: Seq<ValueView>, i: int)
    requires
        0 <= i < items.len(),
    ensures
        render_items(items.take(i + 1)) == render_items(items.take(i)) + render(items[i]) + seq![
            ',',
        ],
{
    assert(items.take(i + 1).drop_last() =~= items.take(i));
}

proof fn lemma_render_entries_step(entries: Seq<EntryView>, i: int)
    requires
        0 <= i < entries.len(),
    ensures
        render_entries(entries.take(i + 1)) == render_entries(entries.take(i)) + entries[i].key
            + seq![':', ' '] + render(entries[i].value) + seq![','],
{
    assert(entries.take(i + 1).drop_last() =~= entries.take(i));
}

fn hex_digit(d: u32) -> (c: char)
    requires
        d < 16,
    ensures
        c == hex_digit_char(d as int),
{
    if d == 0 {
        '0'
    } else if d == 1 {
        '1'
    } else if d == 2 {
        '2'
    } else if d == 3 {
        '3'
    } else if d == 4 {
        '4'
    } else if d == 5 {
        '5'
    } else if d == 6 {
        '6'
    } else if d == 7 {
        '7'
    } else if d == 8 {
        '8'
    } else if d == 9 {
        '9'
    } else if d == 10 {
        'a'
    } else if d == 11 {
        'b'
    } else if d == 12 {
        'c'
    } else if d == 13 {
        'd'
    } else if d == 14 {
        'e'
    } else {
        'f'
    }
}

fn write_escape(c: char, out: &mut String)
    ensures
        final(out)@ == old(out)@ + escape(c),
{
    if c == '\r' {
        push_char(out, '\\');
        push_char(out, 'r');
    } else if c == '\n' {
        push_char(out, '\\');
        push_char(out, 'n');
    } else if c == '\t' {
        push_char(out, '\\');
        push_char(out, 't');
    } else if c == '"' {
        push_char(out, '\\');
        push_char(out, '"');
    } else if c == '\\' {
        push_char(out, '\\');
        push_char(out, '\\');
    } else {
        let n: u32 = c as u32;
        if n <= 0x1f || (0x7f <= n && n <= 0x9f) {
            push_char(out, '\\');
            push_char(out, 'u');
            push_char(out, hex_digit((n / 4096) % 16));
            push_char(out, hex_digit((n / 256) % 16));
            push_char(out, hex_digit((n / 16) % 16));
            push_char(out, hex_digit(n % 16));
        } else {
            push_char(out, c);
        }
    }
    assert(out@ =~= old(out)@ + escape(c));
}

/// Appends `s` to `out` as a string literal: between double quotes, with
/// `\r`, `\n`, `\t`, `"` and `\` escaped by a backslash and every other
/// control character written as `\u` and four hexadecimal digits.
pub fn write_quoted(s: &str, out: &mut String)
    ensures
        final(out)@ == old(out)@ + quoted(s@),
{
    push_char(out, '"');
    let ghost mut n: int = 0;
    let mut chars = s.chars();
    loop
        invariant
            0 <= n <= s@.len(),
            chars.remaining() == s@.subrange(n, s@.len() as int),
            out@ == old(out)@ + seq!['"'] + escaped(s@.take(n)),
        ensures
            out@ == old(out)@ + seq!['"'] + escaped(s@),
        decreases s@.len() - n,
    {
        match chars.next() {
            Some(c) => {
                write_escape(c, out);
                proof {
                    assert(c == s@[n]);
                    assert(s@.take(n + 1).drop_last() =~= s@.take(n));
                    assert(chars.remaining() =~= s@.subrange(n + 1, s@.len() as int));
                    assert(out@ =~= old(out)@ + seq!['"'] + escaped(s@.take(n + 1)));
                    n = n + 1;
                }
            },
            None => {
                assert(s@.take(n) =~= s@);
                break;
            },
        }
    }
    push_char(out, '"');
    assert(out@ =~= old(out)@ + quoted(s@));
}

impl ConstValue {
    /// Appends the literal text of the value to `out`.
    pub fn write_to(&self, out: &mut String)
        ensures
            final(out)@ == old(out)@ + render(self@),
        decreases self,
    {
        match self {
            ConstValue::Null => {
                proof {
                    reveal_strlit("null");
                }
                push_text(out, "null");
                assert(out@ =~= old(out)@ + render(self@));
            },
            ConstValue::Number(n) => n.write_to(out),
            ConstValue::String(s) => write_quoted(s.as_str(), out),
            ConstValue::Boolean(b) => {
                proof {
                    reveal_strlit("true");
                    reveal_strlit("false");
                }
                if *b {
                    push_text(out, "true");
                } else {
                    push_text(out, "false");
                }
                assert(out@ =~= old(out)@ + render(self@));
            },
            ConstValue::Enum(name) => push_text(out, name.as_str()),
            ConstValue::List(items) => {
                push_char(out, '[');
                let mut i: usize = 0;
                while i < items.len()
                    invariant
                        i <= items.len(),
                        self@ is List,
                        self@->List_0.len() == items@.len(),
                        forall|j: int| 0 <= j < items@.len() ==> self@->List_0[j] == items@[j]@,
                        decreases_to!(self => items),
                        out@ == old(out)@ + seq!['['] + render_items(self@->List_0.take(i as int)),
                    decreases items.len() - i,
                {
                    items[i].write_to(out);
                    push_char(out, ',');
                    proof {
                        lemma_render_items_step(self@->List_0, i as int);
                        assert(out@ =~= old(out)@ + seq!['['] + render_items(
                            self@->List_0.take(i as int + 1),
                        ));
                    }
                    i += 1;
                }
                push_char(out, ']');
                proof {
                    assert(self@->List_0.take(i as int) =~= self@->List_0);
                    assert(out@ =~= old(out)@ + render(self@));
                }
            },
            ConstValue::Object(entries) => {
                push_char(out, '{');
                let mut i: usize = 0;
                while i < entries.len()
                    invariant
                        i <= entries.len(),
                        self@ is Object,
                        self@->Object_0.len() == entries@.len(),
                        forall|j: int|
                            0 <= j < entries@.len() ==> self@->Object_0[j] == (EntryView {
                                key: entries@[j].0@,
                                value: entries@[j].1@,
                            }),
                        decreases_to!(self => entries),
                        out@ == old(out)@ + seq!['{'] + render_entries(
                            self@->Object_0.take(i as int),
                        ),
                    decreases entries.len() - i,
                {
                    proof {
                        reveal_strlit(": ");
                    }
                    push_text(out, entries[i].0.as_str());
                    push_text(out, ": ");
                    entries[i].1.write_to(out);
                    push_char(out, ',');
                    proof {
                        lemma_render_entries_step(self@->Object_0, i as int);
                        assert(": "@ =~= seq![':', ' ']);
                        assert(out@ =~= old(out)@ + seq!['{'] + render_entries(
                            self@->Object_0.take(i as int + 1),
                        ));
                    }
                    i += 1;
                }
                push_char(out, '}');
                proof {
                    assert(self@->Object_0.take(i as int) =~= self@->Object_0);
                    assert(out@ =~= old(out)@ + render(self@));
                }
            },
        }
    }

    /// The literal text of the value.
    pub fn to_string(&self) -> (r: String)
        ensures
            r@ == render(self@),
    {
        let mut out = String::new();
        self.write_to(&mut out);
        assert(out@ =~= render(self@));
        out
    }
}

impl Value {
    /// Appends the literal text of the value to `out`.
    pub fn write_to(&self, out: &mut String)
        ensures
            final(out)@ == old(out)@ + render(self@),
        decreases self,
    {
        match self {
            Value::Variable(name) => {
                push_char(out, '$');
                push_text(out, name.as_str());
                assert(out@ =~= old(out)@ + render(self@));
            },
            Value::Null => {
                proof {
                    reveal_strlit("null");
                }
                push_text(out, "null");
                assert(out@ =~= old(out)@ + render(self@));
            },
            Value::Number(n) => n.write_to(out),
            Value::String(s) => write_quoted(s.as_str(), out),
            Value::Boolean(b) => {
                proof {
                    reveal_strlit("true");
                    reveal_strlit("false");
                }
                if *b {
                    push_text(out, "true");
                } else {
                    push_text(out, "false");
                }
                assert(out@ =~= old(out)@ + render(self@));
            },
            Value::Enum(name) => push_text(out, name.as_str()),
            Value::List(items) => {
                push_char(out, '[');
                let mut i: usize = 0;
                while i < items.len()
                    invariant
                        i <= items.len(),
                        self@ is List,
                        self@->List_0.len() == items@.len(),
                        forall|j: int| 0 <= j < items@.len() ==> self@->List_0[j] == items@[j]@,
                        decreases_to!(self => items),
                        out@ == old(out)@ + seq!['['] + render_items(self@->List_0.take(i as int)),
                    decreases items.len() - i,
                {
                    items[i].write_to(out);
                    push_char(out, ',');
                    proof {
                        lemma_render_items_step(self@->List_0, i as int);
                        assert(out@ =~= old(out)@ + seq!['['] + render_items(
                            self@->List_0.take(i as int + 1),
                        ));
                    }
                    i += 1;
                }
                push_char(out, ']');
                proof {
                    assert(self@->List_0.take(i as int) =~= self@->List_0);
                    assert(out@ =~= old(out)@ + render(self@));
                }
            },
            Value::Object(entries) => {
                push_char(out, '{');
                let mut i: usize = 0;
                while i < entries.len()
                    invariant
                        i <= entries.len(),
                        self@ is Object,
                        self@->Object_0.len() == entries@.len(),
                        forall|j: int|
                            0 <= j < entries@.len() ==> self@->Object_0[j] == (EntryView {
                                key: entries@[j].0@,
                                value: entries@[j].1@,
                            }),
                        decreases_to!(self => entries),
                        out@ == old(out)@ + seq!['{'] + render_entries(
                            self@->Object_0.take(i as int),
                        ),
                    decreases entries.len() - i,
                {
                    proof {
                        reveal_strlit(": ");
                    }
                    push_text(out, entries[i].0.as_str());
                    push_text(out, ": ");
                    entries[i].1.write_to(out);
                    push_char(out, ',');
                    proof {
                        lemma_render_entries_step(self@->Object_0, i as int);
                        assert(": "@ =~= seq![':', ' ']);
                        assert(out@ =~= old(out)@ + seq!['{'] + render_entries(
                            self@->Object_0.take(i as int + 1),
                        ));
                    }
                    i += 1;
                }
                push_char(out, '}');
                proof {
                    assert(self@->Object_0.take(i as int) =~= self@->Object_0);
                    assert(out@ =~= old(out)@ + render(self@));
                }
            },
        }
    }

    /// The literal text of the value.
    pub fn to_string(&self) -> (r: String)
        ensures
            r@ == render(self@),
    {
        let mut out = String::new();
        self.write_to(&mut out);
        assert(out@ =~= render(self@));
        out
    }
}

} // verus!
