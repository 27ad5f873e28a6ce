//! Text helpers shared by the rest of the library.

use vstd::prelude::*;
use vstd::std_specs::iter::IteratorSpec;

verus! {

/// Compares two string slices character by character.
pub fn str_eq(a: &str, b: &str) -> (r: bool)
    ensures
        r == (a@ == b@),
{
    let mut x = a.chars();
    let mut y = b.chars();
    let ghost mut n: int = 0;
    loop
        invariant
            0 <= n <= a@.len(),
            n <= b@.len(),
            a@.subrange(0, n) == b@.subrange(0, n),
            x.remaining() == a@.subrange(n, a@.len() as int),
            y.remaining() == b@.subrange(n, b@.len() as int),
        decreases a@.len() - n,
    {
        match (x.next(), y.next()) {
            (None, None) => {
                assert(a@ =~= a@.subrange(0, n));
                assert(b@ =~= b@.subrange(0, n));
                return true;
            },
            (Some(c), Some(d)) => {
                assert(c == a@[n] && d == b@[n]);
                if c != d {
                    return false;
                }
                proof {
                    assert(a@.subrange(0, n + 1) =~= a@.subrange(0, n).push(c));
                    assert(b@.subrange(0, n + 1) =~= b@.subrange(0, n).push(d));
                    assert(x.remaining() =~= a@.subrange(n + 1, a@.len() as int));
                    assert(y.remaining() =~= b@.subrange(n + 1, b@.len() as int));
                    n = n + 1;
                }
            },
            _ => {
                assert(a@.len() != b@.len());
                return false;
            },
        }
    }
}

/// Appends one character to `s`. This is `String::push`, which adds the
/// character at the end and changes nothing else.
#[verifier::external_body]
pub(crate) fn push_char(s: &mut String, c: char)
    ensures
        final(s)@ == old(s)@.push(c),
{
    s.push(c)
}

/// The character of the decimal digit `d`.
pub open spec fn digit_char(d: int) -> char {
    if d == 0 {
        '0'
    } else if d == 1 {
        '1'
    } else if d == 2 {
        '2'
    } else if d == 3 {
        '3'
    } else if d == 4 {
        '4'
    } else if d == 5 {
        '5'
    } else if d == 6 {
        '6'
    } else if d == 7 {
        '7'
    } else if d == 8 {
        '8'
    } else {
        '9'
    }
}

/// The decimal numeral of `n`, without leading zeros.
pub open spec fn decimal(n: nat) -> Seq<char>
    decreases n,
{
    if n < 10 {
        seq![digit_char(n as int)]
    } else {
        decimal(n / 10).push(digit_char((n % 10) as int))
    }
}

/// The decimal numeral of `i`, with a minus sign if it is negative.
pub open spec fn signed_decimal(i: int) -> Seq<char> {
    if i < 0 {
        seq!['-'] + decimal((-i) as nat)
    } else {
        decimal(i as nat)
    }
}

fn digit(d: u128) -> (c: char)
    requires
        d < 10,
    ensures
        c == digit_char(d as int),
{
    if d == 0 {
        '0'
    } else if d == 1 {
        '1'
    } else if d == 2 {
        '2'
    } else if d == 3 {
        '3'
    } else if d == 4 {
        '4'
    } else if d == 5 {
        '5'
    } else if d == 6 {
        '6'
    } else if d == 7 {
        '7'
    } else if d == 8 {
        '8'
    } else {
        '9'
    }
}

/// Appends the decimal numeral of `n` to `out`.
pub fn push_decimal(out: &mut String, n: u128)
    ensures
        final(out)@ == old(out)@ + decimal(n as nat),
    decreases n,
{
    if n < 10 {
        push_char(out, digit(n));
        assert(out@ =~= old(out)@ + decimal(n as nat));
    } else {
        push_decimal(out, n / 10);
        push_char(out, digit(n % 10));
        assert(out@ =~= old(out)@ + decimal(n as nat));
    }
}

/// Appends the decimal numeral of `i` to `out`, with a minus sign if `i` is
/// negative.
pub fn push_signed_decimal(out: &mut String, i: i128)
    ensures
        final(out)@ == old(out)@ + signed_decimal(i as int),
{
    if i < 0 {
        push_char(out, '-');
        let m: u128 = if i == i128::MIN {
            170141183460469231731687303715884105728u128
        } else {
            (-i) as u128
        };
        push_decimal(out, m);
        assert(out@ =~= old(out)@ + signed_decimal(i as int));
    } else {
        push_decimal(out, i as u128);
    }
}

/// Appends the text of `s` to `out`.
pub fn push_text(out: &mut String, s: &str)
    ensures
        final(out)@ == old(out)@ + s@,
{
    out.append(s);
}

/// The items of `v` in reverse order.
pub fn reversed<T>(v: Vec<T>) -> (r: Vec<T>)
    ensures
        r@ == v@.reverse(),
{
    let ghost before = v@;
    let mut v = v;
    let mut r: Vec<T> = Vec::new();
    while v.len() > 0
        invariant
            v@.len() + r@.len() == before.len(),
            forall|j: int| 0 <= j < v@.len() ==> v@[j] == before[j],
            forall|j: int| 0 <= j < r@.len() ==> r@[j] == before[before.len() - 1 - j],
        decreases v@.len(),
    {
        let item = v.pop().unwrap();
        r.push(item);
    }
    assert(r@ =~= before.reverse());
    r
}

/// The characters of `s`.
pub fn chars_of(s: &str) -> (r: Vec<char>)
    ensures
        r@ == s@,
{
    let mut out: Vec<char> = Vec::new();
    let mut chars = s.chars();
    loop
        invariant
            out@.len() <= s@.len(),
            chars.remaining() == s@.subrange(out@.len() as int, s@.len() as int),
            out@ == s@.take(out@.len() as int),
        ensures
            out@ == s@,
        decreases s@.len() - out@.len(),
    {
        let ghost n = out@.len() as int;
        match chars.next() {
            Some(c) => {
                out.push(c);
                proof {
                    assert(c == s@[n]);
                    assert(chars.remaining() =~= s@.subrange(n + 1, s@.len() as int));
                    assert(out@ =~= s@.take(n + 1));
                }
            },
            None => {
                assert(s@.take(n) =~= s@);
                break;
            },
        }
    }
    out
}

/// The string made of the characters of `chars` from `lo` up to `hi`.
pub fn string_of(chars: &Vec<char>, lo: usize, hi: usize) -> (r: String)
    requires
        lo <= hi <= chars@.len(),
    ensures
        r@ == chars@.subrange(lo as int, hi as int),
{
    let mut out = String::new();
    let mut i: usize = lo;
    while i < hi
        invariant
            lo <= i <= hi <= chars@.len(),
            out@ == chars@.subrange(lo as int, i as int),
        decreases hi - i,
    {
        push_char(&mut out, chars[i]);
        assert(out@ =~= chars@.subrange(lo as int, i as int + 1));
        i += 1;
    }
    out
}

/// Whether `c` is a decimal digit.
pub open spec fn is_digit(c: char) -> bool {
    '0' <= c && c <= '9'
}

/// The number that the decimal digits `s` spell; none if `s` is empty or
/// holds anything but digits.
pub open spec fn digits_value(s: Seq<char>) -> Option<nat>
    decreases s.len(),
{
    if s.len() == 0 {
        None
    } else if !is_digit(s.last()) {
        None
    } else if s.len() == 1 {
        Some((s.last() as int - '0' as int) as nat)
    } else {
        match digits_value(s.drop_last()) {
            Some(front) => Some((front * 10 + (s.last() as int - '0' as int)) as nat),
            None => None,
        }
    }
}

/// The number that `text` spells without a sign or after a `+`, if it is
/// at most `limit`.
pub open spec fn unsigned_of(text: Seq<char>, limit: nat) -> Option<nat> {
    let digits = if text.len() > 0 && text[0] == '+' {
        text.drop_first()
    } else {
        text
    };
    match digits_value(digits) {
        Some(n) => if n <= limit {
            Some(n)
        } else {
            None
        },
        None => None,
    }
}

/// The number that `text` spells, with a sign or without, if it lies from
/// `-below` to `above`.
pub open spec fn signed_of(text: Seq<char>, below: nat, above: nat) -> Option<int> {
    if text.len() > 0 && text[0] == '-' {
        match digits_value(text.drop_first()) {
            Some(n) => if n <= below {
                Some(-(n as int))
            } else {
                None
            },
            None => None,
        }
    } else {
        match unsigned_of(text, above) {
            Some(n) => Some(n as int),
            None => None,
        }
    }
}

proof fn lemma_digits_all(s: Seq<char>, k: int)
    requires
        0 <= k < s.len(),
        !is_digit(s[k]),
    ensures
        digits_value(s) is None,
    decreases s.len(),
{
    if k < s.len() - 1 {
        lemma_digits_all(s.drop_last(), k);
    }
}

/// Reads the digits of `chars` from `from` up to `hi` as a number of at
/// most `limit`.
fn parse_digits(chars: &Vec<char>, from: usize, hi: usize, limit: u128) -> (r: Option<u128>)
    requires
        from <= hi <= chars@.len(),
        limit <= 0x1_0000_0000_0000_0000,
    ensures
        match digits_value(chars@.subrange(from as int, hi as int)) {
            Some(n) => if n <= limit {
                r == Some(n as u128)
            } else {
                r is None
            },
            None => r is None,
        },
{
    let ghost digits = chars@.subrange(from as int, hi as int);
    if from == hi {
        return None;
    }
    let mut acc: u128 = 0;
    let mut k: usize = from;
    while k < hi
        invariant
            from <= k <= hi <= chars@.len(),
            from < hi,
            limit <= 0x1_0000_0000_0000_0000,
            digits == chars@.subrange(from as int, hi as int),
            acc <= limit + 1,
            k > from ==> match digits_value(digits.take(k - from)) {
                Some(v) => acc == v || (acc == limit + 1 && v > limit),
                None => false,
            },
            k == from ==> acc == 0,
        decreases hi - k,
    {
        let c = chars[k];
        assert(c == digits[k - from]);
        if !(c >= '0' && c <= '9') {
            proof {
                lemma_digits_all(digits, k - from);
            }
            return None;
        }
        let d: u128 = (c as u32 - '0' as u32) as u128;
        proof {
            let now = digits.take(k - from + 1);
            assert(now.drop_last() =~= digits.take(k - from));
            assert(now.last() == c);
        }
        let next = acc * 10 + d;
        acc = if next > limit {
            limit + 1
        } else {
            next
        };
        k += 1;
    }
    assert(digits.take(hi - from) =~= digits);
    if acc <= limit {
        Some(acc)
    } else {
        None
    }
}

/// Reads the characters of `chars` from `lo` up to `hi` as a number without
/// a sign, or after a `+`, of at most `limit`.
pub fn parse_unsigned(chars: &Vec<char>, lo: usize, hi: usize, limit: u64) -> (r: Option<u64>)
    requires
        lo <= hi <= chars@.len(),
    ensures
        match unsigned_of(chars@.subrange(lo as int, hi as int), limit as nat) {
            Some(n) => r == Some(n as u64),
            None => r is None,
        },
{
    let ghost text = chars@.subrange(lo as int, hi as int);
    let from = if hi > lo && chars[lo] == '+' {
        lo + 1
    } else {
        lo
    };
    assert(chars@.subrange(from as int, hi as int) =~= if text.len() > 0 && text[0] == '+' {
        text.drop_first()
    } else {
        text
    });
    match parse_digits(chars, from, hi, limit as u128) {
        Some(n) => Some(n as u64),
        None => None,
    }
}

/// Reads the characters of `chars` from `lo` up to `hi` as a number with a
/// sign or without, of 64 bits.
pub fn parse_signed(chars: &Vec<char>, lo: usize, hi: usize) -> (r: Option<i64>)
    requires
        lo <= hi <= chars@.len(),
    ensures
        match signed_of(
            chars@.subrange(lo as int, hi as int),
            0x8000_0000_0000_0000,
            0x7fff_ffff_ffff_ffff,
        ) {
            Some(n) => r == Some(n as i64),
            None => r is None,
        },
{
    let ghost text = chars@.subrange(lo as int, hi as int);
    if hi > lo && chars[lo] == '-' {
        assert(chars@.subrange(lo as int + 1, hi as int) =~= text.drop_first());
        match parse_digits(chars, lo + 1, hi, 0x8000_0000_0000_0000) {
            Some(n) => if n == 0x8000_0000_0000_0000 {
                Some(i64::MIN)
            } else {
                Some(-(n as i64))
            },
            None => None,
        }
    } else {
        match parse_unsigned(chars, lo, hi, 0x7fff_ffff_ffff_ffff) {
            Some(n) => Some(n as i64),
            None => None,
        }
    }
}

} // verus!
