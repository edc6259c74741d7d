//! Bounded display text and the digit-formatting rules of a reading.

use vstd::prelude::*;

verus! {

/// heapless's fixed-capacity string, which carries readings to the display;
/// proofs see it only through [`text_chars`].
#[verifier::external_type_specification]
#[verifier::external_body]
pub struct ExHeaplessString<const N: usize>(heapless::String<N>);

/// The characters held by a bounded text.
pub uninterp spec fn text_chars(s: heapless::String<32>) -> Seq<char>;

/// Every character is ASCII, so that each one takes exactly one byte.
pub open spec fn is_ascii(s: Seq<char>) -> bool {
    forall|i: int| 0 <= i < s.len() ==> (s[i] as u32) < 128
}

/// Relies on heapless::String::new: the new string is empty.
#[verifier::external_body]
fn text_new() -> (r: heapless::String<32>)
    ensures
        text_chars(r) == Seq::<char>::empty(),
{
    heapless::String::new()
}

/// Relies on heapless::String::push: an ASCII character is appended when the
/// string still has a free byte; on failure the string is unchanged.
#[verifier::external_body]
fn text_push(s: &mut heapless::String<32>, c: char) -> (r: Result<(), ()>)
    ensures
        r.is_ok() ==> text_chars(*final(s)) == text_chars(*old(s)).push(c),
        r.is_err() ==> text_chars(*final(s)) == text_chars(*old(s)),
        (c as u32) < 128 && is_ascii(text_chars(*old(s))) && text_chars(*old(s)).len() < 32
            ==> r.is_ok(),
{
    s.push(c)
}

/// Relies on heapless::String::clone: the copy holds the same characters.
#[verifier::external_body]
pub(crate) fn text_clone(s: &heapless::String<32>) -> (r: heapless::String<32>)
    ensures
        text_chars(r) == text_chars(*s),
{
    s.clone()
}

/// The ASCII character of a decimal digit.
pub open spec fn digit_char(d: nat) -> char
    recommends
        d < 10,
{
    if d == 0 { '0' }
    else if d == 1 { '1' }
    else if d == 2 { '2' }
    else if d == 3 { '3' }
    else if d == 4 { '4' }
    else if d == 5 { '5' }
    else if d == 6 { '6' }
    else if d == 7 { '7' }
    else if d == 8 { '8' }
    else { '9' }
}

/// The last `width` decimal digits of `n`, zero-padded on the left.
pub open spec fn padded(n: nat, width: nat) -> Seq<char>
    decreases width,
{
    if width == 0 {
        Seq::<char>::empty()
    } else {
        padded(n / 10, (width - 1) as nat).push(digit_char(n % 10))
    }
}

/// The decimal digits of `n`, without leading zeros.
pub open spec fn decimal(n: nat) -> Seq<char>
    decreases n,
{
    if n < 10 {
        seq![digit_char(n)]
    } else {
        decimal(n / 10).push(digit_char(n % 10))
    }
}

fn digit(d: u64) -> (c: char)
    requires
        d < 10,
    ensures
        c == digit_char(d as nat),
        (c as u32) < 128,
{
    if d == 0 { '0' }
    else if d == 1 { '1' }
    else if d == 2 { '2' }
    else if d == 3 { '3' }
    else if d == 4 { '4' }
    else if d == 5 { '5' }
    else if d == 6 { '6' }
    else if d == 7 { '7' }
    else if d == 8 { '8' }
    else { '9' }
}

/// Appends one ASCII character to a text known to have room for it.
fn push_char(s: &mut heapless::String<32>, c: char)
    requires
        (c as u32) < 128,
        is_ascii(text_chars(*old(s))),
        text_chars(*old(s)).len() < 32,
    ensures
        text_chars(*final(s)) == text_chars(*old(s)).push(c),
        is_ascii(text_chars(*final(s))),
{
    let _ = text_push(s, c);
}

/// Appends the last `width` digits of `n`, zero-padded.
fn push_padded(s: &mut heapless::String<32>, n: u64, width: u8)
    requires
        is_ascii(text_chars(*old(s))),
        text_chars(*old(s)).len() + width <= 32,
    ensures
        text_chars(*final(s)) == text_chars(*old(s)) + padded(n as nat, width as nat),
        is_ascii(text_chars(*final(s))),
    decreases width,
{
    if width > 0 {
        push_padded(s, n / 10, width - 1);
        proof {
            lemma_padded_len((n / 10) as nat, (width - 1) as nat);
        }
        push_char(s, digit(n % 10));
        assert(text_chars(*s) =~= text_chars(*old(s)) + padded(n as nat, width as nat));
    } else {
        assert(text_chars(*s) =~= text_chars(*old(s)) + padded(n as nat, width as nat));
    }
}

proof fn lemma_padded_len(n: nat, width: nat)
    ensures
        padded(n, width).len() == width,
    decreases width,
{
    if width > 0 {
        lemma_padded_len(n / 10, (width - 1) as nat);
    }
}

proof fn lemma_decimal_short(n: nat)
    requires
        n < 1000,
    ensures
        n < 100 ==> decimal(n).len() <= 2,
        decimal(n).len() <= 3,
{
    reveal_with_fuel(decimal, 3);
}

/// Appends the decimal digits of `n` (below one thousand).
fn push_decimal(s: &mut heapless::String<32>, n: u64)
    requires
        n < 1000,
        is_ascii(text_chars(*old(s))),
        text_chars(*old(s)).len() + 3 <= 32,
    ensures
        text_chars(*final(s)) == text_chars(*old(s)) + decimal(n as nat),
        is_ascii(text_chars(*final(s))),
    decreases n,
{
    if n >= 10 {
        push_decimal(s, n / 10);
        proof {
            lemma_decimal_short((n / 10) as nat);
        }
        push_char(s, digit(n % 10));
    } else {
        push_char(s, digit(n));
    }
    assert(text_chars(*s) =~= text_chars(*old(s)) + decimal(n as nat));
}

/// Smallest resistance, in ohms, that is no longer shown as a number.
pub const MAX_DISPLAY_OHMS: u64 = 4_000_000;

/// A fraction: an integer part, a decimal point, a fractional part, and a
/// unit letter.
pub open spec fn scaled(int_part: Seq<char>, frac_part: Seq<char>, unit: char) -> Seq<char> {
    int_part + seq!['.'] + frac_part + seq![unit]
}

/// The text of a resistance of `ohms` whole ohms, or `None` where the value
/// is too large to display.
///
/// Below 1 kilohm the whole ohms are shown; up to 1 megohm the value is shown
/// in kilohms with 3, 2 or 1 fractional digits (for 1, 2 or 3 integer digits);
/// from 1 megohm on it is shown in megohms with 3 fractional digits.
pub open spec fn reading_text(ohms: nat) -> Option<Seq<char>> {
    if ohms < 1000 {
        Some(decimal(ohms))
    } else if ohms < 10_000 {
        Some(scaled(padded(ohms / 1000, 1), padded(ohms % 1000, 3), 'K'))
    } else if ohms < 100_000 {
        Some(scaled(padded(ohms / 1000, 2), padded((ohms / 10) % 100, 2), 'K'))
    } else if ohms < 1_000_000 {
        Some(scaled(padded(ohms / 1000, 3), padded((ohms / 100) % 10, 1), 'K'))
    } else if ohms < MAX_DISPLAY_OHMS {
        Some(scaled(padded(ohms / 1_000_000, 1), padded((ohms / 1000) % 1000, 3), 'M'))
    } else {
        None
    }
}

/// Appends `int_part.frac_part` followed by the unit letter.
fn push_scaled(
    s: &mut heapless::String<32>,
    int_part: u64,
    int_width: u8,
    frac_part: u64,
    frac_width: u8,
    unit: char,
)
    requires
        text_chars(*old(s)).len() == 0,
        int_width <= 3,
        frac_width <= 3,
        (unit as u32) < 128,
    ensures
        text_chars(*final(s)) == scaled(
            padded(int_part as nat, int_width as nat),
            padded(frac_part as nat, frac_width as nat),
            unit,
        ),
        is_ascii(text_chars(*final(s))),
{
    let ghost empty = text_chars(*s);
    push_padded(s, int_part, int_width);
    proof {
        lemma_padded_len(int_part as nat, int_width as nat);
    }
    push_char(s, '.');
    push_padded(s, frac_part, frac_width);
    proof {
        lemma_padded_len(frac_part as nat, frac_width as nat);
    }
    push_char(s, unit);
    assert(text_chars(*s) =~= scaled(
        padded(int_part as nat, int_width as nat),
        padded(frac_part as nat, frac_width as nat),
        unit,
    ));
}

/// Formats a resistance of `ohms` whole ohms for the display, or returns
/// `None` where it is at or above [`MAX_DISPLAY_OHMS`].
pub fn format_ohms(ohms: u64) -> (r: Option<heapless::String<32>>)
    ensures
        r.is_none() <==> reading_text(ohms as nat).is_none(),
        r.is_some() ==> text_chars(r->Some_0) == reading_text(ohms as nat)->Some_0,
        r.is_some() ==> is_ascii(text_chars(r->Some_0)),
{
    let mut s = text_new();
    if ohms < 1000 {
        push_decimal(&mut s, ohms);
        assert(text_chars(s) =~= decimal(ohms as nat));
    } else if ohms < 10_000 {
        push_scaled(&mut s, ohms / 1000, 1, ohms % 1000, 3, 'K');
    } else if ohms < 100_000 {
        push_scaled(&mut s, ohms / 1000, 2, (ohms / 10) % 100, 2, 'K');
    } else if ohms < 1_000_000 {
        push_scaled(&mut s, ohms / 1000, 3, (ohms / 100) % 10, 1, 'K');
    } else if ohms < MAX_DISPLAY_OHMS {
        push_scaled(&mut s, ohms / 1_000_000, 1, (ohms / 1000) % 1000, 3, 'M');
    } else {
        return None;
    }
    Some(s)
}

/// Builds a text from ASCII characters that fit in it.
pub fn text_from_chars(chars: &Vec<char>) -> (r: heapless::String<32>)
    requires
        chars@.len() <= 32,
        is_ascii(chars@),
    ensures
        text_chars(r) == chars@,
        is_ascii(text_chars(r)),
{
    let mut s = text_new();
    let mut i: usize = 0;
    while i < chars.len()
        invariant
            i <= chars@.len(),
            chars@.len() <= 32,
            is_ascii(chars@),
            text_chars(s) == chars@.take(i as int),
            is_ascii(text_chars(s)),
        decreases chars@.len() - i,
    {
        push_char(&mut s, chars[i]);
        i = i + 1;
        assert(text_chars(s) =~= chars@.take(i as int));
    }
    assert(chars@.take(i as int) =~= chars@);
    s
}

} // verus!
