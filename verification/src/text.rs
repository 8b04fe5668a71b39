//! Reading fields, decimal numbers and dotted addresses from text.

use vstd::prelude::*;
use vstd::string::StrSliceExecFns;
use crate::bgp_type::Ipv4Address;
use crate::wire::{join_u32, u32_from_be};

verus! {

/// The fields of a text: what stands between its separators, reading from the
/// left. A text without separator is one field; two separators in a row have
/// an empty field between them.
pub open spec fn split_on(text: Seq<char>, separator: char) -> Seq<Seq<char>>
    decreases text.len(),
{
    if text.len() == 0 {
        seq![Seq::empty()]
    } else {
        let fields = split_on(text.drop_last(), separator);
        if text.last() == separator {
            fields.push(Seq::empty())
        } else {
            fields.drop_last().push(fields.last().push(text.last()))
        }
    }
}

/// The character is a decimal digit.
pub open spec fn is_digit(c: char) -> bool {
    48 <= c as u32 && c as u32 <= 57
}

/// Every character of the text is a decimal digit.
pub open spec fn all_digits(text: Seq<char>) -> bool {
    forall|i: int| 0 <= i < text.len() ==> is_digit(#[trigger] text[i])
}

/// The number that a run of decimal digits stands for.
pub open spec fn decimal_value(digits: Seq<char>) -> nat
    decreases digits.len(),
{
    if digits.len() == 0 {
        0
    } else {
        decimal_value(digits.drop_last()) * 10 + (digits.last() as u32 - 48) as nat
    }
}

/// The number that a text stands for, where the text is one or more decimal
/// digits and the number is at most `limit`.
pub open spec fn parse_decimal(text: Seq<char>, limit: nat) -> Option<nat> {
    if text.len() > 0 && all_digits(text) && decimal_value(text) <= limit {
        Some(decimal_value(text))
    } else {
        None
    }
}

/// The octet that a text stands for: one to three decimal digits, without a
/// leading zero before another digit, that make a number below 256.
pub open spec fn parse_octet(text: Seq<char>) -> Option<u8> {
    if text.len() <= 3 && (text.len() == 1 || text[0] != '0') {
        match parse_decimal(text, 255) {
            Some(value) => Some(value as u8),
            None => None,
        }
    } else {
        None
    }
}

/// The address that a text stands for: four octets joined by dots.
pub open spec fn parse_address(text: Seq<char>) -> Option<Ipv4Address> {
    let parts = split_on(text, '.');
    if parts.len() == 4 && parse_octet(parts[0]) is Some && parse_octet(parts[1]) is Some
        && parse_octet(parts[2]) is Some && parse_octet(parts[3]) is Some {
        Some(
            Ipv4Address(
                u32_from_be(
                    parse_octet(parts[0])->Some_0,
                    parse_octet(parts[1])->Some_0,
                    parse_octet(parts[2])->Some_0,
                    parse_octet(parts[3])->Some_0,
                ),
            ),
        )
    } else {
        None
    }
}

/// A longer run of digits stands for no smaller a number than any of its
/// beginnings.
pub proof fn lemma_decimal_value_grows(digits: Seq<char>, length: int)
    requires
        all_digits(digits),
        0 <= length <= digits.len(),
    ensures
        decimal_value(digits.take(length)) <= decimal_value(digits),
    decreases digits.len(),
{
    if length == digits.len() {
        assert(digits.take(length) =~= digits);
    } else {
        let shorter = digits.drop_last();
        assert forall|i: int| 0 <= i < shorter.len() implies is_digit(#[trigger] shorter[i]) by {
        }
        lemma_decimal_value_grows(shorter, length);
        assert(shorter.take(length) =~= digits.take(length));
    }
}

/// The characters of a text, in order.
pub fn chars_of(text: &str) -> (chars: Vec<char>)
    ensures
        chars@ == text@,
{
    let length = text.unicode_len();
    let mut chars: Vec<char> = Vec::new();
    let mut index: usize = 0;
    while index < length
        invariant
            index <= length,
            length == text@.len(),
            chars@ == text@.take(index as int),
        decreases length - index,
    {
        chars.push(text.get_char(index));
        index += 1;
    }
    chars
}

/// Where each field of the text starts and ends.
pub fn field_spans(chars: &[char], separator: char) -> (spans: Vec<(usize, usize)>)
    ensures
        spans@.len() == split_on(chars@, separator).len(),
        spans@.len() >= 1,
        forall|k: int|
            0 <= k < spans@.len() ==> (#[trigger] spans@[k]).0 <= spans@[k].1 <= chars@.len()
                && split_on(chars@, separator)[k] == chars@.subrange(
                spans@[k].0 as int,
                spans@[k].1 as int,
            ),
{
    let mut spans: Vec<(usize, usize)> = Vec::new();
    let mut start: usize = 0;
    let mut index: usize = 0;
    while index < chars.len()
        invariant
            start <= index <= chars.len(),
            spans@.len() + 1 == split_on(chars@.take(index as int), separator).len(),
            split_on(chars@.take(index as int), separator).last() == chars@.subrange(
                start as int,
                index as int,
            ),
            forall|k: int|
                0 <= k < spans@.len() ==> (#[trigger] spans@[k]).0 <= spans@[k].1 <= chars@.len()
                    && split_on(chars@.take(index as int), separator)[k] == chars@.subrange(
                    spans@[k].0 as int,
                    spans@[k].1 as int,
                ),
        decreases chars.len() - index,
    {
        proof {
            assert(chars@.take(index as int + 1).drop_last() =~= chars@.take(index as int));
        }
        if chars[index] == separator {
            spans.push((start, index));
            start = index + 1;
        }
        index += 1;
    }
    proof {
        assert(chars@.take(index as int) =~= chars@);
    }
    spans.push((start, index));
    spans
}

/// Reads one or more decimal digits as a number that is at most `limit`.
pub fn decimal(chars: &[char], limit: u32) -> (number: Option<u32>)
    ensures
        match number {
            Some(value) => parse_decimal(chars@, limit as nat) == Some(value as nat),
            None => parse_decimal(chars@, limit as nat) is None,
        },
{
    if chars.len() == 0 {
        return None;
    }
    let mut value: u32 = 0;
    let mut index: usize = 0;
    while index < chars.len()
        invariant
            index <= chars.len(),
            value <= limit,
            all_digits(chars@.take(index as int)),
            value == decimal_value(chars@.take(index as int)),
        decreases chars.len() - index,
    {
        let c = chars[index];
        let code = c as u32;
        if code < 48 || code > 57 {
            return None;
        }
        let ghost longer = chars@.take(index as int + 1);
        proof {
            assert(longer.drop_last() =~= chars@.take(index as int));
            assert forall|i: int| 0 <= i < longer.len() implies is_digit(#[trigger] longer[i]) by {
            }
        }
        let next: u64 = (value as u64) * 10 + (code - 48) as u64;
        if next > limit as u64 {
            proof {
                if all_digits(chars@) {
                    lemma_decimal_value_grows(chars@, index as int + 1);
                }
            }
            return None;
        }
        value = next as u32;
        index += 1;
    }
    proof {
        assert(chars@.take(index as int) =~= chars@);
    }
    Some(value)
}

/// Reads an octet: one to three decimal digits, without a leading zero before
/// another digit, that make a number below 256.
pub fn octet(chars: &[char]) -> (number: Option<u8>)
    ensures
        number == parse_octet(chars@),
{
    if chars.len() > 3 {
        return None;
    }
    if chars.len() != 1 && chars.len() > 0 && chars[0] == '0' {
        return None;
    }
    match decimal(chars, 255) {
        Some(value) => Some(value as u8),
        None => None,
    }
}

/// Reads an address in dotted form.
pub fn address(chars: &[char]) -> (parsed: Option<Ipv4Address>)
    ensures
        parsed == parse_address(chars@),
{
    let spans = field_spans(chars, '.');
    if spans.len() != 4 {
        return None;
    }
    let a = match octet(vstd::slice::slice_subrange(chars, spans[0].0, spans[0].1)) {
        Some(a) => a,
        None => {
            return None;
        },
    };
    let b = match octet(vstd::slice::slice_subrange(chars, spans[1].0, spans[1].1)) {
        Some(b) => b,
        None => {
            return None;
        },
    };
    let c = match octet(vstd::slice::slice_subrange(chars, spans[2].0, spans[2].1)) {
        Some(c) => c,
        None => {
            return None;
        },
    };
    let d = match octet(vstd::slice::slice_subrange(chars, spans[3].0, spans[3].1)) {
        Some(d) => d,
        None => {
            return None;
        },
    };
    Some(Ipv4Address(join_u32(a, b, c, d)))
}

} // verus!
