use vstd::prelude::*;
use vstd::slice::*;
use vstd::utf8::*;
use crate::aml3::grammar::comment_end;
use crate::aml3::grammar::digits_end;
use crate::aml3::grammar::digits_value;
use crate::aml3::grammar::is_digit;
use crate::aml3::grammar::is_space;
use crate::aml3::grammar::line_end;
use crate::aml3::grammar::line_of;
use crate::aml3::grammar::skip_blank;
use crate::aml3::grammar::skip_space;
use crate::aml3::grammar::src_u16;
use crate::aml3::grammar::src_word;
use crate::aml3::grammar::text_between;
use crate::aml3::grammar::type_word_end;
use crate::aml3::grammar::word_end;
use crate::error::DecodeError;
use crate::error::DecodeFault;
use crate::error::Failure;
use crate::error::Parsed;
use crate::parser::Parser;
use crate::utils::string_from_utf8;

verus! {

/// An executable outcome of reading source text says what the model outcome
/// says: the same node, by `model`, at the same offset, with the cursor
/// otherwise unchanged and not moved back, or the same failure.
pub open spec fn reads<T, M>(
    r: Result<(Parser, T), DecodeError>,
    m: Parsed<M>,
    start: Parser,
    model: spec_fn(T) -> M,
) -> bool {
    match r {
        Ok((p, v)) => m == Ok::<(M, int), Failure>((model(v), p.pointer as int)) && p
            == start.spec_at(p.pointer as int) && start.pointer <= p.pointer && (start.pointer
            <= start.bytes@.len() ==> p.pointer <= start.bytes@.len()),
        Err(e) => m == Err::<(M, int), Failure>(e@),
    }
}

/// Whether a byte is a space, a tab, a carriage return or a line feed.
pub fn blank(b: u8) -> (r: bool)
    ensures
        r == is_space(b),
{
    b == 32 || b == 9 || b == 13 || b == 10
}

/// Where the word ends that starts at `pos`.
pub fn find_word_end(bytes: &[u8], pos: usize) -> (r: usize)
    ensures
        r == word_end(bytes@, pos as int),
        pos <= r,
        pos <= bytes@.len() ==> r <= bytes@.len(),
{
    let mut i: usize = pos;
    while i < bytes.len() && !blank(bytes[i])
        invariant
            pos <= i,
            pos <= bytes@.len() ==> i <= bytes@.len(),
            word_end(bytes@, pos as int) == word_end(bytes@, i as int),
        decreases bytes@.len() - i,
    {
        i += 1;
    }
    i
}

/// Where the word of a type ends that starts at `pos`.
pub fn find_type_word_end(bytes: &[u8], pos: usize) -> (r: usize)
    ensures
        r == type_word_end(bytes@, pos as int),
        pos <= r,
        pos <= bytes@.len() ==> r <= bytes@.len(),
{
    let mut i: usize = pos;
    while i < bytes.len() && !blank(bytes[i]) && bytes[i] != 44 && bytes[i] != 41
        invariant
            pos <= i,
            pos <= bytes@.len() ==> i <= bytes@.len(),
            type_word_end(bytes@, pos as int) == type_word_end(bytes@, i as int),
        decreases bytes@.len() - i,
    {
        i += 1;
    }
    i
}

/// Where the line ends that holds `pos`.
pub fn find_line_end(bytes: &[u8], pos: usize) -> (r: usize)
    ensures
        r == line_end(bytes@, pos as int),
        pos <= r,
        pos <= bytes@.len() ==> r <= bytes@.len(),
{
    let mut i: usize = pos;
    while i < bytes.len() && bytes[i] != 10
        invariant
            pos <= i,
            pos <= bytes@.len() ==> i <= bytes@.len(),
            line_end(bytes@, pos as int) == line_end(bytes@, i as int),
        decreases bytes@.len() - i,
    {
        i += 1;
    }
    i
}

/// Where a comment ends that holds `pos`.
pub fn find_comment_end(bytes: &[u8], pos: usize) -> (r: usize)
    ensures
        r == comment_end(bytes@, pos as int),
        pos <= r,
        pos <= bytes@.len() ==> r <= bytes@.len(),
{
    let mut i: usize = pos;
    while i < bytes.len() && bytes[i] != 10 && bytes[i] != 13
        invariant
            pos <= i,
            pos <= bytes@.len() ==> i <= bytes@.len(),
            comment_end(bytes@, pos as int) == comment_end(bytes@, i as int),
        decreases bytes@.len() - i,
    {
        i += 1;
    }
    i
}

/// The first place at or behind `pos` that holds no blank byte.
pub fn pass_space(bytes: &[u8], pos: usize) -> (r: usize)
    ensures
        r == skip_space(bytes@, pos as int),
        pos <= r,
        pos <= bytes@.len() ==> r <= bytes@.len(),
{
    let mut i: usize = pos;
    while i < bytes.len() && blank(bytes[i])
        invariant
            pos <= i,
            pos <= bytes@.len() ==> i <= bytes@.len(),
            skip_space(bytes@, pos as int) == skip_space(bytes@, i as int),
        decreases bytes@.len() - i,
    {
        i += 1;
    }
    i
}

/// The first place at or behind `pos` that holds neither a blank byte nor a
/// comment.
pub fn pass_blank(bytes: &[u8], pos: usize) -> (r: usize)
    ensures
        r == skip_blank(bytes@, pos as int),
        pos <= r,
        pos <= bytes@.len() ==> r <= bytes@.len(),
{
    if pos >= bytes.len() {
        return pos;
    }
    let mut i: usize = pos;
    let mut go = true;
    while go
        invariant
            pos <= i <= bytes@.len(),
            skip_blank(bytes@, pos as int) == skip_blank(bytes@, i as int),
            !go ==> skip_blank(bytes@, i as int) == i,
        decreases bytes@.len() - i + (if go { 1int } else { 0int }),
    {
        if i >= bytes.len() {
            go = false;
        } else if blank(bytes[i]) {
            i += 1;
        } else if bytes[i] == 59 {
            i = find_comment_end(bytes, i + 1);
        } else {
            go = false;
        }
    }
    i
}

/// Where the digits end that start at `pos`.
pub fn find_digits_end(bytes: &[u8], pos: usize) -> (r: usize)
    ensures
        r == digits_end(bytes@, pos as int),
        pos <= r,
        pos <= bytes@.len() ==> r <= bytes@.len(),
{
    let mut i: usize = pos;
    while i < bytes.len() && 48 <= bytes[i] && bytes[i] <= 57
        invariant
            pos <= i,
            pos <= bytes@.len() ==> i <= bytes@.len(),
            digits_end(bytes@, pos as int) == digits_end(bytes@, i as int),
        decreases bytes@.len() - i,
    {
        i += 1;
    }
    i
}

/// The digits up to a place write no more than the digits up to a later
/// place.
pub proof fn lemma_digits_grow(s: Seq<u8>, from: int, mid: int, to: int)
    requires
        0 <= from <= mid <= to <= s.len(),
    ensures
        digits_value(s, from, mid) <= digits_value(s, from, to),
    decreases to - mid,
{
    if mid < to {
        lemma_digits_grow(s, from, mid, to - 1);
        if from < to {
            assert(digits_value(s, from, to) == digits_value(s, from, to - 1) * 10 + (s[to - 1]
                - 48) as nat);
            if s[to - 1] - 48 < 0 {
                assert((s[to - 1] - 48) as nat >= 0);
            }
        }
    }
}

/// The number that the digits from `from` up to `to` write, where it is at
/// most `limit`.
pub(crate) fn number_between(bytes: &[u8], from: usize, to: usize, limit: u32) -> (r: Option<u32>)
    requires
        from <= to <= bytes@.len(),
        limit <= 65535,
        forall|i: int| from <= i < to ==> is_digit(#[trigger] bytes@[i]),
    ensures
        match r {
            Some(v) => v == digits_value(bytes@, from as int, to as int) && v <= limit,
            None => digits_value(bytes@, from as int, to as int) > limit,
        },
{
    let mut value: u32 = 0;
    let mut i: usize = from;
    while i < to
        invariant
            from <= i <= to <= bytes@.len(),
            limit <= 65535,
            value <= limit,
            value == digits_value(bytes@, from as int, i as int),
            forall|j: int| from <= j < to ==> is_digit(#[trigger] bytes@[j]),
        decreases to - i,
    {
        assert(is_digit(bytes@[i as int]));
        let d: u32 = (bytes[i] - 48) as u32;
        let next: u32 = value * 10 + d;
        assert(next == digits_value(bytes@, from as int, i + 1));
        if next > limit {
            proof {
                lemma_digits_grow(bytes@, from as int, i + 1, to as int);
            }
            return None;
        }
        value = next;
        i += 1;
    }
    Some(value)
}

/// The text from `from` up to `to`, which must be UTF-8.
pub fn text_of(bytes: &[u8], from: usize, to: usize) -> (r: Result<String, DecodeError>)
    ensures
        match r {
            Ok(text) => text_between(bytes@, from as int, to as int) == Ok::<
                (Seq<char>, int),
                Failure,
            >((text@, to as int)),
            Err(e) => text_between(bytes@, from as int, to as int) == Err::<
                (Seq<char>, int),
                Failure,
            >(e@),
        },
{
    if from > to || to > bytes.len() {
        return Err(DecodeError { fault: DecodeFault::InvalidUtf8, at: from });
    }
    let raw = slice_to_vec(slice_subrange(bytes, from, to));
    match string_from_utf8(raw) {
        Some(text) => {
            proof {
                encode_utf8_decode_utf8(text@);
            }
            Ok(text)
        },
        None => Err(DecodeError { fault: DecodeFault::InvalidUtf8, at: from }),
    }
}

/// How many line feeds stand before `pos`, counted up to 16 bits.
pub fn count_lines(bytes: &[u8], pos: usize) -> (r: u16)
    ensures
        r == line_of(bytes@, pos as int) % 65536,
{
    if pos > bytes.len() {
        return 0;
    }
    let mut n: u16 = 0;
    let mut i: usize = 0;
    while i < pos
        invariant
            i <= pos <= bytes@.len(),
            n == line_of(bytes@, i as int) % 65536,
        decreases pos - i,
    {
        if bytes[i] == 10 {
            n = if n == 65535 {
                0
            } else {
                n + 1
            };
        }
        i += 1;
    }
    n
}

/// Reads the word at the cursor.
pub fn take_until_space<'a>(parser: Parser<'a>) -> (r: Result<(Parser<'a>, String), DecodeError>)
    ensures
        reads(r, src_word(parser.bytes@, parser.pointer as int), parser, |t: String| t@),
{
    let end = find_word_end(parser.bytes, parser.pointer);
    if end <= parser.pointer {
        return Err(DecodeError { fault: DecodeFault::ExpectedWord, at: parser.pointer });
    }
    let text = text_of(parser.bytes, parser.pointer, end)?;
    Ok((parser.at(end), text))
}

/// Reads one blank byte at the cursor.
pub fn take_space<'a>(parser: Parser<'a>) -> (r: Result<(Parser<'a>, u8), DecodeError>)
    ensures
        match r {
            Ok((p, b)) => parser.pointer < parser.bytes@.len() && b
                == parser.bytes@[parser.pointer as int] && is_space(b) && p == parser.spec_at(
                parser.pointer + 1,
            ),
            Err(e) => e@ == (Failure { fault: DecodeFault::ExpectedSpace, at: parser.pointer as int })
                && !(parser.pointer < parser.bytes@.len() && is_space(
                parser.bytes@[parser.pointer as int],
            )),
        },
{
    if parser.pointer < parser.bytes.len() && blank(parser.bytes[parser.pointer]) {
        Ok((parser.at(parser.pointer + 1), parser.bytes[parser.pointer]))
    } else {
        Err(DecodeError { fault: DecodeFault::ExpectedSpace, at: parser.pointer })
    }
}

/// Steps over the space that must stand at the cursor.
pub fn needs_space<'a>(parser: Parser<'a>) -> (r: Result<Parser<'a>, DecodeError>)
    ensures
        match r {
            Ok(p) => crate::aml3::grammar::at(parser.bytes@, parser.pointer as int, 32) && p
                == parser.spec_at(parser.pointer + 1),
            Err(e) => !crate::aml3::grammar::at(parser.bytes@, parser.pointer as int, 32) && e@ == (
                Failure { fault: DecodeFault::ExpectedSpace, at: parser.pointer as int }),
        },
{
    if parser.pointer < parser.bytes.len() && parser.bytes[parser.pointer] == 32 {
        Ok(parser.at(parser.pointer + 1))
    } else {
        Err(DecodeError { fault: DecodeFault::ExpectedSpace, at: parser.pointer })
    }
}

/// Reads a number of at most 16 bits at the cursor.
pub fn take_u16<'a>(parser: Parser<'a>) -> (r: Result<(Parser<'a>, u16), DecodeError>)
    ensures
        reads(r, src_u16(parser.bytes@, parser.pointer as int), parser, |n: u16| n),
{
    let end = find_digits_end(parser.bytes, parser.pointer);
    if end <= parser.pointer {
        return Err(DecodeError { fault: DecodeFault::ExpectedNumber, at: parser.pointer });
    }
    proof {
        lemma_digits_are_digits(parser.bytes@, parser.pointer as int);
    }
    match number_between(parser.bytes, parser.pointer, end, 65535) {
        Some(v) => Ok((parser.at(end), v as u16)),
        None => Err(DecodeError { fault: DecodeFault::NumberOutOfRange, at: parser.pointer }),
    }
}

/// Every byte before the end of the digits is a digit, and the end lies in
/// the text.
pub proof fn lemma_digits_are_digits(s: Seq<u8>, pos: int)
    requires
        0 <= pos,
    ensures
        pos <= digits_end(s, pos),
        pos <= s.len() ==> digits_end(s, pos) <= s.len(),
        forall|i: int| pos <= i < digits_end(s, pos) ==> is_digit(#[trigger] s[i]),
    decreases s.len() - pos,
{
    if pos < s.len() && is_digit(s[pos]) {
        lemma_digits_are_digits(s, pos + 1);
    }
}

} // verus!
