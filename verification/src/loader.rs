//! The source text: one binary token per sample, tokens separated by single
//! spaces, lines by line feeds. Lines come in row order and tokens in sample
//! order.

use vstd::prelude::*;
use vstd::slice::slice_subrange;
use crate::error::EncodeError;
use crate::number::{number_value, parse_number};

verus! {

/// The line feed that ends a line.
pub const LINE_FEED: u8 = 0x0A;

/// The space that separates two tokens.
pub const SPACE: u8 = 0x20;

/// `b` is ASCII white space: a space, a tab, a line feed, a vertical tab, a
/// form feed or a carriage return.
pub open spec fn is_space(b: u8) -> bool {
    b == 0x20 || (0x09 <= b && b <= 0x0D)
}

/// The byte that `token` spells: `token` is one binary digit or more, and
/// their number is at most 255. Anything else spells no byte.
pub open spec fn token_value(token: Seq<u8>) -> Option<u8> {
    match number_value(token, 2, 255) {
        Some(v) => Some(v as u8),
        None => None,
    }
}

/// The position of the first `sep` in `s` at or after `from`, or the length of
/// `s` where there is none.
pub open spec fn find_from(s: Seq<u8>, sep: u8, from: int) -> int
    decreases s.len() - from,
{
    if from >= s.len() {
        s.len() as int
    } else if s[from] == sep {
        from
    } else {
        find_from(s, sep, from + 1)
    }
}

/// The length of `line` without the white space at its end.
pub open spec fn trimmed_len(line: Seq<u8>) -> int
    decreases line.len(),
{
    if line.len() > 0 && is_space(line.last()) {
        trimmed_len(line.drop_last())
    } else {
        line.len() as int
    }
}

/// What [`find_from`] finds lies between `from` and the end, no `sep` comes
/// before it, and it is a `sep` unless it is the end.
pub proof fn lemma_find_from(s: Seq<u8>, sep: u8, from: int)
    ensures
        find_from(s, sep, from) <= s.len(),
        from <= s.len() ==> from <= find_from(s, sep, from),
        forall|i: int| from <= i < find_from(s, sep, from) ==> s[i] != sep,
        find_from(s, sep, from) < s.len() ==> s[find_from(s, sep, from)] == sep,
    decreases s.len() - from,
{
    if from < s.len() && s[from] != sep {
        lemma_find_from(s, sep, from + 1);
    }
}

/// `line` without the white space at its end.
pub open spec fn trim_end(line: Seq<u8>) -> Seq<u8> {
    line.take(trimmed_len(line))
}

/// `front` followed by the samples of `rest`, where `rest` holds any.
pub open spec fn prepend(front: Seq<u8>, rest: Option<Seq<u8>>) -> Option<Seq<u8>> {
    match rest {
        Some(back) => Some(front + back),
        None => None,
    }
}

/// The samples that the tokens of `line` at or after `from` spell, in order.
/// A token ends at the next space or at the end of the line; two spaces in a
/// row hold an empty token between them. One token that spells no byte
/// leaves the whole line without samples.
pub open spec fn tokens_from(line: Seq<u8>, from: int) -> Option<Seq<u8>>
    decreases line.len() - from,
    via tokens_from_terminates
{
    let end = find_from(line, SPACE, from);
    match token_value(line.subrange(from, end)) {
        None => None,
        Some(v) => if end >= line.len() {
            Some(seq![v])
        } else {
            prepend(seq![v], tokens_from(line, end + 1))
        },
    }
}

#[via_fn]
proof fn tokens_from_terminates(line: Seq<u8>, from: int) {
    lemma_find_from(line, SPACE, from);
}

/// The samples of one line: those of its tokens, once the white space at its
/// end is gone. An empty line holds one empty token and so has no samples.
pub open spec fn line_samples(line: Seq<u8>) -> Option<Seq<u8>> {
    tokens_from(trim_end(line), 0)
}

/// The samples of the lines of `text` that start at or after `from`, in
/// order. A line ends before the next line feed or at the end of the text; a
/// line feed at the very end starts no further line.
pub open spec fn samples_from(text: Seq<u8>, from: int) -> Option<Seq<u8>>
    decreases text.len() - from,
    via samples_from_terminates
{
    if from >= text.len() {
        Some(Seq::empty())
    } else {
        let end = find_from(text, LINE_FEED, from);
        match line_samples(text.subrange(from, end)) {
            None => None,
            Some(row) => if end >= text.len() {
                Some(row)
            } else {
                prepend(row, samples_from(text, end + 1))
            },
        }
    }
}

#[via_fn]
proof fn samples_from_terminates(text: Seq<u8>, from: int) {
    lemma_find_from(text, LINE_FEED, from);
}

/// The samples that `text` holds, or `None` where a token of it spells no byte.
pub open spec fn text_samples(text: Seq<u8>) -> Option<Seq<u8>> {
    samples_from(text, 0)
}

/// The position of the first `sep` in `s` at or after `from`, or the length of
/// `s` where there is none.
pub fn find_byte(s: &[u8], sep: u8, from: usize) -> (end: usize)
    requires
        from <= s@.len(),
    ensures
        end == find_from(s@, sep, from as int),
        from <= end <= s@.len(),
        forall|i: int| from <= i < end ==> s@[i] != sep,
        end < s@.len() ==> s@[end as int] == sep,
{
    proof {
        lemma_find_from(s@, sep, from as int);
    }
    let mut end: usize = from;
    while end < s.len() && s[end] != sep
        invariant
            from <= end <= s@.len(),
            find_from(s@, sep, from as int) == find_from(s@, sep, end as int),
        decreases s@.len() - end,
    {
        end = end + 1;
    }
    end
}

/// The byte that `token` spells in binary, or `None` where it is empty, holds
/// anything but the digits `0` and `1`, or spells more than 255.
pub fn parse_token(token: &[u8]) -> (r: Option<u8>)
    ensures
        r == token_value(token@),
{
    match parse_number(token, 2, 255) {
        Some(v) => Some(v as u8),
        None => None,
    }
}

/// The length of `line` without the white space at its end.
pub fn trimmed_length(line: &[u8]) -> (len: usize)
    ensures
        len == trimmed_len(line@),
        len <= line@.len(),
{
    let mut len: usize = line.len();
    assert(line@.take(len as int) =~= line@);
    while len > 0 && (line[len - 1] == 0x20 || (0x09 <= line[len - 1] && line[len - 1] <= 0x0D))
        invariant
            len <= line@.len(),
            trimmed_len(line@) == trimmed_len(line@.take(len as int)),
        decreases len,
    {
        assert(line@.take(len as int).drop_last() =~= line@.take(len - 1));
        len = len - 1;
    }
    len
}

/// The samples of one line of the source text, or `None` where one of its
/// tokens spells no byte.
pub fn parse_line(line: &[u8]) -> (r: Option<Vec<u8>>)
    ensures
        match r {
            Some(samples) => line_samples(line@) == Some(samples@),
            None => line_samples(line@).is_none(),
        },
{
    let kept: usize = trimmed_length(line);
    let tokens: &[u8] = slice_subrange(line, 0, kept);
    assert(tokens@ =~= trim_end(line@));
    let mut samples: Vec<u8> = Vec::new();
    let mut from: usize = 0;
    loop
        invariant
            from <= tokens@.len(),
            tokens@ == trim_end(line@),
            tokens_from(tokens@, 0) == prepend(samples@, tokens_from(tokens@, from as int)),
        decreases tokens@.len() - from,
    {
        let end: usize = find_byte(tokens, SPACE, from);
        match parse_token(slice_subrange(tokens, from, end)) {
            None => {
                return None;
            },
            Some(v) => {
                let ghost before = samples@;
                samples.push(v);
                if end >= tokens.len() {
                    assert(before + seq![v] =~= samples@);
                    return Some(samples);
                }
                proof {
                    match tokens_from(tokens@, end + 1) {
                        Some(back) => {
                            assert(before + (seq![v] + back) =~= samples@ + back);
                        },
                        None => {},
                    }
                }
                from = end + 1;
            },
        }
    }
}

/// The samples that the source text holds, in the order of its lines and of
/// the tokens within each line, or `TokenFormat` where a token is not a binary
/// number that fits in one byte.
pub fn read_raw_image(source: &[u8]) -> (r: Result<Vec<u8>, EncodeError>)
    ensures
        match r {
            Ok(samples) => text_samples(source@) == Some(samples@),
            Err(e) => e == EncodeError::TokenFormat && text_samples(source@).is_none(),
        },
{
    let mut samples: Vec<u8> = Vec::new();
    let mut from: usize = 0;
    assert(samples@ + samples_from(source@, 0).unwrap() =~= samples_from(source@, 0).unwrap());
    while from < source.len()
        invariant
            from <= source@.len(),
            text_samples(source@) == prepend(samples@, samples_from(source@, from as int)),
        decreases source@.len() - from,
    {
        let end: usize = find_byte(source, LINE_FEED, from);
        match parse_line(slice_subrange(source, from, end)) {
            None => {
                return Err(EncodeError::TokenFormat);
            },
            Some(row) => {
                let ghost before = samples@;
                samples.extend_from_slice(row.as_slice());
                if end >= source.len() {
                    return Ok(samples);
                }
                proof {
                    match samples_from(source@, end + 1) {
                        Some(back) => {
                            assert(before + (row@ + back) =~= samples@ + back);
                        },
                        None => {},
                    }
                }
                from = end + 1;
            },
        }
    }
    assert(samples@ + Seq::<u8>::empty() =~= samples@);
    Ok(samples)
}

} // verus!
