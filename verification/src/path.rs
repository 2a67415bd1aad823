//! Paths: percent-decoding a path and cutting it into its tokens.

use vstd::prelude::*;
use vstd::utf8::decode_utf8;
use vstd::utf8::valid_utf8;
use std::str::Utf8Error;
use crate::text::texts;
use crate::text::first_char;
use crate::text::lemma_first_char_is;

verus! {

#[verifier::external_type_specification]
#[verifier::external_body]
pub struct ExUtf8Error(Utf8Error);

/// The value of a byte read as a hexadecimal digit, in either case.
pub open spec fn hex_digit(byte: u8) -> Option<u8> {
    if 0x30 <= byte <= 0x39 {
        Some((byte - 0x30) as u8)
    } else if 0x41 <= byte <= 0x46 {
        Some((byte - 0x41 + 10) as u8)
    } else if 0x61 <= byte <= 0x66 {
        Some((byte - 0x61 + 10) as u8)
    } else {
        None
    }
}

/// The bytes with each `%` that two hexadecimal digits follow replaced, with
/// its digits, by the byte that the digits spell. Every other byte stands for
/// itself.
pub open spec fn percent_decoded(input: Seq<u8>) -> Seq<u8>
    decreases input.len(),
{
    if input.len() == 0 {
        Seq::empty()
    } else if input[0] == 0x25 && input.len() >= 3 && hex_digit(input[1]) is Some && hex_digit(
        input[2],
    ) is Some {
        seq![(hex_digit(input[1])->0 * 16 + hex_digit(input[2])->0) as u8] + percent_decoded(
            input.skip(3),
        )
    } else {
        seq![input[0]] + percent_decoded(input.skip(1))
    }
}

/// Calls `percent_encoding::percent_decode` and, on what it returns,
/// `PercentDecode::decode_utf8`. The contract states the two as their
/// documentation does: each `%` followed by two hexadecimal digits is
/// decoded, and the decoded bytes are read as UTF-8, which fails exactly
/// when they are not well-formed.
#[verifier::external_body]
fn percent_decode_utf8(input: &[u8]) -> (r: Result<String, Utf8Error>)
    ensures
        match r {
            Ok(text) => valid_utf8(percent_decoded(input@)) && text@ == decode_utf8(
                percent_decoded(input@),
            ),
            Err(_) => !valid_utf8(percent_decoded(input@)),
        },
{
    percent_encoding::percent_decode(input).decode_utf8().map(|text| text.into_owned())
}

/// The tokens of a path: the pieces between its `/`, without the empty ones.
pub open spec fn split_tokens(text: Seq<char>) -> Seq<Seq<char>>
    decreases text.len(),
{
    if text.len() == 0 {
        Seq::empty()
    } else {
        let cut = first_char(text, '/');
        let rest = if 0 <= cut < text.len() {
            split_tokens(text.skip(cut + 1))
        } else {
            Seq::empty()
        };
        if cut > 0 {
            seq![text.take(cut)] + rest
        } else {
            rest
        }
    }
}

/// The tokens of a text whose first `/` stands at `cut`: the piece before
/// it, unless it is empty, and then the tokens of what follows the `/`.
pub proof fn lemma_split_at(text: Seq<char>, cut: int)
    requires
        0 <= cut <= text.len(),
        cut < text.len() ==> text[cut] == '/',
        forall|j: int| 0 <= j < cut ==> text[j] != '/',
    ensures
        split_tokens(text) == (if cut > 0 {
            seq![text.take(cut)]
        } else {
            Seq::empty()
        }) + (if cut < text.len() {
            split_tokens(text.skip(cut + 1))
        } else {
            Seq::empty()
        }),
{
    lemma_first_char_is(text, '/', cut);
    let head: Seq<Seq<char>> = if cut > 0 {
        seq![text.take(cut)]
    } else {
        Seq::empty()
    };
    let rest: Seq<Seq<char>> = if cut < text.len() {
        split_tokens(text.skip(cut + 1))
    } else {
        Seq::empty()
    };
    assert(split_tokens(text) =~= head + rest);
}

/// The tokens of a path that is already decoded.
pub fn split_text(text: &String) -> (r: Vec<String>)
    ensures
        texts(r@) == split_tokens(text@),
{
    let s = text.as_str();
    let n = s.unicode_len();
    let mut tokens: Vec<String> = Vec::new();
    let mut start: usize = 0;
    let mut i: usize = 0;
    assert(text@.skip(0) =~= text@);
    while i < n
        invariant
            start <= i <= n,
            n == text@.len(),
            s@ == text@,
            forall|j: int| start <= j < i ==> text@[j] != '/',
            split_tokens(text@) == texts(tokens@) + split_tokens(text@.skip(start as int)),
        decreases n - i,
    {
        if s.get_char(i) == '/' {
            let ghost tail = text@.skip(start as int);
            proof {
                lemma_split_at(tail, i - start);
                assert(tail.skip(i - start + 1) =~= text@.skip(i + 1));
                assert(tail.take(i - start) =~= text@.subrange(start as int, i as int));
            }
            if i > start {
                tokens.push(s.substring_char(start, i).to_owned());
            }
            start = i + 1;
        }
        i += 1;
    }
    let ghost tail = text@.skip(start as int);
    proof {
        lemma_split_at(tail, n - start);
        assert(tail.take(n - start) =~= text@.subrange(start as int, n as int));
    }
    if n > start {
        tokens.push(s.substring_char(start, n).to_owned());
    }
    tokens
}

/// The tokens of a percent-encoded path, or the decoder's error when the
/// decoded bytes are not UTF-8.
pub fn split_path(path: &[u8]) -> (r: Result<Vec<String>, Utf8Error>)
    ensures
        match r {
            Ok(tokens) => valid_utf8(percent_decoded(path@)) && texts(tokens@) == split_tokens(
                decode_utf8(percent_decoded(path@)),
            ),
            Err(_) => !valid_utf8(percent_decoded(path@)),
        },
{
    match percent_decode_utf8(path) {
        Ok(text) => Ok(split_text(&text)),
        Err(e) => Err(e),
    }
}

} // verus!
