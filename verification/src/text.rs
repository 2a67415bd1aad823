//! Text: finding a character, cutting a text at a character, and reading a
//! number from the digits of a text.

use vstd::prelude::*;
use vstd::string::StringExecFns;

verus! {

/// The texts of a list of strings.
pub open spec fn texts(strings: Seq<String>) -> Seq<Seq<char>> {
    strings.map_values(|s: String| s@)
}

/// A copy of a list of strings.
pub fn clone_strings(strings: &Vec<String>) -> (r: Vec<String>)
    ensures
        texts(r@) == texts(strings@),
{
    let r = strings.clone();
    r
}

/// Whether one of the strings has the text of `needle`.
pub fn contains_string(strings: &Vec<String>, needle: &String) -> (r: bool)
    ensures
        r == texts(strings@).contains(needle@),
{
    let mut i: usize = 0;
    while i < strings.len()
        invariant
            i <= strings.len(),
            forall|j: int| 0 <= j < i ==> texts(strings@)[j] != needle@,
        decreases strings.len() - i,
    {
        if strings[i] == *needle {
            assert(texts(strings@)[i as int] == needle@);
            return true;
        }
        i += 1;
    }
    false
}

/// The index of the first `c` at or after `from`, or the length of the text.
pub open spec fn char_from(text: Seq<char>, c: char, from: int) -> int
    decreases text.len() - from,
{
    if from < 0 || from >= text.len() {
        text.len() as int
    } else if text[from] == c {
        from
    } else {
        char_from(text, c, from + 1)
    }
}

/// The index of the first `c`, or the length of the text.
pub open spec fn first_char(text: Seq<char>, c: char) -> int {
    char_from(text, c, 0)
}

/// The pieces of a text between its `c`, the empty ones too: a text without
/// `c` is one piece.
pub open spec fn split_on(text: Seq<char>, c: char) -> Seq<Seq<char>>
    decreases text.len(),
{
    let cut = first_char(text, c);
    if 0 <= cut < text.len() {
        seq![text.take(cut)] + split_on(text.skip(cut + 1), c)
    } else {
        seq![text]
    }
}

/// What `char_from` finds: a `c`, and none before it.
pub proof fn lemma_char_from(text: Seq<char>, c: char, from: int)
    requires
        0 <= from <= text.len(),
    ensures
        from <= char_from(text, c, from) <= text.len(),
        char_from(text, c, from) < text.len() ==> text[char_from(text, c, from)] == c,
        forall|j: int| from <= j < char_from(text, c, from) ==> text[j] != c,
    decreases text.len() - from,
{
    if from < text.len() && text[from] != c {
        lemma_char_from(text, c, from + 1);
    }
}

/// `first_char` is the one index that holds `c` with no `c` before it.
pub proof fn lemma_first_char_is(text: Seq<char>, c: char, at: int)
    requires
        0 <= at <= text.len(),
        at < text.len() ==> text[at] == c,
        forall|j: int| 0 <= j < at ==> text[j] != c,
    ensures
        first_char(text, c) == at,
{
    lemma_char_from(text, c, 0);
}

/// The index of the first `c` in the text, or the number of its characters.
pub fn find_char(text: &str, c: char) -> (r: usize)
    ensures
        r == first_char(text@, c),
        r <= text@.len(),
{
    let n = text.unicode_len();
    let mut i: usize = 0;
    while i < n
        invariant
            i <= n,
            n == text@.len(),
            first_char(text@, c) == char_from(text@, c, i as int),
        decreases n - i,
    {
        if text.get_char(i) == c {
            return i;
        }
        i += 1;
    }
    i
}

/// The pieces of a text between its `c`, the empty ones too.
pub fn split_all(text: &str, c: char) -> (r: Vec<String>)
    ensures
        texts(r@) == split_on(text@, c),
{
    let n = text.unicode_len();
    let mut pieces: Vec<String> = Vec::new();
    let mut start: usize = 0;
    let mut i: usize = 0;
    assert(text@.skip(0) =~= text@);
    while i < n
        invariant
            start <= i <= n,
            n == text@.len(),
            forall|j: int| start <= j < i ==> text@[j] != c,
            split_on(text@, c) == texts(pieces@) + split_on(text@.skip(start as int), c),
        decreases n - i,
    {
        if text.get_char(i) == c {
            let ghost tail = text@.skip(start as int);
            proof {
                lemma_first_char_is(tail, c, i - start);
                assert(tail.skip(i - start + 1) =~= text@.skip(i + 1));
                assert(tail.take(i - start) =~= text@.subrange(start as int, i as int));
            }
            pieces.push(text.substring_char(start, i).to_owned());
            start = i + 1;
        }
        i += 1;
    }
    let ghost tail = text@.skip(start as int);
    proof {
        lemma_first_char_is(tail, c, n - start);
    }
    pieces.push(text.substring_char(start, n).to_owned());
    pieces
}

/// Whether a character is one of the digits `0` to `9`.
pub open spec fn is_digit(c: char) -> bool {
    '0' <= c <= '9'
}

/// The value of a digit.
pub open spec fn digit_value(c: char) -> nat {
    (c as nat - '0' as nat) as nat
}

/// The number that the digits of a text spell, read in base ten; the other
/// characters are passed over, and a text without digits spells 0.
pub open spec fn number_in(text: Seq<char>) -> nat
    decreases text.len(),
{
    if text.len() == 0 {
        0
    } else if is_digit(text.last()) {
        number_in(text.drop_last()) * 10 + digit_value(text.last())
    } else {
        number_in(text.drop_last())
    }
}

/// Whether a text holds a digit.
pub open spec fn has_digit(text: Seq<char>) -> bool {
    exists|i: int| 0 <= i < text.len() && is_digit(text[i])
}

/// The test for the digits of a text.
pub open spec fn digit_test() -> spec_fn(char) -> bool {
    |c: char| is_digit(c)
}

/// The digits of a text, in their order.
pub open spec fn digits_of(text: Seq<char>) -> Seq<char> {
    text.filter(digit_test())
}

/// The digits of a text hold digits alone and spell the number that the text
/// spells; there are some exactly when the text holds a digit.
pub proof fn lemma_digits_of(text: Seq<char>)
    ensures
        forall|i: int| 0 <= i < digits_of(text).len() ==> is_digit(#[trigger] digits_of(text)[i]),
        number_in(digits_of(text)) == number_in(text),
        digits_of(text).len() > 0 <==> has_digit(text),
    decreases text.len(),
{
    reveal(Seq::filter);
    if text.len() > 0 {
        let front = text.drop_last();
        lemma_digits_of(front);
        let digits = digits_of(text);
        if is_digit(text.last()) {
            assert(digits.drop_last() =~= digits_of(front));
            assert(digits.last() == text.last());
            assert(is_digit(text[text.len() - 1]));
        } else {
            assert(digits == digits_of(front));
            if has_digit(text) {
                let i = choose|i: int| 0 <= i < text.len() && is_digit(text[i]);
                assert(is_digit(front[i]));
            }
        }
        if has_digit(front) {
            let i = choose|i: int| 0 <= i < front.len() && is_digit(front[i]);
            assert(is_digit(text[i]));
        }
    }
}

/// The digits of a text, in their order.
pub fn keep_digits(text: &str) -> (r: String)
    ensures
        r@ == digits_of(text@),
{
    let n = text.unicode_len();
    let mut digits = String::new();
    let mut i: usize = 0;
    assert(text@.take(0).filter(digit_test()) =~= Seq::<char>::empty()) by {
        reveal(Seq::filter);
    }
    while i < n
        invariant
            i <= n,
            n == text@.len(),
            digits@ == text@.take(i as int).filter(digit_test()),
        decreases n - i,
    {
        let c = text.get_char(i);
        proof {
            let read = text@.take(i as int);
            read.lemma_filter_push(c, digit_test());
            assert(read.push(c) =~= text@.take(i + 1));
        }
        if '0' <= c && c <= '9' {
            let ghost kept = digits@;
            digits.append(text.substring_char(i, i + 1));
            assert(text@.subrange(i as int, i + 1) =~= seq![c]);
            assert(digits@ =~= kept.push(c));
        }
        i += 1;
    }
    assert(text@.take(i as int) =~= text@);
    digits
}

/// The character for a digit's value.
pub open spec fn digit_char(value: nat) -> char {
    if value == 0 {
        '0'
    } else if value == 1 {
        '1'
    } else if value == 2 {
        '2'
    } else if value == 3 {
        '3'
    } else if value == 4 {
        '4'
    } else if value == 5 {
        '5'
    } else if value == 6 {
        '6'
    } else if value == 7 {
        '7'
    } else if value == 8 {
        '8'
    } else {
        '9'
    }
}

/// A natural number in decimal digits, without leading zeros.
pub open spec fn decimal(n: nat) -> Seq<char>
    decreases n,
{
    if n < 10 {
        seq![digit_char(n)]
    } else {
        decimal(n / 10).push(digit_char(n % 10))
    }
}

/// An integer in decimal digits, with `-` before a negative one.
pub open spec fn signed_decimal(n: int) -> Seq<char> {
    if n < 0 {
        seq!['-'] + decimal((-n) as nat)
    } else {
        decimal(n as nat)
    }
}

/// What the standard library's `Debug` shows of a text: the text in double
/// quotes, with its escapes.
pub uninterp spec fn debug_quoted(text: Seq<char>) -> Seq<char>;

/// Formats a text with `{:?}`, which is `Debug` for `str`: the result is a
/// function of the text alone, named `debug_quoted`.
#[verifier::external_body]
pub(crate) fn debug_text(text: &str) -> (r: String)
    ensures
        r@ == debug_quoted(text@),
{
    format!("{:?}", text)
}

/// Calls `to_string` on a `u64`, which is `Display` for `u64`: the number in
/// decimal digits.
#[verifier::external_body]
pub(crate) fn u64_text(n: u64) -> (r: String)
    ensures
        r@ == decimal(n as nat),
{
    n.to_string()
}

/// Calls `to_string` on an `i64`, which is `Display` for `i64`: the number
/// in decimal digits, with `-` before a negative one.
#[verifier::external_body]
pub(crate) fn i64_text(n: i64) -> (r: String)
    ensures
        r@ == signed_decimal(n as int),
{
    n.to_string()
}

} // verus!
