//! Random identifiers and hashes, from the operating system's entropy.

use rand::{Rng, RngCore};
use vstd::prelude::*;

use crate::text::digit;

verus! {

/// How many random characters an identifier ends in.
pub const SUFFIX_LENGTH: usize = 13;

/// How many characters a share's hash has.
pub const HASH_LENGTH: usize = 64;

/// The digit of `d` in a base of up to 36: the decimal digits, then the lower-case letters.
pub open spec fn base36_digit(d: nat) -> char {
    if d < 10 {
        digit(d)
    } else {
        (87 + d) as char
    }
}

/// The base-36 digits that random words stand for.
pub open spec fn base36_text(words: Seq<u32>) -> Seq<char> {
    words.map_values(|word: u32| base36_digit((word % 36) as nat))
}

/// The hexadecimal digits that random words stand for.
pub open spec fn hex_text(words: Seq<u32>) -> Seq<char> {
    words.map_values(|word: u32| base36_digit((word % 16) as nat))
}

/// A decimal digit or a lower-case letter.
pub open spec fn is_base36(c: char) -> bool {
    '0' <= c <= '9' || 'a' <= c <= 'z'
}

/// A hexadecimal digit, with its letters in lower case.
pub open spec fn is_lower_hex(c: char) -> bool {
    '0' <= c <= '9' || 'a' <= c <= 'f'
}

/// `OsRng::next_u32` of `rand`: a word of entropy, which may be any. It panics where the
/// operating system has no entropy to give.
#[verifier::external_body]
fn next_word() -> u32 {
    rand::rngs::OsRng.next_u32()
}

/// `OsRng::gen_range` of `rand`: a random number below `limit`. It panics on an empty range,
/// and where the operating system has no entropy to give.
#[verifier::external_body]
fn number_below(limit: u32) -> (n: u32)
    requires
        limit > 0,
    ensures
        n < limit,
{
    rand::rngs::OsRng.gen_range(0..limit)
}

/// Draws words of entropy.
fn random_words(count: usize) -> (words: Vec<u32>)
    ensures
        words@.len() == count,
{
    let mut words: Vec<u32> = Vec::new();
    for i in 0..count
        invariant
            words@.len() == i,
    {
        words.push(next_word());
    }
    words
}

/// Writes a digit of a base of up to 36.
pub(crate) fn digit_char(d: u8) -> (c: char)
    requires
        d < 36,
    ensures
        c == base36_digit(d as nat),
{
    if d < 10 {
        (48 + d) as char
    } else {
        (87 + d) as char
    }
}

/// Writes random words as base-36 digits, one digit each.
pub fn base36_of(words: &Vec<u32>) -> (text: String)
    ensures
        text@ == base36_text(words@),
{
    let mut text = String::new();
    for i in 0..words.len()
        invariant
            text@ == base36_text(words@.take(i as int)),
    {
        text.push(digit_char((words[i] % 36) as u8));
    }
    text
}

/// Writes random words as hexadecimal digits, one digit each.
pub fn hex_of(words: &Vec<u32>) -> (text: String)
    ensures
        text@ == hex_text(words@),
{
    let mut text = String::new();
    for i in 0..words.len()
        invariant
            text@ == hex_text(words@.take(i as int)),
    {
        let word: u32 = words[i];
        proof {
            assert(word & 0xf == word % 16) by (bit_vector);
        }
        text.push(digit_char((word & 0xf) as u8));
    }
    text
}

/// A random text of `len` base-36 digits.
pub fn base36_random(len: usize) -> (text: String)
    ensures
        exists|words: Seq<u32>| words.len() == len && text@ == #[trigger] base36_text(words),
{
    let words = random_words(len);
    base36_of(&words)
}

/// A random text of 64 hexadecimal digits, which a share carries as its hash.
pub fn random_hex_64() -> (text: String)
    ensures
        exists|words: Seq<u32>| words.len() == HASH_LENGTH && text@ == #[trigger] hex_text(words),
{
    let words = random_words(HASH_LENGTH);
    hex_of(&words)
}

/// A random number below `limit`, which a share carries as its nonce.
pub fn random_nonce(limit: u32) -> (nonce: u32)
    requires
        limit > 0,
    ensures
        nonce < limit,
{
    number_below(limit)
}

/// Whatever the words, their base-36 text has one character for each, and each is a decimal
/// digit or a lower-case letter.
pub proof fn law_base36_shape(words: Seq<u32>)
    ensures
        base36_text(words).len() == words.len(),
        forall|i: int| 0 <= i < words.len() ==> is_base36(#[trigger] base36_text(words)[i]),
{
}

/// Whatever the words, their hexadecimal text has one character for each, and each is a
/// lower-case hexadecimal digit.
pub proof fn law_hex_shape(words: Seq<u32>)
    ensures
        hex_text(words).len() == words.len(),
        forall|i: int| 0 <= i < words.len() ==> is_lower_hex(#[trigger] hex_text(words)[i]),
{
}

/// Each word gives the base-36 digit at its remainder: the decimal digits come first, and then the
/// lower-case letters in their order.
pub proof fn law_base36_alphabet(words: Seq<u32>, i: int)
    requires
        0 <= i < words.len(),
    ensures
        base36_text(words)[i] == "0123456789abcdefghijklmnopqrstuvwxyz"@[words[i] as int % 36],
{
    reveal_strlit("0123456789abcdefghijklmnopqrstuvwxyz");
}

/// Each word gives the hexadecimal digit at its remainder, counted in `0123456789abcdef`.
pub proof fn law_hex_alphabet(words: Seq<u32>, i: int)
    requires
        0 <= i < words.len(),
    ensures
        hex_text(words)[i] == "0123456789abcdef"@[words[i] as int % 16],
{
    reveal_strlit("0123456789abcdef");
}

/// An identifier ends in 13 random characters, and a hash has 64 of them.
pub proof fn law_random_lengths()
    ensures
        SUFFIX_LENGTH == 13,
        HASH_LENGTH == 64,
{
}

/// The characters of random texts are those of their alphabets.
pub proof fn law_alphabets(c: char)
    ensures
        is_base36(c) <==> "0123456789abcdefghijklmnopqrstuvwxyz"@.contains(c),
        is_lower_hex(c) <==> "0123456789abcdef"@.contains(c),
{
    let all = "0123456789abcdefghijklmnopqrstuvwxyz"@;
    let hex = "0123456789abcdef"@;
    reveal_strlit("0123456789abcdefghijklmnopqrstuvwxyz");
    reveal_strlit("0123456789abcdef");
    if is_base36(c) {
        let i = if c <= '9' {
            c as int - 48
        } else {
            c as int - 87
        };
        assert(all[i] == c);
    }
    if is_lower_hex(c) {
        let i = if c <= '9' {
            c as int - 48
        } else {
            c as int - 87
        };
        assert(hex[i] == c);
    }
}

} // verus!
