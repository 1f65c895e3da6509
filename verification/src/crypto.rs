//! Trusted bindings to the outside digest, encoding and randomness crates,
//! together with the exact specification of lowercase hex encoding.

use vstd::prelude::*;

verus! {

/// What ring's SHA-512 digest returns for the UTF-8 encoding of the given
/// characters; a fixed function of the characters alone.
pub uninterp spec fn sha512_of(s: Seq<char>) -> Seq<u8>;

/// Relies on ring::digest::digest with ring::digest::SHA512: the digest is
/// a function of the input bytes alone and is 64 bytes long
/// (ring::digest::SHA512_OUTPUT_LEN).
#[verifier::external_body]
pub(crate) fn sha512_chars(s: &Vec<char>) -> (r: Vec<u8>)
    ensures
        r@ == sha512_of(s@),
        r@.len() == 64,
{
    let text: String = s.iter().collect();
    ring::digest::digest(&ring::digest::SHA512, text.as_bytes()).as_ref().to_vec()
}

/// The lowercase hex digit for a value below 16.
pub open spec fn hex_digit(n: u8) -> char {
    if n == 0 {
        '0'
    } else if n == 1 {
        '1'
    } else if n == 2 {
        '2'
    } else if n == 3 {
        '3'
    } else if n == 4 {
        '4'
    } else if n == 5 {
        '5'
    } else if n == 6 {
        '6'
    } else if n == 7 {
        '7'
    } else if n == 8 {
        '8'
    } else if n == 9 {
        '9'
    } else if n == 10 {
        'a'
    } else if n == 11 {
        'b'
    } else if n == 12 {
        'c'
    } else if n == 13 {
        'd'
    } else if n == 14 {
        'e'
    } else {
        'f'
    }
}

/// Lowercase hex encoding of a byte sequence: two digits per byte, high
/// nibble first.
pub open spec fn hex_lower_of(bytes: Seq<u8>) -> Seq<char>
    decreases bytes.len(),
{
    if bytes.len() == 0 {
        Seq::empty()
    } else {
        seq![hex_digit(bytes.first() / 16), hex_digit(bytes.first() % 16)] + hex_lower_of(
            bytes.drop_first(),
        )
    }
}

/// Relies on data_encoding::HEXLOWER.encode: two lowercase hex digits per
/// input byte, high nibble first, using the symbols 0-9 and a-f. The
/// length bound keeps the doubled output length within the encoder's
/// reach on every platform.
#[verifier::external_body]
pub(crate) fn hex_lower(bytes: &[u8]) -> (r: String)
    requires
        bytes@.len() <= 0x7fffffff,
    ensures
        r@ == hex_lower_of(bytes@),
{
    data_encoding::HEXLOWER.encode(bytes)
}

/// Relies on rand::random: a value drawn from the thread-local generator.
/// Nothing is known of the result.
pub assume_specification<T>[ rand::random::<T> ]() -> (r: T)
    where
        rand::distributions::Standard: rand::distributions::Distribution<T>,
;

/// Relies on String::from_iter over characters: the collected string holds
/// exactly the input characters in order.
#[verifier::external_body]
pub(crate) fn chars_to_string(s: &Vec<char>) -> (r: String)
    ensures
        r@ == s@,
{
    s.iter().collect()
}

} // verus!
