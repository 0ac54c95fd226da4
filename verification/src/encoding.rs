//! Byte and text encodings used by the contracts: lowercase hexadecimal
//! (through the `hex` crate) and Ethereum ABI words (through `ethabi`).
use vstd::prelude::*;
use ethabi::ethereum_types::{H160, U256};
use ethabi::Token;

verus! {

/// The lowercase hexadecimal digit of a value below 16.
pub open spec fn hex_digit(n: u8) -> char {
    if n < 10 {
        (n + 48) as char
    } else {
        (n + 87) as char
    }
}

/// Lowercase hexadecimal text of a byte string: two digits per byte, the
/// high nibble first.
pub open spec fn hex_chars(b: Seq<u8>) -> Seq<char>
    decreases b.len(),
{
    if b.len() == 0 {
        Seq::empty()
    } else {
        hex_chars(b.drop_last()) + seq![hex_digit(b.last() / 16), hex_digit(b.last() % 16)]
    }
}

/// `hex::encode`: lowercase hexadecimal text of the bytes.
///
/// Trusted: the contract claims what the crate's documentation and source
/// show, namely that each byte becomes two lowercase digits, high nibble
/// first, in the order of the bytes.
#[verifier::external_body]
pub(crate) fn hex_encode(data: &[u8]) -> (s: String)
    ensures
        s@ == hex_chars(data@),
{
    hex::encode(data)
}

/// The ABI word of an address: twelve zero bytes, then the address.
pub open spec fn abi_address_word(a: Seq<u8>) -> Seq<u8> {
    Seq::new(12, |i: int| 0u8) + a
}

/// Byte `k` (0 for the most significant) of a `u32` in big-endian order.
pub open spec fn be_u32_byte(v: u32, k: int) -> u8 {
    if k == 0 {
        (v / 0x1000000) as u8
    } else if k == 1 {
        ((v / 0x10000) % 0x100) as u8
    } else if k == 2 {
        ((v / 0x100) % 0x100) as u8
    } else {
        (v % 0x100) as u8
    }
}

/// The ABI word of an unsigned integer that fits in 32 bits: 28 zero bytes,
/// then its four bytes in big-endian order.
pub open spec fn abi_uint_word(v: u32) -> Seq<u8> {
    Seq::new(32, |i: int| if i < 28 { 0u8 } else { be_u32_byte(v, i - 28) })
}

/// `ethabi::encode` of the tokens `[Address(from), Address(to), Uint(value)]`.
///
/// Trusted: the contract claims what `ethabi`'s encoder shows for three
/// static tokens: each takes one 32-byte head word and there is no tail; an
/// address is right-aligned after twelve zero bytes, and an unsigned integer
/// is written as a 256-bit big-endian number.
#[verifier::external_body]
pub(crate) fn abi_encode_address_address_uint(from: [u8; 20], to: [u8; 20], value: u32) -> (r: Vec<u8>)
    ensures
        r@ == abi_address_word(from@) + abi_address_word(to@) + abi_uint_word(value),
{
    ethabi::encode(&[Token::Address(H160::from(from)), Token::Address(H160::from(to)), Token::Uint(U256::from(value))])
}

/// Hexadecimal text has two digits per byte.
pub proof fn law_hex_chars_len(b: Seq<u8>)
    ensures
        hex_chars(b).len() == 2 * b.len(),
    decreases b.len(),
{
    if b.len() > 0 {
        law_hex_chars_len(b.drop_last());
    }
}

/// The decimal digit of a value below 10.
pub open spec fn decimal_digit(d: nat) -> char {
    (d + 48) as char
}

/// The decimal text of a number, without sign or leading zeros (`0` for
/// zero), as Rust's `Display` writes an unsigned integer.
pub open spec fn decimal_chars(n: nat) -> Seq<char>
    decreases n,
{
    if n < 10 {
        seq![decimal_digit(n)]
    } else {
        decimal_chars(n / 10) + seq![decimal_digit(n % 10)]
    }
}

fn digit_text(d: u64) -> (s: &'static str)
    requires
        d < 10,
    ensures
        s@ == seq![decimal_digit(d as nat)],
{
    if d == 0 {
        proof { reveal_strlit("0"); }
        "0"
    } else if d == 1 {
        proof { reveal_strlit("1"); }
        "1"
    } else if d == 2 {
        proof { reveal_strlit("2"); }
        "2"
    } else if d == 3 {
        proof { reveal_strlit("3"); }
        "3"
    } else if d == 4 {
        proof { reveal_strlit("4"); }
        "4"
    } else if d == 5 {
        proof { reveal_strlit("5"); }
        "5"
    } else if d == 6 {
        proof { reveal_strlit("6"); }
        "6"
    } else if d == 7 {
        proof { reveal_strlit("7"); }
        "7"
    } else if d == 8 {
        proof { reveal_strlit("8"); }
        "8"
    } else {
        proof { reveal_strlit("9"); }
        "9"
    }
}

/// The decimal text of a number.
pub fn decimal_text(n: u64) -> (s: String)
    ensures
        s@ == decimal_chars(n as nat),
    decreases n,
{
    if n < 10 {
        digit_text(n).to_string()
    } else {
        let mut s = decimal_text(n / 10);
        s.append(digit_text(n % 10));
        s
    }
}

} // verus!
