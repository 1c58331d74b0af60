//! Reading a transaction hash that is held as text.
//!
//! The chain client hands a hash over as text: two characters of prefix and
//! the hexadecimal digits of its 32 bytes. Two readers of digits are used, as
//! the two uses of a hash ask for: `web3::types::H256` reads the hash that the
//! chain is asked about, and `hex::decode` reads the bytes that go into a
//! settlement notice.

use crate::seqs::lemma_filter_keeps_all;
use std::str::FromStr;
use vstd::prelude::*;
use vstd::string::StringSliceAdditionalSpecFns;
use vstd::utf8::{encode_utf8, is_char_boundary};

verus! {

/// Value of a hexadecimal digit in either case, -1 for any other byte.
pub open spec fn hex_digit(b: u8) -> int {
    if 0x30 <= b <= 0x39 {
        b - 0x30
    } else if 0x61 <= b <= 0x66 {
        b - 0x61 + 10
    } else if 0x41 <= b <= 0x46 {
        b - 0x41 + 10
    } else {
        -1
    }
}

/// An even number of bytes, each a hexadecimal digit.
pub open spec fn is_hex(text: Seq<u8>) -> bool {
    text.len() % 2 == 0 && forall|i: int| 0 <= i < text.len() ==> hex_digit(#[trigger] text[i]) >= 0
}

/// The bytes that pairs of hexadecimal digits denote, the first digit of a
/// pair being the higher one.
pub open spec fn hex_bytes(text: Seq<u8>) -> Seq<u8> {
    Seq::new(
        text.len() / 2,
        |i: int| (16 * hex_digit(text[2 * i]) + hex_digit(text[2 * i + 1])) as u8,
    )
}

/// Space, carriage return, line feed or tab.
pub open spec fn is_blank(b: u8) -> bool {
    b == 0x20 || b == 0x0d || b == 0x0a || b == 0x09
}

/// The text without a leading `0x`.
pub open spec fn without_prefix(text: Seq<u8>) -> Seq<u8> {
    if text.len() >= 2 && text[0] == 0x30 && text[1] == 0x78 {
        text.skip(2)
    } else {
        text
    }
}

/// The bytes that are no blanks.
pub open spec fn not_blank() -> spec_fn(u8) -> bool {
    |b: u8| !is_blank(b)
}

/// What `H256` reads of a text: a leading `0x` is dropped, and so is every
/// blank.
pub open spec fn h256_digits(text: Seq<u8>) -> Seq<u8> {
    without_prefix(text).filter(not_blank())
}

/// `H256` accepts the text: what it reads is exactly 64 hexadecimal digits.
pub open spec fn reads_as_h256(text: Seq<u8>) -> bool {
    h256_digits(text).len() == 64 && is_hex(h256_digits(text))
}

/// The text of a hash after its two characters of prefix, as bytes. There is
/// none where the text is shorter or a character straddles that place.
pub open spec fn digits_of(hash: Seq<char>) -> Option<Seq<u8>> {
    let text = encode_utf8(hash);
    if text.len() >= 2 && is_char_boundary(text, 2) {
        Some(text.skip(2))
    } else {
        None
    }
}

/// The 32 bytes of a hash held as text, where the text is well formed.
pub open spec fn chain_hash(hash: Seq<char>) -> Option<Seq<u8>> {
    match digits_of(hash) {
        Some(digits) => if reads_as_h256(digits) {
            Some(hex_bytes(h256_digits(digits)))
        } else {
            None
        },
        None => None,
    }
}

/// The bytes that stand for a well-formed hash in a settlement notice: its
/// digits decoded as they stand, or, where they do not stand as plain digits
/// (blanks among them, a second prefix), the hash as `chain_hash` reads it.
pub open spec fn notice_hash(hash: Seq<char>) -> Option<Seq<u8>> {
    match digits_of(hash) {
        Some(digits) => if !reads_as_h256(digits) {
            None
        } else if is_hex(digits) {
            Some(hex_bytes(digits))
        } else {
            Some(hex_bytes(h256_digits(digits)))
        },
        None => None,
    }
}

#[verifier::external_type_specification]
#[verifier::external_body]
pub struct ExFromHexError(hex::FromHexError);

/// `hex::decode` on a slice of bytes. It succeeds exactly on an even number
/// of hexadecimal digits, upper and lower case alike, and then returns one
/// byte for each pair of digits, the first digit being the higher one.
#[verifier::external_body]
fn hex_decode(text: &[u8]) -> (r: Result<Vec<u8>, hex::FromHexError>)
    ensures
        r is Ok <==> is_hex(text@),
        r is Ok ==> r.unwrap()@ == hex_bytes(text@),
{
    hex::decode(text)
}

/// `web3::types::H256::from_str`, with the hash handed back as its 32 bytes.
/// The parser drops a leading `0x`, skips blanks (space, carriage return,
/// line feed, tab) wherever they stand, and succeeds exactly where what is
/// left is 64 hexadecimal digits; the bytes are those of the digits in pairs,
/// the first digit being the higher one.
#[verifier::external_body]
fn h256_from_str(text: &str) -> (r: Option<Vec<u8>>)
    ensures
        r is Some <==> reads_as_h256(text.spec_bytes()),
        r is Some ==> r.unwrap()@ == hex_bytes(h256_digits(text.spec_bytes())),
{
    match web3::types::H256::from_str(text) {
        Ok(hash) => Some(hash.0.to_vec()),
        Err(_) => None,
    }
}

/// The text of a hash after its two characters of prefix.
fn digits_text(hash: &str) -> (r: Option<&str>)
    ensures
        r is Some <==> digits_of(hash@) is Some,
        r is Some ==> r.unwrap().spec_bytes() == digits_of(hash@).unwrap(),
{
    if hash.as_bytes().len() >= 2 && hash.is_char_boundary(2) {
        let (_, digits) = hash.split_at(2);
        assert(hash.spec_bytes().skip(2) =~= hash.spec_bytes().subrange(
            2,
            hash.spec_bytes().len() as int,
        ));
        Some(digits)
    } else {
        None
    }
}

/// Reads the hash that the chain is asked about.
pub fn parse_chain_hash(hash: &str) -> (r: Option<Vec<u8>>)
    ensures
        r is Some <==> chain_hash(hash@) is Some,
        r is Some ==> r.unwrap()@ == chain_hash(hash@).unwrap(),
{
    match digits_text(hash) {
        Some(digits) => h256_from_str(digits),
        None => None,
    }
}

/// Reads the bytes that stand for the hash in a settlement notice.
pub fn parse_notice_hash(hash: &str) -> (r: Option<Vec<u8>>)
    ensures
        r is Some <==> notice_hash(hash@) is Some,
        r is Some ==> r.unwrap()@ == notice_hash(hash@).unwrap(),
{
    match digits_text(hash) {
        Some(digits) => match h256_from_str(digits) {
            Some(parsed) => match hex_decode(digits.as_bytes()) {
                Ok(bytes) => Some(bytes),
                Err(_) => Some(parsed),
            },
            None => None,
        },
        None => None,
    }
}

/// The two readers agree: the bytes that stand for a hash in a settlement
/// notice are the bytes of the hash that the chain is asked about. Where
/// `hex::decode` accepts the digits, `H256` reads the same digits.
pub proof fn lemma_readers_agree(hash: Seq<char>)
    ensures
        notice_hash(hash) == chain_hash(hash),
{
    match digits_of(hash) {
        Some(digits) => {
            if reads_as_h256(digits) && is_hex(digits) {
                if digits.len() >= 2 {
                    assert(hex_digit(digits[1]) >= 0);
                }
                assert(without_prefix(digits) == digits);
                assert forall|i: int| 0 <= i < digits.len() implies not_blank()(
                    #[trigger] digits[i],
                ) by {
                    assert(hex_digit(digits[i]) >= 0);
                }
                lemma_filter_keeps_all(digits, not_blank());
            }
        },
        None => {},
    }
}

} // verus!
