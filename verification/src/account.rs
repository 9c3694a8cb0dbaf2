//! Accounts and their opaque tokens: fourteen random bytes in base 58.

use crate::radix::{convert, in_radix, lemma_convert_back};
use rand::RngCore;
use vstd::prelude::*;

verus! {

/// How many random bytes an account id or a bearer token holds.
pub const ENTROPY_BYTES: usize = 14;

/// An account: its id, the email address that it belongs to, and the bearer
/// token that opens it.
#[derive(Debug)]
pub struct Account {
    pub id: String,
    pub email: String,
    pub token: String,
}

/// Whether `c` belongs to the base-58 alphabet of Bitcoin: the digits and
/// letters without `0`, `O`, `I` and `l`.
pub open spec fn is_base58_char(c: char) -> bool {
    ||| '1' <= c <= '9'
    ||| 'A' <= c <= 'H'
    ||| 'J' <= c <= 'N'
    ||| 'P' <= c <= 'Z'
    ||| 'a' <= c <= 'k'
    ||| 'm' <= c <= 'z'
}

/// The character of the base-58 digit `d`, by the alphabet
/// `123456789ABCDEFGHJKLMNPQRSTUVWXYZabcdefghijkmnopqrstuvwxyz`.
pub open spec fn base58_char(d: nat) -> char
    recommends
        d < 58,
{
    if d < 9 {
        ('1' as int + d) as char
    } else if d < 17 {
        ('A' as int + (d - 9)) as char
    } else if d < 22 {
        ('J' as int + (d - 17)) as char
    } else if d < 33 {
        ('P' as int + (d - 22)) as char
    } else if d < 44 {
        ('a' as int + (d - 33)) as char
    } else {
        ('m' as int + (d - 44)) as char
    }
}

/// The base-58 digit of a character of the alphabet.
pub open spec fn base58_digit(c: char) -> nat
    recommends
        is_base58_char(c),
{
    if c <= '9' {
        (c as int - '1' as int) as nat
    } else if c <= 'H' {
        (c as int - 'A' as int + 9) as nat
    } else if c <= 'N' {
        (c as int - 'J' as int + 17) as nat
    } else if c <= 'Z' {
        (c as int - 'P' as int + 22) as nat
    } else if c <= 'k' {
        (c as int - 'a' as int + 33) as nat
    } else {
        (c as int - 'm' as int + 44) as nat
    }
}

/// The bytes as digits of radix 256.
pub open spec fn byte_digits(bytes: Seq<u8>) -> Seq<nat> {
    Seq::new(bytes.len(), |i: int| bytes[i] as nat)
}

/// The base-58 text of the bytes: the bytes are read as one number, the
/// most significant byte first, and the number is written in radix 58 with
/// the characters of the alphabet; each zero byte that leads the bytes gives
/// one leading `1`.
pub open spec fn base58_text(bytes: Seq<u8>) -> Seq<char> {
    let digits = convert(byte_digits(bytes), 256, 58);
    Seq::new(digits.len(), |i: int| base58_char(digits[i]))
}

/// The bytes that a base-58 text stands for; `None` where a character is
/// outside the alphabet.
pub open spec fn base58_bytes(text: Seq<char>) -> Option<Seq<u8>> {
    if forall|i: int| 0 <= i < text.len() ==> is_base58_char(#[trigger] text[i]) {
        let digits = convert(Seq::new(text.len(), |i: int| base58_digit(text[i])), 58, 256);
        Some(Seq::new(digits.len(), |i: int| digits[i] as u8))
    } else {
        None
    }
}

/// Whether `text` is the base-58 text of fourteen bytes.
pub open spec fn is_token_text(text: Seq<char>) -> bool {
    exists|bytes: Seq<u8>| bytes.len() == ENTROPY_BYTES && text == #[trigger] base58_text(bytes)
}

/// The character of a base-58 digit belongs to the alphabet, and the digit
/// of that character is the digit.
pub proof fn lemma_base58_char(d: nat)
    requires
        d < 58,
    ensures
        is_base58_char(base58_char(d)),
        base58_digit(base58_char(d)) == d,
{
}

/// Decoding the base-58 text of bytes gives the bytes back, and the text
/// holds characters of the alphabet only.
pub proof fn lemma_base58_round_trip(bytes: Seq<u8>)
    ensures
        base58_bytes(base58_text(bytes)) == Some(bytes),
        forall|i: int|
            0 <= i < base58_text(bytes).len() ==> is_base58_char(#[trigger] base58_text(bytes)[i]),
{
    let given = byte_digits(bytes);
    let digits = convert(given, 256, 58);
    let text = base58_text(bytes);
    assert(in_radix(given, 256));
    lemma_convert_back(given, 256, 58);
    assert forall|i: int| 0 <= i < text.len() implies is_base58_char(#[trigger] text[i])
        && base58_digit(text[i]) == digits[i] by {
        assert(digits[i] < 58);
        lemma_base58_char(digits[i]);
    }
    let read = Seq::new(text.len(), |i: int| base58_digit(text[i]));
    assert(read =~= digits);
    let back = convert(read, 58, 256);
    assert(back == given);
    assert(Seq::new(back.len(), |i: int| back[i] as u8) =~= bytes);
}

/// `bs58::encode`, with the alphabet `bs58::Alphabet::BITCOIN`, into a
/// `String`: the base-58 text of the bytes.
#[verifier::external_body]
fn encode_base58(bytes: &[u8]) -> (text: String)
    ensures
        text@ == base58_text(bytes@),
{
    bs58::encode(bytes).with_alphabet(bs58::Alphabet::BITCOIN).into_string()
}

/// `bs58::decode`, with the alphabet `bs58::Alphabet::BITCOIN`, into a
/// `Vec`: the bytes that the text stands for, or `None` for the error that
/// a character outside the alphabet gives.
#[verifier::external_body]
fn decode_base58(text: &str) -> (bytes: Option<Vec<u8>>)
    ensures
        match bytes {
            Some(b) => base58_bytes(text@) == Some(b@),
            None => base58_bytes(text@).is_none(),
        },
{
    bs58::decode(text).with_alphabet(bs58::Alphabet::BITCOIN).into_vec().ok()
}

/// `rand::thread_rng` and `RngCore::fill_bytes`: overwrites the bytes with
/// bytes from the thread's random number generator. Of the new bytes only
/// their number is claimed, which is that of the old.
#[verifier::external_body]
fn fill_random(bytes: &mut [u8; 14])
    ensures
        final(bytes)@.len() == old(bytes)@.len(),
{
    rand::thread_rng().fill_bytes(bytes);
}

/// The base-58 text of the given entropy.
pub fn token_text(entropy: &[u8; 14]) -> (text: String)
    ensures
        text@ == base58_text(entropy@),
        is_token_text(text@),
        base58_bytes(text@) == Some(entropy@),
        forall|i: int| 0 <= i < text@.len() ==> is_base58_char(#[trigger] text@[i]),
{
    proof {
        lemma_base58_round_trip(entropy@);
    }
    let text = encode_base58(entropy.as_slice());
    assert(text@ == base58_text(entropy@));
    text
}

/// The bytes that a token stands for; `None` where the text holds a
/// character outside the alphabet.
pub fn token_entropy(token: &str) -> (bytes: Option<Vec<u8>>)
    ensures
        match bytes {
            Some(b) => base58_bytes(token@) == Some(b@),
            None => base58_bytes(token@).is_none(),
        },
{
    decode_base58(token)
}

/// A fresh opaque identifier: fourteen random bytes as base-58 text, safe
/// in a URL.
pub fn get_nice_rand_str() -> (text: String)
    ensures
        is_token_text(text@),
        forall|i: int| 0 <= i < text@.len() ==> is_base58_char(#[trigger] text@[i]),
{
    let mut entropy: [u8; 14] = [0; 14];
    fill_random(&mut entropy);
    token_text(&entropy)
}

impl Account {
    /// The account that a row of the `auth` table stands for.
    pub fn from_row(id: String, email: String, token: String) -> (account: Account)
        ensures
            account == (Account { id, email, token }),
    {
        Account { id, email, token }
    }

    /// A new account for `email`, with a fresh id and a fresh token.
    pub fn from_email(email: &str) -> (account: Account)
        ensures
            account.email@ == email@,
            is_token_text(account.id@),
            is_token_text(account.token@),
    {
        Account {
            id: get_nice_rand_str(),
            email: String::from_str(email),
            token: get_nice_rand_str(),
        }
    }
}

} // verus!
