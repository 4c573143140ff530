//! The primitives that the library takes from other crates and from the
//! standard library: bcrypt, SHAKE256, HMAC-SHA1, base32, hexadecimal
//! notation, percent-encoding, letter case, a random index and the clock.
//! Each is a call behind a contract that is believed, not proved.

use hmac::Mac;
use rand::Rng;
use vstd::prelude::*;

verus! {

/// `bcrypt::BcryptError`, carried through without a look inside.
#[verifier::external_type_specification]
#[verifier::external_body]
pub struct ExBcryptError(bcrypt::BcryptError);

/// `data_encoding::DecodeError`, carried through without a look inside.
#[verifier::external_type_specification]
#[verifier::external_body]
pub struct ExDecodeError(data_encoding::DecodeError);

/// What `bcrypt::verify` finds for a password and a stored hash: whether
/// they match, or `None` where it reports an error (a hash it cannot read).
pub uninterp spec fn bcrypt_verdict(password: Seq<char>, hash: Seq<char>) -> Option<bool>;

/// The first `length` bytes of the SHAKE256 output for `input`.
pub uninterp spec fn shake256_output(input: Seq<u8>, length: nat) -> Seq<u8>;

/// The HMAC-SHA1 tag of `message` under `key`.
pub uninterp spec fn hmac_sha1_tag(key: Seq<u8>, message: Seq<u8>) -> Seq<u8>;

/// The bytes that unpadded base32 text stands for; `None` where the text is
/// no such encoding.
pub uninterp spec fn base32_nopad(input: Seq<u8>) -> Option<Seq<u8>>;

/// The bytes that padded base32 text stands for; `None` where the text is no
/// such encoding.
pub uninterp spec fn base32_padded(input: Seq<u8>) -> Option<Seq<u8>>;

/// The upper-case form of a text, as `str::to_uppercase` gives it.
pub uninterp spec fn uppercase(s: Seq<char>) -> Seq<char>;

/// Whether a character has the Unicode property `Alphabetic`, as
/// `char::is_alphabetic` tells.
pub uninterp spec fn alphabetic(c: char) -> bool;

/// The lower-case hexadecimal digit of a value below sixteen.
pub open spec fn hex_digit(d: int) -> char {
    if d == 0 {
        '0'
    } else if d == 1 {
        '1'
    } else if d == 2 {
        '2'
    } else if d == 3 {
        '3'
    } else if d == 4 {
        '4'
    } else if d == 5 {
        '5'
    } else if d == 6 {
        '6'
    } else if d == 7 {
        '7'
    } else if d == 8 {
        '8'
    } else if d == 9 {
        '9'
    } else if d == 10 {
        'a'
    } else if d == 11 {
        'b'
    } else if d == 12 {
        'c'
    } else if d == 13 {
        'd'
    } else if d == 14 {
        'e'
    } else {
        'f'
    }
}

/// Two lower-case hexadecimal digits for every byte, high digit first.
pub open spec fn hex_text(bytes: Seq<u8>) -> Seq<char> {
    Seq::new(
        2 * bytes.len(),
        |i: int|
            if i % 2 == 0 {
                hex_digit(bytes[i / 2] as int / 16)
            } else {
                hex_digit(bytes[i / 2] as int % 16)
            },
    )
}

/// `bcrypt::verify`: the verdict named `bcrypt_verdict` for this password
/// and hash.
#[verifier::external_body]
pub(crate) fn bcrypt_check(password: &str, hash: &str) -> (r: Result<bool, bcrypt::BcryptError>)
    ensures
        match r {
            Ok(b) => bcrypt_verdict(password@, hash@) == Some(b),
            Err(_) => bcrypt_verdict(password@, hash@) is None,
        },
{
    bcrypt::verify(password, hash)
}

/// `bcrypt::hash`: the salt is random, so the hash is not named; what
/// holds of every hash it returns is that `bcrypt::verify` accepts the same
/// password against it.
#[verifier::external_body]
pub(crate) fn bcrypt_hash(password: &str, cost: u32) -> (r: Result<String, bcrypt::BcryptError>)
    ensures
        r matches Ok(h) ==> bcrypt_verdict(password@, h@) == Some(true),
{
    bcrypt::hash(password, cost)
}

/// `Shake256::digest_xof`: `length` bytes of output for `input`. The
/// output must fit in one allocation.
#[verifier::external_body]
pub(crate) fn shake256(input: &[u8], length: usize) -> (r: Vec<u8>)
    requires
        length <= isize::MAX,
    ensures
        r@ == shake256_output(input@, length as nat),
        r@.len() == length,
{
    let mut out = vec![0u8; length];
    <sha3::Shake256 as sha3::digest::ExtendableOutput>::digest_xof(input, &mut out);
    out
}

/// `hex::encode`: two lower-case hexadecimal digits for every byte. The
/// text must fit in one allocation.
#[verifier::external_body]
pub(crate) fn hex_encode(bytes: &[u8]) -> (r: String)
    requires
        2 * bytes@.len() <= isize::MAX,
    ensures
        r@ == hex_text(bytes@),
{
    hex::encode(bytes)
}

/// `Hmac<Sha1>`: the tag of `message` under `key`, 20 bytes long. A key
/// of any length is accepted.
#[verifier::external_body]
pub(crate) fn hmac_sha1(key: &[u8], message: &[u8]) -> (r: Vec<u8>)
    ensures
        r@ == hmac_sha1_tag(key@, message@),
        r@.len() == 20,
{
    let mut mac = <hmac::Hmac<sha1::Sha1>>::new_from_slice(key).expect("any key length");
    mac.update(message);
    mac.finalize().into_bytes().to_vec()
}

/// `BASE32_NOPAD.decode`.
#[verifier::external_body]
pub(crate) fn base32_decode_nopad(input: &[u8]) -> (r: Result<Vec<u8>, data_encoding::DecodeError>)
    ensures
        match r {
            Ok(bytes) => base32_nopad(input@) == Some(bytes@),
            Err(_) => base32_nopad(input@) is None,
        },
{
    data_encoding::BASE32_NOPAD.decode(input)
}

/// `BASE32.decode`.
#[verifier::external_body]
pub(crate) fn base32_decode_padded(input: &[u8]) -> (r: Result<Vec<u8>, data_encoding::DecodeError>)
    ensures
        match r {
            Ok(bytes) => base32_padded(input@) == Some(bytes@),
            Err(_) => base32_padded(input@) is None,
        },
{
    data_encoding::BASE32.decode(input)
}

/// `str::to_uppercase`.
#[verifier::external_body]
pub(crate) fn to_upper(s: &str) -> (r: String)
    ensures
        r@ == uppercase(s@),
{
    s.to_uppercase()
}

/// `char::is_alphabetic`.
#[verifier::external_body]
pub(crate) fn is_alphabetic(c: char) -> (r: bool)
    ensures
        r == alphabetic(c),
{
    c.is_alphabetic()
}

/// `Rng::random_range(0..n)` on the thread's generator: some index below `n`.
#[verifier::external_body]
pub(crate) fn random_index(n: usize) -> (r: usize)
    requires
        n > 0,
    ensures
        r < n,
{
    rand::rng().random_range(0..n)
}

/// The upper-case hexadecimal digit of a value below sixteen.
pub open spec fn upper_hex_digit(d: int) -> char {
    if d == 10 {
        'A'
    } else if d == 11 {
        'B'
    } else if d == 12 {
        'C'
    } else if d == 13 {
        'D'
    } else if d == 14 {
        'E'
    } else if d == 15 {
        'F'
    } else {
        hex_digit(d)
    }
}

/// A byte that stands for itself in a URL: a letter, a digit, `-`, `.`,
/// `_` or `~`.
pub open spec fn unreserved(b: u8) -> bool {
    (0x30 <= b && b <= 0x39) || (0x41 <= b && b <= 0x5a) || (0x61 <= b && b <= 0x7a) || b == 0x2d
        || b == 0x2e || b == 0x5f || b == 0x7e
}

/// A byte as it appears in a URL: itself, or a percent sign and its two
/// upper-case hexadecimal digits.
pub open spec fn encoded_byte(b: u8) -> Seq<char> {
    if unreserved(b) {
        seq![b as char]
    } else {
        seq!['%', upper_hex_digit(b as int / 16), upper_hex_digit(b as int % 16)]
    }
}

/// The bytes as they appear in a URL, one after the other.
pub open spec fn percent_encoded(bytes: Seq<u8>) -> Seq<char>
    decreases bytes.len(),
{
    if bytes.len() == 0 {
        Seq::empty()
    } else {
        encoded_byte(bytes[0]) + percent_encoded(bytes.drop_first())
    }
}

/// `urlencoding::encode`: every byte of the text's UTF-8 form is kept if it
/// is unreserved and percent-encoded if not.
#[verifier::external_body]
pub(crate) fn url_encode(text: &str) -> (r: String)
    ensures
        r@ == percent_encoded(vstd::utf8::encode_utf8(text@)),
{
    urlencoding::encode(text).into_owned()
}

/// `chrono::Utc::now`: the seconds since the Unix epoch, whatever the clock says.
#[verifier::external_body]
pub(crate) fn unix_now() -> i64 {
    chrono::Utc::now().timestamp()
}

} // verus!
