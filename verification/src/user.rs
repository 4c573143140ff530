//! Accounts: password hashes, the token claims that a password change
//! invalidates, and time-based one-time passwords.

use crate::primitives::{
    alphabetic, base32_decode_nopad, base32_decode_padded, base32_nopad, base32_padded,
    bcrypt_check, bcrypt_hash, bcrypt_verdict, hex_encode, hex_text, hmac_sha1, hmac_sha1_tag,
    is_alphabetic, random_index, shake256, shake256_output, to_upper, unix_now,
    uppercase,
};
use crate::decimal::{decimal, is_ascii_digit, is_digit, push_decimal};
use crate::error::{AppError, AppResult};
use crate::pieces::{trim, trimmed};
use crate::text::{chars_of, opt_or_empty, owned, same, string_of};
use crate::token::{Claims, jwt_encode, jwt_token, token_claims};
use vstd::prelude::*;

verus! {

/// The cost that new password hashes are made with.
pub const BCRYPT_COST: u32 = 10;

/// The number of bytes of the password-hash digest in a token.
pub const TOKEN_HASH_LEN: usize = 16;

/// How long a new token stays valid, in seconds: thirty days.
pub const TOKEN_LIFETIME_SECS: i64 = 2592000;

/// The length of a time step of one-time passwords, in seconds.
pub const TOTP_STEP_SECS: u64 = 30;

/// The number of digits of a one-time password.
pub const TOTP_DIGITS: u32 = 6;

/// An account.
#[derive(Debug, Clone, PartialEq)]
pub struct User {
    pub id: i64,
    pub username: String,
    pub password: Option<String>,
    pub active: bool,
    pub timezone: Option<String>,
    pub twofa_secret: Option<String>,
    pub twofa_status: bool,
    pub twofa_last_token: Option<String>,
}

/// The claims of a session token: the user, a digest of the password hash
/// (so that a password change invalidates the token) and an optional expiry.
#[derive(Debug, Clone, PartialEq)]
pub struct JwtClaims {
    pub username: String,
    pub h: String,
    pub exp: Option<usize>,
}

/// The digest of a password hash that a token carries: empty for an empty
/// hash, else the hexadecimal notation of `length` bytes of SHAKE256.
pub open spec fn shake256_hex_text(input: Seq<char>, length: nat) -> Seq<char> {
    if input.len() == 0 {
        Seq::empty()
    } else {
        hex_text(shake256_output(vstd::utf8::encode_utf8(input), length))
    }
}

/// A password verifies against a hash when bcrypt says so; a hash that
/// bcrypt cannot read verifies nothing.
pub open spec fn password_verifies(password: Seq<char>, hash: Seq<char>) -> bool {
    bcrypt_verdict(password, hash) == Some(true)
}

/// A password is strong enough with six bytes or more, a letter and a digit.
pub open spec fn strong_password(password: Seq<char>) -> bool {
    &&& vstd::utf8::encode_utf8(password).len() >= 6
    &&& exists|i: int| 0 <= i < password.len() && alphabetic(password[i])
    &&& exists|i: int| 0 <= i < password.len() && is_digit(password[i])
}

impl User {
    /// Whether the password is the account's. An account without password
    /// accepts none.
    pub fn verify_password(&self, password: &str) -> (r: bool)
        ensures
            r == match self.password {
                Some(stored) => password_verifies(password@, stored@),
                None => false,
            },
    {
        match &self.password {
            Some(stored) => verify_password_hash(password, stored.as_str()),
            None => false,
        }
    }

    /// A new token for this account under the server's secret, issued at
    /// `now` (seconds since the epoch) and valid for thirty days. It names
    /// the account and carries the digest of its password hash, and read
    /// under the same secret it gives these claims again. Fails where the
    /// expiry cannot be written as a time, or where the signing does.
    pub fn create_jwt(&self, jwt_secret: &str, now: i64) -> (r: AppResult<String>)
        ensures
            match r {
                Ok(token) => {
                    &&& 0 <= now + TOKEN_LIFETIME_SECS <= usize::MAX
                    &&& jwt_token(
                        self.username@,
                        self.token_digest(),
                        Some((now + TOKEN_LIFETIME_SECS) as usize),
                        jwt_secret@,
                    ) == Some(token@)
                    &&& token_claims(token@, jwt_secret@) == Some(
                        (Claims {
                            username: self.username@,
                            h: self.token_digest(),
                            exp: Some((now + TOKEN_LIFETIME_SECS) as usize),
                        }),
                    )
                },
                Err(e) => {
                    &&& e is Internal
                    &&& !(0 <= now + TOKEN_LIFETIME_SECS <= usize::MAX) || jwt_token(
                        self.username@,
                        self.token_digest(),
                        Some((now + TOKEN_LIFETIME_SECS) as usize),
                        jwt_secret@,
                    ) is None
                },
            },
    {
        let exp: i128 = now as i128 + TOKEN_LIFETIME_SECS as i128;
        if exp < 0 || exp > usize::MAX as i128 {
            return Err(AppError::Internal(owned("JWT encode error: expiry out of range")));
        }
        let h = match &self.password {
            Some(p) => shake256_hex(p.as_str(), TOKEN_HASH_LEN),
            None => String::new(),
        };
        match jwt_encode(self.username.as_str(), h.as_str(), Some(exp as usize), jwt_secret) {
            Ok(token) => Ok(token),
            Err(_) => Err(AppError::Internal(owned("JWT encode error"))),
        }
    }

    /// A new token for this account, issued now by the clock. Whatever the
    /// clock says, the token read under the same secret names the account
    /// and carries the digest of its password hash, so that it is still
    /// valid for the account, and it expires some time.
    pub fn issue_jwt(&self, jwt_secret: &str) -> (r: AppResult<String>)
        ensures
            match r {
                Ok(token) => token_claims(token@, jwt_secret@) matches Some(claims) && {
                    &&& claims.username == self.username@
                    &&& claims.h == self.token_digest()
                    &&& claims.exp is Some
                },
                Err(e) => e is Internal,
            },
    {
        self.create_jwt(jwt_secret, unix_now())
    }

    /// The digest of the account's password hash that its tokens carry.
    pub open spec fn token_digest(&self) -> Seq<char> {
        shake256_hex_text(opt_or_empty(self.password), TOKEN_HASH_LEN as nat)
    }

    /// Whether a token's claims still hold for the account: the digest in
    /// the token is the digest of the account's present password hash.
    pub fn token_still_valid(&self, claims: &JwtClaims) -> (r: bool)
        ensures
            r == (claims.h@ == shake256_hex_text(
                opt_or_empty(self.password),
                TOKEN_HASH_LEN as nat,
            )),
    {
        let h = match &self.password {
            Some(p) => shake256_hex(p.as_str(), TOKEN_HASH_LEN),
            None => String::new(),
        };
        h == claims.h
    }
}

/// A bcrypt hash of the password with a fresh salt. Every hash returned
/// verifies the password it was made from.
pub fn generate_password_hash(password: &str) -> (r: AppResult<String>)
    ensures
        match r {
            Ok(h) => password_verifies(password@, h@),
            Err(e) => e matches AppError::Internal(msg) && msg@ == "bcrypt hash failed"@,
        },
{
    match bcrypt_hash(password, BCRYPT_COST) {
        Ok(h) => Ok(h),
        Err(_) => Err(AppError::Internal(owned("bcrypt hash failed"))),
    }
}

/// Whether the password verifies against the bcrypt hash.
pub fn verify_password_hash(password: &str, hash: &str) -> (r: bool)
    ensures
        r == password_verifies(password@, hash@),
{
    match bcrypt_check(password, hash) {
        Ok(b) => b,
        Err(_) => false,
    }
}

/// The hexadecimal notation of `length` bytes of SHAKE256 of the text,
/// which has twice as many characters; empty for the empty text. The
/// notation must fit in one allocation.
pub fn shake256_hex(input: &str, length: usize) -> (r: String)
    requires
        2 * length <= isize::MAX,
    ensures
        r@ == shake256_hex_text(input@, length as nat),
        input@.len() == 0 ==> r@.len() == 0,
        input@.len() > 0 ==> r@.len() == 2 * length,
{
    if input.is_empty() {
        return String::new();
    }
    let digest = shake256(input.as_bytes(), length);
    hex_encode(digest.as_slice())
}

/// Whether a password is strong enough.
pub fn check_password_strength(password: &str) -> (r: bool)
    ensures
        r == strong_password(password@),
{
    if password.as_bytes().len() < 6 {
        return false;
    }
    let p = chars_of(password);
    let mut has_alpha = false;
    let mut has_digit = false;
    let mut i: usize = 0;
    while i < p.len()
        invariant
            i <= p.len(),
            p@ == password@,
            has_alpha == exists|k: int| 0 <= k < i && alphabetic(p@[k]),
            has_digit == exists|k: int| 0 <= k < i && is_digit(p@[k]),
        decreases p.len() - i,
    {
        let c = p[i];
        let a = is_alphabetic(c);
        let d = is_ascii_digit(c);
        proof {
            if a {
                assert(alphabetic(p@[i as int]));
            }
            if d {
                assert(is_digit(p@[i as int]));
            }
        }
        has_alpha = has_alpha || a;
        has_digit = has_digit || d;
        i = i + 1;
    }
    has_alpha && has_digit
}

// ---------------------------------------------------------------------------
// One-time passwords
// ---------------------------------------------------------------------------

/// The eight bytes of a counter, most significant first.
pub open spec fn be_bytes(counter: u64) -> Seq<u8> {
    seq![
        ((counter as int / 0x100_0000_0000_0000) % 256) as u8,
        ((counter as int / 0x1_0000_0000_0000) % 256) as u8,
        ((counter as int / 0x100_0000_0000) % 256) as u8,
        ((counter as int / 0x1_0000_0000) % 256) as u8,
        ((counter as int / 0x100_0000) % 256) as u8,
        ((counter as int / 0x1_0000) % 256) as u8,
        ((counter as int / 0x100) % 256) as u8,
        (counter as int % 256) as u8,
    ]
}

/// The 31-bit number that dynamic truncation takes from a 20-byte tag: the
/// low four bits of the last byte choose where four bytes are read, and the
/// top bit of the first of them is dropped.
pub open spec fn truncated(tag: Seq<u8>) -> int {
    let at = tag[19] as int % 16;
    (tag[at] as int % 128) * 0x100_0000 + tag[at + 1] as int * 0x1_0000 + tag[at + 2] as int
        * 0x100 + tag[at + 3] as int
}

/// Ten to the power of `digits`.
pub open spec fn pow10(digits: nat) -> nat
    decreases digits,
{
    if digits == 0 {
        1
    } else {
        10 * pow10((digits - 1) as nat)
    }
}

/// The digits, with zeros in front up to the given width.
pub open spec fn zero_padded(digits: Seq<char>, width: nat) -> Seq<char> {
    if digits.len() >= width {
        digits
    } else {
        Seq::new((width - digits.len()) as nat, |i: int| '0') + digits
    }
}

/// The one-time password that a tag gives.
pub open spec fn hotp_text(tag: Seq<u8>, digits: nat) -> Seq<char> {
    zero_padded(decimal((truncated(tag) % (pow10(digits) as int)) as nat), digits)
}

/// The counter of the time step `offset` steps from the one that holds
/// `now`; before step 0 it wraps around to the largest counters.
pub open spec fn step_counter(now: u64, offset: int) -> u64 {
    let c = now as int / TOTP_STEP_SECS as int + offset;
    if c < 0 {
        (c + 0x1_0000_0000_0000_0000) as u64
    } else {
        c as u64
    }
}

/// The key of the one-time passwords: the secret read as base32, without or
/// with padding, after trimming and raising to upper case; where it is
/// neither, the bytes of the secret as it stands.
pub open spec fn totp_key(secret: Seq<char>) -> Seq<u8> {
    let code = vstd::utf8::encode_utf8(uppercase(trim(secret)));
    match base32_nopad(code) {
        Some(key) => key,
        None => match base32_padded(code) {
            Some(key) => key,
            None => vstd::utf8::encode_utf8(secret),
        },
    }
}

/// The token is the one-time password of the time step `offset` steps from now.
pub open spec fn totp_matches_at(
    token: Seq<char>,
    secret: Seq<char>,
    now: u64,
    offset: int,
) -> bool {
    token == hotp_text(
        hmac_sha1_tag(totp_key(secret), be_bytes(step_counter(now, offset))),
        TOTP_DIGITS as nat,
    )
}

/// The token is accepted at a time: it is the one-time password of the
/// time step that holds `now`, of the one before or of the one after.
pub open spec fn totp_accepts(token: Seq<char>, secret: Seq<char>, now: u64) -> bool {
    totp_matches_at(token, secret, now, -1) || totp_matches_at(token, secret, now, 0)
        || totp_matches_at(token, secret, now, 1)
}

fn counter_bytes(counter: u64) -> (r: Vec<u8>)
    ensures
        r@ == be_bytes(counter),
{
    let mut r: Vec<u8> = Vec::new();
    r.push(((counter / 0x100_0000_0000_0000) % 256) as u8);
    r.push(((counter / 0x1_0000_0000_0000) % 256) as u8);
    r.push(((counter / 0x100_0000_0000) % 256) as u8);
    r.push(((counter / 0x1_0000_0000) % 256) as u8);
    r.push(((counter / 0x100_0000) % 256) as u8);
    r.push(((counter / 0x1_0000) % 256) as u8);
    r.push(((counter / 0x100) % 256) as u8);
    r.push((counter % 256) as u8);
    assert(r@ =~= be_bytes(counter));
    r
}

fn power_of_ten(digits: u32) -> (r: u32)
    requires
        digits <= 9,
    ensures
        r == pow10(digits as nat),
        r >= 1,
{
    let mut r: u32 = 1;
    let mut i: u32 = 0;
    while i < digits
        invariant
            i <= digits <= 9,
            r == pow10(i as nat),
            1 <= r <= 1000000000,
            i < 9 ==> r <= 100000000,
            i < 8 ==> r <= 10000000,
            i < 7 ==> r <= 1000000,
            i < 6 ==> r <= 100000,
            i < 5 ==> r <= 10000,
            i < 4 ==> r <= 1000,
            i < 3 ==> r <= 100,
            i < 2 ==> r <= 10,
            i < 1 ==> r <= 1,
        decreases digits - i,
    {
        r = r * 10;
        i = i + 1;
    }
    r
}

/// The counter-based one-time password of `digits` digits for a key.
pub fn generate_hotp(secret: &[u8], counter: u64, digits: u32) -> (r: String)
    requires
        digits <= 9,
    ensures
        r@ == hotp_text(hmac_sha1_tag(secret@, be_bytes(counter)), digits as nat),
{
    let message = counter_bytes(counter);
    let tag = hmac_sha1(secret, message.as_slice());
    let at: usize = (tag[19] % 16) as usize;
    let code: u32 = (tag[at] % 128) as u32 * 0x100_0000 + tag[at + 1] as u32 * 0x1_0000 + tag[at
        + 2] as u32 * 0x100 + tag[at + 3] as u32;
    let code = code % power_of_ten(digits);
    let mut text: Vec<char> = Vec::new();
    push_decimal(&mut text, code as u64);
    assert(text@ == decimal(code as nat));
    let mut out: Vec<char> = Vec::new();
    let width = digits as usize;
    if text.len() < width {
        let pad = width - text.len();
        let mut i: usize = 0;
        while i < pad
            invariant
                i <= pad,
                out@ == Seq::new(i as nat, |k: int| '0'),
            decreases pad - i,
        {
            out.push('0');
            assert(out@ =~= Seq::new((i + 1) as nat, |k: int| '0'));
            i = i + 1;
        }
    }
    crate::text::extend(&mut out, &text);
    string_of(&out)
}

/// Whether the token is the time-based one-time password of the secret
/// for the time step that holds `now` (seconds since the epoch), the one
/// before or the one after.
pub fn verify_totp(token: &str, secret_b32: &str, now: u64) -> (r: bool)
    ensures
        r == totp_accepts(token@, secret_b32@, now),
{
    let raw = chars_of(secret_b32);
    let t = string_of(&trimmed(&raw));
    let upper = to_upper(t.as_str());
    let key = match base32_decode_nopad(upper.as_str().as_bytes()) {
        Ok(k) => k,
        Err(_) => match base32_decode_padded(upper.as_str().as_bytes()) {
            Ok(k) => k,
            Err(_) => vstd::slice::slice_to_vec(secret_b32.as_bytes()),
        },
    };
    assert(key@ == totp_key(secret_b32@));
    let counter: u64 = now / TOTP_STEP_SECS;
    let before: u64 = if counter == 0 {
        u64::MAX
    } else {
        counter - 1
    };
    let after: u64 = counter + 1;
    assert(before == step_counter(now, -1));
    assert(counter == step_counter(now, 0));
    assert(after == step_counter(now, 1));
    let wanted = chars_of(token);
    let a = generate_hotp(key.as_slice(), before, TOTP_DIGITS);
    if same(&chars_of(a.as_str()), &wanted) {
        return true;
    }
    let b = generate_hotp(key.as_slice(), counter, TOTP_DIGITS);
    if same(&chars_of(b.as_str()), &wanted) {
        return true;
    }
    let c = generate_hotp(key.as_slice(), after, TOTP_DIGITS);
    same(&chars_of(c.as_str()), &wanted)
}

/// The seconds since the epoch by the clock; 0 where the clock reads a
/// time before the epoch. What the clock reads cannot be told beforehand:
/// the result is the seconds of some reading.
fn clock_secs() -> (r: u64)
    ensures
        exists|reading: i64| r == #[trigger] epoch_secs(reading),
{
    let now = unix_now();
    let r = if now < 0 {
        0
    } else {
        now as u64
    };
    assert(r == epoch_secs(now));
    r
}

/// Whether the token is the time-based one-time password of the secret
/// for the present time step by the clock, the one before or the one
/// after. The time is read once; the answer is the one of `verify_totp`
/// for the seconds of that reading.
pub fn verify_totp_now(token: &str, secret_b32: &str) -> (r: bool)
    ensures
        exists|reading: i64|
            r == totp_accepts(token@, secret_b32@, #[trigger] epoch_secs(reading)),
{
    let now = clock_secs();
    verify_totp(token, secret_b32, now)
}

/// The seconds since the epoch that a reading of the clock stands for:
/// none for a reading before the epoch.
pub open spec fn epoch_secs(reading: i64) -> u64 {
    if reading < 0 {
        0
    } else {
        reading as u64
    }
}

// ---------------------------------------------------------------------------
// Secrets
// ---------------------------------------------------------------------------

/// The characters that a generated secret is made of.
pub open spec fn secret_charset() -> Seq<char> {
    "ABCDEFGHIJKLMNOPQRSTUVWXYZabcdefghijklmnopqrstuvwxyz0123456789"@
}

/// A random secret of the given length over letters and digits.
pub fn gen_secret(length: usize) -> (r: String)
    ensures
        r@.len() == length,
        forall|i: int| 0 <= i < length ==> secret_charset().contains(#[trigger] r@[i]),
{
    let charset = chars_of("ABCDEFGHIJKLMNOPQRSTUVWXYZabcdefghijklmnopqrstuvwxyz0123456789");
    proof {
        reveal_strlit("ABCDEFGHIJKLMNOPQRSTUVWXYZabcdefghijklmnopqrstuvwxyz0123456789");
    }
    assert(charset.len() == 62);
    let mut out: Vec<char> = Vec::new();
    let mut i: usize = 0;
    while i < length
        invariant
            i <= length,
            charset@ == secret_charset(),
            charset.len() == 62,
            out@.len() == i,
            forall|k: int| 0 <= k < i ==> secret_charset().contains(#[trigger] out@[k]),
        decreases length - i,
    {
        let idx = random_index(charset.len());
        out.push(charset[idx]);
        i = i + 1;
    }
    string_of(&out)
}

} // verus!
