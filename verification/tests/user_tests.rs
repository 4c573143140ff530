use dockge_backend::error::AppError;
use dockge_backend::json::JsonValue;
use dockge_backend::token::{claims_from, read_jwt};
use dockge_backend::user::{
    check_password_strength, gen_secret, generate_hotp, generate_password_hash,
    shake256_hex, verify_password_hash, verify_totp, verify_totp_now, JwtClaims, User,
};

const RFC_KEY: &[u8] = b"12345678901234567890";

const RFC_KEY_BASE32: &str = "GEZDGNBVGY3TQOJQGEZDGNBVGY3TQOJQ";

fn clock_secs() -> u64 {
    std::time::SystemTime::now()
        .duration_since(std::time::UNIX_EPOCH)
        .map(|d| d.as_secs())
        .unwrap_or(0)
}

fn user(password: Option<&str>) -> User {
    User {
        id: 1,
        username: "admin".to_string(),
        password: password.map(|p| p.to_string()),
        active: true,
        timezone: None,
        twofa_secret: None,
        twofa_status: false,
        twofa_last_token: None,
    }
}

#[test]
fn a_password_verifies_against_its_own_hash() {
    let hash = generate_password_hash("hunter22").unwrap();
    assert_ne!(hash, "hunter22");
    assert!(hash.starts_with("$2"));
    assert!(verify_password_hash("hunter22", &hash));
    assert!(!verify_password_hash("hunter23", &hash));
    assert!(!verify_password_hash("", &hash));
    let other = generate_password_hash("hunter22").unwrap();
    assert_ne!(other, hash);
    assert!(verify_password_hash("hunter22", &other));
}

#[test]
fn a_known_hash_verifies() {
    let hash = "$2b$04$EGdrhbKUv8Oc9vGiXX0HQOxSg445d458Muh7DAHskb6QbtCvdxcie";
    assert!(verify_password_hash("correctbatteryhorsestapler", hash));
    assert!(!verify_password_hash("correctbatteryhorsestaple", hash));
}

#[test]
fn what_is_no_hash_verifies_nothing() {
    assert!(!verify_password_hash("hunter22", "hunter22"));
    assert!(!verify_password_hash("hunter22", ""));
    assert!(!verify_password_hash("", ""));
}

#[test]
fn an_account_checks_its_password() {
    let hash = generate_password_hash("hunter22").unwrap();
    assert!(user(Some(&hash)).verify_password("hunter22"));
    assert!(!user(Some(&hash)).verify_password("wrong1"));
    assert!(!user(None).verify_password("hunter22"));
    assert!(!user(None).verify_password(""));
}

#[test]
fn shake256_in_hexadecimal() {
    assert_eq!(shake256_hex("abc", 16), "483366601360a8771c6863080cc4114d");
    assert_eq!(
        shake256_hex("abc", 32),
        "483366601360a8771c6863080cc4114d8db44530f8f1e1ee4f94ea37e78b5739"
    );
    assert_eq!(shake256_hex("abc", 1), "48");
    assert_eq!(shake256_hex("abc", 0), "");
    assert_eq!(shake256_hex("", 16), "");
}

#[test]
fn token_claims() {
    let hash = "$2b$10$abcdefghijklmnopqrstuv";
    let u = user(Some(hash));
    let token = u.create_jwt("server secret", 1_700_000_000).unwrap();
    assert_eq!(token.split('.').count(), 3);
    assert_eq!(read_jwt(&token, "another secret"), None);
    assert_eq!(read_jwt(&token[1..], "server secret"), None);
    assert_eq!(read_jwt("no token", "server secret"), None);
    let claims = read_jwt(&token, "server secret").unwrap();
    assert_eq!(claims.username, "admin");
    assert_eq!(claims.h, shake256_hex(hash, 16));
    assert_eq!(claims.h.len(), 32);
    assert_eq!(claims.exp, Some(1_702_592_000));
    assert!(u.token_still_valid(&claims));
    let changed = user(Some("$2b$10$zzzzzzzzzzzzzzzzzzzzzz"));
    assert!(!changed.token_still_valid(&claims));
    let none = user(None);
    let token = none.create_jwt("k", 0).unwrap();
    assert_eq!(read_jwt(&token, "k").unwrap().h, "");
    assert!(none.token_still_valid(&JwtClaims {
        username: "admin".to_string(),
        h: "".to_string(),
        exp: None
    }));
}

#[test]
fn claims_are_read_out_of_a_document() {
    let text = |t: &str| JsonValue::Str(t.to_string());
    let doc = |members: Vec<(&str, JsonValue)>| {
        JsonValue::Object(members.into_iter().map(|(k, v)| (k.to_string(), v)).collect())
    };
    let number = |n: &str| JsonValue::Number(n.to_string());
    let claims = |exp: Option<usize>| {
        Some(JwtClaims { username: "admin".to_string(), h: "ab".to_string(), exp })
    };
    let base = || vec![("username", text("admin")), ("h", text("ab"))];
    assert_eq!(claims_from(&doc(base())), claims(None));
    let with = |exp: JsonValue| {
        let mut m = base();
        m.push(("exp", exp));
        m.push(("iat", number("5")));
        claims_from(&doc(m))
    };
    assert_eq!(with(JsonValue::Null), claims(None));
    assert_eq!(with(number("0")), claims(Some(0)));
    assert_eq!(with(number("1702592000")), claims(Some(1_702_592_000)));
    assert_eq!(with(number("-1")), None);
    assert_eq!(with(number("1.5")), None);
    assert_eq!(with(number("340282366920938463463374607431768211456")), None);
    assert_eq!(with(text("1702592000")), None);
    assert_eq!(claims_from(&doc(vec![("username", text("admin"))])), None);
    assert_eq!(claims_from(&doc(vec![("h", text("ab"))])), None);
    assert_eq!(claims_from(&doc(vec![("username", number("1")), ("h", text("ab"))])), None);
    assert_eq!(claims_from(&text("admin")), None);
}

#[test]
fn a_token_without_expiry_is_read() {
    let token = "eyJ0eXAiOiJKV1QiLCJhbGciOiJIUzI1NiJ9";
    assert_eq!(read_jwt(token, "k"), None);
    let u = user(Some("$2b$10$abcdefghijklmnopqrstuv"));
    let old = read_jwt(&u.create_jwt("k", -2_592_000).unwrap(), "k").unwrap();
    assert_eq!(old.exp, Some(0));
    assert!(u.token_still_valid(&old));
}

#[test]
fn token_claims_need_an_expiry_that_can_be_written() {
    assert!(matches!(user(None).create_jwt("k", -2_592_001), Err(AppError::Internal(_))));
    let exp_at = |now: i64| read_jwt(&user(None).create_jwt("k", now).unwrap(), "k").unwrap().exp;
    assert_eq!(exp_at(-2_592_000), Some(0));
    assert_eq!(exp_at(4_102_444_800), Some(4_105_036_800));
}

#[test]
fn counter_based_passwords_of_the_standard() {
    let want = [
        "755224", "287082", "359152", "969429", "338314", "254676", "287922", "162583", "399871",
        "520489",
    ];
    for (counter, code) in want.iter().enumerate() {
        assert_eq!(generate_hotp(RFC_KEY, counter as u64, 6), *code);
    }
    assert_eq!(generate_hotp(RFC_KEY, 1, 8), "94287082");
    assert_eq!(generate_hotp(RFC_KEY, 0, 1), "4");
    assert_eq!(generate_hotp(RFC_KEY, 0, 0), "0");
}

#[test]
fn time_based_passwords_allow_one_step_of_drift() {
    assert!(verify_totp("287082", RFC_KEY_BASE32, 59));
    assert!(verify_totp("755224", RFC_KEY_BASE32, 59));
    assert!(verify_totp("359152", RFC_KEY_BASE32, 59));
    assert!(!verify_totp("969429", RFC_KEY_BASE32, 59));
    assert!(verify_totp("287082", RFC_KEY_BASE32, 30));
    assert!(verify_totp("755224", RFC_KEY_BASE32, 0));
    assert!(verify_totp("287082", RFC_KEY_BASE32, 0));
    assert!(!verify_totp("359152", RFC_KEY_BASE32, 0));
    assert!(!verify_totp("", RFC_KEY_BASE32, 59));
    assert!(!verify_totp("28708", RFC_KEY_BASE32, 59));
}

#[test]
fn the_secret_is_trimmed_and_raised() {
    assert!(verify_totp("287082", " gezdgnbvgy3tqojqgezdgnbvgy3tqojq\n", 59));
    assert!(verify_totp("287082", "GEZDGNBVGY3TQOJQGEZDGNBVGY3TQOJQ", 59));
}

#[test]
fn a_padded_secret_is_read_with_its_padding() {
    let token = generate_hotp(b"123456", 1, 6);
    assert!(verify_totp(&token, "GEZDGNBVGY======", 59));
    assert!(verify_totp(&token, " gezdgnbvgy======", 59));
    assert_ne!(token, generate_hotp(b"GEZDGNBVGY======", 1, 6));
}

#[test]
fn a_secret_that_is_no_base32_is_taken_as_it_stands() {
    assert!(verify_totp("287082", "12345678901234567890", 59));
    assert!(!verify_totp("287082", "12345678901234567891", 59));
}

#[test]
fn password_strength() {
    for good in ["hunter22", "abc123", "1a2b3c", "пароль1", "ééé1", "a1    "] {
        assert!(check_password_strength(good), "{}", good);
    }
    for bad in ["", "a1", "abc12", "hunter", "123456", "!!!!!!1", "abcdef!", "é1"] {
        assert!(!check_password_strength(bad), "{}", bad);
    }
}

#[test]
fn secrets_are_letters_and_digits() {
    for length in [0usize, 1, 16, 64, 200] {
        let s = gen_secret(length);
        assert_eq!(s.chars().count(), length);
        assert!(s.chars().all(|c| c.is_ascii_alphanumeric()));
    }
    assert_ne!(gen_secret(64), gen_secret(64));
}

#[test]
fn the_clock_reads_a_time_of_this_century() {
    let now = clock_secs();
    assert!(now > 1_600_000_000);
    assert!(now < 4_102_444_800);
    let token = user(Some("$2b$10$abcdefghijklmnopqrstuv")).issue_jwt("k").unwrap();
    let claims = read_jwt(&token, "k").unwrap();
    let exp = claims.exp.unwrap() as u64;
    assert!(exp >= now + 2_592_000);
    assert!(exp <= clock_secs() + 2_592_000);
    assert_eq!(claims.h, shake256_hex("$2b$10$abcdefghijklmnopqrstuv", 16));
}

#[test]
fn a_password_of_the_present_time_step_verifies() {
    let step = clock_secs() / 30;
    let token = generate_hotp(RFC_KEY, step, 6);
    assert!(verify_totp_now(&token, RFC_KEY_BASE32));
    let far = generate_hotp(RFC_KEY, step + 1000, 6);
    let near: Vec<String> = (0..5).map(|i| generate_hotp(RFC_KEY, step - 1 + i, 6)).collect();
    if !near.contains(&far) {
        assert!(!verify_totp_now(&far, RFC_KEY_BASE32));
    }
}
