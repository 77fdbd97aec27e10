use pmvheaven::account::{
    stored_header_from_blob,
    cookie_header, cookie_insert, extract_auth_cookies, get_account_user, is_connected,
    merge_cookies, parse_auth_cookie, stored_cookie_header, try_cookie_blob, AccountRow,
};
use pmvheaven::crypto::{
    check_hex_cuttable, choose_key, decrypt, encrypt, encrypt_with_iv, hex_decode,
    hex_encode, resolve_key, split_dots, try_decrypt,
};

fn s(x: &str) -> String {
    x.to_string()
}

fn pair(a: &str, b: &str) -> (String, String) {
    (s(a), s(b))
}

#[test]
fn hex_roundtrip_and_errors() {
    assert_eq!(hex_encode(&[0, 255, 16, 171]), "00ff10ab");
    assert_eq!(hex_decode("00ff10ab"), Ok(vec![0, 255, 16, 171]));
    assert_eq!(hex_decode("00FF"), Ok(vec![0, 255]));
    assert_eq!(hex_decode("+f"), Ok(vec![15]));
    assert_eq!(hex_decode(""), Ok(vec![]));
    assert_eq!(hex_decode("abc"), Err(()));
    assert_eq!(hex_decode("zz"), Err(()));
    assert!(check_hex_cuttable("00ff"));
    assert!(check_hex_cuttable("aé"));
    assert!(!check_hex_cuttable("aéb"));
    assert!(check_hex_cuttable("zzé"));
    assert!(check_hex_cuttable("00éé"));
    assert!(!check_hex_cuttable("00aéb"));
    assert_eq!(hex_decode("aé"), Err(()));
    assert_eq!(hex_decode("zzé"), Err(()));
    assert_eq!(hex_decode("00éé"), Err(()));
    let bytes: Vec<u8> = (0..=255).collect();
    assert_eq!(hex_decode(&hex_encode(&bytes)), Ok(bytes));
}

#[test]
fn split_on_dots() {
    assert_eq!(split_dots("a.b.c"), vec!["a", "b", "c"]);
    assert_eq!(split_dots("..x"), vec!["", "", "x"]);
    assert_eq!(split_dots(""), vec![""]);
}

#[test]
fn gcm_known_answers() {
    let key = [0u8; 32];
    let iv = [0u8; 12];
    assert_eq!(encrypt_with_iv(&key, &iv, ""), "AAAAAAAAAAAAAAAA.Uw+K+8dFNrmpY7TxxMtziw==.");
    let zeros = "\0".repeat(16);
    assert_eq!(
        encrypt_with_iv(&key, &iv, &zeros),
        "AAAAAAAAAAAAAAAA.0NHIp5mZa/AmW5i11Iq5GQ==.zqdAPU1ga24HTsXTuvOdGA=="
    );
    assert_eq!(decrypt(&key, "AAAAAAAAAAAAAAAA.0NHIp5mZa/AmW5i11Iq5GQ==.zqdAPU1ga24HTsXTuvOdGA=="), Ok(zeros));
}

#[test]
fn encrypt_then_decrypt_gives_the_text_back() {
    let key = [7u8; 32];
    for plain in ["", "hunter2", "päss wörd ✓", "{\"a\":\"b\"}"] {
        let payload = encrypt(&key, plain);
        assert_eq!(payload.split('.').count(), 3);
        assert_eq!(decrypt(&key, &payload), Ok(plain.to_string()));
    }
    let a = encrypt(&key, "same");
    let b = encrypt(&key, "same");
    assert_ne!(a, b);
}

#[test]
fn decrypt_errors() {
    let key = [7u8; 32];
    assert_eq!(decrypt(&key, "abc"), Err(s("Malformed ciphertext")));
    assert_eq!(decrypt(&key, "a.b.c.d"), Err(s("Malformed ciphertext")));
    assert_eq!(decrypt(&key, "!!!!.AAAA.AAAA"), Err(s("Invalid symbol 33, offset 0.")));
    let payload = encrypt(&key, "secret");
    assert_eq!(decrypt(&[8u8; 32], &payload), Err(s("decrypt failed")));
    assert!(try_decrypt(&key, "AAAA.AAAA.AAAA").is_none());
    assert_eq!(try_decrypt(&key, &payload), Some(Ok(s("secret"))));
    assert_eq!(try_decrypt(&key, "x"), Some(Err(s("Malformed ciphertext"))));
}

#[test]
fn key_from_secret_stored_or_fresh() {
    let fresh = [9u8; 32];
    let c = resolve_key(Some("abc"), Some(&"11".repeat(32)), &fresh);
    assert_eq!(hex_encode(&c.key), "ba7816bf8f01cfea414140de5dae2223b00361a396177a9cb410ff61f20015ad");
    assert_eq!(c.store, None);
    let c = resolve_key(Some("abc"), Some("aéb"), &fresh);
    assert_eq!(hex_encode(&c.key), "ba7816bf8f01cfea414140de5dae2223b00361a396177a9cb410ff61f20015ad");
    let c = resolve_key(None, Some("abc"), &fresh);
    assert_eq!(c.store, Some("09".repeat(32)));
    let stored = "ab".repeat(32);
    let c = resolve_key(Some(""), Some(&stored), &fresh);
    assert_eq!(c.key, vec![0xab; 32]);
    assert_eq!(c.store, None);
    let c = resolve_key(None, Some("abcd"), &fresh);
    assert_eq!(c.key, fresh.to_vec());
    assert_eq!(c.store, Some("09".repeat(32)));
    let c = resolve_key(None, Some("not hex!"), &fresh);
    assert_eq!(c.key, fresh.to_vec());
    let c = resolve_key(None, None, &fresh);
    assert_eq!(c.store.as_deref(), Some(hex_encode(&fresh).as_str()));
}

#[test]
fn random_keys_are_stored() {
    let a = choose_key(None, None);
    let b = choose_key(None, None);
    assert_eq!(a.key.len(), 32);
    assert_eq!(a.store, Some(hex_encode(&a.key)));
    assert_ne!(a.key, b.key);
}

fn row(username: Option<&str>, cookies: Option<&str>) -> AccountRow {
    AccountRow {
        username: username.map(s),
        email: Some(s("me@example.com")),
        avatar_url: None,
        pmv_user_id: None,
        enc_email: None,
        enc_password: None,
        cookies: cookies.map(s),
    }
}

#[test]
fn account_user_needs_cookies_and_name() {
    assert!(get_account_user(&None).is_none());
    assert!(get_account_user(&Some(row(Some("me"), None))).is_none());
    assert!(get_account_user(&Some(row(None, Some("blob")))).is_none());
    let u = get_account_user(&Some(row(Some("me"), Some("blob")))).unwrap();
    assert_eq!(u.username, "me");
    assert_eq!(u.id, "");
    assert_eq!(u.email.as_deref(), Some("me@example.com"));
    assert!(is_connected(&Some(row(None, Some("blob")))));
    assert!(!is_connected(&Some(row(Some("me"), None))));
    assert!(!is_connected(&None));
}

#[test]
fn set_cookie_lines() {
    assert_eq!(
        parse_auth_cookie("__Secure-better-auth.session_token=abc.def; Path=/; HttpOnly"),
        Some(pair("__Secure-better-auth.session_token", "abc.def"))
    );
    assert_eq!(parse_auth_cookie(" better-auth.x = 1 ;"), Some(pair("better-auth.x", "1")));
    assert_eq!(parse_auth_cookie("theme=dark; Path=/"), None);
    assert_eq!(parse_auth_cookie("better-auth.flag"), None);
    let lines = vec![
        s("theme=dark"),
        s("better-auth.a=1; Secure"),
        s("__Secure-better-auth.b=2"),
        s("better-auth.a=3"),
    ];
    let got = extract_auth_cookies(&lines);
    let mut sorted = got.clone();
    sorted.sort();
    assert_eq!(sorted, vec![pair("__Secure-better-auth.b", "2"), pair("better-auth.a", "3")]);
}

#[test]
fn cookie_lists() {
    let v = cookie_insert(vec![pair("a", "1"), pair("b", "2")], s("a"), s("9"));
    let mut sorted = v.clone();
    sorted.sort();
    assert_eq!(sorted, vec![pair("a", "9"), pair("b", "2")]);
    assert_eq!(cookie_header(&vec![]), None);
    assert_eq!(cookie_header(&vec![pair("a", "1"), pair("b", "2")]).as_deref(), Some("a=1; b=2"));
    let merged = merge_cookies(Some("a=1; b=2; junk"), &vec![pair("b", "3"), pair("c", "4")]);
    let mut m = merged.clone();
    m.sort();
    assert_eq!(m, vec![pair("a", "1"), pair("b", "3"), pair("c", "4")]);
    let fresh_only = merge_cookies(None, &vec![pair("x", "1")]);
    assert_eq!(fresh_only, vec![pair("x", "1")]);
}

#[test]
fn stored_cookie_headers() {
    assert_eq!(stored_cookie_header("not json"), None);
    assert_eq!(stored_cookie_header("{}"), None);
    assert_eq!(stored_cookie_header("{\"a\":\"1\"}").as_deref(), Some("a=1"));
    let two = stored_cookie_header("{\"a\":\"1\",\"b\":\"2\"}").unwrap();
    assert!(two == "a=1; b=2" || two == "b=2; a=1");
}

#[test]
fn cookie_blob_decrypts_to_json() {
    let key = [3u8; 32];
    assert_eq!(try_cookie_blob(&key, &vec![]), Some(None));
    let blob = try_cookie_blob(&key, &vec![pair("b", "2"), pair("a", "1")]).unwrap().unwrap();
    assert_eq!(decrypt(&key, &blob), Ok(s("{\"a\":\"1\",\"b\":\"2\"}")));
}

#[test]
fn stored_cookies_read_back() {
    let key = [3u8; 32];
    let blob = try_cookie_blob(&key, &vec![pair("a", "1"), pair("b", "2")]).unwrap().unwrap();
    let h = stored_header_from_blob(&key, &blob).unwrap().unwrap();
    assert!(h == "a=1; b=2" || h == "b=2; a=1");
    assert_eq!(stored_header_from_blob(&[4u8; 32], &blob), Some(None));
    assert_eq!(stored_header_from_blob(&key, "AAAA.AAAA.AAAA"), None);
    assert_eq!(stored_header_from_blob(&key, &encrypt(&key, "{}")), Some(None));
    assert_eq!(stored_header_from_blob(&key, &encrypt(&key, "[1]")), Some(None));
}

#[test]
fn hex_encode_decodes_back() {
    let all: Vec<u8> = (0..=255u8).collect();
    for b in [vec![], vec![0u8], vec![9, 10, 250], all] {
        let h = hex_encode(&b);
        assert_eq!(h.len(), 2 * b.len());
        assert!(h.chars().all(|c| c.is_ascii_digit() || ('a'..='f').contains(&c)));
        assert!(check_hex_cuttable(&h));
        assert_eq!(hex_decode(&h), Ok(b));
    }
    assert_eq!(hex_decode("a"), Err(()));
    assert_eq!(hex_decode("é"), Err(()));
}
