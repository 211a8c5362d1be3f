use shorturl::codegen::{assign, encode_hash, hash_target, normalize, starts_with, MAX_CODE_LEN};
use std::collections::hash_map::DefaultHasher;
use std::hash::{Hash, Hasher};

fn std_hash(text: &str) -> u64 {
    let mut state = DefaultHasher::new();
    text.hash(&mut state);
    state.finish()
}

#[test]
fn starts_with_finds_a_prefix() {
    assert!(starts_with("http://example.com", "http://"));
    assert!(starts_with("http://", "http://"));
    assert!(starts_with("anything", ""));
    assert!(starts_with("", ""));
}

#[test]
fn starts_with_rejects_what_is_no_prefix() {
    assert!(!starts_with("https://example.com", "http://"));
    assert!(!starts_with("http:/", "http://"));
    assert!(!starts_with("", "http://"));
    assert!(!starts_with("example.com/http://", "http://"));
    assert!(!starts_with("HTTP://example.com", "http://"));
}

#[test]
fn starts_with_compares_characters_not_bytes() {
    assert!(starts_with("éa", "é"));
    assert!(!starts_with("éa", "e"));
    assert!(starts_with("日本語.jp", "日本"));
}

#[test]
fn normalize_strips_the_scheme() {
    assert_eq!(normalize("http://www.darkcoding.net"), "www.darkcoding.net");
    assert_eq!(normalize("http://example.com/a?b=c"), "example.com/a?b=c");
}

#[test]
fn normalize_keeps_a_url_without_scheme() {
    assert_eq!(normalize("www.darkcoding.net"), "www.darkcoding.net");
    assert_eq!(normalize("example.com"), "example.com");
}

#[test]
fn normalize_strips_only_one_scheme() {
    assert_eq!(normalize("http://http://example.com"), "http://example.com");
}

#[test]
fn normalize_leaves_other_schemes_alone() {
    assert_eq!(normalize("https://example.com"), "https://example.com");
    assert_eq!(normalize("ftp://example.com"), "ftp://example.com");
    assert_eq!(normalize("HTTP://example.com"), "HTTP://example.com");
}

#[test]
fn normalize_edge_cases() {
    assert_eq!(normalize(""), "");
    assert_eq!(normalize("http://"), "");
    assert_eq!(normalize("http:/"), "http:/");
    assert_eq!(normalize("http://é.example"), "é.example");
}

#[test]
fn hash_target_is_the_default_hasher() {
    for text in ["", "a", "example.com", "www.darkcoding.net", "日本語.jp/path"] {
        assert_eq!(hash_target(text), std_hash(text));
    }
}

#[test]
fn hash_target_known_values() {
    assert_eq!(hash_target(""), 3476900567878811119);
    assert_eq!(hash_target("a"), 8186225505942432243);
    assert_eq!(hash_target("example.com"), 5257664237369877164);
    assert_eq!(hash_target("www.darkcoding.net"), 17084713846445900360);
}

#[test]
fn hash_target_separates_different_texts() {
    assert_ne!(hash_target("example.com"), hash_target("example.org"));
    assert_ne!(hash_target("a"), hash_target("aa"));
}

#[test]
fn encode_hash_small_numbers() {
    assert_eq!(encode_hash(7), "H");
    assert_eq!(encode_hash(123), "B9");
    assert_eq!(encode_hash(1), "B");
    assert_eq!(encode_hash(25), "Z");
    assert_eq!(encode_hash(26), "a");
    assert_eq!(encode_hash(51), "z");
    assert_eq!(encode_hash(52), "0");
    assert_eq!(encode_hash(61), "9");
}

#[test]
fn encode_hash_of_zero_is_empty() {
    assert_eq!(encode_hash(0), "");
}

#[test]
fn encode_hash_carries_into_the_next_digit() {
    assert_eq!(encode_hash(62), "BA");
    assert_eq!(encode_hash(3843), "99");
    assert_eq!(encode_hash(3844), "BAA");
}

#[test]
fn encode_hash_of_the_largest_hash() {
    let code = encode_hash(u64::MAX);
    assert_eq!(code, "V8qRkBGKRiP");
    assert_eq!(code.chars().count(), MAX_CODE_LEN);
}

#[test]
fn encode_hash_agrees_with_the_encoder() {
    for number in [0u64, 1, 61, 62, 63, 1000, 123456789, u64::MAX - 1, u64::MAX] {
        assert_eq!(encode_hash(number), base62num::encode(number as usize));
    }
}

#[test]
fn encode_hash_can_be_decoded() {
    for number in [1u64, 61, 62, 4711, 5257664237369877164, u64::MAX] {
        assert_eq!(base62num::decode(&encode_hash(number)), Ok(number as usize));
    }
}

#[test]
fn assign_known_codes() {
    assert_eq!(assign("www.darkcoding.net"), "UWEKkEBVapK");
    assert_eq!(assign("example.com"), "GQYJxSsIgqA");
    assert_eq!(assign(""), "EI0O8RXzJhV");
    assert_eq!(assign("a"), "Jus98skbsP5");
}

#[test]
fn assign_is_hash_then_encode() {
    for text in ["", "a", "example.com", "www.darkcoding.net", "x/y?z=1&w=2"] {
        assert_eq!(assign(text), base62num::encode(std_hash(text) as usize));
        assert_eq!(assign(text), encode_hash(hash_target(text)));
    }
}

#[test]
fn assign_twice_gives_the_same_code() {
    for text in ["", "example.com", "www.darkcoding.net"] {
        assert_eq!(assign(text), assign(text));
    }
    let owned = String::from("example.com");
    assert_eq!(assign(&owned), assign("example.com"));
}

#[test]
fn assign_gives_short_alphanumeric_codes() {
    for text in ["", "a", "example.com", "www.darkcoding.net", "日本語.jp", "x y z", "a/b/c#d"] {
        let code = assign(text);
        assert!(code.chars().count() <= MAX_CODE_LEN);
        assert!(code.chars().all(|c| c.is_ascii_alphanumeric()));
    }
}

#[test]
fn assign_of_urls_with_the_same_normal_form_agree() {
    assert_eq!(assign(&normalize("http://example.com")), assign(&normalize("example.com")));
}
