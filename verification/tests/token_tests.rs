use openusage::token::{generate_token, remove_hyphens, token_from_uuid};

#[test]
fn token_is_32_hex_chars() {
    let token = generate_token();
    assert_eq!(token.len(), 32);
    assert!(token.chars().all(|c| c.is_ascii_hexdigit()));
}

#[test]
fn tokens_are_unique() {
    let a = generate_token();
    let b = generate_token();
    assert_ne!(a, b);
}

#[test]
fn token_is_lower_case() {
    let token = generate_token();
    assert!(token.chars().all(|c| c.is_ascii_digit() || ('a'..='f').contains(&c)));
}

#[test]
fn token_carries_version_four() {
    let token = generate_token();
    assert_eq!(&token[12..13], "4");
    assert!(matches!(&token[16..17], "8" | "9" | "a" | "b"));
}

#[test]
fn token_from_known_uuid() {
    let v: u128 = 0x67e5504410b1426f9247bb680e5fe0c8;
    assert_eq!(token_from_uuid(v), "67e5504410b1426f9247bb680e5fe0c8");
    assert_eq!(token_from_uuid(0), "00000000000000000000000000000000");
    assert_eq!(token_from_uuid(u128::MAX), "ffffffffffffffffffffffffffffffff");
}

#[test]
fn remove_hyphens_drops_every_hyphen() {
    assert_eq!(remove_hyphens("a-b--c-"), "abc");
    assert_eq!(remove_hyphens("none"), "none");
    assert_eq!(remove_hyphens(""), "");
    assert_eq!(remove_hyphens("é-ü"), "éü");
}

#[test]
fn distinct_values_give_distinct_tokens() {
    assert_ne!(token_from_uuid(1), token_from_uuid(2));
    assert_ne!(token_from_uuid(1 << 127), token_from_uuid(1));
    assert_ne!(token_from_uuid(0x10), token_from_uuid(0x01));
}
