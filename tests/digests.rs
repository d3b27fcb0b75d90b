use lavalamp_auth::{audit_line, credential_digest, identity_digest, image_key, image_url};

const SHA256_ABC: &str = "ba7816bf8f01cfea414140de5dae2223b00361a396177a9cb410ff61f20015ad";
const SHA256_EMPTY: &str = "e3b0c44298fc1c149afbf4c8996fb92427ae41e4649b934ca495991b7852b855";

#[test]
fn identity_digest_is_hex_sha256() {
    assert_eq!(identity_digest("abc"), SHA256_ABC);
}

#[test]
fn identity_digest_trims_surrounding_whitespace() {
    assert_eq!(identity_digest("  abc\n"), SHA256_ABC);
    assert_eq!(identity_digest("\tabc \r\n"), identity_digest("abc"));
}

#[test]
fn identity_digest_of_blank_name() {
    assert_eq!(identity_digest(" \n"), SHA256_EMPTY);
}

#[test]
fn identity_digest_keeps_inner_whitespace() {
    assert_ne!(identity_digest("a bc"), identity_digest("abc"));
}

#[test]
fn image_key_is_raw_sha256() {
    let key = image_key(b"abc");
    assert_eq!(key.len(), 32);
    assert_eq!(hex::encode(&key), SHA256_ABC);
    assert_eq!(image_key(b"").len(), 32);
    assert_eq!(hex::encode(image_key(b"")), SHA256_EMPTY);
}

#[test]
fn credential_digest_hashes_key_then_password() {
    assert_eq!(credential_digest(b"ab", "c"), SHA256_ABC);
    assert_eq!(credential_digest(b"", "abc"), SHA256_ABC);
    assert_eq!(credential_digest(b"abc", ""), SHA256_ABC);
    assert_eq!(credential_digest(b"", ""), SHA256_EMPTY);
}

#[test]
fn credential_digest_does_not_trim_password() {
    assert_ne!(credential_digest(b"k", "pw "), credential_digest(b"k", "pw"));
}

#[test]
fn credential_digest_depends_on_key() {
    let k1 = image_key(b"first image");
    let k2 = image_key(b"second image");
    assert_ne!(credential_digest(&k1, "pw"), credential_digest(&k2, "pw"));
}

#[test]
fn audit_line_format() {
    assert_eq!(audit_line(1700000000, "id-1", &[0, 1, 2]), "1700000000 - ID id-1 - AAEC");
    assert_eq!(audit_line(42, "x", b"abc"), "42 - ID x - YWJj");
}

#[test]
fn audit_line_pads_base64_and_zero_time() {
    assert_eq!(audit_line(0, "r", &[255]), "0 - ID r - /w==");
    assert_eq!(audit_line(7, "r", &[]), "7 - ID r - ");
}

#[test]
fn audit_line_largest_timestamp() {
    assert_eq!(
        audit_line(u64::MAX, "r", &[251, 255]),
        "18446744073709551615 - ID r - +/8="
    );
}

#[test]
fn digests_are_64_hex_characters() {
    for d in [identity_digest("alice"), credential_digest(b"key", "pw1"), identity_digest("")] {
        assert_eq!(d.len(), 64);
        assert!(d.chars().all(|c| c.is_ascii_digit() || ('a'..='f').contains(&c)));
    }
}

#[test]
fn image_url_names_the_resource() {
    assert_eq!(
        image_url("67e55044-10b1-426f-9247-bb680e5fe0c8"),
        "https://picsum.photos/id/67e55044-10b1-426f-9247-bb680e5fe0c8/200"
    );
}
