//! Digests, identifiers and text.
use composefs_sync::digest::{
    sha256_content_digest, sha256_output_to_digest, InvalidDigest, ObjectId, OciDigest,
};
use composefs_sync::text;

#[test]
fn sha256_of_known_content() {
    assert_eq!(
        sha256_content_digest(b"abc").as_str(),
        "sha256:ba7816bf8f01cfea414140de5dae2223b00361a396177a9cb410ff61f20015ad"
    );
    assert_eq!(
        sha256_content_digest(b"").as_str(),
        "sha256:e3b0c44298fc1c149afbf4c8996fb92427ae41e4649b934ca495991b7852b855"
    );
    assert_eq!(sha256_content_digest(b"abc").algorithm(), "sha256");
    let zeros = sha256_output_to_digest(&vec![0; 32]);
    assert_eq!(zeros.as_str(), format!("sha256:{}", "0".repeat(64)));
}

#[test]
fn digests_are_parsed() {
    let good = [
        format!("sha256:{}", "a".repeat(64)),
        format!("sha384:{}", "0".repeat(96)),
        format!("sha512:{}", "f".repeat(128)),
        "multihash+base58:QmRZxt2b1FVZPNqd8hsiykDL3TdBDeTSPX9Kv46HmX4Gx8".to_string(),
    ];
    for text in good {
        let digest = OciDigest::parse(&text).unwrap();
        assert_eq!(digest.as_str(), text);
        assert_eq!(digest.algorithm(), text.split(':').next().unwrap());
        assert_eq!(digest.clone().as_str(), text);
    }
    let bad = [
        "".to_string(),
        "sha256".to_string(),
        "sha256:".to_string(),
        ":abc".to_string(),
        format!("sha256:{}", "a".repeat(63)),
        format!("sha256:{}", "A".repeat(64)),
        format!("sha256:{}", "g".repeat(64)),
        "SHA256:abc".to_string(),
        "sha256+:abc".to_string(),
    ];
    for text in bad {
        assert!(matches!(OciDigest::parse(&text), Err(InvalidDigest)), "{text}");
    }
}

#[test]
fn object_ids() {
    assert!(ObjectId::from_bytes(vec![]).is_none());
    let id = ObjectId::from_bytes(vec![0x0f, 0xf0, 0x12]).unwrap();
    assert_eq!(id.to_hex(), "0ff012");
    assert_eq!(id.to_object_pathname(), "0f/f012");
    assert_eq!(id.as_bytes(), &vec![0x0f, 0xf0, 0x12]);
    let other = ObjectId::from_bytes(vec![0x0f, 0xf0, 0x13]).unwrap();
    assert_ne!(id.to_object_pathname(), other.to_object_pathname());
    assert_eq!(
        ObjectId::from_bytes(vec![0xab]).unwrap().to_object_pathname(),
        "ab/"
    );
}

#[test]
fn text_helpers() {
    assert!(text::str_eq("ab", "ab"));
    assert!(!text::str_eq("ab", "abc"));
    assert_eq!(text::join2("ab", "c"), "abc");
    assert_eq!(text::strip_prefix("prefix-rest", "prefix-"), Some("rest"));
    assert_eq!(text::strip_prefix("pre", "prefix-"), None);
    assert_eq!(text::trim(" \t a b \u{3000}\n"), "a b");
    assert_eq!(text::trim("  "), "");
    assert_eq!(text::split("a,,b", ','), vec!["a", "", "b"]);
    assert_eq!(text::split("", ','), vec![""]);
    assert_eq!(text::join(&vec!["a".to_string(), "b".to_string()], "; "), "a; b");
    assert_eq!(text::join(&vec![], "; "), "");
    assert_eq!(text::hex(&vec![0, 255, 16]), "00ff10");
    assert_eq!(text::decimal(0), "0");
    assert_eq!(text::decimal(u64::MAX), "18446744073709551615");
    assert_eq!(text::octal(0o40755), "40755");
    assert_eq!(text::byte_list(&vec![]), "[]");
    assert_eq!(text::byte_list(&vec![1, 200]), "[1, 200]");
    for c in 0..=0x10ffffu32 {
        if let Some(c) = char::from_u32(c) {
            assert_eq!(text::white_space(c), c.is_whitespace(), "{c:?}");
        }
    }
}
