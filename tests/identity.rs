use identity_hash::{canonical_message, digest_hex, hash_identity};

fn fingerprint(email: &str, timestamp: u64) -> String {
    hash_identity(Some(email.as_bytes()), timestamp).expect("valid text gives a fingerprint")
}

#[test]
fn round_trip_recorded_vector() {
    assert_eq!(
        fingerprint("alice@example.com", 1700000000),
        "1f5497b936a07c41e14e1b97e16425fb2a2db5fdea3b658603738bca0852696f"
    );
    assert_eq!(
        fingerprint("alice@example.com", 1700000001),
        "7769d645058113085a2231a378e899fdcd4bd1529b764d6c0712d42d9de68921"
    );
}

#[test]
fn timestamp_change_changes_fingerprint() {
    assert_ne!(
        fingerprint("alice@example.com", 1700000000),
        fingerprint("alice@example.com", 1700000001)
    );
}

#[test]
fn matches_blake3_of_canonical_message() {
    let expected = blake3::hash(b"alice@example.com:1700000000").to_hex().to_string();
    assert_eq!(fingerprint("alice@example.com", 1700000000), expected);
    let empty = blake3::hash(b":0").to_hex().to_string();
    assert_eq!(fingerprint("", 0), empty);
}

#[test]
fn repeated_calls_are_identical() {
    for (email, ts) in [("alice@example.com", 1700000000u64), ("", 0), ("bob@x.org", u64::MAX)] {
        assert_eq!(fingerprint(email, ts), fingerprint(email, ts));
    }
}

#[test]
fn fingerprint_is_sixty_four_lowercase_hex() {
    for (email, ts) in [("alice@example.com", 1700000000u64), ("", 0), ("Z\u{e9}@x", 42)] {
        let f = fingerprint(email, ts);
        assert_eq!(f.len(), 64);
        assert!(f.chars().all(|c| matches!(c, '0'..='9' | 'a'..='f')));
    }
}

#[test]
fn distinct_inputs_do_not_collide() {
    let emails = ["alice@example.com", "Alice@example.com", "bob@example.com", "", "a:b", "a", "a:b:1"];
    let stamps = [0u64, 1, 9, 10, 1700000000, 1700000001, u64::MAX];
    let mut seen: Vec<String> = Vec::new();
    for e in emails {
        for t in stamps {
            let f = fingerprint(e, t);
            assert!(!seen.contains(&f), "collision for ({:?}, {})", e, t);
            seen.push(f);
        }
    }
    assert_eq!(seen.len(), emails.len() * stamps.len());
}

#[test]
fn absent_email_gives_none() {
    assert_eq!(hash_identity(None, 1700000000), None);
    assert_eq!(hash_identity(None, 0), None);
}

#[test]
fn invalid_text_gives_none() {
    let cases: [&[u8]; 5] = [
        &[0xff],
        &[b'a', 0xc3],
        &[0xc0, 0xaf],
        &[0xed, 0xa0, 0x80],
        &[0xf4, 0x90, 0x80, 0x80],
    ];
    for bytes in cases {
        assert_eq!(hash_identity(Some(bytes), 1), None, "{:?}", bytes);
    }
}

#[test]
fn non_ascii_text_is_accepted() {
    let email = "j\u{f6}rg@b\u{fc}ro.de";
    let expected = blake3::hash(format!("{}:7", email).as_bytes()).to_hex().to_string();
    assert_eq!(hash_identity(Some(email.as_bytes()), 7), Some(expected));
}

#[test]
fn canonical_message_layout() {
    assert_eq!(canonical_message(b"alice@example.com", 1700000000), b"alice@example.com:1700000000".to_vec());
    assert_eq!(canonical_message(b"", 0), b":0".to_vec());
    assert_eq!(canonical_message(b"x", 10), b"x:10".to_vec());
    assert_eq!(canonical_message(b"x", u64::MAX), b"x:18446744073709551615".to_vec());
}

#[test]
fn colon_in_email_does_not_alias() {
    assert_eq!(canonical_message(b"a:b", 1), b"a:b:1".to_vec());
    assert_ne!(canonical_message(b"a:1", 2), canonical_message(b"a", 12));
    assert_ne!(fingerprint("a:1", 2), fingerprint("a", 12));
    assert_ne!(fingerprint("a:b", 1), fingerprint("a", 1));
}

#[test]
fn digest_hex_exact() {
    assert_eq!(digest_hex(&[]), "");
    assert_eq!(digest_hex(&[0x00, 0xff, 0x0a, 0x9b]), "00ff0a9b");
    assert_eq!(digest_hex(&[0x12, 0x34, 0xcd]), "1234cd");
}
