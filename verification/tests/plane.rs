use gradient_codec::plane::{
    require_digest_hex, ActDigest, CapsuleDigest, ClosureCode, LeaseId, ManifestId, PolicyVersion,
    ReceiptId, SecurityEpoch, SuppressionSpec, Window,
};

#[test]
fn lease_id_is_not_receipt_id() {
    let lease = LeaseId::new(1);
    let receipt = ReceiptId::new(1);
    assert_eq!(lease.value, receipt.value);
    let _ = (lease, receipt);
}

#[test]
fn act_digest_accepts_sha256_hex() {
    let d = ActDigest::from_hex("a".repeat(64)).expect("hex ok");
    assert_eq!(d.as_hex().len(), 64);
}

#[test]
fn act_digest_rejects_short() {
    let err = ActDigest::from_hex("deadbeef".to_string()).expect_err("short");
    assert!(err.contains("expected 64"));
}

#[test]
fn capsule_digest_rejects_non_hex() {
    let err = CapsuleDigest::from_hex("g".repeat(64)).expect_err("non-hex");
    assert!(err.contains("hexadecimal"));
}

#[test]
fn act_and_capsule_digests_are_distinct_types() {
    let a = ActDigest::from_hex("b".repeat(64)).unwrap();
    let c = CapsuleDigest::from_hex("b".repeat(64)).unwrap();
    assert_eq!(a.as_hex(), c.as_hex());
    let _ = (a, c);
}

#[test]
fn window_and_suppression_construct() {
    let w = Window {
        start_micros: 0,
        len_secs: 86_400,
    };
    let s = SuppressionSpec::new("floor=100".to_string());
    assert_eq!(w.len_secs, 86_400);
    assert_eq!(s.value, "floor=100");
}

#[test]
fn closure_code_default_accepted() {
    assert_eq!(ClosureCode::default(), ClosureCode::Accepted);
}

#[test]
fn digest_errors_name_label_and_length() {
    let err = require_digest_hex("act_digest", "deadbeef").unwrap_err();
    assert_eq!(err, "act_digest: expected 64-char hex digest, got len 8");
    let err = require_digest_hex("capsule_digest", &"G".repeat(64)).unwrap_err();
    assert_eq!(err, "capsule_digest: digest must be hexadecimal");
    assert!(require_digest_hex("x", &"0123456789abcdefABCDEF".repeat(3)[..64]).is_ok());
}

#[test]
fn digest_length_counts_bytes_not_chars() {
    // 32 two-byte characters are 64 bytes: the length check passes, the hex check fails.
    let err = require_digest_hex("act_digest", &"é".repeat(32)).unwrap_err();
    assert_eq!(err, "act_digest: digest must be hexadecimal");
    // 64 two-byte characters are 128 bytes.
    let err = require_digest_hex("act_digest", &"é".repeat(64)).unwrap_err();
    assert_eq!(err, "act_digest: expected 64-char hex digest, got len 128");
}

#[test]
fn plain_ids_keep_their_value() {
    assert_eq!(PolicyVersion::new(7).value, 7);
    assert_eq!(SecurityEpoch::new(9).value, 9);
    assert_eq!(ManifestId::new(11).value, 11);
    let d = ActDigest::from_hex("C".repeat(64)).unwrap();
    assert_eq!(d.as_hex(), "C".repeat(64));
}
