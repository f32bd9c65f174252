//! Concrete instances of the library's laws, edge cases and the outside
//! primitives it calls (sha256, base64url, Ed25519, RFC 3339 parsing).

use ed25519_dalek::{Signer, SigningKey};
use enfinitos_auditor::canonical_json::{
    base64url_decode, base64url_decode_strict, base64url_encode, canonical_sort_keys, json_quote,
    sha256_prefixed, JsonMember, JsonValue,
};
use enfinitos_auditor::decimal::{format_scaled_decimal, parse_decimal_to_scaled};
use enfinitos_auditor::hashing::hex::encode;
use enfinitos_auditor::hashing::{
    constant_time_equal, constant_time_hex_equal, meter_idem_key, settlement_idem_key,
    settlement_idem_key_v1, sha256_hex, sha256_hex_prefixed,
};
use enfinitos_auditor::keys::{KeyLookupResult, KeyMissReason};
use enfinitos_auditor::text::truncate_256;
use enfinitos_auditor::text_map::TextMap;
use enfinitos_auditor::{
    canonicalise_provenance_signing_input, canonicalise_tenant_chain_link, genesis_chain_tip,
    verify_provenance_chain, verify_signed_export, verify_tenant_chain, AuditBundle,
    AuditReasonCode, AuditStepStatus, Auditor, AuditorError, AuditorErrorCode, KeyDirectory,
    ProvenanceRecord, ProvenanceSigningFields, SignedExport, SignedProofPack,
    TenantChainedRecord, VerificationKey, VerifyProvenanceChainOptions, SDK_VERSION,
};
use rand_core::OsRng;

fn pinned_key(key_id: &str, signing_key: &SigningKey) -> VerificationKey {
    VerificationKey {
        key_id: key_id.to_string(),
        algorithm: "ed25519".to_string(),
        public_key: base64url_encode(signing_key.verifying_key().as_bytes()),
        not_before: "2020-01-01T00:00:00.000Z".to_string(),
        not_after: None,
        revoked_at: None,
        purpose: None,
    }
}

fn text(s: &str) -> JsonValue {
    JsonValue::Str(s.to_string())
}

fn member(key: &str, value: JsonValue) -> JsonMember {
    JsonMember { key: key.to_string(), value }
}

// ---------------------------------------------------------------------
// Outside primitives
// ---------------------------------------------------------------------

#[test]
fn sha256_hex_of_abc_is_the_standard_digest() {
    assert_eq!(
        sha256_hex("abc"),
        "ba7816bf8f01cfea414140de5dae2223b00361a396177a9cb410ff61f20015ad"
    );
    assert_eq!(
        sha256_hex_prefixed("abc"),
        "sha256:ba7816bf8f01cfea414140de5dae2223b00361a396177a9cb410ff61f20015ad"
    );
    assert_eq!(sha256_prefixed("abc"), sha256_hex_prefixed("abc"));
}

#[test]
fn idem_keys_hash_their_pipe_joined_fields() {
    assert_eq!(
        meter_idem_key("rcpt_1", "DWELL_SECONDS"),
        "ed9a4d990435640f3a3073acf34f94387291250713ccf344d85c8c1ac97b1217"
    );
    assert_eq!(
        settlement_idem_key("m1", "TENANT", "SPATIAL_REVENUE_GROSS"),
        "439996544dc1cb5c8e0c0f1d55c5436ba95ab8a0ac26b4c29cf32c48ae148da7"
    );
    assert_eq!(
        settlement_idem_key_v1("m1", "TENANT"),
        "222e68d980b0dd3b80854cbfc941d04716584f82879818b4d047d8d2c2dd7320"
    );
}

#[test]
fn hex_encoding_is_lowercase_two_digits_per_byte() {
    assert_eq!(encode(&[0x00, 0xab, 0x0f, 0xff]), "00ab0fff");
    assert_eq!(encode(&[]), "");
}

#[test]
fn constant_time_comparisons_are_plain_equality() {
    assert!(constant_time_equal(b"abc", b"abc"));
    assert!(!constant_time_equal(b"abc", b"abd"));
    assert!(!constant_time_equal(b"abc", b"ab"));
    assert!(constant_time_hex_equal("00ff", "00ff"));
    assert!(!constant_time_hex_equal("00ff", "00fe"));
}

#[test]
fn base64url_round_trips_and_the_strict_decoder_refuses_each_defect() {
    assert_eq!(base64url_encode(&[0xfb, 0xff]), "-_8");
    assert_eq!(base64url_decode_strict("-_8").unwrap(), vec![0xfb, 0xff]);
    assert_eq!(base64url_decode("-_8=").unwrap(), vec![0xfb, 0xff]);
    assert_eq!(
        base64url_decode_strict("-_8=").unwrap_err(),
        "base64url_decode_strict: padding ('=') not allowed; use unpadded base64url"
    );
    assert_eq!(
        base64url_decode_strict("ab cd").unwrap_err(),
        "base64url_decode_strict: whitespace not allowed in base64url"
    );
    assert_eq!(
        base64url_decode_strict("ab+/").unwrap_err(),
        "base64url_decode_strict: invalid base64url character"
    );
    assert_eq!(
        base64url_decode_strict("abcde").unwrap_err(),
        "base64url_decode_strict: invalid length (mod 4 == 1)"
    );
    assert_eq!(
        base64url_decode_strict("ab").unwrap_err(),
        "base64url_decode_strict: decode failed: Invalid last symbol 98, offset 1."
    );
}

#[test]
fn key_validity_window_is_checked_on_parsed_instants() {
    let signing_key = SigningKey::generate(&mut OsRng);
    let mut key = pinned_key("k1", &signing_key);
    key.not_before = "2026-01-01T00:00:00.000Z".to_string();
    key.not_after = Some("2026-12-31T00:00:00+00:00".to_string());
    let directory = KeyDirectory::from_local(vec![key]).unwrap();
    assert!(matches!(
        directory.lookup("k1", "2026-06-01T00:00:00.000Z"),
        KeyLookupResult::Hit(_)
    ));
    assert!(matches!(
        directory.lookup("k1", "2025-12-31T23:59:59.999Z"),
        KeyLookupResult::Miss(KeyMissReason::OutsideValidityWindow)
    ));
    assert!(matches!(
        directory.lookup("k1", "2027-01-01T00:00:00.000Z"),
        KeyLookupResult::Miss(KeyMissReason::OutsideValidityWindow)
    ));
    assert!(matches!(
        directory.lookup("nope", "2026-06-01T00:00:00.000Z"),
        KeyLookupResult::Miss(KeyMissReason::UnknownKeyId)
    ));
}

#[test]
fn ed25519_signature_over_the_wrong_bytes_does_not_verify() {
    let signing_key = SigningKey::generate(&mut OsRng);
    let key = pinned_key("k_exp", &signing_key);
    let directory = KeyDirectory::from_local(vec![key]).unwrap();
    let payload = JsonValue::Object(vec![member("a", text("x"))]);
    let canonical = canonical_sort_keys(&payload);
    let signature = signing_key.sign(format!("{}|{}", canonical, "k_exp").as_bytes());
    let exp = SignedExport {
        kind: "metering.export.v1".to_string(),
        envelope_version: "export.v1".to_string(),
        org_id: "org".to_string(),
        exported_at: "2026-07-01T00:00:00.000Z".to_string(),
        key_id: "k_exp".to_string(),
        algorithm: "ed25519".to_string(),
        payload,
        payload_canonical: canonical.clone(),
        payload_canonical_hash: sha256_hex(&canonical),
        signature: base64url_encode(&signature.to_bytes()),
    };
    assert_eq!(verify_signed_export(&exp, &directory).status, AuditStepStatus::Valid);
    let wrong = signing_key.sign(b"something else");
    let forged = SignedExport {
        signature: base64url_encode(&wrong.to_bytes()),
        payload: JsonValue::Object(vec![member("a", text("x"))]),
        ..exp
    };
    let report = verify_signed_export(&forged, &directory);
    assert_eq!(report.status, AuditStepStatus::Invalid);
    assert_eq!(report.steps.last().unwrap().reason, Some(AuditReasonCode::SignatureInvalid));
    assert!(!report.verified_at.is_empty());
    assert_eq!(report.sdk_version, SDK_VERSION);
}

// ---------------------------------------------------------------------
// Canonical sort-key JSON
// ---------------------------------------------------------------------

#[test]
fn canonical_json_sorts_keys_recursively_and_keeps_array_order() {
    let value = JsonValue::Object(vec![
        member("b", JsonValue::Number("1".to_string())),
        member(
            "a",
            JsonValue::Array(vec![
                JsonValue::Bool(true),
                JsonValue::Null,
                JsonValue::Object(vec![member("z", text("q")), member("y", JsonValue::Bool(false))]),
            ]),
        ),
    ]);
    assert_eq!(
        canonical_sort_keys(&value),
        r#"{"a":[true,null,{"y":false,"z":"q"}],"b":1}"#
    );
}

#[test]
fn canonical_json_member_order_does_not_matter() {
    let one = JsonValue::Object(vec![member("x", text("1")), member("w", text("2"))]);
    let two = JsonValue::Object(vec![member("w", text("2")), member("x", text("1"))]);
    assert_eq!(canonical_sort_keys(&one), canonical_sort_keys(&two));
}

#[test]
fn canonical_json_later_duplicate_key_wins() {
    let value = JsonValue::Object(vec![member("k", text("first")), member("k", text("second"))]);
    assert_eq!(canonical_sort_keys(&value), r#"{"k":"second"}"#);
}

#[test]
fn canonical_json_escapes_strings_like_serde_json() {
    assert_eq!(json_quote("a\"b\\c\n\u{1}é"), "\"a\\\"b\\\\c\\n\\u0001é\"");
    assert_eq!(canonical_sort_keys(&JsonValue::Object(vec![])), "{}");
    assert_eq!(canonical_sort_keys(&JsonValue::Array(vec![])), "[]");
}

// ---------------------------------------------------------------------
// Decimals
// ---------------------------------------------------------------------

#[test]
fn scaled_decimals_render_and_parse_back() {
    assert_eq!(format_scaled_decimal(6_500_000, 6), "6.500000");
    assert_eq!(format_scaled_decimal(-1_234_567, 6), "-1.234567");
    assert_eq!(format_scaled_decimal(5, 6), "0.000005");
    assert_eq!(format_scaled_decimal(42, 0), "42.");
    for n in [0i128, 1, -1, 999_999, 1_000_000, -7_000_700, i128::MAX, i128::MIN + 1] {
        let text = format_scaled_decimal(n, 6);
        assert_eq!(parse_decimal_to_scaled(&text, 6), Ok(n));
    }
}

#[test]
fn scaled_decimal_round_trip_fails_only_for_the_most_negative_value() {
    let text = format_scaled_decimal(i128::MIN, 6);
    assert_eq!(parse_decimal_to_scaled(&text, 6), Err(()));
}

#[test]
fn decimal_parsing_edge_cases() {
    assert_eq!(parse_decimal_to_scaled(" 12.5 ", 6), Ok(12_500_000));
    assert_eq!(parse_decimal_to_scaled("+1", 6), Ok(1_000_000));
    assert_eq!(parse_decimal_to_scaled("1.23456789", 6), Ok(1_234_567));
    assert_eq!(parse_decimal_to_scaled(".5", 6), Err(()));
    assert_eq!(parse_decimal_to_scaled("1.2x", 6), Err(()));
    assert_eq!(parse_decimal_to_scaled("", 6), Err(()));
}

#[test]
fn truncation_cuts_at_256_bytes_on_a_character_boundary() {
    let long = "é".repeat(200);
    let cut = truncate_256(&long);
    assert_eq!(cut.len(), 256);
    assert_eq!(truncate_256("short"), "short");
    let odd = format!("a{}", "é".repeat(200));
    assert_eq!(truncate_256(&odd).len(), 255);
}

// ---------------------------------------------------------------------
// Provenance
// ---------------------------------------------------------------------

fn fields() -> ProvenanceSigningFields {
    ProvenanceSigningFields {
        org_id: "org_a".to_string(),
        event_type: "RIGHT_ISSUED".to_string(),
        right_id: None,
        basis_id: None,
        offer_id: None,
        before_hash: None,
        after_hash: None,
    }
}

#[test]
fn provenance_absent_and_empty_fields_sign_alike_in_every_position() {
    let base = canonicalise_provenance_signing_input(&fields(), "k");
    assert_eq!(base, "rightProvenance.v1|org_a|RIGHT_ISSUED|-|-|-|-|-|k");
    let mut f = fields();
    f.right_id = Some(String::new());
    f.basis_id = Some(String::new());
    f.offer_id = Some(String::new());
    f.before_hash = Some(String::new());
    f.after_hash = Some(String::new());
    assert_eq!(canonicalise_provenance_signing_input(&f, "k"), base);
    f.org_id = String::new();
    assert_eq!(
        canonicalise_provenance_signing_input(&f, ""),
        "rightProvenance.v1|-|RIGHT_ISSUED|-|-|-|-|-|-"
    );
}

fn legacy(org_id: &str) -> ProvenanceRecord {
    ProvenanceRecord {
        proof_id: "rp".to_string(),
        org_id: org_id.to_string(),
        provenance_event_type: "RIGHT_ISSUED".to_string(),
        occurred_at: "2026-03-01T12:00:00.000Z".to_string(),
        right_id: None,
        basis_id: None,
        offer_id: None,
        provenance_before_hash: None,
        provenance_after_hash: None,
        signature_algorithm: "hmac-sha256".to_string(),
        signature: "x".to_string(),
        signer_key_id: "ledger".to_string(),
        payload_canonical: None,
    }
}

#[test]
fn all_legacy_set_is_skipped_unless_an_org_is_spliced_in() {
    let directory = KeyDirectory::from_local(vec![]).unwrap();
    let records = vec![legacy("org_a"), legacy("org_a")];
    let options = VerifyProvenanceChainOptions { expected_org_id: Some("org_a".to_string()) };
    let report = verify_provenance_chain(&records, &directory, &options);
    assert_eq!(report.status, AuditStepStatus::Skipped);
    assert_eq!(report.signed_record_count + report.unsigned_record_count, report.record_count);
    let spliced = vec![legacy("org_a"), legacy("org_b")];
    let report = verify_provenance_chain(&spliced, &directory, &options);
    assert_eq!(report.status, AuditStepStatus::Invalid);
    assert_eq!(report.steps[1].target, "provenance[1].orgId");
    assert_eq!(
        report.steps[1].message,
        "record orgId 'org_b' does not match the expected orgId 'org_a' — record set spliced across tenants"
    );
}

#[test]
fn provenance_key_miss_names_the_key_and_the_reason() {
    let signing_key = SigningKey::generate(&mut OsRng);
    let mut f = fields();
    f.right_id = Some("r1".to_string());
    let canonical = canonicalise_provenance_signing_input(&f, "ghost");
    let record = ProvenanceRecord {
        proof_id: "rp".to_string(),
        org_id: f.org_id.clone(),
        provenance_event_type: f.event_type.clone(),
        occurred_at: "2026-03-01T12:00:00.000Z".to_string(),
        right_id: f.right_id.clone(),
        basis_id: None,
        offer_id: None,
        provenance_before_hash: None,
        provenance_after_hash: None,
        signature_algorithm: "ed25519".to_string(),
        signature: base64url_encode(&signing_key.sign(canonical.as_bytes()).to_bytes()),
        signer_key_id: "ghost".to_string(),
        payload_canonical: Some(canonical),
    };
    let directory = KeyDirectory::from_local(vec![pinned_key("other", &signing_key)]).unwrap();
    let steps = enfinitos_auditor::verify_provenance_record(&record, 3, &directory);
    assert_eq!(steps.len(), 2);
    assert_eq!(steps[0].status, AuditStepStatus::Valid);
    assert_eq!(steps[1].target, "provenance[3].signerKeyId");
    assert_eq!(steps[1].message, "provenance signing key 'ghost' rejected: UNKNOWN_KEY_ID");
}

// ---------------------------------------------------------------------
// Signed exports
// ---------------------------------------------------------------------

#[test]
fn export_verdict_ignores_the_unsigned_envelope_metadata() {
    let signing_key = SigningKey::generate(&mut OsRng);
    let directory = KeyDirectory::from_local(vec![pinned_key("k", &signing_key)]).unwrap();
    let build = |kind: &str, org: &str| {
        let payload = JsonValue::Object(vec![member("n", JsonValue::Number("7".to_string()))]);
        let canonical = canonical_sort_keys(&payload);
        SignedExport {
            kind: kind.to_string(),
            envelope_version: "export.v1".to_string(),
            org_id: org.to_string(),
            exported_at: "2026-07-01T00:00:00.000Z".to_string(),
            key_id: "k".to_string(),
            algorithm: "ed25519".to_string(),
            payload,
            payload_canonical_hash: sha256_hex(&canonical),
            signature: base64url_encode(
                &signing_key.sign(format!("{}|k", canonical).as_bytes()).to_bytes(),
            ),
            payload_canonical: canonical,
        }
    };
    let a = verify_signed_export(&build("metering.export.v1", "org_a"), &directory);
    let b = verify_signed_export(&build("anything", "org_b"), &directory);
    assert_eq!(a.status, AuditStepStatus::Valid);
    assert_eq!(b.status, AuditStepStatus::Valid);
    assert_eq!(b.kind, "anything");
    assert_eq!(b.org_id, "org_b");
    let mut unsupported = build("metering.export.v1", "org_a");
    unsupported.algorithm = "rsa".to_string();
    let report = verify_signed_export(&unsupported, &directory);
    assert_eq!(report.steps[1].reason, Some(AuditReasonCode::UnsupportedAlgorithm));
    assert_eq!(report.steps[1].message, "unsupported signature algorithm \"rsa\"");
}

#[test]
fn export_with_malformed_signature_is_reported_malformed() {
    let signing_key = SigningKey::generate(&mut OsRng);
    let directory = KeyDirectory::from_local(vec![pinned_key("k", &signing_key)]).unwrap();
    let payload = JsonValue::Null;
    let canonical = canonical_sort_keys(&payload);
    let exp = SignedExport {
        kind: "k".to_string(),
        envelope_version: "export.v1".to_string(),
        org_id: "o".to_string(),
        exported_at: "2026-07-01T00:00:00.000Z".to_string(),
        key_id: "k".to_string(),
        algorithm: "ed25519".to_string(),
        payload,
        payload_canonical_hash: sha256_hex(&canonical),
        payload_canonical: canonical,
        signature: "not base64".to_string(),
    };
    let report = verify_signed_export(&exp, &directory);
    assert_eq!(report.status, AuditStepStatus::Invalid);
    assert_eq!(report.steps.last().unwrap().reason, Some(AuditReasonCode::SignatureMalformed));
}

// ---------------------------------------------------------------------
// Keys and errors
// ---------------------------------------------------------------------

#[test]
fn key_directory_refuses_repeated_ids_and_foreign_algorithms() {
    let signing_key = SigningKey::generate(&mut OsRng);
    let k = pinned_key("dup", &signing_key);
    let err: AuditorError = KeyDirectory::from_local(vec![k.clone(), k.clone()]).unwrap_err();
    assert_eq!(err.code, AuditorErrorCode::KeysMalformed);
    assert_eq!(err.code.as_str(), "KEYS_MALFORMED");
    let mut rsa = pinned_key("rsa", &signing_key);
    rsa.algorithm = "rsa".to_string();
    let err = KeyDirectory::from_local(vec![rsa]).unwrap_err();
    assert_eq!(err.code, AuditorErrorCode::KeysMalformed);
}

#[test]
fn key_ids_come_out_sorted() {
    let a = SigningKey::generate(&mut OsRng);
    let directory = KeyDirectory::from_local(vec![
        pinned_key("zeta", &a),
        pinned_key("alpha", &a),
        pinned_key("mid", &a),
    ])
    .unwrap();
    assert_eq!(directory.key_ids(), vec!["alpha", "mid", "zeta"]);
    assert_eq!(directory.clone().key_ids(), directory.key_ids());
    assert_eq!(directory.size(), 3);
    assert_eq!(directory.snapshot().source, "local");
}

#[test]
fn error_constructors_carry_their_codes() {
    assert_eq!(AuditorError::invalid_input("x".to_string()).code, AuditorErrorCode::InvalidInput);
    assert_eq!(AuditorError::keys_unavailable("x".to_string()).code, AuditorErrorCode::KeysUnavailable);
    assert_eq!(
        AuditorError::platform_response("x".to_string()).code,
        AuditorErrorCode::PlatformResponse
    );
    assert_eq!(AuditorError::internal("x".to_string()).code, AuditorErrorCode::Internal);
    let e = AuditorError::internal("x".to_string()).with_reason(AuditReasonCode::MalformedPack);
    assert_eq!(e.reason, Some(AuditReasonCode::MalformedPack));
    assert_eq!(e.message, "x");
}

// ---------------------------------------------------------------------
// Tenant chain
// ---------------------------------------------------------------------

fn tenant_chain(org: &str, n: usize) -> Vec<TenantChainedRecord> {
    let mut prev = genesis_chain_tip(org);
    let mut out = Vec::new();
    for i in 0..n {
        let after = sha256_hex(&format!("row{i}"));
        let seq = (i + 1).to_string();
        let next = sha256_hex(&canonicalise_tenant_chain_link(Some(&prev), &after, &seq));
        out.push(TenantChainedRecord {
            row_after_hash: after,
            tenant_chain_prev: Some(prev.clone()),
            tenant_chain_next: next.clone(),
            tenant_chain_sequence: seq,
        });
        prev = next;
    }
    out
}

#[test]
fn tenant_chain_valid_when_intact_and_invalid_on_any_break() {
    assert_eq!(genesis_chain_tip("org_a"), "provenance.tenantChain.v1.org_a");
    assert_eq!(
        canonicalise_tenant_chain_link(None, "h", "1"),
        "tenantChain.v1|-|h|1"
    );
    let chain = tenant_chain("org_a", 3);
    let genesis = genesis_chain_tip("org_a");
    assert_eq!(verify_tenant_chain(&chain, &genesis).status, AuditStepStatus::Valid);
    let mut tampered = chain.clone();
    tampered[1].row_after_hash = "f".repeat(64);
    let report = verify_tenant_chain(&tampered, &genesis);
    assert_eq!(report.status, AuditStepStatus::Invalid);
    let mut skipped = chain.clone();
    skipped[2].tenant_chain_sequence = "4".to_string();
    assert_eq!(verify_tenant_chain(&skipped, &genesis).status, AuditStepStatus::Invalid);
    assert_eq!(verify_tenant_chain(&chain, "provenance.tenantChain.v1.org_b").status, AuditStepStatus::Invalid);
    assert_eq!(verify_tenant_chain(&[], &genesis).status, AuditStepStatus::Invalid);
}

// ---------------------------------------------------------------------
// The auditor
// ---------------------------------------------------------------------

#[test]
fn empty_pack_with_foreign_envelope_is_invalid_and_names_both_defects() {
    let auditor = Auditor::new(vec![]);
    let pack = SignedProofPack {
        envelope_version: "envelope.v9".to_string(),
        issued_at: "2026-04-01T12:00:00.000Z".to_string(),
        org_id: "org".to_string(),
        pack_id: "p".to_string(),
        label: None,
        records: vec![],
        metering: None,
        settlement: None,
    };
    let report = auditor.verify_proof_pack(&pack);
    assert_eq!(report.status, AuditStepStatus::Invalid);
    assert_eq!(report.steps[0].reason, Some(AuditReasonCode::EmptyPack));
    assert_eq!(report.steps[1].message, "envelopeVersion \"envelope.v9\" is not in [\"envelope.v1\"]");
    let full = auditor.verify_all(&AuditBundle {
        pack,
        metering: None,
        settlement: None,
        prior_after_hash: None,
    });
    assert_eq!(full.status, AuditStepStatus::Invalid);
    assert_eq!(full.metering.status, AuditStepStatus::Skipped);
    assert_eq!(full.settlement.status, AuditStepStatus::Skipped);
}

#[test]
fn lookup_bounds_are_inclusive_and_revocation_comes_after_the_window() {
    let signing_key = SigningKey::generate(&mut OsRng);
    let mut key = pinned_key("k", &signing_key);
    key.not_before = "2026-01-01T00:00:00.000Z".to_string();
    key.not_after = Some("2026-12-31T00:00:00.000Z".to_string());
    key.revoked_at = Some("2026-06-01T00:00:00.000Z".to_string());
    let directory = KeyDirectory::from_local(vec![key]).unwrap();
    assert!(matches!(directory.lookup("k", "2026-01-01T00:00:00.000Z"), KeyLookupResult::Hit(_)));
    assert!(matches!(directory.lookup("k", "2026-06-01T00:00:00.000Z"), KeyLookupResult::Hit(_)));
    assert!(matches!(
        directory.lookup("k", "2026-06-01T00:00:00.001Z"),
        KeyLookupResult::Miss(KeyMissReason::RevokedBeforeIssuance)
    ));
    assert!(matches!(
        directory.lookup("k", "2027-01-01T00:00:00.000Z"),
        KeyLookupResult::Miss(KeyMissReason::OutsideValidityWindow)
    ));
    assert!(matches!(
        directory.lookup("k", "not a time"),
        KeyLookupResult::Miss(KeyMissReason::OutsideValidityWindow)
    ));
}

#[test]
fn intact_tenant_chain_has_every_step_valid() {
    let chain = tenant_chain("org_a", 4);
    let report = verify_tenant_chain(&chain, &genesis_chain_tip("org_a"));
    assert_eq!(report.record_count, 4);
    assert!(report.steps.iter().all(|s| s.status == AuditStepStatus::Valid));
}

#[test]
fn text_map_keeps_keys_sorted_and_the_last_value_of_a_repeated_key() {
    let map = TextMap::from_pairs(vec![
        ("zeta".to_string(), 1i64),
        ("alpha".to_string(), 2i64),
        ("mid".to_string(), 3i64),
        ("alpha".to_string(), 4i64),
    ]);
    assert_eq!(map.len(), 3);
    let entries: Vec<(String, i64)> = map.entries().clone();
    assert_eq!(
        entries,
        vec![
            ("alpha".to_string(), 4i64),
            ("mid".to_string(), 3i64),
            ("zeta".to_string(), 1i64),
        ]
    );
    let mut grown = map.clone();
    grown.insert("beta".to_string(), 5);
    grown.insert("zeta".to_string(), 6);
    let keys: Vec<&str> = grown.entries().iter().map(|e| e.0.as_str()).collect();
    assert_eq!(keys, vec!["alpha", "beta", "mid", "zeta"]);
    assert_eq!(grown.entries()[3].1, 6);
    assert_eq!(TextMap::<i64>::new().len(), 0);
}

#[test]
fn a_built_directory_answers_unknown_ids_with_unknown_key_id() {
    let signing_key = SigningKey::generate(&mut OsRng);
    let directory =
        KeyDirectory::from_local(vec![pinned_key("present", &signing_key)]).expect("directory");
    directory.keys_acceptable_holds();
    match directory.lookup("absent", "2024-01-01T00:00:00.000Z") {
        KeyLookupResult::Miss(KeyMissReason::UnknownKeyId) => {}
        other => panic!("unexpected lookup result: {:?}", other),
    }
}
