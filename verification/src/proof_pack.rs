//! Per-record proof verification: canonicalisation, afterHash, key lookup
//! and the Ed25519 signature.

use vstd::prelude::*;
use vstd::utf8::encode_utf8;
use crate::canonical_json::{
    base64url_bytes, base64url_decode, canonicalise_proof_payload,
    canonicalise_proof_signing_input, proof_payload_canonical, proof_signing_input,
    trim_trailing_padding,
};
use crate::hashing::{constant_time_hex_equal, sha256_hex, sha256_hex_of};
use crate::keys::{lookup_result, KeyDirectory, KeyLookupResult, KeyMissReason};
use crate::signature::{ed25519_accepts, ed25519_key_valid, ed25519_point_valid, ed25519_verify};
use crate::text::{debug_quote, debug_quoted, decimal, indexed, own, truncate_256, usize_to_decimal, utf8_prefix};
use crate::types::{
    detail2, detail_pair, invalid_step, invalid_sv, push_step, steps_view, valid_step, valid_sv,
    AuditReasonCode, AuditStep, AuditStepKind, AuditStepStatus, DetailValue, DetailView, ProofRecord, StepView,
    VerificationKey,
};

verus! {

/// `record[<i>]<suffix>`.
pub open spec fn record_target(i: nat, suffix: Seq<char>) -> Seq<char> {
    "record["@ + decimal(i) + suffix
}

pub open spec fn canonical_step(record: ProofRecord, i: nat) -> StepView {
    let local = proof_payload_canonical(record.payload);
    if local != record.payload_canonical@ {
        invalid_sv(
            record_target(i, "].payloadCanonical"@),
            AuditStepKind::Canonicalisation,
            AuditReasonCode::PayloadCanonicalMismatch,
            "canonical payload bytes do not match — encoder version skew or tampering"@,
            detail2(
                "expected"@,
                DetailView::Text(utf8_prefix(record.payload_canonical@, 256)),
                "actual"@,
                DetailView::Text(utf8_prefix(local, 256)),
            ),
        )
    } else {
        valid_sv(
            record_target(i, "].payloadCanonical"@),
            AuditStepKind::Canonicalisation,
            "canonical payload bytes match"@,
        )
    }
}

pub open spec fn after_hash_step(record: ProofRecord, i: nat) -> StepView {
    let expected = sha256_hex_of(proof_payload_canonical(record.payload));
    if expected != record.after_hash@ {
        invalid_sv(
            record_target(i, "].afterHash"@),
            AuditStepKind::Canonicalisation,
            AuditReasonCode::AfterHashMismatch,
            "record afterHash does not equal sha256(payloadCanonical)"@,
            detail2("expected"@, DetailView::Text(expected), "actual"@, DetailView::Text(record.after_hash@)),
        )
    } else {
        valid_sv(
            record_target(i, "].afterHash"@),
            AuditStepKind::Canonicalisation,
            "afterHash equals sha256(payloadCanonical)"@,
        )
    }
}

/// The afterHash step of a record: VALID exactly when the record's
/// `afterHash` is the SHA-256 hex of its canonical payload, otherwise
/// INVALID with `AfterHashMismatch`.
pub proof fn lemma_after_hash_step(record: ProofRecord, i: nat)
    ensures
        after_hash_step(record, i).target == record_target(i, "].afterHash"@),
        after_hash_step(record, i).status == AuditStepStatus::Valid <==> record.after_hash@
            == sha256_hex_of(proof_payload_canonical(record.payload)),
        after_hash_step(record, i).status != AuditStepStatus::Valid ==> after_hash_step(record, i).status
            == AuditStepStatus::Invalid && after_hash_step(record, i).reason == Some(
            AuditReasonCode::AfterHashMismatch,
        ),
{
}

/// The audit reason for a key-lookup miss.
pub open spec fn miss_code(reason: KeyMissReason) -> AuditReasonCode {
    match reason {
        KeyMissReason::UnknownKeyId => AuditReasonCode::UnknownKeyId,
        KeyMissReason::OutsideValidityWindow => AuditReasonCode::KeyOutsideValidityWindow,
        KeyMissReason::RevokedBeforeIssuance => AuditReasonCode::KeyRevokedBeforeIssuance,
    }
}

/// The message for a key-lookup miss on a receipt.
pub open spec fn miss_message(reason: KeyMissReason, key_id: Seq<char>) -> Seq<char> {
    match reason {
        KeyMissReason::UnknownKeyId => "keyId "@ + debug_quoted(key_id)
            + " is not in the verification key directory"@,
        KeyMissReason::OutsideValidityWindow => "keyId "@ + debug_quoted(key_id)
            + " is outside its declared validity window for the record's issuedAt"@,
        KeyMissReason::RevokedBeforeIssuance => "keyId "@ + debug_quoted(key_id)
            + " was revoked before the record's issuedAt — the record cannot be trusted"@,
    }
}

pub open spec fn malformed_signature_sv(i: nat, message: Seq<char>) -> StepView {
    invalid_sv(
        record_target(i, "].signature"@),
        AuditStepKind::Signature,
        AuditReasonCode::SignatureMalformed,
        message,
        None,
    )
}

/// The signature step of a receipt whose key resolved.
pub open spec fn signature_step(record: ProofRecord, i: nat, key: VerificationKey) -> StepView {
    match base64url_bytes(trim_trailing_padding(record.signature@)) {
        None => malformed_signature_sv(i, "signature base64url decoding failed"@),
        Some(sig) => match base64url_bytes(trim_trailing_padding(key.public_key@)) {
            None => malformed_signature_sv(i, "public key base64url decoding failed"@),
            Some(pk) => if sig.len() != 64 || pk.len() != 32 {
                malformed_signature_sv(
                    i,
                    "expected 64-byte signature / 32-byte public key, got "@ + decimal(sig.len())
                        + " / "@ + decimal(pk.len()),
                )
            } else if !ed25519_point_valid(pk) {
                malformed_signature_sv(i, "public key was not a valid Ed25519 point"@)
            } else if ed25519_accepts(
                pk,
                encode_utf8(proof_signing_input(record.payload, record.key_id@)),
                sig,
            ) {
                valid_sv(
                    record_target(i, "].signature"@),
                    AuditStepKind::Signature,
                    "Ed25519 signature verifies against the declared key"@,
                )
            } else {
                invalid_sv(
                    record_target(i, "].signature"@),
                    AuditStepKind::Signature,
                    AuditReasonCode::SignatureInvalid,
                    "Ed25519 signature did NOT verify — record has been tampered with"@,
                    None,
                )
            },
        },
    }
}

/// Every step of one receipt's verification, in order: canonicalisation
/// parity, afterHash parity, key lookup, then (when the key resolves) the
/// signature.
pub open spec fn proof_record_steps(record: ProofRecord, i: nat, keys: Seq<VerificationKey>) -> Seq<StepView> {
    seq![canonical_step(record, i), after_hash_step(record, i)] + match lookup_result(
        keys,
        record.key_id@,
        record.payload.issued_at@,
    ) {
        KeyLookupResult::Miss(reason) => seq![
            invalid_sv(
                record_target(i, "].keyId"@),
                AuditStepKind::KeyLookup,
                miss_code(reason),
                miss_message(reason, record.key_id@),
                detail2(
                    "keyId"@,
                    DetailView::Text(record.key_id@),
                    "issuedAt"@,
                    DetailView::Text(record.payload.issued_at@),
                ),
            ),
        ],
        KeyLookupResult::Hit(key) => seq![
            valid_sv(
                record_target(i, "].keyId"@),
                AuditStepKind::KeyLookup,
                "key "@ + debug_quoted(record.key_id@) + " resolved and valid for issuedAt"@,
            ),
            signature_step(record, i, key),
        ],
    }
}

fn miss_step(reason: KeyMissReason, record: &ProofRecord, record_index: usize) -> (r: AuditStep)
    ensures
        crate::types::step_view(r) == invalid_sv(
            record_target(record_index as nat, "].keyId"@),
            AuditStepKind::KeyLookup,
            miss_code(reason),
            miss_message(reason, record.key_id@),
            detail2(
                "keyId"@,
                DetailView::Text(record.key_id@),
                "issuedAt"@,
                DetailView::Text(record.payload.issued_at@),
            ),
        ),
{
    let q = debug_quote(record.key_id.as_str());
    let mut message = own("keyId ");
    message.append(q.as_str());
    let code = match reason {
        KeyMissReason::UnknownKeyId => {
            message.append(" is not in the verification key directory");
            AuditReasonCode::UnknownKeyId
        },
        KeyMissReason::OutsideValidityWindow => {
            message.append(" is outside its declared validity window for the record's issuedAt");
            AuditReasonCode::KeyOutsideValidityWindow
        },
        KeyMissReason::RevokedBeforeIssuance => {
            message.append(" was revoked before the record's issuedAt — the record cannot be trusted");
            AuditReasonCode::KeyRevokedBeforeIssuance
        },
    };
    invalid_step(
        indexed("record[", record_index, "].keyId"),
        AuditStepKind::KeyLookup,
        code,
        message,
        detail_pair(
            "keyId",
            DetailValue::Text(record.key_id.clone()),
            "issuedAt",
            DetailValue::Text(record.payload.issued_at.clone()),
        ),
    )
}

fn malformed(record_index: usize, message: String) -> (r: AuditStep)
    ensures
        crate::types::step_view(r) == malformed_signature_sv(record_index as nat, message@),
{
    invalid_step(
        indexed("record[", record_index, "].signature"),
        AuditStepKind::Signature,
        AuditReasonCode::SignatureMalformed,
        message,
        None,
    )
}

fn signature_check(record: &ProofRecord, record_index: usize, key: &VerificationKey) -> (r: AuditStep)
    ensures
        crate::types::step_view(r) == signature_step(*record, record_index as nat, *key),
{
    let signature_bytes = match base64url_decode(record.signature.as_str()) {
        Ok(b) => b,
        Err(_) => {
            return malformed(record_index, own("signature base64url decoding failed"));
        },
    };
    let public_bytes = match base64url_decode(key.public_key.as_str()) {
        Ok(b) => b,
        Err(_) => {
            return malformed(record_index, own("public key base64url decoding failed"));
        },
    };
    if signature_bytes.len() != 64 || public_bytes.len() != 32 {
        let mut message = own("expected 64-byte signature / 32-byte public key, got ");
        let a = usize_to_decimal(signature_bytes.len());
        message.append(a.as_str());
        message.append(" / ");
        let b = usize_to_decimal(public_bytes.len());
        message.append(b.as_str());
        return malformed(record_index, message);
    }
    let signing_input = canonicalise_proof_signing_input(&record.payload, record.key_id.as_str());
    if !ed25519_key_valid(public_bytes.as_slice()) {
        return malformed(record_index, own("public key was not a valid Ed25519 point"));
    }
    if ed25519_verify(public_bytes.as_slice(), signing_input.as_str().as_bytes(), signature_bytes.as_slice()) {
        valid_step(
            indexed("record[", record_index, "].signature"),
            AuditStepKind::Signature,
            own("Ed25519 signature verifies against the declared key"),
        )
    } else {
        invalid_step(
            indexed("record[", record_index, "].signature"),
            AuditStepKind::Signature,
            AuditReasonCode::SignatureInvalid,
            own("Ed25519 signature did NOT verify — record has been tampered with"),
            None,
        )
    }
}

/// Verify a single proof record. The steps, in order: canonicalisation
/// parity, afterHash parity, key lookup, Ed25519 signature.
pub fn verify_proof_record(record: &ProofRecord, record_index: usize, keys: &KeyDirectory) -> (r: Vec<
    AuditStep,
>)
    ensures
        steps_view(r@) == proof_record_steps(*record, record_index as nat, keys.keys()),
{
    let mut steps: Vec<AuditStep> = Vec::new();
    let local_canonical = canonicalise_proof_payload(&record.payload);
    if local_canonical != record.payload_canonical {
        push_step(
            &mut steps,
            invalid_step(
                indexed("record[", record_index, "].payloadCanonical"),
                AuditStepKind::Canonicalisation,
                AuditReasonCode::PayloadCanonicalMismatch,
                own("canonical payload bytes do not match — encoder version skew or tampering"),
                detail_pair(
                    "expected",
                    DetailValue::Text(truncate_256(record.payload_canonical.as_str())),
                    "actual",
                    DetailValue::Text(truncate_256(local_canonical.as_str())),
                ),
            ),
        );
    } else {
        push_step(
            &mut steps,
            valid_step(
                indexed("record[", record_index, "].payloadCanonical"),
                AuditStepKind::Canonicalisation,
                own("canonical payload bytes match"),
            ),
        );
    }
    let expected_after_hash = sha256_hex(local_canonical.as_str());
    if !constant_time_hex_equal(expected_after_hash.as_str(), record.after_hash.as_str()) {
        push_step(
            &mut steps,
            invalid_step(
                indexed("record[", record_index, "].afterHash"),
                AuditStepKind::Canonicalisation,
                AuditReasonCode::AfterHashMismatch,
                own("record afterHash does not equal sha256(payloadCanonical)"),
                detail_pair(
                    "expected",
                    DetailValue::Text(expected_after_hash),
                    "actual",
                    DetailValue::Text(record.after_hash.clone()),
                ),
            ),
        );
    } else {
        push_step(
            &mut steps,
            valid_step(
                indexed("record[", record_index, "].afterHash"),
                AuditStepKind::Canonicalisation,
                own("afterHash equals sha256(payloadCanonical)"),
            ),
        );
    }
    let key = match keys.lookup(record.key_id.as_str(), record.payload.issued_at.as_str()) {
        KeyLookupResult::Hit(k) => k,
        KeyLookupResult::Miss(reason) => {
            push_step(&mut steps, miss_step(reason, record, record_index));
            assert(steps_view(steps@) =~= proof_record_steps(*record, record_index as nat, keys.keys()));
            return steps;
        },
    };
    let mut message = own("key ");
    let q = debug_quote(record.key_id.as_str());
    message.append(q.as_str());
    message.append(" resolved and valid for issuedAt");
    push_step(
        &mut steps,
        valid_step(indexed("record[", record_index, "].keyId"), AuditStepKind::KeyLookup, message),
    );
    push_step(&mut steps, signature_check(record, record_index, &key));
    assert(steps_view(steps@) =~= proof_record_steps(*record, record_index as nat, keys.keys()));
    steps
}

} // verus!
