//! Signed-export verification (`export.v1`).
//!
//! An export carries a summary `payload`, its canonical sort-key JSON
//! (`payload_canonical`), the bare sha256 hex of those bytes and a
//! base64url Ed25519 signature over `"{payload_canonical}|{key_id}"`. The
//! envelope metadata outside `payload` (`kind`, `org_id`, `exported_at`)
//! is not covered by the signature.

use vstd::prelude::*;
use vstd::utf8::encode_utf8;
use crate::canonical_json::sort_keys::canonical_text;
use crate::canonical_json::{
    base64url_decode_strict, canonical_sort_keys, strict_base64url_bytes, JsonValue,
};
use crate::clock::now_rfc3339;
use crate::hashing::{sha256_hex, sha256_hex_of};
use crate::keys::{lookup_result, KeyDirectory, KeyLookupResult, KeyMissReason};
use crate::proof_pack::miss_code;
use crate::provenance::miss_reason_text;
use crate::signature::{ed25519_accepts_strict, ed25519_verify_strict};
use crate::text::{debug_quote, debug_quoted, own, str_eq};
use crate::types::{
    any_invalid, detail2, detail_pair, has_invalid, invalid_or_valid, invalid_step, invalid_sv,
    lemma_any_invalid_concat, lemma_any_invalid_single, push_step, steps_view, valid_step,
    valid_sv, AuditReasonCode, AuditStep, AuditStepKind, AuditStepStatus, DetailValue,
    DetailView, StepView, VerificationKey, ED25519, SDK_VERSION,
};

verus! {

/// A signed export envelope.
#[derive(Debug)]
pub struct SignedExport {
    /// `metering.export.v1`, `settlement.export.v1`, ...
    pub kind: String,
    /// This verifier supports `export.v1`.
    pub envelope_version: String,
    pub org_id: String,
    /// ISO-8601; the instant the signing key's validity is checked at.
    pub exported_at: String,
    pub key_id: String,
    pub algorithm: String,
    /// The summary as issued.
    pub payload: JsonValue,
    /// The exact bytes that were hashed and signed.
    pub payload_canonical: String,
    /// sha256 hex of `payload_canonical`.
    pub payload_canonical_hash: String,
    /// base64url Ed25519 signature over `"{payload_canonical}|{key_id}"`.
    pub signature: String,
}

#[derive(Clone, Debug)]
pub struct SignedExportAuditReport {
    pub status: AuditStepStatus,
    /// The envelope `kind` as declared (unsigned metadata).
    pub kind: String,
    pub org_id: String,
    pub key_id: String,
    pub exported_at: String,
    /// When the audit ran.
    pub verified_at: String,
    pub sdk_version: String,
    pub steps: Vec<AuditStep>,
}

// ---------------------------------------------------------------------
// The steps
// ---------------------------------------------------------------------

pub open spec fn envelope_version_sv(exp: SignedExport) -> StepView {
    if exp.envelope_version@ != "export.v1"@ {
        invalid_sv(
            "export.envelopeVersion"@,
            AuditStepKind::Envelope,
            AuditReasonCode::UnsupportedEnvelopeVersion,
            "unsupported export envelope version "@ + debug_quoted(exp.envelope_version@)
                + " (verifier supports \"export.v1\")"@,
            None,
        )
    } else {
        valid_sv("export.envelopeVersion"@, AuditStepKind::Envelope, "envelope version export.v1"@)
    }
}

pub open spec fn algorithm_sv(exp: SignedExport) -> StepView {
    if exp.algorithm@ != ED25519@ {
        invalid_sv(
            "export.algorithm"@,
            AuditStepKind::Envelope,
            AuditReasonCode::UnsupportedAlgorithm,
            "unsupported signature algorithm "@ + debug_quoted(exp.algorithm@),
            None,
        )
    } else {
        valid_sv("export.algorithm"@, AuditStepKind::Envelope, "algorithm ed25519"@)
    }
}

pub open spec fn export_miss_sv(exp: SignedExport, reason: KeyMissReason) -> StepView {
    invalid_sv(
        "export.keyId"@,
        AuditStepKind::KeyLookup,
        miss_code(reason),
        "signing key "@ + debug_quoted(exp.key_id@) + " not usable at "@ + exp.exported_at@ + ": "@
            + miss_reason_text(reason),
        None,
    )
}

pub open spec fn export_hit_sv(exp: SignedExport) -> StepView {
    valid_sv(
        "export.keyId"@,
        AuditStepKind::KeyLookup,
        "key "@ + debug_quoted(exp.key_id@) + " resolved and inside its validity window"@,
    )
}

/// The bytes the export's signature covers.
pub open spec fn export_signed_bytes(exp: SignedExport) -> Seq<u8> {
    encode_utf8(exp.payload_canonical@ + "|"@ + exp.key_id@)
}

/// Whether signature and public key decode, have Ed25519 lengths and
/// the signature verifies strictly over the signed bytes.
pub open spec fn export_signature_verifies(exp: SignedExport, key: VerificationKey) -> bool {
    match (strict_base64url_bytes(key.public_key@), strict_base64url_bytes(exp.signature@)) {
        (Some(pk), Some(sig)) => pk.len() == 32 && sig.len() == 64 && ed25519_accepts_strict(
            pk,
            export_signed_bytes(exp),
            sig,
        ),
        _ => false,
    }
}

pub open spec fn export_signature_sv(exp: SignedExport, key: VerificationKey) -> StepView {
    if strict_base64url_bytes(key.public_key@) is None || strict_base64url_bytes(exp.signature@) is None {
        invalid_sv(
            "export.signature"@,
            AuditStepKind::Signature,
            AuditReasonCode::SignatureMalformed,
            "signature or public key is not valid base64url"@,
            None,
        )
    } else if export_signature_verifies(exp, key) {
        valid_sv(
            "export.signature"@,
            AuditStepKind::Signature,
            "Ed25519 signature verifies under the directory key"@,
        )
    } else {
        invalid_sv(
            "export.signature"@,
            AuditStepKind::Signature,
            AuditReasonCode::SignatureInvalid,
            "Ed25519 signature does not verify — the export is not authentic"@,
            None,
        )
    }
}

pub open spec fn canonical_mismatch_sv() -> StepView {
    invalid_sv(
        "export.payloadCanonical"@,
        AuditStepKind::Canonicalisation,
        AuditReasonCode::PayloadCanonicalMismatch,
        "re-canonicalising the payload does not reproduce payloadCanonical — the payload was modified after signing"@,
        None,
    )
}

pub open spec fn canonical_match_sv() -> StepView {
    valid_sv(
        "export.payloadCanonical"@,
        AuditStepKind::Canonicalisation,
        "payload re-canonicalises byte-for-byte"@,
    )
}

pub open spec fn hash_mismatch_sv(exp: SignedExport) -> StepView {
    invalid_sv(
        "export.payloadCanonicalHash"@,
        AuditStepKind::Canonicalisation,
        AuditReasonCode::ExportPayloadHashMismatch,
        "sha256(payloadCanonical) does not equal payloadCanonicalHash"@,
        detail2(
            "expected"@,
            DetailView::Text(sha256_hex_of(canonical_text(exp.payload))),
            "actual"@,
            DetailView::Text(exp.payload_canonical_hash@),
        ),
    )
}

pub open spec fn hash_match_sv() -> StepView {
    valid_sv("export.payloadCanonicalHash"@, AuditStepKind::Canonicalisation, "payload hash matches"@)
}

/// The steps after the key resolved: canonical parity, hash parity, the
/// signature; the walk stops at the first failure.
pub open spec fn export_content_steps(exp: SignedExport, key: VerificationKey) -> Seq<StepView> {
    let rebuilt = canonical_text(exp.payload);
    if rebuilt != exp.payload_canonical@ {
        seq![canonical_mismatch_sv()]
    } else if sha256_hex_of(rebuilt) != exp.payload_canonical_hash@ {
        seq![canonical_match_sv(), hash_mismatch_sv(exp)]
    } else {
        seq![canonical_match_sv(), hash_match_sv(), export_signature_sv(exp, key)]
    }
}

/// Every step of a signed-export audit, in order.
pub open spec fn export_steps(exp: SignedExport, keys: Seq<VerificationKey>) -> Seq<StepView> {
    seq![envelope_version_sv(exp), algorithm_sv(exp)] + match lookup_result(
        keys,
        exp.key_id@,
        exp.exported_at@,
    ) {
        KeyLookupResult::Miss(reason) => seq![export_miss_sv(exp, reason)],
        KeyLookupResult::Hit(key) => seq![export_hit_sv(exp)] + export_content_steps(exp, key),
    }
}

/// An export is authentic when its envelope is `export.v1`/`ed25519`, its
/// key resolves at `exported_at`, the payload re-canonicalises to the
/// shipped bytes, their hash is the shipped hash and the signature over
/// `"{payload_canonical}|{key_id}"` verifies under the directory key.
pub open spec fn export_authentic(exp: SignedExport, keys: Seq<VerificationKey>) -> bool {
    &&& exp.envelope_version@ == "export.v1"@
    &&& exp.algorithm@ == ED25519@
    &&& lookup_result(keys, exp.key_id@, exp.exported_at@) matches KeyLookupResult::Hit(key)
        && canonical_text(exp.payload) == exp.payload_canonical@
        && sha256_hex_of(exp.payload_canonical@) == exp.payload_canonical_hash@
        && export_signature_verifies(exp, key)
}

// ---------------------------------------------------------------------
// Verification
// ---------------------------------------------------------------------

/// Ed25519 strict verification that answers `false` for wrong lengths and
/// for public keys that are not curve points.
fn verify_strict_any_length(public_key: &[u8], message: &[u8], signature: &[u8]) -> (r: bool)
    ensures
        r == (public_key@.len() == 32 && signature@.len() == 64 && ed25519_accepts_strict(
            public_key@,
            message@,
            signature@,
        )),
{
    if public_key.len() != 32 || signature.len() != 64 {
        return false;
    }
    ed25519_verify_strict(public_key, message, signature)
}

fn malformed_signature_step() -> (r: AuditStep)
    ensures
        crate::types::step_view(r) == invalid_sv(
            "export.signature"@,
            AuditStepKind::Signature,
            AuditReasonCode::SignatureMalformed,
            "signature or public key is not valid base64url"@,
            None,
        ),
{
    invalid_step(
        own("export.signature"),
        AuditStepKind::Signature,
        AuditReasonCode::SignatureMalformed,
        own("signature or public key is not valid base64url"),
        None,
    )
}

fn finish(exp: &SignedExport, steps: Vec<AuditStep>) -> (r: SignedExportAuditReport)
    ensures
        r.status == invalid_or_valid(steps_view(steps@)),
        r.steps@ == steps@,
        r.kind@ == exp.kind@,
        r.org_id@ == exp.org_id@,
        r.key_id@ == exp.key_id@,
        r.exported_at@ == exp.exported_at@,
        r.sdk_version@ == SDK_VERSION@,
{
    let status = if has_invalid(&steps) {
        AuditStepStatus::Invalid
    } else {
        AuditStepStatus::Valid
    };
    SignedExportAuditReport {
        status,
        kind: exp.kind.clone(),
        org_id: exp.org_id.clone(),
        key_id: exp.key_id.clone(),
        exported_at: exp.exported_at.clone(),
        verified_at: now_rfc3339(),
        sdk_version: own(SDK_VERSION),
        steps,
    }
}

fn export_miss(exp: &SignedExport, reason: KeyMissReason) -> (r: AuditStep)
    ensures
        crate::types::step_view(r) == export_miss_sv(*exp, reason),
{
    let mut message = own("signing key ");
    let q = debug_quote(exp.key_id.as_str());
    message.append(q.as_str());
    message.append(" not usable at ");
    message.append(exp.exported_at.as_str());
    message.append(": ");
    let code = match reason {
        KeyMissReason::UnknownKeyId => {
            message.append("UNKNOWN_KEY_ID");
            AuditReasonCode::UnknownKeyId
        },
        KeyMissReason::OutsideValidityWindow => {
            message.append("KEY_OUTSIDE_VALIDITY_WINDOW");
            AuditReasonCode::KeyOutsideValidityWindow
        },
        KeyMissReason::RevokedBeforeIssuance => {
            message.append("KEY_REVOKED_BEFORE_ISSUANCE");
            AuditReasonCode::KeyRevokedBeforeIssuance
        },
    };
    invalid_step(own("export.keyId"), AuditStepKind::KeyLookup, code, message, None)
}

fn export_content_check(exp: &SignedExport, key: &VerificationKey) -> (r: Vec<AuditStep>)
    ensures
        steps_view(r@) == export_content_steps(*exp, *key),
{
    let mut steps: Vec<AuditStep> = Vec::new();
    let rebuilt = canonical_sort_keys(&exp.payload);
    if !str_eq(rebuilt.as_str(), exp.payload_canonical.as_str()) {
        push_step(
            &mut steps,
            invalid_step(
                own("export.payloadCanonical"),
                AuditStepKind::Canonicalisation,
                AuditReasonCode::PayloadCanonicalMismatch,
                own(
                    "re-canonicalising the payload does not reproduce payloadCanonical — the payload was modified after signing",
                ),
                None,
            ),
        );
        assert(steps_view(steps@) =~= export_content_steps(*exp, *key));
        return steps;
    }
    push_step(
        &mut steps,
        valid_step(
            own("export.payloadCanonical"),
            AuditStepKind::Canonicalisation,
            own("payload re-canonicalises byte-for-byte"),
        ),
    );
    let hash = sha256_hex(rebuilt.as_str());
    if !str_eq(hash.as_str(), exp.payload_canonical_hash.as_str()) {
        push_step(
            &mut steps,
            invalid_step(
                own("export.payloadCanonicalHash"),
                AuditStepKind::Canonicalisation,
                AuditReasonCode::ExportPayloadHashMismatch,
                own("sha256(payloadCanonical) does not equal payloadCanonicalHash"),
                detail_pair(
                    "expected",
                    DetailValue::Text(hash),
                    "actual",
                    DetailValue::Text(exp.payload_canonical_hash.clone()),
                ),
            ),
        );
        assert(steps_view(steps@) =~= export_content_steps(*exp, *key));
        return steps;
    }
    push_step(
        &mut steps,
        valid_step(
            own("export.payloadCanonicalHash"),
            AuditStepKind::Canonicalisation,
            own("payload hash matches"),
        ),
    );
    let public_key_bytes = match base64url_decode_strict(key.public_key.as_str()) {
        Ok(b) => b,
        Err(_) => {
            push_step(&mut steps, malformed_signature_step());
            assert(steps_view(steps@) =~= export_content_steps(*exp, *key));
            return steps;
        },
    };
    let signature_bytes = match base64url_decode_strict(exp.signature.as_str()) {
        Ok(b) => b,
        Err(_) => {
            push_step(&mut steps, malformed_signature_step());
            assert(steps_view(steps@) =~= export_content_steps(*exp, *key));
            return steps;
        },
    };
    let mut message = exp.payload_canonical.clone();
    message.append("|");
    message.append(exp.key_id.as_str());
    if verify_strict_any_length(
        public_key_bytes.as_slice(),
        message.as_str().as_bytes(),
        signature_bytes.as_slice(),
    ) {
        push_step(
            &mut steps,
            valid_step(
                own("export.signature"),
                AuditStepKind::Signature,
                own("Ed25519 signature verifies under the directory key"),
            ),
        );
    } else {
        push_step(
            &mut steps,
            invalid_step(
                own("export.signature"),
                AuditStepKind::Signature,
                AuditReasonCode::SignatureInvalid,
                own("Ed25519 signature does not verify — the export is not authentic"),
                None,
            ),
        );
    }
    assert(steps_view(steps@) =~= export_content_steps(*exp, *key));
    steps
}

/// Verify a signed export offline against a key directory.
///
/// Steps: the envelope version (`export.v1`) and algorithm (`ed25519`);
/// the key lookup at `exported_at` (a miss ends the walk); the payload's
/// canonical sort-key JSON against `payload_canonical`, then its sha256
/// against `payload_canonical_hash` (a mismatch ends the walk); the strict
/// Ed25519 signature over `"{payload_canonical}|{key_id}"`. The report is
/// INVALID when any step is, VALID otherwise.
pub fn verify_signed_export(exp: &SignedExport, keys: &KeyDirectory) -> (r: SignedExportAuditReport)
    ensures
        steps_view(r.steps@) == export_steps(*exp, keys.keys()),
        r.status == invalid_or_valid(export_steps(*exp, keys.keys())),
        r.status == AuditStepStatus::Valid <==> export_authentic(*exp, keys.keys()),
        r.kind@ == exp.kind@,
        r.org_id@ == exp.org_id@,
        r.key_id@ == exp.key_id@,
        r.exported_at@ == exp.exported_at@,
        r.sdk_version@ == SDK_VERSION@,
{
    let mut steps: Vec<AuditStep> = Vec::new();
    if !str_eq(exp.envelope_version.as_str(), "export.v1") {
        let mut message = own("unsupported export envelope version ");
        let q = debug_quote(exp.envelope_version.as_str());
        message.append(q.as_str());
        message.append(" (verifier supports \"export.v1\")");
        push_step(
            &mut steps,
            invalid_step(
                own("export.envelopeVersion"),
                AuditStepKind::Envelope,
                AuditReasonCode::UnsupportedEnvelopeVersion,
                message,
                None,
            ),
        );
    } else {
        push_step(
            &mut steps,
            valid_step(
                own("export.envelopeVersion"),
                AuditStepKind::Envelope,
                own("envelope version export.v1"),
            ),
        );
    }
    if !str_eq(exp.algorithm.as_str(), ED25519) {
        let mut message = own("unsupported signature algorithm ");
        let q = debug_quote(exp.algorithm.as_str());
        message.append(q.as_str());
        push_step(
            &mut steps,
            invalid_step(
                own("export.algorithm"),
                AuditStepKind::Envelope,
                AuditReasonCode::UnsupportedAlgorithm,
                message,
                None,
            ),
        );
    } else {
        push_step(
            &mut steps,
            valid_step(own("export.algorithm"), AuditStepKind::Envelope, own("algorithm ed25519")),
        );
    }
    let ghost head = steps_view(steps@);
    proof {
        lemma_export_verdict(*exp, keys.keys());
    }
    let key = match keys.lookup(exp.key_id.as_str(), exp.exported_at.as_str()) {
        KeyLookupResult::Hit(k) => k,
        KeyLookupResult::Miss(reason) => {
            push_step(&mut steps, export_miss(exp, reason));
            assert(steps_view(steps@) =~= export_steps(*exp, keys.keys()));
            return finish(exp, steps);
        },
    };
    let mut message = own("key ");
    let q = debug_quote(exp.key_id.as_str());
    message.append(q.as_str());
    message.append(" resolved and inside its validity window");
    push_step(&mut steps, valid_step(own("export.keyId"), AuditStepKind::KeyLookup, message));
    let more = export_content_check(exp, &key);
    crate::types::append_steps(&mut steps, more);
    assert(steps_view(steps@) =~= export_steps(*exp, keys.keys()));
    finish(exp, steps)
}

// ---------------------------------------------------------------------
// Laws
// ---------------------------------------------------------------------

proof fn lemma_export_verdict(exp: SignedExport, keys: Seq<VerificationKey>)
    ensures
        !any_invalid(export_steps(exp, keys)) <==> export_authentic(exp, keys),
{
    let head = seq![envelope_version_sv(exp), algorithm_sv(exp)];
    lemma_any_invalid_single(envelope_version_sv(exp));
    lemma_any_invalid_single(algorithm_sv(exp));
    lemma_any_invalid_concat(seq![envelope_version_sv(exp)], seq![algorithm_sv(exp)]);
    assert(head =~= seq![envelope_version_sv(exp)] + seq![algorithm_sv(exp)]);
    match lookup_result(keys, exp.key_id@, exp.exported_at@) {
        KeyLookupResult::Miss(reason) => {
            lemma_any_invalid_single(export_miss_sv(exp, reason));
            lemma_any_invalid_concat(head, seq![export_miss_sv(exp, reason)]);
        },
        KeyLookupResult::Hit(key) => {
            let tail = export_content_steps(exp, key);
            lemma_any_invalid_single(export_hit_sv(exp));
            lemma_any_invalid_concat(seq![export_hit_sv(exp)], tail);
            lemma_any_invalid_concat(head, seq![export_hit_sv(exp)] + tail);
            lemma_any_invalid_single(canonical_mismatch_sv());
            lemma_any_invalid_single(canonical_match_sv());
            lemma_any_invalid_single(hash_mismatch_sv(exp));
            lemma_any_invalid_single(hash_match_sv());
            lemma_any_invalid_single(export_signature_sv(exp, key));
            let a = seq![canonical_match_sv()];
            let b = seq![hash_mismatch_sv(exp)];
            let c = seq![hash_match_sv()];
            let d = seq![export_signature_sv(exp, key)];
            lemma_any_invalid_concat(a, b);
            assert(a + b =~= seq![canonical_match_sv(), hash_mismatch_sv(exp)]);
            lemma_any_invalid_concat(a, c);
            lemma_any_invalid_concat(a + c, d);
            assert(a + c + d =~= seq![canonical_match_sv(), hash_match_sv(), export_signature_sv(exp, key)]);
        },
    }
}

/// The audit's verdict does not depend on the envelope metadata the
/// signature does not cover: `kind` and `org_id` can be anything.
pub proof fn lemma_unsigned_metadata_irrelevant(
    exp: SignedExport,
    kind: String,
    org_id: String,
    keys: Seq<VerificationKey>,
)
    ensures
        export_steps(SignedExport { kind, org_id, ..exp }, keys) == export_steps(exp, keys),
        export_authentic(SignedExport { kind, org_id, ..exp }, keys) == export_authentic(exp, keys),
{
}

} // verus!
