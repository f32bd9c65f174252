//! Rights-provenance write-time signatures.
//!
//! Each ed25519 record is checked in four steps: the canonical signing
//! input rebuilt from the raw fields equals the shipped
//! `payloadCanonical`; the signer key resolves in the directory at
//! `occurredAt`; signature and public key decode as strict base64url to 64
//! and 32 bytes; and the Ed25519 signature verifies (strictly) over the
//! shipped canonical bytes. Legacy (non-ed25519) records carry nothing
//! write-signed and are reported as one informational SKIPPED step.

use vstd::prelude::*;
use vstd::utf8::encode_utf8;
use crate::canonical_json::{base64url_decode_strict, strict_base64url_bytes, strict_base64url_error};
use crate::clock::now_rfc3339_secs;
use crate::keys::{lookup_result, KeyDirectory, KeyLookupResult, KeyMissReason};
use crate::proof_pack::miss_code;
use crate::signature::{ed25519_accepts_strict, ed25519_key_valid, ed25519_point_valid, ed25519_verify_strict};
use crate::text::{decimal, indexed, opt_view, own, str_eq, truncate_256, usize_to_decimal, utf8_prefix};
use crate::types::{
    any_invalid, any_valid, append_steps, detail2, detail_pair, has_invalid, has_valid,
    invalid_step, invalid_sv, push_step, step_view, steps_view,
    valid_step, valid_sv, AuditReasonCode, AuditStep, AuditStepKind, AuditStepStatus, DetailValue,
    DetailView, ProvenanceAuditReport, ProvenanceRecord, StepView, VerificationKey, ED25519,
    SDK_VERSION,
};

verus! {

/// Version tag that opens every provenance signing input.
pub const PROVENANCE_SIGNING_VERSION: &'static str = "rightProvenance.v1";

/// The fields of a provenance record that the signing input covers.
#[derive(Clone, Debug)]
pub struct ProvenanceSigningFields {
    pub org_id: String,
    /// The platform's lifecycle event tag (e.g. `RIGHT_ISSUED`).
    pub event_type: String,
    pub right_id: Option<String>,
    pub basis_id: Option<String>,
    pub offer_id: Option<String>,
    pub before_hash: Option<String>,
    pub after_hash: Option<String>,
}

// ---------------------------------------------------------------------
// The signing input
// ---------------------------------------------------------------------

/// A present, non-empty field is itself; an empty one is `-`.
pub open spec fn text_or_dash(s: Seq<char>) -> Seq<char> {
    if s.len() == 0 {
        "-"@
    } else {
        s
    }
}

/// Absence and the empty string both encode as `-`.
pub open spec fn field_or_dash(o: Option<Seq<char>>) -> Seq<char> {
    match o {
        Some(s) => text_or_dash(s),
        None => "-"@,
    }
}

/// `rightProvenance.v1|org|event|right|basis|offer|before|after|keyId`,
/// each field as [`field_or_dash`] encodes it.
pub open spec fn signing_input_of(
    org_id: Seq<char>,
    event_type: Seq<char>,
    right_id: Option<Seq<char>>,
    basis_id: Option<Seq<char>>,
    offer_id: Option<Seq<char>>,
    before_hash: Option<Seq<char>>,
    after_hash: Option<Seq<char>>,
    key_id: Seq<char>,
) -> Seq<char> {
    PROVENANCE_SIGNING_VERSION@ + "|"@ + text_or_dash(org_id) + "|"@ + text_or_dash(event_type) + "|"@
        + field_or_dash(right_id) + "|"@ + field_or_dash(basis_id) + "|"@ + field_or_dash(offer_id)
        + "|"@ + field_or_dash(before_hash) + "|"@ + field_or_dash(after_hash) + "|"@
        + text_or_dash(key_id)
}

pub open spec fn provenance_signing_input(fields: ProvenanceSigningFields, key_id: Seq<char>) -> Seq<
    char,
> {
    signing_input_of(
        fields.org_id@,
        fields.event_type@,
        opt_view(fields.right_id),
        opt_view(fields.basis_id),
        opt_view(fields.offer_id),
        opt_view(fields.before_hash),
        opt_view(fields.after_hash),
        key_id,
    )
}

/// The signing input rebuilt from a record's own fields.
pub open spec fn record_signing_input(record: ProvenanceRecord) -> Seq<char> {
    signing_input_of(
        record.org_id@,
        record.provenance_event_type@,
        opt_view(record.right_id),
        opt_view(record.basis_id),
        opt_view(record.offer_id),
        opt_view(record.provenance_before_hash),
        opt_view(record.provenance_after_hash),
        record.signer_key_id@,
    )
}

fn push_text_or_dash(out: &mut String, s: &str)
    ensures
        final(out)@ == old(out)@ + text_or_dash(s@),
{
    if s.is_empty() {
        out.append("-");
        proof {
            reveal_strlit("-");
        }
    } else {
        out.append(s);
    }
}

fn push_field_or_dash(out: &mut String, o: &Option<String>)
    ensures
        final(out)@ == old(out)@ + field_or_dash(opt_view(*o)),
{
    match o {
        Some(s) => push_text_or_dash(out, s.as_str()),
        None => {
            out.append("-");
        },
    }
}

fn push_separator(out: &mut String)
    ensures
        final(out)@ == old(out)@ + "|"@,
{
    out.append("|");
}

/// The exact string the platform signs for a provenance record: the
/// version tag and the fields joined by `|`, absence and the empty string
/// both written as `-`.
pub fn canonicalise_provenance_signing_input(fields: &ProvenanceSigningFields, key_id: &str) -> (r:
    String)
    ensures
        r@ == provenance_signing_input(*fields, key_id@),
{
    let mut out = own(PROVENANCE_SIGNING_VERSION);
    push_separator(&mut out);
    push_text_or_dash(&mut out, fields.org_id.as_str());
    push_separator(&mut out);
    push_text_or_dash(&mut out, fields.event_type.as_str());
    push_separator(&mut out);
    push_field_or_dash(&mut out, &fields.right_id);
    push_separator(&mut out);
    push_field_or_dash(&mut out, &fields.basis_id);
    push_separator(&mut out);
    push_field_or_dash(&mut out, &fields.offer_id);
    push_separator(&mut out);
    push_field_or_dash(&mut out, &fields.before_hash);
    push_separator(&mut out);
    push_field_or_dash(&mut out, &fields.after_hash);
    push_separator(&mut out);
    push_text_or_dash(&mut out, key_id);
    out
}

/// For every optional field, leaving it absent and setting it to the
/// empty string sign the same bytes.
pub proof fn lemma_absent_field_signs_as_empty(
    fields: ProvenanceSigningFields,
    empty: String,
    key_id: Seq<char>,
)
    requires
        empty@.len() == 0,
    ensures
        provenance_signing_input(ProvenanceSigningFields { right_id: None, ..fields }, key_id)
            == provenance_signing_input(
            ProvenanceSigningFields { right_id: Some(empty), ..fields },
            key_id,
        ),
        provenance_signing_input(ProvenanceSigningFields { basis_id: None, ..fields }, key_id)
            == provenance_signing_input(
            ProvenanceSigningFields { basis_id: Some(empty), ..fields },
            key_id,
        ),
        provenance_signing_input(ProvenanceSigningFields { offer_id: None, ..fields }, key_id)
            == provenance_signing_input(
            ProvenanceSigningFields { offer_id: Some(empty), ..fields },
            key_id,
        ),
        provenance_signing_input(ProvenanceSigningFields { before_hash: None, ..fields }, key_id)
            == provenance_signing_input(
            ProvenanceSigningFields { before_hash: Some(empty), ..fields },
            key_id,
        ),
        provenance_signing_input(ProvenanceSigningFields { after_hash: None, ..fields }, key_id)
            == provenance_signing_input(
            ProvenanceSigningFields { after_hash: Some(empty), ..fields },
            key_id,
        ),
{
}

/// The key id is bound into the signed bytes: two key ids that encode
/// differently give different signing inputs for the same fields. (The
/// empty key id and `-` encode alike, so they are the one pair this does
/// not separate.)
pub proof fn lemma_key_id_is_bound(fields: ProvenanceSigningFields, first: Seq<char>, second: Seq<char>)
    requires
        text_or_dash(first) != text_or_dash(second),
    ensures
        provenance_signing_input(fields, first) != provenance_signing_input(fields, second),
{
    let a = provenance_signing_input(fields, first);
    let b = provenance_signing_input(fields, second);
    let prefix = a.take(a.len() - text_or_dash(first).len());
    assert(a =~= prefix + text_or_dash(first));
    assert(b =~= prefix + text_or_dash(second));
    if a == b {
        assert(text_or_dash(first) =~= a.skip(prefix.len() as int));
        assert(text_or_dash(second) =~= b.skip(prefix.len() as int));
    }
}

// ---------------------------------------------------------------------
// Per-record verification
// ---------------------------------------------------------------------

/// `provenance[<i>]<suffix>`.
pub open spec fn provenance_target(i: nat, suffix: Seq<char>) -> Seq<char> {
    "provenance["@ + decimal(i) + suffix
}

pub open spec fn is_write_signed(record: ProvenanceRecord) -> bool {
    record.signature_algorithm@ == ED25519@
}

pub open spec fn unsigned_record_sv(record: ProvenanceRecord, i: nat) -> StepView {
    StepView {
        target: provenance_target(i, "].signature"@),
        kind: AuditStepKind::ProvenanceSignature,
        status: AuditStepStatus::Skipped,
        reason: Some(AuditReasonCode::ProvenanceUnsignedRecord),
        message: "record pre-dates write-time provenance signing (read-time HMAC only) — not independently verifiable; informational, not a failure"@,
        detail: detail2(
            "signatureAlgorithm"@,
            DetailView::Text(record.signature_algorithm@),
            "provenanceEventType"@,
            DetailView::Text(record.provenance_event_type@),
        ),
    }
}

pub open spec fn missing_canonical_sv(i: nat) -> StepView {
    invalid_sv(
        provenance_target(i, "].payloadCanonical"@),
        AuditStepKind::ProvenanceSignature,
        AuditReasonCode::ProvenanceCanonicalMismatch,
        "ed25519 record carries no payloadCanonical — the signed bytes cannot be attested; partial-fill violates the write-time signing contract"@,
        None,
    )
}

pub open spec fn canonical_parity_sv(record: ProvenanceRecord, i: nat, shipped: Seq<char>) -> StepView {
    let rebuilt = record_signing_input(record);
    if rebuilt != shipped {
        invalid_sv(
            provenance_target(i, "].payloadCanonical"@),
            AuditStepKind::ProvenanceSignature,
            AuditReasonCode::ProvenanceCanonicalMismatch,
            "the canonical signing input the SDK reconstructed from the record's raw fields does not match the bytes the record ships — field tampering or canonicaliser version skew"@,
            detail2(
                "expected"@,
                DetailView::Text(utf8_prefix(shipped, 256)),
                "actual"@,
                DetailView::Text(utf8_prefix(rebuilt, 256)),
            ),
        )
    } else {
        valid_sv(
            provenance_target(i, "].payloadCanonical"@),
            AuditStepKind::ProvenanceSignature,
            "canonical signing input reconstructs from the raw fields"@,
        )
    }
}

/// The wire name of a key-lookup miss.
pub open spec fn miss_reason_text(reason: KeyMissReason) -> Seq<char> {
    match reason {
        KeyMissReason::UnknownKeyId => "UNKNOWN_KEY_ID"@,
        KeyMissReason::OutsideValidityWindow => "KEY_OUTSIDE_VALIDITY_WINDOW"@,
        KeyMissReason::RevokedBeforeIssuance => "KEY_REVOKED_BEFORE_ISSUANCE"@,
    }
}

pub open spec fn provenance_miss_sv(record: ProvenanceRecord, i: nat, reason: KeyMissReason) -> StepView {
    invalid_sv(
        provenance_target(i, "].signerKeyId"@),
        AuditStepKind::KeyLookup,
        miss_code(reason),
        "provenance signing key '"@ + record.signer_key_id@ + "' rejected: "@ + miss_reason_text(
            reason,
        ),
        detail2(
            "signerKeyId"@,
            DetailView::Text(record.signer_key_id@),
            "occurredAt"@,
            DetailView::Text(record.occurred_at@),
        ),
    )
}

pub open spec fn provenance_hit_sv(record: ProvenanceRecord, i: nat) -> StepView {
    valid_sv(
        provenance_target(i, "].signerKeyId"@),
        AuditStepKind::KeyLookup,
        "key '"@ + record.signer_key_id@ + "' resolved and valid for occurredAt"@,
    )
}

pub open spec fn provenance_malformed_sv(i: nat, message: Seq<char>) -> StepView {
    invalid_sv(
        provenance_target(i, "].signature"@),
        AuditStepKind::ProvenanceSignature,
        AuditReasonCode::ProvenanceSignatureMalformed,
        message,
        None,
    )
}

/// The signature step of an ed25519 record whose key resolved, checked
/// over the shipped canonical bytes.
pub open spec fn provenance_signature_sv(
    record: ProvenanceRecord,
    i: nat,
    key: VerificationKey,
    shipped: Seq<char>,
) -> StepView {
    match strict_base64url_bytes(record.signature@) {
        None => provenance_malformed_sv(
            i,
            "signature/public-key decoding failed: "@ + strict_base64url_error(record.signature@),
        ),
        Some(sig) => match strict_base64url_bytes(key.public_key@) {
            None => provenance_malformed_sv(
                i,
                "signature/public-key decoding failed: "@ + strict_base64url_error(key.public_key@),
            ),
            Some(pk) => if sig.len() != 64 || pk.len() != 32 {
                provenance_malformed_sv(
                    i,
                    "expected 64-byte signature / 32-byte public key, got "@ + decimal(sig.len())
                        + " / "@ + decimal(pk.len()),
                )
            } else if !ed25519_point_valid(pk) {
                invalid_sv(
                    provenance_target(i, "].signature"@),
                    AuditStepKind::ProvenanceSignature,
                    AuditReasonCode::ProvenanceSignatureInvalid,
                    "signature verify threw: public key was not a valid Ed25519 point"@,
                    None,
                )
            } else if ed25519_accepts_strict(pk, encode_utf8(shipped), sig) {
                valid_sv(
                    provenance_target(i, "].signature"@),
                    AuditStepKind::ProvenanceSignature,
                    "Ed25519 write-time signature verifies against the declared key"@,
                )
            } else {
                invalid_sv(
                    provenance_target(i, "].signature"@),
                    AuditStepKind::ProvenanceSignature,
                    AuditReasonCode::ProvenanceSignatureInvalid,
                    "Ed25519 write-time signature did NOT verify — the record was tampered with after signing, or the signerKeyId points to a different key than the one that signed it"@,
                    None,
                )
            },
        },
    }
}

/// Every step of one provenance record's verification, in order.
pub open spec fn provenance_record_steps(
    record: ProvenanceRecord,
    i: nat,
    keys: Seq<VerificationKey>,
) -> Seq<StepView> {
    if !is_write_signed(record) {
        seq![unsigned_record_sv(record, i)]
    } else {
        match opt_view(record.payload_canonical) {
            None => seq![missing_canonical_sv(i)],
            Some(shipped) => seq![canonical_parity_sv(record, i, shipped)] + match lookup_result(
                keys,
                record.signer_key_id@,
                record.occurred_at@,
            ) {
                KeyLookupResult::Miss(reason) => seq![provenance_miss_sv(record, i, reason)],
                KeyLookupResult::Hit(key) => seq![
                    provenance_hit_sv(record, i),
                    provenance_signature_sv(record, i, key, shipped),
                ],
            },
        }
    }
}

/// A write-signed record whose signer key no directory key carries is
/// reported, after its canonical-parity step, with one INVALID key-lookup
/// step citing `UnknownKeyId`, and nothing more.
pub proof fn lemma_unknown_signer(record: ProvenanceRecord, i: nat, keys: Seq<VerificationKey>)
    requires
        is_write_signed(record),
        record.payload_canonical is Some,
        forall|k: int| 0 <= k < keys.len() ==> (#[trigger] keys[k]).key_id@ != record.signer_key_id@,
    ensures
        provenance_record_steps(record, i, keys) == seq![
            canonical_parity_sv(record, i, record.payload_canonical->0@),
            provenance_miss_sv(record, i, KeyMissReason::UnknownKeyId),
        ],
        provenance_record_steps(record, i, keys)[1].reason == Some(AuditReasonCode::UnknownKeyId),
        provenance_record_steps(record, i, keys)[1].status == AuditStepStatus::Invalid,
{
    crate::keys::lemma_lookup_explicit(keys, record.signer_key_id@, record.occurred_at@);
    assert(provenance_record_steps(record, i, keys) =~= seq![
        canonical_parity_sv(record, i, record.payload_canonical->0@),
        provenance_miss_sv(record, i, KeyMissReason::UnknownKeyId),
    ]);
}

fn malformed_step(record_index: usize, message: String) -> (r: AuditStep)
    ensures
        step_view(r) == provenance_malformed_sv(record_index as nat, message@),
{
    invalid_step(
        indexed("provenance[", record_index, "].signature"),
        AuditStepKind::ProvenanceSignature,
        AuditReasonCode::ProvenanceSignatureMalformed,
        message,
        None,
    )
}

fn decoding_failure(record_index: usize, error: String) -> (r: AuditStep)
    ensures
        step_view(r) == provenance_malformed_sv(
            record_index as nat,
            "signature/public-key decoding failed: "@ + error@,
        ),
{
    let mut message = own("signature/public-key decoding failed: ");
    message.append(error.as_str());
    malformed_step(record_index, message)
}

fn provenance_miss(record: &ProvenanceRecord, record_index: usize, reason: KeyMissReason) -> (r:
    AuditStep)
    ensures
        step_view(r) == provenance_miss_sv(*record, record_index as nat, reason),
{
    let mut message = own("provenance signing key '");
    message.append(record.signer_key_id.as_str());
    message.append("' rejected: ");
    let code = match reason {
        KeyMissReason::UnknownKeyId => {
            message.append("UNKNOWN_KEY_ID");
            AuditReasonCode::UnknownKeyId
        },
        KeyMissReason::OutsideValidityWindow => {
            message.append("KEY_OUTSIDE_VALIDITY_WINDOW");
            AuditReasonCode::KeyOutsideValidityWindow
        },
        KeyMissReason::RevokedBeforeIssuance => {
            message.append("KEY_REVOKED_BEFORE_ISSUANCE");
            AuditReasonCode::KeyRevokedBeforeIssuance
        },
    };
    invalid_step(
        indexed("provenance[", record_index, "].signerKeyId"),
        AuditStepKind::KeyLookup,
        code,
        message,
        detail_pair(
            "signerKeyId",
            DetailValue::Text(record.signer_key_id.clone()),
            "occurredAt",
            DetailValue::Text(record.occurred_at.clone()),
        ),
    )
}

fn provenance_signature_check(
    record: &ProvenanceRecord,
    record_index: usize,
    key: &VerificationKey,
    shipped: &str,
) -> (r: AuditStep)
    ensures
        step_view(r) == provenance_signature_sv(*record, record_index as nat, *key, shipped@),
{
    let signature_bytes = match base64url_decode_strict(record.signature.as_str()) {
        Ok(b) => b,
        Err(e) => {
            return decoding_failure(record_index, e);
        },
    };
    let public_bytes = match base64url_decode_strict(key.public_key.as_str()) {
        Ok(b) => b,
        Err(e) => {
            return decoding_failure(record_index, e);
        },
    };
    if signature_bytes.len() != 64 || public_bytes.len() != 32 {
        let mut message = own("expected 64-byte signature / 32-byte public key, got ");
        let a = usize_to_decimal(signature_bytes.len());
        message.append(a.as_str());
        message.append(" / ");
        let b = usize_to_decimal(public_bytes.len());
        message.append(b.as_str());
        return malformed_step(record_index, message);
    }
    if !ed25519_key_valid(public_bytes.as_slice()) {
        return invalid_step(
            indexed("provenance[", record_index, "].signature"),
            AuditStepKind::ProvenanceSignature,
            AuditReasonCode::ProvenanceSignatureInvalid,
            own("signature verify threw: public key was not a valid Ed25519 point"),
            None,
        );
    }
    if ed25519_verify_strict(public_bytes.as_slice(), shipped.as_bytes(), signature_bytes.as_slice()) {
        valid_step(
            indexed("provenance[", record_index, "].signature"),
            AuditStepKind::ProvenanceSignature,
            own("Ed25519 write-time signature verifies against the declared key"),
        )
    } else {
        invalid_step(
            indexed("provenance[", record_index, "].signature"),
            AuditStepKind::ProvenanceSignature,
            AuditReasonCode::ProvenanceSignatureInvalid,
            own(
                "Ed25519 write-time signature did NOT verify — the record was tampered with after signing, or the signerKeyId points to a different key than the one that signed it",
            ),
            None,
        )
    }
}

/// Verify one rights-provenance record's write-time signature.
///
/// A legacy (non-ed25519) record gives one SKIPPED step with the
/// informational reason `ProvenanceUnsignedRecord`. An ed25519 record
/// gives its canonical-parity step (a mismatch does not stop the walk),
/// then the key-lookup step and, when the key resolves, the signature
/// step over the shipped canonical bytes.
pub fn verify_provenance_record(record: &ProvenanceRecord, record_index: usize, keys: &KeyDirectory) -> (r:
    Vec<AuditStep>)
    ensures
        steps_view(r@) == provenance_record_steps(*record, record_index as nat, keys.keys()),
{
    let mut steps: Vec<AuditStep> = Vec::new();
    if !str_eq(record.signature_algorithm.as_str(), ED25519) {
        push_step(
            &mut steps,
            AuditStep {
                target: indexed("provenance[", record_index, "].signature"),
                kind: AuditStepKind::ProvenanceSignature,
                status: AuditStepStatus::Skipped,
                reason: Some(AuditReasonCode::ProvenanceUnsignedRecord),
                message: own(
                    "record pre-dates write-time provenance signing (read-time HMAC only) — not independently verifiable; informational, not a failure",
                ),
                detail: detail_pair(
                    "signatureAlgorithm",
                    DetailValue::Text(record.signature_algorithm.clone()),
                    "provenanceEventType",
                    DetailValue::Text(record.provenance_event_type.clone()),
                ),
            },
        );
        assert(steps_view(steps@) =~= provenance_record_steps(*record, record_index as nat, keys.keys()));
        return steps;
    }
    let fields = ProvenanceSigningFields {
        org_id: record.org_id.clone(),
        event_type: record.provenance_event_type.clone(),
        right_id: record.right_id.clone(),
        basis_id: record.basis_id.clone(),
        offer_id: record.offer_id.clone(),
        before_hash: record.provenance_before_hash.clone(),
        after_hash: record.provenance_after_hash.clone(),
    };
    let rebuilt = canonicalise_provenance_signing_input(&fields, record.signer_key_id.as_str());
    assert(rebuilt@ == record_signing_input(*record));
    let shipped: &String = match &record.payload_canonical {
        None => {
            push_step(
                &mut steps,
                invalid_step(
                    indexed("provenance[", record_index, "].payloadCanonical"),
                    AuditStepKind::ProvenanceSignature,
                    AuditReasonCode::ProvenanceCanonicalMismatch,
                    own(
                        "ed25519 record carries no payloadCanonical — the signed bytes cannot be attested; partial-fill violates the write-time signing contract",
                    ),
                    None,
                ),
            );
            assert(steps_view(steps@) =~= provenance_record_steps(*record, record_index as nat, keys.keys()));
            return steps;
        },
        Some(s) => s,
    };
    if !str_eq(rebuilt.as_str(), shipped.as_str()) {
        push_step(
            &mut steps,
            invalid_step(
                indexed("provenance[", record_index, "].payloadCanonical"),
                AuditStepKind::ProvenanceSignature,
                AuditReasonCode::ProvenanceCanonicalMismatch,
                own(
                    "the canonical signing input the SDK reconstructed from the record's raw fields does not match the bytes the record ships — field tampering or canonicaliser version skew",
                ),
                detail_pair(
                    "expected",
                    DetailValue::Text(truncate_256(shipped.as_str())),
                    "actual",
                    DetailValue::Text(truncate_256(rebuilt.as_str())),
                ),
            ),
        );
    } else {
        push_step(
            &mut steps,
            valid_step(
                indexed("provenance[", record_index, "].payloadCanonical"),
                AuditStepKind::ProvenanceSignature,
                own("canonical signing input reconstructs from the raw fields"),
            ),
        );
    }
    let key = match keys.lookup(record.signer_key_id.as_str(), record.occurred_at.as_str()) {
        KeyLookupResult::Hit(k) => k,
        KeyLookupResult::Miss(reason) => {
            push_step(&mut steps, provenance_miss(record, record_index, reason));
            assert(steps_view(steps@) =~= provenance_record_steps(*record, record_index as nat, keys.keys()));
            return steps;
        },
    };
    let mut message = own("key '");
    message.append(record.signer_key_id.as_str());
    message.append("' resolved and valid for occurredAt");
    push_step(
        &mut steps,
        valid_step(indexed("provenance[", record_index, "].signerKeyId"), AuditStepKind::KeyLookup, message),
    );
    push_step(&mut steps, provenance_signature_check(record, record_index, &key, shipped.as_str()));
    assert(steps_view(steps@) =~= provenance_record_steps(*record, record_index as nat, keys.keys()));
    steps
}

// ---------------------------------------------------------------------
// Record sets
// ---------------------------------------------------------------------

/// Options of [`verify_provenance_chain`].
#[derive(Clone, Debug)]
pub struct VerifyProvenanceChainOptions {
    /// When present, every record's `org_id` must equal it; a record from
    /// another tenant is reported as `ProvenanceOrgMismatch`.
    pub expected_org_id: Option<String>,
}

impl Default for VerifyProvenanceChainOptions {
    fn default() -> (r: Self)
        ensures
            r.expected_org_id is None,
    {
        VerifyProvenanceChainOptions { expected_org_id: None }
    }
}

pub open spec fn empty_provenance_sv() -> StepView {
    invalid_sv(
        "records"@,
        AuditStepKind::ProvenanceSignature,
        AuditReasonCode::MalformedPack,
        "provenance signature audit received an empty record set — nothing to verify"@,
        None,
    )
}

/// The org-consistency step of one record, when an org is expected and
/// the record belongs to another.
pub open spec fn org_check_steps(record: ProvenanceRecord, i: nat, expected: Option<Seq<char>>) -> Seq<
    StepView,
> {
    match expected {
        Some(e) => if record.org_id@ != e {
            seq![
                invalid_sv(
                    provenance_target(i, "].orgId"@),
                    AuditStepKind::ProvenanceSignature,
                    AuditReasonCode::ProvenanceOrgMismatch,
                    "record orgId '"@ + record.org_id@ + "' does not match the expected orgId '"@ + e
                        + "' — record set spliced across tenants"@,
                    detail2("expected"@, DetailView::Text(e), "actual"@, DetailView::Text(record.org_id@)),
                ),
            ]
        } else {
            Seq::empty()
        },
        None => Seq::empty(),
    }
}

/// The steps of the first `k` records, in order: per record its org check,
/// then its own verification.
pub open spec fn provenance_walk(
    records: Seq<ProvenanceRecord>,
    k: nat,
    keys: Seq<VerificationKey>,
    expected: Option<Seq<char>>,
) -> Seq<StepView>
    decreases k,
{
    if k == 0 || k > records.len() {
        Seq::empty()
    } else {
        let i = (k - 1) as nat;
        provenance_walk(records, i, keys, expected) + org_check_steps(records[i as int], i, expected)
            + provenance_record_steps(records[i as int], i, keys)
    }
}

/// Every step of a record-set audit.
pub open spec fn provenance_chain_steps(
    records: Seq<ProvenanceRecord>,
    keys: Seq<VerificationKey>,
    expected: Option<Seq<char>>,
) -> Seq<StepView> {
    if records.len() == 0 {
        seq![empty_provenance_sv()]
    } else {
        provenance_walk(records, records.len(), keys, expected)
    }
}

/// INVALID if any step is; otherwise VALID if any step is; otherwise
/// SKIPPED (nothing was verifiable).
pub open spec fn provenance_verdict(steps: Seq<StepView>) -> AuditStepStatus {
    if any_invalid(steps) {
        AuditStepStatus::Invalid
    } else if any_valid(steps) {
        AuditStepStatus::Valid
    } else {
        AuditStepStatus::Skipped
    }
}

/// How many of the first `k` records are write-signed.
pub open spec fn signed_count(records: Seq<ProvenanceRecord>, k: nat) -> nat
    decreases k,
{
    if k == 0 || k > records.len() {
        0
    } else {
        signed_count(records, (k - 1) as nat) + if is_write_signed(records[k - 1]) {
            1nat
        } else {
            0nat
        }
    }
}

fn org_mismatch(record: &ProvenanceRecord, record_index: usize, expected: &String) -> (r: AuditStep)
    requires
        record.org_id@ != expected@,
    ensures
        seq![step_view(r)] == org_check_steps(*record, record_index as nat, Some(expected@)),
{
    let mut message = own("record orgId '");
    message.append(record.org_id.as_str());
    message.append("' does not match the expected orgId '");
    message.append(expected.as_str());
    message.append("' — record set spliced across tenants");
    invalid_step(
        indexed("provenance[", record_index, "].orgId"),
        AuditStepKind::ProvenanceSignature,
        AuditReasonCode::ProvenanceOrgMismatch,
        message,
        detail_pair(
            "expected",
            DetailValue::Text(expected.clone()),
            "actual",
            DetailValue::Text(record.org_id.clone()),
        ),
    )
}

/// Verify the write-time signatures across a rights-provenance record set.
///
/// Per record: the org check (when an org is expected), then
/// [`verify_provenance_record`]. The report is INVALID when any step is,
/// VALID when at least one step verified and none failed, and SKIPPED when
/// every record was legacy. An empty set is INVALID.
pub fn verify_provenance_chain(
    records: &[ProvenanceRecord],
    keys: &KeyDirectory,
    options: &VerifyProvenanceChainOptions,
) -> (r: ProvenanceAuditReport)
    ensures
        steps_view(r.steps@) == provenance_chain_steps(
            records@,
            keys.keys(),
            opt_view(options.expected_org_id),
        ),
        r.status == provenance_verdict(
            provenance_chain_steps(records@, keys.keys(), opt_view(options.expected_org_id)),
        ),
        r.record_count == records@.len(),
        r.signed_record_count == signed_count(records@, records@.len()),
        r.signed_record_count + r.unsigned_record_count == r.record_count,
        r.sdk_version@ == SDK_VERSION@,
{
    let verified_at = now_rfc3339_secs();
    let mut steps: Vec<AuditStep> = Vec::new();
    if records.len() == 0 {
        push_step(
            &mut steps,
            invalid_step(
                own("records"),
                AuditStepKind::ProvenanceSignature,
                AuditReasonCode::MalformedPack,
                own("provenance signature audit received an empty record set — nothing to verify"),
                None,
            ),
        );
        assert(steps_view(steps@) =~= provenance_chain_steps(
            records@,
            keys.keys(),
            opt_view(options.expected_org_id),
        ));
        assert(steps_view(steps@)[0].status == AuditStepStatus::Invalid);
        return ProvenanceAuditReport {
            status: AuditStepStatus::Invalid,
            verified_at,
            sdk_version: own(SDK_VERSION),
            record_count: 0,
            signed_record_count: 0,
            unsigned_record_count: 0,
            steps,
        };
    }
    let ghost expected = opt_view(options.expected_org_id);
    let mut signed: usize = 0;
    let mut unsigned: usize = 0;
    let mut i: usize = 0;
    while i < records.len()
        invariant
            i <= records@.len(),
            expected == opt_view(options.expected_org_id),
            steps_view(steps@) == provenance_walk(records@, i as nat, keys.keys(), expected),
            signed == signed_count(records@, i as nat),
            signed + unsigned == i,
        decreases records@.len() - i,
    {
        let record = &records[i];
        let ghost before = steps_view(steps@);
        match &options.expected_org_id {
            Some(e) => {
                if !str_eq(record.org_id.as_str(), e.as_str()) {
                    push_step(&mut steps, org_mismatch(record, i, e));
                } else {
                    assert(org_check_steps(*record, i as nat, expected) =~= Seq::<StepView>::empty());
                }
            },
            None => {},
        }
        assert(steps_view(steps@) =~= before + org_check_steps(*record, i as nat, expected));
        if str_eq(record.signature_algorithm.as_str(), ED25519) {
            signed = signed + 1;
        } else {
            unsigned = unsigned + 1;
        }
        let more = verify_provenance_record(record, i, keys);
        append_steps(&mut steps, more);
        i = i + 1;
        proof {
            assert(steps_view(steps@) =~= provenance_walk(records@, i as nat, keys.keys(), expected));
        }
    }
    assert(steps_view(steps@) =~= provenance_chain_steps(records@, keys.keys(), expected));
    let status = if has_invalid(&steps) {
        AuditStepStatus::Invalid
    } else if has_valid(&steps) {
        AuditStepStatus::Valid
    } else {
        AuditStepStatus::Skipped
    };
    ProvenanceAuditReport {
        status,
        verified_at,
        sdk_version: own(SDK_VERSION),
        record_count: records.len(),
        signed_record_count: signed,
        unsigned_record_count: unsigned,
        steps,
    }
}

// ---------------------------------------------------------------------
// Laws
// ---------------------------------------------------------------------

proof fn lemma_legacy_walk_skipped(
    records: Seq<ProvenanceRecord>,
    k: nat,
    keys: Seq<VerificationKey>,
    expected: Option<Seq<char>>,
)
    requires
        k <= records.len(),
        forall|i: int| 0 <= i < records.len() ==> !is_write_signed(#[trigger] records[i]),
        expected matches Some(e) ==> forall|i: int|
            0 <= i < records.len() ==> (#[trigger] records[i]).org_id@ == e,
    ensures
        forall|j: int|
            0 <= j < provenance_walk(records, k, keys, expected).len() ==> (#[trigger] provenance_walk(
                records,
                k,
                keys,
                expected,
            )[j]).status == AuditStepStatus::Skipped,
    decreases k,
{
    if k > 0 {
        let i = (k - 1) as nat;
        lemma_legacy_walk_skipped(records, i, keys, expected);
        assert(!is_write_signed(records[i as int]));
        assert(org_check_steps(records[i as int], i, expected) =~= Seq::<StepView>::empty());
        let prev = provenance_walk(records, i, keys, expected);
        assert(provenance_walk(records, k, keys, expected) =~= prev.push(
            unsigned_record_sv(records[i as int], i),
        ));
    }
}

/// A non-empty record set in which no record is write-signed (every
/// record pre-dates write-time signing) is reported SKIPPED, never
/// INVALID, provided no record belongs to another org than the expected
/// one.
pub proof fn lemma_all_legacy_set_is_skipped(
    records: Seq<ProvenanceRecord>,
    keys: Seq<VerificationKey>,
    expected: Option<Seq<char>>,
)
    requires
        records.len() > 0,
        forall|i: int| 0 <= i < records.len() ==> !is_write_signed(#[trigger] records[i]),
        expected matches Some(e) ==> forall|i: int|
            0 <= i < records.len() ==> (#[trigger] records[i]).org_id@ == e,
    ensures
        provenance_verdict(provenance_chain_steps(records, keys, expected)) == AuditStepStatus::Skipped,
{
    lemma_legacy_walk_skipped(records, records.len(), keys, expected);
}

/// A legacy record never yields an INVALID step of its own.
pub proof fn lemma_legacy_record_never_invalid(
    record: ProvenanceRecord,
    i: nat,
    keys: Seq<VerificationKey>,
)
    requires
        !is_write_signed(record),
    ensures
        !any_invalid(provenance_record_steps(record, i, keys)),
        !any_valid(provenance_record_steps(record, i, keys)),
{
    assert(provenance_record_steps(record, i, keys)[0].status == AuditStepStatus::Skipped);
}

} // verus!
