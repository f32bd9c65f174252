//! The auditor: one key directory, and the pack, chain, metering and
//! settlement audits composed behind one call.

use vstd::prelude::*;
use crate::clock::now_rfc3339;
use crate::errors::AuditorError;
use crate::keys::{first_key_problem, strictly_ascending, texts_view, KeyDirectory};
use crate::metering_audit::{metering_steps, verify_metering_projection};
use crate::proof_chain::{
    lemma_proof_chain_status, proof_chain_intact, proof_chain_steps, verify_proof_chain,
};
use crate::canonical_json::proof_payload_canonical;
use crate::hashing::sha256_hex_of;
use crate::proof_pack::{after_hash_step, proof_record_steps, record_target, verify_proof_record};
use crate::settlement_audit::{settlement_steps, verify_settlement_reconciliation};
use crate::tenant_chain::opt_str_view;
use crate::text::{debug_quote, debug_quoted, decimal, opt_view, own, str_eq, usize_to_decimal};
use crate::types::{
    any_invalid, append_steps, has_invalid, invalid_or_valid, invalid_step, invalid_sv, push_step,
    steps_view, valid_step, valid_sv, AuditBundle, AuditReasonCode, AuditReport,
    AuditStep, AuditStepKind, AuditStepStatus, ChainAuditReport, FullAuditReport, KeysSnapshot,
    MeteringSummary, ProjectionAuditReport, ProofRecord, RuntimeKeysResponse,
    SettlementAuditReport, SettlementSummary, SignedProofPack, StepView, VerificationKey,
    ENVELOPE_V1, SDK_VERSION,
};

verus! {

#[derive(Debug)]
pub struct Auditor {
    key_directory: KeyDirectory,
}

// ---------------------------------------------------------------------
// Verdicts
// ---------------------------------------------------------------------

/// Every step is SKIPPED.
pub open spec fn all_skipped(steps: Seq<StepView>) -> bool {
    forall|i: int| 0 <= i < steps.len() ==> #[trigger] steps[i].status == AuditStepStatus::Skipped
}

/// INVALID if any step is; SKIPPED if every step is; VALID otherwise.
pub open spec fn rollup(steps: Seq<StepView>) -> AuditStepStatus {
    if any_invalid(steps) {
        AuditStepStatus::Invalid
    } else if all_skipped(steps) {
        AuditStepStatus::Skipped
    } else {
        AuditStepStatus::Valid
    }
}

/// INVALID if any report is; SKIPPED if every report is; VALID otherwise
/// (a mix of VALID and SKIPPED is VALID: every check that ran passed).
pub open spec fn overall(statuses: Seq<AuditStepStatus>) -> AuditStepStatus {
    if exists|i: int| 0 <= i < statuses.len() && statuses[i] == AuditStepStatus::Invalid {
        AuditStepStatus::Invalid
    } else if forall|i: int| 0 <= i < statuses.len() ==> statuses[i] == AuditStepStatus::Skipped {
        AuditStepStatus::Skipped
    } else {
        AuditStepStatus::Valid
    }
}

fn rollup_status(steps: &Vec<AuditStep>) -> (r: AuditStepStatus)
    ensures
        r == rollup(steps_view(steps@)),
{
    if has_invalid(steps) {
        return AuditStepStatus::Invalid;
    }
    let mut i: usize = 0;
    while i < steps.len()
        invariant
            i <= steps@.len(),
            !any_invalid(steps_view(steps@)),
            forall|j: int| 0 <= j < i ==> steps@[j].status == AuditStepStatus::Skipped,
        decreases steps@.len() - i,
    {
        if steps[i].status != AuditStepStatus::Skipped {
            assert(steps_view(steps@)[i as int].status != AuditStepStatus::Skipped);
            assert(!all_skipped(steps_view(steps@)));
            return AuditStepStatus::Valid;
        }
        i = i + 1;
    }
    assert forall|j: int| 0 <= j < steps_view(steps@).len() implies #[trigger] steps_view(steps@)[j].status
        == AuditStepStatus::Skipped by {
        assert(steps@[j].status == AuditStepStatus::Skipped);
    }
    AuditStepStatus::Skipped
}

fn rollup_overall(statuses: &[AuditStepStatus]) -> (r: AuditStepStatus)
    ensures
        r == overall(statuses@),
{
    let mut i: usize = 0;
    while i < statuses.len()
        invariant
            i <= statuses@.len(),
            forall|j: int| 0 <= j < i ==> statuses@[j] != AuditStepStatus::Invalid,
        decreases statuses@.len() - i,
    {
        if statuses[i] == AuditStepStatus::Invalid {
            return AuditStepStatus::Invalid;
        }
        i = i + 1;
    }
    i = 0;
    while i < statuses.len()
        invariant
            i <= statuses@.len(),
            forall|j: int| 0 <= j < statuses@.len() ==> statuses@[j] != AuditStepStatus::Invalid,
            forall|j: int| 0 <= j < i ==> statuses@[j] == AuditStepStatus::Skipped,
        decreases statuses@.len() - i,
    {
        if statuses[i] != AuditStepStatus::Skipped {
            return AuditStepStatus::Valid;
        }
        i = i + 1;
    }
    AuditStepStatus::Skipped
}

// ---------------------------------------------------------------------
// The pack audit
// ---------------------------------------------------------------------

pub open spec fn record_count_sv(pack: SignedProofPack) -> StepView {
    if pack.records@.len() == 0 {
        invalid_sv(
            "pack.records"@,
            AuditStepKind::Envelope,
            AuditReasonCode::EmptyPack,
            "proof pack contains zero records — cannot audit"@,
            None,
        )
    } else {
        valid_sv(
            "pack.records"@,
            AuditStepKind::Envelope,
            "pack contains "@ + decimal(pack.records@.len()) + " record(s)"@,
        )
    }
}

pub open spec fn envelope_version_steps(pack: SignedProofPack) -> Seq<StepView> {
    if pack.envelope_version@ != ENVELOPE_V1@ {
        seq![
            invalid_sv(
                "pack.envelopeVersion"@,
                AuditStepKind::Envelope,
                AuditReasonCode::UnsupportedEnvelopeVersion,
                "envelopeVersion "@ + debug_quoted(pack.envelope_version@)
                    + " is not in [\"envelope.v1\"]"@,
                None,
            ),
        ]
    } else {
        Seq::empty()
    }
}

/// The per-record steps of the first `k` records, in order.
pub open spec fn pack_record_walk(records: Seq<ProofRecord>, k: nat, keys: Seq<VerificationKey>) -> Seq<
    StepView,
>
    decreases k,
{
    if k == 0 || k > records.len() {
        Seq::empty()
    } else {
        pack_record_walk(records, (k - 1) as nat, keys) + proof_record_steps(
            records[k - 1],
            (k - 1) as nat,
            keys,
        )
    }
}

/// Every step of a proof-pack audit: the record count, the envelope
/// version (when unsupported), then each record's steps.
pub open spec fn pack_steps(pack: SignedProofPack, keys: Seq<VerificationKey>) -> Seq<StepView> {
    seq![record_count_sv(pack)] + envelope_version_steps(pack) + pack_record_walk(
        pack.records@,
        pack.records@.len(),
        keys,
    )
}

/// The snapshot a report carries: the directory's source and snapshot id,
/// its key count and its key ids in ascending order.
pub open spec fn snapshot_describes(s: KeysSnapshot, directory: KeyDirectory) -> bool {
    &&& s.source@ == directory.snapshot_spec().source@
    &&& opt_view(s.snapshot_id) == opt_view(directory.snapshot_spec().snapshot_id)
    &&& s.key_count == directory.keys().len()
    &&& s.key_ids@.len() == directory.keys().len()
    &&& strictly_ascending(texts_view(s.key_ids@))
    &&& forall|i: int|
        0 <= i < directory.keys().len() ==> texts_view(s.key_ids@).contains(
            #[trigger] directory.keys()[i].key_id@,
        )
}

// ---------------------------------------------------------------------
// The full pipeline
// ---------------------------------------------------------------------

/// The metering summary a bundle is audited with: its own, else the
/// pack's.
pub open spec fn chosen_metering(bundle: AuditBundle) -> Option<MeteringSummary> {
    if bundle.metering is Some {
        bundle.metering
    } else {
        bundle.pack.metering
    }
}

/// The settlement summary a bundle is audited with: its own, else the
/// pack's.
pub open spec fn chosen_settlement(bundle: AuditBundle) -> Option<SettlementSummary> {
    if bundle.settlement is Some {
        bundle.settlement
    } else {
        bundle.pack.settlement
    }
}

pub open spec fn skipped_metering_sv() -> StepView {
    StepView {
        target: "metering"@,
        kind: AuditStepKind::MeterProjection,
        status: AuditStepStatus::Skipped,
        reason: None,
        message: "no metering summary in the bundle — skipped"@,
        detail: None,
    }
}

pub open spec fn skipped_settlement_sv() -> StepView {
    StepView {
        target: "settlement"@,
        kind: AuditStepKind::SettlementLine,
        status: AuditStepStatus::Skipped,
        reason: None,
        message: "settlement reconciliation skipped — bundle lacks either metering or settlement summary"@,
        detail: None,
    }
}

impl Auditor {
    /// The auditor's key directory.
    pub closed spec fn directory(self) -> KeyDirectory {
        self.key_directory
    }

    /// Construct from a pinned list of keys. The keys must form a valid
    /// directory (no repeated id, every algorithm Ed25519).
    pub fn new(keys: Vec<VerificationKey>) -> (r: Self)
        requires
            first_key_problem(keys@, keys@.len()) is None,
        ensures
            r.directory().keys() == keys@,
            r.directory().snapshot_spec().source@ == "local"@,
            r.directory().snapshot_spec().snapshot_id is None,
            r.directory().snapshot_spec().issued_at is None,
    {
        let key_directory = KeyDirectory::from_local(keys).unwrap();
        Auditor { key_directory }
    }

    /// Construct from an already-built key directory.
    pub fn with_directory(key_directory: KeyDirectory) -> (r: Self)
        ensures
            r.directory() == key_directory,
    {
        Auditor { key_directory }
    }

    /// Construct from a parsed `/v1/runtime-keys` envelope; refused as
    /// [`KeyDirectory::from_runtime_keys`] refuses it.
    pub fn from_runtime_keys(parsed: RuntimeKeysResponse) -> (r: Result<Self, AuditorError>)
        ensures
            !parsed.ok ==> (r matches Err(e) && e.code == crate::errors::AuditorErrorCode::KeysMalformed
                && e.message@ == "runtime_keys envelope has ok=false"@),
            parsed.ok ==> match first_key_problem(parsed.data.keys@, parsed.data.keys@.len()) {
                Some(m) => r matches Err(e) && e.code == crate::errors::AuditorErrorCode::KeysMalformed
                    && e.message@ == m,
                None => r matches Ok(a) && a.directory().keys() == parsed.data.keys@
                    && a.directory().snapshot_spec().source@ == "platform"@
                    && a.directory().snapshot_spec().snapshot_id == parsed.data.snapshot_id,
            },
    {
        match KeyDirectory::from_runtime_keys(parsed) {
            Ok(d) => Ok(Auditor { key_directory: d }),
            Err(e) => Err(e),
        }
    }

    pub fn key_directory(&self) -> (r: &KeyDirectory)
        ensures
            *r == self.directory(),
    {
        &self.key_directory
    }

    fn keys_snapshot(&self) -> (r: KeysSnapshot)
        ensures
            snapshot_describes(r, self.directory()),
    {
        let snap = self.key_directory.snapshot();
        let snapshot_id = match &snap.snapshot_id {
            Some(s) => Some(s.clone()),
            None => None,
        };
        KeysSnapshot {
            source: snap.source.clone(),
            snapshot_id,
            key_count: self.key_directory.size(),
            key_ids: self.key_directory.key_ids(),
        }
    }

    /// Audit a proof pack: the record count, the envelope version, then
    /// every record's canonicalisation, afterHash, key and signature.
    pub fn verify_proof_pack(&self, pack: &SignedProofPack) -> (r: AuditReport)
        ensures
            steps_view(r.steps@) == pack_steps(*pack, self.directory().keys()),
            r.status == rollup(pack_steps(*pack, self.directory().keys())),
            r.pack_id@ == pack.pack_id@,
            r.org_id@ == pack.org_id@,
            r.envelope_version@ == pack.envelope_version@,
            r.sdk_version@ == SDK_VERSION@,
            snapshot_describes(r.keys_snapshot, self.directory()),
    {
        let verified_at = now_rfc3339();
        let mut steps: Vec<AuditStep> = Vec::new();
        if pack.records.len() == 0 {
            push_step(
                &mut steps,
                invalid_step(
                    own("pack.records"),
                    AuditStepKind::Envelope,
                    AuditReasonCode::EmptyPack,
                    own("proof pack contains zero records — cannot audit"),
                    None,
                ),
            );
        } else {
            let mut message = own("pack contains ");
            let n = usize_to_decimal(pack.records.len());
            message.append(n.as_str());
            message.append(" record(s)");
            push_step(&mut steps, valid_step(own("pack.records"), AuditStepKind::Envelope, message));
        }
        if !str_eq(pack.envelope_version.as_str(), ENVELOPE_V1) {
            let mut message = own("envelopeVersion ");
            let q = debug_quote(pack.envelope_version.as_str());
            message.append(q.as_str());
            message.append(" is not in [\"envelope.v1\"]");
            push_step(
                &mut steps,
                invalid_step(
                    own("pack.envelopeVersion"),
                    AuditStepKind::Envelope,
                    AuditReasonCode::UnsupportedEnvelopeVersion,
                    message,
                    None,
                ),
            );
        }
        let ghost head = seq![record_count_sv(*pack)] + envelope_version_steps(*pack);
        assert(steps_view(steps@) =~= head);
        let ghost keys = self.directory().keys();
        let mut i: usize = 0;
        while i < pack.records.len()
            invariant
                i <= pack.records@.len(),
                keys == self.directory().keys(),
                steps_view(steps@) == head + pack_record_walk(pack.records@, i as nat, keys),
            decreases pack.records@.len() - i,
        {
            let more = verify_proof_record(&pack.records[i], i, &self.key_directory);
            append_steps(&mut steps, more);
            i = i + 1;
            proof {
                assert(steps_view(steps@) =~= head + pack_record_walk(pack.records@, i as nat, keys));
            }
        }
        let status = rollup_status(&steps);
        AuditReport {
            status,
            pack_id: pack.pack_id.clone(),
            org_id: pack.org_id.clone(),
            verified_at,
            sdk_version: own(SDK_VERSION),
            envelope_version: pack.envelope_version.clone(),
            keys_snapshot: self.keys_snapshot(),
            steps,
        }
    }

    /// The chain audit of [`verify_proof_chain`].
    pub fn verify_proof_chain(&self, records: &[ProofRecord], prior_after_hash: Option<&str>) -> (r:
        ChainAuditReport)
        ensures
            steps_view(r.steps@) == proof_chain_steps(records@, opt_str_view(prior_after_hash)),
            r.status == invalid_or_valid(proof_chain_steps(records@, opt_str_view(prior_after_hash))),
            r.status == AuditStepStatus::Valid <==> proof_chain_intact(
                records@,
                opt_str_view(prior_after_hash),
            ),
            r.record_count == records@.len(),
            r.sdk_version@ == SDK_VERSION@,
    {
        verify_proof_chain(records, prior_after_hash)
    }

    /// The metering audit of [`verify_metering_projection`].
    pub fn verify_metering_projection(
        &self,
        records: &[ProofRecord],
        metering: &MeteringSummary,
        pack_org_id: Option<&str>,
    ) -> (r: ProjectionAuditReport)
        ensures
            steps_view(r.steps@) == metering_steps(records@, *metering, opt_str_view(pack_org_id)),
            r.status == invalid_or_valid(metering_steps(records@, *metering, opt_str_view(pack_org_id))),
            r.proof_record_count == records@.len(),
            r.meter_record_count == metering.records@.len(),
            r.sdk_version@ == SDK_VERSION@,
    {
        verify_metering_projection(records, metering, pack_org_id)
    }

    /// The settlement audit of [`verify_settlement_reconciliation`].
    pub fn verify_settlement_reconciliation(
        &self,
        metering: &MeteringSummary,
        settlement: &SettlementSummary,
    ) -> (r: SettlementAuditReport)
        ensures
            steps_view(r.steps@) == settlement_steps(*metering, *settlement),
            r.status == invalid_or_valid(settlement_steps(*metering, *settlement)),
            r.meter_record_count == metering.records@.len(),
            r.settlement_line_count == settlement.lines@.len(),
            r.sdk_version@ == SDK_VERSION@,
    {
        verify_settlement_reconciliation(metering, settlement)
    }

    /// The full pipeline: the pack audit, the chain audit (continuing from
    /// `prior_after_hash`), the metering audit with the bundle's or else
    /// the pack's metering summary, and the settlement audit when both
    /// summaries are at hand; an absent summary gives a SKIPPED report.
    pub fn verify_all(&self, bundle: &AuditBundle) -> (r: FullAuditReport)
        ensures
            steps_view(r.pack.steps@) == pack_steps(bundle.pack, self.directory().keys()),
            r.pack.status == rollup(pack_steps(bundle.pack, self.directory().keys())),
            steps_view(r.chain.steps@) == proof_chain_steps(
                bundle.pack.records@,
                opt_view(bundle.prior_after_hash),
            ),
            r.chain.status == invalid_or_valid(
                proof_chain_steps(bundle.pack.records@, opt_view(bundle.prior_after_hash)),
            ),
            match chosen_metering(*bundle) {
                Some(m) => steps_view(r.metering.steps@) == metering_steps(
                    bundle.pack.records@,
                    m,
                    Some(bundle.pack.org_id@),
                ) && r.metering.status == invalid_or_valid(
                    metering_steps(bundle.pack.records@, m, Some(bundle.pack.org_id@)),
                ),
                None => steps_view(r.metering.steps@) == seq![skipped_metering_sv()]
                    && r.metering.status == AuditStepStatus::Skipped,
            },
            match (chosen_metering(*bundle), chosen_settlement(*bundle)) {
                (Some(m), Some(s)) => steps_view(r.settlement.steps@) == settlement_steps(m, s)
                    && r.settlement.status == invalid_or_valid(settlement_steps(m, s)),
                _ => steps_view(r.settlement.steps@) == seq![skipped_settlement_sv()]
                    && r.settlement.status == AuditStepStatus::Skipped,
            },
            bundle.metering is None && bundle.pack.metering is Some ==> steps_view(r.metering.steps@)
                == metering_steps(
                bundle.pack.records@,
                bundle.pack.metering->0,
                Some(bundle.pack.org_id@),
            ) && r.metering.status == invalid_or_valid(
                metering_steps(bundle.pack.records@, bundle.pack.metering->0, Some(bundle.pack.org_id@)),
            ),
            bundle.metering matches Some(m) ==> steps_view(r.metering.steps@) == metering_steps(
                bundle.pack.records@,
                m,
                Some(bundle.pack.org_id@),
            ),
            r.metering.status == AuditStepStatus::Skipped <==> (bundle.metering is None
                && bundle.pack.metering is None),
            r.settlement.status == AuditStepStatus::Skipped <==> ((bundle.metering is None
                && bundle.pack.metering is None) || (bundle.settlement is None
                && bundle.pack.settlement is None)),
            (bundle.settlement is None && bundle.pack.settlement is Some && bundle.metering is Some)
                ==> steps_view(r.settlement.steps@) == settlement_steps(
                bundle.metering->0,
                bundle.pack.settlement->0,
            ),
            (bundle.settlement is None && bundle.pack.settlement is Some && bundle.metering is None
                && bundle.pack.metering is Some) ==> steps_view(r.settlement.steps@) == settlement_steps(
                bundle.pack.metering->0,
                bundle.pack.settlement->0,
            ),
            r.chain.record_count == bundle.pack.records@.len(),
            r.metering.proof_record_count == bundle.pack.records@.len(),
            r.metering.meter_record_count == match chosen_metering(*bundle) {
                Some(m) => m.records@.len(),
                None => 0,
            },
            r.settlement.meter_record_count == match chosen_metering(*bundle) {
                Some(m) => m.records@.len(),
                None => 0,
            },
            r.settlement.settlement_line_count == match (
                chosen_metering(*bundle),
                chosen_settlement(*bundle),
            ) {
                (Some(_), Some(s)) => s.lines@.len(),
                _ => 0,
            },
            r.status == overall(
                seq![r.pack.status, r.chain.status, r.metering.status, r.settlement.status],
            ),
            r.status == AuditStepStatus::Valid <==> (r.pack.status == AuditStepStatus::Valid
                && r.chain.status == AuditStepStatus::Valid && r.metering.status
                != AuditStepStatus::Invalid && r.settlement.status != AuditStepStatus::Invalid),
            r.status != AuditStepStatus::Skipped,
            r.pack_id@ == bundle.pack.pack_id@,
            r.org_id@ == bundle.pack.org_id@,
            r.sdk_version@ == SDK_VERSION@,
            snapshot_describes(r.keys_snapshot, self.directory()),
    {
        let verified_at = now_rfc3339();
        proof {
            lemma_pack_never_skipped(bundle.pack, self.directory().keys());
        }
        let pack_report = self.verify_proof_pack(&bundle.pack);
        let prior: Option<&str> = match &bundle.prior_after_hash {
            Some(s) => Some(s.as_str()),
            None => None,
        };
        let chain_report = self.verify_proof_chain(&bundle.pack.records, prior);
        let metering_ref: Option<&MeteringSummary> = match &bundle.metering {
            Some(m) => Some(m),
            None => match &bundle.pack.metering {
                Some(m) => Some(m),
                None => None,
            },
        };
        let settlement_ref: Option<&SettlementSummary> = match &bundle.settlement {
            Some(s) => Some(s),
            None => match &bundle.pack.settlement {
                Some(s) => Some(s),
                None => None,
            },
        };
        let metering_report = match metering_ref {
            Some(m) => self.verify_metering_projection(
                &bundle.pack.records,
                m,
                Some(bundle.pack.org_id.as_str()),
            ),
            None => {
                let mut steps: Vec<AuditStep> = Vec::new();
                push_step(
                    &mut steps,
                    AuditStep {
                        target: own("metering"),
                        kind: AuditStepKind::MeterProjection,
                        status: AuditStepStatus::Skipped,
                        reason: None,
                        message: own("no metering summary in the bundle — skipped"),
                        detail: None,
                    },
                );
                assert(steps_view(steps@) =~= seq![skipped_metering_sv()]);
                ProjectionAuditReport {
                    status: AuditStepStatus::Skipped,
                    verified_at: verified_at.clone(),
                    sdk_version: own(SDK_VERSION),
                    proof_record_count: bundle.pack.records.len(),
                    meter_record_count: 0,
                    steps,
                }
            },
        };
        let settlement_report = match (metering_ref, settlement_ref) {
            (Some(m), Some(s)) => self.verify_settlement_reconciliation(m, s),
            _ => {
                let mut steps: Vec<AuditStep> = Vec::new();
                push_step(
                    &mut steps,
                    AuditStep {
                        target: own("settlement"),
                        kind: AuditStepKind::SettlementLine,
                        status: AuditStepStatus::Skipped,
                        reason: None,
                        message: own(
                            "settlement reconciliation skipped — bundle lacks either metering or settlement summary",
                        ),
                        detail: None,
                    },
                );
                assert(steps_view(steps@) =~= seq![skipped_settlement_sv()]);
                SettlementAuditReport {
                    status: AuditStepStatus::Skipped,
                    verified_at: verified_at.clone(),
                    sdk_version: own(SDK_VERSION),
                    meter_record_count: match metering_ref {
                        Some(m) => m.records.len(),
                        None => 0,
                    },
                    settlement_line_count: 0,
                    steps,
                }
            },
        };
        let statuses = [
            pack_report.status,
            chain_report.status,
            metering_report.status,
            settlement_report.status,
        ];
        let status = rollup_overall(&statuses);
        assert(statuses@ =~= seq![
            pack_report.status,
            chain_report.status,
            metering_report.status,
            settlement_report.status,
        ]);
        proof {
            lemma_overall_of_four(
                pack_report.status,
                chain_report.status,
                metering_report.status,
                settlement_report.status,
            );
        }
        FullAuditReport {
            status,
            pack_id: pack_report.pack_id.clone(),
            org_id: pack_report.org_id.clone(),
            verified_at,
            sdk_version: own(SDK_VERSION),
            keys_snapshot: self.keys_snapshot(),
            pack: pack_report,
            chain: chain_report,
            metering: metering_report,
            settlement: settlement_report,
        }
    }
}

// ---------------------------------------------------------------------
// Laws
// ---------------------------------------------------------------------

/// A pack report is never SKIPPED: its record-count step is always VALID
/// or INVALID.
pub proof fn lemma_pack_never_skipped(pack: SignedProofPack, keys: Seq<VerificationKey>)
    ensures
        rollup(pack_steps(pack, keys)) != AuditStepStatus::Skipped,
{
    let steps = pack_steps(pack, keys);
    assert(steps[0] == record_count_sv(pack));
    assert(steps[0].status != AuditStepStatus::Skipped);
    assert(!all_skipped(steps));
}

/// Of the pack, chain, metering and settlement verdicts, with pack and
/// chain never SKIPPED, the overall verdict is VALID exactly when pack and
/// chain are VALID and neither metering nor settlement is INVALID, and it
/// is never SKIPPED.
pub proof fn lemma_overall_of_four(
    pack: AuditStepStatus,
    chain: AuditStepStatus,
    metering: AuditStepStatus,
    settlement: AuditStepStatus,
)
    requires
        pack != AuditStepStatus::Skipped,
        chain != AuditStepStatus::Skipped,
    ensures
        overall(seq![pack, chain, metering, settlement]) == AuditStepStatus::Valid <==> (pack
            == AuditStepStatus::Valid && chain == AuditStepStatus::Valid && metering
            != AuditStepStatus::Invalid && settlement != AuditStepStatus::Invalid),
        overall(seq![pack, chain, metering, settlement]) != AuditStepStatus::Skipped,
{
    let s = seq![pack, chain, metering, settlement];
    assert(s[0] == pack && s[1] == chain && s[2] == metering && s[3] == settlement);
    if pack == AuditStepStatus::Valid && chain == AuditStepStatus::Valid && metering
        != AuditStepStatus::Invalid && settlement != AuditStepStatus::Invalid {
        assert forall|i: int| 0 <= i < s.len() implies s[i] != AuditStepStatus::Invalid by {
            assert(i == 0 || i == 1 || i == 2 || i == 3);
        }
    }
}

/// Chaining across packs (what `verify_all` checks with and without
/// `prior_after_hash`): for a later pack whose first record's `beforeHash`
/// is the earlier pack's tail `afterHash`, the chain audit without the
/// tail reports the genesis step INVALID and the chain INVALID; with the
/// tail it reports the genesis step VALID, and the chain is VALID exactly
/// when the chain is intact from that anchor.
pub proof fn lemma_prior_tail_anchors_later_pack(records: Seq<ProofRecord>, tail: Seq<char>)
    requires
        records.len() > 0,
        opt_view(records[0].before_hash) == Some(tail),
    ensures
        proof_chain_steps(records, None)[0].status == AuditStepStatus::Invalid,
        invalid_or_valid(proof_chain_steps(records, None)) == AuditStepStatus::Invalid,
        !proof_chain_intact(records, None),
        proof_chain_steps(records, Some(tail))[0].status == AuditStepStatus::Valid,
        invalid_or_valid(proof_chain_steps(records, Some(tail))) == AuditStepStatus::Valid
            <==> proof_chain_intact(records, Some(tail)),
{
    let without = proof_chain_steps(records, None);
    assert(without[0].status == AuditStepStatus::Invalid);
    assert(any_invalid(without));
    lemma_proof_chain_status(records, None);
    lemma_proof_chain_status(records, Some(tail));
}

/// The two calls of `verify_all` on a later pack with no metering or
/// settlement summary, whose first record's `beforeHash` is the earlier
/// pack's tail `afterHash`: without the tail the overall verdict is
/// INVALID; with it the overall verdict is VALID exactly when the pack
/// audit is VALID (its signatures and hashes verify) and the chain is
/// intact from that anchor.
pub proof fn lemma_verify_all_across_two_packs(pack: SignedProofPack, keys: Seq<VerificationKey>, tail: Seq<char>)
    requires
        pack.records@.len() > 0,
        opt_view(pack.records@[0].before_hash) == Some(tail),
    ensures
        overall(
            seq![
                rollup(pack_steps(pack, keys)),
                invalid_or_valid(proof_chain_steps(pack.records@, None)),
                AuditStepStatus::Skipped,
                AuditStepStatus::Skipped,
            ],
        ) == AuditStepStatus::Invalid,
        overall(
            seq![
                rollup(pack_steps(pack, keys)),
                invalid_or_valid(proof_chain_steps(pack.records@, Some(tail))),
                AuditStepStatus::Skipped,
                AuditStepStatus::Skipped,
            ],
        ) == AuditStepStatus::Valid <==> (rollup(pack_steps(pack, keys)) == AuditStepStatus::Valid
            && proof_chain_intact(pack.records@, Some(tail))),
{
    lemma_pack_never_skipped(pack, keys);
    lemma_prior_tail_anchors_later_pack(pack.records@, tail);
    let p = rollup(pack_steps(pack, keys));
    let without = invalid_or_valid(proof_chain_steps(pack.records@, None));
    let with = invalid_or_valid(proof_chain_steps(pack.records@, Some(tail)));
    lemma_overall_of_four(p, without, AuditStepStatus::Skipped, AuditStepStatus::Skipped);
    lemma_overall_of_four(p, with, AuditStepStatus::Skipped, AuditStepStatus::Skipped);
    let s = seq![p, without, AuditStepStatus::Skipped, AuditStepStatus::Skipped];
    assert(s[1] == AuditStepStatus::Invalid);
}

proof fn lemma_record_steps_in_walk(records: Seq<ProofRecord>, k: nat, i: int, keys: Seq<VerificationKey>)
    requires
        0 <= i < k <= records.len(),
    ensures
        pack_record_walk(records, i as nat, keys).len() + proof_record_steps(records[i], i as nat, keys).len()
            <= pack_record_walk(records, k, keys).len(),
        forall|t: int|
            0 <= t < proof_record_steps(records[i], i as nat, keys).len() ==> pack_record_walk(records, k, keys)[
                pack_record_walk(records, i as nat, keys).len() + t]
                == #[trigger] proof_record_steps(records[i], i as nat, keys)[t],
    decreases k,
{
    if k > i + 1 {
        lemma_record_steps_in_walk(records, (k - 1) as nat, i, keys);
    }
}

/// Every record's `afterHash` is checked against the SHA-256 hex of the
/// record's own canonical payload: the pack report holds a step at
/// `record[<i>].afterHash` that is VALID exactly when the two are equal,
/// and otherwise INVALID with `AfterHashMismatch`.
#[verifier::rlimit(60)]
pub proof fn lemma_after_hash_is_checked(pack: SignedProofPack, keys: Seq<VerificationKey>, i: int)
    requires
        0 <= i < pack.records@.len(),
    ensures
        ({
            let steps = pack_steps(pack, keys);
            let r = pack.records@[i];
            exists|q: int|
                0 <= q < steps.len() && #[trigger] steps[q].target == record_target(i as nat, "].afterHash"@)
                    && (steps[q].status == AuditStepStatus::Valid <==> r.after_hash@ == sha256_hex_of(
                    proof_payload_canonical(r.payload),
                )) && (steps[q].status != AuditStepStatus::Valid ==> steps[q].status
                    == AuditStepStatus::Invalid && steps[q].reason == Some(AuditReasonCode::AfterHashMismatch))
        }),
{
    let records = pack.records@;
    let n = records.len();
    lemma_record_steps_in_walk(records, n, i, keys);
    let walk = pack_record_walk(records, n, keys);
    let before = pack_record_walk(records, i as nat, keys).len() as int;
    let rs = proof_record_steps(records[i], i as nat, keys);
    assert(rs[1] == after_hash_step(records[i], i as nat));
    assert(walk[before + 1] == rs[1]);
    let head = seq![record_count_sv(pack)] + envelope_version_steps(pack);
    let hl = head.len() as int;
    let steps = pack_steps(pack, keys);
    assert(steps == head + walk);
    let q = hl + before + 1;
    assert(steps[q] == after_hash_step(records[i], i as nat));
    crate::proof_pack::lemma_after_hash_step(records[i], i as nat);
    assert(0 <= q < steps.len());
}

/// A VALID pack report means that every record's `afterHash` is the
/// SHA-256 hex of its canonical payload.
pub proof fn lemma_valid_pack_has_true_hashes(pack: SignedProofPack, keys: Seq<VerificationKey>)
    requires
        rollup(pack_steps(pack, keys)) == AuditStepStatus::Valid,
    ensures
        forall|i: int|
            0 <= i < pack.records@.len() ==> (#[trigger] pack.records@[i]).after_hash@ == sha256_hex_of(
                proof_payload_canonical(pack.records@[i].payload),
            ),
{
    let steps = pack_steps(pack, keys);
    assert(!any_invalid(steps));
    assert forall|i: int| 0 <= i < pack.records@.len() implies (#[trigger] pack.records@[i]).after_hash@
        == sha256_hex_of(proof_payload_canonical(pack.records@[i].payload)) by {
        lemma_after_hash_is_checked(pack, keys, i);
        let q = choose|q: int|
            0 <= q < steps.len() && #[trigger] steps[q].target == record_target(i as nat, "].afterHash"@)
                && (steps[q].status == AuditStepStatus::Valid <==> pack.records@[i].after_hash@
                == sha256_hex_of(proof_payload_canonical(pack.records@[i].payload))) && (steps[q].status
                != AuditStepStatus::Valid ==> steps[q].status == AuditStepStatus::Invalid && steps[q].reason
                == Some(AuditReasonCode::AfterHashMismatch));
        assert(steps[q].status != AuditStepStatus::Invalid);
    }
}

} // verus!
