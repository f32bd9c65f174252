//! Wire and domain types: verification keys, proof packs, metering and
//! settlement summaries, provenance records, audit steps and reports.
//!
//! Map-shaped wire fields (`totals`, `meterGross`) are [`TextMap`]s: each
//! key once, entries in ascending key order.

use vstd::prelude::*;
use crate::text_map::TextMap;

verus! {

/// SDK version stamped onto every audit report.
pub const SDK_VERSION: &'static str = "0.0.4";

/// The one envelope version proof packs may carry.
pub const ENVELOPE_V1: &'static str = "envelope.v1";

/// The one signature algorithm the SDK understands.
pub const ED25519: &'static str = "ed25519";

/// An envelope version tag, such as `envelope.v1`.
pub type EnvelopeVersion = String;

/// A signature algorithm identifier, such as `ed25519`.
pub type SignatureAlgorithm = String;

// ---------------------------------------------------------------------
// Verification keys
// ---------------------------------------------------------------------

/// One of N public keys the platform may have used to sign records.
#[derive(Clone, Debug)]
pub struct VerificationKey {
    pub key_id: String,
    pub algorithm: String,
    pub public_key: String,
    pub not_before: String,
    pub not_after: Option<String>,
    pub revoked_at: Option<String>,
    pub purpose: Option<String>,
}

/// Wire envelope of `/v1/runtime-keys`.
#[derive(Clone, Debug)]
pub struct RuntimeKeysResponse {
    pub ok: bool,
    pub contract_version: String,
    pub data: RuntimeKeysData,
}

#[derive(Clone, Debug)]
pub struct RuntimeKeysData {
    pub keys: Vec<VerificationKey>,
    pub issued_at: String,
    pub snapshot_id: Option<String>,
}

// ---------------------------------------------------------------------
// Proof pack
// ---------------------------------------------------------------------

/// Exactly the shape platform proof receipts emit, version "1".
#[derive(Clone, Debug)]
pub struct ProofReceiptPayload {
    pub version: String,
    pub receipt_id: String,
    pub correlation_id: Option<String>,
    pub spatial_anchor_id: String,
    pub spatial_placement_id: Option<String>,
    pub issued_at: String,
    pub rendered_at: String,
    pub dwell_ms: i64,
    pub nonce: String,
    pub witness: Option<String>,
}

/// A single signed receipt + provenance chain fields.
#[derive(Clone, Debug)]
pub struct ProofRecord {
    pub payload: ProofReceiptPayload,
    pub key_id: String,
    pub algorithm: String,
    pub signature: String,
    pub payload_canonical: String,
    pub before_hash: Option<String>,
    pub after_hash: String,
}

#[derive(Clone, Copy, Debug, PartialEq, Eq, Structural, Hash)]
pub enum MeterUnitType {
    DwellSeconds,
    ImpressionInPlace,
    AttentionSeconds,
    OccupancyWeightedExposure,
    CompliantDeliveryMinute,
    Custom,
}

pub open spec fn meter_unit_wire(u: MeterUnitType) -> Seq<char> {
    match u {
        MeterUnitType::DwellSeconds => "DWELL_SECONDS"@,
        MeterUnitType::ImpressionInPlace => "IMPRESSION_IN_PLACE"@,
        MeterUnitType::AttentionSeconds => "ATTENTION_SECONDS"@,
        MeterUnitType::OccupancyWeightedExposure => "OCCUPANCY_WEIGHTED_EXPOSURE"@,
        MeterUnitType::CompliantDeliveryMinute => "COMPLIANT_DELIVERY_MINUTE"@,
        MeterUnitType::Custom => "CUSTOM"@,
    }
}

/// The variant name, as `{:?}` prints it.
pub open spec fn meter_unit_debug(u: MeterUnitType) -> Seq<char> {
    match u {
        MeterUnitType::DwellSeconds => "DwellSeconds"@,
        MeterUnitType::ImpressionInPlace => "ImpressionInPlace"@,
        MeterUnitType::AttentionSeconds => "AttentionSeconds"@,
        MeterUnitType::OccupancyWeightedExposure => "OccupancyWeightedExposure"@,
        MeterUnitType::CompliantDeliveryMinute => "CompliantDeliveryMinute"@,
        MeterUnitType::Custom => "Custom"@,
    }
}

impl MeterUnitType {
    /// The wire spelling of the unit type.
    pub fn as_wire_str(&self) -> (r: &'static str)
        ensures
            r@ == meter_unit_wire(*self),
    {
        match self {
            MeterUnitType::DwellSeconds => "DWELL_SECONDS",
            MeterUnitType::ImpressionInPlace => "IMPRESSION_IN_PLACE",
            MeterUnitType::AttentionSeconds => "ATTENTION_SECONDS",
            MeterUnitType::OccupancyWeightedExposure => "OCCUPANCY_WEIGHTED_EXPOSURE",
            MeterUnitType::CompliantDeliveryMinute => "COMPLIANT_DELIVERY_MINUTE",
            MeterUnitType::Custom => "CUSTOM",
        }
    }

    /// The variant name.
    pub fn debug_name(&self) -> (r: &'static str)
        ensures
            r@ == meter_unit_debug(*self),
    {
        match self {
            MeterUnitType::DwellSeconds => "DwellSeconds",
            MeterUnitType::ImpressionInPlace => "ImpressionInPlace",
            MeterUnitType::AttentionSeconds => "AttentionSeconds",
            MeterUnitType::OccupancyWeightedExposure => "OccupancyWeightedExposure",
            MeterUnitType::CompliantDeliveryMinute => "CompliantDeliveryMinute",
            MeterUnitType::Custom => "Custom",
        }
    }
}

#[derive(Clone, Copy, Debug, PartialEq, Eq, Structural)]
pub enum MeterStatus {
    Projected,
    Accepted,
    Settled,
    Void,
}

#[derive(Clone, Debug)]
pub struct MeterRecord {
    pub idem_key: String,
    pub proof_receipt_id: String,
    pub unit_type: MeterUnitType,
    pub unit_count: String,
    pub weight: String,
    pub spatial_anchor_id: String,
    pub spatial_placement_id: Option<String>,
    pub observed_at: String,
    pub status: MeterStatus,
}

#[derive(Clone, Debug)]
pub struct MeteringSummary {
    pub schema_version: String,
    pub org_id: String,
    pub period_start: String,
    pub period_end: String,
    pub records: Vec<MeterRecord>,
    /// Claimed totals, decimal per unit type.
    pub totals: Option<TextMap<String>>,
}

#[derive(Clone, Copy, Debug, PartialEq, Eq, Structural)]
pub enum SettlementPartyRole {
    Tenant,
    Venue,
    Customer,
    Platform,
    Agency,
    Affiliate,
    Reseller,
    TaxAuthority,
}

pub open spec fn party_role_wire(r: SettlementPartyRole) -> Seq<char> {
    match r {
        SettlementPartyRole::Tenant => "TENANT"@,
        SettlementPartyRole::Venue => "VENUE"@,
        SettlementPartyRole::Customer => "CUSTOMER"@,
        SettlementPartyRole::Platform => "PLATFORM"@,
        SettlementPartyRole::Agency => "AGENCY"@,
        SettlementPartyRole::Affiliate => "AFFILIATE"@,
        SettlementPartyRole::Reseller => "RESELLER"@,
        SettlementPartyRole::TaxAuthority => "TAX_AUTHORITY"@,
    }
}

impl SettlementPartyRole {
    /// The wire spelling of the party role.
    pub fn as_wire_str(&self) -> (r: &'static str)
        ensures
            r@ == party_role_wire(*self),
    {
        match self {
            SettlementPartyRole::Tenant => "TENANT",
            SettlementPartyRole::Venue => "VENUE",
            SettlementPartyRole::Customer => "CUSTOMER",
            SettlementPartyRole::Platform => "PLATFORM",
            SettlementPartyRole::Agency => "AGENCY",
            SettlementPartyRole::Affiliate => "AFFILIATE",
            SettlementPartyRole::Reseller => "RESELLER",
            SettlementPartyRole::TaxAuthority => "TAX_AUTHORITY",
        }
    }
}

#[derive(Clone, Copy, Debug, PartialEq, Eq, Structural)]
pub enum SettlementStatus {
    Projected,
    Accepted,
    Posted,
    Void,
}

#[derive(Clone, Debug)]
pub struct SettlementLine {
    pub idem_key: String,
    pub meter_record_idem_key: String,
    pub party_role: SettlementPartyRole,
    pub share: String,
    pub ledger_account_code: String,
    pub amount_cents: i64,
    pub currency: String,
    pub status: SettlementStatus,
}

#[derive(Clone, Copy, Debug, PartialEq, Eq, Structural)]
pub struct SettlementTotals {
    pub gross_cents: i64,
    pub net_to_tenant_cents: i64,
    pub platform_fee_cents: i64,
}

#[derive(Clone, Debug)]
pub struct SettlementSummary {
    pub schema_version: String,
    pub org_id: String,
    pub period_start: String,
    pub period_end: String,
    pub currency: String,
    /// Gross cents per meter idem key.
    pub meter_gross: TextMap<i64>,
    pub lines: Vec<SettlementLine>,
    pub totals: Option<SettlementTotals>,
}

#[derive(Clone, Debug)]
pub struct SignedProofPack {
    pub envelope_version: String,
    pub issued_at: String,
    pub org_id: String,
    pub pack_id: String,
    pub label: Option<String>,
    pub records: Vec<ProofRecord>,
    pub metering: Option<MeteringSummary>,
    pub settlement: Option<SettlementSummary>,
}

#[derive(Clone, Debug)]
pub struct ProofPack {
    pub envelope_version: String,
    pub issued_at: String,
    pub org_id: String,
    pub pack_id: String,
    pub records: Vec<ProofRecord>,
}

#[derive(Clone, Debug)]
pub struct AuditBundle {
    pub pack: SignedProofPack,
    pub metering: Option<MeteringSummary>,
    pub settlement: Option<SettlementSummary>,
    /// The previous pack's tail `afterHash` when this pack continues a
    /// tenant's chain; `None` for a standalone or first pack.
    pub prior_after_hash: Option<String>,
}

// ---------------------------------------------------------------------
// Rights provenance
// ---------------------------------------------------------------------

/// One rights-provenance ledger row as the platform's proof surface
/// emits it.
#[derive(Clone, Debug)]
pub struct ProvenanceRecord {
    pub proof_id: String,
    pub org_id: String,
    pub provenance_event_type: String,
    pub occurred_at: String,
    pub right_id: Option<String>,
    pub basis_id: Option<String>,
    pub offer_id: Option<String>,
    pub provenance_before_hash: Option<String>,
    pub provenance_after_hash: Option<String>,
    pub signature_algorithm: String,
    pub signature: String,
    pub signer_key_id: String,
    pub payload_canonical: Option<String>,
}

// ---------------------------------------------------------------------
// Reports
// ---------------------------------------------------------------------

#[derive(Clone, Copy, Debug, PartialEq, Eq, Structural)]
pub enum AuditStepStatus {
    Valid,
    Invalid,
    Skipped,
}

#[derive(Clone, Copy, Debug, PartialEq, Eq, Structural)]
pub enum AuditStepKind {
    Envelope,
    Signature,
    Canonicalisation,
    ChainLink,
    MeterProjection,
    MeterTotal,
    SettlementLine,
    SettlementTotal,
    KeyLookup,
    ProvenanceSignature,
}

/// Reason codes are enumerable and stable across SDK releases.
#[derive(Clone, Copy, Debug, PartialEq, Eq, Structural)]
pub enum AuditReasonCode {
    // Envelope / pack-level
    UnsupportedEnvelopeVersion,
    MalformedPack,
    EmptyPack,
    PackOrgMismatch,
    UnsupportedAlgorithm,
    // Signature
    SignatureInvalid,
    SignatureMalformed,
    UnknownKeyId,
    KeyOutsideValidityWindow,
    KeyRevokedBeforeIssuance,
    // Canonicalisation
    PayloadCanonicalMismatch,
    AfterHashMismatch,
    // Chain
    GenesisBeforeHashNotNull,
    ChainLinkMismatch,
    ChainOutOfOrder,
    ChainNonceReused,
    // Metering
    MeterRecordForUnknownProof,
    MeterUnitCountMismatch,
    MeterIdemKeyMismatch,
    MeterTotalMismatch,
    MeterOrgMismatch,
    // Settlement
    SettlementLineForUnknownMeter,
    SettlementShareSumNotOne,
    SettlementAmountMismatch,
    SettlementIdemKeyMismatch,
    SettlementTotalMismatch,
    SettlementOrgMismatch,
    // Keys
    KeysFetchFailed,
    KeysResponseMalformed,
    // Rights provenance
    ProvenanceSignatureInvalid,
    ProvenanceSignatureMalformed,
    ProvenanceCanonicalMismatch,
    ProvenanceUnsignedRecord,
    ProvenanceOrgMismatch,
    // Signed exports
    ExportPayloadHashMismatch,
}

/// One value of a step's structured detail.
#[derive(Clone, Debug)]
pub enum DetailValue {
    Null,
    Text(String),
    Integer(i128),
}

/// One `key: value` entry of a step's structured detail.
#[derive(Clone, Debug)]
pub struct DetailEntry {
    pub key: String,
    pub value: DetailValue,
}

#[derive(Clone, Debug)]
pub struct AuditStep {
    pub target: String,
    pub kind: AuditStepKind,
    pub status: AuditStepStatus,
    pub reason: Option<AuditReasonCode>,
    pub message: String,
    pub detail: Option<Vec<DetailEntry>>,
}

/// A detail value taken by content.
pub enum DetailView {
    Null,
    Text(Seq<char>),
    Integer(int),
}

/// An audit step taken by content.
pub struct StepView {
    pub target: Seq<char>,
    pub kind: AuditStepKind,
    pub status: AuditStepStatus,
    pub reason: Option<AuditReasonCode>,
    pub message: Seq<char>,
    pub detail: Option<Seq<(Seq<char>, DetailView)>>,
}

pub open spec fn detail_value_view(v: DetailValue) -> DetailView {
    match v {
        DetailValue::Null => DetailView::Null,
        DetailValue::Text(s) => DetailView::Text(s@),
        DetailValue::Integer(i) => DetailView::Integer(i as int),
    }
}

pub open spec fn detail_view(d: Option<Vec<DetailEntry>>) -> Option<Seq<(Seq<char>, DetailView)>> {
    match d {
        Some(v) => Some(v@.map_values(|e: DetailEntry| (e.key@, detail_value_view(e.value)))),
        None => None,
    }
}

pub open spec fn step_view(s: AuditStep) -> StepView {
    StepView {
        target: s.target@,
        kind: s.kind,
        status: s.status,
        reason: s.reason,
        message: s.message@,
        detail: detail_view(s.detail),
    }
}

/// A sequence of steps taken by content.
pub open spec fn steps_view(v: Seq<AuditStep>) -> Seq<StepView> {
    v.map_values(|s: AuditStep| step_view(s))
}

pub open spec fn valid_sv(target: Seq<char>, kind: AuditStepKind, message: Seq<char>) -> StepView {
    StepView {
        target,
        kind,
        status: AuditStepStatus::Valid,
        reason: None,
        message,
        detail: None,
    }
}

pub open spec fn invalid_sv(
    target: Seq<char>,
    kind: AuditStepKind,
    reason: AuditReasonCode,
    message: Seq<char>,
    detail: Option<Seq<(Seq<char>, DetailView)>>,
) -> StepView {
    StepView {
        target,
        kind,
        status: AuditStepStatus::Invalid,
        reason: Some(reason),
        message,
        detail,
    }
}

/// `{ k1: v1, k2: v2 }` as detail.
pub open spec fn detail2(k1: Seq<char>, v1: DetailView, k2: Seq<char>, v2: DetailView) -> Option<
    Seq<(Seq<char>, DetailView)>,
> {
    Some(seq![(k1, v1), (k2, v2)])
}

/// A text-or-null detail value.
pub open spec fn opt_text(o: Option<Seq<char>>) -> DetailView {
    match o {
        Some(s) => DetailView::Text(s),
        None => DetailView::Null,
    }
}

/// Some step is INVALID.
pub open spec fn any_invalid(steps: Seq<StepView>) -> bool {
    exists|i: int| 0 <= i < steps.len() && #[trigger] steps[i].status == AuditStepStatus::Invalid
}

/// Some step is VALID.
pub open spec fn any_valid(steps: Seq<StepView>) -> bool {
    exists|i: int| 0 <= i < steps.len() && #[trigger] steps[i].status == AuditStepStatus::Valid
}

/// INVALID if any step is, VALID otherwise.
pub open spec fn invalid_or_valid(steps: Seq<StepView>) -> AuditStepStatus {
    if any_invalid(steps) {
        AuditStepStatus::Invalid
    } else {
        AuditStepStatus::Valid
    }
}

/// A concatenation holds an INVALID step exactly when a part does.
pub proof fn lemma_any_invalid_concat(a: Seq<StepView>, b: Seq<StepView>)
    ensures
        any_invalid(a + b) == (any_invalid(a) || any_invalid(b)),
{
    let all = a + b;
    if any_invalid(all) {
        let j = choose|j: int| 0 <= j < all.len() && #[trigger] all[j].status == AuditStepStatus::Invalid;
        if j < a.len() {
            assert(all[j] == a[j]);
        } else {
            assert(all[j] == b[j - a.len()]);
        }
    }
    if any_invalid(a) {
        let j = choose|j: int| 0 <= j < a.len() && #[trigger] a[j].status == AuditStepStatus::Invalid;
        assert(all[j] == a[j]);
    }
    if any_invalid(b) {
        let j = choose|j: int| 0 <= j < b.len() && #[trigger] b[j].status == AuditStepStatus::Invalid;
        assert(all[j + a.len()] == b[j]);
    }
}

/// A single step is INVALID exactly when it says so.
pub proof fn lemma_any_invalid_single(s: StepView)
    ensures
        any_invalid(seq![s]) == (s.status == AuditStepStatus::Invalid),
{
    if s.status == AuditStepStatus::Invalid {
        assert(seq![s][0] == s);
    }
}

/// No step is SKIPPED.
pub open spec fn none_skipped(steps: Seq<StepView>) -> bool {
    forall|i: int| 0 <= i < steps.len() ==> #[trigger] steps[i].status != AuditStepStatus::Skipped
}

/// A concatenation has no SKIPPED step when neither part has one.
pub proof fn lemma_none_skipped_concat(a: Seq<StepView>, b: Seq<StepView>)
    requires
        none_skipped(a),
        none_skipped(b),
    ensures
        none_skipped(a + b),
{
    assert forall|i: int| 0 <= i < (a + b).len() implies #[trigger] (a + b)[i].status
        != AuditStepStatus::Skipped by {
        if i < a.len() {
            assert((a + b)[i] == a[i]);
        } else {
            assert((a + b)[i] == b[i - a.len()]);
        }
    }
}

#[derive(Clone, Debug)]
pub struct KeysSnapshot {
    pub source: String,
    pub snapshot_id: Option<String>,
    pub key_count: usize,
    pub key_ids: Vec<String>,
}

#[derive(Clone, Debug)]
pub struct AuditReport {
    pub status: AuditStepStatus,
    pub pack_id: String,
    pub org_id: String,
    pub verified_at: String,
    pub sdk_version: String,
    pub envelope_version: String,
    pub keys_snapshot: KeysSnapshot,
    pub steps: Vec<AuditStep>,
}

#[derive(Clone, Debug)]
pub struct ChainAuditReport {
    pub status: AuditStepStatus,
    pub verified_at: String,
    pub sdk_version: String,
    pub record_count: usize,
    pub steps: Vec<AuditStep>,
}

#[derive(Clone, Debug)]
pub struct ProjectionAuditReport {
    pub status: AuditStepStatus,
    pub verified_at: String,
    pub sdk_version: String,
    pub proof_record_count: usize,
    pub meter_record_count: usize,
    pub steps: Vec<AuditStep>,
}

#[derive(Clone, Debug)]
pub struct SettlementAuditReport {
    pub status: AuditStepStatus,
    pub verified_at: String,
    pub sdk_version: String,
    pub meter_record_count: usize,
    pub settlement_line_count: usize,
    pub steps: Vec<AuditStep>,
}

#[derive(Clone, Debug)]
pub struct ProvenanceAuditReport {
    pub status: AuditStepStatus,
    pub verified_at: String,
    pub sdk_version: String,
    pub record_count: usize,
    pub signed_record_count: usize,
    pub unsigned_record_count: usize,
    pub steps: Vec<AuditStep>,
}

#[derive(Clone, Debug)]
pub struct FullAuditReport {
    pub status: AuditStepStatus,
    pub pack_id: String,
    pub org_id: String,
    pub verified_at: String,
    pub sdk_version: String,
    pub keys_snapshot: KeysSnapshot,
    pub pack: AuditReport,
    pub chain: ChainAuditReport,
    pub metering: ProjectionAuditReport,
    pub settlement: SettlementAuditReport,
}

// ---------------------------------------------------------------------
// Building steps
// ---------------------------------------------------------------------

/// A VALID step with no reason and no detail.
pub fn valid_step(target: String, kind: AuditStepKind, message: String) -> (r: AuditStep)
    ensures
        step_view(r) == valid_sv(target@, kind, message@),
{
    AuditStep {
        target,
        kind,
        status: AuditStepStatus::Valid,
        reason: None,
        message,
        detail: None,
    }
}

/// An INVALID step with its reason.
pub fn invalid_step(
    target: String,
    kind: AuditStepKind,
    reason: AuditReasonCode,
    message: String,
    detail: Option<Vec<DetailEntry>>,
) -> (r: AuditStep)
    ensures
        step_view(r) == invalid_sv(target@, kind, reason, message@, detail_view(detail)),
{
    AuditStep { target, kind, status: AuditStepStatus::Invalid, reason: Some(reason), message, detail }
}

/// `{ k1: v1, k2: v2 }`.
pub fn detail_pair(k1: &str, v1: DetailValue, k2: &str, v2: DetailValue) -> (r: Option<
    Vec<DetailEntry>,
>)
    ensures
        detail_view(r) == detail2(k1@, detail_value_view(v1), k2@, detail_value_view(v2)),
{
    let mut v: Vec<DetailEntry> = Vec::new();
    v.push(DetailEntry { key: k1.to_string(), value: v1 });
    v.push(DetailEntry { key: k2.to_string(), value: v2 });
    let r = Some(v);
    proof {
        assert(detail_view(r)->0 =~= seq![(k1@, detail_value_view(v1)), (k2@, detail_value_view(v2))]);
    }
    r
}

/// A text-or-null detail value.
pub fn opt_text_value(o: &Option<String>) -> (r: DetailValue)
    ensures
        detail_value_view(r) == opt_text(crate::text::opt_view(*o)),
{
    match o {
        Some(s) => DetailValue::Text(s.clone()),
        None => DetailValue::Null,
    }
}

/// Whether any step is INVALID.
pub fn has_invalid(steps: &Vec<AuditStep>) -> (r: bool)
    ensures
        r == any_invalid(steps_view(steps@)),
{
    let mut i: usize = 0;
    while i < steps.len()
        invariant
            0 <= i <= steps@.len(),
            forall|j: int| 0 <= j < i ==> steps@[j].status != AuditStepStatus::Invalid,
        decreases steps@.len() - i,
    {
        if steps[i].status == AuditStepStatus::Invalid {
            assert(steps_view(steps@)[i as int].status == AuditStepStatus::Invalid);
            return true;
        }
        i = i + 1;
    }
    proof {
        if any_invalid(steps_view(steps@)) {
            let j = choose|j: int|
                0 <= j < steps_view(steps@).len() && #[trigger] steps_view(steps@)[j].status
                    == AuditStepStatus::Invalid;
            assert(steps@[j].status == AuditStepStatus::Invalid);
        }
    }
    false
}

/// Whether any step is VALID.
pub fn has_valid(steps: &Vec<AuditStep>) -> (r: bool)
    ensures
        r == any_valid(steps_view(steps@)),
{
    let mut i: usize = 0;
    while i < steps.len()
        invariant
            0 <= i <= steps@.len(),
            forall|j: int| 0 <= j < i ==> steps@[j].status != AuditStepStatus::Valid,
        decreases steps@.len() - i,
    {
        if steps[i].status == AuditStepStatus::Valid {
            assert(steps_view(steps@)[i as int].status == AuditStepStatus::Valid);
            return true;
        }
        i = i + 1;
    }
    proof {
        if any_valid(steps_view(steps@)) {
            let j = choose|j: int|
                0 <= j < steps_view(steps@).len() && #[trigger] steps_view(steps@)[j].status
                    == AuditStepStatus::Valid;
            assert(steps@[j].status == AuditStepStatus::Valid);
        }
    }
    false
}

/// Appends a step; the content view grows by that step.
pub fn push_step(steps: &mut Vec<AuditStep>, s: AuditStep)
    ensures
        steps_view(final(steps)@) == steps_view(old(steps)@).push(step_view(s)),
{
    steps.push(s);
    proof {
        assert(steps_view(steps@) =~= steps_view(old(steps)@).push(step_view(s)));
    }
}

/// Appends every step of `more`.
pub fn append_steps(steps: &mut Vec<AuditStep>, more: Vec<AuditStep>)
    ensures
        steps_view(final(steps)@) == steps_view(old(steps)@) + steps_view(more@),
{
    let ghost start = steps_view(steps@);
    let ghost all = more@;
    for s in it: more
        invariant
            it.seq() == all,
            steps_view(steps@) == start + steps_view(all.take(it.index() as int)),
    {
        proof {
            assert(all.take(it.index() + 1) =~= all.take(it.index() as int).push(s));
            assert(steps_view(all.take(it.index() + 1)) =~= steps_view(all.take(it.index() as int)).push(
                step_view(s),
            ));
        }
        push_step(steps, s);
    }
    assert(all.take(all.len() as int) =~= all);
}

} // verus!
