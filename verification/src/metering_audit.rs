//! Metering re-projection audit: every meter record is re-derived from the
//! proof receipt it cites, and the claimed totals from the records.

use vstd::prelude::*;
use crate::clock::now_rfc3339;
use crate::decimal::{
    div_toward_zero, format_scaled_decimal, parse_decimal_to_scaled, parse_scaled, scaled_text,
    trunc_div,
};
use crate::canonical_json::sort_keys::Keyed;
use crate::hashing::{meter_idem_key, meter_idem_key_of};
use crate::text_map::keyed_view;
use crate::text::{debug_quote, debug_quoted, decimal, i128_to_decimal, indexed, int_decimal, own};
use crate::types::{
    append_steps, detail2, detail_pair, has_invalid, invalid_or_valid, invalid_step, invalid_sv,
    meter_unit_debug, meter_unit_wire, push_step, steps_view, valid_step, valid_sv,
    AuditReasonCode, AuditStep, AuditStepKind, AuditStepStatus, DetailValue, DetailView,
    MeterRecord, MeterUnitType, MeteringSummary, ProjectionAuditReport, ProofRecord, StepView,
    SDK_VERSION,
};

verus! {

/// Fraction digits of every metering decimal.
pub const DECIMAL_PLACES: u32 = 6;

/// `10^DECIMAL_PLACES`.
pub open spec fn factor() -> int {
    1_000_000
}

/// The outcome of re-projecting a unit count.
pub enum Projection {
    /// The unit type has no projection rule.
    Unknown,
    /// An intermediate product leaves the 128-bit range.
    OutOfRange,
    /// The projected unit count, scaled by `10^6`.
    Value(int),
}

pub open spec fn fits_i128(v: int) -> bool {
    i128::MIN <= v <= i128::MAX
}

/// Dwell-based projection: `trunc(trunc(dwell_ms * 10^6 / per) * weight / 10^6)`.
pub open spec fn dwell_projection(dwell_ms: i64, weight_scaled: int, per: int) -> Projection {
    let dwell_scaled = trunc_div(dwell_ms * factor(), per);
    let product = dwell_scaled * weight_scaled;
    if fits_i128(product) {
        Projection::Value(trunc_div(product, factor()))
    } else {
        Projection::OutOfRange
    }
}

/// The deterministic projection of a proof's dwell time into units:
/// seconds of dwell for dwell, attention and occupancy units, minutes for
/// compliant delivery, the weight itself per impression; no rule for
/// custom units. Everything is scaled by `10^6`.
pub open spec fn project_units(dwell_ms: i64, weight_scaled: int, unit: MeterUnitType) -> Projection {
    match unit {
        MeterUnitType::DwellSeconds | MeterUnitType::AttentionSeconds
        | MeterUnitType::OccupancyWeightedExposure => dwell_projection(dwell_ms, weight_scaled, 1000),
        MeterUnitType::ImpressionInPlace => Projection::Value(weight_scaled),
        MeterUnitType::CompliantDeliveryMinute => dwell_projection(dwell_ms, weight_scaled, 60_000),
        MeterUnitType::Custom => Projection::Unknown,
    }
}

fn project_unit_count(dwell_ms: i64, weight_scaled: i128, unit_type: MeterUnitType) -> (r: (bool, i128))
    ensures
        match project_units(dwell_ms, weight_scaled as int, unit_type) {
            Projection::Unknown => !r.0 && r.1 == 0,
            Projection::OutOfRange => !r.0 && r.1 == 1,
            Projection::Value(v) => r.0 && r.1 == v,
        },
{
    let factor: i128 = 1_000_000;
    let per: i128 = match unit_type {
        MeterUnitType::DwellSeconds | MeterUnitType::AttentionSeconds
        | MeterUnitType::OccupancyWeightedExposure => 1000,
        MeterUnitType::CompliantDeliveryMinute => 60_000,
        MeterUnitType::ImpressionInPlace => {
            return (true, weight_scaled);
        },
        MeterUnitType::Custom => {
            return (false, 0);
        },
    };
    let dwell_scaled = div_toward_zero((dwell_ms as i128) * factor, per);
    assert(-10_000_000_000_000_000_000_000_000i128 <= dwell_scaled <= 10_000_000_000_000_000_000_000_000i128) by {
        assert(-9_300_000_000_000_000_000_000_000int <= dwell_ms * 1_000_000int <= 9_300_000_000_000_000_000_000_000int) by (nonlinear_arith)
            requires i64::MIN <= dwell_ms <= i64::MAX;
    }
    match dwell_scaled.checked_mul(weight_scaled) {
        Some(product) => (true, div_toward_zero(product, factor)),
        None => (false, 1),
    }
}

/// Index of the last proof whose receipt id is `id`, among the first `k`.
pub open spec fn find_proof(proofs: Seq<ProofRecord>, id: Seq<char>, k: nat) -> Option<int>
    decreases k,
{
    if k == 0 {
        None
    } else if proofs[k - 1].payload.receipt_id@ == id {
        Some(k - 1)
    } else {
        find_proof(proofs, id, (k - 1) as nat)
    }
}

/// `metering.records[<i>]<suffix>`.
pub open spec fn meter_target(i: nat, suffix: Seq<char>) -> Seq<char> {
    "metering.records["@ + decimal(i) + suffix
}

pub open spec fn meter_invalid(i: nat, suffix: Seq<char>, reason: AuditReasonCode, message: Seq<char>) -> StepView {
    invalid_sv(meter_target(i, suffix), AuditStepKind::MeterProjection, reason, message, None)
}

/// The idem-key step of a meter record whose proof is in the pack.
pub open spec fn idem_step(m: MeterRecord, i: nat) -> StepView {
    let expected = meter_idem_key_of(m.proof_receipt_id@, meter_unit_wire(m.unit_type));
    if expected != m.idem_key@ {
        invalid_sv(
            meter_target(i, "].idemKey"@),
            AuditStepKind::MeterProjection,
            AuditReasonCode::MeterIdemKeyMismatch,
            "idemKey on meter record does not equal sha256(proofReceiptId|unitType)"@,
            detail2("expected"@, DetailView::Text(expected), "actual"@, DetailView::Text(m.idem_key@)),
        )
    } else {
        valid_sv(
            meter_target(i, "].idemKey"@),
            AuditStepKind::MeterProjection,
            "idemKey matches sha256(proofReceiptId|unitType)"@,
        )
    }
}

/// The unit-count steps of a meter record whose proof is in the pack.
pub open spec fn unit_count_steps(p: ProofRecord, m: MeterRecord, i: nat) -> Seq<StepView> {
    match parse_scaled(m.weight@, 6) {
        None => seq![
            meter_invalid(
                i,
                "].weight"@,
                AuditReasonCode::MeterUnitCountMismatch,
                "weight value is not a valid decimal"@,
            ),
        ],
        Some(w) => match project_units(p.payload.dwell_ms, w, m.unit_type) {
            Projection::Unknown => seq![
                meter_invalid(
                    i,
                    "].unitCount"@,
                    AuditReasonCode::MeterUnitCountMismatch,
                    "unit type "@ + meter_unit_debug(m.unit_type)
                        + " has no known projection — SDK build is older than the platform's policy table"@,
                ),
            ],
            Projection::OutOfRange => seq![
                meter_invalid(
                    i,
                    "].unitCount"@,
                    AuditReasonCode::MeterUnitCountMismatch,
                    "unitCount re-projection leaves the 128-bit range"@,
                ),
            ],
            Projection::Value(expected) => match parse_scaled(m.unit_count@, 6) {
                None => seq![
                    meter_invalid(
                        i,
                        "].unitCount"@,
                        AuditReasonCode::MeterUnitCountMismatch,
                        "unitCount value is not a valid decimal"@,
                    ),
                ],
                Some(actual) => if actual != expected {
                    seq![
                        invalid_sv(
                            meter_target(i, "].unitCount"@),
                            AuditStepKind::MeterProjection,
                            AuditReasonCode::MeterUnitCountMismatch,
                            "unitCount does not match deterministic re-projection from proof.dwellMs="@
                                + int_decimal(p.payload.dwell_ms as int) + " weight="@ + m.weight@
                                + " unitType="@ + meter_unit_debug(m.unit_type),
                            detail2(
                                "expected"@,
                                DetailView::Text(scaled_text(expected, 6)),
                                "actual"@,
                                DetailView::Text(m.unit_count@),
                            ),
                        ),
                    ]
                } else {
                    seq![
                        valid_sv(
                            meter_target(i, "].unitCount"@),
                            AuditStepKind::MeterProjection,
                            "unitCount re-projects exactly from proof"@,
                        ),
                    ]
                },
            },
        },
    }
}

/// Every step meter record `i` contributes.
pub open spec fn meter_record_steps(proofs: Seq<ProofRecord>, m: MeterRecord, i: nat) -> Seq<StepView> {
    match find_proof(proofs, m.proof_receipt_id@, proofs.len()) {
        None => seq![
            meter_invalid(
                i,
                "].proofReceiptId"@,
                AuditReasonCode::MeterRecordForUnknownProof,
                "meter record references proofReceiptId "@ + debug_quoted(m.proof_receipt_id@)
                    + " that is not in the proof pack"@,
            ),
        ],
        Some(j) => seq![idem_step(m, i)] + unit_count_steps(proofs[j], m, i),
    }
}

/// What a meter record adds to its unit type's total: its re-projected
/// count, when its proof is in the pack and its weight, projection and
/// claimed count are all usable.
pub open spec fn meter_contribution(proofs: Seq<ProofRecord>, m: MeterRecord) -> Option<int> {
    match find_proof(proofs, m.proof_receipt_id@, proofs.len()) {
        None => None,
        Some(j) => match parse_scaled(m.weight@, 6) {
            None => None,
            Some(w) => match project_units(proofs[j].payload.dwell_ms, w, m.unit_type) {
                Projection::Value(e) => if parse_scaled(m.unit_count@, 6) is Some {
                    Some(e)
                } else {
                    None
                },
                _ => None,
            },
        },
    }
}

pub open spec fn unit_index(u: MeterUnitType) -> int {
    match u {
        MeterUnitType::DwellSeconds => 0,
        MeterUnitType::ImpressionInPlace => 1,
        MeterUnitType::AttentionSeconds => 2,
        MeterUnitType::OccupancyWeightedExposure => 3,
        MeterUnitType::CompliantDeliveryMinute => 4,
        MeterUnitType::Custom => 5,
    }
}

/// Per-unit-type running totals after meter records `0..k`, indexed by
/// `unit_index`; `None` once a running total leaves the 128-bit range.
pub open spec fn totals_after(proofs: Seq<ProofRecord>, records: Seq<MeterRecord>, k: nat) -> Seq<Option<int>>
    decreases k,
{
    if k == 0 {
        seq![Some(0int), Some(0int), Some(0int), Some(0int), Some(0int), Some(0int)]
    } else {
        let prev = totals_after(proofs, records, (k - 1) as nat);
        let m = records[k - 1];
        match meter_contribution(proofs, m) {
            None => prev,
            Some(e) => {
                let u = unit_index(m.unit_type);
                prev.update(
                    u,
                    match prev[u] {
                        Some(v) => if fits_i128(v + e) {
                            Some(v + e)
                        } else {
                            None
                        },
                        None => None,
                    },
                )
            },
        }
    }
}

/// Steps of meter records `0..k`.
pub open spec fn meter_walk(proofs: Seq<ProofRecord>, records: Seq<MeterRecord>, k: nat) -> Seq<StepView>
    decreases k,
{
    if k == 0 {
        Seq::empty()
    } else {
        meter_walk(proofs, records, (k - 1) as nat) + meter_record_steps(proofs, records[k - 1], (k - 1) as nat)
    }
}

/// The unit type whose wire spelling is `key`.
pub open spec fn unit_named(key: Seq<char>) -> Option<MeterUnitType> {
    if key == meter_unit_wire(MeterUnitType::DwellSeconds) {
        Some(MeterUnitType::DwellSeconds)
    } else if key == meter_unit_wire(MeterUnitType::ImpressionInPlace) {
        Some(MeterUnitType::ImpressionInPlace)
    } else if key == meter_unit_wire(MeterUnitType::AttentionSeconds) {
        Some(MeterUnitType::AttentionSeconds)
    } else if key == meter_unit_wire(MeterUnitType::OccupancyWeightedExposure) {
        Some(MeterUnitType::OccupancyWeightedExposure)
    } else if key == meter_unit_wire(MeterUnitType::CompliantDeliveryMinute) {
        Some(MeterUnitType::CompliantDeliveryMinute)
    } else if key == meter_unit_wire(MeterUnitType::Custom) {
        Some(MeterUnitType::Custom)
    } else {
        None
    }
}

/// The recomputed total for a claimed key: the running total of the unit
/// type spelled `key`, zero for any other key.
pub open spec fn computed_total(totals: Seq<Option<int>>, key: Seq<char>) -> Option<int> {
    match unit_named(key) {
        Some(u) => totals[unit_index(u)],
        None => Some(0),
    }
}

/// The step for one claimed total; none when the claim is not a decimal.
pub open spec fn total_steps(totals: Seq<Option<int>>, key: Seq<char>, claimed: Seq<char>) -> Seq<StepView> {
    match parse_scaled(claimed, 6) {
        None => Seq::empty(),
        Some(c) => {
            let target = "metering.totals."@ + key;
            match computed_total(totals, key) {
                Some(v) => if c != v {
                    seq![
                        invalid_sv(
                            target,
                            AuditStepKind::MeterTotal,
                            AuditReasonCode::MeterTotalMismatch,
                            "claimed total for "@ + key + " does not match sum of per-record projections"@,
                            detail2("expected"@, DetailView::Text(scaled_text(v, 6)), "actual"@, DetailView::Text(claimed)),
                        ),
                    ]
                } else {
                    seq![
                        valid_sv(
                            target,
                            AuditStepKind::MeterTotal,
                            "claimed total for "@ + key + " matches sum of records"@,
                        ),
                    ]
                },
                None => seq![
                    invalid_sv(
                        target,
                        AuditStepKind::MeterTotal,
                        AuditReasonCode::MeterTotalMismatch,
                        "claimed total for "@ + key + " does not match sum of per-record projections"@,
                        detail2("expected"@, DetailView::Null, "actual"@, DetailView::Text(claimed)),
                    ),
                ],
            }
        },
    }
}

/// Steps of claimed totals `0..k`.
pub open spec fn totals_walk(totals: Seq<Option<int>>, claims: Seq<Keyed<String>>, k: nat) -> Seq<StepView>
    decreases k,
{
    if k == 0 {
        Seq::empty()
    } else {
        totals_walk(totals, claims, (k - 1) as nat) + total_steps(totals, claims[k - 1].0, claims[k - 1].1@)
    }
}

/// The org step, when the pack's org is given.
pub open spec fn meter_org_steps(metering: MeteringSummary, pack_org_id: Option<Seq<char>>) -> Seq<StepView> {
    match pack_org_id {
        None => Seq::empty(),
        Some(org) => if metering.org_id@ != org {
            seq![
                invalid_sv(
                    "metering.orgId"@,
                    AuditStepKind::MeterProjection,
                    AuditReasonCode::MeterOrgMismatch,
                    "metering.orgId "@ + debug_quoted(metering.org_id@) + " does not match pack.orgId "@
                        + debug_quoted(org),
                    None,
                ),
            ]
        } else {
            seq![
                valid_sv(
                    "metering.orgId"@,
                    AuditStepKind::MeterProjection,
                    "metering summary orgId matches pack"@,
                ),
            ]
        },
    }
}

/// Every step of a metering audit, in order: org parity, each meter
/// record, each claimed total.
pub open spec fn metering_steps(
    proofs: Seq<ProofRecord>,
    metering: MeteringSummary,
    pack_org_id: Option<Seq<char>>,
) -> Seq<StepView> {
    let records = metering.records@;
    let totals = totals_after(proofs, records, records.len());
    meter_org_steps(metering, pack_org_id) + meter_walk(proofs, records, records.len()) + match metering.totals {
        Some(claims) => totals_walk(totals, claims@, claims@.len()),
        None => Seq::empty(),
    }
}

// ---------------------------------------------------------------------
// Execution
// ---------------------------------------------------------------------

proof fn lemma_find_proof_bound(proofs: Seq<ProofRecord>, id: Seq<char>, k: nat)
    ensures
        find_proof(proofs, id, k) matches Some(j) ==> 0 <= j < k && proofs[j].payload.receipt_id@ == id,
    decreases k,
{
    if k > 0 {
        lemma_find_proof_bound(proofs, id, (k - 1) as nat);
    }
}

fn find_proof_index(proofs: &[ProofRecord], id: &str) -> (r: Option<usize>)
    ensures
        match r {
            Some(j) => find_proof(proofs@, id@, proofs@.len()) == Some(j as int) && j < proofs@.len(),
            None => find_proof(proofs@, id@, proofs@.len()) is None,
        },
{
    let mut k = proofs.len();
    while k > 0
        invariant
            k <= proofs@.len(),
            find_proof(proofs@, id@, proofs@.len()) == find_proof(proofs@, id@, k as nat),
        decreases k,
    {
        if crate::text::str_eq(proofs[k - 1].payload.receipt_id.as_str(), id) {
            return Some(k - 1);
        }
        k = k - 1;
    }
    None
}

fn invalid_meter(i: usize, suffix: &str, reason: AuditReasonCode, message: String) -> (r: AuditStep)
    ensures
        crate::types::step_view(r) == meter_invalid(i as nat, suffix@, reason, message@),
{
    invalid_step(indexed("metering.records[", i, suffix), AuditStepKind::MeterProjection, reason, message, None)
}

fn check_meter_record(proofs: &[ProofRecord], m: &MeterRecord, i: usize) -> (r: (Vec<AuditStep>, Option<i128>))
    ensures
        steps_view(r.0@) == meter_record_steps(proofs@, *m, i as nat),
        match meter_contribution(proofs@, *m) {
            Some(e) => r.1 == Some(e as i128) && fits_i128(e),
            None => r.1 is None,
        },
{
    let mut steps: Vec<AuditStep> = Vec::new();
    let j = match find_proof_index(proofs, m.proof_receipt_id.as_str()) {
        Some(j) => j,
        None => {
            let mut message = own("meter record references proofReceiptId ");
            let q = debug_quote(m.proof_receipt_id.as_str());
            message.append(q.as_str());
            message.append(" that is not in the proof pack");
            push_step(&mut steps, invalid_meter(i, "].proofReceiptId", AuditReasonCode::MeterRecordForUnknownProof, message));
            assert(steps_view(steps@) =~= meter_record_steps(proofs@, *m, i as nat));
            return (steps, None);
        },
    };
    let proof = &proofs[j];
    let unit_type_str = m.unit_type.as_wire_str();
    let expected_idem = meter_idem_key(m.proof_receipt_id.as_str(), unit_type_str);
    if expected_idem != m.idem_key {
        push_step(
            &mut steps,
            invalid_step(
                indexed("metering.records[", i, "].idemKey"),
                AuditStepKind::MeterProjection,
                AuditReasonCode::MeterIdemKeyMismatch,
                own("idemKey on meter record does not equal sha256(proofReceiptId|unitType)"),
                detail_pair("expected", DetailValue::Text(expected_idem), "actual", DetailValue::Text(m.idem_key.clone())),
            ),
        );
    } else {
        push_step(
            &mut steps,
            valid_step(
                indexed("metering.records[", i, "].idemKey"),
                AuditStepKind::MeterProjection,
                own("idemKey matches sha256(proofReceiptId|unitType)"),
            ),
        );
    }
    let ghost head = steps_view(steps@);
    assert(head =~= seq![idem_step(*m, i as nat)]);
    let weight_scaled = match parse_decimal_to_scaled(m.weight.as_str(), DECIMAL_PLACES) {
        Ok(v) => v,
        Err(_) => {
            push_step(&mut steps, invalid_meter(i, "].weight", AuditReasonCode::MeterUnitCountMismatch, own("weight value is not a valid decimal")));
            assert(steps_view(steps@) =~= meter_record_steps(proofs@, *m, i as nat));
            return (steps, None);
        },
    };
    let (known, expected) = project_unit_count(proof.payload.dwell_ms, weight_scaled, m.unit_type);
    if !known {
        if expected == 0 {
            let mut message = own("unit type ");
            message.append(m.unit_type.debug_name());
            message.append(" has no known projection — SDK build is older than the platform's policy table");
            push_step(&mut steps, invalid_meter(i, "].unitCount", AuditReasonCode::MeterUnitCountMismatch, message));
        } else {
            push_step(&mut steps, invalid_meter(i, "].unitCount", AuditReasonCode::MeterUnitCountMismatch, own("unitCount re-projection leaves the 128-bit range")));
        }
        assert(steps_view(steps@) =~= meter_record_steps(proofs@, *m, i as nat));
        return (steps, None);
    }
    let actual_scaled = match parse_decimal_to_scaled(m.unit_count.as_str(), DECIMAL_PLACES) {
        Ok(v) => v,
        Err(_) => {
            push_step(&mut steps, invalid_meter(i, "].unitCount", AuditReasonCode::MeterUnitCountMismatch, own("unitCount value is not a valid decimal")));
            assert(steps_view(steps@) =~= meter_record_steps(proofs@, *m, i as nat));
            return (steps, None);
        },
    };
    if actual_scaled != expected {
        let mut message = own("unitCount does not match deterministic re-projection from proof.dwellMs=");
        let d = i128_to_decimal(proof.payload.dwell_ms as i128);
        message.append(d.as_str());
        message.append(" weight=");
        message.append(m.weight.as_str());
        message.append(" unitType=");
        message.append(m.unit_type.debug_name());
        push_step(
            &mut steps,
            invalid_step(
                indexed("metering.records[", i, "].unitCount"),
                AuditStepKind::MeterProjection,
                AuditReasonCode::MeterUnitCountMismatch,
                message,
                detail_pair(
                    "expected",
                    DetailValue::Text(format_scaled_decimal(expected, DECIMAL_PLACES)),
                    "actual",
                    DetailValue::Text(m.unit_count.clone()),
                ),
            ),
        );
    } else {
        push_step(
            &mut steps,
            valid_step(
                indexed("metering.records[", i, "].unitCount"),
                AuditStepKind::MeterProjection,
                own("unitCount re-projects exactly from proof"),
            ),
        );
    }
    assert(steps_view(steps@) =~= meter_record_steps(proofs@, *m, i as nat));
    (steps, Some(expected))
}

fn unit_slot(u: MeterUnitType) -> (r: usize)
    ensures
        r == unit_index(u),
{
    match u {
        MeterUnitType::DwellSeconds => 0,
        MeterUnitType::ImpressionInPlace => 1,
        MeterUnitType::AttentionSeconds => 2,
        MeterUnitType::OccupancyWeightedExposure => 3,
        MeterUnitType::CompliantDeliveryMinute => 4,
        MeterUnitType::Custom => 5,
    }
}

fn unit_for_key(key: &str) -> (r: Option<MeterUnitType>)
    ensures
        r == unit_named(key@),
{
    if crate::text::str_eq(key, "DWELL_SECONDS") {
        Some(MeterUnitType::DwellSeconds)
    } else if crate::text::str_eq(key, "IMPRESSION_IN_PLACE") {
        Some(MeterUnitType::ImpressionInPlace)
    } else if crate::text::str_eq(key, "ATTENTION_SECONDS") {
        Some(MeterUnitType::AttentionSeconds)
    } else if crate::text::str_eq(key, "OCCUPANCY_WEIGHTED_EXPOSURE") {
        Some(MeterUnitType::OccupancyWeightedExposure)
    } else if crate::text::str_eq(key, "COMPLIANT_DELIVERY_MINUTE") {
        Some(MeterUnitType::CompliantDeliveryMinute)
    } else if crate::text::str_eq(key, "CUSTOM") {
        Some(MeterUnitType::Custom)
    } else {
        None
    }
}

pub open spec fn totals_view(v: Seq<Option<i128>>) -> Seq<Option<int>> {
    v.map_values(|o: Option<i128>| match o {
        Some(x) => Some(x as int),
        None => None,
    })
}

fn check_total(totals: &Vec<Option<i128>>, key: &str, claimed: &str) -> (r: Vec<AuditStep>)
    requires
        totals@.len() == 6,
    ensures
        steps_view(r@) == total_steps(totals_view(totals@), key@, claimed@),
{
    let mut steps: Vec<AuditStep> = Vec::new();
    let claimed_scaled = match parse_decimal_to_scaled(claimed, DECIMAL_PLACES) {
        Ok(v) => v,
        Err(_) => {
            assert(steps_view(steps@) =~= total_steps(totals_view(totals@), key@, claimed@));
            return steps;
        },
    };
    let computed: Option<i128> = match unit_for_key(key) {
        Some(u) => totals[unit_slot(u)],
        None => Some(0),
    };
    assert(match computed { Some(x) => Some(x as int), None => None::<int> } == computed_total(totals_view(totals@), key@));
    let mut target = own("metering.totals.");
    target.append(key);
    let mut mismatch = own("claimed total for ");
    mismatch.append(key);
    mismatch.append(" does not match sum of per-record projections");
    match computed {
        Some(v) => {
            if claimed_scaled != v {
                push_step(
                    &mut steps,
                    invalid_step(
                        target,
                        AuditStepKind::MeterTotal,
                        AuditReasonCode::MeterTotalMismatch,
                        mismatch,
                        detail_pair(
                            "expected",
                            DetailValue::Text(format_scaled_decimal(v, DECIMAL_PLACES)),
                            "actual",
                            DetailValue::Text(own(claimed)),
                        ),
                    ),
                );
            } else {
                let mut message = own("claimed total for ");
                message.append(key);
                message.append(" matches sum of records");
                push_step(&mut steps, valid_step(target, AuditStepKind::MeterTotal, message));
            }
        },
        None => {
            push_step(
                &mut steps,
                invalid_step(
                    target,
                    AuditStepKind::MeterTotal,
                    AuditReasonCode::MeterTotalMismatch,
                    mismatch,
                    detail_pair("expected", DetailValue::Null, "actual", DetailValue::Text(own(claimed))),
                ),
            );
        },
    }
    assert(steps_view(steps@) =~= total_steps(totals_view(totals@), key@, claimed@));
    steps
}

/// Re-project every meter record from the source proof receipt and
/// assert equality; then check each claimed total against the sum of the
/// re-projected counts. The pack is the source of truth; the summary is
/// the candidate under audit.
pub fn verify_metering_projection(
    proof_records: &[ProofRecord],
    metering: &MeteringSummary,
    pack_org_id: Option<&str>,
) -> (r: ProjectionAuditReport)
    ensures
        steps_view(r.steps@) == metering_steps(
            proof_records@,
            *metering,
            crate::tenant_chain::opt_str_view(pack_org_id),
        ),
        r.status == invalid_or_valid(
            metering_steps(proof_records@, *metering, crate::tenant_chain::opt_str_view(pack_org_id)),
        ),
        r.proof_record_count == proof_records@.len(),
        r.meter_record_count == metering.records@.len(),
        r.sdk_version@ == SDK_VERSION@,
{
    let verified_at = now_rfc3339();
    let mut steps: Vec<AuditStep> = Vec::new();
    if let Some(org) = pack_org_id {
        if !crate::text::str_eq(metering.org_id.as_str(), org) {
            let mut message = own("metering.orgId ");
            let a = debug_quote(metering.org_id.as_str());
            message.append(a.as_str());
            message.append(" does not match pack.orgId ");
            let b = debug_quote(org);
            message.append(b.as_str());
            push_step(
                &mut steps,
                invalid_step(own("metering.orgId"), AuditStepKind::MeterProjection, AuditReasonCode::MeterOrgMismatch, message, None),
            );
        } else {
            push_step(
                &mut steps,
                valid_step(own("metering.orgId"), AuditStepKind::MeterProjection, own("metering summary orgId matches pack")),
            );
        }
    }
    let ghost org_steps = steps_view(steps@);
    assert(org_steps =~= meter_org_steps(*metering, crate::tenant_chain::opt_str_view(pack_org_id)));
    let mut totals: Vec<Option<i128>> = vec![Some(0), Some(0), Some(0), Some(0), Some(0), Some(0)];
    assert(totals_view(totals@) =~= totals_after(proof_records@, metering.records@, 0));
    let n = metering.records.len();
    let mut i: usize = 0;
    while i < n
        invariant
            n == metering.records@.len(),
            i <= n,
            totals@.len() == 6,
            steps_view(steps@) == org_steps + meter_walk(proof_records@, metering.records@, i as nat),
            totals_view(totals@) == totals_after(proof_records@, metering.records@, i as nat),
        decreases n - i,
    {
        let m = &metering.records[i];
        let (more, contribution) = check_meter_record(proof_records, m, i);
        append_steps(&mut steps, more);
        match contribution {
            Some(e) => {
                let slot = unit_slot(m.unit_type);
                let next = match totals[slot] {
                    Some(v) => v.checked_add(e),
                    None => None,
                };
                totals.set(slot, next);
            },
            None => {},
        }
        proof {
            assert(totals_view(totals@) =~= totals_after(proof_records@, metering.records@, (i + 1) as nat));
            assert(steps_view(steps@) =~= org_steps + meter_walk(proof_records@, metering.records@, (i + 1) as nat));
        }
        i = i + 1;
    }
    let ghost mid = steps_view(steps@);
    match &metering.totals {
        Some(claim_map) => {
            let claims = claim_map.entries();
            let ghost cv = claim_map@;
            let c = claims.len();
            let mut k: usize = 0;
            while k < c
                invariant
                    c == claims@.len(),
                    cv == keyed_view(claims@),
                    k <= c,
                    totals@.len() == 6,
                    steps_view(steps@) == mid + totals_walk(totals_view(totals@), cv, k as nat),
                decreases c - k,
            {
                let more = check_total(&totals, claims[k].0.as_str(), claims[k].1.as_str());
                append_steps(&mut steps, more);
                proof {
                    assert(cv[k as int] == (claims@[k as int].0@, claims@[k as int].1));
                    assert(steps_view(steps@) =~= mid + totals_walk(totals_view(totals@), cv, (k + 1) as nat));
                }
                k = k + 1;
            }
        },
        None => {},
    }
    assert(steps_view(steps@) =~= metering_steps(proof_records@, *metering, crate::tenant_chain::opt_str_view(pack_org_id)));
    let any_invalid = has_invalid(&steps);
    ProjectionAuditReport {
        status: if any_invalid {
            AuditStepStatus::Invalid
        } else {
            AuditStepStatus::Valid
        },
        verified_at,
        sdk_version: own(SDK_VERSION),
        proof_record_count: proof_records.len(),
        meter_record_count: metering.records.len(),
        steps,
    }
}

// ---------------------------------------------------------------------
// Laws
// ---------------------------------------------------------------------

proof fn lemma_find_proof_present(proofs: Seq<ProofRecord>, id: Seq<char>, k: nat, j: int)
    requires
        0 <= j < k <= proofs.len(),
        proofs[j].payload.receipt_id@ == id,
    ensures
        find_proof(proofs, id, k) is Some,
    decreases k,
{
    if proofs[k - 1].payload.receipt_id@ != id {
        lemma_find_proof_present(proofs, id, (k - 1) as nat, j);
    }
}

proof fn lemma_meter_walk_prefix(proofs: Seq<ProofRecord>, records: Seq<MeterRecord>, k: nat, k2: nat)
    requires
        k <= k2,
    ensures
        meter_walk(proofs, records, k).len() <= meter_walk(proofs, records, k2).len(),
        forall|q: int|
            0 <= q < meter_walk(proofs, records, k).len() ==> meter_walk(proofs, records, k2)[q]
                == #[trigger] meter_walk(proofs, records, k)[q],
    decreases k2 - k,
{
    if k < k2 {
        lemma_meter_walk_prefix(proofs, records, k, (k2 - 1) as nat);
    }
}

/// For a meter record whose proof is in the pack, the audit reports an
/// `idemKey` step for it, right after the steps of the records before it:
/// VALID exactly when the record's key is `sha256(proofReceiptId|unitType)`,
/// otherwise INVALID with `MeterIdemKeyMismatch`.
pub proof fn lemma_idem_key_step(
    proofs: Seq<ProofRecord>,
    metering: MeteringSummary,
    pack_org_id: Option<Seq<char>>,
    i: int,
)
    requires
        0 <= i < metering.records@.len(),
        exists|j: int|
            0 <= j < proofs.len() && (#[trigger] proofs[j]).payload.receipt_id@
                == metering.records@[i].proof_receipt_id@,
    ensures
        ({
            let steps = metering_steps(proofs, metering, pack_org_id);
            let m = metering.records@[i];
            let p = (meter_org_steps(metering, pack_org_id).len() + meter_walk(
                proofs,
                metering.records@,
                i as nat,
            ).len()) as int;
            &&& 0 <= p < steps.len()
            &&& steps[p].target == meter_target(i as nat, "].idemKey"@)
            &&& steps[p].kind == AuditStepKind::MeterProjection
            &&& (steps[p].status == AuditStepStatus::Valid <==> m.idem_key@ == meter_idem_key_of(
                m.proof_receipt_id@,
                meter_unit_wire(m.unit_type),
            ))
            &&& steps[p].status != AuditStepStatus::Valid ==> steps[p].status
                == AuditStepStatus::Invalid && steps[p].reason == Some(
                AuditReasonCode::MeterIdemKeyMismatch,
            )
        }),
{
    let records = metering.records@;
    let m = records[i];
    let j = choose|j: int|
        0 <= j < proofs.len() && (#[trigger] proofs[j]).payload.receipt_id@ == m.proof_receipt_id@;
    lemma_find_proof_present(proofs, m.proof_receipt_id@, proofs.len(), j);
    let org = meter_org_steps(metering, pack_org_id);
    let before = meter_walk(proofs, records, i as nat);
    let upto = meter_walk(proofs, records, (i + 1) as nat);
    let all = meter_walk(proofs, records, records.len());
    assert(upto == before + meter_record_steps(proofs, m, i as nat));
    assert(upto[before.len() as int] == idem_step(m, i as nat));
    lemma_meter_walk_prefix(proofs, records, (i + 1) as nat, records.len());
    assert(all[before.len() as int] == upto[before.len() as int]);
    let steps = metering_steps(proofs, metering, pack_org_id);
    let tail = match metering.totals {
        Some(claims) => totals_walk(
            totals_after(proofs, records, records.len()),
            claims@,
            claims@.len(),
        ),
        None => Seq::empty(),
    };
    assert(steps == org + all + tail);
    assert(steps[org.len() + before.len() as int] == all[before.len() as int]);
}

/// The unitCount step of a meter record whose proof is in the pack (every
/// proof with that receipt id having dwell `dwell` ms) and whose weight
/// parses to `w` (scaled by `10^6`) comes right after its idemKey step.
/// With `d = trunc(dwell * 10^6 / per)` and `per` = 1000 ms for dwell,
/// attention and occupancy units or 60000 ms for compliant-delivery
/// minutes, it is VALID exactly when `d * w` stays in the 128-bit range
/// and the claimed count parses to `trunc(d * w / 10^6)`; an impression
/// is VALID exactly when the claimed count parses to the weight; a custom
/// unit is never VALID. A step that is not VALID is INVALID with
/// `MeterUnitCountMismatch`.
pub proof fn lemma_unit_count_step(
    proofs: Seq<ProofRecord>,
    metering: MeteringSummary,
    pack_org_id: Option<Seq<char>>,
    i: int,
    dwell: i64,
    w: int,
)
    requires
        0 <= i < metering.records@.len(),
        exists|j: int|
            0 <= j < proofs.len() && (#[trigger] proofs[j]).payload.receipt_id@
                == metering.records@[i].proof_receipt_id@,
        forall|j: int|
            0 <= j < proofs.len() && (#[trigger] proofs[j]).payload.receipt_id@
                == metering.records@[i].proof_receipt_id@ ==> proofs[j].payload.dwell_ms == dwell,
        parse_scaled(metering.records@[i].weight@, 6) == Some(w),
    ensures
        ({
            let steps = metering_steps(proofs, metering, pack_org_id);
            let m = metering.records@[i];
            let claimed = parse_scaled(m.unit_count@, 6);
            let p = (meter_org_steps(metering, pack_org_id).len() + meter_walk(
                proofs,
                metering.records@,
                i as nat,
            ).len() + 1) as int;
            let per_second = trunc_div(dwell as int * 1_000_000, 1000) * w;
            let per_minute = trunc_div(dwell as int * 1_000_000, 60_000) * w;
            &&& 0 <= p < steps.len()
            &&& steps[p].target == meter_target(i as nat, "].unitCount"@)
            &&& steps[p].kind == AuditStepKind::MeterProjection
            &&& (m.unit_type == MeterUnitType::CompliantDeliveryMinute ==> (steps[p].status
                == AuditStepStatus::Valid <==> (i128::MIN <= per_minute <= i128::MAX && claimed == Some(
                trunc_div(per_minute, 1_000_000),
            ))))
            &&& ((m.unit_type == MeterUnitType::DwellSeconds || m.unit_type
                == MeterUnitType::AttentionSeconds || m.unit_type
                == MeterUnitType::OccupancyWeightedExposure) ==> (steps[p].status
                == AuditStepStatus::Valid <==> (i128::MIN <= per_second <= i128::MAX && claimed == Some(
                trunc_div(per_second, 1_000_000),
            ))))
            &&& (m.unit_type == MeterUnitType::ImpressionInPlace ==> (steps[p].status
                == AuditStepStatus::Valid <==> claimed == Some(w)))
            &&& (m.unit_type == MeterUnitType::Custom ==> steps[p].status == AuditStepStatus::Invalid)
            &&& (steps[p].status != AuditStepStatus::Valid ==> steps[p].status == AuditStepStatus::Invalid
                && steps[p].reason == Some(AuditReasonCode::MeterUnitCountMismatch))
        }),
{
    let records = metering.records@;
    let m = records[i];
    let j = choose|j: int|
        0 <= j < proofs.len() && (#[trigger] proofs[j]).payload.receipt_id@ == m.proof_receipt_id@;
    lemma_find_proof_present(proofs, m.proof_receipt_id@, proofs.len(), j);
    lemma_find_proof_bound(proofs, m.proof_receipt_id@, proofs.len());
    let jf = find_proof(proofs, m.proof_receipt_id@, proofs.len())->0;
    assert(proofs[jf].payload.dwell_ms == dwell);
    let org = meter_org_steps(metering, pack_org_id);
    let before = meter_walk(proofs, records, i as nat);
    let upto = meter_walk(proofs, records, (i + 1) as nat);
    let all = meter_walk(proofs, records, records.len());
    let bl = before.len() as int;
    let ol = org.len() as int;
    let own = meter_record_steps(proofs, m, i as nat);
    assert(own == seq![idem_step(m, i as nat)] + unit_count_steps(proofs[jf], m, i as nat));
    assert(upto == before + own);
    assert(upto[bl + 1] == unit_count_steps(proofs[jf], m, i as nat)[0]);
    lemma_meter_walk_prefix(proofs, records, (i + 1) as nat, records.len());
    assert(all[bl + 1] == upto[bl + 1]);
    let steps = metering_steps(proofs, metering, pack_org_id);
    let tail = match metering.totals {
        Some(claims) => totals_walk(
            totals_after(proofs, records, records.len()),
            claims@,
            claims@.len(),
        ),
        None => Seq::empty(),
    };
    assert(steps == org + all + tail);
    assert(steps[ol + bl + 1] == all[bl + 1]);
}

} // verus!
