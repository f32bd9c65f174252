//! Settlement reconciliation audit: every settlement line is re-derived
//! from its meter's gross and its share, and the claimed totals from the
//! lines.
//!
//! A meter's gross is split across its lines as the platform does it: each
//! line gets `floor(gross * share)`, and the residual cents go to the line
//! with the largest share (the first such line on ties). Amounts must match
//! to the cent.

use vstd::prelude::*;
use crate::canonical_json::sort_keys::{keys_ascending, Keyed};
use crate::clock::now_rfc3339;
use crate::text_map::{keyed_view, TextMap};
use crate::decimal::{format_scaled_decimal, parse_decimal_to_scaled, parse_scaled, scaled_text, trunc_div, div_toward_zero};
use crate::hashing::{settlement_idem_key, settlement_idem_key_of, settlement_idem_key_v1, settlement_idem_key_v1_of};
use crate::metering_audit::fits_i128;
use crate::text::{debug_quote, debug_quoted, decimal, i128_to_decimal, indexed, int_decimal, own};
use crate::types::{
    any_invalid, append_steps, detail_pair, has_invalid, invalid_or_valid, lemma_any_invalid_concat, invalid_step, invalid_sv,
    party_role_wire, push_step, steps_view, valid_step, valid_sv, AuditReasonCode, AuditStep,
    AuditStepKind, AuditStepStatus, DetailEntry, DetailValue, DetailView, MeterRecord,
    MeteringSummary, SettlementAuditReport, SettlementLine, SettlementPartyRole,
    SettlementSummary, StepView, SDK_VERSION,
};

verus! {

/// Fraction digits of a share.
pub const SHARE_PLACES: u32 = 6;

/// A share of exactly one, scaled.
pub open spec fn one_share() -> int {
    1_000_000
}

// ---------------------------------------------------------------------
// Lookups
// ---------------------------------------------------------------------

/// Some meter record carries the idem key.
pub open spec fn meter_known(records: Seq<MeterRecord>, key: Seq<char>) -> bool {
    exists|j: int| 0 <= j < records.len() && #[trigger] records[j].idem_key@ == key
}

/// The gross cents recorded for a meter idem key among the first `k`
/// entries.
pub open spec fn gross_for(entries: Seq<Keyed<i64>>, key: Seq<char>, k: nat) -> Option<i64>
    decreases k,
{
    if k == 0 {
        None
    } else {
        match gross_for(entries, key, (k - 1) as nat) {
            Some(g) => Some(g),
            None => if entries[k - 1].0 == key {
                Some(entries[k - 1].1)
            } else {
                None
            },
        }
    }
}

/// The gross on record for a key is the value of the map's entry with that
/// key (the map holds each key once).
pub proof fn lemma_gross_for_entry(entries: Seq<Keyed<i64>>, key: Seq<char>, j: int)
    requires
        0 <= j < entries.len(),
        entries[j].0 == key,
        keys_ascending(entries),
    ensures
        gross_for(entries, key, entries.len()) == Some(entries[j].1),
{
    assert forall|q: int| 0 <= q < j implies (#[trigger] entries[q]).0 != key by {
        crate::keys::lemma_text_lt_irreflexive(key);
    }
    lemma_gross_for_prefix(entries, key, entries.len(), j);
}

proof fn lemma_gross_for_prefix(entries: Seq<Keyed<i64>>, key: Seq<char>, k2: nat, j: int)
    requires
        0 <= j < k2 <= entries.len(),
        entries[j].0 == key,
        forall|q: int| 0 <= q < j ==> (#[trigger] entries[q]).0 != key,
    ensures
        gross_for(entries, key, k2) == Some(entries[j].1),
    decreases k2,
{
    if k2 > j + 1 {
        lemma_gross_for_prefix(entries, key, (k2 - 1) as nat, j);
    } else {
        lemma_gross_none_below(entries, key, j as nat);
    }
}

proof fn lemma_gross_none_below(entries: Seq<Keyed<i64>>, key: Seq<char>, k: nat)
    requires
        k <= entries.len(),
        forall|q: int| 0 <= q < k ==> (#[trigger] entries[q]).0 != key,
    ensures
        gross_for(entries, key, k) is None,
    decreases k,
{
    if k > 0 {
        lemma_gross_none_below(entries, key, (k - 1) as nat);
    }
}

/// A line's share scaled by `10^6`, zero when it is not a decimal.
pub open spec fn share_value(l: SettlementLine) -> int {
    match parse_scaled(l.share@, 6) {
        Some(v) => v,
        None => 0,
    }
}

// ---------------------------------------------------------------------
// The exact-cent split
// ---------------------------------------------------------------------

/// `floor(gross * share)` cents, `None` when the product leaves the
/// 128-bit range.
pub open spec fn floor_part(gross: int, share: int) -> Option<int> {
    if fits_i128(gross * share) {
        Some(trunc_div(gross * share, one_share()))
    } else {
        None
    }
}

/// Sum of the floor parts of the lines `0..k` of the meter `key`;
/// `None` once a product or a running sum leaves the 128-bit range.
pub open spec fn group_floor_sum(lines: Seq<SettlementLine>, key: Seq<char>, gross: int, k: nat) -> Option<int>
    decreases k,
{
    if k == 0 {
        Some(0)
    } else {
        match group_floor_sum(lines, key, gross, (k - 1) as nat) {
            None => None,
            Some(s) => if lines[k - 1].meter_record_idem_key@ != key {
                Some(s)
            } else {
                match floor_part(gross, share_value(lines[k - 1])) {
                    None => None,
                    Some(f) => if fits_i128(s + f) {
                        Some(s + f)
                    } else {
                        None
                    },
                }
            },
        }
    }
}

/// The first line among `0..k` of the meter `key` with the largest share.
pub open spec fn group_largest(lines: Seq<SettlementLine>, key: Seq<char>, k: nat) -> Option<int>
    decreases k,
{
    if k == 0 {
        None
    } else {
        let best = group_largest(lines, key, (k - 1) as nat);
        if lines[k - 1].meter_record_idem_key@ != key {
            best
        } else {
            match best {
                None => Some(k - 1),
                Some(j) => if share_value(lines[k - 1]) > share_value(lines[j]) {
                    Some(k - 1)
                } else {
                    Some(j)
                },
            }
        }
    }
}

/// The cents line `i` must carry under the exact split of `gross`:
/// its floor part, plus the residual when it is its meter's
/// largest-share line. `None` when a value leaves the 128-bit range.
pub open spec fn split_amount(lines: Seq<SettlementLine>, i: int, gross: int) -> Option<int> {
    let key = lines[i].meter_record_idem_key@;
    match (group_floor_sum(lines, key, gross, lines.len()), floor_part(gross, share_value(lines[i]))) {
        (Some(sum), Some(f)) => if group_largest(lines, key, lines.len()) == Some(i) {
            if fits_i128(gross - sum) && fits_i128(f + (gross - sum)) {
                Some(f + (gross - sum))
            } else {
                None
            }
        } else {
            Some(f)
        },
        _ => None,
    }
}

/// Sum of the split amounts of the lines `0..k` of the meter `key`
/// (a line whose amount leaves the 128-bit range counts zero).
pub open spec fn group_split_total(lines: Seq<SettlementLine>, key: Seq<char>, gross: int, k: nat) -> int
    decreases k,
{
    if k == 0 {
        0
    } else {
        group_split_total(lines, key, gross, (k - 1) as nat) + if lines[k - 1].meter_record_idem_key@
            == key {
            match split_amount(lines, k - 1, gross) {
                Some(a) => a,
                None => 0,
            }
        } else {
            0
        }
    }
}

proof fn lemma_floor_sum_none_stays(lines: Seq<SettlementLine>, key: Seq<char>, gross: int, k: nat, k2: nat)
    requires
        k <= k2,
        group_floor_sum(lines, key, gross, k) is None,
    ensures
        group_floor_sum(lines, key, gross, k2) is None,
    decreases k2 - k,
{
    if k < k2 {
        lemma_floor_sum_none_stays(lines, key, gross, k, (k2 - 1) as nat);
    }
}

proof fn lemma_largest_in_group(lines: Seq<SettlementLine>, key: Seq<char>, k: nat)
    requires
        k <= lines.len(),
    ensures
        group_largest(lines, key, k) matches Some(j) ==> 0 <= j < k && lines[j].meter_record_idem_key@
            == key,
        group_largest(lines, key, k) is None ==> forall|i: int|
            0 <= i < k ==> (#[trigger] lines[i]).meter_record_idem_key@ != key,
    decreases k,
{
    if k > 0 {
        lemma_largest_in_group(lines, key, (k - 1) as nat);
    }
}

proof fn lemma_split_prefix(lines: Seq<SettlementLine>, key: Seq<char>, gross: int, k: nat)
    requires
        k <= lines.len(),
        group_floor_sum(lines, key, gross, lines.len()) is Some,
        forall|i: int|
            0 <= i < lines.len() && (#[trigger] lines[i]).meter_record_idem_key@ == key ==> split_amount(
                lines,
                i,
                gross,
            ) is Some,
    ensures
        group_floor_sum(lines, key, gross, k) is Some,
        group_split_total(lines, key, gross, k) == group_floor_sum(lines, key, gross, k)->0 + match group_largest(
            lines,
            key,
            lines.len(),
        ) {
            Some(l) => if l < k {
                gross - group_floor_sum(lines, key, gross, lines.len())->0
            } else {
                0
            },
            None => 0,
        },
    decreases k,
{
    if group_floor_sum(lines, key, gross, k) is None {
        lemma_floor_sum_none_stays(lines, key, gross, k, lines.len());
    }
    lemma_largest_in_group(lines, key, lines.len());
    if k > 0 {
        let i = k - 1;
        lemma_split_prefix(lines, key, gross, (k - 1) as nat);
        if lines[i].meter_record_idem_key@ == key {
            assert(split_amount(lines, i, gross) is Some);
            let f = floor_part(gross, share_value(lines[i]));
            assert(f is Some);
            let total = group_floor_sum(lines, key, gross, lines.len())->0;
            assert(group_floor_sum(lines, key, gross, k)->0 == group_floor_sum(lines, key, gross, i as nat)->0
                + f->0);
            if group_largest(lines, key, lines.len()) == Some(i) {
                assert(split_amount(lines, i, gross) == Some(f->0 + (gross - total)));
            } else {
                assert(split_amount(lines, i, gross) == Some(f->0));
            }
        }
    }
}

/// A meter's split conserves its gross: when the meter has at least one
/// line and no amount of its split leaves the 128-bit range, the amounts
/// its lines must carry add up to the gross exactly.
pub proof fn lemma_split_conserves_gross(lines: Seq<SettlementLine>, key: Seq<char>, gross: int)
    requires
        exists|i: int| 0 <= i < lines.len() && (#[trigger] lines[i]).meter_record_idem_key@ == key,
        group_floor_sum(lines, key, gross, lines.len()) is Some,
        forall|i: int|
            0 <= i < lines.len() && (#[trigger] lines[i]).meter_record_idem_key@ == key ==> split_amount(
                lines,
                i,
                gross,
            ) is Some,
    ensures
        group_split_total(lines, key, gross, lines.len()) == gross,
{
    lemma_split_prefix(lines, key, gross, lines.len());
    lemma_largest_in_group(lines, key, lines.len());
}

/// The line that takes a meter's residual is its first line of largest
/// share: no line of the meter has a larger share, and every earlier line
/// of the meter has a smaller one.
pub proof fn lemma_group_largest_is_first_max(lines: Seq<SettlementLine>, key: Seq<char>, k: nat)
    requires
        k <= lines.len(),
    ensures
        group_largest(lines, key, k) matches Some(j) ==> {
            &&& 0 <= j < k
            &&& lines[j].meter_record_idem_key@ == key
            &&& forall|q: int|
                0 <= q < k && (#[trigger] lines[q]).meter_record_idem_key@ == key ==> share_value(lines[q])
                    <= share_value(lines[j])
            &&& forall|q: int|
                0 <= q < j && (#[trigger] lines[q]).meter_record_idem_key@ == key ==> share_value(lines[q])
                    < share_value(lines[j])
        },
    decreases k,
{
    lemma_largest_in_group(lines, key, k);
    if k > 0 {
        lemma_group_largest_is_first_max(lines, key, (k - 1) as nat);
        lemma_largest_in_group(lines, key, (k - 1) as nat);
    }
}

// ---------------------------------------------------------------------
// Steps
// ---------------------------------------------------------------------

/// `settlement.lines[<i>]<suffix>`.
pub open spec fn line_target(i: nat, suffix: Seq<char>) -> Seq<char> {
    "settlement.lines["@ + decimal(i) + suffix
}

/// The summary predates the 3-field idem key.
pub open spec fn legacy_v1(s: SettlementSummary) -> bool {
    s.schema_version@ == "settlement.v1"@
}

pub open spec fn expected_line_idem(s: SettlementSummary, l: SettlementLine) -> Seq<char> {
    if legacy_v1(s) {
        settlement_idem_key_v1_of(l.meter_record_idem_key@, party_role_wire(l.party_role))
    } else {
        settlement_idem_key_of(l.meter_record_idem_key@, party_role_wire(l.party_role), l.ledger_account_code@)
    }
}

pub open spec fn line_idem_step(s: SettlementSummary, l: SettlementLine, i: nat) -> StepView {
    let expected = expected_line_idem(s, l);
    if l.idem_key@ != expected {
        invalid_sv(
            line_target(i, "].idemKey"@),
            AuditStepKind::SettlementLine,
            AuditReasonCode::SettlementIdemKeyMismatch,
            if legacy_v1(s) {
                "settlement-line idemKey does not equal sha256(meterIdemKey|partyRole)"@
            } else {
                "settlement-line idemKey does not equal sha256(meterIdemKey|partyRole|ledgerAccountCode)"@
            },
            Some(seq![("expected"@, DetailView::Text(expected)), ("actual"@, DetailView::Text(l.idem_key@))]),
        )
    } else {
        valid_sv(
            line_target(i, "].idemKey"@),
            AuditStepKind::SettlementLine,
            "settlement idemKey matches reconstruction"@,
        )
    }
}

pub open spec fn amount_mismatch_sv(l: SettlementLine, i: nat, expected: Option<int>, gross: i64) -> StepView {
    invalid_sv(
        line_target(i, "].amountCents"@),
        AuditStepKind::SettlementLine,
        AuditReasonCode::SettlementAmountMismatch,
        "amountCents does not match the exact-cent split of grossCents by share (floor per share, residual to the largest share)"@,
        Some(
            seq![
                ("expected"@, match expected {
                    Some(e) => DetailView::Integer(e),
                    None => DetailView::Null,
                }),
                ("actual"@, DetailView::Integer(l.amount_cents as int)),
                ("gross"@, DetailView::Integer(gross as int)),
                ("share"@, DetailView::Text(l.share@)),
            ],
        ),
    )
}

/// Every step line `i` contributes, and whether its amount reconciled.
pub open spec fn line_steps(m: MeteringSummary, s: SettlementSummary, i: int) -> (Seq<StepView>, bool) {
    let lines = s.lines@;
    let l = lines[i];
    let key = l.meter_record_idem_key@;
    if !meter_known(m.records@, key) {
        (
            seq![
                invalid_sv(
                    line_target(i as nat, "].meterRecordIdemKey"@),
                    AuditStepKind::SettlementLine,
                    AuditReasonCode::SettlementLineForUnknownMeter,
                    "settlement line references meterRecordIdemKey "@ + debug_quoted(key) + " not in metering"@,
                    None,
                ),
            ],
            false,
        )
    } else {
        let idem = seq![line_idem_step(s, l, i as nat)];
        match gross_for(s.meter_gross@, key, s.meter_gross@.len()) {
            None => (
                idem + seq![
                    invalid_sv(
                        "settlement.meterGross."@ + key,
                        AuditStepKind::SettlementLine,
                        AuditReasonCode::SettlementLineForUnknownMeter,
                        "no gross amount for meterIdemKey "@ + debug_quoted(key),
                        None,
                    ),
                ],
                false,
            ),
            Some(gross) => match parse_scaled(l.share@, 6) {
                None => (
                    idem + seq![
                        invalid_sv(
                            line_target(i as nat, "].share"@),
                            AuditStepKind::SettlementLine,
                            AuditReasonCode::SettlementAmountMismatch,
                            "share value is not a valid decimal"@,
                            None,
                        ),
                    ],
                    false,
                ),
                Some(_) => {
                    let expected = split_amount(lines, i, gross as int);
                    if expected != Some(l.amount_cents as int) {
                        (idem + seq![amount_mismatch_sv(l, i as nat, expected, gross)], false)
                    } else {
                        (
                            idem + seq![
                                valid_sv(
                                    line_target(i as nat, "].amountCents"@),
                                    AuditStepKind::SettlementLine,
                                    "amountCents="@ + int_decimal(l.amount_cents as int) + " matches gross="@
                                        + int_decimal(gross as int) + " * share="@ + l.share@,
                                ),
                            ],
                            true,
                        )
                    }
                },
            },
        }
    }
}

/// Steps of lines `0..k`.
pub open spec fn line_walk(m: MeteringSummary, s: SettlementSummary, k: nat) -> Seq<StepView>
    decreases k,
{
    if k == 0 {
        Seq::empty()
    } else {
        line_walk(m, s, (k - 1) as nat) + line_steps(m, s, k - 1).0
    }
}

/// Sum of the reconciled amounts of lines `0..k` whose role passes `role`
/// (`None`: every role).
pub open spec fn reconciled_sum(
    m: MeteringSummary,
    s: SettlementSummary,
    k: nat,
    role: Option<SettlementPartyRole>,
) -> int
    decreases k,
{
    if k == 0 {
        0
    } else {
        let l = s.lines@[k - 1];
        reconciled_sum(m, s, (k - 1) as nat, role) + if line_steps(m, s, k - 1).1 && (role is None
            || role == Some(l.party_role)) {
            l.amount_cents as int
        } else {
            0
        }
    }
}

/// Line `k` is the first line of its meter.
pub open spec fn first_of_group(lines: Seq<SettlementLine>, k: int) -> bool {
    forall|j: int| 0 <= j < k ==> #[trigger] lines[j].meter_record_idem_key@ != lines[k].meter_record_idem_key@
}

/// Sum of the shares of lines `0..k` of the meter `key`; `None` once it
/// leaves the 128-bit range.
pub open spec fn group_share_sum(lines: Seq<SettlementLine>, key: Seq<char>, k: nat) -> Option<int>
    decreases k,
{
    if k == 0 {
        Some(0)
    } else {
        match group_share_sum(lines, key, (k - 1) as nat) {
            None => None,
            Some(t) => if lines[k - 1].meter_record_idem_key@ != key {
                Some(t)
            } else if fits_i128(t + share_value(lines[k - 1])) {
                Some(t + share_value(lines[k - 1]))
            } else {
                None
            },
        }
    }
}

/// The share-sum step of a meter.
pub open spec fn share_sum_step(lines: Seq<SettlementLine>, key: Seq<char>) -> StepView {
    let target = "settlement.lines[meter="@ + key + "].share"@;
    match group_share_sum(lines, key, lines.len()) {
        Some(t) => if t != one_share() {
            invalid_sv(
                target,
                AuditStepKind::SettlementLine,
                AuditReasonCode::SettlementShareSumNotOne,
                "shares for meter "@ + debug_quoted(key) + " sum to "@ + scaled_text(t, 6) + ", not 1.000000"@,
                None,
            )
        } else {
            valid_sv(
                target,
                AuditStepKind::SettlementLine,
                "shares for meter "@ + debug_quoted(key) + " sum to 1.000000"@,
            )
        },
        None => invalid_sv(
            target,
            AuditStepKind::SettlementLine,
            AuditReasonCode::SettlementShareSumNotOne,
            "shares for meter "@ + debug_quoted(key) + " sum beyond the 128-bit range, not 1.000000"@,
            None,
        ),
    }
}

/// Share-sum steps of the meters first seen among lines `0..k`.
pub open spec fn share_walk(lines: Seq<SettlementLine>, k: nat) -> Seq<StepView>
    decreases k,
{
    if k == 0 {
        Seq::empty()
    } else {
        share_walk(lines, (k - 1) as nat) + if first_of_group(lines, k - 1) {
            seq![share_sum_step(lines, lines[k - 1].meter_record_idem_key@)]
        } else {
            Seq::empty()
        }
    }
}

pub open spec fn total_step(label: Seq<char>, claimed: i64, computed: int) -> StepView {
    if claimed != computed {
        invalid_sv(
            "settlement.totals."@ + label,
            AuditStepKind::SettlementTotal,
            AuditReasonCode::SettlementTotalMismatch,
            "claimed "@ + label + "="@ + int_decimal(claimed as int) + " does not match recomputed "@
                + int_decimal(computed),
            None,
        )
    } else {
        valid_sv(
            "settlement.totals."@ + label,
            AuditStepKind::SettlementTotal,
            label + "="@ + int_decimal(claimed as int) + " reconciles"@,
        )
    }
}

pub open spec fn settlement_org_step(m: MeteringSummary, s: SettlementSummary) -> StepView {
    if s.org_id@ != m.org_id@ {
        invalid_sv(
            "settlement.orgId"@,
            AuditStepKind::SettlementLine,
            AuditReasonCode::SettlementOrgMismatch,
            "settlement.orgId "@ + debug_quoted(s.org_id@) + " does not match metering.orgId "@ + debug_quoted(
                m.org_id@,
            ),
            None,
        )
    } else {
        valid_sv("settlement.orgId"@, AuditStepKind::SettlementLine, "settlement orgId matches metering"@)
    }
}

/// Every step of a settlement audit, in order: org parity, each line,
/// each meter's share sum (meters in order of first appearance), the
/// three claimed totals.
pub open spec fn settlement_steps(m: MeteringSummary, s: SettlementSummary) -> Seq<StepView> {
    let n = s.lines@.len();
    seq![settlement_org_step(m, s)] + line_walk(m, s, n) + share_walk(s.lines@, n) + match s.totals {
        Some(t) => seq![
            total_step("grossCents"@, t.gross_cents, reconciled_sum(m, s, n, None)),
            total_step("netToTenantCents"@, t.net_to_tenant_cents, reconciled_sum(m, s, n, Some(SettlementPartyRole::Tenant))),
            total_step("platformFeeCents"@, t.platform_fee_cents, reconciled_sum(m, s, n, Some(SettlementPartyRole::Platform))),
        ],
        None => Seq::empty(),
    }
}

// ---------------------------------------------------------------------
// Execution
// ---------------------------------------------------------------------

fn meter_exists(records: &Vec<MeterRecord>, key: &str) -> (r: bool)
    ensures
        r == meter_known(records@, key@),
{
    let mut j: usize = 0;
    while j < records.len()
        invariant
            j <= records@.len(),
            forall|q: int| 0 <= q < j ==> records@[q].idem_key@ != key@,
        decreases records@.len() - j,
    {
        if crate::text::str_eq(records[j].idem_key.as_str(), key) {
            return true;
        }
        j = j + 1;
    }
    false
}

fn lookup_gross(gross: &TextMap<i64>, key: &str) -> (r: Option<i64>)
    ensures
        r == gross_for(gross@, key@, gross@.len()),
{
    let entries = gross.entries();
    let ghost v = keyed_view(entries@);
    let mut j: usize = 0;
    while j < entries.len()
        invariant
            j <= entries@.len(),
            v == keyed_view(entries@),
            v == gross@,
            gross_for(v, key@, j as nat) is None,
        decreases entries@.len() - j,
    {
        if crate::text::str_eq(entries[j].0.as_str(), key) {
            proof {
                assert(v[j as int] == (entries@[j as int].0@, entries@[j as int].1));
                assert(gross_for(v, key@, (j + 1) as nat) == Some(entries@[j as int].1));
                lemma_gross_stable(v, key@, (j + 1) as nat, v.len());
            }
            return Some(entries[j].1);
        }
        proof {
            assert(v[j as int].0 == entries@[j as int].0@);
        }
        j = j + 1;
    }
    None
}

proof fn lemma_gross_stable(entries: Seq<Keyed<i64>>, key: Seq<char>, j: nat, k: nat)
    requires
        j <= k,
        gross_for(entries, key, j) is Some,
    ensures
        gross_for(entries, key, k) == gross_for(entries, key, j),
    decreases k - j,
{
    if j < k {
        lemma_gross_stable(entries, key, j, (k - 1) as nat);
    }
}

fn share_of(l: &SettlementLine) -> (r: i128)
    ensures
        r == share_value(*l),
{
    match parse_decimal_to_scaled(l.share.as_str(), SHARE_PLACES) {
        Ok(v) => v,
        Err(_) => 0,
    }
}

fn floor_of(gross: i64, share: i128) -> (r: Option<i128>)
    ensures
        match floor_part(gross as int, share as int) {
            Some(f) => r == Some(f as i128) && fits_i128(f),
            None => r is None,
        },
{
    match (gross as i128).checked_mul(share) {
        Some(p) => Some(div_toward_zero(p, 1_000_000)),
        None => None,
    }
}

/// The exact-split amount of line `i` for the meter's gross.
fn split_of(lines: &Vec<SettlementLine>, i: usize, gross: i64) -> (r: Option<i128>)
    requires
        i < lines@.len(),
    ensures
        match split_amount(lines@, i as int, gross as int) {
            Some(a) => r == Some(a as i128) && fits_i128(a),
            None => r is None,
        },
{
    let key = &lines[i].meter_record_idem_key;
    let n = lines.len();
    let mut sum: Option<i128> = Some(0);
    let mut largest: Option<usize> = None;
    let mut largest_share: i128 = 0;
    let mut k: usize = 0;
    while k < n
        invariant
            n == lines@.len(),
            i < n,
            *key == lines@[i as int].meter_record_idem_key,
            k <= n,
            match group_floor_sum(lines@, key@, gross as int, k as nat) {
                Some(s) => sum == Some(s as i128) && fits_i128(s),
                None => sum is None,
            },
            match group_largest(lines@, key@, k as nat) {
                Some(j) => largest == Some(j as usize) && 0 <= j < k && largest_share == share_value(lines@[j]),
                None => largest is None,
            },
        decreases n - k,
    {
        let l = &lines[k];
        if l.meter_record_idem_key == *key {
            let s = share_of(l);
            sum = match sum {
                None => None,
                Some(t) => match floor_of(gross, s) {
                    None => None,
                    Some(f) => t.checked_add(f),
                },
            };
            match largest {
                None => {
                    largest = Some(k);
                    largest_share = s;
                },
                Some(_) => {
                    if s > largest_share {
                        largest = Some(k);
                        largest_share = s;
                    }
                },
            }
        }
        k = k + 1;
    }
    let own_floor = floor_of(gross, share_of(&lines[i]));
    match (sum, own_floor) {
        (Some(total), Some(f)) => {
            if largest == Some(i) {
                match (gross as i128).checked_sub(total) {
                    Some(residual) => f.checked_add(residual),
                    None => None,
                }
            } else {
                Some(f)
            }
        },
        _ => None,
    }
}

fn push_line_idem_step(steps: &mut Vec<AuditStep>, s: &SettlementSummary, l: &SettlementLine, i: usize)
    ensures
        steps_view(final(steps)@) == steps_view(old(steps)@).push(line_idem_step(*s, *l, i as nat)),
{
    let v1 = crate::text::str_eq(s.schema_version.as_str(), "settlement.v1");
    let role = l.party_role.as_wire_str();
    let expected = if v1 {
        settlement_idem_key_v1(l.meter_record_idem_key.as_str(), role)
    } else {
        settlement_idem_key(l.meter_record_idem_key.as_str(), role, l.ledger_account_code.as_str())
    };
    if l.idem_key != expected {
        let message = if v1 {
            own("settlement-line idemKey does not equal sha256(meterIdemKey|partyRole)")
        } else {
            own("settlement-line idemKey does not equal sha256(meterIdemKey|partyRole|ledgerAccountCode)")
        };
        push_step(
            steps,
            invalid_step(
                indexed("settlement.lines[", i, "].idemKey"),
                AuditStepKind::SettlementLine,
                AuditReasonCode::SettlementIdemKeyMismatch,
                message,
                detail_pair("expected", DetailValue::Text(expected), "actual", DetailValue::Text(l.idem_key.clone())),
            ),
        );
    } else {
        push_step(
            steps,
            valid_step(
                indexed("settlement.lines[", i, "].idemKey"),
                AuditStepKind::SettlementLine,
                own("settlement idemKey matches reconstruction"),
            ),
        );
    }
}

fn check_line(m: &MeteringSummary, s: &SettlementSummary, i: usize) -> (r: (Vec<AuditStep>, bool))
    requires
        i < s.lines@.len(),
    ensures
        steps_view(r.0@) == line_steps(*m, *s, i as int).0,
        r.1 == line_steps(*m, *s, i as int).1,
{
    let mut steps: Vec<AuditStep> = Vec::new();
    let line = &s.lines[i];
    let key = line.meter_record_idem_key.as_str();
    if !meter_exists(&m.records, key) {
        let mut message = own("settlement line references meterRecordIdemKey ");
        let q = debug_quote(key);
        message.append(q.as_str());
        message.append(" not in metering");
        push_step(
            &mut steps,
            invalid_step(
                indexed("settlement.lines[", i, "].meterRecordIdemKey"),
                AuditStepKind::SettlementLine,
                AuditReasonCode::SettlementLineForUnknownMeter,
                message,
                None,
            ),
        );
        assert(steps_view(steps@) =~= line_steps(*m, *s, i as int).0);
        return (steps, false);
    }
    push_line_idem_step(&mut steps, s, line, i);
    let gross = match lookup_gross(&s.meter_gross, key) {
        Some(g) => g,
        None => {
            let mut target = own("settlement.meterGross.");
            target.append(key);
            let mut message = own("no gross amount for meterIdemKey ");
            let q = debug_quote(key);
            message.append(q.as_str());
            push_step(
                &mut steps,
                invalid_step(target, AuditStepKind::SettlementLine, AuditReasonCode::SettlementLineForUnknownMeter, message, None),
            );
            assert(steps_view(steps@) =~= line_steps(*m, *s, i as int).0);
            return (steps, false);
        },
    };
    if parse_decimal_to_scaled(line.share.as_str(), SHARE_PLACES).is_err() {
        push_step(
            &mut steps,
            invalid_step(
                indexed("settlement.lines[", i, "].share"),
                AuditStepKind::SettlementLine,
                AuditReasonCode::SettlementAmountMismatch,
                own("share value is not a valid decimal"),
                None,
            ),
        );
        assert(steps_view(steps@) =~= line_steps(*m, *s, i as int).0);
        return (steps, false);
    }
    let expected = split_of(&s.lines, i, gross);
    let matches = match expected {
        Some(e) => e == line.amount_cents as i128,
        None => false,
    };
    if !matches {
        let mut detail: Vec<DetailEntry> = Vec::new();
        detail.push(DetailEntry {
            key: own("expected"),
            value: match expected {
                Some(e) => DetailValue::Integer(e),
                None => DetailValue::Null,
            },
        });
        detail.push(DetailEntry { key: own("actual"), value: DetailValue::Integer(line.amount_cents as i128) });
        detail.push(DetailEntry { key: own("gross"), value: DetailValue::Integer(gross as i128) });
        detail.push(DetailEntry { key: own("share"), value: DetailValue::Text(line.share.clone()) });
        let d = Some(detail);
        proof {
            let ev = match split_amount(s.lines@, i as int, gross as int) {
                Some(e) => DetailView::Integer(e),
                None => DetailView::Null,
            };
            assert(crate::types::detail_view(d)->0 =~= seq![
                ("expected"@, ev),
                ("actual"@, DetailView::Integer(line.amount_cents as int)),
                ("gross"@, DetailView::Integer(gross as int)),
                ("share"@, DetailView::Text(line.share@)),
            ]);
        }
        push_step(
            &mut steps,
            invalid_step(
                indexed("settlement.lines[", i, "].amountCents"),
                AuditStepKind::SettlementLine,
                AuditReasonCode::SettlementAmountMismatch,
                own("amountCents does not match the exact-cent split of grossCents by share (floor per share, residual to the largest share)"),
                d,
            ),
        );
        assert(split_amount(s.lines@, i as int, gross as int) != Some(line.amount_cents as int));
        assert(parse_scaled(line.share@, 6) is Some);
        assert(gross_for(s.meter_gross@, line.meter_record_idem_key@, s.meter_gross@.len()) == Some(gross));
        proof {
            let expected_sv = amount_mismatch_sv(
                *line,
                i as nat,
                split_amount(s.lines@, i as int, gross as int),
                gross,
            );
            assert(steps_view(steps@).last().detail == expected_sv.detail);
            assert(steps_view(steps@).last().message == expected_sv.message);
            assert(steps_view(steps@).last() == expected_sv);
        }
        assert(steps_view(steps@) =~= line_steps(*m, *s, i as int).0);
        return (steps, false);
    }
    let mut message = own("amountCents=");
    let a = i128_to_decimal(line.amount_cents as i128);
    message.append(a.as_str());
    message.append(" matches gross=");
    let g = i128_to_decimal(gross as i128);
    message.append(g.as_str());
    message.append(" * share=");
    message.append(line.share.as_str());
    push_step(
        &mut steps,
        valid_step(indexed("settlement.lines[", i, "].amountCents"), AuditStepKind::SettlementLine, message),
    );
    assert(steps_view(steps@) =~= line_steps(*m, *s, i as int).0);
    (steps, true)
}

fn group_shares(lines: &Vec<SettlementLine>, key: &str) -> (r: Option<i128>)
    ensures
        match group_share_sum(lines@, key@, lines@.len()) {
            Some(t) => r == Some(t as i128) && fits_i128(t),
            None => r is None,
        },
{
    let mut sum: Option<i128> = Some(0);
    let mut k: usize = 0;
    while k < lines.len()
        invariant
            k <= lines@.len(),
            match group_share_sum(lines@, key@, k as nat) {
                Some(t) => sum == Some(t as i128) && fits_i128(t),
                None => sum is None,
            },
        decreases lines@.len() - k,
    {
        if crate::text::str_eq(lines[k].meter_record_idem_key.as_str(), key) {
            let v = share_of(&lines[k]);
            sum = match sum {
                Some(t) => t.checked_add(v),
                None => None,
            };
        }
        k = k + 1;
    }
    sum
}

fn is_first_of_group(lines: &Vec<SettlementLine>, k: usize) -> (r: bool)
    requires
        k < lines@.len(),
    ensures
        r == first_of_group(lines@, k as int),
{
    let mut j: usize = 0;
    while j < k
        invariant
            j <= k < lines@.len(),
            forall|q: int| 0 <= q < j ==> #[trigger] lines@[q].meter_record_idem_key@ != lines@[k as int].meter_record_idem_key@,
        decreases k - j,
    {
        if lines[j].meter_record_idem_key == lines[k].meter_record_idem_key {
            return false;
        }
        j = j + 1;
    }
    true
}

fn share_sum_check(lines: &Vec<SettlementLine>, key: &str) -> (r: AuditStep)
    ensures
        crate::types::step_view(r) == share_sum_step(lines@, key@),
{
    let mut target = own("settlement.lines[meter=");
    target.append(key);
    target.append("].share");
    let q = debug_quote(key);
    let mut message = own("shares for meter ");
    message.append(q.as_str());
    match group_shares(lines, key) {
        Some(t) => {
            if t != 1_000_000 {
                message.append(" sum to ");
                let f = format_scaled_decimal(t, SHARE_PLACES);
                message.append(f.as_str());
                message.append(", not 1.000000");
                invalid_step(target, AuditStepKind::SettlementLine, AuditReasonCode::SettlementShareSumNotOne, message, None)
            } else {
                message.append(" sum to 1.000000");
                valid_step(target, AuditStepKind::SettlementLine, message)
            }
        },
        None => {
            message.append(" sum beyond the 128-bit range, not 1.000000");
            invalid_step(target, AuditStepKind::SettlementLine, AuditReasonCode::SettlementShareSumNotOne, message, None)
        },
    }
}

fn total_check(label: &str, claimed: i64, computed: i128) -> (r: AuditStep)
    ensures
        crate::types::step_view(r) == total_step(label@, claimed, computed as int),
{
    let mut target = own("settlement.totals.");
    target.append(label);
    let c = i128_to_decimal(claimed as i128);
    if (claimed as i128) != computed {
        let mut message = own("claimed ");
        message.append(label);
        message.append("=");
        message.append(c.as_str());
        message.append(" does not match recomputed ");
        let d = i128_to_decimal(computed);
        message.append(d.as_str());
        invalid_step(target, AuditStepKind::SettlementTotal, AuditReasonCode::SettlementTotalMismatch, message, None)
    } else {
        let mut message = own(label);
        message.append("=");
        message.append(c.as_str());
        message.append(" reconciles");
        valid_step(target, AuditStepKind::SettlementTotal, message)
    }
}

proof fn lemma_reconciled_bound(m: MeteringSummary, s: SettlementSummary, k: nat, role: Option<SettlementPartyRole>)
    requires
        k <= s.lines@.len(),
    ensures
        -(k * 0x8000_0000_0000_0000) <= reconciled_sum(m, s, k, role) <= k * 0x8000_0000_0000_0000,
    decreases k,
{
    if k > 0 {
        lemma_reconciled_bound(m, s, (k - 1) as nat, role);
    }
}

/// Re-derive every settlement line and assert equality: org parity; per
/// line the meter exists, the idem key reconstructs (2-field for
/// `settlement.v1`, 3-field otherwise), the meter has a gross, the share
/// parses and the amount equals the exact-cent split; per meter the
/// shares sum to one; the claimed totals equal the sums of reconciled
/// lines (all, tenant, platform).
pub fn verify_settlement_reconciliation(metering: &MeteringSummary, settlement: &SettlementSummary) -> (r:
    SettlementAuditReport)
    ensures
        steps_view(r.steps@) == settlement_steps(*metering, *settlement),
        r.status == invalid_or_valid(settlement_steps(*metering, *settlement)),
        r.meter_record_count == metering.records@.len(),
        r.settlement_line_count == settlement.lines@.len(),
        r.sdk_version@ == SDK_VERSION@,
{
    let verified_at = now_rfc3339();
    let mut steps: Vec<AuditStep> = Vec::new();
    if !crate::text::str_eq(settlement.org_id.as_str(), metering.org_id.as_str()) {
        let mut message = own("settlement.orgId ");
        let a = debug_quote(settlement.org_id.as_str());
        message.append(a.as_str());
        message.append(" does not match metering.orgId ");
        let b = debug_quote(metering.org_id.as_str());
        message.append(b.as_str());
        push_step(
            &mut steps,
            invalid_step(own("settlement.orgId"), AuditStepKind::SettlementLine, AuditReasonCode::SettlementOrgMismatch, message, None),
        );
    } else {
        push_step(
            &mut steps,
            valid_step(own("settlement.orgId"), AuditStepKind::SettlementLine, own("settlement orgId matches metering")),
        );
    }
    let ghost head = steps_view(steps@);
    let n = settlement.lines.len();
    let mut computed_gross: i128 = 0;
    let mut computed_net_to_tenant: i128 = 0;
    let mut computed_platform_fee: i128 = 0;
    let mut i: usize = 0;
    while i < n
        invariant
            n == settlement.lines@.len(),
            i <= n,
            head == seq![settlement_org_step(*metering, *settlement)],
            steps_view(steps@) == head + line_walk(*metering, *settlement, i as nat),
            computed_gross == reconciled_sum(*metering, *settlement, i as nat, None),
            computed_net_to_tenant == reconciled_sum(*metering, *settlement, i as nat, Some(SettlementPartyRole::Tenant)),
            computed_platform_fee == reconciled_sum(*metering, *settlement, i as nat, Some(SettlementPartyRole::Platform)),
        decreases n - i,
    {
        let (more, reconciled) = check_line(metering, settlement, i);
        append_steps(&mut steps, more);
        proof {
            lemma_reconciled_bound(*metering, *settlement, i as nat, None);
            lemma_reconciled_bound(*metering, *settlement, i as nat, Some(SettlementPartyRole::Tenant));
            lemma_reconciled_bound(*metering, *settlement, i as nat, Some(SettlementPartyRole::Platform));
            assert(i * 0x8000_0000_0000_0000int <= 0xffff_ffff_ffff_ffffint * 0x8000_0000_0000_0000int) by (nonlinear_arith)
                requires 0 <= i <= 0xffff_ffff_ffff_ffffint;
        }
        if reconciled {
            let amount = settlement.lines[i].amount_cents as i128;
            computed_gross = computed_gross + amount;
            match settlement.lines[i].party_role {
                SettlementPartyRole::Tenant => {
                    computed_net_to_tenant = computed_net_to_tenant + amount;
                },
                SettlementPartyRole::Platform => {
                    computed_platform_fee = computed_platform_fee + amount;
                },
                _ => {},
            }
        }
        proof {
            assert(steps_view(steps@) =~= head + line_walk(*metering, *settlement, (i + 1) as nat));
        }
        i = i + 1;
    }
    let ghost mid = steps_view(steps@);
    let mut k: usize = 0;
    while k < n
        invariant
            n == settlement.lines@.len(),
            k <= n,
            steps_view(steps@) == mid + share_walk(settlement.lines@, k as nat),
        decreases n - k,
    {
        if is_first_of_group(&settlement.lines, k) {
            let step = share_sum_check(&settlement.lines, settlement.lines[k].meter_record_idem_key.as_str());
            push_step(&mut steps, step);
        }
        proof {
            assert(steps_view(steps@) =~= mid + share_walk(settlement.lines@, (k + 1) as nat));
        }
        k = k + 1;
    }
    match &settlement.totals {
        Some(t) => {
            push_step(&mut steps, total_check("grossCents", t.gross_cents, computed_gross));
            push_step(&mut steps, total_check("netToTenantCents", t.net_to_tenant_cents, computed_net_to_tenant));
            push_step(&mut steps, total_check("platformFeeCents", t.platform_fee_cents, computed_platform_fee));
        },
        None => {},
    }
    assert(steps_view(steps@) =~= settlement_steps(*metering, *settlement));
    let any_invalid = has_invalid(&steps);
    SettlementAuditReport {
        status: if any_invalid {
            AuditStepStatus::Invalid
        } else {
            AuditStepStatus::Valid
        },
        verified_at,
        sdk_version: own(SDK_VERSION),
        meter_record_count: metering.records.len(),
        settlement_line_count: settlement.lines.len(),
        steps,
    }
}

// ---------------------------------------------------------------------
// Laws on the steps
// ---------------------------------------------------------------------

/// Exact-cent, line by line: for a line whose meter is known, whose
/// meter's gross `g` is on record and whose share parses, the line's last
/// step is its amount step. It is VALID exactly when the amount is the
/// line's floor part `g * share / 10^6` plus, when the line is its meter's
/// first largest-share line, `g` less the sum of the meter's floor parts
/// (every value within the 128-bit range); otherwise it is INVALID with
/// `SettlementAmountMismatch`. Only a VALID amount counts toward the
/// recomputed totals.
pub proof fn lemma_line_amount_is_exact_split(m: MeteringSummary, s: SettlementSummary, i: int)
    requires
        0 <= i < s.lines@.len(),
        meter_known(m.records@, s.lines@[i].meter_record_idem_key@),
        gross_for(s.meter_gross@, s.lines@[i].meter_record_idem_key@, s.meter_gross@.len()) is Some,
        parse_scaled(s.lines@[i].share@, 6) is Some,
    ensures
        ({
            let lines = s.lines@;
            let l = lines[i];
            let key = l.meter_record_idem_key@;
            let g = gross_for(s.meter_gross@, key, s.meter_gross@.len())->0 as int;
            let step = line_steps(m, s, i).0.last();
            &&& line_steps(m, s, i).0.len() == 2
            &&& step.target == line_target(i as nat, "].amountCents"@)
            &&& (step.status == AuditStepStatus::Valid <==> match (
                group_floor_sum(lines, key, g, lines.len()),
                floor_part(g, share_value(l)),
            ) {
                (Some(sum), Some(f)) => if group_largest(lines, key, lines.len()) == Some(i) {
                    fits_i128(g - sum) && l.amount_cents == f + (g - sum)
                } else {
                    l.amount_cents == f
                },
                _ => false,
            })
            &&& step.status != AuditStepStatus::Valid ==> step.status == AuditStepStatus::Invalid
                && step.reason == Some(AuditReasonCode::SettlementAmountMismatch)
            &&& line_steps(m, s, i).1 == (step.status == AuditStepStatus::Valid)
        }),
{
}

/// The sum of the shares, each parsed and scaled by `10^6` (a share that
/// is not a decimal counting as zero), of the lines among `0..k` that
/// belong to the meter `key`, with no bound on the sum.
pub open spec fn meter_shares_total(lines: Seq<SettlementLine>, key: Seq<char>, k: nat) -> int
    decreases k,
{
    if k == 0 {
        0
    } else {
        meter_shares_total(lines, key, (k - 1) as nat) + if lines[k - 1].meter_record_idem_key@ == key {
            match parse_scaled(lines[k - 1].share@, 6) {
                Some(v) => v,
                None => 0,
            }
        } else {
            0
        }
    }
}

proof fn lemma_group_share_sum_is_total(lines: Seq<SettlementLine>, key: Seq<char>, k: nat)
    requires
        k <= lines.len(),
    ensures
        group_share_sum(lines, key, k) matches Some(t) ==> t == meter_shares_total(lines, key, k),
    decreases k,
{
    if k > 0 {
        lemma_group_share_sum_is_total(lines, key, (k - 1) as nat);
    }
}

proof fn lemma_first_of_group_exists(lines: Seq<SettlementLine>, i: int)
    requires
        0 <= i < lines.len(),
    ensures
        exists|f: int|
            0 <= f <= i && #[trigger] lines[f].meter_record_idem_key@ == lines[i].meter_record_idem_key@
                && first_of_group(lines, f),
    decreases i,
{
    if !first_of_group(lines, i) {
        let j = choose|j: int|
            0 <= j < i && #[trigger] lines[j].meter_record_idem_key@ == lines[i].meter_record_idem_key@;
        lemma_first_of_group_exists(lines, j);
    } else {
        assert(lines[i].meter_record_idem_key@ == lines[i].meter_record_idem_key@);
    }
}

proof fn lemma_share_step_in_walk(lines: Seq<SettlementLine>, k: nat, f: int)
    requires
        0 <= f < k <= lines.len(),
        first_of_group(lines, f),
    ensures
        exists|q: int|
            0 <= q < share_walk(lines, k).len() && #[trigger] share_walk(lines, k)[q] == share_sum_step(
                lines,
                lines[f].meter_record_idem_key@,
            ),
    decreases k,
{
    let w = share_walk(lines, k);
    if k - 1 == f {
        let prev = share_walk(lines, (k - 1) as nat);
        assert(w[prev.len() as int] == share_sum_step(lines, lines[f].meter_record_idem_key@));
    } else {
        lemma_share_step_in_walk(lines, (k - 1) as nat, f);
        let prev = share_walk(lines, (k - 1) as nat);
        let q = choose|q: int|
            0 <= q < prev.len() && #[trigger] prev[q] == share_sum_step(lines, lines[f].meter_record_idem_key@);
        assert(w[q] == prev[q]);
    }
}

/// Every meter that has a settlement line gets a share-sum step, at
/// `settlement.lines[meter=<key>].share`; when the meter's shares
/// (scaled by `10^6`) do not add up to exactly `1_000_000`, that step is
/// INVALID with `SettlementShareSumNotOne`, and when they do it is VALID.
pub proof fn lemma_share_sum_step(m: MeteringSummary, s: SettlementSummary, i: int)
    requires
        0 <= i < s.lines@.len(),
    ensures
        ({
            let lines = s.lines@;
            let key = lines[i].meter_record_idem_key@;
            let steps = settlement_steps(m, s);
            exists|q: int|
                0 <= q < steps.len() && #[trigger] steps[q].target == "settlement.lines[meter="@ + key
                    + "].share"@ && (meter_shares_total(lines, key, lines.len()) != 1_000_000
                    ==> steps[q].status == AuditStepStatus::Invalid && steps[q].reason == Some(
                    AuditReasonCode::SettlementShareSumNotOne,
                )) && (steps[q].status == AuditStepStatus::Valid ==> meter_shares_total(
                    lines,
                    key,
                    lines.len(),
                ) == 1_000_000)
        }),
{
    let lines = s.lines@;
    let n = lines.len();
    let key = lines[i].meter_record_idem_key@;
    lemma_first_of_group_exists(lines, i);
    let f = choose|f: int|
        0 <= f <= i && #[trigger] lines[f].meter_record_idem_key@ == key && first_of_group(lines, f);
    lemma_share_step_in_walk(lines, n, f);
    let sw = share_walk(lines, n);
    let q0 = choose|q: int| 0 <= q < sw.len() && #[trigger] sw[q] == share_sum_step(lines, key);
    lemma_group_share_sum_is_total(lines, key, n);
    let head = seq![settlement_org_step(m, s)] + line_walk(m, s, n);
    let tail = match s.totals {
        Some(t) => seq![
            total_step("grossCents"@, t.gross_cents, reconciled_sum(m, s, n, None)),
            total_step("netToTenantCents"@, t.net_to_tenant_cents, reconciled_sum(m, s, n, Some(SettlementPartyRole::Tenant))),
            total_step("platformFeeCents"@, t.platform_fee_cents, reconciled_sum(m, s, n, Some(SettlementPartyRole::Platform))),
        ],
        None => Seq::empty(),
    };
    let steps = settlement_steps(m, s);
    assert(steps == head + sw + tail);
    let q = head.len() + q0;
    assert(steps[q] == sw[q0]);
    assert(steps[q].target == "settlement.lines[meter="@ + key + "].share"@);
}

proof fn lemma_line_walk_keeps_invalid(m: MeteringSummary, s: SettlementSummary, i: int, k: nat)
    requires
        0 <= i < k <= s.lines@.len(),
        any_invalid(line_steps(m, s, i).0),
    ensures
        any_invalid(line_walk(m, s, k)),
    decreases k,
{
    lemma_any_invalid_concat(line_walk(m, s, (k - 1) as nat), line_steps(m, s, k - 1).0);
    if k - 1 != i {
        lemma_line_walk_keeps_invalid(m, s, i, (k - 1) as nat);
    }
}

/// A VALID settlement report means that every line's share is a decimal
/// and that, for every meter with a line, the shares of its lines
/// (scaled by `10^6`) add up to exactly `1_000_000`.
pub proof fn lemma_valid_settlement_shares_sum_to_one(m: MeteringSummary, s: SettlementSummary)
    requires
        invalid_or_valid(settlement_steps(m, s)) == AuditStepStatus::Valid,
    ensures
        forall|i: int|
            0 <= i < s.lines@.len() ==> parse_scaled((#[trigger] s.lines@[i]).share@, 6) is Some
                && meter_shares_total(s.lines@, s.lines@[i].meter_record_idem_key@, s.lines@.len())
                == 1_000_000,
{
    let lines = s.lines@;
    let n = lines.len();
    let steps = settlement_steps(m, s);
    assert(!any_invalid(steps));
    assert forall|i: int| 0 <= i < n implies parse_scaled((#[trigger] lines[i]).share@, 6) is Some
        && meter_shares_total(lines, lines[i].meter_record_idem_key@, n) == 1_000_000 by {
        let key = lines[i].meter_record_idem_key@;
        lemma_share_sum_step(m, s, i);
        let q = choose|q: int|
            0 <= q < steps.len() && #[trigger] steps[q].target == "settlement.lines[meter="@ + key
                + "].share"@ && (meter_shares_total(lines, key, lines.len()) != 1_000_000
                ==> steps[q].status == AuditStepStatus::Invalid && steps[q].reason == Some(
                AuditReasonCode::SettlementShareSumNotOne,
            )) && (steps[q].status == AuditStepStatus::Valid ==> meter_shares_total(
                lines,
                key,
                lines.len(),
            ) == 1_000_000);
        assert(steps[q].status != AuditStepStatus::Invalid);
        if parse_scaled(lines[i].share@, 6) is None {
            let own = line_steps(m, s, i).0;
            assert(own[own.len() - 1].status == AuditStepStatus::Invalid);
            assert(any_invalid(own));
            lemma_line_walk_keeps_invalid(m, s, i, n);
            let head = seq![settlement_org_step(m, s)] + line_walk(m, s, n);
            lemma_any_invalid_concat(seq![settlement_org_step(m, s)], line_walk(m, s, n));
            let rest = share_walk(lines, n) + match s.totals {
                Some(t) => seq![
                    total_step("grossCents"@, t.gross_cents, reconciled_sum(m, s, n, None)),
                    total_step("netToTenantCents"@, t.net_to_tenant_cents, reconciled_sum(m, s, n, Some(SettlementPartyRole::Tenant))),
                    total_step("platformFeeCents"@, t.platform_fee_cents, reconciled_sum(m, s, n, Some(SettlementPartyRole::Platform))),
                ],
                None => Seq::empty(),
            };
            assert(steps == head + rest);
            lemma_any_invalid_concat(head, rest);
        }
    }
}

} // verus!
