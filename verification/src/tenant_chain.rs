//! Tenant-level chain verification.
//!
//! Every rights-provenance row a tenant writes is linked into one chain:
//!
//! ```text
//! tenantChainNext_n = sha256("tenantChain.v1|<prev>|<rowAfterHash>|<sequence>")
//! ```
//!
//! with `-` standing for an absent or empty predecessor.

use vstd::prelude::*;
use crate::clock::now_rfc3339_secs;
use crate::hashing::{sha256_hex, sha256_hex_of};
use crate::text::{
    decimal, indexed, or_empty, own, parse_u64, parse_u64_spec, text_or_empty, u128_to_decimal,
};
use crate::types::{
    lemma_any_invalid_concat, lemma_any_invalid_single,
    append_steps, detail2, detail_pair, detail_view, has_invalid, invalid_or_valid, invalid_step,
    invalid_sv, push_step, steps_view, valid_step, valid_sv, any_invalid, AuditReasonCode,
    AuditStep, AuditStepKind, AuditStepStatus, ChainAuditReport, DetailEntry, DetailValue,
    DetailView, StepView, SDK_VERSION, none_skipped, lemma_none_skipped_concat,
};

verus! {

/// Stable canonical chain-link version.
pub const TENANT_CHAIN_VERSION: &'static str = "tenantChain.v1";

/// One tenant-chained record.
#[derive(Clone, Debug)]
pub struct TenantChainedRecord {
    /// The row's content-addressable afterHash (entity chain).
    pub row_after_hash: String,
    /// The tenant-chain predecessor link, or `None` for the genesis row.
    pub tenant_chain_prev: Option<String>,
    /// This row's tenant-chain link.
    pub tenant_chain_next: String,
    /// Monotonic position within the tenant, as a decimal string.
    pub tenant_chain_sequence: String,
}

/// The predecessor field of a link: the text, or `-` when absent or empty.
pub open spec fn link_prev_field(prev: Option<Seq<char>>) -> Seq<char> {
    match prev {
        Some(s) => if s.len() > 0 {
            s
        } else {
            "-"@
        },
        None => "-"@,
    }
}

/// `tenantChain.v1|<prev>|<rowAfterHash>|<sequence>`.
pub open spec fn tenant_chain_link(prev: Option<Seq<char>>, row_after_hash: Seq<char>, sequence: Seq<char>) -> Seq<char> {
    TENANT_CHAIN_VERSION@ + "|"@ + link_prev_field(prev) + "|"@ + row_after_hash + "|"@ + sequence
}

pub open spec fn opt_str_view(o: Option<&str>) -> Option<Seq<char>> {
    match o {
        Some(s) => Some(s@),
        None => None,
    }
}

/// The canonical chain-link bytes the platform hashed at write time.
pub fn canonicalise_tenant_chain_link(prev: Option<&str>, row_after_hash: &str, sequence: &str) -> (r:
    String)
    ensures
        r@ == tenant_chain_link(opt_str_view(prev), row_after_hash@, sequence@),
{
    let mut out = own(TENANT_CHAIN_VERSION);
    out.append("|");
    match prev {
        Some(s) => {
            if !s.is_empty() {
                out.append(s);
            } else {
                out.append("-");
            }
        },
        None => out.append("-"),
    }
    out.append("|");
    out.append(row_after_hash);
    out.append("|");
    out.append(sequence);
    out
}

/// `provenance.tenantChain.v1.<orgId>`.
pub open spec fn genesis_tip(org_id: Seq<char>) -> Seq<char> {
    "provenance."@ + TENANT_CHAIN_VERSION@ + "."@ + org_id
}

/// Genesis seed value for a tenant.
pub fn genesis_chain_tip(org_id: &str) -> (r: String)
    ensures
        r@ == genesis_tip(org_id@),
{
    let mut out = own("provenance.");
    out.append(TENANT_CHAIN_VERSION);
    out.append(".");
    out.append(org_id);
    out
}

/// The link a record must carry as `tenantChainNext`, given its parsed
/// sequence number.
pub open spec fn expected_next(r: TenantChainedRecord, seq: u64) -> Seq<char> {
    sha256_hex_of(
        tenant_chain_link(crate::text::opt_view(r.tenant_chain_prev), r.row_after_hash@, decimal(seq as nat)),
    )
}

// ---------------------------------------------------------------------
// Steps
// ---------------------------------------------------------------------

pub open spec fn empty_tenant_chain_step() -> StepView {
    invalid_sv(
        "records"@,
        AuditStepKind::ChainLink,
        AuditReasonCode::MalformedPack,
        "tenant chain audit received an empty record set — nothing to verify"@,
        None,
    )
}

pub open spec fn tenant_genesis_step(first: TenantChainedRecord, expected_genesis: Seq<char>) -> StepView {
    let first_prev = or_empty(first.tenant_chain_prev);
    if first_prev != expected_genesis {
        invalid_sv(
            "records[0].tenantChainPrev"@,
            AuditStepKind::ChainLink,
            AuditReasonCode::ChainLinkMismatch,
            "first record's tenantChainPrev does not equal the expected genesis seed — chain is rooted at an unknown prior tip"@,
            detail2("expected"@, DetailView::Text(expected_genesis), "actual"@, DetailView::Text(first_prev)),
        )
    } else {
        valid_sv(
            "records[0].tenantChainPrev"@,
            AuditStepKind::ChainLink,
            "genesis prev seed matches the expected tenant seed"@,
        )
    }
}

/// The sequence step of record `i`, when its sequence does not follow the
/// previous parsed one.
pub open spec fn tenant_sequence_steps(i: int, seq: u64, prev: Option<u64>) -> Seq<StepView> {
    match prev {
        Some(p) => if seq as int != p + 1 {
            seq![
                invalid_sv(
                    "records["@ + decimal(i as nat) + "].tenantChainSequence"@,
                    AuditStepKind::ChainLink,
                    AuditReasonCode::ChainOutOfOrder,
                    "tenantChainSequence at index "@ + decimal(i as nat) + " is "@ + decimal(
                        seq as nat,
                    ) + ", expected "@ + decimal((p + 1) as nat)
                        + " (gaps or duplicates indicate inserted/dropped rows)"@,
                    detail2(
                        "expected"@,
                        DetailView::Text(decimal((p + 1) as nat)),
                        "actual"@,
                        DetailView::Text(decimal(seq as nat)),
                    ),
                ),
            ]
        } else {
            Seq::empty()
        },
        None => Seq::empty(),
    }
}

/// The linkage step of record `i > 0`.
pub open spec fn tenant_link_steps(records: Seq<TenantChainedRecord>, i: int) -> Seq<StepView> {
    if i > 0 {
        let curr_prev = or_empty(records[i].tenant_chain_prev);
        let prev_next = records[i - 1].tenant_chain_next@;
        if curr_prev != prev_next {
            seq![
                invalid_sv(
                    "records["@ + decimal(i as nat) + "].tenantChainPrev"@,
                    AuditStepKind::ChainLink,
                    AuditReasonCode::ChainLinkMismatch,
                    "record["@ + decimal(i as nat) + "].tenantChainPrev does not equal record["@
                        + decimal((i - 1) as nat) + "].tenantChainNext — chain link broken"@,
                    detail2("expected"@, DetailView::Text(prev_next), "actual"@, DetailView::Text(curr_prev)),
                ),
            ]
        } else {
            seq![
                valid_sv(
                    "records["@ + decimal(i as nat) + "].tenantChainPrev"@,
                    AuditStepKind::ChainLink,
                    "record["@ + decimal(i as nat) + "] correctly chains off record["@ + decimal(
                        (i - 1) as nat,
                    ) + "]"@,
                ),
            ]
        }
    } else {
        Seq::empty()
    }
}

/// The recomputation step of record `i` with parsed sequence `seq`.
pub open spec fn tenant_next_step(r: TenantChainedRecord, i: int, seq: u64) -> StepView {
    let expected = expected_next(r, seq);
    if expected != r.tenant_chain_next@ {
        invalid_sv(
            "records["@ + decimal(i as nat) + "].tenantChainNext"@,
            AuditStepKind::ChainLink,
            AuditReasonCode::ChainLinkMismatch,
            "record["@ + decimal(i as nat)
                + "].tenantChainNext does not equal the recomputed link — value was tampered with after write"@,
            detail2("expected"@, DetailView::Text(expected), "actual"@, DetailView::Text(r.tenant_chain_next@)),
        )
    } else {
        valid_sv(
            "records["@ + decimal(i as nat) + "].tenantChainNext"@,
            AuditStepKind::ChainLink,
            "record["@ + decimal(i as nat) + "].tenantChainNext matches the recomputed link"@,
        )
    }
}

/// The steps record `i` contributes, given the last parsed sequence.
pub open spec fn tenant_record_steps(records: Seq<TenantChainedRecord>, i: int, prev: Option<u64>) -> Seq<
    StepView,
> {
    let r = records[i];
    match parse_u64_spec(r.tenant_chain_sequence@) {
        None => seq![
            invalid_sv(
                "records["@ + decimal(i as nat) + "].tenantChainSequence"@,
                AuditStepKind::ChainLink,
                AuditReasonCode::MalformedPack,
                "tenantChainSequence at index "@ + decimal(i as nat) + " is not a valid integer string"@,
                Some(seq![("value"@, DetailView::Text(r.tenant_chain_sequence@))]),
            ),
        ],
        Some(c) => tenant_sequence_steps(i, c, prev) + tenant_link_steps(records, i) + seq![
            tenant_next_step(r, i, c),
        ],
    }
}

/// The last parsed sequence after record `i`.
pub open spec fn tenant_prev_after(records: Seq<TenantChainedRecord>, i: int, prev: Option<u64>) -> Option<u64> {
    match parse_u64_spec(records[i].tenant_chain_sequence@) {
        Some(c) => Some(c),
        None => prev,
    }
}

/// Steps of records `0..k`, and the last parsed sequence after them.
pub open spec fn tenant_walk(records: Seq<TenantChainedRecord>, k: nat) -> (Seq<StepView>, Option<u64>)
    decreases k,
{
    if k == 0 {
        (Seq::empty(), None)
    } else {
        let (steps, prev) = tenant_walk(records, (k - 1) as nat);
        (
            steps + tenant_record_steps(records, k - 1, prev),
            tenant_prev_after(records, k - 1, prev),
        )
    }
}

/// Every step of a tenant-chain audit, in order.
pub open spec fn tenant_chain_steps(records: Seq<TenantChainedRecord>, expected_genesis: Seq<char>) -> Seq<
    StepView,
> {
    if records.len() == 0 {
        seq![empty_tenant_chain_step()]
    } else {
        seq![tenant_genesis_step(records[0], expected_genesis)] + tenant_walk(
            records,
            records.len(),
        ).0
    }
}

/// Record `i` as the platform writes it: its sequence is a valid integer,
/// one more than its predecessor's; its `tenantChainPrev` is the previous
/// record's `tenantChainNext`; its `tenantChainNext` is the hash of its
/// canonical link.
pub open spec fn tenant_record_intact(records: Seq<TenantChainedRecord>, i: int) -> bool {
    let r = records[i];
    &&& parse_u64_spec(r.tenant_chain_sequence@) is Some
    &&& i > 0 ==> parse_u64_spec(records[i - 1].tenant_chain_sequence@) is Some
        && parse_u64_spec(r.tenant_chain_sequence@)->0 as int == parse_u64_spec(
        records[i - 1].tenant_chain_sequence@,
    )->0 + 1
    &&& i > 0 ==> or_empty(r.tenant_chain_prev) == records[i - 1].tenant_chain_next@
    &&& expected_next(r, parse_u64_spec(r.tenant_chain_sequence@)->0) == r.tenant_chain_next@
}

/// A chain exactly as the platform writes it: non-empty, rooted at the
/// expected genesis seed, every record intact.
pub open spec fn tenant_chain_intact(records: Seq<TenantChainedRecord>, expected_genesis: Seq<char>) -> bool {
    &&& records.len() > 0
    &&& or_empty(records[0].tenant_chain_prev) == expected_genesis
    &&& forall|i: int| 0 <= i < records.len() ==> #[trigger] tenant_record_intact(records, i)
}

// ---------------------------------------------------------------------
// Verification
// ---------------------------------------------------------------------

fn tenant_record_check(records: &[TenantChainedRecord], i: usize, prev: Option<u64>) -> (r: (
    Vec<AuditStep>,
    Option<u64>,
))
    requires
        i < records@.len(),
    ensures
        steps_view(r.0@) == tenant_record_steps(records@, i as int, prev),
        r.1 == tenant_prev_after(records@, i as int, prev),
{
    let mut steps: Vec<AuditStep> = Vec::new();
    let curr = &records[i];
    let curr_sequence = match parse_u64(curr.tenant_chain_sequence.as_str()) {
        Some(n) => n,
        None => {
            let mut message = own("tenantChainSequence at index ");
            let d = crate::text::usize_to_decimal(i);
            message.append(d.as_str());
            message.append(" is not a valid integer string");
            let mut detail: Vec<DetailEntry> = Vec::new();
            detail.push(
                DetailEntry {
                    key: own("value"),
                    value: DetailValue::Text(curr.tenant_chain_sequence.clone()),
                },
            );
            let ghost dv = detail_view(Some(detail));
            assert(dv->0 =~= seq![("value"@, DetailView::Text(curr.tenant_chain_sequence@))]);
            push_step(
                &mut steps,
                invalid_step(
                    indexed("records[", i, "].tenantChainSequence"),
                    AuditStepKind::ChainLink,
                    AuditReasonCode::MalformedPack,
                    message,
                    Some(detail),
                ),
            );
            assert(steps_view(steps@) =~= tenant_record_steps(records@, i as int, prev));
            return (steps, prev);
        },
    };
    if let Some(p) = prev {
        if (curr_sequence as u128) != (p as u128) + 1 {
            let expected_text = u128_to_decimal((p as u128) + 1);
            let actual_text = u128_to_decimal(curr_sequence as u128);
            let mut message = own("tenantChainSequence at index ");
            let d = crate::text::usize_to_decimal(i);
            message.append(d.as_str());
            message.append(" is ");
            message.append(actual_text.as_str());
            message.append(", expected ");
            message.append(expected_text.as_str());
            message.append(" (gaps or duplicates indicate inserted/dropped rows)");
            push_step(
                &mut steps,
                invalid_step(
                    indexed("records[", i, "].tenantChainSequence"),
                    AuditStepKind::ChainLink,
                    AuditReasonCode::ChainOutOfOrder,
                    message,
                    detail_pair(
                        "expected",
                        DetailValue::Text(expected_text),
                        "actual",
                        DetailValue::Text(actual_text),
                    ),
                ),
            );
        }
    }
    assert(steps_view(steps@) =~= tenant_sequence_steps(i as int, curr_sequence, prev));
    if i > 0 {
        let prev_rec = &records[i - 1];
        let curr_prev = text_or_empty(&curr.tenant_chain_prev);
        if curr_prev != prev_rec.tenant_chain_next {
            let mut message = indexed("record[", i, "].tenantChainPrev does not equal record[");
            let d = crate::text::usize_to_decimal(i - 1);
            message.append(d.as_str());
            message.append("].tenantChainNext — chain link broken");
            push_step(
                &mut steps,
                invalid_step(
                    indexed("records[", i, "].tenantChainPrev"),
                    AuditStepKind::ChainLink,
                    AuditReasonCode::ChainLinkMismatch,
                    message,
                    detail_pair(
                        "expected",
                        DetailValue::Text(prev_rec.tenant_chain_next.clone()),
                        "actual",
                        DetailValue::Text(curr_prev),
                    ),
                ),
            );
        } else {
            let mut message = indexed("record[", i, "] correctly chains off record[");
            let d = crate::text::usize_to_decimal(i - 1);
            message.append(d.as_str());
            message.append("]");
            push_step(
                &mut steps,
                valid_step(indexed("records[", i, "].tenantChainPrev"), AuditStepKind::ChainLink, message),
            );
        }
    }
    assert(steps_view(steps@) =~= tenant_sequence_steps(i as int, curr_sequence, prev)
        + tenant_link_steps(records@, i as int));
    let seq_text = u128_to_decimal(curr_sequence as u128);
    let prev_str: Option<&str> = match &curr.tenant_chain_prev {
        Some(s) => Some(s.as_str()),
        None => None,
    };
    let link = canonicalise_tenant_chain_link(prev_str, curr.row_after_hash.as_str(), seq_text.as_str());
    assert(opt_str_view(prev_str) == crate::text::opt_view(curr.tenant_chain_prev));
    let expected = sha256_hex(link.as_str());
    if expected != curr.tenant_chain_next {
        push_step(
            &mut steps,
            invalid_step(
                indexed("records[", i, "].tenantChainNext"),
                AuditStepKind::ChainLink,
                AuditReasonCode::ChainLinkMismatch,
                indexed(
                    "record[",
                    i,
                    "].tenantChainNext does not equal the recomputed link — value was tampered with after write",
                ),
                detail_pair(
                    "expected",
                    DetailValue::Text(expected),
                    "actual",
                    DetailValue::Text(curr.tenant_chain_next.clone()),
                ),
            ),
        );
    } else {
        push_step(
            &mut steps,
            valid_step(
                indexed("records[", i, "].tenantChainNext"),
                AuditStepKind::ChainLink,
                indexed("record[", i, "].tenantChainNext matches the recomputed link"),
            ),
        );
    }
    assert(steps_view(steps@) =~= tenant_record_steps(records@, i as int, prev));
    (steps, Some(curr_sequence))
}

/// Verify the tenant-level chain across an array of rows.
///
/// Checked, in order: the first record's `tenantChainPrev` equals the
/// expected genesis seed; then per record, its sequence is a valid integer
/// one more than the previous valid one, its `tenantChainPrev` equals the
/// previous record's `tenantChainNext`, and its `tenantChainNext` equals
/// the hash of its recomputed link.
pub fn verify_tenant_chain(records: &[TenantChainedRecord], expected_genesis: &str) -> (r:
    ChainAuditReport)
    ensures
        steps_view(r.steps@) == tenant_chain_steps(records@, expected_genesis@),
        r.status == invalid_or_valid(tenant_chain_steps(records@, expected_genesis@)),
        r.status == AuditStepStatus::Valid <==> tenant_chain_intact(records@, expected_genesis@),
        tenant_chain_intact(records@, expected_genesis@) ==> forall|i: int|
            0 <= i < r.steps@.len() ==> (#[trigger] r.steps@[i]).status == AuditStepStatus::Valid,
        r.record_count == records@.len(),
        r.sdk_version@ == SDK_VERSION@,
{
    let verified_at = now_rfc3339_secs();
    let mut steps: Vec<AuditStep> = Vec::new();
    if records.len() == 0 {
        push_step(
            &mut steps,
            invalid_step(
                own("records"),
                AuditStepKind::ChainLink,
                AuditReasonCode::MalformedPack,
                own("tenant chain audit received an empty record set — nothing to verify"),
                None,
            ),
        );
        assert(steps_view(steps@) =~= tenant_chain_steps(records@, expected_genesis@));
        proof {
            assert(steps_view(steps@)[0].status == AuditStepStatus::Invalid);
        }
        return ChainAuditReport {
            status: AuditStepStatus::Invalid,
            verified_at,
            sdk_version: own(SDK_VERSION),
            record_count: 0,
            steps,
        };
    }
    let first = &records[0];
    let first_prev = text_or_empty(&first.tenant_chain_prev);
    if !crate::text::str_eq(first_prev.as_str(), expected_genesis) {
        push_step(
            &mut steps,
            invalid_step(
                own("records[0].tenantChainPrev"),
                AuditStepKind::ChainLink,
                AuditReasonCode::ChainLinkMismatch,
                own(
                    "first record's tenantChainPrev does not equal the expected genesis seed — chain is rooted at an unknown prior tip",
                ),
                detail_pair(
                    "expected",
                    DetailValue::Text(own(expected_genesis)),
                    "actual",
                    DetailValue::Text(first_prev),
                ),
            ),
        );
    } else {
        push_step(
            &mut steps,
            valid_step(
                own("records[0].tenantChainPrev"),
                AuditStepKind::ChainLink,
                own("genesis prev seed matches the expected tenant seed"),
            ),
        );
    }
    let ghost head = steps_view(steps@);
    let mut prev_sequence: Option<u64> = None;
    let mut i: usize = 0;
    while i < records.len()
        invariant
            i <= records@.len(),
            head == seq![tenant_genesis_step(records@[0], expected_genesis@)],
            records@.len() > 0,
            steps_view(steps@) == head + tenant_walk(records@, i as nat).0,
            prev_sequence == tenant_walk(records@, i as nat).1,
        decreases records@.len() - i,
    {
        let (more, next_prev) = tenant_record_check(records, i, prev_sequence);
        append_steps(&mut steps, more);
        prev_sequence = next_prev;
        proof {
            assert(steps_view(steps@) =~= head + tenant_walk(records@, (i + 1) as nat).0);
        }
        i = i + 1;
    }
    assert(steps_view(steps@) =~= tenant_chain_steps(records@, expected_genesis@));
    let any_invalid = has_invalid(&steps);
    proof {
        lemma_tenant_chain_status(records@, expected_genesis@);
        lemma_tenant_chain_none_skipped(records@, expected_genesis@);
        let v = steps_view(steps@);
        if tenant_chain_intact(records@, expected_genesis@) {
            assert forall|i: int| 0 <= i < steps@.len() implies (#[trigger] steps@[i]).status
                == AuditStepStatus::Valid by {
                assert(v[i].status == steps@[i].status);
                if steps@[i].status == AuditStepStatus::Invalid {
                    assert(crate::types::any_invalid(v));
                }
            }
        }
    }
    ChainAuditReport {
        status: if any_invalid {
            AuditStepStatus::Invalid
        } else {
            AuditStepStatus::Valid
        },
        verified_at,
        sdk_version: own(SDK_VERSION),
        record_count: records.len(),
        steps,
    }
}

// ---------------------------------------------------------------------
// The verdict law
// ---------------------------------------------------------------------

proof fn lemma_tenant_record_clean(records: Seq<TenantChainedRecord>, i: int, prev: Option<u64>)
    requires
        0 <= i < records.len(),
        i == 0 ==> prev is None,
        i > 0 ==> prev == parse_u64_spec(records[i - 1].tenant_chain_sequence@),
        i > 0 ==> parse_u64_spec(records[i - 1].tenant_chain_sequence@) is Some,
    ensures
        !any_invalid(tenant_record_steps(records, i, prev)) <==> tenant_record_intact(records, i),
{
    let r = records[i];
    match parse_u64_spec(r.tenant_chain_sequence@) {
        None => {
            lemma_any_invalid_single(tenant_record_steps(records, i, prev)[0]);
            assert(tenant_record_steps(records, i, prev) == seq![tenant_record_steps(records, i, prev)[0]]);
        },
        Some(c) => {
            let ss = tenant_sequence_steps(i, c, prev);
            let ls = tenant_link_steps(records, i);
            let ns = seq![tenant_next_step(r, i, c)];
            lemma_any_invalid_concat(ss, ls);
            lemma_any_invalid_concat(ss + ls, ns);
            lemma_any_invalid_single(tenant_next_step(r, i, c));
            if ss.len() > 0 {
                lemma_any_invalid_single(ss[0]);
                assert(ss == seq![ss[0]]);
            }
            if ls.len() > 0 {
                lemma_any_invalid_single(ls[0]);
                assert(ls == seq![ls[0]]);
            }
        },
    }
}

proof fn lemma_tenant_walk_clean(records: Seq<TenantChainedRecord>, k: nat)
    requires
        k <= records.len(),
    ensures
        !any_invalid(tenant_walk(records, k).0) <==> (forall|i: int| 0 <= i < k ==> #[trigger] tenant_record_intact(records, i)),
        k == 0 ==> tenant_walk(records, k).1 is None,
        k > 0 && parse_u64_spec(records[k - 1].tenant_chain_sequence@) is Some ==> tenant_walk(records, k).1 == parse_u64_spec(records[k - 1].tenant_chain_sequence@),
        k > 0 && parse_u64_spec(records[k - 1].tenant_chain_sequence@) is None ==> !tenant_record_intact(records, k - 1),
    decreases k,
{
    if k > 0 {
        lemma_tenant_walk_clean(records, (k - 1) as nat);
        let (steps, prev) = tenant_walk(records, (k - 1) as nat);
        let i = k - 1;
        lemma_any_invalid_concat(steps, tenant_record_steps(records, i, prev));
        let prefix_ok = forall|j: int| 0 <= j < i ==> #[trigger] tenant_record_intact(records, j);
        if prefix_ok {
            if i > 0 {
                assert(tenant_record_intact(records, i - 1));
            }
            lemma_tenant_record_clean(records, i, prev);
        } else {
            assert(any_invalid(steps));
        }
        if (forall|j: int| 0 <= j < k ==> #[trigger] tenant_record_intact(records, j)) {
            assert(prefix_ok);
            assert(tenant_record_intact(records, i));
        }
    }
}

/// The audit's verdict is VALID exactly when the chain is intact.
proof fn lemma_tenant_chain_status(records: Seq<TenantChainedRecord>, expected_genesis: Seq<char>)
    ensures
        !any_invalid(tenant_chain_steps(records, expected_genesis)) <==> tenant_chain_intact(records, expected_genesis),
{
    if records.len() == 0 {
        lemma_any_invalid_single(empty_tenant_chain_step());
    } else {
        lemma_tenant_walk_clean(records, records.len());
        let g = seq![tenant_genesis_step(records[0], expected_genesis)];
        let w = tenant_walk(records, records.len()).0;
        lemma_any_invalid_concat(g, w);
        lemma_any_invalid_single(tenant_genesis_step(records[0], expected_genesis));
    }
}

proof fn lemma_tenant_walk_none_skipped(records: Seq<TenantChainedRecord>, k: nat)
    requires
        k <= records.len(),
    ensures
        none_skipped(tenant_walk(records, k).0),
    decreases k,
{
    if k > 0 {
        lemma_tenant_walk_none_skipped(records, (k - 1) as nat);
        let (steps, prev) = tenant_walk(records, (k - 1) as nat);
        let i = k - 1;
        let rs = tenant_record_steps(records, i, prev);
        match parse_u64_spec(records[i].tenant_chain_sequence@) {
            None => {
                assert(rs[0].status == AuditStepStatus::Invalid);
            },
            Some(c) => {
                let ss = tenant_sequence_steps(i, c, prev);
                let ls = tenant_link_steps(records, i);
                let ns = seq![tenant_next_step(records[i], i, c)];
                assert(none_skipped(ss)) by {
                    if ss.len() > 0 {
                        assert(ss[0].status == AuditStepStatus::Invalid);
                    }
                }
                assert(none_skipped(ls)) by {
                    if ls.len() > 0 {
                        assert(ls[0].status != AuditStepStatus::Skipped);
                    }
                }
                assert(none_skipped(ns)) by {
                    assert(ns[0].status != AuditStepStatus::Skipped);
                }
                lemma_none_skipped_concat(ss, ls);
                lemma_none_skipped_concat(ss + ls, ns);
            },
        }
        lemma_none_skipped_concat(steps, rs);
    }
}

/// No step of a tenant-chain audit is SKIPPED.
proof fn lemma_tenant_chain_none_skipped(records: Seq<TenantChainedRecord>, expected_genesis: Seq<char>)
    ensures
        none_skipped(tenant_chain_steps(records, expected_genesis)),
{
    if records.len() > 0 {
        let g = seq![tenant_genesis_step(records[0], expected_genesis)];
        assert(g[0].status != AuditStepStatus::Skipped);
        lemma_tenant_walk_none_skipped(records, records.len());
        lemma_none_skipped_concat(g, tenant_walk(records, records.len()).0);
    } else {
        assert(tenant_chain_steps(records, expected_genesis)[0].status == AuditStepStatus::Invalid);
    }
}

} // verus!
