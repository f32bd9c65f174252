//! Proof-chain walking and continuity verification.

use vstd::prelude::*;
use crate::clock::{now_rfc3339, parse_iso, rfc3339_millis};
use crate::text::{decimal, indexed, opt_view, own, usize_to_decimal};
use crate::types::{
    any_invalid, append_steps, detail2, detail_pair, has_invalid, invalid_or_valid, invalid_step,
    invalid_sv, lemma_any_invalid_concat, lemma_any_invalid_single, opt_text, opt_text_value,
    push_step, steps_view, valid_step, valid_sv, AuditReasonCode, AuditStep, AuditStepKind,
    AuditStepStatus, ChainAuditReport, DetailEntry, DetailValue, DetailView, ProofRecord, StepView,
    SDK_VERSION,
};

verus! {

pub open spec fn empty_chain_step() -> StepView {
    invalid_sv(
        "records"@,
        AuditStepKind::ChainLink,
        AuditReasonCode::MalformedPack,
        "proof chain is empty — cannot audit a zero-record pack"@,
        None,
    )
}

/// The first record's link: to nothing (`prior` absent) or to the prior
/// pack's tail `afterHash`.
pub open spec fn genesis_link_ok(first: ProofRecord, prior: Option<Seq<char>>) -> bool {
    opt_view(first.before_hash) == prior
}

pub open spec fn genesis_step(first: ProofRecord, prior: Option<Seq<char>>) -> StepView {
    match prior {
        None => match first.before_hash {
            Some(h) => invalid_sv(
                "records[0].beforeHash"@,
                AuditStepKind::ChainLink,
                AuditReasonCode::GenesisBeforeHashNotNull,
                "first record carries a non-null beforeHash"@,
                Some(seq![("beforeHash"@, DetailView::Text(h@))]),
            ),
            None => valid_sv(
                "records[0].beforeHash"@,
                AuditStepKind::ChainLink,
                "genesis record has null beforeHash, as expected"@,
            ),
        },
        Some(p) => if opt_view(first.before_hash) == Some(p) {
            valid_sv(
                "records[0].beforeHash"@,
                AuditStepKind::ChainLink,
                "record[0] correctly chains off the prior pack's afterHash"@,
            )
        } else {
            invalid_sv(
                "records[0].beforeHash"@,
                AuditStepKind::ChainLink,
                AuditReasonCode::ChainLinkMismatch,
                "record[0].beforeHash does not equal the prior pack's afterHash"@,
                detail2(
                    "expected"@,
                    DetailView::Text(p),
                    "actual"@,
                    opt_text(opt_view(first.before_hash)),
                ),
            )
        },
    }
}

/// The continuity step of record `i > 0`.
pub open spec fn link_step(records: Seq<ProofRecord>, i: int) -> StepView {
    let curr = records[i];
    let prev = records[i - 1];
    match curr.before_hash {
        None => invalid_sv(
            "records["@ + decimal(i as nat) + "].beforeHash"@,
            AuditStepKind::ChainLink,
            AuditReasonCode::GenesisBeforeHashNotNull,
            "non-genesis record at index "@ + decimal(i as nat) + " carries a null beforeHash"@,
            None,
        ),
        Some(b) => if b@ != prev.after_hash@ {
            invalid_sv(
                "records["@ + decimal(i as nat) + "].beforeHash"@,
                AuditStepKind::ChainLink,
                AuditReasonCode::ChainLinkMismatch,
                "record["@ + decimal(i as nat) + "].beforeHash does not equal record["@ + decimal(
                    (i - 1) as nat,
                ) + "].afterHash"@,
                detail2("expected"@, DetailView::Text(prev.after_hash@), "actual"@, DetailView::Text(b@)),
            )
        } else {
            valid_sv(
                "records["@ + decimal(i as nat) + "].beforeHash"@,
                AuditStepKind::ChainLink,
                "record["@ + decimal(i as nat) + "] correctly chains off record["@ + decimal(
                    (i - 1) as nat,
                ) + "]"@,
            )
        },
    }
}

/// Record `i`'s `issuedAt` parses to an earlier instant than record
/// `i - 1`'s (both must parse).
pub open spec fn issued_earlier(records: Seq<ProofRecord>, i: int) -> bool {
    match (
        rfc3339_millis(records[i].payload.issued_at@),
        rfc3339_millis(records[i - 1].payload.issued_at@),
    ) {
        (Some(c), Some(p)) => c < p,
        _ => false,
    }
}

/// The ordering step of record `i > 0`, if it is out of order.
pub open spec fn order_steps(records: Seq<ProofRecord>, i: int) -> Seq<StepView> {
    if issued_earlier(records, i) {
        seq![
            invalid_sv(
                "records["@ + decimal(i as nat) + "].payload.issuedAt"@,
                AuditStepKind::ChainLink,
                AuditReasonCode::ChainOutOfOrder,
                "record["@ + decimal(i as nat) + "].issuedAt is earlier than record["@ + decimal(
                    (i - 1) as nat,
                ) + "].issuedAt"@,
                None,
            ),
        ]
    } else {
        Seq::empty()
    }
}

/// Continuity and ordering steps of records `1..k`.
pub open spec fn link_walk(records: Seq<ProofRecord>, k: nat) -> Seq<StepView>
    decreases k,
{
    if k <= 1 {
        Seq::empty()
    } else {
        link_walk(records, (k - 1) as nat) + seq![link_step(records, k - 1)] + order_steps(
            records,
            k - 1,
        )
    }
}

/// The smallest index below `j` whose nonce equals record `i`'s.
pub open spec fn first_nonce_below(records: Seq<ProofRecord>, i: int, j: nat) -> Option<nat>
    decreases j,
{
    if j == 0 {
        None
    } else {
        match first_nonce_below(records, i, (j - 1) as nat) {
            Some(x) => Some(x),
            None => if records[j - 1].payload.nonce@ == records[i].payload.nonce@ {
                Some((j - 1) as nat)
            } else {
                None
            },
        }
    }
}

pub open spec fn nonce_step(i: int, first: nat) -> StepView {
    invalid_sv(
        "records["@ + decimal(i as nat) + "].payload.nonce"@,
        AuditStepKind::ChainLink,
        AuditReasonCode::ChainNonceReused,
        "record["@ + decimal(i as nat) + "] reuses a nonce first seen at record["@ + decimal(first)
            + "] — per-org nonce uniqueness is enforced; a repeat indicates a replayed or duplicated receipt"@,
        detail2(
            "firstIndex"@,
            DetailView::Integer(first as int),
            "duplicateIndex"@,
            DetailView::Integer(i),
        ),
    )
}

/// Reuse steps of records `0..k`.
pub open spec fn nonce_walk(records: Seq<ProofRecord>, k: nat) -> Seq<StepView>
    decreases k,
{
    if k == 0 {
        Seq::empty()
    } else {
        nonce_walk(records, (k - 1) as nat) + match first_nonce_below(
            records,
            k - 1,
            (k - 1) as nat,
        ) {
            Some(f) => seq![nonce_step(k - 1, f)],
            None => Seq::empty(),
        }
    }
}

pub open spec fn nonce_steps(records: Seq<ProofRecord>) -> Seq<StepView> {
    let reuse = nonce_walk(records, records.len());
    if reuse.len() == 0 {
        seq![
            valid_sv(
                "records[].payload.nonce"@,
                AuditStepKind::ChainLink,
                "all "@ + decimal(records.len()) + " record nonces are unique"@,
            ),
        ]
    } else {
        reuse
    }
}

/// Every step of a proof-chain audit, in order.
pub open spec fn proof_chain_steps(records: Seq<ProofRecord>, prior: Option<Seq<char>>) -> Seq<StepView> {
    if records.len() == 0 {
        seq![empty_chain_step()]
    } else {
        seq![genesis_step(records[0], prior)] + link_walk(records, records.len()) + nonce_steps(
            records,
        )
    }
}

/// Record `i > 0` links to record `i - 1` and was not issued earlier.
pub open spec fn link_intact(records: Seq<ProofRecord>, i: int) -> bool {
    &&& opt_view(records[i].before_hash) == Some(records[i - 1].after_hash@)
    &&& !issued_earlier(records, i)
}

/// A chain as the platform seals it: non-empty; the first record's
/// `beforeHash` absent, or equal to the prior pack's tail when one is
/// given; each later `beforeHash` equal to the previous `afterHash`;
/// `issuedAt` never decreasing (where both instants parse); every nonce
/// distinct.
pub open spec fn proof_chain_intact(records: Seq<ProofRecord>, prior: Option<Seq<char>>) -> bool {
    &&& records.len() > 0
    &&& genesis_link_ok(records[0], prior)
    &&& forall|i: int| 0 < i < records.len() ==> #[trigger] link_intact(records, i)
    &&& forall|i: int, j: int|
        0 <= i < j < records.len() ==> #[trigger] records[i].payload.nonce@
            != #[trigger] records[j].payload.nonce@
}

fn genesis_check(first: &ProofRecord, prior_after_hash: Option<&str>) -> (r: AuditStep)
    ensures
        step_view_eq(r, genesis_step(*first, crate::tenant_chain::opt_str_view(prior_after_hash))),
{
    match prior_after_hash {
        None => match &first.before_hash {
            Some(h) => {
                let mut detail: Vec<DetailEntry> = Vec::new();
                detail.push(DetailEntry { key: own("beforeHash"), value: DetailValue::Text(h.clone()) });
                let d = Some(detail);
                assert(crate::types::detail_view(d)->0 =~= seq![("beforeHash"@, DetailView::Text(h@))]);
                invalid_step(
                    own("records[0].beforeHash"),
                    AuditStepKind::ChainLink,
                    AuditReasonCode::GenesisBeforeHashNotNull,
                    own("first record carries a non-null beforeHash"),
                    d,
                )
            },
            None => valid_step(
                own("records[0].beforeHash"),
                AuditStepKind::ChainLink,
                own("genesis record has null beforeHash, as expected"),
            ),
        },
        Some(p) => {
            let matches = match &first.before_hash {
                Some(b) => crate::text::str_eq(b.as_str(), p),
                None => false,
            };
            if matches {
                valid_step(
                    own("records[0].beforeHash"),
                    AuditStepKind::ChainLink,
                    own("record[0] correctly chains off the prior pack's afterHash"),
                )
            } else {
                invalid_step(
                    own("records[0].beforeHash"),
                    AuditStepKind::ChainLink,
                    AuditReasonCode::ChainLinkMismatch,
                    own("record[0].beforeHash does not equal the prior pack's afterHash"),
                    detail_pair(
                        "expected",
                        DetailValue::Text(own(p)),
                        "actual",
                        opt_text_value(&first.before_hash),
                    ),
                )
            }
        },
    }
}

pub open spec fn step_view_eq(s: AuditStep, v: StepView) -> bool {
    crate::types::step_view(s) == v
}

fn link_check(records: &[ProofRecord], i: usize) -> (r: Vec<AuditStep>)
    requires
        0 < i < records@.len(),
    ensures
        steps_view(r@) == seq![link_step(records@, i as int)] + order_steps(records@, i as int),
{
    let mut steps: Vec<AuditStep> = Vec::new();
    let curr = &records[i];
    let prev = &records[i - 1];
    match &curr.before_hash {
        None => {
            let mut message = own("non-genesis record at index ");
            let d = usize_to_decimal(i);
            message.append(d.as_str());
            message.append(" carries a null beforeHash");
            push_step(
                &mut steps,
                invalid_step(
                    indexed("records[", i, "].beforeHash"),
                    AuditStepKind::ChainLink,
                    AuditReasonCode::GenesisBeforeHashNotNull,
                    message,
                    None,
                ),
            );
        },
        Some(curr_before) => {
            if *curr_before != prev.after_hash {
                let mut message = indexed("record[", i, "].beforeHash does not equal record[");
                let d = usize_to_decimal(i - 1);
                message.append(d.as_str());
                message.append("].afterHash");
                push_step(
                    &mut steps,
                    invalid_step(
                        indexed("records[", i, "].beforeHash"),
                        AuditStepKind::ChainLink,
                        AuditReasonCode::ChainLinkMismatch,
                        message,
                        detail_pair(
                            "expected",
                            DetailValue::Text(prev.after_hash.clone()),
                            "actual",
                            DetailValue::Text(curr_before.clone()),
                        ),
                    ),
                );
            } else {
                let mut message = indexed("record[", i, "] correctly chains off record[");
                let d = usize_to_decimal(i - 1);
                message.append(d.as_str());
                message.append("]");
                push_step(
                    &mut steps,
                    valid_step(indexed("records[", i, "].beforeHash"), AuditStepKind::ChainLink, message),
                );
            }
        },
    }
    let curr_ms = parse_iso(curr.payload.issued_at.as_str());
    let prev_ms = parse_iso(prev.payload.issued_at.as_str());
    match (curr_ms, prev_ms) {
        (Some(c), Some(p)) => {
            if c < p {
                let mut message = indexed("record[", i, "].issuedAt is earlier than record[");
                let d = usize_to_decimal(i - 1);
                message.append(d.as_str());
                message.append("].issuedAt");
                push_step(
                    &mut steps,
                    invalid_step(
                        indexed("records[", i, "].payload.issuedAt"),
                        AuditStepKind::ChainLink,
                        AuditReasonCode::ChainOutOfOrder,
                        message,
                        None,
                    ),
                );
            }
        },
        _ => {},
    }
    assert(steps_view(steps@) =~= seq![link_step(records@, i as int)] + order_steps(records@, i as int));
    steps
}

/// The first index below `i` whose nonce equals record `i`'s.
fn first_nonce_index(records: &[ProofRecord], i: usize) -> (r: Option<usize>)
    requires
        i < records@.len(),
    ensures
        match r {
            Some(x) => first_nonce_below(records@, i as int, i as nat) == Some(x as nat),
            None => first_nonce_below(records@, i as int, i as nat) is None,
        },
{
    let mut j: usize = 0;
    while j < i
        invariant
            j <= i < records@.len(),
            first_nonce_below(records@, i as int, j as nat) is None,
        decreases i - j,
    {
        if records[j].payload.nonce == records[i].payload.nonce {
            proof {
                lemma_first_nonce_stable(records@, i as int, (j + 1) as nat, i as nat);
            }
            return Some(j);
        }
        j = j + 1;
    }
    None
}

proof fn lemma_first_nonce_stable(records: Seq<ProofRecord>, i: int, j: nat, k: nat)
    requires
        j <= k,
        first_nonce_below(records, i, j) is Some,
    ensures
        first_nonce_below(records, i, k) == first_nonce_below(records, i, j),
    decreases k - j,
{
    if j < k {
        lemma_first_nonce_stable(records, i, j, (k - 1) as nat);
    }
}

/// Walk records in array order; report each link's status.
///
/// Invariants checked: the first record's `beforeHash` is absent, or equals
/// `prior_after_hash` when the previous pack's tail is given; every later
/// `beforeHash` equals the previous `afterHash`; `issuedAt` never decreases;
/// no nonce repeats.
pub fn verify_proof_chain(records: &[ProofRecord], prior_after_hash: Option<&str>) -> (r:
    ChainAuditReport)
    ensures
        steps_view(r.steps@) == proof_chain_steps(
            records@,
            crate::tenant_chain::opt_str_view(prior_after_hash),
        ),
        r.status == invalid_or_valid(
            proof_chain_steps(records@, crate::tenant_chain::opt_str_view(prior_after_hash)),
        ),
        r.status == AuditStepStatus::Valid <==> proof_chain_intact(
            records@,
            crate::tenant_chain::opt_str_view(prior_after_hash),
        ),
        r.record_count == records@.len(),
        r.sdk_version@ == SDK_VERSION@,
{
    let ghost prior = crate::tenant_chain::opt_str_view(prior_after_hash);
    let verified_at = now_rfc3339();
    let mut steps: Vec<AuditStep> = Vec::new();
    if records.len() == 0 {
        push_step(
            &mut steps,
            invalid_step(
                own("records"),
                AuditStepKind::ChainLink,
                AuditReasonCode::MalformedPack,
                own("proof chain is empty — cannot audit a zero-record pack"),
                None,
            ),
        );
        assert(steps_view(steps@) =~= proof_chain_steps(records@, prior));
        proof {
            lemma_any_invalid_single(empty_chain_step());
        }
        return ChainAuditReport {
            status: AuditStepStatus::Invalid,
            verified_at,
            sdk_version: own(SDK_VERSION),
            record_count: 0,
            steps,
        };
    }
    push_step(&mut steps, genesis_check(&records[0], prior_after_hash));
    let ghost head = steps_view(steps@);
    let mut i: usize = 1;
    while i < records.len()
        invariant
            1 <= i <= records@.len(),
            steps_view(steps@) == head + link_walk(records@, i as nat),
        decreases records@.len() - i,
    {
        let more = link_check(records, i);
        append_steps(&mut steps, more);
        proof {
            assert(steps_view(steps@) =~= head + link_walk(records@, (i + 1) as nat));
        }
        i = i + 1;
    }
    let ghost mid = steps_view(steps@);
    let mut reused = false;
    let mut k: usize = 0;
    while k < records.len()
        invariant
            k <= records@.len(),
            steps_view(steps@) == mid + nonce_walk(records@, k as nat),
            reused == (nonce_walk(records@, k as nat).len() > 0),
        decreases records@.len() - k,
    {
        match first_nonce_index(records, k) {
            Some(first_idx) => {
                reused = true;
                let mut message = indexed("record[", k, "] reuses a nonce first seen at record[");
                let d = usize_to_decimal(first_idx);
                message.append(d.as_str());
                message.append(
                    "] — per-org nonce uniqueness is enforced; a repeat indicates a replayed or duplicated receipt",
                );
                push_step(
                    &mut steps,
                    invalid_step(
                        indexed("records[", k, "].payload.nonce"),
                        AuditStepKind::ChainLink,
                        AuditReasonCode::ChainNonceReused,
                        message,
                        detail_pair(
                            "firstIndex",
                            DetailValue::Integer(first_idx as i128),
                            "duplicateIndex",
                            DetailValue::Integer(k as i128),
                        ),
                    ),
                );
            },
            None => {},
        }
        proof {
            assert(steps_view(steps@) =~= mid + nonce_walk(records@, (k + 1) as nat));
        }
        k = k + 1;
    }
    if !reused {
        let mut message = own("all ");
        let d = usize_to_decimal(records.len());
        message.append(d.as_str());
        message.append(" record nonces are unique");
        push_step(
            &mut steps,
            valid_step(own("records[].payload.nonce"), AuditStepKind::ChainLink, message),
        );
    }
    assert(steps_view(steps@) =~= proof_chain_steps(records@, prior));
    let any_invalid = has_invalid(&steps);
    proof {
        lemma_proof_chain_status(records@, prior);
    }
    ChainAuditReport {
        status: if any_invalid {
            AuditStepStatus::Invalid
        } else {
            AuditStepStatus::Valid
        },
        verified_at,
        sdk_version: own(SDK_VERSION),
        record_count: records.len(),
        steps,
    }
}

// ---------------------------------------------------------------------
// The verdict law
// ---------------------------------------------------------------------

proof fn lemma_link_walk_clean(records: Seq<ProofRecord>, k: nat)
    requires
        1 <= k <= records.len(),
    ensures
        !any_invalid(link_walk(records, k)) <==> (forall|i: int| 0 < i < k ==> #[trigger] link_intact(records, i)),
    decreases k,
{
    if k > 1 {
        lemma_link_walk_clean(records, (k - 1) as nat);
        let i = k - 1;
        let w = link_walk(records, (k - 1) as nat);
        let l = seq![link_step(records, i)];
        let o = order_steps(records, i);
        lemma_any_invalid_concat(w, l);
        lemma_any_invalid_concat(w + l, o);
        lemma_any_invalid_single(link_step(records, i));
        if o.len() > 0 {
            lemma_any_invalid_single(o[0]);
            assert(o == seq![o[0]]);
        }
        assert(link_step(records, i).status != AuditStepStatus::Invalid <==> opt_view(records[i].before_hash)
            == Some(records[i - 1].after_hash@));
        if (forall|j: int| 0 < j < k ==> #[trigger] link_intact(records, j)) {
            assert(link_intact(records, i));
        }
    } else {
        assert(link_walk(records, k) =~= Seq::<StepView>::empty());
    }
}

proof fn lemma_nonce_walk_clean(records: Seq<ProofRecord>, k: nat)
    requires
        k <= records.len(),
    ensures
        nonce_walk(records, k).len() == 0 <==> (forall|i: int, j: int|
            0 <= i < j < k ==> #[trigger] records[i].payload.nonce@ != #[trigger] records[j].payload.nonce@),
        any_invalid(nonce_walk(records, k)) <==> nonce_walk(records, k).len() > 0,
    decreases k,
{
    if k > 0 {
        lemma_nonce_walk_clean(records, (k - 1) as nat);
        let j = k - 1;
        let w = nonce_walk(records, (k - 1) as nat);
        let f = first_nonce_below(records, j, j as nat);
        let t = match f {
            Some(x) => seq![nonce_step(j, x)],
            None => Seq::empty(),
        };
        lemma_any_invalid_concat(w, t);
        lemma_first_nonce_spec(records, j, j as nat);
        if t.len() > 0 {
            lemma_any_invalid_single(t[0]);
            assert(t == seq![t[0]]);
        }
        if f is Some {
            let x = f->0;
            assert(records[x as int].payload.nonce@ == records[j].payload.nonce@);
        }
        if w.len() == 0 && f is None {
            assert forall|a: int, b: int| 0 <= a < b < k implies #[trigger] records[a].payload.nonce@
                != #[trigger] records[b].payload.nonce@ by {
                if b == j {
                    assert(records[a].payload.nonce@ != records[j].payload.nonce@);
                }
            }
        }
    }
}

proof fn lemma_first_nonce_spec(records: Seq<ProofRecord>, i: int, j: nat)
    ensures
        first_nonce_below(records, i, j) matches Some(x) ==> x < j && records[x as int].payload.nonce@
            == records[i].payload.nonce@,
        first_nonce_below(records, i, j) is None ==> forall|x: int|
            0 <= x < j ==> records[x].payload.nonce@ != records[i].payload.nonce@,
    decreases j,
{
    if j > 0 {
        lemma_first_nonce_spec(records, i, (j - 1) as nat);
    }
}

/// The proof-chain verdict is VALID exactly when the chain is intact.
pub proof fn lemma_proof_chain_status(records: Seq<ProofRecord>, prior: Option<Seq<char>>)
    ensures
        !any_invalid(proof_chain_steps(records, prior)) <==> proof_chain_intact(records, prior),
{
    if records.len() == 0 {
        lemma_any_invalid_single(empty_chain_step());
    } else {
        let g = seq![genesis_step(records[0], prior)];
        let w = link_walk(records, records.len());
        let n = nonce_steps(records);
        lemma_any_invalid_concat(g, w);
        lemma_any_invalid_concat(g + w, n);
        lemma_any_invalid_single(genesis_step(records[0], prior));
        lemma_link_walk_clean(records, records.len());
        lemma_nonce_walk_clean(records, records.len());
        if nonce_walk(records, records.len()).len() == 0 {
            lemma_any_invalid_single(n[0]);
            assert(n == seq![n[0]]);
        }
        assert(genesis_step(records[0], prior).status != AuditStepStatus::Invalid <==> genesis_link_ok(
            records[0],
            prior,
        ));
    }
}

} // verus!
