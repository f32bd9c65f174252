//! SHA-256 helpers and the idem-key reconstructions built on them.

pub mod hex;

use vstd::prelude::*;
use sha2::{Digest, Sha256};
use vstd::utf8::encode_utf8;
use crate::hashing::hex::{encode, hex_lower, lemma_hex_lower_len};

verus! {

/// The SHA-256 digest of a byte string.
pub uninterp spec fn sha256_digest(data: Seq<u8>) -> Seq<u8>;

/// `sha2::Sha256` over a byte slice: the returned 32 bytes are the digest
/// of `data`.
#[verifier::external_body]
fn sha256_bytes(data: &[u8]) -> (r: Vec<u8>)
    ensures
        r@ == sha256_digest(data@),
        r@.len() == 32,
{
    Sha256::digest(data).to_vec()
}

/// Lowercase hex SHA-256 of the UTF-8 bytes of a text.
pub open spec fn sha256_hex_of(text: Seq<char>) -> Seq<char> {
    hex_lower(sha256_digest(encode_utf8(text)))
}

/// Lowercase hex SHA-256 of a string's UTF-8 bytes (no prefix).
pub fn sha256_hex(input: &str) -> (r: String)
    ensures
        r@ == sha256_hex_of(input@),
        r@.len() == 64,
{
    let digest = sha256_bytes(input.as_bytes());
    proof {
        lemma_hex_lower_len(digest@);
    }
    encode(digest.as_slice())
}

/// `sha256:` followed by the lowercase hex SHA-256 of the input.
pub fn sha256_hex_prefixed(input: &str) -> (r: String)
    ensures
        r@ == "sha256:"@ + sha256_hex_of(input@),
{
    let mut out = crate::text::own("sha256:");
    let h = sha256_hex(input);
    out.append(h.as_str());
    out
}

/// MeterRecord idem key: `sha256(proofReceiptId|unitType)`.
pub open spec fn meter_idem_key_of(proof_receipt_id: Seq<char>, unit_type: Seq<char>) -> Seq<char> {
    sha256_hex_of(proof_receipt_id + "|"@ + unit_type)
}

/// SettlementLine idem key (settlement.v2):
/// `sha256(meterRecordIdemKey|partyRole|ledgerAccountCode)`.
pub open spec fn settlement_idem_key_of(
    meter_record_idem_key: Seq<char>,
    party_role: Seq<char>,
    ledger_account_code: Seq<char>,
) -> Seq<char> {
    sha256_hex_of(meter_record_idem_key + "|"@ + party_role + "|"@ + ledger_account_code)
}

/// Legacy SettlementLine idem key (settlement.v1):
/// `sha256(meterRecordIdemKey|partyRole)`.
pub open spec fn settlement_idem_key_v1_of(meter_record_idem_key: Seq<char>, party_role: Seq<char>) -> Seq<char> {
    sha256_hex_of(meter_record_idem_key + "|"@ + party_role)
}

/// MeterRecord idem key reconstruction.
pub fn meter_idem_key(proof_receipt_id: &str, unit_type: &str) -> (r: String)
    ensures
        r@ == meter_idem_key_of(proof_receipt_id@, unit_type@),
{
    let mut s = crate::text::own(proof_receipt_id);
    s.append("|");
    s.append(unit_type);
    sha256_hex(s.as_str())
}

/// SettlementLine idem key reconstruction (settlement.v2): the ledger
/// account code is bound into the hash so two splits for one meter and
/// role but different accounts cannot collide.
pub fn settlement_idem_key(
    meter_record_idem_key: &str,
    party_role: &str,
    ledger_account_code: &str,
) -> (r: String)
    ensures
        r@ == settlement_idem_key_of(meter_record_idem_key@, party_role@, ledger_account_code@),
{
    let mut s = crate::text::own(meter_record_idem_key);
    s.append("|");
    s.append(party_role);
    s.append("|");
    s.append(ledger_account_code);
    sha256_hex(s.as_str())
}

/// SettlementLine idem key reconstruction for legacy settlement.v1 packs.
pub fn settlement_idem_key_v1(meter_record_idem_key: &str, party_role: &str) -> (r: String)
    ensures
        r@ == settlement_idem_key_v1_of(meter_record_idem_key@, party_role@),
{
    let mut s = crate::text::own(meter_record_idem_key);
    s.append("|");
    s.append(party_role);
    sha256_hex(s.as_str())
}

/// Byte-slice comparison whose running time depends only on the lengths.
pub fn constant_time_equal(a: &[u8], b: &[u8]) -> (r: bool)
    ensures
        r == (a@ == b@),
{
    if a.len() != b.len() {
        return false;
    }
    let mut diff: u8 = 0;
    let mut i: usize = 0;
    while i < a.len()
        invariant
            a@.len() == b@.len(),
            0 <= i <= a@.len(),
            (diff == 0) == (forall|j: int| 0 <= j < i ==> a@[j] == b@[j]),
        decreases a@.len() - i,
    {
        let x = a[i];
        let y = b[i];
        let old_diff = diff;
        diff = diff | (x ^ y);
        assert((old_diff | (x ^ y)) == 0 <==> (old_diff == 0 && x == y)) by (bit_vector);
        proof {
            if diff == 0 {
                assert forall|j: int| 0 <= j < i + 1 implies a@[j] == b@[j] by {
                    if j < i {
                    }
                }
            }
        }
        i = i + 1;
    }
    proof {
        if diff == 0 {
            assert(a@ =~= b@);
        }
    }
    diff == 0
}

/// Comparison of two strings by their UTF-8 bytes, in time that depends
/// only on the lengths.
pub fn constant_time_hex_equal(a: &str, b: &str) -> (r: bool)
    ensures
        r == (a@ == b@),
{
    if a.len() != b.len() {
        proof {
            if a@ == b@ {
                assert(encode_utf8(a@) == encode_utf8(b@));
            }
        }
        return false;
    }
    let r = constant_time_equal(a.as_bytes(), b.as_bytes());
    proof {
        if r {
            vstd::utf8::encode_utf8_decode_utf8(a@);
            vstd::utf8::encode_utf8_decode_utf8(b@);
        }
    }
    r
}

} // verus!
