//! Canonical encoders: the field-ordered proof-receipt encoding, the
//! recursive sort-key encoding, and base64url.

use vstd::prelude::*;
use base64::engine::general_purpose::URL_SAFE_NO_PAD;
use base64::Engine;
use crate::hashing::hex::hex_digit;
use crate::hashing::{sha256_hex, sha256_hex_of};
use crate::text::{
    chars_of, i128_to_decimal, int_decimal, is_ascii_alphanumeric, is_white_space, own,
    string_push, char_is_white_space,
};
use crate::types::ProofReceiptPayload;

pub mod sort_keys;

pub use sort_keys::{canonical_sort_keys, JsonMember, JsonValue};

verus! {

// ---------------------------------------------------------------------
// JSON string literals
// ---------------------------------------------------------------------

/// The JSON escape of one character: `"` and `\` backslash-escaped, the
/// five short control escapes, other control characters as `\u00xx`
/// (lowercase hex), everything else verbatim.
pub open spec fn json_escape_char(c: char) -> Seq<char> {
    if c == '"' {
        seq!['\\', '"']
    } else if c == '\\' {
        seq!['\\', '\\']
    } else if c == '\n' {
        seq!['\\', 'n']
    } else if c == '\r' {
        seq!['\\', 'r']
    } else if c == '\t' {
        seq!['\\', 't']
    } else if c == '\x08' {
        seq!['\\', 'b']
    } else if c == '\x0c' {
        seq!['\\', 'f']
    } else if (c as u32) < 0x20 {
        seq![
            '\\',
            'u',
            '0',
            '0',
            hex_digit(((c as u32) / 16) as nat),
            hex_digit(((c as u32) % 16) as nat),
        ]
    } else {
        seq![c]
    }
}

pub open spec fn json_escape(s: Seq<char>) -> Seq<char>
    decreases s.len(),
{
    if s.len() == 0 {
        Seq::empty()
    } else {
        json_escape(s.drop_last()) + json_escape_char(s.last())
    }
}

/// A JSON string literal for the text.
pub open spec fn json_string(s: Seq<char>) -> Seq<char> {
    seq!['"'] + json_escape(s) + seq!['"']
}

/// JSON for an optional string: the literal, or `null`.
pub open spec fn json_opt_string(o: Option<Seq<char>>) -> Seq<char> {
    match o {
        Some(s) => json_string(s),
        None => "null"@,
    }
}

fn push_escaped_char(out: &mut String, c: char)
    ensures
        final(out)@ == old(out)@ + json_escape_char(c),
{
    if c == '"' {
        string_push(out, '\\');
        string_push(out, '"');
    } else if c == '\\' {
        string_push(out, '\\');
        string_push(out, '\\');
    } else if c == '\n' {
        string_push(out, '\\');
        string_push(out, 'n');
    } else if c == '\r' {
        string_push(out, '\\');
        string_push(out, 'r');
    } else if c == '\t' {
        string_push(out, '\\');
        string_push(out, 't');
    } else if c == '\x08' {
        string_push(out, '\\');
        string_push(out, 'b');
    } else if c == '\x0c' {
        string_push(out, '\\');
        string_push(out, 'f');
    } else if (c as u32) < 0x20 {
        let u = c as u32;
        let hi = (u / 16) as u8;
        let lo = (u % 16) as u8;
        string_push(out, '\\');
        string_push(out, 'u');
        string_push(out, '0');
        string_push(out, '0');
        let hc = if hi < 10 { (hi + 48) as char } else { (hi - 10 + 97) as char };
        let lc = if lo < 10 { (lo + 48) as char } else { (lo - 10 + 97) as char };
        string_push(out, hc);
        string_push(out, lc);
    } else {
        string_push(out, c);
    }
    assert(out@ =~= old(out)@ + json_escape_char(c));
}

/// Appends the JSON string literal for `s`.
pub fn push_json_string(out: &mut String, s: &str)
    ensures
        final(out)@ == old(out)@ + json_string(s@),
{
    let cs = chars_of(s);
    string_push(out, '"');
    let ghost start = out@;
    let mut i: usize = 0;
    while i < cs.len()
        invariant
            0 <= i <= cs@.len(),
            cs@ == s@,
            out@ == start + json_escape(cs@.take(i as int)),
        decreases cs@.len() - i,
    {
        push_escaped_char(out, cs[i]);
        proof {
            let t = cs@.take(i + 1);
            assert(t.drop_last() =~= cs@.take(i as int));
        }
        i = i + 1;
    }
    assert(cs@.take(cs@.len() as int) =~= cs@);
    string_push(out, '"');
    assert(out@ =~= old(out)@ + json_string(s@));
}

/// The JSON string literal for `s`.
pub fn json_quote(s: &str) -> (r: String)
    ensures
        r@ == json_string(s@),
{
    let mut out = String::new();
    push_json_string(&mut out, s);
    out
}

fn push_json_opt_string(out: &mut String, o: &Option<String>)
    ensures
        final(out)@ == old(out)@ + json_opt_string(crate::text::opt_view(*o)),
{
    match o {
        Some(s) => push_json_string(out, s.as_str()),
        None => out.append("null"),
    }
}

// ---------------------------------------------------------------------
// Proof receipt payload
// ---------------------------------------------------------------------

/// The field-ordered canonical JSON of a proof receipt payload.
pub open spec fn proof_payload_canonical(p: ProofReceiptPayload) -> Seq<char> {
    "{\"version\":"@ + json_string(p.version@) + ",\"receiptId\":"@ + json_string(p.receipt_id@)
        + ",\"correlationId\":"@ + json_opt_string(crate::text::opt_view(p.correlation_id))
        + ",\"spatialAnchorId\":"@ + json_string(p.spatial_anchor_id@) + ",\"spatialPlacementId\":"@
        + json_opt_string(crate::text::opt_view(p.spatial_placement_id)) + ",\"issuedAt\":"@
        + json_string(p.issued_at@) + ",\"renderedAt\":"@ + json_string(p.rendered_at@)
        + ",\"dwellMs\":"@ + int_decimal(p.dwell_ms as int) + ",\"nonce\":"@ + json_string(
        p.nonce@,
    ) + ",\"witness\":"@ + json_opt_string(crate::text::opt_view(p.witness)) + "}"@
}

/// Field-ordered canonicalisation of a proof receipt payload: the ten
/// fields in their fixed order, each a JSON value.
pub fn canonicalise_proof_payload(p: &ProofReceiptPayload) -> (r: String)
    ensures
        r@ == proof_payload_canonical(*p),
{
    let mut out = own("{\"version\":");
    push_json_string(&mut out, p.version.as_str());
    out.append(",\"receiptId\":");
    push_json_string(&mut out, p.receipt_id.as_str());
    out.append(",\"correlationId\":");
    push_json_opt_string(&mut out, &p.correlation_id);
    out.append(",\"spatialAnchorId\":");
    push_json_string(&mut out, p.spatial_anchor_id.as_str());
    out.append(",\"spatialPlacementId\":");
    push_json_opt_string(&mut out, &p.spatial_placement_id);
    out.append(",\"issuedAt\":");
    push_json_string(&mut out, p.issued_at.as_str());
    out.append(",\"renderedAt\":");
    push_json_string(&mut out, p.rendered_at.as_str());
    out.append(",\"dwellMs\":");
    let d = i128_to_decimal(p.dwell_ms as i128);
    out.append(d.as_str());
    out.append(",\"nonce\":");
    push_json_string(&mut out, p.nonce.as_str());
    out.append(",\"witness\":");
    push_json_opt_string(&mut out, &p.witness);
    out.append("}");
    out
}

/// A member `"<key>":<value>` of a JSON object.
pub open spec fn json_member(key: Seq<char>, value: Seq<char>) -> Seq<char> {
    json_string(key) + ":"@ + value
}

/// A JSON string literal for a present text, `null` for an absent one.
pub open spec fn or_null(o: Option<Seq<char>>) -> Seq<char> {
    match o {
        Some(s) => json_string(s),
        None => "null"@,
    }
}

/// Text of ASCII letters only is its own JSON escape.
proof fn lemma_plain_json_escape(s: Seq<char>)
    requires
        forall|i: int|
            0 <= i < s.len() ==> (65 <= (#[trigger] s[i]) as u32 <= 90 || 97 <= s[i] as u32 <= 122),
    ensures
        json_escape(s) == s,
    decreases s.len(),
{
    if s.len() > 0 {
        let t = s.drop_last();
        assert forall|i: int| 0 <= i < t.len() implies (65 <= (#[trigger] t[i]) as u32 <= 90 || 97
            <= t[i] as u32 <= 122) by {
            assert(t[i] == s[i]);
        }
    lemma_plain_json_escape(t);
        let c = s.last();
        assert(65 <= c as u32 <= 90 || 97 <= c as u32 <= 122);
        assert(json_escape_char(c) =~= seq![c]);
        assert(t + seq![c] =~= s);
    }
}

proof fn lemma_member_after(prefix: Seq<char>, lit: Seq<char>, sep: Seq<char>, key: Seq<char>, v: Seq<char>)
    requires
        lit == sep + json_string(key) + ":"@,
    ensures
        prefix + lit + v == prefix + sep + json_member(key, v),
{
    assert(prefix + lit + v =~= prefix + sep + json_member(key, v));
}

/// The canonical text of a proof receipt is one JSON object with exactly
/// the ten members `version`, `receiptId`, `correlationId`,
/// `spatialAnchorId`, `spatialPlacementId`, `issuedAt`, `renderedAt`,
/// `dwellMs`, `nonce`, `witness`, in that order, comma-separated with no
/// whitespace: texts as JSON string literals, `dwellMs` as a decimal
/// integer, and an absent optional field written as `null` (its key is
/// never dropped).
pub proof fn lemma_receipt_canonical_layout(p: ProofReceiptPayload)
    ensures
        proof_payload_canonical(p) == "{"@
            + json_member("version"@, json_string(p.version@))
            + ","@
            + json_member("receiptId"@, json_string(p.receipt_id@))
            + ","@
            + json_member("correlationId"@, or_null(crate::text::opt_view(p.correlation_id)))
            + ","@
            + json_member("spatialAnchorId"@, json_string(p.spatial_anchor_id@))
            + ","@
            + json_member("spatialPlacementId"@, or_null(crate::text::opt_view(p.spatial_placement_id)))
            + ","@
            + json_member("issuedAt"@, json_string(p.issued_at@))
            + ","@
            + json_member("renderedAt"@, json_string(p.rendered_at@))
            + ","@
            + json_member("dwellMs"@, int_decimal(p.dwell_ms as int))
            + ","@
            + json_member("nonce"@, json_string(p.nonce@))
            + ","@
            + json_member("witness"@, or_null(crate::text::opt_view(p.witness)))
            + "}"@,
{
    reveal_strlit("{");
    reveal_strlit(",");
    reveal_strlit(":");
    reveal_strlit("null");
    reveal_strlit("version");
    reveal_strlit("{\"version\":");
    lemma_plain_json_escape("version"@);
    assert("{\"version\":"@ =~= "{"@ + json_string("version"@) + ":"@);
    reveal_strlit("receiptId");
    reveal_strlit(",\"receiptId\":");
    lemma_plain_json_escape("receiptId"@);
    assert(",\"receiptId\":"@ =~= ","@ + json_string("receiptId"@) + ":"@);
    reveal_strlit("correlationId");
    reveal_strlit(",\"correlationId\":");
    lemma_plain_json_escape("correlationId"@);
    assert(",\"correlationId\":"@ =~= ","@ + json_string("correlationId"@) + ":"@);
    reveal_strlit("spatialAnchorId");
    reveal_strlit(",\"spatialAnchorId\":");
    lemma_plain_json_escape("spatialAnchorId"@);
    assert(",\"spatialAnchorId\":"@ =~= ","@ + json_string("spatialAnchorId"@) + ":"@);
    reveal_strlit("spatialPlacementId");
    reveal_strlit(",\"spatialPlacementId\":");
    lemma_plain_json_escape("spatialPlacementId"@);
    assert(",\"spatialPlacementId\":"@ =~= ","@ + json_string("spatialPlacementId"@) + ":"@);
    reveal_strlit("issuedAt");
    reveal_strlit(",\"issuedAt\":");
    lemma_plain_json_escape("issuedAt"@);
    assert(",\"issuedAt\":"@ =~= ","@ + json_string("issuedAt"@) + ":"@);
    reveal_strlit("renderedAt");
    reveal_strlit(",\"renderedAt\":");
    lemma_plain_json_escape("renderedAt"@);
    assert(",\"renderedAt\":"@ =~= ","@ + json_string("renderedAt"@) + ":"@);
    reveal_strlit("dwellMs");
    reveal_strlit(",\"dwellMs\":");
    lemma_plain_json_escape("dwellMs"@);
    assert(",\"dwellMs\":"@ =~= ","@ + json_string("dwellMs"@) + ":"@);
    reveal_strlit("nonce");
    reveal_strlit(",\"nonce\":");
    lemma_plain_json_escape("nonce"@);
    assert(",\"nonce\":"@ =~= ","@ + json_string("nonce"@) + ":"@);
    reveal_strlit("witness");
    reveal_strlit(",\"witness\":");
    lemma_plain_json_escape("witness"@);
    assert(",\"witness\":"@ =~= ","@ + json_string("witness"@) + ":"@);
    let l0 = "{"@ + json_member("version"@, json_string(p.version@));
    assert("{\"version\":"@ + json_string(p.version@) =~= l0);
    lemma_member_after(l0, ",\"receiptId\":"@, ","@, "receiptId"@, json_string(p.receipt_id@));
    let l1 = l0 + ","@ + json_member("receiptId"@, json_string(p.receipt_id@));
    lemma_member_after(l1, ",\"correlationId\":"@, ","@, "correlationId"@, or_null(crate::text::opt_view(p.correlation_id)));
    let l2 = l1 + ","@ + json_member("correlationId"@, or_null(crate::text::opt_view(p.correlation_id)));
    lemma_member_after(l2, ",\"spatialAnchorId\":"@, ","@, "spatialAnchorId"@, json_string(p.spatial_anchor_id@));
    let l3 = l2 + ","@ + json_member("spatialAnchorId"@, json_string(p.spatial_anchor_id@));
    lemma_member_after(l3, ",\"spatialPlacementId\":"@, ","@, "spatialPlacementId"@, or_null(crate::text::opt_view(p.spatial_placement_id)));
    let l4 = l3 + ","@ + json_member("spatialPlacementId"@, or_null(crate::text::opt_view(p.spatial_placement_id)));
    lemma_member_after(l4, ",\"issuedAt\":"@, ","@, "issuedAt"@, json_string(p.issued_at@));
    let l5 = l4 + ","@ + json_member("issuedAt"@, json_string(p.issued_at@));
    lemma_member_after(l5, ",\"renderedAt\":"@, ","@, "renderedAt"@, json_string(p.rendered_at@));
    let l6 = l5 + ","@ + json_member("renderedAt"@, json_string(p.rendered_at@));
    lemma_member_after(l6, ",\"dwellMs\":"@, ","@, "dwellMs"@, int_decimal(p.dwell_ms as int));
    let l7 = l6 + ","@ + json_member("dwellMs"@, int_decimal(p.dwell_ms as int));
    lemma_member_after(l7, ",\"nonce\":"@, ","@, "nonce"@, json_string(p.nonce@));
    let l8 = l7 + ","@ + json_member("nonce"@, json_string(p.nonce@));
    lemma_member_after(l8, ",\"witness\":"@, ","@, "witness"@, or_null(crate::text::opt_view(p.witness)));
    let l9 = l8 + ","@ + json_member("witness"@, or_null(crate::text::opt_view(p.witness)));
    assert(proof_payload_canonical(p) == l9 + "}"@);
}

/// The signing input of a proof receipt: `<canonical>|<keyId>`.
pub open spec fn proof_signing_input(p: ProofReceiptPayload, key_id: Seq<char>) -> Seq<char> {
    proof_payload_canonical(p) + "|"@ + key_id
}

/// Full signing input — `<canonical>|<keyId>`.
pub fn canonicalise_proof_signing_input(p: &ProofReceiptPayload, key_id: &str) -> (r: String)
    ensures
        r@ == proof_signing_input(*p, key_id@),
{
    let mut out = canonicalise_proof_payload(p);
    out.append("|");
    out.append(key_id);
    out
}

/// sha256 of canonical input, returned as `sha256:<hex>`.
pub fn sha256_prefixed(canonical: &str) -> (r: String)
    ensures
        r@ == "sha256:"@ + sha256_hex_of(canonical@),
{
    let mut out = own("sha256:");
    let h = sha256_hex(canonical);
    out.append(h.as_str());
    out
}

// ---------------------------------------------------------------------
// base64url
// ---------------------------------------------------------------------

#[verifier::external_type_specification]
#[verifier::external_body]
pub struct ExDecodeError(base64::DecodeError);

/// Unpadded base64url text of a byte string.
pub uninterp spec fn base64url_text(bytes: Seq<u8>) -> Seq<char>;

/// The bytes unpadded base64url text decodes to, or `None` when the text
/// does not decode.
pub uninterp spec fn base64url_bytes(text: Seq<char>) -> Option<Seq<u8>>;

/// Base64url-encode without padding (`URL_SAFE_NO_PAD.encode`).
#[verifier::external_body]
pub fn base64url_encode(bytes: &[u8]) -> (r: String)
    ensures
        r@ == base64url_text(bytes@),
{
    URL_SAFE_NO_PAD.encode(bytes)
}

/// `URL_SAFE_NO_PAD.decode`: succeeds exactly when the text decodes, with
/// the decoded bytes.
#[verifier::external_body]
fn decode_unpadded(text: &str) -> (r: Result<Vec<u8>, base64::DecodeError>)
    ensures
        r is Ok <==> base64url_bytes(text@) is Some,
        r matches Ok(v) ==> base64url_bytes(text@) == Some(v@),
{
    URL_SAFE_NO_PAD.decode(text)
}

/// The display text of the error unpadded base64url decoding reports for
/// a text that does not decode.
pub uninterp spec fn base64url_error_text(text: Seq<char>) -> Seq<char>;

/// `URL_SAFE_NO_PAD.decode`'s error, displayed (`DecodeError as Display`);
/// empty when the text decodes.
#[verifier::external_body]
fn decode_failure_text(text: &str) -> (r: String)
    ensures
        base64url_bytes(text@) is None ==> r@ == base64url_error_text(text@),
{
    match URL_SAFE_NO_PAD.decode(text) {
        Ok(_) => String::new(),
        Err(e) => format!("{}", e),
    }
}

/// The text with every trailing `=` removed.
pub open spec fn trim_trailing_padding(s: Seq<char>) -> Seq<char>
    decreases s.len(),
{
    if s.len() > 0 && s.last() == '=' {
        trim_trailing_padding(s.drop_last())
    } else {
        s
    }
}

proof fn lemma_trim_padding_prefix(s: Seq<char>, k: int)
    requires
        0 <= k <= s.len(),
        forall|j: int| k <= j < s.len() ==> s[j] == '=',
    ensures
        trim_trailing_padding(s) == trim_trailing_padding(s.take(k)),
    decreases s.len() - k,
{
    if k < s.len() {
        assert(s.drop_last().take(k) =~= s.take(k));
        lemma_trim_padding_prefix(s.drop_last(), k);
    } else {
        assert(s.take(k) =~= s);
    }
}

/// Padding does not change what base64url decoding gives: the text with
/// any number of trailing `=` decodes as the text without them.
pub proof fn lemma_padding_ignored(s: Seq<char>, k: nat)
    ensures
        trim_trailing_padding(s + Seq::new(k, |i: int| '=')) == trim_trailing_padding(s),
    decreases k,
{
    let padded = s + Seq::new(k, |i: int| '=');
    if k > 0 {
        assert(padded.drop_last() =~= s + Seq::new((k - 1) as nat, |i: int| '='));
        lemma_padding_ignored(s, (k - 1) as nat);
    } else {
        assert(padded =~= s);
    }
}

/// Base64url-decode; trailing padding is dropped first, so padded and
/// unpadded input both decode.
pub fn base64url_decode(s: &str) -> (r: Result<Vec<u8>, base64::DecodeError>)
    ensures
        r is Ok <==> base64url_bytes(trim_trailing_padding(s@)) is Some,
        r matches Ok(v) ==> base64url_bytes(trim_trailing_padding(s@)) == Some(v@),
{
    let cs = chars_of(s);
    let mut end = cs.len();
    while end > 0 && cs[end - 1] == '='
        invariant
            end <= cs@.len(),
            cs@ == s@,
            forall|j: int| end <= j < cs@.len() ==> cs@[j] == '=',
        decreases end,
    {
        end = end - 1;
    }
    proof {
        lemma_trim_padding_prefix(cs@, end as int);
        assert(cs@.take(end as int) == cs@.subrange(0, end as int));
    }
    let trimmed = crate::text::string_of(&cs, 0, end);
    decode_unpadded(trimmed.as_str())
}

pub open spec fn is_base64url_char(c: char) -> bool {
    is_ascii_alphanumeric(c) || c == '-' || c == '_'
}

/// The reason strict base64url decoding refuses a text before decoding,
/// if it does.
pub open spec fn strict_base64url_refusal(s: Seq<char>) -> Option<Seq<char>> {
    if exists|i: int| 0 <= i < s.len() && is_white_space(#[trigger] s[i]) {
        Some("base64url_decode_strict: whitespace not allowed in base64url"@)
    } else if s.contains('=') {
        Some("base64url_decode_strict: padding ('=') not allowed; use unpadded base64url"@)
    } else if !(forall|i: int| 0 <= i < s.len() ==> is_base64url_char(#[trigger] s[i])) {
        Some("base64url_decode_strict: invalid base64url character"@)
    } else if s.len() % 4 == 1 {
        Some("base64url_decode_strict: invalid length (mod 4 == 1)"@)
    } else {
        None
    }
}

/// The error text of strict base64url decoding, when it fails.
pub open spec fn strict_base64url_error(s: Seq<char>) -> Seq<char> {
    match strict_base64url_refusal(s) {
        Some(m) => m,
        None => "base64url_decode_strict: decode failed: "@ + base64url_error_text(s),
    }
}

/// The bytes strict base64url decoding gives back, if it succeeds.
pub open spec fn strict_base64url_bytes(s: Seq<char>) -> Option<Seq<u8>> {
    if strict_base64url_refusal(s) is Some {
        None
    } else {
        base64url_bytes(s)
    }
}

proof fn lemma_ascii_byte_len(s: Seq<char>)
    requires
        forall|i: int| 0 <= i < s.len() ==> (#[trigger] s[i] as u32) < 0x80,
    ensures
        vstd::utf8::encode_utf8(s).len() == s.len(),
    decreases s.len(),
{
    reveal_with_fuel(vstd::utf8::encode_utf8, 2);
    if s.len() > 0 {
        assert forall|i: int| 0 <= i < s.drop_first().len() implies (#[trigger] s.drop_first()[i]
            as u32) < 0x80 by {
            assert(s.drop_first()[i] == s[i + 1]);
        }
        lemma_ascii_byte_len(s.drop_first());
        assert((s[0] as u32) < 0x80);
    }
}

/// Strict base64url-decode (RFC 4648 §5): refuses whitespace, padding,
/// characters outside `[A-Za-z0-9_-]` and lengths with `len % 4 == 1`.
pub fn base64url_decode_strict(s: &str) -> (r: Result<Vec<u8>, String>)
    ensures
        r is Ok <==> strict_base64url_bytes(s@) is Some,
        r matches Ok(v) ==> strict_base64url_bytes(s@) == Some(v@),
        r matches Err(e) ==> e@ == strict_base64url_error(s@),
{
    let cs = chars_of(s);
    let n = cs.len();
    let mut i: usize = 0;
    while i < n
        invariant
            n == cs@.len(),
            cs@ == s@,
            i <= n,
            forall|j: int| 0 <= j < i ==> !is_white_space(#[trigger] cs@[j]),
        decreases n - i,
    {
        if char_is_white_space(cs[i]) {
            return Err(own("base64url_decode_strict: whitespace not allowed in base64url"));
        }
        i = i + 1;
    }
    i = 0;
    while i < n
        invariant
            n == cs@.len(),
            cs@ == s@,
            i <= n,
            forall|j: int| 0 <= j < i ==> cs@[j] != '=',
            forall|j: int| 0 <= j < n ==> !is_white_space(#[trigger] cs@[j]),
        decreases n - i,
    {
        if cs[i] == '=' {
            assert(cs@.contains('=')) by { assert(cs@[i as int] == '='); }
            return Err(
                own("base64url_decode_strict: padding ('=') not allowed; use unpadded base64url"),
            );
        }
        i = i + 1;
    }
    assert(!cs@.contains('='));
    i = 0;
    while i < n
        invariant
            n == cs@.len(),
            cs@ == s@,
            i <= n,
            forall|j: int| 0 <= j < i ==> is_base64url_char(#[trigger] cs@[j]),
            forall|j: int| 0 <= j < n ==> !is_white_space(#[trigger] cs@[j]),
            !cs@.contains('='),
        decreases n - i,
    {
        let c = cs[i];
        if !(('0' <= c && c <= '9') || ('a' <= c && c <= 'z') || ('A' <= c && c <= 'Z') || c == '-'
            || c == '_') {
            assert(!is_base64url_char(cs@[i as int]));
            return Err(own("base64url_decode_strict: invalid base64url character"));
        }
        i = i + 1;
    }
    proof {
        assert forall|j: int| 0 <= j < cs@.len() implies (#[trigger] cs@[j] as u32) < 0x80 by {
            assert(is_base64url_char(cs@[j]));
        }
        lemma_ascii_byte_len(cs@);
    }
    if s.len() % 4 == 1 {
        return Err(own("base64url_decode_strict: invalid length (mod 4 == 1)"));
    }
    match decode_unpadded(s) {
        Ok(v) => Ok(v),
        Err(_) => {
            let mut m = own("base64url_decode_strict: decode failed: ");
            let t = decode_failure_text(s);
            m.append(t.as_str());
            Err(m)
        },
    }
}

} // verus!
