//! Offline verifier for signed proof packs, metering and settlement
//! summaries, tenant chains, rights-provenance records and signed exports.
//!
//! Every verdict is re-derived from the evidence itself: canonical
//! encodings, hashes, chain links, projections and Ed25519 signatures
//! against a pinned key directory.

pub mod text;
pub mod types;
pub mod hashing;
pub mod clock;
pub mod canonical_json;
pub mod decimal;
pub mod tenant_chain;
pub mod proof_chain;
pub mod errors;
pub mod keys;
pub mod signature;
pub mod proof_pack;
pub mod metering_audit;
pub mod settlement_audit;
pub mod provenance;
pub mod exports;
pub mod auditor;
pub mod text_map;

pub use auditor::Auditor;
pub use errors::{AuditorError, AuditorErrorCode};
pub use exports::{verify_signed_export, SignedExport, SignedExportAuditReport};
pub use keys::KeyDirectory;
pub use provenance::{
    canonicalise_provenance_signing_input, verify_provenance_chain, verify_provenance_record,
    ProvenanceSigningFields, VerifyProvenanceChainOptions, PROVENANCE_SIGNING_VERSION,
};
pub use tenant_chain::{
    canonicalise_tenant_chain_link, genesis_chain_tip, verify_tenant_chain, TenantChainedRecord,
    TENANT_CHAIN_VERSION,
};
pub use types::{
    AuditBundle, AuditReasonCode, AuditReport, AuditStep, AuditStepKind, AuditStepStatus,
    ChainAuditReport, DetailEntry, DetailValue, EnvelopeVersion, FullAuditReport, KeysSnapshot,
    MeterRecord, MeterStatus, MeterUnitType, MeteringSummary, ProjectionAuditReport, ProofPack,
    ProofReceiptPayload, ProofRecord, ProvenanceAuditReport, ProvenanceRecord,
    SettlementAuditReport, SettlementLine, SettlementPartyRole, SettlementStatus,
    SettlementSummary, SettlementTotals, SignatureAlgorithm, SignedProofPack, VerificationKey,
    SDK_VERSION,
};
