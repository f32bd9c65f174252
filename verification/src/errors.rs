//! Operational errors: raised only when the SDK cannot run, never for an
//! audit failure (those stay inside the reports).

use vstd::prelude::*;
use crate::types::{AuditReasonCode, DetailEntry};

verus! {

#[derive(Clone, Copy, Debug, PartialEq, Eq, Structural)]
pub enum AuditorErrorCode {
    InvalidInput,
    KeysUnavailable,
    KeysMalformed,
    PlatformResponse,
    Internal,
}

pub open spec fn error_code_text(c: AuditorErrorCode) -> Seq<char> {
    match c {
        AuditorErrorCode::InvalidInput => "INVALID_INPUT"@,
        AuditorErrorCode::KeysUnavailable => "KEYS_UNAVAILABLE"@,
        AuditorErrorCode::KeysMalformed => "KEYS_MALFORMED"@,
        AuditorErrorCode::PlatformResponse => "PLATFORM_RESPONSE"@,
        AuditorErrorCode::Internal => "INTERNAL"@,
    }
}

impl AuditorErrorCode {
    /// The stable wire spelling of the code.
    pub fn as_str(&self) -> (r: &'static str)
        ensures
            r@ == error_code_text(*self),
    {
        match self {
            AuditorErrorCode::InvalidInput => "INVALID_INPUT",
            AuditorErrorCode::KeysUnavailable => "KEYS_UNAVAILABLE",
            AuditorErrorCode::KeysMalformed => "KEYS_MALFORMED",
            AuditorErrorCode::PlatformResponse => "PLATFORM_RESPONSE",
            AuditorErrorCode::Internal => "INTERNAL",
        }
    }
}

/// An operational failure the SDK could not reduce to an audit step.
#[derive(Debug)]
pub struct AuditorError {
    pub code: AuditorErrorCode,
    pub message: String,
    pub reason: Option<AuditReasonCode>,
    pub detail: Option<Vec<DetailEntry>>,
}

impl AuditorError {
    pub fn invalid_input(message: String) -> (r: Self)
        ensures
            r.code == AuditorErrorCode::InvalidInput,
            r.message == message,
            r.reason is None,
            r.detail is None,
    {
        Self { code: AuditorErrorCode::InvalidInput, message, reason: None, detail: None }
    }

    pub fn with_reason(self, reason: AuditReasonCode) -> (r: Self)
        ensures
            r.code == self.code,
            r.message == self.message,
            r.reason == Some(reason),
            r.detail == self.detail,
    {
        Self { code: self.code, message: self.message, reason: Some(reason), detail: self.detail }
    }

    pub fn with_detail(self, detail: Vec<DetailEntry>) -> (r: Self)
        ensures
            r.code == self.code,
            r.message == self.message,
            r.reason == self.reason,
            r.detail == Some(detail),
    {
        Self { code: self.code, message: self.message, reason: self.reason, detail: Some(detail) }
    }

    pub fn keys_malformed(message: String) -> (r: Self)
        ensures
            r.code == AuditorErrorCode::KeysMalformed,
            r.message == message,
            r.reason is None,
            r.detail is None,
    {
        Self { code: AuditorErrorCode::KeysMalformed, message, reason: None, detail: None }
    }

    pub fn keys_unavailable(message: String) -> (r: Self)
        ensures
            r.code == AuditorErrorCode::KeysUnavailable,
            r.message == message,
            r.reason is None,
            r.detail is None,
    {
        Self { code: AuditorErrorCode::KeysUnavailable, message, reason: None, detail: None }
    }

    pub fn platform_response(message: String) -> (r: Self)
        ensures
            r.code == AuditorErrorCode::PlatformResponse,
            r.message == message,
            r.reason is None,
            r.detail is None,
    {
        Self { code: AuditorErrorCode::PlatformResponse, message, reason: None, detail: None }
    }

    pub fn internal(message: String) -> (r: Self)
        ensures
            r.code == AuditorErrorCode::Internal,
            r.message == message,
            r.reason is None,
            r.detail is None,
    {
        Self { code: AuditorErrorCode::Internal, message, reason: None, detail: None }
    }
}

} // verus!
