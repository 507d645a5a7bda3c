//! The structured error handed across the library's boundary: a kind, a
//! message, and a stable machine-readable code.

use vstd::prelude::*;
use crate::compiler::CompileError;
use crate::text::{push_str, decimal, decimal_text, opt_view};

verus! {

#[derive(PartialEq, Eq, Structural, Clone, Copy, Debug)]
pub enum ErrorKind {
    Unknown,
    UnsupportedProvider,
    UnsupportedSpecVersion,
    RenderError,
}

#[derive(Debug, PartialEq)]
pub struct AppError {
    pub kind: ErrorKind,
    pub message: String,
    pub details: Option<String>,
    pub code: Option<String>,
}

impl AppError {
    /// An error of kind `Unknown` with no code.
    pub fn unknown(message: String) -> (r: AppError)
        ensures
            r.kind == ErrorKind::Unknown,
            r.message@ == message@,
            r.details is None,
            r.code is None,
    {
        AppError { kind: ErrorKind::Unknown, message, details: None, code: None }
    }

    /// An error of kind `Unknown` with a code.
    pub fn unknown_with_code(message: String, code: &str) -> (r: AppError)
        ensures
            r.kind == ErrorKind::Unknown,
            r.message@ == message@,
            r.details is None,
            opt_view(r.code) == Some(code@),
    {
        AppError { kind: ErrorKind::Unknown, message, details: None, code: Some(code.to_owned()) }
    }

    /// The structured form of a compile failure.
    pub fn from_compile(err: CompileError) -> (r: AppError)
        ensures
            match err {
                CompileError::UnsupportedSpecVersion(v) => r.kind == ErrorKind::UnsupportedSpecVersion
                    && opt_view(r.code) == Some("unsupported_spec_version"@) && r.message@
                    == "unsupported spec version: "@ + decimal_text(v as nat) && r.details is None,
                CompileError::UnsupportedProvider(p) => r.kind == ErrorKind::UnsupportedProvider
                    && opt_view(r.code) == Some("unsupported_provider"@) && r.message@
                    == "unsupported provider: "@ + p@ && r.details is None,
                CompileError::RenderError(m) => r.kind == ErrorKind::RenderError && opt_view(r.code)
                    == Some("render_error"@) && r.message@ == "parameter render error: "@ + m@
                    && opt_view(r.details) == Some(m@),
            },
    {
        match err {
            CompileError::UnsupportedSpecVersion(v) => {
                let mut message = "unsupported spec version: ".to_owned();
                push_str(&mut message, decimal(v as u128).as_str());
                AppError {
                    kind: ErrorKind::UnsupportedSpecVersion,
                    message,
                    details: None,
                    code: Some("unsupported_spec_version".to_owned()),
                }
            },
            CompileError::UnsupportedProvider(p) => {
                let mut message = "unsupported provider: ".to_owned();
                push_str(&mut message, p.as_str());
                AppError {
                    kind: ErrorKind::UnsupportedProvider,
                    message,
                    details: None,
                    code: Some("unsupported_provider".to_owned()),
                }
            },
            CompileError::RenderError(m) => {
                let mut message = "parameter render error: ".to_owned();
                push_str(&mut message, m.as_str());
                AppError {
                    kind: ErrorKind::RenderError,
                    message,
                    details: Some(m),
                    code: Some("render_error".to_owned()),
                }
            },
        }
    }
}

impl From<CompileError> for AppError {
    /// Same as `AppError::from_compile`, whose contract states the result.
    fn from(err: CompileError) -> AppError {
        AppError::from_compile(err)
    }
}

impl vstd::std_specs::convert::FromSpecImpl<CompileError> for AppError {
    open spec fn obeys_from_spec() -> bool {
        false
    }

    open spec fn from_spec(v: CompileError) -> AppError {
        arbitrary()
    }
}

} // verus!
