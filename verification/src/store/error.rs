//! Error values of the catalogue.

use vstd::prelude::*;

pub mod codes;
pub use crate::error::{ErrorKind, ErrorSeverity};

verus! {


/// An error of the catalogue, with the text of the error that caused it.
#[derive(Debug)]
pub struct BaseError {
    pub code: u32,
    pub kind: ErrorKind,
    pub severity: ErrorSeverity,
    pub message: String,
    pub source: Option<String>,
}

impl BaseError {
    /// An error caused by another one, whose text is `err`.
    pub fn new(code: u32, kind: ErrorKind, severity: ErrorSeverity, message: String, err: String) -> (e: Self)
        ensures
            e.code == code,
            e.kind == kind,
            e.severity == severity,
            e.message == message,
            e.source == Some(err),
    {
        BaseError { code, kind, severity, message, source: Some(err) }
    }

    pub fn internal(msg: String) -> (e: Self)
        ensures
            e.code == codes::INTERNAL && e.kind == ErrorKind::Software && e.severity == ErrorSeverity::Error
                && e.message == msg && e.source is None,
    {
        BaseError { code: codes::INTERNAL, kind: ErrorKind::Software, severity: ErrorSeverity::Error, message: msg, source: None }
    }

    pub fn bad_response(msg: String) -> (e: Self)
        ensures
            e.code == codes::INTERNAL && e.kind == ErrorKind::External && e.severity == ErrorSeverity::Error
                && e.message == msg && e.source is None,
    {
        BaseError { code: codes::INTERNAL, kind: ErrorKind::External, severity: ErrorSeverity::Error, message: msg, source: None }
    }

    pub fn not_found(msg: String) -> (e: Self)
        ensures
            e.code == codes::NOT_FOUND && e.kind == ErrorKind::Software && e.severity == ErrorSeverity::Error
                && e.message == msg && e.source is None,
    {
        BaseError { code: codes::NOT_FOUND, kind: ErrorKind::Software, severity: ErrorSeverity::Error, message: msg, source: None }
    }

    pub fn timeout(msg: String) -> (e: Self)
        ensures
            e.code == codes::TIMEOUT && e.kind == ErrorKind::System && e.severity == ErrorSeverity::Warning
                && e.message == msg && e.source is None,
    {
        BaseError { code: codes::TIMEOUT, kind: ErrorKind::System, severity: ErrorSeverity::Warning, message: msg, source: None }
    }
}

} // verus!
