//! Error values of the storage platform: severity, origin, numeric codes and
//! the rendered message.

use vstd::prelude::*;
use crate::text::{decimal, u64_to_decimal};

verus! {

/// How serious an error is.
#[derive(Debug, Clone, Copy, PartialEq, Eq, Structural)]
pub enum ErrorSeverity {
    Info,
    Warning,
    Error,
    Fatal,
}

impl ErrorSeverity {
    pub open spec fn spec_name(self) -> Seq<char> {
        match self {
            ErrorSeverity::Info => "Info"@,
            ErrorSeverity::Warning => "Warning"@,
            ErrorSeverity::Error => "Error"@,
            ErrorSeverity::Fatal => "Fatal"@,
        }
    }

    /// The display name of the severity.
    pub fn name(&self) -> (s: &'static str)
        ensures
            s@ == self.spec_name(),
    {
        match self {
            ErrorSeverity::Info => "Info",
            ErrorSeverity::Warning => "Warning",
            ErrorSeverity::Error => "Error",
            ErrorSeverity::Fatal => "Fatal",
        }
    }
}

/// Where an error comes from.
#[derive(Debug, Clone, Copy, PartialEq, Eq, Structural)]
pub enum ErrorKind {
    User,
    System,
    Software,
    External,
}

impl ErrorKind {
    pub open spec fn spec_name(self) -> Seq<char> {
        match self {
            ErrorKind::User => "User"@,
            ErrorKind::System => "System"@,
            ErrorKind::Software => "Software"@,
            ErrorKind::External => "External"@,
        }
    }

    /// The display name of the kind.
    pub fn name(&self) -> (s: &'static str)
        ensures
            s@ == self.spec_name(),
    {
        match self {
            ErrorKind::User => "User",
            ErrorKind::System => "System",
            ErrorKind::Software => "Software",
            ErrorKind::External => "External",
        }
    }
}

/// Numeric error codes: common ones from 1000, device ones from 2000.
#[derive(Debug, Clone, Copy, PartialEq, Eq, Structural)]
pub enum Codes {
    InvalidInput,
    NotFound,
    PermissionDenied,
    Internal,
    Timeout,
    Command,
    Corrupt,
    Raw,
}

impl Codes {
    pub open spec fn spec_value(self) -> u32 {
        match self {
            Codes::InvalidInput => 1000,
            Codes::NotFound => 1001,
            Codes::PermissionDenied => 1002,
            Codes::Internal => 1003,
            Codes::Timeout => 1004,
            Codes::Command => 2000,
            Codes::Corrupt => 2001,
            Codes::Raw => 2002,
        }
    }

    /// The number of the code.
    pub fn value(&self) -> (v: u32)
        ensures
            v == self.spec_value(),
    {
        match self {
            Codes::InvalidInput => 1000,
            Codes::NotFound => 1001,
            Codes::PermissionDenied => 1002,
            Codes::Internal => 1003,
            Codes::Timeout => 1004,
            Codes::Command => 2000,
            Codes::Corrupt => 2001,
            Codes::Raw => 2002,
        }
    }
}

/// An error with its code, origin, severity, message and, where it wraps
/// another error, that error's text.
#[derive(Debug)]
pub struct BaseError {
    pub code: u32,
    pub kind: ErrorKind,
    pub severity: ErrorSeverity,
    pub message: String,
    pub source: Option<String>,
}

/// The one-line rendering of an error: `severity: [code] From kind`, a line
/// break, and the message.
pub open spec fn error_text(severity: ErrorSeverity, code: u32, kind: ErrorKind, message: Seq<char>) -> Seq<char> {
    severity.spec_name() + ": ["@ + decimal(code as nat) + "] From "@ + kind.spec_name()
        + " \n └─ "@ + message
}

impl BaseError {
    /// The rendering of this error.
    pub open spec fn spec_text(&self) -> Seq<char> {
        error_text(self.severity, self.code, self.kind, self.message@)
    }

    pub fn new(code: u32, kind: ErrorKind, severity: ErrorSeverity, message: String) -> (e: Self)
        ensures
            e.code == code,
            e.kind == kind,
            e.severity == severity,
            e.message@ == message@,
            e.source is None,
    {
        BaseError { code, kind, severity, message, source: None }
    }

    /// Attaches the text of the error that caused this one.
    pub fn with_err(self, err: String) -> (e: Self)
        ensures
            e.code == self.code,
            e.kind == self.kind,
            e.severity == self.severity,
            e.message@ == self.message@,
            e.source matches Some(s) && s@ == err@,
    {
        BaseError { source: Some(err), ..self }
    }

    pub fn external_error(msg: String, code: Codes) -> (e: Self)
        ensures
            e.code == code.spec_value(),
            e.kind == ErrorKind::External,
            e.severity == ErrorSeverity::Error,
            e.message@ == msg@,
            e.source is None,
    {
        Self::new(code.value(), ErrorKind::External, ErrorSeverity::Error, msg)
    }

    pub fn software_warning(msg: String, code: Codes) -> (e: Self)
        ensures
            e.code == code.spec_value(),
            e.kind == ErrorKind::Software,
            e.severity == ErrorSeverity::Warning,
            e.message@ == msg@,
            e.source is None,
    {
        Self::new(code.value(), ErrorKind::Software, ErrorSeverity::Warning, msg)
    }

    pub fn software_error(msg: String, code: Codes) -> (e: Self)
        ensures
            e.code == code.spec_value(),
            e.kind == ErrorKind::Software,
            e.severity == ErrorSeverity::Error,
            e.message@ == msg@,
            e.source is None,
    {
        Self::new(code.value(), ErrorKind::Software, ErrorSeverity::Error, msg)
    }

    pub fn system_warning(msg: String, code: Codes) -> (e: Self)
        ensures
            e.code == code.spec_value(),
            e.kind == ErrorKind::System,
            e.severity == ErrorSeverity::Warning,
            e.message@ == msg@,
            e.source is None,
    {
        Self::new(code.value(), ErrorKind::System, ErrorSeverity::Warning, msg)
    }

    pub fn system_error(msg: String, code: Codes) -> (e: Self)
        ensures
            e.code == code.spec_value(),
            e.kind == ErrorKind::System,
            e.severity == ErrorSeverity::Error,
            e.message@ == msg@,
            e.source is None,
    {
        Self::new(code.value(), ErrorKind::System, ErrorSeverity::Error, msg)
    }

    pub fn user_error(msg: String, code: Codes) -> (e: Self)
        ensures
            e.code == code.spec_value(),
            e.kind == ErrorKind::User,
            e.severity == ErrorSeverity::Error,
            e.message@ == msg@,
            e.source is None,
    {
        Self::new(code.value(), ErrorKind::User, ErrorSeverity::Error, msg)
    }

    /// The error that stands for a failure of a lower layer, carrying its text.
    pub fn from_cause(text: String) -> (e: Self)
        ensures
            e.code == Codes::Internal.spec_value(),
            e.kind == ErrorKind::Software,
            e.severity == ErrorSeverity::Fatal,
            e.message@ == text@,
            e.source matches Some(s) && s@ == text@,
    {
        let copy = text.clone();
        Self::new(Codes::Internal.value(), ErrorKind::Software, ErrorSeverity::Fatal, text).with_err(copy)
    }

    /// Renders the error as `severity: [code] From kind`, a line break and the message.
    pub fn to_text(&self) -> (s: String)
        ensures
            s@ == self.spec_text(),
    {
        let mut s = String::new();
        s.append(self.severity.name());
        s.append(": [");
        let code = u64_to_decimal(self.code as u64);
        s.append(code.as_str());
        s.append("] From ");
        s.append(self.kind.name());
        s.append(" \n └─ ");
        s.append(self.message.as_str());
        s
    }
}

/// Rewrites the error of a failed result, as the error helpers of the
/// platform do.
pub trait BaseResultExt<T>: Sized {
    fn message(self, msg: String) -> Result<T, BaseError>;

    fn code(self, code: i32) -> Result<T, BaseError>;

    fn kind(self, kind: ErrorKind) -> Result<T, BaseError>;
}

impl<T> BaseResultExt<T> for Result<T, BaseError> {
    fn message(self, msg: String) -> (r: Result<T, BaseError>)
        ensures
            self matches Ok(v) ==> r matches Ok(w) && w == v,
            self matches Err(e) ==> r matches Err(f) && f.message@ == msg@ && f.code == e.code
                && f.kind == e.kind && f.severity == e.severity && f.source == e.source,
    {
        match self {
            Ok(v) => Ok(v),
            Err(e) => Err(BaseError { message: msg, ..e }),
        }
    }

    fn code(self, code: i32) -> (r: Result<T, BaseError>)
        ensures
            self matches Ok(v) ==> r matches Ok(w) && w == v,
            self matches Err(e) ==> r matches Err(f) && f.code == code as u32 && f.message == e.message
                && f.kind == e.kind && f.severity == e.severity && f.source == e.source,
    {
        match self {
            Ok(v) => Ok(v),
            Err(e) => Err(BaseError { code: code as u32, ..e }),
        }
    }

    fn kind(self, kind: ErrorKind) -> (r: Result<T, BaseError>)
        ensures
            self matches Ok(v) ==> r matches Ok(w) && w == v,
            self matches Err(e) ==> r matches Err(f) && f.kind == kind && f.message == e.message
                && f.code == e.code && f.severity == e.severity && f.source == e.source,
    {
        match self {
            Ok(v) => Ok(v),
            Err(e) => Err(BaseError { kind, ..e }),
        }
    }
}

} // verus!
