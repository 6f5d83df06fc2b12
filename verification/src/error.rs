//! Error types of the driver core.
use vstd::prelude::*;
use crate::text::{chars_of, nat_decimal, push_decimal_u64, push_str_chars, string_of};

verus! {

/// Errors from encoding or converting SQL values.
#[derive(Debug, Clone, PartialEq, Eq)]
pub enum TypeError {
    /// The SQL type is not supported by this operation.
    UnsupportedType { sql_type: String, reason: String },
    /// A NULL was supplied for a column that cannot hold NULL.
    UnexpectedNull,
    /// A value is larger than its wire format can carry.
    BufferTooSmall { needed: usize, available: usize },
    /// The value cannot be written in this position.
    UnsupportedConversion { from: String, to: String },
    /// A date or time value is out of range for its wire format.
    InvalidDateTime(String),
    /// A decimal or money value cannot be encoded.
    InvalidDecimal(String),
}

/// Errors of the driver core.
#[derive(Debug, Clone, PartialEq, Eq)]
pub enum Error {
    /// Invalid configuration or invalid builder input.
    Config(String),
    /// A table, column or other name failed identifier validation.
    InvalidIdentifier(String),
    /// Malformed data received from the server.
    Protocol(String),
    /// The SQL Browser service could not resolve a named instance.
    BrowserResolution { instance: String, reason: String },
    /// A value conversion failed.
    Type(TypeError),
    /// Always Encrypted: a decrypted value is malformed.
    Encryption(String),
}

/// The message of a [`TypeError`].
pub open spec fn type_error_text(e: TypeError) -> Seq<char> {
    match e {
        TypeError::UnsupportedType { sql_type, reason } => "unsupported type "@ + sql_type@ + ": "@
            + reason@,
        TypeError::UnexpectedNull => "unexpected NULL value"@,
        TypeError::BufferTooSmall { needed, available } => "buffer too small: need "@
            + nat_decimal(needed as nat) + " bytes, have "@ + nat_decimal(available as nat),
        TypeError::UnsupportedConversion { from, to } => "cannot convert "@ + from@ + " to "@
            + to@,
        TypeError::InvalidDateTime(m) => "invalid date/time: "@ + m@,
        TypeError::InvalidDecimal(m) => "invalid decimal: "@ + m@,
    }
}

/// The message of an [`Error`].
pub open spec fn error_text(e: Error) -> Seq<char> {
    match e {
        Error::Config(m) => "configuration error: "@ + m@,
        Error::InvalidIdentifier(m) => "invalid identifier: "@ + m@,
        Error::Protocol(m) => "protocol error: "@ + m@,
        Error::BrowserResolution { instance, reason } => "failed to resolve instance '"@
            + instance@ + "': "@ + reason@,
        Error::Type(t) => "type error: "@ + type_error_text(t),
        Error::Encryption(m) => "encryption error: "@ + m@,
    }
}

impl Error {
    /// A readable message for the error.
    pub fn to_string(&self) -> (r: String)
        ensures
            r@ == error_text(*self),
    {
        let mut out: Vec<char> = Vec::new();
        match self {
            Error::Config(m) => {
                push_str_chars(&mut out, "configuration error: ");
                push_str_chars(&mut out, m.as_str());
            },
            Error::InvalidIdentifier(m) => {
                push_str_chars(&mut out, "invalid identifier: ");
                push_str_chars(&mut out, m.as_str());
            },
            Error::Protocol(m) => {
                push_str_chars(&mut out, "protocol error: ");
                push_str_chars(&mut out, m.as_str());
            },
            Error::BrowserResolution { instance, reason } => {
                push_str_chars(&mut out, "failed to resolve instance '");
                push_str_chars(&mut out, instance.as_str());
                push_str_chars(&mut out, "': ");
                push_str_chars(&mut out, reason.as_str());
            },
            Error::Type(t) => {
                push_str_chars(&mut out, "type error: ");
                let m = t.to_string();
                push_str_chars(&mut out, m.as_str());
            },
            Error::Encryption(m) => {
                push_str_chars(&mut out, "encryption error: ");
                push_str_chars(&mut out, m.as_str());
            },
        }
        string_of(out.as_slice())
    }
}

impl TypeError {
    /// A readable message for the error.
    pub fn to_string(&self) -> (r: String)
        ensures
            r@ == type_error_text(*self),
    {
        let mut out: Vec<char> = Vec::new();
        match self {
            TypeError::UnsupportedType { sql_type, reason } => {
                push_str_chars(&mut out, "unsupported type ");
                push_str_chars(&mut out, sql_type.as_str());
                push_str_chars(&mut out, ": ");
                push_str_chars(&mut out, reason.as_str());
            },
            TypeError::UnexpectedNull => {
                push_str_chars(&mut out, "unexpected NULL value");
            },
            TypeError::BufferTooSmall { needed, available } => {
                push_str_chars(&mut out, "buffer too small: need ");
                push_decimal_u64(&mut out, *needed as u64);
                push_str_chars(&mut out, " bytes, have ");
                push_decimal_u64(&mut out, *available as u64);
            },
            TypeError::UnsupportedConversion { from, to } => {
                push_str_chars(&mut out, "cannot convert ");
                push_str_chars(&mut out, from.as_str());
                push_str_chars(&mut out, " to ");
                push_str_chars(&mut out, to.as_str());
            },
            TypeError::InvalidDateTime(m) => {
                push_str_chars(&mut out, "invalid date/time: ");
                push_str_chars(&mut out, m.as_str());
            },
            TypeError::InvalidDecimal(m) => {
                push_str_chars(&mut out, "invalid decimal: ");
                push_str_chars(&mut out, m.as_str());
            },
        }
        string_of(out.as_slice())
    }
}

/// An owned string holding the characters of a literal.
pub fn owned(s: &str) -> (r: String)
    ensures
        r@ == s@,
{
    let v = chars_of(s);
    string_of(v.as_slice())
}

} // verus!
