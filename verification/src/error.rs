//! The crate's error type.
use vstd::prelude::*;
use crate::text::push_str;

verus! {

/// The canonical error type for figtree.
///
/// Every fallible operation in the crate returns a `FigtreeError`.
/// Consumers match on variants to handle specific failure modes.
#[derive(Debug, Clone)]
pub enum FigtreeError {
    /// A required configuration key had no value from any source
    /// and no default was declared.
    MissingRequired(String),

    /// A value was present but could not be parsed into the declared type.
    ParseFailed { key: String, raw: String, reason: String },

    /// A validator rejected the resolved value for a key.
    ValidationFailed { key: String, message: String },

    /// A callback returned an error.
    CallbackFailed { key: String, phase: String, message: String },

    /// A configuration file could not be read or did not exist.
    FileNotFound(String),

    /// A configuration file existed but could not be parsed.
    FileParseFailed { path: String, reason: String },

    /// A rule blocked an attempted operation on a key.
    RuleViolation { key: String, rule: String },

    /// An operation named a key that has not been registered on the tree.
    UnknownKey(String),

    /// A key was registered more than once on the same tree.
    DuplicateKey(String),

    /// A value's type did not match the type declared for the key.
    TypeMismatch { key: String, expected: String, got: String },

    /// Any error that does not fit a more specific variant.
    Other(String),
}

/// Convenience alias used throughout the crate.
pub type FigtreeResult<T> = Result<T, FigtreeError>;

/// The human-readable text of an error.
pub open spec fn error_text(e: FigtreeError) -> Seq<char> {
    match e {
        FigtreeError::MissingRequired(key) =>
            "required key '"@ + key@ + "' has no value and no default"@,
        FigtreeError::ParseFailed { key, raw, reason } =>
            "key '"@ + key@ + "': could not parse '"@ + raw@ + "': "@ + reason@,
        FigtreeError::ValidationFailed { key, message } =>
            "key '"@ + key@ + "' failed validation: "@ + message@,
        FigtreeError::CallbackFailed { key, phase, message } =>
            "key '"@ + key@ + "' callback '"@ + phase@ + "' failed: "@ + message@,
        FigtreeError::FileNotFound(path) =>
            "config file not found: '"@ + path@ + "'"@,
        FigtreeError::FileParseFailed { path, reason } =>
            "config file '"@ + path@ + "' could not be parsed: "@ + reason@,
        FigtreeError::RuleViolation { key, rule } =>
            "key '"@ + key@ + "' blocked by rule '"@ + rule@ + "'"@,
        FigtreeError::UnknownKey(key) => "unknown key '"@ + key@ + "'"@,
        FigtreeError::DuplicateKey(key) =>
            "key '"@ + key@ + "' was registered more than once"@,
        FigtreeError::TypeMismatch { key, expected, got } =>
            "key '"@ + key@ + "': type mismatch — expected '"@ + expected@ + "', got '"@ + got@ + "'"@,
        FigtreeError::Other(msg) => "figtree error: "@ + msg@,
    }
}

impl FigtreeError {
    /// The human-readable text of this error (what `Display` would print).
    pub fn to_text(&self) -> (r: String)
        ensures
            r@ == error_text(*self),
    {
        let mut s = String::new();
        match self {
            FigtreeError::MissingRequired(key) => {
                push_str(&mut s, "required key '");
                push_str(&mut s, key.as_str());
                push_str(&mut s, "' has no value and no default");
            },
            FigtreeError::ParseFailed { key, raw, reason } => {
                push_str(&mut s, "key '");
                push_str(&mut s, key.as_str());
                push_str(&mut s, "': could not parse '");
                push_str(&mut s, raw.as_str());
                push_str(&mut s, "': ");
                push_str(&mut s, reason.as_str());
            },
            FigtreeError::ValidationFailed { key, message } => {
                push_str(&mut s, "key '");
                push_str(&mut s, key.as_str());
                push_str(&mut s, "' failed validation: ");
                push_str(&mut s, message.as_str());
            },
            FigtreeError::CallbackFailed { key, phase, message } => {
                push_str(&mut s, "key '");
                push_str(&mut s, key.as_str());
                push_str(&mut s, "' callback '");
                push_str(&mut s, phase.as_str());
                push_str(&mut s, "' failed: ");
                push_str(&mut s, message.as_str());
            },
            FigtreeError::FileNotFound(path) => {
                push_str(&mut s, "config file not found: '");
                push_str(&mut s, path.as_str());
                push_str(&mut s, "'");
            },
            FigtreeError::FileParseFailed { path, reason } => {
                push_str(&mut s, "config file '");
                push_str(&mut s, path.as_str());
                push_str(&mut s, "' could not be parsed: ");
                push_str(&mut s, reason.as_str());
            },
            FigtreeError::RuleViolation { key, rule } => {
                push_str(&mut s, "key '");
                push_str(&mut s, key.as_str());
                push_str(&mut s, "' blocked by rule '");
                push_str(&mut s, rule.as_str());
                push_str(&mut s, "'");
            },
            FigtreeError::UnknownKey(key) => {
                push_str(&mut s, "unknown key '");
                push_str(&mut s, key.as_str());
                push_str(&mut s, "'");
            },
            FigtreeError::DuplicateKey(key) => {
                push_str(&mut s, "key '");
                push_str(&mut s, key.as_str());
                push_str(&mut s, "' was registered more than once");
            },
            FigtreeError::TypeMismatch { key, expected, got } => {
                push_str(&mut s, "key '");
                push_str(&mut s, key.as_str());
                push_str(&mut s, "': type mismatch — expected '");
                push_str(&mut s, expected.as_str());
                push_str(&mut s, "', got '");
                push_str(&mut s, got.as_str());
                push_str(&mut s, "'");
            },
            FigtreeError::Other(msg) => {
                push_str(&mut s, "figtree error: ");
                push_str(&mut s, msg.as_str());
            },
        }
        assert(s@ =~= error_text(*self));
        s
    }
}

}
