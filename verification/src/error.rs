//! Error taxonomy for MML parsing: a closed set of error kinds, each carrying
//! structured context plus a recovery suggestion, a severity, and a
//! recoverability flag.

use vstd::prelude::*;

use crate::numfmt::{dec_rep, usize_to_string};

verus! {

/// Result type alias for MML operations.
pub type MMLResult<T> = Result<T, MMLError>;

/// Comprehensive error type for MML operations.
#[derive(Debug, Clone, PartialEq)]
pub enum MMLError {
    /// Invalid input format or syntax.
    InvalidSyntax { line: usize, column: usize, found: String, expected: String, suggestion: String },
    /// Unknown or unsupported tag.
    UnknownTag { tag: String, line: usize, suggestion: String },
    /// Document structure error.
    StructureError { message: String, suggestion: String },
    /// Metadata parsing error.
    MetadataError { key: String, value: String, error: String, suggestion: String },
    /// Link parsing error.
    LinkError { text: String, url: String, error: String, suggestion: String },
    /// Image parsing error.
    ImageError { description: String, url: String, error: String, suggestion: String },
    /// Limits exceeded (sections, metadata, etc.).
    LimitExceeded { limit_type: String, current: usize, maximum: usize, suggestion: String },
    /// I/O error during file operations.
    IoError { operation: String, path: String, error: String },
    /// Encoding/decoding error.
    EncodingError { operation: String, charset: String, error: String, suggestion: String },
    /// Validation error.
    ValidationError { field: String, value: String, reason: String, suggestion: String },
    /// Generic parsing error.
    ParseError { message: String, context: String },
}

/// Mathematical model of an error: the same variants over character
/// sequences and unbounded integers.
pub ghost enum ErrorModel {
    InvalidSyntax {
        line: nat,
        column: nat,
        found: Seq<char>,
        expected: Seq<char>,
        suggestion: Seq<char>,
    },
    UnknownTag { tag: Seq<char>, line: nat, suggestion: Seq<char> },
    StructureError { message: Seq<char>, suggestion: Seq<char> },
    MetadataError { key: Seq<char>, value: Seq<char>, error: Seq<char>, suggestion: Seq<char> },
    LinkError { text: Seq<char>, url: Seq<char>, error: Seq<char>, suggestion: Seq<char> },
    ImageError {
        description: Seq<char>,
        url: Seq<char>,
        error: Seq<char>,
        suggestion: Seq<char>,
    },
    LimitExceeded { limit_type: Seq<char>, current: nat, maximum: nat, suggestion: Seq<char> },
    IoError { operation: Seq<char>, path: Seq<char>, error: Seq<char> },
    EncodingError {
        operation: Seq<char>,
        charset: Seq<char>,
        error: Seq<char>,
        suggestion: Seq<char>,
    },
    ValidationError {
        field: Seq<char>,
        value: Seq<char>,
        reason: Seq<char>,
        suggestion: Seq<char>,
    },
    ParseError { message: Seq<char>, context: Seq<char> },
}

impl View for MMLError {
    type V = ErrorModel;

    open spec fn view(&self) -> ErrorModel {
        match self {
            MMLError::InvalidSyntax { line, column, found, expected, suggestion } => {
                ErrorModel::InvalidSyntax {
                    line: *line as nat,
                    column: *column as nat,
                    found: found@,
                    expected: expected@,
                    suggestion: suggestion@,
                }
            },
            MMLError::UnknownTag { tag, line, suggestion } => {
                ErrorModel::UnknownTag { tag: tag@, line: *line as nat, suggestion: suggestion@ }
            },
            MMLError::StructureError { message, suggestion } => {
                ErrorModel::StructureError { message: message@, suggestion: suggestion@ }
            },
            MMLError::MetadataError { key, value, error, suggestion } => {
                ErrorModel::MetadataError {
                    key: key@,
                    value: value@,
                    error: error@,
                    suggestion: suggestion@,
                }
            },
            MMLError::LinkError { text, url, error, suggestion } => {
                ErrorModel::LinkError {
                    text: text@,
                    url: url@,
                    error: error@,
                    suggestion: suggestion@,
                }
            },
            MMLError::ImageError { description, url, error, suggestion } => {
                ErrorModel::ImageError {
                    description: description@,
                    url: url@,
                    error: error@,
                    suggestion: suggestion@,
                }
            },
            MMLError::LimitExceeded { limit_type, current, maximum, suggestion } => {
                ErrorModel::LimitExceeded {
                    limit_type: limit_type@,
                    current: *current as nat,
                    maximum: *maximum as nat,
                    suggestion: suggestion@,
                }
            },
            MMLError::IoError { operation, path, error } => {
                ErrorModel::IoError { operation: operation@, path: path@, error: error@ }
            },
            MMLError::EncodingError { operation, charset, error, suggestion } => {
                ErrorModel::EncodingError {
                    operation: operation@,
                    charset: charset@,
                    error: error@,
                    suggestion: suggestion@,
                }
            },
            MMLError::ValidationError { field, value, reason, suggestion } => {
                ErrorModel::ValidationError {
                    field: field@,
                    value: value@,
                    reason: reason@,
                    suggestion: suggestion@,
                }
            },
            MMLError::ParseError { message, context } => {
                ErrorModel::ParseError { message: message@, context: context@ }
            },
        }
    }
}

/// Error severity levels, ordered `Low < Medium < High < Critical`.
#[derive(Debug, Clone, Copy, PartialEq, Eq, PartialOrd, Ord, Structural)]
pub enum ErrorSeverity {
    /// Minor issues that don't prevent parsing.
    Low,
    /// Issues that may affect document structure.
    Medium,
    /// Serious issues that may break parsing.
    High,
    /// Critical errors that prevent any processing.
    Critical,
}

/// The recovery suggestion of an error: its suggestion field, or the generic
/// fallback text for the variants that carry none.
pub open spec fn spec_suggestion(e: &MMLError) -> Seq<char> {
    match e {
        MMLError::InvalidSyntax { suggestion, .. } => suggestion@,
        MMLError::UnknownTag { suggestion, .. } => suggestion@,
        MMLError::StructureError { suggestion, .. } => suggestion@,
        MMLError::MetadataError { suggestion, .. } => suggestion@,
        MMLError::LinkError { suggestion, .. } => suggestion@,
        MMLError::ImageError { suggestion, .. } => suggestion@,
        MMLError::LimitExceeded { suggestion, .. } => suggestion@,
        MMLError::EncodingError { suggestion, .. } => suggestion@,
        MMLError::ValidationError { suggestion, .. } => suggestion@,
        _ => "Please check the MML specification for correct syntax."@,
    }
}

/// Whether parsing may continue past this error in lenient mode.
pub open spec fn spec_recoverable(e: &MMLError) -> bool {
    match e {
        MMLError::UnknownTag { .. } => true,
        MMLError::InvalidSyntax { .. } => false,
        MMLError::StructureError { .. } => false,
        MMLError::LimitExceeded { .. } => false,
        MMLError::IoError { .. } => false,
        MMLError::EncodingError { .. } => false,
        _ => true,
    }
}

/// The severity assigned to each error kind.
pub open spec fn spec_severity(e: &MMLError) -> ErrorSeverity {
    match e {
        MMLError::InvalidSyntax { .. } => ErrorSeverity::Critical,
        MMLError::StructureError { .. } => ErrorSeverity::High,
        MMLError::LimitExceeded { .. } => ErrorSeverity::High,
        MMLError::IoError { .. } => ErrorSeverity::High,
        MMLError::EncodingError { .. } => ErrorSeverity::Medium,
        MMLError::UnknownTag { .. } => ErrorSeverity::Low,
        _ => ErrorSeverity::Medium,
    }
}

/// The human-readable message of an error, with every counter in decimal.
pub open spec fn spec_message(e: &MMLError) -> Seq<char> {
    match e {
        MMLError::InvalidSyntax { line, column, found, expected, suggestion } => {
            "Syntax error at line "@ + dec_rep(*line as nat) + ", column "@ + dec_rep(
                *column as nat,
            ) + ": found '"@ + found@ + "', expected '"@ + expected@ + "'. "@ + suggestion@
        },
        MMLError::UnknownTag { tag, line, suggestion } => {
            "Unknown tag '"@ + tag@ + "' at line "@ + dec_rep(*line as nat) + ". "@ + suggestion@
        },
        MMLError::StructureError { message, suggestion } => {
            "Structure error: "@ + message@ + ". "@ + suggestion@
        },
        MMLError::MetadataError { key, value, error, suggestion } => {
            "Metadata error for key '"@ + key@ + "', value '"@ + value@ + "': "@ + error@ + ". "@
                + suggestion@
        },
        MMLError::LinkError { text, url, error, suggestion } => {
            "Link error for '"@ + text@ + " -> "@ + url@ + "': "@ + error@ + ". "@ + suggestion@
        },
        MMLError::ImageError { description, url, error, suggestion } => {
            "Image error for '"@ + description@ + " -> "@ + url@ + "': "@ + error@ + ". "@
                + suggestion@
        },
        MMLError::LimitExceeded { limit_type, current, maximum, suggestion } => {
            "Limit exceeded for "@ + limit_type@ + ": "@ + dec_rep(*current as nat) + " used, "@
                + dec_rep(*maximum as nat) + " maximum. "@ + suggestion@
        },
        MMLError::IoError { operation, path, error } => {
            "I/O error during "@ + operation@ + " on '"@ + path@ + "': "@ + error@
        },
        MMLError::EncodingError { operation, charset, error, suggestion } => {
            "Encoding error during "@ + operation@ + " with charset "@ + charset@ + ": "@ + error@
                + ". "@ + suggestion@
        },
        MMLError::ValidationError { field, value, reason, suggestion } => {
            "Validation error for field '"@ + field@ + "', value '"@ + value@ + "': "@ + reason@
                + ". "@ + suggestion@
        },
        MMLError::ParseError { message, context } => {
            "Parse error: "@ + message@ + " (context: "@ + context@ + ")"@
        },
    }
}

impl MMLError {
    /// The human-readable description of this error.
    pub fn message(&self) -> (r: String)
        ensures
            r@ == spec_message(self),
    {
        match self {
            MMLError::InvalidSyntax { line, column, found, expected, suggestion } => {
                let mut s = "Syntax error at line ".to_owned();
                s.append(usize_to_string(*line).as_str());
                s.append(", column ");
                s.append(usize_to_string(*column).as_str());
                s.append(": found '");
                s.append(found.as_str());
                s.append("', expected '");
                s.append(expected.as_str());
                s.append("'. ");
                s.append(suggestion.as_str());
                s
            },
            MMLError::UnknownTag { tag, line, suggestion } => {
                let mut s = "Unknown tag '".to_owned();
                s.append(tag.as_str());
                s.append("' at line ");
                s.append(usize_to_string(*line).as_str());
                s.append(". ");
                s.append(suggestion.as_str());
                s
            },
            MMLError::StructureError { message, suggestion } => {
                let mut s = "Structure error: ".to_owned();
                s.append(message.as_str());
                s.append(". ");
                s.append(suggestion.as_str());
                s
            },
            MMLError::MetadataError { key, value, error, suggestion } => {
                let mut s = "Metadata error for key '".to_owned();
                s.append(key.as_str());
                s.append("', value '");
                s.append(value.as_str());
                s.append("': ");
                s.append(error.as_str());
                s.append(". ");
                s.append(suggestion.as_str());
                s
            },
            MMLError::LinkError { text, url, error, suggestion } => {
                let mut s = "Link error for '".to_owned();
                s.append(text.as_str());
                s.append(" -> ");
                s.append(url.as_str());
                s.append("': ");
                s.append(error.as_str());
                s.append(". ");
                s.append(suggestion.as_str());
                s
            },
            MMLError::ImageError { description, url, error, suggestion } => {
                let mut s = "Image error for '".to_owned();
                s.append(description.as_str());
                s.append(" -> ");
                s.append(url.as_str());
                s.append("': ");
                s.append(error.as_str());
                s.append(". ");
                s.append(suggestion.as_str());
                s
            },
            MMLError::LimitExceeded { limit_type, current, maximum, suggestion } => {
                let mut s = "Limit exceeded for ".to_owned();
                s.append(limit_type.as_str());
                s.append(": ");
                s.append(usize_to_string(*current).as_str());
                s.append(" used, ");
                s.append(usize_to_string(*maximum).as_str());
                s.append(" maximum. ");
                s.append(suggestion.as_str());
                s
            },
            MMLError::IoError { operation, path, error } => {
                let mut s = "I/O error during ".to_owned();
                s.append(operation.as_str());
                s.append(" on '");
                s.append(path.as_str());
                s.append("': ");
                s.append(error.as_str());
                s
            },
            MMLError::EncodingError { operation, charset, error, suggestion } => {
                let mut s = "Encoding error during ".to_owned();
                s.append(operation.as_str());
                s.append(" with charset ");
                s.append(charset.as_str());
                s.append(": ");
                s.append(error.as_str());
                s.append(". ");
                s.append(suggestion.as_str());
                s
            },
            MMLError::ValidationError { field, value, reason, suggestion } => {
                let mut s = "Validation error for field '".to_owned();
                s.append(field.as_str());
                s.append("', value '");
                s.append(value.as_str());
                s.append("': ");
                s.append(reason.as_str());
                s.append(". ");
                s.append(suggestion.as_str());
                s
            },
            MMLError::ParseError { message, context } => {
                let mut s = "Parse error: ".to_owned();
                s.append(message.as_str());
                s.append(" (context: ");
                s.append(context.as_str());
                s.append(")");
                s
            },
        }
    }

    /// Get a recovery suggestion for this error.
    pub fn suggestion(&self) -> (r: &str)
        ensures
            r@ == spec_suggestion(self),
    {
        match self {
            MMLError::InvalidSyntax { suggestion, .. } => suggestion.as_str(),
            MMLError::UnknownTag { suggestion, .. } => suggestion.as_str(),
            MMLError::StructureError { suggestion, .. } => suggestion.as_str(),
            MMLError::MetadataError { suggestion, .. } => suggestion.as_str(),
            MMLError::LinkError { suggestion, .. } => suggestion.as_str(),
            MMLError::ImageError { suggestion, .. } => suggestion.as_str(),
            MMLError::LimitExceeded { suggestion, .. } => suggestion.as_str(),
            MMLError::EncodingError { suggestion, .. } => suggestion.as_str(),
            MMLError::ValidationError { suggestion, .. } => suggestion.as_str(),
            _ => "Please check the MML specification for correct syntax.",
        }
    }

    /// Check if this error is recoverable.
    pub fn is_recoverable(&self) -> (r: bool)
        ensures
            r == spec_recoverable(self),
    {
        match self {
            MMLError::UnknownTag { .. } => true,
            MMLError::InvalidSyntax { .. } => false,
            MMLError::StructureError { .. } => false,
            MMLError::LimitExceeded { .. } => false,
            MMLError::IoError { .. } => false,
            MMLError::EncodingError { .. } => false,
            _ => true,
        }
    }

    /// Get error severity level.
    pub fn severity(&self) -> (r: ErrorSeverity)
        ensures
            r == spec_severity(self),
    {
        match self {
            MMLError::InvalidSyntax { .. } => ErrorSeverity::Critical,
            MMLError::StructureError { .. } => ErrorSeverity::High,
            MMLError::LimitExceeded { .. } => ErrorSeverity::High,
            MMLError::IoError { .. } => ErrorSeverity::High,
            MMLError::EncodingError { .. } => ErrorSeverity::Medium,
            MMLError::UnknownTag { .. } => ErrorSeverity::Low,
            _ => ErrorSeverity::Medium,
        }
    }
}

} // verus!
