//! Tests of the error taxonomy: messages, suggestions, severity and
//! recoverability.

use mml_parser::error::ErrorSeverity;
use mml_parser::MMLError;

#[test]
fn test_error_display() {
    let error = MMLError::UnknownTag {
        tag: "INVALID".to_string(),
        line: 5,
        suggestion: "Use a valid MML tag.".to_string(),
    };

    let display = error.message();
    assert!(display.contains("Unknown tag 'INVALID'"));
    assert!(display.contains("line 5"));
}

#[test]
fn test_error_suggestion() {
    let error = MMLError::InvalidSyntax {
        line: 1,
        column: 10,
        found: "INVALID".to_string(),
        expected: "TAG:".to_string(),
        suggestion: "Start with a valid tag.".to_string(),
    };

    assert_eq!(error.suggestion(), "Start with a valid tag.");
}

#[test]
fn test_error_severity() {
    assert_eq!(
        MMLError::UnknownTag {
            tag: "X".to_string(),
            line: 1,
            suggestion: "".to_string(),
        }
        .severity(),
        ErrorSeverity::Low
    );

    assert_eq!(
        MMLError::InvalidSyntax {
            line: 1,
            column: 1,
            found: "".to_string(),
            expected: "".to_string(),
            suggestion: "".to_string(),
        }
        .severity(),
        ErrorSeverity::Critical
    );
}

#[test]
fn test_error_recoverability() {
    assert!(MMLError::UnknownTag {
        tag: "X".to_string(),
        line: 1,
        suggestion: "".to_string(),
    }
    .is_recoverable());

    assert!(!MMLError::InvalidSyntax {
        line: 1,
        column: 1,
        found: "".to_string(),
        expected: "".to_string(),
        suggestion: "".to_string(),
    }
    .is_recoverable());
}

#[test]
fn test_error_message_exact() {
    let error = MMLError::LimitExceeded {
        limit_type: "sections".to_string(),
        current: 100,
        maximum: 100,
        suggestion: "Split the file.".to_string(),
    };
    assert_eq!(
        error.message(),
        "Limit exceeded for sections: 100 used, 100 maximum. Split the file."
    );

    let syntax = MMLError::InvalidSyntax {
        line: 12,
        column: 1,
        found: "oops".to_string(),
        expected: "TAG:content".to_string(),
        suggestion: "Fix it.".to_string(),
    };
    assert_eq!(
        syntax.message(),
        "Syntax error at line 12, column 1: found 'oops', expected 'TAG:content'. Fix it."
    );
}

#[test]
fn test_default_suggestion_for_variants_without_one() {
    let error = MMLError::ParseError {
        message: "boom".to_string(),
        context: "test".to_string(),
    };
    assert_eq!(
        error.suggestion(),
        "Please check the MML specification for correct syntax."
    );
    assert_eq!(error.message(), "Parse error: boom (context: test)");
}

#[test]
fn test_severity_and_recoverability_policy() {
    let structure = MMLError::StructureError {
        message: "bad".to_string(),
        suggestion: "s".to_string(),
    };
    assert_eq!(structure.severity(), ErrorSeverity::High);
    assert!(!structure.is_recoverable());

    let limit = MMLError::LimitExceeded {
        limit_type: "sections".to_string(),
        current: 1,
        maximum: 1,
        suggestion: "s".to_string(),
    };
    assert_eq!(limit.severity(), ErrorSeverity::High);
    assert!(!limit.is_recoverable());

    let encoding = MMLError::EncodingError {
        operation: "read".to_string(),
        charset: "utf-8".to_string(),
        error: "bad byte".to_string(),
        suggestion: "s".to_string(),
    };
    assert_eq!(encoding.severity(), ErrorSeverity::Medium);
    assert!(!encoding.is_recoverable());

    let io = MMLError::IoError {
        operation: "open".to_string(),
        path: "x".to_string(),
        error: "denied".to_string(),
    };
    assert_eq!(io.severity(), ErrorSeverity::High);
    assert!(!io.is_recoverable());

    let metadata = MMLError::MetadataError {
        key: "k".to_string(),
        value: "".to_string(),
        error: "Invalid format".to_string(),
        suggestion: "s".to_string(),
    };
    assert_eq!(metadata.severity(), ErrorSeverity::Medium);
    assert!(metadata.is_recoverable());
}

#[test]
fn test_severity_ordering() {
    assert!(ErrorSeverity::Low < ErrorSeverity::Medium);
    assert!(ErrorSeverity::Medium < ErrorSeverity::High);
    assert!(ErrorSeverity::High < ErrorSeverity::Critical);
}

#[test]
fn test_field_error_carries_raw_content() {
    let parser = mml_parser::MMLParser::new();

    let r = parser.parse("M:no delimiter here");
    if let Err(MMLError::MetadataError { key, value, error, .. }) = r {
        assert_eq!(key, "no delimiter here");
        assert_eq!(value, "");
        assert_eq!(error, "Invalid format");
    } else {
        panic!("Expected MetadataError");
    }

    let r2 = parser.parse("L:a|b|c");
    if let Err(MMLError::LinkError { text, url, .. }) = r2 {
        assert_eq!(text, "a|b|c");
        assert_eq!(url, "");
    } else {
        panic!("Expected LinkError");
    }

    let r3 = parser.parse("IMG:lonely");
    if let Err(MMLError::ImageError { description, url, .. }) = r3 {
        assert_eq!(description, "lonely");
        assert_eq!(url, "");
    } else {
        panic!("Expected ImageError");
    }
}

#[test]
fn test_unknown_tag_reports_tag_and_line() {
    let parser = mml_parser::MMLParser::new();
    let r = parser.parse("T:ok\nZZ:mystery");
    if let Err(MMLError::UnknownTag { tag, line, .. }) = r {
        assert_eq!(tag, "ZZ");
        assert_eq!(line, 2);
    } else {
        panic!("Expected UnknownTag");
    }
}
