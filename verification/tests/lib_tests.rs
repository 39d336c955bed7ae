//! Tests of the convenience functions and of the library-wide properties:
//! counting, idempotence and the render/parse round trip.

use mml_parser::parse_mml;
use mml_parser::render::render_mml;
use mml_parser::validate_mml;
use mml_parser::{MMLParser, MMLError};

#[test]
fn lib_test_parse_simple_document() {
    let mml = "T:Test Document\nH:Section\nP:Content";
    let result = parse_mml(mml);
    assert!(result.is_ok());

    let doc = result.unwrap();
    assert_eq!(doc.title, Some("Test Document".to_string()));
    assert_eq!(doc.sections.len(), 1);
    assert_eq!(doc.sections[0].title, "Section");
}

#[test]
fn lib_test_validate_valid_document() {
    let mml = "T:Valid\nP:Document";
    assert!(validate_mml(mml).is_ok());
}

#[test]
fn test_validate_invalid_document() {
    let mml = "INVALID:Document";
    assert!(validate_mml(mml).is_err());
}

#[test]
fn test_validate_surfaces_every_failure() {
    // validate, unlike lenient parse, surfaces classification failures
    assert!(matches!(
        validate_mml("T:ok\nX:bad"),
        Err(MMLError::UnknownTag { line: 2, .. })
    ));
    assert!(matches!(
        validate_mml("no colon at all"),
        Err(MMLError::InvalidSyntax { line: 1, .. })
    ));
    // blank lines are skipped
    assert!(validate_mml("\n\nT:fine\n\n").is_ok());
}

#[test]
fn test_validate_ignores_builder_failures() {
    // validate only splits and classifies: a payload that the builder would
    // reject still validates, while parse fails on it
    assert!(validate_mml("M:no delimiter").is_ok());
    assert!(parse_mml("M:no delimiter").is_err());
}

#[test]
fn test_statistics_accounting_well_formed() {
    // Every line is counted exactly once: parsed, error, or blank.
    let doc = parse_mml("T:Title\n\nH:Sec\n\n\nP:Text").unwrap();
    assert_eq!(doc.stats.total_lines, 6);
    assert_eq!(doc.stats.parsed_lines, 3);
    assert_eq!(doc.stats.error_lines, 0);
    let blanks = doc.stats.total_lines - doc.stats.parsed_lines - doc.stats.error_lines;
    assert_eq!(blanks, 3);
}

#[test]
fn test_parse_idempotent() {
    let mml = "T:Doc\nM:a|1\nH:S\nP:text\nL:x|y\nIMG:d|u\nC:code\nQ:quote\nCFG:c\nPKT:p";
    let d1 = parse_mml(mml).unwrap();
    let d2 = parse_mml(mml).unwrap();
    assert_eq!(d1, d2);
}

#[test]
fn test_render_parse_round_trip() {
    let mml = "T:Doc Title\nM:author|Ada\nM:year|1843\nH:First\nM:k|v\nP:Body text\nL:link|url\nIMG:pic|img.png\nH:Second\nP:More";
    let doc = parse_mml(mml).unwrap();
    let rendered = render_mml(&doc);
    let again = parse_mml(&rendered).unwrap();

    assert_eq!(doc.title, again.title);
    assert_eq!(doc.metadata, again.metadata);
    assert_eq!(doc.sections, again.sections);
    assert_eq!(doc.links, again.links);
}

#[test]
fn test_render_exact_text() {
    let doc = parse_mml("T:Doc\nM:a|1\nH:S\nP:text\nL:x|y").unwrap();
    assert_eq!(render_mml(&doc), "T:Doc\nM:a|1\nH:S\nP:text\nL:x|y\n");
}

#[test]
fn test_round_trip_of_synthesized_media_section() {
    // The fallback section renders like any other, so the second parse sees
    // an explicit `H:Media` heading.
    let doc = parse_mml("IMG:shot|s.png").unwrap();
    let again = parse_mml(&render_mml(&doc)).unwrap();
    assert_eq!(doc.sections, again.sections);
}

#[test]
fn test_section_limit_counts_match_ceiling() {
    let mut options = mml_parser::parser::ParserOptions::default();
    options.max_sections = 3;
    let parser = MMLParser::with_options(options);
    let result = parser.parse("H:1\nH:2\nH:3\nH:4");
    if let Err(MMLError::LimitExceeded { limit_type, current, maximum, .. }) = result {
        assert_eq!(limit_type, "sections");
        assert_eq!(current, 3);
        assert_eq!(maximum, 3);
    } else {
        panic!("Expected LimitExceeded error");
    }
}
