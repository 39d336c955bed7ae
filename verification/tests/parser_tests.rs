//! Tests of the parser: document building, scoping, limits and statistics.

use mml_parser::parser::{MMLParser, ParserOptions};
use mml_parser::MMLError;

#[test]
fn parser_test_parse_simple_document() {
    let parser = MMLParser::new();
    let mml = "T:Test Document\nH:Section\nP:Content";
    let result = parser.parse(mml);

    assert!(result.is_ok());
    let doc = result.unwrap();
    assert_eq!(doc.title, Some("Test Document".to_string()));
    assert_eq!(doc.sections.len(), 1);
    assert_eq!(doc.sections[0].title, "Section");
}

#[test]
fn test_parse_metadata() {
    let parser = MMLParser::new();
    let mml = "M:author|John Doe\nM:version|1.0";
    let result = parser.parse(mml);

    assert!(result.is_ok());
    let doc = result.unwrap();
    assert_eq!(doc.metadata.get("author"), Some(&"John Doe".to_string()));
    assert_eq!(doc.metadata.get("version"), Some(&"1.0".to_string()));
    assert_eq!(doc.sections.len(), 0);
}

#[test]
fn test_parse_section_metadata() {
    let parser = MMLParser::new();
    let mml = "H:Chapter 1\nM:pages|15\nM:difficulty|Easy";
    let result = parser.parse(mml);

    assert!(result.is_ok());
    let doc = result.unwrap();
    assert_eq!(doc.sections[0].metadata.get("pages"), Some(&"15".to_string()));
    assert_eq!(
        doc.sections[0].metadata.get("difficulty"),
        Some(&"Easy".to_string())
    );
}

#[test]
fn test_parse_links() {
    let parser = MMLParser::new();
    let mml = "H:Resources\nL:Documentation|https://docs.example.com\nL:GitHub|https://github.com";
    let result = parser.parse(mml);

    assert!(result.is_ok());
    let doc = result.unwrap();
    assert_eq!(doc.sections[0].links.len(), 2);
    assert_eq!(doc.sections[0].links[0].text, "Documentation");
    assert_eq!(doc.sections[0].links[0].url, "https://docs.example.com");
}

#[test]
fn test_parse_invalid_syntax() {
    let parser = MMLParser::new();
    let mml = "INVALID LINE WITHOUT COLON";
    let result = parser.parse(mml);

    assert!(result.is_err());
    if let Err(MMLError::InvalidSyntax { .. }) = result {
        // Expected error type
    } else {
        panic!("Expected InvalidSyntax error");
    }
}

#[test]
fn test_parse_unknown_tag() {
    let parser = MMLParser::new();
    let mml = "X:Unknown tag";
    let result = parser.parse(mml);

    assert!(result.is_err());
    if let Err(MMLError::UnknownTag { .. }) = result {
        // Expected error type
    } else {
        panic!("Expected UnknownTag error");
    }
}

#[test]
fn parser_test_validate_valid_document() {
    let parser = MMLParser::new();
    let mml = "T:Valid\nH:Section\nP:Content";
    assert!(parser.validate(mml).is_ok());
}

#[test]
fn test_section_limit() {
    let mut options = ParserOptions::default();
    options.max_sections = 2;
    let parser = MMLParser::with_options(options);

    let mml = "H:Section 1\nH:Section 2\nH:Section 3";
    let result = parser.parse(mml);

    assert!(result.is_err());
    if let Err(MMLError::LimitExceeded { limit_type, .. }) = result {
        assert_eq!(limit_type, "sections");
    } else {
        panic!("Expected LimitExceeded error");
    }
}

#[test]
fn test_parsing_statistics() {
    // Statistics of a walk that runs past a bad line: lenient mode, since in
    // strict mode the first splitter failure aborts the whole parse.
    let mut options = ParserOptions::default();
    options.validate_strict = false;
    let parser = MMLParser::with_options(options);
    let mml = "T:Test\n\nH:Section\nP:Content\nINVALID LINE\n";
    let result = parser.parse(mml);

    assert!(result.is_ok());
    let doc = result.unwrap();
    assert_eq!(doc.stats.total_lines, 5); // Including empty line and invalid line
    assert_eq!(doc.stats.parsed_lines, 3); // T, H, P
    assert_eq!(doc.stats.error_lines, 1); // INVALID LINE
}

#[test]
fn test_example_execution() {
    let mml = "\nT:Test Document\nH:Section 1\nP:Some content\nM:Author|Test Author\n";

    let parser = MMLParser::new();
    let result = parser.parse(mml);
    assert!(result.is_ok());

    let doc = result.unwrap();
    assert_eq!(doc.title, Some("Test Document".to_string()));
    assert_eq!(doc.sections.len(), 1);
    // The M line follows the H line, so the pair lands in the section scope.
    assert_eq!(
        doc.sections[0].metadata.get("Author"),
        Some(&"Test Author".to_string())
    );
}

#[test]
fn test_strict_mode_aborts_on_first_bad_line() {
    let parser = MMLParser::new();
    let mml = "T:Test\nH:Section\nBROKEN LINE\nP:Content";
    let result = parser.parse(mml);
    assert!(matches!(result, Err(MMLError::InvalidSyntax { line: 3, .. })));
}

#[test]
fn test_lenient_mode_counts_unknown_tags() {
    let mut options = ParserOptions::default();
    options.validate_strict = false;
    let parser = MMLParser::with_options(options);
    let doc = parser.parse("X:one\nT:Title\nY:two").unwrap();
    assert_eq!(doc.title, Some("Title".to_string()));
    assert_eq!(doc.stats.total_lines, 3);
    assert_eq!(doc.stats.parsed_lines, 1);
    assert_eq!(doc.stats.error_lines, 2);
}

#[test]
fn test_builder_errors_abort_even_in_lenient_mode() {
    let mut options = ParserOptions::default();
    options.validate_strict = false;
    options.max_sections = 1;
    let parser = MMLParser::with_options(options);
    let result = parser.parse("H:One\nH:Two\nT:never reached");
    assert!(matches!(result, Err(MMLError::LimitExceeded { .. })));
}

#[test]
fn test_metadata_limit_per_scope() {
    let mut options = ParserOptions::default();
    options.max_metadata = 1;
    let parser = MMLParser::with_options(options);
    let result = parser.parse("M:a|1\nM:b|2");
    if let Err(MMLError::LimitExceeded {
        limit_type,
        current,
        maximum,
        ..
    }) = result
    {
        assert_eq!(limit_type, "global metadata");
        assert_eq!(current, 1);
        assert_eq!(maximum, 1);
    } else {
        panic!("Expected LimitExceeded error");
    }

    let parser2 = MMLParser::with_options(ParserOptions {
        max_sections: 100,
        max_metadata: 1,
        validate_strict: true,
        measure_time: false,
    });
    let result2 = parser2.parse("H:S\nM:a|1\nM:b|2");
    if let Err(MMLError::LimitExceeded { limit_type, .. }) = result2 {
        assert_eq!(limit_type, "section metadata");
    } else {
        panic!("Expected LimitExceeded error");
    }
}

#[test]
fn test_metadata_overwrites_existing_key() {
    let parser = MMLParser::new();
    let doc = parser.parse("M:key|first\nM:key|second").unwrap();
    assert_eq!(doc.metadata.get("key"), Some(&"second".to_string()));
    assert_eq!(doc.metadata.len(), 1);
}

#[test]
fn test_title_overwrite_keeps_last() {
    let parser = MMLParser::new();
    let doc = parser.parse("T:First\nT:Second").unwrap();
    assert_eq!(doc.title, Some("Second".to_string()));
}

#[test]
fn test_paragraph_without_section_is_dropped() {
    let parser = MMLParser::new();
    let doc = parser.parse("P:floating text\nT:Title").unwrap();
    assert_eq!(doc.title, Some("Title".to_string()));
    assert_eq!(doc.sections.len(), 0);
    assert_eq!(doc.stats.parsed_lines, 2);
}

#[test]
fn test_code_and_quote_wrap_content() {
    let parser = MMLParser::new();
    let doc = parser.parse("H:S\nC:let x = 1;").unwrap();
    assert_eq!(
        doc.sections[0].content,
        Some("```\nlet x = 1;\n```".to_string())
    );

    let doc2 = parser.parse("H:S\nQ:words to live by").unwrap();
    assert_eq!(doc2.sections[0].content, Some("> words to live by".to_string()));
}

#[test]
fn test_content_overwritten_not_appended() {
    let parser = MMLParser::new();
    let doc = parser.parse("H:S\nP:first\nP:second").unwrap();
    assert_eq!(doc.sections[0].content, Some("second".to_string()));
}

#[test]
fn test_image_fallback_synthesizes_media_section() {
    let parser = MMLParser::new();
    let doc = parser.parse("IMG:a photo|photos/a.jpg").unwrap();
    assert_eq!(doc.sections.len(), 1);
    assert_eq!(doc.sections[0].title, "Media");
    assert_eq!(doc.sections[0].images.len(), 1);
    assert_eq!(doc.sections[0].images[0].description, "a photo");
    assert_eq!(doc.sections[0].images[0].url, "photos/a.jpg");
}

#[test]
fn test_image_in_section() {
    let parser = MMLParser::new();
    let doc = parser.parse("H:Gallery\nIMG:pic|p.png").unwrap();
    assert_eq!(doc.sections[0].images.len(), 1);
    assert_eq!(doc.sections[0].images[0].url, "p.png");
}

#[test]
fn test_config_and_packet_become_metadata() {
    let parser = MMLParser::new();
    let doc = parser.parse("CFG:debug=true\nPKT:42").unwrap();
    assert_eq!(doc.metadata.get("config"), Some(&"debug=true".to_string()));
    assert_eq!(doc.metadata.get("packet"), Some(&"42".to_string()));
}

#[test]
fn test_global_links() {
    let parser = MMLParser::new();
    let doc = parser.parse("L:Home|https://example.com").unwrap();
    assert_eq!(doc.links.len(), 1);
    assert_eq!(doc.links[0].text, "Home");
    assert_eq!(doc.links[0].url, "https://example.com");
}

#[test]
fn test_whitespace_trimmed_from_tags_and_fields() {
    let parser = MMLParser::new();
    let doc = parser.parse("  T  :  Spaced Title  \nM: key | value ").unwrap();
    assert_eq!(doc.title, Some("Spaced Title".to_string()));
    assert_eq!(doc.metadata.get("key"), Some(&"value".to_string()));
}

#[test]
fn test_measure_time_records_duration() {
    let mut options = ParserOptions::default();
    options.measure_time = true;
    let parser = MMLParser::with_options(options);
    let doc = parser.parse("T:Timed").unwrap();
    assert!(doc.stats.parse_time_ms.is_some());

    let plain = MMLParser::new().parse("T:Untimed").unwrap();
    assert!(plain.stats.parse_time_ms.is_none());
}

#[test]
fn test_empty_input_yields_empty_document() {
    let parser = MMLParser::new();
    let doc = parser.parse("").unwrap();
    assert!(doc.title.is_none());
    assert_eq!(doc.sections.len(), 0);
    assert_eq!(doc.stats.total_lines, 0);
    assert_eq!(doc.stats.parsed_lines, 0);
    assert_eq!(doc.stats.error_lines, 0);
}

#[test]
fn test_line_starting_with_colon_is_invalid_syntax() {
    let parser = MMLParser::new();
    let result = parser.parse(":no tag");
    assert!(matches!(result, Err(MMLError::InvalidSyntax { .. })));
}
