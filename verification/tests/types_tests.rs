//! Tests of the data model: construction, defaults and tag conversion.

use mml_parser::types::{
    CompressionLevel, MMLDocument, MMLSection, MMLTag, OutputFormat,
};
use mml_parser::MMLLink;

#[test]
fn test_document_creation() {
    let doc = MMLDocument::default();
    assert!(doc.title.is_none());
    assert!(doc.metadata.is_empty());
    assert!(doc.sections.is_empty());
}

#[test]
fn test_section_creation() {
    let section = MMLSection::new("Test Section".to_string());
    assert_eq!(section.title, "Test Section");
    assert!(section.content.is_none());
    assert!(section.metadata.is_empty());
}

#[test]
fn test_link_creation() {
    let link = MMLLink::new("Test Link".to_string(), "https://example.com".to_string());
    assert_eq!(link.text, "Test Link");
    assert_eq!(link.url, "https://example.com");
}

#[test]
fn test_tag_conversion() {
    assert_eq!(MMLTag::Title.to_str(), "T");
    assert_eq!(MMLTag::from_str("H"), MMLTag::Section);
    assert_eq!(MMLTag::from_str("INVALID"), MMLTag::Unknown);
}

#[test]
fn test_tag_round_trip() {
    let tags = [
        MMLTag::Title,
        MMLTag::Section,
        MMLTag::Paragraph,
        MMLTag::Metadata,
        MMLTag::Link,
        MMLTag::Image,
        MMLTag::Code,
        MMLTag::Quote,
        MMLTag::Config,
        MMLTag::Packet,
    ];
    for tag in tags {
        assert_eq!(MMLTag::from_str(tag.to_str()), tag);
    }
    // No partial or prefix matching: "Ti" must not match "T".
    assert_eq!(MMLTag::from_str("Ti"), MMLTag::Unknown);
    assert_eq!(MMLTag::from_str("t"), MMLTag::Unknown);
    assert_eq!(MMLTag::from_str(""), MMLTag::Unknown);
    assert_eq!(MMLTag::from_str("UNKNOWN"), MMLTag::Unknown);
}

#[test]
fn test_metadata_map_insert_and_get() {
    let mut doc = MMLDocument::default();
    doc.metadata.insert("a".to_string(), "1".to_string());
    doc.metadata.insert("b".to_string(), "2".to_string());
    doc.metadata.insert("a".to_string(), "3".to_string());
    assert_eq!(doc.metadata.len(), 2);
    assert_eq!(doc.metadata.get("a"), Some(&"3".to_string()));
    assert_eq!(doc.metadata.get("b"), Some(&"2".to_string()));
    assert_eq!(doc.metadata.get("c"), None);
    assert!(doc.metadata.contains_key("a"));
    assert!(!doc.metadata.contains_key("c"));
    assert_eq!(doc.metadata.get_pair(0), &("a".to_string(), "3".to_string()));
}

#[test]
fn test_enum_defaults() {
    assert_eq!(CompressionLevel::default(), CompressionLevel::Basic);
    assert_eq!(OutputFormat::default(), OutputFormat::MML);
}

#[test]
fn test_stats_default() {
    let doc = MMLDocument::default();
    assert_eq!(doc.stats.total_lines, 0);
    assert_eq!(doc.stats.parsed_lines, 0);
    assert_eq!(doc.stats.error_lines, 0);
    assert!(doc.stats.parse_time_ms.is_none());
}
