//! Parser for MML, a minimal line-oriented markup language.
//!
//! Each input line carries a short tag (`T`, `H`, `P`, `M`, `L`, `IMG`, `C`,
//! `Q`, `CFG`, `PKT`) followed by `:` and the line's content. Parsing builds
//! an [`MMLDocument`]: a tree of sections, metadata, links and images. Every
//! function of the parsing core carries a contract that pins its result to a
//! mathematical model of the grammar.

use vstd::prelude::*;

mod clock;
pub mod error;
pub mod laws;
pub mod model;
pub mod numfmt;
pub mod parser;
pub mod render;
pub mod strutil;
pub mod types;

pub use error::{ErrorSeverity, MMLError, MMLResult};
pub use parser::{MMLParser, ParserOptions};
pub use types::{
    CompressionLevel, MMLDocument, MMLImage, MMLLink, MMLSection, MMLStats, MMLTag, MetadataMap,
    OutputFormat,
};

verus! {

/// Version of the MML specification supported.
pub const MML_VERSION: &'static str = "1.0";

/// Maximum number of sections allowed in a document.
pub const MAX_SECTIONS: usize = 100;

/// Maximum number of metadata entries per document/section.
pub const MAX_METADATA: usize = 200;

/// Parse MML text into a document with the default options (convenience
/// function); see [`MMLParser::parse`] for the exact contract.
pub fn parse_mml(input: &str) -> (r: MMLResult<types::MMLDocument>)
    ensures
        match model::spec_parse(model::default_options(), input@) {
            Ok(dm) => r matches Ok(d) && model::doc_obs(d@) == dm && d@.wf()
                && d@.stats.parse_time_ms is None,
            Err(em) => r matches Err(e) && e@ == em,
        },
{
    let parser = MMLParser::new();
    let r = parser.parse(input);
    proof {
        assert(parser.spec_options() == model::default_options());
    }
    r
}

/// Validate MML syntax without creating a document (convenience function).
pub fn validate_mml(input: &str) -> (r: MMLResult<()>)
    ensures
        match model::spec_validate(input@) {
            Ok(_) => r is Ok,
            Err(em) => r matches Err(e) && e@ == em,
        },
{
    let parser = MMLParser::new();
    parser.validate(input)
}

} // verus!
