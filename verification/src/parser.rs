//! The MML parser: a single linear pass that follows the state machine of
//! [`crate::model`], proved step by step.

use vstd::prelude::*;

use crate::clock::{elapsed_ms, instant_now};
use crate::error::MMLError;
use crate::model::{
    cur_model, lemma_run_err_sticky, lemma_run_wf, lemma_spec_lines_len, lemma_vrun_err_sticky,
    spec_apply_image, spec_apply_link, spec_apply_metadata, spec_apply_tag, spec_classify_line,
    spec_lines, spec_parse, spec_run, spec_split2, spec_step, spec_validate, spec_vrun,
    BuilderState,
};
use crate::strutil::{find_char_from, spec_find, trim_str};
use crate::types::{MMLDocument, MMLImage, MMLLink, MMLSection, MMLStats, MMLTag};

verus! {

/// Configuration a parser is constructed with; read-only during parsing.
#[derive(Debug, Clone)]
pub struct ParserOptions {
    /// Ceiling on the number of sections in a document.
    pub max_sections: usize,
    /// Ceiling on the number of metadata entries per scope.
    pub max_metadata: usize,
    /// Strict mode: abort on the first line that fails to split or classify.
    pub validate_strict: bool,
    /// Record the wall-clock duration of each parse.
    pub measure_time: bool,
}

impl Default for ParserOptions {
    /// The documented defaults.
    fn default() -> (r: Self)
        ensures
            r.max_sections == crate::MAX_SECTIONS,
            r.max_metadata == crate::MAX_METADATA,
            r.validate_strict == true,
            r.measure_time == false,
    {
        Self {
            max_sections: crate::MAX_SECTIONS,
            max_metadata: crate::MAX_METADATA,
            validate_strict: true,
            measure_time: false,
        }
    }
}

/// Main MML parser struct.
pub struct MMLParser {
    options: ParserOptions,
}

/// Internal representation of a parsed line.
struct ParsedLine {
    tag: MMLTag,
    content: String,
}

impl MMLParser {
    /// The configuration this parser was constructed with.
    pub closed spec fn spec_options(&self) -> ParserOptions {
        self.options
    }

    /// Create a new parser with default options.
    pub fn new() -> (r: Self)
        ensures
            r.spec_options().max_sections == crate::MAX_SECTIONS,
            r.spec_options().max_metadata == crate::MAX_METADATA,
            r.spec_options().validate_strict == true,
            r.spec_options().measure_time == false,
    {
        Self::with_options(ParserOptions::default())
    }

    /// Create a parser with custom options.
    pub fn with_options(options: ParserOptions) -> (r: Self)
        ensures
            r.spec_options() == options,
    {
        Self { options }
    }

    /// Parse a single non-blank, trimmed line into its tag and content.
    fn parse_line(&self, line: &str, line_num: usize) -> (r: Result<ParsedLine, MMLError>)
        ensures
            match spec_classify_line(line@, line_num as nat) {
                Ok((tag, content)) => r matches Ok(pl) && pl.tag == tag && pl.content@ == content,
                Err(e) => r matches Err(err) && err@ == e,
            },
    {
        proof {
            assert(line@.skip(0) =~= line@);
        }
        let n = line.unicode_len();
        let found = find_char_from(line, 0, ':');
        let mut sep: usize = 0;
        let usable: bool = match found {
            Some(i) => {
                sep = i;
                i > 0
            },
            None => false,
        };
        if !usable {
            return Err(
                MMLError::InvalidSyntax {
                    line: line_num,
                    column: 1,
                    found: line.to_owned(),
                    expected: "TAG:content".to_owned(),
                    suggestion: "Use format 'TAG:content' where TAG is a valid MML tag.".to_owned(),
                },
            );
        }
        let tag_part = line.substring_char(0, sep);
        let content_part = line.substring_char(sep + 1, n);
        proof {
            assert(tag_part@ =~= line@.take(sep as int));
            assert(content_part@ =~= line@.skip(sep + 1));
        }
        let tag_str = trim_str(tag_part);
        let content = trim_str(content_part);
        let tag = MMLTag::from_str(tag_str);
        if tag == MMLTag::Unknown {
            Err(
                MMLError::UnknownTag {
                    tag: tag_str.to_owned(),
                    line: line_num,
                    suggestion: "Use a valid MML tag like T, H, P, M, L, etc.".to_owned(),
                },
            )
        } else {
            Ok(ParsedLine { tag, content: content.to_owned() })
        }
    }
}

impl MMLParser {
    /// Apply an `M` line to the current scope.
    fn parse_metadata(
        &self,
        document: &mut MMLDocument,
        current_section: &Option<usize>,
        content: &str,
    ) -> (r: Result<(), MMLError>)
        requires
            (current_section matches Some(i) ==> (i as int) < old(document)@.sections.len()),
        ensures
            match spec_apply_metadata(
                self.spec_options(),
                old(document)@,
                cur_model(*current_section),
                content@,
            ) {
                Ok(d) => r is Ok && final(document)@ == d,
                Err(e) => (r matches Err(err) && err@ == e) && final(document)@ == old(document)@,
            },
    {
        match split_two(content) {
            None => Err(
                MMLError::MetadataError {
                    key: content.to_owned(),
                    value: "".to_owned(),
                    error: "Invalid format".to_owned(),
                    suggestion: "Use format 'key|value' for metadata.".to_owned(),
                },
            ),
            Some((key, value)) => {
                match *current_section {
                    Some(idx) => {
                        if document.sections[idx].metadata.len() >= self.options.max_metadata {
                            Err(
                                MMLError::LimitExceeded {
                                    limit_type: "section metadata".to_owned(),
                                    current: document.sections[idx].metadata.len(),
                                    maximum: self.options.max_metadata,
                                    suggestion: "Reduce metadata or increase limit.".to_owned(),
                                },
                            )
                        } else {
                            document.sections[idx].metadata.insert(key, value);
                            proof {
                                let m = spec_apply_metadata(
                                    self.spec_options(),
                                    old(document)@,
                                    cur_model(*current_section),
                                    content@,
                                )->Ok_0;
                                assert(final(document)@.sections =~= m.sections);
                            }
                            Ok(())
                        }
                    },
                    None => {
                        if document.metadata.len() >= self.options.max_metadata {
                            Err(
                                MMLError::LimitExceeded {
                                    limit_type: "global metadata".to_owned(),
                                    current: document.metadata.len(),
                                    maximum: self.options.max_metadata,
                                    suggestion: "Reduce metadata or increase limit.".to_owned(),
                                },
                            )
                        } else {
                            document.metadata.insert(key, value);
                            proof {
                                let m = spec_apply_metadata(
                                    self.spec_options(),
                                    old(document)@,
                                    cur_model(*current_section),
                                    content@,
                                )->Ok_0;
                                assert(final(document)@.sections =~= m.sections);
                            }
                            Ok(())
                        }
                    },
                }
            },
        }
    }

    /// Apply an `L` line to the current scope.
    fn parse_link(
        &self,
        document: &mut MMLDocument,
        current_section: &Option<usize>,
        content: &str,
    ) -> (r: Result<(), MMLError>)
        requires
            (current_section matches Some(i) ==> (i as int) < old(document)@.sections.len()),
        ensures
            match spec_apply_link(old(document)@, cur_model(*current_section), content@) {
                Ok(d) => r is Ok && final(document)@ == d,
                Err(e) => (r matches Err(err) && err@ == e) && final(document)@ == old(document)@,
            },
    {
        match split_two(content) {
            None => Err(
                MMLError::LinkError {
                    text: content.to_owned(),
                    url: "".to_owned(),
                    error: "Invalid format".to_owned(),
                    suggestion: "Use format 'text|url' for links.".to_owned(),
                },
            ),
            Some((text, url)) => {
                let link = MMLLink::new(text, url);
                match *current_section {
                    Some(idx) => {
                        document.sections[idx].links.push(link);
                        proof {
                            let m = spec_apply_link(
                                old(document)@,
                                cur_model(*current_section),
                                content@,
                            )->Ok_0;
                            assert(final(document)@.sections[idx as int].links =~= m.sections[
                                idx as int
                            ].links);
                            assert(final(document)@.sections =~= m.sections);
                        }
                        Ok(())
                    },
                    None => {
                        document.links.push(link);
                        proof {
                            let m = spec_apply_link(
                                old(document)@,
                                cur_model(*current_section),
                                content@,
                            )->Ok_0;
                            assert(final(document)@.links =~= m.links);
                            assert(final(document)@.sections =~= m.sections);
                        }
                        Ok(())
                    },
                }
            },
        }
    }

    /// Apply an `IMG` line: append to the current section, falling back to
    /// section 0 (synthesized as `Media` when none exists).
    fn parse_image(
        &self,
        document: &mut MMLDocument,
        current_section: &Option<usize>,
        content: &str,
    ) -> (r: Result<(), MMLError>)
        requires
            (current_section matches Some(i) ==> (i as int) < old(document)@.sections.len()),
        ensures
            match spec_apply_image(old(document)@, cur_model(*current_section), content@) {
                Ok(d) => r is Ok && final(document)@ == d,
                Err(e) => (r matches Err(err) && err@ == e) && final(document)@ == old(document)@,
            },
    {
        match split_two(content) {
            None => Err(
                MMLError::ImageError {
                    description: content.to_owned(),
                    url: "".to_owned(),
                    error: "Invalid format".to_owned(),
                    suggestion: "Use format 'description|url' for images.".to_owned(),
                },
            ),
            Some((description, url)) => {
                let image = MMLImage::new(description, url);
                match *current_section {
                    Some(idx) => {
                        document.sections[idx].images.push(image);
                        proof {
                            let m = spec_apply_image(
                                old(document)@,
                                cur_model(*current_section),
                                content@,
                            )->Ok_0;
                            assert(final(document)@.sections[idx as int].images =~= m.sections[
                                idx as int
                            ].images);
                            assert(final(document)@.sections =~= m.sections);
                        }
                        Ok(())
                    },
                    None => {
                        if document.sections.len() == 0 {
                            document.sections.push(MMLSection::new("Media".to_owned()));
                        }
                        document.sections[0].images.push(image);
                        proof {
                            let m = spec_apply_image(
                                old(document)@,
                                cur_model(*current_section),
                                content@,
                            )->Ok_0;
                            assert(final(document)@.sections[0].images =~= m.sections[0].images);
                            assert(final(document)@.sections =~= m.sections);
                        }
                        Ok(())
                    },
                }
            },
        }
    }

    /// Apply a classified line to the document, mutating the current scope
    /// as the state machine prescribes.
    fn apply_parsed_line(
        &self,
        document: &mut MMLDocument,
        current_section: &mut Option<usize>,
        parsed_line: ParsedLine,
    ) -> (r: Result<(), MMLError>)
        requires
            (*old(current_section) matches Some(i) ==> (i as int) < old(document)@.sections.len()),
        ensures
            match spec_apply_tag(
                self.spec_options(),
                old(document)@,
                cur_model(*old(current_section)),
                parsed_line.tag,
                parsed_line.content@,
            ) {
                Ok(dc) => r is Ok && final(document)@ == dc.0 && cur_model(*final(current_section))
                    == dc.1,
                Err(e) => (r matches Err(err) && err@ == e) && final(document)@ == old(document)@
                    && *final(current_section) == *old(current_section),
            },
    {
        match parsed_line.tag {
            MMLTag::Title => {
                document.title = Some(parsed_line.content);
                Ok(())
            },
            MMLTag::Section => {
                if document.sections.len() >= self.options.max_sections {
                    return Err(
                        MMLError::LimitExceeded {
                            limit_type: "sections".to_owned(),
                            current: document.sections.len(),
                            maximum: self.options.max_sections,
                            suggestion: "Split document into multiple files or increase section limit.".to_owned(),
                        },
                    );
                }
                document.sections.push(MMLSection::new(parsed_line.content));
                *current_section = Some(document.sections.len() - 1);
                proof {
                    let m = spec_apply_tag(
                        self.spec_options(),
                        old(document)@,
                        cur_model(*old(current_section)),
                        MMLTag::Section,
                        parsed_line.content@,
                    )->Ok_0;
                    assert(final(document)@.sections =~= m.0.sections);
                }
                Ok(())
            },
            MMLTag::Paragraph => {
                if let Some(idx) = *current_section {
                    document.sections[idx].content = Some(parsed_line.content);
                    proof {
                        let m = spec_apply_tag(
                            self.spec_options(),
                            old(document)@,
                            cur_model(*old(current_section)),
                            MMLTag::Paragraph,
                            parsed_line.content@,
                        )->Ok_0;
                        assert(final(document)@.sections =~= m.0.sections);
                    }
                }
                Ok(())
            },
            MMLTag::Metadata => {
                self.parse_metadata(document, current_section, parsed_line.content.as_str())
            },
            MMLTag::Link => {
                self.parse_link(document, current_section, parsed_line.content.as_str())
            },
            MMLTag::Image => {
                self.parse_image(document, current_section, parsed_line.content.as_str())
            },
            MMLTag::Code => {
                if let Some(idx) = *current_section {
                    let mut wrapped = "```\n".to_owned();
                    wrapped.append(parsed_line.content.as_str());
                    wrapped.append("\n```");
                    document.sections[idx].content = Some(wrapped);
                    proof {
                        let m = spec_apply_tag(
                            self.spec_options(),
                            old(document)@,
                            cur_model(*old(current_section)),
                            MMLTag::Code,
                            parsed_line.content@,
                        )->Ok_0;
                        assert(final(document)@.sections =~= m.0.sections);
                    }
                }
                Ok(())
            },
            MMLTag::Quote => {
                if let Some(idx) = *current_section {
                    let mut wrapped = "> ".to_owned();
                    wrapped.append(parsed_line.content.as_str());
                    document.sections[idx].content = Some(wrapped);
                    proof {
                        let m = spec_apply_tag(
                            self.spec_options(),
                            old(document)@,
                            cur_model(*old(current_section)),
                            MMLTag::Quote,
                            parsed_line.content@,
                        )->Ok_0;
                        assert(final(document)@.sections =~= m.0.sections);
                    }
                }
                Ok(())
            },
            MMLTag::Config => {
                document.metadata.insert("config".to_owned(), parsed_line.content);
                Ok(())
            },
            MMLTag::Packet => {
                document.metadata.insert("packet".to_owned(), parsed_line.content);
                Ok(())
            },
            MMLTag::Unknown => {
                // rejected during classification; nothing to dispatch
                Ok(())
            },
        }
    }
}

impl MMLParser {
    /// Parse MML text into a document.
    ///
    /// The result is exactly what the state machine of [`crate::model`]
    /// prescribes: on success the returned document equals the model's,
    /// except that the measured duration is present if and only if timing was
    /// requested; on failure the model's error is returned.
    pub fn parse(&self, input: &str) -> (r: Result<MMLDocument, MMLError>)
        ensures
            match spec_parse(self.spec_options(), input@) {
                Ok(dm) => r matches Ok(d) && crate::model::doc_obs(d@) == dm && d@.wf() && (
                d@.stats.parse_time_ms is Some <==> self.spec_options().measure_time),
                Err(em) => r matches Err(e) && e@ == em,
            },
    {
        let ghost opts = self.spec_options();
        let ghost lines = spec_lines(input@);
        proof {
            lemma_spec_lines_len(input@);
        }
        let start_time = if self.options.measure_time {
            Some(instant_now())
        } else {
            None
        };
        let mut document = MMLDocument::default();
        let mut current_section: Option<usize> = None;
        let mut total_lines: usize = 0;
        let mut parsed_lines: usize = 0;
        let mut error_lines: usize = 0;
        let n = input.unicode_len();
        let mut line_start: usize = 0;
        let ghost mut k: int = 0;
        proof {
            assert(input@.skip(0) =~= input@);
        }
        while line_start < n
            invariant
                n == input@.len(),
                line_start <= n,
                0 <= k <= lines.len(),
                lines == spec_lines(input@),
                lines.len() <= n,
                opts == self.spec_options(),
                total_lines as int == k,
                parsed_lines + error_lines <= total_lines,
                lines.skip(k) == spec_lines(input@.skip(line_start as int)),
                spec_run(opts, lines, k) == Ok::<BuilderState, crate::error::ErrorModel>(
                    (BuilderState {
                        doc: document@,
                        cur: cur_model(current_section),
                        total: total_lines as nat,
                        parsed: parsed_lines as nat,
                        errors: error_lines as nat,
                    }),
                ),
            decreases n - line_start,
        {
            let ghost suffix = input@.skip(line_start as int);
            let ghost st_pre = spec_run(opts, lines, k)->Ok_0;
            let j = match find_char_from(input, line_start, '\n') {
                Some(jj) => jj,
                None => n,
            };
            let line = input.substring_char(line_start, j);
            proof {
                if j == n {
                    assert(spec_find(suffix, '\n') is None);
                    assert(line@ =~= suffix);
                    assert(spec_lines(suffix) == seq![suffix]);
                } else {
                    assert(spec_find(suffix, '\n') == Some(j - line_start));
                    assert(line@ =~= suffix.take(j - line_start));
                    assert(spec_lines(suffix) == seq![suffix.take(j - line_start)] + spec_lines(
                        suffix.skip(j - line_start + 1),
                    ));
                }
                assert(spec_lines(suffix).len() >= 1);
                assert(lines.skip(k)[0] == lines[k]);
                assert(lines[k] == line@);
                assert(k < lines.len());
            }
            let trimmed = trim_str(line);
            let line_num = total_lines + 1;
            if trimmed.unicode_len() == 0 {
                total_lines = total_lines + 1;
                proof {
                    k = k + 1;
                }
            } else {
                match self.parse_line(trimmed, line_num) {
                    Ok(pl) => {
                        proof {
                            lemma_run_wf(opts, lines, k);
                        }
                        match self.apply_parsed_line(&mut document, &mut current_section, pl) {
                            Ok(_) => {
                                total_lines = total_lines + 1;
                                parsed_lines = parsed_lines + 1;
                                proof {
                                    k = k + 1;
                                }
                            },
                            Err(e) => {
                                proof {
                                    assert(spec_run(opts, lines, k + 1) == Err::<
                                        BuilderState,
                                        crate::error::ErrorModel,
                                    >(e@));
                                    lemma_run_err_sticky(opts, lines, k + 1, lines.len() as int);
                                }
                                return Err(e);
                            },
                        }
                    },
                    Err(e) => {
                        if self.options.validate_strict {
                            proof {
                                assert(spec_run(opts, lines, k + 1) == Err::<
                                    BuilderState,
                                    crate::error::ErrorModel,
                                >(e@));
                                lemma_run_err_sticky(opts, lines, k + 1, lines.len() as int);
                            }
                            return Err(e);
                        }
                        total_lines = total_lines + 1;
                        error_lines = error_lines + 1;
                        proof {
                            k = k + 1;
                        }
                    },
                }
            }
            let ghost ls = line_start as int;
            if j < n {
                line_start = j + 1;
            } else {
                line_start = n;
            }
            proof {
                assert(lines.skip(k) =~= lines.skip(k - 1).skip(1));
                if j < n {
                    let rest = spec_lines(suffix.skip(j - ls + 1));
                    assert((seq![suffix.take(j - ls)] + rest).skip(1) =~= rest);
                    assert(input@.skip(line_start as int) =~= suffix.skip(j - ls + 1));
                } else {
                    assert(input@.skip(line_start as int) =~= Seq::<char>::empty());
                    assert(spec_lines(input@.skip(line_start as int)) =~= Seq::<
                        Seq<char>,
                    >::empty());
                    assert(lines.skip(k) =~= Seq::<Seq<char>>::empty());
                }
            }
        }
        proof {
            assert(input@.skip(line_start as int) =~= Seq::<char>::empty());
            assert(lines.skip(k) =~= Seq::<Seq<char>>::empty());
            assert(k == lines.len());
            lemma_run_wf(opts, lines, k);
        }
        let parse_time_ms = match start_time {
            Some(st) => Some(elapsed_ms(&st)),
            None => None,
        };
        document.stats = MMLStats { total_lines, parsed_lines, error_lines, parse_time_ms };
        Ok(document)
    }

    /// Validate MML syntax without creating a document: the same line walk,
    /// but only splitting and classifying, with the first failure surfaced.
    pub fn validate(&self, input: &str) -> (r: Result<(), MMLError>)
        ensures
            match spec_validate(input@) {
                Ok(_) => r is Ok,
                Err(em) => r matches Err(e) && e@ == em,
            },
    {
        let ghost lines = spec_lines(input@);
        proof {
            lemma_spec_lines_len(input@);
            assert(input@.skip(0) =~= input@);
        }
        let n = input.unicode_len();
        let mut line_start: usize = 0;
        let mut count: usize = 0;
        let ghost mut k: int = 0;
        while line_start < n
            invariant
                n == input@.len(),
                line_start <= n,
                0 <= k <= lines.len(),
                lines == spec_lines(input@),
                lines.len() <= n,
                count as int == k,
                lines.skip(k) == spec_lines(input@.skip(line_start as int)),
                spec_vrun(lines, k) == Ok::<(), crate::error::ErrorModel>(()),
            decreases n - line_start,
        {
            let ghost suffix = input@.skip(line_start as int);
            let j = match find_char_from(input, line_start, '\n') {
                Some(jj) => jj,
                None => n,
            };
            let line = input.substring_char(line_start, j);
            proof {
                if j == n {
                    assert(line@ =~= suffix);
                    assert(spec_lines(suffix) == seq![suffix]);
                } else {
                    assert(line@ =~= suffix.take(j - line_start));
                    assert(spec_lines(suffix) == seq![suffix.take(j - line_start)] + spec_lines(
                        suffix.skip(j - line_start + 1),
                    ));
                }
                assert(spec_lines(suffix).len() >= 1);
                assert(lines.skip(k)[0] == lines[k]);
                assert(lines[k] == line@);
                assert(k < lines.len());
            }
            let trimmed = trim_str(line);
            let line_num = count + 1;
            if trimmed.unicode_len() != 0 {
                match self.parse_line(trimmed, line_num) {
                    Ok(_) => {},
                    Err(e) => {
                        proof {
                            assert(spec_vrun(lines, k + 1) == Err::<(), crate::error::ErrorModel>(
                                e@,
                            ));
                            lemma_vrun_err_sticky(lines, k + 1, lines.len() as int);
                        }
                        return Err(e);
                    },
                }
            }
            count = count + 1;
            proof {
                k = k + 1;
            }
            let ghost ls = line_start as int;
            if j < n {
                line_start = j + 1;
            } else {
                line_start = n;
            }
            proof {
                assert(lines.skip(k) =~= lines.skip(k - 1).skip(1));
                if j < n {
                    let rest = spec_lines(suffix.skip(j - ls + 1));
                    assert((seq![suffix.take(j - ls)] + rest).skip(1) =~= rest);
                    assert(input@.skip(line_start as int) =~= suffix.skip(j - ls + 1));
                } else {
                    assert(input@.skip(line_start as int) =~= Seq::<char>::empty());
                    assert(spec_lines(input@.skip(line_start as int)) =~= Seq::<
                        Seq<char>,
                    >::empty());
                    assert(lines.skip(k) =~= Seq::<Seq<char>>::empty());
                }
            }
        }
        proof {
            assert(input@.skip(line_start as int) =~= Seq::<char>::empty());
            assert(lines.skip(k) =~= Seq::<Seq<char>>::empty());
            assert(k == lines.len());
        }
        Ok(())
    }
}

/// Split a two-field payload on its single `'|'`, trimming both fields;
/// `None` when the delimiter count is not exactly one.
fn split_two(content: &str) -> (r: Option<(String, String)>)
    ensures
        match spec_split2(content@) {
            None => r is None,
            Some((a, b)) => r matches Some(p) && p.0@ == a && p.1@ == b,
        },
{
    proof {
        assert(content@.skip(0) =~= content@);
    }
    let n = content.unicode_len();
    match find_char_from(content, 0, '|') {
        None => None,
        Some(i) => match find_char_from(content, i + 1, '|') {
            Some(_) => None,
            None => {
                let first_part = content.substring_char(0, i);
                let second_part = content.substring_char(i + 1, n);
                proof {
                    assert(first_part@ =~= content@.take(i as int));
                    assert(second_part@ =~= content@.skip(i + 1));
                }
                let first = trim_str(first_part);
                let second = trim_str(second_part);
                Some((first.to_owned(), second.to_owned()))
            },
        },
    }
}

} // verus!
