//! Mathematical model of the parsing state machine: line splitting, tag
//! classification, field decoding, section-scoped document building, limit
//! enforcement and statistics, as one deterministic specification that the
//! executable parser is proved to follow.

use vstd::prelude::*;

use crate::error::ErrorModel;
use crate::parser::ParserOptions;
use crate::strutil::{lemma_find_props, spec_find, spec_trim};
use crate::types::{
    md_insert, md_unique, DocModel, ImageModel, LinkModel, MMLTag, SectionModel, StatsModel,
    spec_tag_of,
};

verus! {

/// The state grown while a parse walks the input: the document under
/// construction, the current scope, and the line counters.
pub ghost struct BuilderState {
    /// The document built so far; its statistics stay at their initial value
    /// until the walk is over.
    pub doc: DocModel,
    /// Current scope: `None` while at document scope, `Some(i)` once the
    /// section at index `i` is the most recently opened one.
    pub cur: Option<int>,
    /// Lines seen so far, blank lines included.
    pub total: nat,
    /// Lines that were dispatched successfully.
    pub parsed: nat,
    /// Lines that failed to split or classify.
    pub errors: nat,
}

impl BuilderState {
    /// The state a parse starts from.
    pub open spec fn init() -> BuilderState {
        BuilderState { doc: DocModel::init(), cur: None, total: 0, parsed: 0, errors: 0 }
    }

    /// The structural invariant the walk maintains: the current scope is
    /// always the last section, and before any `H` line at most the one
    /// synthesized fallback section exists; all metadata keys stay unique.
    pub open spec fn wf(self) -> bool {
        &&& match self.cur {
            Some(i) => self.doc.sections.len() >= 1 && i == self.doc.sections.len() - 1,
            None => self.doc.sections.len() <= 1,
        }
        &&& self.doc.wf()
    }
}

/// The documented default configuration.
pub open spec fn default_options() -> ParserOptions {
    ParserOptions {
        max_sections: crate::MAX_SECTIONS,
        max_metadata: crate::MAX_METADATA,
        validate_strict: true,
        measure_time: false,
    }
}

/// The scope index as the model sees it.
pub open spec fn cur_model(c: Option<usize>) -> Option<int> {
    match c {
        Some(i) => Some(i as int),
        None => None,
    }
}

/// The input split into lines on `'\n'`, with no trailing empty line when the
/// input ends in a newline (as `str::lines` does).
pub open spec fn spec_lines(s: Seq<char>) -> Seq<Seq<char>>
    decreases s.len(),
    via spec_lines_decreases
{
    if s.len() == 0 {
        Seq::empty()
    } else {
        match spec_find(s, '\n') {
            None => seq![s],
            Some(i) => seq![s.take(i)] + spec_lines(s.skip(i + 1)),
        }
    }
}

#[via_fn]
proof fn spec_lines_decreases(s: Seq<char>) {
    if s.len() > 0 {
        lemma_find_props(s, '\n');
    }
}

/// There are never more lines than characters.
pub proof fn lemma_spec_lines_len(s: Seq<char>)
    ensures
        spec_lines(s).len() <= s.len(),
    decreases s.len(),
{
    if s.len() > 0 {
        lemma_find_props(s, '\n');
        match spec_find(s, '\n') {
            None => {},
            Some(i) => {
                lemma_spec_lines_len(s.skip(i + 1));
            },
        }
    }
}

/// Splitting one line on the first `':'`: the tag token and the content,
/// both trimmed, or the syntax error when no `':'` follows a non-empty tag
/// token. A token classified `Unknown` is rejected here as well.
pub open spec fn spec_classify_line(line: Seq<char>, line_no: nat) -> Result<
    (MMLTag, Seq<char>),
    ErrorModel,
> {
    let bad_syntax = ErrorModel::InvalidSyntax {
        line: line_no,
        column: 1,
        found: line,
        expected: "TAG:content"@,
        suggestion: "Use format 'TAG:content' where TAG is a valid MML tag."@,
    };
    match spec_find(line, ':') {
        None => Err(bad_syntax),
        Some(i) => if i == 0 {
            Err(bad_syntax)
        } else {
            let tag_str = spec_trim(line.take(i));
            let content = spec_trim(line.skip(i + 1));
            let tag = spec_tag_of(tag_str);
            if tag == MMLTag::Unknown {
                Err(
                    ErrorModel::UnknownTag {
                        tag: tag_str,
                        line: line_no,
                        suggestion: "Use a valid MML tag like T, H, P, M, L, etc."@,
                    },
                )
            } else {
                Ok((tag, content))
            }
        },
    }
}

/// Decoding a two-field payload: the content must hold exactly one `'|'`;
/// both fields are trimmed.
pub open spec fn spec_split2(s: Seq<char>) -> Option<(Seq<char>, Seq<char>)> {
    match spec_find(s, '|') {
        None => None,
        Some(i) => match spec_find(s.skip(i + 1), '|') {
            Some(_) => None,
            None => Some((spec_trim(s.take(i)), spec_trim(s.skip(i + 1)))),
        },
    }
}

/// Content of a `C` line as stored: wrapped in a fenced block marker.
pub open spec fn code_wrap(c: Seq<char>) -> Seq<char> {
    "```\n"@ + c + "\n```"@
}

/// Content of a `Q` line as stored: prefixed with a block-quote marker.
pub open spec fn quote_wrap(c: Seq<char>) -> Seq<char> {
    "> "@ + c
}

/// `doc` with the section at `i` replaced.
pub open spec fn upd_section(doc: DocModel, i: int, s: SectionModel) -> DocModel {
    DocModel { sections: doc.sections.update(i, s), ..doc }
}

/// Applying an `M` line: decode `key|value`, enforce the metadata ceiling of
/// the current scope, then insert.
pub open spec fn spec_apply_metadata(
    opts: ParserOptions,
    doc: DocModel,
    cur: Option<int>,
    content: Seq<char>,
) -> Result<DocModel, ErrorModel> {
    match spec_split2(content) {
        None => Err(
            ErrorModel::MetadataError {
                key: content,
                value: ""@,
                error: "Invalid format"@,
                suggestion: "Use format 'key|value' for metadata."@,
            },
        ),
        Some((key, value)) => match cur {
            Some(i) => if doc.sections[i].metadata.len() >= opts.max_metadata {
                Err(
                    ErrorModel::LimitExceeded {
                        limit_type: "section metadata"@,
                        current: doc.sections[i].metadata.len(),
                        maximum: opts.max_metadata as nat,
                        suggestion: "Reduce metadata or increase limit."@,
                    },
                )
            } else {
                Ok(
                    upd_section(
                        doc,
                        i,
                        SectionModel {
                            metadata: md_insert(doc.sections[i].metadata, key, value),
                            ..doc.sections[i]
                        },
                    ),
                )
            },
            None => if doc.metadata.len() >= opts.max_metadata {
                Err(
                    ErrorModel::LimitExceeded {
                        limit_type: "global metadata"@,
                        current: doc.metadata.len(),
                        maximum: opts.max_metadata as nat,
                        suggestion: "Reduce metadata or increase limit."@,
                    },
                )
            } else {
                Ok(DocModel { metadata: md_insert(doc.metadata, key, value), ..doc })
            },
        },
    }
}

/// Applying an `L` line: decode `text|url` and append the link to the
/// current scope.
pub open spec fn spec_apply_link(
    doc: DocModel,
    cur: Option<int>,
    content: Seq<char>,
) -> Result<DocModel, ErrorModel> {
    match spec_split2(content) {
        None => Err(
            ErrorModel::LinkError {
                text: content,
                url: ""@,
                error: "Invalid format"@,
                suggestion: "Use format 'text|url' for links."@,
            },
        ),
        Some((text, url)) => {
            let link = LinkModel { text: text, url: url };
            match cur {
                Some(i) => Ok(
                    upd_section(
                        doc,
                        i,
                        SectionModel { links: doc.sections[i].links.push(link), ..doc.sections[i] },
                    ),
                ),
                None => Ok(DocModel { links: doc.links.push(link), ..doc }),
            }
        },
    }
}

/// Applying an `IMG` line: decode `description|url` and append the image to
/// the current section; with no section open the image lands in section 0,
/// synthesized with the title `Media` when no section exists at all.
pub open spec fn spec_apply_image(
    doc: DocModel,
    cur: Option<int>,
    content: Seq<char>,
) -> Result<DocModel, ErrorModel> {
    match spec_split2(content) {
        None => Err(
            ErrorModel::ImageError {
                description: content,
                url: ""@,
                error: "Invalid format"@,
                suggestion: "Use format 'description|url' for images."@,
            },
        ),
        Some((description, url)) => {
            let image = ImageModel { description: description, url: url };
            match cur {
                Some(i) => Ok(
                    upd_section(
                        doc,
                        i,
                        SectionModel {
                            images: doc.sections[i].images.push(image),
                            ..doc.sections[i]
                        },
                    ),
                ),
                None => {
                    let doc2 = if doc.sections.len() == 0 {
                        DocModel {
                            sections: doc.sections.push(SectionModel::init("Media"@)),
                            ..doc
                        }
                    } else {
                        doc
                    };
                    Ok(
                        upd_section(
                            doc2,
                            0,
                            SectionModel {
                                images: doc2.sections[0].images.push(image),
                                ..doc2.sections[0]
                            },
                        ),
                    )
                },
            }
        },
    }
}

/// One transition of the document builder: how a classified line mutates the
/// document and the current scope.
pub open spec fn spec_apply_tag(
    opts: ParserOptions,
    doc: DocModel,
    cur: Option<int>,
    tag: MMLTag,
    content: Seq<char>,
) -> Result<(DocModel, Option<int>), ErrorModel> {
    match tag {
        MMLTag::Title => Ok((DocModel { title: Some(content), ..doc }, cur)),
        MMLTag::Section => if doc.sections.len() >= opts.max_sections {
            Err(
                ErrorModel::LimitExceeded {
                    limit_type: "sections"@,
                    current: doc.sections.len(),
                    maximum: opts.max_sections as nat,
                    suggestion: "Split document into multiple files or increase section limit."@,
                },
            )
        } else {
            Ok(
                (
                    DocModel { sections: doc.sections.push(SectionModel::init(content)), ..doc },
                    Some(doc.sections.len() as int),
                ),
            )
        },
        MMLTag::Paragraph => match cur {
            Some(i) => Ok(
                (
                    upd_section(
                        doc,
                        i,
                        SectionModel { content: Some(content), ..doc.sections[i] },
                    ),
                    cur,
                ),
            ),
            None => Ok((doc, cur)),
        },
        MMLTag::Code => match cur {
            Some(i) => Ok(
                (
                    upd_section(
                        doc,
                        i,
                        SectionModel { content: Some(code_wrap(content)), ..doc.sections[i] },
                    ),
                    cur,
                ),
            ),
            None => Ok((doc, cur)),
        },
        MMLTag::Quote => match cur {
            Some(i) => Ok(
                (
                    upd_section(
                        doc,
                        i,
                        SectionModel { content: Some(quote_wrap(content)), ..doc.sections[i] },
                    ),
                    cur,
                ),
            ),
            None => Ok((doc, cur)),
        },
        MMLTag::Metadata => match spec_apply_metadata(opts, doc, cur, content) {
            Ok(d) => Ok((d, cur)),
            Err(e) => Err(e),
        },
        MMLTag::Link => match spec_apply_link(doc, cur, content) {
            Ok(d) => Ok((d, cur)),
            Err(e) => Err(e),
        },
        MMLTag::Image => match spec_apply_image(doc, cur, content) {
            Ok(d) => Ok((d, cur)),
            Err(e) => Err(e),
        },
        MMLTag::Config => Ok(
            (DocModel { metadata: md_insert(doc.metadata, "config"@, content), ..doc }, cur),
        ),
        MMLTag::Packet => Ok(
            (DocModel { metadata: md_insert(doc.metadata, "packet"@, content), ..doc }, cur),
        ),
        MMLTag::Unknown => Ok((doc, cur)),  // rejected by classification, never dispatched
    }
}

/// One line of the walk: blank lines only count; splitter/classifier
/// failures abort in strict mode and are counted in lenient mode; builder
/// failures always abort.
pub open spec fn spec_step(
    opts: ParserOptions,
    st: BuilderState,
    line: Seq<char>,
    line_no: nat,
) -> Result<BuilderState, ErrorModel> {
    let trimmed = spec_trim(line);
    if trimmed.len() == 0 {
        Ok(BuilderState { total: st.total + 1, ..st })
    } else {
        match spec_classify_line(trimmed, line_no) {
            Err(e) => if opts.validate_strict {
                Err(e)
            } else {
                Ok(BuilderState { total: st.total + 1, errors: st.errors + 1, ..st })
            },
            Ok((tag, content)) => match spec_apply_tag(opts, st.doc, st.cur, tag, content) {
                Err(e) => Err(e),
                Ok((doc, cur)) => Ok(
                    BuilderState {
                        doc: doc,
                        cur: cur,
                        total: st.total + 1,
                        parsed: st.parsed + 1,
                        errors: st.errors,
                    },
                ),
            },
        }
    }
}

/// The state after the first `n` lines, or the error that aborted the walk.
/// Line `k` (0-based) is reported as line number `k + 1`.
pub open spec fn spec_run(opts: ParserOptions, lines: Seq<Seq<char>>, n: int) -> Result<
    BuilderState,
    ErrorModel,
> decreases n {
    if n <= 0 {
        Ok(BuilderState::init())
    } else {
        match spec_run(opts, lines, n - 1) {
            Err(e) => Err(e),
            Ok(st) => spec_step(opts, st, lines[n - 1], n as nat),
        }
    }
}

/// Once the walk has aborted, it stays aborted with the same error.
pub proof fn lemma_run_err_sticky(opts: ParserOptions, lines: Seq<Seq<char>>, k: int, m: int)
    requires
        0 <= k <= m,
        spec_run(opts, lines, k) is Err,
    ensures
        spec_run(opts, lines, m) == spec_run(opts, lines, k),
    decreases m - k,
{
    if m > k {
        lemma_run_err_sticky(opts, lines, k, m - 1);
    }
}

/// One step preserves the builder's structural invariant.
pub proof fn lemma_step_wf(opts: ParserOptions, st: BuilderState, line: Seq<char>, line_no: nat)
    requires
        st.wf(),
        spec_step(opts, st, line, line_no) is Ok,
    ensures
        spec_step(opts, st, line, line_no)->Ok_0.wf(),
{
    let trimmed = spec_trim(line);
    if trimmed.len() != 0 {
        match spec_classify_line(trimmed, line_no) {
            Err(_) => {},
            Ok((tag, content)) => {
                lemma_apply_tag_wf(opts, st.doc, st.cur, tag, content);
            },
        }
    }
}

/// One builder transition preserves the structural invariant.
pub proof fn lemma_apply_tag_wf(
    opts: ParserOptions,
    doc: DocModel,
    cur: Option<int>,
    tag: MMLTag,
    content: Seq<char>,
)
    requires
        (BuilderState { doc, cur, total: 0, parsed: 0, errors: 0 }).wf(),
        (spec_apply_tag(opts, doc, cur, tag, content) is Ok),
    ensures
        ({
            let (d, c) = spec_apply_tag(opts, doc, cur, tag, content)->Ok_0;
            (BuilderState { doc: d, cur: c, total: 0, parsed: 0, errors: 0 }).wf()
        }),
{
    match tag {
        MMLTag::Metadata => {
            match spec_split2(content) {
                None => {},
                Some((key, value)) => match cur {
                    Some(i) => {
                        crate::types::lemma_md_insert_unique(doc.sections[i].metadata, key, value);
                    },
                    None => {
                        crate::types::lemma_md_insert_unique(doc.metadata, key, value);
                    },
                },
            }
        },
        MMLTag::Config => {
            crate::types::lemma_md_insert_unique(doc.metadata, "config"@, content);
        },
        MMLTag::Packet => {
            crate::types::lemma_md_insert_unique(doc.metadata, "packet"@, content);
        },
        _ => {},
    }
}

/// Every reachable builder state satisfies the structural invariant.
pub proof fn lemma_run_wf(opts: ParserOptions, lines: Seq<Seq<char>>, n: int)
    requires
        spec_run(opts, lines, n) is Ok,
    ensures
        spec_run(opts, lines, n)->Ok_0.wf(),
    decreases n,
{
    if n > 0 {
        match spec_run(opts, lines, n - 1) {
            Err(_) => {},
            Ok(st) => {
                lemma_run_wf(opts, lines, n - 1);
                lemma_step_wf(opts, st, lines[n - 1], n as nat);
            },
        }
    }
}

/// The final statistics written into a completed document (time left unset:
/// the model does not speak of the clock).
pub open spec fn finish_doc(st: BuilderState) -> DocModel {
    DocModel {
        stats: StatsModel {
            total_lines: st.total,
            parsed_lines: st.parsed,
            error_lines: st.errors,
            parse_time_ms: None,
        },
        ..st.doc
    }
}

/// A document as observed modulo timing: the one field the model does not
/// determine, the measured duration, set aside.
pub open spec fn doc_obs(d: DocModel) -> DocModel {
    DocModel { stats: StatsModel { parse_time_ms: None, ..d.stats }, ..d }
}

/// The whole parse: walk every line, then record the statistics.
pub open spec fn spec_parse(opts: ParserOptions, input: Seq<char>) -> Result<
    DocModel,
    ErrorModel,
> {
    let lines = spec_lines(input);
    match spec_run(opts, lines, lines.len() as int) {
        Err(e) => Err(e),
        Ok(st) => Ok(finish_doc(st)),
    }
}

/// Validation of the first `n` lines: the same walk as `spec_run` but only
/// splitting and classifying, with every failure surfaced.
pub open spec fn spec_vrun(lines: Seq<Seq<char>>, n: int) -> Result<(), ErrorModel>
    decreases n,
{
    if n <= 0 {
        Ok(())
    } else {
        match spec_vrun(lines, n - 1) {
            Err(e) => Err(e),
            Ok(_) => {
                let trimmed = spec_trim(lines[n - 1]);
                if trimmed.len() == 0 {
                    Ok(())
                } else {
                    match spec_classify_line(trimmed, n as nat) {
                        Err(e) => Err(e),
                        Ok(_) => Ok(()),
                    }
                }
            },
        }
    }
}

/// Once validation has failed, it stays failed with the same error.
pub proof fn lemma_vrun_err_sticky(lines: Seq<Seq<char>>, k: int, m: int)
    requires
        0 <= k <= m,
        spec_vrun(lines, k) is Err,
    ensures
        spec_vrun(lines, m) == spec_vrun(lines, k),
    decreases m - k,
{
    if m > k {
        lemma_vrun_err_sticky(lines, k, m - 1);
    }
}

/// The whole validation: syntactic well-formedness of every line, without
/// building a document.
pub open spec fn spec_validate(input: Seq<char>) -> Result<(), ErrorModel> {
    let lines = spec_lines(input);
    spec_vrun(lines, lines.len() as int)
}

} // verus!
