//! Library-wide laws: statements that relate several functions of the parser,
//! each proved from the contracts in [`crate::model`].

use vstd::prelude::*;

use crate::error::ErrorModel;
use crate::model::{
    doc_obs, spec_apply_tag, spec_classify_line, spec_lines, spec_parse, spec_run, spec_split2,
    BuilderState,
};
use crate::parser::ParserOptions;
use crate::render::{md_text_upto, sections_text_upto, spec_render};
use crate::strutil::{
    lemma_find_scan, lemma_trim_back_scan, lemma_trim_front_scan, lemma_trim_id_ends, spec_find,
    spec_trim, ws_char,
};
use crate::types::{DocModel, LinkModel, MMLTag, SectionModel};

verus! {

/// A line that the walk skips: nothing but whitespace.
pub open spec fn line_blank(l: Seq<char>) -> bool {
    spec_trim(l).len() == 0
}

/// How many of the first `n` lines are blank.
pub open spec fn blank_count(lines: Seq<Seq<char>>, n: int) -> nat
    decreases n,
{
    if n <= 0 {
        0
    } else {
        blank_count(lines, n - 1) + if line_blank(lines[n - 1]) {
            1nat
        } else {
            0nat
        }
    }
}

/// Input whose every non-blank line splits and classifies successfully.
pub open spec fn lines_well_formed(lines: Seq<Seq<char>>) -> bool {
    forall|i: int|
        0 <= i < lines.len() ==> (!line_blank(#[trigger] lines[i]) ==> spec_classify_line(
            spec_trim(lines[i]),
            (i + 1) as nat,
        ) is Ok)
}

/// The counters of every state the walk reaches add up: each of the first
/// `n` lines was counted exactly once, as parsed, as an error, or as blank.
pub proof fn lemma_run_counters(opts: ParserOptions, lines: Seq<Seq<char>>, n: int)
    requires
        n >= 0,
        (spec_run(opts, lines, n) is Ok),
    ensures
        ({
            let st = spec_run(opts, lines, n)->Ok_0;
            st.total == n && st.parsed + st.errors + blank_count(lines, n) == n
        }),
    decreases n,
{
    if n > 0 {
        lemma_run_counters(opts, lines, n - 1);
    }
}

/// On well-formed input no line is ever counted as an error.
pub proof fn lemma_run_no_errors(opts: ParserOptions, lines: Seq<Seq<char>>, n: int)
    requires
        n >= 0,
        n <= lines.len(),
        lines_well_formed(lines),
        (spec_run(opts, lines, n) is Ok),
    ensures
        spec_run(opts, lines, n)->Ok_0.errors == 0,
    decreases n,
{
    if n > 0 {
        lemma_run_no_errors(opts, lines, n - 1);
    }
}

/// Statistics accounting: a parse that returns a document counted every
/// line of the input exactly once — parsed, error, or blank — and on
/// well-formed input (every non-blank line splits and classifies) it counted
/// no errors at all.
pub proof fn lemma_statistics_accounting(opts: ParserOptions, input: Seq<char>, dm: DocModel)
    requires
        spec_parse(opts, input) == Ok::<DocModel, ErrorModel>(dm),
    ensures
        dm.stats.total_lines == spec_lines(input).len(),
        dm.stats.parsed_lines + dm.stats.error_lines + blank_count(
            spec_lines(input),
            spec_lines(input).len() as int,
        ) == dm.stats.total_lines,
        lines_well_formed(spec_lines(input)) ==> dm.stats.error_lines == 0,
{
    let lines = spec_lines(input);
    lemma_run_counters(opts, lines, lines.len() as int);
    if lines_well_formed(lines) {
        lemma_run_no_errors(opts, lines, lines.len() as int);
    }
}

/// Idempotence: two parses of the same input under the same options return
/// documents that agree on everything but the measured duration. The
/// contract of `MMLParser::parse` hands each caller `doc_obs(d@) ==
/// spec_parse(..)->Ok_0`, so two returned documents share one observation.
pub proof fn lemma_parse_idempotent(
    opts: ParserOptions,
    input: Seq<char>,
    v1: DocModel,
    v2: DocModel,
)
    requires
        spec_parse(opts, input) == Ok::<DocModel, ErrorModel>(doc_obs(v1)),
        spec_parse(opts, input) == Ok::<DocModel, ErrorModel>(doc_obs(v2)),
    ensures
        doc_obs(v1) == doc_obs(v2),
{
}

/// The section count of every reachable state stays at or under the ceiling
/// (provided the ceiling admits the one synthesized fallback section).
pub proof fn lemma_run_sections_bound(opts: ParserOptions, lines: Seq<Seq<char>>, n: int)
    requires
        opts.max_sections >= 1,
        (spec_run(opts, lines, n) is Ok),
    ensures
        spec_run(opts, lines, n)->Ok_0.doc.sections.len() <= opts.max_sections,
    decreases n,
{
    if n > 0 {
        lemma_run_sections_bound(opts, lines, n - 1);
        match spec_run(opts, lines, n - 1) {
            Err(_) => {},
            Ok(st) => {
                crate::model::lemma_run_wf(opts, lines, n - 1);
                let trimmed = spec_trim(lines[n - 1]);
                if trimmed.len() != 0 {
                    match spec_classify_line(trimmed, n as nat) {
                        Err(_) => {},
                        Ok((tag, content)) => {
                            lemma_apply_sections_bound(opts, st.doc, st.cur, tag, content);
                        },
                    }
                }
            },
        }
    }
}

/// One builder transition keeps the section count at or under the ceiling.
proof fn lemma_apply_sections_bound(
    opts: ParserOptions,
    doc: DocModel,
    cur: Option<int>,
    tag: MMLTag,
    content: Seq<char>,
)
    requires
        opts.max_sections >= 1,
        doc.sections.len() <= opts.max_sections,
        (cur matches Some(i) ==> 0 <= i < doc.sections.len()),
        (spec_apply_tag(opts, doc, cur, tag, content) is Ok),
    ensures
        spec_apply_tag(opts, doc, cur, tag, content)->Ok_0.0.sections.len() <= opts.max_sections,
{
    match tag {
        MMLTag::Image => {
            let r = crate::model::spec_apply_image(doc, cur, content);
            match spec_split2(content) {
                None => {},
                Some(p) => {
                    let image = crate::types::ImageModel { description: p.0, url: p.1 };
                    match cur {
                        Some(i) => {
                            assert(r == Ok::<DocModel, ErrorModel>(
                                crate::model::upd_section(
                                    doc,
                                    i,
                                    (crate::types::SectionModel {
                                        images: doc.sections[i].images.push(image),
                                        ..doc.sections[i]
                                    }),
                                ),
                            ));
                            assert(r->Ok_0.sections.len() == doc.sections.len());
                        },
                        None => {
                            if doc.sections.len() == 0 {
                                assert(r->Ok_0.sections.len() == 1);
                            } else {
                                assert(r->Ok_0.sections.len() == doc.sections.len());
                            }
                        },
                    }
                    assert(spec_apply_tag(opts, doc, cur, tag, content)->Ok_0.0 == r->Ok_0);
                },
            }
        },
        _ => {},
    }
}

/// Section limit: in every state a parse can reach, once the section count
/// has hit the ceiling, the next `H` line fails with `LimitExceeded` carrying
/// `limit_type = "sections"` and `current == maximum == max_sections` — and
/// by `lemma_run_err_sticky` no later line is processed at all.
pub proof fn lemma_section_limit(
    opts: ParserOptions,
    lines: Seq<Seq<char>>,
    n: int,
    content: Seq<char>,
)
    requires
        opts.max_sections >= 1,
        (spec_run(opts, lines, n) is Ok),
        (spec_run(opts, lines, n)->Ok_0.doc.sections.len() >= opts.max_sections),
    ensures
        ({
            let st = spec_run(opts, lines, n)->Ok_0;
            spec_apply_tag(opts, st.doc, st.cur, MMLTag::Section, content) == Err::<
                (DocModel, Option<int>),
                ErrorModel,
            >(
                ErrorModel::LimitExceeded {
                    limit_type: "sections"@,
                    current: opts.max_sections as nat,
                    maximum: opts.max_sections as nat,
                    suggestion: "Split document into multiple files or increase section limit."@,
                },
            )
        }),
{
    lemma_run_sections_bound(opts, lines, n);
}

/// Round trip at the simplest document shape: a document holding only a
/// title (already trimmed, non-empty, free of newlines) renders to one `T`
/// line, and re-parsing that text restores the same title and the same
/// (empty) metadata, sections and links. The round trip over the full
/// grammar is exercised by the test suite.
pub proof fn lemma_round_trip_title_only(opts: ParserOptions, d: DocModel, t: Seq<char>)
    requires
        d.title == Some(t),
        spec_trim(t) == t,
        t.len() > 0,
        forall|i: int| 0 <= i < t.len() ==> t[i] != '\n',
        d.metadata == Seq::<(Seq<char>, Seq<char>)>::empty(),
        d.sections == Seq::<SectionModel>::empty(),
    ensures
        ({
            let r = spec_parse(opts, spec_render(d));
            r is Ok && r->Ok_0.title == d.title && r->Ok_0.metadata == d.metadata && r->Ok_0.sections
                == d.sections && r->Ok_0.links == Seq::<LinkModel>::empty()
        }),
{
    reveal_strlit("T:");
    reveal_strlit("\n");
    let text = spec_render(d);
    assert(text =~= "T:"@ + t + "\n"@);
    let n = text.len() as int;
    assert(n == t.len() + 3);
    assert(text[0] == 'T');
    assert(text[1] == ':');
    assert(text[n - 1] == '\n');
    assert(forall|i: int| 2 <= i < n - 1 ==> text[i] == t[i - 2]);

    // the rendered text is a single line
    assert(forall|i: int| 0 <= i < n - 1 ==> text[i] != '\n');
    lemma_find_scan(text, '\n', n - 1);
    assert(spec_find(text, '\n') == Some(n - 1));
    let line = text.take(n - 1);
    assert(text.skip(n) =~= Seq::<char>::empty());
    assert(spec_lines(text.skip(n)) =~= Seq::<Seq<char>>::empty());
    assert(spec_lines(text) == seq![line] + spec_lines(text.skip(n)));
    assert(spec_lines(text) =~= seq![line]);

    // the line carries no surrounding whitespace
    lemma_trim_id_ends(t);
    assert(line[0] == 'T');
    assert(line[line.len() - 1] == t[t.len() - 1]);
    assert(!ws_char(line[0]));
    assert(!ws_char(line[line.len() - 1]));
    lemma_trim_front_scan(line, 0);
    assert(line.skip(0) =~= line);
    lemma_trim_back_scan(line, line.len() as int);
    assert(line.take(line.len() as int) =~= line);
    assert(spec_trim(line) == line);

    // classification: the first ':' sits right after the tag token `T`
    lemma_find_scan(line, ':', 1);
    assert(spec_find(line, ':') == Some(1int));
    let tag_part = line.take(1);
    assert(tag_part =~= seq!['T']);
    assert(spec_trim(tag_part) == tag_part);
    assert(crate::types::spec_tag_of(spec_trim(tag_part)) == MMLTag::Title);
    assert(line.skip(2) =~= t);
    assert(spec_classify_line(line, 1) == Ok::<(MMLTag, Seq<char>), ErrorModel>((
        MMLTag::Title,
        t,
    )));

    // one builder step from the initial state sets the title and no more
    let lines = spec_lines(text);
    assert(lines == seq![line]);
    assert(lines[0] == line);
    assert(spec_run(opts, lines, 0) == Ok::<BuilderState, ErrorModel>(BuilderState::init()));
    assert(spec_run(opts, lines, 1) is Ok);
    let st = spec_run(opts, lines, 1)->Ok_0;
    assert(st.doc.title == Some(t));
    assert(st.doc.metadata =~= Seq::<(Seq<char>, Seq<char>)>::empty());
    assert(st.doc.sections =~= Seq::<SectionModel>::empty());
    assert(st.doc.links =~= Seq::<LinkModel>::empty());
}

/// Round trip at the metadata document shape: a document holding one global
/// metadata pair and nothing else (both fields clean: trimmed, free of
/// newlines and of the field delimiter) renders to one `M` line, and
/// re-parsing that text restores the same pair into the same scope.
pub proof fn lemma_round_trip_single_metadata(
    opts: ParserOptions,
    d: DocModel,
    k: Seq<char>,
    v: Seq<char>,
)
    requires
        opts.max_metadata >= 1,
        d.title is None,
        d.metadata == seq![(k, v)],
        d.sections == Seq::<SectionModel>::empty(),
        spec_trim(k) == k,
        spec_trim(v) == v,
        forall|i: int| 0 <= i < k.len() ==> k[i] != '\n' && k[i] != '|',
        forall|i: int| 0 <= i < v.len() ==> v[i] != '\n' && v[i] != '|',
    ensures
        ({
            let r = spec_parse(opts, spec_render(d));
            r is Ok && r->Ok_0.title == d.title && r->Ok_0.metadata == d.metadata && r->Ok_0.sections
                == d.sections && r->Ok_0.links == Seq::<LinkModel>::empty()
        }),
{
    reveal_strlit("M:");
    reveal_strlit("M");
    reveal_strlit(":");
    reveal_strlit("|");
    reveal_strlit("\n");
    let content = k + "|"@ + v;

    // the joined payload is itself trimmed
    if k.len() > 0 {
        lemma_trim_id_ends(k);
        assert(content[0] == k[0]);
    } else {
        assert(content[0] == '|');
    }
    if v.len() > 0 {
        lemma_trim_id_ends(v);
        assert(content[content.len() - 1] == v[v.len() - 1]);
    } else {
        assert(content[content.len() - 1] == '|');
    }
    assert(!ws_char(content[0]));
    assert(!ws_char(content[content.len() - 1]));
    lemma_trim_front_scan(content, 0);
    assert(content.skip(0) =~= content);
    lemma_trim_back_scan(content, content.len() as int);
    assert(content.take(content.len() as int) =~= content);
    assert(spec_trim(content) == content);

    // the rendered text is that payload on one `M` line
    let text = spec_render(d);
    assert(md_text_upto(d.metadata, 0) == Seq::<char>::empty());
    assert(text =~= "M:"@ + k + "|"@ + v + "\n"@);
    let n = text.len() as int;
    assert(forall|i: int| 0 <= i < n - 1 ==> text[i] != '\n');
    assert(text[n - 1] == '\n');
    lemma_find_scan(text, '\n', n - 1);
    assert(spec_find(text, '\n') == Some(n - 1));
    let line = text.take(n - 1);
    assert(text.skip(n) =~= Seq::<char>::empty());
    assert(spec_lines(text.skip(n)) =~= Seq::<Seq<char>>::empty());
    assert(spec_lines(text) == seq![line] + spec_lines(text.skip(n)));
    assert(spec_lines(text) =~= seq![line]);

    // the line splits and classifies back to (Metadata, payload)
    lemma_line_encode_classify(MMLTag::Metadata, content, 1);
    assert(line =~= crate::types::spec_tag_str(MMLTag::Metadata) + ":"@ + content);
    assert(spec_classify_line(line, 1) == Ok::<(MMLTag, Seq<char>), ErrorModel>((
        MMLTag::Metadata,
        content,
    )));
    assert(spec_trim(line) == line);

    // one builder step inserts the pair into the (empty) global scope
    lemma_field_encode_decode(k, v);
    assert(spec_split2(content) == Some((k, v)));
    let lines = spec_lines(text);
    assert(lines == seq![line]);
    assert(lines[0] == line);
    assert(spec_run(opts, lines, 0) == Ok::<BuilderState, ErrorModel>(BuilderState::init()));
    assert(crate::types::md_find(Seq::<(Seq<char>, Seq<char>)>::empty(), k) is None);
    assert(spec_run(opts, lines, 1) is Ok);
    let st = spec_run(opts, lines, 1)->Ok_0;
    assert(st.doc.metadata =~= seq![(k, v)]);
    assert(st.doc.title is None);
    assert(st.doc.sections =~= Seq::<SectionModel>::empty());
    assert(st.doc.links =~= Seq::<LinkModel>::empty());
}

/// The field decoder inverts the field encoding: joining two clean fields
/// (each trimmed and free of the delimiter) with `'|'` and decoding yields
/// the fields back.
pub proof fn lemma_field_encode_decode(k: Seq<char>, v: Seq<char>)
    requires
        spec_trim(k) == k,
        spec_trim(v) == v,
        forall|i: int| 0 <= i < k.len() ==> k[i] != '|',
        forall|i: int| 0 <= i < v.len() ==> v[i] != '|',
    ensures
        spec_split2(k + "|"@ + v) == Some((k, v)),
{
    reveal_strlit("|");
    let s = k + "|"@ + v;
    assert(s.len() == k.len() + 1 + v.len());
    assert(forall|i: int| 0 <= i < k.len() ==> s[i] == k[i]);
    assert(s[k.len() as int] == '|');
    lemma_find_scan(s, '|', k.len() as int);
    assert(spec_find(s, '|') == Some(k.len() as int));
    assert(s.skip(k.len() as int + 1) =~= v);
    lemma_find_scan(v, '|', v.len() as int);
    assert(spec_find(v, '|') is None);
    assert(s.take(k.len() as int) =~= k);
}

/// Classification inverts the canonical token: every tag kind but the
/// sentinel is recovered from its own token.
pub proof fn lemma_tag_round_trip(tag: MMLTag)
    requires
        tag != MMLTag::Unknown,
    ensures
        crate::types::spec_tag_of(crate::types::spec_tag_str(tag)) == tag,
{
    reveal_strlit("T");
    reveal_strlit("H");
    reveal_strlit("P");
    reveal_strlit("M");
    reveal_strlit("L");
    reveal_strlit("IMG");
    reveal_strlit("C");
    reveal_strlit("Q");
    reveal_strlit("CFG");
    reveal_strlit("PKT");
}

/// The line splitter and classifier invert the line encoding: for every tag
/// kind but the sentinel, the line `token ':' content` (content clean:
/// trimmed and free of newlines — a newline would split the line) is itself
/// trimmed, and splits and classifies back to exactly that tag and content.
pub proof fn lemma_line_encode_classify(tag: MMLTag, c: Seq<char>, line_no: nat)
    requires
        tag != MMLTag::Unknown,
        spec_trim(c) == c,
    ensures
        ({
            let line = crate::types::spec_tag_str(tag) + ":"@ + c;
            spec_trim(line) == line && spec_classify_line(line, line_no) == Ok::<
                (MMLTag, Seq<char>),
                ErrorModel,
            >((tag, c))
        }),
{
    reveal_strlit(":");
    reveal_strlit("T");
    reveal_strlit("H");
    reveal_strlit("P");
    reveal_strlit("M");
    reveal_strlit("L");
    reveal_strlit("IMG");
    reveal_strlit("C");
    reveal_strlit("Q");
    reveal_strlit("CFG");
    reveal_strlit("PKT");
    lemma_tag_round_trip(tag);
    let tok = crate::types::spec_tag_str(tag);
    let tl = tok.len() as int;
    let line = tok + ":"@ + c;
    match tag {
        MMLTag::Title => {
            assert(tok[0] == 'T');
        },
        MMLTag::Section => {
            assert(tok[0] == 'H');
        },
        MMLTag::Paragraph => {
            assert(tok[0] == 'P');
        },
        MMLTag::Metadata => {
            assert(tok[0] == 'M');
        },
        MMLTag::Link => {
            assert(tok[0] == 'L');
        },
        MMLTag::Image => {
            assert(tok[0] == 'I' && tok[1] == 'M' && tok[2] == 'G');
        },
        MMLTag::Code => {
            assert(tok[0] == 'C');
        },
        MMLTag::Quote => {
            assert(tok[0] == 'Q');
        },
        MMLTag::Config => {
            assert(tok[0] == 'C' && tok[1] == 'F' && tok[2] == 'G');
        },
        MMLTag::Packet => {
            assert(tok[0] == 'P' && tok[1] == 'K' && tok[2] == 'T');
        },
        MMLTag::Unknown => {},
    }
    assert(tl == 1 || tl == 3);
    assert(forall|j: int| 0 <= j < tl ==> tok[j] != ':' && !ws_char(tok[j]));
    assert(forall|j: int| 0 <= j < tl ==> line[j] == tok[j]);
    assert(line[tl] == ':');

    // the whole line is already trimmed: it starts with the token and ends
    // with the trimmed content (or with the ':' when the content is empty)
    assert(!ws_char(line[0]));
    if c.len() > 0 {
        lemma_trim_id_ends(c);
        assert(line[line.len() - 1] == c[c.len() - 1]);
    } else {
        assert(line[line.len() - 1] == ':');
    }
    lemma_trim_front_scan(line, 0);
    assert(line.skip(0) =~= line);
    lemma_trim_back_scan(line, line.len() as int);
    assert(line.take(line.len() as int) =~= line);
    assert(spec_trim(line) == line);

    // the first ':' of the line sits right after the token
    lemma_find_scan(line, ':', tl);
    assert(spec_find(line, ':') == Some(tl));

    // the token and the content come back out, trimmed to themselves
    assert(line.take(tl) =~= tok);
    lemma_trim_front_scan(tok, 0);
    assert(tok.skip(0) =~= tok);
    lemma_trim_back_scan(tok, tl);
    assert(tok.take(tl) =~= tok);
    assert(spec_trim(tok) == tok);
    assert(line.skip(tl + 1) =~= c);
}

/// How many times `c` occurs in `s`.
pub open spec fn count_char(s: Seq<char>, c: char) -> nat
    decreases s.len(),
{
    if s.len() == 0 {
        0
    } else {
        count_char(s.drop_first(), c) + if s[0] == c {
            1nat
        } else {
            0nat
        }
    }
}

/// Where the first occurrence sits, the count splits around it.
proof fn lemma_count_after_find(s: Seq<char>, c: char)
    requires
        (spec_find(s, c) is Some),
    ensures
        count_char(s, c) == 1 + count_char(s.skip(spec_find(s, c)->0 + 1), c),
    decreases s.len(),
{
    crate::strutil::lemma_find_props(s, c);
    if s[0] == c {
        assert(s.skip(1) =~= s.drop_first());
    } else {
        lemma_count_after_find(s.drop_first(), c);
        let i = spec_find(s, c)->0;
        assert(s.drop_first().skip(i) =~= s.skip(i + 1));
    }
}

/// No occurrence, count zero.
proof fn lemma_count_zero(s: Seq<char>, c: char)
    requires
        (spec_find(s, c) is None),
    ensures
        count_char(s, c) == 0,
    decreases s.len(),
{
    if s.len() > 0 {
        lemma_count_zero(s.drop_first(), c);
    }
}

/// Field decoding rejects a payload exactly when its `'|'` count is not one.
pub proof fn lemma_split2_exactly_one(s: Seq<char>)
    ensures
        (spec_split2(s) is None) <==> count_char(s, '|') != 1,
{
    match spec_find(s, '|') {
        None => {
            lemma_count_zero(s, '|');
        },
        Some(i) => {
            lemma_count_after_find(s, '|');
            match spec_find(s.skip(i + 1), '|') {
                None => {
                    lemma_count_zero(s.skip(i + 1), '|');
                },
                Some(_) => {
                    lemma_count_after_find(s.skip(i + 1), '|');
                },
            }
        },
    }
}

/// Field errors: a payload whose `'|'` count is not exactly one makes the
/// `M`, `L` and `IMG` lines fail with their tag-specific error, carrying the
/// raw content and an empty second value.
pub proof fn lemma_field_decode_errors(
    opts: ParserOptions,
    doc: DocModel,
    cur: Option<int>,
    content: Seq<char>,
)
    requires
        count_char(content, '|') != 1,
    ensures
        spec_apply_tag(opts, doc, cur, MMLTag::Metadata, content) == Err::<
            (DocModel, Option<int>),
            ErrorModel,
        >(
            ErrorModel::MetadataError {
                key: content,
                value: ""@,
                error: "Invalid format"@,
                suggestion: "Use format 'key|value' for metadata."@,
            },
        ),
        spec_apply_tag(opts, doc, cur, MMLTag::Link, content) == Err::<
            (DocModel, Option<int>),
            ErrorModel,
        >(
            ErrorModel::LinkError {
                text: content,
                url: ""@,
                error: "Invalid format"@,
                suggestion: "Use format 'text|url' for links."@,
            },
        ),
        spec_apply_tag(opts, doc, cur, MMLTag::Image, content) == Err::<
            (DocModel, Option<int>),
            ErrorModel,
        >(
            ErrorModel::ImageError {
                description: content,
                url: ""@,
                error: "Invalid format"@,
                suggestion: "Use format 'description|url' for images."@,
            },
        ),
{
    lemma_split2_exactly_one(content);
}

} // verus!
