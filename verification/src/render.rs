//! Rendering a document back to the line grammar, so that a parsed document
//! can be re-parsed: one `T` line, the metadata as `M` lines, then each
//! section as an `H` line followed by its metadata, content, links and
//! images. Global links have no surface form in the grammar and are not
//! rendered.

use vstd::prelude::*;

use crate::types::{DocModel, MMLDocument, SectionModel};

verus! {

/// One rendered metadata entry.
pub open spec fn md_entry_text(p: (Seq<char>, Seq<char>)) -> Seq<char> {
    "M:"@ + p.0 + "|"@ + p.1 + "\n"@
}

/// The first `n` metadata entries, rendered in order.
pub open spec fn md_text_upto(m: Seq<(Seq<char>, Seq<char>)>, n: int) -> Seq<char>
    decreases n,
{
    if n <= 0 {
        Seq::empty()
    } else {
        md_text_upto(m, n - 1) + md_entry_text(m[n - 1])
    }
}

/// The first `n` links of a section, rendered in order.
pub open spec fn links_text_upto(s: SectionModel, n: int) -> Seq<char>
    decreases n,
{
    if n <= 0 {
        Seq::empty()
    } else {
        links_text_upto(s, n - 1) + ("L:"@ + s.links[n - 1].text + "|"@ + s.links[n - 1].url
            + "\n"@)
    }
}

/// The first `n` images of a section, rendered in order.
pub open spec fn images_text_upto(s: SectionModel, n: int) -> Seq<char>
    decreases n,
{
    if n <= 0 {
        Seq::empty()
    } else {
        images_text_upto(s, n - 1) + ("IMG:"@ + s.images[n - 1].description + "|"@ + s.images[n
            - 1].url + "\n"@)
    }
}

/// One section rendered whole.
pub open spec fn section_text(s: SectionModel) -> Seq<char> {
    "H:"@ + s.title + "\n"@ + md_text_upto(s.metadata, s.metadata.len() as int) + (match s.content {
        Some(c) => "P:"@ + c + "\n"@,
        None => Seq::empty(),
    }) + links_text_upto(s, s.links.len() as int) + images_text_upto(s, s.images.len() as int)
}

/// The first `n` sections, rendered in order.
pub open spec fn sections_text_upto(d: DocModel, n: int) -> Seq<char>
    decreases n,
{
    if n <= 0 {
        Seq::empty()
    } else {
        sections_text_upto(d, n - 1) + section_text(d.sections[n - 1])
    }
}

/// A whole document rendered back to the grammar.
pub open spec fn spec_render(d: DocModel) -> Seq<char> {
    (match d.title {
        Some(t) => "T:"@ + t + "\n"@,
        None => Seq::empty(),
    }) + md_text_upto(d.metadata, d.metadata.len() as int) + sections_text_upto(
        d,
        d.sections.len() as int,
    )
}

/// Render a document back to the line grammar it was parsed from.
pub fn render_mml(doc: &MMLDocument) -> (r: String)
    ensures
        r@ == spec_render(doc@),
{
    let mut out = String::new();
    match &doc.title {
        Some(t) => {
            out.append("T:");
            out.append(t.as_str());
            out.append("\n");
        },
        None => {
            proof {
                assert(out@ =~= Seq::<char>::empty() + Seq::<char>::empty());
            }
        },
    }
    let ghost title_part = out@;
    let m = doc.metadata.len();
    let mut i: usize = 0;
    while i < m
        invariant
            0 <= i <= m,
            m == doc.metadata@.len(),
            out@ == title_part + md_text_upto(doc.metadata@, i as int),
        decreases m - i,
    {
        let pair = doc.metadata.get_pair(i);
        out.append("M:");
        out.append(pair.0.as_str());
        out.append("|");
        out.append(pair.1.as_str());
        out.append("\n");
        i = i + 1;
    }
    let ghost head_part = out@;
    let ns = doc.sections.len();
    let mut si: usize = 0;
    while si < ns
        invariant
            0 <= si <= ns,
            ns == doc.sections@.len(),
            head_part == title_part + md_text_upto(doc.metadata@, doc.metadata@.len() as int),
            out@ == head_part + sections_text_upto(doc@, si as int),
        decreases ns - si,
    {
        let ghost sec_start = out@;
        let section = &doc.sections[si];
        out.append("H:");
        out.append(section.title.as_str());
        out.append("\n");
        let sm = section.metadata.len();
        let mut mi: usize = 0;
        while mi < sm
            invariant
                0 <= mi <= sm,
                sm == section.metadata@.len(),
                out@ == sec_start + "H:"@ + section.title@ + "\n"@ + md_text_upto(
                    section.metadata@,
                    mi as int,
                ),
            decreases sm - mi,
        {
            let pair = section.metadata.get_pair(mi);
            out.append("M:");
            out.append(pair.0.as_str());
            out.append("|");
            out.append(pair.1.as_str());
            out.append("\n");
            mi = mi + 1;
        }
        match &section.content {
            Some(c) => {
                out.append("P:");
                out.append(c.as_str());
                out.append("\n");
            },
            None => {
                proof {
                    assert(out@ =~= out@ + Seq::<char>::empty());
                }
            },
        }
        let ghost after_content = out@;
        let nl = section.links.len();
        let mut li: usize = 0;
        while li < nl
            invariant
                0 <= li <= nl,
                nl == section.links@.len(),
                section@ == doc@.sections[si as int],
                out@ == after_content + links_text_upto(section@, li as int),
            decreases nl - li,
        {
            let link = &section.links[li];
            out.append("L:");
            out.append(link.text.as_str());
            out.append("|");
            out.append(link.url.as_str());
            out.append("\n");
            li = li + 1;
        }
        let ghost after_links = out@;
        let ni = section.images.len();
        let mut ii: usize = 0;
        while ii < ni
            invariant
                0 <= ii <= ni,
                ni == section.images@.len(),
                section@ == doc@.sections[si as int],
                out@ == after_links + images_text_upto(section@, ii as int),
            decreases ni - ii,
        {
            let image = &section.images[ii];
            out.append("IMG:");
            out.append(image.description.as_str());
            out.append("|");
            out.append(image.url.as_str());
            out.append("\n");
            ii = ii + 1;
        }
        proof {
            assert(out@ =~= sec_start + section_text(doc@.sections[si as int]));
        }
        si = si + 1;
    }
    out
}

} // verus!
