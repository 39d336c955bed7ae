//! Core data structures of an MML document, each with a mathematical model
//! (`...Model`) that the parser's contracts speak of.

use vstd::prelude::*;

use crate::strutil::str_eq;

verus! {

/// A hyperlink: display text plus a URL, decoded together from one `L` line.
#[derive(Debug, Clone, PartialEq)]
pub struct MMLLink {
    /// Link text/description.
    pub text: String,
    /// Link URL or reference.
    pub url: String,
}

/// Mathematical model of a link: the two fields as character sequences.
pub ghost struct LinkModel {
    pub text: Seq<char>,
    pub url: Seq<char>,
}

impl View for MMLLink {
    type V = LinkModel;

    open spec fn view(&self) -> LinkModel {
        LinkModel { text: self.text@, url: self.url@ }
    }
}

impl MMLLink {
    /// Create a new link.
    pub fn new(text: String, url: String) -> (r: Self)
        ensures
            r@.text == text@,
            r@.url == url@,
    {
        Self { text, url }
    }
}

/// An image reference: alt text plus a URL, decoded together from one `IMG`
/// line.
#[derive(Debug, Clone, PartialEq)]
pub struct MMLImage {
    /// Image description/alt text.
    pub description: String,
    /// Image URL or path.
    pub url: String,
}

/// Mathematical model of an image: the two fields as character sequences.
pub ghost struct ImageModel {
    pub description: Seq<char>,
    pub url: Seq<char>,
}

impl View for MMLImage {
    type V = ImageModel;

    open spec fn view(&self) -> ImageModel {
        ImageModel { description: self.description@, url: self.url@ }
    }
}

impl MMLImage {
    /// Create a new image.
    pub fn new(description: String, url: String) -> (r: Self)
        ensures
            r@.description == description@,
            r@.url == url@,
    {
        Self { description, url }
    }
}

/// Index of the first entry of `m` whose key is `k`, if any.
pub open spec fn md_find(m: Seq<(Seq<char>, Seq<char>)>, k: Seq<char>) -> Option<int>
    decreases m.len(),
{
    if m.len() == 0 {
        None
    } else if m[0].0 == k {
        Some(0)
    } else {
        match md_find(m.drop_first(), k) {
            None => None,
            Some(i) => Some(i + 1),
        }
    }
}

/// The entries after `insert(k, v)`: the first entry keyed `k` gets value
/// `v`, or a fresh entry is appended when the key is new.
pub open spec fn md_insert(
    m: Seq<(Seq<char>, Seq<char>)>,
    k: Seq<char>,
    v: Seq<char>,
) -> Seq<(Seq<char>, Seq<char>)> {
    match md_find(m, k) {
        None => m.push((k, v)),
        Some(i) => m.update(i, (k, v)),
    }
}

/// The value stored under key `k`, if any.
pub open spec fn md_lookup(m: Seq<(Seq<char>, Seq<char>)>, k: Seq<char>) -> Option<Seq<char>> {
    match md_find(m, k) {
        None => None,
        Some(i) => Some(m[i].1),
    }
}

/// Every key occurs at most once.
pub open spec fn md_unique(m: Seq<(Seq<char>, Seq<char>)>) -> bool {
    forall|i: int, j: int| 0 <= i < j < m.len() ==> m[i].0 != m[j].0
}

/// What `md_find` returns: the first index keyed `k`, or `None` when no
/// index is.
pub proof fn lemma_md_find_props(m: Seq<(Seq<char>, Seq<char>)>, k: Seq<char>)
    ensures
        match md_find(m, k) {
            Some(i) => 0 <= i < m.len() && m[i].0 == k && (forall|j: int|
                0 <= j < i ==> m[j].0 != k),
            None => forall|j: int| 0 <= j < m.len() ==> m[j].0 != k,
        },
    decreases m.len(),
{
    if m.len() > 0 && m[0].0 != k {
        let d = m.drop_first();
        lemma_md_find_props(d, k);
        assert(forall|j: int| 1 <= j < m.len() ==> m[j] == d[j - 1]);
        match md_find(d, k) {
            Some(i) => {
                assert(m[i + 1] == d[i]);
                assert(forall|j: int| 0 <= j < i + 1 ==> m[j].0 != k);
            },
            None => {
                assert(forall|j: int| 0 <= j < m.len() ==> m[j].0 != k);
            },
        }
    }
}

/// A scan that saw no key `k` before position `i`, and `k` at `i` (or ran
/// off the end), pins `md_find`.
pub proof fn lemma_md_find_scan(m: Seq<(Seq<char>, Seq<char>)>, k: Seq<char>, i: int)
    requires
        0 <= i <= m.len(),
        forall|j: int| 0 <= j < i ==> m[j].0 != k,
        i == m.len() || m[i].0 == k,
    ensures
        md_find(m, k) == if i == m.len() {
            None::<int>
        } else {
            Some(i)
        },
    decreases m.len(),
{
    if m.len() == 0 {
    } else if i == 0 {
    } else {
        lemma_md_find_scan(m.drop_first(), k, i - 1);
    }
}

/// Inserting preserves key uniqueness.
pub proof fn lemma_md_insert_unique(m: Seq<(Seq<char>, Seq<char>)>, k: Seq<char>, v: Seq<char>)
    requires
        md_unique(m),
    ensures
        md_unique(md_insert(m, k, v)),
{
    lemma_md_find_props(m, k);
    match md_find(m, k) {
        None => {
            assert(forall|j: int| 0 <= j < m.len() ==> m[j].0 != k);
        },
        Some(i) => {
            let r = m.update(i, (k, v));
            assert(forall|j: int| 0 <= j < m.len() && j != i ==> r[j].0 == m[j].0);
            assert(r[i].0 == m[i].0);
        },
    }
}

/// A key-to-value map with the keys kept unique and in insertion order, so
/// that walking the entries is deterministic.
#[derive(Debug, Clone, PartialEq)]
pub struct MetadataMap {
    entries: Vec<(String, String)>,
}

impl View for MetadataMap {
    type V = Seq<(Seq<char>, Seq<char>)>;

    closed spec fn view(&self) -> Seq<(Seq<char>, Seq<char>)> {
        Seq::new(self.entries@.len(), |i: int| (self.entries@[i].0@, self.entries@[i].1@))
    }
}

impl MetadataMap {
    /// The map's internal invariant: no key occurs twice.
    pub open spec fn wf(&self) -> bool {
        md_unique(self@)
    }

    /// Create an empty map.
    pub fn new() -> (r: Self)
        ensures
            r@ == Seq::<(Seq<char>, Seq<char>)>::empty(),
            r.wf(),
    {
        let r = Self { entries: Vec::new() };
        proof {
            assert(r@ =~= Seq::<(Seq<char>, Seq<char>)>::empty());
        }
        r
    }

    /// Number of entries.
    pub fn len(&self) -> (r: usize)
        ensures
            r == self@.len(),
    {
        self.entries.len()
    }

    /// Whether the map holds no entry.
    pub fn is_empty(&self) -> (r: bool)
        ensures
            r == (self@.len() == 0),
    {
        self.entries.len() == 0
    }

    /// Index of the first entry keyed `key`, if any.
    fn find_index(&self, key: &str) -> (r: Option<usize>)
        ensures
            match r {
                Some(i) => i < self@.len() && md_find(self@, key@) == Some(i as int),
                None => md_find(self@, key@) == None::<int>,
            },
    {
        let n = self.entries.len();
        let mut i: usize = 0;
        while i < n
            invariant
                0 <= i <= n,
                n == self.entries@.len(),
                forall|j: int| 0 <= j < i ==> self@[j].0 != key@,
            decreases n - i,
        {
            if str_eq(self.entries[i].0.as_str(), key) {
                proof {
                    lemma_md_find_scan(self@, key@, i as int);
                }
                return Some(i);
            }
            i = i + 1;
        }
        proof {
            lemma_md_find_scan(self@, key@, n as int);
        }
        None
    }

    /// The value stored under `key`, if any.
    pub fn get(&self, key: &str) -> (r: Option<&String>)
        ensures
            match md_lookup(self@, key@) {
                Some(v) => r matches Some(s) && s@ == v,
                None => r is None,
            },
    {
        match self.find_index(key) {
            Some(i) => Some(&self.entries[i].1),
            None => None,
        }
    }

    /// Whether the map holds an entry keyed `key`.
    pub fn contains_key(&self, key: &str) -> (r: bool)
        ensures
            r == (md_find(self@, key@) matches Some(_)),
    {
        match self.find_index(key) {
            Some(_) => true,
            None => false,
        }
    }

    /// Store `value` under `key`, overwriting the value of an existing entry
    /// with that key.
    pub fn insert(&mut self, key: String, value: String)
        ensures
            final(self)@ == md_insert(old(self)@, key@, value@),
            old(self).wf() ==> final(self).wf(),
    {
        proof {
            if old(self).wf() {
                lemma_md_insert_unique(old(self)@, key@, value@);
            }
        }
        match self.find_index(key.as_str()) {
            Some(i) => {
                self.entries[i] = (key, value);
                proof {
                    assert(self@ =~= md_insert(old(self)@, key@, value@));
                }
            },
            None => {
                self.entries.push((key, value));
                proof {
                    assert(self@ =~= md_insert(old(self)@, key@, value@));
                }
            },
        }
    }

    /// The entry at position `i`, in insertion order.
    pub fn get_pair(&self, i: usize) -> (r: &(String, String))
        requires
            i < self@.len(),
        ensures
            r.0@ == self@[i as int].0,
            r.1@ == self@[i as int].1,
    {
        &self.entries[i]
    }
}

/// Parsing statistics: how many lines the parser walked and how each fared.
#[derive(Debug, Clone, PartialEq)]
pub struct MMLStats {
    /// Total number of lines processed (blank lines included).
    pub total_lines: usize,
    /// Number of successfully parsed lines.
    pub parsed_lines: usize,
    /// Number of lines with parse errors.
    pub error_lines: usize,
    /// Parsing time in milliseconds (if measured).
    pub parse_time_ms: Option<u64>,
}

/// Mathematical model of the statistics.
pub ghost struct StatsModel {
    pub total_lines: nat,
    pub parsed_lines: nat,
    pub error_lines: nat,
    pub parse_time_ms: Option<u64>,
}

impl View for MMLStats {
    type V = StatsModel;

    open spec fn view(&self) -> StatsModel {
        StatsModel {
            total_lines: self.total_lines as nat,
            parsed_lines: self.parsed_lines as nat,
            error_lines: self.error_lines as nat,
            parse_time_ms: self.parse_time_ms,
        }
    }
}

impl StatsModel {
    /// The all-zero statistics a parse starts from.
    pub open spec fn init() -> StatsModel {
        StatsModel { total_lines: 0, parsed_lines: 0, error_lines: 0, parse_time_ms: None }
    }
}

impl Default for MMLStats {
    /// Statistics before any line was processed.
    fn default() -> (r: Self)
        ensures
            r@ == StatsModel::init(),
    {
        Self { total_lines: 0, parsed_lines: 0, error_lines: 0, parse_time_ms: None }
    }
}

/// A section of a document: a required title plus the content, metadata,
/// links and images collected while the section was the current scope.
#[derive(Debug, Clone, PartialEq)]
pub struct MMLSection {
    /// Section title.
    pub title: String,
    /// Section content (main paragraph).
    pub content: Option<String>,
    /// Section-specific metadata.
    pub metadata: MetadataMap,
    /// Links within this section.
    pub links: Vec<MMLLink>,
    /// Images within this section.
    pub images: Vec<MMLImage>,
}

/// Mathematical model of a section.
pub ghost struct SectionModel {
    pub title: Seq<char>,
    pub content: Option<Seq<char>>,
    pub metadata: Seq<(Seq<char>, Seq<char>)>,
    pub links: Seq<LinkModel>,
    pub images: Seq<ImageModel>,
}

impl View for MMLSection {
    type V = SectionModel;

    open spec fn view(&self) -> SectionModel {
        SectionModel {
            title: self.title@,
            content: match self.content {
                Some(c) => Some(c@),
                None => None,
            },
            metadata: self.metadata@,
            links: Seq::new(self.links@.len(), |i: int| self.links@[i]@),
            images: Seq::new(self.images@.len(), |i: int| self.images@[i]@),
        }
    }
}

impl SectionModel {
    /// The model of a freshly created section titled `title`.
    pub open spec fn init(title: Seq<char>) -> SectionModel {
        SectionModel {
            title: title,
            content: None,
            metadata: Seq::empty(),
            links: Seq::empty(),
            images: Seq::empty(),
        }
    }
}

impl MMLSection {
    /// Create a new section with the given title.
    pub fn new(title: String) -> (r: Self)
        ensures
            r@ == SectionModel::init(title@),
    {
        let r = Self {
            title,
            content: None,
            metadata: MetadataMap::new(),
            links: Vec::new(),
            images: Vec::new(),
        };
        proof {
            assert(r@.links =~= Seq::<LinkModel>::empty());
            assert(r@.images =~= Seq::<ImageModel>::empty());
        }
        r
    }
}

/// A complete MML document.
#[derive(Debug, Clone, PartialEq)]
pub struct MMLDocument {
    /// Document title (optional).
    pub title: Option<String>,
    /// Global metadata key-value pairs.
    pub metadata: MetadataMap,
    /// Document sections.
    pub sections: Vec<MMLSection>,
    /// Global links.
    pub links: Vec<MMLLink>,
    /// Parsing statistics.
    pub stats: MMLStats,
}

/// Mathematical model of a document.
pub ghost struct DocModel {
    pub title: Option<Seq<char>>,
    pub metadata: Seq<(Seq<char>, Seq<char>)>,
    pub sections: Seq<SectionModel>,
    pub links: Seq<LinkModel>,
    pub stats: StatsModel,
}

impl View for MMLDocument {
    type V = DocModel;

    open spec fn view(&self) -> DocModel {
        DocModel {
            title: match self.title {
                Some(t) => Some(t@),
                None => None,
            },
            metadata: self.metadata@,
            sections: Seq::new(self.sections@.len(), |i: int| self.sections@[i]@),
            links: Seq::new(self.links@.len(), |i: int| self.links@[i]@),
            stats: self.stats@,
        }
    }
}

impl DocModel {
    /// The model of the empty document a parse starts from.
    pub open spec fn init() -> DocModel {
        DocModel {
            title: None,
            metadata: Seq::empty(),
            sections: Seq::empty(),
            links: Seq::empty(),
            stats: StatsModel::init(),
        }
    }

    /// Every metadata map in the document keeps its keys unique.
    pub open spec fn wf(self) -> bool {
        &&& md_unique(self.metadata)
        &&& forall|i: int| 0 <= i < self.sections.len() ==> md_unique(
            #[trigger] self.sections[i].metadata,
        )
    }
}

impl Default for MMLDocument {
    /// The empty document.
    fn default() -> (r: Self)
        ensures
            r@ == DocModel::init(),
            r@.wf(),
    {
        let r = Self {
            title: None,
            metadata: MetadataMap::new(),
            sections: Vec::new(),
            links: Vec::new(),
            stats: MMLStats { total_lines: 0, parsed_lines: 0, error_lines: 0, parse_time_ms: None },
        };
        proof {
            assert(r@.sections =~= Seq::<SectionModel>::empty());
            assert(r@.links =~= Seq::<LinkModel>::empty());
            assert(r@.metadata =~= Seq::<(Seq<char>, Seq<char>)>::empty());
        }
        r
    }
}

/// MML tag enumeration: which kind of line a tag token selects.
#[derive(Debug, Clone, Copy, PartialEq, Eq, Structural)]
pub enum MMLTag {
    Title,
    Section,
    Paragraph,
    Metadata,
    Link,
    Image,
    Code,
    Quote,
    Config,
    Packet,
    Unknown,
}

/// The canonical token of each tag kind (`UNKNOWN` for the sentinel).
pub open spec fn spec_tag_str(t: MMLTag) -> Seq<char> {
    match t {
        MMLTag::Title => "T"@,
        MMLTag::Section => "H"@,
        MMLTag::Paragraph => "P"@,
        MMLTag::Metadata => "M"@,
        MMLTag::Link => "L"@,
        MMLTag::Image => "IMG"@,
        MMLTag::Code => "C"@,
        MMLTag::Quote => "Q"@,
        MMLTag::Config => "CFG"@,
        MMLTag::Packet => "PKT"@,
        MMLTag::Unknown => "UNKNOWN"@,
    }
}

/// The tag kind a token selects: total, case-sensitive, exact-match
/// classification; any other token is `Unknown`.
pub open spec fn spec_tag_of(s: Seq<char>) -> MMLTag {
    if s.len() == 1 {
        if s[0] == 'T' {
            MMLTag::Title
        } else if s[0] == 'H' {
            MMLTag::Section
        } else if s[0] == 'P' {
            MMLTag::Paragraph
        } else if s[0] == 'M' {
            MMLTag::Metadata
        } else if s[0] == 'L' {
            MMLTag::Link
        } else if s[0] == 'C' {
            MMLTag::Code
        } else if s[0] == 'Q' {
            MMLTag::Quote
        } else {
            MMLTag::Unknown
        }
    } else if s.len() == 3 {
        if s[0] == 'I' && s[1] == 'M' && s[2] == 'G' {
            MMLTag::Image
        } else if s[0] == 'C' && s[1] == 'F' && s[2] == 'G' {
            MMLTag::Config
        } else if s[0] == 'P' && s[1] == 'K' && s[2] == 'T' {
            MMLTag::Packet
        } else {
            MMLTag::Unknown
        }
    } else {
        MMLTag::Unknown
    }
}

impl MMLTag {
    /// Convert tag to string representation.
    pub fn to_str(self) -> (r: &'static str)
        ensures
            r@ == spec_tag_str(self),
    {
        match self {
            MMLTag::Title => "T",
            MMLTag::Section => "H",
            MMLTag::Paragraph => "P",
            MMLTag::Metadata => "M",
            MMLTag::Link => "L",
            MMLTag::Image => "IMG",
            MMLTag::Code => "C",
            MMLTag::Quote => "Q",
            MMLTag::Config => "CFG",
            MMLTag::Packet => "PKT",
            MMLTag::Unknown => "UNKNOWN",
        }
    }

    /// Parse tag from string.
    pub fn from_str(s: &str) -> (r: Self)
        ensures
            r == spec_tag_of(s@),
    {
        let n = s.unicode_len();
        if n == 1 {
            let c = s.get_char(0);
            if c == 'T' {
                MMLTag::Title
            } else if c == 'H' {
                MMLTag::Section
            } else if c == 'P' {
                MMLTag::Paragraph
            } else if c == 'M' {
                MMLTag::Metadata
            } else if c == 'L' {
                MMLTag::Link
            } else if c == 'C' {
                MMLTag::Code
            } else if c == 'Q' {
                MMLTag::Quote
            } else {
                MMLTag::Unknown
            }
        } else if n == 3 {
            let c0 = s.get_char(0);
            let c1 = s.get_char(1);
            let c2 = s.get_char(2);
            if c0 == 'I' && c1 == 'M' && c2 == 'G' {
                MMLTag::Image
            } else if c0 == 'C' && c1 == 'F' && c2 == 'G' {
                MMLTag::Config
            } else if c0 == 'P' && c1 == 'K' && c2 == 'T' {
                MMLTag::Packet
            } else {
                MMLTag::Unknown
            }
        } else {
            MMLTag::Unknown
        }
    }
}

/// Compression level for compressed MML output.
#[derive(Debug, Clone, Copy, PartialEq, Eq, Structural)]
pub enum CompressionLevel {
    /// No compression, readable MML.
    NoCompression,
    /// Basic compression with common words.
    Basic,
    /// Aggressive compression with full dictionary.
    Aggressive,
}

impl Default for CompressionLevel {
    fn default() -> (r: Self)
        ensures
            r == CompressionLevel::Basic,
    {
        CompressionLevel::Basic
    }
}

/// Output format options.
#[derive(Debug, Clone, Copy, PartialEq, Eq, Structural)]
pub enum OutputFormat {
    /// MML plain text.
    MML,
    /// HTML format.
    HTML,
    /// JSON format.
    JSON,
    /// Compressed MML.
    MMLC,
}

impl Default for OutputFormat {
    fn default() -> (r: Self)
        ensures
            r == OutputFormat::MML,
    {
        OutputFormat::MML
    }
}

} // verus!
