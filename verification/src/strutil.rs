//! String utilities shared by the tokenizer: whitespace trimming, first-index
//! search, and character-exact equality, each proved against a recursive
//! mathematical definition.

use vstd::prelude::*;

verus! {

/// The whitespace characters recognized when trimming line and field text.
pub open spec fn ws_char(c: char) -> bool {
    c == ' ' || c == '\t' || c == '\n' || c == '\r'
}

/// `s` with its leading whitespace removed.
pub open spec fn trim_front(s: Seq<char>) -> Seq<char>
    decreases s.len(),
{
    if s.len() == 0 {
        s
    } else if ws_char(s[0]) {
        trim_front(s.drop_first())
    } else {
        s
    }
}

/// `s` with its trailing whitespace removed.
pub open spec fn trim_back(s: Seq<char>) -> Seq<char>
    decreases s.len(),
{
    if s.len() == 0 {
        s
    } else if ws_char(s.last()) {
        trim_back(s.drop_last())
    } else {
        s
    }
}

/// `s` with leading and trailing whitespace removed.
pub open spec fn spec_trim(s: Seq<char>) -> Seq<char> {
    trim_back(trim_front(s))
}

/// Index of the first occurrence of `c` in `s`, if any.
pub open spec fn spec_find(s: Seq<char>, c: char) -> Option<int>
    decreases s.len(),
{
    if s.len() == 0 {
        None
    } else if s[0] == c {
        Some(0)
    } else {
        match spec_find(s.drop_first(), c) {
            None => None,
            Some(i) => Some(i + 1),
        }
    }
}

/// What `spec_find` returns: the first index holding `c`, or `None` when no
/// index does.
pub proof fn lemma_find_props(s: Seq<char>, c: char)
    ensures
        match spec_find(s, c) {
            Some(i) => 0 <= i < s.len() && s[i] == c && (forall|j: int| 0 <= j < i ==> s[j] != c),
            None => forall|j: int| 0 <= j < s.len() ==> s[j] != c,
        },
    decreases s.len(),
{
    if s.len() > 0 && s[0] != c {
        let d = s.drop_first();
        lemma_find_props(d, c);
        assert(forall|j: int| 1 <= j < s.len() ==> s[j] == d[j - 1]);
        match spec_find(d, c) {
            Some(i) => {
                assert(s[i + 1] == d[i]);
                assert(forall|j: int| 0 <= j < i + 1 ==> s[j] != c);
            },
            None => {
                assert(forall|j: int| 0 <= j < s.len() ==> s[j] != c);
            },
        }
    }
}

/// A scan that saw no `c` before position `i`, and `c` at `i` (or ran off the
/// end), pins `spec_find` exactly.
pub proof fn lemma_find_scan(s: Seq<char>, c: char, i: int)
    requires
        0 <= i <= s.len(),
        forall|j: int| 0 <= j < i ==> s[j] != c,
        i == s.len() || s[i] == c,
    ensures
        spec_find(s, c) == if i == s.len() {
            None::<int>
        } else {
            Some(i)
        },
    decreases s.len(),
{
    if s.len() == 0 {
    } else if i == 0 {
    } else {
        lemma_find_scan(s.drop_first(), c, i - 1);
    }
}

/// A scan that saw only whitespace before `lo`, and a non-whitespace
/// character at `lo` (or ran off the end), pins `trim_front`.
pub proof fn lemma_trim_front_scan(s: Seq<char>, lo: int)
    requires
        0 <= lo <= s.len(),
        forall|j: int| 0 <= j < lo ==> ws_char(s[j]),
        lo == s.len() || !ws_char(s[lo]),
    ensures
        trim_front(s) == s.skip(lo),
    decreases s.len(),
{
    if lo == 0 {
        assert(s.skip(0) =~= s);
    } else {
        lemma_trim_front_scan(s.drop_first(), lo - 1);
        assert(s.drop_first().skip(lo - 1) =~= s.skip(lo));
    }
}

/// A scan that saw only whitespace at and after `hi`, and a non-whitespace
/// character just before `hi` (or ran off the front), pins `trim_back`.
pub proof fn lemma_trim_back_scan(s: Seq<char>, hi: int)
    requires
        0 <= hi <= s.len(),
        forall|j: int| hi <= j < s.len() ==> ws_char(s[j]),
        hi == 0 || !ws_char(s[hi - 1]),
    ensures
        trim_back(s) == s.take(hi),
    decreases s.len(),
{
    if hi == s.len() {
        assert(s.take(hi) =~= s);
    } else {
        lemma_trim_back_scan(s.drop_last(), hi);
        assert(s.drop_last().take(hi) =~= s.take(hi));
    }
}

proof fn lemma_trim_front_len(s: Seq<char>)
    ensures
        trim_front(s).len() <= s.len(),
    decreases s.len(),
{
    if s.len() > 0 && ws_char(s[0]) {
        lemma_trim_front_len(s.drop_first());
    }
}

proof fn lemma_trim_back_len(s: Seq<char>)
    ensures
        trim_back(s).len() <= s.len(),
    decreases s.len(),
{
    if s.len() > 0 && ws_char(s.last()) {
        lemma_trim_back_len(s.drop_last());
    }
}

/// A non-empty fixed point of trimming neither starts nor ends with
/// whitespace.
pub proof fn lemma_trim_id_ends(t: Seq<char>)
    requires
        spec_trim(t) == t,
        t.len() > 0,
    ensures
        !ws_char(t[0]),
        !ws_char(t[t.len() - 1]),
{
    lemma_trim_front_len(t);
    lemma_trim_back_len(trim_front(t));
    if ws_char(t[0]) {
        lemma_trim_front_len(t.drop_first());
        lemma_trim_back_len(trim_front(t.drop_first()));
    }
    assert(trim_front(t) == t);
    if ws_char(t[t.len() - 1]) {
        lemma_trim_back_len(t.drop_last());
    }
}

/// Whether `c` counts as whitespace for trimming.
pub fn is_ws_char(c: char) -> (r: bool)
    ensures
        r == ws_char(c),
{
    c == ' ' || c == '\t' || c == '\n' || c == '\r'
}

/// First occurrence of `c` in `s` at or after position `start` (a character
/// index), reported as an absolute character index.
pub fn find_char_from(s: &str, start: usize, c: char) -> (r: Option<usize>)
    requires
        start <= s@.len(),
    ensures
        match r {
            Some(j) => start <= j < s@.len() && spec_find(s@.skip(start as int), c) == Some(
                j - start,
            ),
            None => spec_find(s@.skip(start as int), c) == None::<int>,
        },
{
    let n = s.unicode_len();
    let mut idx = start;
    while idx < n
        invariant
            start <= idx <= n,
            n == s@.len(),
            forall|m: int| start <= m < idx ==> s@[m] != c,
        decreases n - idx,
    {
        if s.get_char(idx) == c {
            proof {
                let suf = s@.skip(start as int);
                assert(forall|j: int| 0 <= j < idx - start ==> suf[j] != c);
                lemma_find_scan(suf, c, idx - start);
            }
            return Some(idx);
        }
        idx = idx + 1;
    }
    proof {
        let suf = s@.skip(start as int);
        assert(forall|j: int| 0 <= j < suf.len() ==> suf[j] != c);
        lemma_find_scan(suf, c, suf.len() as int);
    }
    None
}

/// `s` with leading and trailing whitespace removed.
pub fn trim_str<'a>(s: &'a str) -> (r: &'a str)
    ensures
        r@ == spec_trim(s@),
{
    let n = s.unicode_len();
    let mut lo: usize = 0;
    while lo < n && is_ws_char(s.get_char(lo))
        invariant
            0 <= lo <= n,
            n == s@.len(),
            forall|j: int| 0 <= j < lo ==> ws_char(s@[j]),
        decreases n - lo,
    {
        lo = lo + 1;
    }
    let mut hi: usize = n;
    while hi > lo && is_ws_char(s.get_char(hi - 1))
        invariant
            lo <= hi <= n,
            n == s@.len(),
            forall|j: int| hi <= j < n ==> ws_char(s@[j]),
            forall|j: int| 0 <= j < lo ==> ws_char(s@[j]),
            lo == n || !ws_char(s@[lo as int]),
        decreases hi - lo,
    {
        hi = hi - 1;
    }
    proof {
        lemma_trim_front_scan(s@, lo as int);
        let mid = s@.skip(lo as int);
        assert(forall|j: int| hi - lo <= j < mid.len() ==> ws_char(mid[j]));
        if hi > lo {
            assert(!ws_char(mid[hi - lo - 1]));
        } else {
            // hi == lo: either lo == n (mid empty) or s[lo] is not whitespace,
            // in which case the second scan stopped at hi == lo for the same
            // reason, so hi - lo == 0 and the "ran off the front" case holds.
        }
        lemma_trim_back_scan(mid, hi - lo);
        assert(mid.take(hi - lo) =~= s@.subrange(lo as int, hi as int));
    }
    s.substring_char(lo, hi)
}

/// Character-exact equality of two string slices.
pub fn str_eq(a: &str, b: &str) -> (r: bool)
    ensures
        r == (a@ == b@),
{
    let na = a.unicode_len();
    let nb = b.unicode_len();
    if na != nb {
        return false;
    }
    let mut i: usize = 0;
    while i < na
        invariant
            0 <= i <= na,
            na == a@.len(),
            na == b@.len(),
            forall|j: int| 0 <= j < i ==> a@[j] == b@[j],
        decreases na - i,
    {
        if a.get_char(i) != b.get_char(i) {
            return false;
        }
        i = i + 1;
    }
    proof {
        assert(a@ =~= b@);
    }
    true
}

} // verus!
