//! Character-sequence operations on token text: search, split, replace and trim,
//! each stated as a spec function over `Seq<char>` and implemented on `&[char]`.
use vstd::prelude::*;

use vstd::string::StrSliceExecFns;

use crate::std_text::string_from_chars;

verus! {

// ---------------------------------------------------------------------------
// Specifications
// ---------------------------------------------------------------------------

/// `p` occurs in `s` starting at position `i`.
pub open spec fn matches_at(s: Seq<char>, p: Seq<char>, i: int) -> bool {
    0 <= i && i + p.len() <= s.len() && s.subrange(i, i + p.len()) =~= p
}

/// The first position at or after `from` where `p` occurs in `s`.
pub open spec fn find_from(s: Seq<char>, p: Seq<char>, from: int) -> Option<int>
    decreases s.len() + 1 - from,
{
    if from < 0 || from + p.len() > s.len() {
        None
    } else if matches_at(s, p, from) {
        Some(from)
    } else {
        find_from(s, p, from + 1)
    }
}

/// The first position where `p` occurs in `s`.
pub open spec fn find(s: Seq<char>, p: Seq<char>) -> Option<int> {
    find_from(s, p, 0)
}

/// `p` occurs somewhere in `s`.
pub open spec fn contains(s: Seq<char>, p: Seq<char>) -> bool {
    find(s, p) is Some
}

/// `s` begins with `p`.
pub open spec fn starts_with(s: Seq<char>, p: Seq<char>) -> bool {
    matches_at(s, p, 0)
}

/// `s` ends with `p`.
pub open spec fn ends_with(s: Seq<char>, p: Seq<char>) -> bool {
    p.len() <= s.len() && matches_at(s, p, s.len() - p.len())
}

/// The last position below `end` holding `c`.
pub open spec fn rfind_char_below(s: Seq<char>, c: char, end: int) -> Option<int>
    decreases end,
{
    if end <= 0 || end > s.len() {
        None
    } else if s[end - 1] == c {
        Some(end - 1)
    } else {
        rfind_char_below(s, c, end - 1)
    }
}

/// The last position of `c` in `s`.
pub open spec fn rfind_char(s: Seq<char>, c: char) -> Option<int> {
    rfind_char_below(s, c, s.len() as int)
}

/// The pieces of `s[start..]` separated by the non-empty separator `p`,
/// read from left to right as `str::split` does.
pub open spec fn split_from(s: Seq<char>, p: Seq<char>, start: int) -> Seq<Seq<char>>
    decreases s.len() + 1 - start,
{
    if p.len() == 0 || start < 0 || start > s.len() {
        seq![]
    } else {
        match find_from(s, p, start) {
            Some(i) => if start <= i && i + p.len() <= s.len() {
                seq![s.subrange(start, i)] + split_from(s, p, i + p.len())
            } else {
                seq![]
            },
            None => seq![s.subrange(start, s.len() as int)],
        }
    }
}

/// `s` split at every occurrence of the non-empty separator `p`.
pub open spec fn split(s: Seq<char>, p: Seq<char>) -> Seq<Seq<char>> {
    split_from(s, p, 0)
}

/// At most `n` pieces of `s[start..]` separated by `p`; the last piece keeps the rest,
/// as `str::splitn` does.
pub open spec fn splitn_from(s: Seq<char>, n: nat, p: Seq<char>, start: int) -> Seq<Seq<char>>
    decreases n,
{
    if p.len() == 0 || start < 0 || start > s.len() || n == 0 {
        seq![]
    } else if n == 1 {
        seq![s.subrange(start, s.len() as int)]
    } else {
        match find_from(s, p, start) {
            Some(i) => if start <= i && i + p.len() <= s.len() {
                seq![s.subrange(start, i)] + splitn_from(s, (n - 1) as nat, p, i + p.len())
            } else {
                seq![]
            },
            None => seq![s.subrange(start, s.len() as int)],
        }
    }
}

/// `s` split into at most `n` pieces at occurrences of `p`.
pub open spec fn splitn(s: Seq<char>, n: nat, p: Seq<char>) -> Seq<Seq<char>> {
    splitn_from(s, n, p, 0)
}

/// `s[start..]` with every occurrence of the non-empty pattern `f` replaced by `t`,
/// occurrences found from left to right without overlap.
pub open spec fn replace_from(s: Seq<char>, f: Seq<char>, t: Seq<char>, start: int) -> Seq<char>
    decreases s.len() + 1 - start,
{
    if f.len() == 0 || start < 0 || start > s.len() {
        seq![]
    } else {
        match find_from(s, f, start) {
            Some(i) => if start <= i && i + f.len() <= s.len() {
                s.subrange(start, i) + t + replace_from(s, f, t, i + f.len())
            } else {
                seq![]
            },
            None => s.subrange(start, s.len() as int),
        }
    }
}

/// `s` with every occurrence of the non-empty pattern `f` replaced by `t`.
pub open spec fn replace(s: Seq<char>, f: Seq<char>, t: Seq<char>) -> Seq<char> {
    replace_from(s, f, t, 0)
}

/// Unicode `White_Space`, the property that `char::is_whitespace` tests.
pub open spec fn is_whitespace(c: char) -> bool {
    ||| '\t' <= c <= '\r'
    ||| c == ' '
    ||| c == '\u{85}'
    ||| c == '\u{a0}'
    ||| c == '\u{1680}'
    ||| '\u{2000}' <= c <= '\u{200a}'
    ||| c == '\u{2028}'
    ||| c == '\u{2029}'
    ||| c == '\u{202f}'
    ||| c == '\u{205f}'
    ||| c == '\u{3000}'
}

/// The characters that a trim removes: whitespace for `None`, the given character otherwise.
pub open spec fn trimmed_by(k: Option<char>, c: char) -> bool {
    match k {
        None => is_whitespace(c),
        Some(d) => c == d,
    }
}

/// The first position at or after `i` whose character a trim keeps, or the length.
pub open spec fn first_kept(s: Seq<char>, k: Option<char>, i: int) -> int
    decreases s.len() - i,
{
    if 0 <= i < s.len() && trimmed_by(k, s[i]) {
        first_kept(s, k, i + 1)
    } else {
        i
    }
}

/// The end of the kept part below `j`: one past the last kept character below `j`.
pub open spec fn last_kept_end(s: Seq<char>, k: Option<char>, j: int) -> int
    decreases j,
{
    if 0 < j <= s.len() && trimmed_by(k, s[j - 1]) {
        last_kept_end(s, k, j - 1)
    } else {
        j
    }
}

/// `s` without its leading and trailing trimmed characters (`str::trim` for `None`,
/// `str::trim_matches` for `Some(c)`).
pub open spec fn trim(s: Seq<char>, k: Option<char>) -> Seq<char> {
    let a = first_kept(s, k, 0);
    if a >= s.len() {
        seq![]
    } else {
        s.subrange(a, last_kept_end(s, k, s.len() as int))
    }
}

// ---------------------------------------------------------------------------
// Lemmas
// ---------------------------------------------------------------------------

/// What `find_from` returns: the first match at or after `from`.
pub proof fn lemma_find_from(s: Seq<char>, p: Seq<char>, from: int)
    requires
        0 <= from,
    ensures
        find_from(s, p, from) matches Some(i) ==> {
            &&& from <= i
            &&& i + p.len() <= s.len()
            &&& matches_at(s, p, i)
            &&& forall|j: int| from <= j < i ==> !matches_at(s, p, j)
        },
        find_from(s, p, from) is None ==> forall|j: int| from <= j ==> !matches_at(s, p, j),
    decreases s.len() + 1 - from,
{
    if from + p.len() > s.len() {
    } else if matches_at(s, p, from) {
    } else {
        lemma_find_from(s, p, from + 1);
    }
}

/// Where the trimmed part starts and ends.
pub proof fn lemma_first_kept(s: Seq<char>, k: Option<char>, i: int)
    requires
        0 <= i <= s.len(),
    ensures
        i <= first_kept(s, k, i) <= s.len(),
        first_kept(s, k, i) < s.len() ==> !trimmed_by(k, s[first_kept(s, k, i)]),
        forall|j: int| i <= j < first_kept(s, k, i) ==> trimmed_by(k, #[trigger] s[j]),
    decreases s.len() - i,
{
    if i < s.len() && trimmed_by(k, s[i]) {
        lemma_first_kept(s, k, i + 1);
    }
}

/// The kept end below `j` lies above any kept character below `j`.
pub proof fn lemma_last_kept_end(s: Seq<char>, k: Option<char>, j: int, a: int)
    requires
        0 <= a < j <= s.len(),
        !trimmed_by(k, s[a]),
    ensures
        a < last_kept_end(s, k, j) <= j,
    decreases j,
{
    if trimmed_by(k, s[j - 1]) {
        lemma_last_kept_end(s, k, j - 1, a);
    }
}

// ---------------------------------------------------------------------------
// Executable operations
// ---------------------------------------------------------------------------

/// The characters of `s`, in order.
pub fn chars_of(s: &str) -> (r: Vec<char>)
    ensures
        r@ == s@,
{
    broadcast use vstd::string::group_string_axioms;

    let mut out: Vec<char> = Vec::new();
    for c in it: s.chars()
        invariant
            out@ == it.seq().take(it.index() as int),
    {
        out.push(c);
    }
    assert(out@ == s@);
    out
}

/// `p` occurs in `s` at position `i`.
pub fn matches_at_exec(s: &[char], p: &[char], i: usize) -> (r: bool)
    ensures
        r == matches_at(s@, p@, i as int),
{
    if p.len() > s.len() || i > s.len() - p.len() {
        return false;
    }
    let n = s.len();
    let mut k: usize = 0;
    while k < p.len()
        invariant
            n == s@.len(),
            i + p@.len() <= s@.len(),
            k <= p@.len(),
            s@.subrange(i as int, i + k) =~= p@.subrange(0, k as int),
        decreases p.len() - k,
    {
        if s[i + k] != p[k] {
            assert(s@.subrange(i as int, i + p@.len())[k as int] == s@[i + k]);
            return false;
        }
        k = k + 1;
        assert(s@.subrange(i as int, i + k) =~= p@.subrange(0, k as int));
    }
    assert(p@.subrange(0, p@.len() as int) =~= p@);
    true
}

/// The first position at or after `from` where `p` occurs in `s`.
pub fn find_from_exec(s: &[char], p: &[char], from: usize) -> (r: Option<usize>)
    ensures
        match r {
            Some(i) => find_from(s@, p@, from as int) == Some(i as int),
            None => find_from(s@, p@, from as int) is None,
        },
{
    let mut i = from;
    while i <= s.len() && p.len() <= s.len() - i
        invariant
            from <= i,
            find_from(s@, p@, from as int) == find_from(s@, p@, i as int),
        decreases s.len() + 1 - i,
    {
        if matches_at_exec(s, p, i) {
            return Some(i);
        }
        i = i + 1;
    }
    None
}

/// The first position where `p` occurs in `s`.
pub fn find_exec(s: &[char], p: &[char]) -> (r: Option<usize>)
    ensures
        match r {
            Some(i) => find(s@, p@) == Some(i as int),
            None => find(s@, p@) is None,
        },
{
    find_from_exec(s, p, 0)
}

/// `p` occurs somewhere in `s`.
pub fn contains_exec(s: &[char], p: &[char]) -> (r: bool)
    ensures
        r == contains(s@, p@),
{
    find_exec(s, p).is_some()
}

/// `s` begins with `p`.
pub fn starts_with_exec(s: &[char], p: &[char]) -> (r: bool)
    ensures
        r == starts_with(s@, p@),
{
    matches_at_exec(s, p, 0)
}

/// `s` ends with `p`.
pub fn ends_with_exec(s: &[char], p: &[char]) -> (r: bool)
    ensures
        r == ends_with(s@, p@),
{
    if p.len() > s.len() {
        false
    } else {
        matches_at_exec(s, p, s.len() - p.len())
    }
}

/// The last position of `c` in `s`.
pub fn rfind_char_exec(s: &[char], c: char) -> (r: Option<usize>)
    ensures
        match r {
            Some(i) => rfind_char(s@, c) == Some(i as int),
            None => rfind_char(s@, c) is None,
        },
{
    let mut end = s.len();
    while end > 0
        invariant
            end <= s@.len(),
            rfind_char(s@, c) == rfind_char_below(s@, c, end as int),
        decreases end,
    {
        if s[end - 1] == c {
            return Some(end - 1);
        }
        end = end - 1;
    }
    None
}

/// The characters `s[a..b]`.
pub fn slice_to_vec(s: &[char], a: usize, b: usize) -> (r: Vec<char>)
    requires
        a <= b <= s@.len(),
    ensures
        r@ == s@.subrange(a as int, b as int),
{
    let mut out: Vec<char> = Vec::new();
    let mut i = a;
    while i < b
        invariant
            a <= i <= b <= s@.len(),
            out@ =~= s@.subrange(a as int, i as int),
        decreases b - i,
    {
        out.push(s[i]);
        i = i + 1;
    }
    out
}

/// `v` followed by `w`.
pub fn append_chars(v: &mut Vec<char>, w: &[char])
    ensures
        final(v)@ == old(v)@ + w@,
{
    let mut i: usize = 0;
    while i < w.len()
        invariant
            i <= w@.len(),
            v@ =~= old(v)@ + w@.subrange(0, i as int),
        decreases w.len() - i,
    {
        v.push(w[i]);
        i = i + 1;
    }
    assert(w@.subrange(0, w@.len() as int) =~= w@);
}

/// `s` split at every occurrence of the non-empty separator `p`.
pub fn split_exec(s: &[char], p: &[char]) -> (r: Vec<Vec<char>>)
    requires
        p@.len() > 0,
    ensures
        r@.map_values(|v: Vec<char>| v@) == split(s@, p@),
{
    let n = s.len();
    let mut out: Vec<Vec<char>> = Vec::new();
    let mut start: usize = 0;
    loop
        invariant
            n == s@.len(),
            p@.len() > 0,
            start <= s@.len(),
            out@.map_values(|v: Vec<char>| v@) + split_from(s@, p@, start as int) == split(s@, p@),
        decreases s@.len() + 1 - start,
    {
        proof {
            lemma_find_from(s@, p@, start as int);
        }
        let ghost prev = out@.map_values(|v: Vec<char>| v@);
        match find_from_exec(s, p, start) {
            Some(i) => {
                let piece = slice_to_vec(s, start, i);
                out.push(piece);
                assert(out@.map_values(|v: Vec<char>| v@) =~= prev.push(s@.subrange(start as int, i as int)));
                assert(split_from(s@, p@, start as int) == seq![s@.subrange(start as int, i as int)]
                    + split_from(s@, p@, i + p@.len()));
                assert(prev.push(s@.subrange(start as int, i as int)) + split_from(s@, p@, i + p@.len())
                    =~= prev + split_from(s@, p@, start as int));
                start = i + p.len();
            },
            None => {
                let piece = slice_to_vec(s, start, s.len());
                out.push(piece);
                assert(out@.map_values(|v: Vec<char>| v@) =~= prev + split_from(s@, p@, start as int));
                return out;
            },
        }
    }
}

/// `s` split into at most `n` pieces at occurrences of the non-empty separator `p`.
pub fn splitn_exec(s: &[char], n: usize, p: &[char]) -> (r: Vec<Vec<char>>)
    requires
        p@.len() > 0,
    ensures
        r@.map_values(|v: Vec<char>| v@) == splitn(s@, n as nat, p@),
{
    let len = s.len();
    let mut out: Vec<Vec<char>> = Vec::new();
    let mut start: usize = 0;
    let mut left: usize = n;
    loop
        invariant
            len == s@.len(),
            p@.len() > 0,
            start <= s@.len(),
            out@.map_values(|v: Vec<char>| v@) + splitn_from(s@, left as nat, p@, start as int)
                == splitn(s@, n as nat, p@),
        decreases left,
    {
        let ghost prev = out@.map_values(|v: Vec<char>| v@);
        if left == 0 {
            assert(prev + splitn_from(s@, left as nat, p@, start as int) =~= prev);
            return out;
        }
        if left == 1 {
            let piece = slice_to_vec(s, start, s.len());
            out.push(piece);
            assert(out@.map_values(|v: Vec<char>| v@) =~= prev + splitn_from(s@, left as nat, p@, start as int));
            return out;
        }
        proof {
            lemma_find_from(s@, p@, start as int);
        }
        match find_from_exec(s, p, start) {
            Some(i) => {
                let piece = slice_to_vec(s, start, i);
                out.push(piece);
                assert(out@.map_values(|v: Vec<char>| v@) =~= prev.push(s@.subrange(start as int, i as int)));
                assert(prev.push(s@.subrange(start as int, i as int))
                    + splitn_from(s@, (left - 1) as nat, p@, i + p@.len())
                    =~= prev + splitn_from(s@, left as nat, p@, start as int));
                start = i + p.len();
                left = left - 1;
            },
            None => {
                let piece = slice_to_vec(s, start, s.len());
                out.push(piece);
                assert(out@.map_values(|v: Vec<char>| v@) =~= prev + splitn_from(s@, left as nat, p@, start as int));
                return out;
            },
        }
    }
}

/// `s` with every occurrence of the non-empty pattern `f` replaced by `t`.
pub fn replace_exec(s: &[char], f: &[char], t: &[char]) -> (r: Vec<char>)
    requires
        f@.len() > 0,
    ensures
        r@ == replace(s@, f@, t@),
{
    let n = s.len();
    let mut out: Vec<char> = Vec::new();
    let mut start: usize = 0;
    loop
        invariant
            n == s@.len(),
            f@.len() > 0,
            start <= s@.len(),
            out@ + replace_from(s@, f@, t@, start as int) == replace(s@, f@, t@),
        decreases s@.len() + 1 - start,
    {
        proof {
            lemma_find_from(s@, f@, start as int);
        }
        let ghost prev = out@;
        match find_from_exec(s, f, start) {
            Some(i) => {
                let piece = slice_to_vec(s, start, i);
                append_chars(&mut out, &piece);
                append_chars(&mut out, t);
                assert(out@ + replace_from(s@, f@, t@, i + f@.len())
                    =~= prev + replace_from(s@, f@, t@, start as int));
                start = i + f.len();
            },
            None => {
                let piece = slice_to_vec(s, start, s.len());
                append_chars(&mut out, &piece);
                return out;
            },
        }
    }
}

/// Whether a trim of kind `k` removes `c`.
pub fn trimmed_by_exec(k: Option<char>, c: char) -> (r: bool)
    ensures
        r == trimmed_by(k, c),
{
    match k {
        None => {
            ('\t' <= c && c <= '\r') || c == ' ' || c == '\u{85}' || c == '\u{a0}' || c == '\u{1680}'
                || ('\u{2000}' <= c && c <= '\u{200a}') || c == '\u{2028}' || c == '\u{2029}'
                || c == '\u{202f}' || c == '\u{205f}' || c == '\u{3000}'
        },
        Some(d) => c == d,
    }
}

/// `s` without its leading and trailing trimmed characters.
pub fn trim_exec(s: &[char], k: Option<char>) -> (r: Vec<char>)
    ensures
        r@ == trim(s@, k),
{
    let mut a: usize = 0;
    while a < s.len() && trimmed_by_exec(k, s[a])
        invariant
            a <= s@.len(),
            first_kept(s@, k, 0) == first_kept(s@, k, a as int),
        decreases s.len() - a,
    {
        a = a + 1;
    }
    if a >= s.len() {
        return Vec::new();
    }
    let mut e: usize = s.len();
    while e > 0 && trimmed_by_exec(k, s[e - 1])
        invariant
            e <= s@.len(),
            last_kept_end(s@, k, s@.len() as int) == last_kept_end(s@, k, e as int),
        decreases e,
    {
        e = e - 1;
    }
    proof {
        lemma_first_kept(s@, k, 0);
        lemma_last_kept_end(s@, k, s@.len() as int, a as int);
    }
    slice_to_vec(s, a, e)
}

// ---------------------------------------------------------------------------
// The same operations on strings
// ---------------------------------------------------------------------------

/// `p` occurs in `s`.
pub fn str_contains(s: &str, p: &str) -> (r: bool)
    ensures
        r == contains(s@, p@),
{
    let sv = chars_of(s);
    let pv = chars_of(p);
    contains_exec(&sv, &pv)
}

/// The first position of `p` in `s`.
pub fn str_find(s: &str, p: &str) -> (r: Option<usize>)
    ensures
        match r {
            Some(i) => find(s@, p@) == Some(i as int),
            None => find(s@, p@) is None,
        },
{
    let sv = chars_of(s);
    let pv = chars_of(p);
    find_exec(&sv, &pv)
}

/// `s` begins with `p`.
pub fn str_starts_with(s: &str, p: &str) -> (r: bool)
    ensures
        r == starts_with(s@, p@),
{
    let sv = chars_of(s);
    let pv = chars_of(p);
    starts_with_exec(&sv, &pv)
}

/// `s` ends with `p`.
pub fn str_ends_with(s: &str, p: &str) -> (r: bool)
    ensures
        r == ends_with(s@, p@),
{
    let sv = chars_of(s);
    let pv = chars_of(p);
    ends_with_exec(&sv, &pv)
}

/// `s` with every occurrence of the non-empty `f` replaced by `t`.
pub fn str_replace(s: &str, f: &str, t: &str) -> (r: String)
    requires
        f@.len() > 0,
    ensures
        r@ == replace(s@, f@, t@),
{
    let sv = chars_of(s);
    let fv = chars_of(f);
    let tv = chars_of(t);
    let out = replace_exec(&sv, &fv, &tv);
    string_from_chars(&out)
}

/// `s` trimmed of whitespace (`None`) or of the given character.
pub fn str_trim(s: &str, k: Option<char>) -> (r: String)
    ensures
        r@ == trim(s@, k),
{
    let sv = chars_of(s);
    let out = trim_exec(&sv, k);
    string_from_chars(&out)
}

/// The pieces of `s` between occurrences of the non-empty `p`.
pub fn str_split(s: &str, p: &str) -> (r: Vec<String>)
    requires
        p@.len() > 0,
    ensures
        r.deep_view() == split(s@, p@),
{
    let sv = chars_of(s);
    let pv = chars_of(p);
    let pieces = split_exec(&sv, &pv);
    strings_from(&pieces)
}

/// At most `n` pieces of `s` between occurrences of the non-empty `p`.
pub fn str_splitn(s: &str, n: usize, p: &str) -> (r: Vec<String>)
    requires
        p@.len() > 0,
    ensures
        r.deep_view() == splitn(s@, n as nat, p@),
{
    let sv = chars_of(s);
    let pv = chars_of(p);
    let pieces = splitn_exec(&sv, n, &pv);
    strings_from(&pieces)
}

/// Each character vector as a string.
pub fn strings_from(v: &Vec<Vec<char>>) -> (r: Vec<String>)
    ensures
        r.deep_view() == v@.map_values(|x: Vec<char>| x@),
{
    let mut out: Vec<String> = Vec::new();
    let mut i: usize = 0;
    while i < v.len()
        invariant
            i <= v@.len(),
            out@.len() == i,
            forall|j: int| 0 <= j < i ==> (#[trigger] out@[j])@ == v@[j]@,
        decreases v.len() - i,
    {
        let s = string_from_chars(&v[i]);
        out.push(s);
        i = i + 1;
    }
    assert(out.deep_view() =~= v@.map_values(|x: Vec<char>| x@));
    out
}

/// A copy of `s[a..b]`.
pub fn str_slice(s: &str, a: usize, b: usize) -> (r: String)
    requires
        a <= b <= s@.len(),
    ensures
        r@ == s@.subrange(a as int, b as int),
{
    let sv = chars_of(s);
    let out = slice_to_vec(&sv, a, b);
    string_from_chars(&out)
}

/// `a` followed by `b`.
pub fn concat2(a: &str, b: &str) -> (r: String)
    ensures
        r@ == a@ + b@,
{
    let mut v = chars_of(a);
    let w = chars_of(b);
    append_chars(&mut v, &w);
    string_from_chars(&v)
}

/// `a`, `b` and `c` in a row.
pub fn concat3(a: &str, b: &str, c: &str) -> (r: String)
    ensures
        r@ == a@ + b@ + c@,
{
    let mut v = chars_of(a);
    let w = chars_of(b);
    let x = chars_of(c);
    append_chars(&mut v, &w);
    append_chars(&mut v, &x);
    string_from_chars(&v)
}

/// `a`, `b`, `c` and `d` in a row.
pub fn concat4(a: &str, b: &str, c: &str, d: &str) -> (r: String)
    ensures
        r@ == a@ + b@ + c@ + d@,
{
    let mut v = chars_of(a);
    append_chars(&mut v, &chars_of(b));
    append_chars(&mut v, &chars_of(c));
    append_chars(&mut v, &chars_of(d));
    string_from_chars(&v)
}

/// The number of characters of `s`.
pub fn char_len(s: &str) -> (r: usize)
    ensures
        r == s@.len(),
{
    s.unicode_len()
}

/// The owned string `s`.
pub fn owned(s: &str) -> (r: String)
    ensures
        r@ == s@,
{
    s.to_owned()
}

} // verus!

verus! {

/// `a` and `b` hold the same characters.
pub fn chars_eq(a: &[char], b: &[char]) -> (r: bool)
    ensures
        r == (a@ == b@),
{
    if a.len() != b.len() {
        return false;
    }
    let mut i: usize = 0;
    while i < a.len()
        invariant
            a@.len() == b@.len(),
            i <= a@.len(),
            a@.subrange(0, i as int) =~= b@.subrange(0, i as int),
        decreases a.len() - i,
    {
        if a[i] != b[i] {
            return false;
        }
        i = i + 1;
        assert(a@.subrange(0, i as int) =~= b@.subrange(0, i as int));
    }
    assert(a@ =~= a@.subrange(0, i as int));
    assert(b@ =~= b@.subrange(0, i as int));
    true
}

/// `a` and `b` are the same string.
pub fn str_eq(a: &str, b: &str) -> (r: bool)
    ensures
        r == (a@ == b@),
{
    let av = chars_of(a);
    let bv = chars_of(b);
    chars_eq(&av, &bv)
}

/// `a` and `b` are both absent or both the same string.
pub fn opt_str_eq(a: &Option<String>, b: &Option<String>) -> (r: bool)
    ensures
        r == (a.deep_view() == b.deep_view()),
{
    match (a, b) {
        (Some(x), Some(y)) => str_eq(x.as_str(), y.as_str()),
        (None, None) => true,
        _ => false,
    }
}

/// `s` is among the strings of `v`.
pub fn strings_contain(v: &Vec<String>, s: &str) -> (r: bool)
    ensures
        r == v.deep_view().contains(s@),
{
    let mut i: usize = 0;
    while i < v.len()
        invariant
            i <= v@.len(),
            forall|j: int| 0 <= j < i ==> v.deep_view()[j] != s@,
        decreases v.len() - i,
    {
        if str_eq(v[i].as_str(), s) {
            assert(v.deep_view()[i as int] == s@);
            return true;
        }
        i = i + 1;
    }
    false
}

/// A copy of the strings of `v`.
pub fn copy_strings(v: &Vec<String>) -> (r: Vec<String>)
    ensures
        r.deep_view() == v.deep_view(),
{
    let mut out: Vec<String> = Vec::new();
    let mut i: usize = 0;
    while i < v.len()
        invariant
            i <= v@.len(),
            out@.len() == i,
            forall|j: int| 0 <= j < i ==> (#[trigger] out@[j])@ == v@[j]@,
        decreases v.len() - i,
    {
        out.push(v[i].clone());
        i = i + 1;
    }
    assert(out.deep_view() =~= v.deep_view());
    out
}

/// A copy of an optional string.
pub fn copy_opt(o: &Option<String>) -> (r: Option<String>)
    ensures
        r.deep_view() == o.deep_view(),
{
    match o {
        Some(s) => Some(s.clone()),
        None => None,
    }
}

} // verus!

verus! {

/// The strings of `list` with `sep` between each two (`[String]::join`).
pub open spec fn join(list: Seq<Seq<char>>, sep: Seq<char>) -> Seq<char>
    decreases list.len(),
{
    if list.len() == 0 {
        seq![]
    } else if list.len() == 1 {
        list[0]
    } else {
        join(list.drop_last(), sep) + sep + list.last()
    }
}

/// Joins the strings of `list` with `sep`.
pub fn join_strings(list: &Vec<String>, sep: &str) -> (r: String)
    ensures
        r@ == join(list.deep_view(), sep@),
{
    let sepv = chars_of(sep);
    let mut out: Vec<char> = Vec::new();
    let mut i: usize = 0;
    while i < list.len()
        invariant
            i <= list@.len(),
            sepv@ == sep@,
            out@ == join(list.deep_view().subrange(0, i as int), sep@),
        decreases list.len() - i,
    {
        proof {
            let s = list.deep_view().subrange(0, i + 1);
            assert(s.drop_last() =~= list.deep_view().subrange(0, i as int));
            assert(s.last() == list@[i as int]@);
        }
        if i > 0 {
            append_chars(&mut out, &sepv);
        } else {
            assert(list.deep_view().subrange(0, i as int).len() == 0);
            assert(out@ =~= seq![]);
        }
        let item = chars_of(list[i].as_str());
        append_chars(&mut out, &item);
        i = i + 1;
    }
    assert(list.deep_view().subrange(0, i as int) =~= list.deep_view());
    string_from_chars(&out)
}

} // verus!

verus! {

/// The character of a decimal digit.
pub open spec fn digit(d: int) -> char {
    if d == 0 { '0' } else if d == 1 { '1' } else if d == 2 { '2' } else if d == 3 { '3' } else if d == 4 { '4' }
    else if d == 5 { '5' } else if d == 6 { '6' } else if d == 7 { '7' } else if d == 8 { '8' } else { '9' }
}

/// The decimal digits of `n`, most significant first, as `{}` formats an unsigned number.
pub open spec fn decimal(n: nat) -> Seq<char>
    decreases n,
{
    if n < 10 {
        seq![digit(n as int)]
    } else {
        decimal(n / 10).push(digit((n % 10) as int))
    }
}

/// `s` padded on the left with `0` to at least `w` characters, as `{:0w$}` pads a number.
pub open spec fn zero_pad(s: Seq<char>, w: nat) -> Seq<char> {
    if s.len() >= w {
        s
    } else {
        Seq::new((w - s.len()) as nat, |i: int| '0') + s
    }
}

fn digit_exec(d: usize) -> (r: char)
    requires
        d < 10,
    ensures
        r == digit(d as int),
{
    if d == 0 { '0' } else if d == 1 { '1' } else if d == 2 { '2' } else if d == 3 { '3' } else if d == 4 { '4' }
    else if d == 5 { '5' } else if d == 6 { '6' } else if d == 7 { '7' } else if d == 8 { '8' } else { '9' }
}

/// The decimal digits of `n`.
pub fn decimal_chars(n: usize) -> (r: Vec<char>)
    ensures
        r@ == decimal(n as nat),
{
    let mut out: Vec<char> = Vec::new();
    let mut m = n;
    while m >= 10
        invariant
            decimal(n as nat) == decimal(m as nat) + out@,
        decreases m,
    {
        let d = digit_exec(m % 10);
        out.insert(0, d);
        proof {
            assert(decimal(m as nat) == decimal((m / 10) as nat).push(digit((m % 10) as int)));
        }
        assert(decimal(n as nat) =~= decimal((m / 10) as nat) + out@);
        m = m / 10;
    }
    let mut r: Vec<char> = Vec::new();
    r.push(digit_exec(m));
    append_chars(&mut r, &out);
    assert(r@ =~= decimal(n as nat));
    r
}

/// `n` in decimal, zero-padded to at least `w` digits.
pub fn padded_decimal(n: usize, w: usize) -> (r: String)
    ensures
        r@ == zero_pad(decimal(n as nat), w as nat),
{
    let digits = decimal_chars(n);
    if digits.len() >= w {
        return string_from_chars(&digits);
    }
    let mut out: Vec<char> = Vec::new();
    let pad = w - digits.len();
    let mut i: usize = 0;
    while i < pad
        invariant
            i <= pad,
            out@ =~= Seq::new(i as nat, |j: int| '0'),
        decreases pad - i,
    {
        out.push('0');
        i = i + 1;
    }
    append_chars(&mut out, &digits);
    assert(out@ =~= zero_pad(decimal(n as nat), w as nat));
    string_from_chars(&out)
}

} // verus!
