use vstd::prelude::*;
use vstd::string::StringSliceAdditionalSpecFns;

verus! {

/// The number of extended grapheme clusters in a character sequence.  The
/// full Unicode segmentation rules take pages to state, so the count is left
/// abstract and every contract speaks of it through this name.
pub uninterp spec fn grapheme_count(s: Seq<char>) -> nat;

/// The character sequence with leading and trailing whitespace removed.
pub uninterp spec fn trimmed(s: Seq<char>) -> Seq<char>;

/// Relies on unicode_segmentation's `UnicodeSegmentation::graphemes` (with
/// extended grapheme clusters) followed by `Iterator::count`: the number of
/// grapheme clusters depends on the characters alone.
#[verifier::external_body]
fn count_graphemes(s: &str) -> (n: usize)
    ensures
        n == grapheme_count(s@),
{
    unicode_segmentation::UnicodeSegmentation::graphemes(s, true).count()
}

/// Relies on std's `str::trim`: returns the substring with leading and
/// trailing whitespace removed, a function of the characters alone.
#[verifier::external_body]
fn trim_str(s: &str) -> (r: &str)
    ensures
        r@ == trimmed(s@),
{
    s.trim()
}

/// Whether two strings hold the same characters.
pub fn str_eq(a: &str, b: &str) -> (r: bool)
    ensures
        r == (a@ == b@),
{
    broadcast use vstd::utf8::encode_utf8_decode_utf8;

    let ab = a.as_bytes();
    let bb = b.as_bytes();
    let n = ab.len();
    if bb.len() != n {
        proof {
            if a@ == b@ {
                assert(a.spec_bytes() == b.spec_bytes());
            }
        }
        return false;
    }
    let mut i: usize = 0;
    while i < n
        invariant
            i <= n,
            ab@.len() == n,
            bb@.len() == n,
            ab@ == a.spec_bytes(),
            bb@ == b.spec_bytes(),
            forall|j: int| 0 <= j < i ==> ab@[j] == bb@[j],
        decreases n - i,
    {
        if ab[i] != bb[i] {
            proof {
                if a@ == b@ {
                    assert(a.spec_bytes() == b.spec_bytes());
                }
            }
            return false;
        }
        i += 1;
    }
    proof {
        assert(a.spec_bytes() =~= b.spec_bytes());
        assert(vstd::utf8::decode_utf8(vstd::utf8::encode_utf8(a@)) == a@);
        assert(vstd::utf8::decode_utf8(vstd::utf8::encode_utf8(b@)) == b@);
    }
    true
}

/// Relies on std's `String::push`: appends a single character.
#[verifier::external_body]
pub(crate) fn push_char(s: &mut String, c: char)
    ensures
        final(s)@ == old(s)@.push(c),
{
    s.push(c);
}

/// The characters that are rejected in titles, descriptions and display names.
pub open spec fn is_forbidden_char(c: char) -> bool {
    c == '/' || c == '(' || c == ')' || c == '"' || c == '<' || c == '>' || c == '\\' || c == '{'
        || c == '}'
}

/// Whether some character of `s` is in the forbidden set.
pub open spec fn spec_contains_forbidden(s: Seq<char>) -> bool {
    exists|i: int| 0 <= i < s.len() && is_forbidden_char(s[i])
}

fn is_forbidden_character(c: char) -> (r: bool)
    ensures
        r == is_forbidden_char(c),
{
    c == '/' || c == '(' || c == ')' || c == '"' || c == '<' || c == '>' || c == '\\' || c == '{'
        || c == '}'
}

/// Whether `s` holds one of the characters that user-facing text rejects.
pub fn contains_forbidden_characters(s: &str) -> (r: bool)
    ensures
        r == spec_contains_forbidden(s@),
{
    let mut found = false;
    for c in it: s.chars()
        invariant
            it.seq() == s@,
            found == exists|i: int| 0 <= i < it.index() && is_forbidden_char(s@[i]),
    {
        if is_forbidden_character(c) {
            found = true;
        }
    }
    found
}

/// Whether `s` has more than `max` grapheme clusters.
pub fn is_too_long(s: &str, max: usize) -> (r: bool)
    ensures
        r == (grapheme_count(s@) > max),
{
    count_graphemes(s) > max
}

/// Whether `s` is empty once leading and trailing whitespace is removed.
pub fn is_empty_or_whitespace(s: &str) -> (r: bool)
    ensures
        r == (trimmed(s@).len() == 0),
{
    trim_str(s).is_empty()
}

/// The trimmed copy of `s`, as an owned string.
pub fn trim_to_string(s: &str) -> (r: String)
    ensures
        r@ == trimmed(s@),
{
    String::from_str(trim_str(s))
}

/// Whether `c` occurs anywhere in `s`.
pub open spec fn has_char(s: Seq<char>, c: char) -> bool {
    exists|i: int| 0 <= i < s.len() && s[i] == c
}

/// `i` is the position of the first occurrence of `c` in `s`.
pub open spec fn is_first_of(s: Seq<char>, c: char, i: int) -> bool {
    &&& 0 <= i < s.len()
    &&& s[i] == c
    &&& forall|j: int| 0 <= j < i ==> s[j] != c
}

/// `i` is the position of the last occurrence of `c` in `s`.
pub open spec fn is_last_of(s: Seq<char>, c: char, i: int) -> bool {
    &&& 0 <= i < s.len()
    &&& s[i] == c
    &&& forall|j: int| i < j < s.len() ==> s[j] != c
}

/// The position of the first occurrence of `c` in `s` (meaningful only when
/// `has_char(s, c)` holds).
pub open spec fn first_of(s: Seq<char>, c: char) -> int {
    choose|i: int| is_first_of(s, c, i)
}

/// The position of the last occurrence of `c` in `s` (meaningful only when
/// `has_char(s, c)` holds).
pub open spec fn last_of(s: Seq<char>, c: char) -> int {
    choose|i: int| is_last_of(s, c, i)
}

pub proof fn lemma_first_of_unique(s: Seq<char>, c: char, i: int, j: int)
    requires
        is_first_of(s, c, i),
        is_first_of(s, c, j),
    ensures
        i == j,
{
    if i < j {
        assert(s[i] != c);
    } else if j < i {
        assert(s[j] != c);
    }
}

pub proof fn lemma_last_of_unique(s: Seq<char>, c: char, i: int, j: int)
    requires
        is_last_of(s, c, i),
        is_last_of(s, c, j),
    ensures
        i == j,
{
    if i < j {
        assert(s[j] != c);
    } else if j < i {
        assert(s[i] != c);
    }
}

/// The position of the first `c` in `v`, if any.
pub fn find_first(v: &Vec<char>, c: char) -> (r: Option<usize>)
    ensures
        r is None ==> !has_char(v@, c),
        r matches Some(i) ==> is_first_of(v@, c, i as int) && first_of(v@, c) == i as int,
{
    let n = v.len();
    let mut k: usize = 0;
    while k < n
        invariant
            n == v@.len(),
            k <= n,
            forall|j: int| 0 <= j < k ==> v@[j] != c,
        decreases n - k,
    {
        if v[k] == c {
            proof {
                assert(is_first_of(v@, c, k as int));
                lemma_first_of_unique(v@, c, k as int, first_of(v@, c));
            }
            return Some(k);
        }
        k += 1;
    }
    None
}

/// The position of the last `c` in `v`, if any.
pub fn find_last(v: &Vec<char>, c: char) -> (r: Option<usize>)
    ensures
        r is None ==> !has_char(v@, c),
        r matches Some(i) ==> is_last_of(v@, c, i as int) && last_of(v@, c) == i as int,
{
    let n = v.len();
    let mut last: Option<usize> = None;
    let mut k: usize = 0;
    while k < n
        invariant
            n == v@.len(),
            k <= n,
            last is None ==> forall|j: int| 0 <= j < k ==> v@[j] != c,
            last matches Some(i) ==> 0 <= i < k && v@[i as int] == c && (forall|j: int|
                i < j < k ==> v@[j] != c),
        decreases n - k,
    {
        if v[k] == c {
            last = Some(k);
        }
        k += 1;
    }
    proof {
        if let Some(i) = last {
            assert(is_last_of(v@, c, i as int));
            lemma_last_of_unique(v@, c, i as int, last_of(v@, c));
        }
    }
    last
}

/// Whether `pat` occurs in `s` as a contiguous subsequence.
pub open spec fn contains_sub(s: Seq<char>, pat: Seq<char>) -> bool {
    exists|i: int| 0 <= i && i + pat.len() <= s.len() && #[trigger] s.subrange(i, i + pat.len())
        == pat
}

/// Whether the characters of `v` in `[from, to)` equal the characters of `pat`.
pub fn char_span_eq(v: &Vec<char>, from: usize, to: usize, pat: &str) -> (r: bool)
    requires
        from <= to <= v@.len(),
    ensures
        r == (v@.subrange(from as int, to as int) == pat@),
{
    let n = to - from;
    if pat.unicode_len() != n {
        proof {
            assert(v@.subrange(from as int, to as int).len() == n);
        }
        return false;
    }
    let mut j: usize = 0;
    while j < n
        invariant
            from + n == to,
            to <= v.len(),
            v.len() == v@.len(),
            pat@.len() == n,
            j <= n,
            forall|k: int| 0 <= k < j ==> v@[from + k] == pat@[k],
        decreases n - j,
    {
        if v[from + j] != pat.get_char(j) {
            proof {
                assert(v@.subrange(from as int, to as int)[j as int] != pat@[j as int]);
            }
            return false;
        }
        j += 1;
    }
    proof {
        assert(v@.subrange(from as int, to as int) =~= pat@);
    }
    true
}

/// Whether the characters of `v` from `from` on equal the characters of `pat`.
pub fn char_range_eq(v: &Vec<char>, from: usize, pat: &str) -> (r: bool)
    requires
        from <= v@.len(),
    ensures
        r == (v@.skip(from as int) == pat@),
{
    let r = char_span_eq(v, from, v.len(), pat);
    proof {
        assert(v@.subrange(from as int, v@.len() as int) =~= v@.skip(from as int));
    }
    r
}

/// Whether `c` occurs in `v` at or after position `from`.
pub fn has_char_from(v: &Vec<char>, from: usize, c: char) -> (r: bool)
    requires
        from <= v@.len(),
    ensures
        r == has_char(v@.skip(from as int), c),
{
    let n = v.len();
    let mut k: usize = from;
    while k < n
        invariant
            from <= k <= n,
            n == v.len(),
            v.len() == v@.len(),
            forall|j: int| from <= j < k ==> v@[j] != c,
        decreases n - k,
    {
        if v[k] == c {
            proof {
                assert(v@.skip(from as int)[k - from] == c);
            }
            return true;
        }
        k += 1;
    }
    proof {
        if has_char(v@.skip(from as int), c) {
            let w = choose|w: int|
                0 <= w < v@.skip(from as int).len() && v@.skip(from as int)[w] == c;
            assert(v@[from + w] == c);
        }
    }
    false
}

/// Whether the characters of `v` starting at `i` begin with `pat`.
fn window_eq(v: &Vec<char>, i: usize, pat: &str) -> (r: bool)
    requires
        i + pat@.len() <= v@.len(),
    ensures
        r == (v@.subrange(i as int, i as int + pat@.len()) == pat@),
{
    let m = pat.unicode_len();
    let mut j: usize = 0;
    while j < m
        invariant
            m == pat@.len(),
            i + m <= v.len(),
            v.len() == v@.len(),
            j <= m,
            forall|k: int| 0 <= k < j ==> v@[i + k] == pat@[k],
        decreases m - j,
    {
        if v[i + j] != pat.get_char(j) {
            proof {
                assert(v@.subrange(i as int, i as int + pat@.len())[j as int] == v@[i + j]);
            }
            return false;
        }
        j += 1;
    }
    proof {
        assert(v@.subrange(i as int, i as int + pat@.len()) =~= pat@);
    }
    true
}

/// Whether `pat` occurs anywhere in `v`.
pub fn contains_substr(v: &Vec<char>, pat: &str) -> (r: bool)
    ensures
        r == contains_sub(v@, pat@),
{
    let m = pat.unicode_len();
    if m > v.len() {
        return false;
    }
    if m == 0 {
        proof {
            assert(v@.subrange(0, 0 + pat@.len() as int) =~= pat@);
        }
        return true;
    }
    let bound = v.len() - m;
    let mut i: usize = 0;
    while i <= bound
        invariant
            m == pat@.len(),
            0 < m <= v.len(),
            v.len() == v@.len(),
            bound == v.len() - m,
            i <= bound + 1,
            forall|ii: int| 0 <= ii < i ==> #[trigger] v@.subrange(ii, ii + pat@.len()) != pat@,
        decreases bound + 1 - i,
    {
        if window_eq(v, i, pat) {
            return true;
        }
        i += 1;
    }
    false
}

/// Collects the characters of `s`, so that callers can index them directly.
pub fn to_char_vec(s: &str) -> (v: Vec<char>)
    ensures
        v@ == s@,
{
    let mut v: Vec<char> = Vec::new();
    for c in it: s.chars()
        invariant
            it.seq() == s@,
            v@ == s@.take(it.index() as int),
    {
        v.push(c);
        proof {
            assert(v@ =~= s@.take(it.index() as int + 1));
        }
    }
    proof {
        assert(v@ =~= s@);
    }
    v
}

} // verus!
