//! Character-level text utilities shared across the engine.

use vstd::prelude::*;

verus! {

/// Unicode white space, as `char::is_whitespace` classifies it.
pub open spec fn is_wspace(c: char) -> bool {
    ||| c == ' '
    ||| c == '\t'
    ||| c == '\n'
    ||| c == '\u{0B}'
    ||| c == '\u{0C}'
    ||| c == '\r'
    ||| c == '\u{85}'
    ||| c == '\u{A0}'
    ||| c == '\u{1680}'
    ||| ('\u{2000}' <= c && c <= '\u{200A}')
    ||| c == '\u{2028}'
    ||| c == '\u{2029}'
    ||| c == '\u{202F}'
    ||| c == '\u{205F}'
    ||| c == '\u{3000}'
}

/// White-space test on one character.
pub fn is_space_char(c: char) -> (r: bool)
    ensures
        r == is_wspace(c),
{
    c == ' ' || c == '\t' || c == '\n' || c == '\u{0B}' || c == '\u{0C}' || c == '\r' || c
        == '\u{85}' || c == '\u{A0}' || c == '\u{1680}' || (c >= '\u{2000}' && c <= '\u{200A}')
        || c == '\u{2028}' || c == '\u{2029}' || c == '\u{202F}' || c == '\u{205F}' || c
        == '\u{3000}'
}

/// Character-for-character string equality.
pub fn str_eq(a: &str, b: &str) -> (r: bool)
    ensures
        r == (a@ == b@),
{
    let n = a.unicode_len();
    let m = b.unicode_len();
    if n != m {
        proof {
            assert(a@ != b@);
        }
        return false;
    }
    let mut i: usize = 0;
    while i < n
        invariant
            n == a@.len(),
            n == b@.len(),
            0 <= i <= n,
            forall|k: int| 0 <= k < i ==> a@[k] == b@[k],
        decreases n - i,
    {
        if a.get_char(i) != b.get_char(i) {
            proof {
                assert(a@[i as int] != b@[i as int]);
            }
            return false;
        }
        i = i + 1;
    }
    proof {
        assert(a@ =~= b@);
    }
    true
}

/// Number of leading white-space characters.
pub open spec fn leading_ws(s: Seq<char>) -> int
    decreases s.len(),
{
    if s.len() == 0 {
        0
    } else if !is_wspace(s[0]) {
        0
    } else {
        1 + leading_ws(s.drop_first())
    }
}

/// Number of trailing white-space characters.
pub open spec fn trailing_ws(s: Seq<char>) -> int
    decreases s.len(),
{
    if s.len() == 0 {
        0
    } else if !is_wspace(s.last()) {
        0
    } else {
        1 + trailing_ws(s.drop_last())
    }
}

/// What `str::trim` leaves: the text between the leading and the trailing
/// white space.
pub open spec fn trim_spec(s: Seq<char>) -> Seq<char> {
    let u = s.subrange(leading_ws(s), s.len() as int);
    u.subrange(0, u.len() - trailing_ws(u))
}

/// `leading_ws` is the index of the first non-space character (or the
/// length, on all-space text).
pub proof fn lemma_leading_ws(s: Seq<char>)
    ensures
        0 <= leading_ws(s) <= s.len(),
        forall|k: int| 0 <= k < leading_ws(s) ==> is_wspace(#[trigger] s[k]),
        leading_ws(s) < s.len() ==> !is_wspace(s[leading_ws(s)]),
    decreases s.len(),
{
    if s.len() > 0 && is_wspace(s[0]) {
        lemma_leading_ws(s.drop_first());
        assert(forall|k: int|
            1 <= k < leading_ws(s) ==> #[trigger] s[k] == s.drop_first()[k - 1]);
    }
}

/// `trailing_ws` counts the maximal all-space suffix.
pub proof fn lemma_trailing_ws(s: Seq<char>)
    ensures
        0 <= trailing_ws(s) <= s.len(),
        forall|k: int| s.len() - trailing_ws(s) <= k < s.len() ==> is_wspace(#[trigger] s[k]),
        trailing_ws(s) < s.len() ==> !is_wspace(s[s.len() - trailing_ws(s) - 1]),
    decreases s.len(),
{
    if s.len() > 0 && is_wspace(s.last()) {
        lemma_trailing_ws(s.drop_last());
        assert(forall|k: int|
            0 <= k < s.len() - 1 ==> #[trigger] s[k] == s.drop_last()[k]);
    }
}

/// Strip leading and trailing white space.
pub fn trim(s: &str) -> (r: &str)
    ensures
        r@ == trim_spec(s@),
{
    let n = s.unicode_len();
    proof {
        lemma_leading_ws(s@);
    }
    let mut start: usize = 0;
    while start < n && is_space_char(s.get_char(start))
        invariant
            n == s@.len(),
            0 <= start <= n,
            forall|k: int| 0 <= k < start ==> is_wspace(#[trigger] s@[k]),
        decreases n - start,
    {
        start = start + 1;
    }
    proof {
        if start < leading_ws(s@) {
            assert(is_wspace(s@[start as int]));
        }
        assert(start == leading_ws(s@));
    }
    let ghost u = s@.subrange(leading_ws(s@), s@.len() as int);
    proof {
        lemma_trailing_ws(u);
        assert(forall|k: int| 0 <= k < u.len() ==> #[trigger] u[k] == s@[k + start]);
    }
    let mut end: usize = n;
    while end > start && is_space_char(s.get_char(end - 1))
        invariant
            n == s@.len(),
            0 <= start <= end <= n,
            start == leading_ws(s@),
            u == s@.subrange(start as int, n as int),
            forall|k: int| end <= k < n ==> is_wspace(#[trigger] s@[k]),
        decreases end,
    {
        end = end - 1;
    }
    proof {
        let tw = trailing_ws(u);
        if end - start < u.len() - tw {
            let q = u.len() - tw - 1;
            assert(tw < u.len());
            assert(!is_wspace(u[q]));
            assert(u[q] == s@[q + start]);
            assert(q + start >= end);
            assert(is_wspace(s@[q + start]));
        }
        if end - start > u.len() - tw {
            assert(end > start);
            assert(!is_wspace(s@[end - 1]));
            assert(u[end - 1 - start] == s@[end - 1]);
            assert(u.len() - tw <= end - 1 - start < u.len());
            assert(is_wspace(u[end - 1 - start]));
        }
        assert(end - start == u.len() - tw);
        assert(s@.subrange(start as int, end as int) =~= u.subrange(0, u.len() - tw));
    }
    s.substring_char(start, end)
}

/// Whether the text is empty once trimmed: nothing but white space.
pub open spec fn is_blank_spec(s: Seq<char>) -> bool {
    forall|k: int| 0 <= k < s.len() ==> is_wspace(#[trigger] s[k])
}

/// Trimming leaves nothing exactly on all-space text.
pub proof fn lemma_blank_iff_trim_empty(s: Seq<char>)
    ensures
        is_blank_spec(s) <==> trim_spec(s).len() == 0,
{
    lemma_leading_ws(s);
    let u = s.subrange(leading_ws(s), s.len() as int);
    lemma_trailing_ws(u);
    if is_blank_spec(s) {
        assert(leading_ws(s) == s.len());
        assert(u.len() == 0);
    } else {
        if leading_ws(s) < s.len() {
            assert(!is_wspace(u[0]));
            if u.len() - trailing_ws(u) == 0 {
                assert(is_wspace(u[0]));
            }
        }
    }
}

/// Whether the text trims to nothing.
pub fn is_blank(s: &str) -> (r: bool)
    ensures
        r == is_blank_spec(s@),
{
    let n = s.unicode_len();
    let mut i: usize = 0;
    while i < n
        invariant
            n == s@.len(),
            0 <= i <= n,
            forall|k: int| 0 <= k < i ==> is_wspace(#[trigger] s@[k]),
        decreases n - i,
    {
        if !is_space_char(s.get_char(i)) {
            return false;
        }
        i = i + 1;
    }
    true
}

/// Index of the first occurrence of `c` at or after `from`, or -1.
pub open spec fn find_char_spec(s: Seq<char>, c: char, from: int) -> int
    decreases s.len() - from,
{
    if from < 0 || from >= s.len() {
        -1
    } else if s[from] == c {
        from
    } else {
        find_char_spec(s, c, from + 1)
    }
}

/// `find_char_spec` finds the first occurrence at or after `from`.
pub proof fn lemma_find_char(s: Seq<char>, c: char, from: int)
    requires
        0 <= from,
    ensures
        find_char_spec(s, c, from) == -1 ==> forall|k: int|
            from <= k < s.len() ==> #[trigger] s[k] != c,
        find_char_spec(s, c, from) != -1 ==> {
            &&& from <= find_char_spec(s, c, from) < s.len()
            &&& s[find_char_spec(s, c, from)] == c
            &&& forall|k: int| from <= k < find_char_spec(s, c, from) ==> #[trigger] s[k] != c
        },
    decreases s.len() - from,
{
    if from < s.len() && s[from] != c {
        lemma_find_char(s, c, from + 1);
    }
}

/// Find the first occurrence of `c` at or after `from`.
pub fn find_char(s: &str, c: char, from: usize) -> (r: Option<usize>)
    ensures
        match r {
            Some(i) => from <= i && i < s@.len() && i == find_char_spec(s@, c, from as int),
            None => find_char_spec(s@, c, from as int) == -1,
        },
{
    let n = s.unicode_len();
    let mut i: usize = from;
    while i < n
        invariant
            n == s@.len(),
            from <= i,
            forall|k: int| from <= k < i ==> #[trigger] s@[k] != c,
        decreases n - i,
    {
        if s.get_char(i) == c {
            proof {
                lemma_find_char(s@, c, from as int);
                if find_char_spec(s@, c, from as int) == -1 {
                    assert(s@[i as int] != c);
                }
                if find_char_spec(s@, c, from as int) < i {
                    assert(s@[find_char_spec(s@, c, from as int)] == c);
                }
                if find_char_spec(s@, c, from as int) > i {
                    assert(s@[i as int] != c);
                }
            }
            return Some(i);
        }
        i = i + 1;
    }
    proof {
        lemma_find_char(s@, c, from as int);
        if find_char_spec(s@, c, from as int) != -1 {
            assert(s@[find_char_spec(s@, c, from as int)] == c);
        }
    }
    None
}

/// Length of the leading run of characters that are neither white space nor
/// `'/'`: how far a tag name reaches.
pub open spec fn name_len(s: Seq<char>) -> int
    decreases s.len(),
{
    if s.len() == 0 {
        0
    } else if is_wspace(s[0]) || s[0] == '/' {
        0
    } else {
        1 + name_len(s.drop_first())
    }
}

/// `name_len` is the index of the first delimiter (or the length).
pub proof fn lemma_name_len(s: Seq<char>)
    ensures
        0 <= name_len(s) <= s.len(),
        forall|k: int|
            0 <= k < name_len(s) ==> !is_wspace(#[trigger] s[k]) && s[k] != '/',
        name_len(s) < s.len() ==> is_wspace(s[name_len(s)]) || s[name_len(s)] == '/',
    decreases s.len(),
{
    if s.len() > 0 && !is_wspace(s[0]) && s[0] != '/' {
        lemma_name_len(s.drop_first());
        assert(forall|k: int| 1 <= k < name_len(s) ==> #[trigger] s[k] == s.drop_first()[k - 1]);
    }
}

/// Length of the trailing run of `c` characters.
pub open spec fn trailing_run(s: Seq<char>, c: char) -> int
    decreases s.len(),
{
    if s.len() == 0 {
        0
    } else if s.last() != c {
        0
    } else {
        1 + trailing_run(s.drop_last(), c)
    }
}

/// `trailing_run` counts the maximal all-`c` suffix.
pub proof fn lemma_trailing_run(s: Seq<char>, c: char)
    ensures
        0 <= trailing_run(s, c) <= s.len(),
        forall|k: int| s.len() - trailing_run(s, c) <= k < s.len() ==> #[trigger] s[k] == c,
        trailing_run(s, c) < s.len() ==> s[s.len() - trailing_run(s, c) - 1] != c,
    decreases s.len(),
{
    if s.len() > 0 && s.last() == c {
        lemma_trailing_run(s.drop_last(), c);
        assert(forall|k: int| 0 <= k < s.len() - 1 ==> #[trigger] s[k] == s.drop_last()[k]);
    }
}

/// What `str::trim_end_matches` leaves: the text before the trailing run of
/// `c`.
pub open spec fn strip_end_spec(s: Seq<char>, c: char) -> Seq<char> {
    s.subrange(0, s.len() - trailing_run(s, c))
}

/// Strip every trailing `c`.
pub fn strip_end(s: &str, c: char) -> (r: &str)
    ensures
        r@ == strip_end_spec(s@, c),
{
    let n = s.unicode_len();
    proof {
        lemma_trailing_run(s@, c);
    }
    let mut end: usize = n;
    while end > 0 && s.get_char(end - 1) == c
        invariant
            n == s@.len(),
            0 <= end <= n,
            forall|k: int| end <= k < n ==> #[trigger] s@[k] == c,
        decreases end,
    {
        end = end - 1;
    }
    proof {
        let t = trailing_run(s@, c);
        if end < n - t {
            assert(s@[n - t - 1] != c);
            assert(n - t - 1 >= end);
        }
        if end > n - t {
            assert(s@[end - 1] == c);
        }
        assert(end == n - t);
    }
    s.substring_char(0, end)
}

/// ASCII lowercase of one character; other characters stand unchanged.
pub open spec fn lower_char(c: char) -> char {
    if 'A' <= c && c <= 'Z' {
        (((c as u8) + 32) as u8) as char
    } else {
        c
    }
}

/// ASCII lowercase of a character sequence.
pub open spec fn lower_seq(s: Seq<char>) -> Seq<char> {
    Seq::new(s.len(), |i: int| lower_char(s[i]))
}

/// ASCII lowercase of one character.
pub fn lower_char_exec(c: char) -> (r: char)
    ensures
        r == lower_char(c),
{
    if c >= 'A' && c <= 'Z' {
        ((c as u8) + 32) as char
    } else {
        c
    }
}

/// Relies on `String`'s `FromIterator` impl: collecting characters yields
/// the string of exactly those characters.
#[verifier::external_body]
fn chars_to_string(v: &Vec<char>) -> (s: String)
    ensures
        s@ == v@,
{
    v.iter().collect()
}

/// ASCII-lowercase a string.
pub fn to_ascii_lower(s: &str) -> (r: String)
    ensures
        r@ == lower_seq(s@),
{
    let n = s.unicode_len();
    let mut out: Vec<char> = Vec::new();
    let mut i: usize = 0;
    while i < n
        invariant
            n == s@.len(),
            0 <= i <= n,
            out@.len() == i,
            forall|k: int| 0 <= k < i ==> out@[k] == lower_char(#[trigger] s@[k]),
        decreases n - i,
    {
        out.push(lower_char_exec(s.get_char(i)));
        i = i + 1;
    }
    let r = chars_to_string(&out);
    proof {
        assert(r@ =~= lower_seq(s@));
    }
    r
}

} // verus!
