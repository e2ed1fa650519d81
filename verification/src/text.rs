//! Character-level text primitives shared by the rest of the library.
//!
//! Text is handled as sequences of `char`; the spec functions below give the
//! meaning of the usual string operations (`trim`, `lines`, `split`, ...).

use vstd::prelude::*;

verus! {

/// Unicode `White_Space`, the property behind `char::is_whitespace`.
pub open spec fn is_ws(c: char) -> bool {
    ||| c == '\t' || c == '\n' || c == '\u{0B}' || c == '\u{0C}' || c == '\r' || c == ' '
    ||| c == '\u{85}' || c == '\u{A0}' || c == '\u{1680}'
    ||| ('\u{2000}' <= c && c <= '\u{200A}')
    ||| c == '\u{2028}' || c == '\u{2029}' || c == '\u{202F}' || c == '\u{205F}'
    ||| c == '\u{3000}'
}

/// Unicode general category `Cc`, the property behind `char::is_control`.
pub open spec fn is_ctrl(c: char) -> bool {
    c <= '\u{1F}' || ('\u{7F}' <= c && c <= '\u{9F}')
}

/// The text without its leading whitespace.
pub open spec fn trim_start(s: Seq<char>) -> Seq<char>
    decreases s.len(),
{
    if s.len() > 0 && is_ws(s[0]) {
        trim_start(s.drop_first())
    } else {
        s
    }
}

/// The text without its trailing whitespace.
pub open spec fn trim_end(s: Seq<char>) -> Seq<char>
    decreases s.len(),
{
    if s.len() > 0 && is_ws(s.last()) {
        trim_end(s.drop_last())
    } else {
        s
    }
}

/// The text without leading and trailing whitespace (`str::trim`).
pub open spec fn trim(s: Seq<char>) -> Seq<char> {
    trim_end(trim_start(s))
}

/// The text without any trailing occurrence of `c` (`trim_end_matches`).
pub open spec fn trim_end_char(s: Seq<char>, c: char) -> Seq<char>
    decreases s.len(),
{
    if s.len() > 0 && s.last() == c {
        trim_end_char(s.drop_last(), c)
    } else {
        s
    }
}

/// The text without any leading occurrence of `c` (`trim_start_matches`).
pub open spec fn trim_start_char(s: Seq<char>, c: char) -> Seq<char>
    decreases s.len(),
{
    if s.len() > 0 && s[0] == c {
        trim_start_char(s.drop_first(), c)
    } else {
        s
    }
}

/// `p` is a prefix of `s`.
pub open spec fn has_prefix(s: Seq<char>, p: Seq<char>) -> bool {
    p.len() <= s.len() && s.take(p.len() as int) == p
}

/// `p` is a suffix of `s`.
pub open spec fn has_suffix(s: Seq<char>, p: Seq<char>) -> bool {
    p.len() <= s.len() && s.skip(s.len() - p.len()) == p
}

/// `p` occurs in `s` at position `i`.
pub open spec fn occurs_at(s: Seq<char>, p: Seq<char>, i: int) -> bool {
    0 <= i && i + p.len() <= s.len() && s.subrange(i, i + p.len()) == p
}

/// Position of the first occurrence of `c` at or after `i`, or -1.
pub open spec fn find_char_from(s: Seq<char>, c: char, i: int) -> int
    decreases s.len() - i,
{
    if i < 0 || i >= s.len() {
        -1
    } else if s[i] == c {
        i
    } else {
        find_char_from(s, c, i + 1)
    }
}

/// Position of the first occurrence of the nonempty `p` at or after `i`, or -1.
pub open spec fn find_from(s: Seq<char>, p: Seq<char>, i: int) -> int
    decreases s.len() + 1 - i,
{
    if i < 0 || i + p.len() > s.len() {
        -1
    } else if occurs_at(s, p, i) {
        i
    } else {
        find_from(s, p, i + 1)
    }
}

/// `p` occurs somewhere in `s` (`str::contains` with a string pattern).
pub open spec fn contains_seq(s: Seq<char>, p: Seq<char>) -> bool {
    exists|i: int| occurs_at(s, p, i)
}

/// A line without a `\r` that ended it before its `\n`.
pub open spec fn strip_cr(s: Seq<char>) -> Seq<char> {
    if s.len() > 0 && s.last() == '\r' {
        s.drop_last()
    } else {
        s
    }
}

/// The lines of a text (`str::lines`): split after each `\n`, a `\r` before
/// a `\n` dropped, and no empty line after a final `\n`.
pub open spec fn lines(s: Seq<char>) -> Seq<Seq<char>>
    decreases s.len(),
{
    if s.len() == 0 {
        seq![]
    } else {
        let i = find_char_from(s, '\n', 0);
        proof {
            lemma_find_char_result(s, '\n', 0);
        }
        if i < 0 {
            seq![s]
        } else {
            seq![strip_cr(s.take(i))] + lines(s.skip(i + 1))
        }
    }
}

/// ASCII lowercase of one character.
pub open spec fn lower_char(c: char) -> char {
    if 'A' <= c && c <= 'Z' {
        ((c as u32) + 32) as char
    } else {
        c
    }
}

/// ASCII lowercase of a text (`to_ascii_lowercase`).
pub open spec fn ascii_lower(s: Seq<char>) -> Seq<char> {
    s.map_values(|c: char| lower_char(c))
}

/// Number of bytes of one character in UTF-8.
pub open spec fn char_utf8_len(c: char) -> nat {
    if (c as u32) < 0x80 {
        1
    } else if (c as u32) < 0x800 {
        2
    } else if (c as u32) < 0x10000 {
        3
    } else {
        4
    }
}

/// Number of bytes of a text in UTF-8 (`str::len`).
pub open spec fn utf8_len(s: Seq<char>) -> nat
    decreases s.len(),
{
    if s.len() == 0 {
        0
    } else {
        utf8_len(s.drop_last()) + char_utf8_len(s.last())
    }
}

proof fn lemma_trim_start_skip(s: Seq<char>, i: int)
    requires
        0 <= i <= s.len(),
        forall|j: int| 0 <= j < i ==> is_ws(#[trigger] s[j]),
    ensures
        trim_start(s) == trim_start(s.skip(i)),
    decreases i,
{
    if i > 0 {
        assert(s.drop_first().skip(i - 1) =~= s.skip(i));
        lemma_trim_start_skip(s.drop_first(), i - 1);
    } else {
        assert(s.skip(0) =~= s);
    }
}

proof fn lemma_trim_end_take(s: Seq<char>, k: int)
    requires
        0 <= k <= s.len(),
        forall|j: int| k <= j < s.len() ==> is_ws(#[trigger] s[j]),
    ensures
        trim_end(s) == trim_end(s.take(k)),
    decreases s.len() - k,
{
    if k < s.len() {
        assert(s.drop_last().take(k) =~= s.take(k));
        lemma_trim_end_take(s.drop_last(), k);
    } else {
        assert(s.take(k) =~= s);
    }
}

proof fn lemma_trim_end_char_take(s: Seq<char>, c: char, k: int)
    requires
        0 <= k <= s.len(),
        forall|j: int| k <= j < s.len() ==> #[trigger] s[j] == c,
    ensures
        trim_end_char(s, c) == trim_end_char(s.take(k), c),
    decreases s.len() - k,
{
    if k < s.len() {
        assert(s.drop_last().take(k) =~= s.take(k));
        lemma_trim_end_char_take(s.drop_last(), c, k);
    } else {
        assert(s.take(k) =~= s);
    }
}

proof fn lemma_find_char_skip(s: Seq<char>, c: char, i: int)
    requires
        0 <= i <= s.len(),
        forall|j: int| 0 <= j < i ==> #[trigger] s[j] != c,
    ensures
        find_char_from(s, c, 0) == find_char_from(s, c, i),
    decreases i,
{
    if i > 0 {
        lemma_find_char_step(s, c, 0, i);
    }
}

proof fn lemma_find_char_step(s: Seq<char>, c: char, a: int, i: int)
    requires
        0 <= a <= i <= s.len(),
        forall|j: int| a <= j < i ==> #[trigger] s[j] != c,
    ensures
        find_char_from(s, c, a) == find_char_from(s, c, i),
    decreases i - a,
{
    if a < i {
        lemma_find_char_step(s, c, a + 1, i);
    }
}

proof fn lemma_find_step(s: Seq<char>, p: Seq<char>, a: int, i: int)
    requires
        0 <= a <= i,
        i + p.len() <= s.len() + 1,
        forall|j: int| a <= j < i ==> !occurs_at(s, p, j),
    ensures
        find_from(s, p, a) == find_from(s, p, i),
    decreases i - a,
{
    if a < i {
        lemma_find_step(s, p, a + 1, i);
    }
}

/// A `find_char_from` result is a position of `c`, and none comes before it.
pub proof fn lemma_find_char_result(s: Seq<char>, c: char, a: int)
    requires
        0 <= a,
    ensures
        find_char_from(s, c, a) == -1 || (a <= find_char_from(s, c, a) < s.len() && s[find_char_from(s, c, a)] == c),
        find_char_from(s, c, a) == -1 ==> forall|j: int| a <= j < s.len() ==> s[j] != c,
        forall|j: int| a <= j < find_char_from(s, c, a) ==> s[j] != c,
    decreases s.len() - a,
{
    if a < s.len() && s[a] != c {
        lemma_find_char_result(s, c, a + 1);
    }
}

/// A `find_from` result is an occurrence of `p`, and none comes before it.
pub proof fn lemma_find_result(s: Seq<char>, p: Seq<char>, a: int)
    requires
        0 <= a,
    ensures
        find_from(s, p, a) == -1 || (a <= find_from(s, p, a) && occurs_at(s, p, find_from(s, p, a))),
        find_from(s, p, a) == -1 ==> forall|j: int| a <= j ==> !occurs_at(s, p, j),
        forall|j: int| a <= j < find_from(s, p, a) ==> !occurs_at(s, p, j),
    decreases s.len() + 1 - a,
{
    if a + p.len() <= s.len() && !occurs_at(s, p, a) {
        lemma_find_result(s, p, a + 1);
    }
}

/// Whether `c` is a Unicode whitespace character (`char::is_whitespace`).
pub fn is_whitespace(c: char) -> (r: bool)
    ensures
        r == is_ws(c),
{
    c == '\t' || c == '\n' || c == '\u{0B}' || c == '\u{0C}' || c == '\r' || c == ' '
        || c == '\u{85}' || c == '\u{A0}' || c == '\u{1680}' || ('\u{2000}' <= c && c
        <= '\u{200A}') || c == '\u{2028}' || c == '\u{2029}' || c == '\u{202F}' || c
        == '\u{205F}' || c == '\u{3000}'
}

/// Whether `c` is a control character (`char::is_control`).
pub fn is_control(c: char) -> (r: bool)
    ensures
        r == is_ctrl(c),
{
    c <= '\u{1F}' || ('\u{7F}' <= c && c <= '\u{9F}')
}

/// The characters of a string slice, in order.
pub fn chars_of(s: &str) -> (r: Vec<char>)
    ensures
        r@ == s@,
{
    let mut out: Vec<char> = Vec::new();
    for c in iter: s.chars()
        invariant
            iter.seq() == s@,
            out@ == s@.take(iter.index() as int),
    {
        out.push(c);
    }
    out
}

/// The string made of the given characters (`String: FromIterator<char>`).
#[verifier::external_body]
pub(crate) fn string_of(v: &[char]) -> (r: String)
    ensures
        r@ == v@,
{
    v.iter().collect()
}

/// Unicode lowercase of a text (`str::to_lowercase`).
pub uninterp spec fn unicode_lower(s: Seq<char>) -> Seq<char>;

/// The Unicode lowercase of `s` (`str::to_lowercase`).
#[verifier::external_body]
pub(crate) fn to_lowercase(s: &str) -> (r: String)
    ensures
        r@ == unicode_lower(s@),
{
    s.to_lowercase()
}

/// The characters `v[from..to]`.
pub fn slice_chars(v: &[char], from: usize, to: usize) -> (r: Vec<char>)
    requires
        from <= to <= v@.len(),
    ensures
        r@ == v@.subrange(from as int, to as int),
{
    let mut out: Vec<char> = Vec::new();
    let mut i = from;
    while i < to
        invariant
            from <= i <= to <= v@.len(),
            out@ == v@.subrange(from as int, i as int),
        decreases to - i,
    {
        out.push(v[i]);
        i = i + 1;
    }
    out
}

/// Appends `b` to `a`.
pub fn push_all(a: &mut Vec<char>, b: &[char])
    ensures
        final(a)@ == old(a)@ + b@,
{
    let mut i: usize = 0;
    while i < b.len()
        invariant
            0 <= i <= b@.len(),
            a@ == old(a)@ + b@.take(i as int),
        decreases b@.len() - i,
    {
        a.push(b[i]);
        i = i + 1;
        assert(b@.take(i as int) =~= b@.take(i - 1) + seq![b@[i - 1]]);
    }
    assert(b@.take(b@.len() as int) =~= b@);
}

/// `a` and `b` hold the same characters.
pub fn same_chars(a: &[char], b: &[char]) -> (r: bool)
    ensures
        r == (a@ == b@),
{
    if a.len() != b.len() {
        return false;
    }
    let mut i: usize = 0;
    while i < a.len()
        invariant
            a@.len() == b@.len(),
            0 <= i <= a@.len(),
            forall|j: int| 0 <= j < i ==> a@[j] == b@[j],
        decreases a@.len() - i,
    {
        if a[i] != b[i] {
            return false;
        }
        i = i + 1;
    }
    assert(a@ =~= b@);
    true
}

/// Whether the two texts are equal (`==` on `str`).
pub fn text_is(s: &str, t: &str) -> (r: bool)
    ensures
        r == (s@ == t@),
{
    let a = chars_of(s);
    let b = chars_of(t);
    same_chars(a.as_slice(), b.as_slice())
}

/// Whether `v` starts with `p` (`starts_with`).
pub fn starts_with(v: &[char], p: &[char]) -> (r: bool)
    ensures
        r == has_prefix(v@, p@),
{
    if p.len() > v.len() {
        return false;
    }
    let mut i: usize = 0;
    while i < p.len()
        invariant
            p@.len() <= v@.len(),
            0 <= i <= p@.len(),
            forall|j: int| 0 <= j < i ==> v@[j] == p@[j],
        decreases p@.len() - i,
    {
        if v[i] != p[i] {
            assert(v@.take(p@.len() as int)[i as int] != p@[i as int]);
            return false;
        }
        i = i + 1;
    }
    assert(v@.take(p@.len() as int) =~= p@);
    true
}

/// Whether `p` occurs in `v` at position `at`.
pub fn matches_at(v: &[char], p: &[char], at: usize) -> (r: bool)
    ensures
        r == occurs_at(v@, p@, at as int),
{
    if at > v.len() || p.len() > v.len() - at {
        return false;
    }
    let mut i: usize = 0;
    while i < p.len()
        invariant
            at + p@.len() <= v@.len(),
            0 <= i <= p@.len(),
            forall|j: int| 0 <= j < i ==> v@[at + j] == p@[j],
        decreases p@.len() - i,
    {
        assert(at + i < v.len());
        let k: usize = at + i;
        if v[k] != p[i] {
            assert(v@.subrange(at as int, at + p@.len())[i as int] != p@[i as int]);
            return false;
        }
        i = i + 1;
    }
    assert(v@.subrange(at as int, at + p@.len()) =~= p@);
    true
}

/// Whether `v` ends with `p` (`ends_with`).
pub fn ends_with(v: &[char], p: &[char]) -> (r: bool)
    ensures
        r == has_suffix(v@, p@),
{
    if p.len() > v.len() {
        return false;
    }
    let r = matches_at(v, p, v.len() - p.len());
    assert(v@.subrange(v@.len() - p@.len(), v@.len() as int) =~= v@.skip(v@.len() - p@.len()));
    r
}

/// Position of the first `c` at or after `from` (`find` with a char).
pub fn find_char(v: &[char], c: char, from: usize) -> (r: Option<usize>)
    ensures
        match r {
            Some(i) => i as int == find_char_from(v@, c, from as int),
            None => find_char_from(v@, c, from as int) == -1,
        },
{
    if from >= v.len() {
        return None;
    }
    let mut i = from;
    while i < v.len()
        invariant
            from <= i <= v@.len(),
            find_char_from(v@, c, from as int) == find_char_from(v@, c, i as int),
        decreases v@.len() - i,
    {
        if v[i] == c {
            return Some(i);
        }
        i = i + 1;
    }
    None
}

/// Whether `c` occurs in `v` (`contains` with a char).
pub fn contains_char(v: &[char], c: char) -> (r: bool)
    ensures
        r == v@.contains(c),
{
    let f = find_char(v, c, 0);
    proof {
        lemma_find_char_result(v@, c, 0);
    }
    f.is_some()
}

/// Position of the first occurrence of `p` at or after `from`.
pub fn find_seq(v: &[char], p: &[char], from: usize) -> (r: Option<usize>)
    ensures
        match r {
            Some(i) => i as int == find_from(v@, p@, from as int),
            None => find_from(v@, p@, from as int) == -1,
        },
{
    if from > v.len() || p.len() > v.len() - from {
        return None;
    }
    let last = v.len() - p.len();
    let mut i = from;
    loop
        invariant
            last + p@.len() == v@.len(),
            from <= i <= last,
            find_from(v@, p@, from as int) == find_from(v@, p@, i as int),
        decreases last - i,
    {
        if matches_at(v, p, i) {
            return Some(i);
        }
        if i == last {
            assert(find_from(v@, p@, i + 1) == -1);
            return None;
        }
        i = i + 1;
    }
}

/// Whether `p` occurs in `v` (`contains` with a string).
pub fn contains_seq_exec(v: &[char], p: &[char]) -> (r: bool)
    ensures
        r == contains_seq(v@, p@),
{
    let f = find_seq(v, p, 0);
    proof {
        lemma_find_result(v@, p@, 0);
        if f.is_none() {
            assert forall|i: int| !occurs_at(v@, p@, i) by {
                if i >= 0 {
                    assert(!occurs_at(v@, p@, i));
                }
            }
        }
    }
    f.is_some()
}

/// Index of the first non-whitespace character.
fn leading_ws(v: &[char]) -> (r: usize)
    ensures
        r <= v@.len(),
        forall|j: int| 0 <= j < r ==> is_ws(#[trigger] v@[j]),
        r < v@.len() ==> !is_ws(v@[r as int]),
{
    let mut i: usize = 0;
    while i < v.len() && is_whitespace(v[i])
        invariant
            0 <= i <= v@.len(),
            forall|j: int| 0 <= j < i ==> is_ws(#[trigger] v@[j]),
        decreases v@.len() - i,
    {
        i = i + 1;
    }
    i
}

/// `v` without leading and trailing whitespace (`str::trim`).
pub fn trim_chars(v: &[char]) -> (r: Vec<char>)
    ensures
        r@ == trim(v@),
{
    let a = leading_ws(v);
    let mut b = v.len();
    while b > a && is_whitespace(v[b - 1])
        invariant
            a <= b <= v@.len(),
            forall|j: int| b <= j < v@.len() ==> is_ws(#[trigger] v@[j]),
        decreases b,
    {
        b = b - 1;
    }
    proof {
        lemma_trim_start_skip(v@, a as int);
        let t = v@.skip(a as int);
        if a < v@.len() {
            assert(t[0] == v@[a as int]);
        }
        assert(trim_start(t) == t);
        lemma_trim_end_take(t, b - a);
        let u = t.take(b - a);
        if b > a {
            assert(u.last() == v@[b - 1]);
        }
        assert(trim_end(u) == u);
        assert(u =~= v@.subrange(a as int, b as int));
    }
    slice_chars(v, a, b)
}

/// `v` without trailing occurrences of `c` (`trim_end_matches`).
pub fn trim_end_matches(v: &[char], c: char) -> (r: Vec<char>)
    ensures
        r@ == trim_end_char(v@, c),
{
    let mut b = v.len();
    while b > 0 && v[b - 1] == c
        invariant
            b <= v@.len(),
            forall|j: int| b <= j < v@.len() ==> #[trigger] v@[j] == c,
        decreases b,
    {
        b = b - 1;
    }
    proof {
        lemma_trim_end_char_take(v@, c, b as int);
        let u = v@.take(b as int);
        if b > 0 {
            assert(u.last() == v@[b - 1]);
        }
        assert(trim_end_char(u, c) == u);
        assert(u =~= v@.subrange(0, b as int));
    }
    slice_chars(v, 0, b)
}

/// `v` without leading occurrences of `c` (`trim_start_matches`).
pub fn trim_start_matches(v: &[char], c: char) -> (r: Vec<char>)
    ensures
        r@ == trim_start_char(v@, c),
{
    let mut a: usize = 0;
    assert(v@.skip(0) =~= v@);
    while a < v.len() && v[a] == c
        invariant
            a <= v@.len(),
            trim_start_char(v@, c) == trim_start_char(v@.skip(a as int), c),
        decreases v@.len() - a,
    {
        assert(v@.skip(a as int).drop_first() =~= v@.skip(a + 1));
        a = a + 1;
    }
    proof {
        if a < v@.len() {
            assert(v@.skip(a as int)[0] == v@[a as int]);
        }
        assert(v@.skip(a as int) =~= v@.subrange(a as int, v@.len() as int));
    }
    slice_chars(v, a, v.len())
}

/// The views of a list of strings.
pub open spec fn strs(s: Seq<String>) -> Seq<Seq<char>> {
    s.map_values(|x: String| x@)
}

/// A copy of a list of strings.
pub fn copy_strings(v: &Vec<String>) -> (r: Vec<String>)
    ensures
        strs(r@) == strs(v@),
{
    let mut out: Vec<String> = Vec::new();
    let mut i: usize = 0;
    while i < v.len()
        invariant
            0 <= i <= v@.len(),
            out@.map_values(|s: String| s@) == v@.map_values(|s: String| s@).take(i as int),
        decreases v@.len() - i,
    {
        let ghost before = out@;
        out.push(v[i].clone());
        proof {
            assert(out@.map_values(|s: String| s@) =~= before.map_values(|s: String| s@).push(v@[i as int]@));
            assert(v@.map_values(|s: String| s@).take(i + 1) =~= v@.map_values(|s: String| s@).take(i as int).push(v@[i as int]@));
        }
        i = i + 1;
    }
    assert(v@.map_values(|s: String| s@).take(v@.len() as int) =~= v@.map_values(|s: String| s@));
    out
}

/// ASCII lowercase of `v` (`to_ascii_lowercase`).
pub fn to_ascii_lower(v: &[char]) -> (r: Vec<char>)
    ensures
        r@ == ascii_lower(v@),
{
    let mut out: Vec<char> = Vec::new();
    let mut i: usize = 0;
    while i < v.len()
        invariant
            0 <= i <= v@.len(),
            out@ == ascii_lower(v@.take(i as int)),
        decreases v@.len() - i,
    {
        let c = v[i];
        let l = if 'A' <= c && c <= 'Z' {
            let n = (c as u32) + 32;
            assert(('a' as u32) <= n <= ('z' as u32));
            char_from_ascii_lower(n)
        } else {
            c
        };
        out.push(l);
        proof {
            assert(v@.take(i + 1) =~= v@.take(i as int).push(c));
            assert(ascii_lower(v@.take(i + 1)) =~= ascii_lower(v@.take(i as int)).push(lower_char(c)));
        }
        i = i + 1;
    }
    assert(v@.take(v@.len() as int) =~= v@);
    out
}

/// The character with code `n`, for a lowercase ASCII letter code.
fn char_from_ascii_lower(n: u32) -> (r: char)
    requires
        ('a' as u32) <= n <= ('z' as u32),
    ensures
        r == n as char,
{
    (n as u8) as char
}

/// Number of bytes the UTF-8 encoding of `v` takes (`str::len`).
pub fn utf8_len_of(v: &[char]) -> (r: usize)
    requires
        v@.len() <= usize::MAX / 4,
    ensures
        r == utf8_len(v@),
        r <= 4 * v@.len(),
{
    let mut total: usize = 0;
    let mut i: usize = 0;
    while i < v.len()
        invariant
            v@.len() <= usize::MAX / 4,
            0 <= i <= v@.len(),
            total == utf8_len(v@.take(i as int)),
            total <= 4 * i,
        decreases v@.len() - i,
    {
        let c = v[i];
        let n = c as u32;
        let w: usize = if n < 0x80 {
            1
        } else if n < 0x800 {
            2
        } else if n < 0x10000 {
            3
        } else {
            4
        };
        proof {
            assert(v@.take(i + 1).drop_last() =~= v@.take(i as int));
        }
        total = total + w;
        i = i + 1;
    }
    assert(v@.take(v@.len() as int) =~= v@);
    total
}

/// The views of a sequence of character vectors.
pub open spec fn views(r: Seq<Vec<char>>) -> Seq<Seq<char>> {
    r.map_values(|l: Vec<char>| l@)
}

/// The lines of `v` (`str::lines`).
pub fn split_lines(v: &[char]) -> (r: Vec<Vec<char>>)
    ensures
        views(r@) == lines(v@),
{
    let mut out: Vec<Vec<char>> = Vec::new();
    let mut start: usize = 0;
    assert(v@.skip(0) =~= v@);
    assert(views(out@) + lines(v@) =~= lines(v@));
    while start < v.len()
        invariant
            start <= v@.len(),
            lines(v@) == views(out@) + lines(v@.skip(start as int)),
        decreases v@.len() - start,
    {
        let rest = slice_chars(v, start, v.len());
        assert(rest@ =~= v@.skip(start as int));
        let f = find_char(&rest, '\n', 0);
        proof {
            lemma_find_char_result(rest@, '\n', 0);
        }
        match f {
            None => {
                assert(lines(rest@) == seq![rest@]);
                let ghost before = out@;
                let ghost rv = rest@;
                out.push(rest);
                proof {
                    assert(views(out@) =~= views(before).push(rv));
                    assert(v@.skip(v@.len() as int) =~= Seq::<char>::empty());
                    assert(lines(Seq::<char>::empty()) == Seq::<Seq<char>>::empty());
                    assert(views(before) + seq![rv] =~= views(out@) + lines(Seq::<char>::empty()));
                }
                start = v.len();
            },
            Some(i) => {
                let mut line = slice_chars(&rest, 0, i);
                if i > 0 && rest[i - 1] == '\r' {
                    line.pop();
                }
                proof {
                    assert(line@ =~= strip_cr(rest@.take(i as int)));
                    assert(rest@.skip(i + 1) =~= v@.skip(start + i + 1));
                }
                let ghost before = out@;
                let ghost lv = line@;
                out.push(line);
                proof {
                    assert(views(out@) =~= views(before).push(lv));
                    assert(lines(rest@) == seq![lv] + lines(rest@.skip(i + 1)));
                    assert(views(before) + (seq![lv] + lines(rest@.skip(i + 1))) =~= views(out@) + lines(rest@.skip(i + 1)));
                }
                start = start + i + 1;
            },
        }
    }
    proof {
        assert(v@.skip(start as int) =~= Seq::<char>::empty());
        assert(lines(Seq::<char>::empty()) == Seq::<Seq<char>>::empty());
        assert(views(out@) + seq![] =~= views(out@));
    }
    out
}

/// The decimal digit for `d < 10`.
pub open spec fn digit(d: nat) -> char {
    if d == 0 { '0' } else if d == 1 { '1' } else if d == 2 { '2' } else if d == 3 { '3' }
    else if d == 4 { '4' } else if d == 5 { '5' } else if d == 6 { '6' } else if d == 7 { '7' }
    else if d == 8 { '8' } else { '9' }
}

/// The decimal notation of `n`, without leading zeros.
pub open spec fn decimal(n: nat) -> Seq<char>
    decreases n,
{
    if n < 10 {
        seq![digit(n)]
    } else {
        decimal(n / 10).push(digit(n % 10))
    }
}

fn digit_char(d: u64) -> (r: char)
    requires
        d < 10,
    ensures
        r == digit(d as nat),
{
    if d == 0 { '0' } else if d == 1 { '1' } else if d == 2 { '2' } else if d == 3 { '3' }
    else if d == 4 { '4' } else if d == 5 { '5' } else if d == 6 { '6' } else if d == 7 { '7' }
    else if d == 8 { '8' } else { '9' }
}

/// Appends the decimal notation of `n`.
pub fn push_decimal(out: &mut Vec<char>, n: u64)
    ensures
        final(out)@ == old(out)@ + decimal(n as nat),
    decreases n,
{
    if n >= 10 {
        push_decimal(out, n / 10);
    }
    out.push(digit_char(n % 10));
    proof {
        if n < 10 {
            assert(decimal(n as nat) == seq![digit(n as nat)]);
        }
    }
}

/// The decimal notation of `n` (`n.to_string()`).
pub fn decimal_string(n: usize) -> (r: String)
    ensures
        r@ == decimal(n as nat),
{
    let mut out: Vec<char> = Vec::new();
    push_decimal(&mut out, n as u64);
    assert(out@ =~= decimal(n as nat));
    string_of(&out)
}

/// A text with no whitespace at either end.
pub open spec fn clean_ends(x: Seq<char>) -> bool {
    x.len() == 0 || (!is_ws(x[0]) && !is_ws(x.last()))
}

proof fn lemma_trim_start_front(x: Seq<char>)
    ensures
        trim_start(x).len() > 0 ==> !is_ws(trim_start(x)[0]),
        trim_start(x).len() > 0 ==> trim_start(x).last() == x.last(),
        trim_start(x).len() <= x.len(),
    decreases x.len(),
{
    if x.len() > 0 && is_ws(x[0]) {
        lemma_trim_start_front(x.drop_first());
    }
}

proof fn lemma_trim_end_back(y: Seq<char>)
    ensures
        trim_end(y).len() > 0 ==> !is_ws(trim_end(y).last()),
        trim_end(y).len() > 0 ==> trim_end(y)[0] == y[0],
    decreases y.len(),
{
    if y.len() > 0 && is_ws(y.last()) {
        lemma_trim_end_back(y.drop_last());
    }
}

/// A trimmed text has no whitespace at either end.
pub proof fn lemma_trim_clean(x: Seq<char>)
    ensures
        clean_ends(trim(x)),
{
    lemma_trim_start_front(x);
    lemma_trim_end_back(trim_start(x));
}

/// Trimming leaves a text with no whitespace at either end as it is.
pub proof fn lemma_trim_of_clean(x: Seq<char>)
    requires
        clean_ends(x),
    ensures
        trim(x) == x,
{
}

/// Trimming twice is trimming once.
pub proof fn lemma_trim_idempotent(x: Seq<char>)
    ensures
        trim(trim(x)) == trim(x),
{
    lemma_trim_clean(x);
    lemma_trim_of_clean(trim(x));
}

/// Trimming at the front leaves a tail of the text.
pub proof fn lemma_trim_start_is_tail(s: Seq<char>)
    ensures
        trim_start(s).len() <= s.len(),
        trim_start(s) == s.skip(s.len() - trim_start(s).len()),
    decreases s.len(),
{
    if s.len() > 0 && is_ws(s[0]) {
        lemma_trim_start_is_tail(s.drop_first());
        assert(s.drop_first().skip(s.len() - 1 - trim_start(s).len()) =~= s.skip(s.len() - trim_start(s).len()));
    } else {
        assert(s.skip(0) =~= s);
    }
}

/// Trimming at the back leaves a head of the text.
pub proof fn lemma_trim_end_is_head(s: Seq<char>)
    ensures
        trim_end(s).len() <= s.len(),
        trim_end(s) == s.take(trim_end(s).len() as int),
    decreases s.len(),
{
    if s.len() > 0 && is_ws(s.last()) {
        lemma_trim_end_is_head(s.drop_last());
        assert(s.drop_last().take(trim_end(s).len() as int) =~= s.take(trim_end(s).len() as int));
    } else {
        assert(s.take(s.len() as int) =~= s);
    }
}

/// A trimmed text is a stretch of the text.
pub proof fn lemma_trim_is_stretch(s: Seq<char>) -> (d: int)
    ensures
        0 <= d,
        d + trim(s).len() <= s.len(),
        trim(s) == s.subrange(d, d + trim(s).len()),
{
    lemma_trim_start_is_tail(s);
    lemma_trim_end_is_head(trim_start(s));
    let d = s.len() - trim_start(s).len();
    assert(trim(s) =~= s.subrange(d, d + trim(s).len()));
    d
}

/// Trimming at the front stops inside `a` when `a` is not all whitespace.
pub proof fn lemma_trim_start_concat(a: Seq<char>, b: Seq<char>)
    requires
        trim_start(a).len() > 0,
    ensures
        trim_start(a + b) == trim_start(a) + b,
    decreases a.len(),
{
    if a.len() > 0 && is_ws(a[0]) {
        assert((a + b).drop_first() =~= a.drop_first() + b);
        lemma_trim_start_concat(a.drop_first(), b);
    }
}

/// Trimming at the back stops inside `b` when `b` starts with a character
/// that is not whitespace, and keeps that character.
pub proof fn lemma_trim_end_concat(a: Seq<char>, b: Seq<char>)
    requires
        b.len() > 0,
        !is_ws(b[0]),
    ensures
        trim_end(a + b) == a + trim_end(b),
        trim_end(b).len() > 0,
        trim_end(b)[0] == b[0],
    decreases b.len(),
{
    if is_ws(b.last()) {
        assert((a + b).drop_last() =~= a + b.drop_last());
        lemma_trim_end_concat(a, b.drop_last());
    }
}

/// Trimming the front twice is trimming it once.
pub proof fn lemma_trim_start_twice(s: Seq<char>)
    ensures
        trim_start(trim_start(s)) == trim_start(s),
{
    lemma_trim_start_front(s);
}

} // verus!
