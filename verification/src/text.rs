//! Character-level helpers shared by the report parsers.
//!
//! Text is handled as `Vec<char>` at run time and as `Seq<char>` in
//! contracts. Each helper here mirrors one of the `str` operations that
//! the parsers rely on (`trim`, `lines`, `find`, `parse`, ...) and states
//! its result over a spec function.

use vstd::prelude::*;

verus! {

broadcast use vstd::string::group_string_axioms;

// ───────────────────────── conversions ─────────────────────────

/// The characters of `s`, in order.
pub fn chars_of(s: &str) -> (v: Vec<char>)
    ensures
        v@ == s@,
{
    let mut v: Vec<char> = Vec::new();
    for c in it: s.chars()
        invariant
            v@ == it.seq().take(it.index() as int),
    {
        v.push(c);
    }
    v
}

/// `String::from_iter` over the characters of `v`: the string holds
/// exactly those characters, in order.
#[verifier::external_body]
pub(crate) fn string_from_chars(v: &Vec<char>) -> (s: String)
    ensures
        s@ == v@,
{
    String::from_iter(v.iter())
}

/// A fresh `String` with the characters of `s`.
pub fn string_of(s: &str) -> (r: String)
    ensures
        r@ == s@,
{
    let v = chars_of(s);
    string_from_chars(&v)
}

/// Appends the characters of `s` to `v`.
pub fn push_str(v: &mut Vec<char>, s: &str)
    ensures
        final(v)@ == old(v)@ + s@,
{
    let c = chars_of(s);
    let n = c.len();
    let ghost start = v@;
    for i in 0..n
        invariant
            n == c.len(),
            v@ == start + c@.take(i as int),
    {
        v.push(c[i]);
        assert(c@.take(i + 1) =~= c@.take(i as int).push(c@[i as int]));
    }
    assert(c@.take(n as int) =~= c@);
}


/// Whether the two character vectors are equal.
pub fn chars_eq(a: &Vec<char>, b: &Vec<char>) -> (r: bool)
    ensures
        r == (a@ == b@),
{
    if a.len() != b.len() {
        return false;
    }
    let n = a.len();
    for i in 0..n
        invariant
            n == a.len(),
            n == b.len(),
            forall|j: int| 0 <= j < i ==> a@[j] == b@[j],
    {
        if a[i] != b[i] {
            return false;
        }
    }
    assert(a@ =~= b@);
    true
}

/// Whether the string `s` holds exactly the characters of `v`.
pub fn str_is(s: &str, v: &Vec<char>) -> (r: bool)
    ensures
        r == (s@ == v@),
{
    let c = chars_of(s);
    chars_eq(&c, v)
}

/// A copy of `v[from..to]`.
pub fn slice_chars(v: &Vec<char>, from: usize, to: usize) -> (r: Vec<char>)
    requires
        from <= to <= v.len(),
    ensures
        r@ == v@.subrange(from as int, to as int),
{
    let mut r: Vec<char> = Vec::new();
    let mut i = from;
    while i < to
        invariant
            from <= i <= to <= v.len(),
            r@ == v@.subrange(from as int, i as int),
        decreases to - i,
    {
        r.push(v[i]);
        i = i + 1;
    }
    r
}

// ───────────────────────── whitespace / trimming ─────────────────────────

/// Unicode `White_Space`, the set `char::is_whitespace` tests for.
pub open spec fn is_ws(c: char) -> bool {
    let u = c as u32;
    ||| u == 0x20
    ||| 0x09 <= u <= 0x0d
    ||| u == 0x85
    ||| u == 0xa0
    ||| u == 0x1680
    ||| 0x2000 <= u <= 0x200a
    ||| u == 0x2028
    ||| u == 0x2029
    ||| u == 0x202f
    ||| u == 0x205f
    ||| u == 0x3000
}

/// What a trim removes: whitespace, or the double quote when `quotes`.
pub open spec fn trimmed(c: char, quotes: bool) -> bool {
    if quotes {
        c == '"'
    } else {
        is_ws(c)
    }
}

pub fn is_whitespace(c: char) -> (r: bool)
    ensures
        r == is_ws(c),
{
    let u = c as u32;
    u == 0x20 || (0x09 <= u && u <= 0x0d) || u == 0x85 || u == 0xa0 || u == 0x1680 || (0x2000
        <= u && u <= 0x200a) || u == 0x2028 || u == 0x2029 || u == 0x202f || u == 0x205f || u
        == 0x3000
}

fn is_trimmed(c: char, quotes: bool) -> (r: bool)
    ensures
        r == trimmed(c, quotes),
{
    if quotes {
        c == '"'
    } else {
        is_whitespace(c)
    }
}

/// `s` without its leading trimmed characters.
pub open spec fn trim_start_spec(s: Seq<char>, quotes: bool) -> Seq<char>
    decreases s.len(),
{
    if s.len() > 0 && trimmed(s[0], quotes) {
        trim_start_spec(s.drop_first(), quotes)
    } else {
        s
    }
}

/// `s` without its trailing trimmed characters.
pub open spec fn trim_end_spec(s: Seq<char>, quotes: bool) -> Seq<char>
    decreases s.len(),
{
    if s.len() > 0 && trimmed(s.last(), quotes) {
        trim_end_spec(s.drop_last(), quotes)
    } else {
        s
    }
}

/// `str::trim` (whitespace) or `str::trim_matches('"')` (quotes).
pub open spec fn trim_spec(s: Seq<char>, quotes: bool) -> Seq<char> {
    trim_end_spec(trim_start_spec(s, quotes), quotes)
}

/// Whitespace trim, as `str::trim`.
pub open spec fn trim_ws(s: Seq<char>) -> Seq<char> {
    trim_spec(s, false)
}

pub fn trim_chars(v: &Vec<char>, quotes: bool) -> (r: Vec<char>)
    ensures
        r@ == trim_spec(v@, quotes),
{
    let n = v.len();
    let mut i: usize = 0;
    assert(v@.subrange(0, n as int) =~= v@);
    while i < n && is_trimmed(v[i], quotes)
        invariant
            i <= n == v.len(),
            trim_start_spec(v@, quotes) == trim_start_spec(v@.subrange(i as int, n as int), quotes),
        decreases n - i,
    {
        assert(v@.subrange(i as int, n as int).drop_first() =~= v@.subrange(i + 1, n as int));
        i = i + 1;
    }
    let ghost start = v@.subrange(i as int, n as int);
    assert(trim_start_spec(v@, quotes) == start);
    let mut j: usize = n;
    while j > i && is_trimmed(v[j - 1], quotes)
        invariant
            i <= j <= n == v.len(),
            start == v@.subrange(i as int, n as int),
            trim_end_spec(start, quotes) == trim_end_spec(v@.subrange(i as int, j as int), quotes),
        decreases j,
    {
        assert(v@.subrange(i as int, j as int).drop_last() =~= v@.subrange(i as int, j - 1));
        j = j - 1;
    }
    slice_chars(v, i, j)
}

// ───────────────────────── lines ─────────────────────────

/// Index of the first `c` in `s` at or after `from`, if any.
pub open spec fn index_of_from(s: Seq<char>, c: char, from: int) -> Option<int>
    decreases s.len() - from,
{
    if from < 0 || from >= s.len() {
        None
    } else if s[from] == c {
        Some(from)
    } else {
        index_of_from(s, c, from + 1)
    }
}

/// A line without its `\r` terminator half, as `str::lines` strips it.
pub open spec fn strip_cr(s: Seq<char>) -> Seq<char> {
    if s.len() > 0 && s.last() == '\r' {
        s.drop_last()
    } else {
        s
    }
}

/// `str::lines`: split at `\n`, each `\r\n` taken as one terminator, and
/// no empty line after a final terminator.
pub open spec fn lines_spec(s: Seq<char>) -> Seq<Seq<char>>
    decreases s.len(),
{
    if s.len() == 0 {
        Seq::empty()
    } else {
        match index_of_from(s, '\n', 0) {
            None => seq![s],
            Some(i) => {
                if 0 <= i < s.len() {
                    seq![strip_cr(s.subrange(0, i))] + lines_spec(s.subrange(i + 1, s.len() as int))
                } else {
                    Seq::empty()
                }
            },
        }
    }
}

proof fn lemma_index_of_from_range(s: Seq<char>, c: char, from: int)
    ensures
        index_of_from(s, c, from) matches Some(i) ==> from <= i < s.len() && s[i] == c && forall|
            k: int,
        |
            from <= k < i ==> s[k] != c,
        index_of_from(s, c, from) is None ==> forall|k: int| 0 <= from <= k < s.len() ==> s[k] != c,
    decreases s.len() - from,
{
    if from < 0 || from >= s.len() {
    } else if s[from] == c {
    } else {
        lemma_index_of_from_range(s, c, from + 1);
    }
}

proof fn lemma_index_of_from_shift(s: Seq<char>, c: char, start: int, k: int)
    requires
        0 <= start <= k <= s.len(),
        forall|m: int| start <= m < k ==> s[m] != c,
    ensures
        index_of_from(s.subrange(start, s.len() as int), c, 0) == match index_of_from(s, c, k) {
            Some(i) => Some(i - start),
            None => None::<int>,
        },
    decreases k - start,
{
    let t = s.subrange(start, s.len() as int);
    lemma_index_of_from_range(s, c, k);
    lemma_index_of_from_range(t, c, 0);
    match index_of_from(s, c, k) {
        Some(i) => {
            assert(t[i - start] == c);
            assert forall|m: int| 0 <= m < i - start implies t[m] != c by {
                assert(t[m] == s[m + start]);
            }
            lemma_index_of_from_first(t, c, i - start);
        },
        None => {
            assert forall|m: int| 0 <= m < t.len() implies t[m] != c by {
                assert(t[m] == s[m + start]);
            }
        },
    }
}

proof fn lemma_index_of_from_first(t: Seq<char>, c: char, i: int)
    requires
        0 <= i < t.len(),
        t[i] == c,
        forall|m: int| 0 <= m < i ==> t[m] != c,
    ensures
        index_of_from(t, c, 0) == Some(i),
{
    lemma_index_of_from_first_from(t, c, i, 0);
}

proof fn lemma_index_of_from_first_from(t: Seq<char>, c: char, i: int, from: int)
    requires
        0 <= from <= i < t.len(),
        t[i] == c,
        forall|m: int| from <= m < i ==> t[m] != c,
    ensures
        index_of_from(t, c, from) == Some(i),
    decreases i - from,
{
    if from < i {
        lemma_index_of_from_first_from(t, c, i, from + 1);
    }
}

/// The lines of `v`, as `str::lines` yields them.
pub fn lines_of(v: &Vec<char>) -> (r: Vec<Vec<char>>)
    ensures
        r@.len() == lines_spec(v@).len(),
        forall|k: int| 0 <= k < r@.len() ==> #[trigger] r@[k]@ == lines_spec(v@)[k],
{
    let n = v.len();
    let mut out: Vec<Vec<char>> = Vec::new();
    let mut start: usize = 0;
    let mut i: usize = 0;
    let ghost mut done: Seq<Seq<char>> = Seq::empty();
    assert(v@.subrange(0, n as int) =~= v@);
    assert(done + lines_spec(v@) =~= lines_spec(v@));
    while i < n
        invariant
            start <= i <= n == v.len(),
            forall|m: int| start <= m < i ==> v@[m] != '\n',
            out@.len() == done.len(),
            forall|k: int| 0 <= k < out@.len() ==> #[trigger] out@[k]@ == done[k],
            done + lines_spec(v@.subrange(start as int, n as int)) == lines_spec(v@),
        decreases n - i,
    {
        if v[i] == '\n' {
            let ghost rest = v@.subrange(start as int, n as int);
            proof {
                lemma_index_of_from_shift(v@, '\n', start as int, i as int);
                lemma_index_of_from_first_from(v@, '\n', i as int, i as int);
                assert(rest.subrange(0, i - start) =~= v@.subrange(start as int, i as int));
                assert(rest.subrange(i - start + 1, rest.len() as int) =~= v@.subrange(
                    i + 1,
                    n as int,
                ));
            }
            let mut end = i;
            if end > start && v[end - 1] == '\r' {
                end = end - 1;
            }
            let line = slice_chars(v, start, end);
            assert(line@ =~= strip_cr(v@.subrange(start as int, i as int)));
            proof {
                done = done.push(line@);
                assert(done + lines_spec(v@.subrange(i + 1, n as int)) =~= done.drop_last() + (
                seq![line@] + lines_spec(v@.subrange(i + 1, n as int))));
            }
            out.push(line);
            start = i + 1;
        }
        i = i + 1;
    }
    if start < n {
        let ghost rest = v@.subrange(start as int, n as int);
        proof {
            lemma_index_of_from_shift(v@, '\n', start as int, n as int);
        }
        let line = slice_chars(v, start, n);
        proof {
            done = done.push(line@);
        }
        out.push(line);
    } else {
        assert(v@.subrange(start as int, n as int).len() == 0);
    }
    assert(done =~= lines_spec(v@));
    out
}

// ───────────────────────── searching ─────────────────────────

/// Whether `needle` occurs in `hay` at position `i`.
pub open spec fn occurs_at(hay: Seq<char>, needle: Seq<char>, i: int) -> bool {
    0 <= i && i + needle.len() <= hay.len() && hay.subrange(i, i + needle.len()) == needle
}

/// First position at or after `from` where `needle` occurs in `hay`.
pub open spec fn find_from(hay: Seq<char>, needle: Seq<char>, from: int) -> Option<int>
    decreases hay.len() + 1 - from,
{
    if from < 0 || from + needle.len() > hay.len() {
        None
    } else if occurs_at(hay, needle, from) {
        Some(from)
    } else {
        find_from(hay, needle, from + 1)
    }
}

/// `str::find` with a string pattern: the first position of `needle`.
pub open spec fn find_spec(hay: Seq<char>, needle: Seq<char>) -> Option<int> {
    find_from(hay, needle, 0)
}

pub proof fn lemma_find_from_range(hay: Seq<char>, needle: Seq<char>, from: int)
    ensures
        find_from(hay, needle, from) matches Some(i) ==> from <= i && occurs_at(hay, needle, i),
    decreases hay.len() + 1 - from,
{
    if from < 0 || from + needle.len() > hay.len() {
    } else if occurs_at(hay, needle, from) {
    } else {
        lemma_find_from_range(hay, needle, from + 1);
    }
}

/// Whether `needle` occurs in `hay` at position `i` (run-time check).
pub fn matches_at(hay: &Vec<char>, needle: &Vec<char>, i: usize) -> (r: bool)
    ensures
        r == occurs_at(hay@, needle@, i as int),
{
    if i > hay.len() || needle.len() > hay.len() - i {
        return false;
    }
    let m = needle.len();
    for k in 0..m
        invariant
            m == needle.len(),
            i + m <= hay.len(),
            forall|j: int| 0 <= j < k ==> hay@[i + j] == needle@[j],
    {
        if hay[i + k] != needle[k] {
            assert(hay@.subrange(i as int, i + m)[k as int] != needle@[k as int]);
            return false;
        }
    }
    assert(hay@.subrange(i as int, i + m) =~= needle@);
    true
}

/// `str::find`: the first position of `needle` in `hay`.
pub fn find(hay: &Vec<char>, needle: &Vec<char>) -> (r: Option<usize>)
    ensures
        r matches Some(i) ==> find_spec(hay@, needle@) == Some(i as int) && i + needle.len()
            <= hay.len() && occurs_at(hay@, needle@, i as int),
        r is None ==> find_spec(hay@, needle@) is None,
{
    proof {
        lemma_find_from_range(hay@, needle@, 0);
    }
    let mut i: usize = 0;
    while i <= hay.len() && needle.len() <= hay.len() - i
        invariant
            i <= hay.len() + 1,
            find_spec(hay@, needle@) == find_from(hay@, needle@, i as int),
        decreases hay.len() - i,
    {
        if matches_at(hay, needle, i) {
            return Some(i);
        }
        if i == hay.len() {
            assert(hay@.subrange(i as int, i as int) =~= needle@);
        }
        i = i + 1;
    }
    None
}

/// `s` starts with `p`.
pub open spec fn starts_with(s: Seq<char>, p: Seq<char>) -> bool {
    p.len() <= s.len() && s.subrange(0, p.len() as int) == p
}

pub fn has_prefix(s: &Vec<char>, p: &Vec<char>) -> (r: bool)
    ensures
        r == starts_with(s@, p@),
{
    matches_at(s, p, 0)
}

/// Whether `c` occurs in `v`.
pub fn contains_char(v: &Vec<char>, c: char) -> (r: bool)
    ensures
        r == v@.contains(c),
{
    let n = v.len();
    for i in 0..n
        invariant
            n == v.len(),
            forall|j: int| 0 <= j < i ==> v@[j] != c,
    {
        if v[i] == c {
            return true;
        }
    }
    false
}

// ───────────────────────── ASCII case ─────────────────────────

pub open spec fn lower_char(c: char) -> char {
    if 'A' <= c <= 'Z' {
        ((c as u32) + 32) as char
    } else {
        c
    }
}

pub open spec fn upper_char(c: char) -> char {
    if 'a' <= c <= 'z' {
        ((c as u32) - 32) as char
    } else {
        c
    }
}

/// `str::to_ascii_lowercase`.
pub open spec fn ascii_lower(s: Seq<char>) -> Seq<char> {
    s.map_values(|c: char| lower_char(c))
}

/// `str::to_ascii_uppercase`.
pub open spec fn ascii_upper(s: Seq<char>) -> Seq<char> {
    s.map_values(|c: char| upper_char(c))
}

/// `str::eq_ignore_ascii_case`.
pub open spec fn eq_ignore_case(a: Seq<char>, b: Seq<char>) -> bool {
    ascii_lower(a) == ascii_lower(b)
}

pub fn to_lower_char(c: char) -> (r: char)
    ensures
        r == lower_char(c),
{
    if 'A' <= c && c <= 'Z' {
        let u = (c as u32) + 32;
        proof {
            assert(0x61 <= u <= 0x7a);
        }
        char_from_ascii(u)
    } else {
        c
    }
}

pub fn to_upper_char(c: char) -> (r: char)
    ensures
        r == upper_char(c),
{
    if 'a' <= c && c <= 'z' {
        let u = (c as u32) - 32;
        char_from_ascii(u)
    } else {
        c
    }
}

/// The character with ASCII code `u`.
fn char_from_ascii(u: u32) -> (c: char)
    requires
        u < 0x80,
    ensures
        c == u as char,
{
    let b: u8 = u as u8;
    b as char
}

pub fn to_ascii_lower(v: &Vec<char>) -> (r: Vec<char>)
    ensures
        r@ == ascii_lower(v@),
{
    let mut r: Vec<char> = Vec::new();
    let n = v.len();
    for i in 0..n
        invariant
            n == v.len(),
            r@ == ascii_lower(v@.subrange(0, i as int)),
    {
        r.push(to_lower_char(v[i]));
        assert(ascii_lower(v@.subrange(0, i + 1)) =~= ascii_lower(v@.subrange(0, i as int)).push(
            lower_char(v@[i as int]),
        ));
    }
    assert(v@.subrange(0, n as int) =~= v@);
    r
}

pub fn to_ascii_upper(v: &Vec<char>) -> (r: Vec<char>)
    ensures
        r@ == ascii_upper(v@),
{
    let mut r: Vec<char> = Vec::new();
    let n = v.len();
    for i in 0..n
        invariant
            n == v.len(),
            r@ == ascii_upper(v@.subrange(0, i as int)),
    {
        r.push(to_upper_char(v[i]));
        assert(ascii_upper(v@.subrange(0, i + 1)) =~= ascii_upper(v@.subrange(0, i as int)).push(
            upper_char(v@[i as int]),
        ));
    }
    assert(v@.subrange(0, n as int) =~= v@);
    r
}

pub fn eq_ignore_ascii_case(a: &Vec<char>, b: &Vec<char>) -> (r: bool)
    ensures
        r == eq_ignore_case(a@, b@),
{
    let la = to_ascii_lower(a);
    let lb = to_ascii_lower(b);
    chars_eq(&la, &lb)
}

// ───────────────────────── words ─────────────────────────

/// Length of the leading run of non-whitespace in `s`.
pub open spec fn word_len(s: Seq<char>) -> nat
    decreases s.len(),
{
    if s.len() == 0 || is_ws(s[0]) {
        0
    } else {
        1 + word_len(s.drop_first())
    }
}

/// `str::split_whitespace`: the maximal runs of non-whitespace, in order.
pub open spec fn words(s: Seq<char>) -> Seq<Seq<char>>
    decreases s.len(),
{
    if s.len() == 0 {
        Seq::empty()
    } else if is_ws(s[0]) {
        words(s.drop_first())
    } else {
        let n = word_len(s);
        if 0 < n <= s.len() {
            seq![s.subrange(0, n as int)] + words(s.subrange(n as int, s.len() as int))
        } else {
            Seq::empty()
        }
    }
}

proof fn lemma_word_len(s: Seq<char>)
    ensures
        word_len(s) <= s.len(),
        forall|i: int| 0 <= i < word_len(s) ==> !is_ws(#[trigger] s[i]),
        word_len(s) < s.len() ==> is_ws(s[word_len(s) as int]),
    decreases s.len(),
{
    if s.len() > 0 && !is_ws(s[0]) {
        lemma_word_len(s.drop_first());
        assert forall|i: int| 0 <= i < word_len(s) implies !is_ws(#[trigger] s[i]) by {
            if i > 0 {
                assert(s[i] == s.drop_first()[i - 1]);
            }
        }
        if word_len(s) < s.len() {
            assert(s[word_len(s) as int] == s.drop_first()[word_len(s) - 1]);
        }
    }
}

proof fn lemma_word_len_at(s: Seq<char>, j: int)
    requires
        0 <= j <= s.len(),
        forall|i: int| 0 <= i < j ==> !is_ws(#[trigger] s[i]),
        j == s.len() || is_ws(s[j]),
    ensures
        word_len(s) == j,
    decreases s.len(),
{
    if s.len() > 0 && !is_ws(s[0]) {
        let t = s.drop_first();
        assert forall|i: int| 0 <= i < j - 1 implies !is_ws(#[trigger] t[i]) by {
            assert(t[i] == s[i + 1]);
        }
        if j < s.len() {
            assert(t[j - 1] == s[j]);
        }
        lemma_word_len_at(t, j - 1);
    }
}

/// The first two words of `v`, as `split_whitespace` yields them.
pub fn first_two_words(v: &Vec<char>) -> (r: (Option<Vec<char>>, Option<Vec<char>>))
    ensures
        r.0 matches Some(w) ==> words(v@).len() >= 1 && w@ == words(v@)[0],
        r.0 is None ==> words(v@).len() == 0,
        r.1 matches Some(w) ==> words(v@).len() >= 2 && w@ == words(v@)[1],
        r.1 is None ==> words(v@).len() < 2,
{
    let n = v.len();
    let mut pos: usize = 0;
    let mut found: Vec<Vec<char>> = Vec::new();
    assert(v@.subrange(0, n as int) =~= v@);
    while pos < n && found.len() < 2
        invariant
            pos <= n == v.len(),
            found.len() <= 2,
            forall|k: int| 0 <= k < found.len() ==> #[trigger] found@[k]@ == words(v@)[k],
            words(v@) =~= found@.map_values(|w: Vec<char>| w@) + words(v@.subrange(pos as int, n as int)),
        decreases n - pos, 2 - found.len(),
    {
        let ghost rest = v@.subrange(pos as int, n as int);
        if is_whitespace(v[pos]) {
            assert(rest.drop_first() =~= v@.subrange(pos + 1, n as int));
            pos = pos + 1;
        } else {
            let mut end = pos;
            while end < n && !is_whitespace(v[end])
                invariant
                    pos <= end <= n == v.len(),
                    forall|i: int| pos <= i < end ==> !is_ws(#[trigger] v@[i]),
                decreases n - end,
            {
                end = end + 1;
            }
            proof {
                assert forall|i: int| 0 <= i < end - pos implies !is_ws(#[trigger] rest[i]) by {
                    assert(rest[i] == v@[pos + i]);
                }
                if end < n {
                    assert(rest[end - pos] == v@[end as int]);
                }
                lemma_word_len_at(rest, end - pos);
                assert(rest.subrange(0, end - pos) =~= v@.subrange(pos as int, end as int));
                assert(rest.subrange(end - pos, rest.len() as int) =~= v@.subrange(end as int, n as int));
            }
            let w = slice_chars(v, pos, end);
            let ghost before = found@.map_values(|w: Vec<char>| w@);
            found.push(w);
            assert(found@.map_values(|w: Vec<char>| w@) =~= before.push(w@));
            pos = end;
        }
    }
    let first = if found.len() >= 1 {
        Some(slice_chars(&found[0], 0, found[0].len()))
    } else {
        None
    };
    let second = if found.len() >= 2 {
        Some(slice_chars(&found[1], 0, found[1].len()))
    } else {
        None
    };
    proof {
        if found.len() >= 1 {
            assert(found@[0]@.subrange(0, found@[0]@.len() as int) =~= found@[0]@);
        }
        if found.len() >= 2 {
            assert(found@[1]@.subrange(0, found@[1]@.len() as int) =~= found@[1]@);
        }
    }
    (first, second)
}

} // verus!
