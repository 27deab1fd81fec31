//! Text as a sequence of characters: searching, splitting, trimming and joining.
use vstd::prelude::*;
use vstd::slice::slice_subrange;

verus! {

/// Whether `pattern` stands in `s` at index `i`.
pub open spec fn occurs_at(s: Seq<char>, pattern: Seq<char>, i: int) -> bool {
    0 <= i && i + pattern.len() <= s.len() && s.subrange(i, i + pattern.len()) == pattern
}

/// Whether `pattern` stands anywhere in `s`.
pub open spec fn occurs(s: Seq<char>, pattern: Seq<char>) -> bool {
    exists|i: int| occurs_at(s, pattern, i)
}

/// The first index at or after `from` at which `pattern` stands in `s`.
pub open spec fn find(s: Seq<char>, pattern: Seq<char>, from: int) -> Option<int>
    decreases s.len() - from + 1,
{
    if from < 0 || from + pattern.len() > s.len() {
        None
    } else if occurs_at(s, pattern, from) {
        Some(from)
    } else {
        find(s, pattern, from + 1)
    }
}

/// The last index at or before `upto` at which `pattern` stands in `s`.
pub open spec fn rfind(s: Seq<char>, pattern: Seq<char>, upto: int) -> Option<int>
    decreases upto + 1,
{
    if upto < 0 {
        None
    } else if occurs_at(s, pattern, upto) {
        Some(upto)
    } else {
        rfind(s, pattern, upto - 1)
    }
}

/// `find` gives an occurrence that no earlier one precedes, and gives none
/// only where there is none.
pub proof fn lemma_find(s: Seq<char>, pattern: Seq<char>, from: int)
    requires
        0 <= from,
    ensures
        match find(s, pattern, from) {
            Some(i) => from <= i && occurs_at(s, pattern, i) && forall|j: int|
                from <= j < i ==> !occurs_at(s, pattern, j),
            None => forall|j: int| from <= j ==> !occurs_at(s, pattern, j),
        },
    decreases s.len() - from + 1,
{
    if from + pattern.len() > s.len() {
    } else if occurs_at(s, pattern, from) {
    } else {
        lemma_find(s, pattern, from + 1);
    }
}

/// An occurrence that nothing precedes is what `find` gives.
pub proof fn lemma_find_is(s: Seq<char>, pattern: Seq<char>, from: int, i: int)
    requires
        0 <= from <= i,
        occurs_at(s, pattern, i),
        forall|j: int| from <= j < i ==> !occurs_at(s, pattern, j),
    ensures
        find(s, pattern, from) == Some(i),
    decreases i - from,
{
    if from < i {
        lemma_find_is(s, pattern, from + 1, i);
    }
}

/// The characters of a text.
pub fn chars_of(s: &str) -> (r: Vec<char>)
    ensures
        r@ == s@,
{
    let mut out: Vec<char> = Vec::new();
    for c in it: s.chars()
        invariant
            it.seq() == s@,
            out@ == s@.take(it.index() as int),
    {
        out.push(c);
    }
    out
}

/// Appends characters to a vector of them.
pub fn push_all(out: &mut Vec<char>, more: &[char])
    ensures
        final(out)@ == old(out)@ + more@,
{
    let ghost start = out@;
    let mut i: usize = 0;
    while i < more.len()
        invariant
            i <= more.len(),
            out@ == start + more@.take(i as int),
        decreases more.len() - i,
    {
        out.push(more[i]);
        i = i + 1;
    }
    assert(more@.take(more.len() as int) == more@);
}

/// Whether `pattern` stands in `s` at index `i`.
pub fn is_at(s: &[char], pattern: &[char], i: usize) -> (r: bool)
    requires
        i + pattern.len() <= s.len(),
    ensures
        r == occurs_at(s@, pattern@, i as int),
{
    let mut k: usize = 0;
    while k < pattern.len()
        invariant
            k <= pattern.len(),
            i + pattern.len() <= s.len(),
            forall|j: int| 0 <= j < k ==> s@[i + j] == pattern@[j],
        decreases pattern.len() - k,
    {
        if s[i + k] != pattern[k] {
            assert(s@.subrange(i as int, i + pattern.len())[k as int] != pattern@[k as int]);
            return false;
        }
        k = k + 1;
    }
    assert(s@.subrange(i as int, i + pattern.len()) =~= pattern@);
    true
}

/// The first index at or after `from` at which `pattern` stands in `s`.
pub fn find_in(s: &[char], pattern: &[char], from: usize) -> (r: Option<usize>)
    ensures
        match r {
            Some(i) => find(s@, pattern@, from as int) == Some(i as int),
            None => find(s@, pattern@, from as int) is None,
        },
{
    let mut i: usize = from;
    while i <= s.len() && pattern.len() <= s.len() - i
        invariant
            from <= i,
            find(s@, pattern@, from as int) == find(s@, pattern@, i as int),
        decreases s.len() + 1 - i,
    {
        if is_at(s, pattern, i) {
            return Some(i);
        }
        if i == s.len() {
            assert(find(s@, pattern@, i + 1) is None);
            return None;
        }
        i = i + 1;
    }
    None
}

/// Whether a character has the Unicode property `White_Space`.
pub open spec fn is_white(c: char) -> bool {
    ||| '\u{9}' <= c <= '\u{d}'
    ||| c == '\u{20}'
    ||| c == '\u{85}'
    ||| c == '\u{a0}'
    ||| c == '\u{1680}'
    ||| '\u{2000}' <= c <= '\u{200a}'
    ||| c == '\u{2028}'
    ||| c == '\u{2029}'
    ||| c == '\u{202f}'
    ||| c == '\u{205f}'
    ||| c == '\u{3000}'
}

/// Whether a character has the Unicode property `White_Space`.
pub fn is_whitespace(c: char) -> (r: bool)
    ensures
        r == is_white(c),
{
    ('\u{9}' <= c && c <= '\u{d}') || c == '\u{20}' || c == '\u{85}' || c == '\u{a0}'
        || c == '\u{1680}' || ('\u{2000}' <= c && c <= '\u{200a}') || c == '\u{2028}'
        || c == '\u{2029}' || c == '\u{202f}' || c == '\u{205f}' || c == '\u{3000}'
}

/// Appends a character to a string: `String::push`, which its documentation
/// says appends the given character to the end of the string.
pub assume_specification[ String::push ](s: &mut String, c: char)
    ensures
        final(s)@ == old(s)@.push(c),
;

/// The text that the characters spell.
pub fn text_of(chars: &[char]) -> (r: String)
    ensures
        r@ == chars@,
{
    let mut out: String = String::new();
    let mut i: usize = 0;
    while i < chars.len()
        invariant
            i <= chars.len(),
            out@ == chars@.take(i as int),
        decreases chars.len() - i,
    {
        out.push(chars[i]);
        i = i + 1;
    }
    assert(chars@.take(chars.len() as int) == chars@);
    out
}

/// `s` without the white space that it starts with.
pub open spec fn trim_start(s: Seq<char>) -> Seq<char>
    decreases s.len(),
{
    if s.len() > 0 && is_white(s[0]) {
        trim_start(s.skip(1))
    } else {
        s
    }
}

/// `s` without the white space that it ends with.
pub open spec fn trim_end(s: Seq<char>) -> Seq<char>
    decreases s.len(),
{
    if s.len() > 0 && is_white(s.last()) {
        trim_end(s.drop_last())
    } else {
        s
    }
}

/// `s` without the white space around it.
pub open spec fn trim(s: Seq<char>) -> Seq<char> {
    trim_end(trim_start(s))
}

/// `s` without the white space that it starts with.
pub fn without_leading_white(s: &[char]) -> (r: &[char])
    ensures
        r@ == trim_start(s@),
{
    let mut i: usize = 0;
    assert(s@.skip(0) == s@);
    while i < s.len() && is_whitespace(s[i])
        invariant
            i <= s.len(),
            trim_start(s@) == trim_start(s@.skip(i as int)),
        decreases s.len() - i,
    {
        assert(s@.skip(i as int).skip(1) == s@.skip(i + 1));
        i = i + 1;
    }
    assert(s@.skip(i as int) == s@.subrange(i as int, s.len() as int));
    slice_subrange(s, i, s.len())
}

/// `s` without the white space around it.
pub fn trimmed(s: &[char]) -> (r: &[char])
    ensures
        r@ == trim(s@),
{
    let t: &[char] = without_leading_white(s);
    let mut n: usize = t.len();
    assert(t@.take(n as int) == t@);
    while n > 0 && is_whitespace(t[n - 1])
        invariant
            n <= t.len(),
            trim_end(t@) == trim_end(t@.take(n as int)),
        decreases n,
    {
        assert(t@.take(n as int).drop_last() == t@.take(n - 1));
        n = n - 1;
    }
    assert(t@.take(n as int) == t@.subrange(0, n as int));
    slice_subrange(t, 0, n)
}

/// The texts that a sequence of slices holds.
pub open spec fn texts(parts: Seq<&[char]>) -> Seq<Seq<char>> {
    parts.map_values(|part: &[char]| part@)
}

/// The parts of `s` between the occurrences of `separator`, which are taken
/// from the left and do not overlap. An empty separator separates nothing.
pub open spec fn split(s: Seq<char>, separator: Seq<char>) -> Seq<Seq<char>>
    decreases s.len(),
{
    if separator.len() == 0 {
        seq![s]
    } else {
        match find(s, separator, 0) {
            Some(i) => {
                proof {
                    lemma_find(s, separator, 0);
                }
                seq![s.take(i)] + split(s.skip(i + separator.len()), separator)
            },
            None => seq![s],
        }
    }
}

/// The parts of `s` between the occurrences of `separator`.
pub fn split_on<'a>(s: &'a [char], separator: &[char]) -> (r: Vec<&'a [char]>)
    requires
        separator.len() > 0,
    ensures
        texts(r@) == split(s@, separator@),
        r.len() > 0,
{
    let mut out: Vec<&'a [char]> = Vec::new();
    let mut rest: &'a [char] = s;
    loop
        invariant
            separator.len() > 0,
            split(s@, separator@) == texts(out@) + split(rest@, separator@),
        decreases rest.len(),
    {
        let ghost before = out@;
        match find_in(rest, separator, 0) {
            Some(i) => {
                proof {
                    lemma_find(rest@, separator@, 0);
                }
                let part: &'a [char] = slice_subrange(rest, 0, i);
                let next: &'a [char] = slice_subrange(rest, i + separator.len(), rest.len());
                assert(part@ == rest@.take(i as int));
                assert(next@ == rest@.skip(i + separator.len()));
                out.push(part);
                assert(texts(out@) == texts(before) + seq![part@]);
                rest = next;
            },
            None => {
                out.push(rest);
                assert(texts(out@) == texts(before) + seq![rest@]);
                return out;
            },
        }
    }
}

/// A line without the carriage return that ends it.
pub open spec fn without_return(line: Seq<char>) -> Seq<char> {
    if line.len() > 0 && line.last() == '\r' {
        line.drop_last()
    } else {
        line
    }
}

/// The lines of a text. A line ends with a line feed, before which a carriage
/// return may stand; the last line need not end with one.
pub open spec fn lines(s: Seq<char>) -> Seq<Seq<char>>
    decreases s.len(),
{
    if s.len() == 0 {
        seq![]
    } else {
        match find(s, seq!['\n'], 0) {
            Some(i) => {
                proof {
                    lemma_find(s, seq!['\n'], 0);
                }
                seq![without_return(s.take(i))] + lines(s.skip(i + 1))
            },
            None => seq![s],
        }
    }
}

/// The lines of a text.
pub fn lines_of<'a>(s: &'a [char]) -> (r: Vec<&'a [char]>)
    ensures
        texts(r@) == lines(s@),
{
    let feed: Vec<char> = vec!['\n'];
    assert(feed@ == seq!['\n']);
    let mut out: Vec<&'a [char]> = Vec::new();
    let mut rest: &'a [char] = s;
    assert(texts(out@) + lines(rest@) == lines(rest@));
    while rest.len() > 0
        invariant
            feed@ == seq!['\n'],
            lines(s@) == texts(out@) + lines(rest@),
        decreases rest.len(),
    {
        let ghost before = out@;
        match find_in(rest, feed.as_slice(), 0) {
            Some(i) => {
                proof {
                    lemma_find(rest@, seq!['\n'], 0);
                }
                let whole: &'a [char] = slice_subrange(rest, 0, i);
                let next: &'a [char] = slice_subrange(rest, i + 1, rest.len());
                assert(whole@ == rest@.take(i as int));
                assert(next@ == rest@.skip(i + 1));
                let line: &'a [char] = if i > 0 && whole[i - 1] == '\r' {
                    slice_subrange(whole, 0, i - 1)
                } else {
                    whole
                };
                assert(line@ == without_return(whole@));
                out.push(line);
                assert(texts(out@) == texts(before) + seq![line@]);
                rest = next;
            },
            None => {
                out.push(rest);
                assert(texts(out@) == texts(before) + seq![rest@]);
                return out;
            },
        }
    }
    assert(texts(out@) + lines(rest@) == texts(out@));
    out
}

/// The parts, one after the other, with `separator` between each two.
pub open spec fn join(parts: Seq<Seq<char>>, separator: Seq<char>) -> Seq<char>
    decreases parts.len(),
{
    if parts.len() == 0 {
        seq![]
    } else if parts.len() == 1 {
        parts[0]
    } else {
        join(parts.drop_last(), separator) + separator + parts.last()
    }
}

/// `s` with every `from` in it turned into `to`.
pub open spec fn replace_char(s: Seq<char>, from: char, to: char) -> Seq<char> {
    s.map_values(
        |c: char|
            if c == from {
                to
            } else {
                c
            },
    )
}

/// `s` with every `from` in it turned into `to`.
pub fn replaced(s: &[char], from: char, to: char) -> (r: Vec<char>)
    ensures
        r@ == replace_char(s@, from, to),
{
    let mut out: Vec<char> = Vec::new();
    let mut i: usize = 0;
    while i < s.len()
        invariant
            i <= s.len(),
            out@ == replace_char(s@, from, to).take(i as int),
        decreases s.len() - i,
    {
        out.push(if s[i] == from { to } else { s[i] });
        i = i + 1;
    }
    out
}

/// `s` with `\r\n`, and each `\r` that no `\n` follows, turned into `\n`.
pub open spec fn unify_newlines(s: Seq<char>) -> Seq<char>
    decreases s.len(),
{
    if s.len() == 0 {
        s
    } else if s[0] != '\r' {
        seq![s[0]] + unify_newlines(s.skip(1))
    } else if s.len() > 1 && s[1] == '\n' {
        seq!['\n'] + unify_newlines(s.skip(2))
    } else {
        seq!['\n'] + unify_newlines(s.skip(1))
    }
}

/// `s` with every line end written as `\n`.
pub fn with_unified_newlines(s: &[char]) -> (r: Vec<char>)
    ensures
        r@ == unify_newlines(s@),
{
    let mut out: Vec<char> = Vec::new();
    let mut i: usize = 0;
    assert(s@.skip(0) == s@);
    assert(out@ + unify_newlines(s@) == unify_newlines(s@));
    while i < s.len()
        invariant
            i <= s.len(),
            unify_newlines(s@) == out@ + unify_newlines(s@.skip(i as int)),
        decreases s.len() - i,
    {
        let ghost before = out@;
        assert(s@.skip(i as int).skip(1) == s@.skip(i + 1));
        if s[i] != '\r' {
            out.push(s[i]);
            i = i + 1;
        } else if i + 1 < s.len() && s[i + 1] == '\n' {
            assert(s@.skip(i as int).skip(2) == s@.skip(i + 2));
            out.push('\n');
            i = i + 2;
        } else {
            out.push('\n');
            i = i + 1;
        }
        assert(out@ == before + seq![out@.last()]);
    }
    assert(out@ + unify_newlines(s@.skip(i as int)) == out@);
    out
}

/// `s` without the characters `c` that it starts with.
pub open spec fn trim_start_char(s: Seq<char>, c: char) -> Seq<char>
    decreases s.len(),
{
    if s.len() > 0 && s[0] == c {
        trim_start_char(s.skip(1), c)
    } else {
        s
    }
}

/// `s` without the characters `c` that it starts with.
pub fn without_leading(s: &[char], c: char) -> (r: &[char])
    ensures
        r@ == trim_start_char(s@, c),
{
    let mut i: usize = 0;
    assert(s@.skip(0) == s@);
    while i < s.len() && s[i] == c
        invariant
            i <= s.len(),
            trim_start_char(s@, c) == trim_start_char(s@.skip(i as int), c),
        decreases s.len() - i,
    {
        assert(s@.skip(i as int).skip(1) == s@.skip(i + 1));
        i = i + 1;
    }
    assert(s@.skip(i as int) == s@.subrange(i as int, s.len() as int));
    slice_subrange(s, i, s.len())
}

/// Whether `s` starts with `prefix`.
pub fn starts_with(s: &[char], prefix: &[char]) -> (r: bool)
    ensures
        r == occurs_at(s@, prefix@, 0),
{
    prefix.len() <= s.len() && is_at(s, prefix, 0)
}

/// Whether `s` ends with `suffix`.
pub open spec fn ends_with(s: Seq<char>, suffix: Seq<char>) -> bool {
    occurs_at(s, suffix, s.len() - suffix.len())
}

/// Whether `s` ends with `suffix`.
pub fn has_suffix(s: &[char], suffix: &[char]) -> (r: bool)
    ensures
        r == ends_with(s@, suffix@),
{
    suffix.len() <= s.len() && is_at(s, suffix, s.len() - suffix.len())
}

/// The index of the first white space in `s`, or the length of `s`.
pub open spec fn white_index(s: Seq<char>) -> int
    decreases s.len(),
{
    if s.len() == 0 || is_white(s[0]) {
        0
    } else {
        1 + white_index(s.skip(1))
    }
}

/// `white_index` is the length of the longest start of `s` without white space.
pub proof fn lemma_white_index(s: Seq<char>)
    ensures
        0 <= white_index(s) <= s.len(),
        forall|j: int| 0 <= j < white_index(s) ==> !is_white(#[trigger] s[j]),
        white_index(s) < s.len() ==> is_white(s[white_index(s)]),
    decreases s.len(),
{
    if s.len() == 0 || is_white(s[0]) {
    } else {
        let t = s.skip(1);
        lemma_white_index(t);
        assert forall|j: int| 0 <= j < white_index(s) implies !is_white(#[trigger] s[j]) by {
            if j > 0 {
                assert(s[j] == t[j - 1]);
            }
        }
    }
}

/// Where the first white space stands at `k`, or `s` ends there without any,
/// that is what `white_index` gives.
pub proof fn lemma_white_index_is(s: Seq<char>, k: int)
    requires
        0 <= k <= s.len(),
        forall|j: int| 0 <= j < k ==> !is_white(#[trigger] s[j]),
        k < s.len() ==> is_white(s[k]),
    ensures
        white_index(s) == k,
{
    lemma_white_index(s);
    let w = white_index(s);
    if w < k {
        assert(is_white(s[w]));
    }
}

/// The index of the first white space in `s`, or the length of `s`.
pub fn first_white(s: &[char]) -> (r: usize)
    ensures
        r == white_index(s@),
        r <= s.len(),
{
    let mut i: usize = 0;
    assert(s@.skip(0) == s@);
    while i < s.len() && !is_whitespace(s[i])
        invariant
            i <= s.len(),
            white_index(s@) == i + white_index(s@.skip(i as int)),
        decreases s.len() - i,
    {
        assert(s@.skip(i as int).skip(1) == s@.skip(i + 1));
        i = i + 1;
    }
    i
}

/// An ASCII capital letter as its small letter, any other character as it is.
pub open spec fn ascii_lower(c: char) -> char {
    if 'A' <= c <= 'Z' {
        ((c as int) + 32) as char
    } else {
        c
    }
}

/// `s` with its ASCII capital letters turned into small ones.
pub open spec fn to_ascii_lower(s: Seq<char>) -> Seq<char> {
    s.map_values(|c: char| ascii_lower(c))
}

/// `s` with its ASCII capital letters turned into small ones.
pub fn ascii_lowered(s: &[char]) -> (r: Vec<char>)
    ensures
        r@ == to_ascii_lower(s@),
{
    let mut out: Vec<char> = Vec::new();
    let mut i: usize = 0;
    while i < s.len()
        invariant
            i <= s.len(),
            out@ == to_ascii_lower(s@).take(i as int),
        decreases s.len() - i,
    {
        let c: char = s[i];
        out.push(if 'A' <= c && c <= 'Z' { ((c as u8) + 32u8) as char } else { c });
        i = i + 1;
    }
    out
}

/// An ASCII small letter as its capital, any other character as it is.
pub open spec fn ascii_upper(c: char) -> char {
    if 'a' <= c <= 'z' {
        ((c as int) - 32) as char
    } else {
        c
    }
}

/// `s` with its ASCII small letters turned into capitals.
pub open spec fn to_ascii_upper(s: Seq<char>) -> Seq<char> {
    s.map_values(|c: char| ascii_upper(c))
}

/// `s` with its ASCII small letters turned into capitals.
pub fn ascii_raised(s: &str) -> (r: String)
    ensures
        r@ == to_ascii_upper(s@),
{
    let chars: Vec<char> = chars_of(s);
    let mut out: String = String::new();
    let mut i: usize = 0;
    while i < chars.len()
        invariant
            i <= chars.len(),
            chars@ == s@,
            out@ == to_ascii_upper(s@).take(i as int),
        decreases chars.len() - i,
    {
        let c: char = chars[i];
        out.push(if 'a' <= c && c <= 'z' { ((c as u8) - 32u8) as char } else { c });
        i = i + 1;
    }
    out
}

/// Whether `word` stands anywhere in `s`.
pub fn has_word(s: &[char], word: &str) -> (r: bool)
    ensures
        r == occurs(s@, word@),
{
    let pattern: Vec<char> = chars_of(word);
    proof {
        lemma_find(s@, word@, 0);
    }
    match find_in(s, pattern.as_slice(), 0) {
        Some(_) => true,
        None => false,
    }
}

/// Whether two texts have the same characters.
pub fn same_text(a: &str, b: &str) -> (r: bool)
    ensures
        r == (a@ == b@),
{
    let s: Vec<char> = chars_of(a);
    let t: Vec<char> = chars_of(b);
    if s.len() != t.len() {
        return false;
    }
    let r: bool = is_at(s.as_slice(), t.as_slice(), 0);
    assert(s@.subrange(0, t@.len() as int) =~= s@);
    r
}

/// The last index at which `pattern` stands in `s`.
pub fn rfind_in(s: &[char], pattern: &[char]) -> (r: Option<usize>)
    ensures
        match r {
            Some(i) => rfind(s@, pattern@, s@.len() - pattern@.len()) == Some(i as int) && i
                + pattern.len() <= s.len(),
            None => rfind(s@, pattern@, s@.len() - pattern@.len()) is None,
        },
{
    if pattern.len() > s.len() {
        return None;
    }
    let last: usize = s.len() - pattern.len();
    let mut i: usize = last;
    loop
        invariant
            i <= last,
            last == s.len() - pattern.len(),
            rfind(s@, pattern@, last as int) == rfind(s@, pattern@, i as int),
        decreases i,
    {
        if is_at(s, pattern, i) {
            return Some(i);
        }
        if i == 0 {
            assert(rfind(s@, pattern@, -1) is None);
            return None;
        }
        i = i - 1;
    }
}

/// How many characters of white space `s` starts with.
pub open spec fn leading_white(s: Seq<char>) -> int
    decreases s.len(),
{
    if s.len() > 0 && is_white(s[0]) {
        1 + leading_white(s.skip(1))
    } else {
        0
    }
}

/// `trim_start` leaves out the white space at the start, and no more.
pub proof fn lemma_trim_start(s: Seq<char>)
    ensures
        0 <= leading_white(s) <= s.len(),
        trim_start(s) == s.skip(leading_white(s)),
        forall|j: int| 0 <= j < leading_white(s) ==> is_white(#[trigger] s[j]),
        leading_white(s) < s.len() ==> !is_white(s[leading_white(s)]),
    decreases s.len(),
{
    if s.len() > 0 && is_white(s[0]) {
        let t = s.skip(1);
        lemma_trim_start(t);
        assert(t.skip(leading_white(t)) == s.skip(leading_white(s)));
        assert forall|j: int| 0 <= j < leading_white(s) implies is_white(#[trigger] s[j]) by {
            if j > 0 {
                assert(s[j] == t[j - 1]);
            }
        }
    } else {
        assert(s.skip(0) == s);
    }
}

/// Where white space ends at `k`, so does what `trim_start` leaves out.
pub proof fn lemma_trim_start_is(s: Seq<char>, k: int)
    requires
        0 <= k <= s.len(),
        forall|j: int| 0 <= j < k ==> is_white(#[trigger] s[j]),
        k < s.len() ==> !is_white(s[k]),
    ensures
        trim_start(s) == s.skip(k),
        leading_white(s) == k,
{
    lemma_trim_start(s);
    let l = leading_white(s);
    if l < k {
        assert(is_white(s[l]));
    }
}

/// `trim_end` leaves out the white space at the end, and no more.
pub proof fn lemma_trim_end(s: Seq<char>)
    ensures
        trim_end(s).len() <= s.len(),
        trim_end(s) == s.take(trim_end(s).len() as int),
        forall|j: int| trim_end(s).len() <= j < s.len() ==> is_white(#[trigger] s[j]),
        trim_end(s).len() > 0 ==> !is_white(trim_end(s).last()),
    decreases s.len(),
{
    if s.len() > 0 && is_white(s.last()) {
        let t = s.drop_last();
        lemma_trim_end(t);
        let n = trim_end(t).len() as int;
        assert(t.take(n) == s.take(n));
        assert forall|j: int| n <= j < s.len() implies is_white(#[trigger] s[j]) by {
            if j < s.len() - 1 {
                assert(s[j] == t[j]);
            }
        }
    } else {
        assert(s.take(s.len() as int) == s);
    }
}

/// Where white space starts at `n`, so does what `trim_end` leaves out.
pub proof fn lemma_trim_end_is(s: Seq<char>, n: int)
    requires
        0 <= n <= s.len(),
        forall|j: int| n <= j < s.len() ==> is_white(#[trigger] s[j]),
        n > 0 ==> !is_white(s[n - 1]),
    ensures
        trim_end(s) == s.take(n),
{
    lemma_trim_end(s);
    let m = trim_end(s).len() as int;
    if m < n {
        assert(is_white(s[n - 1]));
    }
    if m > n {
        assert(trim_end(s).last() == s[m - 1]);
        assert(is_white(s[m - 1]));
    }
}

/// A text without white space at its ends is left as it is.
pub proof fn lemma_trim_is(s: Seq<char>)
    requires
        s.len() > 0 ==> !is_white(s[0]) && !is_white(s.last()),
    ensures
        trim(s) == s,
{
    lemma_trim_start_is(s, 0);
    assert(s.skip(0) == s);
    lemma_trim_end_is(s, s.len() as int);
    assert(s.take(s.len() as int) == s);
}

/// What is trimmed has no white space at its ends.
pub proof fn lemma_trim(s: Seq<char>)
    ensures
        trim(s).len() > 0 ==> !is_white(trim(s)[0]) && !is_white(trim(s).last()),
{
    lemma_trim_start(s);
    let t = trim_start(s);
    lemma_trim_end(t);
    if trim(s).len() > 0 {
        assert(t[0] == s[leading_white(s)]);
        assert(trim(s)[0] == t[0]);
    }
}

/// The first part of a joined text, with what follows it.
pub proof fn lemma_join_first(parts: Seq<Seq<char>>, separator: Seq<char>)
    requires
        parts.len() > 0,
    ensures
        join(parts, separator) == if parts.len() == 1 {
            parts[0]
        } else {
            parts[0] + separator + join(parts.skip(1), separator)
        },
    decreases parts.len(),
{
    if parts.len() == 2 {
        assert(join(parts.drop_last(), separator) == parts[0]);
        assert(join(parts.skip(1), separator) == parts[1]);
    } else if parts.len() > 2 {
        let front = parts.drop_last();
        lemma_join_first(front, separator);
        assert(front.skip(1) == parts.skip(1).drop_last());
        assert(join(parts.skip(1), separator) == join(parts.skip(1).drop_last(), separator)
            + separator + parts.last());
        assert(join(parts, separator) == parts[0] + separator + (join(
            parts.skip(1).drop_last(),
            separator,
        ) + separator + parts.last()));
    }
}

/// A text with unified newlines has no carriage return, and unifying it again
/// leaves it as it is.
pub proof fn lemma_unify_twice(s: Seq<char>)
    ensures
        forall|i: int|
            0 <= i < unify_newlines(s).len() ==> #[trigger] unify_newlines(s)[i] != '\r',
        unify_newlines(unify_newlines(s)) == unify_newlines(s),
    decreases s.len(),
{
    if s.len() > 0 {
        let (first, rest) = if s[0] != '\r' {
            (s[0], s.skip(1))
        } else if s.len() > 1 && s[1] == '\n' {
            ('\n', s.skip(2))
        } else {
            ('\n', s.skip(1))
        };
        lemma_unify_twice(rest);
        let u = unify_newlines(s);
        assert(u == seq![first] + unify_newlines(rest));
        assert(u.skip(1) == unify_newlines(rest));
    }
}

/// Leading characters other than line ends come off before or after newlines
/// are unified.
pub proof fn lemma_trim_then_unify(s: Seq<char>, c: char)
    requires
        c != '\r' && c != '\n',
    ensures
        trim_start_char(unify_newlines(s), c) == unify_newlines(trim_start_char(s, c)),
    decreases s.len(),
{
    if s.len() > 0 && s[0] == c {
        lemma_trim_then_unify(s.skip(1), c);
        assert(unify_newlines(s).skip(1) == unify_newlines(s.skip(1)));
    }
}

} // verus!
