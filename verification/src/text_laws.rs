//! What holds of texts and of numbers in them.
use vstd::prelude::*;
use crate::number::{
    all_digits, decimal, digits_value, is_digit, parse_i64,
};
use crate::subtitle_laws::decimal_reads_back;
use crate::text::{
    find, is_white, join, lemma_find, lemma_find_is, lemma_join_first, lemma_trim_end_is,
    lemma_trim_start_is, lines, occurs, occurs_at, replace_char, rfind, split, to_ascii_lower,
    to_ascii_upper, trim, trim_start, unify_newlines, without_return,
};

verus! {

/// Whether no line end stands in a text.
pub open spec fn is_plain_line(s: Seq<char>) -> bool {
    forall|i: int| 0 <= i < s.len() ==> #[trigger] s[i] != '\n' && s[i] != '\r'
}

/// Whether a text is white space all over.
pub open spec fn is_blank(s: Seq<char>) -> bool {
    forall|i: int| 0 <= i < s.len() ==> is_white(#[trigger] s[i])
}

proof fn lemma_char_at(s: Seq<char>, c: char, i: int)
    requires
        0 <= i < s.len(),
    ensures
        occurs_at(s, seq![c], i) <==> s[i] == c,
{
    let sub = s.subrange(i, i + 1);
    assert(sub[0] == s[i]);
    if s[i] == c {
        assert(sub =~= seq![c]);
    }
}

/// The last occurrence of a pattern is found wherever it stands, and none is found
/// only where there is none.
pub proof fn last_occurrence_is_found(s: Seq<char>, pattern: Seq<char>)
    ensures
        match rfind(s, pattern, s.len() - pattern.len()) {
            Some(i) => occurs_at(s, pattern, i) && forall|j: int|
                j > i ==> !occurs_at(s, pattern, j),
            None => !occurs(s, pattern),
        },
{
    lemma_rfind(s, pattern, s.len() - pattern.len());
}

proof fn lemma_rfind(s: Seq<char>, pattern: Seq<char>, upto: int)
    ensures
        match rfind(s, pattern, upto) {
            Some(i) => i <= upto && occurs_at(s, pattern, i) && forall|j: int|
                i < j <= upto ==> !occurs_at(s, pattern, j),
            None => forall|j: int| j <= upto ==> !occurs_at(s, pattern, j),
        },
    decreases upto + 1,
{
    if upto >= 0 && !occurs_at(s, pattern, upto) {
        lemma_rfind(s, pattern, upto - 1);
    }
}

/// Where the last occurrence of a pattern is known, it is the one that is found.
pub proof fn lemma_rfind_is(s: Seq<char>, pattern: Seq<char>, i: int)
    requires
        occurs_at(s, pattern, i),
        forall|j: int| j > i ==> !occurs_at(s, pattern, j),
    ensures
        rfind(s, pattern, s.len() - pattern.len()) == Some(i),
{
    last_occurrence_is_found(s, pattern);
}

/// Trimming takes off the white space around a text, and nothing of the text.
pub proof fn trimming_takes_off_white_space(before: Seq<char>, s: Seq<char>, after: Seq<char>)
    requires
        is_blank(before),
        is_blank(after),
        s.len() > 0 ==> !is_white(s[0]) && !is_white(s.last()),
    ensures
        trim(before + s + after) == s,
        s.len() > 0 ==> trim_start(before + s + after) == s + after,
{
    let whole = before + s + after;
    if s.len() > 0 {
        let k = before.len() as int;
        assert(whole[k] == s[0]);
        assert forall|j: int| 0 <= j < k implies is_white(#[trigger] whole[j]) by {
            assert(whole[j] == before[j]);
        }
        lemma_trim_start_is(whole, k);
        let t = s + after;
        assert(whole.skip(k) =~= t);
        assert(t[s.len() - 1] == s.last());
        assert forall|j: int| s.len() <= j < t.len() implies is_white(#[trigger] t[j]) by {
            assert(t[j] == after[j - s.len()]);
        }
        lemma_trim_end_is(t, s.len() as int);
        assert(t.take(s.len() as int) =~= s);
    } else {
        assert forall|j: int| 0 <= j < whole.len() implies is_white(#[trigger] whole[j]) by {
            if j < before.len() {
                assert(whole[j] == before[j]);
            } else {
                assert(whole[j] == after[j - before.len()]);
            }
        }
        lemma_trim_start_is(whole, whole.len() as int);
        let t = whole.skip(whole.len() as int);
        lemma_trim_end_is(t, 0);
        assert(trim(whole) =~= s);
    }
}

/// The parts of a text, with the separator between each two, are the text again,
/// and the separator stands in none of them.
pub proof fn parts_join_back(s: Seq<char>, separator: Seq<char>)
    requires
        separator.len() > 0,
    ensures
        join(split(s, separator), separator) == s,
        forall|i: int|
            0 <= i < split(s, separator).len() ==> !occurs(
                #[trigger] split(s, separator)[i],
                separator,
            ),
    decreases s.len(),
{
    lemma_find(s, separator, 0);
    let all = split(s, separator);
    match find(s, separator, 0) {
        Some(i) => {
            let head = s.take(i);
            let rest = s.skip(i + separator.len());
            parts_join_back(rest, separator);
            let others = split(rest, separator);
            lemma_split_len(rest, separator);
            lemma_join_first(all, separator);
            assert(all.skip(1) =~= others);
            assert(s =~= head + separator + rest) by {
                assert(s.subrange(i, i + separator.len()) == separator);
                assert(s =~= head + s.subrange(i, i + separator.len()) + rest);
            }
            assert forall|k: int| 0 <= k < all.len() implies !occurs(
                #[trigger] all[k],
                separator,
            ) by {
                if k == 0 {
                    assert forall|j: int| !occurs_at(head, separator, j) by {
                        if occurs_at(head, separator, j) {
                            assert(head.subrange(j, j + separator.len()) =~= s.subrange(
                                j,
                                j + separator.len(),
                            ));
                            assert(occurs_at(s, separator, j));
                        }
                    }
                } else {
                    assert(all[k] == others[k - 1]);
                }
            }
        },
        None => {
            assert(all =~= seq![s]);
            assert forall|j: int| !occurs_at(s, separator, j) by {}
        },
    }
}

proof fn lemma_split_len(s: Seq<char>, separator: Seq<char>)
    ensures
        split(s, separator).len() > 0,
{
}

/// What a separator parts is parted there: the parts of a text with a separator in
/// it are what stands before the first separator, and the parts of what stands
/// behind.
pub proof fn separators_part(a: Seq<char>, separator: Seq<char>, b: Seq<char>)
    requires
        separator.len() > 0,
        forall|j: int| 0 <= j < a.len() ==> !occurs_at(a + separator + b, separator, j),
    ensures
        split(a + separator + b, separator) == seq![a] + split(b, separator),
{
    let s = a + separator + b;
    let i = a.len() as int;
    assert(s.subrange(i, i + separator.len()) =~= separator);
    lemma_find_is(s, separator, 0, i);
    assert(s.take(i) =~= a);
    assert(s.skip(i + separator.len()) =~= b);
}

/// A text in which the separator does not stand is one part.
pub proof fn nothing_is_parted_without_separator(s: Seq<char>, separator: Seq<char>)
    requires
        separator.len() > 0,
        !occurs(s, separator),
    ensures
        split(s, separator) == seq![s],
{
    lemma_find(s, separator, 0);
}

/// The lines of a text: what stands before its first line end, however that is
/// written, and the lines of what stands behind.
pub proof fn line_ends_part_lines(line: Seq<char>, rest: Seq<char>)
    requires
        is_plain_line(line),
    ensures
        lines(line + seq!['\n'] + rest) == seq![line] + lines(rest),
        lines(line + seq!['\r', '\n'] + rest) == seq![line] + lines(rest),
        line.len() > 0 ==> lines(line) == seq![line],
        lines(Seq::empty()).len() == 0,
{
    let feed = seq!['\n'];
    let s = line + feed + rest;
    let at = line.len() as int;
    lemma_char_at(s, '\n', at);
    assert forall|j: int| 0 <= j < at implies !occurs_at(s, feed, j) by {
        lemma_char_at(s, '\n', j);
        assert(s[j] == line[j]);
    }
    lemma_find_is(s, feed, 0, at);
    assert(s.take(at) =~= line);
    assert(s.skip(at + 1) =~= rest);
    assert(without_return(line) == line) by {
        if line.len() > 0 {
            assert(line[line.len() - 1] != '\r');
        }
    }

    let r = line + seq!['\r', '\n'] + rest;
    lemma_char_at(r, '\n', at + 1);
    assert forall|j: int| 0 <= j < at + 1 implies !occurs_at(r, feed, j) by {
        lemma_char_at(r, '\n', j);
        if j < at {
            assert(r[j] == line[j]);
        }
    }
    lemma_find_is(r, feed, 0, at + 1);
    assert(r.take(at + 1).drop_last() =~= line);
    assert(r.skip(at + 2) =~= rest);

    lemma_find(line, feed, 0);
    if let Some(i) = find(line, feed, 0) {
        lemma_char_at(line, '\n', i);
    }
}

/// Lines are the same text whichever way their ends are written.
pub proof fn line_ends_are_unified(parts: Seq<Seq<char>>)
    requires
        forall|i: int| 0 <= i < parts.len() ==> is_plain_line(#[trigger] parts[i]),
    ensures
        unify_newlines(join(parts, seq!['\n'])) == join(parts, seq!['\n']),
        unify_newlines(join(parts, seq!['\r', '\n'])) == join(parts, seq!['\n']),
        unify_newlines(join(parts, seq!['\r'])) == join(parts, seq!['\n']),
    decreases parts.len(),
{
    if parts.len() == 0 {
    } else if parts.len() == 1 {
        lemma_unify_plain(parts[0], Seq::empty());
        assert(parts[0] + Seq::<char>::empty() =~= parts[0]);
    } else {
        let rest = parts.skip(1);
        assert forall|i: int| 0 <= i < rest.len() implies is_plain_line(#[trigger] rest[i]) by {
            assert(rest[i] == parts[i + 1]);
        }
        line_ends_are_unified(rest);
        lemma_join_first(parts, seq!['\n']);
        lemma_join_first(parts, seq!['\r', '\n']);
        lemma_join_first(parts, seq!['\r']);
        let a = join(rest, seq!['\n']);
        let b = join(rest, seq!['\r', '\n']);
        let c = join(rest, seq!['\r']);
        lemma_unify_plain(parts[0], seq!['\n'] + a);
        lemma_unify_plain(parts[0], seq!['\r', '\n'] + b);
        lemma_unify_plain(parts[0], seq!['\r'] + c);
        assert(parts[0] + (seq!['\n'] + a) =~= parts[0] + seq!['\n'] + a);
        assert(parts[0] + (seq!['\r', '\n'] + b) =~= parts[0] + seq!['\r', '\n'] + b);
        assert(parts[0] + (seq!['\r'] + c) =~= parts[0] + seq!['\r'] + c);
        assert((seq!['\n'] + a).skip(1) =~= a);
        assert((seq!['\r', '\n'] + b).skip(2) =~= b);
        assert((seq!['\r'] + c).skip(1) =~= c);
        // The line behind a carriage return does not start with a line feed.
        if c.len() > 0 {
            lemma_join_first(rest, seq!['\r']);
            if rest[0].len() > 0 {
                assert(c[0] == rest[0][0]);
                assert(is_plain_line(rest[0]));
            } else {
                assert(c[0] == '\r');
            }
        }
    }
}

proof fn lemma_unify_plain(line: Seq<char>, rest: Seq<char>)
    requires
        is_plain_line(line),
    ensures
        unify_newlines(line + rest) == line + unify_newlines(rest),
    decreases line.len(),
{
    let s = line + rest;
    if line.len() == 0 {
        assert(s =~= rest);
        assert(line + unify_newlines(rest) =~= unify_newlines(rest));
    } else {
        let t = line.skip(1);
        assert forall|i: int| 0 <= i < t.len() implies #[trigger] t[i] != '\n' && t[i] != '\r' by {
            assert(t[i] == line[i + 1]);
        }
        lemma_unify_plain(t, rest);
        assert(s.skip(1) =~= t + rest);
        assert(s[0] == line[0]);
        assert(seq![line[0]] + (t + unify_newlines(rest)) =~= line + unify_newlines(rest));
    }
}

/// Replacing a character changes every such character, and no other.
pub proof fn every_character_is_replaced(s: Seq<char>, from: char, to: char, i: int)
    requires
        0 <= i < s.len(),
    ensures
        replace_char(s, from, to).len() == s.len(),
        s[i] == from ==> replace_char(s, from, to)[i] == to,
        s[i] != from ==> replace_char(s, from, to)[i] == s[i],
{
}

/// Small and capital letters of ASCII are 32 apart; no other character changes.
pub proof fn letters_change_case(s: Seq<char>, i: int)
    requires
        0 <= i < s.len(),
    ensures
        to_ascii_lower(s).len() == s.len(),
        to_ascii_upper(s).len() == s.len(),
        0x41 <= s[i] as int <= 0x5a ==> to_ascii_lower(s)[i] as int == s[i] as int + 32,
        !(0x41 <= s[i] as int <= 0x5a) ==> to_ascii_lower(s)[i] == s[i],
        0x61 <= s[i] as int <= 0x7a ==> to_ascii_upper(s)[i] as int == s[i] as int - 32,
        !(0x61 <= s[i] as int <= 0x7a) ==> to_ascii_upper(s)[i] == s[i],
{
}

/// A number is read of its digits, with or without a sign.
pub proof fn numbers_read_back(n: nat)
    requires
        n <= i64::MAX,
    ensures
        parse_i64(decimal(n)) == Some(n as int),
        parse_i64(seq!['+'] + decimal(n)) == Some(n as int),
        parse_i64(seq!['-'] + decimal(n)) == Some(-(n as int)),
{
    decimal_reads_back(n);
    let d = decimal(n);
    assert(is_digit(d[0]));
    assert((seq!['+'] + d).skip(1) =~= d);
    assert((seq!['-'] + d).skip(1) =~= d);
}

/// Zeros before a number do not matter.
pub proof fn leading_zeros_do_not_matter(s: Seq<char>)
    requires
        s.len() > 0,
        forall|i: int| 0 <= i < s.len() ==> '0' <= #[trigger] s[i] <= '9',
    ensures
        parse_i64(seq!['0'] + s) == parse_i64(s),
{
    lemma_leading_zero(s);
    let z = seq!['0'] + s;
    assert forall|i: int| 0 <= i < z.len() implies is_digit(#[trigger] z[i]) by {
        if i > 0 {
            assert(z[i] == s[i - 1]);
        }
    }
    assert('0' <= s[0] <= '9');
    assert(all_digits(s));
}

proof fn lemma_leading_zero(s: Seq<char>)
    ensures
        digits_value(seq!['0'] + s) == digits_value(s),
    decreases s.len(),
{
    let z = seq!['0'] + s;
    if s.len() == 0 {
        assert(z.drop_last() =~= s);
        assert(digits_value(z.drop_last()) == 0);
    } else {
        lemma_leading_zero(s.drop_last());
        assert(z.drop_last() =~= seq!['0'] + s.drop_last());
        assert(z.last() == s.last());
    }
}

/// A text with anything but digits in it, but for a sign before them, is no number.
pub proof fn other_characters_make_no_number(s: Seq<char>, i: int)
    requires
        0 <= i < s.len(),
        !('0' <= s[i] <= '9'),
        i > 0 || (s[0] != '+' && s[0] != '-'),
    ensures
        parse_i64(s) is None,
        parse_i64(Seq::empty()) is None,
        parse_i64(seq!['+']) is None,
        parse_i64(seq!['-']) is None,
{
    if s[0] == '+' || s[0] == '-' {
        assert(s.skip(1)[i - 1] == s[i]);
        assert(!is_digit(s.skip(1)[i - 1]));
    } else {
        assert(!is_digit(s[i]));
    }
}

} // verus!
