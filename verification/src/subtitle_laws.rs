//! What holds of subtitle conversion as a whole.
use vstd::prelude::*;
use crate::json::Json;
use crate::number::{all_digits, decimal, digit_char, digits_value, is_digit};
use crate::subtitles::{
    block_vtt, blocks_cues, blocks_vtt, cue_lines, event_json, has_vtt_header, normalize_line,
    normalize_vtt, srt_blocks, srt_cues, terminated, ticks, timing_line, timing_of, unified_to_vtt,
    vtt, with_points, CueView, Timing,
};
use crate::text::{
    find, is_white, join, leading_white, lemma_find, lemma_find_is, lemma_join_first, lemma_trim,
    lemma_trim_end, lemma_trim_end_is, lemma_trim_is, lemma_trim_start, lemma_trim_start_is,
    lemma_trim_then_unify, lemma_unify_twice, lemma_white_index, lemma_white_index_is, lines,
    occurs_at, replace_char, split, trim, trim_end, trim_start, trim_start_char, unify_newlines,
    white_index, without_return,
};

verus! {

/// The header stands at `k`, and only white space before it.
spec fn header_at(s: Seq<char>, k: int) -> bool {
    occurs_at(s, "WEBVTT"@, k) && forall|j: int| 0 <= j < k ==> is_white(#[trigger] s[j])
}

proof fn lemma_header_char(s: Seq<char>, k: int)
    requires
        occurs_at(s, "WEBVTT"@, k),
    ensures
        k + 6 <= s.len(),
        s[k] == 'W' && s[k + 1] == 'E' && s[k + 2] == 'B' && s[k + 3] == 'V' && s[k + 4] == 'T'
            && s[k + 5] == 'T',
{
    reveal_strlit("WEBVTT");
    let sub = s.subrange(k, k + 6);
    assert(sub[0] == s[k] && sub[1] == s[k + 1] && sub[2] == s[k + 2] && sub[3] == s[k + 3]
        && sub[4] == s[k + 4] && sub[5] == s[k + 5]);
}

proof fn lemma_header_from_chars(s: Seq<char>, k: int)
    requires
        0 <= k,
        k + 6 <= s.len(),
        s[k] == 'W' && s[k + 1] == 'E' && s[k + 2] == 'B' && s[k + 3] == 'V' && s[k + 4] == 'T'
            && s[k + 5] == 'T',
    ensures
        occurs_at(s, "WEBVTT"@, k),
{
    reveal_strlit("WEBVTT");
    assert(s.subrange(k, k + 6) =~= "WEBVTT"@);
}

proof fn lemma_header_is_at(s: Seq<char>)
    requires
        has_vtt_header(s),
    ensures
        header_at(s, leading_white(s)),
{
    lemma_trim_start(s);
    let k = leading_white(s);
    lemma_header_char(s.skip(k), 0);
    lemma_header_from_chars(s, k);
}

proof fn lemma_at_is_header(s: Seq<char>, k: int)
    requires
        header_at(s, k),
    ensures
        has_vtt_header(s),
{
    lemma_header_char(s, k);
    lemma_trim_start_is(s, k);
    lemma_header_from_chars(s.skip(k), 0);
}

proof fn lemma_header_with_more(a: Seq<char>, b: Seq<char>)
    requires
        has_vtt_header(a),
    ensures
        has_vtt_header(a + b),
{
    lemma_header_is_at(a);
    let k = leading_white(a);
    lemma_header_char(a, k);
    lemma_header_from_chars(a + b, k);
    assert(forall|j: int| 0 <= j < k ==> #[trigger] (a + b)[j] == a[j]);
    lemma_at_is_header(a + b, k);
}

proof fn lemma_white_with_header(a: Seq<char>, b: Seq<char>)
    requires
        forall|j: int| 0 <= j < a.len() ==> is_white(#[trigger] a[j]),
        has_vtt_header(b),
    ensures
        has_vtt_header(a + b),
{
    lemma_header_is_at(b);
    let k = leading_white(b);
    lemma_header_char(b, k);
    lemma_header_from_chars(a + b, a.len() + k);
    assert forall|j: int| 0 <= j < a.len() + k implies is_white(#[trigger] (a + b)[j]) by {
        if j < a.len() {
            assert((a + b)[j] == a[j]);
        } else {
            assert((a + b)[j] == b[j - a.len()]);
        }
    }
    lemma_at_is_header(a + b, a.len() + k);
}

proof fn lemma_arrow_chars(s: Seq<char>, i: int)
    ensures
        occurs_at(s, "-->"@, i) <==> 0 <= i && i + 3 <= s.len() && s[i] == '-' && s[i + 1] == '-'
            && s[i + 2] == '>',
{
    reveal_strlit("-->");
    if 0 <= i && i + 3 <= s.len() {
        let sub = s.subrange(i, i + 3);
        assert(sub[0] == s[i] && sub[1] == s[i + 1] && sub[2] == s[i + 2]);
        if s[i] == '-' && s[i + 1] == '-' && s[i + 2] == '>' {
            assert(sub =~= "-->"@);
        }
    }
}

proof fn lemma_normalize_line_header(line: Seq<char>)
    requires
        has_vtt_header(line),
    ensures
        has_vtt_header(normalize_line(line)),
{
    lemma_header_is_at(line);
    let k = leading_white(line);
    lemma_header_char(line, k);
    lemma_find(line, "-->"@, 0);
    if let Some(a) = find(line, "-->"@, 0) {
        lemma_arrow_chars(line, a);
        if a < k {
            assert(is_white(line[a]));
        }
        let head = line.take(a);
        lemma_trim_start_is(head, k);
        let t = head.skip(k);
        lemma_trim_end(t);
        let n = trim_end(t).len() as int;
        if n < 6 {
            assert(t[5] == 'T');
            assert(is_white(t[5]));
        }
        let start = replace_char(trim(head), ',', '.');
        assert(trim(head) == t.take(n));
        assert(start[0] == 'W' && start[1] == 'E' && start[2] == 'B' && start[3] == 'V' && start[4]
            == 'T' && start[5] == 'T');
        lemma_header_from_chars(start, 0);
        lemma_at_is_header(start, 0);
        let n2 = normalize_line(line);
        assert(n2 == start + n2.skip(start.len() as int));
        lemma_header_with_more(start, n2.skip(start.len() as int));
    }
}

proof fn lemma_white_line(line: Seq<char>)
    requires
        forall|j: int| 0 <= j < line.len() ==> is_white(#[trigger] line[j]),
    ensures
        normalize_line(line) == line,
{
    lemma_find(line, "-->"@, 0);
    if let Some(a) = find(line, "-->"@, 0) {
        lemma_arrow_chars(line, a);
        assert(is_white(line[a]));
    }
}

proof fn lemma_feed_char(s: Seq<char>, i: int)
    requires
        0 <= i < s.len(),
    ensures
        occurs_at(s, seq!['\n'], i) <==> s[i] == '\n',
{
    let sub = s.subrange(i, i + 1);
    assert(sub[0] == s[i]);
    if s[i] == '\n' {
        assert(sub =~= seq!['\n']);
    }
}

proof fn lemma_normalize_vtt_header(s: Seq<char>)
    requires
        has_vtt_header(s),
    ensures
        has_vtt_header(normalize_vtt(s)),
    decreases s.len(),
{
    reveal_strlit("\n");
    lemma_header_is_at(s);
    let k = leading_white(s);
    lemma_header_char(s, k);
    let feed = seq!['\n'];
    lemma_find(s, feed, 0);
    let f = |line: Seq<char>| normalize_line(line);
    let all = lines(s);
    let mapped = all.map_values(f);
    match find(s, feed, 0) {
        None => {
            assert(mapped == seq![normalize_line(s)]);
            lemma_normalize_line_header(s);
        },
        Some(i) => {
            lemma_feed_char(s, i);
            let whole = s.take(i);
            let line = without_return(whole);
            let rest = s.skip(i + 1);
            assert(all.skip(1) == lines(rest));
            assert(mapped.skip(1) == lines(rest).map_values(f));
            assert(mapped[0] == normalize_line(line));
            lemma_join_first(mapped, "\n"@);
            if i < k {
                assert forall|j: int| 0 <= j < line.len() implies is_white(
                    #[trigger] line[j],
                ) by {
                    assert(line[j] == s[j]);
                }
                lemma_white_line(line);
                lemma_header_from_chars(rest, k - i - 1);
                assert forall|j: int| 0 <= j < k - i - 1 implies is_white(#[trigger] rest[j]) by {
                    assert(rest[j] == s[j + i + 1]);
                }
                lemma_at_is_header(rest, k - i - 1);
                lemma_normalize_vtt_header(rest);
                assert(all.len() > 1) by {
                    if lines(rest).len() == 0 {
                        assert(rest.len() == 0);
                    }
                }
                let before = line + "\n"@;
                assert(forall|j: int| 0 <= j < before.len() ==> is_white(#[trigger] before[j]));
                lemma_white_with_header(before, normalize_vtt(rest));
            } else {
                assert(forall|j: int| k <= j < k + 6 ==> s[j] != '\n');
                assert(k + 6 <= i);
                assert(k + 6 <= line.len()) by {
                    if line.len() < whole.len() && k + 6 == i {
                        assert(whole.last() == s[k + 5]);
                    }
                }
                assert(forall|j: int| 0 <= j < line.len() ==> line[j] == s[j]);
                lemma_header_from_chars(line, k);
                lemma_at_is_header(line, k);
                lemma_normalize_line_header(line);
                if mapped.len() > 1 {
                    let tail = "\n"@ + join(mapped.skip(1), "\n"@);
                    assert(join(mapped, "\n"@) == mapped[0] + tail);
                    lemma_header_with_more(mapped[0], tail);
                }
            }
        },
    }
}

/// Whatever `srt_to_vtt` is given, its result is WebVTT: `WEBVTT` is the first
/// thing in it but for white space.
pub proof fn vtt_has_header(input: Seq<char>)
    ensures
        has_vtt_header(vtt(input)),
{
    let s = unify_newlines(trim_start_char(input, '\u{FEFF}'));
    if has_vtt_header(s) {
        lemma_find(s, "WEBVTT"@, 0);
        if let Some(first) = find(s, "WEBVTT"@, 0) {
            lemma_find(s, "WEBVTT"@, first + 6);
            if let Some(second) = find(s, "WEBVTT"@, first + 6) {
                let t = s.skip(second);
                lemma_header_char(s, second);
                lemma_header_from_chars(t, 0);
                lemma_at_is_header(t, 0);
                lemma_normalize_vtt_header(t);
            }
        }
        if unified_to_vtt(s) == normalize_vtt(s) {
            lemma_normalize_vtt_header(s);
        }
    } else {
        reveal_strlit("WEBVTT\n\n");
        let head = "WEBVTT\n\n"@;
        lemma_header_from_chars(head, 0);
        lemma_at_is_header(head, 0);
        lemma_header_with_more(head, blocks_vtt(split(trim(s), "\n\n"@)));
    }
}

proof fn lemma_points(s: Seq<char>)
    ensures
        replace_char(s, ',', '.').len() == s.len(),
        forall|i: int|
            0 <= i < s.len() ==> {
                let c = #[trigger] replace_char(s, ',', '.')[i];
                &&& c != ','
                &&& is_white(c) == is_white(s[i])
                &&& (c == '-') == (s[i] == '-')
                &&& (c == '>') == (s[i] == '>')
            },
        replace_char(replace_char(s, ',', '.'), ',', '.') == replace_char(s, ',', '.'),
{
    assert(replace_char(replace_char(s, ',', '.'), ',', '.') =~= replace_char(s, ',', '.'));
}

/// What a timing that was read off a line is like.
spec fn proper(timing: Timing) -> bool {
    &&& timing.start.len() > 0 ==> !is_white(timing.start[0]) && !is_white(timing.start.last())
    &&& forall|i: int| 0 <= i ==> !occurs_at(timing.start, "-->"@, i)
    &&& forall|i: int| 0 <= i < timing.end.len() ==> !is_white(#[trigger] timing.end[i])
    &&& timing.settings.len() > 0 ==> timing.end.len() > 0 && !is_white(timing.settings[0])
        && !is_white(timing.settings.last())
}

proof fn lemma_timing_is_proper(line: Seq<char>)
    ensures
        timing_of(line) matches Some(timing) ==> proper(timing),
{
    lemma_find(line, "-->"@, 0);
    if let Some(arrow) = find(line, "-->"@, 0) {
        lemma_arrow_chars(line, arrow);
        let timing = timing_of(line)->0;
        let head = line.take(arrow);
        lemma_trim(head);
        lemma_trim_start(head);
        lemma_trim_end(trim_start(head));
        let p = leading_white(head);
        assert forall|i: int| 0 <= i implies !occurs_at(timing.start, "-->"@, i) by {
            lemma_arrow_chars(timing.start, i);
            if occurs_at(timing.start, "-->"@, i) {
                assert(timing.start[i] == line[p + i]);
                assert(timing.start[i + 1] == line[p + i + 1]);
                assert(timing.start[i + 2] == line[p + i + 2]);
                lemma_arrow_chars(line, p + i);
                assert(occurs_at(line, "-->"@, p + i));
            }
        }
        let behind = trim(line.skip(arrow + 3));
        lemma_trim(line.skip(arrow + 3));
        lemma_white_index(behind);
        let word = white_index(behind);
        if word < behind.len() {
            let rest = behind.skip(word + 1);
            lemma_trim_start(rest);
            if timing.settings.len() > 0 {
                assert(timing.settings.last() == behind.last());
                assert(timing.settings[0] == rest[leading_white(rest)]);
            }
        }
    }
}

proof fn lemma_trim_after_space(x: Seq<char>)
    requires
        x.len() > 0 ==> !is_white(x[0]) && !is_white(x.last()),
    ensures
        trim(" "@ + x) == x,
{
    reveal_strlit(" ");
    let s = " "@ + x;
    lemma_trim_start_is(s, 1);
    assert(s.skip(1) == x);
    lemma_trim_is(x);
    if x.len() > 0 {
        lemma_trim_start_is(x, 0);
        assert(x.skip(0) == x);
    }
}

proof fn lemma_trim_before_space(x: Seq<char>)
    requires
        x.len() > 0 ==> !is_white(x[0]) && !is_white(x.last()),
    ensures
        trim(x + " "@) == x,
{
    reveal_strlit(" ");
    let s = x + " "@;
    if x.len() > 0 {
        assert(s[0] == x[0]);
        lemma_trim_start_is(s, 0);
        assert(s.skip(0) == s);
        assert(s[x.len() - 1] == x.last());
        lemma_trim_end_is(s, x.len() as int);
        assert(s.take(x.len() as int) == x);
    } else {
        assert(s == " "@ + x);
        lemma_trim_after_space(x);
    }
}

proof fn lemma_timing_read_back(timing: Timing)
    requires
        proper(timing),
    ensures
        timing_of(timing_line(timing)) == Some(timing),
{
    reveal_strlit(" --> ");
    reveal_strlit(" ");
    let n = timing_line(timing);
    let at = timing.start.len() as int + 1;
    lemma_arrow_chars(n, at);
    assert forall|j: int| 0 <= j < at implies !occurs_at(n, "-->"@, j) by {
        lemma_arrow_chars(n, j);
        if occurs_at(n, "-->"@, j) {
            if j + 3 <= timing.start.len() {
                lemma_arrow_chars(timing.start, j);
                assert(timing.start[j] == n[j]);
                assert(timing.start[j + 1] == n[j + 1]);
                assert(timing.start[j + 2] == n[j + 2]);
                assert(occurs_at(timing.start, "-->"@, j));
            } else {
                assert(n[at - 1] == ' ');
            }
        }
    }
    lemma_find_is(n, "-->"@, 0, at);
    assert(n.take(at) == timing.start + " "@);
    lemma_trim_before_space(timing.start);
    let x = if timing.settings.len() == 0 {
        timing.end
    } else {
        timing.end + " "@ + timing.settings
    };
    assert(n.skip(at + 3) == " "@ + x);
    if x.len() > 0 {
        assert(x[0] == timing.end[0]);
        if timing.settings.len() == 0 {
            assert(x.last() == timing.end[timing.end.len() - 1]);
        } else {
            assert(x.last() == timing.settings.last());
        }
    }
    lemma_trim_after_space(x);
    let word = timing.end.len() as int;
    assert forall|j: int| 0 <= j < word implies !is_white(#[trigger] x[j]) by {
        assert(x[j] == timing.end[j]);
    }
    lemma_white_index_is(x, word);
    assert(x.take(word) == timing.end);
    if timing.settings.len() > 0 {
        assert(x.skip(word + 1) == timing.settings);
        lemma_trim_start_is(timing.settings, 0);
        assert(timing.settings.skip(0) == timing.settings);
    } else {
        assert(timing.settings =~= Seq::<char>::empty());
    }
}

proof fn lemma_points_stay_proper(timing: Timing)
    requires
        proper(timing),
    ensures
        proper(with_points(timing)),
        with_points(with_points(timing)) == with_points(timing),
{
    lemma_points(timing.start);
    lemma_points(timing.end);
    let p = with_points(timing);
    if p.start.len() > 0 {
        assert(is_white(p.start[0]) == is_white(timing.start[0]));
        assert(is_white(p.start[p.start.len() - 1]) == is_white(
            timing.start[timing.start.len() - 1],
        ));
    }
    assert forall|i: int| 0 <= i implies !occurs_at(p.start, "-->"@, i) by {
        lemma_arrow_chars(p.start, i);
        lemma_arrow_chars(timing.start, i);
        if occurs_at(p.start, "-->"@, i) {
            assert((p.start[i] == '-') == (timing.start[i] == '-'));
            assert((p.start[i + 1] == '-') == (timing.start[i + 1] == '-'));
            assert((p.start[i + 2] == '>') == (timing.start[i + 2] == '>'));
            assert(occurs_at(timing.start, "-->"@, i));
        }
    }
    assert forall|i: int| 0 <= i < p.end.len() implies !is_white(#[trigger] p.end[i]) by {
        assert(is_white(p.end[i]) == is_white(timing.end[i]));
    }
}

/// A normalized timing line reads as the timing of the line that it was made
/// from, with points for the commas of the timestamps and the same settings. A
/// line that is no timing line stays as it is.
pub proof fn normalizing_keeps_timing(line: Seq<char>)
    ensures
        match timing_of(line) {
            Some(timing) => timing_of(normalize_line(line)) == Some(with_points(timing)),
            None => normalize_line(line) == line,
        },
{
    if let Some(timing) = timing_of(line) {
        lemma_timing_is_proper(line);
        lemma_points_stay_proper(timing);
        lemma_timing_read_back(with_points(timing));
    }
}

/// The timestamps of a normalized timing line have no comma.
pub proof fn normalized_timestamps_have_no_comma(line: Seq<char>)
    ensures
        timing_of(normalize_line(line)) matches Some(timing) ==> !timing.start.contains(',')
            && !timing.end.contains(','),
{
    normalizing_keeps_timing(line);
    if let Some(timing) = timing_of(line) {
        lemma_points(timing.start);
        lemma_points(timing.end);
    }
}

/// A line that is normalized already stays as it is.
pub proof fn normalizing_twice_is_once(line: Seq<char>)
    ensures
        normalize_line(normalize_line(line)) == normalize_line(line),
{
    normalizing_keeps_timing(line);
    if let Some(timing) = timing_of(line) {
        lemma_timing_is_proper(line);
        lemma_points_stay_proper(timing);
    }
}

/// Whether no line feed stands in a text.
spec fn one_line(s: Seq<char>) -> bool {
    forall|i: int| 0 <= i < s.len() ==> #[trigger] s[i] != '\n'
}

proof fn lemma_lines_have_no_feed(s: Seq<char>)
    ensures
        forall|i: int| 0 <= i < lines(s).len() ==> one_line(#[trigger] lines(s)[i]),
    decreases s.len(),
{
    let feed = seq!['\n'];
    lemma_find(s, feed, 0);
    if s.len() > 0 {
        match find(s, feed, 0) {
            Some(at) => {
                lemma_feed_char(s, at);
                lemma_lines_have_no_feed(s.skip(at + 1));
                assert forall|j: int| 0 <= j < at implies #[trigger] s[j] != '\n' by {
                    lemma_feed_char(s, j);
                }
                assert(one_line(without_return(s.take(at))));
                assert forall|i: int| 0 <= i < lines(s).len() implies one_line(
                    #[trigger] lines(s)[i],
                ) by {
                    if i > 0 {
                        assert(lines(s)[i] == lines(s.skip(at + 1))[i - 1]);
                    }
                }
            },
            None => {
                assert forall|j: int| 0 <= j < s.len() implies #[trigger] s[j] != '\n' by {
                    lemma_feed_char(s, j);
                }
            },
        }
    }
}

proof fn lemma_part_is_one_line(part: Seq<char>, whole: Seq<char>, from: int)
    requires
        one_line(whole),
        0 <= from,
        from + part.len() <= whole.len(),
        part =~= whole.subrange(from, from + part.len()),
    ensures
        one_line(part),
        one_line(replace_char(part, ',', '.')),
{
    assert forall|i: int| 0 <= i < part.len() implies #[trigger] part[i] != '\n' by {
        assert(part[i] == whole[from + i]);
    }
}

proof fn lemma_normalized_line_is_one_line(line: Seq<char>)
    requires
        one_line(line),
    ensures
        one_line(normalize_line(line)),
{
    reveal_strlit(" --> ");
    reveal_strlit(" ");
    lemma_find(line, "-->"@, 0);
    if let Some(arrow) = find(line, "-->"@, 0) {
        lemma_arrow_chars(line, arrow);
        let timing = timing_of(line)->0;
        let head = line.take(arrow);
        lemma_trim_start(head);
        lemma_trim_end(trim_start(head));
        lemma_part_is_one_line(head, line, 0);
        lemma_part_is_one_line(timing.start, head, leading_white(head));
        let tail = line.skip(arrow + 3);
        lemma_trim_start(tail);
        lemma_trim_end(trim_start(tail));
        lemma_part_is_one_line(tail, line, arrow + 3);
        let behind = trim(tail);
        lemma_part_is_one_line(behind, tail, leading_white(tail));
        lemma_white_index(behind);
        let word = white_index(behind);
        lemma_part_is_one_line(timing.end, behind, 0);
        if word < behind.len() {
            let rest = behind.skip(word + 1);
            lemma_part_is_one_line(rest, behind, word + 1);
            lemma_trim_start(rest);
            lemma_part_is_one_line(timing.settings, rest, leading_white(rest));
        }
    }
}

/// A normalized timing line does not end with a carriage return.
pub proof fn normalized_line_does_not_end_with_return(line: Seq<char>)
    requires
        timing_of(line) is Some,
    ensures
        without_return(normalize_line(line)) == normalize_line(line),
{
    reveal_strlit(" --> ");
    reveal_strlit(" ");
    lemma_timing_is_proper(line);
    let timing = timing_of(line)->0;
    lemma_points_stay_proper(timing);
    let p = with_points(timing);
    let n = normalize_line(line);
    if p.settings.len() > 0 {
        assert(n.last() == p.settings.last());
    } else if p.end.len() > 0 {
        assert(n.last() == p.end[p.end.len() - 1]);
    } else {
        assert(n.last() == ' ');
    }
}

/// Whether lines stay as they are where they are joined and parted again: none of
/// them but the last ends with a carriage return, and the last is not empty.
pub open spec fn stay_lines(parts: Seq<Seq<char>>) -> bool {
    &&& forall|i: int| 0 <= i < parts.len() - 1 ==> without_return(#[trigger] parts[i]) == parts[i]
    &&& parts.len() > 0 ==> parts.last().len() > 0
}

proof fn lemma_lines_of_join(parts: Seq<Seq<char>>)
    requires
        forall|i: int| 0 <= i < parts.len() ==> one_line(#[trigger] parts[i]),
        stay_lines(parts),
    ensures
        lines(join(parts, "\n"@)) == parts,
    decreases parts.len(),
{
    reveal_strlit("\n");
    let feed = seq!['\n'];
    assert("\n"@ == feed);
    let s = join(parts, feed);
    if parts.len() == 0 {
        assert(lines(s) == parts);
    } else {
        lemma_join_first(parts, feed);
        let first = parts[0];
        lemma_find(s, feed, 0);
        if parts.len() == 1 {
            if let Some(at) = find(s, feed, 0) {
                lemma_feed_char(s, at);
            }
            assert(lines(s) == parts);
        } else {
            let rest = parts.skip(1);
            assert forall|i: int| 0 <= i < rest.len() implies one_line(#[trigger] rest[i]) by {
                assert(rest[i] == parts[i + 1]);
            }
            assert forall|i: int| 0 <= i < rest.len() - 1 implies without_return(
                #[trigger] rest[i],
            ) == rest[i] by {
                assert(rest[i] == parts[i + 1]);
            }
            lemma_lines_of_join(rest);
            let at = first.len() as int;
            lemma_feed_char(s, at);
            assert forall|j: int| 0 <= j < at implies !occurs_at(s, feed, j) by {
                lemma_feed_char(s, j);
                assert(s[j] == first[j]);
            }
            lemma_find_is(s, feed, 0, at);
            assert(s.take(at) == first);
            assert(s.skip(at + 1) == join(rest, feed));
            assert(without_return(parts[0]) == parts[0]);
            assert(seq![first] + rest == parts);
        }
    }
}

/// A WebVTT text is retained line by line: the lines of the normalized text are
/// those of the text, each normalized. Lines that do not stay lines when they are
/// joined are left out, such as an empty one at the end.
pub proof fn normalizing_keeps_lines(s: Seq<char>)
    requires
        stay_lines(lines(s).map_values(|line: Seq<char>| normalize_line(line))),
    ensures
        lines(normalize_vtt(s)) == lines(s).map_values(|line: Seq<char>| normalize_line(line)),
        normalize_vtt(normalize_vtt(s)) == normalize_vtt(s),
{
    let f = |line: Seq<char>| normalize_line(line);
    let all = lines(s);
    let mapped = all.map_values(f);
    lemma_lines_have_no_feed(s);
    assert forall|i: int| 0 <= i < mapped.len() implies one_line(#[trigger] mapped[i]) by {
        assert(one_line(all[i]));
        lemma_normalized_line_is_one_line(all[i]);
    }
    lemma_lines_of_join(mapped);
    assert(mapped.map_values(f) =~= mapped) by {
        assert forall|i: int| 0 <= i < mapped.len() implies mapped.map_values(f)[i]
            == #[trigger] mapped[i] by {
            normalizing_twice_is_once(all[i]);
        }
    }
}

/// A text that is WebVTT already, under one header, is retained: only its
/// timestamps are normalized.
pub proof fn webvtt_is_retained(input: Seq<char>)
    requires
        ({
            let s = unify_newlines(trim_start_char(input, '\u{FEFF}'));
            &&& has_vtt_header(s)
            &&& find(s, "WEBVTT"@, 0) matches Some(first) ==> find(s, "WEBVTT"@, first + 6) is None
        }),
    ensures
        vtt(input) == normalize_vtt(unify_newlines(trim_start_char(input, '\u{FEFF}'))),
{
}

/// Texts that differ only in how their line ends are written, as `\r\n`, `\r`
/// or `\n`, give the same WebVTT.
pub proof fn vtt_ignores_line_end_style(a: Seq<char>, b: Seq<char>)
    requires
        unify_newlines(a) == unify_newlines(b),
    ensures
        vtt(a) == vtt(b),
{
    lemma_trim_then_unify(a, '\u{FEFF}');
    lemma_trim_then_unify(b, '\u{FEFF}');
}

/// Texts that differ only in how their line ends are written give the same cues.
pub proof fn cues_ignore_line_end_style(a: Seq<char>, b: Seq<char>)
    requires
        unify_newlines(a) == unify_newlines(b),
    ensures
        srt_cues(a) == srt_cues(b),
{
}

/// A text is converted as its form with `\n` line ends is.
pub proof fn unified_text_converts_alike(s: Seq<char>)
    ensures
        vtt(unify_newlines(s)) == vtt(s),
        srt_cues(unify_newlines(s)) == srt_cues(s),
{
    lemma_unify_twice(s);
    vtt_ignores_line_end_style(unify_newlines(s), s);
}

/// A timestamp means the same whether a comma or a point parts its seconds.
pub proof fn comma_and_point_mean_the_same(ts: Seq<char>)
    ensures
        ticks(replace_char(ts, ',', '.')) == ticks(ts),
{
    lemma_points(ts);
}

/// The cue for an SRT block starts with the timing line of the block, in which no
/// comma is left, and ends with the text of the block as it is.
pub proof fn cues_keep_their_text(block: Seq<char>)
    requires
        cue_lines(block) is Some,
    ensures
        ({
            let content = cue_lines(block)->0;
            let timing = replace_char(content[0], ',', '.');
            &&& !timing.contains(',')
            &&& block_vtt(block) == timing + "\n"@ + terminated(content.skip(1)) + "\n"@
        }),
{
    lemma_points(cue_lines(block)->0[0]);
}

/// Byte order marks before a text make no difference to its WebVTT.
pub proof fn vtt_ignores_byte_order_mark(s: Seq<char>)
    ensures
        vtt(seq!['\u{FEFF}'] + s) == vtt(s),
{
    assert((seq!['\u{FEFF}'] + s).skip(1) == s);
}

/// The digits that write a number read as that number.
pub proof fn decimal_reads_back(n: nat)
    ensures
        decimal(n).len() > 0,
        all_digits(decimal(n)),
        digits_value(decimal(n)) == n,
    decreases n,
{
    let s = decimal(n);
    if n < 10 {
        assert(digits_value(s.drop_last()) == 0);
        assert(s.last() == digit_char(n as int));
    } else {
        decimal_reads_back(n / 10);
        assert(s.drop_last() == decimal(n / 10));
        assert(s.last() == digit_char(n as int % 10));
        assert forall|i: int| 0 <= i < s.len() implies is_digit(#[trigger] s[i]) by {
            if i < s.len() - 1 {
                assert(s[i] == decimal(n / 10)[i]);
            }
        }
    }
}

/// Two track events of one text never have the same identifier.
pub proof fn event_ids_differ(i: nat, a: CueView, j: nat, b: CueView)
    requires
        i != j,
    ensures
        event_json(i, a)->Dict_0["Id"@] != event_json(j, b)->Dict_0["Id"@],
{
    decimal_reads_back(i);
    decimal_reads_back(j);
    reveal_strlit("Id");
    reveal_strlit("Text");
    reveal_strlit("StartPositionTicks");
    reveal_strlit("EndPositionTicks");
    assert("Id"@.len() == 2 && "Text"@.len() == 4 && "StartPositionTicks"@.len() == 18
        && "EndPositionTicks"@.len() == 16);
    assert(event_json(i, a)->Dict_0["Id"@] == Json::Text(decimal(i)));
    assert(event_json(j, b)->Dict_0["Id"@] == Json::Text(decimal(j)));
}

/// A text has no more cues than blocks.
pub proof fn at_most_one_cue_per_block(input: Seq<char>)
    ensures
        srt_cues(input).len() <= srt_blocks(input).len(),
{
    lemma_cue_count(srt_blocks(input));
}

proof fn lemma_cue_count(blocks: Seq<Seq<char>>)
    ensures
        blocks_cues(blocks).len() <= blocks.len(),
    decreases blocks.len(),
{
    if blocks.len() > 0 {
        lemma_cue_count(blocks.drop_last());
    }
}

} // verus!
