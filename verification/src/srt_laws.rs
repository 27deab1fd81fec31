//! How SRT and WebVTT that are written down are converted.
//!
//! The laws speak of texts as they are written: a number, a timing line and lines
//! of text for each cue.
use vstd::prelude::*;
use crate::json::Json;
use crate::number::{all_digits, decimal, digits_value, is_digit, parse_i64};
use crate::subtitle_laws::{decimal_reads_back, normalizing_keeps_lines, stay_lines};
use crate::subtitles::{
    block_cue, block_vtt, blocks_cues, blocks_vtt, byte_prefix, cue_lines, has_vtt_header,
    normalize_line, normalize_vtt, pad_to_three, readable_block, readable_srt, readable_timestamp,
    srt_blocks, srt_cues, terminated, ticks, timestamp_fields, timing_of, track_events_json, vtt,
    CueView,
};
use crate::text::{
    find, is_white, join, leading_white, lemma_find, lemma_find_is, lemma_join_first, lemma_trim_is,
    lemma_trim_start_is, lemma_white_index_is, lines, occurs, occurs_at, replace_char, split, trim,
    trim_start, trim_start_char, unify_newlines, without_return,
};
use crate::text_laws::{
    is_blank, is_plain_line, line_ends_are_unified, line_ends_part_lines,
    nothing_is_parted_without_separator, separators_part, trimming_takes_off_white_space,
};

verus! {

/// Whether lines are written without line ends in them, the last of them not empty.
pub open spec fn are_plain_lines(parts: Seq<Seq<char>>) -> bool {
    &&& forall|i: int| 0 <= i < parts.len() ==> is_plain_line(#[trigger] parts[i])
    &&& parts.len() > 0 ==> parts.last().len() > 0
}

/// Lines, each with a line feed behind it.
pub open spec fn ended(parts: Seq<Seq<char>>) -> Seq<char>
    decreases parts.len(),
{
    if parts.len() == 0 {
        seq![]
    } else {
        parts[0] + seq!['\n'] + ended(parts.skip(1))
    }
}

/// The arrow of timing lines.
pub open spec fn arrow() -> Seq<char> {
    seq!['-', '-', '>']
}

proof fn lemma_literals()
    ensures
        "\n"@ == seq!['\n'],
        "\n\n"@ == seq!['\n', '\n'],
        "-->"@ == arrow(),
        ":"@ == seq![':'],
        "."@ == seq!['.'],
        " --> "@ == seq![' ', '-', '-', '>', ' '],
        " "@ == seq![' '],
        "WEBVTT"@ == seq!['W', 'E', 'B', 'V', 'T', 'T'],
        "WEBVTT\n\n"@ == seq!['W', 'E', 'B', 'V', 'T', 'T', '\n', '\n'],
{
    reveal_strlit("\n");
    reveal_strlit("\n\n");
    reveal_strlit("-->");
    reveal_strlit(":");
    reveal_strlit(".");
    reveal_strlit(" --> ");
    reveal_strlit(" ");
    reveal_strlit("WEBVTT");
    reveal_strlit("WEBVTT\n\n");
    assert("\n"@ =~= seq!['\n']);
    assert("\n\n"@ =~= seq!['\n', '\n']);
    assert("-->"@ =~= arrow());
    assert(":"@ =~= seq![':']);
    assert("."@ =~= seq!['.']);
    assert(" --> "@ =~= seq![' ', '-', '-', '>', ' ']);
    assert(" "@ =~= seq![' ']);
    assert("WEBVTT"@ =~= seq!['W', 'E', 'B', 'V', 'T', 'T']);
    assert("WEBVTT\n\n"@ =~= seq!['W', 'E', 'B', 'V', 'T', 'T', '\n', '\n']);
}

proof fn lemma_ended(parts: Seq<Seq<char>>)
    ensures
        terminated(parts) == ended(parts),
    decreases parts.len(),
{
    lemma_literals();
    if parts.len() == 1 {
        assert(parts.drop_last() =~= Seq::empty());
        assert(parts.skip(1) =~= Seq::empty());
        assert(terminated(parts.drop_last()) =~= Seq::<char>::empty());
        assert(ended(parts.skip(1)) =~= Seq::<char>::empty());
        assert(terminated(parts) =~= ended(parts));
    } else if parts.len() > 1 {
        let front = parts.drop_last();
        let back = parts.skip(1);
        lemma_ended(front);
        lemma_ended(back);
        lemma_ended(front.skip(1));
        assert(front.skip(1) =~= back.drop_last());
        assert(terminated(back) == terminated(back.drop_last()) + back.last() + "\n"@);
        assert(terminated(parts) =~= parts[0] + seq!['\n'] + (terminated(back.drop_last())
            + back.last() + "\n"@));
    }
}

proof fn lemma_lines_of_plain(parts: Seq<Seq<char>>)
    requires
        are_plain_lines(parts),
    ensures
        lines(join(parts, seq!['\n'])) == parts,
    decreases parts.len(),
{
    let feed = seq!['\n'];
    if parts.len() == 0 {
        assert(lines(join(parts, feed)) =~= parts);
    } else if parts.len() == 1 {
        line_ends_part_lines(parts[0], Seq::empty());
        assert(seq![parts[0]] =~= parts);
    } else {
        let rest = parts.skip(1);
        assert forall|i: int| 0 <= i < rest.len() implies is_plain_line(#[trigger] rest[i]) by {
            assert(rest[i] == parts[i + 1]);
        }
        lemma_lines_of_plain(rest);
        lemma_join_first(parts, feed);
        line_ends_part_lines(parts[0], join(rest, feed));
        assert(seq![parts[0]] + rest =~= parts);
    }
}

/// Whether a text is made of digits alone.
pub open spec fn are_digits(s: Seq<char>) -> bool {
    forall|i: int| 0 <= i < s.len() ==> '0' <= #[trigger] s[i] <= '9'
}

proof fn lemma_number_line(before: Seq<char>, digits: Seq<char>, after: Seq<char>)
    requires
        is_blank(before),
        is_blank(after),
        are_digits(digits),
    ensures
        all_digits(trim(before + digits + after)),
{
    if digits.len() > 0 {
        assert('0' <= digits[0] <= '9');
        assert('0' <= digits[digits.len() - 1] <= '9');
    }
    trimming_takes_off_white_space(before, digits, after);
    assert forall|i: int| 0 <= i < digits.len() implies is_digit(#[trigger] digits[i]) by {}
}

proof fn lemma_cue_lines_numbered(number: Seq<char>, timing: Seq<char>, text: Seq<Seq<char>>)
    requires
        are_plain_lines(seq![number, timing] + text),
        all_digits(trim(number)),
    ensures
        cue_lines(join(seq![number, timing] + text, seq!['\n'])) == Some(seq![timing] + text),
{
    let parts = seq![number, timing] + text;
    lemma_lines_of_plain(parts);
    assert(parts.skip(1) =~= seq![timing] + text);
}

/// The cue for a block that starts with a number, whatever the number and whatever
/// the white space around it: the timing line with points for commas, the lines of
/// the text as they are, and an empty line. The number is left out.
pub proof fn numbered_blocks_are_converted(
    before: Seq<char>,
    digits: Seq<char>,
    after: Seq<char>,
    timing: Seq<char>,
    text: Seq<Seq<char>>,
)
    requires
        is_blank(before),
        is_blank(after),
        are_digits(digits),
        are_plain_lines(seq![before + digits + after, timing] + text),
    ensures
        block_vtt(join(seq![before + digits + after, timing] + text, seq!['\n'])) == replace_char(
            timing,
            ',',
            '.',
        ) + seq!['\n'] + ended(text) + seq!['\n'],
{
    lemma_literals();
    let number = before + digits + after;
    lemma_number_line(before, digits, after);
    lemma_cue_lines_numbered(number, timing, text);
    let content = seq![timing] + text;
    assert(content.skip(1) =~= text);
    lemma_ended(text);
}

/// Whether an arrow stands in a line.
pub open spec fn has_arrow(line: Seq<char>) -> bool {
    exists|i: int|
        0 <= i && i + 3 <= line.len() && #[trigger] line[i] == '-' && line[i + 1] == '-' && line[i
            + 2] == '>'
}

proof fn lemma_has_arrow(line: Seq<char>)
    ensures
        has_arrow(line) <==> occurs(line, arrow()),
{
    if has_arrow(line) {
        let i = choose|i: int|
            0 <= i && i + 3 <= line.len() && #[trigger] line[i] == '-' && line[i + 1] == '-'
                && line[i + 2] == '>';
        assert(line.subrange(i, i + 3) =~= arrow());
        assert(occurs_at(line, arrow(), i));
    }
    if occurs(line, arrow()) {
        let i = choose|i: int| occurs_at(line, arrow(), i);
        let sub = line.subrange(i, i + 3);
        assert(sub[0] == line[i] && sub[1] == line[i + 1] && sub[2] == line[i + 2]);
        assert(line[i] == '-');
    }
}

/// Whether something stands in a line that is neither white space nor a digit.
pub open spec fn is_no_number(line: Seq<char>) -> bool {
    exists|i: int|
        0 <= i < line.len() && !is_white(#[trigger] line[i]) && !('0' <= line[i] <= '9')
}

proof fn lemma_no_number(line: Seq<char>)
    requires
        is_no_number(line),
    ensures
        !all_digits(trim(line)),
{
    let i = choose|i: int|
        0 <= i < line.len() && !is_white(#[trigger] line[i]) && !('0' <= line[i] <= '9');
    crate::text::lemma_trim_start(line);
    let k = leading_white(line);
    let t = trim_start(line);
    crate::text::lemma_trim_end(t);
    if i < k {
        assert(is_white(line[i]));
    }
    assert(t[i - k] == line[i]);
    if i - k >= trim(line).len() {
        assert(is_white(t[i - k]));
    }
    assert(trim(line)[i - k] == line[i]);
    assert(!is_digit(trim(line)[i - k]));
}

proof fn lemma_cue_lines_unnumbered(timing: Seq<char>, text: Seq<Seq<char>>)
    requires
        is_no_number(timing),
        text.len() > 0,
        are_plain_lines(seq![timing] + text),
    ensures
        cue_lines(join(seq![timing] + text, seq!['\n'])) == Some(seq![timing] + text),
{
    lemma_lines_of_plain(seq![timing] + text);
    lemma_no_number(timing);
}

/// The cue for a block whose first line is no number: the same, with no line left out.
pub proof fn unnumbered_blocks_are_converted(timing: Seq<char>, text: Seq<Seq<char>>)
    requires
        is_no_number(timing),
        text.len() > 0,
        are_plain_lines(seq![timing] + text),
    ensures
        block_vtt(join(seq![timing] + text, seq!['\n'])) == replace_char(timing, ',', '.')
            + seq!['\n'] + ended(text) + seq!['\n'],
{
    lemma_literals();
    lemma_cue_lines_unnumbered(timing, text);
    assert((seq![timing] + text).skip(1) =~= text);
    lemma_ended(text);
}

/// A block of one line gives neither a cue of WebVTT nor a track event.
pub proof fn single_lines_are_no_cues(line: Seq<char>)
    requires
        is_plain_line(line),
    ensures
        block_vtt(line).len() == 0,
        block_cue(line) is None,
{
    line_ends_part_lines(line, Seq::empty());
    if line.len() == 0 {
        assert(line =~= Seq::empty());
    }
}

// --- Timestamps ---
proof fn lemma_separator_at(s: Seq<char>, c: char, i: int)
    ensures
        occurs_at(s, seq![c], i) <==> 0 <= i < s.len() && s[i] == c,
{
    if 0 <= i < s.len() {
        let sub = s.subrange(i, i + 1);
        assert(sub[0] == s[i]);
        if s[i] == c {
            assert(sub =~= seq![c]);
        }
    }
}

proof fn lemma_split_at(a: Seq<char>, c: char, b: Seq<char>)
    requires
        forall|i: int| 0 <= i < a.len() ==> #[trigger] a[i] != c,
    ensures
        split(a + seq![c] + b, seq![c]) == seq![a] + split(b, seq![c]),
{
    let s = a + seq![c] + b;
    assert forall|j: int| 0 <= j < a.len() implies !occurs_at(s, seq![c], j) by {
        lemma_separator_at(s, c, j);
        assert(s[j] == a[j]);
    }
    separators_part(a, seq![c], b);
}

proof fn lemma_split_none(a: Seq<char>, c: char)
    requires
        forall|i: int| 0 <= i < a.len() ==> #[trigger] a[i] != c,
    ensures
        split(a, seq![c]) == seq![a],
{
    assert forall|j: int| !occurs_at(a, seq![c], j) by {
        lemma_separator_at(a, c, j);
    }
    nothing_is_parted_without_separator(a, seq![c]);
}

proof fn lemma_parse_digits(s: Seq<char>)
    requires
        s.len() > 0,
        are_digits(s),
        0 <= digits_value(s) <= i64::MAX,
    ensures
        parse_i64(s) == Some(digits_value(s)),
{
    assert('0' <= s[0] <= '9');
    assert(all_digits(s));
}

proof fn lemma_small_number(s: Seq<char>)
    requires
        are_digits(s),
        s.len() <= 3,
    ensures
        0 <= digits_value(s) < 1000,
        s.len() == 1 ==> digits_value(s) == s[0] as int - 48,
        s.len() == 2 ==> digits_value(s) == 10 * (s[0] as int - 48) + (s[1] as int - 48),
        s.len() == 3 ==> digits_value(s) == 100 * (s[0] as int - 48) + 10 * (s[1] as int - 48) + (
        s[2] as int - 48),
{
    reveal_with_fuel(digits_value, 4);
    if s.len() > 0 {
        assert('0' <= s[0] <= '9');
    }
    if s.len() > 1 {
        assert('0' <= s[1] <= '9');
    }
    if s.len() > 2 {
        assert('0' <= s[2] <= '9');
    }
}

/// The milliseconds of a fraction of a second: its first digit counts hundreds, its
/// second tens, its third ones, and the others nothing.
pub open spec fn millis_of(fraction: Seq<char>) -> int {
    let digit = |i: int|
        if i < fraction.len() {
            fraction[i] as int - 48
        } else {
            0
        };
    100 * digit(0) + 10 * digit(1) + digit(2)
}

/// A time as it is written: digits for hours, minutes and seconds with colons
/// between them, and digits for a fraction of a second behind a comma or a point.
pub struct WrittenTime {
    pub hours: Seq<char>,
    pub minutes: Seq<char>,
    pub seconds: Seq<char>,
    pub mark: char,
    pub fraction: Seq<char>,
}

impl WrittenTime {
    /// Each field is a number that is not too large, and the mark is one of the two.
    pub open spec fn wf(self) -> bool {
        &&& are_digits(self.hours) && are_digits(self.minutes) && are_digits(self.seconds)
        &&& are_digits(self.fraction)
        &&& self.hours.len() > 0 && self.minutes.len() > 0 && self.seconds.len() > 0
        &&& self.fraction.len() > 0
        &&& 0 <= digits_value(self.hours) <= i64::MAX
        &&& 0 <= digits_value(self.minutes) <= i64::MAX
        &&& 0 <= digits_value(self.seconds) <= i64::MAX
        &&& self.mark == ',' || self.mark == '.'
    }

    /// The time without its fraction.
    pub open spec fn whole(self) -> Seq<char> {
        self.hours + seq![':'] + (self.minutes + seq![':'] + self.seconds)
    }

    /// The time as it is written.
    pub open spec fn text(self) -> Seq<char> {
        self.hours + seq![':'] + (self.minutes + seq![':'] + (self.seconds + seq![self.mark]
            + self.fraction))
    }

    /// The milliseconds of the hours, minutes and seconds.
    pub open spec fn whole_millis(self) -> int {
        digits_value(self.hours) * 3_600_000 + digits_value(self.minutes) * 60_000 + digits_value(
            self.seconds,
        ) * 1000
    }
}

proof fn lemma_pointed(a: Seq<char>, c: char, b: Seq<char>)
    ensures
        replace_char(a + seq![c] + b, ',', '.') == replace_char(a, ',', '.') + seq![
            if c == ',' {
                '.'
            } else {
                c
            },
        ] + replace_char(b, ',', '.'),
{
    assert(replace_char(a + seq![c] + b, ',', '.') =~= replace_char(a, ',', '.') + seq![
        if c == ',' {
            '.'
        } else {
            c
        },
    ] + replace_char(b, ',', '.'));
}

proof fn lemma_digits_stay(s: Seq<char>)
    requires
        are_digits(s),
    ensures
        replace_char(s, ',', '.') == s,
{
    assert forall|i: int| 0 <= i < s.len() implies replace_char(s, ',', '.')[i]
        == #[trigger] s[i] by {}
    assert(replace_char(s, ',', '.') =~= s);
}

proof fn lemma_three_bytes(s: Seq<char>)
    requires
        s.len() >= 3,
        s[0] <= '\u{7f}' && s[1] <= '\u{7f}' && s[2] <= '\u{7f}',
    ensures
        byte_prefix(s, 3) == Some(s.take(3)),
{
    let s1 = s.skip(1);
    let s2 = s1.skip(1);
    let s3 = s2.skip(1);
    assert(s1[0] == s[1] && s2[0] == s[2]);
    assert(byte_prefix(s3, 0) == Some(Seq::<char>::empty()));
    assert(byte_prefix(s2, 1) == Some(seq![s[2]] + Seq::<char>::empty()));
    assert(byte_prefix(s1, 2) == Some(seq![s[1]] + (seq![s[2]] + Seq::<char>::empty())));
    assert(seq![s[0]] + (seq![s[1]] + (seq![s[2]] + Seq::<char>::empty())) =~= s.take(3));
}

/// A time that is written with a fraction is read as its ticks: ten thousand for
/// each millisecond.
pub proof fn times_are_read(time: WrittenTime)
    requires
        time.wf(),
    ensures
        ticks(time.text()) == Some((time.whole_millis() + millis_of(time.fraction)) * 10_000),
        ticks(time.whole()) == Some(time.whole_millis() * 10_000),
{
    lemma_literals();
    lemma_written_fields(time);
    let h = time.hours;
    let m = time.minutes;
    let s = time.seconds;
    lemma_digits_stay(h);
    lemma_digits_stay(m);
    lemma_digits_stay(s);
    lemma_parse_digits(h);
    lemma_parse_digits(m);
    lemma_parse_digits(s);
    lemma_pointed(m, ':', s);
    lemma_pointed(h, ':', m + seq![':'] + s);
    lemma_split_none(s, ':');
    lemma_split_at(m, ':', s);
    lemma_split_at(h, ':', m + seq![':'] + s);
    assert(split(time.whole(), ":"@) =~= seq![h, m, s]);
    lemma_split_none(s, '.');
    assert(split(s, "."@) =~= seq![s]);
}

/// A time whose hours, minutes or seconds are no number is none, and so is a text with
/// more than three fields.
pub proof fn times_are_made_of_three_numbers(
    hours: Seq<char>,
    minutes: Seq<char>,
    seconds: Seq<char>,
    more: Seq<char>,
)
    requires
        forall|i: int|
            0 <= i < hours.len() ==> #[trigger] hours[i] != ':' && hours[i] != ',',
        forall|i: int|
            0 <= i < minutes.len() ==> #[trigger] minutes[i] != ':' && minutes[i] != ',',
        forall|i: int|
            0 <= i < seconds.len() ==> #[trigger] seconds[i] != ':' && seconds[i] != ','
                && seconds[i] != '.',
    ensures
        parse_i64(hours) is None || parse_i64(minutes) is None || parse_i64(seconds) is None
            ==> ticks(hours + seq![':'] + (minutes + seq![':'] + seconds)) is None,
        parse_i64(hours) is Some && parse_i64(minutes) is Some && parse_i64(seconds) is Some
            ==> ticks(hours + seq![':'] + (minutes + seq![':'] + seconds)) == Some(
            (parse_i64(hours)->0 * 3_600_000 + parse_i64(minutes)->0 * 60_000 + parse_i64(
                seconds,
            )->0 * 1000) * 10_000,
        ),
        ticks(
            hours + seq![':'] + (minutes + seq![':'] + (seconds + seq![':'] + more)),
        ) is None,
{
    lemma_literals();
    lemma_no_comma_stays(hours);
    lemma_no_comma_stays(minutes);
    lemma_no_comma_stays(seconds);
    lemma_pointed(minutes, ':', seconds);
    lemma_pointed(hours, ':', minutes + seq![':'] + seconds);
    lemma_split_none(seconds, ':');
    lemma_split_at(minutes, ':', seconds);
    lemma_split_at(hours, ':', minutes + seq![':'] + seconds);
    let ts = hours + seq![':'] + (minutes + seq![':'] + seconds);
    assert(split(ts, ":"@) =~= seq![hours, minutes, seconds]);
    lemma_split_none(seconds, '.');
    assert(split(seconds, "."@) =~= seq![seconds]);

    let pm = replace_char(more, ',', '.');
    let tail = seconds + seq![':'] + more;
    lemma_pointed(seconds, ':', more);
    lemma_pointed(minutes, ':', tail);
    lemma_pointed(hours, ':', minutes + seq![':'] + tail);
    lemma_split_at(seconds, ':', pm);
    lemma_split_at(minutes, ':', seconds + seq![':'] + pm);
    lemma_split_at(hours, ':', minutes + seq![':'] + (seconds + seq![':'] + pm));
    assert(split(pm, seq![':']).len() > 0);
}

proof fn lemma_no_comma_stays(s: Seq<char>)
    requires
        forall|i: int| 0 <= i < s.len() ==> #[trigger] s[i] != ',',
    ensures
        replace_char(s, ',', '.') == s,
{
    assert forall|i: int| 0 <= i < s.len() implies replace_char(s, ',', '.')[i]
        == #[trigger] s[i] by {}
    assert(replace_char(s, ',', '.') =~= s);
}

/// A time whose fraction does not start with a number is none.
pub proof fn fractions_are_numbers(time: WrittenTime, fraction: Seq<char>)
    requires
        time.wf(),
        forall|i: int|
            0 <= i < fraction.len() ==> #[trigger] fraction[i] != ':' && fraction[i] != ','
                && fraction[i] != '.' && fraction[i] <= '\u{7f}',
        fraction.len() >= 3,
        parse_i64(fraction.take(3)) is None,
    ensures
        ticks((WrittenTime { fraction, ..time }).text()) is None,
{
    lemma_literals();
    let h = time.hours;
    let m = time.minutes;
    let s = time.seconds;
    lemma_digits_stay(h);
    lemma_digits_stay(m);
    lemma_digits_stay(s);
    lemma_no_comma_stays(fraction);
    let tail = s + seq!['.'] + fraction;
    lemma_pointed(s, time.mark, fraction);
    lemma_pointed(m, ':', s + seq![time.mark] + fraction);
    lemma_pointed(h, ':', m + seq![':'] + (s + seq![time.mark] + fraction));
    let cleaned = h + seq![':'] + (m + seq![':'] + tail);
    assert(replace_char((WrittenTime { fraction, ..time }).text(), ',', '.') == cleaned);
    assert forall|i: int| 0 <= i < tail.len() implies #[trigger] tail[i] != ':' by {
        if i < s.len() {
            assert(tail[i] == s[i]);
        } else if i > s.len() {
            assert(tail[i] == fraction[i - s.len() - 1]);
        }
    }
    lemma_split_none(tail, ':');
    lemma_split_at(m, ':', tail);
    lemma_split_at(h, ':', m + seq![':'] + tail);
    assert(split(cleaned, ":"@) =~= seq![h, m, tail]);
    lemma_split_none(fraction, '.');
    lemma_split_at(s, '.', fraction);
    assert(split(tail, "."@) =~= seq![s, fraction]);
    lemma_three_bytes(fraction);
}

/// A text without colons, or with one alone, is no time.
pub proof fn times_have_two_colons(a: Seq<char>, b: Seq<char>)
    requires
        forall|i: int| 0 <= i < a.len() ==> #[trigger] a[i] != ':',
        forall|i: int| 0 <= i < b.len() ==> #[trigger] b[i] != ':',
    ensures
        ticks(a) is None,
        ticks(a + seq![':'] + b) is None,
{
    lemma_literals();
    let pa = replace_char(a, ',', '.');
    let pb = replace_char(b, ',', '.');
    assert forall|i: int| 0 <= i < pa.len() implies #[trigger] pa[i] != ':' by {
        assert(a[i] != ':');
    }
    assert forall|i: int| 0 <= i < pb.len() implies #[trigger] pb[i] != ':' by {
        assert(b[i] != ':');
    }
    lemma_split_none(pa, ':');
    lemma_split_none(pb, ':');
    lemma_pointed(a, ':', b);
    lemma_split_at(pa, ':', pb);
}

// --- Blocks as track events ---
/// A timing line as it is written, with white space around its two timestamps.
pub open spec fn timing_line_of(
    w0: Seq<char>,
    start: Seq<char>,
    w1: Seq<char>,
    w2: Seq<char>,
    end: Seq<char>,
    w3: Seq<char>,
) -> Seq<char> {
    (w0 + start + w1) + arrow() + (w2 + end + w3)
}

/// Whether a text has no hyphen in it, and no white space at its ends.
pub open spec fn is_stamp(s: Seq<char>) -> bool {
    &&& forall|i: int| 0 <= i < s.len() ==> #[trigger] s[i] != '-'
    &&& s.len() > 0 ==> !is_white(s[0]) && !is_white(s.last())
}

proof fn lemma_no_hyphen(w0: Seq<char>, s: Seq<char>, w1: Seq<char>)
    requires
        is_blank(w0),
        is_blank(w1),
        is_stamp(s),
    ensures
        forall|i: int| 0 <= i < (w0 + s + w1).len() ==> #[trigger] (w0 + s + w1)[i] != '-',
{
    let t = w0 + s + w1;
    assert forall|i: int| 0 <= i < t.len() implies #[trigger] t[i] != '-' by {
        if i < w0.len() {
            assert(t[i] == w0[i]);
        } else if i < w0.len() + s.len() {
            assert(t[i] == s[i - w0.len()]);
        } else {
            assert(t[i] == w1[i - w0.len() - s.len()]);
        }
    }
}

proof fn lemma_arrow_needs_hyphen(s: Seq<char>, i: int)
    requires
        occurs_at(s, arrow(), i),
    ensures
        0 <= i,
        i + 3 <= s.len(),
        s[i] == '-',
        s[i + 1] == '-',
        s[i + 2] == '>',
{
    let sub = s.subrange(i, i + 3);
    assert(sub[0] == s[i] && sub[1] == s[i + 1] && sub[2] == s[i + 2]);
}

proof fn lemma_timing_parts(
    w0: Seq<char>,
    start: Seq<char>,
    w1: Seq<char>,
    w2: Seq<char>,
    end: Seq<char>,
    w3: Seq<char>,
)
    requires
        is_blank(w0) && is_blank(w1) && is_blank(w2) && is_blank(w3),
        is_stamp(start),
        is_stamp(end),
    ensures
        split(timing_line_of(w0, start, w1, w2, end, w3), arrow()) == seq![
            w0 + start + w1,
            w2 + end + w3,
        ],
        trim(w0 + start + w1) == start,
        trim(w2 + end + w3) == end,
{
    let a = w0 + start + w1;
    let b = w2 + end + w3;
    let line = timing_line_of(w0, start, w1, w2, end, w3);
    lemma_no_hyphen(w0, start, w1);
    lemma_no_hyphen(w2, end, w3);
    assert forall|j: int| 0 <= j < a.len() implies !occurs_at(line, arrow(), j) by {
        if occurs_at(line, arrow(), j) {
            lemma_arrow_needs_hyphen(line, j);
            assert(line[j] == a[j]);
        }
    }
    separators_part(a, arrow(), b);
    assert forall|j: int| !occurs_at(b, arrow(), j) by {
        if occurs_at(b, arrow(), j) {
            lemma_arrow_needs_hyphen(b, j);
            assert(b[j] != '-');
        }
    }
    nothing_is_parted_without_separator(b, arrow());
    trimming_takes_off_white_space(w0, start, w1);
    trimming_takes_off_white_space(w2, end, w3);
    assert(split(line, arrow()) =~= seq![a, b]);
}

/// The track event for a block that starts with a number: from the one timestamp to
/// the other, with the lines of the text. A block whose timestamps are none gives
/// nothing.
pub proof fn numbered_blocks_are_read(
    before: Seq<char>,
    digits: Seq<char>,
    after: Seq<char>,
    w0: Seq<char>,
    start: Seq<char>,
    w1: Seq<char>,
    w2: Seq<char>,
    end: Seq<char>,
    w3: Seq<char>,
    text: Seq<Seq<char>>,
)
    requires
        is_blank(before) && is_blank(after),
        are_digits(digits),
        is_blank(w0) && is_blank(w1) && is_blank(w2) && is_blank(w3),
        is_stamp(start),
        is_stamp(end),
        are_plain_lines(
            seq![before + digits + after, timing_line_of(w0, start, w1, w2, end, w3)] + text,
        ),
    ensures
        block_cue(
            join(
                seq![before + digits + after, timing_line_of(w0, start, w1, w2, end, w3)] + text,
                seq!['\n'],
            ),
        ) == (if ticks(start) is Some && ticks(end) is Some {
            Some(
                CueView {
                    text: join(text, seq!['\n']),
                    start: ticks(start)->0,
                    end: ticks(end)->0,
                },
            )
        } else {
            None
        }),
{
    lemma_literals();
    let timing = timing_line_of(w0, start, w1, w2, end, w3);
    lemma_number_line(before, digits, after);
    lemma_cue_lines_numbered(before + digits + after, timing, text);
    lemma_timing_parts(w0, start, w1, w2, end, w3);
    assert((seq![timing] + text).skip(1) =~= text);
}

/// The track event for a block that starts with its timing line.
pub proof fn unnumbered_blocks_are_read(
    w0: Seq<char>,
    start: Seq<char>,
    w1: Seq<char>,
    w2: Seq<char>,
    end: Seq<char>,
    w3: Seq<char>,
    text: Seq<Seq<char>>,
)
    requires
        is_blank(w0) && is_blank(w1) && is_blank(w2) && is_blank(w3),
        is_stamp(start),
        is_stamp(end),
        text.len() > 0,
        are_plain_lines(seq![timing_line_of(w0, start, w1, w2, end, w3)] + text),
    ensures
        block_cue(
            join(seq![timing_line_of(w0, start, w1, w2, end, w3)] + text, seq!['\n']),
        ) == (if ticks(start) is Some && ticks(end) is Some {
            Some(
                CueView {
                    text: join(text, seq!['\n']),
                    start: ticks(start)->0,
                    end: ticks(end)->0,
                },
            )
        } else {
            None
        }),
{
    lemma_literals();
    let timing = timing_line_of(w0, start, w1, w2, end, w3);
    assert(timing[(w0 + start + w1).len() as int] == '-');
    lemma_cue_lines_unnumbered(timing, text);
    lemma_timing_parts(w0, start, w1, w2, end, w3);
    assert((seq![timing] + text).skip(1) =~= text);
}

/// A block whose second line has no arrow gives no track event.
pub proof fn blocks_without_arrow_are_not_read(
    digits: Seq<char>,
    line: Seq<char>,
    text: Seq<Seq<char>>,
)
    requires
        are_digits(digits),
        !has_arrow(line),
        are_plain_lines(seq![digits, line] + text),
    ensures
        block_cue(join(seq![digits, line] + text, seq!['\n'])) is None,
{
    lemma_literals();
    let none = Seq::<char>::empty();
    lemma_number_line(none, digits, none);
    assert(none + digits + none =~= digits);
    lemma_cue_lines_numbered(digits, line, text);
    lemma_has_arrow(line);
    nothing_is_parted_without_separator(line, arrow());
}

// --- Whole texts ---
/// A cue of an SRT text: its number, its timing line and the lines of its text.
pub struct WrittenCue {
    pub number: nat,
    pub timing: Seq<char>,
    pub text: Seq<Seq<char>>,
}

impl WrittenCue {
    /// The timing line has an arrow, there is a text, and no line of it is empty.
    pub open spec fn wf(self) -> bool {
        &&& is_plain_line(self.timing) && has_arrow(self.timing)
        &&& self.text.len() > 0
        &&& forall|i: int|
            0 <= i < self.text.len() ==> is_plain_line(#[trigger] self.text[i])
                && self.text[i].len() > 0
    }

    /// The lines of the block.
    pub open spec fn lines(self) -> Seq<Seq<char>> {
        seq![decimal(self.number), self.timing] + self.text
    }

    /// The block as it is written.
    pub open spec fn block(self) -> Seq<char> {
        join(self.lines(), seq!['\n'])
    }

    /// The cue in WebVTT.
    pub open spec fn converted(self) -> Seq<char> {
        replace_char(self.timing, ',', '.') + seq!['\n'] + ended(self.text) + seq!['\n']
    }
}

/// Whether each cue can be written, and no white space stands at the end of them
/// all.
pub open spec fn are_written(cues: Seq<WrittenCue>) -> bool {
    &&& cues.len() > 0
    &&& forall|i: int| 0 <= i < cues.len() ==> (#[trigger] cues[i]).wf()
    &&& !is_white(cues.last().text.last().last())
}

/// The blocks of cues.
pub open spec fn blocks_of(cues: Seq<WrittenCue>) -> Seq<Seq<char>> {
    cues.map_values(|cue: WrittenCue| cue.block())
}

/// An SRT text: the blocks with an empty line between each two.
pub open spec fn srt_text(cues: Seq<WrittenCue>) -> Seq<char> {
    join(blocks_of(cues), seq!['\n', '\n'])
}

/// The cues in WebVTT, one after the other.
pub open spec fn all_converted(cues: Seq<WrittenCue>) -> Seq<char>
    decreases cues.len(),
{
    if cues.len() == 0 {
        seq![]
    } else {
        all_converted(cues.drop_last()) + cues.last().converted()
    }
}

/// Whether a block has no two line feeds in a row, none at its ends, no carriage
/// return, and a digit at its start.
spec fn is_block(s: Seq<char>) -> bool {
    &&& s.len() > 0
    &&& is_digit(s[0])
    &&& s.last() != '\n'
    &&& forall|i: int| 0 <= i < s.len() - 1 ==> !(#[trigger] s[i] == '\n' && s[i + 1] == '\n')
    &&& forall|i: int| 0 <= i < s.len() ==> #[trigger] s[i] != '\r'
}

proof fn lemma_joined_lines(parts: Seq<Seq<char>>)
    requires
        parts.len() > 0,
        forall|i: int|
            0 <= i < parts.len() ==> is_plain_line(#[trigger] parts[i]) && parts[i].len() > 0,
    ensures
        join(parts, seq!['\n']).len() > 0,
        join(parts, seq!['\n'])[0] == parts[0][0],
        join(parts, seq!['\n']).last() == parts.last().last(),
        ({
            let s = join(parts, seq!['\n']);
            &&& forall|i: int|
                0 <= i < s.len() - 1 ==> !(#[trigger] s[i] == '\n' && s[i + 1] == '\n')
            &&& forall|i: int| 0 <= i < s.len() ==> #[trigger] s[i] != '\r'
        }),
    decreases parts.len(),
{
    let feed = seq!['\n'];
    let s = join(parts, feed);
    lemma_join_first(parts, feed);
    let first = parts[0];
    assert(is_plain_line(first));
    if parts.len() > 1 {
        let rest = parts.skip(1);
        assert forall|i: int| 0 <= i < rest.len() implies is_plain_line(#[trigger] rest[i])
            && rest[i].len() > 0 by {
            assert(rest[i] == parts[i + 1]);
        }
        lemma_joined_lines(rest);
        let t = join(rest, feed);
        let n = first.len() as int;
        assert(is_plain_line(rest[0]));
        assert(rest[0][0] != '\n');
        assert forall|i: int| 0 <= i < s.len() - 1 implies !(#[trigger] s[i] == '\n' && s[i + 1]
            == '\n') by {
            if i < n {
                assert(s[i] == first[i]);
            } else if i == n {
                assert(s[i + 1] == t[0]);
            } else {
                assert(s[i] == t[i - n - 1]);
                assert(s[i + 1] == t[i + 1 - n - 1]);
            }
        }
        assert forall|i: int| 0 <= i < s.len() implies #[trigger] s[i] != '\r' by {
            if i < n {
                assert(s[i] == first[i]);
            } else if i > n {
                assert(s[i] == t[i - n - 1]);
            }
        }
    }
}

proof fn lemma_written_block(cue: WrittenCue)
    requires
        cue.wf(),
    ensures
        is_block(cue.block()),
        cue.block().last() == cue.text.last().last(),
        are_plain_lines(cue.lines()),
        block_vtt(cue.block()) == cue.converted(),
{
    decimal_reads_back(cue.number);
    let number = decimal(cue.number);
    assert(is_digit(number[0]));
    let parts = cue.lines();
    assert forall|i: int| 0 <= i < parts.len() implies is_plain_line(#[trigger] parts[i])
        && parts[i].len() > 0 by {
        if i == 0 {
            assert forall|j: int| 0 <= j < number.len() implies #[trigger] number[j] != '\n'
                && number[j] != '\r' by {
                assert(is_digit(number[j]));
            }
        } else if i == 1 {
            let k = choose|k: int|
                0 <= k && k + 3 <= cue.timing.len() && #[trigger] cue.timing[k] == '-'
                    && cue.timing[k + 1] == '-' && cue.timing[k + 2] == '>';
            assert(parts[i] == cue.timing);
        } else {
            assert(parts[i] == cue.text[i - 2]);
        }
    }
    lemma_joined_lines(parts);
    let block = cue.block();
    assert(block.last() == cue.text.last().last());
    assert(is_plain_line(cue.text[cue.text.len() - 1]));
    assert(cue.text.last()[cue.text.last().len() - 1] != '\n');
    let none = Seq::<char>::empty();
    assert(none + number + none =~= number);
    assert forall|j: int| 0 <= j < number.len() implies '0' <= #[trigger] number[j] <= '9' by {
        assert(is_digit(number[j]));
    }
    numbered_blocks_are_converted(none, number, none, cue.timing, cue.text);
}

proof fn lemma_blank_line_at(s: Seq<char>, i: int)
    requires
        occurs_at(s, seq!['\n', '\n'], i),
    ensures
        0 <= i,
        i + 2 <= s.len(),
        s[i] == '\n',
        s[i + 1] == '\n',
{
    let sub = s.subrange(i, i + 2);
    assert(sub[0] == s[i] && sub[1] == s[i + 1]);
}

proof fn lemma_split_blocks(blocks: Seq<Seq<char>>)
    requires
        blocks.len() > 0,
        forall|i: int| 0 <= i < blocks.len() ==> is_block(#[trigger] blocks[i]),
    ensures
        split(join(blocks, seq!['\n', '\n']), seq!['\n', '\n']) == blocks,
        join(blocks, seq!['\n', '\n']).len() > 0,
        join(blocks, seq!['\n', '\n'])[0] == blocks[0][0],
        join(blocks, seq!['\n', '\n']).last() == blocks.last().last(),
        ({
            let s = join(blocks, seq!['\n', '\n']);
            forall|i: int| 0 <= i < s.len() ==> #[trigger] s[i] != '\r'
        }),
    decreases blocks.len(),
{
    let blank = seq!['\n', '\n'];
    let s = join(blocks, blank);
    lemma_join_first(blocks, blank);
    let first = blocks[0];
    assert(is_block(first));
    let n = first.len() as int;
    if blocks.len() == 1 {
        assert forall|j: int| !occurs_at(s, blank, j) by {
            if occurs_at(s, blank, j) {
                lemma_blank_line_at(s, j);
                assert(s[j] == '\n' && s[j + 1] == '\n');
            }
        }
        nothing_is_parted_without_separator(s, blank);
        assert(seq![s] =~= blocks);
    } else {
        let rest = blocks.skip(1);
        assert forall|i: int| 0 <= i < rest.len() implies is_block(#[trigger] rest[i]) by {
            assert(rest[i] == blocks[i + 1]);
        }
        lemma_split_blocks(rest);
        let t = join(rest, blank);
        assert forall|j: int| 0 <= j < n implies !occurs_at(s, blank, j) by {
            if occurs_at(s, blank, j) {
                lemma_blank_line_at(s, j);
                assert(s[j] == first[j]);
                if j < n - 1 {
                    assert(s[j + 1] == first[j + 1]);
                } else {
                    assert(first[j] == first.last());
                }
            }
        }
        separators_part(first, blank, t);
        assert(seq![first] + rest =~= blocks);
        assert forall|i: int| 0 <= i < s.len() implies #[trigger] s[i] != '\r' by {
            if i < n {
                assert(s[i] == first[i]);
            } else if i >= n + 2 {
                assert(s[i] == t[i - n - 2]);
            }
        }
    }
}

proof fn lemma_unify_without_return(s: Seq<char>)
    requires
        forall|i: int| 0 <= i < s.len() ==> #[trigger] s[i] != '\r',
    ensures
        unify_newlines(s) == s,
    decreases s.len(),
{
    if s.len() > 0 {
        let t = s.skip(1);
        assert forall|i: int| 0 <= i < t.len() implies #[trigger] t[i] != '\r' by {
            assert(t[i] == s[i + 1]);
        }
        lemma_unify_without_return(t);
        assert(seq![s[0]] + t =~= s);
    }
}

proof fn lemma_srt_text(cues: Seq<WrittenCue>)
    requires
        are_written(cues),
    ensures
        unify_newlines(srt_text(cues)) == srt_text(cues),
        trim(srt_text(cues)) == srt_text(cues),
        trim_start_char(srt_text(cues), '\u{FEFF}') == srt_text(cues),
        !has_vtt_header(srt_text(cues)),
        split(srt_text(cues), seq!['\n', '\n']) == blocks_of(cues),
{
    let blocks = blocks_of(cues);
    let s = srt_text(cues);
    assert forall|i: int| 0 <= i < blocks.len() implies is_block(#[trigger] blocks[i]) by {
        assert(blocks[i] == cues[i].block());
        lemma_written_block(cues[i]);
    }
    lemma_split_blocks(blocks);
    lemma_written_block(cues.last());
    assert(blocks.last() == cues.last().block());
    assert(is_block(blocks[0]));
    assert(is_digit(s[0]));
    lemma_unify_without_return(s);
    lemma_trim_is(s);
    lemma_trim_start_is(s, 0);
    assert(s.skip(0) =~= s);
    lemma_literals();
    if has_vtt_header(s) {
        let sub = s.subrange(0, 6);
        assert(sub[0] == s[0]);
        assert(sub == "WEBVTT"@);
        assert("WEBVTT"@[0] == 'W');
    }
}

/// An SRT text is converted cue by cue, however many there are and whatever their
/// numbers: behind the header stands each timing line with points for commas, the
/// lines of the text as they are, and an empty line.
pub proof fn srt_is_converted(cues: Seq<WrittenCue>)
    requires
        are_written(cues),
    ensures
        vtt(srt_text(cues)) == seq!['W', 'E', 'B', 'V', 'T', 'T', '\n', '\n'] + all_converted(cues),
{
    lemma_literals();
    lemma_srt_text(cues);
    lemma_blocks_converted(cues);
}

/// White space around an SRT text makes no difference.
pub proof fn white_space_around_srt_does_not_matter(
    before: Seq<char>,
    cues: Seq<WrittenCue>,
    after: Seq<char>,
)
    requires
        are_written(cues),
        is_blank(before) && is_blank(after),
        forall|i: int| 0 <= i < before.len() ==> #[trigger] before[i] != '\r',
        forall|i: int| 0 <= i < after.len() ==> #[trigger] after[i] != '\r',
    ensures
        vtt(before + srt_text(cues) + after) == vtt(srt_text(cues)),
        srt_cues(before + srt_text(cues) + after) == srt_cues(srt_text(cues)),
{
    let s = srt_text(cues);
    let whole = before + s + after;
    lemma_srt_text(cues);
    lemma_srt_text_ends(cues);
    lemma_no_return_in_both(before, s);
    lemma_no_return_in_both(before + s, after);
    lemma_unify_without_return(whole);
    trimming_takes_off_white_space(before, s, after);
    if before.len() > 0 {
        assert(whole[0] == before[0]);
    } else {
        assert(whole[0] == s[0]);
    }
    assert(trim_start_char(whole, '\u{FEFF}') == whole);
    lemma_literals();
    if has_vtt_header(whole) {
        let t = s + after;
        assert(trim_start(whole) == t);
        let sub = t.subrange(0, 6);
        assert(sub[0] == s[0]);
        assert(sub == "WEBVTT"@);
        assert("WEBVTT"@[0] == 'W');
    }
}

proof fn lemma_srt_text_ends(cues: Seq<WrittenCue>)
    requires
        are_written(cues),
    ensures
        srt_text(cues).len() > 0,
        is_digit(srt_text(cues)[0]),
        !is_white(srt_text(cues).last()),
        ({
            let s = srt_text(cues);
            forall|i: int| 0 <= i < s.len() ==> #[trigger] s[i] != '\r'
        }),
{
    let blocks = blocks_of(cues);
    assert forall|i: int| 0 <= i < blocks.len() implies is_block(#[trigger] blocks[i]) by {
        assert(blocks[i] == cues[i].block());
        lemma_written_block(cues[i]);
    }
    lemma_split_blocks(blocks);
    lemma_written_block(cues.last());
    assert(blocks.last() == cues.last().block());
    assert(is_block(blocks[0]));
}

proof fn lemma_blocks_converted(cues: Seq<WrittenCue>)
    requires
        forall|i: int| 0 <= i < cues.len() ==> (#[trigger] cues[i]).wf(),
    ensures
        blocks_vtt(blocks_of(cues)) == all_converted(cues),
    decreases cues.len(),
{
    if cues.len() > 0 {
        let front = cues.drop_last();
        assert forall|i: int| 0 <= i < front.len() implies (#[trigger] front[i]).wf() by {
            assert(front[i] == cues[i]);
        }
        lemma_blocks_converted(front);
        assert(blocks_of(cues).drop_last() =~= blocks_of(front));
        lemma_written_block(cues.last());
    }
}

/// A cue with its times, as it is written in SRT.
pub struct TimedCue {
    pub number: nat,
    pub start: WrittenTime,
    pub end: WrittenTime,
    pub text: Seq<Seq<char>>,
}

impl TimedCue {
    /// The cue as it is written: its timing line has an arrow with a space on either
    /// side between the two times.
    pub open spec fn written(self) -> WrittenCue {
        WrittenCue {
            number: self.number,
            timing: timing_line_of(
                seq![],
                self.start.text(),
                seq![' '],
                seq![' '],
                self.end.text(),
                seq![],
            ),
            text: self.text,
        }
    }

    /// The times and the lines of the text can be written.
    pub open spec fn wf(self) -> bool {
        self.start.wf() && self.end.wf() && self.written().wf()
    }
}

proof fn lemma_time_is_stamp(time: WrittenTime)
    requires
        time.wf(),
    ensures
        is_stamp(time.text()),
{
    let t = time.text();
    assert('0' <= time.hours[0] <= '9');
    assert(t[0] == time.hours[0]);
    assert('0' <= time.fraction[time.fraction.len() - 1] <= '9');
    assert(t.last() == time.fraction[time.fraction.len() - 1]);
    let a = time.hours.len() as int;
    let b = a + 1 + time.minutes.len();
    let c = b + 1 + time.seconds.len();
    assert forall|i: int| 0 <= i < t.len() implies #[trigger] t[i] != '-' by {
        if i < a {
            assert(t[i] == time.hours[i]);
        } else if i == a {
            assert(t[i] == ':');
        } else if i < b {
            assert(t[i] == time.minutes[i - a - 1]);
        } else if i == b {
            assert(t[i] == ':');
        } else if i < c {
            assert(t[i] == time.seconds[i - b - 1]);
        } else if i == c {
            assert(t[i] == time.mark);
        } else {
            assert(t[i] == time.fraction[i - c - 1]);
        }
    }
}

/// Every cue of an SRT text is read, in its place: its text, and the ticks of its
/// times.
pub proof fn srt_cues_read_back(cues: Seq<TimedCue>)
    requires
        cues.len() > 0,
        forall|i: int| 0 <= i < cues.len() ==> (#[trigger] cues[i]).wf(),
        !is_white(cues.last().text.last().last()),
    ensures
        srt_cues(srt_text(cues.map_values(|cue: TimedCue| cue.written()))) == cues.map_values(
            |cue: TimedCue| read_cue(cue),
        ),
{
    lemma_literals();
    let written = cues.map_values(|cue: TimedCue| cue.written());
    assert forall|i: int| 0 <= i < written.len() implies (#[trigger] written[i]).wf() by {
        assert(cues[i].wf());
    }
    lemma_srt_text(written);
    lemma_cues_read(cues);
}

/// The cue that is read of a timed one.
pub open spec fn read_cue(cue: TimedCue) -> CueView {
    CueView {
        text: join(cue.text, seq!['\n']),
        start: (cue.start.whole_millis() + millis_of(cue.start.fraction)) * 10_000,
        end: (cue.end.whole_millis() + millis_of(cue.end.fraction)) * 10_000,
    }
}

#[verifier::rlimit(40)]
proof fn lemma_timed_block(cue: TimedCue)
    requires
        cue.wf(),
    ensures
        block_cue(cue.written().block()) == Some(read_cue(cue)),
{
    lemma_written_block(cue.written());
    times_are_read(cue.start);
    times_are_read(cue.end);
    lemma_time_is_stamp(cue.start);
    lemma_time_is_stamp(cue.end);
    decimal_reads_back(cue.number);
    let number = decimal(cue.number);
    let none = Seq::<char>::empty();
    assert(none + number + none =~= number);
    assert forall|j: int| 0 <= j < number.len() implies '0' <= #[trigger] number[j] <= '9' by {
        assert(is_digit(number[j]));
    }
    numbered_blocks_are_read(
        none,
        number,
        none,
        none,
        cue.start.text(),
        seq![' '],
        seq![' '],
        cue.end.text(),
        none,
        cue.text,
    );
}

proof fn lemma_all_blocks_read(blocks: Seq<Seq<char>>, cues: Seq<CueView>)
    requires
        blocks.len() == cues.len(),
        forall|i: int| 0 <= i < blocks.len() ==> block_cue(#[trigger] blocks[i]) == Some(cues[i]),
    ensures
        blocks_cues(blocks) == cues,
    decreases blocks.len(),
{
    if blocks.len() == 0 {
        assert(blocks_cues(blocks) =~= cues);
    } else {
        let front = blocks.drop_last();
        let read = cues.drop_last();
        assert forall|i: int| 0 <= i < front.len() implies block_cue(#[trigger] front[i]) == Some(
            read[i],
        ) by {
            assert(front[i] == blocks[i]);
        }
        lemma_all_blocks_read(front, read);
        assert(block_cue(blocks[blocks.len() - 1]) == Some(cues.last()));
        assert(cues =~= read.push(cues.last()));
    }
}

#[verifier::rlimit(40)]
proof fn lemma_cues_read(cues: Seq<TimedCue>)
    requires
        forall|i: int| 0 <= i < cues.len() ==> (#[trigger] cues[i]).wf(),
    ensures
        blocks_cues(blocks_of(cues.map_values(|cue: TimedCue| cue.written()))) == cues.map_values(
            |cue: TimedCue| read_cue(cue),
        ),
{
    let read = cues.map_values(|cue: TimedCue| read_cue(cue));
    let blocks = blocks_of(cues.map_values(|cue: TimedCue| cue.written()));
    assert forall|i: int| 0 <= i < blocks.len() implies block_cue(#[trigger] blocks[i]) == Some(
        read[i],
    ) by {
        let cue = cues[i];
        assert(cue.wf());
        lemma_timed_block(cue);
        assert(blocks[i] == cue.written().block());
        assert(read[i] == read_cue(cue));
    }
    lemma_all_blocks_read(blocks, read);
}

/// The ticks of a time that is written.
pub open spec fn written_ticks(time: WrittenTime) -> int {
    (time.whole_millis() + millis_of(time.fraction)) * 10_000
}

proof fn lemma_millis(fraction: Seq<char>)
    requires
        are_digits(fraction),
    ensures
        0 <= millis_of(fraction) < 1000,
{
    if fraction.len() > 0 {
        assert('0' <= fraction[0] <= '9');
    }
    if fraction.len() > 1 {
        assert('0' <= fraction[1] <= '9');
    }
    if fraction.len() > 2 {
        assert('0' <= fraction[2] <= '9');
    }
}

/// Every time whose ticks can be counted can be read, and so can every text that is no
/// time.
pub proof fn countable_times_can_be_read(time: WrittenTime, other: Seq<char>)
    requires
        time.wf(),
        written_ticks(time) <= i64::MAX,
        forall|i: int| 0 <= i < other.len() ==> #[trigger] other[i] != ':',
    ensures
        readable_timestamp(time.text()),
        readable_timestamp(other),
{
    lemma_literals();
    times_are_read(time);
    lemma_millis(time.fraction);
    lemma_written_fields(time);
    let po = replace_char(other, ',', '.');
    assert forall|i: int| 0 <= i < po.len() implies #[trigger] po[i] != ':' by {
        assert(other[i] != ':');
    }
    lemma_split_none(po, ':');
}

proof fn lemma_written_fields(time: WrittenTime)
    requires
        time.wf(),
    ensures
        timestamp_fields(time.text()) is Some,
        timestamp_fields(time.text())->0.hours == digits_value(time.hours),
        timestamp_fields(time.text())->0.minutes == digits_value(time.minutes),
        timestamp_fields(time.text())->0.seconds == digits_value(time.seconds),
        timestamp_fields(time.text())->0.fraction == Some(time.fraction),
        byte_prefix(pad_to_three(time.fraction), 3) is Some,
        crate::subtitles::fraction_millis(Some(time.fraction)) == Some(millis_of(time.fraction)),
{
    lemma_literals();
    let h = time.hours;
    let m = time.minutes;
    let s = time.seconds;
    let f = time.fraction;
    lemma_digits_stay(h);
    lemma_digits_stay(m);
    lemma_digits_stay(s);
    lemma_digits_stay(f);
    lemma_parse_digits(h);
    lemma_parse_digits(m);
    lemma_parse_digits(s);
    let tail = s + seq!['.'] + f;
    lemma_pointed(s, time.mark, f);
    lemma_pointed(m, ':', s + seq![time.mark] + f);
    lemma_pointed(h, ':', m + seq![':'] + (s + seq![time.mark] + f));
    let cleaned = h + seq![':'] + (m + seq![':'] + tail);
    assert(replace_char(time.text(), ',', '.') == cleaned);
    assert forall|i: int| 0 <= i < tail.len() implies #[trigger] tail[i] != ':' by {
        if i < s.len() {
            assert(tail[i] == s[i]);
        } else if i > s.len() {
            assert(tail[i] == f[i - s.len() - 1]);
        }
    }
    lemma_split_none(tail, ':');
    lemma_split_at(m, ':', tail);
    lemma_split_at(h, ':', m + seq![':'] + tail);
    assert(split(cleaned, ":"@) =~= seq![h, m, tail]);
    lemma_split_none(f, '.');
    lemma_split_at(s, '.', f);
    assert(split(tail, "."@) =~= seq![s, f]);
    let padded = pad_to_three(f);
    assert('0' <= f[0] <= '9');
    if f.len() > 1 {
        assert('0' <= f[1] <= '9');
    }
    if f.len() > 2 {
        assert('0' <= f[2] <= '9');
    }
    lemma_three_bytes(padded);
    let three = padded.take(3);
    assert forall|i: int| 0 <= i < three.len() implies '0' <= #[trigger] three[i] <= '9' by {}
    lemma_small_number(three);
    lemma_parse_digits(three);
}

/// Every SRT text whose times can be counted can be read.
pub proof fn countable_srt_can_be_read(cues: Seq<TimedCue>)
    requires
        cues.len() > 0,
        forall|i: int|
            0 <= i < cues.len() ==> (#[trigger] cues[i]).wf() && written_ticks(cues[i].start)
                <= i64::MAX && written_ticks(cues[i].end) <= i64::MAX,
        !is_white(cues.last().text.last().last()),
    ensures
        readable_srt(srt_text(cues.map_values(|cue: TimedCue| cue.written()))),
{
    lemma_literals();
    let written = cues.map_values(|cue: TimedCue| cue.written());
    assert forall|i: int| 0 <= i < written.len() implies (#[trigger] written[i]).wf() by {
        assert(cues[i].wf());
    }
    lemma_srt_text(written);
    let blocks = srt_blocks(srt_text(written));
    assert forall|i: int| 0 <= i < blocks.len() implies readable_block(#[trigger] blocks[i]) by {
        assert(blocks[i] == cues[i].written().block());
        assert(cues[i].wf());
        lemma_timed_block_readable(cues[i]);
    }
}

#[verifier::rlimit(40)]
proof fn lemma_timed_block_readable(cue: TimedCue)
    requires
        cue.wf(),
        written_ticks(cue.start) <= i64::MAX,
        written_ticks(cue.end) <= i64::MAX,
    ensures
        readable_block(cue.written().block()),
{
    lemma_literals();
    lemma_written_block(cue.written());
    lemma_time_is_stamp(cue.start);
    lemma_time_is_stamp(cue.end);
    let none = Seq::<char>::empty();
    countable_times_can_be_read(cue.start, none);
    countable_times_can_be_read(cue.end, none);
    decimal_reads_back(cue.number);
    let number = decimal(cue.number);
    assert forall|j: int| 0 <= j < number.len() implies '0' <= #[trigger] number[j] <= '9' by {
        assert(is_digit(number[j]));
    }
    lemma_number_line(none, number, none);
    assert(none + number + none =~= number);
    let timing = cue.written().timing;
    lemma_cue_lines_numbered(number, timing, cue.text);
    lemma_timing_parts(none, cue.start.text(), seq![' '], seq![' '], cue.end.text(), none);
}

/// What is given of cues as JSON: an object with the one entry `TrackEvents`, a list
/// with an object for each cue, in its place, that has exactly four entries.
pub proof fn track_events_have_four_entries(cues: Seq<CueView>, i: int)
    requires
        0 <= i < cues.len(),
    ensures
        ({
            let root = track_events_json(cues);
            let events = root->Dict_0["TrackEvents"@];
            let event = events->List_0[i];
            &&& root is Dict && root->Dict_0.dom() == set!["TrackEvents"@]
            &&& events is List && events->List_0.len() == cues.len()
            &&& event is Dict && event->Dict_0.dom() == set![
                "Id"@,
                "Text"@,
                "StartPositionTicks"@,
                "EndPositionTicks"@,
            ]
            &&& event->Dict_0["Id"@] == Json::Text(decimal(i as nat))
            &&& event->Dict_0["Text"@] == Json::Text(cues[i].text)
            &&& event->Dict_0["StartPositionTicks"@] == Json::Integer(cues[i].start)
            &&& event->Dict_0["EndPositionTicks"@] == Json::Integer(cues[i].end)
        }),
{
    reveal_strlit("Id");
    reveal_strlit("Text");
    reveal_strlit("StartPositionTicks");
    reveal_strlit("EndPositionTicks");
    assert("Id"@.len() == 2 && "Text"@.len() == 4 && "StartPositionTicks"@.len() == 18
        && "EndPositionTicks"@.len() == 16);
    let root = track_events_json(cues);
    let event = root->Dict_0["TrackEvents"@]->List_0[i];
    assert(root->Dict_0.dom() =~= set!["TrackEvents"@]);
    assert(event->Dict_0.dom() =~= set![
        "Id"@,
        "Text"@,
        "StartPositionTicks"@,
        "EndPositionTicks"@,
    ]);
}

// --- WebVTT ---
/// The lines of the cues in WebVTT: of each cue its timing line with points for
/// commas, the lines of its text, and an empty one.
pub open spec fn converted_lines(cues: Seq<WrittenCue>) -> Seq<Seq<char>>
    decreases cues.len(),
{
    if cues.len() == 0 {
        seq![]
    } else {
        converted_lines(cues.drop_last()) + (seq![replace_char(cues.last().timing, ',', '.')]
            + cues.last().text + seq![Seq::empty()])
    }
}

proof fn lemma_ended_of_both(a: Seq<Seq<char>>, b: Seq<Seq<char>>)
    ensures
        ended(a + b) == ended(a) + ended(b),
    decreases a.len(),
{
    if a.len() == 0 {
        assert(a + b =~= b);
        assert(ended(a) + ended(b) =~= ended(b));
    } else {
        lemma_ended_of_both(a.skip(1), b);
        assert((a + b).skip(1) =~= a.skip(1) + b);
        assert(a[0] + seq!['\n'] + (ended(a.skip(1)) + ended(b)) =~= ended(a) + ended(b));
    }
}

proof fn lemma_lines_of_ended(parts: Seq<Seq<char>>)
    requires
        forall|i: int| 0 <= i < parts.len() ==> is_plain_line(#[trigger] parts[i]),
    ensures
        lines(ended(parts)) == parts,
    decreases parts.len(),
{
    if parts.len() == 0 {
        assert(lines(ended(parts)) =~= parts);
    } else {
        let rest = parts.skip(1);
        assert forall|i: int| 0 <= i < rest.len() implies is_plain_line(#[trigger] rest[i]) by {
            assert(rest[i] == parts[i + 1]);
        }
        lemma_lines_of_ended(rest);
        line_ends_part_lines(parts[0], ended(rest));
        assert(seq![parts[0]] + rest =~= parts);
    }
}

proof fn lemma_converted_lines(cues: Seq<WrittenCue>)
    requires
        forall|i: int| 0 <= i < cues.len() ==> (#[trigger] cues[i]).wf(),
    ensures
        ended(converted_lines(cues)) == all_converted(cues),
        forall|i: int|
            0 <= i < converted_lines(cues).len() ==> is_plain_line(
                #[trigger] converted_lines(cues)[i],
            ),
    decreases cues.len(),
{
    if cues.len() == 0 {
        assert(ended(converted_lines(cues)) =~= all_converted(cues));
    } else {
        let front = cues.drop_last();
        assert forall|i: int| 0 <= i < front.len() implies (#[trigger] front[i]).wf() by {
            assert(front[i] == cues[i]);
        }
        lemma_converted_lines(front);
        let cue = cues.last();
        assert(cue.wf());
        let timing = replace_char(cue.timing, ',', '.');
        let none = Seq::<char>::empty();
        let own = seq![timing] + cue.text + seq![none];
        lemma_ended_of_both(converted_lines(front), own);
        lemma_ended_of_both(seq![timing] + cue.text, seq![none]);
        lemma_ended_of_both(seq![timing], cue.text);
        reveal_with_fuel(ended, 2);
        assert(seq![timing].skip(1) =~= Seq::empty());
        assert(seq![none].skip(1) =~= Seq::empty());
        assert(ended(own) =~= cue.converted());
        let all = converted_lines(cues);
        let n = converted_lines(front).len() as int;
        assert forall|i: int| 0 <= i < all.len() implies is_plain_line(#[trigger] all[i]) by {
            if i < n {
                assert(all[i] == converted_lines(front)[i]);
            } else if i == n {
                assert(all[i] == timing);
                assert forall|j: int| 0 <= j < timing.len() implies #[trigger] timing[j] != '\n'
                    && timing[j] != '\r' by {
                    assert(cue.timing[j] != '\n' && cue.timing[j] != '\r');
                }
            } else if i < n + 1 + cue.text.len() {
                assert(all[i] == cue.text[i - n - 1]);
            } else {
                assert(all[i] == none);
            }
        }
    }
}

/// The lines of the WebVTT for an SRT text: the header, an empty line, and those of
/// the cues.
pub proof fn srt_is_converted_line_by_line(cues: Seq<WrittenCue>)
    requires
        are_written(cues),
    ensures
        lines(vtt(srt_text(cues))) == seq![
            seq!['W', 'E', 'B', 'V', 'T', 'T'],
            Seq::empty(),
        ] + converted_lines(cues),
{
    srt_is_converted(cues);
    lemma_converted_lines(cues);
    let header = seq!['W', 'E', 'B', 'V', 'T', 'T'];
    let none = Seq::<char>::empty();
    let body = converted_lines(cues);
    let all = seq![header, none] + body;
    assert forall|i: int| 0 <= i < all.len() implies is_plain_line(#[trigger] all[i]) by {
        if i >= 2 {
            assert(all[i] == body[i - 2]);
        }
    }
    lemma_lines_of_ended(all);
    lemma_ended_of_both(seq![header, none], body);
    reveal_with_fuel(ended, 3);
    assert(seq![header, none].skip(1) =~= seq![none]);
    assert(seq![none].skip(1) =~= Seq::empty());
    assert(ended(all) =~= vtt(srt_text(cues)));
}

/// Every line with an arrow in the WebVTT for an SRT text, in whose own text no arrow
/// stands, is free of commas.
pub proof fn converted_timings_have_no_comma(cues: Seq<WrittenCue>, i: int)
    requires
        are_written(cues),
        forall|k: int, j: int|
            0 <= k < cues.len() && 0 <= j < cues[k].text.len() ==> !has_arrow(
                #[trigger] cues[k].text[j],
            ),
        0 <= i < lines(vtt(srt_text(cues))).len(),
        has_arrow(lines(vtt(srt_text(cues)))[i]),
    ensures
        !lines(vtt(srt_text(cues)))[i].contains(','),
{
    srt_is_converted_line_by_line(cues);
    let header = seq!['W', 'E', 'B', 'V', 'T', 'T'];
    if i < 2 {
        assert(lines(vtt(srt_text(cues)))[i] == header || lines(vtt(srt_text(cues)))[i].len() == 0);
    } else {
        lemma_no_comma(cues, i - 2);
    }
}

proof fn lemma_no_comma(cues: Seq<WrittenCue>, i: int)
    requires
        0 <= i < converted_lines(cues).len(),
        has_arrow(converted_lines(cues)[i]),
        forall|k: int, j: int|
            0 <= k < cues.len() && 0 <= j < cues[k].text.len() ==> !has_arrow(
                #[trigger] cues[k].text[j],
            ),
    ensures
        !converted_lines(cues)[i].contains(','),
    decreases cues.len(),
{
    let front = cues.drop_last();
    let n = converted_lines(front).len() as int;
    let last = cues.last();
    if i < n {
        assert forall|k: int, j: int|
            0 <= k < front.len() && 0 <= j < front[k].text.len() implies !has_arrow(
            #[trigger] front[k].text[j],
        ) by {
            assert(front[k] == cues[k]);
            assert(!has_arrow(cues[k].text[j]));
        }
        lemma_no_comma(front, i);
    } else if i == n {
        let line = converted_lines(cues)[i];
        assert(line == replace_char(last.timing, ',', '.'));
        assert forall|j: int| 0 <= j < line.len() implies #[trigger] line[j] != ',' by {}
    } else if i < n + 1 + last.text.len() {
        assert(converted_lines(cues)[i] == cues[cues.len() - 1].text[i - n - 1]);
    } else {
        assert(converted_lines(cues)[i].len() == 0);
    }
}

/// A line in which no arrow stands is no timing line, and stays as it is.
pub proof fn other_lines_stay(line: Seq<char>)
    requires
        !has_arrow(line),
    ensures
        normalize_line(line) == line,
{
    lemma_literals();
    lemma_has_arrow(line);
    lemma_find(line, arrow(), 0);
}

/// A timing line of WebVTT as it is written, with white space around each of its
/// parts.
pub open spec fn vtt_timing_line(
    w0: Seq<char>,
    start: Seq<char>,
    w1: Seq<char>,
    w2: Seq<char>,
    end: Seq<char>,
    w3: Seq<char>,
    settings: Seq<char>,
    w4: Seq<char>,
) -> Seq<char> {
    (w0 + start + w1) + arrow() + (w2 + (end + w3 + settings) + w4)
}

/// A timing line of WebVTT is normalized: points for the commas of the two
/// timestamps, one space on either side of the arrow and before the settings, and
/// the settings as they are.
pub proof fn timing_lines_are_normalized(
    w0: Seq<char>,
    start: Seq<char>,
    w1: Seq<char>,
    w2: Seq<char>,
    end: Seq<char>,
    w3: Seq<char>,
    settings: Seq<char>,
    w4: Seq<char>,
)
    requires
        is_blank(w0) && is_blank(w1) && is_blank(w2) && is_blank(w3) && is_blank(w4),
        start.len() > 0 ==> !is_white(start[0]) && !is_white(start.last()),
        forall|i: int| 0 <= i < start.len() ==> #[trigger] start[i] != '>',
        forall|i: int| 0 <= i < end.len() ==> !is_white(#[trigger] end[i]),
        settings.len() > 0 ==> end.len() > 0 && w3.len() > 0 && !is_white(settings[0])
            && !is_white(settings.last()),
        settings.len() == 0 ==> w3.len() == 0,
    ensures
        normalize_line(vtt_timing_line(w0, start, w1, w2, end, w3, settings, w4)) == replace_char(
            start,
            ',',
            '.',
        ) + seq![' ', '-', '-', '>', ' '] + replace_char(end, ',', '.') + (if settings.len() > 0 {
            seq![' '] + settings
        } else {
            seq![]
        }),
{
    lemma_literals();
    let line = vtt_timing_line(w0, start, w1, w2, end, w3, settings, w4);
    let head = w0 + start + w1;
    let middle = end + w3 + settings;
    let tail = w2 + middle + w4;
    let at = head.len() as int;
    assert(line.subrange(at, at + 3) =~= arrow());
    assert forall|j: int| 0 <= j < at implies !occurs_at(line, arrow(), j) by {
        if occurs_at(line, arrow(), j) {
            lemma_arrow_needs_hyphen(line, j);
            let k = j + 2;
            if k < at {
                assert(line[k] == head[k]);
                if k < w0.len() {
                    assert(head[k] == w0[k]);
                } else if k < w0.len() + start.len() {
                    assert(head[k] == start[k - w0.len()]);
                } else {
                    assert(head[k] == w1[k - w0.len() - start.len()]);
                }
            } else {
                assert(line[k] == '-');
            }
        }
    }
    lemma_find_is(line, arrow(), 0, at);
    assert(line.take(at) =~= head);
    assert(line.skip(at + 3) =~= tail);
    trimming_takes_off_white_space(w0, start, w1);
    if middle.len() > 0 {
        assert(middle[0] == end[0]);
        if settings.len() > 0 {
            assert(middle.last() == settings.last());
        } else {
            assert(middle.last() == end[end.len() - 1]);
        }
    }
    trimming_takes_off_white_space(w2, middle, w4);
    let word = end.len() as int;
    assert forall|j: int| 0 <= j < word implies !is_white(#[trigger] middle[j]) by {
        assert(middle[j] == end[j]);
    }
    if word < middle.len() {
        assert(middle[word] == w3[0]);
    }
    lemma_white_index_is(middle, word);
    assert(middle.take(word) =~= end);
    if settings.len() > 0 {
        let rest = middle.skip(word + 1);
        let left = w3.skip(1);
        assert(rest =~= left + settings);
        assert forall|j: int| 0 <= j < left.len() implies is_white(#[trigger] rest[j]) by {
            assert(rest[j] == w3[j + 1]);
        }
        assert(rest[left.len() as int] == settings[0]);
        lemma_trim_start_is(rest, left.len() as int);
        assert(rest.skip(left.len() as int) =~= settings);
        assert(normalize_line(line) =~= replace_char(start, ',', '.') + seq![
            ' ',
            '-',
            '-',
            '>',
            ' ',
        ] + replace_char(end, ',', '.') + (seq![' '] + settings));
    } else {
        assert(middle.len() == word);
        assert(normalize_line(line) =~= replace_char(start, ',', '.') + seq![
            ' ',
            '-',
            '-',
            '>',
            ' ',
        ] + replace_char(end, ',', '.') + Seq::<char>::empty());
    }
}

/// However the ends of its lines are written, a text is converted alike.
pub proof fn line_ends_do_not_matter(parts: Seq<Seq<char>>)
    requires
        forall|i: int| 0 <= i < parts.len() ==> is_plain_line(#[trigger] parts[i]),
    ensures
        vtt(join(parts, seq!['\r', '\n'])) == vtt(join(parts, seq!['\n'])),
        vtt(join(parts, seq!['\r'])) == vtt(join(parts, seq!['\n'])),
        srt_cues(join(parts, seq!['\r', '\n'])) == srt_cues(join(parts, seq!['\n'])),
        srt_cues(join(parts, seq!['\r'])) == srt_cues(join(parts, seq!['\n'])),
{
    line_ends_are_unified(parts);
    crate::subtitle_laws::vtt_ignores_line_end_style(
        join(parts, seq!['\r', '\n']),
        join(parts, seq!['\n']),
    );
    crate::subtitle_laws::vtt_ignores_line_end_style(
        join(parts, seq!['\r']),
        join(parts, seq!['\n']),
    );
}

/// The header of WebVTT.
pub open spec fn header() -> Seq<char> {
    seq!['W', 'E', 'B', 'V', 'T', 'T']
}

proof fn lemma_header_at(s: Seq<char>, i: int)
    requires
        occurs_at(s, header(), i),
    ensures
        0 <= i,
        i + 6 <= s.len(),
        forall|k: int| 0 <= k < 6 ==> s[i + k] == #[trigger] header()[k],
{
    let sub = s.subrange(i, i + 6);
    assert forall|k: int| 0 <= k < 6 implies s[i + k] == #[trigger] header()[k] by {
        assert(sub[k] == s[i + k]);
    }
}

proof fn lemma_has_header(rest: Seq<char>)
    ensures
        has_vtt_header(header() + rest),
        occurs_at(header() + rest, header(), 0),
        find(header() + rest, header(), 0) == Some(0int),
        trim_start_char(header() + rest, '\u{FEFF}') == header() + rest,
{
    lemma_literals();
    let s = header() + rest;
    assert(s[0] == 'W');
    lemma_trim_start_is(s, 0);
    assert(s.skip(0) =~= s);
    assert(s.subrange(0, 6) =~= header());
    lemma_find_is(s, header(), 0, 0);
}

/// White space before the header does not matter: the text is WebVTT, and only its
/// timestamps are normalized.
pub proof fn white_space_before_the_header_does_not_matter(blank: Seq<char>, rest: Seq<char>)
    requires
        is_blank(blank),
        forall|i: int| 0 <= i < blank.len() ==> #[trigger] blank[i] != '\r',
        forall|i: int| 0 <= i < rest.len() ==> #[trigger] rest[i] != '\r',
        !occurs(rest, header()),
    ensures
        vtt(blank + header() + rest) == normalize_vtt(blank + header() + rest),
{
    lemma_literals();
    let s = blank + header() + rest;
    lemma_no_return_in_both(blank, header());
    lemma_no_return_in_both(blank + header(), rest);
    lemma_unify_without_return(s);
    trimming_takes_off_white_space(blank, header(), Seq::empty());
    let at = blank.len() as int;
    if at > 0 {
        assert(s[0] == blank[0]);
    } else {
        assert(s[0] == 'W');
    }
    assert(trim_start_char(s, '\u{FEFF}') == s);
    assert(s[at] == header()[0]);
    assert forall|j: int| 0 <= j < at implies is_white(#[trigger] s[j]) by {
        assert(s[j] == blank[j]);
    }
    lemma_trim_start_is(s, at);
    assert(s.skip(at).subrange(0, 6) =~= header());
    assert(has_vtt_header(s));
    assert(s.subrange(at, at + 6) =~= header());
    assert forall|j: int| 0 <= j < at implies !occurs_at(s, header(), j) by {
        if occurs_at(s, header(), j) {
            lemma_header_at(s, j);
            assert(s[j + 0] == header()[0]);
            assert(is_white(s[j]));
        }
    }
    lemma_find_is(s, header(), 0, at);
    lemma_find(s, header(), at + 6);
    if let Some(j) = find(s, header(), at + 6) {
        assert(rest.subrange(j - at - 6, j - at) =~= s.subrange(j, j + 6));
        assert(occurs_at(rest, header(), j - at - 6));
    }
}

/// A text with the header in it a second time is taken from there on, however much
/// stands before; of a third header nothing comes.
pub proof fn vtt_starts_at_the_second_header(between: Seq<char>, rest: Seq<char>)
    requires
        forall|i: int| 0 <= i < between.len() ==> #[trigger] between[i] != '\r',
        forall|i: int| 0 <= i < rest.len() ==> #[trigger] rest[i] != '\r',
        !occurs(between, header()),
    ensures
        vtt(header() + (between + header() + rest)) == normalize_vtt(header() + rest),
{
    lemma_literals();
    let tail = between + header() + rest;
    let s = header() + tail;
    lemma_has_header(tail);
    lemma_no_return_in_both(between, header());
    lemma_no_return_in_both(between + header(), rest);
    lemma_no_return_in_both(header(), tail);
    lemma_unify_without_return(s);
    let at = 6 + between.len() as int;
    lemma_second_header(between, rest);
    lemma_find_is(s, header(), 6, at);
    assert(s.skip(at) =~= header() + rest);
}

proof fn lemma_no_return_in_both(a: Seq<char>, b: Seq<char>)
    requires
        forall|i: int| 0 <= i < a.len() ==> #[trigger] a[i] != '\r',
        forall|i: int| 0 <= i < b.len() ==> #[trigger] b[i] != '\r',
    ensures
        forall|i: int| 0 <= i < (a + b).len() ==> #[trigger] (a + b)[i] != '\r',
{
    assert forall|i: int| 0 <= i < (a + b).len() implies #[trigger] (a + b)[i] != '\r' by {
        if i < a.len() {
            assert((a + b)[i] == a[i]);
        } else {
            assert((a + b)[i] == b[i - a.len()]);
        }
    }
}

proof fn lemma_header_starts_once(s: Seq<char>, j: int, at: int)
    requires
        occurs_at(s, header(), j),
        j <= at < j + 6,
        s[at] == 'W',
    ensures
        j == at,
{
    lemma_header_at(s, j);
    let k = at - j;
    assert(s[j + k] == header()[k]);
}

proof fn lemma_second_header(between: Seq<char>, rest: Seq<char>)
    requires
        !occurs(between, header()),
    ensures
        ({
            let s = header() + (between + header() + rest);
            let at = 6 + between.len() as int;
            &&& occurs_at(s, header(), at)
            &&& forall|j: int| 6 <= j < at ==> !occurs_at(s, header(), j)
        }),
{
    let s = header() + (between + header() + rest);
    let at = 6 + between.len() as int;
    assert(s.subrange(at, at + 6) =~= header());
    assert forall|j: int| 6 <= j < at implies !occurs_at(s, header(), j) by {
        if occurs_at(s, header(), j) {
            if j + 6 <= at {
                assert(between.subrange(j - 6, j) =~= s.subrange(j, j + 6));
                assert(occurs_at(between, header(), j - 6));
            } else {
                assert(s[at] == header()[0]);
                lemma_header_starts_once(s, j, at);
            }
        }
    }
}

/// WebVTT that comes as SRT under a header keeps its lines: each timing line is
/// normalized, and every other line stays.
pub proof fn hybrid_vtt_keeps_its_lines(body: Seq<Seq<char>>)
    requires
        body.len() > 0,
        are_plain_lines(body),
        !occurs(join(body, seq!['\n']), header()),
    ensures
        lines(vtt(join(seq![header()] + body, seq!['\n']))) == seq![header()] + body.map_values(
            |line: Seq<char>| normalize_line(line),
        ),
{
    lemma_literals();
    let feed = seq!['\n'];
    let parts = seq![header()] + body;
    let s = join(parts, feed);
    lemma_join_first(parts, feed);
    assert(parts.skip(1) =~= body);
    let t = join(body, feed);
    assert(s =~= header() + (feed + t));
    assert forall|i: int| 0 <= i < parts.len() implies is_plain_line(#[trigger] parts[i]) by {
        if i > 0 {
            assert(parts[i] == body[i - 1]);
        }
    }
    line_ends_are_unified(parts);
    lemma_has_header(feed + t);
    lemma_find(s, header(), 6);
    if let Some(j) = find(s, header(), 6) {
        lemma_header_at(s, j);
        assert(s[j] == header()[0]);
        assert(s[6] == '\n');
        assert(t.subrange(j - 7, j - 1) =~= s.subrange(j, j + 6));
        assert(occurs_at(t, header(), j - 7));
    }
    assert(vtt(s) == normalize_vtt(s));
    lemma_lines_of_plain(parts);
    let f = |line: Seq<char>| normalize_line(line);
    let mapped = parts.map_values(f);
    lemma_header_stays();
    assert(mapped =~= seq![header()] + body.map_values(f));
    assert forall|i: int| 0 <= i < mapped.len() - 1 implies without_return(#[trigger] mapped[i])
        == mapped[i] by {
        lemma_normalized_has_no_return(parts[i]);
    }
    lemma_normalized_is_not_empty(parts.last());
    assert(mapped.last() == normalize_line(parts.last()));
    assert(stay_lines(mapped));
    normalizing_keeps_lines(s);
}

proof fn lemma_header_stays()
    ensures
        normalize_line(header()) == header(),
{
    other_lines_stay(header());
}

proof fn lemma_normalized_is_not_empty(line: Seq<char>)
    requires
        line.len() > 0,
    ensures
        normalize_line(line).len() > 0,
{
    lemma_literals();
}

proof fn lemma_normalized_has_no_return(line: Seq<char>)
    requires
        is_plain_line(line),
    ensures
        without_return(normalize_line(line)) == normalize_line(line),
{
    lemma_literals();
    if timing_of(line) is Some {
        crate::subtitle_laws::normalized_line_does_not_end_with_return(line);
    } else if line.len() > 0 {
        assert(line[line.len() - 1] != '\r');
    }
}

} // verus!
