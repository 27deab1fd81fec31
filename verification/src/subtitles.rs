//! Subtitle text conversion.
//!
//! The web client fetches subtitles as WebVTT or as JSON track events. The
//! subtitles come as SRT, or as SRT under a `WEBVTT` header.
use vstd::prelude::*;
use vstd::slice::slice_subrange;
use crate::json::{
    empty_dict, integer_value, json_of, json_text, jsons, list_value, set_entry, text_of_value,
    text_value, Json,
};
use crate::number::{all_digits, decimal, in_i64, only_digits, parse_i64, read_i64, write_decimal};
use crate::text::{
    chars_of, find, find_in, first_white, join, lemma_find, lines, lines_of, occurs_at, push_all,
    replace_char, replaced, split, split_on, starts_with, text_of, texts, trim, trim_start,
    trim_start_char, trimmed, unify_newlines, white_index, with_unified_newlines, without_leading,
    without_leading_white,
};

verus! {

// --- WebVTT ---
/// What a timing line of WebVTT holds: what stands before the arrow, the first
/// word behind it, and the cue settings that follow.
pub struct Timing {
    pub start: Seq<char>,
    pub end: Seq<char>,
    pub settings: Seq<char>,
}

/// What a line holds as a timing line, which is one with `-->` in it.
pub open spec fn timing_of(line: Seq<char>) -> Option<Timing> {
    match find(line, "-->"@, 0) {
        None => None,
        Some(arrow) => {
            let behind = trim(line.skip(arrow + 3));
            let word = white_index(behind);
            Some(
                Timing {
                    start: trim(line.take(arrow)),
                    end: behind.take(word),
                    settings: if word < behind.len() {
                        trim_start(behind.skip(word + 1))
                    } else {
                        seq![]
                    },
                },
            )
        },
    }
}

/// The timing line for a timing.
pub open spec fn timing_line(timing: Timing) -> Seq<char> {
    if timing.settings.len() == 0 {
        timing.start + " --> "@ + timing.end
    } else {
        timing.start + " --> "@ + timing.end + " "@ + timing.settings
    }
}

/// A timing with the commas of its timestamps turned into points.
pub open spec fn with_points(timing: Timing) -> Timing {
    Timing {
        start: replace_char(timing.start, ',', '.'),
        end: replace_char(timing.end, ',', '.'),
        settings: timing.settings,
    }
}

/// A line of WebVTT with the timestamps of a timing line normalized: points
/// for commas. Its cue settings stay as they are, and so does any other line.
pub open spec fn normalize_line(line: Seq<char>) -> Seq<char> {
    match timing_of(line) {
        None => line,
        Some(timing) => timing_line(with_points(timing)),
    }
}

/// A WebVTT text with the timestamps of its timing lines normalized.
pub open spec fn normalize_vtt(s: Seq<char>) -> Seq<char> {
    join(lines(s).map_values(|line: Seq<char>| normalize_line(line)), "\n"@)
}

/// The lines of an SRT block from its timing line on, for a block of at least
/// two lines. A first line of digits alone is the block's number.
pub open spec fn cue_lines(block: Seq<char>) -> Option<Seq<Seq<char>>> {
    let all = lines(block);
    if all.len() < 2 {
        None
    } else if all_digits(trim(all[0])) {
        Some(all.skip(1))
    } else {
        Some(all)
    }
}

/// The lines, each with a line feed behind it.
pub open spec fn terminated(parts: Seq<Seq<char>>) -> Seq<char>
    decreases parts.len(),
{
    if parts.len() == 0 {
        seq![]
    } else {
        terminated(parts.drop_last()) + parts.last() + "\n"@
    }
}

/// The WebVTT cue for an SRT block: its timing line with points for commas, its
/// text lines and an empty line. A block of fewer than two lines gives nothing.
pub open spec fn block_vtt(block: Seq<char>) -> Seq<char> {
    match cue_lines(block) {
        None => seq![],
        Some(content) => replace_char(content[0], ',', '.') + "\n"@ + terminated(content.skip(1))
            + "\n"@,
    }
}

/// The WebVTT cues for SRT blocks.
pub open spec fn blocks_vtt(blocks: Seq<Seq<char>>) -> Seq<char>
    decreases blocks.len(),
{
    if blocks.len() == 0 {
        seq![]
    } else {
        blocks_vtt(blocks.drop_last()) + block_vtt(blocks.last())
    }
}

/// Whether a text is WebVTT: `WEBVTT` is the first thing in it but for white space.
pub open spec fn has_vtt_header(s: Seq<char>) -> bool {
    occurs_at(trim_start(s), "WEBVTT"@, 0)
}

/// The WebVTT for a text whose line ends are line feeds.
///
/// A text that has the header stays WebVTT; where the header comes a second
/// time, the text starts there. Any other text is taken for SRT.
pub open spec fn unified_to_vtt(s: Seq<char>) -> Seq<char> {
    if has_vtt_header(s) {
        match find(s, "WEBVTT"@, 0) {
            Some(first) => match find(s, "WEBVTT"@, first + 6) {
                Some(second) => normalize_vtt(s.skip(second)),
                None => normalize_vtt(s),
            },
            None => normalize_vtt(s),
        }
    } else {
        "WEBVTT\n\n"@ + blocks_vtt(split(trim(s), "\n\n"@))
    }
}

/// The WebVTT for an SRT or WebVTT text.
pub open spec fn vtt(input: Seq<char>) -> Seq<char> {
    unified_to_vtt(unify_newlines(trim_start_char(input, '\u{FEFF}')))
}

/// Appends a line of WebVTT with its timestamps normalized.
fn push_normalized_line(out: &mut Vec<char>, line: &[char])
    ensures
        final(out)@ == old(out)@ + normalize_line(line@),
{
    let ghost before = out@;
    let arrow: Vec<char> = chars_of("-->");
    proof {
        reveal_strlit("-->");
        lemma_find(line@, "-->"@, 0);
    }
    match find_in(line, arrow.as_slice(), 0) {
        None => {
            push_all(out, line);
        },
        Some(at) => {
            assert(at + 3 <= line.len());
            let head: &[char] = slice_subrange(line, 0, at);
            let tail: &[char] = slice_subrange(line, at + 3, line.len());
            assert(head@ == line@.take(at as int));
            assert(tail@ == line@.skip(at + 3));
            let start: Vec<char> = replaced(trimmed(head), ',', '.');
            let behind: &[char] = trimmed(tail);
            let word: usize = first_white(behind);
            let end_word: &[char] = slice_subrange(behind, 0, word);
            assert(end_word@ == behind@.take(word as int));
            let end: Vec<char> = replaced(end_word, ',', '.');
            let infix: Vec<char> = chars_of(" --> ");
            push_all(out, start.as_slice());
            push_all(out, infix.as_slice());
            push_all(out, end.as_slice());
            let ghost timing = start@ + " --> "@ + end@;
            assert(out@ == before + timing);
            if word < behind.len() {
                let tail_word: &[char] = slice_subrange(behind, word + 1, behind.len());
                assert(tail_word@ == behind@.skip(word + 1));
                let settings: &[char] = without_leading_white(tail_word);
                if settings.len() > 0 {
                    let space: Vec<char> = chars_of(" ");
                    push_all(out, space.as_slice());
                    push_all(out, settings);
                    assert(out@ == before + (timing + " "@ + settings@));
                }
            }
        },
    }
}

/// A WebVTT text with the timestamps of its timing lines normalized.
fn normalized_vtt(s: &[char]) -> (r: Vec<char>)
    ensures
        r@ == normalize_vtt(s@),
{
    let all: Vec<&[char]> = lines_of(s);
    let ghost mapped = lines(s@).map_values(|line: Seq<char>| normalize_line(line));
    let mut out: Vec<char> = Vec::new();
    let mut i: usize = 0;
    while i < all.len()
        invariant
            i <= all.len(),
            texts(all@) == lines(s@),
            mapped == lines(s@).map_values(|line: Seq<char>| normalize_line(line)),
            out@ == join(mapped.take(i as int), "\n"@),
        decreases all.len() - i,
    {
        let ghost before = out@;
        if i > 0 {
            let feed: Vec<char> = chars_of("\n");
            push_all(&mut out, feed.as_slice());
        }
        assert(texts(all@)[i as int] == all@[i as int]@);
        push_normalized_line(&mut out, all[i]);
        assert(mapped.take(i + 1).drop_last() == mapped.take(i as int));
        i = i + 1;
    }
    assert(mapped.take(all.len() as int) == mapped);
    out
}

/// A WebVTT text with the timestamps of its timing lines normalized.
///
/// Some subtitle providers put a `WEBVTT` header before what is otherwise SRT.
/// Browsers reject commas in the timestamps of WebVTT timing lines, so these
/// become points, while cue settings and text stay as they are.
pub fn normalize_webvtt_timestamps(input: &str) -> (r: String)
    ensures
        r@ == normalize_vtt(input@),
{
    let chars: Vec<char> = chars_of(input);
    let out: Vec<char> = normalized_vtt(chars.as_slice());
    text_of(out.as_slice())
}

/// The lines of an SRT block from its timing line on.
fn content_lines<'a>(block: &'a [char]) -> (r: Option<Vec<&'a [char]>>)
    ensures
        match r {
            Some(content) => cue_lines(block@) == Some(texts(content@)) && content.len() > 0,
            None => cue_lines(block@) is None,
        },
{
    let mut all: Vec<&'a [char]> = lines_of(block);
    if all.len() < 2 {
        return None;
    }
    assert(texts(all@)[0] == all@[0]@);
    if only_digits(trimmed(all[0])) {
        let ghost before = all@;
        let _number: &'a [char] = all.remove(0);
        assert(texts(all@) == texts(before).skip(1));
    }
    Some(all)
}

/// Appends the WebVTT cue for an SRT block.
fn push_block(out: &mut Vec<char>, block: &[char])
    ensures
        final(out)@ == old(out)@ + block_vtt(block@),
{
    let ghost before = out@;
    match content_lines(block) {
        None => {},
        Some(content) => {
            let ghost parts = texts(content@);
            assert(parts[0] == content@[0]@);
            let feed: Vec<char> = chars_of("\n");
            let timing: Vec<char> = replaced(content[0], ',', '.');
            push_all(out, timing.as_slice());
            push_all(out, feed.as_slice());
            let ghost head = timing@ + "\n"@;
            assert(out@ == before + head);
            assert(out@ == before + (head + terminated(parts.skip(1).take(0))));
            let mut i: usize = 1;
            while i < content.len()
                invariant
                    1 <= i <= content.len(),
                    feed@ == "\n"@,
                    parts == texts(content@),
                    out@ == before + (head + terminated(parts.skip(1).take(i - 1))),
                decreases content.len() - i,
            {
                assert(parts.skip(1).take(i as int).drop_last() == parts.skip(1).take(i - 1));
                assert(parts.skip(1).take(i as int).last() == content@[i as int]@);
                push_all(out, content[i]);
                push_all(out, feed.as_slice());
                assert(out@ == before + (head + terminated(parts.skip(1).take(i as int))));
                i = i + 1;
            }
            assert(parts.skip(1).take(i - 1) == parts.skip(1));
            push_all(out, feed.as_slice());
            assert(out@ == before + (head + terminated(parts.skip(1)) + "\n"@));
        },
    }
}

/// Converts SRT to WebVTT. A text that is WebVTT already stays so, with its
/// timestamps normalized.
pub fn srt_to_vtt(input: &str) -> (r: String)
    ensures
        r@ == vtt(input@),
{
    let chars: Vec<char> = chars_of(input);
    let unified: Vec<char> = with_unified_newlines(without_leading(chars.as_slice(), '\u{FEFF}'));
    let s: &[char] = unified.as_slice();
    let header: Vec<char> = chars_of("WEBVTT");
    proof {
        reveal_strlit("WEBVTT");
        lemma_find(s@, "WEBVTT"@, 0);
        assert(forall|first: int| find(s@, "WEBVTT"@, 0) == Some(first) ==> first + 6 <= s.len());
    }
    if starts_with(without_leading_white(s), header.as_slice()) {
        let second: Option<usize> = match find_in(s, header.as_slice(), 0) {
            Some(first) => find_in(s, header.as_slice(), first + 6),
            None => None,
        };
        let from: usize = match second {
            Some(at) => at,
            None => 0,
        };
        proof {
            if let Some(first) = find(s@, "WEBVTT"@, 0) {
                lemma_find(s@, "WEBVTT"@, first + 6);
            }
            assert(s@.skip(0) == s@);
        }
        let body: &[char] = slice_subrange(s, from, s.len());
        assert(body@ == s@.skip(from as int));
        let out: Vec<char> = normalized_vtt(body);
        return text_of(out.as_slice());
    }
    let blank: Vec<char> = chars_of("\n\n");
    proof {
        reveal_strlit("\n\n");
    }
    let blocks: Vec<&[char]> = split_on(trimmed(s), blank.as_slice());
    let ghost parts = texts(blocks@);
    let mut out: Vec<char> = chars_of("WEBVTT\n\n");
    let ghost head = out@;
    assert(out@ == head + blocks_vtt(parts.take(0)));
    let mut i: usize = 0;
    while i < blocks.len()
        invariant
            i <= blocks.len(),
            parts == texts(blocks@),
            out@ == head + blocks_vtt(parts.take(i as int)),
        decreases blocks.len() - i,
    {
        assert(parts.take(i + 1).drop_last() == parts.take(i as int));
        assert(parts.take(i + 1).last() == blocks@[i as int]@);
        push_block(&mut out, blocks[i]);
        assert(out@ == head + blocks_vtt(parts.take(i + 1)));
        i = i + 1;
    }
    assert(parts.take(i as int) == parts);
    text_of(out.as_slice())
}

// --- Track events ---
/// How many bytes a character takes in UTF-8.
pub open spec fn utf8_len(c: char) -> int {
    if c <= '\u{7f}' {
        1
    } else if c <= '\u{7ff}' {
        2
    } else if c <= '\u{ffff}' {
        3
    } else {
        4
    }
}

/// The characters that fill the first `n` bytes of a text in UTF-8, where a
/// character ends there.
pub open spec fn byte_prefix(s: Seq<char>, n: int) -> Option<Seq<char>>
    decreases s.len(),
{
    if n == 0 {
        Some(seq![])
    } else if s.len() == 0 || utf8_len(s[0]) > n {
        None
    } else {
        match byte_prefix(s.skip(1), n - utf8_len(s[0])) {
            Some(rest) => Some(seq![s[0]] + rest),
            None => None,
        }
    }
}

/// A text with zeros behind it, up to a length of three.
pub open spec fn pad_to_three(s: Seq<char>) -> Seq<char> {
    if s.len() == 0 {
        seq!['0', '0', '0']
    } else if s.len() == 1 {
        seq![s[0], '0', '0']
    } else if s.len() == 2 {
        seq![s[0], s[1], '0']
    } else {
        s
    }
}

/// The fields of a timestamp: hours, minutes, seconds, and what stands behind
/// the point of the seconds, if there is one.
pub struct TimestampFields {
    pub hours: int,
    pub minutes: int,
    pub seconds: int,
    pub fraction: Option<Seq<char>>,
}

/// The fields of a timestamp `h:m:s`, `h:m:s,f` or `h:m:s.f`, where the first
/// three are numbers.
pub open spec fn timestamp_fields(ts: Seq<char>) -> Option<TimestampFields> {
    let parts = split(replace_char(ts, ',', '.'), ":"@);
    if parts.len() != 3 {
        None
    } else {
        let last = split(parts[2], "."@);
        match (parse_i64(parts[0]), parse_i64(parts[1]), parse_i64(last[0])) {
            (Some(hours), Some(minutes), Some(seconds)) => Some(
                TimestampFields {
                    hours,
                    minutes,
                    seconds,
                    fraction: if last.len() > 1 {
                        Some(last[1])
                    } else {
                        None
                    },
                },
            ),
            _ => None,
        }
    }
}

/// The milliseconds that a fraction of a second writes: its first three
/// characters, after zeros were put behind it where it is shorter.
pub open spec fn fraction_millis(fraction: Option<Seq<char>>) -> Option<int> {
    match fraction {
        None => Some(0),
        Some(f) => match byte_prefix(pad_to_three(f), 3) {
            Some(three) => parse_i64(three),
            None => None,
        },
    }
}

/// Ticks of 100 nanoseconds for a time.
pub open spec fn ticks_of(hours: int, minutes: int, seconds: int, millis: int) -> int {
    ((hours * 3600 + minutes * 60 + seconds) * 1000 + millis) * 10_000
}

/// The ticks of 100 nanoseconds that a timestamp writes.
pub open spec fn ticks(ts: Seq<char>) -> Option<int> {
    match timestamp_fields(ts) {
        None => None,
        Some(f) => match fraction_millis(f.fraction) {
            None => None,
            Some(millis) => Some(ticks_of(f.hours, f.minutes, f.seconds, millis)),
        },
    }
}

/// Whether each step of the computation of `ticks_of` stays within `i64`.
pub open spec fn ticks_fit(hours: int, minutes: int, seconds: int, millis: int) -> bool {
    &&& in_i64(hours * 3600)
    &&& in_i64(minutes * 60)
    &&& in_i64(hours * 3600 + minutes * 60)
    &&& in_i64(hours * 3600 + minutes * 60 + seconds)
    &&& in_i64((hours * 3600 + minutes * 60 + seconds) * 1000)
    &&& in_i64((hours * 3600 + minutes * 60 + seconds) * 1000 + millis)
    &&& in_i64(ticks_of(hours, minutes, seconds, millis))
}

/// Whether a text can be read as a timestamp, or be told not to be one: its
/// time is not beyond what ticks can count, and no character of a fraction
/// stands across the end of its first three bytes.
pub open spec fn readable_timestamp(ts: Seq<char>) -> bool {
    match timestamp_fields(ts) {
        None => true,
        Some(f) => {
            &&& match f.fraction {
                Some(text) => byte_prefix(pad_to_three(text), 3) is Some,
                None => true,
            }
            &&& match fraction_millis(f.fraction) {
                Some(millis) => ticks_fit(f.hours, f.minutes, f.seconds, millis),
                None => true,
            }
        },
    }
}

/// What reading a timestamp comes to.
enum Reading {
    Ticks(i64),
    NoTimestamp,
    Unreadable,
}

/// The characters that fill the first `n` bytes of a text in UTF-8.
fn first_bytes<'a>(s: &'a [char], n: usize) -> (r: Option<&'a [char]>)
    ensures
        match r {
            Some(prefix) => byte_prefix(s@, n as int) == Some(prefix@),
            None => byte_prefix(s@, n as int) is None,
        },
{
    let mut i: usize = 0;
    let mut left: usize = n;
    assert(s@.skip(0) == s@);
    while left > 0
        invariant
            i <= s.len(),
            match byte_prefix(s@.skip(i as int), left as int) {
                Some(rest) => byte_prefix(s@, n as int) == Some(s@.take(i as int) + rest),
                None => byte_prefix(s@, n as int) is None,
            },
        decreases left,
    {
        if i == s.len() {
            return None;
        }
        let c: char = s[i];
        let size: usize = if c <= '\u{7f}' {
            1
        } else if c <= '\u{7ff}' {
            2
        } else if c <= '\u{ffff}' {
            3
        } else {
            4
        };
        if size > left {
            return None;
        }
        assert(s@.skip(i as int).skip(1) == s@.skip(i + 1));
        assert(s@.take(i + 1) == s@.take(i as int) + seq![s@[i as int]]);
        proof {
            if let Some(rest) = byte_prefix(s@.skip(i + 1), left - size) {
                assert(s@.take(i as int) + (seq![s@[i as int]] + rest) == s@.take(i + 1) + rest);
            }
        }
        i = i + 1;
        left = left - size;
    }
    assert(s@.take(i as int) + Seq::<char>::empty() == s@.subrange(0, i as int));
    Some(slice_subrange(s, 0, i))
}

/// A text with zeros behind it, up to a length of three.
fn padded_to_three(s: &[char]) -> (r: Vec<char>)
    ensures
        r@ == pad_to_three(s@),
{
    let mut out: Vec<char> = Vec::new();
    push_all(&mut out, s);
    if out.len() < 3 {
        out.push('0');
    }
    if out.len() < 3 {
        out.push('0');
    }
    if out.len() < 3 {
        out.push('0');
    }
    assert(out@ == pad_to_three(s@));
    out
}

/// Reads a timestamp.
fn read_timestamp(ts: &[char]) -> (r: Reading)
    ensures
        match r {
            Reading::Ticks(v) => readable_timestamp(ts@) && ticks(ts@) == Some(v as int),
            Reading::NoTimestamp => readable_timestamp(ts@) && ticks(ts@) is None,
            Reading::Unreadable => !readable_timestamp(ts@),
        },
{
    let cleaned: Vec<char> = replaced(ts, ',', '.');
    let colon: Vec<char> = chars_of(":");
    let point: Vec<char> = chars_of(".");
    proof {
        reveal_strlit(":");
        reveal_strlit(".");
    }
    let parts: Vec<&[char]> = split_on(cleaned.as_slice(), colon.as_slice());
    let ghost fields = texts(parts@);
    if parts.len() != 3 {
        return Reading::NoTimestamp;
    }
    assert(fields[0] == parts@[0]@ && fields[1] == parts@[1]@ && fields[2] == parts@[2]@);
    let last: Vec<&[char]> = split_on(parts[2], point.as_slice());
    let ghost pieces = texts(last@);
    assert(pieces[0] == last@[0]@);
    let hours: i64 = match read_i64(parts[0]) {
        Some(v) => v,
        None => return Reading::NoTimestamp,
    };
    let minutes: i64 = match read_i64(parts[1]) {
        Some(v) => v,
        None => return Reading::NoTimestamp,
    };
    let seconds: i64 = match read_i64(last[0]) {
        Some(v) => v,
        None => return Reading::NoTimestamp,
    };
    let millis: i64 = if last.len() > 1 {
        assert(pieces[1] == last@[1]@);
        let padded: Vec<char> = padded_to_three(last[1]);
        match first_bytes(padded.as_slice(), 3) {
            None => return Reading::Unreadable,
            Some(three) => match read_i64(three) {
                Some(v) => v,
                None => return Reading::NoTimestamp,
            },
        }
    } else {
        0
    };
    assert(timestamp_fields(ts@) is Some);
    assert(fraction_millis(timestamp_fields(ts@)->0.fraction) == Some(millis as int));
    match count_ticks(hours, minutes, seconds, millis) {
        Some(v) => Reading::Ticks(v),
        None => Reading::Unreadable,
    }
}

/// Ticks of 100 nanoseconds for a time, where each step stays within `i64`.
fn count_ticks(hours: i64, minutes: i64, seconds: i64, millis: i64) -> (r: Option<i64>)
    ensures
        match r {
            Some(v) => ticks_fit(hours as int, minutes as int, seconds as int, millis as int) && v
                == ticks_of(hours as int, minutes as int, seconds as int, millis as int),
            None => !ticks_fit(hours as int, minutes as int, seconds as int, millis as int),
        },
{
    let from_hours: i64 = hours.checked_mul(3600)?;
    let from_minutes: i64 = minutes.checked_mul(60)?;
    let whole_minutes: i64 = from_hours.checked_add(from_minutes)?;
    let whole_seconds: i64 = whole_minutes.checked_add(seconds)?;
    let from_seconds: i64 = whole_seconds.checked_mul(1000)?;
    let whole_millis: i64 = from_seconds.checked_add(millis)?;
    whole_millis.checked_mul(10_000)
}

/// The ticks of 100 nanoseconds that a timestamp of SRT or WebVTT writes.
pub fn srt_timestamp_to_ticks(ts: &str) -> (r: Option<i64>)
    requires
        readable_timestamp(ts@),
    ensures
        match r {
            Some(v) => ticks(ts@) == Some(v as int),
            None => ticks(ts@) is None,
        },
{
    let chars: Vec<char> = chars_of(ts);
    match read_timestamp(chars.as_slice()) {
        Reading::Ticks(v) => Some(v),
        _ => None,
    }
}

/// What a cue shows, and the ticks from which and to which it does.
pub struct CueView {
    pub text: Seq<char>,
    pub start: int,
    pub end: int,
}

/// A cue of a subtitle track: its text, and the ticks of 100 nanoseconds from
/// which and to which it is shown.
#[derive(Debug, PartialEq, Eq)]
pub struct Cue {
    pub text: String,
    pub start: i64,
    pub end: i64,
}

impl View for Cue {
    type V = CueView;

    open spec fn view(&self) -> CueView {
        CueView { text: self.text@, start: self.start as int, end: self.end as int }
    }
}

/// The parts of the timing line of an SRT block, for a block that has an arrow
/// in it.
pub open spec fn timing_parts(block: Seq<char>) -> Option<Seq<Seq<char>>> {
    match cue_lines(block) {
        None => None,
        Some(content) => {
            let parts = split(content[0], "-->"@);
            if parts.len() < 2 {
                None
            } else {
                Some(parts)
            }
        },
    }
}

/// The cue that an SRT block writes, where it has two timestamps.
pub open spec fn block_cue(block: Seq<char>) -> Option<CueView> {
    match timing_parts(block) {
        None => None,
        Some(parts) => match (ticks(trim(parts[0])), ticks(trim(parts[1]))) {
            (Some(start), Some(end)) => Some(
                CueView { text: join(cue_lines(block)->0.skip(1), "\n"@), start, end },
            ),
            _ => None,
        },
    }
}

/// The cues that SRT blocks write, in their order.
pub open spec fn blocks_cues(blocks: Seq<Seq<char>>) -> Seq<CueView>
    decreases blocks.len(),
{
    if blocks.len() == 0 {
        seq![]
    } else {
        let before = blocks_cues(blocks.drop_last());
        match block_cue(blocks.last()) {
            Some(cue) => before.push(cue),
            None => before,
        }
    }
}

/// The blocks of an SRT text, which empty lines part.
pub open spec fn srt_blocks(input: Seq<char>) -> Seq<Seq<char>> {
    split(trim(unify_newlines(input)), "\n\n"@)
}

/// The cues of an SRT text.
pub open spec fn srt_cues(input: Seq<char>) -> Seq<CueView> {
    blocks_cues(srt_blocks(input))
}

/// Whether the two timestamps of an SRT block, if it has them, can be read.
pub open spec fn readable_block(block: Seq<char>) -> bool {
    match timing_parts(block) {
        None => true,
        Some(parts) => readable_timestamp(trim(parts[0])) && readable_timestamp(trim(parts[1])),
    }
}

/// Whether every timestamp of an SRT text can be read.
pub open spec fn readable_srt(input: Seq<char>) -> bool {
    forall|i: int|
        0 <= i < srt_blocks(input).len() ==> readable_block(#[trigger] srt_blocks(input)[i])
}

/// What each of the cues is.
pub open spec fn cue_views(cues: Seq<Cue>) -> Seq<CueView> {
    cues.map_values(|cue: Cue| cue@)
}

/// What reading an SRT block comes to.
enum BlockReading {
    Cue(Cue),
    NoCue,
    Unreadable,
}

/// The lines from the second on, with a line feed between each two.
fn joined_behind_first(content: &Vec<&[char]>) -> (r: Vec<char>)
    requires
        content.len() > 0,
    ensures
        r@ == join(texts(content@).skip(1), "\n"@),
{
    let ghost parts = texts(content@).skip(1);
    let feed: Vec<char> = chars_of("\n");
    let mut out: Vec<char> = Vec::new();
    let mut i: usize = 1;
    while i < content.len()
        invariant
            1 <= i <= content.len(),
            feed@ == "\n"@,
            parts == texts(content@).skip(1),
            out@ == join(parts.take(i - 1), "\n"@),
        decreases content.len() - i,
    {
        if i > 1 {
            push_all(&mut out, feed.as_slice());
        }
        assert(parts.take(i as int).drop_last() == parts.take(i - 1));
        assert(parts.take(i as int).last() == content@[i as int]@);
        push_all(&mut out, content[i]);
        i = i + 1;
    }
    assert(parts.take(i - 1) == parts);
    out
}

/// Reads an SRT block.
fn read_block(block: &[char]) -> (r: BlockReading)
    ensures
        match r {
            BlockReading::Cue(cue) => readable_block(block@) && block_cue(block@) == Some(cue@),
            BlockReading::NoCue => readable_block(block@) && block_cue(block@) is None,
            BlockReading::Unreadable => !readable_block(block@),
        },
{
    let content: Vec<&[char]> = match content_lines(block) {
        None => return BlockReading::NoCue,
        Some(content) => content,
    };
    assert(texts(content@)[0] == content@[0]@);
    let arrow: Vec<char> = chars_of("-->");
    proof {
        reveal_strlit("-->");
    }
    let parts: Vec<&[char]> = split_on(content[0], arrow.as_slice());
    let ghost pieces = texts(parts@);
    if parts.len() < 2 {
        return BlockReading::NoCue;
    }
    assert(pieces[0] == parts@[0]@ && pieces[1] == parts@[1]@);
    let start: Reading = read_timestamp(trimmed(parts[0]));
    let end: Reading = read_timestamp(trimmed(parts[1]));
    match (start, end) {
        (Reading::Unreadable, _) => BlockReading::Unreadable,
        (_, Reading::Unreadable) => BlockReading::Unreadable,
        (Reading::Ticks(start), Reading::Ticks(end)) => {
            let text: Vec<char> = joined_behind_first(&content);
            BlockReading::Cue(Cue { text: text_of(text.as_slice()), start, end })
        },
        _ => BlockReading::NoCue,
    }
}

/// The cues of an SRT text, or nothing where one of its timestamps cannot be read.
pub fn read_srt(input: &str) -> (r: Option<Vec<Cue>>)
    ensures
        match r {
            Some(cues) => readable_srt(input@) && cue_views(cues@) == srt_cues(input@),
            None => !readable_srt(input@),
        },
{
    let chars: Vec<char> = chars_of(input);
    let unified: Vec<char> = with_unified_newlines(chars.as_slice());
    let blank: Vec<char> = chars_of("\n\n");
    proof {
        reveal_strlit("\n\n");
    }
    let blocks: Vec<&[char]> = split_on(trimmed(unified.as_slice()), blank.as_slice());
    let ghost parts = texts(blocks@);
    let mut cues: Vec<Cue> = Vec::new();
    let mut i: usize = 0;
    while i < blocks.len()
        invariant
            i <= blocks.len(),
            parts == texts(blocks@),
            parts == srt_blocks(input@),
            forall|j: int| 0 <= j < i ==> readable_block(#[trigger] parts[j]),
            cue_views(cues@) == blocks_cues(parts.take(i as int)),
        decreases blocks.len() - i,
    {
        let ghost before = cues@;
        assert(parts[i as int] == blocks@[i as int]@);
        assert(parts.take(i + 1).drop_last() == parts.take(i as int));
        assert(parts.take(i + 1).last() == parts[i as int]);
        match read_block(blocks[i]) {
            BlockReading::Cue(cue) => {
                cues.push(cue);
                assert(cue_views(cues@) == cue_views(before).push(cue@));
            },
            BlockReading::NoCue => {},
            BlockReading::Unreadable => return None,
        }
        i = i + 1;
    }
    assert(parts.take(i as int) == parts);
    Some(cues)
}

/// The JSON object for the cue with the given index.
pub open spec fn event_json(index: nat, cue: CueView) -> Json {
    Json::Dict(
        Map::empty().insert("Id"@, Json::Text(decimal(index))).insert(
            "Text"@,
            Json::Text(cue.text),
        ).insert("StartPositionTicks"@, Json::Integer(cue.start)).insert(
            "EndPositionTicks"@,
            Json::Integer(cue.end),
        ),
    )
}

/// The JSON object for cues: `TrackEvents`, an array with an object for each,
/// whose identifiers count from zero.
pub open spec fn track_events_json(cues: Seq<CueView>) -> Json {
    Json::Dict(
        Map::empty().insert(
            "TrackEvents"@,
            Json::List(Seq::new(cues.len(), |i: int| event_json(i as nat, cues[i]))),
        ),
    )
}

/// The JSON text of track events for cues.
pub fn track_events(cues: Vec<Cue>) -> (r: String)
    ensures
        r@ == json_text(track_events_json(cue_views(cues@))),
{
    let ghost views = cue_views(cues@);
    let ghost wanted = Seq::new(views.len(), |i: int| event_json(i as nat, views[i]));
    let mut events: Vec<serde_json::Value> = Vec::new();
    let mut i: usize = 0;
    while i < cues.len()
        invariant
            i <= cues.len(),
            views == cue_views(cues@),
            wanted == Seq::new(views.len(), |i: int| event_json(i as nat, views[i])),
            jsons(events@) == wanted.take(i as int),
        decreases cues.len() - i,
    {
        let ghost before = events@;
        let id: Vec<char> = write_decimal(i);
        let mut event: serde_json::Value = empty_dict();
        set_entry(&mut event, "Id", text_value(text_of(id.as_slice())));
        set_entry(&mut event, "Text", text_value(cues[i].text.clone()));
        set_entry(&mut event, "StartPositionTicks", integer_value(cues[i].start));
        set_entry(&mut event, "EndPositionTicks", integer_value(cues[i].end));
        assert(json_of(event) == event_json(i as nat, views[i as int]));
        events.push(event);
        assert(jsons(events@) == jsons(before).push(json_of(event)));
        i = i + 1;
    }
    assert(wanted.take(i as int) == wanted);
    let mut root: serde_json::Value = empty_dict();
    set_entry(&mut root, "TrackEvents", list_value(events));
    text_of_value(&root)
}

/// Converts SRT to the JSON track events of Jellyfin, in ticks of 100 nanoseconds.
pub fn srt_to_jellyfin_json(input: &str) -> (r: String)
    requires
        readable_srt(input@),
    ensures
        r@ == json_text(track_events_json(srt_cues(input@))),
{
    match read_srt(input) {
        Some(cues) => track_events(cues),
        None => String::new(),
    }
}

} // verus!
