//! What titles, addresses and file names tell of a stream.
use vstd::prelude::*;
use crate::ids::{id_text, Id};
use crate::infer::{
    address_path, audio_channels, audio_codec, behind_last, fallback_streams, known_name,
    path_container, path_extension, url_path, video_codec, ContainerNameView,
};
use crate::model::{blank_stream, MediaStreamType, MediaStreamView, MediaView, VideoContainerView};
use crate::paths::{
    file_name, file_stem, file_stem_of_both, last_component, source_path, stem_behind,
    stem_of_name,
};
use crate::score::{first_word, score_of, scored_info};
use crate::json::Json;
use crate::text::{
    find, is_white, lemma_find, lemma_white_index_is, occurs, occurs_at, replace_char, rfind, split,
    to_ascii_lower, to_ascii_upper,
};
use crate::text_laws::{
    is_blank, last_occurrence_is_found, lemma_rfind_is, nothing_is_parted_without_separator,
    separators_part,
};

verus! {

// --- Codecs ---
/// The words that tell of a video codec, each with the codec, the first that stands
/// in a title counting.
pub open spec fn video_words() -> Seq<(Seq<char>, Seq<char>)> {
    seq![
        ("hevc"@, "hevc"@),
        ("h265"@, "hevc"@),
        ("x265"@, "hevc"@),
        ("av1"@, "av1"@),
        ("vp9"@, "vp9"@),
        ("h264"@, "h264"@),
        ("x264"@, "h264"@),
        ("avc"@, "h264"@),
    ]
}

/// The words that tell of an audio codec.
pub open spec fn audio_words() -> Seq<(Seq<char>, Seq<char>)> {
    seq![
        ("truehd"@, "truehd"@),
        ("dts"@, "dts"@),
        ("dca"@, "dts"@),
        ("eac3"@, "eac3"@),
        ("ddp"@, "eac3"@),
        ("ac3"@, "ac3"@),
        ("aac"@, "aac"@),
    ]
}

/// The words that tell of a number of channels.
pub open spec fn channel_words() -> Seq<(Seq<char>, i64)> {
    seq![("7.1"@, 8i64), ("5.1"@, 6i64), ("2.0"@, 2i64), ("stereo"@, 2i64)]
}

/// Whether a word is the first of a table that stands in a text.
pub open spec fn tells<T>(text: Seq<char>, table: Seq<(Seq<char>, T)>, i: int) -> bool {
    &&& 0 <= i < table.len()
    &&& occurs(text, table[i].0)
    &&& forall|j: int| 0 <= j < i ==> !occurs(text, (#[trigger] table[j]).0)
}

/// Each word for a video codec tells of its codec, wherever it stands, unless one
/// before it in the table does; a title with none of them tells of none.
pub proof fn video_words_tell_their_codec(text: Seq<char>, i: int)
    ensures
        tells(text, video_words(), i) ==> video_codec(text) == Some(video_words()[i].1),
        (forall|j: int|
            0 <= j < video_words().len() ==> !occurs(text, (#[trigger] video_words()[j]).0))
            ==> video_codec(text) is None,
{
    let t = video_words();
    assert(t[0].0 == "hevc"@ && t[1].0 == "h265"@ && t[2].0 == "x265"@ && t[3].0 == "av1"@);
    assert(t[4].0 == "vp9"@ && t[5].0 == "h264"@ && t[6].0 == "x264"@ && t[7].0 == "avc"@);
}

/// Each word for an audio codec tells of its codec, wherever it stands, unless one
/// before it in the table does; a title with none of them tells of none.
pub proof fn audio_words_tell_their_codec(text: Seq<char>, i: int)
    ensures
        tells(text, audio_words(), i) ==> audio_codec(text) == Some(audio_words()[i].1),
        (forall|j: int|
            0 <= j < audio_words().len() ==> !occurs(text, (#[trigger] audio_words()[j]).0))
            ==> audio_codec(text) is None,
{
    let t = audio_words();
    assert(t[0].0 == "truehd"@ && t[1].0 == "dts"@ && t[2].0 == "dca"@ && t[3].0 == "eac3"@);
    assert(t[4].0 == "ddp"@ && t[5].0 == "ac3"@ && t[6].0 == "aac"@);
}

/// Each word for channels tells of their number, unless one before it in the table
/// does; a title with none of them tells of none.
pub proof fn channel_words_tell_their_number(text: Seq<char>, i: int)
    ensures
        tells(text, channel_words(), i) ==> audio_channels(text) == Some(channel_words()[i].1),
        (forall|j: int|
            0 <= j < channel_words().len() ==> !occurs(text, (#[trigger] channel_words()[j]).0))
            ==> audio_channels(text) is None,
{
    let t = channel_words();
    assert(t[0].0 == "7.1"@ && t[1].0 == "5.1"@ && t[2].0 == "2.0"@ && t[3].0 == "stereo"@);
}

/// A remote stream is taken to have the tracks that its title tells of, whatever the
/// case of its letters, each with a title that names its codec and its channels.
pub proof fn fallback_tracks_follow_the_title(source: MediaView, video: Seq<char>, audio: Seq<char>)
    requires
        source.kind is Stream,
        source.is_remote_url,
        video == match video_codec(to_ascii_lower(source.title)) {
            Some(codec) => to_ascii_upper(codec),
            None => "Video"@,
        },
        audio == match audio_codec(to_ascii_lower(source.title)) {
            Some(codec) => to_ascii_upper(codec),
            None => "Audio"@,
        },
    ensures
        ({
            let tracks = fallback_streams(source);
            let channels = audio_channels(to_ascii_lower(source.title));
            &&& tracks.len() == 2
            &&& tracks[0] == (MediaStreamView {
                type_: Some(MediaStreamType::Video),
                codec: video_codec(to_ascii_lower(source.title)),
                is_default: Some(true),
                display_title: Some(video + " - Fallback"@),
                ..blank_stream()
            })
            &&& tracks[1] == (MediaStreamView {
                type_: Some(MediaStreamType::Audio),
                codec: audio_codec(to_ascii_lower(source.title)),
                channels,
                is_default: Some(true),
                display_title: tracks[1].display_title,
                ..blank_stream()
            })
            &&& channels == Some(8i64) ==> tracks[1].display_title == Some(
                audio + " - 7.1 - Fallback"@,
            )
            &&& channels == Some(6i64) ==> tracks[1].display_title == Some(
                audio + " - 5.1 - Fallback"@,
            )
            &&& channels == Some(2i64) ==> tracks[1].display_title == Some(
                audio + " - Stereo - Fallback"@,
            )
            &&& channels is None ==> tracks[1].display_title == Some(audio + " - Fallback"@)
        }),
{
    reveal_strlit(" - Fallback");
    reveal_strlit(" - 7.1");
    reveal_strlit(" - 5.1");
    reveal_strlit(" - Stereo");
    reveal_strlit("");
    reveal_strlit(" - 7.1 - Fallback");
    reveal_strlit(" - 5.1 - Fallback");
    reveal_strlit(" - Stereo - Fallback");
    assert(audio + " - 7.1"@ + " - Fallback"@ =~= audio + " - 7.1 - Fallback"@);
    assert(audio + " - 5.1"@ + " - Fallback"@ =~= audio + " - 5.1 - Fallback"@);
    assert(audio + " - Stereo"@ + " - Fallback"@ =~= audio + " - Stereo - Fallback"@);
    assert(audio + ""@ + " - Fallback"@ =~= audio + " - Fallback"@);
}

// --- Separators ---
/// Whether a character does not stand in a text.
pub open spec fn is_free_of(s: Seq<char>, c: char) -> bool {
    forall|i: int| 0 <= i < s.len() ==> #[trigger] s[i] != c
}

proof fn lemma_at(s: Seq<char>, c: char, i: int)
    ensures
        occurs_at(s, seq![c], i) <==> 0 <= i < s.len() && s[i] == c,
{
    if 0 <= i < s.len() {
        let sub = s.subrange(i, i + 1);
        assert(sub[0] == s[i]);
        if s[i] == c {
            assert(sub =~= seq![c]);
        }
    }
}

proof fn lemma_last_at(a: Seq<char>, c: char, b: Seq<char>)
    requires
        is_free_of(b, c),
    ensures
        rfind(a + seq![c] + b, seq![c], (a + seq![c] + b).len() - 1) == Some(a.len() as int),
{
    let s = a + seq![c] + b;
    lemma_at(s, c, a.len() as int);
    assert forall|j: int| j > a.len() implies !occurs_at(s, seq![c], j) by {
        lemma_at(s, c, j);
        if j < s.len() {
            assert(s[j] == b[j - a.len() - 1]);
        }
    }
    lemma_rfind_is(s, seq![c], a.len() as int);
}

proof fn lemma_last_none(s: Seq<char>, c: char)
    requires
        is_free_of(s, c),
    ensures
        rfind(s, seq![c], s.len() - 1) is None,
{
    last_occurrence_is_found(s, seq![c]);
    if let Some(i) = rfind(s, seq![c], s.len() - 1) {
        lemma_at(s, c, i);
    }
}

/// What stands behind the last of a character is what follows it, and all of a text
/// that does not have it.
pub proof fn behind_the_last(a: Seq<char>, c: char, b: Seq<char>)
    requires
        is_free_of(b, c),
    ensures
        behind_last(a + seq![c] + b, c) == b,
        behind_last(b, c) == b,
{
    lemma_last_at(a, c, b);
    lemma_last_none(b, c);
    assert((a + seq![c] + b).skip(a.len() as int + 1) =~= b);
}

// --- Containers ---
/// The extension of an address is what stands behind the last point of its last part,
/// whatever stands before.
pub proof fn extensions_stand_behind_the_last_point(before: Seq<char>, extension: Seq<char>)
    requires
        is_free_of(extension, '.'),
        is_free_of(extension, '/'),
    ensures
        path_extension(before + seq!['.'] + extension) == to_ascii_lower(extension),
        path_extension(before + seq!['/'] + extension) == to_ascii_lower(extension),
        path_extension(extension) == to_ascii_lower(extension),
{
    let path = before + seq!['.'] + extension;
    last_occurrence_is_found(path, seq!['/']);
    match rfind(path, seq!['/'], path.len() - 1) {
        Some(i) => {
            lemma_at(path, '/', i);
            if i > before.len() {
                assert(path[i] == extension[i - before.len() - 1]);
            }
            let rest = before.skip(i + 1);
            assert(path.skip(i + 1) =~= rest + seq!['.'] + extension);
            behind_the_last(rest, '.', extension);
        },
        None => {
            behind_the_last(before, '.', extension);
        },
    }
    behind_the_last(before, '/', extension);
    behind_the_last(Seq::empty(), '.', extension);
    behind_the_last(Seq::empty(), '/', extension);
}

/// Whether an entry is the first of a table for an extension.
pub open spec fn is_first_entry(
    known: Seq<ContainerNameView>,
    extension: Seq<char>,
    k: int,
) -> bool {
    &&& 0 <= k < known.len()
    &&& known[k].extension == extension
    &&& forall|j: int| 0 <= j < k ==> (#[trigger] known[j]).extension != extension
}

proof fn lemma_known(known: Seq<ContainerNameView>, extension: Seq<char>, k: int)
    ensures
        is_first_entry(known, extension, k) ==> known_name(known, extension) == Some(known[k].name),
        (forall|j: int| 0 <= j < known.len() ==> (#[trigger] known[j]).extension != extension)
            ==> known_name(known, extension) is None,
    decreases known.len(),
{
    if known.len() > 0 {
        let rest = known.skip(1);
        lemma_known(rest, extension, k - 1);
        if is_first_entry(known, extension, k) && k > 0 {
            assert(known[0].extension != extension);
            assert(rest[k - 1] == known[k]);
            assert forall|j: int| 0 <= j < k - 1 implies (#[trigger] rest[j]).extension
                != extension by {
                assert(rest[j] == known[j + 1]);
            }
        }
        if forall|j: int| 0 <= j < known.len() ==> (#[trigger] known[j]).extension != extension {
            assert(known[0].extension != extension);
            assert forall|j: int| 0 <= j < rest.len() implies (#[trigger] rest[j]).extension
                != extension by {
                assert(rest[j] == known[j + 1]);
            }
        }
    }
}

/// A playlist is HLS; any other address has the container that is known for its
/// extension, in whatever case, and none where none is known.
pub proof fn extensions_tell_containers(
    before: Seq<char>,
    extension: Seq<char>,
    known: Seq<ContainerNameView>,
    k: int,
)
    requires
        is_free_of(extension, '.'),
        is_free_of(extension, '/'),
    ensures
        ({
            let found = path_container(before + seq!['.'] + extension, known);
            let lower = to_ascii_lower(extension);
            &&& lower == seq!['m', '3', 'u', '8'] ==> found == Some(
                VideoContainerView::Other(seq!['h', 'l', 's']),
            )
            &&& lower != seq!['m', '3', 'u', '8'] && is_first_entry(known, lower, k) ==> found
                == Some(VideoContainerView::Known(known[k].name))
            &&& lower != seq!['m', '3', 'u', '8'] && (forall|j: int|
                0 <= j < known.len() ==> (#[trigger] known[j]).extension != lower) ==> found is None
        }),
{
    reveal_strlit("m3u8");
    reveal_strlit("hls");
    assert("m3u8"@ =~= seq!['m', '3', 'u', '8']);
    assert("hls"@ =~= seq!['h', 'l', 's']);
    extensions_stand_behind_the_last_point(before, extension);
    lemma_known(known, to_ascii_lower(extension), k);
}

/// The path of a URL is what its extension is looked for in, and the whole text where
/// it is no URL.
pub proof fn addresses_have_paths(url: Seq<char>)
    ensures
        url_path(url) is Some ==> address_path(url) == url_path(url)->0,
        url_path(url) is None ==> address_path(url) == url,
{
}

// --- File names ---
proof fn lemma_split_last(s: Seq<char>, c: char, name: Seq<char>)
    requires
        is_free_of(name, c),
    ensures
        split(s + seq![c] + name, seq![c]) == split(s, seq![c]).push(name),
    decreases s.len(),
{
    let whole = s + seq![c] + name;
    lemma_find(s, seq![c], 0);
    match find(s, seq![c], 0) {
        Some(i) => {
            lemma_at(s, c, i);
            let a = s.take(i);
            let b = s.skip(i + 1);
            assert forall|j: int| 0 <= j < i implies a[j] != c by {
                lemma_at(s, c, j);
            }
            assert(is_free_of(a, c));
            lemma_split_last(b, c, name);
            let rest = b + seq![c] + name;
            assert(s =~= a + seq![c] + b);
            assert(whole =~= a + seq![c] + rest);
            lemma_parted(a, c, b);
            lemma_parted(a, c, rest);
            assert(seq![a] + split(b, seq![c]).push(name) =~= (seq![a] + split(b, seq![c])).push(
                name,
            ));
        },
        None => {
            assert forall|j: int| 0 <= j < s.len() implies s[j] != c by {
                lemma_at(s, c, j);
            }
            lemma_parted(s, c, name);
            lemma_unparted(name, c);
            lemma_unparted(s, c);
            assert(seq![s] + seq![name] =~= seq![s].push(name));
        },
    }
}

proof fn lemma_parted(a: Seq<char>, c: char, b: Seq<char>)
    requires
        is_free_of(a, c),
    ensures
        split(a + seq![c] + b, seq![c]) == seq![a] + split(b, seq![c]),
{
    let s = a + seq![c] + b;
    assert forall|j: int| 0 <= j < a.len() implies !occurs_at(s, seq![c], j) by {
        lemma_at(s, c, j);
        assert(s[j] == a[j]);
    }
    separators_part(a, seq![c], b);
}

proof fn lemma_unparted(a: Seq<char>, c: char)
    requires
        is_free_of(a, c),
    ensures
        split(a, seq![c]) == seq![a],
{
    assert forall|j: int| !occurs_at(a, seq![c], j) by {
        lemma_at(a, c, j);
    }
    nothing_is_parted_without_separator(a, seq![c]);
}

/// Whether a text can be the name of a file: it is not empty, neither `.` nor `..`,
/// and has no separator in it.
pub open spec fn is_file_name(name: Seq<char>, separator: char) -> bool {
    &&& name.len() > 0
    &&& name != seq!['.']
    &&& name != seq!['.', '.']
    &&& is_free_of(name, separator)
}

/// The file name that a path ends with is what stands behind its last separator,
/// however many stand before. A separator or a `.` behind it does not matter, and a
/// path that ends with `..`, or that has no name in it, has none.
pub proof fn file_names_stand_last(dir: Seq<char>, name: Seq<char>, separator: char)
    requires
        is_file_name(name, separator),
        separator != '.',
    ensures
        file_name(name, separator) == Some(name),
        file_name(dir + seq![separator] + name, separator) == Some(name),
        file_name(dir + seq![separator], separator) == file_name(dir, separator),
        file_name(dir + seq![separator] + seq!['.'], separator) == file_name(dir, separator),
        file_name(dir + seq![separator] + seq!['.', '.'], separator) is None,
        file_name(Seq::empty(), separator) is None,
        file_name(seq!['.'], separator) is None,
        file_name(seq!['.', '.'], separator) is None,
{
    let c = separator;
    lemma_unparted(name, c);
    lemma_split_last(dir, c, name);
    let parts = split(dir, seq![c]);
    assert(parts.push(name).last() == name);
    let none = Seq::<char>::empty();
    lemma_split_last(dir, c, none);
    assert(dir + seq![c] + none =~= dir + seq![c]);
    assert(parts.push(none).drop_last() =~= parts);
    lemma_split_last(dir, c, seq!['.']);
    assert(parts.push(seq!['.']).drop_last() =~= parts);
    lemma_split_last(dir, c, seq!['.', '.']);
    assert(seq!['.', '.'].len() == 2);
    assert(seq!['.'].len() == 1);
    assert(parts.push(seq!['.', '.']).last() == seq!['.', '.']);
    lemma_unparted(none, c);
    lemma_unparted(seq!['.'], c);
    lemma_unparted(seq!['.', '.'], c);
    assert(seq![none].drop_last() =~= Seq::empty());
    assert(seq![seq!['.']].drop_last() =~= Seq::empty());
    assert(last_component(seq![none].drop_last()) is None);
    assert(last_component(seq![seq!['.']].drop_last()) is None);
}

/// The stem of a file name is what stands before its last point; a name without a
/// point, or with one at its start alone, is its own stem.
pub proof fn stems_stand_before_the_last_point(base: Seq<char>, extension: Seq<char>)
    requires
        is_free_of(extension, '.'),
    ensures
        base.len() > 0 ==> stem_of_name(base + seq!['.'] + extension) == base,
        stem_of_name(extension) == extension,
        stem_of_name(seq!['.'] + extension) == seq!['.'] + extension,
{
    lemma_last_at(base, '.', extension);
    assert((base + seq!['.'] + extension).take(base.len() as int) =~= base);
    lemma_last_none(extension, '.');
    let none = Seq::<char>::empty();
    lemma_last_at(none, '.', extension);
    assert(none + seq!['.'] + extension =~= seq!['.'] + extension);
}

/// The stem of a path is that of its file name.
pub proof fn stems_are_those_of_file_names(path: Seq<char>, separator: char)
    ensures
        file_name(path, separator) matches Some(name) ==> stem_behind(path, separator) == Some(
            stem_of_name(name),
        ),
        file_name(path, separator) is None ==> stem_behind(path, separator) is None,
        file_stem(path) == stem_behind(path, '/'),
{
}

/// Where both separators part a path, a backslash does as a slash does.
pub proof fn backslashes_part_as_slashes_do(dir: Seq<char>, name: Seq<char>)
    requires
        is_file_name(name, '/'),
        is_free_of(name, '\\'),
    ensures
        file_stem_of_both(dir + seq!['\\'] + name) == Some(stem_of_name(name)),
        file_stem_of_both(dir + seq!['/'] + name) == Some(stem_of_name(name)),
        file_stem_of_both(name) == Some(stem_of_name(name)),
{
    let d = replace_char(dir, '\\', '/');
    assert forall|i: int| 0 <= i < name.len() implies replace_char(name, '\\', '/')[i]
        == #[trigger] name[i] by {}
    assert(replace_char(name, '\\', '/') =~= name);
    assert(replace_char(dir + seq!['\\'] + name, '\\', '/') =~= d + seq!['/'] + name);
    assert(replace_char(dir + seq!['/'] + name, '\\', '/') =~= d + seq!['/'] + name);
    file_names_stand_last(d, name, '/');
}

/// The path of a source, written out.
pub proof fn source_paths_are_written_out(id: Id, stem: Seq<char>)
    ensures
        source_path(id, None) == seq!['/', 'r', 'e', 'm', 'u', 'x', '/'] + id_text(id),
        source_path(id, Some(stem)) == seq!['/', 'r', 'e', 'm', 'u', 'x', '/'] + id_text(id) + seq![
            '/',
        ] + stem,
{
    reveal_strlit("/remux/");
    reveal_strlit("/");
    assert("/remux/"@ =~= seq!['/', 'r', 'e', 'm', 'u', 'x', '/']);
    assert("/"@ =~= seq!['/']);
}

// --- Scores ---
/// The score that a title tells is the word behind its last `Score:`, whatever stands
/// before and behind.
pub proof fn scores_stand_behind_the_last_mark(
    before: Seq<char>,
    gap: Seq<char>,
    score: Seq<char>,
    after: Seq<char>,
)
    requires
        is_blank(gap),
        score.len() > 0,
        forall|i: int| 0 <= i < score.len() ==> !is_white(#[trigger] score[i]),
        after.len() > 0 ==> is_white(after[0]),
        !occurs(gap + score + after, "Score:"@),
    ensures
        score_of(before + "Score:"@ + (gap + score + after)) == Some(score),
{
    reveal_strlit("Score:");
    let mark = "Score:"@;
    let rest = gap + score + after;
    let title = before + mark + rest;
    let at = before.len() as int;
    assert(title.subrange(at, at + 6) =~= mark);
    lemma_last_mark(before, rest);
    lemma_rfind_is(title, mark, at);
    assert(title.skip(at + 6) =~= rest);
    let tail = score + after;
    assert(rest =~= gap + tail);
    assert(!is_white(score[0]));
    lemma_first_word(gap, score, after);
}

proof fn lemma_last_mark(before: Seq<char>, rest: Seq<char>)
    requires
        !occurs(rest, "Score:"@),
    ensures
        forall|j: int|
            j > before.len() ==> !occurs_at(before + "Score:"@ + rest, "Score:"@, j),
{
    reveal_strlit("Score:");
    let mark = "Score:"@;
    let title = before + mark + rest;
    let at = before.len() as int;
    assert forall|j: int| j > at implies !occurs_at(title, mark, j) by {
        if occurs_at(title, mark, j) {
            let sub = title.subrange(j, j + 6);
            assert(sub[0] == title[j]);
            assert(mark[0] == 'S');
            if j < at + 6 {
                assert(title[j] == mark[j - at]);
            } else {
                assert(rest.subrange(j - at - 6, j - at) =~= sub);
                assert(occurs_at(rest, mark, j - at - 6));
            }
        }
    }
}

proof fn lemma_first_word(gap: Seq<char>, word: Seq<char>, after: Seq<char>)
    requires
        is_blank(gap),
        word.len() > 0,
        forall|i: int| 0 <= i < word.len() ==> !is_white(#[trigger] word[i]),
        after.len() > 0 ==> is_white(after[0]),
    ensures
        first_word(gap + word + after) == Some(word),
{
    let s = gap + word + after;
    let tail = word + after;
    let k = gap.len() as int;
    assert forall|j: int| 0 <= j < k implies is_white(#[trigger] s[j]) by {
        assert(s[j] == gap[j]);
    }
    assert(s[k] == word[0]);
    crate::text::lemma_trim_start_is(s, k);
    assert(s.skip(k) =~= tail);
    assert forall|j: int| 0 <= j < word.len() implies !is_white(#[trigger] tail[j]) by {
        assert(tail[j] == word[j]);
    }
    if after.len() > 0 {
        assert(tail[word.len() as int] == after[0]);
    }
    lemma_white_index_is(tail, word.len() as int);
    assert(tail.take(word.len() as int) =~= word);
}

/// A title without the mark, or with nothing but white space behind the last one,
/// tells no score.
pub proof fn titles_without_score_tell_none(before: Seq<char>, gap: Seq<char>)
    requires
        is_blank(gap),
    ensures
        !occurs(before, "Score:"@) ==> score_of(before) is None,
        score_of(before + "Score:"@ + gap) is None,
{
    reveal_strlit("Score:");
    let mark = "Score:"@;
    last_occurrence_is_found(before, mark);
    if rfind(before, mark, before.len() - mark.len()) is Some {
        assert(occurs_at(before, mark, rfind(before, mark, before.len() - mark.len())->0));
    }
    let title = before + mark + gap;
    let at = before.len() as int;
    assert(title.subrange(at, at + 6) =~= mark);
    assert forall|j: int| !occurs_at(gap, mark, j) by {
        if occurs_at(gap, mark, j) {
            let sub = gap.subrange(j, j + 6);
            assert(sub[0] == gap[j]);
            assert(mark[0] == 'S');
            assert(is_white(gap[j]));
        }
    }
    lemma_last_mark(before, gap);
    lemma_rfind_is(title, mark, at);
    assert(title.skip(at + 6) =~= gap);
    crate::text::lemma_trim_start_is(gap, gap.len() as int);
}

/// A score is shown before a file name, between two marks; nothing changes where that
/// is not asked for, where there is no score, or where what was told has no file name
/// that is a text.
pub proof fn scores_are_put_before_file_names(
    entries: Map<Seq<char>, Json>,
    title: Seq<char>,
    filename: Seq<char>,
)
    ensures
        ({
            let info = Some(Json::Dict(entries));
            let shown = Json::Dict(
                entries.insert(
                    "filename"@,
                    Json::Text("🎯 SCORE "@ + score_of(title)->0 + " 🎯 • "@ + filename),
                ),
            );
            &&& scored_info(info, title, false) == info
            &&& score_of(title) is None ==> scored_info(info, title, true) == info
            &&& !entries.dom().contains("filename"@) ==> scored_info(info, title, true) == info
            &&& entries.dom().contains("filename"@) && !(entries["filename"@] is Text)
                ==> scored_info(info, title, true) == info
            &&& entries.dom().contains("filename"@) && entries["filename"@] == Json::Text(filename)
                && score_of(title) is Some ==> scored_info(info, title, true) == (if occurs_at(
                filename,
                "🎯 SCORE "@,
                0,
            ) {
                info
            } else {
                Some(shown)
            })
        }),
        scored_info(None, title, true) is None,
        forall|other: Json| !(other is Dict) ==> #[trigger] scored_info(Some(other), title, true)
            == Some(other),
{
}

} // verus!
