//! Guesses at what a stream holds, from its name or its address, for streams
//! that were not probed. Clients stay able to choose and to play such streams.
use vstd::prelude::*;
use vstd::slice::slice_subrange;
use crate::model::{
    blank_stream, opt_view, views, Media, MediaKind, MediaStream, MediaStreamType, MediaStreamView,
    MediaView, VideoContainer, VideoContainerView,
};
use crate::text::{
    ascii_lowered, ascii_raised, chars_of, has_word, occurs, rfind, rfind_in, same_text,
    text_of, to_ascii_lower, to_ascii_upper,
};

verus! {

/// The video codec that a name in small letters tells of.
pub open spec fn video_codec(text: Seq<char>) -> Option<Seq<char>> {
    if occurs(text, "hevc"@) || occurs(text, "h265"@) || occurs(text, "x265"@) {
        Some("hevc"@)
    } else if occurs(text, "av1"@) {
        Some("av1"@)
    } else if occurs(text, "vp9"@) {
        Some("vp9"@)
    } else if occurs(text, "h264"@) || occurs(text, "x264"@) || occurs(text, "avc"@) {
        Some("h264"@)
    } else {
        None
    }
}

/// The audio codec that a name in small letters tells of.
pub open spec fn audio_codec(text: Seq<char>) -> Option<Seq<char>> {
    if occurs(text, "truehd"@) {
        Some("truehd"@)
    } else if occurs(text, "dts"@) || occurs(text, "dca"@) {
        Some("dts"@)
    } else if occurs(text, "eac3"@) || occurs(text, "ddp"@) {
        Some("eac3"@)
    } else if occurs(text, "ac3"@) {
        Some("ac3"@)
    } else if occurs(text, "aac"@) {
        Some("aac"@)
    } else {
        None
    }
}

/// The number of audio channels that a name in small letters tells of.
pub open spec fn audio_channels(text: Seq<char>) -> Option<i64> {
    if occurs(text, "7.1"@) {
        Some(8)
    } else if occurs(text, "5.1"@) {
        Some(6)
    } else if occurs(text, "2.0"@) || occurs(text, "stereo"@) {
        Some(2)
    } else {
        None
    }
}

/// The video codec that a name in small letters tells of.
pub fn infer_video_codec(text: &str) -> (r: Option<String>)
    ensures
        opt_view(r) == video_codec(text@),
{
    let chars: Vec<char> = chars_of(text);
    let s: &[char] = chars.as_slice();
    if has_word(s, "hevc") || has_word(s, "h265") || has_word(s, "x265") {
        Some("hevc".to_owned())
    } else if has_word(s, "av1") {
        Some("av1".to_owned())
    } else if has_word(s, "vp9") {
        Some("vp9".to_owned())
    } else if has_word(s, "h264") || has_word(s, "x264") || has_word(s, "avc") {
        Some("h264".to_owned())
    } else {
        None
    }
}

/// The audio codec that a name in small letters tells of.
pub fn infer_audio_codec(text: &str) -> (r: Option<String>)
    ensures
        opt_view(r) == audio_codec(text@),
{
    let chars: Vec<char> = chars_of(text);
    let s: &[char] = chars.as_slice();
    if has_word(s, "truehd") {
        Some("truehd".to_owned())
    } else if has_word(s, "dts") || has_word(s, "dca") {
        Some("dts".to_owned())
    } else if has_word(s, "eac3") || has_word(s, "ddp") {
        Some("eac3".to_owned())
    } else if has_word(s, "ac3") {
        Some("ac3".to_owned())
    } else if has_word(s, "aac") {
        Some("aac".to_owned())
    } else {
        None
    }
}

/// The number of audio channels that a name in small letters tells of.
pub fn infer_audio_channels(text: &str) -> (r: Option<i64>)
    ensures
        r == audio_channels(text@),
{
    let chars: Vec<char> = chars_of(text);
    let s: &[char] = chars.as_slice();
    if has_word(s, "7.1") {
        Some(8)
    } else if has_word(s, "5.1") {
        Some(6)
    } else if has_word(s, "2.0") || has_word(s, "stereo") {
        Some(2)
    } else {
        None
    }
}

/// How the title of an audio track names its channels.
pub open spec fn layout_part(channels: Option<i64>) -> Seq<char> {
    match channels {
        Some(8) => " - 7.1"@,
        Some(6) => " - 5.1"@,
        Some(2) => " - Stereo"@,
        _ => ""@,
    }
}

/// How the title of a track names its codec, or what it carries where there is none.
pub open spec fn codec_part(codec: Option<Seq<char>>, otherwise: Seq<char>) -> Seq<char> {
    match codec {
        Some(c) => to_ascii_upper(c),
        None => otherwise,
    }
}

/// The tracks that a remote stream is taken to have: one of video and one of
/// audio, as far as its title tells of them. Other items get none.
pub open spec fn fallback_streams(source: MediaView) -> Seq<MediaStreamView> {
    if source.kind != MediaKind::Stream || !source.is_remote_url {
        seq![]
    } else {
        let text = to_ascii_lower(source.title);
        let video = video_codec(text);
        let audio = audio_codec(text);
        let channels = audio_channels(text);
        seq![
            MediaStreamView {
                type_: Some(MediaStreamType::Video),
                codec: video,
                is_default: Some(true),
                display_title: Some(codec_part(video, "Video"@) + " - Fallback"@),
                ..blank_stream()
            },
            MediaStreamView {
                type_: Some(MediaStreamType::Audio),
                codec: audio,
                channels,
                is_default: Some(true),
                display_title: Some(
                    codec_part(audio, "Audio"@) + layout_part(channels) + " - Fallback"@,
                ),
                ..blank_stream()
            },
        ]
    }
}

/// How the title of a track names its codec, or what it carries where there is none.
fn codec_title(codec: &Option<String>, otherwise: &str) -> (r: String)
    ensures
        r@ == codec_part(opt_view(*codec), otherwise@),
{
    match codec {
        Some(c) => ascii_raised(c.as_str()),
        None => otherwise.to_owned(),
    }
}

/// The tracks that a remote stream is taken to have.
pub fn fallback_media_streams(source: &Media) -> (r: Vec<MediaStream>)
    ensures
        views(r@) == fallback_streams(source@),
{
    let mut out: Vec<MediaStream> = Vec::new();
    if source.kind != MediaKind::Stream || !source.is_remote_url {
        assert(views(out@) == fallback_streams(source@));
        return out;
    }
    let title: Vec<char> = chars_of(source.title.as_str());
    let lowered: Vec<char> = ascii_lowered(title.as_slice());
    let text: String = text_of(lowered.as_slice());
    let video: Option<String> = infer_video_codec(text.as_str());
    let audio: Option<String> = infer_audio_codec(text.as_str());
    let channels: Option<i64> = infer_audio_channels(text.as_str());

    let mut video_title: String = codec_title(&video, "Video");
    video_title.append(" - Fallback");
    let mut audio_title: String = codec_title(&audio, "Audio");
    audio_title.append(
        match channels {
            Some(8) => " - 7.1",
            Some(6) => " - 5.1",
            Some(2) => " - Stereo",
            _ => "",
        },
    );
    audio_title.append(" - Fallback");

    out.push(
        MediaStream {
            type_: Some(MediaStreamType::Video),
            codec: video,
            is_default: Some(true),
            display_title: Some(video_title),
            ..MediaStream::default()
        },
    );
    out.push(
        MediaStream {
            type_: Some(MediaStreamType::Audio),
            codec: audio,
            channels,
            is_default: Some(true),
            display_title: Some(audio_title),
            ..MediaStream::default()
        },
    );
    assert(views(out@) == fallback_streams(source@));
    out
}

/// A file extension, in small letters, and the name of the container format that
/// files with it have.
#[derive(Debug, PartialEq, Eq)]
pub struct ContainerName {
    pub extension: String,
    pub name: String,
}

/// The view of an extension with its container format.
pub struct ContainerNameView {
    pub extension: Seq<char>,
    pub name: Seq<char>,
}

impl View for ContainerName {
    type V = ContainerNameView;

    open spec fn view(&self) -> ContainerNameView {
        ContainerNameView { extension: self.extension@, name: self.name@ }
    }
}

/// The name of the container format that the first entry for an extension gives.
pub open spec fn known_name(known: Seq<ContainerNameView>, extension: Seq<char>) -> Option<
    Seq<char>,
>
    decreases known.len(),
{
    if known.len() == 0 {
        None
    } else if known[0].extension == extension {
        Some(known[0].name)
    } else {
        known_name(known.skip(1), extension)
    }
}

/// What stands in `s` behind the last `c`, or all of it where there is none.
pub open spec fn behind_last(s: Seq<char>, c: char) -> Seq<char> {
    match rfind(s, seq![c], s.len() - 1) {
        Some(i) => s.skip(i + 1),
        None => s,
    }
}

/// The extension of the last part of a path, in small letters: what stands
/// behind its last point, or all of it where it has none.
pub open spec fn path_extension(path: Seq<char>) -> Seq<char> {
    to_ascii_lower(behind_last(behind_last(path, '/'), '.'))
}

/// The container format that a path tells of: HLS for a playlist, and what is
/// known of the extension for any other file.
pub open spec fn path_container(path: Seq<char>, known: Seq<ContainerNameView>) -> Option<
    VideoContainerView,
> {
    let extension = path_extension(path);
    if extension == "m3u8"@ {
        Some(VideoContainerView::Other("hls"@))
    } else {
        match known_name(known, extension) {
            Some(name) => Some(VideoContainerView::Known(name)),
            None => None,
        }
    }
}

/// The path of a URL, for a text that is one.
pub uninterp spec fn url_path(url: Seq<char>) -> Option<Seq<char>>;

/// `url::Url::parse` and `url::Url::path`: the path of a URL as the URL standard
/// has it, nothing for a text that is no absolute URL. What the path is for a
/// given text is not said.
#[verifier::external_body]
pub(crate) fn path_of_url(url: &str) -> (r: Option<String>)
    ensures
        opt_view(r) == url_path(url@),
{
    match url::Url::parse(url) {
        Ok(parsed) => Some(parsed.path().to_string()),
        Err(_) => None,
    }
}

/// What stands in `s` behind the last `c`.
fn tail_behind_last<'a>(s: &'a [char], c: char) -> (r: &'a [char])
    ensures
        r@ == behind_last(s@, c),
{
    let pattern: Vec<char> = vec![c];
    assert(pattern@ == seq![c]);
    match rfind_in(s, pattern.as_slice()) {
        Some(i) => {
            assert(s@.skip(i + 1) == s@.subrange(i + 1, s.len() as int));
            slice_subrange(s, i + 1, s.len())
        },
        None => s,
    }
}

/// The name of the container format that the first entry for an extension gives.
fn find_known(known: &Vec<ContainerName>, extension: &str) -> (r: Option<String>)
    ensures
        opt_view(r) == known_name(views(known@), extension@),
{
    let ghost all = views(known@);
    let mut i: usize = 0;
    assert(all.skip(0) == all);
    while i < known.len()
        invariant
            i <= known.len(),
            all == views(known@),
            known_name(all, extension@) == known_name(all.skip(i as int), extension@),
        decreases known.len() - i,
    {
        assert(all[i as int] == known@[i as int]@);
        if same_text(known[i].extension.as_str(), extension) {
            return Some(known[i].name.clone());
        }
        assert(all.skip(i as int).skip(1) == all.skip(i + 1));
        i = i + 1;
    }
    None
}

/// The container format that a path tells of.
pub fn infer_container_from_path(path: &str, known: &Vec<ContainerName>) -> (r: Option<
    VideoContainer,
>)
    ensures
        opt_view(r) == path_container(path@, views(known@)),
{
    let chars: Vec<char> = chars_of(path);
    let filename: &[char] = tail_behind_last(chars.as_slice(), '/');
    let lowered: Vec<char> = ascii_lowered(tail_behind_last(filename, '.'));
    let extension: String = text_of(lowered.as_slice());
    if same_text(extension.as_str(), "m3u8") {
        return Some(VideoContainer::Other("hls".to_owned()));
    }
    match find_known(known, extension.as_str()) {
        Some(name) => Some(VideoContainer::Known(name)),
        None => None,
    }
}

/// The path in which the extension of an address is looked for: that of the
/// URL, or the whole text where it is none.
pub open spec fn address_path(url: Seq<char>) -> Seq<char> {
    match url_path(url) {
        Some(path) => path,
        None => url,
    }
}

/// The container format that the address of a stream tells of.
pub fn infer_container_from_url(url: &str, known: &Vec<ContainerName>) -> (r: Option<
    VideoContainer,
>)
    ensures
        opt_view(r) == path_container(address_path(url@), views(known@)),
{
    match path_of_url(url) {
        Some(path) => infer_container_from_path(path.as_str(), known),
        None => infer_container_from_path(url, known),
    }
}

} // verus!
