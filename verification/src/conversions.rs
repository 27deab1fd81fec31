//! What clients are told, from what the server holds.
use std::collections::HashMap;
use vstd::prelude::*;
use crate::ids::{is_random_id, random_id, Id};
use crate::infer::{
    address_path, infer_container_from_url, path_container, ContainerName, ContainerNameView,
};
use crate::json::Json;
use crate::model::{
    blank_media, blank_source, blank_stream, clone_text, opt_json, opt_view, views, Media,
    MediaKind, MediaProtocol, MediaSourceInfo, MediaSourceInfoView, MediaSourceRemuxInfo,
    MediaSourceRemuxInfoView, MediaStream, MediaStreamType, MediaStreamView, MediaType, MediaView,
    StreamDescriptor, StreamDescriptorView, SubtitleDeliveryMethod, UtcTime, VideoContainer,
    VideoContainerView, VideoRange, VideoRangeType,
};
use crate::paths::{is_path_of, path_of_source};
use crate::text::{
    ascii_lowered, ascii_raised, chars_of, ends_with, has_suffix, to_ascii_lower, to_ascii_upper,
};

verus! {

// --- Subtitles of add-ons ---
/// Subtitles that an add-on offers.
#[derive(Debug, PartialEq, Eq)]
pub struct SubtitleInfo {
    pub url: Option<StreamDescriptor>,
    pub lang: Option<String>,
    pub is_forced: bool,
    /// Whether they are made for the hearing impaired.
    pub is_hi: bool,
}

/// The view of subtitles that an add-on offers.
pub struct SubtitleInfoView {
    pub url: Option<StreamDescriptorView>,
    pub lang: Option<Seq<char>>,
    pub is_forced: bool,
    pub is_hi: bool,
}

impl View for SubtitleInfo {
    type V = SubtitleInfoView;

    open spec fn view(&self) -> SubtitleInfoView {
        SubtitleInfoView {
            url: opt_view(self.url),
            lang: opt_view(self.lang),
            is_forced: self.is_forced,
            is_hi: self.is_hi,
        }
    }
}

/// The address or path from which the format of subtitles is guessed.
pub open spec fn subtitle_path(url: Option<StreamDescriptorView>) -> Seq<char> {
    match url {
        Some(StreamDescriptorView::Http { url }) => url,
        Some(StreamDescriptorView::Local(Some(path))) => path,
        Some(StreamDescriptorView::Torrent { file_hint: Some(path), .. }) => path,
        Some(StreamDescriptorView::Opendal { path }) => path,
        _ => ""@,
    }
}

/// The format of subtitles by the extension of their path, WebVTT where that
/// tells nothing. Capital letters count as small ones.
pub open spec fn subtitle_codec(path: Seq<char>) -> Seq<char> {
    let lower = to_ascii_lower(path);
    if ends_with(lower, ".vtt"@) {
        "webvtt"@
    } else if ends_with(lower, ".srt"@) {
        "subrip"@
    } else if ends_with(lower, ".ass"@) || ends_with(lower, ".ssa"@) {
        "ass"@
    } else {
        "webvtt"@
    }
}

/// The track that a client is shown for subtitles of an add-on.
pub open spec fn subtitle_stream(sub: SubtitleInfoView) -> MediaStreamView {
    let codec = subtitle_codec(subtitle_path(sub.url));
    let lang = match sub.lang {
        Some(lang) => lang,
        None => "und"@,
    };
    MediaStreamView {
        index: 0,
        type_: Some(MediaStreamType::Subtitle),
        codec: Some(codec),
        language: sub.lang,
        display_title: Some(lang + " - "@ + to_ascii_upper(codec) + " - External"@),
        is_default: Some(false),
        is_forced: sub.is_forced,
        is_hearing_impaired: sub.is_hi,
        is_external: true,
        is_text_subtitle_stream: true,
        supports_external_stream: true,
        delivery_method: Some(SubtitleDeliveryMethod::External),
        is_external_url: Some(false),
        audio_spatial_format: Some("None"@),
        video_range: Some(VideoRange::Other),
        video_range_type: Some(VideoRangeType::Other),
        localized_undefined: Some("Undefined"@),
        localized_default: Some("Default"@),
        localized_forced: Some("Forced"@),
        localized_external: Some("External"@),
        localized_hearing_impaired: Some("Hearing Impaired"@),
        ..blank_stream()
    }
}

/// Whether a text ends with a suffix.
fn ends(s: &[char], suffix: &str) -> (r: bool)
    ensures
        r == ends_with(s@, suffix@),
{
    let chars: Vec<char> = chars_of(suffix);
    has_suffix(s, chars.as_slice())
}

/// The format of subtitles by the extension of their path.
pub fn subtitle_codec_of(path: &str) -> (r: &'static str)
    ensures
        r@ == subtitle_codec(path@),
{
    let chars: Vec<char> = chars_of(path);
    let lower: Vec<char> = ascii_lowered(chars.as_slice());
    let s: &[char] = lower.as_slice();
    if ends(s, ".vtt") {
        "webvtt"
    } else if ends(s, ".srt") {
        "subrip"
    } else if ends(s, ".ass") || ends(s, ".ssa") {
        "ass"
    } else {
        "webvtt"
    }
}

/// The track that a client is shown for subtitles of an add-on.
pub fn subtitle_to_media_stream(sub: &SubtitleInfo) -> (r: MediaStream)
    ensures
        r@ == subtitle_stream(sub@),
{
    let path: &str = match &sub.url {
        Some(StreamDescriptor::Http { url }) => url.as_str(),
        Some(StreamDescriptor::Local(Some(path))) => path.as_str(),
        Some(StreamDescriptor::Torrent { file_hint: Some(path), .. }) => path.as_str(),
        Some(StreamDescriptor::Opendal { path }) => path.as_str(),
        _ => "",
    };
    assert(path@ == subtitle_path(sub@.url));
    let codec: &str = subtitle_codec_of(path);
    let mut title: String = match &sub.lang {
        Some(lang) => lang.clone(),
        None => "und".to_owned(),
    };
    title.append(" - ");
    title.append(ascii_raised(codec).as_str());
    title.append(" - External");
    MediaStream {
        index: 0,
        type_: Some(MediaStreamType::Subtitle),
        codec: Some(codec.to_owned()),
        language: clone_text(&sub.lang),
        display_title: Some(title),
        is_default: Some(false),
        is_forced: sub.is_forced,
        is_hearing_impaired: sub.is_hi,
        is_external: true,
        is_text_subtitle_stream: true,
        supports_external_stream: true,
        delivery_method: Some(SubtitleDeliveryMethod::External),
        is_external_url: Some(false),
        audio_spatial_format: Some("None".to_owned()),
        video_range: Some(VideoRange::Other),
        video_range_type: Some(VideoRangeType::Other),
        localized_undefined: Some("Undefined".to_owned()),
        localized_default: Some("Default".to_owned()),
        localized_forced: Some("Forced".to_owned()),
        localized_external: Some("External".to_owned()),
        localized_hearing_impaired: Some("Hearing Impaired".to_owned()),
        ..MediaStream::default()
    }
}

// --- Streams of Stremio ---
/// A stream as a Stremio add-on gives it.
#[derive(Debug, PartialEq, Eq)]
pub struct Stream {
    pub url: Option<String>,
    pub name: Option<String>,
}

/// The source for a stream of a Stremio add-on, under an identifier.
pub open spec fn stremio_source(
    id: Id,
    url: Option<Seq<char>>,
    name: Option<Seq<char>>,
) -> MediaSourceInfoView {
    MediaSourceInfoView {
        id,
        e_tag: id,
        path: url,
        protocol: MediaProtocol::File,
        supports_transcoding: false,
        supports_direct_stream: true,
        supports_direct_play: true,
        is_remote: false,
        name,
        ..blank_source()
    }
}

/// The source for a stream of a Stremio add-on, under the given identifier.
pub fn stremio_source_with_id(id: Id, stream: Stream) -> (r: MediaSourceInfo)
    ensures
        r@ == stremio_source(id, opt_view(stream.url), opt_view(stream.name)),
{
    MediaSourceInfo {
        id,
        e_tag: id,
        path: stream.url,
        protocol: MediaProtocol::File,
        supports_transcoding: false,
        supports_direct_stream: true,
        supports_direct_play: true,
        is_remote: false,
        name: stream.name,
        ..MediaSourceInfo::default()
    }
}

/// The source for a stream of a Stremio add-on, under a fresh identifier. The
/// identifier and the type that it is called with make no difference.
pub fn stream_into_media_source_info(
    id: String,
    jellyfin_media_type: MediaType,
    stream: Stream,
) -> (r: MediaSourceInfo)
    ensures
        is_random_id(r.id),
        r@ == stremio_source(r.id, opt_view(stream.url), opt_view(stream.name)),
{
    stremio_source_with_id(random_id(), stream)
}

/// A flag that is kept as a number: 1 for true, 0 for false.
pub open spec fn option_bool(flag: i64) -> Option<bool> {
    if flag == 1 {
        Some(true)
    } else if flag == 0 {
        Some(false)
    } else {
        None
    }
}

/// A flag that is kept as a number: 1 for true, 0 for false.
pub fn to_option_bool(flag: i64) -> (r: Option<bool>)
    ensures
        r == option_bool(flag),
{
    match flag {
        1 => Some(true),
        0 => Some(false),
        _ => None,
    }
}

// --- Sources of the library ---
/// What a track is, for the making of its title.
#[derive(Debug, Clone, Copy, PartialEq, Eq, Structural)]
pub enum TitleKind {
    Video,
    Audio,
    Subtitle,
}

/// The facts of a track that its title is made from.
#[derive(Debug, PartialEq, Eq)]
pub struct StreamMeta {
    pub language: Option<String>,
    pub codec: Option<String>,
    pub profile: Option<String>,
    pub channels: Option<i64>,
    pub channel_layout: Option<String>,
    pub width: Option<i64>,
    pub height: Option<i64>,
    pub video_range: Option<VideoRange>,
    pub is_default: bool,
    pub is_forced: bool,
    pub is_external: bool,
    pub is_hearing_impaired: bool,
    pub title: Option<String>,
}

/// The view of the facts of a track that its title is made from.
pub struct StreamMetaView {
    pub language: Option<Seq<char>>,
    pub codec: Option<Seq<char>>,
    pub profile: Option<Seq<char>>,
    pub channels: Option<i64>,
    pub channel_layout: Option<Seq<char>>,
    pub width: Option<i64>,
    pub height: Option<i64>,
    pub video_range: Option<VideoRange>,
    pub is_default: bool,
    pub is_forced: bool,
    pub is_external: bool,
    pub is_hearing_impaired: bool,
    pub title: Option<Seq<char>>,
}

impl View for StreamMeta {
    type V = StreamMetaView;

    open spec fn view(&self) -> StreamMetaView {
        StreamMetaView {
            language: opt_view(self.language),
            codec: opt_view(self.codec),
            profile: opt_view(self.profile),
            channels: self.channels,
            channel_layout: opt_view(self.channel_layout),
            width: self.width,
            height: self.height,
            video_range: self.video_range,
            is_default: self.is_default,
            is_forced: self.is_forced,
            is_external: self.is_external,
            is_hearing_impaired: self.is_hearing_impaired,
            title: opt_view(self.title),
        }
    }
}

/// The facts of a track that its title is made from. Its range is not one of them.
pub open spec fn title_facts(stream: MediaStreamView) -> StreamMetaView {
    StreamMetaView {
        language: stream.language,
        codec: stream.codec,
        profile: stream.profile,
        channels: stream.channels,
        channel_layout: stream.channel_layout,
        width: stream.width,
        height: stream.height,
        video_range: None,
        is_default: stream.is_default == Some(true),
        is_forced: stream.is_forced,
        is_external: stream.is_external,
        is_hearing_impaired: stream.is_hearing_impaired,
        title: stream.title,
    }
}

/// The kind of title that a track gets, where it has none and is of a kind that
/// has titles.
pub open spec fn title_kind(stream: MediaStreamView) -> Option<TitleKind> {
    if stream.display_title is Some {
        None
    } else {
        match stream.type_ {
            Some(MediaStreamType::Video) => Some(TitleKind::Video),
            Some(MediaStreamType::Audio) => Some(TitleKind::Audio),
            Some(MediaStreamType::Subtitle) => Some(TitleKind::Subtitle),
            _ => None,
        }
    }
}

/// Which title has to be made for a track, if any, and from which facts.
pub fn title_request(stream: &MediaStream) -> (r: Option<(TitleKind, StreamMeta)>)
    ensures
        r is Some <==> title_kind(stream@) is Some,
        r matches Some((kind, meta)) ==> {
            &&& title_kind(stream@) == Some(kind)
            &&& meta@ == title_facts(stream@)
            &&& meta.language == stream.language
            &&& meta.codec == stream.codec
            &&& meta.profile == stream.profile
            &&& meta.channels == stream.channels
            &&& meta.channel_layout == stream.channel_layout
            &&& meta.width == stream.width
            &&& meta.height == stream.height
            &&& meta.video_range is None
            &&& meta.is_default == (stream.is_default == Some(true))
            &&& meta.is_forced == stream.is_forced
            &&& meta.is_external == stream.is_external
            &&& meta.is_hearing_impaired == stream.is_hearing_impaired
            &&& meta.title == stream.title
        },
{
    if stream.display_title.is_some() {
        return None;
    }
    let kind: TitleKind = match stream.type_ {
        Some(MediaStreamType::Video) => TitleKind::Video,
        Some(MediaStreamType::Audio) => TitleKind::Audio,
        Some(MediaStreamType::Subtitle) => TitleKind::Subtitle,
        _ => return None,
    };
    let meta: StreamMeta = StreamMeta {
        language: clone_text(&stream.language),
        codec: clone_text(&stream.codec),
        profile: clone_text(&stream.profile),
        channels: stream.channels,
        channel_layout: clone_text(&stream.channel_layout),
        width: stream.width,
        height: stream.height,
        video_range: None,
        is_default: match stream.is_default {
            Some(b) => b,
            None => false,
        },
        is_forced: stream.is_forced,
        is_external: stream.is_external,
        is_hearing_impaired: stream.is_hearing_impaired,
        title: clone_text(&stream.title),
    };
    Some((kind, meta))
}

/// What was looked up for a track: whether its codec is one of text subtitles,
/// and the title that was made for it on request.
#[derive(Debug, PartialEq, Eq)]
pub struct StreamLookup {
    pub is_text_subtitle: bool,
    pub display_title: Option<String>,
}

/// The view of what was looked up for a track.
pub struct StreamLookupView {
    pub is_text_subtitle: bool,
    pub display_title: Option<Seq<char>>,
}

impl View for StreamLookup {
    type V = StreamLookupView;

    open spec fn view(&self) -> StreamLookupView {
        StreamLookupView {
            is_text_subtitle: self.is_text_subtitle,
            display_title: opt_view(self.display_title),
        }
    }
}

/// What was looked up for an item: its runtime in ticks, what its add-on told of
/// it, and for each track that probing found what was looked up for that.
#[derive(Debug, PartialEq, Eq)]
pub struct SourceLookup {
    pub runtime_ticks: Option<i64>,
    pub provider_info: Option<serde_json::Value>,
    pub streams: Vec<StreamLookup>,
}

/// A track as the client is told of it: with what was looked up for it, where it
/// needed that.
pub open spec fn described_stream(
    stream: MediaStreamView,
    lookup: StreamLookupView,
) -> MediaStreamView {
    MediaStreamView {
        is_text_subtitle_stream: if stream.type_ == Some(MediaStreamType::Subtitle) {
            lookup.is_text_subtitle
        } else {
            stream.is_text_subtitle_stream
        },
        display_title: if title_kind(stream) is Some {
            lookup.display_title
        } else {
            stream.display_title
        },
        ..stream
    }
}

/// The tracks that probing found, as the client is told of them.
pub open spec fn described_streams(
    streams: Seq<MediaStreamView>,
    lookups: Seq<StreamLookupView>,
) -> Seq<MediaStreamView> {
    Seq::new(streams.len(), |i: int| described_stream(streams[i], lookups[i]))
}

/// The tracks of an item that probing found.
pub open spec fn probed_streams(source: MediaView) -> Seq<MediaStreamView> {
    match source.probe_data {
        Some(probe) => probe.media_streams,
        None => seq![],
    }
}

/// The track that stands for a piece of music that was not probed, so that
/// clients do not refuse to play it.
pub open spec fn stub_track() -> MediaStreamView {
    MediaStreamView {
        type_: Some(MediaStreamType::Audio),
        codec: Some("aac"@),
        channels: Some(2),
        is_default: Some(true),
        display_title: Some("Audio"@),
        index: 0,
        ..blank_stream()
    }
}

/// The tracks of an item, as the client is told of them.
pub open spec fn source_streams(
    source: MediaView,
    lookups: Seq<StreamLookupView>,
) -> Seq<MediaStreamView> {
    let found = described_streams(probed_streams(source), lookups);
    if source.kind == MediaKind::Track && found.len() == 0 {
        seq![stub_track()]
    } else {
        found
    }
}

/// The first of two optional values that there is.
pub open spec fn or<T>(first: Option<T>, second: Option<T>) -> Option<T> {
    match first {
        Some(v) => Some(v),
        None => second,
    }
}

/// The HTTP address of an item.
pub open spec fn http_url(source: MediaView) -> Option<Seq<char>> {
    match source.stream_info {
        Some(info) => info.http_url,
        None => None,
    }
}

/// The container format of an item: what probing found, or what its address
/// tells of.
pub open spec fn source_container(
    source: MediaView,
    known: Seq<ContainerNameView>,
) -> Option<VideoContainerView> {
    let probed = match source.probe_data {
        Some(probe) => probe.container,
        None => None,
    };
    let inferred = match http_url(source) {
        Some(url) => path_container(address_path(url), known),
        None => None,
    };
    or(probed, inferred)
}

/// The file name of an item.
pub open spec fn filename_of(source: MediaView) -> Option<Seq<char>> {
    match source.stream_info {
        Some(info) => info.filename,
        None => None,
    }
}

/// The source for an item of the library that clients see under the given path.
///
/// What probing found goes before what the add-on and the metadata tell. A
/// source of a group has the identifier of the group.
pub open spec fn source_info(
    source: MediaView,
    path: Seq<char>,
    runtime_ticks: Option<i64>,
    provider_info: Option<Json>,
    lookups: Seq<StreamLookupView>,
    known: Seq<ContainerNameView>,
) -> MediaSourceInfoView {
    let id = match source.group_id {
        Some(group) => group,
        None => source.id,
    };
    let told_size = match source.stream_info {
        Some(info) => info.size,
        None => None,
    };
    MediaSourceInfoView {
        id,
        e_tag: id,
        path: Some(path),
        protocol: MediaProtocol::File,
        is_remote: false,
        name: Some(source.title),
        container: source_container(source, known),
        remux: Some(MediaSourceRemuxInfoView { provider_info }),
        has_segments: http_url(source) is Some,
        formats: Some(seq![]),
        required_http_headers: Some(Map::empty()),
        run_time_ticks: match source.probe_data {
            Some(probe) => or(probe.run_time_ticks, runtime_ticks),
            None => runtime_ticks,
        },
        bitrate: match source.probe_data {
            Some(probe) => probe.bitrate,
            None => None,
        },
        size: match source.probe_data {
            Some(probe) => or(probe.size, told_size),
            None => told_size,
        },
        media_streams: source_streams(source, lookups),
        ..blank_source()
    }
}

/// A track as the client is told of it.
fn describe(stream: &MediaStream, lookup: &StreamLookup) -> (r: MediaStream)
    ensures
        r@ == described_stream(stream@, lookup@),
{
    let mut out: MediaStream = stream.clone();
    if let Some(MediaStreamType::Subtitle) = stream.type_ {
        out.is_text_subtitle_stream = lookup.is_text_subtitle;
    }
    if stream.display_title.is_none() {
        out.display_title = match stream.type_ {
            Some(MediaStreamType::Video) => clone_text(&lookup.display_title),
            Some(MediaStreamType::Audio) => clone_text(&lookup.display_title),
            Some(MediaStreamType::Subtitle) => clone_text(&lookup.display_title),
            _ => None,
        };
    }
    out
}

/// The tracks that probing found, as the client is told of them.
fn describe_all(streams: &Vec<MediaStream>, lookups: &Vec<StreamLookup>) -> (r: Vec<MediaStream>)
    requires
        streams.len() == lookups.len(),
    ensures
        views(r@) == described_streams(views(streams@), views(lookups@)),
{
    let ghost wanted = described_streams(views(streams@), views(lookups@));
    let mut out: Vec<MediaStream> = Vec::new();
    let mut i: usize = 0;
    while i < streams.len()
        invariant
            i <= streams.len(),
            streams.len() == lookups.len(),
            wanted == described_streams(views(streams@), views(lookups@)),
            views(out@) == wanted.take(i as int),
        decreases streams.len() - i,
    {
        let ghost before = out@;
        out.push(describe(&streams[i], &lookups[i]));
        assert(views(out@) == views(before).push(out@.last()@));
        i = i + 1;
    }
    out
}

impl MediaSourceInfo {
    /// The source for an item of the library, with what was looked up for it. Its
    /// path shows the file name of the item.
    pub fn from_media(
        source: Media,
        lookup: SourceLookup,
        known: &Vec<ContainerName>,
    ) -> (r: MediaSourceInfo)
        requires
            lookup.streams@.len() == probed_streams(source@).len(),
        ensures
            r@.path is Some,
            is_path_of(source@.id, filename_of(source@), r@.path->0),
            r@ == source_info(
                source@,
                r@.path->0,
                lookup.runtime_ticks,
                opt_json(lookup.provider_info),
                views(lookup.streams@),
                views(known@),
            ),
    {
        let path: String = match &source.stream_info {
            Some(info) => path_of_source(source.id, &info.filename),
            None => path_of_source(source.id, &None),
        };
        MediaSourceInfo::from_media_at(source, lookup, known, path)
    }

    /// The source for an item of the library, with what was looked up for it, under
    /// the given path.
    pub fn from_media_at(
        source: Media,
        lookup: SourceLookup,
        known: &Vec<ContainerName>,
        path: String,
    ) -> (r: MediaSourceInfo)
        requires
            lookup.streams@.len() == probed_streams(source@).len(),
        ensures
            r@ == source_info(
                source@,
                path@,
                lookup.runtime_ticks,
                opt_json(lookup.provider_info),
                views(lookup.streams@),
                views(known@),
            ),
    {
        let ghost view = source@;
        let id: Id = match source.group_id {
            Some(group) => group,
            None => source.id,
        };
        let (inferred, has_segments, told_size): (
            Option<VideoContainer>,
            bool,
            Option<i64>,
        ) = match &source.stream_info {
            Some(info) => (
                match &info.http_url {
                    Some(url) => infer_container_from_url(url.as_str(), known),
                    None => None,
                },
                info.http_url.is_some(),
                info.size,
            ),
            None => (None, false, None),
        };
        let (container, run_time_ticks, bitrate, size, found): (
            Option<VideoContainer>,
            Option<i64>,
            Option<i64>,
            Option<i64>,
            Vec<MediaStream>,
        ) = match source.probe_data {
            Some(probe) => (
                if probe.container.is_some() {
                    probe.container
                } else {
                    inferred
                },
                if probe.run_time_ticks.is_some() {
                    probe.run_time_ticks
                } else {
                    lookup.runtime_ticks
                },
                probe.bitrate,
                if probe.size.is_some() {
                    probe.size
                } else {
                    told_size
                },
                describe_all(&probe.media_streams, &lookup.streams),
            ),
            None => (inferred, lookup.runtime_ticks, None, told_size, Vec::new()),
        };
        assert(views(found@) == described_streams(probed_streams(view), views(lookup.streams@)));
        let media_streams: Vec<MediaStream> = if source.kind == MediaKind::Track && found.len()
            == 0 {
            let mut stub: Vec<MediaStream> = Vec::new();
            stub.push(
                MediaStream {
                    type_: Some(MediaStreamType::Audio),
                    codec: Some("aac".to_owned()),
                    channels: Some(2),
                    is_default: Some(true),
                    display_title: Some("Audio".to_owned()),
                    index: 0,
                    ..MediaStream::default()
                },
            );
            assert(views(stub@) == seq![stub_track()]);
            stub
        } else {
            found
        };
        assert(views(media_streams@) == source_streams(view, views(lookup.streams@)));
        MediaSourceInfo {
            id,
            e_tag: id,
            path: Some(path),
            protocol: MediaProtocol::File,
            is_remote: false,
            name: Some(source.title),
            container,
            remux: Some(MediaSourceRemuxInfo { provider_info: lookup.provider_info }),
            has_segments,
            formats: Some(Vec::new()),
            required_http_headers: Some(HashMap::new()),
            run_time_ticks,
            bitrate,
            size,
            media_streams,
            ..MediaSourceInfo::default()
        }
    }
}

// --- Display preferences ---
/// In which direction a view scrolls.
#[derive(Debug, Clone, Copy, PartialEq, Eq, Structural)]
pub enum ScrollDirection {
    Horizontal,
    Vertical,
}

/// In which direction a view is sorted.
#[derive(Debug, Clone, Copy, PartialEq, Eq, Structural)]
pub enum SortOrder {
    Ascending,
    Descending,
}

/// Display preferences, as a client sends them.
#[derive(Debug, PartialEq, Eq)]
pub struct DisplayPreferencesDto {
    pub view_type: Option<String>,
    pub sort_by: Option<String>,
    pub index_by: Option<String>,
    pub remember_indexing: bool,
    pub primary_image_height: i64,
    pub primary_image_width: i64,
    pub custom_prefs: HashMap<String, Option<String>>,
    pub scroll_direction: ScrollDirection,
    pub show_backdrop: bool,
    pub remember_sorting: bool,
    pub sort_order: SortOrder,
    pub show_sidebar: bool,
}

/// Display preferences, as the server keeps them.
#[derive(Debug, PartialEq, Eq)]
pub struct JellyfinDisplayPrefsData {
    pub view_type: Option<String>,
    pub sort_by: Option<String>,
    pub index_by: Option<String>,
    pub remember_indexing: bool,
    pub primary_image_height: i64,
    pub primary_image_width: i64,
    pub custom_prefs: HashMap<String, Option<String>>,
    pub scroll_direction: ScrollDirection,
    pub show_backdrop: bool,
    pub remember_sorting: bool,
    pub sort_order: SortOrder,
    pub show_sidebar: bool,
    pub home_sections: Option<Vec<String>>,
}

impl From<DisplayPreferencesDto> for JellyfinDisplayPrefsData {
    fn from(dto: DisplayPreferencesDto) -> (r: JellyfinDisplayPrefsData) {
        JellyfinDisplayPrefsData {
            view_type: dto.view_type,
            sort_by: dto.sort_by,
            index_by: dto.index_by,
            remember_indexing: dto.remember_indexing,
            primary_image_height: dto.primary_image_height,
            primary_image_width: dto.primary_image_width,
            custom_prefs: dto.custom_prefs,
            scroll_direction: dto.scroll_direction,
            show_backdrop: dto.show_backdrop,
            remember_sorting: dto.remember_sorting,
            sort_order: dto.sort_order,
            show_sidebar: dto.show_sidebar,
            home_sections: None,
        }
    }
}

impl vstd::std_specs::convert::FromSpecImpl<DisplayPreferencesDto> for JellyfinDisplayPrefsData {
    open spec fn obeys_from_spec() -> bool {
        true
    }

    /// What the client sent, without home sections.
    open spec fn from_spec(dto: DisplayPreferencesDto) -> JellyfinDisplayPrefsData {
        JellyfinDisplayPrefsData {
            view_type: dto.view_type,
            sort_by: dto.sort_by,
            index_by: dto.index_by,
            remember_indexing: dto.remember_indexing,
            primary_image_height: dto.primary_image_height,
            primary_image_width: dto.primary_image_width,
            custom_prefs: dto.custom_prefs,
            scroll_direction: dto.scroll_direction,
            show_backdrop: dto.show_backdrop,
            remember_sorting: dto.remember_sorting,
            sort_order: dto.sort_order,
            show_sidebar: dto.show_sidebar,
            home_sections: None,
        }
    }
}

// --- Episodes of Stremio ---
/// An episode as a Stremio add-on gives it.
#[derive(Debug, PartialEq, Eq)]
pub struct Episode {
    pub name: Option<String>,
    pub released: Option<UtcTime>,
    /// How long the episode runs, in whole seconds.
    pub runtime: Option<i64>,
    pub overview: Option<String>,
    pub description: Option<String>,
    /// The rating, as the bits of its double.
    pub rating: Option<u64>,
    /// The address of an image.
    pub thumbnail: Option<String>,
}

/// The view of an episode of a Stremio add-on.
pub struct EpisodeView {
    pub name: Option<Seq<char>>,
    pub released: Option<UtcTime>,
    pub runtime: Option<i64>,
    pub overview: Option<Seq<char>>,
    pub description: Option<Seq<char>>,
    pub rating: Option<u64>,
    pub thumbnail: Option<Seq<char>>,
}

impl View for Episode {
    type V = EpisodeView;

    open spec fn view(&self) -> EpisodeView {
        EpisodeView {
            name: opt_view(self.name),
            released: self.released,
            runtime: self.runtime,
            overview: opt_view(self.overview),
            description: opt_view(self.description),
            rating: self.rating,
            thumbnail: opt_view(self.thumbnail),
        }
    }
}

/// The item for an episode of a Stremio add-on.
pub open spec fn episode_media(meta: EpisodeView) -> MediaView {
    MediaView {
        title: match meta.name {
            Some(name) => name,
            None => seq![],
        },
        kind: MediaKind::Episode,
        released_at: meta.released,
        runtime: meta.runtime,
        description: or(meta.overview, meta.description),
        rating_audience: meta.rating,
        primary_image: meta.thumbnail,
        ..blank_media()
    }
}

impl Media {
    /// The item for an episode of a Stremio add-on.
    pub fn from_episode(meta: Episode) -> (r: Media)
        ensures
            r@ == episode_media(meta@),
    {
        Media {
            title: match meta.name {
                Some(name) => name,
                None => String::new(),
            },
            kind: MediaKind::Episode,
            released_at: meta.released,
            runtime: meta.runtime,
            description: if meta.overview.is_some() {
                meta.overview
            } else {
                meta.description
            },
            rating_audience: meta.rating,
            primary_image: meta.thumbnail,
            ..Media::default()
        }
    }
}

} // verus!
