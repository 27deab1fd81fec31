//! The media that the server describes, and what it tells clients of them.
//!
//! Each type has a view, in which texts are sequences of characters and JSON
//! values are what they hold.
use std::collections::HashMap;
use vstd::prelude::*;
use crate::ids::Id;
use crate::json::{json_of, Json};

verus! {

/// The view of an optional value.
pub open spec fn opt_view<T: View>(o: Option<T>) -> Option<T::V> {
    match o {
        Some(v) => Some(v@),
        None => None,
    }
}

/// The views of values.
pub open spec fn views<T: View>(s: Seq<T>) -> Seq<T::V> {
    s.map_values(|v: T| v@)
}

/// A copy of an optional text.
pub fn clone_text(o: &Option<String>) -> (r: Option<String>)
    ensures
        r == *o,
{
    match o {
        Some(s) => Some(s.clone()),
        None => None,
    }
}

/// What an item of the library is.
#[derive(Debug, Clone, Copy, PartialEq, Eq, Structural)]
pub enum MediaKind {
    Movie,
    Episode,
    Track,
    /// One way to play an item.
    Stream,
    /// A named group of streams, shown to clients as one source.
    StreamGroup,
    Other,
}

/// What a track of a stream carries.
#[derive(Debug, Clone, Copy, PartialEq, Eq, Structural)]
pub enum MediaStreamType {
    Video,
    Audio,
    Subtitle,
    Other,
}

/// How subtitles reach a client.
#[derive(Debug, Clone, Copy, PartialEq, Eq, Structural)]
pub enum SubtitleDeliveryMethod {
    Encode,
    Embed,
    External,
    Hls,
    Drop,
}

/// The dynamic range of a video track.
#[derive(Debug, Clone, Copy, PartialEq, Eq, Structural)]
pub enum VideoRange {
    Sdr,
    Hdr,
    Other,
}

/// The kind of dynamic range of a video track.
#[derive(Debug, Clone, Copy, PartialEq, Eq, Structural)]
pub enum VideoRangeType {
    Sdr,
    Hdr10,
    Hlg,
    DolbyVision,
    Other,
}

/// How a client reaches a source.
#[derive(Debug, Clone, Copy, PartialEq, Eq, Structural)]
pub enum MediaProtocol {
    File,
    Http,
}

/// What a client takes an item for.
#[derive(Debug, Clone, Copy, PartialEq, Eq, Structural)]
pub enum MediaType {
    Video,
    Audio,
    Other,
}

/// A track of a stream, as clients see it.
#[derive(Debug, PartialEq, Eq)]
pub struct MediaStream {
    pub index: i64,
    pub type_: Option<MediaStreamType>,
    pub codec: Option<String>,
    pub profile: Option<String>,
    pub language: Option<String>,
    pub title: Option<String>,
    pub display_title: Option<String>,
    pub channels: Option<i64>,
    pub channel_layout: Option<String>,
    pub width: Option<i64>,
    pub height: Option<i64>,
    pub is_default: Option<bool>,
    pub is_forced: bool,
    pub is_external: bool,
    pub is_hearing_impaired: bool,
    pub is_text_subtitle_stream: bool,
    pub supports_external_stream: bool,
    pub delivery_method: Option<SubtitleDeliveryMethod>,
    pub is_external_url: Option<bool>,
    pub audio_spatial_format: Option<String>,
    pub video_range: Option<VideoRange>,
    pub video_range_type: Option<VideoRangeType>,
    pub localized_undefined: Option<String>,
    pub localized_default: Option<String>,
    pub localized_forced: Option<String>,
    pub localized_external: Option<String>,
    pub localized_hearing_impaired: Option<String>,
}

/// The view of a track.
pub struct MediaStreamView {
    pub index: i64,
    pub type_: Option<MediaStreamType>,
    pub codec: Option<Seq<char>>,
    pub profile: Option<Seq<char>>,
    pub language: Option<Seq<char>>,
    pub title: Option<Seq<char>>,
    pub display_title: Option<Seq<char>>,
    pub channels: Option<i64>,
    pub channel_layout: Option<Seq<char>>,
    pub width: Option<i64>,
    pub height: Option<i64>,
    pub is_default: Option<bool>,
    pub is_forced: bool,
    pub is_external: bool,
    pub is_hearing_impaired: bool,
    pub is_text_subtitle_stream: bool,
    pub supports_external_stream: bool,
    pub delivery_method: Option<SubtitleDeliveryMethod>,
    pub is_external_url: Option<bool>,
    pub audio_spatial_format: Option<Seq<char>>,
    pub video_range: Option<VideoRange>,
    pub video_range_type: Option<VideoRangeType>,
    pub localized_undefined: Option<Seq<char>>,
    pub localized_default: Option<Seq<char>>,
    pub localized_forced: Option<Seq<char>>,
    pub localized_external: Option<Seq<char>>,
    pub localized_hearing_impaired: Option<Seq<char>>,
}

impl View for MediaStream {
    type V = MediaStreamView;

    open spec fn view(&self) -> MediaStreamView {
        MediaStreamView {
            index: self.index,
            type_: self.type_,
            codec: opt_view(self.codec),
            profile: opt_view(self.profile),
            language: opt_view(self.language),
            title: opt_view(self.title),
            display_title: opt_view(self.display_title),
            channels: self.channels,
            channel_layout: opt_view(self.channel_layout),
            width: self.width,
            height: self.height,
            is_default: self.is_default,
            is_forced: self.is_forced,
            is_external: self.is_external,
            is_hearing_impaired: self.is_hearing_impaired,
            is_text_subtitle_stream: self.is_text_subtitle_stream,
            supports_external_stream: self.supports_external_stream,
            delivery_method: self.delivery_method,
            is_external_url: self.is_external_url,
            audio_spatial_format: opt_view(self.audio_spatial_format),
            video_range: self.video_range,
            video_range_type: self.video_range_type,
            localized_undefined: opt_view(self.localized_undefined),
            localized_default: opt_view(self.localized_default),
            localized_forced: opt_view(self.localized_forced),
            localized_external: opt_view(self.localized_external),
            localized_hearing_impaired: opt_view(self.localized_hearing_impaired),
        }
    }
}

/// A track of which nothing is known.
pub open spec fn blank_stream() -> MediaStreamView {
    MediaStreamView {
        index: 0,
        type_: None,
        codec: None,
        profile: None,
        language: None,
        title: None,
        display_title: None,
        channels: None,
        channel_layout: None,
        width: None,
        height: None,
        is_default: None,
        is_forced: false,
        is_external: false,
        is_hearing_impaired: false,
        is_text_subtitle_stream: false,
        supports_external_stream: false,
        delivery_method: None,
        is_external_url: None,
        audio_spatial_format: None,
        video_range: None,
        video_range_type: None,
        localized_undefined: None,
        localized_default: None,
        localized_forced: None,
        localized_external: None,
        localized_hearing_impaired: None,
    }
}

impl Default for MediaStream {
    fn default() -> (r: MediaStream)
        ensures
            r@ == blank_stream(),
    {
        MediaStream {
            index: 0,
            type_: None,
            codec: None,
            profile: None,
            language: None,
            title: None,
            display_title: None,
            channels: None,
            channel_layout: None,
            width: None,
            height: None,
            is_default: None,
            is_forced: false,
            is_external: false,
            is_hearing_impaired: false,
            is_text_subtitle_stream: false,
            supports_external_stream: false,
            delivery_method: None,
            is_external_url: None,
            audio_spatial_format: None,
            video_range: None,
            video_range_type: None,
            localized_undefined: None,
            localized_default: None,
            localized_forced: None,
            localized_external: None,
            localized_hearing_impaired: None,
        }
    }
}

impl Clone for MediaStream {
    fn clone(&self) -> (r: MediaStream)
        ensures
            r@ == self@,
    {
        MediaStream {
            index: self.index,
            type_: self.type_,
            codec: clone_text(&self.codec),
            profile: clone_text(&self.profile),
            language: clone_text(&self.language),
            title: clone_text(&self.title),
            display_title: clone_text(&self.display_title),
            channels: self.channels,
            channel_layout: clone_text(&self.channel_layout),
            width: self.width,
            height: self.height,
            is_default: self.is_default,
            is_forced: self.is_forced,
            is_external: self.is_external,
            is_hearing_impaired: self.is_hearing_impaired,
            is_text_subtitle_stream: self.is_text_subtitle_stream,
            supports_external_stream: self.supports_external_stream,
            delivery_method: self.delivery_method,
            is_external_url: self.is_external_url,
            audio_spatial_format: clone_text(&self.audio_spatial_format),
            video_range: self.video_range,
            video_range_type: self.video_range_type,
            localized_undefined: clone_text(&self.localized_undefined),
            localized_default: clone_text(&self.localized_default),
            localized_forced: clone_text(&self.localized_forced),
            localized_external: clone_text(&self.localized_external),
            localized_hearing_impaired: clone_text(&self.localized_hearing_impaired),
        }
    }
}

/// A container format: one that the server knows, by its name, or another.
#[derive(Debug, PartialEq, Eq)]
pub enum VideoContainer {
    Known(String),
    Other(String),
}

/// The view of a container format.
pub enum VideoContainerView {
    Known(Seq<char>),
    Other(Seq<char>),
}

impl VideoContainerView {
    /// The name of the format.
    pub open spec fn name(self) -> Seq<char> {
        match self {
            VideoContainerView::Known(name) => name,
            VideoContainerView::Other(name) => name,
        }
    }
}

impl View for VideoContainer {
    type V = VideoContainerView;

    open spec fn view(&self) -> VideoContainerView {
        match self {
            VideoContainer::Known(name) => VideoContainerView::Known(name@),
            VideoContainer::Other(name) => VideoContainerView::Other(name@),
        }
    }
}

impl Clone for VideoContainer {
    fn clone(&self) -> (r: VideoContainer)
        ensures
            r@ == self@,
    {
        match self {
            VideoContainer::Known(name) => VideoContainer::Known(name.clone()),
            VideoContainer::Other(name) => VideoContainer::Other(name.clone()),
        }
    }
}

impl VideoContainer {
    /// The name of the format.
    pub fn name(&self) -> (r: String)
        ensures
            r@ == self@.name(),
    {
        match self {
            VideoContainer::Known(name) => name.clone(),
            VideoContainer::Other(name) => name.clone(),
        }
    }
}

/// Where the bytes of a stream come from.
#[derive(Debug, PartialEq, Eq)]
pub enum StreamDescriptor {
    Http { url: String },
    /// A file of the server, by its path where that is Unicode.
    Local(Option<String>),
    Torrent { info_hash: String, file_idx: Option<usize>, file_hint: Option<String> },
    Opendal { path: String },
    Other,
}

/// The view of where a stream comes from.
pub enum StreamDescriptorView {
    Http { url: Seq<char> },
    Local(Option<Seq<char>>),
    Torrent { info_hash: Seq<char>, file_idx: Option<usize>, file_hint: Option<Seq<char>> },
    Opendal { path: Seq<char> },
    Other,
}

impl View for StreamDescriptor {
    type V = StreamDescriptorView;

    open spec fn view(&self) -> StreamDescriptorView {
        match self {
            StreamDescriptor::Http { url } => StreamDescriptorView::Http { url: url@ },
            StreamDescriptor::Local(path) => StreamDescriptorView::Local(opt_view(*path)),
            StreamDescriptor::Torrent {
                info_hash,
                file_idx,
                file_hint,
            } => StreamDescriptorView::Torrent {
                info_hash: info_hash@,
                file_idx: *file_idx,
                file_hint: opt_view(*file_hint),
            },
            StreamDescriptor::Opendal { path } => StreamDescriptorView::Opendal { path: path@ },
            StreamDescriptor::Other => StreamDescriptorView::Other,
        }
    }
}

impl Clone for StreamDescriptor {
    fn clone(&self) -> (r: StreamDescriptor)
        ensures
            r@ == self@,
    {
        match self {
            StreamDescriptor::Http { url } => StreamDescriptor::Http { url: url.clone() },
            StreamDescriptor::Local(path) => StreamDescriptor::Local(path.clone()),
            StreamDescriptor::Torrent {
                info_hash,
                file_idx,
                file_hint,
            } => StreamDescriptor::Torrent {
                info_hash: info_hash.clone(),
                file_idx: *file_idx,
                file_hint: file_hint.clone(),
            },
            StreamDescriptor::Opendal { path } => StreamDescriptor::Opendal { path: path.clone() },
            StreamDescriptor::Other => StreamDescriptor::Other,
        }
    }
}

/// What an add-on tells of a stream.
#[derive(Debug, PartialEq, Eq)]
pub struct StreamInfo {
    pub descriptor: StreamDescriptor,
    /// The HTTP address of the stream, for one that has such an address.
    pub http_url: Option<String>,
    /// Whether the stream is fetched from peers.
    pub is_p2p: bool,
    pub filename: Option<String>,
    pub size: Option<i64>,
    pub usenet_guid: Option<String>,
    pub usenet_indexer: Option<String>,
}

/// The view of what an add-on tells of a stream.
pub struct StreamInfoView {
    pub descriptor: StreamDescriptorView,
    pub http_url: Option<Seq<char>>,
    pub is_p2p: bool,
    pub filename: Option<Seq<char>>,
    pub size: Option<i64>,
    pub usenet_guid: Option<Seq<char>>,
    pub usenet_indexer: Option<Seq<char>>,
}

impl View for StreamInfo {
    type V = StreamInfoView;

    open spec fn view(&self) -> StreamInfoView {
        StreamInfoView {
            descriptor: self.descriptor@,
            http_url: opt_view(self.http_url),
            is_p2p: self.is_p2p,
            filename: opt_view(self.filename),
            size: self.size,
            usenet_guid: opt_view(self.usenet_guid),
            usenet_indexer: opt_view(self.usenet_indexer),
        }
    }
}

impl Clone for StreamInfo {
    fn clone(&self) -> (r: StreamInfo)
        ensures
            r@ == self@,
    {
        StreamInfo {
            descriptor: self.descriptor.clone(),
            http_url: clone_text(&self.http_url),
            is_p2p: self.is_p2p,
            filename: clone_text(&self.filename),
            size: self.size,
            usenet_guid: clone_text(&self.usenet_guid),
            usenet_indexer: clone_text(&self.usenet_indexer),
        }
    }
}

/// What probing a stream found.
#[derive(Debug, PartialEq, Eq)]
pub struct ProbeData {
    pub container: Option<VideoContainer>,
    pub run_time_ticks: Option<i64>,
    pub bitrate: Option<i64>,
    pub size: Option<i64>,
    /// Whether there is a video to play.
    pub has_video: bool,
    pub media_streams: Vec<MediaStream>,
}

/// The view of what probing a stream found.
pub struct ProbeDataView {
    pub container: Option<VideoContainerView>,
    pub run_time_ticks: Option<i64>,
    pub bitrate: Option<i64>,
    pub size: Option<i64>,
    pub has_video: bool,
    pub media_streams: Seq<MediaStreamView>,
}

impl View for ProbeData {
    type V = ProbeDataView;

    open spec fn view(&self) -> ProbeDataView {
        ProbeDataView {
            container: opt_view(self.container),
            run_time_ticks: self.run_time_ticks,
            bitrate: self.bitrate,
            size: self.size,
            has_video: self.has_video,
            media_streams: views(self.media_streams@),
        }
    }
}

/// Copies of tracks.
pub fn clone_streams(streams: &Vec<MediaStream>) -> (r: Vec<MediaStream>)
    ensures
        views(r@) == views(streams@),
{
    let mut out: Vec<MediaStream> = Vec::new();
    let mut i: usize = 0;
    while i < streams.len()
        invariant
            i <= streams.len(),
            views(out@) == views(streams@).take(i as int),
        decreases streams.len() - i,
    {
        let ghost before = out@;
        out.push(streams[i].clone());
        assert(views(out@) == views(before).push(streams@[i as int]@));
        i = i + 1;
    }
    out
}

impl Clone for ProbeData {
    fn clone(&self) -> (r: ProbeData)
        ensures
            r@ == self@,
    {
        ProbeData {
            container: self.container.clone(),
            run_time_ticks: self.run_time_ticks,
            bitrate: self.bitrate,
            size: self.size,
            has_video: self.has_video,
            media_streams: clone_streams(&self.media_streams),
        }
    }
}

/// The identifiers that other services give an item.
#[derive(Debug, PartialEq, Eq)]
pub struct ExternalIds {
    pub imdb: Option<String>,
    pub tmdb: Option<i64>,
    pub tvdb: Option<i64>,
    pub kitsu: Option<i64>,
}

/// The view of the identifiers that other services give an item.
pub struct ExternalIdsView {
    pub imdb: Option<Seq<char>>,
    pub tmdb: Option<i64>,
    pub tvdb: Option<i64>,
    pub kitsu: Option<i64>,
}

impl View for ExternalIds {
    type V = ExternalIdsView;

    open spec fn view(&self) -> ExternalIdsView {
        ExternalIdsView {
            imdb: opt_view(self.imdb),
            tmdb: self.tmdb,
            tvdb: self.tvdb,
            kitsu: self.kitsu,
        }
    }
}

impl Clone for ExternalIds {
    fn clone(&self) -> (r: ExternalIds)
        ensures
            r@ == self@,
    {
        ExternalIds {
            imdb: clone_text(&self.imdb),
            tmdb: self.tmdb,
            tvdb: self.tvdb,
            kitsu: self.kitsu,
        }
    }
}

/// A point of time in UTC: seconds since 1970, and nanoseconds on top of them.
#[derive(Debug, Clone, Copy, PartialEq, Eq, Structural)]
pub struct UtcTime {
    pub seconds: i64,
    pub nanos: u32,
}

/// An item of the library: a film, an episode, a stream of one, and so on.
#[derive(Debug, PartialEq, Eq)]
pub struct Media {
    pub id: Id,
    pub kind: MediaKind,
    pub title: String,
    /// The group that a stream stands for.
    pub group_id: Option<Id>,
    pub description: Option<String>,
    pub released_at: Option<UtcTime>,
    /// How long the item runs, in seconds.
    pub runtime: Option<i64>,
    /// The rating by the audience, as the bits of its double.
    pub rating_audience: Option<u64>,
    /// The address of the primary image.
    pub primary_image: Option<String>,
    /// The number of the season that an episode belongs to.
    pub parent_idx: Option<i64>,
    /// The number of an episode in its season.
    pub idx: Option<i64>,
    pub external_ids: ExternalIds,
    /// The identifiers of the series that an episode belongs to.
    pub grandparent_ids: Option<ExternalIds>,
    /// Whether the item is reached by a remote address.
    pub is_remote_url: bool,
    pub stream_info: Option<StreamInfo>,
    pub probe_data: Option<ProbeData>,
}

/// The view of an item.
pub struct MediaView {
    pub id: Id,
    pub kind: MediaKind,
    pub title: Seq<char>,
    pub group_id: Option<Id>,
    pub description: Option<Seq<char>>,
    pub released_at: Option<UtcTime>,
    pub runtime: Option<i64>,
    pub rating_audience: Option<u64>,
    pub primary_image: Option<Seq<char>>,
    pub parent_idx: Option<i64>,
    pub idx: Option<i64>,
    pub external_ids: ExternalIdsView,
    pub grandparent_ids: Option<ExternalIdsView>,
    pub is_remote_url: bool,
    pub stream_info: Option<StreamInfoView>,
    pub probe_data: Option<ProbeDataView>,
}

impl View for Media {
    type V = MediaView;

    open spec fn view(&self) -> MediaView {
        MediaView {
            id: self.id,
            kind: self.kind,
            title: self.title@,
            group_id: self.group_id,
            description: opt_view(self.description),
            released_at: self.released_at,
            runtime: self.runtime,
            rating_audience: self.rating_audience,
            primary_image: opt_view(self.primary_image),
            parent_idx: self.parent_idx,
            idx: self.idx,
            external_ids: self.external_ids@,
            grandparent_ids: opt_view(self.grandparent_ids),
            is_remote_url: self.is_remote_url,
            stream_info: opt_view(self.stream_info),
            probe_data: opt_view(self.probe_data),
        }
    }
}

/// An item of which nothing is known.
pub open spec fn blank_media() -> MediaView {
    MediaView {
        id: 0,
        kind: MediaKind::Other,
        title: seq![],
        group_id: None,
        description: None,
        released_at: None,
        runtime: None,
        rating_audience: None,
        primary_image: None,
        parent_idx: None,
        idx: None,
        external_ids: ExternalIdsView { imdb: None, tmdb: None, tvdb: None, kitsu: None },
        grandparent_ids: None,
        is_remote_url: false,
        stream_info: None,
        probe_data: None,
    }
}

impl Default for Media {
    fn default() -> (r: Media)
        ensures
            r@ == blank_media(),
    {
        Media {
            id: 0,
            kind: MediaKind::Other,
            title: String::new(),
            group_id: None,
            description: None,
            released_at: None,
            runtime: None,
            rating_audience: None,
            primary_image: None,
            parent_idx: None,
            idx: None,
            external_ids: ExternalIds { imdb: None, tmdb: None, tvdb: None, kitsu: None },
            grandparent_ids: None,
            is_remote_url: false,
            stream_info: None,
            probe_data: None,
        }
    }
}

impl Clone for Media {
    fn clone(&self) -> (r: Media)
        ensures
            r@ == self@,
    {
        Media {
            id: self.id,
            kind: self.kind,
            title: self.title.clone(),
            group_id: self.group_id,
            description: clone_text(&self.description),
            released_at: self.released_at,
            runtime: self.runtime,
            rating_audience: self.rating_audience,
            primary_image: clone_text(&self.primary_image),
            parent_idx: self.parent_idx,
            idx: self.idx,
            external_ids: self.external_ids.clone(),
            grandparent_ids: self.grandparent_ids.clone(),
            is_remote_url: self.is_remote_url,
            stream_info: self.stream_info.clone(),
            probe_data: self.probe_data.clone(),
        }
    }
}

/// What add-ons told of a source, for the client.
#[derive(Debug, PartialEq, Eq)]
pub struct MediaSourceRemuxInfo {
    pub provider_info: Option<serde_json::Value>,
}

/// The view of what add-ons told of a source.
pub struct MediaSourceRemuxInfoView {
    pub provider_info: Option<Json>,
}

/// What an optional JSON value holds.
pub open spec fn opt_json(v: Option<serde_json::Value>) -> Option<Json> {
    match v {
        Some(v) => Some(json_of(v)),
        None => None,
    }
}

impl View for MediaSourceRemuxInfo {
    type V = MediaSourceRemuxInfoView;

    open spec fn view(&self) -> MediaSourceRemuxInfoView {
        MediaSourceRemuxInfoView { provider_info: opt_json(self.provider_info) }
    }
}

/// A source that a client can play, as it is told of it.
#[derive(Debug, PartialEq, Eq)]
pub struct MediaSourceInfo {
    pub id: Id,
    pub e_tag: Id,
    pub path: Option<String>,
    pub protocol: MediaProtocol,
    pub is_remote: bool,
    pub name: Option<String>,
    pub container: Option<VideoContainer>,
    pub remux: Option<MediaSourceRemuxInfo>,
    pub has_segments: bool,
    pub formats: Option<Vec<String>>,
    pub required_http_headers: Option<HashMap<String, String>>,
    pub run_time_ticks: Option<i64>,
    pub bitrate: Option<i64>,
    pub size: Option<i64>,
    pub media_streams: Vec<MediaStream>,
    pub supports_transcoding: bool,
    pub supports_direct_stream: bool,
    pub supports_direct_play: bool,
}

/// The view of a source.
pub struct MediaSourceInfoView {
    pub id: Id,
    pub e_tag: Id,
    pub path: Option<Seq<char>>,
    pub protocol: MediaProtocol,
    pub is_remote: bool,
    pub name: Option<Seq<char>>,
    pub container: Option<VideoContainerView>,
    pub remux: Option<MediaSourceRemuxInfoView>,
    pub has_segments: bool,
    pub formats: Option<Seq<String>>,
    pub required_http_headers: Option<Map<String, String>>,
    pub run_time_ticks: Option<i64>,
    pub bitrate: Option<i64>,
    pub size: Option<i64>,
    pub media_streams: Seq<MediaStreamView>,
    pub supports_transcoding: bool,
    pub supports_direct_stream: bool,
    pub supports_direct_play: bool,
}

impl View for MediaSourceInfo {
    type V = MediaSourceInfoView;

    open spec fn view(&self) -> MediaSourceInfoView {
        MediaSourceInfoView {
            id: self.id,
            e_tag: self.e_tag,
            path: opt_view(self.path),
            protocol: self.protocol,
            is_remote: self.is_remote,
            name: opt_view(self.name),
            container: opt_view(self.container),
            remux: opt_view(self.remux),
            has_segments: self.has_segments,
            formats: opt_view(self.formats),
            required_http_headers: opt_view(self.required_http_headers),
            run_time_ticks: self.run_time_ticks,
            bitrate: self.bitrate,
            size: self.size,
            media_streams: views(self.media_streams@),
            supports_transcoding: self.supports_transcoding,
            supports_direct_stream: self.supports_direct_stream,
            supports_direct_play: self.supports_direct_play,
        }
    }
}

/// A source of which nothing is known.
pub open spec fn blank_source() -> MediaSourceInfoView {
    MediaSourceInfoView {
        id: 0,
        e_tag: 0,
        path: None,
        protocol: MediaProtocol::File,
        is_remote: false,
        name: None,
        container: None,
        remux: None,
        has_segments: false,
        formats: None,
        required_http_headers: None,
        run_time_ticks: None,
        bitrate: None,
        size: None,
        media_streams: seq![],
        supports_transcoding: false,
        supports_direct_stream: false,
        supports_direct_play: false,
    }
}

impl Default for MediaSourceInfo {
    fn default() -> (r: MediaSourceInfo)
        ensures
            r@ == blank_source(),
    {
        let r: MediaSourceInfo = MediaSourceInfo {
            id: 0,
            e_tag: 0,
            path: None,
            protocol: MediaProtocol::File,
            is_remote: false,
            name: None,
            container: None,
            remux: None,
            has_segments: false,
            formats: None,
            required_http_headers: None,
            run_time_ticks: None,
            bitrate: None,
            size: None,
            media_streams: Vec::new(),
            supports_transcoding: false,
            supports_direct_stream: false,
            supports_direct_play: false,
        };
        assert(r@.media_streams == blank_source().media_streams);
        r
    }
}

} // verus!
