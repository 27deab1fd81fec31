//! What clients and RemuxDB are told, field by field.
use vstd::prelude::*;
use vstd::std_specs::convert::FromSpec;
use crate::conversions::{
    episode_media, option_bool, source_info, stremio_source, subtitle_stream, title_facts,
    title_kind, DisplayPreferencesDto, EpisodeView, JellyfinDisplayPrefsData, StreamLookupView,
    SubtitleInfoView, TitleKind,
};
use crate::ids::Id;
use crate::infer::{address_path, path_container, ContainerNameView};
use crate::json::Json;
use crate::model::{
    blank_media, blank_source, blank_stream, MediaKind, MediaProtocol, MediaSourceInfoView,
    MediaSourceRemuxInfoView, MediaStreamType, MediaStreamView, MediaView, ProbeDataView,
    StreamDescriptorView, SubtitleDeliveryMethod, VideoContainerView, VideoRange, VideoRangeType,
};
use crate::probing::{result_of, ProbeOutcomeView};
use crate::remuxdb::{media_info, present, NzbSubmissionView};
use crate::score::scored_info;
use crate::selection::ServiceView;
use crate::text::{ends_with, to_ascii_lower, to_ascii_upper};

verus! {

// --- Sources ---
/// A source is told with the names and identifiers of its item, as a file that is not
/// remote, with what the add-on told of it.
pub proof fn sources_tell_their_item(
    source: MediaView,
    path: Seq<char>,
    runtime_ticks: Option<i64>,
    provider_info: Option<Json>,
    lookups: Seq<StreamLookupView>,
    known: Seq<ContainerNameView>,
)
    ensures
        ({
            let told = source_info(source, path, runtime_ticks, provider_info, lookups, known);
            &&& source.group_id is Some ==> told.id == source.group_id->0
            &&& source.group_id is None ==> told.id == source.id
            &&& told.e_tag == told.id
            &&& told.path == Some(path)
            &&& told.name == Some(source.title)
            &&& told.protocol == MediaProtocol::File
            &&& !told.is_remote
            &&& told.remux == Some(MediaSourceRemuxInfoView { provider_info })
            &&& told.formats is Some && told.formats->0.len() == 0
            &&& told.required_http_headers is Some && told.required_http_headers->0
                == Map::<String, String>::empty()
            &&& !told.supports_transcoding
            &&& !told.supports_direct_stream
            &&& !told.supports_direct_play
        }),
{
}

/// A source has segments exactly where its stream has an HTTP address. Its container
/// is what probing found, or what that address tells of.
pub proof fn sources_tell_their_container(
    source: MediaView,
    path: Seq<char>,
    runtime_ticks: Option<i64>,
    provider_info: Option<Json>,
    lookups: Seq<StreamLookupView>,
    known: Seq<ContainerNameView>,
)
    ensures
        ({
            let told = source_info(source, path, runtime_ticks, provider_info, lookups, known);
            let has_url = source.stream_info is Some && source.stream_info->0.http_url is Some;
            let probed = source.probe_data is Some && source.probe_data->0.container is Some;
            &&& told.has_segments <==> has_url
            &&& probed ==> told.container == source.probe_data->0.container
            &&& !probed && !has_url ==> told.container is None
            &&& !probed && has_url ==> told.container == path_container(
                address_path(source.stream_info->0.http_url->0),
                known,
            )
        }),
{
}

/// What probing found goes before what is known otherwise: the run time of the item,
/// and the size that the add-on told. Of a bit rate nothing else is known.
pub proof fn probing_goes_first(
    source: MediaView,
    path: Seq<char>,
    runtime_ticks: Option<i64>,
    provider_info: Option<Json>,
    lookups: Seq<StreamLookupView>,
    known: Seq<ContainerNameView>,
    probe: ProbeDataView,
)
    ensures
        ({
            let told = source_info(source, path, runtime_ticks, provider_info, lookups, known);
            let told_size = if source.stream_info is Some {
                source.stream_info->0.size
            } else {
                None
            };
            &&& source.probe_data is None ==> {
                &&& told.run_time_ticks == runtime_ticks
                &&& told.bitrate is None
                &&& told.size == told_size
            }
            &&& source.probe_data == Some(probe) ==> {
                &&& told.bitrate == probe.bitrate
                &&& probe.run_time_ticks is Some ==> told.run_time_ticks == probe.run_time_ticks
                &&& probe.run_time_ticks is None ==> told.run_time_ticks == runtime_ticks
                &&& probe.size is Some ==> told.size == probe.size
                &&& probe.size is None ==> told.size == told_size
            }
        }),
{
}

/// Each track that probing found is told in its place. A subtitle track is told as a
/// text exactly where the lookup says that its codec is one of texts; any other track
/// keeps what probing says. A track with a title keeps it, and one without gets the
/// one that was made for its kind. Nothing else of a track changes.
pub proof fn tracks_are_told(
    source: MediaView,
    path: Seq<char>,
    runtime_ticks: Option<i64>,
    provider_info: Option<Json>,
    lookups: Seq<StreamLookupView>,
    known: Seq<ContainerNameView>,
    probe: ProbeDataView,
    i: int,
)
    requires
        source.probe_data == Some(probe),
        0 <= i < probe.media_streams.len(),
        lookups.len() == probe.media_streams.len(),
    ensures
        ({
            let told = source_info(source, path, runtime_ticks, provider_info, lookups, known);
            let found = probe.media_streams[i];
            let track = told.media_streams[i];
            &&& told.media_streams.len() == probe.media_streams.len()
            &&& found.type_ == Some(MediaStreamType::Subtitle) ==> (track.is_text_subtitle_stream
                <==> lookups[i].is_text_subtitle)
            &&& found.type_ != Some(MediaStreamType::Subtitle) ==> track.is_text_subtitle_stream
                == found.is_text_subtitle_stream
            &&& found.display_title is Some ==> track.display_title == found.display_title
            &&& found.display_title is None && (found.type_ == Some(MediaStreamType::Video)
                || found.type_ == Some(MediaStreamType::Audio) || found.type_ == Some(
                MediaStreamType::Subtitle,
            )) ==> track.display_title == lookups[i].display_title
            &&& found.display_title is None && (found.type_ is None || found.type_ == Some(
                MediaStreamType::Other,
            )) ==> track.display_title is None
            &&& track == (MediaStreamView {
                is_text_subtitle_stream: track.is_text_subtitle_stream,
                display_title: track.display_title,
                ..found
            })
        }),
{
}

/// An item that was not probed has no tracks, but for a piece of music, which has one
/// audio track of two channels in AAC.
pub proof fn unprobed_items_have_no_tracks(
    source: MediaView,
    path: Seq<char>,
    runtime_ticks: Option<i64>,
    provider_info: Option<Json>,
    lookups: Seq<StreamLookupView>,
    known: Seq<ContainerNameView>,
)
    requires
        source.probe_data is None || source.probe_data->0.media_streams.len() == 0,
    ensures
        ({
            let told = source_info(source, path, runtime_ticks, provider_info, lookups, known);
            if source.kind is Track {
                told.media_streams == seq![
                    MediaStreamView {
                        type_: Some(MediaStreamType::Audio),
                        codec: Some("aac"@),
                        channels: Some(2),
                        is_default: Some(true),
                        display_title: Some("Audio"@),
                        ..blank_stream()
                    },
                ]
            } else {
                told.media_streams.len() == 0
            }
        }),
{
}

/// A title is made for a track exactly where it has none and is video, audio or
/// subtitles.
pub proof fn titles_are_made_where_there_are_none(stream: MediaStreamView)
    ensures
        stream.display_title is Some ==> title_kind(stream) is None,
        stream.display_title is None ==> {
            &&& stream.type_ == Some(MediaStreamType::Video) <==> title_kind(stream) == Some(
                TitleKind::Video,
            )
            &&& stream.type_ == Some(MediaStreamType::Audio) <==> title_kind(stream) == Some(
                TitleKind::Audio,
            )
            &&& stream.type_ == Some(MediaStreamType::Subtitle) <==> title_kind(stream) == Some(
                TitleKind::Subtitle,
            )
        },
{
}

/// A title is made from what is known of the track, but for its range; a track of
/// which it is not known whether it is the default counts as none.
pub proof fn titles_are_made_from_tracks(stream: MediaStreamView)
    ensures
        ({
            let facts = title_facts(stream);
            &&& facts.language == stream.language
            &&& facts.codec == stream.codec
            &&& facts.profile == stream.profile
            &&& facts.channels == stream.channels
            &&& facts.channel_layout == stream.channel_layout
            &&& facts.width == stream.width
            &&& facts.height == stream.height
            &&& facts.video_range is None
            &&& facts.is_default <==> stream.is_default == Some(true)
            &&& facts.is_forced == stream.is_forced
            &&& facts.is_external == stream.is_external
            &&& facts.is_hearing_impaired == stream.is_hearing_impaired
            &&& facts.title == stream.title
        }),
{
}

// --- Sources that were probed ---
/// What the client is told of a stream that was probed: the identifier and the title
/// of the group that it stands for, or of the group that was asked for, or of the
/// stream that is played; that it is not remote and has segments; the path; and what
/// the add-on told of the candidate. All else is what probing found.
pub proof fn probed_sources_are_told<T>(
    service: ServiceView,
    stream: MediaView,
    outcome: ProbeOutcomeView<T>,
    path: Seq<char>,
)
    ensures
        ({
            let result = result_of(service, stream, outcome, path);
            let told = result.source;
            let played = outcome.effective_stream;
            &&& result.stream == stream
            &&& result.effective_stream == played
            &&& stream.group_id is Some ==> told.id == stream.group_id->0 && told.name == Some(
                stream.title,
            )
            &&& stream.group_id is None && service.group is Some ==> told.id
                == service.group->0.id && told.name == Some(service.group->0.title)
            &&& stream.group_id is None && service.group is None ==> told.id == played.id
                && told.name == Some(played.title)
            &&& told.remux is Some && told.remux->0.provider_info == scored_info(
                outcome.provider_info,
                stream.title,
                service.display_score_in_filename,
            )
            &&& told == (MediaSourceInfoView {
                id: told.id,
                e_tag: told.id,
                name: told.name,
                has_segments: true,
                path: Some(path),
                is_remote: false,
                remux: told.remux,
                ..outcome.source
            })
        }),
{
}

// --- Subtitles ---
/// Whether subtitles are found under a path or an address: an HTTP address, a path of
/// the server or of a store, or the name of a file in a torrent.
pub open spec fn are_found_at(url: Option<StreamDescriptorView>, path: Seq<char>) -> bool {
    match url {
        Some(StreamDescriptorView::Http { url }) => url == path,
        Some(StreamDescriptorView::Local(found)) => found == Some(path),
        Some(StreamDescriptorView::Torrent { file_hint, .. }) => file_hint == Some(path),
        Some(StreamDescriptorView::Opendal { path: found }) => found == path,
        _ => false,
    }
}

proof fn lemma_suffix(base: Seq<char>, suffix: Seq<char>, other: Seq<char>)
    requires
        suffix.len() == 4,
        other.len() == 4,
    ensures
        ends_with(to_ascii_lower(base + suffix), other) <==> to_ascii_lower(suffix) == other,
{
    let s = to_ascii_lower(base + suffix);
    assert(s.len() == base.len() + 4);
    assert(s.subrange(base.len() as int, s.len() as int) =~= to_ascii_lower(suffix));
}

/// The format of subtitles by their extension, in whatever case: `.vtt` is WebVTT,
/// `.srt` is SRT, `.ass` and `.ssa` are ASS, and anything else is taken for WebVTT.
pub proof fn extensions_tell_formats(sub: SubtitleInfoView, base: Seq<char>, extension: Seq<char>)
    requires
        are_found_at(sub.url, base + extension),
        extension.len() == 4,
    ensures
        ({
            let lower = to_ascii_lower(extension);
            let codec = subtitle_stream(sub).codec;
            &&& lower == ".srt"@ ==> codec == Some("subrip"@)
            &&& lower == ".ass"@ ==> codec == Some("ass"@)
            &&& lower == ".ssa"@ ==> codec == Some("ass"@)
            &&& lower != ".srt"@ && lower != ".ass"@ && lower != ".ssa"@ ==> codec == Some(
                "webvtt"@,
            )
        }),
{
    reveal_strlit(".vtt");
    reveal_strlit(".srt");
    reveal_strlit(".ass");
    reveal_strlit(".ssa");
    lemma_suffix(base, extension, ".vtt"@);
    lemma_suffix(base, extension, ".srt"@);
    lemma_suffix(base, extension, ".ass"@);
    lemma_suffix(base, extension, ".ssa"@);
    assert(".vtt"@[1] == 'v' && ".srt"@[1] == 's' && ".srt"@[2] == 'r');
    assert(".ass"@[1] == 'a' && ".ssa"@[1] == 's' && ".ssa"@[2] == 's');
}

/// Subtitles that are found nowhere by a name, or by too short a one, are taken for
/// WebVTT.
pub proof fn unnamed_subtitles_are_webvtt(sub: SubtitleInfoView, path: Seq<char>)
    requires
        (are_found_at(sub.url, path) && path.len() < 4) || forall|p: Seq<char>|
            !#[trigger] are_found_at(sub.url, p),
    ensures
        subtitle_stream(sub).codec == Some("webvtt"@),
{
    reveal_strlit(".vtt");
    reveal_strlit(".srt");
    reveal_strlit(".ass");
    reveal_strlit(".ssa");
    reveal_strlit("");
    if !(are_found_at(sub.url, path) && path.len() < 4) {
        match sub.url {
            Some(StreamDescriptorView::Http { url }) => {
                assert(are_found_at(sub.url, url));
            },
            Some(StreamDescriptorView::Local(Some(p))) => {
                assert(are_found_at(sub.url, p));
            },
            Some(StreamDescriptorView::Torrent { file_hint: Some(p), .. }) => {
                assert(are_found_at(sub.url, p));
            },
            Some(StreamDescriptorView::Opendal { path: p }) => {
                assert(are_found_at(sub.url, p));
            },
            _ => {},
        }
    }
}

/// The track for subtitles of an add-on: its title names the language and the format,
/// and its flags are those of the subtitles.
pub proof fn subtitle_tracks_are_told(sub: SubtitleInfoView, lang: Seq<char>)
    requires
        sub.lang == Some(lang) || (sub.lang is None && lang == "und"@),
    ensures
        ({
            let track = subtitle_stream(sub);
            &&& track.codec == Some("webvtt"@) ==> track.display_title == Some(
                lang + " - WEBVTT - External"@,
            )
            &&& track.codec == Some("subrip"@) ==> track.display_title == Some(
                lang + " - SUBRIP - External"@,
            )
            &&& track.codec == Some("ass"@) ==> track.display_title == Some(
                lang + " - ASS - External"@,
            )
            &&& track == (MediaStreamView {
                type_: Some(MediaStreamType::Subtitle),
                codec: track.codec,
                language: sub.lang,
                display_title: track.display_title,
                is_default: Some(false),
                is_forced: sub.is_forced,
                is_hearing_impaired: sub.is_hi,
                is_external: true,
                is_text_subtitle_stream: true,
                supports_external_stream: true,
                delivery_method: Some(SubtitleDeliveryMethod::External),
                is_external_url: Some(false),
                audio_spatial_format: Some("None"@),
                video_range: Some(VideoRange::Other),
                video_range_type: Some(VideoRangeType::Other),
                localized_undefined: Some("Undefined"@),
                localized_default: Some("Default"@),
                localized_forced: Some("Forced"@),
                localized_external: Some("External"@),
                localized_hearing_impaired: Some("Hearing Impaired"@),
                ..blank_stream()
            })
        }),
{
    reveal_strlit("webvtt");
    reveal_strlit("subrip");
    reveal_strlit("ass");
    reveal_strlit(" - ");
    reveal_strlit(" - External");
    reveal_strlit(" - WEBVTT - External");
    reveal_strlit(" - SUBRIP - External");
    reveal_strlit(" - ASS - External");
    let a = " - "@;
    let b = " - External"@;
    assert(lang + a + to_ascii_upper("webvtt"@) + b =~= lang + " - WEBVTT - External"@);
    assert(lang + a + to_ascii_upper("subrip"@) + b =~= lang + " - SUBRIP - External"@);
    assert(lang + a + to_ascii_upper("ass"@) + b =~= lang + " - ASS - External"@);
    assert("webvtt"@.len() == 6 && "subrip"@.len() == 6 && "ass"@.len() == 3);
    assert("webvtt"@[0] == 'w' && "subrip"@[0] == 's');
}

// --- Items and streams of add-ons ---
/// The item for an episode: its name, or none; when it was released and how long it
/// runs; its overview, or its description where it has none; its rating and its image.
pub proof fn episodes_are_told(meta: EpisodeView)
    ensures
        ({
            let item = episode_media(meta);
            &&& item.kind is Episode
            &&& meta.name is Some ==> item.title == meta.name->0
            &&& meta.name is None ==> item.title.len() == 0
            &&& item.released_at == meta.released
            &&& item.runtime == meta.runtime
            &&& meta.overview is Some ==> item.description == meta.overview
            &&& meta.overview is None ==> item.description == meta.description
            &&& item.rating_audience == meta.rating
            &&& item.primary_image == meta.thumbnail
            &&& item.stream_info is None && item.probe_data is None && item.group_id is None
        }),
{
}

/// The source for a stream of Stremio: its address and its name, to be played and
/// streamed as it is but not transcoded.
pub proof fn stremio_streams_are_told(id: Id, url: Option<Seq<char>>, name: Option<Seq<char>>)
    ensures
        ({
            let told = stremio_source(id, url, name);
            &&& told.id == id && told.e_tag == id
            &&& told.path == url
            &&& told.name == name
            &&& told.protocol == MediaProtocol::File
            &&& told.supports_direct_play && told.supports_direct_stream
            &&& !told.supports_transcoding && !told.is_remote && !told.has_segments
            &&& told.media_streams.len() == 0
            &&& told.size is None && told.bitrate is None && told.run_time_ticks is None
            &&& told.container is None && told.remux is None
        }),
{
}

/// Display preferences are kept as they were sent, with no home sections.
pub proof fn preferences_are_kept_as_sent(dto: DisplayPreferencesDto)
    ensures
        ({
            let kept = <JellyfinDisplayPrefsData as FromSpec<DisplayPreferencesDto>>::from_spec(
                dto,
            );
            &&& kept.view_type == dto.view_type
            &&& kept.sort_by == dto.sort_by
            &&& kept.index_by == dto.index_by
            &&& kept.remember_indexing == dto.remember_indexing
            &&& kept.primary_image_height == dto.primary_image_height
            &&& kept.primary_image_width == dto.primary_image_width
            &&& kept.custom_prefs == dto.custom_prefs
            &&& kept.scroll_direction == dto.scroll_direction
            &&& kept.show_backdrop == dto.show_backdrop
            &&& kept.remember_sorting == dto.remember_sorting
            &&& kept.sort_order == dto.sort_order
            &&& kept.show_sidebar == dto.show_sidebar
            &&& kept.home_sections is None
        }),
{
}

/// A flag is true for one and false for zero, and nothing for any other number.
pub proof fn flags_are_one_or_zero(flag: i64)
    ensures
        option_bool(flag) == Some(true) <==> flag == 1,
        option_bool(flag) == Some(false) <==> flag == 0,
{
}

/// Of a track, a source or an item of which nothing is known, nothing is told.
pub proof fn nothing_is_told_of_what_is_not_known()
    ensures
        ({
            let s = blank_stream();
            &&& s.index == 0 && s.type_ is None && s.codec is None && s.profile is None
            &&& s.language is None && s.title is None && s.display_title is None
            &&& s.channels is None && s.channel_layout is None && s.width is None
            &&& s.height is None && s.is_default is None && !s.is_forced && !s.is_external
            &&& !s.is_hearing_impaired && !s.is_text_subtitle_stream && !s.supports_external_stream
            &&& s.delivery_method is None && s.is_external_url is None
            &&& s.audio_spatial_format is None && s.video_range is None
            &&& s.video_range_type is None && s.localized_undefined is None
            &&& s.localized_default is None && s.localized_forced is None
            &&& s.localized_external is None && s.localized_hearing_impaired is None
        }),
        ({
            let s = blank_source();
            &&& s.id == 0 && s.e_tag == 0 && s.path is None && s.name is None
            &&& s.protocol == MediaProtocol::File && !s.is_remote && s.container is None
            &&& s.remux is None && !s.has_segments && s.formats is None
            &&& s.required_http_headers is None && s.run_time_ticks is None && s.bitrate is None
            &&& s.size is None && s.media_streams.len() == 0 && !s.supports_transcoding
            &&& !s.supports_direct_stream && !s.supports_direct_play
        }),
        ({
            let s = blank_media();
            &&& s.id == 0 && s.kind == MediaKind::Other && s.title.len() == 0
            &&& s.group_id is None && s.description is None && s.released_at is None
            &&& s.runtime is None && s.rating_audience is None && s.primary_image is None
            &&& s.parent_idx is None && s.idx is None && s.external_ids.imdb is None
            &&& s.external_ids.tmdb is None && s.external_ids.tvdb is None
            &&& s.external_ids.kitsu is None && s.grandparent_ids is None && !s.is_remote_url
            &&& s.stream_info is None && s.probe_data is None
        }),
{
}

// --- RemuxDB ---
/// What is submitted of a stream tells where it comes from: the torrent with the index
/// of its file, and the indexer on Usenet where both it and the identifier there are
/// known.
pub proof fn submissions_tell_their_origin<T>(
    probe: MediaSourceInfoView,
    stream: MediaView,
    item: Option<MediaView>,
    client_id: Seq<char>,
    tracks: Seq<Option<T>>,
)
    requires
        media_info(probe, stream, item, client_id, tracks) is Some,
    ensures
        ({
            let info = media_info(probe, stream, item, client_id, tracks)->0;
            let told = stream.stream_info->0;
            &&& stream.stream_info is Some
            &&& told.descriptor matches StreamDescriptorView::Torrent {
                info_hash,
                file_idx,
                ..
            } ==> {
                &&& info.torrent_info_hash == Some(info_hash)
                &&& file_idx is None ==> info.torrent_file_idx is None
                &&& file_idx matches Some(i) ==> info.torrent_file_idx == Some(i as i32)
            }
            &&& !(told.descriptor is Torrent) ==> info.torrent_info_hash is None
                && info.torrent_file_idx is None
            &&& told.usenet_guid is Some && told.usenet_indexer is Some ==> info.nzb == Some(
                NzbSubmissionView {
                    indexer: told.usenet_indexer->0,
                    indexer_guid: told.usenet_guid->0,
                    title: told.filename,
                },
            )
            &&& told.usenet_guid is None || told.usenet_indexer is None ==> info.nzb is None
            &&& told.filename is Some ==> info.filename == told.filename->0
            &&& told.filename is None ==> info.filename == stream.title
            &&& info.client_id == Some(client_id)
        }),
{
}

/// What is submitted of a stream tells what probing found: its container, how long it
/// runs, its bit rate, and its size, or the size that the add-on told.
pub proof fn submissions_tell_what_was_found<T>(
    probe: MediaSourceInfoView,
    stream: MediaView,
    item: Option<MediaView>,
    client_id: Seq<char>,
    tracks: Seq<Option<T>>,
)
    requires
        media_info(probe, stream, item, client_id, tracks) is Some,
    ensures
        ({
            let info = media_info(probe, stream, item, client_id, tracks)->0;
            &&& probe.container matches Some(VideoContainerView::Known(name)) ==> info.container
                == name
            &&& probe.container matches Some(VideoContainerView::Other(name)) ==> info.container
                == name
            &&& probe.container is None ==> info.container.len() == 0
            &&& probe.run_time_ticks is Some ==> info.duration_ticks == probe.run_time_ticks->0
            &&& probe.run_time_ticks is None ==> info.duration_ticks == 0
            &&& info.bitrate == probe.bitrate
            &&& probe.size is Some ==> info.size == probe.size->0
            &&& probe.size is None ==> Some(info.size) == stream.stream_info->0.size
            &&& info.size > 0
            &&& info.tracks == present(tracks)
        }),
{
}

/// Something is submitted of every stream of a torrent or of Usenet whose size, as
/// probing found it or as the add-on told it, is above zero, and of no other.
pub proof fn streams_with_origin_and_size_are_submitted<T>(
    probe: MediaSourceInfoView,
    stream: MediaView,
    item: Option<MediaView>,
    client_id: Seq<char>,
    tracks: Seq<Option<T>>,
)
    ensures
        media_info(probe, stream, item, client_id, tracks) is Some <==> {
            let told = stream.stream_info->0;
            let size = if probe.size is Some {
                probe.size
            } else {
                told.size
            };
            &&& stream.stream_info is Some
            &&& told.descriptor is Torrent || (told.usenet_guid is Some && told.usenet_indexer
                is Some)
            &&& size is Some
            &&& size->0 > 0
        },
{
}

/// What is submitted of an episode is told as one, with its season and its number;
/// anything else as a film, without numbers.
pub proof fn submissions_tell_episodes<T>(
    probe: MediaSourceInfoView,
    stream: MediaView,
    item: Option<MediaView>,
    client_id: Seq<char>,
    tracks: Seq<Option<T>>,
)
    requires
        media_info(probe, stream, item, client_id, tracks) is Some,
    ensures
        ({
            let info = media_info(probe, stream, item, client_id, tracks)->0;
            if item is Some && item->0.kind is Episode {
                &&& info.kind == "episode"@
                &&& item->0.parent_idx is None ==> info.season is None
                &&& item->0.parent_idx matches Some(n) ==> info.season == Some(n as i32)
                &&& item->0.idx is None ==> info.episode is None
                &&& item->0.idx matches Some(n) ==> info.episode == Some(n as i32)
            } else {
                info.kind == "movie"@ && info.season is None && info.episode is None
            }
        }),
{
}

/// Whatever the kind of the item, what is submitted has identifiers exactly where the
/// item has one or its series has one at IMDb. They are the item's own, with that of
/// the series at IMDb only where the item has none there.
pub proof fn submissions_have_the_identifiers_of_their_item<T>(
    probe: MediaSourceInfoView,
    stream: MediaView,
    item: MediaView,
    client_id: Seq<char>,
    tracks: Seq<Option<T>>,
)
    requires
        media_info(probe, stream, Some(item), client_id, tracks) is Some,
    ensures
        ({
            let info = media_info(probe, stream, Some(item), client_id, tracks)->0;
            let own = item.external_ids;
            let of_series = item.grandparent_ids is Some && item.grandparent_ids->0.imdb is Some;
            &&& info.external_ids is Some <==> own.imdb is Some || own.tmdb is Some || own.tvdb
                is Some || own.kitsu is Some || of_series
            &&& info.external_ids matches Some(ids) ==> {
                &&& ids.tmdb == own.tmdb
                &&& ids.tvdb == own.tvdb
                &&& ids.kitsu == own.kitsu
                &&& own.imdb is Some ==> ids.imdb == own.imdb
                &&& own.imdb is None && of_series ==> ids.imdb == item.grandparent_ids->0.imdb
                &&& own.imdb is None && !of_series ==> ids.imdb is None
            }
        }),
        media_info(probe, stream, None, client_id, tracks) is Some,
        media_info(probe, stream, None, client_id, tracks)->0.external_ids is None,
{
}

/// The tracks that can be submitted are, in their order; the others are left out.
pub proof fn tracks_that_can_be_are_submitted<T>(tracks: Seq<Option<T>>, track: T)
    ensures
        present(tracks.push(Some(track))) == present(tracks).push(track),
        present(tracks.push(None)) == present(tracks),
        present(Seq::<Option<T>>::empty()).len() == 0,
{
    assert(tracks.push(Some(track)).drop_last() =~= tracks);
    assert(tracks.push(None).drop_last() =~= tracks);
}

} // verus!
