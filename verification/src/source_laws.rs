//! What holds of every source that a client is told of.
use vstd::prelude::*;
use crate::conversions::{
    described_stream, probed_streams, source_info, subtitle_stream, title_kind, StreamLookupView,
    SubtitleInfoView,
};
use crate::infer::{fallback_streams, ContainerNameView};
use crate::json::Json;
use crate::model::{
    MediaKind, MediaSourceInfoView, MediaStreamType, MediaStreamView, MediaView,
};
use crate::remuxdb::{media_info, nzb_of, present, submitted_size, torrent_of};
use crate::score::{score_of, score_prefix, scored_info, scored_name};
use crate::text::occurs_at;

verus! {

/// The size of a source is what probing found, and what the add-on told where
/// probing found none or has not run.
pub proof fn size_falls_back_to_the_add_on(
    source: MediaView,
    path: Seq<char>,
    runtime_ticks: Option<i64>,
    provider_info: Option<Json>,
    lookups: Seq<StreamLookupView>,
    known: Seq<ContainerNameView>,
)
    ensures
        ({
            let told = source_info(source, path, runtime_ticks, provider_info, lookups, known);
            if source.probe_data matches Some(probe) && probe.size is Some {
                told.size == source.probe_data->0.size
            } else if source.stream_info is Some {
                told.size == source.stream_info->0.size
            } else {
                told.size is None
            }
        }),
{
}

/// A piece of music always has a track, so that clients do not refuse to play it.
pub proof fn music_always_has_a_track(
    source: MediaView,
    path: Seq<char>,
    runtime_ticks: Option<i64>,
    provider_info: Option<Json>,
    lookups: Seq<StreamLookupView>,
    known: Seq<ContainerNameView>,
)
    requires
        source.kind == MediaKind::Track,
    ensures
        source_info(
            source,
            path,
            runtime_ticks,
            provider_info,
            lookups,
            known,
        ).media_streams.len() > 0,
{
}

/// Every other source has as many tracks as probing found, each of them in its
/// place.
pub proof fn tracks_keep_their_places(
    source: MediaView,
    path: Seq<char>,
    runtime_ticks: Option<i64>,
    provider_info: Option<Json>,
    lookups: Seq<StreamLookupView>,
    known: Seq<ContainerNameView>,
    i: int,
)
    requires
        source.kind != MediaKind::Track || probed_streams(source).len() > 0,
        0 <= i < probed_streams(source).len(),
    ensures
        ({
            let told = source_info(source, path, runtime_ticks, provider_info, lookups, known);
            &&& told.media_streams.len() == probed_streams(source).len()
            &&& told.media_streams[i] == described_stream(probed_streams(source)[i], lookups[i])
        }),
{
}

/// A source of a group has the identifier of the group, and any other its own.
/// Either way it keeps the path under which clients see it.
pub proof fn sources_have_the_identifier_of_their_group(
    source: MediaView,
    path: Seq<char>,
    runtime_ticks: Option<i64>,
    provider_info: Option<Json>,
    lookups: Seq<StreamLookupView>,
    known: Seq<ContainerNameView>,
)
    ensures
        ({
            let told = source_info(source, path, runtime_ticks, provider_info, lookups, known);
            &&& told.id == told.e_tag
            &&& source.group_id matches Some(id) ==> told.id == id
            &&& source.group_id is None ==> told.id == source.id
            &&& told.path == Some(path)
        }),
{
}

/// A title that a track has stays, and nothing of a track changes but its title
/// and whether it is a text.
pub proof fn titles_that_there_are_stay(stream: MediaStreamView, lookup: StreamLookupView)
    ensures
        stream.display_title is Some ==> described_stream(stream, lookup).display_title
            == stream.display_title,
        stream.type_ != Some(MediaStreamType::Subtitle) ==> described_stream(
            stream,
            lookup,
        ).is_text_subtitle_stream == stream.is_text_subtitle_stream,
        described_stream(stream, lookup) == (MediaStreamView {
            display_title: described_stream(stream, lookup).display_title,
            is_text_subtitle_stream: described_stream(stream, lookup).is_text_subtitle_stream,
            ..stream
        }),
        title_kind(described_stream(stream, lookup)) is Some ==> lookup.display_title is None,
{
}

/// A remote stream is taken to have one video track and one audio track, and
/// nothing else to have any.
pub proof fn fallback_tracks_are_video_and_audio(source: MediaView)
    ensures
        if source.kind == MediaKind::Stream && source.is_remote_url {
            &&& fallback_streams(source).len() == 2
            &&& fallback_streams(source)[0].type_ == Some(MediaStreamType::Video)
            &&& fallback_streams(source)[1].type_ == Some(MediaStreamType::Audio)
        } else {
            fallback_streams(source).len() == 0
        },
{
}

/// Subtitles of add-ons are WebVTT, SRT or ASS, and reach the client as texts
/// apart from the stream.
pub proof fn subtitles_are_external_texts(sub: SubtitleInfoView)
    ensures
        subtitle_stream(sub).codec == Some("webvtt"@) || subtitle_stream(sub).codec == Some(
            "subrip"@,
        ) || subtitle_stream(sub).codec == Some("ass"@),
        subtitle_stream(sub).type_ == Some(MediaStreamType::Subtitle),
        subtitle_stream(sub).is_external,
        subtitle_stream(sub).is_text_subtitle_stream,
        subtitle_stream(sub).language == sub.lang,
{
}

/// Something is submitted of a stream exactly where it comes from a torrent or
/// from Usenet and its size is known; the size that is submitted is positive.
pub proof fn streams_of_known_origin_are_submitted<T>(
    probe: MediaSourceInfoView,
    stream: MediaView,
    item: Option<MediaView>,
    client_id: Seq<char>,
    tracks: Seq<Option<T>>,
)
    ensures
        media_info(probe, stream, item, client_id, tracks) is Some <==> (torrent_of(stream).0
            is Some || nzb_of(stream) is Some) && submitted_size(probe, stream) is Some
            && submitted_size(probe, stream)->0 > 0,
        media_info(probe, stream, item, client_id, tracks) matches Some(info) ==> info.size > 0
            && (info.torrent_info_hash is Some || info.nzb is Some) && info.tracks.len()
            <= tracks.len(),
{
    lemma_present_len(tracks);
}

proof fn lemma_present_len<T>(values: Seq<Option<T>>)
    ensures
        present(values).len() <= values.len(),
    decreases values.len(),
{
    if values.len() > 0 {
        lemma_present_len(values.drop_last());
    }
}

/// Where an add-on gives a score, the client sees it before the file name, unless
/// the file name shows one already.
pub proof fn scores_are_shown(entries: Map<Seq<char>, Json>, title: Seq<char>)
    requires
        score_of(title) is Some,
        entries.dom().contains("filename"@),
        entries["filename"@] is Text,
        !occurs_at(entries["filename"@]->Text_0, score_prefix(), 0),
    ensures
        scored_info(Some(Json::Dict(entries)), title, true) matches Some(Json::Dict(after))
            && after["filename"@] == Json::Text(
            scored_name(score_of(title)->0, entries["filename"@]->Text_0),
        ),
{
}

} // verus!
