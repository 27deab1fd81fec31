//! What is submitted to RemuxDB of a stream that was probed.
use vstd::prelude::*;
use crate::conversions::or;
use crate::model::{
    clone_text, opt_view, ExternalIds, ExternalIdsView, Media, MediaKind, MediaSourceInfo,
    MediaSourceInfoView, MediaView, StreamDescriptor, StreamDescriptorView,
};

verus! {

/// Where a file was found on Usenet.
#[derive(Debug, PartialEq, Eq)]
pub struct NzbSubmission {
    pub indexer: String,
    pub indexer_guid: String,
    pub title: Option<String>,
}

/// The view of where a file was found on Usenet.
pub struct NzbSubmissionView {
    pub indexer: Seq<char>,
    pub indexer_guid: Seq<char>,
    pub title: Option<Seq<char>>,
}

impl View for NzbSubmission {
    type V = NzbSubmissionView;

    open spec fn view(&self) -> NzbSubmissionView {
        NzbSubmissionView {
            indexer: self.indexer@,
            indexer_guid: self.indexer_guid@,
            title: opt_view(self.title),
        }
    }
}

/// What is submitted of a stream. `T` is what is submitted of a track.
#[derive(Debug, PartialEq, Eq)]
pub struct MediaInfoPayload<T> {
    pub client_id: Option<String>,
    pub kind: String,
    pub filename: String,
    pub torrent_info_hash: Option<String>,
    pub torrent_file_idx: Option<i32>,
    pub nzb: Option<NzbSubmission>,
    pub container: String,
    pub size: i64,
    /// How long the stream runs, in ticks.
    pub duration_ticks: i64,
    pub bitrate: Option<i64>,
    pub season: Option<i32>,
    pub episode: Option<i32>,
    pub external_ids: Option<ExternalIds>,
    pub tracks: Vec<T>,
}

/// The view of what is submitted of a stream.
pub struct MediaInfoView<T> {
    pub client_id: Option<Seq<char>>,
    pub kind: Seq<char>,
    pub filename: Seq<char>,
    pub torrent_info_hash: Option<Seq<char>>,
    pub torrent_file_idx: Option<i32>,
    pub nzb: Option<NzbSubmissionView>,
    pub container: Seq<char>,
    pub size: i64,
    pub duration_ticks: i64,
    pub bitrate: Option<i64>,
    pub season: Option<i32>,
    pub episode: Option<i32>,
    pub external_ids: Option<ExternalIdsView>,
    pub tracks: Seq<T>,
}

impl<T> View for MediaInfoPayload<T> {
    type V = MediaInfoView<T>;

    open spec fn view(&self) -> MediaInfoView<T> {
        MediaInfoView {
            client_id: opt_view(self.client_id),
            kind: self.kind@,
            filename: self.filename@,
            torrent_info_hash: opt_view(self.torrent_info_hash),
            torrent_file_idx: self.torrent_file_idx,
            nzb: opt_view(self.nzb),
            container: self.container@,
            size: self.size,
            duration_ticks: self.duration_ticks,
            bitrate: self.bitrate,
            season: self.season,
            episode: self.episode,
            external_ids: opt_view(self.external_ids),
            tracks: self.tracks@,
        }
    }
}

/// The torrent that a stream comes from: its hash, and the index of the file.
pub open spec fn torrent_of(stream: MediaView) -> (Option<Seq<char>>, Option<i32>) {
    match stream.stream_info {
        Some(info) => match info.descriptor {
            StreamDescriptorView::Torrent { info_hash, file_idx, .. } => (
                Some(info_hash),
                match file_idx {
                    Some(i) => Some(i as i32),
                    None => None,
                },
            ),
            _ => (None, None),
        },
        None => (None, None),
    }
}

/// Where a stream was found on Usenet, for one of which both the indexer and its
/// identifier there are known.
pub open spec fn nzb_of(stream: MediaView) -> Option<NzbSubmissionView> {
    match stream.stream_info {
        Some(info) => match (info.usenet_guid, info.usenet_indexer) {
            (Some(guid), Some(indexer)) => Some(
                NzbSubmissionView { indexer, indexer_guid: guid, title: info.filename },
            ),
            _ => None,
        },
        None => None,
    }
}

/// The file name of a stream, or its title where it has none.
pub open spec fn submitted_name(stream: MediaView) -> Seq<char> {
    match stream.stream_info {
        Some(info) => match info.filename {
            Some(filename) => filename,
            None => stream.title,
        },
        None => stream.title,
    }
}

/// The identifiers of an item, where it has any. An item without one at IMDb is
/// submitted under that of its series.
pub open spec fn submitted_ids(item: MediaView) -> Option<ExternalIdsView> {
    let imdb = or(
        item.external_ids.imdb,
        match item.grandparent_ids {
            Some(ids) => ids.imdb,
            None => None,
        },
    );
    if imdb is Some || item.external_ids.tmdb is Some || item.external_ids.tvdb is Some
        || item.external_ids.kitsu is Some {
        Some(ExternalIdsView { imdb, ..item.external_ids })
    } else {
        None
    }
}

/// A number of an episode, as it is submitted.
pub open spec fn submitted_number(item: Option<MediaView>, number: Option<i64>) -> Option<i32> {
    match (item, number) {
        (Some(item), Some(n)) => if item.kind == MediaKind::Episode {
            Some(n as i32)
        } else {
            None
        },
        _ => None,
    }
}

/// The size of a stream: what probing found, or what its add-on told.
pub open spec fn submitted_size(probe: MediaSourceInfoView, stream: MediaView) -> Option<i64> {
    or(
        probe.size,
        match stream.stream_info {
            Some(info) => info.size,
            None => None,
        },
    )
}

/// The values that there are, in their order.
pub open spec fn present<T>(values: Seq<Option<T>>) -> Seq<T>
    decreases values.len(),
{
    if values.len() == 0 {
        seq![]
    } else {
        match values.last() {
            Some(v) => present(values.drop_last()).push(v),
            None => present(values.drop_last()),
        }
    }
}

/// What is submitted of a stream, for one that comes from a torrent or from
/// Usenet and whose size is known.
pub open spec fn media_info<T>(
    probe: MediaSourceInfoView,
    stream: MediaView,
    item: Option<MediaView>,
    client_id: Seq<char>,
    tracks: Seq<Option<T>>,
) -> Option<MediaInfoView<T>> {
    let (info_hash, file_idx) = torrent_of(stream);
    match submitted_size(probe, stream) {
        Some(size) => if size > 0 && (info_hash is Some || nzb_of(stream) is Some) {
            Some(
                MediaInfoView {
                    client_id: Some(client_id),
                    kind: match item {
                        Some(item) => if item.kind == MediaKind::Episode {
                            "episode"@
                        } else {
                            "movie"@
                        },
                        None => "movie"@,
                    },
                    filename: submitted_name(stream),
                    torrent_info_hash: info_hash,
                    torrent_file_idx: file_idx,
                    nzb: nzb_of(stream),
                    container: match probe.container {
                        Some(container) => container.name(),
                        None => seq![],
                    },
                    size,
                    duration_ticks: match probe.run_time_ticks {
                        Some(ticks) => ticks,
                        None => 0,
                    },
                    bitrate: probe.bitrate,
                    season: submitted_number(
                        item,
                        match item {
                            Some(item) => item.parent_idx,
                            None => None,
                        },
                    ),
                    episode: submitted_number(
                        item,
                        match item {
                            Some(item) => item.idx,
                            None => None,
                        },
                    ),
                    external_ids: match item {
                        Some(item) => submitted_ids(item),
                        None => None,
                    },
                    tracks: present(tracks),
                },
            )
        } else {
            None
        },
        None => None,
    }
}

/// The values that there are, in their order.
fn keep_present<T>(values: Vec<Option<T>>) -> (r: Vec<T>)
    ensures
        r@ == present(values@),
{
    let ghost all = values@;
    let mut rest: Vec<Option<T>> = values;
    let mut reversed: Vec<T> = Vec::new();
    assert(present(rest@) + reversed@.reverse() == present(all));
    while rest.len() > 0
        invariant
            present(all) == present(rest@) + reversed@.reverse(),
        decreases rest.len(),
    {
        let ghost before = rest@;
        let ghost kept = reversed@;
        if let Some(Some(v)) = rest.pop() {
            reversed.push(v);
            assert(reversed@.reverse() == seq![v] + kept.reverse());
            assert(present(before) == present(rest@).push(v));
        }
        assert(rest@ == before.drop_last());
    }
    let mut out: Vec<T> = Vec::new();
    assert(present(rest@) + reversed@.reverse() == reversed@.reverse());
    assert(out@ + reversed@.reverse() == reversed@.reverse());
    while reversed.len() > 0
        invariant
            present(all) == out@ + reversed@.reverse(),
        decreases reversed.len(),
    {
        let ghost before = reversed@;
        let ghost done = out@;
        if let Some(v) = reversed.pop() {
            out.push(v);
            assert(before.reverse() == seq![v] + reversed@.reverse());
            assert(out@ + reversed@.reverse() == done + before.reverse());
        }
    }
    assert(out@ + reversed@.reverse() == out@);
    out
}

/// The identifiers of an item, where it has any.
fn ids_to_submit(item: &Media) -> (r: Option<ExternalIds>)
    ensures
        opt_view(r) == submitted_ids(item@),
{
    let imdb: Option<String> = if item.external_ids.imdb.is_some() {
        clone_text(&item.external_ids.imdb)
    } else {
        match &item.grandparent_ids {
            Some(ids) => clone_text(&ids.imdb),
            None => None,
        }
    };
    if imdb.is_some() || item.external_ids.tmdb.is_some() || item.external_ids.tvdb.is_some()
        || item.external_ids.kitsu.is_some() {
        Some(
            ExternalIds {
                imdb,
                tmdb: item.external_ids.tmdb,
                tvdb: item.external_ids.tvdb,
                kitsu: item.external_ids.kitsu,
            },
        )
    } else {
        None
    }
}

/// A number of an episode, as it is submitted.
fn number_to_submit(number: Option<i64>) -> (r: Option<i32>)
    ensures
        r == match number {
            Some(n) => Some(n as i32),
            None => None,
        },
{
    match number {
        Some(n) => Some(
            #[verifier::truncate]
            (n as i32),
        ),
        None => None,
    }
}

/// What is submitted of a stream, for one that comes from a torrent or from
/// Usenet and whose size is known. `tracks` holds, for each track of the source,
/// what is submitted of it, if anything is.
pub fn media_info_from_probe<T>(
    probe: &MediaSourceInfo,
    stream: &Media,
    item: Option<&Media>,
    client_id: String,
    tracks: Vec<Option<T>>,
) -> (r: Option<MediaInfoPayload<T>>)
    ensures
        opt_view(r) == media_info(
            probe@,
            stream@,
            match item {
                Some(item) => Some(item@),
                None => None,
            },
            client_id@,
            tracks@,
        ),
{
    let (info_hash, file_idx, nzb, filename, told_size): (
        Option<String>,
        Option<i32>,
        Option<NzbSubmission>,
        String,
        Option<i64>,
    ) = match &stream.stream_info {
        Some(info) => {
            let (hash, idx): (Option<String>, Option<i32>) = match &info.descriptor {
                StreamDescriptor::Torrent { info_hash, file_idx, .. } => (
                    Some(info_hash.clone()),
                    match file_idx {
                        Some(i) => Some(
                            #[verifier::truncate]
                            (*i as i32),
                        ),
                        None => None,
                    },
                ),
                _ => (None, None),
            };
            let nzb: Option<NzbSubmission> = match (&info.usenet_guid, &info.usenet_indexer) {
                (Some(guid), Some(indexer)) => Some(
                    NzbSubmission {
                        indexer: indexer.clone(),
                        indexer_guid: guid.clone(),
                        title: clone_text(&info.filename),
                    },
                ),
                _ => None,
            };
            let name: String = match &info.filename {
                Some(filename) => filename.clone(),
                None => stream.title.clone(),
            };
            (hash, idx, nzb, name, info.size)
        },
        None => (None, None, None, stream.title.clone(), None),
    };
    assert((opt_view(info_hash), file_idx) == torrent_of(stream@));
    assert(opt_view(nzb) == nzb_of(stream@));
    if info_hash.is_none() && nzb.is_none() {
        return None;
    }
    let size: i64 = match if probe.size.is_some() { probe.size } else { told_size } {
        Some(size) => size,
        None => return None,
    };
    if size <= 0 {
        return None;
    }
    let (kind, external_ids, season, episode): (
        String,
        Option<ExternalIds>,
        Option<i32>,
        Option<i32>,
    ) = match item {
        Some(item) => if item.kind == MediaKind::Episode {
            (
                "episode".to_owned(),
                ids_to_submit(item),
                number_to_submit(item.parent_idx),
                number_to_submit(item.idx),
            )
        } else {
            ("movie".to_owned(), ids_to_submit(item), None, None)
        },
        None => ("movie".to_owned(), None, None, None),
    };
    Some(
        MediaInfoPayload {
            client_id: Some(client_id),
            kind,
            filename,
            torrent_info_hash: info_hash,
            torrent_file_idx: file_idx,
            nzb,
            container: match &probe.container {
                Some(container) => container.name(),
                None => String::new(),
            },
            size,
            duration_ticks: match probe.run_time_ticks {
                Some(ticks) => ticks,
                None => 0,
            },
            bitrate: probe.bitrate,
            season,
            episode,
            external_ids,
            tracks: keep_present(tracks),
        },
    )
}

} // verus!
