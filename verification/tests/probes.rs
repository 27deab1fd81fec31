use remux_server::ids::Id;
use remux_server::loading::{LoadEvent, LoadState};
use remux_server::model::{
    ExternalIds, Media, MediaKind, MediaSourceInfo, ProbeData, StreamDescriptor, StreamInfo,
    VideoContainer,
};
use remux_server::probing::{
    probe_limits, ProbeOutcome, ProbeRun, ProbeSettings, Submission,
};
use remux_server::remuxdb::media_info_from_probe;
use remux_server::stream_service::{StreamService, StreamServiceConfig};

const ITEM: Id = 1;

fn settings() -> ProbeSettings {
    ProbeSettings {
        probe_timeout_secs: None,
        probe_timeout_p2p_secs: None,
        auto_next_stream_on_probe_fail: None,
        max_probe_fallback_streams: None,
        remuxdb_enabled: None,
    }
}

fn torrent(id: Id) -> Media {
    let mut media = Media::default();
    media.id = id;
    media.kind = MediaKind::Stream;
    media.title = format!("Release {} Score: +{}", id, id);
    media.stream_info = Some(StreamInfo {
        descriptor: StreamDescriptor::Torrent {
            info_hash: "abc".to_string(),
            file_idx: Some(3),
            file_hint: None,
        },
        http_url: None,
        is_p2p: id % 2 == 0,
        filename: Some(format!("release.{}.mkv", id)),
        size: Some(100),
        usenet_guid: None,
        usenet_indexer: None,
    });
    media
}

fn service(requested_id: Option<Id>, skip_initial_probe: bool, streams: Vec<Media>) -> StreamService {
    let mut service = StreamService::new(StreamServiceConfig {
        item_id: ITEM,
        requested_id,
        show_ungrouped: true,
        stream_filter: None,
        user_id: None,
        skip_initial_probe,
        display_score_in_filename: true,
    });
    service.load(
        LoadState::FilteringSources { root_kind: MediaKind::Movie },
        LoadEvent::Filtered(streams),
    );
    service
}

fn outcome(effective_stream: Media) -> ProbeOutcome<u8> {
    ProbeOutcome {
        source: MediaSourceInfo {
            id: 55,
            is_remote: true,
            container: Some(VideoContainer::Known("mkv".to_string())),
            run_time_ticks: Some(900),
            bitrate: Some(4),
            ..MediaSourceInfo::default()
        },
        effective_stream,
        provider_info: Some(serde_json::from_str("{\"filename\":\"a.mkv\"}").unwrap()),
        client_id: "server".to_string(),
        tracks: vec![Some(1), None, Some(2)],
    }
}

fn film() -> Media {
    let mut media = Media::default();
    media.id = ITEM;
    media.kind = MediaKind::Movie;
    media
}

#[test]
fn limits_have_defaults() {
    let limits = probe_limits(&settings());
    assert_eq!(limits.timeout_secs, 20);
    assert_eq!(limits.timeout_p2p_secs, 60);
    assert!(limits.auto_next);
    assert_eq!(limits.max_retries, 3);
    assert!(limits.remuxdb_enabled);
}

#[test]
fn limits_follow_the_settings() {
    let limits = probe_limits(&ProbeSettings {
        probe_timeout_secs: Some(5),
        probe_timeout_p2p_secs: Some(6),
        auto_next_stream_on_probe_fail: Some(false),
        max_probe_fallback_streams: Some(0),
        remuxdb_enabled: Some(false),
    });
    assert_eq!((limits.timeout_secs, limits.timeout_p2p_secs), (5, 6));
    assert_eq!((limits.auto_next, limits.max_retries), (false, 0));
    assert!(!limits.remuxdb_enabled);
}

#[test]
fn the_first_stream_alone_is_probed() {
    let service = service(None, false, vec![torrent(10), torrent(11), torrent(12)]);
    let mut run = service.probe_candidates(&settings());
    for (index, timeout_secs) in [(0usize, 60u64), (1, 20), (2, 60)] {
        let plan = service.next_probe(&run).unwrap();
        assert_eq!(plan.index, index);
        assert_eq!(plan.skip_probe, index > 0);
        assert_eq!(plan.timeout_secs, timeout_secs);
        assert!(plan.auto_next && plan.restrict_resolution);
        assert_eq!(plan.max_retries, 3);
        service.probed(&mut run, outcome(torrent(10)), None, true);
    }
    assert_eq!(service.next_probe(&run), None);
    let all = run.finish();
    assert!(!all.specific_requested);
    let ids: Vec<Id> = all.results.iter().map(|r| r.stream.id).collect();
    assert_eq!(ids, vec![10, 11, 12]);
}

#[test]
fn first_lists_can_come_without_probing() {
    let service = service(None, true, vec![torrent(10), torrent(11)]);
    let run: ProbeRun = service.probe_candidates(&settings());
    assert!(service.next_probe(&run).unwrap().skip_probe);
}

#[test]
fn selected_streams_are_probed_even_then() {
    let service = service(Some(11), true, vec![torrent(10), torrent(11)]);
    let run = service.probe_candidates(&settings());
    assert!(!service.next_probe(&run).unwrap().skip_probe);
    assert!(run.selection.specific_requested);
}

#[test]
fn nothing_is_probed_without_streams() {
    let service = service(None, false, vec![]);
    let run = service.probe_candidates(&settings());
    assert_eq!(service.next_probe(&run), None);
    assert!(run.finish().results.is_empty());
}

#[test]
fn sources_are_told_under_what_is_played() {
    let service = service(None, false, vec![torrent(10)]);
    let mut run = service.probe_candidates(&settings());
    service.probed(&mut run, outcome(torrent(11)), None, true);
    let result = run.finish().results.remove(0);
    assert_eq!(result.stream.id, 10);
    assert_eq!(result.effective_stream.id, 11);
    assert_eq!(result.source.id, 11);
    assert_eq!(result.source.e_tag, 11);
    assert_eq!(result.source.name.as_deref(), Some("Release 11 Score: +11"));
    assert_eq!(
        result.source.path.as_deref(),
        Some("/remux/00000000-0000-0000-0000-00000000000b/release.11")
    );
    assert!(result.source.has_segments && !result.source.is_remote);
    assert_eq!(result.source.bitrate, Some(4));
    let told = result.source.remux.unwrap().provider_info.unwrap();
    assert_eq!(told["filename"], "🎯 SCORE +10 🎯 • a.mkv");
}

#[test]
fn sources_are_told_under_a_given_path() {
    let service = service(None, false, vec![torrent(10)]);
    let mut run = service.probe_candidates(&settings());
    let path = "/remux/x".to_string();
    let submission = service.probed_at(&mut run, outcome(torrent(11)), path, None, true);
    assert_eq!(submission, Submission::NotMovieOrEpisode);
    assert_eq!(run.finish().results[0].source.path.as_deref(), Some("/remux/x"));
}

#[test]
fn representatives_are_told_under_their_group() {
    let mut first = torrent(10);
    first.group_id = Some(77);
    first.title = "4K".to_string();
    let service = service(None, false, vec![first]);
    let mut run = service.probe_candidates(&settings());
    service.probed(&mut run, outcome(torrent(11)), None, true);
    let result = run.finish().results.remove(0);
    assert_eq!(result.source.id, 77);
    assert_eq!(result.source.name.as_deref(), Some("4K"));
}

#[test]
fn groups_are_told_under_their_identifier() {
    let mut service = service(Some(5), false, vec![]);
    let mut group = Media::default();
    group.id = 5;
    group.title = "HD".to_string();
    let state = LoadState::ListingCascade { group, candidates: vec![torrent(10)] };
    service.load(state, LoadEvent::Listed(vec![torrent(11)]));
    let mut run = service.probe_candidates(&settings());
    let plan = service.next_probe(&run).unwrap();
    assert!(!plan.skip_probe && !plan.restrict_resolution);
    service.probed(&mut run, outcome(torrent(11)), None, true);
    let all = run.finish();
    assert!(all.specific_requested);
    assert_eq!(all.results[0].source.id, 5);
    assert_eq!(all.results[0].source.name.as_deref(), Some("HD"));
}

fn submission(stream: Media, item: Option<&Media>, enabled: bool, server: bool) -> Submission<u8> {
    let effective = stream.clone();
    let service = service(None, false, vec![stream]);
    let mut run = service.probe_candidates(&ProbeSettings {
        remuxdb_enabled: Some(enabled),
        ..settings()
    });
    service.probed(&mut run, outcome(effective), item, server)
}

#[test]
fn submissions_are_decided() {
    let film = film();
    let mut cached = torrent(10);
    cached.probe_data = Some(ProbeData {
        container: None,
        run_time_ticks: None,
        bitrate: None,
        size: None,
        has_video: true,
        media_streams: vec![],
    });
    assert_eq!(submission(cached.clone(), Some(&film), true, true), Submission::CacheHit);
    cached.probe_data.as_mut().unwrap().has_video = false;
    assert!(matches!(submission(cached, Some(&film), true, true), Submission::Submit(_)));
    assert_eq!(submission(torrent(10), Some(&film), false, true), Submission::Disabled);
    assert_eq!(submission(torrent(10), None, true, true), Submission::NotMovieOrEpisode);
    let mut track = Media::default();
    track.kind = MediaKind::Track;
    assert_eq!(
        submission(torrent(10), Some(&track), true, true),
        Submission::NotMovieOrEpisode
    );
    assert_eq!(submission(torrent(10), Some(&film), true, false), Submission::NoServer);
    let mut bare = torrent(10);
    bare.stream_info = None;
    assert_eq!(submission(bare, Some(&film), true, true), Submission::NothingToSubmit);
}

#[test]
fn films_are_submitted() {
    match submission(torrent(10), Some(&film()), true, true) {
        Submission::Submit(payload) => {
            assert_eq!(payload.client_id.as_deref(), Some("server"));
            assert_eq!(payload.kind, "movie");
            assert_eq!(payload.filename, "release.10.mkv");
            assert_eq!(payload.torrent_info_hash.as_deref(), Some("abc"));
            assert_eq!(payload.torrent_file_idx, Some(3));
            assert_eq!(payload.nzb, None);
            assert_eq!(payload.container, "mkv");
            assert_eq!(payload.size, 100);
            assert_eq!(payload.duration_ticks, 900);
            assert_eq!(payload.bitrate, Some(4));
            assert_eq!(payload.season, None);
            assert_eq!(payload.episode, None);
            assert_eq!(payload.external_ids, None);
            assert_eq!(payload.tracks, vec![1, 2]);
        }
        other => panic!("{:?}", other),
    }
}

#[test]
fn episodes_are_submitted_with_their_numbers() {
    let mut episode = film();
    episode.kind = MediaKind::Episode;
    episode.parent_idx = Some(2);
    episode.idx = Some(5);
    episode.external_ids.tmdb = Some(8);
    episode.grandparent_ids = Some(ExternalIds {
        imdb: Some("tt1".to_string()),
        tmdb: Some(9),
        tvdb: None,
        kitsu: None,
    });
    let probe = MediaSourceInfo { size: Some(7), ..MediaSourceInfo::default() };
    let tracks: Vec<Option<u8>> = vec![];
    let payload =
        media_info_from_probe(&probe, &torrent(10), Some(&episode), "c".to_string(), tracks)
            .unwrap();
    assert_eq!(payload.kind, "episode");
    assert_eq!((payload.season, payload.episode), (Some(2), Some(5)));
    assert_eq!(payload.size, 7);
    assert_eq!(payload.container, "");
    assert_eq!(payload.duration_ticks, 0);
    let ids = payload.external_ids.unwrap();
    assert_eq!(ids.imdb.as_deref(), Some("tt1"));
    assert_eq!(ids.tmdb, Some(8));
}

#[test]
fn streams_of_usenet_are_submitted() {
    let mut stream = torrent(10);
    let info = stream.stream_info.as_mut().unwrap();
    info.descriptor = StreamDescriptor::Other;
    info.usenet_guid = Some("g".to_string());
    let probe = MediaSourceInfo::default();
    let none: Vec<Option<u8>> = vec![];
    assert!(media_info_from_probe(&probe, &stream, None, "c".to_string(), none).is_none());
    stream.stream_info.as_mut().unwrap().usenet_indexer = Some("i".to_string());
    let none: Vec<Option<u8>> = vec![];
    let payload = media_info_from_probe(&probe, &stream, None, "c".to_string(), none).unwrap();
    let nzb = payload.nzb.unwrap();
    assert_eq!((nzb.indexer.as_str(), nzb.indexer_guid.as_str()), ("i", "g"));
    assert_eq!(nzb.title.as_deref(), Some("release.10.mkv"));
    assert_eq!(payload.kind, "movie");
    assert_eq!(payload.torrent_info_hash, None);
}

#[test]
fn streams_without_size_are_not_submitted() {
    for size in [None, Some(0), Some(-1)] {
        let mut stream = torrent(10);
        stream.stream_info.as_mut().unwrap().size = size;
        let none: Vec<Option<u8>> = vec![];
        let probe = MediaSourceInfo::default();
        assert!(media_info_from_probe(&probe, &stream, None, "c".to_string(), none).is_none());
    }
}
