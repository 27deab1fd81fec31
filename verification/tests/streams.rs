use remux_server::ids::Id;
use remux_server::loading::{LoadAction, LoadError, LoadEvent, LoadState};
use remux_server::lookup::{
    LookupAction, LookupError, LookupEvent, LookupRequest, LookupState,
};
use remux_server::model::{Media, MediaKind, StreamDescriptor, StreamInfo};
use remux_server::score::{provider_info_with_score, source_score};
use remux_server::store_keys::{group_item_key, preference_key};
use remux_server::stream_service::{StreamFilter, StreamService, StreamServiceConfig};

const ITEM: Id = 1;
const GROUP: Id = 2;

fn media(id: Id, kind: MediaKind, title: &str) -> Media {
    let mut media = Media::default();
    media.id = id;
    media.kind = kind;
    media.title = title.to_string();
    media
}

fn stream(id: Id) -> Media {
    media(id, MediaKind::Stream, "stream")
}

fn playable(id: Id) -> Media {
    let mut media = media(id, MediaKind::Movie, "file");
    media.stream_info = Some(StreamInfo {
        descriptor: StreamDescriptor::Other,
        http_url: None,
        is_p2p: false,
        filename: None,
        size: None,
        usenet_guid: None,
        usenet_indexer: None,
    });
    media
}

fn config(requested_id: Option<Id>) -> StreamServiceConfig {
    StreamServiceConfig {
        item_id: ITEM,
        requested_id,
        show_ungrouped: false,
        stream_filter: None,
        user_id: Some(9),
        skip_initial_probe: false,
        display_score_in_filename: false,
    }
}

fn with_streams(requested_id: Option<Id>, streams: Vec<Media>) -> StreamService {
    let mut service = StreamService::new(config(requested_id));
    let (state, _) = service.load(
        LoadState::Begin,
        LoadEvent::Requested(media(ITEM, MediaKind::Movie, "film")),
    );
    let (state, _) =
        service.load(state, LoadEvent::RootResolved(media(ITEM, MediaKind::Movie, "film")));
    let (state, _) = service.load(state, LoadEvent::Listed(vec![]));
    let (state, action) = service.load(state, LoadEvent::Filtered(streams));
    assert_eq!(state, LoadState::Finished);
    assert_eq!(action, LoadAction::Done);
    service
}

fn with_group() -> StreamService {
    let mut service = StreamService::new(config(Some(GROUP)));
    let group = media(GROUP, MediaKind::StreamGroup, "4K");
    let (state, action) = service.load(LoadState::Begin, LoadEvent::Requested(group));
    assert_eq!(action, LoadAction::RefreshParent { item_id: ITEM, user_id: Some(9) });
    let (state, action) = service.load(state, LoadEvent::ParentRefreshed);
    assert_eq!(action, LoadAction::ListGroup { group_id: GROUP, item_id: ITEM });
    let (state, action) = service.load(state, LoadEvent::Listed(vec![stream(10), stream(11)]));
    assert_eq!(action, LoadAction::ListGroupsAfter { group_id: GROUP, item_id: ITEM });
    let (state, action) = service.load(state, LoadEvent::Listed(vec![stream(12)]));
    assert_eq!(action, LoadAction::Done);
    assert_eq!(state, LoadState::Finished);
    service
}

fn ids(streams: &[Media]) -> Vec<Id> {
    streams.iter().map(|s| s.id).collect()
}

#[test]
fn parses_score_without_consuming_following_text() {
    assert_eq!(
        source_score("Release name • 🎯 Score: +69300 • NZBgeek"),
        Some("+69300")
    );
    assert_eq!(source_score("Release without score"), None);
}

#[test]
fn the_last_score_counts() {
    assert_eq!(source_score("Score: 1 Score:\u{2003}2\tx"), Some("2"));
    assert_eq!(source_score("Score:"), None);
    assert_eq!(source_score("Score: \n"), None);
    assert_eq!(source_score("Score:é"), Some("é"));
}

fn told(text: &str) -> Option<serde_json::Value> {
    Some(serde_json::from_str(text).unwrap())
}

#[test]
fn scores_are_shown_before_file_names() {
    let info = "{\"filename\":\"a.mkv\",\"size\":5}";
    let scored = provider_info_with_score(told(info), "x Score: +7", true).unwrap();
    assert_eq!(scored["filename"], "🎯 SCORE +7 🎯 • a.mkv");
    assert_eq!(scored["size"], 5);
    let again = provider_info_with_score(Some(scored.clone()), "Score: 8", true).unwrap();
    assert_eq!(again, scored);
}

#[test]
fn scores_are_shown_only_where_asked_for() {
    let info = "{\"filename\":\"a.mkv\"}";
    assert_eq!(provider_info_with_score(told(info), "Score: 7", false), told(info));
    assert_eq!(provider_info_with_score(told(info), "no", true), told(info));
    assert_eq!(provider_info_with_score(None, "Score: 7", true), None);
    for other in ["{\"filename\":3}", "{}", "[1]", "null", "\"filename\""] {
        assert_eq!(provider_info_with_score(told(other), "Score: 7", true), told(other));
    }
}

#[test]
fn new_services_have_nothing_loaded() {
    let service = StreamService::new(config(None));
    assert_eq!(service.item_id, ITEM);
    assert!(service.group().is_none());
    assert!(service.streams.is_empty());
    assert!(service.stream.is_none());
}

#[test]
fn groups_are_loaded_with_those_behind_them() {
    let service = with_group();
    let (id, title, candidates) = service.group().unwrap();
    assert_eq!((*id, title.as_str()), (GROUP, "4K"));
    assert_eq!(ids(candidates), vec![10, 11, 12]);
    assert_eq!(service.candidate().id, 10);
    assert_eq!(service.client_facing_id(), GROUP);
    assert_eq!(service.source_id_for(&stream(11)), GROUP);
    assert_eq!(service.source_name_for(&stream(11)), "4K");
}

#[test]
fn groups_are_loaded_where_those_behind_them_fail() {
    let mut service = StreamService::new(config(Some(GROUP)));
    let state = LoadState::ListingCascade {
        group: media(GROUP, MediaKind::StreamGroup, "4K"),
        candidates: vec![stream(10)],
    };
    let (_, action) = service.load(state, LoadEvent::ListFailed);
    assert_eq!(action, LoadAction::Done);
    assert_eq!(ids(&service.group().unwrap().2), vec![10]);
}

#[test]
fn groups_without_streams_fail() {
    let mut service = StreamService::new(config(Some(GROUP)));
    let group = media(GROUP, MediaKind::StreamGroup, "4K");
    let (state, action) =
        service.load(LoadState::ListingGroup { group }, LoadEvent::Listed(vec![]));
    assert_eq!(state, LoadState::Finished);
    let error = LoadError::NoGroupStreams(GROUP);
    assert_eq!(action, LoadAction::Fail(error));
    assert_eq!(
        error.message(),
        "no streams available for group 00000000-0000-0000-0000-000000000002"
    );
    assert_eq!(service, StreamService::new(config(Some(GROUP))));
}

#[test]
fn lists_that_fail_end_loading() {
    let mut service = StreamService::new(config(None));
    let group = media(GROUP, MediaKind::StreamGroup, "4K");
    for state in [
        LoadState::ListingGroup { group: group.clone() },
        LoadState::ListingRoot { root: media(ITEM, MediaKind::Movie, "film") },
    ] {
        let (state, action) = service.load(state, LoadEvent::ListFailed);
        assert_eq!(state, LoadState::Finished);
        assert_eq!(action, LoadAction::Fail(LoadError::ListFailed));
    }
    assert_eq!(LoadError::ListFailed.message(), "the streams could not be listed");
}

#[test]
fn items_are_loaded_with_their_streams() {
    let mut service = StreamService::new(config(None));
    let film = media(ITEM, MediaKind::Movie, "film");
    let (state, action) = service.load(LoadState::Begin, LoadEvent::Requested(film.clone()));
    assert_eq!(
        action,
        LoadAction::ResolveRoot { media: film.clone(), item_id: ITEM, user_id: Some(9) }
    );
    let (state, action) = service.load(state, LoadEvent::RootResolved(film));
    assert_eq!(action, LoadAction::ListStreams { root_id: ITEM });
    let (state, action) = service.load(state, LoadEvent::Listed(vec![stream(10), stream(11)]));
    assert_eq!(
        action,
        LoadAction::FilterSources { raw: vec![stream(10), stream(11)], show_ungrouped: false }
    );
    let (_, action) = service.load(state, LoadEvent::Filtered(vec![stream(11)]));
    assert_eq!(action, LoadAction::Done);
    assert_eq!(ids(&service.streams), vec![11]);
    assert_eq!(service.candidate().id, 11);
    assert_eq!(service.client_facing_id(), 11);
    assert_eq!(service.source_id_for(&stream(12)), 12);
    assert_eq!(service.source_name_for(&stream(12)), "stream");
}

#[test]
fn files_are_their_own_streams() {
    for (root, raw) in [
        (playable(ITEM), vec![playable(ITEM)]),
        (media(ITEM, MediaKind::Movie, "film"), vec![]),
    ] {
        let mut service = StreamService::new(config(None));
        let (_, action) =
            service.load(LoadState::ListingRoot { root }, LoadEvent::Listed(vec![]));
        assert_eq!(action, LoadAction::FilterSources { raw, show_ungrouped: false });
    }
}

#[test]
fn filters_are_applied_to_films_and_episodes() {
    for (rules, kind, applied) in [
        (Some(2), MediaKind::Movie, true),
        (Some(1), MediaKind::Episode, true),
        (Some(0), MediaKind::Movie, false),
        (Some(2), MediaKind::Track, false),
        (None, MediaKind::Movie, false),
    ] {
        let mut cfg = config(None);
        cfg.stream_filter = rules.map(|rules| StreamFilter { rules });
        let mut service = StreamService::new(cfg);
        let state = LoadState::FilteringSources { root_kind: kind };
        let (state, action) = service.load(state, LoadEvent::Filtered(vec![stream(10)]));
        if applied {
            assert_eq!(action, LoadAction::ApplyFilter { streams: vec![stream(10)] });
            let (_, action) = service.load(state, LoadEvent::Filtered(vec![]));
            assert_eq!(action, LoadAction::Done);
            assert!(service.stream.is_none());
        } else {
            assert_eq!(action, LoadAction::Done);
            assert_eq!(service.candidate().id, 10);
        }
    }
}

#[test]
fn other_events_change_nothing() {
    let mut service = with_group();
    let (state, action) = service.load(LoadState::Finished, LoadEvent::Listed(vec![stream(5)]));
    assert_eq!((state, action), (LoadState::Finished, LoadAction::Wait));
    let (state, action) = service.load(LoadState::ResolvingRoot, LoadEvent::ParentRefreshed);
    assert_eq!((state, action), (LoadState::ResolvingRoot, LoadAction::Wait));
    assert_eq!(service, with_group());
}

#[test]
fn groups_offer_their_first_stream() {
    let selection = with_group().select_streams();
    assert_eq!(ids(&selection.candidates), vec![10]);
    assert_eq!(ids(&selection.probe_pool), vec![10, 11, 12]);
    assert!(!selection.restrict_resolution && !selection.probe_only_first);
    assert!(selection.specific_requested);
}

#[test]
fn named_streams_are_offered_alone() {
    let streams = vec![stream(10), stream(11), stream(11)];
    let selection = with_streams(Some(11), streams).select_streams();
    assert_eq!(ids(&selection.candidates), vec![11, 11]);
    assert_eq!(ids(&selection.probe_pool), vec![10, 11, 11]);
    assert!(selection.restrict_resolution && !selection.probe_only_first);
    assert!(selection.specific_requested);
}

#[test]
fn named_items_offer_the_first_stream() {
    for requested in [ITEM, 77] {
        let service = with_streams(Some(requested), vec![stream(10), stream(ITEM)]);
        let selection = service.select_streams();
        assert_eq!(ids(&selection.candidates), vec![10]);
        assert!(!selection.specific_requested && !selection.probe_only_first);
    }
}

#[test]
fn unnamed_requests_offer_everything() {
    let selection = with_streams(None, vec![stream(10), stream(11)]).select_streams();
    assert_eq!(ids(&selection.candidates), vec![10, 11]);
    assert!(selection.probe_only_first && !selection.specific_requested);
    let selection = with_streams(None, vec![]).select_streams();
    assert!(selection.candidates.is_empty());
}

#[test]
fn preferences_are_kept_of_groups() {
    let writes = with_group().save_preference("tv");
    assert_eq!(writes.len(), 2);
    assert_eq!(writes[0].key, "pstream:00000000-0000-0000-0000-000000000001:tv");
    assert_eq!(writes[0].id, 10);
    assert_eq!(writes[0].ttl_secs, 24 * 3600);
    assert_eq!(
        writes[1].key,
        "gitem:00000000-0000-0000-0000-000000000009:00000000-0000-0000-0000-000000000002"
    );
    assert_eq!(writes[1].id, ITEM);
    assert_eq!(writes[1].ttl_secs, 7 * 24 * 3600);

    let mut nobody = with_group();
    nobody.user_id = None;
    assert_eq!(nobody.save_preference("tv").len(), 1);
    assert!(with_streams(None, vec![stream(10)]).save_preference("tv").is_empty());
}

#[test]
fn items_of_groups_are_read_where_they_are_kept() {
    let write = StreamService::save_group_item(9, GROUP, ITEM);
    assert_eq!(write.key, StreamService::get_group_item(9, GROUP));
    assert_ne!(write.key, StreamService::get_group_item(8, GROUP));
    assert_ne!(write.key, StreamService::get_group_item(9, 3));
    assert_eq!(write.key, group_item_key(9, GROUP));
    assert_ne!(preference_key(1, "a"), preference_key(2, "a"));
    assert_ne!(preference_key(1, "a"), preference_key(1, "b"));
}

fn request(requested_id: Option<Id>, device_key: Option<&str>) -> LookupRequest {
    LookupRequest {
        item_id: ITEM,
        requested_id,
        device_key: device_key.map(|s| s.to_string()),
        user_id: Some(9),
    }
}

fn sources() -> Vec<Media> {
    vec![stream(10), stream(11)]
}

#[test]
fn lookups_fetch_what_is_asked_for() {
    for (requested, id) in [(None, ITEM), (Some(7), 7)] {
        let (state, action) = StreamService::lookup(
            &request(requested, None),
            LookupState::Begin,
            LookupEvent::Started,
        );
        assert_eq!(state, LookupState::Fetching);
        assert_eq!(action, LookupAction::Fetch { id });
        let (state, action) =
            StreamService::lookup(&request(requested, None), state, LookupEvent::Fetched(None));
        assert_eq!(state, LookupState::Finished);
        assert_eq!(action, LookupAction::Fail(LookupError::StreamNotFound(id)));
    }
}

#[test]
fn lookups_find_the_first_stream_of_a_group() {
    let ask = request(Some(GROUP), None);
    let group = media(GROUP, MediaKind::StreamGroup, "4K");
    let (state, action) =
        StreamService::lookup(&ask, LookupState::Fetching, LookupEvent::Fetched(Some(group)));
    assert_eq!(action, LookupAction::ListGroup { group_id: GROUP, item_id: ITEM });
    let (state, action) = StreamService::lookup(&ask, state, LookupEvent::Listed(sources()));
    assert_eq!(action, LookupAction::ListGroupsAfter { group_id: GROUP, item_id: ITEM });
    let (_, action) = StreamService::lookup(&ask, state, LookupEvent::Listed(vec![stream(12)]));
    assert_eq!(action, LookupAction::Found(stream(10)));
    let (_, action) = StreamService::lookup(
        &ask,
        LookupState::ListingCascade { candidates: sources() },
        LookupEvent::ListFailed,
    );
    assert_eq!(action, LookupAction::Found(stream(10)));
    let (_, action) = StreamService::lookup(
        &ask,
        LookupState::ListingGroup { group_id: GROUP },
        LookupEvent::Listed(vec![]),
    );
    assert_eq!(action, LookupAction::Fail(LookupError::NoGroupStreams(GROUP)));
}

#[test]
fn lookups_find_named_streams() {
    let ask = request(Some(11), Some("tv"));
    let film = media(ITEM, MediaKind::Movie, "film");
    let (state, action) = StreamService::lookup(
        &ask,
        LookupState::Fetching,
        LookupEvent::Fetched(Some(film.clone())),
    );
    assert_eq!(action, LookupAction::RefreshAndList { media: film, user_id: Some(9) });
    let (_, action) = StreamService::lookup(&ask, state, LookupEvent::Listed(sources()));
    assert_eq!(action, LookupAction::Found(stream(11)));
    let (_, action) = StreamService::lookup(
        &request(Some(12), None),
        LookupState::ListingSources,
        LookupEvent::Listed(sources()),
    );
    assert_eq!(action, LookupAction::Fail(LookupError::StreamNotFound(12)));
}

#[test]
fn lookups_find_what_the_device_played() {
    for (saved, found) in [(Some(11), 11), (Some(99), 10), (None, 10)] {
        let ask = request(Some(ITEM), Some("tv"));
        let (state, action) = StreamService::lookup(
            &ask,
            LookupState::ListingSources,
            LookupEvent::Listed(sources()),
        );
        assert_eq!(
            action,
            LookupAction::ReadPreference { key: with_group().save_preference("tv")[0].key.clone() }
        );
        let (_, action) =
            StreamService::lookup(&ask, state, LookupEvent::PreferenceRead(saved));
        assert_eq!(action, LookupAction::Found(stream(found)));
    }
    let (_, action) = StreamService::lookup(
        &request(None, Some("tv")),
        LookupState::ReadingPreference { sources: vec![] },
        LookupEvent::PreferenceRead(Some(11)),
    );
    assert_eq!(action, LookupAction::Fail(LookupError::NoPlayableSources(ITEM)));
}

#[test]
fn lookups_find_the_first_stream_otherwise() {
    for (listed, end) in [
        (sources(), LookupAction::Found(stream(10))),
        (vec![], LookupAction::Fail(LookupError::NoPlayableSources(ITEM))),
    ] {
        let (_, action) = StreamService::lookup(
            &request(None, None),
            LookupState::ListingSources,
            LookupEvent::Listed(listed),
        );
        assert_eq!(action, end);
    }
}

#[test]
fn lookups_take_other_kinds_as_they_are() {
    let (state, action) = StreamService::lookup(
        &request(Some(10), None),
        LookupState::Fetching,
        LookupEvent::Fetched(Some(stream(10))),
    );
    assert_eq!(state, LookupState::Finished);
    assert_eq!(action, LookupAction::Found(stream(10)));
}

#[test]
fn lookups_fail_with_their_requests() {
    let ask = request(None, None);
    let (_, action) =
        StreamService::lookup(&ask, LookupState::Fetching, LookupEvent::FetchFailed);
    assert_eq!(action, LookupAction::Fail(LookupError::FetchFailed));
    let (_, action) =
        StreamService::lookup(&ask, LookupState::ListingSources, LookupEvent::ListFailed);
    assert_eq!(action, LookupAction::Fail(LookupError::ListFailed));
    let (_, action) = StreamService::lookup(
        &ask,
        LookupState::ListingGroup { group_id: GROUP },
        LookupEvent::ListFailed,
    );
    assert_eq!(action, LookupAction::Fail(LookupError::ListFailed));
    let (state, action) =
        StreamService::lookup(&ask, LookupState::Finished, LookupEvent::Started);
    assert_eq!((state, action), (LookupState::Finished, LookupAction::Wait));
}

#[test]
fn lookup_errors_have_messages() {
    for (error, text) in [
        (LookupError::FetchFailed, "the stream could not be fetched"),
        (LookupError::ListFailed, "the streams could not be listed"),
        (
            LookupError::StreamNotFound(7),
            "stream not found: 00000000-0000-0000-0000-000000000007",
        ),
        (
            LookupError::NoGroupStreams(7),
            "no streams available for group 00000000-0000-0000-0000-000000000007",
        ),
        (
            LookupError::NoPlayableSources(7),
            "no playable sources for 00000000-0000-0000-0000-000000000007",
        ),
    ] {
        assert_eq!(error.message(), text);
    }
}
