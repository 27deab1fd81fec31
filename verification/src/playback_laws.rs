//! What a playback request comes to, from its first step to its last.
use vstd::prelude::*;
use crate::ids::{id_text, Id};
use crate::loading::{
    load_step, plays_first, LoadActionView, LoadError, LoadEventView, LoadStateView,
};
use crate::lookup::{
    first_with_id, lookup_step, LookupActionView, LookupError, LookupEventView, LookupRequestView,
    LookupStateView,
};
use crate::model::{MediaKind, MediaView};
use crate::probing::{
    limits_of, plan_of, submission_of, ProbeLimits, ProbeOutcomeView, ProbeRunView, ProbeSettings,
    SubmissionView,
};
use crate::remuxdb::media_info;
use crate::selection::{has_id, select, with_id, GroupView, ServiceView};
use crate::store_keys::{group_item_key_text, group_item_write, preference_key_text};
use crate::stream_service::{
    client_id_of, new_service, preference_writes, source_id, source_name, StreamServiceConfig,
};

verus! {

// --- Lookups ---
/// A lookup starts with what the request names, or with the item where it names
/// nothing. Where there is no such thing, or it cannot be fetched, that is the end.
pub proof fn lookups_start_with_what_is_named(request: LookupRequestView, id: Id)
    requires
        request.requested_id == Some(id) || (request.requested_id is None && request.item_id == id),
    ensures
        lookup_step(request, LookupStateView::Begin, LookupEventView::Started) == (
            LookupStateView::Fetching,
            LookupActionView::Fetch { id },
        ),
        lookup_step(request, LookupStateView::Fetching, LookupEventView::Fetched(None)) == (
            LookupStateView::Finished,
            LookupActionView::Fail(LookupError::StreamNotFound(id)),
        ),
        lookup_step(request, LookupStateView::Fetching, LookupEventView::FetchFailed) == (
            LookupStateView::Finished,
            LookupActionView::Fail(LookupError::FetchFailed),
        ),
{
}

/// A film, an episode or a piece of music is never what is played: its streams are
/// refreshed for the user and listed.
pub proof fn items_have_their_streams_listed(request: LookupRequestView, media: MediaView)
    requires
        media.kind is Movie || media.kind is Episode || media.kind is Track,
    ensures
        lookup_step(request, LookupStateView::Fetching, LookupEventView::Fetched(Some(media))) == (
            LookupStateView::ListingSources,
            LookupActionView::RefreshAndList { media, user_id: request.user_id },
        ),
{
}

/// Only what is neither a film nor an episode nor a piece of music nor a group is
/// found as it is.
pub proof fn only_other_kinds_are_found_at_once(request: LookupRequestView, media: MediaView)
    ensures
        lookup_step(request, LookupStateView::Fetching, LookupEventView::Fetched(Some(media))).1
            is Found <==> !(media.kind is Movie || media.kind is Episode || media.kind is Track
            || media.kind is StreamGroup),
        media.kind is Stream || media.kind is Other ==> lookup_step(
            request,
            LookupStateView::Fetching,
            LookupEventView::Fetched(Some(media)),
        ) == (LookupStateView::Finished, LookupActionView::Found(media)),
{
}

/// Whether a stream is the first one of its identifier.
pub open spec fn is_first_of_id(sources: Seq<MediaView>, id: Id, k: int) -> bool {
    &&& 0 <= k < sources.len()
    &&& sources[k].id == id
    &&& forall|j: int| 0 <= j < k ==> (#[trigger] sources[j]).id != id
}

proof fn lemma_first(sources: Seq<MediaView>, id: Id, k: int)
    requires
        is_first_of_id(sources, id, k),
    ensures
        first_with_id(sources, id) == Some(sources[k]),
    decreases k,
{
    if k > 0 {
        let rest = sources.skip(1);
        assert(sources[0].id != id);
        assert(rest[k - 1] == sources[k]);
        assert forall|j: int| 0 <= j < k - 1 implies (#[trigger] rest[j]).id != id by {
            assert(rest[j] == sources[j + 1]);
        }
        lemma_first(rest, id, k - 1);
    }
}

proof fn lemma_none(sources: Seq<MediaView>, id: Id)
    requires
        forall|j: int| 0 <= j < sources.len() ==> (#[trigger] sources[j]).id != id,
    ensures
        first_with_id(sources, id) is None,
    decreases sources.len(),
{
    if sources.len() > 0 {
        let rest = sources.skip(1);
        assert(sources[0].id != id);
        assert forall|j: int| 0 <= j < rest.len() implies (#[trigger] rest[j]).id != id by {
            assert(rest[j] == sources[j + 1]);
        }
        lemma_none(rest, id);
    }
}

/// A request that names a stream of the item ends with that stream, the first one of
/// its identifier, whatever the device.
pub proof fn named_streams_are_found(
    request: LookupRequestView,
    id: Id,
    sources: Seq<MediaView>,
    k: int,
)
    requires
        request.requested_id == Some(id),
        id != request.item_id,
        is_first_of_id(sources, id, k),
    ensures
        lookup_step(
            request,
            LookupStateView::ListingSources,
            LookupEventView::Listed(sources),
        ) == (LookupStateView::Finished, LookupActionView::Found(sources[k])),
{
    lemma_first(sources, id, k);
}

/// A request that names a stream that the item does not have fails.
pub proof fn missing_streams_are_not_found(
    request: LookupRequestView,
    id: Id,
    sources: Seq<MediaView>,
)
    requires
        request.requested_id == Some(id),
        id != request.item_id,
        forall|j: int| 0 <= j < sources.len() ==> (#[trigger] sources[j]).id != id,
    ensures
        lookup_step(
            request,
            LookupStateView::ListingSources,
            LookupEventView::Listed(sources),
        ) == (
            LookupStateView::Finished,
            LookupActionView::Fail(LookupError::StreamNotFound(id)),
        ),
{
    lemma_none(sources, id);
}

/// Whether a request names no stream: it names nothing, or the item.
pub open spec fn names_no_stream(request: LookupRequestView) -> bool {
    request.requested_id is None || request.requested_id == Some(request.item_id)
}

/// A request that names no stream and comes from no known device ends with the first
/// stream of the item, and fails where there is none.
pub proof fn unnamed_lookups_find_the_first_stream(
    request: LookupRequestView,
    sources: Seq<MediaView>,
)
    requires
        names_no_stream(request),
        request.device_key is None,
    ensures
        lookup_step(
            request,
            LookupStateView::ListingSources,
            LookupEventView::Listed(sources),
        ) == (
            LookupStateView::Finished,
            if sources.len() > 0 {
                LookupActionView::Found(sources[0])
            } else {
                LookupActionView::Fail(LookupError::NoPlayableSources(request.item_id))
            },
        ),
{
}

/// For a device, what it played last of the item is asked of the store.
pub proof fn devices_are_asked_for(
    request: LookupRequestView,
    device_key: Seq<char>,
    sources: Seq<MediaView>,
)
    requires
        names_no_stream(request),
        request.device_key == Some(device_key),
    ensures
        lookup_step(
            request,
            LookupStateView::ListingSources,
            LookupEventView::Listed(sources),
        ) == (
            LookupStateView::ReadingPreference { sources },
            LookupActionView::ReadPreference {
                key: seq!['p', 's', 't', 'r', 'e', 'a', 'm', ':'] + id_text(request.item_id) + seq![
                    ':',
                ] + device_key,
            },
        ),
{
    keys_are_written_out(request.item_id, device_key, 0, 0);
}

/// The keys of the store, written out.
pub proof fn keys_are_written_out(item: Id, device_key: Seq<char>, user: Id, group: Id)
    ensures
        preference_key_text(item, device_key) == seq!['p', 's', 't', 'r', 'e', 'a', 'm', ':']
            + id_text(item) + seq![':'] + device_key,
        group_item_key_text(user, group) == seq!['g', 'i', 't', 'e', 'm', ':'] + id_text(user)
            + seq![':'] + id_text(group),
{
    reveal_strlit("pstream:");
    reveal_strlit("gitem:");
    reveal_strlit(":");
    assert("pstream:"@ =~= seq!['p', 's', 't', 'r', 'e', 'a', 'm', ':']);
    assert("gitem:"@ =~= seq!['g', 'i', 't', 'e', 'm', ':']);
    assert(":"@ =~= seq![':']);
}

/// What the device played last is found where it is still one of the streams.
pub proof fn preferred_streams_are_found(
    request: LookupRequestView,
    sources: Seq<MediaView>,
    saved: Id,
    k: int,
)
    requires
        is_first_of_id(sources, saved, k),
    ensures
        lookup_step(
            request,
            LookupStateView::ReadingPreference { sources },
            LookupEventView::PreferenceRead(Some(saved)),
        ) == (LookupStateView::Finished, LookupActionView::Found(sources[k])),
{
    lemma_first(sources, saved, k);
}

/// Where the device played none of the streams, the first one is found, and nothing
/// where there is none.
pub proof fn without_preference_the_first_stream_is_found(
    request: LookupRequestView,
    sources: Seq<MediaView>,
    saved: Option<Id>,
)
    requires
        saved matches Some(id) ==> forall|j: int|
            0 <= j < sources.len() ==> (#[trigger] sources[j]).id != id,
    ensures
        lookup_step(
            request,
            LookupStateView::ReadingPreference { sources },
            LookupEventView::PreferenceRead(saved),
        ) == (
            LookupStateView::Finished,
            if sources.len() > 0 {
                LookupActionView::Found(sources[0])
            } else {
                LookupActionView::Fail(LookupError::NoPlayableSources(request.item_id))
            },
        ),
{
    if let Some(id) = saved {
        lemma_none(sources, id);
    }
}

/// A lookup for a group asks for the streams that the group has for the item, and for
/// those behind it, and ends with the first of its own. A group without streams
/// fails, and so does one whose streams cannot be listed.
pub proof fn groups_are_looked_up(
    request: LookupRequestView,
    group: MediaView,
    candidates: Seq<MediaView>,
    cascade: Seq<MediaView>,
)
    requires
        group.kind is StreamGroup,
        candidates.len() > 0,
    ensures
        lookup_step(request, LookupStateView::Fetching, LookupEventView::Fetched(Some(group))) == (
            LookupStateView::ListingGroup { group_id: group.id },
            LookupActionView::ListGroup { group_id: group.id, item_id: request.item_id },
        ),
        lookup_step(
            request,
            LookupStateView::ListingGroup { group_id: group.id },
            LookupEventView::Listed(candidates),
        ) == (
            LookupStateView::ListingCascade { candidates },
            LookupActionView::ListGroupsAfter { group_id: group.id, item_id: request.item_id },
        ),
        lookup_step(
            request,
            LookupStateView::ListingGroup { group_id: group.id },
            LookupEventView::Listed(Seq::empty()),
        ) == (
            LookupStateView::Finished,
            LookupActionView::Fail(LookupError::NoGroupStreams(group.id)),
        ),
        lookup_step(
            request,
            LookupStateView::ListingCascade { candidates },
            LookupEventView::Listed(cascade),
        ) == (LookupStateView::Finished, LookupActionView::Found(candidates[0])),
        lookup_step(
            request,
            LookupStateView::ListingCascade { candidates },
            LookupEventView::ListFailed,
        ) == (LookupStateView::Finished, LookupActionView::Found(candidates[0])),
        lookup_step(
            request,
            LookupStateView::ListingGroup { group_id: group.id },
            LookupEventView::ListFailed,
        ) == (LookupStateView::Finished, LookupActionView::Fail(LookupError::ListFailed)),
        lookup_step(request, LookupStateView::ListingSources, LookupEventView::ListFailed) == (
            LookupStateView::Finished,
            LookupActionView::Fail(LookupError::ListFailed),
        ),
{
}

/// A lookup for a film, an episode or a piece of music, from its start on, ends with
/// one of the streams that were listed, and never with the item itself.
pub proof fn item_lookups_end_with_a_stream(
    request: LookupRequestView,
    media: MediaView,
    sources: Seq<MediaView>,
    saved: Option<Id>,
)
    requires
        media.kind is Movie || media.kind is Episode || media.kind is Track,
        names_no_stream(request),
        sources.len() > 0,
    ensures
        ({
            let (s1, a1) = lookup_step(request, LookupStateView::Begin, LookupEventView::Started);
            let (s2, a2) = lookup_step(request, s1, LookupEventView::Fetched(Some(media)));
            let (s3, a3) = lookup_step(request, s2, LookupEventView::Listed(sources));
            let (s4, a4) = lookup_step(request, s3, LookupEventView::PreferenceRead(saved));
            let end = if request.device_key is Some {
                a4
            } else {
                a3
            };
            &&& a2 == LookupActionView::RefreshAndList { media, user_id: request.user_id }
            &&& end matches LookupActionView::Found(stream)
            &&& sources.contains(stream)
        }),
{
    crate::lookup::lookup_ends_with_a_source(request, sources, saved);
}

// --- Loading ---
/// A group is loaded by letting the add-ons give the streams of the item and listing
/// those of the group; anything else by finding the item whose streams are played.
pub proof fn loading_starts(service: ServiceView, media: MediaView)
    ensures
        load_step(service, LoadStateView::Begin, LoadEventView::Requested(media)) == (if media.kind
            is StreamGroup {
            (
                service,
                LoadStateView::RefreshingParent { group: media },
                LoadActionView::RefreshParent {
                    item_id: service.item_id,
                    user_id: service.user_id,
                },
            )
        } else {
            (
                service,
                LoadStateView::ResolvingRoot,
                LoadActionView::ResolveRoot {
                    media,
                    item_id: service.item_id,
                    user_id: service.user_id,
                },
            )
        }),
        load_step(
            service,
            LoadStateView::RefreshingParent { group: media },
            LoadEventView::ParentRefreshed,
        ) == (
            service,
            LoadStateView::ListingGroup { group: media },
            LoadActionView::ListGroup { group_id: media.id, item_id: service.item_id },
        ),
        load_step(service, LoadStateView::ResolvingRoot, LoadEventView::RootResolved(media)) == (
            service,
            LoadStateView::ListingRoot { root: media },
            LoadActionView::ListStreams { root_id: media.id },
        ),
{
}

/// What the streams of a group come to.
pub proof fn groups_are_loaded(
    service: ServiceView,
    group: MediaView,
    candidates: Seq<MediaView>,
    cascade: Seq<MediaView>,
)
    requires
        candidates.len() > 0,
    ensures
        load_step(
            service,
            LoadStateView::ListingGroup { group },
            LoadEventView::Listed(candidates),
        ) == (
            service,
            LoadStateView::ListingCascade { group, candidates },
            LoadActionView::ListGroupsAfter { group_id: group.id, item_id: service.item_id },
        ),
        load_step(
            service,
            LoadStateView::ListingGroup { group },
            LoadEventView::Listed(Seq::empty()),
        ) == (
            service,
            LoadStateView::Finished,
            LoadActionView::Fail(LoadError::NoGroupStreams(group.id)),
        ),
        load_step(service, LoadStateView::ListingGroup { group }, LoadEventView::ListFailed) == (
            service,
            LoadStateView::Finished,
            LoadActionView::Fail(LoadError::ListFailed),
        ),
        load_step(
            service,
            LoadStateView::ListingCascade { group, candidates },
            LoadEventView::Listed(cascade),
        ) == (
            ServiceView {
                group: Some(
                    GroupView {
                        id: group.id,
                        title: group.title,
                        candidates: candidates + cascade,
                    },
                ),
                stream: Some(candidates[0]),
                ..service
            },
            LoadStateView::Finished,
            LoadActionView::Done,
        ),
        load_step(
            service,
            LoadStateView::ListingCascade { group, candidates },
            LoadEventView::ListFailed,
        ) == (
            ServiceView {
                group: Some(GroupView { id: group.id, title: group.title, candidates }),
                stream: Some(candidates[0]),
                ..service
            },
            LoadStateView::Finished,
            LoadActionView::Done,
        ),
{
}

/// The streams of an item are put into groups: those that were listed, or the item
/// itself where none were and it can be played. An item that cannot be played never
/// stands for a stream.
pub proof fn listed_streams_are_grouped(
    service: ServiceView,
    root: MediaView,
    listed: Seq<MediaView>,
)
    ensures
        ({
            let (after, next, action) = load_step(
                service,
                LoadStateView::ListingRoot { root },
                LoadEventView::Listed(listed),
            );
            &&& after == service
            &&& next == LoadStateView::FilteringSources { root_kind: root.kind }
            &&& action matches LoadActionView::FilterSources { raw, show_ungrouped }
            &&& show_ungrouped == service.show_ungrouped
            &&& listed.len() > 0 ==> raw == listed
            &&& listed.len() == 0 && root.stream_info is Some ==> raw == seq![root]
            &&& listed.len() == 0 && root.stream_info is None ==> raw.len() == 0
        }),
        load_step(service, LoadStateView::ListingRoot { root }, LoadEventView::ListFailed) == (
            service,
            LoadStateView::Finished,
            LoadActionView::Fail(LoadError::ListFailed),
        ),
{
}

/// The filter of the user chooses among the streams of a film or an episode, where it
/// has any rule.
pub proof fn filters_with_rules_are_applied(
    service: ServiceView,
    rules: usize,
    root_kind: MediaKind,
    streams: Seq<MediaView>,
)
    requires
        service.filter_rules == Some(rules),
        rules >= 1,
        root_kind is Movie || root_kind is Episode,
    ensures
        load_step(
            service,
            LoadStateView::FilteringSources { root_kind },
            LoadEventView::Filtered(streams),
        ) == (service, LoadStateView::ApplyingFilter, LoadActionView::ApplyFilter { streams }),
{
}

/// Whether the step that is given the last of the streams is at hand: no filter is
/// left to be applied.
pub open spec fn nothing_is_left_to_filter(service: ServiceView, state: LoadStateView) -> bool {
    ||| state is ApplyingFilter
    ||| state matches LoadStateView::FilteringSources { root_kind } && (service.filter_rules is None
        || service.filter_rules == Some(0usize) || !(root_kind is Movie || root_kind is Episode))
}

/// The streams that are left in the end are those to choose from, the first of them
/// being played. Where none is left, nothing changes.
pub proof fn streams_that_are_left_are_taken(
    service: ServiceView,
    state: LoadStateView,
    streams: Seq<MediaView>,
)
    requires
        nothing_is_left_to_filter(service, state),
    ensures
        ({
            let (after, next, action) = load_step(service, state, LoadEventView::Filtered(streams));
            &&& next is Finished
            &&& action is Done
            &&& streams.len() == 0 ==> after == service
            &&& streams.len() > 0 ==> after == (ServiceView {
                stream: Some(streams[0]),
                streams,
                ..service
            })
        }),
{
}

// --- Selection ---
/// A group offers its stream to play alone, and falls back to all of its streams, of
/// whatever resolution.
pub proof fn group_selection(service: ServiceView, group: GroupView, stream: MediaView)
    requires
        service.group == Some(group),
        service.stream == Some(stream),
    ensures
        select(service).candidates == seq![stream],
        select(service).probe_pool == group.candidates,
        !select(service).restrict_resolution,
        !select(service).probe_only_first,
        select(service).specific_requested,
{
}

/// Without a group, the streams to fall back to are all there are, of the same
/// resolution; a stream counts as named where one of them has the identifier that is
/// asked for and that is not the item's; and the first alone is probed exactly where
/// nothing is asked for.
pub proof fn selection_flags(service: ServiceView)
    requires
        service.group is None,
    ensures
        select(service).probe_pool == service.streams,
        select(service).restrict_resolution,
        select(service).probe_only_first <==> service.requested_id is None,
        select(service).specific_requested <==> service.requested_id is Some
            && service.requested_id != Some(service.item_id) && exists|k: int|
            0 <= k < service.streams.len() && Some((#[trigger] service.streams[k]).id)
                == service.requested_id,
{
    if let Some(id) = service.requested_id {
        if has_id(service.streams, id) {
            let k = choose|k: int|
                0 <= k < service.streams.len() && (#[trigger] service.streams[k]).id == id;
            assert(Some(service.streams[k].id) == service.requested_id);
        }
        if exists|k: int|
            0 <= k < service.streams.len() && Some((#[trigger] service.streams[k]).id)
                == service.requested_id {
            let k = choose|k: int|
                0 <= k < service.streams.len() && Some((#[trigger] service.streams[k]).id)
                    == service.requested_id;
            assert(service.streams[k].id == id);
        }
    }
}

/// A client that asks for nothing is offered every stream; one that asks for the item
/// or for a stream that there is not is offered the first; one that asks for a stream
/// is offered those of its identifier.
pub proof fn selected_candidates(service: ServiceView)
    requires
        service.group is None,
    ensures
        match service.requested_id {
            None => select(service).candidates == service.streams,
            Some(id) => if id == service.item_id || forall|k: int|
                0 <= k < service.streams.len() ==> (#[trigger] service.streams[k]).id != id {
                select(service).candidates == service.streams.take(
                    if service.streams.len() > 0 {
                        1
                    } else {
                        0
                    },
                )
            } else {
                select(service).candidates == with_id(service.streams, id)
            },
        },
{
    if let Some(id) = service.requested_id {
        let first = service.streams.take(
            if service.streams.len() > 0 {
                1
            } else {
                0
            },
        );
        if id == service.item_id || forall|k: int|
            0 <= k < service.streams.len() ==> (#[trigger] service.streams[k]).id != id {
            assert(select(service).candidates =~= first);
        } else {
            let k = choose|k: int|
                0 <= k < service.streams.len() && (#[trigger] service.streams[k]).id == id;
            assert(has_id(service.streams, id));
        }
    }
}

/// The streams of an identifier are kept one by one, in their order.
pub proof fn streams_of_an_identifier(stream: MediaView, rest: Seq<MediaView>, id: Id)
    ensures
        with_id(seq![stream] + rest, id) == (if stream.id == id {
            seq![stream] + with_id(rest, id)
        } else {
            with_id(rest, id)
        }),
        with_id(Seq::empty(), id).len() == 0,
    decreases rest.len(),
{
    reveal(Seq::filter);
    let all = seq![stream] + rest;
    if rest.len() == 0 {
        assert(all.drop_last() =~= Seq::empty());
        assert(with_id(all.drop_last(), id) =~= Seq::empty());
        assert(with_id(rest, id) =~= Seq::empty());
        assert(with_id(all, id) =~= if stream.id == id {
            seq![stream] + with_id(rest, id)
        } else {
            with_id(rest, id)
        });
    } else {
        let front = rest.drop_last();
        streams_of_an_identifier(stream, front, id);
        assert(all.drop_last() =~= seq![stream] + front);
        assert(all.last() == rest.last());
        assert(with_id(all, id) =~= if stream.id == id {
            seq![stream] + with_id(rest, id)
        } else {
            with_id(rest, id)
        });
    }
}

// --- Probing ---
/// The limits follow the settings, and have values of their own where these say
/// nothing.
pub proof fn limits_follow_settings(settings: ProbeSettings)
    ensures
        settings.probe_timeout_secs matches Some(n) ==> n >= 0 ==> limits_of(settings).timeout_secs
            == n,
        settings.probe_timeout_secs is None ==> limits_of(settings).timeout_secs == 20,
        settings.probe_timeout_p2p_secs matches Some(n) ==> n >= 0 ==> limits_of(
            settings,
        ).timeout_p2p_secs == n,
        settings.probe_timeout_p2p_secs is None ==> limits_of(settings).timeout_p2p_secs == 60,
        settings.max_probe_fallback_streams matches Some(n) ==> 0 <= n <= 0x7fff_ffff ==> limits_of(
            settings,
        ).max_retries == n,
        settings.max_probe_fallback_streams is None ==> limits_of(settings).max_retries == 3,
        limits_of(settings).auto_next <==> settings.auto_next_stream_on_probe_fail != Some(false),
        limits_of(settings).remuxdb_enabled <==> settings.remuxdb_enabled != Some(false),
{
}

/// The candidates are probed in their order. One is left out exactly where the first
/// list is not to be waited for and the client selected no stream, or where the first
/// alone is probed and it is another.
pub proof fn candidates_are_probed_in_order(service: ServiceView, run: ProbeRunView)
    requires
        run.results.len() < run.selection.candidates.len() <= usize::MAX,
    ensures
        ({
            let stream = run.selection.candidates[run.results.len() as int];
            &&& plan_of(service, run) matches Some(plan)
            &&& plan.index == run.results.len()
            &&& !plan.skip_probe <==> (!service.skip_initial_probe
                || run.selection.specific_requested) && (!run.selection.probe_only_first
                || run.results.len() == 0)
            &&& stream.stream_info is Some && stream.stream_info->0.is_p2p ==> plan.timeout_secs
                == run.limits.timeout_p2p_secs
            &&& stream.stream_info is None || !stream.stream_info->0.is_p2p ==> plan.timeout_secs
                == run.limits.timeout_secs
            &&& plan.auto_next == run.limits.auto_next
            &&& plan.max_retries == run.limits.max_retries
            &&& plan.restrict_resolution == run.selection.restrict_resolution
        }),
{
}

/// Nothing is probed once every candidate was.
pub proof fn probing_ends(service: ServiceView, run: ProbeRunView)
    ensures
        plan_of(service, run) is None <==> run.results.len() >= run.selection.candidates.len(),
{
}

/// Something is submitted of a candidate exactly where it was not probed before, the
/// settings allow it, the item is a film or an episode, there is a server, and enough
/// is known of the stream that is played; and then it is what is known of that stream.
pub proof fn submissions_have_their_reasons<T>(
    limits: ProbeLimits,
    stream: MediaView,
    outcome: ProbeOutcomeView<T>,
    item: Option<MediaView>,
    server_known: bool,
)
    ensures
        ({
            let cached = stream.probe_data is Some && stream.probe_data->0.has_video;
            let fits = item is Some && (item->0.kind is Movie || item->0.kind is Episode);
            let found = media_info(
                outcome.source,
                outcome.effective_stream,
                item,
                outcome.client_id,
                outcome.tracks,
            );
            let result = submission_of(limits, stream, outcome, item, server_known);
            &&& result is CacheHit <==> cached
            &&& result is Disabled <==> !cached && !limits.remuxdb_enabled
            &&& result is NotMovieOrEpisode <==> !cached && limits.remuxdb_enabled && !fits
            &&& result is NoServer <==> !cached && limits.remuxdb_enabled && fits && !server_known
            &&& result is NothingToSubmit <==> !cached && limits.remuxdb_enabled && fits
                && server_known && found is None
            &&& result is Submit <==> !cached && limits.remuxdb_enabled && fits && server_known
                && found is Some
            &&& result matches SubmissionView::Submit(info) ==> found == Some(info)
        }),
{
}

// --- The store ---
/// What is kept of a stream that a device plays: nothing without a group; with one the
/// stream for a day, and the item for a week where the user is known.
pub proof fn preferences_are_kept(service: ServiceView, device_key: Seq<char>)
    requires
        service.wf(),
    ensures
        ({
            let writes = preference_writes(service, device_key);
            &&& service.group is None ==> writes.len() == 0
            &&& service.group matches Some(group) ==> {
                &&& writes.len() == (if service.user_id is Some {
                    2int
                } else {
                    1int
                })
                &&& writes[0].key == preference_key_text(service.item_id, device_key)
                &&& writes[0].id == service.stream->0.id
                &&& writes[0].ttl_secs == 24 * 3600
                &&& service.user_id matches Some(user) ==> {
                    &&& writes[1].key == group_item_key_text(user, group.id)
                    &&& writes[1].id == service.item_id
                    &&& writes[1].ttl_secs == 7 * 24 * 3600
                }
            }
        }),
{
}

/// What is kept of the item that a user saw a group with: the item, for a week.
pub proof fn group_items_are_kept(user: Id, group: Id, item: Id)
    ensures
        group_item_write(user, group, item).key == group_item_key_text(user, group),
        group_item_write(user, group, item).id == item,
        group_item_write(user, group, item).ttl_secs == 7 * 24 * 3600,
{
}

// --- Services ---
/// A new service keeps the request as it is, and has nothing loaded.
pub proof fn new_services_keep_the_request(cfg: StreamServiceConfig)
    ensures
        new_service(cfg).item_id == cfg.item_id,
        new_service(cfg).requested_id == cfg.requested_id,
        new_service(cfg).show_ungrouped == cfg.show_ungrouped,
        cfg.stream_filter is None ==> new_service(cfg).filter_rules is None,
        cfg.stream_filter is Some ==> new_service(cfg).filter_rules == Some(
            cfg.stream_filter->0.rules,
        ),
        new_service(cfg).user_id == cfg.user_id,
        new_service(cfg).skip_initial_probe == cfg.skip_initial_probe,
        new_service(cfg).display_score_in_filename == cfg.display_score_in_filename,
        new_service(cfg).group is None,
        new_service(cfg).stream is None,
        new_service(cfg).streams.len() == 0,
        plays_first(new_service(cfg)),
{
}

/// A group that was asked for gives its identifier and its title to every source;
/// without one each source has those of the stream that is played.
pub proof fn groups_name_their_sources(service: ServiceView, stream: MediaView)
    ensures
        service.group matches Some(group) ==> {
            &&& client_id_of(service) == group.id
            &&& source_id(service, stream) == group.id
            &&& source_name(service, stream) == group.title
        },
        service.group is None ==> {
            &&& service.stream matches Some(played) ==> client_id_of(service) == played.id
            &&& source_id(service, stream) == stream.id
            &&& source_name(service, stream) == stream.title
        },
{
}

// --- Answers that were not waited for ---
/// Whether an event answers what loading waits for.
pub open spec fn answers_load(state: LoadStateView, event: LoadEventView) -> bool {
    ||| state is Begin && event is Requested
    ||| state is RefreshingParent && event is ParentRefreshed
    ||| (state is ListingGroup || state is ListingCascade || state is ListingRoot) && (event
        is Listed || event is ListFailed)
    ||| state is ResolvingRoot && event is RootResolved
    ||| (state is FilteringSources || state is ApplyingFilter) && event is Filtered
}

/// Whether an event answers what a lookup waits for.
pub open spec fn answers_lookup(state: LookupStateView, event: LookupEventView) -> bool {
    ||| state is Begin && event is Started
    ||| state is Fetching && (event is Fetched || event is FetchFailed)
    ||| (state is ListingGroup || state is ListingCascade || state is ListingSources) && (event
        is Listed || event is ListFailed)
    ||| state is ReadingPreference && event is PreferenceRead
}

/// An answer that was waited for is always taken, and any other changes nothing.
pub proof fn only_answers_are_taken(
    service: ServiceView,
    load_state: LoadStateView,
    load_event: LoadEventView,
    request: LookupRequestView,
    lookup_state: LookupStateView,
    lookup_event: LookupEventView,
)
    ensures
        answers_load(load_state, load_event) <==> !(load_step(
            service,
            load_state,
            load_event,
        ).2 is Wait),
        !answers_load(load_state, load_event) ==> load_step(service, load_state, load_event) == (
            service,
            load_state,
            LoadActionView::Wait,
        ),
        answers_lookup(lookup_state, lookup_event) <==> !(lookup_step(
            request,
            lookup_state,
            lookup_event,
        ).1 is Wait),
        !answers_lookup(lookup_state, lookup_event) ==> lookup_step(
            request,
            lookup_state,
            lookup_event,
        ) == (lookup_state, LookupActionView::Wait),
{
}

/// A setting below zero counts from the top of the range, as a cast has it.
pub proof fn negative_settings_wrap(settings: ProbeSettings)
    ensures
        settings.probe_timeout_secs matches Some(n) ==> n < 0 ==> limits_of(settings).timeout_secs
            == n + 0x1_0000_0000_0000_0000,
        settings.probe_timeout_p2p_secs matches Some(n) ==> n < 0 ==> limits_of(
            settings,
        ).timeout_p2p_secs == n + 0x1_0000_0000_0000_0000,
{
    if let Some(n) = settings.probe_timeout_secs {
        assert(n < 0 ==> (n as u64) as int == n + 0x1_0000_0000_0000_0000int) by (bit_vector);
    }
    if let Some(n) = settings.probe_timeout_p2p_secs {
        assert(n < 0 ==> (n as u64) as int == n + 0x1_0000_0000_0000_0000int) by (bit_vector);
    }
}

} // verus!
