//! How the streams for a playback request are loaded.
//!
//! Loading goes in steps. Each step takes what came of the last request to the
//! database or to the add-ons, and says what to request next.
use vstd::prelude::*;
use crate::ids::{id_text, text_of_id, Id};
use crate::model::{views, Media, MediaKind, MediaView};
use crate::selection::{GroupView, ServiceView};

verus! {

/// What loading waits for.
#[derive(Debug, PartialEq, Eq)]
pub enum LoadState {
    /// The item that is asked for.
    Begin,
    /// That the add-ons gave the item's streams, for a request for a group.
    RefreshingParent { group: Media },
    /// The streams of the group.
    ListingGroup { group: Media },
    /// The streams of the groups behind the group.
    ListingCascade { group: Media, candidates: Vec<Media> },
    /// The item whose streams are played, with streams that the add-ons gave.
    ResolvingRoot,
    /// The streams of that item.
    ListingRoot { root: Media },
    /// The streams that are left of them once they were put into groups.
    FilteringSources { root_kind: MediaKind },
    /// The streams that the user's filter leaves.
    ApplyingFilter,
    /// Nothing: loading is over.
    Finished,
}

/// What came of a request.
#[derive(Debug, PartialEq, Eq)]
pub enum LoadEvent {
    Requested(Media),
    ParentRefreshed,
    RootResolved(Media),
    Listed(Vec<Media>),
    ListFailed,
    Filtered(Vec<Media>),
}

/// What to request next.
#[derive(Debug, PartialEq, Eq)]
pub enum LoadAction {
    /// Let the add-ons give the user the streams of the item, if there is one. That
    /// this fails is no matter.
    RefreshParent { item_id: Id, user_id: Option<Id> },
    /// List the streams that the group has for the item.
    ListGroup { group_id: Id, item_id: Id },
    /// List the streams that the groups behind the group have for the item.
    ListGroupsAfter { group_id: Id, item_id: Id },
    /// Find the item whose streams are played, and let the add-ons give the user its
    /// streams. That this fails is no matter.
    ResolveRoot { media: Media, item_id: Id, user_id: Option<Id> },
    /// List the streams of an item.
    ListStreams { root_id: Id },
    /// Put streams into groups.
    FilterSources { raw: Vec<Media>, show_ungrouped: bool },
    /// Let the user's filter choose among streams.
    ApplyFilter { streams: Vec<Media> },
    /// Loading is over.
    Done,
    /// Loading is over without success.
    Fail(LoadError),
    /// The request that was made last is still to be answered.
    Wait,
}

/// Why streams could not be loaded.
#[derive(Debug, Clone, Copy, PartialEq, Eq, Structural)]
pub enum LoadError {
    /// The streams could not be listed.
    ListFailed,
    /// The group has no streams for the item.
    NoGroupStreams(Id),
}

impl LoadError {
    /// What the user is told.
    pub open spec fn message_text(self) -> Seq<char> {
        match self {
            LoadError::ListFailed => "the streams could not be listed"@,
            LoadError::NoGroupStreams(id) => "no streams available for group "@ + id_text(id),
        }
    }

    /// What the user is told.
    pub fn message(&self) -> (r: String)
        ensures
            r@ == self.message_text(),
    {
        match self {
            LoadError::ListFailed => "the streams could not be listed".to_owned(),
            LoadError::NoGroupStreams(id) => {
                let mut text: String = "no streams available for group ".to_owned();
                text.append(text_of_id(*id).as_str());
                text
            },
        }
    }
}

/// The view of what loading waits for.
pub enum LoadStateView {
    Begin,
    RefreshingParent { group: MediaView },
    ListingGroup { group: MediaView },
    ListingCascade { group: MediaView, candidates: Seq<MediaView> },
    ResolvingRoot,
    ListingRoot { root: MediaView },
    FilteringSources { root_kind: MediaKind },
    ApplyingFilter,
    Finished,
}

impl View for LoadState {
    type V = LoadStateView;

    open spec fn view(&self) -> LoadStateView {
        match self {
            LoadState::Begin => LoadStateView::Begin,
            LoadState::RefreshingParent { group } => LoadStateView::RefreshingParent {
                group: group@,
            },
            LoadState::ListingGroup { group } => LoadStateView::ListingGroup { group: group@ },
            LoadState::ListingCascade { group, candidates } => LoadStateView::ListingCascade {
                group: group@,
                candidates: views(candidates@),
            },
            LoadState::ResolvingRoot => LoadStateView::ResolvingRoot,
            LoadState::ListingRoot { root } => LoadStateView::ListingRoot { root: root@ },
            LoadState::FilteringSources { root_kind } => LoadStateView::FilteringSources {
                root_kind: *root_kind,
            },
            LoadState::ApplyingFilter => LoadStateView::ApplyingFilter,
            LoadState::Finished => LoadStateView::Finished,
        }
    }
}

/// The view of what came of a request.
pub enum LoadEventView {
    Requested(MediaView),
    ParentRefreshed,
    RootResolved(MediaView),
    Listed(Seq<MediaView>),
    ListFailed,
    Filtered(Seq<MediaView>),
}

impl View for LoadEvent {
    type V = LoadEventView;

    open spec fn view(&self) -> LoadEventView {
        match self {
            LoadEvent::Requested(media) => LoadEventView::Requested(media@),
            LoadEvent::ParentRefreshed => LoadEventView::ParentRefreshed,
            LoadEvent::RootResolved(root) => LoadEventView::RootResolved(root@),
            LoadEvent::Listed(streams) => LoadEventView::Listed(views(streams@)),
            LoadEvent::ListFailed => LoadEventView::ListFailed,
            LoadEvent::Filtered(streams) => LoadEventView::Filtered(views(streams@)),
        }
    }
}

/// The view of what to request next.
pub enum LoadActionView {
    RefreshParent { item_id: Id, user_id: Option<Id> },
    ListGroup { group_id: Id, item_id: Id },
    ListGroupsAfter { group_id: Id, item_id: Id },
    ResolveRoot { media: MediaView, item_id: Id, user_id: Option<Id> },
    ListStreams { root_id: Id },
    FilterSources { raw: Seq<MediaView>, show_ungrouped: bool },
    ApplyFilter { streams: Seq<MediaView> },
    Done,
    Fail(LoadError),
    Wait,
}

impl View for LoadAction {
    type V = LoadActionView;

    open spec fn view(&self) -> LoadActionView {
        match self {
            LoadAction::RefreshParent { item_id, user_id } => LoadActionView::RefreshParent {
                item_id: *item_id,
                user_id: *user_id,
            },
            LoadAction::ListGroup { group_id, item_id } => LoadActionView::ListGroup {
                group_id: *group_id,
                item_id: *item_id,
            },
            LoadAction::ListGroupsAfter { group_id, item_id } => LoadActionView::ListGroupsAfter {
                group_id: *group_id,
                item_id: *item_id,
            },
            LoadAction::ResolveRoot { media, item_id, user_id } => LoadActionView::ResolveRoot {
                media: media@,
                item_id: *item_id,
                user_id: *user_id,
            },
            LoadAction::ListStreams { root_id } => LoadActionView::ListStreams {
                root_id: *root_id,
            },
            LoadAction::FilterSources { raw, show_ungrouped } => LoadActionView::FilterSources {
                raw: views(raw@),
                show_ungrouped: *show_ungrouped,
            },
            LoadAction::ApplyFilter { streams } => LoadActionView::ApplyFilter {
                streams: views(streams@),
            },
            LoadAction::Done => LoadActionView::Done,
            LoadAction::Fail(error) => LoadActionView::Fail(*error),
            LoadAction::Wait => LoadActionView::Wait,
        }
    }
}

/// The streams of an item: those that were listed, or the item itself where it
/// has none and can be played, as a file that was imported can.
pub open spec fn root_sources(root: MediaView, listed: Seq<MediaView>) -> Seq<MediaView> {
    if listed.len() > 0 {
        listed
    } else if root.stream_info is Some {
        seq![root]
    } else {
        seq![]
    }
}

/// Whether the user's filter is applied: it is to films and episodes, where it
/// has any rules.
pub open spec fn filter_applies(service: ServiceView, root_kind: MediaKind) -> bool {
    &&& service.filter_rules matches Some(rules)
    &&& rules > 0
    &&& root_kind == MediaKind::Movie || root_kind == MediaKind::Episode
}

/// The service with the group that was asked for: it plays the first stream of
/// the group, and falls back to the others and to those of the groups behind it.
pub open spec fn with_group(
    service: ServiceView,
    group: MediaView,
    candidates: Seq<MediaView>,
) -> ServiceView {
    ServiceView {
        group: Some(GroupView { id: group.id, title: group.title, candidates }),
        stream: Some(candidates[0]),
        ..service
    }
}

/// The service with streams to choose from. Without any, it stays as it is.
pub open spec fn with_streams(service: ServiceView, streams: Seq<MediaView>) -> ServiceView {
    if streams.len() == 0 {
        service
    } else {
        ServiceView { stream: Some(streams[0]), streams, ..service }
    }
}

/// A step of loading: the service after it, what is waited for then, and what to
/// request. An event that does not answer the last request changes nothing.
pub open spec fn load_step(
    service: ServiceView,
    state: LoadStateView,
    event: LoadEventView,
) -> (ServiceView, LoadStateView, LoadActionView) {
    let item_id = service.item_id;
    match (state, event) {
        (LoadStateView::Begin, LoadEventView::Requested(media)) => if media.kind
            == MediaKind::StreamGroup {
            (
                service,
                LoadStateView::RefreshingParent { group: media },
                LoadActionView::RefreshParent { item_id, user_id: service.user_id },
            )
        } else {
            (
                service,
                LoadStateView::ResolvingRoot,
                LoadActionView::ResolveRoot { media, item_id, user_id: service.user_id },
            )
        },
        (LoadStateView::RefreshingParent { group }, LoadEventView::ParentRefreshed) => (
            service,
            LoadStateView::ListingGroup { group },
            LoadActionView::ListGroup { group_id: group.id, item_id },
        ),
        (LoadStateView::ListingGroup { group }, LoadEventView::Listed(candidates)) =>
            if candidates.len() == 0 {
            (
                service,
                LoadStateView::Finished,
                LoadActionView::Fail(LoadError::NoGroupStreams(group.id)),
            )
        } else {
            (
                service,
                LoadStateView::ListingCascade { group, candidates },
                LoadActionView::ListGroupsAfter { group_id: group.id, item_id },
            )
        },
        (LoadStateView::ListingGroup { group }, LoadEventView::ListFailed) => (
            service,
            LoadStateView::Finished,
            LoadActionView::Fail(LoadError::ListFailed),
        ),
        (
            LoadStateView::ListingCascade { group, candidates },
            LoadEventView::Listed(cascade),
        ) => (
            with_group(service, group, candidates + cascade),
            LoadStateView::Finished,
            LoadActionView::Done,
        ),
        (LoadStateView::ListingCascade { group, candidates }, LoadEventView::ListFailed) => (
            with_group(service, group, candidates),
            LoadStateView::Finished,
            LoadActionView::Done,
        ),
        (LoadStateView::ResolvingRoot, LoadEventView::RootResolved(root)) => (
            service,
            LoadStateView::ListingRoot { root },
            LoadActionView::ListStreams { root_id: root.id },
        ),
        (LoadStateView::ListingRoot { root }, LoadEventView::Listed(listed)) => (
            service,
            LoadStateView::FilteringSources { root_kind: root.kind },
            LoadActionView::FilterSources {
                raw: root_sources(root, listed),
                show_ungrouped: service.show_ungrouped,
            },
        ),
        (LoadStateView::ListingRoot { root }, LoadEventView::ListFailed) => (
            service,
            LoadStateView::Finished,
            LoadActionView::Fail(LoadError::ListFailed),
        ),
        (
            LoadStateView::FilteringSources { root_kind },
            LoadEventView::Filtered(streams),
        ) => if filter_applies(service, root_kind) {
            (service, LoadStateView::ApplyingFilter, LoadActionView::ApplyFilter { streams })
        } else {
            (with_streams(service, streams), LoadStateView::Finished, LoadActionView::Done)
        },
        (LoadStateView::ApplyingFilter, LoadEventView::Filtered(streams)) => (
            with_streams(service, streams),
            LoadStateView::Finished,
            LoadActionView::Done,
        ),
        _ => (service, state, LoadActionView::Wait),
    }
}

/// A list of candidates that loading keeps is not empty.
pub open spec fn load_wf(state: LoadStateView) -> bool {
    state matches LoadStateView::ListingCascade { candidates, .. } ==> candidates.len() > 0
}

/// No step of loading changes what was requested, and every step keeps a group
/// together with a stream to play.
pub proof fn loading_keeps_the_request(
    service: ServiceView,
    state: LoadStateView,
    event: LoadEventView,
)
    requires
        service.wf(),
        load_wf(state),
    ensures
        ({
            let (after, next, _) = load_step(service, state, event);
            &&& after.wf()
            &&& load_wf(next)
            &&& after.item_id == service.item_id
            &&& after.requested_id == service.requested_id
            &&& after.show_ungrouped == service.show_ungrouped
            &&& after.filter_rules == service.filter_rules
            &&& after.user_id == service.user_id
            &&& after.skip_initial_probe == service.skip_initial_probe
            &&& after.display_score_in_filename == service.display_score_in_filename
        }),
{
}

/// Loading that fails leaves the service as it was, and loading that is over
/// stays over.
pub proof fn failed_loading_changes_nothing(
    service: ServiceView,
    state: LoadStateView,
    event: LoadEventView,
)
    ensures
        load_step(service, state, event).2 is Fail ==> load_step(service, state, event).0
            == service,
        state is Finished ==> load_step(service, state, event) == (
            service,
            LoadStateView::Finished,
            LoadActionView::Wait,
        ),
{
}

/// The stream to play is the first of the group, or the first of the streams to
/// choose from where no group was asked for.
pub open spec fn plays_first(service: ServiceView) -> bool {
    &&& service.leads_group()
    &&& service.group is None ==> if service.streams.len() > 0 {
        service.stream == Some(service.streams[0])
    } else {
        service.stream is None
    }
}

/// The stream to play is the first one from a new service on, whatever answers
/// loading it gets.
pub proof fn first_stream_is_played(
    service: ServiceView,
    state: LoadStateView,
    event: LoadEventView,
)
    requires
        service.group is None,
        plays_first(service),
        load_wf(state),
    ensures
        plays_first(load_step(service, state, event).0),
        !(state is ListingCascade) ==> load_step(service, state, event).0.group is None,
        load_step(service, state, event).0.group is Some ==> load_step(
            service,
            state,
            event,
        ).1 is Finished,
{
}

/// How many answers loading still waits for at most.
pub open spec fn load_rank(state: LoadStateView) -> nat {
    match state {
        LoadStateView::Begin => 5,
        LoadStateView::RefreshingParent { .. } => 3,
        LoadStateView::ListingGroup { .. } => 2,
        LoadStateView::ListingCascade { .. } => 1,
        LoadStateView::ResolvingRoot => 4,
        LoadStateView::ListingRoot { .. } => 3,
        LoadStateView::FilteringSources { .. } => 2,
        LoadStateView::ApplyingFilter => 1,
        LoadStateView::Finished => 0,
    }
}

/// Loading comes to an end: each answer that it waited for brings it nearer, and
/// it is over exactly where it is done or has failed.
pub proof fn loading_ends(service: ServiceView, state: LoadStateView, event: LoadEventView)
    ensures
        ({
            let (after, next, action) = load_step(service, state, event);
            if action is Wait {
                after == service && next == state
            } else {
                &&& load_rank(next) < load_rank(state)
                &&& next is Finished <==> action is Done || action is Fail
            }
        }),
{
}

/// A request for a group that has streams plays the first of them, and falls back
/// to the others first and to those of the groups behind it then.
pub proof fn group_is_loaded(
    service: ServiceView,
    group: MediaView,
    candidates: Seq<MediaView>,
    cascade: Seq<MediaView>,
)
    requires
        group.kind == MediaKind::StreamGroup,
        candidates.len() > 0,
    ensures
        ({
            let (s1, t1, a1) = load_step(
                service,
                LoadStateView::Begin,
                LoadEventView::Requested(group),
            );
            let (s2, t2, a2) = load_step(s1, t1, LoadEventView::ParentRefreshed);
            let (s3, t3, a3) = load_step(s2, t2, LoadEventView::Listed(candidates));
            let (s4, t4, a4) = load_step(s3, t3, LoadEventView::Listed(cascade));
            &&& a1 == LoadActionView::RefreshParent {
                item_id: service.item_id,
                user_id: service.user_id,
            }
            &&& a2 == LoadActionView::ListGroup { group_id: group.id, item_id: service.item_id }
            &&& a3 == LoadActionView::ListGroupsAfter {
                group_id: group.id,
                item_id: service.item_id,
            }
            &&& a4 == LoadActionView::Done
            &&& t4 is Finished
            &&& s4 == with_group(service, group, candidates + cascade)
            &&& s4.stream == Some(candidates[0])
            &&& s4.leads_group()
        }),
{
}

/// A request for an item that is no group plays the first of its streams that are
/// left, and offers all of these.
pub proof fn item_is_loaded(
    service: ServiceView,
    media: MediaView,
    root: MediaView,
    listed: Seq<MediaView>,
    grouped: Seq<MediaView>,
    filtered: Seq<MediaView>,
)
    requires
        media.kind != MediaKind::StreamGroup,
    ensures
        ({
            let (s1, t1, a1) = load_step(
                service,
                LoadStateView::Begin,
                LoadEventView::Requested(media),
            );
            let (s2, t2, a2) = load_step(s1, t1, LoadEventView::RootResolved(root));
            let (s3, t3, a3) = load_step(s2, t2, LoadEventView::Listed(listed));
            let (s4, t4, a4) = load_step(s3, t3, LoadEventView::Filtered(grouped));
            let (s5, t5, a5) = load_step(s4, t4, LoadEventView::Filtered(filtered));
            &&& a1 == LoadActionView::ResolveRoot {
                media,
                item_id: service.item_id,
                user_id: service.user_id,
            }
            &&& a2 == LoadActionView::ListStreams { root_id: root.id }
            &&& a3 == LoadActionView::FilterSources {
                raw: root_sources(root, listed),
                show_ungrouped: service.show_ungrouped,
            }
            &&& if filter_applies(service, root.kind) {
                &&& a4 == LoadActionView::ApplyFilter { streams: grouped }
                &&& a5 == LoadActionView::Done
                &&& s5 == with_streams(service, filtered)
            } else {
                &&& a4 == LoadActionView::Done
                &&& s4 == with_streams(service, grouped)
            }
        }),
{
}

} // verus!
