//! How a single stream is found for a request.
//!
//! Like loading, a lookup goes in steps: each takes what came of the last request
//! to the database, the add-ons or the store, and says what to request next.
use vstd::prelude::*;
use crate::ids::{id_text, text_of_id, Id};
use crate::loading::{load_step, LoadEventView, LoadStateView};
use crate::model::{opt_view, views, Media, MediaKind, MediaView};
use crate::selection::{find_id, has_id, ServiceView};
use crate::store_keys::{
    key_kinds_differ, preference_key, preference_key_text, written, StoreWriteView,
};
use crate::stream_service::{preference_writes, StreamService};

verus! {

/// A request for a stream of an item.
#[derive(Debug, PartialEq, Eq)]
pub struct LookupRequest {
    pub item_id: Id,
    /// The stream or group that is asked for, if one is.
    pub requested_id: Option<Id>,
    /// The device that plays the stream, for the stream that it played last.
    pub device_key: Option<String>,
    pub user_id: Option<Id>,
}

/// The view of a request.
pub struct LookupRequestView {
    pub item_id: Id,
    pub requested_id: Option<Id>,
    pub device_key: Option<Seq<char>>,
    pub user_id: Option<Id>,
}

impl View for LookupRequest {
    type V = LookupRequestView;

    open spec fn view(&self) -> LookupRequestView {
        LookupRequestView {
            item_id: self.item_id,
            requested_id: self.requested_id,
            device_key: opt_view(self.device_key),
            user_id: self.user_id,
        }
    }
}

/// What a lookup waits for.
#[derive(Debug, PartialEq, Eq)]
pub enum LookupState {
    /// That it is started.
    Begin,
    /// What is asked for.
    Fetching,
    /// The streams of a group.
    ListingGroup { group_id: Id },
    /// The streams of the groups behind a group.
    ListingCascade { candidates: Vec<Media> },
    /// The streams of an item.
    ListingSources,
    /// The stream that the device played last.
    ReadingPreference { sources: Vec<Media> },
    /// Nothing: the lookup is over.
    Finished,
}

/// What came of a request.
#[derive(Debug, PartialEq, Eq)]
pub enum LookupEvent {
    Started,
    Fetched(Option<Media>),
    FetchFailed,
    Listed(Vec<Media>),
    ListFailed,
    PreferenceRead(Option<Id>),
}

/// What to request next.
#[derive(Debug, PartialEq, Eq)]
pub enum LookupAction {
    /// Fetch what has the identifier.
    Fetch { id: Id },
    /// List the streams that the group has for the item.
    ListGroup { group_id: Id, item_id: Id },
    /// List the streams that the groups behind the group have for the item.
    ListGroupsAfter { group_id: Id, item_id: Id },
    /// Let the add-ons give the user the streams of an item, and list them. That the
    /// add-ons fail is no matter.
    RefreshAndList { media: Media, user_id: Option<Id> },
    /// Read an entry of the store.
    ReadPreference { key: String },
    /// The lookup is over: this is the stream.
    Found(Media),
    /// The lookup is over without success.
    Fail(LookupError),
    /// The request that was made last is still to be answered.
    Wait,
}

/// Why no stream was found.
#[derive(Debug, Clone, Copy, PartialEq, Eq, Structural)]
pub enum LookupError {
    /// What is asked for could not be fetched.
    FetchFailed,
    /// The streams could not be listed.
    ListFailed,
    /// There is no such stream.
    StreamNotFound(Id),
    /// The group has no streams for the item.
    NoGroupStreams(Id),
    /// The item has no streams.
    NoPlayableSources(Id),
}

impl LookupError {
    /// What the user is told.
    pub open spec fn message_text(self) -> Seq<char> {
        match self {
            LookupError::FetchFailed => "the stream could not be fetched"@,
            LookupError::ListFailed => "the streams could not be listed"@,
            LookupError::StreamNotFound(id) => "stream not found: "@ + id_text(id),
            LookupError::NoGroupStreams(id) => "no streams available for group "@ + id_text(id),
            LookupError::NoPlayableSources(id) => "no playable sources for "@ + id_text(id),
        }
    }

    /// What the user is told.
    pub fn message(&self) -> (r: String)
        ensures
            r@ == self.message_text(),
    {
        let (start, id): (&str, Id) = match self {
            LookupError::FetchFailed => return "the stream could not be fetched".to_owned(),
            LookupError::ListFailed => return "the streams could not be listed".to_owned(),
            LookupError::StreamNotFound(id) => ("stream not found: ", *id),
            LookupError::NoGroupStreams(id) => ("no streams available for group ", *id),
            LookupError::NoPlayableSources(id) => ("no playable sources for ", *id),
        };
        let mut text: String = start.to_owned();
        text.append(text_of_id(id).as_str());
        text
    }
}

/// The view of what a lookup waits for.
pub enum LookupStateView {
    Begin,
    Fetching,
    ListingGroup { group_id: Id },
    ListingCascade { candidates: Seq<MediaView> },
    ListingSources,
    ReadingPreference { sources: Seq<MediaView> },
    Finished,
}

impl View for LookupState {
    type V = LookupStateView;

    open spec fn view(&self) -> LookupStateView {
        match self {
            LookupState::Begin => LookupStateView::Begin,
            LookupState::Fetching => LookupStateView::Fetching,
            LookupState::ListingGroup { group_id } => LookupStateView::ListingGroup {
                group_id: *group_id,
            },
            LookupState::ListingCascade { candidates } => LookupStateView::ListingCascade {
                candidates: views(candidates@),
            },
            LookupState::ListingSources => LookupStateView::ListingSources,
            LookupState::ReadingPreference { sources } => LookupStateView::ReadingPreference {
                sources: views(sources@),
            },
            LookupState::Finished => LookupStateView::Finished,
        }
    }
}

/// The view of what came of a request.
pub enum LookupEventView {
    Started,
    Fetched(Option<MediaView>),
    FetchFailed,
    Listed(Seq<MediaView>),
    ListFailed,
    PreferenceRead(Option<Id>),
}

impl View for LookupEvent {
    type V = LookupEventView;

    open spec fn view(&self) -> LookupEventView {
        match self {
            LookupEvent::Started => LookupEventView::Started,
            LookupEvent::Fetched(media) => LookupEventView::Fetched(opt_view(*media)),
            LookupEvent::FetchFailed => LookupEventView::FetchFailed,
            LookupEvent::Listed(streams) => LookupEventView::Listed(views(streams@)),
            LookupEvent::ListFailed => LookupEventView::ListFailed,
            LookupEvent::PreferenceRead(id) => LookupEventView::PreferenceRead(*id),
        }
    }
}

/// The view of what to request next.
pub enum LookupActionView {
    Fetch { id: Id },
    ListGroup { group_id: Id, item_id: Id },
    ListGroupsAfter { group_id: Id, item_id: Id },
    RefreshAndList { media: MediaView, user_id: Option<Id> },
    ReadPreference { key: Seq<char> },
    Found(MediaView),
    Fail(LookupError),
    Wait,
}

impl View for LookupAction {
    type V = LookupActionView;

    open spec fn view(&self) -> LookupActionView {
        match self {
            LookupAction::Fetch { id } => LookupActionView::Fetch { id: *id },
            LookupAction::ListGroup { group_id, item_id } => LookupActionView::ListGroup {
                group_id: *group_id,
                item_id: *item_id,
            },
            LookupAction::ListGroupsAfter { group_id, item_id } =>
                LookupActionView::ListGroupsAfter { group_id: *group_id, item_id: *item_id },
            LookupAction::RefreshAndList { media, user_id } => LookupActionView::RefreshAndList {
                media: media@,
                user_id: *user_id,
            },
            LookupAction::ReadPreference { key } => LookupActionView::ReadPreference { key: key@ },
            LookupAction::Found(stream) => LookupActionView::Found(stream@),
            LookupAction::Fail(error) => LookupActionView::Fail(*error),
            LookupAction::Wait => LookupActionView::Wait,
        }
    }
}

/// The first of the streams that has the identifier.
pub open spec fn first_with_id(streams: Seq<MediaView>, id: Id) -> Option<MediaView>
    decreases streams.len(),
{
    if streams.len() == 0 {
        None
    } else if streams[0].id == id {
        Some(streams[0])
    } else {
        first_with_id(streams.skip(1), id)
    }
}

/// What a lookup that is left with the streams of an item ends with: the first of
/// them.
pub open spec fn first_source(item_id: Id, sources: Seq<MediaView>) -> LookupActionView {
    if sources.len() > 0 {
        LookupActionView::Found(sources[0])
    } else {
        LookupActionView::Fail(LookupError::NoPlayableSources(item_id))
    }
}

/// What a lookup ends with that names a stream: that stream.
pub open spec fn named_source(id: Id, sources: Seq<MediaView>) -> LookupActionView {
    match first_with_id(sources, id) {
        Some(source) => LookupActionView::Found(source),
        None => LookupActionView::Fail(LookupError::StreamNotFound(id)),
    }
}

/// What a lookup for a device ends with: the stream that the device played last,
/// where that is still one of the streams of the item, or the first of these.
pub open spec fn preferred_source(
    item_id: Id,
    sources: Seq<MediaView>,
    saved: Option<Id>,
) -> LookupActionView {
    match saved {
        Some(id) => match first_with_id(sources, id) {
            Some(source) => LookupActionView::Found(source),
            None => first_source(item_id, sources),
        },
        None => first_source(item_id, sources),
    }
}

/// The stream that a request names, rather than the item.
pub open spec fn named_id(request: LookupRequestView) -> Option<Id> {
    match request.requested_id {
        Some(id) => if id != request.item_id {
            Some(id)
        } else {
            None
        },
        None => None,
    }
}

/// The step of a lookup that was given what is asked for. A group is searched for
/// its streams, and so is what has streams of its own; anything else is taken to
/// be a stream.
pub open spec fn dispatch(request: LookupRequestView, media: MediaView) -> (
    LookupStateView,
    LookupActionView,
) {
    match media.kind {
        MediaKind::StreamGroup => (
            LookupStateView::ListingGroup { group_id: media.id },
            LookupActionView::ListGroup { group_id: media.id, item_id: request.item_id },
        ),
        MediaKind::Movie | MediaKind::Episode | MediaKind::Track => (
            LookupStateView::ListingSources,
            LookupActionView::RefreshAndList { media, user_id: request.user_id },
        ),
        _ => (LookupStateView::Finished, LookupActionView::Found(media)),
    }
}

/// The step of a lookup that was given the streams of an item.
pub open spec fn choose_source(request: LookupRequestView, sources: Seq<MediaView>) -> (
    LookupStateView,
    LookupActionView,
) {
    match (named_id(request), request.device_key) {
        (Some(id), _) => (LookupStateView::Finished, named_source(id, sources)),
        (None, Some(key)) => (
            LookupStateView::ReadingPreference { sources },
            LookupActionView::ReadPreference { key: preference_key_text(request.item_id, key) },
        ),
        (None, None) => (LookupStateView::Finished, first_source(request.item_id, sources)),
    }
}

/// A step of a lookup: what is waited for after it, and what to request. An event
/// that does not answer the last request changes nothing.
pub open spec fn lookup_step(
    request: LookupRequestView,
    state: LookupStateView,
    event: LookupEventView,
) -> (LookupStateView, LookupActionView) {
    let asked = match request.requested_id {
        Some(id) => id,
        None => request.item_id,
    };
    match (state, event) {
        (LookupStateView::Begin, LookupEventView::Started) => (
            LookupStateView::Fetching,
            LookupActionView::Fetch { id: asked },
        ),
        (LookupStateView::Fetching, LookupEventView::Fetched(Some(media))) => dispatch(
            request,
            media,
        ),
        (LookupStateView::Fetching, LookupEventView::Fetched(None)) => (
            LookupStateView::Finished,
            LookupActionView::Fail(LookupError::StreamNotFound(asked)),
        ),
        (LookupStateView::Fetching, LookupEventView::FetchFailed) => (
            LookupStateView::Finished,
            LookupActionView::Fail(LookupError::FetchFailed),
        ),
        (LookupStateView::ListingGroup { group_id }, LookupEventView::Listed(candidates)) =>
            if candidates.len() == 0 {
            (
                LookupStateView::Finished,
                LookupActionView::Fail(LookupError::NoGroupStreams(group_id)),
            )
        } else {
            (
                LookupStateView::ListingCascade { candidates },
                LookupActionView::ListGroupsAfter { group_id, item_id: request.item_id },
            )
        },
        (LookupStateView::ListingGroup { group_id }, LookupEventView::ListFailed) => (
            LookupStateView::Finished,
            LookupActionView::Fail(LookupError::ListFailed),
        ),
        (LookupStateView::ListingCascade { candidates }, LookupEventView::Listed(cascade)) => (
            LookupStateView::Finished,
            LookupActionView::Found((candidates + cascade)[0]),
        ),
        (LookupStateView::ListingCascade { candidates }, LookupEventView::ListFailed) => (
            LookupStateView::Finished,
            LookupActionView::Found(candidates[0]),
        ),
        (LookupStateView::ListingSources, LookupEventView::Listed(sources)) => choose_source(
            request,
            sources,
        ),
        (LookupStateView::ListingSources, LookupEventView::ListFailed) => (
            LookupStateView::Finished,
            LookupActionView::Fail(LookupError::ListFailed),
        ),
        (
            LookupStateView::ReadingPreference { sources },
            LookupEventView::PreferenceRead(saved),
        ) => (
            LookupStateView::Finished,
            preferred_source(request.item_id, sources, saved),
        ),
        _ => (state, LookupActionView::Wait),
    }
}

/// A list of candidates that a lookup keeps is not empty.
pub open spec fn lookup_wf(state: LookupStateView) -> bool {
    state matches LookupStateView::ListingCascade { candidates } ==> candidates.len() > 0
}

proof fn lemma_first_with_id(streams: Seq<MediaView>, id: Id, i: int)
    requires
        0 <= i < streams.len(),
        streams[i].id == id,
        forall|j: int| 0 <= j < i ==> (#[trigger] streams[j]).id != id,
    ensures
        first_with_id(streams, id) == Some(streams[i]),
    decreases i,
{
    if i > 0 {
        let rest = streams.skip(1);
        assert forall|j: int| 0 <= j < i - 1 implies (#[trigger] rest[j]).id != id by {
            assert(rest[j] == streams[j + 1]);
        }
        assert(streams[0].id != id);
        lemma_first_with_id(rest, id, i - 1);
    }
}

proof fn lemma_first_with_id_among(streams: Seq<MediaView>, id: Id)
    ensures
        match first_with_id(streams, id) {
            Some(stream) => streams.contains(stream) && stream.id == id,
            None => !has_id(streams, id),
        },
    decreases streams.len(),
{
    if streams.len() > 0 && streams[0].id != id {
        let rest = streams.skip(1);
        lemma_first_with_id_among(rest, id);
        match first_with_id(rest, id) {
            Some(stream) => {
                let i = choose|i: int| 0 <= i < rest.len() && rest[i] == stream;
                assert(streams[i + 1] == stream);
            },
            None => {
                assert forall|j: int| 0 <= j < streams.len() implies (#[trigger] streams[j]).id
                    != id by {
                    if j > 0 {
                        assert(rest[j - 1] == streams[j]);
                    }
                }
            },
        }
    }
}

/// A copy of the first of the streams that has the identifier.
fn clone_first_with_id(streams: &Vec<Media>, id: Id) -> (r: Option<Media>)
    ensures
        opt_view(r) == first_with_id(views(streams@), id),
{
    match find_id(streams, id) {
        Some(i) => {
            proof {
                let all = views(streams@);
                assert forall|j: int| 0 <= j < i implies (#[trigger] all[j]).id != id by {
                    assert(all[j] == streams@[j]@);
                }
                assert(all[i as int] == streams@[i as int]@);
                lemma_first_with_id(all, id, i as int);
            }
            Some(streams[i].clone())
        },
        None => {
            proof {
                let all = views(streams@);
                lemma_first_with_id_among(all, id);
                if let Some(stream) = first_with_id(all, id) {
                    let k = choose|k: int| 0 <= k < all.len() && all[k] == stream;
                    assert(all[k].id == id);
                }
            }
            None
        },
    }
}

/// What a lookup ends with that is left with the streams of an item.
fn take_first_source(item_id: Id, sources: Vec<Media>) -> (r: LookupAction)
    ensures
        r@ == first_source(item_id, views(sources@)),
{
    if sources.len() > 0 {
        assert(views(sources@)[0] == sources@[0]@);
        LookupAction::Found(sources[0].clone())
    } else {
        LookupAction::Fail(LookupError::NoPlayableSources(item_id))
    }
}

impl StreamService {
    /// A step of looking up a single stream: takes what came of the last request,
    /// and says what is waited for then and what to request.
    pub fn lookup(request: &LookupRequest, state: LookupState, event: LookupEvent) -> (r: (
        LookupState,
        LookupAction,
    ))
        requires
            lookup_wf(state@),
        ensures
            (r.0@, r.1@) == lookup_step(request@, state@, event@),
            lookup_wf(r.0@),
    {
        let item_id: Id = request.item_id;
        let asked: Id = match request.requested_id {
            Some(id) => id,
            None => item_id,
        };
        match (state, event) {
            (LookupState::Begin, LookupEvent::Started) => (
                LookupState::Fetching,
                LookupAction::Fetch { id: asked },
            ),
            (LookupState::Fetching, LookupEvent::Fetched(Some(media))) =>
                StreamService::dispatch_lookup(request, media),
            (LookupState::Fetching, LookupEvent::Fetched(None)) => (
                LookupState::Finished,
                LookupAction::Fail(LookupError::StreamNotFound(asked)),
            ),
            (LookupState::Fetching, LookupEvent::FetchFailed) => (
                LookupState::Finished,
                LookupAction::Fail(LookupError::FetchFailed),
            ),
            (LookupState::ListingGroup { group_id }, LookupEvent::Listed(candidates)) =>
                if candidates.len() == 0 {
                (LookupState::Finished, LookupAction::Fail(LookupError::NoGroupStreams(group_id)))
            } else {
                (
                    LookupState::ListingCascade { candidates },
                    LookupAction::ListGroupsAfter { group_id, item_id },
                )
            },
            (LookupState::ListingGroup { .. }, LookupEvent::ListFailed) => (
                LookupState::Finished,
                LookupAction::Fail(LookupError::ListFailed),
            ),
            (LookupState::ListingCascade { candidates }, LookupEvent::Listed(_)) => {
                assert(views(candidates@)[0] == candidates@[0]@);
                (LookupState::Finished, LookupAction::Found(candidates[0].clone()))
            },
            (LookupState::ListingCascade { candidates }, LookupEvent::ListFailed) => {
                assert(views(candidates@)[0] == candidates@[0]@);
                (LookupState::Finished, LookupAction::Found(candidates[0].clone()))
            },
            (LookupState::ListingSources, LookupEvent::Listed(sources)) =>
                StreamService::choose_lookup(request, sources),
            (LookupState::ListingSources, LookupEvent::ListFailed) => (
                LookupState::Finished,
                LookupAction::Fail(LookupError::ListFailed),
            ),
            (LookupState::ReadingPreference { sources }, LookupEvent::PreferenceRead(saved)) => {
                let preferred: Option<Media> = match saved {
                    Some(id) => clone_first_with_id(&sources, id),
                    None => None,
                };
                let end: LookupAction = match preferred {
                    Some(source) => LookupAction::Found(source),
                    None => take_first_source(item_id, sources),
                };
                (LookupState::Finished, end)
            },
            (state, _) => (state, LookupAction::Wait),
        }
    }

    /// The step of a lookup that was given what is asked for.
    fn dispatch_lookup(request: &LookupRequest, media: Media) -> (r: (LookupState, LookupAction))
        ensures
            (r.0@, r.1@) == dispatch(request@, media@),
    {
        match media.kind {
            MediaKind::StreamGroup => (
                LookupState::ListingGroup { group_id: media.id },
                LookupAction::ListGroup { group_id: media.id, item_id: request.item_id },
            ),
            MediaKind::Movie | MediaKind::Episode | MediaKind::Track => (
                LookupState::ListingSources,
                LookupAction::RefreshAndList { media, user_id: request.user_id },
            ),
            _ => (LookupState::Finished, LookupAction::Found(media)),
        }
    }

    /// The step of a lookup that was given the streams of an item.
    fn choose_lookup(request: &LookupRequest, sources: Vec<Media>) -> (r: (
        LookupState,
        LookupAction,
    ))
        ensures
            (r.0@, r.1@) == choose_source(request@, views(sources@)),
    {
        if let Some(id) = request.requested_id {
            if id != request.item_id {
                let end: LookupAction = match clone_first_with_id(&sources, id) {
                    Some(source) => LookupAction::Found(source),
                    None => LookupAction::Fail(LookupError::StreamNotFound(id)),
                };
                return (LookupState::Finished, end);
            }
        }
        match &request.device_key {
            Some(key) => {
                let key: String = preference_key(request.item_id, key.as_str());
                (LookupState::ReadingPreference { sources }, LookupAction::ReadPreference { key })
            },
            None => (LookupState::Finished, take_first_source(request.item_id, sources)),
        }
    }
}

/// A lookup ends with one of the streams of the item, and with the one that is
/// named where one is; it fails exactly where the item has no stream, or none of
/// that name.
pub proof fn lookup_ends_with_a_source(
    request: LookupRequestView,
    sources: Seq<MediaView>,
    saved: Option<Id>,
)
    ensures
        ({
            let (state, action) = choose_source(request, sources);
            let end = if state is Finished {
                action
            } else {
                lookup_step(request, state, LookupEventView::PreferenceRead(saved)).1
            };
            match named_id(request) {
                Some(id) => if has_id(sources, id) {
                    end matches LookupActionView::Found(s) && sources.contains(s) && s.id == id
                } else {
                    end == LookupActionView::Fail(LookupError::StreamNotFound(id))
                },
                None => if sources.len() > 0 {
                    end matches LookupActionView::Found(s) && sources.contains(s)
                } else {
                    end == LookupActionView::Fail(LookupError::NoPlayableSources(request.item_id))
                },
            }
        }),
{
    if let Some(id) = named_id(request) {
        lemma_first_with_id_among(sources, id);
        if let Some(s) = first_with_id(sources, id) {
            let k = choose|k: int| 0 <= k < sources.len() && sources[k] == s;
            assert(sources[k].id == id);
        }
    } else {
        if let Some(id) = saved {
            lemma_first_with_id_among(sources, id);
            if let Some(s) = first_with_id(sources, id) {
                let k = choose|k: int| 0 <= k < sources.len() && sources[k] == s;
                assert(sources[k] == s);
            }
        }
        if sources.len() > 0 {
            assert(sources.contains(sources[0]));
        }
    }
}

/// How many answers a lookup still waits for at most.
pub open spec fn lookup_rank(state: LookupStateView) -> nat {
    match state {
        LookupStateView::Begin => 4,
        LookupStateView::Fetching => 3,
        LookupStateView::ListingGroup { .. } => 2,
        LookupStateView::ListingCascade { .. } => 1,
        LookupStateView::ListingSources => 2,
        LookupStateView::ReadingPreference { .. } => 1,
        LookupStateView::Finished => 0,
    }
}

/// A lookup comes to an end: each answer that it waited for brings it nearer, and
/// it is over exactly where it has found a stream or has failed.
pub proof fn lookups_end(
    request: LookupRequestView,
    state: LookupStateView,
    event: LookupEventView,
)
    ensures
        ({
            let (next, action) = lookup_step(request, state, event);
            if action is Wait {
                next == state
            } else {
                &&& lookup_rank(next) < lookup_rank(state)
                &&& next is Finished <==> action is Found || action is Fail
            }
        }),
{
}

/// A lookup for a group ends with the stream that loading the group plays.
pub proof fn lookup_finds_what_loading_plays(
    service: ServiceView,
    request: LookupRequestView,
    group: MediaView,
    candidates: Seq<MediaView>,
    cascade: Seq<MediaView>,
)
    requires
        group.kind == MediaKind::StreamGroup,
        request.item_id == service.item_id,
        candidates.len() > 0,
    ensures
        ({
            let (s1, a1) = lookup_step(
                request,
                LookupStateView::Fetching,
                LookupEventView::Fetched(Some(group)),
            );
            let (s2, a2) = lookup_step(request, s1, LookupEventView::Listed(candidates));
            let (s3, a3) = lookup_step(request, s2, LookupEventView::Listed(cascade));
            let loaded = load_step(
                service,
                LoadStateView::ListingCascade { group, candidates },
                LoadEventView::Listed(cascade),
            ).0;
            &&& s3 is Finished
            &&& a3 == LookupActionView::Found(loaded.stream->0)
        }),
{
}

/// The entries of a store once others were written to it, one after the other.
pub open spec fn all_written(entries: Map<Seq<char>, Id>, writes: Seq<StoreWriteView>) -> Map<
    Seq<char>,
    Id,
>
    decreases writes.len(),
{
    if writes.len() == 0 {
        entries
    } else {
        written(all_written(entries, writes.drop_last()), writes.last())
    }
}

/// What was kept of a device for a group is what a later lookup for the device
/// reads: it ends with the stream that was played, as long as the item has it.
pub proof fn preference_is_looked_up(
    service: ServiceView,
    device_key: Seq<char>,
    entries: Map<Seq<char>, Id>,
    request: LookupRequestView,
    sources: Seq<MediaView>,
)
    requires
        service.wf(),
        service.group is Some,
        request.item_id == service.item_id,
        named_id(request) is None,
        request.device_key == Some(device_key),
        has_id(sources, service.stream->0.id),
    ensures
        ({
            let after = all_written(entries, preference_writes(service, device_key));
            let (state, action) = choose_source(request, sources);
            &&& action matches LookupActionView::ReadPreference { key }
            &&& after.dom().contains(key)
            &&& lookup_step(
                request,
                state,
                LookupEventView::PreferenceRead(Some(after[key])),
            ).1 matches LookupActionView::Found(s)
            &&& s.id == service.stream->0.id
        }),
{
    let writes = preference_writes(service, device_key);
    let key = preference_key_text(service.item_id, device_key);
    let group = service.group->0;
    reveal_with_fuel(all_written, 3);
    if let Some(user) = service.user_id {
        key_kinds_differ(service.item_id, device_key, user, group.id);
        assert(writes.drop_last().last() == writes[0]);
    }
    lemma_first_with_id_among(sources, service.stream->0.id);
}

} // verus!
