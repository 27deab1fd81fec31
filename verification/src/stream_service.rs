//! Stream selection for a single playback request.
use vstd::prelude::*;
use crate::ids::Id;
use crate::loading::{
    load_step, load_wf, root_sources, LoadAction, LoadError, LoadEvent, LoadState,
};
use crate::model::{opt_view, views, Media, MediaKind, MediaView};
use crate::selection::{
    clone_media, clone_with_id, find_id, names_stream, select, GroupView, ServiceView,
    StreamSelection,
};
use crate::store_keys::{
    group_item_key, group_item_key_text, group_item_write, preference_key, preference_key_text,
    StoreWrite, StoreWriteView, GROUP_ITEM_TTL_SECS, PREFERENCE_TTL_SECS,
};

verus! {

/// The stream filter of a user, as far as it matters whether to apply it.
#[derive(Debug, Clone, Copy, PartialEq, Eq, Structural)]
pub struct StreamFilter {
    /// How many rules it has.
    pub rules: usize,
}

/// A playback request.
#[derive(Debug, PartialEq, Eq)]
pub struct StreamServiceConfig {
    pub item_id: Id,
    pub requested_id: Option<Id>,
    pub show_ungrouped: bool,
    pub stream_filter: Option<StreamFilter>,
    pub user_id: Option<Id>,
    /// Whether the first list of versions is given without waiting for a probe.
    /// A request for a stream still probes it before playback.
    pub skip_initial_probe: bool,
    /// Whether a score that an add-on gave is shown in the file name.
    pub display_score_in_filename: bool,
}

/// Stream selection for a single playback request.
///
/// Make one with `new`, and load it with `load`. From then on the selection and
/// the mapping of identifiers can be asked for.
#[derive(Debug, PartialEq, Eq)]
pub struct StreamService {
    pub item_id: Id,
    pub requested_id: Option<Id>,
    pub show_ungrouped: bool,
    pub stream_filter: Option<StreamFilter>,
    pub user_id: Option<Id>,
    pub skip_initial_probe: bool,
    pub display_score_in_filename: bool,
    pub group: Option<(Id, String, Vec<Media>)>,
    pub stream: Option<Media>,
    pub streams: Vec<Media>,
}

/// The view of a group.
pub open spec fn group_view(group: Option<(Id, String, Vec<Media>)>) -> Option<GroupView> {
    match group {
        Some((id, title, candidates)) => Some(
            GroupView { id, title: title@, candidates: views(candidates@) },
        ),
        None => None,
    }
}

impl View for StreamService {
    type V = ServiceView;

    open spec fn view(&self) -> ServiceView {
        ServiceView {
            item_id: self.item_id,
            requested_id: self.requested_id,
            show_ungrouped: self.show_ungrouped,
            filter_rules: match self.stream_filter {
                Some(filter) => Some(filter.rules),
                None => None,
            },
            user_id: self.user_id,
            skip_initial_probe: self.skip_initial_probe,
            display_score_in_filename: self.display_score_in_filename,
            group: group_view(self.group),
            stream: opt_view(self.stream),
            streams: views(self.streams@),
        }
    }
}

/// The view of a service for a request, with nothing loaded yet.
pub open spec fn new_service(cfg: StreamServiceConfig) -> ServiceView {
    ServiceView {
        item_id: cfg.item_id,
        requested_id: cfg.requested_id,
        show_ungrouped: cfg.show_ungrouped,
        filter_rules: match cfg.stream_filter {
            Some(filter) => Some(filter.rules),
            None => None,
        },
        user_id: cfg.user_id,
        skip_initial_probe: cfg.skip_initial_probe,
        display_score_in_filename: cfg.display_score_in_filename,
        group: None,
        stream: None,
        streams: seq![],
    }
}

/// The identifier that the client sees of the source: that of the group, or that of
/// the stream to play.
pub open spec fn client_id_of(service: ServiceView) -> Id {
    match service.group {
        Some(group) => group.id,
        None => service.stream->0.id,
    }
}

/// What is kept of the stream that a device plays of a group: the stream for the
/// device, and the item for the user, if there is one. Nothing is kept of other
/// requests.
pub open spec fn preference_writes(service: ServiceView, device_key: Seq<char>) -> Seq<
    StoreWriteView,
> {
    match service.group {
        None => seq![],
        Some(group) => {
            let stream = StoreWriteView {
                key: preference_key_text(service.item_id, device_key),
                id: service.stream->0.id,
                ttl_secs: PREFERENCE_TTL_SECS,
            };
            match service.user_id {
                Some(user) => seq![stream, group_item_write(user, group.id, service.item_id)],
                None => seq![stream],
            }
        },
    }
}

impl StreamService {
    /// A service for a request, with nothing loaded yet.
    pub fn new(cfg: StreamServiceConfig) -> (r: StreamService)
        ensures
            r@ == new_service(cfg),
            r@.wf(),
    {
        let r: StreamService = StreamService {
            item_id: cfg.item_id,
            requested_id: cfg.requested_id,
            show_ungrouped: cfg.show_ungrouped,
            stream_filter: cfg.stream_filter,
            user_id: cfg.user_id,
            skip_initial_probe: cfg.skip_initial_probe,
            display_score_in_filename: cfg.display_score_in_filename,
            group: None,
            stream: None,
            streams: Vec::new(),
        };
        assert(r@.streams == Seq::<MediaView>::empty());
        r
    }

    /// A step of loading: takes what came of the last request, and says what is
    /// waited for then and what to request.
    pub fn load(&mut self, state: LoadState, event: LoadEvent) -> (r: (LoadState, LoadAction))
        requires
            load_wf(state@),
        ensures
            (final(self)@, r.0@, r.1@) == load_step(old(self)@, state@, event@),
            load_wf(r.0@),
            old(self)@.wf() ==> final(self)@.wf(),
    {
        let item_id: Id = self.item_id;
        let user_id: Option<Id> = self.user_id;
        match (state, event) {
            (LoadState::Begin, LoadEvent::Requested(media)) => if media.kind
                == MediaKind::StreamGroup {
                (
                    LoadState::RefreshingParent { group: media },
                    LoadAction::RefreshParent { item_id, user_id },
                )
            } else {
                (LoadState::ResolvingRoot, LoadAction::ResolveRoot { media, item_id, user_id })
            },
            (LoadState::RefreshingParent { group }, LoadEvent::ParentRefreshed) => {
                let group_id: Id = group.id;
                (LoadState::ListingGroup { group }, LoadAction::ListGroup { group_id, item_id })
            },
            (LoadState::ListingGroup { group }, LoadEvent::Listed(candidates)) => {
                let group_id: Id = group.id;
                if candidates.len() == 0 {
                    (LoadState::Finished, LoadAction::Fail(LoadError::NoGroupStreams(group_id)))
                } else {
                    (
                        LoadState::ListingCascade { group, candidates },
                        LoadAction::ListGroupsAfter { group_id, item_id },
                    )
                }
            },
            (LoadState::ListingGroup { .. }, LoadEvent::ListFailed) => (
                LoadState::Finished,
                LoadAction::Fail(LoadError::ListFailed),
            ),
            (LoadState::ListingCascade { group, candidates }, LoadEvent::Listed(cascade)) => {
                self.resolve_stream_group(group, candidates, cascade);
                (LoadState::Finished, LoadAction::Done)
            },
            (LoadState::ListingCascade { group, candidates }, LoadEvent::ListFailed) => {
                let none: Vec<Media> = Vec::new();
                assert(views(candidates@) + views(none@) == views(candidates@));
                self.resolve_stream_group(group, candidates, none);
                (LoadState::Finished, LoadAction::Done)
            },
            (LoadState::ResolvingRoot, LoadEvent::RootResolved(root)) => {
                let root_id: Id = root.id;
                (LoadState::ListingRoot { root }, LoadAction::ListStreams { root_id })
            },
            (LoadState::ListingRoot { root }, LoadEvent::Listed(listed)) => {
                let root_kind: MediaKind = root.kind;
                let ghost root_view = root@;
                let ghost listed_views = views(listed@);
                let raw: Vec<Media> = if listed.len() == 0 {
                    let mut own: Vec<Media> = Vec::new();
                    if root.stream_info.is_some() {
                        own.push(root);
                    }
                    own
                } else {
                    listed
                };
                assert(views(raw@) == root_sources(root_view, listed_views));
                (
                    LoadState::FilteringSources { root_kind },
                    LoadAction::FilterSources { raw, show_ungrouped: self.show_ungrouped },
                )
            },
            (LoadState::ListingRoot { .. }, LoadEvent::ListFailed) => (
                LoadState::Finished,
                LoadAction::Fail(LoadError::ListFailed),
            ),
            (LoadState::FilteringSources { root_kind }, LoadEvent::Filtered(streams)) => {
                let has_rules: bool = match self.stream_filter {
                    Some(filter) => filter.rules > 0,
                    None => false,
                };
                if has_rules && (root_kind == MediaKind::Movie || root_kind == MediaKind::Episode) {
                    (LoadState::ApplyingFilter, LoadAction::ApplyFilter { streams })
                } else {
                    self.take_streams(streams);
                    (LoadState::Finished, LoadAction::Done)
                }
            },
            (LoadState::ApplyingFilter, LoadEvent::Filtered(streams)) => {
                self.take_streams(streams);
                (LoadState::Finished, LoadAction::Done)
            },
            (state, _) => (state, LoadAction::Wait),
        }
    }

    /// Takes the group that was asked for, with its streams and those of the
    /// groups behind it.
    fn resolve_stream_group(&mut self, group: Media, candidates: Vec<Media>, cascade: Vec<Media>)
        requires
            candidates.len() > 0,
        ensures
            final(self)@ == crate::loading::with_group(
                old(self)@,
                group@,
                views(candidates@) + views(cascade@),
            ),
    {
        let ghost wanted = views(candidates@) + views(cascade@);
        let mut all: Vec<Media> = candidates;
        let mut more: Vec<Media> = cascade;
        all.append(&mut more);
        assert(views(all@) == wanted);
        assert(wanted[0] == all@[0]@);
        self.stream = Some(all[0].clone());
        self.group = Some((group.id, group.title, all));
    }

    /// Takes streams to choose from, if there are any.
    fn take_streams(&mut self, streams: Vec<Media>)
        ensures
            final(self)@ == crate::loading::with_streams(old(self)@, views(streams@)),
    {
        if streams.len() == 0 {
            return;
        }
        assert(views(streams@)[0] == streams@[0]@);
        self.stream = Some(streams[0].clone());
        self.streams = streams;
    }

    /// The stream to play.
    pub fn candidate(&self) -> (r: &Media)
        requires
            self@.stream is Some,
        ensures
            self@.stream == Some(r@),
    {
        match &self.stream {
            Some(stream) => stream,
            None => vstd::pervasive::unreached(),
        }
    }

    /// The group that was asked for, if it was one.
    pub fn group(&self) -> (r: Option<&(Id, String, Vec<Media>)>)
        ensures
            match r {
                Some(group) => group_view(Some(*group)) == self@.group && self@.group is Some,
                None => self@.group is None,
            },
    {
        self.group.as_ref()
    }

    /// The identifier that the client sees of the source: that of the group, or
    /// that of the stream to play.
    pub fn client_facing_id(&self) -> (r: Id)
        requires
            self@.group is Some || self@.stream is Some,
        ensures
            r == client_id_of(self@),
    {
        match &self.group {
            Some((id, _, _)) => *id,
            None => self.candidate().id,
        }
    }

    /// The identifier of a source that plays the given stream.
    pub fn source_id_for(&self, effective: &Media) -> (r: Id)
        ensures
            r == source_id(self@, effective@),
    {
        match &self.group {
            Some((id, _, _)) => *id,
            None => effective.id,
        }
    }

    /// The name of a source that plays the given stream.
    pub fn source_name_for(&self, effective: &Media) -> (r: String)
        ensures
            r@ == source_name(self@, effective@),
    {
        match &self.group {
            Some((_, title, _)) => title.clone(),
            None => effective.title.clone(),
        }
    }

    /// The streams to offer to the client and to probe.
    pub fn select_streams(&self) -> (r: StreamSelection)
        requires
            self@.wf(),
        ensures
            r@ == select(self@),
    {
        if let Some((_, _, group_streams)) = &self.group {
            let mut candidates: Vec<Media> = Vec::new();
            candidates.push(self.candidate().clone());
            assert(views(candidates@) == seq![self@.stream->0]);
            return StreamSelection {
                candidates,
                probe_pool: clone_media(group_streams),
                restrict_resolution: false,
                probe_only_first: false,
                specific_requested: true,
            };
        }
        let named: Option<Id> = match self.requested_id {
            Some(id) => if id != self.item_id && find_id(&self.streams, id).is_some() {
                Some(id)
            } else {
                None
            },
            None => None,
        };
        assert(named is Some <==> names_stream(self@));
        let candidates: Vec<Media> = match named {
            Some(id) => clone_with_id(&self.streams, id),
            None => {
                let mut all: Vec<Media> = clone_media(&self.streams);
                if self.requested_id.is_some() && all.len() > 1 {
                    let ghost before = all@;
                    all.truncate(1);
                    assert(views(all@) == views(before).take(1));
                }
                all
            },
        };
        StreamSelection {
            candidates,
            probe_pool: clone_media(&self.streams),
            restrict_resolution: true,
            probe_only_first: self.requested_id.is_none(),
            specific_requested: named.is_some(),
        }
    }

    /// What is to be kept of the stream that a device plays, and for how long.
    pub fn save_preference(&self, device_key: &str) -> (r: Vec<StoreWrite>)
        requires
            self@.wf(),
        ensures
            views(r@) == preference_writes(self@, device_key@),
    {
        let mut writes: Vec<StoreWrite> = Vec::new();
        if let Some((group_id, _, _)) = &self.group {
            writes.push(
                StoreWrite {
                    key: preference_key(self.item_id, device_key),
                    id: self.candidate().id,
                    ttl_secs: PREFERENCE_TTL_SECS,
                },
            );
            if let Some(user_id) = self.user_id {
                writes.push(StreamService::save_group_item(user_id, *group_id, self.item_id));
            }
        }
        assert(views(writes@) =~= preference_writes(self@, device_key@));
        writes
    }

    /// What is to be kept of the item that a user saw a group with. The key holds
    /// the user, as one group is seen with many items.
    pub fn save_group_item(user_id: Id, group_id: Id, item_id: Id) -> (r: StoreWrite)
        ensures
            r@ == group_item_write(user_id, group_id, item_id),
    {
        StoreWrite {
            key: group_item_key(user_id, group_id),
            id: item_id,
            ttl_secs: GROUP_ITEM_TTL_SECS,
        }
    }

    /// The key to look up for the item that a user saw a group with.
    pub fn get_group_item(user_id: Id, group_id: Id) -> (r: String)
        ensures
            r@ == group_item_key_text(user_id, group_id),
    {
        group_item_key(user_id, group_id)
    }
}

/// The identifier of a source that plays the given stream: that of the group that
/// was asked for, or that of the stream.
pub open spec fn source_id(service: ServiceView, effective: MediaView) -> Id {
    match service.group {
        Some(group) => group.id,
        None => effective.id,
    }
}

/// The name of a source that plays the given stream: the title of the group that
/// was asked for, or that of the stream.
pub open spec fn source_name(service: ServiceView, effective: MediaView) -> Seq<char> {
    match service.group {
        Some(group) => group.title,
        None => effective.title,
    }
}

} // verus!
