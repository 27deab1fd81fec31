//! Which streams a client is offered, and which are probed for it.
use vstd::prelude::*;
use crate::ids::Id;
use crate::model::{views, Media, MediaView};

verus! {

/// The view of a group of streams that a client asked for: its identifier and
/// title, and its streams with those of the groups behind it.
pub struct GroupView {
    pub id: Id,
    pub title: Seq<char>,
    pub candidates: Seq<MediaView>,
}

/// The view of the stream selection for a playback request.
pub struct ServiceView {
    pub item_id: Id,
    pub requested_id: Option<Id>,
    pub show_ungrouped: bool,
    /// How many rules the stream filter of the user has, if there is one.
    pub filter_rules: Option<usize>,
    pub user_id: Option<Id>,
    pub skip_initial_probe: bool,
    pub display_score_in_filename: bool,
    pub group: Option<GroupView>,
    pub stream: Option<MediaView>,
    pub streams: Seq<MediaView>,
}

impl ServiceView {
    /// Where there is a group, there is a stream too.
    pub open spec fn wf(self) -> bool {
        self.group is Some ==> self.stream is Some
    }

    /// The stream is the first one of the group.
    pub open spec fn leads_group(self) -> bool {
        self.group matches Some(group) ==> {
            &&& group.candidates.len() > 0
            &&& self.stream == Some(group.candidates[0])
        }
    }
}

/// The streams to offer to the client and to probe, and how to probe them.
#[derive(Debug, PartialEq, Eq)]
pub struct StreamSelection {
    /// Streams to offer to the client and to probe.
    pub candidates: Vec<Media>,
    /// The streams among which another is taken where probing one fails.
    pub probe_pool: Vec<Media>,
    /// Whether another stream has to have the same resolution. It need not for a
    /// group.
    pub restrict_resolution: bool,
    /// Whether the first candidate alone is probed.
    pub probe_only_first: bool,
    /// Whether the client named a stream, whose identifier it then gets back.
    pub specific_requested: bool,
}

/// The view of a selection.
pub struct SelectionView {
    pub candidates: Seq<MediaView>,
    pub probe_pool: Seq<MediaView>,
    pub restrict_resolution: bool,
    pub probe_only_first: bool,
    pub specific_requested: bool,
}

impl View for StreamSelection {
    type V = SelectionView;

    open spec fn view(&self) -> SelectionView {
        SelectionView {
            candidates: views(self.candidates@),
            probe_pool: views(self.probe_pool@),
            restrict_resolution: self.restrict_resolution,
            probe_only_first: self.probe_only_first,
            specific_requested: self.specific_requested,
        }
    }
}

/// Whether one of the streams has the identifier.
pub open spec fn has_id(streams: Seq<MediaView>, id: Id) -> bool {
    exists|i: int| 0 <= i < streams.len() && (#[trigger] streams[i]).id == id
}

/// The streams that have the identifier.
pub open spec fn with_id(streams: Seq<MediaView>, id: Id) -> Seq<MediaView> {
    streams.filter(|stream: MediaView| stream.id == id)
}

/// Whether the client named one of the streams, rather than the item.
pub open spec fn names_stream(service: ServiceView) -> bool {
    service.requested_id matches Some(id) && id != service.item_id && has_id(service.streams, id)
}

/// The streams to offer and to probe.
///
/// For a group, its first stream is offered. A client that named a stream gets
/// that one. A client that named the item, or a stream that there is not, gets
/// the first stream. One that named nothing gets all of them, of which the first
/// alone is probed.
pub open spec fn select(service: ServiceView) -> SelectionView {
    match service.group {
        Some(group) => SelectionView {
            candidates: seq![service.stream->0],
            probe_pool: group.candidates,
            restrict_resolution: false,
            probe_only_first: false,
            specific_requested: true,
        },
        None => SelectionView {
            candidates: if names_stream(service) {
                with_id(service.streams, service.requested_id->0)
            } else if service.requested_id is Some && service.streams.len() > 1 {
                service.streams.take(1)
            } else {
                service.streams
            },
            probe_pool: service.streams,
            restrict_resolution: true,
            probe_only_first: service.requested_id is None,
            specific_requested: names_stream(service),
        },
    }
}

/// Copies of streams.
pub fn clone_media(streams: &Vec<Media>) -> (r: Vec<Media>)
    ensures
        views(r@) == views(streams@),
{
    let mut out: Vec<Media> = Vec::new();
    let mut i: usize = 0;
    while i < streams.len()
        invariant
            i <= streams.len(),
            views(out@) == views(streams@).take(i as int),
        decreases streams.len() - i,
    {
        let ghost before = out@;
        out.push(streams[i].clone());
        assert(views(out@) == views(before).push(streams@[i as int]@));
        i = i + 1;
    }
    out
}

/// The index of the first stream that has the identifier.
pub fn find_id(streams: &Vec<Media>, id: Id) -> (r: Option<usize>)
    ensures
        match r {
            Some(i) => i < streams.len() && streams@[i as int].id == id && forall|j: int|
                0 <= j < i ==> (#[trigger] streams@[j]).id != id,
            None => !has_id(views(streams@), id),
        },
        r is Some <==> has_id(views(streams@), id),
{
    let mut i: usize = 0;
    while i < streams.len()
        invariant
            i <= streams.len(),
            forall|j: int| 0 <= j < i ==> (#[trigger] streams@[j]).id != id,
        decreases streams.len() - i,
    {
        if streams[i].id == id {
            assert(views(streams@)[i as int].id == id);
            return Some(i);
        }
        i = i + 1;
    }
    assert forall|j: int| 0 <= j < views(streams@).len() implies (#[trigger] views(
        streams@,
    )[j]).id != id by {
        assert(views(streams@)[j].id == streams@[j].id);
    }
    None
}

/// Copies of the streams that have the identifier.
pub fn clone_with_id(streams: &Vec<Media>, id: Id) -> (r: Vec<Media>)
    ensures
        views(r@) == with_id(views(streams@), id),
{
    let ghost all = views(streams@);
    let mut out: Vec<Media> = Vec::new();
    let mut i: usize = 0;
    assert(views(out@) == with_id(all.take(0), id)) by {
        reveal(Seq::filter);
    }
    while i < streams.len()
        invariant
            i <= streams.len(),
            all == views(streams@),
            views(out@) == with_id(all.take(i as int), id),
        decreases streams.len() - i,
    {
        let ghost before = out@;
        assert(all[i as int] == streams@[i as int]@);
        assert(all.take(i + 1).drop_last() == all.take(i as int));
        reveal(Seq::filter);
        if streams[i].id == id {
            out.push(streams[i].clone());
            assert(views(out@) == views(before).push(all[i as int]));
        }
        i = i + 1;
    }
    assert(all.take(i as int) == all);
    out
}

/// Whatever is offered is among the streams that probing may fall back to.
pub proof fn candidates_are_in_the_pool(service: ServiceView, i: int)
    requires
        service.leads_group(),
        0 <= i < select(service).candidates.len(),
    ensures
        select(service).probe_pool.contains(select(service).candidates[i]),
{
    match service.group {
        Some(group) => {
            assert(group.candidates[0] == service.stream->0);
        },
        None => {
            if names_stream(service) {
                let id = service.requested_id->0;
                lemma_with_id(service.streams, id);
                assert(with_id(service.streams, id).contains(with_id(service.streams, id)[i]));
            } else {
                assert(service.streams[i] == select(service).candidates[i]);
            }
        },
    }
}

proof fn lemma_with_id(streams: Seq<MediaView>, id: Id)
    ensures
        forall|m: MediaView| #[trigger]
            with_id(streams, id).contains(m) <==> streams.contains(m) && m.id == id,
    decreases streams.len(),
{
    reveal(Seq::filter);
    if streams.len() > 0 {
        let front = streams.drop_last();
        lemma_with_id(front, id);
        let kept = with_id(front, id);
        assert forall|m: MediaView| #[trigger]
            with_id(streams, id).contains(m) <==> streams.contains(m) && m.id == id by {
            lemma_contains_last(streams, m);
            if streams.last().id == id {
                assert(with_id(streams, id) == kept.push(streams.last()));
                lemma_contains_last(with_id(streams, id), m);
                assert(with_id(streams, id).drop_last() == kept);
            }
        }
    }
}

proof fn lemma_contains_last(s: Seq<MediaView>, m: MediaView)
    requires
        s.len() > 0,
    ensures
        s.contains(m) <==> s.drop_last().contains(m) || s.last() == m,
{
    if s.contains(m) {
        let i = choose|i: int| 0 <= i < s.len() && s[i] == m;
        if i < s.len() - 1 {
            assert(s.drop_last()[i] == m);
        }
    }
    if s.drop_last().contains(m) {
        let i = choose|i: int| 0 <= i < s.drop_last().len() && s.drop_last()[i] == m;
        assert(s[i] == m);
    }
    if s.last() == m {
        assert(s[s.len() - 1] == m);
    }
}

/// A client that names one of the streams is offered streams of that identifier
/// alone, and at least one.
pub proof fn named_stream_is_offered(service: ServiceView, i: int)
    requires
        service.group is None,
        names_stream(service),
    ensures
        select(service).candidates.len() > 0,
        0 <= i < select(service).candidates.len() ==> select(service).candidates[i].id
            == service.requested_id->0,
{
    let id = service.requested_id->0;
    lemma_with_id(service.streams, id);
    let k = choose|k: int|
        0 <= k < service.streams.len() && (#[trigger] service.streams[k]).id == id;
    assert(service.streams.contains(service.streams[k]));
    assert(with_id(service.streams, id).contains(service.streams[k]));
    if 0 <= i < select(service).candidates.len() {
        assert(with_id(service.streams, id).contains(select(service).candidates[i]));
    }
}

/// A client that names nothing is offered every stream, in their order.
pub proof fn unnamed_request_offers_everything(service: ServiceView)
    requires
        service.group is None,
        service.requested_id is None,
    ensures
        select(service).candidates == service.streams,
        select(service).probe_only_first,
        !select(service).specific_requested,
{
}

/// Something is offered wherever there is a stream to play.
pub proof fn something_is_offered(service: ServiceView)
    ensures
        select(service).candidates.len() > 0 <==> service.group is Some || service.streams.len()
            > 0,
{
    if service.group is None && names_stream(service) {
        named_stream_is_offered(service, 0);
    }
}

/// Only a client that asked for a stream or a group, and not for the item,
/// counts as having named a stream; it never has the first one alone probed.
pub proof fn named_requests_probe_what_they_offer(service: ServiceView)
    requires
        select(service).specific_requested,
    ensures
        !select(service).probe_only_first,
        service.group is Some || (service.requested_id is Some && service.requested_id != Some(
            service.item_id,
        )),
{
}

} // verus!
