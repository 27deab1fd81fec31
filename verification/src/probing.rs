//! How the streams that a client is offered are probed, and what becomes of each.
//!
//! A run probes the candidates one after the other. For each of them the run says
//! how to probe it, takes what probing found, and says what to submit of it.
use vstd::prelude::*;
use crate::conversions::filename_of;
use crate::json::Json;
use crate::model::{
    opt_json, views, Media, MediaKind, MediaSourceInfo, MediaSourceInfoView,
    MediaSourceRemuxInfo, MediaSourceRemuxInfoView, MediaView,
};
use crate::paths::{is_path_of, path_of_source};
use crate::remuxdb::{media_info, media_info_from_probe, MediaInfoPayload, MediaInfoView};
use crate::score::{provider_info_with_score, scored_info};
use crate::selection::{select, SelectionView, ServiceView, StreamSelection};
use crate::stream_service::{source_id, source_name, StreamService};

verus! {

/// The settings of the server that matter for probing.
#[derive(Debug, Clone, Copy, PartialEq, Eq, Structural)]
pub struct ProbeSettings {
    pub probe_timeout_secs: Option<i64>,
    pub probe_timeout_p2p_secs: Option<i64>,
    pub auto_next_stream_on_probe_fail: Option<bool>,
    pub max_probe_fallback_streams: Option<i64>,
    pub remuxdb_enabled: Option<bool>,
}

/// How long a stream is probed, where the settings do not say.
pub const PROBE_TIMEOUT_SECS: i64 = 20;

/// How long a stream that is fetched from peers is probed, where the settings do
/// not say.
pub const PROBE_TIMEOUT_P2P_SECS: i64 = 60;

/// How many other streams are tried, where the settings do not say.
pub const MAX_PROBE_FALLBACK_STREAMS: i64 = 3;

/// The limits of a run.
#[derive(Debug, Clone, Copy, PartialEq, Eq, Structural)]
pub struct ProbeLimits {
    pub timeout_secs: u64,
    pub timeout_p2p_secs: u64,
    /// Whether another stream is tried where probing one fails.
    pub auto_next: bool,
    /// How many other streams are tried.
    pub max_retries: usize,
    /// Whether what probing found is submitted.
    pub remuxdb_enabled: bool,
}

/// A number that the settings give, or the one that holds otherwise.
pub open spec fn setting<T>(given: Option<T>, otherwise: T) -> T {
    match given {
        Some(value) => value,
        None => otherwise,
    }
}

/// The limits that the settings give.
pub open spec fn limits_of(settings: ProbeSettings) -> ProbeLimits {
    ProbeLimits {
        timeout_secs: setting(settings.probe_timeout_secs, PROBE_TIMEOUT_SECS) as u64,
        timeout_p2p_secs: setting(settings.probe_timeout_p2p_secs, PROBE_TIMEOUT_P2P_SECS) as u64,
        auto_next: setting(settings.auto_next_stream_on_probe_fail, true),
        max_retries: setting(
            settings.max_probe_fallback_streams,
            MAX_PROBE_FALLBACK_STREAMS,
        ) as usize,
        remuxdb_enabled: setting(settings.remuxdb_enabled, true),
    }
}

/// A value that the settings give, or the one that holds otherwise.
fn setting_or<T>(given: Option<T>, otherwise: T) -> (r: T)
    ensures
        r == setting(given, otherwise),
{
    match given {
        Some(value) => value,
        None => otherwise,
    }
}

/// The limits that the settings give.
pub fn probe_limits(settings: &ProbeSettings) -> (r: ProbeLimits)
    ensures
        r == limits_of(*settings),
{
    let timeout: i64 = setting_or(settings.probe_timeout_secs, PROBE_TIMEOUT_SECS);
    let timeout_p2p: i64 = setting_or(settings.probe_timeout_p2p_secs, PROBE_TIMEOUT_P2P_SECS);
    let retries: i64 = setting_or(settings.max_probe_fallback_streams, MAX_PROBE_FALLBACK_STREAMS);
    ProbeLimits {
        timeout_secs: #[verifier::truncate]
        (timeout as u64),
        timeout_p2p_secs: #[verifier::truncate]
        (timeout_p2p as u64),
        auto_next: setting_or(settings.auto_next_stream_on_probe_fail, true),
        max_retries: #[verifier::truncate]
        (retries as usize),
        remuxdb_enabled: setting_or(settings.remuxdb_enabled, true),
    }
}

/// What became of a candidate.
#[derive(Debug, PartialEq, Eq)]
pub struct ProbeResult {
    /// The source, as the client is told of it.
    pub source: MediaSourceInfo,
    /// The candidate.
    pub stream: Media,
    /// The stream that is played: the candidate, or another where probing the
    /// candidate failed.
    pub effective_stream: Media,
}

/// The view of what became of a candidate.
pub struct ProbeResultView {
    pub source: MediaSourceInfoView,
    pub stream: MediaView,
    pub effective_stream: MediaView,
}

impl View for ProbeResult {
    type V = ProbeResultView;

    open spec fn view(&self) -> ProbeResultView {
        ProbeResultView {
            source: self.source@,
            stream: self.stream@,
            effective_stream: self.effective_stream@,
        }
    }
}

/// What became of all candidates.
#[derive(Debug, PartialEq, Eq)]
pub struct ProbedStreams {
    pub results: Vec<ProbeResult>,
    /// Whether the client named a stream, whose identifier it then gets back.
    pub specific_requested: bool,
}

/// A run over the candidates.
#[derive(Debug, PartialEq, Eq)]
pub struct ProbeRun {
    pub limits: ProbeLimits,
    pub selection: StreamSelection,
    /// What became of the candidates so far, in their order.
    pub results: Vec<ProbeResult>,
}

/// The view of a run.
pub struct ProbeRunView {
    pub limits: ProbeLimits,
    pub selection: SelectionView,
    pub results: Seq<ProbeResultView>,
}

impl View for ProbeRun {
    type V = ProbeRunView;

    open spec fn view(&self) -> ProbeRunView {
        ProbeRunView {
            limits: self.limits,
            selection: self.selection@,
            results: views(self.results@),
        }
    }
}

impl ProbeRunView {
    /// The results are those of the first candidates.
    pub open spec fn wf(self) -> bool {
        &&& self.results.len() <= self.selection.candidates.len()
        &&& forall|i: int|
            0 <= i < self.results.len() ==> (#[trigger] self.results[i]).stream
                == self.selection.candidates[i]
    }

    /// Whether every candidate has been probed.
    pub open spec fn complete(self) -> bool {
        self.results.len() == self.selection.candidates.len()
    }
}

/// How to probe a candidate.
#[derive(Debug, Clone, Copy, PartialEq, Eq, Structural)]
pub struct ProbePlan {
    /// Which candidate it is.
    pub index: usize,
    /// Whether the candidate is not probed, but told as it is known.
    pub skip_probe: bool,
    pub timeout_secs: u64,
    pub auto_next: bool,
    pub max_retries: usize,
    pub restrict_resolution: bool,
}

/// Whether a candidate is told as it is known. A client that has named no stream
/// does not wait for the first list where that is asked for, and has the first
/// stream alone probed where it gets all of them.
pub open spec fn skips_probe(service: ServiceView, selection: SelectionView, index: int) -> bool {
    ||| service.skip_initial_probe && !selection.specific_requested
    ||| selection.probe_only_first && index > 0
}

/// Whether a stream was probed before and found to have a video.
pub open spec fn has_video(stream: MediaView) -> bool {
    stream.probe_data matches Some(data) && data.has_video
}

/// How long a stream is probed.
pub open spec fn timeout_of(limits: ProbeLimits, stream: MediaView) -> u64 {
    if stream.stream_info matches Some(info) && info.is_p2p {
        limits.timeout_p2p_secs
    } else {
        limits.timeout_secs
    }
}

/// How to probe the candidate whose turn it is, if there is one.
pub open spec fn plan_of(service: ServiceView, run: ProbeRunView) -> Option<ProbePlan> {
    let index = run.results.len();
    if index < run.selection.candidates.len() {
        Some(
            ProbePlan {
                index: index as usize,
                skip_probe: skips_probe(service, run.selection, index as int),
                timeout_secs: timeout_of(run.limits, run.selection.candidates[index as int]),
                auto_next: run.limits.auto_next,
                max_retries: run.limits.max_retries,
                restrict_resolution: run.selection.restrict_resolution,
            },
        )
    } else {
        None
    }
}

/// What probing a candidate found. `T` is what is submitted of a track.
#[derive(Debug, PartialEq, Eq)]
pub struct ProbeOutcome<T> {
    pub source: MediaSourceInfo,
    /// The stream that is played.
    pub effective_stream: Media,
    /// What the add-on told of the candidate.
    pub provider_info: Option<serde_json::Value>,
    /// The server's own identifier.
    pub client_id: String,
    /// What is submitted of each track of the source, if anything is.
    pub tracks: Vec<Option<T>>,
}

/// The view of what probing a candidate found.
pub struct ProbeOutcomeView<T> {
    pub source: MediaSourceInfoView,
    pub effective_stream: MediaView,
    pub provider_info: Option<Json>,
    pub client_id: Seq<char>,
    pub tracks: Seq<Option<T>>,
}

impl<T> View for ProbeOutcome<T> {
    type V = ProbeOutcomeView<T>;

    open spec fn view(&self) -> ProbeOutcomeView<T> {
        ProbeOutcomeView {
            source: self.source@,
            effective_stream: self.effective_stream@,
            provider_info: opt_json(self.provider_info),
            client_id: self.client_id@,
            tracks: self.tracks@,
        }
    }
}

/// What to submit to RemuxDB of a candidate.
#[derive(Debug, PartialEq, Eq)]
pub enum Submission<T> {
    /// Nothing, as what was found was known before.
    CacheHit,
    /// Nothing, as the settings say so.
    Disabled,
    /// Nothing, as the item is neither a film nor an episode.
    NotMovieOrEpisode,
    /// Nothing, as no server to submit to is known.
    NoServer,
    /// Nothing, as too little is known of the stream.
    NothingToSubmit,
    /// What was found.
    Submit(MediaInfoPayload<T>),
}

/// The view of what to submit.
pub enum SubmissionView<T> {
    CacheHit,
    Disabled,
    NotMovieOrEpisode,
    NoServer,
    NothingToSubmit,
    Submit(MediaInfoView<T>),
}

impl<T> View for Submission<T> {
    type V = SubmissionView<T>;

    open spec fn view(&self) -> SubmissionView<T> {
        match self {
            Submission::CacheHit => SubmissionView::CacheHit,
            Submission::Disabled => SubmissionView::Disabled,
            Submission::NotMovieOrEpisode => SubmissionView::NotMovieOrEpisode,
            Submission::NoServer => SubmissionView::NoServer,
            Submission::NothingToSubmit => SubmissionView::NothingToSubmit,
            Submission::Submit(payload) => SubmissionView::Submit(payload@),
        }
    }
}

/// A source that was probed, as the client is told of it under the given path.
///
/// A candidate that stands for a group is told under the identifier and the title
/// of the group, which stay the same where the streams change.
pub open spec fn stamped(
    service: ServiceView,
    stream: MediaView,
    effective: MediaView,
    source: MediaSourceInfoView,
    provider_info: Option<Json>,
    path: Seq<char>,
) -> MediaSourceInfoView {
    let (id, name) = match stream.group_id {
        Some(group_id) => (group_id, stream.title),
        None => (source_id(service, effective), source_name(service, effective)),
    };
    MediaSourceInfoView {
        id,
        e_tag: id,
        name: Some(name),
        has_segments: true,
        path: Some(path),
        is_remote: false,
        remux: Some(
            MediaSourceRemuxInfoView {
                provider_info: scored_info(
                    provider_info,
                    stream.title,
                    service.display_score_in_filename,
                ),
            },
        ),
        ..source
    }
}

/// What becomes of a candidate that the client is told of under the given path.
pub open spec fn result_of<T>(
    service: ServiceView,
    stream: MediaView,
    outcome: ProbeOutcomeView<T>,
    path: Seq<char>,
) -> ProbeResultView {
    ProbeResultView {
        source: stamped(
            service,
            stream,
            outcome.effective_stream,
            outcome.source,
            outcome.provider_info,
            path,
        ),
        stream,
        effective_stream: outcome.effective_stream,
    }
}

/// What to submit of a candidate of the given item.
pub open spec fn submission_of<T>(
    limits: ProbeLimits,
    stream: MediaView,
    outcome: ProbeOutcomeView<T>,
    item: Option<MediaView>,
    server_known: bool,
) -> SubmissionView<T> {
    if has_video(stream) {
        SubmissionView::CacheHit
    } else if !limits.remuxdb_enabled {
        SubmissionView::Disabled
    } else if !(item matches Some(it) && (it.kind == MediaKind::Movie || it.kind
        == MediaKind::Episode)) {
        SubmissionView::NotMovieOrEpisode
    } else if !server_known {
        SubmissionView::NoServer
    } else {
        match media_info(
            outcome.source,
            outcome.effective_stream,
            item,
            outcome.client_id,
            outcome.tracks,
        ) {
            Some(info) => SubmissionView::Submit(info),
            None => SubmissionView::NothingToSubmit,
        }
    }
}

impl StreamService {
    /// A run over the streams to offer and to probe, with none of them probed yet.
    pub fn probe_candidates(&self, settings: &ProbeSettings) -> (r: ProbeRun)
        requires
            self@.wf(),
        ensures
            r@ == (ProbeRunView {
                limits: limits_of(*settings),
                selection: select(self@),
                results: seq![],
            }),
            r@.wf(),
    {
        let run: ProbeRun = ProbeRun {
            limits: probe_limits(settings),
            selection: self.select_streams(),
            results: Vec::new(),
        };
        assert(run@.results == Seq::<ProbeResultView>::empty());
        run
    }

    /// How to probe the candidate whose turn it is, if there is one.
    pub fn next_probe(&self, run: &ProbeRun) -> (r: Option<ProbePlan>)
        ensures
            r == plan_of(self@, run@),
    {
        let index: usize = run.results.len();
        if index >= run.selection.candidates.len() {
            return None;
        }
        let stream: &Media = &run.selection.candidates[index];
        assert(run@.selection.candidates[index as int] == stream@);
        let is_p2p: bool = match &stream.stream_info {
            Some(info) => info.is_p2p,
            None => false,
        };
        Some(
            ProbePlan {
                index,
                skip_probe: (self.skip_initial_probe && !run.selection.specific_requested) || (
                run.selection.probe_only_first && index > 0),
                timeout_secs: if is_p2p {
                    run.limits.timeout_p2p_secs
                } else {
                    run.limits.timeout_secs
                },
                auto_next: run.limits.auto_next,
                max_retries: run.limits.max_retries,
                restrict_resolution: run.selection.restrict_resolution,
            },
        )
    }

    /// A source that was probed, as the client is told of it.
    fn stamp(
        &self,
        stream: &Media,
        effective: &Media,
        source: MediaSourceInfo,
        provider_info: Option<serde_json::Value>,
        path: String,
    ) -> (r: MediaSourceInfo)
        ensures
            r@ == stamped(self@, stream@, effective@, source@, opt_json(provider_info), path@),
    {
        let mut source: MediaSourceInfo = source;
        match stream.group_id {
            Some(group_id) => {
                source.id = group_id;
                source.e_tag = group_id;
                source.name = Some(stream.title.clone());
            },
            None => {
                source.id = self.source_id_for(effective);
                source.e_tag = source.id;
                source.name = Some(self.source_name_for(effective));
            },
        }
        source.has_segments = true;
        source.path = Some(path);
        source.is_remote = false;
        source.remux = Some(
            MediaSourceRemuxInfo {
                provider_info: provider_info_with_score(
                    provider_info,
                    stream.title.as_str(),
                    self.display_score_in_filename,
                ),
            },
        );
        source
    }

    /// Takes what probing the candidate found whose turn it is, and says what to
    /// submit of it. `item` is what is played, and `server_known` says whether
    /// there is a server to submit to. The path under which the client is told of
    /// the source shows the file name of the stream that is played.
    pub fn probed<T>(
        &self,
        run: &mut ProbeRun,
        outcome: ProbeOutcome<T>,
        item: Option<&Media>,
        server_known: bool,
    ) -> (r: Submission<T>)
        requires
            old(run)@.wf(),
            !old(run)@.complete(),
        ensures
            ({
                let path = final(run)@.results.last().source.path->0;
                &&& is_path_of(
                    outcome@.effective_stream.id,
                    filename_of(outcome@.effective_stream),
                    path,
                )
                &&& final(run)@ == (ProbeRunView {
                    results: old(run)@.results.push(
                        result_of(
                            self@,
                            old(run)@.selection.candidates[old(run)@.results.len() as int],
                            outcome@,
                            path,
                        ),
                    ),
                    ..old(run)@
                })
            }),
            final(run)@.wf(),
            r@ == submission_of(
                old(run)@.limits,
                old(run)@.selection.candidates[old(run)@.results.len() as int],
                outcome@,
                match item {
                    Some(item) => Some(item@),
                    None => None,
                },
                server_known,
            ),
    {
        let effective: &Media = &outcome.effective_stream;
        let path: String = match &effective.stream_info {
            Some(info) => path_of_source(effective.id, &info.filename),
            None => path_of_source(effective.id, &None),
        };
        self.probed_at(run, outcome, path, item, server_known)
    }

    /// Takes what probing the candidate found whose turn it is, and says what to
    /// submit of it. The client is told of the source under the given path.
    pub fn probed_at<T>(
        &self,
        run: &mut ProbeRun,
        outcome: ProbeOutcome<T>,
        path: String,
        item: Option<&Media>,
        server_known: bool,
    ) -> (r: Submission<T>)
        requires
            old(run)@.wf(),
            !old(run)@.complete(),
        ensures
            final(run)@ == (ProbeRunView {
                results: old(run)@.results.push(
                    result_of(
                        self@,
                        old(run)@.selection.candidates[old(run)@.results.len() as int],
                        outcome@,
                        path@,
                    ),
                ),
                ..old(run)@
            }),
            final(run)@.wf(),
            r@ == submission_of(
                old(run)@.limits,
                old(run)@.selection.candidates[old(run)@.results.len() as int],
                outcome@,
                match item {
                    Some(item) => Some(item@),
                    None => None,
                },
                server_known,
            ),
    {
        let index: usize = run.results.len();
        let stream: Media = run.selection.candidates[index].clone();
        assert(run@.selection.candidates[index as int] == stream@);
        let ProbeOutcome { source, effective_stream, provider_info, client_id, tracks } = outcome;
        let source: MediaSourceInfo = self.stamp(
            &stream,
            &effective_stream,
            source,
            provider_info,
            path,
        );
        let was_cached: bool = match &stream.probe_data {
            Some(data) => data.has_video,
            None => false,
        };
        let submittable: bool = match item {
            Some(item) => item.kind == MediaKind::Movie || item.kind == MediaKind::Episode,
            None => false,
        };
        let submission: Submission<T> = if was_cached {
            Submission::CacheHit
        } else if !run.limits.remuxdb_enabled {
            Submission::Disabled
        } else if !submittable {
            Submission::NotMovieOrEpisode
        } else if !server_known {
            Submission::NoServer
        } else {
            match media_info_from_probe(&source, &effective_stream, item, client_id, tracks) {
                Some(payload) => Submission::Submit(payload),
                None => Submission::NothingToSubmit,
            }
        };
        let ghost before = run.results@;
        let result: ProbeResult = ProbeResult { source, stream, effective_stream };
        let ghost last = result@;
        run.results.push(result);
        assert(views(run.results@) == views(before).push(last));
        submission
    }
}

impl ProbeRun {
    /// What became of all candidates, once the last was probed: there is one
    /// result for each of them, in their order.
    pub fn finish(self) -> (r: ProbedStreams)
        requires
            self@.wf(),
            self@.complete(),
        ensures
            views(r.results@) == self@.results,
            r.specific_requested == self@.selection.specific_requested,
            views(r.results@).map_values(|result: ProbeResultView| result.stream)
                == self@.selection.candidates,
    {
        let r: ProbedStreams = ProbedStreams {
            results: self.results,
            specific_requested: self.selection.specific_requested,
        };
        assert(views(r.results@).map_values(|result: ProbeResultView| result.stream)
            =~= self@.selection.candidates);
        r
    }
}

/// A stream that the client selected is always probed before it is played.
pub proof fn selected_streams_are_probed(service: ServiceView, index: int)
    requires
        select(service).specific_requested,
    ensures
        !skips_probe(service, select(service), index),
{
}

/// Where the first list is asked for without waiting, none of it is probed,
/// unless the client selected a stream.
pub proof fn first_list_does_not_wait(service: ServiceView, index: int)
    requires
        service.skip_initial_probe,
        !select(service).specific_requested,
    ensures
        skips_probe(service, select(service), index),
{
}

/// However many streams a client is offered that named none, at most the first of
/// them is probed.
pub proof fn unnamed_requests_probe_one_stream(service: ServiceView, index: int)
    requires
        service.group is None,
        service.requested_id is None,
        index > 0,
    ensures
        skips_probe(service, select(service), index),
{
}

/// A source of a group keeps the identifier and the name of the group, whatever
/// stream probing falls back to.
pub proof fn groups_keep_their_identifier(
    service: ServiceView,
    stream: MediaView,
    effective: MediaView,
    source: MediaSourceInfoView,
    provider_info: Option<Json>,
    path: Seq<char>,
)
    ensures
        ({
            let told = stamped(service, stream, effective, source, provider_info, path);
            &&& told.e_tag == told.id
            &&& stream.group_id matches Some(id) ==> told.id == id && told.name == Some(
                stream.title,
            )
            &&& stream.group_id is None ==> (service.group matches Some(group) ==> told.id
                == group.id && told.name == Some(group.title))
            &&& stream.group_id is None && service.group is None ==> told.id == effective.id
                && told.name == Some(effective.title)
        }),
{
}

/// Telling a source changes nothing of what probing found of the file itself.
pub proof fn stamping_keeps_what_was_found(
    service: ServiceView,
    stream: MediaView,
    effective: MediaView,
    source: MediaSourceInfoView,
    provider_info: Option<Json>,
    path: Seq<char>,
)
    ensures
        ({
            let told = stamped(service, stream, effective, source, provider_info, path);
            &&& told.media_streams == source.media_streams
            &&& told.container == source.container
            &&& told.size == source.size
            &&& told.bitrate == source.bitrate
            &&& told.run_time_ticks == source.run_time_ticks
        }),
{
}

} // verus!
