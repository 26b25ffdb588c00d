//! A store path's narinfo lookup: what is known of it, and what a NAR actor
//! answers and announces.
use vstd::prelude::*;

use crate::nar_file_name::NarFileName;
use crate::nar_info_data::NarInfoData;
use crate::store_path_hash::StorePathHash;
use crate::substituter::{SubstituterMeta, SubstituterMetaView, SubstituterRequest};
use crate::url::Url;

verus! {

/// What is known of a store path's narinfo.
#[derive(Debug, PartialEq, Eq)]
pub enum NarState {
    /// Not looked up yet (or the last lookup failed).
    Unknown,
    /// No substituter has it.
    NotFound,
    /// Found; `best` is the substituter chosen to serve it.
    Resolved { best: SubstituterMeta, nar_info: NarInfoData },
}

/// What a [`NarState`] holds, as plain values.
pub enum NarStateView {
    Unknown,
    NotFound,
    Resolved { best: SubstituterMetaView, nar_info: (Seq<char>, Seq<char>) },
}

impl View for NarState {
    type V = NarStateView;

    closed spec fn view(&self) -> NarStateView {
        match self {
            NarState::Unknown => NarStateView::Unknown,
            NarState::NotFound => NarStateView::NotFound,
            NarState::Resolved { best, nar_info } => NarStateView::Resolved {
                best: best@,
                nar_info: nar_info@,
            },
        }
    }
}

/// A store path and what is known of its narinfo.
#[derive(Debug, PartialEq, Eq)]
pub struct Nar {
    hash: StorePathHash,
    state: NarState,
}

/// What a [`Nar`] holds, as plain values.
pub struct NarView {
    pub hash: Seq<char>,
    pub state: NarStateView,
}

impl View for Nar {
    type V = NarView;

    closed spec fn view(&self) -> NarView {
        NarView { hash: self.hash@, state: self.state@ }
    }
}

impl Nar {
    /// A store path that has not been looked up.
    pub fn new(hash: StorePathHash) -> (r: Nar)
        ensures
            r@ == (NarView { hash: hash@, state: NarStateView::Unknown }),
    {
        Nar { hash, state: NarState::Unknown }
    }

    /// The narinfo was found; `best` serves it.
    pub fn on_resolved(self, best: SubstituterMeta, nar_info: NarInfoData) -> (r: Nar)
        ensures
            r@ == (NarView {
                hash: self@.hash,
                state: NarStateView::Resolved { best: best@, nar_info: nar_info@ },
            }),
    {
        Nar { hash: self.hash, state: NarState::Resolved { best, nar_info } }
    }

    /// No substituter has the narinfo.
    pub fn on_not_found(self) -> (r: Nar)
        ensures
            r@ == (NarView { hash: self@.hash, state: NarStateView::NotFound }),
    {
        Nar { hash: self.hash, state: NarState::NotFound }
    }

    /// The store path hash.
    pub fn hash(&self) -> (r: &StorePathHash)
        ensures
            r@ == self@.hash,
    {
        &self.hash
    }

    /// What is known of the narinfo.
    pub fn state(&self) -> (r: &NarState)
        ensures
            r@ == self@.state,
    {
        &self.state
    }
}

/// Why a narinfo could not be served.
#[derive(Debug, Clone, Copy, PartialEq, Eq, Structural, Hash)]
#[non_exhaustive]
pub enum ResolveNarInfoError {
    /// No substituter has it.
    NotFound,
    /// It could not be fetched.
    Fetch,
}

/// Reports that a NAR lookup hands to the substituter actors.
#[derive(Debug, PartialEq, Eq)]
pub enum NarActorEffect {
    /// The substituter at this URL served a request.
    ReportSubstituterSuccess(Url),
    /// The substituter at this URL failed a request.
    ReportSubstituterFailure(Url),
}

/// The substituter actor to tell, and what to tell it.
pub fn substituter_report(effect: &NarActorEffect) -> (r: (Url, SubstituterRequest))
    ensures
        match effect {
            NarActorEffect::ReportSubstituterSuccess(u) => r.0@ == u@ && r.1
                == SubstituterRequest::ServiceSuccessful,
            NarActorEffect::ReportSubstituterFailure(u) => r.0@ == u@ && r.1
                == SubstituterRequest::ServiceFailed,
        },
{
    match effect {
        NarActorEffect::ReportSubstituterSuccess(u) => (
            u.duplicate(),
            SubstituterRequest::ServiceSuccessful,
        ),
        NarActorEffect::ReportSubstituterFailure(u) => (
            u.duplicate(),
            SubstituterRequest::ServiceFailed,
        ),
    }
}

/// A NAR actor's answer to a narinfo request.
#[derive(Debug)]
pub struct ResolveNarInfoResponse {
    pub result: Result<NarInfoData, ResolveNarInfoError>,
    pub effects: Vec<NarActorEffect>,
}

/// The answer of the NAR actor of the domain layer, the same shape.
pub type NarResolveResponse = ResolveNarInfoResponse;

impl ResolveNarInfoResponse {
    /// An answer and the reports that go with it.
    pub fn new(result: Result<NarInfoData, ResolveNarInfoError>, effects: Vec<NarActorEffect>) -> (r:
        Self)
        ensures
            r.result == result,
            r.effects == effects,
    {
        ResolveNarInfoResponse { result, effects }
    }
}

/// The answer for what is known: the narinfo once resolved, "not found" once
/// no substituter has it, and a fetch failure while it is still unknown.
pub open spec fn resolution_result(state: NarStateView) -> Result<(Seq<char>, Seq<char>), ResolveNarInfoError> {
    match state {
        NarStateView::Resolved { nar_info, .. } => Ok(nar_info),
        NarStateView::NotFound => Err(ResolveNarInfoError::NotFound),
        NarStateView::Unknown => Err(ResolveNarInfoError::Fetch),
    }
}

/// The answer for what is known of `nar` (see [`resolution_result`]).
pub fn build_resolution_result(nar: &Nar) -> (r: Result<NarInfoData, ResolveNarInfoError>)
    ensures
        match r {
            Ok(d) => resolution_result(nar@.state) == Ok::<_, ResolveNarInfoError>(d@),
            Err(e) => resolution_result(nar@.state) == Err::<(Seq<char>, Seq<char>), _>(e),
        },
{
    match nar.state() {
        NarState::Resolved { nar_info, .. } => Ok(nar_info.duplicate()),
        NarState::NotFound => Err(ResolveNarInfoError::NotFound),
        NarState::Unknown => Err(ResolveNarInfoError::Fetch),
    }
}

/// What a NAR actor does with a narinfo request.
#[derive(Debug)]
pub enum NarRequestPlan {
    /// Answer at once; nothing is reported to substituters.
    Reply(Result<NarInfoData, ResolveNarInfoError>),
    /// Ask the substituters first.
    Query,
}

/// A request for a store path that was resolved or found missing is
/// answered from what is known; an unknown one is looked up.
pub fn plan_nar_request(nar: &Nar) -> (r: NarRequestPlan)
    ensures
        match nar@.state {
            NarStateView::Unknown => r is Query,
            _ => r matches NarRequestPlan::Reply(res) && match res {
                Ok(d) => resolution_result(nar@.state) == Ok::<_, ResolveNarInfoError>(d@),
                Err(e) => resolution_result(nar@.state) == Err::<(Seq<char>, Seq<char>), _>(e),
            },
        },
{
    match nar.state() {
        NarState::Unknown => NarRequestPlan::Query,
        _ => NarRequestPlan::Reply(build_resolution_result(nar)),
    }
}

/// Where the NAR files named by resolved narinfos can be fetched.
#[derive(Debug, PartialEq, Eq, Hash)]
pub enum NarFileEvent {
    /// The file can be fetched under this storage prefix.
    Registered { nar_file: NarFileName, storage_prefix: Url },
    /// The location of the file is no longer known.
    Evicted { nar_file: NarFileName },
}

/// Where NAR files were found, keyed by their path under a substituter.
#[derive(Debug, PartialEq, Eq, Hash)]
pub enum NarPathEvent {
    /// The path can be fetched under this storage prefix.
    Registered { nar_path: String, storage_prefix: Url },
    /// The location of the path is no longer known.
    Evicted { nar_path: String },
}

/// A NAR actor whose narinfo is resolved announces where its NAR file is
/// stored: under the storage URL of the chosen substituter.
pub fn registration_event(nar: &Nar) -> (r: Option<NarFileEvent>)
    ensures
        match nar@.state {
            NarStateView::Resolved { best, nar_info } => r matches Some(
                NarFileEvent::Registered { nar_file, storage_prefix },
            ) && nar_file@ == nar_info.1 && storage_prefix@ == best.storage_url,
            _ => r is None,
        },
{
    match nar.state() {
        NarState::Resolved { best, nar_info } => Some(
            NarFileEvent::Registered {
                nar_file: nar_info.nar_file().duplicate(),
                storage_prefix: best.storage_url().duplicate(),
            },
        ),
        _ => None,
    }
}

/// A NAR actor that shuts down with a resolved narinfo withdraws the
/// location of its NAR file.
pub fn eviction_event(nar: &Nar) -> (r: Option<NarFileEvent>)
    ensures
        match nar@.state {
            NarStateView::Resolved { nar_info, .. } => r matches Some(
                NarFileEvent::Evicted { nar_file },
            ) && nar_file@ == nar_info.1,
            _ => r is None,
        },
{
    match nar.state() {
        NarState::Resolved { nar_info, .. } => Some(
            NarFileEvent::Evicted { nar_file: nar_info.nar_file().duplicate() },
        ),
        _ => None,
    }
}

/// Where the location of NAR files is looked up.
pub trait NarFileIndex: Send + Sync {
    /// The storage prefix the file was last found under, if it is known.
    fn get_storage_prefix(&mut self, nar_file: &NarFileName) -> Option<Url>;
}

/// Where the location of NAR paths is looked up.
pub trait NarPathIndex: Send + Sync {
    /// The storage prefix the path was last found under, if it is known.
    fn get_storage_prefix(&self, nar_path: &str) -> Option<Url>;
}

/// The state of a NAR actor: the store path it speaks for.
#[derive(Debug, PartialEq, Eq)]
pub struct NarActorState(Nar);

impl View for NarActorState {
    type V = NarView;

    closed spec fn view(&self) -> NarView {
        self.0@
    }
}

impl NarActorState {
    /// The state of an actor for `nar`.
    pub fn new(nar: Nar) -> (r: NarActorState)
        ensures
            r@ == nar@,
    {
        NarActorState(nar)
    }

    /// The store path and what is known of it.
    pub fn inner(&self) -> (r: &Nar)
        ensures
            r@ == self@,
    {
        &self.0
    }
}

impl From<Nar> for NarActorState {
    fn from(nar: Nar) -> (r: NarActorState) {
        NarActorState(nar)
    }
}

impl vstd::std_specs::convert::FromSpecImpl<Nar> for NarActorState {
    open spec fn obeys_from_spec() -> bool {
        true
    }

    closed spec fn from_spec(v: Nar) -> NarActorState {
        NarActorState(v)
    }
}

/// The state built from a store path speaks for that store path.
pub proof fn lemma_nar_actor_state_from(nar: Nar)
    ensures
        <NarActorState as vstd::std_specs::convert::FromSpec<Nar>>::from_spec(nar)@ == nar@,
{
}

/// The answer of an upstream substituter to a narinfo query.
#[derive(Debug, PartialEq, Eq, Hash)]
pub enum NarInfoQueryOutcome {
    /// The substituter has the narinfo; it answered after `latency`
    /// milliseconds.
    Found { original_data: NarInfoData, latency: u64 },
    /// The substituter does not have it.
    NotFound,
}

impl NarInfoQueryOutcome {
    /// The narinfo and latency of a found outcome.
    pub fn unwrap_found(self) -> (r: Option<(NarInfoData, u64)>)
        ensures
            match self {
                NarInfoQueryOutcome::Found { original_data, latency } => r matches Some(p) && p.0@
                    == original_data@ && p.1 == latency,
                NarInfoQueryOutcome::NotFound => r is None,
            },
    {
        match self {
            NarInfoQueryOutcome::Found { original_data, latency } => Some((original_data, latency)),
            NarInfoQueryOutcome::NotFound => None,
        }
    }
}

} // verus!
