//! What the status report says of the running proxy.
use vstd::prelude::*;

use std::collections::HashSet;
use std::sync::Arc;

use crate::substituter::{Substituter, SubstituterView};
use crate::url::Url;

verus! {

/// Where the proxy keeps its caches.
#[derive(Debug, Clone, Copy, PartialEq, Eq, Structural, Hash)]
pub enum CacheMode {
    Persistent,
    InMemory,
}

/// The number of substituters in `s` that are not waiting out a retry delay.
pub open spec fn available_count(s: Seq<SubstituterView>) -> nat
    decreases s.len(),
{
    if s.len() == 0 {
        0
    } else {
        available_count(s.drop_last()) + if s.last().availability is Unavailable {
            0nat
        } else {
            1nat
        }
    }
}

/// The views of a list of substituters.
pub open spec fn substituter_views(s: Seq<Substituter>) -> Seq<SubstituterView> {
    Seq::new(s.len(), |i: int| s[i]@)
}

/// How many of the substituters are available: those that are not waiting out
/// a retry delay.
pub fn available_substituter_count(substituters: &Vec<Substituter>) -> (r: usize)
    ensures
        r == available_count(substituter_views(substituters@)),
{
    let ghost views = substituter_views(substituters@);
    let mut count: usize = 0;
    let mut i: usize = 0;
    while i < substituters.len()
        invariant
            i <= substituters.len(),
            views == substituter_views(substituters@),
            count == available_count(views.take(i as int)),
            count <= i,
        decreases substituters.len() - i,
    {
        assert(views.take(i as int + 1).drop_last() =~= views.take(i as int));
        if !substituters[i].is_unavailable() {
            count = count + 1;
        }
        i = i + 1;
    }
    assert(views.take(substituters.len() as int) =~= views);
    count
}

/// What does not change while the proxy runs.
#[derive(Debug)]
pub struct StatusRuntimeInfo {
    pub version: &'static str,
    pub cache_mode: CacheMode,
    pub authenticated_substituter_urls: HashSet<Url>,
}

/// The state of the proxy at one moment.
#[derive(Debug)]
pub struct StatusSnapshot {
    pub runtime: Arc<StatusRuntimeInfo>,
    pub substituters: Vec<Substituter>,
    pub nar_info_actor_entries: usize,
    pub nar_file_actor_entries: usize,
    pub nar_info_persistent_entries: usize,
    pub nar_file_persistent_entries: usize,
}

/// A count converted to `usize`, `usize::MAX` when it does not fit.
pub open spec fn saturating_count(v: u64) -> usize {
    if v <= usize::MAX {
        v as usize
    } else {
        usize::MAX
    }
}

/// A count that could not be read counts as 0.
pub open spec fn count_or_zero(v: Result<usize, ()>) -> usize {
    match v {
        Ok(n) => n,
        Err(_) => 0,
    }
}

fn to_count(v: u64) -> (r: usize)
    ensures
        r == saturating_count(v),
{
    if v <= usize::MAX as u64 {
        v as usize
    } else {
        usize::MAX
    }
}

fn or_zero(v: Result<usize, ()>) -> (r: usize)
    ensures
        r == count_or_zero(v),
{
    match v {
        Ok(n) => n,
        Err(_) => 0,
    }
}

/// Puts a snapshot together from what was read: the counts of lookups and
/// of file actors in memory (saturated to `usize`), and the counts of the
/// persistent caches (0 when they could not be read).
pub fn status_snapshot(
    runtime: Arc<StatusRuntimeInfo>,
    substituters: Vec<Substituter>,
    nar_info_actor_entries: u64,
    nar_file_actor_entries: u64,
    nar_info_persistent_entries: Result<usize, ()>,
    nar_file_persistent_entries: Result<usize, ()>,
) -> (r: StatusSnapshot)
    ensures
        r.runtime == runtime,
        r.substituters == substituters,
        r.nar_info_actor_entries == saturating_count(nar_info_actor_entries),
        r.nar_file_actor_entries == saturating_count(nar_file_actor_entries),
        r.nar_info_persistent_entries == count_or_zero(nar_info_persistent_entries),
        r.nar_file_persistent_entries == count_or_zero(nar_file_persistent_entries),
{
    StatusSnapshot {
        runtime,
        substituters,
        nar_info_actor_entries: to_count(nar_info_actor_entries),
        nar_file_actor_entries: to_count(nar_file_actor_entries),
        nar_info_persistent_entries: or_zero(nar_info_persistent_entries),
        nar_file_persistent_entries: or_zero(nar_file_persistent_entries),
    }
}

impl StatusSnapshot {
    /// How many of the listed substituters are available (see
    /// [`available_substituter_count`]).
    pub fn available_substituter_count(&self) -> (r: usize)
        ensures
            r == available_count(substituter_views(self.substituters@)),
    {
        available_substituter_count(&self.substituters)
    }
}

} // verus!

