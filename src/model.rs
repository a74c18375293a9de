use vstd::prelude::*;

verus! {

/// A registered endpoint, as the catalog recorded it at the start of a tick.
#[derive(Debug)]
pub struct Target {
    pub id: i32,
    pub name: String,
    pub host: String,
    pub port: i32,
    /// The group the target belongs to; `None` when it is ungrouped.
    pub group_id: Option<i32>,
    /// The reachability recorded by the last successful tick.
    pub is_active: bool,
}

impl Clone for Target {
    fn clone(&self) -> (r: Self)
        ensures
            r == *self,
    {
        Target {
            id: self.id,
            name: self.name.clone(),
            host: self.host.clone(),
            port: self.port,
            group_id: self.group_id,
            is_active: self.is_active,
        }
    }
}

/// A named collection of targets, used to batch notifications.
#[derive(Debug)]
pub struct Group {
    pub id: i32,
    pub name: String,
}

impl Clone for Group {
    fn clone(&self) -> (r: Self)
        ensures
            r == *self,
    {
        Group { id: self.id, name: self.name.clone() }
    }
}

/// The outcome of probing one target during a tick.
#[derive(Clone, Copy, Debug, PartialEq, Eq, Structural)]
pub struct ProbeResult {
    pub target_id: i32,
    pub reachable: bool,
}

/// A change of a target's reachability detected within one tick.
/// `previous` is the recorded state, `current` the probed one; they differ.
#[derive(Debug)]
pub struct Transition {
    pub target: Target,
    pub previous: bool,
    pub current: bool,
}

impl Clone for Transition {
    fn clone(&self) -> (r: Self)
        ensures
            r == *self,
    {
        Transition { target: self.target.clone(), previous: self.previous, current: self.current }
    }
}

/// How a single connection attempt ended.
#[derive(Clone, Copy, Debug, PartialEq, Eq, Structural)]
pub enum ProbeOutcome {
    Connected,
    Refused,
    TimedOut,
}

/// Folds every way a probe can end into the binary up/down state: only an
/// established connection counts as reachable.
pub fn reachable_from(outcome: ProbeOutcome) -> (r: bool)
    ensures
        r == (outcome == ProbeOutcome::Connected),
{
    match outcome {
        ProbeOutcome::Connected => true,
        ProbeOutcome::Refused => false,
        ProbeOutcome::TimedOut => false,
    }
}

/// Target ids are unique within a snapshot (they are the catalog's keys).
pub open spec fn unique_target_ids(targets: Seq<Target>) -> bool {
    forall|i: int, j: int|
        0 <= i < targets.len() && 0 <= j < targets.len() && i != j ==> #[trigger] targets[i].id
            != #[trigger] targets[j].id
}

/// No two transitions concern the same target.
pub open spec fn distinct_targets(ts: Seq<Transition>) -> bool {
    forall|a: int, b: int|
        0 <= a < ts.len() && 0 <= b < ts.len() && a != b ==> #[trigger] ts[a].target.id
            != #[trigger] ts[b].target.id
}

} // verus!
