use vstd::prelude::*;
use crate::batch::{batch, batch_notices, each_change_reported_once, notice_for, notices_view, reports};
use crate::detect::{detect, probed_state, transitions_of};
use crate::message::{notice_text, render};
use crate::model::{Group, ProbeResult, Target, Transition, distinct_targets, unique_target_ids};

verus! {

/// A request to the catalog to record a target's new reachability.
#[derive(Clone, Copy, Debug, PartialEq, Eq, Structural)]
pub struct StateUpdate {
    pub target_id: i32,
    pub reachable: bool,
}

/// Everything one tick decided from its snapshot and probe results.
#[derive(Debug)]
pub struct TickPlan {
    pub transitions: Vec<Transition>,
    pub updates: Vec<StateUpdate>,
    pub messages: Vec<String>,
}

pub open spec fn update_of(t: Transition) -> StateUpdate {
    StateUpdate { target_id: t.target.id, reachable: t.current }
}

pub open spec fn updates_of(ts: Seq<Transition>) -> Seq<StateUpdate> {
    ts.map_values(|t: Transition| update_of(t))
}

pub open spec fn texts_of(ms: Seq<String>) -> Seq<Seq<char>> {
    ms.map_values(|m: String| m@)
}

/// The messages owed for a tick's transitions.
pub open spec fn tick_messages(ts: Seq<Transition>, groups: Seq<Group>) -> Seq<Seq<char>> {
    batch_notices(ts, groups).map_values(|n| notice_text(n))
}

/// Decides one tick: detects the transitions of the snapshot, records one
/// state update per transition, and batches the transitions into messages.
pub fn plan_tick(snapshot: &Vec<Target>, groups: &Vec<Group>, results: &Vec<ProbeResult>) -> (p:
    TickPlan)
    ensures
        p.transitions@ == transitions_of(snapshot@, results@),
        p.updates@ == updates_of(p.transitions@),
        texts_of(p.messages@) == tick_messages(p.transitions@, groups@),
{
    let transitions = detect(snapshot, results);
    let mut updates: Vec<StateUpdate> = Vec::new();
    let mut i: usize = 0;
    while i < transitions.len()
        invariant
            i <= transitions@.len(),
            updates@ == updates_of(transitions@.take(i as int)),
        decreases transitions@.len() - i,
    {
        updates.push(StateUpdate { target_id: transitions[i].target.id, reachable: transitions[i].current });
        assert(updates@ =~= updates_of(transitions@.take(i as int + 1)));
        i = i + 1;
    }
    assert(transitions@.take(i as int) =~= transitions@);
    let notices = batch(&transitions, groups);
    let mut messages: Vec<String> = Vec::new();
    let mut j: usize = 0;
    while j < notices.len()
        invariant
            j <= notices@.len(),
            notices_view(notices@) == batch_notices(transitions@, groups@),
            texts_of(messages@) == tick_messages(transitions@, groups@).take(j as int),
        decreases notices@.len() - j,
    {
        let text = render(&notices[j]);
        let ghost before = messages@;
        messages.push(text);
        proof {
            assert(notices_view(notices@)[j as int] == notices@[j as int]@);
            assert(tick_messages(transitions@, groups@)[j as int] == text@);
            assert(texts_of(messages@) =~= texts_of(before).push(text@));
        }
        assert(texts_of(messages@) =~= tick_messages(transitions@, groups@).take(j as int + 1));
        j = j + 1;
    }
    assert(tick_messages(transitions@, groups@).take(j as int) =~= tick_messages(transitions@, groups@));
    TickPlan { transitions, updates, messages }
}

/// The state the catalog records for target `id` after `updates` were
/// written in order: the last write to it, if any.
pub open spec fn last_write(updates: Seq<StateUpdate>, id: i32) -> Option<bool>
    decreases updates.len(),
{
    if updates.len() == 0 {
        None
    } else if updates.last().target_id == id {
        Some(updates.last().reachable)
    } else {
        last_write(updates.drop_last(), id)
    }
}

/// The recorded state of `t` once `updates` were written.
pub open spec fn recorded_after(t: Target, updates: Seq<StateUpdate>) -> bool {
    match last_write(updates, t.id) {
        Some(b) => b,
        None => t.is_active,
    }
}

proof fn lemma_updates_drop_last(ts: Seq<Transition>)
    requires
        ts.len() > 0,
    ensures
        updates_of(ts).drop_last() == updates_of(ts.drop_last()),
        updates_of(ts).last() == update_of(ts.last()),
{
    assert(updates_of(ts).drop_last() =~= updates_of(ts.drop_last()));
}

proof fn lemma_last_write_absent(ts: Seq<Transition>, id: i32)
    requires
        forall|k: int| 0 <= k < ts.len() ==> (#[trigger] ts[k]).target.id != id,
    ensures
        last_write(updates_of(ts), id) is None,
    decreases ts.len(),
{
    if ts.len() > 0 {
        lemma_updates_drop_last(ts);
        assert forall|k: int| 0 <= k < ts.drop_last().len() implies (#[trigger] ts.drop_last()[k]).target.id != id by {
            assert(ts.drop_last()[k] == ts[k]);
        }
        lemma_last_write_absent(ts.drop_last(), id);
    }
}

proof fn lemma_last_write_present(ts: Seq<Transition>, k: int)
    requires
        distinct_targets(ts),
        0 <= k < ts.len(),
    ensures
        last_write(updates_of(ts), ts[k].target.id) == Some(ts[k].current),
    decreases ts.len(),
{
    lemma_updates_drop_last(ts);
    let rest = ts.drop_last();
    if k < ts.len() - 1 {
        assert(rest[k] == ts[k]);
        assert(ts[ts.len() - 1].target.id != ts[k].target.id);
        assert(distinct_targets(rest)) by {
            assert forall|a: int, b: int|
                0 <= a < rest.len() && 0 <= b < rest.len() && a != b implies #[trigger] rest[a].target.id
                != #[trigger] rest[b].target.id by {
                assert(rest[a] == ts[a] && rest[b] == ts[b]);
            }
        }
        lemma_last_write_present(rest, k);
    }
}

/// Once a tick's updates are written, the catalog records for every probed
/// target exactly its probed state, and leaves every target without a result
/// as it was. A target whose state did not change receives no write.
pub proof fn tick_reconciles_catalog(snapshot: Seq<Target>, results: Seq<ProbeResult>, i: int)
    requires
        unique_target_ids(snapshot),
        0 <= i < snapshot.len(),
    ensures
        probed_state(results, snapshot[i].id) matches Some(b) ==> recorded_after(
            snapshot[i],
            updates_of(transitions_of(snapshot, results)),
        ) == b,
        probed_state(results, snapshot[i].id) is None ==> recorded_after(
            snapshot[i],
            updates_of(transitions_of(snapshot, results)),
        ) == snapshot[i].is_active,
        probed_state(results, snapshot[i].id) != Some(!snapshot[i].is_active) ==> forall|k: int|
            0 <= k < updates_of(transitions_of(snapshot, results)).len() ==> (#[trigger] updates_of(
                transitions_of(snapshot, results),
            )[k]).target_id != snapshot[i].id,
{
    let ts = transitions_of(snapshot, results);
    let t = snapshot[i];
    crate::detect::lemma_transition_ids_distinct(snapshot, results);
    match probed_state(results, t.id) {
        Some(b) => {
            if b != t.is_active {
                crate::detect::changed_target_has_one_transition(snapshot, results, i, b);
                let k = choose|k: int| 0 <= k < ts.len() && #[trigger] ts[k] == (Transition {
                    target: t,
                    previous: t.is_active,
                    current: b,
                }) && forall|m: int| 0 <= m < ts.len() && (#[trigger] ts[m]).target.id == t.id ==> m == k;
                lemma_last_write_present(ts, k);
            } else {
                crate::detect::unchanged_target_has_no_transition(snapshot, results, i);
                lemma_last_write_absent(ts, t.id);
            }
        },
        None => {
            lemma_no_result_no_transition(snapshot, results, i);
            lemma_last_write_absent(ts, t.id);
        },
    }
    if probed_state(results, t.id) != Some(!t.is_active) {
        if probed_state(results, t.id) is None {
            lemma_no_result_no_transition(snapshot, results, i);
        } else {
            crate::detect::unchanged_target_has_no_transition(snapshot, results, i);
        }
        assert forall|k: int| 0 <= k < updates_of(ts).len() implies (#[trigger] updates_of(ts)[k]).target_id != t.id by {
            assert(updates_of(ts)[k] == update_of(ts[k]));
        }
    }
}

proof fn lemma_no_result_no_transition(snapshot: Seq<Target>, results: Seq<ProbeResult>, i: int)
    requires
        unique_target_ids(snapshot),
        0 <= i < snapshot.len(),
        probed_state(results, snapshot[i].id) is None,
    ensures
        forall|k: int|
            0 <= k < transitions_of(snapshot, results).len() ==> (#[trigger] transitions_of(
                snapshot,
                results,
            )[k]).target.id != snapshot[i].id,
{
    let out = transitions_of(snapshot, results);
    assert forall|k: int| 0 <= k < out.len() implies (#[trigger] out[k]).target.id != snapshot[i].id by {
        crate::detect::lemma_transition_origin(snapshot, results, k);
        let j = choose|j: int|
            0 <= j < snapshot.len() && crate::detect::transition_of(snapshot[j], results) == Some(
                #[trigger] transitions_of(snapshot, results)[k],
            );
        if snapshot[j].id == snapshot[i].id {
            assert(i == j);
        }
    }
}

/// What the loop must do next to carry out a tick's plan.
#[derive(Debug)]
pub enum TickStep {
    /// Record a target's new state in the catalog.
    Persist { update: StateUpdate },
    /// Deliver a message to the subscription.
    Send { text: String },
    /// The plan is carried out.
    Done,
}

/// Progress through a plan: how many writes and messages were attempted, and
/// how many of them failed.
pub struct RunState {
    pub written: nat,
    pub sent: nat,
    pub failed_writes: nat,
    pub failed_sends: nat,
}

/// The progress after the outcome `ok` of the current step, for a plan of
/// `u` writes and `m` messages: every write is attempted first, then every
/// message; a failure is counted and the next step follows regardless.
pub open spec fn advance(s: RunState, u: nat, m: nat, ok: bool) -> RunState {
    if s.written < u {
        RunState {
            written: s.written + 1,
            failed_writes: if ok {
                s.failed_writes
            } else {
                s.failed_writes + 1
            },
            ..s
        }
    } else if s.sent < m {
        RunState {
            sent: s.sent + 1,
            failed_sends: if ok {
                s.failed_sends
            } else {
                s.failed_sends + 1
            },
            ..s
        }
    } else {
        s
    }
}

/// The progress after a sequence of outcomes.
pub open spec fn run_outcomes(s: RunState, u: nat, m: nat, outcomes: Seq<bool>) -> RunState
    decreases outcomes.len(),
{
    if outcomes.len() == 0 {
        s
    } else {
        run_outcomes(advance(s, u, m, outcomes[0]), u, m, outcomes.drop_first())
    }
}

/// Carries out a tick's plan one step at a time, isolating failures: a
/// failed write or delivery is counted and the run goes on.
#[derive(Debug)]
pub struct TickRun {
    pub plan: TickPlan,
    pub written: usize,
    pub sent: usize,
    pub failed_writes: usize,
    pub failed_sends: usize,
}

impl View for TickRun {
    type V = RunState;

    open spec fn view(&self) -> RunState {
        RunState {
            written: self.written as nat,
            sent: self.sent as nat,
            failed_writes: self.failed_writes as nat,
            failed_sends: self.failed_sends as nat,
        }
    }
}

impl TickRun {
    pub open spec fn wf(&self) -> bool {
        &&& self.written <= self.plan.updates@.len()
        &&& self.sent <= self.plan.messages@.len()
        &&& self.failed_writes <= self.written
        &&& self.failed_sends <= self.sent
    }

    pub open spec fn is_done(&self) -> bool {
        self.written == self.plan.updates@.len() && self.sent == self.plan.messages@.len()
    }

    pub fn new(plan: TickPlan) -> (r: TickRun)
        ensures
            r.wf(),
            r.plan == plan,
            r@ == (RunState { written: 0, sent: 0, failed_writes: 0, failed_sends: 0 }),
    {
        TickRun { plan, written: 0, sent: 0, failed_writes: 0, failed_sends: 0 }
    }

    /// The step to perform now.
    pub fn next_step(&self) -> (r: TickStep)
        requires
            self.wf(),
        ensures
            self.written < self.plan.updates@.len() ==> r == (TickStep::Persist {
                update: self.plan.updates@[self.written as int],
            }),
            self.written == self.plan.updates@.len() && self.sent < self.plan.messages@.len() ==> (
            r matches TickStep::Send { text } && text@ == self.plan.messages@[self.sent as int]@),
            self.is_done() ==> r is Done,
    {
        if self.written < self.plan.updates.len() {
            TickStep::Persist { update: self.plan.updates[self.written] }
        } else if self.sent < self.plan.messages.len() {
            TickStep::Send { text: self.plan.messages[self.sent].clone() }
        } else {
            TickStep::Done
        }
    }

    /// Records the outcome of the step last returned by `next_step`.
    pub fn record(&mut self, ok: bool)
        requires
            old(self).wf(),
        ensures
            final(self).wf(),
            final(self).plan == old(self).plan,
            final(self)@ == advance(
                old(self)@,
                old(self).plan.updates@.len(),
                old(self).plan.messages@.len(),
                ok,
            ),
    {
        if self.written < self.plan.updates.len() {
            self.written = self.written + 1;
            if !ok {
                self.failed_writes = self.failed_writes + 1;
            }
        } else if self.sent < self.plan.messages.len() {
            self.sent = self.sent + 1;
            if !ok {
                self.failed_sends = self.failed_sends + 1;
            }
        }
    }

    pub fn done(&self) -> (r: bool)
        ensures
            r == self.is_done(),
    {
        self.written == self.plan.updates.len() && self.sent == self.plan.messages.len()
    }
}

/// Which writes and deliveries a run attempts does not depend on whether
/// earlier ones failed: two runs with the same number of outcomes have made
/// the same progress through the plan.
pub proof fn outcomes_do_not_change_steps(s: RunState, u: nat, m: nat, o1: Seq<bool>, o2: Seq<bool>)
    requires
        o1.len() == o2.len(),
    ensures
        run_outcomes(s, u, m, o1).written == run_outcomes(s, u, m, o2).written,
        run_outcomes(s, u, m, o1).sent == run_outcomes(s, u, m, o2).sent,
    decreases o1.len(),
{
    if o1.len() > 0 {
        let a = advance(s, u, m, o1[0]);
        let b = advance(s, u, m, o2[0]);
        outcomes_do_not_change_steps(a, u, m, o1.drop_first(), o2.drop_first());
        lemma_run_depends_on_progress(a, b, u, m, o2.drop_first());
    }
}

proof fn lemma_run_depends_on_progress(a: RunState, b: RunState, u: nat, m: nat, os: Seq<bool>)
    requires
        a.written == b.written,
        a.sent == b.sent,
    ensures
        run_outcomes(a, u, m, os).written == run_outcomes(b, u, m, os).written,
        run_outcomes(a, u, m, os).sent == run_outcomes(b, u, m, os).sent,
    decreases os.len(),
{
    if os.len() > 0 {
        lemma_run_depends_on_progress(
            advance(a, u, m, os[0]),
            advance(b, u, m, os[0]),
            u,
            m,
            os.drop_first(),
        );
    }
}

/// Every write and every message of a plan is attempted once a run has seen
/// as many outcomes as the plan has steps, whatever those outcomes were: a
/// failed catalog write never withholds a notification.
pub proof fn every_step_is_attempted(s: RunState, u: nat, m: nat, outcomes: Seq<bool>)
    requires
        s.written <= u,
        s.sent <= m,
        s.written < u ==> s.sent == 0,
        outcomes.len() >= (u - s.written) + (m - s.sent),
    ensures
        run_outcomes(s, u, m, outcomes).written == u,
        run_outcomes(s, u, m, outcomes).sent == m,
    decreases outcomes.len(),
{
    if outcomes.len() > 0 {
        every_step_is_attempted(advance(s, u, m, outcomes[0]), u, m, outcomes.drop_first());
    }
}

/// A target whose probed state differs from its recorded one is reported by
/// exactly one of the tick's notices, whose message is the text of that
/// notice: its own individual notice when it is ungrouped or the only
/// change of its group, else its group's aggregated notice.
pub proof fn changed_target_reported_once(
    snapshot: Seq<Target>,
    groups: Seq<Group>,
    results: Seq<ProbeResult>,
    i: int,
    probed: bool,
)
    requires
        unique_target_ids(snapshot),
        0 <= i < snapshot.len(),
        probed_state(results, snapshot[i].id) == Some(probed),
        probed != snapshot[i].is_active,
    ensures
        ({
            let ts = transitions_of(snapshot, results);
            let change = Transition { target: snapshot[i], previous: snapshot[i].is_active, current: probed };
            exists|j: int, k: int|
                0 <= j < ts.len() && #[trigger] ts[j] == change && 0 <= k < batch_notices(ts, groups).len()
                    && #[trigger] batch_notices(ts, groups)[k] == notice_for(ts, groups, j)
                    && reports(batch_notices(ts, groups)[k], change)
                    && tick_messages(ts, groups)[k] == notice_text(notice_for(ts, groups, j))
                    && forall|m: int|
                    0 <= m < batch_notices(ts, groups).len() && reports(
                        #[trigger] batch_notices(ts, groups)[m],
                        change,
                    ) ==> m == k
        }),
{
    let ts = transitions_of(snapshot, results);
    let change = Transition { target: snapshot[i], previous: snapshot[i].is_active, current: probed };
    crate::detect::changed_target_has_one_transition(snapshot, results, i, probed);
    crate::detect::lemma_transition_ids_distinct(snapshot, results);
    let j = choose|j: int| 0 <= j < ts.len() && #[trigger] ts[j] == change && forall|m: int|
        0 <= m < ts.len() && (#[trigger] ts[m]).target.id == snapshot[i].id ==> m == j;
    each_change_reported_once(ts, groups, j);
    let out = batch_notices(ts, groups);
    let k = choose|k: int| 0 <= k < out.len() && #[trigger] out[k] == notice_for(ts, groups, j)
        && forall|m: int| 0 <= m < out.len() && reports(#[trigger] out[m], ts[j]) ==> m == k;
    assert(tick_messages(ts, groups)[k] == notice_text(out[k]));
}

} // verus!
