use vstd::prelude::*;
use crate::model::{ProbeResult, Target, Transition, distinct_targets, unique_target_ids};

verus! {

/// The probed state of target `id`: the first result that names it, if any.
pub open spec fn probed_state(results: Seq<ProbeResult>, id: i32) -> Option<bool>
    decreases results.len(),
{
    if results.len() == 0 {
        None
    } else {
        match probed_state(results.drop_last(), id) {
            Some(b) => Some(b),
            None => if results.last().target_id == id {
                Some(results.last().reachable)
            } else {
                None
            },
        }
    }
}

/// The transition that `t` undergoes given this tick's results: one exists
/// only when the target was probed and its probed state differs from the
/// recorded one.
pub open spec fn transition_of(t: Target, results: Seq<ProbeResult>) -> Option<Transition> {
    match probed_state(results, t.id) {
        Some(b) => if b != t.is_active {
            Some(Transition { target: t, previous: t.is_active, current: b })
        } else {
            None
        },
        None => None,
    }
}

pub open spec fn option_seq<A>(o: Option<A>) -> Seq<A> {
    match o {
        Some(a) => seq![a],
        None => Seq::empty(),
    }
}

/// All transitions of a snapshot, in catalog order.
pub open spec fn transitions_of(snapshot: Seq<Target>, results: Seq<ProbeResult>) -> Seq<Transition>
    decreases snapshot.len(),
{
    if snapshot.len() == 0 {
        Seq::empty()
    } else {
        transitions_of(snapshot.drop_last(), results) + option_seq(
            transition_of(snapshot.last(), results),
        )
    }
}

/// Looks up the probed state of target `id`: the first result that names it.
pub fn find_probed_state(results: &Vec<ProbeResult>, id: i32) -> (r: Option<bool>)
    ensures
        r == probed_state(results@, id),
{
    let mut found: Option<bool> = None;
    let mut i: usize = 0;
    while i < results.len()
        invariant
            i <= results@.len(),
            found == probed_state(results@.take(i as int), id),
        decreases results@.len() - i,
    {
        assert(results@.take(i as int + 1).drop_last() =~= results@.take(i as int));
        if found.is_none() && results[i].target_id == id {
            found = Some(results[i].reachable);
        }
        i = i + 1;
    }
    assert(results@.take(i as int) =~= results@);
    found
}

/// Compares the probed state of every target of the snapshot with its
/// recorded state and returns one transition per changed target, in catalog
/// order. Targets without a result are skipped.
pub fn detect(snapshot: &Vec<Target>, results: &Vec<ProbeResult>) -> (out: Vec<Transition>)
    ensures
        out@ == transitions_of(snapshot@, results@),
        forall|k: int| 0 <= k < out@.len() ==> (#[trigger] out@[k]).previous != out@[k].current,
        unique_target_ids(snapshot@) ==> distinct_targets(out@),
{
    let mut out: Vec<Transition> = Vec::new();
    let mut i: usize = 0;
    while i < snapshot.len()
        invariant
            i <= snapshot@.len(),
            out@ == transitions_of(snapshot@.take(i as int), results@),
            forall|k: int| 0 <= k < out@.len() ==> (#[trigger] out@[k]).previous != out@[k].current,
        decreases snapshot@.len() - i,
    {
        let ghost before = out@;
        assert(snapshot@.take(i as int + 1).drop_last() =~= snapshot@.take(i as int));
        let t = &snapshot[i];
        match find_probed_state(results, t.id) {
            Some(b) => {
                if b != t.is_active {
                    out.push(Transition { target: t.clone(), previous: t.is_active, current: b });
                }
            },
            None => {},
        }
        assert(out@ =~= before + option_seq(transition_of(snapshot@[i as int], results@)));
        i = i + 1;
    }
    assert(snapshot@.take(i as int) =~= snapshot@);
    proof {
        if unique_target_ids(snapshot@) {
            lemma_transition_ids_distinct(snapshot@, results@);
        }
    }
    out
}

/// Every detected transition comes from a target of the snapshot whose probed
/// state differs from its recorded one, and records both states.
pub proof fn lemma_transition_origin(snapshot: Seq<Target>, results: Seq<ProbeResult>, k: int)
    requires
        0 <= k < transitions_of(snapshot, results).len(),
    ensures
        exists|i: int|
            0 <= i < snapshot.len() && transition_of(snapshot[i], results) == Some(
                #[trigger] transitions_of(snapshot, results)[k],
            ),
    decreases snapshot.len(),
{
    let prev = transitions_of(snapshot.drop_last(), results);
    if k < prev.len() {
        lemma_transition_origin(snapshot.drop_last(), results, k);
        let i = choose|i: int|
            0 <= i < snapshot.drop_last().len() && transition_of(snapshot.drop_last()[i], results)
                == Some(#[trigger] transitions_of(snapshot.drop_last(), results)[k]);
        assert(snapshot[i] == snapshot.drop_last()[i]);
    } else {
        assert(transition_of(snapshot[snapshot.len() - 1], results) == Some(
            transitions_of(snapshot, results)[k],
        ));
    }
}

/// Every target whose probed state differs from its recorded one has a
/// transition among the detected ones.
pub proof fn lemma_transition_present(snapshot: Seq<Target>, results: Seq<ProbeResult>, i: int)
    requires
        0 <= i < snapshot.len(),
        transition_of(snapshot[i], results) is Some,
    ensures
        exists|k: int|
            0 <= k < transitions_of(snapshot, results).len() && Some(
                #[trigger] transitions_of(snapshot, results)[k],
            ) == transition_of(snapshot[i], results),
    decreases snapshot.len(),
{
    let prev = transitions_of(snapshot.drop_last(), results);
    if i < snapshot.len() - 1 {
        assert(snapshot[i] == snapshot.drop_last()[i]);
        lemma_transition_present(snapshot.drop_last(), results, i);
        let k = choose|k: int|
            0 <= k < prev.len() && Some(#[trigger] prev[k]) == transition_of(
                snapshot.drop_last()[i],
                results,
            );
        assert(transitions_of(snapshot, results)[k] == prev[k]);
    } else {
        assert(transitions_of(snapshot, results)[prev.len() as int] == transition_of(
            snapshot[i],
            results,
        )->Some_0);
    }
}

/// With unique target ids, no two detected transitions concern the same target.
pub proof fn lemma_transition_ids_distinct(snapshot: Seq<Target>, results: Seq<ProbeResult>)
    requires
        unique_target_ids(snapshot),
    ensures
        distinct_targets(transitions_of(snapshot, results)),
    decreases snapshot.len(),
{
    if snapshot.len() > 0 {
        let rest = snapshot.drop_last();
        assert(unique_target_ids(rest)) by {
            assert forall|i: int, j: int|
                0 <= i < rest.len() && 0 <= j < rest.len() && i != j implies #[trigger] rest[i].id
                != #[trigger] rest[j].id by {
                assert(rest[i] == snapshot[i] && rest[j] == snapshot[j]);
            }
        }
        lemma_transition_ids_distinct(rest, results);
        let prev = transitions_of(rest, results);
        let all = transitions_of(snapshot, results);
        assert forall|a: int, b: int|
            0 <= a < all.len() && 0 <= b < all.len() && a != b implies #[trigger] all[a].target.id
            != #[trigger] all[b].target.id by {
            if a < prev.len() && b < prev.len() {
                assert(all[a] == prev[a] && all[b] == prev[b]);
            } else if a < prev.len() {
                lemma_origin_before_last(snapshot, results, a);
            } else if b < prev.len() {
                lemma_origin_before_last(snapshot, results, b);
            }
        }
    }
}

proof fn lemma_origin_before_last(snapshot: Seq<Target>, results: Seq<ProbeResult>, a: int)
    requires
        unique_target_ids(snapshot),
        snapshot.len() > 0,
        0 <= a < transitions_of(snapshot.drop_last(), results).len(),
        transitions_of(snapshot, results).len() > transitions_of(
            snapshot.drop_last(),
            results,
        ).len(),
    ensures
        transitions_of(snapshot, results)[a].target.id != snapshot.last().id,
        transitions_of(snapshot, results)[transitions_of(snapshot.drop_last(), results).len() as int].target
            == snapshot.last(),
{
    let rest = snapshot.drop_last();
    let prev = transitions_of(rest, results);
    lemma_transition_origin(rest, results, a);
    let i = choose|i: int|
        0 <= i < rest.len() && transition_of(rest[i], results) == Some(
            #[trigger] transitions_of(rest, results)[a],
        );
    assert(rest[i] == snapshot[i]);
    assert(transitions_of(snapshot, results)[a] == prev[a]);
}

/// A target whose probed reachability equals its recorded state produces no
/// transition.
pub proof fn unchanged_target_has_no_transition(
    snapshot: Seq<Target>,
    results: Seq<ProbeResult>,
    i: int,
)
    requires
        unique_target_ids(snapshot),
        0 <= i < snapshot.len(),
        probed_state(results, snapshot[i].id) == Some(snapshot[i].is_active),
    ensures
        forall|k: int|
            0 <= k < transitions_of(snapshot, results).len() ==> (#[trigger] transitions_of(
                snapshot,
                results,
            )[k]).target.id != snapshot[i].id,
{
    let out = transitions_of(snapshot, results);
    assert forall|k: int| 0 <= k < out.len() implies (#[trigger] out[k]).target.id
        != snapshot[i].id by {
        lemma_transition_origin(snapshot, results, k);
        let j = choose|j: int|
            0 <= j < snapshot.len() && transition_of(snapshot[j], results) == Some(
                #[trigger] transitions_of(snapshot, results)[k],
            );
        assert(out[k].target == snapshot[j]);
        if snapshot[j].id == snapshot[i].id {
            assert(i == j);
        }
    }
}

/// A target whose probed reachability differs from its recorded state
/// produces exactly one transition, from the recorded to the probed state.
pub proof fn changed_target_has_one_transition(
    snapshot: Seq<Target>,
    results: Seq<ProbeResult>,
    i: int,
    probed: bool,
)
    requires
        unique_target_ids(snapshot),
        0 <= i < snapshot.len(),
        probed_state(results, snapshot[i].id) == Some(probed),
        probed != snapshot[i].is_active,
    ensures
        exists|k: int|
            0 <= k < transitions_of(snapshot, results).len() && #[trigger] transitions_of(
                snapshot,
                results,
            )[k] == (Transition { target: snapshot[i], previous: snapshot[i].is_active, current: probed })
                && forall|m: int|
                0 <= m < transitions_of(snapshot, results).len() && (#[trigger] transitions_of(
                    snapshot,
                    results,
                )[m]).target.id == snapshot[i].id ==> m == k,
{
    let out = transitions_of(snapshot, results);
    lemma_transition_present(snapshot, results, i);
    lemma_transition_ids_distinct(snapshot, results);
    let k = choose|k: int|
        0 <= k < out.len() && Some(#[trigger] out[k]) == transition_of(snapshot[i], results);
    assert forall|m: int| 0 <= m < out.len() && (#[trigger] out[m]).target.id == snapshot[i].id
        implies m == k by {
        if m != k {
            assert(out[m].target.id != out[k].target.id);
        }
    }
}

} // verus!
