use vstd::prelude::*;

verus! {

/// Seconds a single probe may take before the target counts as unreachable.
pub const PROBE_TIMEOUT_SECS: u64 = 5;

/// Whether monitoring runs for a subscription.
#[derive(Clone, Copy, Debug, PartialEq, Eq, Structural)]
pub enum LoopState {
    Idle,
    Running,
}

/// What a start request did.
#[derive(Clone, Copy, Debug, PartialEq, Eq, Structural)]
pub enum StartOutcome {
    /// The subscription was idle; its loop now runs.
    Started,
    /// A loop already ran for the subscription; another one was started
    /// beside it.
    AlreadyRunning,
}

/// The process-wide record of started monitoring loops, one entry per start
/// request, keyed by subscription (a chat handle).
#[derive(Debug)]
pub struct Registry {
    starts: Vec<i64>,
}

pub open spec fn count_of(s: Seq<i64>, sub: i64) -> nat
    decreases s.len(),
{
    if s.len() == 0 {
        0
    } else {
        count_of(s.drop_last(), sub) + if s.last() == sub {
            1nat
        } else {
            0nat
        }
    }
}

proof fn lemma_count_zero(s: Seq<i64>, sub: i64)
    ensures
        (count_of(s, sub) == 0) == !s.contains(sub),
    decreases s.len(),
{
    if s.len() > 0 {
        lemma_count_zero(s.drop_last(), sub);
        if s.drop_last().contains(sub) {
            let k = choose|k: int| 0 <= k < s.drop_last().len() && s.drop_last()[k] == sub;
            assert(s[k] == sub);
        }
        if s.contains(sub) && s.last() != sub {
            let k = choose|k: int| 0 <= k < s.len() && s[k] == sub;
            assert(s.drop_last()[k] == sub);
        }
    }
}

impl View for Registry {
    type V = Seq<i64>;

    closed spec fn view(&self) -> Seq<i64> {
        self.starts@
    }
}

impl Registry {
    /// The state of the loop of `sub`.
    pub open spec fn state_of(&self, sub: i64) -> LoopState {
        if self@.contains(sub) {
            LoopState::Running
        } else {
            LoopState::Idle
        }
    }

    pub fn new() -> (r: Registry)
        ensures
            r@ == Seq::<i64>::empty(),
    {
        Registry { starts: Vec::new() }
    }

    /// The state of the loop of `sub`.
    pub fn state(&self, sub: i64) -> (r: LoopState)
        ensures
            r == self.state_of(sub),
    {
        let mut i: usize = 0;
        while i < self.starts.len()
            invariant
                i <= self@.len(),
                self@ == self.starts@,
                forall|k: int| 0 <= k < i ==> self@[k] != sub,
            decreases self@.len() - i,
        {
            if self.starts[i] == sub {
                return LoopState::Running;
            }
            i = i + 1;
        }
        LoopState::Idle
    }

    /// The number of loops started for `sub`.
    pub fn loops_for(&self, sub: i64) -> (r: usize)
        ensures
            r == count_of(self@, sub),
    {
        let mut n: usize = 0;
        let mut i: usize = 0;
        while i < self.starts.len()
            invariant
                i <= self@.len(),
                self@ == self.starts@,
                n == count_of(self@.take(i as int), sub),
                n <= i,
            decreases self@.len() - i,
        {
            assert(self@.take(i as int + 1).drop_last() =~= self@.take(i as int));
            if self.starts[i] == sub {
                n = n + 1;
            }
            i = i + 1;
        }
        assert(self@.take(i as int) =~= self@);
        n
    }

    /// Records a start request for `sub`. A loop is started on every
    /// request; the outcome tells whether one already ran, so that a
    /// duplicate start can be detected.
    pub fn start(&mut self, sub: i64) -> (r: StartOutcome)
        ensures
            final(self)@ == old(self)@.push(sub),
            final(self).state_of(sub) == LoopState::Running,
            r == (if old(self)@.contains(sub) {
                StartOutcome::AlreadyRunning
            } else {
                StartOutcome::Started
            }),
            count_of(final(self)@, sub) == count_of(old(self)@, sub) + 1,
    {
        let before = self.state(sub);
        self.starts.push(sub);
        assert(self@.drop_last() =~= old(self)@);
        assert(self@[self@.len() - 1] == sub);
        match before {
            LoopState::Running => StartOutcome::AlreadyRunning,
            LoopState::Idle => StartOutcome::Started,
        }
    }
}

/// A subscription's loop runs once it was started, and it is a duplicate
/// exactly when it was started more than once.
pub proof fn started_loops_are_counted(s: Seq<i64>, sub: i64)
    ensures
        (count_of(s, sub) > 0) == s.contains(sub),
        count_of(s.push(sub), sub) > 1 <==> s.contains(sub),
{
    lemma_count_zero(s, sub);
    assert(s.push(sub).drop_last() =~= s);
}

} // verus!
