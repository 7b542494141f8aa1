//! Local port reservation: finding a free port among a fixed list of
//! candidates, and waiting for a port to be released. Each is a machine that
//! says which port to probe next and what to conclude; the probe itself (an
//! attempt to bind the port) is made by the caller.
use vstd::prelude::*;

verus! {

/// How many times a port is probed before the wait for its release gives up.
pub const PORT_WAIT_ATTEMPTS: u32 = 5;

/// The local ports tried for the forwarded session, in order of preference.
pub fn candidate_ports() -> (r: Vec<u16>)
    ensures
        r@ == seq![3389u16, 3390u16],
{
    vec![3389u16, 3390u16]
}

/// The port that a search over `cands` settles on, where `free[i]` says
/// whether `cands[i]` binds: the first that does.
pub open spec fn first_free(cands: Seq<u16>, free: Seq<bool>) -> Option<u16>
    decreases cands.len(),
{
    if cands.len() == 0 || free.len() == 0 {
        None
    } else if free[0] {
        Some(cands[0])
    } else {
        first_free(cands.drop_first(), free.drop_first())
    }
}

/// What the search for a free port does next.
#[derive(Debug, Clone, Copy, PartialEq, Eq, Structural)]
pub enum DiscoverStep {
    /// Try to bind this port and report whether it bound.
    Probe(u16),
    /// This port bound (and was released at once): use it.
    Found(u16),
    /// Every candidate was taken.
    NoneFree,
}

/// The search for a free port, one candidate at a time, in list order.
pub struct PortDiscovery {
    pub candidates: Vec<u16>,
    pub next: usize,
}

impl PortDiscovery {
    pub open spec fn wf(&self) -> bool {
        self.next <= self.candidates@.len()
    }

    /// What the search settles on from here, given the probe outcomes.
    pub open spec fn outcome(&self, free: Seq<bool>) -> Option<u16> {
        first_free(self.candidates@.skip(self.next as int), free.skip(self.next as int))
    }

    pub open spec fn current(&self) -> DiscoverStep {
        if self.next < self.candidates@.len() {
            DiscoverStep::Probe(self.candidates@[self.next as int])
        } else {
            DiscoverStep::NoneFree
        }
    }

    /// A search that starts at the first candidate.
    pub fn new(candidates: Vec<u16>) -> (r: PortDiscovery)
        ensures
            r.wf(),
            r.candidates == candidates,
            r.next == 0,
    {
        PortDiscovery { candidates, next: 0 }
    }

    /// The step the search stands at: probe the current candidate, or report
    /// that none was free once the list is used up.
    pub fn step(&self) -> (r: DiscoverStep)
        requires
            self.wf(),
        ensures
            r == self.current(),
    {
        if self.next < self.candidates.len() {
            DiscoverStep::Probe(self.candidates[self.next])
        } else {
            DiscoverStep::NoneFree
        }
    }

    /// Takes the outcome of probing the current candidate and says what
    /// follows: that candidate if it bound, else the next probe, or that
    /// none was free. Each call moves past one candidate, so a search makes
    /// at most as many probes as there are candidates.
    pub fn record(&mut self, bound: bool) -> (r: DiscoverStep)
        requires
            old(self).wf(),
            old(self).next < old(self).candidates@.len(),
        ensures
            final(self).wf(),
            final(self).candidates == old(self).candidates,
            bound ==> r == DiscoverStep::Found(old(self).candidates@[old(self).next as int])
                && final(self).next == old(self).next,
            !bound ==> final(self).next == old(self).next + 1 && r == final(self).current(),
            forall|free: Seq<bool>|
                free.len() == old(self).candidates@.len() && #[trigger] free[old(self).next as int]
                    == bound ==> old(self).outcome(free) == (if bound {
                    Some(old(self).candidates@[old(self).next as int])
                } else {
                    final(self).outcome(free)
                }),
    {
        let ghost pre = *self;
        let len = self.candidates.len();
        let here = self.candidates[self.next];
        if bound {
            DiscoverStep::Found(here)
        } else {
            // `next < len`, and `len` is a `usize`, so this does not overflow.
            assert(self.next < len);
            self.next = self.next + 1;
            proof {
                assert forall|free: Seq<bool>|
                    free.len() == pre.candidates@.len() && #[trigger] free[pre.next as int]
                        == bound implies pre.outcome(free) == self.outcome(free) by {
                    let c = pre.candidates@.skip(pre.next as int);
                    let f = free.skip(pre.next as int);
                    assert(c.drop_first() =~= self.candidates@.skip(self.next as int));
                    assert(f.drop_first() =~= free.skip(self.next as int));
                }
            }
            self.step()
        }
    }
}

/// Whether the wait for a port's release succeeded, and how many probes it
/// made, from `made` probes on, where `free[i]` says whether probe `i` bound.
pub open spec fn wait_outcome(free: Seq<bool>, made: nat) -> (bool, nat)
    decreases PORT_WAIT_ATTEMPTS - made,
{
    if made >= PORT_WAIT_ATTEMPTS || made >= free.len() {
        (false, made)
    } else if free[made as int] {
        (true, made + 1)
    } else {
        wait_outcome(free, made + 1)
    }
}

/// What the wait for a port's release does next.
#[derive(Debug, Clone, Copy, PartialEq, Eq, Structural)]
pub enum WaitStep {
    /// The port is still taken: sleep the backoff interval, then probe again.
    Backoff,
    /// The port bound: it is free.
    Freed,
    /// The port stayed taken through every attempt.
    GaveUp,
}

/// The wait for a port to be released: probe, and on failure back off and
/// retry, up to a fixed number of attempts.
pub struct PortWait {
    pub port: u16,
    pub attempts: u32,
}

impl PortWait {
    pub open spec fn wf(&self) -> bool {
        self.attempts <= PORT_WAIT_ATTEMPTS
    }

    /// A wait on `port` that has probed nothing yet.
    pub fn new(port: u16) -> (r: PortWait)
        ensures
            r.wf(),
            r.port == port,
            r.attempts == 0,
    {
        PortWait { port, attempts: 0 }
    }

    /// Takes the outcome of one probe and says what follows.
    pub fn record(&mut self, bound: bool) -> (r: WaitStep)
        requires
            old(self).attempts < PORT_WAIT_ATTEMPTS,
        ensures
            final(self).wf(),
            final(self).port == old(self).port,
            final(self).attempts == old(self).attempts + 1,
            bound ==> r == WaitStep::Freed,
            !bound && final(self).attempts < PORT_WAIT_ATTEMPTS ==> r == WaitStep::Backoff,
            !bound && final(self).attempts == PORT_WAIT_ATTEMPTS ==> r == WaitStep::GaveUp,
            forall|free: Seq<bool>|
                free.len() >= PORT_WAIT_ATTEMPTS && #[trigger] free[old(self).attempts as int]
                    == bound ==> wait_outcome(free, old(self).attempts as nat) == (if r
                    == WaitStep::Backoff {
                    wait_outcome(free, final(self).attempts as nat)
                } else {
                    (bound, final(self).attempts as nat)
                }),
    {
        let ghost made = self.attempts as nat;
        self.attempts = self.attempts + 1;
        proof {
            assert forall|free: Seq<bool>|
                free.len() >= PORT_WAIT_ATTEMPTS && #[trigger] free[made as int] == bound
                    implies wait_outcome(free, made) == (if bound {
                (true, made + 1)
            } else {
                wait_outcome(free, made + 1)
            }) by {}
            if !bound && self.attempts == PORT_WAIT_ATTEMPTS {
                assert forall|free: Seq<bool>|
                    #[trigger] free.len() >= PORT_WAIT_ATTEMPTS implies wait_outcome(free, made + 1)
                    == (false, made + 1) by {}
            }
        }
        if bound {
            WaitStep::Freed
        } else if self.attempts < PORT_WAIT_ATTEMPTS {
            WaitStep::Backoff
        } else {
            WaitStep::GaveUp
        }
    }
}

/// Over candidates of which exactly one binds, the search settles on that
/// one.
pub proof fn lemma_discover_single_free(cands: Seq<u16>, free: Seq<bool>, k: int)
    requires
        cands.len() == free.len(),
        0 <= k < cands.len(),
        free[k],
        forall|j: int| 0 <= j < free.len() && j != k ==> !#[trigger] free[j],
    ensures
        first_free(cands, free) == Some(cands[k]),
    decreases cands.len(),
{
    if k > 0 {
        assert forall|j: int| 0 <= j < free.drop_first().len() && j != k - 1 implies !#[trigger] free.drop_first()[j] by {
            assert(free.drop_first()[j] == free[j + 1]);
        }
        lemma_discover_single_free(cands.drop_first(), free.drop_first(), k - 1);
    }
}

/// Over candidates none of which binds, the search finds nothing.
pub proof fn lemma_discover_none_free(cands: Seq<u16>, free: Seq<bool>)
    requires
        cands.len() == free.len(),
        forall|j: int| 0 <= j < free.len() ==> !#[trigger] free[j],
    ensures
        first_free(cands, free) is None,
    decreases cands.len(),
{
    if cands.len() > 0 {
        assert forall|j: int| 0 <= j < free.drop_first().len() implies !#[trigger] free.drop_first()[j] by {
            assert(free.drop_first()[j] == free[j + 1]);
        }
        lemma_discover_none_free(cands.drop_first(), free.drop_first());
    }
}

/// A port that binds at the first probe is reported free after that one
/// probe, with no backoff.
pub proof fn lemma_wait_free_at_once(free: Seq<bool>)
    requires
        free.len() >= PORT_WAIT_ATTEMPTS,
        free[0],
    ensures
        wait_outcome(free, 0) == (true, 1nat),
{
}

/// A port that stays taken through every attempt is reported taken after
/// exactly the budgeted number of probes.
pub proof fn lemma_wait_gives_up(free: Seq<bool>)
    requires
        free.len() >= PORT_WAIT_ATTEMPTS,
        forall|j: int| 0 <= j < PORT_WAIT_ATTEMPTS ==> !#[trigger] free[j],
    ensures
        wait_outcome(free, 0) == (false, PORT_WAIT_ATTEMPTS as nat),
{
    assert(!free[0] && !free[1] && !free[2] && !free[3] && !free[4]);
    reveal_with_fuel(wait_outcome, 6);
}

} // verus!
