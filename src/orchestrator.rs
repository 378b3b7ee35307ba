//! Bookkeeping for handshakes with many peers: which attempt may start under
//! the concurrency limit, the outcome of each, and the report in attempt
//! order. The caller runs the attempts; one attempt's outcome never touches
//! another's.
use vstd::prelude::*;
use crate::handshake::HandshakeError;
use crate::peer::PeerAddress;
use crate::version::VersionMessage;

verus! {

#[derive(Debug)]
pub struct HandshakeOutcome {
    pub address: PeerAddress,
    pub result: Result<VersionMessage, HandshakeError>,
}

/// Attempts `0..started` have begun; `results[i]` is set once attempt `i`
/// has an outcome. A `limit` of 0 means no limit.
#[derive(Debug)]
pub struct Orchestrator {
    pub addresses: Vec<PeerAddress>,
    pub limit: usize,
    pub started: usize,
    pub results: Vec<Option<Result<VersionMessage, HandshakeError>>>,
}

/// The number of attempts among the first `k` that have no outcome yet.
pub open spec fn count_pending(r: Seq<Option<Result<VersionMessage, HandshakeError>>>, k: int) -> nat
    decreases k,
{
    if k <= 0 {
        0
    } else {
        count_pending(r, k - 1) + if r[k - 1] is None {
            1nat
        } else {
            0nat
        }
    }
}

proof fn lemma_count_bound(r: Seq<Option<Result<VersionMessage, HandshakeError>>>, k: int)
    requires
        k >= 0,
    ensures
        count_pending(r, k) <= k,
    decreases k,
{
    if k > 0 {
        lemma_count_bound(r, k - 1);
    }
}

impl Orchestrator {
    pub open spec fn wf(&self) -> bool {
        &&& self.results@.len() == self.addresses@.len()
        &&& self.started <= self.addresses@.len()
        &&& forall|i: int| self.started <= i < self.results@.len() ==> self.results@[i] is None
    }

    /// Attempts that have begun and have no outcome yet.
    pub open spec fn in_flight(&self) -> nat {
        count_pending(self.results@, self.started as int)
    }

    pub open spec fn finished(&self) -> bool {
        forall|i: int| 0 <= i < self.results@.len() ==> self.results@[i] is Some
    }

    /// No attempt has begun.
    pub fn new(addresses: Vec<PeerAddress>, limit: usize) -> (r: Orchestrator)
        ensures
            r.wf(),
            r.addresses == addresses,
            r.limit == limit,
            r.started == 0,
            forall|i: int| 0 <= i < r.results@.len() ==> r.results@[i] is None,
    {
        let mut results: Vec<Option<Result<VersionMessage, HandshakeError>>> = Vec::new();
        let mut i: usize = 0;
        while i < addresses.len()
            invariant
                i <= addresses@.len(),
                results@.len() == i,
                forall|j: int| 0 <= j < i ==> results@[j] is None,
            decreases addresses@.len() - i,
        {
            results.push(None);
            i = i + 1;
        }
        Orchestrator { addresses, limit, started: 0, results }
    }

    /// The number of attempts in flight.
    pub fn pending(&self) -> (r: usize)
        requires
            self.wf(),
        ensures
            r == self.in_flight(),
    {
        let mut c: usize = 0;
        let mut i: usize = 0;
        while i < self.started
            invariant
                self.wf(),
                i <= self.started,
                c == count_pending(self.results@, i as int),
            decreases self.started - i,
        {
            proof {
                lemma_count_bound(self.results@, i as int);
            }
            if self.results[i].is_none() {
                c = c + 1;
            }
            i = i + 1;
        }
        c
    }

    /// Begins the next attempt if one is left and the limit allows another
    /// in flight; returns its index.
    pub fn start_next(&mut self) -> (r: Option<usize>)
        requires
            old(self).wf(),
        ensures
            final(self).wf(),
            final(self).addresses == old(self).addresses,
            final(self).limit == old(self).limit,
            final(self).results == old(self).results,
            if old(self).started < old(self).addresses@.len() && (old(self).limit == 0
                || old(self).in_flight() < old(self).limit) {
                r == Some(old(self).started) && final(self).started == old(self).started + 1
            } else {
                r is None && final(self).started == old(self).started
            },
    {
        if self.started >= self.addresses.len() {
            return None;
        }
        if self.limit != 0 && self.pending() >= self.limit {
            return None;
        }
        let i = self.started;
        self.started = self.started + 1;
        Some(i)
    }

    /// Records the outcome of attempt `i`. No other attempt's outcome changes.
    pub fn record(&mut self, i: usize, result: Result<VersionMessage, HandshakeError>)
        requires
            old(self).wf(),
            i < old(self).started,
            old(self).results@[i as int] is None,
        ensures
            final(self).wf(),
            final(self).addresses == old(self).addresses,
            final(self).limit == old(self).limit,
            final(self).started == old(self).started,
            final(self).results@ == old(self).results@.update(i as int, Some(result)),
            forall|j: int| 0 <= j < final(self).results@.len() && j != i ==> final(self).results@[j]
                == old(self).results@[j],
    {
        self.results.set(i, Some(result));
    }

    /// The overall deadline has passed: every attempt without an outcome,
    /// begun or not, fails with `Timeout`. Outcomes already recorded stay.
    pub fn expire(&mut self)
        requires
            old(self).wf(),
        ensures
            final(self).wf(),
            final(self).finished(),
            final(self).addresses == old(self).addresses,
            final(self).limit == old(self).limit,
            final(self).started == old(self).addresses@.len(),
            final(self).results@.len() == old(self).results@.len(),
            forall|j: int| 0 <= j < final(self).results@.len() ==> final(self).results@[j] == if old(
                self,
            ).results@[j] is Some {
                old(self).results@[j]
            } else {
                Some(Err::<VersionMessage, HandshakeError>(HandshakeError::Timeout))
            },
    {
        let mut i: usize = 0;
        while i < self.results.len()
            invariant
                self.results@.len() == old(self).results@.len(),
                self.addresses == old(self).addresses,
                self.limit == old(self).limit,
                self.started == old(self).started,
                old(self).wf(),
                i <= self.results@.len(),
                forall|j: int| 0 <= j < i ==> self.results@[j] == if old(self).results@[j] is Some {
                    old(self).results@[j]
                } else {
                    Some(Err::<VersionMessage, HandshakeError>(HandshakeError::Timeout))
                },
                forall|j: int| i <= j < self.results@.len() ==> self.results@[j] == old(self).results@[j],
            decreases self.results@.len() - i,
        {
            if self.results[i].is_none() {
                self.results.set(i, Some(Err(HandshakeError::Timeout)));
            }
            i = i + 1;
        }
        self.started = self.addresses.len();
    }

    /// Whether every attempt has an outcome.
    pub fn is_finished(&self) -> (r: bool)
        ensures
            r == self.finished(),
    {
        let mut i: usize = 0;
        while i < self.results.len()
            invariant
                i <= self.results@.len(),
                forall|j: int| 0 <= j < i ==> self.results@[j] is Some,
            decreases self.results@.len() - i,
        {
            if self.results[i].is_none() {
                return false;
            }
            i = i + 1;
        }
        true
    }

    /// One outcome per address, in attempt order.
    pub fn into_report(self) -> (r: Vec<HandshakeOutcome>)
        requires
            self.wf(),
            self.finished(),
        ensures
            r@.len() == self.addresses@.len(),
            forall|i: int|
                0 <= i < r@.len() ==> r@[i].address == self.addresses@[i] && self.results@[i] == Some(
                    r@[i].result,
                ),
    {
        let ghost addrs = self.addresses@;
        let ghost res = self.results@;
        let mut addresses = self.addresses;
        let mut results = self.results;
        let mut out: Vec<HandshakeOutcome> = Vec::new();
        while results.len() > 0
            invariant
                addrs.len() == res.len(),
                forall|i: int| 0 <= i < res.len() ==> res[i] is Some,
                out@.len() + results@.len() == res.len(),
                addresses@.len() == results@.len(),
                results@ == res.subrange(out@.len() as int, res.len() as int),
                addresses@ == addrs.subrange(out@.len() as int, addrs.len() as int),
                forall|i: int|
                    0 <= i < out@.len() ==> out@[i].address == addrs[i] && res[i] == Some(
                        out@[i].result,
                    ),
            decreases results@.len(),
        {
            let o = results.remove(0);
            let a = addresses.remove(0);
            match o {
                Some(result) => out.push(HandshakeOutcome { address: a, result }),
                None => {
                    assert(false);
                },
            }
        }
        out
    }
}

} // verus!
