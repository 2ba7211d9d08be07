//! Liveness probing as bookkeeping: one probe per candidate, each of which
//! ends with a reply or without one, and the set of those that replied.
//! Sending the probes and waiting for them is the caller's part; every
//! outcome is handed in here, and the run is over when each candidate has
//! one.

use crate::addr::Ipv4;
use crate::candidates::{
    ascending_members, lemma_ascending_members, strictly_ascending, CandidateSet,
};
use vstd::prelude::*;

verus! {

/// How the probe of one candidate stands.
#[derive(Clone, Copy, Debug, PartialEq, Eq, Structural)]
pub enum ProbeStatus {
    /// No outcome yet.
    Pending,
    /// A reply arrived in time.
    Up,
    /// The probe timed out or failed.
    Down,
}

/// How the probe of one address ended.
#[derive(Clone, Copy, Debug, PartialEq, Eq, Structural)]
pub struct ProbeOutcome {
    pub addr: Ipv4,
    /// Whether a reply arrived before the probe's timeout.
    pub replied: bool,
}

/// How many entries of `status` are no longer pending.
pub open spec fn count_settled(status: Seq<ProbeStatus>) -> nat
    decreases status.len(),
{
    if status.len() == 0 {
        0
    } else {
        count_settled(status.drop_last()) + if status.last() == ProbeStatus::Pending {
            0nat
        } else {
            1nat
        }
    }
}

/// All entries are settled exactly when as many are settled as there are.
pub proof fn lemma_count_settled(status: Seq<ProbeStatus>)
    ensures
        count_settled(status) <= status.len(),
        count_settled(status) == status.len() <==> forall|i: int|
            0 <= i < status.len() ==> status[i] != ProbeStatus::Pending,
    decreases status.len(),
{
    if status.len() > 0 {
        let front = status.drop_last();
        lemma_count_settled(front);
        if count_settled(status) == status.len() {
            assert forall|i: int| 0 <= i < status.len() implies status[i]
                != ProbeStatus::Pending by {
                if i < front.len() {
                    assert(front[i] == status[i]);
                }
            }
        }
        if forall|i: int| 0 <= i < status.len() ==> status[i] != ProbeStatus::Pending {
            assert forall|i: int| 0 <= i < front.len() implies front[i]
                != ProbeStatus::Pending by {
                assert(front[i] == status[i]);
            }
        }
    }
}

/// Settling one pending entry raises the count by one.
pub proof fn lemma_count_after_settling(status: Seq<ProbeStatus>, i: int, to: ProbeStatus)
    requires
        0 <= i < status.len(),
        status[i] == ProbeStatus::Pending,
        to != ProbeStatus::Pending,
    ensures
        count_settled(status.update(i, to)) == count_settled(status) + 1,
    decreases status.len(),
{
    let after = status.update(i, to);
    if i == status.len() - 1 {
        assert(after.drop_last() =~= status.drop_last());
    } else {
        lemma_count_after_settling(status.drop_last(), i, to);
        assert(after.drop_last() =~= status.drop_last().update(i, to));
    }
}

/// The outcome that settles `addr`: the first one in `outcomes` that names it.
pub open spec fn first_outcome(outcomes: Seq<ProbeOutcome>, addr: Ipv4) -> Option<bool>
    decreases outcomes.len(),
{
    if outcomes.len() == 0 {
        None
    } else {
        match first_outcome(outcomes.drop_last(), addr) {
            Some(r) => Some(r),
            None => if outcomes.last().addr == addr {
                Some(outcomes.last().replied)
            } else {
                None
            },
        }
    }
}

/// One probing run over a fixed set of candidates.
pub struct ProbeRun {
    candidates: CandidateSet,
    status: Vec<ProbeStatus>,
    settled: usize,
}

impl ProbeRun {
    /// The candidates of the run, in ascending order.
    pub closed spec fn candidates(&self) -> Seq<Ipv4> {
        self.candidates@
    }

    /// The status of the candidate at each position.
    pub closed spec fn statuses(&self) -> Seq<ProbeStatus> {
        self.status@
    }

    /// How the probe of `a` stands; `None` where `a` is no candidate.
    pub open spec fn status_of(&self, a: Ipv4) -> Option<ProbeStatus> {
        if self.candidates().contains(a) {
            Some(self.statuses()[self.candidates().index_of(a)])
        } else {
            None
        }
    }

    /// The candidates that replied.
    pub open spec fn up(&self) -> Set<Ipv4> {
        Set::new(|a: Ipv4| self.status_of(a) == Some(ProbeStatus::Up))
    }

    /// The candidates whose probe ended without a reply.
    pub open spec fn down(&self) -> Set<Ipv4> {
        Set::new(|a: Ipv4| self.status_of(a) == Some(ProbeStatus::Down))
    }

    /// How many candidates have an outcome.
    pub open spec fn settled_count(&self) -> nat {
        count_settled(self.statuses())
    }

    /// Whether every candidate has an outcome.
    pub open spec fn complete(&self) -> bool {
        forall|a: Ipv4|
            self.candidates().contains(a) ==> self.status_of(a) != Some(ProbeStatus::Pending)
    }

    /// The candidates ascend, each has one status, and the count is right.
    pub closed spec fn wf(&self) -> bool {
        &&& self.candidates.wf()
        &&& self.status@.len() == self.candidates@.len()
        &&& self.settled == count_settled(self.status@)
    }

    /// A well-formed run has ascending candidates, one status each.
    pub proof fn lemma_wf(&self)
        requires
            self.wf(),
        ensures
            strictly_ascending(self.candidates()),
            self.statuses().len() == self.candidates().len(),
            self.settled_count() <= self.candidates().len(),
            self.complete() <==> self.settled_count() == self.candidates().len(),
            forall|i: int|
                0 <= i < self.candidates().len() ==> self.status_of(
                    #[trigger] self.candidates()[i],
                ) == Some(self.statuses()[i]),
    {
        let c = self.candidates();
        let st = self.statuses();
        lemma_count_settled(st);
        assert forall|i: int| 0 <= i < c.len() implies self.status_of(#[trigger] c[i]) == Some(
            st[i],
        ) by {
            lemma_position_is_unique(c, i);
        }
        if self.complete() {
            assert forall|i: int| 0 <= i < st.len() implies st[i] != ProbeStatus::Pending by {
                assert(c.contains(c[i]));
                assert(self.status_of(c[i]) == Some(st[i]));
            }
        }
        if self.settled_count() == c.len() {
            assert forall|a: Ipv4| c.contains(a) implies self.status_of(a) != Some(
                ProbeStatus::Pending,
            ) by {
                let i = c.index_of(a);
                assert(0 <= i < c.len() && c[i] == a);
            }
        }
    }

    /// A run over `candidates` in which no probe has an outcome yet.
    pub fn new(candidates: CandidateSet) -> (r: ProbeRun)
        requires
            candidates.wf(),
        ensures
            r.wf(),
            r.candidates() == candidates@,
            forall|a: Ipv4|
                candidates@.contains(a) ==> r.status_of(a) == Some(ProbeStatus::Pending),
            r.up() == Set::<Ipv4>::empty(),
            r.down() == Set::<Ipv4>::empty(),
            r.settled_count() == 0,
    {
        let n: usize = candidates.len();
        let mut status: Vec<ProbeStatus> = Vec::new();
        let mut i: usize = 0;
        while i < n
            invariant
                i <= n,
                status@.len() == i,
                forall|j: int| 0 <= j < i ==> status@[j] == ProbeStatus::Pending,
                count_settled(status@) == 0,
            decreases n - i,
        {
            let ghost before = status@;
            status.push(ProbeStatus::Pending);
            assert(status@.drop_last() =~= before);
            i = i + 1;
        }
        let r = ProbeRun { candidates, status, settled: 0 };
        proof {
            assert forall|a: Ipv4| r.candidates().contains(a) implies r.status_of(a) == Some(
                ProbeStatus::Pending,
            ) by {
                let k = r.candidates().index_of(a);
                assert(0 <= k < r.candidates().len());
            }
            assert(r.up() =~= Set::<Ipv4>::empty());
            assert(r.down() =~= Set::<Ipv4>::empty());
        }
        r
    }

    /// Takes in the outcome of one probe. It counts where `addr` is a
    /// candidate that has no outcome yet; otherwise nothing changes. Returns
    /// whether it counted.
    pub fn record(&mut self, addr: Ipv4, replied: bool) -> (counted: bool)
        requires
            old(self).wf(),
        ensures
            final(self).wf(),
            final(self).candidates() == old(self).candidates(),
            counted == (old(self).status_of(addr) == Some(ProbeStatus::Pending)),
            forall|a: Ipv4|
                a != addr || !counted ==> final(self).status_of(a) == old(self).status_of(a),
            counted ==> final(self).status_of(addr) == Some(
                if replied {
                    ProbeStatus::Up
                } else {
                    ProbeStatus::Down
                },
            ),
            final(self).settled_count() == old(self).settled_count() + if counted {
                1nat
            } else {
                0nat
            },
    {
        proof {
            self.lemma_wf();
        }
        match self.candidates.position(addr) {
            None => false,
            Some(i) => {
                proof {
                    lemma_position_is_unique(self.candidates@, i as int);
                }
                let n: usize = self.status.len();
                if self.status[i] == ProbeStatus::Pending {
                    let to: ProbeStatus = if replied {
                        ProbeStatus::Up
                    } else {
                        ProbeStatus::Down
                    };
                    let ghost before = self.status@;
                    self.status.set(i, to);
                    proof {
                        lemma_count_after_settling(before, i as int, to);
                        lemma_count_settled(before);
                    }
                    self.settled = self.settled + 1;
                    proof {
                        let c = self.candidates@;
                        assert forall|a: Ipv4| a != addr implies final(self).status_of(a) == old(
                            self,
                        ).status_of(a) by {
                            if c.contains(a) {
                                let k = c.index_of(a);
                                assert(0 <= k < c.len() && c[k] == a);
                            }
                        }
                    }
                    true
                } else {
                    false
                }
            },
        }
    }

    /// How many candidates have an outcome.
    pub fn settled(&self) -> (n: usize)
        requires
            self.wf(),
        ensures
            n == self.settled_count(),
            n <= self.candidates().len(),
    {
        proof {
            self.lemma_wf();
        }
        self.settled
    }

    /// How many candidates the run has.
    pub fn total(&self) -> (n: usize)
        requires
            self.wf(),
        ensures
            n == self.candidates().len(),
    {
        self.candidates.len()
    }

    /// Whether every candidate has an outcome, so that the run is over.
    pub fn is_complete(&self) -> (r: bool)
        requires
            self.wf(),
        ensures
            r == self.complete(),
    {
        proof {
            self.lemma_wf();
        }
        self.settled == self.candidates.len()
    }

    /// The candidates that have replied so far, in ascending order.
    pub fn live(&self) -> (r: Vec<Ipv4>)
        requires
            self.wf(),
        ensures
            strictly_ascending(r@),
            forall|a: Ipv4| r@.contains(a) <==> self.up().contains(a),
            forall|a: Ipv4| r@.contains(a) ==> self.candidates().contains(a),
            r@ == ascending_members(self.up()),
    {
        proof {
            self.lemma_wf();
        }
        let n: usize = self.candidates.len();
        let mut out: Vec<Ipv4> = Vec::new();
        let ghost mut from: Seq<int> = Seq::empty();
        let mut i: usize = 0;
        while i < n
            invariant
                i <= n,
                self.wf(),
                n == self.candidates().len(),
                n == self.statuses().len(),
                strictly_ascending(self.candidates()),
                from.len() == out@.len(),
                forall|k: int|
                    0 <= k < out@.len() ==> 0 <= #[trigger] from[k] < i
                        && self.candidates()[from[k]] == out@[k]
                        && self.statuses()[from[k]] == ProbeStatus::Up,
                forall|x: int, y: int| 0 <= x < y < from.len() ==> from[x] < from[y],
                forall|j: int|
                    0 <= j < i && self.statuses()[j] == ProbeStatus::Up ==> out@.contains(
                        #[trigger] self.candidates()[j],
                    ),
            decreases n - i,
        {
            let a: Ipv4 = self.candidates.get(i);
            if self.status[i] == ProbeStatus::Up {
                let ghost before = out@;
                out.push(a);
                proof {
                    from = from.push(i as int);
                    let c = self.candidates();
                    assert forall|j: int|
                        0 <= j < i + 1 && self.statuses()[j]
                            == ProbeStatus::Up implies out@.contains(#[trigger] c[j]) by {
                        if j < i {
                            assert(before.contains(c[j]));
                            let k = choose|k: int| 0 <= k < before.len() && before[k] == c[j];
                            assert(out@[k] == c[j]);
                        } else {
                            assert(out@[before.len() as int] == c[j]);
                        }
                    }
                }
            }
            i = i + 1;
        }
        proof {
            let c = self.candidates();
            assert forall|x: int, y: int| 0 <= x < y < out@.len() implies out@[x].bits
                < out@[y].bits by {
                assert(from[x] < from[y]);
                assert(c[from[x]].bits < c[from[y]].bits);
            }
            assert forall|a: Ipv4| out@.contains(a) <==> self.up().contains(a) by {
                if out@.contains(a) {
                    let k = choose|k: int| 0 <= k < out@.len() && out@[k] == a;
                    let j = from[k];
                    assert(self.status_of(c[j]) == Some(self.statuses()[j]));
                }
                if self.up().contains(a) {
                    let j = c.index_of(a);
                    assert(0 <= j < c.len() && c[j] == a);
                }
            }
            lemma_ascending_members(out@, self.up());
        }
        out
    }
}

/// In an ascending sequence each address stands at one position only.
pub proof fn lemma_position_is_unique(s: Seq<Ipv4>, i: int)
    requires
        strictly_ascending(s),
        0 <= i < s.len(),
    ensures
        s.contains(s[i]),
        s.index_of(s[i]) == i,
{
    let j = s.index_of(s[i]);
    assert(s.contains(s[i]));
    assert(0 <= j < s.len() && s[j] == s[i]);
    if j < i {
        assert(s[j].bits < s[i].bits);
    }
    if i < j {
        assert(s[i].bits < s[j].bits);
    }
}

/// Whether a run over `candidates` finds `a` up once it has been given
/// `outcomes` in this order: `a` is a candidate, and the first outcome that
/// names it is a reply.
pub open spec fn replied_first(
    candidates: Seq<Ipv4>,
    outcomes: Seq<ProbeOutcome>,
    a: Ipv4,
) -> bool {
    candidates.contains(a) && first_outcome(outcomes, a) == Some(true)
}

/// Which candidates are up, given the outcomes of the probes in the order in
/// which they came in. The first outcome for a candidate settles it; an
/// outcome for an address that is no candidate is dropped. The result is in
/// ascending order and holds no address that is not a candidate.
pub fn probe(candidates: &CandidateSet, outcomes: &Vec<ProbeOutcome>) -> (r: Vec<Ipv4>)
    requires
        candidates.wf(),
    ensures
        strictly_ascending(r@),
        forall|a: Ipv4| r@.contains(a) <==> replied_first(candidates@, outcomes@, a),
        forall|a: Ipv4| r@.contains(a) ==> candidates@.contains(a),
        r@ == ascending_members(Set::new(|a: Ipv4| replied_first(candidates@, outcomes@, a))),
{
    let mut run = ProbeRun::new(candidates.clone());
    let mut k: usize = 0;
    while k < outcomes.len()
        invariant
            k <= outcomes.len(),
            run.wf(),
            run.candidates() == candidates@,
            forall|a: Ipv4|
                candidates@.contains(a) ==> run.status_of(a) == Some(
                    match first_outcome(outcomes@.take(k as int), a) {
                        None => ProbeStatus::Pending,
                        Some(true) => ProbeStatus::Up,
                        Some(false) => ProbeStatus::Down,
                    },
                ),
        decreases outcomes.len() - k,
    {
        let o: ProbeOutcome = outcomes[k];
        let ghost before = run;
        run.record(o.addr, o.replied);
        proof {
            let shorter = outcomes@.take(k as int);
            let longer = outcomes@.take(k + 1);
            assert(longer.drop_last() =~= shorter);
            assert(longer.last() == o);
            assert forall|a: Ipv4| candidates@.contains(a) implies run.status_of(a) == Some(
                match first_outcome(longer, a) {
                    None => ProbeStatus::Pending,
                    Some(true) => ProbeStatus::Up,
                    Some(false) => ProbeStatus::Down,
                },
            ) by {
                assert(before.status_of(a) == Some(
                    match first_outcome(shorter, a) {
                        None => ProbeStatus::Pending,
                        Some(true) => ProbeStatus::Up,
                        Some(false) => ProbeStatus::Down,
                    },
                ));
            }
        }
        k = k + 1;
    }
    assert(outcomes@.take(outcomes.len() as int) =~= outcomes@);
    let r = run.live();
    proof {
        lemma_ascending_members(
            r@,
            Set::new(|a: Ipv4| replied_first(candidates@, outcomes@, a)),
        );
    }
    r
}

} // verus!
