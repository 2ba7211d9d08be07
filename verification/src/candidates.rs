//! The candidate addresses of one discovery run: a set of IPv4 addresses kept
//! in ascending order, made from an address block or from a list.

use crate::addr::Ipv4;
use crate::block::{
    address_run, block_hosts, block_size, broadcast_of, lemma_block_bounds, network_of,
};
use vstd::arithmetic::power2::{lemma2_to64, lemma_pow2_strictly_increases, pow2};
use vstd::prelude::*;

verus! {

/// Each address is numerically below the next: ascending, nothing twice.
pub open spec fn strictly_ascending(s: Seq<Ipv4>) -> bool {
    forall|i: int, j: int| 0 <= i < j < s.len() ==> s[i].bits < s[j].bits
}

/// The candidates of the block `base/prefix`: every address of the block
/// except its network and broadcast addresses, lowest first. A block of one
/// or two addresses has none.
pub open spec fn candidate_addresses(base: Ipv4, prefix: u8) -> Seq<Ipv4> {
    if prefix >= 31 {
        Seq::empty()
    } else {
        address_run(network_of(base.bits, prefix) + 1, broadcast_of(base.bits, prefix) - 1)
    }
}

/// Whether `s` lists exactly the addresses of `members` in ascending order.
pub open spec fn lists_ascending(s: Seq<Ipv4>, members: Set<Ipv4>) -> bool {
    strictly_ascending(s) && forall|a: Ipv4| s.contains(a) <==> members.contains(a)
}

/// The addresses of a finite set in ascending order.
pub open spec fn ascending_members(members: Set<Ipv4>) -> Seq<Ipv4> {
    choose|s: Seq<Ipv4>| lists_ascending(s, members)
}

/// Two ascending sequences with the same addresses are the same sequence.
pub proof fn lemma_ascending_unique(s: Seq<Ipv4>, t: Seq<Ipv4>)
    requires
        strictly_ascending(s),
        strictly_ascending(t),
        forall|a: Ipv4| s.contains(a) <==> t.contains(a),
    ensures
        s == t,
    decreases s.len(),
{
    if s.len() == 0 {
        if t.len() > 0 {
            assert(t.contains(t[0]));
        }
        assert(s =~= t);
    } else {
        let top = s.last();
        assert(s.contains(top));
        assert(t.contains(top));
        let j = choose|j: int| 0 <= j < t.len() && t[j] == top;
        if j != t.len() - 1 {
            assert(t[j].bits < t.last().bits);
            assert(t.contains(t.last()));
            let i = choose|i: int| 0 <= i < s.len() && s[i] == t.last();
            if i < s.len() - 1 {
                assert(s[i].bits < s.last().bits);
            }
            assert(false);
        }
        let s0 = s.drop_last();
        let t0 = t.drop_last();
        assert forall|a: Ipv4| s0.contains(a) <==> t0.contains(a) by {
            if s0.contains(a) {
                let i = choose|i: int| 0 <= i < s0.len() && s0[i] == a;
                assert(s[i] == a);
                assert(s[i].bits < s.last().bits);
                assert(s.contains(a));
                let k = choose|k: int| 0 <= k < t.len() && t[k] == a;
                assert(k < t.len() - 1);
                assert(t0[k] == a);
            }
            if t0.contains(a) {
                let i = choose|i: int| 0 <= i < t0.len() && t0[i] == a;
                assert(t[i] == a);
                assert(t[i].bits < t.last().bits);
                assert(t.contains(a));
                let k = choose|k: int| 0 <= k < s.len() && s[k] == a;
                assert(k < s.len() - 1);
                assert(s0[k] == a);
            }
        }
        lemma_ascending_unique(s0, t0);
        assert(s =~= s0.push(top));
        assert(t =~= t0.push(top));
    }
}

/// A sequence that lists a set in ascending order is the one that
/// `ascending_members` names.
pub proof fn lemma_ascending_members(s: Seq<Ipv4>, members: Set<Ipv4>)
    requires
        lists_ascending(s, members),
    ensures
        s == ascending_members(members),
{
    lemma_ascending_unique(s, ascending_members(members));
}

/// How many addresses of `s` are numerically below `a`.
pub open spec fn rank_of(s: Seq<Ipv4>, a: Ipv4) -> int
    decreases s.len(),
{
    if s.len() == 0 {
        0
    } else {
        rank_of(s.drop_last(), a) + if s.last().bits < a.bits {
            1int
        } else {
            0int
        }
    }
}

/// In an ascending sequence the addresses below `a` come first: they are
/// those before position `rank_of(s, a)`.
pub proof fn lemma_rank_of(s: Seq<Ipv4>, a: Ipv4)
    requires
        strictly_ascending(s),
    ensures
        0 <= rank_of(s, a) <= s.len(),
        forall|j: int| 0 <= j < rank_of(s, a) ==> s[j].bits < a.bits,
        forall|j: int| rank_of(s, a) <= j < s.len() ==> s[j].bits >= a.bits,
    decreases s.len(),
{
    if s.len() > 0 {
        let front = s.drop_last();
        assert forall|i: int, j: int| 0 <= i < j < front.len() implies front[i].bits
            < front[j].bits by {
            assert(front[i] == s[i]);
            assert(front[j] == s[j]);
        }
        lemma_rank_of(front, a);
        let k = rank_of(front, a);
        assert forall|j: int| 0 <= j < rank_of(s, a) implies s[j].bits < a.bits by {
            if j < front.len() {
                assert(front[j] == s[j]);
                if j >= k {
                    assert(s[j].bits < s.last().bits || j == s.len() - 1);
                }
            }
        }
        assert forall|j: int| rank_of(s, a) <= j < s.len() implies s[j].bits >= a.bits by {
            if j < front.len() {
                assert(front[j] == s[j]);
                if s.last().bits < a.bits {
                    if k < front.len() {
                        assert(front[k].bits >= a.bits);
                        assert(s[k].bits < s.last().bits);
                    }
                }
            }
        }
    }
}

/// A set of candidate addresses in ascending numeric order.
#[derive(Debug)]
pub struct CandidateSet {
    addrs: Vec<Ipv4>,
}

impl View for CandidateSet {
    type V = Seq<Ipv4>;

    closed spec fn view(&self) -> Seq<Ipv4> {
        self.addrs@
    }
}

/// The candidates of a block lie strictly between its network and broadcast
/// addresses, every address between the two is among them, they ascend, and
/// for a prefix length up to 31 there are `2^(32 - prefix) - 2` of them.
pub proof fn lemma_candidates_of_block(base: Ipv4, prefix: u8)
    requires
        prefix <= 32,
    ensures
        strictly_ascending(candidate_addresses(base, prefix)),
        forall|a: Ipv4|
            candidate_addresses(base, prefix).contains(a) <==> network_of(base.bits, prefix)
                < a.bits < broadcast_of(base.bits, prefix),
        !candidate_addresses(base, prefix).contains(Ipv4 { bits: network_of(base.bits, prefix) }),
        !candidate_addresses(base, prefix).contains(
            Ipv4 { bits: broadcast_of(base.bits, prefix) },
        ),
        prefix <= 31 ==> candidate_addresses(base, prefix).len() == pow2((32 - prefix) as nat) - 2,
        prefix == 32 ==> candidate_addresses(base, prefix).len() == 0,
{
    let c = candidate_addresses(base, prefix);
    let net = network_of(base.bits, prefix);
    let bc = broadcast_of(base.bits, prefix);
    lemma_block_bounds(base.bits, prefix);
    lemma2_to64();
    if prefix >= 31 {
        assert(bc - net <= 1);
    } else {
        lemma_pow2_strictly_increases(1, (32 - prefix) as nat);
        assert(block_size(prefix) > 2);
        assert(c.len() == bc - net - 1);
    }
    assert forall|a: Ipv4| c.contains(a) <==> net < a.bits < bc by {
        if net < a.bits < bc {
            assert(prefix < 31);
            let i: int = a.bits - net - 1;
            assert(c[i] == a);
        }
    }
}

impl Clone for CandidateSet {
    fn clone(&self) -> (r: CandidateSet)
        ensures
            r@ == self@,
    {
        CandidateSet { addrs: self.addrs.clone() }
    }
}

impl CandidateSet {
    /// The addresses ascend and none occurs twice.
    pub open spec fn wf(&self) -> bool {
        strictly_ascending(self@)
    }

    /// The set without any address.
    pub fn empty() -> (r: CandidateSet)
        ensures
            r.wf(),
            r@ == Seq::<Ipv4>::empty(),
    {
        CandidateSet { addrs: Vec::new() }
    }

    /// The address block `base/prefix` enumerated in full: every address of
    /// the block except its first (network) and last (broadcast) one.
    pub fn of_block(base: Ipv4, prefix: u8) -> (r: CandidateSet)
        requires
            prefix <= 32,
        ensures
            r.wf(),
            r@ == candidate_addresses(base, prefix),
            forall|a: Ipv4|
                r@.contains(a) <==> network_of(base.bits, prefix) < a.bits < broadcast_of(
                    base.bits,
                    prefix,
                ),
            prefix <= 31 ==> r@.len() == pow2((32 - prefix) as nat) - 2,
    {
        proof {
            lemma_candidates_of_block(base, prefix);
        }
        if prefix >= 31 {
            CandidateSet { addrs: Vec::new() }
        } else {
            CandidateSet { addrs: block_hosts(base.bits, prefix) }
        }
    }

    /// The set of the addresses that occur in `list`, whatever their order and
    /// however often each occurs.
    pub fn from_addresses(list: &Vec<Ipv4>) -> (r: CandidateSet)
        ensures
            r.wf(),
            forall|a: Ipv4| r@.contains(a) <==> list@.contains(a),
            r@ == ascending_members(list@.to_set()),
    {
        let mut set = CandidateSet { addrs: Vec::new() };
        let mut k: usize = 0;
        while k < list.len()
            invariant
                k <= list.len(),
                set.wf(),
                forall|a: Ipv4| set@.contains(a) <==> list@.take(k as int).contains(a),
            decreases list.len() - k,
        {
            let ghost before = set@;
            let item: Ipv4 = list[k];
            set.insert(item);
            proof {
                assert forall|a: Ipv4| set@.contains(a) <==> list@.take(k + 1).contains(a) by {
                    let shorter = list@.take(k as int);
                    let longer = list@.take(k + 1);
                    assert(longer =~= shorter.push(item));
                    if longer.contains(a) {
                        let i = choose|i: int| 0 <= i < longer.len() && longer[i] == a;
                        if i < k {
                            assert(shorter[i] == a);
                        }
                    }
                    if shorter.contains(a) {
                        let i = choose|i: int| 0 <= i < shorter.len() && shorter[i] == a;
                        assert(longer[i] == a);
                    }
                    if a == item {
                        assert(longer[k as int] == a);
                    }
                }
            }
            k = k + 1;
        }
        assert(list@.take(list.len() as int) =~= list@);
        proof {
            lemma_ascending_members(set@, list@.to_set());
        }
        set
    }

    /// How many addresses the set holds.
    pub fn len(&self) -> (n: usize)
        ensures
            n == self@.len(),
    {
        self.addrs.len()
    }

    /// The address at position `i` in ascending order.
    pub fn get(&self, i: usize) -> (a: Ipv4)
        requires
            i < self@.len(),
        ensures
            a == self@[i as int],
    {
        self.addrs[i]
    }

    /// The addresses in ascending order.
    pub fn to_vec(&self) -> (v: Vec<Ipv4>)
        ensures
            v@ == self@,
    {
        self.addrs.clone()
    }

    /// The number of addresses of the set that are numerically below `a`:
    /// where `a` stands, or would stand, in ascending order.
    pub fn rank(&self, a: Ipv4) -> (i: usize)
        requires
            self.wf(),
        ensures
            i == rank_of(self@, a),
            i <= self@.len(),
            forall|j: int| 0 <= j < i ==> self@[j].bits < a.bits,
            forall|j: int| i <= j < self@.len() ==> self@[j].bits >= a.bits,
    {
        let mut lo: usize = 0;
        let mut hi: usize = self.addrs.len();
        while lo < hi
            invariant
                lo <= hi <= self.addrs.len(),
                self.wf(),
                forall|j: int| 0 <= j < lo ==> self@[j].bits < a.bits,
                forall|j: int| hi <= j < self@.len() ==> self@[j].bits >= a.bits,
            decreases hi - lo,
        {
            let mid: usize = lo + (hi - lo) / 2;
            if self.addrs[mid].bits < a.bits {
                lo = mid + 1;
            } else {
                hi = mid;
            }
        }
        proof {
            lemma_rank_of(self@, a);
            let r = rank_of(self@, a);
            if lo < r {
                assert(self@[lo as int].bits < a.bits);
            }
            if r < lo {
                assert(self@[r].bits >= a.bits);
            }
        }
        lo
    }

    /// Where `a` stands in the set, if it is a member.
    pub fn position(&self, a: Ipv4) -> (r: Option<usize>)
        requires
            self.wf(),
        ensures
            r.is_some() == self@.contains(a),
            r.is_some() ==> r.unwrap() < self@.len() && self@[r.unwrap() as int] == a,
    {
        let i: usize = self.rank(a);
        if i < self.addrs.len() && self.addrs[i].bits == a.bits {
            Some(i)
        } else {
            proof {
                if self@.contains(a) {
                    let j = choose|j: int| 0 <= j < self@.len() && self@[j] == a;
                    assert(self@[j].bits == a.bits);
                    if i < self@.len() && j > i {
                        assert(self@[i as int].bits < self@[j].bits);
                    }
                }
            }
            None
        }
    }

    /// Whether `a` is a member of the set.
    pub fn contains(&self, a: Ipv4) -> (r: bool)
        requires
            self.wf(),
        ensures
            r == self@.contains(a),
    {
        self.position(a).is_some()
    }

    /// The addresses that are members of both sets.
    pub fn intersect(&self, other: &CandidateSet) -> (r: CandidateSet)
        requires
            self.wf(),
            other.wf(),
        ensures
            r.wf(),
            forall|a: Ipv4| r@.contains(a) <==> (self@.contains(a) && other@.contains(a)),
            r@ == ascending_members(Set::new(|a: Ipv4| self@.contains(a) && other@.contains(a))),
    {
        let n: usize = self.addrs.len();
        let mut out: Vec<Ipv4> = Vec::new();
        let ghost mut from: Seq<int> = Seq::empty();
        let mut i: usize = 0;
        while i < n
            invariant
                i <= n,
                n == self@.len(),
                self.wf(),
                other.wf(),
                from.len() == out@.len(),
                forall|k: int|
                    0 <= k < out@.len() ==> 0 <= #[trigger] from[k] < i && self@[from[k]] == out@[k]
                        && other@.contains(out@[k]),
                forall|x: int, y: int| 0 <= x < y < from.len() ==> from[x] < from[y],
                forall|j: int|
                    0 <= j < i && other@.contains(self@[j]) ==> out@.contains(#[trigger] self@[j]),
            decreases n - i,
        {
            let a: Ipv4 = self.addrs[i];
            if other.contains(a) {
                let ghost before = out@;
                out.push(a);
                proof {
                    from = from.push(i as int);
                    assert forall|j: int|
                        0 <= j < i + 1 && other@.contains(self@[j]) implies out@.contains(
                        #[trigger] self@[j],
                    ) by {
                        if j < i {
                            assert(before.contains(self@[j]));
                            let k = choose|k: int| 0 <= k < before.len() && before[k] == self@[j];
                            assert(out@[k] == self@[j]);
                        } else {
                            assert(out@[before.len() as int] == self@[j]);
                        }
                    }
                }
            }
            i = i + 1;
        }
        let r = CandidateSet { addrs: out };
        proof {
            assert forall|x: int, y: int| 0 <= x < y < r@.len() implies r@[x].bits
                < r@[y].bits by {
                assert(from[x] < from[y]);
                assert(self@[from[x]].bits < self@[from[y]].bits);
            }
            assert forall|a: Ipv4| r@.contains(a) <==> (self@.contains(a) && other@.contains(
                a,
            )) by {
                if r@.contains(a) {
                    let k = choose|k: int| 0 <= k < r@.len() && r@[k] == a;
                    assert(self@[from[k]] == a);
                }
                if self@.contains(a) && other@.contains(a) {
                    let j = choose|j: int| 0 <= j < self@.len() && self@[j] == a;
                    assert(r@.contains(self@[j]));
                }
            }
            lemma_ascending_members(
                r@,
                Set::new(|a: Ipv4| self@.contains(a) && other@.contains(a)),
            );
        }
        r
    }

    /// Adds `a` to the set; a member already there is not added again.
    /// Returns whether the set grew.
    pub fn insert(&mut self, a: Ipv4) -> (added: bool)
        requires
            old(self).wf(),
        ensures
            final(self).wf(),
            added == !old(self)@.contains(a),
            forall|b: Ipv4| final(self)@.contains(b) <==> (old(self)@.contains(b) || b == a),
            final(self)@.len() == old(self)@.len() + if added {
                1int
            } else {
                0int
            },
    {
        let i: usize = self.rank(a);
        if i < self.addrs.len() && self.addrs[i].bits == a.bits {
            proof {
                assert(self@[i as int] == a);
            }
            false
        } else {
            let ghost before = self@;
            proof {
                if before.contains(a) {
                    let j = choose|j: int| 0 <= j < before.len() && before[j] == a;
                    if i < before.len() && j > i {
                        assert(before[i as int].bits < before[j].bits);
                    }
                }
            }
            self.addrs.insert(i, a);
            proof {
                let after = self@;
                assert(after =~= before.insert(i as int, a));
                assert forall|x: int, y: int| 0 <= x < y < after.len() implies after[x].bits
                    < after[y].bits by {
                    let bx: int = if x < i {
                        x
                    } else {
                        x - 1
                    };
                    let by: int = if y < i {
                        y
                    } else {
                        y - 1
                    };
                    if x != i && y != i {
                        assert(after[x] == before[bx]);
                        assert(after[y] == before[by]);
                    } else if x == i {
                        assert(after[y] == before[by]);
                    } else {
                        assert(after[x] == before[bx]);
                    }
                }
                assert forall|b: Ipv4| after.contains(b) <==> (before.contains(b) || b == a) by {
                    if after.contains(b) {
                        let x = choose|x: int| 0 <= x < after.len() && after[x] == b;
                        if x < i {
                            assert(before[x] == b);
                        } else if x > i {
                            assert(before[x - 1] == b);
                        }
                    }
                    if before.contains(b) {
                        let x = choose|x: int| 0 <= x < before.len() && before[x] == b;
                        if x < i {
                            assert(after[x] == b);
                        } else {
                            assert(after[x + 1] == b);
                        }
                    }
                    if b == a {
                        assert(after[i as int] == b);
                    }
                }
            }
            true
        }
    }
}

/// Enumerates the candidate addresses of the block `base/prefix`: all of its
/// addresses but the network and the broadcast address, in ascending order.
pub fn enumerate_candidates(base: Ipv4, prefix: u8) -> (r: CandidateSet)
    requires
        prefix <= 32,
    ensures
        r.wf(),
        r@ == candidate_addresses(base, prefix),
        forall|a: Ipv4|
            r@.contains(a) <==> network_of(base.bits, prefix) < a.bits < broadcast_of(
                base.bits,
                prefix,
            ),
        prefix <= 31 ==> r@.len() == pow2((32 - prefix) as nat) - 2,
{
    CandidateSet::of_block(base, prefix)
}

} // verus!
