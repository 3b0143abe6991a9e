//! The fan-out broadcaster: one bounded delivery queue per connected
//! subscriber. Publishing replicates a line to every queue; a
//! subscriber over its bound loses its oldest undelivered line, and
//! only that subscriber, so one slow peer never stalls the others.
//! Delivery is per-subscriber FIFO; a subscriber joining after a line
//! was published never sees it. Membership lives only in this value —
//! nothing is persisted.

use vstd::prelude::*;

verus! {

/// What one subscriber looks like in contracts: its identity, its
/// undelivered lines oldest first, and how many lines overflow has
/// cost it.
pub struct SubView {
    pub id: u64,
    pub queue: Seq<Seq<char>>,
    pub dropped: u64,
}

/// One subscriber's bounded delivery queue.
struct Subscriber {
    id: u64,
    queue: Vec<String>,
    dropped: u64,
}

impl View for Subscriber {
    type V = SubView;

    closed spec fn view(&self) -> SubView {
        SubView { id: self.id, queue: self.queue.deep_view(), dropped: self.dropped }
    }
}

/// A counter that sticks at its ceiling instead of wrapping.
pub open spec fn sat_inc(n: u64) -> u64 {
    if n == u64::MAX {
        n
    } else {
        (n + 1) as u64
    }
}

/// A subscriber after one published line: the line is appended when
/// the queue is below the bound; otherwise the oldest line makes room
/// and the loss is counted.
pub open spec fn publish_one(s: SubView, cap: nat, m: Seq<char>) -> SubView {
    if s.queue.len() < cap {
        SubView { id: s.id, queue: s.queue.push(m), dropped: s.dropped }
    } else {
        SubView { id: s.id, queue: s.queue.drop_first().push(m), dropped: sat_inc(s.dropped) }
    }
}

/// Well-formed subscribers under a queue bound: every queue within the
/// bound, and identities unique and below the next fresh one.
pub open spec fn subs_wf(v: Seq<SubView>, cap: nat, next: u64) -> bool {
    &&& (forall|i: int| 0 <= i < v.len() ==> v[i].queue.len() <= cap)
    &&& (forall|i: int, j: int| 0 <= i < j < v.len() ==> v[i].id != v[j].id)
    &&& (forall|i: int| 0 <= i < v.len() ==> v[i].id < next)
}

proof fn lemma_wf_remove(v: Seq<SubView>, cap: nat, next: u64, k: int)
    requires
        subs_wf(v, cap, next),
        0 <= k < v.len(),
    ensures
        subs_wf(v.remove(k), cap, next),
{
    let w = v.remove(k);
    assert forall|i: int| 0 <= i < w.len() implies w[i].queue.len() <= cap && w[i].id < next by {
        if i < k {
            assert(w[i] == v[i]);
        } else {
            assert(w[i] == v[i + 1]);
        }
    }
    assert forall|i: int, j: int| 0 <= i < j < w.len() implies w[i].id != w[j].id by {
        let i0: int = if i < k {
            i
        } else {
            i + 1
        };
        let j0: int = if j < k {
            j
        } else {
            j + 1
        };
        assert(w[i] == v[i0]);
        assert(w[j] == v[j0]);
    }
}

proof fn lemma_wf_update(v: Seq<SubView>, cap: nat, next: u64, k: int, s: SubView)
    requires
        subs_wf(v, cap, next),
        0 <= k < v.len(),
        s.id == v[k].id,
        s.queue.len() <= cap,
    ensures
        subs_wf(v.update(k, s), cap, next),
{
}

/// The distribution point of one hosted channel: the currently
/// connected subscribers, in subscription order.
pub struct BroadcastGroup {
    capacity: usize,
    subs: Vec<Subscriber>,
    next_id: u64,
}

impl View for BroadcastGroup {
    type V = Seq<SubView>;

    closed spec fn view(&self) -> Seq<SubView> {
        Seq::new(self.subs@.len(), |i: int| self.subs@[i]@)
    }
}

impl BroadcastGroup {
    /// The bound every subscriber's queue shares.
    pub closed spec fn spec_capacity(&self) -> nat {
        self.capacity as nat
    }

    /// The identity the next subscriber will get.
    pub closed spec fn spec_next_id(&self) -> u64 {
        self.next_id
    }

    /// Well-formed: a positive bound and well-formed subscribers under
    /// it.
    pub open spec fn wf(&self) -> bool {
        &&& self.spec_capacity() > 0
        &&& subs_wf(self@, self.spec_capacity(), self.spec_next_id())
    }

    /// Whether some current subscriber carries this identity.
    pub open spec fn has_sub(&self, id: u64) -> bool {
        exists|i: int| 0 <= i < self@.len() && self@[i].id == id
    }

    /// A group with no subscribers and the given queue bound.
    pub fn new(capacity: usize) -> (g: BroadcastGroup)
        requires
            capacity >= 1,
        ensures
            g.wf(),
            g@ == Seq::<SubView>::empty(),
            g.spec_capacity() == capacity,
    {
        let g = BroadcastGroup { capacity, subs: Vec::new(), next_id: 0 };
        proof {
            assert(g@ =~= Seq::<SubView>::empty());
        }
        g
    }

    /// The queue bound.
    pub fn capacity(&self) -> (c: usize)
        ensures
            c == self.spec_capacity(),
    {
        self.capacity
    }

    /// How many subscribers are connected.
    pub fn subscriber_count(&self) -> (n: usize)
        ensures
            n == self@.len(),
    {
        self.subs.len()
    }

    /// Connect a new subscriber: it gets a fresh identity and an empty
    /// queue, so it sees nothing published before it joined.
    pub fn subscribe(&mut self) -> (id: u64)
        requires
            old(self).wf(),
            old(self).spec_next_id() < u64::MAX,
        ensures
            final(self).wf(),
            !old(self).has_sub(id),
            final(self)@ == old(self)@.push(SubView { id, queue: Seq::empty(), dropped: 0 }),
            final(self).spec_capacity() == old(self).spec_capacity(),
            final(self).spec_next_id() == id + 1,
    {
        let id = self.next_id;
        self.next_id = id + 1;
        self.subs.push(Subscriber { id, queue: Vec::new(), dropped: 0 });
        proof {
            let s = SubView { id, queue: Seq::empty(), dropped: 0 };
            assert(self.subs@.last()@.queue =~= s.queue);
            assert(self@ =~= old(self)@.push(s));
        }
        id
    }

    /// Disconnect the subscriber with this identity, keeping the order
    /// of the others; report whether it was connected at all.
    pub fn unsubscribe(&mut self, id: u64) -> (found: bool)
        requires
            old(self).wf(),
        ensures
            final(self).wf(),
            found <==> old(self).has_sub(id),
            found ==> exists|i: int|
                #![auto]
                0 <= i < old(self)@.len() && old(self)@[i].id == id && final(self)@ == old(
                    self,
                )@.remove(i),
            !found ==> final(self)@ == old(self)@,
            final(self).spec_capacity() == old(self).spec_capacity(),
            final(self).spec_next_id() == old(self).spec_next_id(),
    {
        let n = self.subs.len();
        let mut k: usize = 0;
        while k < n
            invariant
                old(self).wf(),
                n == self.subs@.len(),
                0 <= k <= n,
                self.subs@ == old(self).subs@,
                self.capacity == old(self).capacity,
                self.next_id == old(self).next_id,
                forall|j: int| 0 <= j < k ==> self@[j].id != id,
            decreases n - k,
        {
            if self.subs[k].id == id {
                proof {
                    assert(old(self)@[k as int].id == id);
                }
                self.subs.remove(k);
                proof {
                    assert(self@ =~= old(self)@.remove(k as int));
                    lemma_wf_remove(
                        old(self)@,
                        old(self).spec_capacity(),
                        old(self).spec_next_id(),
                        k as int,
                    );
                }
                return true;
            }
            k += 1;
        }
        proof {
            assert(self@ =~= old(self)@);
        }
        false
    }

    /// Whether another subscriber can still be given a fresh identity.
    pub fn can_subscribe(&self) -> (r: bool)
        ensures
            r == (self.spec_next_id() < u64::MAX),
    {
        self.next_id < u64::MAX
    }

    /// Publish one line: every subscriber's queue takes it, each under
    /// the drop-oldest overflow policy, independently of the others.
    pub fn publish(&mut self, msg: &str)
        requires
            old(self).wf(),
        ensures
            final(self).wf(),
            final(self)@.len() == old(self)@.len(),
            forall|i: int|
                0 <= i < old(self)@.len() ==> final(self)@[i] == publish_one(
                    old(self)@[i],
                    old(self).spec_capacity(),
                    msg@,
                ),
            final(self).spec_capacity() == old(self).spec_capacity(),
            final(self).spec_next_id() == old(self).spec_next_id(),
    {
        let skip = self.next_id;
        self.publish_except(msg, skip);
        proof {
            assert forall|i: int| 0 <= i < old(self)@.len() implies self@[i] == publish_one(
                old(self)@[i],
                old(self).spec_capacity(),
                msg@,
            ) by {
                assert(old(self)@[i].id < old(self).spec_next_id());
            }
        }
    }

    /// Fan one line out to every subscriber but the one it came from:
    /// the origin's own queue stays untouched, every other queue takes
    /// the line under the drop-oldest overflow policy.
    pub fn publish_except(&mut self, msg: &str, skip: u64)
        requires
            old(self).wf(),
        ensures
            final(self).wf(),
            final(self)@.len() == old(self)@.len(),
            forall|i: int|
                0 <= i < old(self)@.len() ==> final(self)@[i] == (if old(self)@[i].id == skip {
                    old(self)@[i]
                } else {
                    publish_one(old(self)@[i], old(self).spec_capacity(), msg@)
                }),
            final(self).spec_capacity() == old(self).spec_capacity(),
            final(self).spec_next_id() == old(self).spec_next_id(),
    {
        let n = self.subs.len();
        let mut k: usize = 0;
        while k < n
            invariant
                old(self).wf(),
                n == self.subs@.len(),
                n == old(self)@.len(),
                0 <= k <= n,
                self.capacity == old(self).capacity,
                self.next_id == old(self).next_id,
                forall|i: int|
                    0 <= i < k ==> self@[i] == (if old(self)@[i].id == skip {
                        old(self)@[i]
                    } else {
                        publish_one(old(self)@[i], old(self).spec_capacity(), msg@)
                    }),
                forall|i: int| k <= i < n ==> self@[i] == old(self)@[i],
            decreases n - k,
        {
            if self.subs[k].id == skip {
                proof {
                    assert(self@[k as int].id == skip);
                }
                k += 1;
                continue ;
            }
            proof {
                assert(self@[k as int].id != skip);
            }
            let ghost prev = self@;
            let mut sub = self.subs.remove(k);
            let ghost subpre = sub@;
            proof {
                assert(subpre == prev[k as int]);
                assert(subpre == old(self)@[k as int]);
                assert(old(self)@[k as int].queue.len() <= old(self).spec_capacity());
                assert(subpre.queue.len() <= old(self).spec_capacity());
            }
            if sub.queue.len() == self.capacity {
                sub.queue.remove(0);
                sub.dropped = if sub.dropped == u64::MAX {
                    u64::MAX
                } else {
                    sub.dropped + 1
                };
                proof {
                    assert(sub@.queue =~= subpre.queue.drop_first());
                }
            }
            let line = msg.to_owned();
            let ghost mid = sub@;
            sub.queue.push(line);
            proof {
                assert(sub@.queue =~= mid.queue.push(msg@));
                assert(sub@ == publish_one(subpre, old(self).spec_capacity(), msg@));
            }
            self.subs.insert(k, sub);
            proof {
                assert(self@ =~= prev.update(k as int, sub@));
            }
            k += 1;
        }
        proof {
            assert(subs_wf(self@, self.spec_capacity(), self.spec_next_id()));
        }
    }

    /// Deliver the oldest undelivered line of the subscriber with this
    /// identity, if it has one; an unknown identity or an empty queue
    /// delivers nothing and changes nothing.
    pub fn pop(&mut self, id: u64) -> (r: Option<String>)
        requires
            old(self).wf(),
        ensures
            final(self).wf(),
            !old(self).has_sub(id) ==> r is None && final(self)@ == old(self)@,
            old(self).has_sub(id) ==> exists|i: int|
                #![auto]
                0 <= i < old(self)@.len() && old(self)@[i].id == id && ({
                    let s = old(self)@[i];
                    if s.queue.len() == 0 {
                        r is None && final(self)@ == old(self)@
                    } else {
                        (r matches Some(m) && m@ == s.queue[0]) && final(self)@ == old(
                            self,
                        )@.update(
                            i,
                            (SubView { id: s.id, queue: s.queue.drop_first(), dropped: s.dropped }),
                        )
                    }
                }),
            final(self).spec_capacity() == old(self).spec_capacity(),
            final(self).spec_next_id() == old(self).spec_next_id(),
    {
        let n = self.subs.len();
        let mut k: usize = 0;
        while k < n
            invariant
                old(self).wf(),
                n == self.subs@.len(),
                0 <= k <= n,
                self.subs@ == old(self).subs@,
                self.capacity == old(self).capacity,
                self.next_id == old(self).next_id,
                forall|j: int| 0 <= j < k ==> self@[j].id != id,
            decreases n - k,
        {
            if self.subs[k].id == id {
                proof {
                    assert(self@ =~= old(self)@);
                    assert(old(self)@[k as int].id == id);
                }
                let ghost prev = self@;
                let mut sub = self.subs.remove(k);
                let ghost subpre = sub@;
                proof {
                    assert(subpre == old(self)@[k as int]);
                }
                if sub.queue.is_empty() {
                    self.subs.insert(k, sub);
                    proof {
                        assert(subpre.queue.len() == 0);
                        assert(self@ =~= old(self)@);
                    }
                    return None;
                }
                let m = sub.queue.remove(0);
                proof {
                    assert(sub@.queue =~= subpre.queue.drop_first());
                }
                self.subs.insert(k, sub);
                proof {
                    let s2 = SubView {
                        id: subpre.id,
                        queue: subpre.queue.drop_first(),
                        dropped: subpre.dropped,
                    };
                    assert(sub@ == s2);
                    assert(self@ =~= old(self)@.update(k as int, s2));
                    lemma_wf_update(
                        old(self)@,
                        old(self).spec_capacity(),
                        old(self).spec_next_id(),
                        k as int,
                        s2,
                    );
                }
                return Some(m);
            }
            k += 1;
        }
        proof {
            assert(self@ =~= old(self)@);
        }
        None
    }

    /// How many lines overflow has cost the subscriber with this
    /// identity, if it is connected.
    pub fn dropped_of(&self, id: u64) -> (r: Option<u64>)
        ensures
            !self.has_sub(id) ==> r is None,
            self.has_sub(id) ==> exists|i: int|
                #![auto]
                0 <= i < self@.len() && self@[i].id == id && r == Some(self@[i].dropped),
    {
        let n = self.subs.len();
        let mut k: usize = 0;
        while k < n
            invariant
                n == self.subs@.len(),
                0 <= k <= n,
                forall|j: int| 0 <= j < k ==> self@[j].id != id,
            decreases n - k,
        {
            if self.subs[k].id == id {
                proof {
                    assert(self@[k as int].id == id);
                }
                return Some(self.subs[k].dropped);
            }
            k += 1;
        }
        None
    }
}

} // verus!
