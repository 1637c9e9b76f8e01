//! The shared market-data buffer: for each instrument, the most recent
//! ticks, in arrival order, in a fixed-capacity ring.
//!
//! Appending is constant-time: once an instrument's ring is full, each
//! new tick overwrites the oldest one — the buffer never blocks and never
//! fails, it only drops the oldest data under backpressure. Snapshots are
//! point-in-time copies; an instrument never seen yields the empty
//! sequence. Instruments are never removed and the capacity is fixed at
//! construction.

use crate::tick::Tick;
use vstd::prelude::*;

verus! {

/// One append to a full buffer evicts the oldest tick; below capacity it
/// just appends.
pub open spec fn evict_push(s: Seq<Tick>, t: Tick, cap: nat) -> Seq<Tick> {
    if s.len() < cap {
        s.push(t)
    } else {
        s.drop_first().push(t)
    }
}

/// The buffer contents after a whole sequence of appends, oldest first,
/// into one instrument's ring of capacity `cap`.
pub open spec fn fold_appends(ts: Seq<Tick>, cap: nat) -> Seq<Tick>
    decreases ts.len(),
{
    if ts.len() == 0 {
        Seq::empty()
    } else {
        evict_push(fold_appends(ts.drop_last(), cap), ts.last(), cap)
    }
}

/// One more append extends the fold: this chains `append`'s contract
/// into `fold_appends`, one tick at a time.
pub proof fn lemma_fold_appends_step(ts: Seq<Tick>, t: Tick, cap: nat)
    ensures
        fold_appends(ts.push(t), cap) == evict_push(fold_appends(ts, cap), t, cap),
{
    assert(ts.push(t).drop_last() =~= ts);
}

/// After any sequence of appends to one instrument, the ring holds
/// exactly the most recent `min(appends, cap)` ticks, in arrival order.
pub proof fn lemma_fold_appends_window(ts: Seq<Tick>, cap: nat)
    requires
        cap >= 1,
    ensures
        fold_appends(ts, cap).len() == (if ts.len() <= cap {
            ts.len()
        } else {
            cap
        }),
        fold_appends(ts, cap) =~= ts.subrange(
            ts.len() - (if ts.len() <= cap {
                ts.len()
            } else {
                cap
            }),
            ts.len() as int,
        ),
    decreases ts.len(),
{
    if ts.len() > 0 {
        lemma_fold_appends_window(ts.drop_last(), cap);
        assert(ts.drop_last() =~= ts.subrange(0, ts.len() - 1));
        let prev = fold_appends(ts.drop_last(), cap);
        let keep: int = if ts.len() <= cap {
            ts.len() as int
        } else {
            cap as int
        };
        assert(evict_push(prev, ts.last(), cap) =~= ts.subrange(ts.len() - keep, ts.len() as int));
    }
}

/// One instrument's ring: a fixed-capacity circular store of its most
/// recent ticks.
pub struct InstrumentRing {
    pub id: String,
    cap: usize,
    ring: Vec<Tick>,
    head: usize,
}

impl View for InstrumentRing {
    type V = Seq<Tick>;

    /// The stored ticks, oldest first.
    closed spec fn view(&self) -> Seq<Tick> {
        if self.ring@.len() < self.cap {
            self.ring@
        } else {
            self.ring@.subrange(self.head as int, self.ring@.len() as int) + self.ring@.subrange(
                0,
                self.head as int,
            )
        }
    }
}

impl InstrumentRing {
    pub closed spec fn wf(&self) -> bool {
        &&& self.cap >= 1
        &&& self.ring@.len() <= self.cap
        &&& (self.ring@.len() < self.cap ==> self.head == 0)
        &&& (self.ring@.len() == self.cap ==> self.head < self.cap)
    }

    pub closed spec fn spec_cap(&self) -> nat {
        self.cap as nat
    }

    /// The instrument this ring belongs to.
    pub closed spec fn spec_id(&self) -> Seq<char> {
        self.id@
    }

    /// An empty ring for one instrument.
    pub fn new(id: String, cap: usize) -> (r: Self)
        requires
            cap >= 1,
        ensures
            r.wf(),
            r@ =~= Seq::<Tick>::empty(),
            r.spec_id() == id@,
            r.spec_cap() == cap,
    {
        InstrumentRing { id, cap, ring: Vec::new(), head: 0 }
    }

    /// Appends one tick, evicting the oldest when full.
    pub fn append(&mut self, t: Tick)
        requires
            old(self).wf(),
        ensures
            final(self).wf(),
            final(self).spec_id() == old(self).spec_id(),
            final(self).spec_cap() == old(self).spec_cap(),
            final(self)@ == evict_push(old(self)@, t, old(self).spec_cap()),
    {
        if self.ring.len() < self.cap {
            self.ring.push(t);
            assert(self@ =~= evict_push(old(self)@, t, old(self).spec_cap()));
        } else {
            self.ring.set(self.head, t);
            self.head = if self.head + 1 == self.cap {
                0
            } else {
                self.head + 1
            };
            assert(self@ =~= evict_push(old(self)@, t, old(self).spec_cap()));
        }
    }

    /// The stored ticks, oldest first, as a fresh vector.
    pub fn snapshot_ticks(&self) -> (out: Vec<Tick>)
        requires
            self.wf(),
        ensures
            out@ == self@,
    {
        let mut out: Vec<Tick> = Vec::new();
        let n = self.ring.len();
        let mut k: usize = 0;
        while k < n
            invariant
                self.wf(),
                n == self.ring@.len(),
                k <= n,
                out@ =~= self@.subrange(0, k as int),
            decreases n - k,
        {
            let idx: usize = if k < n - self.head {
                self.head + k
            } else {
                k - (n - self.head)
            };
            assert(self@[k as int] == self.ring@[idx as int]);
            let t = (&self.ring[idx]).clone();
            out.push(t);
            k = k + 1;
            assert(out@ =~= self@.subrange(0, k as int));
        }
        assert(out@ =~= self@);
        out
    }
}

/// First position of the instrument in the entry list, or `-1`.
pub closed spec fn find_idx(s: Seq<InstrumentRing>, id: Seq<char>) -> int
    decreases s.len(),
{
    if s.len() == 0 {
        -1
    } else if s[0].id@ == id {
        0
    } else {
        let r = find_idx(s.drop_first(), id);
        if r == -1 {
            -1
        } else {
            1 + r
        }
    }
}

proof fn lemma_find_idx(s: Seq<InstrumentRing>, id: Seq<char>)
    ensures
        -1 <= find_idx(s, id) < s.len(),
        find_idx(s, id) != -1 ==> s[find_idx(s, id)].id@ == id,
        forall|j: int| 0 <= j < find_idx(s, id) ==> (#[trigger] s[j]).id@ != id,
        find_idx(s, id) == -1 ==> (forall|j: int| 0 <= j < s.len() ==> (#[trigger] s[j]).id@ != id),
    decreases s.len(),
{
    if s.len() > 0 && s[0].id@ != id {
        let t = s.drop_first();
        lemma_find_idx(t, id);
        let r = find_idx(t, id);
        if r != -1 {
            assert(s[1 + r] == t[r]);
            assert forall|j: int| 0 <= j < find_idx(s, id) implies (#[trigger] s[j]).id@ != id by {
                if j >= 1 {
                    assert(s[j] == t[j - 1]);
                }
            }
        } else {
            assert forall|j: int| 0 <= j < s.len() implies (#[trigger] s[j]).id@ != id by {
                if j >= 1 {
                    assert(s[j] == t[j - 1]);
                }
            }
        }
    }
}

proof fn lemma_find_idx_update(s: Seq<InstrumentRing>, i: int, r: InstrumentRing, id: Seq<char>)
    requires
        0 <= i < s.len(),
        r.id@ == s[i].id@,
    ensures
        find_idx(s.update(i, r), id) == find_idx(s, id),
    decreases s.len(),
{
    if s.len() > 0 {
        if i == 0 {
            assert(s.update(0, r)[0] == r);
            if s[0].id@ != id {
                assert(s.update(0, r).drop_first() =~= s.drop_first());
            }
        } else {
            assert(s.update(i, r)[0] == s[0]);
            if s[0].id@ != id {
                assert(s.update(i, r).drop_first() =~= s.drop_first().update(i - 1, r));
                lemma_find_idx_update(s.drop_first(), i - 1, r, id);
            }
        }
    }
}

proof fn lemma_find_idx_push(s: Seq<InstrumentRing>, r: InstrumentRing, id: Seq<char>)
    ensures
        find_idx(s.push(r), id) == (if find_idx(s, id) != -1 {
            find_idx(s, id)
        } else if r.id@ == id {
            s.len() as int
        } else {
            -1int
        }),
    decreases s.len(),
{
    if s.len() == 0 {
        assert(s.push(r)[0] == r);
        if r.id@ != id {
            assert(s.push(r).drop_first() =~= Seq::<InstrumentRing>::empty());
            assert(find_idx(s.push(r).drop_first(), id) == -1);
        }
    } else {
        assert(s.push(r)[0] == s[0]);
        if s[0].id@ != id {
            assert(s.push(r).drop_first() =~= s.drop_first().push(r));
            assert(find_idx(s.push(r).drop_first(), id) == find_idx(s.drop_first().push(r), id));
            lemma_find_idx_push(s.drop_first(), r, id);
            lemma_find_idx(s.drop_first(), id);
            lemma_find_idx(s.drop_first().push(r), id);
        }
    }
}

/// The process-wide market-data buffer: one bounded ring per instrument,
/// every ring with the same fixed capacity.
pub struct TickBuffer {
    cap: usize,
    entries: Vec<InstrumentRing>,
}

impl TickBuffer {
    pub closed spec fn wf(&self) -> bool {
        &&& self.cap >= 1
        &&& (forall|i: int|
            0 <= i < self.entries@.len() ==> (#[trigger] self.entries@[i]).wf())
        &&& (forall|i: int|
            0 <= i < self.entries@.len() ==> (#[trigger] self.entries@[i]).spec_cap()
                == self.cap)
    }

    pub closed spec fn spec_cap(&self) -> nat {
        self.cap as nat
    }

    /// The buffered ticks of one instrument, oldest first; empty when the
    /// instrument has never been seen.
    pub closed spec fn spec_ticks(&self, id: Seq<char>) -> Seq<Tick> {
        let i = find_idx(self.entries@, id);
        if i == -1 {
            Seq::empty()
        } else {
            self.entries@[i]@
        }
    }

    /// An empty buffer in which every ring will hold at most `cap` ticks.
    pub fn new(cap: usize) -> (r: Self)
        requires
            cap >= 1,
        ensures
            r.wf(),
            r.spec_cap() == cap,
            forall|id: Seq<char>| #[trigger] r.spec_ticks(id) =~= Seq::<Tick>::empty(),
    {
        let r = TickBuffer { cap, entries: Vec::new() };
        proof {
            assert forall|id: Seq<char>| #[trigger]
                r.spec_ticks(id) =~= Seq::<Tick>::empty() by {
                lemma_find_idx(r.entries@, id);
            }
        }
        r
    }

    /// The fixed per-instrument capacity.
    pub fn capacity(&self) -> (c: usize)
        ensures
            c == self.spec_cap(),
    {
        self.cap
    }

    /// Appends one tick to its instrument's ring, evicting that ring's
    /// oldest tick when it is at capacity; other instruments' ticks are
    /// untouched. Never fails.
    pub fn append(&mut self, tick: Tick)
        requires
            old(self).wf(),
        ensures
            final(self).wf(),
            final(self).spec_cap() == old(self).spec_cap(),
            final(self).spec_ticks(tick.product_id@) == evict_push(
                old(self).spec_ticks(tick.product_id@),
                tick,
                old(self).spec_cap(),
            ),
            forall|id: Seq<char>|
                id != tick.product_id@ ==> #[trigger] final(self).spec_ticks(id) == old(
                    self,
                ).spec_ticks(id),
    {
        proof {
            lemma_find_idx(self.entries@, tick.product_id@);
        }
        let n = self.entries.len();
        let mut i: usize = 0;
        while i < n
            invariant
                n == self.entries@.len(),
                old(self) == self,
                i <= n,
                forall|j: int| 0 <= j < i ==> (#[trigger] self.entries@[j]).id@
                    != tick.product_id@,
            ensures
                old(self) == self,
                i <= n,
                i < n ==> self.entries@[i as int].id@ == tick.product_id@,
                forall|j: int| 0 <= j < i ==> (#[trigger] self.entries@[j]).id@
                    != tick.product_id@,
            decreases n - i,
        {
            if self.entries[i].id == tick.product_id {
                break ;
            }
            i = i + 1;
        }
        proof {
            lemma_find_idx(self.entries@, tick.product_id@);
            if i < n {
                assert(find_idx(self.entries@, tick.product_id@) == i);
            } else {
                assert(find_idx(self.entries@, tick.product_id@) == -1);
            }
        }
        let ghost key = tick.product_id@;
        let ghost old_entries = self.entries@;
        if i < n {
            let ring = &mut self.entries[i];
            ring.append(tick);
            proof {
                lemma_find_idx_update(old_entries, i as int, self.entries@[i as int], key);
                assert(self.entries@ =~= old_entries.update(i as int, self.entries@[i as int]));
                assert forall|id: Seq<char>| id != key implies #[trigger] self.spec_ticks(id)
                    == old(self).spec_ticks(id) by {
                    lemma_find_idx_update(old_entries, i as int, self.entries@[i as int], id);
                    lemma_find_idx(old_entries, id);
                }
            }
        } else {
            let mut ring = InstrumentRing::new(tick.product_id.clone(), self.cap);
            ring.append(tick);
            self.entries.push(ring);
            proof {
                lemma_find_idx_push(old_entries, self.entries@[n as int], key);
                assert forall|id: Seq<char>| id != key implies #[trigger] self.spec_ticks(id)
                    == old(self).spec_ticks(id) by {
                    lemma_find_idx_push(old_entries, self.entries@[n as int], id);
                    lemma_find_idx(old_entries, id);
                }
            }
        }
    }

    /// A point-in-time copy of one instrument's buffered ticks, oldest
    /// first; empty if the instrument has never been seen.
    pub fn snapshot(&self, id: &String) -> (out: Vec<Tick>)
        requires
            self.wf(),
        ensures
            out@ == self.spec_ticks(id@),
    {
        proof {
            lemma_find_idx(self.entries@, id@);
        }
        let n = self.entries.len();
        let mut i: usize = 0;
        while i < n
            invariant
                n == self.entries@.len(),
                self.wf(),
                i <= n,
                forall|j: int| 0 <= j < i ==> (#[trigger] self.entries@[j]).id@ != id@,
            ensures
                i <= n,
                i < n ==> self.entries@[i as int].id@ == id@,
                forall|j: int| 0 <= j < i ==> (#[trigger] self.entries@[j]).id@ != id@,
            decreases n - i,
        {
            if self.entries[i].id == *id {
                break ;
            }
            i = i + 1;
        }
        proof {
            lemma_find_idx(self.entries@, id@);
            if i < n {
                assert(find_idx(self.entries@, id@) == i);
            } else {
                assert(find_idx(self.entries@, id@) == -1);
            }
        }
        if i < n {
            self.entries[i].snapshot_ticks()
        } else {
            Vec::new()
        }
    }
}

} // verus!
