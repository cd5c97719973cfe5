use vstd::prelude::*;
use std::collections::HashMap;

verus! {

broadcast use vstd::std_specs::hash::group_hash_axioms;

/// A ring after `s` is appended with room for `cap` samples: the oldest
/// sample leaves when the ring grows past `cap`.
pub open spec fn pushed<S>(ring: Seq<S>, s: S, cap: nat) -> Seq<S> {
    let r = ring.push(s);
    if r.len() > cap {
        r.drop_first()
    } else {
        r
    }
}

/// The ring after each of `xs` is pushed in turn.
pub open spec fn filled<S>(ring: Seq<S>, xs: Seq<S>, cap: nat) -> Seq<S>
    decreases xs.len(),
{
    if xs.len() == 0 {
        ring
    } else {
        pushed(filled(ring, xs.drop_last(), cap), xs.last(), cap)
    }
}

/// The last `n` items of `xs` (all of them when there are fewer).
pub open spec fn last_n<S>(xs: Seq<S>, n: nat) -> Seq<S> {
    if xs.len() > n {
        xs.skip(xs.len() - n)
    } else {
        xs
    }
}

/// Per-PID sample history: for each watched PID, its most recent samples,
/// oldest first.
pub struct History<S> {
    pub rings: HashMap<i32, Vec<S>>,
}

impl<S> History<S> {
    pub open spec fn view(&self) -> Map<i32, Seq<S>> {
        Map::new(|pid: i32| self.rings@.contains_key(pid), |pid: i32| self.rings@[pid]@)
    }

    /// Every ring holds at most `cap` samples.
    pub open spec fn bounded_by(&self, cap: nat) -> bool {
        forall|pid: i32| #[trigger] self.rings@.contains_key(pid) ==> self.rings@[pid]@.len() <= cap
    }

    /// The samples held for `pid`, or none.
    pub open spec fn ring(&self, pid: i32) -> Seq<S> {
        if self.rings@.contains_key(pid) {
            self.rings@[pid]@
        } else {
            Seq::empty()
        }
    }

    /// An empty history.
    pub fn new() -> (h: Self)
        ensures
            h.view() == Map::<i32, Seq<S>>::empty(),
            h.bounded_by(0),
    {
        let h = History { rings: HashMap::new() };
        assert(h.view() =~= Map::<i32, Seq<S>>::empty());
        h
    }

    /// Appends `sample` to the ring of `pid`, creating the ring when there is
    /// none, and drops the oldest sample when the ring holds more than `cap`.
    pub fn push_sample(&mut self, pid: i32, sample: S, cap: usize)
        ensures
            final(self).view() == old(self).view().insert(pid, pushed(old(self).ring(pid), sample, cap as nat)),
            old(self).bounded_by(cap as nat) ==> final(self).bounded_by(cap as nat),
    {
        let ghost before = self.ring(pid);
        let ghost whole = self.view();
        let mut ring = match self.rings.remove(&pid) {
            Some(r) => r,
            None => Vec::new(),
        };
        assert(ring@ == before);
        ring.push(sample);
        if ring.len() > cap {
            ring.remove(0);
            assert(ring@ =~= before.push(sample).drop_first());
        }
        self.rings.insert(pid, ring);
        assert(self.view() =~= whole.insert(pid, pushed(before, sample, cap as nat)));
    }

    /// Forgets every sample of `pid`.
    pub fn remove_pid(&mut self, pid: i32)
        ensures
            final(self).view() == old(self).view().remove(pid),
            forall|cap: nat| old(self).bounded_by(cap) ==> #[trigger] final(self).bounded_by(cap),
    {
        let ghost before = self.view();
        self.rings.remove(&pid);
        assert(self.view() =~= before.remove(pid));
    }

    /// Whether a ring exists for `pid`.
    pub fn contains(&self, pid: i32) -> (r: bool)
        ensures
            r == self.view().dom().contains(pid),
    {
        self.rings.contains_key(&pid)
    }

    /// The samples of `pid`, oldest first.
    pub fn samples(&self, pid: i32) -> (r: Option<&Vec<S>>)
        ensures
            match r {
                Some(v) => self.view().dom().contains(pid) && v@ == self.view()[pid],
                None => !self.view().dom().contains(pid),
            },
    {
        self.rings.get(&pid)
    }

    /// Replaces the ring of `pid` with `samples` pushed in order into an
    /// empty ring of `cap` (the lines of a history file, once parsed).
    pub fn load_samples(&mut self, pid: i32, samples: Vec<S>, cap: usize)
        ensures
            final(self).view() == old(self).view().insert(pid, filled(Seq::empty(), samples@, cap as nat)),
            old(self).bounded_by(cap as nat) ==> final(self).bounded_by(cap as nat),
    {
        let ghost all = samples@;
        let mut ring: Vec<S> = Vec::new();
        for s in it: samples.into_iter()
            invariant
                it.seq() == all,
                ring@ == filled(Seq::empty(), all.take(it.index() as int), cap as nat),
        {
            let ghost i = it.index() as int;
            assert(all.take(i + 1).drop_last() =~= all.take(i));
            ring.push(s);
            if ring.len() > cap {
                ring.remove(0);
            }
            assert(ring@ =~= filled(Seq::empty(), all.take(i + 1), cap as nat));
        }
        assert(all.take(all.len() as int) =~= all);
        let ghost before = self.view();
        self.rings.insert(pid, ring);
        assert(self.view() =~= before.insert(pid, filled(Seq::empty(), all, cap as nat)));
        proof {
            if old(self).bounded_by(cap as nat) {
                lemma_filled_bounded(Seq::empty(), all, cap as nat);
            }
        }
    }
}

/// Pushing never lets a ring exceed its room.
pub proof fn lemma_filled_bounded<S>(ring: Seq<S>, xs: Seq<S>, cap: nat)
    requires
        ring.len() <= cap,
    ensures
        filled(ring, xs, cap).len() <= cap,
    decreases xs.len(),
{
    if xs.len() > 0 {
        lemma_filled_bounded(ring, xs.drop_last(), cap);
    }
}

/// A ring with room for `cap >= 1` samples that started with at most `cap`
/// keeps exactly the last `cap` of everything pushed into it, in the order
/// they arrived.
pub proof fn lemma_ring_keeps_last<S>(ring: Seq<S>, xs: Seq<S>, cap: nat)
    requires
        cap >= 1,
        ring.len() <= cap,
    ensures
        filled(ring, xs, cap) == last_n(ring + xs, cap),
    decreases xs.len(),
{
    if xs.len() == 0 {
        assert(ring + xs =~= ring);
    } else {
        lemma_ring_keeps_last(ring, xs.drop_last(), cap);
        let t = ring + xs.drop_last();
        let x = xs.last();
        assert(ring + xs =~= t.push(x));
        let lt = last_n(t, cap);
        if t.len() >= cap {
            assert(lt.push(x).drop_first() =~= t.push(x).skip(t.len() + 1 - cap));
        } else {
            assert(lt.push(x) =~= t.push(x));
        }
    }
}

/// Reading a ring right after a push gives back the pushed sample as the
/// newest one, as long as the ring has room for at least one sample.
pub proof fn lemma_push_then_read<S>(ring: Seq<S>, s: S, cap: nat)
    requires
        cap >= 1,
    ensures
        pushed(ring, s, cap).len() >= 1,
        pushed(ring, s, cap).last() == s,
{
}

} // verus!
