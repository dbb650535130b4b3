//! A bounded undo/redo store for opaque canvas snapshots.
//!
//! The store keeps two stacks of snapshots. The undo stack is ordered oldest
//! first and its last element is always the currently displayed state; the
//! redo stack holds states removed by `undo`, most recently undone last.
//! Both stacks are bounded by [`CAPACITY`]: pushing onto a full stack silently
//! evicts the oldest entry. Recording a fresh edit abandons the redo lineage.

use vstd::prelude::*;

verus! {

/// Upper bound on the number of snapshots either stack retains.
pub const CAPACITY: usize = 50;

/// The byte views of a sequence of snapshots, oldest first.
pub open spec fn snaps_of(v: Seq<Vec<u8>>) -> Seq<Seq<u8>> {
    v.map_values(|s: Vec<u8>| s@)
}

/// Push onto a bounded stack: once the stack already holds [`CAPACITY`]
/// entries, the oldest one is evicted to make room.
pub open spec fn evict_push(s: Seq<Seq<u8>>, x: Seq<u8>) -> Seq<Seq<u8>> {
    if s.len() < CAPACITY {
        s.push(x)
    } else {
        s.subrange(1, s.len() as int).push(x)
    }
}

/// One `undo` step on ghost stacks: the stacks after the step and the
/// snapshot the step returns. With fewer than two entries the step is a
/// no-op; otherwise the current snapshot moves to the redo stack and the
/// snapshot below it becomes current and is returned.
pub open spec fn undo_model(u: Seq<Seq<u8>>, r: Seq<Seq<u8>>) -> (Seq<Seq<u8>>, Seq<Seq<u8>>, Option<
    Seq<u8>,
>) {
    if u.len() < 2 {
        (u, r, None::<Seq<u8>>)
    } else {
        (u.drop_last(), evict_push(r, u.last()), Some(u[u.len() - 2]))
    }
}

/// One `redo` step on ghost stacks: the stacks after the step and the
/// snapshot the step returns. With an empty redo stack the step is a no-op;
/// otherwise the most recently undone snapshot moves back onto the undo
/// stack and is returned as the new current state.
pub open spec fn redo_model(u: Seq<Seq<u8>>, r: Seq<Seq<u8>>) -> (Seq<Seq<u8>>, Seq<Seq<u8>>, Option<
    Seq<u8>,
>) {
    if r.len() == 0 {
        (u, r, None::<Seq<u8>>)
    } else {
        (evict_push(u, r.last()), r.drop_last(), Some(r.last()))
    }
}

/// The history store: two capacity-bounded stacks of opaque snapshots.
///
/// One instance is meant to be owned by the application's top-level context
/// and shared behind a single lock, so that every operation is atomic with
/// respect to concurrent callers.
pub struct History {
    undo_stack: Vec<Vec<u8>>,
    redo_stack: Vec<Vec<u8>>,
}

proof fn lemma_snaps_push(v: Seq<Vec<u8>>, x: Vec<u8>)
    ensures
        snaps_of(v.push(x)) == snaps_of(v).push(x@),
{
    assert(snaps_of(v.push(x)) =~= snaps_of(v).push(x@));
}

proof fn lemma_snaps_subrange(v: Seq<Vec<u8>>, a: int, b: int)
    requires
        0 <= a <= b <= v.len(),
    ensures
        snaps_of(v.subrange(a, b)) == snaps_of(v).subrange(a, b),
{
    assert(snaps_of(v.subrange(a, b)) =~= snaps_of(v).subrange(a, b));
}

/// Copies one snapshot's bytes.
fn clone_snapshot(v: &Vec<u8>) -> (r: Vec<u8>)
    ensures
        r@ == v@,
{
    let r = v.clone();
    proof {
        assert forall|i: int| 0 <= i < v@.len() implies r@[i] == v@[i] by {
            assert(vstd::pervasive::cloned::<u8>(v@[i], r@[i]));
        }
        assert(r@ =~= v@);
    }
    r
}

/// Pushes onto one stack, evicting the oldest entry when full.
fn evict_push_exec(stack: &mut Vec<Vec<u8>>, x: Vec<u8>)
    requires
        old(stack)@.len() <= CAPACITY,
    ensures
        snaps_of(final(stack)@) == evict_push(snaps_of(old(stack)@), x@),
        final(stack)@.len() <= CAPACITY,
{
    let ghost v0 = stack@;
    stack.push(x);
    proof {
        lemma_snaps_push(v0, x);
    }
    if stack.len() > CAPACITY {
        let ghost v1 = stack@;
        stack.remove(0);
        proof {
            assert(v1.remove(0) =~= v1.subrange(1, v1.len() as int));
            lemma_snaps_subrange(v1, 1, v1.len() as int);
            assert(snaps_of(v1).subrange(1, v1.len() as int) =~= snaps_of(v0).subrange(
                1,
                v0.len() as int,
            ).push(x@));
        }
    }
}

impl History {
    /// The undo stack's contents, oldest first; the last element is current.
    pub closed spec fn undo_view(&self) -> Seq<Seq<u8>> {
        snaps_of(self.undo_stack@)
    }

    /// The redo stack's contents, oldest undone first.
    pub closed spec fn redo_view(&self) -> Seq<Seq<u8>> {
        snaps_of(self.redo_stack@)
    }

    /// Both stacks respect the capacity bound.
    pub open spec fn wf(&self) -> bool {
        self.undo_view().len() <= CAPACITY && self.redo_view().len() <= CAPACITY
    }

    /// The currently displayed snapshot, if any state was ever recorded.
    pub open spec fn current_view(&self) -> Option<Seq<u8>> {
        if self.undo_view().len() > 0 {
            Some(self.undo_view().last())
        } else {
            None
        }
    }

    /// Creates an empty history.
    pub fn new() -> (h: History)
        ensures
            h.wf(),
            h.undo_view() == Seq::<Seq<u8>>::empty(),
            h.redo_view() == Seq::<Seq<u8>>::empty(),
    {
        let h = History { undo_stack: Vec::new(), redo_stack: Vec::new() };
        proof {
            assert(h.undo_view() =~= Seq::<Seq<u8>>::empty());
            assert(h.redo_view() =~= Seq::<Seq<u8>>::empty());
        }
        h
    }

    /// Records a new current snapshot.
    ///
    /// The snapshot is appended to the undo stack, evicting the oldest entry
    /// when the stack is full. A fresh edit abandons the undone branch, so
    /// the redo stack is cleared.
    pub fn record(&mut self, snapshot: Vec<u8>)
        requires
            old(self).wf(),
        ensures
            final(self).wf(),
            final(self).undo_view() == evict_push(old(self).undo_view(), snapshot@),
            final(self).redo_view() == Seq::<Seq<u8>>::empty(),
    {
        evict_push_exec(&mut self.undo_stack, snapshot);
        self.redo_stack.clear();
        proof {
            assert(final(self).redo_view() =~= Seq::<Seq<u8>>::empty());
        }
    }

    /// Steps the history back by one edit.
    ///
    /// With fewer than two entries there is nothing older to show: the call
    /// is a no-op and returns `None`, so the store never loses its only
    /// state. Otherwise the current snapshot moves onto the redo stack and
    /// the call returns a copy of the state that is now current.
    pub fn undo(&mut self) -> (r: Option<Vec<u8>>)
        requires
            old(self).wf(),
        ensures
            final(self).wf(),
            old(self).undo_view().len() < 2 ==> r is None && *final(self) == *old(self),
            ({
                let step = undo_model(old(self).undo_view(), old(self).redo_view());
                &&& final(self).undo_view() == step.0
                &&& final(self).redo_view() == step.1
                &&& match r {
                    Some(cur) => step.2 == Some(cur@),
                    None => step.2 is None,
                }
            }),
    {
        if self.undo_stack.len() < 2 {
            return None;
        }
        let ghost u0 = self.undo_stack@;
        let popped = self.undo_stack.pop().unwrap();
        proof {
            lemma_snaps_subrange(u0, 0, u0.len() - 1);
            assert(snaps_of(u0).subrange(0, u0.len() - 1) =~= snaps_of(u0).drop_last());
        }
        evict_push_exec(&mut self.redo_stack, popped);
        let cur = clone_snapshot(&self.undo_stack[self.undo_stack.len() - 1]);
        Some(cur)
    }

    /// Steps the history forward again after an undo.
    ///
    /// With an empty redo stack the call is a no-op and returns `None`.
    /// Otherwise the most recently undone snapshot moves back onto the undo
    /// stack and the call returns a copy of it: that snapshot is current
    /// again.
    pub fn redo(&mut self) -> (r: Option<Vec<u8>>)
        requires
            old(self).wf(),
        ensures
            final(self).wf(),
            old(self).redo_view().len() == 0 ==> r is None && *final(self) == *old(self),
            ({
                let step = redo_model(old(self).undo_view(), old(self).redo_view());
                &&& final(self).undo_view() == step.0
                &&& final(self).redo_view() == step.1
                &&& match r {
                    Some(cur) => step.2 == Some(cur@),
                    None => step.2 is None,
                }
            }),
    {
        if self.redo_stack.len() == 0 {
            return None;
        }
        let ghost r0 = self.redo_stack@;
        let popped = self.redo_stack.pop().unwrap();
        proof {
            lemma_snaps_subrange(r0, 0, r0.len() - 1);
            assert(snaps_of(r0).subrange(0, r0.len() - 1) =~= snaps_of(r0).drop_last());
        }
        let cur = clone_snapshot(&popped);
        evict_push_exec(&mut self.undo_stack, popped);
        Some(cur)
    }

    /// Discards both stacks and reseeds the history with one snapshot.
    ///
    /// This is the recovery path after shared state was found inconsistent
    /// (a lock holder died mid-mutation): history depth is traded for
    /// availability, and the given snapshot becomes the only state.
    pub fn recover(&mut self, snapshot: Vec<u8>)
        ensures
            final(self).wf(),
            final(self).undo_view() == seq![snapshot@],
            final(self).redo_view() == Seq::<Seq<u8>>::empty(),
    {
        let ghost snap = snapshot@;
        self.undo_stack.clear();
        self.redo_stack.clear();
        self.undo_stack.push(snapshot);
        proof {
            assert(final(self).undo_view() =~= seq![snap]);
            assert(final(self).redo_view() =~= Seq::<Seq<u8>>::empty());
        }
    }

    /// A copy of the currently displayed snapshot, if any.
    pub fn current(&self) -> (r: Option<Vec<u8>>)
        ensures
            match r {
                Some(cur) => self.current_view() == Some(cur@),
                None => self.current_view() is None,
            },
    {
        if self.undo_stack.len() == 0 {
            None
        } else {
            Some(clone_snapshot(&self.undo_stack[self.undo_stack.len() - 1]))
        }
    }

    /// How many snapshots the undo stack holds.
    pub fn undo_len(&self) -> (n: usize)
        ensures
            n == self.undo_view().len(),
    {
        self.undo_stack.len()
    }

    /// How many snapshots the redo stack holds.
    pub fn redo_len(&self) -> (n: usize)
        ensures
            n == self.redo_view().len(),
    {
        self.redo_stack.len()
    }

    /// Whether an `undo` call would change the state.
    pub fn can_undo(&self) -> (b: bool)
        ensures
            b <==> self.undo_view().len() >= 2,
    {
        self.undo_stack.len() >= 2
    }

    /// Whether a `redo` call would change the state.
    pub fn can_redo(&self) -> (b: bool)
        ensures
            b <==> self.redo_view().len() >= 1,
    {
        self.redo_stack.len() >= 1
    }
}

/// The undo stack left by recording every snapshot of `xs` in order,
/// starting from the stack `u0` (each record clears the redo stack, so only
/// the undo stack needs tracking).
pub open spec fn record_all(u0: Seq<Seq<u8>>, xs: Seq<Seq<u8>>) -> Seq<Seq<u8>>
    decreases xs.len(),
{
    if xs.len() == 0 {
        u0
    } else {
        record_all(evict_push(u0, xs[0]), xs.skip(1))
    }
}

/// Law: however many snapshots are recorded, the undo stack never exceeds
/// `CAPACITY`; every record call is counted until the bound is reached, and
/// the stack holds exactly the most recent snapshots, in their original
/// order.
pub proof fn lemma_record_retention(u0: Seq<Seq<u8>>, xs: Seq<Seq<u8>>)
    requires
        u0.len() <= CAPACITY,
    ensures
        ({
            let t = u0 + xs;
            let kept = if t.len() <= CAPACITY {
                0int
            } else {
                t.len() - CAPACITY
            };
            &&& record_all(u0, xs).len() <= CAPACITY
            &&& record_all(u0, xs).len() == t.len() - kept
            &&& record_all(u0, xs) == t.skip(kept)
        }),
    decreases xs.len(),
{
    let t = u0 + xs;
    if xs.len() == 0 {
        assert(t =~= u0);
        assert(t.skip(0) =~= u0);
    } else {
        let u1 = evict_push(u0, xs[0]);
        lemma_record_retention(u1, xs.skip(1));
        let t1 = u1 + xs.skip(1);
        let kept1 = if t1.len() <= CAPACITY {
            0int
        } else {
            t1.len() - CAPACITY
        };
        if u0.len() < CAPACITY {
            assert(t1 =~= t);
        } else {
            assert(t1 =~= t.skip(1));
            assert(t.skip(1).skip(kept1) =~= t.skip(1 + kept1));
        }
    }
}

/// Law: from an empty history, recording the snapshots of `xs` retains all
/// of `xs` while it fits, and exactly the most recent `CAPACITY` snapshots,
/// in order, once it does not.
pub proof fn lemma_retained_are_most_recent(xs: Seq<Seq<u8>>)
    ensures
        xs.len() <= CAPACITY ==> record_all(Seq::<Seq<u8>>::empty(), xs) == xs,
        xs.len() > CAPACITY ==> record_all(Seq::<Seq<u8>>::empty(), xs) == xs.skip(
            xs.len() - CAPACITY,
        ),
{
    lemma_record_retention(Seq::<Seq<u8>>::empty(), xs);
    assert(Seq::<Seq<u8>>::empty() + xs =~= xs);
    if xs.len() <= CAPACITY {
        assert(xs.skip(0) =~= xs);
    }
}

/// Law: an undo followed immediately by a redo, with no record in between,
/// restores the undo stack and in particular the current snapshot that
/// stood before the undo, and the redo call returns exactly that snapshot.
/// The redo stack is also restored whenever the undo did not have to evict
/// from it.
pub proof fn lemma_undo_redo_roundtrip(u: Seq<Seq<u8>>, r: Seq<Seq<u8>>)
    requires
        2 <= u.len() <= CAPACITY,
        r.len() <= CAPACITY,
    ensures
        ({
            let after_undo = undo_model(u, r);
            let after_redo = redo_model(after_undo.0, after_undo.1);
            &&& after_redo.2 == Some(u.last())
            &&& after_redo.0 == u
            &&& after_redo.0.last() == u.last()
            &&& r.len() < CAPACITY ==> after_redo.1 == r
        }),
{
    let after_undo = undo_model(u, r);
    assert(after_undo.1.last() == u.last());
    assert(evict_push(u.drop_last(), u.last()) =~= u);
    if r.len() < CAPACITY {
        assert(after_undo.1.drop_last() =~= r);
    }
}

/// `k` successive undo calls on ghost stacks: the stacks at the end, and
/// the set of every snapshot any of the calls returned.
pub open spec fn undo_all(u: Seq<Seq<u8>>, r: Seq<Seq<u8>>, k: nat) -> (Seq<Seq<u8>>, Seq<Seq<u8>>, Set<
    Seq<u8>,
>)
    decreases k,
{
    if k == 0 {
        (u, r, Set::<Seq<u8>>::empty())
    } else if u.len() < 2 {
        undo_all(u, r, (k - 1) as nat)
    } else {
        let rest = undo_all(u.drop_last(), evict_push(r, u.last()), (k - 1) as nat);
        (rest.0, rest.1, rest.2.insert(u[u.len() - 2]))
    }
}

/// Law: a snapshot absent from both stacks is never returned by any number
/// of undo calls and never reappears in either stack.
pub proof fn lemma_undo_all_excludes(u: Seq<Seq<u8>>, r: Seq<Seq<u8>>, k: nat, snap: Seq<u8>)
    requires
        !u.contains(snap),
        !r.contains(snap),
    ensures
        ({
            let end = undo_all(u, r, k);
            &&& !end.0.contains(snap)
            &&& !end.1.contains(snap)
            &&& !end.2.contains(snap)
        }),
    decreases k,
{
    if k == 0 {
    } else if u.len() < 2 {
        lemma_undo_all_excludes(u, r, (k - 1) as nat, snap);
    } else {
        let u1 = u.drop_last();
        let r1 = evict_push(r, u.last());
        assert(!u1.contains(snap)) by {
            if u1.contains(snap) {
                let i = choose|i: int| 0 <= i < u1.len() && u1[i] == snap;
                assert(u[i] == snap);
            }
        }
        assert(u.contains(u.last()));
        assert(!r1.contains(snap)) by {
            if r1.contains(snap) {
                let i = choose|i: int| 0 <= i < r1.len() && r1[i] == snap;
                if i < r1.len() - 1 {
                    if r.len() < CAPACITY {
                        assert(r[i] == snap);
                    } else {
                        assert(r[i + 1] == snap);
                    }
                } else {
                    assert(r1[i] == u.last());
                }
            }
        }
        lemma_undo_all_excludes(u1, r1, (k - 1) as nat, snap);
        assert(u.contains(u[u.len() - 2]));
    }
}

/// Law: the pair of stack lengths evolves exactly as the operations
/// prescribe, so under a lock that serializes the calls no update is
/// lost: a record grows the undo stack by one until the bound and empties
/// the redo stack; an undo moves exactly one entry across, capping the
/// redo stack; a redo moves exactly one back.
pub proof fn lemma_length_state_machine(u: Seq<Seq<u8>>, r: Seq<Seq<u8>>, x: Seq<u8>)
    requires
        u.len() <= CAPACITY,
        r.len() <= CAPACITY,
    ensures
        evict_push(u, x).len() == if u.len() < CAPACITY {
            u.len() + 1
        } else {
            CAPACITY as nat
        },
        u.len() >= 2 ==> undo_model(u, r).0.len() == u.len() - 1 && undo_model(u, r).1.len() == (
        if r.len() < CAPACITY {
            r.len() + 1
        } else {
            CAPACITY as nat
        }),
        r.len() >= 1 ==> redo_model(u, r).1.len() == r.len() - 1 && redo_model(u, r).0.len() == (
        if u.len() < CAPACITY {
            u.len() + 1
        } else {
            CAPACITY as nat
        }),
{
}

/// No two snapshots of the sequence have the same bytes.
pub open spec fn distinct(xs: Seq<Seq<u8>>) -> bool {
    forall|i: int, j: int| 0 <= i < j < xs.len() ==> xs[i] != xs[j]
}

/// Law: after recording more distinct snapshots than the capacity, each of
/// the oldest overflowed snapshots has been evicted for good: no number of
/// undo calls returns it or brings it back into either stack.
pub proof fn lemma_evicted_snapshots_unrecoverable(xs: Seq<Seq<u8>>, i: int, k: nat)
    requires
        distinct(xs),
        xs.len() > CAPACITY,
        0 <= i < xs.len() - CAPACITY,
    ensures
        ({
            let u = record_all(Seq::<Seq<u8>>::empty(), xs);
            let end = undo_all(u, Seq::<Seq<u8>>::empty(), k);
            &&& !u.contains(xs[i])
            &&& !end.0.contains(xs[i])
            &&& !end.1.contains(xs[i])
            &&& !end.2.contains(xs[i])
        }),
{
    lemma_retained_are_most_recent(xs);
    let u = record_all(Seq::<Seq<u8>>::empty(), xs);
    let d = xs.len() - CAPACITY;
    assert(!u.contains(xs[i])) by {
        if u.contains(xs[i]) {
            let snap = xs[i];
            let j = choose|j: int| 0 <= j < u.len() && u[j] == snap;
            assert(xs[d + j] == xs[i]);
        }
    }
    lemma_undo_all_excludes(u, Seq::<Seq<u8>>::empty(), k, xs[i]);
}

} // verus!
