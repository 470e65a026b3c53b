//! A model of the manually-resettable resume signal.
//!
//! The OS delivers "the host woke up" as a level-signaled event object;
//! the service awaits it through registered one-shot waits.  The state of
//! that primitive — the signaled level and the registered waiter records —
//! is modelled here as plain data with verified transitions: `set` wakes
//! waiters, `reset` re-arms the level, a subscription observes a level
//! that was set before it, and dropping a subscription removes its record
//! entirely.  The glue maps these transitions onto the OS event object.

use vstd::prelude::*;

verus! {

/// One registered wait: its handle and whether it has been woken.
///
/// A woken waiter stays woken: the underlying wait fires only once, so a
/// later `reset` does not take the wake back.
#[derive(Clone, Copy, Debug, PartialEq, Eq, Structural)]
pub struct Waiter {
    /// The subscription handle.
    pub id: u64,
    /// True once the waiter has observed the signal.
    pub ready: bool,
}

/// The abstract state of a resume-signal event.
pub struct EventModel {
    /// Whether `reset` must be called by hand to clear the level.
    pub manual_reset: bool,
    /// The current signal level.
    pub signaled: bool,
    /// The handle the next subscription receives.
    pub next_waiter_id: u64,
    /// The live waiter records, oldest first.
    pub waiters: Seq<Waiter>,
}

/// Well-formedness: handles are unique and below the next one.
pub open spec fn model_wf(m: EventModel) -> bool {
    &&& forall|i: int| 0 <= i < m.waiters.len() ==> (#[trigger] m.waiters[i]).id
        < m.next_waiter_id
    &&& forall|i: int, j: int|
        0 <= i < j < m.waiters.len() ==> (#[trigger] m.waiters[i]).id != (
        #[trigger] m.waiters[j]).id
}

/// The position of the waiter with `id`, or `-1` when none holds it.
pub open spec fn index_of_id(ws: Seq<Waiter>, id: u64) -> int
    decreases ws.len(),
{
    if ws.len() == 0 {
        -1
    } else if ws[0].id == id {
        0
    } else {
        let r = index_of_id(ws.drop_first(), id);
        if r < 0 {
            -1
        } else {
            1 + r
        }
    }
}

/// `index_of_id` finds the first record with the handle, and `-1` means
/// there is none.
pub proof fn lemma_index_of_id(ws: Seq<Waiter>, id: u64)
    ensures
        -1 <= index_of_id(ws, id) < ws.len(),
        index_of_id(ws, id) >= 0 ==> ws[index_of_id(ws, id)].id == id,
        forall|k: int| 0 <= k < index_of_id(ws, id) ==> (#[trigger] ws[k]).id != id,
        index_of_id(ws, id) == -1 <==> (forall|k: int|
            0 <= k < ws.len() ==> (#[trigger] ws[k]).id != id),
    decreases ws.len(),
{
    if ws.len() != 0 && ws[0].id != id {
        lemma_index_of_id(ws.drop_first(), id);
        assert(forall|k: int| 1 <= k < ws.len() ==> (#[trigger] ws[k]) == ws.drop_first()[k
            - 1]);
    }
}

/// The position of the first waiter not yet woken, or `-1`.
pub open spec fn first_pending(ws: Seq<Waiter>) -> int
    decreases ws.len(),
{
    if ws.len() == 0 {
        -1
    } else if !ws[0].ready {
        0
    } else {
        let r = first_pending(ws.drop_first());
        if r < 0 {
            -1
        } else {
            1 + r
        }
    }
}

/// `first_pending` finds the first pending record, and `-1` means all are
/// woken.
pub proof fn lemma_first_pending(ws: Seq<Waiter>)
    ensures
        -1 <= first_pending(ws) < ws.len(),
        first_pending(ws) >= 0 ==> !ws[first_pending(ws)].ready,
        forall|k: int| 0 <= k < first_pending(ws) ==> (#[trigger] ws[k]).ready,
        first_pending(ws) == -1 <==> (forall|k: int|
            0 <= k < ws.len() ==> (#[trigger] ws[k]).ready),
    decreases ws.len(),
{
    if ws.len() != 0 && ws[0].ready {
        lemma_first_pending(ws.drop_first());
        assert(forall|k: int| 1 <= k < ws.len() ==> (#[trigger] ws[k]) == ws.drop_first()[k
            - 1]);
    }
}

/// What `set` does: a manual-reset event latches the level and wakes every
/// waiter; an auto-reset event wakes the oldest pending waiter if there is
/// one (consuming the signal), and latches the level otherwise.
pub open spec fn model_set(m: EventModel) -> EventModel {
    if m.manual_reset {
        EventModel {
            signaled: true,
            waiters: m.waiters.map_values(|w: Waiter| Waiter { id: w.id, ready: true }),
            ..m
        }
    } else {
        let p = first_pending(m.waiters);
        if p >= 0 {
            EventModel {
                signaled: false,
                waiters: m.waiters.update(
                    p,
                    Waiter { id: m.waiters[p].id, ready: true },
                ),
                ..m
            }
        } else {
            EventModel { signaled: true, ..m }
        }
    }
}

/// What `reset` does: the level drops; already-woken waiters stay woken.
pub open spec fn model_reset(m: EventModel) -> EventModel {
    EventModel { signaled: false, ..m }
}

/// What a subscription does: a new record is registered, woken at once
/// when the level is up — so a `set` before the subscription (not reset
/// since) is observed immediately.  An auto-reset event is consumed by
/// that immediate wake.
pub open spec fn model_subscribe(m: EventModel) -> (EventModel, Waiter) {
    let w = Waiter { id: m.next_waiter_id, ready: m.signaled };
    let e = EventModel {
        signaled: m.signaled && m.manual_reset,
        next_waiter_id: (m.next_waiter_id + 1) as u64,
        waiters: m.waiters.push(w),
        ..m
    };
    (e, w)
}

/// What dropping a subscription does: its record is removed outright,
/// woken or not.
pub open spec fn model_drop(m: EventModel, id: u64) -> EventModel {
    let p = index_of_id(m.waiters, id);
    if p >= 0 {
        EventModel { waiters: m.waiters.remove(p), ..m }
    } else {
        m
    }
}

/// Whether the subscription with `id` has observed the signal.
pub open spec fn model_ready(m: EventModel, id: u64) -> bool {
    let p = index_of_id(m.waiters, id);
    p >= 0 && m.waiters[p].ready
}

/// A manually-resettable signal with registered waiters.
pub struct Event {
    manual_reset: bool,
    signaled: bool,
    next_waiter_id: u64,
    waiters: Vec<Waiter>,
}

impl View for Event {
    type V = EventModel;

    closed spec fn view(&self) -> EventModel {
        EventModel {
            manual_reset: self.manual_reset,
            signaled: self.signaled,
            next_waiter_id: self.next_waiter_id,
            waiters: self.waiters@,
        }
    }
}

impl Event {
    /// A fresh event with the given reset mode and initial level.
    pub fn new(manual_reset: bool, signaled: bool) -> (r: Event)
        ensures
            model_wf(r@),
            r@.manual_reset == manual_reset,
            r@.signaled == signaled,
            r@.waiters == Seq::<Waiter>::empty(),
    {
        Event { manual_reset, signaled, next_waiter_id: 0, waiters: Vec::new() }
    }

    /// Raises the signal.
    pub fn set(&mut self)
        requires
            model_wf(old(self)@),
        ensures
            model_wf(final(self)@),
            final(self)@ == model_set(old(self)@),
    {
        proof {
            lemma_first_pending(self.waiters@);
        }
        if self.manual_reset {
            let ghost target = old(self)@.waiters.map_values(
                |w: Waiter| Waiter { id: w.id, ready: true },
            );
            let mut new_ws: Vec<Waiter> = Vec::new();
            let mut k: usize = 0;
            proof {
                assert(new_ws@ =~= target.subrange(0, 0));
            }
            while k < self.waiters.len()
                invariant
                    k <= self.waiters@.len(),
                    self.waiters@ == old(self)@.waiters,
                    self.manual_reset == old(self)@.manual_reset,
                    self.signaled == old(self)@.signaled,
                    self.next_waiter_id == old(self)@.next_waiter_id,
                    target == old(self)@.waiters.map_values(
                        |w: Waiter| Waiter { id: w.id, ready: true },
                    ),
                    new_ws@ == target.subrange(0, k as int),
                decreases self.waiters@.len() - k,
            {
                let w = self.waiters[k];
                new_ws.push(Waiter { id: w.id, ready: true });
                assert(new_ws@ =~= target.subrange(0, k + 1));
                k += 1;
            }
            assert(new_ws@ =~= target);
            self.waiters = new_ws;
            self.signaled = true;
            assert(self@ =~= model_set(old(self)@)) by {
                assert(model_wf(old(self)@));
            }
            assert forall|i: int|
                0 <= i < self@.waiters.len() implies (#[trigger] (self)@.waiters[i]).id < self@.next_waiter_id by {
                assert(self@.waiters[i].id == old(self)@.waiters[i].id);
            }
            assert forall|i: int, j: int|
                0 <= i < j < self@.waiters.len() implies (#[trigger] (self)@.waiters[i]).id != (#[trigger] self@.waiters[j]).id by {
                assert(self@.waiters[i].id == old(self)@.waiters[i].id);
                assert(self@.waiters[j].id == old(self)@.waiters[j].id);
            }
        } else {
            let mut idx: usize = 0;
            let mut found: bool = false;
            while idx < self.waiters.len() && !found
                invariant
                    idx <= self.waiters@.len(),
                    self@ == old(self)@,
                    found ==> idx < self.waiters@.len() && !self.waiters@[idx as int].ready,
                    found ==> forall|k: int|
                        0 <= k < idx ==> (#[trigger] self.waiters@[k]).ready,
                    !found ==> forall|k: int|
                        0 <= k < idx ==> (#[trigger] self.waiters@[k]).ready,
                decreases self.waiters@.len() - idx + (if found {
                    0int
                } else {
                    1int
                }),
            {
                if !self.waiters[idx].ready {
                    found = true;
                } else {
                    idx += 1;
                }
            }
            proof {
                lemma_first_pending(self.waiters@);
                if found {
                    assert(first_pending(self.waiters@) == idx) by {
                        let p = first_pending(self.waiters@);
                        if p < idx {
                            assert(self.waiters@[p].ready);
                        }
                        if p > idx || p == -1 {
                            assert(self.waiters@[idx as int].ready);
                        }
                    }
                } else {
                    assert(first_pending(self.waiters@) == -1);
                }
            }
            if found {
                let w = self.waiters[idx];
                let ghost target = old(self)@.waiters.update(
                    idx as int,
                    Waiter { id: w.id, ready: true },
                );
                let mut new_ws: Vec<Waiter> = Vec::new();
                let mut k: usize = 0;
                proof {
                    assert(new_ws@ =~= target.subrange(0, 0));
                }
                while k < self.waiters.len()
                    invariant
                        k <= self.waiters@.len(),
                        self.waiters@ == old(self)@.waiters,
                        self.manual_reset == old(self)@.manual_reset,
                        self.signaled == old(self)@.signaled,
                        self.next_waiter_id == old(self)@.next_waiter_id,
                        idx < self.waiters@.len(),
                        target == old(self)@.waiters.update(
                            idx as int,
                            Waiter { id: old(self)@.waiters[idx as int].id, ready: true },
                        ),
                        w == old(self)@.waiters[idx as int],
                        new_ws@ == target.subrange(0, k as int),
                    decreases self.waiters@.len() - k,
                {
                    let cur = self.waiters[k];
                    if k == idx {
                        new_ws.push(Waiter { id: cur.id, ready: true });
                    } else {
                        new_ws.push(cur);
                    }
                    assert(new_ws@ =~= target.subrange(0, k + 1));
                    k += 1;
                }
                assert(new_ws@ =~= target);
                self.waiters = new_ws;
                self.signaled = false;
                assert(self@ =~= model_set(old(self)@));
                assert forall|i: int|
                    0 <= i < self@.waiters.len() implies (#[trigger] (self)@.waiters[i]).id < self@.next_waiter_id by {
                    assert(self@.waiters[i].id == old(self)@.waiters[i].id);
                }
                assert forall|i: int, j: int|
                    0 <= i < j < self@.waiters.len() implies (#[trigger] (self)@.waiters[i]).id != (#[trigger] self@.waiters[j]).id by {
                    assert(self@.waiters[i].id == old(self)@.waiters[i].id);
                    assert(self@.waiters[j].id == old(self)@.waiters[j].id);
                }
            } else {
                self.signaled = true;
                assert(self@ =~= model_set(old(self)@));
            }
        }
    }

    /// Clears the signal level.
    pub fn reset(&mut self)
        requires
            model_wf(old(self)@),
        ensures
            model_wf(final(self)@),
            final(self)@ == model_reset(old(self)@),
    {
        self.signaled = false;
        assert(self@ =~= model_reset(old(self)@));
    }

    /// Registers a waiter and returns its handle.  The waiter is woken
    /// immediately when the signal level is already up.
    pub fn signaled(&mut self) -> (r: u64)
        requires
            model_wf(old(self)@),
            old(self)@.next_waiter_id < u64::MAX,
        ensures
            model_wf(final(self)@),
            final(self)@ == model_subscribe(old(self)@).0,
            r == model_subscribe(old(self)@).1.id,
            old(self)@.signaled ==> model_ready(final(self)@, r),
    {
        let id = self.next_waiter_id;
        let w = Waiter { id, ready: self.signaled };
        self.waiters.push(w);
        self.next_waiter_id = id + 1;
        if !self.manual_reset {
            self.signaled = false;
        }
        proof {
            assert(self@ =~= model_subscribe(old(self)@).0);
            assert forall|i: int, j: int|
                0 <= i < j < self@.waiters.len() implies (#[trigger] (self)@.waiters[i]).id != (#[trigger] self@.waiters[j]).id by {
                if j < old(self)@.waiters.len() {
                    assert(self@.waiters[i] == old(self)@.waiters[i]);
                    assert(self@.waiters[j] == old(self)@.waiters[j]);
                } else {
                    assert(self@.waiters[j] == w);
                    assert(self@.waiters[i] == old(self)@.waiters[i]);
                }
            }
            if old(self)@.signaled {
                lemma_index_of_id(self@.waiters, id);
                let p = index_of_id(self@.waiters, id);
                assert(p >= 0) by {
                    if p == -1 {
                        assert(self@.waiters[self@.waiters.len() - 1].id == id);
                    }
                }
                assert(self@.waiters[p].ready) by {
                    if p < self@.waiters.len() - 1 {
                        assert(self@.waiters[p] == old(self)@.waiters[p]);
                        assert(old(self)@.waiters[p].id < id);
                    }
                }
            }
        }
        id
    }

    /// Whether the waiter with `id` has observed the signal.
    pub fn poll(&self, id: u64) -> (r: bool)
        ensures
            r == model_ready(self@, id),
    {
        proof {
            lemma_index_of_id(self.waiters@, id);
        }
        let mut k: usize = 0;
        while k < self.waiters.len()
            invariant
                k <= self.waiters@.len(),
                forall|q: int| 0 <= q < k ==> (#[trigger] self.waiters@[q]).id != id,
            decreases self.waiters@.len() - k,
        {
            let w = self.waiters[k];
            if w.id == id {
                proof {
                    lemma_index_of_id(self.waiters@, id);
                    let p = index_of_id(self.waiters@, id);
                    assert(p == k) by {
                        if p < k {
                            assert(self.waiters@[p].id != id);
                        }
                        if p > k || p == -1 {
                            assert(self.waiters@[k as int].id != id);
                        }
                    }
                }
                return w.ready;
            }
            k += 1;
        }
        proof {
            lemma_index_of_id(self.waiters@, id);
        }
        false
    }

    /// Removes the waiter record with `id`; a pending wait leaves nothing
    /// behind.
    pub fn drop_waiter(&mut self, id: u64)
        requires
            model_wf(old(self)@),
        ensures
            model_wf(final(self)@),
            final(self)@ == model_drop(old(self)@, id),
    {
        proof {
            lemma_index_of_id(self.waiters@, id);
        }
        let mut k: usize = 0;
        while k < self.waiters.len()
            invariant
                k <= self.waiters@.len(),
                self@ == old(self)@,
                model_wf(old(self)@),
                forall|q: int| 0 <= q < k ==> (#[trigger] self.waiters@[q]).id != id,
            decreases self.waiters@.len() - k,
        {
            let w = self.waiters[k];
            if w.id == id {
                proof {
                    lemma_index_of_id(self.waiters@, id);
                    let p = index_of_id(self.waiters@, id);
                    assert(p == k) by {
                        if p < k {
                            assert(self.waiters@[p].id != id);
                        }
                        if p > k || p == -1 {
                            assert(self.waiters@[k as int].id != id);
                        }
                    }
                }
                self.waiters.remove(k);
                proof {
                    old(self)@.waiters.remove_ensures(k as int);
                    assert(self.waiters@ == old(self)@.waiters.remove(k as int));
                    assert(self@ =~= model_drop(old(self)@, id));
                    let ws = self@.waiters;
                    assert forall|i: int|
                        0 <= i < ws.len() implies (#[trigger] ws[i]).id < (self)@.next_waiter_id by {
                        if i < k {
                            assert(ws[i] == old(self)@.waiters[i]);
                        } else {
                            assert(ws[i] == old(self)@.waiters[i + 1]);
                        }
                    }
                    assert forall|i: int, j: int|
                        0 <= i < j < ws.len() implies (#[trigger] ws[i]).id != (
                    #[trigger] ws[j]).id by {
                        let oi = if i < k {
                            i
                        } else {
                            i + 1
                        };
                        let oj = if j < k {
                            j
                        } else {
                            j + 1
                        };
                        assert(ws[i] == old(self)@.waiters[oi]);
                        assert(ws[j] == old(self)@.waiters[oj]);
                    }
                }
                return;
            }
            k += 1;
        }
        proof {
            lemma_index_of_id(self.waiters@, id);
            assert(index_of_id(self.waiters@, id) == -1);
            assert(self@ =~= model_drop(old(self)@, id));
        }
    }

    /// How many waiter records are live: the drop counter of the model.
    pub fn live_waiters(&self) -> (r: usize)
        ensures
            r == self@.waiters.len(),
    {
        self.waiters.len()
    }

    /// The current signal level.
    pub fn is_signaled(&self) -> (r: bool)
        ensures
            r == self@.signaled,
    {
        self.signaled
    }
}

/// A subscription made while the signal is up is woken at once: `await`
/// returns immediately when `set` came first and no `reset` intervened.
pub proof fn lemma_subscribe_after_set(m: EventModel)
    requires
        m.signaled,
    ensures
        model_subscribe(m).1.ready,
{
}

/// Dropping a subscription releases its record and nothing else: exactly
/// one record goes away, the dropped handle is gone, and every other
/// record survives unchanged.
pub proof fn lemma_drop_releases_record(m: EventModel, id: u64)
    requires
        model_wf(m),
        index_of_id(m.waiters, id) >= 0,
    ensures
        model_drop(m, id).waiters.len() == m.waiters.len() - 1,
        index_of_id(model_drop(m, id).waiters, id) == -1,
        forall|w: Waiter|
            m.waiters.contains(w) && w.id != id ==> #[trigger] model_drop(
                m,
                id,
            ).waiters.contains(w),
{
    let p = index_of_id(m.waiters, id);
    lemma_index_of_id(m.waiters, id);
    let ws = model_drop(m, id).waiters;
    lemma_index_of_id(ws, id);
    let q = index_of_id(ws, id);
    if q >= 0 {
        let oq = if q < p {
            q
        } else {
            q + 1
        };
        assert(ws[q] == m.waiters[oq]);
        assert(m.waiters[oq].id == m.waiters[p].id);
        assert(oq != p);
        assert(false);
    }
    assert forall|w: Waiter|
        m.waiters.contains(w) && w.id != id implies #[trigger] ws.contains(w) by {
        let i = choose|i: int| 0 <= i < m.waiters.len() && m.waiters[i] == w;
        if i < p {
            assert(ws[i] == w);
        } else {
            assert(i != p);
            assert(ws[i - 1] == w);
        }
    }
}

/// `reset` followed by `set` re-arms the signal: a fresh subscription
/// observes the new signal.  For an auto-reset event this holds when no
/// earlier waiter is still pending to consume the wake.
pub proof fn lemma_reset_set_rearms(m: EventModel)
    requires
        m.manual_reset || (forall|k: int|
            0 <= k < m.waiters.len() ==> (#[trigger] m.waiters[k]).ready),
    ensures
        model_subscribe(model_set(model_reset(m))).1.ready,
{
    let after_reset = model_reset(m);
    lemma_first_pending(after_reset.waiters);
    if !m.manual_reset {
        assert(first_pending(after_reset.waiters) == -1);
    }
}

} // verus!
