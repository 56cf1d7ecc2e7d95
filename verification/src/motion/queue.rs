use vstd::prelude::*;

verus! {

// Times and weights of queue entries are `f32` values, held as their IEEE-754
// bit patterns; the code that plays the motions computes with them.

/// The bit pattern of `-1.0f32`: no time set.
pub const NO_TIME: u32 = 0xBF80_0000u32;

/// A motion in the queue, with the state of its playback.
pub struct MotionQueueEntry<M> {
    pub id: usize,
    pub auto_delete: bool,
    pub motion: M,
    pub available: bool,
    pub finished: bool,
    pub started: bool,
    pub start_time_seconds: u32,
    pub fade_in_start_time_seconds: u32,
    pub end_time_seconds: u32,
    pub state_time_seconds: u32,
    pub state_weight: u32,
    pub last_event_check_seconds: u32,
    pub fade_out_seconds: u32,
    pub is_triggered_fade_out: bool,
}

impl<M> MotionQueueEntry<M> {
    /// A fresh entry: available, not started, not finished, no start or end time.
    pub fn new(motion: M, id: usize) -> (e: Self)
        ensures
            e.id == id,
            e.motion == motion,
            !e.auto_delete,
            e.available,
            !e.finished,
            !e.started,
            e.start_time_seconds == NO_TIME,
            e.fade_in_start_time_seconds == 0,
            e.end_time_seconds == NO_TIME,
            e.state_time_seconds == 0,
            e.state_weight == 0,
            e.last_event_check_seconds == 0,
            e.fade_out_seconds == 0,
            !e.is_triggered_fade_out,
    {
        MotionQueueEntry {
            id,
            auto_delete: false,
            motion,
            available: true,
            finished: false,
            started: false,
            start_time_seconds: NO_TIME,
            fade_in_start_time_seconds: 0,
            end_time_seconds: NO_TIME,
            state_time_seconds: 0,
            state_weight: 0,
            last_event_check_seconds: 0,
            fade_out_seconds: 0,
            is_triggered_fade_out: false,
        }
    }

    /// Asks the entry to fade out over `fade_out_s`.
    pub fn set_fade_out(&mut self, fade_out_s: u32)
        ensures
            *final(self) == (MotionQueueEntry { fade_out_seconds: fade_out_s, is_triggered_fade_out: true, ..*old(self) }),
    {
        self.fade_out_seconds = fade_out_s;
        self.is_triggered_fade_out = true;
    }

    /// Records the time and weight of the entry's last update.
    pub fn set_state(&mut self, time_s: u32, weight: u32)
        ensures
            *final(self) == (MotionQueueEntry { state_time_seconds: time_s, state_weight: weight, ..*old(self) }),
    {
        self.state_time_seconds = time_s;
        self.state_weight = weight;
    }
}

/// The motions being played, oldest first.
pub struct MotionQueueManager<M> {
    pub user_time_seconds: u32,
    pub motions: Vec<MotionQueueEntry<M>>,
    pub id_counter: usize,
}

/// The ids of the queued entries.
pub open spec fn ids_of<M>(entries: Seq<MotionQueueEntry<M>>) -> Seq<usize> {
    entries.map_values(|e: MotionQueueEntry<M>| e.id)
}

/// The entries that are not finished, in order.
pub open spec fn unfinished<M>(entries: Seq<MotionQueueEntry<M>>) -> Seq<MotionQueueEntry<M>> {
    entries.filter(|e: MotionQueueEntry<M>| !e.finished)
}

/// Whether the motion with `id` is finished: the first entry with that id
/// says; an id that is not queued counts as finished.
pub open spec fn finished_spec<M>(entries: Seq<MotionQueueEntry<M>>, id: usize) -> bool {
    if exists|i: int| 0 <= i < entries.len() && (#[trigger] entries[i]).id == id {
        entries[choose|i: int|
            0 <= i < entries.len() && entries[i].id == id && forall|j: int|
                0 <= j < i ==> (#[trigger] entries[j]).id != id].finished
    } else {
        true
    }
}

impl<M> MotionQueueManager<M> {
    /// The entries carry distinct ids, each below the id counter.
    pub open spec fn wf(&self) -> bool {
        &&& forall|i: int| 0 <= i < self.motions@.len() ==> (#[trigger] self.motions@[i]).id < self.id_counter
        &&& forall|i: int, j: int|
            0 <= i < j < self.motions@.len() ==> (#[trigger] self.motions@[i]).id != (#[trigger] self.motions@[j]).id
    }

    pub fn new() -> (m: Self)
        ensures
            m.wf(),
            m.user_time_seconds == 0,
            m.motions@.len() == 0,
            m.id_counter == 0,
    {
        MotionQueueManager { user_time_seconds: 0, motions: Vec::new(), id_counter: 0 }
    }

    /// Queues `motion` under a new id and returns the id. Every entry already
    /// queued is asked to fade out, over the time given for it in
    /// `fade_out_seconds` (what its motion names as its fade-out time).
    pub fn start_motion(&mut self, motion: M, auto_delete: bool, fade_out_seconds: &Vec<u32>) -> (id: usize)
        requires
            old(self).wf(),
            old(self).id_counter < usize::MAX,
            fade_out_seconds@.len() == old(self).motions@.len(),
        ensures
            final(self).wf(),
            id == old(self).id_counter,
            final(self).id_counter == old(self).id_counter + 1,
            final(self).user_time_seconds == old(self).user_time_seconds,
            final(self).motions@.len() == old(self).motions@.len() + 1,
            forall|i: int| 0 <= i < old(self).motions@.len() ==> #[trigger] final(self).motions@[i] == (MotionQueueEntry {
                fade_out_seconds: fade_out_seconds@[i],
                is_triggered_fade_out: true,
                ..old(self).motions@[i]
            }),
            final(self).motions@.last() == (MotionQueueEntry {
                auto_delete: auto_delete,
                ..MotionQueueEntry::new_spec(motion, id)
            }),
    {
        let n = self.motions.len();
        let mut i: usize = 0;
        while i < n
            invariant
                n == self.motions@.len(),
                n == old(self).motions@.len(),
                fade_out_seconds@.len() == n,
                i <= n,
                self.id_counter == old(self).id_counter,
                self.user_time_seconds == old(self).user_time_seconds,
                forall|k: int| 0 <= k < i ==> #[trigger] self.motions@[k] == (MotionQueueEntry {
                    fade_out_seconds: fade_out_seconds@[k],
                    is_triggered_fade_out: true,
                    ..old(self).motions@[k]
                }),
                forall|k: int| i <= k < n ==> #[trigger] self.motions@[k] == old(self).motions@[k],
            decreases n - i,
        {
            let ghost before = self.motions@;
            let mut e = self.motions.remove(i);
            e.set_fade_out(fade_out_seconds[i]);
            self.motions.insert(i, e);
            proof {
                assert forall|k: int| 0 <= k < n && k != i implies #[trigger] self.motions@[k] == before[k] by {
                    if k < i {
                        assert(self.motions@[k] == before.remove(i as int)[k]);
                    } else {
                        assert(self.motions@[k] == before.remove(i as int)[k - 1]);
                    }
                }
            }
            i += 1;
        }
        let id = self.id_counter;
        let mut entry = MotionQueueEntry::new(motion, id);
        entry.auto_delete = auto_delete;
        self.id_counter += 1;
        self.motions.push(entry);
        proof {
            assert forall|k: int, l: int| 0 <= k < l < self.motions@.len() implies (#[trigger] self.motions@[k]).id
                != (#[trigger] self.motions@[l]).id by {
                if l < n {
                    assert(old(self).motions@[k].id != old(self).motions@[l].id);
                } else {
                    assert(old(self).motions@[k].id < id);
                }
            }
        }
        id
    }

    /// Drops the finished entries; the others keep their order.
    pub fn remove_finished(&mut self)
        ensures
            old(self).wf() ==> final(self).wf(),
            final(self).motions@ == unfinished(old(self).motions@),
            final(self).id_counter == old(self).id_counter,
            final(self).user_time_seconds == old(self).user_time_seconds,
    {
        let ghost old_motions = self.motions@;
        let mut kept: Vec<MotionQueueEntry<M>> = Vec::new();
        let mut rest: Vec<MotionQueueEntry<M>> = Vec::new();
        std::mem::swap(&mut rest, &mut self.motions);
        let n = rest.len();
        let mut i: usize = 0;
        // take the entries out one by one, from the front
        while i < n
            invariant
                n == old_motions.len(),
                i <= n,
                rest@ == old_motions.subrange(i as int, n as int),
                kept@ == unfinished(old_motions.subrange(0, i as int)),
            decreases n - i,
        {
            let e = rest.remove(0);
            proof {
                assert(old_motions.subrange(0, i as int + 1).drop_last() =~= old_motions.subrange(0, i as int));
                assert(old_motions.subrange(0, i as int + 1).last() == e);
                assert(rest@ =~= old_motions.subrange(i as int + 1, n as int));
                reveal(Seq::filter);
            }
            if !e.finished {
                kept.push(e);
            }
            i += 1;
        }
        proof {
            assert(old_motions.subrange(0, n as int) =~= old_motions);
            if old(self).wf() {
                lemma_filter_keeps_wf(old_motions, self.id_counter);
            }
        }
        self.motions = kept;
    }

    /// Whether every queued motion is finished.
    pub fn is_all_finished(&mut self) -> (r: bool)
        ensures
            *final(self) == *old(self),
            r == forall|i: int| 0 <= i < old(self).motions@.len() ==> (#[trigger] old(self).motions@[i]).finished,
    {
        let n = self.motions.len();
        let mut i: usize = 0;
        while i < n
            invariant
                n == self.motions@.len(),
                *self == *old(self),
                i <= n,
                forall|k: int| 0 <= k < i ==> (#[trigger] self.motions@[k]).finished,
            decreases n - i,
        {
            if !self.motions[i].finished {
                return false;
            }
            i += 1;
        }
        true
    }

    /// Whether the motion with `id` is finished; a motion that is not queued
    /// (any more) counts as finished.
    pub fn is_finished(&self, id: usize) -> (r: bool)
        ensures
            r == finished_spec(self.motions@, id),
    {
        let n = self.motions.len();
        let mut i: usize = 0;
        while i < n
            invariant
                n == self.motions@.len(),
                i <= n,
                forall|k: int| 0 <= k < i ==> (#[trigger] self.motions@[k]).id != id,
            decreases n - i,
        {
            if self.motions[i].id == id {
                proof {
                    let es = self.motions@;
                    let c = choose|c: int| 0 <= c < es.len() && es[c].id == id && forall|j: int|
                        0 <= j < c ==> (#[trigger] es[j]).id != id;
                    assert(es[i as int].id == id);
                    if c < i {
                        assert(es[c].id != id);
                    }
                    if i < c {
                        assert(es[i as int].id == id);
                    }
                }
                return self.motions[i].finished;
            }
            i += 1;
        }
        true
    }

    /// Empties the queue.
    pub fn stop_all_motions(&mut self)
        ensures
            final(self).motions@.len() == 0,
            final(self).id_counter == old(self).id_counter,
            final(self).user_time_seconds == old(self).user_time_seconds,
    {
        self.motions.clear();
    }
}

impl<M> MotionQueueEntry<M> {
    /// What `new` gives.
    pub open spec fn new_spec(motion: M, id: usize) -> Self {
        MotionQueueEntry {
            id,
            auto_delete: false,
            motion,
            available: true,
            finished: false,
            started: false,
            start_time_seconds: NO_TIME,
            fade_in_start_time_seconds: 0,
            end_time_seconds: NO_TIME,
            state_time_seconds: 0,
            state_weight: 0,
            last_event_check_seconds: 0,
            fade_out_seconds: 0,
            is_triggered_fade_out: false,
        }
    }
}

proof fn lemma_filter_keeps_wf<M>(entries: Seq<MotionQueueEntry<M>>, counter: usize)
    requires
        forall|i: int| 0 <= i < entries.len() ==> (#[trigger] entries[i]).id < counter,
        forall|i: int, j: int| 0 <= i < j < entries.len() ==> (#[trigger] entries[i]).id != (#[trigger] entries[j]).id,
    ensures
        forall|i: int| 0 <= i < unfinished(entries).len() ==> (#[trigger] unfinished(entries)[i]).id < counter,
        forall|i: int, j: int|
            0 <= i < j < unfinished(entries).len() ==> (#[trigger] unfinished(entries)[i]).id != (#[trigger] unfinished(entries)[j]).id,
    decreases entries.len(),
{
    if entries.len() > 0 {
        let prev = entries.drop_last();
        lemma_filter_keeps_wf(prev, counter);
        let f = |x: MotionQueueEntry<M>| !x.finished;
        assert(entries.filter(f) == if f(entries.last()) {
            prev.filter(f).push(entries.last())
        } else {
            prev.filter(f)
        }) by {
            reveal(Seq::filter);
        }
        if !entries.last().finished {
            let u = unfinished(entries);
            let pu = unfinished(prev);
            assert forall|i: int| 0 <= i < pu.len() implies (#[trigger] pu[i]).id != entries.last().id by {
                assert(pu.contains(pu[i]));
                prev.lemma_filter_contains_rev(f, pu[i]);
                let k = choose|k: int| 0 <= k < prev.len() && prev[k] == pu[i];
                assert(entries[k] == prev[k]);
            }
            assert forall|i: int| 0 <= i < u.len() implies (#[trigger] u[i]).id < counter by {
                if i < pu.len() {
                    assert(u[i] == pu[i]);
                }
            }
            assert forall|i: int, j: int| 0 <= i < j < u.len() implies (#[trigger] u[i]).id != (#[trigger] u[j]).id by {
                if j < pu.len() {
                    assert(u[i] == pu[i] && u[j] == pu[j]);
                } else {
                    assert(u[i] == pu[i]);
                }
            }
        }
    }
}

/// In a queue whose ids are distinct, a queued entry that is not finished
/// makes its motion report "not finished": a motion just started by
/// `start_motion` is not finished.
pub proof fn lemma_queued_motion_not_finished<M>(m: MotionQueueManager<M>, i: int)
    requires
        m.wf(),
        0 <= i < m.motions@.len(),
        !m.motions@[i].finished,
    ensures
        !finished_spec(m.motions@, m.motions@[i].id),
{
    let es = m.motions@;
    let id = es[i].id;
    assert(es[i].id == id);
    let c = choose|c: int| 0 <= c < es.len() && es[c].id == id && forall|j: int| 0 <= j < c ==> (#[trigger] es[j]).id != id;
    if c < i {
        assert(es[c].id != es[i].id);
    } else if i < c {
        assert(es[i].id != es[c].id);
    }
}

/// After `remove_finished`, a motion whose entry was finished is no longer
/// queued, and reports "finished".
pub proof fn lemma_removed_motion_reports_finished<M>(m: MotionQueueManager<M>, i: int)
    requires
        m.wf(),
        0 <= i < m.motions@.len(),
        m.motions@[i].finished,
    ensures
        forall|k: int| 0 <= k < unfinished(m.motions@).len() ==> (#[trigger] unfinished(m.motions@)[k]).id != m.motions@[i].id,
        finished_spec(unfinished(m.motions@), m.motions@[i].id),
{
    let es = m.motions@;
    let f = |x: MotionQueueEntry<M>| !x.finished;
    let u = es.filter(f);
    assert forall|k: int| 0 <= k < u.len() implies (#[trigger] u[k]).id != es[i].id by {
        assert(u.contains(u[k]));
        es.lemma_filter_contains_rev(f, u[k]);
        es.lemma_filter_pred(f, k);
        let j = choose|j: int| 0 <= j < es.len() && es[j] == u[k];
        if j != i {
            if j < i {
                assert(es[j].id != es[i].id);
            } else {
                assert(es[i].id != es[j].id);
            }
        }
    }
}

} // verus!
