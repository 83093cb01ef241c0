//! Debouncing of filesystem events into reload triggers.
//!
//! The watcher thread reports create and modify events on the configuration
//! directory; other event kinds are ignored. Events arriving while a reload
//! is already scheduled are coalesced into it, so a burst of writes triggers
//! exactly one reload sequence. A short fixed delay sits between the trigger
//! and the read of the file, to avoid observing it mid-write.

use vstd::prelude::*;

verus! {

/// Milliseconds waited after a trigger before the configuration is read.
pub const DEBOUNCE_DELAY_MS: u64 = 50;

/// The kind of a filesystem event, as the host tells them apart.
pub enum FsEventKind {
    Create,
    Modify,
    Remove,
    Other,
}

/// Create and modify events trigger a reload; everything else is ignored.
pub open spec fn triggers_reload(k: FsEventKind) -> bool {
    k is Create || k is Modify
}

/// The watcher callback's decision for one event.
pub fn event_triggers_reload(k: &FsEventKind) -> (r: bool)
    ensures
        r == triggers_reload(*k),
{
    match k {
        FsEventKind::Create => true,
        FsEventKind::Modify => true,
        FsEventKind::Remove => false,
        FsEventKind::Other => false,
    }
}

/// Coalesces filesystem events: the first relevant event schedules a reload,
/// and every further event before that reload runs is absorbed into it.
pub struct Debouncer {
    /// Whether a reload is scheduled but has not run yet.
    pub pending: bool,
}

/// How many reloads a sequence of events schedules, starting from the given
/// pending state.
pub open spec fn schedule_count(events: Seq<FsEventKind>, pending: bool) -> nat
    decreases events.len(),
{
    if events.len() == 0 {
        0
    } else {
        let sched = !pending && triggers_reload(events.first());
        (if sched {
            1nat
        } else {
            0nat
        }) + schedule_count(events.drop_first(), pending || triggers_reload(events.first()))
    }
}

/// Once a reload is pending, further events schedule nothing.
pub proof fn lemma_pending_absorbs(events: Seq<FsEventKind>)
    ensures
        schedule_count(events, true) == 0,
    decreases events.len(),
{
    if events.len() > 0 {
        lemma_pending_absorbs(events.drop_first());
    }
}

/// A burst of relevant events reaching an idle debouncer schedules exactly
/// one reload sequence.
pub proof fn lemma_burst_schedules_once(events: Seq<FsEventKind>)
    requires
        events.len() > 0,
        forall|i: int| 0 <= i < events.len() ==> triggers_reload(events[i]),
    ensures
        schedule_count(events, false) == 1,
{
    assert(triggers_reload(events.first()));
    lemma_pending_absorbs(events.drop_first());
}

impl Debouncer {
    pub fn new() -> (d: Debouncer)
        ensures
            !d.pending,
    {
        Debouncer { pending: false }
    }

    /// Take one event in; the result says whether a reload must be scheduled
    /// now (events while one is pending are coalesced into it).
    pub fn on_event(&mut self, k: &FsEventKind) -> (schedule: bool)
        ensures
            schedule == (!old(self).pending && triggers_reload(*k)),
            final(self).pending == (old(self).pending || triggers_reload(*k)),
    {
        let relevant = event_triggers_reload(k);
        let schedule = !self.pending && relevant;
        self.pending = self.pending || relevant;
        schedule
    }

    /// The scheduled reload runs: the debouncer is idle again. The result
    /// says whether there was anything to run.
    pub fn fire(&mut self) -> (r: bool)
        ensures
            r == old(self).pending,
            !final(self).pending,
    {
        let r = self.pending;
        self.pending = false;
        r
    }

    /// Take a whole burst of events in, counting how many reloads get
    /// scheduled.
    pub fn absorb_events(&mut self, events: &Vec<FsEventKind>) -> (n: usize)
        ensures
            n == schedule_count(events@, old(self).pending),
            final(self).pending == (old(self).pending || exists|i: int|
                0 <= i < events@.len() && triggers_reload(events@[i])),
    {
        let len = events.len();
        let mut n: usize = 0;
        let mut i: usize = 0;
        assert(events@.skip(0) =~= events@);
        while i < len
            invariant
                len == events@.len(),
                i <= len,
                n <= i,
                schedule_count(events@, old(self).pending) == n + schedule_count(
                    events@.skip(i as int),
                    self.pending,
                ),
                self.pending == (old(self).pending || exists|j: int|
                    0 <= j < i && triggers_reload(events@[j])),
            decreases len - i,
        {
            let ghost rest = events@.skip(i as int);
            assert(rest.drop_first() =~= events@.skip(i + 1));
            assert(rest.first() == events@[i as int]);
            let sched = self.on_event(&events[i]);
            if sched {
                n += 1;
            }
            i += 1;
        }
        assert(events@.skip(len as int) =~= Seq::<FsEventKind>::empty());
        n
    }
}

} // verus!
