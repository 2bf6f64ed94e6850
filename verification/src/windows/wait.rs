//! Waiting until a set of processes has exited.
//!
//! Real process handles are used where they can be opened; processes whose handle cannot be
//! opened fall back to looking at the process table again and again. [`ExitWait`] decides what
//! to do next; the caller does it and reports what came of it.

use vstd::prelude::*;

use super::process::{
    alive, alive_of, contains_pid, lemma_filter_push, pids_of, process_models, table_view,
    ProcessModel, SnapshotError, Table,
};

verus! {

/// The system waits for at most this many handles at once.
pub const MAX_WAIT_OBJECTS: usize = 64;

/// Nanoseconds between two looks at processes whose handle cannot be opened.
pub const POLL_INTERVAL: u128 = 50_000_000;

/// What the system reports when every handle was signalled.
pub const WAIT_OBJECT_0: u32 = 0;

/// What the system reports when the time ran out first.
pub const WAIT_TIMEOUT: u32 = 258;

/// A time in nanoseconds as the system's wait takes it: whole milliseconds, at most the largest
/// value of the type.
pub open spec fn wait_time(remaining: u128) -> int {
    if remaining / 1_000_000 <= u32::MAX {
        remaining as int / 1_000_000
    } else {
        u32::MAX as int
    }
}

/// A time in nanoseconds as the system's wait takes it.
pub fn wait_ms(remaining: u128) -> (ms: u32)
    ensures
        ms == wait_time(remaining),
{
    let whole: u128 = remaining / 1_000_000;
    if whole <= u32::MAX as u128 {
        whole as u32
    } else {
        u32::MAX
    }
}

/// How far a wait has come. The times are what was left in nanoseconds when the clock was read.
#[derive(Clone, Copy, Debug, PartialEq, Eq)]
pub enum WaitState {
    /// A handle is to be opened for each process.
    Opening,
    /// The processes without a handle are to be looked up.
    Sifting,
    /// The clock is to be read.
    Timing,
    /// The handles are to be waited for.
    Holding(u128),
    /// The handles are no longer trusted, and every process is to be looked up.
    Recovering,
    /// The processes without a handle are to be looked up again.
    Polling(u128),
    /// Nothing is to be done for a moment.
    Resting(u128),
    /// The wait is over; whether every process has exited.
    Over(bool),
}

/// What the caller is to do next.
#[derive(Debug, PartialEq, Eq)]
pub enum WaitAction<'a> {
    /// Open a handle for each of the processes.
    Open(&'a [u32]),
    /// Read the process table.
    Inspect,
    /// Read how much time is left.
    ReadClock,
    /// Wait until all of the first `count` handles are signalled.
    Hold { count: usize, ms: u32 },
    /// Do nothing for so many nanoseconds.
    Sleep(u128),
    /// The wait is over; whether every process has exited.
    Finish(bool),
}

/// What came of an action.
pub enum WaitEvent {
    /// For each of the processes whether its handle was opened.
    Opened(Vec<bool>),
    Table(Table),
    /// The time that is left, in nanoseconds.
    Remaining(u128),
    /// The status that the wait for the handles reported.
    Held(u32),
    Slept,
}

/// What came of an action, as a mathematical value.
pub enum WaitEventModel {
    Opened(Seq<bool>),
    Table(Result<Seq<ProcessModel>, SnapshotError>),
    Remaining(u128),
    Held(u32),
    Slept,
}

impl View for WaitEvent {
    type V = WaitEventModel;

    open spec fn view(&self) -> WaitEventModel {
        match *self {
            WaitEvent::Opened(opened) => WaitEventModel::Opened(opened@),
            WaitEvent::Table(table) => WaitEventModel::Table(table_view(table)),
            WaitEvent::Remaining(remaining) => WaitEventModel::Remaining(remaining),
            WaitEvent::Held(status) => WaitEventModel::Held(status),
            WaitEvent::Slept => WaitEventModel::Slept,
        }
    }
}

/// A wait in progress.
pub struct ExitWait {
    /// Every process that is waited for, each once.
    pub pending: Vec<u32>,
    /// The processes whose handle is held and was not signalled yet, in the order of the handles.
    pub handles: Vec<u32>,
    /// The processes without a handle that were alive when last looked up.
    pub poll: Vec<u32>,
    pub state: WaitState,
}

/// A wait in progress, as a mathematical value.
#[verifier::ext_equal]
pub struct WaitModel {
    pub pending: Seq<u32>,
    pub handles: Seq<u32>,
    pub poll: Seq<u32>,
    pub state: WaitState,
}

impl View for ExitWait {
    type V = WaitModel;

    open spec fn view(&self) -> WaitModel {
        WaitModel {
            pending: self.pending@,
            handles: self.handles@,
            poll: self.poll@,
            state: self.state,
        }
    }
}

/// The pids without zeros and repetitions, in the order in which they are first seen.
pub open spec fn distinct(pids: Seq<u32>) -> Seq<u32>
    decreases pids.len(),
{
    if pids.len() == 0 {
        Seq::empty()
    } else {
        let seen = distinct(pids.drop_last());
        if pids.last() == 0 || seen.contains(pids.last()) {
            seen
        } else {
            seen.push(pids.last())
        }
    }
}

/// The pids whose flag is `flag`.
pub open spec fn flagged(pids: Seq<u32>, flags: Seq<bool>, flag: bool) -> Seq<u32>
    decreases pids.len(),
{
    if pids.len() == 0 || flags.len() == 0 {
        Seq::empty()
    } else {
        let front = flagged(pids.drop_last(), flags.drop_last(), flag);
        if flags.last() == flag {
            front.push(pids.last())
        } else {
            front
        }
    }
}

/// An ascending sequence with one more element, unless it holds it already.
pub open spec fn inserted(ascending: Seq<u32>, pid: u32) -> Seq<u32>
    decreases ascending.len(),
{
    if ascending.len() == 0 {
        seq![pid]
    } else if ascending.last() < pid {
        ascending.push(pid)
    } else if ascending.last() == pid {
        ascending
    } else {
        inserted(ascending.drop_last(), pid).push(ascending.last())
    }
}

/// The elements in ascending order, each once.
pub open spec fn ascending_of(pids: Seq<u32>) -> Seq<u32>
    decreases pids.len(),
{
    if pids.len() == 0 {
        Seq::empty()
    } else {
        inserted(ascending_of(pids.drop_last()), pids.last())
    }
}

/// The wait for the processes `pids` as it begins.
pub open spec fn wait_begun(pids: Seq<u32>) -> WaitModel {
    let pending = distinct(pids);
    WaitModel {
        pending,
        handles: Seq::empty(),
        poll: Seq::empty(),
        state: if pending.len() == 0 {
            WaitState::Over(true)
        } else {
            WaitState::Opening
        },
    }
}

impl WaitModel {
    /// The wait ends with success as soon as nothing is left to wait for, and goes on otherwise.
    pub open spec fn settled(self) -> WaitModel {
        WaitModel {
            state: if self.handles.len() == 0 && self.poll.len() == 0 {
                WaitState::Over(true)
            } else {
                WaitState::Timing
            },
            ..self
        }
    }

    /// The processes that are polled are looked up; a table that cannot be read keeps the
    /// conservative answer that all of them are alive.
    pub open spec fn looked_up(
        self,
        table: Result<Seq<ProcessModel>, SnapshotError>,
    ) -> WaitModel {
        match table {
            Ok(processes) => WaitModel { poll: alive_of(processes, self.poll), ..self },
            Err(_) => self,
        }
    }

    /// The processes that are polled and no longer in the table are dropped.
    pub open spec fn retained(self, table: Result<Seq<ProcessModel>, SnapshotError>) -> WaitModel {
        match table {
            Ok(processes) => WaitModel {
                poll: self.poll.filter(|pid: u32| pids_of(processes).contains(pid)),
                ..self
            },
            Err(_) => self,
        }
    }

    /// How many handles are waited for at once.
    pub open spec fn batch(self) -> int {
        if self.handles.len() <= MAX_WAIT_OBJECTS {
            self.handles.len() as int
        } else {
            MAX_WAIT_OBJECTS as int
        }
    }

    /// The wait after an event. An event that was not asked for changes nothing.
    pub open spec fn after(self, event: WaitEventModel) -> WaitModel {
        match (self.state, event) {
            (WaitState::Opening, WaitEventModel::Opened(opened)) => {
                if opened.len() == self.pending.len() {
                    let next = WaitModel {
                        handles: flagged(self.pending, opened, true),
                        poll: flagged(self.pending, opened, false),
                        ..self
                    };
                    if next.poll.len() > 0 {
                        WaitModel { state: WaitState::Sifting, ..next }
                    } else {
                        next.settled()
                    }
                } else {
                    self
                }
            },
            (WaitState::Sifting, WaitEventModel::Table(table)) => self.looked_up(table).settled(),
            (WaitState::Recovering, WaitEventModel::Table(table)) => {
                self.looked_up(table).settled()
            },
            (WaitState::Timing, WaitEventModel::Remaining(remaining)) => WaitModel {
                state: if remaining == 0 {
                    WaitState::Over(false)
                } else if self.handles.len() > 0 {
                    WaitState::Holding(remaining)
                } else {
                    WaitState::Polling(remaining)
                },
                ..self
            },
            (WaitState::Holding(remaining), WaitEventModel::Held(status)) => {
                if status == WAIT_OBJECT_0 {
                    WaitModel { handles: self.handles.skip(self.batch()), ..self }.settled()
                } else if status != WAIT_TIMEOUT {
                    WaitModel {
                        handles: Seq::empty(),
                        poll: ascending_of(self.poll + self.pending),
                        state: WaitState::Recovering,
                        ..self
                    }
                } else if self.poll.len() > 0 {
                    WaitModel { state: WaitState::Polling(remaining), ..self }
                } else {
                    self.settled()
                }
            },
            (WaitState::Polling(remaining), WaitEventModel::Table(table)) => {
                let next = self.retained(table);
                if next.handles.len() == 0 && next.poll.len() == 0 {
                    WaitModel { state: WaitState::Over(true), ..next }
                } else {
                    WaitModel { state: WaitState::Resting(remaining), ..next }
                }
            },
            (WaitState::Resting(_), WaitEventModel::Slept) => self.settled(),
            _ => self,
        }
    }

    /// Whether the caller is to do `action` next.
    pub open spec fn asks(self, action: WaitAction) -> bool {
        match (self.state, action) {
            (WaitState::Opening, WaitAction::Open(pids)) => pids@ == self.pending,
            (WaitState::Sifting, WaitAction::Inspect) => true,
            (WaitState::Recovering, WaitAction::Inspect) => true,
            (WaitState::Polling(_), WaitAction::Inspect) => true,
            (WaitState::Timing, WaitAction::ReadClock) => true,
            (WaitState::Holding(remaining), WaitAction::Hold { count, ms }) => {
                count == self.batch() && ms == wait_time(remaining)
            },
            (WaitState::Resting(remaining), WaitAction::Sleep(nanos)) => {
                nanos == if remaining <= POLL_INTERVAL {
                    remaining
                } else {
                    POLL_INTERVAL
                }
            },
            (WaitState::Over(exited), WaitAction::Finish(result)) => exited == result,
            _ => false,
        }
    }

    /// The processes that an event shows to have exited: those whose handles were all
    /// signalled, or those that a complete process table does not hold.
    pub open spec fn shown_gone(self, event: WaitEventModel, pid: u32) -> bool {
        match event {
            WaitEventModel::Held(status) => {
                &&& self.state is Holding
                &&& status == WAIT_OBJECT_0
                &&& self.handles.take(self.batch()).contains(pid)
            },
            WaitEventModel::Table(Ok(processes)) => !pids_of(processes).contains(pid),
            _ => false,
        }
    }

    /// The wait after a whole sequence of events.
    pub open spec fn run(self, events: Seq<WaitEventModel>) -> WaitModel
        decreases events.len(),
    {
        if events.len() == 0 {
            self
        } else {
            self.run(events.drop_last()).after(events.last())
        }
    }

    /// Whether the event `k` of a sequence shows that `pid` has exited.
    pub open spec fn witnessed(self, events: Seq<WaitEventModel>, k: int, pid: u32) -> bool {
        self.run(events.take(k)).shown_gone(events[k], pid)
    }

    /// Whether each process is still waited for or is in `gone`.
    pub open spec fn covered(self, gone: spec_fn(u32) -> bool) -> bool {
        forall|pid: u32| #[trigger]
            self.pending.contains(pid) ==> self.handles.contains(pid) || self.poll.contains(pid)
                || gone(pid)
    }

    /// What every wait keeps.
    pub open spec fn sound(self, gone: spec_fn(u32) -> bool) -> bool {
        match self.state {
            WaitState::Opening => true,
            WaitState::Over(exited) => {
                self.covered(gone) && (exited ==> self.handles.len() == 0 && self.poll.len() == 0)
            },
            _ => self.covered(gone),
        }
    }
}

proof fn lemma_filter_contains<A>(s: Seq<A>, keep: spec_fn(A) -> bool, e: A)
    ensures
        s.filter(keep).contains(e) <==> s.contains(e) && keep(e),
    decreases s.len(),
{
    reveal(Seq::filter);
    if s.len() > 0 {
        let front = s.drop_last();
        lemma_filter_contains(front, keep, e);
        lemma_filter_push(front, keep, s.last());
        assert(s == front.push(s.last()));
        lemma_push_contains(front, s.last(), e);
        lemma_push_contains(front.filter(keep), s.last(), e);
    }
}

proof fn lemma_push_contains<A>(s: Seq<A>, last: A, e: A)
    ensures
        s.push(last).contains(e) <==> s.contains(e) || e == last,
{
    if s.contains(e) {
        let i = choose|i: int| 0 <= i < s.len() && s[i] == e;
        assert(s.push(last)[i] == e);
    }
    assert(s.push(last)[s.len() as int] == last);
}

proof fn lemma_flagged(pids: Seq<u32>, flags: Seq<bool>, pid: u32)
    requires
        pids.len() == flags.len(),
    ensures
        pids.contains(pid) ==> flagged(pids, flags, true).contains(pid) || flagged(
            pids,
            flags,
            false,
        ).contains(pid),
    decreases pids.len(),
{
    if pids.len() > 0 {
        let front = pids.drop_last();
        let before = flags.drop_last();
        lemma_flagged(front, before, pid);
        assert(pids == front.push(pids.last()));
        lemma_push_contains(front, pids.last(), pid);
        lemma_push_contains(flagged(front, before, true), pids.last(), pid);
        lemma_push_contains(flagged(front, before, false), pids.last(), pid);
    }
}

proof fn lemma_inserted(ascending: Seq<u32>, pid: u32, e: u32)
    ensures
        inserted(ascending, pid).contains(e) <==> ascending.contains(e) || e == pid,
    decreases ascending.len(),
{
    if ascending.len() == 0 {
        assert(seq![pid][0] == pid);
    } else {
        let front = ascending.drop_last();
        assert(ascending == front.push(ascending.last()));
        lemma_push_contains(ascending, pid, e);
        if ascending.last() > pid {
            lemma_inserted(front, pid, e);
            lemma_push_contains(front, ascending.last(), e);
            lemma_push_contains(inserted(front, pid), ascending.last(), e);
        }
    }
}

/// Putting pids in ascending order keeps exactly the pids that were there.
pub proof fn ascending_keeps_elements(pids: Seq<u32>, e: u32)
    ensures
        ascending_of(pids).contains(e) <==> pids.contains(e),
    decreases pids.len(),
{
    if pids.len() > 0 {
        let front = pids.drop_last();
        ascending_keeps_elements(front, e);
        lemma_inserted(ascending_of(front), pids.last(), e);
        assert(pids == front.push(pids.last()));
        lemma_push_contains(front, pids.last(), e);
    }
}

spec fn strictly_ascending(s: Seq<u32>) -> bool {
    forall|i: int, j: int| 0 <= i < j < s.len() ==> s[i] < s[j]
}

proof fn lemma_inserted_ascending(s: Seq<u32>, pid: u32)
    requires
        strictly_ascending(s),
    ensures
        strictly_ascending(inserted(s, pid)),
        inserted(s, pid).len() > 0,
        s.len() > 0 && s.last() >= pid ==> inserted(s, pid).last() == s.last(),
        s.len() == 0 || s.last() < pid ==> inserted(s, pid).last() == pid,
    decreases s.len(),
{
    if s.len() > 0 && s.last() > pid {
        let front = s.drop_last();
        assert(strictly_ascending(front));
        lemma_inserted_ascending(front, pid);
        let next = inserted(front, pid);
        assert(next.last() < s.last());
        assert forall|i: int, j: int| 0 <= i < j < next.push(s.last()).len() implies next.push(
            s.last(),
        )[i] < next.push(s.last())[j] by {
            if j == next.len() && i < next.len() - 1 {
                assert(next[i] < next[next.len() - 1]);
            }
        }
    } else if s.len() > 0 && s.last() < pid {
        assert forall|i: int, j: int| 0 <= i < j < s.push(pid).len() implies s.push(pid)[i]
            < s.push(pid)[j] by {
            if j == s.len() && i < s.len() - 1 {
                assert(s[i] < s[s.len() - 1]);
            }
        }
    }
}

/// Pids put in ascending order are in ascending order, and none of them occurs twice.
pub proof fn ascending_is_ascending(pids: Seq<u32>, i: int, j: int)
    requires
        0 <= i < j < ascending_of(pids).len(),
    ensures
        ascending_of(pids)[i] < ascending_of(pids)[j],
{
    lemma_ascending(pids);
}

proof fn lemma_ascending(pids: Seq<u32>)
    ensures
        strictly_ascending(ascending_of(pids)),
    decreases pids.len(),
{
    if pids.len() > 0 {
        lemma_ascending(pids.drop_last());
        lemma_inserted_ascending(ascending_of(pids.drop_last()), pids.last());
    }
}

/// A process is waited for exactly when its pid was given and is not zero.
pub proof fn every_process_is_pending(pids: Seq<u32>, pid: u32)
    ensures
        wait_begun(pids).pending.contains(pid) <==> pid != 0 && pids.contains(pid),
    decreases pids.len(),
{
    if pids.len() > 0 {
        let front = pids.drop_last();
        every_process_is_pending(front, pid);
        assert(pids == front.push(pids.last()));
        lemma_push_contains(front, pids.last(), pid);
        lemma_push_contains(distinct(front), pids.last(), pid);
    }
}

proof fn lemma_skip_contains(s: Seq<u32>, n: int, e: u32)
    requires
        0 <= n <= s.len(),
        s.contains(e),
    ensures
        s.take(n).contains(e) || s.skip(n).contains(e),
{
    let i = choose|i: int| 0 <= i < s.len() && s[i] == e;
    if i < n {
        assert(s.take(n)[i] == e);
    } else {
        assert(s.skip(n)[i - n] == e);
    }
}

proof fn lemma_step(m: WaitModel, event: WaitEventModel, gone: spec_fn(u32) -> bool)
    requires
        m.sound(gone),
        m.state == WaitState::Opening ==> m.handles.len() == 0 && m.poll.len() == 0,
    ensures
        m.after(event).sound(|pid: u32| gone(pid) || m.shown_gone(event, pid)),
        m.after(event).state == WaitState::Opening ==> m.after(event) == m,
        m.after(event).pending == m.pending,
{
    let next = m.after(event);
    let known = |pid: u32| gone(pid) || m.shown_gone(event, pid);
    if !(next.state is Opening) {
        assert forall|pid: u32| #[trigger] next.pending.contains(pid) implies next.handles.contains(
            pid,
        ) || next.poll.contains(pid) || known(pid) by {
            assert(m.pending.contains(pid));
            match (m.state, event) {
                (WaitState::Opening, WaitEventModel::Opened(opened)) => {
                    lemma_flagged(m.pending, opened, pid);
                },
                (WaitState::Holding(_), WaitEventModel::Held(status)) => {
                    if status == WAIT_OBJECT_0 {
                        if m.handles.contains(pid) {
                            lemma_skip_contains(m.handles, m.batch(), pid);
                        }
                    } else if status != WAIT_TIMEOUT {
                        let all = m.poll + m.pending;
                        let i = choose|i: int| 0 <= i < m.pending.len() && m.pending[i] == pid;
                        assert(all[m.poll.len() + i] == pid);
                        ascending_keeps_elements(all, pid);
                    }
                },
                (_, WaitEventModel::Table(Ok(processes))) => {
                    lemma_filter_contains(
                        pids_of(processes),
                        |p: u32| m.poll.contains(p),
                        pid,
                    );
                    lemma_filter_contains(
                        m.poll,
                        |p: u32| pids_of(processes).contains(p),
                        pid,
                    );
                },
                _ => {},
            }
        }
    }
}

spec fn known_by(m: WaitModel, events: Seq<WaitEventModel>) -> spec_fn(u32) -> bool {
    |pid: u32| exists|k: int| 0 <= k < events.len() && #[trigger] m.witnessed(events, k, pid)
}

proof fn lemma_run(pids: Seq<u32>, events: Seq<WaitEventModel>)
    ensures
        wait_begun(pids).run(events).sound(known_by(wait_begun(pids), events)),
        wait_begun(pids).run(events).state == WaitState::Opening ==> wait_begun(pids).run(events)
            == wait_begun(pids),
        wait_begun(pids).run(events).pending == wait_begun(pids).pending,
    decreases events.len(),
{
    let start = wait_begun(pids);
    if events.len() == 0 {
        assert(start.pending.len() == 0 ==> start.covered(known_by(start, events)));
    } else {
        let front = events.drop_last();
        let event = events.last();
        let m = start.run(front);
        let before = known_by(start, front);
        lemma_run(pids, front);
        lemma_step(m, event, before);
        let shown = |pid: u32| before(pid) || m.shown_gone(event, pid);
        let known = known_by(start, events);
        let next = start.run(events);
        assert(next == m.after(event));
        assert(next.sound(shown));
        if next.state !is Opening {
            assert forall|pid: u32| #[trigger]
                next.pending.contains(pid) implies next.handles.contains(pid) || next.poll.contains(
                pid,
            ) || known(pid) by {
                if before(pid) {
                    let k = choose|k: int|
                        0 <= k < front.len() && #[trigger] start.witnessed(front, k, pid);
                    assert(events.take(k) == front.take(k));
                    assert(start.witnessed(events, k, pid));
                } else if m.shown_gone(event, pid) {
                    let k = events.len() - 1;
                    assert(events.take(k) == front);
                    assert(start.witnessed(events, k, pid));
                } else {
                    assert(!shown(pid));
                }
            }
        }
    }
}

/// A wait never reports that every process has exited unless each of them was shown to have
/// exited: whatever the caller reports, and in whatever order, some event either signalled its
/// handle or was a complete process table without it.
pub proof fn success_means_every_process_was_seen_gone(
    pids: Seq<u32>,
    events: Seq<WaitEventModel>,
    pid: u32,
)
    requires
        wait_begun(pids).run(events).state == WaitState::Over(true),
        pid != 0,
        pids.contains(pid),
    ensures
        exists|k: int|
            0 <= k < events.len() && #[trigger] wait_begun(pids).witnessed(events, k, pid),
{
    let start = wait_begun(pids);
    let end = start.run(events);
    lemma_run(pids, events);
    every_process_is_pending(pids, pid);
    assert(end.pending.contains(pid));
    assert(end.covered(known_by(start, events)));
    assert(known_by(start, events)(pid));
}

fn insert_ascending(pids: &mut Vec<u32>, pid: u32)
    requires
        strictly_ascending(old(pids)@),
    ensures
        final(pids)@ == inserted(old(pids)@, pid),
{
    let ghost all = pids@;
    let mut at: usize = pids.len();
    while at > 0 && pids[at - 1] > pid
        invariant
            at <= pids@.len(),
            pids@ == all,
            strictly_ascending(all),
            forall|k: int| at <= k < all.len() ==> all[k] > pid,
        decreases at,
    {
        at = at - 1;
    }
    proof {
        lemma_inserted_at(all, pid, at as int);
    }
    if at > 0 && pids[at - 1] == pid {
        return;
    }
    pids.insert(at, pid);
}

proof fn lemma_inserted_at(s: Seq<u32>, pid: u32, at: int)
    requires
        0 <= at <= s.len(),
        forall|k: int| at <= k < s.len() ==> s[k] > pid,
        at > 0 ==> s[at - 1] <= pid,
    ensures
        inserted(s, pid) == if at > 0 && s[at - 1] == pid {
            s
        } else {
            s.insert(at, pid)
        },
    decreases s.len(),
{
    if s.len() > 0 && at < s.len() {
        lemma_inserted_at(s.drop_last(), pid, at);
        assert(s.last() == s[s.len() - 1]);
        if at > 0 && s[at - 1] == pid {
            assert(s.drop_last().push(s.last()) == s);
        } else {
            assert(s.drop_last().insert(at, pid).push(s.last()) == s.insert(at, pid));
        }
    } else if s.len() > 0 {
        assert(s.push(pid) == s.insert(at, pid));
    } else {
        assert(seq![pid] == s.insert(at, pid));
    }
}

fn ascending(first: &Vec<u32>, second: &Vec<u32>) -> (pids: Vec<u32>)
    ensures
        pids@ == ascending_of(first@ + second@),
{
    let ghost all = first@ + second@;
    let mut pids: Vec<u32> = Vec::new();
    let mut i: usize = 0;
    assert(pids@ == ascending_of(all.take(0)));
    while i < first.len()
        invariant
            i <= first@.len(),
            all == first@ + second@,
            pids@ == ascending_of(all.take(i as int)),
        decreases first@.len() - i,
    {
        proof {
            lemma_ascending(all.take(i as int));
            assert(all.take(i + 1).drop_last() == all.take(i as int));
        }
        insert_ascending(&mut pids, first[i]);
        i = i + 1;
    }
    let mut j: usize = 0;
    while j < second.len()
        invariant
            j <= second@.len(),
            all == first@ + second@,
            pids@ == ascending_of(all.take(first@.len() + j)),
        decreases second@.len() - j,
    {
        proof {
            lemma_ascending(all.take(first@.len() + j));
            assert(all.take(first@.len() + j + 1).drop_last() == all.take(first@.len() + j));
        }
        insert_ascending(&mut pids, second[j]);
        j = j + 1;
    }
    assert(all.take(all.len() as int) == all);
    pids
}

fn pick(pids: &Vec<u32>, flags: &Vec<bool>, flag: bool) -> (picked: Vec<u32>)
    requires
        pids@.len() == flags@.len(),
    ensures
        picked@ == flagged(pids@, flags@, flag),
{
    let mut picked: Vec<u32> = Vec::new();
    let mut i: usize = 0;
    while i < pids.len()
        invariant
            i <= pids@.len(),
            pids@.len() == flags@.len(),
            picked@ == flagged(pids@.take(i as int), flags@.take(i as int), flag),
        decreases pids@.len() - i,
    {
        assert(pids@.take(i + 1).drop_last() == pids@.take(i as int));
        assert(flags@.take(i + 1).drop_last() == flags@.take(i as int));
        if flags[i] == flag {
            picked.push(pids[i]);
        }
        i = i + 1;
    }
    assert(pids@.take(i as int) == pids@);
    assert(flags@.take(i as int) == flags@);
    picked
}

fn holds_pid(table: &Vec<super::process::ProcessRef>, pid: u32) -> (found: bool)
    ensures
        found == pids_of(process_models(table@)).contains(pid),
{
    let ghost all = pids_of(process_models(table@));
    let mut i: usize = 0;
    while i < table.len()
        invariant
            i <= table@.len(),
            all == pids_of(process_models(table@)),
            forall|k: int| 0 <= k < i ==> all[k] != pid,
        decreases table@.len() - i,
    {
        assert(all[i as int] == table@[i as int].pid);
        if table[i].pid == pid {
            return true;
        }
        i = i + 1;
    }
    false
}

fn retain_alive(pids: &Vec<u32>, table: &Vec<super::process::ProcessRef>) -> (kept: Vec<u32>)
    ensures
        kept@ == pids@.filter(|pid: u32| pids_of(process_models(table@)).contains(pid)),
{
    let ghost keep = |pid: u32| pids_of(process_models(table@)).contains(pid);
    let mut kept: Vec<u32> = Vec::new();
    let mut i: usize = 0;
    proof {
        reveal(Seq::filter);
        assert(kept@ == pids@.take(0).filter(keep));
    }
    while i < pids.len()
        invariant
            i <= pids@.len(),
            keep == |pid: u32| pids_of(process_models(table@)).contains(pid),
            kept@ == pids@.take(i as int).filter(keep),
        decreases pids@.len() - i,
    {
        proof {
            lemma_filter_push(pids@.take(i as int), keep, pids@[i as int]);
            assert(pids@.take(i + 1) == pids@.take(i as int).push(pids@[i as int]));
        }
        if holds_pid(table, pids[i]) {
            kept.push(pids[i]);
        }
        i = i + 1;
    }
    assert(pids@.take(i as int) == pids@);
    kept
}

/// Begins to wait until every process has exited.
pub fn wait_for_exit(pids: &[u32]) -> (wait: ExitWait)
    ensures
        wait@ == wait_begun(pids@),
{
    let mut pending: Vec<u32> = Vec::new();
    let mut i: usize = 0;
    assert(pending@ == distinct(pids@.take(0)));
    while i < pids.len()
        invariant
            i <= pids@.len(),
            pending@ == distinct(pids@.take(i as int)),
        decreases pids@.len() - i,
    {
        assert(pids@.take(i + 1).drop_last() == pids@.take(i as int));
        let pid = pids[i];
        if pid != 0 && !contains_pid(pending.as_slice(), pid) {
            pending.push(pid);
        }
        i = i + 1;
    }
    assert(pids@.take(i as int) == pids@);
    let state = if pending.len() == 0 {
        WaitState::Over(true)
    } else {
        WaitState::Opening
    };
    ExitWait { pending, handles: Vec::new(), poll: Vec::new(), state }
}

impl ExitWait {
    /// What the caller is to do next.
    pub fn action(&self) -> (action: WaitAction<'_>)
        ensures
            self@.asks(action),
    {
        match self.state {
            WaitState::Opening => WaitAction::Open(self.pending.as_slice()),
            WaitState::Sifting => WaitAction::Inspect,
            WaitState::Recovering => WaitAction::Inspect,
            WaitState::Polling(_) => WaitAction::Inspect,
            WaitState::Timing => WaitAction::ReadClock,
            WaitState::Holding(remaining) => WaitAction::Hold {
                count: self.batch(),
                ms: wait_ms(remaining),
            },
            WaitState::Resting(remaining) => WaitAction::Sleep(
                if remaining <= POLL_INTERVAL {
                    remaining
                } else {
                    POLL_INTERVAL
                },
            ),
            WaitState::Over(exited) => WaitAction::Finish(exited),
        }
    }

    fn batch(&self) -> (count: usize)
        ensures
            count == self@.batch(),
            count <= self.handles@.len(),
    {
        if self.handles.len() <= MAX_WAIT_OBJECTS {
            self.handles.len()
        } else {
            MAX_WAIT_OBJECTS
        }
    }

    fn settle(&mut self)
        ensures
            final(self)@ == old(self)@.settled(),
    {
        self.state = if self.handles.len() == 0 && self.poll.len() == 0 {
            WaitState::Over(true)
        } else {
            WaitState::Timing
        };
    }

    fn look_up(&mut self, table: &Table)
        ensures
            final(self)@ == old(self)@.looked_up(table_view(*table)),
    {
        if let Ok(processes) = table {
            self.poll = alive(processes, self.poll.as_slice());
        }
    }

    /// Takes note of what came of the action. An event that was not asked for changes nothing.
    pub fn handle(&mut self, event: WaitEvent)
        ensures
            final(self)@ == old(self)@.after(event@),
    {
        match (self.state, event) {
            (WaitState::Opening, WaitEvent::Opened(opened)) => {
                if opened.len() == self.pending.len() {
                    self.handles = pick(&self.pending, &opened, true);
                    self.poll = pick(&self.pending, &opened, false);
                    if self.poll.len() > 0 {
                        self.state = WaitState::Sifting;
                    } else {
                        self.settle();
                    }
                }
            },
            (WaitState::Sifting, WaitEvent::Table(table)) => {
                self.look_up(&table);
                self.settle();
            },
            (WaitState::Recovering, WaitEvent::Table(table)) => {
                self.look_up(&table);
                self.settle();
            },
            (WaitState::Timing, WaitEvent::Remaining(remaining)) => {
                self.state = if remaining == 0 {
                    WaitState::Over(false)
                } else if self.handles.len() > 0 {
                    WaitState::Holding(remaining)
                } else {
                    WaitState::Polling(remaining)
                };
            },
            (WaitState::Holding(remaining), WaitEvent::Held(status)) => {
                if status == WAIT_OBJECT_0 {
                    let count = self.batch();
                    self.handles = self.handles.split_off(count);
                    self.settle();
                } else if status != WAIT_TIMEOUT {
                    self.handles = Vec::new();
                    self.poll = ascending(&self.poll, &self.pending);
                    self.state = WaitState::Recovering;
                } else if self.poll.len() > 0 {
                    self.state = WaitState::Polling(remaining);
                } else {
                    self.settle();
                }
            },
            (WaitState::Polling(remaining), WaitEvent::Table(table)) => {
                if let Ok(processes) = &table {
                    self.poll = retain_alive(&self.poll, processes);
                }
                self.state = if self.handles.len() == 0 && self.poll.len() == 0 {
                    WaitState::Over(true)
                } else {
                    WaitState::Resting(remaining)
                };
            },
            (WaitState::Resting(_), WaitEvent::Slept) => {
                self.settle();
            },
            _ => {},
        }
    }
}

/// A wait gives up only when the clock showed that no time was left.
pub proof fn wait_lasts_until_its_time_is_over(pids: Seq<u32>, events: Seq<WaitEventModel>)
    requires
        wait_begun(pids).run(events).state == WaitState::Over(false),
    ensures
        exists|k: int| 0 <= k < events.len() && #[trigger] events[k] == WaitEventModel::Remaining(0),
    decreases events.len(),
{
    if events.len() > 0 {
        let front = events.drop_last();
        if wait_begun(pids).run(front).state == WaitState::Over(false) {
            wait_lasts_until_its_time_is_over(pids, front);
            let k = choose|k: int|
                0 <= k < front.len() && #[trigger] front[k] == WaitEventModel::Remaining(0);
            assert(events[k] == WaitEventModel::Remaining(0));
        } else {
            assert(events[events.len() - 1] == WaitEventModel::Remaining(0));
        }
    }
}

/// A wait ends with success as soon as nothing that it waits for is left: the last handles were
/// signalled and no process is looked up, or a process table that was asked for holds none of the
/// processes that are looked up and no handle is held.
pub proof fn wait_ends_when_everything_has_exited(wait: WaitModel, processes: Seq<ProcessModel>)
    requires
        forall|k: int|
            0 <= k < processes.len() ==> !wait.poll.contains((#[trigger] processes[k]).pid),
    ensures
        wait.state is Holding && wait.handles.len() <= 64 && wait.poll.len() == 0 ==> wait.after(
            WaitEventModel::Held(0),
        ).state == WaitState::Over(true),
        wait.asks(WaitAction::Inspect) && wait.handles.len() == 0 ==> wait.after(
            WaitEventModel::Table(Ok(processes)),
        ).state == WaitState::Over(true),
{
    let running = pids_of(processes);
    let next = wait.after(WaitEventModel::Table(Ok(processes)));
    if wait.asks(WaitAction::Inspect) && wait.handles.len() == 0 {
        assert forall|pid: u32| !next.poll.contains(pid) by {
            lemma_filter_contains(running, |p: u32| wait.poll.contains(p), pid);
            lemma_filter_contains(wait.poll, |p: u32| running.contains(p), pid);
            if running.contains(pid) {
                let k = choose|k: int| 0 <= k < running.len() && running[k] == pid;
                assert(processes[k].pid == pid);
            }
        }
        if next.poll.len() > 0 {
            assert(next.poll.contains(next.poll[0]));
        }
    }
}

/// What a wait for handles does with what the system reported: where it says that all of them were
/// signalled, just these are done with; where the time ran out, none is; on anything else no handle
/// is trusted any more, and every process is looked up.
pub proof fn signal_is_taken_as_reported(wait: WaitModel, status: u32, pid: u32)
    requires
        wait.state is Holding,
    ensures
        ({
            let next = wait.after(WaitEventModel::Held(status));
            &&& status == 0 ==> next.poll == wait.poll && wait.handles == wait.handles.take(
                wait.batch(),
            ) + next.handles
            &&& status == 258 ==> next.poll == wait.poll && next.handles == wait.handles
            &&& status != 0 && status != 258 ==> next.handles.len() == 0 && next.asks(
                WaitAction::Inspect,
            ) && (wait.pending.contains(pid) || wait.poll.contains(pid) <==> next.poll.contains(pid))
        }),
{
    assert(wait.handles =~= wait.handles.take(wait.batch()) + wait.handles.skip(wait.batch()));
    let all = wait.poll + wait.pending;
    ascending_keeps_elements(all, pid);
    if wait.pending.contains(pid) {
        let i = choose|i: int| 0 <= i < wait.pending.len() && wait.pending[i] == pid;
        assert(all[wait.poll.len() + i] == pid);
    }
    if wait.poll.contains(pid) {
        let i = choose|i: int| 0 <= i < wait.poll.len() && wait.poll[i] == pid;
        assert(all[i] == pid);
    }
    if all.contains(pid) {
        let i = choose|i: int| 0 <= i < all.len() && all[i] == pid;
        if i < wait.poll.len() {
            assert(wait.poll[i] == pid);
        } else {
            assert(wait.pending[i - wait.poll.len()] == pid);
        }
    }
}

/// A wait never holds more handles at once than the system allows, never longer than there is time,
/// and never rests longer than that or than the time between two looks.
pub proof fn wait_keeps_to_its_time(wait: WaitModel, left: u128, action: WaitAction)
    requires
        wait.asks(action),
        wait.state == WaitState::Holding(left) || wait.state == WaitState::Resting(left),
    ensures
        match action {
            WaitAction::Hold { count, ms } => {
                &&& count <= 64
                &&& count == 64 || count == wait.handles.len()
                &&& ms * 1_000_000 <= left
                &&& left < (ms + 1) * 1_000_000 || ms == u32::MAX
            },
            WaitAction::Sleep(nanos) => nanos <= left && nanos <= 50_000_000 && (nanos == left
                || nanos == 50_000_000),
            _ => false,
        },
{
}

proof fn lemma_flagged_given(pids: Seq<u32>, flags: Seq<bool>, flag: bool, pid: u32)
    requires
        flagged(pids, flags, flag).contains(pid),
    ensures
        pids.contains(pid),
    decreases pids.len(),
{
    if pids.len() > 0 && flags.len() > 0 {
        let front = pids.drop_last();
        assert(pids == front.push(pids.last()));
        lemma_push_contains(front, pids.last(), pid);
        lemma_push_contains(flagged(front, flags.drop_last(), flag), pids.last(), pid);
        if flagged(front, flags.drop_last(), flag).contains(pid) {
            lemma_flagged_given(front, flags.drop_last(), flag, pid);
        }
    }
}

/// Nothing but the processes that were given is ever waited for.
pub proof fn only_given_processes_are_waited_for(
    pids: Seq<u32>,
    events: Seq<WaitEventModel>,
    pid: u32,
)
    requires
        !pids.contains(pid),
    ensures
        !wait_begun(pids).run(events).handles.contains(pid),
        !wait_begun(pids).run(events).poll.contains(pid),
        !wait_begun(pids).run(events).pending.contains(pid),
    decreases events.len(),
{
    every_process_is_pending(pids, pid);
    if events.len() > 0 {
        let front = events.drop_last();
        only_given_processes_are_waited_for(pids, front, pid);
        lemma_run(pids, events);
        let wait = wait_begun(pids).run(front);
        match (wait.state, events.last()) {
            (WaitState::Opening, WaitEventModel::Opened(opened)) => {
                if flagged(wait.pending, opened, true).contains(pid) {
                    lemma_flagged_given(wait.pending, opened, true, pid);
                }
                if flagged(wait.pending, opened, false).contains(pid) {
                    lemma_flagged_given(wait.pending, opened, false, pid);
                }
            },
            (WaitState::Holding(_), WaitEventModel::Held(status)) => {
                signal_is_taken_as_reported(wait, status, pid);
                let kept = wait.handles.skip(wait.batch());
                if kept.contains(pid) {
                    let i = choose|i: int| 0 <= i < kept.len() && kept[i] == pid;
                    assert(wait.handles[i + wait.batch()] == pid);
                }
            },
            (_, WaitEventModel::Table(Ok(processes))) => {
                lemma_filter_contains(pids_of(processes), |p: u32| wait.poll.contains(p), pid);
                lemma_filter_contains(wait.poll, |p: u32| pids_of(processes).contains(p), pid);
            },
            _ => {},
        }
    }
}

/// A wait goes round: with time left it waits for handles while it holds any and otherwise looks
/// processes up; when the handles took too long it looks up those without one, if there are any;
/// then it rests, and reads the clock again.
pub proof fn wait_goes_round(wait: WaitModel, left: u128, table: Seq<ProcessModel>)
    requires
        left > 0,
        wait.handles.len() > 0 || wait.poll.len() > 0,
    ensures
        wait.state == WaitState::Timing ==> wait.after(WaitEventModel::Remaining(left)).state
            == if wait.handles.len() > 0 {
            WaitState::Holding(left)
        } else {
            WaitState::Polling(left)
        },
        wait.state == WaitState::Timing ==> wait.after(WaitEventModel::Remaining(0)).state
            == WaitState::Over(false),
        wait.state == WaitState::Holding(left) ==> wait.after(WaitEventModel::Held(258)).state
            == if wait.poll.len() > 0 {
            WaitState::Polling(left)
        } else {
            WaitState::Timing
        },
        wait.state == WaitState::Polling(left) ==> ({
            let next = wait.after(WaitEventModel::Table(Ok(table)));
            next.state == WaitState::Resting(left) || next.state == WaitState::Over(true)
        }),
        wait.state == WaitState::Resting(left) ==> wait.after(WaitEventModel::Slept).state
            == WaitState::Timing,
{
}

/// A process table that cannot be read leaves everything that is waited for as it is.
pub proof fn unreadable_table_shows_nothing_gone(wait: WaitModel, error: SnapshotError)
    ensures
        wait.after(WaitEventModel::Table(Err(error))).poll == wait.poll,
        wait.after(WaitEventModel::Table(Err(error))).handles == wait.handles,
{
}

} // verus!
