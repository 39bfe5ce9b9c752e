use vstd::prelude::*;

use crate::model::Event;
use crate::task::{Task, TaskView};

verus! {

/// Extra wait after the first failed check, in seconds.
pub const BACKOFF_BASE: u64 = 60;

/// Largest extra wait after failed checks, in seconds.
pub const BACKOFF_CAP: u64 = 3600;

/// Extra wait after `n` consecutive failed checks: nothing, then
/// `BACKOFF_BASE`, doubling with each further failure up to `BACKOFF_CAP`.
pub open spec fn backoff(n: nat) -> int
    decreases n,
{
    if n == 0 {
        0
    } else if n == 1 {
        BACKOFF_BASE as int
    } else if 2 * backoff((n - 1) as nat) < BACKOFF_CAP {
        2 * backoff((n - 1) as nat)
    } else {
        BACKOFF_CAP as int
    }
}

/// The extra wait never goes beyond the cap and never below nothing.
pub proof fn lemma_backoff_bounded(n: nat)
    ensures
        0 <= backoff(n) <= BACKOFF_CAP,
    decreases n,
{
    if n > 1 {
        lemma_backoff_bounded((n - 1) as nat);
    }
}

/// Once the extra wait reached the cap it stays there.
pub proof fn lemma_backoff_stays_capped(k: nat, n: nat)
    requires
        1 <= k <= n,
        backoff(k) == BACKOFF_CAP,
    ensures
        backoff(n) == BACKOFF_CAP,
    decreases n - k,
{
    if n > k {
        lemma_backoff_stays_capped(k, (n - 1) as nat);
    }
}

/// Extra wait after `failures` consecutive failed checks, in seconds.
pub fn backoff_secs(failures: u32) -> (r: u64)
    ensures
        r == backoff(failures as nat),
{
    if failures == 0 {
        return 0;
    }
    let mut b: u64 = BACKOFF_BASE;
    let mut k: u32 = 1;
    while k < failures && b < BACKOFF_CAP
        invariant
            1 <= k <= failures,
            b == backoff(k as nat),
            b <= BACKOFF_CAP,
        decreases failures - k,
    {
        if 2 * b < BACKOFF_CAP {
            b = 2 * b;
        } else {
            b = BACKOFF_CAP;
        }
        k = k + 1;
    }
    proof {
        if k < failures {
            lemma_backoff_stays_capped(k as nat, failures as nat);
        }
    }
    b
}

/// The earliest time at which checking is due again by the task's own
/// cadence: the interval, plus the backoff of the failures since, counted
/// from the last successful check. A task never checked successfully is due
/// at once, or, after failures, the interval plus the backoff after the
/// last failure.
pub open spec fn check_due(t: TaskView) -> int {
    match t.last_checked_at {
        Some(c) => c + t.interval + backoff(t.consecutive_failures as nat),
        None => if t.consecutive_failures > 0 && t.last_failed_at is Some {
            t.last_failed_at->0 + t.interval + backoff(t.consecutive_failures as nat)
        } else {
            0
        },
    }
}

/// The end of the cooldown after the last reported change, or 0.
pub open spec fn cooldown_end(t: TaskView) -> int {
    match t.last_notified_at {
        Some(n) => n + t.cooldown,
        None => 0,
    }
}

/// The earliest time at which the task becomes due: its cadence and its
/// cooldown must both have run out.
pub open spec fn next_due(t: TaskView) -> int {
    if check_due(t) >= cooldown_end(t) {
        check_due(t)
    } else {
        cooldown_end(t)
    }
}

/// Whether the scheduler may dispatch the task at `now`: no check of it is
/// in flight, and it is due.
pub open spec fn is_due(t: TaskView, now: int) -> bool {
    !t.checking && now >= next_due(t)
}

/// The task once a check of it has been dispatched.
pub open spec fn started(t: TaskView) -> TaskView {
    TaskView { checking: true, ..t }
}

/// What a check found.
#[derive(Debug, PartialEq, Eq, Structural, Clone, Copy)]
pub enum CheckOutcome {
    /// The events show no difference from what was seen before.
    Unchanged,
    /// The events differ from what was seen before; a notice goes out.
    Changed,
    /// The fetch or its decoding failed.
    Failed,
}

/// The task once a check of it ended at `now` with `outcome`. A success
/// advances `last_checked_at` and clears the failures; a change also sets
/// `last_notified_at`; a failure leaves `last_checked_at` as it was and
/// counts one more failure (the count stops at its largest value).
pub open spec fn finished(t: TaskView, now: u64, outcome: CheckOutcome) -> TaskView {
    match outcome {
        CheckOutcome::Unchanged => TaskView {
            last_checked_at: Some(now),
            last_failed_at: None,
            consecutive_failures: 0,
            checking: false,
            ..t
        },
        CheckOutcome::Changed => TaskView {
            last_checked_at: Some(now),
            last_notified_at: Some(now),
            last_failed_at: None,
            consecutive_failures: 0,
            checking: false,
            ..t
        },
        CheckOutcome::Failed => TaskView {
            last_failed_at: Some(now),
            consecutive_failures: if t.consecutive_failures < u32::MAX {
                (t.consecutive_failures + 1) as u32
            } else {
                u32::MAX
            },
            checking: false,
            ..t
        },
    }
}

/// Seconds from `now` until the task becomes due (0 when it is), or `None`
/// while a check of it is in flight or when it falls due only beyond the
/// range of `u64` time.
pub open spec fn wait(t: TaskView, now: int) -> Option<int> {
    if t.checking || next_due(t) > u64::MAX {
        None
    } else if next_due(t) <= now {
        Some(0)
    } else {
        Some(next_due(t) - now)
    }
}

/// The smaller of two waits, where `None` is no wait at all.
pub open spec fn min_wait(a: Option<int>, b: Option<int>) -> Option<int> {
    match (a, b) {
        (Some(x), Some(y)) => Some(if x <= y { x } else { y }),
        (Some(x), None) => Some(x),
        (None, _) => b,
    }
}

/// The shortest wait over the given tasks.
pub open spec fn shortest_wait(ts: Seq<TaskView>, now: int) -> Option<int>
    decreases ts.len(),
{
    if ts.len() == 0 {
        None
    } else {
        min_wait(shortest_wait(ts.drop_last(), now), wait(ts.last(), now))
    }
}

impl Task {
    /// The time at which the task becomes due, or `None` when that lies
    /// beyond the range of `u64`.
    pub fn due_at(&self) -> (r: Option<u64>)
        ensures
            next_due(self@) <= u64::MAX ==> r == Some(next_due(self@) as u64),
            next_due(self@) > u64::MAX ==> r is None,
    {
        let b = backoff_secs(self.consecutive_failures);
        proof {
            lemma_backoff_bounded(self.consecutive_failures as nat);
        }
        let check: u128 = match self.last_checked_at {
            Some(c) => c as u128 + self.interval as u128 + b as u128,
            None => if self.consecutive_failures > 0 && self.last_failed_at.is_some() {
                let f = self.last_failed_at.unwrap();
                f as u128 + self.interval as u128 + b as u128
            } else {
                0
            },
        };
        let cool: u128 = match self.last_notified_at {
            Some(n) => n as u128 + self.cooldown as u128,
            None => 0,
        };
        let due: u128 = if check >= cool { check } else { cool };
        if due <= u64::MAX as u128 {
            Some(due as u64)
        } else {
            None
        }
    }

    /// Whether the task may be dispatched at `now`.
    pub fn is_due(&self, now: u64) -> (r: bool)
        ensures
            r == is_due(self@, now as int),
    {
        if self.checking {
            return false;
        }
        match self.due_at() {
            Some(d) => now >= d,
            None => false,
        }
    }

    /// Marks the task as being checked, if it is due at `now`; tells whether
    /// it did. A task whose check is in flight is never dispatched again.
    pub fn start_check(&mut self, now: u64) -> (r: bool)
        ensures
            r == is_due(old(self)@, now as int),
            r ==> final(self)@ == started(old(self)@),
            !r ==> final(self)@ == old(self)@,
    {
        if self.is_due(now) {
            self.checking = true;
            true
        } else {
            false
        }
    }

    /// Records the end of a check at `now` with its outcome. All fields of
    /// the cycle change together.
    pub fn finish_check(&mut self, now: u64, outcome: CheckOutcome)
        ensures
            final(self)@ == finished(old(self)@, now, outcome),
    {
        match outcome {
            CheckOutcome::Unchanged => {
                self.last_checked_at = Some(now);
                self.last_failed_at = None;
                self.consecutive_failures = 0;
            },
            CheckOutcome::Changed => {
                self.last_checked_at = Some(now);
                self.last_notified_at = Some(now);
                self.last_failed_at = None;
                self.consecutive_failures = 0;
            },
            CheckOutcome::Failed => {
                self.last_failed_at = Some(now);
                if self.consecutive_failures < u32::MAX {
                    self.consecutive_failures = self.consecutive_failures + 1;
                }
            },
        }
        self.checking = false;
    }

    /// Seconds from `now` until the task is due, 0 if it is; `None` while a
    /// check of it is in flight or when the time lies beyond `u64`.
    pub fn time_until_due(&self, now: u64) -> (r: Option<u64>)
        ensures
            r == match wait(self@, now as int) {
                Some(w) => Some(w as u64),
                None => None::<u64>,
            },
    {
        if self.checking {
            return None;
        }
        match self.due_at() {
            Some(d) => if d <= now {
                Some(0)
            } else {
                Some(d - now)
            },
            None => None,
        }
    }
}

/// The part of an event whose change is worth a notice.
#[derive(Debug, PartialEq, Eq, Structural, Clone, Copy)]
pub struct Fingerprint {
    pub starts_at: i64,
    pub ends_at: i64,
    pub deleted: bool,
    pub capacity: i32,
    pub occupied: i32,
}

/// The fingerprint of an event.
pub open spec fn fingerprint_of(e: Event) -> Fingerprint {
    Fingerprint {
        starts_at: e.starts_at,
        ends_at: e.ends_at,
        deleted: e.deleted,
        capacity: e.capacity,
        occupied: e.occupied,
    }
}

/// The fingerprint of an event, for the store of seen events.
pub fn fingerprint(e: &Event) -> (r: Fingerprint)
    ensures
        r == fingerprint_of(*e),
{
    Fingerprint {
        starts_at: e.starts_at,
        ends_at: e.ends_at,
        deleted: e.deleted,
        capacity: e.capacity,
        occupied: e.occupied,
    }
}

/// Whether the fetched events differ from what was seen before:
/// `seen[i]` is the fingerprint stored for `events[i]`, or `None` if that
/// event was never seen.
pub open spec fn differs(events: Seq<Event>, seen: Seq<Option<Fingerprint>>) -> bool {
    exists|i: int| 0 <= i < events.len() && seen[i] != Some(fingerprint_of(#[trigger] events[i]))
}

/// What a successful fetch found, given the stored fingerprint of each
/// fetched event: `Changed` exactly when one is new or differs.
pub fn detect_change(events: &Vec<Event>, seen: &Vec<Option<Fingerprint>>) -> (r: CheckOutcome)
    requires
        events.len() == seen.len(),
    ensures
        r == (if differs(events@, seen@) {
            CheckOutcome::Changed
        } else {
            CheckOutcome::Unchanged
        }),
{
    let mut i: usize = 0;
    while i < events.len()
        invariant
            i <= events.len(),
            events.len() == seen.len(),
            forall|k: int| 0 <= k < i ==> seen@[k] == Some(fingerprint_of(#[trigger] events@[k])),
        decreases events.len() - i,
    {
        let fp = fingerprint(&events[i]);
        let same = match seen[i] {
            Some(s) => s == fp,
            None => false,
        };
        if !same {
            assert(seen@[i as int] != Some(fingerprint_of(events@[i as int])));
            return CheckOutcome::Changed;
        }
        i = i + 1;
    }
    CheckOutcome::Unchanged
}

/// The tasks and their scheduling.
pub struct TaskScheduler {
    pub tasks: Vec<Task>,
}

impl TaskScheduler {
    pub fn new(tasks: Vec<Task>) -> (r: TaskScheduler)
        ensures
            r.tasks@ == tasks@,
    {
        TaskScheduler { tasks }
    }

    /// Dispatches every task that is due at `now` and returns their
    /// indices in increasing order. The other tasks stay as they were.
    pub fn dispatch_due(&mut self, now: u64) -> (r: Vec<usize>)
        ensures
            final(self).tasks.len() == old(self).tasks.len(),
            forall|k: int|
                0 <= k < old(self).tasks.len() ==> (#[trigger] final(self).tasks[k])@ == (if is_due(
                    old(self).tasks[k]@,
                    now as int,
                ) {
                    started(old(self).tasks[k]@)
                } else {
                    old(self).tasks[k]@
                }),
            forall|k: int|
                0 <= k < old(self).tasks.len() ==> (r@.contains(k as usize) <==> is_due(
                    #[trigger] old(self).tasks[k]@,
                    now as int,
                )),
            forall|j: int| 0 <= j < r.len() ==> #[trigger] r[j] < old(self).tasks.len(),
            forall|j: int, l: int| 0 <= j < l < r.len() ==> #[trigger] r[j] < #[trigger] r[l],
    {
        let ghost old_tasks = self.tasks@;
        let mut r: Vec<usize> = Vec::new();
        let mut i: usize = 0;
        while i < self.tasks.len()
            invariant
                i <= self.tasks.len(),
                self.tasks.len() == old_tasks.len(),
                forall|k: int|
                    0 <= k < i ==> (#[trigger] self.tasks[k])@ == (if is_due(
                        old_tasks[k]@,
                        now as int,
                    ) {
                        started(old_tasks[k]@)
                    } else {
                        old_tasks[k]@
                    }),
                forall|k: int| i <= k < self.tasks.len() ==> #[trigger] self.tasks[k] == old_tasks[k],
                forall|k: int|
                    0 <= k < i ==> (r@.contains(k as usize) <==> is_due(
                        #[trigger] old_tasks[k]@,
                        now as int,
                    )),
                forall|j: int| 0 <= j < r.len() ==> #[trigger] r[j] < i,
                forall|j: int, l: int| 0 <= j < l < r.len() ==> #[trigger] r[j] < #[trigger] r[l],
            decreases self.tasks.len() - i,
        {
            let mut t = self.tasks.remove(i);
            let due = t.start_check(now);
            self.tasks.insert(i, t);
            let ghost r_old = r@;
            if due {
                r.push(i);
            }
            proof {
                assert forall|k: int| 0 <= k < i + 1 implies (r@.contains(k as usize) <==> is_due(
                    #[trigger] old_tasks[k]@,
                    now as int,
                )) by {
                    if r@.contains(k as usize) {
                        let j = choose|j: int| 0 <= j < r@.len() && r@[j] == k as usize;
                        if j < r_old.len() {
                            assert(r_old[j] == k as usize);
                            assert(r_old.contains(k as usize));
                        }
                    }
                    if k < i && r_old.contains(k as usize) {
                        let j = choose|j: int| 0 <= j < r_old.len() && r_old[j] == k as usize;
                        assert(r@[j] == k as usize);
                    }
                    if k == i && due {
                        assert(r@[r@.len() - 1] == i);
                    }
                }
            }
            i = i + 1;
        }
        r
    }

    /// Records the end of the check of task `idx` at `now`. No other task
    /// changes: one task's failure touches no other.
    pub fn complete(&mut self, idx: usize, now: u64, outcome: CheckOutcome)
        requires
            idx < old(self).tasks.len(),
        ensures
            final(self).tasks.len() == old(self).tasks.len(),
            final(self).tasks[idx as int]@ == finished(old(self).tasks[idx as int]@, now, outcome),
            forall|k: int|
                0 <= k < old(self).tasks.len() && k != idx ==> #[trigger] final(self).tasks[k]
                    == old(self).tasks[k],
    {
        let mut t = self.tasks.remove(idx);
        t.finish_check(now, outcome);
        self.tasks.insert(idx, t);
    }

    /// How long to sleep from `now`: the shortest wait over all tasks, or
    /// `None` when no task waits (none, all in flight, or all due beyond
    /// the range of `u64`).
    pub fn sleep_for(&self, now: u64) -> (r: Option<u64>)
        ensures
            r == match shortest_wait(task_views_of(self.tasks@), now as int) {
                Some(w) => Some(w as u64),
                None => None::<u64>,
            },
    {
        let ghost ts = task_views_of(self.tasks@);
        let mut best: Option<u64> = None;
        let mut i: usize = 0;
        while i < self.tasks.len()
            invariant
                i <= self.tasks.len(),
                ts == task_views_of(self.tasks@),
                best == match shortest_wait(ts.take(i as int), now as int) {
                    Some(w) => Some(w as u64),
                    None => None::<u64>,
                },
                shortest_wait(ts.take(i as int), now as int) is Some ==> 0 <= shortest_wait(
                    ts.take(i as int),
                    now as int,
                )->0 <= u64::MAX,
            decreases self.tasks.len() - i,
        {
            let w = self.tasks[i].time_until_due(now);
            proof {
                assert(ts.take(i + 1).drop_last() =~= ts.take(i as int));
                assert(ts.take(i + 1).last() == self.tasks[i as int]@);
            }
            best = match (best, w) {
                (Some(x), Some(y)) => Some(if x <= y { x } else { y }),
                (Some(x), None) => Some(x),
                (None, _) => w,
            };
            i = i + 1;
        }
        proof {
            assert(ts.take(i as int) =~= ts);
        }
        best
    }
}

/// Sleep when no task waits at all, in seconds.
pub const IDLE_SLEEP: u64 = 60;

/// Shortest sleep between two ticks, in seconds.
pub const MIN_SLEEP: u64 = 1;

/// The sleep of the loop after a tick, given the shortest wait: that wait,
/// at least `MIN_SLEEP`; `IDLE_SLEEP` when no task waits.
pub open spec fn tick_sleep(w: Option<int>) -> int {
    match w {
        Some(x) => if x < MIN_SLEEP {
            MIN_SLEEP as int
        } else {
            x
        },
        None => IDLE_SLEEP as int,
    }
}

impl TaskScheduler {
    /// Seconds to sleep from `now` before the next tick.
    pub fn next_sleep(&self, now: u64) -> (r: u64)
        ensures
            r == tick_sleep(shortest_wait(task_views_of(self.tasks@), now as int)),
    {
        proof {
            let ts = task_views_of(self.tasks@);
            lemma_shortest_wait_is_min(ts, now as int);
            if shortest_wait(ts, now as int) is Some {
                let k = choose|k: int|
                    0 <= k < ts.len() && #[trigger] wait(ts[k], now as int) == shortest_wait(
                        ts,
                        now as int,
                    );
                assert(0 <= shortest_wait(ts, now as int)->0 <= u64::MAX);
            }
        }
        match self.sleep_for(now) {
            Some(w) => if w < MIN_SLEEP {
                MIN_SLEEP
            } else {
                w
            },
            None => IDLE_SLEEP,
        }
    }
}

/// The views of a sequence of tasks.
pub open spec fn task_views_of(ts: Seq<Task>) -> Seq<TaskView> {
    ts.map_values(|t: Task| t@)
}

/// The scheduler sleeps no longer than any task waits, and exactly as long
/// as some task waits.
pub proof fn lemma_shortest_wait_is_min(ts: Seq<TaskView>, now: int)
    ensures
        forall|k: int|
            0 <= k < ts.len() && (#[trigger] wait(ts[k], now)) is Some ==> shortest_wait(ts, now) is Some
                && shortest_wait(ts, now)->0 <= wait(ts[k], now)->0,
        shortest_wait(ts, now) is Some ==> exists|k: int|
            0 <= k < ts.len() && #[trigger] wait(ts[k], now) == shortest_wait(ts, now),
    decreases ts.len(),
{
    if ts.len() > 0 {
        let init = ts.drop_last();
        lemma_shortest_wait_is_min(init, now);
        assert forall|k: int| 0 <= k < init.len() implies #[trigger] ts[k] == init[k] by {}
        if shortest_wait(init, now) is Some {
            let k = choose|k: int| 0 <= k < init.len() && #[trigger] wait(init[k], now) == shortest_wait(init, now);
            assert(wait(ts[k], now) == wait(init[k], now));
        }
        assert(wait(ts[ts.len() - 1], now) == wait(ts.last(), now));
    }
}

/// After a change was reported at time `n`, the task does not become due
/// before `n + cooldown`, whatever its interval says.
pub proof fn lemma_cooldown_suppresses(t: TaskView, now: int)
    requires
        t.last_notified_at is Some,
        now < t.last_notified_at->0 + t.cooldown,
    ensures
        !is_due(t, now),
{
}

/// A check that found a change starts the cooldown: from the end of that
/// check until the cooldown has passed the task is not due.
pub proof fn lemma_change_starts_cooldown(t: TaskView, at: u64, now: int)
    requires
        now < at + t.cooldown,
    ensures
        !is_due(finished(t, at, CheckOutcome::Changed), now),
{
}

/// A task whose check is in flight is never dispatched.
pub proof fn lemma_in_flight_not_due(t: TaskView, now: int)
    requires
        t.checking,
    ensures
        !is_due(t, now),
{
}

/// A failed check leaves the time of the last successful check as it was,
/// counts the failure, and puts the backoff of all failures so far on top
/// of the interval, counted from the last successful check.
pub proof fn lemma_failure_backs_off(t: TaskView, at: u64)
    requires
        t.consecutive_failures < u32::MAX,
        t.last_checked_at is Some,
    ensures
        finished(t, at, CheckOutcome::Failed).last_checked_at == t.last_checked_at,
        finished(t, at, CheckOutcome::Failed).consecutive_failures == t.consecutive_failures + 1,
        check_due(finished(t, at, CheckOutcome::Failed)) == t.last_checked_at->0 + t.interval
            + backoff((t.consecutive_failures + 1) as nat),
{
}

/// A task that was checked at `c` and has failed `n` times since becomes due,
/// outside any cooldown and with no check in flight, exactly when `now - c`
/// reaches the interval plus the backoff of `n` failures.
pub proof fn lemma_due_after_interval_and_backoff(t: TaskView, now: int)
    requires
        t.last_checked_at is Some,
        !t.checking,
        t.last_notified_at is None || now >= t.last_notified_at->0 + t.cooldown,
    ensures
        is_due(t, now) <==> now - t.last_checked_at->0 >= t.interval + backoff(
            t.consecutive_failures as nat,
        ),
{
    lemma_backoff_bounded(t.consecutive_failures as nat);
}

} // verus!
