use vstd::prelude::*;

use crate::config::{
    copy_ids, empty_layer, fold_layers, most_specific, most_specific_list, overlay, Config,
    ConfigView, MetaView, Metadata, SubjectView, DEFAULT_COOLDOWN, DEFAULT_INTERVAL,
};

verus! {

/// One polling unit: a (subject, event type) pair with its resolved settings
/// and its scheduling state.
#[derive(Debug, Clone)]
pub struct Task {
    /// Name of the subject.
    pub name: String,
    pub event_type: String,
    /// Seconds between two checks.
    pub interval: u32,
    /// Seconds of quiet after a change was reported.
    pub cooldown: u32,
    pub channels: Vec<u64>,
    pub pings: Vec<u64>,
    /// When the last successful check ended, if any did.
    pub last_checked_at: Option<u64>,
    /// When a change was last reported, if ever.
    pub last_notified_at: Option<u64>,
    /// When the last failed check ended, if any did.
    pub last_failed_at: Option<u64>,
    /// Failed checks since the last successful one.
    pub consecutive_failures: u32,
    /// Whether a poll of it is in flight.
    pub checking: bool,
}

/// The mathematical content of a [`Task`].
pub ghost struct TaskView {
    pub name: Seq<char>,
    pub event_type: Seq<char>,
    pub interval: u32,
    pub cooldown: u32,
    pub channels: Seq<u64>,
    pub pings: Seq<u64>,
    pub last_checked_at: Option<u64>,
    pub last_notified_at: Option<u64>,
    pub last_failed_at: Option<u64>,
    pub consecutive_failures: u32,
    pub checking: bool,
}

impl View for Task {
    type V = TaskView;

    open spec fn view(&self) -> TaskView {
        TaskView {
            name: self.name@,
            event_type: self.event_type@,
            interval: self.interval,
            cooldown: self.cooldown,
            channels: self.channels@,
            pings: self.pings@,
            last_checked_at: self.last_checked_at,
            last_notified_at: self.last_notified_at,
            last_failed_at: self.last_failed_at,
            consecutive_failures: self.consecutive_failures,
            checking: self.checking,
        }
    }
}

/// The views of a sequence of tasks.
pub open spec fn task_views(ts: Seq<Task>) -> Seq<TaskView> {
    ts.map_values(|t: Task| t@)
}

/// A task that has never been checked, with the settings of the folded
/// layer `m` and the fixed defaults where `m` sets no interval or cooldown.
pub open spec fn fresh_task(name: Seq<char>, event_type: Seq<char>, m: MetaView) -> TaskView {
    TaskView {
        name,
        event_type,
        interval: match m.interval {
            Some(v) => v,
            None => DEFAULT_INTERVAL,
        },
        cooldown: match m.cooldown {
            Some(v) => v,
            None => DEFAULT_COOLDOWN,
        },
        channels: m.channels,
        pings: m.pings,
        last_checked_at: None,
        last_notified_at: None,
        last_failed_at: None,
        consecutive_failures: 0,
        checking: false,
    }
}

/// The task that `apply_meta` makes of `t` under layer `m`.
pub open spec fn applied(t: TaskView, m: MetaView) -> TaskView {
    TaskView {
        interval: match m.interval {
            Some(v) => v,
            None => t.interval,
        },
        cooldown: match m.cooldown {
            Some(v) => v,
            None => t.cooldown,
        },
        channels: if m.channels.len() > 0 { m.channels } else { t.channels },
        pings: if m.pings.len() > 0 { m.pings } else { t.pings },
        ..t
    }
}

/// The task resolved for one event type of one subject: the global, the
/// subject and the event type layer folded in that order.
pub open spec fn resolved_task(
    name: Seq<char>,
    event_type: Seq<char>,
    g: MetaView,
    s: MetaView,
    e: MetaView,
) -> TaskView {
    fresh_task(name, event_type, fold_layers(seq![g, s, e]))
}

/// The tasks of one subject, one per event type, in declaration order.
pub open spec fn subject_tasks(name: Seq<char>, s: SubjectView, g: MetaView) -> Seq<TaskView> {
    s.events.map_values(|p: (Seq<char>, MetaView)| resolved_task(name, p.0, g, s.meta, p.1))
}

/// The tasks of the given subjects, subject after subject.
pub open spec fn tasks_of(subjects: Seq<(Seq<char>, SubjectView)>, g: MetaView) -> Seq<TaskView>
    decreases subjects.len(),
{
    if subjects.len() == 0 {
        Seq::empty()
    } else {
        tasks_of(subjects.drop_last(), g) + subject_tasks(
            subjects.last().0,
            subjects.last().1,
            g,
        )
    }
}

/// Every task that a configuration declares.
pub open spec fn resolved_tasks(c: ConfigView) -> Seq<TaskView> {
    tasks_of(c.subjects, c.meta)
}

impl Task {
    /// A task for the given pair with the fixed defaults and no history.
    pub fn new(name: String, event_type: String) -> (r: Task)
        ensures
            r@ == fresh_task(name@, event_type@, empty_layer()),
    {
        Task {
            name,
            event_type,
            interval: DEFAULT_INTERVAL,
            cooldown: DEFAULT_COOLDOWN,
            channels: Vec::new(),
            pings: Vec::new(),
            last_checked_at: None,
            last_notified_at: None,
            last_failed_at: None,
            consecutive_failures: 0,
            checking: false,
        }
    }
}

impl Default for Task {
    fn default() -> (r: Task)
        ensures
            r@ == fresh_task(Seq::empty(), Seq::empty(), empty_layer()),
    {
        Task::new(String::new(), String::new())
    }
}

/// Lays `meta` over the settings of `task`: each field that `meta` sets
/// replaces the task's.
pub fn apply_meta(task: &mut Task, meta: &Metadata)
    ensures
        final(task)@ == applied(old(task)@, meta@),
{
    if let Some(interval) = meta.interval {
        task.interval = interval;
    }
    if let Some(cooldown) = meta.cooldown {
        task.cooldown = cooldown;
    }
    if meta.channels.len() > 0 {
        task.channels = copy_ids(&meta.channels);
    }
    if meta.pings.len() > 0 {
        task.pings = copy_ids(&meta.pings);
    }
}

/// Laying a layer over a fresh task is folding it into the task's layer.
pub proof fn lemma_applied_fresh(name: Seq<char>, event_type: Seq<char>, acc: MetaView, m: MetaView)
    ensures
        applied(fresh_task(name, event_type, acc), m) == fresh_task(
            name,
            event_type,
            overlay(acc, m),
        ),
{
}

/// The fold of three layers, spelled out.
pub proof fn lemma_fold_three(g: MetaView, s: MetaView, e: MetaView)
    ensures
        fold_layers(seq![g, s, e]) == overlay(overlay(overlay(empty_layer(), g), s), e),
{
    let l = seq![g, s, e];
    assert(l.drop_last() =~= seq![g, s]);
    assert(seq![g, s].drop_last() =~= seq![g]);
    assert(seq![g].drop_last() =~= Seq::<MetaView>::empty());
    assert(fold_layers(Seq::<MetaView>::empty()) == empty_layer());
    assert(fold_layers(seq![g]) == overlay(empty_layer(), g));
    assert(fold_layers(seq![g, s]) == overlay(overlay(empty_layer(), g), s));
}

/// The task of one (subject, event type) pair: the global, the subject and
/// the event type layer laid in that order over a task with the defaults.
fn resolve_one(name: &String, event_type: &String, g: &Metadata, s: &Metadata, e: &Metadata) -> (r: Task)
    ensures
        r@ == resolved_task(name@, event_type@, g@, s@, e@),
{
    let mut task = Task::new(name.clone(), event_type.clone());
    proof {
        lemma_applied_fresh(name@, event_type@, empty_layer(), g@);
        lemma_applied_fresh(name@, event_type@, overlay(empty_layer(), g@), s@);
        lemma_applied_fresh(name@, event_type@, overlay(overlay(empty_layer(), g@), s@), e@);
        lemma_fold_three(g@, s@, e@);
    }
    apply_meta(&mut task, g);
    apply_meta(&mut task, s);
    apply_meta(&mut task, e);
    task
}

/// Turns a configuration into its polling tasks: one per event type of each
/// subject, subjects and event types in declaration order. Each setting is
/// taken from the most specific layer that sets it (event type, subject,
/// global), else from the fixed defaults.
pub fn resolve(config: &Config) -> (r: Vec<Task>)
    ensures
        task_views(r@) == resolved_tasks(config@),
{
    let ghost g = config.meta@;
    let ghost subs = config@.subjects;
    let mut tasks: Vec<Task> = Vec::new();
    let mut i: usize = 0;
    while i < config.subjects.len()
        invariant
            i <= config.subjects.len(),
            subs == config@.subjects,
            g == config.meta@,
            task_views(tasks@) == tasks_of(subs.take(i as int), g),
        decreases config.subjects.len() - i,
    {
        let name = &config.subjects[i].0;
        let subject = &config.subjects[i].1;
        let ghost before = task_views(tasks@);
        let ghost st = subject_tasks(name@, subject@, g);
        let mut j: usize = 0;
        while j < subject.events.len()
            invariant
                i < config.subjects.len(),
                name == &config.subjects[i as int].0,
                subject == &config.subjects[i as int].1,
                j <= subject.events.len(),
                g == config.meta@,
                st == subject_tasks(name@, subject@, g),
                task_views(tasks@) == before + st.take(j as int),
            decreases subject.events.len() - j,
        {
            let t = resolve_one(name, &subject.events[j].0, &config.meta, &subject.meta, &subject.events[j].1);
            let ghost prev = tasks@;
            tasks.push(t);
            proof {
                assert(st[j as int] == t@);
                assert(tasks@ == prev.push(t));
                assert(task_views(tasks@) =~= task_views(prev).push(t@));
                assert(st.take(j + 1) =~= st.take(j as int).push(st[j as int]));
            }
            j = j + 1;
            assert(task_views(tasks@) =~= before + st.take(j as int));
        }
        proof {
            assert(subs.take(i + 1).drop_last() =~= subs.take(i as int));
            assert(subs.take(i + 1).last() == subs[i as int]);
            assert(st.take(j as int) =~= st);
        }
        i = i + 1;
    }
    proof {
        assert(subs.take(i as int) =~= subs);
    }
    tasks
}

/// Whether task `t` is the one of event type `j` of subject `i` of `c`,
/// with each setting taken from the most specific layer that sets it.
pub open spec fn settings_from_layers(t: TaskView, c: ConfigView, i: int, j: int) -> bool {
    let s = c.subjects[i].1;
    let e = s.events[j].1;
    &&& t.name == c.subjects[i].0
    &&& t.event_type == s.events[j].0
    &&& t.interval == most_specific(e.interval, s.meta.interval, c.meta.interval, DEFAULT_INTERVAL)
    &&& t.cooldown == most_specific(e.cooldown, s.meta.cooldown, c.meta.cooldown, DEFAULT_COOLDOWN)
    &&& t.channels == most_specific_list(e.channels, s.meta.channels, c.meta.channels)
    &&& t.pings == most_specific_list(e.pings, s.meta.pings, c.meta.pings)
}

/// Every task of the given subjects is the resolved task of one declared
/// (subject, event type) pair.
proof fn lemma_tasks_from_pairs(subs: Seq<(Seq<char>, SubjectView)>, g: MetaView, k: int)
    requires
        0 <= k < tasks_of(subs, g).len(),
    ensures
        exists|i: int, j: int|
            0 <= i < subs.len() && 0 <= j < subs[i].1.events.len() && #[trigger] tasks_of(subs, g)[k]
                == #[trigger] resolved_task(
                subs[i].0,
                subs[i].1.events[j].0,
                g,
                subs[i].1.meta,
                subs[i].1.events[j].1,
            ),
    decreases subs.len(),
{
    let init = subs.drop_last();
    let n = tasks_of(init, g).len();
    if k < n {
        lemma_tasks_from_pairs(init, g, k);
        let (i, j) = choose|i: int, j: int|
            0 <= i < init.len() && 0 <= j < init[i].1.events.len() && #[trigger] tasks_of(init, g)[k]
                == #[trigger] resolved_task(
                init[i].0,
                init[i].1.events[j].0,
                g,
                init[i].1.meta,
                init[i].1.events[j].1,
            );
        assert(init[i] == subs[i]);
        assert(tasks_of(subs, g)[k] == tasks_of(init, g)[k]);
    } else {
        let i = subs.len() - 1;
        let j = k - n;
        assert(tasks_of(subs, g)[k] == subject_tasks(subs.last().0, subs.last().1, g)[j]);
        assert(subs.last() == subs[i]);
        assert(tasks_of(subs, g)[k] == resolved_task(
            subs[i].0,
            subs[i].1.events[j].0,
            g,
            subs[i].1.meta,
            subs[i].1.events[j].1,
        ));
    }
}

/// Every resolved task belongs to a declared (subject, event type) pair,
/// and each of its settings is the one of the most specific layer that sets
/// it: event type, else subject, else global, else the fixed default
/// (7200 s interval, 86400 s cooldown, no channels, no pings).
pub proof fn lemma_resolved_settings(c: ConfigView, k: int)
    requires
        0 <= k < resolved_tasks(c).len(),
    ensures
        exists|i: int, j: int|
            0 <= i < c.subjects.len() && 0 <= j < c.subjects[i].1.events.len()
                && #[trigger] settings_from_layers(resolved_tasks(c)[k], c, i, j),
{
    lemma_tasks_from_pairs(c.subjects, c.meta, k);
    let (i, j) = choose|i: int, j: int|
        0 <= i < c.subjects.len() && 0 <= j < c.subjects[i].1.events.len()
            && #[trigger] tasks_of(c.subjects, c.meta)[k] == #[trigger] resolved_task(
            c.subjects[i].0,
            c.subjects[i].1.events[j].0,
            c.meta,
            c.subjects[i].1.meta,
            c.subjects[i].1.events[j].1,
        );
    lemma_most_specific_wins(
        c.subjects[i].0,
        c.subjects[i].1.events[j].0,
        c.meta,
        c.subjects[i].1.meta,
        c.subjects[i].1.events[j].1,
    );
    assert(settings_from_layers(resolved_tasks(c)[k], c, i, j));
}

/// Resolution is a function of the configuration alone: two resolutions of
/// equal configurations give equal task lists.
pub proof fn lemma_resolve_deterministic(c: ConfigView, d: ConfigView)
    requires
        c == d,
    ensures
        resolved_tasks(c) == resolved_tasks(d),
{
}

/// Each setting of a resolved task is the one of the most specific layer
/// that sets it: event type, else subject, else global, else the fixed
/// default (7200 s interval, 86400 s cooldown, no channels, no pings).
pub proof fn lemma_most_specific_wins(
    name: Seq<char>,
    event_type: Seq<char>,
    g: MetaView,
    s: MetaView,
    e: MetaView,
)
    ensures
        resolved_task(name, event_type, g, s, e).interval == most_specific(
            e.interval,
            s.interval,
            g.interval,
            DEFAULT_INTERVAL,
        ),
        resolved_task(name, event_type, g, s, e).cooldown == most_specific(
            e.cooldown,
            s.cooldown,
            g.cooldown,
            DEFAULT_COOLDOWN,
        ),
        resolved_task(name, event_type, g, s, e).channels == most_specific_list(
            e.channels,
            s.channels,
            g.channels,
        ),
        resolved_task(name, event_type, g, s, e).pings == most_specific_list(
            e.pings,
            s.pings,
            g.pings,
        ),
        resolved_task(name, event_type, g, s, e).name == name,
        resolved_task(name, event_type, g, s, e).event_type == event_type,
{
    lemma_fold_three(g, s, e);
}

} // verus!
