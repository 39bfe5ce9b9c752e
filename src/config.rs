use vstd::prelude::*;

verus! {

/// Polling interval used when no layer sets one: two hours, in seconds.
pub const DEFAULT_INTERVAL: u32 = 7200;

/// Cooldown used when no layer sets one: one day, in seconds.
pub const DEFAULT_COOLDOWN: u32 = 86400;

/// One layer of settings. Every field is optional: an absent interval or
/// cooldown, and an empty channel or ping list, inherit from the enclosing
/// layer.
pub struct Metadata {
    /// How often to check for updates, in seconds.
    pub interval: Option<u32>,
    /// How long to stay quiet after a change was reported, in seconds.
    pub cooldown: Option<u32>,
    /// Channels that changes are posted to.
    pub channels: Vec<u64>,
    /// Roles that are pinged when changes are posted.
    pub pings: Vec<u64>,
}

/// The mathematical content of a [`Metadata`] layer.
pub ghost struct MetaView {
    pub interval: Option<u32>,
    pub cooldown: Option<u32>,
    pub channels: Seq<u64>,
    pub pings: Seq<u64>,
}

impl View for Metadata {
    type V = MetaView;

    open spec fn view(&self) -> MetaView {
        MetaView {
            interval: self.interval,
            cooldown: self.cooldown,
            channels: self.channels@,
            pings: self.pings@,
        }
    }
}

/// The layer that sets nothing.
pub open spec fn empty_layer() -> MetaView {
    MetaView { interval: None, cooldown: None, channels: Seq::empty(), pings: Seq::empty() }
}

/// `layer` laid over `acc`: each field that `layer` sets replaces the
/// accumulated one, every other field passes through.
pub open spec fn overlay(acc: MetaView, layer: MetaView) -> MetaView {
    MetaView {
        interval: if layer.interval is Some { layer.interval } else { acc.interval },
        cooldown: if layer.cooldown is Some { layer.cooldown } else { acc.cooldown },
        channels: if layer.channels.len() > 0 { layer.channels } else { acc.channels },
        pings: if layer.pings.len() > 0 { layer.pings } else { acc.pings },
    }
}

/// The layers folded from the least specific (first) to the most specific
/// (last), starting from the layer that sets nothing.
pub open spec fn fold_layers(layers: Seq<MetaView>) -> MetaView
    decreases layers.len(),
{
    if layers.len() == 0 {
        empty_layer()
    } else {
        overlay(fold_layers(layers.drop_last()), layers.last())
    }
}

/// The first value that is set, from the most specific layer outwards, or
/// `default` when none is.
pub open spec fn most_specific(e: Option<u32>, s: Option<u32>, g: Option<u32>, default: u32) -> u32 {
    match e {
        Some(v) => v,
        None => match s {
            Some(v) => v,
            None => match g {
                Some(v) => v,
                None => default,
            },
        },
    }
}

/// The first non-empty list, from the most specific layer outwards, or the
/// empty list when all are empty.
pub open spec fn most_specific_list(e: Seq<u64>, s: Seq<u64>, g: Seq<u64>) -> Seq<u64> {
    if e.len() > 0 {
        e
    } else if s.len() > 0 {
        s
    } else {
        g
    }
}

impl Metadata {
    /// The layer that sets nothing.
    pub fn new() -> (r: Metadata)
        ensures
            r@ == empty_layer(),
    {
        Metadata { interval: None, cooldown: None, channels: Vec::new(), pings: Vec::new() }
    }

    /// Whether this layer sets no field at all.
    pub fn is_empty(&self) -> (r: bool)
        ensures
            r == (self@ == empty_layer()),
    {
        let r = self.interval.is_none() && self.cooldown.is_none() && self.channels.len() == 0
            && self.pings.len() == 0;
        proof {
            if r {
                assert(self@.channels =~= Seq::<u64>::empty());
                assert(self@.pings =~= Seq::<u64>::empty());
            }
        }
        r
    }
}

/// A copy of a list of ids.
pub fn copy_ids(v: &Vec<u64>) -> (r: Vec<u64>)
    ensures
        r@ == v@,
{
    let mut r: Vec<u64> = Vec::new();
    let mut i: usize = 0;
    while i < v.len()
        invariant
            i <= v.len(),
            r@ == v@.subrange(0, i as int),
        decreases v.len() - i,
    {
        r.push(v[i]);
        i = i + 1;
        assert(r@ =~= v@.subrange(0, i as int));
    }
    assert(v@.subrange(0, v.len() as int) =~= v@);
    r
}

/// A subject (a monitored course) with the event types watched in it and
/// the settings shared by all of them.
pub struct Subject {
    /// Event types, each with its own layer.
    pub events: Vec<(String, Metadata)>,
    /// The subject's own layer.
    pub meta: Metadata,
}

/// The mathematical content of a [`Subject`].
pub ghost struct SubjectView {
    pub events: Seq<(Seq<char>, MetaView)>,
    pub meta: MetaView,
}

impl View for Subject {
    type V = SubjectView;

    open spec fn view(&self) -> SubjectView {
        SubjectView {
            events: self.events@.map_values(|p: (String, Metadata)| (p.0@, p.1@)),
            meta: self.meta@,
        }
    }
}

/// A calendar file to pull special events from, with its own layer.
pub struct Calendar {
    /// Location of the calendar file.
    pub path: String,
    pub meta: Metadata,
}

/// The whole configuration: global settings and the subjects watched.
pub struct Config {
    /// Where this configuration is saved.
    pub path: String,
    /// Location of the store of seen events.
    pub db: String,
    /// Subjects by name, in the order of declaration.
    pub subjects: Vec<(String, Subject)>,
    /// Calendars by name, in the order of declaration.
    pub calendars: Vec<(String, Calendar)>,
    /// The layer of the news poller, if configured.
    pub news: Option<Metadata>,
    /// The global layer.
    pub meta: Metadata,
}

/// The mathematical content of a [`Config`], as far as resolution reads it.
pub ghost struct ConfigView {
    pub subjects: Seq<(Seq<char>, SubjectView)>,
    pub meta: MetaView,
}

impl View for Config {
    type V = ConfigView;

    open spec fn view(&self) -> ConfigView {
        ConfigView {
            subjects: self.subjects@.map_values(|p: (String, Subject)| (p.0@, p.1@)),
            meta: self.meta@,
        }
    }
}

/// Why a configuration cannot be turned into tasks.
pub enum ConfigError {
    /// Two subjects carry this name.
    DuplicateSubject(String),
    /// The subject of the first name declares the event type of the second
    /// twice.
    DuplicateEventType(String, String),
}

/// Whether no two entries carry the same name.
pub open spec fn names_unique<T>(entries: Seq<(Seq<char>, T)>) -> bool {
    forall|i: int, j: int| 0 <= i < j < entries.len() ==> entries[i].0 != entries[j].0
}

/// Whether a configuration names each subject once, and each event type
/// once within its subject.
pub open spec fn well_formed(c: ConfigView) -> bool {
    &&& names_unique(c.subjects)
    &&& forall|i: int| 0 <= i < c.subjects.len() ==> names_unique(#[trigger] c.subjects[i].1.events)
}

/// The index of an entry, after `start`, named as entry `start`, if any.
fn find_repeat<T>(entries: &Vec<(String, T)>, start: usize) -> (r: Option<usize>)
    requires
        start < entries.len(),
    ensures
        match r {
            Some(j) => start < j < entries.len() && entries@[j as int].0@ == entries@[start as int].0@,
            None => forall|j: int|
                start < j < entries.len() ==> (#[trigger] entries@[j]).0@ != entries@[start as int].0@,
        },
{
    let mut j: usize = start + 1;
    while j < entries.len()
        invariant
            start < j <= entries.len(),
            forall|k: int| start < k < j ==> (#[trigger] entries@[k]).0@ != entries@[start as int].0@,
        decreases entries.len() - j,
    {
        if entries[j].0 == entries[start].0 {
            return Some(j);
        }
        j = j + 1;
    }
    None
}

/// The first name, in declaration order, that another entry repeats.
fn first_repeat<T>(entries: &Vec<(String, T)>) -> (r: Option<usize>)
    ensures
        match r {
            Some(i) => i < entries.len() && exists|j: int|
                i < j < entries.len() && entries@[j].0@ == entries@[i as int].0@,
            None => forall|i: int, j: int|
                0 <= i < j < entries.len() ==> entries@[i].0@ != entries@[j].0@,
        },
{
    let mut i: usize = 0;
    while i < entries.len()
        invariant
            i <= entries.len(),
            forall|a: int, b: int| 0 <= a < i && a < b < entries.len() ==> entries@[a].0@ != entries@[b].0@,
        decreases entries.len() - i,
    {
        match find_repeat(entries, i) {
            Some(j) => {
                assert(entries@[j as int].0@ == entries@[i as int].0@);
                return Some(i);
            },
            None => {},
        }
        i = i + 1;
    }
    None
}

impl Config {
    /// Checks that each subject is named once and each event type once
    /// within its subject; names the first repeated name otherwise.
    pub fn validate(&self) -> (r: Result<(), ConfigError>)
        ensures
            r is Ok <==> well_formed(self@),
            match r {
                Err(ConfigError::DuplicateSubject(n)) => exists|i: int, j: int|
                    0 <= i < j < self@.subjects.len() && self@.subjects[i].0 == n@
                        && self@.subjects[j].0 == n@,
                Err(ConfigError::DuplicateEventType(s, e)) => exists|i: int|
                    0 <= i < self@.subjects.len() && self@.subjects[i].0 == s@ && !names_unique(
                        #[trigger] self@.subjects[i].1.events,
                    ) && exists|a: int, b: int|
                        0 <= a < b < self@.subjects[i].1.events.len()
                            && self@.subjects[i].1.events[a].0 == e@
                            && self@.subjects[i].1.events[b].0 == e@,
                Ok(_) => true,
            },
    {
        match first_repeat(&self.subjects) {
            Some(i) => {
                let ghost j = choose|j: int|
                    i < j < self.subjects.len() && self.subjects@[j].0@ == self.subjects@[i as int].0@;
                assert(self@.subjects[i as int].0 == self.subjects@[i as int].0@);
                assert(self@.subjects[j].0 == self.subjects@[j].0@);
                return Err(ConfigError::DuplicateSubject(self.subjects[i].0.clone()));
            },
            None => {},
        }
        assert(names_unique(self@.subjects)) by {
            assert forall|a: int, b: int| 0 <= a < b < self@.subjects.len() implies self@.subjects[a].0
                != self@.subjects[b].0 by {
                assert(self@.subjects[a].0 == self.subjects@[a].0@);
                assert(self@.subjects[b].0 == self.subjects@[b].0@);
            }
        }
        let mut k: usize = 0;
        while k < self.subjects.len()
            invariant
                k <= self.subjects.len(),
                names_unique(self@.subjects),
                forall|i: int| 0 <= i < k ==> names_unique(#[trigger] self@.subjects[i].1.events),
            decreases self.subjects.len() - k,
        {
            let events = &self.subjects[k].1.events;
            let ghost ev = self@.subjects[k as int].1.events;
            assert(ev.len() == events.len());
            match first_repeat(events) {
                Some(a) => {
                    let ghost b = choose|b: int|
                        a < b < events.len() && events@[b].0@ == events@[a as int].0@;
                    assert(ev[a as int].0 == events@[a as int].0@);
                    assert(ev[b].0 == events@[b].0@);
                    assert(!names_unique(ev));
                    return Err(
                        ConfigError::DuplicateEventType(
                            self.subjects[k].0.clone(),
                            events[a].0.clone(),
                        ),
                    );
                },
                None => {
                    assert forall|a: int, b: int| 0 <= a < b < ev.len() implies ev[a].0 != ev[b].0 by {
                        assert(ev[a].0 == events@[a].0@);
                        assert(ev[b].0 == events@[b].0@);
                    }
                },
            }
            k = k + 1;
        }
        Ok(())
    }

    /// A configuration with no subjects, no calendars and no settings.
    pub fn new() -> (r: Config)
        ensures
            r@.subjects.len() == 0,
            r@.meta == empty_layer(),
            r.news is None,
    {
        Config {
            path: String::new(),
            db: String::new(),
            subjects: Vec::new(),
            calendars: Vec::new(),
            news: None,
            meta: Metadata::new(),
        }
    }

    /// Seconds between two polls of the news: the news layer's interval,
    /// else the global one, else the default.
    pub fn news_interval(&self) -> (r: u32)
        ensures
            r == most_specific(
                match self.news {
                    Some(m) => m.interval,
                    None => None,
                },
                self.meta.interval,
                None,
                DEFAULT_INTERVAL,
            ),
    {
        let mut duration = DEFAULT_INTERVAL;
        if let Some(interval) = self.meta.interval {
            duration = interval;
        }
        if let Some(news) = &self.news {
            if let Some(interval) = news.interval {
                duration = interval;
            }
        }
        duration
    }
}

} // verus!
