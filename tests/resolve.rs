use sirius_watch::config::{Config, ConfigError, Metadata, Subject, DEFAULT_COOLDOWN, DEFAULT_INTERVAL};
use sirius_watch::task::{apply_meta, resolve, Task};

fn layer(interval: Option<u32>, cooldown: Option<u32>, channels: Vec<u64>, pings: Vec<u64>) -> Metadata {
    Metadata { interval, cooldown, channels, pings }
}

fn config_with(global: Metadata, subjects: Vec<(String, Subject)>) -> Config {
    let mut c = Config::new();
    c.meta = global;
    c.subjects = subjects;
    c
}

fn subject(meta: Metadata, events: Vec<(&str, Metadata)>) -> Subject {
    Subject { events: events.into_iter().map(|(n, m)| (n.to_string(), m)).collect(), meta }
}

fn same_task(a: &Task, b: &Task) -> bool {
    a.name == b.name
        && a.event_type == b.event_type
        && a.interval == b.interval
        && a.cooldown == b.cooldown
        && a.channels == b.channels
        && a.pings == b.pings
        && a.last_checked_at == b.last_checked_at
        && a.last_notified_at == b.last_notified_at
        && a.consecutive_failures == b.consecutive_failures
        && a.checking == b.checking
}

#[test]
fn no_overrides_gives_defaults() {
    let c = config_with(
        Metadata::new(),
        vec![("BI-LA1".to_string(), subject(Metadata::new(), vec![("lecture", Metadata::new())]))],
    );
    let tasks = resolve(&c);
    assert_eq!(tasks.len(), 1);
    let t = &tasks[0];
    assert_eq!(t.name, "BI-LA1");
    assert_eq!(t.event_type, "lecture");
    assert_eq!(t.interval, 7200);
    assert_eq!(t.cooldown, 86400);
    assert!(t.channels.is_empty());
    assert!(t.pings.is_empty());
    assert_eq!(t.last_checked_at, None);
    assert_eq!(t.consecutive_failures, 0);
}

#[test]
fn subject_interval_and_event_cooldown_combine() {
    let c = config_with(
        Metadata::new(),
        vec![(
            "BI-LA1".to_string(),
            subject(
                layer(Some(3600), None, vec![], vec![]),
                vec![("lecture", layer(None, Some(1800), vec![], vec![]))],
            ),
        )],
    );
    let tasks = resolve(&c);
    assert_eq!(tasks.len(), 1);
    assert_eq!(tasks[0].interval, 3600);
    assert_eq!(tasks[0].cooldown, 1800);
}

#[test]
fn most_specific_layer_wins_per_field() {
    let c = config_with(
        layer(Some(100), Some(200), vec![1, 2], vec![9]),
        vec![
            (
                "A".to_string(),
                subject(
                    layer(Some(300), None, vec![], vec![8]),
                    vec![
                        ("lecture", layer(None, None, vec![], vec![])),
                        ("exam", layer(Some(50), Some(60), vec![7], vec![])),
                    ],
                ),
            ),
            ("B".to_string(), subject(Metadata::new(), vec![("tutorial", Metadata::new())])),
        ],
    );
    let tasks = resolve(&c);
    assert_eq!(tasks.len(), 3);
    // subject sets interval and pings; global keeps cooldown and channels
    assert_eq!((tasks[0].name.as_str(), tasks[0].event_type.as_str()), ("A", "lecture"));
    assert_eq!(tasks[0].interval, 300);
    assert_eq!(tasks[0].cooldown, 200);
    assert_eq!(tasks[0].channels, vec![1, 2]);
    assert_eq!(tasks[0].pings, vec![8]);
    // event type overrides what it sets
    assert_eq!(tasks[1].event_type, "exam");
    assert_eq!(tasks[1].interval, 50);
    assert_eq!(tasks[1].cooldown, 60);
    assert_eq!(tasks[1].channels, vec![7]);
    assert_eq!(tasks[1].pings, vec![8]);
    // only the global layer
    assert_eq!(tasks[2].name, "B");
    assert_eq!(tasks[2].interval, 100);
    assert_eq!(tasks[2].cooldown, 200);
    assert_eq!(tasks[2].channels, vec![1, 2]);
    assert_eq!(tasks[2].pings, vec![9]);
}

#[test]
fn resolving_twice_gives_the_same_tasks() {
    let c = config_with(
        layer(Some(10), None, vec![5], vec![]),
        vec![
            ("X".to_string(), subject(layer(None, Some(20), vec![], vec![3]), vec![("lab", Metadata::new()), ("exam", Metadata::new())])),
            ("Y".to_string(), subject(Metadata::new(), vec![("lecture", layer(Some(1), Some(2), vec![4], vec![6]))])),
        ],
    );
    let a = resolve(&c);
    let b = resolve(&c);
    assert_eq!(a.len(), 3);
    assert_eq!(a.len(), b.len());
    for (x, y) in a.iter().zip(b.iter()) {
        assert!(same_task(x, y));
    }
}

#[test]
fn subject_without_event_types_gives_no_task() {
    let c = config_with(Metadata::new(), vec![("Z".to_string(), subject(layer(Some(5), None, vec![], vec![]), vec![]))]);
    assert!(resolve(&c).is_empty());
    assert!(resolve(&Config::new()).is_empty());
}

#[test]
fn apply_meta_keeps_unset_fields() {
    let mut t = Task::new("S".to_string(), "lecture".to_string());
    t.channels = vec![1];
    apply_meta(&mut t, &layer(None, Some(5), vec![], vec![2, 3]));
    assert_eq!(t.interval, DEFAULT_INTERVAL);
    assert_eq!(t.cooldown, 5);
    assert_eq!(t.channels, vec![1]);
    assert_eq!(t.pings, vec![2, 3]);
    let d = Task::default();
    assert_eq!(d.interval, DEFAULT_INTERVAL);
    assert_eq!(d.cooldown, DEFAULT_COOLDOWN);
    assert_eq!(d.name, "");
}

#[test]
fn metadata_is_empty_only_when_nothing_set() {
    assert!(Metadata::new().is_empty());
    assert!(!layer(Some(1), None, vec![], vec![]).is_empty());
    assert!(!layer(None, None, vec![], vec![1]).is_empty());
}

#[test]
fn validate_finds_duplicate_subject() {
    let c = config_with(
        Metadata::new(),
        vec![
            ("A".to_string(), subject(Metadata::new(), vec![])),
            ("B".to_string(), subject(Metadata::new(), vec![])),
            ("A".to_string(), subject(Metadata::new(), vec![])),
        ],
    );
    match c.validate() {
        Err(ConfigError::DuplicateSubject(n)) => assert_eq!(n, "A"),
        _ => panic!("expected a duplicate subject"),
    }
}

#[test]
fn validate_finds_duplicate_event_type() {
    let c = config_with(
        Metadata::new(),
        vec![
            ("A".to_string(), subject(Metadata::new(), vec![("lab", Metadata::new())])),
            ("B".to_string(), subject(Metadata::new(), vec![("exam", Metadata::new()), ("lab", Metadata::new()), ("exam", Metadata::new())])),
        ],
    );
    match c.validate() {
        Err(ConfigError::DuplicateEventType(s, e)) => {
            assert_eq!(s, "B");
            assert_eq!(e, "exam");
        }
        _ => panic!("expected a duplicate event type"),
    }
}

#[test]
fn validate_accepts_distinct_names() {
    let c = config_with(
        Metadata::new(),
        vec![
            ("A".to_string(), subject(Metadata::new(), vec![("lab", Metadata::new()), ("exam", Metadata::new())])),
            ("B".to_string(), subject(Metadata::new(), vec![("lab", Metadata::new())])),
        ],
    );
    assert!(c.validate().is_ok());
}

#[test]
fn news_interval_prefers_news_layer() {
    let mut c = Config::new();
    assert_eq!(c.news_interval(), 7200);
    c.meta.interval = Some(600);
    assert_eq!(c.news_interval(), 600);
    c.news = Some(Metadata::new());
    assert_eq!(c.news_interval(), 600);
    c.news = Some(layer(Some(60), None, vec![], vec![]));
    assert_eq!(c.news_interval(), 60);
}
