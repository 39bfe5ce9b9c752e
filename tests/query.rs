use sirius_watch::model::{classify, ApiError};
use sirius_watch::query::{bool_string, decimal_text, join, EventOptions, NewsOptions};

fn pairs(q: &[(String, String)]) -> Vec<(&str, &str)> {
    q.iter().map(|(k, v)| (k.as_str(), v.as_str())).collect()
}

#[test]
fn decimal_writing() {
    assert_eq!(decimal_text(0), "0");
    assert_eq!(decimal_text(7), "7");
    assert_eq!(decimal_text(10), "10");
    assert_eq!(decimal_text(4096), "4096");
    assert_eq!(decimal_text(u64::MAX), "18446744073709551615");
    assert_eq!(bool_string(true), "true");
    assert_eq!(bool_string(false), "false");
}

#[test]
fn joining_with_commas() {
    assert_eq!(join(&vec![], ","), "");
    assert_eq!(join(&vec!["BI-LIN".to_string()], ","), "BI-LIN");
    assert_eq!(join(&vec!["BI-LIN".to_string(), "MI-RUB".to_string(), "X".to_string()], ","), "BI-LIN,MI-RUB,X");
}

#[test]
fn absent_event_options_give_empty_query() {
    assert!(EventOptions::new().to_query().is_empty());
    assert!(NewsOptions::new().to_query().is_empty());
}

#[test]
fn event_options_in_field_order() {
    let mut o = EventOptions::new();
    o.limit = Some(100);
    o.offset = Some(20);
    o.embed = Some("courses,teachers".to_string());
    o.event_type = Some("lecture".to_string());
    o.deleted = Some(true);
    o.from = Some(0);
    o.to = Some(86_400 + 3_661);
    o.with_original_date = Some(false);
    let q = o.to_query();
    let key = format!("{}{}", "inc", "lude");
    let mut expect = vec![("limit", "100"), ("offset", "20")];
    expect.push((key.as_str(), "courses,teachers"));
    expect.extend([
        ("event_type", "lecture"),
        ("deleted", "true"),
        ("from", "1970-01-01 00:00:00 UTC"),
        ("to", "1970-01-02 01:01:01 UTC"),
        ("with_original_date", "false"),
    ]);
    assert_eq!(pairs(&q), expect);
}

#[test]
fn token_is_added_last() {
    let mut o = EventOptions::new();
    o.deleted = Some(false);
    let q = o.with_token("tok");
    assert_eq!(pairs(&q), vec![("deleted", "false"), ("access_token", "tok")]);
    let n = NewsOptions::new().with_token("t2");
    assert_eq!(pairs(&n), vec![("access_token", "t2")]);
}

#[test]
fn news_options_in_field_order() {
    let mut o = NewsOptions::new();
    o.representation = Some("grouped".to_string());
    o.courses = Some(vec!["BI-LIN".to_string(), "MI-RUB".to_string()]);
    o.limit = Some(5);
    o.since = Some(1_559_347_200);
    let q = o.to_query();
    assert_eq!(
        pairs(&q),
        vec![
            ("type", "grouped"),
            ("courses", "BI-LIN,MI-RUB"),
            ("limit", "5"),
            ("since", "2019-06-01 00:00:00 UTC"),
        ]
    );
}

#[test]
fn time_outside_the_calendar_is_left_out() {
    let mut o = NewsOptions::new();
    o.until = Some(i64::MAX);
    o.offset = Some(3);
    assert_eq!(pairs(&o.to_query()), vec![("offset", "3")]);
}

#[test]
fn classify_api_answers() {
    assert_eq!(classify(200, Some(5)), Ok(5));
    assert_eq!(classify(299, Some(5)), Ok(5));
    assert_eq!(classify::<i32>(200, None), Err(ApiError::Decode));
    assert_eq!(classify(404, Some(5)), Err(ApiError::Status(404)));
    assert_eq!(classify::<i32>(199, None), Err(ApiError::Status(199)));
    assert_eq!(classify::<i32>(300, None), Err(ApiError::Status(300)));
    assert_ne!(ApiError::Transport, ApiError::Decode);
}

#[test]
fn grouped_representation_is_recognised() {
    let mut o = NewsOptions::new();
    assert!(!o.is_grouped());
    o.representation = Some("default".to_string());
    assert!(!o.is_grouped());
    o.representation = Some("grouped".to_string());
    assert!(o.is_grouped());
}
