use verb::check::Check;
use verb::error::Error;
use verb::events::{Comment, Event, Events, Severity, Timestamp, Topic};

#[test]
fn from_str() {
    let ev = "180000000fs         INFO      ASSERT_EQ      sum receives 0110 and expects 0110";
    assert_eq!(
        Event::from_str(ev).unwrap(),
        Event {
            timestamp: Timestamp::with("180000000", "fs"),
            severity: Severity::Info,
            topic: Topic::from("ASSERT_EQ".to_string()),
            comment: Comment::from("sum receives 0110 and expects 0110".to_string()),
        }
    )
}

#[test]
fn event_errors_name_the_missing_field() {
    assert_eq!(Event::from_str("   ").unwrap_err(), Error::ExpectingTimestamp);
    assert_eq!(Event::from_str("10ns INFO").unwrap_err(), Error::ExpectingSeverity);
    assert_eq!(Event::from_str("10ns INFO TOPIC").unwrap_err(), Error::ExpectingTopic);
    assert_eq!(Event::from_str("10 INFO TOPIC text").unwrap_err(), Error::MissingTimeUnits);
    assert_eq!(
        Event::from_str("10ns LOUD TOPIC text").unwrap_err(),
        Error::UnknownSeverity("LOUD".to_string())
    );
}

#[test]
fn event_comment_is_trimmed() {
    let ev = Event::from_str("  5ps\tWARN TOPIC   spaced  comment  ").unwrap();
    assert_eq!(ev.comment, Comment::from("spaced  comment".to_string()));
    assert_eq!(ev.topic, Topic::from("TOPIC".to_string()));
    assert_eq!(Event::from_str("5ps WARN TOPIC ").unwrap_err(), Error::ExpectingTopic);
    assert!(ev.is_wild());
    assert!(!ev.is_normal());
}

#[test]
fn severity_classes() {
    for s in [Severity::Trace, Severity::Debug, Severity::Info] {
        assert!(s.is_good());
        assert!(!s.is_bad());
    }
    for s in [Severity::Warn, Severity::Error, Severity::Fatal] {
        assert!(s.is_bad());
        assert!(!s.is_good());
    }
    assert_eq!(Severity::from_str("FATAL").unwrap(), Severity::Fatal);
    assert_eq!(Severity::from_str("info").unwrap_err(), Error::UnknownSeverity("info".to_string()));
}

#[test]
fn timestamp_splits_before_first_letter() {
    assert_eq!(Timestamp::from_str("120ns").unwrap(), Timestamp::with("120", "ns"));
    assert_eq!(Timestamp::from_str("120").unwrap_err(), Error::MissingTimeUnits);
}

#[test]
fn log_counts_and_check() {
    let log = "1ns INFO A one\n2ns WARN B two\n3ns DEBUG C three\n4ns ERROR D four\n";
    let events = Events::from_str(log).unwrap();
    assert_eq!(events.len(), 4);
    assert_eq!(events.count_normal(), 2);
    assert_eq!(events.count_wild(), 2);
    assert!(!events.check());
    let clean = Events::from_str("1ns INFO A one\n2ns TRACE B two").unwrap();
    assert!(clean.check());
    assert_eq!(clean.len(), 2);
    assert_eq!(Events::from_str("").unwrap().len(), 0);
}

#[test]
fn log_stops_at_first_bad_line() {
    let log = "1ns INFO A one\n2ns NOPE B two\n3ns\n";
    assert_eq!(Events::from_str(log).unwrap_err(), Error::UnknownSeverity("NOPE".to_string()));
    assert_eq!(Events::from_str("1ns INFO A one\n\n").unwrap_err(), Error::ExpectingTimestamp);
}

#[test]
fn coverage_report_totals() {
    let report = "Coverage report\nTotal points: 12\nPoints covered:  9 \nother: 3\n";
    assert_eq!(Check::coverage_points(report).unwrap(), (Some(12), Some(9)));
    assert_eq!(Check::coverage_points("nothing here").unwrap(), (None, None));
    assert_eq!(Check::coverage_points("Total points: +7").unwrap(), (Some(7), None));
    assert_eq!(
        Check::coverage_points("Total points: x1").unwrap_err(),
        Error::Custom("Total points: x1".to_string())
    );
}

#[test]
fn verdict_orders_coverage_before_events() {
    let wild = Events::from_str("1ns ERROR A one\n2ns WARN B two").unwrap();
    let calm = Events::from_str("1ns INFO A one").unwrap();
    assert_eq!(Check::verdict(&wild, Some(10), Some(7)), Err(Error::FailedCoverage(3)));
    assert_eq!(Check::verdict(&wild, Some(10), Some(10)), Err(Error::FoundWildEvents(2)));
    assert_eq!(Check::verdict(&wild, None, Some(10)), Err(Error::FoundWildEvents(2)));
    assert_eq!(Check::verdict(&calm, Some(4), Some(4)), Ok(()));
}

#[test]
fn stats_lines_give_scores() {
    let events = Events::from_str("1ns ERROR A one\n2ns INFO B two\n3ns INFO C three").unwrap();
    let check = Check::new("events.log".to_string(), None, true);
    assert_eq!(
        check.stats_lines(&events, Some(20), Some(15)),
        vec!["info: simulation score: 2/3".to_string(), "info: coverage score: 15/20".to_string()]
    );
    let quiet = Check::new("events.log".to_string(), None, false);
    assert!(quiet.stats_lines(&events, None, None).is_empty());
}
