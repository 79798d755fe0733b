use crate::error::Error;
use crate::text::{
    chars_of, is_ascii_letter, log_lines, same_text, split_at_space, split_field, split_lines, string_of, trim, trimmed,
};
use vstd::prelude::*;

verus! {

/// How serious an event of the simulation is.
#[derive(Debug, Clone, Copy, PartialEq, Eq, Structural)]
pub enum Severity {
    Trace,
    Debug,
    Info,
    Warn,
    Error,
    Fatal,
}

/// The severity that a log spells `s`, if any.
pub open spec fn severity_named(s: Seq<char>) -> Option<Severity> {
    if s == "TRACE"@ {
        Some(Severity::Trace)
    } else if s == "DEBUG"@ {
        Some(Severity::Debug)
    } else if s == "INFO"@ {
        Some(Severity::Info)
    } else if s == "WARN"@ {
        Some(Severity::Warn)
    } else if s == "ERROR"@ {
        Some(Severity::Error)
    } else if s == "FATAL"@ {
        Some(Severity::Fatal)
    } else {
        None
    }
}

/// Whether a severity marks a failure: warnings, errors and fatal events.
pub open spec fn is_wild_severity(s: Severity) -> bool {
    s == Severity::Warn || s == Severity::Error || s == Severity::Fatal
}

impl Severity {
    /// Checks if the severity is not okay.
    pub fn is_bad(&self) -> (r: bool)
        ensures
            r == is_wild_severity(*self),
    {
        match self {
            Severity::Warn | Severity::Error | Severity::Fatal => true,
            _ => false,
        }
    }

    /// Checks if the severity level is okay.
    pub fn is_good(&self) -> (r: bool)
        ensures
            r == !is_wild_severity(*self),
    {
        match self {
            Severity::Trace | Severity::Debug | Severity::Info => true,
            _ => false,
        }
    }

    /// Reads a severity from its upper-case name.
    pub fn from_str(s: &str) -> (r: Result<Severity, Error>)
        ensures
            match severity_named(s@) {
                Some(v) => r == Ok::<Severity, Error>(v),
                None => r matches Err(Error::UnknownSeverity(m)) && m@ == s@,
            },
    {
        if same_text(s, "TRACE") {
            Ok(Severity::Trace)
        } else if same_text(s, "DEBUG") {
            Ok(Severity::Debug)
        } else if same_text(s, "INFO") {
            Ok(Severity::Info)
        } else if same_text(s, "WARN") {
            Ok(Severity::Warn)
        } else if same_text(s, "ERROR") {
            Ok(Severity::Error)
        } else if same_text(s, "FATAL") {
            Ok(Severity::Fatal)
        } else {
            Err(Error::UnknownSeverity(s.to_owned()))
        }
    }
}

/// The time of an event: a number and its units, as written.
#[derive(Debug, PartialEq)]
pub struct Timestamp {
    time: String,
    units: String,
}

impl View for Timestamp {
    type V = (Seq<char>, Seq<char>);

    closed spec fn view(&self) -> (Seq<char>, Seq<char>) {
        (self.time@, self.units@)
    }
}

/// The first index at or after `i` that holds an ASCII letter, or the length.
pub open spec fn find_letter(s: Seq<char>, i: int) -> int
    decreases s.len() - i,
{
    if 0 <= i < s.len() && !is_ascii_letter(s[i]) {
        find_letter(s, i + 1)
    } else {
        i
    }
}

/// The time and the units of `s`, split before its first ASCII letter.
pub open spec fn timestamp_parts(s: Seq<char>) -> Option<(Seq<char>, Seq<char>)> {
    let k = find_letter(s, 0);
    if k < s.len() {
        Some((s.subrange(0, k), s.subrange(k, s.len() as int)))
    } else {
        None
    }
}

proof fn lemma_find_letter_bounds(s: Seq<char>, i: int)
    requires
        0 <= i <= s.len(),
    ensures
        i <= find_letter(s, i) <= s.len(),
    decreases s.len() - i,
{
    if i < s.len() && !is_ascii_letter(s[i]) {
        lemma_find_letter_bounds(s, i + 1);
    }
}

impl Timestamp {
    pub fn with(time: &str, units: &str) -> (r: Timestamp)
        ensures
            r@ == (time@, units@),
    {
        Timestamp { time: time.to_owned(), units: units.to_owned() }
    }

    /// Splits a timestamp before its first ASCII letter: the time, then the units.
    pub fn from_chars(v: &Vec<char>) -> (r: Result<Timestamp, Error>)
        ensures
            match timestamp_parts(v@) {
                Some(p) => r matches Ok(t) && t@ == p,
                None => r == Err::<Timestamp, Error>(Error::MissingTimeUnits),
            },
    {
        let n = v.len();
        proof {
            lemma_find_letter_bounds(v@, 0);
        }
        let mut i: usize = 0;
        while i < n && !(('a' <= v[i] && v[i] <= 'z') || ('A' <= v[i] && v[i] <= 'Z'))
            invariant
                n == v@.len(),
                i <= find_letter(v@, 0) <= n,
                find_letter(v@, i as int) == find_letter(v@, 0),
            decreases n - i,
        {
            proof {
                lemma_find_letter_bounds(v@, i + 1);
            }
            i = i + 1;
        }
        if i == n {
            return Err(Error::MissingTimeUnits);
        }
        Ok(Timestamp { time: string_of(v, 0, i), units: string_of(v, i, n) })
    }

    /// Splits a timestamp before its first ASCII letter: the time, then the units.
    pub fn from_str(s: &str) -> (r: Result<Timestamp, Error>)
        ensures
            match timestamp_parts(s@) {
                Some(p) => r matches Ok(t) && t@ == p,
                None => r == Err::<Timestamp, Error>(Error::MissingTimeUnits),
            },
    {
        Self::from_chars(&chars_of(s))
    }
}

/// The topic of an event.
#[derive(Debug, PartialEq)]
pub struct Topic {
    inner: String,
}

impl View for Topic {
    type V = Seq<char>;

    closed spec fn view(&self) -> Seq<char> {
        self.inner@
    }
}

impl Topic {
    pub fn from(value: String) -> (r: Topic)
        ensures
            r@ == value@,
    {
        Topic { inner: value }
    }
}

/// The free text that ends an event.
#[derive(Debug, PartialEq)]
pub struct Comment {
    inner: String,
}

impl View for Comment {
    type V = Seq<char>;

    closed spec fn view(&self) -> Seq<char> {
        self.inner@
    }
}

impl Comment {
    pub fn from(value: String) -> (r: Comment)
        ensures
            r@ == value@,
    {
        Comment { inner: value }
    }
}

/// An event as plain values.
pub struct EventView {
    pub timestamp: (Seq<char>, Seq<char>),
    pub severity: Severity,
    pub topic: Seq<char>,
    pub comment: Seq<char>,
}

/// One line of a simulation's event log.
#[derive(Debug, PartialEq)]
pub struct Event {
    pub timestamp: Timestamp,
    pub severity: Severity,
    pub topic: Topic,
    pub comment: Comment,
}

impl View for Event {
    type V = EventView;

    open spec fn view(&self) -> EventView {
        EventView {
            timestamp: self.timestamp@,
            severity: self.severity,
            topic: self.topic@,
            comment: self.comment@,
        }
    }
}

/// The event a log line spells, if it spells one: a timestamp, a severity and
/// a topic, each ended by ASCII whitespace, then the comment.
pub open spec fn parsed_event(s: Seq<char>) -> Option<EventView> {
    match split_at_space(trim(s)) {
        None => None,
        Some(a) => match split_at_space(trim(a.1)) {
            None => None,
            Some(b) => match split_at_space(trim(b.1)) {
                None => None,
                Some(c) => match (timestamp_parts(a.0), severity_named(b.0)) {
                    (Some(t), Some(v)) => Some(
                        EventView { timestamp: t, severity: v, topic: c.0, comment: trim(c.1) },
                    ),
                    _ => None,
                },
            },
        },
    }
}

/// Whether `e` is the error that reading the log line `s` reports.
pub open spec fn event_failure(s: Seq<char>, e: Error) -> bool {
    match split_at_space(trim(s)) {
        None => e == Error::ExpectingTimestamp,
        Some(a) => match split_at_space(trim(a.1)) {
            None => e == Error::ExpectingSeverity,
            Some(b) => match split_at_space(trim(b.1)) {
                None => e == Error::ExpectingTopic,
                Some(c) => match timestamp_parts(a.0) {
                    None => e == Error::MissingTimeUnits,
                    Some(t) => e matches Error::UnknownSeverity(m) && m@ == b.0,
                },
            },
        },
    }
}

impl Event {
    pub fn is_wild(&self) -> (r: bool)
        ensures
            r == is_wild_severity(self.severity),
    {
        self.severity.is_bad()
    }

    pub fn is_normal(&self) -> (r: bool)
        ensures
            r == !is_wild_severity(self.severity),
    {
        self.severity.is_good()
    }

    /// Reads an event from the characters of one log line.
    pub fn from_chars(v: &Vec<char>) -> (r: Result<Event, Error>)
        ensures
            match parsed_event(v@) {
                Some(ev) => r matches Ok(x) && x@ == ev,
                None => r matches Err(e) && event_failure(v@, e),
            },
    {
        let (c_timestamp, rem) = match split_field(v) {
            Some(it) => it,
            None => return Err(Error::ExpectingTimestamp),
        };
        let (c_severity, rem) = match split_field(&rem) {
            Some(it) => it,
            None => return Err(Error::ExpectingSeverity),
        };
        let (c_topic, rem) = match split_field(&rem) {
            Some(it) => it,
            None => return Err(Error::ExpectingTopic),
        };
        let c_comment = trimmed(&rem);
        proof {
            assert(c_severity@.subrange(0, c_severity@.len() as int) =~= c_severity@);
            assert(c_topic@.subrange(0, c_topic@.len() as int) =~= c_topic@);
            assert(c_comment@.subrange(0, c_comment@.len() as int) =~= c_comment@);
        }
        let timestamp = match Timestamp::from_chars(&c_timestamp) {
            Ok(t) => t,
            Err(e) => return Err(e),
        };
        let severity = match Severity::from_str(string_of(&c_severity, 0, c_severity.len()).as_str()) {
            Ok(s) => s,
            Err(e) => return Err(e),
        };
        Ok(Event {
            timestamp,
            severity,
            topic: Topic::from(string_of(&c_topic, 0, c_topic.len())),
            comment: Comment::from(string_of(&c_comment, 0, c_comment.len())),
        })
    }

    /// Reads an event from one log line.
    pub fn from_str(s: &str) -> (r: Result<Event, Error>)
        ensures
            match parsed_event(s@) {
                Some(ev) => r matches Ok(x) && x@ == ev,
                None => r matches Err(e) && event_failure(s@, e),
            },
    {
        Self::from_chars(&chars_of(s))
    }
}

/// The events that the first `k` lines spell, or `None` when one of them
/// spells none.
pub open spec fn parse_all(ls: Seq<Seq<char>>, k: int) -> Option<Seq<EventView>>
    decreases k,
{
    if k <= 0 || k > ls.len() {
        Some(Seq::empty())
    } else {
        match parse_all(ls, k - 1) {
            Some(p) => match parsed_event(ls[k - 1]) {
                Some(e) => Some(p.push(e)),
                None => None,
            },
            None => None,
        }
    }
}

/// How many of the first `k` events have a wild severity.
pub open spec fn count_wild(evs: Seq<EventView>, k: int) -> nat
    decreases k,
{
    if k <= 0 || k > evs.len() {
        0
    } else {
        count_wild(evs, k - 1) + if is_wild_severity(evs[k - 1].severity) { 1nat } else { 0nat }
    }
}

proof fn lemma_count_wild_bound(evs: Seq<EventView>, k: int)
    requires
        0 <= k <= evs.len(),
    ensures
        count_wild(evs, k) <= k,
    decreases k,
{
    if k > 0 {
        lemma_count_wild_bound(evs, k - 1);
    }
}

/// The events of a simulation's log, in order.
#[derive(Debug, PartialEq)]
pub struct Events {
    inner: Vec<Event>,
}

impl View for Events {
    type V = Seq<EventView>;

    closed spec fn view(&self) -> Seq<EventView> {
        self.inner@.map_values(|e: Event| e@)
    }
}

impl Events {
    /// Verify there were 0 bad events in the event log.
    pub fn check(&self) -> (r: bool)
        ensures
            r == (forall|i: int| 0 <= i < self@.len() ==> !is_wild_severity(#[trigger] self@[i].severity)),
    {
        let mut i: usize = 0;
        while i < self.inner.len()
            invariant
                i <= self@.len(),
                self@.len() == self.inner@.len(),
                forall|j: int| 0 <= j < i ==> !is_wild_severity(#[trigger] self@[j].severity),
            decreases self.inner.len() - i,
        {
            assert(self@[i as int] == self.inner@[i as int]@);
            if self.inner[i].is_wild() {
                assert(is_wild_severity(self@[i as int].severity));
                return false;
            }
            i = i + 1;
        }
        true
    }

    pub fn count_normal(&self) -> (r: usize)
        ensures
            r == self@.len() - count_wild(self@, self@.len() as int),
    {
        let mut n: usize = 0;
        let mut i: usize = 0;
        proof {
            lemma_count_wild_bound(self@, self@.len() as int);
        }
        while i < self.inner.len()
            invariant
                i <= self@.len(),
                self@.len() == self.inner@.len(),
                n == i - count_wild(self@, i as int),
            decreases self.inner.len() - i,
        {
            proof {
                lemma_count_wild_bound(self@, i as int);
            }
            assert(self@[i as int] == self.inner@[i as int]@);
            if self.inner[i].is_normal() {
                n = n + 1;
            }
            i = i + 1;
        }
        n
    }

    pub fn count_wild(&self) -> (r: usize)
        ensures
            r == count_wild(self@, self@.len() as int),
    {
        let mut n: usize = 0;
        let mut i: usize = 0;
        while i < self.inner.len()
            invariant
                i <= self@.len(),
                self@.len() == self.inner@.len(),
                n == count_wild(self@, i as int),
            decreases self.inner.len() - i,
        {
            proof {
                lemma_count_wild_bound(self@, i as int);
            }
            assert(self@[i as int] == self.inner@[i as int]@);
            if self.inner[i].is_wild() {
                n = n + 1;
            }
            i = i + 1;
        }
        n
    }

    pub fn len(&self) -> (r: usize)
        ensures
            r == self@.len(),
    {
        self.inner.len()
    }

    /// Reads a log: one event per line. The first line that spells no event
    /// gives the error.
    pub fn from_str(s: &str) -> (r: Result<Events, Error>)
        ensures
            ({
                let ls = log_lines(s@);
                match parse_all(ls, ls.len() as int) {
                    Some(evs) => r matches Ok(x) && x@ == evs,
                    None => r matches Err(e) && exists|j: int|
                        0 <= j < ls.len() && parse_all(ls, j) is Some && parsed_event(#[trigger] ls[j]) is None
                            && event_failure(ls[j], e),
                }
            }),
    {
        let v = chars_of(s);
        let lines = split_lines(&v);
        let ghost ls = log_lines(s@);
        let mut events: Vec<Event> = Vec::new();
        let mut j: usize = 0;
        while j < lines.len()
            invariant
                j <= lines@.len(),
                ls == lines@.map_values(|l: Vec<char>| l@),
                ls == log_lines(s@),
                parse_all(ls, j as int) == Some(events@.map_values(|e: Event| e@)),
            decreases lines.len() - j,
        {
            assert(ls[j as int] == lines@[j as int]@);
            match Event::from_chars(&lines[j]) {
                Ok(ev) => {
                    let ghost before = events@;
                    events.push(ev);
                    assert(events@.map_values(|e: Event| e@) =~= before.map_values(|e: Event| e@).push(ev@));
                },
                Err(e) => {
                    proof {
                        lemma_parse_all_stops(ls, j as int + 1);
                        assert(parse_all(ls, j as int) is Some && parsed_event(ls[j as int]) is None
                            && event_failure(ls[j as int], e));
                    }
                    return Err(e);
                },
            }
            j = j + 1;
        }
        Ok(Events { inner: events })
    }
}

/// Once a line fails to parse, the longer prefixes fail too.
proof fn lemma_parse_all_stops(ls: Seq<Seq<char>>, k: int)
    requires
        0 < k <= ls.len(),
        parse_all(ls, k) is None,
    ensures
        parse_all(ls, ls.len() as int) is None,
    decreases ls.len() - k,
{
    if k < ls.len() {
        lemma_parse_all_stops(ls, k + 1);
    }
}

} // verus!
