use crate::error::Error;
use crate::events::{Events, count_wild};
use crate::model::{decimal, usize_text};
use crate::text::{chars_of, has_prefix, log_lines, split_lines, string_of, sub_vec, trim, trimmed};
use vstd::prelude::*;

verus! {

/// Whether `c` is an ASCII decimal digit.
pub open spec fn is_digit(c: char) -> bool {
    '0' <= c && c <= '9'
}

/// The number that a run of decimal digits spells.
pub open spec fn digits_value(s: Seq<char>) -> nat
    decreases s.len(),
{
    if s.len() == 0 {
        0
    } else {
        digits_value(s.drop_last()) * 10 + ((s.last() as int) - ('0' as int)) as nat
    }
}

/// `s` without one leading `+`.
pub open spec fn unsigned_body(s: Seq<char>) -> Seq<char> {
    if s.len() > 0 && s[0] == '+' {
        s.drop_first()
    } else {
        s
    }
}

/// Whether every character of `s` is a decimal digit.
pub open spec fn all_digits(s: Seq<char>) -> bool {
    forall|i: int| 0 <= i < s.len() ==> is_digit(#[trigger] s[i])
}

/// The number that `s` spells as `usize::from_str_radix(s, 10)` reads it: an
/// optional `+`, then at least one digit, with a value that fits.
pub open spec fn parsed_usize(s: Seq<char>) -> Option<usize> {
    let body = unsigned_body(s);
    if body.len() > 0 && all_digits(body) && digits_value(body) <= usize::MAX {
        Some(digits_value(body) as usize)
    } else {
        None
    }
}

proof fn lemma_digits_value_grows(s: Seq<char>, k: int)
    requires
        0 <= k <= s.len(),
        forall|i: int| 0 <= i < s.len() ==> is_digit(#[trigger] s[i]),
    ensures
        digits_value(s.subrange(0, k)) <= digits_value(s),
    decreases s.len() - k,
{
    if k < s.len() {
        lemma_digits_value_grows(s, k + 1);
        assert(s.subrange(0, k + 1).drop_last() =~= s.subrange(0, k));
    } else {
        assert(s.subrange(0, k) =~= s);
    }
}

/// Reads a decimal number as `usize::from_str_radix(s, 10)` does.
pub fn parse_usize(v: &Vec<char>) -> (r: Option<usize>)
    ensures
        r == parsed_usize(v@),
{
    let start: usize = if v.len() > 0 && v[0] == '+' { 1 } else { 0 };
    let body = sub_vec(v, start, v.len());
    assert(body@ =~= unsigned_body(v@));
    if body.len() == 0 {
        return None;
    }
    let mut acc: usize = 0;
    let mut i: usize = 0;
    while i < body.len()
        invariant
            i <= body@.len(),
            body@ == unsigned_body(v@),
            forall|j: int| 0 <= j < i ==> is_digit(#[trigger] body@[j]),
            acc as nat == digits_value(body@.subrange(0, i as int)),
        decreases body.len() - i,
    {
        let c = body[i];
        if !('0' <= c && c <= '9') {
            assert(!is_digit(body@[i as int]));
            return None;
        }
        let d: usize = (c as u32 - '0' as u32) as usize;
        assert(body@.subrange(0, i + 1).drop_last() =~= body@.subrange(0, i as int));
        if acc > (usize::MAX - d) / 10 {
            proof {
                assert(acc * 10 + d > usize::MAX) by (nonlinear_arith)
                    requires
                        acc > (usize::MAX - d) / 10,
                        d <= 9,
                ;
                assert(digits_value(body@.subrange(0, i + 1)) == acc * 10 + d);
                if all_digits(body@) {
                    lemma_digits_value_grows(body@, i + 1);
                }
            }
            return None;
        }
        assert(acc * 10 + d <= usize::MAX) by (nonlinear_arith)
            requires
                acc <= (usize::MAX - d) / 10,
                d <= 9,
        ;
        acc = acc * 10 + d;
        i = i + 1;
    }
    assert(body@.subrange(0, body@.len() as int) =~= body@);
    Some(acc)
}

/// The text after `prefix` on a coverage line, trimmed.
pub open spec fn stat_value(line: Seq<char>, prefix: Seq<char>) -> Seq<char> {
    trim(line.subrange(prefix.len() as int, line.len() as int))
}

/// The total and covered points that the first `k` lines of a coverage
/// report give (the last line of each kind wins), or `None` when one of them
/// holds no number.
pub open spec fn coverage_scan(ls: Seq<Seq<char>>, k: int) -> Option<(Option<usize>, Option<usize>)>
    decreases k,
{
    if k <= 0 || k > ls.len() {
        Some((None, None))
    } else {
        match coverage_scan(ls, k - 1) {
            None => None,
            Some(acc) => {
                let line = ls[k - 1];
                if has_prefix(line, "Total points:"@) {
                    match parsed_usize(stat_value(line, "Total points:"@)) {
                        Some(n) => Some((Some(n), acc.1)),
                        None => None,
                    }
                } else if has_prefix(line, "Points covered:"@) {
                    match parsed_usize(stat_value(line, "Points covered:"@)) {
                        Some(n) => Some((acc.0, Some(n))),
                        None => None,
                    }
                } else {
                    Some(acc)
                }
            },
        }
    }
}

/// The failure that a finished simulation reports, if any: missed coverage
/// first, then wild events.
pub open spec fn verdict_of(evs: Seq<crate::events::EventView>, total: Option<usize>, covered: Option<usize>) -> Option<Error> {
    match (total, covered) {
        (Some(tp), Some(pc)) if tp != pc => Some(
            Error::FailedCoverage(if tp >= pc { (tp - pc) as usize } else { (pc - tp) as usize }),
        ),
        _ => if count_wild(evs, evs.len() as int) > 0 {
            Some(Error::FoundWildEvents(count_wild(evs, evs.len() as int) as usize))
        } else {
            None
        },
    }
}

/// Analyzes a simulation's results: its event log and its coverage report.
pub struct Check {
    events: String,
    coverage: Option<String>,
    stats: bool,
}

impl Check {
    pub fn new(events: String, coverage: Option<String>, stats: bool) -> (r: Check)
        ensures
            r.log_path() == events,
            r.report_path() == coverage,
            r.wants_stats() == stats,
    {
        Check { events, coverage, stats }
    }

    pub closed spec fn log_path(&self) -> String {
        self.events
    }

    pub closed spec fn report_path(&self) -> Option<String> {
        self.coverage
    }

    pub closed spec fn wants_stats(&self) -> bool {
        self.stats
    }

    pub fn get_events(&self) -> (r: &String)
        ensures
            *r == self.log_path(),
    {
        &self.events
    }

    pub fn get_coverage(&self) -> (r: &Option<String>)
        ensures
            *r == self.report_path(),
    {
        &self.coverage
    }

    /// The totals of a coverage report: lines `Total points: n` and
    /// `Points covered: n`. A value that is not a number fails with the line.
    pub fn coverage_points(data: &str) -> (r: Result<(Option<usize>, Option<usize>), Error>)
        ensures
            ({
                let ls = log_lines(data@);
                match coverage_scan(ls, ls.len() as int) {
                    Some(p) => r == Ok::<(Option<usize>, Option<usize>), Error>(p),
                    None => r matches Err(Error::Custom(m)) && exists|j: int|
                        0 <= j < ls.len() && coverage_scan(ls, j) is Some
                            && coverage_scan(ls, j + 1) is None && m@ == #[trigger] ls[j],
                }
            }),
    {
        let v = chars_of(data);
        let lines = split_lines(&v);
        let ghost ls = log_lines(data@);
        let total_prefix = chars_of("Total points:");
        let covered_prefix = chars_of("Points covered:");
        let mut total: Option<usize> = None;
        let mut covered: Option<usize> = None;
        let mut j: usize = 0;
        while j < lines.len()
            invariant
                j <= lines@.len(),
                ls == lines@.map_values(|l: Vec<char>| l@),
                ls == log_lines(data@),
                total_prefix@ == "Total points:"@,
                covered_prefix@ == "Points covered:"@,
                coverage_scan(ls, j as int) == Some((total, covered)),
            decreases lines.len() - j,
        {
            let line = &lines[j];
            assert(ls[j as int] == line@);
            if Self::begins_with(line, &total_prefix) {
                let value = trimmed(&sub_vec(line, total_prefix.len(), line.len()));
                match parse_usize(&value) {
                    Some(n) => total = Some(n),
                    None => {
                        proof {
                            lemma_coverage_scan_stops(ls, j as int + 1);
                        }
                        return Err(Error::Custom(string_of(line, 0, line.len())));
                    },
                }
            } else if Self::begins_with(line, &covered_prefix) {
                let value = trimmed(&sub_vec(line, covered_prefix.len(), line.len()));
                match parse_usize(&value) {
                    Some(n) => covered = Some(n),
                    None => {
                        proof {
                            lemma_coverage_scan_stops(ls, j as int + 1);
                        }
                        return Err(Error::Custom(string_of(line, 0, line.len())));
                    },
                }
            }
            j = j + 1;
        }
        Ok((total, covered))
    }

    /// Whether `v` begins with `p`.
    fn begins_with(v: &Vec<char>, p: &Vec<char>) -> (r: bool)
        ensures
            r == has_prefix(v@, p@),
    {
        if p.len() > v.len() {
            return false;
        }
        let mut i: usize = 0;
        while i < p.len()
            invariant
                p@.len() <= v@.len(),
                i <= p@.len(),
                v@.subrange(0, i as int) == p@.subrange(0, i as int),
            decreases p.len() - i,
        {
            if v[i] != p[i] {
                assert(v@.subrange(0, p@.len() as int)[i as int] != p@[i as int]);
                return false;
            }
            assert(v@.subrange(0, i + 1) =~= v@.subrange(0, i as int).push(v@[i as int]));
            assert(p@.subrange(0, i + 1) =~= p@.subrange(0, i as int).push(p@[i as int]));
            i = i + 1;
        }
        assert(p@ =~= p@.subrange(0, p@.len() as int));
        true
    }

    /// Decides the outcome of a simulation: coverage that was measured must be
    /// complete, then no event may be wild.
    pub fn verdict(events: &Events, total: Option<usize>, covered: Option<usize>) -> (r: Result<(), Error>)
        ensures
            match verdict_of(events@, total, covered) {
                Some(e) => r == Err::<(), Error>(e),
                None => r is Ok,
            },
    {
        match (total, covered) {
            (Some(tp), Some(pc)) => {
                if tp != pc {
                    let missed = if tp >= pc { tp - pc } else { pc - tp };
                    return Err(Error::FailedCoverage(missed));
                }
            },
            _ => {},
        }
        let wild = events.count_wild();
        if wild > 0 {
            Err(Error::FoundWildEvents(wild))
        } else {
            Ok(())
        }
    }

    /// The summary lines printed when statistics are asked for.
    pub fn stats_lines(&self, events: &Events, total: Option<usize>, covered: Option<usize>) -> (r: Vec<String>)
        ensures
            r@.map_values(|s: String| s@) == if self.wants_stats() {
                seq![
                    "info: simulation score: "@ + decimal((events@.len() - count_wild(events@, events@.len() as int)) as nat)
                        + "/"@ + decimal(events@.len()),
                ] + match (total, covered) {
                    (Some(tp), Some(pc)) => seq!["info: coverage score: "@ + decimal(pc as nat) + "/"@ + decimal(tp as nat)],
                    _ => Seq::empty(),
                }
            } else {
                Seq::<Seq<char>>::empty()
            },
    {
        let mut r: Vec<String> = Vec::new();
        if !self.stats {
            assert(r@.map_values(|s: String| s@) =~= Seq::<Seq<char>>::empty());
            return r;
        }
        let mut line = String::from_str("info: simulation score: ");
        line.append(usize_text(events.count_normal()).as_str());
        line.append("/");
        line.append(usize_text(events.len()).as_str());
        r.push(line);
        let ghost first = r@.map_values(|s: String| s@);
        match (total, covered) {
            (Some(tp), Some(pc)) => {
                let mut cov = String::from_str("info: coverage score: ");
                cov.append(usize_text(pc).as_str());
                cov.append("/");
                cov.append(usize_text(tp).as_str());
                r.push(cov);
                assert(r@.map_values(|s: String| s@) =~= first.push(cov@));
            },
            _ => {},
        }
        assert(r@.map_values(|s: String| s@) =~= (seq![
            "info: simulation score: "@ + decimal((events@.len() - count_wild(events@, events@.len() as int)) as nat)
                + "/"@ + decimal(events@.len()),
        ] + match (total, covered) {
            (Some(tp), Some(pc)) => seq!["info: coverage score: "@ + decimal(pc as nat) + "/"@ + decimal(tp as nat)],
            _ => Seq::empty(),
        }));
        r
    }
}

/// Once a coverage line holds no number, the longer prefixes fail too.
proof fn lemma_coverage_scan_stops(ls: Seq<Seq<char>>, k: int)
    requires
        0 < k <= ls.len(),
        coverage_scan(ls, k) is None,
    ensures
        coverage_scan(ls, ls.len() as int) is None,
    decreases ls.len() - k,
{
    if k < ls.len() {
        lemma_coverage_scan_stops(ls, k + 1);
    }
}

} // verus!
