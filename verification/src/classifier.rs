//! Tells the lines of a benchmark log apart: the start of a section, one
//! measurement, or noise.

use regex::Regex;
use vstd::prelude::*;

verus! {

/// A measurement as the harness prints it: the word `test`, the name, three
/// dots, `bench:`, the average with its unit, the deviation in parentheses
/// and, on some lines, a rate with its unit. Both units are fixed by the
/// harness. The three number fields take any run of non-blank characters;
/// whether each is a number is settled when the measurement is recorded.
pub const MEASUREMENT_PATTERN: &'static str =
    r"^test ([^\s]+)\s*\.\.\. bench:\s*([^\s]+) ns/iter \(\+/- ([^\s]+)\)(?: = ([^\s]+) MB/s)?";

/// The line with which the run of one benchmarked crate begins. It has to
/// fill the whole line.
pub const SECTION_PATTERN: &'static str = r"^Running 'bench' in ([^']*)$";

/// What one line of the log turned out to be.
#[derive(Debug, PartialEq, Eq)]
pub enum Line {
    /// A new section begins under this name.
    SectionStart { name: String },
    /// One measurement, its number fields still as they stood in the text.
    Measurement { name: String, average: String, deviation: String, throughput: Option<String> },
    /// Anything else: blank lines, summaries, other output.
    Unrecognized,
}

/// The mathematical content of a [`Line`].
pub enum LineView {
    SectionStart { name: Seq<char> },
    Measurement {
        name: Seq<char>,
        average: Seq<char>,
        deviation: Seq<char>,
        throughput: Option<Seq<char>>,
    },
    Unrecognized,
}

impl View for Line {
    type V = LineView;

    open spec fn view(&self) -> LineView {
        match *self {
            Line::SectionStart { name } => LineView::SectionStart { name: name@ },
            Line::Measurement { name, average, deviation, throughput } => LineView::Measurement {
                name: name@,
                average: average@,
                deviation: deviation@,
                throughput: match throughput {
                    Some(t) => Some(t@),
                    None => None,
                },
            },
            Line::Unrecognized => LineView::Unrecognized,
        }
    }
}

impl DeepView for Line {
    type V = LineView;

    open spec fn deep_view(&self) -> LineView {
        self@
    }
}

/// What the regular expression `pattern` captures in `haystack`: `None`
/// where `pattern` is no regular expression or matches nowhere; else, for the
/// leftmost match, one entry per capture group in the order of their opening
/// parentheses, entry 0 being the whole match, and `None` standing for a group
/// that took no part in the match.
pub uninterp spec fn regex_captures(pattern: Seq<char>, haystack: Seq<char>) -> Option<
    Seq<Option<Seq<char>>>,
>;

/// Runs `regex::Regex::new` on `pattern` and `Regex::captures` of the result
/// on `haystack`, and copies the text of each group out. The contract gives
/// the outcome its name and claims nothing else of it.
#[verifier::external_body]
fn captures(pattern: &str, haystack: &str) -> (groups: Option<Vec<Option<String>>>)
    ensures
        groups.deep_view() == regex_captures(pattern@, haystack@),
{
    let compiled = Regex::new(pattern).ok()?;
    let found = compiled.captures(haystack)?;
    Some(found.iter().map(|group| group.map(|m| m.as_str().to_owned())).collect())
}

/// The text of group `index`, if there is such a group and it took part.
pub open spec fn group_text(groups: Seq<Option<Seq<char>>>, index: int) -> Option<Seq<char>> {
    if 0 <= index < groups.len() {
        groups[index]
    } else {
        None
    }
}

/// The measurement that the groups of [`MEASUREMENT_PATTERN`] spell out.
pub open spec fn measurement_of(captured: Option<Seq<Option<Seq<char>>>>) -> Option<LineView> {
    match captured {
        Some(groups) => match (
            group_text(groups, 1),
            group_text(groups, 2),
            group_text(groups, 3),
        ) {
            (Some(name), Some(average), Some(deviation)) => Some(
                LineView::Measurement {
                    name,
                    average,
                    deviation,
                    throughput: group_text(groups, 4),
                },
            ),
            _ => None,
        },
        None => None,
    }
}

/// The section start that the groups of [`SECTION_PATTERN`] spell out.
pub open spec fn section_of(captured: Option<Seq<Option<Seq<char>>>>) -> Option<LineView> {
    match captured {
        Some(groups) => match group_text(groups, 1) {
            Some(name) => Some(LineView::SectionStart { name }),
            None => None,
        },
        None => None,
    }
}

/// The kind of a line, given what each of the two patterns captured in it.
/// The measurement pattern is asked first.
pub open spec fn classify_captures(
    measurement: Option<Seq<Option<Seq<char>>>>,
    section: Option<Seq<Option<Seq<char>>>>,
) -> LineView {
    match measurement_of(measurement) {
        Some(line) => line,
        None => match section_of(section) {
            Some(line) => line,
            None => LineView::Unrecognized,
        },
    }
}

/// The kind of a line of text.
pub open spec fn classify_text(line: Seq<char>) -> LineView {
    classify_captures(
        regex_captures(MEASUREMENT_PATTERN@, line),
        regex_captures(SECTION_PATTERN@, line),
    )
}

/// Copies the text of one group out of a set of captures.
fn copy_group(groups: &Vec<Option<String>>, index: usize) -> (text: Option<String>)
    ensures
        text.deep_view() == group_text(groups.deep_view(), index as int),
{
    if index < groups.len() {
        match &groups[index] {
            Some(text) => Some(text.clone()),
            None => None,
        }
    } else {
        None
    }
}

/// Reads a measurement out of what [`MEASUREMENT_PATTERN`] captured.
pub fn measurement_from_captures(captured: &Option<Vec<Option<String>>>) -> (line: Option<Line>)
    ensures
        line.deep_view() == measurement_of(captured.deep_view()),
{
    match captured {
        Some(groups) => {
            let name = copy_group(groups, 1);
            let average = copy_group(groups, 2);
            let deviation = copy_group(groups, 3);
            match (name, average, deviation) {
                (Some(name), Some(average), Some(deviation)) => Some(
                    Line::Measurement {
                        name,
                        average,
                        deviation,
                        throughput: copy_group(groups, 4),
                    },
                ),
                _ => None,
            }
        },
        None => None,
    }
}

/// Reads a section start out of what [`SECTION_PATTERN`] captured.
pub fn section_from_captures(captured: &Option<Vec<Option<String>>>) -> (line: Option<Line>)
    ensures
        line.deep_view() == section_of(captured.deep_view()),
{
    match captured {
        Some(groups) => match copy_group(groups, 1) {
            Some(name) => Some(Line::SectionStart { name }),
            None => None,
        },
        None => None,
    }
}

/// Classifies one line of the log.
pub fn classify(line: &str) -> (kind: Line)
    ensures
        kind@ == classify_text(line@),
{
    let measurement = captures(MEASUREMENT_PATTERN, line);
    match measurement_from_captures(&measurement) {
        Some(kind) => kind,
        None => {
            let section = captures(SECTION_PATTERN, line);
            match section_from_captures(&section) {
                Some(kind) => kind,
                None => Line::Unrecognized,
            }
        },
    }
}

} // verus!
