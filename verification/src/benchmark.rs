//! The record of a benchmark run and the builder that fills it line by line.
//!
//! An [`Item`] is one timed benchmark, a [`Suite`] is what one benchmarked
//! crate reported, and a [`Run`] gathers the suites of one log.

use crate::classifier::{classify, classify_text, Line, LineView};
use crate::error::{ErrorKind, ErrorView};
use crate::number::{bench_number, normalize};
use crate::text::{lines_of, split_lines};
use vstd::prelude::*;
use vstd::string::StringExecFns;

verus! {

/// The architecture that every run is filed under. The log does not say on
/// which machine it was made, so this fixed text stands in its place.
pub const ARCHITECTURE: &'static str = "TODO";

/// One timed benchmark.
#[derive(Debug, PartialEq)]
pub struct Item {
    pub name: String,
    pub average_ns: i32,
    pub deviation_ns: i32,
    /// Present only where the log states a rate for the benchmark.
    pub throughput_mbps: Option<i32>,
}

/// The measurements of one benchmarked crate, in the order of the log.
#[derive(Debug, PartialEq)]
pub struct Suite {
    pub name: String,
    pub items: Vec<Item>,
}

/// All suites of one log, in the order of the log.
#[derive(Debug, PartialEq)]
pub struct Run {
    pub architecture: String,
    pub suites: Vec<Suite>,
}

/// The mathematical content of an [`Item`].
pub struct ItemView {
    pub name: Seq<char>,
    pub average_ns: i32,
    pub deviation_ns: i32,
    pub throughput_mbps: Option<i32>,
}

/// The mathematical content of a [`Suite`].
pub struct SuiteView {
    pub name: Seq<char>,
    pub items: Seq<ItemView>,
}

/// The mathematical content of a [`Run`].
pub struct RunView {
    pub architecture: Seq<char>,
    pub suites: Seq<SuiteView>,
}

impl View for Item {
    type V = ItemView;

    open spec fn view(&self) -> ItemView {
        ItemView {
            name: self.name@,
            average_ns: self.average_ns,
            deviation_ns: self.deviation_ns,
            throughput_mbps: self.throughput_mbps,
        }
    }
}

impl DeepView for Item {
    type V = ItemView;

    open spec fn deep_view(&self) -> ItemView {
        self@
    }
}

impl View for Suite {
    type V = SuiteView;

    open spec fn view(&self) -> SuiteView {
        SuiteView { name: self.name@, items: self.items.deep_view() }
    }
}

impl DeepView for Suite {
    type V = SuiteView;

    open spec fn deep_view(&self) -> SuiteView {
        self@
    }
}

impl View for Run {
    type V = RunView;

    open spec fn view(&self) -> RunView {
        RunView { architecture: self.architecture@, suites: self.suites.deep_view() }
    }
}

/// The run that a parse starts from: no suite yet.
pub open spec fn empty_run() -> RunView {
    RunView { architecture: ARCHITECTURE@, suites: Seq::empty() }
}

/// A run with one more suite, which is empty, at its end.
pub open spec fn with_suite(run: RunView, name: Seq<char>) -> RunView {
    RunView {
        architecture: run.architecture,
        suites: run.suites.push(SuiteView { name, items: Seq::empty() }),
    }
}

/// A run with one more item at the end of its last suite.
pub open spec fn with_item(run: RunView, item: ItemView) -> RunView
    recommends
        run.suites.len() > 0,
{
    let last = run.suites.last();
    RunView {
        architecture: run.architecture,
        suites: run.suites.drop_last().push(
            SuiteView { name: last.name, items: last.items.push(item) },
        ),
    }
}

/// The item that the fields of a measurement line stand for, or the first
/// of its number fields, in the order average, deviation, rate, that is no
/// number.
pub open spec fn measured_item(
    name: Seq<char>,
    average: Seq<char>,
    deviation: Seq<char>,
    throughput: Option<Seq<char>>,
) -> Result<ItemView, ErrorView> {
    match (bench_number(average), bench_number(deviation)) {
        (None, _) => Err(ErrorView::MalformedNumber(average)),
        (Some(_), None) => Err(ErrorView::MalformedNumber(deviation)),
        (Some(average_ns), Some(deviation_ns)) => match throughput {
            None => Ok(ItemView { name, average_ns, deviation_ns, throughput_mbps: None }),
            Some(rate) => match bench_number(rate) {
                None => Err(ErrorView::MalformedNumber(rate)),
                Some(mbps) => Ok(
                    ItemView { name, average_ns, deviation_ns, throughput_mbps: Some(mbps) },
                ),
            },
        },
    }
}

/// What one classified line does to a run. A section start opens a suite,
/// a measurement goes to the suite opened last, and anything else changes
/// nothing. A measurement is read before it is placed, so a malformed
/// number is reported even where no suite is open.
pub open spec fn observe_spec(run: RunView, line: LineView) -> Result<RunView, ErrorView> {
    match line {
        LineView::SectionStart { name } => Ok(with_suite(run, name)),
        LineView::Measurement { name, average, deviation, throughput } => match measured_item(
            name,
            average,
            deviation,
            throughput,
        ) {
            Err(error) => Err(error),
            Ok(item) => if run.suites.len() == 0 {
                Err(ErrorView::ItemWithoutSuite)
            } else {
                Ok(with_item(run, item))
            },
        },
        LineView::Unrecognized => Ok(run),
    }
}

/// What a sequence of classified lines does to a run, taken in order. The
/// first line that fails ends it: nothing of the run is left.
pub open spec fn observe_all(run: RunView, lines: Seq<LineView>) -> Result<RunView, ErrorView>
    decreases lines.len(),
{
    if lines.len() == 0 {
        Ok(run)
    } else {
        match observe_spec(run, lines.first()) {
            Ok(next) => observe_all(next, lines.drop_first()),
            Err(error) => Err(error),
        }
    }
}

/// The kinds of the lines of a log, in order.
pub open spec fn classify_lines(lines: Seq<Seq<char>>) -> Seq<LineView> {
    lines.map_values(|line: Seq<char>| classify_text(line))
}

/// The record that a sequence of lines stands for.
pub open spec fn parse_lines(lines: Seq<Seq<char>>) -> Result<RunView, ErrorView> {
    observe_all(empty_run(), classify_lines(lines))
}

/// The record that the text of a log stands for.
pub open spec fn parse_text(text: Seq<char>) -> Result<RunView, ErrorView> {
    parse_lines(lines_of(text))
}

/// The mathematical content of the outcome of a parse.
pub open spec fn outcome_view(outcome: Result<Run, ErrorKind>) -> Result<RunView, ErrorView> {
    match outcome {
        Ok(run) => Ok(run@),
        Err(error) => Err(error@),
    }
}

/// Builds a [`Run`] from the lines of a log, handed over one at a time.
pub struct Parser {
    run: Run,
}

impl View for Parser {
    type V = RunView;

    closed spec fn view(&self) -> RunView {
        self.run@
    }
}

impl Parser {
    /// A parser that has seen no line.
    pub fn new() -> (parser: Parser)
        ensures
            parser@ == empty_run(),
    {
        let parser = Parser {
            run: Run { architecture: String::from_str(ARCHITECTURE), suites: Vec::new() },
        };
        proof {
            assert(parser.run.suites.deep_view() =~= Seq::<SuiteView>::empty());
        }
        parser
    }

    /// Reads a number field, in which commas may group the digits.
    pub fn parse_bench_num(s: &str) -> (number: Result<i32, ErrorKind>)
        ensures
            match bench_number(s@) {
                Some(value) => number == Ok::<i32, ErrorKind>(value),
                None => number matches Err(error) && error@ == ErrorView::MalformedNumber(s@),
            },
    {
        match normalize(s) {
            Some(value) => Ok(value),
            None => Err(ErrorKind::MalformedNumber(String::from_str(s))),
        }
    }

    /// Opens a new, empty suite.
    pub fn parse_suite(&mut self, name: String)
        ensures
            final(self)@ == with_suite(old(self)@, name@),
    {
        let ghost before = self.run.suites.deep_view();
        let suite = Suite { name, items: Vec::new() };
        proof {
            assert(suite.items.deep_view() =~= Seq::<ItemView>::empty());
        }
        self.run.suites.push(suite);
        proof {
            assert(self.run.suites.deep_view() =~= before.push(suite@));
        }
    }

    /// Reads the fields of a measurement and adds it to the suite opened
    /// last. Leaves the parser as it was where it fails.
    pub fn parse_item(
        &mut self,
        name: String,
        average: &str,
        deviation: &str,
        throughput: Option<&str>,
    ) -> (outcome: Result<(), ErrorKind>)
        ensures
            match observe_spec(
                old(self)@,
                LineView::Measurement {
                    name: name@,
                    average: average@,
                    deviation: deviation@,
                    throughput: throughput.deep_view(),
                },
            ) {
                Ok(run) => outcome is Ok && final(self)@ == run,
                Err(error) => outcome matches Err(e) && e@ == error && final(self)@ == old(self)@,
            },
    {
        let average_ns = match Parser::parse_bench_num(average) {
            Ok(value) => value,
            Err(error) => { return Err(error); },
        };
        let deviation_ns = match Parser::parse_bench_num(deviation) {
            Ok(value) => value,
            Err(error) => { return Err(error); },
        };
        let throughput_mbps = match throughput {
            Some(rate) => match Parser::parse_bench_num(rate) {
                Ok(value) => Some(value),
                Err(error) => { return Err(error); },
            },
            None => None,
        };
        let item = Item { name, average_ns, deviation_ns, throughput_mbps };
        let ghost before = self.run.suites.deep_view();
        match self.run.suites.pop() {
            Some(mut suite) => {
                let ghost items = suite.items.deep_view();
                let ghost rest = self.run.suites.deep_view();
                suite.items.push(item);
                proof {
                    assert(rest =~= before.drop_last());
                    assert(suite.items.deep_view() =~= items.push(item@));
                }
                self.run.suites.push(suite);
                proof {
                    assert(self.run.suites.deep_view() =~= rest.push(suite@));
                }
                Ok(())
            },
            None => Err(ErrorKind::ItemWithoutSuite),
        }
    }

    /// Takes in one classified line.
    pub fn observe(&mut self, line: Line) -> (outcome: Result<(), ErrorKind>)
        ensures
            match observe_spec(old(self)@, line@) {
                Ok(run) => outcome is Ok && final(self)@ == run,
                Err(error) => outcome matches Err(e) && e@ == error && final(self)@ == old(self)@,
            },
    {
        match line {
            Line::SectionStart { name } => {
                self.parse_suite(name);
                Ok(())
            },
            Line::Measurement { name, average, deviation, throughput } => {
                match throughput {
                    Some(rate) => self.parse_item(
                        name,
                        average.as_str(),
                        deviation.as_str(),
                        Some(rate.as_str()),
                    ),
                    None => self.parse_item(name, average.as_str(), deviation.as_str(), None),
                }
            },
            Line::Unrecognized => Ok(()),
        }
    }

    /// Classifies one line of the log and takes it in.
    pub fn parse_line(&mut self, line: &str) -> (outcome: Result<(), ErrorKind>)
        ensures
            match observe_spec(old(self)@, classify_text(line@)) {
                Ok(run) => outcome is Ok && final(self)@ == run,
                Err(error) => outcome matches Err(e) && e@ == error && final(self)@ == old(self)@,
            },
    {
        self.observe(classify(line))
    }

    /// Hands the finished run over. This never fails.
    pub fn complete(self) -> (outcome: Result<Run, ErrorKind>)
        ensures
            outcome matches Ok(run) && run@ == self@,
    {
        Ok(self.run)
    }
}

/// Parses the text of a whole log. The first line that fails ends the
/// parse, and nothing of the run is returned.
pub fn parse_bench(logs: &str) -> (outcome: Result<Run, ErrorKind>)
    ensures
        outcome_view(outcome) == parse_text(logs@),
{
    let lines = split_lines(logs);
    let ghost kinds = classify_lines(lines.deep_view());
    let mut parser = Parser::new();
    let mut i: usize = 0;
    proof {
        assert(kinds.skip(0) =~= kinds);
    }
    while i < lines.len()
        invariant
            i <= lines.len(),
            kinds == classify_lines(lines.deep_view()),
            observe_all(parser@, kinds.skip(i as int)) == parse_text(logs@),
        decreases lines.len() - i,
    {
        proof {
            assert(kinds.skip(i as int).first() == classify_text(lines[i as int]@));
            assert(kinds.skip(i as int).drop_first() =~= kinds.skip(i + 1));
        }
        match parser.parse_line(lines[i].as_str()) {
            Ok(()) => {},
            Err(error) => {
                return Err(error);
            },
        }
        i = i + 1;
    }
    parser.complete()
}

/// Parses a log that may not have been obtained: `None` stands for a
/// source that could not be read.
pub fn parse_source(source: Option<&str>) -> (outcome: Result<Run, ErrorKind>)
    ensures
        outcome_view(outcome) == match source {
            Some(logs) => parse_text(logs@),
            None => Err(ErrorView::SourceUnavailable),
        },
{
    match source {
        Some(logs) => parse_bench(logs),
        None => Err(ErrorKind::SourceUnavailable),
    }
}

} // verus!
