//! What holds of every parse: the order of the log is kept, noise changes
//! nothing, a measurement needs an open section, and the outcome depends on
//! the text alone.

use crate::benchmark::{
    classify_lines, empty_run, measured_item, observe_all, observe_spec, parse_lines, parse_text,
    with_item, with_suite, ItemView, RunView, SuiteView,
};
use crate::classifier::{classify_text, LineView};
use crate::error::ErrorView;
use crate::number::bench_number;
use vstd::prelude::*;

verus! {

/// The names of the suites of a run, in order.
pub open spec fn suite_names(run: RunView) -> Seq<Seq<char>> {
    run.suites.map_values(|suite: SuiteView| suite.name)
}

/// The items of a run, suite after suite, in order.
pub open spec fn all_items(run: RunView) -> Seq<ItemView> {
    run.suites.map_values(|suite: SuiteView| suite.items).flatten()
}

/// The name that a line opens a section under, if it opens one.
pub open spec fn section_name(line: LineView) -> Seq<Seq<char>> {
    match line {
        LineView::SectionStart { name } => seq![name],
        _ => Seq::empty(),
    }
}

/// The item that a line reports, if it is a measurement with well-formed
/// numbers.
pub open spec fn reported_item(line: LineView) -> Seq<ItemView> {
    match line {
        LineView::Measurement { name, average, deviation, throughput } => match measured_item(
            name,
            average,
            deviation,
            throughput,
        ) {
            Ok(item) => seq![item],
            Err(_) => Seq::empty(),
        },
        _ => Seq::empty(),
    }
}

/// The names of the sections that a sequence of lines opens, in the order
/// of the lines.
pub open spec fn section_names(lines: Seq<LineView>) -> Seq<Seq<char>>
    decreases lines.len(),
{
    if lines.len() == 0 {
        Seq::empty()
    } else {
        section_name(lines.first()) + section_names(lines.drop_first())
    }
}

/// The items that a sequence of lines reports, in the order of the lines.
pub open spec fn reported_items(lines: Seq<LineView>) -> Seq<ItemView>
    decreases lines.len(),
{
    if lines.len() == 0 {
        Seq::empty()
    } else {
        reported_item(lines.first()) + reported_items(lines.drop_first())
    }
}

/// Whether a line counts for the record.
pub open spec fn is_recognized(line: LineView) -> bool {
    !(line is Unrecognized)
}

/// One more suite shows as one more name, and adds no item.
proof fn lemma_with_suite(run: RunView, name: Seq<char>)
    ensures
        suite_names(with_suite(run, name)) == suite_names(run).push(name),
        all_items(with_suite(run, name)) == all_items(run),
{
    let suite = SuiteView { name, items: Seq::empty() };
    let lists = run.suites.map_values(|suite: SuiteView| suite.items);
    assert(suite_names(with_suite(run, name)) =~= suite_names(run).push(name));
    assert(with_suite(run, name).suites.map_values(|suite: SuiteView| suite.items) =~= lists.push(
        suite.items,
    ));
    lists.lemma_flatten_push(suite.items);
    assert(lists.flatten() + suite.items =~= lists.flatten());
}

/// One more item shows at the end of the items, and changes no name.
proof fn lemma_with_item(run: RunView, item: ItemView)
    requires
        run.suites.len() > 0,
    ensures
        suite_names(with_item(run, item)) == suite_names(run),
        all_items(with_item(run, item)) == all_items(run).push(item),
{
    let last = run.suites.last();
    let lists = run.suites.map_values(|suite: SuiteView| suite.items);
    let front = lists.drop_last();
    assert(suite_names(with_item(run, item)) =~= suite_names(run));
    assert(with_item(run, item).suites.map_values(|suite: SuiteView| suite.items) =~= front.push(
        last.items.push(item),
    ));
    assert(lists =~= front.push(last.items));
    front.lemma_flatten_push(last.items);
    front.lemma_flatten_push(last.items.push(item));
    assert(front.flatten() + last.items.push(item) =~= (front.flatten() + last.items).push(item));
}

/// Order is kept. Where a sequence of lines is taken in without error, the
/// suites of the run are those it had, followed by the sections that the
/// lines open, in the order of the lines; and its items, read suite after
/// suite, are those it had, followed by the measurements of the lines, in
/// the order of the lines.
pub proof fn lemma_order_preserved(run: RunView, lines: Seq<LineView>)
    requires
        observe_all(run, lines) is Ok,
    ensures
        suite_names(observe_all(run, lines)->Ok_0) == suite_names(run) + section_names(lines),
        all_items(observe_all(run, lines)->Ok_0) == all_items(run) + reported_items(lines),
    decreases lines.len(),
{
    if lines.len() == 0 {
        assert(suite_names(run) + section_names(lines) =~= suite_names(run));
        assert(all_items(run) + reported_items(lines) =~= all_items(run));
    } else {
        let line = lines.first();
        let rest = lines.drop_first();
        let next = observe_spec(run, line)->Ok_0;
        lemma_order_preserved(next, rest);
        match line {
            LineView::SectionStart { name } => {
                lemma_with_suite(run, name);
            },
            LineView::Measurement { name, average, deviation, throughput } => {
                lemma_with_item(run, measured_item(name, average, deviation, throughput)->Ok_0);
            },
            LineView::Unrecognized => {},
        }
        assert(suite_names(next) + section_names(rest) =~= suite_names(run) + section_names(
            lines,
        ));
        assert(all_items(next) + reported_items(rest) =~= all_items(run) + reported_items(lines));
    }
}

/// Order is kept, for a whole log: the suites of its record are the
/// sections of the log and its items are the measurements of the log, each
/// in the order in which the lines stand.
pub proof fn lemma_parse_preserves_order(lines: Seq<Seq<char>>)
    requires
        parse_lines(lines) is Ok,
    ensures
        suite_names(parse_lines(lines)->Ok_0) == section_names(classify_lines(lines)),
        all_items(parse_lines(lines)->Ok_0) == reported_items(classify_lines(lines)),
{
    let kinds = classify_lines(lines);
    lemma_order_preserved(empty_run(), kinds);
    assert(suite_names(empty_run()) =~= Seq::<Seq<char>>::empty());
    assert(empty_run().suites.map_values(|suite: SuiteView| suite.items) =~= Seq::<
        Seq<ItemView>,
    >::empty());
    assert(suite_names(empty_run()) + section_names(kinds) =~= section_names(kinds));
    assert(all_items(empty_run()) + reported_items(kinds) =~= reported_items(kinds));
}

/// Taking in two sequences of lines one after the other is taking in their
/// concatenation.
pub proof fn lemma_observe_concat(run: RunView, front: Seq<LineView>, back: Seq<LineView>)
    ensures
        observe_all(run, front + back) == match observe_all(run, front) {
            Ok(middle) => observe_all(middle, back),
            Err(error) => Err(error),
        },
    decreases front.len(),
{
    if front.len() == 0 {
        assert(front + back =~= back);
    } else {
        assert((front + back).first() == front.first());
        assert((front + back).drop_first() =~= front.drop_first() + back);
        match observe_spec(run, front.first()) {
            Ok(next) => {
                lemma_observe_concat(next, front.drop_first(), back);
            },
            Err(_) => {},
        }
    }
}

/// Noise changes nothing: an unrecognized line may be taken out of a
/// sequence of lines, wherever it stands, and the outcome is the same.
pub proof fn lemma_unrecognized_ignored(run: RunView, lines: Seq<LineView>, at: int)
    requires
        0 <= at < lines.len(),
        lines[at] is Unrecognized,
    ensures
        observe_all(run, lines.remove(at)) == observe_all(run, lines),
{
    let front = lines.take(at);
    let back = lines.skip(at + 1);
    let noise = seq![lines[at]];
    assert(lines =~= front + (noise + back));
    assert(lines.remove(at) =~= front + back);
    lemma_observe_concat(run, front, noise + back);
    lemma_observe_concat(run, front, back);
    match observe_all(run, front) {
        Ok(middle) => {
            assert((noise + back).first() == lines[at]);
            assert((noise + back).drop_first() =~= back);
        },
        Err(_) => {},
    }
}

/// Noise changes nothing: with all its unrecognized lines taken out, a
/// sequence of lines has the same outcome.
pub proof fn lemma_noise_removed(run: RunView, lines: Seq<LineView>)
    ensures
        observe_all(run, lines.filter(|line: LineView| is_recognized(line))) == observe_all(
            run,
            lines,
        ),
    decreases lines.len(),
{
    let keep = |line: LineView| is_recognized(line);
    reveal(Seq::filter);
    if lines.len() > 0 {
        let front = lines.drop_last();
        let last = seq![lines.last()];
        assert(lines =~= front + last);
        Seq::filter_distributes_over_add(front, last, keep);
        assert(last.drop_last() =~= Seq::<LineView>::empty());
        lemma_noise_removed(run, front);
        lemma_observe_concat(run, front, last);
        lemma_observe_concat(run, front.filter(keep), last.filter(keep));
        if !is_recognized(lines.last()) {
            assert(last.filter(keep) =~= Seq::<LineView>::empty());
            match observe_all(run, front) {
                Ok(middle) => {
                    assert(last.drop_first() =~= Seq::<LineView>::empty());
                },
                Err(_) => {},
            }
        } else {
            assert(last.filter(keep) =~= last);
        }
    }
}

/// Noise changes nothing, for a whole log: a line that is neither a
/// section start nor a measurement may be taken out of the log, wherever it
/// stands, and the record is the same.
pub proof fn lemma_parse_ignores_noise(lines: Seq<Seq<char>>, at: int)
    requires
        0 <= at < lines.len(),
        classify_text(lines[at]) is Unrecognized,
    ensures
        parse_lines(lines.remove(at)) == parse_lines(lines),
{
    assert(classify_lines(lines.remove(at)) =~= classify_lines(lines).remove(at));
    lemma_unrecognized_ignored(empty_run(), classify_lines(lines), at);
}

/// A measurement needs an open section. Where a run has no suite and the
/// lines open none before a measurement, taking them in fails; and it fails
/// for want of a suite where only noise stands before the measurement and
/// the numbers of the measurement are well formed.
pub proof fn lemma_item_without_suite(run: RunView, lines: Seq<LineView>, at: int)
    requires
        run.suites.len() == 0,
        0 <= at < lines.len(),
        lines[at] is Measurement,
        forall|j: int| 0 <= j < at ==> !(#[trigger] lines[j] is SectionStart),
    ensures
        observe_all(run, lines) is Err,
        (forall|j: int| 0 <= j < at ==> #[trigger] lines[j] is Unrecognized) && reported_item(
            lines[at],
        ).len() > 0 ==> observe_all(run, lines) == Err::<RunView, ErrorView>(
            ErrorView::ItemWithoutSuite,
        ),
    decreases at,
{
    if at > 0 {
        let rest = lines.drop_first();
        assert(!(lines[0] is SectionStart));
        assert(rest[at - 1] == lines[at]);
        assert forall|j: int| 0 <= j < at - 1 implies !(#[trigger] rest[j] is SectionStart) by {
            assert(rest[j] == lines[j + 1]);
        }
        if observe_spec(run, lines.first()) is Ok {
            assert(observe_spec(run, lines.first())->Ok_0 == run);
            lemma_item_without_suite(run, rest, at - 1);
            if forall|j: int| 0 <= j < at ==> #[trigger] lines[j] is Unrecognized {
                assert forall|j: int| 0 <= j < at - 1 implies #[trigger] rest[j] is Unrecognized by {
                    assert(rest[j] == lines[j + 1]);
                }
            }
        } else {
            if forall|j: int| 0 <= j < at ==> #[trigger] lines[j] is Unrecognized {
                assert(lines[0] is Unrecognized);
            }
        }
    }
}

/// A rate is recorded exactly where the line states one: the item of a
/// measurement holds a throughput if and only if the line has a rate field,
/// and then it is the number of that field.
pub proof fn lemma_throughput_as_stated(
    name: Seq<char>,
    average: Seq<char>,
    deviation: Seq<char>,
    throughput: Option<Seq<char>>,
)
    requires
        measured_item(name, average, deviation, throughput) is Ok,
    ensures
        measured_item(name, average, deviation, throughput)->Ok_0.throughput_mbps is Some
            <==> throughput is Some,
        throughput matches Some(rate) ==> measured_item(
            name,
            average,
            deviation,
            throughput,
        )->Ok_0.throughput_mbps == bench_number(rate),
{
}

/// The record depends on the text alone: the same text has the same
/// outcome, whenever and wherever it is parsed.
pub proof fn lemma_parse_deterministic(first: Seq<char>, second: Seq<char>)
    requires
        first == second,
    ensures
        parse_text(first) == parse_text(second),
{
}

} // verus!
