//! Cuts the text of a log into its lines.

use vstd::prelude::*;

verus! {

/// `String::push` appends one character to the end of the string.
pub assume_specification[ String::push ](text: &mut String, c: char)
    ensures
        final(text)@ == old(text)@.push(c),
;

/// How many characters stand before the first line feed of `text`, or its
/// whole length where it holds none.
pub open spec fn line_end(text: Seq<char>) -> nat
    decreases text.len(),
{
    if text.len() == 0 || text[0] == '\n' {
        0
    } else {
        1 + line_end(text.drop_first())
    }
}

/// A line without the carriage return that may close it.
pub open spec fn without_carriage_return(line: Seq<char>) -> Seq<char> {
    if line.len() > 0 && line.last() == '\r' {
        line.drop_last()
    } else {
        line
    }
}

/// The lines of a text. A line ends with a line feed, or with a carriage
/// return and a line feed; neither belongs to the line. What follows the
/// last line feed is a line of its own unless it is empty, and is kept as
/// it stands.
pub open spec fn lines_of(text: Seq<char>) -> Seq<Seq<char>>
    decreases text.len(),
{
    if text.len() == 0 {
        Seq::empty()
    } else {
        let end = line_end(text) as int;
        if end >= text.len() {
            seq![text]
        } else {
            seq![without_carriage_return(text.take(end))] + lines_of(text.skip(end + 1))
        }
    }
}

/// `line_end` is the place of the first line feed.
pub proof fn lemma_line_end(text: Seq<char>, end: int)
    requires
        0 <= end <= text.len(),
        forall|j: int| 0 <= j < end ==> text[j] != '\n',
        end < text.len() ==> text[end] == '\n',
    ensures
        line_end(text) == end,
    decreases end,
{
    if end > 0 {
        let rest = text.drop_first();
        assert forall|j: int| 0 <= j < end - 1 implies rest[j] != '\n' by {
            assert(rest[j] == text[j + 1]);
        }
        lemma_line_end(rest, end - 1);
    }
}

/// The carriage return that has been read and not yet put into the line.
pub open spec fn held_back(pending: bool) -> Seq<char> {
    if pending {
        seq!['\r']
    } else {
        Seq::empty()
    }
}

/// Cuts a text into its lines.
pub fn split_lines(text: &str) -> (lines: Vec<String>)
    ensures
        lines.deep_view() == lines_of(text@),
{
    let mut lines: Vec<String> = Vec::new();
    let mut current = String::new();
    let mut pending = false;
    let ghost mut start: int = 0;
    proof {
        assert(text@.skip(0) =~= text@);
        assert(lines.deep_view() =~= Seq::<Seq<char>>::empty());
        assert(text@.subrange(0, 0) =~= current@ + held_back(pending));
    }
    for c in it: text.chars()
        invariant
            it.seq() == text@,
            0 <= start <= it.index(),
            lines_of(text@) == lines.deep_view() + lines_of(text@.skip(start)),
            text@.subrange(start, it.index()) == current@ + held_back(pending),
            !pending ==> without_carriage_return(current@) == current@,
            forall|j: int| start <= j < it.index() ==> text@[j] != '\n',
    {
        let ghost i = it.index();
        let ghost rest = text@.skip(start);
        proof {
            assert(text@.subrange(start, i + 1) =~= text@.subrange(start, i).push(c));
        }
        if c == '\n' {
            proof {
                lemma_line_end(rest, i - start);
                assert(rest.take(i - start) =~= text@.subrange(start, i));
                assert(rest.skip(i - start + 1) =~= text@.skip(i + 1));
                assert(without_carriage_return(current@ + held_back(pending)) =~= current@);
                assert(lines.deep_view().push(current@) + lines_of(text@.skip(i + 1))
                    =~= lines.deep_view() + lines_of(rest));
                start = i + 1;
            }
            let ghost before = lines.deep_view();
            let ghost line = current@;
            lines.push(current);
            current = String::new();
            pending = false;
            proof {
                assert(lines.deep_view() =~= before.push(line));
                assert(text@.subrange(start, i + 1) =~= current@ + held_back(pending));
            }
        } else {
            if pending {
                current.push('\r');
            }
            if c == '\r' {
                pending = true;
            } else {
                current.push(c);
                pending = false;
            }
            proof {
                assert(text@.subrange(start, i + 1) =~= current@ + held_back(pending));
            }
        }
    }
    let ghost rest = text@.skip(start);
    proof {
        assert(rest =~= text@.subrange(start, text@.len() as int));
    }
    if pending {
        current.push('\r');
    }
    proof {
        assert(rest =~= current@);
        lemma_line_end(rest, rest.len() as int);
    }
    if !current.as_str().is_empty() {
        let ghost before = lines.deep_view();
        let ghost line = current@;
        lines.push(current);
        proof {
            assert(lines.deep_view() =~= before.push(line));
            assert(before.push(line) =~= before + seq![line]);
        }
    } else {
        proof {
            assert(lines.deep_view() + Seq::<Seq<char>>::empty() =~= lines.deep_view());
        }
    }
    lines
}

} // verus!
