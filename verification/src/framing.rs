//! The store file as text: one record to a line.
//!
//! A line ends at a line feed. A carriage return just before that line feed
//! belongs to the line end, not to the line. Text after the last line feed is
//! a line of its own.

use vstd::prelude::*;
use vstd::string::StringExecFns;

verus! {

/// `String::push` appends the character to the end of the string.
pub assume_specification[ String::push ](text: &mut String, c: char)
    ensures
        final(text)@ == old(text)@.push(c),
;

/// A text that can stand on a line of its own wherever it is put: it holds no
/// line feed and no carriage return.
pub open spec fn on_one_line(text: Seq<char>) -> bool {
    forall|i: int| 0 <= i < text.len() ==> text[i] != '\n' && text[i] != '\r'
}

/// A text without a line feed.
pub open spec fn has_no_feed(text: Seq<char>) -> bool {
    forall|i: int| 0 <= i < text.len() ==> text[i] != '\n'
}

/// A line that is read back as it was written: it holds no line feed, and it
/// does not end in a carriage return.
pub open spec fn reads_back(line: Seq<char>) -> bool {
    has_no_feed(line) && (line.len() > 0 ==> line.last() != '\r')
}

/// A text to which a line can be appended: it is empty, or its last line is
/// ended.
pub open spec fn is_closed(text: Seq<char>) -> bool {
    text.len() > 0 ==> text.last() == '\n'
}

/// The place of the first line feed of a text, or its length where it has none.
pub open spec fn line_end(text: Seq<char>) -> int
    decreases text.len(),
{
    if text.len() == 0 || text[0] == '\n' {
        0
    } else {
        1 + line_end(text.skip(1))
    }
}

/// A line without the carriage return that stood before its line feed.
pub open spec fn without_return(line: Seq<char>) -> Seq<char> {
    if line.len() > 0 && line.last() == '\r' {
        line.drop_last()
    } else {
        line
    }
}

/// The lines of a text.
pub open spec fn lines_of(text: Seq<char>) -> Seq<Seq<char>>
    decreases text.len(),
{
    let end = line_end(text);
    if text.len() == 0 {
        Seq::empty()
    } else if 0 <= end < text.len() {
        seq![without_return(text.take(end))] + lines_of(text.skip(end + 1))
    } else {
        seq![text]
    }
}

/// The text of lines: each line, followed by a line feed.
pub open spec fn framed(lines: Seq<Seq<char>>) -> Seq<char>
    decreases lines.len(),
{
    if lines.len() == 0 {
        Seq::empty()
    } else {
        framed(lines.drop_last()) + lines.last() + seq!['\n']
    }
}

/// The first line feed stands where a line feed stands with none before it.
pub proof fn lemma_line_end(text: Seq<char>, end: int)
    requires
        0 <= end <= text.len(),
        has_no_feed(text.take(end)),
        end < text.len() ==> text[end] == '\n',
    ensures
        line_end(text) == end,
    decreases end,
{
    if end > 0 {
        assert(text.take(end)[0] == text[0]);
        let rest = text.skip(1);
        let shorter = rest.take(end - 1);
        assert forall|i: int| 0 <= i < shorter.len() implies #[trigger] shorter[i] != '\n' by {
            assert(text.take(end)[i + 1] == shorter[i]);
        }
        lemma_line_end(rest, end - 1);
    }
}

/// The first line feed lies within the text, and no line feed lies before it.
pub proof fn lemma_line_end_bounds(text: Seq<char>)
    ensures
        0 <= line_end(text) <= text.len(),
        has_no_feed(text.take(line_end(text))),
        line_end(text) < text.len() ==> text[line_end(text)] == '\n',
    decreases text.len(),
{
    if text.len() == 0 || text[0] == '\n' {
    } else {
        let rest = text.skip(1);
        lemma_line_end_bounds(rest);
        let end = line_end(text);
        let shorter = text.take(end);
        assert forall|i: int| 0 <= i < shorter.len() implies #[trigger] shorter[i] != '\n' by {
            if i > 0 {
                assert(rest.take(end - 1)[i - 1] == shorter[i]);
            }
        }
    }
}

/// A text without a line feed is no line if it is empty, and one line if not.
pub proof fn lemma_lines_of_last(text: Seq<char>)
    requires
        has_no_feed(text),
    ensures
        lines_of(text) == if text.len() == 0 {
            Seq::<Seq<char>>::empty()
        } else {
            seq![text]
        },
{
    assert(text.take(text.len() as int) =~= text);
    lemma_line_end(text, text.len() as int);
}

/// A text cut at its first line feed: the line before it, then the lines of
/// what follows it.
pub proof fn lemma_lines_of_cut(text: Seq<char>, end: int)
    requires
        0 <= end < text.len(),
        has_no_feed(text.take(end)),
        text[end] == '\n',
    ensures
        lines_of(text) == seq![without_return(text.take(end))] + lines_of(text.skip(end + 1)),
{
    lemma_line_end(text, end);
}

/// No line of a text holds a line feed.
pub proof fn lemma_lines_have_no_feed(text: Seq<char>)
    ensures
        forall|at: int| 0 <= at < lines_of(text).len() ==> has_no_feed(#[trigger] lines_of(text)[at]),
    decreases text.len(),
{
    let end = line_end(text);
    lemma_line_end_bounds(text);
    if text.len() == 0 {
    } else if end < text.len() {
        let rest = text.skip(end + 1);
        lemma_lines_have_no_feed(rest);
        let head = without_return(text.take(end));
        assert(has_no_feed(head)) by {
            assert forall|i: int| 0 <= i < head.len() implies head[i] != '\n' by {
                assert(head[i] == text.take(end)[i]);
            }
        }
        assert forall|at: int| 0 <= at < lines_of(text).len() implies has_no_feed(
            #[trigger] lines_of(text)[at],
        ) by {
            if at > 0 {
                assert(lines_of(text)[at] == lines_of(rest)[at - 1]);
            }
        }
    } else {
        assert(text.take(end) =~= text);
    }
}

/// Appending to a closed text appends lines: the lines of both, one after the
/// other.
pub proof fn lemma_lines_of_appended(stored: Seq<char>, more: Seq<char>)
    requires
        is_closed(stored),
    ensures
        lines_of(stored + more) == lines_of(stored) + lines_of(more),
    decreases stored.len(),
{
    if stored.len() == 0 {
        assert(stored + more =~= more);
        assert(lines_of(stored) + lines_of(more) =~= lines_of(more));
    } else {
        let whole = stored + more;
        let end = line_end(stored);
        lemma_line_end_bounds(stored);
        assert(end < stored.len()) by {
            if end == stored.len() {
                assert(stored.take(end)[end - 1] == stored.last());
            }
        }
        assert(whole.take(end) =~= stored.take(end));
        lemma_line_end(whole, end);
        let rest = stored.skip(end + 1);
        assert(whole.skip(end + 1) =~= rest + more);
        assert(is_closed(rest)) by {
            if rest.len() > 0 {
                assert(rest.last() == stored.last());
            }
        }
        lemma_lines_of_appended(rest, more);
        assert(lines_of(whole) =~= lines_of(stored) + lines_of(more));
    }
}

/// The text of lines is closed.
pub proof fn lemma_framed_is_closed(lines: Seq<Seq<char>>)
    ensures
        is_closed(framed(lines)),
{
}

/// The text of lines that read back holds exactly those lines.
pub proof fn lemma_lines_of_framed(lines: Seq<Seq<char>>)
    requires
        forall|at: int| 0 <= at < lines.len() ==> reads_back(#[trigger] lines[at]),
    ensures
        lines_of(framed(lines)) == lines,
    decreases lines.len(),
{
    if lines.len() == 0 {
    } else {
        let init = lines.drop_last();
        let last = lines.last();
        let tail = last + seq!['\n'];
        assert forall|at: int| 0 <= at < init.len() implies reads_back(#[trigger] init[at]) by {
            assert(init[at] == lines[at]);
        }
        lemma_lines_of_framed(init);
        lemma_framed_is_closed(init);
        assert(framed(lines) =~= framed(init) + tail);
        lemma_lines_of_appended(framed(init), tail);
        assert(reads_back(last));
        assert(tail.take(last.len() as int) =~= last);
        lemma_lines_of_cut(tail, last.len() as int);
        assert(tail.skip(last.len() as int + 1) =~= Seq::<char>::empty());
        assert(lines_of(tail) =~= seq![last]);
        assert(init + seq![last] =~= lines);
    }
}

/// Whether a text can stand on a line of its own.
pub fn is_on_one_line(text: &str) -> (r: bool)
    ensures
        r == on_one_line(text@),
{
    for c in it: text.chars()
        invariant
            it.seq() == text@,
            forall|i: int| 0 <= i < it.index() ==> text@[i] != '\n' && text@[i] != '\r',
    {
        if c == '\n' || c == '\r' {
            return false;
        }
    }
    true
}

/// The text that holds the given lines: each line, followed by a line feed.
pub fn join_lines(lines: &Vec<String>) -> (text: String)
    ensures
        text@ == framed(lines.deep_view()),
{
    let ghost all = lines.deep_view();
    let mut text = String::new();
    let mut at: usize = 0;
    while at < lines.len()
        invariant
            at <= lines.len(),
            all == lines.deep_view(),
            text@ == framed(all.take(at as int)),
        decreases lines.len() - at,
    {
        proof {
            let longer = all.take(at + 1);
            assert(longer.drop_last() =~= all.take(at as int));
            assert(longer.last() == lines[at as int]@);
        }
        text.append(lines[at].as_str());
        text.push('\n');
        at += 1;
    }
    assert(all.take(at as int) =~= all);
    text
}

/// The lines that a text holds.
pub fn split_lines(text: &str) -> (lines: Vec<String>)
    ensures
        lines.deep_view() == lines_of(text@),
{
    let ghost all = text@;
    let mut lines: Vec<String> = Vec::new();
    let mut line = String::new();
    // A carriage return is held back until the next character shows whether
    // it belongs to the line or to its end.
    let mut held_return = false;
    let ghost mut start: int = 0;
    assert(all.skip(0) =~= all);
    for c in it: text.chars()
        invariant
            it.seq() == all,
            0 <= start <= it.index(),
            lines_of(all) == lines.deep_view() + lines_of(all.skip(start)),
            all.subrange(start, it.index() as int) == line@ + if held_return {
                seq!['\r']
            } else {
                Seq::<char>::empty()
            },
            has_no_feed(all.subrange(start, it.index() as int)),
            !held_return && line@.len() > 0 ==> line@.last() != '\r',
    {
        let ghost at = it.index() as int;
        let ghost so_far = all.subrange(start, at);
        let ghost rest = all.skip(start);
        assert(c == all[at]);
        if c == '\n' {
            proof {
                assert(rest.take(at - start) =~= so_far);
                assert(rest[at - start] == '\n');
                lemma_lines_of_cut(rest, at - start);
                assert(rest.skip(at - start + 1) =~= all.skip(at + 1));
                assert(without_return(so_far) =~= line@) by {
                    if !held_return {
                        assert(so_far =~= line@);
                        if line@.len() > 0 {
                            assert(line@.last() != '\r');
                        }
                    }
                }
                start = at + 1;
            }
            let ghost before = lines.deep_view();
            lines.push(line);
            assert(lines.deep_view() =~= before.push(without_return(so_far)));
            line = String::new();
            held_return = false;
            assert(all.subrange(start, at + 1) =~= Seq::<char>::empty());
        } else {
            if held_return {
                line.push('\r');
            }
            if c == '\r' {
                held_return = true;
            } else {
                line.push(c);
                held_return = false;
            }
            assert(all.subrange(start, at + 1) =~= so_far.push(c));
        }
    }
    let ghost rest = all.skip(start);
    assert(all.subrange(start, all.len() as int) =~= rest);
    if held_return {
        line.push('\r');
    }
    assert(line@ =~= rest);
    proof {
        lemma_lines_of_last(rest);
    }
    if line.as_str().unicode_len() > 0 {
        let ghost before = lines.deep_view();
        lines.push(line);
        assert(lines.deep_view() =~= before + seq![rest]);
    } else {
        assert(lines.deep_view() + Seq::<Seq<char>>::empty() =~= lines.deep_view());
    }
    lines
}

} // verus!
