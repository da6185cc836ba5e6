//! The lines of a text.
//!
//! [`split_lines`] is the mathematical model: it says, for any sequence of
//! characters, which lines it holds. The executable side walks the lines
//! with the iterator of the standard library, whose behaviour is tied to the
//! model by the two trusted functions at the end of this file.

use std::str::Lines;
use vstd::prelude::*;

verus! {

/// The position of the first line feed in `text`, or `text.len()` where it
/// holds none.
pub open spec fn first_line_feed(text: Seq<char>) -> nat
    decreases text.len(),
{
    if text.len() == 0 || text[0] == '\n' {
        0
    } else {
        1 + first_line_feed(text.drop_first())
    }
}

/// `line` without its last character where that is a carriage return.
pub open spec fn without_carriage_return(line: Seq<char>) -> Seq<char> {
    if line.len() > 0 && line.last() == '\r' {
        line.drop_last()
    } else {
        line
    }
}

/// The lines of `text`, in order.
///
/// A line ends at a line feed, or at a carriage return directly followed by
/// a line feed; the terminator is not part of the line. A carriage return
/// elsewhere is an ordinary character. What follows the last line feed is a
/// line only where it is not empty, so a final terminator adds no empty
/// line, and the empty text has no lines.
pub open spec fn split_lines(text: Seq<char>) -> Seq<Seq<char>>
    decreases text.len(),
{
    let end = first_line_feed(text) as int;
    if text.len() == 0 {
        Seq::empty()
    } else if end >= text.len() {
        seq![text]
    } else {
        seq![without_carriage_return(text.take(end))] + split_lines(text.skip(end + 1))
    }
}

/// The first line feed lies inside the text or right behind it, and no line
/// feed stands before it.
pub proof fn lemma_first_line_feed(text: Seq<char>)
    ensures
        first_line_feed(text) <= text.len(),
        first_line_feed(text) < text.len() ==> text[first_line_feed(text) as int] == '\n',
        forall|i: int| 0 <= i < first_line_feed(text) ==> text[i] != '\n',
    decreases text.len(),
{
    if text.len() == 0 || text[0] == '\n' {
    } else {
        let rest = text.drop_first();
        lemma_first_line_feed(rest);
        assert forall|i: int| 0 <= i < first_line_feed(text) implies text[i] != '\n' by {
            if i > 0 {
                assert(text[i] == rest[i - 1]);
            }
        }
    }
}

/// A position behind which a line feed stands, or the end, with no line
/// feed before it, is the position of the first line feed.
pub proof fn lemma_first_line_feed_is_at(text: Seq<char>, at: int)
    requires
        0 <= at <= text.len(),
        at < text.len() ==> text[at] == '\n',
        forall|i: int| 0 <= i < at ==> text[i] != '\n',
    ensures
        first_line_feed(text) == at,
    decreases text.len(),
{
    if at > 0 {
        let rest = text.drop_first();
        assert forall|i: int| 0 <= i < at - 1 implies rest[i] != '\n' by {
        }
        lemma_first_line_feed_is_at(rest, at - 1);
    }
}

/// A line feed ends a line: where no line feed stands in `head`, the lines
/// of `head`, a line feed and `rest` are `head`, without a carriage return
/// at its end, and then the lines of `rest`.
pub proof fn line_feed_ends_a_line(head: Seq<char>, rest: Seq<char>)
    requires
        forall|i: int| 0 <= i < head.len() ==> head[i] != '\n',
    ensures
        split_lines(head + seq!['\n'] + rest) == seq![without_carriage_return(head)] + split_lines(
            rest,
        ),
{
    let text = head + seq!['\n'] + rest;
    lemma_first_line_feed_is_at(text, head.len() as int);
    assert(text.take(head.len() as int) =~= head);
    assert(text.skip(head.len() as int + 1) =~= rest);
}

/// A text that is not empty and holds no line feed is one line, itself.
pub proof fn text_without_line_feed_is_one_line(text: Seq<char>)
    requires
        text.len() > 0,
        forall|i: int| 0 <= i < text.len() ==> text[i] != '\n',
    ensures
        split_lines(text) == seq![text],
{
    lemma_first_line_feed_is_at(text, text.len() as int);
}

/// No line holds a line feed.
pub proof fn lines_hold_no_line_feed(text: Seq<char>)
    ensures
        forall|i: int, j: int|
            0 <= i < split_lines(text).len() && 0 <= j < split_lines(text)[i].len()
                ==> #[trigger] split_lines(text)[i][j] != '\n',
    decreases text.len(),
{
    let lines = split_lines(text);
    let end = first_line_feed(text) as int;
    lemma_first_line_feed(text);
    if text.len() > 0 && end < text.len() {
        let rest = text.skip(end + 1);
        lines_hold_no_line_feed(rest);
        assert forall|i: int, j: int|
            0 <= i < lines.len() && 0 <= j < lines[i].len() implies #[trigger] lines[i][j]
            != '\n' by {
            if i > 0 {
                assert(lines[i] == split_lines(rest)[i - 1]);
            }
        }
    }
}

/// The last line needs no terminator, and a terminator at the end of the
/// text adds no empty line: a text that is not empty and ends in neither a
/// line feed nor a carriage return has the same lines with a line feed
/// behind it, and with a carriage return and a line feed behind it.
pub proof fn final_terminator_adds_no_line(text: Seq<char>)
    requires
        text.len() > 0,
        text.last() != '\n',
        text.last() != '\r',
    ensures
        split_lines(text + seq!['\n']) == split_lines(text),
        split_lines(text + seq!['\r', '\n']) == split_lines(text),
    decreases text.len(),
{
    let end = first_line_feed(text) as int;
    let none: Seq<char> = Seq::empty();
    lemma_first_line_feed(text);
    if end >= text.len() {
        let with_return = text.push('\r');
        line_feed_ends_a_line(text, none);
        line_feed_ends_a_line(with_return, none);
        assert(with_return + seq!['\n'] + none =~= text + seq!['\r', '\n']);
        assert(without_carriage_return(with_return) =~= text);
    } else {
        let head = text.take(end);
        let rest = text.skip(end + 1);
        assert(rest.len() > 0 && rest.last() == text.last());
        final_terminator_adds_no_line(rest);
        assert(text + seq!['\n'] =~= head + seq!['\n'] + (rest + seq!['\n']));
        assert(text + seq!['\r', '\n'] =~= head + seq!['\n'] + (rest + seq!['\r', '\n']));
        line_feed_ends_a_line(head, rest);
        line_feed_ends_a_line(head, rest + seq!['\n']);
        line_feed_ends_a_line(head, rest + seq!['\r', '\n']);
    }
}

/// The iterator over the lines of a string slice that `str::lines` returns.
#[verifier::external_type_specification]
#[verifier::external_body]
pub struct ExLines<'a>(Lines<'a>);

/// The lines that an iterator has yet to hand out, first to last.
pub uninterp spec fn pending(iter: Lines<'_>) -> Seq<Seq<char>>;

/// Calls `str::lines`. The iterator that it returns has the lines of
/// `text`, as [`split_lines`] gives them, still to hand out.
#[verifier::external_body]
pub(crate) fn lines_of<'a>(text: &'a str) -> (iter: Lines<'a>)
    ensures
        pending(iter) == split_lines(text@),
{
    text.lines()
}

/// Calls `Iterator::next` on the iterator of `str::lines`. Where a line is
/// left, the call hands out the first of them and leaves the others; where
/// none is left, it returns `None` and leaves none.
#[verifier::external_body]
pub(crate) fn next_line<'a>(iter: &mut Lines<'a>) -> (line: Option<&'a str>)
    ensures
        match line {
            Some(l) => pending(*old(iter)).len() > 0 && l@ == pending(*old(iter)).first()
                && pending(*final(iter)) == pending(*old(iter)).drop_first(),
            None => pending(*old(iter)).len() == 0 && pending(*final(iter)).len() == 0,
        },
{
    iter.next()
}

} // verus!
