//! Managed blocks of lines, and what replacing them does to the lines.

use vstd::prelude::*;

use super::{
    is_only, lemma_line_start_grows, lemma_line_start_within, lemma_line_within,
    lemma_lines_fill_text, line_end, line_start, marker_marks, only_marked, with_block,
};
use crate::text::{
    lemma_one_piece, lemma_pieces_nonempty, lemma_pieces_of_two, pieces, without_return,
};

verus! {

/// The last line is empty where the text is, or ends in a line feed.
proof fn lemma_end_of_text(text: Seq<char>)
    ensures
        ({
            let parts = pieces(text, '\n');
            &&& text.len() == 0 ==> parts.len() == 1 && parts.last().len() == 0
            &&& text.len() > 0 && text.last() == '\n' ==> parts.len() > 1 && parts.last().len() == 0
            &&& text.len() > 0 && text.last() != '\n' ==> parts.last().len() > 0
                && parts.last().last() == text.last()
        }),
{
    if text.len() > 0 {
        lemma_pieces_nonempty(text.drop_last(), '\n');
        let before = pieces(text.drop_last(), '\n');
        if text.last() == '\n' {
            assert(before.push(Seq::empty()).last() == Seq::<char>::empty());
        }
    }
}

/// Two texts with the same lines are the same text.
pub proof fn lemma_same_lines(left: Seq<char>, right: Seq<char>)
    requires
        pieces(left, '\n') == pieces(right, '\n'),
    ensures
        left == right,
    decreases left.len(),
{
    let parts = pieces(left, '\n');
    lemma_end_of_text(left);
    lemma_end_of_text(right);
    if left.len() == 0 || right.len() == 0 {
        assert(left =~= right);
    } else {
        lemma_pieces_nonempty(left.drop_last(), '\n');
        lemma_pieces_nonempty(right.drop_last(), '\n');
        let before = pieces(left.drop_last(), '\n');
        let other = pieces(right.drop_last(), '\n');
        if left.last() == '\n' {
            assert(right.last() == '\n');
            assert(parts.drop_last() =~= before);
            assert(parts.drop_last() =~= other);
        } else {
            assert(right.last() != '\n');
            assert(parts.last().last() == left.last());
            assert(parts.last().last() == right.last());
            assert(parts.last().drop_last() =~= before.last());
            assert(parts.last().drop_last() =~= other.last());
            assert(parts.drop_last() =~= before.drop_last());
            assert(parts.drop_last() =~= other.drop_last());
            assert(before =~= before.drop_last().push(before.last()));
            assert(other =~= other.drop_last().push(other.last()));
        }
        lemma_same_lines(left.drop_last(), right.drop_last());
        assert(left =~= left.drop_last().push(left.last()));
        assert(right =~= right.drop_last().push(right.last()));
    }
}

/// What stands before a line and what stands from it on are made of the lines
/// before it and of the others.
pub proof fn lemma_cut_before_line(text: Seq<char>, index: int)
    requires
        0 <= index < pieces(text, '\n').len(),
    ensures
        ({
            let parts = pieces(text, '\n');
            let start = line_start(parts, index);
            &&& 0 <= start <= text.len()
            &&& index == 0 ==> start == 0
            &&& index > 0 ==> {
                &&& start > 0
                &&& text.take(start) == text.take(start - 1).push('\n')
                &&& pieces(text.take(start - 1), '\n') == parts.take(index)
            }
            &&& pieces(text.skip(start), '\n') == parts.skip(index)
        }),
    decreases text.len(),
{
    let parts = pieces(text, '\n');
    let start = line_start(parts, index);
    lemma_line_within(text, index);
    if index == 0 {
        assert(text.skip(0) == text);
        assert(parts.skip(0) == parts);
    } else {
        let shorter = text.drop_last();
        let before = pieces(shorter, '\n');
        lemma_pieces_nonempty(shorter, '\n');
        lemma_lines_fill_text(shorter);
        if text.last() == '\n' {
            assert(parts == before.push(Seq::empty()));
            lemma_line_start_within(before, parts, index);
            if index == before.len() {
                assert(start == text.len());
                assert(text.take(start) == text);
                assert(text.take(start - 1) == shorter);
                assert(shorter.push('\n') == text);
                assert(parts.take(index) == before);
                assert(text.skip(start) == Seq::<char>::empty());
                assert(parts.skip(index) == seq![Seq::<char>::empty()]);
            } else {
                lemma_cut_before_line(shorter, index);
                assert(text.take(start) == shorter.take(start));
                assert(text.take(start - 1) == shorter.take(start - 1));
                assert(parts.take(index) == before.take(index));
                assert(text.skip(start).drop_last() == shorter.skip(start));
                assert(text.skip(start).last() == '\n');
                assert(parts.skip(index) == before.skip(index).push(Seq::empty()));
            }
        } else {
            lemma_line_start_within(before, parts, index);
            lemma_cut_before_line(shorter, index);
            assert(text.take(start) == shorter.take(start));
            assert(text.take(start - 1) == shorter.take(start - 1));
            assert(parts.take(index) == before.take(index));
            assert(text.skip(start).drop_last() == shorter.skip(start));
            assert(text.skip(start).last() == text.last());
            assert(before.skip(index).last() == before.last());
            assert(parts.skip(index) =~= before.skip(index).drop_last().push(
                before.last().push(text.last()),
            ));
        }
    }
}

/// Whether a text can mark a line.
pub open spec fn is_marker(marker: Seq<char>) -> bool {
    &&& marker.len() > 0
    &&& !marker.contains('\n')
    &&& without_return(marker) == marker
}

/// Whether no line of a text is a marker.
pub open spec fn lacks_line(text: Seq<char>, marker: Seq<char>) -> bool {
    forall|i: int|
        0 <= i < pieces(text, '\n').len() ==> without_return(#[trigger] pieces(text, '\n')[i])
            != marker
}

/// A block of lines between its markers.
pub open spec fn block(begin: Seq<char>, middle: Seq<char>, end: Seq<char>) -> Seq<char> {
    begin.push('\n') + (middle.push('\n') + end)
}

proof fn lemma_pieces_of_block(begin: Seq<char>, middle: Seq<char>, end: Seq<char>)
    requires
        !begin.contains('\n'),
        !end.contains('\n'),
    ensures
        pieces(block(begin, middle, end), '\n') == seq![begin] + (pieces(middle, '\n') + seq![end]),
{
    lemma_one_piece(begin, '\n');
    lemma_one_piece(end, '\n');
    lemma_pieces_of_two(middle, end, '\n');
    lemma_pieces_of_two(begin, middle.push('\n') + end, '\n');
}

pub proof fn lemma_only_marked(marks: Seq<bool>, index: int)
    requires
        is_only(marks, index),
    ensures
        only_marked(marks) == Some(index),
{
    let found = choose|found: int| is_only(marks, found);
    assert(is_only(marks, found));
    assert(marks[found]);
}

/// Lines with a block among them have each of its markers once, where the
/// other lines are none.
proof fn lemma_block_is_found(
    before: Seq<Seq<char>>,
    inner: Seq<Seq<char>>,
    after: Seq<Seq<char>>,
    marker: Seq<char>,
    at: int,
    text: Seq<char>,
)
    requires
        pieces(text, '\n') == before + inner + after,
        after.len() > 0,
        0 <= at < inner.len(),
        is_marker(marker),
        inner[at] == marker,
        forall|i: int| 0 <= i < inner.len() && i != at ==> without_return(#[trigger] inner[i]) != marker,
        forall|i: int| 0 <= i < before.len() ==> without_return(#[trigger] before[i]) != marker,
        forall|i: int|
            0 <= i < after.len() && (i + 1 < after.len() || after[i].len() > 0) ==> without_return(
                #[trigger] after[i],
            ) != marker,
    ensures
        only_marked(marker_marks(text, marker)) == Some(before.len() + at),
{
    let parts = pieces(text, '\n');
    let marks = marker_marks(text, marker);
    let index = before.len() + at;
    assert(parts[index] == inner[at]);
    assert(marks[index]);
    assert forall|other: int| 0 <= other < marks.len() && #[trigger] marks[other] implies other
        == index by {
        if other < before.len() {
            assert(parts[other] == before[other]);
        } else if other < before.len() + inner.len() {
            assert(parts[other] == inner[other - before.len()]);
        } else {
            assert(parts[other] == after[other - before.len() - inner.len()]);
        }
    }
    lemma_only_marked(marks, index);
}

/// The lines behind a line; an empty one where there are none.
pub open spec fn lines_behind(parts: Seq<Seq<char>>, index: int) -> Seq<Seq<char>> {
    if index + 1 < parts.len() {
        parts.skip(index + 1)
    } else {
        seq![Seq::empty()]
    }
}

/// Lines in which others stand for those from one to another.
pub open spec fn with_lines(
    parts: Seq<Seq<char>>,
    first: int,
    last: int,
    inner: Seq<Seq<char>>,
) -> Seq<Seq<char>> {
    parts.take(first) + inner + lines_behind(parts, last)
}

/// What replacing a managed block does to the lines.
pub proof fn lemma_block_lines(
    contents: Seq<char>,
    begin_marker: Seq<char>,
    end_marker: Seq<char>,
    replacement: Seq<char>,
) -> (place: (int, int))
    requires
        with_block(contents, begin_marker, end_marker, replacement) is Some,
    ensures
        place.0 < place.1,
        is_only(marker_marks(contents, begin_marker), place.0),
        is_only(marker_marks(contents, end_marker), place.1),
        pieces(with_block(contents, begin_marker, end_marker, replacement)->0, '\n') == with_lines(
            pieces(contents, '\n'),
            place.0,
            place.1,
            pieces(replacement, '\n'),
        ),
{
    let once = with_block(contents, begin_marker, end_marker, replacement)->0;
    let parts = pieces(contents, '\n');
    let begin_marks = marker_marks(contents, begin_marker);
    let end_marks = marker_marks(contents, end_marker);
    let first = only_marked(begin_marks)->0;
    let last = only_marked(end_marks)->0;
    assert(is_only(begin_marks, first));
    assert(is_only(end_marks, last));
    let start = line_start(parts, first);
    let finish = line_end(parts, last);
    lemma_line_within(contents, first);
    lemma_line_within(contents, last);
    if last <= first {
        lemma_line_start_grows(parts, last, first);
        if first + 1 < parts.len() {
            assert(line_end(parts, first) > line_start(parts, first));
        } else {
            assert(parts[first].len() > 0);
        }
        assert(false);
    }
    let head = contents.take(start);
    let rest = contents.skip(finish);
    let before = parts.take(first);
    let inner = pieces(replacement, '\n');
    let after = pieces(rest, '\n');
    lemma_cut_before_line(contents, first);
    // The lines behind the old block.
    if last + 1 < parts.len() {
        lemma_cut_before_line(contents, last + 1);
    } else {
        lemma_lines_fill_text(contents);
        assert(rest == Seq::<char>::empty());
    }
    assert(after =~= lines_behind(parts, last));
    // The lines of the new text.
    reveal_strlit("\n");
    assert("\n"@ =~= seq!['\n']);
    let tail = replacement.push('\n') + rest;
    assert(once =~= head + tail);
    lemma_pieces_of_two(replacement, rest, '\n');
    if first == 0 {
        assert(once =~= tail);
        assert(before =~= Seq::<Seq<char>>::empty());
    } else {
        let shorter = contents.take(start - 1);
        assert(once =~= shorter.push('\n') + tail);
        lemma_pieces_of_two(shorter, tail, '\n');
    }
    assert(pieces(once, '\n') =~= before + inner + after);
    (first, last)
}

/// Whether lines are a block between its markers.
pub open spec fn is_block(inner: Seq<Seq<char>>, begin_marker: Seq<char>, end_marker: Seq<char>) -> bool {
    &&& inner.len() > 1
    &&& inner.first() == begin_marker
    &&& inner.last() == end_marker
}

/// Whether lines stand in a text, with more behind them.
pub open spec fn stand_at(inner: Seq<Seq<char>>, text: Seq<char>, at: int) -> bool {
    let parts = pieces(text, '\n');
    &&& 0 <= at
    &&& at + inner.len() < parts.len()
    &&& parts.subrange(at, at + inner.len()) == inner
}

/// A block that already stands between the only markers is replaced by itself.
pub proof fn lemma_block_stands(
    text: Seq<char>,
    begin_marker: Seq<char>,
    end_marker: Seq<char>,
    replacement: Seq<char>,
    at: int,
)
    requires
        is_marker(begin_marker),
        is_marker(end_marker),
        is_block(pieces(replacement, '\n'), begin_marker, end_marker),
        stand_at(pieces(replacement, '\n'), text, at),
        only_marked(marker_marks(text, begin_marker)) is Some,
        only_marked(marker_marks(text, end_marker)) is Some,
    ensures
        with_block(text, begin_marker, end_marker, replacement) == Some(text),
{
    let parts = pieces(text, '\n');
    let inner = pieces(replacement, '\n');
    let finish = at + inner.len() - 1;
    let block = parts.subrange(at, at + inner.len());
    assert(block[0] == parts[at]);
    assert(block[inner.len() - 1] == parts[finish]);
    let begin_marks = marker_marks(text, begin_marker);
    let end_marks = marker_marks(text, end_marker);
    let first = only_marked(begin_marks)->0;
    let last = only_marked(end_marks)->0;
    assert(is_only(begin_marks, first));
    assert(is_only(end_marks, last));
    assert(begin_marks[at]);
    assert(end_marks[finish]);
    lemma_line_start_grows(parts, at + 1, finish);
    let place = lemma_block_lines(text, begin_marker, end_marker, replacement);
    assert(begin_marks[place.0]);
    assert(end_marks[place.1]);
    let again = with_block(text, begin_marker, end_marker, replacement)->0;
    assert(with_lines(parts, at, finish, inner) =~= parts) by {
        assert forall|i: int| 0 <= i < parts.len() implies with_lines(parts, at, finish, inner)[i]
            == parts[i] by {
            if at <= i <= finish {
                assert(block[i - at] == parts[i]);
            }
        }
    }
    lemma_same_lines(again, text);
}

/// Behind a replacement each marker stands where the block has it, and nowhere
/// else.
pub proof fn lemma_markers_of_block(
    contents: Seq<char>,
    begin_marker: Seq<char>,
    end_marker: Seq<char>,
    replacement: Seq<char>,
)
    requires
        is_marker(begin_marker),
        is_marker(end_marker),
        begin_marker != end_marker,
        with_block(contents, begin_marker, end_marker, replacement) is Some,
        is_block(pieces(replacement, '\n'), begin_marker, end_marker),
        forall|i: int|
            0 < i < pieces(replacement, '\n').len() - 1 ==> {
                &&& without_return(#[trigger] pieces(replacement, '\n')[i]) != begin_marker
                &&& without_return(pieces(replacement, '\n')[i]) != end_marker
            },
    ensures
        ({
            let once = with_block(contents, begin_marker, end_marker, replacement)->0;
            &&& only_marked(marker_marks(once, begin_marker)) is Some
            &&& only_marked(marker_marks(once, end_marker)) is Some
            &&& exists|at: int| #[trigger] stand_at(pieces(replacement, '\n'), once, at)
        }),
{
    let once = with_block(contents, begin_marker, end_marker, replacement)->0;
    let parts = pieces(contents, '\n');
    let begin_marks = marker_marks(contents, begin_marker);
    let end_marks = marker_marks(contents, end_marker);
    let place = lemma_block_lines(contents, begin_marker, end_marker, replacement);
    let before = parts.take(place.0);
    let inner = pieces(replacement, '\n');
    let after = lines_behind(parts, place.1);
    assert forall|i: int| 0 <= i < before.len() implies without_return(#[trigger] before[i])
        != begin_marker && without_return(before[i]) != end_marker by {
        assert(before[i] == parts[i]);
        assert(!begin_marks[i]);
        assert(!end_marks[i]);
    }
    assert forall|i: int|
        0 <= i < after.len() && (i + 1 < after.len() || after[i].len() > 0) implies without_return(
        #[trigger] after[i],
    ) != begin_marker && without_return(after[i]) != end_marker by {
        if place.1 + 1 < parts.len() {
            assert(after[i] == parts[place.1 + 1 + i]);
            assert(!begin_marks[place.1 + 1 + i]);
            assert(!end_marks[place.1 + 1 + i]);
        }
    }
    lemma_block_is_found(before, inner, after, begin_marker, 0, once);
    lemma_block_is_found(before, inner, after, end_marker, inner.len() - 1, once);
    assert(pieces(once, '\n').subrange(place.0, place.0 + inner.len()) =~= inner);
    assert(stand_at(inner, once, place.0));
}

/// Putting the same block in the place of a managed one a second time changes
/// nothing.
pub proof fn law_block_is_replaced_once(
    contents: Seq<char>,
    begin_marker: Seq<char>,
    end_marker: Seq<char>,
    middle: Seq<char>,
)
    requires
        is_marker(begin_marker),
        is_marker(end_marker),
        begin_marker != end_marker,
        lacks_line(middle, begin_marker),
        lacks_line(middle, end_marker),
    ensures
        ({
            let replacement = block(begin_marker, middle, end_marker);
            with_block(contents, begin_marker, end_marker, replacement) matches Some(once)
                ==> with_block(once, begin_marker, end_marker, replacement) == Some(once)
        }),
{
    let replacement = block(begin_marker, middle, end_marker);
    if let Some(once) = with_block(contents, begin_marker, end_marker, replacement) {
        let inner = pieces(replacement, '\n');
        lemma_pieces_of_block(begin_marker, middle, end_marker);
        assert forall|i: int| 0 < i < inner.len() - 1 implies without_return(#[trigger] inner[i])
            != begin_marker && without_return(inner[i]) != end_marker by {
            assert(inner[i] == pieces(middle, '\n')[i - 1]);
        }
        lemma_markers_of_block(contents, begin_marker, end_marker, replacement);
        let at = choose|at: int| #[trigger] stand_at(inner, once, at);
        lemma_block_stands(once, begin_marker, end_marker, replacement, at);
    }
}

} // verus!
