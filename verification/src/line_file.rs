//! Text files that are edited line by line and keep their line breaks.

use vstd::prelude::*;

use crate::text::{
    chained, characters, contains_text, ends_with, has_part, has_suffix, join_texts, lemma_one_piece,
    lemma_pieces_lack_separator, lemma_pieces_nonempty, lemma_pieces_of_two, lines_of, pieces,
    texts, without_return,
};

verus! {

/// The line break that a file uses: a carriage return and a line feed where it
/// holds these anywhere, else a line feed.
pub open spec fn line_break(contents: Seq<char>) -> Seq<char> {
    if has_part(contents, "\r\n"@) {
        "\r\n"@
    } else {
        "\n"@
    }
}

/// Whether a file ends in a line break.
pub open spec fn ends_in_break(contents: Seq<char>) -> bool {
    contents.len() > 0 && (contents.last() == '\n' || contents.last() == '\r')
}

/// Lines with the line breaks of a file, and a last one where it ends in one.
pub open spec fn laid_out(lines: Seq<Seq<char>>, contents: Seq<char>) -> Seq<char> {
    if ends_in_break(contents) {
        chained(lines, line_break(contents)) + line_break(contents)
    } else {
        chained(lines, line_break(contents))
    }
}

/// Lines with the line breaks of a file, and a last one where it ends in one.
pub fn lay_out(lines: &Vec<String>, contents: &str) -> (result: String)
    ensures
        result@ == laid_out(texts(lines@), contents@),
{
    let newline = if contains_text(contents, "\r\n") {
        "\r\n"
    } else {
        "\n"
    };
    let mut output = join_texts(lines, newline);
    let content = characters(contents);
    let count: usize = content.len();
    if count > 0 && (content[count - 1] == '\n' || content[count - 1] == '\r') {
        output.push_str(newline);
    }
    output
}

/// Whether a line ends in a carriage return.
pub open spec fn ends_in_return(line: Seq<char>) -> bool {
    line.len() > 0 && line.last() == '\r'
}

/// Whether a line that a line feed ends has a carriage return before it.
pub open spec fn has_returning_piece(text: Seq<char>) -> bool {
    exists|i: int|
        0 <= i < pieces(text, '\n').len() - 1 && ends_in_return(#[trigger] pieces(text, '\n')[i])
}

proof fn lemma_last_piece(text: Seq<char>)
    ensures
        text.len() == 0 || text.last() == '\n' ==> pieces(text, '\n').last().len() == 0,
        text.len() > 0 && text.last() != '\n' ==> pieces(text, '\n').last().len() > 0 && pieces(
            text,
            '\n',
        ).last().last() == text.last(),
{
}

/// A file has a carriage return before a line feed where one of its lines
/// ends so.
proof fn lemma_break_is_in_a_line(text: Seq<char>)
    ensures
        has_part(text, "\r\n"@) == has_returning_piece(text),
    decreases text.len(),
{
    reveal_strlit("\r\n");
    let pair = "\r\n"@;
    lemma_pieces_nonempty(text, '\n');
    if text.len() == 0 {
        assert(pieces(text, '\n').len() == 1);
    } else {
        let rest = text.drop_last();
        let all = pieces(text, '\n');
        let before = pieces(rest, '\n');
        lemma_break_is_in_a_line(rest);
        lemma_last_piece(rest);
        lemma_pieces_nonempty(rest, '\n');
        let newly = text.last() == '\n' && rest.len() > 0 && rest.last() == '\r';
        assert(has_part(text, pair) == (has_part(rest, pair) || newly)) by {
            if has_part(rest, pair) {
                let start = choose|start: int|
                    0 <= start && start + pair.len() <= rest.len() && #[trigger] rest.subrange(
                        start,
                        start + pair.len(),
                    ) == pair;
                assert(text.subrange(start, start + pair.len()) == rest.subrange(
                    start,
                    start + pair.len(),
                ));
            }
            if newly {
                let start = text.len() - 2;
                assert(text[start] == rest.last());
                assert(text.subrange(start, start + pair.len()) =~= pair);
            }
            if has_part(text, pair) {
                let start = choose|start: int|
                    0 <= start && start + pair.len() <= text.len() && #[trigger] text.subrange(
                        start,
                        start + pair.len(),
                    ) == pair;
                let found = text.subrange(start, start + pair.len());
                if start + 2 <= rest.len() {
                    assert(rest.subrange(start, start + pair.len()) == found);
                } else {
                    assert(found[0] == text[start] && found[1] == text[start + 1]);
                    assert(rest.last() == text[start]);
                }
            }
        }
        if text.last() == '\n' {
            assert(all == before.push(Seq::empty()));
            if has_returning_piece(rest) {
                let i = choose|i: int|
                    0 <= i < before.len() - 1 && ends_in_return(#[trigger] before[i]);
                assert(ends_in_return(all[i]));
            }
            if newly {
                assert(ends_in_return(all[before.len() - 1]));
            }
            if has_returning_piece(text) {
                let i = choose|i: int|
                    0 <= i < all.len() - 1 && ends_in_return(#[trigger] all[i]);
                assert(all[i] == before[i]);
            }
        } else {
            assert(all.drop_last() == before.drop_last());
            if has_returning_piece(rest) {
                let i = choose|i: int|
                    0 <= i < before.len() - 1 && ends_in_return(#[trigger] before[i]);
                assert(all[i] == all.drop_last()[i]);
                assert(before[i] == before.drop_last()[i]);
            }
            if has_returning_piece(text) {
                let i = choose|i: int|
                    0 <= i < all.len() - 1 && ends_in_return(#[trigger] all[i]);
                assert(all[i] == all.drop_last()[i]);
                assert(before[i] == before.drop_last()[i]);
            }
        }
    }
}

/// Lines as the line feeds between them leave them.
pub open spec fn as_pieces(lines: Seq<Seq<char>>, paired: bool) -> Seq<Seq<char>> {
    Seq::new(
        lines.len(),
        |i: int|
            if paired && i < lines.len() - 1 {
                lines[i].push('\r')
            } else {
                lines[i]
            },
    )
}

/// The line break with or without a carriage return.
pub open spec fn chosen_break(paired: bool) -> Seq<char> {
    if paired {
        "\r\n"@
    } else {
        "\n"@
    }
}

/// Whether no line holds a line feed.
pub open spec fn are_lines(lines: Seq<Seq<char>>) -> bool {
    forall|i: int| 0 <= i < lines.len() ==> !(#[trigger] lines[i]).contains('\n')
}

proof fn lemma_pieces_of_chain(lines: Seq<Seq<char>>, paired: bool)
    requires
        lines.len() > 0,
        are_lines(lines),
    ensures
        pieces(chained(lines, chosen_break(paired)), '\n') == as_pieces(lines, paired),
    decreases lines.len(),
{
    reveal_strlit("\r\n");
    reveal_strlit("\n");
    let newline = chosen_break(paired);
    lemma_one_piece(lines.last(), '\n');
    if lines.len() == 1 {
        assert(as_pieces(lines, paired) =~= seq![lines[0]]);
    } else {
        let shorter = lines.drop_last();
        assert forall|i: int| 0 <= i < shorter.len() implies !(#[trigger] shorter[i]).contains(
            '\n',
        ) by {
            assert(shorter[i] == lines[i]);
        }
        lemma_pieces_of_chain(shorter, paired);
        let head = chained(shorter, newline);
        let behind = pieces(head, '\n');
        if paired {
            let left = head.push('\r');
            assert(head + newline + lines.last() == left.push('\n') + lines.last());
            lemma_pieces_of_two(left, lines.last(), '\n');
            assert(left.drop_last() == head);
            assert(pieces(left, '\n') == behind.drop_last().push(behind.last().push('\r')));
            assert(as_pieces(lines, paired) =~= pieces(left, '\n') + seq![lines.last()]);
        } else {
            assert(head + newline + lines.last() == head.push('\n') + lines.last());
            lemma_pieces_of_two(head, lines.last(), '\n');
            assert(as_pieces(lines, paired) =~= behind + seq![lines.last()]);
        }
    }
}

/// Lines that were put together with one line break are read back, but for an
/// empty last one.
pub proof fn lemma_lines_of_chain(lines: Seq<Seq<char>>, paired: bool)
    requires
        lines.len() > 0,
        are_lines(lines),
        paired || (forall|i: int|
            0 <= i < lines.len() - 1 ==> !ends_in_return(#[trigger] lines[i])),
    ensures
        lines_of(chained(lines, chosen_break(paired))) == if lines.last().len() == 0 {
            lines.drop_last()
        } else {
            lines
        },
{
    lemma_pieces_of_chain(lines, paired);
    let parts = as_pieces(lines, paired);
    let ended = parts.drop_last().map_values(|line: Seq<char>| without_return(line));
    assert forall|i: int| 0 <= i < lines.len() - 1 implies #[trigger] ended[i] == lines[i] by {
        assert(parts.drop_last()[i] == parts[i]);
        if paired {
            assert(lines[i].push('\r').drop_last() == lines[i]);
        } else {
            assert(!ends_in_return(lines[i]));
        }
    }
    assert(ended =~= lines.drop_last());
    assert(lines.drop_last().push(lines.last()) =~= lines);
}

/// The lines of a file hold no line feed, and one that a line feed ended has
/// no carriage return left where the file uses none.
pub proof fn lemma_lines_are_lines(contents: Seq<char>)
    ensures
        are_lines(lines_of(contents)),
        !has_part(contents, "\r\n"@) && (contents.len() == 0 || contents.last() != '\r') ==> (
        forall|i: int|
            0 <= i < lines_of(contents).len() ==> !ends_in_return(
                #[trigger] lines_of(contents)[i],
            )),
{
    let parts = pieces(contents, '\n');
    let lines = lines_of(contents);
    lemma_pieces_nonempty(contents, '\n');
    lemma_break_is_in_a_line(contents);
    lemma_last_piece(contents);
    assert forall|i: int| 0 <= i < lines.len() implies !(#[trigger] lines[i]).contains('\n') by {
        lemma_pieces_lack_separator(contents, '\n', i);
        if i < parts.len() - 1 {
            assert(lines[i] == without_return(parts[i]));
            assert forall|j: int| 0 <= j < lines[i].len() implies lines[i][j] != '\n' by {
                assert(lines[i][j] == parts[i][j]);
                assert(parts[i].contains(parts[i][j]));
            }
        } else {
            assert(lines[i] == parts.last());
        }
    }
    if !has_part(contents, "\r\n"@) && (contents.len() == 0 || contents.last() != '\r') {
        assert forall|i: int| 0 <= i < lines.len() implies !ends_in_return(#[trigger] lines[i]) by {
            if i < parts.len() - 1 {
                assert(lines[i] == without_return(parts[i]));
                assert(!ends_in_return(parts[i]));
            } else {
                assert(lines[i] == parts.last());
            }
        }
    }
}

/// Whether lines can be laid out like a file and be told apart again.
pub open spec fn fits(lines: Seq<Seq<char>>, contents: Seq<char>) -> bool {
    &&& lines.len() > 0
    &&& are_lines(lines)
    &&& has_part(contents, "\r\n"@) || (forall|i: int|
        0 <= i < lines.len() ==> !ends_in_return(#[trigger] lines[i]))
}

/// The lines that a file is laid out from, with an empty one behind its last
/// line break.
pub open spec fn padded(lines: Seq<Seq<char>>, contents: Seq<char>) -> Seq<Seq<char>> {
    if ends_in_break(contents) {
        lines.push(Seq::empty())
    } else {
        lines
    }
}

proof fn lemma_laid_out_is_chained(lines: Seq<Seq<char>>, contents: Seq<char>)
    requires
        lines.len() > 0,
        are_lines(lines),
    ensures
        laid_out(lines, contents) == chained(padded(lines, contents), line_break(contents)),
        are_lines(padded(lines, contents)),
        fits(lines, contents) ==> fits(padded(lines, contents), contents),
{
    let all = padded(lines, contents);
    let newline = line_break(contents);
    if ends_in_break(contents) {
        assert(all.drop_last() == lines);
        assert(chained(lines, newline) + newline + Seq::<char>::empty() == chained(lines, newline)
            + newline);
        assert forall|i: int| 0 <= i < all.len() implies !(#[trigger] all[i]).contains('\n') by {
            if i < lines.len() {
                assert(all[i] == lines[i]);
            }
        }
        if fits(lines, contents) && !has_part(contents, "\r\n"@) {
            assert forall|i: int| 0 <= i < all.len() implies !ends_in_return(#[trigger] all[i]) by {
                if i < lines.len() {
                    assert(all[i] == lines[i]);
                }
            }
        }
    }
}

/// Lines that were laid out like a file are read back; an empty last one is
/// only where the file ends in a line break.
pub proof fn law_laid_out_lines_read_back(lines: Seq<Seq<char>>, contents: Seq<char>)
    requires
        fits(lines, contents),
        ends_in_break(contents) || lines.last().len() > 0,
    ensures
        lines_of(laid_out(lines, contents)) == lines,
{
    lemma_laid_out_is_chained(lines, contents);
    let all = padded(lines, contents);
    lemma_lines_of_chain(all, has_part(contents, "\r\n"@));
    if ends_in_break(contents) {
        assert(all.drop_last() == lines);
    }
}

/// The first line of a laid out file, where it does not look like a line
/// break.
pub proof fn lemma_first_line(lines: Seq<Seq<char>>, contents: Seq<char>)
    requires
        lines.len() > 0,
        are_lines(lines),
        lines[0].len() > 0,
        !ends_in_return(lines[0]),
    ensures
        lines_of(laid_out(lines, contents)).len() > 0,
        lines_of(laid_out(lines, contents))[0] == lines[0],
{
    let all = padded(lines, contents);
    let paired = has_part(contents, "\r\n"@);
    lemma_laid_out_is_chained(lines, contents);
    lemma_pieces_of_chain(all, paired);
    let parts = as_pieces(all, paired);
    assert(all[0] == lines[0]);
    if all.len() > 1 {
        let ended = parts.drop_last().map_values(|line: Seq<char>| without_return(line));
        assert(parts.drop_last()[0] == parts[0]);
        if paired {
            assert(lines[0].push('\r').drop_last() == lines[0]);
        }
        assert(ended[0] == lines[0]);
    }
}

/// The last line of a file that does not end in a line break ends as the file
/// does.
pub proof fn lemma_last_line(contents: Seq<char>)
    requires
        contents.len() > 0,
        !ends_in_break(contents),
    ensures
        lines_of(contents).len() > 0,
        !ends_in_return(lines_of(contents).last()),
{
    lemma_last_piece(contents);
    lemma_pieces_nonempty(contents, '\n');
}

/// The lines that are read of lines that were laid out like a file: all of them,
/// but for an empty one at the end.
pub open spec fn read_back(lines: Seq<Seq<char>>, contents: Seq<char>) -> Seq<Seq<char>> {
    if !ends_in_break(contents) && lines.last().len() == 0 {
        lines.drop_last()
    } else {
        lines
    }
}

/// What is read of lines that were laid out like a file is laid out as they
/// were, unless the last one looks like a line break.
pub proof fn lemma_laid_out_again(lines: Seq<Seq<char>>, contents: Seq<char>)
    requires
        fits(lines, contents),
        lines.len() > 1 || lines[0].len() > 0,
    ensures
        lines_of(laid_out(lines, contents)) == read_back(lines, contents),
        read_back(lines, contents).len() > 0,
        ends_in_break(contents) || !ends_in_return(lines.last()) ==> laid_out(
            read_back(lines, contents),
            laid_out(lines, contents),
        ) == laid_out(lines, contents),
{
    reveal_strlit("\r\n");
    reveal_strlit("\n");
    let paired = has_part(contents, "\r\n"@);
    let newline = line_break(contents);
    let all = padded(lines, contents);
    let text = laid_out(lines, contents);
    let read = read_back(lines, contents);
    lemma_laid_out_is_chained(lines, contents);
    assert(text == chained(all, chosen_break(paired)));
    lemma_lines_of_chain(all, paired);
    lemma_pieces_of_chain(all, paired);
    if ends_in_break(contents) {
        assert(all.drop_last() == lines);
    }
    assert(lines_of(text) == read);
    assert(read.len() > 0);
    assert(read =~= if all.last().len() == 0 {
        all.drop_last()
    } else {
        all
    });
    if ends_in_break(contents) || !ends_in_return(lines.last()) {
        // The text uses the same line breaks, where it has one.
        if all.len() > 1 {
            lemma_break_is_in_a_line(text);
            let parts = as_pieces(all, paired);
            if paired {
                assert(parts[0] == all[0].push('\r'));
                assert(ends_in_return(pieces(text, '\n')[0]));
            } else {
                assert forall|i: int| 0 <= i < parts.len() - 1 implies !ends_in_return(
                    #[trigger] pieces(text, '\n')[i],
                ) by {
                    assert(parts[i] == all[i]);
                }
            }
            assert(line_break(text) == newline);
        }
        // And it ends in one where its lines have an empty one behind them.
        lemma_last_piece(text);
        assert(pieces(text, '\n').last() == all.last());
        if all.last().len() == 0 {
            assert(all.len() > 1);
            let head = chained(all.drop_last(), newline);
            assert(text == head + newline + all.last());
            assert(text =~= head + newline);
            assert(text.last() == '\n');
            assert(ends_in_break(text));
            assert(padded(read, text) =~= all);
        } else {
            assert(text.len() > 0) by {
                assert(pieces(text, '\n').last().len() > 0);
            }
            assert(text.last() == all.last().last());
            assert(!ends_in_break(text)) by {
                assert(text.last() != '\n') by {
                    assert(!all.last().contains('\n'));
                    assert(all.last()[all.last().len() - 1] != '\n');
                }
            }
            assert(padded(read, text) =~= all);
        }
        assert(are_lines(read)) by {
            assert forall|i: int| 0 <= i < read.len() implies !(#[trigger] read[i]).contains(
                '\n',
            ) by {
                assert(read[i] == all[i]);
            }
        }
        lemma_laid_out_is_chained(read, text);
        if all.len() == 1 {
            assert(chained(all, line_break(text)) == all[0]);
            assert(chained(all, newline) == all[0]);
        }
    }
}

/// A text as a file of lines ends it: with a line's end.
pub open spec fn ended(text: Seq<char>) -> Seq<char> {
    if has_suffix(text, "\n"@) {
        text
    } else {
        text.push('\n')
    }
}

/// A text as a file of lines ends it.
pub fn with_final_newline(text: String) -> (result: String)
    ensures
        result@ == ended(text@),
{
    let mut text = text;
    if !ends_with(text.as_str(), "\n") {
        text.push('\n');
    }
    text
}

} // verus!
