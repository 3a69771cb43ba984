//! What holds of texts as they are taken apart and put together.

use vstd::prelude::*;

use crate::text::{
    chained, decimal_text, first_at, first_part, has_part, has_prefix, has_suffix, is_decimal,
    is_space, lemma_decimal_round_trip, lemma_one_piece, lemma_pieces_nonempty, lemma_pieces_of_two,
    lines_of, lower_character, lowered, parted, pieces, same_ignoring_case, signed_text, trimmed,
    trimmed_end, trimmed_start, unsigned_digits, unsigned_value, without_prefix, without_return,
    without_suffix,
};

verus! {

/// Trimming takes spaces off both ends and nothing else: what it leaves stands in the
/// text with nothing but spaces around it, neither begins nor ends with one, and is
/// the whole text where that has none at its ends.
pub proof fn law_trimming_takes_spaces_off(text: Seq<char>)
    ensures
        exists|start: int, end: int|
            0 <= start <= end <= text.len() && trimmed(text) == #[trigger] text.subrange(start, end)
                && (forall|i: int| 0 <= i < start ==> is_space(#[trigger] text[i])) && (forall|
                i: int,
            | end <= i < text.len() ==> is_space(#[trigger] text[i])),
        trimmed(text).len() > 0 ==> !is_space(trimmed(text)[0]) && !is_space(trimmed(text).last()),
        text.len() > 0 && !is_space(text[0]) && !is_space(text.last()) ==> trimmed(text) == text,
{
    lemma_start(text);
    let rest = trimmed_start(text);
    lemma_end(rest);
    let start = text.len() - rest.len();
    let end = start + trimmed(text).len();
    assert(text.subrange(start, end) =~= rest.take(trimmed(text).len() as int)) by {
        assert forall|i: int| 0 <= i < trimmed(text).len() implies #[trigger] text.subrange(
            start,
            end,
        )[i] == rest[i] by {
            assert(text.skip(start)[i] == text[start + i]);
        }
    }
    assert forall|i: int| end <= i < text.len() implies is_space(#[trigger] text[i]) by {
        assert(rest[i - start] == text.skip(start)[i - start]);
    }
    if text.len() > 0 {
        assert(text.first() == text[0]);
        if rest.len() > 0 && trimmed(text).len() > 0 {
            assert(trimmed(text)[0] == rest[0]);
            assert(rest.first() == rest[0]);
        }
    }
}

proof fn lemma_start(text: Seq<char>)
    ensures
        trimmed_start(text).len() <= text.len(),
        text.skip(text.len() - trimmed_start(text).len()) == trimmed_start(text),
        trimmed_start(text).len() > 0 ==> !is_space(trimmed_start(text).first()),
        forall|i: int|
            0 <= i < text.len() - trimmed_start(text).len() ==> is_space(#[trigger] text[i]),
    decreases text.len(),
{
    if text.len() > 0 && is_space(text.first()) {
        let rest = text.drop_first();
        lemma_start(rest);
        let count = text.len() - trimmed_start(text).len();
        assert(text.skip(count) =~= rest.skip(count - 1));
        assert forall|i: int| 0 <= i < count implies is_space(#[trigger] text[i]) by {
            if i > 0 {
                assert(text[i] == rest[i - 1]);
            }
        }
    } else {
        assert(text.skip(0) =~= text);
    }
}

proof fn lemma_end(text: Seq<char>)
    ensures
        trimmed_end(text).len() <= text.len(),
        text.take(trimmed_end(text).len() as int) == trimmed_end(text),
        trimmed_end(text).len() > 0 ==> !is_space(trimmed_end(text).last()),
        forall|i: int|
            trimmed_end(text).len() <= i < text.len() ==> is_space(#[trigger] text[i]),
    decreases text.len(),
{
    if text.len() > 0 && is_space(text.last()) {
        let shorter = text.drop_last();
        lemma_end(shorter);
        let count = trimmed_end(text).len() as int;
        assert(text.take(count) =~= shorter.take(count));
        assert forall|i: int| count <= i < text.len() implies is_space(#[trigger] text[i]) by {
            if i < shorter.len() {
                assert(text[i] == shorter[i]);
            }
        }
    } else {
        assert(text.take(text.len() as int) =~= text);
    }
}

/// In lower case a text has no capital letter, is as long as before, and differs from
/// it only in what were capital letters; texts that differ in case alone are the
/// same but for case.
pub proof fn law_lower_case_is_kept(text: Seq<char>, at: int)
    requires
        0 <= at < text.len(),
    ensures
        lowered(text).len() == text.len(),
        !('A' <= lowered(text)[at] <= 'Z'),
        !('A' <= text[at] <= 'Z') ==> lowered(text)[at] == text[at],
        'A' <= text[at] <= 'Z' ==> lowered(text)[at] as u32 == text[at] as u32 + 32,
        lowered(lowered(text)) == lowered(text),
        same_ignoring_case(text, lowered(text)),
{
    assert(lowered(lowered(text)) =~= lowered(text)) by {
        assert forall|i: int| 0 <= i < text.len() implies lower_character(
            lower_character(#[trigger] text[i]),
        ) == lower_character(text[i]) by {}
    }
}

/// The pieces between separators hold none, and put together with it give the text.
pub proof fn law_pieces_make_up_the_text(text: Seq<char>, separator: char)
    ensures
        chained(pieces(text, separator), seq![separator]) == text,
        !text.contains(separator) ==> pieces(text, separator) == seq![text],
    decreases text.len(),
{
    if !text.contains(separator) {
        lemma_one_piece(text, separator);
    }
    let all = pieces(text, separator);
    if text.len() == 0 {
        assert(chained(all, seq![separator]) =~= text);
    } else {
        let shorter = text.drop_last();
        let before = pieces(shorter, separator);
        lemma_pieces_nonempty(shorter, separator);
        law_pieces_make_up_the_text(shorter, separator);
        if text.last() == separator {
            assert(all.drop_last() =~= before);
            assert(chained(all, seq![separator]) =~= shorter + seq![separator]);
            assert(text =~= shorter + seq![separator]);
        } else {
            let longer = before.last().push(text.last());
            assert(all =~= before.drop_last().push(longer));
            assert(all.last() == longer && all.drop_last() =~= before.drop_last());
            if before.len() == 1 {
                assert(all[0] == longer && before[0] == before.last());
                assert(text =~= shorter.push(text.last()));
            } else {
                assert(chained(all, seq![separator]) == chained(
                    before.drop_last(),
                    seq![separator],
                ) + seq![separator] + longer);
                assert(chained(all, seq![separator]) =~= shorter.push(text.last()));
                assert(text =~= shorter.push(text.last()));
            }
        }
    }
}

/// Two lists of pieces are those of one text where a separator stands between.
pub proof fn law_pieces_stand_in_order(left: Seq<char>, right: Seq<char>, separator: char)
    ensures
        pieces(left + seq![separator] + right, separator) == pieces(left, separator) + pieces(
            right,
            separator,
        ),
{
    lemma_pieces_of_two(left, right, separator);
    assert(left + seq![separator] + right =~= left.push(separator) + right);
}

/// A line is read as it is, whether a line feed or a carriage return and a line feed
/// ends it, and the lines before another text come before its own.
pub proof fn law_lines_are_read(line: Seq<char>, rest: Seq<char>)
    requires
        !line.contains('\n'),
        !line.contains('\r'),
    ensures
        lines_of(line + seq!['\n'] + rest) == seq![line] + lines_of(rest),
        lines_of(line + seq!['\r', '\n'] + rest) == seq![line] + lines_of(rest),
        line.len() > 0 ==> lines_of(line) == seq![line],
        lines_of(Seq::empty()) == Seq::<Seq<char>>::empty(),
{
    lemma_pieces_nonempty(rest, '\n');
    lemma_one_piece(line, '\n');
    law_pieces_stand_in_order(line, rest, '\n');
    let after = pieces(rest, '\n');
    if line.len() > 0 {
        assert(line.contains(line[line.len() - 1]));
    }
    assert(without_return(line) == line);
    let short = seq![line] + after;
    assert(short.drop_last() =~= seq![line] + after.drop_last());
    assert(lines_of(line + seq!['\n'] + rest) =~= seq![line] + lines_of(rest));
    let returned = line.push('\r');
    assert forall|i: int| 0 <= i < returned.len() implies returned[i] != '\n' by {
        if i < line.len() {
            assert(returned[i] == line[i]);
            assert(line.contains(line[i]));
        }
    }
    lemma_one_piece(returned, '\n');
    law_pieces_stand_in_order(returned, rest, '\n');
    assert(returned + seq!['\n'] + rest =~= line + seq!['\r', '\n'] + rest);
    let long = seq![returned] + after;
    assert(returned.drop_last() =~= line);
    assert(without_return(returned) == line);
    assert(long.drop_last() =~= seq![returned] + after.drop_last());
    assert(lines_of(line + seq!['\r', '\n'] + rest) =~= seq![line] + lines_of(rest));
    assert(lines_of(line) =~= if line.len() > 0 {
        seq![line]
    } else {
        Seq::empty()
    });
    lemma_one_piece(Seq::empty(), '\n');
    assert(lines_of(Seq::empty()) =~= Seq::<Seq<char>>::empty());
}

/// A text is parted at its first separator: what is before holds none, and the two
/// parts with the separator between them are the text.
pub proof fn law_text_is_parted_at_the_first(text: Seq<char>, separator: char)
    ensures
        match parted(text, separator) {
            Some((before, after)) => text == before + seq![separator] + after && !before.contains(
                separator,
            ),
            None => !text.contains(separator),
        },
    decreases text.len(),
{
    lemma_first(text, separator);
    match first_at(text, separator) {
        Some(at) => {
            assert(text =~= text.take(at) + seq![separator] + text.skip(at + 1));
        },
        None => {},
    }
}

proof fn lemma_first(text: Seq<char>, character: char)
    ensures
        match first_at(text, character) {
            Some(at) => 0 <= at < text.len() && text[at] == character && forall|i: int|
                0 <= i < at ==> #[trigger] text[i] != character,
            None => !text.contains(character),
        },
    decreases text.len(),
{
    if text.len() > 0 && text.first() != character {
        let rest = text.drop_first();
        lemma_first(rest, character);
        match first_at(rest, character) {
            Some(at) => {
                assert(text[at + 1] == rest[at]);
                assert forall|i: int| 0 <= i < at + 1 implies #[trigger] text[i] != character by {
                    if i > 0 {
                        assert(text[i] == rest[i - 1]);
                    }
                }
            },
            None => {
                assert forall|i: int| 0 <= i < text.len() implies text[i] != character by {
                    if i > 0 {
                        assert(text[i] == rest[i - 1]);
                        assert(rest.contains(rest[i - 1]));
                    }
                }
            },
        }
    }
}

/// What is left of a text without its beginning or its end, put back, gives the text;
/// and a text has the beginning and the end that it is put together from.
pub proof fn law_ends_can_be_put_back(text: Seq<char>, part: Seq<char>)
    ensures
        without_prefix(text, part) matches Some(rest) ==> part + rest == text,
        without_suffix(text, part) matches Some(rest) ==> rest + part == text,
        without_prefix(part + text, part) == Some(text),
        without_suffix(text + part, part) == Some(text),
{
    if has_prefix(text, part) {
        assert(part + text.skip(part.len() as int) =~= text);
    }
    if has_suffix(text, part) {
        assert(text.take(text.len() - part.len()) + part =~= text);
    }
    assert((part + text).take(part.len() as int) =~= part);
    assert((part + text).skip(part.len() as int) =~= text);
    assert((text + part).take(text.len() as int) =~= text);
    assert((text + part).skip(text.len() as int) =~= part);
}

/// Where a part is found in a text it stands there, and not before; where it is not
/// found, the text does not have it.
pub proof fn law_first_part_is_found(text: Seq<char>, part: Seq<char>)
    ensures
        match first_part(text, part) {
            Some(at) => {
                &&& 0 <= at && at + part.len() <= text.len()
                &&& text.subrange(at, at + part.len()) == part
                &&& forall|i: int|
                    0 <= i < at && i + part.len() <= text.len() ==> #[trigger] text.subrange(
                        i,
                        i + part.len(),
                    ) != part
            },
            None => !has_part(text, part),
        },
    decreases text.len(),
{
    if has_prefix(text, part) {
        assert(text.subrange(0, part.len() as int) =~= text.take(part.len() as int));
    } else if text.len() > 0 {
        let rest = text.drop_first();
        law_first_part_is_found(rest, part);
        assert forall|i: int| 0 < i && i + part.len() <= text.len() implies #[trigger] text.subrange(
            i,
            i + part.len(),
        ) == rest.subrange(i - 1, i - 1 + part.len()) by {
            assert(text.subrange(i, i + part.len()) =~= rest.subrange(i - 1, i - 1 + part.len()));
        }
        if part.len() <= text.len() {
            assert(text.subrange(0, part.len() as int) =~= text.take(part.len() as int));
        }
        if let Some(at) = first_part(rest, part) {
            assert(text.subrange(at + 1, at + 1 + part.len()) == rest.subrange(
                at,
                at + part.len(),
            ));
        } else if has_part(text, part) {
            let start = choose|start: int|
                0 <= start && start + part.len() <= text.len() && #[trigger] text.subrange(
                    start,
                    start + part.len(),
                ) == part;
            assert(rest.subrange(start - 1, start - 1 + part.len()) == part);
        }
    }
}

/// A number is read from its digits, with a plus sign or without it, where it is
/// within the limit, and from nothing else that is not digits.
pub proof fn law_numbers_read_back(number: nat, limit: nat, text: Seq<char>)
    ensures
        number <= limit ==> unsigned_value(decimal_text(number), limit) == Some(number),
        number <= limit ==> unsigned_value(seq!['+'] + decimal_text(number), limit) == Some(number),
        number > limit ==> unsigned_value(decimal_text(number), limit) is None,
        !is_decimal(text) && (text.len() == 0 || text[0] != '+') ==> unsigned_value(text, limit)
            is None,
        signed_text(number as int) == decimal_text(number),
        number > 0 ==> signed_text(-(number as int)) == seq!['-'] + decimal_text(number),
{
    lemma_decimal_round_trip(number);
    let plain = decimal_text(number);
    assert(unsigned_digits(plain) == plain);
    let signed = seq!['+'] + plain;
    assert(signed.first() == '+');
    assert(signed.drop_first() =~= plain);
    if text.len() > 0 {
        assert(text.first() == text[0]);
    }
}

} // verus!
