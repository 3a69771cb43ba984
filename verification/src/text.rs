//! Text as sequences of characters.
//!
//! A `String` or `&str` stands for the `Seq<char>` it views as. The functions
//! here are the small operations on text that the rest of the library is
//! written with, each with its exact meaning.

use vstd::prelude::*;

pub mod laws;

verus! {

/// `String::push` appends one character.
pub assume_specification[ String::push ](text: &mut String, character: char)
    ensures
        final(text)@ == old(text)@.push(character),
;

/// `String::push_str` appends a whole text.
pub assume_specification[ String::push_str ](text: &mut String, addition: &str)
    ensures
        final(text)@ == old(text)@ + addition@,
;

/// The view of a list of texts: the character sequences it holds.
pub open spec fn texts(list: Seq<String>) -> Seq<Seq<char>> {
    list.map_values(|text: String| text@)
}

/// The view of an optional text.
pub open spec fn optional_text(text: Option<String>) -> Option<Seq<char>> {
    match text {
        Some(text) => Some(text@),
        None => None,
    }
}

/// A text by reference, if there is one.
pub fn as_text(text: &Option<String>) -> (result: Option<&str>)
    ensures
        match result {
            Some(content) => optional_text(*text) == Some(content@),
            None => text is None,
        },
{
    match text {
        Some(text) => Some(text.as_str()),
        None => None,
    }
}

/// A copy of an optional text.
pub fn clone_optional(text: &Option<String>) -> (result: Option<String>)
    ensures
        result == *text,
{
    match text {
        Some(text) => Some(text.clone()),
        None => None,
    }
}

/// A copy of a list of texts.
pub fn clone_texts(list: &Vec<String>) -> (result: Vec<String>)
    ensures
        result@ == list@,
{
    let mut result: Vec<String> = Vec::new();
    let mut index: usize = 0;
    while index < list.len()
        invariant
            index <= list@.len(),
            result@ == list@.take(index as int),
        decreases list@.len() - index,
    {
        result.push(list[index].clone());
        index = index + 1;
        proof {
            assert(list@.take(index as int) == list@.take(index - 1).push(list@[index - 1]));
        }
    }
    proof {
        assert(list@.take(index as int) == list@);
    }
    result
}

/// The characters of a text, one by one.
pub fn characters(text: &str) -> (result: Vec<char>)
    ensures
        result@ == text@,
{
    let mut result: Vec<char> = Vec::new();
    for character in iter: text.chars()
        invariant
            iter.seq() == text@,
            result@ == text@.take(iter.index() as int),
    {
        proof {
            assert(text@.take(iter.index() + 1) == text@.take(iter.index() as int).push(character));
        }
        result.push(character);
    }
    proof {
        assert(text@.take(text@.len() as int) == text@);
    }
    result
}

/// The text made of the characters from `start` up to `end`.
pub fn text_between(characters: &Vec<char>, start: usize, end: usize) -> (result: String)
    requires
        start <= end <= characters@.len(),
    ensures
        result@ == characters@.subrange(start as int, end as int),
{
    let mut result = String::new();
    let mut index: usize = start;
    while index < end
        invariant
            start <= index <= end <= characters@.len(),
            result@ == characters@.subrange(start as int, index as int),
        decreases end - index,
    {
        result.push(characters[index]);
        index = index + 1;
        proof {
            assert(characters@.subrange(start as int, index as int)
                == characters@.subrange(start as int, index - 1).push(characters@[index - 1]));
        }
    }
    result
}

/// The text made of all the given characters.
pub fn text_of(characters: &Vec<char>) -> (result: String)
    ensures
        result@ == characters@,
{
    let result = text_between(characters, 0, characters.len());
    proof {
        assert(characters@.subrange(0, characters@.len() as int) == characters@);
    }
    result
}

/// Whether two character vectors hold the same characters.
pub fn same_characters(left: &Vec<char>, right: &Vec<char>) -> (result: bool)
    ensures
        result == (left@ == right@),
{
    if left.len() != right.len() {
        return false;
    }
    let mut index: usize = 0;
    while index < left.len()
        invariant
            index <= left@.len(),
            left@.len() == right@.len(),
            forall|i: int| 0 <= i < index ==> left@[i] == right@[i],
        decreases left@.len() - index,
    {
        if left[index] != right[index] {
            return false;
        }
        index = index + 1;
    }
    proof {
        assert(left@ == right@);
    }
    true
}

/// Whether two texts hold the same characters.
pub fn same_text(left: &str, right: &str) -> (result: bool)
    ensures
        result == (left@ == right@),
{
    same_characters(&characters(left), &characters(right))
}

/// Whether the list holds the text.
pub fn list_contains(list: &Vec<String>, text: &str) -> (result: bool)
    ensures
        result == texts(list@).contains(text@),
{
    let mut index: usize = 0;
    while index < list.len()
        invariant
            index <= list@.len(),
            forall|i: int| 0 <= i < index ==> texts(list@)[i] != text@,
        decreases list@.len() - index,
    {
        if same_text(list[index].as_str(), text) {
            proof {
                assert(texts(list@)[index as int] == text@);
            }
            return true;
        }
        index = index + 1;
    }
    false
}

/// Whether `text` begins with `prefix`.
pub open spec fn has_prefix(text: Seq<char>, prefix: Seq<char>) -> bool {
    prefix.len() <= text.len() && text.take(prefix.len() as int) == prefix
}

/// Whether `text` ends with `suffix`.
pub open spec fn has_suffix(text: Seq<char>, suffix: Seq<char>) -> bool {
    suffix.len() <= text.len() && text.skip(text.len() - suffix.len()) == suffix
}

/// Whether the characters from `start` on begin with `part`.
fn part_at(text: &Vec<char>, start: usize, part: &Vec<char>) -> (result: bool)
    requires
        start <= text@.len(),
    ensures
        result == (start + part@.len() <= text@.len() && text@.subrange(
            start as int,
            start + part@.len(),
        ) == part@),
{
    if text.len() - start < part.len() {
        return false;
    }
    let end: usize = start + part.len();
    let mut index: usize = 0;
    while index < part.len()
        invariant
            index <= part@.len(),
            end == start + part@.len(),
            end <= text@.len(),
            forall|i: int| 0 <= i < index ==> text@[start + i] == part@[i],
        decreases part@.len() - index,
    {
        if text[start + index] != part[index] {
            proof {
                assert(text@.subrange(start as int, start + part@.len())[index as int]
                    == text@[start + index]);
            }
            return false;
        }
        index = index + 1;
    }
    proof {
        assert(text@.subrange(start as int, start + part@.len()) == part@);
    }
    true
}

/// Whether `text` begins with `prefix`.
pub fn starts_with(text: &str, prefix: &str) -> (result: bool)
    ensures
        result == has_prefix(text@, prefix@),
{
    let text = characters(text);
    let prefix = characters(prefix);
    proof {
        if prefix@.len() <= text@.len() {
            assert(text@.take(prefix@.len() as int) == text@.subrange(0, prefix@.len() as int));
        }
    }
    part_at(&text, 0, &prefix)
}

/// Whether `text` ends with `suffix`.
pub fn ends_with(text: &str, suffix: &str) -> (result: bool)
    ensures
        result == has_suffix(text@, suffix@),
{
    let text = characters(text);
    let suffix = characters(suffix);
    if text.len() < suffix.len() {
        return false;
    }
    let start: usize = text.len() - suffix.len();
    proof {
        assert(text@.skip(start as int) == text@.subrange(start as int, start + suffix@.len()));
    }
    part_at(&text, start, &suffix)
}

/// What is left of `text` behind `prefix`, where it begins with it.
pub open spec fn without_prefix(text: Seq<char>, prefix: Seq<char>) -> Option<Seq<char>> {
    if has_prefix(text, prefix) {
        Some(text.skip(prefix.len() as int))
    } else {
        None
    }
}

/// What is left of `text` behind `prefix`, where it begins with it.
pub fn strip_prefix(text: &str, prefix: &str) -> (result: Option<String>)
    ensures
        optional_text(result) == without_prefix(text@, prefix@),
{
    if starts_with(text, prefix) {
        let text = characters(text);
        let length: usize = characters(prefix).len();
        proof {
            assert(text@.skip(length as int) == text@.subrange(length as int, text@.len() as int));
        }
        Some(text_between(&text, length, text.len()))
    } else {
        None
    }
}

/// What is left of `text` before `suffix`, where it ends with it.
pub open spec fn without_suffix(text: Seq<char>, suffix: Seq<char>) -> Option<Seq<char>> {
    if has_suffix(text, suffix) {
        Some(text.take(text.len() - suffix.len()))
    } else {
        None
    }
}

/// What is left of `text` before `suffix`, where it ends with it.
pub fn strip_suffix(text: &str, suffix: &str) -> (result: Option<String>)
    ensures
        optional_text(result) == without_suffix(text@, suffix@),
{
    if ends_with(text, suffix) {
        let text = characters(text);
        let length: usize = text.len() - characters(suffix).len();
        proof {
            assert(text@.take(length as int) == text@.subrange(0, length as int));
        }
        Some(text_between(&text, 0, length))
    } else {
        None
    }
}

/// Whether the character occurs in the text.
pub fn contains_character(text: &str, character: char) -> (result: bool)
    ensures
        result == text@.contains(character),
{
    let content = characters(text);
    let mut index: usize = 0;
    while index < content.len()
        invariant
            content@ == text@,
            index <= text@.len(),
            forall|i: int| 0 <= i < index ==> text@[i] != character,
        decreases text@.len() - index,
    {
        if content[index] == character {
            proof {
                assert(text@[index as int] == character);
            }
            return true;
        }
        index = index + 1;
    }
    false
}

/// Whether `part` occurs somewhere in `text`.
pub open spec fn has_part(text: Seq<char>, part: Seq<char>) -> bool {
    exists|start: int|
        0 <= start && start + part.len() <= text.len() && #[trigger] text.subrange(
            start,
            start + part.len(),
        ) == part
}

/// Whether `part` occurs somewhere in `text`.
pub fn contains_text(text: &str, part: &str) -> (result: bool)
    ensures
        result == has_part(text@, part@),
{
    let content = characters(text);
    let wanted = characters(part);
    let mut start: usize = 0;
    while start < content.len()
        invariant
            content@ == text@,
            wanted@ == part@,
            start <= text@.len(),
            forall|i: int|
                0 <= i < start && i + part@.len() <= text@.len() ==> #[trigger] text@.subrange(
                    i,
                    i + part@.len(),
                ) != part@,
        decreases text@.len() - start,
    {
        if part_at(&content, start, &wanted) {
            proof {
                assert(text@.subrange(start as int, start + part@.len()) == part@);
            }
            return true;
        }
        start = start + 1;
    }
    let result = part_at(&content, start, &wanted);
    proof {
        if result {
            assert(text@.subrange(start as int, start + part@.len()) == part@);
        }
    }
    result
}

/// The characters that Unicode gives the White_Space property.
pub open spec fn is_space(character: char) -> bool {
    let code = character as u32;
    ||| 0x09 <= code <= 0x0d
    ||| code == 0x20
    ||| code == 0x85
    ||| code == 0xa0
    ||| code == 0x1680
    ||| 0x2000 <= code <= 0x200a
    ||| code == 0x2028
    ||| code == 0x2029
    ||| code == 0x202f
    ||| code == 0x205f
    ||| code == 0x3000
}

/// Whether the character has the White_Space property.
pub fn is_whitespace(character: char) -> (result: bool)
    ensures
        result == is_space(character),
{
    let code: u32 = character as u32;
    (0x09 <= code && code <= 0x0d) || code == 0x20 || code == 0x85 || code == 0xa0 || code == 0x1680
        || (0x2000 <= code && code <= 0x200a) || code == 0x2028 || code == 0x2029 || code == 0x202f
        || code == 0x205f || code == 0x3000
}

/// The control characters: C0, DEL and C1.
pub open spec fn is_control_character(character: char) -> bool {
    (character as u32) < 0x20 || 0x7f <= character as u32 <= 0x9f
}

/// Whether the character is a control character.
pub fn is_control(character: char) -> (result: bool)
    ensures
        result == is_control_character(character),
{
    let code: u32 = character as u32;
    code < 0x20 || (0x7f <= code && code <= 0x9f)
}

/// The text without the whitespace it begins with.
pub open spec fn trimmed_start(text: Seq<char>) -> Seq<char>
    decreases text.len(),
{
    if text.len() > 0 && is_space(text.first()) {
        trimmed_start(text.drop_first())
    } else {
        text
    }
}

/// The text without the whitespace it ends with.
pub open spec fn trimmed_end(text: Seq<char>) -> Seq<char>
    decreases text.len(),
{
    if text.len() > 0 && is_space(text.last()) {
        trimmed_end(text.drop_last())
    } else {
        text
    }
}

/// The text without the whitespace at either end.
pub open spec fn trimmed(text: Seq<char>) -> Seq<char> {
    trimmed_end(trimmed_start(text))
}

/// The text without the whitespace it begins with.
pub fn trim_start(text: &str) -> (result: String)
    ensures
        result@ == trimmed_start(text@),
{
    let text = characters(text);
    let mut start: usize = 0;
    proof {
        assert(text@.subrange(0, text@.len() as int) == text@);
    }
    while start < text.len() && is_whitespace(text[start])
        invariant
            start <= text@.len(),
            trimmed_start(text@) == trimmed_start(text@.subrange(start as int, text@.len() as int)),
        decreases text@.len() - start,
    {
        proof {
            assert(text@.subrange(start as int, text@.len() as int).drop_first()
                == text@.subrange(start + 1, text@.len() as int));
        }
        start = start + 1;
    }
    text_between(&text, start, text.len())
}

/// The text without the whitespace it ends with.
pub fn trim_end(text: &str) -> (result: String)
    ensures
        result@ == trimmed_end(text@),
{
    let text = characters(text);
    let mut end: usize = text.len();
    proof {
        assert(text@.subrange(0, text@.len() as int) == text@);
    }
    while end > 0 && is_whitespace(text[end - 1])
        invariant
            end <= text@.len(),
            trimmed_end(text@) == trimmed_end(text@.subrange(0, end as int)),
        decreases end,
    {
        proof {
            assert(text@.subrange(0, end as int).drop_last() == text@.subrange(0, end - 1));
        }
        end = end - 1;
    }
    text_between(&text, 0, end)
}

/// The text without the whitespace at either end.
pub fn trim(text: &str) -> (result: String)
    ensures
        result@ == trimmed(text@),
{
    let start = trim_start(text);
    trim_end(start.as_str())
}

/// The lower-case form of an ASCII letter; any other character itself.
pub open spec fn lower_character(character: char) -> char {
    if 'A' <= character <= 'Z' {
        ((character as u8) + 32) as char
    } else {
        character
    }
}

/// The text with its ASCII letters in lower case.
pub open spec fn lowered(text: Seq<char>) -> Seq<char> {
    text.map_values(|character: char| lower_character(character))
}

/// Whether two texts are equal up to the case of ASCII letters.
pub open spec fn same_ignoring_case(left: Seq<char>, right: Seq<char>) -> bool {
    lowered(left) == lowered(right)
}

fn to_lower_character(character: char) -> (result: char)
    ensures
        result == lower_character(character),
{
    if 'A' <= character && character <= 'Z' {
        ((character as u8) + 32) as char
    } else {
        character
    }
}

/// The text with its ASCII letters in lower case.
pub fn to_ascii_lowercase(text: &str) -> (result: String)
    ensures
        result@ == lowered(text@),
{
    let text = characters(text);
    let mut result = String::new();
    let mut index: usize = 0;
    while index < text.len()
        invariant
            index <= text@.len(),
            result@ == lowered(text@.take(index as int)),
        decreases text@.len() - index,
    {
        result.push(to_lower_character(text[index]));
        index = index + 1;
        proof {
            assert(lowered(text@.take(index as int)) == lowered(text@.take(index - 1)).push(
                lower_character(text@[index - 1]),
            ));
        }
    }
    proof {
        assert(text@.take(index as int) == text@);
    }
    result
}

/// Whether two texts are equal up to the case of ASCII letters.
pub fn eq_ignore_ascii_case(left: &str, right: &str) -> (result: bool)
    ensures
        result == same_ignoring_case(left@, right@),
{
    same_text(to_ascii_lowercase(left).as_str(), to_ascii_lowercase(right).as_str())
}

/// Two texts put together.
pub fn joined(left: &str, right: &str) -> (result: String)
    ensures
        result@ == left@ + right@,
{
    let mut result = left.to_owned();
    result.push_str(right);
    result
}

/// The pieces of `text` between the occurrences of `separator`.
pub open spec fn pieces(text: Seq<char>, separator: char) -> Seq<Seq<char>>
    decreases text.len(),
{
    if text.len() == 0 {
        seq![Seq::empty()]
    } else {
        let before = pieces(text.drop_last(), separator);
        if text.last() == separator {
            before.push(Seq::empty())
        } else {
            before.drop_last().push(before.last().push(text.last()))
        }
    }
}

/// There is always at least one piece.
pub proof fn lemma_pieces_nonempty(text: Seq<char>, separator: char)
    ensures
        pieces(text, separator).len() > 0,
    decreases text.len(),
{
    if text.len() > 0 {
        lemma_pieces_nonempty(text.drop_last(), separator);
    }
}

/// The pieces of `text` between the occurrences of `separator`.
pub fn split(text: &str, separator: char) -> (result: Vec<String>)
    ensures
        texts(result@) == pieces(text@, separator),
        result@.len() > 0,
{
    let text = characters(text);
    let mut result: Vec<String> = Vec::new();
    let mut piece = String::new();
    let mut index: usize = 0;
    proof {
        assert(pieces(text@.take(0), separator) == seq![Seq::<char>::empty()]);
        assert(texts(result@).push(piece@) == seq![Seq::<char>::empty()]);
    }
    while index < text.len()
        invariant
            index <= text@.len(),
            texts(result@).push(piece@) == pieces(text@.take(index as int), separator),
        decreases text@.len() - index,
    {
        let character = text[index];
        proof {
            let longer = text@.take(index + 1);
            assert(longer.drop_last() == text@.take(index as int));
            assert(longer.last() == character);
            lemma_pieces_nonempty(text@.take(index as int), separator);
            let before = pieces(text@.take(index as int), separator);
            assert(before.last() == piece@);
            assert(before.drop_last() == texts(result@));
        }
        if character == separator {
            let ghost before = result@;
            let ghost finished = piece@;
            result.push(piece);
            piece = String::new();
            proof {
                assert(texts(result@) == texts(before).push(finished));
            }
        } else {
            piece.push(character);
        }
        index = index + 1;
    }
    proof {
        assert(text@.take(index as int) == text@);
    }
    let ghost before = result@;
    let ghost finished = piece@;
    result.push(piece);
    proof {
        assert(texts(result@) == texts(before).push(finished));
    }
    result
}

/// A line with the carriage return that its line feed had before it removed.
pub open spec fn without_return(line: Seq<char>) -> Seq<char> {
    if line.len() > 0 && line.last() == '\r' {
        line.drop_last()
    } else {
        line
    }
}

/// The lines of a text. Each line ends at a line feed, which may have a
/// carriage return before it; what follows the last line feed is a line of its
/// own unless it is empty.
pub open spec fn lines_of(text: Seq<char>) -> Seq<Seq<char>> {
    let parts = pieces(text, '\n');
    let ended = parts.drop_last().map_values(|line: Seq<char>| without_return(line));
    if parts.last().len() == 0 {
        ended
    } else {
        ended.push(parts.last())
    }
}

/// The lines of a text.
pub fn lines(text: &str) -> (result: Vec<String>)
    ensures
        texts(result@) == lines_of(text@),
{
    let parts = split(text, '\n');
    let last: usize = parts.len() - 1;
    let mut result: Vec<String> = Vec::new();
    let mut index: usize = 0;
    proof {
        lemma_pieces_nonempty(text@, '\n');
        assert(texts(parts@).last() == parts@[last as int]@);
    }
    while index < last
        invariant
            index <= last,
            last == parts@.len() - 1,
            texts(result@) == texts(parts@).take(index as int).map_values(
                |line: Seq<char>| without_return(line),
            ),
        decreases last - index,
    {
        let ghost before = result@;
        let line = characters(parts[index].as_str());
        let length: usize = line.len();
        if length > 0 && line[length - 1] == '\r' {
            proof {
                assert(line@.drop_last() == line@.subrange(0, length - 1));
            }
            result.push(text_between(&line, 0, length - 1));
        } else {
            result.push(text_of(&line));
        }
        index = index + 1;
        proof {
            assert(texts(result@) == texts(before).push(without_return(parts@[index - 1]@)));
            assert(texts(parts@).take(index as int).map_values(
                |line: Seq<char>| without_return(line),
            ) == texts(parts@).take(index - 1).map_values(
                |line: Seq<char>| without_return(line),
            ).push(without_return(parts@[index - 1]@)));
        }
    }
    proof {
        assert(texts(parts@).take(last as int) == texts(parts@).drop_last());
    }
    if !parts[last].as_str().is_empty() {
        let ghost before = result@;
        result.push(parts[last].clone());
        proof {
            assert(texts(result@) == texts(before).push(parts@[last as int]@));
        }
    }
    result
}

/// Whether every character is an ASCII digit and there is at least one.
pub open spec fn is_decimal(text: Seq<char>) -> bool {
    text.len() > 0 && forall|i: int| 0 <= i < text.len() ==> '0' <= #[trigger] text[i] <= '9'
}

/// The number that decimal digits stand for.
pub open spec fn decimal_value(digits: Seq<char>) -> nat
    decreases digits.len(),
{
    if digits.len() == 0 {
        0
    } else {
        (decimal_value(digits.drop_last()) * 10 + (digits.last() as u32 - 48)) as nat
    }
}

/// An unsigned number as text: digits, which a single plus sign may precede.
pub open spec fn unsigned_digits(text: Seq<char>) -> Seq<char> {
    if text.len() > 0 && text.first() == '+' {
        text.drop_first()
    } else {
        text
    }
}

/// The unsigned number up to `limit` that a text stands for, if it does.
pub open spec fn unsigned_value(text: Seq<char>, limit: nat) -> Option<nat> {
    let digits = unsigned_digits(text);
    if is_decimal(digits) && decimal_value(digits) <= limit {
        Some(decimal_value(digits))
    } else {
        None
    }
}

proof fn lemma_decimal_value_grows(digits: Seq<char>, length: int)
    requires
        is_decimal(digits),
        0 <= length <= digits.len(),
    ensures
        decimal_value(digits.take(length)) <= decimal_value(digits),
    decreases digits.len() - length,
{
    if length == digits.len() {
        assert(digits.take(length) == digits);
    } else {
        lemma_decimal_value_grows(digits, length + 1);
        assert(digits.take(length + 1).drop_last() == digits.take(length));
        assert('0' <= digits[length] <= '9');
    }
}

/// The unsigned number up to `limit` that a text stands for, if it does.
pub fn parse_unsigned(text: &str, limit: u64) -> (result: Option<u64>)
    ensures
        result matches Some(number) ==> unsigned_value(text@, limit as nat) == Some(number as nat),
        result is None ==> unsigned_value(text@, limit as nat) is None,
{
    let content = characters(text);
    let start: usize = if content.len() > 0 && content[0] == '+' { 1 } else { 0 };
    let ghost digits = unsigned_digits(text@);
    proof {
        assert(digits == text@.skip(start as int));
    }
    if start == content.len() {
        return None;
    }
    let mut number: u64 = 0;
    let mut index: usize = start;
    while index < content.len()
        invariant
            content@ == text@,
            start <= index <= text@.len(),
            start < text@.len(),
            digits == text@.skip(start as int),
            digits == unsigned_digits(text@),
            number == decimal_value(digits.take(index - start)),
            number <= limit,
            forall|i: int| 0 <= i < index - start ==> '0' <= #[trigger] digits[i] <= '9',
        decreases text@.len() - index,
    {
        let character = content[index];
        proof {
            assert(digits[index - start] == character);
            assert(digits.take(index + 1 - start).drop_last() == digits.take(index - start));
        }
        if character < '0' || '9' < character {
            proof {
                assert(!is_decimal(digits));
            }
            return None;
        }
        let digit: u64 = (character as u32 - 48) as u64;
        if number > limit / 10 || digit > limit - number * 10 {
            proof {
                if is_decimal(digits) {
                    lemma_decimal_value_grows(digits, index + 1 - start);
                }
            }
            return None;
        }
        number = number * 10 + digit;
        index = index + 1;
    }
    proof {
        assert(digits.take(index - start) == digits);
    }
    Some(number)
}

/// The decimal digits of a number, without leading zeros.
pub open spec fn decimal_text(number: nat) -> Seq<char>
    decreases number,
{
    if number < 10 {
        seq![(48 + number) as char]
    } else {
        decimal_text(number / 10).push((48 + number % 10) as char)
    }
}

/// The decimal digits of a number, without leading zeros.
pub fn decimal(number: u64) -> (result: String)
    ensures
        result@ == decimal_text(number as nat),
    decreases number,
{
    if number < 10 {
        let mut result = String::new();
        result.push((48 + number as u8) as char);
        proof {
            assert(result@ == seq![(48 + number) as char]);
        }
        result
    } else {
        let mut result = decimal(number / 10);
        result.push((48 + (number % 10) as u8) as char);
        result
    }
}

/// Reading back the digits of a number gives the number.
pub proof fn lemma_decimal_round_trip(number: nat)
    ensures
        is_decimal(decimal_text(number)),
        decimal_value(decimal_text(number)) == number,
        decimal_text(number).first() != '+',
    decreases number,
{
    let text = decimal_text(number);
    if number < 10 {
        assert(text.drop_last() == Seq::<char>::empty());
        assert(decimal_value(text.drop_last()) == 0);
        assert(text.last() == (48 + number) as char);
    } else {
        lemma_decimal_round_trip(number / 10);
        assert(text.last() == (48 + number % 10) as char);
        assert(text.drop_last() == decimal_text(number / 10));
        assert(text.first() == decimal_text(number / 10).first());
        assert(is_decimal(text)) by {
            assert forall|i: int| 0 <= i < text.len() implies '0' <= #[trigger] text[i] <= '9' by {
                if i < text.len() - 1 {
                    assert(text[i] == decimal_text(number / 10)[i]);
                }
            }
        }
    }
}

/// A signed number as text: its digits, after a minus sign if it is negative.
pub open spec fn signed_text(number: int) -> Seq<char> {
    if number < 0 {
        seq!['-'] + decimal_text((-number) as nat)
    } else {
        decimal_text(number as nat)
    }
}

/// A signed number as text.
pub fn signed_decimal(number: i32) -> (result: String)
    ensures
        result@ == signed_text(number as int),
{
    let wide: i64 = number as i64;
    if wide < 0 {
        let mut result = String::new();
        result.push('-');
        proof {
            assert(result@ == seq!['-']);
        }
        result.push_str(decimal((-wide) as u64).as_str());
        result
    } else {
        decimal(wide as u64)
    }
}

/// The text as `{:?}` prints it.
pub uninterp spec fn quoted_text(text: Seq<char>) -> Seq<char>;

/// A character that `{:?}` prints as it stands.
pub open spec fn is_plain(character: char) -> bool {
    ' ' <= character <= '~' && character != '"' && character != '\\'
}

/// `{:?}` of a text, by `std`'s `Debug` for `str`: the text between double
/// quotes, with what is not plain escaped.
#[verifier::external_body]
pub(crate) fn quoted(text: &str) -> (result: String)
    ensures
        result@ == quoted_text(text@),
        (forall|i: int| 0 <= i < text@.len() ==> is_plain(#[trigger] text@[i])) ==> result@
            == seq!['"'] + text@ + seq!['"'],
{
    format!("{text:?}")
}

/// Where a character first stands in a text, if it does.
pub open spec fn first_at(text: Seq<char>, character: char) -> Option<int>
    decreases text.len(),
{
    if text.len() == 0 {
        None
    } else if text.first() == character {
        Some(0)
    } else {
        match first_at(text.drop_first(), character) {
            Some(index) => Some(index + 1),
            None => None,
        }
    }
}

/// A text parted at the first occurrence of a separator.
pub open spec fn parted(text: Seq<char>, separator: char) -> Option<(Seq<char>, Seq<char>)> {
    match first_at(text, separator) {
        Some(index) => Some((text.take(index), text.skip(index + 1))),
        None => None,
    }
}

/// A text parted at the first occurrence of a separator.
pub fn split_once(text: &str, separator: char) -> (result: Option<(String, String)>)
    ensures
        match result {
            Some((before, after)) => parted(text@, separator) == Some((before@, after@)),
            None => parted(text@, separator) is None,
        },
{
    let content = characters(text);
    let mut index: usize = 0;
    proof {
        assert(content@.skip(0) == text@);
    }
    while index < content.len()
        invariant
            content@ == text@,
            index <= content@.len(),
            match first_at(content@.skip(index as int), separator) {
                Some(later) => first_at(text@, separator) == Some(index + later),
                None => first_at(text@, separator) is None,
            },
        decreases content@.len() - index,
    {
        proof {
            assert(content@.skip(index as int).first() == content@[index as int]);
            assert(content@.skip(index as int).drop_first() == content@.skip(index + 1));
        }
        if content[index] == separator {
            let before = text_between(&content, 0, index);
            let after = text_between(&content, index + 1, content.len());
            proof {
                assert(text@.take(index as int) == content@.subrange(0, index as int));
                assert(text@.skip(index + 1) == content@.subrange(
                    index + 1,
                    content@.len() as int,
                ));
            }
            return Some((before, after));
        }
        index = index + 1;
    }
    None
}

/// Texts put one behind the other, with a separator between them.
pub open spec fn chained(parts: Seq<Seq<char>>, separator: Seq<char>) -> Seq<char>
    decreases parts.len(),
{
    if parts.len() == 0 {
        Seq::empty()
    } else if parts.len() == 1 {
        parts[0]
    } else {
        chained(parts.drop_last(), separator) + separator + parts.last()
    }
}

/// Texts put one behind the other, with a separator between them.
pub fn join_texts(parts: &Vec<String>, separator: &str) -> (result: String)
    ensures
        result@ == chained(texts(parts@), separator@),
{
    let mut result = String::new();
    let mut index: usize = 0;
    proof {
        assert(texts(parts@).take(0) == Seq::<Seq<char>>::empty());
    }
    while index < parts.len()
        invariant
            index <= parts@.len(),
            result@ == chained(texts(parts@).take(index as int), separator@),
        decreases parts@.len() - index,
    {
        proof {
            let longer = texts(parts@).take(index + 1);
            assert(longer.drop_last() == texts(parts@).take(index as int));
            assert(longer.last() == parts@[index as int]@);
        }
        if index > 0 {
            result.push_str(separator);
        }
        result.push_str(parts[index].as_str());
        proof {
            assert(index == 0 ==> result@ == parts@[0]@);
        }
        index = index + 1;
    }
    proof {
        assert(texts(parts@).take(index as int) == texts(parts@));
    }
    result
}

/// A text without the separator is one piece.
pub proof fn lemma_one_piece(text: Seq<char>, separator: char)
    requires
        !text.contains(separator),
    ensures
        pieces(text, separator) == seq![text],
    decreases text.len(),
{
    if text.len() == 0 {
        assert(text == Seq::<char>::empty());
    } else {
        assert(text[text.len() - 1] == text.last());
        assert forall|i: int| 0 <= i < text.len() - 1 implies text.drop_last()[i] != separator by {
            assert(text.drop_last()[i] == text[i]);
        }
        lemma_one_piece(text.drop_last(), separator);
        assert(text.drop_last().push(text.last()) == text);
        assert(pieces(text, separator) == seq![text]);
    }
}

/// The pieces of two texts with a separator between them.
pub proof fn lemma_pieces_of_two(left: Seq<char>, right: Seq<char>, separator: char)
    ensures
        pieces(left.push(separator) + right, separator) == pieces(left, separator) + pieces(
            right,
            separator,
        ),
    decreases right.len(),
{
    let whole = left.push(separator) + right;
    if right.len() == 0 {
        assert(whole == left.push(separator));
        assert(whole.drop_last() == left);
        assert(pieces(whole, separator) == pieces(left, separator) + seq![Seq::<char>::empty()]);
    } else {
        assert(whole.drop_last() == left.push(separator) + right.drop_last());
        assert(whole.last() == right.last());
        lemma_pieces_of_two(left, right.drop_last(), separator);
        lemma_pieces_nonempty(right.drop_last(), separator);
        let before = pieces(left, separator);
        let behind = pieces(right.drop_last(), separator);
        assert((before + behind).last() == behind.last());
        if right.last() == separator {
            assert((before + behind).push(Seq::empty()) == before + behind.push(Seq::empty()));
        } else {
            assert((before + behind).drop_last() == before + behind.drop_last());
            let longer = behind.last().push(right.last());
            assert((before + behind.drop_last()).push(longer) == before + behind.drop_last().push(
                longer,
            ));
        }
    }
}

/// No piece holds the separator.
pub proof fn lemma_pieces_lack_separator(text: Seq<char>, separator: char, index: int)
    requires
        0 <= index < pieces(text, separator).len(),
    ensures
        !pieces(text, separator)[index].contains(separator),
    decreases text.len(),
{
    if text.len() > 0 {
        let before = pieces(text.drop_last(), separator);
        lemma_pieces_nonempty(text.drop_last(), separator);
        if text.last() == separator {
            if index < before.len() {
                lemma_pieces_lack_separator(text.drop_last(), separator, index);
            }
        } else if index < before.len() - 1 {
            lemma_pieces_lack_separator(text.drop_last(), separator, index);
        } else {
            lemma_pieces_lack_separator(text.drop_last(), separator, before.len() - 1);
            let last = before.last();
            assert forall|i: int| 0 <= i < last.len() + 1 implies #[trigger] last.push(
                text.last(),
            )[i] != separator by {
                if i < last.len() {
                    assert(last.push(text.last())[i] == last[i]);
                    assert(last.contains(last[i]));
                }
            }
        }
    }
}

/// A character that stands nowhere is not found.
pub proof fn lemma_absent(text: Seq<char>, character: char)
    requires
        forall|i: int| 0 <= i < text.len() ==> #[trigger] text[i] != character,
    ensures
        first_at(text, character) is None,
    decreases text.len(),
{
    if text.len() > 0 {
        let rest = text.drop_first();
        assert forall|i: int| 0 <= i < rest.len() implies #[trigger] rest[i] != character by {
            assert(rest[i] == text[i + 1]);
        }
        assert(text[0] != character);
        lemma_absent(rest, character);
    }
}

/// A character that stands nowhere before is found where it stands.
pub proof fn lemma_first_at(text: Seq<char>, character: char, at: int)
    requires
        0 <= at < text.len(),
        text[at] == character,
        forall|i: int| 0 <= i < at ==> #[trigger] text[i] != character,
    ensures
        first_at(text, character) == Some(at),
    decreases at,
{
    if at > 0 {
        assert(text[0] != character);
        let rest = text.drop_first();
        assert(rest[at - 1] == text[at]);
        assert forall|i: int| 0 <= i < at - 1 implies #[trigger] rest[i] != character by {
            assert(rest[i] == text[i + 1]);
        }
        lemma_first_at(rest, character, at - 1);
    }
}

/// Where a part first stands in a text, if it does.
pub open spec fn first_part(text: Seq<char>, part: Seq<char>) -> Option<int>
    decreases text.len(),
{
    if has_prefix(text, part) {
        Some(0)
    } else if text.len() == 0 {
        None
    } else {
        match first_part(text.drop_first(), part) {
            Some(index) => Some(index + 1),
            None => None,
        }
    }
}

/// Where a part first stands in a text, if it does.
pub fn find(text: &str, part: &str) -> (result: Option<usize>)
    ensures
        match result {
            Some(index) => first_part(text@, part@) == Some(index as int) && index + part@.len()
                <= text@.len(),
            None => first_part(text@, part@) is None,
        },
{
    let content = characters(text);
    let wanted = characters(part);
    let count: usize = content.len();
    let mut index: usize = 0;
    proof {
        assert(content@.skip(0) == text@);
    }
    loop
        invariant
            content@ == text@,
            wanted@ == part@,
            count == content@.len(),
            index <= count,
            match first_part(content@.skip(index as int), part@) {
                Some(later) => first_part(text@, part@) == Some(index + later),
                None => first_part(text@, part@) is None,
            },
        decreases count - index,
    {
        let ghost rest = content@.skip(index as int);
        proof {
            if index + wanted@.len() <= count {
                assert(rest.take(wanted@.len() as int) == content@.subrange(
                    index as int,
                    index + wanted@.len(),
                ));
            }
            if index < count {
                assert(rest.drop_first() == content@.skip(index + 1));
            }
        }
        if part_at(&content, index, &wanted) {
            return Some(index);
        }
        if index == count {
            return None;
        }
        index = index + 1;
    }
}

} // verus!
