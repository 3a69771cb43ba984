//! Preferences in files of sections and of keys with values.

use vstd::prelude::*;

use crate::line_file::{
    ends_in_break, ends_in_return, fits, laid_out, lay_out, lemma_laid_out_again, lemma_last_line,
    lemma_lines_are_lines, read_back,
};
use crate::text::{
    has_part, has_prefix, joined, lemma_first_at, lines, lines_of, parted, pieces, same_text, split_once, starts_with,
    strip_prefix, strip_suffix, texts, trim, trim_start, trimmed, trimmed_end, trimmed_start,
    without_prefix, without_suffix, is_space,
};

verus! {

/// The keys with the values that a section gets, as they view.
pub open spec fn updates_view(updates: Seq<(String, String)>) -> Seq<(Seq<char>, Seq<char>)> {
    updates.map_values(|update: (String, String)| (update.0@, update.1@))
}

/// The line that gives a key its value.
pub open spec fn setting_line(update: (Seq<char>, Seq<char>)) -> Seq<char> {
    update.0 + "="@ + update.1
}

fn write_setting(key: &str, value: &str) -> (result: String)
    ensures
        result@ == setting_line((key@, value@)),
{
    let mut line = joined(key, "=");
    line.push_str(value);
    line
}

/// The section that a line begins, if it begins one.
pub open spec fn section_begun(line: Seq<char>) -> Option<Seq<char>> {
    match without_prefix(trimmed(line), "["@) {
        Some(rest) => without_suffix(rest, "]"@),
        None => None,
    }
}

fn read_section(line: &str) -> (result: Option<String>)
    ensures
        match result {
            Some(name) => section_begun(line@) == Some(name@),
            None => section_begun(line@) is None,
        },
{
    let content = trim(line);
    match strip_prefix(content.as_str(), "[") {
        Some(rest) => strip_suffix(rest.as_str(), "]"),
        None => None,
    }
}

/// Whether a line gives a key some value.
pub open spec fn sets_key(line: Seq<char>, key: Seq<char>) -> bool {
    match parted(trimmed(line), '=') {
        Some((name, _)) => trimmed(name) == key,
        None => false,
    }
}

/// The first of the keys that a line gives some value.
pub open spec fn updated_by(line: Seq<char>, updates: Seq<(Seq<char>, Seq<char>)>) -> Option<int>
    decreases updates.len(),
{
    if updates.len() == 0 {
        None
    } else {
        match updated_by(line, updates.drop_last()) {
            Some(index) => Some(index),
            None => if sets_key(line, updates.last().0) {
                Some(updates.len() - 1)
            } else {
                None
            },
        }
    }
}

fn find_update(line: &str, updates: &Vec<(String, String)>) -> (result: Option<usize>)
    ensures
        match result {
            Some(index) => index < updates@.len() && updated_by(line@, updates_view(updates@))
                == Some(index as int),
            None => updated_by(line@, updates_view(updates@)) is None,
        },
{
    let content = trim(line);
    let name = match split_once(content.as_str(), '=') {
        Some((name, _)) => Some(trim(name.as_str())),
        None => None,
    };
    let mut found: Option<usize> = None;
    let mut index: usize = 0;
    let ghost all = updates_view(updates@);
    proof {
        assert(all.take(0) == Seq::<(Seq<char>, Seq<char>)>::empty());
    }
    while index < updates.len()
        invariant
            index <= updates@.len(),
            all == updates_view(updates@),
            match name {
                Some(name) => parted(trimmed(line@), '=') is Some && name@ == trimmed(
                    (parted(trimmed(line@), '=')->0).0,
                ),
                None => parted(trimmed(line@), '=') is None,
            },
            match found {
                Some(at) => at < index && updated_by(line@, all.take(index as int)) == Some(
                    at as int,
                ),
                None => updated_by(line@, all.take(index as int)) is None,
            },
        decreases updates@.len() - index,
    {
        proof {
            let longer = all.take(index + 1);
            assert(longer.drop_last() == all.take(index as int));
            assert(longer.last() == all[index as int]);
        }
        if found.is_none() {
            if let Some(name) = &name {
                if same_text(name.as_str(), updates[index].0.as_str()) {
                    found = Some(index);
                }
            }
        }
        index = index + 1;
    }
    proof {
        assert(all.take(index as int) == all);
    }
    found
}

/// The lines for the keys that were not seen.
pub open spec fn missing_lines(
    updates: Seq<(Seq<char>, Seq<char>)>,
    seen: Seq<bool>,
) -> Seq<Seq<char>>
    decreases updates.len(),
{
    if updates.len() == 0 {
        Seq::empty()
    } else {
        let before = missing_lines(updates.drop_last(), seen);
        if seen[updates.len() - 1] {
            before
        } else {
            before.push(setting_line(updates.last()))
        }
    }
}

/// Adds the lines for the keys that were not seen.
pub fn append_ini_updates(
    output: &mut Vec<String>,
    updates: &Vec<(String, String)>,
    seen: &Vec<bool>,
)
    requires
        seen@.len() == updates@.len(),
    ensures
        texts(final(output)@) == texts(old(output)@) + missing_lines(
            updates_view(updates@),
            seen@,
        ),
{
    let ghost start = texts(output@);
    let ghost all = updates_view(updates@);
    let mut index: usize = 0;
    proof {
        assert(all.take(0) == Seq::<(Seq<char>, Seq<char>)>::empty());
        assert(texts(output@) =~= start + missing_lines(all.take(0), seen@));
    }
    while index < updates.len()
        invariant
            index <= updates@.len() == seen@.len(),
            all == updates_view(updates@),
            texts(output@) == start + missing_lines(all.take(index as int), seen@),
        decreases updates@.len() - index,
    {
        proof {
            let longer = all.take(index + 1);
            assert(longer.drop_last() == all.take(index as int));
            assert(longer.last() == all[index as int]);
        }
        if !seen[index] {
            let line = write_setting(updates[index].0.as_str(), updates[index].1.as_str());
            let ghost before = output@;
            output.push(line);
            proof {
                assert(texts(output@) =~= texts(before).push(line@));
                assert(texts(output@) =~= start + missing_lines(all.take(index + 1), seen@));
            }
        }
        index = index + 1;
    }
    proof {
        assert(all.take(index as int) == all);
    }
}

/// How far an update of a section has come.
pub ghost struct IniState {
    pub in_section: bool,
    pub found: bool,
    pub seen: Seq<bool>,
    pub output: Seq<Seq<char>>,
}

/// No key seen.
pub open spec fn none_seen(count: nat) -> Seq<bool> {
    Seq::new(count, |i: int| false)
}

/// An update after one more line.
pub open spec fn ini_step(
    state: IniState,
    line: Seq<char>,
    section: Seq<char>,
    updates: Seq<(Seq<char>, Seq<char>)>,
) -> IniState {
    match section_begun(line) {
        Some(name) => {
            let flushed = if state.in_section {
                state.output + missing_lines(updates, state.seen)
            } else {
                state.output
            };
            IniState {
                in_section: name == section,
                found: state.found || name == section,
                seen: if name == section {
                    none_seen(updates.len())
                } else {
                    state.seen
                },
                output: flushed.push(line),
            }
        },
        None => match updated_by(line, updates) {
            Some(index) if state.in_section => IniState {
                seen: state.seen.update(index, true),
                output: state.output.push(setting_line(updates[index])),
                ..state
            },
            _ => IniState { output: state.output.push(line), ..state },
        },
    }
}

/// An update after some lines.
pub open spec fn ini_state(
    lines: Seq<Seq<char>>,
    section: Seq<char>,
    updates: Seq<(Seq<char>, Seq<char>)>,
) -> IniState
    decreases lines.len(),
{
    if lines.len() == 0 {
        IniState {
            in_section: false,
            found: false,
            seen: none_seen(updates.len()),
            output: Seq::empty(),
        }
    } else {
        ini_step(ini_state(lines.drop_last(), section, updates), lines.last(), section, updates)
    }
}

/// A file's lines with an empty one behind them, unless it ends in one or is
/// empty.
pub open spec fn spaced(lines: Seq<Seq<char>>) -> Seq<Seq<char>> {
    if lines.len() > 0 && lines.last().len() > 0 {
        lines.push(Seq::empty())
    } else {
        lines
    }
}

/// The lines of a file once each occurrence of a section has the keys with
/// their values; a file without the section gets it at its end.
pub open spec fn updated_lines(
    lines: Seq<Seq<char>>,
    section: Seq<char>,
    updates: Seq<(Seq<char>, Seq<char>)>,
) -> Seq<Seq<char>> {
    let state = ini_state(lines, section, updates);
    if !state.found {
        spaced(state.output).push("["@ + section + "]"@) + missing_lines(
            updates,
            none_seen(updates.len()),
        )
    } else if state.in_section {
        state.output + missing_lines(updates, state.seen)
    } else {
        state.output
    }
}

fn unseen(count: usize) -> (result: Vec<bool>)
    ensures
        result@ == none_seen(count as nat),
{
    let mut seen: Vec<bool> = Vec::new();
    let mut index: usize = 0;
    while index < count
        invariant
            index <= count,
            seen@ == none_seen(index as nat),
        decreases count - index,
    {
        seen.push(false);
        index = index + 1;
        proof {
            assert(seen@ =~= none_seen(index as nat));
        }
    }
    seen
}

/// A file in which each occurrence of a section has the keys with their
/// values. Everything else, and the line breaks, stay.
pub fn update_ini_section(contents: &str, section: &str, updates: &Vec<(String, String)>) -> (result:
    String)
    ensures
        result@ == laid_out(
            updated_lines(lines_of(contents@), section@, updates_view(updates@)),
            contents@,
        ),
{
    let all = lines(contents);
    let count: usize = updates.len();
    let mut output: Vec<String> = Vec::new();
    let mut in_section = false;
    let mut found = false;
    let mut seen = unseen(count);
    let mut index: usize = 0;
    let ghost keys = updates_view(updates@);
    let ghost whole = texts(all@);
    proof {
        assert(whole.take(0) == Seq::<Seq<char>>::empty());
        assert(texts(output@) =~= Seq::<Seq<char>>::empty());
    }
    while index < all.len()
        invariant
            index <= all@.len(),
            whole == texts(all@),
            keys == updates_view(updates@),
            count == updates@.len() == seen@.len(),
            in_section ==> found,
            ini_state(whole.take(index as int), section@, keys) == (IniState {
                in_section,
                found,
                seen: seen@,
                output: texts(output@),
            }),
        decreases all@.len() - index,
    {
        let line = all[index].as_str();
        proof {
            let longer = whole.take(index + 1);
            assert(longer.drop_last() == whole.take(index as int));
            assert(longer.last() == line@);
            assert(keys.len() == count);
        }
        match read_section(line) {
            Some(name) => {
                if in_section {
                    append_ini_updates(&mut output, updates, &seen);
                }
                in_section = same_text(name.as_str(), section);
                if in_section {
                    found = true;
                    seen = unseen(count);
                }
                let ghost before = output@;
                output.push(line.to_owned());
                proof {
                    assert(texts(output@) =~= texts(before).push(line@));
                }
            },
            None => {
                let update = find_update(line, updates);
                let ghost before = output@;
                match update {
                    Some(at) if in_section => {
                        let entry = write_setting(updates[at].0.as_str(), updates[at].1.as_str());
                        output.push(entry);
                        seen.set(at, true);
                        proof {
                            assert(texts(output@) =~= texts(before).push(entry@));
                            assert(keys[at as int] == (updates@[at as int].0@, updates@[at as int].1@));
                        }
                    },
                    _ => {
                        output.push(line.to_owned());
                        proof {
                            assert(texts(output@) =~= texts(before).push(line@));
                        }
                    },
                }
            },
        }
        index = index + 1;
    }
    proof {
        assert(whole.take(index as int) == whole);
    }
    if in_section {
        append_ini_updates(&mut output, updates, &seen);
    }
    if !found {
        let length: usize = output.len();
        if length > 0 && !output[length - 1].as_str().is_empty() {
            let ghost before = output@;
            output.push(String::new());
            proof {
                assert(texts(output@) =~= texts(before).push(Seq::empty()));
                assert(texts(before).last() == before[length - 1]@);
            }
        } else {
            proof {
                assert(length > 0 ==> texts(output@).last() == output@[length - 1]@);
            }
        }
        let mut header = joined("[", section);
        header.push_str("]");
        let ghost before = output@;
        output.push(header);
        proof {
            assert(texts(output@) =~= texts(before).push(header@));
        }
        let blank = unseen(count);
        append_ini_updates(&mut output, updates, &blank);
    }
    lay_out(&output, contents)
}

/// The section that a line behind the given ones belongs to.
pub open spec fn current_section(lines: Seq<Seq<char>>) -> Option<Seq<char>>
    decreases lines.len(),
{
    if lines.len() == 0 {
        None
    } else {
        match section_begun(lines.last()) {
            Some(name) => Some(name),
            None => current_section(lines.drop_last()),
        }
    }
}

/// The lines that give a key of a section some value.
pub open spec fn setting_lines(
    lines: Seq<Seq<char>>,
    section: Seq<char>,
    key: Seq<char>,
) -> Seq<Seq<char>>
    decreases lines.len(),
{
    if lines.len() == 0 {
        Seq::empty()
    } else {
        let before = setting_lines(lines.drop_last(), section, key);
        if section_begun(lines.last()) is None && current_section(lines.drop_last()) == Some(
            section,
        ) && sets_key(lines.last(), key) {
            before.push(lines.last())
        } else {
            before
        }
    }
}

/// Whether a key can be told apart from a section and from its value.
pub open spec fn is_plain_key(key: Seq<char>) -> bool {
    &&& key.len() > 0
    &&& key.first() != '['
    &&& !is_space(key.first())
    &&& !is_space(key.last())
    &&& !key.contains('=')
}

/// Whether the keys are plain and different.
pub open spec fn are_plain(updates: Seq<(Seq<char>, Seq<char>)>) -> bool {
    &&& forall|i: int| 0 <= i < updates.len() ==> is_plain_key(#[trigger] updates[i].0)
    &&& forall|i: int, j: int|
        0 <= i < updates.len() && 0 <= j < updates.len() && i != j ==> #[trigger] updates[i].0
            != #[trigger] updates[j].0
}

/// Whether the lines that give a key of a section a value all give it the
/// wanted one.
pub open spec fn all_wanted(
    lines: Seq<Seq<char>>,
    section: Seq<char>,
    update: (Seq<char>, Seq<char>),
) -> bool {
    forall|i: int|
        0 <= i < setting_lines(lines, section, update.0).len() ==> #[trigger] setting_lines(
            lines,
            section,
            update.0,
        )[i] == setting_line(update)
}

proof fn lemma_trimmed_end_keeps(text: Seq<char>, at: int)
    requires
        0 <= at < text.len(),
        !is_space(text[at]),
    ensures
        at < trimmed_end(text).len() <= text.len(),
        trimmed_end(text) == text.take(trimmed_end(text).len() as int),
    decreases text.len(),
{
    if is_space(text.last()) {
        assert(text.drop_last()[at] == text[at]);
        lemma_trimmed_end_keeps(text.drop_last(), at);
        let length = trimmed_end(text).len() as int;
        assert(text.drop_last().take(length) == text.take(length));
    } else {
        assert(text.take(text.len() as int) == text);
    }
}

proof fn lemma_setting_line(update: (Seq<char>, Seq<char>), key: Seq<char>)
    requires
        is_plain_key(update.0),
    ensures
        section_begun(setting_line(update)) is None,
        sets_key(setting_line(update), key) == (key == update.0),
{
    reveal_strlit("=");
    reveal_strlit("[");
    let line = setting_line(update);
    let at = update.0.len() as int;
    assert(line[at] == '=');
    assert(line.first() == update.0.first());
    assert(trimmed_start(line) == line);
    lemma_trimmed_end_keeps(line, at);
    let text = trimmed(line);
    assert(text.first() == update.0.first());
    assert forall|i: int| 0 <= i < at implies #[trigger] text[i] != '=' by {
        assert(text[i] == update.0[i]);
        assert(update.0.contains(update.0[i]));
    }
    lemma_first_at(text, '=', at);
    assert(text.take(at) =~= update.0);
    assert(trimmed(update.0) == update.0);
    assert("["@[0] == '[');
    assert(text.subrange(0, 1)[0] == text.first());
}

proof fn lemma_header(section: Seq<char>)
    ensures
        section_begun("["@ + section + "]"@) == Some(section),
{
    reveal_strlit("[");
    reveal_strlit("]");
    let line = "["@ + section + "]"@;
    assert(line.first() == '[');
    assert(line.last() == ']');
    assert(trimmed_start(line) == line);
    assert(trimmed(line) == line);
    let rest = section + "]"@;
    assert(line.subrange(0, 1) =~= "["@);
    assert(without_prefix(line, "["@) is Some);
    assert(without_prefix(line, "["@)->0 =~= rest);
    assert(rest.subrange(rest.len() - 1, rest.len() as int) =~= "]"@);
    assert(without_suffix(rest, "]"@)->0 =~= section);
}

proof fn lemma_updated_by(line: Seq<char>, updates: Seq<(Seq<char>, Seq<char>)>)
    ensures
        match updated_by(line, updates) {
            Some(index) => 0 <= index < updates.len() && sets_key(line, updates[index].0),
            None => forall|i: int|
                0 <= i < updates.len() ==> !sets_key(line, #[trigger] updates[i].0),
        },
    decreases updates.len(),
{
    if updates.len() > 0 {
        let shorter = updates.drop_last();
        lemma_updated_by(line, shorter);
        match updated_by(line, shorter) {
            Some(index) => {
                assert(shorter[index] == updates[index]);
            },
            None => {
                if !sets_key(line, updates.last().0) {
                    assert forall|i: int| 0 <= i < updates.len() implies !sets_key(
                        line,
                        #[trigger] updates[i].0,
                    ) by {
                        if i < shorter.len() {
                            assert(shorter[i] == updates[i]);
                        }
                    }
                }
            },
        }
    }
}

proof fn lemma_one_setting(
    lines: Seq<Seq<char>>,
    section: Seq<char>,
    updates: Seq<(Seq<char>, Seq<char>)>,
    given: int,
    key: int,
)
    requires
        are_plain(updates),
        0 <= given < updates.len(),
        0 <= key < updates.len(),
        current_section(lines) == Some(section),
        all_wanted(lines, section, updates[key]),
    ensures
        current_section(lines.push(setting_line(updates[given]))) == Some(section),
        all_wanted(lines.push(setting_line(updates[given])), section, updates[key]),
        setting_lines(
            lines.push(setting_line(updates[given])),
            section,
            updates[key].0,
        ).len() == setting_lines(lines, section, updates[key].0).len() + if given == key {
            1int
        } else {
            0int
        },
{
    let line = setting_line(updates[given]);
    let longer = lines.push(line);
    lemma_setting_line(updates[given], updates[key].0);
    assert(longer.drop_last() == lines);
    assert(longer.last() == line);
    let before = setting_lines(lines, section, updates[key].0);
    if given == key {
        assert(setting_lines(longer, section, updates[key].0) == before.push(line));
    } else {
        assert(updates[given].0 != updates[key].0);
        assert(setting_lines(longer, section, updates[key].0) == before);
    }
}

proof fn lemma_flushed(
    lines: Seq<Seq<char>>,
    section: Seq<char>,
    updates: Seq<(Seq<char>, Seq<char>)>,
    seen: Seq<bool>,
    count: int,
    key: int,
)
    requires
        are_plain(updates),
        0 <= count <= updates.len(),
        0 <= key < updates.len(),
        current_section(lines) == Some(section),
        all_wanted(lines, section, updates[key]),
    ensures
        ({
            let after = lines + missing_lines(updates.take(count), seen);
            &&& current_section(after) == Some(section)
            &&& all_wanted(after, section, updates[key])
            &&& setting_lines(after, section, updates[key].0).len() >= setting_lines(
                lines,
                section,
                updates[key].0,
            ).len()
            &&& key < count && !seen[key] ==> setting_lines(
                after,
                section,
                updates[key].0,
            ).len() > 0
        }),
    decreases count,
{
    let after = lines + missing_lines(updates.take(count), seen);
    if count == 0 {
        assert(updates.take(0) == Seq::<(Seq<char>, Seq<char>)>::empty());
        assert(after == lines);
    } else {
        let shorter = updates.take(count - 1);
        assert(updates.take(count).drop_last() == shorter);
        assert(updates.take(count).last() == updates[count - 1]);
        lemma_flushed(lines, section, updates, seen, count - 1, key);
        let before = lines + missing_lines(shorter, seen);
        if seen[count - 1] {
            assert(after == before);
        } else {
            assert(after == before.push(setting_line(updates[count - 1])));
            lemma_one_setting(before, section, updates, count - 1, key);
        }
    }
}

proof fn lemma_plain_line(lines: Seq<Seq<char>>, line: Seq<char>, section: Seq<char>, key: Seq<char>)
    ensures
        current_section(lines.push(line)) == match section_begun(line) {
            Some(name) => Some(name),
            None => current_section(lines),
        },
        section_begun(line) is Some || current_section(lines) != Some(section) || !sets_key(
            line,
            key,
        ) ==> setting_lines(lines.push(line), section, key) == setting_lines(lines, section, key),
{
    assert(lines.push(line).drop_last() == lines);
    assert(lines.push(line).last() == line);
}

proof fn lemma_ini_state(
    lines: Seq<Seq<char>>,
    section: Seq<char>,
    updates: Seq<(Seq<char>, Seq<char>)>,
    key: int,
)
    requires
        are_plain(updates),
        0 <= key < updates.len(),
    ensures
        ({
            let state = ini_state(lines, section, updates);
            let settings = setting_lines(state.output, section, updates[key].0);
            &&& state.in_section <==> current_section(state.output) == Some(section)
            &&& state.in_section ==> state.found
            &&& state.seen.len() == updates.len()
            &&& all_wanted(state.output, section, updates[key])
            &&& state.in_section && state.seen[key] ==> settings.len() > 0
            &&& state.found && !state.in_section ==> settings.len() > 0
        }),
    decreases lines.len(),
{
    if lines.len() > 0 {
        let before = ini_state(lines.drop_last(), section, updates);
        let line = lines.last();
        let name = updates[key].0;
        lemma_ini_state(lines.drop_last(), section, updates, key);
        assert(updates.take(updates.len() as int) == updates);
        match section_begun(line) {
            Some(begun) => {
                let flushed = if before.in_section {
                    before.output + missing_lines(updates, before.seen)
                } else {
                    before.output
                };
                if before.in_section {
                    lemma_flushed(
                        before.output,
                        section,
                        updates,
                        before.seen,
                        updates.len() as int,
                        key,
                    );
                    assert(setting_lines(flushed, section, name).len() > 0);
                }
                lemma_plain_line(flushed, line, section, name);
            },
            None => {
                lemma_updated_by(line, updates);
                match updated_by(line, updates) {
                    Some(index) if before.in_section => {
                        lemma_one_setting(before.output, section, updates, index, key);
                    },
                    _ => {
                        lemma_plain_line(before.output, line, section, name);
                        if before.in_section {
                            assert(!sets_key(line, updates[key].0));
                        }
                    },
                }
            },
        }
    }
}

/// Once a section was updated, each of its keys has its value, and no line of
/// the section says otherwise.
pub proof fn law_section_has_its_values(
    lines: Seq<Seq<char>>,
    section: Seq<char>,
    updates: Seq<(Seq<char>, Seq<char>)>,
    key: int,
)
    requires
        are_plain(updates),
        0 <= key < updates.len(),
    ensures
        setting_lines(updated_lines(lines, section, updates), section, updates[key].0).len() > 0,
        all_wanted(updated_lines(lines, section, updates), section, updates[key]),
{
    let state = ini_state(lines, section, updates);
    let name = updates[key].0;
    lemma_ini_state(lines, section, updates, key);
    assert(updates.take(updates.len() as int) == updates);
    if !state.found {
        let ready = spaced(state.output);
        let blank = Seq::<char>::empty();
        assert(section_begun(blank) is None && !sets_key(blank, name)) by {
            reveal_strlit("[");
            assert(trimmed(blank) == blank);
        }
        lemma_plain_line(state.output, blank, section, name);
        let header = "["@ + section + "]"@;
        lemma_header(section);
        lemma_plain_line(ready, header, section, name);
        lemma_flushed(
            ready.push(header),
            section,
            updates,
            none_seen(updates.len()),
            updates.len() as int,
            key,
        );
    } else if state.in_section {
        lemma_flushed(state.output, section, updates, state.seen, updates.len() as int, key);
    }
}

/// The line that names the terminal among the helpers.
pub open spec fn helper_line(executable: Seq<char>) -> Seq<char> {
    "TerminalEmulator="@ + executable
}

/// Whether a line names a terminal among the helpers.
pub open spec fn names_terminal(line: Seq<char>) -> bool {
    has_prefix(trimmed_start(line), "TerminalEmulator="@)
}

/// Lines of helpers in which each that names a terminal names the given one.
pub open spec fn renamed_helpers(lines: Seq<Seq<char>>, executable: Seq<char>) -> Seq<Seq<char>> {
    lines.map_values(
        |line: Seq<char>|
            if names_terminal(line) {
                helper_line(executable)
            } else {
                line
            },
    )
}

/// Lines of helpers that name the given terminal: in place of another, or
/// behind the others where they name none.
pub open spec fn helpers_with(lines: Seq<Seq<char>>, executable: Seq<char>) -> Seq<Seq<char>> {
    if exists|i: int| 0 <= i < lines.len() && names_terminal(#[trigger] lines[i]) {
        renamed_helpers(lines, executable)
    } else {
        lines.push(helper_line(executable))
    }
}

/// A file of helpers that names the given terminal.
pub fn update_xfce_helpers(contents: &str, executable: &str) -> (result: String)
    ensures
        result@ == laid_out(helpers_with(lines_of(contents@), executable@), contents@),
{
    let all = lines(contents);
    let mut output: Vec<String> = Vec::new();
    let mut replaced = false;
    let mut index: usize = 0;
    let ghost whole = texts(all@);
    while index < all.len()
        invariant
            index <= all@.len(),
            whole == texts(all@),
            texts(output@) == renamed_helpers(whole, executable@).take(index as int),
            replaced == exists|i: int| 0 <= i < index && names_terminal(#[trigger] whole[i]),
        decreases all@.len() - index,
    {
        let line = all[index].as_str();
        let start = trim_start(line);
        let ghost before = output@;
        proof {
            assert(whole[index as int] == line@);
        }
        let written = if starts_with(start.as_str(), "TerminalEmulator=") {
            replaced = true;
            joined("TerminalEmulator=", executable)
        } else {
            line.to_owned()
        };
        output.push(written);
        proof {
            assert(texts(output@) =~= texts(before).push(written@));
            assert(renamed_helpers(whole, executable@).take(index + 1) =~= renamed_helpers(
                whole,
                executable@,
            ).take(index as int).push(written@));
        }
        index = index + 1;
    }
    proof {
        assert(renamed_helpers(whole, executable@).take(index as int) == renamed_helpers(
            whole,
            executable@,
        ));
    }
    if !replaced {
        let line = joined("TerminalEmulator=", executable);
        let ghost before = output@;
        output.push(line);
        proof {
            assert(texts(output@) =~= texts(before).push(line@));
            assert(renamed_helpers(whole, executable@) =~= whole);
        }
    }
    lay_out(&output, contents)
}

/// Once the helpers were updated they name the given terminal and no other.
pub proof fn law_helpers_name_the_terminal(lines: Seq<Seq<char>>, executable: Seq<char>)
    ensures
        exists|i: int|
            0 <= i < helpers_with(lines, executable).len() && #[trigger] helpers_with(
                lines,
                executable,
            )[i] == helper_line(executable),
        forall|i: int|
            0 <= i < helpers_with(lines, executable).len() && names_terminal(
                #[trigger] helpers_with(lines, executable)[i],
            ) ==> helpers_with(lines, executable)[i] == helper_line(executable),
{
    let after = helpers_with(lines, executable);
    if exists|i: int| 0 <= i < lines.len() && names_terminal(#[trigger] lines[i]) {
        let i = choose|i: int| 0 <= i < lines.len() && names_terminal(#[trigger] lines[i]);
        assert(after[i] == helper_line(executable));
    } else {
        assert(after[lines.len() as int] == helper_line(executable));
        assert forall|i: int| 0 <= i < after.len() && names_terminal(#[trigger] after[i]) implies
            after[i] == helper_line(executable) by {
            if i < lines.len() {
                assert(after[i] == lines[i]);
            }
        }
    }
}

/// Whether a line behind others gives one of the keys of a section some value.
pub open spec fn is_setting(
    before: Seq<Seq<char>>,
    line: Seq<char>,
    section: Seq<char>,
    updates: Seq<(Seq<char>, Seq<char>)>,
) -> bool {
    section_begun(line) is None && current_section(before) == Some(section) && updated_by(
        line,
        updates,
    ) is Some
}

/// The lines of a file that give none of the keys of a section a value.
pub open spec fn other_lines(
    lines: Seq<Seq<char>>,
    section: Seq<char>,
    updates: Seq<(Seq<char>, Seq<char>)>,
) -> Seq<Seq<char>>
    decreases lines.len(),
{
    if lines.len() == 0 {
        Seq::empty()
    } else {
        let before = other_lines(lines.drop_last(), section, updates);
        if is_setting(lines.drop_last(), lines.last(), section, updates) {
            before
        } else {
            before.push(lines.last())
        }
    }
}

/// A key's line is read as the line of that key.
proof fn lemma_setting_updates(updates: Seq<(Seq<char>, Seq<char>)>, index: int)
    requires
        are_plain(updates),
        0 <= index < updates.len(),
    ensures
        section_begun(setting_line(updates[index])) is None,
        updated_by(setting_line(updates[index]), updates) == Some(index),
{
    let line = setting_line(updates[index]);
    lemma_updated_by(line, updates);
    lemma_setting_line(updates[index], updates[index].0);
    match updated_by(line, updates) {
        Some(found) => {
            lemma_setting_line(updates[index], updates[found].0);
            if found != index {
                assert(updates[found].0 != updates[index].0);
            }
        },
        None => {},
    }
}

proof fn lemma_pushed_state(
    lines: Seq<Seq<char>>,
    line: Seq<char>,
    section: Seq<char>,
    updates: Seq<(Seq<char>, Seq<char>)>,
)
    ensures
        ini_state(lines.push(line), section, updates) == ini_step(
            ini_state(lines, section, updates),
            line,
            section,
            updates,
        ),
        current_section(lines.push(line)) == match section_begun(line) {
            Some(name) => Some(name),
            None => current_section(lines),
        },
        other_lines(lines.push(line), section, updates) == if is_setting(
            lines,
            line,
            section,
            updates,
        ) {
            other_lines(lines, section, updates)
        } else {
            other_lines(lines, section, updates).push(line)
        },
{
    assert(lines.push(line).drop_last() == lines);
    assert(lines.push(line).last() == line);
}

/// Keys that are marked where they were marked or are among the first ones.
pub open spec fn marked_below(seen: Seq<bool>, count: int) -> Seq<bool> {
    Seq::new(seen.len(), |i: int| seen[i] || i < count)
}

/// The lines of keys that were missing are left as they are, and mark all of
/// them.
proof fn lemma_missing_lines_stay(
    lines: Seq<Seq<char>>,
    section: Seq<char>,
    updates: Seq<(Seq<char>, Seq<char>)>,
    seen: Seq<bool>,
    count: int,
)
    requires
        are_plain(updates),
        0 <= count <= updates.len(),
        seen.len() == updates.len(),
        ini_state(lines, section, updates).in_section,
        ini_state(lines, section, updates).seen == seen,
        ini_state(lines, section, updates).output == lines,
        current_section(lines) == Some(section),
    ensures
        ({
            let longer = lines + missing_lines(updates.take(count), seen);
            let before = ini_state(lines, section, updates);
            &&& ini_state(longer, section, updates) == (IniState {
                seen: marked_below(seen, count),
                output: longer,
                ..before
            })
            &&& current_section(longer) == Some(section)
            &&& other_lines(longer, section, updates) == other_lines(lines, section, updates)
        }),
    decreases count,
{
    let longer = lines + missing_lines(updates.take(count), seen);
    if count == 0 {
        assert(updates.take(0) == Seq::<(Seq<char>, Seq<char>)>::empty());
        assert(longer =~= lines);
        assert(marked_below(seen, 0) =~= seen);
    } else {
        let last = count - 1;
        let shorter = lines + missing_lines(updates.take(last), seen);
        lemma_missing_lines_stay(lines, section, updates, seen, last);
        assert(updates.take(count).drop_last() == updates.take(last));
        assert(updates.take(count).last() == updates[last]);
        if seen[last] {
            assert(longer == shorter);
            assert(marked_below(seen, count) =~= marked_below(seen, last));
        } else {
            let line = setting_line(updates[last]);
            assert(longer =~= shorter.push(line));
            lemma_setting_updates(updates, last);
            lemma_pushed_state(shorter, line, section, updates);
            assert(marked_below(seen, count) =~= marked_below(seen, last).update(last, true));
        }
    }
}

proof fn lemma_nothing_missing(updates: Seq<(Seq<char>, Seq<char>)>, seen: Seq<bool>)
    requires
        seen.len() >= updates.len(),
        forall|i: int| 0 <= i < updates.len() ==> #[trigger] seen[i],
    ensures
        missing_lines(updates, seen) == Seq::<Seq<char>>::empty(),
    decreases updates.len(),
{
    if updates.len() > 0 {
        lemma_nothing_missing(updates.drop_last(), seen);
    }
}

/// What an update put out so far is left as it is by an update, which comes as
/// far with it; and it holds the other lines that it was made from.
proof fn lemma_output_stays(
    lines: Seq<Seq<char>>,
    section: Seq<char>,
    updates: Seq<(Seq<char>, Seq<char>)>,
)
    requires
        are_plain(updates),
    ensures
        ({
            let state = ini_state(lines, section, updates);
            let again = ini_state(state.output, section, updates);
            &&& again.output == state.output
            &&& again.in_section == state.in_section
            &&& again.found == state.found
            &&& state.in_section ==> again.seen == state.seen
            &&& state.in_section ==> state.found
            &&& state.seen.len() == updates.len()
            &&& again.seen.len() == updates.len()
            &&& state.in_section <==> current_section(lines) == Some(section)
            &&& state.in_section <==> current_section(state.output) == Some(section)
            &&& other_lines(state.output, section, updates) == other_lines(lines, section, updates)
        }),
    decreases lines.len(),
{
    if lines.len() == 0 {
    } else {
        let shorter = lines.drop_last();
        let line = lines.last();
        lemma_output_stays(shorter, section, updates);
        assert(shorter.push(line) == lines);
        lemma_pushed_state(shorter, line, section, updates);
        let before = ini_state(shorter, section, updates);
        let state = ini_state(lines, section, updates);
        assert(updates.take(updates.len() as int) == updates);
        match section_begun(line) {
            Some(_) => {
                let flushed = if before.in_section {
                    before.output + missing_lines(updates, before.seen)
                } else {
                    before.output
                };
                if before.in_section {
                    lemma_missing_lines_stay(
                        before.output,
                        section,
                        updates,
                        before.seen,
                        updates.len() as int,
                    );
                    lemma_nothing_missing(
                        updates,
                        marked_below(before.seen, updates.len() as int),
                    );
                    assert(flushed + Seq::<Seq<char>>::empty() =~= flushed);
                }
                lemma_pushed_state(flushed, line, section, updates);
            },
            None => {
                lemma_updated_by(line, updates);
                match updated_by(line, updates) {
                    Some(index) if before.in_section => {
                        lemma_setting_updates(updates, index);
                        lemma_pushed_state(
                            before.output,
                            setting_line(updates[index]),
                            section,
                            updates,
                        );
                    },
                    _ => {
                        lemma_pushed_state(before.output, line, section, updates);
                    },
                }
            },
        }
    }
}

/// The lines that are added to a file without the section before its keys.
pub open spec fn added_header(lines: Seq<Seq<char>>, section: Seq<char>) -> Seq<Seq<char>> {
    spaced(lines).push("["@ + section + "]"@)
}

/// Updating lines a second time changes nothing, and the lines that give none of
/// the keys of the section a value all stay, unchanged and in their order. A file
/// without the section gets its header behind them.
pub proof fn law_updated_lines_stay(
    lines: Seq<Seq<char>>,
    section: Seq<char>,
    updates: Seq<(Seq<char>, Seq<char>)>,
)
    requires
        are_plain(updates),
    ensures
        ({
            let updated = updated_lines(lines, section, updates);
            &&& updated_lines(updated, section, updates) == updated
            &&& other_lines(updated, section, updates) == if ini_state(
                lines,
                section,
                updates,
            ).found {
                other_lines(lines, section, updates)
            } else {
                added_header(lines, section)
            }
        }),
{
    lemma_updated_again(lines, section, updates);
}

/// How far an update comes with lines that were updated: to the end, with
/// nothing missing.
proof fn lemma_updated_again(
    lines: Seq<Seq<char>>,
    section: Seq<char>,
    updates: Seq<(Seq<char>, Seq<char>)>,
)
    requires
        are_plain(updates),
    ensures
        ({
            let updated = updated_lines(lines, section, updates);
            let again = ini_state(updated, section, updates);
            &&& again.output == updated
            &&& again.found
            &&& again.in_section ==> missing_lines(updates, again.seen) == Seq::<Seq<char>>::empty()
            &&& updated_lines(updated, section, updates) == updated
            &&& other_lines(updated, section, updates) == if ini_state(
                lines,
                section,
                updates,
            ).found {
                other_lines(lines, section, updates)
            } else {
                added_header(lines, section)
            }
        }),
{
    let state = ini_state(lines, section, updates);
    let updated = updated_lines(lines, section, updates);
    let count = updates.len() as int;
    assert(updates.take(count) == updates);
    lemma_output_stays(lines, section, updates);
    if !state.found {
        lemma_unfound_output(lines, section, updates);
        let blank = Seq::<char>::empty();
        assert(section_begun(blank) is None) by {
            reveal_strlit("[");
            assert(trimmed(blank) == blank);
        }
        let ready = spaced(state.output);
        let header = "["@ + section + "]"@;
        lemma_header(section);
        lemma_pushed_state(state.output, blank, section, updates);
        lemma_pushed_state(ready, header, section, updates);
        let begun = ready.push(header);
        lemma_missing_lines_stay(begun, section, updates, none_seen(updates.len()), count);
        lemma_nothing_missing(updates, marked_below(none_seen(updates.len()), count));
        assert(updated + Seq::<Seq<char>>::empty() =~= updated);
    } else if state.in_section {
        lemma_missing_lines_stay(state.output, section, updates, state.seen, count);
        lemma_nothing_missing(updates, marked_below(state.seen, count));
        assert(updated + Seq::<Seq<char>>::empty() =~= updated);
    }
}

/// A file without the section is put out as it is.
proof fn lemma_unfound_output(
    lines: Seq<Seq<char>>,
    section: Seq<char>,
    updates: Seq<(Seq<char>, Seq<char>)>,
)
    requires
        !ini_state(lines, section, updates).found,
    ensures
        ini_state(lines, section, updates).output == lines,
        !ini_state(lines, section, updates).in_section,
        other_lines(lines, section, updates) == lines,
        current_section(lines) != Some(section),
    decreases lines.len(),
{
    if lines.len() > 0 {
        lemma_unfound_output(lines.drop_last(), section, updates);
        assert(lines.drop_last().push(lines.last()) == lines);
    }
}

/// Whether a text can stand in a line.
pub open spec fn is_in_line(text: Seq<char>) -> bool {
    !text.contains('\n') && !text.contains('\r')
}

/// Whether keys and values can stand in lines.
pub open spec fn are_in_lines(updates: Seq<(Seq<char>, Seq<char>)>) -> bool {
    forall|i: int|
        0 <= i < updates.len() ==> is_in_line(#[trigger] updates[i].0) && is_in_line(updates[i].1)
}

/// Whether lines hold no line feed and, where that is asked, do not end in a
/// carriage return.
spec fn are_clean(lines: Seq<Seq<char>>, strict: bool) -> bool {
    forall|i: int| 0 <= i < lines.len() ==> is_clean(#[trigger] lines[i], strict)
}

spec fn is_clean(line: Seq<char>, strict: bool) -> bool {
    !line.contains('\n') && (strict ==> !ends_in_return(line))
}

proof fn lemma_clean_setting(update: (Seq<char>, Seq<char>))
    requires
        is_in_line(update.0),
        is_in_line(update.1),
    ensures
        is_clean(setting_line(update), true),
        setting_line(update).len() > 0,
{
    reveal_strlit("=");
    let line = setting_line(update);
    let at = update.0.len() as int;
    assert(line[at] == '=');
    assert forall|i: int| 0 <= i < line.len() implies line[i] != '\n' && line[i] != '\r' by {
        if i < at {
            assert(update.0.contains(update.0[i]));
        } else if i > at {
            assert(line[i] == update.1[i - at - 1]);
            assert(update.1.contains(update.1[i - at - 1]));
        }
    }
}

proof fn lemma_clean_missing(updates: Seq<(Seq<char>, Seq<char>)>, seen: Seq<bool>)
    requires
        are_in_lines(updates),
    ensures
        are_clean(missing_lines(updates, seen), true),
    decreases updates.len(),
{
    if updates.len() > 0 {
        let shorter = updates.drop_last();
        assert forall|i: int| 0 <= i < shorter.len() implies is_in_line(#[trigger] shorter[i].0)
            && is_in_line(shorter[i].1) by {
            assert(shorter[i] == updates[i]);
        }
        lemma_clean_missing(shorter, seen);
        assert(is_in_line(updates[updates.len() - 1].0));
        lemma_clean_setting(updates.last());
    }
}

proof fn lemma_clean_output(
    lines: Seq<Seq<char>>,
    section: Seq<char>,
    updates: Seq<(Seq<char>, Seq<char>)>,
    strict: bool,
)
    requires
        are_in_lines(updates),
        are_clean(lines, strict),
    ensures
        are_clean(ini_state(lines, section, updates).output, strict),
        lines.len() > 0 ==> {
            let output = ini_state(lines, section, updates).output;
            output.len() > 0 && (output.last() == lines.last() || is_clean(output.last(), true))
        },
    decreases lines.len(),
{
    if lines.len() > 0 {
        let shorter = lines.drop_last();
        let line = lines.last();
        assert(is_clean(lines[lines.len() - 1], strict));
        assert forall|i: int| 0 <= i < shorter.len() implies is_clean(#[trigger] shorter[i], strict) by {
            assert(shorter[i] == lines[i]);
        }
        lemma_clean_output(shorter, section, updates, strict);
        let before = ini_state(shorter, section, updates);
        lemma_clean_missing(updates, before.seen);
        lemma_updated_by(line, updates);
        match updated_by(line, updates) {
            Some(index) => {
                assert(is_in_line(updates[index].0));
                lemma_clean_setting(updates[index]);
            },
            None => {},
        }
        let output = ini_state(lines, section, updates).output;
        assert forall|i: int| 0 <= i < output.len() implies is_clean(#[trigger] output[i], strict) by {
            if i < before.output.len() {
                assert(output[i] == before.output[i]);
            } else if i < output.len() - 1 {
                assert(output[i] == missing_lines(updates, before.seen)[i - before.output.len()]);
            }
        }
    }
}

proof fn lemma_clean_update(
    lines: Seq<Seq<char>>,
    section: Seq<char>,
    updates: Seq<(Seq<char>, Seq<char>)>,
    strict: bool,
)
    requires
        are_in_lines(updates),
        is_in_line(section),
        are_clean(lines, strict),
    ensures
        are_clean(updated_lines(lines, section, updates), strict),
        lines.len() == 0 || is_clean(lines.last(), true) ==> {
            let updated = updated_lines(lines, section, updates);
            updated.len() > 0 ==> is_clean(updated.last(), true)
        },
{
    reveal_strlit("[");
    reveal_strlit("]");
    let state = ini_state(lines, section, updates);
    let updated = updated_lines(lines, section, updates);
    lemma_clean_output(lines, section, updates, strict);
    lemma_clean_missing(updates, state.seen);
    lemma_clean_missing(updates, none_seen(updates.len()));
    let header = "["@ + section + "]"@;
    assert(is_clean(header, true)) by {
        assert forall|i: int| 0 <= i < header.len() implies header[i] != '\n' by {
            if 0 < i < header.len() - 1 {
                assert(section.contains(section[i - 1]));
            }
        }
        assert(header.last() == ']');
    }
    assert(is_clean(Seq::<char>::empty(), true));
    let start = if state.found {
        state.output
    } else {
        spaced(state.output).push(header)
    };
    let missing = if !state.found {
        missing_lines(updates, none_seen(updates.len()))
    } else if state.in_section {
        missing_lines(updates, state.seen)
    } else {
        Seq::empty()
    };
    assert(updated =~= start + missing);
    assert(are_clean(start, strict)) by {
        assert forall|i: int| 0 <= i < start.len() implies is_clean(#[trigger] start[i], strict) by {
            if i < state.output.len() {
                assert(start[i] == state.output[i]);
            }
        }
    }
    assert forall|i: int| 0 <= i < updated.len() implies is_clean(#[trigger] updated[i], strict) by {
        if i < start.len() {
            assert(updated[i] == start[i]);
        } else {
            assert(updated[i] == missing[i - start.len()]);
        }
    }
    if missing.len() > 0 {
        assert(updated.last() == missing[missing.len() - 1]);
    } else if updated.len() > 0 {
        assert(updated.last() == start.last());
    }
}

/// Updating a section of a file a second time changes nothing, and what is read
/// of the updated file are its updated lines, but for an empty one at its end.
pub proof fn law_updated_section_stays(
    contents: Seq<char>,
    section: Seq<char>,
    updates: Seq<(Seq<char>, Seq<char>)>,
)
    requires
        are_plain(updates),
        are_in_lines(updates),
        is_in_line(section),
        contents.len() == 0 || contents.last() != '\r',
    ensures
        ({
            let lines = updated_lines(lines_of(contents), section, updates);
            let updated = laid_out(lines, contents);
            &&& lines_of(updated) == read_back(lines, contents)
            &&& laid_out(updated_lines(lines_of(updated), section, updates), updated) == updated
        }),
{
    let given = lines_of(contents);
    let lines = updated_lines(given, section, updates);
    let strict = !has_part(contents, "\r\n"@);
    lemma_lines_are_lines(contents);
    assert(are_clean(given, strict)) by {
        assert forall|i: int| 0 <= i < given.len() implies is_clean(#[trigger] given[i], strict) by {
            assert(!given[i].contains('\n'));
        }
    }
    lemma_clean_update(given, section, updates, strict);
    lemma_updated_again(given, section, updates);
    let blank = Seq::<char>::empty();
    lemma_blank(updates);
    // There is more than an empty line: the section begins somewhere.
    assert(lines.len() > 0) by {
        if lines.len() == 0 {
            assert(!ini_state(lines, section, updates).found);
        }
    }
    assert(lines.len() > 1 || lines[0].len() > 0) by {
        if lines.len() == 1 && lines[0].len() == 0 {
            assert(lines[0] =~= blank);
            assert(lines =~= Seq::<Seq<char>>::empty().push(blank));
            lemma_pushed_state(Seq::empty(), blank, section, updates);
        }
    }
    assert(fits(lines, contents)) by {
        assert forall|i: int| 0 <= i < lines.len() implies !(#[trigger] lines[i]).contains('\n') by {
            assert(is_clean(lines[i], strict));
        }
        if strict {
            assert forall|i: int| 0 <= i < lines.len() implies !ends_in_return(
                #[trigger] lines[i],
            ) by {
                assert(is_clean(lines[i], strict));
            }
        }
    }
    if !ends_in_break(contents) {
        if contents.len() > 0 {
            lemma_last_line(contents);
            assert(!given[given.len() - 1].contains('\n'));
            assert(is_clean(given.last(), true));
        } else {
            assert(pieces(contents, '\n').last().len() == 0);
            assert(given.len() == 0) by {
                assert(pieces(contents, '\n').len() == 1);
            }
        }
        assert(!ends_in_return(lines.last()));
    }
    lemma_laid_out_again(lines, contents);
    let read = read_back(lines, contents);
    if read != lines {
        assert(lines.last() =~= blank);
        assert(read.push(blank) =~= lines);
        lemma_pushed_state(read, blank, section, updates);
        let state = ini_state(read, section, updates);
        assert(state.output =~= read) by {
            assert(state.output.push(blank) == lines);
            assert(state.output.push(blank).drop_last() == state.output);
        }
        if state.in_section {
            assert(read + missing_lines(updates, state.seen) =~= read);
        }
        assert(updated_lines(read, section, updates) == read);
    }
}

/// An empty line begins no section and gives no key a value.
proof fn lemma_blank(updates: Seq<(Seq<char>, Seq<char>)>)
    ensures
        section_begun(Seq::<char>::empty()) is None,
        updated_by(Seq::<char>::empty(), updates) is None,
{
    let blank = Seq::<char>::empty();
    reveal_strlit("[");
    assert(trimmed(blank) == blank);
    lemma_updated_by(blank, updates);
    assert(parted(blank, '=') is None);
}

} // verus!
