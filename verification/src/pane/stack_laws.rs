//! What holds of the entries that share a pane's place, and of renumbered panes.

use vstd::prelude::*;

use crate::pane::{
    counted_directory, counted_report, first_entry_viewed, handles, is_tracked_shell_name,
    reported_wsl_directory, template_named, without_final_breaks, PaneSplitTemplateConfig,
    ReportedDirectory, TerminalPane,
};
use crate::pane::renumbering::{
    entries_before, ids_needed, panes_renumbered, renamed_id, renamed_list, stack_renumbered,
};
use crate::pane::stack::{
    cycled, cycled_entry, lemma_first_index, neighbour, selected_after_base, selected_among,
    selected_without, selects_among, PaneStack, PaneStackSelection, StackedPane,
};
use crate::profile::{Profile, Shell};
use crate::text::{decimal_text, lowered};

verus! {

/// Going forward through a stack leads from the pane's own terminal to the first
/// entry, from each entry to the next, and from the last back to the pane's own;
/// going backward leads the other way.
pub proof fn law_stack_is_gone_through_in_order(ids: Seq<u64>, at: int)
    requires
        0 <= at < ids.len(),
        ids.no_duplicates(),
    ensures
        cycled(ids, PaneStackSelection::Base, true) == PaneStackSelection::Stacked(ids[0]),
        cycled(ids, PaneStackSelection::Base, false) == PaneStackSelection::Stacked(ids.last()),
        cycled(ids, PaneStackSelection::Stacked(ids[at]), true) == if at + 1 < ids.len() {
            PaneStackSelection::Stacked(ids[at + 1])
        } else {
            PaneStackSelection::Base
        },
        cycled(ids, PaneStackSelection::Stacked(ids[at]), false) == if at > 0 {
            PaneStackSelection::Stacked(ids[at - 1])
        } else {
            PaneStackSelection::Base
        },
{
    lemma_first_index(ids, ids[at], at);
    assert(ids.contains(ids[at]));
    let count = ids.len() as int + 1;
    lemma_around(0, count);
    lemma_around(at + 1, count);
}

/// Where the pane's own terminal is gone, going through a stack leads from each
/// entry to the next, and from the last to the first.
pub proof fn law_entries_are_gone_through_in_order(ids: Seq<u64>, at: int)
    requires
        0 <= at < ids.len(),
        ids.no_duplicates(),
    ensures
        cycled_entry(ids, PaneStackSelection::Stacked(ids[at]), true) == if at + 1 < ids.len() {
            ids[at + 1]
        } else {
            ids[0]
        },
        cycled_entry(ids, PaneStackSelection::Stacked(ids[at]), false) == if at > 0 {
            ids[at - 1]
        } else {
            ids.last()
        },
        cycled_entry(ids, PaneStackSelection::Base, true) == ids[0],
        cycled_entry(ids, PaneStackSelection::Base, false) == ids.last(),
{
    lemma_first_index(ids, ids[at], at);
    assert(ids.contains(ids[at]));
    lemma_around(at, ids.len() as int);
}

proof fn lemma_around(at: int, count: int)
    requires
        0 <= at < count,
    ensures
        (at + 1) % count == if at + 1 == count {
            0
        } else {
            at + 1
        },
        (at - 1) % count == if at == 0 {
            count - 1
        } else {
            at - 1
        },
{
    assert((at + 1) % count == if at + 1 == count {
        0
    } else {
        at + 1
    }) by (nonlinear_arith)
        requires
            0 <= at < count,
    ;
    assert((at - 1) % count == if at == 0 {
        count - 1
    } else {
        at - 1
    }) by (nonlinear_arith)
        requires
            0 <= at < count,
    ;
}

/// Where the selected entry leaves, the one behind it is selected, else the one
/// before it, else the pane's own terminal.
pub proof fn law_neighbour_takes_the_place(ids: Seq<u64>, at: int)
    requires
        0 <= at < ids.len(),
    ensures
        at + 1 < ids.len() ==> neighbour(ids.remove(at), at) == PaneStackSelection::Stacked(
            ids[at + 1],
        ),
        at + 1 == ids.len() && at > 0 ==> neighbour(ids.remove(at), at)
            == PaneStackSelection::Stacked(ids[at - 1]),
        ids.len() == 1 ==> neighbour(ids.remove(at), at) == PaneStackSelection::Base,
{
}

/// What a pane shows is its own where its own terminal is selected, and the selected
/// entry's otherwise.
pub proof fn law_selected_entry_is_shown(
    stack: PaneStack,
    at: int,
    base: Option<u64>,
    of: spec_fn(StackedPane) -> Option<u64>,
)
    requires
        0 <= at < stack.entries@.len(),
        stack.ids().no_duplicates(),
    ensures
        ({
            let own = PaneStack { selected: PaneStackSelection::Base, ..stack };
            let entry = PaneStack {
                selected: PaneStackSelection::Stacked(stack.entries@[at].id),
                ..stack
            };
            own.shown(base, of) == base && entry.shown(base, of) == of(stack.entries@[at])
        }),
{
    let ids = stack.ids();
    assert(ids[at] == stack.entries@[at].id);
    lemma_first_index(ids, ids[at], at);
    assert(ids.contains(ids[at]));
}

/// A pane's terminals are its own and then those of its entries, in their order.
pub proof fn law_terminals_stand_in_order(
    base: Option<u64>,
    entries: Seq<StackedPane>,
    of: spec_fn(StackedPane) -> Option<u64>,
    entry: StackedPane,
    handle: u64,
)
    ensures
        handles(base, entries.push(entry), of) == match of(entry) {
            Some(last) => handles(base, entries, of).push(last),
            None => handles(base, entries, of),
        },
        base matches Some(own) ==> handles(base, entries, of).len() > 0 && handles(
            base,
            entries,
            of,
        )[0] == own,
        handles(base, entries, of).contains(handle) == (base == Some(handle) || exists|i: int|
            0 <= i < entries.len() && of(#[trigger] entries[i]) == Some(handle)),
    decreases entries.len(),
{
    assert(entries.push(entry).drop_last() =~= entries);
    let all = handles(base, entries, of);
    if entries.len() == 0 {
        if let Some(own) = base {
            assert(all =~= seq![own]);
            assert(all[0] == own);
        }
    } else {
        let shorter = entries.drop_last();
        law_terminals_stand_in_order(base, shorter, of, entry, handle);
        let before = handles(base, shorter, of);
        let last = entries.len() - 1;
        assert(entries[last] == entries.last());
        assert forall|i: int| 0 <= i < shorter.len() implies #[trigger] entries[i]
            == shorter[i] by {}
        if let Some(end) = of(entries.last()) {
            assert(all == before.push(end));
            assert(all[before.len() as int] == end);
            if before.contains(handle) {
                let i = choose|i: int| 0 <= i < before.len() && before[i] == handle;
                assert(all[i] == handle);
            }
            if all.contains(handle) && end != handle {
                let i = choose|i: int| 0 <= i < all.len() && all[i] == handle;
                assert(before[i] == handle);
            }
        }
        if exists|i: int| 0 <= i < shorter.len() && of(#[trigger] shorter[i]) == Some(handle) {
            let i = choose|i: int|
                0 <= i < shorter.len() && of(#[trigger] shorter[i]) == Some(handle);
            assert(of(entries[i]) == Some(handle));
        }
        if exists|i: int| 0 <= i < entries.len() && of(#[trigger] entries[i]) == Some(handle) {
            let i = choose|i: int|
                0 <= i < entries.len() && of(#[trigger] entries[i]) == Some(handle);
            if i < last {
                assert(of(shorter[i]) == Some(handle));
            }
        }
    }
}

/// The entry that a focused view leads to shows that view, and none before it does.
pub proof fn law_focused_entry_shows_the_view(entries: Seq<StackedPane>, view: u64)
    ensures
        match first_entry_viewed(entries, Some(view)) {
            Some(at) => 0 <= at < entries.len() && entries[at].view == Some(view) && forall|i: int|
                0 <= i < at ==> (#[trigger] entries[i]).view != Some(view),
            None => forall|i: int|
                0 <= i < entries.len() ==> (#[trigger] entries[i]).view != Some(view),
        },
        first_entry_viewed(entries, None) is None,
    decreases entries.len(),
{
    if entries.len() > 0 {
        let rest = entries.drop_first();
        law_focused_entry_shows_the_view(rest, view);
        assert(entries.first() == entries[0]);
        assert forall|i: int| 1 <= i < entries.len() implies #[trigger] entries[i] == rest[i
            - 1] by {}
        if entries[0].view != Some(view) {
            if let Some(at) = first_entry_viewed(rest, Some(view)) {
                assert(entries[at + 1] == rest[at]);
            }
        }
    }
}

/// A template is found by its name, and the first of a name is the one.
pub proof fn law_template_is_found_by_name<Leaf>(
    templates: Seq<PaneSplitTemplateConfig<Leaf>>,
    at: int,
)
    requires
        0 <= at < templates.len(),
        forall|i: int| 0 <= i < at ==> (#[trigger] templates[i]).name@ != templates[at].name@,
    ensures
        template_named(templates, templates[at].name@) == Some(templates[at].layout),
    decreases templates.len(),
{
    assert(templates.first() == templates[0]);
    if at > 0 {
        let rest = templates.drop_first();
        assert(rest[at - 1] == templates[at]);
        assert forall|i: int| 0 <= i < at - 1 implies (#[trigger] rest[i]).name@ != rest[at
            - 1].name@ by {
            assert(rest[i] == templates[i + 1]);
        }
        law_template_is_found_by_name(rest, at - 1);
    }
}

/// A pane has the label that it was given, else the one that was made for it, else
/// its number.
pub proof fn law_given_label_is_shown(pane: TerminalPane, label: String)
    ensures
        ({
            let given = TerminalPane { custom_label: Some(label), ..pane };
            given.label_text() == label@
        }),
        ({
            let made = TerminalPane { custom_label: None, generated_label: Some(label), ..pane };
            made.label_text() == label@
        }),
        ({
            let plain = TerminalPane { custom_label: None, generated_label: None, ..pane };
            plain.label_text() == "Pane "@ + decimal_text(pane.label_number as nat)
        }),
{
}

/// A directory that a shell of the subsystem writes with a line break is read as it
/// is, and what is read is always an absolute path on one line.
pub proof fn law_reported_directory_reads_back(directory: Seq<char>, contents: Seq<char>)
    ensures
        directory.len() > 0 && directory[0] == '/' && !directory.contains('\r')
            && !directory.contains('\n') && !directory.contains('\0') ==> {
            &&& reported_wsl_directory(directory) == Some(directory)
            &&& reported_wsl_directory(directory + seq!['\n']) == Some(directory)
            &&& reported_wsl_directory(directory + seq!['\r', '\n']) == Some(directory)
        },
        reported_wsl_directory(contents) matches Some(read) ==> read.len() > 0 && read[0] == '/'
            && !read.contains('\n') && !read.contains('\0') && read.len() <= contents.len()
            && contents.take(read.len() as int) == read,
{
    if directory.len() > 0 && directory[0] == '/' && !directory.contains('\r')
        && !directory.contains('\n') && !directory.contains('\0') {
        assert(directory.contains(directory[directory.len() - 1]));
        assert(directory.first() == directory[0]);
        reveal_with_fuel(without_final_breaks, 3);
        let short = directory + seq!['\n'];
        let long = directory + seq!['\r', '\n'];
        assert(short.last() == '\n' && short.drop_last() =~= directory);
        assert(long.last() == '\n' && long.drop_last().last() == '\r');
        assert(long.drop_last().drop_last() =~= directory);
    }
    lemma_breaks_are_at_the_end(contents);
}

proof fn lemma_breaks_are_at_the_end(text: Seq<char>)
    ensures
        without_final_breaks(text).len() <= text.len(),
        text.take(without_final_breaks(text).len() as int) == without_final_breaks(text),
    decreases text.len(),
{
    if text.len() > 0 && (text.last() == '\r' || text.last() == '\n') {
        let shorter = text.drop_last();
        lemma_breaks_are_at_the_end(shorter);
        let count = without_final_breaks(text).len() as int;
        assert(text.take(count) =~= shorter.take(count));
    } else {
        assert(text.take(text.len() as int) =~= text);
    }
}

/// A shell's program is known in whatever case, with its extension as without it.
pub proof fn law_shell_names_are_known_in_any_case(name: Seq<char>, other: Seq<char>)
    requires
        lowered(name) == lowered(other),
    ensures
        is_tracked_shell_name(name) == is_tracked_shell_name(other),
        is_tracked_shell_name("cmd"@) && is_tracked_shell_name("cmd.exe"@),
        is_tracked_shell_name("pwsh"@) && is_tracked_shell_name("pwsh.exe"@),
        is_tracked_shell_name("powershell"@) && is_tracked_shell_name("powershell.exe"@),
{
}

proof fn lemma_entries_add_up(panes: Seq<TerminalPane>, from: int, to: int)
    requires
        0 <= from < to <= panes.len(),
    ensures
        0 <= entries_before(panes, from),
        entries_before(panes, from) + panes[from].stack.entries@.len() <= entries_before(panes, to),
    decreases to,
{
    lemma_entries_counted(panes, from);
    if to == from + 1 {
    } else {
        lemma_entries_add_up(panes, from, to - 1);
    }
}

proof fn lemma_entries_counted(panes: Seq<TerminalPane>, count: int)
    requires
        count <= panes.len(),
    ensures
        0 <= entries_before(panes, count),
    decreases count,
{
    if count > 0 {
        lemma_entries_counted(panes, count - 1);
    }
}

/// Renumbered panes and entries have ids that are all different, all from the first
/// free one on and within the count that is taken; and a pane and its entries keep
/// what else they have.
pub proof fn law_renumbered_ids_are_distinct(
    before: Seq<TerminalPane>,
    after: Seq<TerminalPane>,
    start: int,
    one: int,
    other: int,
    in_one: int,
    in_other: int,
)
    requires
        panes_renumbered(before, after, start),
        0 <= start,
        start + ids_needed(before) <= u64::MAX,
        0 <= one < after.len(),
        0 <= other < after.len(),
        0 <= in_one < after[one].stack.entries@.len(),
        0 <= in_other < after[other].stack.entries@.len(),
    ensures
        start <= after[one].id < start + ids_needed(before),
        start <= after[one].stack.entries@[in_one].id < start + ids_needed(before),
        one != other ==> after[one].id != after[other].id,
        after[one].id != after[other].stack.entries@[in_other].id,
        (one, in_one) != (other, in_other) ==> after[one].stack.entries@[in_one].id
            != after[other].stack.entries@[in_other].id,
        after[one].routing_id == before[one].routing_id,
        after[one].terminal == before[one].terminal,
        after[one].stack.entries@[in_one].terminal == before[one].stack.entries@[in_one].terminal,
        after[one].stack.entries@[in_one].routing_id
            == before[one].stack.entries@[in_one].routing_id,
{
    let count = before.len() as int;
    lemma_entries_add_up(before, one, count);
    lemma_entries_add_up(before, other, count);
    if one < other {
        lemma_entries_add_up(before, one, other);
    } else if other < one {
        lemma_entries_add_up(before, other, one);
    }
    assert(stack_renumbered(
        before[one].stack,
        after[one].stack,
        start + count + entries_before(before, one),
    ));
    assert(stack_renumbered(
        before[other].stack,
        after[other].stack,
        start + count + entries_before(before, other),
    ));
    assert(after[one].stack.entries@[in_one].id == start + count + entries_before(before, one)
        + in_one);
    assert(after[other].stack.entries@[in_other].id == start + count + entries_before(before, other)
        + in_other);
}

/// A list of known ids is renamed id by id, in its order.
pub proof fn law_renamed_list_keeps_its_order(list: Seq<u64>, map: Map<u64, u64>)
    requires
        forall|i: int| 0 <= i < list.len() ==> map.contains_key(#[trigger] list[i]),
    ensures
        renamed_list(list, map).len() == list.len(),
        forall|i: int|
            0 <= i < list.len() ==> #[trigger] renamed_list(list, map)[i] == map[list[i]],
    decreases list.len(),
{
    if list.len() > 0 {
        let shorter = list.drop_last();
        assert forall|i: int| 0 <= i < shorter.len() implies map.contains_key(
            #[trigger] shorter[i],
        ) by {
            assert(shorter[i] == list[i]);
        }
        law_renamed_list_keeps_its_order(shorter, map);
        assert(list[list.len() - 1] == list.last());
        assert forall|i: int| 0 <= i < list.len() implies #[trigger] renamed_list(list, map)[i]
            == map[list[i]] by {
            if i < shorter.len() {
                assert(renamed_list(shorter, map)[i] == map[shorter[i]]);
            }
        }
    }
}

/// A renamed id is the one it is renamed to, and one that is not known is dropped.
pub proof fn law_renamed_id_is_the_new_one(id: u64, map: Map<u64, u64>)
    ensures
        map.contains_key(id) ==> renamed_id(Some(id), map) == Some(map[id]),
        !map.contains_key(id) ==> renamed_id(Some(id), map) is None,
        renamed_id(None, map) is None,
{
}

/// A new pane has its id, which is also the one it is reached by, and its profile, and
/// nothing of what panes get later.
pub proof fn law_new_pane_is_bare(pane: TerminalPane, id: u64, profile: Profile)
    requires
        pane.is_new(id, profile),
    ensures
        pane.id == id,
        pane.routing_id == id,
        pane.profile == profile,
        pane.terminal is None && pane.view is None && pane.error is None && pane.exit is None,
        pane.theme_override is None && pane.overlay_text is None && pane.custom_label is None,
        pane.stack.entries@.len() == 0 && pane.stack.selected is Base,
        pane.label_text() == "Pane "@ + decimal_text(0),
        pane.terminals() == Seq::<u64>::empty(),
{
}

/// A directory that a native shell reports counts where it is absolute, and one that a
/// shell of another layer reports counts as the host names it.
pub proof fn law_reported_directories_count(path: String, native: Option<String>)
    ensures
        counted_report(None) is None,
        counted_report(Some(ReportedDirectory::Native { path, is_absolute: true })) == Some(path),
        counted_report(Some(ReportedDirectory::Native { path, is_absolute: false })) is None,
        counted_report(Some(ReportedDirectory::PosixLayer { native })) == native,
{
}

/// A shell's program is the program that it starts, with arguments or without.
pub proof fn law_program_is_the_shells(program: String, args: Vec<String>, title: Option<String>)
    ensures
        Shell::System(program).program_text() == program@,
        Shell::Program(program).program_text() == program@,
        ({
            let shell = Shell::WithArguments { program, args, title_override: title };
            shell.program_text() == program@
        }),
{
}

/// A directory that was reported counts wherever it is preferred or the process in front
/// is not the shell; else the shell's own counts; and one that is not the shell's is
/// marked so.
pub proof fn law_directory_is_the_shells(
    reported: String,
    process: String,
    process_is_shell: bool,
    prefer_reported: bool,
)
    ensures
        counted_directory(Some(reported), Some(process), process_is_shell, true) == Some(
            (reported, true),
        ),
        counted_directory(Some(reported), Some(process), false, prefer_reported) == Some(
            (reported, true),
        ),
        counted_directory(Some(reported), Some(process), true, false) == Some((process, true)),
        counted_directory(Some(reported), None, process_is_shell, prefer_reported) == Some(
            (reported, true),
        ),
        counted_directory(None, Some(process), false, prefer_reported) == Some((process, false)),
        counted_directory(None, Some(process), true, prefer_reported) == Some((process, true)),
        counted_directory(None, None, process_is_shell, prefer_reported) is None,
{
}

/// What is selected in a stack stays so as long as it is there: when another entry
/// leaves, when the pane's own terminal ends, and when the stack is put right; and what
/// is selected after each is there.
pub proof fn law_selection_stays_while_it_is_there(
    ids: Seq<u64>,
    at: int,
    selected: PaneStackSelection,
    other: u64,
)
    requires
        0 <= at < ids.len(),
        ids.no_duplicates(),
    ensures
        ({
            let rest = ids.remove(at);
            let after = selected_without(rest, at, ids[at], selected);
            &&& other != ids[at] && ids.contains(other) && selected == PaneStackSelection::Stacked(
                other,
            ) ==> after == selected
            &&& selected == PaneStackSelection::Base ==> after == PaneStackSelection::Base
            &&& selected == PaneStackSelection::Stacked(ids[at]) && at + 1 < ids.len() ==> after
                == PaneStackSelection::Stacked(ids[at + 1])
            &&& selected == PaneStackSelection::Stacked(ids[at]) && ids.len() == 1 ==> after
                == PaneStackSelection::Base
            &&& selects_among(rest, after)
        }),
        ids.contains(other) ==> selected_after_base(ids, PaneStackSelection::Stacked(other))
            == PaneStackSelection::Stacked(other),
        selected_after_base(ids, PaneStackSelection::Base) == PaneStackSelection::Stacked(ids[0]),
        selects_among(ids, selected) ==> selected_among(ids, selected) == selected,
        !ids.contains(other) ==> selected_among(ids, PaneStackSelection::Stacked(other))
            == PaneStackSelection::Stacked(ids.last()),
        selects_among(ids, selected_among(ids, selected)),
        selected_after_base(Seq::empty(), selected) == PaneStackSelection::Base,
{
    let rest = ids.remove(at);
    if ids.contains(other) && other != ids[at] {
        let i = choose|i: int| 0 <= i < ids.len() && ids[i] == other;
        if i < at {
            assert(rest[i] == other);
        } else {
            assert(rest[i - 1] == other);
        }
        assert(rest.contains(other));
    }
    law_neighbour_takes_the_place(ids, at);
    if rest.len() > 0 {
        if at < rest.len() {
            assert(rest.contains(rest[at]));
        }
        assert(rest[rest.len() - 1] == rest.last());
        assert(rest.contains(rest.last()));
    }
    assert(ids[ids.len() - 1] == ids.last());
    assert(ids.contains(ids.last()));
}

} // verus!
