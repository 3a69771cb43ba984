//! The rows for the commands that are stacked in a pane.

use vstd::prelude::*;

use crate::pane::stack::{PaneStackSelection, StackedPane, StackedPaneState};
use crate::pane::TerminalPane;
use crate::text::{decimal, decimal_text, joined, signed_decimal, signed_text};

verus! {

/// What is said of a stacked command.
pub open spec fn status_text(state: StackedPaneState, exit_code: Option<i32>) -> Seq<char> {
    match state {
        StackedPaneState::Starting => "starting"@,
        StackedPaneState::Running => "running"@,
        StackedPaneState::Completed => match exit_code {
            Some(code) => "exit "@ + signed_text(code as int),
            None => "completed"@,
        },
        StackedPaneState::Failed => "failed"@,
    }
}

/// What is said of a stacked command.
pub fn stacked_entry_status(entry: &StackedPane) -> (result: String)
    ensures
        result@ == status_text(entry.state, entry.exit_code),
{
    match entry.state {
        StackedPaneState::Starting => "starting".to_owned(),
        StackedPaneState::Running => "running".to_owned(),
        StackedPaneState::Completed => match entry.exit_code {
            Some(code) => {
                let number = signed_decimal(code);
                joined("exit ", number.as_str())
            },
            None => "completed".to_owned(),
        },
        StackedPaneState::Failed => "failed".to_owned(),
    }
}

/// A row for what a pane can show instead.
#[derive(Debug, PartialEq, Eq)]
pub struct StackedRow {
    pub selection: PaneStackSelection,
    pub command: String,
    pub status: String,
}

/// A row for what a pane can show instead, as it views.
pub ghost struct StackedRowView {
    pub selection: PaneStackSelection,
    pub command: Seq<char>,
    pub status: Seq<char>,
}

impl StackedRow {
    pub open spec fn view(self) -> StackedRowView {
        StackedRowView {
            selection: self.selection,
            command: self.command@,
            status: self.status@,
        }
    }
}

/// Rows as they view.
pub open spec fn rows_view(rows: Seq<StackedRow>) -> Seq<StackedRowView> {
    rows.map_values(|row: StackedRow| row.view())
}

/// The rows for the stacked commands that are not shown.
pub open spec fn entry_rows(entries: Seq<StackedPane>, selected: PaneStackSelection) -> Seq<
    StackedRowView,
>
    decreases entries.len(),
{
    if entries.len() == 0 {
        Seq::empty()
    } else {
        let before = entry_rows(entries.drop_last(), selected);
        let entry = entries.last();
        if selected == PaneStackSelection::Stacked(entry.id) {
            before
        } else {
            before.push(
                StackedRowView {
                    selection: PaneStackSelection::Stacked(entry.id),
                    command: entry.command@,
                    status: status_text(entry.state, entry.exit_code),
                },
            )
        }
    }
}

/// The row for the interactive shell, where it is there and not shown.
pub open spec fn base_row(pane: TerminalPane) -> Seq<StackedRowView> {
    if (!pane.base_exited || pane.exit is Some) && pane.stack.selected
        != PaneStackSelection::Base {
        seq![
            StackedRowView {
                selection: PaneStackSelection::Base,
                command: "Interactive shell"@,
                status: if pane.exit is Some {
                    "failed"@
                } else if pane.base_exited {
                    "exited"@
                } else {
                    "running"@
                },
            },
        ]
    } else {
        Seq::empty()
    }
}

/// The rows for what a pane can show instead of what it shows.
pub fn stacked_rows(pane: &TerminalPane) -> (result: Vec<StackedRow>)
    ensures
        rows_view(result@) == base_row(*pane) + entry_rows(
            pane.stack.entries@,
            pane.stack.selected,
        ),
{
    let mut rows: Vec<StackedRow> = Vec::new();
    let selected_base = pane.stack.selected_is_base();
    if (!pane.base_exited || pane.exit.is_some()) && !selected_base {
        let status = if pane.exit.is_some() {
            "failed"
        } else if pane.base_exited {
            "exited"
        } else {
            "running"
        };
        rows.push(
            StackedRow {
                selection: PaneStackSelection::Base,
                command: "Interactive shell".to_owned(),
                status: status.to_owned(),
            },
        );
    }
    let ghost first = base_row(*pane);
    let ghost all = pane.stack.entries@;
    let mut index: usize = 0;
    proof {
        assert(rows_view(rows@) =~= first);
        assert(all.take(0) == Seq::<StackedPane>::empty());
        assert(first + Seq::<StackedRowView>::empty() =~= first);
    }
    while index < pane.stack.entries.len()
        invariant
            index <= pane.stack.entries@.len(),
            all == pane.stack.entries@,
            rows_view(rows@) == first + entry_rows(all.take(index as int), pane.stack.selected),
        decreases pane.stack.entries@.len() - index,
    {
        let entry = &pane.stack.entries[index];
        proof {
            let longer = all.take(index + 1);
            assert(longer.drop_last() == all.take(index as int));
            assert(longer.last() == all[index as int]);
        }
        let shown = match pane.stack.selected {
            PaneStackSelection::Base => false,
            PaneStackSelection::Stacked(id) => id == entry.id,
        };
        if !shown {
            let ghost before = rows_view(rows@);
            let row = StackedRow {
                selection: PaneStackSelection::Stacked(entry.id),
                command: entry.command.clone(),
                status: stacked_entry_status(entry),
            };
            rows.push(row);
            proof {
                assert(rows_view(rows@) =~= before.push(row.view()));
                assert(rows_view(rows@) =~= first + entry_rows(
                    all.take(index + 1),
                    pane.stack.selected,
                ));
            }
        }
        index = index + 1;
    }
    proof {
        assert(all.take(index as int) == all);
    }
    rows
}

/// What is closed with a row.
#[derive(Clone, Copy, Debug, PartialEq, Eq, Structural)]
pub enum RowClose {
    Pane { tab_id: u64, pane_id: u64 },
    Entry { tab_id: u64, pane_id: u64, entry_id: u64 },
}

/// How a row is named and closed.
#[derive(Debug, PartialEq, Eq)]
pub struct StackedRowControls {
    pub row_id: String,
    pub close_id: String,
    pub close_label: &'static str,
    pub close: RowClose,
}

/// The number that a row goes by within its pane.
pub open spec fn row_number(selection: PaneStackSelection) -> nat {
    match selection {
        PaneStackSelection::Base => 0,
        PaneStackSelection::Stacked(id) => id as nat,
    }
}

/// How a row is named and closed.
pub fn stacked_row_controls(tab_id: u64, pane_id: u64, selection: PaneStackSelection) -> (result:
    StackedRowControls)
    ensures
        result.row_id@ == "stacked-pane-row-"@ + decimal_text(pane_id as nat) + "-"@ + decimal_text(
            row_number(selection),
        ),
        result.close_id@ == "close-stacked-pane-"@ + decimal_text(pane_id as nat) + "-"@
            + decimal_text(row_number(selection)),
        result.close_label@ == match selection {
            PaneStackSelection::Base => "Close pane"@,
            PaneStackSelection::Stacked(_) => "Close stacked command"@,
        },
        result.close == match selection {
            PaneStackSelection::Base => RowClose::Pane { tab_id, pane_id },
            PaneStackSelection::Stacked(entry_id) => RowClose::Entry { tab_id, pane_id, entry_id },
        },
{
    let number: u64 = match selection {
        PaneStackSelection::Base => 0,
        PaneStackSelection::Stacked(id) => id,
    };
    let pane = decimal(pane_id);
    let row = decimal(number);
    let mut row_id = joined("stacked-pane-row-", pane.as_str());
    row_id.push_str("-");
    row_id.push_str(row.as_str());
    let mut close_id = joined("close-stacked-pane-", pane.as_str());
    close_id.push_str("-");
    close_id.push_str(row.as_str());
    let (close_label, close) = match selection {
        PaneStackSelection::Base => ("Close pane", RowClose::Pane { tab_id, pane_id }),
        PaneStackSelection::Stacked(entry_id) => (
            "Close stacked command",
            RowClose::Entry { tab_id, pane_id, entry_id },
        ),
    };
    StackedRowControls { row_id, close_id, close_label, close }
}

proof fn lemma_rows_are_others(entries: Seq<StackedPane>, selected: PaneStackSelection, index: int)
    requires
        0 <= index < entry_rows(entries, selected).len(),
    ensures
        entry_rows(entries, selected)[index].selection != selected,
    decreases entries.len(),
{
    if entries.len() > 0 && index < entry_rows(entries.drop_last(), selected).len() {
        lemma_rows_are_others(entries.drop_last(), selected, index);
    }
}

/// What a pane shows has no row: every row is for something else.
pub proof fn law_rows_are_for_what_is_not_shown(pane: TerminalPane, index: int)
    requires
        0 <= index < (base_row(pane) + entry_rows(pane.stack.entries@, pane.stack.selected)).len(),
    ensures
        (base_row(pane) + entry_rows(pane.stack.entries@, pane.stack.selected))[index].selection
            != pane.stack.selected,
{
    let first = base_row(pane);
    if index >= first.len() {
        lemma_rows_are_others(pane.stack.entries@, pane.stack.selected, index - first.len());
    }
}

} // verus!
