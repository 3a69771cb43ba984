//! Editing the overlay of a tab's panes.

use vstd::prelude::*;

use crate::pane::overlay::{
    is_hex_field, is_preset_for, HslaColor, HsvColor, OverlayFontSize, OverlayOpacity,
    OverlayPickerSection, OverlayStylePicker,
};
use crate::pane::profiles::lemma_same_ids;
use crate::pane::tab::{Tab, TextField};
use crate::pane::TerminalPane;

verus! {

/// A pane with another overlay.
pub open spec fn with_overlay(
    pane: TerminalPane,
    text: Option<String>,
    font_size: Option<OverlayFontSize>,
    opacity: Option<OverlayOpacity>,
    color: Option<HslaColor>,
) -> TerminalPane {
    TerminalPane {
        overlay_text: text,
        overlay_font_size: font_size,
        overlay_opacity: opacity,
        overlay_color: color,
        ..pane
    }
}

/// A pane whose overlay looks otherwise.
pub open spec fn with_style(
    pane: TerminalPane,
    font_size: Option<OverlayFontSize>,
    opacity: Option<OverlayOpacity>,
    color: Option<HslaColor>,
) -> TerminalPane {
    with_overlay(pane, pane.overlay_text, font_size, opacity, color)
}

/// A pane as a picker shows it; `color` is what the picker's colour is drawn
/// as.
pub open spec fn styled_by(
    pane: TerminalPane,
    picker: OverlayStylePicker,
    color: HslaColor,
) -> TerminalPane {
    with_style(
        pane,
        Some(picker.font_size),
        Some(OverlayOpacity::Percent(picker.opacity_percent)),
        Some(color),
    )
}

/// A pane as it was before a picker was opened for it.
pub open spec fn restored_by(pane: TerminalPane, picker: OverlayStylePicker) -> TerminalPane {
    with_style(pane, picker.original_font_size, picker.original_opacity, picker.original_color)
}

/// Whether a tab has another pane in place of one of the same number, and is
/// the same besides.
pub open spec fn pane_replaced(before: Tab, after: Tab, id: u64, pane: TerminalPane) -> bool {
    match before.index_of(id) {
        Some(index) => {
            &&& after == (Tab { panes: after.panes, ..before })
            &&& after.panes@ == before.panes@.update(index, pane)
        },
        None => after == before,
    }
}

/// The pane of a number.
pub open spec fn pane_of(tab: Tab, id: u64) -> TerminalPane {
    tab.panes@[tab.index_of(id)->0]
}

impl Tab {
    /// Gives a pane another overlay, text and style. Returns whether there is
    /// such a pane.
    pub fn set_overlay(
        &mut self,
        pane_id: u64,
        text: Option<String>,
        font_size: Option<OverlayFontSize>,
        opacity: Option<OverlayOpacity>,
        color: Option<HslaColor>,
    ) -> (result: bool)
        requires
            old(self).indexed(),
        ensures
            final(self).indexed(),
            result == old(self).index_of(pane_id) is Some,
            pane_replaced(
                *old(self),
                *final(self),
                pane_id,
                with_overlay(pane_of(*old(self), pane_id), text, font_size, opacity, color),
            ),
    {
        let ghost before = *self;
        let found = match self.pane_mut(pane_id) {
            Some(pane) => {
                pane.overlay_text = text;
                pane.overlay_font_size = font_size;
                pane.overlay_opacity = opacity;
                pane.overlay_color = color;
                true
            },
            None => false,
        };
        proof {
            lemma_same_ids(before, *self);
        }
        found
    }

    /// Gives a pane's overlay another style.
    pub fn set_overlay_style(
        &mut self,
        pane_id: u64,
        font_size: Option<OverlayFontSize>,
        opacity: Option<OverlayOpacity>,
        color: Option<HslaColor>,
    ) -> (result: bool)
        requires
            old(self).indexed(),
        ensures
            final(self).indexed(),
            result == old(self).index_of(pane_id) is Some,
            pane_replaced(
                *old(self),
                *final(self),
                pane_id,
                with_style(pane_of(*old(self), pane_id), font_size, opacity, color),
            ),
    {
        let ghost before = *self;
        let found = match self.pane_mut(pane_id) {
            Some(pane) => {
                pane.overlay_font_size = font_size;
                pane.overlay_opacity = opacity;
                pane.overlay_color = color;
                true
            },
            None => false,
        };
        proof {
            lemma_same_ids(before, *self);
        }
        found
    }

    /// Opens a field for the text of a pane's overlay, all of it selected, and
    /// gives the pane the focus. `marked` is the text with its caret. Returns
    /// whether there is such a pane.
    pub fn begin_overlay_edit(&mut self, pane_id: u64, marked: String) -> (result: bool)
        requires
            old(self).indexed(),
        ensures
            final(self).indexed(),
            result == old(self).index_of(pane_id) is Some,
            !result ==> *final(self) == *old(self),
            result ==> {
                &&& final(self).focus() == old(self).focus().activated(old(self).ids(), pane_id)
                &&& final(self).editing_overlay_pane == Some(pane_id)
                &&& final(self).overlay_buffer matches Some(field) && field.select_all
                    && field.marked == marked && field.text@ == match pane_of(
                    *old(self),
                    pane_id,
                ).overlay_text {
                    Some(text) => text@,
                    None => Seq::empty(),
                }
                &&& final(self).same_besides_focus(
                    Tab {
                        editing_overlay_pane: final(self).editing_overlay_pane,
                        overlay_buffer: final(self).overlay_buffer,
                        ..*old(self)
                    },
                )
            },
    {
        let text = match self.pane(pane_id) {
            Some(pane) => match &pane.overlay_text {
                Some(text) => text.clone(),
                None => String::new(),
            },
            None => {
                return false;
            },
        };
        self.activate_pane(pane_id);
        self.editing_overlay_pane = Some(pane_id);
        self.overlay_buffer = Some(TextField { text, marked, select_all: true });
        true
    }

    /// Opens the style picker for a pane's overlay, with the pane's own style.
    /// `color` and `hex` are the colour that the overlay is drawn in, and
    /// `percent` is its opacity. Returns whether there is such a pane.
    pub fn begin_style_picker(
        &mut self,
        pane_id: u64,
        color: HsvColor,
        hex: String,
        percent: usize,
    ) -> (result: bool)
        requires
            old(self).indexed(),
            is_hex_field(hex@),
            percent <= 100,
        ensures
            final(self).indexed(),
            result == old(self).index_of(pane_id) is Some,
            !result ==> *final(self) == *old(self),
            result ==> {
                &&& final(self).overlay_style_picker matches Some(picker) && {
                    let pane = pane_of(*old(self), pane_id);
                    &&& picker == (OverlayStylePicker {
                        pane_id,
                        section: OverlayPickerSection::FontSize,
                        font_size: match pane.overlay_font_size {
                            Some(font_size) => font_size,
                            None => OverlayFontSize::ExtraLarge,
                        },
                        original_font_size: pane.overlay_font_size,
                        color,
                        original_color: pane.overlay_color,
                        preset_index: picker.preset_index,
                        opacity_percent: percent,
                        original_opacity: pane.overlay_opacity,
                        hex_buffer: hex,
                    })
                    &&& picker.wf()
                    &&& is_preset_for(hex@, picker.preset_index as int)
                }
                &&& *final(self) == (Tab {
                    overlay_style_picker: final(self).overlay_style_picker,
                    ..*old(self)
                })
                &&& picker_opened(*old(self), *final(self), pane_id)
            },
    {
        let (original_font_size, original_color, original_opacity) = match self.pane(pane_id) {
            Some(pane) => (pane.overlay_font_size, pane.overlay_color, pane.overlay_opacity),
            None => {
                return false;
            },
        };
        let font_size = match original_font_size {
            Some(font_size) => font_size,
            None => OverlayFontSize::default_size(),
        };
        let preset_index = OverlayStylePicker::preset_index_for_color(hex.as_str());
        self.overlay_style_picker = Some(
            OverlayStylePicker {
                pane_id,
                section: OverlayPickerSection::FontSize,
                font_size,
                original_font_size,
                color,
                original_color,
                preset_index,
                opacity_percent: percent,
                original_opacity,
                hex_buffer: hex,
            },
        );
        true
    }

    /// Shows the picker's style on its pane. `color` is what the picker's
    /// colour is drawn as. Returns whether a picker is open.
    pub fn preview_style(&mut self, color: HslaColor) -> (result: bool)
        requires
            old(self).indexed(),
        ensures
            final(self).indexed(),
            result == old(self).overlay_style_picker is Some,
            match old(self).overlay_style_picker {
                Some(picker) => pane_replaced(
                    *old(self),
                    *final(self),
                    picker.pane_id,
                    styled_by(pane_of(*old(self), picker.pane_id), picker, color),
                ) && picker_step(*old(self), *final(self)),
                None => *final(self) == *old(self),
            },
    {
        let (pane_id, font_size, percent) = match &self.overlay_style_picker {
            Some(picker) => (picker.pane_id, picker.font_size, picker.opacity_percent),
            None => {
                return false;
            },
        };
        self.set_overlay_style(
            pane_id,
            Some(font_size),
            Some(OverlayOpacity::Percent(percent)),
            Some(color),
        );
        true
    }

    /// Closes the picker and leaves its style on its pane. Returns whether one
    /// was open.
    pub fn apply_style_picker(&mut self, color: HslaColor) -> (result: bool)
        requires
            old(self).indexed(),
        ensures
            final(self).indexed(),
            result == old(self).overlay_style_picker is Some,
            match old(self).overlay_style_picker {
                Some(picker) => pane_replaced(
                    Tab { overlay_style_picker: None, ..*old(self) },
                    *final(self),
                    picker.pane_id,
                    styled_by(pane_of(*old(self), picker.pane_id), picker, color),
                ),
                None => *final(self) == *old(self),
            },
    {
        match self.overlay_style_picker.take() {
            Some(picker) => {
                self.set_overlay_style(
                    picker.pane_id,
                    Some(picker.font_size),
                    Some(OverlayOpacity::Percent(picker.opacity_percent)),
                    Some(color),
                );
                true
            },
            None => false,
        }
    }

    /// Closes the picker and gives its pane the style back that it had before.
    /// Returns whether one was open.
    pub fn cancel_style_picker(&mut self) -> (result: bool)
        requires
            old(self).indexed(),
        ensures
            final(self).indexed(),
            result == old(self).overlay_style_picker is Some,
            match old(self).overlay_style_picker {
                Some(_) => picker_cancelled(*old(self), *final(self)),
                None => *final(self) == *old(self),
            },
    {
        match self.overlay_style_picker.take() {
            Some(picker) => {
                self.set_overlay_style(
                    picker.pane_id,
                    picker.original_font_size,
                    picker.original_opacity,
                    picker.original_color,
                );
                true
            },
            None => false,
        }
    }

    /// Takes the text of a pane's overlay over, and closes its field.
    pub fn commit_overlay_text(&mut self, pane_id: u64, text: Option<String>)
        requires
            old(self).indexed(),
        ensures
            final(self).indexed(),
            pane_replaced(
                Tab { overlay_buffer: None, ..*old(self) },
                *final(self),
                pane_id,
                TerminalPane { overlay_text: text, ..pane_of(*old(self), pane_id) },
            ),
    {
        self.overlay_buffer = None;
        let ghost before = *self;
        if let Some(pane) = self.pane_mut(pane_id) {
            pane.overlay_text = text;
        }
        proof {
            lemma_same_ids(before, *self);
        }
    }
}

/// Whether two panes are the same but for how their overlays look.
pub open spec fn same_besides_style(before: TerminalPane, after: TerminalPane) -> bool {
    after == with_style(
        before,
        after.overlay_font_size,
        after.overlay_opacity,
        after.overlay_color,
    )
}

/// Whether a tab is the same but for what its picker holds and for how the
/// overlay of the picker's pane looks. The picker is still that of the pane, and
/// still knows how the overlay looked before.
pub open spec fn picker_step(before: Tab, after: Tab) -> bool {
    &&& before.overlay_style_picker is Some
    &&& after.overlay_style_picker is Some
    &&& ({
        let picker = before.overlay_style_picker->0;
        let next = after.overlay_style_picker->0;
        &&& next.pane_id == picker.pane_id
        &&& next.original_font_size == picker.original_font_size
        &&& next.original_color == picker.original_color
        &&& next.original_opacity == picker.original_opacity
        &&& after == (Tab {
            overlay_style_picker: after.overlay_style_picker,
            panes: after.panes,
            ..before
        })
        &&& after.panes@.len() == before.panes@.len()
        &&& forall|i: int|
            0 <= i < before.panes@.len() ==> if before.index_of(picker.pane_id) == Some(i) {
                same_besides_style(before.panes@[i], #[trigger] after.panes@[i])
            } else {
                after.panes@[i] == before.panes@[i]
            }
    })
}

/// Whether the picker of a tab was just opened for a pane.
pub open spec fn picker_opened(before: Tab, opened: Tab, pane_id: u64) -> bool {
    &&& before.index_of(pane_id) is Some
    &&& opened == (Tab { overlay_style_picker: opened.overlay_style_picker, ..before })
    &&& opened.overlay_style_picker matches Some(picker) && {
        let pane = pane_of(before, pane_id);
        &&& picker.pane_id == pane_id
        &&& picker.original_font_size == pane.overlay_font_size
        &&& picker.original_color == pane.overlay_color
        &&& picker.original_opacity == pane.overlay_opacity
    }
}

/// Whether the picker of a tab was closed and its pane looks as before.
pub open spec fn picker_cancelled(before: Tab, after: Tab) -> bool {
    before.overlay_style_picker matches Some(picker) && pane_replaced(
        Tab { overlay_style_picker: None, ..before },
        after,
        picker.pane_id,
        restored_by(pane_of(before, picker.pane_id), picker),
    )
}

proof fn lemma_picker_steps(history: Seq<Tab>, last: int)
    requires
        0 <= last < history.len(),
        history[0].overlay_style_picker is Some,
        forall|i: int| 0 <= i < history.len() - 1 ==> picker_step(#[trigger] history[i], history[i + 1]),
    ensures
        picker_step(history[0], history[last]),
    decreases last,
{
    if last > 0 {
        lemma_picker_steps(history, last - 1);
        assert(picker_step(history[last - 1], history[last - 1 + 1]));
    }
}

/// Cancelling a picker undoes whatever was done with it: every pane, and the
/// whole tab, is as it was before the picker was opened. `history` holds the tab
/// as the picker was opened, and after each of any number of changes that were
/// made with it.
pub proof fn law_cancelling_restores_the_style(
    before: Tab,
    pane_id: u64,
    history: Seq<Tab>,
    after: Tab,
)
    requires
        before.indexed(),
        history.len() > 0,
        picker_opened(before, history[0], pane_id),
        forall|i: int| 0 <= i < history.len() - 1 ==> picker_step(#[trigger] history[i], history[i + 1]),
        picker_cancelled(history.last(), after),
    ensures
        after.panes@ == before.panes@,
        after == (Tab { overlay_style_picker: None, panes: after.panes, ..before }),
{
    let last = history.last();
    lemma_picker_steps(history, history.len() - 1);
    let index = before.index_of(pane_id)->0;
    assert(before.pane_indices@.contains_key(pane_id));
    assert(0 <= index < before.panes@.len());
    assert(last.index_of(pane_id) == Some(index));
    assert(same_besides_style(history[0].panes@[index], last.panes@[index]));
    assert(after.panes@[index] == before.panes@[index]);
    assert(after.panes@ =~= before.panes@);
}

} // verus!
