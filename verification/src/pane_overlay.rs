//! The overlay of the active tab's panes.

use vstd::prelude::*;

use crate::pane::overlay::{
    clamped, color_of_digits, hex_field_typed, hex_digit, is_hex_digit, is_hex_field,
    is_preset_for, preset_hex, preset_moved, HslaColor, HsvColor, OverlayColorPreset, OverlayFontSize, OverlayOpacity,
    OverlayPickerSection, OverlayStylePicker, RgbaColor, OVERLAY_COLOR_PRESET_COLUMNS,
    OVERLAY_COLOR_PRESET_COUNT,
};
use crate::pane::overlay_editing::{
    pane_of, pane_replaced, picker_cancelled, picker_opened, picker_step, styled_by, with_overlay,
};
use crate::pane::tab::Tab;
use crate::pane::TerminalPane;
use crate::text::{characters, decimal, decimal_text, joined, same_ignoring_case};
use crate::zetta::{lemma_still_indexed, WindowEffect, Zetta};

pub mod laws;

verus! {

/// Whether a tab's picker is the given one, and the tab is the same besides.
pub open spec fn picker_replaced(before: Tab, after: Tab, picker: OverlayStylePicker) -> bool {
    after == (Tab { overlay_style_picker: Some(picker), ..before })
}

/// Whether a picker is that of the same pane, and knows the same look from
/// before.
pub open spec fn is_next(picker: OverlayStylePicker, next: OverlayStylePicker) -> bool {
    &&& next.pane_id == picker.pane_id
    &&& next.original_font_size == picker.original_font_size
    &&& next.original_color == picker.original_color
    &&& next.original_opacity == picker.original_opacity
}

/// Whether a tab's picker is the given one and is shown on its pane.
pub open spec fn picker_shown(
    before: Tab,
    after: Tab,
    picker: OverlayStylePicker,
    color: HslaColor,
) -> bool {
    pane_replaced(
        Tab { overlay_style_picker: Some(picker), ..before },
        after,
        picker.pane_id,
        styled_by(pane_of(before, picker.pane_id), picker, color),
    )
}

/// A window in which a field for the text of a pane's overlay was opened in the
/// active tab, all of it selected, and the pane has the focus; or the same window
/// where there is no such pane. `marked` is the text with its caret.
pub open spec fn overlay_edit_begun(
    before: Zetta,
    after: Zetta,
    pane_id: u64,
    marked: String,
    effect: WindowEffect,
) -> bool {
    if before.has_active() && before.active().index_of(pane_id) is Some {
        let tab = before.active();
        let edited = after.active();
        &&& effect == WindowEffect::FocusField
        &&& after.only_active_differs(before)
        &&& edited.focus() == tab.focus().activated(tab.ids(), pane_id)
        &&& edited.editing_overlay_pane == Some(pane_id)
        &&& edited.overlay_buffer matches Some(field) && field.select_all && field.marked == marked
            && field.text@ == match pane_of(tab, pane_id).overlay_text {
            Some(text) => text@,
            None => Seq::empty(),
        }
        &&& edited.panes == tab.panes
        &&& edited.same_besides_focus(
            Tab {
                editing_overlay_pane: edited.editing_overlay_pane,
                overlay_buffer: edited.overlay_buffer,
                ..tab
            },
        )
    } else {
        &&& effect == WindowEffect::Nothing
        &&& after.same_window(before)
    }
}

/// Whether a tab's picker holds another text in the field of its colour, and
/// takes the colour and shows it on its pane where the text is a whole one.
pub open spec fn key_taken(
    before: Tab,
    after: Tab,
    picker: OverlayStylePicker,
    hex_buffer: String,
    whole: bool,
    color: HsvColor,
    shown: HslaColor,
) -> bool {
    if whole {
        picker_shown(before, after, OverlayStylePicker { color, hex_buffer, ..picker }, shown)
    } else {
        picker_replaced(before, after, OverlayStylePicker { hex_buffer, ..picker })
    }
}

fn is_single(field: &str) -> (result: bool)
    ensures
        result == (field@.len() <= 1),
{
    characters(field).len() <= 1
}

/// A key for the field of the picker's colour.
#[derive(Clone, Copy, Debug, PartialEq, Eq, Structural)]
pub enum HexKey {
    Digit(char),
    Backspace,
}

impl Zetta {
    /// Whether nothing differs.
    pub open spec fn same_window(self, before: Zetta) -> bool {
        self == (Zetta { tabs: self.tabs, ..before }) && self.tabs@ == before.tabs@
    }

    /// Whether the picker of an overlay's style is open in the active tab.
    pub open spec fn is_picking(self) -> bool {
        self.has_active() && self.active().overlay_style_picker is Some
    }

    /// The picker that is open in the active tab.
    pub open spec fn picker(self) -> OverlayStylePicker {
        self.active().overlay_style_picker->0
    }

    /// Opens a field for the text of the active pane's overlay. `marked` is the
    /// text with its caret.
    pub fn set_pane_overlay(&mut self, marked: String) -> (result: WindowEffect)
        requires
            old(self).wf(),
        ensures
            final(self).wf(),
            overlay_edit_begun(
                *old(self),
                *final(self),
                old(self).active().active_pane,
                marked,
                result,
            ),
    {
        if self.active_tab >= self.tabs.len() {
            return WindowEffect::Nothing;
        }
        let pane_id = self.tabs[self.active_tab].active_pane;
        self.begin_pane_overlay_edit(pane_id, marked)
    }

    /// Opens a field for the text of a pane's overlay, and gives the pane the
    /// focus. `marked` is the text with its caret.
    pub fn begin_pane_overlay_edit(&mut self, pane_id: u64, marked: String) -> (result: WindowEffect)
        requires
            old(self).wf(),
        ensures
            final(self).wf(),
            overlay_edit_begun(*old(self), *final(self), pane_id, marked, result),
    {
        if self.active_tab >= self.tabs.len() {
            return WindowEffect::Nothing;
        }
        let ghost tabs = self.tabs@;
        let index = self.active_tab;
        let found = self.tabs[index].begin_overlay_edit(pane_id, marked);
        proof {
            lemma_still_indexed(tabs, index as int, self.tabs@[index as int]);
            assert(self.tabs@ =~= tabs.update(index as int, self.tabs@[index as int]));
            if !found {
                assert(self.tabs@ =~= tabs);
            }
        }
        if found {
            WindowEffect::FocusField
        } else {
            WindowEffect::Nothing
        }
    }

    /// Sets the active pane's overlay text and style directly. The configuration
    /// is never touched, so the overlay is lost when the pane closes or the
    /// configuration reloads. `None` for the text clears the overlay. Every call fully replaces the previous text and
    /// style rather than merging with it. Returns whether there is such a pane.
    pub fn set_active_pane_overlay(
        &mut self,
        text: Option<String>,
        font_size: Option<OverlayFontSize>,
        opacity: Option<OverlayOpacity>,
        color: Option<HslaColor>,
    ) -> (result: bool)
        requires
            old(self).wf(),
        ensures
            final(self).wf(),
            result == (old(self).has_active() && old(self).active().index_of(
                old(self).active().active_pane,
            ) is Some),
            !result ==> final(self).same_window(*old(self)),
            result ==> final(self).only_active_differs(*old(self)) && pane_replaced(
                old(self).active(),
                final(self).active(),
                old(self).active().active_pane,
                with_overlay(
                    pane_of(old(self).active(), old(self).active().active_pane),
                    text,
                    font_size,
                    opacity,
                    color,
                ),
            ),
    {
        if self.active_tab >= self.tabs.len() {
            return false;
        }
        let ghost tabs = self.tabs@;
        let index = self.active_tab;
        let pane_id = self.tabs[index].active_pane;
        let found = self.tabs[index].set_overlay(pane_id, text, font_size, opacity, color);
        proof {
            lemma_still_indexed(tabs, index as int, self.tabs@[index as int]);
            assert(self.tabs@ =~= tabs.update(index as int, self.tabs@[index as int]));
            if !found {
                assert(self.tabs@ =~= tabs);
            }
        }
        found
    }

    /// Clears the active pane's overlay.
    pub fn reset_pane_overlay(&mut self) -> (result: WindowEffect)
        requires
            old(self).wf(),
        ensures
            final(self).wf(),
            result == if old(self).has_active() && old(self).active().index_of(
                old(self).active().active_pane,
            ) is Some {
                WindowEffect::Redraw
            } else {
                WindowEffect::Nothing
            },
            result == WindowEffect::Nothing ==> final(self).same_window(*old(self)),
            result == WindowEffect::Redraw ==> final(self).only_active_differs(*old(self))
                && pane_replaced(
                old(self).active(),
                final(self).active(),
                old(self).active().active_pane,
                with_overlay(
                    pane_of(old(self).active(), old(self).active().active_pane),
                    None,
                    None,
                    None,
                    None,
                ),
            ),
    {
        if self.set_active_pane_overlay(None, None, None, None) {
            WindowEffect::Redraw
        } else {
            WindowEffect::Nothing
        }
    }

    /// Whether the picker of an overlay's style is open in the active tab.
    pub fn is_picking_overlay_style(&self) -> (result: bool)
        ensures
            result == self.is_picking(),
    {
        self.active_tab < self.tabs.len() && self.tabs[
            self.active_tab
        ].overlay_style_picker.is_some()
    }

    /// Opens the picker of an overlay's style for a pane, with the pane's own
    /// style. `color` and `hex` are the colour that the overlay is drawn in,
    /// `percent` is its opacity. Everything is shown on the pane as it is
    /// picked; nothing is kept until the picker is applied.
    pub fn begin_overlay_style_picker(
        &mut self,
        pane_id: u64,
        color: HsvColor,
        hex: String,
        percent: usize,
    ) -> (result: WindowEffect)
        requires
            old(self).wf(),
            is_hex_field(hex@),
            percent <= 100,
        ensures
            final(self).wf(),
            result == if old(self).has_active() && old(self).active().index_of(pane_id) is Some {
                WindowEffect::FocusStylePicker
            } else {
                WindowEffect::Nothing
            },
            result == WindowEffect::Nothing ==> final(self).same_window(*old(self)),
            result == WindowEffect::FocusStylePicker ==> {
                let pane = pane_of(old(self).active(), pane_id);
                &&& final(self).only_active_differs(*old(self))
                &&& final(self).is_picking()
                &&& picker_replaced(
                    old(self).active(),
                    final(self).active(),
                    final(self).picker(),
                )
                &&& final(self).picker() == (OverlayStylePicker {
                    pane_id,
                    section: OverlayPickerSection::FontSize,
                    font_size: match pane.overlay_font_size {
                        Some(font_size) => font_size,
                        None => OverlayFontSize::ExtraLarge,
                    },
                    original_font_size: pane.overlay_font_size,
                    color,
                    original_color: pane.overlay_color,
                    preset_index: final(self).picker().preset_index,
                    opacity_percent: percent,
                    original_opacity: pane.overlay_opacity,
                    hex_buffer: hex,
                })
                &&& is_preset_for(hex@, final(self).picker().preset_index as int)
                &&& picker_opened(old(self).active(), final(self).active(), pane_id)
                &&& final(self).picker().wf()
            },
    {
        if self.active_tab >= self.tabs.len() {
            return WindowEffect::Nothing;
        }
        let ghost tabs = self.tabs@;
        let index = self.active_tab;
        let found = self.tabs[index].begin_style_picker(pane_id, color, hex, percent);
        proof {
            lemma_still_indexed(tabs, index as int, self.tabs@[index as int]);
            assert(self.tabs@ =~= tabs.update(index as int, self.tabs@[index as int]));
            if !found {
                assert(self.tabs@ =~= tabs);
            }
        }
        if found {
            WindowEffect::FocusStylePicker
        } else {
            WindowEffect::Nothing
        }
    }

    /// Shows the picker's style on its pane. `color` is what the picker's
    /// colour is drawn as.
    pub fn preview_overlay_style(&mut self, color: HslaColor) -> (result: WindowEffect)
        requires
            old(self).wf(),
        ensures
            final(self).wf(),
            old(self).is_picking() ==> picker_step(old(self).active(), final(self).active()),
            if old(self).is_picking() {
                &&& result == WindowEffect::Redraw
                &&& final(self).only_active_differs(*old(self))
                &&& picker_shown(
                    old(self).active(),
                    final(self).active(),
                    old(self).picker(),
                    color,
                )
            } else {
                result == WindowEffect::Nothing && final(self).same_window(*old(self))
            },
    {
        if self.active_tab >= self.tabs.len() {
            return WindowEffect::Nothing;
        }
        let ghost tabs = self.tabs@;
        let index = self.active_tab;
        let shown = self.tabs[index].preview_style(color);
        proof {
            lemma_still_indexed(tabs, index as int, self.tabs@[index as int]);
            assert(self.tabs@ =~= tabs.update(index as int, self.tabs@[index as int]));
            if !shown {
                assert(self.tabs@ =~= tabs);
            } else {
                let before = tabs[index as int];
                let picker = before.overlay_style_picker->0;
                assert(before == (Tab { overlay_style_picker: Some(picker), ..before }));
            }
        }
        if shown {
            WindowEffect::Redraw
        } else {
            WindowEffect::Nothing
        }
    }

    fn replace_picker(&mut self, picker: OverlayStylePicker)
        requires
            old(self).wf(),
            old(self).is_picking(),
            is_next(old(self).picker(), picker),
        ensures
            final(self).wf(),
            picker_step(old(self).active(), final(self).active()),
            final(self).only_active_differs(*old(self)),
            picker_replaced(old(self).active(), final(self).active(), picker),
    {
        let ghost tabs = self.tabs@;
        let index = self.active_tab;
        self.tabs[index].overlay_style_picker = Some(picker);
        proof {
            assert(tabs[index as int].indexed());
            assert(self.tabs@[index as int].indexed());
            lemma_still_indexed(tabs, index as int, self.tabs@[index as int]);
            assert(self.tabs@ =~= tabs.update(index as int, self.tabs@[index as int]));
        }
    }

    fn take_picker(&self) -> (result: Option<OverlayStylePicker>)
        ensures
            match result {
                Some(picker) => self.is_picking() && picker == self.picker(),
                None => !self.is_picking(),
            },
    {
        if self.active_tab >= self.tabs.len() {
            return None;
        }
        match &self.tabs[self.active_tab].overlay_style_picker {
            Some(picker) => Some(
                OverlayStylePicker {
                    pane_id: picker.pane_id,
                    section: picker.section,
                    font_size: picker.font_size,
                    original_font_size: picker.original_font_size,
                    color: picker.color,
                    original_color: picker.original_color,
                    preset_index: picker.preset_index,
                    opacity_percent: picker.opacity_percent,
                    original_opacity: picker.original_opacity,
                    hex_buffer: picker.hex_buffer.clone(),
                },
            ),
            None => None,
        }
    }

    fn show_picker(&mut self, picker: OverlayStylePicker, color: HslaColor) -> (result: WindowEffect)
        requires
            old(self).wf(),
            old(self).is_picking(),
            is_next(old(self).picker(), picker),
        ensures
            final(self).wf(),
            picker_step(old(self).active(), final(self).active()),
            result == WindowEffect::Redraw,
            final(self).only_active_differs(*old(self)),
            picker_shown(old(self).active(), final(self).active(), picker, color),
    {
        let ghost before = *self;
        self.replace_picker(picker);
        let ghost replaced = *self;
        let effect = self.preview_overlay_style(color);
        proof {
            assert(self.tabs@ =~= before.tabs@.update(before.active_tab as int, self.active()));
            assert(replaced.active().index_of(picker.pane_id) == before.active().index_of(
                picker.pane_id,
            ));
        }
        effect
    }

    /// Sets which of the picker's sections the keyboard adjusts.
    pub fn set_overlay_picker_section(&mut self, section: OverlayPickerSection) -> (result: WindowEffect)
        requires
            old(self).wf(),
        ensures
            final(self).wf(),
            old(self).is_picking() ==> picker_step(old(self).active(), final(self).active()),
            if old(self).is_picking() && old(self).picker().section != section {
                &&& result == WindowEffect::Redraw
                &&& final(self).only_active_differs(*old(self))
                &&& picker_replaced(
                    old(self).active(),
                    final(self).active(),
                    OverlayStylePicker { section, ..old(self).picker() },
                )
            } else {
                result == WindowEffect::Nothing && *final(self) == *old(self)
            },
    {
        let picker = match self.take_picker() {
            Some(picker) => picker,
            None => {
                return WindowEffect::Nothing;
            },
        };
        if picker.section == section {
            return WindowEffect::Nothing;
        }
        self.replace_picker(OverlayStylePicker { section, ..picker });
        WindowEffect::Redraw
    }

    /// Moves the keyboard through the picker's sections by some steps.
    pub fn adjust_overlay_picker_section(&mut self, delta: isize) -> (result: WindowEffect)
        requires
            old(self).wf(),
            delta <= isize::MAX - 6,
        ensures
            final(self).wf(),
            old(self).is_picking() ==> picker_step(old(self).active(), final(self).active()),
            if old(self).is_picking() {
                if (old(self).picker().section.rank() + delta) % 4
                    == old(self).picker().section.rank() {
                    result == WindowEffect::Nothing && *final(self) == *old(self)
                } else {
                    &&& result == WindowEffect::Redraw
                    &&& final(self).only_active_differs(*old(self))
                    &&& final(self).is_picking()
                    &&& final(self).picker().section.rank() == (old(
                        self,
                    ).picker().section.rank() + delta) % 4
                    &&& picker_replaced(
                        old(self).active(),
                        final(self).active(),
                        OverlayStylePicker {
                            section: final(self).picker().section,
                            ..old(self).picker()
                        },
                    )
                }
            } else {
                result == WindowEffect::Nothing && *final(self) == *old(self)
            },
    {
        let picker = match self.take_picker() {
            Some(picker) => picker,
            None => {
                return WindowEffect::Nothing;
            },
        };
        let next = picker.section.step(delta);
        proof {
            assert(next == picker.section <==> next.rank() == picker.section.rank());
        }
        if picker.section == next {
            return WindowEffect::Nothing;
        }
        self.replace_picker(OverlayStylePicker { section: next, ..picker });
        WindowEffect::Redraw
    }

    /// Picks a font size and shows it on the pane.
    pub fn set_overlay_font_size(&mut self, font_size: OverlayFontSize, color: HslaColor) -> (result:
        WindowEffect)
        requires
            old(self).wf(),
        ensures
            final(self).wf(),
            old(self).is_picking() ==> picker_step(old(self).active(), final(self).active()),
            if old(self).is_picking() && old(self).picker().font_size != font_size {
                &&& result == WindowEffect::Redraw
                &&& final(self).only_active_differs(*old(self))
                &&& picker_shown(
                    old(self).active(),
                    final(self).active(),
                    OverlayStylePicker { font_size, ..old(self).picker() },
                    color,
                )
            } else {
                result == WindowEffect::Nothing && *final(self) == *old(self)
            },
    {
        let picker = match self.take_picker() {
            Some(picker) => picker,
            None => {
                return WindowEffect::Nothing;
            },
        };
        if picker.font_size == font_size {
            return WindowEffect::Nothing;
        }
        self.show_picker(OverlayStylePicker { font_size, ..picker }, color)
    }

    /// Moves the font size by some sizes, around the ends.
    pub fn adjust_overlay_font_size(&mut self, delta: isize, color: HslaColor) -> (result: WindowEffect)
        requires
            old(self).wf(),
            delta <= isize::MAX - 6,
        ensures
            final(self).wf(),
            old(self).is_picking() ==> picker_step(old(self).active(), final(self).active()),
            if old(self).is_picking() {
                if (old(self).picker().font_size.rank() + delta) % 6
                    == old(self).picker().font_size.rank() {
                    result == WindowEffect::Nothing && *final(self) == *old(self)
                } else {
                    &&& result == WindowEffect::Redraw
                    &&& final(self).only_active_differs(*old(self))
                    &&& exists|font_size: OverlayFontSize|
                        #[trigger] font_size.rank() == (old(self).picker().font_size.rank() + delta)
                            % 6 && picker_shown(
                            old(self).active(),
                            final(self).active(),
                            OverlayStylePicker { font_size, ..old(self).picker() },
                            color,
                        )
                }
            } else {
                result == WindowEffect::Nothing && *final(self) == *old(self)
            },
    {
        let next = match self.take_picker() {
            Some(picker) => picker.font_size.step(delta),
            None => {
                return WindowEffect::Nothing;
            },
        };
        proof {
            assert(next == self.picker().font_size <==> next.rank()
                == self.picker().font_size.rank());
        }
        self.set_overlay_font_size(next, color)
    }

    /// Picks a colour and shows it on the pane, unless it is the picked one.
    /// `hex` spells the colour, `shown` is what it is drawn as.
    pub fn set_overlay_color_hsv(
        &mut self,
        color: HsvColor,
        hex: String,
        shown: HslaColor,
        unchanged: bool,
    ) -> (result: WindowEffect)
        requires
            old(self).wf(),
            is_hex_field(hex@),
        ensures
            final(self).wf(),
            old(self).is_picking() ==> picker_step(old(self).active(), final(self).active()),
            if old(self).is_picking() && !unchanged {
                &&& result == WindowEffect::Redraw
                &&& final(self).only_active_differs(*old(self))
                &&& picker_shown(
                    old(self).active(),
                    final(self).active(),
                    OverlayStylePicker { color, hex_buffer: hex, ..old(self).picker() },
                    shown,
                )
            } else {
                result == WindowEffect::Nothing && *final(self) == *old(self)
            },
    {
        let mut picker = match self.take_picker() {
            Some(picker) => picker,
            None => {
                return WindowEffect::Nothing;
            },
        };
        if unchanged {
            return WindowEffect::Nothing;
        }
        picker.set_color(color, hex);
        self.show_picker(picker, shown)
    }

    /// Picks a named colour and shows it on the pane.
    pub fn set_overlay_color_preset(
        &mut self,
        index: usize,
        color: HsvColor,
        hex: String,
        shown: HslaColor,
    ) -> (result: WindowEffect)
        requires
            old(self).wf(),
            index < OVERLAY_COLOR_PRESET_COUNT,
            is_hex_field(hex@),
        ensures
            final(self).wf(),
            old(self).is_picking() ==> picker_step(old(self).active(), final(self).active()),
            if old(self).is_picking() {
                &&& result == WindowEffect::Redraw
                &&& final(self).only_active_differs(*old(self))
                &&& picker_shown(
                    old(self).active(),
                    final(self).active(),
                    OverlayStylePicker {
                        color,
                        hex_buffer: hex,
                        preset_index: index,
                        ..old(self).picker()
                    },
                    shown,
                )
            } else {
                result == WindowEffect::Nothing && *final(self) == *old(self)
            },
    {
        let mut picker = match self.take_picker() {
            Some(picker) => picker,
            None => {
                return WindowEffect::Nothing;
            },
        };
        picker.set_color_preset(index, color, hex);
        self.show_picker(picker, shown)
    }

    /// Puts the keyboard on a named colour, or on the last one where there are
    /// not as many. Gives the colour that is picked with it, where a picker is
    /// open.
    pub fn set_overlay_color_preset_index(&mut self, index: usize) -> (result: Option<usize>)
        requires
            old(self).wf(),
        ensures
            final(self).wf(),
            old(self).is_picking() ==> picker_step(old(self).active(), final(self).active()),
            if old(self).is_picking() {
                let preset_index = clamped(
                    index as int,
                    0,
                    OVERLAY_COLOR_PRESET_COUNT - 1,
                ) as usize;
                &&& result == Some(preset_index)
                &&& final(self).only_active_differs(*old(self))
                &&& picker_replaced(
                    old(self).active(),
                    final(self).active(),
                    OverlayStylePicker { preset_index, ..old(self).picker() },
                )
            } else {
                result is None && *final(self) == *old(self)
            },
    {
        let mut picker = match self.take_picker() {
            Some(picker) => picker,
            None => {
                return None;
            },
        };
        picker.set_preset_index(index);
        let preset_index = picker.preset_index;
        self.replace_picker(picker);
        Some(preset_index)
    }

    /// Moves the keyboard among the named colours. Gives the colour that is
    /// picked with it, where it moved.
    pub fn adjust_overlay_color_preset(&mut self, row_delta: isize, column_delta: isize) -> (result:
        Option<usize>)
        requires
            old(self).wf(),
            row_delta <= isize::MAX - OVERLAY_COLOR_PRESET_COUNT,
            column_delta <= isize::MAX - OVERLAY_COLOR_PRESET_COUNT,
        ensures
            final(self).wf(),
            old(self).is_picking() ==> picker_step(old(self).active(), final(self).active()),
            if old(self).is_picking() {
                let moved = preset_moved(
                    old(self).picker().preset_index as int,
                    row_delta as int,
                    column_delta as int,
                ) as usize;
                &&& final(self).only_active_differs(*old(self))
                &&& picker_replaced(
                    old(self).active(),
                    final(self).active(),
                    OverlayStylePicker { preset_index: moved, ..old(self).picker() },
                )
                &&& result == if moved != old(self).picker().preset_index {
                    Some(moved)
                } else {
                    None
                }
            } else {
                result is None && *final(self) == *old(self)
            },
    {
        let mut picker = match self.take_picker() {
            Some(picker) => picker,
            None => {
                return None;
            },
        };
        let changed = picker.move_preset_cursor(row_delta, column_delta);
        let preset_index = picker.preset_index;
        self.replace_picker(picker);
        if changed {
            Some(preset_index)
        } else {
            None
        }
    }

    /// The colour that the field of the picker's colour holds once a key was
    /// typed into it, where it holds a whole one then.
    pub open spec fn color_after_key(self, key: HexKey) -> Option<RgbaColor> {
        if !self.is_picking() {
            None
        } else {
            let field = self.picker().hex_buffer@;
            match key {
                HexKey::Digit(ch) => {
                    let typed = hex_field_typed(field, ch);
                    if is_hex_digit(ch) && (typed.len() == 4 || typed.len() == 7) {
                        color_of_digits(typed.skip(1))
                    } else {
                        None
                    }
                },
                HexKey::Backspace => if field.len() > 1 {
                    color_of_digits(field.drop_last().skip(1))
                } else {
                    None
                },
            }
        }
    }

    /// The colour that the field of the picker's colour will hold once a key is
    /// typed into it. Nothing is typed yet.
    pub fn overlay_color_after_key(&self, key: HexKey) -> (result: Option<RgbaColor>)
        requires
            self.is_picking() ==> self.picker().wf(),
        ensures
            result == self.color_after_key(key),
    {
        let mut picker = match self.take_picker() {
            Some(picker) => picker,
            None => {
                return None;
            },
        };
        match key {
            HexKey::Digit(ch) => picker.hex_input(ch),
            HexKey::Backspace => picker.hex_backspace(),
        }
    }

    /// Types a digit into the field of the colour. Gives the colour once the
    /// field holds a whole one, and shows it on the pane: `color` and `shown` are
    /// what it comes to.
    pub fn overlay_hex_input(&mut self, ch: char, color: HsvColor, shown: HslaColor) -> (result:
        Option<RgbaColor>)
        requires
            old(self).wf(),
            old(self).is_picking() ==> old(self).picker().wf(),
        ensures
            final(self).wf(),
            old(self).is_picking() ==> picker_step(old(self).active(), final(self).active()),
            if old(self).is_picking() && is_hex_digit(ch) {
                let typed = hex_field_typed(old(self).picker().hex_buffer@, ch);
                &&& final(self).is_picking()
                &&& final(self).picker().wf()
                &&& final(self).picker().hex_buffer@ == typed
                &&& final(self).only_active_differs(*old(self))
                &&& (result is Some) == (typed.len() == 4 || typed.len() == 7)
                &&& result is Some ==> result == color_of_digits(typed.skip(1))
                &&& key_taken(
                    old(self).active(),
                    final(self).active(),
                    old(self).picker(),
                    final(self).picker().hex_buffer,
                    result is Some,
                    color,
                    shown,
                )
            } else {
                result is None && *final(self) == *old(self)
            },
    {
        let mut picker = match self.take_picker() {
            Some(picker) => picker,
            None => {
                return None;
            },
        };
        if hex_digit(ch).is_none() {
            return None;
        }
        let whole = picker.hex_input(ch);
        self.take_key(picker, whole, color, shown);
        whole
    }

    fn take_key(
        &mut self,
        picker: OverlayStylePicker,
        whole: Option<RgbaColor>,
        color: HsvColor,
        shown: HslaColor,
    )
        requires
            old(self).wf(),
            old(self).is_picking(),
            picker == (OverlayStylePicker {
                hex_buffer: picker.hex_buffer,
                ..old(self).picker()
            }),
        ensures
            final(self).wf(),
            picker_step(old(self).active(), final(self).active()),
            final(self).is_picking(),
            final(self).picker().hex_buffer == picker.hex_buffer,
            final(self).only_active_differs(*old(self)),
            key_taken(
                old(self).active(),
                final(self).active(),
                old(self).picker(),
                picker.hex_buffer,
                whole is Some,
                color,
                shown,
            ),
    {
        let mut picker = picker;
        if whole.is_some() {
            picker.apply_typed_color(color);
            self.show_picker(picker, shown);
        } else {
            self.replace_picker(picker);
        }
    }

    /// Takes back the last digit of the field of the colour. Gives the colour
    /// where the field holds a whole one then, and shows it on the pane: `color`
    /// and `shown` are what it comes to.
    pub fn overlay_hex_backspace(&mut self, color: HsvColor, shown: HslaColor) -> (result: Option<
        RgbaColor,
    >)
        requires
            old(self).wf(),
            old(self).is_picking() ==> old(self).picker().wf(),
        ensures
            final(self).wf(),
            old(self).is_picking() ==> picker_step(old(self).active(), final(self).active()),
            if old(self).is_picking() && old(self).picker().hex_buffer@.len() > 1 {
                let rest = old(self).picker().hex_buffer@.drop_last();
                &&& final(self).is_picking()
                &&& final(self).picker().wf()
                &&& final(self).picker().hex_buffer@ == rest
                &&& final(self).only_active_differs(*old(self))
                &&& result == color_of_digits(rest.skip(1))
                &&& key_taken(
                    old(self).active(),
                    final(self).active(),
                    old(self).picker(),
                    final(self).picker().hex_buffer,
                    result is Some,
                    color,
                    shown,
                )
            } else {
                result is None && *final(self) == *old(self)
            },
    {
        let mut picker = match self.take_picker() {
            Some(picker) => picker,
            None => {
                return None;
            },
        };
        if is_single(picker.hex_buffer.as_str()) {
            return None;
        }
        let whole = picker.hex_backspace();
        self.take_key(picker, whole, color, shown);
        whole
    }

    /// Picks an opacity and shows it on the pane.
    pub fn set_overlay_opacity_percent(&mut self, percent: usize, color: HslaColor) -> (result:
        WindowEffect)
        requires
            old(self).wf(),
        ensures
            final(self).wf(),
            old(self).is_picking() ==> picker_step(old(self).active(), final(self).active()),
            ({
                let opacity_percent = clamped(percent as int, 0, 100) as usize;
                if old(self).is_picking() && old(self).picker().opacity_percent
                    != opacity_percent {
                    &&& result == WindowEffect::Redraw
                    &&& final(self).only_active_differs(*old(self))
                    &&& picker_shown(
                        old(self).active(),
                        final(self).active(),
                        OverlayStylePicker { opacity_percent, ..old(self).picker() },
                        color,
                    )
                } else {
                    result == WindowEffect::Nothing && *final(self) == *old(self)
                }
            }),
    {
        let picker = match self.take_picker() {
            Some(picker) => picker,
            None => {
                return WindowEffect::Nothing;
            },
        };
        let opacity_percent: usize = if percent > 100 {
            100
        } else {
            percent
        };
        if picker.opacity_percent == opacity_percent {
            return WindowEffect::Nothing;
        }
        self.show_picker(OverlayStylePicker { opacity_percent, ..picker }, color)
    }

    /// Moves the picked opacity by some percent, and shows it on the pane.
    pub fn adjust_overlay_opacity_percent(&mut self, delta: isize, color: HslaColor) -> (result:
        WindowEffect)
        requires
            old(self).wf(),
            old(self).is_picking() ==> old(self).picker().wf(),
            delta <= isize::MAX - 100,
        ensures
            final(self).wf(),
            old(self).is_picking() ==> picker_step(old(self).active(), final(self).active()),
            if old(self).is_picking() {
                let opacity_percent = clamped(
                    old(self).picker().opacity_percent + delta,
                    0,
                    100,
                ) as usize;
                if old(self).picker().opacity_percent != opacity_percent {
                    &&& result == WindowEffect::Redraw
                    &&& final(self).only_active_differs(*old(self))
                    &&& picker_shown(
                        old(self).active(),
                        final(self).active(),
                        OverlayStylePicker { opacity_percent, ..old(self).picker() },
                        color,
                    )
                } else {
                    result == WindowEffect::Nothing && *final(self) == *old(self)
                }
            } else {
                result == WindowEffect::Nothing && *final(self) == *old(self)
            },
    {
        let percent: usize = match self.take_picker() {
            Some(picker) => {
                let moved: isize = picker.opacity_percent as isize + delta;
                if moved < 0 {
                    0
                } else if moved > 100 {
                    100
                } else {
                    moved as usize
                }
            },
            None => {
                return WindowEffect::Nothing;
            },
        };
        self.set_overlay_opacity_percent(percent, color)
    }

    /// Keeps the picker's style on its pane, and closes the picker.
    pub fn apply_overlay_style_picker(&mut self, color: HslaColor) -> (result: WindowEffect)
        requires
            old(self).wf(),
        ensures
            final(self).wf(),
            if old(self).is_picking() {
                &&& result == WindowEffect::FocusActive
                &&& final(self).only_active_differs(*old(self))
                &&& pane_replaced(
                    Tab { overlay_style_picker: None, ..old(self).active() },
                    final(self).active(),
                    old(self).picker().pane_id,
                    styled_by(
                        pane_of(old(self).active(), old(self).picker().pane_id),
                        old(self).picker(),
                        color,
                    ),
                )
            } else {
                result == WindowEffect::Nothing && final(self).same_window(*old(self))
            },
    {
        if self.active_tab >= self.tabs.len() {
            return WindowEffect::Nothing;
        }
        let ghost tabs = self.tabs@;
        let index = self.active_tab;
        let applied = self.tabs[index].apply_style_picker(color);
        proof {
            lemma_still_indexed(tabs, index as int, self.tabs@[index as int]);
            assert(self.tabs@ =~= tabs.update(index as int, self.tabs@[index as int]));
            if !applied {
                assert(self.tabs@ =~= tabs);
            }
        }
        if applied {
            WindowEffect::FocusActive
        } else {
            WindowEffect::Nothing
        }
    }

    /// Closes the picker, and gives the pane the style back that it had before.
    pub fn cancel_overlay_style_picker(&mut self) -> (result: WindowEffect)
        requires
            old(self).wf(),
        ensures
            final(self).wf(),
            if old(self).is_picking() {
                &&& result == WindowEffect::FocusActive
                &&& final(self).only_active_differs(*old(self))
                &&& !final(self).is_picking()
                &&& picker_cancelled(old(self).active(), final(self).active())
            } else {
                result == WindowEffect::Nothing && final(self).same_window(*old(self))
            },
    {
        if self.active_tab >= self.tabs.len() {
            return WindowEffect::Nothing;
        }
        let ghost tabs = self.tabs@;
        let index = self.active_tab;
        let cancelled = self.tabs[index].cancel_style_picker();
        proof {
            lemma_still_indexed(tabs, index as int, self.tabs@[index as int]);
            assert(self.tabs@ =~= tabs.update(index as int, self.tabs@[index as int]));
            if !cancelled {
                assert(self.tabs@ =~= tabs);
            }
        }
        if cancelled {
            WindowEffect::FocusActive
        } else {
            WindowEffect::Nothing
        }
    }

    /// Takes the text of a pane's overlay over. Returns whether the style is
    /// picked next: not where the text was empty and the overlay is cleared.
    pub fn commit_overlay_text_then_pick_style(&mut self, pane_id: u64, text: Option<String>) -> (result:
        bool)
        requires
            old(self).wf(),
        ensures
            final(self).wf(),
            result == text is Some,
            if old(self).has_active() {
                &&& final(self).only_active_differs(*old(self))
                &&& pane_replaced(
                    Tab { overlay_buffer: None, ..old(self).active() },
                    final(self).active(),
                    pane_id,
                    TerminalPane { overlay_text: text, ..pane_of(old(self).active(), pane_id) },
                )
            } else {
                *final(self) == *old(self)
            },
    {
        let has_text = text.is_some();
        if self.active_tab < self.tabs.len() {
            let ghost tabs = self.tabs@;
            let index = self.active_tab;
            self.tabs[index].commit_overlay_text(pane_id, text);
            proof {
                lemma_still_indexed(tabs, index as int, self.tabs@[index as int]);
                assert(self.tabs@ =~= tabs.update(index as int, self.tabs@[index as int]));
            }
        }
        has_text
    }
}

/// The keys that a section of the picker answers to.
pub open spec fn hint_text(section: OverlayPickerSection) -> Seq<char> {
    match section {
        OverlayPickerSection::FontSize =>
        "← → size · Home/End ends · Tab switch · Enter apply · Esc cancel"@,
        OverlayPickerSection::Color =>
        "← → saturation · ↑↓ brightness · ⇧←→ hue · type hex · Tab switch · Enter apply · Esc cancel"@,
        OverlayPickerSection::ColorPresets =>
        "← →/↑↓ move · Home/End ends · Tab switch · Enter apply · Esc cancel"@,
        OverlayPickerSection::Opacity =>
        "← → opacity · Home/End ends · Tab switch · Enter apply · Esc cancel"@,
    }
}

/// The keys that a section of the picker answers to.
pub fn overlay_picker_hint(section: OverlayPickerSection) -> (result: &'static str)
    ensures
        result@ == hint_text(section),
{
    match section {
        OverlayPickerSection::FontSize =>
        "← → size · Home/End ends · Tab switch · Enter apply · Esc cancel",
        OverlayPickerSection::Color =>
        "← → saturation · ↑↓ brightness · ⇧←→ hue · type hex · Tab switch · Enter apply · Esc cancel",
        OverlayPickerSection::ColorPresets =>
        "← →/↑↓ move · Home/End ends · Tab switch · Enter apply · Esc cancel",
        OverlayPickerSection::Opacity =>
        "← → opacity · Home/End ends · Tab switch · Enter apply · Esc cancel",
    }
}

/// What applying the picker would set, in one line.
pub open spec fn summary_text(picker: OverlayStylePicker) -> Seq<char> {
    picker.font_size.spelling() + " · "@ + picker.hex_buffer@ + " · "@ + decimal_text(
        picker.opacity_percent as nat,
    ) + "%"@
}

/// What applying the picker would set, in one line.
pub fn overlay_picker_summary(picker: &OverlayStylePicker) -> (result: String)
    ensures
        result@ == summary_text(*picker),
{
    let percent = decimal(picker.opacity_percent as u64);
    let mut summary = joined(picker.font_size.cli_name(), " · ");
    summary.push_str(picker.hex_buffer.as_str());
    summary.push_str(" · ");
    summary.push_str(percent.as_str());
    summary.push_str("%");
    summary
}

/// A named colour in the picker's grid.
#[derive(Clone, Copy, Debug, PartialEq, Eq, Structural)]
pub struct PresetCell {
    pub index: usize,
    /// Whether the picked colour is this one.
    pub selected: bool,
    /// Whether the keyboard is on it.
    pub focused: bool,
}

/// A named colour in the picker's grid.
pub open spec fn preset_cell(
    index: int,
    section: OverlayPickerSection,
    selected: Option<usize>,
    focused: usize,
) -> PresetCell {
    PresetCell {
        index: index as usize,
        selected: selected == Some(index as usize),
        focused: section == OverlayPickerSection::ColorPresets && focused == index,
    }
}

/// The named colours in rows. Selected and focused are different things: a
/// colour is selected when it is the picked one, and focused when the keyboard
/// is on it.
pub fn overlay_color_presets(
    section: OverlayPickerSection,
    selected: Option<usize>,
    focused: usize,
) -> (result: Vec<Vec<PresetCell>>)
    ensures
        result@.len() * OVERLAY_COLOR_PRESET_COLUMNS == OVERLAY_COLOR_PRESET_COUNT,
        forall|row: int, column: int|
            0 <= row < result@.len() && 0 <= column < OVERLAY_COLOR_PRESET_COLUMNS
                ==> #[trigger] result@[row]@[column] == preset_cell(
                row * OVERLAY_COLOR_PRESET_COLUMNS + column,
                section,
                selected,
                focused,
            ),
        forall|row: int|
            0 <= row < result@.len() ==> (#[trigger] result@[row])@.len()
                == OVERLAY_COLOR_PRESET_COLUMNS,
{
    let mut rows: Vec<Vec<PresetCell>> = Vec::new();
    let mut start: usize = 0;
    while start < OVERLAY_COLOR_PRESET_COUNT
        invariant
            start <= OVERLAY_COLOR_PRESET_COUNT,
            start == rows@.len() * OVERLAY_COLOR_PRESET_COLUMNS,
            forall|row: int, column: int|
                0 <= row < rows@.len() && 0 <= column < OVERLAY_COLOR_PRESET_COLUMNS
                    ==> #[trigger] rows@[row]@[column] == preset_cell(
                    row * OVERLAY_COLOR_PRESET_COLUMNS + column,
                    section,
                    selected,
                    focused,
                ),
            forall|row: int|
                0 <= row < rows@.len() ==> (#[trigger] rows@[row])@.len()
                    == OVERLAY_COLOR_PRESET_COLUMNS,
        decreases OVERLAY_COLOR_PRESET_COUNT - start,
    {
        let mut cells: Vec<PresetCell> = Vec::new();
        let mut column: usize = 0;
        while column < OVERLAY_COLOR_PRESET_COLUMNS
            invariant
                column <= OVERLAY_COLOR_PRESET_COLUMNS,
                start < OVERLAY_COLOR_PRESET_COUNT,
                cells@.len() == column,
                forall|i: int|
                    0 <= i < column ==> #[trigger] cells@[i] == preset_cell(
                        start + i,
                        section,
                        selected,
                        focused,
                    ),
            decreases OVERLAY_COLOR_PRESET_COLUMNS - column,
        {
            let index: usize = start + column;
            let is_selected = match selected {
                Some(other) => other == index,
                None => false,
            };
            cells.push(
                PresetCell {
                    index,
                    selected: is_selected,
                    focused: matches!(section, OverlayPickerSection::ColorPresets) && focused
                        == index,
                },
            );
            column = column + 1;
        }
        rows.push(cells);
        start = start + OVERLAY_COLOR_PRESET_COLUMNS;
    }
    rows
}

/// The opacities that can be picked with the pointer: each five percent.
pub fn overlay_opacity_stops() -> (result: Vec<usize>)
    ensures
        result@.len() == 21,
        forall|i: int| 0 <= i < 21 ==> #[trigger] result@[i] == i * 5,
{
    let mut stops: Vec<usize> = Vec::new();
    let mut step: usize = 0;
    while step <= 20
        invariant
            step <= 21,
            stops@.len() == step,
            forall|i: int| 0 <= i < step ==> #[trigger] stops@[i] == i * 5,
        decreases 21 - step,
    {
        stops.push(step * 5);
        step = step + 1;
    }
    stops
}

/// What the picker shows.
#[derive(Debug, PartialEq, Eq)]
pub struct StylePickerView {
    pub summary: String,
    pub section: OverlayPickerSection,
    pub font_size: OverlayFontSize,
    pub hex: String,
    /// Whether typing reaches the field of the colour.
    pub hex_focused: bool,
    pub opacity_percent: usize,
    /// The named colour that is the picked one.
    pub selected_preset: Option<usize>,
    /// The named colour that the keyboard is on.
    pub focused_preset: usize,
    pub hint: &'static str,
}

impl Zetta {
    /// What the picker of the active tab shows, if one is open.
    pub fn render_overlay_style_picker_overlay(&self) -> (result: Option<StylePickerView>)
        ensures
            match result {
                None => !self.is_picking(),
                Some(view) => {
                    let picker = self.picker();
                    &&& self.is_picking()
                    &&& view.summary@ == summary_text(picker)
                    &&& view.section == picker.section
                    &&& view.font_size == picker.font_size
                    &&& view.hex@ == picker.hex_buffer@
                    &&& view.hex_focused == (picker.section == OverlayPickerSection::Color)
                    &&& view.opacity_percent == picker.opacity_percent
                    &&& view.hint@ == hint_text(picker.section)
                    &&& view.focused_preset == clamped(
                        picker.preset_index as int,
                        0,
                        OVERLAY_COLOR_PRESET_COUNT - 1,
                    )
                    &&& match view.selected_preset {
                        Some(index) => {
                            &&& index < OVERLAY_COLOR_PRESET_COUNT
                            &&& same_ignoring_case(preset_hex(index as int), picker.hex_buffer@)
                            &&& forall|i: int|
                                0 <= i < index ==> !same_ignoring_case(
                                    #[trigger] preset_hex(i),
                                    picker.hex_buffer@,
                                )
                        },
                        None => forall|i: int|
                            0 <= i < OVERLAY_COLOR_PRESET_COUNT ==> !same_ignoring_case(
                                #[trigger] preset_hex(i),
                                picker.hex_buffer@,
                            ),
                    }
                },
            },
    {
        if self.active_tab >= self.tabs.len() {
            return None;
        }
        let picker = match &self.tabs[self.active_tab].overlay_style_picker {
            Some(picker) => picker,
            None => {
                return None;
            },
        };
        let focused_preset: usize = if picker.preset_index > OVERLAY_COLOR_PRESET_COUNT - 1 {
            OVERLAY_COLOR_PRESET_COUNT - 1
        } else {
            picker.preset_index
        };
        Some(
            StylePickerView {
                summary: overlay_picker_summary(picker),
                section: picker.section,
                font_size: picker.font_size,
                hex: picker.hex_buffer.clone(),
                hex_focused: matches!(picker.section, OverlayPickerSection::Color),
                opacity_percent: picker.opacity_percent,
                selected_preset: OverlayColorPreset::position_of_hex(picker.hex_buffer.as_str()),
                focused_preset,
                hint: overlay_picker_hint(picker.section),
            },
        )
    }
}

} // verus!
