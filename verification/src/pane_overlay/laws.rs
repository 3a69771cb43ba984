//! What holds of editing an overlay and of picking its style.

use vstd::prelude::*;

use crate::pane::overlay::{
    color_of_digits, is_hex_digit, is_hex_field, is_preset_for, preset_hex, HslaColor, HsvColor,
    OverlayOpacity, OverlayPickerSection, OverlayStylePicker, OVERLAY_COLOR_PRESET_COUNT,
};
use crate::pane::overlay_editing::pane_of;
use crate::pane::tab::Tab;
use crate::pane_overlay::{hint_text, key_taken, overlay_edit_begun, HexKey};
use crate::text::{lowered, same_ignoring_case};
use crate::zetta::{WindowEffect, Zetta};

verus! {

/// A digit that makes three or six of them gives the colour of these digits, a digit
/// taken back gives that of the digits that are left, and what is no digit gives none.
pub proof fn law_keys_make_colors(window: Zetta, digit: char)
    requires
        window.is_picking(),
        is_hex_field(window.picker().hex_buffer@),
    ensures
        ({
            let field = window.picker().hex_buffer@;
            let digits = field.skip(1);
            &&& is_hex_digit(digit) && (digits.len() == 2 || digits.len() == 5)
                ==> window.color_after_key(HexKey::Digit(digit)) == color_of_digits(
                digits.push(digit),
            ) && window.color_after_key(HexKey::Digit(digit)) is Some
            &&& digits.len() != 2 && digits.len() != 5 ==> window.color_after_key(
                HexKey::Digit(digit),
            ) is None
            &&& !is_hex_digit(digit) ==> window.color_after_key(HexKey::Digit(digit)) is None
            &&& digits.len() > 0 ==> window.color_after_key(HexKey::Backspace) == color_of_digits(
                digits.drop_last(),
            )
            &&& digits.len() == 0 ==> window.color_after_key(HexKey::Backspace) is None
        }),
        !window.has_active() ==> window.color_after_key(HexKey::Backspace) is None,
{
    let field = window.picker().hex_buffer@;
    let digits = field.skip(1);
    assert(digits.len() == field.len() - 1);
    if field.len() < 7 {
        assert(field.push(digit).skip(1) =~= digits.push(digit));
        if is_hex_digit(digit) {
            let longer = digits.push(digit);
            assert forall|i: int| 0 <= i < longer.len() implies is_hex_digit(
                #[trigger] longer[i],
            ) by {
                if i < digits.len() {
                    assert(longer[i] == digits[i]);
                }
            }
        }
    }
    if field.len() > 1 {
        assert(field.drop_last().skip(1) =~= digits.drop_last());
    }
}

/// A whole colour that is typed is shown on the pane at once, and one that is not yet
/// whole leaves the panes as they are.
pub proof fn law_typed_color_is_shown(
    before: Tab,
    after: Tab,
    picker: OverlayStylePicker,
    hex: String,
    whole: bool,
    color: HsvColor,
    shown: HslaColor,
)
    requires
        key_taken(before, after, picker, hex, whole, color, shown),
        before.index_of(picker.pane_id) matches Some(index) && 0 <= index < before.panes@.len(),
    ensures
        after.overlay_style_picker matches Some(next) && next.hex_buffer == hex && next.pane_id
            == picker.pane_id && next.font_size == picker.font_size && next.opacity_percent
            == picker.opacity_percent && (whole ==> next.color == color) && (!whole ==> next.color
            == picker.color),
        !whole ==> after.panes == before.panes,
        whole ==> {
            let pane = after.panes@[before.index_of(picker.pane_id)->0];
            &&& pane.overlay_color == Some(shown)
            &&& pane.overlay_font_size == Some(picker.font_size)
            &&& pane.overlay_opacity == Some(OverlayOpacity::Percent(picker.opacity_percent))
            &&& pane.overlay_text == pane_of(before, picker.pane_id).overlay_text
        },
{
}

/// Editing an overlay begins with the text that it has, all of it selected, on the pane
/// that then has the focus; and on a pane that is not there nothing begins.
pub proof fn law_editing_begins_with_the_text(
    before: Zetta,
    after: Zetta,
    pane_id: u64,
    marked: String,
    effect: WindowEffect,
)
    requires
        overlay_edit_begun(before, after, pane_id, marked, effect),
    ensures
        effect == WindowEffect::FocusField ==> {
            &&& after.active().editing_overlay_pane == Some(pane_id)
            &&& after.active().overlay_buffer matches Some(field) && field.select_all
            &&& pane_of(before.active(), pane_id).overlay_text matches Some(text) ==> (
            after.active().overlay_buffer->0).text@ == text@
            &&& pane_of(before.active(), pane_id).overlay_text is None ==> (
            after.active().overlay_buffer->0).text@.len() == 0
            &&& after.active().panes == before.active().panes
        },
        !before.has_active() ==> effect == WindowEffect::Nothing && after.tabs@ == before.tabs@,
{
}

/// The preset that stands for a colour has the colour's digits in whatever case, and it
/// is the first preset where none has.
pub proof fn law_preset_has_the_color(hex: Seq<char>, index: int, other: int)
    requires
        is_preset_for(hex, index),
        0 <= other < OVERLAY_COLOR_PRESET_COUNT,
    ensures
        0 <= index < OVERLAY_COLOR_PRESET_COUNT,
        lowered(preset_hex(other)) == lowered(hex) ==> lowered(preset_hex(index)) == lowered(hex)
            && index <= other,
        (forall|i: int|
            0 <= i < OVERLAY_COLOR_PRESET_COUNT ==> !same_ignoring_case(
                #[trigger] preset_hex(i),
                hex,
            )) ==> index == 0,
{
    if lowered(preset_hex(other)) == lowered(hex) {
        assert(same_ignoring_case(preset_hex(other), hex));
    }
}

/// Each section says which keys it takes.
pub proof fn law_sections_say_their_keys()
    ensures
        hint_text(OverlayPickerSection::FontSize)
            == "← → size · Home/End ends · Tab switch · Enter apply · Esc cancel"@,
        hint_text(OverlayPickerSection::Opacity)
            == "← → opacity · Home/End ends · Tab switch · Enter apply · Esc cancel"@,
        hint_text(OverlayPickerSection::ColorPresets)
            == "← →/↑↓ move · Home/End ends · Tab switch · Enter apply · Esc cancel"@,
        hint_text(OverlayPickerSection::Color)
            == "← → saturation · ↑↓ brightness · ⇧←→ hue · type hex · Tab switch · Enter apply · Esc cancel"@,
{
}

} // verus!
