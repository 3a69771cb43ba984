//! What holds of the colours of overlays and of how they are picked.

use vstd::prelude::*;

use crate::pane::overlay::{
    all_hex_digits, color_of_digits, color_of_value, hex_digit_value, hex_field_typed, is_hex_digit,
    is_hex_field, preset_hex, preset_moved, preset_name, without_signs, RgbaColor,
    OVERLAY_COLOR_PRESET_COUNT,
};
use crate::text::{lower_character, lowered, same_ignoring_case, trimmed};

verus! {

/// The digit of a value below sixteen, in lower case.
pub open spec fn digit_of(value: int) -> char {
    if value < 10 {
        ('0' as int + value) as char
    } else {
        ('a' as int + value - 10) as char
    }
}

/// The two digits of a component.
pub open spec fn digits_of(component: u8) -> Seq<char> {
    seq![digit_of(component as int / 16), digit_of(component as int % 16)]
}

/// The eight digits of a colour.
pub open spec fn digits_of_color(color: RgbaColor) -> Seq<char> {
    digits_of(color.red) + digits_of(color.green) + digits_of(color.blue) + digits_of(color.alpha)
}

proof fn lemma_digit(value: int)
    requires
        0 <= value < 16,
    ensures
        is_hex_digit(digit_of(value)),
        hex_digit_value(digit_of(value)) == value,
        digit_of(value) != '#',
{
}

/// A colour that is written in hex digits is read as that colour, with its alpha or
/// without it where it is opaque.
pub proof fn law_written_colors_read_back(color: RgbaColor)
    ensures
        color_of_digits(digits_of_color(color)) == Some(color),
        color.alpha == 255 ==> color_of_digits(digits_of_color(color).take(6)) == Some(color),
{
    lemma_components(color);
    let all = digits_of_color(color);
    let six = all.take(6);
    assert(all_hex_digits(six)) by {
        assert forall|i: int| 0 <= i < six.len() implies is_hex_digit(#[trigger] six[i]) by {
            assert(six[i] == all[i]);
        }
    }
    lemma_whole(color.red);
    lemma_whole(color.green);
    lemma_whole(color.blue);
    lemma_whole(color.alpha);
}

proof fn lemma_whole(component: u8)
    ensures
        0 <= component as int / 16 < 16,
        0 <= component as int % 16 < 16,
        (component as int / 16) * 16 + component as int % 16 == component,
{
}

proof fn lemma_components(color: RgbaColor)
    ensures
        ({
            let digits = digits_of_color(color);
            &&& digits.len() == 8
            &&& all_hex_digits(digits)
            &&& hex_digit_value(digits[0]) == color.red as int / 16
            &&& hex_digit_value(digits[1]) == color.red as int % 16
            &&& hex_digit_value(digits[2]) == color.green as int / 16
            &&& hex_digit_value(digits[3]) == color.green as int % 16
            &&& hex_digit_value(digits[4]) == color.blue as int / 16
            &&& hex_digit_value(digits[5]) == color.blue as int % 16
            &&& hex_digit_value(digits[6]) == color.alpha as int / 16
            &&& hex_digit_value(digits[7]) == color.alpha as int % 16
        }),
{
    let digits = digits_of_color(color);
    lemma_digit(color.red as int / 16);
    lemma_digit(color.red as int % 16);
    lemma_digit(color.green as int / 16);
    lemma_digit(color.green as int % 16);
    lemma_digit(color.blue as int / 16);
    lemma_digit(color.blue as int % 16);
    lemma_digit(color.alpha as int / 16);
    lemma_digit(color.alpha as int % 16);
    assert(digits[0] == digit_of(color.red as int / 16));
    assert(digits[1] == digit_of(color.red as int % 16));
    assert(digits[2] == digit_of(color.green as int / 16));
    assert(digits[3] == digit_of(color.green as int % 16));
    assert(digits[4] == digit_of(color.blue as int / 16));
    assert(digits[5] == digit_of(color.blue as int % 16));
    assert(digits[6] == digit_of(color.alpha as int / 16));
    assert(digits[7] == digit_of(color.alpha as int % 16));
}

/// A digit means the same in either case.
proof fn lemma_case(character: char)
    ensures
        is_hex_digit(lower_character(character)) == is_hex_digit(character),
        is_hex_digit(character) ==> hex_digit_value(lower_character(character)) == hex_digit_value(
            character,
        ),
{
}

/// A short colour is the long one with each digit twice, the case of the digits does
/// not count, and any number of `#` may stand before them.
pub proof fn law_colors_can_be_shortened(digits: Seq<char>)
    ensures
        digits.len() == 3 ==> color_of_digits(digits) == color_of_digits(
            seq![digits[0], digits[0], digits[1], digits[1], digits[2], digits[2]],
        ),
        digits.len() == 4 ==> color_of_digits(digits) == color_of_digits(
            seq![
                digits[0],
                digits[0],
                digits[1],
                digits[1],
                digits[2],
                digits[2],
                digits[3],
                digits[3],
            ],
        ),
        color_of_digits(lowered(digits)) == color_of_digits(digits),
        without_signs(seq!['#'] + digits) == without_signs(digits),
        digits.len() > 0 && is_hex_digit(digits[0]) ==> without_signs(digits) == digits,
{
    if digits.len() == 3 {
        let long = seq![digits[0], digits[0], digits[1], digits[1], digits[2], digits[2]];
        assert forall|i: int| 0 <= i < 6 implies #[trigger] long[i] == digits[i / 2] by {}
        assert(all_hex_digits(digits) == all_hex_digits(long)) by {
            if all_hex_digits(long) {
                assert forall|i: int| 0 <= i < 3 implies is_hex_digit(#[trigger] digits[i]) by {
                    assert(is_hex_digit(long[2 * i]));
                }
            }
        }
    }
    if digits.len() == 4 {
        let long = seq![
            digits[0],
            digits[0],
            digits[1],
            digits[1],
            digits[2],
            digits[2],
            digits[3],
            digits[3],
        ];
        assert forall|i: int| 0 <= i < 8 implies #[trigger] long[i] == digits[i / 2] by {}
        assert(all_hex_digits(digits) == all_hex_digits(long)) by {
            if all_hex_digits(long) {
                assert forall|i: int| 0 <= i < 4 implies is_hex_digit(#[trigger] digits[i]) by {
                    assert(is_hex_digit(long[2 * i]));
                }
            }
        }
    }
    let small = lowered(digits);
    assert(small.len() == digits.len());
    assert forall|i: int| 0 <= i < digits.len() implies is_hex_digit(#[trigger] small[i])
        == is_hex_digit(digits[i]) && (is_hex_digit(digits[i]) ==> hex_digit_value(small[i])
        == hex_digit_value(digits[i])) by {
        lemma_case(digits[i]);
        assert(small[i] == lower_character(digits[i]));
    }
    assert(all_hex_digits(small) == all_hex_digits(digits)) by {
        if all_hex_digits(small) {
            assert forall|i: int| 0 <= i < digits.len() implies is_hex_digit(#[trigger] digits[i]) by {
                assert(is_hex_digit(small[i]));
            }
        }
    }
    let signed = seq!['#'] + digits;
    assert(signed.first() == '#');
    assert(signed.drop_first() =~= digits);
    if digits.len() > 0 {
        assert(digits.first() == digits[0]);
    }
}

/// The colour that a preset stands for.
pub open spec fn preset_color(index: int) -> (u8, u8, u8) {
    if index == 0 {
        (0, 0, 0)
    } else if index == 1 {
        (255, 255, 255)
    } else if index == 2 {
        (128, 128, 128)
    } else if index == 3 {
        (255, 0, 0)
    } else if index == 4 {
        (255, 165, 0)
    } else if index == 5 {
        (255, 255, 0)
    } else if index == 6 {
        (0, 128, 0)
    } else if index == 7 {
        (0, 255, 255)
    } else if index == 8 {
        (0, 0, 255)
    } else if index == 9 {
        (128, 0, 128)
    } else if index == 10 {
        (255, 0, 255)
    } else {
        (255, 192, 203)
    }
}

/// Each preset has a colour of its own, which is opaque.
pub proof fn law_presets_have_their_colors(index: int, other: int)
    requires
        0 <= index < OVERLAY_COLOR_PRESET_COUNT,
        0 <= other < OVERLAY_COLOR_PRESET_COUNT,
    ensures
        color_of_digits(without_signs(preset_hex(index))) == Some(
            RgbaColor {
                red: preset_color(index).0,
                green: preset_color(index).1,
                blue: preset_color(index).2,
                alpha: 255,
            },
        ),
        index != other ==> preset_color(index) != preset_color(other),
        is_hex_field(preset_hex(index)),
{
    reveal_strlit("#000000");
    reveal_strlit("#ffffff");
    reveal_strlit("#808080");
    reveal_strlit("#ff0000");
    reveal_strlit("#ffa500");
    reveal_strlit("#ffff00");
    reveal_strlit("#008000");
    reveal_strlit("#00ffff");
    reveal_strlit("#0000ff");
    reveal_strlit("#800080");
    reveal_strlit("#ff00ff");
    reveal_strlit("#ffc0cb");
    let hex = preset_hex(index);
    assert(hex.len() == 7 && hex[0] == '#');
    let digits = hex.skip(1);
    assert(hex.drop_first() =~= digits);
    assert(digits.len() == 6);
    assert(digits.first() == hex[1]);
    assert(digits[0] == hex[1] && digits[1] == hex[2] && digits[2] == hex[3]);
    assert(digits[3] == hex[4] && digits[4] == hex[5] && digits[5] == hex[6]);
    assert(is_hex_digit(hex[1]) && is_hex_digit(hex[2]) && is_hex_digit(hex[3]));
    assert(is_hex_digit(hex[4]) && is_hex_digit(hex[5]) && is_hex_digit(hex[6]));
    reveal_with_fuel(without_signs, 2);
    assert(without_signs(hex) == digits);
}

/// Typing a digit into the hex field and taking it back leaves the field as it was,
/// unless it was full; and a full field starts anew with the digit.
pub proof fn law_typed_digit_is_taken_back(text: Seq<char>, digit: char)
    requires
        is_hex_field(text),
        is_hex_digit(digit),
    ensures
        is_hex_field(hex_field_typed(text, digit)),
        hex_field_typed(text, digit).last() == digit,
        text.len() < 7 ==> hex_field_typed(text, digit).drop_last() == text,
        text.len() == 7 ==> hex_field_typed(text, digit) == seq!['#', digit],
{
    let typed = hex_field_typed(text, digit);
    if text.len() < 7 {
        assert(typed.drop_last() =~= text);
        assert forall|i: int| 0 <= i < typed.skip(1).len() implies is_hex_digit(
            #[trigger] typed.skip(1)[i],
        ) by {
            if i + 1 < text.len() {
                assert(typed.skip(1)[i] == text.skip(1)[i]);
            }
        }
    } else {
        assert(typed.skip(1)[0] == digit);
    }
}

/// In the grid of presets, two rows of six, the cursor moves by rows and columns and
/// stops at the edges.
pub proof fn law_cursor_moves_in_the_grid(row: int, column: int, down: int, right: int)
    requires
        0 <= row < 2,
        0 <= column < 6,
    ensures
        0 <= row + down < 2 && 0 <= column + right < 6 ==> preset_moved(
            row * 6 + column,
            down,
            right,
        ) == (row + down) * 6 + column + right,
        column + right >= 6 ==> preset_moved(row * 6 + column, 0, right) == row * 6 + 5,
        column + right < 0 ==> preset_moved(row * 6 + column, 0, right) == row * 6,
        row + down >= 2 ==> preset_moved(row * 6 + column, down, 0) == 6 + column,
        row + down < 0 ==> preset_moved(row * 6 + column, down, 0) == column,
{
    assert((row * 6 + column) / 6 == row);
    assert((row * 6 + column) % 6 == column);
}

/// A colour can be given by the name of its preset, in whatever case, or by its
/// digits.
pub proof fn law_colors_are_given_by_name(value: Seq<char>, index: int)
    requires
        0 <= index < OVERLAY_COLOR_PRESET_COUNT,
    ensures
        same_ignoring_case(preset_name(index), trimmed(value)) ==> color_of_value(value) == Some(
            RgbaColor {
                red: preset_color(index).0,
                green: preset_color(index).1,
                blue: preset_color(index).2,
                alpha: 255,
            },
        ),
        (forall|i: int|
            0 <= i < OVERLAY_COLOR_PRESET_COUNT ==> !same_ignoring_case(
                #[trigger] preset_name(i),
                trimmed(value),
            )) ==> color_of_value(value) == color_of_digits(without_signs(trimmed(value))),
{
    let named = |i: int|
        0 <= i < OVERLAY_COLOR_PRESET_COUNT && same_ignoring_case(preset_name(i), trimmed(value));
    if same_ignoring_case(preset_name(index), trimmed(value)) {
        assert(named(index));
        assert forall|i: int| #[trigger] named(i) implies i == index by {
            lemma_names_differ(i, index);
        }
        law_presets_have_their_colors(index, index);
        assert(forall|j: int| #[trigger] named(j) ==> index <= j);
    } else if forall|i: int|
        0 <= i < OVERLAY_COLOR_PRESET_COUNT ==> !same_ignoring_case(
            #[trigger] preset_name(i),
            trimmed(value),
        ) {
        assert forall|i: int| !#[trigger] named(i) by {
            if named(i) {
                assert(!same_ignoring_case(preset_name(i), trimmed(value)));
            }
        }
    }
}

/// Names of two presets are different in whatever case.
proof fn lemma_names_differ(one: int, other: int)
    requires
        0 <= one < OVERLAY_COLOR_PRESET_COUNT,
        0 <= other < OVERLAY_COLOR_PRESET_COUNT,
        lowered(preset_name(one)) == lowered(preset_name(other)),
    ensures
        one == other,
{
    reveal_strlit("black");
    reveal_strlit("white");
    reveal_strlit("gray");
    reveal_strlit("red");
    reveal_strlit("orange");
    reveal_strlit("yellow");
    reveal_strlit("green");
    reveal_strlit("cyan");
    reveal_strlit("blue");
    reveal_strlit("purple");
    reveal_strlit("magenta");
    reveal_strlit("pink");
    assert("black"@.len() == 5 && "white"@.len() == 5 && "gray"@.len() == 4);
    assert("red"@.len() == 3 && "orange"@.len() == 6 && "yellow"@.len() == 6);
    assert("green"@.len() == 5 && "cyan"@.len() == 4 && "blue"@.len() == 4);
    assert("purple"@.len() == 6 && "magenta"@.len() == 7 && "pink"@.len() == 4);
    assert("white"@[0] == 'w' && "black"@[0] == 'b' && "green"@[0] == 'g');
    assert("cyan"@[0] == 'c' && "gray"@[0] == 'g' && "blue"@[0] == 'b');
    assert("pink"@[0] == 'p' && "yellow"@[0] == 'y' && "orange"@[0] == 'o');
    assert("purple"@[0] == 'p');
    let left = lowered(preset_name(one));
    let right = lowered(preset_name(other));
    assert(left.len() == preset_name(one).len() && right.len() == preset_name(other).len());
    assert(left[0] == preset_name(one)[0] && right[0] == preset_name(other)[0]);
    assert(left[2] == preset_name(one)[2] && right[2] == preset_name(other)[2]);
    assert(left[3] == lower_character(preset_name(one)[3]) || left.len() == 3);
    assert(right[3] == lower_character(preset_name(other)[3]) || right.len() == 3);
}

} // verus!
