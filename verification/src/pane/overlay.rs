//! The model behind a pane's overlay: its text, its font-size steps, and the
//! colour the style picker edits.
//!
//! The picker edits in HSV because that is what a saturation/value square and
//! a hue strip are, while everything else — configuration, the control socket,
//! the theme — speaks hex or HSLA. The components of those colours are
//! floating point; here they are carried as bit patterns, and the caller
//! converts between the spaces.

use vstd::prelude::*;

use crate::text::{
    characters, eq_ignore_ascii_case, same_ignoring_case, same_text, text_of, trim, trimmed,
};

verus! {

/// Named font-size steps for a pane's overlay text, matching the values
/// accepted by `zetta overlay --size`.
#[derive(Clone, Copy, Debug, PartialEq, Eq, Structural)]
pub enum OverlayFontSize {
    Small,
    Base,
    Large,
    ExtraLarge,
    ExtraExtraLarge,
    ExtraExtraExtraLarge,
}

impl OverlayFontSize {
    /// The position of the size among all, from the smallest up.
    pub open spec fn rank(self) -> int {
        match self {
            OverlayFontSize::Small => 0,
            OverlayFontSize::Base => 1,
            OverlayFontSize::Large => 2,
            OverlayFontSize::ExtraLarge => 3,
            OverlayFontSize::ExtraExtraLarge => 4,
            OverlayFontSize::ExtraExtraExtraLarge => 5,
        }
    }

    /// The name of the size on the command line.
    pub open spec fn spelling(self) -> Seq<char> {
        match self {
            OverlayFontSize::Small => "sm"@,
            OverlayFontSize::Base => "base"@,
            OverlayFontSize::Large => "lg"@,
            OverlayFontSize::ExtraLarge => "xl"@,
            OverlayFontSize::ExtraExtraLarge => "2xl"@,
            OverlayFontSize::ExtraExtraExtraLarge => "3xl"@,
        }
    }

    /// The size that a pane without one of its own shows.
    pub fn default_size() -> (result: OverlayFontSize)
        ensures
            result == OverlayFontSize::ExtraLarge,
    {
        OverlayFontSize::ExtraLarge
    }

    /// The size that a command-line name stands for.
    pub fn parse(value: &str) -> (result: Option<OverlayFontSize>)
        ensures
            result matches Some(size) ==> size.spelling() == value@,
            result is None ==> forall|size: OverlayFontSize| size.spelling() != value@,
    {
        if same_text(value, "sm") {
            Some(OverlayFontSize::Small)
        } else if same_text(value, "base") {
            Some(OverlayFontSize::Base)
        } else if same_text(value, "lg") {
            Some(OverlayFontSize::Large)
        } else if same_text(value, "xl") {
            Some(OverlayFontSize::ExtraLarge)
        } else if same_text(value, "2xl") {
            Some(OverlayFontSize::ExtraExtraLarge)
        } else if same_text(value, "3xl") {
            Some(OverlayFontSize::ExtraExtraExtraLarge)
        } else {
            None
        }
    }

    /// The name of the size on the command line.
    pub fn cli_name(self) -> (result: &'static str)
        ensures
            result@ == self.spelling(),
    {
        match self {
            OverlayFontSize::Small => "sm",
            OverlayFontSize::Base => "base",
            OverlayFontSize::Large => "lg",
            OverlayFontSize::ExtraLarge => "xl",
            OverlayFontSize::ExtraExtraLarge => "2xl",
            OverlayFontSize::ExtraExtraExtraLarge => "3xl",
        }
    }

    pub const CLI_NAMES: [&'static str; 6] = ["sm", "base", "lg", "xl", "2xl", "3xl"];

    /// All sizes in ascending order, matching [`Self::CLI_NAMES`].
    pub const ALL: [OverlayFontSize; 6] = [
        OverlayFontSize::Small,
        OverlayFontSize::Base,
        OverlayFontSize::Large,
        OverlayFontSize::ExtraLarge,
        OverlayFontSize::ExtraExtraLarge,
        OverlayFontSize::ExtraExtraExtraLarge,
    ];

    /// The position of the size among all, from the smallest up.
    pub fn index(self) -> (result: usize)
        ensures
            result == self.rank(),
    {
        match self {
            OverlayFontSize::Small => 0,
            OverlayFontSize::Base => 1,
            OverlayFontSize::Large => 2,
            OverlayFontSize::ExtraLarge => 3,
            OverlayFontSize::ExtraExtraLarge => 4,
            OverlayFontSize::ExtraExtraExtraLarge => 5,
        }
    }

    /// The size `delta` positions away, wrapping around the ends.
    pub fn step(self, delta: isize) -> (result: OverlayFontSize)
        requires
            self.rank() + delta <= isize::MAX,
        ensures
            result.rank() == (self.rank() + delta) % 6,
    {
        let next: usize = wrapped(self.index(), delta, 6);
        proof {
            law_sizes_stand_in_order(next as int);
        }
        let all = OverlayFontSize::ALL;
        all[next]
    }
}

/// The sizes stand in ascending order, each with its name beside it.
pub proof fn law_sizes_stand_in_order(index: int)
    requires
        0 <= index < 6,
    ensures
        OverlayFontSize::ALL@[index].rank() == index,
        OverlayFontSize::CLI_NAMES@[index]@ == OverlayFontSize::ALL@[index].spelling(),
{
}

/// The position `delta` away from `index` among `count`, wrapping around.
fn wrapped(index: usize, delta: isize, count: usize) -> (result: usize)
    requires
        index < count <= 6,
        index + delta <= isize::MAX,
    ensures
        result == (index + delta) % (count as int),
        result < count,
{
    let moved: isize = index as isize + delta;
    if moved >= 0 {
        (moved as usize) % count
    } else {
        // The distance below zero, one less so that it always fits.
        let below: usize = (-(moved + 1)) as usize;
        let result: usize = count - 1 - below % count;
        proof {
            let c = count as int;
            let b = below as int;
            assert(b == (b / c) * c + b % c) by (nonlinear_arith)
                requires
                    c > 0,
            ;
            assert(moved == -b - 1);
            let q = -(b / c) - 1;
            assert(moved as int == q * c + result as int) by (nonlinear_arith)
                requires
                    b == (b / c) * c + b % c,
                    moved == -b - 1,
                    q == -(b / c) - 1,
                    result == c - 1 - b % c,
            ;
            vstd::arithmetic::div_mod::lemma_fundamental_div_mod_converse(
                moved as int,
                c,
                q,
                result as int,
            );
        }
        result
    }
}

/// Which control inside the overlay-style selector the keyboard is adjusting.
/// Tab (and shift-Tab) cycle through them.
#[derive(Clone, Copy, Debug, PartialEq, Eq, Structural)]
pub enum OverlayPickerSection {
    /// The overlay's font size.
    FontSize,
    /// The overlay's text colour: hue/saturation/brightness plus a hex field.
    Color,
    /// The overlay's fixed named colour presets.
    ColorPresets,
    /// The overlay's opacity.
    Opacity,
}

impl OverlayPickerSection {
    /// The position of the section in Tab order, which follows the picker's
    /// visual grid from left to right and top to bottom.
    pub open spec fn rank(self) -> int {
        match self {
            OverlayPickerSection::FontSize => 0,
            OverlayPickerSection::Opacity => 1,
            OverlayPickerSection::Color => 2,
            OverlayPickerSection::ColorPresets => 3,
        }
    }

    /// Sections in Tab order, from left to right and top to bottom as they are
    /// shown.
    pub const ALL: [OverlayPickerSection; 4] = [
        OverlayPickerSection::FontSize,
        OverlayPickerSection::Opacity,
        OverlayPickerSection::Color,
        OverlayPickerSection::ColorPresets,
    ];

    /// The position of the section in Tab order.
    pub fn index(self) -> (result: usize)
        ensures
            result == self.rank(),
    {
        match self {
            OverlayPickerSection::FontSize => 0,
            OverlayPickerSection::Opacity => 1,
            OverlayPickerSection::Color => 2,
            OverlayPickerSection::ColorPresets => 3,
        }
    }

    /// The section `delta` positions away in Tab order, wrapping around the
    /// ends.
    pub fn step(self, delta: isize) -> (result: OverlayPickerSection)
        requires
            self.rank() + delta <= isize::MAX,
        ensures
            result.rank() == (self.rank() + delta) % 4,
    {
        let next: usize = wrapped(self.index(), delta, 4);
        let all = OverlayPickerSection::ALL;
        all[next]
    }
}

/// Reading a size's own name gives the size back, and no two sizes share one.
pub proof fn law_font_size_names_are_distinct(left: OverlayFontSize, right: OverlayFontSize)
    ensures
        left.spelling() == right.spelling() ==> left == right,
{
    reveal_strlit("sm");
    reveal_strlit("base");
    reveal_strlit("lg");
    reveal_strlit("xl");
    reveal_strlit("2xl");
    reveal_strlit("3xl");
    if left.spelling() == right.spelling() {
        assert(left.spelling().len() == right.spelling().len());
        assert(left.spelling()[0] == right.spelling()[0]);
    }
}

/// A step is undone by the step back.
pub proof fn law_font_size_step_is_undone(
    start: OverlayFontSize,
    moved: OverlayFontSize,
    back: OverlayFontSize,
    delta: int,
)
    requires
        moved.rank() == (start.rank() + delta) % 6,
        back.rank() == (moved.rank() - delta) % 6,
    ensures
        back == start,
{
}

/// A step between sections is undone by the step back.
pub proof fn law_section_step_is_undone(
    start: OverlayPickerSection,
    moved: OverlayPickerSection,
    back: OverlayPickerSection,
    delta: int,
)
    requires
        moved.rank() == (start.rank() + delta) % 4,
        back.rank() == (moved.rank() - delta) % 4,
    ensures
        back == start,
{
}

/// A colour by its red, green, blue and alpha bytes.
#[derive(Clone, Copy, Debug, PartialEq, Eq, Structural)]
pub struct RgbaColor {
    pub red: u8,
    pub green: u8,
    pub blue: u8,
    pub alpha: u8,
}

/// A colour in the HSLA space that panes are drawn with. Each component is the
/// bit pattern of a 32-bit float.
#[derive(Clone, Copy, Debug, PartialEq, Eq, Structural)]
pub struct HslaColor {
    pub hue: u32,
    pub saturation: u32,
    pub lightness: u32,
    pub alpha: u32,
}

/// A colour in the HSV space that the picker edits. Each component is the bit
/// pattern of a 32-bit float.
#[derive(Clone, Copy, Debug, PartialEq, Eq, Structural)]
pub struct HsvColor {
    pub hue: u32,
    pub saturation: u32,
    pub value: u32,
}

/// How opaque an overlay's text is.
#[derive(Clone, Copy, Debug, PartialEq, Eq, Structural)]
pub enum OverlayOpacity {
    /// A percentage, from `0` to `100`.
    Percent(usize),
    /// A fraction, as the bit pattern of a 32-bit float.
    Fraction(u32),
}

/// The number of columns in the overlay colour-preset grid.
pub const OVERLAY_COLOR_PRESET_COLUMNS: usize = 6;

/// How many colour presets there are.
pub const OVERLAY_COLOR_PRESET_COUNT: usize = 12;

/// A fixed, named overlay-colour preset shared by the CLI, process control,
/// picker, and shell completions.
#[derive(Clone, Copy, Debug, PartialEq, Eq)]
pub struct OverlayColorPreset {
    pub name: &'static str,
    pub hex: &'static str,
}

/// The name of a preset. The catalogue is ordered for both the picker layout
/// and shell completion output.
pub open spec fn preset_name(index: int) -> Seq<char> {
    if index == 0 {
        "black"@
    } else if index == 1 {
        "white"@
    } else if index == 2 {
        "gray"@
    } else if index == 3 {
        "red"@
    } else if index == 4 {
        "orange"@
    } else if index == 5 {
        "yellow"@
    } else if index == 6 {
        "green"@
    } else if index == 7 {
        "cyan"@
    } else if index == 8 {
        "blue"@
    } else if index == 9 {
        "purple"@
    } else if index == 10 {
        "magenta"@
    } else {
        "pink"@
    }
}

/// The colour of a preset.
pub open spec fn preset_hex(index: int) -> Seq<char> {
    if index == 0 {
        "#000000"@
    } else if index == 1 {
        "#ffffff"@
    } else if index == 2 {
        "#808080"@
    } else if index == 3 {
        "#ff0000"@
    } else if index == 4 {
        "#ffa500"@
    } else if index == 5 {
        "#ffff00"@
    } else if index == 6 {
        "#008000"@
    } else if index == 7 {
        "#00ffff"@
    } else if index == 8 {
        "#0000ff"@
    } else if index == 9 {
        "#800080"@
    } else if index == 10 {
        "#ff00ff"@
    } else {
        "#ffc0cb"@
    }
}

impl OverlayColorPreset {
    /// The preset at a position of the catalogue.
    pub fn at(index: usize) -> (result: OverlayColorPreset)
        requires
            index < OVERLAY_COLOR_PRESET_COUNT,
        ensures
            result.name@ == preset_name(index as int),
            result.hex@ == preset_hex(index as int),
    {
        if index == 0 {
            OverlayColorPreset { name: "black", hex: "#000000" }
        } else if index == 1 {
            OverlayColorPreset { name: "white", hex: "#ffffff" }
        } else if index == 2 {
            OverlayColorPreset { name: "gray", hex: "#808080" }
        } else if index == 3 {
            OverlayColorPreset { name: "red", hex: "#ff0000" }
        } else if index == 4 {
            OverlayColorPreset { name: "orange", hex: "#ffa500" }
        } else if index == 5 {
            OverlayColorPreset { name: "yellow", hex: "#ffff00" }
        } else if index == 6 {
            OverlayColorPreset { name: "green", hex: "#008000" }
        } else if index == 7 {
            OverlayColorPreset { name: "cyan", hex: "#00ffff" }
        } else if index == 8 {
            OverlayColorPreset { name: "blue", hex: "#0000ff" }
        } else if index == 9 {
            OverlayColorPreset { name: "purple", hex: "#800080" }
        } else if index == 10 {
            OverlayColorPreset { name: "magenta", hex: "#ff00ff" }
        } else {
            OverlayColorPreset { name: "pink", hex: "#ffc0cb" }
        }
    }

    /// The position of the first preset with the given colour.
    pub fn position_of_hex(hex: &str) -> (result: Option<usize>)
        ensures
            match result {
                Some(index) => {
                    &&& index < OVERLAY_COLOR_PRESET_COUNT
                    &&& same_ignoring_case(preset_hex(index as int), hex@)
                    &&& forall|i: int|
                        0 <= i < index ==> !same_ignoring_case(#[trigger] preset_hex(i), hex@)
                },
                None => forall|i: int|
                    0 <= i < OVERLAY_COLOR_PRESET_COUNT ==> !same_ignoring_case(
                        #[trigger] preset_hex(i),
                        hex@,
                    ),
            },
    {
        let mut index: usize = 0;
        while index < OVERLAY_COLOR_PRESET_COUNT
            invariant
                index <= OVERLAY_COLOR_PRESET_COUNT,
                forall|i: int|
                    0 <= i < index ==> !same_ignoring_case(#[trigger] preset_hex(i), hex@),
            decreases OVERLAY_COLOR_PRESET_COUNT - index,
        {
            if eq_ignore_ascii_case(OverlayColorPreset::at(index).hex, hex) {
                return Some(index);
            }
            index = index + 1;
        }
        None
    }

    /// The position of the first preset with the given name.
    pub fn position_of_name(name: &str) -> (result: Option<usize>)
        ensures
            match result {
                Some(index) => {
                    &&& index < OVERLAY_COLOR_PRESET_COUNT
                    &&& same_ignoring_case(preset_name(index as int), name@)
                    &&& forall|i: int|
                        0 <= i < index ==> !same_ignoring_case(#[trigger] preset_name(i), name@)
                },
                None => forall|i: int|
                    0 <= i < OVERLAY_COLOR_PRESET_COUNT ==> !same_ignoring_case(
                        #[trigger] preset_name(i),
                        name@,
                    ),
            },
    {
        let mut index: usize = 0;
        while index < OVERLAY_COLOR_PRESET_COUNT
            invariant
                index <= OVERLAY_COLOR_PRESET_COUNT,
                forall|i: int|
                    0 <= i < index ==> !same_ignoring_case(#[trigger] preset_name(i), name@),
            decreases OVERLAY_COLOR_PRESET_COUNT - index,
        {
            if eq_ignore_ascii_case(OverlayColorPreset::at(index).name, name) {
                return Some(index);
            }
            index = index + 1;
        }
        None
    }
}

/// Whether the character is a hexadecimal digit.
pub open spec fn is_hex_digit(character: char) -> bool {
    ||| '0' <= character <= '9'
    ||| 'a' <= character <= 'f'
    ||| 'A' <= character <= 'F'
}

/// The value of a hexadecimal digit.
pub open spec fn hex_digit_value(character: char) -> int {
    if '0' <= character <= '9' {
        character as int - '0' as int
    } else if 'a' <= character <= 'f' {
        character as int - 'a' as int + 10
    } else {
        character as int - 'A' as int + 10
    }
}

/// Whether all characters are hexadecimal digits.
pub open spec fn all_hex_digits(text: Seq<char>) -> bool {
    forall|i: int| 0 <= i < text.len() ==> is_hex_digit(#[trigger] text[i])
}

/// The byte of a colour component: one digit is doubled, two are read as they
/// stand.
pub open spec fn component(digits: Seq<char>, width: int, which: int) -> u8 {
    if width == 1 {
        (hex_digit_value(digits[which]) * 17) as u8
    } else {
        (hex_digit_value(digits[which * 2]) * 16 + hex_digit_value(digits[which * 2 + 1])) as u8
    }
}

/// The colour that `rgb`, `rgba`, `rrggbb` or `rrggbbaa` digits stand for.
pub open spec fn color_of_digits(digits: Seq<char>) -> Option<RgbaColor> {
    let width: int = if digits.len() <= 4 {
        1
    } else {
        2
    };
    if all_hex_digits(digits) && (digits.len() == 3 || digits.len() == 4 || digits.len() == 6
        || digits.len() == 8) {
        Some(
            RgbaColor {
                red: component(digits, width, 0),
                green: component(digits, width, 1),
                blue: component(digits, width, 2),
                alpha: if digits.len() == 4 || digits.len() == 8 {
                    component(digits, width, 3)
                } else {
                    255
                },
            },
        )
    } else {
        None
    }
}

/// The text without the number signs it begins with.
pub open spec fn without_signs(text: Seq<char>) -> Seq<char>
    decreases text.len(),
{
    if text.len() > 0 && text.first() == '#' {
        without_signs(text.drop_first())
    } else {
        text
    }
}

/// Gives a colour exactly one leading `#`. The `zetta overlay --color` value
/// never needs one from the user, since `#` starts a comment in most shells
/// and would otherwise always need quoting.
pub fn normalize_overlay_color_hex(value: &str) -> (result: String)
    ensures
        result@ == seq!['#'] + without_signs(value@),
{
    let content = characters(value);
    let mut start: usize = 0;
    proof {
        assert(content@.skip(0) == value@);
    }
    while start < content.len() && content[start] == '#'
        invariant
            content@ == value@,
            start <= content@.len(),
            without_signs(value@) == without_signs(content@.skip(start as int)),
        decreases content@.len() - start,
    {
        proof {
            assert(content@.skip(start as int).first() == content@[start as int]);
            assert(content@.skip(start as int).drop_first() == content@.skip(start + 1));
        }
        start = start + 1;
    }
    let mut result: Vec<char> = vec!['#'];
    let ghost prefix = result@;
    let mut index: usize = start;
    while index < content.len()
        invariant
            start <= index <= content@.len(),
            prefix == seq!['#'],
            result@ == prefix + content@.subrange(start as int, index as int),
        decreases content@.len() - index,
    {
        result.push(content[index]);
        index = index + 1;
        proof {
            assert(prefix + content@.subrange(start as int, index as int) == (prefix
                + content@.subrange(start as int, index - 1)).push(content@[index - 1]));
        }
    }
    proof {
        assert(content@.subrange(start as int, index as int) == content@.skip(start as int));
        if start < content@.len() {
            assert(content@.skip(start as int).first() == content@[start as int]);
        }
    }
    text_of(&result)
}

pub fn hex_digit(character: char) -> (result: Option<u8>)
    ensures
        match result {
            Some(value) => is_hex_digit(character) && value == hex_digit_value(character),
            None => !is_hex_digit(character),
        },
        result matches Some(value) ==> value < 16,
{
    if '0' <= character && character <= '9' {
        Some(character as u8 - 48)
    } else if 'a' <= character && character <= 'f' {
        Some(character as u8 - 87)
    } else if 'A' <= character && character <= 'F' {
        Some(character as u8 - 55)
    } else {
        None
    }
}

/// Parses a hex colour. The leading `#` is optional; `#rgb`, `#rgba`,
/// `#rrggbb`, and `#rrggbbaa` are the forms.
pub fn overlay_color_from_hex(value: &str) -> (result: Option<RgbaColor>)
    ensures
        result == color_of_digits(without_signs(value@)),
{
    let normalized = normalize_overlay_color_hex(value);
    let content = characters(normalized.as_str());
    let ghost digits = without_signs(value@);
    proof {
        assert(content@.skip(1) == digits);
    }
    let mut values: Vec<u8> = Vec::new();
    let mut index: usize = 1;
    while index < content.len()
        invariant
            content@.skip(1) == digits,
            content@.len() == digits.len() + 1,
            1 <= index <= content@.len(),
            digits == without_signs(value@),
            values@.len() == index - 1,
            forall|i: int|
                0 <= i < index - 1 ==> is_hex_digit(#[trigger] digits[i]) && values@[i]
                    == hex_digit_value(digits[i]) && values@[i] < 16,
        decreases content@.len() - index,
    {
        proof {
            assert(digits[index - 1] == content@[index as int]);
        }
        match hex_digit(content[index]) {
            Some(digit) => {
                let ghost before = values@;
                values.push(digit);
                proof {
                    assert forall|i: int| 0 <= i < index implies is_hex_digit(
                        #[trigger] digits[i],
                    ) && values@[i] == hex_digit_value(digits[i]) && values@[i] < 16 by {
                        if i < index - 1 {
                            assert(values@[i] == before[i]);
                        }
                    }
                }
            },
            None => {
                proof {
                    assert(!all_hex_digits(digits));
                }
                return None;
            },
        }
        index = index + 1;
    }
    let count: usize = values.len();
    proof {
        assert(all_hex_digits(digits));
        if digits.len() > 0 {
            assert(is_hex_digit(digits[0]));
        }
        if digits.len() > 1 {
            assert(is_hex_digit(digits[1]));
        }
        if digits.len() > 2 {
            assert(is_hex_digit(digits[2]));
        }
        if digits.len() > 3 {
            assert(is_hex_digit(digits[3]));
        }
        if digits.len() > 4 {
            assert(is_hex_digit(digits[4]));
        }
        if digits.len() > 5 {
            assert(is_hex_digit(digits[5]));
        }
        if digits.len() > 6 {
            assert(is_hex_digit(digits[6]));
        }
        if digits.len() > 7 {
            assert(is_hex_digit(digits[7]));
        }
    }
    if count == 3 || count == 4 {
        Some(
            RgbaColor {
                red: values[0] * 17,
                green: values[1] * 17,
                blue: values[2] * 17,
                alpha: if count == 4 {
                    values[3] * 17
                } else {
                    255
                },
            },
        )
    } else if count == 6 || count == 8 {
        Some(
            RgbaColor {
                red: values[0] * 16 + values[1],
                green: values[2] * 16 + values[3],
                blue: values[4] * 16 + values[5],
                alpha: if count == 8 {
                    values[6] * 16 + values[7]
                } else {
                    255
                },
            },
        )
    } else {
        None
    }
}

/// The colour that a preset's name or a hex value stands for: the first
/// preset whose name the text is, up to case and surrounding whitespace, or
/// else the hex colour it spells.
pub open spec fn color_of_value(value: Seq<char>) -> Option<RgbaColor> {
    let named = |i: int|
        0 <= i < OVERLAY_COLOR_PRESET_COUNT && same_ignoring_case(preset_name(i), trimmed(value));
    if exists|i: int| #[trigger] named(i) {
        let first = choose|i: int| #[trigger]
            named(i) && forall|j: int| #[trigger] named(j) ==> i <= j;
        color_of_digits(without_signs(preset_hex(first)))
    } else {
        color_of_digits(without_signs(trimmed(value)))
    }
}

/// Parses an overlay colour name or hex string. Named presets are matched
/// case-insensitively after surrounding whitespace is removed; all hex
/// formats, including alpha forms, remain accepted as the fallback.
pub fn overlay_color_from_value(value: &str) -> (result: Option<RgbaColor>)
    ensures
        result == color_of_value(value@),
{
    let wanted = trim(value);
    let ghost named = |i: int|
        0 <= i < OVERLAY_COLOR_PRESET_COUNT && same_ignoring_case(preset_name(i), trimmed(value@));
    match OverlayColorPreset::position_of_name(wanted.as_str()) {
        Some(index) => {
            proof {
                assert(named(index as int));
                assert forall|j: int| #[trigger] named(j) implies index <= j by {
                    if j < index {
                        assert(!same_ignoring_case(preset_name(j), trimmed(value@)));
                    }
                }
                let first = choose|i: int| #[trigger]
                    named(i) && forall|j: int| #[trigger] named(j) ==> i <= j;
                assert(named(first) && forall|j: int| #[trigger] named(j) ==> first <= j);
                assert(first == index);
            }
            overlay_color_from_hex(OverlayColorPreset::at(index).hex)
        },
        None => {
            proof {
                assert forall|i: int| !#[trigger] named(i) by {
                    if 0 <= i < OVERLAY_COLOR_PRESET_COUNT {
                        assert(!same_ignoring_case(preset_name(i), trimmed(value@)));
                    }
                }
            }
            overlay_color_from_hex(wanted.as_str())
        },
    }
}

/// The style selector shown after entering a pane overlay's text from the
/// command palette. Tracks the pane being styled plus its font size, colour,
/// and opacity (all previewed live on the pane) and the values the pane had
/// when the picker opened so cancel can restore them.
#[derive(Debug, PartialEq, Eq)]
pub struct OverlayStylePicker {
    pub pane_id: u64,
    /// The keyboard-focused control.
    pub section: OverlayPickerSection,
    /// The highlighted font size.
    pub font_size: OverlayFontSize,
    /// The pane's `overlay_font_size` when the picker opened, restored on
    /// cancel.
    pub original_font_size: Option<OverlayFontSize>,
    /// The selected colour.
    pub color: HsvColor,
    /// The pane's `overlay_color` when the picker opened, restored on cancel.
    pub original_color: Option<HslaColor>,
    /// The keyboard-focused colour preset.
    pub preset_index: usize,
    /// The highlighted opacity, from `0` to `100`, in `5`% steps.
    pub opacity_percent: usize,
    /// The pane's `overlay_opacity` when the picker opened, restored on
    /// cancel.
    pub original_opacity: Option<OverlayOpacity>,
    /// The selected colour as a `#rrggbb` string, typed or derived.
    pub hex_buffer: String,
}

/// A hex field: a `#` and up to six digits.
pub open spec fn is_hex_field(text: Seq<char>) -> bool {
    &&& 1 <= text.len() <= 7
    &&& text[0] == '#'
    &&& all_hex_digits(text.skip(1))
}

/// What the hex field holds after a digit is typed: a full field starts over.
pub open spec fn hex_field_typed(text: Seq<char>, digit: char) -> Seq<char> {
    if text.len() == 7 {
        seq!['#', digit]
    } else {
        text.push(digit)
    }
}

/// The preset the cursor lands on, clamped at every edge of the grid.
pub open spec fn preset_moved(index: int, row_delta: int, column_delta: int) -> int {
    let start = clamped(index, 0, OVERLAY_COLOR_PRESET_COUNT - 1);
    let row = clamped(
        start / (OVERLAY_COLOR_PRESET_COLUMNS as int) + row_delta,
        0,
        (OVERLAY_COLOR_PRESET_COUNT - 1) / (OVERLAY_COLOR_PRESET_COLUMNS as int),
    );
    let column = clamped(
        start % (OVERLAY_COLOR_PRESET_COLUMNS as int) + column_delta,
        0,
        OVERLAY_COLOR_PRESET_COLUMNS - 1,
    );
    clamped(row * OVERLAY_COLOR_PRESET_COLUMNS + column, 0, OVERLAY_COLOR_PRESET_COUNT - 1)
}

pub open spec fn clamped(value: int, low: int, high: int) -> int {
    if value < low {
        low
    } else if value > high {
        high
    } else {
        value
    }
}

fn clamp(value: isize, low: isize, high: isize) -> (result: isize)
    requires
        low <= high,
    ensures
        result == clamped(value as int, low as int, high as int),
{
    if value < low {
        low
    } else if value > high {
        high
    } else {
        value
    }
}

/// Whether a preset is the first with a colour, or the first of all when the
/// colour is custom.
pub open spec fn is_preset_for(hex: Seq<char>, index: int) -> bool {
    &&& 0 <= index < OVERLAY_COLOR_PRESET_COUNT
    &&& if exists|i: int|
        0 <= i < OVERLAY_COLOR_PRESET_COUNT && same_ignoring_case(#[trigger] preset_hex(i), hex) {
        &&& same_ignoring_case(preset_hex(index), hex)
        &&& forall|i: int| 0 <= i < index ==> !same_ignoring_case(#[trigger] preset_hex(i), hex)
    } else {
        index == 0
    }
}

impl OverlayStylePicker {
    /// The hex field is always a `#` and up to six digits, and the opacity a
    /// percentage.
    pub open spec fn wf(self) -> bool {
        is_hex_field(self.hex_buffer@) && self.opacity_percent <= 100
    }

    /// The preset with the colour, or the first preset when it is custom.
    pub fn preset_index_for_color(hex: &str) -> (result: usize)
        ensures
            is_preset_for(hex@, result as int),
    {
        match OverlayColorPreset::position_of_hex(hex) {
            Some(index) => index,
            None => 0,
        }
    }

    /// Sets the focused preset, clamping it to the available grid.
    pub fn set_preset_index(&mut self, index: usize)
        ensures
            *final(self) == (OverlayStylePicker {
                preset_index: clamped(
                    index as int,
                    0,
                    OVERLAY_COLOR_PRESET_COUNT - 1,
                ) as usize,
                ..*old(self)
            }),
    {
        self.preset_index = if index > OVERLAY_COLOR_PRESET_COUNT - 1 {
            OVERLAY_COLOR_PRESET_COUNT - 1
        } else {
            index
        };
    }

    /// Moves the focused preset by rows and columns, clamping at every grid
    /// edge rather than wrapping into the adjacent row. Returns whether it
    /// moved.
    pub fn move_preset_cursor(&mut self, row_delta: isize, column_delta: isize) -> (result: bool)
        requires
            row_delta <= isize::MAX - OVERLAY_COLOR_PRESET_COUNT,
            column_delta <= isize::MAX - OVERLAY_COLOR_PRESET_COUNT,
        ensures
            *final(self) == (OverlayStylePicker {
                preset_index: preset_moved(
                    old(self).preset_index as int,
                    row_delta as int,
                    column_delta as int,
                ) as usize,
                ..*old(self)
            }),
            result == (final(self).preset_index != old(self).preset_index),
    {
        let last_index: usize = OVERLAY_COLOR_PRESET_COUNT - 1;
        let index: usize = if self.preset_index > last_index {
            last_index
        } else {
            self.preset_index
        };
        let row: usize = index / OVERLAY_COLOR_PRESET_COLUMNS;
        let column: usize = index % OVERLAY_COLOR_PRESET_COLUMNS;
        let last_row: usize = last_index / OVERLAY_COLOR_PRESET_COLUMNS;
        let row: usize = clamp(row as isize + row_delta, 0, last_row as isize) as usize;
        let column: usize = clamp(
            column as isize + column_delta,
            0,
            (OVERLAY_COLOR_PRESET_COLUMNS - 1) as isize,
        ) as usize;
        let next: usize = row * OVERLAY_COLOR_PRESET_COLUMNS + column;
        let next_index: usize = if next > last_index {
            last_index
        } else {
            next
        };
        let changed = self.preset_index != next_index;
        self.preset_index = next_index;
        changed
    }

    /// Replaces the selected colour and the hex field, which spells it.
    pub fn set_color(&mut self, color: HsvColor, hex: String)
        requires
            is_hex_field(hex@),
        ensures
            *final(self) == (OverlayStylePicker { color, hex_buffer: hex, ..*old(self) }),
            old(self).opacity_percent <= 100 ==> final(self).wf(),
    {
        self.color = color;
        self.hex_buffer = hex;
    }

    /// Replaces the selected colour with the preset at `index`, as the caller
    /// converted it.
    pub fn set_color_preset(&mut self, index: usize, color: HsvColor, hex: String)
        requires
            index < OVERLAY_COLOR_PRESET_COUNT,
            is_hex_field(hex@),
        ensures
            *final(self) == (OverlayStylePicker {
                color,
                hex_buffer: hex,
                preset_index: index,
                ..*old(self)
            }),
            old(self).opacity_percent <= 100 ==> final(self).wf(),
    {
        self.set_color(color, hex);
        self.preset_index = index;
    }

    /// Applies a typed colour without touching the hex field, so a typed short
    /// `#rgb` keeps its literal form while the code is built up digit by
    /// digit.
    pub fn apply_typed_color(&mut self, color: HsvColor)
        ensures
            *final(self) == (OverlayStylePicker { color, ..*old(self) }),
    {
        self.color = color;
    }

    /// Appends a hex digit to the hex field. A full `#rrggbb` entry is
    /// replaced by a fresh one when a further digit is typed, but ongoing
    /// typing towards a six-digit code continues through the short form.
    /// Returns the colour once the field holds a complete one: a short `#rgb`
    /// or a full `#rrggbb`.
    pub fn hex_input(&mut self, ch: char) -> (result: Option<RgbaColor>)
        requires
            old(self).wf(),
        ensures
            final(self).wf(),
            ({
                let typed = hex_field_typed(old(self).hex_buffer@, ch);
                if !is_hex_digit(ch) {
                    result is None && *final(self) == *old(self)
                } else {
                    &&& final(self).hex_buffer@ == typed
                    &&& *final(self) == (OverlayStylePicker {
                        hex_buffer: final(self).hex_buffer,
                        ..*old(self)
                    })
                    &&& (result is Some) == (typed.len() == 4 || typed.len() == 7)
                    &&& result is Some ==> result == color_of_digits(typed.skip(1))
                }
            }),
    {
        if hex_digit(ch).is_none() {
            return None;
        }
        let mut content = characters(self.hex_buffer.as_str());
        let ghost before = self.hex_buffer@;
        if content.len() >= 7 {
            content = vec!['#'];
        }
        let ghost base = content@;
        content.push(ch);
        self.hex_buffer = text_of(&content);
        proof {
            let typed = hex_field_typed(before, ch);
            assert(typed == content@);
            assert forall|i: int| 0 <= i < typed.skip(1).len() implies is_hex_digit(
                #[trigger] typed.skip(1)[i],
            ) by {
                if i < base.len() - 1 {
                    assert(typed.skip(1)[i] == before.skip(1)[i]);
                }
            }
            assert(without_signs(typed) == typed.skip(1)) by {
                lemma_one_sign(typed);
            }
        }
        if content.len() == 4 || content.len() == 7 {
            overlay_color_from_hex(self.hex_buffer.as_str())
        } else {
            None
        }
    }

    /// Removes the last digit from the hex field, keeping the leading `#`.
    /// Returns the colour when a complete one remains.
    pub fn hex_backspace(&mut self) -> (result: Option<RgbaColor>)
        requires
            old(self).wf(),
        ensures
            final(self).wf(),
            ({
                let before = old(self).hex_buffer@;
                if before.len() <= 1 {
                    result is None && *final(self) == *old(self)
                } else {
                    &&& final(self).hex_buffer@ == before.drop_last()
                    &&& *final(self) == (OverlayStylePicker {
                        hex_buffer: final(self).hex_buffer,
                        ..*old(self)
                    })
                    &&& result == color_of_digits(before.drop_last().skip(1))
                }
            }),
    {
        let mut content = characters(self.hex_buffer.as_str());
        let ghost before = self.hex_buffer@;
        if content.len() <= 1 {
            return None;
        }
        content.pop();
        self.hex_buffer = text_of(&content);
        proof {
            let rest = before.drop_last();
            assert(content@ == rest);
            assert forall|i: int| 0 <= i < rest.skip(1).len() implies is_hex_digit(
                #[trigger] rest.skip(1)[i],
            ) by {
                assert(rest.skip(1)[i] == before.skip(1)[i]);
            }
            lemma_one_sign(rest);
        }
        overlay_color_from_hex(self.hex_buffer.as_str())
    }
}

/// A hex field has exactly one leading sign.
proof fn lemma_one_sign(text: Seq<char>)
    requires
        is_hex_field(text),
    ensures
        without_signs(text) == text.skip(1),
{
    let rest = text.skip(1);
    assert(text.drop_first() == rest);
    reveal_with_fuel(without_signs, 2);
    if rest.len() > 0 {
        assert(is_hex_digit(rest[0]));
    }
}

/// Raw `zetta overlay` request values, before `color` is resolved from its
/// named-or-hex value into a color and `opacity` from a 0-100 percentage into
/// a fraction. Shared by the CLI parser and the process-control client so
/// neither has to thread four separate parameters around.
#[derive(Debug, PartialEq, Eq)]
pub struct PaneOverlayRequest {
    pub text: Option<String>,
    pub font_size: Option<OverlayFontSize>,
    /// A percentage from `0` to `100`.
    pub opacity: Option<u8>,
    /// A named preset or an `rgb`, `rgba`, `rrggbb`, or `rrggbbaa` hex color,
    /// with or without a leading `#`.
    pub color: Option<String>,
}

} // verus!
