//! The icon that a terminal profile shows.

use vstd::prelude::*;

use crate::json::{Json, JsonView};
use crate::profile::Shell;
use crate::text::{
    characters, contains_text, eq_ignore_ascii_case, has_part, has_prefix, has_suffix, lowered, optional_text,
    same_ignoring_case, same_text, starts_with, strip_suffix, text_between, to_ascii_lowercase,
    without_suffix,
};

verus! {

/// The icon used by a terminal profile after configuration and automatic
/// discovery have been resolved.
#[derive(Debug, PartialEq, Eq)]
pub enum ProfileIcon {
    Zetta,
    /// Generic Linux artwork used for automatically discovered WSL profiles.
    ///
    /// WSL does not expose the distribution's default shell during profile
    /// discovery, so a shell-specific icon would be misleading. This variant
    /// is intentionally automatic-only; users can still choose an explicit
    /// shell icon in their configuration.
    Tux,
    Bash,
    Zsh,
    Fish,
    /// The executable whose native icon should be displayed on Windows. It is
    /// only produced by automatic discovery there.
    Executable(String),
}

/// Why a configured icon is refused.
#[derive(Debug, PartialEq, Eq)]
pub enum ProfileIconError {
    /// The value is neither null nor a text.
    NotAName,
    /// The text names no icon.
    UnknownName(String),
}

/// The icon that a lower-case name stands for: `auto` for none in particular.
pub open spec fn icon_named(name: Seq<char>) -> Option<Option<ProfileIcon>> {
    if name == "auto"@ {
        Some(None)
    } else if name == "zetta"@ {
        Some(Some(ProfileIcon::Zetta))
    } else if name == "bash"@ {
        Some(Some(ProfileIcon::Bash))
    } else if name == "zsh"@ {
        Some(Some(ProfileIcon::Zsh))
    } else if name == "fish"@ {
        Some(Some(ProfileIcon::Fish))
    } else {
        None
    }
}

pub open spec fn is_separator(character: char) -> bool {
    character == '/' || character == '\\'
}

/// The last part of a path that is not empty, either slash separating parts.
pub open spec fn last_part(path: Seq<char>) -> Option<Seq<char>>
    decreases path.len(),
{
    if path.len() == 0 {
        None
    } else if is_separator(path.last()) {
        last_part(path.drop_last())
    } else {
        Some(tail_part(path))
    }
}

/// What follows the last separator.
pub open spec fn tail_part(path: Seq<char>) -> Seq<char>
    decreases path.len(),
{
    if path.len() == 0 || is_separator(path.last()) {
        Seq::empty()
    } else {
        tail_part(path.drop_last()).push(path.last())
    }
}

/// The name that a program goes by: the last part of its path, without an
/// `.exe` at its end, in lower case.
pub open spec fn program_name(program: Seq<char>) -> Option<Seq<char>> {
    match last_part(program) {
        None => None,
        Some(part) => Some(
            lowered(
                match without_suffix(part, ".exe"@) {
                    Some(stem) => stem,
                    None => match without_suffix(part, ".EXE"@) {
                        Some(stem) => stem,
                        None => part,
                    },
                },
            ),
        ),
    }
}

/// The icon of a shell by the name of its program.
pub open spec fn icon_of_program(program: Seq<char>) -> ProfileIcon {
    match program_name(program) {
        Some(name) => if name == "bash"@ {
            ProfileIcon::Bash
        } else if name == "zsh"@ {
            ProfileIcon::Zsh
        } else if name == "fish"@ {
            ProfileIcon::Fish
        } else {
            ProfileIcon::Zetta
        },
        None => ProfileIcon::Zetta,
    }
}

pub proof fn lemma_tail_part(path: Seq<char>, start: int)
    requires
        0 <= start <= path.len(),
        start == 0 || is_separator(path[start - 1]),
        forall|i: int| start <= i < path.len() ==> !is_separator(#[trigger] path[i]),
    ensures
        tail_part(path) == path.skip(start),
    decreases path.len(),
{
    if start < path.len() {
        let shorter = path.drop_last();
        assert forall|i: int| start <= i < shorter.len() implies !is_separator(
            #[trigger] shorter[i],
        ) by {
            assert(shorter[i] == path[i]);
        }
        assert(!is_separator(path[path.len() - 1]));
        lemma_tail_part(shorter, start);
        assert(shorter.skip(start).push(path.last()) == path.skip(start));
    } else {
        assert(path.skip(start) == Seq::<char>::empty());
    }
}

/// The name that a program goes by. See [`program_name`].
pub fn executable_basename(program: &str) -> (result: Option<String>)
    ensures
        optional_text(result) == program_name(program@),
{
    let path = characters(program);
    let mut end: usize = path.len();
    proof {
        assert(path@.take(end as int) == program@);
    }
    while end > 0 && (path[end - 1] == '/' || path[end - 1] == '\\')
        invariant
            end <= path@.len(),
            last_part(program@) == last_part(path@.take(end as int)),
        decreases end,
    {
        proof {
            assert(path@.take(end as int).drop_last() == path@.take(end - 1));
        }
        end = end - 1;
    }
    if end == 0 {
        return None;
    }
    let mut start: usize = end;
    while start > 0 && path[start - 1] != '/' && path[start - 1] != '\\'
        invariant
            start <= end <= path@.len(),
            forall|i: int| start <= i < end ==> !is_separator(#[trigger] path@[i]),
        decreases start,
    {
        start = start - 1;
    }
    let part = text_between(&path, start, end);
    proof {
        let whole = path@.take(end as int);
        assert forall|i: int| start <= i < whole.len() implies !is_separator(
            #[trigger] whole[i],
        ) by {
            assert(whole[i] == path@[i]);
        }
        lemma_tail_part(whole, start as int);
        assert(whole.skip(start as int) == path@.subrange(start as int, end as int));
    }
    let stem = match strip_suffix(part.as_str(), ".exe") {
        Some(stem) => stem,
        None => match strip_suffix(part.as_str(), ".EXE") {
            Some(stem) => stem,
            None => part,
        },
    };
    Some(to_ascii_lowercase(stem.as_str()))
}

impl ProfileIcon {
    /// Whether two icons are the same.
    pub open spec fn same(self, other: ProfileIcon) -> bool {
        match (self, other) {
            (ProfileIcon::Executable(left), ProfileIcon::Executable(right)) => left@ == right@,
            _ => self == other,
        }
    }

    /// A copy of the icon.
    pub fn duplicate(&self) -> (result: ProfileIcon)
        ensures
            result == *self,
            result.same(*self),
    {
        match self {
            ProfileIcon::Zetta => ProfileIcon::Zetta,
            ProfileIcon::Tux => ProfileIcon::Tux,
            ProfileIcon::Bash => ProfileIcon::Bash,
            ProfileIcon::Zsh => ProfileIcon::Zsh,
            ProfileIcon::Fish => ProfileIcon::Fish,
            ProfileIcon::Executable(path) => ProfileIcon::Executable(path.clone()),
        }
    }

    /// The configured icon: null and `auto` leave it to automatic discovery.
    pub fn parse(value: &Json) -> (result: Result<Option<ProfileIcon>, ProfileIconError>)
        ensures
            match value.view() {
                JsonView::Null => result == Ok::<Option<ProfileIcon>, ProfileIconError>(None),
                JsonView::Text(name) => match icon_named(lowered(name)) {
                    Some(icon) => result == Ok::<Option<ProfileIcon>, ProfileIconError>(icon),
                    None => result matches Err(ProfileIconError::UnknownName(refused)) && refused@
                        == name,
                },
                _ => result == Err::<Option<ProfileIcon>, ProfileIconError>(
                    ProfileIconError::NotAName,
                ),
            },
    {
        match value {
            Json::Null => Ok(None),
            Json::Text(name) => ProfileIcon::parse_name(name.as_str()),
            _ => Err(ProfileIconError::NotAName),
        }
    }

    /// The icon that a name stands for, in any case of its letters.
    pub fn parse_name(name: &str) -> (result: Result<Option<ProfileIcon>, ProfileIconError>)
        ensures
            match icon_named(lowered(name@)) {
                Some(icon) => result == Ok::<Option<ProfileIcon>, ProfileIconError>(icon),
                None => result matches Err(ProfileIconError::UnknownName(refused)) && refused@
                    == name@,
            },
    {
        let lowercase = to_ascii_lowercase(name);
        let wanted = lowercase.as_str();
        if same_text(wanted, "auto") {
            Ok(None)
        } else if same_text(wanted, "zetta") {
            Ok(Some(ProfileIcon::Zetta))
        } else if same_text(wanted, "bash") {
            Ok(Some(ProfileIcon::Bash))
        } else if same_text(wanted, "zsh") {
            Ok(Some(ProfileIcon::Zsh))
        } else if same_text(wanted, "fish") {
            Ok(Some(ProfileIcon::Fish))
        } else {
            Err(ProfileIconError::UnknownName(name.to_owned()))
        }
    }

    /// The configuration's name for the icon, where a configuration can name
    /// it.
    pub open spec fn name_text(self) -> Option<Seq<char>> {
        match self {
            ProfileIcon::Zetta => Some("zetta"@),
            ProfileIcon::Bash => Some("bash"@),
            ProfileIcon::Zsh => Some("zsh"@),
            ProfileIcon::Fish => Some("fish"@),
            ProfileIcon::Tux => None,
            ProfileIcon::Executable(_) => None,
        }
    }

    /// The configuration's name for the icon, where a configuration can name
    /// it.
    pub fn name(&self) -> (result: Option<&'static str>)
        ensures
            match result {
                Some(name) => self.name_text() == Some(name@) && icon_named(name@) == Some(
                    Some(*self),
                ),
                None => self.name_text() is None,
            },
    {
        proof {
            lemma_icon_names_differ();
        }
        match self {
            ProfileIcon::Zetta => Some("zetta"),
            ProfileIcon::Tux => None,
            ProfileIcon::Bash => Some("bash"),
            ProfileIcon::Zsh => Some("zsh"),
            ProfileIcon::Fish => Some("fish"),
            ProfileIcon::Executable(_) => None,
        }
    }

    /// The icon's name for people to read.
    pub open spec fn label_text(self) -> Seq<char> {
        match self {
            ProfileIcon::Zetta => "Zetta"@,
            ProfileIcon::Tux => "Tux"@,
            ProfileIcon::Bash => "Bash"@,
            ProfileIcon::Zsh => "Zsh"@,
            ProfileIcon::Fish => "Fish"@,
            ProfileIcon::Executable(_) => "Executable"@,
        }
    }

    /// The icon's name for people to read.
    pub fn label(&self) -> (result: &'static str)
        ensures
            result@ == self.label_text(),
    {
        match self {
            ProfileIcon::Zetta => "Zetta",
            ProfileIcon::Tux => "Tux",
            ProfileIcon::Bash => "Bash",
            ProfileIcon::Zsh => "Zsh",
            ProfileIcon::Fish => "Fish",
            ProfileIcon::Executable(_) => "Executable",
        }
    }

    /// What a selector shows for a choice of icon.
    pub fn selector_label(icon: Option<&ProfileIcon>) -> (result: &'static str)
        ensures
            result@ == match icon {
                Some(icon) => icon.label_text(),
                None => "Automatic"@,
            },
    {
        match icon {
            Some(icon) => icon.label(),
            None => "Automatic",
        }
    }

    /// The icon of a shell, by its program.
    pub fn automatic_for_shell(shell: &Shell) -> (result: ProfileIcon)
        ensures
            result == icon_of_program(shell.program_text()),
    {
        ProfileIcon::automatic_for_program(shell.program())
    }

    /// The icon of a program, by its name.
    pub fn automatic_for_program(program: &str) -> (result: ProfileIcon)
        ensures
            result == icon_of_program(program@),
    {
        automatic_for_program(program, None)
    }

    /// The icon of a profile. Profiles of WSL and MSYS2 go by their own name,
    /// because the program that they run is not the shell inside.
    pub fn automatic_for_profile(name: &str, shell: &Shell) -> (result: ProfileIcon)
        ensures
            result == if has_prefix(lowered(name@), "wsl: "@) {
                ProfileIcon::Tux
            } else if same_ignoring_case(name@, "msys2"@) || has_prefix(
                lowered(name@),
                "msys2: "@,
            ) {
                if has_part(lowered(name@), "zsh"@) {
                    ProfileIcon::Zsh
                } else {
                    ProfileIcon::Bash
                }
            } else {
                icon_of_program(shell.program_text())
            },
    {
        let lowercase = to_ascii_lowercase(name);
        if starts_with(lowercase.as_str(), "wsl: ") {
            return ProfileIcon::Tux;
        }
        if eq_ignore_ascii_case(name, "msys2") || starts_with(lowercase.as_str(), "msys2: ") {
            if contains_text(lowercase.as_str(), "zsh") {
                return ProfileIcon::Zsh;
            }
            return ProfileIcon::Bash;
        }
        ProfileIcon::automatic_for_shell(shell)
    }

    /// Infers a shell icon from the executable basename.
    pub fn automatic_for_program_name(program: &str) -> (result: ProfileIcon)
        ensures
            result == icon_of_program(program@),
    {
        match executable_basename(program) {
            Some(name) => {
                if same_text(name.as_str(), "bash") {
                    ProfileIcon::Bash
                } else if same_text(name.as_str(), "zsh") {
                    ProfileIcon::Zsh
                } else if same_text(name.as_str(), "fish") {
                    ProfileIcon::Fish
                } else {
                    ProfileIcon::Zetta
                }
            },
            None => ProfileIcon::Zetta,
        }
    }

    /// The bundled artwork of the icon. An executable without an icon of its
    /// own falls back to Zetta's.
    pub fn asset_path(&self) -> (result: &'static str)
        ensures
            result@ == match *self {
                ProfileIcon::Zetta => "icons/profile/zetta.svg"@,
                ProfileIcon::Tux => "icons/profile/tux.png"@,
                ProfileIcon::Bash => "icons/profile/bash.svg"@,
                ProfileIcon::Zsh => "icons/profile/zsh.svg"@,
                ProfileIcon::Fish => "icons/profile/fish.svg"@,
                ProfileIcon::Executable(_) => "icons/profile/zetta.svg"@,
            },
    {
        match self {
            ProfileIcon::Zetta => "icons/profile/zetta.svg",
            ProfileIcon::Tux => "icons/profile/tux.png",
            ProfileIcon::Bash => "icons/profile/bash.svg",
            ProfileIcon::Zsh => "icons/profile/zsh.svg",
            ProfileIcon::Fish => "icons/profile/fish.svg",
            ProfileIcon::Executable(_) => "icons/profile/zetta.svg",
        }
    }

    /// Where the Windows jump list finds the icon: the file, and the zero-based
    /// index of the icon group in it. `executable_is_file` is whether the
    /// executable of such an icon is there.
    pub fn jump_list_icon_location(&self, target: &str, executable_is_file: bool) -> (result: (
        String,
        i32,
    ))
        ensures
            match *self {
                ProfileIcon::Executable(executable) if executable_is_file => result.0@
                    == executable@ && result.1 == 0,
                ProfileIcon::Tux => result.0@ == target@ && result.1 == 5,
                ProfileIcon::Bash => result.0@ == target@ && result.1 == 2,
                ProfileIcon::Zsh => result.0@ == target@ && result.1 == 3,
                ProfileIcon::Fish => result.0@ == target@ && result.1 == 4,
                _ => result.0@ == target@ && result.1 == 1,
            },
    {
        match self {
            ProfileIcon::Executable(executable) => if executable_is_file {
                (executable.clone(), 0)
            } else {
                (target.to_owned(), WINDOWS_ZETTA_ICON_INDEX)
            },
            ProfileIcon::Zetta => (target.to_owned(), WINDOWS_ZETTA_ICON_INDEX),
            ProfileIcon::Tux => (target.to_owned(), WINDOWS_TUX_ICON_INDEX),
            ProfileIcon::Bash => (target.to_owned(), WINDOWS_BASH_ICON_INDEX),
            ProfileIcon::Zsh => (target.to_owned(), WINDOWS_ZSH_ICON_INDEX),
            ProfileIcon::Fish => (target.to_owned(), WINDOWS_FISH_ICON_INDEX),
        }
    }
}

// A shell link takes a zero-based icon-group index. The resource identifiers
// start at 1, so these are one less than the corresponding ones.
pub const WINDOWS_ZETTA_ICON_INDEX: i32 = 1;

pub const WINDOWS_TUX_ICON_INDEX: i32 = 5;

pub const WINDOWS_BASH_ICON_INDEX: i32 = 2;

pub const WINDOWS_ZSH_ICON_INDEX: i32 = 3;

pub const WINDOWS_FISH_ICON_INDEX: i32 = 4;

/// The icon of a program: the one of the executable that was found for it, if
/// that has one, or else the one of its name.
pub fn automatic_for_program(program: &str, executable: Option<String>) -> (result: ProfileIcon)
    ensures
        result == match executable {
            Some(executable) => ProfileIcon::Executable(executable),
            None => icon_of_program(program@),
        },
{
    match executable {
        Some(executable) => ProfileIcon::Executable(executable),
        None => ProfileIcon::automatic_for_program_name(program),
    }
}

/// Turns pixels of blue, green, red and alpha bytes into pixels of red, green,
/// blue and alpha bytes. A rest of less than a pixel stays.
pub fn swap_red_and_blue(pixels: &mut Vec<u8>)
    ensures
        final(pixels)@.len() == old(pixels)@.len(),
        forall|i: int|
            0 <= i < old(pixels)@.len() ==> #[trigger] final(pixels)@[i] == old(
                pixels,
            )@[exchanged_index(i, old(pixels)@.len() as int)],
{
    let ghost before = pixels@;
    let count: usize = pixels.len();
    let mut start: usize = 0;
    while count - start >= 4
        invariant
            start <= count,
            start % 4 == 0,
            count == before.len(),
            pixels@.len() == count,
            forall|i: int|
                0 <= i < start ==> #[trigger] pixels@[i] == before[exchanged_index(
                    i,
                    count as int,
                )],
            forall|i: int| start <= i < count ==> #[trigger] pixels@[i] == before[i],
        decreases count - start,
    {
        let blue = pixels[start];
        let red = pixels[start + 2];
        pixels.set(start, red);
        pixels.set(start + 2, blue);
        start = start + 4;
    }
}

/// Where the byte at `index` comes from when red and blue are exchanged.
pub open spec fn exchanged_index(index: int, count: int) -> int {
    if index / 4 * 4 + 4 > count {
        index
    } else if index % 4 == 0 {
        index + 2
    } else if index % 4 == 2 {
        index - 2
    } else {
        index
    }
}

proof fn lemma_icon_names_differ()
    ensures
        "auto"@ != "zetta"@,
        "auto"@ != "bash"@,
        "auto"@ != "zsh"@,
        "auto"@ != "fish"@,
        "zetta"@ != "bash"@,
        "zetta"@ != "zsh"@,
        "zetta"@ != "fish"@,
        "bash"@ != "zsh"@,
        "bash"@ != "fish"@,
        "zsh"@ != "fish"@,
{
    reveal_strlit("auto");
    reveal_strlit("zetta");
    reveal_strlit("bash");
    reveal_strlit("zsh");
    reveal_strlit("fish");
    assert("auto"@[0] == 'a' && "zetta"@[0] == 'z' && "bash"@[0] == 'b' && "zsh"@[0] == 'z'
        && "fish"@[0] == 'f');
    assert("zetta"@[1] == 'e' && "zsh"@[1] == 's');
}

/// An icon's name reads back as the icon, in whatever case it is written: that
/// is every text whose lower case is the name, the name itself among them.
pub proof fn law_icon_names_read_back(icon: ProfileIcon, text: Seq<char>)
    requires
        icon.name_text() is Some,
    ensures
        lowered(icon.name_text()->0) == icon.name_text()->0,
        lowered(text) == icon.name_text()->0 ==> icon_named(lowered(text)) == Some(Some(icon)),
{
    lemma_icon_names_differ();
    let name = icon.name_text()->0;
    reveal_strlit("zetta");
    reveal_strlit("bash");
    reveal_strlit("zsh");
    reveal_strlit("fish");
    assert(lowered(name) =~= name);
}

/// Each icon that can be chosen goes by its own name, and a name that no icon has is
/// refused.
pub proof fn law_icons_go_by_their_names(name: Seq<char>)
    ensures
        icon_named("auto"@) == Some(None::<ProfileIcon>),
        icon_named("zetta"@) == Some(Some(ProfileIcon::Zetta)),
        icon_named("bash"@) == Some(Some(ProfileIcon::Bash)),
        icon_named("zsh"@) == Some(Some(ProfileIcon::Zsh)),
        icon_named("fish"@) == Some(Some(ProfileIcon::Fish)),
        name != "auto"@ && name != "zetta"@ && name != "bash"@ && name != "zsh"@ && name != "fish"@
            ==> icon_named(name) is None,
        icon_named(name) matches Some(Some(icon)) ==> lowered(icon.label_text()) == name,
{
    reveal_strlit("auto");
    reveal_strlit("zetta");
    reveal_strlit("bash");
    reveal_strlit("zsh");
    reveal_strlit("fish");
    assert("auto"@.len() == 4 && "zetta"@.len() == 5 && "bash"@.len() == 4);
    assert("zsh"@.len() == 3 && "fish"@.len() == 4 && "bash"@[0] == 'b');
    assert("auto"@[0] == 'a' && "fish"@[0] == 'f');
    reveal_strlit("Zetta");
    reveal_strlit("Bash");
    reveal_strlit("Zsh");
    reveal_strlit("Fish");
    assert(lowered("Zetta"@) =~= "zetta"@);
    assert(lowered("Bash"@) =~= "bash"@);
    assert(lowered("Zsh"@) =~= "zsh"@);
    assert(lowered("Fish"@) =~= "fish"@);
}

/// A shell has its icon in whatever directory it is, in whatever case it is written, and
/// with the extension of a program or without it.
pub proof fn law_shell_has_its_icon_anywhere(directory: Seq<char>, name: Seq<char>)
    requires
        directory.len() == 0 || is_separator(directory.last()),
        name.len() > 0,
        forall|i: int| 0 <= i < name.len() ==> !is_separator(#[trigger] name[i]),
        !has_part(name, "."@),
    ensures
        program_name(directory + name) == Some(lowered(name)),
        program_name(directory + name + ".exe"@) == Some(lowered(name)),
        program_name(directory + name + ".EXE"@) == Some(lowered(name)),
        lowered(name) == "bash"@ ==> icon_of_program(directory + name) == ProfileIcon::Bash,
        lowered(name) == "zsh"@ ==> icon_of_program(directory + name) == ProfileIcon::Zsh,
        lowered(name) == "fish"@ ==> icon_of_program(directory + name) == ProfileIcon::Fish,
        lowered(name) != "bash"@ && lowered(name) != "zsh"@ && lowered(name) != "fish"@
            ==> icon_of_program(directory + name) == ProfileIcon::Zetta,
{
    reveal_strlit("bash");
    reveal_strlit("zsh");
    reveal_strlit("fish");
    reveal_strlit(".exe");
    reveal_strlit(".EXE");
    reveal_strlit(".");
    assert("bash"@[0] == 'b' && "fish"@[0] == 'f' && "zsh"@.len() == 3);
    let start = directory.len() as int;
    let plain = directory + name;
    assert forall|i: int| start <= i < plain.len() implies !is_separator(#[trigger] plain[i]) by {
        assert(plain[i] == name[i - start]);
    }
    if start > 0 {
        assert(plain[start - 1] == directory.last());
    }
    lemma_tail_part(plain, start);
    assert(plain.skip(start) =~= name);
    assert(plain.last() == name.last());
    assert(!is_separator(name[name.len() - 1]));
    assert forall|i: int| 0 <= i < name.len() implies name[i] != '.' by {
        if name[i] == '.' {
            assert(name.subrange(i, i + 1) =~= "."@);
        }
    }
    assert(without_suffix(name, ".exe"@) is None) by {
        if has_suffix(name, ".exe"@) {
            assert(name.skip(name.len() - 4)[0] == name[name.len() - 4]);
        }
    }
    assert(without_suffix(name, ".EXE"@) is None) by {
        if has_suffix(name, ".EXE"@) {
            assert(name.skip(name.len() - 4)[0] == name[name.len() - 4]);
        }
    }
    lemma_program_with_extension(directory, name, ".exe"@);
    lemma_program_with_extension(directory, name, ".EXE"@);
    assert((name + ".EXE"@).skip(name.len() as int) =~= ".EXE"@);
    assert((name + ".exe"@).skip(name.len() as int) =~= ".exe"@);
    assert((name + ".exe"@).take(name.len() as int) =~= name);
    assert((name + ".EXE"@).take(name.len() as int) =~= name);
    assert(".exe"@[1] == 'e' && ".EXE"@[1] == 'E');
    assert(!has_suffix(name + ".EXE"@, ".exe"@));
}

proof fn lemma_program_with_extension(directory: Seq<char>, name: Seq<char>, extension: Seq<char>)
    requires
        directory.len() == 0 || is_separator(directory.last()),
        extension.len() > 0,
        forall|i: int| 0 <= i < name.len() ==> !is_separator(#[trigger] name[i]),
        forall|i: int| 0 <= i < extension.len() ==> !is_separator(#[trigger] extension[i]),
    ensures
        last_part(directory + name + extension) == Some(name + extension),
{
    let start = directory.len() as int;
    let whole = directory + name + extension;
    assert forall|i: int| start <= i < whole.len() implies !is_separator(#[trigger] whole[i]) by {
        if i < start + name.len() {
            assert(whole[i] == name[i - start]);
        } else {
            assert(whole[i] == extension[i - start - name.len()]);
        }
    }
    if start > 0 {
        assert(whole[start - 1] == directory.last());
    }
    lemma_tail_part(whole, start);
    assert(whole.skip(start) =~= name + extension);
    assert(whole.last() == whole[whole.len() - 1]);
}

/// In each whole pixel the first and the third byte change places and the others stay;
/// doing so twice changes nothing.
pub proof fn law_colors_change_places(index: int, count: int)
    requires
        0 <= index < count,
    ensures
        0 <= exchanged_index(index, count) < count,
        exchanged_index(exchanged_index(index, count), count) == index,
        index % 4 == 1 || index % 4 == 3 ==> exchanged_index(index, count) == index,
        index % 4 == 0 && index + 4 <= count ==> exchanged_index(index, count) == index + 2,
        index - index % 4 + 4 > count ==> exchanged_index(index, count) == index,
{
}

} // verus!
