//! Zetta's keymap file model.
//!
//! A keymap is a JSON array of sections, each with an optional `context`
//! predicate and a `bindings` map from keystroke sequence to action. An action
//! is either a name, or a `[name, input]` pair, or `null` to bind nothing.

use vstd::prelude::*;

use crate::json::{
    display, display_of_json, items_view, lemma_array_view, Json, JsonView,
};
use crate::text::{
    chained, join_texts, joined, optional_text, quoted, quoted_text, texts, trim, trimmed,
};

verus! {

/// The bindings of a section, in their order.
#[derive(Debug, PartialEq, Eq)]
pub struct KeymapSection {
    /// When these bindings are active, as a context predicate. Empty means
    /// always.
    pub context: String,
    /// Position-equivalent mappings for non-QWERTY keyboards; macOS only.
    pub use_key_equivalents: bool,
    pub bindings: Vec<(String, Json)>,
}

/// The sections of a keymap, in their order.
#[derive(Debug, PartialEq, Eq)]
pub struct KeymapFile {
    pub sections: Vec<KeymapSection>,
}

/// The action that a binding names, and its input if it has one.
#[derive(Debug, PartialEq, Eq)]
pub struct NamedAction {
    pub name: String,
    pub input: Option<Json>,
}

/// What an action of a keymap says.
pub ghost enum ActionView {
    /// Bound to nothing.
    Unbound,
    Named { name: Seq<char>, input: Option<JsonView> },
    Refused { reason: Seq<char> },
}

/// What an action of a keymap says.
pub open spec fn action_of(action: JsonView) -> ActionView {
    match action {
        JsonView::Text(name) => ActionView::Named { name, input: None },
        JsonView::Null => ActionView::Unbound,
        JsonView::Array(items) => if items.len() != 2 {
            ActionView::Refused {
                reason: "expected a two-element array of [name, input], found "@ + display_of_json(
                    action,
                ),
            }
        } else {
            match items[0] {
                JsonView::Text(name) => ActionView::Named { name, input: Some(items[1]) },
                _ => ActionView::Refused {
                    reason: "expected a two-element array of [name, input] whose first element is a string, found "@
                        + display_of_json(action),
                },
            }
        },
        _ => ActionView::Refused {
            reason: "expected an action name or a two-element array of [name, input], found "@
                + display_of_json(action),
        },
    }
}

/// Optional JSON as it views.
pub open spec fn optional_json(value: Option<Json>) -> Option<JsonView> {
    match value {
        Some(value) => Some(value.view()),
        None => None,
    }
}

impl KeymapFile {
    /// What a file holds, where reading it gave `read`. A blank one holds
    /// nothing.
    pub fn parse(content: &str, read: Result<KeymapFile, String>) -> (result: Result<
        KeymapFile,
        String,
    >)
        ensures
            trimmed(content@).len() == 0 ==> (result matches Ok(file) && file.sections@.len() == 0),
            trimmed(content@).len() > 0 ==> match read {
                Ok(file) => result == Ok::<KeymapFile, String>(file),
                Err(error) => result matches Err(reason) && reason@ == "parsing keymap: "@ + error@,
            },
    {
        if trim(content).as_str().is_empty() {
            return Ok(KeymapFile { sections: Vec::new() });
        }
        match read {
            Ok(file) => Ok(file),
            Err(error) => Err(joined("parsing keymap: ", error.as_str())),
        }
    }

    /// The action a binding names, and its input if it has one. `Ok(None)`
    /// means the binding is explicitly `null`: bound to nothing.
    pub fn parse_action(action: &Json) -> (result: Result<Option<NamedAction>, String>)
        ensures
            match result {
                Ok(Some(named)) => action_of(action.view()) == (ActionView::Named {
                    name: named.name@,
                    input: optional_json(named.input),
                }),
                Ok(None) => action_of(action.view()) == ActionView::Unbound,
                Err(reason) => action_of(action.view()) == (ActionView::Refused {
                    reason: reason@,
                }),
            },
    {
        match action {
            Json::Text(name) => Ok(Some(NamedAction { name: name.clone(), input: None })),
            Json::Null => Ok(None),
            Json::Array(items) => {
                proof {
                    lemma_array_view(*items);
                    assert(items_view(items@).len() == items@.len());
                }
                if items.len() != 2 {
                    let shown = display(action);
                    return Err(
                        joined(
                            "expected a two-element array of [name, input], found ",
                            shown.as_str(),
                        ),
                    );
                }
                proof {
                    assert(items_view(items@)[0] == items@[0].view());
                    assert(items_view(items@)[1] == items@[1].view());
                }
                match &items[0] {
                    Json::Text(name) => Ok(
                        Some(NamedAction { name: name.clone(), input: Some(items[1].duplicate()) }),
                    ),
                    _ => {
                        let shown = display(action);
                        Err(
                            joined(
                                "expected a two-element array of [name, input] whose first element is a string, found ",
                                shown.as_str(),
                            ),
                        )
                    },
                }
            },
            _ => {
                let shown = display(action);
                Err(
                    joined(
                        "expected an action name or a two-element array of [name, input], found ",
                        shown.as_str(),
                    ),
                )
            },
        }
    }
}

/// What an action is built from.
#[derive(Debug, PartialEq, Eq)]
pub enum ActionRequest {
    /// The keystroke is unbound.
    NoAction,
    /// The action of a name, with its input and with the input as text.
    Named { name: String, input: Option<Json>, text: Option<String> },
}

/// What a binding's action is built from, or why it cannot be.
pub fn build_action(action: &Json) -> (result: Result<ActionRequest, String>)
    ensures
        match result {
            Ok(ActionRequest::NoAction) => action_of(action.view()) == ActionView::Unbound,
            Ok(ActionRequest::Named { name, input, text }) => {
                &&& action_of(action.view()) == (ActionView::Named {
                    name: name@,
                    input: optional_json(input),
                })
                &&& optional_text(text) == match optional_json(input) {
                    Some(input) => Some(display_of_json(input)),
                    None => None,
                }
            },
            Err(reason) => action_of(action.view()) == (ActionView::Refused { reason: reason@ }),
        },
{
    match KeymapFile::parse_action(action) {
        Ok(Some(named)) => {
            let text = match &named.input {
                Some(input) => Some(display(input)),
                None => None,
            };
            Ok(ActionRequest::Named { name: named.name, input: named.input, text })
        },
        Ok(None) => Ok(ActionRequest::NoAction),
        Err(reason) => Err(reason),
    }
}

/// What came of loading a section: why its context could not be read, or for
/// each of its bindings the number of the key binding, or why it could not be
/// loaded.
#[derive(Debug, PartialEq, Eq)]
pub struct SectionOutcome {
    pub context_error: Option<String>,
    pub bindings: Vec<Result<u64, String>>,
}

/// What a keymap came to.
#[derive(Debug, PartialEq, Eq)]
pub enum KeymapFileLoadResult {
    Success { key_bindings: Vec<u64> },
    /// Some bindings loaded and some did not. This is the normal result for the
    /// bundled keymap, which names actions that are not registered.
    SomeFailedToLoad { key_bindings: Vec<u64>, error_message: String },
    JsonParseFailure { error: String },
}

/// The key bindings of some outcomes, in their order.
pub open spec fn loaded_in(outcomes: Seq<Result<u64, String>>) -> Seq<u64>
    decreases outcomes.len(),
{
    if outcomes.len() == 0 {
        Seq::empty()
    } else {
        let before = loaded_in(outcomes.drop_last());
        match outcomes.last() {
            Ok(binding) => before.push(binding),
            Err(_) => before,
        }
    }
}

/// What is said of a binding that could not be loaded.
pub open spec fn binding_error(context: Seq<char>, keystrokes: Seq<char>, error: Seq<char>) -> Seq<
    char,
> {
    "in context "@ + quoted_text(context) + ", binding "@ + quoted_text(keystrokes) + ": "@ + error
}

/// What is said of the bindings of a section that could not be loaded.
pub open spec fn errors_in(
    context: Seq<char>,
    bindings: Seq<(String, Json)>,
    outcomes: Seq<Result<u64, String>>,
) -> Seq<Seq<char>>
    decreases outcomes.len(),
{
    if outcomes.len() == 0 {
        Seq::empty()
    } else {
        let before = errors_in(context, bindings, outcomes.drop_last());
        match outcomes.last() {
            Ok(_) => before,
            Err(error) => before.push(
                binding_error(context, bindings[outcomes.len() - 1].0@, error@),
            ),
        }
    }
}

/// Why a section is left out, where its context could not be read.
pub open spec fn context_failure(section: KeymapSection, outcome: SectionOutcome) -> Option<
    Seq<char>,
> {
    match outcome.context_error {
        Some(error) if section.context@.len() > 0 => Some(
            "in context "@ + quoted_text(section.context@) + ": could not parse the context: "@
                + error@,
        ),
        _ => None,
    }
}

/// The key bindings of some sections, in their order.
pub open spec fn all_loaded(sections: Seq<KeymapSection>, outcomes: Seq<SectionOutcome>) -> Seq<u64>
    decreases sections.len(),
{
    if sections.len() == 0 {
        Seq::empty()
    } else {
        let before = all_loaded(sections.drop_last(), outcomes);
        let outcome = outcomes[sections.len() - 1];
        if context_failure(sections.last(), outcome) is Some {
            before
        } else {
            before + loaded_in(outcome.bindings@)
        }
    }
}

/// What is said of what could not be loaded, in its order.
pub open spec fn all_errors(sections: Seq<KeymapSection>, outcomes: Seq<SectionOutcome>) -> Seq<
    Seq<char>,
>
    decreases sections.len(),
{
    if sections.len() == 0 {
        Seq::empty()
    } else {
        let before = all_errors(sections.drop_last(), outcomes);
        let section = sections.last();
        let outcome = outcomes[sections.len() - 1];
        match context_failure(section, outcome) {
            Some(error) => before.push(error),
            None => before + errors_in(section.context@, section.bindings@, outcome.bindings@),
        }
    }
}

/// A binding whose action was built, if its keys could be read. `loaded` is
/// the binding, or the keystroke that could not be read.
pub fn load_binding(built: Result<ActionRequest, String>, loaded: Result<u64, String>) -> (result:
    Result<u64, String>)
    ensures
        match (built, loaded) {
            (Err(error), _) => result == Err::<u64, String>(error),
            (Ok(_), Ok(binding)) => result == Ok::<u64, String>(binding),
            (Ok(_), Err(keystroke)) => result matches Err(error) && error@
                == "invalid keystroke "@ + quoted_text(keystroke@),
        },
{
    match built {
        Err(error) => Err(error),
        Ok(_) => match loaded {
            Ok(binding) => Ok(binding),
            Err(keystroke) => {
                let keystroke = quoted(keystroke.as_str());
                Err(joined("invalid keystroke ", keystroke.as_str()))
            },
        },
    }
}

/// Whether there is an outcome for every section, and for every binding of
/// those whose context could be read.
pub open spec fn covers(outcomes: Seq<SectionOutcome>, sections: Seq<KeymapSection>) -> bool {
    &&& outcomes.len() == sections.len()
    &&& forall|i: int|
        0 <= i < sections.len() ==> (#[trigger] outcomes[i]).bindings@.len()
            == sections[i].bindings@.len() || context_failure(sections[i], outcomes[i]) is Some
}

fn write_binding_error(context: &str, keystrokes: &str, error: &str) -> (result: String)
    ensures
        result@ == binding_error(context@, keystrokes@, error@),
{
    let shown = quoted(context);
    let keys = quoted(keystrokes);
    let mut text = joined("in context ", shown.as_str());
    text.push_str(", binding ");
    text.push_str(keys.as_str());
    text.push_str(": ");
    text.push_str(error);
    text
}

fn load_section(
    section: &KeymapSection,
    outcome: &SectionOutcome,
    key_bindings: &mut Vec<u64>,
    errors: &mut Vec<String>,
)
    requires
        outcome.bindings@.len() == section.bindings@.len(),
    ensures
        final(key_bindings)@ == old(key_bindings)@ + loaded_in(outcome.bindings@),
        texts(final(errors)@) == texts(old(errors)@) + errors_in(
            section.context@,
            section.bindings@,
            outcome.bindings@,
        ),
{
    let ghost bound = key_bindings@;
    let ghost said = texts(errors@);
    let ghost all = outcome.bindings@;
    let mut index: usize = 0;
    proof {
        assert(all.take(0) == Seq::<Result<u64, String>>::empty());
        assert(key_bindings@ =~= bound + loaded_in(all.take(0)));
        assert(texts(errors@) =~= said + errors_in(
            section.context@,
            section.bindings@,
            all.take(0),
        ));
    }
    while index < outcome.bindings.len()
        invariant
            index <= outcome.bindings@.len() == section.bindings@.len(),
            all == outcome.bindings@,
            key_bindings@ == bound + loaded_in(all.take(index as int)),
            texts(errors@) == said + errors_in(
                section.context@,
                section.bindings@,
                all.take(index as int),
            ),
        decreases outcome.bindings@.len() - index,
    {
        proof {
            let longer = all.take(index + 1);
            assert(longer.drop_last() == all.take(index as int));
            assert(longer.last() == all[index as int]);
        }
        match &outcome.bindings[index] {
            Ok(binding) => {
                key_bindings.push(*binding);
                proof {
                    assert(key_bindings@ =~= bound + loaded_in(all.take(index + 1)));
                }
            },
            Err(error) => {
                let text = write_binding_error(
                    section.context.as_str(),
                    section.bindings[index].0.as_str(),
                    error.as_str(),
                );
                let ghost before = errors@;
                errors.push(text);
                proof {
                    assert(texts(errors@) =~= texts(before).push(text@));
                    assert(texts(errors@) =~= said + errors_in(
                        section.context@,
                        section.bindings@,
                        all.take(index + 1),
                    ));
                }
            },
        }
        index = index + 1;
    }
    proof {
        assert(all.take(index as int) == all);
    }
}

impl KeymapFile {
    /// The key bindings of the file, and what is said of those that could not
    /// be loaded: one bad entry does not cost the user the others.
    pub fn load_keymap(&self, outcomes: &Vec<SectionOutcome>) -> (result: KeymapFileLoadResult)
        requires
            covers(outcomes@, self.sections@),
        ensures
            match result {
                KeymapFileLoadResult::Success { key_bindings } => {
                    &&& key_bindings@ == all_loaded(self.sections@, outcomes@)
                    &&& all_errors(self.sections@, outcomes@).len() == 0
                },
                KeymapFileLoadResult::SomeFailedToLoad { key_bindings, error_message } => {
                    &&& key_bindings@ == all_loaded(self.sections@, outcomes@)
                    &&& all_errors(self.sections@, outcomes@).len() > 0
                    &&& error_message@ == chained(all_errors(self.sections@, outcomes@), "; "@)
                },
                KeymapFileLoadResult::JsonParseFailure { error } => false,
            },
    {
        let mut key_bindings: Vec<u64> = Vec::new();
        let mut errors: Vec<String> = Vec::new();
        let mut index: usize = 0;
        let ghost all = self.sections@;
        proof {
            assert(all.take(0) == Seq::<KeymapSection>::empty());
            assert(texts(errors@) =~= Seq::<Seq<char>>::empty());
        }
        while index < self.sections.len()
            invariant
                index <= self.sections@.len(),
                all == self.sections@,
                covers(outcomes@, self.sections@),
                key_bindings@ == all_loaded(all.take(index as int), outcomes@),
                texts(errors@) == all_errors(all.take(index as int), outcomes@),
            decreases self.sections@.len() - index,
        {
            let section = &self.sections[index];
            let outcome = &outcomes[index];
            proof {
                let longer = all.take(index + 1);
                assert(longer.drop_last() == all.take(index as int));
                assert(longer.last() == all[index as int]);
            }
            let failure = match &outcome.context_error {
                Some(error) => if section.context.as_str().is_empty() {
                    None
                } else {
                    let shown = quoted(section.context.as_str());
                    let mut text = joined("in context ", shown.as_str());
                    text.push_str(": could not parse the context: ");
                    text.push_str(error.as_str());
                    Some(text)
                },
                None => None,
            };
            match failure {
                Some(text) => {
                    let ghost before = errors@;
                    errors.push(text);
                    proof {
                        assert(texts(errors@) =~= texts(before).push(text@));
                    }
                },
                None => {
                    load_section(section, outcome, &mut key_bindings, &mut errors);
                },
            }
            index = index + 1;
        }
        proof {
            assert(all.take(index as int) == all);
            assert(texts(errors@).len() == errors@.len());
        }
        if errors.len() == 0 {
            KeymapFileLoadResult::Success { key_bindings }
        } else {
            let error_message = join_texts(&errors, "; ");
            KeymapFileLoadResult::SomeFailedToLoad { key_bindings, error_message }
        }
    }

    /// The bindings of a bundled keymap: whatever resolved, unless the keymap
    /// could not be read.
    pub fn allow_partial_failure(asset_path: &str, loaded: KeymapFileLoadResult) -> (result: Result<
        Vec<u64>,
        String,
    >)
        ensures
            match loaded {
                KeymapFileLoadResult::Success { key_bindings } => result == Ok::<Vec<u64>, String>(
                    key_bindings,
                ),
                KeymapFileLoadResult::SomeFailedToLoad { key_bindings, error_message } => result
                    == Ok::<Vec<u64>, String>(key_bindings),
                KeymapFileLoadResult::JsonParseFailure { error } => result matches Err(reason)
                    && reason@ == "parsing keymap asset "@ + asset_path@ + ": "@ + error@,
            },
    {
        match loaded {
            KeymapFileLoadResult::Success { key_bindings } => Ok(key_bindings),
            KeymapFileLoadResult::SomeFailedToLoad { key_bindings, error_message: _ } => Ok(
                key_bindings,
            ),
            KeymapFileLoadResult::JsonParseFailure { error } => {
                let mut text = joined("parsing keymap asset ", asset_path);
                text.push_str(": ");
                text.push_str(error.as_str());
                Err(text)
            },
        }
    }
}

proof fn lemma_loaded_in(outcomes: Seq<Result<u64, String>>, index: int)
    requires
        0 <= index < outcomes.len(),
        outcomes[index] is Ok,
    ensures
        loaded_in(outcomes).contains(outcomes[index]->Ok_0),
    decreases outcomes.len(),
{
    let shorter = outcomes.drop_last();
    if index < shorter.len() {
        assert(shorter[index] == outcomes[index]);
        lemma_loaded_in(shorter, index);
        let at = choose|at: int|
            0 <= at < loaded_in(shorter).len() && loaded_in(shorter)[at] == outcomes[index]->Ok_0;
        assert(loaded_in(outcomes)[at] == outcomes[index]->Ok_0);
    } else {
        assert(loaded_in(outcomes).last() == outcomes[index]->Ok_0);
    }
}

/// A binding that can be loaded is loaded, whatever the others come to, unless
/// the context of its section cannot be read.
pub proof fn law_good_bindings_are_kept(
    sections: Seq<KeymapSection>,
    outcomes: Seq<SectionOutcome>,
    section: int,
    binding: int,
)
    requires
        covers(outcomes, sections),
        0 <= section < sections.len(),
        0 <= binding < sections[section].bindings@.len(),
        context_failure(sections[section], outcomes[section]) is None,
        outcomes[section].bindings@[binding] is Ok,
    ensures
        all_loaded(sections, outcomes).contains(outcomes[section].bindings@[binding]->Ok_0),
{
    lemma_all_loaded(sections, outcomes, section, binding);
}

proof fn lemma_all_loaded(
    sections: Seq<KeymapSection>,
    outcomes: Seq<SectionOutcome>,
    section: int,
    binding: int,
)
    requires
        sections.len() <= outcomes.len(),
        0 <= section < sections.len(),
        0 <= binding < outcomes[section].bindings@.len(),
        context_failure(sections[section], outcomes[section]) is None,
        outcomes[section].bindings@[binding] is Ok,
    ensures
        all_loaded(sections, outcomes).contains(outcomes[section].bindings@[binding]->Ok_0),
    decreases sections.len(),
{
    let shorter = sections.drop_last();
    let wanted = outcomes[section].bindings@[binding]->Ok_0;
    let before = all_loaded(shorter, outcomes);
    let all = all_loaded(sections, outcomes);
    if section < shorter.len() {
        assert(shorter[section] == sections[section]);
        lemma_all_loaded(shorter, outcomes, section, binding);
        let at = choose|at: int| 0 <= at < before.len() && before[at] == wanted;
        assert(all[at] == wanted);
    } else {
        lemma_loaded_in(outcomes[section].bindings@, binding);
        let own = loaded_in(outcomes[section].bindings@);
        let at = choose|at: int| 0 <= at < own.len() && own[at] == wanted;
        assert(all[before.len() + at] == wanted);
    }
}

/// An action is named by a text, or by a text and what is handed to it; null takes a key
/// away; and anything else is refused.
pub proof fn law_actions_are_read_as_written(name: Seq<char>, input: JsonView, items: Seq<JsonView>)
    ensures
        action_of(JsonView::Text(name)) == (ActionView::Named { name, input: None }),
        action_of(JsonView::Array(seq![JsonView::Text(name), input])) == (ActionView::Named {
            name,
            input: Some(input),
        }),
        action_of(JsonView::Null) == ActionView::Unbound,
        items.len() != 2 ==> action_of(JsonView::Array(items)) is Refused,
        action_of(JsonView::Bool(true)) is Refused,
{
}

/// Each binding of a section is loaded or reported, those of a section whose context is
/// wrong are left out with one report, and those of a later section come later.
pub proof fn law_bindings_are_loaded_or_reported(
    sections: Seq<KeymapSection>,
    outcomes: Seq<SectionOutcome>,
    last: KeymapSection,
)
    requires
        outcomes.len() == sections.len() + 1,
    ensures
        ({
            let outcome = outcomes[sections.len() as int];
            let longer = sections.push(last);
            if last.context@.len() > 0 && outcome.context_error is Some {
                &&& all_loaded(longer, outcomes) == all_loaded(sections, outcomes)
                &&& all_errors(longer, outcomes).len() == all_errors(sections, outcomes).len() + 1
            } else {
                &&& all_loaded(longer, outcomes) == all_loaded(sections, outcomes) + loaded_in(
                    outcome.bindings@,
                )
                &&& all_loaded(longer, outcomes).len() + all_errors(longer, outcomes).len()
                    == all_loaded(sections, outcomes).len() + all_errors(sections, outcomes).len()
                    + outcome.bindings@.len()
            }
        }),
{
    let longer = sections.push(last);
    let outcome = outcomes[sections.len() as int];
    assert(longer.drop_last() =~= sections);
    assert(longer.last() == last);
    lemma_counted(last.context@, last.bindings@, outcome.bindings@);
}

proof fn lemma_counted(
    context: Seq<char>,
    bindings: Seq<(String, Json)>,
    outcomes: Seq<Result<u64, String>>,
)
    ensures
        loaded_in(outcomes).len() + errors_in(context, bindings, outcomes).len() == outcomes.len(),
    decreases outcomes.len(),
{
    if outcomes.len() > 0 {
        lemma_counted(context, bindings, outcomes.drop_last());
    }
}

/// The bindings that were loaded are those that could be, in the order of the file.
pub proof fn law_loaded_bindings_stand_in_order(outcomes: Seq<Result<u64, String>>, binding: u64, error: String)
    ensures
        loaded_in(outcomes.push(Ok(binding))) == loaded_in(outcomes).push(binding),
        loaded_in(outcomes.push(Err(error))) == loaded_in(outcomes),
        loaded_in(Seq::empty()) == Seq::<u64>::empty(),
{
    assert(outcomes.push(Ok(binding)).drop_last() =~= outcomes);
    assert(outcomes.push(Err(error)).drop_last() =~= outcomes);
}

/// What is wrong with a binding is said with its context and its keys, and what is wrong
/// with a context with the context; a section without a context has none that is wrong.
pub proof fn law_keymap_errors_name_their_place(
    section: KeymapSection,
    outcome: SectionOutcome,
    keys: Seq<char>,
    error: Seq<char>,
)
    ensures
        binding_error(section.context@, keys, error) == "in context "@ + quoted_text(
            section.context@,
        ) + ", binding "@ + quoted_text(keys) + ": "@ + error,
        section.context@.len() == 0 ==> context_failure(section, outcome) is None,
        outcome.context_error is None ==> context_failure(section, outcome) is None,
        section.context@.len() > 0 ==> (outcome.context_error matches Some(why) ==> context_failure(
            section,
            outcome,
        ) == Some(
            "in context "@ + quoted_text(section.context@) + ": could not parse the context: "@
                + why@,
        )),
{
}

} // verus!
