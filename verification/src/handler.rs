//! What the tracker does with each keyboard event: the transitions of the
//! word between idle, followed and given up, and the keystrokes to send so
//! that the screen shows the word as it should stand.
//!
//! The engine that turns keys into Vietnamese letters is run by the caller.
//! A key that goes into the word is handled in two steps: `event_handler`
//! takes the key and says that it awaits the engine, then `finish_keystroke`
//! takes what the engine made of the keys typed so far.
use crate::config::{with_english_app, with_vietnamese_app, ConfigModel, ConfigStore};
use crate::hotkey::hotkey_matches;
use crate::input::{backspace_count, ChordModel, InputModel, InputState};
use crate::platform::{
    EventTapType, KeyModifier, ModifierSet, PressedKey, KEY_DELETE, KEY_ENTER, KEY_ESCAPE,
    KEY_SPACE, KEY_TAB, RAW_ARROW_DOWN, RAW_ARROW_LEFT, RAW_ARROW_RIGHT, RAW_ARROW_UP,
    RAW_KEY_GLOBE,
};
use crate::text::{ascii_upper, char_is_numeric, contains, to_ascii_upper, unicode_numeric};
use vstd::prelude::*;

verus! {

/// Whether `word` is spelled as a Vietnamese syllable can be: an initial
/// consonant, a vowel and a final consonant out of those that the language
/// has, marks set aside.
pub uninterp spec fn vietnamese_word(word: Seq<char>) -> bool;

/// `vi::validation::is_valid_word`. The contract only names the answer: the
/// function reads its argument and fixed tables, nothing else, and returns
/// for every text.
#[verifier::external_body]
pub(crate) fn is_valid_word(word: &str) -> (r: bool)
    ensures
        r == vietnamese_word(word@),
{
    vi::validation::is_valid_word(word)
}

/// A keystroke to send to the application in front.
#[derive(Debug, Clone, PartialEq, Eq)]
pub enum Action {
    /// Press backspace this many times.
    SendBackspace(usize),
    /// Type this text.
    SendString(String),
}

/// A keystroke to send, as a mathematical value.
pub enum ActionModel {
    SendBackspace(nat),
    SendString(Seq<char>),
}

impl View for Action {
    type V = ActionModel;

    open spec fn view(&self) -> ActionModel {
        match self {
            Action::SendBackspace(n) => ActionModel::SendBackspace(*n as nat),
            Action::SendString(s) => ActionModel::SendString(s@),
        }
    }
}

/// The views of a list of keystrokes.
pub open spec fn action_views(v: Seq<Action>) -> Seq<ActionModel> {
    Seq::new(v.len(), |i: int| v[i]@)
}

/// What the engine made of the keys of the word.
#[derive(Debug, Clone, PartialEq, Eq)]
pub struct Transformed {
    /// The word to show.
    pub output: String,
    /// The last key took the tone mark away again.
    pub tone_mark_removed: bool,
    /// The last key took a letter mark away again.
    pub letter_modification_removed: bool,
}

/// What the engine made of the keys, as a mathematical value.
pub struct TransformedModel {
    pub output: Seq<char>,
    pub tone_mark_removed: bool,
    pub letter_modification_removed: bool,
}

impl View for Transformed {
    type V = TransformedModel;

    open spec fn view(&self) -> TransformedModel {
        TransformedModel {
            output: self.output@,
            tone_mark_removed: self.tone_mark_removed,
            letter_modification_removed: self.letter_modification_removed,
        }
    }
}

/// The view of what the engine made of the keys, if it made anything.
pub open spec fn outcome_view(outcome: Option<Transformed>) -> Option<TransformedModel> {
    match outcome {
        Some(t) => Some(t@),
        None => None,
    }
}

/// What came of an event.
#[derive(Debug, Clone, PartialEq, Eq)]
pub struct KeyOutcome {
    /// The event is used up: the application in front must not see the key.
    pub handled: bool,
    /// The keystrokes to send, in order.
    pub actions: Vec<Action>,
    /// A key went into the word: the caller runs the engine over the typing
    /// buffer and hands the result to `finish_keystroke`.
    pub awaits_transform: bool,
}

/// The tracker, the settings and the answer after an event.
pub struct Reaction {
    pub state: InputModel,
    pub config: ConfigModel,
    pub handled: bool,
    pub actions: Seq<ActionModel>,
    pub awaits_transform: bool,
}

/// A reaction that sends nothing and lets the key pass.
pub open spec fn quiet(state: InputModel, config: ConfigModel) -> Reaction {
    Reaction { state, config, handled: false, actions: Seq::empty(), awaits_transform: false }
}

/// The keys that end a word: enter, tab, space and escape.
pub open spec fn is_boundary_key(c: char) -> bool {
    c == KEY_ENTER || c == KEY_TAB || c == KEY_SPACE || c == KEY_ESCAPE
}

/// The punctuation marks and symbols that end a word and are never part of
/// one.
pub open spec fn is_symbol(c: char) -> bool {
    c == '(' || c == ')' || c == '[' || c == ']' || c == '{' || c == '}' || c == '<' || c == '>'
        || c == '/' || c == '\\' || c == '!' || c == '@' || c == '#' || c == '$' || c == '%' || c
        == '^' || c == '&' || c == '*' || c == '-' || c == '_' || c == '=' || c == '+' || c == '|'
        || c == '~' || c == '`' || c == ',' || c == '.' || c == ';' || c == '\'' || c == '"'
}

/// The keystrokes that put `text` in the place of the word on screen.
pub open spec fn reconcile_actions(
    m: InputModel,
    text: Seq<char>,
    is_delete: bool,
    in_text_selection: bool,
) -> Seq<ActionModel> {
    seq![
        ActionModel::SendBackspace(backspace_count(m.display.len(), is_delete, in_text_selection)),
        ActionModel::SendString(text),
    ]
}

/// The keystrokes that dismiss a selection which the application made by
/// itself: a space, and a backspace that takes it away again.
pub open spec fn dismiss_actions(m: InputModel) -> Seq<ActionModel> {
    if contains(m.active_app, "Firefox"@) {
        seq![ActionModel::SendString(" "@), ActionModel::SendBackspace(1)]
    } else {
        Seq::empty()
    }
}

/// The tracker after a change of the word, with the keystrokes that bring the
/// screen in line and whether the key is used up.
pub struct WordChange {
    pub state: InputModel,
    pub handled: bool,
    pub actions: Seq<ActionModel>,
}

/// No change: nothing is sent and the key passes.
pub open spec fn unchanged(state: InputModel) -> WordChange {
    WordChange { state, handled: false, actions: Seq::empty() }
}

/// The tracker and the keystrokes after the engine has made `outcome` of the
/// keys. If the engine failed, or its word is the one on screen and the
/// change does not come from a deletion, nothing is sent and the key passes.
/// Otherwise the word on screen is rewritten and the key is used up; where
/// the last key took a mark away again, the word is given up.
pub open spec fn transform_step(
    m: InputModel,
    outcome: Option<TransformedModel>,
    is_delete: bool,
    in_text_selection: bool,
) -> WordChange {
    match outcome {
        Some(t) => if t.output != m.display || is_delete {
            let shown = m.replaced(t.output);
            WordChange {
                state: if t.letter_modification_removed || t.tone_mark_removed {
                    shown.stopped()
                } else {
                    shown
                },
                handled: true,
                actions: dismiss_actions(m) + reconcile_actions(
                    m,
                    t.output,
                    is_delete,
                    in_text_selection,
                ),
            }
        } else {
            unchanged(m)
        },
        None => unchanged(m),
    }
}

/// The tracker and the keystrokes after the second step of a key that went
/// into the word: the word is rewritten as `transform_step` says, then given
/// up if following must stop.
pub open spec fn finish_step(
    m: InputModel,
    outcome: Option<TransformedModel>,
    in_text_selection: bool,
) -> WordChange {
    let r = transform_step(m, outcome, false, in_text_selection);
    WordChange {
        state: if r.state.should_stop() {
            r.state.stopped()
        } else {
            r.state
        },
        ..r
    }
}

/// The tracker and the keystrokes after the word on screen was put back to
/// the keys as they were typed.
pub open spec fn restore_step(m: InputModel, config: ConfigModel, in_text_selection: bool) -> Reaction {
    Reaction {
        state: m.replaced(m.typing),
        actions: reconcile_actions(m, m.typing, true, in_text_selection),
        ..quiet(m, config)
    }
}

/// The tracker and the keystrokes after the word on screen was replaced by
/// the text of its macro.
pub open spec fn macro_step(
    m: InputModel,
    config: ConfigModel,
    target: Seq<char>,
    in_text_selection: bool,
) -> Reaction {
    Reaction {
        state: m.replaced(target),
        actions: reconcile_actions(m, target, true, in_text_selection),
        ..quiet(m, config)
    }
}

/// The word on screen must be put back: it was changed, it is no Vietnamese
/// word, and it is not among the allowed words.
pub open spec fn must_restore(m: InputModel, config: ConfigModel, is_valid_word: bool) -> bool {
    m.typing != m.display && !is_valid_word && !config.allowed_words.contains(m.display)
}

/// The tracker and the keystrokes after a key that ends the word. After tab
/// or space a macro for the word on screen is put in, and nothing else is
/// asked of the word. Else the word is put back if it must be. A previous
/// word that stops following is forgotten, and a new word starts.
pub open spec fn commit_step(
    m: InputModel,
    config: ConfigModel,
    keycode: char,
    is_valid_word: bool,
    in_text_selection: bool,
) -> Reaction {
    let r = if (keycode == KEY_TAB || keycode == KEY_SPACE) && m.macro_target().is_some() {
        macro_step(m, config, m.macro_target().unwrap(), in_text_selection)
    } else if must_restore(m, config, is_valid_word) {
        restore_step(m, config, in_text_selection)
    } else {
        quiet(m, config)
    };
    let kept = if r.state.previous_word_stops() {
        InputModel { previous_word: Seq::empty(), ..r.state }
    } else {
        r.state
    };
    Reaction { state: kept.new_word(), ..r }
}

/// The key `c` as it is typed with the modifiers `held`: in upper case with
/// shift or caps lock.
pub open spec fn cased(c: char, held: ModifierSet) -> char {
    if held.shift || held.capslock {
        ascii_upper(c)
    } else {
        c
    }
}

/// The reaction to a character key while Vietnamese is on.
pub open spec fn enabled_char_step(
    m: InputModel,
    config: ConfigModel,
    c: char,
    held: ModifierSet,
    is_valid_word: bool,
    in_text_selection: bool,
) -> Reaction {
    if is_boundary_key(c) {
        commit_step(m, config, c, is_valid_word, in_text_selection)
    } else if c == KEY_DELETE {
        if held.has_other_than_shift() {
            quiet(m.new_word(), config)
        } else {
            quiet(m.popped(), config)
        }
    } else if is_symbol(c) || (unicode_numeric(c) && held.shift) {
        if unicode_numeric(c) {
            quiet(m.pushed(c).new_word(), config)
        } else {
            quiet(m.new_word(), config)
        }
    } else if held.super_key || held.alt {
        quiet(m.new_word(), config)
    } else if m.tracking {
        Reaction { awaits_transform: true, ..quiet(m.pushed(cased(c, held)), config) }
    } else {
        quiet(m, config)
    }
}

/// The reaction to a character key while Vietnamese is off: a key that ends
/// a word, or any key with a modifier, starts a new word.
pub open spec fn disabled_char_step(
    m: InputModel,
    config: ConfigModel,
    c: char,
    held: ModifierSet,
) -> Reaction {
    if is_boundary_key(c) || !held.is_empty() {
        quiet(m.new_word(), config)
    } else {
        quiet(m, config)
    }
}

/// The settings after Vietnamese was switched: the application in front is
/// filed under the language now in use.
pub open spec fn toggled_config(m: InputModel, config: ConfigModel) -> ConfigModel {
    if m.enabled {
        with_english_app(config, m.active_app)
    } else {
        with_vietnamese_app(config, m.active_app)
    }
}

/// The reaction to the key of an event, once the hotkey was looked after.
pub open spec fn key_step(
    m: InputModel,
    config: ConfigModel,
    event_type: EventTapType,
    pressed_key: Option<PressedKey>,
    held: ModifierSet,
    is_valid_word: bool,
    in_text_selection: bool,
) -> Reaction {
    match pressed_key {
        Some(PressedKey::Raw(code)) => if code == RAW_KEY_GLOBE {
            Reaction { handled: true, ..quiet(m.toggled(), toggled_config(m, config)) }
        } else if code == RAW_ARROW_UP || code == RAW_ARROW_DOWN || code == RAW_ARROW_LEFT || code
            == RAW_ARROW_RIGHT {
            quiet(m.new_word(), config)
        } else {
            quiet(m, config)
        },
        Some(PressedKey::Char(c)) => if m.enabled {
            enabled_char_step(m, config, c, held, is_valid_word, in_text_selection)
        } else {
            disabled_char_step(m, config, c, held)
        },
        None => if event_type == EventTapType::KeyDown || held.super_key {
            quiet(m.new_word(), config)
        } else {
            quiet(m, config)
        },
    }
}

/// The character of a pressed key, if it has one.
pub open spec fn char_of_key(pressed_key: Option<PressedKey>) -> Option<char> {
    match pressed_key {
        Some(PressedKey::Char(c)) => Some(c),
        _ => None,
    }
}

/// The tracker and the settings after the hotkey was looked after. When the
/// modifiers change, they are added to those seen, or, when none is held any
/// more, the hotkey fires if the last event matched it and the chord was not
/// broken, and the chord starts anew. Then the event is held against the
/// hotkey: a match that is followed by an event that does not match breaks
/// the chord.
pub open spec fn chord_step(
    m: InputModel,
    config: ConfigModel,
    event_type: EventTapType,
    pressed_key: Option<PressedKey>,
    held: ModifierSet,
) -> (InputModel, ConfigModel) {
    let fires = event_type == EventTapType::FlagsChanged && held.is_empty() && m.chord.matching
        && !m.chord.circuit_break;
    let m1 = if fires {
        m.toggled()
    } else {
        m
    };
    let c1 = if fires {
        toggled_config(m, config)
    } else {
        config
    };
    let chord = if event_type == EventTapType::FlagsChanged {
        if held.is_empty() {
            ChordModel { modifiers: ModifierSet::empty(), matching: false, circuit_break: false }
        } else {
            ChordModel { modifiers: m.chord.modifiers.union(held), ..m.chord }
        }
    } else {
        m.chord
    };
    let matched = hotkey_matches(m.hotkey, chord.modifiers, char_of_key(pressed_key));
    (
        InputModel {
            chord: ChordModel {
                matching: matched,
                circuit_break: chord.circuit_break || (chord.matching && !matched),
                ..chord
            },
            ..m1
        },
        c1,
    )
}

/// The reaction to an event: the hotkey is looked after, then the key.
pub open spec fn event_step(
    m: InputModel,
    config: ConfigModel,
    event_type: EventTapType,
    pressed_key: Option<PressedKey>,
    held: ModifierSet,
    is_valid_word: bool,
    in_text_selection: bool,
) -> Reaction {
    let (m1, c1) = chord_step(m, config, event_type, pressed_key, held);
    key_step(m1, c1, event_type, pressed_key, held, is_valid_word, in_text_selection)
}

/// Whether the reaction `r` is what `outcome`, the tracker and the settings
/// hold.
pub open spec fn is_reaction(
    r: Reaction,
    state: InputModel,
    config: ConfigModel,
    outcome: KeyOutcome,
) -> bool {
    &&& r.state == state
    &&& r.config == config
    &&& r.handled == outcome.handled
    &&& r.actions == action_views(outcome.actions@)
    &&& r.awaits_transform == outcome.awaits_transform
}

/// Whether the change `w` is what `outcome` and the tracker hold.
pub open spec fn is_change(w: WordChange, state: InputModel, outcome: KeyOutcome) -> bool {
    &&& w.state == state
    &&& w.handled == outcome.handled
    &&& w.actions == action_views(outcome.actions@)
    &&& !outcome.awaits_transform
}

pub fn char_is_boundary_key(c: char) -> (r: bool)
    ensures
        r == is_boundary_key(c),
{
    c == KEY_ENTER || c == KEY_TAB || c == KEY_SPACE || c == KEY_ESCAPE
}

pub fn char_is_symbol(c: char) -> (r: bool)
    ensures
        r == is_symbol(c),
{
    c == '(' || c == ')' || c == '[' || c == ']' || c == '{' || c == '}' || c == '<' || c == '>'
        || c == '/' || c == '\\' || c == '!' || c == '@' || c == '#' || c == '$' || c == '%' || c
        == '^' || c == '&' || c == '*' || c == '-' || c == '_' || c == '=' || c == '+' || c == '|'
        || c == '~' || c == '`' || c == ',' || c == '.' || c == ';' || c == '\'' || c == '"'
}

/// An outcome that sends nothing and lets the key pass.
fn quiet_outcome() -> (r: KeyOutcome)
    ensures
        !r.handled,
        !r.awaits_transform,
        action_views(r.actions@) == Seq::<ActionModel>::empty(),
{
    let r = KeyOutcome { handled: false, actions: Vec::new(), awaits_transform: false };
    proof {
        assert(action_views(r.actions@) =~= Seq::<ActionModel>::empty());
    }
    r
}

/// Adds to `actions` the keystrokes that put `text` in the place of the word
/// on screen, and makes `text` the word on screen.
fn reconcile(
    state: &mut InputState,
    actions: &mut Vec<Action>,
    text: String,
    is_delete: bool,
    in_text_selection: bool,
)
    ensures
        final(state)@ == old(state)@.replaced(text@),
        action_views(final(actions)@) == action_views(old(actions)@) + reconcile_actions(
            old(state)@,
            text@,
            is_delete,
            in_text_selection,
        ),
{
    let count = state.get_backspace_count(is_delete, in_text_selection);
    actions.push(Action::SendBackspace(count));
    actions.push(Action::SendString(text.clone()));
    state.replace(text);
    proof {
        assert(action_views(actions@) =~= action_views(old(actions)@) + reconcile_actions(
            old(state)@,
            text@,
            is_delete,
            in_text_selection,
        ));
    }
}

/// Rewrites the word on screen to what the engine made of the keys.
pub fn do_transform_keys(
    state: &mut InputState,
    outcome: Option<Transformed>,
    is_delete: bool,
    in_text_selection: bool,
) -> (r: KeyOutcome)
    ensures
        is_change(
            transform_step(old(state)@, outcome_view(outcome), is_delete, in_text_selection),
            final(state)@,
            r,
        ),
{
    match outcome {
        Some(t) => {
            if state.should_send_keyboard_event(t.output.as_str()) || is_delete {
                let mut actions: Vec<Action> = Vec::new();
                if state.should_dismiss_selection_if_needed() {
                    actions.push(Action::SendString(" ".to_owned()));
                    actions.push(Action::SendBackspace(1));
                }
                proof {
                    assert(action_views(actions@) =~= dismiss_actions(state@));
                }
                let removed = t.letter_modification_removed || t.tone_mark_removed;
                reconcile(state, &mut actions, t.output, is_delete, in_text_selection);
                if removed {
                    state.stop_tracking();
                }
                KeyOutcome { handled: true, actions, awaits_transform: false }
            } else {
                quiet_outcome()
            }
        },
        None => quiet_outcome(),
    }
}

/// The second step of a key that went into the word: takes what the engine
/// made of the typing buffer, or `None` if the engine failed, rewrites the
/// word on screen if it changed, and gives the word up if following must
/// stop. The keys typed stay as they are unless the word is given up.
pub fn finish_keystroke(
    state: &mut InputState,
    outcome: Option<Transformed>,
    in_text_selection: bool,
) -> (r: KeyOutcome)
    ensures
        is_change(
            finish_step(old(state)@, outcome_view(outcome), in_text_selection),
            final(state)@,
            r,
        ),
        final(state)@.typing == old(state)@.typing || final(state)@.is_suspended(),
        final(state)@.typing.len() <= crate::input::MAX_POSSIBLE_WORD_LENGTH,
{
    let r = do_transform_keys(state, outcome, false, in_text_selection);
    state.stop_tracking_if_needed();
    r
}

/// Puts the word on screen back to the keys as they were typed.
pub fn do_restore_word(state: &mut InputState, in_text_selection: bool) -> (r: Vec<Action>)
    ensures
        final(state)@ == old(state)@.replaced(old(state)@.typing),
        action_views(r@) == reconcile_actions(
            old(state)@,
            old(state)@.typing,
            true,
            in_text_selection,
        ),
{
    let mut actions: Vec<Action> = Vec::new();
    let typed = state.get_typing_buffer().to_owned();
    proof {
        assert(action_views(actions@) =~= Seq::<ActionModel>::empty());
    }
    reconcile(state, &mut actions, typed, true, in_text_selection);
    proof {
        assert(action_views(actions@) =~= reconcile_actions(
            old(state)@,
            old(state)@.typing,
            true,
            in_text_selection,
        ));
    }
    actions
}

/// Puts `target` in the place of the word on screen.
pub fn do_macro_replace(state: &mut InputState, target: &String, in_text_selection: bool) -> (r:
    Vec<Action>)
    ensures
        final(state)@ == old(state)@.replaced(target@),
        action_views(r@) == reconcile_actions(old(state)@, target@, true, in_text_selection),
{
    let mut actions: Vec<Action> = Vec::new();
    proof {
        assert(action_views(actions@) =~= Seq::<ActionModel>::empty());
    }
    reconcile(state, &mut actions, target.clone(), true, in_text_selection);
    proof {
        assert(action_views(actions@) =~= reconcile_actions(
            old(state)@,
            target@,
            true,
            in_text_selection,
        ));
    }
    actions
}

/// Ends the word at the key `keycode`. `is_valid_word` says whether the word
/// on screen is a Vietnamese word.
pub fn commit_word(
    state: &mut InputState,
    config: &ConfigStore,
    keycode: char,
    is_valid_word: bool,
    in_text_selection: bool,
) -> (r: KeyOutcome)
    ensures
        is_reaction(
            commit_step(old(state)@, config@, keycode, is_valid_word, in_text_selection),
            final(state)@,
            config@,
            r,
        ),
        final(state)@.is_idle(),
{
    let mut actions: Vec<Action> = Vec::new();
    proof {
        assert(action_views(actions@) =~= Seq::<ActionModel>::empty());
    }
    let target: Option<String> = if keycode == KEY_TAB || keycode == KEY_SPACE {
        match state.get_macro_target() {
            Some(t) => Some(t.clone()),
            None => None,
        }
    } else {
        None
    };
    match target {
        Some(t) => {
            actions = do_macro_replace(state, &t, in_text_selection);
        },
        None => {
            let changed = !crate::text::str_eq(
                state.get_typing_buffer(),
                state.get_displaying_word(),
            );
            if changed && !is_valid_word && !config.is_allowed_word(state.get_displaying_word()) {
                actions = do_restore_word(state, in_text_selection);
            }
        },
    }
    if state.previous_word_is_stop_tracking_words() {
        state.clear_previous_word();
    }
    state.new_word();
    KeyOutcome { handled: false, actions, awaits_transform: false }
}

/// Looks after the hotkey: follows the modifiers held and switches
/// Vietnamese when the hotkey was pressed and let go.
pub fn track_hotkey(
    state: &mut InputState,
    config: &mut ConfigStore,
    event_type: EventTapType,
    pressed_key: Option<PressedKey>,
    modifiers: KeyModifier,
)
    ensures
        (final(state)@, final(config)@) == chord_step(
            old(state)@,
            old(config)@,
            event_type,
            pressed_key,
            modifiers@,
        ),
{
    let pressed_key_code = match pressed_key {
        Some(PressedKey::Char(c)) => Some(c),
        _ => None,
    };
    if event_type == EventTapType::FlagsChanged {
        if modifiers.is_empty() {
            if state.is_hotkey_matching() && !state.is_hotkey_circuit_break() {
                state.toggle_vietnamese(config);
            }
            state.reset_hotkey_chord();
        } else {
            state.hold_hotkey_modifiers(modifiers);
        }
    }
    let matched = state.get_hotkey().is_match(state.get_hotkey_modifiers(), pressed_key_code);
    state.note_hotkey_match(matched);
}

/// Handles the key of an event, the hotkey having been looked after.
/// `is_valid_word` says whether the word on screen is a Vietnamese word; it
/// is asked for only where a key ends the word while Vietnamese is on.
pub fn handle_key(
    state: &mut InputState,
    config: &mut ConfigStore,
    event_type: EventTapType,
    pressed_key: Option<PressedKey>,
    modifiers: KeyModifier,
    is_valid_word: bool,
    in_text_selection: bool,
) -> (r: KeyOutcome)
    ensures
        is_reaction(
            key_step(
                old(state)@,
                old(config)@,
                event_type,
                pressed_key,
                modifiers@,
                is_valid_word,
                in_text_selection,
            ),
            final(state)@,
            final(config)@,
            r,
        ),
{
    match pressed_key {
        Some(PressedKey::Raw(raw_keycode)) => {
            if raw_keycode == RAW_KEY_GLOBE {
                state.toggle_vietnamese(config);
                let mut r = quiet_outcome();
                r.handled = true;
                return r;
            }
            if raw_keycode == RAW_ARROW_UP || raw_keycode == RAW_ARROW_DOWN || raw_keycode
                == RAW_ARROW_LEFT || raw_keycode == RAW_ARROW_RIGHT {
                state.new_word();
            }
            quiet_outcome()
        },
        Some(PressedKey::Char(keycode)) => {
            if state.is_enabled() {
                if char_is_boundary_key(keycode) {
                    commit_word(state, config, keycode, is_valid_word, in_text_selection)
                } else if keycode == KEY_DELETE {
                    if modifiers.is_super() || modifiers.is_control() || modifiers.is_alt()
                        || modifiers.is_capslock() {
                        state.new_word();
                    } else {
                        state.pop();
                    }
                    quiet_outcome()
                } else if char_is_symbol(keycode) || (char_is_numeric(keycode)
                    && modifiers.is_shift()) {
                    if char_is_numeric(keycode) {
                        state.push(keycode);
                    }
                    state.new_word();
                    quiet_outcome()
                } else if modifiers.is_super() || modifiers.is_alt() {
                    state.new_word();
                    quiet_outcome()
                } else if state.is_tracking() {
                    let typed = if modifiers.is_shift() || modifiers.is_capslock() {
                        to_ascii_upper(keycode)
                    } else {
                        keycode
                    };
                    state.push(typed);
                    let mut r = quiet_outcome();
                    r.awaits_transform = true;
                    r
                } else {
                    quiet_outcome()
                }
            } else {
                if char_is_boundary_key(keycode) || !modifiers.is_empty() {
                    state.new_word();
                }
                quiet_outcome()
            }
        },
        None => {
            if event_type == EventTapType::KeyDown || modifiers.is_super() {
                state.new_word();
            }
            quiet_outcome()
        },
    }
}

/// Whether the key of an event ends a word while Vietnamese is on, so that
/// the word on screen has to be looked up.
fn ends_word(state: &InputState, pressed_key: Option<PressedKey>) -> (r: bool)
    ensures
        r == (state@.enabled && match pressed_key {
            Some(PressedKey::Char(c)) => is_boundary_key(c),
            _ => false,
        }),
{
    match pressed_key {
        Some(PressedKey::Char(c)) => state.is_enabled() && char_is_boundary_key(c),
        _ => false,
    }
}

/// Takes one keyboard event: the kind of event, the key if there is one, the
/// modifiers held, and whether the text field in front has a selection.
///
/// The answer says whether the key is used up and which keystrokes to send.
/// Where it says `awaits_transform`, the key went into the word and
/// `finish_keystroke` is to be called with what the engine makes of the
/// typing buffer.
pub fn event_handler(
    state: &mut InputState,
    config: &mut ConfigStore,
    event_type: EventTapType,
    pressed_key: Option<PressedKey>,
    modifiers: KeyModifier,
    in_text_selection: bool,
) -> (r: KeyOutcome)
    ensures
        is_reaction(
            event_step(
                old(state)@,
                old(config)@,
                event_type,
                pressed_key,
                modifiers@,
                vietnamese_word(
                    chord_step(old(state)@, old(config)@, event_type, pressed_key, modifiers@).0.display,
                ),
                in_text_selection,
            ),
            final(state)@,
            final(config)@,
            r,
        ),
{
    track_hotkey(state, config, event_type, pressed_key, modifiers);
    let valid = if ends_word(state, pressed_key) {
        is_valid_word(state.get_displaying_word())
    } else {
        false
    };
    handle_key(state, config, event_type, pressed_key, modifiers, valid, in_text_selection)
}

// ---------------------------------------------------------------------------
// What holds of every event
// ---------------------------------------------------------------------------
/// The two buffers part only where the engine rewrites the word: if they
/// hold the same before an event, they hold the same after it.
pub proof fn lemma_event_keeps_buffers_together(
    m: InputModel,
    config: ConfigModel,
    event_type: EventTapType,
    pressed_key: Option<PressedKey>,
    held: ModifierSet,
    is_valid_word: bool,
    in_text_selection: bool,
)
    requires
        m.typing == m.display,
    ensures
        ({
            let r = event_step(
                m,
                config,
                event_type,
                pressed_key,
                held,
                is_valid_word,
                in_text_selection,
            );
            r.state.typing == r.state.display
        }),
{
    let (m1, c1) = chord_step(m, config, event_type, pressed_key, held);
    assert(m1.typing == m1.display);
    let r = key_step(m1, c1, event_type, pressed_key, held, is_valid_word, in_text_selection);
    match pressed_key {
        Some(PressedKey::Char(c)) => {
            if m1.enabled && is_boundary_key(c) {
                let after = commit_step(m1, c1, c, is_valid_word, in_text_selection);
                assert(after.state.typing.len() == 0 && after.state.display.len() == 0);
                assert(after.state.typing =~= after.state.display);
            } else if m1.enabled && c == KEY_DELETE && !held.has_other_than_shift() {
                assert(m1.popped().typing =~= m1.popped().display);
            }
        },
        _ => {},
    }
}

/// The second step of a key leaves the buffers together where the engine
/// failed or made the word that is on screen already.
pub proof fn lemma_unchanged_word_keeps_buffers_together(
    m: InputModel,
    outcome: Option<TransformedModel>,
    in_text_selection: bool,
)
    requires
        m.typing == m.display,
        outcome.is_some() ==> outcome.unwrap().output == m.display,
    ensures
        finish_step(m, outcome, in_text_selection).state.typing == finish_step(
            m,
            outcome,
            in_text_selection,
        ).state.display,
        finish_step(m, outcome, in_text_selection).actions.len() == 0,
        !finish_step(m, outcome, in_text_selection).handled,
{
}

/// No event takes the word over the limit: if the typing buffer holds no more
/// keys than the limit allows before an event, it holds no more after it, and
/// no more after the second step of a key.
pub proof fn lemma_event_keeps_the_word_limit(
    m: InputModel,
    config: ConfigModel,
    event_type: EventTapType,
    pressed_key: Option<PressedKey>,
    held: ModifierSet,
    is_valid_word: bool,
    in_text_selection: bool,
    outcome: Option<TransformedModel>,
)
    requires
        m.within_limit(),
    ensures
        event_step(
            m,
            config,
            event_type,
            pressed_key,
            held,
            is_valid_word,
            in_text_selection,
        ).state.within_limit(),
        finish_step(m, outcome, in_text_selection).state.within_limit(),
{
    let (m1, c1) = chord_step(m, config, event_type, pressed_key, held);
    assert(m1.within_limit());
    match pressed_key {
        Some(PressedKey::Char(c)) => {
            if m1.enabled && is_boundary_key(c) {
                let after = commit_step(m1, c1, c, is_valid_word, in_text_selection);
                assert(after.state.typing.len() == 0);
            }
        },
        _ => {},
    }
}

/// After the second step of a key the word is never longer than the limit,
/// and the keys typed are as they were or the word was given up.
pub proof fn lemma_finished_word_is_short(
    m: InputModel,
    outcome: Option<TransformedModel>,
    in_text_selection: bool,
)
    ensures
        finish_step(m, outcome, in_text_selection).state.typing.len()
            <= crate::input::MAX_POSSIBLE_WORD_LENGTH,
        finish_step(m, outcome, in_text_selection).state.typing == m.typing || finish_step(
            m,
            outcome,
            in_text_selection,
        ).state.is_suspended(),
{
}

/// A key that ends a word leaves the tracker idle while Vietnamese is on,
/// lets the key pass and awaits no engine.
pub proof fn lemma_boundary_key_ends_the_word(
    m: InputModel,
    config: ConfigModel,
    event_type: EventTapType,
    c: char,
    held: ModifierSet,
    is_valid_word: bool,
    in_text_selection: bool,
)
    requires
        m.enabled,
        is_boundary_key(c),
    ensures
        ({
            let r = key_step(
                m,
                config,
                event_type,
                Some(PressedKey::Char(c)),
                held,
                is_valid_word,
                in_text_selection,
            );
            &&& r.state.is_idle()
            &&& !r.handled
            &&& !r.awaits_transform
            &&& r.config == config
        }),
{
}

/// A word that was given up stays given up under plain keys: a key that
/// neither ends a word nor deletes nor comes with super or alt changes
/// nothing.
pub proof fn lemma_suspended_until_boundary(
    m: InputModel,
    config: ConfigModel,
    event_type: EventTapType,
    c: char,
    held: ModifierSet,
    is_valid_word: bool,
    in_text_selection: bool,
)
    requires
        m.enabled,
        !m.tracking,
        !is_boundary_key(c),
        c != KEY_DELETE,
        !is_symbol(c),
        !(unicode_numeric(c) && held.shift),
        !held.super_key,
        !held.alt,
    ensures
        key_step(
            m,
            config,
            event_type,
            Some(PressedKey::Char(c)),
            held,
            is_valid_word,
            in_text_selection,
        ) == quiet(m, config),
{
}

/// A macro for the word on screen is put in at tab and space whatever the
/// validator says of the word: exactly the word is deleted and the text of
/// the macro typed.
pub proof fn lemma_macro_is_trusted(
    m: InputModel,
    config: ConfigModel,
    keycode: char,
    is_valid_word: bool,
    in_text_selection: bool,
)
    requires
        keycode == KEY_TAB || keycode == KEY_SPACE,
        m.macro_target().is_some(),
    ensures
        commit_step(m, config, keycode, is_valid_word, in_text_selection).actions == seq![
            ActionModel::SendBackspace(
                backspace_count(m.display.len(), true, in_text_selection),
            ),
            ActionModel::SendString(m.macro_target().unwrap()),
        ],
        commit_step(m, config, keycode, is_valid_word, in_text_selection) == commit_step(
            m,
            config,
            keycode,
            !is_valid_word,
            in_text_selection,
        ),
{
}

/// Where no macro is put in, the word is put back exactly when it was
/// changed, is no Vietnamese word and is not allowed; then exactly the word on
/// screen is deleted and the keys are typed as they were.
pub proof fn lemma_restore_sends_the_keys(
    m: InputModel,
    config: ConfigModel,
    keycode: char,
    is_valid_word: bool,
    in_text_selection: bool,
)
    requires
        !((keycode == KEY_TAB || keycode == KEY_SPACE) && m.macro_target().is_some()),
    ensures
        commit_step(m, config, keycode, is_valid_word, in_text_selection).actions == if must_restore(
            m,
            config,
            is_valid_word,
        ) {
            seq![
                ActionModel::SendBackspace(
                    backspace_count(m.display.len(), true, in_text_selection),
                ),
                ActionModel::SendString(m.typing),
            ]
        } else {
            Seq::<ActionModel>::empty()
        },
{
}

/// The hotkey fires when all modifiers are let go after an event that
/// matched it, unless the chord was broken; it fires in no other case.
pub proof fn lemma_hotkey_fires_at_release(
    m: InputModel,
    config: ConfigModel,
    event_type: EventTapType,
    pressed_key: Option<PressedKey>,
    held: ModifierSet,
)
    ensures
        chord_step(m, config, event_type, pressed_key, held).0.enabled == if event_type
            == EventTapType::FlagsChanged && held.is_empty() && m.chord.matching
            && !m.chord.circuit_break {
            !m.enabled
        } else {
            m.enabled
        },
{
}

/// The hotkey fires once for each chord: when the modifiers were let go, a
/// second event that says so changes nothing. This holds of every hotkey but
/// the empty one, which no key and no modifier match.
pub proof fn lemma_hotkey_fires_once(m: InputModel, config: ConfigModel)
    requires
        !hotkey_matches(m.hotkey, ModifierSet::empty(), None),
    ensures
        ({
            let (m1, c1) = chord_step(
                m,
                config,
                EventTapType::FlagsChanged,
                None,
                ModifierSet::empty(),
            );
            chord_step(m1, c1, EventTapType::FlagsChanged, None, ModifierSet::empty()) == (m1, c1)
        }),
{
    let (m1, c1) = chord_step(m, config, EventTapType::FlagsChanged, None, ModifierSet::empty());
    assert(m1.hotkey == m.hotkey);
    assert(!m1.chord.matching);
    let (m2, c2) = chord_step(m1, c1, EventTapType::FlagsChanged, None, ModifierSet::empty());
    assert(m2.chord == m1.chord);
}

/// A key that does not match the hotkey, pressed after one that did, breaks
/// the chord for as long as modifiers are held: the hotkey does not fire
/// when they are let go.
pub proof fn lemma_broken_chord_stays_broken(
    m: InputModel,
    config: ConfigModel,
    pressed_key: Option<PressedKey>,
    held: ModifierSet,
)
    requires
        m.chord.matching,
        !hotkey_matches(m.hotkey, m.chord.modifiers, char_of_key(pressed_key)),
    ensures
        ({
            let (m1, c1) = chord_step(m, config, EventTapType::KeyDown, pressed_key, held);
            let (m2, c2) = chord_step(
                m1,
                c1,
                EventTapType::FlagsChanged,
                None,
                ModifierSet::empty(),
            );
            &&& m1.chord.circuit_break
            &&& m2.enabled == m.enabled
            &&& c2 == config
        }),
{
}

} // verus!
