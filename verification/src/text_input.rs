//! The text box of the "Say" interaction: the player types freely to an NPC,
//! Enter submits the line, Escape closes the box.

use vstd::prelude::*;
use vstd::string::*;
use crate::text::{chars_of, string_of, trim, trim_chars, utf8_len, utf8_width, char_utf8_width};

verus! {

broadcast use vstd::seq_lib::group_seq_properties;

/// Longest text the box accepts, in UTF-8 bytes.
pub const MAX_INPUT_BYTES: usize = 256;

/// Fired when the player submits text to an NPC via the "Say" interaction.
#[derive(Debug)]
pub struct SayEvent {
    pub npc: u64,
    pub text: String,
}

/// Tracks the current state of the text input UI.
pub struct TextInputState {
    /// Whether the text input box is currently visible and capturing input.
    pub active: bool,
    /// The text the player has typed so far.
    pub current_text: String,
    /// The NPC entity the player is talking to.
    pub target_npc: Option<u64>,
    /// True on the first frame after activation: that frame's key events (the
    /// key that opened the panel among them) are dropped.
    pub just_activated: bool,
}

impl TextInputState {
    /// The closed text box.
    pub fn new() -> (s: TextInputState)
        ensures
            !s.active,
            s.current_text@ == Seq::<char>::empty(),
            s.target_npc is None,
            !s.just_activated,
    {
        TextInputState { active: false, current_text: String::new(), target_npc: None, just_activated: false }
    }
}

/// Opens the text input box for a specific NPC.
pub fn activate_text_input(state: &mut TextInputState, npc_entity: u64)
    ensures
        final(state).active,
        final(state).current_text@ == Seq::<char>::empty(),
        final(state).target_npc == Some(npc_entity),
        final(state).just_activated,
{
    state.active = true;
    state.current_text = String::new();
    state.target_npc = Some(npc_entity);
    state.just_activated = true;
}

/// Closes the text input box and clears state.
pub fn deactivate_text_input(state: &mut TextInputState)
    ensures
        !final(state).active,
        final(state).current_text@ == Seq::<char>::empty(),
        final(state).target_npc is None,
        final(state).just_activated == old(state).just_activated,
{
    state.active = false;
    state.current_text = String::new();
    state.target_npc = None;
}

/// Guards player movement: true while the text box is closed.
pub fn text_input_not_active(state: &TextInputState) -> (r: bool)
    ensures
        r == !state.active,
{
    !state.active
}

/// The physical keys the game reads.
#[derive(Clone, Copy, Debug, PartialEq, Eq, Structural)]
pub enum KeyCode {
    KeyA, KeyB, KeyC, KeyD, KeyE, KeyF, KeyG, KeyH, KeyI, KeyJ, KeyK, KeyL, KeyM,
    KeyN, KeyO, KeyP, KeyQ, KeyR, KeyS, KeyT, KeyU, KeyV, KeyW, KeyX, KeyY, KeyZ,
    Digit0, Digit1, Digit2, Digit3, Digit4, Digit5, Digit6, Digit7, Digit8, Digit9,
    Space, Period, Comma, Semicolon, Quote, Slash, Backslash, BracketLeft, BracketRight,
    Minus, Equal, Backquote,
    Numpad0, Numpad1, Numpad2, Numpad3, Numpad4, Numpad5, Numpad6, Numpad7, Numpad8, Numpad9,
    Enter, NumpadEnter, Escape, Backspace, Tab,
    /// Any other key.
    Other,
}

/// The logical key of a key event, as the keyboard layout reads it.
#[derive(Debug)]
pub enum LogicalKey {
    /// Text the key produces.
    Character(String),
    /// The space bar.
    Space,
    /// Any other key.
    Other,
}

/// A keyboard event.
#[derive(Debug)]
pub struct KeyEvent {
    pub key_code: KeyCode,
    pub logical_key: LogicalKey,
    /// Key down (true) or key up (false).
    pub pressed: bool,
}

/// Control characters (general category Cc), as `char::is_control` decides.
pub open spec fn is_control(c: char) -> bool {
    let u = c as u32;
    u <= 0x1f || (0x7f <= u && u <= 0x9f)
}

/// `text` after typing the characters `cs`: a control character, or a character
/// arriving when the text holds 256 bytes or more, is dropped.
pub open spec fn type_chars(text: Seq<char>, cs: Seq<char>) -> Seq<char>
    decreases cs.len(),
{
    if cs.len() == 0 {
        text
    } else {
        let t = type_chars(text, cs.drop_last());
        if !is_control(cs.last()) && utf8_len(t) < MAX_INPUT_BYTES {
            t.push(cs.last())
        } else {
            t
        }
    }
}

/// Whether an event ends the frame's typing (a pressed Enter or Escape).
pub open spec fn is_stop(e: KeyEvent) -> bool {
    e.pressed && (e.key_code == KeyCode::Enter || e.key_code == KeyCode::NumpadEnter
        || e.key_code == KeyCode::Escape)
}

/// `text` after one event that is no stop.
pub open spec fn type_key(text: Seq<char>, e: KeyEvent) -> Seq<char> {
    if !e.pressed {
        text
    } else if e.key_code == KeyCode::Backspace {
        if text.len() > 0 { text.drop_last() } else { text }
    } else {
        match e.logical_key {
            LogicalKey::Character(s) => type_chars(text, s@),
            LogicalKey::Space => if utf8_len(text) < MAX_INPUT_BYTES { text.push(' ') } else { text },
            LogicalKey::Other => text,
        }
    }
}

/// `text` after events none of which is a stop.
pub open spec fn type_keys(text: Seq<char>, events: Seq<KeyEvent>) -> Seq<char>
    decreases events.len(),
{
    if events.len() == 0 {
        text
    } else {
        type_key(type_keys(text, events.drop_last()), events.last())
    }
}

/// The index of the first stop event, if any.
pub open spec fn first_stop(events: Seq<KeyEvent>) -> Option<int> {
    if exists|i: int| 0 <= i < events.len() && is_stop(#[trigger] events[i]) {
        Some(choose|i: int| 0 <= i < events.len() && is_stop(#[trigger] events[i]) && forall|j: int| 0 <= j < i ==> !is_stop(#[trigger] events[j]))
    } else {
        None
    }
}

/// What a frame of keyboard input did.
#[derive(Debug)]
pub enum TextInputOutcome {
    /// The box is closed: nothing happened.
    Inactive,
    /// First frame after opening: the events were dropped.
    SkippedActivationFrame,
    /// The events were typed; the display shows `current_text`.
    Typed,
    /// Enter: the line was submitted (a `SayEvent` when the trimmed text is not
    /// empty and there is a target), the text cleared, the box kept open.
    Submitted(Option<SayEvent>),
    /// Escape: the box was closed; the NPC it targeted is to be released, the
    /// Escape key consumed and the panel closed.
    Cancelled(Option<u64>),
}

/// How many UTF-8 bytes `v` takes, or `cap` if that is `cap` or more.
fn capped_utf8_len(v: &[char], cap: usize) -> (r: usize)
    requires
        cap <= 1000,
    ensures
        r == if utf8_len(v@) < cap { utf8_len(v@) } else { cap as nat },
{
    let mut acc: usize = 0;
    let mut i: usize = 0;
    while i < v.len() && acc < cap
        invariant
            i <= v.len(),
            cap <= 1000,
            acc == utf8_len(v@.take(i as int)),
            acc < cap + 4,
        decreases v.len() - i,
    {
        assert(v@.take(i + 1).drop_last() =~= v@.take(i as int));
        acc = acc + char_utf8_width(v[i]);
        i += 1;
    }
    if acc < cap {
        assert(v@.take(i as int) =~= v@);
        acc
    } else {
        proof {
            crate::text::lemma_utf8_len_prefix(v@, i as int);
        }
        cap
    }
}

fn char_is_control(c: char) -> (r: bool)
    ensures
        r == is_control(c),
{
    let u = c as u32;
    u <= 0x1f || (0x7f <= u && u <= 0x9f)
}

fn type_chars_exec(text: &mut Vec<char>, len: &mut usize, cs: &[char])
    requires
        *old(len) == if utf8_len(old(text)@) < MAX_INPUT_BYTES { utf8_len(old(text)@) } else { MAX_INPUT_BYTES as nat },
    ensures
        final(text)@ == type_chars(old(text)@, cs@),
        *final(len) == if utf8_len(final(text)@) < MAX_INPUT_BYTES { utf8_len(final(text)@) } else { MAX_INPUT_BYTES as nat },
{
    let ghost t0 = text@;
    let mut i: usize = 0;
    assert(cs@.take(0) =~= Seq::<char>::empty());
    while i < cs.len()
        invariant
            i <= cs.len(),
            text@ == type_chars(t0, cs@.take(i as int)),
            *len == if utf8_len(text@) < MAX_INPUT_BYTES { utf8_len(text@) } else { MAX_INPUT_BYTES as nat },
        decreases cs.len() - i,
    {
        assert(cs@.take(i + 1).drop_last() =~= cs@.take(i as int));
        let ch = cs[i];
        if !char_is_control(ch) && *len < MAX_INPUT_BYTES {
            let ghost before = text@;
            text.push(ch);
            assert(text@.drop_last() =~= before);
            let w = char_utf8_width(ch);
            *len = if *len + w < MAX_INPUT_BYTES { *len + w } else { MAX_INPUT_BYTES };
        }
        i += 1;
    }
    assert(cs@.take(cs.len() as int) =~= cs@);
}

/// Runs one frame of the text box over the frame's keyboard events.
pub fn text_input_frame(state: &mut TextInputState, events: &[KeyEvent]) -> (out: TextInputOutcome)
    ensures
        !old(state).active ==> out is Inactive && *final(state) == *old(state),
        old(state).active && old(state).just_activated ==> out is SkippedActivationFrame
            && final(state).active && !final(state).just_activated
            && final(state).current_text == old(state).current_text
            && final(state).target_npc == old(state).target_npc,
        old(state).active && !old(state).just_activated ==> match first_stop(events@) {
            None => out is Typed && final(state).active && !final(state).just_activated
                && final(state).target_npc == old(state).target_npc
                && final(state).current_text@ == type_keys(old(state).current_text@, events@),
            Some(k) => {
                let typed = type_keys(old(state).current_text@, events@.take(k));
                if events@[k].key_code == KeyCode::Escape {
                    out == TextInputOutcome::Cancelled(old(state).target_npc) && !final(state).active
                        && final(state).current_text@ == Seq::<char>::empty()
                        && final(state).target_npc is None
                        && !final(state).just_activated
                } else {
                    &&& final(state).active
                    &&& !final(state).just_activated
                    &&& final(state).target_npc == old(state).target_npc
                    &&& final(state).current_text@ == Seq::<char>::empty()
                    &&& match out {
                        TextInputOutcome::Submitted(Some(ev)) => trim(typed).len() > 0
                            && old(state).target_npc == Some(ev.npc) && ev.text@ == trim(typed),
                        TextInputOutcome::Submitted(None) => trim(typed).len() == 0 || old(state).target_npc is None,
                        _ => false,
                    }
                }
            },
        },
{
    if !state.active {
        return TextInputOutcome::Inactive;
    }
    if state.just_activated {
        state.just_activated = false;
        return TextInputOutcome::SkippedActivationFrame;
    }
    let mut text = chars_of(state.current_text.as_str());
    let mut len = capped_utf8_len(text.as_slice(), MAX_INPUT_BYTES);
    let ghost t0 = text@;
    let mut i: usize = 0;
    assert(events@.take(0) =~= Seq::<KeyEvent>::empty());
    while i < events.len()
        invariant
            i <= events.len(),
            old(state).active,
            !old(state).just_activated,
            state.active,
            !state.just_activated,
            state.target_npc == old(state).target_npc,
            t0 == old(state).current_text@,
            text@ == type_keys(t0, events@.take(i as int)),
            len == if utf8_len(text@) < MAX_INPUT_BYTES { utf8_len(text@) } else { MAX_INPUT_BYTES as nat },
            forall|j: int| 0 <= j < i ==> !is_stop(#[trigger] events@[j]),
        decreases events.len() - i,
    {
        assert(events@.take(i + 1).drop_last() =~= events@.take(i as int));
        let ev = &events[i];
        if ev.pressed {
            match ev.key_code {
                KeyCode::Enter | KeyCode::NumpadEnter => {
                    proof {
                        assert(is_stop(events@[i as int]));
                        assert(first_stop(events@) == Some(i as int));
                    }
                    let trimmed = trim_chars(text.as_slice());
                    let say = if trimmed.len() > 0 {
                        match state.target_npc {
                            Some(npc) => Some(SayEvent { npc, text: string_of(trimmed.as_slice()) }),
                            None => None,
                        }
                    } else {
                        None
                    };
                    state.current_text = String::new();
                    return TextInputOutcome::Submitted(say);
                },
                KeyCode::Escape => {
                    proof {
                        assert(is_stop(events@[i as int]));
                        assert(first_stop(events@) == Some(i as int));
                    }
                    let target = state.target_npc;
                    deactivate_text_input(state);
                    return TextInputOutcome::Cancelled(target);
                },
                KeyCode::Backspace => {
                    text.pop();
                    len = capped_utf8_len(text.as_slice(), MAX_INPUT_BYTES);
                },
                _ => {
                    match &ev.logical_key {
                        LogicalKey::Character(s) => {
                            let cs = chars_of(s.as_str());
                            type_chars_exec(&mut text, &mut len, cs.as_slice());
                        },
                        LogicalKey::Space => {
                            if len < MAX_INPUT_BYTES {
                                text.push(' ');
                                len = capped_utf8_len(text.as_slice(), MAX_INPUT_BYTES);
                            }
                        },
                        LogicalKey::Other => {},
                    }
                },
            }
        }
        i += 1;
    }
    assert(events@.take(events.len() as int) =~= events@);
    state.current_text = string_of(text.as_slice());
    TextInputOutcome::Typed
}

} // verus!

verus! {

/// The character a key types on a US layout, with or without shift; `None`
/// for keys that type nothing.
pub open spec fn key_char(key: KeyCode, shift: bool) -> Option<char> {
    match key {
        KeyCode::KeyA => Some(if shift { 'A' } else { 'a' }),
        KeyCode::KeyB => Some(if shift { 'B' } else { 'b' }),
        KeyCode::KeyC => Some(if shift { 'C' } else { 'c' }),
        KeyCode::KeyD => Some(if shift { 'D' } else { 'd' }),
        KeyCode::KeyE => Some(if shift { 'E' } else { 'e' }),
        KeyCode::KeyF => Some(if shift { 'F' } else { 'f' }),
        KeyCode::KeyG => Some(if shift { 'G' } else { 'g' }),
        KeyCode::KeyH => Some(if shift { 'H' } else { 'h' }),
        KeyCode::KeyI => Some(if shift { 'I' } else { 'i' }),
        KeyCode::KeyJ => Some(if shift { 'J' } else { 'j' }),
        KeyCode::KeyK => Some(if shift { 'K' } else { 'k' }),
        KeyCode::KeyL => Some(if shift { 'L' } else { 'l' }),
        KeyCode::KeyM => Some(if shift { 'M' } else { 'm' }),
        KeyCode::KeyN => Some(if shift { 'N' } else { 'n' }),
        KeyCode::KeyO => Some(if shift { 'O' } else { 'o' }),
        KeyCode::KeyP => Some(if shift { 'P' } else { 'p' }),
        KeyCode::KeyQ => Some(if shift { 'Q' } else { 'q' }),
        KeyCode::KeyR => Some(if shift { 'R' } else { 'r' }),
        KeyCode::KeyS => Some(if shift { 'S' } else { 's' }),
        KeyCode::KeyT => Some(if shift { 'T' } else { 't' }),
        KeyCode::KeyU => Some(if shift { 'U' } else { 'u' }),
        KeyCode::KeyV => Some(if shift { 'V' } else { 'v' }),
        KeyCode::KeyW => Some(if shift { 'W' } else { 'w' }),
        KeyCode::KeyX => Some(if shift { 'X' } else { 'x' }),
        KeyCode::KeyY => Some(if shift { 'Y' } else { 'y' }),
        KeyCode::KeyZ => Some(if shift { 'Z' } else { 'z' }),
        KeyCode::Digit0 => Some(if shift { ')' } else { '0' }),
        KeyCode::Digit1 => Some(if shift { '!' } else { '1' }),
        KeyCode::Digit2 => Some(if shift { '@' } else { '2' }),
        KeyCode::Digit3 => Some(if shift { '#' } else { '3' }),
        KeyCode::Digit4 => Some(if shift { '$' } else { '4' }),
        KeyCode::Digit5 => Some(if shift { '%' } else { '5' }),
        KeyCode::Digit6 => Some(if shift { '^' } else { '6' }),
        KeyCode::Digit7 => Some(if shift { '&' } else { '7' }),
        KeyCode::Digit8 => Some(if shift { '*' } else { '8' }),
        KeyCode::Digit9 => Some(if shift { '(' } else { '9' }),
        KeyCode::Space => Some(' '),
        KeyCode::Period => Some(if shift { '>' } else { '.' }),
        KeyCode::Comma => Some(if shift { '<' } else { ',' }),
        KeyCode::Semicolon => Some(if shift { ':' } else { ';' }),
        KeyCode::Quote => Some(if shift { '"' } else { '\'' }),
        KeyCode::Slash => Some(if shift { '?' } else { '/' }),
        KeyCode::Backslash => Some(if shift { '|' } else { '\\' }),
        KeyCode::BracketLeft => Some(if shift { '{' } else { '[' }),
        KeyCode::BracketRight => Some(if shift { '}' } else { ']' }),
        KeyCode::Minus => Some(if shift { '_' } else { '-' }),
        KeyCode::Equal => Some(if shift { '+' } else { '=' }),
        KeyCode::Backquote => Some(if shift { '~' } else { '`' }),
        KeyCode::Numpad0 => Some('0'),
        KeyCode::Numpad1 => Some('1'),
        KeyCode::Numpad2 => Some('2'),
        KeyCode::Numpad3 => Some('3'),
        KeyCode::Numpad4 => Some('4'),
        KeyCode::Numpad5 => Some('5'),
        KeyCode::Numpad6 => Some('6'),
        KeyCode::Numpad7 => Some('7'),
        KeyCode::Numpad8 => Some('8'),
        KeyCode::Numpad9 => Some('9'),
        _ => None,
    }
}

/// Maps a key to a character, respecting shift state.
/// Returns `None` for non-printable keys.
pub fn key_to_char(key: KeyCode, shift: bool) -> (r: Option<char>)
    ensures
        r == key_char(key, shift),
{
    match key {
        KeyCode::KeyA => Some(if shift { 'A' } else { 'a' }),
        KeyCode::KeyB => Some(if shift { 'B' } else { 'b' }),
        KeyCode::KeyC => Some(if shift { 'C' } else { 'c' }),
        KeyCode::KeyD => Some(if shift { 'D' } else { 'd' }),
        KeyCode::KeyE => Some(if shift { 'E' } else { 'e' }),
        KeyCode::KeyF => Some(if shift { 'F' } else { 'f' }),
        KeyCode::KeyG => Some(if shift { 'G' } else { 'g' }),
        KeyCode::KeyH => Some(if shift { 'H' } else { 'h' }),
        KeyCode::KeyI => Some(if shift { 'I' } else { 'i' }),
        KeyCode::KeyJ => Some(if shift { 'J' } else { 'j' }),
        KeyCode::KeyK => Some(if shift { 'K' } else { 'k' }),
        KeyCode::KeyL => Some(if shift { 'L' } else { 'l' }),
        KeyCode::KeyM => Some(if shift { 'M' } else { 'm' }),
        KeyCode::KeyN => Some(if shift { 'N' } else { 'n' }),
        KeyCode::KeyO => Some(if shift { 'O' } else { 'o' }),
        KeyCode::KeyP => Some(if shift { 'P' } else { 'p' }),
        KeyCode::KeyQ => Some(if shift { 'Q' } else { 'q' }),
        KeyCode::KeyR => Some(if shift { 'R' } else { 'r' }),
        KeyCode::KeyS => Some(if shift { 'S' } else { 's' }),
        KeyCode::KeyT => Some(if shift { 'T' } else { 't' }),
        KeyCode::KeyU => Some(if shift { 'U' } else { 'u' }),
        KeyCode::KeyV => Some(if shift { 'V' } else { 'v' }),
        KeyCode::KeyW => Some(if shift { 'W' } else { 'w' }),
        KeyCode::KeyX => Some(if shift { 'X' } else { 'x' }),
        KeyCode::KeyY => Some(if shift { 'Y' } else { 'y' }),
        KeyCode::KeyZ => Some(if shift { 'Z' } else { 'z' }),
        KeyCode::Digit0 => Some(if shift { ')' } else { '0' }),
        KeyCode::Digit1 => Some(if shift { '!' } else { '1' }),
        KeyCode::Digit2 => Some(if shift { '@' } else { '2' }),
        KeyCode::Digit3 => Some(if shift { '#' } else { '3' }),
        KeyCode::Digit4 => Some(if shift { '$' } else { '4' }),
        KeyCode::Digit5 => Some(if shift { '%' } else { '5' }),
        KeyCode::Digit6 => Some(if shift { '^' } else { '6' }),
        KeyCode::Digit7 => Some(if shift { '&' } else { '7' }),
        KeyCode::Digit8 => Some(if shift { '*' } else { '8' }),
        KeyCode::Digit9 => Some(if shift { '(' } else { '9' }),
        KeyCode::Space => Some(' '),
        KeyCode::Period => Some(if shift { '>' } else { '.' }),
        KeyCode::Comma => Some(if shift { '<' } else { ',' }),
        KeyCode::Semicolon => Some(if shift { ':' } else { ';' }),
        KeyCode::Quote => Some(if shift { '"' } else { '\'' }),
        KeyCode::Slash => Some(if shift { '?' } else { '/' }),
        KeyCode::Backslash => Some(if shift { '|' } else { '\\' }),
        KeyCode::BracketLeft => Some(if shift { '{' } else { '[' }),
        KeyCode::BracketRight => Some(if shift { '}' } else { ']' }),
        KeyCode::Minus => Some(if shift { '_' } else { '-' }),
        KeyCode::Equal => Some(if shift { '+' } else { '=' }),
        KeyCode::Backquote => Some(if shift { '~' } else { '`' }),
        KeyCode::Numpad0 => Some('0'),
        KeyCode::Numpad1 => Some('1'),
        KeyCode::Numpad2 => Some('2'),
        KeyCode::Numpad3 => Some('3'),
        KeyCode::Numpad4 => Some('4'),
        KeyCode::Numpad5 => Some('5'),
        KeyCode::Numpad6 => Some('6'),
        KeyCode::Numpad7 => Some('7'),
        KeyCode::Numpad8 => Some('8'),
        KeyCode::Numpad9 => Some('9'),
        _ => None,
    }
}

} // verus!

verus! {

proof fn lemma_type_chars_bound(text: Seq<char>, cs: Seq<char>)
    requires
        utf8_len(text) <= MAX_INPUT_BYTES + 3,
    ensures
        utf8_len(type_chars(text, cs)) <= MAX_INPUT_BYTES + 3,
    decreases cs.len(),
{
    if cs.len() > 0 {
        lemma_type_chars_bound(text, cs.drop_last());
        let t = type_chars(text, cs.drop_last());
        assert(t.push(cs.last()).drop_last() =~= t);
    }
}

/// Typing never makes the text longer than `MAX_INPUT_BYTES` bytes plus the
/// three more bytes that the last accepted character may bring: a character is
/// taken only while the text is under the limit.
pub proof fn lemma_typing_keeps_text_bounded(text: Seq<char>, events: Seq<KeyEvent>)
    requires
        utf8_len(text) <= MAX_INPUT_BYTES + 3,
    ensures
        utf8_len(type_keys(text, events)) <= MAX_INPUT_BYTES + 3,
    decreases events.len(),
{
    if events.len() > 0 {
        lemma_typing_keeps_text_bounded(text, events.drop_last());
        let t = type_keys(text, events.drop_last());
        let e = events.last();
        if e.pressed {
            if e.key_code == KeyCode::Backspace {
                if t.len() > 0 {
                    crate::text::lemma_utf8_len_prefix(t, t.len() - 1);
                    assert(t.take(t.len() - 1) =~= t.drop_last());
                }
            } else {
                match e.logical_key {
                    LogicalKey::Character(s) => lemma_type_chars_bound(t, s@),
                    LogicalKey::Space => {
                        assert(t.push(' ').drop_last() =~= t);
                    },
                    LogicalKey::Other => {},
                }
            }
        }
    }
}

/// A key release types nothing: only key presses change the text.
pub proof fn lemma_key_release_types_nothing(text: Seq<char>, e: KeyEvent)
    requires
        !e.pressed,
    ensures
        type_key(text, e) == text,
{
}

/// What a pressed key does: Backspace deletes the last character (nothing on
/// an empty text), Space adds a space while the text is under the byte limit,
/// a character key types its printable characters while under the limit, and
/// any other key changes nothing.
pub proof fn lemma_key_press_effects(text: Seq<char>, e: KeyEvent)
    requires
        e.pressed,
    ensures
        e.key_code == KeyCode::Backspace ==> type_key(text, e) == if text.len() > 0 {
            text.drop_last()
        } else {
            text
        },
        e.key_code != KeyCode::Backspace && e.logical_key == LogicalKey::Space ==> type_key(text, e) == if utf8_len(
            text,
        ) < MAX_INPUT_BYTES {
            text.push(' ')
        } else {
            text
        },
        e.key_code != KeyCode::Backspace && e.logical_key == LogicalKey::Other ==> type_key(text, e) == text,
        e.key_code != KeyCode::Backspace && (e.logical_key is Character) ==> type_key(text, e) == type_chars(
            text,
            e.logical_key->Character_0@,
        ),
{
}

/// Typing a character that is no control character onto a text under the
/// byte limit appends it; a control character, or a full text, is left as is.
pub proof fn lemma_type_one_char(text: Seq<char>, c: char)
    ensures
        !is_control(c) && utf8_len(text) < MAX_INPUT_BYTES ==> type_chars(text, seq![c]) == text.push(c),
        is_control(c) || utf8_len(text) >= MAX_INPUT_BYTES ==> type_chars(text, seq![c]) == text,
{
    assert(seq![c].drop_last() =~= Seq::<char>::empty());
    assert(type_chars(text, seq![c].drop_last()) == text);
    assert(seq![c].last() == c);
}

/// The text a frame types depends only on its key presses: dropping every key
/// release from the events gives the same text.
pub proof fn lemma_typing_reads_presses_only(text: Seq<char>, events: Seq<KeyEvent>)
    ensures
        type_keys(text, events) == type_keys(text, events.filter(|e: KeyEvent| e.pressed)),
    decreases events.len(),
{
    let p = |e: KeyEvent| e.pressed;
    if events.len() > 0 {
        let d = events.drop_last();
        let e = events.last();
        lemma_typing_reads_presses_only(text, d);
        assert(events =~= d.push(e));
        d.lemma_filter_push(e, p);
        let f = d.filter(p);
        if e.pressed {
            assert(f.push(e).drop_last() =~= f);
        }
    } else {
        reveal(Seq::filter);
        assert(events.filter(p) =~= events);
    }
}

} // verus!
