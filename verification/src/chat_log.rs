//! The chat log at the bottom of the screen and the proximity hint: the texts
//! they show.

use vstd::prelude::*;
use crate::text::{chars_of, string_of, extend_chars};

verus! {

/// Most messages shown at once.
pub const MAX_MESSAGES: usize = 4;

/// A message for the chat log.
#[derive(Debug, Clone)]
pub struct PushChatMessage {
    pub speaker: String,
    pub text: String,
}

/// The text a message shows: `speaker: text`, or the text alone when there is
/// no speaker.
pub open spec fn chat_line(speaker: Seq<char>, text: Seq<char>) -> Seq<char> {
    if speaker.len() == 0 {
        text
    } else {
        speaker + ": "@ + text
    }
}

/// The text shown for a message.
pub fn display_text(msg: &PushChatMessage) -> (r: String)
    ensures
        r@ == chat_line(msg.speaker@, msg.text@),
{
    if msg.speaker.as_str().is_empty() {
        return msg.text.clone();
    }
    let mut v = chars_of(msg.speaker.as_str());
    extend_chars(&mut v, chars_of(": ").as_slice());
    extend_chars(&mut v, chars_of(msg.text.as_str()).as_slice());
    string_of(v.as_slice())
}

} // verus!

verus! {

/// The hint shown when an interactable is within reach: `[E]  name`.
pub open spec fn proximity_hint(name: Seq<char>) -> Seq<char> {
    "[E]  "@ + name
}

/// The text of the proximity hint for the nearest interactable.
pub fn proximity_hint_text(name: &str) -> (r: String)
    ensures
        r@ == proximity_hint(name@),
{
    let mut v = chars_of("[E]  ");
    extend_chars(&mut v, chars_of(name).as_slice());
    string_of(v.as_slice())
}

} // verus!
