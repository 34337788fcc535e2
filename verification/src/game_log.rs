//! The lines of the session log: a clock stamp, a category and a detail.

use vstd::prelude::*;
use crate::text::{chars_of, string_of, extend_chars, zero_padded, zero_padded_chars, replace_char, replace_char_chars};

verus! {

/// The clock stamp `HH:MM:SS.mmm` of a time given as whole seconds since the
/// epoch and milliseconds (UTC, no date).
pub open spec fn clock(secs: u64, millis: u32) -> Seq<char> {
    zero_padded(((secs / 3600) % 24) as nat, 2) + ":"@ + zero_padded(((secs / 60) % 60) as nat, 2) + ":"@
        + zero_padded((secs % 60) as nat, 2) + "."@ + zero_padded(millis as nat, 3)
}

/// The clock stamp of a time since the epoch.
pub fn clock_text(secs: u64, millis: u32) -> (r: String)
    ensures
        r@ == clock(secs, millis),
{
    let mut v = zero_padded_chars((secs / 3600) % 24, 2);
    extend_chars(&mut v, chars_of(":").as_slice());
    extend_chars(&mut v, zero_padded_chars((secs / 60) % 60, 2).as_slice());
    extend_chars(&mut v, chars_of(":").as_slice());
    extend_chars(&mut v, zero_padded_chars(secs % 60, 2).as_slice());
    extend_chars(&mut v, chars_of(".").as_slice());
    extend_chars(&mut v, zero_padded_chars(millis as u64, 3).as_slice());
    string_of(v.as_slice())
}

/// A log line: `[stamp] CATEGORY: detail`.
pub open spec fn log_line(stamp: Seq<char>, category: Seq<char>, detail: Seq<char>) -> Seq<char> {
    "["@ + stamp + "] "@ + category + ": "@ + detail
}

/// The log line of an action.
pub fn log_line_text(stamp: &str, category: &str, detail: &str) -> (r: String)
    ensures
        r@ == log_line(stamp@, category@, detail@),
{
    let mut v = chars_of("[");
    extend_chars(&mut v, chars_of(stamp).as_slice());
    extend_chars(&mut v, chars_of("] ").as_slice());
    extend_chars(&mut v, chars_of(category).as_slice());
    extend_chars(&mut v, chars_of(": ").as_slice());
    extend_chars(&mut v, chars_of(detail).as_slice());
    string_of(v.as_slice())
}

/// The file name of a session's log: the stamp with `:` as `-` and spaces as `_`.
pub open spec fn session_file_name(stamp: Seq<char>) -> Seq<char> {
    "session_"@ + replace_char(replace_char(stamp, ':', '-'), ' ', '_') + ".log"@
}

/// The file name of the log of a session started at `stamp`.
pub fn session_file_name_text(stamp: &str) -> (r: String)
    ensures
        r@ == session_file_name(stamp@),
{
    let s = chars_of(stamp);
    let s = replace_char_chars(s.as_slice(), ':', '-');
    let s = replace_char_chars(s.as_slice(), ' ', '_');
    let mut v = chars_of("session_");
    extend_chars(&mut v, s.as_slice());
    extend_chars(&mut v, chars_of(".log").as_slice());
    string_of(v.as_slice())
}

/// What `format!("{:?}", s)` writes for a string: the text between double
/// quotes, with quotes, backslashes and special characters escaped.
pub uninterp spec fn debug_text(s: Seq<char>) -> Seq<char>;

/// The debug form of a string, as the log shows what was said.
///
/// Trusted: `format!("{:?}")` on a `str` (its `Debug` impl), which writes the
/// text between double quotes, escaping where needed. The contract names the
/// result and states the quotes around it.
#[verifier::external_body]
fn debug_string(s: &str) -> (r: String)
    ensures
        r@ == debug_text(s@),
        r@.len() >= 2,
        r@[0] == '"',
        r@.last() == '"',
{
    format!("{:?}", s)
}

/// The detail of a `SAY` line: who the player spoke to and what was said.
pub open spec fn say_detail(npc_name: Seq<char>, text: Seq<char>) -> Seq<char> {
    "player -> "@ + npc_name + ": "@ + debug_text(text)
}

/// The detail logged when the player speaks to an NPC.
pub fn say_detail_text(npc_name: &str, text: &str) -> (r: String)
    ensures
        r@ == say_detail(npc_name@, text@),
{
    let mut v = chars_of("player -> ");
    extend_chars(&mut v, chars_of(npc_name).as_slice());
    extend_chars(&mut v, chars_of(": ").as_slice());
    let d = debug_string(text);
    extend_chars(&mut v, chars_of(d.as_str()).as_slice());
    string_of(v.as_slice())
}

/// The detail of a `CHAT` line: the speaker and what appeared on screen.
pub open spec fn chat_detail(speaker: Seq<char>, text: Seq<char>) -> Seq<char> {
    speaker + ": "@ + debug_text(text)
}

/// The detail logged for a chat message.
pub fn chat_detail_text(speaker: &str, text: &str) -> (r: String)
    ensures
        r@ == chat_detail(speaker@, text@),
{
    let mut v = chars_of(speaker);
    extend_chars(&mut v, chars_of(": ").as_slice());
    let d = debug_string(text);
    extend_chars(&mut v, chars_of(d.as_str()).as_slice());
    string_of(v.as_slice())
}

} // verus!
