//! The rules the window itself keeps: what it calls itself, how a panic is
//! reported, which theme the chip switches to, and which action a failure
//! belongs to.

use vstd::prelude::*;
use crate::strings::{push_all, string_of};

verus! {

/// What the window and its failures call themselves.
pub const TITLE: &'static str = "Telegram Exporter";

/// The two ways a panic gets reported, chosen by whether the window ever
/// opened: once it has, the renderer plainly works and the graphics stack is
/// not blamed.
pub open spec fn panic_text(window_opened: bool, panic: Seq<char>) -> Seq<char> {
    if window_opened {
        TITLE@ + " stopped unexpectedly: "@ + panic
            + "\nAn export already written to disk is unaffected; the JSON is closed as each chat finishes."@
    } else {
        TITLE@ + " could not start: "@ + panic
            + "\nThis build draws with OpenGL and needs working graphics drivers."@
    }
}

pub fn panic_message(window_opened: bool, panic: &str) -> (s: String)
    ensures
        s@ == panic_text(window_opened, panic@),
{
    let mut v: Vec<char> = Vec::new();
    push_all(&mut v, TITLE);
    if window_opened {
        push_all(&mut v, " stopped unexpectedly: ");
        push_all(&mut v, panic);
        push_all(&mut v, "\nAn export already written to disk is unaffected; the JSON is closed as each chat finishes.");
    } else {
        push_all(&mut v, " could not start: ");
        push_all(&mut v, panic);
        push_all(&mut v, "\nThis build draws with OpenGL and needs working graphics drivers.");
    }
    assert(Seq::<char>::empty() + panic_text(window_opened, panic@) == panic_text(window_opened, panic@));
    string_of(&v)
}

/// The appearance the theme chip switches to: anything that is not `light`
/// is dark, so the chip switches it to light.
pub fn other_theme(name: &str) -> (t: &'static str)
    ensures
        t@ == if name@ == "light"@ { "dark"@ } else { "light"@ },
{
    if crate::strings::same_chars(&crate::strings::chars_of(name), &crate::strings::chars_of("light")) {
        "dark"
    } else {
        "light"
    }
}

/// Which action a failure belongs to.
#[derive(Debug, Clone, Copy, PartialEq, Eq, Structural)]
pub enum Activity {
    SignIn,
    Chats,
    Count,
    Export,
}

} // verus!
