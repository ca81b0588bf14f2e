//! Invocation-mode selection and the interactive loop's input decisions:
//! which mode a launch runs in, and what one typed line means (ignore,
//! leave, or process), kept apart from the terminal I/O that acts on them.
use vstd::prelude::*;
use crate::text::{eq_ignore_ascii_case_spec, str_eq_ignore_ascii_case, trim, trim_spec};

verus! {

/// The launch options the front end hands over, as plain values;
/// temperature in thousandths.
pub struct Cli {
    pub prompt: String,
    pub chat: Option<String>,
    pub headless: bool,
    pub no_animations: bool,
    pub model: String,
    pub voice: bool,
    pub temperature_milli: u32,
    pub debug: bool,
}

impl Cli {
    /// One prompt, one response, no session: a prompt was given and no chat
    /// session was selected.
    pub fn one_shot_mode(&self) -> (r: bool)
        ensures
            r == (self.prompt@.len() > 0 && self.chat is None),
    {
        !self.prompt.as_str().is_empty() && self.chat.is_none()
    }

    /// A persistent conversation was selected.
    pub fn chat_mode(&self) -> (r: bool)
        ensures
            r == (self.chat is Some),
    {
        self.chat.is_some()
    }
}

/// What the interactive loop does with one typed line.
pub enum LoopAction {
    /// Blank input: read the next line, nothing is processed or recorded.
    Ignore,
    /// An exit keyword: leave the loop.
    Exit,
    /// Ordinary input, already normalized, to route and answer.
    Process(String),
}

/// The exit keywords, compared without regard to ASCII case.
pub open spec fn is_exit_word(t: Seq<char>) -> bool {
    eq_ignore_ascii_case_spec(t, "exit"@) || eq_ignore_ascii_case_spec(t, "quit"@)
}

/// Decides what one line of interactive input means: whitespace-only lines
/// are ignored, `exit`/`quit` in any ASCII case end the loop, and anything
/// else is processed in its normalized form.
pub fn classify_input(line: &str) -> (r: LoopAction)
    ensures
        ({
            let t = trim_spec(line@);
            match r {
                LoopAction::Ignore => t.len() == 0,
                LoopAction::Exit => t.len() > 0 && is_exit_word(t),
                LoopAction::Process(s) => s@ == t && t.len() > 0 && !is_exit_word(t),
            }
        }),
{
    let t = trim(line);
    if t.as_str().is_empty() {
        return LoopAction::Ignore;
    }
    if str_eq_ignore_ascii_case(t.as_str(), "exit") || str_eq_ignore_ascii_case(t.as_str(), "quit")
    {
        return LoopAction::Exit;
    }
    LoopAction::Process(t)
}

} // verus!
