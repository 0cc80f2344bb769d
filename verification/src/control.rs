//! The terminal while the assistant runs.
use vstd::prelude::*;

use crate::text::{trim, trimmed};

verus! {

/// What is to be restored in the terminal at the end.
#[derive(Debug)]
pub struct TerminalEchoGuard {
    /// The settings before they were changed, if they were.
    pub original_state: Option<String>,
}

/// The settings in what the terminal tool printed: nothing else, and not
/// nothing.
pub open spec fn saved_state(printed: Seq<char>) -> Result<Seq<char>, Seq<char>> {
    if trim(printed).len() == 0 {
        Err("stty returned an empty terminal state"@)
    } else {
        Ok(trim(printed))
    }
}

impl TerminalEchoGuard {
    /// The argument that makes the terminal tool print its settings.
    pub fn query_argument() -> (r: &'static str)
        ensures
            r@ == "-g"@,
    {
        "-g"
    }

    /// The argument that keeps control characters from being shown.
    pub fn hide_argument() -> (r: &'static str)
        ensures
            r@ == "-echoctl"@,
    {
        "-echoctl"
    }

    /// The settings in what the terminal tool printed.
    pub fn read_state(printed: &str) -> (r: Result<String, String>)
        ensures
            match r {
                Ok(state) => saved_state(printed@) == Ok::<Seq<char>, Seq<char>>(state@),
                Err(reason) => saved_state(printed@) == Err::<Seq<char>, Seq<char>>(reason@),
            },
    {
        let state = trimmed(printed);
        if state.as_str().is_empty() {
            return Err("stty returned an empty terminal state".to_owned());
        }
        Ok(state)
    }

    /// The guard after the settings were changed, or could not be.
    pub fn after_change(changed: Result<String, String>) -> (r: Self)
        ensures
            match changed {
                Ok(state) => match r.original_state {
                    Some(kept) => kept@ == state@,
                    None => false,
                },
                Err(_) => r.original_state is None,
            },
    {
        match changed {
            Ok(state) => TerminalEchoGuard { original_state: Some(state) },
            Err(_) => TerminalEchoGuard { original_state: None },
        }
    }

    /// Takes the settings that are to be restored. They are restored once.
    pub fn take_state(&mut self) -> (r: Option<String>)
        ensures
            r == old(self).original_state,
            final(self).original_state is None,
    {
        self.original_state.take()
    }
}

} // verus!
