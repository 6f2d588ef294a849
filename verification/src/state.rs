//! What the terminal front end keeps between events.

use vstd::prelude::*;

verus! {

/// The lines that the language server has written to its error stream.
#[derive(Debug)]
pub struct State {
    pub console_log: Vec<String>,
}

impl State {
    /// A state with an empty log.
    pub fn new() -> (state: State)
        ensures
            state.console_log@.len() == 0,
    {
        State { console_log: Vec::new() }
    }

    /// Appends `line` to the log.
    pub fn log(&mut self, line: String)
        ensures
            final(self).console_log@ == old(self).console_log@.push(line),
    {
        self.console_log.push(line);
    }

    /// Where the newest `limit` lines of the log start: they are shown
    /// newest first.
    pub fn tail_start(&self, limit: usize) -> (start: usize)
        ensures
            start == if self.console_log@.len() > limit {
                self.console_log@.len() - limit
            } else {
                0
            },
    {
        if self.console_log.len() > limit {
            self.console_log.len() - limit
        } else {
            0
        }
    }
}

} // verus!
