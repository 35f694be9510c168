//! Log lines kept in memory.

use vstd::prelude::*;
use vstd::string::*;

verus! {

/// What a log line reports.
#[derive(Clone, Copy)]
pub enum LogType {
    Info,
    Error,
    Point,
}

/// The log lines written so far, oldest first.
pub struct LoggingState {
    pub text: Vec<(String, LogType)>,
}

impl LoggingState {
    /// The lines as plain values.
    pub open spec fn view(&self) -> Seq<(Seq<char>, LogType)> {
        Seq::new(self.text@.len(), |i: int| (self.text@[i].0@, self.text@[i].1))
    }

    /// A log without lines.
    #[must_use]
    pub fn create() -> (state: LoggingState)
        ensures
            state@ == Seq::<(Seq<char>, LogType)>::empty(),
    {
        let state = LoggingState { text: Vec::new() };
        proof {
            assert(state@ =~= Seq::<(Seq<char>, LogType)>::empty());
        }
        state
    }

    /// Appends one line.
    pub fn write_to_storage(&mut self, s: &str, t: LogType)
        ensures
            final(self)@ == old(self)@.push((s@, t)),
    {
        let line = (String::from_str(s), t);
        proof {
            assert(Seq::new(
                self.text@.push(line).len(),
                |i: int| (self.text@.push(line)[i].0@, self.text@.push(line)[i].1),
            ) =~= self@.push((s@, t)));
        }
        self.text.push(line);
    }
}

} // verus!
