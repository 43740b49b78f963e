//! A short memory of diagnostic messages for display.

use vstd::prelude::*;
use vstd::string::*;

verus! {

/// How many messages are kept.
pub const MAX_ENTRIES: usize = 50;

/// A message as it is kept: the level in brackets, then the text.
pub open spec fn entry_text(level: Seq<char>, message: Seq<char>) -> Seq<char> {
    "["@ + level + "] "@ + message
}

/// `entries` with one more; where that makes more than `MAX_ENTRIES`, the
/// oldest entry leaves.
pub open spec fn remembered(entries: Seq<String>, entry: String) -> Seq<String> {
    if entries.len() + 1 > MAX_ENTRIES {
        entries.push(entry).drop_first()
    } else {
        entries.push(entry)
    }
}

/// The newest diagnostic messages, oldest first.
pub struct UiLogger {
    pub logs: Vec<String>,
}

impl UiLogger {
    /// Remembers nothing yet.
    pub fn new() -> (logger: Self)
        ensures
            logger.logs@.len() == 0,
    {
        UiLogger { logs: Vec::new() }
    }

    /// Remembers a message of the given level. Of more than `MAX_ENTRIES`
    /// messages the oldest is forgotten.
    pub fn log(&mut self, level: &str, message: &str)
        ensures
            final(self).logs@.len() > 0,
            final(self).logs@.last()@ == entry_text(level@, message@),
            final(self).logs@ == remembered(old(self).logs@, final(self).logs@.last()),
            old(self).logs@.len() <= MAX_ENTRIES ==> final(self).logs@.len() <= MAX_ENTRIES,
    {
        let ghost before = self.logs@;
        let mut entry = String::new();
        entry.append("[");
        entry.append(level);
        entry.append("] ");
        entry.append(message);
        assert(entry@ =~= entry_text(level@, message@));
        let ghost added = entry;
        self.logs.push(entry);
        if self.logs.len() > MAX_ENTRIES {
            self.logs.remove(0);
            assert(self.logs@ =~= before.push(added).drop_first());
        }
    }
}

} // verus!
