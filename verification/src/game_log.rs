//! A capped log of messages, newest first.

use vstd::prelude::*;

verus! {

pub struct GameLog {
    pub entries: Vec<String>,
    /// The largest number of entries the log keeps.
    pub capacity: usize,
}

/// The lines of a log after `msg` is put in front of `lines` and the oldest
/// lines beyond `capacity` are dropped.
pub open spec fn log_after(lines: Seq<Seq<char>>, capacity: nat, msg: Seq<char>) -> Seq<Seq<char>> {
    let all = seq![msg] + lines;
    if all.len() <= capacity {
        all
    } else {
        all.take(capacity as int)
    }
}

impl GameLog {
    /// The text of the entries, newest first.
    pub open spec fn lines(&self) -> Seq<Seq<char>> {
        Seq::new(self.entries@.len(), |i: int| self.entries@[i]@)
    }

    pub open spec fn wf(&self) -> bool {
        self.entries@.len() <= self.capacity
    }

    /// An empty log that keeps at most `size` entries.
    pub fn new(size: usize) -> (log: GameLog)
        ensures
            log.wf(),
            log.capacity == size,
            log.lines() == Seq::<Seq<char>>::empty(),
    {
        let log = GameLog { entries: Vec::with_capacity(size), capacity: size };
        log
    }

    /// Puts `msg` in front; an entry pushed past the capacity is dropped.
    pub fn add_message(&mut self, msg: String)
        ensures
            final(self).wf(),
            final(self).capacity == old(self).capacity,
            final(self).lines() == log_after(old(self).lines(), old(self).capacity as nat, msg@),
    {
        self.entries.insert(0, msg);
        self.entries.truncate(self.capacity);
    }
}

} // verus!
