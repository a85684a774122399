//! The combat message log: a lockable stack of display strings.

use vstd::prelude::*;

use vstd::string::StringExecFns;

verus! {

/// Log entries queued for display. While the log is locked, new messages are
/// refused; showing pops the most recent entry.
pub struct GameMessage {
    pub logs: Vec<String>,
    pub is_locking: bool,
}

impl Default for GameMessage {
    /// An empty, unlocked log.
    fn default() -> (m: GameMessage)
        ensures
            m.logs@.len() == 0,
            !m.is_locking,
    {
        GameMessage { logs: Vec::new(), is_locking: false }
    }
}

impl GameMessage {
    /// Append a message unless the log is locked; report whether it was
    /// accepted.
    pub fn send(&mut self, msg: &str) -> (accepted: bool)
        ensures
            accepted == !old(self).is_locking,
            final(self).is_locking == old(self).is_locking,
            old(self).is_locking ==> final(self).logs@ == old(self).logs@,
            !old(self).is_locking ==> final(self).logs@.len() == old(self).logs@.len() + 1
                && final(self).logs@.last()@ == msg@ && final(self).logs@.take(
                old(self).logs@.len() as int,
            ) == old(self).logs@,
    {
        if self.is_locking {
            false
        } else {
            self.logs.push(String::from_str(msg));
            assert(self.logs@.take(old(self).logs@.len() as int) =~= old(self).logs@);
            true
        }
    }

    /// Pop and return the most recent message, if any.
    pub fn show(&mut self) -> (msg: Option<String>)
        ensures
            final(self).is_locking == old(self).is_locking,
            match msg {
                Some(m) => old(self).logs@.len() > 0 && m == old(self).logs@.last()
                    && final(self).logs@ == old(self).logs@.drop_last(),
                None => old(self).logs@.len() == 0 && final(self).logs@ == old(self).logs@,
            },
    {
        self.logs.pop()
    }

    /// Refuse further messages until the log is unlocked.
    pub fn lock(&mut self)
        ensures
            final(self).is_locking,
            final(self).logs@ == old(self).logs@,
    {
        self.is_locking = true
    }

    /// Accept messages again.
    pub fn unlock(&mut self)
        ensures
            !final(self).is_locking,
            final(self).logs@ == old(self).logs@,
    {
        self.is_locking = false;
    }
}

} // verus!
