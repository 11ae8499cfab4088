//! The acceptor's bookkeeping: each accepted connection gets a fresh game
//! under a label that is never given out twice.

use vstd::prelude::*;
use crate::session::Session;

verus! {

/// Hands out sessions for accepted connections, numbering their opponents
/// from 1 upwards.
pub struct Acceptor {
    next_label: u64,
    score_to_win: u8,
}

impl Acceptor {
    /// The label that the next session gets.
    pub closed spec fn next_label(&self) -> u64 {
        self.next_label
    }

    /// The winning score of every session opened here.
    pub closed spec fn winning_score(&self) -> u8 {
        self.score_to_win
    }

    pub closed spec fn wf(&self) -> bool {
        self.next_label >= 1 && self.score_to_win >= 1
    }

    pub fn new(score_to_win: u8) -> (r: Acceptor)
        requires
            score_to_win >= 1,
        ensures
            r.wf(),
            r.next_label() == 1,
            r.winning_score() == score_to_win,
    {
        Acceptor { next_label: 1, score_to_win }
    }

    /// Opens the session of a newly accepted connection. Labels run out only
    /// after the largest `u64`; from then on no session is opened.
    pub fn open_session(&mut self) -> (r: Option<Session>)
        requires
            old(self).wf(),
        ensures
            final(self).wf(),
            final(self).winning_score() == old(self).winning_score(),
            old(self).next_label() < u64::MAX ==> r == Some(
                Session::initial(old(self).next_label(), old(self).winning_score()),
            ) && final(self).next_label() == old(self).next_label() + 1,
            old(self).next_label() == u64::MAX ==> r is None && final(self).next_label()
                == old(self).next_label(),
    {
        if self.next_label == u64::MAX {
            return None;
        }
        let s = Session::new(self.next_label, self.score_to_win);
        self.next_label = self.next_label + 1;
        Some(s)
    }
}

} // verus!
