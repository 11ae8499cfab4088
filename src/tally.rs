//! The collector of outcomes: one boolean per finished game, "the server won".

use vstd::prelude::*;

verus! {

/// How many of the outcomes are server wins.
pub open spec fn wins_in(outcomes: Seq<bool>) -> nat
    decreases outcomes.len(),
{
    if outcomes.len() == 0 {
        0
    } else {
        wins_in(outcomes.drop_last()) + if outcomes.last() { 1nat } else { 0nat }
    }
}

/// A count of server wins can never exceed the number of games counted.
pub proof fn lemma_wins_bounded(outcomes: Seq<bool>)
    ensures
        wins_in(outcomes) <= outcomes.len(),
    decreases outcomes.len(),
{
    if outcomes.len() > 0 {
        lemma_wins_bounded(outcomes.drop_last());
    }
}

/// Receives the outcomes of a known number of games.
pub struct Tally {
    expected: u64,
    received: u64,
    server_wins: u64,
    outcomes: Ghost<Seq<bool>>,
}

impl View for Tally {
    type V = Seq<bool>;

    /// The outcomes received so far, in order of arrival.
    closed spec fn view(&self) -> Seq<bool> {
        self.outcomes@
    }
}

impl Tally {
    /// The number of games whose outcome is awaited.
    pub closed spec fn expected_count(&self) -> nat {
        self.expected as nat
    }

    pub closed spec fn wf(&self) -> bool {
        &&& self.received as nat == self.outcomes@.len()
        &&& self.received <= self.expected
        &&& self.server_wins as nat == wins_in(self.outcomes@)
    }

    pub fn new(expected: u64) -> (r: Tally)
        ensures
            r.wf(),
            r@ == Seq::<bool>::empty(),
            r.expected_count() == expected,
    {
        Tally { expected, received: 0, server_wins: 0, outcomes: Ghost(Seq::empty()) }
    }

    /// Records one game's outcome; once all expected outcomes are in, further
    /// ones are refused and `false` is returned.
    pub fn record(&mut self, server_won: bool) -> (r: bool)
        requires
            old(self).wf(),
        ensures
            final(self).wf(),
            final(self).expected_count() == old(self).expected_count(),
            r == (old(self)@.len() < old(self).expected_count()),
            r ==> final(self)@ == old(self)@.push(server_won),
            !r ==> final(self)@ == old(self)@,
    {
        if self.received == self.expected {
            return false;
        }
        proof {
            lemma_wins_bounded(self.outcomes@);
            assert(self.outcomes@.push(server_won).drop_last() =~= self.outcomes@);
        }
        self.received = self.received + 1;
        if server_won {
            self.server_wins = self.server_wins + 1;
        }
        self.outcomes = Ghost(self.outcomes@.push(server_won));
        true
    }

    /// Whether every expected outcome has arrived.
    pub fn is_complete(&self) -> (r: bool)
        requires
            self.wf(),
        ensures
            r == (self@.len() == self.expected_count()),
    {
        self.received == self.expected
    }

    /// How many outcomes have arrived.
    pub fn received(&self) -> (r: u64)
        requires
            self.wf(),
        ensures
            r == self@.len(),
    {
        self.received
    }

    /// How many of the arrived outcomes are server wins.
    pub fn server_wins(&self) -> (r: u64)
        requires
            self.wf(),
        ensures
            r == wins_in(self@),
            r <= self@.len(),
    {
        proof {
            lemma_wins_bounded(self.outcomes@);
        }
        self.server_wins
    }
}

} // verus!
