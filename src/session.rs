//! The server's side of one game: a state machine from received lines to
//! replies, scores and the game's outcome.

use vstd::prelude::*;
use crate::codec::{decode, line_token, Message};

verus! {

/// The winning score used unless configured otherwise.
pub const DEFAULT_SCORE_TO_WIN: u8 = 10;

/// The pause after each point, in milliseconds, used unless configured otherwise.
pub const DEFAULT_PAUSE_MILLIS: u64 = 500;

/// What a received line means to the server.
#[derive(Clone, Copy, Debug, PartialEq, Eq, Structural)]
pub enum Input {
    /// The opponent served (`Ping`).
    Serve,
    /// The opponent returned (`Pong`).
    Return,
    /// Anything else: the rally ends and a point is scored.
    Fault,
}

/// How a line is read: `Ping` serves, `Pong` returns, any other line is a fault.
pub open spec fn input_of(line: Seq<u8>) -> Input {
    match line_token(line) {
        Some(Message::Ping) => Input::Serve,
        Some(Message::Pong) => Input::Return,
        _ => Input::Fault,
    }
}

/// Reads a received line.
pub fn classify(line: &[u8]) -> (r: Input)
    ensures
        r == input_of(line@),
{
    match decode(line) {
        Some(Message::Ping) => Input::Serve,
        Some(Message::Pong) => Input::Return,
        _ => Input::Fault,
    }
}

/// The score record of one connection.
#[derive(Clone, Copy, Debug, PartialEq, Eq, Structural)]
pub struct GameState {
    /// The number given to the opponent when its connection was accepted.
    pub opponent_label: u64,
    /// Points of the opponent.
    pub opponent_score: u8,
    /// Points of the server.
    pub server_score: u8,
    /// Whether the opponent's last serve-or-return was a serve.
    pub last_sender_of_serve: bool,
}

/// Where a session stands.
#[derive(Clone, Copy, Debug, PartialEq, Eq, Structural)]
pub enum Phase {
    /// Waiting for the next line.
    AwaitingMessage,
    /// The game has a winner; nothing more is handled.
    Terminated,
}

/// What the session asks of its connection after one line.
#[derive(Clone, Copy, Debug, PartialEq, Eq, Structural)]
pub struct Reaction {
    /// Whether to wait the configured pause first (after a point).
    pub pause: bool,
    /// The line to send, if any.
    pub reply: Option<Message>,
    /// The game's outcome, "the server won", to report once.
    pub outcome: Option<bool>,
}

/// The reaction of a session that has ended: nothing at all.
pub open spec fn silent() -> Reaction {
    Reaction { pause: false, reply: None, outcome: None }
}

/// The reply to a serve or a return: the other of the two.
pub open spec fn counterpart(i: Input) -> Message {
    match i {
        Input::Serve => Message::Pong,
        _ => Message::Ping,
    }
}

/// One game, bound to one connection.
#[derive(Clone, Copy, Debug, PartialEq, Eq, Structural)]
pub struct Session {
    pub state: GameState,
    /// The score that ends the game.
    pub score_to_win: u8,
    pub phase: Phase,
}

impl Session {
    /// Scores stay within the winning score, and the game has ended exactly when
    /// one of them has reached it.
    pub open spec fn wf(self) -> bool {
        &&& self.score_to_win >= 1
        &&& self.state.opponent_score <= self.score_to_win
        &&& self.state.server_score <= self.score_to_win
        &&& (self.phase == Phase::Terminated) == (self.state.opponent_score == self.score_to_win
            || self.state.server_score == self.score_to_win)
    }

    /// Whether the game has ended.
    pub open spec fn is_over(self) -> bool {
        self.phase == Phase::Terminated
    }

    /// The session after one input, and what it asks of the connection.
    pub open spec fn next(self, i: Input) -> (Session, Reaction) {
        if self.is_over() {
            (self, silent())
        } else {
            match i {
                Input::Serve => (
                    Session { state: GameState { last_sender_of_serve: true, ..self.state }, ..self },
                    Reaction { pause: false, reply: Some(Message::Pong), outcome: None },
                ),
                Input::Return => (
                    Session { state: GameState { last_sender_of_serve: false, ..self.state }, ..self },
                    Reaction { pause: false, reply: Some(Message::Ping), outcome: None },
                ),
                Input::Fault => {
                    let st = if self.state.last_sender_of_serve {
                        GameState { opponent_score: (self.state.opponent_score + 1) as u8, ..self.state }
                    } else {
                        GameState { server_score: (self.state.server_score + 1) as u8, ..self.state }
                    };
                    if st.opponent_score == self.score_to_win || st.server_score == self.score_to_win {
                        (
                            Session { state: st, phase: Phase::Terminated, ..self },
                            Reaction {
                                pause: true,
                                reply: Some(Message::GameOver),
                                outcome: Some(st.server_score == self.score_to_win),
                            },
                        )
                    } else {
                        (
                            Session { state: st, ..self },
                            Reaction { pause: true, reply: Some(Message::ServeAgain), outcome: None },
                        )
                    }
                },
            }
        }
    }

    /// A fresh game: no points, no serve seen yet.
    pub open spec fn initial(opponent_label: u64, score_to_win: u8) -> Session {
        Session {
            state: GameState {
                opponent_label,
                opponent_score: 0,
                server_score: 0,
                last_sender_of_serve: false,
            },
            score_to_win,
            phase: Phase::AwaitingMessage,
        }
    }

    /// Starts a game.
    pub fn new(opponent_label: u64, score_to_win: u8) -> (r: Session)
        requires
            score_to_win >= 1,
        ensures
            r.wf(),
            r == Session::initial(opponent_label, score_to_win),
    {
        Session {
            state: GameState {
                opponent_label,
                opponent_score: 0,
                server_score: 0,
                last_sender_of_serve: false,
            },
            score_to_win,
            phase: Phase::AwaitingMessage,
        }
    }

    /// Whether the game has ended.
    pub fn is_terminated(&self) -> (r: bool)
        ensures
            r == self.is_over(),
    {
        match self.phase {
            Phase::Terminated => true,
            Phase::AwaitingMessage => false,
        }
    }

    /// Applies one input.
    pub fn step(&mut self, i: Input) -> (r: Reaction)
        requires
            old(self).wf(),
        ensures
            final(self).wf(),
            (*final(self), r) == old(self).next(i),
    {
        if self.is_terminated() {
            return Reaction { pause: false, reply: None, outcome: None };
        }
        match i {
            Input::Serve => {
                self.state.last_sender_of_serve = true;
                Reaction { pause: false, reply: Some(Message::Pong), outcome: None }
            },
            Input::Return => {
                self.state.last_sender_of_serve = false;
                Reaction { pause: false, reply: Some(Message::Ping), outcome: None }
            },
            Input::Fault => {
                if self.state.last_sender_of_serve {
                    self.state.opponent_score = self.state.opponent_score + 1;
                } else {
                    self.state.server_score = self.state.server_score + 1;
                }
                if self.state.opponent_score == self.score_to_win || self.state.server_score
                    == self.score_to_win {
                    self.phase = Phase::Terminated;
                    Reaction {
                        pause: true,
                        reply: Some(Message::GameOver),
                        outcome: Some(self.state.server_score == self.score_to_win),
                    }
                } else {
                    Reaction { pause: true, reply: Some(Message::ServeAgain), outcome: None }
                }
            },
        }
    }

    /// Handles one received line.
    pub fn handle_line(&mut self, line: &[u8]) -> (r: Reaction)
        requires
            old(self).wf(),
        ensures
            final(self).wf(),
            (*final(self), r) == old(self).next(input_of(line@)),
    {
        let i = classify(line);
        self.step(i)
    }
}

/// The session after a sequence of inputs, and the reactions to them in order.
pub open spec fn run(s: Session, inputs: Seq<Input>) -> (Session, Seq<Reaction>)
    decreases inputs.len(),
{
    if inputs.len() == 0 {
        (s, Seq::empty())
    } else {
        let first = s.next(inputs[0]);
        let rest = run(first.0, inputs.drop_first());
        (rest.0, seq![first.1] + rest.1)
    }
}

/// How many reactions report an outcome.
pub open spec fn outcomes_sent(rs: Seq<Reaction>) -> nat
    decreases rs.len(),
{
    if rs.len() == 0 {
        0
    } else {
        (if rs[0].outcome is Some { 1nat } else { 0nat }) + outcomes_sent(rs.drop_first())
    }
}

/// How many reactions send `GameOver`.
pub open spec fn game_overs_sent(rs: Seq<Reaction>) -> nat
    decreases rs.len(),
{
    if rs.len() == 0 {
        0
    } else {
        (if rs[0].reply == Some(Message::GameOver) { 1nat } else { 0nat }) + game_overs_sent(
            rs.drop_first(),
        )
    }
}

/// One input keeps a well-formed session well-formed.
pub proof fn lemma_next_wf(s: Session, i: Input)
    requires
        s.wf(),
    ensures
        s.next(i).0.wf(),
{
}

/// Scores never pass the winning score: a well-formed session stays
/// well-formed whatever it receives.
pub proof fn lemma_run_wf(s: Session, inputs: Seq<Input>)
    requires
        s.wf(),
    ensures
        run(s, inputs).0.wf(),
    decreases inputs.len(),
{
    if inputs.len() > 0 {
        lemma_run_wf(s.next(inputs[0]).0, inputs.drop_first());
    }
}

/// The game ends in the very step in which a score first reaches the winning
/// score, and that step replies `GameOver`; in any other step it goes on.
pub proof fn lemma_ends_when_score_reached(s: Session, i: Input)
    requires
        s.wf(),
        !s.is_over(),
    ensures
        s.state.opponent_score < s.score_to_win,
        s.state.server_score < s.score_to_win,
        s.next(i).0.is_over() == (s.next(i).0.state.opponent_score == s.score_to_win
            || s.next(i).0.state.server_score == s.score_to_win),
        s.next(i).0.is_over() == (s.next(i).1.reply == Some(Message::GameOver)),
{
}

/// A fault credits exactly one point: to the opponent when its last
/// serve-or-return was a serve, else to the server.
pub proof fn lemma_fault_scoring(s: Session)
    requires
        s.wf(),
        !s.is_over(),
    ensures
        s.state.last_sender_of_serve ==> s.next(Input::Fault).0.state.opponent_score
            == s.state.opponent_score + 1 && s.next(Input::Fault).0.state.server_score
            == s.state.server_score,
        !s.state.last_sender_of_serve ==> s.next(Input::Fault).0.state.server_score
            == s.state.server_score + 1 && s.next(Input::Fault).0.state.opponent_score
            == s.state.opponent_score,
{
}

/// An ended session ignores whatever it still receives: no score changes, no
/// reply, no second outcome.
pub proof fn lemma_terminated_is_inert(s: Session, inputs: Seq<Input>)
    requires
        s.is_over(),
    ensures
        run(s, inputs).0 == s,
        run(s, inputs).1.len() == inputs.len(),
        forall|k: int| 0 <= k < inputs.len() ==> run(s, inputs).1[k] == silent(),
    decreases inputs.len(),
{
    if inputs.len() > 0 {
        lemma_terminated_is_inert(s, inputs.drop_first());
        let rs = run(s, inputs).1;
        let tail = run(s, inputs.drop_first()).1;
        assert forall|k: int| 0 <= k < inputs.len() implies rs[k] == silent() by {
            if k > 0 {
                assert(rs[k] == tail[k - 1]);
            }
        }
    }
}

proof fn lemma_silent_counts(rs: Seq<Reaction>)
    requires
        forall|k: int| 0 <= k < rs.len() ==> rs[k] == silent(),
    ensures
        outcomes_sent(rs) == 0,
        game_overs_sent(rs) == 0,
    decreases rs.len(),
{
    if rs.len() > 0 {
        lemma_silent_counts(rs.drop_first());
    }
}

/// A session sends `GameOver` at most once and reports at most one outcome,
/// both in the same step; once ended it sends neither.
pub proof fn lemma_single_outcome(s: Session, inputs: Seq<Input>)
    requires
        s.wf(),
    ensures
        outcomes_sent(run(s, inputs).1) <= 1,
        game_overs_sent(run(s, inputs).1) == outcomes_sent(run(s, inputs).1),
        s.is_over() ==> outcomes_sent(run(s, inputs).1) == 0,
    decreases inputs.len(),
{
    if s.is_over() {
        lemma_terminated_is_inert(s, inputs);
        lemma_silent_counts(run(s, inputs).1);
    } else if inputs.len() > 0 {
        let first = s.next(inputs[0]);
        let rest = inputs.drop_first();
        lemma_single_outcome(first.0, rest);
        let rs = run(s, inputs).1;
        assert(rs.drop_first() =~= run(first.0, rest).1);
        assert(rs[0] == first.1);
    }
}

/// Every serve is answered with a return and every return with a serve, so
/// while no fault comes the replies alternate exactly as the inputs do.
pub proof fn lemma_replies_mirror(s: Session, inputs: Seq<Input>)
    requires
        s.wf(),
        !s.is_over(),
        forall|k: int| 0 <= k < inputs.len() ==> inputs[k] != Input::Fault,
    ensures
        !run(s, inputs).0.is_over(),
        run(s, inputs).1.len() == inputs.len(),
        forall|k: int|
            0 <= k < inputs.len() ==> run(s, inputs).1[k].reply == Some(counterpart(inputs[k])),
        forall|k: int|
            0 <= k < inputs.len() - 1 && #[trigger] inputs[k] != inputs[k + 1] ==> run(
                s,
                inputs,
            ).1[k].reply != run(s, inputs).1[k + 1].reply,
    decreases inputs.len(),
{
    if inputs.len() > 0 {
        let first = s.next(inputs[0]);
        let rest = inputs.drop_first();
        lemma_replies_mirror(first.0, rest);
        let rs = run(s, inputs).1;
        let tail = run(first.0, rest).1;
        assert forall|k: int|
            0 <= k < inputs.len() implies rs[k].reply == Some(counterpart(inputs[k])) by {
            if k > 0 {
                assert(rs[k] == tail[k - 1]);
                assert(inputs[k] == rest[k - 1]);
            }
        }
        assert forall|k: int|
            0 <= k < inputs.len() - 1 && #[trigger] inputs[k] != inputs[k + 1] implies rs[k].reply
            != rs[k + 1].reply by {
            assert(inputs[k] == Input::Serve || inputs[k] == Input::Return);
            assert(inputs[k + 1] == Input::Serve || inputs[k + 1] == Input::Return);
        }
    }
}

} // verus!
