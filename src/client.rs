//! The simulated client's choice of token: a fault with a configured chance,
//! otherwise a serve or a return with equal chances.

use vstd::prelude::*;
use rand::Rng;
use crate::codec::{decode, line_token, Message};

verus! {

/// Chances are counted in millionths.
pub const ROLL_SCALE: u32 = 1000000;

/// The token sent for a roll in `0..ROLL_SCALE`: rolls below the fault chance
/// give `Miss`, the lower half of the rest `Pong`, the upper half `Ping`.
pub open spec fn choice(miss_per_million: u32, roll: u32) -> Message {
    if roll < miss_per_million {
        Message::Miss
    } else if roll < miss_per_million + (ROLL_SCALE - miss_per_million) / 2 {
        Message::Pong
    } else {
        Message::Ping
    }
}

/// The tokens that a client sends.
pub open spec fn is_client_token(m: Message) -> bool {
    m == Message::Ping || m == Message::Pong || m == Message::Miss
}

/// Relies on rand's `Rng::gen_range` on the thread-local generator: a value in
/// `0..bound`, which must not be empty.
#[verifier::external_body]
fn random_below(bound: u32) -> (r: u32)
    requires
        bound > 0,
    ensures
        r < bound,
{
    rand::thread_rng().gen_range(0..bound)
}

/// A client's policy: the chance of a fault, in millionths.
#[derive(Clone, Copy, Debug, PartialEq, Eq, Structural)]
pub struct ClientPolicy {
    pub miss_per_million: u32,
}

impl ClientPolicy {
    pub open spec fn wf(self) -> bool {
        self.miss_per_million <= ROLL_SCALE
    }

    /// A policy with the given fault chance in millionths; `None` above one
    /// million.
    pub fn new(miss_per_million: u32) -> (r: Option<ClientPolicy>)
        ensures
            miss_per_million <= ROLL_SCALE ==> r == Some(ClientPolicy { miss_per_million }),
            miss_per_million > ROLL_SCALE ==> r is None,
    {
        if miss_per_million <= ROLL_SCALE {
            Some(ClientPolicy { miss_per_million })
        } else {
            None
        }
    }

    /// The token sent for a given roll.
    pub fn pick(&self, roll: u32) -> (r: Message)
        requires
            self.wf(),
        ensures
            r == choice(self.miss_per_million, roll),
    {
        if roll < self.miss_per_million {
            Message::Miss
        } else if roll < self.miss_per_million + (ROLL_SCALE - self.miss_per_million) / 2 {
            Message::Pong
        } else {
            Message::Ping
        }
    }

    /// Draws the next token to send.
    pub fn next_message(&self) -> (r: Message)
        requires
            self.wf(),
        ensures
            is_client_token(r),
            exists|roll: u32| roll < ROLL_SCALE && r == choice(self.miss_per_million, roll),
    {
        let roll = random_below(ROLL_SCALE);
        self.pick(roll)
    }

    /// The client's answer to a line from the server: nothing once the game is
    /// over, else a freshly drawn token.
    pub fn respond(&self, line: &[u8]) -> (r: Option<Message>)
        requires
            self.wf(),
        ensures
            r is None <==> line_token(line@) == Some(Message::GameOver),
            r matches Some(m) ==> is_client_token(m) && exists|roll: u32|
                roll < ROLL_SCALE && m == choice(self.miss_per_million, roll),
    {
        match decode(line) {
            Some(Message::GameOver) => None,
            _ => Some(self.next_message()),
        }
    }
}

} // verus!
