//! Ping-pong games between one server and many clients: the line codec, the
//! per-connection game session, the label counter of the acceptor, the tally
//! of outcomes and the client's choice of token.

pub mod codec;
pub mod session;
pub mod acceptor;
pub mod tally;
pub mod client;
