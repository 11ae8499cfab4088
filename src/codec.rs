//! The line protocol: one token per newline-terminated ASCII line.

use vstd::prelude::*;

verus! {

/// A token of the wire protocol.
#[derive(Clone, Copy, Debug, PartialEq, Eq, Structural)]
pub enum Message {
    /// A serve (`Ping`).
    Ping,
    /// A return (`Pong`).
    Pong,
    /// A fault that ends the rally (`Miss`).
    Miss,
    /// A point was scored and the game goes on.
    ServeAgain,
    /// The game has a winner.
    GameOver,
}

/// The bytes of a token on the wire, without the line terminator: the ASCII
/// words `Ping`, `Pong`, `Miss`, `ServeAgain` and `GameOver`.
pub open spec fn wire_word(m: Message) -> Seq<u8> {
    match m {
        Message::Ping => seq![80u8, 105, 110, 103],
        Message::Pong => seq![80u8, 111, 110, 103],
        Message::Miss => seq![77u8, 105, 115, 115],
        Message::ServeAgain => seq![83u8, 101, 114, 118, 101, 65, 103, 97, 105, 110],
        Message::GameOver => seq![71u8, 97, 109, 101, 79, 118, 101, 114],
    }
}

/// An encoded line: the token's word followed by a newline (10).
pub open spec fn wire_line(m: Message) -> Seq<u8> {
    wire_word(m).push(10)
}

/// ASCII whitespace: space (32), and tab, line feed, vertical tab, form feed
/// and carriage return (9 to 13).
pub open spec fn is_space(b: u8) -> bool {
    b == 32 || (9 <= b && b <= 13)
}

/// The sequence without its leading whitespace.
pub open spec fn trim_start(s: Seq<u8>) -> Seq<u8>
    decreases s.len(),
{
    if s.len() > 0 && is_space(s[0]) {
        trim_start(s.drop_first())
    } else {
        s
    }
}

/// The sequence without its trailing whitespace.
pub open spec fn trim_end(s: Seq<u8>) -> Seq<u8>
    decreases s.len(),
{
    if s.len() > 0 && is_space(s.last()) {
        trim_end(s.drop_last())
    } else {
        s
    }
}

/// The sequence without whitespace at either end.
pub open spec fn trimmed(s: Seq<u8>) -> Seq<u8> {
    trim_end(trim_start(s))
}

/// The token whose word is exactly `w`, if any.
pub open spec fn word_token(w: Seq<u8>) -> Option<Message> {
    if w == wire_word(Message::Ping) {
        Some(Message::Ping)
    } else if w == wire_word(Message::Pong) {
        Some(Message::Pong)
    } else if w == wire_word(Message::Miss) {
        Some(Message::Miss)
    } else if w == wire_word(Message::ServeAgain) {
        Some(Message::ServeAgain)
    } else if w == wire_word(Message::GameOver) {
        Some(Message::GameOver)
    } else {
        None
    }
}

/// The token that a received line carries, if any.
pub open spec fn line_token(line: Seq<u8>) -> Option<Message> {
    word_token(trimmed(line))
}

fn space(b: u8) -> (r: bool)
    ensures
        r == is_space(b),
{
    b == 32 || (9 <= b && b <= 13)
}

/// The word of a token, as bytes.
pub fn word(m: Message) -> (r: Vec<u8>)
    ensures
        r@ == wire_word(m),
{
    let r = match m {
        Message::Ping => vec![80u8, 105, 110, 103],
        Message::Pong => vec![80u8, 111, 110, 103],
        Message::Miss => vec![77u8, 105, 115, 115],
        Message::ServeAgain => vec![83u8, 101, 114, 118, 101, 65, 103, 97, 105, 110],
        Message::GameOver => vec![71u8, 97, 109, 101, 79, 118, 101, 114],
    };
    assert(r@ =~= wire_word(m));
    r
}

/// Encodes a token as one line.
pub fn encode(m: Message) -> (r: Vec<u8>)
    ensures
        r@ == wire_line(m),
{
    let mut r = word(m);
    r.push(10);
    r
}

/// The bounds of `line` without whitespace at either end.
pub fn trim_bounds(line: &[u8]) -> (r: (usize, usize))
    ensures
        r.0 <= r.1 <= line@.len(),
        line@.subrange(r.0 as int, r.1 as int) == trimmed(line@),
{
    let n = line.len();
    let mut lo: usize = 0;
    assert(line@.subrange(0, n as int) =~= line@);
    while lo < n && space(line[lo])
        invariant
            n == line@.len(),
            lo <= n,
            trim_start(line@) == trim_start(line@.subrange(lo as int, n as int)),
        decreases n - lo,
    {
        assert(line@.subrange(lo as int, n as int).drop_first() =~= line@.subrange(
            lo + 1,
            n as int,
        ));
        lo = lo + 1;
    }
    let ghost t = line@.subrange(lo as int, n as int);
    assert(trim_start(line@) == t) by {
        assert(t.len() > 0 ==> t[0] == line@[lo as int]);
    }
    let mut hi: usize = n;
    while hi > lo && space(line[hi - 1])
        invariant
            n == line@.len(),
            lo <= hi <= n,
            t == line@.subrange(lo as int, n as int),
            trim_end(t) == trim_end(line@.subrange(lo as int, hi as int)),
        decreases hi,
    {
        assert(line@.subrange(lo as int, hi as int).drop_last() =~= line@.subrange(
            lo as int,
            hi - 1,
        ));
        hi = hi - 1;
    }
    let ghost u = line@.subrange(lo as int, hi as int);
    assert(trim_end(u) == u) by {
        assert(u.len() > 0 ==> u.last() == line@[hi - 1]);
    }
    (lo, hi)
}

/// Whether `line[lo..hi]` is exactly `w`.
fn same_bytes(line: &[u8], lo: usize, hi: usize, w: &Vec<u8>) -> (r: bool)
    requires
        lo <= hi <= line@.len(),
    ensures
        r == (line@.subrange(lo as int, hi as int) == w@),
{
    if hi - lo != w.len() {
        return false;
    }
    let mut i: usize = 0;
    while i < w.len()
        invariant
            lo <= hi <= line@.len(),
            hi - lo == w@.len(),
            i <= w@.len(),
            forall|k: int| 0 <= k < i ==> line@[lo + k] == w@[k],
        decreases w@.len() - i,
    {
        if line[lo + i] != w[i] {
            assert(line@.subrange(lo as int, hi as int)[i as int] != w@[i as int]);
            return false;
        }
        i = i + 1;
    }
    assert(line@.subrange(lo as int, hi as int) =~= w@);
    true
}

/// Decodes a received line: surrounding whitespace is trimmed and the rest must
/// be exactly one token's word (case-sensitive).
pub fn decode(line: &[u8]) -> (r: Option<Message>)
    ensures
        r == line_token(line@),
{
    let (lo, hi) = trim_bounds(line);
    if same_bytes(line, lo, hi, &word(Message::Ping)) {
        Some(Message::Ping)
    } else if same_bytes(line, lo, hi, &word(Message::Pong)) {
        Some(Message::Pong)
    } else if same_bytes(line, lo, hi, &word(Message::Miss)) {
        Some(Message::Miss)
    } else if same_bytes(line, lo, hi, &word(Message::ServeAgain)) {
        Some(Message::ServeAgain)
    } else if same_bytes(line, lo, hi, &word(Message::GameOver)) {
        Some(Message::GameOver)
    } else {
        None
    }
}

} // verus!
