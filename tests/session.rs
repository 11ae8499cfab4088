use ping_pong::codec::Message;
use ping_pong::session::{classify, Input, Phase, Reaction, Session, DEFAULT_SCORE_TO_WIN};

fn silent() -> Reaction {
    Reaction { pause: false, reply: None, outcome: None }
}

#[test]
fn classify_reads_serve_return_and_everything_else_as_fault() {
    assert_eq!(classify(b"Ping\n"), Input::Serve);
    assert_eq!(classify(b" Pong\r\n"), Input::Return);
    assert_eq!(classify(b"Miss\n"), Input::Fault);
    assert_eq!(classify(b"GameOver\n"), Input::Fault);
    assert_eq!(classify(b"hello\n"), Input::Fault);
    assert_eq!(classify(b""), Input::Fault);
}

#[test]
fn new_session_is_empty() {
    let s = Session::new(7, DEFAULT_SCORE_TO_WIN);
    assert_eq!(s.state.opponent_label, 7);
    assert_eq!(s.state.opponent_score, 0);
    assert_eq!(s.state.server_score, 0);
    assert!(!s.state.last_sender_of_serve);
    assert_eq!(s.score_to_win, 10);
    assert_eq!(s.phase, Phase::AwaitingMessage);
    assert!(!s.is_terminated());
}

#[test]
fn first_ping_is_answered_with_pong() {
    let mut s = Session::new(1, 10);
    let r = s.handle_line(b"Ping\n");
    assert_eq!(r, Reaction { pause: false, reply: Some(Message::Pong), outcome: None });
    assert!(s.state.last_sender_of_serve);
}

#[test]
fn single_point_game_won_by_server() {
    let mut s = Session::new(1, 1);
    let r = s.handle_line(b"Miss\n");
    assert_eq!(r, Reaction { pause: true, reply: Some(Message::GameOver), outcome: Some(true) });
    assert_eq!(s.state.server_score, 1);
    assert_eq!(s.state.opponent_score, 0);
    assert!(s.is_terminated());
}

#[test]
fn replies_alternate_with_serves_and_returns() {
    let mut s = Session::new(1, 10);
    let lines: [&[u8]; 5] = [b"Ping\n", b"Pong\n", b"Ping\n", b"Pong\n", b"Pong\n"];
    let expected = [Message::Pong, Message::Ping, Message::Pong, Message::Ping, Message::Ping];
    for (line, want) in lines.iter().zip(expected.iter()) {
        let r = s.handle_line(line);
        assert_eq!(r.reply, Some(*want));
        assert!(!r.pause);
        assert_eq!(r.outcome, None);
    }
    assert_eq!(s.state.opponent_score, 0);
    assert_eq!(s.state.server_score, 0);
    assert!(!s.state.last_sender_of_serve);
}

#[test]
fn fault_after_serve_credits_opponent() {
    let mut s = Session::new(1, 10);
    s.handle_line(b"Ping\n");
    let r = s.handle_line(b"Miss\n");
    assert_eq!(r, Reaction { pause: true, reply: Some(Message::ServeAgain), outcome: None });
    assert_eq!(s.state.opponent_score, 1);
    assert_eq!(s.state.server_score, 0);
}

#[test]
fn fault_after_return_credits_server() {
    let mut s = Session::new(1, 10);
    s.handle_line(b"Ping\n");
    s.handle_line(b"Pong\n");
    let r = s.handle_line(b"garbage\n");
    assert_eq!(r.reply, Some(Message::ServeAgain));
    assert_eq!(s.state.opponent_score, 0);
    assert_eq!(s.state.server_score, 1);
}

#[test]
fn game_ends_exactly_when_score_reaches_target() {
    let mut s = Session::new(1, 10);
    s.handle_line(b"Ping\n");
    for k in 1..10u8 {
        let r = s.handle_line(b"Miss\n");
        assert_eq!(r.reply, Some(Message::ServeAgain));
        assert_eq!(s.state.opponent_score, k);
        assert!(!s.is_terminated());
    }
    let r = s.handle_line(b"Miss\n");
    assert_eq!(r, Reaction { pause: true, reply: Some(Message::GameOver), outcome: Some(false) });
    assert_eq!(s.state.opponent_score, 10);
    assert!(s.is_terminated());
}

#[test]
fn terminated_session_ignores_further_lines() {
    let mut s = Session::new(3, 1);
    s.handle_line(b"Miss\n");
    let before = s;
    for line in [&b"Miss\n"[..], b"Ping\n", b"Pong\n", b"GameOver\n"] {
        assert_eq!(s.handle_line(line), silent());
        assert_eq!(s, before);
    }
}

#[test]
fn at_most_one_game_over_per_session() {
    let mut s = Session::new(1, 2);
    let lines: [&[u8]; 8] =
        [b"Miss\n", b"Ping\n", b"Miss\n", b"Miss\n", b"Miss\n", b"Ping\n", b"Miss\n", b"Miss\n"];
    let mut game_overs = 0;
    let mut outcomes = 0;
    for line in lines.iter() {
        let r = s.handle_line(line);
        if r.reply == Some(Message::GameOver) {
            game_overs += 1;
        }
        if r.outcome.is_some() {
            outcomes += 1;
        }
    }
    assert_eq!(game_overs, 1);
    assert_eq!(outcomes, 1);
    assert_eq!(s.state.server_score, 1);
    assert_eq!(s.state.opponent_score, 2);
}

#[test]
fn step_takes_classified_inputs() {
    let mut s = Session::new(1, 10);
    assert_eq!(s.step(Input::Serve).reply, Some(Message::Pong));
    assert_eq!(s.step(Input::Return).reply, Some(Message::Ping));
    assert_eq!(s.step(Input::Fault).reply, Some(Message::ServeAgain));
    assert_eq!(s.state.server_score, 1);
}
