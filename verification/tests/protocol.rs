use sk_xo::game::Mark;
use sk_xo::lobby::Lobby;
use sk_xo::parse::{parse_pos, ParseError};
use sk_xo::session::Session;

fn paired() -> (Session, Vec<u8>, Vec<u8>) {
    let a = b"peer_a".to_vec();
    let b = b"peer_b".to_vec();
    let mut lobby = Lobby::new();
    assert!(lobby.offer(a.clone()).is_none());
    let session = lobby.offer(b.clone()).expect("two distinct addresses pair");
    (session, a, b)
}

#[test]
fn parse_accepts_digits_with_optional_newline() {
    assert_eq!(parse_pos(&b"5".to_vec()), Ok(5));
    assert_eq!(parse_pos(&b"5\n".to_vec()), Ok(5));
    assert_eq!(parse_pos(&b"010".to_vec()), Ok(10));
    assert_eq!(parse_pos(&b"255\n".to_vec()), Ok(255));
    assert_eq!(parse_pos(&b"0".to_vec()), Ok(0));
}

#[test]
fn parse_rejects_malformed_payloads() {
    assert_eq!(parse_pos(&b"".to_vec()), Err(ParseError::Empty));
    assert_eq!(parse_pos(&b"\n".to_vec()), Err(ParseError::Empty));
    assert_eq!(parse_pos(&b"4 ".to_vec()), Err(ParseError::InvalidDigit));
    assert_eq!(parse_pos(&b"-1".to_vec()), Err(ParseError::InvalidDigit));
    assert_eq!(parse_pos(&b"abc\n".to_vec()), Err(ParseError::InvalidDigit));
    assert_eq!(parse_pos(&b"5\r\n".to_vec()), Err(ParseError::InvalidDigit));
    assert_eq!(parse_pos(&b"\xff\xfe".to_vec()), Err(ParseError::InvalidDigit));
    assert_eq!(parse_pos(&b"256".to_vec()), Err(ParseError::TooLarge));
    assert_eq!(parse_pos(&b"99999999999999999999\n".to_vec()), Err(ParseError::TooLarge));
}

#[test]
fn parse_error_messages_describe_the_failure() {
    assert_eq!(ParseError::Empty.message(), "cannot parse integer from empty string");
    assert_eq!(ParseError::InvalidDigit.message(), "invalid digit found in string");
    assert_eq!(ParseError::TooLarge.message(), "number too large to fit in target type");
}

#[test]
fn lobby_pairs_first_two_distinct_addresses() {
    let a = b"peer_a".to_vec();
    let b = b"peer_b".to_vec();
    let mut lobby = Lobby::new();
    assert!(lobby.offer(a.clone()).is_none());
    assert!(lobby.offer(a.clone()).is_none());
    assert!(lobby.offer(a.clone()).is_none());
    let session = lobby.offer(b.clone()).expect("a distinct address completes the pair");
    assert_eq!(session.player_addr(Mark::X), &a);
    assert_eq!(session.player_addr(Mark::O), &b);
}

#[test]
fn match_start_replies_greet_both_peers() {
    let (session, _a, _b) = paired();
    let start = session.start_replies();
    assert_eq!(start.len(), 3);
    assert_eq!(start[0].to, Mark::X);
    assert_eq!(start[0].text, "1 2 3\n4 5 6\n7 8 9\n");
    assert_eq!(start[1].to, Mark::X);
    assert_eq!(start[1].text, "> ");
    assert_eq!(start[2].to, Mark::O);
    assert_eq!(start[2].text, "The other player has joined.\n");
}

#[test]
fn unexpected_sender_is_dropped_without_reply() {
    let (mut session, a, _b) = paired();
    let stranger = b"peer_c".to_vec();
    let replies = session.handle_datagram(&stranger, &b"5\n".to_vec());
    assert!(replies.is_empty());
    let replies = session.handle_datagram(&a, &b"5\n".to_vec());
    assert_eq!(replies.len(), 2);
    assert_eq!(replies[0].text, "1 2 3\n4 X 6\n7 8 9\n");
}

#[test]
fn out_of_turn_request_draws_only_the_notice() {
    let (mut session, _a, b) = paired();
    let replies = session.handle_datagram(&b, &b"1\n".to_vec());
    assert_eq!(replies.len(), 1);
    assert_eq!(replies[0].to, Mark::O);
    assert_eq!(replies[0].text, "It's not your turn.\n");
}

#[test]
fn rejected_moves_draw_error_and_prompt_to_sender_only() {
    let (mut session, a, b) = paired();
    let replies = session.handle_datagram(&a, &b"12\n".to_vec());
    assert_eq!(replies.len(), 1);
    assert_eq!(replies[0].to, Mark::X);
    assert_eq!(replies[0].text, "Index was too big. Pick a number from 1 through 9.\n> ");
    let replies = session.handle_datagram(&a, &b"5\n".to_vec());
    assert_eq!(replies.len(), 2);
    let replies = session.handle_datagram(&b, &b"5\n".to_vec());
    assert_eq!(replies.len(), 1);
    assert_eq!(replies[0].to, Mark::O);
    assert_eq!(replies[0].text, "X had already moved there.\n> ");
}

#[test]
fn same_invalid_payload_twice_draws_the_same_reply_twice() {
    let (mut session, a, _b) = paired();
    let first = session.handle_datagram(&a, &b"abc\n".to_vec());
    let second = session.handle_datagram(&a, &b"abc\n".to_vec());
    assert_eq!(first.len(), 1);
    assert_eq!(first[0].to, Mark::X);
    assert_eq!(first[0].text, "invalid digit found in string\n> ");
    assert_eq!(second.len(), 1);
    assert_eq!(second[0].to, first[0].to);
    assert_eq!(second[0].text, first[0].text);
    let after = session.handle_datagram(&a, &b"5\n".to_vec());
    assert_eq!(after.len(), 2);
    assert_eq!(after[0].text, "1 2 3\n4 X 6\n7 8 9\n");
}

#[test]
fn full_match_scenario() {
    let a = b"alpha.sock".to_vec();
    let b = b"beta.sock".to_vec();
    let mut lobby = Lobby::new();
    assert!(lobby.offer(a.clone()).is_none());
    let mut session = lobby.offer(b.clone()).expect("pairing completes");
    assert_eq!(session.player_addr(Mark::X), &a);
    assert_eq!(session.player_addr(Mark::O), &b);

    let start = session.start_replies();
    assert_eq!(start.len(), 3);
    assert_eq!(start[0].to, Mark::X);
    assert_eq!(start[0].text, "1 2 3\n4 5 6\n7 8 9\n");
    assert_eq!(start[2].to, Mark::O);
    assert_eq!(start[2].text, "The other player has joined.\n");

    // B asks to move while it is A's turn and hears only the notice.
    let replies = session.handle_datagram(&b, &b"1\n".to_vec());
    assert_eq!(replies.len(), 1);
    assert_eq!(replies[0].to, Mark::O);
    assert_eq!(replies[0].text, "It's not your turn.\n");

    // A takes the centre; the board and a prompt go to B alone.
    let replies = session.handle_datagram(&a, &b"5\n".to_vec());
    assert_eq!(replies.len(), 2);
    assert_eq!(replies[0].to, Mark::O);
    assert_eq!(replies[0].text, "1 2 3\n4 X 6\n7 8 9\n");
    assert_eq!(replies[1].to, Mark::O);
    assert_eq!(replies[1].text, "> ");

    // B and A trade moves; A drives at the downwards diagonal.
    let replies = session.handle_datagram(&b, &b"2\n".to_vec());
    assert_eq!(replies.len(), 2);
    assert_eq!(replies[0].to, Mark::X);
    assert_eq!(replies[0].text, "1 O 3\n4 X 6\n7 8 9\n");
    let replies = session.handle_datagram(&a, &b"1\n".to_vec());
    assert_eq!(replies.len(), 2);
    assert_eq!(replies[0].to, Mark::O);
    assert_eq!(replies[0].text, "X O 3\n4 X 6\n7 8 9\n");
    let replies = session.handle_datagram(&b, &b"3\n".to_vec());
    assert_eq!(replies.len(), 2);
    assert_eq!(replies[0].to, Mark::X);
    assert_eq!(replies[0].text, "X O O\n4 X 6\n7 8 9\n");

    // A completes the diagonal: both hear the outcome, the game resets, and
    // the fresh board and prompt go to A, as at match start.
    let replies = session.handle_datagram(&a, &b"9\n".to_vec());
    assert_eq!(replies.len(), 4);
    assert_eq!(replies[0].to, Mark::X);
    assert_eq!(replies[0].text, "X won!\n");
    assert_eq!(replies[1].to, Mark::O);
    assert_eq!(replies[1].text, "X won!\n");
    assert_eq!(replies[2].to, Mark::X);
    assert_eq!(replies[2].text, "1 2 3\n4 5 6\n7 8 9\n");
    assert_eq!(replies[3].to, Mark::X);
    assert_eq!(replies[3].text, "> ");

    // The rematch runs between the same peers, X to open again.
    let replies = session.handle_datagram(&a, &b"5\n".to_vec());
    assert_eq!(replies.len(), 2);
    assert_eq!(replies[0].to, Mark::O);
    assert_eq!(replies[0].text, "1 2 3\n4 X 6\n7 8 9\n");
}
