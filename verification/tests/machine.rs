//! Tests of the session state machine, the body framing, and message
//! assembly.

use vortex_smtp::event::Event;
use vortex_smtp::messages::Reply;
use vortex_smtp::{build_email, CmdOutcome, Error, State, MAX_SIZE};

/// Feed one command line and expect a plain reply.
fn line(state: &mut State, text: &str) -> Reply {
    assert!(!state.waiting_for_data);
    match state.handle_line(text) {
        CmdOutcome::Reply(r) => r,
        CmdOutcome::Validate(addr) => panic!("unexpected validation request for {addr}"),
    }
}

/// Feed one recipient command line and hand the surfaced address to the
/// given validator verdict.
fn rcpt(state: &mut State, text: &str, ok: bool) -> Reply {
    assert!(!state.waiting_for_data);
    match state.handle_line(text) {
        CmdOutcome::Validate(addr) => state.resolve_rcpt(addr, ok),
        CmdOutcome::Reply(r) => r,
    }
}

#[test]
fn end_to_end_transaction() {
    let mut s = State::new();
    assert_eq!(
        line(&mut s, "EHLO client.example"),
        Reply::Ehlo {
            fqdn: "client.example".to_string()
        }
    );
    assert_eq!(line(&mut s, "MAIL FROM:<a@x.com>"), Reply::Accepted);
    assert_eq!(rcpt(&mut s, "RCPT TO:<b@y.com>", true), Reply::Accepted);
    assert_eq!(line(&mut s, "DATA"), Reply::StartData);
    assert!(s.waiting_for_data);
    assert_eq!(s.feed_chunk(b"hello\r\n.\r\n"), Some(Reply::Accepted));
    assert!(!s.waiting_for_data);
    assert!(s.finished);

    let email = build_email(&s).expect("completed transaction must yield a message");
    assert_eq!(email.mail_from, "a@x.com");
    assert_eq!(email.rcpt_to, vec!["b@y.com".to_string()]);
    assert_eq!(email.data, "hello\r\n");
    assert_eq!(email.id.chars().count(), 21);

    let Event::EmailReceived(delivered) = Event::EmailReceived(email);
    assert_eq!(delivered.data, "hello\r\n");

    assert_eq!(line(&mut s, "QUIT"), Reply::Bye);
    assert!(s.finished);
}

#[test]
fn rcpt_before_mail_is_bad_sequence() {
    let mut s = State::new();
    assert_eq!(line(&mut s, "HELO x"), Reply::Helo {
        fqdn: "x".to_string()
    });
    assert_eq!(line(&mut s, "RCPT TO:<a@b.com>"), Reply::BadSequence);
    assert!(s.rcpt_to.is_empty());
    assert!(s.mail_from.is_none());
}

#[test]
fn commands_before_greeting_are_bad_sequence() {
    let mut s = State::new();
    assert_eq!(line(&mut s, "MAIL FROM:<a@b.com>"), Reply::BadSequence);
    assert_eq!(line(&mut s, "RCPT TO:<a@b.com>"), Reply::BadSequence);
    assert_eq!(line(&mut s, "DATA"), Reply::BadSequence);
    assert!(!s.greeting_done);
}

#[test]
fn data_before_rcpt_is_bad_sequence_and_no_message() {
    let mut s = State::new();
    assert_eq!(
        line(&mut s, "EHLO client.example"),
        Reply::Ehlo {
            fqdn: "client.example".to_string()
        }
    );
    assert_eq!(line(&mut s, "MAIL FROM:<a@x.com>"), Reply::Accepted);
    assert_eq!(line(&mut s, "DATA"), Reply::BadSequence);
    assert!(!s.waiting_for_data);
    // The session never reaches a completed transaction, so the driver never
    // invokes the event sink: build_email is only called on finished states.
    assert!(!s.finished);
}

#[test]
fn rejected_recipient_is_never_added_and_retry_succeeds() {
    let mut s = State::new();
    line(&mut s, "HELO x");
    line(&mut s, "MAIL FROM:<a@x.com>");
    assert_eq!(rcpt(&mut s, "RCPT TO:<bad@y.com>", false), Reply::UserUnknown);
    assert!(s.rcpt_to.is_empty());
    assert_eq!(rcpt(&mut s, "RCPT TO:<good@y.com>", true), Reply::Accepted);
    assert_eq!(s.rcpt_to, vec!["good@y.com".to_string()]);
}

#[test]
fn unrecognized_lines_leave_state_alone() {
    let mut s = State::new();
    assert_eq!(line(&mut s, "FROBNICATE"), Reply::Unrecognized);
    assert_eq!(line(&mut s, ""), Reply::Unrecognized);
    assert!(!s.greeting_done);
    assert_eq!(line(&mut s, "NOOP"), Reply::Accepted);
    assert_eq!(line(&mut s, "HELP").wire(), Reply::Help.wire());
}

#[test]
fn body_split_across_chunks_matches_single_chunk() {
    // One chunk.
    let mut a = State::new();
    line(&mut a, "HELO x");
    line(&mut a, "MAIL FROM:<a@x.com>");
    rcpt(&mut a, "RCPT TO:<b@y.com>", true);
    line(&mut a, "DATA");
    assert_eq!(a.feed_chunk(b"hello world\r\n.\r\n"), Some(Reply::Accepted));

    // The same bytes, one at a time.
    let mut b = State::new();
    line(&mut b, "HELO x");
    line(&mut b, "MAIL FROM:<a@x.com>");
    rcpt(&mut b, "RCPT TO:<b@y.com>", true);
    line(&mut b, "DATA");
    let bytes = b"hello world\r\n.\r\n";
    for (i, byte) in bytes.iter().enumerate() {
        let reply = b.feed_chunk(&[*byte]);
        if i + 1 < bytes.len() {
            assert_eq!(reply, None);
        } else {
            assert_eq!(reply, Some(Reply::Accepted));
        }
    }

    assert_eq!(a.data, b"hello world\r\n".to_vec());
    assert_eq!(a.data.len(), 13);
    assert_eq!(a.data, b.data);
    assert!(a.finished && b.finished);
}

#[test]
fn oversize_chunk_is_refused_and_session_stays_usable() {
    let mut s = State::new();
    line(&mut s, "HELO x");
    line(&mut s, "MAIL FROM:<a@x.com>");
    rcpt(&mut s, "RCPT TO:<b@y.com>", true);
    line(&mut s, "DATA");
    assert_eq!(s.feed_chunk(&vec![b'a'; 40000]), None);
    // This one would push the body past the bound: refused whole.
    assert_eq!(s.feed_chunk(&vec![b'b'; 40000]), Some(Reply::TooLarge));
    assert!(s.waiting_for_data);
    assert_eq!(s.data.len(), 40000);
    // The peer may still complete the message; the body keeps the line end
    // that closes its last line.
    assert_eq!(s.feed_chunk(b"\r\n.\r\n"), Some(Reply::Accepted));
    assert_eq!(s.data.len(), 40002);
    assert!(s.finished);
}

#[test]
fn body_may_reach_the_bound_exactly() {
    let mut s = State::new();
    line(&mut s, "HELO x");
    line(&mut s, "MAIL FROM:<a@x.com>");
    rcpt(&mut s, "RCPT TO:<b@y.com>", true);
    line(&mut s, "DATA");
    assert_eq!(s.feed_chunk(&vec![b'a'; MAX_SIZE - 2]), None);
    assert_eq!(s.feed_chunk(b"\r\n.\r\n"), Some(Reply::Accepted));
    assert_eq!(s.data.len(), MAX_SIZE);
}

#[test]
fn oversize_terminated_body_is_refused() {
    let mut s = State::new();
    line(&mut s, "HELO x");
    line(&mut s, "MAIL FROM:<a@x.com>");
    rcpt(&mut s, "RCPT TO:<b@y.com>", true);
    line(&mut s, "DATA");
    assert_eq!(s.feed_chunk(&vec![b'a'; MAX_SIZE - 1]), None);
    // One byte of body too many before the terminator: over the bound.
    assert_eq!(s.feed_chunk(b"b\r\n.\r\n"), Some(Reply::TooLarge));
    assert!(s.waiting_for_data);
    assert_eq!(s.data.len(), MAX_SIZE - 1);
}

#[test]
fn reset_returns_to_greeted_state_and_is_idempotent() {
    let mut s = State::new();
    line(&mut s, "EHLO client.example");
    line(&mut s, "MAIL FROM:<a@x.com>");
    rcpt(&mut s, "RCPT TO:<b@y.com>", true);
    assert_eq!(line(&mut s, "RSET"), Reply::Accepted);
    assert!(s.greeting_done);
    assert!(s.esmtp);
    assert!(s.mail_from.is_none());
    assert!(s.rcpt_to.is_empty());
    assert!(s.data.is_empty());
    assert!(!s.waiting_for_data);

    let snapshot = (
        s.esmtp,
        s.greeting_done,
        s.finished,
        s.mail_from.clone(),
        s.rcpt_to.clone(),
        s.waiting_for_data,
        s.data.clone(),
    );
    assert_eq!(line(&mut s, "RSET"), Reply::Accepted);
    let again = (
        s.esmtp,
        s.greeting_done,
        s.finished,
        s.mail_from.clone(),
        s.rcpt_to.clone(),
        s.waiting_for_data,
        s.data.clone(),
    );
    assert_eq!(snapshot, again);

    // The cleared session can run a full transaction again.
    assert_eq!(line(&mut s, "MAIL FROM:<c@z.com>"), Reply::Accepted);
    assert_eq!(rcpt(&mut s, "RCPT TO:<d@z.com>", true), Reply::Accepted);
    assert_eq!(line(&mut s, "DATA"), Reply::StartData);
}

#[test]
fn build_email_reports_missing_parts() {
    let mut s = State::new();
    line(&mut s, "HELO x");
    assert_eq!(line(&mut s, "QUIT"), Reply::Bye);
    assert!(s.finished);
    assert_eq!(build_email(&s).unwrap_err(), Error::RcptToMissing);

    let mut t = State::new();
    line(&mut t, "HELO x");
    line(&mut t, "MAIL FROM:<a@x.com>");
    rcpt(&mut t, "RCPT TO:<b@y.com>", true);
    line(&mut t, "QUIT");
    assert_eq!(build_email(&t).unwrap_err(), Error::DataMissing);

    // A sender can only be absent on a state assembled by hand: the machine
    // never accepts recipients without one.
    let u = State {
        esmtp: false,
        greeting_done: true,
        finished: true,
        mail_from: None,
        rcpt_to: vec!["b@y.com".to_string()],
        waiting_for_data: false,
        data: b"x".to_vec(),
    };
    assert_eq!(build_email(&u).unwrap_err(), Error::MailFromMissing);
}

#[test]
fn message_ids_are_fresh() {
    let mut s = State::new();
    line(&mut s, "HELO x");
    line(&mut s, "MAIL FROM:<a@x.com>");
    rcpt(&mut s, "RCPT TO:<b@y.com>", true);
    line(&mut s, "DATA");
    s.feed_chunk(b"one\r\n.\r\n");
    let first = build_email(&s).unwrap();
    let second = build_email(&s).unwrap();
    assert_eq!(first.id.chars().count(), 21);
    assert_eq!(second.id.chars().count(), 21);
    assert_ne!(first.id, second.id);
}

#[test]
fn invalid_utf8_bodies_are_decoded_leniently() {
    let mut s = State::new();
    line(&mut s, "HELO x");
    line(&mut s, "MAIL FROM:<a@x.com>");
    rcpt(&mut s, "RCPT TO:<b@y.com>", true);
    line(&mut s, "DATA");
    assert_eq!(s.feed_chunk(&[0xff, b'h', b'i']), None);
    assert_eq!(s.feed_chunk(b"\r\n.\r\n"), Some(Reply::Accepted));
    let email = build_email(&s).unwrap();
    assert_eq!(email.data, "\u{FFFD}hi\r\n");
}

#[test]
fn error_messages() {
    assert_eq!(Error::MailFromMissing.message(), "mail from missing");
    assert_eq!(Error::RcptToMissing.message(), "rcpt to missing");
    assert_eq!(Error::DataMissing.message(), "data missing");
    assert_eq!(
        Error::NetworkError("connection reset".to_string()).message(),
        "network error: connection reset"
    );
}

#[test]
fn greeting_can_be_renewed_mid_session() {
    let mut s = State::new();
    line(&mut s, "EHLO a.example");
    assert!(s.esmtp);
    line(&mut s, "HELO b.example");
    assert!(!s.esmtp);
    assert!(s.greeting_done);
}
