use mail_capture::smtp::{greeting, ingest, reply_line, Code, Envelope, Phase, Session};
use mail_capture::store::MailStore;

fn run(session: &mut Session, lines: &[&str]) -> (Vec<Option<Code>>, Vec<Envelope>) {
    let mut replies = Vec::new();
    let mut messages = Vec::new();
    for line in lines {
        let step = session.step(line);
        replies.push(step.reply);
        if let Some(m) = step.message {
            messages.push(m);
        }
    }
    (replies, messages)
}

#[test]
fn one_message_is_stored() {
    let mut session = Session::new();
    let (replies, mut messages) = run(
        &mut session,
        &["HELO client", "MAIL FROM:<a@x>", "RCPT TO:<b@y>", "DATA", "hello", ".", "QUIT"],
    );
    assert_eq!(
        replies,
        vec![
            Some(Code::Done),
            Some(Code::Done),
            Some(Code::Done),
            Some(Code::StartInput),
            None,
            Some(Code::Done),
            Some(Code::Closing),
        ]
    );
    assert_eq!(messages.len(), 1);
    assert_eq!(session.phase, Phase::Closed);
    let mut store = MailStore::new(sled::Config::new().temporary(true).open().unwrap());
    let msg = messages.remove(0);
    ingest(&mut store, msg, "id-1".to_string(), 1_700_000_000).unwrap();
    assert_eq!(store.list(0, 10).unwrap().len(), 1);
    let m = store.get("id-1").unwrap().unwrap();
    assert_eq!(m.from, "a@x");
    assert_eq!(m.to, vec!["b@y".to_string()]);
    assert_eq!(m.body, "hello");
    assert_eq!(m.subject, "");
    assert_eq!(m.received_at, 1_700_000_000);
}

#[test]
fn out_of_sequence_commands_are_refused() {
    let mut session = Session::new();
    let (replies, messages) = run(
        &mut session,
        &["RCPT TO:<b@y>", "DATA", "HELO c", "DATA", "RCPT TO:<b@y>", "MAIL FROM:<a@x>", "MAIL FROM:<a@x>", "DATA"],
    );
    assert_eq!(
        replies,
        vec![
            Some(Code::BadSequence),
            Some(Code::BadSequence),
            Some(Code::Done),
            Some(Code::BadSequence),
            Some(Code::BadSequence),
            Some(Code::Done),
            Some(Code::BadSequence),
            Some(Code::BadSequence),
        ]
    );
    assert!(messages.is_empty());
    assert_eq!(session.phase, Phase::HaveSender);
}

#[test]
fn malformed_and_unknown_commands() {
    let mut session = Session::new();
    let (replies, _) = run(&mut session, &["ehlo c", "MAIL FROM:", "mail from: <> ", "XYZZY", "NOOP", "mail from:  a@x "]);
    assert_eq!(
        replies,
        vec![
            Some(Code::Done),
            Some(Code::BadArgument),
            Some(Code::BadArgument),
            Some(Code::Unrecognized),
            Some(Code::Done),
            Some(Code::Done),
        ]
    );
    let mut session = Session::new();
    let (_, _) = run(&mut session, &["HELO c", "mail from:  a@x "]);
    assert_eq!(session.from, "a@x".chars().collect::<Vec<char>>());
}

#[test]
fn subject_dot_stuffing_and_several_recipients() {
    let mut session = Session::new();
    let (_, messages) = run(
        &mut session,
        &[
            "HELO c",
            "MAIL FROM:<a@x>",
            "RCPT TO:<b@y>",
            "RCPT TO:<c@z>",
            "DATA",
            "From: a@x",
            "subject:   Hi there ",
            "",
            "..line",
            "Subject: not a header",
            ".",
        ],
    );
    assert_eq!(messages.len(), 1);
    let m = &messages[0];
    assert_eq!(m.to, vec!["b@y".to_string(), "c@z".to_string()]);
    assert_eq!(m.subject, "Hi there");
    assert_eq!(m.body, "From: a@x\nsubject:   Hi there \n\n.line\nSubject: not a header");
    assert_eq!(session.phase, Phase::Greeted);
}

#[test]
fn second_message_on_one_connection() {
    let mut session = Session::new();
    let (_, messages) = run(
        &mut session,
        &[
            "HELO c", "MAIL FROM:<a@x>", "RCPT TO:<b@y>", "DATA", "one", ".",
            "MAIL FROM:<c@x>", "RCPT TO:<d@y>", "DATA", "two", ".",
        ],
    );
    assert_eq!(messages.len(), 2);
    assert_eq!(messages[1].from, "c@x");
    assert_eq!(messages[1].to, vec!["d@y".to_string()]);
    assert_eq!(messages[1].body, "two");
}

#[test]
fn reset_and_quit() {
    let mut session = Session::new();
    let (replies, messages) = run(&mut session, &["HELO c", "MAIL FROM:<a@x>", "RSET", "RCPT TO:<b@y>", "QUIT", "NOOP"]);
    assert_eq!(
        replies,
        vec![
            Some(Code::Done),
            Some(Code::Done),
            Some(Code::Done),
            Some(Code::BadSequence),
            Some(Code::Closing),
            Some(Code::BadSequence),
        ]
    );
    assert!(messages.is_empty());
}

#[test]
fn reply_texts() {
    assert_eq!(reply_line(Code::Done), b"250 OK\r\n".to_vec());
    assert_eq!(reply_line(Code::Closing), b"221 Bye\r\n".to_vec());
    assert_eq!(reply_line(Code::BadSequence), b"503 Bad sequence of commands\r\n".to_vec());
    assert!(greeting().starts_with(b"220 "));
}
