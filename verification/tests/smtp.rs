use edgemail::smtp::{greeting_bytes, wire_bytes, Response, Session, SmtpError};

#[test]
fn complete_transaction_stores_one_mail() {
    let mut s = Session::new();
    let r = s.handle(b"EHLO x").unwrap();
    assert_eq!(r.response, Response::EhloGreeting);
    assert!(r.completed.is_none());
    let r = s.handle(b"MAIL FROM:<a@b>").unwrap();
    assert_eq!(r.response, Response::GenericOk);
    let r = s.handle(b"RCPT TO:<c@d>").unwrap();
    assert_eq!(r.response, Response::GenericOk);
    let r = s.handle(b"DATA").unwrap();
    assert_eq!(r.response, Response::SendData);
    let r = s.handle(b"hello world\r\n.\r\n").unwrap();
    assert_eq!(r.response, Response::GenericOk);
    assert!(r.completed.is_none());
    let r = s.handle(b"QUIT").unwrap();
    assert_eq!(r.response, Response::Bye);
    let mail = r.completed.expect("completed mail");
    assert_eq!(mail.from, b"<a@b>".to_vec());
    assert_eq!(mail.to, vec![b"<c@d>".to_vec()]);
    assert_eq!(mail.data, b"hello world".to_vec());
}

#[test]
fn mail_before_greeting_is_rejected() {
    let mut s = Session::new();
    let r = s.handle(b"MAIL FROM:<a@b>");
    assert_eq!(r.unwrap_err(), SmtpError::ProtocolViolation);
    // The state did not advance: a greeting still works as from Fresh.
    let r = s.handle(b"EHLO x").unwrap();
    assert_eq!(r.response, Response::EhloGreeting);
}

#[test]
fn data_without_recipients_is_rejected() {
    let mut s = Session::new();
    s.handle(b"HELO x").unwrap();
    s.handle(b"MAIL FROM:<a@b>").unwrap();
    let r = s.handle(b"DATA");
    assert_eq!(r.unwrap_err(), SmtpError::ProtocolViolation);
    // Still collecting recipients: a RCPT is accepted afterwards.
    let r = s.handle(b"RCPT TO:<c@d>").unwrap();
    assert_eq!(r.response, Response::GenericOk);
}

#[test]
fn recipients_accumulate_in_arrival_order() {
    let mut s = Session::new();
    s.handle(b"EHLO x").unwrap();
    s.handle(b"MAIL FROM:<a@b>").unwrap();
    s.handle(b"RCPT TO:<c@d>").unwrap();
    s.handle(b"RCPT TO:<e@f>").unwrap();
    s.handle(b"DATA").unwrap();
    s.handle(b"body\r\n.\r\n").unwrap();
    let mail = s.handle(b"QUIT").unwrap().completed.expect("completed mail");
    assert_eq!(mail.to, vec![b"<c@d>".to_vec(), b"<e@f>".to_vec()]);
}

#[test]
fn rset_discards_mail_and_a_new_transaction_succeeds() {
    let mut s = Session::new();
    s.handle(b"EHLO x").unwrap();
    s.handle(b"MAIL FROM:<old@x>").unwrap();
    s.handle(b"RCPT TO:<dropped@x>").unwrap();
    let r = s.handle(b"RSET").unwrap();
    assert_eq!(r.response, Response::GenericOk);
    assert!(r.completed.is_none());
    // Back to Fresh: the whole transaction runs again from the start.
    s.handle(b"HELO x").unwrap();
    s.handle(b"MAIL FROM:<a@b>").unwrap();
    s.handle(b"RCPT TO:<c@d>").unwrap();
    s.handle(b"DATA").unwrap();
    s.handle(b"fresh start\r\n.\r\n").unwrap();
    let mail = s.handle(b"QUIT").unwrap().completed.expect("completed mail");
    assert_eq!(mail.from, b"<a@b>".to_vec());
    assert_eq!(mail.data, b"fresh start".to_vec());
}

#[test]
fn rset_inside_data_phase_discards_everything() {
    let mut s = Session::new();
    s.handle(b"EHLO x").unwrap();
    s.handle(b"MAIL FROM:<a@b>").unwrap();
    s.handle(b"RCPT TO:<c@d>").unwrap();
    s.handle(b"DATA").unwrap();
    s.handle(b"half a body").unwrap();
    let r = s.handle(b"RSET").unwrap();
    assert_eq!(r.response, Response::GenericOk);
    assert!(r.completed.is_none());
    // Nothing left over: QUIT from Fresh persists nothing.
    let r = s.handle(b"QUIT").unwrap();
    assert_eq!(r.response, Response::Bye);
    assert!(r.completed.is_none());
}

#[test]
fn eof_during_data_phase_keeps_the_partial_body() {
    // The driver turns transport EOF into an implicit QUIT. The chosen
    // policy: a partial body, never terminated, is persisted as it is.
    let mut s = Session::new();
    s.handle(b"EHLO x").unwrap();
    s.handle(b"MAIL FROM:<a@b>").unwrap();
    s.handle(b"RCPT TO:<c@d>").unwrap();
    s.handle(b"DATA").unwrap();
    let r = s.handle(b"partial body with no terminator").unwrap();
    assert_eq!(r.response, Response::Silent);
    let r = s.handle(b"quit").unwrap();
    assert_eq!(r.response, Response::Bye);
    let mail = r.completed.expect("completed mail");
    assert_eq!(mail.data, b"partial body with no terminator".to_vec());
}

#[test]
fn terminator_split_across_chunks_is_found() {
    let mut s = Session::new();
    s.handle(b"EHLO x").unwrap();
    s.handle(b"MAIL FROM:<a@b>").unwrap();
    s.handle(b"RCPT TO:<c@d>").unwrap();
    s.handle(b"DATA").unwrap();
    let r = s.handle(b"line one\r").unwrap();
    assert_eq!(r.response, Response::Silent);
    let r = s.handle(b"\n.\r\n").unwrap();
    assert_eq!(r.response, Response::GenericOk);
    let mail = s.handle(b"QUIT").unwrap().completed.expect("completed mail");
    assert_eq!(mail.data, b"line one".to_vec());
}

#[test]
fn bytes_after_the_terminator_are_not_stored() {
    let mut s = Session::new();
    s.handle(b"EHLO x").unwrap();
    s.handle(b"MAIL FROM:<a@b>").unwrap();
    s.handle(b"RCPT TO:<c@d>").unwrap();
    s.handle(b"DATA").unwrap();
    let r = s.handle(b"abc\r\n.\r\nxyz").unwrap();
    assert_eq!(r.response, Response::GenericOk);
    let mail = s.handle(b"QUIT").unwrap().completed.expect("completed mail");
    assert_eq!(mail.data, b"abc".to_vec());
}

#[test]
fn commands_are_case_insensitive() {
    let mut s = Session::new();
    s.handle(b"ehlo x").unwrap();
    s.handle(b"mAiL FROM:<a@b>").unwrap();
    s.handle(b"rcpt TO:<c@d>").unwrap();
    let r = s.handle(b"data").unwrap();
    assert_eq!(r.response, Response::SendData);
}

#[test]
fn address_prefixes_are_case_sensitive() {
    let mut s = Session::new();
    s.handle(b"EHLO x").unwrap();
    let r = s.handle(b"MAIL from:<a@b>");
    assert_eq!(r.unwrap_err(), SmtpError::ProtocolViolation);
}

#[test]
fn malformed_mail_arguments_are_rejected() {
    let mut s = Session::new();
    s.handle(b"EHLO x").unwrap();
    assert!(s.handle(b"MAIL").is_err());
    let mut s = Session::new();
    s.handle(b"EHLO x").unwrap();
    assert!(s.handle(b"MAIL <a@b>").is_err());
    // An empty reverse path after the prefix is rejected too.
    let mut s = Session::new();
    s.handle(b"EHLO x").unwrap();
    assert!(s.handle(b"MAIL FROM:").is_err());
}

#[test]
fn malformed_rcpt_arguments_are_rejected() {
    let mut s = Session::new();
    s.handle(b"EHLO x").unwrap();
    s.handle(b"MAIL FROM:<a@b>").unwrap();
    assert!(s.handle(b"RCPT").is_err());
    let mut s = Session::new();
    s.handle(b"EHLO x").unwrap();
    s.handle(b"MAIL FROM:<a@b>").unwrap();
    assert!(s.handle(b"RCPT <c@d>").is_err());
    // An empty forward path after the prefix is rejected too.
    let mut s = Session::new();
    s.handle(b"EHLO x").unwrap();
    s.handle(b"MAIL FROM:<a@b>").unwrap();
    assert!(s.handle(b"RCPT TO:").is_err());
}

#[test]
fn session_neutral_commands_answer_in_any_state() {
    let mut s = Session::new();
    assert_eq!(s.handle(b"NOOP").unwrap().response, Response::GenericOk);
    assert_eq!(s.handle(b"HELP").unwrap().response, Response::GenericOk);
    assert_eq!(s.handle(b"VRFY a").unwrap().response, Response::GenericOk);
    assert_eq!(s.handle(b"EXPN a").unwrap().response, Response::GenericOk);
    assert_eq!(s.handle(b"AUTH PLAIN abc").unwrap().response, Response::AuthOk);
    // None of them advanced the state: EHLO still works as from Fresh.
    assert_eq!(s.handle(b"EHLO x").unwrap().response, Response::EhloGreeting);
}

#[test]
fn noop_keeps_the_mail_in_progress() {
    let mut s = Session::new();
    s.handle(b"EHLO x").unwrap();
    s.handle(b"MAIL FROM:<a@b>").unwrap();
    s.handle(b"RCPT TO:<c@d>").unwrap();
    assert_eq!(s.handle(b"NOOP").unwrap().response, Response::GenericOk);
    // The recipient list survived the NOOP.
    assert_eq!(s.handle(b"DATA").unwrap().response, Response::SendData);
}

#[test]
fn quit_outside_data_phase_persists_nothing() {
    let mut s = Session::new();
    let r = s.handle(b"QUIT").unwrap();
    assert_eq!(r.response, Response::Bye);
    assert!(r.completed.is_none());
    let mut s = Session::new();
    s.handle(b"EHLO x").unwrap();
    s.handle(b"MAIL FROM:<a@b>").unwrap();
    let r = s.handle(b"QUIT").unwrap();
    assert_eq!(r.response, Response::Bye);
    assert!(r.completed.is_none());
}

#[test]
fn unknown_commands_are_fatal_outside_data_phase() {
    let mut s = Session::new();
    assert!(s.handle(b"BLAH").is_err());
    let mut s = Session::new();
    s.handle(b"EHLO x").unwrap();
    assert!(s.handle(b"EHLO x").is_err());
    let mut s = Session::new();
    assert!(s.handle(b"").is_err());
    let mut s = Session::new();
    assert!(s.handle(b"   \r\n").is_err());
}

#[test]
fn wire_bytes_are_the_fixed_strings() {
    let d: &[u8] = b"x.test";
    assert_eq!(wire_bytes(Response::GenericOk, d), b"250 Ok\n".to_vec());
    assert_eq!(wire_bytes(Response::AuthOk, d), b"235 Ok\n".to_vec());
    assert_eq!(
        wire_bytes(Response::SendData, d),
        b"354 End data with <CR><LF>.<CR><LF>\n".to_vec()
    );
    assert_eq!(wire_bytes(Response::Bye, d), b"221 Bye\n".to_vec());
    assert_eq!(wire_bytes(Response::Silent, d), Vec::<u8>::new());
    assert_eq!(
        wire_bytes(Response::EhloGreeting, d),
        b"250-x.test Hello x.test\n250 AUTH PLAIN LOGIN\n".to_vec()
    );
    assert_eq!(greeting_bytes(), b"220 eatmail\n".to_vec());
}
