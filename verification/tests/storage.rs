use edgemail::smtp::{Response, Session};
use edgemail::storage::{
    joined_recipients, like_pattern, retention_cutoff, storage_row, RETENTION_WINDOW_MS,
};

fn completed_mail(chunks: &[&[u8]]) -> edgemail::smtp::Mail {
    let mut s = Session::new();
    s.handle(b"EHLO x").unwrap();
    s.handle(b"MAIL FROM:<a@b>").unwrap();
    s.handle(b"RCPT TO:<c@d>").unwrap();
    s.handle(b"RCPT TO:<e@f>").unwrap();
    s.handle(b"DATA").unwrap();
    for c in chunks {
        s.handle(c).unwrap();
    }
    let r = s.handle(b"QUIT").unwrap();
    assert_eq!(r.response, Response::Bye);
    r.completed.expect("completed mail")
}

#[test]
fn row_of_a_completed_mail() {
    let mail = completed_mail(&[b"hello world\r\n.\r\n"]);
    let row = storage_row(&mail, 0);
    assert_eq!(row.date, b"1970-01-01 00:00:00.000".to_vec());
    assert_eq!(row.sender, b"<a@b>".to_vec());
    assert_eq!(row.recipients, b"<c@d>, <e@f>".to_vec());
    assert_eq!(row.body, b"hello world".to_vec());
}

#[test]
fn capture_timestamp_is_rendered_with_millisecond_precision() {
    let mail = completed_mail(&[b"x\r\n.\r\n"]);
    let row = storage_row(&mail, 947638923004);
    assert_eq!(row.date, b"2000-01-12 01:02:03.004".to_vec());
}

#[test]
fn joined_recipients_separates_with_comma_and_space() {
    assert_eq!(joined_recipients(&vec![]), Vec::<u8>::new());
    assert_eq!(joined_recipients(&vec![b"<c@d>".to_vec()]), b"<c@d>".to_vec());
    assert_eq!(
        joined_recipients(&vec![b"<c@d>".to_vec(), b"<e@f>".to_vec(), b"<c@d>".to_vec()]),
        b"<c@d>, <e@f>, <c@d>".to_vec()
    );
}

#[test]
fn retention_cutoff_is_one_window_earlier() {
    assert_eq!(
        retention_cutoff(RETENTION_WINDOW_MS + 1000),
        b"1970-01-01 00:00:01.000".to_vec()
    );
    // Before one window has passed, the cutoff clamps to the epoch.
    assert_eq!(retention_cutoff(0), b"1970-01-01 00:00:00.000".to_vec());
    assert_eq!(RETENTION_WINDOW_MS, 7 * 24 * 60 * 60 * 1000);
}

#[test]
fn like_pattern_wraps_the_recipient_in_wildcards() {
    assert_eq!(like_pattern(b"a@b"), b"%a@b%".to_vec());
    assert_eq!(like_pattern(b""), b"%%".to_vec());
}
