//! The pure side of the storage gateway: the row inserted for a
//! completed mail, the retention-sweep cutoff, and the recipient lookup
//! pattern. The gateway's own I/O lives outside the library.

use vstd::prelude::*;
use vstd::slice::slice_to_vec;
use crate::parse::{append_bytes, lemma_bytes_deep};
use crate::smtp::Mail;

verus! {

/// One row of the mail table: four text columns.
pub struct MailRecord {
    pub date: Vec<u8>,
    pub sender: Vec<u8>,
    pub recipients: Vec<u8>,
    pub body: Vec<u8>,
}

/// Recipients joined with ", " into one display string.
pub open spec fn joined(to: Seq<Seq<u8>>) -> Seq<u8>
    decreases to.len(),
{
    if to.len() == 0 {
        Seq::empty()
    } else if to.len() == 1 {
        to[0]
    } else {
        to[0] + seq![44u8, 32u8] + joined(to.subrange(1, to.len() as int))
    }
}

/// Joining one more recipient appends a separator and the new entry.
pub proof fn lemma_joined_push(to: Seq<Seq<u8>>, a: Seq<u8>)
    requires
        to.len() >= 1,
    ensures
        joined(to.push(a)) == joined(to) + seq![44u8, 32u8] + a,
    decreases to.len(),
{
    if to.len() == 1 {
        assert(to.push(a).subrange(1, 2) =~= seq![a]);
        assert(joined(seq![a]) == a);
        assert(to.push(a)[0] == to[0]);
        assert(joined(to.push(a)) == to[0] + seq![44u8, 32u8] + a);
    } else {
        let rest = to.subrange(1, to.len() as int);
        lemma_joined_push(rest, a);
        assert(to.push(a).subrange(1, (to.len() + 1) as int) =~= rest.push(a));
        assert(to[0] + seq![44u8, 32u8] + (joined(rest) + seq![44u8, 32u8] + a) =~= (to[0]
            + seq![44u8, 32u8] + joined(rest)) + seq![44u8, 32u8] + a);
    }
}

/// Joins the recipients for the row: ", " between the entries, in
/// arrival order.
pub fn joined_recipients(to: &Vec<Vec<u8>>) -> (r: Vec<u8>)
    ensures
        r@ == joined(to.deep_view()),
{
    let ghost dv = to.deep_view();
    let mut r: Vec<u8> = Vec::new();
    if to.len() == 0 {
        proof {
            assert(r@ =~= joined(dv));
        }
        return r;
    }
    append_bytes(&mut r, to[0].as_slice());
    proof {
        lemma_bytes_deep(to[0]);
        assert(dv.subrange(0, 1) =~= seq![dv[0]]);
        assert(r@ =~= joined(dv.subrange(0, 1)));
    }
    let mut i: usize = 1;
    while i < to.len()
        invariant
            1 <= i <= dv.len(),
            dv == to.deep_view(),
            dv.len() == to@.len(),
            r@ == joined(dv.subrange(0, i as int)),
        decreases dv.len() - i,
    {
        r.push(44);
        r.push(32);
        append_bytes(&mut r, to[i].as_slice());
        proof {
            lemma_bytes_deep(to[i as int]);
            lemma_joined_push(dv.subrange(0, i as int), dv[i as int]);
            assert(dv.subrange(0, i as int).push(dv[i as int]) =~= dv.subrange(0, i as int + 1));
            assert(r@ =~= joined(dv.subrange(0, i as int)) + seq![44u8, 32u8] + dv[i as int]);
        }
        i = i + 1;
    }
    proof {
        assert(dv.subrange(0, dv.len() as int) =~= dv);
    }
    r
}

/// The text chrono renders for a UTC timestamp in milliseconds, in the
/// fixed "%Y-%m-%d %H:%M:%S%.3f" format (empty for a timestamp outside
/// chrono's range).
pub uninterp spec fn timestamp_text(ms: i64) -> Seq<u8>;

/// Relies on chrono's `DateTime::from_timestamp_millis` and its strftime
/// formatting: with the format and the zone fixed, the rendered text is a
/// function of the millisecond timestamp alone.
#[verifier::external_body]
pub fn format_timestamp(ms: i64) -> (r: Vec<u8>)
    ensures
        r@ == timestamp_text(ms),
{
    match chrono::DateTime::<chrono::Utc>::from_timestamp_millis(ms) {
        Some(t) => t.format("%Y-%m-%d %H:%M:%S%.3f").to_string().into_bytes(),
        None => Vec::new(),
    }
}

/// Builds the row that the storage gateway inserts for a completed mail:
/// capture timestamp, sender, joined recipients, body.
pub fn storage_row(mail: &Mail, now_ms: i64) -> (r: MailRecord)
    ensures
        r.date@ == timestamp_text(now_ms),
        r.sender@ == mail@.from,
        r.recipients@ == joined(mail@.to),
        r.body@ == mail@.data,
{
    MailRecord {
        date: format_timestamp(now_ms),
        sender: slice_to_vec(mail.from.as_slice()),
        recipients: joined_recipients(&mail.to),
        body: slice_to_vec(mail.data.as_slice()),
    }
}

/// Length of the retention window, in milliseconds: seven days.
pub const RETENTION_WINDOW_MS: i64 = 7 * 24 * 60 * 60 * 1000;

/// The cutoff of a retention sweep at time `now_ms`: one window earlier,
/// clamped at the epoch.
pub open spec fn cutoff_ms(now_ms: i64) -> i64 {
    if now_ms >= RETENTION_WINDOW_MS {
        (now_ms - RETENTION_WINDOW_MS) as i64
    } else {
        0
    }
}

/// The timestamp text that a retention sweep compares stored dates
/// against: records older than this are deleted.
pub fn retention_cutoff(now_ms: i64) -> (r: Vec<u8>)
    ensures
        r@ == timestamp_text(cutoff_ms(now_ms)),
{
    if now_ms >= RETENTION_WINDOW_MS {
        format_timestamp(now_ms - RETENTION_WINDOW_MS)
    } else {
        format_timestamp(0)
    }
}

/// The LIKE pattern of a recipient-substring lookup: the address between
/// two wildcards.
pub fn like_pattern(recipient: &[u8]) -> (r: Vec<u8>)
    ensures
        r@ == seq![37u8] + recipient@ + seq![37u8],
{
    let mut r: Vec<u8> = Vec::new();
    r.push(37);
    append_bytes(&mut r, recipient);
    r.push(37);
    proof {
        assert(r@ =~= seq![37u8] + recipient@ + seq![37u8]);
    }
    r
}

} // verus!
