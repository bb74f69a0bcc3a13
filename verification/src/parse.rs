//! Byte-level reading of SMTP input chunks: whitespace-delimited tokens,
//! case-insensitive command keywords, the `FROM:`/`TO:` address arguments,
//! and the end-of-data terminator `\r\n.\r\n`.

use vstd::prelude::*;
use vstd::slice::{slice_index_get, slice_subrange, slice_to_vec};

verus! {

/// ASCII whitespace, as the command tokenizer understands it.
pub open spec fn is_ws(b: u8) -> bool {
    b == 32 || b == 9 || b == 10 || b == 13 || b == 11 || b == 12
}

/// ASCII lowercasing of one byte.
pub open spec fn lower(b: u8) -> u8 {
    if 65 <= b && b <= 90 {
        (b + 32) as u8
    } else {
        b
    }
}

/// Index of the first non-whitespace byte at or after `i`, or the length.
pub open spec fn skip_ws(s: Seq<u8>, i: int) -> int
    decreases s.len() - i,
{
    if i >= s.len() || !is_ws(s[i]) {
        i
    } else {
        skip_ws(s, i + 1)
    }
}

/// Index of the first whitespace byte at or after `i`, or the length.
pub open spec fn scan_tok(s: Seq<u8>, i: int) -> int
    decreases s.len() - i,
{
    if i >= s.len() || is_ws(s[i]) {
        i
    } else {
        scan_tok(s, i + 1)
    }
}

/// Bounds of the first whitespace-delimited token of a chunk.
pub open spec fn tok1_start(s: Seq<u8>) -> int {
    skip_ws(s, 0)
}

pub open spec fn tok1_end(s: Seq<u8>) -> int {
    scan_tok(s, tok1_start(s))
}

/// The first whitespace-delimited token (empty when the chunk is all
/// whitespace or empty).
pub open spec fn tok1(s: Seq<u8>) -> Seq<u8> {
    s.subrange(tok1_start(s), tok1_end(s))
}

/// Bounds of the second whitespace-delimited token.
pub open spec fn tok2_start(s: Seq<u8>) -> int {
    skip_ws(s, tok1_end(s))
}

pub open spec fn tok2_end(s: Seq<u8>) -> int {
    scan_tok(s, tok2_start(s))
}

/// Whether a second token is present at all.
pub open spec fn has_tok2(s: Seq<u8>) -> bool {
    tok2_start(s) < s.len()
}

/// The second whitespace-delimited token (empty when absent).
pub open spec fn tok2(s: Seq<u8>) -> Seq<u8> {
    s.subrange(tok2_start(s), tok2_end(s))
}

proof fn lemma_skip_ws_bounds(s: Seq<u8>, i: int)
    requires
        0 <= i <= s.len(),
    ensures
        i <= skip_ws(s, i) <= s.len(),
    decreases s.len() - i,
{
    if i < s.len() && is_ws(s[i]) {
        lemma_skip_ws_bounds(s, i + 1);
    }
}

proof fn lemma_scan_tok_bounds(s: Seq<u8>, i: int)
    requires
        0 <= i <= s.len(),
    ensures
        i <= scan_tok(s, i) <= s.len(),
    decreases s.len() - i,
{
    if i < s.len() && !is_ws(s[i]) {
        lemma_scan_tok_bounds(s, i + 1);
    }
}

/// Token bounds of any chunk are well formed.
pub proof fn lemma_token_bounds(s: Seq<u8>)
    ensures
        0 <= tok1_start(s) <= tok1_end(s) <= tok2_start(s) <= tok2_end(s) <= s.len(),
{
    lemma_skip_ws_bounds(s, 0);
    lemma_scan_tok_bounds(s, tok1_start(s));
    lemma_skip_ws_bounds(s, tok1_end(s));
    lemma_scan_tok_bounds(s, tok2_start(s));
}

fn is_ws_byte(b: u8) -> (r: bool)
    ensures
        r == is_ws(b),
{
    b == 32 || b == 9 || b == 10 || b == 13 || b == 11 || b == 12
}

/// ASCII lowercasing, executably.
fn ascii_lower(b: u8) -> (r: u8)
    ensures
        r == lower(b),
{
    if 65 <= b && b <= 90 {
        b + 32
    } else {
        b
    }
}

/// First non-whitespace position at or after `from`.
fn find_token_start(s: &[u8], from: usize) -> (r: usize)
    requires
        from <= s@.len(),
    ensures
        r == skip_ws(s@, from as int),
        from <= r <= s@.len(),
{
    let mut j = from;
    while j < s.len() && is_ws_byte(*slice_index_get(s, j))
        invariant
            from <= j <= s@.len(),
            skip_ws(s@, from as int) == skip_ws(s@, j as int),
        decreases s@.len() - j,
    {
        j = j + 1;
    }
    j
}

/// First whitespace position at or after `from`.
fn find_token_end(s: &[u8], from: usize) -> (r: usize)
    requires
        from <= s@.len(),
    ensures
        r == scan_tok(s@, from as int),
        from <= r <= s@.len(),
{
    let mut j = from;
    while j < s.len() && !is_ws_byte(*slice_index_get(s, j))
        invariant
            from <= j <= s@.len(),
            scan_tok(s@, from as int) == scan_tok(s@, j as int),
        decreases s@.len() - j,
    {
        j = j + 1;
    }
    j
}

/// The command keywords the machine understands. `Noop` stands for the
/// four commands that are acknowledged without any effect.
#[derive(Clone, Copy, PartialEq, Eq, Structural, Debug)]
pub enum Keyword {
    Ehlo,
    Helo,
    Noop,
    Rset,
    Auth,
    Mail,
    Rcpt,
    Data,
    Quit,
    Other,
}

/// Keyword of a token, matched case-insensitively.
pub open spec fn keyword_of(t: Seq<u8>) -> Keyword {
    if t.len() != 4 {
        Keyword::Other
    } else {
        let a = lower(t[0]);
        let b = lower(t[1]);
        let c = lower(t[2]);
        let d = lower(t[3]);
        if a == 101 && b == 104 && c == 108 && d == 111 {
            Keyword::Ehlo
        } else if a == 104 && b == 101 && c == 108 && d == 111 {
            Keyword::Helo
        } else if a == 110 && b == 111 && c == 111 && d == 112 {
            Keyword::Noop
        } else if a == 104 && b == 101 && c == 108 && d == 112 {
            Keyword::Noop
        } else if a == 118 && b == 114 && c == 102 && d == 121 {
            Keyword::Noop
        } else if a == 101 && b == 120 && c == 112 && d == 110 {
            Keyword::Noop
        } else if a == 114 && b == 115 && c == 101 && d == 116 {
            Keyword::Rset
        } else if a == 97 && b == 117 && c == 116 && d == 104 {
            Keyword::Auth
        } else if a == 109 && b == 97 && c == 105 && d == 108 {
            Keyword::Mail
        } else if a == 114 && b == 99 && c == 112 && d == 116 {
            Keyword::Rcpt
        } else if a == 100 && b == 97 && c == 116 && d == 97 {
            Keyword::Data
        } else if a == 113 && b == 117 && c == 105 && d == 116 {
            Keyword::Quit
        } else {
            Keyword::Other
        }
    }
}

/// Keyword of the byte range `[start, end)` of `s`.
fn keyword_at(s: &[u8], start: usize, end: usize) -> (k: Keyword)
    requires
        start <= end <= s@.len(),
    ensures
        k == keyword_of(s@.subrange(start as int, end as int)),
{
    proof {
        assert(s@.subrange(start as int, end as int).len() == end - start);
    }
    if end - start != 4 {
        return Keyword::Other;
    }
    let a = ascii_lower(*slice_index_get(s, start));
    let b = ascii_lower(*slice_index_get(s, start + 1));
    let c = ascii_lower(*slice_index_get(s, start + 2));
    let d = ascii_lower(*slice_index_get(s, start + 3));
    proof {
        let t = s@.subrange(start as int, end as int);
        assert(t[0] == s@[start as int]);
        assert(t[1] == s@[start as int + 1]);
        assert(t[2] == s@[start as int + 2]);
        assert(t[3] == s@[start as int + 3]);
    }
    if a == 101 && b == 104 && c == 108 && d == 111 {
        Keyword::Ehlo
    } else if a == 104 && b == 101 && c == 108 && d == 111 {
        Keyword::Helo
    } else if a == 110 && b == 111 && c == 111 && d == 112 {
        Keyword::Noop
    } else if a == 104 && b == 101 && c == 108 && d == 112 {
        Keyword::Noop
    } else if a == 118 && b == 114 && c == 102 && d == 121 {
        Keyword::Noop
    } else if a == 101 && b == 120 && c == 112 && d == 110 {
        Keyword::Noop
    } else if a == 114 && b == 115 && c == 101 && d == 116 {
        Keyword::Rset
    } else if a == 97 && b == 117 && c == 116 && d == 104 {
        Keyword::Auth
    } else if a == 109 && b == 97 && c == 105 && d == 108 {
        Keyword::Mail
    } else if a == 114 && b == 99 && c == 112 && d == 116 {
        Keyword::Rcpt
    } else if a == 100 && b == 97 && c == 116 && d == 97 {
        Keyword::Data
    } else if a == 113 && b == 117 && c == 105 && d == 116 {
        Keyword::Quit
    } else {
        Keyword::Other
    }
}

/// The reverse-path argument of a MAIL command: the second token with its
/// mandatory `FROM:` prefix removed, or `None` when the token is missing,
/// lacks the prefix, or is empty after it.
pub open spec fn mail_arg(s: Seq<u8>) -> Option<Seq<u8>> {
    if has_tok2(s) && tok2(s).len() >= 6 && tok2(s)[0] == 70 && tok2(s)[1] == 82 && tok2(s)[2]
        == 79 && tok2(s)[3] == 77 && tok2(s)[4] == 58 {
        Some(tok2(s).subrange(5, tok2(s).len() as int))
    } else {
        None
    }
}

/// The forward-path argument of an RCPT command: the second token with its
/// mandatory `TO:` prefix removed, or `None` when the token is missing,
/// lacks the prefix, or is empty after it.
pub open spec fn rcpt_arg(s: Seq<u8>) -> Option<Seq<u8>> {
    if has_tok2(s) && tok2(s).len() >= 4 && tok2(s)[0] == 84 && tok2(s)[1] == 79 && tok2(s)[2]
        == 58 {
        Some(tok2(s).subrange(3, tok2(s).len() as int))
    } else {
        None
    }
}

/// One input chunk, read as a command.
pub enum Command {
    Ehlo,
    Helo,
    Noop,
    Rset,
    Auth,
    MailFrom(Option<Seq<u8>>),
    RcptTo(Option<Seq<u8>>),
    Data,
    Quit,
    Other,
}

/// How a chunk is interpreted whenever the machine is looking for a
/// command: first token selects the keyword; MAIL and RCPT carry their
/// parsed address argument.
pub open spec fn parse(s: Seq<u8>) -> Command {
    match keyword_of(tok1(s)) {
        Keyword::Ehlo => Command::Ehlo,
        Keyword::Helo => Command::Helo,
        Keyword::Noop => Command::Noop,
        Keyword::Rset => Command::Rset,
        Keyword::Auth => Command::Auth,
        Keyword::Mail => Command::MailFrom(mail_arg(s)),
        Keyword::Rcpt => Command::RcptTo(rcpt_arg(s)),
        Keyword::Data => Command::Data,
        Keyword::Quit => Command::Quit,
        Keyword::Other => Command::Other,
    }
}

/// Executable counterpart of `Command`, carrying owned argument bytes.
pub enum ParsedCommand {
    Ehlo,
    Helo,
    Noop,
    Rset,
    Auth,
    MailFrom(Option<Vec<u8>>),
    RcptTo(Option<Vec<u8>>),
    Data,
    Quit,
    Other,
}

impl View for ParsedCommand {
    type V = Command;

    open spec fn view(&self) -> Command {
        match self {
            ParsedCommand::Ehlo => Command::Ehlo,
            ParsedCommand::Helo => Command::Helo,
            ParsedCommand::Noop => Command::Noop,
            ParsedCommand::Rset => Command::Rset,
            ParsedCommand::Auth => Command::Auth,
            ParsedCommand::MailFrom(a) => Command::MailFrom(a.deep_view()),
            ParsedCommand::RcptTo(a) => Command::RcptTo(a.deep_view()),
            ParsedCommand::Data => Command::Data,
            ParsedCommand::Quit => Command::Quit,
            ParsedCommand::Other => Command::Other,
        }
    }
}

/// Copies the byte range `[i, j)` of a slice into a fresh vector.
pub fn bytes_of_range(s: &[u8], i: usize, j: usize) -> (r: Vec<u8>)
    requires
        i <= j <= s@.len(),
    ensures
        r@ == s@.subrange(i as int, j as int),
{
    slice_to_vec(slice_subrange(s, i, j))
}

/// Extracts the MAIL argument, if well formed.
fn mail_arg_at(s: &[u8], t2s: usize, t2e: usize) -> (r: Option<Vec<u8>>)
    requires
        t2s == tok2_start(s@),
        t2e == tok2_end(s@),
        t2s <= t2e <= s@.len(),
    ensures
        r.deep_view() == mail_arg(s@),
{
    if t2s >= s.len() {
        return None;
    }
    if t2e - t2s >= 6 && *slice_index_get(s, t2s) == 70 && *slice_index_get(s, t2s + 1) == 82
        && *slice_index_get(s, t2s + 2) == 79 && *slice_index_get(s, t2s + 3) == 77
        && *slice_index_get(s, t2s + 4) == 58 {
        let arg = bytes_of_range(s, t2s + 5, t2e);
        proof {
            let t = tok2(s@);
            assert(t[0] == s@[t2s as int]);
            assert(t[1] == s@[t2s as int + 1]);
            assert(t[2] == s@[t2s as int + 2]);
            assert(t[3] == s@[t2s as int + 3]);
            assert(t[4] == s@[t2s as int + 4]);
            assert(t.subrange(5, t.len() as int) =~= s@.subrange(t2s as int + 5, t2e as int));
        }
        Some(arg)
    } else {
        proof {
            if has_tok2(s@) && tok2(s@).len() >= 5 {
                let t = tok2(s@);
                assert(t[0] == s@[t2s as int]);
                assert(t[1] == s@[t2s as int + 1]);
                assert(t[2] == s@[t2s as int + 2]);
                assert(t[3] == s@[t2s as int + 3]);
                assert(t[4] == s@[t2s as int + 4]);
            }
        }
        None
    }
}

/// Extracts the RCPT argument, if well formed.
fn rcpt_arg_at(s: &[u8], t2s: usize, t2e: usize) -> (r: Option<Vec<u8>>)
    requires
        t2s == tok2_start(s@),
        t2e == tok2_end(s@),
        t2s <= t2e <= s@.len(),
    ensures
        r.deep_view() == rcpt_arg(s@),
{
    if t2s >= s.len() {
        return None;
    }
    if t2e - t2s >= 4 && *slice_index_get(s, t2s) == 84 && *slice_index_get(s, t2s + 1) == 79
        && *slice_index_get(s, t2s + 2) == 58 {
        let arg = bytes_of_range(s, t2s + 3, t2e);
        proof {
            let t = tok2(s@);
            assert(t[0] == s@[t2s as int]);
            assert(t[1] == s@[t2s as int + 1]);
            assert(t[2] == s@[t2s as int + 2]);
            assert(t.subrange(3, t.len() as int) =~= s@.subrange(t2s as int + 3, t2e as int));
        }
        Some(arg)
    } else {
        proof {
            if has_tok2(s@) && tok2(s@).len() >= 3 {
                let t = tok2(s@);
                assert(t[0] == s@[t2s as int]);
                assert(t[1] == s@[t2s as int + 1]);
                assert(t[2] == s@[t2s as int + 2]);
            }
        }
        None
    }
}

/// Reads one chunk as a command, exactly as `parse` describes it.
pub fn parse_command(s: &[u8]) -> (c: ParsedCommand)
    ensures
        c@ == parse(s@),
{
    proof {
        lemma_token_bounds(s@);
    }
    let t1s = find_token_start(s, 0);
    let t1e = find_token_end(s, t1s);
    let k = keyword_at(s, t1s, t1e);
    match k {
        Keyword::Ehlo => ParsedCommand::Ehlo,
        Keyword::Helo => ParsedCommand::Helo,
        Keyword::Noop => ParsedCommand::Noop,
        Keyword::Rset => ParsedCommand::Rset,
        Keyword::Auth => ParsedCommand::Auth,
        Keyword::Mail => {
            let t2s = find_token_start(s, t1e);
            let t2e = find_token_end(s, t2s);
            ParsedCommand::MailFrom(mail_arg_at(s, t2s, t2e))
        },
        Keyword::Rcpt => {
            let t2s = find_token_start(s, t1e);
            let t2e = find_token_end(s, t2s);
            ParsedCommand::RcptTo(rcpt_arg_at(s, t2s, t2e))
        },
        Keyword::Data => ParsedCommand::Data,
        Keyword::Quit => ParsedCommand::Quit,
        Keyword::Other => ParsedCommand::Other,
    }
}

/// True when the bytes `\r\n.\r\n` stand at position `i`.
pub open spec fn term_at(s: Seq<u8>, i: int) -> bool {
    &&& 0 <= i
    &&& i + 5 <= s.len()
    &&& s[i] == 13
    &&& s[i + 1] == 10
    &&& s[i + 2] == 46
    &&& s[i + 3] == 13
    &&& s[i + 4] == 10
}

/// Position of the first end-of-data marker at or after `i`, or -1.
pub open spec fn first_term_from(s: Seq<u8>, i: int) -> int
    decreases s.len() - i,
{
    if i + 5 > s.len() {
        -1
    } else if term_at(s, i) {
        i
    } else {
        first_term_from(s, i + 1)
    }
}

/// Whether the accumulated data contains the end-of-data marker anywhere.
pub open spec fn has_term(s: Seq<u8>) -> bool {
    first_term_from(s, 0) >= 0
}

/// The body that a completed transaction stores: everything before the
/// first end-of-data marker, or the whole accumulation when no marker was
/// ever seen (a transaction closed early keeps its partial body).
pub open spec fn body_of(s: Seq<u8>) -> Seq<u8> {
    if has_term(s) {
        s.subrange(0, first_term_from(s, 0))
    } else {
        s
    }
}

/// Finds the first end-of-data marker, if any.
pub fn find_terminator(s: &[u8]) -> (r: Option<usize>)
    ensures
        r matches Some(i) ==> first_term_from(s@, 0) == i && term_at(s@, i as int),
        r is None ==> first_term_from(s@, 0) == -1,
{
    if s.len() < 5 {
        return None;
    }
    let mut i: usize = 0;
    while i <= s.len() - 5
        invariant
            5 <= s@.len(),
            i <= s@.len(),
            first_term_from(s@, 0) == first_term_from(s@, i as int),
        decreases s@.len() - i,
    {
        if *slice_index_get(s, i) == 13 && *slice_index_get(s, i + 1) == 10 && *slice_index_get(
            s,
            i + 2,
        ) == 46 && *slice_index_get(s, i + 3) == 13 && *slice_index_get(s, i + 4) == 10 {
            proof {
                assert(term_at(s@, i as int));
            }
            return Some(i);
        }
        proof {
            assert(!term_at(s@, i as int));
        }
        i = i + 1;
    }
    None
}

/// A `Vec<u8>` views deeply the same as it views shallowly.
pub proof fn lemma_bytes_deep(v: Vec<u8>)
    ensures
        v.deep_view() == v@,
{
    assert(v.deep_view() =~= v@);
}

/// Appends a chunk to an accumulation buffer.
pub fn append_bytes(dst: &mut Vec<u8>, src: &[u8])
    ensures
        final(dst)@ == old(dst)@ + src@,
{
    let mut i: usize = 0;
    proof {
        assert(dst@ =~= dst@ + src@.subrange(0, 0));
    }
    while i < src.len()
        invariant
            i <= src@.len(),
            dst@ == old(dst)@ + src@.subrange(0, i as int),
        decreases src@.len() - i,
    {
        dst.push(*slice_index_get(src, i));
        proof {
            assert(src@.subrange(0, i as int).push(src@[i as int]) =~= src@.subrange(
                0,
                i as int + 1,
            ));
            assert(dst@ =~= old(dst)@ + src@.subrange(0, i as int + 1));
        }
        i = i + 1;
    }
    proof {
        assert(src@.subrange(0, src@.len() as int) =~= src@);
    }
}

} // verus!
