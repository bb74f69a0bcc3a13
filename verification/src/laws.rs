//! Session-level laws of the protocol machine: what whole command
//! sequences do, proved from the transition function `step` alone.

use vstd::prelude::*;
use crate::parse::{body_of, has_term, parse, Command};
use crate::smtp::{step, MailModel, Response, StateModel};

verus! {

/// The fold of `step` over a sequence of input chunks: whether every
/// step was accepted, the state afterwards, and every mail handed to
/// storage, in order. A rejected chunk stops the run.
pub struct RunOutcome {
    pub ok: bool,
    pub state: StateModel,
    pub persisted: Seq<MailModel>,
}

/// A persistence decision as a (zero- or one-element) sequence.
pub open spec fn opt_to_seq(o: Option<MailModel>) -> Seq<MailModel> {
    match o {
        Some(m) => seq![m],
        None => Seq::empty(),
    }
}

pub open spec fn run(s: StateModel, inputs: Seq<Seq<u8>>) -> RunOutcome
    decreases inputs.len(),
{
    if inputs.len() == 0 {
        RunOutcome { ok: true, state: s, persisted: Seq::empty() }
    } else {
        let st = step(s, inputs[0]);
        if !st.ok {
            RunOutcome { ok: false, state: st.next, persisted: Seq::empty() }
        } else {
            let rest = run(st.next, inputs.subrange(1, inputs.len() as int));
            RunOutcome {
                ok: rest.ok,
                state: rest.state,
                persisted: opt_to_seq(st.persist) + rest.persisted,
            }
        }
    }
}

/// All chunks of a sequence, concatenated in order.
pub open spec fn concat_chunks(chunks: Seq<Seq<u8>>) -> Seq<u8>
    decreases chunks.len(),
{
    if chunks.len() == 0 {
        Seq::empty()
    } else {
        chunks[0] + concat_chunks(chunks.subrange(1, chunks.len() as int))
    }
}

/// A chunk that the data phase stores as body content: its first token
/// is none of the commands that stay recognized while data is collected.
pub open spec fn is_body_chunk(input: Seq<u8>) -> bool {
    &&& parse(input) !is Noop
    &&& parse(input) !is Rset
    &&& parse(input) !is Auth
    &&& parse(input) !is Quit
}

/// Running one chunk is one step.
pub proof fn lemma_run_one(s: StateModel, input: Seq<u8>)
    ensures
        ({
            let st = step(s, input);
            &&& run(s, seq![input]).ok == st.ok
            &&& run(s, seq![input]).state == st.next
            &&& st.ok ==> run(s, seq![input]).persisted == opt_to_seq(st.persist)
            &&& !st.ok ==> run(s, seq![input]).persisted == Seq::<MailModel>::empty()
        }),
{
    assert(seq![input].len() == 1);
    assert(seq![input][0] == input);
    assert(seq![input].subrange(1, 1) =~= Seq::<Seq<u8>>::empty());
    let st = step(s, input);
    if st.ok {
        let rest = run(st.next, seq![input].subrange(1, 1));
        assert(rest.ok && rest.state == st.next && rest.persisted == Seq::<MailModel>::empty());
        assert(opt_to_seq(st.persist) + Seq::<MailModel>::empty() =~= opt_to_seq(st.persist));
    }
}

/// A run splits at any point: the second half starts from the state the
/// first half reached, and the persisted mails are concatenated.
pub proof fn lemma_run_append(s: StateModel, xs: Seq<Seq<u8>>, ys: Seq<Seq<u8>>)
    requires
        run(s, xs).ok,
    ensures
        run(s, xs + ys).ok == run(run(s, xs).state, ys).ok,
        run(s, xs + ys).state == run(run(s, xs).state, ys).state,
        run(s, xs + ys).persisted == run(s, xs).persisted + run(run(s, xs).state, ys).persisted,
    decreases xs.len(),
{
    if xs.len() == 0 {
        assert(xs + ys =~= ys);
        assert(run(s, xs).persisted + run(s, ys).persisted =~= run(s, ys).persisted);
    } else {
        let st = step(s, xs[0]);
        let xs1 = xs.subrange(1, xs.len() as int);
        assert((xs + ys)[0] == xs[0]);
        assert((xs + ys).subrange(1, (xs + ys).len() as int) =~= xs1 + ys);
        lemma_run_append(st.next, xs1, ys);
        let mid = run(st.next, xs1);
        let tail = run(run(s, xs).state, ys);
        assert(opt_to_seq(st.persist) + (mid.persisted + tail.persisted) =~= (opt_to_seq(st.persist)
            + mid.persisted) + tail.persisted);
    }
}

/// Recipients accumulate: while collecting recipients, a sequence of
/// well-formed RCPT TO commands is accepted, appends exactly its
/// addresses, in arrival order, and persists nothing.
pub proof fn lemma_rcpt_accumulation(m: MailModel, rs: Seq<Seq<u8>>, addrs: Seq<Seq<u8>>)
    requires
        rs.len() == addrs.len(),
        forall|i: int|
            0 <= i < rs.len() ==> #[trigger] parse(rs[i]) == Command::RcptTo(Some(addrs[i])),
    ensures
        run(StateModel::ReceivingRcpt(m), rs).ok,
        run(StateModel::ReceivingRcpt(m), rs).state == StateModel::ReceivingRcpt(
            MailModel { from: m.from, to: m.to + addrs, data: m.data },
        ),
        run(StateModel::ReceivingRcpt(m), rs).persisted == Seq::<MailModel>::empty(),
    decreases rs.len(),
{
    if rs.len() == 0 {
        assert(m.to + addrs =~= m.to);
        assert(MailModel { from: m.from, to: m.to + addrs, data: m.data } =~= m);
    } else {
        assert(parse(rs[0]) == Command::RcptTo(Some(addrs[0])));
        let st = step(StateModel::ReceivingRcpt(m), rs[0]);
        let m2 = MailModel { from: m.from, to: m.to.push(addrs[0]), data: m.data };
        assert(st.ok && st.next == StateModel::ReceivingRcpt(m2) && st.persist is None);
        let rs1 = rs.subrange(1, rs.len() as int);
        let ad1 = addrs.subrange(1, addrs.len() as int);
        assert forall|i: int| 0 <= i < rs1.len() implies #[trigger] parse(rs1[i])
            == Command::RcptTo(Some(ad1[i])) by {
            assert(rs1[i] == rs[i + 1]);
            assert(ad1[i] == addrs[i + 1]);
            assert(parse(rs[i + 1]) == Command::RcptTo(Some(addrs[i + 1])));
        }
        lemma_rcpt_accumulation(m2, rs1, ad1);
        assert(m2.to + ad1 =~= m.to + addrs);
        assert(MailModel { from: m.from, to: m2.to + ad1, data: m.data } =~= MailModel {
            from: m.from,
            to: m.to + addrs,
            data: m.data,
        });
        assert(opt_to_seq(st.persist) + run(StateModel::ReceivingRcpt(m2), rs1).persisted
            =~= Seq::<MailModel>::empty());
    }
}

/// Body content accumulates: in the data phase, a sequence of body
/// chunks is accepted, appends exactly its bytes in arrival order, and
/// persists nothing.
pub proof fn lemma_data_accumulation(m: MailModel, bs: Seq<Seq<u8>>)
    requires
        forall|i: int| 0 <= i < bs.len() ==> is_body_chunk(#[trigger] bs[i]),
    ensures
        run(StateModel::ReceivingData(m), bs).ok,
        run(StateModel::ReceivingData(m), bs).state == StateModel::ReceivingData(
            MailModel { from: m.from, to: m.to, data: m.data + concat_chunks(bs) },
        ),
        run(StateModel::ReceivingData(m), bs).persisted == Seq::<MailModel>::empty(),
    decreases bs.len(),
{
    if bs.len() == 0 {
        assert(m.data + concat_chunks(bs) =~= m.data);
        assert(MailModel { from: m.from, to: m.to, data: m.data + concat_chunks(bs) } =~= m);
    } else {
        assert(is_body_chunk(bs[0]));
        let st = step(StateModel::ReceivingData(m), bs[0]);
        let m2 = MailModel { from: m.from, to: m.to, data: m.data + bs[0] };
        assert(st.ok && st.next == StateModel::ReceivingData(m2) && st.persist is None);
        let bs1 = bs.subrange(1, bs.len() as int);
        assert forall|i: int| 0 <= i < bs1.len() implies is_body_chunk(#[trigger] bs1[i]) by {
            assert(bs1[i] == bs[i + 1]);
            assert(is_body_chunk(bs[i + 1]));
        }
        lemma_data_accumulation(m2, bs1);
        assert(m2.data + concat_chunks(bs1) =~= m.data + concat_chunks(bs));
        assert(MailModel { from: m.from, to: m.to, data: m2.data + concat_chunks(bs1) }
            =~= MailModel { from: m.from, to: m.to, data: m.data + concat_chunks(bs) });
        assert(opt_to_seq(st.persist) + run(StateModel::ReceivingData(m2), bs1).persisted
            =~= Seq::<MailModel>::empty());
    }
}

/// Every complete transaction persists exactly one mail. For any script
/// of a greeting, a well-formed MAIL FROM, one or more well-formed RCPT
/// TO commands, DATA, any body chunks, and QUIT, the machine accepts
/// every chunk, returns to Fresh, and hands exactly one mail to storage:
/// its sender is the MAIL FROM address, its recipients are the RCPT TO
/// addresses in arrival order, and its body is the accumulated data with
/// the end-of-data marker and everything after it stripped.
pub proof fn lemma_complete_transaction(
    hello: Seq<u8>,
    mailc: Seq<u8>,
    sender: Seq<u8>,
    rcpts: Seq<Seq<u8>>,
    addrs: Seq<Seq<u8>>,
    datac: Seq<u8>,
    body_chunks: Seq<Seq<u8>>,
    quitc: Seq<u8>,
)
    requires
        parse(hello) == Command::Ehlo || parse(hello) == Command::Helo,
        parse(mailc) == Command::MailFrom(Some(sender)),
        rcpts.len() == addrs.len(),
        rcpts.len() >= 1,
        forall|i: int|
            0 <= i < rcpts.len() ==> #[trigger] parse(rcpts[i]) == Command::RcptTo(
                Some(addrs[i]),
            ),
        parse(datac) == Command::Data,
        forall|i: int| 0 <= i < body_chunks.len() ==> is_body_chunk(#[trigger] body_chunks[i]),
        parse(quitc) == Command::Quit,
    ensures
        ({
            let script = seq![hello, mailc] + rcpts + seq![datac] + body_chunks + seq![quitc];
            &&& run(StateModel::Fresh, script).ok
            &&& run(StateModel::Fresh, script).state == StateModel::Fresh
            &&& run(StateModel::Fresh, script).persisted == seq![
                MailModel { from: sender, to: addrs, data: body_of(concat_chunks(body_chunks)) },
            ]
        }),
{
    let script = seq![hello, mailc] + rcpts + seq![datac] + body_chunks + seq![quitc];
    let r4 = body_chunks + seq![quitc];
    let r3 = seq![datac] + r4;
    let r2 = rcpts + r3;
    let r1 = seq![mailc] + r2;
    assert(script =~= seq![hello] + r1);

    let s0 = StateModel::Fresh;
    let st1 = step(s0, hello);
    assert(st1.ok && st1.next == StateModel::Greeted && st1.persist is None);
    lemma_run_one(s0, hello);
    lemma_run_append(s0, seq![hello], r1);

    let mail0 = MailModel { from: sender, to: Seq::empty(), data: Seq::empty() };
    let st2 = step(StateModel::Greeted, mailc);
    assert(st2.ok && st2.next == StateModel::ReceivingRcpt(mail0) && st2.persist is None);
    lemma_run_one(StateModel::Greeted, mailc);
    lemma_run_append(StateModel::Greeted, seq![mailc], r2);

    lemma_rcpt_accumulation(mail0, rcpts, addrs);
    let mail1 = MailModel { from: sender, to: addrs, data: Seq::empty() };
    assert(mail0.to + addrs =~= addrs);
    assert(MailModel { from: mail0.from, to: mail0.to + addrs, data: mail0.data } =~= mail1);
    lemma_run_append(StateModel::ReceivingRcpt(mail0), rcpts, r3);

    let st3 = step(StateModel::ReceivingRcpt(mail1), datac);
    assert(st3.ok && st3.next == StateModel::ReceivingData(mail1) && st3.persist is None);
    lemma_run_one(StateModel::ReceivingRcpt(mail1), datac);
    lemma_run_append(StateModel::ReceivingRcpt(mail1), seq![datac], r4);

    lemma_data_accumulation(mail1, body_chunks);
    let mail2 = MailModel { from: sender, to: addrs, data: concat_chunks(body_chunks) };
    assert(mail1.data + concat_chunks(body_chunks) =~= concat_chunks(body_chunks));
    assert(MailModel {
        from: mail1.from,
        to: mail1.to,
        data: mail1.data + concat_chunks(body_chunks),
    } =~= mail2);

    let st4 = step(StateModel::ReceivingData(mail2), quitc);
    let stored = MailModel { from: sender, to: addrs, data: body_of(mail2.data) };
    assert(st4.ok && st4.next == StateModel::Fresh && st4.persist == Some(stored));
    lemma_run_one(StateModel::ReceivingData(mail2), quitc);

    lemma_run_append(StateModel::ReceivingData(mail1), body_chunks, seq![quitc]);
    assert(run(s0, script).ok);
    assert(run(s0, script).state == StateModel::Fresh);
    assert(run(s0, script).persisted =~= seq![stored]);
}

/// No acknowledgment before the marker: however the transport fragments
/// the data, a body chunk is accepted silently for as long as the
/// accumulated data still lacks the end-of-data marker, and acknowledged
/// as soon as it holds one.
pub proof fn lemma_data_acknowledgment(m: MailModel, input: Seq<u8>)
    requires
        is_body_chunk(input),
    ensures
        step(StateModel::ReceivingData(m), input).ok,
        step(StateModel::ReceivingData(m), input).resp == (if has_term(m.data + input) {
            Response::GenericOk
        } else {
            Response::Silent
        }),
        step(StateModel::ReceivingData(m), input).persist is None,
{
}

/// MAIL FROM before any greeting is rejected: the step fails, no mail is
/// created, nothing is persisted, the state stays Fresh.
pub proof fn lemma_mail_before_greeting(input: Seq<u8>)
    requires
        parse(input) matches Command::MailFrom(_),
    ensures
        !step(StateModel::Fresh, input).ok,
        step(StateModel::Fresh, input).next == StateModel::Fresh,
        step(StateModel::Fresh, input).persist is None,
{
}

/// DATA with no recipients collected yet is rejected: the step fails,
/// nothing is persisted, the mail under construction is kept as it was.
pub proof fn lemma_data_without_recipients(m: MailModel, input: Seq<u8>)
    requires
        parse(input) == Command::Data,
        m.to.len() == 0,
    ensures
        !step(StateModel::ReceivingRcpt(m), input).ok,
        step(StateModel::ReceivingRcpt(m), input).next == StateModel::ReceivingRcpt(m),
        step(StateModel::ReceivingRcpt(m), input).persist is None,
{
}

/// RSET from any state is accepted, discards any mail in progress
/// without persisting it, and returns the session to Fresh; whatever
/// follows runs exactly as from a fresh session.
pub proof fn lemma_rset(s: StateModel, input: Seq<u8>, rest: Seq<Seq<u8>>)
    requires
        parse(input) == Command::Rset,
    ensures
        step(s, input).ok,
        step(s, input).next == StateModel::Fresh,
        step(s, input).persist is None,
        run(s, seq![input] + rest).ok == run(StateModel::Fresh, rest).ok,
        run(s, seq![input] + rest).state == run(StateModel::Fresh, rest).state,
        run(s, seq![input] + rest).persisted == run(StateModel::Fresh, rest).persisted,
{
    lemma_run_one(s, input);
    lemma_run_append(s, seq![input], rest);
    assert(Seq::<MailModel>::empty() + run(StateModel::Fresh, rest).persisted =~= run(
        StateModel::Fresh,
        rest,
    ).persisted);
}

} // verus!
