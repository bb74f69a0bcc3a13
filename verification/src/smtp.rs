//! The per-connection SMTP protocol state machine: session states, the
//! transition function `step` over them, and the executable `Session`
//! that follows it exactly.

use vstd::prelude::*;
use crate::parse::{
    append_bytes, body_of, find_terminator, has_term, lemma_bytes_deep, parse, parse_command,
    Command, ParsedCommand,
};

verus! {

/// The message being built during one SMTP transaction.
#[derive(Debug)]
pub struct Mail {
    /// Reverse path from `MAIL FROM`.
    pub from: Vec<u8>,
    /// One entry per `RCPT TO`, in arrival order, duplicates kept.
    pub to: Vec<Vec<u8>>,
    /// All data-phase input received so far, in arrival order.
    pub data: Vec<u8>,
}

/// Mathematical model of a `Mail`.
#[verifier::ext_equal]
pub struct MailModel {
    pub from: Seq<u8>,
    pub to: Seq<Seq<u8>>,
    pub data: Seq<u8>,
}

impl View for Mail {
    type V = MailModel;

    open spec fn view(&self) -> MailModel {
        MailModel { from: self.from@, to: self.to.deep_view(), data: self.data@ }
    }
}

/// The session states. A mail under construction exists only in the two
/// collecting states.
pub enum State {
    Fresh,
    Greeted,
    ReceivingRcpt(Mail),
    ReceivingData(Mail),
}

/// Mathematical model of a `State`.
#[verifier::ext_equal]
pub enum StateModel {
    Fresh,
    Greeted,
    ReceivingRcpt(MailModel),
    ReceivingData(MailModel),
}

impl View for State {
    type V = StateModel;

    open spec fn view(&self) -> StateModel {
        match self {
            State::Fresh => StateModel::Fresh,
            State::Greeted => StateModel::Greeted,
            State::ReceivingRcpt(m) => StateModel::ReceivingRcpt(m@),
            State::ReceivingData(m) => StateModel::ReceivingData(m@),
        }
    }
}

/// The closed set of wire responses. `Silent` is the sentinel meaning
/// "no response yet, await more input".
#[derive(Clone, Copy, PartialEq, Eq, Structural, Debug)]
pub enum Response {
    GenericOk,
    EhloGreeting,
    AuthOk,
    SendData,
    Bye,
    Silent,
}

/// A command that is not valid in the current state, or a malformed
/// address argument. Fatal to the session.
#[derive(Clone, Copy, PartialEq, Eq, Structural, Debug)]
pub enum SmtpError {
    ProtocolViolation,
}

/// What one step of the machine does: whether the input is accepted, the
/// state afterwards, the response, and the mail handed over for
/// persistence, if the step completes a transaction.
#[verifier::ext_equal]
pub struct Step {
    pub ok: bool,
    pub next: StateModel,
    pub resp: Response,
    pub persist: Option<MailModel>,
}

/// A rejected input: the state is kept (the session terminates anyway).
pub open spec fn reject(s: StateModel) -> Step {
    Step { ok: false, next: s, resp: Response::Silent, persist: None }
}

/// An accepted input that persists nothing.
pub open spec fn accept(next: StateModel, resp: Response) -> Step {
    Step { ok: true, next, resp, persist: None }
}

/// The transition table of the machine, over one raw input chunk.
///
/// Outside the data phase the chunk is read as a command. In the data
/// phase only the session-neutral commands and QUIT stay recognized;
/// every other chunk is body content, appended as it arrived, and
/// acknowledged only once the accumulated data holds the end-of-data
/// marker. QUIT in the data phase completes the transaction: the mail is
/// handed over with the marker and everything after it stripped.
pub open spec fn step(s: StateModel, input: Seq<u8>) -> Step {
    match (parse(input), s) {
        (Command::Ehlo, StateModel::Fresh) => accept(StateModel::Greeted, Response::EhloGreeting),
        (Command::Helo, StateModel::Fresh) => accept(StateModel::Greeted, Response::GenericOk),
        (Command::Noop, _) => accept(s, Response::GenericOk),
        (Command::Rset, _) => accept(StateModel::Fresh, Response::GenericOk),
        (Command::Auth, _) => accept(s, Response::AuthOk),
        (Command::MailFrom(arg), StateModel::Greeted) => match arg {
            Some(a) => accept(
                StateModel::ReceivingRcpt(
                    MailModel { from: a, to: Seq::empty(), data: Seq::empty() },
                ),
                Response::GenericOk,
            ),
            None => reject(s),
        },
        (Command::RcptTo(arg), StateModel::ReceivingRcpt(m)) => match arg {
            Some(a) => accept(
                StateModel::ReceivingRcpt(
                    MailModel { from: m.from, to: m.to.push(a), data: m.data },
                ),
                Response::GenericOk,
            ),
            None => reject(s),
        },
        (Command::Data, StateModel::ReceivingRcpt(m)) => if m.to.len() >= 1 {
            accept(StateModel::ReceivingData(m), Response::SendData)
        } else {
            reject(s)
        },
        (Command::Quit, StateModel::ReceivingData(m)) => Step {
            ok: true,
            next: StateModel::Fresh,
            resp: Response::Bye,
            persist: Some(MailModel { from: m.from, to: m.to, data: body_of(m.data) }),
        },
        (Command::Quit, _) => accept(StateModel::Fresh, Response::Bye),
        (_, StateModel::ReceivingData(m)) => Step {
            ok: true,
            next: StateModel::ReceivingData(
                MailModel { from: m.from, to: m.to, data: m.data + input },
            ),
            resp: if has_term(m.data + input) {
                Response::GenericOk
            } else {
                Response::Silent
            },
            persist: None,
        },
        (_, _) => reject(s),
    }
}

/// The visible outcome of one accepted step: the response to write back
/// and, when a transaction completed, the finished mail for storage.
#[derive(Debug)]
pub struct HandleOutcome {
    pub response: Response,
    pub completed: Option<Mail>,
}

/// Strips the first end-of-data marker and everything after it.
fn take_body(data: Vec<u8>) -> (r: Vec<u8>)
    ensures
        r@ == body_of(data@),
{
    let mut d = data;
    match find_terminator(d.as_slice()) {
        Some(i) => {
            d.truncate(i);
        },
        None => {},
    }
    d
}

/// One connection's protocol state.
pub struct Session {
    state: State,
}

impl View for Session {
    type V = StateModel;

    closed spec fn view(&self) -> StateModel {
        self.state@
    }
}

impl Session {
    /// A session starts out Fresh.
    pub fn new() -> (s: Session)
        ensures
            s@ == StateModel::Fresh,
    {
        Session { state: State::Fresh }
    }

    /// Feeds one raw input chunk to the machine. Exactly the accepted
    /// inputs of `step` return `Ok`; a rejected input returns the
    /// protocol violation and leaves the state as it was.
    pub fn handle(&mut self, input: &[u8]) -> (r: Result<HandleOutcome, SmtpError>)
        ensures
            ({
                let st = step(old(self)@, input@);
                &&& st.ok ==> (r matches Ok(out) && final(self)@ == st.next && out.response
                    == st.resp && (match st.persist {
                    Some(mm) => out.completed matches Some(m) && m@ == mm,
                    None => out.completed is None,
                }))
                &&& !st.ok ==> (r matches Err(e) && e == SmtpError::ProtocolViolation
                    && final(self)@ == old(self)@)
            }),
    {
        let cmd = parse_command(input);
        let mut prev = State::Fresh;
        core::mem::swap(&mut self.state, &mut prev);
        match (cmd, prev) {
            (ParsedCommand::Ehlo, State::Fresh) => {
                self.state = State::Greeted;
                Ok(HandleOutcome { response: Response::EhloGreeting, completed: None })
            },
            (ParsedCommand::Helo, State::Fresh) => {
                self.state = State::Greeted;
                Ok(HandleOutcome { response: Response::GenericOk, completed: None })
            },
            (ParsedCommand::Noop, kept) => {
                self.state = kept;
                Ok(HandleOutcome { response: Response::GenericOk, completed: None })
            },
            (ParsedCommand::Rset, _) => {
                self.state = State::Fresh;
                Ok(HandleOutcome { response: Response::GenericOk, completed: None })
            },
            (ParsedCommand::Auth, kept) => {
                self.state = kept;
                Ok(HandleOutcome { response: Response::AuthOk, completed: None })
            },
            (ParsedCommand::MailFrom(arg), State::Greeted) => match arg {
                Some(a) => {
                    let to_list: Vec<Vec<u8>> = Vec::new();
                    let data0: Vec<u8> = Vec::new();
                    proof {
                        lemma_bytes_deep(a);
                        assert(to_list.deep_view() =~= Seq::<Seq<u8>>::empty());
                    }
                    self.state = State::ReceivingRcpt(Mail { from: a, to: to_list, data: data0 });
                    Ok(HandleOutcome { response: Response::GenericOk, completed: None })
                },
                None => {
                    self.state = State::Greeted;
                    Err(SmtpError::ProtocolViolation)
                },
            },
            (ParsedCommand::RcptTo(arg), State::ReceivingRcpt(m)) => match arg {
                Some(a) => {
                    let ghost m0 = m@;
                    let ghost aa = a.deep_view();
                    let mut m2 = m;
                    m2.to.push(a);
                    proof {
                        assert(m2.to.deep_view() =~= m0.to.push(aa));
                    }
                    self.state = State::ReceivingRcpt(m2);
                    Ok(HandleOutcome { response: Response::GenericOk, completed: None })
                },
                None => {
                    self.state = State::ReceivingRcpt(m);
                    Err(SmtpError::ProtocolViolation)
                },
            },
            (ParsedCommand::Data, State::ReceivingRcpt(m)) => {
                if m.to.len() >= 1 {
                    self.state = State::ReceivingData(m);
                    Ok(HandleOutcome { response: Response::SendData, completed: None })
                } else {
                    self.state = State::ReceivingRcpt(m);
                    Err(SmtpError::ProtocolViolation)
                }
            },
            (ParsedCommand::Quit, State::ReceivingData(m)) => {
                self.state = State::Fresh;
                let done = Mail { from: m.from, to: m.to, data: take_body(m.data) };
                Ok(HandleOutcome { response: Response::Bye, completed: Some(done) })
            },
            (ParsedCommand::Quit, _) => {
                self.state = State::Fresh;
                Ok(HandleOutcome { response: Response::Bye, completed: None })
            },
            (_, State::ReceivingData(m)) => {
                let mut m2 = m;
                append_bytes(&mut m2.data, input);
                let response = if find_terminator(m2.data.as_slice()).is_some() {
                    Response::GenericOk
                } else {
                    Response::Silent
                };
                self.state = State::ReceivingData(m2);
                Ok(HandleOutcome { response, completed: None })
            },
            (_, kept) => {
                self.state = kept;
                Err(SmtpError::ProtocolViolation)
            },
        }
    }
}

/// "250 Ok\n"
pub open spec fn ok_bytes() -> Seq<u8> {
    seq![50u8, 53u8, 48u8, 32u8, 79u8, 107u8, 10u8]
}

/// "235 Ok\n"
pub open spec fn auth_ok_bytes() -> Seq<u8> {
    seq![50u8, 51u8, 53u8, 32u8, 79u8, 107u8, 10u8]
}

/// "354 End data with <CR><LF>.<CR><LF>\n"
pub open spec fn send_data_bytes() -> Seq<u8> {
    seq![
        51u8, 53u8, 52u8, 32u8, 69u8, 110u8, 100u8, 32u8, 100u8, 97u8, 116u8, 97u8, 32u8, 119u8, 105u8,
        116u8, 104u8, 32u8, 60u8, 67u8, 82u8, 62u8, 60u8, 76u8, 70u8, 62u8, 46u8, 60u8, 67u8, 82u8,
        62u8, 60u8, 76u8, 70u8, 62u8, 10u8,
    ]
}

/// "221 Bye\n"
pub open spec fn bye_bytes() -> Seq<u8> {
    seq![50u8, 50u8, 49u8, 32u8, 66u8, 121u8, 101u8, 10u8]
}

/// "220 eatmail\n", the banner written before any input is read.
pub open spec fn greeting() -> Seq<u8> {
    seq![50u8, 50u8, 48u8, 32u8, 101u8, 97u8, 116u8, 109u8, 97u8, 105u8, 108u8, 10u8]
}

/// "250-"
pub open spec fn ehlo_head() -> Seq<u8> {
    seq![50u8, 53u8, 48u8, 45u8]
}

/// " Hello "
pub open spec fn ehlo_mid() -> Seq<u8> {
    seq![32u8, 72u8, 101u8, 108u8, 108u8, 111u8, 32u8]
}

/// "\n250 AUTH PLAIN LOGIN\n"
pub open spec fn ehlo_tail() -> Seq<u8> {
    seq![
        10u8, 50u8, 53u8, 48u8, 32u8, 65u8, 85u8, 84u8, 72u8, 32u8, 80u8, 76u8, 65u8, 73u8, 78u8,
        32u8, 76u8, 79u8, 71u8, 73u8, 78u8, 10u8,
    ]
}

/// The multi-line capability block after EHLO, with the configured
/// domain spliced in.
pub open spec fn ehlo_bytes(domain: Seq<u8>) -> Seq<u8> {
    ehlo_head() + domain + ehlo_mid() + domain + ehlo_tail()
}

/// The fixed wire form of each response. `Silent` is no bytes at all.
pub open spec fn wire_of(r: Response, domain: Seq<u8>) -> Seq<u8> {
    match r {
        Response::GenericOk => ok_bytes(),
        Response::EhloGreeting => ehlo_bytes(domain),
        Response::AuthOk => auth_ok_bytes(),
        Response::SendData => send_data_bytes(),
        Response::Bye => bye_bytes(),
        Response::Silent => Seq::empty(),
    }
}

/// Renders a response as the bytes to write back on the wire.
pub fn wire_bytes(r: Response, domain: &[u8]) -> (out: Vec<u8>)
    ensures
        out@ == wire_of(r, domain@),
{
    match r {
        Response::GenericOk => {
            let mut v: Vec<u8> = Vec::new();
            v.push(50u8);
            v.push(53u8);
            v.push(48u8);
            v.push(32u8);
            v.push(79u8);
            v.push(107u8);
            v.push(10u8);
            proof {
                assert(v@ =~= ok_bytes());
            }
            v
        },
        Response::EhloGreeting => {
            let mut v: Vec<u8> = Vec::new();
            v.push(50u8);
            v.push(53u8);
            v.push(48u8);
            v.push(45u8);
            proof {
                assert(v@ =~= ehlo_head());
            }
            append_bytes(&mut v, domain);
            let mut mid: Vec<u8> = Vec::new();
            mid.push(32u8);
            mid.push(72u8);
            mid.push(101u8);
            mid.push(108u8);
            mid.push(108u8);
            mid.push(111u8);
            mid.push(32u8);
            proof {
                assert(mid@ =~= ehlo_mid());
            }
            append_bytes(&mut v, mid.as_slice());
            append_bytes(&mut v, domain);
            let mut tail: Vec<u8> = Vec::new();
            tail.push(10u8);
            tail.push(50u8);
            tail.push(53u8);
            tail.push(48u8);
            tail.push(32u8);
            tail.push(65u8);
            tail.push(85u8);
            tail.push(84u8);
            tail.push(72u8);
            tail.push(32u8);
            tail.push(80u8);
            tail.push(76u8);
            tail.push(65u8);
            tail.push(73u8);
            tail.push(78u8);
            tail.push(32u8);
            tail.push(76u8);
            tail.push(79u8);
            tail.push(71u8);
            tail.push(73u8);
            tail.push(78u8);
            tail.push(10u8);
            proof {
                assert(tail@ =~= ehlo_tail());
            }
            append_bytes(&mut v, tail.as_slice());
            v
        },
        Response::AuthOk => {
            let mut v: Vec<u8> = Vec::new();
            v.push(50u8);
            v.push(51u8);
            v.push(53u8);
            v.push(32u8);
            v.push(79u8);
            v.push(107u8);
            v.push(10u8);
            proof {
                assert(v@ =~= auth_ok_bytes());
            }
            v
        },
        Response::SendData => {
            let mut v: Vec<u8> = Vec::new();
            v.push(51u8);
            v.push(53u8);
            v.push(52u8);
            v.push(32u8);
            v.push(69u8);
            v.push(110u8);
            v.push(100u8);
            v.push(32u8);
            v.push(100u8);
            v.push(97u8);
            v.push(116u8);
            v.push(97u8);
            v.push(32u8);
            v.push(119u8);
            v.push(105u8);
            v.push(116u8);
            v.push(104u8);
            v.push(32u8);
            v.push(60u8);
            v.push(67u8);
            v.push(82u8);
            v.push(62u8);
            v.push(60u8);
            v.push(76u8);
            v.push(70u8);
            v.push(62u8);
            v.push(46u8);
            v.push(60u8);
            v.push(67u8);
            v.push(82u8);
            v.push(62u8);
            v.push(60u8);
            v.push(76u8);
            v.push(70u8);
            v.push(62u8);
            v.push(10u8);
            proof {
                assert(v@ =~= send_data_bytes());
            }
            v
        },
        Response::Bye => {
            let mut v: Vec<u8> = Vec::new();
            v.push(50u8);
            v.push(50u8);
            v.push(49u8);
            v.push(32u8);
            v.push(66u8);
            v.push(121u8);
            v.push(101u8);
            v.push(10u8);
            proof {
                assert(v@ =~= bye_bytes());
            }
            v
        },
        Response::Silent => {
            let v: Vec<u8> = Vec::new();
            proof {
                assert(v@ =~= Seq::<u8>::empty());
            }
            v
        },
    }
}

/// Renders the greeting banner sent when a connection is accepted.
pub fn greeting_bytes() -> (out: Vec<u8>)
    ensures
        out@ == greeting(),
{
    let mut v: Vec<u8> = Vec::new();
    v.push(50u8);
    v.push(50u8);
    v.push(48u8);
    v.push(32u8);
    v.push(101u8);
    v.push(97u8);
    v.push(116u8);
    v.push(109u8);
    v.push(97u8);
    v.push(105u8);
    v.push(108u8);
    v.push(10u8);
    proof {
        assert(v@ =~= greeting());
    }
    v
}

} // verus!
