//! An embeddable inbound-mail protocol engine: it parses wire-level mail
//! commands, sequences them through a per-connection session state machine,
//! accumulates a size-bounded message body, and hands each completed message
//! to a caller-supplied event sink.
//!
//! The engine itself performs no I/O. A connection driver reads bytes from
//! its transport, feeds lines to [`State::handle_line`] while in command mode
//! and raw chunks to [`State::feed_chunk`] while a body is being collected,
//! writes back the replies it is handed, asks its recipient validator about
//! each address the engine surfaces, and finally turns a completed session
//! into an [`Email`] with [`build_email`].

pub mod event;
pub mod messages;

use vstd::prelude::*;

use crate::messages::{parse_spec, CmdModel, Command, Reply, ReplyModel};

verus! {

/// Upper bound, in bytes, on an accumulated message body.
pub const MAX_SIZE: usize = 65536;

// ---------------------------------------------------------------------------
// Session state and its model
// ---------------------------------------------------------------------------

/// The mathematical value of a session state.
#[verifier::ext_equal]
pub ghost struct StateModel {
    /// The accepted greeting asked for extension negotiation.
    pub esmtp: bool,
    /// A greeting has been accepted.
    pub greeting_done: bool,
    /// The conversation has reached a terminal point (body completed or quit).
    pub finished: bool,
    /// The declared sender, once accepted.
    pub mail_from: Option<Seq<char>>,
    /// The accepted recipients, in arrival order.
    pub rcpt_to: Seq<Seq<char>>,
    /// Raw input is being collected as message body.
    pub waiting_for_data: bool,
    /// The body collected so far.
    pub data: Seq<u8>,
}

/// Per-connection protocol state, owned by exactly one connection driver.
#[derive(Debug, Clone)]
pub struct State {
    /// The accepted greeting asked for extension negotiation.
    pub esmtp: bool,
    /// A greeting has been accepted.
    pub greeting_done: bool,
    /// The conversation has reached a terminal point (body completed or quit).
    pub finished: bool,
    /// The declared sender, once accepted.
    pub mail_from: Option<String>,
    /// The accepted recipients, in arrival order.
    pub rcpt_to: Vec<String>,
    /// Raw input is being collected as message body.
    pub waiting_for_data: bool,
    /// The body collected so far.
    pub data: Vec<u8>,
}

impl View for State {
    type V = StateModel;

    open spec fn view(&self) -> StateModel {
        StateModel {
            esmtp: self.esmtp,
            greeting_done: self.greeting_done,
            finished: self.finished,
            mail_from: self.mail_from.deep_view(),
            rcpt_to: self.rcpt_to.deep_view(),
            waiting_for_data: self.waiting_for_data,
            data: self.data@,
        }
    }
}

/// The invariants every reachable session state satisfies: a sender needs a
/// greeting, recipients need a sender, body collection needs a recipient, and
/// the body never exceeds the configured bound.
pub open spec fn wf_model(m: StateModel) -> bool {
    &&& m.mail_from is Some ==> m.greeting_done
    &&& m.rcpt_to.len() > 0 ==> m.mail_from is Some
    &&& m.waiting_for_data ==> m.rcpt_to.len() > 0
    &&& m.data.len() <= MAX_SIZE
}

/// The state of a session on which nothing has happened yet.
pub open spec fn init_model() -> StateModel {
    StateModel {
        esmtp: false,
        greeting_done: false,
        finished: false,
        mail_from: None,
        rcpt_to: Seq::empty(),
        waiting_for_data: false,
        data: Seq::empty(),
    }
}

// ---------------------------------------------------------------------------
// Command outcomes and the transition function
// ---------------------------------------------------------------------------

/// The mathematical value of a command outcome.
#[verifier::ext_equal]
pub ghost enum OutcomeModel {
    /// Answer the peer with this reply.
    Reply(ReplyModel),
    /// Ask the recipient validator about this address, then resolve.
    Validate(Seq<char>),
}

/// What processing one command asks the connection driver to do.
#[derive(Debug, PartialEq, Eq, Clone)]
pub enum CmdOutcome {
    /// Answer the peer with this reply.
    Reply(Reply),
    /// Ask the recipient validator about this address, then call
    /// [`State::resolve_rcpt`] with its verdict.
    Validate(String),
}

impl View for CmdOutcome {
    type V = OutcomeModel;

    open spec fn view(&self) -> OutcomeModel {
        match self {
            CmdOutcome::Reply(r) => OutcomeModel::Reply(r@),
            CmdOutcome::Validate(e) => OutcomeModel::Validate(e@),
        }
    }
}

/// A state transition: the state after a command, and what the driver is
/// asked to do.
#[verifier::ext_equal]
pub ghost struct Step {
    pub post: StateModel,
    pub out: OutcomeModel,
}

/// The transition table of the protocol: what one parsed command does to a
/// session, and what is answered. Recipient commands that pass the sequencing
/// checks do not change the state here; they surface the address for
/// validation, and `rcpt_step` resolves the verdict.
pub open spec fn step_spec(pre: StateModel, cmd: CmdModel) -> Step {
    match cmd {
        CmdModel::Helo { fqdn } => Step {
            post: StateModel { greeting_done: true, esmtp: false, ..pre },
            out: OutcomeModel::Reply(ReplyModel::Helo { fqdn }),
        },
        CmdModel::Ehlo { fqdn } => Step {
            post: StateModel { greeting_done: true, esmtp: true, ..pre },
            out: OutcomeModel::Reply(ReplyModel::Ehlo { fqdn }),
        },
        CmdModel::MailFrom { email } => if !pre.greeting_done {
            Step { post: pre, out: OutcomeModel::Reply(ReplyModel::BadSequence) }
        } else {
            Step {
                post: StateModel { mail_from: Some(email), ..pre },
                out: OutcomeModel::Reply(ReplyModel::Accepted),
            }
        },
        CmdModel::RcptTo { email } => if !pre.greeting_done || pre.mail_from is None {
            Step { post: pre, out: OutcomeModel::Reply(ReplyModel::BadSequence) }
        } else {
            Step { post: pre, out: OutcomeModel::Validate(email) }
        },
        CmdModel::Data => if !pre.greeting_done || pre.mail_from is None || pre.rcpt_to.len()
            == 0 {
            Step { post: pre, out: OutcomeModel::Reply(ReplyModel::BadSequence) }
        } else {
            Step {
                post: StateModel { waiting_for_data: true, ..pre },
                out: OutcomeModel::Reply(ReplyModel::StartData),
            }
        },
        CmdModel::Help => Step { post: pre, out: OutcomeModel::Reply(ReplyModel::Help) },
        CmdModel::NoOp => Step { post: pre, out: OutcomeModel::Reply(ReplyModel::Accepted) },
        CmdModel::Rset => Step {
            post: StateModel {
                mail_from: None,
                rcpt_to: Seq::empty(),
                data: Seq::empty(),
                waiting_for_data: false,
                ..pre
            },
            out: OutcomeModel::Reply(ReplyModel::Accepted),
        },
        CmdModel::Quit => Step {
            post: StateModel { finished: true, ..pre },
            out: OutcomeModel::Reply(ReplyModel::Bye),
        },
    }
}

/// Resolution of a surfaced recipient: the validator's verdict either appends
/// the address or leaves the session untouched.
pub open spec fn rcpt_step(pre: StateModel, email: Seq<char>, ok: bool) -> Step {
    if ok {
        Step {
            post: StateModel { rcpt_to: pre.rcpt_to.push(email), ..pre },
            out: OutcomeModel::Reply(ReplyModel::Accepted),
        }
    } else {
        Step { post: pre, out: OutcomeModel::Reply(ReplyModel::UserUnknown) }
    }
}

/// What one line of input does to a session: the parsed command's transition,
/// or an unchanged session and a rejection for an unparseable line.
pub open spec fn line_spec(pre: StateModel, line: Seq<char>) -> Step {
    match parse_spec(line) {
        Some(c) => step_spec(pre, c),
        None => Step { post: pre, out: OutcomeModel::Reply(ReplyModel::Unrecognized) },
    }
}

impl State {
    /// Whether this state satisfies the session invariants.
    pub open spec fn wf(&self) -> bool {
        wf_model(self@)
    }

    /// A fresh session: nothing greeted, nothing declared, nothing collected.
    pub fn new() -> (s: State)
        ensures
            s@ == init_model(),
            s.wf(),
    {
        let s = State {
            esmtp: false,
            greeting_done: false,
            finished: false,
            mail_from: None,
            rcpt_to: Vec::new(),
            waiting_for_data: false,
            data: Vec::new(),
        };
        proof {
            assert(s@ =~= init_model());
        }
        s
    }

    /// Apply one parsed command to the session, following the transition
    /// table `step_spec`.
    pub fn handle_command(&mut self, cmd: Command) -> (r: CmdOutcome)
        requires
            old(self).wf(),
            !old(self)@.waiting_for_data,
        ensures
            final(self)@ == step_spec(old(self)@, cmd@).post,
            r@ == step_spec(old(self)@, cmd@).out,
            final(self).wf(),
            final(self)@.waiting_for_data ==> (cmd@ matches CmdModel::Data),
    {
        let ghost pre = self@;
        match cmd {
            Command::Helo { fqdn } => {
                let ghost f = fqdn@;
                self.greeting_done = true;
                self.esmtp = false;
                proof {
                    assert(self@ =~= step_spec(pre, CmdModel::Helo { fqdn: f }).post);
                }
                CmdOutcome::Reply(Reply::Helo { fqdn })
            },
            Command::Ehlo { fqdn } => {
                let ghost f = fqdn@;
                self.greeting_done = true;
                self.esmtp = true;
                proof {
                    assert(self@ =~= step_spec(pre, CmdModel::Ehlo { fqdn: f }).post);
                }
                CmdOutcome::Reply(Reply::Ehlo { fqdn })
            },
            Command::MailFrom { email } => {
                if !self.greeting_done {
                    CmdOutcome::Reply(Reply::BadSequence)
                } else {
                    let ghost e = email@;
                    self.mail_from = Some(email);
                    proof {
                        assert(self@ =~= step_spec(pre, CmdModel::MailFrom { email: e }).post);
                    }
                    CmdOutcome::Reply(Reply::Accepted)
                }
            },
            Command::RcptTo { email } => {
                if !self.greeting_done || self.mail_from.is_none() {
                    CmdOutcome::Reply(Reply::BadSequence)
                } else {
                    CmdOutcome::Validate(email)
                }
            },
            Command::Data => {
                if !self.greeting_done || self.mail_from.is_none() || self.rcpt_to.is_empty() {
                    CmdOutcome::Reply(Reply::BadSequence)
                } else {
                    self.waiting_for_data = true;
                    proof {
                        assert(self@ =~= step_spec(pre, CmdModel::Data).post);
                    }
                    CmdOutcome::Reply(Reply::StartData)
                }
            },
            Command::Help => CmdOutcome::Reply(Reply::Help),
            Command::NoOp => CmdOutcome::Reply(Reply::Accepted),
            Command::Rset => {
                self.mail_from = None;
                self.rcpt_to.clear();
                self.data.clear();
                self.waiting_for_data = false;
                proof {
                    assert(self@ =~= step_spec(pre, CmdModel::Rset).post);
                }
                CmdOutcome::Reply(Reply::Accepted)
            },
            Command::Quit => {
                self.finished = true;
                proof {
                    assert(self@ =~= step_spec(pre, CmdModel::Quit).post);
                }
                CmdOutcome::Reply(Reply::Bye)
            },
        }
    }

    /// Apply the recipient validator's verdict for an address surfaced by a
    /// recipient command: appended on acceptance, refused without any state
    /// change otherwise.
    pub fn resolve_rcpt(&mut self, email: String, ok: bool) -> (r: Reply)
        requires
            old(self).wf(),
            old(self)@.greeting_done,
            old(self)@.mail_from is Some,
        ensures
            final(self)@ == rcpt_step(old(self)@, email@, ok).post,
            OutcomeModel::Reply(r@) == rcpt_step(old(self)@, email@, ok).out,
            final(self).wf(),
            final(self)@.waiting_for_data == old(self)@.waiting_for_data,
    {
        let ghost pre = self@;
        if ok {
            let ghost e = email@;
            self.rcpt_to.push(email);
            proof {
                assert(self@ =~= rcpt_step(pre, e, true).post);
            }
            Reply::Accepted
        } else {
            Reply::UserUnknown
        }
    }

    /// Parse one line of input and apply it to the session. An unparseable
    /// line leaves the session unchanged and is answered with a rejection.
    pub fn handle_line(&mut self, line: &str) -> (r: CmdOutcome)
        requires
            old(self).wf(),
            !old(self)@.waiting_for_data,
        ensures
            final(self)@ == line_spec(old(self)@, line@).post,
            r@ == line_spec(old(self)@, line@).out,
            final(self).wf(),
    {
        match Command::from_smtp_message(line) {
            Some(cmd) => self.handle_command(cmd),
            None => CmdOutcome::Reply(Reply::Unrecognized),
        }
    }
}

// ---------------------------------------------------------------------------
// Body framing
// ---------------------------------------------------------------------------

/// The five-byte body terminator: line end, single dot, line end.
pub open spec fn term_bytes() -> Seq<u8> {
    seq![13u8, 10u8, 46u8, 13u8, 10u8]
}

/// Whether `s` ends with the body terminator.
pub open spec fn ends_with_term(s: Seq<u8>) -> bool {
    s.len() >= 5 && s.subrange(s.len() - 5, s.len() as int) == term_bytes()
}

/// The mathematical value of feeding one raw chunk to a collecting session:
/// the body afterwards, whether the terminator was observed, and the reply
/// owed to the peer, if any.
///
/// If the body extended by the chunk ends in the terminator, the message is
/// complete: the final dot line (the last three bytes) is stripped, so the
/// body keeps the line end that closed its last line; unless the remainder
/// would exceed the bound, in which case the chunk is refused. Otherwise the
/// chunk is appended, unless that would exceed the bound, in which case it is
/// refused and collection continues.
pub open spec fn feed_spec(body: Seq<u8>, chunk: Seq<u8>) -> (Seq<u8>, bool, Option<ReplyModel>) {
    let cand = body + chunk;
    if ends_with_term(cand) {
        if cand.len() - 3 > MAX_SIZE {
            (body, false, Some(ReplyModel::TooLarge))
        } else {
            (cand.subrange(0, cand.len() - 3), true, Some(ReplyModel::Accepted))
        }
    } else {
        if cand.len() > MAX_SIZE {
            (body, false, Some(ReplyModel::TooLarge))
        } else {
            (cand, false, None)
        }
    }
}

impl State {
    /// Feed one raw chunk of input to a session that is collecting a body.
    /// The terminator is detected even when it spans chunk boundaries, and a
    /// chunk that would push the body past the bound is refused whole, with
    /// collection kept alive for a retry.
    pub fn feed_chunk(&mut self, chunk: &[u8]) -> (r: Option<Reply>)
        requires
            old(self).wf(),
            old(self)@.waiting_for_data,
            chunk@.len() <= MAX_SIZE,
        ensures
            ({
                let (nbody, done, reply) = feed_spec(old(self)@.data, chunk@);
                &&& final(self)@.data == nbody
                &&& final(self)@.waiting_for_data == !done
                &&& final(self)@.finished == (old(self)@.finished || done)
                &&& match (r, reply) {
                    (Some(rr), Some(rm)) => rr@ == rm,
                    (None, None) => true,
                    _ => false,
                }
            }),
            final(self)@.esmtp == old(self)@.esmtp,
            final(self)@.greeting_done == old(self)@.greeting_done,
            final(self)@.mail_from == old(self)@.mail_from,
            final(self)@.rcpt_to == old(self)@.rcpt_to,
            final(self).wf(),
    {
        let old_len = self.data.len();
        let ghost pre = self@;
        self.data.extend_from_slice(chunk);
        proof {
            assert(self@.data =~= pre.data + chunk@);
        }
        let total = self.data.len();
        if has_term_suffix(&self.data) {
            if total - 3 > MAX_SIZE {
                self.data.truncate(old_len);
                proof {
                    assert(self@.data =~= pre.data);
                }
                Some(Reply::TooLarge)
            } else {
                self.data.truncate(total - 3);
                self.waiting_for_data = false;
                self.finished = true;
                Some(Reply::Accepted)
            }
        } else {
            if total > MAX_SIZE {
                self.data.truncate(old_len);
                proof {
                    assert(self@.data =~= pre.data);
                }
                Some(Reply::TooLarge)
            } else {
                None
            }
        }
    }
}

/// Whether the buffer currently ends with the body terminator.
fn has_term_suffix(data: &Vec<u8>) -> (r: bool)
    ensures
        r == ends_with_term(data@),
{
    let n = data.len();
    if n < 5 {
        return false;
    }
    let r = data[n - 5] == 13u8 && data[n - 4] == 10u8 && data[n - 3] == 46u8 && data[n - 2]
        == 13u8 && data[n - 1] == 10u8;
    proof {
        if r {
            assert(data@.subrange(data@.len() - 5, data@.len() as int) =~= term_bytes());
        } else {
            assert(data@.subrange(data@.len() - 5, data@.len() as int) != term_bytes());
        }
    }
    r
}

// ---------------------------------------------------------------------------
// Laws of the state machine
// ---------------------------------------------------------------------------

/// A recipient command before any accepted sender is refused as out of
/// sequence and does not change the session; in particular the recipient
/// list is untouched.
pub proof fn lemma_rcpt_requires_sender(pre: StateModel, email: Seq<char>)
    requires
        pre.mail_from is None,
    ensures
        step_spec(pre, CmdModel::RcptTo { email }).post == pre,
        step_spec(pre, CmdModel::RcptTo { email }).out == OutcomeModel::Reply(
            ReplyModel::BadSequence,
        ),
{
}

/// A data command before any accepted recipient is refused as out of
/// sequence and does not change the session: body collection never starts.
pub proof fn lemma_data_requires_rcpt(pre: StateModel)
    requires
        pre.rcpt_to.len() == 0,
    ensures
        step_spec(pre, CmdModel::Data).post == pre,
        step_spec(pre, CmdModel::Data).out == OutcomeModel::Reply(ReplyModel::BadSequence),
{
}

/// The validator gates the recipient list: a rejected address is never
/// appended and is answered "user unknown", while an accepted address is
/// appended at the end with everything else untouched. A rejection leaves
/// the session exactly as it was, so a later accepted address still succeeds.
pub proof fn lemma_validator_gates(pre: StateModel, email: Seq<char>)
    ensures
        rcpt_step(pre, email, false).post == pre,
        rcpt_step(pre, email, false).out == OutcomeModel::Reply(ReplyModel::UserUnknown),
        rcpt_step(pre, email, true).post == (StateModel {
            rcpt_to: pre.rcpt_to.push(email),
            ..pre
        }),
        rcpt_step(pre, email, true).out == OutcomeModel::Reply(ReplyModel::Accepted),
{
}

/// A reset always yields the session that has kept only its greeting: no
/// sender, no recipients, no body, not collecting; and a second reset on
/// that session changes nothing.
pub proof fn lemma_reset_idempotent(pre: StateModel)
    ensures
        ({
            let one = step_spec(pre, CmdModel::Rset).post;
            &&& one.mail_from is None
            &&& one.rcpt_to.len() == 0
            &&& one.data.len() == 0
            &&& !one.waiting_for_data
            &&& one.greeting_done == pre.greeting_done
            &&& one.esmtp == pre.esmtp
            &&& one.finished == pre.finished
            &&& step_spec(one, CmdModel::Rset).post == one
        }),
{
    let one = step_spec(pre, CmdModel::Rset).post;
    assert(step_spec(one, CmdModel::Rset).post =~= one);
}

/// Splitting a chunk in two changes nothing, as long as the first piece does
/// not itself complete the body and no piece is refused for size: the
/// terminator is detected across chunk boundaries, and the assembled body is
/// the one the concatenated input yields. (When a piece is refused, what the
/// session retains does depend on the chunking, so refusals are excluded.)
pub proof fn lemma_feed_split(body: Seq<u8>, c1: Seq<u8>, c2: Seq<u8>)
    requires
        !ends_with_term(body + c1),
        (body + c1).len() <= MAX_SIZE,
        ends_with_term(body + c1 + c2) ==> (body + c1 + c2).len() <= MAX_SIZE + 3,
        !ends_with_term(body + c1 + c2) ==> (body + c1 + c2).len() <= MAX_SIZE,
    ensures
        feed_spec(feed_spec(body, c1).0, c2) == feed_spec(body, c1 + c2),
{
    assert(feed_spec(body, c1).0 == body + c1);
    assert(body + c1 + c2 =~= body + (c1 + c2));
    assert(feed_spec(feed_spec(body, c1).0, c2) =~= feed_spec(body, c1 + c2));
}

// ---------------------------------------------------------------------------
// Errors, assembled messages
// ---------------------------------------------------------------------------

/// Why a connection or a completed conversation could not yield a message.
#[derive(Debug, Clone, PartialEq, Eq)]
pub enum Error {
    /// The transport failed; carries the reported reason.
    NetworkError(String),
    /// The conversation completed without an accepted sender.
    MailFromMissing,
    /// The conversation completed without any accepted recipient.
    RcptToMissing,
    /// The conversation completed without a message body.
    DataMissing,
}

impl Error {
    /// A human-readable description of this error.
    pub fn message(&self) -> (r: String)
        ensures
            r@ == error_message_spec(self),
    {
        match self {
            Error::NetworkError(e) => {
                let mut s = String::from_str("network error: ");
                s.append(e.as_str());
                s
            },
            Error::MailFromMissing => String::from_str("mail from missing"),
            Error::RcptToMissing => String::from_str("rcpt to missing"),
            Error::DataMissing => String::from_str("data missing"),
        }
    }
}

/// The text of each error description.
pub open spec fn error_message_spec(e: &Error) -> Seq<char> {
    match e {
        Error::NetworkError(s) => "network error: "@ + s@,
        Error::MailFromMissing => "mail from missing"@,
        Error::RcptToMissing => "rcpt to missing"@,
        Error::DataMissing => "data missing"@,
    }
}

/// A fully received message, immutable once constructed.
#[derive(Debug, Clone)]
pub struct Email {
    /// The accepted sender address, casing preserved.
    pub mail_from: String,
    /// The accepted recipient addresses, in arrival order.
    pub rcpt_to: Vec<String>,
    /// The message body, decoded leniently from the collected bytes.
    pub data: String,
    /// An opaque identifier, unique per constructed message.
    pub id: String,
}

/// The characters that `String::from_utf8_lossy` decodes the given bytes to.
pub uninterp spec fn utf8_lossy_of(bytes: Seq<u8>) -> Seq<char>;

/// Relies on `String::from_utf8_lossy`: the result is a function of the bytes
/// alone, valid UTF-8 decodes exactly, and empty input decodes to the empty
/// string.
#[verifier::external_body]
fn bytes_to_text(bytes: &[u8]) -> (r: String)
    ensures
        r@ == utf8_lossy_of(bytes@),
        vstd::utf8::valid_utf8(bytes@) ==> r@ == vstd::utf8::decode_utf8(bytes@),
        bytes@.len() == 0 ==> r@.len() == 0,
{
    String::from_utf8_lossy(bytes).to_string()
}

/// Relies on `nanoid::format` with the default generator and alphabet: a
/// fresh 21-character URL-safe id.
#[verifier::external_body]
fn fresh_id() -> (r: String)
    ensures
        r@.len() == 21,
{
    nanoid::format(nanoid::rngs::default, &nanoid::alphabet::SAFE, 21)
}

/// Assemble the message of a completed conversation, or report which part of
/// the transaction is missing: recipients are checked first, then the body,
/// then the sender.
pub fn build_email(state: &State) -> (r: Result<Email, Error>)
    requires
        state@.finished,
    ensures
        match r {
            Ok(e) => {
                &&& state@.rcpt_to.len() > 0
                &&& state@.data.len() > 0
                &&& state@.mail_from is Some
                &&& e.mail_from@ == state@.mail_from->0
                &&& e.rcpt_to.deep_view() == state@.rcpt_to
                &&& e.data@ == utf8_lossy_of(state@.data)
                &&& e.id@.len() == 21
            },
            Err(Error::RcptToMissing) => state@.rcpt_to.len() == 0,
            Err(Error::DataMissing) => state@.rcpt_to.len() > 0 && state@.data.len() == 0,
            Err(Error::MailFromMissing) => state@.rcpt_to.len() > 0 && state@.data.len() > 0
                && state@.mail_from is None,
            Err(Error::NetworkError(_)) => false,
        },
{
    if state.rcpt_to.is_empty() {
        return Err(Error::RcptToMissing);
    }
    if state.data.is_empty() {
        return Err(Error::DataMissing);
    }
    match &state.mail_from {
        None => Err(Error::MailFromMissing),
        Some(sender) => {
            let mut rcpts: Vec<String> = Vec::new();
            let n = state.rcpt_to.len();
            let mut i: usize = 0;
            while i < n
                invariant
                    n == state.rcpt_to.len(),
                    i <= n,
                    rcpts.deep_view() =~= state@.rcpt_to.subrange(0, i as int),
                decreases n - i,
            {
                let ghost prev = rcpts.deep_view();
                rcpts.push(state.rcpt_to[i].clone());
                proof {
                    assert(rcpts.deep_view() =~= prev.push(state.rcpt_to[i as int]@));
                    assert(rcpts.deep_view() =~= state@.rcpt_to.subrange(0, i + 1));
                }
                i = i + 1;
            }
            proof {
                assert(rcpts.deep_view() =~= state@.rcpt_to);
            }
            let data = bytes_to_text(state.data.as_slice());
            let id = fresh_id();
            Ok(Email { mail_from: sender.clone(), rcpt_to: rcpts, data, id })
        },
    }
}

} // verus!
