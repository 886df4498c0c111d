use vstd::prelude::*;
use crate::error::Error;
use crate::json::{json_parse, json_render, parse_json, render_json, Json};
use crate::qemu::qmp_message::{qmp_decode, qmp_encoded, QmpMessage};
use crate::text::{decimal, decimal_string};

verus! {

/// Whether a message answers the request with id `id`: a success or an
/// error that carries that id.
pub open spec fn answers(response: QmpMessage, id: Seq<char>) -> bool {
    match response {
        QmpMessage::Success { id: Some(x), .. } => x@ == id,
        QmpMessage::Error { id: Some(x), .. } => x@ == id,
        _ => false,
    }
}

/// What a line read from QEMU comes to: the message its JSON is, or an
/// error for a line that is no JSON or no message.
pub open spec fn decoded(line: Seq<char>, r: Result<QmpMessage, Error>) -> bool {
    match json_parse(line) {
        Some(j) => match qmp_decode(j) {
            Some(m) => r == Ok::<QmpMessage, Error>(m),
            None => r is Err,
        },
        None => r is Err,
    }
}

/// A session of the QEMU machine protocol: it numbers the commands it sends,
/// from 0 up, and knows an answer by its number.
pub struct Qmp {
    counter: u64,
}

impl Qmp {
    /// How many commands the session has sent.
    pub closed spec fn sent(&self) -> nat {
        self.counter as nat
    }

    pub fn new() -> (r: Qmp)
        ensures
            r.sent() == 0,
    {
        Qmp { counter: 0 }
    }

    /// How many commands the session has sent.
    pub fn get_sent(&self) -> (r: u64)
        ensures
            r == self.sent(),
    {
        self.counter
    }

    /// The next command and the id its answer carries: the number of
    /// commands sent before it.
    pub fn command(&mut self, cmd: &str, arguments: Json) -> (r: (String, QmpMessage))
        requires
            old(self).sent() < u64::MAX,
        ensures
            final(self).sent() == old(self).sent() + 1,
            r.0@ == decimal(old(self).sent()),
            r.1 matches QmpMessage::Command { id: Some(i), execute, arguments: a }
                && i@ == r.0@ && execute@ == cmd@ && a == arguments,
    {
        let id = decimal_string(self.counter);
        self.counter = self.counter + 1;
        let message = QmpMessage::Command { id: Some(id.clone()), execute: cmd.to_string(), arguments };
        (id, message)
    }

    /// Whether `response` answers the request with id `id`.
    pub fn is_answer(response: &QmpMessage, id: &str) -> (r: bool)
        ensures
            r == answers(*response, id@),
    {
        match response {
            QmpMessage::Success { id: Some(x), .. } => crate::text::str_eq(x.as_str(), id),
            QmpMessage::Error { id: Some(x), .. } => crate::text::str_eq(x.as_str(), id),
            _ => false,
        }
    }

    /// The line a message is sent as: its JSON, written by `serde_json`.
    pub fn encode(message: QmpMessage) -> (r: String)
        ensures
            exists|j: Json| qmp_encoded(message, j) && r@ == json_render(j),
    {
        let ghost m = message;
        let j = message.to_json();
        let r = render_json(&j);
        assert(qmp_encoded(m, j) && r@ == json_render(j));
        r
    }

    /// The message a line read from QEMU holds.
    pub fn decode(line: &str) -> (r: Result<QmpMessage, Error>)
        ensures
            decoded(line@, r),
    {
        match parse_json(line) {
            Some(j) => match QmpMessage::from_json(j) {
                Some(m) => Ok(m),
                None => Err(Error::InvalidMessage(line.to_string())),
            },
            None => Err(Error::InvalidMessage(line.to_string())),
        }
    }
}

} // verus!
