use vstd::prelude::*;
use crate::queue::{joined, join_messages, texts};

verus! {

/// Why the sink did not take a batch.
#[derive(Debug, PartialEq, Eq)]
pub enum SinkError {
    /// The call could not complete (connection, DNS, ...).
    Transport { detail: String },
    /// The sink answered, with a status other than success.
    Rejected { status: u16, body: String },
}

/// What one enqueue or flush came to.
#[derive(Debug, PartialEq, Eq)]
pub enum FlushResult {
    /// The queue was empty, so there was nothing to deliver.
    NoOp,
    /// The message was appended and no flush was due.
    Queued,
    /// The sink took a batch of `count` messages.
    Sent { count: usize },
    /// The sink refused the batch; its messages are dropped.
    Failed { reason: SinkError },
}

/// One call of the sink: the credentials and destination the client was built
/// with, and the newline-joined batch.
#[derive(Debug, PartialEq, Eq)]
pub struct Delivery {
    pub token: String,
    pub chat_id: String,
    pub text: String,
}

/// What the caller of an enqueue or a flush is to do next. The queue has
/// already been updated and no lock is held.
#[derive(Debug, PartialEq, Eq)]
pub enum Action {
    /// No sink call is to be made; this is the result.
    Finished(FlushResult),
    /// Exactly one sink call is to be made, with `delivery`, which carries a
    /// batch of `count` messages; `FlushResult::from_answer` gives the result
    /// from the sink's answer. The batch has left the queue: it is not
    /// delivered again, whatever the answer.
    Deliver { delivery: Delivery, count: usize },
}

/// `d` carries `token`, `chat_id` and `text`.
pub open spec fn delivery_of(d: Delivery, token: Seq<char>, chat_id: Seq<char>, text: Seq<char>) -> bool {
    &&& d.token@ == token
    &&& d.chat_id@ == chat_id
    &&& d.text@ == text
}

/// The outcome of handing a batch of `count` messages to the sink, which
/// answered `answer`.
pub open spec fn outcome(count: usize, answer: Result<(), SinkError>) -> FlushResult {
    match answer {
        Ok(_) => FlushResult::Sent { count },
        Err(e) => FlushResult::Failed { reason: e },
    }
}

/// `a` is what a flush of `batch` asks for: no sink call and `NoOp` when the
/// batch is empty, else one delivery of the whole batch, newline-joined, with
/// `token` and `chat_id`.
pub open spec fn flush_action(a: Action, token: Seq<char>, chat_id: Seq<char>, batch: Seq<Seq<char>>) -> bool {
    if batch.len() == 0 {
        a == Action::Finished(FlushResult::NoOp)
    } else {
        match a {
            Action::Deliver { delivery, count } => {
                &&& count == batch.len()
                &&& delivery_of(delivery, token, chat_id, joined(batch))
            },
            Action::Finished(_) => false,
        }
    }
}

/// Whether an enqueue that left `len` messages waiting must flush.
pub open spec fn flush_due(len: nat, buffered: bool) -> bool {
    !buffered || len >= crate::queue::THRESHOLD
}

impl FlushResult {
    /// The result of a batch of `count` messages that the sink answered with
    /// `answer`.
    pub fn from_answer(count: usize, answer: Result<(), SinkError>) -> (r: FlushResult)
        ensures
            r == outcome(count, answer),
    {
        match answer {
            Ok(()) => FlushResult::Sent { count },
            Err(e) => FlushResult::Failed { reason: e },
        }
    }
}

/// Whether an enqueue that left `len` messages waiting must flush: always when
/// unbuffered, else once the threshold is reached.
pub fn should_flush(len: usize, buffered: bool) -> (r: bool)
    ensures
        r == flush_due(len as nat, buffered),
{
    !buffered || len >= crate::queue::THRESHOLD
}

/// What to do with `batch`, just taken from the queue: nothing when it is
/// empty, else one delivery of it, newline-joined, with `token` and `chat_id`.
pub fn batch_action(token: &String, chat_id: &String, batch: Vec<String>) -> (a: Action)
    ensures
        flush_action(a, token@, chat_id@, texts(batch@)),
{
    let count = batch.len();
    if count == 0 {
        return Action::Finished(FlushResult::NoOp);
    }
    let text = join_messages(&batch);
    let delivery = Delivery { token: token.clone(), chat_id: chat_id.clone(), text };
    Action::Deliver { delivery, count }
}

} // verus!
