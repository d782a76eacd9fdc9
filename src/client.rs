use vstd::prelude::*;
use vstd::rwlock::{RwLock, RwLockPredicate};
use crate::laws::notify_step;
use crate::outcome::{batch_action, flush_action, should_flush, Action, FlushResult};
use crate::queue::{texts, PendingQueue};

verus! {

/// A notification buffer for one chat, owned by one caller: its messages wait
/// in order until a flush hands them to the sink as one batch.
pub struct TelegramClient {
    token: String,
    chat_id: String,
    pending_messages: PendingQueue,
}

impl View for TelegramClient {
    type V = Seq<Seq<char>>;

    /// The messages waiting, in order of arrival.
    closed spec fn view(&self) -> Seq<Seq<char>> {
        self.pending_messages@
    }
}

impl TelegramClient {
    /// The credentials handed to the sink.
    pub closed spec fn token(&self) -> Seq<char> {
        self.token@
    }

    /// The destination handed to the sink.
    pub closed spec fn chat_id(&self) -> Seq<char> {
        self.chat_id@
    }

    /// The queue agrees with its own history.
    pub closed spec fn wf(&self) -> bool {
        self.pending_messages.wf()
    }

    /// A client with an empty queue that hands `token` and `chat_id` to the
    /// sink unchanged.
    pub fn new(token: String, chat_id: String) -> (c: TelegramClient)
        ensures
            c.token() == token@,
            c.chat_id() == chat_id@,
            c@ == Seq::<Seq<char>>::empty(),
            c.wf(),
    {
        TelegramClient { token, chat_id, pending_messages: PendingQueue::new() }
    }

    /// Takes every waiting message. With nothing waiting, no sink call is to be
    /// made and the result is `NoOp`; otherwise the caller is to make one sink
    /// call with the whole batch.
    pub fn flush(&mut self) -> (a: Action)
        requires
            old(self).wf(),
        ensures
            final(self).wf(),
            final(self).token() == old(self).token(),
            final(self).chat_id() == old(self).chat_id(),
            final(self)@ == Seq::<Seq<char>>::empty(),
            flush_action(a, old(self).token(), old(self).chat_id(), old(self)@),
    {
        let batch = self.pending_messages.take();
        batch_action(&self.token, &self.chat_id, batch)
    }

    /// Appends `message`, then flushes when unbuffered or when the queue has
    /// reached the threshold; otherwise no sink call is to be made and the
    /// result is `Queued`.
    pub fn send_notify(&mut self, message: String, buffered: bool) -> (a: Action)
        requires
            old(self).wf(),
        ensures
            final(self).wf(),
            final(self).token() == old(self).token(),
            final(self).chat_id() == old(self).chat_id(),
            final(self)@ == notify_step(old(self)@, message@, buffered).1,
            notify_step(old(self)@, message@, buffered).0.len() == 0 ==> a == Action::Finished(
                FlushResult::Queued,
            ),
            notify_step(old(self)@, message@, buffered).0.len() > 0 ==> flush_action(
                a,
                old(self).token(),
                old(self).chat_id(),
                notify_step(old(self)@, message@, buffered).0,
            ),
    {
        let len = self.pending_messages.push(message);
        if should_flush(len, buffered) {
            self.flush()
        } else {
            Action::Finished(FlushResult::Queued)
        }
    }
}

/// The lock holds a queue whose contents are what its history leaves waiting.
pub struct QueueMatchesHistory {}

impl RwLockPredicate<PendingQueue> for QueueMatchesHistory {
    open spec fn inv(self, q: PendingQueue) -> bool {
        q.wf()
    }
}

/// A notification buffer for one chat that many threads share. Every access to
/// the queue takes the lock exclusively, and a flush empties the queue before
/// it lets go, so each message is in at most one batch; the sink call that a
/// flush asks for is made by the caller, after the lock is released. Other callers may add or take messages at any
/// moment, so a call cannot know which messages its batch holds: the queue's
/// own steps (`PendingQueue::push`, `PendingQueue::take`) state that, and the
/// lock keeps the queue equal to what the replay of its history leaves.
pub struct SharedClient {
    token: String,
    chat_id: String,
    pending_messages: RwLock<PendingQueue, QueueMatchesHistory>,
}

impl SharedClient {
    /// The credentials handed to the sink.
    pub closed spec fn token(&self) -> Seq<char> {
        self.token@
    }

    /// The destination handed to the sink.
    pub closed spec fn chat_id(&self) -> Seq<char> {
        self.chat_id@
    }

    /// `a` is what a flush may ask for: nothing was waiting, or one delivery of
    /// some non-empty batch with this client's credentials.
    pub open spec fn flushed(&self, a: Action) -> bool {
        ||| a == Action::Finished(FlushResult::NoOp)
        ||| exists|batch: Seq<Seq<char>>|
            batch.len() > 0 && #[trigger] flush_action(a, self.token(), self.chat_id(), batch)
    }

    /// A shared client with an empty queue that hands `token` and `chat_id` to
    /// the sink unchanged.
    pub fn new(token: String, chat_id: String) -> (c: SharedClient)
        ensures
            c.token() == token@,
            c.chat_id() == chat_id@,
    {
        let pending_messages = RwLock::new(PendingQueue::new(), Ghost(QueueMatchesHistory {}));
        SharedClient { token, chat_id, pending_messages }
    }

    /// Takes every waiting message under the lock. The lock is released before
    /// this returns, so the one sink call that a `Deliver` asks for is made
    /// without it.
    pub fn flush(&self) -> (a: Action)
        ensures
            self.flushed(a),
    {
        let (mut queue, handle) = self.pending_messages.acquire_write();
        let batch = queue.take();
        handle.release_write(queue);
        let ghost taken = texts(batch@);
        let a = batch_action(&self.token, &self.chat_id, batch);
        assert(taken.len() == 0 || flush_action(a, self.token(), self.chat_id(), taken));
        a
    }

    /// Appends `message` under the lock, then, with the lock released, flushes
    /// when unbuffered or when the length it saw has reached the threshold.
    pub fn send_notify(&self, message: String, buffered: bool) -> (a: Action)
        ensures
            a == Action::Finished(FlushResult::Queued) ==> buffered,
            a == Action::Finished(FlushResult::Queued) || self.flushed(a),
    {
        let (mut queue, handle) = self.pending_messages.acquire_write();
        let len = queue.push(message);
        handle.release_write(queue);
        if should_flush(len, buffered) {
            self.flush()
        } else {
            Action::Finished(FlushResult::Queued)
        }
    }
}

} // verus!
