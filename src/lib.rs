//! Batches outbound notification strings. Each flush empties the queue and asks
//! its caller for at most one sink call, which carries the whole batch,
//! newline-joined.

mod client;
mod laws;
mod outcome;
mod queue;

pub use client::{SharedClient, TelegramClient};
pub use outcome::{
    batch_action, delivery_of, flush_action, flush_due, outcome, should_flush, Action, Delivery,
    FlushResult, SinkError,
};
pub use queue::{joined, join_messages, texts, PendingQueue, THRESHOLD};
pub use laws::{
    concat_batches, enqueue_all, enqueued, lemma_appends_wait, lemma_every_message_once,
    lemma_failure_not_redelivered, lemma_flush_after_flush_is_empty, lemma_flush_keeps_order,
    lemma_newlines_add, lemma_payload_segments, lemma_queue_accounts, lemma_single_caller_order,
    lemma_threshold_flush, lemma_unbuffered_sends_each, newlines, notify_all, notify_step, replay,
};
