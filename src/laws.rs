use vstd::prelude::*;
use crate::outcome::flush_due;
use crate::queue::{joined, PendingQueue, THRESHOLD};

verus! {

// A queue's history is the sequence of its steps: an append of one message
// (`Some(m)`) or a take of everything waiting (`None`). `PendingQueue` keeps
// its contents equal to what `replay` of its history leaves waiting, and each
// `push` and `take` extends that history by its own step; under the shared
// client's exclusive lock, any run of concurrent callers is such a history.

/// The batches taken and the messages still waiting after `steps`, from an
/// empty queue.
pub open spec fn replay(steps: Seq<Option<Seq<char>>>) -> (Seq<Seq<Seq<char>>>, Seq<Seq<char>>)
    decreases steps.len(),
{
    if steps.len() == 0 {
        (Seq::empty(), Seq::empty())
    } else {
        let (batches, pending) = replay(steps.drop_last());
        match steps.last() {
            Some(m) => (batches, pending.push(m)),
            None => (batches.push(pending), Seq::empty()),
        }
    }
}

/// The messages appended by `steps`, in order.
pub open spec fn enqueued(steps: Seq<Option<Seq<char>>>) -> Seq<Seq<char>>
    decreases steps.len(),
{
    if steps.len() == 0 {
        Seq::empty()
    } else {
        match steps.last() {
            Some(m) => enqueued(steps.drop_last()).push(m),
            None => enqueued(steps.drop_last()),
        }
    }
}

/// The batches one after another.
pub open spec fn concat_batches(batches: Seq<Seq<Seq<char>>>) -> Seq<Seq<char>>
    decreases batches.len(),
{
    if batches.len() == 0 {
        Seq::empty()
    } else {
        concat_batches(batches.drop_last()) + batches.last()
    }
}

/// One append step for each of `msgs`, in order.
pub open spec fn enqueue_all(msgs: Seq<Seq<char>>) -> Seq<Option<Seq<char>>> {
    msgs.map_values(|m: Seq<char>| Some(m))
}

/// The number of newlines in `s`.
pub open spec fn newlines(s: Seq<char>) -> nat
    decreases s.len(),
{
    if s.len() == 0 {
        0
    } else {
        newlines(s.drop_last()) + if s.last() == '\n' { 1nat } else { 0nat }
    }
}

/// One enqueue of `m` onto the waiting messages `pending`: the batch it
/// flushes (empty when no flush is due) and what it leaves waiting.
pub open spec fn notify_step(pending: Seq<Seq<char>>, m: Seq<char>, buffered: bool) -> (Seq<Seq<char>>, Seq<Seq<char>>) {
    let q = pending.push(m);
    if flush_due(q.len(), buffered) {
        (q, Seq::empty())
    } else {
        (Seq::empty(), q)
    }
}

/// The batches flushed and the messages still waiting after one enqueue of
/// each of `msgs`, in order, with the same `buffered` flag, from an empty
/// queue.
pub open spec fn notify_all(msgs: Seq<Seq<char>>, buffered: bool) -> (Seq<Seq<Seq<char>>>, Seq<Seq<char>>)
    decreases msgs.len(),
{
    if msgs.len() == 0 {
        (Seq::empty(), Seq::empty())
    } else {
        let (batches, pending) = notify_all(msgs.drop_last(), buffered);
        let (batch, rest) = notify_step(pending, msgs.last(), buffered);
        if batch.len() > 0 {
            (batches.push(batch), rest)
        } else {
            (batches, rest)
        }
    }
}

/// One caller's messages keep their order: whatever is buffered, the batches
/// its enqueues flush, one after another, followed by what still waits, are
/// its messages in the order it sent them.
pub proof fn lemma_single_caller_order(msgs: Seq<Seq<char>>, buffered: bool)
    ensures
        concat_batches(notify_all(msgs, buffered).0) + notify_all(msgs, buffered).1 == msgs,
    decreases msgs.len(),
{
    if msgs.len() == 0 {
        assert(Seq::<Seq<char>>::empty() + Seq::<Seq<char>>::empty() =~= msgs);
    } else {
        lemma_single_caller_order(msgs.drop_last(), buffered);
        let (batches, pending) = notify_all(msgs.drop_last(), buffered);
        let q = pending.push(msgs.last());
        assert(concat_batches(batches) + q =~= (concat_batches(batches) + pending).push(msgs.last()));
        assert(msgs.drop_last().push(msgs.last()) =~= msgs);
        if flush_due(q.len(), buffered) {
            assert(batches.push(q).drop_last() =~= batches);
            assert(concat_batches(batches.push(q)) + Seq::<Seq<char>>::empty() =~= concat_batches(batches) + q);
        }
    }
}

/// Every message a queue has seen is accounted for exactly once: the batches
/// its history took, one after another, followed by what waits now, are the
/// messages appended, in order.
pub proof fn lemma_queue_accounts(q: PendingQueue)
    requires
        q.wf(),
    ensures
        concat_batches(replay(q.history()).0) + q@ == enqueued(q.history()),
{
    lemma_every_message_once(q.history());
}

/// Nothing is lost and nothing is taken twice: under any interleaving, the
/// batches taken, one after another, followed by what still waits, are exactly
/// the messages appended, in the order they were appended.
pub proof fn lemma_every_message_once(steps: Seq<Option<Seq<char>>>)
    ensures
        concat_batches(replay(steps).0) + replay(steps).1 == enqueued(steps),
    decreases steps.len(),
{
    if steps.len() > 0 {
        lemma_every_message_once(steps.drop_last());
        let (batches, pending) = replay(steps.drop_last());
        match steps.last() {
            Some(m) => {
                assert(concat_batches(batches) + pending.push(m) =~= (concat_batches(batches) + pending).push(m));
            },
            None => {
                assert(batches.push(pending).drop_last() =~= batches);
                assert(concat_batches(batches.push(pending)) + Seq::<Seq<char>>::empty()
                    =~= concat_batches(batches) + pending);
            },
        }
    }
}

/// Appending `msgs` adds them, in order, to what waits, and takes no batch.
pub proof fn lemma_appends_wait(steps: Seq<Option<Seq<char>>>, msgs: Seq<Seq<char>>)
    ensures
        replay(steps + enqueue_all(msgs)).0 == replay(steps).0,
        replay(steps + enqueue_all(msgs)).1 == replay(steps).1 + msgs,
    decreases msgs.len(),
{
    if msgs.len() == 0 {
        assert(steps + enqueue_all(msgs) =~= steps);
        assert(replay(steps).1 + msgs =~= replay(steps).1);
    } else {
        lemma_appends_wait(steps, msgs.drop_last());
        let all = steps + enqueue_all(msgs);
        assert(all.drop_last() =~= steps + enqueue_all(msgs.drop_last()));
        assert(all.last() == Some(msgs.last()));
        assert(replay(steps).1 + msgs =~= (replay(steps).1 + msgs.drop_last()).push(msgs.last()));
    }
}

/// Messages appended one after another and then taken come out as one
/// batch, in the order they were appended, and leave nothing waiting.
pub proof fn lemma_flush_keeps_order(msgs: Seq<Seq<char>>)
    ensures
        replay(enqueue_all(msgs).push(None)).0 == seq![msgs],
        replay(enqueue_all(msgs).push(None)).1 == Seq::<Seq<char>>::empty(),
{
    let none = Seq::<Option<Seq<char>>>::empty();
    lemma_appends_wait(none, msgs);
    assert(none + enqueue_all(msgs) =~= enqueue_all(msgs));
    assert(Seq::<Seq<char>>::empty() + msgs =~= msgs);
    assert(enqueue_all(msgs).push(None).drop_last() =~= enqueue_all(msgs));
    assert(Seq::<Seq<Seq<char>>>::empty().push(msgs) =~= seq![msgs]);
}

/// Newlines in two texts side by side add up.
pub proof fn lemma_newlines_add(a: Seq<char>, b: Seq<char>)
    ensures
        newlines(a + b) == newlines(a) + newlines(b),
    decreases b.len(),
{
    if b.len() == 0 {
        assert(a + b =~= a);
    } else {
        lemma_newlines_add(a, b.drop_last());
        assert((a + b).drop_last() =~= a + b.drop_last());
        assert((a + b).last() == b.last());
    }
}

/// A payload of `n` messages, none of which holds a newline, splits at its
/// newlines into exactly `n` segments.
pub proof fn lemma_payload_segments(msgs: Seq<Seq<char>>)
    requires
        msgs.len() > 0,
        forall|i: int| 0 <= i < msgs.len() ==> newlines(#[trigger] msgs[i]) == 0,
    ensures
        newlines(joined(msgs)) + 1 == msgs.len(),
    decreases msgs.len(),
{
    if msgs.len() == 1 {
        assert(newlines(msgs[0]) == 0);
    } else {
        let init = msgs.drop_last();
        assert forall|i: int| 0 <= i < init.len() implies newlines(#[trigger] init[i]) == 0 by {
            assert(init[i] == msgs[i]);
        }
        lemma_payload_segments(init);
        lemma_newlines_add(joined(init), seq!['\n']);
        lemma_newlines_add(joined(init) + seq!['\n'], msgs.last());
        assert(seq!['\n'].drop_last() =~= Seq::<char>::empty());
        assert(newlines(Seq::<char>::empty()) == 0);
        assert(newlines(seq!['\n']) == 1);
        assert(newlines(msgs[msgs.len() - 1]) == 0);
        assert(joined(msgs) == joined(init) + seq!['\n'] + msgs.last());
    }
}

/// A flush of an empty queue has nothing to send: on a fresh queue and right
/// after another flush, the batch taken is empty.
pub proof fn lemma_flush_after_flush_is_empty(steps: Seq<Option<Seq<char>>>)
    ensures
        replay(seq![None]).0 == seq![Seq::<Seq<char>>::empty()],
        replay(steps.push(None).push(None)).0.last() == Seq::<Seq<char>>::empty(),
{
    let none = Seq::<Option<Seq<char>>>::empty();
    assert(seq![None::<Seq<char>>].drop_last() =~= none);
    assert(replay(none) == (Seq::<Seq<Seq<char>>>::empty(), Seq::<Seq<char>>::empty()));
    assert(steps.push(None).push(None).drop_last() =~= steps.push(None));
    assert(steps.push(None).drop_last() =~= steps);
    assert(replay(steps.push(None)).1 == Seq::<Seq<char>>::empty());
    assert(Seq::<Seq<Seq<char>>>::empty().push(Seq::<Seq<char>>::empty()) =~= seq![Seq::<Seq<char>>::empty()]);
}

/// With `buffered` set, fewer enqueues than the threshold flush nothing and
/// leave all of them waiting; the enqueue that reaches the threshold flushes
/// once, with every message.
pub proof fn lemma_threshold_flush(msgs: Seq<Seq<char>>)
    ensures
        msgs.len() < THRESHOLD ==> notify_all(msgs, true) == (Seq::<Seq<Seq<char>>>::empty(), msgs),
        msgs.len() == THRESHOLD ==> notify_all(msgs, true) == (seq![msgs], Seq::<Seq<char>>::empty()),
    decreases msgs.len(),
{
    if msgs.len() > 0 && msgs.len() <= THRESHOLD {
        lemma_threshold_flush(msgs.drop_last());
        assert(msgs.drop_last().push(msgs.last()) =~= msgs);
        assert(Seq::<Seq<Seq<char>>>::empty().push(msgs) =~= seq![msgs]);
    }
}

/// Without buffering, every enqueue flushes at once: each message goes out
/// alone, in order, and nothing is left waiting.
pub proof fn lemma_unbuffered_sends_each(msgs: Seq<Seq<char>>)
    ensures
        notify_all(msgs, false).0 == msgs.map_values(|m: Seq<char>| seq![m]),
        notify_all(msgs, false).1 == Seq::<Seq<char>>::empty(),
    decreases msgs.len(),
{
    if msgs.len() > 0 {
        lemma_unbuffered_sends_each(msgs.drop_last());
        assert(Seq::<Seq<char>>::empty().push(msgs.last()) =~= seq![msgs.last()]);
        assert(msgs.map_values(|m: Seq<char>| seq![m]) =~= msgs.drop_last().map_values(
            |m: Seq<char>| seq![m],
        ).push(seq![msgs.last()]));
    } else {
        assert(msgs.map_values(|m: Seq<char>| seq![m]) =~= Seq::<Seq<Seq<char>>>::empty());
    }
}

/// A flush drops its batch whatever the sink answered: the flush after it
/// carries exactly the messages appended since.
pub proof fn lemma_failure_not_redelivered(steps: Seq<Option<Seq<char>>>, msgs: Seq<Seq<char>>)
    ensures
        replay((steps.push(None) + enqueue_all(msgs)).push(None)).0.last() == msgs,
{
    let before = steps.push(None);
    lemma_appends_wait(before, msgs);
    assert(before.drop_last() =~= steps);
    assert(Seq::<Seq<char>>::empty() + msgs =~= msgs);
    assert((before + enqueue_all(msgs)).push(None).drop_last() =~= before + enqueue_all(msgs));
}

} // verus!
