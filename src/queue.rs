use vstd::prelude::*;
use vstd::string::StringExecFns;
use crate::laws::replay;

verus! {

/// Queue length at which an enqueue triggers a flush by itself.
pub const THRESHOLD: usize = 20;

/// The texts of a sequence of strings.
pub open spec fn texts(v: Seq<String>) -> Seq<Seq<char>> {
    v.map_values(|s: String| s@)
}

/// The messages of `msgs` in order, separated by one newline each.
pub open spec fn joined(msgs: Seq<Seq<char>>) -> Seq<char>
    decreases msgs.len(),
{
    if msgs.len() == 0 {
        Seq::empty()
    } else if msgs.len() == 1 {
        msgs[0]
    } else {
        joined(msgs.drop_last()) + seq!['\n'] + msgs.last()
    }
}

/// Joins the messages of `msgs` with a newline between each two.
pub fn join_messages(msgs: &Vec<String>) -> (r: String)
    ensures
        r@ == joined(texts(msgs@)),
{
    let mut r = String::new();
    let mut i: usize = 0;
    while i < msgs.len()
        invariant
            i <= msgs@.len(),
            r@ == joined(texts(msgs@.subrange(0, i as int))),
        decreases msgs@.len() - i,
    {
        let ghost before = texts(msgs@.subrange(0, i as int));
        if i > 0 {
            proof {
                reveal_strlit("\n");
            }
            r.append("\n");
        }
        r.append(msgs[i].as_str());
        proof {
            let after = texts(msgs@.subrange(0, i + 1));
            assert(after.drop_last() =~= before);
            assert(after.last() == msgs@[i as int]@);
            if i == 0 {
                assert(r@ =~= msgs@[0]@);
            } else {
                assert(r@ =~= joined(before) + seq!['\n'] + msgs@[i as int]@);
            }
        }
        i = i + 1;
    }
    assert(msgs@.subrange(0, msgs@.len() as int) =~= msgs@);
    r
}

/// The ordered messages waiting for the next flush, with the ghost record of
/// every step taken on the queue: `Some(m)` for an append of `m`, `None` for a
/// take of everything.
pub struct PendingQueue {
    messages: Vec<String>,
    steps: Ghost<Seq<Option<Seq<char>>>>,
}

impl View for PendingQueue {
    type V = Seq<Seq<char>>;

    closed spec fn view(&self) -> Seq<Seq<char>> {
        texts(self.messages@)
    }
}

impl PendingQueue {
    /// Every step taken on this queue since it was made, in order.
    pub closed spec fn history(&self) -> Seq<Option<Seq<char>>> {
        self.steps@
    }

    /// What waits is what replaying the history leaves waiting.
    pub open spec fn wf(&self) -> bool {
        self@ == replay(self.history()).1
    }

    /// An empty queue, with room for a full batch.
    pub fn new() -> (q: PendingQueue)
        ensures
            q@ == Seq::<Seq<char>>::empty(),
            q.history() == Seq::<Option<Seq<char>>>::empty(),
            q.wf(),
    {
        let q = PendingQueue { messages: Vec::with_capacity(THRESHOLD), steps: Ghost(Seq::empty()) };
        assert(q@ =~= Seq::<Seq<char>>::empty());
        q
    }

    /// Number of messages waiting.
    pub fn len(&self) -> (n: usize)
        ensures
            n == self@.len(),
    {
        self.messages.len()
    }

    /// Appends `message` at the end and returns the new length.
    pub fn push(&mut self, message: String) -> (n: usize)
        requires
            old(self).wf(),
        ensures
            final(self)@ == old(self)@.push(message@),
            final(self).history() == old(self).history().push(Some(message@)),
            final(self).wf(),
            n == final(self)@.len(),
    {
        let ghost m = message@;
        self.messages.push(message);
        self.steps = Ghost(self.steps@.push(Some(m)));
        assert(self@ =~= old(self)@.push(m));
        assert(self.history().drop_last() =~= old(self).history());
        self.messages.len()
    }

    /// Removes and returns every waiting message, in order of arrival: the
    /// batch that the replayed history takes last.
    pub fn take(&mut self) -> (batch: Vec<String>)
        requires
            old(self).wf(),
        ensures
            texts(batch@) == old(self)@,
            final(self)@ == Seq::<Seq<char>>::empty(),
            final(self).history() == old(self).history().push(None),
            texts(batch@) == replay(final(self).history()).0.last(),
            final(self).wf(),
    {
        let mut batch: Vec<String> = Vec::new();
        std::mem::swap(&mut batch, &mut self.messages);
        self.steps = Ghost(self.steps@.push(None));
        assert(self@ =~= Seq::<Seq<char>>::empty());
        assert(self.history().drop_last() =~= old(self).history());
        batch
    }
}

} // verus!
