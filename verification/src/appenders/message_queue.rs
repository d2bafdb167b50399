//! The queue in which a remote appender keeps messages until they are sent,
//! and the batches in which they are sent.
use std::collections::VecDeque;
use vstd::prelude::*;
use crate::log_message::{LogMessage, LogMessageView};

verus! {

broadcast use vstd::std_specs::vecdeque::group_vec_dequeue_axioms;

/// The values of a sequence of messages.
pub open spec fn views(s: Seq<LogMessage>) -> Seq<LogMessageView> {
    s.map_values(|m: LogMessage| m@)
}

/// `s` cut into consecutive pieces of `size` elements, the last one holding
/// what is left; no piece for an empty sequence.
pub open spec fn chunks_of<T>(s: Seq<T>, size: nat) -> Seq<Seq<T>>
    decreases s.len(),
{
    if s.len() == 0 || size == 0 {
        Seq::empty()
    } else if s.len() <= size {
        seq![s]
    } else {
        seq![s.take(size as int)] + chunks_of(s.skip(size as int), size)
    }
}

/// The number of messages that one batch takes from a queue of `len`.
pub open spec fn batch_len(len: nat, batch_size: nat) -> nat {
    if len < batch_size { len } else { batch_size }
}

/// One batch never holds more than the batch size nor more than the queue
/// holds, and it is full whenever the queue holds at least a batch.
pub proof fn lemma_batch_len_bounds(len: nat, batch_size: nat)
    ensures
        batch_len(len, batch_size) <= batch_size,
        batch_len(len, batch_size) <= len,
        len >= batch_size ==> batch_len(len, batch_size) == batch_size,
        len < batch_size ==> batch_len(len, batch_size) == len,
{
}

/// Messages waiting to be sent, oldest first.
pub struct MessageQueue {
    messages: VecDeque<LogMessage>,
}

impl View for MessageQueue {
    type V = Seq<LogMessageView>;

    closed spec fn view(&self) -> Seq<LogMessageView> {
        views(self.messages@)
    }
}

impl MessageQueue {
    /// An empty queue.
    pub fn new() -> (q: MessageQueue)
        ensures
            q@ == Seq::<LogMessageView>::empty(),
    {
        MessageQueue { messages: VecDeque::new() }
    }

    pub fn len(&self) -> (n: usize)
        ensures
            n == self@.len(),
    {
        self.messages.len()
    }

    /// Puts a message at the back of the queue.
    pub fn push_back(&mut self, message: LogMessage)
        ensures
            final(self)@ == old(self)@.push(message@),
    {
        self.messages.push_back(message);
        proof {
            assert(views(self.messages@) =~= views(old(self).messages@).push(message@));
        }
    }

    /// Takes the oldest messages off the queue, as many as `batch_size` when
    /// the queue holds that many, else all of them.
    pub fn take_batch(&mut self, batch_size: usize) -> (batch: Vec<LogMessage>)
        ensures
            views(batch@) == old(self)@.take(batch_len(old(self)@.len(), batch_size as nat) as int),
            final(self)@ == old(self)@.skip(batch_len(old(self)@.len(), batch_size as nat) as int),
            batch@.len() <= batch_size,
            batch@.len() <= old(self)@.len(),
            old(self)@.len() >= batch_size ==> batch@.len() == batch_size,
            old(self)@.len() < batch_size ==> batch@.len() == old(self)@.len(),
            batch@.len() + final(self)@.len() == old(self)@.len(),
    {
        let size = self.messages.len();
        let count = if size < batch_size { size } else { batch_size };
        let ghost all = self.messages@;
        let mut batch: Vec<LogMessage> = Vec::new();
        let mut i: usize = 0;
        while i < count
            invariant
                count <= all.len(),
                i <= count,
                batch@ == all.take(i as int),
                self.messages@ == all.skip(i as int),
            decreases count - i,
        {
            let first = self.messages.pop_front();
            match first {
                Some(m) => {
                    batch.push(m);
                },
                None => {
                    assert(false);
                },
            }
            proof {
                assert(batch@ =~= all.take(i + 1));
                assert(self.messages@ =~= all.skip(i + 1));
            }
            i = i + 1;
        }
        proof {
            assert(views(batch@) =~= views(all).take(count as int));
            assert(views(self.messages@) =~= views(all).skip(count as int));
        }
        batch
    }

    /// Takes every message off the queue, oldest first.
    pub fn drain_all(&mut self) -> (all: Vec<LogMessage>)
        ensures
            views(all@) == old(self)@,
            final(self)@ == Seq::<LogMessageView>::empty(),
    {
        let n = self.messages.len();
        let all = self.take_batch(n);
        proof {
            assert(old(self)@.take(n as int) =~= old(self)@);
            assert(old(self)@.skip(n as int) =~= Seq::<LogMessageView>::empty());
        }
        all
    }
}

/// Copies of `messages[from .. to]`.
fn copy_range(messages: &Vec<LogMessage>, from: usize, to: usize) -> (c: Vec<LogMessage>)
    requires
        from <= to <= messages@.len(),
    ensures
        views(c@) == views(messages@).subrange(from as int, to as int),
{
    let mut c: Vec<LogMessage> = Vec::new();
    let mut j: usize = from;
    while j < to
        invariant
            from <= j <= to,
            to <= messages@.len(),
            views(c@) == views(messages@).subrange(from as int, j as int),
        decreases to - j,
    {
        let m = messages[j].clone();
        assert(m@ == messages@[j as int]@);
        let ghost before = c@;
        c.push(m);
        proof {
            assert(views(c@) =~= views(before).push(m@));
            assert(views(c@) =~= views(messages@).subrange(from as int, j + 1));
        }
        j = j + 1;
    }
    c
}

/// The batches in which `messages` are sent: consecutive pieces of
/// `batch_size` messages, the last one holding what is left.
pub fn chunk_messages(messages: &Vec<LogMessage>, batch_size: usize) -> (chunks: Vec<Vec<LogMessage>>)
    requires
        batch_size > 0,
    ensures
        chunks@.map_values(|c: Vec<LogMessage>| views(c@)) == chunks_of(views(messages@), batch_size as nat),
{
    let n = messages.len();
    let ghost all = views(messages@);
    let mut chunks: Vec<Vec<LogMessage>> = Vec::new();
    let mut i: usize = 0;
    proof {
        assert(all.skip(0) =~= all);
        assert(chunks@.map_values(|c: Vec<LogMessage>| views(c@)) + chunks_of(all, batch_size as nat)
            =~= chunks_of(all, batch_size as nat));
    }
    while i < n
        invariant
            n == messages@.len(),
            all == views(messages@),
            all.len() == n,
            batch_size > 0,
            i <= n,
            chunks_of(all, batch_size as nat) == chunks@.map_values(|c: Vec<LogMessage>| views(c@))
                + chunks_of(all.skip(i as int), batch_size as nat),
        decreases n - i,
    {
        let end = if n - i <= batch_size { n } else { i + batch_size };
        let chunk = copy_range(messages, i, end);
        let ghost rest = all.skip(i as int);
        proof {
            assert(rest.len() > 0);
            if rest.len() <= batch_size {
                assert(rest =~= all.subrange(i as int, end as int));
                assert(all.skip(end as int) =~= Seq::<LogMessageView>::empty());
                assert(chunks_of(all.skip(end as int), batch_size as nat) == Seq::<Seq<LogMessageView>>::empty());
            } else {
                assert(rest.take(batch_size as int) =~= all.subrange(i as int, end as int));
                assert(rest.skip(batch_size as int) =~= all.skip(end as int));
            }
            assert(chunks_of(rest, batch_size as nat) =~= seq![views(chunk@)]
                + chunks_of(all.skip(end as int), batch_size as nat));
        }
        let ghost before = chunks@;
        chunks.push(chunk);
        proof {
            assert(chunks@.map_values(|c: Vec<LogMessage>| views(c@)) =~=
                before.map_values(|c: Vec<LogMessage>| views(c@)).push(views(chunk@)));
        }
        i = end;
    }
    proof {
        assert(all.skip(n as int) =~= Seq::<LogMessageView>::empty());
        assert(chunks@.map_values(|c: Vec<LogMessage>| views(c@)) + Seq::<Seq<LogMessageView>>::empty()
            =~= chunks@.map_values(|c: Vec<LogMessage>| views(c@)));
    }
    chunks
}

} // verus!

verus! {

/// Sending the batches of a sequence one after the other sends every
/// element once, in order: the batches joined give the sequence back.
pub proof fn lemma_chunks_join<T>(s: Seq<T>, size: nat)
    requires
        size > 0,
    ensures
        chunks_of(s, size).flatten() == s,
    decreases s.len(),
{
    if s.len() == 0 {
        assert(chunks_of(s, size).flatten() =~= s);
    } else if s.len() <= size {
        let one = seq![s];
        assert(one.drop_first() =~= Seq::<Seq<T>>::empty());
        assert(one.drop_first().flatten() == Seq::<T>::empty());
        assert(one.flatten() == s + Seq::<T>::empty());
        assert(s + Seq::<T>::empty() =~= s);
    } else {
        let rest = s.skip(size as int);
        lemma_chunks_join(rest, size);
        let c = seq![s.take(size as int)] + chunks_of(rest, size);
        assert(c.first() == s.take(size as int));
        assert(c.drop_first() =~= chunks_of(rest, size));
        assert(s.take(size as int) + rest =~= s);
    }
}

/// Every batch holds at least one and at most `size` elements, every batch
/// but the last exactly `size`, and there are as many batches as `size`
/// goes into the length of the sequence, rounded up.
pub proof fn lemma_chunk_sizes<T>(s: Seq<T>, size: nat)
    requires
        size > 0,
    ensures
        forall|i: int| 0 <= i < chunks_of(s, size).len() ==> 0 < #[trigger] chunks_of(s, size)[i].len() <= size,
        forall|i: int| 0 <= i < chunks_of(s, size).len() - 1 ==> #[trigger] chunks_of(s, size)[i].len() == size,
        chunks_of(s, size).len() == (s.len() + size - 1) / size as int,
    decreases s.len(),
{
    if s.len() == 0 {
        assert((0 + size - 1) / size as int == 0) by (nonlinear_arith)
            requires size > 0;
    } else if s.len() <= size {
        assert((s.len() + size - 1) / size as int == 1) by (nonlinear_arith)
            requires size > 0, 0 < s.len() <= size;
    } else {
        let rest = s.skip(size as int);
        lemma_chunk_sizes(rest, size);
        let c = chunks_of(s, size);
        assert(c =~= seq![s.take(size as int)] + chunks_of(rest, size));
        assert forall|i: int| 0 <= i < c.len() implies 0 < #[trigger] c[i].len() <= size by {
            if i > 0 {
                assert(c[i] == chunks_of(rest, size)[i - 1]);
            }
        }
        assert forall|i: int| 0 <= i < c.len() - 1 implies #[trigger] c[i].len() == size by {
            if i > 0 {
                assert(c[i] == chunks_of(rest, size)[i - 1]);
            }
        }
        let n = s.len() as int;
        let b = size as int;
        assert((n - b + b - 1) / b + 1 == (n + b - 1) / b) by (nonlinear_arith)
            requires b > 0, n > b;
    }
}

} // verus!
