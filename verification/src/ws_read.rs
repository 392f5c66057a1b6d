//! The receive side of a WebSocket link: binary messages arrive whole, while
//! readers ask for bytes into buffers of any size. What a read cannot take of
//! a message is kept for the next read.
use vstd::prelude::*;

verus! {

/// The number of bytes that a read hands out of `pending` into a buffer of
/// `capacity` bytes.
pub open spec fn read_count(pending: Seq<u8>, capacity: nat) -> nat {
    if pending.len() <= capacity {
        pending.len()
    } else {
        capacity
    }
}

/// The bytes that a read hands out of `pending` into a buffer of `capacity` bytes.
pub open spec fn delivered(pending: Seq<u8>, capacity: nat) -> Seq<u8> {
    pending.take(read_count(pending, capacity) as int)
}

/// The bytes of `pending` that stay for the next read after a read into a
/// buffer of `capacity` bytes.
pub open spec fn remaining(pending: Seq<u8>, capacity: nat) -> Seq<u8> {
    pending.skip(read_count(pending, capacity) as int)
}

/// What successive reads into buffers of the given capacities hand out of
/// `pending`, all of it in order, and what is left after them.
pub open spec fn drain(pending: Seq<u8>, capacities: Seq<nat>) -> (Seq<u8>, Seq<u8>)
    decreases capacities.len(),
{
    if capacities.len() == 0 {
        (Seq::empty(), pending)
    } else {
        let rest = drain(remaining(pending, capacities[0]), capacities.drop_first());
        (delivered(pending, capacities[0]) + rest.0, rest.1)
    }
}

/// The outcome of one attempt to read from the link.
pub enum ReadStep {
    /// This many bytes were written to the front of the buffer.
    Done(usize),
    /// Nothing of a message is pending: a message must be received first.
    NeedMessage,
}

/// The part of the current message that no read has taken yet.
pub struct ReadBuffer {
    leftovers: Option<(Vec<u8>, usize, usize)>,
}

impl View for ReadBuffer {
    type V = Seq<u8>;

    closed spec fn view(&self) -> Seq<u8> {
        match self.leftovers {
            Some((bytes, start, len)) => bytes@.subrange(start as int, len as int),
            None => Seq::empty(),
        }
    }
}

impl ReadBuffer {
    #[verifier::type_invariant]
    spec fn well_formed(self) -> bool {
        match self.leftovers {
            Some((bytes, start, len)) => start < len && len == bytes@.len(),
            None => true,
        }
    }

    /// A buffer with nothing pending.
    pub fn new() -> (r: ReadBuffer)
        ensures
            r@ == Seq::<u8>::empty(),
    {
        ReadBuffer { leftovers: None }
    }

    /// Whether a part of a message waits to be read.
    pub fn has_pending(&self) -> (r: bool)
        ensures
            r == (self@.len() > 0),
    {
        proof {
            use_type_invariant(self);
        }
        self.leftovers.is_some()
    }

    /// Hands a freshly received message to the buffer. An empty message
    /// carries no bytes and leaves nothing pending.
    pub fn offer(&mut self, message: Vec<u8>)
        requires
            old(self)@.len() == 0,
        ensures
            final(self)@ == message@,
    {
        let len = message.len();
        if len == 0 {
            self.leftovers = None;
            assert(final(self)@ =~= message@);
        } else {
            self.leftovers = Some((message, 0, len));
            assert(message@.subrange(0, len as int) =~= message@);
        }
    }

    /// Reads pending bytes into the front of `buffer`: as many as fit, the
    /// rest staying pending. Asks for a message when nothing is pending.
    pub fn read_step(&mut self, buffer: &mut [u8]) -> (r: ReadStep)
        ensures
            match r {
                ReadStep::NeedMessage => {
                    &&& old(self)@.len() == 0
                    &&& final(self)@ == old(self)@
                    &&& final(buffer)@ == old(buffer)@
                },
                ReadStep::Done(n) => {
                    &&& old(self)@.len() > 0
                    &&& n == read_count(old(self)@, old(buffer)@.len())
                    &&& final(buffer)@ == delivered(old(self)@, old(buffer)@.len()) + old(
                        buffer,
                    )@.skip(n as int)
                    &&& final(self)@ == remaining(old(self)@, old(buffer)@.len())
                },
            },
    {
        let ghost initial = buffer@;
        let r = self.read_into(buffer, 0);
        assert(initial.take(0) + delivered(old(self)@, initial.len()) =~= delivered(
            old(self)@,
            initial.len(),
        ));
        r
    }

    /// Reads pending bytes into `buffer` from position `filled` on: as many
    /// as fit there, the rest staying pending. Asks for a message when
    /// nothing is pending. The bytes before `filled` stay as they are.
    pub fn read_into(&mut self, buffer: &mut [u8], filled: usize) -> (r: ReadStep)
        requires
            filled <= old(buffer)@.len(),
        ensures
            match r {
                ReadStep::NeedMessage => {
                    &&& old(self)@.len() == 0
                    &&& final(self)@ == old(self)@
                    &&& final(buffer)@ == old(buffer)@
                },
                ReadStep::Done(n) => {
                    &&& old(self)@.len() > 0
                    &&& n == read_count(old(self)@, (old(buffer)@.len() - filled) as nat)
                    &&& final(buffer)@ == old(buffer)@.take(filled as int) + delivered(
                        old(self)@,
                        (old(buffer)@.len() - filled) as nat,
                    ) + old(buffer)@.skip(filled + n)
                    &&& final(self)@ == remaining(old(self)@, (old(buffer)@.len() - filled) as nat)
                },
            },
    {
        proof {
            use_type_invariant(&*self);
        }
        let ghost pending = self@;
        let ghost initial = buffer@;
        let mut taken = ReadBuffer { leftovers: None };
        std::mem::swap(self, &mut taken);
        match taken.leftovers {
            None => ReadStep::NeedMessage,
            Some((bytes, start, len)) => {
                let len_total = buffer.len();
                let cap = len_total - filled;
                let n = if len - start <= cap {
                    len - start
                } else {
                    cap
                };
                let mut i: usize = 0;
                while i < n
                    invariant
                        0 <= i <= n,
                        n <= cap,
                        cap == initial.len() - filled,
                        len_total == initial.len(),
                        filled <= initial.len(),
                        start + n <= len,
                        len == bytes@.len(),
                        pending == bytes@.subrange(start as int, len as int),
                        buffer@.len() == initial.len(),
                        forall|j: int| 0 <= j < filled ==> buffer@[j] == initial[j],
                        forall|j: int| 0 <= j < i ==> buffer@[filled + j] == pending[j],
                        forall|j: int| filled + i <= j < initial.len() ==> buffer@[j] == initial[j],
                    decreases n - i,
                {
                    buffer[filled + i] = bytes[start + i];
                    i = i + 1;
                }
                let end = start + n;
                if end < len {
                    self.leftovers = Some((bytes, end, len));
                }
                assert(buffer@ =~= initial.take(filled as int) + pending.take(n as int)
                    + initial.skip(filled + n));
                assert(self@ =~= pending.skip(n as int));
                ReadStep::Done(n)
            },
        }
    }
}

/// A read hands out the front of the pending bytes and keeps the rest, so
/// that nothing is lost, duplicated or reordered; into a buffer that is not
/// empty it hands out at least one byte, and into a buffer that is large
/// enough it hands out everything.
pub proof fn read_splits_pending(pending: Seq<u8>, capacity: nat)
    ensures
        delivered(pending, capacity) + remaining(pending, capacity) == pending,
        pending.len() > 0 && capacity > 0 ==> delivered(pending, capacity).len() > 0,
        capacity >= pending.len() ==> remaining(pending, capacity).len() == 0,
        delivered(pending, capacity).len() <= capacity,
{
    assert(delivered(pending, capacity) + remaining(pending, capacity) =~= pending);
}

/// However the reads of a message are sized, the bytes they hand out,
/// followed by what is still pending, are the message itself, in order.
pub proof fn successive_reads_preserve_the_stream(pending: Seq<u8>, capacities: Seq<nat>)
    ensures
        drain(pending, capacities).0 + drain(pending, capacities).1 == pending,
    decreases capacities.len(),
{
    if capacities.len() > 0 {
        read_splits_pending(pending, capacities[0]);
        successive_reads_preserve_the_stream(
            remaining(pending, capacities[0]),
            capacities.drop_first(),
        );
        let d = delivered(pending, capacities[0]);
        let rest = drain(remaining(pending, capacities[0]), capacities.drop_first());
        assert((d + rest.0) + rest.1 =~= d + (rest.0 + rest.1));
    } else {
        assert(Seq::<u8>::empty() + pending =~= pending);
    }
}

/// The messages, one after the other.
pub open spec fn concat(messages: Seq<Seq<u8>>) -> Seq<u8>
    decreases messages.len(),
{
    if messages.len() == 0 {
        Seq::empty()
    } else {
        messages[0] + concat(messages.drop_first())
    }
}

/// A reader's run over several messages: reads into buffers of the given
/// capacities, each read taking from the pending bytes, and a message being
/// received (`offer`) whenever nothing is pending. Gives the bytes handed
/// out, what is left pending, and the messages not received yet. The run
/// stops when the capacities run out, or when a read waits for a message
/// that does not come.
pub open spec fn read_run(pending: Seq<u8>, messages: Seq<Seq<u8>>, capacities: Seq<nat>) -> (
    Seq<u8>,
    Seq<u8>,
    Seq<Seq<u8>>,
)
    decreases capacities.len(), messages.len(),
{
    if capacities.len() == 0 {
        (Seq::empty(), pending, messages)
    } else if pending.len() == 0 {
        if messages.len() == 0 {
            (Seq::empty(), pending, messages)
        } else {
            read_run(messages[0], messages.drop_first(), capacities)
        }
    } else {
        let rest = read_run(remaining(pending, capacities[0]), messages, capacities.drop_first());
        (delivered(pending, capacities[0]) + rest.0, rest.1, rest.2)
    }
}

/// Across messages too, the link is a byte stream: whatever the sizes of the
/// reads and of the messages (empty ones included), the bytes handed out,
/// then what is pending, then the messages not received yet, are the pending
/// bytes and all the messages, in order.
pub proof fn reads_across_messages_preserve_the_stream(
    pending: Seq<u8>,
    messages: Seq<Seq<u8>>,
    capacities: Seq<nat>,
)
    ensures
        ({
            let run = read_run(pending, messages, capacities);
            run.0 + run.1 + concat(run.2) == pending + concat(messages)
        }),
    decreases capacities.len(), messages.len(),
{
    let run = read_run(pending, messages, capacities);
    if capacities.len() == 0 {
        assert(Seq::<u8>::empty() + pending =~= pending);
    } else if pending.len() == 0 {
        if messages.len() == 0 {
            assert(Seq::<u8>::empty() + pending =~= pending);
        } else {
            reads_across_messages_preserve_the_stream(
                messages[0],
                messages.drop_first(),
                capacities,
            );
            assert(pending + concat(messages) =~= messages[0] + concat(messages.drop_first()));
        }
    } else {
        let c = capacities[0];
        let rest = read_run(remaining(pending, c), messages, capacities.drop_first());
        reads_across_messages_preserve_the_stream(
            remaining(pending, c),
            messages,
            capacities.drop_first(),
        );
        read_splits_pending(pending, c);
        assert((delivered(pending, c) + rest.0) + rest.1 + concat(rest.2) =~= delivered(pending, c)
            + (rest.0 + rest.1 + concat(rest.2)));
        assert(delivered(pending, c) + (remaining(pending, c) + concat(messages)) =~= (delivered(
            pending,
            c,
        ) + remaining(pending, c)) + concat(messages));
    }
}

/// An exact read of `want` bytes: reads into what is left of the buffer,
/// a message being received whenever nothing is pending, until the buffer is
/// full or no message is left. Gives the bytes written into the buffer, what
/// is left pending, and the messages not received yet.
pub open spec fn exact_run(pending: Seq<u8>, messages: Seq<Seq<u8>>, want: nat) -> (
    Seq<u8>,
    Seq<u8>,
    Seq<Seq<u8>>,
)
    decreases want, messages.len(),
{
    if want == 0 {
        (Seq::empty(), pending, messages)
    } else if pending.len() == 0 {
        if messages.len() == 0 {
            (Seq::empty(), pending, messages)
        } else {
            exact_run(messages[0], messages.drop_first(), want)
        }
    } else {
        let n = read_count(pending, want);
        let rest = exact_run(remaining(pending, want), messages, (want - n) as nat);
        (delivered(pending, want) + rest.0, rest.1, rest.2)
    }
}

/// An exact read fills its buffer with the next bytes of the stream, across
/// as many messages as it takes, and the next read goes on right after
/// them: when the pending bytes and the messages hold at least `want`
/// bytes, the buffer gets exactly the first `want` of them and the rest
/// stays, in order. An exact read of nothing receives no message.
pub proof fn exact_read_fills_from_the_stream(
    pending: Seq<u8>,
    messages: Seq<Seq<u8>>,
    want: nat,
)
    ensures
        ({
            let run = exact_run(pending, messages, want);
            let stream = pending + concat(messages);
            &&& run.0 + run.1 + concat(run.2) == stream
            &&& run.0.len() <= want
            &&& stream.len() >= want ==> run.0 == stream.take(want as int) && run.1 + concat(
                run.2,
            ) == stream.skip(want as int)
            &&& want == 0 ==> run == (Seq::<u8>::empty(), pending, messages)
        }),
    decreases want, messages.len(),
{
    let run = exact_run(pending, messages, want);
    let stream = pending + concat(messages);
    if want == 0 {
        assert(Seq::<u8>::empty() + pending =~= pending);
    } else if pending.len() == 0 {
        if messages.len() == 0 {
            assert(Seq::<u8>::empty() + pending =~= pending);
            assert(concat(messages) =~= Seq::<u8>::empty());
        } else {
            exact_read_fills_from_the_stream(messages[0], messages.drop_first(), want);
            assert(stream =~= messages[0] + concat(messages.drop_first()));
        }
    } else {
        let n = read_count(pending, want);
        let d = delivered(pending, want);
        let rem = remaining(pending, want);
        let rest = exact_run(rem, messages, (want - n) as nat);
        exact_read_fills_from_the_stream(rem, messages, (want - n) as nat);
        read_splits_pending(pending, want);
        assert(d.len() == n);
        assert((d + rest.0) + rest.1 + concat(rest.2) =~= d + (rest.0 + rest.1 + concat(rest.2)));
        assert(d + (rem + concat(messages)) =~= (d + rem) + concat(messages));
        if stream.len() >= want {
            let sub = rem + concat(messages);
            assert(stream =~= d + sub);
            assert(sub.len() >= want - n);
            assert(rest.0 =~= sub.take(want - n));
            assert(d + rest.0 =~= stream.take(want as int));
            assert(rest.1 + concat(rest.2) =~= sub.skip(want - n));
            assert(sub.skip(want - n) =~= stream.skip(want as int));
        }
    }
}

} // verus!

