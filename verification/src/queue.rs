//! The two ends of a byte queue between an interrupt handler and the rest of the
//! firmware.
//!
//! The queue is a single-producer single-consumer queue of the `heapless` crate. Its
//! ends are held in different contexts and each may run while the other is at work. An
//! end knows what has passed through it, and how far it has seen the other end come:
//! bytes that the producing end has seen leave make room for good, because only that end
//! fills the queue, and bytes that the consuming end has seen enter stay until they are
//! taken, because only that end takes bytes out.
//!
//! The two ends share one thing, which never changes: which byte is the n-th to pass
//! through the queue. Each end has come to some point of that stream.
use heapless::spsc::{Consumer, Producer, Queue};
use vstd::prelude::*;

verus! {

/// A queue of the `heapless` crate.
#[verifier::external_type_specification]
#[verifier::external_body]
#[verifier::reject_recursive_types(T)]
pub struct ExQueue<T, const N: usize>(Queue<T, N>);

/// The producing end of a queue of the `heapless` crate.
#[verifier::external_type_specification]
#[verifier::external_body]
#[verifier::reject_recursive_types(T)]
pub struct ExProducer<'a, T, const N: usize>(Producer<'a, T, N>);

/// The consuming end of a queue of the `heapless` crate.
#[verifier::external_type_specification]
#[verifier::external_body]
#[verifier::reject_recursive_types(T)]
pub struct ExConsumer<'a, T, const N: usize>(Consumer<'a, T, N>);

/// A byte queue with room for `N - 1` bytes.
pub struct ByteQueue<const N: usize> {
    queue: Queue<u8, N>,
    held: Ghost<Seq<u8>>,
}

/// The producing end of a byte queue.
pub struct QueueProducer<'a, const N: usize> {
    end: Producer<'a, u8, N>,
    stream: Ghost<spec_fn(nat) -> u8>,
    entered: Ghost<nat>,
    taken: Ghost<nat>,
    looks: Ghost<Seq<bool>>,
}

/// The consuming end of a byte queue.
pub struct QueueConsumer<'a, const N: usize> {
    end: Consumer<'a, u8, N>,
    stream: Ghost<spec_fn(nat) -> u8>,
    left: Ghost<nat>,
    arrived: Ghost<nat>,
    looks: Ghost<Seq<Option<u8>>>,
}

/// The first bytes of a stream.
spec fn first_bytes(stream: spec_fn(nat) -> u8, count: nat) -> Seq<u8> {
    Seq::new(count, |i: int| stream(i as nat))
}

/// Whether these are the ends of a queue that holds `contents`, as they are handed out:
/// what the queue holds has entered, nothing has left, and both ends have seen it so.
pub open spec fn are_ends_of<const N: usize>(
    contents: Seq<u8>,
    producer: QueueProducer<'_, N>,
    consumer: QueueConsumer<'_, N>,
) -> bool {
    &&& producer.stream() == consumer.stream()
    &&& producer.enqueued() == contents
    &&& producer.taken() == 0
    &&& producer.looks() == Seq::<bool>::empty()
    &&& producer.wf()
    &&& consumer.dequeued() == Seq::<u8>::empty()
    &&& consumer.arrived() == contents.len()
    &&& consumer.looks() == Seq::<Option<u8>>::empty()
    &&& consumer.wf()
}

/// `heapless::spsc::Queue::new`: a queue that holds nothing. It exists for a size of at
/// least two only.
#[verifier::external_body]
fn new_queue<const N: usize>() -> (queue: ByteQueue<N>)
    requires
        N > 1,
    ensures
        queue.contents() == Seq::<u8>::empty(),
{
    ByteQueue { queue: Queue::new(), held: Ghost(Seq::empty()) }
}

/// `heapless::spsc::Queue::split`: the two ends of a queue, at one stream that begins with
/// what the queue holds, which is at most `N - 1` bytes. What the queue holds when the
/// ends are given up is not said.
#[verifier::external_body]
fn split_queue<'a, const N: usize>(queue: &'a mut ByteQueue<N>) -> (ends: (
    QueueProducer<'a, N>,
    QueueConsumer<'a, N>,
))
    ensures
        are_ends_of(old(queue).contents(), ends.0, ends.1),
{
    let (end, other) = queue.queue.split();
    let (stream, count, looks) = (Ghost(arbitrary()), Ghost(0), Ghost(Seq::empty()));
    (
        QueueProducer { end, stream, entered: count, taken: count, looks },
        QueueConsumer { end: other, stream, left: count, arrived: count, looks: Ghost(Seq::empty()) },
    )
}

impl<const N: usize> ByteQueue<N> {
    /// The bytes in the queue, oldest first.
    pub closed spec fn contents(&self) -> Seq<u8> {
        self.held@
    }

    /// A queue that holds nothing.
    pub fn new() -> (queue: Self)
        requires
            N > 1,
        ensures
            queue.contents() == Seq::<u8>::empty(),
    {
        new_queue()
    }
}

/// The two ends of a byte queue.
pub fn split<'a, const N: usize>(queue: &'a mut ByteQueue<N>) -> (ends: (
    QueueProducer<'a, N>,
    QueueConsumer<'a, N>,
))
    ensures
        are_ends_of(old(queue).contents(), ends.0, ends.1),
{
    split_queue(queue)
}

impl<'a, const N: usize> QueueProducer<'a, N> {
    /// Which byte is the n-th to pass through the queue.
    pub closed spec fn stream(&self) -> spec_fn(nat) -> u8 {
        self.stream@
    }

    /// The bytes that have entered the queue, oldest first.
    pub closed spec fn enqueued(&self) -> Seq<u8> {
        first_bytes(self.stream@, self.entered@)
    }

    /// How many bytes this end has seen to have left the queue.
    pub closed spec fn taken(&self) -> nat {
        self.taken@
    }

    /// What this end has met each time that it looked for room or put a byte in: whether
    /// there was room.
    pub closed spec fn looks(&self) -> Seq<bool> {
        self.looks@
    }

    /// No byte leaves before it has entered, and the queue holds at most `N - 1` bytes.
    pub open spec fn wf(&self) -> bool {
        self.taken() <= self.enqueued().len() <= self.taken() + (N - 1)
    }

    /// What the queue holds, as far as this end has seen.
    pub open spec fn held(&self) -> Seq<u8> {
        self.enqueued().skip(self.taken() as int)
    }

    /// Whether there is room for a byte, as far as this end has seen.
    pub open spec fn has_room(&self) -> bool {
        self.enqueued().len() - self.taken() < N - 1
    }

    /// `heapless::spsc::Producer::ready`: whether there is room for a byte: whether fewer
    /// than `N - 1` of the bytes that have entered have not left. How many the consuming
    /// end has taken is not said, but for those that were seen to leave before.
    #[verifier::external_body]
    pub(crate) fn ready(&mut self) -> (ready: bool)
        ensures
            final(self).stream() == old(self).stream(),
            final(self).enqueued() == old(self).enqueued(),
            old(self).taken() <= final(self).taken(),
            final(self).wf(),
            ready == final(self).has_room(),
            final(self).looks() == old(self).looks().push(ready),
    {
        self.end.ready()
    }

    /// `heapless::spsc::Producer::enqueue`: puts a byte at the end of the queue, or hands
    /// it back where the queue is full: where `N - 1` of the bytes that have entered have
    /// not left. How many the consuming end has taken is not said, but for those that
    /// were seen to leave before.
    #[verifier::external_body]
    pub(crate) fn enqueue(&mut self, byte: u8) -> (result: Result<(), u8>)
        ensures
            final(self).stream() == old(self).stream(),
            old(self).taken() <= final(self).taken() <= old(self).enqueued().len(),
            final(self).wf(),
            result is Ok <==> old(self).enqueued().len() - final(self).taken() < N - 1,
            result is Ok ==> final(self).enqueued() == old(self).enqueued().push(byte),
            result is Err ==> final(self).enqueued() == old(self).enqueued() && result->Err_0
                == byte,
            final(self).looks() == old(self).looks().push(result is Ok),
    {
        self.end.enqueue(byte)
    }
}

impl<'a, const N: usize> QueueConsumer<'a, N> {
    /// Which byte is the n-th to pass through the queue.
    pub closed spec fn stream(&self) -> spec_fn(nat) -> u8 {
        self.stream@
    }

    /// The bytes that have left the queue, oldest first.
    pub closed spec fn dequeued(&self) -> Seq<u8> {
        first_bytes(self.stream@, self.left@)
    }

    /// How many bytes this end has seen to have entered the queue.
    pub closed spec fn arrived(&self) -> nat {
        self.arrived@
    }

    /// What this end has seen at the front of the queue each time that it looked.
    pub closed spec fn looks(&self) -> Seq<Option<u8>> {
        self.looks@
    }

    /// No byte leaves before it has entered, and the queue holds at most `N - 1` bytes.
    pub open spec fn wf(&self) -> bool {
        self.dequeued().len() <= self.arrived() <= self.dequeued().len() + (N - 1)
    }

    /// The byte at the front of the queue, as far as this end has seen: the next one of
    /// the stream, where it has entered.
    pub open spec fn front(&self) -> Option<u8> {
        if self.dequeued().len() < self.arrived() {
            Some((self.stream())(self.dequeued().len()))
        } else {
            None
        }
    }

    /// `heapless::spsc::Consumer::peek`: the byte at the front of the queue, if any: the
    /// next one of the stream, where more bytes have entered than have left. How many the
    /// producing end has put in is not said, but for those that were seen to enter
    /// before.
    #[verifier::external_body]
    pub(crate) fn peek(&mut self) -> (byte: Option<u8>)
        ensures
            final(self).stream() == old(self).stream(),
            final(self).dequeued() == old(self).dequeued(),
            old(self).arrived() <= final(self).arrived(),
            final(self).wf(),
            byte == final(self).front(),
            final(self).looks() == old(self).looks().push(byte),
    {
        self.end.peek().copied()
    }

    /// `heapless::spsc::Consumer::dequeue`: takes the byte at the front out of the queue,
    /// if there is one: the next one of the stream, where more bytes have entered than
    /// have left. How many the producing end has put in is not said, but for those that
    /// were seen to enter before.
    #[verifier::external_body]
    pub(crate) fn dequeue(&mut self) -> (byte: Option<u8>)
        ensures
            final(self).stream() == old(self).stream(),
            old(self).arrived() <= final(self).arrived(),
            final(self).wf(),
            byte is Some <==> old(self).dequeued().len() < final(self).arrived(),
            byte is Some ==> byte->0 == (old(self).stream())(old(self).dequeued().len()),
            byte is Some ==> final(self).dequeued() == old(self).dequeued().push(byte->0),
            byte is None ==> final(self).dequeued() == old(self).dequeued(),
            final(self).looks() == old(self).looks(),
    {
        self.end.dequeue()
    }
}

/// A queue hands out its bytes in the order in which they have entered it: as far as both
/// ends have come, the bytes that left are the bytes that entered. What the consuming end
/// sees at the front is the next of them.
pub proof fn law_first_in_first_out<const N: usize>(
    producer: QueueProducer<'_, N>,
    consumer: QueueConsumer<'_, N>,
)
    requires
        producer.stream() == consumer.stream(),
    ensures
        forall|i: int|
            0 <= i < producer.enqueued().len() && i < consumer.dequeued().len()
                ==> consumer.dequeued()[i] == producer.enqueued()[i],
        consumer.front() is Some && consumer.dequeued().len() < producer.enqueued().len()
            ==> consumer.front()->0 == producer.enqueued()[consumer.dequeued().len() as int],
{
}

/// The ends of a queue start with what it holds: all of it is in the queue, the oldest byte
/// is in front, and no byte has left. A queue that holds nothing has no byte in front and,
/// with a size of at least two, has room.
pub proof fn law_ends_start_with_contents<const N: usize>(
    contents: Seq<u8>,
    producer: QueueProducer<'_, N>,
    consumer: QueueConsumer<'_, N>,
)
    requires
        are_ends_of(contents, producer, consumer),
    ensures
        producer.held() == contents,
        consumer.dequeued().len() == 0,
        contents.len() > 0 ==> consumer.front() == Some(contents[0]),
        contents.len() == 0 ==> consumer.front() is None,
        producer.has_room() <==> contents.len() < N - 1,
{
    law_first_in_first_out(producer, consumer);
    assert(producer.held() =~= contents);
}

} // verus!
