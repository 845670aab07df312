use vstd::prelude::*;

use embassy_sync::blocking_mutex::raw::NoopRawMutex;
use embassy_sync::channel::{Channel, TrySendError};

use crate::mixer::DACSamplePair;

verus! {

/// Number of DAC sample pairs the queue holds: about 20 ms at 48 kHz.
pub const QUEUE_CAPACITY: usize = 1024;

/// The two words of a pair, as held by the queue.
pub open spec fn words(pair: DACSamplePair) -> (u16, u16) {
    (pair.audio1, pair.audio2)
}

/// Whether a queue holding `items` accepts one more.
pub open spec fn send_accepted(items: Seq<(u16, u16)>) -> bool {
    items.len() < QUEUE_CAPACITY
}

/// Contents after a send: the item joins the back, unless the queue is full.
pub open spec fn after_send(items: Seq<(u16, u16)>, item: (u16, u16)) -> Seq<(u16, u16)> {
    if send_accepted(items) {
        items.push(item)
    } else {
        items
    }
}

/// Contents after a receive: the front item leaves, if there is one.
pub open spec fn after_receive(items: Seq<(u16, u16)>) -> Seq<(u16, u16)> {
    if items.len() > 0 {
        items.drop_first()
    } else {
        items
    }
}

/// Contents after sending each of `xs` in turn, starting from `items`.
pub open spec fn after_sends(items: Seq<(u16, u16)>, xs: Seq<(u16, u16)>) -> Seq<(u16, u16)>
    decreases xs.len(),
{
    if xs.len() == 0 {
        items
    } else {
        after_send(after_sends(items, xs.drop_last()), xs.last())
    }
}

/// Sends into a queue that still has room keep every item, in order.
proof fn lemma_sends_fill(xs: Seq<(u16, u16)>, k: int)
    requires
        0 <= k <= xs.len(),
        k <= QUEUE_CAPACITY,
    ensures
        after_sends(Seq::empty(), xs.take(k)) == xs.take(k),
    decreases k,
{
    if k > 0 {
        lemma_sends_fill(xs, k - 1);
        assert(xs.take(k).drop_last() =~= xs.take(k - 1));
        assert(xs.take(k - 1).push(xs.take(k).last()) =~= xs.take(k));
    }
}

/// First in, first out: sends that all fit into the queue join its back in
/// the order sent, behind what it held; and a receive takes the oldest item
/// and leaves the rest in that order. So pairs pass through the queue with
/// none lost, duplicated or reordered.
pub proof fn lemma_fifo(items: Seq<(u16, u16)>, xs: Seq<(u16, u16)>)
    requires
        items.len() + xs.len() <= QUEUE_CAPACITY,
    ensures
        after_sends(items, xs) == items + xs,
        (items + xs).len() > 0 ==> after_receive(items + xs) == (items + xs).drop_first(),
    decreases xs.len(),
{
    if xs.len() > 0 {
        lemma_fifo(items, xs.drop_last());
        assert((items + xs.drop_last()).push(xs.last()) =~= items + xs);
    } else {
        assert(items + xs =~= items);
    }
}

/// Backpressure: of `QUEUE_CAPACITY + 1` sends into an empty queue with no
/// receive in between, each of the first `QUEUE_CAPACITY` is accepted and the
/// last is refused; the queue then holds the accepted items in the order sent,
/// the oldest at the front. After one receive takes that oldest item, the
/// refused one is accepted, and the queue holds the remaining items in the
/// order sent: none lost, none reordered.
pub proof fn lemma_backpressure(xs: Seq<(u16, u16)>)
    requires
        xs.len() == QUEUE_CAPACITY + 1,
    ensures
        forall|k: int|
            0 <= k < QUEUE_CAPACITY ==> send_accepted(
                #[trigger] after_sends(Seq::empty(), xs.take(k)),
            ),
        !send_accepted(after_sends(Seq::empty(), xs.take(QUEUE_CAPACITY as int))),
        after_sends(Seq::empty(), xs) == xs.take(QUEUE_CAPACITY as int),
        after_sends(Seq::empty(), xs)[0] == xs[0],
        send_accepted(after_receive(after_sends(Seq::empty(), xs))),
        after_send(after_receive(after_sends(Seq::empty(), xs)), xs[QUEUE_CAPACITY as int])
            == xs.drop_first(),
{
    let cap = QUEUE_CAPACITY as int;
    assert forall|k: int| 0 <= k < QUEUE_CAPACITY implies send_accepted(
        #[trigger] after_sends(Seq::empty(), xs.take(k)),
    ) by {
        lemma_sends_fill(xs, k);
    }
    lemma_sends_fill(xs, cap);
    assert(xs.drop_last() =~= xs.take(cap));
    let full = xs.take(cap);
    assert(after_receive(full).push(xs[cap]) =~= xs.drop_first());
}

/// Bounded first-in first-out queue of DAC sample pairs, from a producer to a
/// consumer that runs at the DAC's pace.
///
/// Holds an `embassy_sync` channel, whose methods take `&self` and change it
/// through a lock; this type hands it out through `&mut self` only, so that
/// what it holds can be stated before and after each call.
#[verifier::external_body]
pub struct SampleQueue {
    inner: Channel<NoopRawMutex, DACSamplePair, QUEUE_CAPACITY>,
}

/// The words of the pairs a queue holds, front first.
pub uninterp spec fn queue_contents(q: SampleQueue) -> Seq<(u16, u16)>;

/// Relies on `Channel::new`: a new channel is empty.
#[verifier::external_body]
fn channel_new() -> (r: SampleQueue)
    ensures
        queue_contents(r) == Seq::<(u16, u16)>::empty(),
{
    SampleQueue { inner: Channel::new() }
}

/// Relies on `Channel::try_send`: the message joins the back of the channel's
/// deque unless it already holds `N` messages, in which case it is handed back
/// in `TrySendError::Full`.
#[verifier::external_body]
fn channel_try_send(q: &mut SampleQueue, pair: DACSamplePair) -> (r: Result<(), DACSamplePair>)
    ensures
        (r is Ok) == send_accepted(queue_contents(*old(q))),
        r is Err ==> r->Err_0 == pair,
        queue_contents(*final(q)) == after_send(queue_contents(*old(q)), words(pair)),
{
    q.inner.try_send(pair).map_err(|e| match e {
        TrySendError::Full(p) => p,
    })
}

/// Relies on `Channel::try_receive`: the front message leaves the channel's
/// deque, or `Empty` comes back when there is none.
#[verifier::external_body]
fn channel_try_receive(q: &mut SampleQueue) -> (r: Option<DACSamplePair>)
    ensures
        (r is Some) == (queue_contents(*old(q)).len() > 0),
        r is Some ==> words(r->Some_0) == queue_contents(*old(q))[0],
        queue_contents(*final(q)) == after_receive(queue_contents(*old(q))),
{
    q.inner.try_receive().ok()
}

/// Relies on `Channel::is_full`: whether the channel's deque holds `N`
/// messages.
#[verifier::external_body]
fn channel_is_full(q: &SampleQueue) -> (r: bool)
    ensures
        r == (queue_contents(*q).len() >= QUEUE_CAPACITY),
{
    q.inner.is_full()
}

impl SampleQueue {
    /// The words of the pairs held, front first.
    pub open spec fn items(self) -> Seq<(u16, u16)> {
        queue_contents(self)
    }

    /// An empty queue.
    pub fn new() -> (r: Self)
        ensures
            r.items() == Seq::<(u16, u16)>::empty(),
    {
        channel_new()
    }

    /// Offers a pair to the queue. It is taken, and `true` returned, unless
    /// the queue is full; a producer that gets `false` waits for the consumer.
    pub fn try_send(&mut self, pair: DACSamplePair) -> (r: bool)
        ensures
            r == send_accepted(old(self).items()),
            final(self).items() == after_send(old(self).items(), words(pair)),
    {
        match channel_try_send(self, pair) {
            Ok(()) => true,
            Err(_) => false,
        }
    }

    /// Whether the queue is full, so that a send would be refused.
    pub fn is_full(&self) -> (r: bool)
        ensures
            r == !send_accepted(self.items()),
    {
        channel_is_full(self)
    }

    /// Takes the pair at the front, if there is one.
    pub fn try_receive(&mut self) -> (r: Option<DACSamplePair>)
        ensures
            (r is Some) == (old(self).items().len() > 0),
            r is Some ==> words(r->Some_0) == old(self).items()[0],
            final(self).items() == after_receive(old(self).items()),
    {
        channel_try_receive(self)
    }
}

} // verus!
