//! The cross-context transport: a bounded byte channel between the capture
//! context (producer side) and the render context (consumer side).
//!
//! The channel is `ringbuf`'s lock-free single-producer/single-consumer ring
//! buffer.  The bytes it holds are modelled by the uninterpreted sequence
//! [`transport_bytes`], oldest first, and its fixed capacity by
//! [`transport_cap`]; the trusted wrappers below state, over that model, what
//! `ringbuf`'s source shows of each call.  Everything above the single-byte
//! operations — the all-or-nothing sample write and the bounded best-effort
//! drain — is verified.

use vstd::prelude::*;

verus! {

/// Producer half of `ringbuf`'s SPSC ring buffer.
#[verifier::external_type_specification]
#[verifier::external_body]
#[verifier::reject_recursive_types(T)]
pub struct ExProducer<T>(ringbuf::Producer<T>);

/// Consumer half of `ringbuf`'s SPSC ring buffer.
#[verifier::external_type_specification]
#[verifier::external_body]
#[verifier::reject_recursive_types(T)]
pub struct ExConsumer<T>(ringbuf::Consumer<T>);

/// The byte channel.  It owns both halves of one ring buffer; the producer
/// half only ever writes, the consumer half only ever reads, so the pair
/// behaves as a single FIFO queue of bytes.
pub struct Transport {
    /// Write side, owned by the capture context.
    prod: ringbuf::Producer<u8>,
    /// Read side, owned by the render context.
    cons: ringbuf::Consumer<u8>,
}

/// The bytes currently queued in the transport, oldest first.
pub uninterp spec fn transport_bytes(t: Transport) -> Seq<u8>;

/// The fixed capacity the transport was created with.
pub uninterp spec fn transport_cap(t: Transport) -> nat;

impl Transport {
    /// Creates an empty transport with the given capacity.
    ///
    /// Relies on `ringbuf::RingBuffer::new`, which allocates a buffer of
    /// exactly `capacity` usable slots, and `split`, which hands out the two
    /// halves of that one buffer.
    #[verifier::external_body]
    pub fn new(capacity: usize) -> (t: Transport)
        ensures
            transport_bytes(t) =~= Seq::<u8>::empty(),
            transport_cap(t) == capacity,
    {
        let (prod, cons) = ringbuf::RingBuffer::<u8>::new(capacity).split();
        Transport { prod, cons }
    }

    /// Number of bytes currently queued.
    ///
    /// Relies on `ringbuf::Producer::len`: the number of elements between
    /// the ring's head and tail, at most its capacity.
    #[verifier::external_body]
    pub fn len(&self) -> (n: usize)
        ensures
            n == transport_bytes(*self).len(),
            n <= transport_cap(*self),
    {
        self.prod.len()
    }

    /// The fixed capacity, in bytes.
    ///
    /// Relies on `ringbuf::Producer::capacity`, which is constant over the
    /// ring's lifetime.
    #[verifier::external_body]
    pub fn capacity(&self) -> (n: usize)
        ensures
            n == transport_cap(*self),
            transport_bytes(*self).len() <= n,
    {
        self.prod.capacity()
    }

    /// Appends one byte.  Fails, leaving the queue unchanged, exactly when
    /// the queue is full.
    ///
    /// Relies on `ringbuf::Producer::push`: it appends the element at the
    /// tail and returns `Err` with the element exactly when the ring is full.
    #[verifier::external_body]
    pub fn push_byte(&mut self, b: u8) -> (ok: bool)
        ensures
            transport_bytes(*old(self)).len() < transport_cap(*old(self)) ==> ok
                && transport_bytes(*final(self)) =~= transport_bytes(*old(self)).push(b),
            transport_bytes(*old(self)).len() >= transport_cap(*old(self)) ==> !ok
                && transport_bytes(*final(self)) =~= transport_bytes(*old(self)),
            transport_cap(*final(self)) == transport_cap(*old(self)),
    {
        self.prod.push(b).is_ok()
    }

    /// Removes and returns the oldest byte, or `None` if the queue is empty.
    ///
    /// Relies on `ringbuf::Consumer::pop`: it removes the element at the
    /// head and returns `None` exactly when the ring is empty.
    #[verifier::external_body]
    pub fn pop_byte(&mut self) -> (r: Option<u8>)
        ensures
            transport_bytes(*old(self)).len() == 0 ==> r is None
                && transport_bytes(*final(self)) =~= transport_bytes(*old(self)),
            transport_bytes(*old(self)).len() > 0 ==> r == Some(transport_bytes(*old(self))[0])
                && transport_bytes(*final(self)) =~= transport_bytes(*old(self)).skip(1),
            transport_cap(*final(self)) == transport_cap(*old(self)),
    {
        self.cons.pop()
    }

    /// Free space left in the queue, in bytes.
    pub fn free(&self) -> (n: usize)
        ensures
            n == transport_cap(*self) - transport_bytes(*self).len(),
    {
        let c = self.capacity();
        let l = self.len();
        c - l
    }

    /// Writes all of `data`, or nothing: the write succeeds exactly when the
    /// free space can take every byte, and a failed write leaves the queued
    /// bytes untouched.
    pub fn try_write(&mut self, data: &[u8]) -> (ok: bool)
        ensures
            ok <==> transport_bytes(*old(self)).len() + data@.len() <= transport_cap(*old(self)),
            ok ==> transport_bytes(*final(self)) =~= transport_bytes(*old(self)) + data@,
            !ok ==> transport_bytes(*final(self)) =~= transport_bytes(*old(self)),
            transport_cap(*final(self)) == transport_cap(*old(self)),
    {
        let n = data.len();
        if self.free() < n {
            assert(transport_bytes(*self) =~= transport_bytes(*old(self)));
            return false;
        }
        let mut i: usize = 0;
        while i < n
            invariant
                i <= n,
                n == data@.len(),
                transport_cap(*self) == transport_cap(*old(self)),
                transport_bytes(*self) =~= transport_bytes(*old(self)) + data@.take(i as int),
                transport_bytes(*old(self)).len() + n <= transport_cap(*old(self)),
            decreases n - i,
        {
            let pushed = self.push_byte(data[i]);
            assert(pushed);
            assert(data@.take(i as int).push(data@[i as int]) =~= data@.take(i + 1));
            i = i + 1;
        }
        assert(data@.take(n as int) =~= data@);
        true
    }

    /// Drains up to `want` bytes: exactly the oldest `min(want, queued)`
    /// bytes, in order, without blocking.  A request beyond what is queued —
    /// an underrun — simply returns the shorter prefix.
    pub fn read_up_to(&mut self, want: usize) -> (r: Vec<u8>)
        ensures
            r@.len() == vstd::math::min(want as int, transport_bytes(*old(self)).len() as int),
            r@ =~= transport_bytes(*old(self)).take(r@.len() as int),
            transport_bytes(*final(self)) =~= transport_bytes(*old(self)).skip(r@.len() as int),
            transport_cap(*final(self)) == transport_cap(*old(self)),
    {
        let mut r: Vec<u8> = Vec::new();
        let mut i: usize = 0;
        while i < want
            invariant
                i <= want,
                r@.len() == vstd::math::min(i as int, transport_bytes(*old(self)).len() as int),
                r@ =~= transport_bytes(*old(self)).take(r@.len() as int),
                transport_bytes(*self) =~= transport_bytes(*old(self)).skip(r@.len() as int),
                transport_cap(*self) == transport_cap(*old(self)),
                r@.len() < i ==> transport_bytes(*self).len() == 0,
            decreases want - i,
        {
            match self.pop_byte() {
                Some(b) => {
                    assert(transport_bytes(*self) =~= transport_bytes(*old(self)).skip(r@.len() as int + 1)) by {
                        assert(transport_bytes(*old(self)).skip(r@.len() as int).skip(1)
                            =~= transport_bytes(*old(self)).skip(r@.len() as int + 1));
                    }
                    assert(transport_bytes(*old(self)).take(r@.len() as int).push(b)
                        =~= transport_bytes(*old(self)).take(r@.len() as int + 1));
                    r.push(b);
                }
                None => {
                }
            }
            i = i + 1;
        }
        r
    }
}

} // verus!
