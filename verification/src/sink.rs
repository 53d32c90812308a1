//! The byte-sink capability that the frame writer transmits through.
//!
//! The WS2812 protocol only needs a blocking transport that accepts buffers
//! of bytes and sends them in order. [`ByteSink`] states exactly that, with
//! a ghost log of the calls made so far — each entry a buffer and whether
//! the transport accepted it; firmware implements it for its SPI
//! peripheral, and [`RecordingSink`] implements it in memory so the framing
//! behavior can be observed and tested.

use vstd::prelude::*;

verus! {

/// A blocking byte transport: one call transmits one buffer of bytes, in
/// order, over the physical bus, and reports a transport-level failure if
/// the bus cannot accept it.
pub trait ByteSink {
    /// The transport's own failure value, surfaced to callers unchanged.
    type Error;

    /// The calls made on this transport so far, in order: each entry holds
    /// the buffer the transport was asked to send and whether it accepted
    /// the call. A refused call is still recorded — the log models what
    /// was asked of the bus, and a transport may fail partway through a
    /// buffer.
    ///
    /// An implementation defines this over its own state; the arbitrary
    /// default stands only so that unverified bus adapters outside the
    /// library can implement the trait without ghost code.
    open spec fn log(&self) -> Seq<(Seq<u8>, bool)> {
        vstd::pervasive::arbitrary()
    }

    /// Transmit `data`, blocking until the bus has accepted it or refused.
    /// Every call appends its buffer to the log, together with its outcome:
    /// accepted exactly when the call returns success. Whether a given call
    /// succeeds is the transport's own affair.
    fn write_bytes(&mut self, data: &[u8]) -> (r: Result<(), Self::Error>)
        ensures
            final(self).log() == old(self).log().push((data@, r is Ok)),
    ;
}

/// The failure value of [`RecordingSink`]: the sink refused a write.
#[derive(Clone, Copy, PartialEq, Eq, Structural, Debug)]
pub struct SinkError;

/// An in-memory transport. It records every buffer written through it and
/// can be told to refuse one particular call, which makes transport
/// failures reproducible.
pub struct RecordingSink {
    /// Every buffer handed to `write_bytes`, in call order.
    pub writes: Vec<Vec<u8>>,
    /// If `Some(k)`, the `k`-th call (counting from one) returns an error.
    pub fail_on: Option<usize>,
}

impl RecordingSink {
    /// A sink that accepts every write.
    pub fn new() -> (r: RecordingSink)
        ensures
            r.log() == Seq::<(Seq<u8>, bool)>::empty(),
            r.fail_on == Option::<usize>::None,
    {
        RecordingSink { writes: Vec::new(), fail_on: None }
    }

    /// A sink that refuses the `k`-th call, counting from one, and accepts
    /// every other.
    pub fn failing_on(k: usize) -> (r: RecordingSink)
        ensures
            r.log() == Seq::<(Seq<u8>, bool)>::empty(),
            r.fail_on == Option::<usize>::Some(k),
    {
        RecordingSink { writes: Vec::new(), fail_on: Some(k) }
    }

    /// Whether this sink accepts its `i`-th call, counting from zero.
    pub open spec fn spec_accepts_call(&self, i: int) -> bool {
        !(self.fail_on is Some && self.fail_on->Some_0 == i + 1)
    }
}

impl ByteSink for RecordingSink {
    type Error = SinkError;

    open spec fn log(&self) -> Seq<(Seq<u8>, bool)> {
        self.writes@.map(|i: int, w: Vec<u8>| (w@, self.spec_accepts_call(i)))
    }

    fn write_bytes(&mut self, data: &[u8]) -> (r: Result<(), SinkError>)
        ensures
            final(self).fail_on == old(self).fail_on,
            r is Err <==> (old(self).fail_on is Some && old(self).fail_on->Some_0 == old(
                self,
            ).writes@.len() + 1),
    {
        let mut copy: Vec<u8> = Vec::new();
        let mut i: usize = 0;
        while i < data.len()
            invariant
                i <= data@.len(),
                copy@ == data@.take(i as int),
            decreases data@.len() - i,
        {
            copy.push(data[i]);
            proof {
                assert(copy@ =~= data@.take(i + 1));
            }
            i = i + 1;
        }
        proof {
            assert(copy@ =~= data@);
        }
        self.writes.push(copy);
        let failed = match self.fail_on {
            Some(k) => self.writes.len() == k,
            None => false,
        };
        proof {
            assert(self.log() =~= old(self).log().push((data@, !failed)));
        }
        if failed {
            Err(SinkError)
        } else {
            Ok(())
        }
    }
}

} // verus!
