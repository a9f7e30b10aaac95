use vstd::prelude::*;

use crate::types::DriverError;

verus! {

/// A duplex byte stream to the device, together with its configured read
/// timeout.
///
/// The ghost state is the transmit log `tx()` — every byte written to the
/// wire on this connection so far, in order — the receive stream `rx()` —
/// the bytes the device delivers, in order, consumed from the front by
/// reads — and the read timeout in milliseconds. The driver's proofs about
/// wire traffic rest on these contracts; implementations live outside the
/// verified library (a real serial port, or a test double), so each method
/// promises only what any byte stream can keep: reads and writes may fail
/// at any point, and no method promises to succeed.
pub trait SerialLink: Sized {
    /// Every byte written to the wire on this connection so far. (The
    /// defaults on these ghost members only spare unverified
    /// implementations from writing ghost code; the driver is generic and
    /// never sees them.)
    open spec fn tx(&self) -> Seq<u8> {
        Seq::empty()
    }

    /// The bytes the device delivers, not yet consumed by a read.
    open spec fn rx(&self) -> Seq<u8> {
        Seq::empty()
    }

    /// The configured read timeout, in milliseconds.
    open spec fn timeout_ms(&self) -> u64 {
        0
    }

    /// Write all of `data` to the wire. On failure some prefix of `data`
    /// may have reached the wire.
    fn write_all(&mut self, data: &[u8]) -> (r: Result<(), DriverError>)
        ensures
            final(self).rx() == old(self).rx(),
            final(self).timeout_ms() == old(self).timeout_ms(),
            r is Ok ==> final(self).tx() == old(self).tx() + data@,
            r is Err ==> exists|k: int|
                0 <= k <= data@.len() && final(self).tx() == old(self).tx() + data@.take(k),
            r is Err ==> (r->Err_0 is Timeout || r->Err_0 is IOError),
    ;

    /// Read exactly `n` bytes, blocking up to the timeout. On failure some
    /// prefix of the stream may have been consumed.
    fn read_exact(&mut self, n: usize) -> (r: Result<Vec<u8>, DriverError>)
        ensures
            final(self).tx() == old(self).tx(),
            final(self).timeout_ms() == old(self).timeout_ms(),
            r is Ok ==> n <= old(self).rx().len() && r->Ok_0@ == old(self).rx().take(n as int)
                && final(self).rx() == old(self).rx().skip(n as int),
            r is Err ==> exists|k: int|
                0 <= k <= old(self).rx().len() && final(self).rx() == old(self).rx().skip(k),
            r is Err ==> (r->Err_0 is Timeout || r->Err_0 is IOError),
    ;

    /// Read whatever is promptly available, up to `max` bytes; an empty
    /// result means nothing arrived within the timeout.
    fn read_some(&mut self, max: usize) -> (r: Result<Vec<u8>, DriverError>)
        ensures
            final(self).tx() == old(self).tx(),
            final(self).timeout_ms() == old(self).timeout_ms(),
            r is Ok ==> r->Ok_0@.len() <= max && r->Ok_0@.len() <= old(self).rx().len()
                && r->Ok_0@ == old(self).rx().take(r->Ok_0@.len() as int)
                && final(self).rx() == old(self).rx().skip(r->Ok_0@.len() as int),
            r is Err ==> final(self).rx() == old(self).rx(),
            r is Err ==> (r->Err_0 is Timeout || r->Err_0 is IOError),
    ;

    /// Force buffered writes out to the wire.
    fn flush(&mut self) -> (r: Result<(), DriverError>)
        ensures
            final(self).tx() == old(self).tx(),
            final(self).rx() == old(self).rx(),
            final(self).timeout_ms() == old(self).timeout_ms(),
            r is Err ==> r->Err_0 is IOError,
    ;

    /// Set the read timeout.
    fn set_timeout_ms(&mut self, ms: u64) -> (r: Result<(), DriverError>)
        ensures
            final(self).tx() == old(self).tx(),
            final(self).rx() == old(self).rx(),
            r is Ok ==> final(self).timeout_ms() == ms,
            r is Err ==> final(self).timeout_ms() == old(self).timeout_ms(),
            r is Err ==> r->Err_0 is IOError,
    ;
}

/// Supplies a connection to the physical serial endpoint on demand: the
/// transport provider.
///
/// The driver never discovers ports itself; it asks the provider for a
/// fresh connection at construction and on every mode-switch reconnect.
/// Implementations live outside the verified library. The ghost counter
/// `attempts()` counts the calls made to `open`, which lets contracts bound
/// the reconnect loop.
pub trait SerialFactory: Sized {
    type Port: SerialLink;

    /// How many times `open` has been asked for a connection.
    open spec fn attempts(&self) -> nat {
        0
    }

    /// Ask the provider for a fresh connection. A fresh connection has had
    /// nothing written to it; failure means no candidate port (or an
    /// ambiguous set of candidates) was available.
    fn open(&mut self) -> (r: Result<Self::Port, DriverError>)
        ensures
            final(self).attempts() == old(self).attempts() + 1,
            r is Ok ==> r->Ok_0.tx() == Seq::<u8>::empty(),
            r is Err ==> r->Err_0 is TransportUnavailable,
    ;
}

} // verus!
