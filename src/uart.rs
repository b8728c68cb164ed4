//! UART state shared by the CPU and the session pump.
//!
//! The queues and the clear-to-send flag live for the whole emulator process
//! and survive VDP reconnections. The CPU side pushes transmitted bytes and
//! pops received ones; the pump drains the one and fills the other.

use vstd::prelude::*;

use std::collections::VecDeque;

verus! {

/// The transmit queue after the CPU offers `byte` under the flag `cts`.
pub open spec fn tx_after_try(tx: Seq<u8>, cts: bool, byte: u8) -> Seq<u8> {
    if cts {
        tx.push(byte)
    } else {
        tx
    }
}

/// The transmit queue after the CPU offers each of `bytes` in turn.
pub open spec fn tx_after_tries(tx: Seq<u8>, cts: bool, bytes: Seq<u8>) -> Seq<u8>
    decreases bytes.len(),
{
    if bytes.len() == 0 {
        tx
    } else {
        tx_after_tries(tx_after_try(tx, cts, bytes[0]), cts, bytes.drop_first())
    }
}

/// Backpressure: while the VDP is not clear to send, bytes the CPU offers
/// leave the transmit queue as it was, so no byte of theirs reaches an
/// outgoing frame; once it is clear again, offered bytes join the queue in
/// order.
pub proof fn lemma_cts_backpressure(tx: Seq<u8>, bytes: Seq<u8>)
    ensures
        tx_after_tries(tx, false, bytes) == tx,
        tx_after_tries(tx, true, bytes) == tx + bytes,
    decreases bytes.len(),
{
    if bytes.len() > 0 {
        lemma_cts_backpressure(tx, bytes.drop_first());
        lemma_cts_backpressure(tx.push(bytes[0]), bytes.drop_first());
        assert(tx.push(bytes[0]) + bytes.drop_first() =~= tx + bytes);
    } else {
        assert(tx + bytes =~= tx);
    }
}

/// Transmit and receive queues and the clear-to-send flag.
#[derive(Debug)]
pub struct SocketState {
    /// Bytes from the CPU to the VDP, oldest first.
    pub tx_queue: VecDeque<u8>,
    /// Bytes from the VDP to the CPU, oldest first.
    pub rx_queue: VecDeque<u8>,
    /// Whether the VDP accepts more bytes.
    pub cts: bool,
}

impl SocketState {
    /// Empty queues; the VDP is taken to be ready until it says otherwise.
    pub fn new() -> (s: Self)
        ensures
            s.tx_queue@ == Seq::<u8>::empty(),
            s.rx_queue@ == Seq::<u8>::empty(),
            s.cts,
    {
        SocketState { tx_queue: VecDeque::new(), rx_queue: VecDeque::new(), cts: true }
    }

    /// CPU side: queues one transmitted byte.
    pub fn send(&mut self, byte: u8)
        ensures
            final(self).tx_queue@ == old(self).tx_queue@.push(byte),
            final(self).rx_queue@ == old(self).rx_queue@,
            final(self).cts == old(self).cts,
    {
        self.tx_queue.push_back(byte);
    }

    /// CPU side: queues a byte only while the VDP is clear to receive, and
    /// says whether it did; a refused byte stays with the caller.
    pub fn try_send(&mut self, byte: u8) -> (sent: bool)
        ensures
            sent == old(self).cts,
            final(self).tx_queue@ == tx_after_try(old(self).tx_queue@, old(self).cts, byte),
            final(self).rx_queue@ == old(self).rx_queue@,
            final(self).cts == old(self).cts,
    {
        if self.cts {
            self.tx_queue.push_back(byte);
            true
        } else {
            false
        }
    }

    /// CPU side: takes the oldest received byte, if any.
    pub fn recv(&mut self) -> (r: Option<u8>)
        ensures
            match r {
                Some(b) => old(self).rx_queue@.len() > 0 && b == old(self).rx_queue@[0]
                    && final(self).rx_queue@ == old(self).rx_queue@.drop_first(),
                None => old(self).rx_queue@.len() == 0 && final(self).rx_queue@
                    == old(self).rx_queue@,
            },
            final(self).tx_queue@ == old(self).tx_queue@,
            final(self).cts == old(self).cts,
    {
        let r = self.rx_queue.pop_front();
        proof {
            if r is Some {
                assert(old(self).rx_queue@.drop_first() =~= old(self).rx_queue@.subrange(
                    1,
                    old(self).rx_queue@.len() as int,
                ));
            }
        }
        r
    }

    /// CPU side: whether the VDP is clear to receive.
    pub fn read_clear_to_send(&self) -> (r: bool)
        ensures
            r == self.cts,
    {
        self.cts
    }

    /// Pump side: takes every queued transmit byte, oldest first.
    pub fn drain_tx(&mut self) -> (r: Vec<u8>)
        ensures
            r@ == old(self).tx_queue@,
            final(self).tx_queue@ == Seq::<u8>::empty(),
            final(self).rx_queue@ == old(self).rx_queue@,
            final(self).cts == old(self).cts,
    {
        let mut r: Vec<u8> = Vec::new();
        let ghost start = self.tx_queue@;
        while self.tx_queue.len() > 0
            invariant
                r@ + self.tx_queue@ == start,
                self.rx_queue@ == old(self).rx_queue@,
                self.cts == old(self).cts,
            decreases self.tx_queue@.len(),
        {
            match self.tx_queue.pop_front() {
                Some(b) => {
                    r.push(b);
                    assert(r@ + self.tx_queue@ =~= start);
                },
                None => {},
            }
        }
        assert(r@ =~= start);
        r
    }

    /// Pump side: appends bytes received from the VDP, in order.
    pub fn queue_rx(&mut self, bytes: &[u8])
        ensures
            final(self).rx_queue@ == old(self).rx_queue@ + bytes@,
            final(self).tx_queue@ == old(self).tx_queue@,
            final(self).cts == old(self).cts,
    {
        let mut i: usize = 0;
        while i < bytes.len()
            invariant
                i <= bytes@.len(),
                self.rx_queue@ == old(self).rx_queue@ + bytes@.subrange(0, i as int),
                self.tx_queue@ == old(self).tx_queue@,
                self.cts == old(self).cts,
            decreases bytes@.len() - i,
        {
            self.rx_queue.push_back(bytes[i]);
            i = i + 1;
            assert(self.rx_queue@ =~= old(self).rx_queue@ + bytes@.subrange(0, i as int));
        }
        assert(bytes@.subrange(0, i as int) =~= bytes@);
    }

    /// Pump side: records the VDP's clear-to-send status.
    pub fn set_cts(&mut self, ready: bool)
        ensures
            final(self).cts == ready,
            final(self).tx_queue@ == old(self).tx_queue@,
            final(self).rx_queue@ == old(self).rx_queue@,
    {
        self.cts = ready;
    }
}

/// A serial link with nothing attached: it drops what it is sent, never
/// receives, and is always clear to send.
#[derive(Debug, Clone, Copy)]
pub struct DummySerialLink;

impl DummySerialLink {
    pub fn send(&mut self, byte: u8) {
    }

    pub fn recv(&mut self) -> (r: Option<u8>)
        ensures
            r is None,
    {
        None
    }

    pub fn read_clear_to_send(&mut self) -> (r: bool)
        ensures
            r,
    {
        true
    }
}

} // verus!
