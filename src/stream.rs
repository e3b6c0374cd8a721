//! Relay of a streamed upstream response to a caller that may go away.
use vstd::prelude::*;

verus! {

#[derive(Clone, Copy, Debug, PartialEq, Eq, Structural)]
pub enum StreamState {
    Open,
    Cancelled,
    Finished,
}

#[derive(Clone, Copy, Debug, PartialEq, Eq, Structural)]
pub enum ChunkAction {
    /// Forward the chunk to the caller.
    Deliver,
    /// Drop the chunk: the caller is gone or the stream has ended.
    Discard,
}

pub struct StreamRelay {
    pub state: StreamState,
    /// Chunks forwarded so far.
    pub delivered: u64,
}

pub open spec fn chunk_step(st: StreamState) -> ChunkAction {
    if st == StreamState::Open {
        ChunkAction::Deliver
    } else {
        ChunkAction::Discard
    }
}

/// Of `n` chunks arriving in state `st`, how many are forwarded.
pub open spec fn deliveries(st: StreamState, n: nat) -> nat
    decreases n,
{
    if n == 0 {
        0
    } else {
        (if chunk_step(st) == ChunkAction::Deliver {
            1nat
        } else {
            0nat
        }) + deliveries(st, (n - 1) as nat)
    }
}

impl StreamRelay {
    pub fn new() -> (r: StreamRelay)
        ensures
            r.state == StreamState::Open,
            r.delivered == 0,
    {
        StreamRelay { state: StreamState::Open, delivered: 0 }
    }

    /// A chunk came from upstream.
    pub fn on_chunk(&mut self) -> (r: ChunkAction)
        ensures
            r == chunk_step(old(self).state),
            final(self).state == old(self).state,
            final(self).delivered == (if r == ChunkAction::Deliver && old(self).delivered < u64::MAX {
                (old(self).delivered + 1) as u64
            } else {
                old(self).delivered
            }),
    {
        match self.state {
            StreamState::Open => {
                if self.delivered < u64::MAX {
                    self.delivered = self.delivered + 1;
                }
                ChunkAction::Deliver
            },
            _ => ChunkAction::Discard,
        }
    }

    /// The caller went away. Returns whether the upstream connection must be
    /// released now (it still was open).
    pub fn cancel(&mut self) -> (release: bool)
        ensures
            release == (old(self).state == StreamState::Open),
            final(self).state == (if old(self).state == StreamState::Open {
                StreamState::Cancelled
            } else {
                old(self).state
            }),
            final(self).delivered == old(self).delivered,
    {
        if self.state == StreamState::Open {
            self.state = StreamState::Cancelled;
            true
        } else {
            false
        }
    }

    /// Upstream ended the stream.
    pub fn finish(&mut self)
        ensures
            final(self).state == (if old(self).state == StreamState::Open {
                StreamState::Finished
            } else {
                old(self).state
            }),
            final(self).delivered == old(self).delivered,
    {
        if self.state == StreamState::Open {
            self.state = StreamState::Finished;
        }
    }
}

/// After cancellation no chunk reaches the caller, however many arrive.
pub proof fn lemma_no_delivery_after_cancel(n: nat)
    ensures
        deliveries(StreamState::Cancelled, n) == 0,
    decreases n,
{
    if n > 0 {
        lemma_no_delivery_after_cancel((n - 1) as nat);
    }
}

} // verus!
