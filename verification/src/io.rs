//! The I/O client interface, as data: a block source serves light blocks by
//! height. The in-memory source is deterministic, so the driver and the fork
//! detector are verified against exactly what a peer will answer.

use vstd::prelude::*;
use crate::types::{Duration, Height, LightBlock, PeerId, same_block};

verus! {

/// Why a fetch failed.
#[derive(Clone, Copy, PartialEq, Eq, Structural, Debug)]
pub enum IoErrorKind {
    Timeout(Duration),
    Transport,
    InvalidResponse,
    HeightTooHigh,
}

impl IoErrorKind {
    /// Callers may retry only timeouts and transport faults.
    pub open spec fn retryable(self) -> bool {
        self is Timeout || self is Transport
    }

    pub fn is_retryable(&self) -> (r: bool)
        ensures
            r == self.retryable(),
    {
        match self {
            IoErrorKind::Timeout(_) => true,
            IoErrorKind::Transport => true,
            _ => false,
        }
    }
}

/// A peer, as the deterministic map of what it answers: the blocks it serves,
/// and an optional failure it gives to every request.
pub struct BlockSource {
    pub peer_id: PeerId,
    pub blocks: Vec<LightBlock>,
    pub fail: Option<IoErrorKind>,
}

impl BlockSource {
    /// Every served block is internally well-formed and heights are unique.
    pub open spec fn wf(self) -> bool {
        &&& forall|i: int| 0 <= i < self.blocks@.len()
            ==> (#[trigger] self.blocks@[i]).basic_wf()
        &&& forall|i: int, j: int|
            0 <= i < self.blocks@.len() && 0 <= j < self.blocks@.len() && i != j
                ==> self.blocks@[i].height() != self.blocks@[j].height()
    }

    pub open spec fn has_block(self, h: Height) -> bool {
        exists|i: int| 0 <= i < self.blocks@.len() && self.blocks@[i].height() == h
    }

    /// The block this peer serves at height `h` (meaningful when it has one).
    pub open spec fn block_at(self, h: Height) -> LightBlock {
        self.blocks@[choose|i: int| 0 <= i < self.blocks@.len() && self.blocks@[i].height() == h]
    }

    /// Fetch the block at height `h`: a copy of what this peer serves there,
    /// `HeightTooHigh` where it serves nothing, or the peer's failure.
    pub fn fetch(&self, h: Height) -> (r: Result<LightBlock, IoErrorKind>)
        requires
            self.wf(),
        ensures
            self.fail is Some ==> r == Err::<LightBlock, IoErrorKind>(self.fail.unwrap()),
            self.fail is None && self.has_block(h) ==> ({
                &&& r is Ok
                &&& same_block(r.unwrap(), self.block_at(h))
                &&& r.unwrap().basic_wf()
                &&& r.unwrap().height() == h
            }),
            self.fail is None && !self.has_block(h)
                ==> r == Err::<LightBlock, IoErrorKind>(IoErrorKind::HeightTooHigh),
    {
        match self.fail {
            Some(k) => Err(k),
            None => {
                let mut i: usize = 0;
                while i < self.blocks.len()
                    invariant
                        i <= self.blocks@.len(),
                        self.wf(),
                        self.fail is None,
                        forall|j: int| 0 <= j < i
                            ==> (#[trigger] self.blocks@[j]).height() != h,
                    decreases self.blocks@.len() - i,
                {
                    if self.blocks[i].signed_header.header.height == h {
                        let b = crate::types::copy_block(&self.blocks[i]);
                        proof {
                            let j = choose|j: int|
                                0 <= j < self.blocks@.len() && self.blocks@[j].height() == h;
                            assert(j == i as int);
                            crate::verification::lemma_same_block_props(b, self.blocks@[i as int]);
                        }
                        return Ok(b);
                    }
                    i = i + 1;
                }
                Err(IoErrorKind::HeightTooHigh)
            },
        }
    }

    /// Fetch the block at the greatest height this peer serves.
    pub fn fetch_latest(&self) -> (r: Result<LightBlock, IoErrorKind>)
        requires
            self.wf(),
        ensures
            self.fail is Some ==> r == Err::<LightBlock, IoErrorKind>(self.fail.unwrap()),
            self.fail is None && self.blocks@.len() > 0 ==> ({
                &&& r is Ok
                &&& r.unwrap().basic_wf()
                &&& self.has_block(r.unwrap().height())
                &&& same_block(r.unwrap(), self.block_at(r.unwrap().height()))
                &&& forall|i: int| 0 <= i < self.blocks@.len()
                    ==> (#[trigger] self.blocks@[i]).height() <= r.unwrap().height()
            }),
            self.fail is None && self.blocks@.len() == 0
                ==> r == Err::<LightBlock, IoErrorKind>(IoErrorKind::InvalidResponse),
    {
        match self.fail {
            Some(k) => Err(k),
            None => {
                if self.blocks.len() == 0 {
                    return Err(IoErrorKind::InvalidResponse);
                }
                let mut best: usize = 0;
                let mut i: usize = 1;
                while i < self.blocks.len()
                    invariant
                        best < i <= self.blocks@.len(),
                        self.blocks@.len() > 0,
                        forall|j: int| 0 <= j < i
                            ==> (#[trigger] self.blocks@[j]).height()
                                <= self.blocks@[best as int].height(),
                    decreases self.blocks@.len() - i,
                {
                    if self.blocks[i].signed_header.header.height
                        > self.blocks[best].signed_header.header.height
                    {
                        best = i;
                    }
                    i = i + 1;
                }
                let b = crate::types::copy_block(&self.blocks[best]);
                proof {
                    let h = self.blocks@[best as int].height();
                    assert(self.blocks@[best as int].height() == h);
                    assert(self.has_block(h));
                    let j = choose|j: int|
                        0 <= j < self.blocks@.len() && self.blocks@[j].height() == h;
                    assert(j == best as int);
                    crate::verification::lemma_same_block_props(b, self.blocks@[best as int]);
                }
                Ok(b)
            },
        }
    }

    /// Fetch with the retry policy: a retryable failure (timeout, transport)
    /// is retried against the same peer at most `max_retries` times before it
    /// is surfaced; any other outcome is surfaced at once.
    pub fn fetch_with_retries(&self, h: Height, max_retries: u64) -> (r: Result<LightBlock, IoErrorKind>)
        requires
            self.wf(),
        ensures
            self.fail is Some ==> r == Err::<LightBlock, IoErrorKind>(self.fail.unwrap()),
            self.fail is None && self.has_block(h) ==> ({
                &&& r is Ok
                &&& same_block(r.unwrap(), self.block_at(h))
                &&& r.unwrap().basic_wf()
                &&& r.unwrap().height() == h
            }),
            self.fail is None && !self.has_block(h)
                ==> r == Err::<LightBlock, IoErrorKind>(IoErrorKind::HeightTooHigh),
    {
        let mut attempts: u64 = 0;
        loop
            invariant
                self.wf(),
                attempts <= max_retries,
            decreases max_retries - attempts,
        {
            let r = self.fetch(h);
            match r {
                Ok(b) => {
                    return Ok(b);
                },
                Err(k) => {
                    if attempts < max_retries && k.is_retryable() {
                        attempts = attempts + 1;
                    } else {
                        return Err(k);
                    }
                },
            }
        }
    }
}

} // verus!
