//! The light store: typed persistence for light blocks keyed by height with a
//! status label. A height holds at most one block per status; entries are kept
//! in ascending height order.

use vstd::prelude::*;
use crate::types::{Height, LightBlock, Status};

verus! {

/// The slots one height may hold: at most one block per status.
pub struct StoreEntry {
    pub height: Height,
    pub unverified: Option<LightBlock>,
    pub verified: Option<LightBlock>,
    pub trusted: Option<LightBlock>,
    pub failed: Option<LightBlock>,
}

/// The slot of `e` labelled `s`.
pub open spec fn slot_of(e: StoreEntry, s: Status) -> Option<LightBlock> {
    match s {
        Status::Unverified => e.unverified,
        Status::Verified => e.verified,
        Status::Trusted => e.trusted,
        Status::Failed => e.failed,
    }
}

/// A held block bears the entry's height; blocks labelled `Verified` or
/// `Trusted` are fully well-formed, the others at least internally.
pub open spec fn slot_ok(b: Option<LightBlock>, h: Height, full: bool) -> bool {
    match b {
        Some(blk) => blk.height() == h && if full {
            blk.wf()
        } else {
            blk.basic_wf()
        },
        None => true,
    }
}

pub open spec fn entry_ok(e: StoreEntry) -> bool {
    &&& e.height >= 1
    &&& slot_ok(e.unverified, e.height, false)
    &&& slot_ok(e.verified, e.height, true)
    &&& slot_ok(e.trusted, e.height, true)
    &&& slot_ok(e.failed, e.height, false)
}

/// In-memory light store.
pub struct LightStore {
    pub entries: Vec<StoreEntry>,
}

impl LightStore {
    /// Entries are in strictly ascending height order.
    pub open spec fn sorted(self) -> bool {
        forall|i: int, j: int|
            0 <= i < j < self.entries@.len()
                ==> self.entries@[i].height < self.entries@[j].height
    }

    pub open spec fn wf(self) -> bool {
        &&& self.sorted()
        &&& forall|i: int| 0 <= i < self.entries@.len() ==> entry_ok(#[trigger] self.entries@[i])
    }

    pub open spec fn has_height(self, h: Height) -> bool {
        exists|i: int| 0 <= i < self.entries@.len() && self.entries@[i].height == h
    }

    pub open spec fn entry_at(self, h: Height) -> StoreEntry {
        self.entries@[choose|i: int| 0 <= i < self.entries@.len() && self.entries@[i].height == h]
    }

    /// The block stored at `(h, s)`, if any.
    pub open spec fn get_spec(self, h: Height, s: Status) -> Option<LightBlock> {
        if self.has_height(h) {
            slot_of(self.entry_at(h), s)
        } else {
            None
        }
    }

    /// An empty store.
    pub fn new() -> (r: LightStore)
        ensures
            r.wf(),
            forall|h: Height, s: Status| r.get_spec(h, s) is None,
    {
        LightStore { entries: Vec::new() }
    }
}

/// In a sorted store the entry index for a height is unique.
pub proof fn lemma_index_entry(s: LightStore, i: int)
    requires
        s.sorted(),
        0 <= i < s.entries@.len(),
    ensures
        s.has_height(s.entries@[i].height),
        s.entry_at(s.entries@[i].height) == s.entries@[i],
{
    let h = s.entries@[i].height;
    assert(0 <= i < s.entries@.len() && s.entries@[i].height == h);
    let j = choose|j: int| 0 <= j < s.entries@.len() && s.entries@[j].height == h;
    if i < j {
        assert(s.entries@[i].height < s.entries@[j].height);
    }
    if j < i {
        assert(s.entries@[j].height < s.entries@[i].height);
    }
}

/// Replacing the entry at one index leaves every other height's view of the
/// store unchanged.
proof fn lemma_get_spec_same_heights(s1: LightStore, s2: LightStore, i: int, h: Height, st: Status)
    requires
        s1.sorted(),
        s1.entries@.len() == s2.entries@.len(),
        forall|j: int| 0 <= j < s1.entries@.len()
            ==> #[trigger] s2.entries@[j].height == s1.entries@[j].height,
        forall|j: int| 0 <= j < s1.entries@.len() && j != i ==> s2.entries@[j] == s1.entries@[j],
        0 <= i < s1.entries@.len(),
        h != s1.entries@[i].height,
    ensures
        s2.get_spec(h, st) == s1.get_spec(h, st),
{
    assert(s2.sorted());
    if s1.has_height(h) {
        let j1 = choose|j: int| 0 <= j < s1.entries@.len() && s1.entries@[j].height == h;
        assert(s2.entries@[j1].height == h);
        assert(s2.has_height(h));
        lemma_index_entry(s1, j1);
        lemma_index_entry(s2, j1);
        assert(j1 != i);
    } else {
        if s2.has_height(h) {
            let j2 = choose|j: int| 0 <= j < s2.entries@.len() && s2.entries@[j].height == h;
            assert(s1.entries@[j2].height == h);
        }
    }
}

/// Inserting a fresh entry leaves every other height's view unchanged.
proof fn lemma_get_spec_fresh(s1: LightStore, s2: LightStore, pos: int, e: StoreEntry, h: Height, st: Status)
    requires
        s1.sorted(),
        s2.sorted(),
        0 <= pos <= s1.entries@.len(),
        s2.entries@ == s1.entries@.insert(pos, e),
        h != e.height,
    ensures
        s2.get_spec(h, st) == s1.get_spec(h, st),
{
    if s1.has_height(h) {
        let j1 = choose|j: int| 0 <= j < s1.entries@.len() && s1.entries@[j].height == h;
        let j2: int = if j1 < pos { j1 } else { j1 + 1 };
        assert(s2.entries@[j2] == s1.entries@[j1]);
        assert(s2.has_height(h));
        lemma_index_entry(s1, j1);
        lemma_index_entry(s2, j2);
    } else {
        if s2.has_height(h) {
            let j2 = choose|j: int| 0 <= j < s2.entries@.len() && s2.entries@[j].height == h;
            if j2 < pos {
                assert(s1.entries@[j2].height == h);
            } else if j2 == pos {
                assert(s2.entries@[j2] == e);
            } else {
                assert(s1.entries@[j2 - 1].height == h);
            }
        }
    }
}

impl LightStore {
    /// The index holding height `h`, if any.
    fn find_idx(&self, h: Height) -> (r: Option<usize>)
        ensures
            match r {
                Some(i) => i < self.entries@.len() && self.entries@[i as int].height == h,
                None => !self.has_height(h),
            },
    {
        let mut i: usize = 0;
        while i < self.entries.len()
            invariant
                i <= self.entries@.len(),
                forall|j: int| 0 <= j < i ==> self.entries@[j].height != h,
            decreases self.entries@.len() - i,
        {
            if self.entries[i].height == h {
                return Some(i);
            }
            i = i + 1;
        }
        None
    }

    /// The first index whose height is not below `h` (all of them, if none).
    fn find_pos(&self, h: Height) -> (r: usize)
        requires
            self.sorted(),
        ensures
            r <= self.entries@.len(),
            forall|j: int| 0 <= j < r ==> self.entries@[j].height < h,
            forall|j: int| r <= j < self.entries@.len() ==> self.entries@[j].height >= h,
    {
        let mut i: usize = 0;
        while i < self.entries.len()
            invariant
                i <= self.entries@.len(),
                forall|j: int| 0 <= j < i ==> self.entries@[j].height < h,
                self.sorted(),
            decreases self.entries@.len() - i,
        {
            if self.entries[i].height >= h {
                return i;
            }
            i = i + 1;
        }
        i
    }

    /// The block stored at `(h, status)`, if any.
    pub fn get(&self, h: Height, status: Status) -> (r: Option<&LightBlock>)
        requires
            self.wf(),
        ensures
            match r {
                Some(b) => self.get_spec(h, status) == Some(*b),
                None => self.get_spec(h, status) is None,
            },
    {
        match self.find_idx(h) {
            None => None,
            Some(i) => {
                proof {
                    lemma_index_entry(*self, i as int);
                }
                let e = &self.entries[i];
                match status {
                    Status::Unverified => e.unverified.as_ref(),
                    Status::Verified => e.verified.as_ref(),
                    Status::Trusted => e.trusted.as_ref(),
                    Status::Failed => e.failed.as_ref(),
                }
            },
        }
    }

    /// Store `block` under `(block.height(), status)`, replacing what that
    /// slot held; every other slot is untouched.
    pub fn insert(&mut self, block: LightBlock, status: Status)
        requires
            old(self).wf(),
            block.basic_wf(),
            status == Status::Verified || status == Status::Trusted ==> block.wf(),
        ensures
            final(self).wf(),
            final(self).get_spec(block.height(), status) == Some(block),
            forall|h: Height, s: Status|
                !(h == block.height() && s == status)
                    ==> final(self).get_spec(h, s) == old(self).get_spec(h, s),
    {
        let ghost s1 = *self;
        let h = block.signed_header.header.height;
        match self.find_idx(h) {
            Some(i) => {
                let mut e = self.entries.remove(i);
                match status {
                    Status::Unverified => { e.unverified = Some(block); },
                    Status::Verified => { e.verified = Some(block); },
                    Status::Trusted => { e.trusted = Some(block); },
                    Status::Failed => { e.failed = Some(block); },
                }
                self.entries.insert(i, e);
                proof {
                    assert(self.entries@ =~= s1.entries@.update(i as int, e));
                    assert forall|j: int| 0 <= j < s1.entries@.len()
                        implies #[trigger] self.entries@[j].height == s1.entries@[j].height by {}
                    assert(self.wf());
                    lemma_index_entry(*self, i as int);
                    assert(final(self).get_spec(h, status) == Some(block));
                    assert forall|hq: Height, sq: Status|
                        !(hq == h && sq == status)
                        implies self.get_spec(hq, sq) == s1.get_spec(hq, sq) by {
                        if hq == h {
                            lemma_index_entry(s1, i as int);
                        } else {
                            lemma_get_spec_same_heights(s1, *self, i as int, hq, sq);
                        }
                    }
                }
            },
            None => {
                let pos = self.find_pos(h);
                let e = match status {
                    Status::Unverified => StoreEntry {
                        height: h, unverified: Some(block), verified: None, trusted: None, failed: None,
                    },
                    Status::Verified => StoreEntry {
                        height: h, unverified: None, verified: Some(block), trusted: None, failed: None,
                    },
                    Status::Trusted => StoreEntry {
                        height: h, unverified: None, verified: None, trusted: Some(block), failed: None,
                    },
                    Status::Failed => StoreEntry {
                        height: h, unverified: None, verified: None, trusted: None, failed: Some(block),
                    },
                };
                proof {
                    assert(!s1.has_height(h));
                    assert forall|j: int| 0 <= j < s1.entries@.len()
                        implies #[trigger] s1.entries@[j].height != h by {
                        if s1.entries@[j].height == h {
                            assert(s1.has_height(h));
                        }
                    }
                }
                self.entries.insert(pos, e);
                proof {
                    assert(self.entries@ == s1.entries@.insert(pos as int, e));
                    assert forall|i: int, j: int| 0 <= i < j < self.entries@.len()
                        implies self.entries@[i].height < self.entries@[j].height by {
                        assert(self.entries@[i] == if i < pos { s1.entries@[i] } else if i == pos { e } else { s1.entries@[i - 1] });
                        assert(self.entries@[j] == if j < pos { s1.entries@[j] } else if j == pos { e } else { s1.entries@[j - 1] });
                    }
                    assert forall|i: int| 0 <= i < self.entries@.len()
                        implies entry_ok(#[trigger] self.entries@[i]) by {
                        assert(self.entries@[i] == if i < pos { s1.entries@[i] } else if i == pos { e } else { s1.entries@[i - 1] });
                    }
                    assert(self.entries@[pos as int] == e);
                    lemma_index_entry(*self, pos as int);
                    assert(final(self).get_spec(h, status) == Some(block));
                    assert forall|hq: Height, sq: Status|
                        !(hq == h && sq == status)
                        implies self.get_spec(hq, sq) == s1.get_spec(hq, sq) by {
                        if hq == h {
                            assert(self.get_spec(hq, sq) == slot_of(e, sq));
                            assert(slot_of(e, sq) is None);
                            assert(s1.get_spec(hq, sq) is None);
                        } else {
                            lemma_get_spec_fresh(s1, *self, pos as int, e, hq, sq);
                        }
                    }
                }
            },
        }
    }

    /// Relabel `block`'s height to `status`: that height then holds `block`
    /// under `status` and nothing under any other status. A height already
    /// marked `Failed` can only stay `Failed`.
    pub fn update(&mut self, block: LightBlock, status: Status)
        requires
            old(self).wf(),
            block.basic_wf(),
            status == Status::Verified || status == Status::Trusted ==> block.wf(),
            status != Status::Failed ==> old(self).get_spec(block.height(), Status::Failed) is None,
        ensures
            final(self).wf(),
            final(self).get_spec(block.height(), status) == Some(block),
            forall|s: Status| s != status ==> final(self).get_spec(block.height(), s) is None,
            forall|h: Height, s: Status|
                h != block.height() ==> final(self).get_spec(h, s) == old(self).get_spec(h, s),
    {
        let ghost s1 = *self;
        let h = block.signed_header.header.height;
        match self.find_idx(h) {
            Some(i) => {
                let mut e = self.entries.remove(i);
                e.unverified = None;
                e.verified = None;
                e.trusted = None;
                e.failed = None;
                match status {
                    Status::Unverified => { e.unverified = Some(block); },
                    Status::Verified => { e.verified = Some(block); },
                    Status::Trusted => { e.trusted = Some(block); },
                    Status::Failed => { e.failed = Some(block); },
                }
                self.entries.insert(i, e);
                proof {
                    assert(self.entries@ =~= s1.entries@.update(i as int, e));
                    assert forall|j: int| 0 <= j < s1.entries@.len()
                        implies #[trigger] self.entries@[j].height == s1.entries@[j].height by {}
                    assert(self.wf());
                    lemma_index_entry(*self, i as int);
                    assert forall|hq: Height, sq: Status| hq != h
                        implies self.get_spec(hq, sq) == s1.get_spec(hq, sq) by {
                        lemma_get_spec_same_heights(s1, *self, i as int, hq, sq);
                    }
                }
            },
            None => {
                self.insert(block, status);
                proof {
                    assert forall|s: Status| s != status
                        implies self.get_spec(h, s) is None by {
                        assert(self.get_spec(h, s) == s1.get_spec(h, s));
                        if s1.has_height(h) {
                            let j = choose|j: int| 0 <= j < s1.entries@.len() && s1.entries@[j].height == h;
                        }
                    }
                }
            },
        }
    }

    /// The highest block labelled `Trusted` or `Verified`: the root the
    /// bisection driver starts from.
    pub fn highest_trusted_or_verified(&self) -> (r: Option<&LightBlock>)
        requires
            self.wf(),
        ensures
            match r {
                Some(b) => {
                    &&& (if self.get_spec(b.height(), Status::Trusted) is Some {
                        self.get_spec(b.height(), Status::Trusted) == Some(*b)
                    } else {
                        self.get_spec(b.height(), Status::Verified) == Some(*b)
                    })
                    &&& b.wf()
                    &&& forall|h: Height| h > b.height()
                        ==> self.get_spec(h, Status::Trusted) is None
                            && self.get_spec(h, Status::Verified) is None
                },
                None => forall|h: Height|
                    self.get_spec(h, Status::Trusted) is None
                        && self.get_spec(h, Status::Verified) is None,
            },
    {
        let mut i: usize = self.entries.len();
        while i > 0
            invariant
                i <= self.entries@.len(),
                self.wf(),
                forall|j: int| i <= j < self.entries@.len()
                    ==> (#[trigger] self.entries@[j]).trusted is None
                        && self.entries@[j].verified is None,
            decreases i,
        {
            i = i - 1;
            let e = &self.entries[i];
            proof {
                lemma_index_entry(*self, i as int);
            }
            let found: bool = e.trusted.is_some() || e.verified.is_some();
            if found {
                proof {
                    assert forall|h: Height| h > self.entries@[i as int].height
                        implies self.get_spec(h, Status::Trusted) is None
                            && self.get_spec(h, Status::Verified) is None by {
                        if self.has_height(h) {
                            let j = choose|j: int| 0 <= j < self.entries@.len() && self.entries@[j].height == h;
                            lemma_index_entry(*self, j);
                            if j <= i {
                                assert(self.entries@[j].height <= self.entries@[i as int].height);
                            }
                        }
                    }
                }
                match &e.trusted {
                    Some(b) => {
                        return Some(b);
                    },
                    None => {
                        match &e.verified {
                            Some(b) => {
                                return Some(b);
                            },
                            None => {
                                proof {
                                    assert(false);
                                }
                            },
                        }
                    },
                }
            }
        }
        proof {
            assert forall|h: Height|
                self.get_spec(h, Status::Trusted) is None
                    && self.get_spec(h, Status::Verified) is None by {
                if self.has_height(h) {
                    let j = choose|j: int| 0 <= j < self.entries@.len() && self.entries@[j].height == h;
                    lemma_index_entry(*self, j);
                }
            }
        }
        None
    }

    /// The heights that hold a block labelled `status`, in ascending order.
    pub fn all_heights(&self, status: Status) -> (r: Vec<Height>)
        requires
            self.wf(),
        ensures
            forall|k: int| 0 <= k < r@.len()
                ==> self.get_spec(#[trigger] r@[k], status) is Some,
            forall|k: int, l: int| 0 <= k < l < r@.len() ==> r@[k] < r@[l],
            forall|h: Height| self.get_spec(h, status) is Some
                ==> r@.contains(h),
    {
        let mut out: Vec<Height> = Vec::new();
        let mut i: usize = 0;
        while i < self.entries.len()
            invariant
                i <= self.entries@.len(),
                self.wf(),
                forall|k: int| 0 <= k < out@.len()
                    ==> self.get_spec(#[trigger] out@[k], status) is Some,
                forall|k: int, l: int| 0 <= k < l < out@.len() ==> out@[k] < out@[l],
                forall|k: int| 0 <= k < out@.len()
                    ==> exists|j: int| 0 <= j < i && self.entries@[j].height == #[trigger] out@[k],
                forall|j: int| 0 <= j < i && slot_of(#[trigger] self.entries@[j], status) is Some
                    ==> out@.contains(self.entries@[j].height),
            decreases self.entries@.len() - i,
        {
            let e = &self.entries[i];
            proof {
                lemma_index_entry(*self, i as int);
            }
            let hold: bool = match status {
                Status::Unverified => e.unverified.is_some(),
                Status::Verified => e.verified.is_some(),
                Status::Trusted => e.trusted.is_some(),
                Status::Failed => e.failed.is_some(),
            };
            if hold {
                let ghost out0 = out@;
                out.push(e.height);
                proof {
                    assert forall|k: int, l: int| 0 <= k < l < out@.len()
                        implies out@[k] < out@[l] by {
                        if l == out@.len() - 1 {
                            let j = choose|j: int| 0 <= j < i && self.entries@[j].height == out0[k];
                            assert(self.entries@[j].height < self.entries@[i as int].height);
                        }
                    }
                    assert forall|j: int|
                        0 <= j < i + 1 && slot_of(#[trigger] self.entries@[j], status) is Some
                        implies out@.contains(self.entries@[j].height) by {
                        if j < i {
                            let k = choose|k: int| 0 <= k < out0.len() && out0[k] == self.entries@[j].height;
                            assert(out@[k] == self.entries@[j].height);
                        } else {
                            assert(out@[out@.len() - 1] == self.entries@[i as int].height);
                        }
                    }
                }
            } else {
                proof {
                    assert forall|j: int|
                        0 <= j < i + 1 && slot_of(#[trigger] self.entries@[j], status) is Some
                        implies out@.contains(self.entries@[j].height) by {
                        assert(j < i);
                    }
                }
            }
            i = i + 1;
        }
        proof {
            assert forall|h: Height| self.get_spec(h, status) is Some
                implies out@.contains(h) by {
                let j = choose|j: int| 0 <= j < self.entries@.len() && self.entries@[j].height == h;
                lemma_index_entry(*self, j);
            }
        }
        out
    }
}

} // verus!
