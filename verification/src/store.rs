//! Ephemeral, in-memory light-block store.
//!
//! The store maps a `(height, status)` pair to at most one light block;
//! inserting a second block under the same pair replaces the first, as the
//! verifier's scheduler requires. The fork detector hands one fresh store to
//! the verifier per witness check so that a failed verification leaves no
//! residue that could pollute a later check.

use vstd::prelude::*;

use crate::types::{LightBlock, LightBlockView, Status};

verus! {

struct StoreEntry {
    height: u64,
    status: Status,
    block: LightBlock,
}

/// Ephemeral mapping from `(height, status)` to a light block.
pub struct LightStore {
    entries: Vec<StoreEntry>,
}

impl LightStore {
    /// At most one block is stored per `(height, status)` pair, and every
    /// block is keyed by its own height.
    pub closed spec fn wf(self) -> bool {
        &&& forall|i: int, j: int|
            0 <= i < self.entries@.len() && 0 <= j < self.entries@.len() && i != j
                ==> !(self.entries@[i].height == self.entries@[j].height && self.entries@[i].status
                == self.entries@[j].status)
        &&& forall|i: int|
            0 <= i < self.entries@.len() ==> self.entries@[i].height
                == self.entries@[i].block@.height()
    }

    /// Whether a block is stored under `(height, status)`.
    pub closed spec fn has_key(self, height: u64, status: Status) -> bool {
        exists|i: int|
            0 <= i < self.entries@.len() && self.entries@[i].height == height
                && self.entries@[i].status == status
    }

    /// The block stored under `(height, status)`.
    pub closed spec fn value_at(self, height: u64, status: Status) -> LightBlockView {
        let i = choose|i: int|
            0 <= i < self.entries@.len() && self.entries@[i].height == height
                && self.entries@[i].status == status;
        self.entries@[i].block@
    }

    /// Every key other than `(height, status)` maps to the same block in
    /// `self` as in `other`.
    pub open spec fn unchanged_except(self, other: LightStore, height: u64, status: Status) -> bool {
        forall|h: u64, st: Status|
            !(h == height && st == status) ==> (self.has_key(h, st) == other.has_key(h, st)) && (
            other.has_key(h, st) ==> self.value_at(h, st) == other.value_at(h, st))
    }

    /// Creates an empty store.
    pub fn new() -> (s: LightStore)
        ensures
            s.wf(),
            forall|h: u64, st: Status| !s.has_key(h, st),
    {
        LightStore { entries: Vec::new() }
    }

    /// Index of the entry stored under `(height, status)`, if any.
    fn position_of(&self, height: u64, status: Status) -> (r: Option<usize>)
        ensures
            match r {
                Option::Some(i) => i < self.entries@.len() && self.entries@[i as int].height
                    == height && self.entries@[i as int].status == status,
                Option::None => !self.has_key(height, status),
            },
    {
        let mut i: usize = 0;
        while i < self.entries.len()
            invariant
                i <= self.entries@.len(),
                forall|j: int|
                    0 <= j < i ==> !(self.entries@[j].height == height && self.entries@[j].status
                        == status),
            decreases self.entries@.len() - i,
        {
            if self.entries[i].height == height && status_eq(&self.entries[i].status, &status) {
                return Option::Some(i);
            }
            i += 1;
        }
        Option::None
    }

    /// Inserts a block under `(height(block), status)`, replacing any block
    /// already stored under that pair.
    pub fn insert(&mut self, block: LightBlock, status: Status)
        requires
            old(self).wf(),
        ensures
            final(self).wf(),
            final(self).has_key(block@.height(), status),
            final(self).value_at(block@.height(), status) == block@,
            final(self).unchanged_except(*old(self), block@.height(), status),
    {
        let height = block.height();
        let entry = StoreEntry { height, status, block };
        match self.position_of(height, status) {
            Option::Some(i) => {
                self.entries[i] = entry;
                proof {
                    assert forall|j: int|
                        0 <= j < old(self).entries@.len() && j != i implies !(old(
                        self,
                    ).entries@[j].height == height && old(self).entries@[j].status == status) by {
                        assert(old(self).entries@[i as int].height == height);
                    }
                    lemma_store_replace(*old(self), *self, i as int);
                }
            },
            Option::None => {
                self.entries.push(entry);
                proof {
                    lemma_store_append(*old(self), *self);
                }
            },
        }
    }

    /// Returns a copy of the block stored under `(height, status)`.
    pub fn get(&self, height: u64, status: Status) -> (r: Option<LightBlock>)
        requires
            self.wf(),
        ensures
            match r {
                Option::Some(b) => self.has_key(height, status) && b@ == self.value_at(
                    height,
                    status,
                ),
                Option::None => !self.has_key(height, status),
            },
    {
        match self.position_of(height, status) {
            Option::Some(i) => {
                let b = self.entries[i].block.clone();
                proof {
                    lemma_key_witness(*self, height, status, i as int);
                }
                Option::Some(b)
            },
            Option::None => Option::None,
        }
    }

    /// Returns a copy of the stored block with the greatest height among
    /// those stored with the given status.
    pub fn highest(&self, status: Status) -> (r: Option<LightBlock>)
        requires
            self.wf(),
        ensures
            match r {
                Option::Some(b) => self.has_key(b@.height(), status) && b@ == self.value_at(
                    b@.height(),
                    status,
                ) && forall|h: u64| self.has_key(h, status) ==> h <= b@.height(),
                Option::None => forall|h: u64| !self.has_key(h, status),
            },
    {
        let mut best: Option<usize> = Option::None;
        let mut i: usize = 0;
        while i < self.entries.len()
            invariant
                i <= self.entries@.len(),
                match best {
                    Option::Some(b) => b < i && self.entries@[b as int].status == status && forall|
                        j: int,
                    |
                        0 <= j < i && self.entries@[j].status == status ==> self.entries@[j].height
                            <= self.entries@[b as int].height,
                    Option::None => forall|j: int| 0 <= j < i ==> self.entries@[j].status != status,
                },
            decreases self.entries@.len() - i,
        {
            let take: bool = if status_eq(&self.entries[i].status, &status) {
                match best {
                    Option::Some(b) => self.entries[i].height > self.entries[b].height,
                    Option::None => true,
                }
            } else {
                false
            };
            if take {
                best = Option::Some(i);
            }
            i += 1;
        }
        match best {
            Option::Some(b) => {
                let blk = self.entries[b].block.clone();
                proof {
                    lemma_key_witness(*self, self.entries@[b as int].height, status, b as int);
                    assert forall|h: u64| self.has_key(h, status) implies h <= self.entries@[
                        b as int].height by {
                        let j = choose|j: int|
                            0 <= j < self.entries@.len() && self.entries@[j].height == h
                                && self.entries@[j].status == status;
                        assert(self.entries@[j].height <= self.entries@[b as int].height);
                    }
                }
                Option::Some(blk)
            },
            Option::None => {
                proof {
                    assert forall|h: u64| !self.has_key(h, status) by {
                        if self.has_key(h, status) {
                            let j = choose|j: int|
                                0 <= j < self.entries@.len() && self.entries@[j].height == h
                                    && self.entries@[j].status == status;
                            assert(self.entries@[j].status == status);
                        }
                    }
                }
                Option::None
            },
        }
    }

    /// Moves the block stored under `(height, from)` to `(height, to)`,
    /// provided the change is an upgrade along the status chain; a block
    /// already stored under `(height, to)` is replaced. Returns whether the
    /// move happened.
    pub fn update_status(&mut self, height: u64, from: Status, to: Status) -> (r: bool)
        requires
            old(self).wf(),
        ensures
            final(self).wf(),
            r == (old(self).has_key(height, from) && from.upgrade_allowed(to)),
            !r ==> *final(self) == *old(self),
            r ==> {
                &&& !final(self).has_key(height, from)
                &&& final(self).has_key(height, to)
                &&& final(self).value_at(height, to) == old(self).value_at(height, from)
                &&& forall|h: u64, st: Status|
                    !(h == height && (st == from || st == to)) ==> (final(self).has_key(h, st)
                        == old(self).has_key(h, st)) && (old(self).has_key(h, st) ==> (final(
                        self).value_at(h, st) == old(self).value_at(h, st)))
            },
    {
        if !from.is_upgrade_to(&to) {
            return false;
        }
        match self.position_of(height, from) {
            Option::None => false,
            Option::Some(i) => {
                proof {
                    lemma_key_witness(*self, height, from, i as int);
                }
                let blk = self.entries[i].block.clone();
                let ghost pre = *self;
                // replacement semantics: drop any block already at (height, to)
                match self.position_of(height, to) {
                    Option::Some(j) => {
                        self.entries.remove(j);
                        proof {
                            lemma_store_remove(pre, *self, j as int);
                        }
                    },
                    Option::None => {},
                }
                let ghost mid = *self;
                proof {
                    assert(mid.wf());
                    assert(!mid.has_key(height, to));
                    assert(mid.has_key(height, from) && mid.value_at(height, from) == blk@);
                }
                match self.position_of(height, from) {
                    Option::Some(i2) => {
                        proof {
                            lemma_key_witness(mid, height, from, i2 as int);
                        }
                        self.entries[i2] = StoreEntry { height, status: to, block: blk };
                        proof {
                            assert forall|j: int|
                                0 <= j < mid.entries@.len() && j != i2 implies !(
                            mid.entries@[j].height == height && mid.entries@[j].status == to) by {
                                if mid.entries@[j].height == height && mid.entries@[j].status
                                    == to {
                                    assert(mid.has_key(height, to));
                                }
                            }
                            lemma_store_replace(mid, *self, i2 as int);
                        }
                        true
                    },
                    Option::None => {
                        proof {
                            // the (height, from) entry cannot have vanished:
                            // at most a (height, to) entry was removed
                            assert(false);
                        }
                        false
                    },
                }
            },
        }
    }
}

/// Compares two statuses.
fn status_eq(a: &Status, b: &Status) -> (r: bool)
    ensures
        r == (a == b),
{
    let x: u8 = match a {
        Status::Unverified => 0,
        Status::Verified => 1,
        Status::Trusted => 2,
        Status::Failed => 3,
    };
    let y: u8 = match b {
        Status::Unverified => 0,
        Status::Verified => 1,
        Status::Trusted => 2,
        Status::Failed => 3,
    };
    x == y
}

/// An index holding `(height, status)` witnesses both `has_key` and the value
/// that `value_at` picks, as long as keys are unique.
proof fn lemma_key_witness(s: LightStore, height: u64, status: Status, i: int)
    requires
        s.wf(),
        0 <= i < s.entries@.len(),
        s.entries@[i].height == height,
        s.entries@[i].status == status,
    ensures
        s.has_key(height, status),
        s.value_at(height, status) == s.entries@[i].block@,
{
    let j = choose|j: int|
        0 <= j < s.entries@.len() && s.entries@[j].height == height && s.entries@[j].status
            == status;
    assert(j == i);
}

/// Replacing the entry at one index, when no other entry shares the new
/// entry's key, keeps the store well formed, maps the new key to the new
/// block, drops the old key if it differs, and leaves every other key as it
/// was.
proof fn lemma_store_replace(pre: LightStore, post: LightStore, i: int)
    requires
        pre.wf(),
        0 <= i < pre.entries@.len(),
        post.entries@ == pre.entries@.update(i, post.entries@[i]),
        post.entries@[i].height == post.entries@[i].block@.height(),
        forall|j: int|
            0 <= j < pre.entries@.len() && j != i ==> !(pre.entries@[j].height
                == post.entries@[i].height && pre.entries@[j].status == post.entries@[i].status),
    ensures
        post.wf(),
        post.has_key(post.entries@[i].height, post.entries@[i].status),
        post.value_at(post.entries@[i].height, post.entries@[i].status) == post.entries@[i].block@,
        !(pre.entries@[i].height == post.entries@[i].height && pre.entries@[i].status
            == post.entries@[i].status) ==> !post.has_key(
            pre.entries@[i].height,
            pre.entries@[i].status,
        ),
        forall|h: u64, st: Status|
            !(h == pre.entries@[i].height && st == pre.entries@[i].status) && !(h
                == post.entries@[i].height && st == post.entries@[i].status) ==> (post.has_key(
                h,
                st,
            ) == pre.has_key(h, st)) && (pre.has_key(h, st) ==> post.value_at(h, st)
                == pre.value_at(h, st)),
{
    assert(forall|j: int|
        0 <= j < post.entries@.len() && j != i ==> post.entries@[j] == pre.entries@[j]);
    assert(post.wf());
    lemma_key_witness(post, post.entries@[i].height, post.entries@[i].status, i);
    if !(pre.entries@[i].height == post.entries@[i].height && pre.entries@[i].status
        == post.entries@[i].status) && post.has_key(pre.entries@[i].height, pre.entries@[i].status) {
        let w = choose|w: int|
            0 <= w < post.entries@.len() && post.entries@[w].height == pre.entries@[i].height
                && post.entries@[w].status == pre.entries@[i].status;
        assert(w != i);
        assert(pre.entries@[w].height == pre.entries@[i].height && pre.entries@[w].status
            == pre.entries@[i].status);
    }
    assert forall|h: u64, st: Status|
        !(h == pre.entries@[i].height && st == pre.entries@[i].status) && !(h
            == post.entries@[i].height && st == post.entries@[i].status) implies (post.has_key(
        h,
        st,
    ) == pre.has_key(h, st)) && (pre.has_key(h, st) ==> post.value_at(h, st) == pre.value_at(
        h,
        st,
    )) by {
        if pre.has_key(h, st) {
            let j = choose|j: int|
                0 <= j < pre.entries@.len() && pre.entries@[j].height == h && pre.entries@[j].status
                    == st;
            assert(j != i);
            assert(post.entries@[j].height == h && post.entries@[j].status == st);
            lemma_key_witness(post, h, st, j);
            let j2 = choose|j2: int|
                0 <= j2 < pre.entries@.len() && pre.entries@[j2].height == h
                    && pre.entries@[j2].status == st;
            assert(j2 == j);
        }
        if post.has_key(h, st) {
            let j = choose|j: int|
                0 <= j < post.entries@.len() && post.entries@[j].height == h
                    && post.entries@[j].status == st;
            assert(j != i);
            assert(pre.entries@[j].height == h && pre.entries@[j].status == st);
        }
    }
}

/// Appending an entry whose key is fresh keeps the store well formed, maps
/// the new key to the new block, and leaves every other key as it was.
proof fn lemma_store_append(pre: LightStore, post: LightStore)
    requires
        pre.wf(),
        !pre.has_key(post.entries@.last().height, post.entries@.last().status),
        post.entries@.len() == pre.entries@.len() + 1,
        post.entries@ == pre.entries@.push(post.entries@.last()),
        post.entries@.last().height == post.entries@.last().block@.height(),
    ensures
        post.wf(),
        post.has_key(post.entries@.last().height, post.entries@.last().status),
        post.value_at(post.entries@.last().height, post.entries@.last().status)
            == post.entries@.last().block@,
        forall|h: u64, st: Status|
            !(h == post.entries@.last().height && st == post.entries@.last().status) ==> (
            post.has_key(h, st) == pre.has_key(h, st)) && (pre.has_key(h, st) ==> post.value_at(
                h,
                st,
            ) == pre.value_at(h, st)),
{
    let n = pre.entries@.len() as int;
    let height = post.entries@.last().height;
    let status = post.entries@.last().status;
    assert(forall|j: int| 0 <= j < n ==> post.entries@[j] == pre.entries@[j]);
    assert forall|i: int, j: int|
        0 <= i < post.entries@.len() && 0 <= j < post.entries@.len() && i != j implies !(
    post.entries@[i].height == post.entries@[j].height && post.entries@[i].status
        == post.entries@[j].status) by {
        if i == n && j < n {
            if post.entries@[j].height == height && post.entries@[j].status == status {
                assert(pre.has_key(height, status));
            }
        } else if j == n && i < n {
            if post.entries@[i].height == height && post.entries@[i].status == status {
                assert(pre.has_key(height, status));
            }
        }
    }
    lemma_key_witness(post, height, status, n);
    assert forall|h: u64, st: Status| !(h == height && st == status) implies (post.has_key(h, st)
        == pre.has_key(h, st)) && (pre.has_key(h, st) ==> post.value_at(h, st) == pre.value_at(
        h,
        st,
    )) by {
        if pre.has_key(h, st) {
            let j = choose|j: int|
                0 <= j < pre.entries@.len() && pre.entries@[j].height == h && pre.entries@[j].status
                    == st;
            assert(post.entries@[j].height == h && post.entries@[j].status == st);
            lemma_key_witness(post, h, st, j);
            let j2 = choose|j2: int|
                0 <= j2 < pre.entries@.len() && pre.entries@[j2].height == h
                    && pre.entries@[j2].status == st;
            assert(j2 == j);
        }
        if post.has_key(h, st) {
            let j = choose|j: int|
                0 <= j < post.entries@.len() && post.entries@[j].height == h
                    && post.entries@[j].status == st;
            assert(j != n);
            assert(pre.entries@[j].height == h && pre.entries@[j].status == st);
        }
    }
}

/// Removing one entry keeps every other key mapped as before and removes the
/// removed entry's key.
proof fn lemma_store_remove(pre: LightStore, post: LightStore, j: int)
    requires
        pre.wf(),
        0 <= j < pre.entries@.len(),
        post.entries@ == pre.entries@.remove(j),
    ensures
        post.wf(),
        !post.has_key(pre.entries@[j].height, pre.entries@[j].status),
        forall|h: u64, st: Status|
            !(h == pre.entries@[j].height && st == pre.entries@[j].status) ==> (post.has_key(h, st)
                == pre.has_key(h, st)) && (pre.has_key(h, st) ==> post.value_at(h, st)
                == pre.value_at(h, st)),
{
    let n = pre.entries@.len() as int;
    assert(forall|k: int| 0 <= k < j ==> post.entries@[k] == pre.entries@[k]);
    assert(forall|k: int| j <= k < n - 1 ==> post.entries@[k] == pre.entries@[k + 1]);
    assert(post.wf());
    if post.has_key(pre.entries@[j].height, pre.entries@[j].status) {
        let w = choose|w: int|
            0 <= w < post.entries@.len() && post.entries@[w].height == pre.entries@[j].height
                && post.entries@[w].status == pre.entries@[j].status;
        if w < j {
            assert(pre.entries@[w].height == pre.entries@[j].height);
        } else {
            assert(pre.entries@[w + 1].height == pre.entries@[j].height);
        }
    }
    assert forall|h: u64, st: Status|
        !(h == pre.entries@[j].height && st == pre.entries@[j].status) implies (post.has_key(h, st)
        == pre.has_key(h, st)) && (pre.has_key(h, st) ==> post.value_at(h, st) == pre.value_at(
        h,
        st,
    )) by {
        if pre.has_key(h, st) {
            let w = choose|w: int|
                0 <= w < pre.entries@.len() && pre.entries@[w].height == h && pre.entries@[w].status
                    == st;
            assert(w != j);
            let w2 = if w < j {
                w
            } else {
                w - 1
            };
            assert(post.entries@[w2].height == h && post.entries@[w2].status == st);
            lemma_key_witness(post, h, st, w2);
            let v = choose|v: int|
                0 <= v < pre.entries@.len() && pre.entries@[v].height == h && pre.entries@[v].status
                    == st;
            assert(v == w);
        }
        if post.has_key(h, st) {
            let w = choose|w: int|
                0 <= w < post.entries@.len() && post.entries@[w].height == h
                    && post.entries@[w].status == st;
            if w < j {
                assert(pre.entries@[w].height == h && pre.entries@[w].status == st);
            } else {
                assert(pre.entries@[w + 1].height == h && pre.entries@[w + 1].status == st);
            }
        }
    }
}

} // verus!
