//! The process heap: a bump arena with the size of every block.

use vstd::prelude::*;

use std::collections::HashMap;

use crate::util::{align_up, lemma_round_up, max_int, round_up};

verus! {

broadcast use vstd::std_specs::hash::group_hash_axioms;

/// The heap arena `[base, base + size)`.
pub struct Heap {
    pub base: u64,
    pub size: u64,
    /// Where the next block is looked for.
    pub next: u64,
    /// The size of each block handed out, by its address.
    pub sizes: HashMap<u64, u64>,
}

/// The heap arena as mathematics.
#[verifier::ext_equal]
pub struct HeapView {
    pub base: u64,
    pub size: u64,
    pub next: u64,
    pub sizes: Map<u64, u64>,
}

impl View for Heap {
    type V = HeapView;

    open spec fn view(&self) -> HeapView {
        HeapView { base: self.base, size: self.size, next: self.next, sizes: self.sizes@ }
    }
}

impl HeapView {
    /// Blocks are 16-byte aligned, do not meet, and end at or below `next`.
    pub open spec fn wf(self) -> bool {
        &&& forall|p: u64| #[trigger]
            self.sizes.contains_key(p) ==> p % 16 == 0 && self.sizes[p] > 0 && p + self.sizes[p]
                <= self.next
        &&& forall|p: u64, q: u64|
            (#[trigger] self.sizes.contains_key(p)) && (#[trigger] self.sizes.contains_key(q)) && p
                < q ==> p + self.sizes[p] <= q
    }

    /// Where a block would be placed.
    pub open spec fn place(self) -> int {
        round_up(self.next as int, 16)
    }

    /// Whether a block of `n` bytes (at least one) fits.
    pub open spec fn fits(self, n: u64) -> bool {
        let end = self.place() + max_int(n as int, 1);
        end <= u64::MAX && end <= self.base + self.size
    }

    /// What asking for `n` bytes gives: a block above every earlier one, or the
    /// arena is exhausted.
    pub open spec fn block(self, n: u64) -> Option<u64> {
        if self.fits(n) {
            Some(self.place() as u64)
        } else {
            None
        }
    }

    /// The heap after `n` bytes were asked for.
    pub open spec fn after(self, n: u64) -> HeapView {
        if self.fits(n) {
            let size = max_int(n as int, 1);
            HeapView {
                next: (self.place() + size) as u64,
                sizes: self.sizes.insert(self.place() as u64, size as u64),
                ..self
            }
        } else {
            self
        }
    }
}

impl Heap {
    /// A heap with no block.
    pub fn new(base: u64, size: u64) -> (h: Heap)
        ensures
            h@.wf(),
            h@ == (HeapView { base, size, next: base, sizes: Map::empty() }),
    {
        Heap { base, size, next: base, sizes: HashMap::new() }
    }

    /// Hand out `n` bytes (at least one), 16-byte aligned, above every earlier
    /// block; `None` where the arena is exhausted.
    pub fn allocate(&mut self, n: u64) -> (r: Option<u64>)
        ensures
            r == old(self)@.block(n),
            final(self)@ == old(self)@.after(n),
            old(self)@.wf() ==> final(self)@.wf() && (r is Some
                ==> !old(self)@.sizes.contains_key(r->0)),
    {
        proof {
            lemma_round_up(self.next as int, 16);
        }
        let p: u64 = match align_up(self.next, 16) {
            Some(p) => p,
            None => {
                return None;
            },
        };
        let stored: u64 = if n == 0 {
            1
        } else {
            n
        };
        if stored > u64::MAX - p || p as u128 + stored as u128 > self.base as u128
            + self.size as u128 {
            return None;
        }
        self.next = p + stored;
        let _prev = self.sizes.insert(p, stored);
        Some(p)
    }

    /// The size of the block at `p`.
    pub fn block_size(&self, p: u64) -> (r: Option<u64>)
        ensures
            r == (if self@.sizes.contains_key(p) {
                Some(self@.sizes[p])
            } else {
                None
            }),
    {
        match self.sizes.get(&p) {
            Some(n) => Some(*n),
            None => None,
        }
    }
}

/// Two blocks never meet.
pub proof fn lemma_blocks_apart(h: HeapView, p: u64, q: u64)
    requires
        h.wf(),
        h.sizes.contains_key(p),
        h.sizes.contains_key(q),
        p != q,
    ensures
        p + h.sizes[p] <= q || q + h.sizes[q] <= p,
{
}

/// A block handed out lies inside the arena, is 16-byte aligned, and is apart
/// from every earlier one.
pub proof fn lemma_new_block(h: HeapView, n: u64)
    requires
        h.wf(),
        h.fits(n),
        h.base <= h.next,
    ensures
        ({
            let p = h.block(n)->0;
            &&& p % 16 == 0
            &&& h.base <= p
            &&& p + n <= h.base + h.size
            &&& h.after(n).wf()
            &&& h.after(n).sizes[p] >= n
            &&& forall|q: u64| #[trigger]
                h.sizes.contains_key(q) ==> q + h.sizes[q] <= p
        }),
{
    lemma_round_up(h.next as int, 16);
}

} // verus!
