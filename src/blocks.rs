use vstd::prelude::*;

verus! {

/// A handle naming one physical block of cache slots.
///
/// The handle itself carries no count: the number of live handles to each
/// block is kept by the `BlockSpace` that handed it out.
#[derive(Debug)]
pub struct BlockRef {
    pub index: usize,
}

impl BlockRef {
    pub fn get_index(&self) -> (r: usize)
        ensures
            r == self.index,
    {
        self.index
    }
}

/// The block indices named by a list of handles, in order.
pub open spec fn indices_of(blocks: Seq<BlockRef>) -> Seq<usize> {
    blocks.map_values(|b: BlockRef| b.index)
}

/// How many times `i` occurs in `s`.
pub open spec fn occurrences(s: Seq<usize>, i: int) -> nat
    decreases s.len(),
{
    if s.len() == 0 {
        0
    } else {
        occurrences(s.drop_last(), i) + if s.last() as int == i { 1nat } else { 0nat }
    }
}

pub proof fn lemma_occurrences_prefix(s: Seq<usize>, k: int, i: int)
    requires
        0 <= k <= s.len(),
    ensures
        occurrences(s.take(k), i) <= occurrences(s, i),
    decreases s.len() - k,
{
    if k < s.len() {
        lemma_occurrences_prefix(s, k + 1, i);
        assert(s.take(k + 1).drop_last() =~= s.take(k));
    } else {
        assert(s.take(k) =~= s);
    }
}

/// No block is named twice in the list.
pub open spec fn distinct_blocks(blocks: Seq<BlockRef>) -> bool {
    forall|j: int, k: int|
        0 <= j < blocks.len() && 0 <= k < blocks.len() && j != k ==> blocks[j].index
            != blocks[k].index
}

/// Whether some handle of `blocks` names block `i`.
pub open spec fn names_block(blocks: Seq<BlockRef>, i: int) -> bool {
    exists|k: int| 0 <= k < blocks.len() && blocks[k].index == i
}

/// In a list that names no block twice, each block it names occurs once
/// and every other block not at all: forking such a list raises the count
/// of each of its blocks by exactly one and leaves the rest alone.
pub proof fn lemma_fork_distinct_adds_one(blocks: Seq<BlockRef>, i: int)
    requires
        distinct_blocks(blocks),
    ensures
        occurrences(indices_of(blocks), i) == if names_block(blocks, i) {
            1nat
        } else {
            0nat
        },
    decreases blocks.len(),
{
    if blocks.len() > 0 {
        let rest = blocks.drop_last();
        assert(indices_of(blocks).drop_last() =~= indices_of(rest));
        lemma_fork_distinct_adds_one(rest, i);
        if blocks.last().index == i {
            assert(names_block(blocks, i));
            if names_block(rest, i) {
                let k = choose|k: int| 0 <= k < rest.len() && rest[k].index == i;
                assert(blocks[k].index == blocks[blocks.len() - 1].index);
            }
        } else {
            if names_block(blocks, i) {
                let k = choose|k: int| 0 <= k < blocks.len() && blocks[k].index == i;
                assert(rest[k].index == i);
            }
            if names_block(rest, i) {
                let k = choose|k: int| 0 <= k < rest.len() && rest[k].index == i;
                assert(blocks[k].index == i);
            }
        }
    } else {
        assert(indices_of(blocks).len() == 0);
    }
}

/// The arena of physical blocks, with the reference count of each.
#[derive(Debug)]
pub struct BlockSpace {
    pub ref_counts: Vec<usize>,
}

impl BlockSpace {
    /// An arena of `num_blocks` blocks, none of them referenced.
    pub fn new(num_blocks: usize) -> (r: BlockSpace)
        ensures
            r.ref_counts@ == Seq::new(num_blocks as nat, |i: int| 0usize),
    {
        let mut ref_counts: Vec<usize> = Vec::new();
        let mut k: usize = 0;
        while k < num_blocks
            invariant
                k <= num_blocks,
                ref_counts@ == Seq::new(k as nat, |i: int| 0usize),
            decreases num_blocks - k,
        {
            ref_counts.push(0);
            k = k + 1;
            assert(ref_counts@ =~= Seq::new(k as nat, |i: int| 0usize));
        }
        BlockSpace { ref_counts }
    }

    pub fn num_blocks(&self) -> (r: usize)
        ensures
            r == self.ref_counts@.len(),
    {
        self.ref_counts.len()
    }

    pub fn ref_count(&self, index: usize) -> (r: usize)
        requires
            index < self.ref_counts@.len(),
        ensures
            r == self.ref_counts@[index as int],
    {
        self.ref_counts[index]
    }

    /// Takes a new reference to block `index`.
    pub fn acquire(&mut self, index: usize) -> (r: BlockRef)
        requires
            index < old(self).ref_counts@.len(),
            old(self).ref_counts@[index as int] < usize::MAX,
        ensures
            r.index == index,
            final(self).ref_counts@ == old(self).ref_counts@.update(
                index as int,
                (old(self).ref_counts@[index as int] + 1) as usize,
            ),
    {
        let c = self.ref_counts[index];
        self.ref_counts.set(index, c + 1);
        BlockRef { index }
    }

    /// Shares the block that `b` names: the count goes up by one and no data
    /// is copied.
    pub fn fork(&mut self, b: &BlockRef) -> (r: BlockRef)
        requires
            b.index < old(self).ref_counts@.len(),
            old(self).ref_counts@[b.index as int] < usize::MAX,
        ensures
            r.index == b.index,
            final(self).ref_counts@ == old(self).ref_counts@.update(
                b.index as int,
                (old(self).ref_counts@[b.index as int] + 1) as usize,
            ),
    {
        self.acquire(b.index)
    }

    /// Gives back the reference `b`.
    pub fn release(&mut self, b: BlockRef)
        requires
            b.index < old(self).ref_counts@.len(),
            old(self).ref_counts@[b.index as int] > 0,
        ensures
            final(self).ref_counts@ == old(self).ref_counts@.update(
                b.index as int,
                (old(self).ref_counts@[b.index as int] - 1) as usize,
            ),
    {
        let c = self.ref_counts[b.index];
        self.ref_counts.set(b.index, c - 1);
    }

    /// Shares every block of `blocks`: each block's count goes up by the
    /// number of times the list names it, and the new list names the same
    /// blocks in the same order.
    pub fn fork_all(&mut self, blocks: &Vec<BlockRef>) -> (r: Vec<BlockRef>)
        requires
            forall|k: int| 0 <= k < blocks@.len() ==> blocks@[k].index < old(self).ref_counts@.len(),
            forall|i: int|
                0 <= i < old(self).ref_counts@.len() ==> old(self).ref_counts@[i]
                    + occurrences(indices_of(blocks@), i) <= usize::MAX,
        ensures
            indices_of(r@) == indices_of(blocks@),
            final(self).ref_counts@.len() == old(self).ref_counts@.len(),
            forall|i: int|
                0 <= i < final(self).ref_counts@.len() ==> final(self).ref_counts@[i] == old(
                    self,
                ).ref_counts@[i] + occurrences(indices_of(blocks@), i),
    {
        let ghost s = indices_of(blocks@);
        let ghost start = self.ref_counts@;
        let mut out: Vec<BlockRef> = Vec::new();
        let mut k: usize = 0;
        while k < blocks.len()
            invariant
                k <= blocks@.len(),
                s == indices_of(blocks@),
                forall|j: int| 0 <= j < blocks@.len() ==> blocks@[j].index < start.len(),
                forall|i: int| 0 <= i < start.len() ==> start[i] + occurrences(s, i) <= usize::MAX,
                self.ref_counts@.len() == start.len(),
                indices_of(out@) == s.take(k as int),
                forall|i: int|
                    0 <= i < start.len() ==> self.ref_counts@[i] == start[i] + occurrences(
                        s.take(k as int),
                        i,
                    ),
            decreases blocks@.len() - k,
        {
            let ghost before = self.ref_counts@;
            let b = &blocks[k];
            assert(s.take(k as int + 1).drop_last() =~= s.take(k as int));
            assert(s.take(k as int + 1).last() == b.index);
            proof {
                lemma_occurrences_prefix(s, k as int + 1, b.index as int);
            }
            let nb = self.fork(b);
            out.push(nb);
            k = k + 1;
            assert(indices_of(out@) =~= s.take(k as int));
            assert forall|i: int| 0 <= i < start.len() implies self.ref_counts@[i] == start[i]
                + occurrences(s.take(k as int), i) by {
                assert(s.take(k as int).drop_last() =~= s.take(k as int - 1));
                assert(s.take(k as int).last() == b.index);
                assert(before[i] == start[i] + occurrences(s.take(k as int - 1), i));
            }
        }
        assert(s.take(blocks@.len() as int) =~= s);
        out
    }
}

} // verus!
