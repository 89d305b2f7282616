use vstd::prelude::*;

use crate::seq::Sequence;

verus! {

/// Each boundary is at least the one before it.
pub open spec fn ascending(s: Seq<usize>) -> bool {
    forall|k: int| 0 < k < s.len() ==> s[k - 1] <= #[trigger] s[k]
}

/// The longest segment between consecutive boundaries of `s`.
pub open spec fn max_seg(s: Seq<usize>) -> int
    decreases s.len(),
{
    if s.len() <= 1 {
        0
    } else {
        let d = s.last() - s[s.len() - 2];
        let m = max_seg(s.drop_last());
        if d > m {
            d
        } else {
            m
        }
    }
}

/// The sum of the segments between consecutive boundaries of `s`.
pub open spec fn sum_segs(s: Seq<usize>) -> int
    decreases s.len(),
{
    if s.len() <= 1 {
        0
    } else {
        sum_segs(s.drop_last()) + (s.last() - s[s.len() - 2])
    }
}

pub proof fn lemma_sum_segs_telescopes(s: Seq<usize>)
    requires
        s.len() >= 1,
    ensures
        sum_segs(s) == s.last() - s[0],
    decreases s.len(),
{
    if s.len() > 1 {
        lemma_sum_segs_telescopes(s.drop_last());
    }
}

/// The inputs of one batched forward step. Rows of one sequence stand
/// together, in ascending position order; sequence `i` owns rows
/// `seqlens_q[i]..seqlens_q[i+1]` and context entries
/// `seqlens_k[i]..seqlens_k[i+1]` of `gather_mapping`.
#[derive(Debug)]
pub struct BatchInfo {
    pub tokens: Vec<u32>,
    pub positions: Vec<usize>,
    pub seqlens_q: Vec<usize>,
    pub seqlens_k: Vec<usize>,
    pub gather_mapping: Vec<usize>,
    pub slot_mapping: Vec<usize>,
    pub max_seqlen_q: usize,
    pub max_seqlen_k: usize,
}

impl BatchInfo {
    pub open spec fn wf(&self) -> bool {
        &&& self.seqlens_q@.len() >= 1
        &&& self.seqlens_k@.len() == self.seqlens_q@.len()
        &&& self.seqlens_q@[0] == 0
        &&& self.seqlens_k@[0] == 0
        &&& ascending(self.seqlens_q@)
        &&& ascending(self.seqlens_k@)
        &&& self.seqlens_q@.last() == self.tokens@.len()
        &&& self.positions@.len() == self.tokens@.len()
        &&& self.slot_mapping@.len() == self.tokens@.len()
        &&& self.seqlens_k@.last() == self.gather_mapping@.len()
        &&& self.max_seqlen_q == max_seg(self.seqlens_q@)
        &&& self.max_seqlen_k == max_seg(self.seqlens_k@)
    }

    /// The number of sequences in the batch.
    pub open spec fn num_seqs(&self) -> nat {
        (self.seqlens_q@.len() - 1) as nat
    }

    /// A batch with no sequences.
    pub fn new() -> (r: BatchInfo)
        ensures
            r.wf(),
            r.num_seqs() == 0,
            r.tokens@.len() == 0,
            r.gather_mapping@.len() == 0,
    {
        BatchInfo {
            tokens: Vec::new(),
            positions: Vec::new(),
            seqlens_q: vec![0],
            seqlens_k: vec![0],
            gather_mapping: Vec::new(),
            slot_mapping: Vec::new(),
            max_seqlen_q: 0,
            max_seqlen_k: 0,
        }
    }

    /// Adds `seq` with its last `num_new` positions as new rows and all
    /// its positions as context. A finished sequence is left out: the
    /// result says whether `seq` was added.
    pub fn add_seq(&mut self, seq: &Sequence, num_new: usize) -> (r: bool)
        requires
            old(self).wf(),
            1 <= num_new <= seq.tokens@.len(),
            forall|p: int| 0 <= p < seq.tokens@.len() ==> #[trigger] seq.has_slot(p),
            old(self).gather_mapping@.len() + seq.tokens@.len() <= usize::MAX,
            old(self).tokens@.len() + num_new <= usize::MAX,
        ensures
            final(self).wf(),
            r == !seq.finished(),
            !r ==> *final(self) == *old(self),
            r ==> {
                let len = seq.tokens@.len() as int;
                let first = len - num_new;
                &&& final(self).seqlens_q@ == old(self).seqlens_q@.push(
                    (old(self).tokens@.len() + num_new) as usize,
                )
                &&& final(self).seqlens_k@ == old(self).seqlens_k@.push(
                    (old(self).gather_mapping@.len() + len) as usize,
                )
                &&& final(self).gather_mapping@ == old(self).gather_mapping@ + Seq::new(
                    len as nat,
                    |p: int| seq.slot_of(p) as usize,
                )
                &&& final(self).slot_mapping@ == old(self).slot_mapping@ + Seq::new(
                    num_new as nat,
                    |j: int| seq.slot_of(first + j) as usize,
                )
                &&& final(self).tokens@ == old(self).tokens@ + seq.tokens@.subrange(first, len)
                &&& final(self).positions@ == old(self).positions@ + Seq::new(
                    num_new as nat,
                    |j: int| (first + j) as usize,
                )
            },
    {
        if seq.is_finished() {
            return false;
        }
        let len = seq.get_len();
        let first = len - num_new;
        let ghost g0 = self.gather_mapping@;
        let ghost s0 = self.slot_mapping@;
        let ghost t0 = self.tokens@;
        let ghost pos0 = self.positions@;
        let mut p: usize = 0;
        assert(self.gather_mapping@ =~= g0 + Seq::new(0, |q: int| seq.slot_of(q) as usize));
        while p < len
            invariant
                p <= len,
                len == seq.tokens@.len(),
                forall|q: int| 0 <= q < seq.tokens@.len() ==> #[trigger] seq.has_slot(q),
                self.gather_mapping@ == g0 + Seq::new(p as nat, |q: int| seq.slot_of(q) as usize),
                self.slot_mapping@ == s0,
                self.tokens@ == t0,
                self.positions@ == pos0,
                self.seqlens_q@ == old(self).seqlens_q@,
                self.seqlens_k@ == old(self).seqlens_k@,
                self.max_seqlen_q == old(self).max_seqlen_q,
                self.max_seqlen_k == old(self).max_seqlen_k,
            decreases len - p,
        {
            let slot = seq.get_gpu_slot(p);
            self.gather_mapping.push(slot);
            p = p + 1;
            assert(self.gather_mapping@ =~= g0 + Seq::new(
                p as nat,
                |q: int| seq.slot_of(q) as usize,
            ));
        }
        let mut j: usize = 0;
        assert(self.slot_mapping@ =~= s0 + Seq::new(0, |i: int| seq.slot_of(first + i) as usize));
        assert(self.tokens@ =~= t0 + seq.tokens@.subrange(first as int, first as int));
        assert(self.positions@ =~= pos0 + Seq::new(0, |i: int| (first + i) as usize));
        while j < num_new
            invariant
                j <= num_new,
                len == seq.tokens@.len(),
                first == len - num_new,
                forall|q: int| 0 <= q < seq.tokens@.len() ==> #[trigger] seq.has_slot(q),
                self.slot_mapping@ == s0 + Seq::new(
                    j as nat,
                    |i: int| seq.slot_of(first + i) as usize,
                ),
                self.tokens@ == t0 + seq.tokens@.subrange(first as int, first + j),
                self.positions@ == pos0 + Seq::new(j as nat, |i: int| (first + i) as usize),
                self.gather_mapping@ == g0 + Seq::new(len as nat, |q: int| seq.slot_of(q) as usize),
                self.seqlens_q@ == old(self).seqlens_q@,
                self.seqlens_k@ == old(self).seqlens_k@,
                self.max_seqlen_q == old(self).max_seqlen_q,
                self.max_seqlen_k == old(self).max_seqlen_k,
            decreases num_new - j,
        {
            let slot = seq.get_gpu_slot(first + j);
            self.slot_mapping.push(slot);
            self.tokens.push(seq.tokens[first + j]);
            self.positions.push(first + j);
            j = j + 1;
            assert(self.slot_mapping@ =~= s0 + Seq::new(
                j as nat,
                |i: int| seq.slot_of(first + i) as usize,
            ));
            assert(self.tokens@ =~= t0 + seq.tokens@.subrange(first as int, first + j));
            assert(self.positions@ =~= pos0 + Seq::new(j as nat, |i: int| (first + i) as usize));
        }
        let ghost q0 = self.seqlens_q@;
        let ghost k0 = self.seqlens_k@;
        let q_end = self.tokens.len();
        let k_end = self.gather_mapping.len();
        self.seqlens_q.push(q_end);
        self.seqlens_k.push(k_end);
        if num_new > self.max_seqlen_q {
            self.max_seqlen_q = num_new;
        }
        if len > self.max_seqlen_k {
            self.max_seqlen_k = len;
        }
        assert(self.seqlens_q@.drop_last() =~= q0);
        assert(self.seqlens_k@.drop_last() =~= k0);
        true
    }
}

/// In every well-formed batch the key segments add up to the length of
/// `gather_mapping`, and the query segments to the number of rows.
pub proof fn lemma_batch_segments_cover(b: BatchInfo)
    requires
        b.wf(),
    ensures
        sum_segs(b.seqlens_k@) == b.gather_mapping@.len(),
        sum_segs(b.seqlens_q@) == b.tokens@.len(),
{
    lemma_sum_segs_telescopes(b.seqlens_k@);
    lemma_sum_segs_telescopes(b.seqlens_q@);
}

} // verus!
