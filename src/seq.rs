use vstd::prelude::*;

use crate::blocks::{distinct_blocks, indices_of, occurrences, BlockRef, BlockSpace};

verus! {

/// Why a sequence stopped.
#[derive(Debug, PartialEq, Eq, Clone, Copy, Structural)]
pub enum FinishReason {
    /// The end-of-sequence token was generated.
    FoundEos,
    /// The token budget of the request was used up.
    MaxTokensReached,
    /// The engine was asked to abort the request.
    Aborted,
    /// The sequence could not be scheduled or sampled.
    Failed,
}

/// Where a sequence stands in the scheduler's life cycle.
#[derive(Debug, PartialEq, Eq, Clone, Copy, Structural)]
pub enum SchedulingPhase {
    Waiting,
    Running,
    Swapped,
    Finished(FinishReason),
}

/// What kind of forward step last extended a sequence.
#[derive(Debug, Clone, Copy)]
pub enum StepType {
    Prompt,
    Fixed(usize),
    Gen,
}

/// One generation branch: its tokens and the blocks that page them into
/// cache slots.
#[derive(Debug)]
pub struct Sequence {
    pub seq_id: u32,
    pub step_type: StepType,
    pub tokens: Vec<u32>,
    pub prompt_len: usize,
    pub sched_phase: SchedulingPhase,
    pub gpu_blocks: Vec<BlockRef>,
    pub cpu_blocks: Vec<BlockRef>,
    pub block_size: usize,
}

/// The finish reason carried by a phase, if it is terminal.
pub open spec fn reason_of(phase: SchedulingPhase) -> Option<FinishReason> {
    match phase {
        SchedulingPhase::Finished(r) => Some(r),
        _ => None,
    }
}

impl Sequence {
    /// The prompt is a prefix of the tokens.
    pub open spec fn wf(&self) -> bool {
        self.prompt_len <= self.tokens@.len()
    }

    pub open spec fn finished(&self) -> bool {
        self.sched_phase is Finished
    }

    /// The physical slot of logical position `p`.
    pub open spec fn slot_of(&self, p: int) -> int {
        self.gpu_blocks@[p / self.block_size as int].index * self.block_size + p
            % self.block_size as int
    }

    /// Position `p` falls in the blocks assigned and its slot is a `usize`.
    pub open spec fn has_slot(&self, p: int) -> bool {
        &&& 0 <= p
        &&& self.block_size > 0
        &&& p / (self.block_size as int) < self.gpu_blocks@.len()
        &&& self.slot_of(p) <= usize::MAX
    }

    /// The generated tokens, after the prompt.
    pub open spec fn generated(&self) -> Seq<u32> {
        self.tokens@.subrange(self.prompt_len as int, self.tokens@.len() as int)
    }

    /// A waiting sequence holding the prompt `tokens`.
    pub fn new(seq_id: u32, tokens: &[u32], block_size: usize) -> (r: Sequence)
        ensures
            r.wf(),
            r.seq_id == seq_id,
            r.tokens@ == tokens@,
            r.prompt_len == tokens@.len(),
            r.sched_phase == SchedulingPhase::Waiting,
            r.step_type == StepType::Prompt,
            r.gpu_blocks@.len() == 0,
            r.cpu_blocks@.len() == 0,
            r.block_size == block_size,
    {
        let prompt_len = tokens.len();
        let mut seq = Sequence {
            seq_id,
            sched_phase: SchedulingPhase::Waiting,
            step_type: StepType::Prompt,
            tokens: Vec::new(),
            prompt_len,
            gpu_blocks: Vec::new(),
            cpu_blocks: Vec::new(),
            block_size,
        };
        seq._append_tokens_to_blocks(tokens);
        seq
    }

    pub fn get_len(&self) -> (r: usize)
        ensures
            r == self.tokens@.len(),
    {
        self.tokens.len()
    }

    pub fn get_gen_len(&self) -> (r: usize)
        requires
            self.wf(),
        ensures
            r == self.tokens@.len() - self.prompt_len,
    {
        self.tokens.len() - self.prompt_len
    }

    /// The physical slot of logical position `position`.
    pub fn get_gpu_slot(&self, position: usize) -> (r: usize)
        requires
            self.has_slot(position as int),
        ensures
            r == self.slot_of(position as int),
    {
        let block_index = self.gpu_blocks[position / self.block_size].get_index();
        let block_offset = position % self.block_size;
        proof {
            let b = block_index as int;
            let s = self.block_size as int;
            assert(0 <= block_offset < s);
            assert(b * s <= b * s + block_offset) by (nonlinear_arith)
                requires
                    block_offset >= 0,
            ;
            assert(0 <= b * s) by (nonlinear_arith)
                requires
                    b >= 0,
                    s >= 0,
            ;
        }
        block_index * self.block_size + block_offset
    }

    /// A new branch with id `seq_id` that shares this one's tokens and
    /// blocks; each block's count in `gpu` and `cpu` goes up by the number
    /// of times this sequence names it.
    pub fn fork_as(&self, seq_id: u32, gpu: &mut BlockSpace, cpu: &mut BlockSpace) -> (r: Sequence)
        requires
            self.wf(),
            forall|k: int|
                0 <= k < self.gpu_blocks@.len() ==> self.gpu_blocks@[k].index
                    < old(gpu).ref_counts@.len(),
            forall|k: int|
                0 <= k < self.cpu_blocks@.len() ==> self.cpu_blocks@[k].index
                    < old(cpu).ref_counts@.len(),
            forall|i: int|
                0 <= i < old(gpu).ref_counts@.len() ==> old(gpu).ref_counts@[i] + occurrences(
                    indices_of(self.gpu_blocks@),
                    i,
                ) <= usize::MAX,
            forall|i: int|
                0 <= i < old(cpu).ref_counts@.len() ==> old(cpu).ref_counts@[i] + occurrences(
                    indices_of(self.cpu_blocks@),
                    i,
                ) <= usize::MAX,
        ensures
            r.wf(),
            r.seq_id == seq_id,
            r.tokens@ == self.tokens@,
            r.prompt_len == self.prompt_len,
            r.sched_phase == self.sched_phase,
            r.step_type == self.step_type,
            r.block_size == self.block_size,
            indices_of(r.gpu_blocks@) == indices_of(self.gpu_blocks@),
            indices_of(r.cpu_blocks@) == indices_of(self.cpu_blocks@),
            final(gpu).ref_counts@.len() == old(gpu).ref_counts@.len(),
            final(cpu).ref_counts@.len() == old(cpu).ref_counts@.len(),
            forall|i: int|
                0 <= i < final(gpu).ref_counts@.len() ==> final(gpu).ref_counts@[i] == old(
                    gpu,
                ).ref_counts@[i] + occurrences(indices_of(self.gpu_blocks@), i),
            forall|i: int|
                0 <= i < final(cpu).ref_counts@.len() ==> final(cpu).ref_counts@[i] == old(
                    cpu,
                ).ref_counts@[i] + occurrences(indices_of(self.cpu_blocks@), i),
    {
        let gpu_blocks = gpu.fork_all(&self.gpu_blocks);
        let cpu_blocks = cpu.fork_all(&self.cpu_blocks);
        let mut seq = Sequence {
            seq_id,
            sched_phase: self.sched_phase,
            step_type: self.step_type,
            tokens: Vec::new(),
            prompt_len: self.prompt_len,
            gpu_blocks,
            cpu_blocks,
            block_size: self.block_size,
        };
        seq._append_tokens_to_blocks(self.tokens.as_slice());
        seq
    }

    fn _append_tokens_to_blocks(&mut self, token_ids: &[u32])
        ensures
            final(self).tokens@ == old(self).tokens@ + token_ids@,
            final(self).seq_id == old(self).seq_id,
            final(self).step_type == old(self).step_type,
            final(self).prompt_len == old(self).prompt_len,
            final(self).sched_phase == old(self).sched_phase,
            final(self).gpu_blocks@ == old(self).gpu_blocks@,
            final(self).cpu_blocks@ == old(self).cpu_blocks@,
            final(self).block_size == old(self).block_size,
    {
        let ghost start = self.tokens@;
        let mut k: usize = 0;
        while k < token_ids.len()
            invariant
                k <= token_ids@.len(),
                self.tokens@ == start + token_ids@.take(k as int),
                self.seq_id == old(self).seq_id,
                self.step_type == old(self).step_type,
                self.prompt_len == old(self).prompt_len,
                self.sched_phase == old(self).sched_phase,
                self.gpu_blocks@ == old(self).gpu_blocks@,
                self.cpu_blocks@ == old(self).cpu_blocks@,
                self.block_size == old(self).block_size,
            decreases token_ids@.len() - k,
        {
            self.tokens.push(token_ids[k]);
            k = k + 1;
            assert(self.tokens@ =~= start + token_ids@.take(k as int));
        }
        assert(token_ids@.take(k as int) =~= token_ids@);
    }

    /// Appends one token; the blocks are the allocator's concern.
    pub fn append_token_id(&mut self, token_id: u32)
        ensures
            final(self).tokens@ == old(self).tokens@.push(token_id),
            final(self).seq_id == old(self).seq_id,
            final(self).step_type == old(self).step_type,
            final(self).prompt_len == old(self).prompt_len,
            final(self).sched_phase == old(self).sched_phase,
            final(self).gpu_blocks@ == old(self).gpu_blocks@,
            final(self).cpu_blocks@ == old(self).cpu_blocks@,
            final(self).block_size == old(self).block_size,
    {
        let one: [u32; 1] = [token_id];
        self._append_tokens_to_blocks(&one);
        assert(old(self).tokens@ + one@ =~= old(self).tokens@.push(token_id));
    }

    pub fn finish_reason(&self) -> (r: Option<FinishReason>)
        ensures
            r == reason_of(self.sched_phase),
    {
        match self.sched_phase {
            SchedulingPhase::Finished(reason) => Some(reason),
            _ => None,
        }
    }

    pub fn get_output(&self) -> (r: SeqOutput)
        requires
            self.wf(),
        ensures
            r.seq_id == self.seq_id,
            r.output_tokens@ == self.generated(),
            r.finish_reason == reason_of(self.sched_phase),
    {
        let mut output_tokens: Vec<u32> = Vec::new();
        let mut k: usize = self.prompt_len;
        while k < self.tokens.len()
            invariant
                self.prompt_len <= k <= self.tokens@.len(),
                output_tokens@ == self.tokens@.subrange(self.prompt_len as int, k as int),
            decreases self.tokens@.len() - k,
        {
            output_tokens.push(self.tokens[k]);
            k = k + 1;
            assert(output_tokens@ =~= self.tokens@.subrange(self.prompt_len as int, k as int));
        }
        SeqOutput { seq_id: self.seq_id, output_tokens, finish_reason: self.finish_reason() }
    }

    pub fn is_finished(&self) -> (r: bool)
        ensures
            r == self.finished(),
    {
        self.finish_reason().is_some()
    }
}

/// Within one sequence whose blocks are distinct, two distinct positions
/// never share a physical slot.
pub proof fn lemma_gpu_slot_injective(seq: Sequence, p: int, q: int)
    requires
        seq.has_slot(p),
        seq.has_slot(q),
        distinct_blocks(seq.gpu_blocks@),
        p != q,
    ensures
        seq.slot_of(p) != seq.slot_of(q),
{
    let s = seq.block_size as int;
    let bp = p / s;
    let bq = q / s;
    let op = p % s;
    let oq = q % s;
    assert(p == bp * s + op && 0 <= op < s) by (nonlinear_arith)
        requires
            s > 0,
            p >= 0,
            bp == p / s,
            op == p % s,
    ;
    assert(q == bq * s + oq && 0 <= oq < s) by (nonlinear_arith)
        requires
            s > 0,
            q >= 0,
            bq == q / s,
            oq == q % s,
    ;
    let ip = seq.gpu_blocks@[bp].index as int;
    let iq = seq.gpu_blocks@[bq].index as int;
    if bp == bq {
        assert(op != oq);
    } else {
        assert(ip != iq);
        assert(ip * s + op != iq * s + oq) by (nonlinear_arith)
            requires
                ip != iq,
                0 <= op < s,
                0 <= oq < s,
        {
            if ip < iq {
                assert((ip + 1) * s <= iq * s);
            } else {
                assert((iq + 1) * s <= ip * s);
            }
        }
    }
}

/// What a sequence has produced so far.
#[derive(Debug, Clone)]
pub struct SeqOutput {
    pub seq_id: u32,
    /// The generated tokens, without the prompt.
    pub output_tokens: Vec<u32>,
    pub finish_reason: Option<FinishReason>,
}

/// What a request has produced so far, one entry per branch.
#[derive(Debug, Clone)]
pub struct RequestOutput {
    pub request_id: String,
    pub seq_outputs: Vec<SeqOutput>,
}

} // verus!
