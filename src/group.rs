use vstd::prelude::*;

use crate::seq::{reason_of, RequestOutput, SchedulingPhase, SeqOutput, Sequence};

verus! {

/// The part of a request's sampling settings that decides how many
/// branches it runs.
#[derive(Debug, Clone, Copy)]
pub struct BranchParams {
    pub best_of: usize,
    pub use_beam_search: bool,
}

/// Whether `seq` passes the optional phase filter `status`.
pub open spec fn selects(status: Option<SchedulingPhase>, seq: Sequence) -> bool {
    match status {
        Some(p) => seq.sched_phase == p,
        None => true,
    }
}

/// The members of `seqs` that pass `status`, in order.
pub open spec fn selected(seqs: Seq<Sequence>, status: Option<SchedulingPhase>) -> Seq<Sequence>
    decreases seqs.len(),
{
    if seqs.len() == 0 {
        Seq::empty()
    } else {
        let rest = selected(seqs.drop_last(), status);
        if selects(status, seqs.last()) {
            rest.push(seqs.last())
        } else {
            rest
        }
    }
}

pub proof fn lemma_selected_len(seqs: Seq<Sequence>, status: Option<SchedulingPhase>)
    ensures
        selected(seqs, status).len() <= seqs.len(),
        status is None ==> selected(seqs, status) == seqs,
    decreases seqs.len(),
{
    if seqs.len() > 0 {
        lemma_selected_len(seqs.drop_last(), status);
        if status is None {
            assert(seqs.drop_last().push(seqs.last()) =~= seqs);
        }
    } else {
        if status is None {
            assert(seqs =~= Seq::empty());
        }
    }
}

/// How many members of `seqs` are running.
pub open spec fn running_count(seqs: Seq<Sequence>) -> nat {
    selected(seqs, Some(SchedulingPhase::Running)).len()
}

/// A group with one member is finished exactly when that member is.
pub proof fn lemma_single_member_finished(g: SequenceGroup)
    requires
        g.seqs@.len() == 1,
    ensures
        g.all_finished() == g.seqs@[0].finished(),
{
    if g.seqs@[0].finished() {
        assert forall|k: int| 0 <= k < g.seqs@.len() implies (#[trigger] g.seqs@[k]).finished() by {
            assert(k == 0);
        }
    }
}

/// One request: the branches generated from one prompt.
#[derive(Debug)]
pub struct SequenceGroup {
    pub request_id: String,
    pub seqs: Vec<Sequence>,
    pub params: BranchParams,
}

impl SequenceGroup {
    /// Every member has stopped.
    pub open spec fn all_finished(&self) -> bool {
        forall|k: int| 0 <= k < self.seqs@.len() ==> (#[trigger] self.seqs@[k]).finished()
    }

    /// The most branches the request will run at once from now on.
    pub open spec fn max_running(&self) -> nat {
        if self.params.use_beam_search {
            self.params.best_of as nat
        } else if self.params.best_of > self.seqs@.len() {
            self.params.best_of as nat
        } else {
            running_count(self.seqs@)
        }
    }

    /// The most branches the request will run at once in the rest of its
    /// life: `best_of` under beam search or before the branches are
    /// expanded, then the number actually running.
    pub fn get_max_num_running_seqs(&self) -> (r: usize)
        ensures
            r == self.max_running(),
    {
        if self.params.use_beam_search {
            self.params.best_of
        } else {
            if self.params.best_of > self.num_seqs(None) {
                self.params.best_of
            } else {
                self.num_seqs(Some(SchedulingPhase::Running))
            }
        }
    }

    /// The one member of a single-branch request.
    pub fn only_seq(&self) -> (r: &Sequence)
        requires
            self.seqs@.len() == 1,
        ensures
            *r == self.seqs@[0],
    {
        &self.seqs[0]
    }

    /// The members in the phase `status`, or all of them.
    pub fn get_seqs(&self, status: Option<SchedulingPhase>) -> (r: Vec<&Sequence>)
        ensures
            r@.len() == selected(self.seqs@, status).len(),
            forall|k: int| 0 <= k < r@.len() ==> *r@[k] == selected(self.seqs@, status)[k],
    {
        let mut r: Vec<&Sequence> = Vec::new();
        let mut k: usize = 0;
        while k < self.seqs.len()
            invariant
                k <= self.seqs@.len(),
                r@.len() == selected(self.seqs@.take(k as int), status).len(),
                forall|j: int|
                    0 <= j < r@.len() ==> *r@[j] == selected(self.seqs@.take(k as int), status)[j],
            decreases self.seqs@.len() - k,
        {
            let seq = &self.seqs[k];
            let keep = match status {
                Some(p) => seq.sched_phase == p,
                None => true,
            };
            assert(self.seqs@.take(k as int + 1).drop_last() =~= self.seqs@.take(k as int));
            if keep {
                r.push(seq);
            }
            k = k + 1;
        }
        assert(self.seqs@.take(k as int) =~= self.seqs@);
        r
    }

    /// How many members are in the phase `status`, or how many there are.
    pub fn num_seqs(&self, status: Option<SchedulingPhase>) -> (r: usize)
        ensures
            r == selected(self.seqs@, status).len(),
            status is None ==> r == self.seqs@.len(),
    {
        proof {
            lemma_selected_len(self.seqs@, status);
        }
        self.get_seqs(status).len()
    }

    /// Adds a branch.
    pub fn add(&mut self, seq: Sequence)
        ensures
            final(self).seqs@ == old(self).seqs@.push(seq),
            final(self).request_id == old(self).request_id,
            final(self).params == old(self).params,
    {
        self.seqs.push(seq)
    }

    /// Whether every member has stopped.
    pub fn is_finished(&self) -> (r: bool)
        ensures
            r == self.all_finished(),
    {
        let mut k: usize = 0;
        while k < self.seqs.len()
            invariant
                k <= self.seqs@.len(),
                forall|j: int| 0 <= j < k ==> (#[trigger] self.seqs@[j]).finished(),
            decreases self.seqs@.len() - k,
        {
            if !self.seqs[k].is_finished() {
                return false;
            }
            k = k + 1;
        }
        true
    }

    /// The request's output: one entry per member, in order.
    pub fn get_output(&self) -> (r: RequestOutput)
        requires
            forall|k: int| 0 <= k < self.seqs@.len() ==> (#[trigger] self.seqs@[k]).wf(),
        ensures
            r.request_id@ == self.request_id@,
            r.seq_outputs@.len() == self.seqs@.len(),
            forall|k: int|
                0 <= k < self.seqs@.len() ==> {
                    let o = #[trigger] r.seq_outputs@[k];
                    &&& o.seq_id == self.seqs@[k].seq_id
                    &&& o.output_tokens@ == self.seqs@[k].generated()
                    &&& o.finish_reason == reason_of(self.seqs@[k].sched_phase)
                },
    {
        let mut seq_outputs: Vec<SeqOutput> = Vec::new();
        let mut k: usize = 0;
        while k < self.seqs.len()
            invariant
                k <= self.seqs@.len(),
                forall|j: int| 0 <= j < self.seqs@.len() ==> (#[trigger] self.seqs@[j]).wf(),
                seq_outputs@.len() == k,
                forall|j: int|
                    0 <= j < k ==> {
                        let o = #[trigger] seq_outputs@[j];
                        &&& o.seq_id == self.seqs@[j].seq_id
                        &&& o.output_tokens@ == self.seqs@[j].generated()
                        &&& o.finish_reason == reason_of(self.seqs@[j].sched_phase)
                    },
            decreases self.seqs@.len() - k,
        {
            seq_outputs.push(self.seqs[k].get_output());
            k = k + 1;
        }
        RequestOutput { request_id: self.request_id.clone(), seq_outputs }
    }
}

} // verus!
