use infer_core::blocks::BlockSpace;
use infer_core::seq::{FinishReason, SchedulingPhase, Sequence, StepType};

fn seq_with_blocks(space: &mut BlockSpace, tokens: &[u32], block_size: usize, blocks: &[usize]) -> Sequence {
    let mut seq = Sequence::new(1, tokens, block_size);
    for &b in blocks {
        seq.gpu_blocks.push(space.acquire(b));
    }
    seq
}

#[test]
fn new_sequence_is_waiting_prompt() {
    let seq = Sequence::new(5, &[10, 11, 12], 4);
    assert_eq!(seq.seq_id, 5);
    assert_eq!(seq.get_len(), 3);
    assert_eq!(seq.get_gen_len(), 0);
    assert_eq!(seq.prompt_len, 3);
    assert_eq!(seq.tokens, vec![10, 11, 12]);
    assert!(seq.sched_phase == SchedulingPhase::Waiting);
    assert!(matches!(seq.step_type, StepType::Prompt));
    assert!(seq.gpu_blocks.is_empty());
    assert!(!seq.is_finished());
    assert_eq!(seq.finish_reason(), None);
}

#[test]
fn empty_prompt() {
    let mut seq = Sequence::new(0, &[], 2);
    assert_eq!(seq.get_len(), 0);
    assert_eq!(seq.get_output().output_tokens, Vec::<u32>::new());
    seq.append_token_id(9);
    assert_eq!(seq.get_gen_len(), 1);
    assert_eq!(seq.get_output().output_tokens, vec![9]);
}

#[test]
fn append_extends_generated_suffix() {
    let mut seq = Sequence::new(2, &[1, 2], 4);
    seq.append_token_id(7);
    seq.append_token_id(8);
    assert_eq!(seq.get_len(), 4);
    assert_eq!(seq.get_gen_len(), 2);
    assert_eq!(seq.tokens, vec![1, 2, 7, 8]);
    let out = seq.get_output();
    assert_eq!(out.seq_id, 2);
    assert_eq!(out.output_tokens, vec![7, 8]);
    assert_eq!(out.finish_reason, None);
}

#[test]
fn finished_phase_reports_reason() {
    let mut seq = Sequence::new(3, &[1], 4);
    seq.sched_phase = SchedulingPhase::Running;
    assert!(!seq.is_finished());
    seq.sched_phase = SchedulingPhase::Swapped;
    assert_eq!(seq.finish_reason(), None);
    for reason in [
        FinishReason::FoundEos,
        FinishReason::MaxTokensReached,
        FinishReason::Aborted,
        FinishReason::Failed,
    ] {
        seq.sched_phase = SchedulingPhase::Finished(reason);
        assert!(seq.is_finished());
        assert_eq!(seq.finish_reason(), Some(reason));
        assert_eq!(seq.get_output().finish_reason, Some(reason));
    }
}

#[test]
fn gpu_slot_follows_block_arithmetic() {
    let mut space = BlockSpace::new(10);
    let seq = seq_with_blocks(&mut space, &[0; 8], 4, &[7, 2]);
    let slots: Vec<usize> = (0..8).map(|p| seq.get_gpu_slot(p)).collect();
    assert_eq!(slots, vec![28, 29, 30, 31, 8, 9, 10, 11]);
}

#[test]
fn gpu_slot_distinct_positions() {
    let mut space = BlockSpace::new(8);
    let seq = seq_with_blocks(&mut space, &[0; 9], 3, &[1, 0, 5]);
    let slots: Vec<usize> = (0..9).map(|p| seq.get_gpu_slot(p)).collect();
    for i in 0..slots.len() {
        for j in 0..slots.len() {
            if i != j {
                assert_ne!(slots[i], slots[j]);
            }
        }
    }
    assert_eq!(seq.get_gpu_slot(4), 1);
    assert_eq!(seq.get_gpu_slot(8), 17);
}

#[test]
fn block_size_one() {
    let mut space = BlockSpace::new(4);
    let seq = seq_with_blocks(&mut space, &[5, 6, 7], 1, &[3, 1, 2]);
    assert_eq!(seq.get_gpu_slot(0), 3);
    assert_eq!(seq.get_gpu_slot(1), 1);
    assert_eq!(seq.get_gpu_slot(2), 2);
}

#[test]
fn fork_shares_blocks() {
    let mut gpu = BlockSpace::new(6);
    let mut cpu = BlockSpace::new(3);
    let mut parent = seq_with_blocks(&mut gpu, &[4, 5, 6], 2, &[4, 1]);
    parent.cpu_blocks.push(cpu.acquire(2));
    parent.append_token_id(9);
    parent.sched_phase = SchedulingPhase::Running;
    let child = parent.fork_as(42, &mut gpu, &mut cpu);
    assert_eq!(child.seq_id, 42);
    assert_eq!(child.tokens, parent.tokens);
    assert_eq!(child.prompt_len, 3);
    assert_eq!(child.get_gen_len(), 1);
    assert!(child.sched_phase == SchedulingPhase::Running);
    let idx: Vec<usize> = child.gpu_blocks.iter().map(|b| b.get_index()).collect();
    assert_eq!(idx, vec![4, 1]);
    assert_eq!(gpu.ref_count(4), 2);
    assert_eq!(gpu.ref_count(1), 2);
    assert_eq!(gpu.ref_count(0), 0);
    assert_eq!(cpu.ref_count(2), 2);
    for p in 0..4 {
        assert_eq!(child.get_gpu_slot(p), parent.get_gpu_slot(p));
    }
}

#[test]
fn fork_counts_repeated_block_twice() {
    let mut gpu = BlockSpace::new(3);
    let mut cpu = BlockSpace::new(1);
    let seq = seq_with_blocks(&mut gpu, &[1], 2, &[2, 2]);
    assert_eq!(gpu.ref_count(2), 2);
    let _child = seq.fork_as(7, &mut gpu, &mut cpu);
    assert_eq!(gpu.ref_count(2), 4);
}

#[test]
fn forked_branch_diverges() {
    let mut gpu = BlockSpace::new(2);
    let mut cpu = BlockSpace::new(0);
    let parent = seq_with_blocks(&mut gpu, &[1, 2], 4, &[0]);
    let mut child = parent.fork_as(8, &mut gpu, &mut cpu);
    child.append_token_id(3);
    assert_eq!(parent.tokens, vec![1, 2]);
    assert_eq!(child.tokens, vec![1, 2, 3]);
}

#[test]
fn block_space_acquire_release() {
    let mut space = BlockSpace::new(3);
    assert_eq!(space.num_blocks(), 3);
    let a = space.acquire(1);
    let b = space.fork(&a);
    assert_eq!(b.get_index(), 1);
    assert_eq!(space.ref_count(1), 2);
    space.release(a);
    assert_eq!(space.ref_count(1), 1);
    space.release(b);
    assert_eq!(space.ref_count(1), 0);
}
