use infer_core::batch::BatchInfo;
use infer_core::blocks::BlockSpace;
use infer_core::seq::{FinishReason, SchedulingPhase, Sequence};

fn seq(space: &mut BlockSpace, id: u32, tokens: &[u32], blocks: &[usize]) -> Sequence {
    let mut s = Sequence::new(id, tokens, 2);
    for &b in blocks {
        s.gpu_blocks.push(space.acquire(b));
    }
    s
}

fn key_sum(b: &BatchInfo) -> usize {
    (0..b.seqlens_k.len() - 1).map(|i| b.seqlens_k[i + 1] - b.seqlens_k[i]).sum()
}

#[test]
fn empty_batch() {
    let b = BatchInfo::new();
    assert_eq!(b.seqlens_q, vec![0]);
    assert_eq!(b.seqlens_k, vec![0]);
    assert_eq!(key_sum(&b), b.gather_mapping.len());
    assert_eq!(b.max_seqlen_q, 0);
}

#[test]
fn prefill_and_decode_rows() {
    let mut space = BlockSpace::new(8);
    let prefill = seq(&mut space, 1, &[10, 11, 12], &[3, 5]);
    let mut decode = seq(&mut space, 2, &[20, 21], &[6, 0]);
    decode.append_token_id(22);
    let mut b = BatchInfo::new();
    assert!(b.add_seq(&prefill, 3));
    assert!(b.add_seq(&decode, 1));
    assert_eq!(b.seqlens_q, vec![0, 3, 4]);
    assert_eq!(b.seqlens_k, vec![0, 3, 6]);
    assert_eq!(b.tokens, vec![10, 11, 12, 22]);
    assert_eq!(b.positions, vec![0, 1, 2, 2]);
    assert_eq!(b.gather_mapping, vec![6, 7, 10, 12, 13, 0]);
    assert_eq!(b.slot_mapping, vec![6, 7, 10, 0]);
    assert_eq!(b.max_seqlen_q, 3);
    assert_eq!(b.max_seqlen_k, 3);
}

#[test]
fn batch_key_segments_match_gather() {
    let mut space = BlockSpace::new(16);
    let a = seq(&mut space, 1, &[1, 2, 3, 4, 5], &[0, 1, 2]);
    let c = seq(&mut space, 2, &[7], &[9]);
    let d = seq(&mut space, 3, &[8, 9, 10, 11], &[4, 5]);
    let mut b = BatchInfo::new();
    b.add_seq(&a, 2);
    b.add_seq(&c, 1);
    b.add_seq(&d, 4);
    assert_eq!(key_sum(&b), b.gather_mapping.len());
    assert_eq!(b.gather_mapping.len(), 10);
    assert_eq!(*b.seqlens_q.last().unwrap(), b.tokens.len());
    assert_eq!(b.max_seqlen_q, 4);
    assert_eq!(b.max_seqlen_k, 5);
}

#[test]
fn finished_sequence_left_out() {
    let mut space = BlockSpace::new(4);
    let mut s = seq(&mut space, 1, &[1, 2], &[1]);
    s.sched_phase = SchedulingPhase::Finished(FinishReason::Aborted);
    let mut b = BatchInfo::new();
    assert!(!b.add_seq(&s, 1));
    assert_eq!(b.seqlens_q, vec![0]);
    assert!(b.gather_mapping.is_empty());
    assert!(b.tokens.is_empty());
}
