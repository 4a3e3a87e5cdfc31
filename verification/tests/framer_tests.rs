use cmdrelay::framer::{FrameAssembler, CHUNK_SIZE};

fn feed(payload: &[u8]) -> (FrameAssembler, usize) {
    // deliver the payload as the wire does: full chunks, then the remainder
    let mut assembler = FrameAssembler::new();
    let mut reads = 0usize;
    let mut off = 0usize;
    while off < payload.len() && !assembler.complete {
        let end = (off + CHUNK_SIZE).min(payload.len());
        assembler.push_chunk(&payload[off..end]);
        reads += 1;
        off = end;
    }
    (assembler, reads)
}

#[test]
fn chunk_size_is_4096() {
    assert_eq!(CHUNK_SIZE, 4096);
}

#[test]
fn short_payload_single_read() {
    let payload = vec![7u8; 10];
    let (assembler, reads) = feed(&payload);
    assert_eq!(reads, 1);
    assert!(assembler.complete);
    assert_eq!(assembler.data, payload);
}

#[test]
fn boundary_one_less_than_chunk() {
    // length 1*C - 1: terminates after exactly 1 read
    let payload = vec![1u8; CHUNK_SIZE - 1];
    let (assembler, reads) = feed(&payload);
    assert_eq!(reads, 1);
    assert!(assembler.complete);
    assert_eq!(assembler.data, payload);
}

#[test]
fn boundary_one_less_than_two_chunks() {
    // length 2*C - 1: terminates after exactly 2 reads
    let payload = vec![2u8; 2 * CHUNK_SIZE - 1];
    let (assembler, reads) = feed(&payload);
    assert_eq!(reads, 2);
    assert!(assembler.complete);
    assert_eq!(assembler.data, payload);
}

#[test]
fn boundary_one_less_than_three_chunks() {
    let payload = vec![3u8; 3 * CHUNK_SIZE - 1];
    let (assembler, reads) = feed(&payload);
    assert_eq!(reads, 3);
    assert!(assembler.complete);
    assert_eq!(assembler.data, payload);
}

#[test]
fn exact_multiple_stalls() {
    // length exactly k*C: the whole payload is accumulated but the
    // terminating short read never comes — the documented stall
    let payload = vec![4u8; CHUNK_SIZE];
    let (assembler, reads) = feed(&payload);
    assert_eq!(reads, 1);
    assert!(!assembler.complete);
    assert_eq!(assembler.data, payload);
}

#[test]
fn exact_double_multiple_stalls() {
    let payload = vec![5u8; 2 * CHUNK_SIZE];
    let (assembler, reads) = feed(&payload);
    assert_eq!(reads, 2);
    assert!(!assembler.complete);
    assert_eq!(assembler.data, payload);
}

#[test]
fn empty_chunk_completes() {
    let mut assembler = FrameAssembler::new();
    let empty: [u8; 0] = [];
    assembler.push_chunk(&empty);
    assert!(assembler.complete);
    assert!(assembler.data.is_empty());
}

#[test]
fn accumulates_across_chunks_in_order() {
    let mut payload = Vec::new();
    for i in 0..(CHUNK_SIZE + 100) {
        payload.push((i % 256) as u8);
    }
    let (assembler, reads) = feed(&payload);
    assert_eq!(reads, 2);
    assert!(assembler.complete);
    assert_eq!(assembler.data, payload);
}
