use clip_embed::assembler::{assemble, ImageAssembler};

#[test]
fn chunks_join_in_arrival_order() {
    let chunks = vec![vec![1u8, 2], vec![], vec![3], vec![4, 5, 6]];
    assert_eq!(assemble(&chunks), vec![1, 2, 3, 4, 5, 6]);
}

#[test]
fn zero_chunks_give_empty_buffer() {
    assert!(assemble(&Vec::new()).is_empty());
    assert_eq!(ImageAssembler::new().finish(), Vec::<u8>::new());
}

#[test]
fn interleaved_uploads_stay_separate() {
    let mut a = ImageAssembler::new();
    let mut b = ImageAssembler::new();
    a.push_chunk(&[1, 2]);
    b.push_chunk(&[9]);
    a.push_chunk(&[3]);
    b.push_chunk(&[8, 7]);
    assert_eq!(a.len(), 3);
    assert_eq!(a.finish(), vec![1, 2, 3]);
    assert_eq!(b.finish(), vec![9, 8, 7]);
}
