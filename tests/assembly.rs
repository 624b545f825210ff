use mwdh::assemble::{tar_padding, MissingResult, ResultSlots};
use mwdh::frame::{tar_end_frame, TAR_END_LEN};

#[test]
fn results_come_out_in_index_order() {
    let mut slots: ResultSlots<&str> = ResultSlots::new(3);
    slots.put(2, "c");
    slots.put(0, "a");
    slots.put(1, "b");
    assert_eq!(slots.into_ordered(), Ok(vec!["a", "b", "c"]));
}

#[test]
fn arrival_order_does_not_change_the_output() {
    let mut one: ResultSlots<u32> = ResultSlots::new(4);
    let mut two: ResultSlots<u32> = ResultSlots::new(4);
    for (i, x) in [(0, 10), (1, 11), (2, 12), (3, 13)] {
        one.put(i, x);
    }
    for (i, x) in [(3, 13), (1, 11), (0, 10), (2, 12)] {
        two.put(i, x);
    }
    assert_eq!(one.into_ordered(), two.into_ordered());
}

#[test]
fn a_missing_result_is_reported() {
    let mut slots: ResultSlots<&str> = ResultSlots::new(3);
    slots.put(2, "c");
    slots.put(0, "a");
    assert_eq!(slots.len(), 3);
    assert_eq!(slots.into_ordered(), Err(MissingResult { index: 1 }));
}

#[test]
fn no_results_for_no_units() {
    let slots: ResultSlots<String> = ResultSlots::new(0);
    assert_eq!(slots.into_ordered(), Ok(vec![]));
}

#[test]
fn tar_padding_to_block_boundary() {
    assert_eq!(tar_padding(0), 0);
    assert_eq!(tar_padding(1), 511);
    assert_eq!(tar_padding(10), 502);
    assert_eq!(tar_padding(512), 0);
    assert_eq!(tar_padding(513), 511);
    assert_eq!(tar_padding(u64::MAX), 1);
}

// An empty tree in tar+zstd form is the terminator frame alone: it
// decodes to exactly two zero blocks.
#[test]
fn trailer_frame_decodes_to_two_zero_blocks() {
    let frame = tar_end_frame(-7);
    assert!(!frame.is_empty());
    assert_ne!(frame, vec![0u8; TAR_END_LEN]);
    let plain = zstd::stream::decode_all(&frame[..]).unwrap();
    assert_eq!(plain, vec![0u8; 1024]);
}

#[test]
fn trailer_frame_is_the_same_each_time() {
    assert_eq!(tar_end_frame(3), tar_end_frame(3));
    assert_eq!(tar_end_frame(22), tar_end_frame(22));
}

#[test]
fn concatenated_frames_decode_to_concatenated_plaintext() {
    let mut stream = zstd::stream::encode_all(&b"first"[..], 3).unwrap();
    stream.extend(tar_end_frame(3));
    let plain = zstd::stream::decode_all(&stream[..]).unwrap();
    assert_eq!(&plain[..5], b"first");
    assert_eq!(plain.len(), 5 + 1024);
}
