use opendisplay::frame_sender::{FrameSendError, FrameSender};
use opendisplay::protocol::{FrameError, MAX_PAYLOAD_LEN};

#[test]
fn a_normal_sized_frame_is_length_prefixed_and_sent_correctly() {
    let mut sender = FrameSender::new(Vec::<u8>::new());
    let payload = b"\x00\x00\x00\x01NALU-DATA";

    sender.send(payload).expect("a normal-sized payload sends");

    let sent = sender.into_inner();
    assert_eq!(&sent[0..4], &(payload.len() as u32).to_be_bytes());
    assert_eq!(&sent[4..], payload);
}

#[test]
fn the_largest_valid_payload_sends_successfully() {
    let mut sender = FrameSender::new(Vec::<u8>::new());
    let payload = vec![0xABu8; MAX_PAYLOAD_LEN];

    sender.send(&payload).expect("the largest valid payload sends");

    let sent = sender.into_inner();
    assert_eq!(sent.len(), 4 + MAX_PAYLOAD_LEN);
}

#[test]
fn an_oversized_frame_is_rejected_before_it_reaches_the_socket() {
    let mut sender = FrameSender::new(Vec::<u8>::new());
    let oversized = vec![0u8; 1 << 20];

    let result = sender.send(&oversized);

    match result {
        Err(FrameSendError::Oversized(FrameError::PayloadTooLarge { len })) => {
            assert_eq!(len, 1 << 20);
        }
        other => panic!("expected Oversized(PayloadTooLarge), got {other:?}"),
    }

    let sent = sender.into_inner();
    assert!(sent.is_empty(), "an oversized payload must write zero bytes, not a truncated frame");
}

#[test]
fn an_empty_payload_is_rejected_before_it_reaches_the_socket() {
    let mut sender = FrameSender::new(Vec::<u8>::new());

    let result = sender.send(&[]);

    assert!(matches!(result, Err(FrameSendError::Oversized(FrameError::PayloadEmpty))));
    let sent = sender.into_inner();
    assert!(sent.is_empty());
}

#[test]
fn consecutive_sends_append_consecutive_frames() {
    let mut sender = FrameSender::new(Vec::<u8>::new());
    sender.send(b"ab").unwrap();
    sender.send(b"c").unwrap();
    let sent = sender.into_inner();
    assert_eq!(sent, vec![0, 0, 0, 2, b'a', b'b', 0, 0, 0, 1, b'c']);
}
