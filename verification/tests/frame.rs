use links_nonblocking::frame::{FixedSizeFramer, FrameBuffer, Framer, ReadFault, ReadOutcome};
use links_nonblocking::status::RecvStatus;

type Fixed4 = FixedSizeFramer<4>;

/// A framer whose frames start with a one-byte length of the payload that follows.
struct LengthPrefixed;
impl Framer for LengthPrefixed {
    fn get_frame_length(bytes: &[u8]) -> Option<usize> {
        match bytes.first() {
            Some(&n) if bytes.len() >= 1 + n as usize => Some(1 + n as usize),
            _ => None,
        }
    }
}

fn frame_of(step: Result<RecvStatus<bytes::Bytes>, ReadFault>) -> Vec<u8> {
    match step {
        Ok(RecvStatus::Completed(Some(f))) => f.to_vec(),
        other => panic!("expected a frame, got {:?}", other),
    }
}

#[test]
fn fixed_size_framer_length() {
    assert_eq!(Fixed4::get_frame_length(&[1, 2, 3]), None);
    assert_eq!(Fixed4::get_frame_length(&[1, 2, 3, 4]), Some(4));
    assert_eq!(Fixed4::get_frame_length(&[1, 2, 3, 4, 5, 6]), Some(4));
    assert_eq!(Fixed4::get_frame_length(&[]), None);
}

#[test]
fn fixed_frames_survive_any_chunking() {
    let sent: Vec<u8> = (0u8..12).collect();
    let mut buf = FrameBuffer::<Fixed4>::new(16);
    assert!(buf.take_frame().is_none());
    // the bytes arrive in chunks that do not line up with frames
    let step = buf.on_read(ReadOutcome::Data(&sent[0..3]));
    assert!(!step.shutdown_write);
    assert_eq!(step.status, Ok(RecvStatus::WouldBlock));
    assert_eq!(buf.len(), 3);
    let step = buf.on_read(ReadOutcome::Data(&sent[3..9]));
    assert_eq!(frame_of(step.status), vec![0, 1, 2, 3]);
    assert_eq!(buf.len(), 5);
    // a complete frame is already pending: it comes out without a read
    assert_eq!(buf.take_frame().unwrap().to_vec(), vec![4, 5, 6, 7]);
    assert!(buf.take_frame().is_none());
    let step = buf.on_read(ReadOutcome::Data(&sent[9..12]));
    assert_eq!(frame_of(step.status), vec![8, 9, 10, 11]);
    assert!(buf.is_empty());
}

#[test]
fn repeated_frames_are_received_unchanged() {
    let frame = [0xAB, 0xCD, 0xEF, 0x01];
    let mut wire = Vec::new();
    for _ in 0..5 {
        wire.extend_from_slice(&frame);
    }
    let mut buf = FrameBuffer::<Fixed4>::new(4);
    let mut received = 0;
    for chunk in wire.chunks(3) {
        let step = buf.on_read(ReadOutcome::Data(chunk));
        if let Ok(RecvStatus::Completed(Some(f))) = step.status {
            assert_eq!(&f[..], &frame[..]);
            received += 1;
        }
        while let Some(f) = buf.take_frame() {
            assert_eq!(&f[..], &frame[..]);
            received += 1;
        }
    }
    assert_eq!(received, 5);
}

#[test]
fn eof_with_nothing_pending_completes_the_stream() {
    let mut buf = FrameBuffer::<Fixed4>::new(4);
    let step = buf.on_read(ReadOutcome::Eof);
    assert!(step.shutdown_write);
    assert_eq!(step.status, Ok(RecvStatus::Completed(None)));
}

#[test]
fn eof_inside_a_frame_is_a_reset() {
    let mut buf = FrameBuffer::<Fixed4>::new(4);
    let _ = buf.on_read(ReadOutcome::Data(&[1, 2]));
    let step = buf.on_read(ReadOutcome::Eof);
    assert!(step.shutdown_write);
    assert_eq!(step.status.unwrap_err(), ReadFault::ResetByPeer);
    assert_eq!(buf.len(), 2);
}

#[test]
fn would_block_and_failure() {
    let mut buf = FrameBuffer::<Fixed4>::new(4);
    let step = buf.on_read(ReadOutcome::WouldBlock);
    assert!(!step.shutdown_write);
    assert_eq!(step.status, Ok(RecvStatus::WouldBlock));
    let step = buf.on_read(ReadOutcome::Failed);
    assert!(step.shutdown_write);
    assert_eq!(step.status.unwrap_err(), ReadFault::Io);
}

#[test]
fn user_framer_splits_variable_frames() {
    let mut buf = FrameBuffer::<LengthPrefixed>::new(8);
    let step = buf.on_read(ReadOutcome::Data(&[2, b'h', b'i', 0, 3, b'a']));
    assert_eq!(frame_of(step.status), vec![2, b'h', b'i']);
    assert_eq!(buf.take_frame().unwrap().to_vec(), vec![0]);
    assert!(buf.take_frame().is_none());
    let step = buf.on_read(ReadOutcome::Data(&[b'b', b'c']));
    assert_eq!(frame_of(step.status), vec![3, b'a', b'b', b'c']);
}

#[test]
fn a_pending_frame_is_served_before_any_read() {
    let mut buf = FrameBuffer::<FixedSizeFramer<2>>::new(4);
    let step = buf.on_read(ReadOutcome::Data(&[1, 2, 3, 4]));
    assert_eq!(frame_of(step.status), vec![1, 2]);
    assert_eq!(buf.take_frame().unwrap().to_vec(), vec![3, 4]);
    assert!(buf.is_empty());
}

#[test]
fn whole_frames_written_come_back_in_order() {
    let frames: Vec<Vec<u8>> = vec![vec![2, 10, 11], vec![0], vec![3, 20, 21, 22]];
    let wire: Vec<u8> = frames.concat();
    let mut buf = FrameBuffer::<LengthPrefixed>::new(16);
    let mut got = Vec::new();
    for chunk in wire.chunks(3) {
        let step = buf.on_read(ReadOutcome::Data(chunk));
        if let Ok(RecvStatus::Completed(Some(f))) = step.status {
            got.push(f.to_vec());
        }
        while let Some(f) = buf.take_frame() {
            got.push(f.to_vec());
        }
    }
    assert_eq!(got, frames);
    let end = buf.on_read(ReadOutcome::Eof);
    assert_eq!(end.status, Ok(RecvStatus::Completed(None)));
    assert!(end.shutdown_write);
}
