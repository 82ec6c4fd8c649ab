use loft_raw::channel::{Channel, ChannelError, Exit};
use loft_raw::message::MAX_MESSAGE_BYTES;

type Received = Result<Option<(Vec<u8>, Option<u8>)>, ChannelError>;

/// The frame of a payload, written in pieces of at most `step` bytes.
fn written(payload: &[u8], step: usize) -> Vec<u8> {
    let channel: Channel<u8> = Channel::new();
    let mut outgoing = channel.send(payload).unwrap();
    let mut wire = Vec::new();
    assert!(outgoing.carries_descriptor());
    while !outgoing.is_done() {
        let count = step.min(outgoing.remaining().len());
        wire.extend_from_slice(&outgoing.remaining()[..count]);
        outgoing.wrote(count);
        assert!(!outgoing.carries_descriptor());
    }
    wire
}

/// Hands a stream to a channel in reads of at most `step` bytes, until something comes of it.
fn receive(channel: &mut Channel<u8>, stream: &mut &[u8], step: usize, descriptors: Vec<u8>) -> Received {
    let mut descriptors = Some(descriptors);
    loop {
        let count = channel.wanted().min(step).min(stream.len());
        let (chunk, rest) = stream.split_at(count);
        *stream = rest;
        let come_along = if channel.takes_descriptors() {
            descriptors.take().unwrap_or_default()
        } else {
            vec![99]
        };
        match channel.recv(chunk, come_along) {
            Ok(None) => {}
            result => return result,
        }
    }
}

#[test]
fn frame_is_a_little_endian_length_and_the_payload() {
    assert_eq!(written(&[7, 8, 9], 100), [3, 0, 0, 0, 7, 8, 9]);
    assert_eq!(written(&[], 100), [0, 0, 0, 0]);
    let long = vec![5u8; 0x01_02_03];
    let wire = written(&long, 1000);
    assert_eq!(wire[..4], [0x03, 0x02, 0x01, 0x00]);
    assert_eq!(wire.len(), 4 + long.len());
}

#[test]
fn longest_message_is_sent_and_received() {
    let payload = vec![1u8; MAX_MESSAGE_BYTES];
    let wire = written(&payload, 65_536);
    assert_eq!(wire[..4], [0, 0, 0x10, 0]);
    let mut channel = Channel::new();
    let mut stream = &wire[..];
    let received = receive(&mut channel, &mut stream, 70_000, vec![]).unwrap().unwrap();
    assert_eq!(received, (payload, None));
}

#[test]
fn message_too_long_to_send_is_refused() {
    let channel: Channel<u8> = Channel::new();
    let error = channel.send(&vec![0; MAX_MESSAGE_BYTES + 1]).err().unwrap();
    assert_eq!(error, ChannelError::TooLarge);
    assert_eq!(error.message(), "message too large");
    assert_eq!(error.exit(), Exit::Failure);
}

#[test]
fn message_too_long_to_receive_is_refused_on_its_length_alone() {
    let mut channel: Channel<u8> = Channel::new();
    assert_eq!(channel.recv(&[1, 0, 0x10, 0], vec![]), Err(ChannelError::TooLarge));
    assert_eq!(channel.recv(&[0xff, 0xff, 0xff], vec![]), Ok(None));
    assert_eq!(channel.recv(&[0xff], vec![]), Err(ChannelError::TooLarge));
}

#[test]
fn writes_and_reads_may_be_cut_anywhere() {
    let payload: Vec<u8> = (0..40).collect();
    for write in 1..10 {
        for read in 1..10 {
            let wire = written(&payload, write);
            let mut channel = Channel::new();
            let mut stream = &wire[..];
            let received = receive(&mut channel, &mut stream, read, vec![]).unwrap().unwrap();
            assert_eq!(received.0, payload);
            assert!(stream.is_empty());
        }
    }
}

#[test]
fn what_follows_a_frame_is_left_for_the_next() {
    let mut wire = written(&[1, 2], 100);
    wire.extend(written(&[], 100));
    wire.extend(written(&[3], 100));
    let mut channel = Channel::new();
    let mut stream = &wire[..];
    assert_eq!(receive(&mut channel, &mut stream, 100, vec![4]), Ok(Some((vec![1, 2], Some(4)))));
    assert_eq!(receive(&mut channel, &mut stream, 100, vec![]), Ok(Some((vec![], None))));
    assert_eq!(receive(&mut channel, &mut stream, 100, vec![]), Ok(Some((vec![3], None))));
    assert_eq!(receive(&mut channel, &mut stream, 100, vec![]), Err(ChannelError::Closed));
}

#[test]
fn wanted_bytes_are_the_header_then_the_payload() {
    let mut channel: Channel<u8> = Channel::new();
    assert_eq!(channel.wanted(), 4);
    assert!(channel.takes_descriptors());
    assert_eq!(channel.recv(&[5], vec![]), Ok(None));
    assert_eq!(channel.wanted(), 3);
    assert!(!channel.takes_descriptors());
    assert_eq!(channel.recv(&[0, 0, 0], vec![]), Ok(None));
    assert_eq!(channel.wanted(), 5);
    assert_eq!(channel.recv(&[1, 2], vec![]), Ok(None));
    assert_eq!(channel.wanted(), 3);
    assert_eq!(channel.recv(&[3, 4, 5], vec![]), Ok(Some((vec![1, 2, 3, 4, 5], None))));
    assert_eq!(channel.wanted(), 4);
}

#[test]
fn end_between_frames_is_a_normal_shutdown() {
    let mut channel: Channel<u8> = Channel::new();
    let error = channel.recv(&[], vec![]).unwrap_err();
    assert_eq!(error, ChannelError::Closed);
    assert_eq!(error.message(), "peer closed the channel");
    assert_eq!(error.exit(), Exit::Success);
}

#[test]
fn cut_frame_is_never_a_message() {
    let wire = written(&[1, 2, 3], 100);
    for count in 1..wire.len() {
        let mut channel = Channel::new();
        let mut stream = &wire[..count];
        let error = receive(&mut channel, &mut stream, 2, vec![]).unwrap_err();
        assert_eq!(error, ChannelError::Truncated);
        assert_eq!(error.message(), "failed to fill whole buffer");
        assert_eq!(error.exit(), Exit::Success);
    }
}

#[test]
fn first_descriptor_of_the_first_bytes_is_kept() {
    let wire = written(&[1, 2, 3], 100);
    for read in 1..8 {
        let mut channel = Channel::new();
        let mut stream = &wire[..];
        let received = receive(&mut channel, &mut stream, read, vec![10, 11, 12]);
        assert_eq!(received, Ok(Some((vec![1, 2, 3], Some(10)))));
    }
}

#[test]
fn descriptor_does_not_outlive_its_frame() {
    let mut channel = Channel::new();
    assert_eq!(channel.recv(&[1, 0, 0, 0], vec![10]), Ok(None));
    assert_eq!(channel.recv(&[], vec![]), Err(ChannelError::Truncated));
    assert_eq!(channel.recv(&[0, 0, 0, 0], vec![]), Ok(Some((vec![], None))));
}

#[test]
fn descriptor_goes_with_a_write_even_of_nothing() {
    let channel: Channel<u8> = Channel::new();
    let mut outgoing = channel.send(&[1]).unwrap();
    assert!(outgoing.carries_descriptor());
    outgoing.wrote(0);
    assert!(!outgoing.carries_descriptor());
    assert_eq!(outgoing.remaining(), [1, 0, 0, 0, 1]);
    assert!(!outgoing.is_done());
    outgoing.wrote(5);
    assert!(outgoing.is_done());
}

#[test]
fn messages_of_a_stream_come_in_order_however_cut() {
    let payloads: Vec<Vec<u8>> = vec![vec![1, 2, 3], vec![], (0..30).collect(), vec![9]];
    let mut wire = Vec::new();
    for (k, payload) in payloads.iter().enumerate() {
        wire.extend(written(payload, k + 1));
    }
    // The beginning of a frame that never becomes whole.
    wire.extend([5, 0, 0, 0, 7]);
    for read in 1..12 {
        let mut channel = Channel::new();
        let mut stream = &wire[..];
        for payload in &payloads {
            let received = receive(&mut channel, &mut stream, read, vec![]).unwrap().unwrap();
            assert_eq!(&received.0, payload);
        }
        let end = receive(&mut channel, &mut stream, read, vec![]);
        assert_eq!(end, Err(ChannelError::Truncated));
    }
}
