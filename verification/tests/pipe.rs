use omegabot_pipe::catalog::Message;
use omegabot_pipe::codec::{encode, DecodeError};
use omegabot_pipe::pipe::{
    ConnectAction, ConnectEvent, Link, Pipe, PipeError, ReadAction, ReadEvent, RetryPolicy,
    WriteAction, WriteEvent, MAX_FRAME_UNITS, PIPE_NAMESPACE, UNIT_BYTES,
};

fn connected(name: &str) -> Pipe {
    let mut pipe = Pipe::new(name);
    let policy = RetryPolicy::standard();
    assert_eq!(pipe.connect(policy, ConnectEvent::Start), ConnectAction::Open);
    assert_eq!(
        pipe.connect(policy, ConnectEvent::Opened),
        ConnectAction::Finish
    );
    assert!(pipe.is_connected());
    pipe
}

/// What the transport hands back for a frame that arrived whole.
fn arrival(frame: &[u16]) -> ReadEvent {
    let mut buffer = vec![0u16; MAX_FRAME_UNITS];
    buffer[..frame.len()].copy_from_slice(frame);
    ReadEvent::Received {
        buffer,
        bytes: frame.len() * UNIT_BYTES,
    }
}

/// Reads one message that the peer sent as `frame`.
fn read_frame(pipe: &mut Pipe, frame: &[u16]) -> Result<Message, PipeError> {
    match pipe.read(ReadEvent::Start) {
        ReadAction::Receive { capacity } => assert_eq!(capacity, 1024),
        ReadAction::Finish(result) => return result,
    }
    match pipe.read(arrival(frame)) {
        ReadAction::Finish(result) => result,
        other => panic!("read went on with {:?}", other),
    }
}

#[test]
fn new_pipe_is_unconnected_and_named_in_the_namespace() {
    let pipe = Pipe::new("OmegaBotPipe");
    assert_eq!(pipe.link(), Link::Unconnected);
    assert!(!pipe.is_connected());
    assert_eq!(pipe.name(), "\\\\.\\pipe\\OmegaBotPipe");
    assert_eq!(PIPE_NAMESPACE, r"\\.\pipe\");
    assert_eq!(Pipe::new("").name(), r"\\.\pipe\");
}

#[test]
fn standard_policy() {
    let policy = RetryPolicy::standard();
    assert_eq!(policy.busy_wait_millis, 20_000);
    assert_eq!(policy.backoff_millis, 50);
}

#[test]
fn connect_retries_until_the_endpoint_opens() {
    let mut pipe = Pipe::new("late");
    let policy = RetryPolicy::standard();
    assert_eq!(pipe.connect(policy, ConnectEvent::Start), ConnectAction::Open);
    assert_eq!(
        pipe.connect(policy, ConnectEvent::Failed),
        ConnectAction::ReleaseThenOpen { backoff_millis: 50 }
    );
    assert_eq!(pipe.link(), Link::Unconnected);
    assert_eq!(
        pipe.connect(policy, ConnectEvent::Busy),
        ConnectAction::WaitThenOpen {
            wait_millis: 20_000,
            backoff_millis: 50
        }
    );
    assert_eq!(pipe.link(), Link::Unconnected);
    for _ in 0..1000 {
        assert_eq!(
            pipe.connect(policy, ConnectEvent::Failed),
            ConnectAction::ReleaseThenOpen { backoff_millis: 50 }
        );
    }
    assert!(!pipe.is_connected());
    assert_eq!(
        pipe.connect(policy, ConnectEvent::Opened),
        ConnectAction::Finish
    );
    assert!(pipe.is_connected());
    assert_eq!(pipe.link(), Link::Connected);
    assert_eq!(pipe.name(), r"\\.\pipe\late");
}

#[test]
fn connect_follows_the_policy() {
    let mut pipe = Pipe::new("p");
    let policy = RetryPolicy {
        busy_wait_millis: 7,
        backoff_millis: 3,
    };
    assert_eq!(
        pipe.connect(policy, ConnectEvent::Busy),
        ConnectAction::WaitThenOpen {
            wait_millis: 7,
            backoff_millis: 3
        }
    );
    assert_eq!(
        pipe.connect(policy, ConnectEvent::Failed),
        ConnectAction::ReleaseThenOpen { backoff_millis: 3 }
    );
}

#[test]
fn connect_is_refused_once_connected_or_disconnected() {
    let policy = RetryPolicy::standard();
    let mut pipe = connected("once");
    for event in [
        ConnectEvent::Start,
        ConnectEvent::Opened,
        ConnectEvent::Busy,
        ConnectEvent::Failed,
    ] {
        assert_eq!(pipe.connect(policy, event), ConnectAction::Refuse);
        assert_eq!(pipe.link(), Link::Connected);
    }
    assert!(pipe.disconnect());
    for event in [
        ConnectEvent::Start,
        ConnectEvent::Opened,
        ConnectEvent::Busy,
        ConnectEvent::Failed,
    ] {
        assert_eq!(pipe.connect(policy, event), ConnectAction::Refuse);
        assert_eq!(pipe.link(), Link::Disconnected);
    }
}

#[test]
fn write_without_waiting() {
    let mut pipe = connected("w");
    let msg = Message::Ping;
    assert_eq!(
        pipe.write(&msg, false, WriteEvent::Start),
        WriteAction::Transfer(vec![1])
    );
    assert_eq!(
        pipe.write(&msg, false, WriteEvent::Transferred { bytes: 2 }),
        WriteAction::Finish(Ok(()))
    );
    assert!(pipe.is_connected());
}

#[test]
fn write_hands_out_the_frame_of_the_message() {
    let mut pipe = connected("w");
    let msg = Message::SaveReplay(String::from("run.replay"));
    assert_eq!(
        pipe.write(&msg, true, WriteEvent::Start),
        WriteAction::Transfer(encode(&msg))
    );
    let bytes = encode(&msg).len() * 2;
    assert_eq!(
        pipe.write(&msg, true, WriteEvent::Transferred { bytes }),
        WriteAction::AwaitReply
    );
    assert_eq!(
        pipe.write(&msg, true, WriteEvent::Replied(Ok(Message::Received))),
        WriteAction::Finish(Ok(()))
    );
    assert!(pipe.is_connected());
}

#[test]
fn write_on_a_pipe_that_is_not_connected() {
    let mut pipe = Pipe::new("never");
    let refused = WriteAction::Finish(Err(PipeError::NotConnected));
    assert_eq!(pipe.write(&Message::Ping, false, WriteEvent::Start), refused);
    assert_eq!(
        pipe.write(&Message::Ping, false, WriteEvent::Transferred { bytes: 2 }),
        refused
    );
    assert_eq!(
        pipe.write(&Message::Ping, true, WriteEvent::TransferFailed),
        refused
    );
    assert_eq!(pipe.link(), Link::Unconnected);
}

#[test]
fn short_transfer_is_a_fault() {
    for bytes in [0usize, 1, 4, 5, 7, 8, usize::MAX] {
        let mut pipe = connected("w");
        let msg = Message::ChangeFPS(60.0f32.to_bits());
        assert_eq!(
            pipe.write(&msg, false, WriteEvent::Start),
            WriteAction::Transfer(vec![5, 0, 0x4270])
        );
        assert_eq!(
            pipe.write(&msg, false, WriteEvent::Transferred { bytes }),
            WriteAction::Finish(Err(PipeError::TransportFault))
        );
        assert_eq!(pipe.link(), Link::Disconnected);
        assert_eq!(
            pipe.write(&msg, false, WriteEvent::Start),
            WriteAction::Finish(Err(PipeError::NotConnected))
        );
    }
}

#[test]
fn failed_transfer_is_a_fault() {
    let mut pipe = connected("w");
    assert_eq!(
        pipe.write(&Message::Exit, false, WriteEvent::TransferFailed),
        WriteAction::Finish(Err(PipeError::TransportFault))
    );
    assert!(!pipe.is_connected());
    assert_eq!(
        pipe.read(ReadEvent::Start),
        ReadAction::Finish(Err(PipeError::NotConnected))
    );
}

#[test]
fn ack_mismatch_when_the_peer_replies_with_ping() {
    let mut pipe = connected("ack");
    let msg = Message::ChangeFPS(60.0f32.to_bits());
    let frame = match pipe.write(&msg, true, WriteEvent::Start) {
        WriteAction::Transfer(frame) => frame,
        other => panic!("write went on with {:?}", other),
    };
    assert_eq!(
        pipe.write(
            &msg,
            true,
            WriteEvent::Transferred {
                bytes: frame.len() * 2
            }
        ),
        WriteAction::AwaitReply
    );
    let reply = read_frame(&mut pipe, &encode(&Message::Ping));
    assert_eq!(reply, Ok(Message::Ping));
    assert_eq!(
        pipe.write(&msg, true, WriteEvent::Replied(reply)),
        WriteAction::Finish(Err(PipeError::AckMismatch))
    );
    assert_eq!(pipe.link(), Link::Connected);
}

#[test]
fn acknowledged_write_succeeds() {
    let mut pipe = connected("ack");
    let msg = Message::ChangeFPS(60.0f32.to_bits());
    assert_eq!(
        pipe.write(&msg, true, WriteEvent::Transferred { bytes: 6 }),
        WriteAction::AwaitReply
    );
    let reply = read_frame(&mut pipe, &encode(&Message::Received));
    assert_eq!(
        pipe.write(&msg, true, WriteEvent::Replied(reply)),
        WriteAction::Finish(Ok(()))
    );
    assert!(pipe.is_connected());
}

#[test]
fn failed_reply_fails_the_write_with_the_same_error() {
    let mut pipe = connected("ack");
    let msg = Message::Speedhack(1.5f32.to_bits());
    let reply = read_frame(&mut pipe, &[99, 0, 0]);
    assert_eq!(reply, Err(PipeError::Decode(DecodeError::UnknownTag)));
    assert_eq!(
        pipe.write(&msg, true, WriteEvent::Replied(reply)),
        WriteAction::Finish(Err(PipeError::Decode(DecodeError::UnknownTag)))
    );
    assert!(pipe.is_connected());
    assert_eq!(
        pipe.read(ReadEvent::Failed),
        ReadAction::Finish(Err(PipeError::TransportFault))
    );
    assert_eq!(
        pipe.write(
            &msg,
            true,
            WriteEvent::Replied(Err(PipeError::TransportFault))
        ),
        WriteAction::Finish(Err(PipeError::TransportFault))
    );
    assert_eq!(pipe.link(), Link::Disconnected);
}

#[test]
fn read_asks_for_the_largest_frame() {
    let mut pipe = connected("r");
    assert_eq!(
        pipe.read(ReadEvent::Start),
        ReadAction::Receive { capacity: 1024 }
    );
    assert_eq!(MAX_FRAME_UNITS, 1024);
    assert_eq!(UNIT_BYTES, 2);
}

#[test]
fn read_decodes_what_arrived() {
    let mut pipe = connected("r");
    let msg = Message::LoadReplay(String::from("best \u{1F600}"));
    assert_eq!(read_frame(&mut pipe, &encode(&msg)), Ok(msg));
    assert_eq!(read_frame(&mut pipe, &[3]), Ok(Message::Received));
    assert!(pipe.is_connected());
}

#[test]
fn read_looks_at_the_units_that_arrived_only() {
    let mut pipe = connected("r");
    // The buffer holds a whole text frame, but only the tag and one unit arrived.
    let buffer = vec![17, 0x78, 0, 0, 0];
    assert_eq!(
        pipe.read(ReadEvent::Received {
            buffer: buffer.clone(),
            bytes: 4
        }),
        ReadAction::Finish(Err(PipeError::Decode(DecodeError::Truncated)))
    );
    // A byte that is half a unit does not count.
    assert_eq!(
        pipe.read(ReadEvent::Received {
            buffer: buffer.clone(),
            bytes: 5
        }),
        ReadAction::Finish(Err(PipeError::Decode(DecodeError::Truncated)))
    );
    assert_eq!(
        pipe.read(ReadEvent::Received {
            buffer: buffer.clone(),
            bytes: 6
        }),
        ReadAction::Finish(Ok(Message::SaveReplay(String::from("x"))))
    );
    // More bytes than the buffer holds: the whole buffer.
    assert_eq!(
        pipe.read(ReadEvent::Received {
            buffer,
            bytes: 4096
        }),
        ReadAction::Finish(Ok(Message::SaveReplay(String::from("x"))))
    );
    assert_eq!(
        pipe.read(ReadEvent::Received {
            buffer: vec![1, 2, 3],
            bytes: 0
        }),
        ReadAction::Finish(Err(PipeError::Decode(DecodeError::Truncated)))
    );
    assert!(pipe.is_connected());
}

#[test]
fn malformed_frame_fails_the_read_and_keeps_the_connection() {
    let mut pipe = connected("r");
    assert_eq!(
        read_frame(&mut pipe, &[0]),
        Err(PipeError::Decode(DecodeError::UnknownTag))
    );
    assert_eq!(
        read_frame(&mut pipe, &[11, 4, 0]),
        Err(PipeError::Decode(DecodeError::InvalidEnumValue))
    );
    assert_eq!(
        read_frame(&mut pipe, &[2, 0x61]),
        Err(PipeError::Decode(DecodeError::Truncated))
    );
    assert!(pipe.is_connected());
    assert_eq!(read_frame(&mut pipe, &[1]), Ok(Message::Ping));
}

#[test]
fn read_fault_disconnects_and_the_next_write_is_refused() {
    let mut pipe = connected("r");
    assert_eq!(
        pipe.read(ReadEvent::Start),
        ReadAction::Receive { capacity: 1024 }
    );
    assert_eq!(
        pipe.read(ReadEvent::Failed),
        ReadAction::Finish(Err(PipeError::TransportFault))
    );
    assert!(!pipe.is_connected());
    assert_eq!(pipe.link(), Link::Disconnected);
    assert_eq!(
        pipe.write(&Message::Ping, false, WriteEvent::Start),
        WriteAction::Finish(Err(PipeError::NotConnected))
    );
    assert_eq!(
        pipe.read(ReadEvent::Start),
        ReadAction::Finish(Err(PipeError::NotConnected))
    );
}

#[test]
fn read_on_a_pipe_that_is_not_connected() {
    let mut pipe = Pipe::new("never");
    let refused = || ReadAction::Finish(Err(PipeError::NotConnected));
    assert_eq!(pipe.read(ReadEvent::Start), refused());
    assert_eq!(pipe.read(arrival(&[1])), refused());
    assert_eq!(pipe.read(ReadEvent::Failed), refused());
    assert_eq!(pipe.link(), Link::Unconnected);
}

#[test]
fn disconnect_releases_once() {
    let mut pipe = connected("d");
    assert!(pipe.disconnect());
    assert_eq!(pipe.link(), Link::Disconnected);
    assert!(!pipe.disconnect());
    assert!(!pipe.disconnect());
    assert_eq!(pipe.link(), Link::Disconnected);
    assert_eq!(pipe.name(), r"\\.\pipe\d");
}

#[test]
fn disconnect_of_an_unconnected_pipe_does_nothing() {
    let mut pipe = Pipe::new("d");
    assert!(!pipe.disconnect());
    assert_eq!(pipe.link(), Link::Unconnected);
    assert_eq!(
        pipe.connect(RetryPolicy::standard(), ConnectEvent::Opened),
        ConnectAction::Finish
    );
    assert!(pipe.is_connected());
}

#[test]
fn frames_cross_from_one_pipe_to_the_other() {
    let mut sender = connected("duplex");
    let mut receiver = connected("duplex");
    let sent = vec![
        Message::Ping,
        Message::Error(String::from("no such level")),
        Message::ChangeFPS(240.0f32.to_bits()),
        Message::FrameAdvance(true),
        Message::Exit,
    ];
    for msg in sent {
        let frame = match sender.write(&msg, false, WriteEvent::Start) {
            WriteAction::Transfer(frame) => frame,
            other => panic!("write went on with {:?}", other),
        };
        assert_eq!(
            sender.write(
                &msg,
                false,
                WriteEvent::Transferred {
                    bytes: frame.len() * 2
                }
            ),
            WriteAction::Finish(Ok(()))
        );
        assert_eq!(read_frame(&mut receiver, &frame), Ok(msg));
    }
}

#[test]
fn frame_longer_than_one_read_is_cut_short() {
    let mut pipe = connected("long");
    let msg = Message::Error("e".repeat(2000));
    let frame = encode(&msg);
    assert_eq!(frame.len(), 2002);
    let buffer: Vec<u16> = frame[..MAX_FRAME_UNITS].to_vec();
    assert_eq!(
        pipe.read(ReadEvent::Received {
            buffer,
            bytes: MAX_FRAME_UNITS * UNIT_BYTES
        }),
        ReadAction::Finish(Err(PipeError::Decode(DecodeError::Truncated)))
    );
    let fits = Message::Error("e".repeat(1022));
    assert_eq!(encode(&fits).len(), MAX_FRAME_UNITS);
    assert_eq!(read_frame(&mut pipe, &encode(&fits)), Ok(fits));
}
