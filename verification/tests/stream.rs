use usque::manager::stream::{
    ReadPoll, SocketEventKind, SocketStreamHandle, StackTransfer, WritePoll,
};

#[test]
fn poll_read_returns_eof_after_peer_close() {
    let mut stream = SocketStreamHandle::new(0, 16, 16);
    stream.read_closed = true;
    let mut bytes = [0u8; 16];

    let result = stream.poll_read(&mut bytes);

    assert!(matches!(result, ReadPoll::Eof));
    assert_eq!(bytes, [0u8; 16]);
}

#[test]
fn poll_shutdown_marks_write_shutdown() {
    let mut stream = SocketStreamHandle::new(0, 16, 16);

    let event = stream.poll_shutdown();

    assert!(event.is_some());
    assert!(stream.write_shutdown);
}

#[test]
fn poll_write_fails_after_write_close() {
    let mut stream = SocketStreamHandle::new(0, 16, 16);
    stream.write_closed = true;

    let result = stream.poll_write(b"hello");

    assert!(matches!(result, WritePoll::BrokenPipe));
}

#[test]
fn what_is_written_goes_to_the_stack_in_order() {
    let mut stream = SocketStreamHandle::new(3, 16, 16);
    match stream.poll_write(b"hello") {
        WritePoll::Ready(n, Some(event)) => {
            assert_eq!(n, 5);
            assert_eq!(event.handle, 3);
            assert_eq!(event.kind, SocketEventKind::WriteReady);
        }
        _ => panic!("the stream takes data"),
    }
    assert!(stream.next_chunk_to_stack(false, 4).is_none());
    assert_eq!(stream.next_chunk_to_stack(true, 4).unwrap(), b"hell".to_vec());
    assert!(!stream.on_stack_sent(4, StackTransfer::Moved(2)));
    assert_eq!(stream.next_chunk_to_stack(true, 4).unwrap(), b"llo".to_vec());
    assert!(!stream.on_stack_sent(3, StackTransfer::Failed));
    assert!(stream.on_stack_sent(3, StackTransfer::Moved(3)));
    assert!(stream.next_chunk_to_stack(true, 4).is_none());
}

#[test]
fn what_came_is_read_in_order() {
    let mut stream = SocketStreamHandle::new(3, 16, 5);
    let mut buf = [0u8; 8];
    assert!(matches!(stream.poll_read(&mut buf), ReadPoll::Pending));
    let room = stream.next_read_len(false, true, 100).unwrap();
    assert!(stream.on_stack_received(&b"abcdef"[..room]));
    assert!(stream.next_read_len(false, true, 100).is_none());
    assert!(stream.next_read_len(true, true, 100).is_none());
    match stream.poll_read(&mut buf) {
        ReadPoll::Ready(n, _) => assert_eq!(&buf[..n], &b"abcdef"[..room]),
        _ => panic!("there is data"),
    }
}
