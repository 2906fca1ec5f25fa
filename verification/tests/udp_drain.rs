use tokio::net::UnixDatagram;
use usque::manager::transport::{UdpDrain, UdpRead, UdpReadStep};

fn drain(socket: &UnixDatagram, budget: usize) -> (usize, Vec<Vec<u8>>) {
    let mut drain = UdpDrain::new(budget);
    let mut delivered = Vec::new();
    while drain.wants_more() {
        let mut buf = vec![0u8; 2048];
        let read = match socket.try_recv(&mut buf) {
            Ok(len) => UdpRead::Datagram(len),
            Err(e) if e.kind() == std::io::ErrorKind::WouldBlock => UdpRead::WouldBlock,
            Err(_) => UdpRead::Failed,
        };
        match drain.on_read(read) {
            UdpReadStep::Deliver(len) => delivered.push(buf[..len].to_vec()),
            UdpReadStep::Stop => break,
        }
    }
    (drain.drained, delivered)
}

fn runtime() -> tokio::runtime::Runtime {
    tokio::runtime::Builder::new_current_thread().enable_all().build().unwrap()
}

#[test]
fn drain_ready_udp_socket_drains_multiple_datagrams() {
    runtime().block_on(async {
        let (receiver, sender) = UnixDatagram::pair().unwrap();

        sender.send(b"one").await.unwrap();
        sender.send(b"two").await.unwrap();

        receiver.readable().await.unwrap();

        let (drained, delivered) = drain(&receiver, 8);

        assert_eq!(drained, 2);
        assert_eq!(delivered, vec![b"one".to_vec(), b"two".to_vec()]);
    });
}

#[test]
fn drain_ready_udp_socket_respects_budget() {
    runtime().block_on(async {
        let (receiver, sender) = UnixDatagram::pair().unwrap();

        sender.send(b"one").await.unwrap();
        sender.send(b"two").await.unwrap();
        sender.send(b"three").await.unwrap();

        receiver.readable().await.unwrap();

        let (drained, delivered) = drain(&receiver, 2);

        assert_eq!(drained, 2);
        assert_eq!(delivered, vec![b"one".to_vec(), b"two".to_vec()]);

        let (drained, delivered) = drain(&receiver, 2);

        assert_eq!(drained, 1);
        assert_eq!(delivered, vec![b"three".to_vec()]);
    });
}
