use std::collections::VecDeque;
use usque::manager::masque_io::{
    emit_send_round_events, MasqueSendRound, SendBacklog, TransportIoEvent,
};

#[test]
fn drain_send_channel_round_merges_multiple_batches() {
    let mut channel: VecDeque<Vec<Vec<u8>>> = VecDeque::new();
    let mut queued_packets: usize = 5;
    let mut backlog = SendBacklog::new();

    channel.push_back(vec![b"c".to_vec(), b"d".to_vec()]);
    channel.push_back(vec![b"e".to_vec()]);

    backlog.absorb_send_batch(vec![b"a".to_vec(), b"b".to_vec()], &mut queued_packets);
    backlog.drain_send_channel_round(&mut channel, &mut queued_packets, 8);

    assert_eq!(queued_packets, 0);
    assert_eq!(
        backlog.queue.into_iter().collect::<Vec<_>>(),
        vec![b"a".to_vec(), b"b".to_vec(), b"c".to_vec(), b"d".to_vec(), b"e".to_vec()]
    );
}

#[test]
fn emit_send_round_events_reports_once_per_round() {
    let events = emit_send_round_events(MasqueSendRound {
        sent_packets: 3,
        sent_bytes: 1200,
        blocked: true,
    });

    let mut events = events.into_iter();
    assert!(matches!(events.next(), Some(TransportIoEvent::MasqueBlocked)));
    match events.next() {
        Some(TransportIoEvent::QuicFlush(status)) => {
            assert_eq!(status.packets_sent, 3);
            assert_eq!(status.bytes_sent, 1200);
            assert!(status.blocked);
        }
        _ => panic!("a flush was to be reported"),
    }
    assert!(events.next().is_none());
}

#[test]
fn a_quiet_round_reports_nothing() {
    let events = emit_send_round_events(MasqueSendRound {
        sent_packets: 0,
        sent_bytes: 0,
        blocked: false,
    });
    assert!(events.is_empty());
}
