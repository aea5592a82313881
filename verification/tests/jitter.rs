use vcp_daemon::jitter::{JitterBuffer, NetworkSnapshot, PacketLoss};

fn loss_percent(l: PacketLoss) -> f64 {
    match l {
        PacketLoss::NoSnapshots => 0.0,
        PacketLoss::Fraction { lost, expected } => (lost as f64) / (expected as f64) * 100.0,
        PacketLoss::Full => 100.0,
    }
}

#[test]
fn snapshot_new_keeps_counters() {
    let s = NetworkSnapshot::new(3, 9);
    assert_eq!(s.packets_received, 3);
    assert_eq!(s.highest_packet_nr, 9);
}

#[test]
fn new_buffer_is_empty() {
    let mut b = JitterBuffer::new();
    assert_eq!(b.last_popped(), 0);
    assert!(b.pop_first().is_none());
    assert!(matches!(b.calculate_packet_loss(), PacketLoss::NoSnapshots));
}

#[test]
fn pop_first_hands_out_lowest_number() {
    let mut b = JitterBuffer::new();
    b.add_packet(7, &vec![7]);
    b.add_packet(3, &vec![3, 3]);
    b.add_packet(5, &vec![5]);
    b.add_packet(3, &vec![4]);
    assert_eq!(b.pop_first(), Some((3, vec![4])));
    assert_eq!(b.pop_first(), Some((5, vec![5])));
    assert_eq!(b.pop_first(), Some((7, vec![7])));
    assert_eq!(b.pop_first(), None);
    // handing out packets does not move the last popped number
    assert_eq!(b.last_popped(), 0);
}

#[test]
fn one_snapshot_measures_nothing() {
    let mut b = JitterBuffer::new();
    b.add_packet(1, &vec![]);
    b.take_snapshot();
    assert!(matches!(b.calculate_packet_loss(), PacketLoss::NoSnapshots));
    assert_eq!(loss_percent(b.calculate_packet_loss()), 0.0);
}

#[test]
fn loss_counts_missing_numbers() {
    let mut b = JitterBuffer::new();
    b.add_packet(1, &vec![1]);
    b.take_snapshot(); // received 1, highest 1
    b.add_packet(2, &vec![2]);
    b.add_packet(5, &vec![5]);
    b.take_snapshot(); // received 3, highest 5
    // numbers 1..=5 expected: 5, received since: 2, lost 3
    match b.calculate_packet_loss() {
        PacketLoss::Fraction { lost, expected } => {
            assert_eq!(lost, 3);
            assert_eq!(expected, 5);
        }
        _ => panic!("expected a fraction"),
    }
    assert_eq!(loss_percent(b.calculate_packet_loss()), 60.0);
}

#[test]
fn duplicate_packets_are_counted_once() {
    let mut b = JitterBuffer::new();
    b.take_snapshot(); // received 0, highest 0
    b.add_packet(1, &vec![1]);
    b.add_packet(1, &vec![1]);
    b.take_snapshot(); // received 1, highest 1
    match b.calculate_packet_loss() {
        PacketLoss::Fraction { lost, expected } => {
            assert_eq!(lost, 1);
            assert_eq!(expected, 2);
        }
        _ => panic!("expected a fraction"),
    }
}

#[test]
fn full_report_when_nothing_new_is_missing() {
    let mut b = JitterBuffer::new();
    b.take_snapshot();
    b.take_snapshot();
    // expected 1 (0 - 0 + 1), received 0 → a fraction of 1/1
    assert_eq!(loss_percent(b.calculate_packet_loss()), 100.0);
    let mut c = JitterBuffer::new();
    c.add_packet(0, &vec![]);
    c.take_snapshot();
    c.add_packet(2, &vec![]);
    c.add_packet(1, &vec![]);
    c.add_packet(3, &vec![]);
    c.take_snapshot();
    // expected 3 - 0 + 1 = 4, received 3 → 25 %
    assert_eq!(loss_percent(c.calculate_packet_loss()), 25.0);
    let mut d = JitterBuffer::new();
    d.add_packet(5, &vec![]);
    d.take_snapshot();
    d.add_packet(1, &vec![]);
    d.add_packet(2, &vec![]);
    d.take_snapshot();
    // expected 5 - 5 + 1 = 1, received 2 → reported as 100 %
    assert!(matches!(d.calculate_packet_loss(), PacketLoss::Full));
}

#[test]
fn only_ten_snapshots_are_kept() {
    let mut b = JitterBuffer::new();
    b.take_snapshot(); // the oldest: received 0, highest 0
    for n in 1..=10u64 {
        b.add_packet(n, &vec![]);
        b.take_snapshot();
    }
    // eleven snapshots taken; the oldest now is received 1, highest 1
    // expected 10 - 1 + 1 = 10, received 10 - 1 = 9
    match b.calculate_packet_loss() {
        PacketLoss::Fraction { lost, expected } => {
            assert_eq!(lost, 1);
            assert_eq!(expected, 10);
        }
        _ => panic!("expected a fraction"),
    }
}
