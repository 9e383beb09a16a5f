use dvs::reorder::ReorderWriter;

#[test]
fn in_order_passthrough() {
    let mut w: ReorderWriter<u32> = ReorderWriter::new();
    assert_eq!(w.next_pending(), 0);
    assert_eq!(w.accept(0, 100), vec![100]);
    assert_eq!(w.accept(1, 101), vec![101]);
    assert_eq!(w.accept(2, 102), vec![102]);
    assert_eq!(w.next_pending(), 3);
}

#[test]
fn reverse_order_restores_sequence() {
    // completions injected in reverse: 4, 3, 2, 1, 0
    let mut w: ReorderWriter<u32> = ReorderWriter::new();
    for seq in (1..5u64).rev() {
        assert_eq!(w.accept(seq, 100 + seq as u32), Vec::<u32>::new());
        assert!(w.holds(seq));
    }
    assert_eq!(w.next_pending(), 0);
    // the expected frame arrives last: everything drains, in order
    let out = w.accept(0, 100);
    assert_eq!(out, vec![100, 101, 102, 103, 104]);
    assert_eq!(w.next_pending(), 5);
    for seq in 0..5u64 {
        assert!(!w.holds(seq));
    }
}

#[test]
fn interleaved_completions() {
    let mut w: ReorderWriter<&str> = ReorderWriter::new();
    assert_eq!(w.accept(1, "b"), Vec::<&str>::new());
    assert_eq!(w.accept(0, "a"), vec!["a", "b"]);
    assert_eq!(w.accept(3, "d"), Vec::<&str>::new());
    assert_eq!(w.accept(2, "c"), vec!["c", "d"]);
    assert_eq!(w.next_pending(), 4);
}

#[test]
fn gap_is_held_until_filled() {
    let mut w: ReorderWriter<u32> = ReorderWriter::new();
    assert_eq!(w.accept(0, 0), vec![0]);
    assert_eq!(w.accept(2, 2), Vec::<u32>::new());
    assert!(w.holds(2));
    assert!(!w.holds(1));
    assert_eq!(w.next_pending(), 1);
    assert_eq!(w.accept(1, 1), vec![1, 2]);
    assert_eq!(w.next_pending(), 3);
}
