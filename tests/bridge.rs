use play_through::bridge::{keep_latest, slot_result, tally, SampleBridge, SILENCE};
use play_through::session::{prefilled_bridge, BRIDGE_CAPACITY, PREFILL_SAMPLES};

#[test]
fn bridge_round_trip_up_to_capacity() {
    let cap = 8usize;
    for n in 0..=cap {
        let mut b = SampleBridge::new(cap);
        for k in 0..n {
            assert!(b.try_write(100 + k as u32));
        }
        assert_eq!(b.len(), n);
        for k in 0..n {
            assert_eq!(b.try_read(), Some(100 + k as u32));
        }
        assert_eq!(b.try_read(), None);
        assert_eq!(b.len(), 0);
    }
}

#[test]
fn bridge_underflow_is_silence() {
    let mut b = SampleBridge::new(4);
    assert_eq!(b.try_read(), None);
    assert_eq!(b.read_or_silence(), SILENCE);
    assert_eq!(b.read_or_silence(), 0);
    assert_eq!(b.len(), 0);
    assert!(b.try_write(0x3f80_0000));
    assert_eq!(b.read_or_silence(), 0x3f80_0000);
    assert_eq!(b.read_or_silence(), SILENCE);
}

#[test]
fn bridge_overflow_reports_full_and_keeps_first() {
    let cap = 5usize;
    let mut b = SampleBridge::new(cap);
    for k in 0..9u32 {
        assert_eq!(b.try_write(k + 1), (k as usize) < cap);
    }
    assert_eq!(b.len(), cap);
    for k in 0..cap as u32 {
        assert_eq!(b.try_read(), Some(k + 1));
    }
    assert_eq!(b.try_read(), None);
}

#[test]
fn bridge_capacity_is_as_made() {
    let b = SampleBridge::new(3);
    assert_eq!(b.capacity(), 3);
    assert_eq!(b.len(), 0);
}

#[test]
fn bridge_prefill_is_silent() {
    let mut b = SampleBridge::with_prefill(6, 4);
    assert_eq!(b.len(), 4);
    assert_eq!(b.capacity(), 6);
    assert!(b.try_write(9));
    for _ in 0..4 {
        assert_eq!(b.try_read(), Some(SILENCE));
    }
    assert_eq!(b.try_read(), Some(9));
}

#[test]
fn session_bridge_sizes() {
    let b = prefilled_bridge();
    assert_eq!(b.capacity(), BRIDGE_CAPACITY);
    assert_eq!(b.len(), PREFILL_SAMPLES);
}

#[test]
fn write_replicated_repeats_and_counts_drops() {
    let mut b = SampleBridge::new(5);
    assert_eq!(b.write_replicated(7, 2), 0);
    assert_eq!(b.write_replicated(8, 2), 0);
    assert_eq!(b.write_replicated(9, 3), 2);
    assert_eq!(b.len(), 5);
    let got: Vec<u32> = (0..5).map(|_| b.try_read().unwrap()).collect();
    assert_eq!(got, vec![7, 7, 8, 8, 9]);
    assert_eq!(b.write_replicated(1, 0), 0);
    assert_eq!(b.len(), 0);
}

#[test]
fn render_slot_keeps_most_recent() {
    let mut b = SampleBridge::new(8);
    for s in [1u32, 2, 3, 4, 5] {
        assert!(b.try_write(s));
    }
    assert_eq!(b.render_slot(2), (2, false));
    assert_eq!(b.render_slot(1), (3, false));
    assert_eq!(b.render_slot(4), (5, false));
    assert_eq!(b.len(), 0);
    assert_eq!(b.render_slot(2), (SILENCE, true));
    assert_eq!(b.render_slot(0), (SILENCE, true));
}

#[test]
fn split_ends_carry_samples_in_order() {
    let b = SampleBridge::with_prefill(8, 2);
    let (mut w, mut r) = b.split();
    assert_eq!(w.write_replicated(5, 3), 0);
    assert_eq!(w.write_replicated(6, 5), 2);
    assert_eq!(r.render_slot(2), (SILENCE, false));
    assert_eq!(r.render_slot(1), (5, false));
    assert_eq!(r.render_slot(3), (6, false));
    assert_eq!(r.render_slot(3), (6, false));
    assert_eq!(r.render_slot(1), (SILENCE, true));
    assert_eq!(r.render_slot(0), (SILENCE, true));
}

#[test]
fn tally_counts_refused_writes() {
    assert_eq!(tally(0, true), 0);
    assert_eq!(tally(0, false), 1);
    assert_eq!(tally(4, true), 4);
    assert_eq!(tally(4, false), 5);
}

#[test]
fn keep_latest_prefers_new_sample() {
    assert_eq!(keep_latest(None, None), None);
    assert_eq!(keep_latest(Some(3), None), Some(3));
    assert_eq!(keep_latest(Some(3), Some(8)), Some(8));
    assert_eq!(keep_latest(None, Some(8)), Some(8));
}

#[test]
fn slot_result_silence_on_underrun() {
    assert_eq!(slot_result(Some(0x3f80_0000)), (0x3f80_0000, false));
    assert_eq!(slot_result(Some(SILENCE)), (SILENCE, false));
    assert_eq!(slot_result(None), (SILENCE, true));
}
