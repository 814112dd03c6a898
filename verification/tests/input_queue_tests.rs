use ggez::frame_info::GameInput;
use ggez::input_queue::InputQueue;

fn input_for(frame: i32, value: u32) -> GameInput {
    let mut gi = GameInput::new(frame, 4);
    gi.copy_input(&value.to_le_bytes());
    gi
}

fn decode(bits: &[u8]) -> u32 {
    u32::from_le_bytes(bits[0..4].try_into().unwrap())
}

#[test]
fn test_delay_shifts_stored_frames() {
    // With delay d, submissions at user frames 0..=k are stored at frames
    // d, d + 1, ..., k + d.
    let mut q = InputQueue::new(4);
    q.set_frame_delay(2);
    for f in 0..5i32 {
        let gi = input_for(f, f as u32);
        let stored = q.add_input(&gi);
        assert_eq!(stored, f + 2);
    }
    for f in 0..5i32 {
        let out = q.confirmed_input(f + 2);
        assert_eq!(out.frame, f + 2);
        assert_eq!(decode(&out.bits), f as u32);
    }
}

#[test]
fn test_delay_round_trip() {
    // input(f + d) after add_input at user frame f returns the same bits.
    let mut q = InputQueue::new(4);
    q.set_frame_delay(3);
    let gi = input_for(0, 12345);
    let stored = q.add_input(&gi);
    assert_eq!(stored, 3);
    let out = q.input(3);
    assert_eq!(out.frame, 3);
    assert_eq!(decode(&out.bits), 12345);
}

#[test]
fn test_prediction_from_empty_queue_is_blank() {
    let mut q = InputQueue::new(4);
    let p = q.input(0);
    assert_eq!(p.frame, 0);
    assert_eq!(p.bits, vec![0u8; 4]);
}

#[test]
fn test_prediction_repeats_last_authoritative_input() {
    let mut q = InputQueue::new(4);
    let gi = input_for(0, 7);
    q.add_input(&gi);
    // Frames 1 and 2 have no authoritative input: both predictions carry the
    // bits of frame 0.
    let p1 = q.input(1);
    let p2 = q.input(2);
    assert_eq!(p1.frame, 1);
    assert_eq!(p2.frame, 2);
    assert_eq!(decode(&p1.bits), 7);
    assert_eq!(decode(&p2.bits), 7);
    // The matching authoritative input for frame 1 arrives; querying frame 1
    // afterwards returns the stored bits.
    let gi1 = input_for(1, 7);
    q.add_input(&gi1);
    let out = q.input(1);
    assert_eq!(decode(&out.bits), 7);
}

#[test]
fn test_discard_keeps_recent_frames() {
    let mut q = InputQueue::new(4);
    for f in 0..6i32 {
        q.add_input(&input_for(f, f as u32));
    }
    let _ = q.input(5);
    q.discard_confirmed_frames(4);
    // Frames 4 and 5 survive; the oldest remaining one is frame 4.
    let out = q.confirmed_input(4);
    assert_eq!(decode(&out.bits), 4);
    let out5 = q.confirmed_input(5);
    assert_eq!(decode(&out5.bits), 5);
}

#[test]
fn test_reset_prediction_clears_state() {
    let mut q = InputQueue::new(4);
    q.add_input(&input_for(0, 3));
    // Hand out a prediction for a missing frame, then wind prediction state
    // back to frame 1 and check the next prediction is synthesized afresh.
    let p = q.input(2);
    assert_eq!(decode(&p.bits), 3);
    q.reset_prediction(1);
    q.add_input(&input_for(1, 9));
    let out = q.input(2);
    assert_eq!(decode(&out.bits), 9);
}

#[test]
fn test_rewound_prediction_mismatch_is_recorded() {
    // A prediction first handed out for frame 2 also answers a later query
    // for frame 0 (as after a rollback rewind). The authoritative input for
    // frame 0 contradicts the handed-out bits, so the first incorrect frame
    // must be recorded at 0.
    let mut q = InputQueue::new(4);
    let high = q.input(2);
    assert_eq!(high.bits, vec![0u8; 4]);
    let low = q.input(0);
    assert_eq!(low.bits, vec![0u8; 4]);
    q.add_input(&input_for(0, 7));
    assert_eq!(q.first_incorrect_frame(), 0);
}

#[test]
fn test_rewound_prediction_match_records_nothing() {
    // The same rewound sequence with an authoritative input equal to the
    // handed-out prediction leaves the first incorrect frame unset.
    let mut q = InputQueue::new(4);
    let _ = q.input(2);
    let _ = q.input(0);
    q.add_input(&input_for(0, 0));
    assert_eq!(q.first_incorrect_frame(), ggez::NULL_FRAME);
}
