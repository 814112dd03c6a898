use ggez::frame_info::{GameInput, GameState};
use ggez::sync_layer::{SavedStates, SyncLayer};
use ggez::GGEZError;

fn input_for(frame: i32, value: u32) -> GameInput {
    let mut gi = GameInput::new(frame, std::mem::size_of::<u32>());
    gi.copy_input(&value.to_le_bytes());
    gi
}

fn decode(bits: &[u8]) -> u32 {
    u32::from_le_bytes(bits[0..4].try_into().unwrap())
}

#[test]
fn test_different_delays() {
    let mut sync_layer = SyncLayer::new(2, std::mem::size_of::<u32>());
    let p1_delay = 2;
    let p2_delay = 0;
    sync_layer.set_frame_delay(0, p1_delay);
    sync_layer.set_frame_delay(1, p2_delay);

    for i in 0..20 {
        let game_input = input_for(i, i as u32);
        // adding input as remote to avoid prediction threshold detection
        sync_layer.add_remote_input(0, &game_input);
        sync_layer.add_remote_input(1, &game_input);

        if i >= 3 {
            let sync_inputs = sync_layer.synchronized_inputs();
            let player0_inputs: u32 = decode(&sync_inputs[0].bits);
            let player1_inputs: u32 = decode(&sync_inputs[1].bits);
            assert_eq!(player0_inputs, i as u32 - p1_delay);
            assert_eq!(player1_inputs, i as u32 - p2_delay);
        }

        sync_layer.advance_frame();
    }
}

#[test]
fn test_prediction_threshold_boundary() {
    // With nothing ever confirmed, inputs are accepted while the gap to the
    // last confirmed frame is at most MAX_PREDICTION_FRAMES and refused on
    // the frame after.
    let mut sync_layer = SyncLayer::new(2, 4);
    for i in 0..8i32 {
        let gi = input_for(i, i as u32);
        assert!(sync_layer.add_local_input(0, &gi).is_ok());
        sync_layer.advance_frame();
    }
    // current == 8, last confirmed == -1: exactly one frame too far ahead.
    let gi = input_for(8, 8);
    match sync_layer.add_local_input(0, &gi) {
        Err(GGEZError::PredictionThreshold) => (),
        _ => assert!(false),
    }
}

#[test]
fn test_confirming_rearms_local_input() {
    let mut sync_layer = SyncLayer::new(1, 4);
    for i in 0..8i32 {
        let gi = input_for(i, i as u32);
        // request the frame so confirmed frames may be discarded later
        let _ = sync_layer.synchronized_inputs();
        assert!(sync_layer.add_local_input(0, &gi).is_ok());
        sync_layer.advance_frame();
    }
    // Confirm frame 4: the gap shrinks and input for frame 8 is accepted.
    sync_layer.set_last_confirmed_frame(4);
    let gi = input_for(8, 8);
    assert!(sync_layer.add_local_input(0, &gi).is_ok());
}

#[test]
fn test_load_frame_at_boundary() {
    let mut sl = SyncLayer::new(1, 4);
    for i in 0..9i32 {
        let state = GameState { frame: i, buffer: vec![i as u8], checksum: Some(i as u64) };
        sl.save_current_state(state);
        sl.advance_frame();
    }
    // current == 9; the oldest loadable frame is current - MAX_PREDICTION_FRAMES.
    let loaded_frame = sl.load_frame(1).frame;
    assert_eq!(loaded_frame, 1);
    assert_eq!(sl.current_frame(), 1);
}

#[test]
fn test_load_frame_then_save() {
    let mut sl = SyncLayer::new(1, 4);
    for i in 0..4i32 {
        let state = GameState { frame: i, buffer: vec![i as u8], checksum: Some(i as u64) };
        sl.save_current_state(state);
        sl.advance_frame();
    }
    // Frame 2 was the third save, so it sits in ring slot 3.
    assert_eq!(sl.find_saved_frame_index(2), 3);
    // Load frame 2, then save a snapshot for the same frame: the save lands
    // in the very slot the loaded state came from, the head names the new
    // snapshot, and the frame counter stays at the loaded frame.
    let loaded_buffer = sl.load_frame(2).buffer.clone();
    assert_eq!(loaded_buffer, vec![2u8]);
    assert_eq!(sl.current_frame(), 2);
    sl.save_current_state(GameState { frame: 2, buffer: vec![22u8], checksum: Some(22) });
    assert_eq!(sl.find_saved_frame_index(2), 3);
    match sl.last_saved_state() {
        Some(s) => {
            assert_eq!(s.frame, 2);
            assert_eq!(s.buffer, vec![22u8]);
        }
        None => assert!(false),
    }
    assert_eq!(sl.current_frame(), 2);
    // The neighbouring slots are untouched: frame 3 is still in slot 4.
    assert_eq!(sl.find_saved_frame_index(3), 4);
}

#[test]
fn test_find_saved_frames() {
    // Saves with distinct frames are found in exactly the slots they were
    // saved into: save i lands in slot (i + 1) % MAX_PREDICTION_FRAMES.
    let mut sl = SyncLayer::new(1, 4);
    for i in 0..5i32 {
        let state = GameState { frame: i, buffer: vec![i as u8], checksum: None };
        sl.save_current_state(state);
        sl.advance_frame();
    }
    for i in 0..5i32 {
        assert_eq!(sl.find_saved_frame_index(i), (i as usize) + 1);
    }
}

#[test]
fn test_last_saved_state_empty() {
    let sl = SyncLayer::new(1, 4);
    assert!(sl.last_saved_state().is_none());
}

#[test]
fn test_saved_states_ring_wraps() {
    let mut ring: SavedStates<i32> = SavedStates { states: vec![0; 8], head: 0 };
    for i in 1..=10i32 {
        ring.save_state(i);
    }
    // Ten saves from head 0: the head has wrapped to slot 2.
    assert_eq!(ring.head, 2);
    assert_eq!(*ring.state_at_head(), 10);
    assert_eq!(*ring.state_in_past(1), 9);
    // Wrapping backwards past slot 0: (2 - 4) rem 8 == 6, which holds save 6.
    assert_eq!(*ring.state_in_past(4), 6);
    // A distance of a full ring turn comes back to the head slot.
    assert_eq!(*ring.state_in_past(8), 10);
}

#[test]
fn test_confirmed_inputs() {
    let mut sl = SyncLayer::new(2, 4);
    sl.add_remote_input(0, &input_for(0, 5));
    sl.add_remote_input(1, &input_for(0, 6));
    let ci = sl.confirmed_inputs();
    assert_eq!(ci.len(), 2);
    assert_eq!(ci[0].frame, 0);
    assert_eq!(ci[1].frame, 0);
    assert_eq!(decode(&ci[0].bits), 5);
    assert_eq!(decode(&ci[1].bits), 6);
}

#[test]
fn test_reset_prediction_on_layer() {
    let mut sl = SyncLayer::new(1, 4);
    sl.add_remote_input(0, &input_for(0, 3));
    sl.advance_frame();
    // Frame 1 has no authoritative input yet: its prediction repeats frame 0.
    let pre = sl.synchronized_inputs();
    assert_eq!(decode(&pre[0].bits), 3);
    // Reset from frame 1 on, deliver the real input and query again.
    sl.reset_prediction(1);
    sl.add_remote_input(0, &input_for(1, 9));
    let post = sl.synchronized_inputs();
    assert_eq!(decode(&post[0].bits), 9);
}
