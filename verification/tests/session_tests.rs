use ggez::frame_info::{GameInput, GameState};
use ggez::test_session::{GGEZInterface, Player, PlayerType};
use ggez::GGEZError;

/// A well-behaved deterministic host: its whole state is the frame counter,
/// its snapshot payload is the low byte of the frame, its checksum the frame.
struct TestHost {
    frame: i32,
}

impl GGEZInterface for TestHost {
    fn save_game_state(&mut self) -> GameState {
        GameState { frame: self.frame, buffer: vec![self.frame as u8], checksum: Some(self.frame as u64) }
    }

    fn load_game_state(&mut self, state: &GameState) {
        self.frame = state.frame;
    }

    fn advance_frame(&mut self, _inputs: Vec<GameInput>, _disconnect_flags: u32) {
        self.frame += 1;
    }
}

/// A host that never tags its snapshots with the right frame.
struct BadFrameHost;

impl GGEZInterface for BadFrameHost {
    fn save_game_state(&mut self) -> GameState {
        GameState { frame: 99, buffer: vec![], checksum: None }
    }

    fn load_game_state(&mut self, _state: &GameState) {}

    fn advance_frame(&mut self, _inputs: Vec<GameInput>, _disconnect_flags: u32) {}
}

/// A non-deterministic host: frames are tagged correctly but every snapshot
/// carries a fresh checksum, so re-simulation can never reproduce it.
struct NoisyHost {
    frame: i32,
    calls: u64,
}

impl GGEZInterface for NoisyHost {
    fn save_game_state(&mut self) -> GameState {
        self.calls += 1;
        GameState { frame: self.frame, buffer: vec![self.frame as u8], checksum: Some(self.calls) }
    }

    fn load_game_state(&mut self, state: &GameState) {
        self.frame = state.frame;
    }

    fn advance_frame(&mut self, _inputs: Vec<GameInput>, _disconnect_flags: u32) {
        self.frame += 1;
    }
}

#[test]
fn test_add_player() {
    let mut sess = ggez::start_synctest_session(1, 2, std::mem::size_of::<u32>());

    // add players correctly
    let dummy_player_0 = Player::new(PlayerType::Local, 0);
    let dummy_player_1 = Player::new(PlayerType::Local, 1);

    match sess.add_player(&dummy_player_0) {
        Ok(handle) => assert_eq!(handle, 0),
        Err(_) => assert!(false),
    }

    match sess.add_player(&dummy_player_1) {
        Ok(handle) => assert_eq!(handle, 1),
        Err(_) => assert!(false),
    }
}

#[test]
fn test_add_player_invalid_handle() {
    let mut sess = ggez::start_synctest_session(1, 2, std::mem::size_of::<u32>());

    // add a player incorrectly
    let incorrect_player = Player::new(PlayerType::Local, 3);

    match sess.add_player(&incorrect_player) {
        Err(GGEZError::InvalidRequest) => (),
        _ => assert!(false),
    }
}

#[test]
fn test_add_local_input_not_running() {
    let mut sess = ggez::start_synctest_session(1, 2, std::mem::size_of::<u32>());

    // add 0 input for player 0
    let fake_inputs: u32 = 0;
    let serialized_inputs = fake_inputs.to_le_bytes().to_vec();

    match sess.add_local_input(0, &serialized_inputs) {
        Err(GGEZError::NotSynchronized) => (),
        _ => assert!(false),
    }
}

#[test]
fn test_add_local_input_invalid_handle() {
    let mut sess = ggez::start_synctest_session(1, 2, std::mem::size_of::<u32>());
    sess.start_session().unwrap();

    // add 0 input for player 3
    let fake_inputs: u32 = 0;
    let serialized_inputs = fake_inputs.to_le_bytes().to_vec();

    match sess.add_local_input(3, &serialized_inputs) {
        Err(GGEZError::InvalidPlayerHandle) => (),
        _ => assert!(false),
    }
}

#[test]
fn test_add_local_input() {
    let num_players: u32 = 2;
    let mut sess = ggez::start_synctest_session(1, num_players, std::mem::size_of::<u32>());
    sess.start_session().unwrap();

    // add 0 input for player 0
    let fake_inputs: u32 = 0;
    let serialized_inputs = fake_inputs.to_le_bytes().to_vec();

    match sess.add_local_input(0, &serialized_inputs) {
        Ok(()) => {
            for i in 0..sess.current_input().bits.len() {
                assert_eq!(sess.current_input().bits[i], 0);
            }
        }
        Err(_e) => {
            assert!(false);
        }
    }

    // add 1 << 4 input for player 1, now the first byte should be 1 << 4
    let fake_inputs: u32 = 1 << 4;
    let serialized_inputs = fake_inputs.to_le_bytes().to_vec();
    match sess.add_local_input(1, &serialized_inputs) {
        Ok(()) => {
            for i in 0..sess.current_input().bits.len() {
                if i == 0 {
                    assert_eq!(sess.current_input().bits[i], 16);
                } else {
                    assert_eq!(sess.current_input().bits[i], 0);
                }
            }
        }
        _ => assert!(false),
    }
}

#[test]
fn test_start_session_twice() {
    let mut sess = ggez::start_synctest_session(1, 2, 4);
    assert!(sess.start_session().is_ok());
    match sess.start_session() {
        Err(GGEZError::InvalidRequest) => (),
        _ => assert!(false),
    }
}

#[test]
fn test_advance_frame_determinism_check() {
    // Two local players, no delay: ten frames of save/advance/rollback with
    // a deterministic host must succeed on every frame.
    let mut sess = ggez::start_synctest_session(1, 2, 4);
    sess.add_player(&Player::new(PlayerType::Local, 0)).unwrap();
    sess.add_player(&Player::new(PlayerType::Local, 1)).unwrap();
    sess.start_session().unwrap();
    let mut host = TestHost { frame: 0 };
    for i in 0u32..10 {
        let bytes = i.to_le_bytes();
        sess.add_local_input(0, &bytes).unwrap();
        sess.add_local_input(1, &bytes).unwrap();
        sess.advance_frame(&mut host).unwrap();
        assert_eq!(sess.current_frame(), (i as i32) + 1);
        assert_eq!(host.frame, (i as i32) + 1);
    }
}

#[test]
fn test_advance_frame_zero_check_distance() {
    // A check distance of 0 disables the rollback section; advancing is
    // still valid frame after frame.
    let mut sess = ggez::start_synctest_session(0, 2, 4);
    sess.add_player(&Player::new(PlayerType::Local, 0)).unwrap();
    sess.add_player(&Player::new(PlayerType::Local, 1)).unwrap();
    sess.start_session().unwrap();
    let mut host = TestHost { frame: 0 };
    for i in 0u32..5 {
        let bytes = i.to_le_bytes();
        sess.add_local_input(0, &bytes).unwrap();
        sess.add_local_input(1, &bytes).unwrap();
        assert!(sess.advance_frame(&mut host).is_ok());
    }
    assert_eq!(sess.current_frame(), 5);
}

#[test]
fn test_advance_frame_bad_host_frame() {
    let mut sess = ggez::start_synctest_session(1, 1, 4);
    sess.add_player(&Player::new(PlayerType::Local, 0)).unwrap();
    sess.start_session().unwrap();
    let mut host = BadFrameHost;
    sess.add_local_input(0, &0u32.to_le_bytes()).unwrap();
    match sess.advance_frame(&mut host) {
        Err(GGEZError::GeneralFailure(_)) => (),
        _ => assert!(false),
    }
}

#[test]
fn test_advance_frame_detects_nondeterminism() {
    // A host whose checksums change between simulation and re-simulation
    // must be caught by the first rollback comparison.
    let mut sess = ggez::start_synctest_session(1, 1, 4);
    sess.add_player(&Player::new(PlayerType::Local, 0)).unwrap();
    sess.start_session().unwrap();
    let mut host = NoisyHost { frame: 0, calls: 0 };
    sess.add_local_input(0, &0u32.to_le_bytes()).unwrap();
    // First frame: history is still too short for a rollback.
    sess.advance_frame(&mut host).unwrap();
    sess.add_local_input(0, &1u32.to_le_bytes()).unwrap();
    match sess.advance_frame(&mut host) {
        Err(GGEZError::SyncTestFailed) => (),
        _ => assert!(false),
    }
}

#[test]
fn test_set_frame_delay_while_running() {
    let mut sess = ggez::start_synctest_session(1, 2, 4);
    assert!(sess.set_frame_delay(2, 0).is_ok());
    sess.start_session().unwrap();
    match sess.set_frame_delay(2, 0) {
        Err(GGEZError::InvalidRequest) => (),
        _ => assert!(false),
    }
}

#[test]
fn test_unsupported_operations() {
    let mut sess = ggez::start_synctest_session(1, 2, 4);
    assert!(matches!(sess.disconnect_player(0), Err(GGEZError::Unsupported)));
    assert!(matches!(sess.get_network_stats(0), Err(GGEZError::Unsupported)));
    assert!(matches!(sess.set_disconnect_timeout(100), Err(GGEZError::Unsupported)));
    assert!(matches!(sess.set_disconnect_notify_delay(100), Err(GGEZError::Unsupported)));
    let mut host = TestHost { frame: 0 };
    assert!(sess.idle(&mut host).is_ok());
}
