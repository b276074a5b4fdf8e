use gamefeel::{player_movement, CursorMode, Dir, GameEvent, GameState, Gait, MoveStep, MoveSum};

fn sum(strafe: i64, strafe_diagonal: i64, forward: i64, forward_diagonal: i64) -> MoveSum {
    MoveSum { strafe, strafe_diagonal, forward, forward_diagonal }
}

#[test]
fn no_moves_no_step() {
    assert_eq!(player_movement(&vec![]), None);
    assert_eq!(player_movement(&vec![GameEvent::Sprint(true), GameEvent::Jump, GameEvent::Fire]), None);
}

#[test]
fn cancelling_moves_no_step() {
    let events = vec![
        GameEvent::Move(Dir { x: 1, y: 1 }),
        GameEvent::Move(Dir { x: -1, y: -1 }),
        GameEvent::Move(Dir { x: 0, y: 1 }),
        GameEvent::Move(Dir { x: 0, y: -1 }),
    ];
    assert_eq!(player_movement(&events), None);
}

#[test]
fn single_forward_walk() {
    let step = player_movement(&vec![GameEvent::Move(Dir { x: 0, y: 1 })]);
    assert_eq!(step, Some(MoveStep { sum: sum(0, 0, 1, 0), gait: Gait::Walk }));
    // with walk speed 5.0 the player moves 5.0 * dt along forward
    let walk_speed = 5.0f32;
    let dt = 0.016f32;
    let s = step.unwrap().sum;
    let (x, y) = (s.strafe as f32, s.forward as f32);
    let len = (x * x + y * y).sqrt();
    let forward_distance = y / len * walk_speed * dt;
    assert!((forward_distance - 5.0 * dt).abs() < 1e-6);
    assert_eq!(x, 0.0);
}

#[test]
fn moves_add_up() {
    let events = vec![
        GameEvent::Move(Dir { x: 1, y: 1 }),
        GameEvent::Move(Dir { x: 1, y: 0 }),
        GameEvent::Move(Dir { x: 0, y: -1 }),
    ];
    assert_eq!(player_movement(&events), Some(MoveStep { sum: sum(1, 1, -1, 1), gait: Gait::Walk }));
}

#[test]
fn last_sprint_wins() {
    let events = vec![
        GameEvent::Sprint(false),
        GameEvent::Move(Dir { x: -1, y: 0 }),
        GameEvent::Sprint(true),
    ];
    assert_eq!(player_movement(&events), Some(MoveStep { sum: sum(-1, 0, 0, 0), gait: Gait::Run }));
    let events = vec![GameEvent::Sprint(true), GameEvent::Move(Dir { x: -1, y: 0 }), GameEvent::Sprint(false)];
    assert_eq!(player_movement(&events), Some(MoveStep { sum: sum(-1, 0, 0, 0), gait: Gait::Walk }));
}

#[test]
fn pause_suppresses_until_unpaused() {
    let mut state = GameState::new();
    assert!(state.updates_enabled());
    assert_eq!(state.pause_system(&vec![GameEvent::Pause(true)]), Some(CursorMode::Free));
    assert!(!state.updates_enabled());
    assert_eq!(state.pause_system(&vec![GameEvent::Move(Dir { x: 0, y: 1 }), GameEvent::Pause(true)]), Some(CursorMode::Free));
    assert!(!state.updates_enabled());
    assert_eq!(state.pause_system(&vec![GameEvent::Jump]), None);
    assert!(!state.updates_enabled());
    // the escape toggle only flips the cursor; the pause flag stays
    assert_eq!(CursorMode::Free.toggled(), CursorMode::Captured);
    assert!(!state.updates_enabled());
    assert_eq!(state.pause_system(&vec![GameEvent::Pause(false)]), Some(CursorMode::Captured));
    assert!(state.updates_enabled());
}

#[test]
fn last_pause_event_decides() {
    let mut state = GameState::new();
    assert_eq!(state.pause_system(&vec![GameEvent::Pause(true), GameEvent::Pause(false)]), Some(CursorMode::Captured));
    assert!(state.updates_enabled());
    assert_eq!(state.pause_system(&vec![GameEvent::Pause(false), GameEvent::Pause(true)]), Some(CursorMode::Free));
    assert!(!state.updates_enabled());
    assert_eq!(CursorMode::Captured.toggled(), CursorMode::Free);
}
