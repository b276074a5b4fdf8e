use gamefeel::{
    controls_system, stick_direction, Dir, GameEvent, HeldKeys, Key, KeyInput, MouseButton,
    MouseInput, PadAxis, PadButton, PadEventKind, PadInput, RecentInputEvents, ANALOG_ONE,
};

fn analog(v: f32) -> i64 {
    (v as f64 * ANALOG_ONE as f64) as i64
}

fn held(forward: bool, back: bool, left: bool, right: bool, sprint: bool) -> HeldKeys {
    HeldKeys { forward, back, left, right, sprint }
}

fn frame(h: HeldKeys, keys: Vec<KeyInput>, mouse: Vec<MouseInput>, pads: Vec<PadInput>) -> Vec<GameEvent> {
    let mut log = RecentInputEvents::new();
    controls_system(&h, &keys, &mouse, &pads, &mut log)
}

fn pad_button(button: PadButton, v: f32) -> PadInput {
    PadInput { kind: PadEventKind::Button { button, value: analog(v) }, description: String::from("pad") }
}

fn pad_axis(axis: PadAxis, v: f32) -> PadInput {
    PadInput { kind: PadEventKind::Axis { axis, value: analog(v) }, description: String::from("pad") }
}

#[test]
fn held_moves_are_unit_length() {
    for bits in 0u32..16 {
        let h = held(bits & 1 != 0, bits & 2 != 0, bits & 4 != 0, bits & 8 != 0, false);
        let events = frame(h, vec![], vec![], vec![]);
        for e in &events {
            if let GameEvent::Move(d) = e {
                assert!(d.x >= -1 && d.x <= 1 && d.y >= -1 && d.y <= 1);
                assert!(d.x != 0 || d.y != 0);
                let (x, y) = (d.x as f32, d.y as f32);
                let len = (x * x + y * y).sqrt();
                let (ux, uy) = (x / len, y / len);
                assert!(((ux * ux + uy * uy).sqrt() - 1.0).abs() < 1e-6);
            }
        }
    }
}

#[test]
fn held_keys_give_direction() {
    let events = frame(held(true, false, true, false, false), vec![], vec![], vec![]);
    assert_eq!(events, vec![GameEvent::Move(Dir { x: -1, y: 1 }), GameEvent::Sprint(false)]);
    let events = frame(held(false, true, false, true, false), vec![], vec![], vec![]);
    assert_eq!(events, vec![GameEvent::Move(Dir { x: 1, y: -1 }), GameEvent::Sprint(false)]);
}

#[test]
fn opposite_keys_cancel() {
    let events = frame(held(true, true, true, true, false), vec![], vec![], vec![]);
    assert_eq!(events, vec![GameEvent::Sprint(false)]);
}

#[test]
fn sprint_reported_every_frame() {
    assert_eq!(frame(held(false, false, false, false, true), vec![], vec![], vec![]), vec![GameEvent::Sprint(true)]);
    assert_eq!(frame(held(false, false, false, false, false), vec![], vec![], vec![]), vec![GameEvent::Sprint(false)]);
    assert_eq!(
        frame(held(true, false, false, false, true), vec![], vec![], vec![]),
        vec![GameEvent::Move(Dir { x: 0, y: 1 }), GameEvent::Sprint(true)]
    );
}

#[test]
fn jump_key_and_primary_button() {
    let keys = vec![
        KeyInput { key: Key::Jump, pressed: true, description: String::from("k1") },
        KeyInput { key: Key::Jump, pressed: false, description: String::from("k2") },
        KeyInput { key: Key::Other, pressed: true, description: String::from("k3") },
    ];
    let mouse = vec![
        MouseInput { button: MouseButton::Primary, pressed: true, description: String::from("m1") },
        MouseInput { button: MouseButton::Other, pressed: true, description: String::from("m2") },
        MouseInput { button: MouseButton::Primary, pressed: false, description: String::from("m3") },
    ];
    let events = frame(held(false, false, false, false, false), keys, mouse, vec![]);
    assert_eq!(events, vec![GameEvent::Sprint(false), GameEvent::Jump, GameEvent::Fire]);
}

#[test]
fn gamepad_buttons() {
    let pads = vec![
        pad_button(PadButton::South, 0.8),
        pad_button(PadButton::South, 0.3),
        pad_button(PadButton::RightTrigger2, 0.9),
        pad_button(PadButton::LeftTrigger, 0.7),
        pad_button(PadButton::LeftTrigger, 0.2),
        pad_button(PadButton::LeftTrigger, 0.5),
        pad_button(PadButton::Other, 1.0),
    ];
    let events = frame(held(false, false, false, false, false), vec![], vec![], pads);
    assert_eq!(
        events,
        vec![
            GameEvent::Sprint(false),
            GameEvent::Jump,
            GameEvent::Fire,
            GameEvent::Sprint(true),
            GameEvent::Sprint(false),
        ]
    );
}

#[test]
fn stick_deadzone() {
    assert_eq!(stick_direction(PadAxis::LeftStickX, analog(0.19)), None);
    assert_eq!(stick_direction(PadAxis::LeftStickX, analog(0.2)), None);
    assert_eq!(stick_direction(PadAxis::LeftStickY, analog(-0.2)), None);
    assert_eq!(stick_direction(PadAxis::LeftStickX, analog(0.21)), Some(Dir { x: 1, y: 0 }));
    assert_eq!(stick_direction(PadAxis::LeftStickX, analog(-0.21)), Some(Dir { x: -1, y: 0 }));
    assert_eq!(stick_direction(PadAxis::LeftStickY, analog(0.21)), Some(Dir { x: 0, y: 1 }));
    assert_eq!(stick_direction(PadAxis::LeftStickY, analog(-1.0)), Some(Dir { x: 0, y: -1 }));
    assert_eq!(stick_direction(PadAxis::Other, analog(1.0)), None);
}

#[test]
fn stick_events_in_frame() {
    let pads = vec![pad_axis(PadAxis::LeftStickX, 0.1), pad_axis(PadAxis::LeftStickY, 0.21)];
    let events = frame(held(false, false, false, false, false), vec![], vec![], pads);
    assert_eq!(events, vec![GameEvent::Sprint(false), GameEvent::Move(Dir { x: 0, y: 1 })]);
}

#[test]
fn input_log_keeps_last_five_descriptions() {
    let keys: Vec<KeyInput> = (1..=3)
        .map(|i| KeyInput { key: Key::Other, pressed: true, description: format!("key {}", i) })
        .collect();
    let mouse: Vec<MouseInput> = (1..=2)
        .map(|i| MouseInput { button: MouseButton::Other, pressed: true, description: format!("mouse {}", i) })
        .collect();
    let pads = vec![pad_button(PadButton::Other, 0.0), pad_axis(PadAxis::Other, 0.0)];
    let mut log = RecentInputEvents::new();
    log.record(String::from("older"));
    controls_system(&held(false, false, false, false, false), &keys, &mouse, &pads, &mut log);
    let expected: Vec<String> =
        vec!["key 3", "mouse 1", "mouse 2", "pad", "pad"].into_iter().map(String::from).collect();
    assert_eq!(log.events, expected);
}
