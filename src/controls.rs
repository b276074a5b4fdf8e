use vstd::prelude::*;
use crate::events::{all_wf, lemma_all_wf_concat, append_all, keep_recent, recent, Dir, GameEvent, RecentInputEvents};

verus! {

/// Analog readings (stick axes, trigger and button pressure) are fixed-point
/// integers with 26 fractional bits: `ANALOG_ONE` stands for 1.0. Every
/// single-precision value of magnitude at least one eighth has an exact
/// reading, so the thresholds below decide exactly as they
/// would on the floating-point values.
pub const ANALOG_ONE: i64 = 67108864;

/// Pressure above which a gamepad button or trigger counts as pressed: 0.5.
pub const TRIGGER_THRESHOLD: i64 = 33554432;

/// Stick deflection that must be exceeded before a stick moves the player:
/// the single-precision value nearest 0.2.
pub const STICK_DEADZONE: i64 = 13421773;

/// Movement and sprint keys held down during the frame.
#[derive(Clone, Copy, Debug, PartialEq, Eq, Structural)]
pub struct HeldKeys {
    pub forward: bool,
    pub back: bool,
    pub left: bool,
    pub right: bool,
    pub sprint: bool,
}

#[derive(Clone, Copy, Debug, PartialEq, Eq, Structural)]
pub enum Key {
    Jump,
    Other,
}

/// A key transition, with a readable description for the input log.
pub struct KeyInput {
    pub key: Key,
    pub pressed: bool,
    pub description: String,
}

#[derive(Clone, Copy, Debug, PartialEq, Eq, Structural)]
pub enum MouseButton {
    Primary,
    Other,
}

/// A mouse button transition, with a readable description for the input log.
pub struct MouseInput {
    pub button: MouseButton,
    pub pressed: bool,
    pub description: String,
}

#[derive(Clone, Copy, Debug, PartialEq, Eq, Structural)]
pub enum PadButton {
    South,
    RightTrigger2,
    LeftTrigger,
    Other,
}

#[derive(Clone, Copy, Debug, PartialEq, Eq, Structural)]
pub enum PadAxis {
    LeftStickX,
    LeftStickY,
    Other,
}

/// What a gamepad event carries; values are analog readings.
#[derive(Clone, Copy, Debug, PartialEq, Eq, Structural)]
pub enum PadEventKind {
    Button { button: PadButton, value: i64 },
    Axis { axis: PadAxis, value: i64 },
    Other,
}

/// A gamepad event, with a readable description for the input log.
pub struct PadInput {
    pub kind: PadEventKind,
    pub description: String,
}

pub open spec fn held_move(h: HeldKeys) -> Seq<GameEvent> {
    let x: int = (if h.right { 1int } else { 0int }) - (if h.left { 1int } else { 0int });
    let y: int = (if h.forward { 1int } else { 0int }) - (if h.back { 1int } else { 0int });
    if x == 0 && y == 0 {
        Seq::empty()
    } else {
        seq![GameEvent::Move(Dir { x: x as i8, y: y as i8 })]
    }
}

/// Events owed every frame from the held keys: a move when the movement keys
/// do not cancel out, then the sprint state.
pub open spec fn held_spec(h: HeldKeys) -> Seq<GameEvent> {
    held_move(h).push(GameEvent::Sprint(h.sprint))
}

pub open spec fn key_spec(k: KeyInput) -> Seq<GameEvent> {
    if k.key == Key::Jump && k.pressed {
        seq![GameEvent::Jump]
    } else {
        Seq::empty()
    }
}

pub open spec fn mouse_spec(m: MouseInput) -> Seq<GameEvent> {
    if m.button == MouseButton::Primary && m.pressed {
        seq![GameEvent::Fire]
    } else {
        Seq::empty()
    }
}

/// The unit direction of one stick axis, if its deflection leaves the
/// deadzone: the sign of the reading, on that axis alone.
pub open spec fn stick_spec(axis: PadAxis, value: i64) -> Option<Dir> {
    let s: i8 = if value > STICK_DEADZONE {
        1i8
    } else if value < -STICK_DEADZONE {
        -1i8
    } else {
        0i8
    };
    if s == 0 {
        None
    } else {
        match axis {
            PadAxis::LeftStickX => Some(Dir { x: s, y: 0i8 }),
            PadAxis::LeftStickY => Some(Dir { x: 0i8, y: s }),
            PadAxis::Other => None,
        }
    }
}

pub open spec fn pad_button_spec(button: PadButton, value: i64) -> Seq<GameEvent> {
    let jump: Seq<GameEvent> = if button == PadButton::South && value > TRIGGER_THRESHOLD {
        seq![GameEvent::Jump]
    } else {
        Seq::empty()
    };
    let fire: Seq<GameEvent> = if button == PadButton::RightTrigger2 && value > TRIGGER_THRESHOLD {
        seq![GameEvent::Fire]
    } else {
        Seq::empty()
    };
    let sprint: Seq<GameEvent> = if button == PadButton::LeftTrigger && value > TRIGGER_THRESHOLD {
        seq![GameEvent::Sprint(true)]
    } else if button == PadButton::LeftTrigger && value < TRIGGER_THRESHOLD {
        seq![GameEvent::Sprint(false)]
    } else {
        Seq::empty()
    };
    jump + fire + sprint
}

pub open spec fn pad_spec(p: PadInput) -> Seq<GameEvent> {
    match p.kind {
        PadEventKind::Button { button, value } => pad_button_spec(button, value),
        PadEventKind::Axis { axis, value } => match stick_spec(axis, value) {
            Some(d) => seq![GameEvent::Move(d)],
            None => Seq::empty(),
        },
        PadEventKind::Other => Seq::empty(),
    }
}

/// The events of each input of `s`, concatenated in order.
pub open spec fn flat_events<T>(s: Seq<T>, f: spec_fn(T) -> Seq<GameEvent>) -> Seq<GameEvent>
    decreases s.len(),
{
    if s.len() == 0 {
        Seq::empty()
    } else {
        flat_events(s.drop_last(), f) + f(s.last())
    }
}

/// Everything the input rules emit in one frame, in order: held keys, then
/// key transitions, mouse transitions and gamepad events.
pub open spec fn frame_spec(
    held: HeldKeys,
    keys: Seq<KeyInput>,
    mouse: Seq<MouseInput>,
    pads: Seq<PadInput>,
) -> Seq<GameEvent> {
    held_spec(held) + flat_events(keys, |k: KeyInput| key_spec(k)) + flat_events(
        mouse,
        |m: MouseInput| mouse_spec(m),
    ) + flat_events(pads, |p: PadInput| pad_spec(p))
}

/// The descriptions of every raw input of the frame, in the order handled.
pub open spec fn frame_descriptions(
    keys: Seq<KeyInput>,
    mouse: Seq<MouseInput>,
    pads: Seq<PadInput>,
) -> Seq<String> {
    keys.map_values(|k: KeyInput| k.description) + mouse.map_values(
        |m: MouseInput| m.description,
    ) + pads.map_values(|p: PadInput| p.description)
}

proof fn lemma_flat_events_step<T>(s: Seq<T>, f: spec_fn(T) -> Seq<GameEvent>, i: int)
    requires
        0 <= i < s.len(),
    ensures
        flat_events(s.subrange(0, i + 1), f) == flat_events(s.subrange(0, i), f) + f(s[i]),
{
    assert(s.subrange(0, i + 1).drop_last() == s.subrange(0, i));
}

/// Events owed from the held keys.
pub fn held_events(held: &HeldKeys) -> (r: Vec<GameEvent>)
    ensures
        r@ == held_spec(*held),
        all_wf(r@),
{
    let mut x: i8 = 0;
    let mut y: i8 = 0;
    if held.forward {
        y = y + 1;
    }
    if held.back {
        y = y - 1;
    }
    if held.left {
        x = x - 1;
    }
    if held.right {
        x = x + 1;
    }
    let mut r: Vec<GameEvent> = Vec::new();
    if x != 0 || y != 0 {
        r.push(GameEvent::Move(Dir { x, y }));
    }
    r.push(GameEvent::Sprint(held.sprint));
    assert(r@ =~= held_spec(*held));
    r
}

/// Events owed from one key transition.
pub fn key_events(k: &KeyInput) -> (r: Vec<GameEvent>)
    ensures
        r@ == key_spec(*k),
        all_wf(r@),
{
    let mut r: Vec<GameEvent> = Vec::new();
    if k.key == Key::Jump && k.pressed {
        r.push(GameEvent::Jump);
    }
    assert(r@ =~= key_spec(*k));
    r
}

/// Events owed from one mouse button transition.
pub fn mouse_events(m: &MouseInput) -> (r: Vec<GameEvent>)
    ensures
        r@ == mouse_spec(*m),
        all_wf(r@),
{
    let mut r: Vec<GameEvent> = Vec::new();
    if m.button == MouseButton::Primary && m.pressed {
        r.push(GameEvent::Fire);
    }
    assert(r@ =~= mouse_spec(*m));
    r
}

/// The direction a stick axis asks for, if its reading leaves the deadzone.
pub fn stick_direction(axis: PadAxis, value: i64) -> (r: Option<Dir>)
    ensures
        r == stick_spec(axis, value),
        r matches Some(d) ==> d.wf(),
{
    let s: i8 = if value > STICK_DEADZONE {
        1
    } else if value < -STICK_DEADZONE {
        -1
    } else {
        0
    };
    if s == 0 {
        None
    } else {
        match axis {
            PadAxis::LeftStickX => Some(Dir { x: s, y: 0 }),
            PadAxis::LeftStickY => Some(Dir { x: 0, y: s }),
            PadAxis::Other => None,
        }
    }
}

/// Events owed from one gamepad event. The sprint trigger is judged on each
/// event alone, so a reading that hovers near the threshold repeats events.
pub fn pad_events(p: &PadInput) -> (r: Vec<GameEvent>)
    ensures
        r@ == pad_spec(*p),
        all_wf(r@),
{
    let mut r: Vec<GameEvent> = Vec::new();
    match p.kind {
        PadEventKind::Button { button, value } => {
            if button == PadButton::South && value > TRIGGER_THRESHOLD {
                r.push(GameEvent::Jump);
            }
            if button == PadButton::RightTrigger2 && value > TRIGGER_THRESHOLD {
                r.push(GameEvent::Fire);
            }
            if button == PadButton::LeftTrigger && value > TRIGGER_THRESHOLD {
                r.push(GameEvent::Sprint(true));
            } else if button == PadButton::LeftTrigger && value < TRIGGER_THRESHOLD {
                r.push(GameEvent::Sprint(false));
            }
        },
        PadEventKind::Axis { axis, value } => {
            if let Some(d) = stick_direction(axis, value) {
                r.push(GameEvent::Move(d));
            }
        },
        PadEventKind::Other => {},
    }
    assert(r@ =~= pad_spec(*p));
    r
}

/// Turns one frame of input into semantic game events, and records a
/// description of every raw input in the input log. Every move emitted
/// carries a lattice direction, so stands for a unit vector; the sprint state
/// is reported every frame, right after the move of the held keys if any.
pub fn controls_system(
    held: &HeldKeys,
    keys: &Vec<KeyInput>,
    mouse: &Vec<MouseInput>,
    pads: &Vec<PadInput>,
    recent_input: &mut RecentInputEvents,
) -> (r: Vec<GameEvent>)
    ensures
        r@ == frame_spec(*held, keys@, mouse@, pads@),
        all_wf(r@),
        r@[held_move(*held).len() as int] == GameEvent::Sprint(held.sprint),
        final(recent_input).events@ == recent(
            old(recent_input).events@ + frame_descriptions(keys@, mouse@, pads@),
        ),
        final(recent_input).wf(),
{
    let ghost start = recent_input.events@;
    let mut r = held_events(held);

    let mut i: usize = 0;
    while i < keys.len()
        invariant
            i <= keys@.len(),
            all_wf(r@),
            r@.len() > held_move(*held).len(),
            r@[held_move(*held).len() as int] == GameEvent::Sprint(held.sprint),
            r@ == held_spec(*held) + flat_events(keys@.subrange(0, i as int), (|k: KeyInput| key_spec(k))),
            recent_input.events@ == start + keys@.subrange(0, i as int).map_values((|k: KeyInput| k.description)),
        decreases keys@.len() - i,
    {
        let ev = key_events(&keys[i]);
        proof {
            lemma_all_wf_concat(r@, ev@);
        }
        append_all(&mut r, &ev);
        recent_input.events.push(keys[i].description.clone());
        proof {
            lemma_flat_events_step(keys@, (|k: KeyInput| key_spec(k)), i as int);
            assert(keys@.subrange(0, i + 1).map_values((|k: KeyInput| k.description)) =~= keys@.subrange(0, i as int).map_values((|k: KeyInput| k.description)).push(keys@[i as int].description));
        }
        i = i + 1;
    }
    assert(keys@.subrange(0, i as int) == keys@);

    let ghost after_keys = r@;
    let ghost log_keys = recent_input.events@;
    let mut i: usize = 0;
    while i < mouse.len()
        invariant
            i <= mouse@.len(),
            all_wf(r@),
            r@.len() > held_move(*held).len(),
            r@[held_move(*held).len() as int] == GameEvent::Sprint(held.sprint),
            r@ == after_keys + flat_events(mouse@.subrange(0, i as int), (|m: MouseInput| mouse_spec(m))),
            recent_input.events@ == log_keys + mouse@.subrange(0, i as int).map_values((|m: MouseInput| m.description)),
        decreases mouse@.len() - i,
    {
        let ev = mouse_events(&mouse[i]);
        proof {
            lemma_all_wf_concat(r@, ev@);
        }
        append_all(&mut r, &ev);
        recent_input.events.push(mouse[i].description.clone());
        proof {
            lemma_flat_events_step(mouse@, (|m: MouseInput| mouse_spec(m)), i as int);
            assert(mouse@.subrange(0, i + 1).map_values((|m: MouseInput| m.description)) =~= mouse@.subrange(0, i as int).map_values((|m: MouseInput| m.description)).push(mouse@[i as int].description));
        }
        i = i + 1;
    }
    assert(mouse@.subrange(0, i as int) == mouse@);

    let ghost after_mouse = r@;
    let ghost log_mouse = recent_input.events@;
    let mut i: usize = 0;
    while i < pads.len()
        invariant
            i <= pads@.len(),
            all_wf(r@),
            r@.len() > held_move(*held).len(),
            r@[held_move(*held).len() as int] == GameEvent::Sprint(held.sprint),
            r@ == after_mouse + flat_events(pads@.subrange(0, i as int), (|p: PadInput| pad_spec(p))),
            recent_input.events@ == log_mouse + pads@.subrange(0, i as int).map_values((|p: PadInput| p.description)),
        decreases pads@.len() - i,
    {
        let ev = pad_events(&pads[i]);
        proof {
            lemma_all_wf_concat(r@, ev@);
        }
        append_all(&mut r, &ev);
        recent_input.events.push(pads[i].description.clone());
        proof {
            lemma_flat_events_step(pads@, (|p: PadInput| pad_spec(p)), i as int);
            assert(pads@.subrange(0, i + 1).map_values((|p: PadInput| p.description)) =~= pads@.subrange(0, i as int).map_values((|p: PadInput| p.description)).push(pads@[i as int].description));
        }
        i = i + 1;
    }
    assert(pads@.subrange(0, i as int) == pads@);

    proof {
        let descs = frame_descriptions(keys@, mouse@, pads@);
        assert(recent_input.events@ =~= start + descs);
        assert(r@ =~= frame_spec(*held, keys@, mouse@, pads@));
    }
    keep_recent(&mut recent_input.events);
    r
}

} // verus!
