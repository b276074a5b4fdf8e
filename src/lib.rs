//! Gameplay rules of a first-person movement sandbox: turning raw input into
//! semantic game events, keeping short logs of recent events, planning the
//! player's per-frame movement, and gating updates behind a pause flag.
//!
//! Everything here works on plain values. Floating-point work (vector
//! normalisation, transforms, camera orientation) and the engine itself live
//! with the application that drives the library.

pub mod controls;
pub mod events;
pub mod player;
pub mod state;

pub use controls::{
    controls_system, held_events, key_events, mouse_events, pad_events, stick_direction,
    HeldKeys, Key, KeyInput, MouseButton, MouseInput, PadAxis, PadButton, PadEventKind, PadInput,
    ANALOG_ONE, STICK_DEADZONE, TRIGGER_THRESHOLD,
};
pub use events::{
    game_event_collector_system, keep_recent, Dir, GameEvent, RecentGameEvents,
    RecentInputEvents, LOG_CAPACITY,
};
pub use player::{player_movement, Gait, MoveStep, MoveSum};
pub use state::{GameState, CursorMode};
