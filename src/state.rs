use vstd::prelude::*;
use crate::events::GameEvent;

verus! {

/// How the window treats the cursor.
#[derive(Clone, Copy, Debug, PartialEq, Eq, Structural)]
pub enum CursorMode {
    /// Visible and free to leave the window.
    Free,
    /// Hidden and locked to the window, for mouse look.
    Captured,
}

impl CursorMode {
    /// The other mode: what the escape key switches to.
    pub fn toggled(self) -> (r: CursorMode)
        ensures
            r != self,
    {
        match self {
            CursorMode::Free => CursorMode::Captured,
            CursorMode::Captured => CursorMode::Free,
        }
    }
}

/// The cursor mode that goes with a pause flag: a paused game frees it.
pub open spec fn cursor_for(paused: bool) -> CursorMode {
    if paused {
        CursorMode::Free
    } else {
        CursorMode::Captured
    }
}

/// The pause flag after the events of `s`, starting from `paused`: the last
/// pause event decides, and without one the flag stays.
pub open spec fn pause_after(paused: bool, s: Seq<GameEvent>) -> bool
    decreases s.len(),
{
    if s.len() == 0 {
        paused
    } else {
        match s.last() {
            GameEvent::Pause(b) => b,
            _ => pause_after(paused, s.drop_last()),
        }
    }
}

/// The pause flag after a run of frames, each with its own events.
pub open spec fn pause_after_frames(paused: bool, frames: Seq<Seq<GameEvent>>) -> bool
    decreases frames.len(),
{
    if frames.len() == 0 {
        paused
    } else {
        pause_after(pause_after_frames(paused, frames.drop_last()), frames.last())
    }
}

pub open spec fn has_pause(s: Seq<GameEvent>) -> bool {
    exists|i: int| 0 <= i < s.len() && #[trigger] s[i] is Pause
}

/// Whether the game is paused. While it is, movement and look updates do
/// not run.
#[derive(Clone, Copy, Debug, PartialEq, Eq, Structural)]
pub struct GameState {
    pub is_paused: bool,
}

impl GameState {
    pub fn new() -> (r: GameState)
        ensures
            !r.is_paused,
    {
        GameState { is_paused: false }
    }

    /// Whether movement and look updates run this frame.
    pub fn updates_enabled(&self) -> (r: bool)
        ensures
            r == !self.is_paused,
    {
        !self.is_paused
    }

    /// Applies the frame's pause events. When there was one, returns the
    /// cursor mode that the window must take.
    pub fn pause_system(&mut self, game_events: &Vec<GameEvent>) -> (r: Option<CursorMode>)
        ensures
            final(self).is_paused == pause_after(old(self).is_paused, game_events@),
            r == (if has_pause(game_events@) {
                Some(cursor_for(final(self).is_paused))
            } else {
                None
            }),
    {
        let mut seen = false;
        let mut i: usize = 0;
        while i < game_events.len()
            invariant
                i <= game_events@.len(),
                self.is_paused == pause_after(old(self).is_paused, game_events@.subrange(0, i as int)),
                seen == has_pause(game_events@.subrange(0, i as int)),
            decreases game_events@.len() - i,
        {
            let ghost prefix = game_events@.subrange(0, i as int);
            let ghost next = game_events@.subrange(0, i + 1);
            proof {
                assert(next.drop_last() == prefix);
                assert(next[i as int] == game_events@[i as int]);
                if has_pause(prefix) {
                    let k = choose|k: int| 0 <= k < prefix.len() && #[trigger] prefix[k] is Pause;
                    assert(next[k] == prefix[k]);
                }
                if has_pause(next) {
                    let k = choose|k: int| 0 <= k < next.len() && #[trigger] next[k] is Pause;
                    if k < i {
                        assert(next[k] == prefix[k]);
                    }
                }
            }
            if let GameEvent::Pause(b) = game_events[i] {
                self.is_paused = b;
                seen = true;
            }
            i = i + 1;
        }
        assert(game_events@.subrange(0, i as int) == game_events@);
        if seen {
            if self.is_paused {
                Some(CursorMode::Free)
            } else {
                Some(CursorMode::Captured)
            }
        } else {
            None
        }
    }
}

proof fn lemma_no_unpause_in_frame(s: Seq<GameEvent>)
    requires
        forall|i: int| 0 <= i < s.len() ==> #[trigger] s[i] != GameEvent::Pause(false),
    ensures
        pause_after(true, s),
    decreases s.len(),
{
    if s.len() > 0 {
        let t = s.drop_last();
        assert forall|i: int| 0 <= i < t.len() implies #[trigger] t[i] != GameEvent::Pause(false) by {
            assert(t[i] == s[i]);
        }
        assert(s[s.len() - 1] != GameEvent::Pause(false));
        lemma_no_unpause_in_frame(t);
    }
}

/// Once paused, the game stays paused through any run of frames in which no
/// `Pause(false)` event arrives: movement and look stay suppressed until one
/// does. Nothing but pause events changes the flag, so the escape key's
/// cursor toggle has no say in it.
pub proof fn lemma_pause_holds_until_unpaused(frames: Seq<Seq<GameEvent>>)
    requires
        forall|f: int, i: int|
            0 <= f < frames.len() && 0 <= i < frames[f].len() ==> #[trigger] frames[f][i]
                != GameEvent::Pause(false),
    ensures
        pause_after_frames(true, frames),
    decreases frames.len(),
{
    if frames.len() > 0 {
        let t = frames.drop_last();
        assert forall|f: int, i: int| 0 <= f < t.len() && 0 <= i < t[f].len() implies #[trigger] t[f][i]
            != GameEvent::Pause(false) by {
            assert(t[f] == frames[f]);
        }
        lemma_pause_holds_until_unpaused(t);
        let last = frames.last();
        assert forall|i: int| 0 <= i < last.len() implies #[trigger] last[i] != GameEvent::Pause(false) by {
            assert(frames[frames.len() - 1][i] != GameEvent::Pause(false));
        }
        lemma_no_unpause_in_frame(last);
    }
}

/// A frame whose last pause event is `Pause(false)` leaves the game running,
/// whatever its state before.
pub proof fn lemma_unpause_resumes(paused: bool, before: Seq<GameEvent>, after: Seq<GameEvent>)
    requires
        forall|i: int| 0 <= i < after.len() ==> !(#[trigger] after[i] is Pause),
    ensures
        !pause_after(paused, before.push(GameEvent::Pause(false)) + after),
    decreases after.len(),
{
    let s = before.push(GameEvent::Pause(false)) + after;
    if after.len() == 0 {
        assert(s == before.push(GameEvent::Pause(false)));
    } else {
        let t = after.drop_last();
        assert forall|i: int| 0 <= i < t.len() implies !(#[trigger] t[i] is Pause) by {
            assert(t[i] == after[i]);
        }
        lemma_unpause_resumes(paused, before, t);
        assert(s.drop_last() == before.push(GameEvent::Pause(false)) + t);
        assert(s.last() == after[after.len() - 1]);
    }
}

} // verus!
