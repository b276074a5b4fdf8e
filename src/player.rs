use vstd::prelude::*;
use crate::events::{all_wf, Dir, GameEvent};

verus! {

/// Net movement asked for in one frame, in the player's local frame (strafe
/// to the right, forward). Each component is
/// `straight + diagonal * sqrt(2) / 2`: an axis-aligned direction adds a whole
/// unit, a diagonal one adds `sqrt(2) / 2` on both axes. As `sqrt(2)` is
/// irrational, a component is zero exactly when both of its counts are.
#[derive(Clone, Copy, Debug, PartialEq, Eq, Structural)]
pub struct MoveSum {
    pub strafe: i64,
    pub strafe_diagonal: i64,
    pub forward: i64,
    pub forward_diagonal: i64,
}

/// Which of the player's speeds applies to a frame's movement.
#[derive(Clone, Copy, Debug, PartialEq, Eq, Structural)]
pub enum Gait {
    Walk,
    Run,
}

/// The movement of one frame: move along the unit vector of `sum`, turned
/// into world space by the player's basis, at the speed of `gait`, for the
/// frame's elapsed time.
#[derive(Clone, Copy, Debug, PartialEq, Eq, Structural)]
pub struct MoveStep {
    pub sum: MoveSum,
    pub gait: Gait,
}

/// What one direction adds to the sum.
pub open spec fn dir_counts(d: Dir) -> (int, int, int, int) {
    if d.is_diagonal() {
        (0, d.x as int, 0, d.y as int)
    } else {
        (d.x as int, 0, d.y as int, 0)
    }
}

/// The sum of every move of `s`.
pub open spec fn move_sum(s: Seq<GameEvent>) -> (int, int, int, int)
    decreases s.len(),
{
    if s.len() == 0 {
        (0, 0, 0, 0)
    } else {
        let p = move_sum(s.drop_last());
        match s.last() {
            GameEvent::Move(d) => {
                let c = dir_counts(d);
                (p.0 + c.0, p.1 + c.1, p.2 + c.2, p.3 + c.3)
            },
            _ => p,
        }
    }
}

/// Whether the frame is a sprinting one: the last sprint event of `s`
/// decides, and without one the player walks.
pub open spec fn sprinting(s: Seq<GameEvent>) -> bool
    decreases s.len(),
{
    if s.len() == 0 {
        false
    } else {
        match s.last() {
            GameEvent::Sprint(b) => b,
            _ => sprinting(s.drop_last()),
        }
    }
}

pub open spec fn counts_of(m: MoveSum) -> (int, int, int, int) {
    (m.strafe as int, m.strafe_diagonal as int, m.forward as int, m.forward_diagonal as int)
}

pub open spec fn gait_of(sprint: bool) -> Gait {
    if sprint {
        Gait::Run
    } else {
        Gait::Walk
    }
}

/// The movement owed for a frame's events: none when the moves cancel out
/// (or there are none), else a step along their sum.
pub open spec fn movement_plan(s: Seq<GameEvent>) -> Option<MoveStep> {
    let c = move_sum(s);
    if c == (0int, 0int, 0int, 0int) {
        None
    } else {
        Some(
            MoveStep {
                sum: MoveSum {
                    strafe: c.0 as i64,
                    strafe_diagonal: c.1 as i64,
                    forward: c.2 as i64,
                    forward_diagonal: c.3 as i64,
                },
                gait: gait_of(sprinting(s)),
            },
        )
    }
}

proof fn lemma_move_sum_bounded(s: Seq<GameEvent>)
    requires
        all_wf(s),
    ensures
        -s.len() <= move_sum(s).0 <= s.len(),
        -s.len() <= move_sum(s).1 <= s.len(),
        -s.len() <= move_sum(s).2 <= s.len(),
        -s.len() <= move_sum(s).3 <= s.len(),
    decreases s.len(),
{
    if s.len() > 0 {
        assert(all_wf(s.drop_last())) by {
            assert forall|i: int| 0 <= i < s.drop_last().len() implies #[trigger] s.drop_last()[i].wf() by {
                assert(s.drop_last()[i] == s[i]);
            }
        }
        assert(s.last().wf());
        lemma_move_sum_bounded(s.drop_last());
    }
}

/// A frame with no move events, or whose moves cancel out, leaves the player
/// where they stand, however long the frame lasted: no step is planned.
pub proof fn lemma_no_net_move_no_step(s: Seq<GameEvent>)
    requires
        move_sum(s) == (0int, 0int, 0int, 0int) || forall|i: int|
            0 <= i < s.len() ==> !(#[trigger] s[i] is Move),
    ensures
        movement_plan(s) is None,
    decreases s.len(),
{
    if move_sum(s) != (0int, 0int, 0int, 0int) {
        let t = s.drop_last();
        assert forall|i: int| 0 <= i < t.len() implies !(#[trigger] t[i] is Move) by {
            assert(t[i] == s[i]);
        }
        lemma_no_net_move_no_step(t);
        assert(!(s[s.len() - 1] is Move));
    }
}

/// Plans the player's movement for one frame from that frame's events. Moves
/// add up; the last sprint event picks the speed, and a frame without one
/// walks: nothing carries over from earlier frames.
pub fn player_movement(game_events: &Vec<GameEvent>) -> (r: Option<MoveStep>)
    requires
        game_events@.len() <= i64::MAX,
        all_wf(game_events@),
    ensures
        r == movement_plan(game_events@),
        r is None <==> move_sum(game_events@) == (0int, 0int, 0int, 0int),
{
    let mut sum = MoveSum { strafe: 0, strafe_diagonal: 0, forward: 0, forward_diagonal: 0 };
    let mut is_sprinting = false;
    let mut i: usize = 0;
    while i < game_events.len()
        invariant
            i <= game_events@.len() <= i64::MAX,
            all_wf(game_events@),
            counts_of(sum) == move_sum(game_events@.subrange(0, i as int)),
            is_sprinting == sprinting(game_events@.subrange(0, i as int)),
        decreases game_events@.len() - i,
    {
        let ghost prefix = game_events@.subrange(0, i as int);
        let ghost next = game_events@.subrange(0, i + 1);
        proof {
            assert(next.drop_last() == prefix);
            assert(all_wf(prefix)) by {
                assert forall|j: int| 0 <= j < prefix.len() implies #[trigger] prefix[j].wf() by {
                    assert(prefix[j] == game_events@[j]);
                }
            }
            assert(game_events@[i as int].wf());
            lemma_move_sum_bounded(prefix);
        }
        match game_events[i] {
            GameEvent::Move(d) => {
                if d.x != 0 && d.y != 0 {
                    sum.strafe_diagonal = sum.strafe_diagonal + d.x as i64;
                    sum.forward_diagonal = sum.forward_diagonal + d.y as i64;
                } else {
                    sum.strafe = sum.strafe + d.x as i64;
                    sum.forward = sum.forward + d.y as i64;
                }
            },
            GameEvent::Sprint(b) => {
                is_sprinting = b;
            },
            _ => {},
        }
        i = i + 1;
    }
    assert(game_events@.subrange(0, i as int) == game_events@);
    if sum.strafe == 0 && sum.strafe_diagonal == 0 && sum.forward == 0 && sum.forward_diagonal == 0 {
        None
    } else {
        let gait = if is_sprinting {
            Gait::Run
        } else {
            Gait::Walk
        };
        Some(MoveStep { sum, gait })
    }
}

} // verus!
