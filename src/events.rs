use vstd::prelude::*;

verus! {

/// How many entries each recent-event log keeps.
pub const LOG_CAPACITY: usize = 5;

/// A movement direction on the unit lattice: each component is -1, 0 or 1 and
/// at least one is non-zero. It stands for the unit vector along `(x, y)`,
/// with `x` the strafe axis (right positive) and `y` the forward axis.
#[derive(Clone, Copy, Debug, PartialEq, Eq, Structural)]
pub struct Dir {
    pub x: i8,
    pub y: i8,
}

impl Dir {
    pub open spec fn wf(self) -> bool {
        -1 <= self.x <= 1 && -1 <= self.y <= 1 && (self.x != 0 || self.y != 0)
    }

    /// Both components are non-zero: the unit vector has components of
    /// magnitude one half of the square root of two.
    pub open spec fn is_diagonal(self) -> bool {
        self.x != 0 && self.y != 0
    }
}

/// A semantic game event, independent of the device that caused it.
#[derive(Clone, Copy, Debug, PartialEq, Eq, Structural)]
pub enum GameEvent {
    Jump,
    Fire,
    /// Move along a direction (strafe, forward).
    Move(Dir),
    Sprint(bool),
    Pause(bool),
}

impl GameEvent {
    /// A move carries a lattice direction.
    pub open spec fn wf(self) -> bool {
        match self {
            GameEvent::Move(d) => d.wf(),
            _ => true,
        }
    }
}

/// Every event of `s` is well formed.
pub open spec fn all_wf(s: Seq<GameEvent>) -> bool {
    forall|i: int| 0 <= i < s.len() ==> #[trigger] s[i].wf()
}

/// Joining well-formed event sequences keeps them well formed.
pub(crate) proof fn lemma_all_wf_concat(a: Seq<GameEvent>, b: Seq<GameEvent>)
    requires
        all_wf(a),
        all_wf(b),
    ensures
        all_wf(a + b),
{
    assert forall|i: int| 0 <= i < (a + b).len() implies #[trigger] (a + b)[i].wf() by {
        if i < a.len() {
            assert((a + b)[i] == a[i]);
        } else {
            assert((a + b)[i] == b[i - a.len()]);
        }
    }
}

/// The last `LOG_CAPACITY` elements of `s`, in their order.
pub open spec fn recent<T>(s: Seq<T>) -> Seq<T> {
    if s.len() <= LOG_CAPACITY {
        s
    } else {
        s.subrange(s.len() - LOG_CAPACITY, s.len() as int)
    }
}

/// Trimming after every batch keeps exactly what trimming once at the end
/// would: the log always holds the `LOG_CAPACITY` most recent entries of
/// everything ever recorded, in order, and never more.
pub proof fn lemma_recent_of_recent<T>(earlier: Seq<T>, later: Seq<T>)
    ensures
        recent(recent(earlier) + later) == recent(earlier + later),
        recent(earlier + later).len() <= LOG_CAPACITY,
{
    let lhs = recent(recent(earlier) + later);
    let rhs = recent(earlier + later);
    if earlier.len() <= LOG_CAPACITY {
        assert(recent(earlier) == earlier);
    } else {
        let r = recent(earlier);
        let n = (earlier + later).len();
        assert(lhs.len() == rhs.len());
        assert forall|i: int| 0 <= i < lhs.len() implies lhs[i] == rhs[i] by {
            let m = (r + later).len();
            assert(lhs[i] == (r + later)[m - LOG_CAPACITY + i]);
            assert(rhs[i] == (earlier + later)[n - LOG_CAPACITY + i]);
        }
        assert(lhs =~= rhs);
    }
}

/// Drops elements from the front of `v` until at most `LOG_CAPACITY` remain.
pub fn keep_recent<T>(v: &mut Vec<T>)
    ensures
        final(v)@ == recent(old(v)@),
        final(v)@.len() <= LOG_CAPACITY,
{
    let len = v.len();
    if len > LOG_CAPACITY {
        let tail = v.split_off(len - LOG_CAPACITY);
        *v = tail;
    }
}

/// Appends `items` to `v`, in order.
pub(crate) fn append_all<T: Copy>(v: &mut Vec<T>, items: &Vec<T>)
    ensures
        final(v)@ == old(v)@ + items@,
{
    let mut i: usize = 0;
    while i < items.len()
        invariant
            i <= items@.len(),
            v@ == old(v)@ + items@.subrange(0, i as int),
        decreases items@.len() - i,
    {
        v.push(items[i]);
        i = i + 1;
        assert(items@.subrange(0, i as int) == items@.subrange(0, i - 1 as int).push(items@[i - 1]));
    }
    assert(items@.subrange(0, i as int) == items@);
}

/// The most recent raw input descriptions, oldest first.
pub struct RecentInputEvents {
    pub events: Vec<String>,
}

impl RecentInputEvents {
    pub open spec fn wf(&self) -> bool {
        self.events@.len() <= LOG_CAPACITY
    }

    pub fn new() -> (r: Self)
        ensures
            r.events@ == Seq::<String>::empty(),
            r.wf(),
    {
        RecentInputEvents { events: Vec::new() }
    }

    /// Appends one description, then keeps only the most recent ones.
    pub fn record(&mut self, description: String)
        ensures
            final(self).events@ == recent(old(self).events@.push(description)),
            final(self).wf(),
    {
        self.events.push(description);
        keep_recent(&mut self.events);
    }
}

/// The most recent semantic game events, oldest first.
pub struct RecentGameEvents {
    pub events: Vec<GameEvent>,
}

impl RecentGameEvents {
    pub open spec fn wf(&self) -> bool {
        self.events@.len() <= LOG_CAPACITY
    }

    pub fn new() -> (r: Self)
        ensures
            r.events@ == Seq::<GameEvent>::empty(),
            r.wf(),
    {
        RecentGameEvents { events: Vec::new() }
    }
}

/// Appends every event of the frame, in arrival order, to the game event log
/// and then keeps only the most recent ones.
pub fn game_event_collector_system(game_events: &Vec<GameEvent>, recent_game: &mut RecentGameEvents)
    ensures
        final(recent_game).events@ == recent(old(recent_game).events@ + game_events@),
        final(recent_game).wf(),
{
    append_all(&mut recent_game.events, game_events);
    keep_recent(&mut recent_game.events);
}

} // verus!
