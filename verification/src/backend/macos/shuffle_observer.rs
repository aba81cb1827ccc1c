//! Fades from one video of a pool to another, over two players that take turns.
use rand::Rng;
use vstd::prelude::*;

verus! {

/// Where the fade stands, shared with the battery observer.
#[derive(Debug, Clone, Copy, PartialEq, Eq, Structural)]
pub struct CrossfadeState {
    /// The player that is seen: 0 or 1.
    pub active: usize,
    /// Playback is to be paused.
    pub pause_gate: bool,
    /// The next video is loaded but not faded in yet.
    pub transition_pending: bool,
}

impl Default for CrossfadeState {
    fn default() -> (r: CrossfadeState)
        ensures
            r == (CrossfadeState { active: 0, pause_gate: false, transition_pending: false }),
    {
        CrossfadeState { active: 0, pause_gate: false, transition_pending: false }
    }
}

/// A pool of videos and the one that was played last.
#[derive(Debug, Clone, Copy, PartialEq, Eq, Structural)]
pub struct Shuffle {
    /// The number of videos.
    pub pool: usize,
    pub last_index: usize,
    pub state: CrossfadeState,
}

/// Why a tick changes nothing.
#[derive(Debug, Clone, Copy, PartialEq, Eq, Structural)]
pub enum Skip {
    Paused,
    TransitionPending,
    EmptyPool,
}

/// What a tick of the timer asks for.
#[derive(Debug, Clone, Copy, PartialEq, Eq, Structural)]
pub enum Tick {
    Skipped(Skip),
    /// Load this video into this player, blurred, and start it.
    Load { index: usize, player: usize },
}

/// What the fade asks for.
#[derive(Debug, Clone, Copy, PartialEq, Eq, Structural)]
pub struct Fade {
    pub outgoing: usize,
    pub incoming: usize,
    /// Pause both players once the fade has been set up.
    pub pause_all: bool,
}

impl Shuffle {
    /// One of the two players is seen, and of two videos one was played last.
    pub open spec fn wf(self) -> bool {
        self.state.active <= 1 && (self.pool == 2 ==> self.last_index <= 1)
    }
}

/// `rand::Rng::random_range` from 0 with the generator of the thread: a random number below
/// `n`. Which one is left open. Where the system gives the generator no seed, the call panics.
#[verifier::external_body]
fn draw(n: usize) -> (r: usize)
    requires
        n > 0,
    ensures
        r < n,
{
    rand::rng().random_range(0..n)
}

/// The next video of a pool of `n`, where `drawn` is a random number below `n - 1`: never the
/// one that was played last, as long as there is another.
pub open spec fn following(n: int, last: int, drawn: int) -> int {
    if n == 1 {
        0
    } else if n == 2 {
        1 - last
    } else if drawn >= last {
        drawn + 1
    } else {
        drawn
    }
}

/// The next video of a pool, where `drawn` is a random number.
pub fn next_index(n: usize, last: usize, drawn: usize) -> (r: usize)
    requires
        n > 0,
        n == 2 ==> last <= 1,
        n > 2 ==> drawn < n - 1,
    ensures
        r == following(n as int, last as int, drawn as int),
        r < n,
        n >= 2 ==> r != last,
{
    if n == 1 {
        0
    } else if n == 2 {
        1 - last
    } else if drawn >= last {
        drawn + 1
    } else {
        drawn
    }
}

/// Why a tick changes nothing, where it does.
pub open spec fn skipped(s: Shuffle) -> Option<Skip> {
    if s.state.pause_gate {
        Some(Skip::Paused)
    } else if s.state.transition_pending {
        Some(Skip::TransitionPending)
    } else if s.pool == 0 {
        Some(Skip::EmptyPool)
    } else {
        None
    }
}

impl Shuffle {
    /// A pool whose video at `initial_index` is being played.
    pub fn new(pool: usize, initial_index: usize, state: CrossfadeState) -> (r: Shuffle)
        requires
            state.active <= 1,
            pool == 2 ==> initial_index <= 1,
        ensures
            r == (Shuffle { pool, last_index: initial_index, state }),
            r.wf(),
    {
        Shuffle { pool, last_index: initial_index, state }
    }

    /// The timer ticks, and `drawn` is a random number.
    pub fn tick_with(&mut self, drawn: usize) -> (r: Tick)
        requires
            old(self).wf(),
            old(self).pool > 2 ==> drawn < old(self).pool - 1,
        ensures
            final(self).wf(),
            match skipped(*old(self)) {
                Some(skip) => r == Tick::Skipped(skip) && *final(self) == *old(self),
                None => {
                    let index = following(
                        old(self).pool as int,
                        old(self).last_index as int,
                        drawn as int,
                    ) as usize;
                    &&& r == Tick::Load { index, player: (1 - old(self).state.active) as usize }
                    &&& *final(self) == (Shuffle {
                        last_index: index,
                        state: CrossfadeState { transition_pending: true, ..old(self).state },
                        ..*old(self)
                    })
                },
            },
    {
        if self.state.pause_gate {
            return Tick::Skipped(Skip::Paused);
        }
        if self.state.transition_pending {
            return Tick::Skipped(Skip::TransitionPending);
        }
        if self.pool == 0 {
            return Tick::Skipped(Skip::EmptyPool);
        }
        let index: usize = next_index(self.pool, self.last_index, drawn);
        self.last_index = index;
        self.state.transition_pending = true;
        Tick::Load { index, player: 1 - self.state.active }
    }

    /// The timer ticks.
    pub fn tick(&mut self) -> (r: Tick)
        requires
            old(self).wf(),
        ensures
            final(self).wf(),
            match skipped(*old(self)) {
                Some(skip) => r == Tick::Skipped(skip) && *final(self) == *old(self),
                None => {
                    let index = final(self).last_index;
                    &&& index < old(self).pool
                    &&& old(self).pool >= 2 ==> index != old(self).last_index
                    &&& r == Tick::Load { index, player: (1 - old(self).state.active) as usize }
                    &&& *final(self) == (Shuffle {
                        last_index: index,
                        state: CrossfadeState { transition_pending: true, ..old(self).state },
                        ..*old(self)
                    })
                },
            },
    {
        if self.pool > 2 {
            let drawn: usize = draw(self.pool - 1);
            self.tick_with(drawn)
        } else {
            self.tick_with(0)
        }
    }

    /// The video that was loaded is faded in.
    pub fn animate(&mut self) -> (r: Fade)
        requires
            old(self).wf(),
        ensures
            final(self).wf(),
            r == (Fade {
                outgoing: old(self).state.active,
                incoming: (1 - old(self).state.active) as usize,
                pause_all: old(self).state.pause_gate,
            }),
            *final(self) == (Shuffle {
                state: CrossfadeState {
                    active: (1 - old(self).state.active) as usize,
                    transition_pending: false,
                    ..old(self).state
                },
                ..*old(self)
            }),
    {
        let outgoing: usize = self.state.active;
        let incoming: usize = 1 - outgoing;
        self.state.active = incoming;
        self.state.transition_pending = false;
        Fade { outgoing, incoming, pause_all: self.state.pause_gate }
    }
}

/// No video of a larger pool is played twice in a row, every other one can come next, and no
/// two draws lead to the same one.
pub proof fn shuffle_law(n: int, last: int, index: int)
    requires
        n > 2,
        0 <= last < n,
        0 <= index < n,
    ensures
        index != last <==> exists|drawn: int|
            0 <= drawn < n - 1 && #[trigger] following(n, last, drawn) == index,
        forall|a: int, b: int|
            0 <= a < n - 1 && 0 <= b < n - 1 && #[trigger] following(n, last, a)
                == #[trigger] following(n, last, b) ==> a == b,
{
    if index < last {
        assert(following(n, last, index) == index);
    } else if index > last {
        assert(following(n, last, index - 1) == index);
    }
}

/// Small pools: the one video comes again and again, and two videos take turns, whatever is
/// drawn.
pub proof fn small_pool_law(last: int, drawn: int)
    requires
        last == 0 || last == 1,
    ensures
        following(1, last, drawn) == 0,
        following(2, last, drawn) == 0 || following(2, last, drawn) == 1,
        following(2, last, drawn) != last,
        following(2, following(2, last, drawn), drawn) == last,
{
}

/// When a tick changes nothing: during a pause; else while a video waits to be faded in; else
/// where there is no video. No other tick is skipped.
pub proof fn skip_law(s: Shuffle)
    ensures
        skipped(s) == Some(Skip::Paused) <==> s.state.pause_gate,
        skipped(s) == Some(Skip::TransitionPending) <==> !s.state.pause_gate
            && s.state.transition_pending,
        skipped(s) == Some(Skip::EmptyPool) <==> !s.state.pause_gate && !s.state.transition_pending
            && s.pool == 0,
        skipped(s) is None <==> !s.state.pause_gate && !s.state.transition_pending && s.pool > 0,
{
}

/// A tick that is not skipped loads the video that was drawn into the player that is not seen,
/// and lets the fade wait; the player that is seen stays the same until the fade.
pub proof fn tick_law(s: &mut Shuffle, drawn: usize, r: Tick)
    requires
        old(s).wf(),
        call_ensures(Shuffle::tick_with, (s, drawn), r),
    ensures
        r is Skipped ==> *final(s) == *old(s),
        r matches Tick::Load { index, player } ==> {
            &&& !old(s).state.pause_gate && !old(s).state.transition_pending && old(s).pool > 0
            &&& player != old(s).state.active && player <= 1
            &&& final(s).last_index == index
            &&& index == following(
                old(s).pool as int,
                old(s).last_index as int,
                drawn as int,
            ) as usize
            &&& final(s).state.transition_pending
            &&& final(s).state.active == old(s).state.active
            &&& !final(s).state.pause_gate
        },
        final(s).pool == old(s).pool,
{
}

/// A fade swaps the two players and ends the wait: the one that was seen goes, the other
/// comes, and a second fade swaps them back. Both are paused exactly where playback is to be.
pub proof fn fade_law(s: &mut Shuffle, r: Fade)
    requires
        old(s).wf(),
        call_ensures(Shuffle::animate, (s,), r),
    ensures
        r.outgoing == old(s).state.active,
        r.incoming != r.outgoing && r.incoming <= 1,
        final(s).state.active == r.incoming,
        !final(s).state.transition_pending,
        r.pause_all == old(s).state.pause_gate,
        final(s).state.pause_gate == old(s).state.pause_gate,
        final(s).pool == old(s).pool,
        final(s).last_index == old(s).last_index,
{
}

} // verus!
