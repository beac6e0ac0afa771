//! The state of an interactive run: the current world, the speed in
//! generations per second, and whether the run is paused.

use vstd::prelude::*;
use crate::grid::{World, generation, grid_of_bits, is_bit_grid, next_generation, randomize};

verus! {

/// The speed a session starts at, in generations per second.
pub const START_SPEED: u32 = 10;

/// The length of a second in nanoseconds.
pub const NANOS_PER_SECOND: u32 = 1_000_000_000;

/// What the user can ask of a running session.
#[derive(Clone, Copy, Debug, PartialEq, Eq, Structural)]
pub enum Command {
    /// End the session.
    Quit,
    /// Replace the world by a fresh random one.
    Reseed,
    /// Stop advancing generations.
    Pause,
    /// Advance generations again.
    Resume,
    /// One more generation per second.
    SpeedUp,
    /// One generation per second less, never below one.
    SpeedDown,
}

/// The speed after command `c`.
pub open spec fn speed_after(speed: int, c: Command) -> int {
    match c {
        Command::SpeedUp => if speed < u32::MAX { speed + 1 } else { speed },
        Command::SpeedDown => if speed > 1 { speed - 1 } else { 1 },
        _ => speed,
    }
}

/// The paused flag after command `c`.
pub open spec fn paused_after(paused: bool, c: Command) -> bool {
    match c {
        Command::Pause => true,
        Command::Resume => false,
        _ => paused,
    }
}

/// The grid after one frame: one generation on unless paused.
pub open spec fn frame_grid(g: Seq<Seq<i8>>, paused: bool) -> Seq<Seq<i8>> {
    if paused {
        g
    } else {
        next_generation(g)
    }
}

/// The grid after `n` frames with the paused flag held.
pub open spec fn run_frames(g: Seq<Seq<i8>>, paused: bool, n: nat) -> Seq<Seq<i8>>
    decreases n,
{
    if n == 0 {
        g
    } else {
        frame_grid(run_frames(g, paused, (n - 1) as nat), paused)
    }
}

/// The speed after the commands of `cs`, in order.
pub open spec fn speed_after_all(speed: int, cs: Seq<Command>) -> int
    decreases cs.len(),
{
    if cs.len() == 0 {
        speed
    } else {
        speed_after(speed_after_all(speed, cs.drop_last()), cs.last())
    }
}

/// The number of speed-down commands in `cs`.
pub open spec fn count_downs(cs: Seq<Command>) -> int
    decreases cs.len(),
{
    if cs.len() == 0 {
        0
    } else {
        count_downs(cs.drop_last()) + if cs.last() == Command::SpeedDown { 1int } else { 0int }
    }
}

/// However many speed-down commands come, mixed with any others but
/// speed-up (reseeds, pauses, resumes), the speed never falls below one: it
/// ends at the starting speed less the number of speed-downs, or at one.
pub proof fn lemma_speed_down_floor(speed: int, cs: Seq<Command>)
    requires
        speed >= 1,
        forall|i: int| 0 <= i < cs.len() ==> cs[i] != Command::SpeedUp,
    ensures
        speed_after_all(speed, cs) >= 1,
        speed_after_all(speed, cs) == if speed - count_downs(cs) >= 1 {
            speed - count_downs(cs)
        } else {
            1
        },
    decreases cs.len(),
{
    if cs.len() > 0 {
        let rest = cs.drop_last();
        assert forall|i: int| 0 <= i < rest.len() implies rest[i] != Command::SpeedUp by {
            assert(rest[i] == cs[i]);
        }
        lemma_speed_down_floor(speed, rest);
        assert(cs.last() == cs[cs.len() - 1]);
    }
}

/// After a pause, any number of frames leaves the grid as it was.
pub proof fn lemma_paused_frames_keep_grid(g: Seq<Seq<i8>>, paused: bool, n: nat)
    ensures
        run_frames(g, paused_after(paused, Command::Pause), n) == g,
    decreases n,
{
    if n > 0 {
        lemma_paused_frames_keep_grid(g, paused, (n - 1) as nat);
    }
}

/// After a resume, one frame advances the grid by exactly one generation.
pub proof fn lemma_resume_then_frame(g: Seq<Seq<i8>>, paused: bool)
    ensures
        run_frames(g, paused_after(paused, Command::Resume), 1) == next_generation(g),
{
    assert(run_frames(g, false, 0) == g);
}

/// A running session.
pub struct Session {
    world: World,
    speed: u32,
    paused: bool,
}

impl Session {
    /// The current world.
    pub closed spec fn spec_world(&self) -> World {
        self.world
    }

    /// The current speed, in generations per second.
    pub closed spec fn spec_speed(&self) -> int {
        self.speed as int
    }

    /// Whether generations are held.
    pub closed spec fn spec_paused(&self) -> bool {
        self.paused
    }

    /// The world is well formed and the speed is at least one.
    pub open spec fn wf(&self) -> bool {
        &&& self.spec_world().wf()
        &&& self.spec_speed() >= 1
        &&& self.spec_speed() <= u32::MAX
    }

    /// A session on the given world, running at the starting speed.
    pub fn with_world(world: World) -> (s: Session)
        requires
            world.wf(),
        ensures
            s.wf(),
            s.spec_world() == world,
            s.spec_speed() == START_SPEED,
            !s.spec_paused(),
    {
        Session { world, speed: START_SPEED, paused: false }
    }

    /// A session on a random world of `width` columns and `height` rows,
    /// running at the starting speed.
    pub fn new(width: usize, height: usize) -> (s: Session)
        ensures
            s.wf(),
            s.spec_world().spec_width() == width,
            s.spec_world().spec_height() == height,
            exists|b: Seq<Seq<bool>>|
                is_bit_grid(b, width as int, height as int) && s.spec_world()@ == grid_of_bits(b),
            s.spec_speed() == START_SPEED,
            !s.spec_paused(),
    {
        Session::with_world(randomize(World::dead(width, height)))
    }

    /// Carries out one command. Returns `false` for `Quit`, after which the
    /// session should end, and `true` otherwise.
    pub fn apply(&mut self, c: Command) -> (running: bool)
        requires
            old(self).wf(),
        ensures
            final(self).wf(),
            running == (c != Command::Quit),
            final(self).spec_speed() == speed_after(old(self).spec_speed(), c),
            final(self).spec_paused() == paused_after(old(self).spec_paused(), c),
            c != Command::Reseed ==> final(self).spec_world() == old(self).spec_world(),
            c == Command::Reseed ==> exists|b: Seq<Seq<bool>>|
                is_bit_grid(
                    b,
                    old(self).spec_world().spec_width() as int,
                    old(self).spec_world().spec_height() as int,
                ) && final(self).spec_world()@ == grid_of_bits(b),
            final(self).spec_world().spec_width() == old(self).spec_world().spec_width(),
            final(self).spec_world().spec_height() == old(self).spec_world().spec_height(),
    {
        match c {
            Command::Quit => {
                return false;
            },
            Command::Reseed => {
                let fresh = World::dead(self.world.width(), self.world.height());
                self.world = randomize(fresh);
            },
            Command::Pause => {
                self.paused = true;
            },
            Command::Resume => {
                self.paused = false;
            },
            Command::SpeedUp => {
                self.speed = self.speed.saturating_add(1);
            },
            Command::SpeedDown => {
                if self.speed > 1 {
                    self.speed = self.speed - 1;
                } else {
                    self.speed = 1;
                }
            },
        }
        true
    }

    /// Advances the world one generation unless the session is paused.
    pub fn frame(&mut self)
        requires
            old(self).wf(),
        ensures
            final(self).wf(),
            final(self).spec_world()@ == frame_grid(
                old(self).spec_world()@,
                old(self).spec_paused(),
            ),
            final(self).spec_world().spec_width() == old(self).spec_world().spec_width(),
            final(self).spec_world().spec_height() == old(self).spec_world().spec_height(),
            final(self).spec_speed() == old(self).spec_speed(),
            final(self).spec_paused() == old(self).spec_paused(),
    {
        if !self.paused {
            self.world = generation(&self.world);
        }
    }

    /// How long to wait between frames, in nanoseconds: a second divided by
    /// the speed.
    pub fn frame_delay_nanos(&self) -> (r: u32)
        requires
            self.wf(),
        ensures
            r as int == NANOS_PER_SECOND as int / self.spec_speed(),
    {
        NANOS_PER_SECOND / self.speed
    }

    /// The current world.
    pub fn world(&self) -> (r: &World)
        ensures
            *r == self.spec_world(),
    {
        &self.world
    }

    /// The current speed, in generations per second.
    pub fn speed(&self) -> (r: u32)
        ensures
            r as int == self.spec_speed(),
    {
        self.speed
    }

    /// Whether the session is paused.
    pub fn is_paused(&self) -> (r: bool)
        ensures
            r == self.spec_paused(),
    {
        self.paused
    }
}

} // verus!
