use vstd::prelude::*;
use crate::geometry::{
    Point, Screen, in_arena, heading_velocity, velocity_from_heading, lemma_cone_falls,
    CURSOR_WIDTH, CURSOR_HEIGHT, CURSOR_STEP, NUDGE, CONE_START, CONE_WIDTH,
};

verus! {

/// Starting life of the player, the health of the defended ground.
pub const GROUND_LIFE: i64 = 5;

/// Starting life of a rocket.
pub const ROCKET_LIFE: i64 = 1;

/// Lifetime of an interceptor blast, in blast steps; one tick is one step,
/// and twenty steps make one unit of the blast curve.
pub const INTERCEPTOR_PERIOD: i64 = 100;

/// Blast step at which the radius peaks (2.5 units of the blast curve).
pub const BLAST_PEAK: i64 = 50;

/// Base blast radius (20 pixels).
pub const INTERCEPTOR_BASE_RADIUS: i64 = 24_000;

/// Discretised input: two axes in {-1, 0, 1} and the fire flag.
#[derive(Clone, Copy, Debug, PartialEq, Eq, Structural)]
pub struct InputState {
    pub xaxis: i64,
    pub yaxis: i64,
    pub fire: bool,
}

impl InputState {
    pub open spec fn wf(self) -> bool {
        -1 <= self.xaxis <= 1 && -1 <= self.yaxis <= 1
    }
}

impl Default for InputState {
    fn default() -> (r: InputState)
        ensures
            r == (InputState { xaxis: 0, yaxis: 0, fire: false }),
    {
        InputState { xaxis: 0, yaxis: 0, fire: false }
    }
}

/// The player: the cursor position and the health of the ground; the
/// session ends once the health is zero or less.
#[derive(Clone, Copy, Debug, PartialEq, Eq, Structural)]
pub struct Cursor {
    pub pos: Point,
    pub life: i64,
}

/// A falling rocket. `velocity` is the per-tick displacement of `heading`.
#[derive(Clone, Copy, Debug, PartialEq, Eq, Structural)]
pub struct Rocket {
    pub pos: Point,
    pub initial_pos: Point,
    pub heading: i64,
    pub velocity: Point,
    pub life: i64,
}

impl Rocket {
    pub open spec fn wf(self) -> bool {
        &&& CONE_START <= self.heading <= CONE_START + CONE_WIDTH
        &&& self.velocity == heading_velocity(self.heading as int)
        &&& 0 <= self.life <= ROCKET_LIFE
    }
}

/// An interceptor blast; its radius is a function of the steps left.
#[derive(Clone, Copy, Debug, PartialEq, Eq, Structural)]
pub struct Interceptor {
    pub pos: Point,
    pub elapsed: i64,
    pub radius: i64,
}

/// The blast curve `base * (-((e - 2.5)^2) / 2.5 + 2.5)` with `e = elapsed / 20`,
/// which in blast steps is `base * (50^2 - (elapsed - 50)^2) / 1000`.
pub open spec fn blast_radius(elapsed: int) -> int {
    INTERCEPTOR_BASE_RADIUS * (BLAST_PEAK * BLAST_PEAK - (elapsed - BLAST_PEAK) * (elapsed
        - BLAST_PEAK)) / 1000
}

impl Interceptor {
    pub open spec fn wf(self) -> bool {
        &&& 0 <= self.elapsed <= INTERCEPTOR_PERIOD
        &&& self.radius == blast_radius(self.elapsed as int)
    }
}

/// The blast radius is never negative and peaks at two and a half times the base.
pub proof fn lemma_blast_radius_range(elapsed: int)
    requires
        0 <= elapsed <= INTERCEPTOR_PERIOD,
    ensures
        0 <= blast_radius(elapsed) <= 60_000,
{
    let d = elapsed - BLAST_PEAK;
    assert(0 <= d * d <= 2500) by (nonlinear_arith)
        requires
            -50 <= d <= 50,
    ;
}

fn radius_of(elapsed: i64) -> (r: i64)
    requires
        0 <= elapsed <= INTERCEPTOR_PERIOD,
    ensures
        r == blast_radius(elapsed as int),
        0 <= r <= 60_000,
{
    let d = elapsed - BLAST_PEAK;
    assert(0 <= d * d <= 2500) by (nonlinear_arith)
        requires
            -50 <= d <= 50,
    ;
    INTERCEPTOR_BASE_RADIUS * (BLAST_PEAK * BLAST_PEAK - d * d) / 1000
}

pub fn create_player_cursor() -> (r: Cursor)
    ensures
        r == (Cursor { pos: Point { x: 0, y: 0 }, life: GROUND_LIFE }),
{
    Cursor { pos: Point::zero(), life: GROUND_LIFE }
}

/// A live rocket at `pos` with the given heading.
pub fn create_rocket(pos: Point, heading: i64) -> (r: Rocket)
    requires
        CONE_START <= heading <= CONE_START + CONE_WIDTH,
    ensures
        r == (Rocket {
            pos,
            initial_pos: pos,
            heading,
            velocity: heading_velocity(heading as int),
            life: ROCKET_LIFE,
        }),
        r.wf(),
{
    let velocity = velocity_from_heading(heading);
    Rocket { pos, initial_pos: pos, heading, velocity, life: ROCKET_LIFE }
}

/// A fresh interceptor blast at `pos`.
pub fn create_interceptor(pos: Point) -> (r: Interceptor)
    ensures
        r == (Interceptor {
            pos,
            elapsed: INTERCEPTOR_PERIOD,
            radius: blast_radius(INTERCEPTOR_PERIOD as int) as i64,
        }),
        r.wf(),
{
    Interceptor { pos, elapsed: INTERCEPTOR_PERIOD, radius: radius_of(INTERCEPTOR_PERIOD) }
}

/// The region the cursor is kept in.
pub open spec fn in_cursor_bounds(p: Point, screen: Screen) -> bool {
    &&& -screen.half_width_spec() <= p.x <= screen.half_width_spec() - CURSOR_WIDTH
    &&& screen.ground_line_spec() + CURSOR_HEIGHT <= p.y <= screen.half_height_spec()
}

/// Lowest height of [`in_cursor_reach`]: one step below the region, or the
/// centre of the screen where that lies lower still.
pub open spec fn reach_floor(screen: Screen) -> int {
    let below = screen.ground_line_spec() + CURSOR_HEIGHT - CURSOR_STEP;
    if below <= 0 {
        below
    } else {
        0
    }
}

/// The cursor region widened by one step on every side, and down to the
/// centre of the screen, where the cursor starts.
pub open spec fn in_cursor_reach(p: Point, screen: Screen) -> bool {
    &&& -screen.half_width_spec() - CURSOR_STEP <= p.x <= screen.half_width_spec()
        - CURSOR_WIDTH + CURSOR_STEP
    &&& reach_floor(screen) <= p.y <= screen.half_height_spec() + CURSOR_STEP
}

/// The widened cursor region lies inside the arena.
pub proof fn lemma_reach_in_arena(p: Point, screen: Screen)
    requires
        screen.wf(),
        in_cursor_reach(p, screen),
    ensures
        in_arena(p),
{
}

/// Where the bounds check leaves the cursor: one corrective nudge for the
/// first bound found broken, else no change.
pub open spec fn cursor_clamped(p: Point, screen: Screen) -> Point {
    if p.x + CURSOR_WIDTH > screen.half_width_spec() {
        Point { x: (p.x - NUDGE) as i64, y: p.y }
    } else if p.x < -screen.half_width_spec() {
        Point { x: (p.x + NUDGE) as i64, y: p.y }
    } else if p.y > screen.half_height_spec() {
        Point { x: p.x, y: (p.y - NUDGE) as i64 }
    } else if p.y - CURSOR_HEIGHT < screen.ground_line_spec() {
        Point { x: p.x, y: (p.y + NUDGE) as i64 }
    } else {
        p
    }
}

/// Where one movement tick leaves the cursor: a nudge if any bound was
/// broken, else the displacement of the input axes.
pub open spec fn cursor_after(p: Point, screen: Screen, input: InputState) -> Point {
    if in_cursor_bounds(p, screen) {
        Point {
            x: (p.x + input.xaxis * CURSOR_STEP) as i64,
            y: (p.y + input.yaxis * CURSOR_STEP) as i64,
        }
    } else {
        cursor_clamped(p, screen)
    }
}

/// From anywhere in the widened region, one movement tick stays in it.
pub proof fn lemma_cursor_stays_in_reach(p: Point, screen: Screen, input: InputState)
    requires
        screen.wf(),
        input.wf(),
        in_cursor_reach(p, screen),
    ensures
        in_cursor_reach(cursor_after(p, screen, input), screen),
{
}

/// Nudges an out-of-bounds cursor one pixel inward; true when no bound was broken.
pub fn check_cursor_bound(actor: &mut Cursor, screen: &Screen) -> (r: bool)
    requires
        screen.wf(),
        in_arena(old(actor).pos),
    ensures
        r == in_cursor_bounds(old(actor).pos, *screen),
        final(actor).pos == cursor_clamped(old(actor).pos, *screen),
        final(actor).life == old(actor).life,
        in_arena(final(actor).pos),
{
    let screen_x = screen.half_width();
    let screen_y = screen.half_height();
    if actor.pos.x + CURSOR_WIDTH > screen_x {
        actor.pos.x = actor.pos.x - NUDGE;
        return false;
    } else if actor.pos.x < -screen_x {
        actor.pos.x = actor.pos.x + NUDGE;
        return false;
    }
    if actor.pos.y > screen_y {
        actor.pos.y = actor.pos.y - NUDGE;
        return false;
    } else if actor.pos.y - CURSOR_HEIGHT < screen.ground_line() {
        actor.pos.y = actor.pos.y + NUDGE;
        return false;
    }
    true
}

/// One movement tick of the cursor: the bounds check, then the input's
/// displacement only if the check found nothing to correct.
pub fn cursor_move(actor: &mut Cursor, screen: &Screen, input: &InputState)
    requires
        screen.wf(),
        input.wf(),
        in_arena(old(actor).pos),
    ensures
        final(actor).pos == cursor_after(old(actor).pos, *screen, *input),
        final(actor).life == old(actor).life,
        in_arena(final(actor).pos),
{
    if check_cursor_bound(actor, screen) {
        actor.pos.x = actor.pos.x + input.xaxis * CURSOR_STEP;
        actor.pos.y = actor.pos.y + input.yaxis * CURSOR_STEP;
    }
}

/// Moves a rocket by its per-tick velocity.
pub fn rocket_move(actor: &mut Rocket)
    requires
        old(actor).wf(),
        in_arena(old(actor).pos),
    ensures
        *final(actor) == (Rocket {
            pos: Point {
                x: (old(actor).pos.x + old(actor).velocity.x) as i64,
                y: (old(actor).pos.y + old(actor).velocity.y) as i64,
            },
            ..*old(actor)
        }),
        final(actor).pos.y <= old(actor).pos.y,
{
    proof {
        lemma_cone_falls(actor.heading as int);
    }
    actor.pos.x = actor.pos.x + actor.velocity.x;
    actor.pos.y = actor.pos.y + actor.velocity.y;
}

/// Ages a blast by one step and recomputes its radius from what is left.
pub fn interceptor_elapse(actor: &mut Interceptor)
    requires
        old(actor).wf(),
        old(actor).elapsed > 0,
    ensures
        final(actor).pos == old(actor).pos,
        final(actor).elapsed == old(actor).elapsed - 1,
        final(actor).radius == blast_radius(final(actor).elapsed as int),
        final(actor).wf(),
{
    actor.elapsed = actor.elapsed - 1;
    actor.radius = radius_of(actor.elapsed);
}

} // verus!
