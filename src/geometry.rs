use vstd::prelude::*;

verus! {

/// World units per screen pixel.
pub const UNITS_PER_PIXEL: i64 = 1200;

/// Largest accepted screen side, in pixels.
pub const MAX_SCREEN_PIXELS: i64 = 100_000;

/// Every position in play stays within this distance of the origin on each axis.
pub const ARENA: i64 = 120_000_000;

/// Height of the defended ground strip (150 pixels).
pub const GROUND_HEIGHT: i64 = 180_000;

/// Cursor width (20 pixels).
pub const CURSOR_WIDTH: i64 = 24_000;

/// Cursor height (5 pixels).
pub const CURSOR_HEIGHT: i64 = 6_000;

/// Cursor displacement per tick at full axis (600 pixels per second).
pub const CURSOR_STEP: i64 = 12_000;

/// Corrective step applied to an out-of-bounds cursor (one pixel).
pub const NUDGE: i64 = 1200;

/// Rocket speed per tick (80 pixels per second).
pub const ROCKET_SPEED: i64 = 1600;

/// Centidegrees in half a turn.
pub const HALF_TURN: i64 = 18000;

/// Centidegrees in a quarter turn.
pub const QUARTER_TURN: i64 = 9000;

/// Smallest rocket heading, 0.75 of a half turn.
pub const CONE_START: i64 = 13500;

/// Width of the cone of rocket headings, half of a half turn.
pub const CONE_WIDTH: i64 = 9000;

/// A point or displacement in world units; `y` grows upward.
#[derive(Clone, Copy, Debug, PartialEq, Eq, Structural)]
pub struct Point {
    pub x: i64,
    pub y: i64,
}

pub open spec fn in_arena(p: Point) -> bool {
    -ARENA <= p.x <= ARENA && -ARENA <= p.y <= ARENA
}

impl Point {
    pub fn new(x: i64, y: i64) -> (r: Point)
        ensures
            r == (Point { x, y }),
    {
        Point { x, y }
    }

    pub fn zero() -> (r: Point)
        ensures
            r == (Point { x: 0, y: 0 }),
    {
        Point { x: 0, y: 0 }
    }
}

/// The screen, in pixels.
#[derive(Clone, Copy, Debug, PartialEq, Eq, Structural)]
pub struct Screen {
    pub width: i64,
    pub height: i64,
}

impl Screen {
    /// Large enough to hold the cursor's region (on a smaller screen the bounds
    /// check walks the cursor away for ever); at most `MAX_SCREEN_PIXELS` on
    /// each side.
    pub open spec fn wf(self) -> bool {
        CURSOR_WIDTH <= self.width * UNITS_PER_PIXEL
        && self.width <= MAX_SCREEN_PIXELS
        && GROUND_HEIGHT + CURSOR_HEIGHT <= self.height * UNITS_PER_PIXEL
        && self.height <= MAX_SCREEN_PIXELS
    }

    pub open spec fn half_width_spec(self) -> int {
        self.width * UNITS_PER_PIXEL / 2
    }

    pub open spec fn half_height_spec(self) -> int {
        self.height * UNITS_PER_PIXEL / 2
    }

    /// Rockets below this height have struck the ground.
    pub open spec fn ground_line_spec(self) -> int {
        GROUND_HEIGHT - self.half_height_spec()
    }

    pub fn new(width: i64, height: i64) -> (r: Screen)
        ensures
            r == (Screen { width, height }),
    {
        Screen { width, height }
    }

    pub fn is_valid(&self) -> (r: bool)
        ensures
            r == self.wf(),
    {
        0 < self.width && self.width <= MAX_SCREEN_PIXELS && 0 < self.height && self.height
            <= MAX_SCREEN_PIXELS && CURSOR_WIDTH <= self.width * UNITS_PER_PIXEL && GROUND_HEIGHT
            + CURSOR_HEIGHT <= self.height * UNITS_PER_PIXEL
    }

    pub fn half_width(&self) -> (r: i64)
        requires
            self.wf(),
        ensures
            r == self.half_width_spec(),
            0 < r <= ARENA / 2,
    {
        self.width * 600
    }

    pub fn half_height(&self) -> (r: i64)
        requires
            self.wf(),
        ensures
            r == self.half_height_spec(),
            0 < r <= ARENA / 2,
    {
        self.height * 600
    }

    pub fn ground_line(&self) -> (r: i64)
        requires
            self.wf(),
        ensures
            r == self.ground_line_spec(),
    {
        GROUND_HEIGHT - self.half_height()
    }
}

/// Bhaskara I's rational approximation of the sine of `c` centidegrees, for
/// `0 <= c <= HALF_TURN`, scaled by `scale`.
pub open spec fn bhaskara(c: int, scale: int) -> int {
    let p = c * (HALF_TURN - c);
    scale * 4 * p / (405_000_000 - p)
}

/// Sine of `c` centidegrees, `0 <= c < 2 * HALF_TURN`, scaled by `scale`.
pub open spec fn sine(c: int, scale: int) -> int {
    if c <= HALF_TURN {
        bhaskara(c, scale)
    } else {
        -bhaskara(c - HALF_TURN, scale)
    }
}

/// Cosine of `c` centidegrees, `0 <= c < 2 * HALF_TURN`, scaled by `scale`.
pub open spec fn cosine(c: int, scale: int) -> int {
    if c + QUARTER_TURN < 2 * HALF_TURN {
        sine(c + QUARTER_TURN, scale)
    } else {
        sine(c + QUARTER_TURN - 2 * HALF_TURN, scale)
    }
}

/// Per-tick displacement of a rocket with the given heading; heading 0
/// points straight up and a half turn straight down.
pub open spec fn heading_velocity(heading: int) -> Point {
    Point { x: sine(heading, ROCKET_SPEED as int) as i64, y: cosine(heading, ROCKET_SPEED as int) as i64 }
}

proof fn lemma_bhaskara_bounds(c: int, scale: int)
    requires
        0 <= c <= HALF_TURN,
        0 <= scale <= ROCKET_SPEED,
    ensures
        0 <= bhaskara(c, scale) <= scale,
{
    let p = c * (HALF_TURN - c);
    assert(0 <= p <= 81_000_000) by (nonlinear_arith)
        requires
            p == c * (HALF_TURN - c),
            0 <= c <= HALF_TURN,
    ;
    let d = 405_000_000 - p;
    assert(0 <= scale * 4 * p) by (nonlinear_arith)
        requires
            0 <= p,
            0 <= scale,
    ;
    assert(scale * 4 * p <= scale * d) by (nonlinear_arith)
        requires
            d == 405_000_000 - p,
            0 <= p <= 81_000_000,
            0 <= scale,
    ;
    assert(scale * d / d == scale) by (nonlinear_arith)
        requires
            d > 0,
    ;
    assert((scale * 4 * p) / d <= scale * d / d) by (nonlinear_arith)
        requires
            d > 0,
            scale * 4 * p <= scale * d,
    ;
}

fn bhaskara_exec(c: i64, scale: i64) -> (r: i64)
    requires
        0 <= c <= HALF_TURN,
        0 <= scale <= ROCKET_SPEED,
    ensures
        r == bhaskara(c as int, scale as int),
        0 <= r <= scale,
{
    proof {
        lemma_bhaskara_bounds(c as int, scale as int);
    }
    assert(0 <= c * (HALF_TURN - c) <= 81_000_000) by (nonlinear_arith)
        requires
            0 <= c <= HALF_TURN,
    ;
    let p: i64 = c * (HALF_TURN - c);
    assert(scale * 4 * p <= 1600 * 4 * 81_000_000) by (nonlinear_arith)
        requires
            0 <= p <= 81_000_000,
            0 <= scale <= 1600,
    ;
    scale * 4 * p / (405_000_000 - p)
}

fn sine_exec(c: i64, scale: i64) -> (r: i64)
    requires
        0 <= c < 2 * HALF_TURN,
        0 <= scale <= ROCKET_SPEED,
    ensures
        r == sine(c as int, scale as int),
        -scale <= r <= scale,
{
    if c <= HALF_TURN {
        bhaskara_exec(c, scale)
    } else {
        -bhaskara_exec(c - HALF_TURN, scale)
    }
}

/// Per-tick displacement of a rocket with the given heading.
pub fn velocity_from_heading(heading: i64) -> (r: Point)
    requires
        0 <= heading < 2 * HALF_TURN,
    ensures
        r == heading_velocity(heading as int),
        -ROCKET_SPEED <= r.x <= ROCKET_SPEED,
        -ROCKET_SPEED <= r.y <= ROCKET_SPEED,
{
    let vx = sine_exec(heading, ROCKET_SPEED);
    let c = if heading + QUARTER_TURN < 2 * HALF_TURN {
        heading + QUARTER_TURN
    } else {
        heading + QUARTER_TURN - 2 * HALF_TURN
    };
    let vy = sine_exec(c, ROCKET_SPEED);
    Point { x: vx, y: vy }
}

/// Headings in the downward cone never move a rocket upward.
pub proof fn lemma_cone_falls(heading: int)
    requires
        CONE_START <= heading <= CONE_START + CONE_WIDTH,
    ensures
        heading_velocity(heading).y <= 0,
        -ROCKET_SPEED <= heading_velocity(heading).x <= ROCKET_SPEED,
        -ROCKET_SPEED <= heading_velocity(heading).y,
{
    lemma_bhaskara_bounds(heading - QUARTER_TURN, ROCKET_SPEED as int);
    if heading <= HALF_TURN {
        lemma_bhaskara_bounds(heading, ROCKET_SPEED as int);
    } else {
        lemma_bhaskara_bounds(heading - HALF_TURN, ROCKET_SPEED as int);
    }
}

} // verus!
