use vstd::prelude::*;
use crate::geometry::{
    Point, Screen, in_arena, heading_velocity, UNITS_PER_PIXEL, CONE_START, CONE_WIDTH,
};
use crate::rng::{Rng, pcg_range, pcg_seeded};
use crate::clock::{TickClock, NANOS_PER_SECOND, TICKS_PER_SECOND};
use crate::actors::{
    Cursor, InputState, Rocket, Interceptor, create_player_cursor, create_rocket,
    create_interceptor, cursor_move, cursor_after, in_cursor_reach, ROCKET_LIFE, GROUND_LIFE,
    INTERCEPTOR_PERIOD,
};
use crate::actors::{lemma_cursor_stays_in_reach, lemma_reach_in_arena};
use crate::passes::{
    blast_at, border_checked, explosions, ground_hits, life_after, intercepted, kills,
    score_after, moved, aged, rocket_alive, blast_alive, explosion, move_rockets,
    age_interceptors, check_borders, check_interceptions, prune_rockets, prune_interceptors,
};

verus! {

/// Ticks between rocket waves (4 seconds).
pub const ROCKET_DELAY: i64 = 240;

/// Ticks between two shots (half a second).
pub const SHOT_TIMEOUT: i64 = 30;

/// Ticks per level (15 seconds).
pub const LEVEL_TIME: i64 = 900;

/// The highest level; waves draw up to `2 + level` rockets from a `u32` range.
pub const MAX_LEVEL: u32 = 4_294_967_292;

/// Seed of the generator of a new session.
pub const SEED: u64 = 1337;

/// Whether the session still simulates.
#[derive(Clone, Copy, Debug, PartialEq, Eq, Structural)]
pub enum Status {
    Running,
    GameOver,
}

/// The whole simulation context, owned by the game loop.
#[derive(Debug)]
pub struct GameState {
    pub player: Cursor,
    pub screen: Screen,
    pub input: InputState,
    pub rockets: Vec<Rocket>,
    pub interceptors: Vec<Interceptor>,
    pub shot_timeout: i64,
    pub rocket_delay: i64,
    pub rng: Rng,
    pub level_timer: i64,
    pub level: u32,
    pub score: u64,
}

/// The mathematical value of a [`GameState`].
pub struct GameView {
    pub player: Cursor,
    pub screen: Screen,
    pub input: InputState,
    pub rockets: Seq<Rocket>,
    pub interceptors: Seq<Interceptor>,
    pub shot_timeout: i64,
    pub rocket_delay: i64,
    pub rng: (u64, u64),
    pub level_timer: i64,
    pub level: u32,
    pub score: u64,
}

impl View for GameState {
    type V = GameView;

    open spec fn view(&self) -> GameView {
        GameView {
            player: self.player,
            screen: self.screen,
            input: self.input,
            rockets: self.rockets@,
            interceptors: self.interceptors@,
            shot_timeout: self.shot_timeout,
            rocket_delay: self.rocket_delay,
            rng: self.rng.state,
            level_timer: self.level_timer,
            level: self.level,
            score: self.score,
        }
    }
}

/// A live rocket inside the screen's sides and between the ground and the top.
pub open spec fn rocket_in_play(r: Rocket, screen: Screen) -> bool {
    &&& r.wf()
    &&& r.life == ROCKET_LIFE
    &&& -screen.half_width_spec() <= r.pos.x <= screen.half_width_spec()
    &&& screen.ground_line_spec() <= r.pos.y <= screen.half_height_spec()
}

/// A blast with steps left, inside the arena.
pub open spec fn blast_in_play(i: Interceptor) -> bool {
    &&& i.wf()
    &&& i.elapsed > 0
    &&& in_arena(i.pos)
}

impl GameView {
    /// The state between two ticks.
    pub open spec fn wf(self) -> bool {
        &&& self.screen.wf()
        &&& self.input.wf()
        &&& in_cursor_reach(self.player.pos, self.screen)
        &&& self.shot_timeout <= SHOT_TIMEOUT
        &&& self.rng.1 % 2 == 1
        &&& 0 < self.rocket_delay <= ROCKET_DELAY
        &&& 0 < self.level_timer <= LEVEL_TIME
        &&& 1 <= self.level <= MAX_LEVEL
        &&& forall|k: int|
            0 <= k < self.rockets.len() ==> rocket_in_play(#[trigger] self.rockets[k], self.screen)
        &&& forall|k: int|
            0 <= k < self.interceptors.len() ==> blast_in_play(#[trigger] self.interceptors[k])
    }

    pub open spec fn is_over(self) -> bool {
        self.player.life <= 0
    }
}

/// A new session on the given screen, seeded with `seed`.
pub open spec fn initial(screen: Screen, seed: u64) -> GameView {
    GameView {
        player: Cursor { pos: Point { x: 0, y: 0 }, life: GROUND_LIFE },
        screen,
        input: InputState { xaxis: 0, yaxis: 0, fire: false },
        rockets: Seq::empty(),
        interceptors: Seq::empty(),
        shot_timeout: 0,
        rocket_delay: ROCKET_DELAY,
        rng: pcg_seeded(seed),
        level_timer: LEVEL_TIME,
        level: 1,
        score: 0,
    }
}

/// The rocket spawned from a horizontal draw `xd` and a heading draw `hd`.
pub open spec fn spawned_rocket(xd: u32, hd: u32, screen: Screen) -> Rocket {
    let pos = Point {
        x: (xd - screen.half_width_spec()) as i64,
        y: screen.half_height_spec() as i64,
    };
    Rocket {
        pos,
        initial_pos: pos,
        heading: (CONE_START + hd) as i64,
        velocity: heading_velocity(CONE_START + hd),
        life: ROCKET_LIFE,
    }
}

/// The first `n` rockets of a wave drawn from generator state `st`, and the
/// state left; each rocket draws its column, then its heading.
pub open spec fn wave(st: (u64, u64), n: nat, screen: Screen) -> (Seq<Rocket>, (u64, u64))
    decreases n,
{
    if n == 0 {
        (Seq::empty(), st)
    } else {
        let (prev, st1) = wave(st, (n - 1) as nat, screen);
        let (xd, st2) = pcg_range(st1, 0, (screen.width * UNITS_PER_PIXEL) as u32);
        let (hd, st3) = pcg_range(st2, 0, CONE_WIDTH as u32);
        (prev.push(spawned_rocket(xd, hd, screen)), st3)
    }
}

/// A rocket of a new wave: in play, at the top of the screen.
pub open spec fn fresh_rocket(r: Rocket, screen: Screen) -> bool {
    &&& rocket_in_play(r, screen)
    &&& r.pos.y == screen.half_height_spec()
    &&& r.pos.x < screen.half_width_spec()
    &&& r.heading < CONE_START + CONE_WIDTH
}

/// The rocket that a column draw `xd` and a heading draw `hd` give.
pub fn rocket_from_draws(xd: u32, hd: u32, screen: &Screen) -> (r: Rocket)
    requires
        screen.wf(),
        xd < screen.width * UNITS_PER_PIXEL,
        hd < CONE_WIDTH,
    ensures
        r == spawned_rocket(xd, hd, *screen),
        fresh_rocket(r, *screen),
{
    let pos = Point::new(xd as i64 - screen.half_width(), screen.half_height());
    create_rocket(pos, CONE_START + hd as i64)
}

/// Draws a wave of `count` rockets, each at a uniform column at the top of the
/// screen with a uniform heading in the downward cone.
pub fn spawn_rocket_wave(rng: &mut Rng, count: u32, screen: &Screen) -> (r: Vec<Rocket>)
    requires
        screen.wf(),
        old(rng).wf(),
    ensures
        (r@, final(rng).state) == wave(old(rng).state, count as nat, *screen),
        final(rng).wf(),
        r@.len() == count,
        forall|k: int| 0 <= k < r@.len() ==> fresh_rocket(#[trigger] r@[k], *screen),
{
    let ghost st0 = rng.state;
    let mut out: Vec<Rocket> = Vec::new();
    let span = (screen.width * UNITS_PER_PIXEL) as u32;
    for i in 0..count
        invariant
            screen.wf(),
            span == screen.width * UNITS_PER_PIXEL,
            out@ == wave(st0, i as nat, *screen).0,
            rng.state == wave(st0, i as nat, *screen).1,
            out@.len() == i,
            rng.wf(),
            forall|k: int| 0 <= k < out@.len() ==> fresh_rocket(#[trigger] out@[k], *screen),
    {
        let xd = rng.range(0, span);
        let hd = rng.range(0, CONE_WIDTH as u32);
        let r = rocket_from_draws(xd, hd, screen);
        let ghost prev = out@;
        out.push(r);
        assert(out@ == prev.push(r));
        assert forall|k: int| 0 <= k < out@.len() implies fresh_rocket(#[trigger] out@[k], *screen) by {
            if k < prev.len() {
                assert(out@[k] == prev[k]);
            }
        }
    }
    proof {
        assert((out@, rng.state) == wave(st0, count as nat, *screen));
    }
    out
}

pub open spec fn level_advanced(v: GameView) -> GameView {
    if v.level_timer - 1 <= 0 {
        GameView {
            level: if v.level < MAX_LEVEL {
                (v.level + 1) as u32
            } else {
                v.level
            },
            level_timer: LEVEL_TIME,
            ..v
        }
    } else {
        GameView { level_timer: (v.level_timer - 1) as i64, ..v }
    }
}

pub open spec fn cursor_stepped(v: GameView) -> GameView {
    GameView {
        player: Cursor { pos: cursor_after(v.player.pos, v.screen, v.input), ..v.player },
        ..v
    }
}

pub open spec fn fired(v: GameView) -> GameView {
    GameView {
        shot_timeout: SHOT_TIMEOUT,
        interceptors: v.interceptors.push(blast_at(v.player.pos)),
        ..v
    }
}

/// The shot timer counts down every tick, below zero too (held at the
/// smallest `i64`); a shot goes off when fire is held and the timer is at or
/// below zero.
pub open spec fn shot_handled(v: GameView) -> GameView {
    let t = if v.shot_timeout > i64::MIN {
        v.shot_timeout - 1
    } else {
        v.shot_timeout as int
    };
    if v.input.fire && t <= 0 {
        fired(v)
    } else {
        GameView { shot_timeout: t as i64, ..v }
    }
}

/// The wave size is drawn every tick; a wave comes when the delay runs out.
pub open spec fn wave_spawned(v: GameView) -> GameView {
    let (n, st) = pcg_range(v.rng, (1 + v.level) as u32, (3 + v.level) as u32);
    if v.rocket_delay - 1 <= 0 {
        let (w, st2) = wave(st, n as nat, v.screen);
        GameView { rockets: v.rockets + w, rng: st2, rocket_delay: ROCKET_DELAY, ..v }
    } else {
        GameView { rng: st, rocket_delay: (v.rocket_delay - 1) as i64, ..v }
    }
}

pub open spec fn actors_moved(v: GameView) -> GameView {
    GameView {
        rockets: v.rockets.map_values(|r: Rocket| moved(r)),
        interceptors: v.interceptors.map_values(|i: Interceptor| aged(i)),
        ..v
    }
}

pub open spec fn borders_checked(v: GameView) -> GameView {
    GameView {
        rockets: v.rockets.map_values(|r: Rocket| border_checked(r, v.screen)),
        interceptors: v.interceptors + explosions(v.rockets, v.screen),
        player: Cursor {
            life: life_after(v.player.life, ground_hits(v.rockets, v.screen)),
            ..v.player
        },
        ..v
    }
}

pub open spec fn interceptions_checked(v: GameView) -> GameView {
    GameView {
        rockets: v.rockets.map_values(|r: Rocket| intercepted(r, v.interceptors)),
        score: score_after(v.score, kills(v.rockets, v.interceptors)),
        ..v
    }
}

pub open spec fn pruned(v: GameView) -> GameView {
    GameView {
        rockets: v.rockets.filter(|r: Rocket| rocket_alive(r)),
        interceptors: v.interceptors.filter(|i: Interceptor| blast_alive(i)),
        ..v
    }
}

/// One tick: level timer, cursor, shot, spawn, kinematics, border pass,
/// interception pass, pruning. A finished session does not change.
pub open spec fn stepped(v: GameView) -> GameView {
    if v.is_over() {
        v
    } else {
        pruned(
            interceptions_checked(
                borders_checked(
                    actors_moved(wave_spawned(shot_handled(cursor_stepped(level_advanced(v))))),
                ),
            ),
        )
    }
}

/// The state after `n` ticks.
pub open spec fn run_ticks(v: GameView, n: nat) -> GameView
    decreases n,
{
    if n == 0 {
        v
    } else {
        stepped(run_ticks(v, (n - 1) as nat))
    }
}

/// Every element kept by a filter has each property that the kept elements of
/// the source sequence have.
pub proof fn lemma_filter_keeps<A>(s: Seq<A>, pred: spec_fn(A) -> bool, inv: spec_fn(A) -> bool)
    requires
        forall|j: int| 0 <= j < s.len() && pred(s[j]) ==> inv(#[trigger] s[j]),
    ensures
        forall|i: int| 0 <= i < s.filter(pred).len() ==> inv(#[trigger] s.filter(pred)[i]),
    decreases s.len(),
{
    reveal(Seq::filter);
    if s.len() > 0 {
        let d = s.drop_last();
        assert forall|j: int| 0 <= j < d.len() && pred(d[j]) implies inv(#[trigger] d[j]) by {
            assert(d[j] == s[j]);
        }
        lemma_filter_keeps(d, pred, inv);
        assert forall|i: int| 0 <= i < s.filter(pred).len() implies inv(
            #[trigger] s.filter(pred)[i],
        ) by {
            if pred(s.last()) {
                assert(s.filter(pred) == d.filter(pred).push(s.last()));
                if i < d.filter(pred).len() {
                    assert(s.filter(pred)[i] == d.filter(pred)[i]);
                } else {
                    assert(s.last() == s[s.len() - 1]);
                }
            }
        }
    }
}

/// Every blast that the border pass adds is well formed and inside the arena.
proof fn lemma_explosions_in_arena(rs: Seq<Rocket>, screen: Screen)
    requires
        forall|k: int| 0 <= k < rs.len() ==> in_arena(#[trigger] rs[k].pos),
    ensures
        forall|k: int|
            0 <= k < explosions(rs, screen).len() ==> {
                let b = #[trigger] explosions(rs, screen)[k];
                b.wf() && in_arena(b.pos)
            },
    decreases rs.len(),
{
    crate::actors::lemma_blast_radius_range(INTERCEPTOR_PERIOD as int);
    if rs.len() > 0 {
        let d = rs.drop_last();
        let f = |r: Rocket| explosion(r, screen);
        lemma_explosions_in_arena(d, screen);
        rs.lemma_filter_map_take_succ(f, rs.len() - 1);
        assert(rs.take(rs.len() - 1) =~= d);
        assert(rs.take(rs.len() as int) =~= rs);
        let last = rs[rs.len() - 1];
        let extra = match f(last) {
            Option::Some(s) => seq![s],
            Option::None => Seq::empty(),
        };
        assert(explosions(rs, screen) =~= explosions(d, screen) + extra);
        assert forall|k: int| 0 <= k < explosions(rs, screen).len() implies {
            let b = #[trigger] explosions(rs, screen)[k];
            b.wf() && in_arena(b.pos)
        } by {
            if k < explosions(d, screen).len() {
                assert(explosions(rs, screen)[k] == explosions(d, screen)[k]);
            } else {
                assert(explosions(rs, screen)[k] == blast_at(last.pos));
            }
        }
    } else {
        assert(explosions(rs, screen) =~= Seq::<Interceptor>::empty()) by {
            reveal(Seq::filter_map);
        }
    }
}

/// Before the kinematics: every actor in play.
pub open spec fn ready_to_move(v: GameView) -> bool {
    &&& v.screen.wf()
    &&& forall|k: int| 0 <= k < v.rockets.len() ==> rocket_in_play(#[trigger] v.rockets[k], v.screen)
    &&& forall|k: int| 0 <= k < v.interceptors.len() ==> blast_in_play(#[trigger] v.interceptors[k])
}

/// After the kinematics: live rockets no higher than the top, all inside the arena.
pub open spec fn moved_ok(v: GameView) -> bool {
    &&& v.screen.wf()
    &&& forall|k: int|
        0 <= k < v.rockets.len() ==> {
            let r = #[trigger] v.rockets[k];
            r.wf() && r.life == ROCKET_LIFE && in_arena(r.pos) && r.pos.y
                <= v.screen.half_height_spec()
        }
    &&& forall|k: int|
        0 <= k < v.interceptors.len() ==> {
            let b = #[trigger] v.interceptors[k];
            b.wf() && in_arena(b.pos)
        }
}

/// During the collision passes: every rocket still alive is in play.
pub open spec fn collided_ok(v: GameView) -> bool {
    &&& v.screen.wf()
    &&& forall|k: int|
        0 <= k < v.rockets.len() ==> {
            let r = #[trigger] v.rockets[k];
            &&& r.wf()
            &&& in_arena(r.pos)
            &&& r.life > 0 ==> rocket_in_play(r, v.screen)
        }
    &&& forall|k: int|
        0 <= k < v.interceptors.len() ==> {
            let b = #[trigger] v.interceptors[k];
            b.wf() && in_arena(b.pos)
        }
}

impl GameState {
    /// A new session on `screen` with the fixed seed.
    pub fn new(screen: Screen) -> (r: GameState)
        requires
            screen.wf(),
        ensures
            r@ == initial(screen, SEED),
            r@.wf(),
    {
        GameState {
            player: create_player_cursor(),
            screen,
            input: InputState::default(),
            rockets: Vec::new(),
            interceptors: Vec::new(),
            shot_timeout: 0,
            rocket_delay: ROCKET_DELAY,
            rng: Rng::new(SEED),
            level_timer: LEVEL_TIME,
            level: 1,
            score: 0,
        }
    }

    /// Resets the shot timeout and adds a fresh blast at the cursor.
    pub fn fire_interceptor(&mut self)
        ensures
            final(self)@ == fired(old(self)@),
    {
        self.shot_timeout = SHOT_TIMEOUT;
        let shot = create_interceptor(self.player.pos);
        self.interceptors.push(shot);
    }

    /// Restarts the wave delay and draws a wave of `num` rockets.
    pub fn create_rockets(&mut self, num: u32) -> (r: Vec<Rocket>)
        requires
            old(self).screen.wf(),
            old(self).rng.wf(),
        ensures
            r@ == wave(old(self)@.rng, num as nat, old(self).screen).0,
            final(self).rng.wf(),
            final(self)@ == (GameView {
                rng: wave(old(self)@.rng, num as nat, old(self).screen).1,
                rocket_delay: ROCKET_DELAY,
                ..old(self)@
            }),
            forall|k: int| 0 <= k < r@.len() ==> fresh_rocket(#[trigger] r@[k], old(self).screen),
    {
        self.rocket_delay = ROCKET_DELAY;
        spawn_rocket_wave(&mut self.rng, num, &self.screen)
    }

    pub fn status(&self) -> (r: Status)
        ensures
            r == (if self@.is_over() {
                Status::GameOver
            } else {
                Status::Running
            }),
    {
        if self.player.life <= 0 {
            Status::GameOver
        } else {
            Status::Running
        }
    }

    fn advance_level(&mut self)
        requires
            0 < old(self).level_timer,
        ensures
            final(self)@ == level_advanced(old(self)@),
    {
        if self.level_timer - 1 <= 0 {
            if self.level < MAX_LEVEL {
                self.level = self.level + 1;
            }
            self.level_timer = LEVEL_TIME;
        } else {
            self.level_timer = self.level_timer - 1;
        }
    }

    fn update_cursor(&mut self)
        requires
            old(self).screen.wf(),
            old(self).input.wf(),
            in_cursor_reach(old(self).player.pos, old(self).screen),
        ensures
            final(self)@ == cursor_stepped(old(self)@),
            in_cursor_reach(final(self).player.pos, final(self).screen),
    {
        proof {
            lemma_reach_in_arena(self.player.pos, self.screen);
            lemma_cursor_stays_in_reach(self.player.pos, self.screen, self.input);
        }
        cursor_move(&mut self.player, &self.screen, &self.input);
    }

    fn handle_shot(&mut self)
        requires
            old(self)@.wf(),
        ensures
            final(self)@ == shot_handled(old(self)@),
    {
        if self.shot_timeout > i64::MIN {
            self.shot_timeout = self.shot_timeout - 1;
        }
        if self.input.fire && self.shot_timeout <= 0 {
            self.fire_interceptor();
        }
    }

    fn handle_spawning(&mut self)
        requires
            old(self).screen.wf(),
            1 <= old(self).level <= MAX_LEVEL,
            0 < old(self).rocket_delay,
            old(self).rng.wf(),
        ensures
            final(self)@ == wave_spawned(old(self)@),
            final(self).rng.wf(),
            1 + old(self).level <= pcg_range(
                old(self).rng.state,
                (1 + old(self).level) as u32,
                (3 + old(self).level) as u32,
            ).0 < 3 + old(self).level,
            forall|k: int|
                old(self)@.rockets.len() <= k < final(self)@.rockets.len() ==> fresh_rocket(
                    #[trigger] final(self)@.rockets[k],
                    old(self).screen,
                ),
    {
        self.rocket_delay = self.rocket_delay - 1;
        let num = self.rng.range(1 + self.level, 3 + self.level);
        if self.rocket_delay <= 0 {
            let ghost before = self.rockets@;
            let mut wave = self.create_rockets(num);
            let ghost w = wave@;
            self.rockets.append(&mut wave);
            assert forall|k: int|
                before.len() <= k < self.rockets@.len() implies fresh_rocket(
                #[trigger] self.rockets@[k],
                self.screen,
            ) by {
                assert(self.rockets@[k] == w[k - before.len()]);
            }
        }
    }

    fn move_actors(&mut self)
        requires
            ready_to_move(old(self)@),
        ensures
            final(self)@ == actors_moved(old(self)@),
            moved_ok(final(self)@),
    {
        let ghost v = self@;
        assert forall|k: int| 0 <= k < self.interceptors@.len() implies (
        #[trigger] self.interceptors@[k]).wf() && self.interceptors@[k].elapsed > 0 by {
            assert(blast_in_play(v.interceptors[k]));
        }
        assert forall|k: int| 0 <= k < self.rockets@.len() implies (
        #[trigger] self.rockets@[k]).wf() && in_arena(self.rockets@[k].pos) by {
            assert(rocket_in_play(v.rockets[k], v.screen));
        }
        move_rockets(&mut self.rockets);
        age_interceptors(&mut self.interceptors);
        assert forall|k: int| 0 <= k < self@.rockets.len() implies {
            let r = #[trigger] self@.rockets[k];
            r.wf() && r.life == ROCKET_LIFE && in_arena(r.pos) && r.pos.y
                <= v.screen.half_height_spec()
        } by {
            crate::geometry::lemma_cone_falls(v.rockets[k].heading as int);
        }
        assert forall|k: int| 0 <= k < self@.interceptors.len() implies {
            let b = #[trigger] self@.interceptors[k];
            b.wf() && in_arena(b.pos)
        } by {
            crate::actors::lemma_blast_radius_range(v.interceptors[k].elapsed - 1);
        }
    }

    /// The border pass over all rockets.
    pub fn handle_border_collisions(&mut self)
        requires
            moved_ok(old(self)@),
        ensures
            final(self)@ == borders_checked(old(self)@),
            collided_ok(final(self)@),
    {
        let ghost v = self@;
        check_borders(&mut self.rockets, &mut self.interceptors, &mut self.player.life, &self.screen);
        proof {
            lemma_explosions_in_arena(v.rockets, v.screen);
        }
        assert forall|k: int| 0 <= k < self@.interceptors.len() implies {
            let b = #[trigger] self@.interceptors[k];
            b.wf() && in_arena(b.pos)
        } by {
            if k < v.interceptors.len() {
                assert(self@.interceptors[k] == v.interceptors[k]);
            } else {
                assert(self@.interceptors[k] == explosions(v.rockets, v.screen)[k
                    - v.interceptors.len()]);
            }
        }
        assert forall|k: int| 0 <= k < self@.rockets.len() implies {
            let r = #[trigger] self@.rockets[k];
            &&& r.wf()
            &&& in_arena(r.pos)
            &&& r.life > 0 ==> rocket_in_play(r, v.screen)
        } by {
            assert(v.rockets[k].wf());
        }
    }

    /// The interception pass of every rocket against every blast.
    pub fn handle_interceptions(&mut self)
        requires
            collided_ok(old(self)@),
        ensures
            final(self)@ == interceptions_checked(old(self)@),
            collided_ok(final(self)@),
    {
        let ghost v = self@;
        check_interceptions(&mut self.rockets, &self.interceptors, &mut self.score);
        assert forall|k: int| 0 <= k < self@.rockets.len() implies {
            let r = #[trigger] self@.rockets[k];
            &&& r.wf()
            &&& in_arena(r.pos)
            &&& r.life > 0 ==> rocket_in_play(r, v.screen)
        } by {
            assert(v.rockets[k].wf());
        }
    }

    fn prune(&mut self)
        requires
            collided_ok(old(self)@),
        ensures
            final(self)@ == pruned(old(self)@),
            ready_to_move(final(self)@),
    {
        let ghost v = self@;
        self.rockets = prune_rockets(&self.rockets);
        self.interceptors = prune_interceptors(&self.interceptors);
        proof {
            lemma_filter_keeps(
                v.rockets,
                |r: Rocket| rocket_alive(r),
                |r: Rocket| rocket_in_play(r, v.screen),
            );
            lemma_filter_keeps(
                v.interceptors,
                |i: Interceptor| blast_alive(i),
                |i: Interceptor| blast_in_play(i),
            );
        }
    }

    /// Runs one fixed tick of the simulation.
    pub fn update(&mut self)
        requires
            old(self)@.wf(),
        ensures
            final(self)@ == stepped(old(self)@),
            final(self)@.wf(),
            !old(self)@.is_over() ==> {
                let l = level_advanced(old(self)@).level;
                1 + l <= pcg_range(old(self)@.rng, (1 + l) as u32, (3 + l) as u32).0 < 3 + l
            },
    {
        if self.player.life <= 0 {
            return;
        }
        self.advance_level();
        self.update_cursor();
        self.handle_shot();
        let ghost v3 = self@;
        self.handle_spawning();
        assert forall|k: int| 0 <= k < self@.rockets.len() implies rocket_in_play(
            #[trigger] self@.rockets[k],
            self.screen,
        ) by {
            if k < v3.rockets.len() {
                assert(self@.rockets[k] == v3.rockets[k]);
            }
        }
        self.move_actors();
        self.handle_border_collisions();
        self.handle_interceptions();
        self.prune();
    }

    /// One rendered frame: adds the frame's wall time to the clock and runs
    /// every whole tick that is due, zero or more.
    pub fn run_frame(&mut self, clock: &mut TickClock, elapsed_nanos: u64) -> (ticks: u64)
        requires
            old(self)@.wf(),
            old(clock).wf(),
        ensures
            ticks * NANOS_PER_SECOND + final(clock).residue == old(clock).residue + elapsed_nanos
                * TICKS_PER_SECOND,
            final(clock).wf(),
            final(self)@ == run_ticks(old(self)@, ticks as nat),
            final(self)@.wf(),
    {
        let ticks = clock.advance(elapsed_nanos);
        let ghost v0 = self@;
        let mut i: u64 = 0;
        while i < ticks
            invariant
                i <= ticks,
                self@ == run_ticks(v0, i as nat),
                self@.wf(),
            decreases ticks - i,
        {
            self.update();
            i = i + 1;
        }
        ticks
    }
}

} // verus!
