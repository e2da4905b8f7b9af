use vstd::prelude::*;
use crate::geometry::{Point, Screen, in_arena, ARENA};
use crate::actors::{
    Rocket, Interceptor, create_interceptor, rocket_move, interceptor_elapse, blast_radius,
    lemma_blast_radius_range,
    INTERCEPTOR_PERIOD,
};

verus! {

/// Score bonus for each rocket brought down by a blast.
pub const SCORE_BONUS: u64 = 150;

pub open spec fn below_ground(r: Rocket, screen: Screen) -> bool {
    r.pos.y < screen.ground_line_spec()
}

pub open spec fn off_side(r: Rocket, screen: Screen) -> bool {
    r.pos.x > screen.half_width_spec() || r.pos.x < -screen.half_width_spec()
}

/// A rocket after the border check: dead if it struck the ground or left the sides.
pub open spec fn border_checked(r: Rocket, screen: Screen) -> Rocket {
    if below_ground(r, screen) || off_side(r, screen) {
        Rocket { life: 0, ..r }
    } else {
        r
    }
}

/// A fresh blast where `p` is.
pub open spec fn blast_at(p: Point) -> Interceptor {
    Interceptor {
        pos: p,
        elapsed: INTERCEPTOR_PERIOD,
        radius: blast_radius(INTERCEPTOR_PERIOD as int) as i64,
    }
}

/// The ground explosion a rocket leaves, if it struck the ground.
pub open spec fn explosion(r: Rocket, screen: Screen) -> Option<Interceptor> {
    if below_ground(r, screen) {
        Some(blast_at(r.pos))
    } else {
        None
    }
}

pub open spec fn explosions(rs: Seq<Rocket>, screen: Screen) -> Seq<Interceptor> {
    rs.filter_map(|r: Rocket| explosion(r, screen))
}

pub open spec fn ground_hits(rs: Seq<Rocket>, screen: Screen) -> nat {
    rs.filter(|r: Rocket| below_ground(r, screen)).len()
}

/// Ground health after `hits` impacts, one life each, held at the smallest
/// value an `i64` takes.
pub open spec fn life_after(life: i64, hits: nat) -> i64 {
    if life - hits >= i64::MIN {
        (life - hits) as i64
    } else {
        i64::MIN
    }
}

/// The distance from `p` to the blast's centre is below its radius.
pub open spec fn in_blast(p: Point, i: Interceptor) -> bool {
    let dx = p.x - i.pos.x;
    let dy = p.y - i.pos.y;
    i.radius > 0 && dx * dx + dy * dy < i.radius * i.radius
}

pub open spec fn hit_by_any(p: Point, is: Seq<Interceptor>) -> bool {
    exists|j: int| 0 <= j < is.len() && #[trigger] in_blast(p, is[j])
}

/// A rocket after the interception check.
pub open spec fn intercepted(r: Rocket, is: Seq<Interceptor>) -> Rocket {
    if hit_by_any(r.pos, is) {
        Rocket { life: 0, ..r }
    } else {
        r
    }
}

/// Rockets that some blast reaches, each counted once, whether or not an
/// earlier pass of the tick already killed it.
pub open spec fn kills(rs: Seq<Rocket>, is: Seq<Interceptor>) -> nat {
    rs.filter(|r: Rocket| hit_by_any(r.pos, is)).len()
}

/// The score after `k` kills, held at the largest value it can take.
pub open spec fn score_after(score: u64, k: nat) -> u64 {
    if score + SCORE_BONUS * k <= u64::MAX {
        (score + SCORE_BONUS * k) as u64
    } else {
        u64::MAX
    }
}

pub open spec fn moved(r: Rocket) -> Rocket {
    Rocket {
        pos: Point { x: (r.pos.x + r.velocity.x) as i64, y: (r.pos.y + r.velocity.y) as i64 },
        ..r
    }
}

pub open spec fn aged(i: Interceptor) -> Interceptor {
    Interceptor {
        elapsed: (i.elapsed - 1) as i64,
        radius: blast_radius(i.elapsed - 1) as i64,
        ..i
    }
}

pub open spec fn rocket_alive(r: Rocket) -> bool {
    r.life > 0
}

pub open spec fn blast_alive(i: Interceptor) -> bool {
    i.elapsed > 0
}

/// Moves every rocket by its velocity.
pub fn move_rockets(rockets: &mut Vec<Rocket>)
    requires
        forall|k: int| 0 <= k < old(rockets)@.len() ==> (#[trigger] old(rockets)@[k]).wf()
            && in_arena(old(rockets)@[k].pos),
    ensures
        final(rockets)@ == old(rockets)@.map_values(|r: Rocket| moved(r)),
{
    let ghost r0 = rockets@;
    let n = rockets.len();
    for i in 0..n
        invariant
            n == r0.len(),
            rockets@.len() == n,
            forall|k: int| 0 <= k < n ==> (#[trigger] r0[k]).wf() && in_arena(r0[k].pos),
            forall|k: int| 0 <= k < i ==> #[trigger] rockets@[k] == moved(r0[k]),
            forall|k: int| i <= k < n ==> #[trigger] rockets@[k] == r0[k],
    {
        let mut r = rockets[i];
        rocket_move(&mut r);
        rockets.set(i, r);
    }
    assert(rockets@ =~= r0.map_values(|r: Rocket| moved(r)));
}

/// Ages every blast by one step.
pub fn age_interceptors(interceptors: &mut Vec<Interceptor>)
    requires
        forall|k: int| 0 <= k < old(interceptors)@.len() ==> (#[trigger] old(interceptors)@[k]).wf()
            && old(interceptors)@[k].elapsed > 0,
    ensures
        final(interceptors)@ == old(interceptors)@.map_values(|i: Interceptor| aged(i)),
{
    let ghost i0 = interceptors@;
    let n = interceptors.len();
    for i in 0..n
        invariant
            n == i0.len(),
            interceptors@.len() == n,
            forall|k: int| 0 <= k < n ==> (#[trigger] i0[k]).wf() && i0[k].elapsed > 0,
            forall|k: int| 0 <= k < i ==> #[trigger] interceptors@[k] == aged(i0[k]),
            forall|k: int| i <= k < n ==> #[trigger] interceptors@[k] == i0[k],
    {
        let mut b = interceptors[i];
        interceptor_elapse(&mut b);
        interceptors.set(i, b);
    }
    assert(interceptors@ =~= i0.map_values(|i: Interceptor| aged(i)));
}

/// The border pass: rockets that struck the ground die, cost the player one
/// life each and leave an explosion where they were; rockets past either side
/// die with no further effect.
pub fn check_borders(
    rockets: &mut Vec<Rocket>,
    interceptors: &mut Vec<Interceptor>,
    life: &mut i64,
    screen: &Screen,
)
    requires
        screen.wf(),
    ensures
        final(rockets)@ == old(rockets)@.map_values(|r: Rocket| border_checked(r, *screen)),
        final(interceptors)@ == old(interceptors)@ + explosions(old(rockets)@, *screen),
        *final(life) == life_after(*old(life), ground_hits(old(rockets)@, *screen)),
{
    let ghost r0 = rockets@;
    let ghost i0 = interceptors@;
    let ghost l0 = *life;
    let screen_x = screen.half_width();
    let ground = screen.ground_line();
    let n = rockets.len();
    assert(r0.take(0).filter(|r: Rocket| below_ground(r, *screen)) =~= Seq::<Rocket>::empty())
        by {
        reveal(Seq::filter);
    }
    assert(r0.take(0).filter_map(|r: Rocket| explosion(r, *screen)) =~= Seq::<
        Interceptor,
    >::empty());
    assert(i0 + r0.take(0).filter_map(|r: Rocket| explosion(r, *screen)) =~= i0);
    for i in 0..n
        invariant
            n == r0.len(),
            rockets@.len() == n,
            screen.wf(),
            screen_x == screen.half_width_spec(),
            ground == screen.ground_line_spec(),
            forall|k: int| 0 <= k < i ==> #[trigger] rockets@[k] == border_checked(r0[k], *screen),
            forall|k: int| i <= k < n ==> #[trigger] rockets@[k] == r0[k],
            interceptors@ == i0 + r0.take(i as int).filter_map(|r: Rocket| explosion(r, *screen)),
            *life == life_after(
                l0,
                r0.take(i as int).filter(|r: Rocket| below_ground(r, *screen)).len(),
            ),
    {
        let mut r = rockets[i];
        proof {
            r0.lemma_filter_map_take_succ(|r: Rocket| explosion(r, *screen), i as int);
            assert(r0.take(i + 1) =~= r0.take(i as int).push(r0[i as int]));
            r0.take(i as int).lemma_filter_push(r0[i as int], |r: Rocket| below_ground(r, *screen));
        }
        if r.pos.y < ground {
            r.life = 0;
            if *life > i64::MIN {
                *life = *life - 1;
            }
            interceptors.push(create_interceptor(r.pos));
            assert(interceptors@ =~= i0 + r0.take(i + 1).filter_map(
                |r: Rocket| explosion(r, *screen),
            ));
        } else {
            assert(interceptors@ =~= i0 + r0.take(i + 1).filter_map(
                |r: Rocket| explosion(r, *screen),
            ));
        }
        if r.pos.x > screen_x || r.pos.x < -screen_x {
            r.life = 0;
        }
        rockets.set(i, r);
    }
    assert(r0.take(n as int) =~= r0);
    assert(rockets@ =~= r0.map_values(|r: Rocket| border_checked(r, *screen)));
}

fn blast_reaches(p: Point, b: &Interceptor) -> (r: bool)
    requires
        in_arena(p),
        in_arena(b.pos),
        b.wf(),
    ensures
        r == in_blast(p, *b),
{
    let dx = p.x - b.pos.x;
    let dy = p.y - b.pos.y;
    assert(0 <= dx * dx <= 2 * ARENA * 2 * ARENA) by (nonlinear_arith)
        requires
            -2 * ARENA <= dx <= 2 * ARENA,
    ;
    assert(0 <= dy * dy <= 2 * ARENA * 2 * ARENA) by (nonlinear_arith)
        requires
            -2 * ARENA <= dy <= 2 * ARENA,
    ;
    proof {
        lemma_blast_radius_range(b.elapsed as int);
    }
    assert(0 <= b.radius * b.radius <= 60_000 * 60_000) by (nonlinear_arith)
        requires
            0 <= b.radius <= 60_000,
    ;
    b.radius > 0 && dx * dx + dy * dy < b.radius * b.radius
}

fn any_blast_reaches(p: Point, interceptors: &Vec<Interceptor>) -> (r: bool)
    requires
        in_arena(p),
        forall|k: int| 0 <= k < interceptors@.len() ==> (#[trigger] interceptors@[k]).wf()
            && in_arena(interceptors@[k].pos),
    ensures
        r == hit_by_any(p, interceptors@),
{
    let m = interceptors.len();
    for j in 0..m
        invariant
            m == interceptors@.len(),
            in_arena(p),
            forall|k: int| 0 <= k < m ==> (#[trigger] interceptors@[k]).wf() && in_arena(
                interceptors@[k].pos,
            ),
            forall|k: int| 0 <= k < j ==> !#[trigger] in_blast(p, interceptors@[k]),
    {
        if blast_reaches(p, &interceptors[j]) {
            return true;
        }
    }
    false
}

/// The interception pass: every rocket within a blast dies and scores the
/// bonus once, however many blasts reach it.
pub fn check_interceptions(
    rockets: &mut Vec<Rocket>,
    interceptors: &Vec<Interceptor>,
    score: &mut u64,
)
    requires
        forall|k: int| 0 <= k < old(rockets)@.len() ==> in_arena(#[trigger] old(rockets)@[k].pos),
        forall|k: int| 0 <= k < interceptors@.len() ==> (#[trigger] interceptors@[k]).wf()
            && in_arena(interceptors@[k].pos),
    ensures
        final(rockets)@ == old(rockets)@.map_values(|r: Rocket| intercepted(r, interceptors@)),
        *final(score) == score_after(*old(score), kills(old(rockets)@, interceptors@)),
{
    let ghost r0 = rockets@;
    let ghost s0 = *score;
    let ghost is = interceptors@;
    let n = rockets.len();
    assert(r0.take(0).filter(|r: Rocket| hit_by_any(r.pos, is)) =~= Seq::<
        Rocket,
    >::empty()) by {
        reveal(Seq::filter);
    }
    for i in 0..n
        invariant
            n == r0.len(),
            rockets@.len() == n,
            is == interceptors@,
            forall|k: int| 0 <= k < n ==> in_arena(#[trigger] r0[k].pos),
            forall|k: int| 0 <= k < is.len() ==> (#[trigger] is[k]).wf() && in_arena(is[k].pos),
            forall|k: int| 0 <= k < i ==> #[trigger] rockets@[k] == intercepted(r0[k], is),
            forall|k: int| i <= k < n ==> #[trigger] rockets@[k] == r0[k],
            *score == score_after(
                s0,
                r0.take(i as int).filter(|r: Rocket| hit_by_any(r.pos, is)).len(),
            ),
    {
        let mut r = rockets[i];
        proof {
            assert(r0.take(i + 1) =~= r0.take(i as int).push(r0[i as int]));
            r0.take(i as int).lemma_filter_push(
                r0[i as int],
                |r: Rocket| hit_by_any(r.pos, is),
            );
        }
        if any_blast_reaches(r.pos, interceptors) {
            if *score <= u64::MAX - SCORE_BONUS {
                *score = *score + SCORE_BONUS;
            } else {
                *score = u64::MAX;
            }
            r.life = 0;
        }
        rockets.set(i, r);
    }
    assert(r0.take(n as int) =~= r0);
    assert(rockets@ =~= r0.map_values(|r: Rocket| intercepted(r, is)));
}

/// Rockets that are still alive, in order.
pub fn prune_rockets(rockets: &Vec<Rocket>) -> (r: Vec<Rocket>)
    ensures
        r@ == rockets@.filter(|r: Rocket| rocket_alive(r)),
{
    let mut out: Vec<Rocket> = Vec::new();
    let n = rockets.len();
    assert(rockets@.take(0).filter(|r: Rocket| rocket_alive(r)) =~= Seq::<Rocket>::empty()) by {
        reveal(Seq::filter);
    }
    for i in 0..n
        invariant
            n == rockets@.len(),
            out@ == rockets@.take(i as int).filter(|r: Rocket| rocket_alive(r)),
    {
        proof {
            assert(rockets@.take(i + 1) =~= rockets@.take(i as int).push(rockets@[i as int]));
            rockets@.take(i as int).lemma_filter_push(rockets@[i as int], |r: Rocket| rocket_alive(r));
        }
        if rockets[i].life > 0 {
            out.push(rockets[i]);
        }
    }
    assert(rockets@.take(n as int) =~= rockets@);
    out
}

/// Blasts that still have steps left, in order.
pub fn prune_interceptors(interceptors: &Vec<Interceptor>) -> (r: Vec<Interceptor>)
    ensures
        r@ == interceptors@.filter(|i: Interceptor| blast_alive(i)),
{
    let mut out: Vec<Interceptor> = Vec::new();
    let n = interceptors.len();
    assert(interceptors@.take(0).filter(|i: Interceptor| blast_alive(i)) =~= Seq::<
        Interceptor,
    >::empty()) by {
        reveal(Seq::filter);
    }
    for i in 0..n
        invariant
            n == interceptors@.len(),
            out@ == interceptors@.take(i as int).filter(|i: Interceptor| blast_alive(i)),
    {
        proof {
            assert(interceptors@.take(i + 1) =~= interceptors@.take(i as int).push(
                interceptors@[i as int],
            ));
            interceptors@.take(i as int).lemma_filter_push(
                interceptors@[i as int],
                |i: Interceptor| blast_alive(i),
            );
        }
        if interceptors[i].elapsed > 0 {
            out.push(interceptors[i]);
        }
    }
    assert(interceptors@.take(n as int) =~= interceptors@);
    out
}

} // verus!
