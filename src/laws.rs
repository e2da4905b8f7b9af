use vstd::prelude::*;
use crate::geometry::{Point, Screen, CURSOR_STEP};
use crate::rng::pcg_seeded;
use crate::actors::{InputState, Rocket, Interceptor, cursor_after, in_cursor_bounds};
use crate::passes::{
    below_ground, off_side, border_checked, explosion, explosions, ground_hits, life_after,
    blast_at, in_blast, intercepted, hit_by_any, rocket_alive,
};
use crate::world::{
    GameView, initial, run_ticks, wave, interceptions_checked, pruned, lemma_filter_keeps,
};

verus! {

/// The explosions of two rocket lists laid end to end are those of each, in order.
pub proof fn lemma_explosions_add(a: Seq<Rocket>, b: Seq<Rocket>, screen: Screen)
    ensures
        explosions(a + b, screen) == explosions(a, screen) + explosions(b, screen),
    decreases b.len(),
{
    let f = |r: Rocket| explosion(r, screen);
    if b.len() == 0 {
        assert(a + b =~= a);
        assert(explosions(b, screen) =~= Seq::<Interceptor>::empty());
        assert(explosions(a, screen) + explosions(b, screen) =~= explosions(a, screen));
    } else {
        let bd = b.drop_last();
        lemma_explosions_add(a, bd, screen);
        assert((a + b).drop_last() =~= a + bd);
        assert((a + b).last() == b.last());
        match f(b.last()) {
            Option::Some(s) => {
                assert(explosions(a + b, screen) =~= explosions(a, screen) + explosions(
                    bd,
                    screen,
                ) + seq![s]);
                assert(explosions(b, screen) =~= explosions(bd, screen) + seq![s]);
                assert(explosions(a + b, screen) =~= explosions(a, screen) + explosions(
                    b,
                    screen,
                ));
            },
            Option::None => {
                assert(explosions(a + b, screen) =~= explosions(a, screen) + explosions(
                    bd,
                    screen,
                ));
                assert(explosions(b, screen) =~= explosions(bd, screen));
            },
        }
    }
}

proof fn lemma_one_rocket(r: Rocket, screen: Screen)
    ensures
        explosions(seq![r], screen) == (if below_ground(r, screen) {
            seq![blast_at(r.pos)]
        } else {
            Seq::<Interceptor>::empty()
        }),
        ground_hits(seq![r], screen) == (if below_ground(r, screen) {
            1nat
        } else {
            0nat
        }),
{
    let s = seq![r];
    assert(s.drop_last() =~= Seq::<Rocket>::empty());
    assert(s.last() == r);
    assert(Seq::<Rocket>::empty().filter_map(|r: Rocket| explosion(r, screen)) =~= Seq::<
        Interceptor,
    >::empty());
    assert(explosions(s, screen) =~= (if below_ground(r, screen) {
        seq![blast_at(r.pos)]
    } else {
        Seq::<Interceptor>::empty()
    }));
    Seq::<Rocket>::empty().lemma_filter_push(r, |r: Rocket| below_ground(r, screen));
    assert(Seq::<Rocket>::empty().push(r) == s);
    assert(Seq::<Rocket>::empty().filter(|r: Rocket| below_ground(r, screen)) =~= Seq::<
        Rocket,
    >::empty()) by {
        reveal(Seq::filter);
    }
}

/// A rocket below the ground line dies in the border pass, costs the player
/// exactly one life, and adds exactly one blast, at its own position, in its
/// place among the explosions; `a` and `b` are the rockets around it.
pub proof fn lemma_ground_impact(a: Seq<Rocket>, r: Rocket, b: Seq<Rocket>, screen: Screen, life: i64)
    requires
        below_ground(r, screen),
        life - ground_hits(a.push(r) + b, screen) >= i64::MIN,
    ensures
        border_checked(r, screen).life == 0,
        explosions(a.push(r) + b, screen) == explosions(a, screen) + seq![blast_at(r.pos)]
            + explosions(b, screen),
        ground_hits(a.push(r) + b, screen) == ground_hits(a + b, screen) + 1,
        life_after(life, ground_hits(a.push(r) + b, screen)) == life_after(
            life,
            ground_hits(a + b, screen),
        ) - 1,
{
    let p = |x: Rocket| below_ground(x, screen);
    assert(a.push(r) + b =~= a + seq![r] + b);
    lemma_explosions_add(a + seq![r], b, screen);
    lemma_explosions_add(a, seq![r], screen);
    lemma_one_rocket(r, screen);
    Seq::filter_distributes_over_add(a + seq![r], b, p);
    Seq::filter_distributes_over_add(a, seq![r], p);
    Seq::filter_distributes_over_add(a, b, p);
}

/// A rocket past either side that is above the ground dies in the border
/// pass and leaves the player's life and the explosions as they would be
/// without it.
pub proof fn lemma_side_exit(a: Seq<Rocket>, r: Rocket, b: Seq<Rocket>, screen: Screen, life: i64)
    requires
        off_side(r, screen),
        !below_ground(r, screen),
    ensures
        border_checked(r, screen).life == 0,
        explosions(a.push(r) + b, screen) == explosions(a + b, screen),
        ground_hits(a.push(r) + b, screen) == ground_hits(a + b, screen),
        life_after(life, ground_hits(a.push(r) + b, screen)) == life_after(
            life,
            ground_hits(a + b, screen),
        ),
{
    let p = |x: Rocket| below_ground(x, screen);
    assert(a.push(r) + b =~= a + seq![r] + b);
    lemma_explosions_add(a + seq![r], b, screen);
    lemma_explosions_add(a, seq![r], screen);
    lemma_explosions_add(a, b, screen);
    lemma_one_rocket(r, screen);
    assert(explosions(a, screen) + Seq::<Interceptor>::empty() =~= explosions(a, screen));
    Seq::filter_distributes_over_add(a + seq![r], b, p);
    Seq::filter_distributes_over_add(a, seq![r], p);
    Seq::filter_distributes_over_add(a, b, p);
}

/// A rocket closer to some blast's centre than its radius dies in the
/// interception pass.
pub proof fn lemma_blast_kills(r: Rocket, is: Seq<Interceptor>, j: int)
    requires
        0 <= j < is.len(),
        in_blast(r.pos, is[j]),
    ensures
        intercepted(r, is).life == 0,
{
}

/// From a position inside the cursor region, a movement tick whose
/// displacement also ends inside the region applies that displacement
/// exactly, and so leaves the cursor inside the region.
pub proof fn lemma_cursor_in_bounds(p: Point, screen: Screen, input: InputState)
    requires
        screen.wf(),
        input.wf(),
        in_cursor_bounds(p, screen),
        in_cursor_bounds(
            Point {
                x: (p.x + input.xaxis * CURSOR_STEP) as i64,
                y: (p.y + input.yaxis * CURSOR_STEP) as i64,
            },
            screen,
        ),
    ensures
        cursor_after(p, screen, input) == (Point {
            x: (p.x + input.xaxis * CURSOR_STEP) as i64,
            y: (p.y + input.yaxis * CURSOR_STEP) as i64,
        }),
        in_cursor_bounds(cursor_after(p, screen, input), screen),
{
}

/// Sessions started from the same seed on the same screen draw the same
/// waves and go through the same states, tick for tick.
pub proof fn lemma_same_seed_same_run(seed1: u64, seed2: u64, screen: Screen, count: nat, n: nat)
    requires
        seed1 == seed2,
    ensures
        wave(pcg_seeded(seed1), count, screen) == wave(pcg_seeded(seed2), count, screen),
        run_ticks(initial(screen, seed1), n) == run_ticks(initial(screen, seed2), n),
{
}

/// A rocket that some blast reaches is gone at the end of the same tick: no
/// rocket left after the interception pass and the pruning lies within any
/// blast that the pass checked it against.
pub proof fn lemma_reached_rockets_are_pruned(v: GameView)
    ensures
        forall|k: int|
            0 <= k < pruned(interceptions_checked(v)).rockets.len() ==> !hit_by_any(
                #[trigger] pruned(interceptions_checked(v)).rockets[k].pos,
                v.interceptors,
            ),
{
    let is = v.interceptors;
    let after = interceptions_checked(v).rockets;
    assert forall|j: int| 0 <= j < after.len() && rocket_alive(after[j]) implies !hit_by_any(
        (#[trigger] after[j]).pos,
        is,
    ) by {
        assert(after[j] == intercepted(v.rockets[j], is));
    }
    lemma_filter_keeps(
        after,
        |r: Rocket| rocket_alive(r),
        |r: Rocket| !hit_by_any(r.pos, is),
    );
}

} // verus!
