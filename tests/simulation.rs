use rust_command::actors::{
    check_cursor_bound, create_interceptor, create_player_cursor, create_rocket, cursor_move,
    interceptor_elapse, rocket_move, InputState, GROUND_LIFE,
};
use rust_command::clock::TickClock;
use rust_command::geometry::{velocity_from_heading, Point, Screen, HALF_TURN, ROCKET_SPEED};
use rust_command::passes::{check_borders, check_interceptions, prune_interceptors, prune_rockets};
use rust_command::rng::Rng;
use rust_command::world::{rocket_from_draws, spawn_rocket_wave, GameState, Status, SEED};

fn screen() -> Screen {
    Screen::new(1280, 760)
}

#[test]
fn five_ground_impacts_end_the_session() {
    let mut game = GameState::new(screen());
    let ground = screen().ground_line();
    assert_eq!(game.player.life, 5);
    for tick in 0..5i64 {
        assert_eq!(game.status(), Status::Running);
        game.rockets.push(create_rocket(Point::new(0, ground), HALF_TURN));
        game.update();
        assert_eq!(game.player.life, 4 - tick);
    }
    assert_eq!(game.player.life, 0);
    assert_eq!(game.status(), Status::GameOver);
    let rockets = game.rockets.len();
    let blasts = game.interceptors.len();
    game.rockets.push(create_rocket(Point::new(0, ground), HALF_TURN));
    game.update();
    assert_eq!(game.player.life, 0);
    assert_eq!(game.rockets.len(), rockets + 1);
    assert_eq!(game.status(), Status::GameOver);
    assert_eq!(game.interceptors.len(), blasts);
}

#[test]
fn interceptor_brings_down_falling_rocket_once() {
    let mut game = GameState::new(screen());
    let top = screen().half_height();
    game.rockets.push(create_rocket(Point::new(0, top), HALF_TURN));
    while game.rockets[0].pos.y > 120_000 {
        game.update();
    }
    assert_eq!(game.score, 0);
    game.input.fire = true;
    game.update();
    game.input.fire = false;
    assert_eq!(game.interceptors.len(), 1);
    assert_eq!(game.interceptors[0].pos, Point::new(0, 0));
    let start = Point::new(0, top);
    let still_falling = |g: &GameState| g.rockets.iter().any(|r| r.initial_pos == start);
    let mut ticks = 0;
    while still_falling(&game) && ticks < 100 {
        game.update();
        ticks += 1;
    }
    assert!(!still_falling(&game));
    assert_eq!(game.score, 150);
    for _ in 0..20 {
        game.update();
    }
    assert_eq!(game.score, 150);
    assert_eq!(game.player.life, GROUND_LIFE);
}

#[test]
fn blast_radius_follows_curve() {
    let mut b = create_interceptor(Point::new(5, 7));
    assert_eq!(b.elapsed, 100);
    assert_eq!(b.radius, 0);
    interceptor_elapse(&mut b);
    assert_eq!(b.elapsed, 99);
    assert_eq!(b.radius, 2376);
    for _ in 0..49 {
        interceptor_elapse(&mut b);
    }
    assert_eq!(b.elapsed, 50);
    assert_eq!(b.radius, 60_000);
    for _ in 0..50 {
        interceptor_elapse(&mut b);
        assert_eq!(b.radius, 24 * (2500 - (b.elapsed - 50) * (b.elapsed - 50)));
    }
    assert_eq!(b.elapsed, 0);
    assert_eq!(b.radius, 0);
    assert_eq!(b.pos, Point::new(5, 7));
}

#[test]
fn headings_give_velocities() {
    assert_eq!(velocity_from_heading(18_000), Point::new(0, -ROCKET_SPEED));
    assert_eq!(velocity_from_heading(0), Point::new(0, ROCKET_SPEED));
    assert_eq!(velocity_from_heading(9_000), Point::new(ROCKET_SPEED, 0));
    assert_eq!(velocity_from_heading(13_500), Point::new(1129, -1129));
    assert_eq!(velocity_from_heading(22_500), Point::new(-1129, -1129));
}

#[test]
fn rocket_moves_by_velocity() {
    let mut r = create_rocket(Point::new(100, 200), 13_500);
    rocket_move(&mut r);
    assert_eq!(r.pos, Point::new(1229, -929));
    assert_eq!(r.initial_pos, Point::new(100, 200));
    assert_eq!(r.life, 1);
}

#[test]
fn cursor_moves_with_input_inside_bounds() {
    let s = screen();
    let mut c = create_player_cursor();
    let input = InputState { xaxis: 1, yaxis: -1, fire: false };
    cursor_move(&mut c, &s, &input);
    assert_eq!(c.pos, Point::new(12_000, -12_000));
    assert_eq!(c.life, 5);
}

#[test]
fn cursor_at_edge_is_nudged_without_moving() {
    let s = screen();
    let input = InputState { xaxis: 1, yaxis: 1, fire: false };
    let mut c = create_player_cursor();
    c.pos = Point::new(s.half_width() - 24_000 + 1, 0);
    cursor_move(&mut c, &s, &input);
    assert_eq!(c.pos, Point::new(s.half_width() - 24_000 + 1 - 1200, 0));
    c.pos = Point::new(-s.half_width() - 5, 0);
    assert!(!check_cursor_bound(&mut c, &s));
    assert_eq!(c.pos, Point::new(-s.half_width() - 5 + 1200, 0));
    c.pos = Point::new(0, s.half_height() + 1);
    cursor_move(&mut c, &s, &input);
    assert_eq!(c.pos, Point::new(0, s.half_height() + 1 - 1200));
    c.pos = Point::new(0, s.ground_line());
    cursor_move(&mut c, &s, &input);
    assert_eq!(c.pos, Point::new(0, s.ground_line() + 1200));
    c.pos = Point::new(0, 0);
    assert!(check_cursor_bound(&mut c, &s));
    assert_eq!(c.pos, Point::new(0, 0));
}

#[test]
fn cursor_stays_in_reach_while_pushing_edges() {
    let s = screen();
    let mut c = create_player_cursor();
    let right_up = InputState { xaxis: 1, yaxis: 1, fire: false };
    for _ in 0..500 {
        cursor_move(&mut c, &s, &right_up);
        assert!(c.pos.x <= s.half_width() - 24_000 + 12_000);
        assert!(c.pos.y <= s.half_height() + 12_000);
    }
    let left_down = InputState { xaxis: -1, yaxis: -1, fire: false };
    for _ in 0..500 {
        cursor_move(&mut c, &s, &left_down);
        assert!(c.pos.x >= -s.half_width() - 12_000);
        assert!(c.pos.y >= s.ground_line() + 6_000 - 12_000);
    }
}

#[test]
fn ground_impact_kills_damages_and_explodes() {
    let s = screen();
    let hit = Point::new(300, s.ground_line() - 1);
    let mut rockets = vec![create_rocket(hit, HALF_TURN), create_rocket(Point::new(0, 0), HALF_TURN)];
    let mut blasts = Vec::new();
    let mut life: i64 = 5;
    check_borders(&mut rockets, &mut blasts, &mut life, &s);
    assert_eq!(rockets[0].life, 0);
    assert_eq!(rockets[1].life, 1);
    assert_eq!(life, 4);
    assert_eq!(blasts.len(), 1);
    assert_eq!(blasts[0].pos, hit);
    assert_eq!(blasts[0].elapsed, 100);
}

#[test]
fn ground_impacts_may_take_life_below_zero() {
    let s = screen();
    let low = Point::new(0, s.ground_line() - 10);
    let mut rockets = vec![create_rocket(low, HALF_TURN), create_rocket(low, HALF_TURN)];
    let mut blasts = Vec::new();
    let mut life: i64 = 1;
    check_borders(&mut rockets, &mut blasts, &mut life, &s);
    assert_eq!(life, -1);
    assert_eq!(blasts.len(), 2);
}

#[test]
fn side_exit_kills_silently() {
    let s = screen();
    let mut rockets = vec![
        create_rocket(Point::new(s.half_width() + 1, 0), HALF_TURN),
        create_rocket(Point::new(-s.half_width() - 1, 0), HALF_TURN),
        create_rocket(Point::new(s.half_width(), 0), HALF_TURN),
    ];
    let mut blasts = Vec::new();
    let mut life: i64 = 5;
    check_borders(&mut rockets, &mut blasts, &mut life, &s);
    assert_eq!(rockets[0].life, 0);
    assert_eq!(rockets[1].life, 0);
    assert_eq!(rockets[2].life, 1);
    assert_eq!(life, 5);
    assert!(blasts.is_empty());
}

#[test]
fn blast_kills_rocket_within_radius() {
    let mut b = create_interceptor(Point::new(0, 0));
    for _ in 0..50 {
        interceptor_elapse(&mut b);
    }
    let blasts = vec![b, b];
    let mut rockets = vec![
        create_rocket(Point::new(36_000, 47_999), HALF_TURN),
        create_rocket(Point::new(36_000, 48_000), HALF_TURN),
        create_rocket(Point::new(0, 59_999), HALF_TURN),
    ];
    let mut score: u64 = 10;
    check_interceptions(&mut rockets, &blasts, &mut score);
    assert_eq!(rockets[0].life, 0);
    assert_eq!(rockets[1].life, 1);
    assert_eq!(rockets[2].life, 0);
    assert_eq!(score, 10 + 2 * 150);
}

#[test]
fn rocket_dead_before_the_pass_still_scores_and_zero_radius_kills_nothing() {
    let fresh = create_interceptor(Point::new(0, 0));
    let mut rockets = vec![create_rocket(Point::new(0, 0), HALF_TURN)];
    let mut score: u64 = 0;
    check_interceptions(&mut rockets, &vec![fresh], &mut score);
    assert_eq!(rockets[0].life, 1);
    let mut b = fresh;
    interceptor_elapse(&mut b);
    rockets[0].life = 0;
    check_interceptions(&mut rockets, &vec![b], &mut score);
    assert_eq!(rockets[0].life, 0);
    assert_eq!(score, 150);
    let mut high: u64 = u64::MAX - 10;
    let mut live = vec![create_rocket(Point::new(0, 0), HALF_TURN)];
    check_interceptions(&mut live, &vec![b], &mut high);
    assert_eq!(high, u64::MAX);
}

#[test]
fn pruning_keeps_live_actors_in_order() {
    let mut a = create_rocket(Point::new(1, 1), HALF_TURN);
    let b = create_rocket(Point::new(2, 2), HALF_TURN);
    let c = create_rocket(Point::new(3, 3), HALF_TURN);
    a.life = 0;
    let kept = prune_rockets(&vec![a, b, c]);
    assert_eq!(kept, vec![b, c]);
    let mut old = create_interceptor(Point::new(0, 0));
    for _ in 0..100 {
        interceptor_elapse(&mut old);
    }
    let young = create_interceptor(Point::new(4, 4));
    assert_eq!(prune_interceptors(&vec![old, young]), vec![young]);
}

#[test]
fn waves_are_deterministic_for_a_seed() {
    let s = screen();
    let mut g1 = Rng::new(SEED);
    let mut g2 = Rng::new(SEED);
    let w1 = spawn_rocket_wave(&mut g1, 4, &s);
    let w2 = spawn_rocket_wave(&mut g2, 4, &s);
    assert_eq!(w1, w2);
    assert_eq!(g1, g2);
    assert_eq!(w1.len(), 4);
    for r in &w1 {
        assert!(r.pos.x >= -s.half_width() && r.pos.x < s.half_width());
        assert_eq!(r.pos.y, s.half_height());
        assert!(r.heading >= 13_500 && r.heading < 22_500);
        assert_eq!(r.initial_pos, r.pos);
        assert_eq!(r.velocity, velocity_from_heading(r.heading));
        assert_eq!(r.life, 1);
    }
    let w3 = spawn_rocket_wave(&mut g1, 4, &s);
    assert_ne!(w1, w3);
    let mut g3 = Rng::new(SEED + 1);
    assert_ne!(spawn_rocket_wave(&mut g3, 4, &s), w1);
}

#[test]
fn sessions_with_same_seed_match() {
    let mut a = GameState::new(screen());
    let mut b = GameState::new(screen());
    for _ in 0..600 {
        a.update();
        b.update();
    }
    assert!(!a.rockets.is_empty());
    assert_eq!(a.rockets, b.rockets);
    assert_eq!(a.interceptors, b.interceptors);
    assert_eq!(a.player, b.player);
    assert_eq!(a.rng, b.rng);
}

#[test]
fn first_wave_comes_after_the_delay() {
    let mut game = GameState::new(screen());
    for _ in 0..239 {
        game.update();
    }
    assert!(game.rockets.is_empty());
    game.update();
    let n = game.rockets.len();
    assert!(n >= 2 && n < 4);
    assert_eq!(game.rocket_delay, 240);
}

#[test]
fn level_rises_every_fifteen_seconds() {
    let mut game = GameState::new(screen());
    for _ in 0..899 {
        game.update();
    }
    assert_eq!(game.level, 1);
    game.update();
    assert_eq!(game.level, 2);
    assert_eq!(game.level_timer, 900);
}

#[test]
fn shots_respect_timeout() {
    let mut game = GameState::new(screen());
    game.update();
    game.update();
    assert_eq!(game.shot_timeout, -2);
    assert!(game.interceptors.is_empty());
    game.input.fire = true;
    game.update();
    assert_eq!(game.interceptors.len(), 1);
    assert_eq!(game.shot_timeout, 30);
    for _ in 0..29 {
        game.update();
    }
    assert_eq!(game.interceptors.len(), 1);
    game.update();
    assert_eq!(game.interceptors.len(), 2);
}

#[test]
fn clock_counts_whole_ticks() {
    let mut c = TickClock::new();
    assert_eq!(c.advance(0), 0);
    assert_eq!(c.advance(16_666_667), 1);
    assert_eq!(c.residue, 20);
    assert_eq!(c.advance(1_000_000_000), 60);
    assert_eq!(c.residue, 20);
    let mut d = TickClock::new();
    assert_eq!(d.advance(8_000_000), 0);
    assert_eq!(d.advance(9_000_000), 1);
}

#[test]
fn frame_runs_due_ticks() {
    let mut game = GameState::new(screen());
    let mut clock = TickClock::new();
    assert_eq!(game.run_frame(&mut clock, 50_000_000), 3);
    assert_eq!(game.level_timer, 897);
    assert_eq!(game.run_frame(&mut clock, 1_000_000), 0);
    assert_eq!(game.level_timer, 897);
}

#[test]
fn generator_matches_oorandom() {
    let mut g = Rng::new(1337);
    let mut o = oorandom::Rand32::new(1337);
    assert_eq!(g.state, o.state());
    for k in 1..50u32 {
        assert_eq!(g.range(k, 3 * k + 7), o.rand_range(k..3 * k + 7));
    }
    assert_eq!(g.state, o.state());
    let v = g.range(10, 11);
    assert_eq!(v, 10);
}

#[test]
fn screen_validity() {
    assert!(screen().is_valid());
    assert!(Screen::new(20, 760).is_valid());
    assert!(!Screen::new(19, 760).is_valid());
    assert!(Screen::new(1280, 155).is_valid());
    assert!(!Screen::new(1280, 154).is_valid());
    assert!(!Screen::new(100_001, 760).is_valid());
    assert_eq!(screen().half_width(), 768_000);
    assert_eq!(screen().ground_line(), 180_000 - 456_000);
}

#[test]
fn two_impacts_in_one_tick_end_the_session_below_zero() {
    let mut game = GameState::new(screen());
    let ground = screen().ground_line();
    game.player.life = 1;
    game.rockets.push(create_rocket(Point::new(0, ground), HALF_TURN));
    game.rockets.push(create_rocket(Point::new(5_000, ground), HALF_TURN));
    game.update();
    assert_eq!(game.player.life, -1);
    assert_eq!(game.status(), Status::GameOver);
    assert!(game.rockets.is_empty());
    assert_eq!(game.interceptors.len(), 2);
}

#[test]
fn draws_become_rockets() {
    let s = screen();
    let r = rocket_from_draws(0, 0, &s);
    assert_eq!(r.pos, Point::new(-768_000, 456_000));
    assert_eq!(r.initial_pos, r.pos);
    assert_eq!(r.heading, 13_500);
    assert_eq!(r.velocity, Point::new(1129, -1129));
    assert_eq!(r.life, 1);
    let q = rocket_from_draws(1_535_999, 8_999, &s);
    assert_eq!(q.pos, Point::new(767_999, 456_000));
    assert_eq!(q.heading, 22_499);
}

#[test]
fn generator_increment_is_odd_and_kept() {
    let mut g = Rng::new(SEED);
    let inc = g.state.1;
    assert_eq!(inc % 2, 1);
    for _ in 0..10 {
        g.range(0, 3);
    }
    assert_eq!(g.state.1, inc);
}

#[test]
fn small_screen_lifts_cursor_into_its_region() {
    let s = Screen::new(20, 155);
    let mut game = GameState::new(s);
    assert_eq!(game.player.pos, Point::new(0, 0));
    for _ in 0..300 {
        game.update();
    }
    let region_floor = s.ground_line() + 6_000;
    assert!(game.player.pos.y >= region_floor - 1200);
    assert!(game.player.pos.y <= s.half_height() + 12_000);
}
