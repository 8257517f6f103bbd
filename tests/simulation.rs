use invaders::collision::CollisionReport;
use invaders::config::Config;
use invaders::formation::{
    invader_sprite_key, march_interval, march_step, Direction, Formation,
};
use invaders::game::Game;
use invaders::geometry::{bounds, collides, overlaps, Aabb, Point, Size};
use invaders::grid::row_kind_exec;
use invaders::movement::turret_intent;
use invaders::timer::{Timer, TimerMode};
use invaders::weapons::{invader_shoot, nth_invader, shoot_bullet};
use invaders::world::{Actor, InvaderKind, Role, World};

const PX: i64 = 1_000_000;
const MS: u32 = 1000;

fn turret_at(x: i64, y: i64) -> Actor {
    Actor {
        id: 0,
        pos: Point { x, y },
        size: Size { w: 52 * PX, h: 32 * PX },
        role: Role::Turret,
    }
}

fn invader(id: u64, x: i64, y: i64) -> Actor {
    Actor {
        id,
        pos: Point { x, y },
        size: Size { w: 32 * PX, h: 32 * PX },
        role: Role::Invader { kind: InvaderKind::A, frame: 1 },
    }
}

fn bullet(id: u64, x: i64, y: i64) -> Actor {
    Actor { id, pos: Point { x, y }, size: Size { w: 4 * PX, h: 16 * PX }, role: Role::PlayerBullet }
}

fn invader_bullet(id: u64, x: i64, y: i64) -> Actor {
    Actor { id, pos: Point { x, y }, size: Size { w: 4 * PX, h: 10 * PX }, role: Role::InvaderBullet }
}

fn world_of(actors: Vec<Actor>) -> World {
    let next_id = actors.iter().map(|a| a.id).max().unwrap_or(0) + 1;
    World { turret: turret_at(0, -334 * PX), actors, next_id }
}

#[test]
fn turret_held_right_is_clamped_at_bound() {
    let mut game = Game::new(Config::classic());
    assert_eq!(game.world.turret.pos.x, 0);
    game.update(false, true, false, 1000 * MS);
    // 360 - 26 - 10 pixels: the right bound, not the 500 pixels travelled.
    assert_eq!(game.world.turret.pos.x, 324 * PX);
}

#[test]
fn turret_clamped_at_344_with_narrow_turret() {
    let mut cfg = Config::classic();
    cfg.turret_size = Size { w: 32 * PX, h: 32 * PX };
    cfg.turret_padding = 0;
    let mut game = Game::new(cfg);
    game.update(false, true, false, 1000 * MS);
    assert_eq!(game.world.turret.pos.x, 344 * PX);
    game.update(true, false, false, 5000 * MS);
    assert_eq!(game.world.turret.pos.x, -344 * PX);
}

#[test]
fn turret_moves_by_speed_times_time() {
    let mut game = Game::new(Config::classic());
    game.update(true, false, false, 100 * MS);
    assert_eq!(game.world.turret.pos.x, -50 * PX);
    game.update(true, true, false, 100 * MS);
    assert_eq!(game.world.turret.pos.x, -50 * PX);
}

#[test]
fn intent_sums_keys() {
    assert_eq!(turret_intent(false, false), 0);
    assert_eq!(turret_intent(true, false), -1);
    assert_eq!(turret_intent(false, true), 1);
    assert_eq!(turret_intent(true, true), 0);
}

#[test]
fn interval_after_thirty_of_thirty_five_fall() {
    // 1 s * 5 / 35 = 0.142857 s, in microseconds.
    assert_eq!(march_interval(1_000_000, 100_000, 5, 35), 142_857);
}

#[test]
fn interval_floor_and_scaling() {
    assert_eq!(march_interval(1_000_000, 100_000, 35, 35), 1_000_000);
    assert_eq!(march_interval(1_000_000, 100_000, 1, 35), 100_000);
    assert_eq!(march_interval(1_000_000, 100_000, 0, 35), 100_000);
    assert_eq!(march_interval(1_000_000, 100_000, 20, 40), 500_000);
}

#[test]
fn interval_shrinks_from_many_to_one() {
    let many = march_interval(1_000_000, 10_000, 35, 35);
    let one = march_interval(1_000_000, 10_000, 1, 35);
    assert!(one < many);
    assert_eq!(one, 28_571);
}

#[test]
fn interval_never_grows_as_invaders_fall() {
    let mut last = march_interval(1_000_000, 100_000, 35, 35);
    for count in (0..35).rev() {
        let next = march_interval(1_000_000, 100_000, count, 35);
        assert!(next <= last);
        assert!(next >= 100_000);
        last = next;
    }
}

#[test]
fn bullet_past_top_edge_is_removed() {
    let cfg = Config::classic();
    let mut world = world_of(vec![bullet(1, 0, 360 * PX)]);
    world.move_player_bullets(&cfg, 100 * MS);
    assert!(world.actors.is_empty());
}

#[test]
fn bullet_below_top_edge_moves_up() {
    let cfg = Config::classic();
    let mut world = world_of(vec![bullet(1, 5 * PX, 300 * PX), invader(2, 0, 100 * PX)]);
    world.move_player_bullets(&cfg, 100 * MS);
    assert_eq!(world.actors.len(), 2);
    assert_eq!(world.actors[0].pos, Point { x: 5 * PX, y: 340 * PX });
    assert_eq!(world.actors[1].pos, Point { x: 0, y: 100 * PX });
}

#[test]
fn invader_bullet_falls_and_leaves_at_bottom() {
    let cfg = Config::classic();
    let mut world = world_of(vec![invader_bullet(1, 0, -300 * PX), invader_bullet(2, 0, -340 * PX)]);
    world.move_invader_bullets(&cfg, 100 * MS);
    assert_eq!(world.actors.len(), 1);
    assert_eq!(world.actors[0].id, 1);
    assert_eq!(world.actors[0].pos.y, -340 * PX);
}

#[test]
fn touching_boxes_collide() {
    let a = Point { x: 0, y: 0 };
    let b = Point { x: 10 * PX, y: 0 };
    let s = Size { w: 10 * PX, h: 10 * PX };
    assert!(collides(a, s, b, s));
    let c = Point { x: 10 * PX + 1, y: 0 };
    assert!(!collides(a, s, c, s));
    let above = Point { x: 3 * PX, y: 10 * PX };
    assert!(collides(a, s, above, s));
}

#[test]
fn boxes_are_in_half_units() {
    let r = bounds(Point { x: 1, y: -2 }, Size { w: 3, h: 5 });
    assert_eq!(r, Aabb { left: -1, right: 5, bottom: -9, top: 1 });
    assert!(overlaps(&r, &Aabb { left: 5, right: 7, bottom: 1, top: 3 }));
    assert!(!overlaps(&r, &Aabb { left: 6, right: 7, bottom: 0, top: 0 }));
}

#[test]
fn bullet_takes_down_only_first_invader() {
    let mut world = world_of(vec![
        invader(1, 0, 0),
        invader(2, 10 * PX, 0),
        bullet(3, 5 * PX, 0),
    ]);
    let r = world.resolve_collisions();
    assert_eq!(r, CollisionReport { bullet_hits: 1, turret_hits: 0 });
    assert_eq!(world.actors.len(), 1);
    assert_eq!(world.actors[0].id, 2);
}

#[test]
fn bullet_that_misses_stays() {
    let mut world = world_of(vec![invader(1, 0, 0), bullet(2, 100 * PX, 0)]);
    let r = world.resolve_collisions();
    assert_eq!(r, CollisionReport { bullet_hits: 0, turret_hits: 0 });
    assert_eq!(world.actors.len(), 2);
}

#[test]
fn bullet_hitting_bullet_removes_only_the_shooter() {
    let mut world = world_of(vec![invader_bullet(1, 0, 0), bullet(2, 0, 5 * PX)]);
    let r = world.resolve_collisions();
    assert_eq!(r.bullet_hits, 1);
    assert_eq!(world.actors.len(), 1);
    assert_eq!(world.actors[0].id, 1);
}

#[test]
fn invader_bullet_hits_turret() {
    let mut world = world_of(vec![invader_bullet(1, 0, -320 * PX), invader_bullet(2, 200 * PX, -320 * PX)]);
    let r = world.resolve_collisions();
    assert_eq!(r, CollisionReport { bullet_hits: 0, turret_hits: 1 });
    assert_eq!(world.actors.len(), 1);
    assert_eq!(world.actors[0].id, 2);
    assert_eq!(world.turret.pos, Point { x: 0, y: -334 * PX });
}

#[test]
fn empty_world_has_no_collisions() {
    let mut world = world_of(vec![]);
    let r = world.resolve_collisions();
    assert_eq!(r, CollisionReport { bullet_hits: 0, turret_hits: 0 });
}

#[test]
fn march_steps_right_inside_limit() {
    let cfg = Config::classic();
    let mut world = world_of(vec![invader(1, 0, 0), invader(2, 100 * PX, 50 * PX), bullet(3, 0, 0)]);
    let d = march_step(&mut world, Direction::Right, &cfg);
    assert_eq!(d, Direction::Right);
    assert_eq!(world.actors[0].pos, Point { x: 26 * PX, y: 0 });
    assert_eq!(world.actors[1].pos, Point { x: 126 * PX, y: 50 * PX });
    assert_eq!(world.actors[2].pos, Point { x: 0, y: 0 });
}

#[test]
fn march_flips_and_descends_past_right_limit() {
    let cfg = Config::classic();
    // The limit is 360 - 10 - 48 = 302 pixels.
    let mut world = world_of(vec![invader(1, 0, 0), invader(2, 303 * PX, 0)]);
    let d = march_step(&mut world, Direction::Right, &cfg);
    assert_eq!(d, Direction::Left);
    assert_eq!(world.actors[0].pos, Point { x: 0, y: -26 * PX });
    assert_eq!(world.actors[1].pos, Point { x: 303 * PX, y: -26 * PX });
}

#[test]
fn march_at_exact_limit_does_not_flip() {
    let cfg = Config::classic();
    let mut world = world_of(vec![invader(1, 302 * PX, 0)]);
    let d = march_step(&mut world, Direction::Right, &cfg);
    assert_eq!(d, Direction::Right);
    assert_eq!(world.actors[0].pos, Point { x: 328 * PX, y: 0 });
}

#[test]
fn march_flips_past_left_limit() {
    let cfg = Config::classic();
    let mut world = world_of(vec![invader(1, -303 * PX, 0), invader(2, 0, 0)]);
    let d = march_step(&mut world, Direction::Left, &cfg);
    assert_eq!(d, Direction::Right);
    assert_eq!(world.actors[0].pos, Point { x: -303 * PX, y: -26 * PX });
    let d = march_step(&mut world, Direction::Right, &cfg);
    assert_eq!(d, Direction::Right);
    assert_eq!(world.actors[0].pos, Point { x: -277 * PX, y: -26 * PX });
}

#[test]
fn march_with_no_invaders_changes_nothing() {
    let cfg = Config::classic();
    let mut world = world_of(vec![bullet(1, 0, 0)]);
    let d = march_step(&mut world, Direction::Left, &cfg);
    assert_eq!(d, Direction::Left);
    assert_eq!(world.actors[0].pos, Point { x: 0, y: 0 });
}

#[test]
fn formation_steps_when_timer_finishes() {
    let cfg = Config::classic();
    let mut world = world_of(vec![invader(1, 0, 0)]);
    let mut f = Formation::new(1_000_000, 100_000, 1);
    assert!(!f.advance(&mut world, &cfg, 999_999));
    assert_eq!(world.actors[0].pos.x, 0);
    assert!(f.advance(&mut world, &cfg, 1));
    assert_eq!(world.actors[0].pos.x, 26 * PX);
    assert_eq!(f.timer.elapsed, 0);
}

#[test]
fn formation_speeds_up_as_invaders_fall() {
    let cfg = Config::classic();
    let mut world = world_of(vec![invader(1, 0, 0)]);
    let mut f = Formation::new(1_000_000, 100_000, 4);
    assert!(f.advance(&mut world, &cfg, 250_000));
    assert_eq!(f.timer.duration, 250_000);
}

#[test]
fn animation_toggles_frames() {
    let mut world = world_of(vec![invader(1, 0, 0), bullet(2, 0, 0)]);
    world.animate_invaders();
    assert_eq!(world.actors[0].role, Role::Invader { kind: InvaderKind::A, frame: 2 });
    assert_eq!(world.actors[1].role, Role::PlayerBullet);
    world.animate_invaders();
    assert_eq!(world.actors[0].role, Role::Invader { kind: InvaderKind::A, frame: 1 });
}

#[test]
fn sprite_keys() {
    assert_eq!(invader_sprite_key(InvaderKind::B, 2), "invader_b2");
    assert_eq!(invader_sprite_key(InvaderKind::A, 1), "invader_a1");
    assert_eq!(invader_sprite_key(InvaderKind::C, 2), "invader_c2");
}

#[test]
fn timer_once_finishes_and_stays() {
    let mut t = Timer::new(500, TimerMode::Once);
    t.tick(300);
    assert!(!t.finished());
    t.tick(200);
    assert!(t.finished() && t.just_finished());
    assert_eq!(t.elapsed, 500);
    t.tick(100);
    assert!(t.finished() && !t.just_finished());
    t.reset();
    assert!(!t.finished());
    assert_eq!(t.elapsed, 0);
}

#[test]
fn timer_repeating_keeps_remainder() {
    let mut t = Timer::new(300, TimerMode::Repeating);
    t.tick(700);
    assert!(t.finished() && t.just_finished());
    assert_eq!(t.elapsed, 100);
    t.tick(100);
    assert!(!t.finished() && !t.just_finished());
    t.set_duration(150);
    t.tick(0);
    assert!(t.finished());
    assert_eq!(t.elapsed, 50);
}

#[test]
fn shooting_respects_cooldown() {
    let cfg = Config::classic();
    let mut world = world_of(vec![]);
    let mut cooldown = Timer::new(500_000, TimerMode::Once);
    assert!(!shoot_bullet(&mut world, &mut cooldown, &cfg, true, 499_999));
    assert!(world.actors.is_empty());
    assert!(shoot_bullet(&mut world, &mut cooldown, &cfg, true, 1));
    assert_eq!(world.actors.len(), 1);
    assert_eq!(world.actors[0].pos, Point { x: 0, y: -318 * PX });
    assert_eq!(world.actors[0].role, Role::PlayerBullet);
    assert!(!shoot_bullet(&mut world, &mut cooldown, &cfg, true, 100_000));
    assert!(!shoot_bullet(&mut world, &mut cooldown, &cfg, false, 400_000));
    assert!(shoot_bullet(&mut world, &mut cooldown, &cfg, true, 0));
    assert_eq!(world.actors.len(), 2);
}

#[test]
fn lone_invader_fires_below_itself() {
    let cfg = Config::classic();
    let mut world = world_of(vec![bullet(1, 0, 0), invader(2, 40 * PX, 100 * PX)]);
    let mut timer = Timer::new(2_000_000, TimerMode::Repeating);
    assert_eq!(invader_shoot(&mut world, &mut timer, &cfg, 1_000_000), None);
    assert_eq!(invader_shoot(&mut world, &mut timer, &cfg, 1_000_000), Some(1));
    assert_eq!(world.actors.len(), 3);
    // 100 - 16 (half the shooter) - 5 (half the bullet) pixels.
    assert_eq!(world.actors[2].pos, Point { x: 40 * PX, y: 79 * PX });
    assert_eq!(world.actors[2].role, Role::InvaderBullet);
    assert_eq!(world.actors[2].id, 3);
}

#[test]
fn no_invader_fire_without_invaders() {
    let cfg = Config::classic();
    let mut world = world_of(vec![bullet(1, 0, 0)]);
    let mut timer = Timer::new(2_000_000, TimerMode::Repeating);
    assert_eq!(invader_shoot(&mut world, &mut timer, &cfg, 2_000_000), None);
    assert!(timer.finished());
    assert_eq!(world.actors.len(), 1);
}

#[test]
fn nth_invader_skips_other_actors() {
    let actors = vec![bullet(1, 0, 0), invader(2, 0, 0), bullet(3, 0, 0), invader(4, 0, 0)];
    assert_eq!(nth_invader(&actors, 0), 1);
    assert_eq!(nth_invader(&actors, 1), 3);
}

#[test]
fn insert_and_remove() {
    let mut world = world_of(vec![invader(1, 0, 0)]);
    let id = world.insert(Point { x: 1, y: 2 }, Size { w: 3, h: 4 }, Role::PlayerBullet);
    assert_eq!(id, 2);
    assert_eq!(world.next_id, 3);
    world.remove(1);
    assert_eq!(world.actors.len(), 1);
    assert_eq!(world.actors[0].id, 2);
    world.remove(1);
    assert_eq!(world.actors.len(), 1);
    assert_eq!(world.invader_count(), 0);
}

#[test]
fn classic_setup_layout() {
    let cfg = Config::classic();
    let world = World::setup(&cfg);
    assert_eq!(world.actors.len(), 40);
    assert_eq!(world.invader_count(), 40);
    assert_eq!(world.turret.pos, Point { x: 0, y: -334 * PX });
    let first = world.actors[0];
    assert_eq!(first.pos, Point { x: -321 * PX, y: 318 * PX });
    assert_eq!(first.role, Role::Invader { kind: InvaderKind::A, frame: 1 });
    assert_eq!(first.size, Size { w: 32 * PX, h: 32 * PX });
    let last = world.actors[39];
    assert_eq!(last.pos, Point { x: 85 * PX, y: 150 * PX });
    assert_eq!(last.role, Role::Invader { kind: InvaderKind::C, frame: 1 });
    assert_eq!(world.actors[20].role, Role::Invader { kind: InvaderKind::B, frame: 1 });
    assert_eq!(world.next_id, 41);
}

#[test]
fn row_kinds() {
    assert_eq!(row_kind_exec(0), InvaderKind::A);
    assert_eq!(row_kind_exec(1), InvaderKind::A);
    assert_eq!(row_kind_exec(2), InvaderKind::B);
    assert_eq!(row_kind_exec(3), InvaderKind::B);
    assert_eq!(row_kind_exec(4), InvaderKind::C);
}

#[test]
fn game_runs_ticks() {
    let mut game = Game::new(Config::classic());
    let r = game.update(false, false, true, 500 * MS);
    assert!(r.fired);
    assert_eq!(game.world.actors.len(), 41);
    let t = game.fixed_update(1000 * MS);
    assert!(t.marched);
    assert_eq!(t.collisions.bullet_hits, 0);
    assert_eq!(game.formation.direction, Direction::Right);
    assert_eq!(game.world.actors[0].pos.x, -295 * PX);
    assert_eq!(game.world.actors[0].role, Role::Invader { kind: InvaderKind::A, frame: 2 });
    assert_eq!(game.world.actors[40].pos.y, 82 * PX);
}

#[test]
fn collisions_see_this_ticks_moved_bullets() {
    let mut game = Game::new(Config::classic());
    // The bullet's top edge is 6 px below the invader's bottom edge; it
    // travels 40 px in this tick.
    game.world.actors = vec![invader(1, 0, 100 * PX), bullet(2, 0, 70 * PX)];
    game.world.next_id = 3;
    let t = game.fixed_update(100 * MS);
    assert_eq!(t.collisions.bullet_hits, 1);
    assert!(game.world.actors.is_empty());
}

#[test]
fn frames_stay_until_march_timer_finishes() {
    let mut game = Game::new(Config::classic());
    let t = game.fixed_update(999 * MS);
    assert!(!t.marched);
    assert_eq!(game.world.actors[0].role, Role::Invader { kind: InvaderKind::A, frame: 1 });
    assert_eq!(game.world.actors[0].pos, Point { x: -321 * PX, y: 318 * PX });
}

#[test]
fn frame_delta_keeps_sub_millisecond_time() {
    let mut t = Timer::new(50_000, TimerMode::Repeating);
    for _ in 0..2 {
        t.tick(16_667);
    }
    assert!(!t.finished());
    t.tick(16_667);
    assert!(t.finished());
    assert_eq!(t.elapsed, 1);
}
