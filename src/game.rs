//! The whole simulation state and its two per-frame steps.
use vstd::prelude::*;
use crate::collision::{player_hits_upto, removal_marks, turret_hits_upto, CollisionReport};
use crate::config::Config;
use crate::formation::{animated, has_room, marched, next_direction, shifted, Formation};
use crate::geometry::Point;
use crate::movement::{flight_marks, flown, turret_target};
use crate::timer::{ticked, Timer, TimerMode};
use crate::weapons::{drop_point, fires, invader_shoot, is_nth_invader, muzzle, shoot_bullet};
use crate::world::{
    invader_total, kept, lemma_invaders_push, lemma_invaders_same_kinds, lemma_kept_invaders,
    Actor, Role, World,
};

verus! {

/// The simulation: the actors, the formation and the two weapon timers.
#[derive(Clone, Debug)]
pub struct Game {
    pub cfg: Config,
    pub world: World,
    pub formation: Formation,
    /// The turret's one-shot cooldown.
    pub cooldown: Timer,
    /// The invaders' repeating shoot timer.
    pub shoot_timer: Timer,
}

/// What one input-driven step did.
#[derive(Clone, Copy, Debug, PartialEq, Eq, Structural)]
pub struct UpdateReport {
    /// The turret fired.
    pub fired: bool,
    /// The store index of the invader that fired, if one did.
    pub shooter: Option<usize>,
}

/// As invaders fall the formation never marches slower: of two fixed ticks,
/// the later one, which sees no more invaders, sets an interval no longer
/// than the earlier one's.
pub proof fn lemma_march_never_slows(earlier: Game, later: Game)
    requires
        earlier.wf(),
        later.wf(),
        later.cfg == earlier.cfg,
        later.formation.total == earlier.formation.total,
        later.invaders() <= earlier.invaders(),
        earlier.formation.timer.duration == earlier.formation.interval(earlier.invaders() as int),
        later.formation.timer.duration == later.formation.interval(later.invaders() as int),
    ensures
        later.formation.timer.duration <= earlier.formation.timer.duration,
        later.formation.timer.duration >= later.cfg.minimum_march_interval,
{
    crate::formation::lemma_interval_monotone(
        earlier.cfg.march_interval as int,
        earlier.cfg.minimum_march_interval as int,
        later.invaders() as int,
        earlier.invaders() as int,
        earlier.formation.total as int,
    );
}

/// What one fixed tick did.
#[derive(Clone, Copy, Debug, PartialEq, Eq, Structural)]
pub struct TickReport {
    pub collisions: CollisionReport,
    /// The formation took a march step.
    pub marched: bool,
}

impl Game {
    pub open spec fn wf(self) -> bool {
        &&& self.cfg.wf()
        &&& self.world.wf()
        &&& self.cfg.left_bound() <= self.world.turret.pos.x <= self.cfg.right_bound()
        &&& self.formation.total == self.cfg.grid_total()
        &&& self.formation.total > 0
        &&& invader_total(self.world.actors@) <= self.formation.total
        &&& self.formation.minimum_interval == self.cfg.minimum_march_interval
        &&& self.formation.initial_interval == self.cfg.march_interval
        &&& self.cooldown.wf()
        &&& self.shoot_timer.wf()
        &&& self.formation.timer.wf()
        &&& self.formation.timer.mode == TimerMode::Repeating
        &&& self.cooldown.mode == TimerMode::Once
        &&& self.cooldown.duration == self.cfg.shoot_cooldown
        &&& self.shoot_timer.mode == TimerMode::Repeating
        &&& self.shoot_timer.duration == self.cfg.invader_shoot_interval
    }

    /// The live invaders.
    pub open spec fn invaders(self) -> nat {
        invader_total(self.world.actors@)
    }

    /// A new game: the starting layout, the formation sweeping right, and
    /// all timers fresh.
    pub fn new(cfg: Config) -> (g: Game)
        requires
            cfg.wf(),
        ensures
            g.wf(),
            g.cfg == cfg,
            g.world.turret == (Actor {
                id: 0,
                pos: crate::grid::turret_start(cfg),
                size: cfg.turret_size,
                role: Role::Turret,
            }),
            g.world.actors@.len() == cfg.grid_total(),
            forall|i: int|
                0 <= i < g.world.actors@.len() ==> g.world.actors@[i] == crate::grid::grid_actor(
                    cfg,
                    i,
                ),
            g.invaders() == cfg.grid_total(),
            g.cooldown == Timer::new_spec(cfg.shoot_cooldown, TimerMode::Once),
            g.shoot_timer == Timer::new_spec(cfg.invader_shoot_interval, TimerMode::Repeating),
            g.formation == Formation::new_spec(
                cfg.march_interval,
                cfg.minimum_march_interval,
                cfg.grid_total() as usize,
            ),
    {
        let world = World::setup(&cfg);
        let total = world.actors.len();
        proof {
            lemma_all_invaders(world.actors@, cfg);
        }
        Game {
            cfg,
            world,
            formation: Formation::new(cfg.march_interval, cfg.minimum_march_interval, total),
            cooldown: Timer::new(cfg.shoot_cooldown, TimerMode::Once),
            shoot_timer: Timer::new(cfg.invader_shoot_interval, TimerMode::Repeating),
        }
    }

    /// The input-driven step: the turret moves by the held keys, fires if
    /// `fire` was just pressed and its cooldown allows, and the invaders'
    /// shoot timer may make a random invader fire.
    pub fn update(&mut self, left: bool, right: bool, fire: bool, delta: u32) -> (r: UpdateReport)
        requires
            old(self).wf(),
        ensures
            final(self).wf(),
            final(self).cfg == old(self).cfg,
            final(self).invaders() <= old(self).invaders(),
            final(self).world.turret == (Actor {
                pos: Point {
                    x: turret_target(
                        old(self).cfg,
                        old(self).world.turret.pos.x as int,
                        left,
                        right,
                        delta,
                    ) as i64,
                    ..old(self).world.turret.pos
                },
                ..old(self).world.turret
            }),
            old(self).cfg.left_bound() <= final(self).world.turret.pos.x
                <= old(self).cfg.right_bound(),
            r.fired == (old(self).world.next_id < u64::MAX && fires(old(self).cooldown, fire, delta)),
            r.fired ==> final(self).cooldown.elapsed == 0 && !final(self).cooldown.finished,
            !r.fired ==> final(self).cooldown == ticked(old(self).cooldown, delta),
            final(self).shoot_timer == ticked(old(self).shoot_timer, delta),
            r.shooter is Some == (ids_after_shot(old(self).world.next_id, r.fired) < u64::MAX
                && ticked(old(self).shoot_timer, delta).finished && old(self).invaders() > 0),
            r.shooter matches Some(j) ==> {
                let s1 = with_shot(old(self).world.actors@, r.fired, old(self).world.next_id, final(self).world.turret, old(self).cfg);
                let id = ids_after_shot(old(self).world.next_id, r.fired);
                &&& exists|pick: int| #[trigger] is_nth_invader(s1, pick, j as int)
                &&& final(self).world.next_id == id + 1
                &&& final(self).world.actors@ == s1.push(
                    Actor {
                        id: id as u64,
                        pos: drop_point(s1[j as int], old(self).cfg),
                        size: old(self).cfg.invader_bullet_size,
                        role: Role::InvaderBullet,
                    },
                )
            },
            r.shooter is None ==> final(self).world.actors@ == with_shot(
                old(self).world.actors@,
                r.fired,
                old(self).world.next_id,
                final(self).world.turret,
                old(self).cfg,
            ) && final(self).world.next_id == ids_after_shot(old(self).world.next_id, r.fired),
            final(self).formation == old(self).formation,
    {
        let cfg = self.cfg;
        self.world.move_turret(&cfg, left, right, delta);
        let ghost s0 = self.world.actors@;
        let fired = if self.world.next_id < u64::MAX {
            let f = shoot_bullet(&mut self.world, &mut self.cooldown, &cfg, fire, delta);
            proof {
                if f {
                    lemma_invaders_push(s0, self.world.actors@.last());
                    assert(s0.push(self.world.actors@.last()) == self.world.actors@);
                }
            }
            f
        } else {
            self.cooldown.tick(delta);
            false
        };
        let ghost s1 = self.world.actors@;
        let shooter = if self.world.next_id < u64::MAX {
            let s = invader_shoot(&mut self.world, &mut self.shoot_timer, &cfg, delta);
            proof {
                if s is Some {
                    lemma_invaders_push(s1, self.world.actors@.last());
                    assert(s1.push(self.world.actors@.last()) == self.world.actors@);
                }
            }
            s
        } else {
            self.shoot_timer.tick(delta);
            None
        };
        UpdateReport { fired, shooter }
    }

    /// The store after this tick's bullet moves: player bullets up, invader
    /// bullets down, each dropped once past its edge of the field.
    pub open spec fn flown_store(self, delta: u32) -> Seq<Actor> {
        let dy = self.cfg.bullet_speed * delta;
        let half = self.cfg.field_height / 2;
        let s0 = self.world.actors@;
        let s1 = kept(flown(s0, true, dy), flight_marks(s0, true, dy, half));
        kept(flown(s1, false, -dy), flight_marks(s1, false, -dy, half))
    }

    /// The store after this tick's bullet moves and collisions.
    pub open spec fn struck_store(self, delta: u32) -> Seq<Actor> {
        let s2 = self.flown_store(delta);
        kept(s2, removal_marks(s2, self.world.turret))
    }

    /// The fixed tick: the bullets move and leave the field, then collisions
    /// are resolved on these moved positions, then the formation advances;
    /// when its timer finishes the invaders also swap frames.
    pub fn fixed_update(&mut self, delta: u32) -> (r: TickReport)
        requires
            old(self).wf(),
        ensures
            final(self).wf(),
            final(self).cfg == old(self).cfg,
            final(self).invaders() <= old(self).invaders(),
            final(self).world.turret == old(self).world.turret,
            r.collisions.bullet_hits == player_hits_upto(
                old(self).flown_store(delta),
                old(self).flown_store(delta).len() as int,
            ),
            r.collisions.turret_hits == turret_hits_upto(
                old(self).flown_store(delta),
                old(self).world.turret,
                old(self).flown_store(delta).len() as int,
            ),
            final(self).formation.timer.duration == old(self).formation.interval(
                invader_total(old(self).struck_store(delta)) as int,
            ),
            final(self).formation.timer == ticked(
                Timer { duration: final(self).formation.timer.duration, ..old(self).formation.timer },
                delta,
            ),
            final(self).formation.timer.duration >= old(self).cfg.minimum_march_interval,
            final(self).formation.timer.duration == final(self).formation.interval(
                final(self).invaders() as int,
            ),
            final(self).formation.total == old(self).formation.total,
            final(self).formation.initial_interval == old(self).formation.initial_interval,
            final(self).formation.minimum_interval == old(self).formation.minimum_interval,
            r.marched == (final(self).formation.timer.finished && has_room(
                old(self).struck_store(delta),
                old(self).cfg.invader_step as int,
                old(self).cfg.invader_vertical_step as int,
            )),
            final(self).formation.direction == if r.marched {
                next_direction(old(self).struck_store(delta), old(self).formation.direction, old(self).cfg)
            } else {
                old(self).formation.direction
            },
            final(self).world.actors@ == ({
                let s4 = if r.marched {
                    marched(old(self).struck_store(delta), old(self).formation.direction, old(self).cfg)
                } else {
                    old(self).struck_store(delta)
                };
                if final(self).formation.timer.just_finished {
                    animated(s4)
                } else {
                    s4
                }
            }),
            final(self).cooldown == old(self).cooldown,
            final(self).shoot_timer == old(self).shoot_timer,
    {
        let cfg = self.cfg;
        let ghost s0 = self.world.actors@;
        self.world.move_player_bullets(&cfg, delta);
        proof {
            let f = flown(s0, true, cfg.bullet_speed * delta);
            lemma_invaders_same_kinds(s0, f, s0.len() as int);
            lemma_kept_invaders(
                f,
                flight_marks(s0, true, cfg.bullet_speed * delta, cfg.field_height / 2),
                f.len() as int,
            );
        }
        let ghost s1 = self.world.actors@;
        self.world.move_invader_bullets(&cfg, delta);
        proof {
            let f = flown(s1, false, -(cfg.bullet_speed * delta));
            lemma_invaders_same_kinds(s1, f, s1.len() as int);
            lemma_kept_invaders(
                f,
                flight_marks(s1, false, -(cfg.bullet_speed * delta), cfg.field_height / 2),
                f.len() as int,
            );
        }
        let ghost s2 = self.world.actors@;
        let collisions = self.world.resolve_collisions();
        proof {
            lemma_kept_invaders(s2, removal_marks(s2, self.world.turret), s2.len() as int);
        }
        let ghost s3 = self.world.actors@;
        let marched = self.formation.advance(&mut self.world, &cfg, delta);
        proof {
            if marched {
                lemma_invaders_same_kinds(s3, shifted(s3, 0, -cfg.invader_vertical_step), s3.len() as int);
                lemma_invaders_same_kinds(s3, shifted(s3, cfg.invader_step as int, 0), s3.len() as int);
                lemma_invaders_same_kinds(s3, shifted(s3, -cfg.invader_step, 0), s3.len() as int);
            }
        }
        let ghost s4 = self.world.actors@;
        proof {
            lemma_invaders_same_kinds(s3, s4, s3.len() as int);
        }
        if self.formation.timer.just_finished() {
            self.world.animate_invaders();
            proof {
                lemma_invaders_same_kinds(s4, animated(s4), s4.len() as int);
            }
        }
        TickReport { collisions, marched }
    }
}

/// The next free id after the turret's shot, if it fired.
pub open spec fn ids_after_shot(next_id: u64, fired: bool) -> int {
    if fired {
        next_id + 1
    } else {
        next_id as int
    }
}

/// The store `s` with the turret's shot appended, if it fired.
pub open spec fn with_shot(s: Seq<Actor>, fired: bool, id: u64, turret: Actor, cfg: Config) -> Seq<Actor> {
    if fired {
        s.push(Actor { id, pos: muzzle(turret), size: cfg.bullet_size, role: Role::PlayerBullet })
    } else {
        s
    }
}

proof fn lemma_all_invaders(s: Seq<crate::world::Actor>, cfg: Config)
    requires
        forall|i: int| 0 <= i < s.len() ==> s[i] == crate::grid::grid_actor(cfg, i),
    ensures
        invader_total(s) == s.len(),
{
    lemma_invaders_all(s, s.len() as int, cfg);
}

proof fn lemma_invaders_all(s: Seq<crate::world::Actor>, n: int, cfg: Config)
    requires
        0 <= n <= s.len(),
        forall|i: int| 0 <= i < s.len() ==> s[i] == crate::grid::grid_actor(cfg, i),
    ensures
        crate::world::invaders_upto(s, n) == n,
    decreases n,
{
    if n > 0 {
        lemma_invaders_all(s, n - 1, cfg);
        assert(s[n - 1] == crate::grid::grid_actor(cfg, n - 1));
    }
}

} // verus!
