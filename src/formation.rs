//! The invader formation: its sweep and descend steps and its cadence.
use vstd::prelude::*;
use vstd::arithmetic::div_mod::{lemma_basic_div, lemma_div_is_ordered, lemma_div_by_multiple};
use crate::config::Config;
use crate::geometry::{anchor_ok, Point, ANCHOR_LIMIT};
use crate::timer::{ticked, Timer, TimerMode};
use crate::world::{
    actor_ok, invader_total, is_invader, is_invader_exec, Actor, InvaderKind, Role, World,
};

verus! {

/// The way the formation sweeps.
#[derive(Clone, Copy, Debug, PartialEq, Eq, Structural)]
pub enum Direction {
    Left,
    Right,
}

/// The formation's state: its direction and its repeating march timer, whose
/// interval shrinks as invaders fall.
#[derive(Clone, Copy, Debug, PartialEq, Eq, Structural)]
pub struct Formation {
    pub direction: Direction,
    pub timer: Timer,
    pub initial_interval: u32,
    pub minimum_interval: u32,
    /// The number of invaders that the grid started with.
    pub total: usize,
}

/// The march interval for `count` live invaders out of `total`: the initial
/// interval scaled by the surviving share, never below the minimum.
pub open spec fn interval_for(initial: int, minimum: int, count: int, total: int) -> int {
    let scaled = initial * count / total;
    if scaled > minimum {
        scaled
    } else {
        minimum
    }
}

/// The march interval for `count` live invaders out of `total`.
pub fn march_interval(initial: u32, minimum: u32, count: usize, total: usize) -> (r: u32)
    requires
        0 < total,
        count <= total,
    ensures
        r == interval_for(initial as int, minimum as int, count as int, total as int),
        r >= minimum,
{
    assert(0 <= initial * count <= 0x1_0000_0000 * 0x1_0000_0000_0000_0000) by (nonlinear_arith)
        requires
            0 <= initial <= 0x1_0000_0000,
            0 <= count <= 0x1_0000_0000_0000_0000,
    ;
    let product: u128 = initial as u128 * count as u128;
    let scaled: u128 = product / total as u128;
    proof {
        assert(initial * count <= initial * total) by (nonlinear_arith)
            requires
                count <= total,
        ;
        lemma_div_is_ordered(initial * count, initial * total, total as int);
        lemma_div_by_multiple(initial as int, total as int);
        assert(initial * total == total * initial) by (nonlinear_arith);
    }
    if scaled > minimum as u128 {
        scaled as u32
    } else {
        minimum
    }
}

/// The march interval never drops below the minimum.
pub proof fn lemma_interval_floor(initial: int, minimum: int, count: int, total: int)
    requires
        0 < total,
    ensures
        interval_for(initial, minimum, count, total) >= minimum,
{
}

/// Fewer live invaders never make the formation march slower.
pub proof fn lemma_interval_monotone(initial: int, minimum: int, fewer: int, more: int, total: int)
    requires
        0 <= initial,
        0 <= fewer <= more,
        0 < total,
    ensures
        interval_for(initial, minimum, fewer, total) <= interval_for(initial, minimum, more, total),
{
    assert(initial * fewer <= initial * more) by (nonlinear_arith)
        requires
            0 <= initial,
            fewer <= more,
    ;
    lemma_div_is_ordered(initial * fewer, initial * more, total);
}

/// When the invaders drop from `n` to one, the march interval strictly
/// shrinks, unless it was already at the minimum.
pub proof fn lemma_interval_drops_to_one(initial: int, minimum: int, n: int, total: int)
    requires
        0 <= initial,
        0 <= minimum,
        2 <= n <= total,
        interval_for(initial, minimum, n, total) > minimum,
    ensures
        interval_for(initial, minimum, 1, total) < interval_for(initial, minimum, n, total),
{
    let q = initial / total;
    if initial >= total {
        assert(initial * n >= initial + total) by (nonlinear_arith)
            requires
                initial >= total,
                initial >= 0,
                n >= 2,
        {
            assert(initial * (n - 1) >= initial * 1) by (nonlinear_arith)
                requires
                    initial >= 0,
                    n - 1 >= 1,
            ;
            assert(initial * n == initial * (n - 1) + initial) by (nonlinear_arith);
        }
        assert((q + 1) * total == q * total + total) by (nonlinear_arith);
        assert(q * total <= initial) by (nonlinear_arith)
            requires
                q == initial / total,
                total > 0,
                initial >= 0,
        ;
        lemma_div_is_ordered((q + 1) * total, initial * n, total);
        lemma_div_by_multiple(q + 1, total);
        assert(initial * 1 == initial);
    } else {
        lemma_basic_div(initial, total);
        assert(initial * 1 == initial);
    }
}

/// Some invader of `s` stands right of `limit`.
pub open spec fn beyond_right(s: Seq<Actor>, limit: int) -> bool {
    exists|k: int| 0 <= k < s.len() && is_invader(s[k]) && #[trigger] s[k].pos.x > limit
}

/// Some invader of `s` stands left of `-limit`.
pub open spec fn beyond_left(s: Seq<Actor>, limit: int) -> bool {
    exists|k: int| 0 <= k < s.len() && is_invader(s[k]) && #[trigger] s[k].pos.x < -limit
}

/// The formation, sweeping in `dir`, must turn: its outermost invader on
/// that side has passed the limit.
pub open spec fn must_turn(s: Seq<Actor>, dir: Direction, limit: int) -> bool {
    match dir {
        Direction::Right => beyond_right(s, limit),
        Direction::Left => beyond_left(s, limit),
    }
}

pub open spec fn opposite(dir: Direction) -> Direction {
    match dir {
        Direction::Right => Direction::Left,
        Direction::Left => Direction::Right,
    }
}

/// The actor `a`, moved by `(dx, dy)`.
pub open spec fn moved(a: Actor, dx: int, dy: int) -> Actor {
    Actor { pos: Point { x: (a.pos.x + dx) as i64, y: (a.pos.y + dy) as i64 }, ..a }
}

/// The actors of `s`, each invader moved by `(dx, dy)`.
pub open spec fn shifted(s: Seq<Actor>, dx: int, dy: int) -> Seq<Actor> {
    Seq::new(s.len(), |k: int| if is_invader(s[k]) { moved(s[k], dx, dy) } else { s[k] })
}

/// The formation turns exactly when its extreme invader X on the side it
/// sweeps toward lies past the limit: `hi` and `lo` are the largest and
/// smallest invader X.
pub proof fn lemma_turn_iff_extreme_crosses(s: Seq<Actor>, limit: int, lo: int, hi: int)
    requires
        exists|k: int| 0 <= k < s.len() && is_invader(s[k]) && #[trigger] s[k].pos.x == lo,
        exists|k: int| 0 <= k < s.len() && is_invader(s[k]) && #[trigger] s[k].pos.x == hi,
        forall|k: int| 0 <= k < s.len() && is_invader(#[trigger] s[k]) ==> lo <= s[k].pos.x <= hi,
    ensures
        must_turn(s, Direction::Right, limit) <==> hi > limit,
        must_turn(s, Direction::Left, limit) <==> lo < -limit,
{
}

/// The sideways step of a formation sweeping in `dir`.
pub open spec fn march_dx(dir: Direction, cfg: Config) -> int {
    if dir == Direction::Right {
        cfg.invader_step as int
    } else {
        -cfg.invader_step
    }
}

/// The actors after one march step of a formation sweeping in `dir`: a drop
/// by the vertical step when it must turn, else a sideways step.
pub open spec fn marched(s: Seq<Actor>, dir: Direction, cfg: Config) -> Seq<Actor> {
    if must_turn(s, dir, cfg.march_limit()) {
        shifted(s, 0, -cfg.invader_vertical_step)
    } else {
        shifted(s, march_dx(dir, cfg), 0)
    }
}

/// The direction after one march step.
pub open spec fn next_direction(s: Seq<Actor>, dir: Direction, cfg: Config) -> Direction {
    if must_turn(s, dir, cfg.march_limit()) {
        opposite(dir)
    } else {
        dir
    }
}

/// Every invader can take a step either way, or a step down, and stay in the
/// coordinate range.
pub open spec fn has_room(s: Seq<Actor>, step: int, drop: int) -> bool {
    forall|k: int|
        0 <= k < s.len() && is_invader(#[trigger] s[k]) ==> anchor_ok(s[k].pos.x + step)
            && anchor_ok(s[k].pos.x - step) && anchor_ok(s[k].pos.y - drop)
}

/// The smallest and largest X among the invaders, if there are any.
pub fn invader_x_range(actors: &Vec<Actor>) -> (r: Option<(i64, i64)>)
    ensures
        r is None ==> forall|k: int| 0 <= k < actors@.len() ==> !is_invader(#[trigger] actors@[k]),
        r matches Some((lo, hi)) ==> {
            &&& exists|k: int|
                0 <= k < actors@.len() && is_invader(actors@[k]) && #[trigger] actors@[k].pos.x == lo
            &&& exists|k: int|
                0 <= k < actors@.len() && is_invader(actors@[k]) && #[trigger] actors@[k].pos.x == hi
            &&& forall|k: int|
                0 <= k < actors@.len() && is_invader(#[trigger] actors@[k]) ==> lo <= actors@[k].pos.x
                    <= hi
        },
{
    let mut r: Option<(i64, i64)> = None;
    let mut i: usize = 0;
    while i < actors.len()
        invariant
            i <= actors@.len(),
            r is None ==> forall|k: int| 0 <= k < i ==> !is_invader(#[trigger] actors@[k]),
            r matches Some((lo, hi)) ==> {
                &&& exists|k: int|
                    0 <= k < i && is_invader(actors@[k]) && #[trigger] actors@[k].pos.x == lo
                &&& exists|k: int|
                    0 <= k < i && is_invader(actors@[k]) && #[trigger] actors@[k].pos.x == hi
                &&& forall|k: int|
                    0 <= k < i && is_invader(#[trigger] actors@[k]) ==> lo <= actors@[k].pos.x <= hi
            },
        decreases actors@.len() - i,
    {
        let a = &actors[i];
        if is_invader_exec(a) {
            let x = a.pos.x;
            r = match r {
                None => Some((x, x)),
                Some((lo, hi)) => Some(
                    (if x < lo {
                        x
                    } else {
                        lo
                    }, if x > hi {
                        x
                    } else {
                        hi
                    }),
                ),
            };
        }
        i = i + 1;
    }
    r
}

impl World {
    /// Moves every invader by `(dx, dy)` and leaves the other actors alone.
    pub fn shift_invaders(&mut self, dx: i64, dy: i64)
        requires
            old(self).wf(),
            forall|k: int|
                0 <= k < old(self).actors@.len() && is_invader(#[trigger] old(self).actors@[k])
                    ==> anchor_ok(old(self).actors@[k].pos.x + dx) && anchor_ok(
                    old(self).actors@[k].pos.y + dy,
                ),
        ensures
            final(self).wf(),
            final(self).turret == old(self).turret,
            final(self).next_id == old(self).next_id,
            final(self).actors@ == shifted(old(self).actors@, dx as int, dy as int),
    {
        let ghost s = self.actors@;
        let mut i: usize = 0;
        while i < self.actors.len()
            invariant
                old(self).wf(),
                s == old(self).actors@,
                self.turret == old(self).turret,
                self.next_id == old(self).next_id,
                self.actors@.len() == s.len(),
                i <= s.len(),
                forall|k: int|
                    0 <= k < s.len() && is_invader(#[trigger] s[k]) ==> anchor_ok(s[k].pos.x + dx)
                        && anchor_ok(s[k].pos.y + dy),
                forall|k: int| 0 <= k < i ==> self.actors@[k] == shifted(s, dx as int, dy as int)[k],
                forall|k: int| i <= k < s.len() ==> self.actors@[k] == s[k],
            decreases s.len() - i,
        {
            let a = self.actors[i];
            assert(a == s[i as int]);
            if is_invader_exec(&a) {
                let b = Actor { pos: Point { x: a.pos.x + dx, y: a.pos.y + dy }, ..a };
                self.actors.set(i, b);
            }
            i = i + 1;
        }
        assert(self.actors@ =~= shifted(s, dx as int, dy as int));
    }
}

/// One march step of the formation sweeping in `dir`. If its outermost
/// invader on that side has passed the limit, every invader drops by the
/// vertical step, none moves sideways, and the direction flips; otherwise
/// every invader steps sideways in `dir`. Returns the new direction.
pub fn march_step(world: &mut World, dir: Direction, cfg: &Config) -> (r: Direction)
    requires
        old(world).wf(),
        cfg.wf(),
        has_room(old(world).actors@, cfg.invader_step as int, cfg.invader_vertical_step as int),
    ensures
        final(world).wf(),
        final(world).turret == old(world).turret,
        final(world).next_id == old(world).next_id,
        must_turn(old(world).actors@, dir, cfg.march_limit()) ==> {
            &&& r == opposite(dir)
            &&& final(world).actors@ == shifted(old(world).actors@, 0, -cfg.invader_vertical_step)
        },
        !must_turn(old(world).actors@, dir, cfg.march_limit()) ==> {
            &&& r == dir
            &&& final(world).actors@ == shifted(
                old(world).actors@,
                if dir == Direction::Right {
                    cfg.invader_step as int
                } else {
                    -cfg.invader_step
                },
                0,
            )
        },
{
    let ghost s = world.actors@;
    let limit: i64 = cfg.field_width / 2 - cfg.invader_gap - cfg.widest_invader_width();
    let range = invader_x_range(&world.actors);
    let turn = match range {
        None => false,
        Some((lo, hi)) => match dir {
            Direction::Right => hi > limit,
            Direction::Left => lo < -limit,
        },
    };
    proof {
        if turn {
            assert(must_turn(s, dir, limit as int));
        } else if let Some((lo, hi)) = range {
            if dir == Direction::Right {
                assert(!beyond_right(s, limit as int));
            } else {
                assert(!beyond_left(s, limit as int));
            }
        }
    }
    if turn {
        world.shift_invaders(0, -cfg.invader_vertical_step);
        match dir {
            Direction::Right => Direction::Left,
            Direction::Left => Direction::Right,
        }
    } else {
        let dx = match dir {
            Direction::Right => cfg.invader_step,
            Direction::Left => -cfg.invader_step,
        };
        world.shift_invaders(dx, 0);
        dir
    }
}

/// Whether every invader has room for one more step of `step` sideways or
/// `drop` down.
pub fn room_to_march(actors: &Vec<Actor>, step: i64, drop: i64) -> (r: bool)
    requires
        0 <= step,
        0 <= drop,
        forall|k: int| 0 <= k < actors@.len() ==> actor_ok(#[trigger] actors@[k]),
    ensures
        r == has_room(actors@, step as int, drop as int),
{
    let mut i: usize = 0;
    while i < actors.len()
        invariant
            0 <= step,
            0 <= drop,
            i <= actors@.len(),
            forall|k: int| 0 <= k < actors@.len() ==> actor_ok(#[trigger] actors@[k]),
            has_room(actors@.take(i as int), step as int, drop as int),
        decreases actors@.len() - i,
    {
        let a = &actors[i];
        assert(actor_ok(actors@[i as int]));
        if is_invader_exec(a) {
            if a.pos.x > ANCHOR_LIMIT - step || a.pos.x < step - ANCHOR_LIMIT || a.pos.y < drop
                - ANCHOR_LIMIT {
                assert(!has_room(actors@, step as int, drop as int)) by {
                    assert(actors@[i as int] == *a);
                }
                return false;
            }
        }
        i = i + 1;
        assert forall|k: int|
            0 <= k < i && is_invader(#[trigger] actors@.take(i as int)[k]) implies anchor_ok(
            actors@.take(i as int)[k].pos.x + step,
        ) && anchor_ok(actors@.take(i as int)[k].pos.x - step) && anchor_ok(
            actors@.take(i as int)[k].pos.y - drop,
        ) by {
            if k < i - 1 {
                assert(actors@.take(i as int)[k] == actors@.take(i - 1)[k]);
            }
        }
    }
    assert(actors@.take(i as int) =~= actors@);
    true
}

impl Formation {
    pub open spec fn new_spec(initial_interval: u32, minimum_interval: u32, total: usize) -> Formation {
        Formation {
            direction: Direction::Right,
            timer: Timer::new_spec(initial_interval, TimerMode::Repeating),
            initial_interval,
            minimum_interval,
            total,
        }
    }

    /// A formation sweeping right, with a repeating timer at the initial
    /// interval.
    pub fn new(initial_interval: u32, minimum_interval: u32, total: usize) -> (r: Formation)
        ensures
            r == Formation::new_spec(initial_interval, minimum_interval, total),
    {
        Formation {
            direction: Direction::Right,
            timer: Timer::new(initial_interval, TimerMode::Repeating),
            initial_interval,
            minimum_interval,
            total,
        }
    }

    /// The march interval for `count` live invaders.
    pub open spec fn interval(self, count: int) -> int {
        interval_for(self.initial_interval as int, self.minimum_interval as int, count, self.total as int)
    }

    /// One tick of the formation: the timer's interval is set from the live
    /// invader count, the timer advances by `delta`, and when it finishes the
    /// formation takes one march step (unless an invader would leave the
    /// coordinate range). Returns whether it stepped.
    pub fn advance(&mut self, world: &mut World, cfg: &Config, delta: u32) -> (stepped: bool)
        requires
            old(world).wf(),
            cfg.wf(),
            old(self).total > 0,
            invader_total(old(world).actors@) <= old(self).total,
        ensures
            final(world).wf(),
            final(world).turret == old(world).turret,
            final(world).next_id == old(world).next_id,
            final(self).timer.duration == old(self).interval(invader_total(old(world).actors@) as int),
            final(self).timer == ticked(
                Timer { duration: final(self).timer.duration, ..old(self).timer },
                delta,
            ),
            final(self).timer.duration >= old(self).minimum_interval,
            old(self).timer.wf() && old(self).timer.mode == TimerMode::Repeating
                ==> final(self).timer.wf(),
            final(self).initial_interval == old(self).initial_interval,
            final(self).minimum_interval == old(self).minimum_interval,
            final(self).total == old(self).total,
            stepped == (final(self).timer.finished && has_room(
                old(world).actors@,
                cfg.invader_step as int,
                cfg.invader_vertical_step as int,
            )),
            !stepped ==> final(world).actors@ == old(world).actors@ && final(self).direction
                == old(self).direction,
            stepped ==> final(world).actors@ == marched(old(world).actors@, old(self).direction, *cfg)
                && final(self).direction == next_direction(
                old(world).actors@,
                old(self).direction,
                *cfg,
            ),
            stepped && must_turn(old(world).actors@, old(self).direction, cfg.march_limit()) ==> {
                &&& final(self).direction == opposite(old(self).direction)
                &&& final(world).actors@ == shifted(old(world).actors@, 0, -cfg.invader_vertical_step)
            },
            stepped && !must_turn(old(world).actors@, old(self).direction, cfg.march_limit()) ==> {
                &&& final(self).direction == old(self).direction
                &&& final(world).actors@ == shifted(
                    old(world).actors@,
                    if old(self).direction == Direction::Right {
                        cfg.invader_step as int
                    } else {
                        -cfg.invader_step
                    },
                    0,
                )
            },
    {
        let count = world.invader_count();
        let interval = march_interval(self.initial_interval, self.minimum_interval, count, self.total);
        self.timer.set_duration(interval);
        self.timer.tick(delta);
        if self.timer.finished() && room_to_march(
            &world.actors,
            cfg.invader_step,
            cfg.invader_vertical_step,
        ) {
            self.direction = march_step(world, self.direction, cfg);
            true
        } else {
            false
        }
    }
}

/// The animation frame that follows `frame`.
pub open spec fn next_frame(frame: u8) -> u8 {
    if frame == 1 {
        2
    } else {
        1
    }
}

/// The actors of `s` with each invader on its next animation frame.
pub open spec fn animated(s: Seq<Actor>) -> Seq<Actor> {
    Seq::new(
        s.len(),
        |k: int|
            match s[k].role {
                Role::Invader { kind, frame } => Actor {
                    role: Role::Invader { kind, frame: next_frame(frame) },
                    ..s[k]
                },
                _ => s[k],
            },
    )
}

impl World {
    /// Swaps every invader to its other animation frame.
    pub fn animate_invaders(&mut self)
        requires
            old(self).wf(),
        ensures
            final(self).wf(),
            final(self).turret == old(self).turret,
            final(self).next_id == old(self).next_id,
            final(self).actors@ == animated(old(self).actors@),
    {
        let ghost s = self.actors@;
        let mut i: usize = 0;
        while i < self.actors.len()
            invariant
                old(self).wf(),
                s == old(self).actors@,
                self.turret == old(self).turret,
                self.next_id == old(self).next_id,
                self.actors@.len() == s.len(),
                i <= s.len(),
                forall|k: int| 0 <= k < i ==> self.actors@[k] == animated(s)[k],
                forall|k: int| i <= k < s.len() ==> self.actors@[k] == s[k],
            decreases s.len() - i,
        {
            let a = self.actors[i];
            if let Role::Invader { kind, frame } = a.role {
                let next: u8 = if frame == 1 {
                    2
                } else {
                    1
                };
                self.actors.set(i, Actor { role: Role::Invader { kind, frame: next }, ..a });
            }
            i = i + 1;
        }
        assert(self.actors@ =~= animated(s));
    }
}

/// The key under which the renderer finds an invader's sprite.
pub open spec fn sprite_key(kind: InvaderKind, frame: u8) -> Seq<char> {
    match (kind, frame) {
        (InvaderKind::A, 1) => "invader_a1"@,
        (InvaderKind::A, _) => "invader_a2"@,
        (InvaderKind::B, 1) => "invader_b1"@,
        (InvaderKind::B, _) => "invader_b2"@,
        (InvaderKind::C, 1) => "invader_c1"@,
        (InvaderKind::C, _) => "invader_c2"@,
    }
}

/// The sprite key of an invader of `kind` on animation `frame` (1 or 2).
pub fn invader_sprite_key(kind: InvaderKind, frame: u8) -> (r: String)
    ensures
        r@ == sprite_key(kind, frame),
{
    let key: &str = match (kind, frame) {
        (InvaderKind::A, 1) => "invader_a1",
        (InvaderKind::A, _) => "invader_a2",
        (InvaderKind::B, 1) => "invader_b1",
        (InvaderKind::B, _) => "invader_b2",
        (InvaderKind::C, 1) => "invader_c1",
        (InvaderKind::C, _) => "invader_c2",
    };
    key.to_owned()
}

} // verus!
