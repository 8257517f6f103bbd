//! Turret fire under a cooldown, and invader fire from a randomly chosen
//! invader.
use vstd::prelude::*;
use rand::Rng;
use crate::config::Config;
use crate::geometry::Point;
use crate::timer::{ticked, ticked_all, total, Timer, TimerMode};
use crate::world::{
    actor_ok, invader_total, invaders_upto, is_invader, is_invader_exec, Actor, Role, World,
};

verus! {

/// Relies on rand's `thread_rng().gen_range(0..n)`: a value drawn from
/// `0..n`, which rand documents to panic when the range is empty.
#[verifier::external_body]
fn random_below(n: usize) -> (r: usize)
    requires
        n > 0,
    ensures
        r < n,
{
    rand::thread_rng().gen_range(0..n)
}

/// Where a player bullet starts: on the turret's top edge, centered on it.
pub open spec fn muzzle(turret: Actor) -> Point {
    Point { x: turret.pos.x, y: (turret.pos.y + turret.size.h / 2) as i64 }
}

/// Where an invader bullet starts: centered under the shooter, just below
/// its bottom edge (the bullet's top edge on the shooter's bottom edge).
pub open spec fn drop_point(shooter: Actor, cfg: Config) -> Point {
    Point {
        x: shooter.pos.x,
        y: (shooter.pos.y - shooter.size.h / 2 - cfg.invader_bullet_size.h / 2) as i64,
    }
}

/// The actor at `j` is the invader numbered `pick`, counting from zero in
/// store order.
pub open spec fn is_nth_invader(s: Seq<Actor>, pick: int, j: int) -> bool {
    0 <= j < s.len() && is_invader(s[j]) && invaders_upto(s, j) == pick
}

/// The turret fires if the fire key was just pressed and its cooldown, after
/// this tick, has run out.
pub open spec fn fires(cooldown: Timer, fire: bool, delta: u32) -> bool {
    fire && ticked(cooldown, delta).finished
}

proof fn lemma_invaders_upto_step(s: Seq<Actor>, n: int)
    requires
        0 <= n < s.len(),
    ensures
        invaders_upto(s, n + 1) == invaders_upto(s, n) + if is_invader(s[n]) {
            1nat
        } else {
            0nat
        },
{
}

proof fn lemma_invaders_upto_bounded(s: Seq<Actor>, a: int, b: int)
    requires
        0 <= a <= b <= s.len(),
    ensures
        invaders_upto(s, a) <= invaders_upto(s, b),
    decreases b - a,
{
    if a < b {
        lemma_invaders_upto_bounded(s, a, b - 1);
    }
}

/// The index in `actors` of the invader numbered `pick`.
pub fn nth_invader(actors: &Vec<Actor>, pick: usize) -> (j: usize)
    requires
        pick < invader_total(actors@),
    ensures
        is_nth_invader(actors@, pick as int, j as int),
{
    let mut seen: usize = 0;
    let mut i: usize = 0;
    while i < actors.len()
        invariant
            i <= actors@.len(),
            seen == invaders_upto(actors@, i as int),
            seen <= pick,
            pick < invader_total(actors@),
        decreases actors@.len() - i,
    {
        if is_invader_exec(&actors[i]) {
            if seen == pick {
                return i;
            }
            seen = seen + 1;
        }
        i = i + 1;
    }
    assert(false);
    0
}

impl World {
    /// Adds a player bullet at the turret's muzzle.
    fn spawn_player_bullet(&mut self, cfg: &Config)
        requires
            old(self).wf(),
            cfg.wf(),
            old(self).next_id < u64::MAX,
        ensures
            final(self).wf(),
            final(self).turret == old(self).turret,
            final(self).next_id == old(self).next_id + 1,
            final(self).actors@ == old(self).actors@.push(
                Actor {
                    id: old(self).next_id,
                    pos: muzzle(old(self).turret),
                    size: cfg.bullet_size,
                    role: Role::PlayerBullet,
                },
            ),
    {
        let pos = Point { x: self.turret.pos.x, y: self.turret.pos.y + self.turret.size.h / 2 };
        self.insert(pos, cfg.bullet_size, Role::PlayerBullet);
    }

    /// The invader numbered `pick` fires: an invader bullet appears below
    /// it. Returns the shooter's index in the store.
    pub fn spawn_invader_bullet(&mut self, cfg: &Config, pick: usize) -> (j: usize)
        requires
            old(self).wf(),
            cfg.wf(),
            old(self).next_id < u64::MAX,
            pick < invader_total(old(self).actors@),
        ensures
            final(self).wf(),
            is_nth_invader(old(self).actors@, pick as int, j as int),
            final(self).turret == old(self).turret,
            final(self).next_id == old(self).next_id + 1,
            final(self).actors@ == old(self).actors@.push(
                Actor {
                    id: old(self).next_id,
                    pos: drop_point(old(self).actors@[j as int], *cfg),
                    size: cfg.invader_bullet_size,
                    role: Role::InvaderBullet,
                },
            ),
    {
        let j = nth_invader(&self.actors, pick);
        let shooter = self.actors[j];
        assert(actor_ok(self.actors@[j as int]));
        let pos = Point {
            x: shooter.pos.x,
            y: shooter.pos.y - shooter.size.h / 2 - cfg.invader_bullet_size.h / 2,
        };
        self.insert(pos, cfg.invader_bullet_size, Role::InvaderBullet);
        j
    }
}

/// Turret fire: the cooldown ticks by `delta`; if `fire` (the fire key was
/// just pressed) and the cooldown has run out, a player bullet appears at
/// the turret's muzzle and the cooldown restarts. Returns whether it fired.
pub fn shoot_bullet(world: &mut World, cooldown: &mut Timer, cfg: &Config, fire: bool, delta: u32) -> (fired: bool)
    requires
        old(world).wf(),
        cfg.wf(),
        old(world).next_id < u64::MAX,
        old(cooldown).wf(),
    ensures
        final(world).wf(),
        final(cooldown).wf(),
        final(world).turret == old(world).turret,
        fired == fires(*old(cooldown), fire, delta),
        fired ==> {
            &&& *final(cooldown) == (Timer {
                elapsed: 0,
                finished: false,
                just_finished: false,
                ..ticked(*old(cooldown), delta)
            })
            &&& final(world).next_id == old(world).next_id + 1
            &&& final(world).actors@ == old(world).actors@.push(
                Actor {
                    id: old(world).next_id,
                    pos: muzzle(old(world).turret),
                    size: cfg.bullet_size,
                    role: Role::PlayerBullet,
                },
            )
        },
        !fired ==> {
            &&& *final(cooldown) == ticked(*old(cooldown), delta)
            &&& final(world).next_id == old(world).next_id
            &&& final(world).actors@ == old(world).actors@
        },
{
    cooldown.tick(delta);
    if fire && cooldown.finished() {
        world.spawn_player_bullet(cfg);
        cooldown.reset();
        true
    } else {
        false
    }
}

/// Invader fire: the shoot timer ticks by `delta`; when it finishes and an
/// invader is alive, one invader chosen at random fires. Returns the
/// shooter's index in the store, if one fired.
pub fn invader_shoot(world: &mut World, timer: &mut Timer, cfg: &Config, delta: u32) -> (shooter: Option<usize>)
    requires
        old(world).wf(),
        cfg.wf(),
        old(world).next_id < u64::MAX,
    ensures
        final(world).wf(),
        old(timer).wf() ==> final(timer).wf(),
        final(world).turret == old(world).turret,
        *final(timer) == ticked(*old(timer), delta),
        shooter is Some == (final(timer).finished && invader_total(old(world).actors@) > 0),
        shooter matches Some(j) ==> {
            &&& exists|pick: int| #[trigger] is_nth_invader(old(world).actors@, pick, j as int)
            &&& final(world).next_id == old(world).next_id + 1
            &&& final(world).actors@ == old(world).actors@.push(
                Actor {
                    id: old(world).next_id,
                    pos: drop_point(old(world).actors@[j as int], *cfg),
                    size: cfg.invader_bullet_size,
                    role: Role::InvaderBullet,
                },
            )
        },
        shooter is None ==> final(world).actors@ == old(world).actors@ && final(world).next_id
            == old(world).next_id,
{
    timer.tick(delta);
    if timer.finished() {
        let count = world.invader_count();
        if count > 0 {
            let pick = random_below(count);
            let j = world.spawn_invader_bullet(cfg, pick);
            return Some(j);
        }
    }
    None
}

/// After a shot the cooldown restarts from zero; while the time ticked into
/// it since then stays short of its duration, the turret cannot fire again,
/// whatever the input.
pub proof fn lemma_no_shot_during_cooldown(after_shot: Timer, deltas: Seq<u32>, i: int)
    requires
        after_shot.mode == TimerMode::Once,
        after_shot.elapsed == 0,
        !after_shot.finished,
        total(deltas) < after_shot.duration,
        0 <= i < deltas.len(),
    ensures
        !fires(ticked_all(after_shot, deltas.take(i)), true, deltas[i]),
{
    let upto = deltas.take(i + 1);
    assert(upto.drop_last() == deltas.take(i));
    assert(upto.last() == deltas[i]);
    lemma_total_prefix(deltas, i + 1);
    crate::timer::lemma_once_waits_full_duration(after_shot, upto);
}

proof fn lemma_total_prefix(deltas: Seq<u32>, n: int)
    requires
        0 <= n <= deltas.len(),
    ensures
        total(deltas.take(n)) <= total(deltas),
    decreases deltas.len() - n,
{
    if n < deltas.len() {
        lemma_total_prefix(deltas, n + 1);
        let t = deltas.take(n + 1);
        assert(t.drop_last() == deltas.take(n));
    } else {
        assert(deltas.take(n) == deltas);
    }
}

} // verus!
