//! Moving the turret and the bullets.
use vstd::prelude::*;
use crate::config::Config;
use crate::formation::moved;
use crate::geometry::Point;
use crate::world::{
    actor_ok, is_invader_bullet, is_player_bullet, kept, kept_upto, lemma_kept_from, Actor, Role,
    World,
};

verus! {

/// The horizontal intent of the movement keys: -1, 0 or +1.
pub open spec fn intent(left: bool, right: bool) -> int {
    (if right {
        1int
    } else {
        0int
    }) - (if left {
        1int
    } else {
        0int
    })
}

pub open spec fn clamp(v: int, lo: int, hi: int) -> int {
    if v < lo {
        lo
    } else if v > hi {
        hi
    } else {
        v
    }
}

/// Where the turret at `x` ends up after `delta` microseconds with the given
/// keys held.
pub open spec fn turret_target(cfg: Config, x: int, left: bool, right: bool, delta: u32) -> int {
    clamp(
        x + intent(left, right) * cfg.turret_speed * delta,
        cfg.left_bound(),
        cfg.right_bound(),
    )
}

/// The turret's horizontal intent from the movement keys.
pub fn turret_intent(left: bool, right: bool) -> (r: i64)
    ensures
        r == intent(left, right),
{
    let mut d: i64 = 0;
    if left {
        d = d - 1;
    }
    if right {
        d = d + 1;
    }
    d
}

/// Whether `a` is a bullet of the side that `player` names.
pub open spec fn is_flyer(a: Actor, player: bool) -> bool {
    if player {
        is_player_bullet(a)
    } else {
        is_invader_bullet(a)
    }
}

/// The actors of `s` with each bullet of that side moved up by `dy`.
pub open spec fn flown(s: Seq<Actor>, player: bool, dy: int) -> Seq<Actor> {
    Seq::new(s.len(), |k: int| if is_flyer(s[k], player) { moved(s[k], 0, dy) } else { s[k] })
}

/// `a` is a bullet of that side past the playfield edge it flies toward.
pub open spec fn off_field(a: Actor, player: bool, half_height: int) -> bool {
    is_flyer(a, player) && if player {
        a.pos.y > half_height
    } else {
        a.pos.y < -half_height
    }
}

/// Which actors of `s` leave when the bullets of that side move by `dy`.
pub open spec fn flight_marks(s: Seq<Actor>, player: bool, dy: int, half_height: int) -> Seq<bool> {
    Seq::new(s.len(), |k: int| off_field(flown(s, player, dy)[k], player, half_height))
}

impl World {
    /// Moves the turret by its intent times its speed times `delta`,
    /// clamped to the bounds.
    pub fn move_turret(&mut self, cfg: &Config, left: bool, right: bool, delta: u32)
        requires
            old(self).wf(),
            cfg.wf(),
        ensures
            final(self).wf(),
            final(self).turret == (Actor {
                pos: Point {
                    x: turret_target(*cfg, old(self).turret.pos.x as int, left, right, delta) as i64,
                    ..old(self).turret.pos
                },
                ..old(self).turret
            }),
            cfg.left_bound() <= final(self).turret.pos.x <= cfg.right_bound(),
            final(self).actors@ == old(self).actors@,
            final(self).next_id == old(self).next_id,
    {
        let d = turret_intent(left, right);
        assert(-1000000 <= d * cfg.turret_speed <= 1000000) by (nonlinear_arith)
            requires
                -1 <= d <= 1,
                0 <= cfg.turret_speed <= 1000000,
        ;
        assert(-1000000 * 0x1_0000_0000 <= d * cfg.turret_speed * delta <= 1000000 * 0x1_0000_0000)
            by (nonlinear_arith)
            requires
                -1 <= d <= 1,
                0 <= cfg.turret_speed <= 1000000,
                0 <= delta <= 0x1_0000_0000,
        ;
        let target: i64 = self.turret.pos.x + d * cfg.turret_speed * delta as i64;
        let lo: i64 = -(cfg.field_width / 2) + cfg.turret_size.w / 2 + cfg.turret_padding;
        let hi: i64 = cfg.field_width / 2 - cfg.turret_size.w / 2 - cfg.turret_padding;
        let x = if target < lo {
            lo
        } else if target > hi {
            hi
        } else {
            target
        };
        self.turret.pos.x = x;
    }

    /// Moves every bullet of one side by `dy` and drops those past the edge
    /// of the field they fly toward.
    fn fly(&mut self, player: bool, dy: i64, half_height: i64)
        requires
            old(self).wf(),
            -0x10_0000_0000_0000 <= dy <= 0x10_0000_0000_0000,
            player ==> dy >= 0,
            !player ==> dy <= 0,
            0 <= half_height <= 1_000_000_000_000,
        ensures
            final(self).wf(),
            final(self).turret == old(self).turret,
            final(self).next_id == old(self).next_id,
            final(self).actors@ == kept(
                flown(old(self).actors@, player, dy as int),
                flight_marks(old(self).actors@, player, dy as int, half_height as int),
            ),
    {
        let ghost s = self.actors@;
        let ghost f = flown(s, player, dy as int);
        let ghost m = flight_marks(s, player, dy as int, half_height as int);
        let mut out: Vec<Actor> = Vec::new();
        let mut i: usize = 0;
        while i < self.actors.len()
            invariant
                self.wf(),
                s == self.actors@,
                f == flown(s, player, dy as int),
                m == flight_marks(s, player, dy as int, half_height as int),
                -0x10_0000_0000_0000 <= dy <= 0x10_0000_0000_0000,
                player ==> dy >= 0,
                !player ==> dy <= 0,
                0 <= half_height <= 1_000_000_000_000,
                i <= s.len(),
                out@ == kept_upto(f, m, i as int),
            decreases s.len() - i,
        {
            let a = self.actors[i];
            assert(actor_ok(s[i as int]));
            let flies = match a.role {
                Role::PlayerBullet => player,
                Role::InvaderBullet => !player,
                _ => false,
            };
            if flies {
                let y = a.pos.y + dy;
                let gone = if player {
                    y > half_height
                } else {
                    y < -half_height
                };
                if !gone {
                    out.push(Actor { pos: Point { x: a.pos.x, y }, ..a });
                }
            } else {
                out.push(a);
            }
            i = i + 1;
        }
        proof {
            lemma_kept_from(f, m, s.len() as int);
            assert forall|k: int| 0 <= k < out@.len() implies actor_ok(#[trigger] out@[k]) by {
                let j = choose|j: int| 0 <= j < s.len() && !m[j] && out@[k] == f[j];
                assert(actor_ok(s[j]));
                assert(f[j] == if is_flyer(s[j], player) {
                    moved(s[j], 0, dy as int)
                } else {
                    s[j]
                });
                assert(!off_field(f[j], player, half_height as int));
            }
            assert forall|k: int| 0 <= k < out@.len() implies self.turret.id
                < #[trigger] out@[k].id < self.next_id by {
                let j = choose|j: int| 0 <= j < s.len() && !m[j] && out@[k] == f[j];
                assert(s[j].id == f[j].id);
            }
            assert(crate::world::ids_increasing(f));
        }
        self.actors = out;
    }

    /// Moves the player bullets up by the bullet speed times `delta` and drops
    /// those above the top edge.
    pub fn move_player_bullets(&mut self, cfg: &Config, delta: u32)
        requires
            old(self).wf(),
            cfg.wf(),
        ensures
            final(self).wf(),
            final(self).turret == old(self).turret,
            final(self).next_id == old(self).next_id,
            final(self).actors@ == kept(
                flown(old(self).actors@, true, cfg.bullet_speed * delta),
                flight_marks(old(self).actors@, true, cfg.bullet_speed * delta, cfg.field_height / 2),
            ),
    {
        assert(0 <= cfg.bullet_speed * delta <= 1000000 * 0x1_0000_0000) by (nonlinear_arith)
            requires
                0 <= cfg.bullet_speed <= 1000000,
                0 <= delta <= 0x1_0000_0000,
        ;
        self.fly(true, cfg.bullet_speed * delta as i64, cfg.field_height / 2);
    }

    /// Moves the invader bullets down by the bullet speed times `delta` and
    /// drops those below the bottom edge.
    pub fn move_invader_bullets(&mut self, cfg: &Config, delta: u32)
        requires
            old(self).wf(),
            cfg.wf(),
        ensures
            final(self).wf(),
            final(self).turret == old(self).turret,
            final(self).next_id == old(self).next_id,
            final(self).actors@ == kept(
                flown(old(self).actors@, false, -(cfg.bullet_speed * delta)),
                flight_marks(
                    old(self).actors@,
                    false,
                    -(cfg.bullet_speed * delta),
                    cfg.field_height / 2,
                ),
            ),
    {
        assert(0 <= cfg.bullet_speed * delta <= 1000000 * 0x1_0000_0000) by (nonlinear_arith)
            requires
                0 <= cfg.bullet_speed <= 1000000,
                0 <= delta <= 0x1_0000_0000,
        ;
        self.fly(false, -(cfg.bullet_speed * delta as i64), cfg.field_height / 2);
    }
}

} // verus!
