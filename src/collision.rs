//! Bullets against actors: which bullets hit, which invaders fall.
use vstd::prelude::*;
use vstd::set_lib::{lemma_int_range, lemma_len_subset, lemma_map_size, set_int_range};
use crate::geometry::{collide, collides};
use crate::world::{
    actor_ok, is_invader, is_invader_bullet, is_invader_exec, is_player_bullet, kept, Actor, Role,
    World,
};

verus! {

/// The player bullet at `i` meets the actor at `j`, another actor of the store.
pub open spec fn strikes(s: Seq<Actor>, i: int, j: int) -> bool {
    &&& 0 <= j < s.len()
    &&& j != i
    &&& collide(s[i].pos, s[i].size, s[j].pos, s[j].size)
}

/// The actor at `j` is the first, in store order, that the bullet at `i` meets.
pub open spec fn first_strike(s: Seq<Actor>, i: int, j: int) -> bool {
    &&& strikes(s, i, j)
    &&& forall|k: int| 0 <= k < j ==> !strikes(s, i, k)
}

/// The bullet at `i` meets some other actor.
pub open spec fn hits_something(s: Seq<Actor>, i: int) -> bool {
    exists|j: int| strikes(s, i, j)
}

/// The invader at `k` is the first actor met by some player bullet.
pub open spec fn shot_down(s: Seq<Actor>, k: int) -> bool {
    &&& is_invader(s[k])
    &&& exists|i: int| 0 <= i < s.len() && is_player_bullet(s[i]) && #[trigger] first_strike(s, i, k)
}

/// The invader bullet at `k` meets the turret.
pub open spec fn hits_turret(s: Seq<Actor>, turret: Actor, k: int) -> bool {
    is_invader_bullet(s[k]) && collide(s[k].pos, s[k].size, turret.pos, turret.size)
}

/// The actor at `k` leaves the store in this tick's collision pass: a player
/// bullet that hit something, an invader that a player bullet hit first, or
/// an invader bullet that hit the turret.
pub open spec fn removed(s: Seq<Actor>, turret: Actor, k: int) -> bool {
    ||| is_player_bullet(s[k]) && hits_something(s, k)
    ||| shot_down(s, k)
    ||| hits_turret(s, turret, k)
}

pub open spec fn removal_marks(s: Seq<Actor>, turret: Actor) -> Seq<bool> {
    Seq::new(s.len(), |k: int| removed(s, turret, k))
}

/// The number of player bullets among `s[..n]` that hit something.
pub open spec fn player_hits_upto(s: Seq<Actor>, n: int) -> nat
    decreases n,
{
    if n <= 0 {
        0
    } else {
        player_hits_upto(s, n - 1) + if is_player_bullet(s[n - 1]) && hits_something(s, n - 1) {
            1nat
        } else {
            0nat
        }
    }
}

/// The number of invader bullets among `s[..n]` that hit the turret.
pub open spec fn turret_hits_upto(s: Seq<Actor>, turret: Actor, n: int) -> nat
    decreases n,
{
    if n <= 0 {
        0
    } else {
        turret_hits_upto(s, turret, n - 1) + if hits_turret(s, turret, n - 1) {
            1nat
        } else {
            0nat
        }
    }
}

/// What one collision pass found.
#[derive(Clone, Copy, Debug, PartialEq, Eq, Structural)]
pub struct CollisionReport {
    /// Player bullets that hit an actor.
    pub bullet_hits: usize,
    /// Invader bullets that hit the turret.
    pub turret_hits: usize,
}

/// The index of the first actor, other than the one at `i`, that the actor at
/// `i` meets.
pub fn first_struck(actors: &Vec<Actor>, i: usize) -> (r: Option<usize>)
    requires
        i < actors@.len(),
        forall|k: int| 0 <= k < actors@.len() ==> actor_ok(#[trigger] actors@[k]),
    ensures
        r matches Some(j) ==> first_strike(actors@, i as int, j as int),
        r is None ==> !hits_something(actors@, i as int),
{
    let s = &actors[i];
    let mut j: usize = 0;
    while j < actors.len()
        invariant
            j <= actors@.len(),
            i < actors@.len(),
            *s == actors@[i as int],
            forall|k: int| 0 <= k < actors@.len() ==> actor_ok(#[trigger] actors@[k]),
            forall|k: int| 0 <= k < j ==> !strikes(actors@, i as int, k),
        decreases actors@.len() - j,
    {
        if j != i {
            let t = &actors[j];
            if collides(s.pos, s.size, t.pos, t.size) {
                return Some(j);
            }
        }
        j = j + 1;
    }
    None
}

/// Pass-one marks after the player bullets among `s[..n]` were handled.
spec fn marked_by_bullets(s: Seq<Actor>, k: int, n: int) -> bool {
    ||| k < n && is_player_bullet(s[k]) && hits_something(s, k)
    ||| is_invader(s[k]) && exists|b: int|
        0 <= b < n && is_player_bullet(s[b]) && #[trigger] first_strike(s, b, k)
}

/// A bullet meets at most one actor first: so it takes down at most one
/// invader, however many it overlaps.
pub proof fn lemma_first_strike_unique(s: Seq<Actor>, i: int, j1: int, j2: int)
    requires
        first_strike(s, i, j1),
        first_strike(s, i, j2),
    ensures
        j1 == j2,
{
    if j1 < j2 {
        assert(!strikes(s, i, j1));
    } else if j2 < j1 {
        assert(!strikes(s, i, j2));
    }
}

/// The indices of the invaders that this tick's player bullets take down.
pub open spec fn fallen(s: Seq<Actor>) -> Set<int> {
    Set::new(|k: int| 0 <= k < s.len() && shot_down(s, k))
}

/// The indices of the player bullets that hit something this tick.
pub open spec fn spent(s: Seq<Actor>) -> Set<int> {
    Set::new(|i: int| 0 <= i < s.len() && is_player_bullet(s[i]) && hits_something(s, i))
}

/// No more invaders fall in a collision pass than player bullets are spent
/// in it, however the bullets and invaders overlap.
pub proof fn lemma_fallen_at_most_spent(s: Seq<Actor>)
    ensures
        fallen(s).finite(),
        spent(s).finite(),
        fallen(s).len() <= spent(s).len(),
{
    let range = set_int_range(0, s.len() as int);
    lemma_int_range(0, s.len() as int);
    lemma_len_subset(fallen(s), range);
    lemma_len_subset(spent(s), range);
    let f = |k: int|
        choose|i: int| 0 <= i < s.len() && is_player_bullet(s[i]) && #[trigger] first_strike(s, i, k);
    assert forall|k1: int, k2: int|
        fallen(s).contains(k1) && fallen(s).contains(k2) && #[trigger] f(k1) == #[trigger] f(k2)
        implies k1 == k2 by {
        lemma_first_strike_unique(s, f(k1), k1, k2);
    }
    lemma_map_size(fallen(s), fallen(s).map(f), f);
    assert forall|i: int| fallen(s).map(f).contains(i) implies spent(s).contains(i) by {
        let k = choose|k: int| fallen(s).contains(k) && f(k) == i;
        assert(strikes(s, i, k));
    }
    lemma_len_subset(fallen(s).map(f), spent(s));
}

impl World {
    /// Resolves this tick's collisions. Every player bullet that meets another
    /// actor is removed, with the first such actor in store order when that is
    /// an invader; every invader bullet that meets the turret is removed. All
    /// tests see the positions from before any removal.
    pub fn resolve_collisions(&mut self) -> (r: CollisionReport)
        requires
            old(self).wf(),
        ensures
            final(self).wf(),
            final(self).turret == old(self).turret,
            final(self).next_id == old(self).next_id,
            final(self).actors@ == kept(old(self).actors@, removal_marks(old(self).actors@, old(self).turret)),
            r.bullet_hits == player_hits_upto(old(self).actors@, old(self).actors@.len() as int),
            r.turret_hits == turret_hits_upto(old(self).actors@, old(self).turret, old(self).actors@.len() as int),
    {
        let ghost s = self.actors@;
        let n = self.actors.len();
        let mut marks: Vec<bool> = Vec::new();
        let mut i: usize = 0;
        while i < n
            invariant
                n == s.len(),
                i <= n,
                marks@.len() == i,
                forall|k: int| 0 <= k < i ==> !marks@[k],
            decreases n - i,
        {
            marks.push(false);
            i = i + 1;
        }
        let mut bullet_hits: usize = 0;
        i = 0;
        while i < n
            invariant
                s == self.actors@,
                self.wf(),
                n == s.len(),
                i <= n,
                marks@.len() == n,
                bullet_hits == player_hits_upto(s, i as int),
                bullet_hits <= i,
                forall|k: int| 0 <= k < n ==> marks@[k] == marked_by_bullets(s, k, i as int),
            decreases n - i,
        {
            let ghost before = marks@;
            if self.actors[i].role == Role::PlayerBullet {
                match first_struck(&self.actors, i) {
                    Some(j) => {
                        marks.set(i, true);
                        bullet_hits = bullet_hits + 1;
                        if is_invader_exec(&self.actors[j]) {
                            marks.set(j, true);
                        }
                        proof {
                            assert(hits_something(s, i as int));
                            assert forall|k: int| 0 <= k < n implies marks@[k] == marked_by_bullets(
                                s,
                                k,
                                i + 1,
                            ) by {
                                if k != i && k != j {
                                    if is_invader(s[k]) && exists|b: int|
                                        0 <= b < i + 1 && is_player_bullet(s[b])
                                            && #[trigger] first_strike(s, b, k) {
                                        let b = choose|b: int|
                                            0 <= b < i + 1 && is_player_bullet(s[b])
                                                && #[trigger] first_strike(s, b, k);
                                        if b == i {
                                            lemma_first_strike_unique(s, i as int, j as int, k);
                                        }
                                    }
                                }
                                if k == j && is_invader(s[k]) {
                                    assert(first_strike(s, i as int, k));
                                }
                            }
                        }
                    },
                    None => {
                        proof {
                            assert forall|k: int| 0 <= k < n implies marks@[k] == marked_by_bullets(
                                s,
                                k,
                                i + 1,
                            ) by {
                                if is_invader(s[k]) && exists|b: int|
                                    0 <= b < i + 1 && is_player_bullet(s[b])
                                        && #[trigger] first_strike(s, b, k) {
                                    let b = choose|b: int|
                                        0 <= b < i + 1 && is_player_bullet(s[b])
                                            && #[trigger] first_strike(s, b, k);
                                    if b == i {
                                        assert(strikes(s, i as int, k));
                                    }
                                }
                            }
                        }
                    },
                }
            } else {
                proof {
                    assert forall|k: int| 0 <= k < n implies marks@[k] == marked_by_bullets(
                        s,
                        k,
                        i + 1,
                    ) by {
                        if is_invader(s[k]) && exists|b: int|
                            0 <= b < i + 1 && is_player_bullet(s[b])
                                && #[trigger] first_strike(s, b, k) {
                            let b = choose|b: int|
                                0 <= b < i + 1 && is_player_bullet(s[b])
                                    && #[trigger] first_strike(s, b, k);
                            assert(b != i);
                        }
                    }
                }
            }
            i = i + 1;
        }
        let mut turret_hits: usize = 0;
        i = 0;
        while i < n
            invariant
                s == self.actors@,
                self.wf(),
                n == s.len(),
                i <= n,
                marks@.len() == n,
                turret_hits == turret_hits_upto(s, self.turret, i as int),
                turret_hits <= i,
                forall|k: int|
                    0 <= k < n ==> marks@[k] == (marked_by_bullets(s, k, n as int) || (k < i
                        && hits_turret(s, self.turret, k))),
            decreases n - i,
        {
            let a = &self.actors[i];
            if a.role == Role::InvaderBullet && collides(
                a.pos,
                a.size,
                self.turret.pos,
                self.turret.size,
            ) {
                marks.set(i, true);
                turret_hits = turret_hits + 1;
            }
            i = i + 1;
        }
        proof {
            assert(marks@ =~= removal_marks(s, self.turret));
        }
        self.retain_unmarked(&marks);
        CollisionReport { bullet_hits, turret_hits }
    }
}

} // verus!
