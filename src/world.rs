//! The actors of the simulation and the store that owns them.
use vstd::prelude::*;
use crate::geometry::{Point, Size, ANCHOR_LIMIT};

verus! {

/// The three kinds of invader, which differ in width.
#[derive(Clone, Copy, Debug, PartialEq, Eq, Structural)]
pub enum InvaderKind {
    A,
    B,
    C,
}

/// What an actor is.
#[derive(Clone, Copy, Debug, PartialEq, Eq, Structural)]
pub enum Role {
    Turret,
    /// An invader, with its animation frame (1 or 2).
    Invader { kind: InvaderKind, frame: u8 },
    PlayerBullet,
    InvaderBullet,
}

/// A live simulation object.
#[derive(Clone, Copy, Debug, PartialEq, Eq, Structural)]
pub struct Actor {
    pub id: u64,
    pub pos: Point,
    pub size: Size,
    pub role: Role,
}

/// The single turret and every other live actor, in the order of creation.
#[derive(Clone, Debug)]
pub struct World {
    pub turret: Actor,
    pub actors: Vec<Actor>,
    pub next_id: u64,
}

pub open spec fn is_invader(a: Actor) -> bool {
    a.role is Invader
}

pub open spec fn is_player_bullet(a: Actor) -> bool {
    a.role is PlayerBullet
}

pub open spec fn is_invader_bullet(a: Actor) -> bool {
    a.role is InvaderBullet
}

/// An actor that may stand in the store beside the turret.
pub open spec fn actor_ok(a: Actor) -> bool {
    &&& a.pos.is_valid()
    &&& a.size.is_valid()
    &&& !(a.role is Turret)
    &&& (a.role matches Role::Invader { frame, .. } ==> frame == 1 || frame == 2)
    &&& (is_invader(a) ==> a.pos.is_anchor() && a.size.h <= ANCHOR_LIMIT)
}

/// Identifiers strictly increase along `s`.
pub open spec fn ids_increasing(s: Seq<Actor>) -> bool {
    forall|i: int, j: int| 0 <= i < j < s.len() ==> s[i].id < s[j].id
}

/// The actors of `s[..n]` whose mark in `doomed` is not set, in order.
pub open spec fn kept_upto(s: Seq<Actor>, doomed: Seq<bool>, n: int) -> Seq<Actor>
    decreases n,
{
    if n <= 0 {
        Seq::empty()
    } else if doomed[n - 1] {
        kept_upto(s, doomed, n - 1)
    } else {
        kept_upto(s, doomed, n - 1).push(s[n - 1])
    }
}

/// The actors of `s` whose mark in `doomed` is not set, in order.
pub open spec fn kept(s: Seq<Actor>, doomed: Seq<bool>) -> Seq<Actor> {
    kept_upto(s, doomed, s.len() as int)
}

/// The number of invaders among `s[..n]`.
pub open spec fn invaders_upto(s: Seq<Actor>, n: int) -> nat
    decreases n,
{
    if n <= 0 {
        0
    } else if is_invader(s[n - 1]) {
        invaders_upto(s, n - 1) + 1
    } else {
        invaders_upto(s, n - 1)
    }
}

/// The number of invaders in `s`.
pub open spec fn invader_total(s: Seq<Actor>) -> nat {
    invaders_upto(s, s.len() as int)
}

impl World {
    pub open spec fn wf(self) -> bool {
        &&& self.turret.role is Turret
        &&& self.turret.pos.is_anchor()
        &&& self.turret.size.is_valid()
        &&& self.turret.id < self.next_id
        &&& forall|i: int| 0 <= i < self.actors@.len() ==> actor_ok(#[trigger] self.actors@[i])
        &&& forall|i: int|
            0 <= i < self.actors@.len() ==> self.turret.id < #[trigger] self.actors@[i].id
                < self.next_id
        &&& ids_increasing(self.actors@)
    }

    /// The number of live invaders.
    pub fn invader_count(&self) -> (r: usize)
        ensures
            r == invader_total(self.actors@),
    {
        let mut n: usize = 0;
        let mut i: usize = 0;
        while i < self.actors.len()
            invariant
                i <= self.actors@.len(),
                n == invaders_upto(self.actors@, i as int),
                n <= i,
            decreases self.actors@.len() - i,
        {
            if is_invader_exec(&self.actors[i]) {
                n = n + 1;
            }
            i = i + 1;
        }
        n
    }

    /// Adds an actor and returns its new identifier.
    pub fn insert(&mut self, pos: Point, size: Size, role: Role) -> (id: u64)
        requires
            old(self).wf(),
            old(self).next_id < u64::MAX,
            actor_ok(Actor { id: 0, pos, size, role }),
        ensures
            final(self).wf(),
            id == old(self).next_id,
            final(self).next_id == id + 1,
            final(self).turret == old(self).turret,
            final(self).actors@ == old(self).actors@.push(Actor { id, pos, size, role }),
    {
        let id = self.next_id;
        self.actors.push(Actor { id, pos, size, role });
        self.next_id = id + 1;
        id
    }

    /// Removes the actor with identifier `id`, if there is one.
    pub fn remove(&mut self, id: u64)
        requires
            old(self).wf(),
        ensures
            final(self).wf(),
            final(self).turret == old(self).turret,
            final(self).next_id == old(self).next_id,
            final(self).actors@ == old(self).actors@.filter(|a: Actor| a.id != id),
    {
        let ghost s = self.actors@;
        let ghost doomed = Seq::new(s.len(), |k: int| s[k].id == id);
        let mut marks: Vec<bool> = Vec::new();
        let mut i: usize = 0;
        while i < self.actors.len()
            invariant
                i <= s.len(),
                s == self.actors@,
                doomed == Seq::new(s.len(), |k: int| s[k].id == id),
                marks@ == doomed.take(i as int),
            decreases s.len() - i,
        {
            marks.push(self.actors[i].id == id);
            i = i + 1;
            assert(marks@ =~= doomed.take(i as int));
        }
        assert(marks@ =~= doomed);
        self.retain_unmarked(&marks);
        proof {
            lemma_kept_is_filter(s, id);
        }
    }

    /// Drops the actors whose mark is set.
    pub fn retain_unmarked(&mut self, doomed: &Vec<bool>)
        requires
            old(self).wf(),
            doomed@.len() == old(self).actors@.len(),
        ensures
            final(self).wf(),
            final(self).turret == old(self).turret,
            final(self).next_id == old(self).next_id,
            final(self).actors@ == kept(old(self).actors@, doomed@),
    {
        let ghost s = self.actors@;
        let mut out: Vec<Actor> = Vec::new();
        let mut i: usize = 0;
        while i < self.actors.len()
            invariant
                i <= s.len(),
                s == self.actors@,
                doomed@.len() == s.len(),
                out@ == kept_upto(s, doomed@, i as int),
            decreases s.len() - i,
        {
            if !doomed[i] {
                out.push(self.actors[i]);
            }
            i = i + 1;
        }
        proof {
            lemma_kept_from(s, doomed@, s.len() as int);
        }
        self.actors = out;
    }
}

pub fn is_invader_exec(a: &Actor) -> (r: bool)
    ensures
        r == is_invader(*a),
{
    match a.role {
        Role::Invader { .. } => true,
        _ => false,
    }
}

/// Each actor kept from `s[..n]` comes from `s[..n]`, unmarked, and the ids of
/// the kept actors still increase where those of `s` do.
pub proof fn lemma_kept_from(s: Seq<Actor>, doomed: Seq<bool>, n: int)
    requires
        0 <= n <= s.len(),
        doomed.len() == s.len(),
    ensures
        forall|k: int|
            0 <= k < kept_upto(s, doomed, n).len() ==> exists|j: int|
                0 <= j < n && !doomed[j] && #[trigger] kept_upto(s, doomed, n)[k] == s[j],
        ids_increasing(s) ==> ids_increasing(kept_upto(s, doomed, n)),
        kept_upto(s, doomed, n).len() <= n,
    decreases n,
{
    if n > 0 {
        lemma_kept_from(s, doomed, n - 1);
        let prev = kept_upto(s, doomed, n - 1);
        let cur = kept_upto(s, doomed, n);
        if !doomed[n - 1] {
            assert forall|k: int| 0 <= k < cur.len() implies exists|j: int|
                0 <= j < n && !doomed[j] && #[trigger] cur[k] == s[j] by {
                if k < prev.len() {
                    assert(cur[k] == prev[k]);
                } else {
                    assert(cur[k] == s[n - 1]);
                }
            }
            if ids_increasing(s) {
                assert forall|a: int, b: int| 0 <= a < b < cur.len() implies cur[a].id
                    < cur[b].id by {
                    assert(cur[a] == prev[a]);
                    if b < prev.len() {
                        assert(cur[b] == prev[b]);
                    } else {
                        let j = choose|j: int| 0 <= j < n - 1 && !doomed[j] && prev[a] == s[j];
                        assert(s[j].id < s[n - 1].id);
                    }
                }
            }
        }
    }
}

proof fn lemma_kept_is_filter(s: Seq<Actor>, id: u64)
    ensures
        kept(s, Seq::new(s.len(), |k: int| s[k].id == id)) == s.filter(|a: Actor| a.id != id),
{
    let doomed = Seq::new(s.len(), |k: int| s[k].id == id);
    let f = |a: Actor| a.id != id;
    assert forall|n: int| 0 <= n <= s.len() implies #[trigger] kept_upto(s, doomed, n)
        == s.take(n).filter(f) by {
        lemma_kept_prefix_filter(s, id, n);
    }
    assert(s.take(s.len() as int) == s);
}

proof fn lemma_kept_prefix_filter(s: Seq<Actor>, id: u64, n: int)
    requires
        0 <= n <= s.len(),
    ensures
        kept_upto(s, Seq::new(s.len(), |k: int| s[k].id == id), n) == s.take(n).filter(
            |a: Actor| a.id != id,
        ),
    decreases n,
{
    let f = |a: Actor| a.id != id;
    if n == 0 {
        assert(s.take(0).len() == 0);
        reveal_with_fuel(Seq::filter, 1);
    } else {
        lemma_kept_prefix_filter(s, id, n - 1);
        assert(s.take(n).drop_last() == s.take(n - 1));
        reveal_with_fuel(Seq::filter, 1);
    }
}

/// Invader counts depend only on which actors are invaders.
pub proof fn lemma_invaders_same_kinds(s: Seq<Actor>, t: Seq<Actor>, n: int)
    requires
        0 <= n <= s.len(),
        n <= t.len(),
        forall|k: int| 0 <= k < n ==> is_invader(s[k]) == is_invader(t[k]),
    ensures
        invaders_upto(s, n) == invaders_upto(t, n),
    decreases n,
{
    if n > 0 {
        lemma_invaders_same_kinds(s, t, n - 1);
    }
}

/// Appending an actor adds one invader to the count exactly when it is one.
pub proof fn lemma_invaders_push(s: Seq<Actor>, a: Actor)
    ensures
        invader_total(s.push(a)) == invader_total(s) + if is_invader(a) {
            1nat
        } else {
            0nat
        },
{
    lemma_invaders_same_kinds(s, s.push(a), s.len() as int);
}

/// Dropping actors never adds invaders.
pub proof fn lemma_kept_invaders(s: Seq<Actor>, doomed: Seq<bool>, n: int)
    requires
        0 <= n <= s.len(),
        doomed.len() == s.len(),
    ensures
        invader_total(kept_upto(s, doomed, n)) <= invaders_upto(s, n),
    decreases n,
{
    if n > 0 {
        lemma_kept_invaders(s, doomed, n - 1);
        if !doomed[n - 1] {
            lemma_invaders_push(kept_upto(s, doomed, n - 1), s[n - 1]);
        }
    }
}

} // verus!
