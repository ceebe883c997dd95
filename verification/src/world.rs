//! The registry of free bodies.

use vstd::prelude::*;
use crate::body::BodyState;
use crate::geometry::Vec2;
use crate::interior::command::InteriorWorld;

verus! {

/// The bodies in orbit, the ship's interior, and the clock.
#[derive(Clone, Debug)]
pub struct World<T, Q> {
    pub mu: T,
    pub sim_time: T,
    pub bodies: Vec<BodyState<T>>,
    pub planet_radius: T,
    pub interior: InteriorWorld<Q, T>,
    /// The id that the next body without one is given.
    pub next_id: u64,
}

/// Whether body `i` is marked in `gone`; a body without a mark is not.
pub open spec fn marked(gone: Seq<bool>, i: int) -> bool {
    0 <= i < gone.len() && gone[i]
}

/// The bodies from position `from` on that are not marked in `gone`, in
/// their order.
pub open spec fn survivors_from<B>(bodies: Seq<B>, gone: Seq<bool>, from: int) -> Seq<B>
    decreases bodies.len() - from,
{
    if from < 0 || from >= bodies.len() {
        Seq::empty()
    } else if marked(gone, from) {
        survivors_from(bodies, gone, from + 1)
    } else {
        seq![bodies[from]] + survivors_from(bodies, gone, from + 1)
    }
}

/// The bodies that are not marked in `gone`, in their order.
pub open spec fn survivors<B>(bodies: Seq<B>, gone: Seq<bool>) -> Seq<B> {
    survivors_from(bodies, gone, 0)
}

/// Whether `i` is the first body with the id `id`.
pub open spec fn is_first_with_id<T>(bodies: Seq<BodyState<T>>, id: u64, i: int) -> bool {
    &&& 0 <= i < bodies.len()
    &&& bodies[i].id == id
    &&& forall|j: int| 0 <= j < i ==> bodies[j].id != id
}

/// Whether no body has the id `id`.
pub open spec fn no_body_with_id<T>(bodies: Seq<BodyState<T>>, id: u64) -> bool {
    forall|j: int| 0 <= j < bodies.len() ==> (#[trigger] bodies[j]).id != id
}

/// The least number that is above the id of each of the first `n` bodies,
/// and not below 1.
pub open spec fn ids_ceiling<T>(bodies: Seq<BodyState<T>>, n: int) -> int
    decreases n,
{
    if n <= 0 {
        1
    } else if bodies[n - 1].id >= ids_ceiling(bodies, n - 1) {
        bodies[n - 1].id + 1
    } else {
        ids_ceiling(bodies, n - 1)
    }
}

/// The ceiling is above every id below it in the list, and at least 1.
pub proof fn lemma_ids_ceiling<T>(bodies: Seq<BodyState<T>>, n: int, i: int)
    requires
        0 <= i < n <= bodies.len(),
    ensures
        bodies[i].id < ids_ceiling(bodies, n),
        1 <= ids_ceiling(bodies, n),
    decreases n,
{
    if i < n - 1 {
        lemma_ids_ceiling(bodies, n - 1, i);
    } else if n - 1 > 0 {
        lemma_ids_ceiling(bodies, n - 1, 0);
    }
}

/// The ceiling is no higher than any bound that is above every id and not
/// below 1.
proof fn lemma_ids_ceiling_least<T>(bodies: Seq<BodyState<T>>, n: int, bound: int)
    requires
        0 <= n <= bodies.len(),
        1 <= bound,
        forall|i: int| 0 <= i < n ==> (#[trigger] bodies[i]).id < bound,
    ensures
        1 <= ids_ceiling(bodies, n) <= bound,
    decreases n,
{
    if n > 0 {
        lemma_ids_ceiling_least(bodies, n - 1, bound);
        assert(bodies[n - 1].id < bound);
    }
}

impl<T: Copy, Q: Copy> World<T, Q> {
    /// No body has the id zero, and no two bodies share an id.
    pub open spec fn ids_distinct(&self) -> bool {
        &&& forall|i: int| 0 <= i < self.bodies@.len() ==> (#[trigger] self.bodies@[i]).id != 0
        &&& forall|i: int, j: int|
            0 <= i < j < self.bodies@.len() ==> (#[trigger] self.bodies@[i]).id != (
            #[trigger] self.bodies@[j]).id
    }

    /// The counter is above every id in the registry, and not zero.
    pub open spec fn counter_ahead(&self) -> bool {
        &&& self.next_id >= 1
        &&& forall|i: int|
            0 <= i < self.bodies@.len() ==> (#[trigger] self.bodies@[i]).id < self.next_id
    }

    /// The id that the world gives out next: the least that is not zero,
    /// not below the counter, and above every id in the registry.
    pub open spec fn fresh_id(&self) -> int {
        if self.next_id >= ids_ceiling(self.bodies@, self.bodies@.len() as int) {
            self.next_id as int
        } else {
            ids_ceiling(self.bodies@, self.bodies@.len() as int)
        }
    }

    /// The id that `add_body` gives a body that comes with the id `given`:
    /// its own, where that is not zero and no body has it yet; a fresh one
    /// otherwise.
    pub open spec fn assigned_id(&self, given: u64) -> int {
        if given != 0 && no_body_with_id(self.bodies@, given) {
            given as int
        } else {
            self.fresh_id()
        }
    }

    /// The counter after the id `id` has been given to a body: past that
    /// id, as far as numbers go, and never back.
    pub open spec fn counter_after(&self, id: u64) -> u64 {
        if id < self.next_id {
            self.next_id
        } else if id < u64::MAX {
            (id + 1) as u64
        } else {
            u64::MAX
        }
    }

    /// An empty world at the given time; the first id it gives out is 1.
    pub fn new(mu: T, planet_radius: T, sim_time: T, interior: InteriorWorld<Q, T>) -> (world:
        Self)
        ensures
            world.mu == mu,
            world.planet_radius == planet_radius,
            world.sim_time == sim_time,
            world.interior == interior,
            world.bodies@.len() == 0,
            world.next_id == 1,
            world.ids_distinct(),
            world.counter_ahead(),
    {
        Self { mu, sim_time, bodies: Vec::new(), planet_radius, interior, next_id: 1 }
    }

    /// The id that the world gives out next, if there is a number left for
    /// it.
    pub fn next_free_id(&self) -> (free: Option<u64>)
        ensures
            match free {
                Some(id) => id == self.fresh_id(),
                None => self.fresh_id() > u64::MAX,
            },
    {
        let n = self.bodies.len();
        let mut ceiling: u128 = 1;
        let mut i: usize = 0;
        while i < n
            invariant
                i <= n,
                n == self.bodies@.len(),
                ceiling == ids_ceiling(self.bodies@, i as int),
                1 <= ceiling <= u64::MAX + 1,
            decreases n - i,
        {
            if self.bodies[i].id as u128 >= ceiling {
                ceiling = self.bodies[i].id as u128 + 1;
            }
            i += 1;
        }
        if self.next_id as u128 >= ceiling {
            Some(self.next_id)
        } else if ceiling <= u64::MAX as u128 {
            Some(ceiling as u64)
        } else {
            None
        }
    }

    /// Whether the world can still give out an id of its own.
    pub fn can_assign_id(&self) -> (can: bool)
        ensures
            can == (self.fresh_id() <= u64::MAX),
    {
        self.next_free_id().is_some()
    }

    /// Adds a body at the end of the registry and returns its id, which is
    /// never zero and never the id of a body that is already there. A body
    /// that comes with an id of its own keeps it where no other body has
    /// it; any other body is given the world's next id. The counter moves
    /// past the id.
    ///
    /// The body is stored with the position and velocity handed in, and
    /// with the radius of its hull where it has one.
    ///
    /// Where the body needs a fresh id, a number must be left for it. One
    /// is left wherever the counter is ahead of every id, as it is in a
    /// world that was filled by this function alone and has not given out
    /// the last number; `can_assign_id` tells in any case.
    pub fn add_body(
        &mut self,
        body: BodyState<T>,
        hull_radius: Option<T>,
        position: Vec2<T>,
        velocity: Vec2<T>,
    ) -> (id: u64)
        requires
            body.hull_shape.is_some() ==> hull_radius.is_some(),
            body.id == 0 || !no_body_with_id(old(self).bodies@, body.id) ==> old(
                self,
            ).counter_ahead() || old(self).fresh_id() <= u64::MAX,
        ensures
            id == old(self).assigned_id(body.id),
            id != 0,
            no_body_with_id(old(self).bodies@, id),
            final(self).bodies@ == old(self).bodies@.push(
                BodyState {
                    id,
                    radius: if body.hull_shape.is_some() {
                        hull_radius.unwrap()
                    } else {
                        body.radius
                    },
                    position,
                    velocity,
                    ..body
                },
            ),
            final(self).next_id == old(self).counter_after(id),
            *final(self) == (World {
                bodies: final(self).bodies,
                next_id: final(self).next_id,
                ..*old(self)
            }),
            old(self).ids_distinct() ==> final(self).ids_distinct(),
            old(self).counter_ahead() && id < u64::MAX ==> final(self).counter_ahead(),
            old(self).counter_ahead() && (body.id == 0 || !no_body_with_id(
                old(self).bodies@,
                body.id,
            )) ==> id == old(self).next_id,
    {
        let keeps_own = body.id != 0 && self.body_index(body.id).is_none();
        proof {
            if self.counter_ahead() {
                lemma_ids_ceiling_least(self.bodies@, self.bodies@.len() as int, self.next_id as int);
            }
        }
        let id = if keeps_own {
            body.id
        } else {
            self.next_free_id().unwrap()
        };
        proof {
            let before = self.bodies@;
            assert forall|j: int| 0 <= j < before.len() implies (#[trigger] before[j]).id != id by {
                if !keeps_own {
                    lemma_ids_ceiling(before, before.len() as int, j);
                }
            }
            if !keeps_own {
                lemma_ids_ceiling_least(before, 0, 1);
                if before.len() > 0 {
                    lemma_ids_ceiling(before, before.len() as int, 0);
                }
                if self.counter_ahead() {
                    lemma_ids_ceiling_least(before, before.len() as int, self.next_id as int);
                }
            }
        }
        let mut body = body;
        body.id = id;
        if body.hull_shape.is_some() {
            match hull_radius {
                Some(radius) => {
                    body.radius = radius;
                },
                None => {},
            }
        }
        body.position = position;
        body.velocity = velocity;
        if id >= self.next_id {
            self.next_id = if id < u64::MAX {
                id + 1
            } else {
                u64::MAX
            };
        }
        self.bodies.push(body);
        proof {
            let before = old(self).bodies@;
            let after = self.bodies@;
            if old(self).ids_distinct() {
                assert forall|i: int| 0 <= i < after.len() implies (#[trigger] after[i]).id
                    != 0 by {
                    if i < before.len() {
                        assert(after[i] == before[i]);
                    }
                }
                assert forall|i: int, j: int| 0 <= i < j < after.len() implies (
                #[trigger] after[i]).id != (#[trigger] after[j]).id by {
                    assert(after[i] == before[i]);
                    if j < before.len() {
                        assert(after[j] == before[j]);
                    }
                }
            }
            if old(self).counter_ahead() && id < u64::MAX {
                assert forall|i: int| 0 <= i < after.len() implies (#[trigger] after[i]).id
                    < self.next_id by {
                    if i < before.len() {
                        assert(after[i] == before[i]);
                    }
                }
            }
        }
        id
    }

    /// The position in the registry of the first body with the id `id`.
    pub fn body_index(&self, id: u64) -> (found: Option<usize>)
        ensures
            match found {
                Some(i) => is_first_with_id(self.bodies@, id, i as int),
                None => no_body_with_id(self.bodies@, id),
            },
    {
        let n = self.bodies.len();
        let mut i: usize = 0;
        while i < n
            invariant
                i <= n,
                n == self.bodies@.len(),
                forall|j: int| 0 <= j < i ==> (#[trigger] self.bodies@[j]).id != id,
            decreases n - i,
        {
            if self.bodies[i].id == id {
                return Some(i);
            }
            i += 1;
        }
        None
    }

    /// The first body with the id `id`, to be changed in place.
    pub fn get_body_mut(&mut self, id: u64) -> (body: Option<&mut BodyState<T>>)
        ensures
            match body {
                Some(b) => exists|i: int|
                    {
                        &&& #[trigger] is_first_with_id(old(self).bodies@, id, i)
                        &&& *b == old(self).bodies@[i]
                        &&& final(self).bodies@ == old(self).bodies@.update(i, *final(b))
                        &&& *final(self) == (World { bodies: final(self).bodies, ..*old(self) })
                    },
                None => no_body_with_id(old(self).bodies@, id) && *final(self) == *old(self),
            },
    {
        match self.body_index(id) {
            Some(i) => Some(&mut self.bodies[i]),
            None => None,
        }
    }

    /// Removes every body that is marked in `despawned`: body `i` goes where
    /// `despawned[i]` is true, and stays where it is false or missing. The
    /// bodies that stay keep their order.
    pub fn cull_despawned_bodies(&mut self, despawned: &Vec<bool>)
        ensures
            final(self).bodies@ == survivors(old(self).bodies@, despawned@),
            *final(self) == (World { bodies: final(self).bodies, ..*old(self) }),
            old(self).ids_distinct() ==> final(self).ids_distinct(),
            old(self).counter_ahead() ==> final(self).counter_ahead(),
    {
        let ghost all = self.bodies@;
        let mut i: usize = self.bodies.len();
        while i > 0
            invariant
                i <= all.len(),
                self.bodies@ == all.take(i as int) + survivors_from(all, despawned@, i as int),
                *self == (World { bodies: self.bodies, ..*old(self) }),
            decreases i,
        {
            i -= 1;
            if i < despawned.len() && despawned[i] {
                self.bodies.remove(i);
            }
            assert(self.bodies@ =~= all.take(i as int) + survivors_from(all, despawned@, i as int));
        }
        assert(all.take(0) =~= Seq::<BodyState<T>>::empty());
        proof {
            let left = self.bodies@;
            if old(self).ids_distinct() {
                assert forall|k: int| 0 <= k < left.len() implies (#[trigger] left[k]).id != 0 by {
                    lemma_survivor_was_unmarked(all, despawned@, k);
                }
                assert forall|k: int, l: int| 0 <= k < l < left.len() implies (#[trigger] left[k]).id
                    != (#[trigger] left[l]).id by {
                    lemma_survivor_was_unmarked(all, despawned@, k);
                    lemma_survivor_was_unmarked(all, despawned@, l);
                }
            }
            if old(self).counter_ahead() {
                assert forall|k: int| 0 <= k < left.len() implies (#[trigger] left[k]).id
                    < self.next_id by {
                    lemma_survivor_was_unmarked(all, despawned@, k);
                }
            }
        }
    }
}

/// How many of the bodies before position `i` are not marked in `gone`.
pub open spec fn kept_before(gone: Seq<bool>, i: int) -> int
    decreases i,
{
    if i <= 0 {
        0
    } else if marked(gone, i - 1) {
        kept_before(gone, i - 1)
    } else {
        kept_before(gone, i - 1) + 1
    }
}

proof fn lemma_kept_before_grows(gone: Seq<bool>, i: int, j: int)
    requires
        0 <= i <= j,
    ensures
        0 <= kept_before(gone, i) <= kept_before(gone, j),
        kept_before(gone, i) <= i,
    decreases j,
{
    if i < j {
        lemma_kept_before_grows(gone, i, j - 1);
    } else if i > 0 {
        lemma_kept_before_grows(gone, i - 1, i - 1);
    }
}

proof fn lemma_survivors_from<B>(bodies: Seq<B>, gone: Seq<bool>, from: int, i: int)
    requires
        0 <= from <= i <= bodies.len(),
    ensures
        survivors_from(bodies, gone, from).len() == kept_before(gone, bodies.len() as int)
            - kept_before(gone, from),
        i < bodies.len() && !marked(gone, i) ==> {
            &&& 0 <= kept_before(gone, i) - kept_before(gone, from) < survivors_from(
                bodies,
                gone,
                from,
            ).len()
            &&& survivors_from(bodies, gone, from)[kept_before(gone, i) - kept_before(gone, from)]
                == bodies[i]
        },
    decreases bodies.len() - from,
{
    lemma_kept_before_grows(gone, from, i);
    lemma_kept_before_grows(gone, i, bodies.len() as int);
    if from < bodies.len() {
        if i > from {
            lemma_survivors_from(bodies, gone, from + 1, i);
        } else {
            lemma_survivors_from(bodies, gone, from + 1, from + 1);
            lemma_kept_before_grows(gone, from + 1, bodies.len() as int);
        }
    }
}

/// Culling removes the marked bodies and nothing else, and keeps the order
/// of the rest: a body that is not marked comes to stand at the place that
/// counts the unmarked bodies before it, and there are as many bodies left
/// as were not marked.
pub proof fn lemma_survivors_keep_order<B>(bodies: Seq<B>, gone: Seq<bool>, i: int)
    requires
        0 <= i < bodies.len(),
        !marked(gone, i),
    ensures
        survivors(bodies, gone).len() == kept_before(gone, bodies.len() as int),
        0 <= kept_before(gone, i) < survivors(bodies, gone).len(),
        survivors(bodies, gone)[kept_before(gone, i)] == bodies[i],
{
    lemma_survivors_from(bodies, gone, 0, i);
}

/// Every body that is left after culling was there before and was not
/// marked.
pub proof fn lemma_survivor_was_unmarked<B>(bodies: Seq<B>, gone: Seq<bool>, k: int)
    requires
        0 <= k < survivors(bodies, gone).len(),
    ensures
        exists|i: int|
            0 <= i < bodies.len() && !marked(gone, i) && kept_before(gone, i) == k
                && #[trigger] bodies[i] == survivors(bodies, gone)[k],
{
    lemma_survivors_from(bodies, gone, 0, 0);
    let i = lemma_first_with_count(gone, bodies.len() as int, k);
    lemma_survivors_from(bodies, gone, 0, i);
}

/// Where more than `k` of the first `n` bodies are unmarked, one of them
/// has exactly `k` unmarked bodies before it.
proof fn lemma_first_with_count(gone: Seq<bool>, n: int, k: int) -> (i: int)
    requires
        0 <= k < kept_before(gone, n),
    ensures
        0 <= i < n,
        !marked(gone, i),
        kept_before(gone, i) == k,
    decreases n,
{
    if n <= 0 {
        0
    } else if !marked(gone, n - 1) && kept_before(gone, n - 1) == k {
        n - 1
    } else {
        lemma_first_with_count(gone, n - 1, k)
    }
}

/// Whether the pair `p` comes before the pair `q`: by the first position,
/// then by the second.
pub open spec fn pair_before(p: (usize, usize), q: (usize, usize)) -> bool {
    p.0 < q.0 || (p.0 == q.0 && p.1 < q.1)
}

/// Whether `pairs` holds the pairs of positions `(i, j)` with `i < j < n`
/// and no others, ordered by `i` and then by `j`.
pub open spec fn lists_pairs(pairs: Seq<(usize, usize)>, n: usize) -> bool {
    &&& forall|k: int| 0 <= k < pairs.len() ==> (#[trigger] pairs[k]).0 < pairs[k].1 < n
    &&& forall|k: int, l: int|
        0 <= k < l < pairs.len() ==> pair_before(#[trigger] pairs[k], #[trigger] pairs[l])
    &&& forall|i: usize, j: usize| i < j < n ==> pairs.contains((i, j))
}

/// The pairs of positions `(i, j)` with `i < j < n`, ordered by `i` and then
/// by `j`. These are the pairs of bodies that a collision check looks at.
pub fn unordered_pairs(n: usize) -> (pairs: Vec<(usize, usize)>)
    ensures
        lists_pairs(pairs@, n),
{
    let mut pairs: Vec<(usize, usize)> = Vec::new();
    let mut i: usize = 0;
    while i < n
        invariant
            i <= n,
            forall|k: int| 0 <= k < pairs@.len() ==> (#[trigger] pairs@[k]).0 < pairs@[k].1 < n,
            forall|k: int| 0 <= k < pairs@.len() ==> (#[trigger] pairs@[k]).0 < i,
            forall|k: int, l: int|
                0 <= k < l < pairs@.len() ==> pair_before(
                    #[trigger] pairs@[k],
                    #[trigger] pairs@[l],
                ),
            forall|a: usize, b: usize| a < b < n && a < i ==> pairs@.contains((a, b)),
        decreases n - i,
    {
        let mut j: usize = i + 1;
        while j < n
            invariant
                i < n,
                i < j <= n,
                forall|k: int| 0 <= k < pairs@.len() ==> (#[trigger] pairs@[k]).0 < pairs@[k].1 < n,
                forall|k: int|
                    0 <= k < pairs@.len() ==> (#[trigger] pairs@[k]).0 < i || (pairs@[k].0 == i
                        && pairs@[k].1 < j),
                forall|k: int, l: int|
                    0 <= k < l < pairs@.len() ==> pair_before(
                        #[trigger] pairs@[k],
                        #[trigger] pairs@[l],
                    ),
                forall|a: usize, b: usize|
                    a < b < n && (a < i || (a == i && b < j)) ==> pairs@.contains((a, b)),
            decreases n - j,
        {
            let ghost before = pairs@;
            pairs.push((i, j));
            assert forall|a: usize, b: usize|
                a < b < n && (a < i || (a == i && b < j + 1)) implies pairs@.contains((a, b)) by {
                if a == i && b == j {
                    assert(pairs@[before.len() as int] == (a, b));
                } else {
                    assert(before.contains((a, b)));
                    let k = choose|k: int| 0 <= k < before.len() && before[k] == (a, b);
                    assert(pairs@[k] == (a, b));
                }
            }
            j += 1;
        }
        i += 1;
    }
    pairs
}

/// Any two different positions below `n` are looked at together exactly
/// once: one place of the list holds their pair, in one order or the other,
/// and no second place does.
pub proof fn lemma_pair_listed_once(pairs: Seq<(usize, usize)>, n: usize, i: usize, j: usize)
    requires
        lists_pairs(pairs, n),
        i < n,
        j < n,
        i != j,
    ensures
        exists|k: int|
            0 <= k < pairs.len() && (#[trigger] pairs[k] == (i, j) || pairs[k] == (j, i)),
        forall|k: int, l: int|
            0 <= k < pairs.len() && 0 <= l < pairs.len() && (pairs[k] == (i, j) || pairs[k] == (
                j,
                i,
            )) && (pairs[l] == (i, j) || pairs[l] == (j, i)) ==> k == l,
{
    let lo = if i < j {
        i
    } else {
        j
    };
    let hi = if i < j {
        j
    } else {
        i
    };
    assert(pairs.contains((lo, hi)));
    let k0 = choose|k: int| 0 <= k < pairs.len() && pairs[k] == (lo, hi);
    assert(pairs[k0] == (i, j) || pairs[k0] == (j, i));
    assert forall|k: int, l: int|
        0 <= k < pairs.len() && 0 <= l < pairs.len() && (pairs[k] == (i, j) || pairs[k] == (j, i))
            && (pairs[l] == (i, j) || pairs[l] == (j, i)) implies k == l by {
        assert(pairs[k].0 < pairs[k].1);
        assert(pairs[l].0 < pairs[l].1);
        if k < l {
            assert(pair_before(pairs[k], pairs[l]));
        } else if l < k {
            assert(pair_before(pairs[l], pairs[k]));
        }
    }
}

} // verus!
