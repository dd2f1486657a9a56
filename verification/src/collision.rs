//! Colliders and the overlap notifications of the physics collaborator.

use vstd::prelude::*;

verus! {

/// The name of a collider. Each actor owns the collider it was given when
/// it was created.
#[derive(Clone, Copy, Debug, PartialEq, Eq, Hash, Structural)]
pub struct ColliderId(pub u64);

/// A raw notification about two colliders. Their order carries no meaning.
#[derive(Clone, Copy, Debug, PartialEq, Eq, Structural)]
pub enum CollisionEvent {
    /// The two colliders began to overlap.
    Started(ColliderId, ColliderId),
    /// The two colliders ceased to overlap.
    Stopped(ColliderId, ColliderId),
}

impl CollisionEvent {
    /// Whether the event reports the start of an overlap.
    pub open spec fn is_start(self) -> bool {
        self is Started
    }

    /// The first collider named by the event.
    pub open spec fn source(self) -> ColliderId {
        match self {
            CollisionEvent::Started(a, _) => a,
            CollisionEvent::Stopped(a, _) => a,
        }
    }

    /// The second collider named by the event.
    pub open spec fn target(self) -> ColliderId {
        match self {
            CollisionEvent::Started(_, b) => b,
            CollisionEvent::Stopped(_, b) => b,
        }
    }

    /// Whether the event names `c` on either side.
    pub open spec fn involves(self, c: ColliderId) -> bool {
        self.source() == c || self.target() == c
    }

    /// The two colliders of an overlap that started; `None` for an overlap
    /// that stopped.
    pub fn started(&self) -> (pair: Option<(ColliderId, ColliderId)>)
        ensures
            pair == if self.is_start() {
                Some((self.source(), self.target()))
            } else {
                None::<(ColliderId, ColliderId)>
            },
    {
        match *self {
            CollisionEvent::Started(a, b) => Some((a, b)),
            CollisionEvent::Stopped(_, _) => None,
        }
    }
}

/// Something that owns a collider.
pub trait Actor {
    /// The collider the actor owns.
    spec fn collider_id(&self) -> ColliderId;

    /// Whether the actor is marked for removal.
    spec fn is_inert(&self) -> bool;

    fn owned_collider(&self) -> (c: ColliderId)
        ensures
            c == self.collider_id(),
    ;

    fn inert(&self) -> (b: bool)
        ensures
            b == self.is_inert(),
    ;
}

impl Actor for ColliderId {
    open spec fn collider_id(&self) -> ColliderId {
        *self
    }

    open spec fn is_inert(&self) -> bool {
        false
    }

    fn owned_collider(&self) -> (c: ColliderId) {
        *self
    }

    fn inert(&self) -> (b: bool) {
        false
    }
}

/// The place of the first of `actors` that owns the collider `c`.
pub open spec fn owner<T: Actor>(actors: Seq<T>, c: ColliderId) -> Option<int>
    decreases actors.len(),
{
    if actors.len() == 0 {
        None
    } else {
        match owner(actors.drop_last(), c) {
            Some(i) => Some(i),
            None => if actors.last().collider_id() == c {
                Some(actors.len() - 1)
            } else {
                None
            },
        }
    }
}

/// The place of the actor that an event is about: the owner of its first
/// collider, or else of its second.
pub open spec fn party<T: Actor>(actors: Seq<T>, event: CollisionEvent) -> Option<int> {
    match owner(actors, event.source()) {
        Some(i) => Some(i),
        None => owner(actors, event.target()),
    }
}

/// `owner` finds an owner exactly where there is one, and then the first.
pub proof fn lemma_owner<T: Actor>(actors: Seq<T>, c: ColliderId)
    ensures
        match owner(actors, c) {
            Some(i) => 0 <= i < actors.len() && actors[i].collider_id() == c && forall|j: int|
                0 <= j < i ==> actors[j].collider_id() != c,
            None => forall|j: int| 0 <= j < actors.len() ==> actors[j].collider_id() != c,
        },
    decreases actors.len(),
{
    if actors.len() > 0 {
        lemma_owner(actors.drop_last(), c);
        let init = actors.drop_last();
        assert(forall|j: int| 0 <= j < init.len() ==> init[j] == actors[j]);
    }
}

/// The first actor that owns `c` is its owner.
pub proof fn lemma_owner_is_first<T: Actor>(actors: Seq<T>, c: ColliderId, i: int)
    requires
        0 <= i < actors.len(),
        actors[i].collider_id() == c,
        forall|j: int| 0 <= j < i ==> actors[j].collider_id() != c,
    ensures
        owner(actors, c) == Some(i),
{
    lemma_owner(actors, c);
}

/// `party` names a place among the actors.
pub proof fn lemma_party<T: Actor>(actors: Seq<T>, event: CollisionEvent)
    ensures
        party(actors, event) matches Some(i) ==> 0 <= i < actors.len() && event.involves(
            actors[i].collider_id(),
        ),
{
    lemma_owner(actors, event.source());
    lemma_owner(actors, event.target());
}

/// Looks for the first actor that owns the collider `c`.
pub fn find_owner<T: Actor>(actors: &Vec<T>, c: ColliderId) -> (found: Option<usize>)
    ensures
        match found {
            Some(i) => owner(actors@, c) == Some(i as int) && i < actors.len(),
            None => owner(actors@, c) is None,
        },
{
    let mut i: usize = 0;
    while i < actors.len()
        invariant
            i <= actors.len(),
            forall|j: int| 0 <= j < i ==> actors@[j].collider_id() != c,
        decreases actors.len() - i,
    {
        if actors[i].owned_collider() == c {
            proof {
                lemma_owner_is_first(actors@, c, i as int);
            }
            return Some(i);
        }
        i = i + 1;
    }
    proof {
        lemma_owner(actors@, c);
    }
    None
}

/// Looks for the actor that the overlap of `a` and `b` is about.
pub fn find_party<T: Actor>(actors: &Vec<T>, a: ColliderId, b: ColliderId) -> (found: Option<
    usize,
>)
    ensures
        match found {
            Some(i) => party(actors@, CollisionEvent::Started(a, b)) == Some(i as int) && i
                < actors.len(),
            None => party(actors@, CollisionEvent::Started(a, b)) is None,
        },
{
    match find_owner(actors, a) {
        Some(i) => Some(i),
        None => find_owner(actors, b),
    }
}

/// The actors that are not marked for removal, in their order.
pub open spec fn in_play<T: Actor>(actors: Seq<T>) -> Seq<T>
    decreases actors.len(),
{
    if actors.len() == 0 {
        Seq::empty()
    } else if actors.last().is_inert() {
        in_play(actors.drop_last())
    } else {
        in_play(actors.drop_last()).push(actors.last())
    }
}

/// Removes the actors that are marked for removal and keeps the others
/// in their order.
pub fn sweep<T: Actor + Copy>(actors: &mut Vec<T>)
    ensures
        final(actors)@ == in_play(old(actors)@),
{
    let mut kept: Vec<T> = Vec::new();
    let mut i: usize = 0;
    while i < actors.len()
        invariant
            i <= actors.len(),
            kept@ == in_play(actors@.take(i as int)),
        decreases actors.len() - i,
    {
        let actor = actors[i];
        proof {
            assert(actors@.take(i + 1).drop_last() =~= actors@.take(i as int));
            assert(actors@.take(i + 1).last() == actors@[i as int]);
        }
        if !actor.inert() {
            kept.push(actor);
        }
        i = i + 1;
    }
    proof {
        assert(actors@.take(actors.len() as int) =~= actors@);
    }
    *actors = kept;
}

/// Every actor left in play was there before and is not marked for
/// removal, and no more are left than there were.
pub proof fn lemma_in_play<T: Actor>(actors: Seq<T>)
    ensures
        in_play(actors).len() <= actors.len(),
        forall|i: int|
            0 <= i < in_play(actors).len() ==> !(#[trigger] in_play(actors)[i]).is_inert()
                && actors.contains(in_play(actors)[i]),
    decreases actors.len(),
{
    if actors.len() > 0 {
        let init = actors.drop_last();
        lemma_in_play(init);
        assert forall|i: int| 0 <= i < in_play(actors).len() implies !(#[trigger] in_play(
            actors,
        )[i]).is_inert() && actors.contains(in_play(actors)[i]) by {
            if i < in_play(init).len() {
                let a = in_play(init)[i];
                assert(init.contains(a));
                let j = choose|j: int| 0 <= j < init.len() && init[j] == a;
                assert(actors[j] == a);
            } else {
                assert(actors[actors.len() - 1] == actors.last());
            }
        }
    }
}

/// Where nothing is marked for removal, everything stays in play.
pub proof fn lemma_in_play_all<T: Actor>(actors: Seq<T>)
    requires
        forall|i: int| 0 <= i < actors.len() ==> !(#[trigger] actors[i]).is_inert(),
    ensures
        in_play(actors) == actors,
    decreases actors.len(),
{
    if actors.len() > 0 {
        let init = actors.drop_last();
        assert(forall|i: int| 0 <= i < init.len() ==> init[i] == actors[i]);
        lemma_in_play_all(init);
        assert(init.push(actors.last()) =~= actors);
    } else {
        assert(actors =~= Seq::<T>::empty());
    }
}

} // verus!
