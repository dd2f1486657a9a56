//! From overlaps to outcomes: which actor an overlap is about, and what
//! it does to it.
//!
//! Only overlaps that start count. Each rule looks for its two parties on
//! either side of an event, and an actor that is disabled already is
//! never hit again.

use vstd::prelude::*;
use crate::collision::Actor;
use crate::collision::ColliderId;
use crate::collision::CollisionEvent;
use crate::collision::find_owner;
use crate::collision::find_party;
use crate::collision::lemma_owner;
use crate::collision::lemma_party;
use crate::collision::owner;
use crate::collision::party;
use crate::enemy::Enemy;
use crate::enemy::EnemyProjectile;
use crate::player::Player;
use crate::player::PlayerState;
use crate::reflection_projectile::ReflectionProjectile;
use crate::reflection_projectile::SpawnReflectionProjectile;
use crate::strike::Strike;

verus! {

/// What an enemy brought down by a strike is worth.
pub const STRIKE_SCORE: u32 = 100;

/// What an enemy brought down by a reflected arrow is worth.
pub const REFLECTION_SCORE: u32 = 200;

/// What an enemy run down by a dash is worth.
pub const DASH_SCORE: u32 = 50;

/// What an enemy caught by the shockwave of a landing is worth.
pub const DASH_LANDING_SCORE: u32 = 25;

/// The enemies after one event: where an overlap starts between an enemy
/// and one of `hitboxes`, the enemy is defeated for `award`.
pub open spec fn hit<H: Actor>(
    enemies: Seq<Enemy>,
    hitboxes: Seq<H>,
    award: u32,
    event: CollisionEvent,
) -> Seq<Enemy> {
    if event.is_start() && party(hitboxes, event) is Some {
        match party(enemies, event) {
            Some(i) => enemies.update(i, enemies[i].defeated(award)),
            None => enemies,
        }
    } else {
        enemies
    }
}

/// The enemies after the events, in order.
pub open spec fn hits<H: Actor>(
    enemies: Seq<Enemy>,
    hitboxes: Seq<H>,
    award: u32,
    events: Seq<CollisionEvent>,
) -> Seq<Enemy>
    decreases events.len(),
{
    if events.len() == 0 {
        enemies
    } else {
        hit(hits(enemies, hitboxes, award, events.drop_last()), hitboxes, award, events.last())
    }
}

/// Defeats, for `award`, every enemy that starts to overlap one of
/// `hitboxes`.
pub fn defeat_on_contact<H: Actor>(
    enemies: &mut Vec<Enemy>,
    hitboxes: &Vec<H>,
    award: u32,
    events: &Vec<CollisionEvent>,
)
    ensures
        final(enemies)@ == hits(old(enemies)@, hitboxes@, award, events@),
{
    let ghost before = enemies@;
    let mut k: usize = 0;
    while k < events.len()
        invariant
            k <= events.len(),
            enemies@ == hits(before, hitboxes@, award, events@.take(k as int)),
        decreases events.len() - k,
    {
        let ghost so_far = enemies@;
        if let Some((a, b)) = events[k].started() {
            if let Some(i) = find_party(enemies, a, b) {
                if find_party(hitboxes, a, b).is_some() {
                    let mut enemy = enemies[i];
                    enemy.defeat(award);
                    enemies.set(i, enemy);
                }
            }
        }
        proof {
            assert(events@.take(k + 1).drop_last() =~= events@.take(k as int));
            assert(events@.take(k + 1).last() == events@[k as int]);
            assert(enemies@ =~= hit(so_far, hitboxes@, award, events@[k as int]));
        }
        k = k + 1;
    }
    proof {
        assert(events@.take(events.len() as int) =~= events@);
    }
}

/// Arrows and the reflections asked for so far.
pub struct Deflection {
    pub projectiles: Seq<EnemyProjectile>,
    pub requests: Seq<SpawnReflectionProjectile>,
}

/// The arrow that an event sends back: one that is still in play and
/// starts to overlap a strike.
pub open spec fn deflected(
    projectiles: Seq<EnemyProjectile>,
    strikes: Seq<Strike>,
    event: CollisionEvent,
) -> Option<(int, int)> {
    if event.is_start() {
        match (party(projectiles, event), party(strikes, event)) {
            (Some(i), Some(j)) => if projectiles[i].disabled {
                None
            } else {
                Some((i, j))
            },
            _ => None,
        }
    } else {
        None
    }
}

/// The arrows after one event: an arrow sent back is disabled, and a
/// reflection is asked for where it was, along the strike's facing.
pub open spec fn deflect(state: Deflection, strikes: Seq<Strike>, event: CollisionEvent)
    -> Deflection {
    match deflected(state.projectiles, strikes, event) {
        Some((i, j)) => Deflection {
            projectiles: state.projectiles.update(
                i,
                EnemyProjectile { disabled: true, ..state.projectiles[i] },
            ),
            requests: state.requests.push(
                SpawnReflectionProjectile {
                    pos: state.projectiles[i].position,
                    dir: strikes[j].rot.heading_spec(),
                },
            ),
        },
        None => state,
    }
}

/// The arrows after the events, in order.
pub open spec fn deflections(
    projectiles: Seq<EnemyProjectile>,
    strikes: Seq<Strike>,
    events: Seq<CollisionEvent>,
) -> Deflection
    decreases events.len(),
{
    if events.len() == 0 {
        Deflection { projectiles, requests: Seq::empty() }
    } else {
        deflect(deflections(projectiles, strikes, events.drop_last()), strikes, events.last())
    }
}

/// Sends back every arrow that starts to overlap a strike: the arrow is
/// disabled and a reflection is asked for in its place.
pub fn projectile_strike_collisions(
    projectiles: &mut Vec<EnemyProjectile>,
    strikes: &Vec<Strike>,
    events: &Vec<CollisionEvent>,
) -> (requests: Vec<SpawnReflectionProjectile>)
    ensures
        final(projectiles)@ == deflections(old(projectiles)@, strikes@, events@).projectiles,
        requests@ == deflections(old(projectiles)@, strikes@, events@).requests,
{
    let ghost before = projectiles@;
    let mut requests: Vec<SpawnReflectionProjectile> = Vec::new();
    let mut k: usize = 0;
    while k < events.len()
        invariant
            k <= events.len(),
            projectiles@ == deflections(before, strikes@, events@.take(k as int)).projectiles,
            requests@ == deflections(before, strikes@, events@.take(k as int)).requests,
        decreases events.len() - k,
    {
        let ghost so_far = Deflection { projectiles: projectiles@, requests: requests@ };
        if let Some((a, b)) = events[k].started() {
            if let Some(i) = find_party(projectiles, a, b) {
                if let Some(j) = find_party(strikes, a, b) {
                    let mut arrow = projectiles[i];
                    if arrow.disable() {
                        requests.push(
                            SpawnReflectionProjectile {
                                pos: arrow.position,
                                dir: strikes[j].rot.heading(),
                            },
                        );
                        projectiles.set(i, arrow);
                    }
                }
            }
        }
        proof {
            assert(events@.take(k + 1).drop_last() =~= events@.take(k as int));
            assert(events@.take(k + 1).last() == events@[k as int]);
            let next = deflect(so_far, strikes@, events@[k as int]);
            assert(projectiles@ =~= next.projectiles);
            assert(requests@ =~= next.requests);
        }
        k = k + 1;
    }
    proof {
        assert(events@.take(events.len() as int) =~= events@);
    }
    requests
}

/// Enemies and reflected arrows.
pub struct Volley {
    pub enemies: Seq<Enemy>,
    pub reflections: Seq<ReflectionProjectile>,
}

/// The enemy that an event brings down by a reflected arrow, and the
/// arrow.
pub open spec fn pierced(state: Volley, event: CollisionEvent) -> Option<(int, int)> {
    if event.is_start() {
        match (party(state.enemies, event), party(state.reflections, event)) {
            (Some(i), Some(j)) => if state.enemies[i].disabled {
                None
            } else {
                Some((i, j))
            },
            _ => None,
        }
    } else {
        None
    }
}

/// Enemies and reflected arrows after one event: the enemy hit is
/// defeated for [`REFLECTION_SCORE`], and the arrow counts it.
pub open spec fn pierce(state: Volley, event: CollisionEvent) -> Volley {
    match pierced(state, event) {
        Some((i, j)) => Volley {
            enemies: state.enemies.update(i, state.enemies[i].defeated(REFLECTION_SCORE)),
            reflections: state.reflections.update(j, state.reflections[j].counted()),
        },
        None => state,
    }
}

/// Enemies and reflected arrows after the events, in order.
pub open spec fn volleys(state: Volley, events: Seq<CollisionEvent>) -> Volley
    decreases events.len(),
{
    if events.len() == 0 {
        state
    } else {
        pierce(volleys(state, events.drop_last()), events.last())
    }
}

/// Defeats every enemy that starts to overlap a reflected arrow, and
/// lets the arrow count what it has brought down.
pub fn player_reflection_projectiles_collisions(
    reflections: &mut Vec<ReflectionProjectile>,
    enemies: &mut Vec<Enemy>,
    events: &Vec<CollisionEvent>,
)
    ensures
        (Volley { enemies: final(enemies)@, reflections: final(reflections)@ }) == volleys(
            Volley { enemies: old(enemies)@, reflections: old(reflections)@ },
            events@,
        ),
{
    let ghost before = Volley { enemies: enemies@, reflections: reflections@ };
    let mut k: usize = 0;
    while k < events.len()
        invariant
            k <= events.len(),
            (Volley { enemies: enemies@, reflections: reflections@ }) == volleys(
                before,
                events@.take(k as int),
            ),
        decreases events.len() - k,
    {
        let ghost so_far = Volley { enemies: enemies@, reflections: reflections@ };
        if let Some((a, b)) = events[k].started() {
            if let Some(i) = find_party(enemies, a, b) {
                if let Some(j) = find_party(reflections, a, b) {
                    let mut enemy = enemies[i];
                    if enemy.defeat(REFLECTION_SCORE) {
                        let mut arrow = reflections[j];
                        arrow.increase_counter();
                        enemies.set(i, enemy);
                        reflections.set(j, arrow);
                    }
                }
            }
        }
        proof {
            assert(events@.take(k + 1).drop_last() =~= events@.take(k as int));
            assert(events@.take(k + 1).last() == events@[k as int]);
            let next = pierce(so_far, events@[k as int]);
            assert(enemies@ =~= next.enemies);
            assert(reflections@ =~= next.reflections);
        }
        k = k + 1;
    }
    proof {
        assert(events@.take(events.len() as int) =~= events@);
    }
}

/// The collider on the other side of an event from `body`.
pub open spec fn opposite(body: ColliderId, event: CollisionEvent) -> Option<ColliderId> {
    if event.source() == body {
        Some(event.target())
    } else if event.target() == body {
        Some(event.source())
    } else {
        None
    }
}

/// Whether an event brings `body` into contact with one of `threats`
/// that is still in play.
pub open spec fn harms<T: Actor>(body: ColliderId, threats: Seq<T>, event: CollisionEvent)
    -> bool {
    &&& event.is_start()
    &&& opposite(body, event) matches Some(c)
    &&& owner(threats, c) matches Some(i)
    &&& !threats[i].is_inert()
}

/// Whether any of the events harms `body`.
pub open spec fn harmed<T: Actor>(
    body: ColliderId,
    threats: Seq<T>,
    events: Seq<CollisionEvent>,
) -> bool {
    exists|k: int| 0 <= k < events.len() && harms(body, threats, #[trigger] events[k])
}

/// Whether `body` starts to overlap one of `threats` that is not marked
/// for removal.
pub fn touched<T: Actor>(body: ColliderId, threats: &Vec<T>, events: &Vec<CollisionEvent>) -> (hurt:
    bool)
    ensures
        hurt == harmed(body, threats@, events@),
{
    let mut k: usize = 0;
    while k < events.len()
        invariant
            k <= events.len(),
            forall|j: int| 0 <= j < k ==> !harms(body, threats@, #[trigger] events@[j]),
        decreases events.len() - k,
    {
        if let Some((a, b)) = events[k].started() {
            let other = if a == body {
                Some(b)
            } else if b == body {
                Some(a)
            } else {
                None
            };
            if let Some(c) = other {
                if let Some(i) = find_owner(threats, c) {
                    if !threats[i].inert() {
                        assert(harms(body, threats@, events@[k as int]));
                        return true;
                    }
                }
            }
        }
        k = k + 1;
    }
    false
}

/// The player and the enemies.
pub struct Catch {
    pub player: Player,
    pub enemies: Seq<Enemy>,
}

/// The enemy that an event lets the hook catch: the hook is out, its
/// hitbox is in play, and the enemy it starts to overlap is not stunned.
pub open spec fn caught(state: Catch, hook: Option<ColliderId>, event: CollisionEvent) -> Option<
    int,
> {
    if event.is_start() && state.player.state == PlayerState::Hooking && hook is Some
        && event.involves(hook->0) {
        match party(state.enemies, event) {
            Some(i) => if state.enemies[i].stunned {
                None
            } else {
                Some(i)
            },
            None => None,
        }
    } else {
        None
    }
}

/// Player and enemies after one event: a caught enemy is stunned, and
/// the player slides toward where it stands.
pub open spec fn catch_one(state: Catch, hook: Option<ColliderId>, event: CollisionEvent)
    -> Catch {
    match caught(state, hook, event) {
        Some(i) => Catch {
            player: Player {
                state: PlayerState::Sliding,
                hook_target_pos: state.enemies[i].position,
                ..state.player
            },
            enemies: state.enemies.update(i, Enemy { stunned: true, ..state.enemies[i] }),
        },
        None => state,
    }
}

/// Player and enemies after the events, in order.
pub open spec fn catches(state: Catch, hook: Option<ColliderId>, events: Seq<CollisionEvent>)
    -> Catch
    decreases events.len(),
{
    if events.len() == 0 {
        state
    } else {
        catch_one(catches(state, hook, events.drop_last()), hook, events.last())
    }
}

/// Lets the hook catch the first enemy whose overlap with it starts
/// while it is out: the enemy is stunned and the player starts to slide
/// toward it. `hook` is the hook's hitbox while it is in play.
pub fn hook_enemy_collision(
    player: &mut Player,
    hook: Option<ColliderId>,
    enemies: &mut Vec<Enemy>,
    events: &Vec<CollisionEvent>,
)
    ensures
        (Catch { player: *final(player), enemies: final(enemies)@ }) == catches(
            Catch { player: *old(player), enemies: old(enemies)@ },
            hook,
            events@,
        ),
{
    let ghost before = Catch { player: *player, enemies: enemies@ };
    let mut k: usize = 0;
    while k < events.len()
        invariant
            k <= events.len(),
            (Catch { player: *player, enemies: enemies@ }) == catches(
                before,
                hook,
                events@.take(k as int),
            ),
        decreases events.len() - k,
    {
        let ghost so_far = Catch { player: *player, enemies: enemies@ };
        if let Some((a, b)) = events[k].started() {
            if let Some(h) = hook {
                if a == h || b == h {
                    if let Some(i) = find_party(enemies, a, b) {
                        let mut enemy = enemies[i];
                        if !enemy.stunned {
                            if player.hook_caught(enemy.position) {
                                enemy.stunned = true;
                                enemies.set(i, enemy);
                            }
                        }
                    }
                }
            }
        }
        proof {
            assert(events@.take(k + 1).drop_last() =~= events@.take(k as int));
            assert(events@.take(k + 1).last() == events@[k as int]);
            let next = catch_one(so_far, hook, events@[k as int]);
            assert(enemies@ =~= next.enemies);
            assert(*player == next.player);
        }
        k = k + 1;
    }
    proof {
        assert(events@.take(events.len() as int) =~= events@);
    }
}

/// An event changes an enemy at most by defeating it, and never one that
/// is disabled already.
pub proof fn lemma_hit_once<H: Actor>(
    enemies: Seq<Enemy>,
    hitboxes: Seq<H>,
    award: u32,
    event: CollisionEvent,
)
    ensures
        hit(enemies, hitboxes, award, event).len() == enemies.len(),
        forall|i: int|
            0 <= i < enemies.len() ==> {
                let after = #[trigger] hit(enemies, hitboxes, award, event)[i];
                &&& (enemies[i].disabled ==> after == enemies[i])
                &&& (after == enemies[i] || after == enemies[i].defeated(award))
            },
{
    lemma_party(enemies, event);
}

/// Over any run of events each enemy is defeated at most once: it comes
/// out as it went in, or disabled with exactly the award, and an enemy
/// that went in disabled comes out unchanged.
pub proof fn lemma_hits_once<H: Actor>(
    enemies: Seq<Enemy>,
    hitboxes: Seq<H>,
    award: u32,
    events: Seq<CollisionEvent>,
)
    ensures
        hits(enemies, hitboxes, award, events).len() == enemies.len(),
        forall|i: int|
            0 <= i < enemies.len() ==> {
                let after = #[trigger] hits(enemies, hitboxes, award, events)[i];
                &&& (enemies[i].disabled ==> after == enemies[i])
                &&& (after == enemies[i] || after == enemies[i].defeated(award))
            },
    decreases events.len(),
{
    if events.len() > 0 {
        let before = hits(enemies, hitboxes, award, events.drop_last());
        lemma_hits_once(enemies, hitboxes, award, events.drop_last());
        lemma_hit_once(before, hitboxes, award, events.last());
        assert forall|i: int| 0 <= i < enemies.len() implies {
            let after = #[trigger] hits(enemies, hitboxes, award, events)[i];
            &&& (enemies[i].disabled ==> after == enemies[i])
            &&& (after == enemies[i] || after == enemies[i].defeated(award))
        } by {
            let mid = before[i];
            let after = hit(before, hitboxes, award, events.last())[i];
            assert(after == mid || after == mid.defeated(award));
        }
    }
}

/// A second event about an enemy that the first has defeated changes
/// nothing.
pub proof fn lemma_hit_idempotent<H: Actor>(
    enemies: Seq<Enemy>,
    hitboxes: Seq<H>,
    award: u32,
    event: CollisionEvent,
)
    ensures
        hit(hit(enemies, hitboxes, award, event), hitboxes, award, event) == hit(
            enemies,
            hitboxes,
            award,
            event,
        ),
{
    lemma_party(enemies, event);
    let once = hit(enemies, hitboxes, award, event);
    lemma_same_parties(enemies, once, event.source());
    lemma_same_parties(enemies, once, event.target());
    assert(hit(once, hitboxes, award, event) =~= once);
}

/// Who owns a collider depends only on the colliders of the actors.
pub proof fn lemma_same_parties<T: Actor>(a: Seq<T>, b: Seq<T>, c: ColliderId)
    requires
        a.len() == b.len(),
        forall|i: int| 0 <= i < a.len() ==> a[i].collider_id() == b[i].collider_id(),
    ensures
        owner(a, c) == owner(b, c),
{
    lemma_owner(a, c);
    lemma_owner(b, c);
}

/// An arrow is sent back at most once: an event about a disabled arrow
/// changes nothing and asks for no reflection.
pub proof fn lemma_deflect_once(state: Deflection, strikes: Seq<Strike>, event: CollisionEvent)
    ensures
        deflect(state, strikes, event).projectiles.len() == state.projectiles.len(),
        forall|i: int|
            0 <= i < state.projectiles.len() && state.projectiles[i].disabled ==> #[trigger] deflect(
                state,
                strikes,
                event,
            ).projectiles[i] == state.projectiles[i],
        deflect(deflect(state, strikes, event), strikes, event) == deflect(state, strikes, event),
{
    lemma_party(state.projectiles, event);
    let once = deflect(state, strikes, event);
    lemma_same_parties(state.projectiles, once.projectiles, event.source());
    lemma_same_parties(state.projectiles, once.projectiles, event.target());
}

/// A catch is one of the player's transitions; a player whose hook is
/// not out is never caught up in a slide, and the event of a catch, seen
/// again, changes nothing.
pub proof fn lemma_catch_once(state: Catch, hook: Option<ColliderId>, event: CollisionEvent)
    ensures
        state.player.state.step(catch_one(state, hook, event).player.state),
        state.player.state != PlayerState::Hooking ==> catch_one(state, hook, event) == state,
        catch_one(catch_one(state, hook, event), hook, event) == catch_one(state, hook, event),
        catch_one(state, hook, event).enemies.len() == state.enemies.len(),
{
    lemma_party(state.enemies, event);
}

/// A reflected arrow brings an enemy down at most once: over any run of
/// events each enemy comes out as it went in, or disabled with exactly
/// [`REFLECTION_SCORE`], and an enemy that went in disabled comes out
/// unchanged.
pub proof fn lemma_volleys_once(state: Volley, events: Seq<CollisionEvent>)
    ensures
        volleys(state, events).enemies.len() == state.enemies.len(),
        volleys(state, events).reflections.len() == state.reflections.len(),
        forall|i: int|
            0 <= i < state.enemies.len() ==> {
                let after = #[trigger] volleys(state, events).enemies[i];
                &&& (state.enemies[i].disabled ==> after == state.enemies[i])
                &&& (after == state.enemies[i] || after == state.enemies[i].defeated(
                    REFLECTION_SCORE,
                ))
            },
    decreases events.len(),
{
    if events.len() > 0 {
        let before = volleys(state, events.drop_last());
        lemma_volleys_once(state, events.drop_last());
        lemma_party(before.enemies, events.last());
        lemma_party(before.reflections, events.last());
        assert forall|i: int| 0 <= i < state.enemies.len() implies {
            let after = #[trigger] volleys(state, events).enemies[i];
            &&& (state.enemies[i].disabled ==> after == state.enemies[i])
            &&& (after == state.enemies[i] || after == state.enemies[i].defeated(
                REFLECTION_SCORE,
            ))
        } by {
            let mid = before.enemies[i];
            let after = pierce(before, events.last()).enemies[i];
            assert(after == mid || after == mid.defeated(REFLECTION_SCORE));
        }
    }
}

/// The hook leaves the enemies' number, their scores and their being
/// disabled alone, and moves the player along its transitions.
pub proof fn lemma_catches(state: Catch, hook: Option<ColliderId>, events: Seq<CollisionEvent>)
    ensures
        catches(state, hook, events).enemies.len() == state.enemies.len(),
        forall|i: int|
            0 <= i < state.enemies.len() ==> {
                let after = #[trigger] catches(state, hook, events).enemies[i];
                &&& after.disabled == state.enemies[i].disabled
                &&& after.score == state.enemies[i].score
                &&& after.collider == state.enemies[i].collider
            },
        catches(state, hook, events).player.state == state.player.state || (state.player.state
            == PlayerState::Hooking && catches(state, hook, events).player.state
            == PlayerState::Sliding),
        state.player.state.step(catches(state, hook, events).player.state),
        catches(state, hook, events).player.disabled == state.player.disabled,
    decreases events.len(),
{
    if events.len() > 0 {
        let before = catches(state, hook, events.drop_last());
        lemma_catches(state, hook, events.drop_last());
        lemma_party(before.enemies, events.last());
        lemma_catch_once(before, hook, events.last());
    }
}

/// An enemy that starts to overlap a hitbox is disabled when the events
/// have been gone through, whatever else they hold.
pub proof fn lemma_touch_defeats<H: Actor>(
    enemies: Seq<Enemy>,
    hitboxes: Seq<H>,
    award: u32,
    events: Seq<CollisionEvent>,
    k: int,
    i: int,
)
    requires
        0 <= k < events.len(),
        events[k].is_start(),
        party(hitboxes, events[k]) is Some,
        party(enemies, events[k]) == Some(i),
    ensures
        0 <= i < enemies.len(),
        hits(enemies, hitboxes, award, events)[i].disabled,
        !enemies[i].disabled ==> hits(enemies, hitboxes, award, events)[i] == enemies[i].defeated(
            award,
        ),
    decreases events.len(),
{
    lemma_party(enemies, events[k]);
    let before = hits(enemies, hitboxes, award, events.drop_last());
    lemma_hits_once(enemies, hitboxes, award, events.drop_last());
    lemma_hits_once(enemies, hitboxes, award, events);
    lemma_hit_once(before, hitboxes, award, events.last());
    if k == events.len() - 1 {
        assert forall|j: int| 0 <= j < enemies.len() implies (#[trigger] before[j]).collider_id()
            == enemies[j].collider_id() by {
            assert(before[j] == enemies[j] || before[j] == enemies[j].defeated(award));
        }
        lemma_same_parties(enemies, before, events[k].source());
        lemma_same_parties(enemies, before, events[k].target());
    } else {
        lemma_touch_defeats(enemies, hitboxes, award, events.drop_last(), k, i);
    }
}

/// The same event with its colliders in the other order.
pub open spec fn swapped(event: CollisionEvent) -> CollisionEvent {
    match event {
        CollisionEvent::Started(a, b) => CollisionEvent::Started(b, a),
        CollisionEvent::Stopped(a, b) => CollisionEvent::Stopped(b, a),
    }
}

/// The order of the two colliders of an event does not matter to a
/// hit, as long as no collider belongs to an enemy and to a hitbox at
/// once.
pub proof fn lemma_hit_symmetric<H: Actor>(
    enemies: Seq<Enemy>,
    hitboxes: Seq<H>,
    award: u32,
    event: CollisionEvent,
)
    requires
        forall|c: ColliderId| !(owner(enemies, c) is Some && owner(hitboxes, c) is Some),
    ensures
        hit(enemies, hitboxes, award, swapped(event)) == hit(enemies, hitboxes, award, event),
{
    let a = event.source();
    let b = event.target();
    if event.is_start() && party(hitboxes, event) is Some {
        if owner(hitboxes, a) is Some {
            assert(!(owner(enemies, a) is Some && owner(hitboxes, a) is Some));
        }
        if owner(hitboxes, b) is Some {
            assert(!(owner(enemies, b) is Some && owner(hitboxes, b) is Some));
        }
        if owner(enemies, a) is Some && owner(enemies, b) is Some {
            assert(!(owner(enemies, a) is Some && owner(hitboxes, a) is Some));
            assert(!(owner(enemies, b) is Some && owner(hitboxes, b) is Some));
        }
    }
}

/// The order of the two colliders of an event does not matter to what
/// harms the player.
pub proof fn lemma_harms_symmetric<T: Actor>(
    body: ColliderId,
    threats: Seq<T>,
    event: CollisionEvent,
)
    ensures
        harms(body, threats, swapped(event)) == harms(body, threats, event),
{
}

} // verus!
