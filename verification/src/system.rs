use vstd::prelude::*;

use crate::component::MoveDelta;
use crate::component::Position;
use crate::event::Event;
use crate::input_handlers::spec_handle_keys;
use crate::input_handlers::handle_keys;
use crate::map::GameMap;

verus! {

/// System which updates the position of entities.
pub struct UpdatePos;

impl UpdatePos {
    /// One entity's step: the pending delta moves the position and is spent.
    pub fn run_one(pos: &mut Position, delta: &mut MoveDelta)
        requires
            i32::MIN <= old(pos).x + old(delta).dx <= i32::MAX,
            i32::MIN <= old(pos).y + old(delta).dy <= i32::MAX,
        ensures
            final(pos).x == old(pos).x + old(delta).dx,
            final(pos).y == old(pos).y + old(delta).dy,
            final(delta).dx == 0,
            final(delta).dy == 0,
    {
        pos.x += delta.dx;
        pos.y += delta.dy;
        delta.dx = 0;
        delta.dy = 0;
    }
}

/// The movement intents that one batch of key presses orders: every movement
/// key's delta, once for each puppeted entity, in input order.
pub open spec fn intents_spec(keys: Seq<char>, puppets: Seq<usize>) -> Seq<(usize, (i32, i32))>
    decreases keys.len(),
{
    if keys.len() == 0 {
        Seq::empty()
    } else {
        let head = match spec_handle_keys(keys[0]) {
            Some(Event::Movement(d)) => puppets.map_values(|p: usize| (p, d)),
            _ => Seq::empty(),
        };
        head + intents_spec(keys.drop_first(), puppets)
    }
}

/// Deals with transforming keyboard events into actual game events.
pub struct InputSystem;

impl InputSystem {
    /// Turns raw key presses into movement intents for the puppeted
    /// entities, named here by the caller's own ids.
    pub fn run(keys: &Vec<char>, puppets: &Vec<usize>) -> (out: Vec<(usize, (i32, i32))>)
        ensures
            out@ == intents_spec(keys@, puppets@),
    {
        let mut out: Vec<(usize, (i32, i32))> = Vec::new();
        proof {
            assert(keys@.skip(0) =~= keys@);
            assert(out@ + intents_spec(keys@, puppets@) =~= intents_spec(keys@, puppets@));
        }
        let mut i: usize = 0;
        while i < keys.len()
            invariant
                0 <= i <= keys@.len(),
                intents_spec(keys@, puppets@) == out@ + intents_spec(keys@.skip(i as int), puppets@),
            decreases keys@.len() - i,
        {
            let ghost pre = out@;
            let ghost rest = keys@.skip(i as int);
            match handle_keys(keys[i]) {
                Some(Event::Movement(d)) => {
                    let mut pj: usize = 0;
                    while pj < puppets.len()
                        invariant
                            0 <= pj <= puppets@.len(),
                            out@ == pre + puppets@.take(pj as int).map_values(
                                |p: usize| (p, (d.0, d.1)),
                            ),
                        decreases puppets@.len() - pj,
                    {
                        out.push((puppets[pj], d));
                        proof {
                            assert(puppets@.take(pj as int + 1).map_values(
                                |p: usize| (p, (d.0, d.1)),
                            ) =~= puppets@.take(pj as int).map_values(|p: usize| (p, (d.0, d.1)))
                                + seq![(puppets@[pj as int], (d.0, d.1))]);
                            assert(out@ =~= pre + puppets@.take(pj as int + 1).map_values(
                                |p: usize| (p, (d.0, d.1)),
                            ));
                        }
                        pj += 1;
                    }
                    proof {
                        assert(puppets@.take(puppets@.len() as int) =~= puppets@);
                        assert(puppets@.map_values(|p: usize| (p, (d.0, d.1)))
                            =~= puppets@.map_values(|p: usize| (p, d)));
                    }
                },
                _ => {},
            }
            proof {
                assert(rest.drop_first() =~= keys@.skip(i as int + 1));
                assert(rest[0] == keys@[i as int]);
                match spec_handle_keys(keys@[i as int]) {
                    Some(Event::Movement(d)) => {
                        assert((pre + puppets@.map_values(|p: usize| (p, d))) + intents_spec(
                            keys@.skip(i as int + 1),
                            puppets@,
                        ) =~= pre + intents_spec(rest, puppets@));
                    },
                    _ => {
                        assert(pre + intents_spec(keys@.skip(i as int + 1), puppets@) =~= pre
                            + intents_spec(rest, puppets@));
                    },
                }
            }
            i += 1;
        }
        proof {
            assert(keys@.skip(keys@.len() as int) =~= Seq::<char>::empty());
            assert(out@ + Seq::<(usize, (i32, i32))>::empty() =~= out@);
        }
        out
    }
}

/// Moves entities by their intents when the target tile is open and no
/// blocking entity stands in the way.
pub struct MovementSystem;

impl MovementSystem {
    /// Whether an entity may step onto `(new_x, new_y)`: the tile there is
    /// walkable and no blocker stands on it.
    pub fn can_move(map: &GameMap, blockers: &Vec<Position>, new_x: i32, new_y: i32) -> (b: bool)
        requires
            0 <= new_y < map.data@.len(),
            0 <= new_x < map.data@[new_y as int]@.len(),
        ensures
            b == (map.spec_at(new_x as int, new_y as int).walkable && forall|k: int|
                0 <= k < blockers@.len() ==> #[trigger] blockers@[k] !== (Position {
                    x: new_x,
                    y: new_y,
                })),
    {
        if !map.at(new_x, new_y).walkable {
            return false;
        }
        let mut k: usize = 0;
        while k < blockers.len()
            invariant
                0 <= k <= blockers@.len(),
                forall|q: int|
                    0 <= q < k ==> #[trigger] blockers@[q] !== (Position { x: new_x, y: new_y }),
            decreases blockers@.len() - k,
        {
            if blockers[k].x == new_x && blockers[k].y == new_y {
                return false;
            }
            k += 1;
        }
        true
    }

    /// One entity's move: steps `pos` by the delta when `can_move` allows it,
    /// and says whether it did.
    pub fn try_move(
        map: &GameMap,
        blockers: &Vec<Position>,
        pos: &mut Position,
        dx: i32,
        dy: i32,
    ) -> (moved: bool)
        requires
            i32::MIN <= old(pos).x + dx <= i32::MAX,
            i32::MIN <= old(pos).y + dy <= i32::MAX,
            0 <= old(pos).y + dy < map.data@.len(),
            0 <= old(pos).x + dx < map.data@[old(pos).y + dy]@.len(),
        ensures
            moved == (map.spec_at(old(pos).x + dx, old(pos).y + dy).walkable && forall|k: int|
                0 <= k < blockers@.len() ==> #[trigger] blockers@[k] !== (Position {
                    x: (old(pos).x + dx) as i32,
                    y: (old(pos).y + dy) as i32,
                })),
            moved ==> *final(pos) == (Position {
                x: (old(pos).x + dx) as i32,
                y: (old(pos).y + dy) as i32,
            }),
            !moved ==> *final(pos) == *old(pos),
    {
        let new_x = pos.x + dx;
        let new_y = pos.y + dy;
        if MovementSystem::can_move(map, blockers, new_x, new_y) {
            pos.x = new_x;
            pos.y = new_y;
            true
        } else {
            false
        }
    }
}

} // verus!
