use vstd::prelude::*;

use crate::entity::Color;
use crate::map::Tile;

verus! {

/// The glyph a map tile is drawn as: solid wall shows as `#`, anything the
/// player can pass or see through as `.`.
pub open spec fn spec_tile_glyph(tile: Tile) -> char {
    if !tile.transparent && !tile.walkable {
        '#'
    } else {
        '.'
    }
}

pub fn tile_glyph(tile: Tile) -> (g: char)
    ensures
        g == spec_tile_glyph(tile),
{
    if !tile.transparent && !tile.walkable {
        '#'
    } else {
        '.'
    }
}

/// The renderer's registry of terminal color pairs: the pair id each
/// (foreground, background) combination has been given. Ids start at 1 and
/// are handed out in order of first use; the terminal itself learns of a new
/// pair from the caller, which `get_pair` tells with a flag.
pub struct Renderer {
    pub pairs: Vec<((Color, Color), u32)>,
}

impl Renderer {
    /// Entry `k` holds pair id `k + 1`, and no color combination is
    /// registered twice.
    pub open spec fn wf(self) -> bool {
        &&& forall|k: int| 0 <= k < self.pairs@.len() ==> #[trigger] self.pairs@[k].1 == k + 1
        &&& forall|k: int, l: int|
            0 <= k < l < self.pairs@.len() ==> #[trigger] self.pairs@[k].0
                !== #[trigger] self.pairs@[l].0
    }

    pub fn new() -> (r: Renderer)
        ensures
            r.pairs@.len() == 0,
            r.wf(),
    {
        Renderer { pairs: Vec::new() }
    }

    /// Given a foreground and background color, we return the id for the
    /// color pair. If none exists, we register one; the flag says the pair is
    /// fresh and the terminal has not yet been told of it.
    pub fn get_pair(&mut self, fg: Color, bg: Color) -> (r: (u32, bool))
        requires
            old(self).wf(),
            old(self).pairs@.len() < u32::MAX,
        ensures
            final(self).wf(),
            r.1 == !old(self).pairs@.map_values(|e: ((Color, Color), u32)| e.0).contains((fg, bg)),
            r.1 ==> final(self).pairs@ == old(self).pairs@.push(((fg, bg), r.0)) && r.0 == old(
                self,
            ).pairs@.len() + 1,
            !r.1 ==> *final(self) == *old(self) && exists|k: int|
                0 <= k < old(self).pairs@.len() && #[trigger] old(self).pairs@[k] == (
                (fg, bg),
                r.0,
                ),
    {
        let ghost keys = old(self).pairs@.map_values(|e: ((Color, Color), u32)| e.0);
        let mut i: usize = 0;
        while i < self.pairs.len()
            invariant
                0 <= i <= self.pairs@.len(),
                *self == *old(self),
                old(self).wf(),
                old(self).pairs@.len() < u32::MAX,
                keys == old(self).pairs@.map_values(|e: ((Color, Color), u32)| e.0),
                forall|k: int| 0 <= k < i ==> #[trigger] self.pairs@[k].0 !== (fg, bg),
            decreases self.pairs@.len() - i,
        {
            let entry = self.pairs[i];
            if entry.0.0 == fg && entry.0.1 == bg {
                proof {
                    assert(keys[i as int] == (fg, bg));
                    assert(keys.contains((fg, bg)));
                }
                return (entry.1, false);
            }
            i += 1;
        }
        proof {
            assert(forall|k: int| 0 <= k < keys.len() ==> #[trigger] keys[k] !== (fg, bg));
            assert(!keys.contains((fg, bg)));
        }
        let new_pair_id = (self.pairs.len() + 1) as u32;
        self.pairs.push(((fg, bg), new_pair_id));
        (new_pair_id, true)
    }
}

} // verus!
