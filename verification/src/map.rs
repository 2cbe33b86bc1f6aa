use vstd::prelude::*;

verus! {

/// One cell of the dungeon map.
#[derive(Debug, Copy, Clone, PartialEq, Eq, Structural)]
pub struct Tile {
    pub transparent: bool,
    pub walkable: bool,
}

impl Tile {
    /// A fresh tile: solid wall, neither walkable nor transparent.
    pub fn new() -> (t: Tile)
        ensures
            t == (Tile { transparent: false, walkable: false }),
    {
        Tile { transparent: false, walkable: false }
    }
}

/// The dungeon map: a grid of tiles, indexed row first.
pub struct GameMap {
    pub data: Vec<Vec<Tile>>,
}

impl GameMap {
    /// Every row holds the same number of tiles.
    pub open spec fn wf(self) -> bool {
        forall|r: int|
            0 <= r < self.data@.len() ==> #[trigger] self.data@[r]@.len() == self.spec_width()
    }

    pub open spec fn spec_height(self) -> int {
        self.data@.len() as int
    }

    pub open spec fn spec_width(self) -> int {
        if self.data@.len() == 0 {
            0
        } else {
            self.data@[0]@.len() as int
        }
    }

    /// The tile in column `x` of row `y`.
    pub open spec fn spec_at(self, x: int, y: int) -> Tile {
        self.data@[y]@[x]
    }

    /// A fresh map of the requested size, all solid wall.
    pub fn new(width: usize, height: usize) -> (m: GameMap)
        ensures
            m.wf(),
            m.spec_height() == height,
            height > 0 ==> m.spec_width() == width,
            forall|x: int, y: int|
                0 <= y < height && 0 <= x < width ==> #[trigger] m.spec_at(x, y) == (Tile {
                    transparent: false,
                    walkable: false,
                }),
    {
        let mut grid: Vec<Vec<Tile>> = Vec::new();
        while grid.len() < height
            invariant
                grid@.len() <= height,
                forall|r: int| 0 <= r < grid@.len() ==> #[trigger] grid@[r]@.len() == width,
                forall|r: int, c: int|
                    0 <= r < grid@.len() && 0 <= c < width ==> #[trigger] grid@[r]@[c] == (Tile {
                        transparent: false,
                        walkable: false,
                    }),
            decreases height - grid@.len(),
        {
            let mut base: Vec<Tile> = Vec::new();
            while base.len() < width
                invariant
                    base@.len() <= width,
                    forall|c: int|
                        0 <= c < base@.len() ==> #[trigger] base@[c] == (Tile {
                            transparent: false,
                            walkable: false,
                        }),
                decreases width - base@.len(),
            {
                base.push(Tile::new());
            }
            grid.push(base);
        }
        GameMap { data: grid }
    }

    /// The tile at the given coordinates, which must lie on the map.
    pub fn at(&self, x: i32, y: i32) -> (t: &Tile)
        requires
            0 <= y < self.data@.len(),
            0 <= x < self.data@[y as int]@.len(),
        ensures
            *t == self.spec_at(x as int, y as int),
    {
        &self.data[y as usize][x as usize]
    }

    /// A mutable borrow of the tile at the given coordinates, which must lie
    /// on the map. Only that tile changes; the grid keeps its shape.
    pub fn at_mut(&mut self, x: i32, y: i32) -> (t: &mut Tile)
        requires
            0 <= y < old(self).data@.len(),
            0 <= x < old(self).data@[y as int]@.len(),
        ensures
            *t == old(self).spec_at(x as int, y as int),
            final(self).data@.len() == old(self).data@.len(),
            forall|r: int|
                0 <= r < old(self).data@.len() && r != y ==> final(self).data@[r] == old(
                    self,
                ).data@[r],
            final(self).data@[y as int]@ == old(self).data@[y as int]@.update(
                x as int,
                *final(t),
            ),
    {
        &mut self.data[y as usize][x as usize]
    }
}

} // verus!
