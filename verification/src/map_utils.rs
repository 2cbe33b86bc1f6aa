use vstd::prelude::*;

use crate::map::GameMap;
use crate::map::Tile;
use crate::point::Point;
use crate::point_set::contains_point;
use crate::point_set::lemma_push_unique;

verus! {

/// An axis-aligned rectangle, corners included on the low side and excluded
/// on the high side when carving rooms.
#[derive(Debug, PartialEq, Eq, Structural, Clone, Copy)]
pub struct Rect {
    pub x1: i32,
    pub y1: i32,
    pub x2: i32,
    pub y2: i32,
}

impl Rect {
    pub fn new(x: i32, y: i32, w: usize, h: usize) -> (r: Rect)
        requires
            w <= i32::MAX,
            h <= i32::MAX,
            x + w <= i32::MAX,
            y + h <= i32::MAX,
        ensures
            r == (Rect { x1: x, y1: y, x2: (x + w) as i32, y2: (y + h) as i32 }),
    {
        Rect { x1: x, x2: x + w as i32, y1: y, y2: y + h as i32 }
    }

    /// Whether this rectangle touches or overlaps another one.
    pub open spec fn spec_intersects(self, other: Rect) -> bool {
        self.x1 <= other.x2 && self.x2 >= other.x1 && self.y1 <= other.y2 && self.y2 >= other.y1
    }

    /// Returns true if this rectangle intersects with another one
    pub fn intersects(&self, other: &Rect) -> (b: bool)
        ensures
            b == self.spec_intersects(*other),
    {
        self.x1 <= other.x2 && self.x2 >= other.x1 && self.y1 <= other.y2 && self.y2 >= other.y1
    }

    /// The rectangle's central cell, rounding toward the low corner.
    pub fn center(&self) -> (c: (i32, i32))
        requires
            0 <= self.x1 + self.x2,
            self.x1 + self.x2 <= i32::MAX,
            0 <= self.y1 + self.y2,
            self.y1 + self.y2 <= i32::MAX,
        ensures
            c.0 == (self.x1 + self.x2) / 2,
            c.1 == (self.y1 + self.y2) / 2,
            self.x1 <= self.x2 ==> self.x1 <= c.0 <= self.x2,
            self.y1 <= self.y2 ==> self.y1 <= c.1 <= self.y2,
    {
        proof {
            assert(self.x1 <= self.x2 ==> self.x1 <= (self.x1 + self.x2) / 2 <= self.x2)
                by (nonlinear_arith)
                requires
                    0 <= self.x1 + self.x2,
            ;
            assert(self.y1 <= self.y2 ==> self.y1 <= (self.y1 + self.y2) / 2 <= self.y2)
                by (nonlinear_arith)
                requires
                    0 <= self.y1 + self.y2,
            ;
        }
        ((self.x1 + self.x2) / 2, (self.y1 + self.y2) / 2)
    }
}

/// The tile that carving leaves behind: open floor.
pub open spec fn open_tile() -> Tile {
    Tile { transparent: true, walkable: true }
}

/// Carves a horizontal tunnel across row `y`, spanning the two columns given
/// in either order, ends included.
pub fn make_h_tunnel(map: &mut GameMap, x1: i32, x2: i32, y: i32)
    requires
        old(map).wf(),
        0 <= y < old(map).spec_height(),
        0 <= vstd::math::min(x1 as int, x2 as int),
        vstd::math::max(x1 as int, x2 as int) < old(map).spec_width(),
    ensures
        final(map).wf(),
        final(map).spec_width() == old(map).spec_width(),
        final(map).spec_height() == old(map).spec_height(),
        forall|cx: int, cy: int|
            0 <= cx < old(map).spec_width() && 0 <= cy < old(map).spec_height()
                ==> #[trigger] final(map).spec_at(cx, cy) == if cy == y && vstd::math::min(
                x1 as int,
                x2 as int,
            ) <= cx <= vstd::math::max(x1 as int, x2 as int) {
                open_tile()
            } else {
                old(map).spec_at(cx, cy)
            },
{
    let lo = if x1 < x2 {
        x1
    } else {
        x2
    };
    let hi = if x1 < x2 {
        x2
    } else {
        x1
    };
    let mut x: i64 = lo as i64;
    while x <= hi as i64
        invariant
            lo <= x <= hi + 1,
            lo == vstd::math::min(x1 as int, x2 as int),
            hi == vstd::math::max(x1 as int, x2 as int),
            0 <= lo,
            hi < old(map).spec_width(),
            0 <= y < old(map).spec_height(),
            map.wf(),
            map.spec_width() == old(map).spec_width(),
            map.spec_height() == old(map).spec_height(),
            forall|cx: int, cy: int|
                0 <= cx < old(map).spec_width() && 0 <= cy < old(map).spec_height()
                    ==> #[trigger] map.spec_at(cx, cy) == if cy == y && lo <= cx < x {
                    open_tile()
                } else {
                    old(map).spec_at(cx, cy)
                },
        decreases hi + 1 - x,
    {
        let ghost prev = *map;
        let tile = map.at_mut(x as i32, y);
        tile.walkable = true;
        tile.transparent = true;
        proof {
            assert forall|cx: int, cy: int|
                0 <= cx < old(map).spec_width() && 0 <= cy < old(
                    map,
                ).spec_height() implies #[trigger] map.spec_at(cx, cy) == if cy == y && lo <= cx < x
                + 1 {
                open_tile()
            } else {
                old(map).spec_at(cx, cy)
            } by {
                assert(prev.spec_at(cx, cy) == if cy == y && lo <= cx < x {
                    open_tile()
                } else {
                    old(map).spec_at(cx, cy)
                });
            }
        }
        x += 1;
    }
}

/// Carves a vertical tunnel down column `x`, spanning the two rows given in
/// either order, ends included.
pub fn make_v_tunnel(map: &mut GameMap, y1: i32, y2: i32, x: i32)
    requires
        old(map).wf(),
        0 <= x < old(map).spec_width(),
        0 <= vstd::math::min(y1 as int, y2 as int),
        vstd::math::max(y1 as int, y2 as int) < old(map).spec_height(),
    ensures
        final(map).wf(),
        final(map).spec_width() == old(map).spec_width(),
        final(map).spec_height() == old(map).spec_height(),
        forall|cx: int, cy: int|
            0 <= cx < old(map).spec_width() && 0 <= cy < old(map).spec_height()
                ==> #[trigger] final(map).spec_at(cx, cy) == if cx == x && vstd::math::min(
                y1 as int,
                y2 as int,
            ) <= cy <= vstd::math::max(y1 as int, y2 as int) {
                open_tile()
            } else {
                old(map).spec_at(cx, cy)
            },
{
    let lo = if y1 < y2 {
        y1
    } else {
        y2
    };
    let hi = if y1 < y2 {
        y2
    } else {
        y1
    };
    let mut y: i64 = lo as i64;
    while y <= hi as i64
        invariant
            lo <= y <= hi + 1,
            lo == vstd::math::min(y1 as int, y2 as int),
            hi == vstd::math::max(y1 as int, y2 as int),
            0 <= lo,
            hi < old(map).spec_height(),
            0 <= x < old(map).spec_width(),
            map.wf(),
            map.spec_width() == old(map).spec_width(),
            map.spec_height() == old(map).spec_height(),
            forall|cx: int, cy: int|
                0 <= cx < old(map).spec_width() && 0 <= cy < old(map).spec_height()
                    ==> #[trigger] map.spec_at(cx, cy) == if cx == x && lo <= cy < y {
                    open_tile()
                } else {
                    old(map).spec_at(cx, cy)
                },
        decreases hi + 1 - y,
    {
        let ghost prev = *map;
        let tile = map.at_mut(x, y as i32);
        tile.walkable = true;
        tile.transparent = true;
        proof {
            assert forall|cx: int, cy: int|
                0 <= cx < old(map).spec_width() && 0 <= cy < old(
                    map,
                ).spec_height() implies #[trigger] map.spec_at(cx, cy) == if cx == x && lo <= cy < y
                + 1 {
                open_tile()
            } else {
                old(map).spec_at(cx, cy)
            } by {
                assert(prev.spec_at(cx, cy) == if cx == x && lo <= cy < y {
                    open_tile()
                } else {
                    old(map).spec_at(cx, cy)
                });
            }
        }
        y += 1;
    }
}

/// Carves the room's interior: every cell with `x1 <= x < x2` and
/// `y1 <= y < y2` becomes open floor.
pub fn make_room(map: &mut GameMap, room: &Rect)
    requires
        old(map).wf(),
        0 <= room.x1,
        room.x2 <= old(map).spec_width(),
        0 <= room.y1,
        room.y2 <= old(map).spec_height(),
    ensures
        final(map).wf(),
        final(map).spec_width() == old(map).spec_width(),
        final(map).spec_height() == old(map).spec_height(),
        forall|cx: int, cy: int|
            0 <= cx < old(map).spec_width() && 0 <= cy < old(map).spec_height()
                ==> #[trigger] final(map).spec_at(cx, cy) == if room.x1 <= cx < room.x2 && room.y1
                <= cy < room.y2 {
                open_tile()
            } else {
                old(map).spec_at(cx, cy)
            },
{
    let mut x = room.x1;
    while x < room.x2
        invariant
            room.x1 <= x,
            x <= room.x2 || x == room.x1,
            0 <= room.x1,
            room.x2 <= old(map).spec_width(),
            0 <= room.y1,
            room.y2 <= old(map).spec_height(),
            map.wf(),
            map.spec_width() == old(map).spec_width(),
            map.spec_height() == old(map).spec_height(),
            forall|cx: int, cy: int|
                0 <= cx < old(map).spec_width() && 0 <= cy < old(map).spec_height()
                    ==> #[trigger] map.spec_at(cx, cy) == if room.x1 <= cx < x && room.y1 <= cy
                    < room.y2 {
                    open_tile()
                } else {
                    old(map).spec_at(cx, cy)
                },
        decreases room.x2 - x,
    {
        let mut y = room.y1;
        while y < room.y2
            invariant
                room.y1 <= y,
                y <= room.y2 || y == room.y1,
                room.x1 <= x < room.x2,
                0 <= room.x1,
                room.x2 <= old(map).spec_width(),
                0 <= room.y1,
                room.y2 <= old(map).spec_height(),
                map.wf(),
                map.spec_width() == old(map).spec_width(),
                map.spec_height() == old(map).spec_height(),
                forall|cx: int, cy: int|
                    0 <= cx < old(map).spec_width() && 0 <= cy < old(map).spec_height()
                        ==> #[trigger] map.spec_at(cx, cy) == if (room.x1 <= cx < x && room.y1 <= cy
                        < room.y2) || (cx == x && room.y1 <= cy < y) {
                        open_tile()
                    } else {
                        old(map).spec_at(cx, cy)
                    },
            decreases room.y2 - y,
        {
            let ghost prev = *map;
            let tile = map.at_mut(x, y);
            tile.walkable = true;
            tile.transparent = true;
            proof {
                assert forall|cx: int, cy: int|
                    0 <= cx < old(map).spec_width() && 0 <= cy < old(
                        map,
                    ).spec_height() implies #[trigger] map.spec_at(cx, cy) == if (room.x1 <= cx < x
                    && room.y1 <= cy < room.y2) || (cx == x && room.y1 <= cy < y + 1) {
                    open_tile()
                } else {
                    old(map).spec_at(cx, cy)
                } by {
                    assert(prev.spec_at(cx, cy) == if (room.x1 <= cx < x && room.y1 <= cy
                        < room.y2) || (cx == x && room.y1 <= cy < y) {
                        open_tile()
                    } else {
                        old(map).spec_at(cx, cy)
                    });
                }
            }
            y += 1;
        }
        proof {
            assert forall|cx: int, cy: int|
                0 <= cx < old(map).spec_width() && 0 <= cy < old(
                    map,
                ).spec_height() implies #[trigger] map.spec_at(cx, cy) == if room.x1 <= cx < x + 1
                && room.y1 <= cy < room.y2 {
                open_tile()
            } else {
                old(map).spec_at(cx, cy)
            } by {}
        }
        x += 1;
    }
}

// /////////////////////////////////////////////////////////////////////////
// Random draws
// /////////////////////////////////////////////////////////////////////////

/// Relies on rand::random_range over a half-open `i32` range: the sample
/// lies in the range; an empty range panics, so it is kept out.
#[verifier::external_body]
fn rand_range_i32(low: i32, high: i32) -> (r: i32)
    requires
        low < high,
    ensures
        low <= r < high,
{
    rand::random_range(low..high)
}

/// Relies on rand::random_range over a half-open `usize` range: the sample
/// lies in the range; an empty range panics, so it is kept out.
#[verifier::external_body]
fn rand_range_usize(low: usize, high: usize) -> (r: usize)
    requires
        low < high,
    ensures
        low <= r < high,
{
    rand::random_range(low..high)
}

/// Relies on rand::random for bool: a coin flip, of which nothing can be
/// promised.
#[verifier::external_body]
fn rand_coin() -> bool {
    rand::random::<bool>()
}

/// True iff the candidate room crosses none of the rooms already kept.
pub fn no_intersections(rooms: &Vec<Rect>, room: &Rect) -> (b: bool)
    ensures
        b == forall|k: int| 0 <= k < rooms@.len() ==> !#[trigger] rooms@[k].spec_intersects(*room),
{
    let mut i: usize = 0;
    while i < rooms.len()
        invariant
            0 <= i <= rooms@.len(),
            forall|k: int| 0 <= k < i ==> !#[trigger] rooms@[k].spec_intersects(*room),
        decreases rooms@.len() - i,
    {
        if rooms[i].intersects(room) {
            return false;
        }
        i += 1;
    }
    true
}

/// Draws up to `max_monsters` spots inside the room, dropping repeats: the
/// positions handed back are distinct and lie within the room's corners.
pub fn random_room_positions(room: &Rect, max_monsters: usize) -> (mobs: Vec<Point>)
    requires
        max_monsters >= 1,
        room.x1 < room.x2,
        room.y1 < room.y2,
    ensures
        mobs@.no_duplicates(),
        mobs@.len() < max_monsters,
        forall|k: int|
            0 <= k < mobs@.len() ==> room.x1 <= #[trigger] mobs@[k].x < room.x2 && room.y1
                <= mobs@[k].y < room.y2,
{
    let num_monsters = rand_range_usize(0, max_monsters);
    let mut mobs: Vec<Point> = Vec::new();
    let mut n: usize = 0;
    while n < num_monsters
        invariant
            n <= num_monsters,
            num_monsters < max_monsters,
            room.x1 < room.x2,
            room.y1 < room.y2,
            mobs@.no_duplicates(),
            mobs@.len() <= n,
            forall|k: int|
                0 <= k < mobs@.len() ==> room.x1 <= #[trigger] mobs@[k].x < room.x2 && room.y1
                    <= mobs@[k].y < room.y2,
        decreases num_monsters - n,
    {
        let x = rand_range_i32(room.x1, room.x2);
        let y = rand_range_i32(room.y1, room.y2);
        let p = Point::new(x, y);
        if !contains_point(&mobs, p) {
            proof {
                lemma_push_unique(mobs@, p);
            }
            mobs.push(p);
        }
        n += 1;
    }
    mobs
}

/// Where a room may stand: wholly on the map with a one tile rim to spare.
pub open spec fn rect_on_map(rc: Rect, width: int, height: int) -> bool {
    &&& 0 <= rc.x1 < rc.x2 <= width - 2
    &&& 0 <= rc.y1 < rc.y2 <= height - 2
}

/// The column of a rectangle's central cell.
pub open spec fn center_x(rc: Rect) -> int {
    (rc.x1 + rc.x2) / 2
}

/// The row of a rectangle's central cell.
pub open spec fn center_y(rc: Rect) -> int {
    (rc.y1 + rc.y2) / 2
}

/// The whole interior of the room is open floor.
pub open spec fn room_is_open(m: GameMap, rc: Rect) -> bool {
    forall|cx: int, cy: int|
        rc.x1 <= cx < rc.x2 && rc.y1 <= cy < rc.y2 ==> #[trigger] m.spec_at(cx, cy) == open_tile()
}

/// Row `y` is open floor between the two columns, ends included.
pub open spec fn h_open(m: GameMap, xa: int, xb: int, y: int) -> bool {
    forall|c: int|
        vstd::math::min(xa, xb) <= c <= vstd::math::max(xa, xb) ==> #[trigger] m.spec_at(c, y)
            == open_tile()
}

/// Column `x` is open floor between the two rows, ends included.
pub open spec fn v_open(m: GameMap, ya: int, yb: int, x: int) -> bool {
    forall|c: int|
        vstd::math::min(ya, yb) <= c <= vstd::math::max(ya, yb) ==> #[trigger] m.spec_at(x, c)
            == open_tile()
}

/// An L of open tunnels joins the two cells: straight runs meeting at one of
/// the two possible corners.
pub open spec fn l_connected(m: GameMap, ax: int, ay: int, bx: int, by: int) -> bool {
    ||| h_open(m, ax, bx, ay) && v_open(m, ay, by, bx)
    ||| v_open(m, ay, by, ax) && h_open(m, ax, bx, by)
}

/// Carving only ever opens tiles, so whatever was already open floor — room
/// interiors and tunnel runs — stays open through later carving.
proof fn lemma_carving_keeps_open(
    m1: GameMap,
    m2: GameMap,
    rooms: Seq<Rect>,
    w: int,
    h: int,
)
    requires
        m1.spec_width() == w,
        m1.spec_height() == h,
        m2.spec_width() == w,
        m2.spec_height() == h,
        forall|cx: int, cy: int|
            0 <= cx < w && 0 <= cy < h ==> (#[trigger] m2.spec_at(cx, cy) == m1.spec_at(cx, cy)
                || m2.spec_at(cx, cy) == open_tile()),
        forall|k: int| 0 <= k < rooms.len() ==> #[trigger] rect_on_map(rooms[k], w, h),
        forall|k: int| 0 <= k < rooms.len() ==> #[trigger] room_is_open(m1, rooms[k]),
        forall|k: int|
            1 <= k < rooms.len() ==> #[trigger] l_connected(
                m1,
                center_x(rooms[k - 1]),
                center_y(rooms[k - 1]),
                center_x(rooms[k]),
                center_y(rooms[k]),
            ),
    ensures
        forall|k: int| 0 <= k < rooms.len() ==> #[trigger] room_is_open(m2, rooms[k]),
        forall|k: int|
            1 <= k < rooms.len() ==> #[trigger] l_connected(
                m2,
                center_x(rooms[k - 1]),
                center_y(rooms[k - 1]),
                center_x(rooms[k]),
                center_y(rooms[k]),
            ),
{
    assert forall|k: int| 0 <= k < rooms.len() implies #[trigger] room_is_open(m2, rooms[k]) by {
        let rc = rooms[k];
        assert(rect_on_map(rc, w, h));
        assert(room_is_open(m1, rc));
        assert forall|cx: int, cy: int|
            rc.x1 <= cx < rc.x2 && rc.y1 <= cy < rc.y2 implies #[trigger] m2.spec_at(cx, cy)
            == open_tile() by {
            assert(m1.spec_at(cx, cy) == open_tile());
        }
    }
    assert forall|k: int| 1 <= k < rooms.len() implies #[trigger] l_connected(
        m2,
        center_x(rooms[k - 1]),
        center_y(rooms[k - 1]),
        center_x(rooms[k]),
        center_y(rooms[k]),
    ) by {
        let ax = center_x(rooms[k - 1]);
        let ay = center_y(rooms[k - 1]);
        let bx = center_x(rooms[k]);
        let by = center_y(rooms[k]);
        assert(rect_on_map(rooms[k - 1], w, h));
        assert(rect_on_map(rooms[k], w, h));
        lemma_center_in_rect(rooms[k - 1]);
        lemma_center_in_rect(rooms[k]);
        assert(l_connected(m1, ax, ay, bx, by));
        if h_open(m1, ax, bx, ay) && v_open(m1, ay, by, bx) {
            lemma_runs_stay_open_h(m1, m2, ax, bx, ay, w, h);
            lemma_runs_stay_open_v(m1, m2, ay, by, bx, w, h);
        } else {
            lemma_runs_stay_open_v(m1, m2, ay, by, ax, w, h);
            lemma_runs_stay_open_h(m1, m2, ax, bx, by, w, h);
        }
    }
}

/// The center of a room that stands on the map lies inside the room.
proof fn lemma_center_in_rect(rc: Rect)
    requires
        rc.x1 < rc.x2,
        rc.y1 < rc.y2,
        0 <= rc.x1,
        0 <= rc.y1,
    ensures
        rc.x1 <= center_x(rc) < rc.x2,
        rc.y1 <= center_y(rc) < rc.y2,
{
    assert(rc.x1 <= (rc.x1 + rc.x2) / 2 < rc.x2) by (nonlinear_arith)
        requires
            0 <= rc.x1 < rc.x2,
    ;
    assert(rc.y1 <= (rc.y1 + rc.y2) / 2 < rc.y2) by (nonlinear_arith)
        requires
            0 <= rc.y1 < rc.y2,
    ;
}

/// A horizontal run that was open stays open in a map that only opened more
/// tiles.
proof fn lemma_runs_stay_open_h(m1: GameMap, m2: GameMap, xa: int, xb: int, y: int, w: int, h: int)
    requires
        m1.spec_width() == w,
        m1.spec_height() == h,
        m2.spec_width() == w,
        m2.spec_height() == h,
        forall|cx: int, cy: int|
            0 <= cx < w && 0 <= cy < h ==> (#[trigger] m2.spec_at(cx, cy) == m1.spec_at(cx, cy)
                || m2.spec_at(cx, cy) == open_tile()),
        0 <= xa < w,
        0 <= xb < w,
        0 <= y < h,
        h_open(m1, xa, xb, y),
    ensures
        h_open(m2, xa, xb, y),
{
    assert forall|c: int|
        vstd::math::min(xa, xb) <= c <= vstd::math::max(xa, xb) implies #[trigger] m2.spec_at(c, y)
        == open_tile() by {
        assert(m1.spec_at(c, y) == open_tile());
    }
}

/// One room's interior that was open stays open in a map that only opened
/// more tiles.
proof fn lemma_room_stays_open(m1: GameMap, m2: GameMap, rc: Rect, w: int, h: int)
    requires
        m1.spec_width() == w,
        m1.spec_height() == h,
        m2.spec_width() == w,
        m2.spec_height() == h,
        forall|cx: int, cy: int|
            0 <= cx < w && 0 <= cy < h ==> (#[trigger] m2.spec_at(cx, cy) == m1.spec_at(cx, cy)
                || m2.spec_at(cx, cy) == open_tile()),
        rect_on_map(rc, w, h),
        room_is_open(m1, rc),
    ensures
        room_is_open(m2, rc),
{
    assert forall|cx: int, cy: int|
        rc.x1 <= cx < rc.x2 && rc.y1 <= cy < rc.y2 implies #[trigger] m2.spec_at(cx, cy)
        == open_tile() by {
        assert(m1.spec_at(cx, cy) == open_tile());
    }
}

/// A vertical run that was open stays open in a map that only opened more
/// tiles.
proof fn lemma_runs_stay_open_v(m1: GameMap, m2: GameMap, ya: int, yb: int, x: int, w: int, h: int)
    requires
        m1.spec_width() == w,
        m1.spec_height() == h,
        m2.spec_width() == w,
        m2.spec_height() == h,
        forall|cx: int, cy: int|
            0 <= cx < w && 0 <= cy < h ==> (#[trigger] m2.spec_at(cx, cy) == m1.spec_at(cx, cy)
                || m2.spec_at(cx, cy) == open_tile()),
        0 <= ya < h,
        0 <= yb < h,
        0 <= x < w,
        v_open(m1, ya, yb, x),
    ensures
        v_open(m2, ya, yb, x),
{
    assert forall|c: int|
        vstd::math::min(ya, yb) <= c <= vstd::math::max(ya, yb) implies #[trigger] m2.spec_at(x, c)
        == open_tile() by {
        assert(m1.spec_at(x, c) == open_tile());
    }
}

/// Carves the dungeon: up to 30 candidate rooms, each kept only when it
/// crosses none of the earlier ones, each opened and joined to the one kept
/// before it by an L of tunnels whose orientation a coin flip picks. Returns
/// the player's starting position — the first room's center — and the rooms
/// kept, at least one and pairwise disjoint.
pub fn make_map(map: &mut GameMap) -> (r: ((i32, i32), Vec<Rect>))
    requires
        old(map).wf(),
        11 <= old(map).spec_width() <= 0x4000_0000,
        11 <= old(map).spec_height() <= 0x4000_0000,
    ensures
        final(map).wf(),
        final(map).spec_width() == old(map).spec_width(),
        final(map).spec_height() == old(map).spec_height(),
        r.1@.len() >= 1,
        forall|k: int|
            0 <= k < r.1@.len() ==> #[trigger] rect_on_map(
                r.1@[k],
                old(map).spec_width(),
                old(map).spec_height(),
            ),
        forall|k: int, l: int|
            0 <= k < l < r.1@.len() ==> !#[trigger] r.1@[k].spec_intersects(#[trigger] r.1@[l]),
        forall|k: int| 0 <= k < r.1@.len() ==> #[trigger] room_is_open(*final(map), r.1@[k]),
        forall|k: int|
            1 <= k < r.1@.len() ==> #[trigger] l_connected(
                *final(map),
                center_x(r.1@[k - 1]),
                center_y(r.1@[k - 1]),
                center_x(r.1@[k]),
                center_y(r.1@[k]),
            ),
        r.0.0 == center_x(r.1@[0]),
        r.0.1 == center_y(r.1@[0]),
{
    let room_min_size: usize = 6;
    let room_max_size: usize = 10;
    let max_rooms: usize = 30;

    let map_height: usize = map.data.len();
    let map_width: usize = map.data[0].len();

    let ghost w0 = old(map).spec_width();
    let ghost h0 = old(map).spec_height();

    let mut rooms: Vec<Rect> = Vec::new();
    let mut attempt: usize = 0;
    while attempt < max_rooms
        invariant
            attempt <= max_rooms,
            max_rooms == 30,
            room_min_size == 6,
            room_max_size == 10,
            map_width == w0,
            map_height == h0,
            w0 == old(map).spec_width(),
            h0 == old(map).spec_height(),
            11 <= w0 <= 0x4000_0000,
            11 <= h0 <= 0x4000_0000,
            map.wf(),
            map.spec_width() == w0,
            map.spec_height() == h0,
            attempt >= 1 ==> rooms@.len() >= 1,
            forall|k: int| 0 <= k < rooms@.len() ==> #[trigger] rect_on_map(rooms@[k], w0, h0),
            forall|k: int, l: int|
                0 <= k < l < rooms@.len() ==> !#[trigger] rooms@[k].spec_intersects(
                    #[trigger] rooms@[l],
                ),
            forall|k: int| 0 <= k < rooms@.len() ==> #[trigger] room_is_open(*map, rooms@[k]),
            forall|k: int|
                1 <= k < rooms@.len() ==> #[trigger] l_connected(
                    *map,
                    center_x(rooms@[k - 1]),
                    center_y(rooms@[k - 1]),
                    center_x(rooms@[k]),
                    center_y(rooms@[k]),
                ),
        decreases max_rooms - attempt,
    {
        let w = rand_range_usize(room_min_size, room_max_size);
        let h = rand_range_usize(room_min_size, room_max_size);
        let x = rand_range_i32(0, (map_width - w) as i32 - 1);
        let y = rand_range_i32(0, (map_height - h) as i32 - 1);

        let room = Rect::new(x, y, w, h);
        proof {
            assert(rect_on_map(room, w0, h0));
        }
        if no_intersections(&rooms, &room) {
            let ghost m0 = *map;
            make_room(map, &room);
            proof {
                assert forall|cx: int, cy: int|
                    0 <= cx < w0 && 0 <= cy < h0 implies (#[trigger] map.spec_at(cx, cy)
                    == m0.spec_at(cx, cy) || map.spec_at(cx, cy) == open_tile()) by {}
                lemma_carving_keeps_open(m0, *map, rooms@, w0, h0);
                assert(room_is_open(*map, room));
            }

            // Join this room with the previous one
            if rooms.len() > 0 {
                let old_room = &rooms[rooms.len() - 1];
                proof {
                    assert(rect_on_map(rooms@[rooms@.len() - 1], w0, h0));
                    lemma_center_in_rect(rooms@[rooms@.len() - 1]);
                    lemma_center_in_rect(room);
                }
                let (new_x, new_y) = room.center();
                let (old_x, old_y) = old_room.center();
                if rand_coin() {
                    // Horizontal first
                    let ghost m1 = *map;
                    make_h_tunnel(map, old_x, new_x, old_y);
                    proof {
                        assert forall|cx: int, cy: int|
                            0 <= cx < w0 && 0 <= cy < h0 implies (#[trigger] map.spec_at(cx, cy)
                            == m1.spec_at(cx, cy) || map.spec_at(cx, cy) == open_tile()) by {}
                        lemma_carving_keeps_open(m1, *map, rooms@, w0, h0);
                        lemma_room_stays_open(m1, *map, room, w0, h0);
                        assert(h_open(*map, old_x as int, new_x as int, old_y as int));
                    }
                    let ghost m2 = *map;
                    make_v_tunnel(map, old_y, new_y, new_x);
                    proof {
                        assert forall|cx: int, cy: int|
                            0 <= cx < w0 && 0 <= cy < h0 implies (#[trigger] map.spec_at(cx, cy)
                            == m2.spec_at(cx, cy) || map.spec_at(cx, cy) == open_tile()) by {}
                        lemma_carving_keeps_open(m2, *map, rooms@, w0, h0);
                        lemma_room_stays_open(m2, *map, room, w0, h0);
                        lemma_runs_stay_open_h(
                            m2,
                            *map,
                            old_x as int,
                            new_x as int,
                            old_y as int,
                            w0,
                            h0,
                        );
                        assert(v_open(*map, old_y as int, new_y as int, new_x as int));
                        assert(l_connected(
                            *map,
                            old_x as int,
                            old_y as int,
                            new_x as int,
                            new_y as int,
                        ));
                    }
                } else {
                    // Vertical first
                    let ghost m1 = *map;
                    make_v_tunnel(map, old_y, new_y, old_x);
                    proof {
                        assert forall|cx: int, cy: int|
                            0 <= cx < w0 && 0 <= cy < h0 implies (#[trigger] map.spec_at(cx, cy)
                            == m1.spec_at(cx, cy) || map.spec_at(cx, cy) == open_tile()) by {}
                        lemma_carving_keeps_open(m1, *map, rooms@, w0, h0);
                        lemma_room_stays_open(m1, *map, room, w0, h0);
                        assert(v_open(*map, old_y as int, new_y as int, old_x as int));
                    }
                    let ghost m2 = *map;
                    make_h_tunnel(map, old_x, new_x, new_y);
                    proof {
                        assert forall|cx: int, cy: int|
                            0 <= cx < w0 && 0 <= cy < h0 implies (#[trigger] map.spec_at(cx, cy)
                            == m2.spec_at(cx, cy) || map.spec_at(cx, cy) == open_tile()) by {}
                        lemma_carving_keeps_open(m2, *map, rooms@, w0, h0);
                        lemma_room_stays_open(m2, *map, room, w0, h0);
                        lemma_runs_stay_open_v(
                            m2,
                            *map,
                            old_y as int,
                            new_y as int,
                            old_x as int,
                            w0,
                            h0,
                        );
                        assert(h_open(*map, old_x as int, new_x as int, new_y as int));
                        assert(l_connected(
                            *map,
                            old_x as int,
                            old_y as int,
                            new_x as int,
                            new_y as int,
                        ));
                    }
                }
                proof {
                    assert(old_x == center_x(rooms@[rooms@.len() - 1]));
                    assert(old_y == center_y(rooms@[rooms@.len() - 1]));
                    assert(new_x == center_x(room));
                    assert(new_y == center_y(room));
                }
            }
            rooms.push(room);
        }
        attempt += 1;
    }

    proof {
        assert(rect_on_map(rooms@[0], w0, h0));
        lemma_center_in_rect(rooms@[0]);
    }
    let start = rooms[0].center();
    (start, rooms)
}

} // verus!
