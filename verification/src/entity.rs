use vstd::prelude::*;

verus! {

/// The palette of terminal colors an entity can be drawn with.
#[derive(Hash, Eq, PartialEq, Structural, Clone, Copy, Debug)]
pub enum Color {
    Default,
    Black,
    Red,
    Green,
    Yellow,
    Blue,
    Magenta,
    Cyan,
    White,
}

impl Color {
    /// The terminal color code this color stands for: the terminal's own
    /// default is -1, the named colors count up from black at 0.
    pub open spec fn spec_code(self) -> i16 {
        match self {
            Color::Default => -1i16,
            Color::Black => 0i16,
            Color::Red => 1i16,
            Color::Green => 2i16,
            Color::Yellow => 3i16,
            Color::Blue => 4i16,
            Color::Magenta => 5i16,
            Color::Cyan => 6i16,
            Color::White => 7i16,
        }
    }

    pub fn code(self) -> (c: i16)
        ensures
            c == self.spec_code(),
    {
        match self {
            Color::Default => -1,
            Color::Black => 0,
            Color::Red => 1,
            Color::Green => 2,
            Color::Yellow => 3,
            Color::Blue => 4,
            Color::Magenta => 5,
            Color::Cyan => 6,
            Color::White => 7,
        }
    }
}

/// A thing that stands somewhere on the map and is drawn as a glyph.
pub struct Entity {
    pub x: i32,
    pub y: i32,
    pub glyph: char,
    pub fg: Color,
    pub bg: Color,
    pub blocks: bool,
    pub name: String,
}

impl Entity {
    /// Moves the entity by the deltas given.
    pub fn mov(&mut self, dx: i32, dy: i32)
        requires
            i32::MIN <= old(self).x + dx <= i32::MAX,
            i32::MIN <= old(self).y + dy <= i32::MAX,
        ensures
            final(self).x == old(self).x + dx,
            final(self).y == old(self).y + dy,
            final(self).glyph == old(self).glyph,
            final(self).fg == old(self).fg,
            final(self).bg == old(self).bg,
            final(self).blocks == old(self).blocks,
            final(self).name == old(self).name,
    {
        self.x += dx;
        self.y += dy;
    }
}

/// The entities standing at the given location, kept in their original
/// order.
pub open spec fn entities_at(entities: Seq<Entity>, x: i32, y: i32) -> Seq<Entity>
    decreases entities.len(),
{
    if entities.len() == 0 {
        Seq::empty()
    } else {
        let rest = entities_at(entities.drop_first(), x, y);
        if entities[0].x == x && entities[0].y == y {
            seq![entities[0]] + rest
        } else {
            rest
        }
    }
}

/// All the entities that stand at `(x, y)`, in their original order.
pub fn get_blocking_entities_at(entities: &Vec<Entity>, x: i32, y: i32) -> (r: Vec<&Entity>)
    ensures
        r@.map_values(|e: &Entity| *e) == entities_at(entities@, x, y),
{
    let mut r: Vec<&Entity> = Vec::new();
    proof {
        assert(entities@.skip(0) =~= entities@);
        assert(r@.map_values(|e: &Entity| *e) =~= Seq::<Entity>::empty());
        assert(Seq::<Entity>::empty() + entities_at(entities@, x, y) =~= entities_at(
            entities@,
            x,
            y,
        ));
    }
    let mut i: usize = 0;
    while i < entities.len()
        invariant
            0 <= i <= entities@.len(),
            entities_at(entities@, x, y) == r@.map_values(|e: &Entity| *e) + entities_at(
                entities@.skip(i as int),
                x,
                y,
            ),
        decreases entities@.len() - i,
    {
        let ghost pre = r@.map_values(|e: &Entity| *e);
        let e = &entities[i];
        if e.x == x && e.y == y {
            r.push(e);
        }
        proof {
            let rest = entities@.skip(i as int);
            assert(rest.drop_first() =~= entities@.skip(i as int + 1));
            assert(rest[0] == entities@[i as int]);
            if e.x == x && e.y == y {
                assert(r@.map_values(|q: &Entity| *q) =~= pre.push(entities@[i as int]));
                assert(pre.push(entities@[i as int]) + entities_at(
                    entities@.skip(i as int + 1),
                    x,
                    y,
                ) =~= pre + entities_at(rest, x, y));
            }
        }
        i += 1;
    }
    proof {
        assert(entities@.skip(entities@.len() as int) =~= Seq::<Entity>::empty());
        assert(r@.map_values(|e: &Entity| *e) + Seq::<Entity>::empty() =~= r@.map_values(
            |e: &Entity| *e,
        ));
    }
    r
}

} // verus!
