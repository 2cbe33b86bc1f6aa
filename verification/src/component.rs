use vstd::prelude::*;

use crate::entity::Color;

verus! {

/// Where an entity stands on the map.
#[derive(Debug, PartialEq, Eq, Structural, Clone, Copy)]
pub struct Position {
    pub x: i32,
    pub y: i32,
}

/// A pending movement, spent when the position is updated.
#[derive(Debug, PartialEq, Eq, Structural, Clone, Copy)]
pub struct MoveDelta {
    pub dx: i32,
    pub dy: i32,
}

/// How an entity is drawn and named.
#[derive(Debug)]
pub struct BaseEntity {
    pub glyph: char,
    pub fg: Color,
    pub bg: Color,
    pub blocks: bool,
    pub name: String,
}

/// Marks the entity that player input steers.
#[derive(Debug, Default)]
pub struct Puppeted;

/// Marks an entity that others cannot walk through.
#[derive(Debug, Default)]
pub struct Blocking;

} // verus!
