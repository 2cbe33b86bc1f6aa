use rlr::entity::get_blocking_entities_at;
use rlr::entity::Color;
use rlr::entity::Entity;
use rlr::event::Event;
use rlr::input_handlers::handle_keys;
use rlr::map::Tile;
use rlr::render_functions::tile_glyph;
use rlr::render_functions::Renderer;

fn mk(name: &str, x: i32, y: i32) -> Entity {
    Entity {
        x,
        y,
        glyph: '@',
        fg: Color::Red,
        bg: Color::Default,
        blocks: true,
        name: String::from(name),
    }
}

#[test]
fn mov_translates_exactly() {
    let mut e = mk("Player", 4, -2);
    e.mov(3, 25);
    assert_eq!(e.x, 7);
    assert_eq!(e.y, 23);
    assert_eq!(e.name, "Player");
}

#[test]
fn blocking_entities_filter_by_position_in_order() {
    let entities = vec![mk("a", 1, 1), mk("b", 2, 2), mk("c", 1, 1), mk("d", 0, 1)];
    let found = get_blocking_entities_at(&entities, 1, 1);
    assert_eq!(found.len(), 2);
    assert_eq!(found[0].name, "a");
    assert_eq!(found[1].name, "c");
    let none = get_blocking_entities_at(&entities, 9, 9);
    assert_eq!(none.len(), 0);
}

#[test]
fn color_codes_match_the_terminal_palette() {
    assert_eq!(Color::Default.code(), -1);
    assert_eq!(Color::Black.code(), 0);
    assert_eq!(Color::Red.code(), 1);
    assert_eq!(Color::Green.code(), 2);
    assert_eq!(Color::Yellow.code(), 3);
    assert_eq!(Color::Blue.code(), 4);
    assert_eq!(Color::Magenta.code(), 5);
    assert_eq!(Color::Cyan.code(), 6);
    assert_eq!(Color::White.code(), 7);
}

#[test]
fn handle_keys_maps_every_key() {
    assert_eq!(handle_keys('h'), Some(Event::Movement((-1, 0))));
    assert_eq!(handle_keys('j'), Some(Event::Movement((0, 1))));
    assert_eq!(handle_keys('k'), Some(Event::Movement((0, -1))));
    assert_eq!(handle_keys('l'), Some(Event::Movement((1, 0))));
    assert_eq!(handle_keys('q'), Some(Event::Quit));
    assert_eq!(handle_keys('x'), None);
    assert_eq!(handle_keys(' '), None);
}

#[test]
fn tile_glyphs() {
    assert_eq!(tile_glyph(Tile { transparent: false, walkable: false }), '#');
    assert_eq!(tile_glyph(Tile { transparent: true, walkable: false }), '.');
    assert_eq!(tile_glyph(Tile { transparent: true, walkable: true }), '.');
}

#[test]
fn renderer_hands_out_pair_ids_in_order() {
    let mut r = Renderer::new();
    assert_eq!(r.get_pair(Color::Red, Color::Default), (1, true));
    assert_eq!(r.get_pair(Color::Blue, Color::Default), (2, true));
    assert_eq!(r.get_pair(Color::Red, Color::Default), (1, false));
    assert_eq!(r.get_pair(Color::Blue, Color::Default), (2, false));
    assert_eq!(r.get_pair(Color::Red, Color::Black), (3, true));
}
