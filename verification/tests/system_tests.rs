use rlr::component::MoveDelta;
use rlr::component::Position;
use rlr::map::GameMap;
use rlr::map_utils::make_room;
use rlr::map_utils::Rect;
use rlr::point_set::PointSet;
use rlr::point::Point;
use rlr::system::InputSystem;
use rlr::system::MovementSystem;
use rlr::system::UpdatePos;

#[test]
fn update_pos_applies_and_clears_delta() {
    let mut pos = Position { x: 3, y: 4 };
    let mut delta = MoveDelta { dx: -1, dy: 2 };
    UpdatePos::run_one(&mut pos, &mut delta);
    assert_eq!(pos, Position { x: 2, y: 6 });
    assert_eq!(delta, MoveDelta { dx: 0, dy: 0 });
}

#[test]
fn input_system_fans_movement_out_to_puppets() {
    let keys = vec!['h', 'x', 'j'];
    let puppets = vec![10usize, 20usize];
    let intents = InputSystem::run(&keys, &puppets);
    assert_eq!(
        intents,
        vec![(10, (-1, 0)), (20, (-1, 0)), (10, (0, 1)), (20, (0, 1))]
    );
}

#[test]
fn input_system_ignores_quit_and_unknown_keys() {
    let keys = vec!['q', 'z'];
    let puppets = vec![1usize];
    let intents = InputSystem::run(&keys, &puppets);
    assert_eq!(intents.len(), 0);
}

#[test]
fn movement_respects_walls_and_blockers() {
    let mut map = GameMap::new(10, 10);
    make_room(&mut map, &Rect::new(1, 1, 5, 5));
    let blockers = vec![Position { x: 3, y: 2 }];
    // open floor, nobody there
    assert!(MovementSystem::can_move(&map, &blockers, 2, 2));
    // open floor, blocked by an entity
    assert!(!MovementSystem::can_move(&map, &blockers, 3, 2));
    // solid wall
    assert!(!MovementSystem::can_move(&map, &blockers, 8, 8));
}

#[test]
fn try_move_steps_only_when_allowed() {
    let mut map = GameMap::new(10, 10);
    make_room(&mut map, &Rect::new(1, 1, 5, 5));
    let blockers = vec![Position { x: 3, y: 2 }];
    let mut pos = Position { x: 2, y: 2 };
    assert!(MovementSystem::try_move(&map, &blockers, &mut pos, 0, 1));
    assert_eq!(pos, Position { x: 2, y: 3 });
    assert!(!MovementSystem::try_move(&map, &blockers, &mut pos, 1, -1));
    assert_eq!(pos, Position { x: 2, y: 3 });
}

#[test]
fn point_set_deduplicates() {
    let mut s = PointSet::new();
    s.insert(Point::new(1, 2));
    s.insert(Point::new(3, 4));
    s.insert(Point::new(1, 2));
    assert_eq!(s.len(), 2);
    assert!(s.contains(Point::new(1, 2)));
    assert!(s.contains(Point::new(3, 4)));
    assert!(!s.contains(Point::new(2, 1)));
}

#[test]
fn point_offset_translates() {
    let p = Point::new(1, 1).offset(3, 25);
    assert_eq!(p, Point::new(4, 26));
    assert_eq!(p.x(), 4);
    assert_eq!(p.y(), 26);
}
