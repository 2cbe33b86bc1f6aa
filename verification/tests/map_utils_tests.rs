use rlr::map::GameMap;
use rlr::map_utils::make_h_tunnel;
use rlr::map_utils::make_map;
use rlr::map_utils::make_room;
use rlr::map_utils::make_v_tunnel;
use rlr::map_utils::random_room_positions;
use rlr::map_utils::Rect;

#[test]
fn rect_new_exact_corners() {
    let r = Rect::new(2, 3, 4, 5);
    assert_eq!(r.x1, 2);
    assert_eq!(r.y1, 3);
    assert_eq!(r.x2, 6);
    assert_eq!(r.y2, 8);
}

#[test]
fn rect_intersection_cases() {
    let a = Rect::new(0, 0, 4, 4);
    let b = Rect::new(2, 2, 4, 4);
    let c = Rect::new(10, 10, 2, 2);
    assert!(a.intersects(&b));
    assert!(b.intersects(&a));
    assert!(!a.intersects(&c));
    assert!(!c.intersects(&a));
}

#[test]
fn rect_center_exact() {
    let r = Rect::new(2, 4, 4, 6);
    assert_eq!(r.center(), (4, 7));
}

#[test]
fn h_tunnel_opens_exactly_its_row() {
    let mut map = GameMap::new(12, 12);
    make_h_tunnel(&mut map, 8, 3, 5);
    for x in 0..12i32 {
        let open = 3 <= x && x <= 8;
        assert_eq!(map.at(x, 5).walkable, open);
        assert_eq!(map.at(x, 5).transparent, open);
        assert!(!map.at(x, 6).walkable);
        assert!(!map.at(x, 4).walkable);
    }
}

#[test]
fn v_tunnel_opens_exactly_its_column() {
    let mut map = GameMap::new(12, 12);
    make_v_tunnel(&mut map, 2, 9, 4);
    for y in 0..12i32 {
        let open = 2 <= y && y <= 9;
        assert_eq!(map.at(4, y).walkable, open);
        assert_eq!(map.at(4, y).transparent, open);
        assert!(!map.at(3, y).walkable);
        assert!(!map.at(5, y).walkable);
    }
}

#[test]
fn room_opens_exactly_its_interior() {
    let mut map = GameMap::new(10, 10);
    let room = Rect::new(2, 3, 4, 3);
    make_room(&mut map, &room);
    for x in 0..10i32 {
        for y in 0..10i32 {
            let open = 2 <= x && x < 6 && 3 <= y && y < 6;
            assert_eq!(map.at(x, y).walkable, open);
            assert_eq!(map.at(x, y).transparent, open);
        }
    }
}

#[test]
fn make_map_produces_disjoint_rooms_on_the_map() {
    let mut map = GameMap::new(32, 32);
    let (start, rooms) = make_map(&mut map);
    assert!(rooms.len() >= 1);
    for r in rooms.iter() {
        assert!(0 <= r.x1 && r.x1 < r.x2 && r.x2 <= 30);
        assert!(0 <= r.y1 && r.y1 < r.y2 && r.y2 <= 30);
        // every room interior is carved open
        for x in r.x1..r.x2 {
            for y in r.y1..r.y2 {
                assert!(map.at(x, y).walkable);
                assert!(map.at(x, y).transparent);
            }
        }
    }
    for i in 0..rooms.len() {
        for j in 0..rooms.len() {
            if i != j {
                assert!(!rooms[i].intersects(&rooms[j]));
            }
        }
    }
    assert_eq!(start, rooms[0].center());
    // consecutive rooms are joined by an L of open tunnels, one way or the
    // other around
    for k in 1..rooms.len() {
        let (ax, ay) = rooms[k - 1].center();
        let (bx, by) = rooms[k].center();
        let h_open = |y: i32| (ax.min(bx)..=ax.max(bx)).all(|c| map.at(c, y).walkable);
        let v_open = |x: i32| (ay.min(by)..=ay.max(by)).all(|c| map.at(x, c).walkable);
        assert!((h_open(ay) && v_open(bx)) || (v_open(ax) && h_open(by)));
    }
}

#[test]
fn random_positions_stay_in_the_room() {
    let room = Rect::new(5, 5, 6, 6);
    for _ in 0..20 {
        let mobs = random_room_positions(&room, 4);
        assert!(mobs.len() < 4);
        for p in mobs.iter() {
            assert!(room.x1 <= p.x() && p.x() < room.x2);
            assert!(room.y1 <= p.y() && p.y() < room.y2);
        }
        for i in 0..mobs.len() {
            for j in 0..mobs.len() {
                if i != j {
                    assert_ne!(mobs[i], mobs[j]);
                }
            }
        }
    }
}
