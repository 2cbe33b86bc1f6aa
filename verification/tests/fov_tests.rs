use rlr::fov::ppfov;
use rlr::fov::BlockerSet;
use rlr::fov::ClearSet;
use rlr::fov::RefBlockerSet;
use rlr::fov::RefClearSet;
use rlr::fov::SightLine;
use rlr::pcgen::PCGen;
use rlr::point::Point;

/// An oracle under which nothing at all blocks vision.
fn all_clear() -> BlockerSet {
    BlockerSet(Vec::new())
}

/// The start location should always be in the output, even with a range
/// of 0.
#[test]
fn ppfov_start_always_in_output() {
    for &(x, y) in [(0, 0), (5, -7), (-1000000, 1000000), (i32::MAX, i32::MIN)].iter() {
        let start = Point::new(x, y);
        let output = ppfov(&all_clear(), 0, start);
        assert!(output.contains(start));
    }
}

/// With range 0 the result is exactly the start cell.
#[test]
fn range_zero_sees_only_start() {
    let start = Point::new(0, 0);
    let output = ppfov(&all_clear(), 0, start);
    assert_eq!(output.len(), 1);
    assert!(output.contains(start));
    assert!(!output.contains(Point::new(1, 0)));
}

/// You should always be able to see through a diagonal gap: with everything
/// blocked except the row and column of the start, all four diagonal
/// neighbors stay visible.
#[test]
fn diagonal_gaps_allow_sight() {
    for &(x, y) in [(0i32, 0i32), (17, -4), (-3, 9)].iter() {
        let mut clear: Vec<Point> = Vec::new();
        for d in -11..12i32 {
            clear.push(Point::new(x + d, y));
            clear.push(Point::new(x, y + d));
        }
        let vision = ClearSet(clear);
        let output = ppfov(&vision, 10, Point::new(x, y));
        assert!(output.contains(Point::new(x + 1, y + 1)));
        assert!(output.contains(Point::new(x + 1, y - 1)));
        assert!(output.contains(Point::new(x - 1, y + 1)));
        assert!(output.contains(Point::new(x - 1, y - 1)));
    }
}

/// Perfectly square rooms should always produce the correct number of seen
/// cells: blocking everything beyond Chebyshev distance z with range z + 1
/// shows the (2(z+1)+1)^2 cells of the room and its walls.
#[test]
fn square_room_count_correct() {
    let start = Point::new(0, 0);
    for z in 0..7i32 {
        let mut clear: Vec<Point> = Vec::new();
        for cx in -z..z + 1 {
            for cy in -z..z + 1 {
                clear.push(Point::new(cx, cy));
            }
        }
        let vision = ClearSet(clear);
        let output = ppfov(&vision, (z + 1) as u32, start);
        let expected = (2 * (z + 1) + 1) * (2 * (z + 1) + 1);
        assert_eq!(output.len(), expected as usize);
    }
}

/// Given a pillar at (x,y), this computes the cells around that location
/// paired up with the opposite side of the pillar.
fn pillar_pairs(x: i32, y: i32) -> [(Point, Point); 8] {
    [
        (Point::new(x - 1, y - 1), Point::new(x + 1, y + 1)),
        (Point::new(x - 1, y), Point::new(x + 1, y)),
        (Point::new(x - 1, y + 1), Point::new(x + 1, y - 1)),
        (Point::new(x, y - 1), Point::new(x, y + 1)),
        (Point::new(x, y + 1), Point::new(x, y - 1)),
        (Point::new(x + 1, y - 1), Point::new(x - 1, y + 1)),
        (Point::new(x + 1, y), Point::new(x - 1, y)),
        (Point::new(x + 1, y + 1), Point::new(x - 1, y - 1)),
    ]
}

/// You should never be able to see to the far side of a 1x1 pillar.
#[test]
fn can_never_see_around_pillar() {
    for &(x, y) in [(0i32, 0i32), (5, 7), (-3, 2), (100, -50)].iter() {
        let pillar = vec![Point::new(x, y)];
        let vision = RefBlockerSet(&pillar);
        for &(start, inverse) in pillar_pairs(x, y).iter() {
            let output = ppfov(&vision, 3, start);
            assert!(!output.contains(inverse));
        }
    }
}

/// Builds straight corridors of the given length from `start`, one for each
/// direction and orientation, each paired with its far end.
fn kuo_clear(start: Point, length: i32) -> Vec<(Vec<Point>, Point)> {
    let mut output = Vec::new();
    for dx in -1..2i32 {
        for dy in -1..2i32 {
            for &is_vert in [false, true].iter() {
                let x = start.x();
                let y = start.y();
                let end = if is_vert {
                    Point::new(x + (dx * 2), y + (dy * 2) + (length + 1) * dy)
                } else {
                    Point::new(x + (dx * 2) + (length + 1) * dx, y + (dy * 2))
                };
                let mut spaces = Vec::new();
                spaces.push(start);
                if is_vert {
                    spaces.push(Point::new(x, y + dy));
                } else {
                    spaces.push(Point::new(x + dx, y));
                }
                if is_vert {
                    spaces.push(Point::new(x, y + (dy * 2)));
                } else {
                    spaces.push(Point::new(x + (dx * 2), y));
                }
                for len in 0..length {
                    if is_vert {
                        spaces.push(Point::new(x + dx, y + (dy * 2) + (len * dy)));
                    } else {
                        spaces.push(Point::new(x + (dx * 2) + (len * dx), y + dy));
                    }
                }
                if is_vert {
                    spaces.push(Point::new(x + (dx * 2), y + (dy * 2) + (length - 1) * dy));
                } else {
                    spaces.push(Point::new(x + (dx * 2) + (length - 1) * dx, y + (dy * 2)));
                }
                if is_vert {
                    spaces.push(Point::new(x + (dx * 2), y + (dy * 2) + (length) * dy));
                } else {
                    spaces.push(Point::new(x + (dx * 2) + (length) * dx, y + (dy * 2)));
                }
                spaces.push(end);
                output.push((spaces, end));
            }
        }
    }
    output
}

/// You should always be able to see to the end of a corridor.
#[test]
fn can_always_see_kuo_corridor() {
    for &(s, i) in [(1u64, 1u64), (42, 54)].iter() {
        let mut gen = PCGen::new(s, i);
        let locx = gen.in_range(-1000000, 1000000);
        let locy = gen.in_range(-1000000, 1000000);
        let cor_length = gen.in_range(2, 100);
        let start = Point::new(locx, locy);
        for (spaces, end) in kuo_clear(start, cor_length) {
            let vision = RefClearSet(&spaces);
            let output = ppfov(&vision, (cor_length + 11) as u32, start);
            assert!(output.contains(end));
        }
    }
}

/// Two calls with identical inputs produce identical sets.
#[test]
fn ppfov_is_deterministic() {
    let blockers = vec![Point::new(2, 1), Point::new(-1, 3), Point::new(0, 4)];
    let vision = BlockerSet(blockers);
    let start = Point::new(0, 0);
    let a = ppfov(&vision, 8, start);
    let b = ppfov(&vision, 8, start);
    assert_eq!(a.len(), b.len());
    for p in a.points.iter() {
        assert!(b.contains(*p));
    }
    for p in b.points.iter() {
        assert!(a.contains(*p));
    }
}

/// The cross-product comparison takes its exact integer value.
#[test]
fn relative_slope_exact_value() {
    let line = SightLine::new(0, 1, 5, 0);
    // (0 - 1) * (5 - 3) - (5 - 0) * (0 - 2) = -2 + 10 = 8
    assert_eq!(line.relative_slope(Point::new(3, 2)), 8);
    assert!(line.is_below(Point::new(3, 2)));
    assert!(!line.is_above(Point::new(3, 2)));
    assert!(line.is_collinear(Point::new(5, 0)));
}

/// Nothing beyond the hard range cutoff is reported, and with nothing
/// blocked the whole square inside it is.
#[test]
fn result_stays_within_range() {
    let output = ppfov(&all_clear(), 2, Point::new(10, 20));
    for p in output.points.iter() {
        assert!((p.x() - 10).abs() <= 2 && (p.y() - 20).abs() <= 2);
    }
    assert_eq!(output.len(), 25);
}

/// A wall that is itself visible is included in the output; the cell hidden
/// behind it is not.
#[test]
fn visible_wall_is_reported() {
    let wall = vec![Point::new(1, 0)];
    let vision = RefBlockerSet(&wall);
    let output = ppfov(&vision, 3, Point::new(0, 0));
    assert!(output.contains(Point::new(1, 0)));
    assert!(!output.contains(Point::new(3, 0)));
}
