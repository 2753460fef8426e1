use rsheet::coordinate::Coordinate;
use rsheet::direction::{CardinalDirection, Direction};

#[test]
fn it_works() {
    let result = 2 + 2;
    assert_eq!(result, 4);
}

#[test]
fn add_assign_test() {
    let mut a = Coordinate::new(1, 2);
    a += Direction { x: 1, y: 0 };
    assert_eq!(a, Coordinate::new(2, 2));
}

#[test]
fn test_cardinal_direction_conversion() {
    // Test North
    let north_dir = Direction::from(CardinalDirection::North);
    assert_eq!(north_dir.x, 0);
    assert_eq!(north_dir.y, 1);

    // Test East
    let east_dir = Direction::from(CardinalDirection::East);
    assert_eq!(east_dir.x, 1);
    assert_eq!(east_dir.y, 0);

    // Test South
    let south_dir = Direction::from(CardinalDirection::South);
    assert_eq!(south_dir.x, 0);
    assert_eq!(south_dir.y, -1);

    // Test West
    let west_dir = Direction::from(CardinalDirection::West);
    assert_eq!(west_dir.x, -1);
    assert_eq!(west_dir.y, 0);
}

#[test]
fn test_direction_addition() {
    let mut pos = Coordinate::new(5, 5);

    // Move east
    pos += Direction::from(CardinalDirection::East);
    assert_eq!(pos, Coordinate::new(6, 5));

    // Move north
    pos += Direction::from(CardinalDirection::North);
    assert_eq!(pos, Coordinate::new(6, 6));

    // Move west
    pos += Direction::from(CardinalDirection::West);
    assert_eq!(pos, Coordinate::new(5, 6));

    // Move south
    pos += Direction::from(CardinalDirection::South);
    assert_eq!(pos, Coordinate::new(5, 5));
}

#[test]
fn within_test() {
    let v1 = Coordinate::new(0, 0);
    let v2 = Coordinate::new(4, 4);
    let a = Coordinate::new(2, 2);
    assert!(a.is_within(&v1, &v2));
}

#[test]
fn within_holds_for_corners_in_any_order() {
    let point = Coordinate::new(3, 3);
    assert!(point.is_within(&Coordinate::new(1, 1), &Coordinate::new(5, 5)));
    assert!(point.is_within(&Coordinate::new(5, 1), &Coordinate::new(1, 5)));
    assert!(point.is_within(&Coordinate::new(3, 3), &Coordinate::new(3, 3)));
    assert!(!Coordinate::new(6, 6).is_within(&Coordinate::new(1, 1), &Coordinate::new(5, 5)));
    assert!(!Coordinate::new(0, 3).is_within(&Coordinate::new(1, 1), &Coordinate::new(5, 5)));
}

#[test]
fn coordinates_add_up() {
    assert_eq!(Coordinate::new(1, 2) + Coordinate::new(3, 4), Coordinate::new(4, 6));
    assert_eq!(Coordinate::new(5, 5) + Direction { x: 2, y: -1 }, Coordinate::new(7, 4));
    assert_eq!(Coordinate::default(), Coordinate::new(0, 0));
    let from_dir = Coordinate::from(Direction { x: 3, y: 4 });
    assert_eq!(from_dir.x, 3);
    assert_eq!(from_dir.y, 4);
}

#[test]
fn direction_scales() {
    let scaled = Direction { x: 2, y: 3 } * 4;
    assert_eq!(scaled.x, 8);
    assert_eq!(scaled.y, 12);
}
