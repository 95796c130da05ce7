//! Tests for the 81-square occupancy set and its directional shifts.

use quorigen::squareset9x9::SquareSet;
use quorigen::types::Square9x9;

fn sq(name: &str) -> Square9x9 {
    Square9x9::from_algebraic(name).unwrap()
}

fn set_of(names: &[&str]) -> SquareSet {
    let mut set = SquareSet::new();
    for name in names {
        set = set.add(sq(name));
    }
    set
}

#[test]
fn squareset_add_remove() {
    let a1 = sq("a1");
    let mut set = SquareSet::new();
    assert!(!set.contains(a1));
    set = set.add(a1);
    assert!(set.contains(a1));
    set = set.remove(a1);
    assert!(!set.contains(a1));
}

#[test]
fn squareset_north_one() {
    let corners = set_of(&["a1", "i1", "a9", "i9"]);

    let north_one = corners.north_one();

    // no "a10" or "i10", these would be off the board.
    let expected = set_of(&["a2", "i2"]);

    assert_eq!(
        north_one,
        expected,
        "expected \n{} got \n{}",
        expected.to_grid_string(),
        north_one.to_grid_string()
    );
}

#[test]
fn squareset_south_one() {
    let corners = set_of(&["a1", "i1", "a9", "i9"]);

    let south_one = corners.south_one();

    // no "a0" or "i0", these would be off the board.
    let expected = set_of(&["a8", "i8"]);

    assert_eq!(
        south_one,
        expected,
        "expected \n{} got \n{}",
        expected.to_grid_string(),
        south_one.to_grid_string()
    );
}

#[test]
fn squareset_west_one() {
    let corners = set_of(&["a1", "i1", "a9", "i9"]);

    let west_one = corners.west_one();

    let expected = set_of(&["h1", "h9"]);

    assert_eq!(
        west_one,
        expected,
        "expected \n{} got \n{}",
        expected.to_grid_string(),
        west_one.to_grid_string()
    );
}

#[test]
fn squareset_east_one() {
    let corners = set_of(&["a1", "i1", "a9", "i9"]);

    let east_one = corners.east_one();

    // no "j1" or "j9", these would be off the board.
    let expected = set_of(&["b1", "b9"]);

    assert_eq!(
        east_one,
        expected,
        "expected \n{} got \n{}",
        expected.to_grid_string(),
        east_one.to_grid_string()
    );
}
