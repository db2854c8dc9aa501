use lattice_grid::{point2, rect, Grid, Point2D, Rect, UnknownUnit};

#[test]
fn grid_test_get_mut() {
    let mut grid: Grid<char, UnknownUnit> = Grid::new(rect(0, 0, 1, 1), || 'a');
    let value = grid.get_mut(point2(0, 0)).unwrap();

    assert_eq!(&'a', value);
    *value = 'b';
    assert_eq!(&'b', value);
}

#[test]
fn grid_test_get_set() {
    let mut grid: Grid<char, UnknownUnit> = Grid::new(rect(0, 0, 5, 5), || 'a');

    assert_eq!(Some(&'a'), grid.get(point2(2, 3)));
    assert_eq!(Some(&'a'), grid.get(point2(3, 3)));
    assert_eq!(Some(&'a'), grid.get(point2(3, 4)));

    grid.set(point2(2, 3), 'b');
    grid.set(point2(3, 3), 'c');
    grid.set(point2(3, 4), 'd');

    assert_eq!(Some(&'b'), grid.get(point2(2, 3)));
    assert_eq!(Some(&'c'), grid.get(point2(3, 3)));
    assert_eq!(Some(&'d'), grid.get(point2(3, 4)));
}

#[test]
fn lib_test_get_mut() {
    let mut grid: Grid<char, UnknownUnit> = Grid::new(rect(0, 0, 1, 1), || 'a');
    let value = grid.get_mut(point2(0, 0)).unwrap();

    assert_eq!(&'a', value);
    *value = 'b';
    assert_eq!(&'b', value);
}

#[test]
fn lib_test_get_set() {
    let mut grid: Grid<char, UnknownUnit> = Grid::new(rect(0, 0, 5, 5), || 'a');

    assert_eq!(Some(&'a'), grid.get(point2(2, 3)));
    assert_eq!(Some(&'a'), grid.get(point2(3, 3)));
    assert_eq!(Some(&'a'), grid.get(point2(3, 4)));

    grid.set(point2(2, 3), 'b');
    grid.set(point2(3, 3), 'c');
    grid.set(point2(3, 4), 'd');

    assert_eq!(Some(&'b'), grid.get(point2(2, 3)));
    assert_eq!(Some(&'c'), grid.get(point2(3, 3)));
    assert_eq!(Some(&'d'), grid.get(point2(3, 4)));
}

#[test]
fn set_changes_one_cell_only() {
    let mut grid: Grid<char, UnknownUnit> = Grid::new(rect(0, 0, 5, 5), || 'a');
    assert_eq!(Some(&'a'), grid.get(point2(2, 3)));
    assert_eq!(Some(&'a'), grid.get(point2(3, 4)));

    grid.set(point2(2, 3), 'b');

    for y in 0..5 {
        for x in 0..5 {
            let expected = if (x, y) == (2, 3) { 'b' } else { 'a' };
            assert_eq!(Some(&expected), grid.get(point2(x, y)));
        }
    }
}

#[test]
fn cells_outside_the_rectangle_are_absent() {
    let mut grid: Grid<u8, UnknownUnit> = Grid::new(rect(-2, 3, 4, 2), || 7);
    assert!(grid.contains(point2(-2, 3)));
    assert!(grid.contains(point2(1, 4)));
    assert!(!grid.contains(point2(2, 4)));
    assert!(!grid.contains(point2(1, 5)));
    assert!(!grid.contains(point2(-3, 3)));
    assert!(!grid.contains(point2(-2, 2)));

    assert_eq!(None, grid.get(point2(2, 4)));
    assert_eq!(None, grid.get(point2(1, 5)));
    assert_eq!(None, grid.get(point2(-3, 3)));
    assert_eq!(None, grid.get(point2(-2, 2)));
    assert!(grid.get_mut(point2(2, 3)).is_none());

    grid.set(point2(2, 4), 9);
    assert_eq!(None, grid.get(point2(2, 4)));
    for y in 3..5 {
        for x in -2..2 {
            assert_eq!(Some(&7), grid.get(point2(x, y)));
        }
    }
}

#[test]
fn cells_are_stored_apart() {
    let mut grid: Grid<(isize, isize), UnknownUnit> = Grid::new(rect(-1, -1, 3, 4), || (0, 0));
    for y in -1..3 {
        for x in -1..2 {
            grid.set(point2(x, y), (x, y));
        }
    }
    for y in -1..3 {
        for x in -1..2 {
            assert_eq!(Some(&(x, y)), grid.get(point2(x, y)));
        }
    }
}

#[test]
fn rect_and_size_report_the_extent() {
    let grid: Grid<char, UnknownUnit> = Grid::new(rect(3, -4, 2, 6), || 'a');
    let expected: Rect<isize, UnknownUnit> = rect(3, -4, 2, 6);
    assert_eq!(expected, grid.rect());
    assert_eq!(2, grid.size().width);
    assert_eq!(6, grid.size().height);
}

#[test]
fn empty_grid_holds_nothing() {
    let mut grid: Grid<char, UnknownUnit> = Grid::new(rect(0, 0, 0, 5), || 'a');
    assert_eq!(None, grid.get(point2(0, 0)));
    assert!(!grid.contains(point2(0, 0)));
    grid.set(point2(0, 0), 'b');
    assert_eq!(None, grid.get(point2(0, 0)));
}

#[test]
fn default_factory_is_called_once_per_cell() {
    let calls = std::cell::Cell::new(0usize);
    let grid: Grid<usize, UnknownUnit> = Grid::new(rect(0, 0, 3, 4), || {
        calls.set(calls.get() + 1);
        calls.get()
    });
    assert_eq!(12, calls.get());
    let mut seen: Vec<usize> = Vec::new();
    for y in 0..4 {
        for x in 0..3 {
            seen.push(*grid.get(point2(x, y)).unwrap());
        }
    }
    seen.sort();
    assert_eq!((1..=12).collect::<Vec<usize>>(), seen);
}

#[test]
fn resize_keeps_the_overlap_and_fills_the_rest() {
    let mut grid: Grid<(isize, isize), UnknownUnit> = Grid::new(rect(0, 0, 4, 4), || (0, 0));
    for y in 0..4 {
        for x in 0..4 {
            grid.set(point2(x, y), (x, y));
        }
    }

    grid.resize(rect(2, 1, 4, 5), || (-1, -1));

    let expected: Rect<isize, UnknownUnit> = rect(2, 1, 4, 5);
    assert_eq!(expected, grid.rect());
    for y in -1..8 {
        for x in -1..8 {
            let p: Point2D<isize, UnknownUnit> = point2(x, y);
            let inside_new = 2 <= x && x < 6 && 1 <= y && y < 6;
            let inside_old = 0 <= x && x < 4 && 0 <= y && y < 4;
            if !inside_new {
                assert_eq!(None, grid.get(p));
            } else if inside_old {
                assert_eq!(Some(&(x, y)), grid.get(p));
            } else {
                assert_eq!(Some(&(-1, -1)), grid.get(p));
            }
        }
    }
}

#[test]
fn resize_to_a_disjoint_rectangle_keeps_nothing() {
    let mut grid: Grid<char, UnknownUnit> = Grid::new(rect(0, 0, 2, 2), || 'a');
    grid.resize(rect(2, 0, 2, 2), || 'z');
    assert_eq!(None, grid.get(point2(1, 1)));
    assert_eq!(Some(&'z'), grid.get(point2(2, 0)));
    assert_eq!(Some(&'z'), grid.get(point2(3, 1)));
}

#[test]
fn resize_to_an_enclosing_rectangle_keeps_everything() {
    let mut grid: Grid<isize, UnknownUnit> = Grid::new(rect(1, 1, 2, 2), || 0);
    grid.set(point2(1, 1), 11);
    grid.set(point2(2, 1), 21);
    grid.set(point2(1, 2), 12);
    grid.set(point2(2, 2), 22);
    grid.resize(rect(0, 0, 4, 4), || -1);
    assert_eq!(Some(&11), grid.get(point2(1, 1)));
    assert_eq!(Some(&21), grid.get(point2(2, 1)));
    assert_eq!(Some(&12), grid.get(point2(1, 2)));
    assert_eq!(Some(&22), grid.get(point2(2, 2)));
    assert_eq!(Some(&-1), grid.get(point2(0, 0)));
    assert_eq!(Some(&-1), grid.get(point2(3, 3)));
    assert_eq!(None, grid.get(point2(4, 4)));
}

#[test]
fn resize_moves_values_that_cannot_be_copied() {
    let mut grid: Grid<String, UnknownUnit> = Grid::new(rect(0, 0, 2, 1), || String::from("new"));
    grid.set(point2(1, 0), String::from("kept"));
    grid.resize(rect(1, 0, 2, 1), || String::from("made"));
    assert_eq!(Some(&String::from("kept")), grid.get(point2(1, 0)));
    assert_eq!(Some(&String::from("made")), grid.get(point2(2, 0)));
    assert_eq!(None, grid.get(point2(0, 0)));
}

#[test]
fn default_grid_is_empty_at_the_origin() {
    let grid: Grid<char, UnknownUnit> = Grid::default();
    let expected: Rect<isize, UnknownUnit> = rect(0, 0, 0, 0);
    assert_eq!(expected, grid.rect());
    assert_eq!(None, grid.get(point2(0, 0)));
    assert!(!grid.contains(point2(0, 0)));
}

#[test]
fn a_clone_holds_the_same_values_apart() {
    let mut grid: Grid<String, UnknownUnit> = Grid::new(rect(0, 0, 2, 2), || String::from("a"));
    grid.set(point2(1, 0), String::from("b"));
    let copy = grid.clone();
    grid.set(point2(0, 0), String::from("c"));
    assert_eq!(Some(&String::from("a")), copy.get(point2(0, 0)));
    assert_eq!(Some(&String::from("b")), copy.get(point2(1, 0)));
    assert_eq!(Some(&String::from("c")), grid.get(point2(0, 0)));
    assert_eq!(grid.rect(), copy.rect());
    assert_ne!(grid, copy);
}

#[test]
fn resize_to_the_same_rectangle_keeps_everything() {
    let mut grid: Grid<isize, UnknownUnit> = Grid::new(rect(-1, -1, 3, 2), || 0);
    for y in -1..1 {
        for x in -1..2 {
            grid.set(point2(x, y), 10 * y + x);
        }
    }
    grid.resize(rect(-1, -1, 3, 2), || 99);
    for y in -1..1 {
        for x in -1..2 {
            assert_eq!(Some(&(10 * y + x)), grid.get(point2(x, y)));
        }
    }
}

#[test]
fn resize_to_an_empty_rectangle_and_back() {
    let mut grid: Grid<char, UnknownUnit> = Grid::new(rect(0, 0, 2, 2), || 'a');
    grid.set(point2(0, 0), 'x');
    grid.resize(rect(0, 0, 0, 0), || 'b');
    assert_eq!(None, grid.get(point2(0, 0)));
    grid.resize(rect(0, 0, 2, 2), || 'c');
    assert_eq!(Some(&'c'), grid.get(point2(0, 0)));
    assert_eq!(Some(&'c'), grid.get(point2(1, 1)));
}
