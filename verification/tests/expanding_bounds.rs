use lattice_grid::{point2, rect, ExpandingBounds, Point2D, Rect, UnknownUnit};

fn observed(points: &[(isize, isize)]) -> ExpandingBounds<UnknownUnit> {
    let mut bounds = ExpandingBounds::new();
    for &(x, y) in points {
        bounds.observe(point2(x, y));
    }
    bounds
}

#[test]
fn fresh_bounds_contain_nothing() {
    let bounds: ExpandingBounds<UnknownUnit> = ExpandingBounds::new();
    assert!(!bounds.contains(point2(0, 0)));
    assert!(!bounds.contains(point2(-1, 1)));
    assert_eq!(rect(0, 0, 0, 0), bounds.rect());
}

#[test]
fn first_observation_gives_the_unit_rectangle() {
    let bounds = observed(&[(5, -7)]);
    assert_eq!(rect(5, -7, 1, 1), bounds.rect());
    assert!(bounds.contains(point2(5, -7)));
    assert!(!bounds.contains(point2(6, -7)));
    assert!(!bounds.contains(point2(5, -6)));
    assert!(!bounds.contains(point2(4, -7)));
    assert!(!bounds.contains(point2(5, -8)));
}

#[test]
fn observing_a_covered_point_changes_nothing() {
    let mut bounds = observed(&[(0, 0), (4, 4)]);
    let before: Rect<isize, UnknownUnit> = bounds.rect();
    bounds.observe(point2(2, 2));
    bounds.observe(point2(0, 4));
    bounds.observe(point2(4, 0));
    assert_eq!(before, bounds.rect());
    assert_eq!(rect(0, 0, 5, 5), bounds.rect());
}

#[test]
fn each_edge_moves_only_when_it_must() {
    let mut bounds = observed(&[(0, 0)]);
    bounds.observe(point2(-2, 0));
    assert_eq!(rect(-2, 0, 3, 1), bounds.rect());
    bounds.observe(point2(3, 0));
    assert_eq!(rect(-2, 0, 6, 1), bounds.rect());
    bounds.observe(point2(0, -4));
    assert_eq!(rect(-2, -4, 6, 5), bounds.rect());
    bounds.observe(point2(0, 2));
    assert_eq!(rect(-2, -4, 6, 7), bounds.rect());
}

#[test]
fn a_point_beyond_a_corner_moves_two_edges() {
    let mut bounds = observed(&[(0, 0)]);
    bounds.observe(point2(3, 5));
    assert_eq!(rect(0, 0, 4, 6), bounds.rect());
    bounds.observe(point2(-1, -2));
    assert_eq!(rect(-1, -2, 5, 8), bounds.rect());
    bounds.observe(point2(-3, 9));
    assert_eq!(rect(-3, -2, 7, 12), bounds.rect());
    bounds.observe(point2(6, -4));
    assert_eq!(rect(-3, -4, 10, 14), bounds.rect());
}

#[test]
fn the_box_does_not_depend_on_the_order() {
    let points = [(2, 3), (3, 3), (3, 4), (-1, 7), (0, 0)];
    let orders: [[usize; 5]; 6] = [
        [0, 1, 2, 3, 4],
        [4, 3, 2, 1, 0],
        [2, 0, 4, 1, 3],
        [3, 4, 0, 2, 1],
        [1, 3, 0, 4, 2],
        [4, 0, 3, 1, 2],
    ];
    for order in orders {
        let shuffled: Vec<(isize, isize)> = order.iter().map(|&i| points[i]).collect();
        assert_eq!(rect(-1, 0, 5, 8), observed(&shuffled).rect());
    }
    let repeated = [(0, 0), (2, 3), (0, 0), (3, 4), (3, 3), (-1, 7), (2, 3)];
    assert_eq!(rect(-1, 0, 5, 8), observed(&repeated).rect());
}

#[test]
fn contains_agrees_with_the_reported_rectangle() {
    let bounds = observed(&[(-2, 1), (1, -1), (0, 3)]);
    let r: Rect<isize, UnknownUnit> = bounds.rect();
    assert_eq!(rect(-2, -1, 4, 5), r);
    for y in -4..7 {
        for x in -5..5 {
            let p: Point2D<isize, UnknownUnit> = point2(x, y);
            let in_rect = r.origin.x <= x
                && x < r.origin.x + r.size.width
                && r.origin.y <= y
                && y < r.origin.y + r.size.height;
            assert_eq!(in_rect, bounds.contains(p));
        }
    }
}

#[test]
fn observing_reaches_the_ends_of_the_range() {
    let bounds = observed(&[(isize::MIN, isize::MIN)]);
    assert_eq!(rect(isize::MIN, isize::MIN, 1, 1), bounds.rect());
    let bounds = observed(&[(isize::MAX - 1, isize::MAX - 1), (0, 0)]);
    assert_eq!(rect(0, 0, isize::MAX, isize::MAX), bounds.rect());
    assert!(bounds.contains(point2(isize::MAX - 1, 0)));
}

#[test]
fn a_clone_is_independent() {
    let mut bounds = observed(&[(1, 1)]);
    let copy = bounds.clone();
    bounds.observe(point2(5, 5));
    assert_eq!(rect(1, 1, 1, 1), copy.rect());
    assert_eq!(rect(1, 1, 5, 5), bounds.rect());
}

#[test]
fn can_observe_tells_whether_the_grown_box_can_be_held() {
    let fresh: ExpandingBounds<UnknownUnit> = ExpandingBounds::new();
    assert!(fresh.can_observe(point2(0, 0)));
    assert!(fresh.can_observe(point2(isize::MIN, isize::MIN)));
    assert!(fresh.can_observe(point2(isize::MAX - 1, isize::MAX - 1)));
    assert!(!fresh.can_observe(point2(isize::MAX, 0)));
    assert!(!fresh.can_observe(point2(0, isize::MAX)));

    let low = observed(&[(-2, -2)]);
    assert!(low.can_observe(point2(isize::MAX - 3, 0)));
    assert!(!low.can_observe(point2(isize::MAX - 2, 0)));
    assert!(low.can_observe(point2(0, isize::MAX - 3)));
    assert!(!low.can_observe(point2(0, isize::MAX - 2)));

    let high = observed(&[(5, 5)]);
    assert!(high.can_observe(point2(isize::MIN + 7, 0)));
    assert!(!high.can_observe(point2(isize::MIN + 6, 0)));
    assert!(high.can_observe(point2(0, isize::MIN + 7)));
    assert!(!high.can_observe(point2(0, isize::MIN + 6)));
    assert!(high.can_observe(point2(5, 5)));
}

#[test]
fn the_widest_box_that_can_be_held() {
    let mut bounds = observed(&[(-2, -2)]);
    bounds.observe(point2(isize::MAX - 3, 0));
    assert_eq!(rect(-2, -2, isize::MAX, 3), bounds.rect());
    assert!(bounds.contains(point2(isize::MAX - 3, -2)));
    assert!(!bounds.contains(point2(isize::MAX - 2, -2)));
}
