use lattice_grid::{point2, rect, size2, Coordinate, Point2D, Rect, Size2D, UnknownUnit};

struct Screen;

#[test]
fn constructors_fill_the_fields() {
    let p: Point2D<i32, UnknownUnit> = point2(3, -4);
    assert_eq!((3, -4), (p.x, p.y));
    let s: Size2D<u16, UnknownUnit> = size2(7, 9);
    assert_eq!((7, 9), (s.width, s.height));
    let r: Rect<i64, UnknownUnit> = rect(1, 2, 3, 4);
    assert_eq!((1, 2), (r.origin.x, r.origin.y));
    assert_eq!((3, 4), (r.size.width, r.size.height));
}

#[test]
fn edges_of_a_rectangle() {
    let r: Rect<isize, UnknownUnit> = rect(-3, 10, 5, 2);
    assert_eq!(-3, r.min_x());
    assert_eq!(2, r.max_x());
    assert_eq!(10, r.min_y());
    assert_eq!(12, r.max_y());
    assert_eq!(5, r.width());
    assert_eq!(2, r.height());
    let b: Rect<u8, UnknownUnit> = rect(250, 0, 5, 255);
    assert_eq!(255, b.max_x());
    assert_eq!(255, b.max_y());
}

#[test]
fn edges_fit_tells_whether_the_far_edges_can_be_held() {
    let fits: Rect<u8, UnknownUnit> = rect(250, 0, 5, 255);
    assert!(fits.edges_fit());
    let wide: Rect<u8, UnknownUnit> = rect(250, 0, 6, 1);
    assert!(!wide.edges_fit());
    let tall: Rect<u8, UnknownUnit> = rect(0, 1, 1, 255);
    assert!(!tall.edges_fit());
    let low: Rect<i8, UnknownUnit> = rect(-128, -128, 127, 127);
    assert!(low.edges_fit());
    let under: Rect<i8, UnknownUnit> = rect(-128, 0, -1, 1);
    assert!(!under.edges_fit());
    let far: Rect<isize, UnknownUnit> = rect(isize::MAX, 0, 1, 1);
    assert!(!far.edges_fit());
    let edge: Rect<isize, UnknownUnit> = rect(isize::MAX - 1, isize::MAX, 1, 0);
    assert!(edge.edges_fit());
}

#[test]
fn points_of_different_spaces_are_different_types() {
    let on_screen: Point2D<isize, Screen> = point2(1, 2);
    let anywhere: Point2D<isize, UnknownUnit> = point2(1, 2);
    assert_eq!((on_screen.x, on_screen.y), (anywhere.x, anywhere.y));
    let copy = on_screen;
    assert_eq!((1, 2), (copy.x, copy.y));
    assert_eq!((1, 2), (on_screen.x, on_screen.y));
}

#[test]
fn geometry_compares_field_by_field() {
    let a: Rect<isize, UnknownUnit> = rect(1, 2, 3, 4);
    assert_eq!(a, rect(1, 2, 3, 4));
    assert_ne!(a, rect(0, 2, 3, 4));
    assert_ne!(a, rect(1, 0, 3, 4));
    assert_ne!(a, rect(1, 2, 0, 4));
    assert_ne!(a, rect(1, 2, 3, 0));
    assert_eq!(a, a.clone());
    let p: Point2D<isize, UnknownUnit> = point2(5, 6);
    assert_eq!(p, p.clone());
    assert_ne!(p, point2(6, 5));
    let s: Size2D<isize, UnknownUnit> = size2(5, 6);
    assert_eq!(s, s.clone());
    assert_ne!(s, size2(6, 5));
}

#[test]
fn coordinates_compare_and_step() {
    assert!(3u8.is_below(4));
    assert!(!4u8.is_below(4));
    assert!((-1i64).is_below(0));
    assert!(7usize.is_same(7));
    assert!(!7usize.is_same(8));
    assert_eq!(255u8, 254u8.successor());
    assert_eq!(-128i8, (-127i8).predecessor());
    assert_eq!(12i32, 5i32.offset_by(7));
    assert_eq!(-2isize, 5isize.offset_by(-7));
}

#[test]
fn checked_offset_stops_at_the_ends_of_the_range() {
    assert_eq!(Some(255u8), 250u8.checked_offset_by(5));
    assert_eq!(None, 250u8.checked_offset_by(6));
    assert_eq!(Some(u16::MAX), 1u16.checked_offset_by(u16::MAX - 1));
    assert_eq!(None, 1u16.checked_offset_by(u16::MAX));
    assert_eq!(None, u32::MAX.checked_offset_by(1));
    assert_eq!(None, u64::MAX.checked_offset_by(1));
    assert_eq!(None, usize::MAX.checked_offset_by(1));
    assert_eq!(Some(-128i8), (-127i8).checked_offset_by(-1));
    assert_eq!(None, (-128i8).checked_offset_by(-1));
    assert_eq!(None, 127i8.checked_offset_by(1));
    assert_eq!(None, i16::MIN.checked_offset_by(-1));
    assert_eq!(None, i32::MAX.checked_offset_by(1));
    assert_eq!(None, i64::MIN.checked_offset_by(-1));
    assert_eq!(Some(isize::MAX), (isize::MAX - 1).checked_offset_by(1));
    assert_eq!(None, isize::MAX.checked_offset_by(1));
}
