use prismae::math::{triangle_columns, try_triangle_columns};
use prismae::util::Position;

fn p(x: i32, y: i32) -> Position {
    Position { x, y }
}

#[test]
fn line_uses_whole_slope() {
    assert_eq!(prismae::math::line(2, p(0, 0), p(4, 8)), 4);
    assert_eq!(prismae::math::line(3, p(0, 0), p(3, -7)), -6);
    assert_eq!(prismae::math::line(1, p(0, 0), p(3, 2)), 0);
}

#[test]
fn vertical_line_gives_higher_end() {
    assert_eq!(prismae::math::line(5, p(5, 1), p(5, 9)), 9);
    assert_eq!(prismae::math::line(5, p(5, 9), p(5, 1)), 9);
}

#[test]
fn triangle_columns_fill_from_left_to_right() {
    let expected = vec![(0, 0, 0), (1, 0, 2), (2, 0, 4), (3, 0, 2), (4, 0, 0)];
    assert_eq!(triangle_columns(p(2, 4), p(4, 0), p(0, 0)), expected);
    assert_eq!(try_triangle_columns(p(0, 0), p(2, 4), p(4, 0)), Some(expected));
}

#[test]
fn triangle_columns_refuse_overflow() {
    assert_eq!(try_triangle_columns(p(i32::MIN, 0), p(i32::MAX, 0), p(0, 0)), None);
}
