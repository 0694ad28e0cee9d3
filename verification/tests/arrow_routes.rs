use unicode_diagram::object::arrow::{
    compute_route, compute_self_loop, corner_char, default_arrowhead, resolve_arrowhead,
    segment_dir, Dir,
};
use unicode_diagram::object::rect::Side;

#[test]
fn straight_horizontal_route() {
    let wp = compute_route(10, 5, Side::Right, 20, 5, Side::Left);
    assert_eq!(wp, vec![(10, 5), (20, 5)]);
}

#[test]
fn straight_vertical_route() {
    let wp = compute_route(5, 3, Side::Bottom, 5, 10, Side::Top);
    assert_eq!(wp, vec![(5, 3), (5, 10)]);
}

#[test]
fn l_shape_right_to_top() {
    let wp = compute_route(10, 5, Side::Right, 20, 10, Side::Top);
    assert_eq!(wp, vec![(10, 5), (20, 5), (20, 10)]);
}

#[test]
fn l_shape_bottom_to_left() {
    let wp = compute_route(5, 5, Side::Bottom, 15, 10, Side::Left);
    assert_eq!(wp, vec![(5, 5), (5, 10), (15, 10)]);
}

#[test]
fn z_shape_opposite_vertical() {
    let wp = compute_route(5, 3, Side::Bottom, 15, 10, Side::Top);
    assert_eq!(wp, vec![(5, 3), (5, 6), (15, 6), (15, 10)]);
}

#[test]
fn u_shape_same_side_right() {
    let wp = compute_route(10, 2, Side::Right, 10, 8, Side::Right);
    assert_eq!(wp, vec![(10, 2), (12, 2), (12, 8), (10, 8)]);
}

#[test]
fn corner_chars_correct() {
    assert_eq!(corner_char(Dir::Right, Dir::Down), '┐');
    assert_eq!(corner_char(Dir::Right, Dir::Up), '┘');
    assert_eq!(corner_char(Dir::Down, Dir::Right), '└');
    assert_eq!(corner_char(Dir::Up, Dir::Right), '┌');
}

#[test]
fn route_endpoints_and_segments_are_straight() {
    let cases = [
        (3, 4, Side::Left, 30, 9, Side::Top),
        (12, 2, Side::Top, 4, 20, Side::Bottom),
        (8, 8, Side::Bottom, 2, 1, Side::Right),
        (0, 0, Side::Left, 0, 5, Side::Left),
    ];
    for (sx, sy, ss, ex, ey, ds) in cases {
        let wp = compute_route(sx, sy, ss, ex, ey, ds);
        assert!(wp.len() >= 2 && wp.len() <= 4);
        assert_eq!(wp[0], (sx, sy));
        assert_eq!(*wp.last().unwrap(), (ex, ey));
        for pair in wp.windows(2) {
            assert!(pair[0].0 == pair[1].0 || pair[0].1 == pair[1].1);
        }
    }
}

#[test]
fn left_detour_clamps_at_zero() {
    let wp = compute_route(1, 2, Side::Left, 0, 6, Side::Left);
    assert_eq!(wp, vec![(1, 2), (0, 2), (0, 6), (0, 6)]);
}

#[test]
fn self_loop_four_points_when_aligned() {
    let wp = compute_self_loop(10, 2, Side::Right, 10, 8, Side::Right);
    assert_eq!(wp, vec![(10, 2), (12, 2), (12, 8), (10, 8)]);
}

#[test]
fn self_loop_five_points_right_to_bottom() {
    let wp = compute_self_loop(10, 2, Side::Right, 6, 5, Side::Bottom);
    assert_eq!(wp, vec![(10, 2), (12, 2), (12, 7), (6, 7), (6, 5)]);
}

#[test]
fn segment_directions() {
    assert_eq!(segment_dir(0, 0, 4, 0), Dir::Right);
    assert_eq!(segment_dir(4, 0, 0, 0), Dir::Left);
    assert_eq!(segment_dir(0, 0, 0, 3), Dir::Down);
    assert_eq!(segment_dir(0, 3, 0, 0), Dir::Up);
}

#[test]
fn arrowhead_families_turn_with_direction() {
    assert_eq!(default_arrowhead(Dir::Left), '←');
    assert_eq!(resolve_arrowhead('▶', Dir::Down), '▼');
    assert_eq!(resolve_arrowhead('△', Dir::Left), '◁');
    assert_eq!(resolve_arrowhead('⇒', Dir::Up), '⇑');
    assert_eq!(resolve_arrowhead('*', Dir::Up), '*');
}
