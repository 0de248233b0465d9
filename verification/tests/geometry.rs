use gameloop::geometry::{Point2, Transform2, Vector2};

#[test]
fn a_translation_moves_a_point() {
    let moved = Transform2::translation(3, 4).transform_point(Point2::new(1, 1));
    assert_eq!(moved, Point2::new(4, 5));
}

#[test]
fn the_identity_moves_nothing() {
    let p = Point2::new(-17, 23);
    assert_eq!(Transform2::identity().transform_point(p), p);
    assert_eq!(Transform2::identity(), Transform2::new(1, 0, 0, 0, 1, 0));
}

#[test]
fn a_scaling_stretches_each_axis() {
    let p = Transform2::scaling(2, -3).transform_point(Point2::new(5, 7));
    assert_eq!(p, Point2::new(10, -21));
}

#[test]
fn a_quarter_turn_takes_the_x_axis_to_the_y_axis() {
    let turn = Transform2::quarter_turn();
    assert_eq!(turn.transform_point(Point2::new(1, 0)), Point2::new(0, 1));
    assert_eq!(turn.transform_point(Point2::new(0, 1)), Point2::new(-1, 0));
    assert_eq!(turn.transform_point(Point2::new(3, 5)), Point2::new(-5, 3));
    let full = turn.compose(&turn).compose(&turn).compose(&turn);
    assert_eq!(full, Transform2::identity());
}

#[test]
fn a_general_map_applies_both_rows() {
    let t = Transform2::new(2, 3, 5, 7, 11, 13);
    assert_eq!(t.transform_point(Point2::new(1, 1)), Point2::new(10, 31));
    assert_eq!(t.transform_point(Point2::new(-2, 4)), Point2::new(13, 43));
}

#[test]
fn composing_gives_the_map_that_applies_the_inner_one_first() {
    let move_it = Transform2::translation(3, 4);
    let stretch = Transform2::scaling(2, 3);
    let p = Point2::new(1, 1);
    let stretch_after_move = stretch.compose(&move_it);
    assert_eq!(stretch_after_move, Transform2::new(2, 0, 6, 0, 3, 12));
    assert_eq!(stretch_after_move.transform_point(p), Point2::new(8, 15));
    assert_eq!(
        stretch_after_move.transform_point(p),
        stretch.transform_point(move_it.transform_point(p))
    );
    let move_after_stretch = move_it.compose(&stretch);
    assert_eq!(move_after_stretch, Transform2::new(2, 0, 3, 0, 3, 4));
    assert_eq!(move_after_stretch.transform_point(p), Point2::new(5, 7));
}

#[test]
fn composition_is_associative() {
    let a = Transform2::new(2, 3, 5, 7, 11, 13);
    let b = Transform2::new(-1, 4, 0, 6, -2, 9);
    let c = Transform2::new(3, 0, -7, 1, 1, 2);
    let left = a.compose(&b).compose(&c);
    let right = a.compose(&b.compose(&c));
    assert_eq!(left, right);
    assert_eq!(left, Transform2::new(50, 2, -76, 183, 6, -289));
    let p = Point2::new(2, -1);
    assert_eq!(
        left.transform_point(p),
        a.transform_point(b.transform_point(c.transform_point(p)))
    );
}

#[test]
fn the_identity_is_neutral_for_composition() {
    let a = Transform2::new(2, 3, 5, 7, 11, 13);
    assert_eq!(a.compose(&Transform2::identity()), a);
    assert_eq!(Transform2::identity().compose(&a), a);
}

#[test]
fn a_point_moves_by_a_displacement() {
    assert_eq!(Point2::new(1, 2).translate(Vector2::new(10, -20)), Point2::new(11, -18));
    assert_eq!(Point2::new(1, 2).translate(Vector2::zeros()), Point2::new(1, 2));
    assert_eq!(Vector2::zeros(), Vector2::new(0, 0));
}

#[test]
fn a_move_off_the_grid_stops_at_its_edge() {
    let corner = Point2::new(i64::MAX, i64::MIN);
    assert_eq!(corner.translate(Vector2::new(1, -1)), corner);
    assert_eq!(
        corner.translate(Vector2::new(i64::MAX, i64::MIN)),
        corner
    );
    assert_eq!(corner.translate(Vector2::new(-1, 1)), Point2::new(i64::MAX - 1, i64::MIN + 1));
    assert_eq!(
        Transform2::translation(i64::MAX, i64::MIN).transform_point(Point2::new(5, -5)),
        corner
    );
}

#[test]
fn an_image_off_the_grid_stops_at_its_edge() {
    let huge = Transform2::new(i64::MIN, i64::MIN, 0, i64::MIN, i64::MIN, 0);
    assert_eq!(
        huge.transform_point(Point2::new(i64::MIN, i64::MIN)),
        Point2::new(i64::MAX, i64::MAX)
    );
    assert_eq!(
        huge.transform_point(Point2::new(i64::MAX, i64::MAX)),
        Point2::new(i64::MIN, i64::MIN)
    );
    let steep = Transform2::new(i64::MAX, i64::MAX, i64::MAX, 1, -1, 0);
    assert_eq!(
        steep.transform_point(Point2::new(i64::MAX, i64::MAX)),
        Point2::new(i64::MAX, 0)
    );
    assert_eq!(
        Transform2::scaling(i64::MAX, 2).transform_point(Point2::new(2, i64::MIN)),
        Point2::new(i64::MAX, i64::MIN)
    );
}

#[test]
fn large_parts_that_cancel_give_the_exact_image() {
    let t = Transform2::new(i64::MAX, i64::MIN, 7, 0, 0, 0);
    assert_eq!(
        t.transform_point(Point2::new(i64::MAX, i64::MAX)),
        Point2::new(7 - i64::MAX, 0)
    );
}

#[test]
fn entries_of_a_composition_off_the_range_stop_at_its_edge() {
    let big = Transform2::scaling(i64::MAX, i64::MIN);
    let twice = big.compose(&Transform2::scaling(2, 2));
    assert_eq!(twice, Transform2::new(i64::MAX, 0, 0, 0, i64::MIN, 0));
}
