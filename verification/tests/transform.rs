use gameloop::geometry::{Point2, Transform2};
use gameloop::graphics::{Color, DrawCommand, DrawMode, DrawPrimitives, Graphics, PushTransform};

/// What a recording target was asked to do.
#[derive(Clone, Debug, PartialEq)]
enum Call {
    Clear([u8; 4]),
    Present,
    SetColor([u8; 4]),
    Circle(DrawMode, Point2, i64),
    Ellipse(DrawMode, Point2, i64, i64),
    Line(Point2, Point2, i64),
    Polygon(DrawMode, Vec<Point2>),
    Text(Point2, String),
}

/// A drawing target that draws nothing and keeps every request.
#[derive(Default)]
struct Recorder {
    calls: Vec<Call>,
}

impl Graphics for Recorder {
    fn took(&self, _command: DrawCommand, after: &Self) -> bool {
        after.calls.len() == self.calls.len() + 1 && after.calls[..self.calls.len()] == self.calls[..]
    }

    fn clear<C: Color>(&mut self, color: C) {
        self.calls.push(Call::Clear(color.into_rgba()));
    }

    fn present(&mut self) {
        self.calls.push(Call::Present);
    }
}

impl DrawPrimitives for Recorder {
    fn set_color<C: Color>(&mut self, color: C) {
        self.calls.push(Call::SetColor(color.into_rgba()));
    }

    fn circle(&mut self, mode: DrawMode, origin: Point2, radius: i64) {
        self.calls.push(Call::Circle(mode, origin, radius));
    }

    fn ellipse(&mut self, mode: DrawMode, origin: Point2, width: i64, height: i64) {
        self.calls.push(Call::Ellipse(mode, origin, width, height));
    }

    fn line(&mut self, origin: Point2, target: Point2, width: i64) {
        self.calls.push(Call::Line(origin, target, width));
    }

    fn polygon(&mut self, mode: DrawMode, points: &Vec<Point2>) {
        self.calls.push(Call::Polygon(mode, points.clone()));
    }

    fn text(&mut self, position: Point2, text: &str) {
        self.calls.push(Call::Text(position, text.to_string()));
    }
}

#[derive(Clone, Copy)]
struct Rgba(u8, u8, u8, u8);

impl Color for Rgba {
    fn rgba(self) -> [u8; 4] {
        [self.0, self.1, self.2, self.3]
    }

    fn into_rgba(self) -> [u8; 4] {
        [self.0, self.1, self.2, self.3]
    }
}

fn p(x: i64, y: i64) -> Point2 {
    Point2::new(x, y)
}

#[test]
fn a_point_drawn_through_a_proxy_reaches_the_target_transformed() {
    let mut proxy = PushTransform::new(Recorder::default(), Transform2::translation(3, 4));
    proxy.circle(DrawMode::Fill, p(1, 1), 9);
    let recorder = proxy.into_inner();
    assert_eq!(recorder.calls, vec![Call::Circle(DrawMode::Fill, p(4, 5), 9)]);
}

#[test]
fn a_proxy_can_draw_into_a_target_that_it_is_lent() {
    let mut recorder = Recorder::default();
    {
        let mut proxy = PushTransform::new(&mut recorder, Transform2::translation(3, 4));
        proxy.circle(DrawMode::Line(2), p(1, 1), 9);
        proxy.present();
    }
    recorder.circle(DrawMode::Fill, p(1, 1), 1);
    assert_eq!(
        recorder.calls,
        vec![
            Call::Circle(DrawMode::Line(2), p(4, 5), 9),
            Call::Present,
            Call::Circle(DrawMode::Fill, p(1, 1), 1),
        ]
    );
}

#[test]
fn every_primitive_has_its_positions_mapped_and_nothing_else() {
    let stretch = Transform2::new(2, 0, 10, 0, 3, 20);
    let mut proxy = PushTransform::new(Recorder::default(), stretch);
    proxy.circle(DrawMode::Line(3), p(1, 2), 5);
    proxy.ellipse(DrawMode::Fill, p(-1, -2), 6, 7);
    proxy.line(p(0, 0), p(4, 4), 8);
    proxy.polygon(DrawMode::Line(1), &vec![p(0, 0), p(1, 0), p(1, 1)]);
    proxy.text(p(5, 5), "score");
    let recorder = proxy.into_inner();
    assert_eq!(
        recorder.calls,
        vec![
            Call::Circle(DrawMode::Line(3), p(12, 26), 5),
            Call::Ellipse(DrawMode::Fill, p(8, 14), 6, 7),
            Call::Line(p(10, 20), p(18, 32), 8),
            Call::Polygon(DrawMode::Line(1), vec![p(10, 20), p(12, 20), p(12, 23)]),
            Call::Text(p(20, 35), "score".to_string()),
        ]
    );
}

#[test]
fn a_polygon_keeps_the_order_of_its_corners_and_its_mode() {
    let turn = Transform2::quarter_turn();
    let corners = vec![p(1, 0), p(2, 0), p(3, 1), p(0, 5), p(-4, 2)];
    let mut proxy = PushTransform::new(Recorder::default(), turn);
    proxy.polygon(DrawMode::Fill, &corners);
    proxy.polygon(DrawMode::Line(4), &Vec::new());
    let recorder = proxy.into_inner();
    assert_eq!(
        recorder.calls,
        vec![
            Call::Polygon(DrawMode::Fill, vec![p(0, 1), p(0, 2), p(-1, 3), p(-5, 0), p(-2, -4)]),
            Call::Polygon(DrawMode::Line(4), vec![]),
        ]
    );
    assert_eq!(corners.len(), 5);
}

#[test]
fn nested_proxies_apply_the_inner_transform_first() {
    let outer = Transform2::translation(3, 4);
    let middle = Transform2::scaling(2, 3);
    let inner = Transform2::quarter_turn();
    let point = p(1, 2);

    let first = PushTransform::new(Recorder::default(), outer);
    let second = PushTransform::new(first, middle);
    let mut third = PushTransform::new(second, inner);
    third.circle(DrawMode::Fill, point, 1);
    let nested = third.into_inner().into_inner().into_inner();
    assert_eq!(nested.calls, vec![Call::Circle(DrawMode::Fill, p(-1, 7), 1)]);

    let left = outer.compose(&middle).compose(&inner);
    let right = outer.compose(&middle.compose(&inner));
    assert_eq!(left, right);
    let mut single = PushTransform::new(Recorder::default(), left);
    single.circle(DrawMode::Fill, point, 1);
    assert_eq!(single.into_inner().calls, nested.calls);
}

#[test]
fn two_nested_proxies_draw_as_one_with_the_composed_transform() {
    let outer = Transform2::new(2, 3, 5, 7, 11, 13);
    let inner = Transform2::new(-1, 4, 0, 6, -2, 9);
    let mut nested = PushTransform::new(PushTransform::new(Recorder::default(), outer), inner);
    let mut single = PushTransform::new(Recorder::default(), outer.compose(&inner));
    nested.line(p(1, 1), p(-3, 8), 2);
    single.line(p(1, 1), p(-3, 8), 2);
    let nested = nested.into_inner().into_inner();
    assert_eq!(nested.calls, vec![Call::Line(p(50, 177), p(0, -17), 2)]);
    assert_eq!(single.into_inner().calls, nested.calls);
}

#[test]
fn clearing_and_presenting_pass_through_every_frame_once() {
    let one = PushTransform::new(Recorder::default(), Transform2::translation(3, 4));
    let two = PushTransform::new(one, Transform2::scaling(5, 5));
    let mut three = PushTransform::new(two, Transform2::quarter_turn());
    three.clear(Rgba(1, 2, 3, 4));
    three.present();
    three.set_color(Rgba(9, 8, 7, 6));
    three.present();
    let recorder = three.into_inner().into_inner().into_inner();
    assert_eq!(
        recorder.calls,
        vec![
            Call::Clear([1, 2, 3, 4]),
            Call::Present,
            Call::SetColor([9, 8, 7, 6]),
            Call::Present,
        ]
    );
}

#[test]
fn a_rectangle_is_one_polygon_of_four_corners() {
    let mut recorder = Recorder::default();
    recorder.rectangle(DrawMode::Fill, p(1, 2), 10, 20);
    recorder.square(DrawMode::Line(2), p(-5, -5), 3);
    assert_eq!(
        recorder.calls,
        vec![
            Call::Polygon(DrawMode::Fill, vec![p(1, 2), p(11, 2), p(11, 22), p(1, 22)]),
            Call::Polygon(DrawMode::Line(2), vec![p(-5, -5), p(-2, -5), p(-2, -2), p(-5, -2)]),
        ]
    );
}

#[test]
fn a_centered_square_starts_half_its_width_back() {
    let mut recorder = Recorder::default();
    recorder.square_centered(DrawMode::Fill, p(10, 10), 4);
    recorder.square_centered(DrawMode::Fill, p(10, 10), 5);
    recorder.square_centered(DrawMode::Fill, p(10, 10), -3);
    recorder.square_centered(DrawMode::Fill, p(10, 10), 0);
    assert_eq!(
        recorder.calls,
        vec![
            Call::Polygon(DrawMode::Fill, vec![p(8, 8), p(12, 8), p(12, 12), p(8, 12)]),
            Call::Polygon(DrawMode::Fill, vec![p(8, 8), p(13, 8), p(13, 13), p(8, 13)]),
            Call::Polygon(DrawMode::Fill, vec![p(11, 11), p(8, 11), p(8, 8), p(11, 8)]),
            Call::Polygon(DrawMode::Fill, vec![p(10, 10), p(10, 10), p(10, 10), p(10, 10)]),
        ]
    );
}

#[test]
fn shapes_drawn_through_a_proxy_are_transformed_as_polygons() {
    let mut proxy = PushTransform::new(Recorder::default(), Transform2::new(2, 0, 1, 0, 2, 1));
    proxy.rectangle(DrawMode::Fill, p(1, 2), 10, 20);
    proxy.square(DrawMode::Line(1), p(0, 0), 3);
    proxy.square_centered(DrawMode::Fill, p(10, 10), 4);
    let recorder = proxy.into_inner();
    assert_eq!(
        recorder.calls,
        vec![
            Call::Polygon(DrawMode::Fill, vec![p(3, 5), p(23, 5), p(23, 45), p(3, 45)]),
            Call::Polygon(DrawMode::Line(1), vec![p(1, 1), p(7, 1), p(7, 7), p(1, 7)]),
            Call::Polygon(DrawMode::Fill, vec![p(17, 17), p(25, 17), p(25, 25), p(17, 25)]),
        ]
    );
}

#[test]
fn a_shape_at_the_edge_of_the_grid_stays_on_it() {
    let mut recorder = Recorder::default();
    recorder.rectangle(DrawMode::Fill, p(i64::MAX - 1, i64::MIN), 5, -5);
    recorder.square_centered(DrawMode::Fill, p(i64::MAX, i64::MIN), i64::MIN);
    assert_eq!(
        recorder.calls,
        vec![
            Call::Polygon(
                DrawMode::Fill,
                vec![
                    p(i64::MAX - 1, i64::MIN),
                    p(i64::MAX, i64::MIN),
                    p(i64::MAX, i64::MIN),
                    p(i64::MAX - 1, i64::MIN),
                ]
            ),
            Call::Polygon(
                DrawMode::Fill,
                vec![
                    p(i64::MAX, i64::MIN + (1 << 62)),
                    p(i64::MAX + i64::MIN, i64::MIN + (1 << 62)),
                    p(i64::MAX + i64::MIN, i64::MIN),
                    p(i64::MAX, i64::MIN),
                ]
            ),
        ]
    );
}

#[test]
fn a_recorder_takes_one_request_at_a_time() {
    let before = Recorder::default();
    let mut after = Recorder::default();
    after.present();
    assert!(before.took(DrawCommand::Present, &after));
    assert!(!after.took(DrawCommand::Present, &before));
}
