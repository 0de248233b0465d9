//! Drawing targets, the proxy that draws into one through an affine
//! transform, and the renderers that present a scene.

use vstd::prelude::*;
use crate::entries::lemma_entry_done;
use crate::geometry::{lemma_compose_is_nesting, Point2, Transform2, Vector2};

verus! {

/// A colour that a drawing target can be asked to use.
pub trait Color: Clone + Copy {
    /// Red, green, blue and opacity, each from 0 to 255.
    spec fn rgba(self) -> [u8; 4];

    fn into_rgba(self) -> (channels: [u8; 4])
        ensures
            channels == self.rgba(),
    ;
}

/// How a closed shape is drawn.
#[derive(Clone, Copy, PartialEq, Eq, Debug, Structural)]
pub enum DrawMode {
    /// Its outline only, in strokes of the given width.
    Line(i64),
    /// Its whole interior.
    Fill,
}

/// One request to a drawing target, with everything that was asked.
pub enum DrawCommand {
    Clear { rgba: [u8; 4] },
    Present,
    SetColor { rgba: [u8; 4] },
    Circle { mode: DrawMode, origin: Point2, radius: i64 },
    Ellipse { mode: DrawMode, origin: Point2, width: i64, height: i64 },
    Line { origin: Point2, target: Point2, width: i64 },
    Polygon { mode: DrawMode, points: Seq<Point2> },
    Text { position: Point2, text: Seq<char> },
}

impl DrawCommand {
    /// Whether the command names a position. Clearing, presenting and
    /// choosing a colour do not.
    pub open spec fn is_geometric(self) -> bool {
        !(self is Clear || self is Present || self is SetColor)
    }
}

/// The images of `points` under `transform`, in the same order.
pub open spec fn map_points(transform: Transform2, points: Seq<Point2>) -> Seq<Point2> {
    Seq::new(points.len(), |i: int| transform.apply(points[i]))
}

/// `command` as it looks from outside a frame that `transform` places: each
/// position is mapped, and nothing else changes.
pub open spec fn map_command(transform: Transform2, command: DrawCommand) -> DrawCommand {
    match command {
        DrawCommand::Clear { rgba } => command,
        DrawCommand::Present => command,
        DrawCommand::SetColor { rgba } => command,
        DrawCommand::Circle { mode, origin, radius } => DrawCommand::Circle {
            mode,
            origin: transform.apply(origin),
            radius,
        },
        DrawCommand::Ellipse { mode, origin, width, height } => DrawCommand::Ellipse {
            mode,
            origin: transform.apply(origin),
            width,
            height,
        },
        DrawCommand::Line { origin, target, width } => DrawCommand::Line {
            origin: transform.apply(origin),
            target: transform.apply(target),
            width,
        },
        DrawCommand::Polygon { mode, points } => DrawCommand::Polygon {
            mode,
            points: map_points(transform, points),
        },
        DrawCommand::Text { position, text } => DrawCommand::Text {
            position: transform.apply(position),
            text,
        },
    }
}

/// Half of `width`, rounded towards zero.
pub open spec fn half(width: i64) -> int {
    if width >= 0 {
        width / 2
    } else {
        -((-width) / 2)
    }
}

/// The corners of the axis-aligned rectangle that starts at `up_left`, in the
/// order in which they are drawn.
pub open spec fn rectangle_corners(up_left: Point2, width: i64, height: i64) -> Seq<Point2> {
    seq![
        up_left,
        up_left.moved(Vector2 { x: width, y: 0 }),
        up_left.moved(Vector2 { x: width, y: height }),
        up_left.moved(Vector2 { x: 0, y: height }),
    ]
}

/// The corner from which a square of the given width is drawn so that
/// `center` is its middle.
pub open spec fn centered_corner(center: Point2, width: i64) -> Point2 {
    center.moved(Vector2 { x: (-half(width)) as i64, y: (-half(width)) as i64 })
}

/// A surface that can be wiped and shown.
pub trait Graphics {
    /// Whether `after` is this target once it has carried out `command`,
    /// and nothing else.
    spec fn took(&self, command: DrawCommand, after: &Self) -> bool;

    fn clear<C: Color>(&mut self, color: C)
        ensures
            old(self).took(DrawCommand::Clear { rgba: color.rgba() }, final(self)),
    ;

    fn present(&mut self)
        ensures
            old(self).took(DrawCommand::Present, final(self)),
    ;
}

/// A surface that shapes and text can be drawn on, in its own coordinates.
pub trait DrawPrimitives: Graphics {
    fn set_color<C: Color>(&mut self, color: C)
        ensures
            old(self).took(DrawCommand::SetColor { rgba: color.rgba() }, final(self)),
    ;

    fn circle(&mut self, mode: DrawMode, origin: Point2, radius: i64)
        ensures
            old(self).took(DrawCommand::Circle { mode, origin, radius }, final(self)),
    ;

    fn ellipse(&mut self, mode: DrawMode, origin: Point2, width: i64, height: i64)
        ensures
            old(self).took(DrawCommand::Ellipse { mode, origin, width, height }, final(self)),
    ;

    fn line(&mut self, origin: Point2, target: Point2, width: i64)
        ensures
            old(self).took(DrawCommand::Line { origin, target, width }, final(self)),
    ;

    fn polygon(&mut self, mode: DrawMode, points: &Vec<Point2>)
        ensures
            old(self).took(DrawCommand::Polygon { mode, points: points@ }, final(self)),
    ;

    /// Draws the square of the given width whose first corner is `up_left`,
    /// as one polygon.
    fn square(&mut self, mode: DrawMode, up_left: Point2, width: i64)
        ensures
            old(self).took(
                DrawCommand::Polygon { mode, points: rectangle_corners(up_left, width, width) },
                final(self),
            ),
    {
        self.rectangle(mode, up_left, width, width);
    }

    /// Draws the rectangle whose first corner is `up_left`, as one polygon.
    fn rectangle(&mut self, mode: DrawMode, up_left: Point2, width: i64, height: i64)
        ensures
            old(self).took(
                DrawCommand::Polygon { mode, points: rectangle_corners(up_left, width, height) },
                final(self),
            ),
    {
        let mut corners: Vec<Point2> = Vec::new();
        corners.push(up_left);
        corners.push(up_left.translate(Vector2::new(width, 0)));
        corners.push(up_left.translate(Vector2::new(width, height)));
        corners.push(up_left.translate(Vector2::new(0, height)));
        assert(corners@ == rectangle_corners(up_left, width, height));
        self.polygon(mode, &corners);
    }

    /// Draws the square of the given width whose middle is `center`, as one
    /// polygon.
    fn square_centered(&mut self, mode: DrawMode, center: Point2, width: i64)
        ensures
            old(self).took(
                DrawCommand::Polygon {
                    mode,
                    points: rectangle_corners(centered_corner(center, width), width, width),
                },
                final(self),
            ),
    {
        let back: i64 = -(width / 2);
        self.square(mode, center.translate(Vector2::new(back, back)), width);
    }

    fn text(&mut self, position: Point2, text: &str)
        ensures
            old(self).took(DrawCommand::Text { position, text: text@ }, final(self)),
    ;
}

/// A target that is lent out is the target still: what is drawn through the
/// loan is drawn on it.
impl<'a, G: Graphics> Graphics for &'a mut G {
    open spec fn took(&self, command: DrawCommand, after: &Self) -> bool {
        (**self).took(command, &**after)
    }

    fn clear<C: Color>(&mut self, color: C) {
        (**self).clear(color);
    }

    fn present(&mut self) {
        (**self).present();
    }
}

impl<'a, G: DrawPrimitives> DrawPrimitives for &'a mut G {
    fn set_color<C: Color>(&mut self, color: C) {
        (**self).set_color(color);
    }

    fn circle(&mut self, mode: DrawMode, origin: Point2, radius: i64) {
        (**self).circle(mode, origin, radius);
    }

    fn ellipse(&mut self, mode: DrawMode, origin: Point2, width: i64, height: i64) {
        (**self).ellipse(mode, origin, width, height);
    }

    fn line(&mut self, origin: Point2, target: Point2, width: i64) {
        (**self).line(origin, target, width);
    }

    fn polygon(&mut self, mode: DrawMode, points: &Vec<Point2>) {
        (**self).polygon(mode, points);
    }

    fn text(&mut self, position: Point2, text: &str) {
        (**self).text(position, text);
    }
}

/// A drawing target with a frame of its own. Every position drawn through it
/// is mapped by its transform before it reaches the target it wraps; all
/// else reaches that target as it was given.
pub struct PushTransform<Scr> {
    s: Scr,
    transform: Transform2,
}

impl<Scr> PushTransform<Scr> {
    /// The target that this proxy draws into.
    pub closed spec fn target(&self) -> &Scr {
        &self.s
    }

    /// The transform that places this proxy's frame in its target's.
    pub closed spec fn transform(&self) -> Transform2 {
        self.transform
    }
}

impl<Scr: DrawPrimitives> PushTransform<Scr> {
    pub fn new(s: Scr, transform: Transform2) -> (proxy: Self)
        ensures
            *proxy.target() == s,
            proxy.transform() == transform,
    {
        PushTransform { s, transform }
    }

    /// Gives back the target that was wrapped, with all that was drawn.
    pub fn into_inner(self) -> (s: Scr)
        ensures
            s == *self.target(),
    {
        self.s
    }
}

impl<Scr: Graphics> Graphics for PushTransform<Scr> {
    open spec fn took(&self, command: DrawCommand, after: &Self) -> bool {
        &&& after.transform() == self.transform()
        &&& self.target().took(map_command(self.transform(), command), after.target())
    }

    fn clear<C: Color>(&mut self, color: C) {
        self.s.clear(color);
    }

    fn present(&mut self) {
        self.s.present();
    }
}

impl<Scr: DrawPrimitives> DrawPrimitives for PushTransform<Scr> {
    fn set_color<C: Color>(&mut self, color: C) {
        self.s.set_color(color);
    }

    fn circle(&mut self, mode: DrawMode, origin: Point2, radius: i64) {
        self.s.circle(mode, self.transform.transform_point(origin), radius);
    }

    fn ellipse(&mut self, mode: DrawMode, origin: Point2, width: i64, height: i64) {
        self.s.ellipse(mode, self.transform.transform_point(origin), width, height);
    }

    fn line(&mut self, origin: Point2, target: Point2, width: i64) {
        self.s.line(
            self.transform.transform_point(origin),
            self.transform.transform_point(target),
            width,
        );
    }

    fn polygon(&mut self, mode: DrawMode, points: &Vec<Point2>) {
        let transform = self.transform;
        let mut mapped: Vec<Point2> = Vec::new();
        let mut i: usize = 0;
        while i < points.len()
            invariant
                i <= points.len(),
                mapped@ == map_points(transform, points@.take(i as int)),
            decreases points.len() - i,
        {
            mapped.push(transform.transform_point(points[i]));
            i += 1;
        }
        assert(points@.take(i as int) == points@);
        self.s.polygon(mode, &mapped);
    }

    fn text(&mut self, position: Point2, text: &str) {
        self.s.text(self.transform.transform_point(position), text);
    }
}

impl DrawCommand {
    /// The positions that the command names, in the order in which it names
    /// them.
    pub open spec fn positions(self) -> Seq<Point2> {
        match self {
            DrawCommand::Clear { rgba } => seq![],
            DrawCommand::Present => seq![],
            DrawCommand::SetColor { rgba } => seq![],
            DrawCommand::Circle { mode, origin, radius } => seq![origin],
            DrawCommand::Ellipse { mode, origin, width, height } => seq![origin],
            DrawCommand::Line { origin, target, width } => seq![origin, target],
            DrawCommand::Polygon { mode, points } => points,
            DrawCommand::Text { position, text } => seq![position],
        }
    }
}

/// A command drawn through a proxy reaches the wrapped target once, with each
/// position `p` replaced by the image of `p` under the proxy's transform, in
/// the same order, and with nothing else changed; the proxy keeps its
/// transform.
pub proof fn lemma_proxy_maps_positions<Scr: Graphics>(
    before: PushTransform<Scr>,
    command: DrawCommand,
    after: PushTransform<Scr>,
)
    requires
        before.took(command, &after),
    ensures
        after.transform() == before.transform(),
        before.target().took(map_command(before.transform(), command), after.target()),
        map_command(before.transform(), command).positions() == map_points(
            before.transform(),
            command.positions(),
        ),
{
    lemma_map_command_positions(before.transform(), command);
}

/// Mapping a command maps the positions it names, one for one and in order.
pub proof fn lemma_map_command_positions(transform: Transform2, command: DrawCommand)
    ensures
        map_command(transform, command).positions() == map_points(transform, command.positions()),
        map_command(transform, command).is_geometric() == command.is_geometric(),
{
    assert(map_command(transform, command).positions() =~= map_points(
        transform,
        command.positions(),
    ));
}

/// Clearing, presenting and choosing a colour pass through a frame as they
/// are, whatever its transform.
pub proof fn lemma_pass_through(transform: Transform2, command: DrawCommand)
    requires
        !command.is_geometric(),
    ensures
        map_command(transform, command) == command,
{
}

/// `command` as it looks from outside frames nested in one another, the
/// innermost first: mapped by each frame's transform in turn.
pub open spec fn map_through(frames: Seq<Transform2>, command: DrawCommand) -> DrawCommand
    decreases frames.len(),
{
    if frames.len() == 0 {
        command
    } else {
        map_command(frames.last(), map_through(frames.drop_last(), command))
    }
}

/// Clearing, presenting and choosing a colour pass through any number of
/// nested frames as they are, whatever the transforms.
pub proof fn lemma_pass_through_frames(frames: Seq<Transform2>, command: DrawCommand)
    requires
        !command.is_geometric(),
    ensures
        map_through(frames, command) == command,
    decreases frames.len(),
{
    if frames.len() > 0 {
        lemma_pass_through_frames(frames.drop_last(), command);
        lemma_pass_through(frames.last(), command);
    }
}

/// One frame more around any number of frames: a proxy whose target saw a
/// command as the frames so far map it passes on the command as the frames
/// with its own transform in front map it.
pub proof fn lemma_one_frame_more(inner: Transform2, outer: Seq<Transform2>, command: DrawCommand)
    ensures
        map_through(outer, map_command(inner, command)) == map_through(
            seq![inner] + outer,
            command,
        ),
    decreases outer.len(),
{
    let all = seq![inner] + outer;
    if outer.len() == 0 {
        assert(all.drop_last() =~= Seq::<Transform2>::empty());
        assert(all.last() == inner);
        assert(map_through(all.drop_last(), command) == command);
    } else {
        lemma_one_frame_more(inner, outer.drop_last(), command);
        assert(all.drop_last() =~= seq![inner] + outer.drop_last());
        assert(all.last() == outer.last());
    }
}

/// A command drawn through a proxy that wraps a proxy reaches the innermost
/// target once, mapped by the inner frame's transform first and by the outer
/// frame's transform after that.
pub proof fn lemma_nested_proxies<Scr: Graphics>(
    before: PushTransform<PushTransform<Scr>>,
    command: DrawCommand,
    after: PushTransform<PushTransform<Scr>>,
)
    requires
        before.took(command, &after),
    ensures
        after.transform() == before.transform(),
        after.target().transform() == before.target().transform(),
        before.target().target().took(
            map_command(
                before.target().transform(),
                map_command(before.transform(), command),
            ),
            after.target().target(),
        ),
        map_command(before.target().transform(), map_command(before.transform(), command))
            == map_through(seq![before.transform(), before.target().transform()], command),
{
    lemma_one_frame_more(before.transform(), seq![before.target().transform()], command);
    let outer = seq![before.target().transform()];
    let seen = map_command(before.transform(), command);
    assert(outer.drop_last() =~= Seq::<Transform2>::empty());
    assert(outer.last() == before.target().transform());
    assert(map_through(outer.drop_last(), seen) == seen);
    assert(map_through(outer, seen) == map_command(before.target().transform(), seen));
    assert(seq![before.transform()] + outer =~= seq![
        before.transform(),
        before.target().transform(),
    ]);
}

/// Drawing through two nested frames is drawing through one frame that has
/// the composed transform, as long as the inner transform takes every
/// position of the command to a point of the grid and no entry of the
/// composition leaves the coordinate range.
pub proof fn lemma_nesting_is_composition(
    outer: Transform2,
    inner: Transform2,
    command: DrawCommand,
)
    requires
        outer.composes_exactly(inner),
        forall|i: int|
            0 <= i < command.positions().len() ==> inner.exact_on(
                #[trigger] command.positions()[i],
            ),
    ensures
        map_command(outer, map_command(inner, command)) == map_command(
            outer.composed(inner),
            command,
        ),
{
    let both = outer.composed(inner);
    assert forall|p: Point2| inner.exact_on(p) implies outer.apply(inner.apply(p)) == both.apply(
        p,
    ) by {
        lemma_compose_is_nesting(outer, inner, p);
    }
    match command {
        DrawCommand::Circle { mode, origin, radius } => {
            assert(command.positions()[0] == origin);
        },
        DrawCommand::Ellipse { mode, origin, width, height } => {
            assert(command.positions()[0] == origin);
        },
        DrawCommand::Line { origin, target, width } => {
            assert(command.positions()[0] == origin);
            assert(command.positions()[1] == target);
        },
        DrawCommand::Polygon { mode, points } => {
            assert forall|i: int| 0 <= i < points.len() implies map_points(
                outer,
                map_points(inner, points),
            )[i] == map_points(both, points)[i] by {
                assert(command.positions()[i] == points[i]);
            }
            assert(map_points(outer, map_points(inner, points)) =~= map_points(both, points));
        },
        DrawCommand::Text { position, text } => {
            assert(command.positions()[0] == position);
        },
        _ => {},
    }
}

/// A step that presents a scene on a screen. It may change itself and the
/// screen, never the scene, and what it does is a function of those three
/// alone.
pub trait Draw<Scr, Scn>: Sized {
    /// What one call makes of the renderer and the screen.
    spec fn drawn(self, screen: Scr, scene: &Scn) -> (Self, Scr);

    fn draw(&mut self, screen: &mut Scr, scene: &Scn)
        ensures
            (*final(self), *final(screen)) == old(self).drawn(*old(screen), scene),
    ;
}

/// Two renderers, of one kind or of two, run as one: the first, and then the
/// second on the screen as the first left it.
impl<Scr, Scn, A: Draw<Scr, Scn>, B: Draw<Scr, Scn>> Draw<Scr, Scn> for (A, B) {
    open spec fn drawn(self, screen: Scr, scene: &Scn) -> (Self, Scr) {
        let (first, s) = self.0.drawn(screen, scene);
        let (second, s) = self.1.drawn(s, scene);
        ((first, second), s)
    }

    fn draw(&mut self, screen: &mut Scr, scene: &Scn) {
        self.0.draw(screen, scene);
        self.1.draw(screen, scene);
    }
}

/// What running every renderer of `renderers` once, first to last, makes of
/// the renderers and the screen. All of them are shown the same scene; each
/// one is handed the screen as the one before it left it.
pub open spec fn draw_all<Scr, Scn, R: Draw<Scr, Scn>>(
    renderers: Seq<R>,
    screen: Scr,
    scene: &Scn,
) -> (Seq<R>, Scr)
    decreases renderers.len(),
{
    if renderers.len() == 0 {
        (renderers, screen)
    } else {
        let (earlier, s) = draw_all(renderers.drop_last(), screen, scene);
        let (last, s) = renderers.last().drawn(s, scene);
        (earlier.push(last), s)
    }
}

/// Renderers in the order in which they were added.
pub struct RenderChain<R> {
    renderers: Vec<R>,
}

impl<R> View for RenderChain<R> {
    type V = Seq<R>;

    closed spec fn view(&self) -> Seq<R> {
        self.renderers@
    }
}

impl<R> RenderChain<R> {
    pub fn new() -> (chain: Self)
        ensures
            chain@ == Seq::<R>::empty(),
    {
        RenderChain { renderers: Vec::new() }
    }

    /// Puts `renderer` behind those already in the chain.
    pub fn add(&mut self, renderer: R)
        ensures
            final(self)@ == old(self)@.push(renderer),
    {
        self.renderers.push(renderer);
    }

    pub fn len(&self) -> (n: usize)
        ensures
            n == self@.len(),
    {
        self.renderers.len()
    }

    /// Runs every renderer once, in the order in which they were added.
    pub fn render<Scr, Scn>(&mut self, screen: &mut Scr, scene: &Scn) where R: Draw<Scr, Scn>
        ensures
            (final(self)@, *final(screen)) == draw_all(old(self)@, *old(screen), scene),
    {
        let n = self.renderers.len();
        let mut i: usize = 0;
        while i < n
            invariant
                i <= n,
                n == old(self)@.len(),
                self@.len() == n,
                self@.skip(i as int) == old(self)@.skip(i as int),
                (self@.take(i as int), *screen) == draw_all(
                    old(self)@.take(i as int),
                    *old(screen),
                    scene,
                ),
            decreases n - i,
        {
            let ghost before = self@;
            self.renderers[i].draw(screen, scene);
            proof {
                lemma_entry_done(old(self)@, before, self@, i as int);
            }
            i += 1;
        }
        proof {
            assert(self@.take(n as int) == self@);
            assert(old(self)@.take(n as int) == old(self)@);
        }
    }
}

/// Registration order is kept: where each renderer puts one mark of its own
/// at the end of a log that the screen carries, one run of the chain leaves
/// the marks at the end of the log in the order in which the renderers were
/// added.
pub proof fn lemma_draw_order<Scr, Scn, R: Draw<Scr, Scn>, M>(
    renderers: Seq<R>,
    screen: Scr,
    scene: &Scn,
    log: spec_fn(Scr) -> Seq<M>,
    marks: Seq<M>,
)
    requires
        marks.len() == renderers.len(),
        forall|i: int, s: Scr|
            0 <= i < renderers.len() ==> log((#[trigger] renderers[i].drawn(s, scene)).1) == log(
                s,
            ).push(marks[i]),
    ensures
        log(draw_all(renderers, screen, scene).1) == log(screen) + marks,
    decreases renderers.len(),
{
    if renderers.len() == 0 {
        assert(log(screen) + marks == log(screen));
    } else {
        let n = renderers.len() - 1;
        lemma_draw_order(renderers.drop_last(), screen, scene, log, marks.drop_last());
        let (earlier, s) = draw_all(renderers.drop_last(), screen, scene);
        assert(renderers.last() == renderers[n]);
        assert(log(renderers[n].drawn(s, scene).1) == log(s).push(marks[n]));
        assert((log(screen) + marks.drop_last()).push(marks[n]) == log(screen) + marks);
    }
}

/// A chain runs each of its renderers, none more than once: the chain that
/// comes out is as long as the one that went in.
pub proof fn lemma_draw_keeps_length<Scr, Scn, R: Draw<Scr, Scn>>(
    renderers: Seq<R>,
    screen: Scr,
    scene: &Scn,
)
    ensures
        draw_all(renderers, screen, scene).0.len() == renderers.len(),
    decreases renderers.len(),
{
    if renderers.len() > 0 {
        lemma_draw_keeps_length(renderers.drop_last(), screen, scene);
    }
}

} // verus!
