//! Backends: the owners of the loop, and a headless one that runs it on
//! nothing but the chains and the scene.

use vstd::prelude::*;
use std::marker::PhantomData;
use crate::entries::lemma_entry_done;
use crate::game::Scene;
use crate::graphics::{draw_all, Draw, RenderChain};
use crate::logic::{update_all, Update, UpdateChain};

verus! {

/// The owner of the loop. It decides what the updaters are handed as their
/// context and the renderers as their screen, which updaters and renderers it
/// runs, and it holds the request to stop.
pub trait Backend<Scn: Scene>: Sized {
    /// What updaters work against.
    type Context;

    /// What renderers draw on.
    type Screen;

    /// The updaters that this backend runs.
    type Updater: Update<Self::Context, Scn>;

    /// The renderers that this backend runs.
    type Renderer: Draw<Self::Screen, Scn>;

    /// Whether the loop, started on these chains and this scene, comes to
    /// an end.
    spec fn halts(
        self,
        updaters: Seq<Self::Updater>,
        renderers: Seq<Self::Renderer>,
        scene: Scn,
    ) -> bool;

    /// Whether `last` is a scene that the loop, started on these chains and
    /// this scene, may end with.
    spec fn ends_with(
        self,
        updaters: Seq<Self::Updater>,
        renderers: Seq<Self::Renderer>,
        scene: Scn,
        last: Scn,
    ) -> bool;

    /// Whether a stop has been requested.
    spec fn quit_requested(&self) -> bool;

    /// Runs the loop until a stop is requested and hands back the scene as
    /// the last update left it.
    fn run(
        self,
        updaters: UpdateChain<Self::Updater>,
        renderers: RenderChain<Self::Renderer>,
        scene: Scn,
    ) -> (last: Scn)
        requires
            self.halts(updaters@, renderers@, scene),
        ensures
            self.ends_with(updaters@, renderers@, scene, last),
    ;

    /// Requests a stop. Nothing else changes, so a second request changes
    /// nothing at all.
    fn quit(&mut self)
        ensures
            final(self).quit_requested(),
            old(self).quit_requested() ==> *final(self) == *old(self),
    ;
}

/// What the headless backend hands to its updaters: the request to stop,
/// which any of them can make.
pub struct NullContext {
    must_quit: bool,
}

impl NullContext {
    /// Whether a stop has been requested.
    pub closed spec fn stopping(&self) -> bool {
        self.must_quit
    }

    /// This context with a stop requested.
    pub closed spec fn quitted(self) -> Self {
        NullContext { must_quit: true }
    }

    /// A context in which no stop has been requested. Only a backend makes
    /// one: an updater has no other context to put in the place of the one
    /// that it is handed.
    fn new() -> (context: Self)
        ensures
            !context.stopping(),
    {
        NullContext { must_quit: false }
    }

    /// Requests a stop.
    pub fn quit(&mut self)
        ensures
            *final(self) == old(self).quitted(),
            final(self).stopping(),
    {
        self.must_quit = true;
    }

    /// Whether a stop has been requested.
    pub fn must_quit(&self) -> (stopping: bool)
        ensures
            stopping == self.stopping(),
    {
        self.must_quit
    }
}

/// A backend without window, input or output. Updaters are handed a
/// [`NullContext`], renderers the unit screen. A stop that an updater has
/// requested is held to the end of the update phase: every updater behind
/// still runs, none of them can take the request back, and no render phase
/// follows.
pub struct NullBackend<Scn, U, R> {
    context: NullContext,
    _data: Option<Scn>,
    _chains: PhantomData<(U, R)>,
}

/// The context as an updater leaves it, seen by the loop: a stop that was
/// requested before the updater ran is requested after it, whatever the
/// updater made of the context.
pub open spec fn keep_stop(before: NullContext, left: NullContext) -> NullContext {
    if before.stopping() {
        left.quitted()
    } else {
        left
    }
}

/// What one update phase of the headless backend makes of the updaters, the
/// context and the scene. Every updater runs once, first to last, each on
/// what the one before it left; a stop requested by the time an updater is
/// done stays requested for the rest of the phase.
pub open spec fn update_phase<Scn, U: Update<NullContext, Scn>>(
    updaters: Seq<U>,
    context: NullContext,
    scene: Scn,
) -> (Seq<U>, NullContext, Scn)
    decreases updaters.len(),
{
    if updaters.len() == 0 {
        (updaters, context, scene)
    } else {
        let (earlier, c, s) = update_phase(updaters.drop_last(), context, scene);
        let (last, left, s) = updaters.last().updated(c, s);
        (earlier.push(last), keep_stop(c, left), s)
    }
}

/// Two updaters, of one kind or of two, run as one, as a phase of the loop
/// would run them: the first, and then the second on what the first left,
/// with a stop that is requested before either of them still requested after
/// it.
impl<Scn, A: Update<NullContext, Scn>, B: Update<NullContext, Scn>> Update<NullContext, Scn> for (
    A,
    B,
) {
    open spec fn updated(self, context: NullContext, scene: Scn) -> (Self, NullContext, Scn) {
        let (first, left, s) = self.0.updated(context, scene);
        let c = keep_stop(context, left);
        let (second, left, s) = self.1.updated(c, s);
        ((first, second), keep_stop(c, left), s)
    }

    fn update(&mut self, context: &mut NullContext, scene: &mut Scn) {
        let stopping = context.must_quit();
        self.0.update(context, scene);
        if stopping {
            context.quit();
        }
        let stopping = context.must_quit();
        self.1.update(context, scene);
        if stopping {
            context.quit();
        }
    }
}

/// Runs one update phase on the chain: every updater once, first to last,
/// with the stop requested again after an updater that found it requested
/// and left it dropped.
fn run_update_phase<Scn, U: Update<NullContext, Scn>>(
    updaters: &mut UpdateChain<U>,
    context: &mut NullContext,
    scene: &mut Scn,
)
    ensures
        (final(updaters)@, *final(context), *final(scene)) == update_phase(
            old(updaters)@,
            *old(context),
            *old(scene),
        ),
{
    let n = updaters.len();
    let mut i: usize = 0;
    while i < n
        invariant
            i <= n,
            n == old(updaters)@.len(),
            updaters@.len() == n,
            updaters@.skip(i as int) == old(updaters)@.skip(i as int),
            (updaters@.take(i as int), *context, *scene) == update_phase(
                old(updaters)@.take(i as int),
                *old(context),
                *old(scene),
            ),
        decreases n - i,
    {
        let ghost before = updaters@;
        let stopping = context.must_quit();
        updaters.update_at(i, context, scene);
        if stopping {
            context.quit();
        }
        proof {
            lemma_entry_done(old(updaters)@, before, updaters@, i as int);
        }
        i += 1;
    }
    proof {
        assert(updaters@.take(n as int) == updaters@);
        assert(old(updaters)@.take(n as int) == old(updaters)@);
    }
}

/// The loop of the headless backend between two phases: the context, both
/// chains and the scene.
pub struct Loop<Scn, U, R> {
    pub context: NullContext,
    pub updaters: Seq<U>,
    pub renderers: Seq<R>,
    pub scene: Scn,
}

impl<Scn, U: Update<NullContext, Scn>, R: Draw<(), Scn>> Loop<Scn, U, R> {
    /// The loop after one update phase: every updater has run once, and a
    /// stop requested in the phase is still requested.
    pub open spec fn after_updates(self) -> Self {
        let (updaters, context, scene) = update_phase(self.updaters, self.context, self.scene);
        Loop { context, updaters, renderers: self.renderers, scene }
    }

    /// Whether the updater at `index` asks for a stop in the update phase
    /// that starts from here: whether the context that it leaves, run on
    /// what the updaters before it left, has a stop requested.
    pub open spec fn asks_to_stop(self, index: int) -> bool {
        let (earlier, c, s) = update_phase(self.updaters.take(index), self.context, self.scene);
        self.updaters[index].updated(c, s).1.stopping()
    }

    /// The loop after one render phase: every renderer has run once, on the
    /// scene as it stands.
    pub open spec fn after_renders(self) -> Self {
        let (renderers, screen) = draw_all(self.renderers, (), &self.scene);
        Loop { context: self.context, updaters: self.updaters, renderers, scene: self.scene }
    }

    /// The loop after `turns` full turns, each an update phase and then a
    /// render phase.
    pub open spec fn after_turns(self, turns: nat) -> Self
        decreases turns,
    {
        if turns == 0 {
            self
        } else {
            self.after_turns((turns - 1) as nat).after_updates().after_renders()
        }
    }

    /// Whether the update phase that follows `turns` full turns leaves a
    /// stop requested.
    pub open spec fn quits_after(self, turns: nat) -> bool {
        self.after_turns(turns).after_updates().context.stopping()
    }

    /// Whether the first update phase to leave a stop requested is the one
    /// that follows `turns` full turns.
    pub open spec fn first_quits_after(self, turns: nat) -> bool {
        &&& self.quits_after(turns)
        &&& forall|earlier: nat| earlier < turns ==> !#[trigger] self.quits_after(earlier)
    }

    /// Whether the loop comes to an end: a stop is requested before it
    /// starts, or some update phase leaves one requested.
    pub open spec fn halts(self) -> bool {
        self.context.stopping() || exists|turns: nat| self.quits_after(turns)
    }

    /// The number of full turns that the loop makes.
    pub open spec fn turns(self) -> nat {
        if self.context.stopping() {
            0
        } else {
            choose|turns: nat| self.first_quits_after(turns)
        }
    }

    /// The loop as it ends. With a stop requested from the start nothing
    /// runs. Otherwise the loop makes its full turns and one more update
    /// phase, the first to leave a stop requested; no render phase follows
    /// that one.
    pub open spec fn finished(self) -> Self {
        if self.context.stopping() {
            self
        } else {
            self.after_turns(self.turns()).after_updates()
        }
    }
}

impl<Scn, U, R> NullBackend<Scn, U, R> {
    /// What this backend hands to its updaters.
    pub closed spec fn context(&self) -> NullContext {
        self.context
    }

    pub fn new() -> (backend: Self)
        ensures
            !backend.context().stopping(),
    {
        NullBackend { context: NullContext::new(), _data: None, _chains: PhantomData }
    }
}

impl<Scn, U: Update<NullContext, Scn>, R: Draw<(), Scn>> NullBackend<Scn, U, R> {
    /// The loop that this backend runs on the given chains and scene, before
    /// its first phase.
    pub open spec fn start(self, updaters: Seq<U>, renderers: Seq<R>, scene: Scn) -> Loop<
        Scn,
        U,
        R,
    > {
        Loop { context: self.context(), updaters, renderers, scene }
    }

    /// Runs the loop and hands back all of it as it ends: while no stop is
    /// requested, one update phase, and one render phase unless a stop was
    /// requested in the update phase. A stop, once an updater has requested
    /// it, is held for the rest of the phase: the loop requests it again
    /// after an updater that dropped it.
    pub fn run_loop(self, updaters: UpdateChain<U>, renderers: RenderChain<R>, scene: Scn) -> (end:
        (NullContext, UpdateChain<U>, RenderChain<R>, Scn))
        requires
            self.start(updaters@, renderers@, scene).halts(),
        ensures
            (Loop { context: end.0, updaters: end.1@, renderers: end.2@, scene: end.3 })
                == self.start(updaters@, renderers@, scene).finished(),
            end.0.stopping(),
    {
        let ghost start = self.start(updaters@, renderers@, scene);
        let ghost total = start.turns();
        let ghost mut done: nat = 0;
        let mut context = self.context;
        let mut running = updaters;
        let mut drawing = renderers;
        let mut current = scene;
        let mut screen = ();
        proof {
            if !start.context.stopping() {
                lemma_first_quit_exists(start, choose|turns: nat| start.quits_after(turns));
            }
        }
        while !context.must_quit
            invariant
                start == self.start(updaters@, renderers@, scene),
                done <= total,
                total == start.turns(),
                !start.context.stopping() ==> start.first_quits_after(total),
                done > 0 ==> !context.must_quit && !start.context.stopping(),
                (Loop { context, updaters: running@, renderers: drawing@, scene: current })
                    == start.after_turns(done),
            decreases total - done,
        {
            let ghost turn = start.after_turns(done);
            assert(!start.context.stopping());
            run_update_phase(&mut running, &mut context, &mut current);
            assert((Loop { context, updaters: running@, renderers: drawing@, scene: current })
                == turn.after_updates());
            if context.must_quit {
                assert(start.quits_after(done));
                return (context, running, drawing, current);
            }
            assert(!start.quits_after(done));
            drawing.render(&mut screen, &current);
            proof {
                done = done + 1;
                assert((Loop { context, updaters: running@, renderers: drawing@, scene: current })
                    == turn.after_updates().after_renders());
            }
        }
        (context, running, drawing, current)
    }
}

impl<Scn: Scene, U: Update<NullContext, Scn>, R: Draw<(), Scn>> Backend<Scn> for NullBackend<
    Scn,
    U,
    R,
> {
    type Context = NullContext;

    type Screen = ();

    type Updater = U;

    type Renderer = R;

    open spec fn halts(self, updaters: Seq<U>, renderers: Seq<R>, scene: Scn) -> bool {
        self.start(updaters, renderers, scene).halts()
    }

    open spec fn ends_with(self, updaters: Seq<U>, renderers: Seq<R>, scene: Scn, last: Scn) -> bool {
        last == self.start(updaters, renderers, scene).finished().scene
    }

    open spec fn quit_requested(&self) -> bool {
        self.context().stopping()
    }

    /// Runs the loop as [`NullBackend::run_loop`] does and hands back the
    /// scene. Both chains end with the run; what the loop left them as is
    /// what `run_loop` hands back.
    fn run(self, updaters: UpdateChain<U>, renderers: RenderChain<R>, scene: Scn) -> (last: Scn) {
        let end = self.run_loop(updaters, renderers, scene);
        end.3
    }

    fn quit(&mut self)
        ensures
            final(self).context() == old(self).context().quitted(),
    {
        self.context.quit();
    }
}

/// Where some update phase leaves a stop requested, one of them is the first
/// to do so.
proof fn lemma_first_quit_exists<Scn, U: Update<NullContext, Scn>, R: Draw<(), Scn>>(
    start: Loop<Scn, U, R>,
    turns: nat,
)
    requires
        start.quits_after(turns),
    ensures
        exists|first: nat| start.first_quits_after(first),
        start.context.stopping() || start.first_quits_after(start.turns()),
    decreases turns,
{
    if exists|earlier: nat| earlier < turns && start.quits_after(earlier) {
        let earlier = choose|earlier: nat| earlier < turns && start.quits_after(earlier);
        lemma_first_quit_exists(start, earlier);
    } else {
        assert(start.first_quits_after(turns));
    }
}

/// The count of full turns is exact: a loop that no stop keeps from starting
/// and whose first stop is left by the update phase after `turns` full turns
/// makes `turns` full turns.
pub proof fn lemma_turns<Scn, U: Update<NullContext, Scn>, R: Draw<(), Scn>>(
    start: Loop<Scn, U, R>,
    turns: nat,
)
    requires
        !start.context.stopping(),
        start.first_quits_after(turns),
    ensures
        start.halts(),
        start.turns() == turns,
        start.finished() == start.after_turns(turns).after_updates(),
{
    let chosen = start.turns();
    assert(start.first_quits_after(chosen));
    if chosen < turns {
        assert(!start.quits_after(chosen));
    } else if turns < chosen {
        assert(!start.quits_after(turns));
    }
}

/// Within one turn the render phase comes after the whole update phase:
/// every renderer is shown the scene as the last updater left it, and the
/// render phase changes neither the scene, nor the updaters, nor the context.
pub proof fn lemma_render_follows_update<Scn, U: Update<NullContext, Scn>, R: Draw<(), Scn>>(
    start: Loop<Scn, U, R>,
)
    ensures
        start.after_turns(1) == start.after_updates().after_renders(),
        start.after_turns(1).renderers == draw_all(
            start.renderers,
            (),
            &update_phase(start.updaters, start.context, start.scene).2,
        ).0,
        start.after_turns(1).updaters == update_phase(start.updaters, start.context, start.scene).0,
        start.after_turns(1).context == update_phase(start.updaters, start.context, start.scene).1,
        start.after_turns(1).scene == update_phase(start.updaters, start.context, start.scene).2,
{
    assert(start.after_turns(0) == start);
}

/// A stop stays requested to the end of the phase: where a stop is requested
/// once the first `done` updaters of a phase have run, it is requested when
/// all of them have, whatever the updaters behind do to the context.
pub proof fn lemma_stop_stays<Scn, U: Update<NullContext, Scn>>(
    updaters: Seq<U>,
    context: NullContext,
    scene: Scn,
    done: int,
)
    requires
        0 <= done <= updaters.len(),
        update_phase(updaters.take(done), context, scene).1.stopping(),
    ensures
        update_phase(updaters, context, scene).1.stopping(),
    decreases updaters.len(),
{
    if done == updaters.len() {
        assert(updaters.take(done) == updaters);
    } else {
        assert(updaters.drop_last().take(done) == updaters.take(done));
        lemma_stop_stays(updaters.drop_last(), context, scene, done);
    }
}

/// A phase in which an updater asks for a stop ends with the stop requested:
/// the updaters behind it still run, and whether they ask again, leave the
/// request alone or drop it changes nothing.
pub proof fn lemma_request_ends_phase<Scn, U: Update<NullContext, Scn>, R: Draw<(), Scn>>(
    turn: Loop<Scn, U, R>,
    index: int,
)
    requires
        0 <= index < turn.updaters.len(),
        turn.asks_to_stop(index),
    ensures
        turn.after_updates().context.stopping(),
        turn.after_updates().updaters.len() == turn.updaters.len(),
{
    let asked = turn.updaters.take(index + 1);
    assert(asked.drop_last() == turn.updaters.take(index));
    assert(asked.last() == turn.updaters[index]);
    lemma_stop_stays(turn.updaters, turn.context, turn.scene, index + 1);
    lemma_phase_keeps_length(turn.updaters, turn.context, turn.scene);
}

/// A pair runs as the phase of its two updaters does, so a stop that the
/// first of them asks for is requested when the pair is done, whatever the
/// second does.
pub proof fn lemma_pair_is_phase<Scn, A: Update<NullContext, Scn>, B: Update<NullContext, Scn>>(
    pair: (A, B),
    context: NullContext,
    scene: Scn,
)
    ensures
        pair.0.updated(context, scene).1.stopping() ==> pair.updated(context, scene).1.stopping(),
        context.stopping() ==> pair.updated(context, scene).1.stopping(),
        pair.updated(context, scene).2 == pair.1.updated(
            keep_stop(context, pair.0.updated(context, scene).1),
            pair.0.updated(context, scene).2,
        ).2,
{
}

/// A phase runs each updater of the chain, none more than once: the chain
/// that comes out is as long as the one that went in.
pub proof fn lemma_phase_keeps_length<Scn, U: Update<NullContext, Scn>>(
    updaters: Seq<U>,
    context: NullContext,
    scene: Scn,
)
    ensures
        update_phase(updaters, context, scene).0.len() == updaters.len(),
    decreases updaters.len(),
{
    if updaters.len() > 0 {
        lemma_phase_keeps_length(updaters.drop_last(), context, scene);
    }
}

/// With updaters that leave a requested stop requested, a phase of the loop
/// is one run of the chain.
pub proof fn lemma_phase_is_chain_run<Scn, U: Update<NullContext, Scn>>(
    updaters: Seq<U>,
    context: NullContext,
    scene: Scn,
)
    requires
        forall|i: int, c: NullContext, s: Scn|
            0 <= i < updaters.len() && c.stopping() ==> (#[trigger] updaters[i].updated(
                c,
                s,
            )).1.stopping(),
    ensures
        update_phase(updaters, context, scene) == update_all(updaters, context, scene),
    decreases updaters.len(),
{
    if updaters.len() > 0 {
        let n = updaters.len() - 1;
        assert forall|i: int, c: NullContext, s: Scn|
            0 <= i < updaters.drop_last().len() && c.stopping() implies (
        #[trigger] updaters.drop_last()[i].updated(c, s)).1.stopping() by {
            assert(updaters.drop_last()[i] == updaters[i]);
        }
        lemma_phase_is_chain_run(updaters.drop_last(), context, scene);
        let (earlier, c, s) = update_phase(updaters.drop_last(), context, scene);
        assert(updaters.last() == updaters[n]);
        assert(c.stopping() ==> updaters[n].updated(c, s).1.stopping());
    }
}

/// Registration order is kept in every phase of the loop: where each updater
/// puts one mark of its own at the end of a log that the scene carries, a
/// phase leaves the marks at the end of the log in the order in which the
/// updaters were added.
pub proof fn lemma_phase_order<Scn, U: Update<NullContext, Scn>, M>(
    updaters: Seq<U>,
    context: NullContext,
    scene: Scn,
    log: spec_fn(Scn) -> Seq<M>,
    marks: Seq<M>,
)
    requires
        marks.len() == updaters.len(),
        forall|i: int, c: NullContext, s: Scn|
            0 <= i < updaters.len() ==> log((#[trigger] updaters[i].updated(c, s)).2) == log(
                s,
            ).push(marks[i]),
    ensures
        log(update_phase(updaters, context, scene).2) == log(scene) + marks,
    decreases updaters.len(),
{
    if updaters.len() == 0 {
        assert(log(scene) + marks == log(scene));
    } else {
        let n = updaters.len() - 1;
        lemma_phase_order(updaters.drop_last(), context, scene, log, marks.drop_last());
        let (earlier, c, s) = update_phase(updaters.drop_last(), context, scene);
        assert(updaters.last() == updaters[n]);
        assert(log(updaters[n].updated(c, s).2) == log(s).push(marks[n]));
        assert((log(scene) + marks.drop_last()).push(marks[n]) == log(scene) + marks);
    }
}

/// A stop requested during an update phase ends the loop before the render
/// phase of that turn. Where no stop is requested before the loop starts
/// nor in the update phases of its first `turns` turns, and some updater asks
/// for a stop in the update phase that follows them, the loop makes `turns`
/// full turns and that one update phase more. It ends with the scene, the
/// updaters and the context as that phase left them, every updater of the
/// chain having run in it, and with the renderers as the last full turn left
/// them.
pub proof fn lemma_quit_skips_render<Scn, U: Update<NullContext, Scn>, R: Draw<(), Scn>>(
    start: Loop<Scn, U, R>,
    turns: nat,
    index: int,
)
    requires
        !start.context.stopping(),
        forall|earlier: nat| earlier < turns ==> !#[trigger] start.quits_after(earlier),
        0 <= index < start.after_turns(turns).updaters.len(),
        start.after_turns(turns).asks_to_stop(index),
    ensures
        start.halts(),
        start.turns() == turns,
        start.finished() == start.after_turns(turns).after_updates(),
        start.finished().context.stopping(),
        start.finished().renderers == start.after_turns(turns).renderers,
        (start.finished().updaters, start.finished().context, start.finished().scene)
            == update_phase(
            start.after_turns(turns).updaters,
            start.after_turns(turns).context,
            start.after_turns(turns).scene,
        ),
{
    lemma_request_ends_phase(start.after_turns(turns), index);
    assert(start.quits_after(turns));
    lemma_turns(start, turns);
}

/// A stop that is requested in a turn was asked for by one of the updaters:
/// where no stop is requested when an update phase starts and one is when it
/// ends, some updater of the chain asked for it.
pub proof fn lemma_stop_was_asked_for<Scn, U: Update<NullContext, Scn>, R: Draw<(), Scn>>(
    turn: Loop<Scn, U, R>,
)
    requires
        !turn.context.stopping(),
        turn.after_updates().context.stopping(),
    ensures
        exists|index: int| 0 <= index < turn.updaters.len() && turn.asks_to_stop(index),
    decreases turn.updaters.len(),
{
    let updaters = turn.updaters;
    if updaters.len() > 0 {
        let n = updaters.len() - 1;
        let (earlier, c, s) = update_phase(updaters.drop_last(), turn.context, turn.scene);
        assert(updaters.take(n) == updaters.drop_last());
        assert(updaters.last() == updaters[n]);
        if c.stopping() {
            let shorter = Loop {
                context: turn.context,
                updaters: updaters.drop_last(),
                renderers: turn.renderers,
                scene: turn.scene,
            };
            lemma_stop_was_asked_for(shorter);
            let index = choose|index: int| 0 <= index < shorter.updaters.len() && shorter.asks_to_stop(
                index,
            );
            assert(shorter.updaters.take(index) == updaters.take(index));
            assert(shorter.updaters[index] == updaters[index]);
            assert(turn.asks_to_stop(index));
        } else {
            assert(turn.asks_to_stop(n));
        }
    }
}

/// Whether updaters that `alike` pairs answer alike: handed the same context
/// and scene they leave the same context and the same scene, and are paired
/// again afterwards.
pub open spec fn act_alike<Scn, U: Update<NullContext, Scn>>(alike: spec_fn(U, U) -> bool) -> bool {
    forall|a: U, b: U, c: NullContext, s: Scn|
        #![trigger a.updated(c, s), b.updated(c, s)]
        alike(a, b) ==> {
            &&& a.updated(c, s).1 == b.updated(c, s).1
            &&& a.updated(c, s).2 == b.updated(c, s).2
            &&& alike(a.updated(c, s).0, b.updated(c, s).0)
        }
}

/// Whether two chains are of one length and `alike` pairs their updaters,
/// place for place.
pub open spec fn chains_alike<U>(a: Seq<U>, b: Seq<U>, alike: spec_fn(U, U) -> bool) -> bool {
    &&& a.len() == b.len()
    &&& forall|i: int| 0 <= i < a.len() ==> alike(#[trigger] a[i], b[i])
}

impl<Scn, U: Update<NullContext, Scn>, R: Draw<(), Scn>> Loop<Scn, U, R> {
    /// Whether two loops stand alike: the same context, scene and renderers,
    /// and chains that `alike` pairs.
    pub open spec fn stands_as(self, other: Self, alike: spec_fn(U, U) -> bool) -> bool {
        &&& self.context == other.context
        &&& self.scene == other.scene
        &&& self.renderers == other.renderers
        &&& chains_alike(self.updaters, other.updaters, alike)
    }
}

/// Chains that are alike make the same phase: they leave the same context
/// and the same scene, and are alike again.
pub proof fn lemma_phases_alike<Scn, U: Update<NullContext, Scn>>(
    a: Seq<U>,
    b: Seq<U>,
    alike: spec_fn(U, U) -> bool,
    context: NullContext,
    scene: Scn,
)
    requires
        act_alike::<Scn, U>(alike),
        chains_alike(a, b, alike),
    ensures
        update_phase(a, context, scene).1 == update_phase(b, context, scene).1,
        update_phase(a, context, scene).2 == update_phase(b, context, scene).2,
        chains_alike(update_phase(a, context, scene).0, update_phase(b, context, scene).0, alike),
    decreases a.len(),
{
    if a.len() > 0 {
        let n = a.len() - 1;
        assert forall|i: int| 0 <= i < a.drop_last().len() implies alike(
            #[trigger] a.drop_last()[i],
            b.drop_last()[i],
        ) by {
            assert(alike(a[i], b[i]));
        }
        lemma_phases_alike(a.drop_last(), b.drop_last(), alike, context, scene);
        lemma_phase_keeps_length(a.drop_last(), context, scene);
        lemma_phase_keeps_length(b.drop_last(), context, scene);
        let (done_a, c, s) = update_phase(a.drop_last(), context, scene);
        let (done_b, _, _) = update_phase(b.drop_last(), context, scene);
        assert(alike(a[n], b[n]));
        assert(a.last() == a[n] && b.last() == b[n]);
        let last_a = a[n].updated(c, s);
        let last_b = b[n].updated(c, s);
        assert(alike(last_a.0, last_b.0));
        let out_a = update_phase(a, context, scene).0;
        let out_b = update_phase(b, context, scene).0;
        assert(out_a == done_a.push(last_a.0));
        assert(out_b == done_b.push(last_b.0));
        assert forall|i: int| 0 <= i < out_a.len() implies alike(#[trigger] out_a[i], out_b[i]) by {
            if i < n {
                assert(alike(done_a[i], done_b[i]));
            }
        }
    }
}

/// Loops that stand alike stand alike after any number of full turns.
pub proof fn lemma_turns_alike<Scn, U: Update<NullContext, Scn>, R: Draw<(), Scn>>(
    a: Loop<Scn, U, R>,
    b: Loop<Scn, U, R>,
    alike: spec_fn(U, U) -> bool,
    turns: nat,
)
    requires
        act_alike::<Scn, U>(alike),
        a.stands_as(b, alike),
    ensures
        a.after_turns(turns).stands_as(b.after_turns(turns), alike),
        a.after_turns(turns).after_updates().stands_as(b.after_turns(turns).after_updates(), alike),
        a.quits_after(turns) == b.quits_after(turns),
    decreases turns,
{
    if turns > 0 {
        lemma_turns_alike(a, b, alike, (turns - 1) as nat);
    }
    let x = a.after_turns(turns);
    let y = b.after_turns(turns);
    lemma_phases_alike(x.updaters, y.updaters, alike, x.context, x.scene);
}

/// Two requests act as one, and so do any updaters that answer alike: loops
/// that stand alike at the start make the same run. If one comes to an end,
/// so does the other, after as many full turns, with the same scene, the same
/// context and the same renderers. Updaters that differ only in asking for a
/// stop once or more than once answer alike, since a second request leaves a
/// context as the first did.
pub proof fn lemma_runs_alike<Scn, U: Update<NullContext, Scn>, R: Draw<(), Scn>>(
    a: Loop<Scn, U, R>,
    b: Loop<Scn, U, R>,
    alike: spec_fn(U, U) -> bool,
)
    requires
        act_alike::<Scn, U>(alike),
        a.stands_as(b, alike),
        a.halts(),
    ensures
        b.halts(),
        a.turns() == b.turns(),
        a.finished().stands_as(b.finished(), alike),
{
    if !a.context.stopping() {
        lemma_first_quit_exists(a, choose|turns: nat| a.quits_after(turns));
        let n = a.turns();
        assert forall|earlier: nat| earlier < n implies !#[trigger] b.quits_after(earlier) by {
            lemma_turns_alike(a, b, alike, earlier);
            assert(!a.quits_after(earlier));
        }
        lemma_turns_alike(a, b, alike, n);
        assert(b.first_quits_after(n));
        lemma_turns(b, n);
        lemma_turns(a, n);
    }
}

/// A loop that ends has run its render phase once for each full turn and
/// its update phase once more than that; a stop stays requested once it is.
pub proof fn lemma_finished<Scn, U: Update<NullContext, Scn>, R: Draw<(), Scn>>(
    start: Loop<Scn, U, R>,
)
    requires
        start.halts(),
    ensures
        start.finished().context.stopping(),
        start.context.stopping() ==> start.finished() == start,
        !start.context.stopping() ==> start.finished().renderers == start.after_turns(
            start.turns(),
        ).renderers,
{
    if !start.context.stopping() {
        lemma_first_quit_exists(start, choose|turns: nat| start.quits_after(turns));
    }
}

/// A context is its request and nothing else: two contexts that agree on
/// whether a stop is requested are the same context.
pub proof fn lemma_context_is_its_request(a: NullContext, b: NullContext)
    requires
        a.stopping() == b.stopping(),
    ensures
        a == b,
{
}

/// A context with a stop requested is stopping, and a second request leaves
/// it as the first did.
pub proof fn lemma_quit_idempotent(context: NullContext)
    ensures
        context.quitted().stopping(),
        context.quitted().quitted() == context.quitted(),
        context.stopping() ==> context.quitted() == context,
{
}

} // verus!
