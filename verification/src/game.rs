//! The application: one backend, the updaters and the renderers.

use vstd::prelude::*;
use std::marker::PhantomData;
use crate::backend::Backend;
use crate::graphics::RenderChain;
use crate::logic::UpdateChain;

verus! {

/// The state that updaters change and renderers present.
pub trait Scene: Sized {
    /// Whether the simulation is still going on. Unless a scene says
    /// otherwise, it is.
    fn alive(&self) -> (alive: bool)
        default_ensures
            alive,
    {
        true
    }
}

/// A backend together with the updaters and renderers that it will run.
pub struct Game<Bk, Scn> where Bk: Backend<Scn>, Scn: Scene {
    backend: Bk,
    updaters: UpdateChain<Bk::Updater>,
    renderers: RenderChain<Bk::Renderer>,
    phantom: PhantomData<Scn>,
}

impl<Bk, Scn> Game<Bk, Scn> where Bk: Backend<Scn>, Scn: Scene {
    pub closed spec fn backend(&self) -> Bk {
        self.backend
    }

    /// The updaters registered so far, first to last.
    pub closed spec fn updaters(&self) -> Seq<Bk::Updater> {
        self.updaters@
    }

    /// The renderers registered so far, first to last.
    pub closed spec fn renderers(&self) -> Seq<Bk::Renderer> {
        self.renderers@
    }

    pub fn new(backend: Bk) -> (game: Self)
        ensures
            game.backend() == backend,
            game.updaters() == Seq::<Bk::Updater>::empty(),
            game.renderers() == Seq::<Bk::Renderer>::empty(),
    {
        Game {
            backend,
            updaters: UpdateChain::new(),
            renderers: RenderChain::new(),
            phantom: PhantomData,
        }
    }

    /// Registers `updater` behind the updaters registered so far.
    pub fn with_updater(self, updater: Bk::Updater) -> (game: Self)
        ensures
            game.backend() == self.backend(),
            game.updaters() == self.updaters().push(updater),
            game.renderers() == self.renderers(),
    {
        let mut game = self;
        game.updaters.add(updater);
        game
    }

    /// Registers `renderer` behind the renderers registered so far.
    pub fn with_renderer(self, renderer: Bk::Renderer) -> (game: Self)
        ensures
            game.backend() == self.backend(),
            game.updaters() == self.updaters(),
            game.renderers() == self.renderers().push(renderer),
    {
        let mut game = self;
        game.renderers.add(renderer);
        game
    }

    /// Hands both chains and `scene` to the backend and gives back the scene
    /// that the backend's loop ends with.
    pub fn run(self, scene: Scn) -> (last: Scn)
        requires
            self.backend().halts(self.updaters(), self.renderers(), scene),
        ensures
            self.backend().ends_with(self.updaters(), self.renderers(), scene, last),
    {
        let Game { backend, updaters, renderers, .. } = self;
        backend.run(updaters, renderers, scene)
    }
}

} // verus!
