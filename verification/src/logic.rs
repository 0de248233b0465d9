//! Updaters: the steps that advance a scene, and the chain that runs them in
//! the order in which they were registered.

use vstd::prelude::*;
use crate::entries::lemma_entry_done;

verus! {

/// A step of the simulation. It may change itself, the execution context and
/// the scene, and what it does is a function of those three alone.
pub trait Update<Ctx, Scn>: Sized {
    /// What one call makes of the updater, the context and the scene.
    spec fn updated(self, context: Ctx, scene: Scn) -> (Self, Ctx, Scn);

    fn update(&mut self, context: &mut Ctx, scene: &mut Scn)
        ensures
            (*final(self), *final(context), *final(scene)) == old(self).updated(
                *old(context),
                *old(scene),
            ),
    ;
}

/// What running every updater of `updaters` once, first to last, makes of
/// the updaters, the context and the scene. Each one is handed what the one
/// before it left.
pub open spec fn update_all<Ctx, Scn, U: Update<Ctx, Scn>>(
    updaters: Seq<U>,
    context: Ctx,
    scene: Scn,
) -> (Seq<U>, Ctx, Scn)
    decreases updaters.len(),
{
    if updaters.len() == 0 {
        (updaters, context, scene)
    } else {
        let (earlier, c, s) = update_all(updaters.drop_last(), context, scene);
        let (last, c, s) = updaters.last().updated(c, s);
        (earlier.push(last), c, s)
    }
}

/// Updaters in the order in which they were added.
pub struct UpdateChain<U> {
    updaters: Vec<U>,
}

impl<U> View for UpdateChain<U> {
    type V = Seq<U>;

    closed spec fn view(&self) -> Seq<U> {
        self.updaters@
    }
}

impl<U> UpdateChain<U> {
    pub fn new() -> (chain: Self)
        ensures
            chain@ == Seq::<U>::empty(),
    {
        UpdateChain { updaters: Vec::new() }
    }

    /// Puts `updater` behind those already in the chain.
    pub fn add(&mut self, updater: U)
        ensures
            final(self)@ == old(self)@.push(updater),
    {
        self.updaters.push(updater);
    }

    pub fn len(&self) -> (n: usize)
        ensures
            n == self@.len(),
    {
        self.updaters.len()
    }

    /// Runs the updater at `index` once.
    pub(crate) fn update_at<Ctx, Scn>(
        &mut self,
        index: usize,
        context: &mut Ctx,
        scene: &mut Scn,
    ) where U: Update<Ctx, Scn>
        requires
            index < old(self)@.len(),
        ensures
            final(self)@ == old(self)@.update(index as int, final(self)@[index as int]),
            (final(self)@[index as int], *final(context), *final(scene)) == old(self)@[index as int]
                .updated(*old(context), *old(scene)),
    {
        self.updaters[index].update(context, scene);
    }

    /// Runs every updater once, in the order in which they were added.
    pub fn update<Ctx, Scn>(&mut self, context: &mut Ctx, scene: &mut Scn) where U: Update<Ctx, Scn>
        ensures
            (final(self)@, *final(context), *final(scene)) == update_all(
                old(self)@,
                *old(context),
                *old(scene),
            ),
    {
        let n = self.updaters.len();
        let mut i: usize = 0;
        while i < n
            invariant
                i <= n,
                n == old(self)@.len(),
                self@.len() == n,
                self@.skip(i as int) == old(self)@.skip(i as int),
                (self@.take(i as int), *context, *scene) == update_all(
                    old(self)@.take(i as int),
                    *old(context),
                    *old(scene),
                ),
            decreases n - i,
        {
            let ghost before = self@;
            self.update_at(i, context, scene);
            proof {
                lemma_entry_done(old(self)@, before, self@, i as int);
            }
            i += 1;
        }
        proof {
            assert(self@.take(n as int) == self@);
            assert(old(self)@.take(n as int) == old(self)@);
        }
    }
}

/// Registration order is kept: where each updater puts one mark of its own at
/// the end of a log that the scene carries, one run of the chain leaves the
/// marks at the end of the log in the order in which the updaters were added.
pub proof fn lemma_update_order<Ctx, Scn, U: Update<Ctx, Scn>, M>(
    updaters: Seq<U>,
    context: Ctx,
    scene: Scn,
    log: spec_fn(Scn) -> Seq<M>,
    marks: Seq<M>,
)
    requires
        marks.len() == updaters.len(),
        forall|i: int, c: Ctx, s: Scn|
            0 <= i < updaters.len() ==> log((#[trigger] updaters[i].updated(c, s)).2) == log(
                s,
            ).push(marks[i]),
    ensures
        log(update_all(updaters, context, scene).2) == log(scene) + marks,
    decreases updaters.len(),
{
    if updaters.len() == 0 {
        assert(log(scene) + marks == log(scene));
    } else {
        let n = updaters.len() - 1;
        lemma_update_order(updaters.drop_last(), context, scene, log, marks.drop_last());
        let (earlier, c, s) = update_all(updaters.drop_last(), context, scene);
        assert(updaters.last() == updaters[n]);
        assert(log(updaters[n].updated(c, s).2) == log(s).push(marks[n]));
        assert((log(scene) + marks.drop_last()).push(marks[n]) == log(scene) + marks);
    }
}

/// A chain runs each of its updaters, none more than once: the chain that
/// comes out is as long as the one that went in.
pub proof fn lemma_update_keeps_length<Ctx, Scn, U: Update<Ctx, Scn>>(
    updaters: Seq<U>,
    context: Ctx,
    scene: Scn,
)
    ensures
        update_all(updaters, context, scene).0.len() == updaters.len(),
    decreases updaters.len(),
{
    if updaters.len() > 0 {
        lemma_update_keeps_length(updaters.drop_last(), context, scene);
    }
}

} // verus!
