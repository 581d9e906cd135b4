//! Showing top-level regions in a world that has a rendering context.

use bevy_ecs::world::World;
use egui::Context;
use vstd::prelude::*;
use crate::command::{
    balanced, open_root, run, Command, EndRootCommand, StartRootCommand, UiCommands,
};
use crate::effect::{Diagnostic, Effect};
use crate::root::{BeginRoot, EndRoot, Root};
use crate::state::{clone_context, context_of, get_context, state, WorldState};

verus! {

/// A world together with the rendering context that was active when the
/// pair was made.
pub struct WorldCtx<'world> {
    pub world: &'world mut World,
    pub ctx: Context,
}

impl<'world> WorldCtx<'world> {
    /// Pairs `world` with its rendering context. Without one there is
    /// nothing to show top-level regions in, which is reported.
    pub fn new(world: &'world mut World) -> (r: Result<Self, Diagnostic>)
        ensures
            context_of(*old(world)) is None ==> r is Err && r->Err_0 == Diagnostic::MissingContext
                && *final(world) == *old(world),
            context_of(*old(world)) is Some ==> r is Ok && r->Ok_0.ctx == context_of(
                *old(world),
            )->0 && *r->Ok_0.world == *old(world) && *final(r->Ok_0.world) == *final(world),
    {
        match get_context(world) {
            Some(ctx) => Ok(WorldCtx { world, ctx }),
            None => Err(Diagnostic::MissingContext),
        }
    }

    /// Shows a top-level region at once, in the context of the pair: the
    /// region is opened, `f` queues what goes into it, and what `f` queued
    /// is drained against the world, followed by the end of the region,
    /// before this returns. Returns what all of it asks the toolkit to do.
    pub fn show<P, Ro: Root<P>, F: FnOnce(UiCommands<P>) -> UiCommands<P>>(
        &mut self,
        root: Ro,
        f: F,
    ) -> (effects: Vec<Effect<P>>)
        requires
            forall|inside: UiCommands<P>| inside@.len() == 0 ==> f.requires((inside,)),
        ensures
            final(self).ctx == old(self).ctx,
            *final(final(self).world) == *final(old(self).world),
            exists|inside: UiCommands<P>, filled: UiCommands<P>|
                {
                    &&& inside@.len() == 0
                    &&& f.ensures((inside,), filled)
                    &&& balanced(filled@)
                    &&& (state(*final(self).world), effects@) == shown_at_once(
                        state(*old(self).world),
                        old(self).ctx,
                        BeginRoot { kind: root.kind(), region: root.region() },
                        filled@,
                    )
                },
    {
        let (begin, end) = root.into_root();
        let mut effects = StartRootCommand(begin).open(self.world, clone_context(&self.ctx));
        let filled = f(UiCommands::new());
        let mut body = filled.into_commands();
        body.queue(Command::EndRoot(EndRootCommand(end)));
        let mut rest = body.apply(self.world);
        effects.append(&mut rest);
        effects
    }
}

/// What showing a top-level region at once in `context` does to a world in
/// state `s`, and the effects it asks for: the region is opened in
/// `context`, then `body` is drained, then the region is closed.
pub open spec fn shown_at_once<P>(
    s: WorldState,
    context: Context,
    begin: BeginRoot<P>,
    body: Seq<Command<P>>,
) -> (WorldState, Seq<Effect<P>>) {
    let (opened, opening) = open_root(s, begin, context);
    let (after, rest) = run(
        opened,
        body.push(Command::EndRoot(EndRootCommand(EndRoot { kind: begin.kind }))),
    );
    (after, opening + rest)
}

/// Getting at the rendering context of a world.
pub trait WorldCtxExt {
    /// Whether the world has a rendering context.
    spec fn has_context(&self) -> bool;

    /// Pairs the world with its rendering context. Without one there is
    /// nothing to show top-level regions in, which is reported.
    fn try_ctx_mut(&mut self) -> (r: Result<WorldCtx<'_>, Diagnostic>)
        ensures
            r is Ok <==> old(self).has_context(),
            r matches Err(diagnostic) ==> diagnostic == Diagnostic::MissingContext,
    ;
}

impl WorldCtxExt for World {
    open spec fn has_context(&self) -> bool {
        context_of(*self) is Some
    }

    fn try_ctx_mut(&mut self) -> (r: Result<WorldCtx<'_>, Diagnostic>)
        ensures
            r matches Ok(pair) ==> pair.ctx == context_of(*old(self))->0 && *pair.world == *old(
                self,
            ) && *final(pair.world) == *final(self),
            r is Err ==> *final(self) == *old(self),
    {
        WorldCtx::new(self)
    }
}

} // verus!
