//! The stack of open regions.

use bevy_ecs::world::World;
use vstd::prelude::*;
use crate::command::report;
use crate::container::ContainerKind;
use crate::effect::{init_effects, inits, Diagnostic, Effect};
use crate::responder::Responder;
use crate::root::RootKind;
use crate::state::{state, systems, RegionId};
use crate::system::{
    after_start_in, distinct_keys, start_system_cached, started_in, CachedSystem, Invocation,
    RegisteredSystemError, SystemDef,
};
use crate::widget::{after_prepare_in, first_uses, prepare_refused, Draw, IntoWidget, Widget};

verus! {

/// Tag of an open region: what opened it, and so what may close it.
#[derive(Clone, Copy, Debug, PartialEq, Eq, Structural)]
pub enum RegionKind {
    Root(RootKind),
    Container(ContainerKind),
}

/// An open region: its tag and the data its opener left for its closer.
#[derive(Debug, PartialEq, Eq)]
pub struct Region<T> {
    pub kind: RegionKind,
    pub data: T,
}

/// Why a typed pop yields no data.
#[derive(Clone, Copy, Debug, PartialEq, Eq, Structural)]
pub enum PopError {
    /// The stack was empty; it is unchanged.
    Empty,
    /// The innermost region was opened by another kind; it has been discarded.
    Mismatch,
}

/// Last-in-first-out stack of open regions, innermost last.
pub struct UiStack<T> {
    regions: Vec<Region<T>>,
}

impl<T> View for UiStack<T> {
    type V = Seq<Region<T>>;

    closed spec fn view(&self) -> Seq<Region<T>> {
        self.regions@
    }
}

impl<T> Default for UiStack<T> {
    /// A stack with no open region.
    fn default() -> (stack: Self)
        ensures
            stack@ == Seq::<Region<T>>::empty(),
    {
        UiStack::new()
    }
}

impl<T> UiStack<T> {
    /// The tags of the open regions, outermost first.
    pub open spec fn kinds(&self) -> Seq<RegionKind> {
        self@.map_values(|r: Region<T>| r.kind)
    }

    /// A stack with no open region.
    pub fn new() -> (stack: Self)
        ensures
            stack@ == Seq::<Region<T>>::empty(),
    {
        UiStack { regions: Vec::new() }
    }

    /// Number of open regions.
    pub fn len(&self) -> (n: usize)
        ensures
            n == self@.len(),
    {
        self.regions.len()
    }

    /// Whether no region is open.
    pub fn is_empty(&self) -> (b: bool)
        ensures
            b == (self@.len() == 0),
    {
        self.regions.len() == 0
    }

    /// Opens a region inside the current innermost one.
    pub fn push(&mut self, kind: RegionKind, data: T)
        ensures
            final(self)@ == old(self)@.push(Region { kind, data }),
    {
        self.regions.push(Region { kind, data });
    }

    /// Removes the innermost region and yields its data if it was opened as
    /// `expected`. An empty stack stays as it is; a region of another kind is
    /// removed and its data dropped.
    pub fn pop(&mut self, expected: RegionKind) -> (r: Result<T, PopError>)
        ensures
            old(self)@.len() == 0 ==> r == Err::<T, PopError>(PopError::Empty) && final(self)@ == old(
                self,
            )@,
            old(self)@.len() > 0 ==> final(self)@ == old(self)@.drop_last(),
            old(self)@.len() > 0 && old(self)@.last().kind == expected ==> r == Ok::<T, PopError>(
                old(self)@.last().data,
            ),
            old(self)@.len() > 0 && old(self)@.last().kind != expected ==> r == Err::<T, PopError>(
                PopError::Mismatch,
            ),
    {
        match self.regions.pop() {
            None => Err(PopError::Empty),
            Some(region) => {
                if region.kind == expected {
                    Ok(region.data)
                } else {
                    Err(PopError::Mismatch)
                }
            },
        }
    }

    /// Drops every region above depth `len`, innermost first. A stack that
    /// is not deeper than `len` stays as it is.
    pub fn truncate(&mut self, len: usize)
        ensures
            len <= old(self)@.len() ==> final(self)@ == old(self)@.take(len as int),
            len > old(self)@.len() ==> final(self)@ == old(self)@,
    {
        self.regions.truncate(len);
    }

    /// The tag of the innermost region, if any.
    pub fn top_kind(&self) -> (k: Option<RegionKind>)
        ensures
            self@.len() == 0 ==> k is None,
            self@.len() > 0 ==> k == Some(self@.last().kind),
    {
        let n = self.regions.len();
        if n == 0 {
            None
        } else {
            Some(self.regions[n - 1].kind)
        }
    }

    /// The data of the innermost region, if any.
    pub fn top(&self) -> (r: Option<&T>)
        ensures
            self@.len() == 0 ==> r is None,
            self@.len() > 0 ==> r == Some(&self@.last().data),
    {
        let n = self.regions.len();
        if n == 0 {
            None
        } else {
            Some(&self.regions[n - 1].data)
        }
    }

    /// Exclusive access to the data of the innermost region, if any. Whatever
    /// the caller writes through it is what the stack holds afterwards; the
    /// tag and every outer region stay.
    pub fn top_mut(&mut self) -> (r: Option<&mut T>)
        ensures
            old(self)@.len() == 0 ==> r is None && final(self)@ == old(self)@,
            old(self)@.len() > 0 ==> match r {
                Some(data) => *data == old(self)@.last().data && final(self)@ == old(self)@.update(
                    old(self)@.len() - 1,
                    Region { kind: old(self)@.last().kind, data: *final(data) },
                ),
                None => false,
            },
    {
        let n = self.regions.len();
        if n == 0 {
            None
        } else {
            Some(&mut self.regions[n - 1].data)
        }
    }
}

/// A world together with the open region that is drawn into.
pub struct WorldUi<'world> {
    pub world: &'world mut World,
    pub ui: RegionId,
}

impl<'world> WorldUi<'world> {
    /// Pairs `world` with the region `ui`.
    pub fn new(world: &'world mut World, ui: RegionId) -> (pair: Self)
        ensures
            pair.ui == ui,
            *pair.world == *old(world),
            *final(pair.world) == *final(world),
    {
        WorldUi { world, ui }
    }

    /// The same pair for a shorter time.
    pub fn reborrow(&mut self) -> (pair: WorldUi<'_>)
        ensures
            pair.ui == old(self).ui,
            *pair.world == *old(self).world,
            *final(self).world == *final(pair.world),
            final(self).ui == old(self).ui,
            *final(final(self).world) == *final(old(self).world),
    {
        WorldUi { world: &mut *self.world, ui: self.ui }
    }

    /// The world.
    pub fn world(&self) -> (world: &World)
        ensures
            *world == *old(self.world),
    {
        &*self.world
    }

    /// Exclusive access to the world.
    pub fn world_mut(&mut self) -> (world: &mut World)
        ensures
            *world == *old(self).world,
            *final(self).world == *final(world),
            final(self).ui == old(self).ui,
            *final(final(self).world) == *final(old(self).world),
    {
        &mut *self.world
    }

    /// Exclusive access to the world, and the region.
    pub fn parts(&mut self) -> (parts: (&mut World, RegionId))
        ensures
            parts.1 == old(self).ui,
            *parts.0 == *old(self).world,
            *final(self).world == *final(parts.0),
            final(self).ui == old(self).ui,
            *final(final(self).world) == *final(old(self).world),
    {
        (&mut *self.world, self.ui)
    }

    /// Consumes the pair and returns the world and the region.
    pub fn into_parts(self) -> (parts: (&'world mut World, RegionId))
        ensures
            parts.1 == self.ui,
            *parts.0 == *old(self.world),
            *final(parts.0) == *final(self.world),
    {
        (self.world, self.ui)
    }

    /// The region that is drawn into.
    pub fn ui(&self) -> (ui: RegionId)
        ensures
            ui == self.ui,
    {
        self.ui
    }

    /// Adds a widget to the region, now: its cached units are looked up, then
    /// it is drawn. Nobody responds to its result. Where the units cannot be
    /// looked up, that is reported and nothing is drawn.
    pub fn add<P, W: IntoWidget<P, M>, M>(&mut self, widget: W) -> (effects: Vec<Effect<P>>)
        requires
            widget.convertible(),
        ensures
            final(self).ui == old(self).ui,
            *final(final(self).world) == *final(old(self).world),
            state(*final(self).world) == after_prepare_in(
                state(*old(self).world),
                widget.leaves(),
            ),
            prepare_refused(state(*old(self).world), widget.leaves()) ==> effects@ == report::<P>(
                Diagnostic::StorageRefused,
            ) && *final(self).world == *old(self).world,
            !prepare_refused(state(*old(self).world), widget.leaves()) ==> {
                &&& effects@.len() > 0
                &&& effects@.drop_last() == inits::<P>(
                    first_uses(systems(*old(self).world), widget.leaves()),
                )
                &&& effects@.last() matches Effect::Draw { widget: drawn, region, respond }
                    && drawn@ == widget.leaves() && region == old(self).ui && respond
                    == Responder::Noop
            },
    {
        let widget: Widget<P> = widget.into_widget();
        match widget.prepare(self.world) {
            None => {
                let mut effects: Vec<Effect<P>> = Vec::new();
                effects.push(Effect::Report(Diagnostic::StorageRefused));
                effects
            },
            Some(fresh) => {
                let mut effects: Vec<Effect<P>> = init_effects(fresh);
                let ghost first = effects@;
                effects.push(Effect::Draw { widget, region: self.ui, respond: Responder::Noop });
                proof {
                    assert(effects@.drop_last() == first);
                }
                effects
            },
        }
    }

    /// Starts the cached unit `system` on this region.
    pub fn run_cached(&mut self, system: SystemDef) -> (r: Result<
        Invocation<Draw<()>>,
        RegisteredSystemError,
    >)
        requires
            system.stateless(),
        ensures
            final(self).ui == old(self).ui,
            *final(final(self).world) == *final(old(self).world),
            state(*final(self).world) == after_start_in(state(*old(self).world), system.key),
            r == started_in(
                state(*old(self).world),
                system.key,
                Draw { ui: old(self).ui, extra: () },
            ),
            r matches Ok(invocation) ==> invocation.system.0 < systems(*final(self).world).len()
                && systems(*final(self).world)[invocation.system.0 as int] == (CachedSystem {
                key: system.key,
                running: true,
            }) && distinct_keys(systems(*final(self).world)),
            state(*old(self).world).systems_refused ==> *final(self).world == *old(
                self,
            ).world,
    {
        start_system_cached(self.world, system, Draw::new(self.ui, ()))
    }

    /// Starts the cached unit `system` on this region and on `extra`, a value
    /// that belongs to this call alone.
    pub fn run_cached_with<E>(&mut self, system: SystemDef, extra: E) -> (r: Result<
        Invocation<Draw<E>>,
        RegisteredSystemError,
    >)
        requires
            system.stateless(),
        ensures
            final(self).ui == old(self).ui,
            *final(final(self).world) == *final(old(self).world),
            state(*final(self).world) == after_start_in(state(*old(self).world), system.key),
            r == started_in(
                state(*old(self).world),
                system.key,
                Draw { ui: old(self).ui, extra },
            ),
            r matches Ok(invocation) ==> invocation.system.0 < systems(*final(self).world).len()
                && systems(*final(self).world)[invocation.system.0 as int] == (CachedSystem {
                key: system.key,
                running: true,
            }) && distinct_keys(systems(*final(self).world)),
            state(*old(self).world).systems_refused ==> *final(self).world == *old(
                self,
            ).world,
    {
        start_system_cached(self.world, system, Draw::new(self.ui, extra))
    }
}

} // verus!
