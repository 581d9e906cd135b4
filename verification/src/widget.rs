//! Widgets: one-shot descriptions of what to draw into a region.

use bevy_ecs::world::World;
use vstd::prelude::*;
use crate::state::{state, systems, RegionId};
use crate::state::WorldState;
use crate::system::{
    register_system_cached, registered, with_system, with_systems, CachedSystem, SystemDef,
    SystemId,
};

verus! {

/// One element of a widget.
#[derive(Debug, PartialEq, Eq)]
pub enum Leaf<P> {
    /// A widget primitive of the toolkit, drawn as it is.
    Primitive(P),
    /// The cached unit registered under this key, run to do the drawing.
    System(u64),
}

/// A widget: its elements, drawn left to right into one region. It is
/// consumed by being drawn.
#[derive(Debug, PartialEq, Eq)]
pub struct Widget<P> {
    leaves: Vec<Leaf<P>>,
}

impl<P> View for Widget<P> {
    type V = Seq<Leaf<P>>;

    closed spec fn view(&self) -> Seq<Leaf<P>> {
        self.leaves@
    }
}

/// The cached units after every unit among `leaves` has been looked up, left
/// to right.
pub open spec fn after_prepare<P>(slots: Seq<CachedSystem>, leaves: Seq<Leaf<P>>) -> Seq<
    CachedSystem,
>
    decreases leaves.len(),
{
    if leaves.len() == 0 {
        slots
    } else {
        let before = after_prepare(slots, leaves.drop_last());
        match leaves.last() {
            Leaf::Primitive(_) => before,
            Leaf::System(key) => with_system(before, key),
        }
    }
}

/// The units among `leaves` that are used for the first time, left to right,
/// each by the handle it is registered under.
pub open spec fn first_uses<P>(slots: Seq<CachedSystem>, leaves: Seq<Leaf<P>>) -> Seq<SystemId>
    decreases leaves.len(),
{
    if leaves.len() == 0 {
        Seq::empty()
    } else {
        let before = after_prepare(slots, leaves.drop_last());
        let earlier = first_uses(slots, leaves.drop_last());
        match leaves.last() {
            Leaf::Primitive(_) => earlier,
            Leaf::System(key) => if registered(before, key) {
                earlier
            } else {
                earlier.push(SystemId(before.len() as usize))
            },
        }
    }
}

/// Whether a cached unit is among `leaves`.
pub open spec fn has_system<P>(leaves: Seq<Leaf<P>>) -> bool {
    exists|i: int| 0 <= i < leaves.len() && #[trigger] leaves[i] is System
}

/// Whether the units among `leaves` cannot be looked up in a world in state
/// `s`: there is one, and the world refuses a registry.
pub open spec fn prepare_refused<P>(s: WorldState, leaves: Seq<Leaf<P>>) -> bool {
    s.systems_refused && has_system(leaves)
}

/// The state after the units among `leaves` have been looked up in a world
/// in state `s`. Where that is refused the world stays as it is.
pub open spec fn after_prepare_in<P>(s: WorldState, leaves: Seq<Leaf<P>>) -> WorldState {
    if prepare_refused(s, leaves) {
        s
    } else {
        with_systems(s, after_prepare(s.systems, leaves))
    }
}

impl<P> Widget<P> {
    /// The widget without elements.
    pub fn empty() -> (widget: Self)
        ensures
            widget@ == Seq::<Leaf<P>>::empty(),
    {
        Widget { leaves: Vec::new() }
    }

    /// Number of elements.
    pub fn len(&self) -> (n: usize)
        ensures
            n == self@.len(),
    {
        self.leaves.len()
    }

    /// The elements of `self` followed by those of `next`.
    pub fn followed_by(self, next: Widget<P>) -> (both: Self)
        ensures
            both@ == self@ + next@,
    {
        let mut leaves = self.leaves;
        let mut rest = next.leaves;
        leaves.append(&mut rest);
        Widget { leaves }
    }

    /// Gives the elements up, left to right.
    pub fn into_leaves(self) -> (leaves: Vec<Leaf<P>>)
        ensures
            leaves@ == self@,
    {
        self.leaves
    }

    /// Looks up every cached unit among the elements, left to right, and
    /// registers those that are new. Returns the handles of the new ones, in
    /// the order in which they have to be initialized. Where the widget
    /// holds a unit and the world refuses a registry, nothing is looked up
    /// and nothing is returned.
    pub fn prepare(&self, world: &mut World) -> (fresh: Option<Vec<SystemId>>)
        ensures
            state(*final(world)) == after_prepare_in(state(*old(world)), self@),
            prepare_refused(state(*old(world)), self@) ==> fresh is None && *final(world) == *old(
                world,
            ),
            !prepare_refused(state(*old(world)), self@) ==> fresh is Some && fresh->0@
                == first_uses(systems(*old(world)), self@),
    {
        let mut fresh: Vec<SystemId> = Vec::new();
        let mut i: usize = 0;
        while i < self.leaves.len()
            invariant
                i <= self.leaves@.len(),
                state(*world) == with_systems(
                    state(*old(world)),
                    after_prepare(systems(*old(world)), self.leaves@.take(i as int)),
                ),
                fresh@ == first_uses(systems(*old(world)), self.leaves@.take(i as int)),
                state(*old(world)).systems_refused ==> *world == *old(world) && !has_system(
                    self.leaves@.take(i as int),
                ),
            decreases self.leaves@.len() - i,
        {
            proof {
                let next = self.leaves@.take(i + 1);
                assert(next.drop_last() == self.leaves@.take(i as int));
                assert(next.last() == self.leaves@[i as int]);
            }
            match &self.leaves[i] {
                Leaf::Primitive(_) => {
                    proof {
                        let next = self.leaves@.take(i + 1);
                        if has_system(next) {
                            let j = choose|j: int| 0 <= j < next.len() && next[j] is System;
                            assert(self.leaves@.take(i as int)[j] == next[j]);
                        }
                    }
                },
                Leaf::System(key) => {
                    let Some((id, init)) = register_system_cached(world, *key) else {
                        proof {
                            assert(self.leaves@[i as int] is System);
                        }
                        return None;
                    };
                    if init {
                        fresh.push(id);
                    }
                },
            }
            i += 1;
        }
        proof {
            assert(self.leaves@.take(i as int) == self.leaves@);
        }
        Some(fresh)
    }
}

/// What a cached unit that draws is run on: the region to draw into, and the
/// extra value of the call.
#[derive(Debug, PartialEq, Eq)]
pub struct Draw<E = ()> {
    /// The region to draw into.
    pub ui: RegionId,
    /// Extra data passed to the unit.
    pub extra: E,
}

impl<E> Draw<E> {
    /// Creates a new [`Draw`] with the given region and extra data.
    pub fn new(ui: RegionId, extra: E) -> (draw: Self)
        ensures
            draw.ui == ui,
            draw.extra == extra,
    {
        Draw { ui, extra }
    }

    /// The region to draw into.
    pub fn ui(&self) -> (ui: RegionId)
        ensures
            ui == self.ui,
    {
        self.ui
    }

    /// Exclusive access to the extra data.
    pub fn extra(&mut self) -> (extra: &mut E)
        ensures
            *extra == old(self).extra,
            final(self).extra == *final(extra),
            final(self).ui == old(self).ui,
    {
        &mut self.extra
    }

    /// The region together with exclusive access to the extra data.
    pub fn as_parts(&mut self) -> (parts: (RegionId, &mut E))
        ensures
            parts.0 == old(self).ui,
            *parts.1 == old(self).extra,
            final(self).extra == *final(parts.1),
            final(self).ui == old(self).ui,
    {
        (self.ui, &mut self.extra)
    }

    /// Consumes this [`Draw`] and returns the region and the extra data.
    pub fn into_parts(self) -> (parts: (RegionId, E))
        ensures
            parts.0 == self.ui,
            parts.1 == self.extra,
    {
        (self.ui, self.extra)
    }
}

/// Adapts a widget primitive of the toolkit: drawing it forwards to the
/// primitive and hands its result on unchanged.
pub struct EguiWidget<W>(pub W);

/// Marks the conversion of a toolkit primitive into a [`Widget`].
pub struct EguiWidgetMarker;

/// Marks the conversion of a unit definition into a [`Widget`].
pub struct SystemWidgetMarker;

/// Conversion into a [`Widget`].
pub trait IntoWidget<P, M>: Sized {
    /// Whether the value may be converted. A unit definition that captures
    /// state may not.
    spec fn convertible(&self) -> bool;

    /// The elements of the widget the value converts into.
    spec fn leaves(&self) -> Seq<Leaf<P>>;

    /// Converts this value into a [`Widget`].
    fn into_widget(self) -> (widget: Widget<P>)
        requires
            self.convertible(),
        ensures
            widget@ == self.leaves(),
    ;
}

/// Every [`Widget`] converts into itself.
impl<P> IntoWidget<P, ()> for Widget<P> {
    open spec fn convertible(&self) -> bool {
        true
    }

    open spec fn leaves(&self) -> Seq<Leaf<P>> {
        self@
    }

    fn into_widget(self) -> (widget: Widget<P>) {
        self
    }
}

/// A toolkit primitive converts into the widget that draws it.
impl<W> IntoWidget<W, EguiWidgetMarker> for EguiWidget<W> {
    open spec fn convertible(&self) -> bool {
        true
    }

    open spec fn leaves(&self) -> Seq<Leaf<W>> {
        seq![Leaf::Primitive(self.0)]
    }

    fn into_widget(self) -> (widget: Widget<W>) {
        let mut leaves = Vec::new();
        leaves.push(Leaf::Primitive(self.0));
        Widget { leaves }
    }
}

/// A unit definition converts into the widget that runs it, provided it
/// captures nothing.
impl<P> IntoWidget<P, SystemWidgetMarker> for SystemDef {
    open spec fn convertible(&self) -> bool {
        self.stateless()
    }

    open spec fn leaves(&self) -> Seq<Leaf<P>> {
        seq![Leaf::System(self.key)]
    }

    fn into_widget(self) -> (widget: Widget<P>) {
        let mut leaves = Vec::new();
        leaves.push(Leaf::System(self.key));
        Widget { leaves }
    }
}

/// The empty tuple is the widget that draws nothing.
impl<P> IntoWidget<P, ()> for () {
    open spec fn convertible(&self) -> bool {
        true
    }

    open spec fn leaves(&self) -> Seq<Leaf<P>> {
        Seq::empty()
    }

    fn into_widget(self) -> (widget: Widget<P>) {
        Widget::empty()
    }
}

// A tuple of widgets is the widget that draws its members left to right.

impl<P, W0: IntoWidget<P, M0>, M0> IntoWidget<P, (M0,)> for (W0,) {
    open spec fn convertible(&self) -> bool {
        self.0.convertible()
    }

    open spec fn leaves(&self) -> Seq<Leaf<P>> {
        self.0.leaves()
    }

    fn into_widget(self) -> (widget: Widget<P>) {
        self.0.into_widget()
    }
}

impl<P, W0: IntoWidget<P, M0>, M0, W1: IntoWidget<P, M1>, M1> IntoWidget<P, (M0, M1)> for (W0, W1) {
    open spec fn convertible(&self) -> bool {
        self.0.convertible()
            && self.1.convertible()
    }

    open spec fn leaves(&self) -> Seq<Leaf<P>> {
        self.0.leaves()
            + self.1.leaves()
    }

    fn into_widget(self) -> (widget: Widget<P>) {
        self.0.into_widget()
            .followed_by(self.1.into_widget())
    }
}

impl<
    P, W0: IntoWidget<P, M0>, M0, W1: IntoWidget<P, M1>, M1, W2: IntoWidget<P, M2>, M2,
> IntoWidget<P, (M0, M1, M2)> for (W0, W1, W2) {
    open spec fn convertible(&self) -> bool {
        self.0.convertible()
            && self.1.convertible()
            && self.2.convertible()
    }

    open spec fn leaves(&self) -> Seq<Leaf<P>> {
        self.0.leaves()
            + self.1.leaves()
            + self.2.leaves()
    }

    fn into_widget(self) -> (widget: Widget<P>) {
        self.0.into_widget()
            .followed_by(self.1.into_widget())
            .followed_by(self.2.into_widget())
    }
}

impl<
    P, W0: IntoWidget<P, M0>, M0, W1: IntoWidget<P, M1>, M1, W2: IntoWidget<P, M2>, M2,
    W3: IntoWidget<P, M3>, M3,
> IntoWidget<P, (M0, M1, M2, M3)> for (W0, W1, W2, W3) {
    open spec fn convertible(&self) -> bool {
        self.0.convertible()
            && self.1.convertible()
            && self.2.convertible()
            && self.3.convertible()
    }

    open spec fn leaves(&self) -> Seq<Leaf<P>> {
        self.0.leaves()
            + self.1.leaves()
            + self.2.leaves()
            + self.3.leaves()
    }

    fn into_widget(self) -> (widget: Widget<P>) {
        self.0.into_widget()
            .followed_by(self.1.into_widget())
            .followed_by(self.2.into_widget())
            .followed_by(self.3.into_widget())
    }
}

impl<
    P, W0: IntoWidget<P, M0>, M0, W1: IntoWidget<P, M1>, M1, W2: IntoWidget<P, M2>, M2,
    W3: IntoWidget<P, M3>, M3, W4: IntoWidget<P, M4>, M4,
> IntoWidget<P, (M0, M1, M2, M3, M4)> for (W0, W1, W2, W3, W4) {
    open spec fn convertible(&self) -> bool {
        self.0.convertible()
            && self.1.convertible()
            && self.2.convertible()
            && self.3.convertible()
            && self.4.convertible()
    }

    open spec fn leaves(&self) -> Seq<Leaf<P>> {
        self.0.leaves()
            + self.1.leaves()
            + self.2.leaves()
            + self.3.leaves()
            + self.4.leaves()
    }

    fn into_widget(self) -> (widget: Widget<P>) {
        self.0.into_widget()
            .followed_by(self.1.into_widget())
            .followed_by(self.2.into_widget())
            .followed_by(self.3.into_widget())
            .followed_by(self.4.into_widget())
    }
}

impl<
    P, W0: IntoWidget<P, M0>, M0, W1: IntoWidget<P, M1>, M1, W2: IntoWidget<P, M2>, M2,
    W3: IntoWidget<P, M3>, M3, W4: IntoWidget<P, M4>, M4, W5: IntoWidget<P, M5>, M5,
> IntoWidget<P, (M0, M1, M2, M3, M4, M5)> for (W0, W1, W2, W3, W4, W5) {
    open spec fn convertible(&self) -> bool {
        self.0.convertible()
            && self.1.convertible()
            && self.2.convertible()
            && self.3.convertible()
            && self.4.convertible()
            && self.5.convertible()
    }

    open spec fn leaves(&self) -> Seq<Leaf<P>> {
        self.0.leaves()
            + self.1.leaves()
            + self.2.leaves()
            + self.3.leaves()
            + self.4.leaves()
            + self.5.leaves()
    }

    fn into_widget(self) -> (widget: Widget<P>) {
        self.0.into_widget()
            .followed_by(self.1.into_widget())
            .followed_by(self.2.into_widget())
            .followed_by(self.3.into_widget())
            .followed_by(self.4.into_widget())
            .followed_by(self.5.into_widget())
    }
}

impl<
    P, W0: IntoWidget<P, M0>, M0, W1: IntoWidget<P, M1>, M1, W2: IntoWidget<P, M2>, M2,
    W3: IntoWidget<P, M3>, M3, W4: IntoWidget<P, M4>, M4, W5: IntoWidget<P, M5>, M5,
    W6: IntoWidget<P, M6>, M6,
> IntoWidget<P, (M0, M1, M2, M3, M4, M5, M6)> for (W0, W1, W2, W3, W4, W5, W6) {
    open spec fn convertible(&self) -> bool {
        self.0.convertible()
            && self.1.convertible()
            && self.2.convertible()
            && self.3.convertible()
            && self.4.convertible()
            && self.5.convertible()
            && self.6.convertible()
    }

    open spec fn leaves(&self) -> Seq<Leaf<P>> {
        self.0.leaves()
            + self.1.leaves()
            + self.2.leaves()
            + self.3.leaves()
            + self.4.leaves()
            + self.5.leaves()
            + self.6.leaves()
    }

    fn into_widget(self) -> (widget: Widget<P>) {
        self.0.into_widget()
            .followed_by(self.1.into_widget())
            .followed_by(self.2.into_widget())
            .followed_by(self.3.into_widget())
            .followed_by(self.4.into_widget())
            .followed_by(self.5.into_widget())
            .followed_by(self.6.into_widget())
    }
}

impl<
    P, W0: IntoWidget<P, M0>, M0, W1: IntoWidget<P, M1>, M1, W2: IntoWidget<P, M2>, M2,
    W3: IntoWidget<P, M3>, M3, W4: IntoWidget<P, M4>, M4, W5: IntoWidget<P, M5>, M5,
    W6: IntoWidget<P, M6>, M6, W7: IntoWidget<P, M7>, M7,
> IntoWidget<P, (M0, M1, M2, M3, M4, M5, M6, M7)> for (W0, W1, W2, W3, W4, W5, W6, W7) {
    open spec fn convertible(&self) -> bool {
        self.0.convertible()
            && self.1.convertible()
            && self.2.convertible()
            && self.3.convertible()
            && self.4.convertible()
            && self.5.convertible()
            && self.6.convertible()
            && self.7.convertible()
    }

    open spec fn leaves(&self) -> Seq<Leaf<P>> {
        self.0.leaves()
            + self.1.leaves()
            + self.2.leaves()
            + self.3.leaves()
            + self.4.leaves()
            + self.5.leaves()
            + self.6.leaves()
            + self.7.leaves()
    }

    fn into_widget(self) -> (widget: Widget<P>) {
        self.0.into_widget()
            .followed_by(self.1.into_widget())
            .followed_by(self.2.into_widget())
            .followed_by(self.3.into_widget())
            .followed_by(self.4.into_widget())
            .followed_by(self.5.into_widget())
            .followed_by(self.6.into_widget())
            .followed_by(self.7.into_widget())
    }
}

impl<
    P, W0: IntoWidget<P, M0>, M0, W1: IntoWidget<P, M1>, M1, W2: IntoWidget<P, M2>, M2,
    W3: IntoWidget<P, M3>, M3, W4: IntoWidget<P, M4>, M4, W5: IntoWidget<P, M5>, M5,
    W6: IntoWidget<P, M6>, M6, W7: IntoWidget<P, M7>, M7, W8: IntoWidget<P, M8>, M8,
> IntoWidget<P, (M0, M1, M2, M3, M4, M5, M6, M7, M8)> for (W0, W1, W2, W3, W4, W5, W6, W7, W8) {
    open spec fn convertible(&self) -> bool {
        self.0.convertible()
            && self.1.convertible()
            && self.2.convertible()
            && self.3.convertible()
            && self.4.convertible()
            && self.5.convertible()
            && self.6.convertible()
            && self.7.convertible()
            && self.8.convertible()
    }

    open spec fn leaves(&self) -> Seq<Leaf<P>> {
        self.0.leaves()
            + self.1.leaves()
            + self.2.leaves()
            + self.3.leaves()
            + self.4.leaves()
            + self.5.leaves()
            + self.6.leaves()
            + self.7.leaves()
            + self.8.leaves()
    }

    fn into_widget(self) -> (widget: Widget<P>) {
        self.0.into_widget()
            .followed_by(self.1.into_widget())
            .followed_by(self.2.into_widget())
            .followed_by(self.3.into_widget())
            .followed_by(self.4.into_widget())
            .followed_by(self.5.into_widget())
            .followed_by(self.6.into_widget())
            .followed_by(self.7.into_widget())
            .followed_by(self.8.into_widget())
    }
}

impl<
    P, W0: IntoWidget<P, M0>, M0, W1: IntoWidget<P, M1>, M1, W2: IntoWidget<P, M2>, M2,
    W3: IntoWidget<P, M3>, M3, W4: IntoWidget<P, M4>, M4, W5: IntoWidget<P, M5>, M5,
    W6: IntoWidget<P, M6>, M6, W7: IntoWidget<P, M7>, M7, W8: IntoWidget<P, M8>, M8,
    W9: IntoWidget<P, M9>, M9,
> IntoWidget<
    P,
    (
        M0, M1, M2, M3, M4, M5, M6, M7, M8, M9,
    ),
> for (
    W0, W1, W2, W3, W4, W5, W6, W7, W8, W9,
) {
    open spec fn convertible(&self) -> bool {
        self.0.convertible()
            && self.1.convertible()
            && self.2.convertible()
            && self.3.convertible()
            && self.4.convertible()
            && self.5.convertible()
            && self.6.convertible()
            && self.7.convertible()
            && self.8.convertible()
            && self.9.convertible()
    }

    open spec fn leaves(&self) -> Seq<Leaf<P>> {
        self.0.leaves()
            + self.1.leaves()
            + self.2.leaves()
            + self.3.leaves()
            + self.4.leaves()
            + self.5.leaves()
            + self.6.leaves()
            + self.7.leaves()
            + self.8.leaves()
            + self.9.leaves()
    }

    fn into_widget(self) -> (widget: Widget<P>) {
        self.0.into_widget()
            .followed_by(self.1.into_widget())
            .followed_by(self.2.into_widget())
            .followed_by(self.3.into_widget())
            .followed_by(self.4.into_widget())
            .followed_by(self.5.into_widget())
            .followed_by(self.6.into_widget())
            .followed_by(self.7.into_widget())
            .followed_by(self.8.into_widget())
            .followed_by(self.9.into_widget())
    }
}

impl<
    P, W0: IntoWidget<P, M0>, M0, W1: IntoWidget<P, M1>, M1, W2: IntoWidget<P, M2>, M2,
    W3: IntoWidget<P, M3>, M3, W4: IntoWidget<P, M4>, M4, W5: IntoWidget<P, M5>, M5,
    W6: IntoWidget<P, M6>, M6, W7: IntoWidget<P, M7>, M7, W8: IntoWidget<P, M8>, M8,
    W9: IntoWidget<P, M9>, M9, W10: IntoWidget<P, M10>, M10,
> IntoWidget<
    P,
    (
        M0, M1, M2, M3, M4, M5, M6, M7, M8, M9, M10,
    ),
> for (
    W0, W1, W2, W3, W4, W5, W6, W7, W8, W9, W10,
) {
    open spec fn convertible(&self) -> bool {
        self.0.convertible()
            && self.1.convertible()
            && self.2.convertible()
            && self.3.convertible()
            && self.4.convertible()
            && self.5.convertible()
            && self.6.convertible()
            && self.7.convertible()
            && self.8.convertible()
            && self.9.convertible()
            && self.10.convertible()
    }

    open spec fn leaves(&self) -> Seq<Leaf<P>> {
        self.0.leaves()
            + self.1.leaves()
            + self.2.leaves()
            + self.3.leaves()
            + self.4.leaves()
            + self.5.leaves()
            + self.6.leaves()
            + self.7.leaves()
            + self.8.leaves()
            + self.9.leaves()
            + self.10.leaves()
    }

    fn into_widget(self) -> (widget: Widget<P>) {
        self.0.into_widget()
            .followed_by(self.1.into_widget())
            .followed_by(self.2.into_widget())
            .followed_by(self.3.into_widget())
            .followed_by(self.4.into_widget())
            .followed_by(self.5.into_widget())
            .followed_by(self.6.into_widget())
            .followed_by(self.7.into_widget())
            .followed_by(self.8.into_widget())
            .followed_by(self.9.into_widget())
            .followed_by(self.10.into_widget())
    }
}

impl<
    P, W0: IntoWidget<P, M0>, M0, W1: IntoWidget<P, M1>, M1, W2: IntoWidget<P, M2>, M2,
    W3: IntoWidget<P, M3>, M3, W4: IntoWidget<P, M4>, M4, W5: IntoWidget<P, M5>, M5,
    W6: IntoWidget<P, M6>, M6, W7: IntoWidget<P, M7>, M7, W8: IntoWidget<P, M8>, M8,
    W9: IntoWidget<P, M9>, M9, W10: IntoWidget<P, M10>, M10, W11: IntoWidget<P, M11>, M11,
> IntoWidget<
    P,
    (
        M0, M1, M2, M3, M4, M5, M6, M7, M8, M9, M10, M11,
    ),
> for (
    W0, W1, W2, W3, W4, W5, W6, W7, W8, W9, W10, W11,
) {
    open spec fn convertible(&self) -> bool {
        self.0.convertible()
            && self.1.convertible()
            && self.2.convertible()
            && self.3.convertible()
            && self.4.convertible()
            && self.5.convertible()
            && self.6.convertible()
            && self.7.convertible()
            && self.8.convertible()
            && self.9.convertible()
            && self.10.convertible()
            && self.11.convertible()
    }

    open spec fn leaves(&self) -> Seq<Leaf<P>> {
        self.0.leaves()
            + self.1.leaves()
            + self.2.leaves()
            + self.3.leaves()
            + self.4.leaves()
            + self.5.leaves()
            + self.6.leaves()
            + self.7.leaves()
            + self.8.leaves()
            + self.9.leaves()
            + self.10.leaves()
            + self.11.leaves()
    }

    fn into_widget(self) -> (widget: Widget<P>) {
        self.0.into_widget()
            .followed_by(self.1.into_widget())
            .followed_by(self.2.into_widget())
            .followed_by(self.3.into_widget())
            .followed_by(self.4.into_widget())
            .followed_by(self.5.into_widget())
            .followed_by(self.6.into_widget())
            .followed_by(self.7.into_widget())
            .followed_by(self.8.into_widget())
            .followed_by(self.9.into_widget())
            .followed_by(self.10.into_widget())
            .followed_by(self.11.into_widget())
    }
}

impl<
    P, W0: IntoWidget<P, M0>, M0, W1: IntoWidget<P, M1>, M1, W2: IntoWidget<P, M2>, M2,
    W3: IntoWidget<P, M3>, M3, W4: IntoWidget<P, M4>, M4, W5: IntoWidget<P, M5>, M5,
    W6: IntoWidget<P, M6>, M6, W7: IntoWidget<P, M7>, M7, W8: IntoWidget<P, M8>, M8,
    W9: IntoWidget<P, M9>, M9, W10: IntoWidget<P, M10>, M10, W11: IntoWidget<P, M11>, M11,
    W12: IntoWidget<P, M12>, M12,
> IntoWidget<
    P,
    (
        M0, M1, M2, M3, M4, M5, M6, M7, M8, M9, M10, M11, M12,
    ),
> for (
    W0, W1, W2, W3, W4, W5, W6, W7, W8, W9, W10, W11, W12,
) {
    open spec fn convertible(&self) -> bool {
        self.0.convertible()
            && self.1.convertible()
            && self.2.convertible()
            && self.3.convertible()
            && self.4.convertible()
            && self.5.convertible()
            && self.6.convertible()
            && self.7.convertible()
            && self.8.convertible()
            && self.9.convertible()
            && self.10.convertible()
            && self.11.convertible()
            && self.12.convertible()
    }

    open spec fn leaves(&self) -> Seq<Leaf<P>> {
        self.0.leaves()
            + self.1.leaves()
            + self.2.leaves()
            + self.3.leaves()
            + self.4.leaves()
            + self.5.leaves()
            + self.6.leaves()
            + self.7.leaves()
            + self.8.leaves()
            + self.9.leaves()
            + self.10.leaves()
            + self.11.leaves()
            + self.12.leaves()
    }

    fn into_widget(self) -> (widget: Widget<P>) {
        self.0.into_widget()
            .followed_by(self.1.into_widget())
            .followed_by(self.2.into_widget())
            .followed_by(self.3.into_widget())
            .followed_by(self.4.into_widget())
            .followed_by(self.5.into_widget())
            .followed_by(self.6.into_widget())
            .followed_by(self.7.into_widget())
            .followed_by(self.8.into_widget())
            .followed_by(self.9.into_widget())
            .followed_by(self.10.into_widget())
            .followed_by(self.11.into_widget())
            .followed_by(self.12.into_widget())
    }
}

impl<
    P, W0: IntoWidget<P, M0>, M0, W1: IntoWidget<P, M1>, M1, W2: IntoWidget<P, M2>, M2,
    W3: IntoWidget<P, M3>, M3, W4: IntoWidget<P, M4>, M4, W5: IntoWidget<P, M5>, M5,
    W6: IntoWidget<P, M6>, M6, W7: IntoWidget<P, M7>, M7, W8: IntoWidget<P, M8>, M8,
    W9: IntoWidget<P, M9>, M9, W10: IntoWidget<P, M10>, M10, W11: IntoWidget<P, M11>, M11,
    W12: IntoWidget<P, M12>, M12, W13: IntoWidget<P, M13>, M13,
> IntoWidget<
    P,
    (
        M0, M1, M2, M3, M4, M5, M6, M7, M8, M9, M10, M11, M12, M13,
    ),
> for (
    W0, W1, W2, W3, W4, W5, W6, W7, W8, W9, W10, W11, W12, W13,
) {
    open spec fn convertible(&self) -> bool {
        self.0.convertible()
            && self.1.convertible()
            && self.2.convertible()
            && self.3.convertible()
            && self.4.convertible()
            && self.5.convertible()
            && self.6.convertible()
            && self.7.convertible()
            && self.8.convertible()
            && self.9.convertible()
            && self.10.convertible()
            && self.11.convertible()
            && self.12.convertible()
            && self.13.convertible()
    }

    open spec fn leaves(&self) -> Seq<Leaf<P>> {
        self.0.leaves()
            + self.1.leaves()
            + self.2.leaves()
            + self.3.leaves()
            + self.4.leaves()
            + self.5.leaves()
            + self.6.leaves()
            + self.7.leaves()
            + self.8.leaves()
            + self.9.leaves()
            + self.10.leaves()
            + self.11.leaves()
            + self.12.leaves()
            + self.13.leaves()
    }

    fn into_widget(self) -> (widget: Widget<P>) {
        self.0.into_widget()
            .followed_by(self.1.into_widget())
            .followed_by(self.2.into_widget())
            .followed_by(self.3.into_widget())
            .followed_by(self.4.into_widget())
            .followed_by(self.5.into_widget())
            .followed_by(self.6.into_widget())
            .followed_by(self.7.into_widget())
            .followed_by(self.8.into_widget())
            .followed_by(self.9.into_widget())
            .followed_by(self.10.into_widget())
            .followed_by(self.11.into_widget())
            .followed_by(self.12.into_widget())
            .followed_by(self.13.into_widget())
    }
}

impl<
    P, W0: IntoWidget<P, M0>, M0, W1: IntoWidget<P, M1>, M1, W2: IntoWidget<P, M2>, M2,
    W3: IntoWidget<P, M3>, M3, W4: IntoWidget<P, M4>, M4, W5: IntoWidget<P, M5>, M5,
    W6: IntoWidget<P, M6>, M6, W7: IntoWidget<P, M7>, M7, W8: IntoWidget<P, M8>, M8,
    W9: IntoWidget<P, M9>, M9, W10: IntoWidget<P, M10>, M10, W11: IntoWidget<P, M11>, M11,
    W12: IntoWidget<P, M12>, M12, W13: IntoWidget<P, M13>, M13, W14: IntoWidget<P, M14>, M14,
> IntoWidget<
    P,
    (
        M0, M1, M2, M3, M4, M5, M6, M7, M8, M9, M10, M11, M12, M13, M14,
    ),
> for (
    W0, W1, W2, W3, W4, W5, W6, W7, W8, W9, W10, W11, W12, W13, W14,
) {
    open spec fn convertible(&self) -> bool {
        self.0.convertible()
            && self.1.convertible()
            && self.2.convertible()
            && self.3.convertible()
            && self.4.convertible()
            && self.5.convertible()
            && self.6.convertible()
            && self.7.convertible()
            && self.8.convertible()
            && self.9.convertible()
            && self.10.convertible()
            && self.11.convertible()
            && self.12.convertible()
            && self.13.convertible()
            && self.14.convertible()
    }

    open spec fn leaves(&self) -> Seq<Leaf<P>> {
        self.0.leaves()
            + self.1.leaves()
            + self.2.leaves()
            + self.3.leaves()
            + self.4.leaves()
            + self.5.leaves()
            + self.6.leaves()
            + self.7.leaves()
            + self.8.leaves()
            + self.9.leaves()
            + self.10.leaves()
            + self.11.leaves()
            + self.12.leaves()
            + self.13.leaves()
            + self.14.leaves()
    }

    fn into_widget(self) -> (widget: Widget<P>) {
        self.0.into_widget()
            .followed_by(self.1.into_widget())
            .followed_by(self.2.into_widget())
            .followed_by(self.3.into_widget())
            .followed_by(self.4.into_widget())
            .followed_by(self.5.into_widget())
            .followed_by(self.6.into_widget())
            .followed_by(self.7.into_widget())
            .followed_by(self.8.into_widget())
            .followed_by(self.9.into_widget())
            .followed_by(self.10.into_widget())
            .followed_by(self.11.into_widget())
            .followed_by(self.12.into_widget())
            .followed_by(self.13.into_widget())
            .followed_by(self.14.into_widget())
    }
}

impl<
    P, W0: IntoWidget<P, M0>, M0, W1: IntoWidget<P, M1>, M1, W2: IntoWidget<P, M2>, M2,
    W3: IntoWidget<P, M3>, M3, W4: IntoWidget<P, M4>, M4, W5: IntoWidget<P, M5>, M5,
    W6: IntoWidget<P, M6>, M6, W7: IntoWidget<P, M7>, M7, W8: IntoWidget<P, M8>, M8,
    W9: IntoWidget<P, M9>, M9, W10: IntoWidget<P, M10>, M10, W11: IntoWidget<P, M11>, M11,
    W12: IntoWidget<P, M12>, M12, W13: IntoWidget<P, M13>, M13, W14: IntoWidget<P, M14>, M14,
    W15: IntoWidget<P, M15>, M15,
> IntoWidget<
    P,
    (
        M0, M1, M2, M3, M4, M5, M6, M7, M8, M9, M10, M11, M12, M13, M14, M15,
    ),
> for (
    W0, W1, W2, W3, W4, W5, W6, W7, W8, W9, W10, W11, W12, W13, W14, W15,
) {
    open spec fn convertible(&self) -> bool {
        self.0.convertible()
            && self.1.convertible()
            && self.2.convertible()
            && self.3.convertible()
            && self.4.convertible()
            && self.5.convertible()
            && self.6.convertible()
            && self.7.convertible()
            && self.8.convertible()
            && self.9.convertible()
            && self.10.convertible()
            && self.11.convertible()
            && self.12.convertible()
            && self.13.convertible()
            && self.14.convertible()
            && self.15.convertible()
    }

    open spec fn leaves(&self) -> Seq<Leaf<P>> {
        self.0.leaves()
            + self.1.leaves()
            + self.2.leaves()
            + self.3.leaves()
            + self.4.leaves()
            + self.5.leaves()
            + self.6.leaves()
            + self.7.leaves()
            + self.8.leaves()
            + self.9.leaves()
            + self.10.leaves()
            + self.11.leaves()
            + self.12.leaves()
            + self.13.leaves()
            + self.14.leaves()
            + self.15.leaves()
    }

    fn into_widget(self) -> (widget: Widget<P>) {
        self.0.into_widget()
            .followed_by(self.1.into_widget())
            .followed_by(self.2.into_widget())
            .followed_by(self.3.into_widget())
            .followed_by(self.4.into_widget())
            .followed_by(self.5.into_widget())
            .followed_by(self.6.into_widget())
            .followed_by(self.7.into_widget())
            .followed_by(self.8.into_widget())
            .followed_by(self.9.into_widget())
            .followed_by(self.10.into_widget())
            .followed_by(self.11.into_widget())
            .followed_by(self.12.into_widget())
            .followed_by(self.13.into_widget())
            .followed_by(self.14.into_widget())
            .followed_by(self.15.into_widget())
    }
}

} // verus!
