//! Responders: what is done with the result of a widget or a container once
//! it is known.

use bevy_ecs::world::World;
use vstd::prelude::*;
use crate::state::{state, systems, WorldState};
use crate::system::{
    after_start_in, distinct_keys, start_system_cached, started_in, CachedSystem, Invocation,
    SystemDef,
};

verus! {

/// A cached unit that takes a result as its only input. Its own output is
/// ignored. It holds the key of the unit and nothing else: a value of this
/// type cannot carry captured state.
#[derive(Clone, Copy, Debug, PartialEq, Eq, Structural)]
pub struct SystemResponder {
    key: u64,
}

impl SystemResponder {
    /// The key of the unit behind this responder.
    pub closed spec fn spec_key(&self) -> u64 {
        self.key
    }

    /// The key of the unit behind this responder.
    #[verifier::when_used_as_spec(spec_key)]
    pub fn key(&self) -> (key: u64)
        ensures
            key == self.spec_key(),
    {
        self.key
    }
}

/// Something that responds to the result of a widget or a container.
#[derive(Clone, Copy, Debug, PartialEq, Eq, Structural)]
pub enum Responder {
    /// Discards the result.
    Noop,
    /// Feeds the result to a cached unit.
    System(SystemResponder),
}

impl View for Responder {
    /// The key of the unit that is run, if one is.
    type V = Option<u64>;

    open spec fn view(&self) -> Option<u64> {
        match self {
            Responder::Noop => None,
            Responder::System(unit) => Some(unit.key()),
        }
    }
}

/// The world after a responder with view `responder` has been given a
/// result.
pub open spec fn after_respond(s: WorldState, responder: Option<u64>) -> WorldState {
    match responder {
        None => s,
        Some(key) => after_start_in(s, key),
    }
}

/// What a responder with view `responder` hands back for `result` on a
/// world in state `s`.
pub open spec fn response<R>(s: WorldState, responder: Option<u64>, result: R) -> Option<
    Invocation<R>,
> {
    match responder {
        None => None,
        Some(key) => match started_in(s, key, result) {
            Ok(invocation) => Some(invocation),
            Err(_) => None,
        },
    }
}

impl Responder {
    /// Responds to `result`. The no-op responder discards it and leaves the
    /// world as it is. A unit is started on exactly this result; where it is
    /// running already, or the world refuses a registry, the result is
    /// dropped. Whatever the unit will return is dropped as well.
    pub fn respond<R>(self, world: &mut World, result: R) -> (started: Option<Invocation<R>>)
        ensures
            state(*final(world)) == after_respond(state(*old(world)), self@),
            started == response(state(*old(world)), self@, result),
            self@ is None || state(*old(world)).systems_refused ==> *final(world) == *old(world),
            started matches Some(invocation) ==> invocation.system.0 < systems(*final(world)).len()
                && systems(*final(world))[invocation.system.0 as int] == (CachedSystem {
                key: self@->0,
                running: true,
            }) && distinct_keys(systems(*final(world))),
    {
        match self {
            Responder::Noop => None,
            Responder::System(unit) => {
                let system = SystemDef { key: unit.key, captured: 0 };
                match start_system_cached(world, system, result) {
                    Ok(invocation) => Some(invocation),
                    Err(_) => None,
                }
            },
        }
    }
}

/// Marks the conversion of a unit definition into a [`Responder`].
pub struct SystemResponderMarker;

/// Conversion into a [`Responder`].
pub trait IntoResponder<M>: Sized {
    /// Whether the value may be converted. A unit definition that captures
    /// state may not.
    spec fn convertible(&self) -> bool;

    /// The view of the responder the value converts into.
    spec fn responder(&self) -> Option<u64>;

    /// Converts this value into a [`Responder`].
    fn into_responder(self) -> (r: Responder)
        requires
            self.convertible(),
        ensures
            r@ == self.responder(),
    ;
}

/// Every [`Responder`] converts into itself.
impl IntoResponder<()> for Responder {
    open spec fn convertible(&self) -> bool {
        true
    }

    open spec fn responder(&self) -> Option<u64> {
        self@
    }

    fn into_responder(self) -> (r: Responder) {
        self
    }
}

/// The unit value is the responder that does nothing.
impl IntoResponder<()> for () {
    open spec fn convertible(&self) -> bool {
        true
    }

    open spec fn responder(&self) -> Option<u64> {
        None
    }

    fn into_responder(self) -> (r: Responder) {
        Responder::Noop
    }
}

/// A unit definition converts into the responder that runs it, provided it
/// captures nothing.
impl IntoResponder<SystemResponderMarker> for SystemDef {
    open spec fn convertible(&self) -> bool {
        self.stateless()
    }

    open spec fn responder(&self) -> Option<u64> {
        Some(self.key)
    }

    fn into_responder(self) -> (r: Responder) {
        Responder::System(SystemResponder { key: self.key })
    }
}

} // verus!
