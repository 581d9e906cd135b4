//! The shared state of a build pass. It lives in a bevy [`World`] as three
//! resources: the rendering context of the frame, the stack of open regions
//! and the registry of cached units.
//!
//! A world keeps a resource either for any thread or bound to the thread
//! that made it, by the type of the resource, and settles this when the type
//! is first used. The engine stores its resources for any thread. A world in
//! which somebody has used one of their types the other way cannot hold that
//! resource: the engine asks before it stores, and reports.

use bevy_ecs::system::Resource;
use bevy_ecs::world::World;
use egui::Context;
use vstd::prelude::*;
use crate::system::{CachedSystem, SystemRegistry};
use crate::ui::{Region, UiStack};

verus! {

/// bevy's `World`, the container of the shared state. Nothing is known of a
/// value of it but what the functions below say.
#[verifier::external_type_specification]
#[verifier::external_body]
pub struct ExWorld(bevy_ecs::world::World);

/// egui's `Context`, the handle of a rendering context. It is carried from
/// the world to whoever opens a top-level region, and nothing is known of
/// it.
#[verifier::external_type_specification]
#[verifier::external_body]
pub struct ExContext(egui::Context);

/// Handle of an open region, by which the toolkit finds what it opened.
#[derive(Clone, Copy, Debug, PartialEq, Eq, Structural)]
pub struct RegionId(pub usize);

/// The rendering context of the primary window, as a resource. Whoever runs
/// the frame inserts it while there is a window to draw into.
pub struct EguiContext(pub Context);

impl Resource for EguiContext {}

impl Resource for UiStack<RegionId> {}

impl Resource for SystemRegistry {}

/// The rendering context that `world` holds under [`EguiContext`], if it
/// holds one.
pub uninterp spec fn context_of(world: World) -> Option<Context>;

/// The open regions of the stack that `world` holds as a resource, outermost
/// first, if it holds one.
pub uninterp spec fn stack_of(world: World) -> Option<Seq<Region<RegionId>>>;

/// The slots of the registry that `world` holds as a resource, if it holds
/// one.
pub uninterp spec fn systems_of(world: World) -> Option<Seq<CachedSystem>>;

/// How `world` has the type of the region stack registered as a resource:
/// not at all (`None`), as one that any thread may hold (`Some(true)`), or as
/// one that is bound to the thread that made it (`Some(false)`). A type is
/// registered the first time a value of it is inserted, and stays so.
pub uninterp spec fn stack_registration(world: World) -> Option<bool>;

/// How `world` has the type of the registry of cached units registered as a
/// resource; read as [`stack_registration`].
pub uninterp spec fn systems_registration(world: World) -> Option<bool>;

/// What the engine's decisions depend on, as plain mathematics.
pub struct WorldState {
    /// The active rendering context, if there is one.
    pub context: Option<Context>,
    /// The open regions, outermost first; `None` while no build is in
    /// progress.
    pub stack: Option<Seq<Region<RegionId>>>,
    /// The cached units, in the order of their registration.
    pub systems: Seq<CachedSystem>,
    /// Whether the world refuses a region stack: it keeps the type of the
    /// stack as a resource that is bound to one thread.
    pub stack_refused: bool,
    /// Whether the world refuses a registry of cached units, for the same
    /// reason.
    pub systems_refused: bool,
}

/// The cached units of `world`; none where it holds no registry yet.
pub open spec fn systems(world: World) -> Seq<CachedSystem> {
    match systems_of(world) {
        Some(slots) => slots,
        None => Seq::empty(),
    }
}

/// The state of `world` as far as the engine is concerned.
pub open spec fn state(world: World) -> WorldState {
    WorldState {
        context: context_of(world),
        stack: stack_of(world),
        systems: systems(world),
        stack_refused: stack_registration(world) == Some(false),
        systems_refused: systems_registration(world) == Some(false),
    }
}

/// `World::get_resource`, asked for [`EguiContext`]: hands out a copy of the
/// context handle that the world holds, or nothing where it holds none.
#[verifier::external_body]
pub(crate) fn get_context(world: &World) -> (context: Option<Context>)
    ensures
        context == context_of(*world),
{
    world.get_resource::<EguiContext>().map(|found| found.0.clone())
}

/// `Clone::clone` of egui's `Context`: another handle of the same context.
#[verifier::external_body]
pub(crate) fn clone_context(context: &Context) -> (copy: Context)
    ensures
        copy == *context,
{
    context.clone()
}

/// `World::resource_id`, `Components::get_info` and
/// `ComponentInfo::is_send_and_sync`, asked in a row for the type of the
/// region stack: tells how the world has that type registered.
#[verifier::external_body]
pub(crate) fn registration_of_stack(world: &World) -> (registration: Option<bool>)
    ensures
        registration == stack_registration(*world),
{
    world
        .resource_id::<UiStack<RegionId>>()
        .and_then(|id| world.components().get_info(id))
        .map(|info| info.is_send_and_sync())
}

/// `World::resource_id`, `Components::get_info` and
/// `ComponentInfo::is_send_and_sync`, asked in a row for the type of the
/// registry of cached units: tells how the world has that type registered.
#[verifier::external_body]
pub(crate) fn registration_of_systems(world: &World) -> (registration: Option<bool>)
    ensures
        registration == systems_registration(*world),
{
    world
        .resource_id::<SystemRegistry>()
        .and_then(|id| world.components().get_info(id))
        .map(|info| info.is_send_and_sync())
}

/// `World::remove_resource`, asked for the region stack: takes the stack out
/// of the world and hands it over, or hands over nothing, and leaves the
/// world as it is, where the world holds none. A world that holds one has
/// its type registered for any thread. The other resources and every
/// registration stay as they are.
#[verifier::external_body]
pub(crate) fn remove_stack(world: &mut World) -> (stack: Option<UiStack<RegionId>>)
    ensures
        stack_of(*final(world)) is None,
        context_of(*final(world)) == context_of(*old(world)),
        systems_of(*final(world)) == systems_of(*old(world)),
        stack_registration(*final(world)) == stack_registration(*old(world)),
        systems_registration(*final(world)) == systems_registration(*old(world)),
        stack is Some <==> stack_of(*old(world)) is Some,
        stack matches Some(taken) ==> stack_of(*old(world)) == Some(taken@)
            && stack_registration(*old(world)) == Some(true),
        stack is None ==> *final(world) == *old(world),
{
    world.remove_resource::<UiStack<RegionId>>()
}

/// `World::insert_resource`, given a region stack: afterwards the world holds
/// this stack, in place of one it may have held before, and has its type
/// registered for any thread. The other resources and the other
/// registration stay as they are. The call panics on a world that has the
/// type registered as bound to one thread, so such a world is left out.
#[verifier::external_body]
pub(crate) fn insert_stack(world: &mut World, stack: UiStack<RegionId>)
    requires
        stack_registration(*old(world)) != Some(false),
    ensures
        stack_of(*final(world)) == Some(stack@),
        stack_registration(*final(world)) == Some(true),
        context_of(*final(world)) == context_of(*old(world)),
        systems_of(*final(world)) == systems_of(*old(world)),
        systems_registration(*final(world)) == systems_registration(*old(world)),
{
    world.insert_resource(stack);
}

/// `World::remove_resource`, asked for the registry of cached units: takes
/// the registry out of the world and hands it over, or hands over nothing,
/// and leaves the world as it is, where the world holds none. A world that
/// holds one has its type registered for any thread. The other resources and
/// every registration stay as they are.
#[verifier::external_body]
pub(crate) fn remove_systems(world: &mut World) -> (registry: Option<SystemRegistry>)
    ensures
        systems_of(*final(world)) is None,
        context_of(*final(world)) == context_of(*old(world)),
        stack_of(*final(world)) == stack_of(*old(world)),
        stack_registration(*final(world)) == stack_registration(*old(world)),
        systems_registration(*final(world)) == systems_registration(*old(world)),
        registry is Some <==> systems_of(*old(world)) is Some,
        registry matches Some(taken) ==> systems_of(*old(world)) == Some(taken@)
            && systems_registration(*old(world)) == Some(true),
        registry is None ==> *final(world) == *old(world),
{
    world.remove_resource::<SystemRegistry>()
}

/// `World::insert_resource`, given a registry of cached units: afterwards the
/// world holds this registry, in place of one it may have held before, and
/// has its type registered for any thread. The other resources and the other
/// registration stay as they are. The call panics on a world that has the
/// type registered as bound to one thread, so such a world is left out.
#[verifier::external_body]
pub(crate) fn insert_systems(world: &mut World, registry: SystemRegistry)
    requires
        systems_registration(*old(world)) != Some(false),
    ensures
        systems_of(*final(world)) == Some(registry@),
        systems_registration(*final(world)) == Some(true),
        context_of(*final(world)) == context_of(*old(world)),
        stack_of(*final(world)) == stack_of(*old(world)),
        stack_registration(*final(world)) == stack_registration(*old(world)),
{
    world.insert_resource(registry);
}

} // verus!
