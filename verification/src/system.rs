//! Cached computation units ("systems"): registered once per key, reused by
//! every later invocation, and guarded against re-entry.

use bevy_ecs::world::World;
use vstd::prelude::*;
use crate::state::{
    insert_systems, registration_of_systems, remove_systems, state, systems,
    systems_registration, WorldState,
};

verus! {

/// The definition of a computation unit as a call site names it: a stable
/// key for its type, and the number of bytes of state it captures. The key
/// stands for the type: units are told apart by their keys alone, so one
/// type under two keys is two units, and two types under one key are one.
#[derive(Clone, Copy, Debug, PartialEq, Eq, Structural)]
pub struct SystemDef {
    pub key: u64,
    pub captured: usize,
}

impl SystemDef {
    /// Whether the definition captures no state. Only such a definition may
    /// be cached: any two values of it are interchangeable.
    pub open spec fn stateless(&self) -> bool {
        self.captured == 0
    }

    /// The definition, under `key`, of a unit whose type is that of `system`:
    /// it captures as many bytes as a value of that type takes. A plain
    /// function and a closure that captures nothing take none.
    pub fn of<S>(system: &S, key: u64) -> (def: SystemDef)
        ensures
            def.key == key,
            def.captured as nat == vstd::layout::size_of::<S>(),
    {
        SystemDef { key, captured: core::mem::size_of::<S>() }
    }

    /// Executable form of [`SystemDef::stateless`].
    pub fn is_stateless(&self) -> (b: bool)
        ensures
            b == self.stateless(),
    {
        self.captured == 0
    }
}

/// Handle of a cached unit: its slot in the registry.
#[derive(Clone, Copy, Debug, PartialEq, Eq, Structural)]
pub struct SystemId(pub usize);

/// One cached unit: the key it was registered under and its lock.
#[derive(Clone, Copy, Debug, PartialEq, Eq, Structural)]
pub struct CachedSystem {
    pub key: u64,
    pub running: bool,
}

/// Why a cached unit could not be started.
#[derive(Clone, Copy, Debug, PartialEq, Eq, Structural)]
pub enum RegisteredSystemError {
    /// The unit is already running: it was started from within itself.
    Recursive,
    /// The world refuses a registry of cached units, so nothing can be
    /// cached in it.
    StorageRefused,
}

/// A cached unit that has been started: the caller runs it on `input` and
/// then reports back with [`finish_system`].
#[derive(Debug, PartialEq, Eq)]
pub struct Invocation<I> {
    /// The unit to run.
    pub system: SystemId,
    /// Whether this is the first use of the unit, so that it has to be
    /// initialized before it runs.
    pub init: bool,
    /// The value to run it on.
    pub input: I,
}

/// Whether some slot of `slots` holds `key`.
pub open spec fn registered(slots: Seq<CachedSystem>, key: u64) -> bool {
    exists|i: int| 0 <= i < slots.len() && #[trigger] slots[i].key == key
}

/// The slot of `key` in `slots`; meaningful where `key` is registered.
pub open spec fn slot_of(slots: Seq<CachedSystem>, key: u64) -> int {
    choose|i: int| 0 <= i < slots.len() && #[trigger] slots[i].key == key
}

/// No key occurs in two slots.
pub open spec fn distinct_keys(slots: Seq<CachedSystem>) -> bool {
    forall|i: int, j: int|
        0 <= i < slots.len() && 0 <= j < slots.len() && #[trigger] slots[i].key
            == #[trigger] slots[j].key ==> i == j
}

/// The slots after `key` has been looked up: unchanged where it is already
/// registered, otherwise extended by a fresh, idle slot for it.
pub open spec fn with_system(slots: Seq<CachedSystem>, key: u64) -> Seq<CachedSystem> {
    if registered(slots, key) {
        slots
    } else {
        slots.push(CachedSystem { key, running: false })
    }
}

/// Looking a key up keeps the keys distinct.
pub proof fn lemma_with_system_distinct(slots: Seq<CachedSystem>, key: u64)
    requires
        distinct_keys(slots),
    ensures
        distinct_keys(with_system(slots, key)),
{
    let grown = with_system(slots, key);
    if !registered(slots, key) {
        assert forall|i: int, j: int|
            0 <= i < grown.len() && 0 <= j < grown.len() && #[trigger] grown[i].key
                == #[trigger] grown[j].key implies i == j by {
            if i < slots.len() {
                assert(slots[i].key == grown[i].key);
            }
            if j < slots.len() {
                assert(slots[j].key == grown[j].key);
            }
        }
    }
}

/// Whether starting the unit `key` is refused because it is running.
pub open spec fn start_refused(slots: Seq<CachedSystem>, key: u64) -> bool {
    exists|i: int| 0 <= i < slots.len() && (#[trigger] slots[i]).key == key && slots[i].running
}

/// The cached units after an attempt to start the unit `key`: it is
/// registered if it was not, and it is running.
pub open spec fn after_start(slots: Seq<CachedSystem>, key: u64) -> Seq<CachedSystem> {
    with_system(slots, key).map_values(
        |unit: CachedSystem|
            if unit.key == key {
                CachedSystem { key, running: true }
            } else {
                unit
            },
    )
}

/// What starting the unit `key` on `input` hands back where the cached units
/// are `slots`.
pub open spec fn started<I>(slots: Seq<CachedSystem>, key: u64, input: I) -> Result<
    Invocation<I>,
    RegisteredSystemError,
> {
    if start_refused(slots, key) {
        Err(RegisteredSystemError::Recursive)
    } else {
        Ok(
            Invocation {
                system: SystemId(slot_of(after_start(slots, key), key) as usize),
                init: !registered(slots, key),
                input,
            },
        )
    }
}

/// The cached units after the unit behind `id` has been released.
pub open spec fn after_finish(slots: Seq<CachedSystem>, id: SystemId) -> Seq<CachedSystem> {
    if id.0 < slots.len() {
        slots.update(id.0 as int, CachedSystem { key: slots[id.0 as int].key, running: false })
    } else {
        slots
    }
}

/// The registry of cached units. Slots are never removed, so a handle stays
/// valid for as long as the registry lives, and no key has two slots.
pub struct SystemRegistry {
    slots: Vec<CachedSystem>,
}

impl View for SystemRegistry {
    type V = Seq<CachedSystem>;

    closed spec fn view(&self) -> Seq<CachedSystem> {
        self.slots@
    }
}

impl SystemRegistry {
    #[verifier::type_invariant]
    spec fn one_slot_per_key(self) -> bool {
        distinct_keys(self.slots@)
    }

    /// A registry without units.
    pub fn new() -> (registry: Self)
        ensures
            registry@ == Seq::<CachedSystem>::empty(),
    {
        SystemRegistry { slots: Vec::new() }
    }

    /// Number of units registered so far, which is also the number of
    /// initializations that have taken place.
    pub fn len(&self) -> (n: usize)
        ensures
            n == self@.len(),
            distinct_keys(self@),
    {
        proof {
            use_type_invariant(self);
        }
        self.slots.len()
    }

    /// The handle of the unit registered under `key`, if there is one.
    pub fn find(&self, key: u64) -> (r: Option<SystemId>)
        ensures
            r is Some <==> registered(self@, key),
            r matches Some(id) ==> id.0 == slot_of(self@, key) && id.0 < self@.len()
                && self@[id.0 as int].key == key,
    {
        proof {
            use_type_invariant(self);
        }
        let mut i: usize = 0;
        while i < self.slots.len()
            invariant
                i <= self.slots@.len(),
                forall|j: int| 0 <= j < i ==> (#[trigger] self.slots@[j]).key != key,
                distinct_keys(self.slots@),
            decreases self.slots@.len() - i,
        {
            if self.slots[i].key == key {
                return Some(SystemId(i));
            }
            i += 1;
        }
        None
    }

    /// Looks `key` up, registering it on first use. The flag tells whether
    /// this call registered it, that is, whether the unit has to be
    /// initialized now.
    pub fn get_or_init(&mut self, key: u64) -> (r: (SystemId, bool))
        ensures
            final(self)@ == with_system(old(self)@, key),
            r.1 == !registered(old(self)@, key),
            r.0.0 == slot_of(final(self)@, key),
            r.0.0 < final(self)@.len(),
            final(self)@[r.0.0 as int].key == key,
    {
        proof {
            use_type_invariant(&*self);
        }
        match self.find(key) {
            Some(id) => (id, false),
            None => {
                let mut slots = Vec::new();
                std::mem::swap(&mut self.slots, &mut slots);
                let id = SystemId(slots.len());
                slots.push(CachedSystem { key, running: false });
                proof {
                    lemma_with_system_distinct(old(self)@, key);
                    assert(slots@[id.0 as int].key == key);
                    assert(registered(slots@, key));
                }
                std::mem::swap(&mut self.slots, &mut slots);
                (id, true)
            },
        }
    }

    /// The key of the unit behind `id`, if the handle names one.
    pub fn key_of(&self, id: SystemId) -> (key: Option<u64>)
        ensures
            id.0 < self@.len() ==> key == Some(self@[id.0 as int].key),
            id.0 >= self@.len() ==> key is None,
    {
        if id.0 < self.slots.len() {
            Some(self.slots[id.0].key)
        } else {
            None
        }
    }

    /// Whether the unit behind `id` is running right now.
    pub fn is_running(&self, id: SystemId) -> (b: bool)
        ensures
            b == (id.0 < self@.len() && self@[id.0 as int].running),
    {
        id.0 < self.slots.len() && self.slots[id.0].running
    }

    /// Takes the lock of the unit behind `id`. Succeeds exactly when the
    /// handle is valid and the unit is idle; otherwise nothing changes.
    pub fn try_lock(&mut self, id: SystemId) -> (taken: bool)
        ensures
            taken == (id.0 < old(self)@.len() && !old(self)@[id.0 as int].running),
            taken ==> final(self)@ == old(self)@.update(
                id.0 as int,
                CachedSystem { key: old(self)@[id.0 as int].key, running: true },
            ),
            !taken ==> final(self)@ == old(self)@,
    {
        proof {
            use_type_invariant(&*self);
        }
        if id.0 < self.slots.len() && !self.slots[id.0].running {
            let key = self.slots[id.0].key;
            let mut slots = Vec::new();
            std::mem::swap(&mut self.slots, &mut slots);
            slots.set(id.0, CachedSystem { key, running: true });
            std::mem::swap(&mut self.slots, &mut slots);
            true
        } else {
            false
        }
    }

    /// Releases the lock of the unit behind `id`. An invalid handle changes
    /// nothing.
    pub fn unlock(&mut self, id: SystemId)
        ensures
            final(self)@ == after_finish(old(self)@, id),
    {
        proof {
            use_type_invariant(&*self);
        }
        if id.0 < self.slots.len() {
            let key = self.slots[id.0].key;
            let mut slots = Vec::new();
            std::mem::swap(&mut self.slots, &mut slots);
            slots.set(id.0, CachedSystem { key, running: false });
            std::mem::swap(&mut self.slots, &mut slots);
        }
    }
}

/// The state after the cached units of a world in state `s` have become
/// `slots`.
pub open spec fn with_systems(s: WorldState, slots: Seq<CachedSystem>) -> WorldState {
    WorldState { systems: slots, ..s }
}

/// The state after the unit `key` has been looked up in a world in state
/// `s`. A world that refuses a registry stays as it is.
pub open spec fn after_register(s: WorldState, key: u64) -> WorldState {
    if s.systems_refused {
        s
    } else {
        with_systems(s, with_system(s.systems, key))
    }
}

/// What looking the unit `key` up hands back in a world in state `s`: its
/// handle, and whether it is new; nothing where the world refuses a
/// registry.
pub open spec fn registration(s: WorldState, key: u64) -> Option<(SystemId, bool)> {
    if s.systems_refused {
        None
    } else {
        Some(
            (
                SystemId(slot_of(with_system(s.systems, key), key) as usize),
                !registered(s.systems, key),
            ),
        )
    }
}

/// The state after an attempt to start the unit `key` in a world in state
/// `s`. A world that refuses a registry stays as it is.
pub open spec fn after_start_in(s: WorldState, key: u64) -> WorldState {
    if s.systems_refused {
        s
    } else {
        with_systems(s, after_start(s.systems, key))
    }
}

/// What starting the unit `key` on `input` hands back in a world in state
/// `s`.
pub open spec fn started_in<I>(s: WorldState, key: u64, input: I) -> Result<
    Invocation<I>,
    RegisteredSystemError,
> {
    if s.systems_refused {
        Err(RegisteredSystemError::StorageRefused)
    } else {
        started(s.systems, key, input)
    }
}

/// Takes the registry out of `world`, or makes one where the world holds
/// none yet. Hands over nothing where the world refuses a registry.
fn take_registry(world: &mut World) -> (registry: Option<SystemRegistry>)
    ensures
        registry is None <==> state(*old(world)).systems_refused,
        registry is None ==> *final(world) == *old(world),
        registry matches Some(taken) ==> {
            &&& taken@ == systems(*old(world))
            &&& distinct_keys(taken@)
            &&& systems_registration(*final(world)) != Some(false)
            &&& state(*final(world)) == with_systems(state(*old(world)), Seq::empty())
        },
{
    match remove_systems(world) {
        Some(registry) => {
            proof {
                use_type_invariant(&registry);
            }
            Some(registry)
        },
        None => match registration_of_systems(world) {
            Some(false) => None,
            _ => {
                let registry = SystemRegistry::new();
                proof {
                    use_type_invariant(&registry);
                }
                Some(registry)
            },
        },
    }
}

/// Looks the unit `key` up in the registry of `world`, registering it on
/// first use. The flag tells whether this call registered it, so that it has
/// to be initialized now. Nothing is looked up in a world that refuses a
/// registry.
pub fn register_system_cached(world: &mut World, key: u64) -> (r: Option<(SystemId, bool)>)
    ensures
        state(*final(world)) == after_register(state(*old(world)), key),
        r == registration(state(*old(world)), key),
        r is None ==> *final(world) == *old(world),
        r matches Some(found) ==> found.0.0 < systems(*final(world)).len() && systems(
            *final(world),
        )[found.0.0 as int].key == key && distinct_keys(systems(*final(world))),
{
    let Some(mut registry) = take_registry(world) else {
        return None;
    };
    let r = registry.get_or_init(key);
    proof {
        use_type_invariant(&registry);
    }
    insert_systems(world, registry);
    Some(r)
}

/// Starts the cached unit `system` on `input`. The unit is registered on
/// first use and locked until [`finish_system`] releases it; a unit that is
/// running already is not started again, and none is started in a world that
/// refuses a registry. Only a definition without captured state can be
/// cached.
pub fn start_system_cached<I>(world: &mut World, system: SystemDef, input: I) -> (r: Result<
    Invocation<I>,
    RegisteredSystemError,
>)
    requires
        system.stateless(),
    ensures
        state(*final(world)) == after_start_in(state(*old(world)), system.key),
        r == started_in(state(*old(world)), system.key, input),
        state(*old(world)).systems_refused ==> *final(world) == *old(world),
        r matches Ok(invocation) ==> invocation.system.0 < systems(*final(world)).len() && systems(
            *final(world),
        )[invocation.system.0 as int] == (CachedSystem { key: system.key, running: true })
            && distinct_keys(systems(*final(world))),
{
    let Some(mut registry) = take_registry(world) else {
        return Err(RegisteredSystemError::StorageRefused);
    };
    let ghost before = registry@;
    let (id, init) = registry.get_or_init(system.key);
    let ghost looked_up = registry@;
    let taken = registry.try_lock(id);
    proof {
        use_type_invariant(&registry);
        let slots = registry@;
        let key = system.key;
        assert(looked_up[id.0 as int].key == key);
        assert(slots[id.0 as int].key == key);
        lemma_with_system_distinct(before, key);
        assert(slots =~= after_start(before, key));
        let expected = after_start(before, key);
        assert(expected[id.0 as int].key == key);
        assert(registered(expected, key));
        assert(expected[slot_of(expected, key)].key == looked_up[id.0 as int].key);
        assert(slot_of(expected, key) == id.0);
        if taken {
            if start_refused(before, key) {
                let i = choose|i: int|
                    0 <= i < before.len() && (#[trigger] before[i]).key == key
                        && before[i].running;
                assert(looked_up[i].key == looked_up[id.0 as int].key);
            }
        } else {
            if !registered(before, key) {
                assert(looked_up[id.0 as int] == CachedSystem { key, running: false });
            }
            assert(before[id.0 as int].running);
        }
    }
    insert_systems(world, registry);
    if taken {
        Ok(Invocation { system: id, init, input })
    } else {
        Err(RegisteredSystemError::Recursive)
    }
}

/// Releases a unit that [`start_system_cached`] started. A handle that names
/// no unit changes nothing.
pub fn finish_system(world: &mut World, id: SystemId)
    ensures
        state(*final(world)) == with_systems(
            state(*old(world)),
            after_finish(systems(*old(world)), id),
        ),
        distinct_keys(systems(*final(world))),
{
    if let Some(mut registry) = remove_systems(world) {
        registry.unlock(id);
        proof {
            use_type_invariant(&registry);
        }
        insert_systems(world, registry);
    }
}

} // verus!
