//! What a command decides: diagnostics, and the toolkit operations that
//! whoever drives the engine has to carry out, in order.

use egui::Context;
use std::collections::VecDeque;
use vstd::prelude::*;
use crate::container::{BeginContainer, EndContainer};
use crate::responder::Responder;
use crate::root::{BeginRoot, EndRoot};
use crate::state::RegionId;
use crate::system::SystemId;
use crate::widget::Widget;

verus! {

/// What can go wrong while a command is applied. None of these stops the
/// pass: the command reports and the next one runs.
#[derive(Clone, Copy, Debug, PartialEq, Eq, Structural)]
pub enum Diagnostic {
    /// A top-level region was to be opened without a rendering context.
    MissingContext,
    /// A command ran while no region stack was live.
    MissingStack,
    /// A command needed an open region that is not there.
    StackUnderflow,
    /// A top-level region was closed at a depth other than 1.
    UnbalancedNesting,
    /// A region was closed by another kind than it was opened with.
    DowncastMismatch,
    /// The world refuses the resource that a command has to store: it keeps
    /// the type of the region stack, or of the registry of cached units, as
    /// a resource that is bound to one thread.
    StorageRefused,
}

/// One step for the driver of the engine.
#[allow(inconsistent_fields)]
#[derive(Debug, PartialEq)]
pub enum Effect<P> {
    /// Emit this diagnostic.
    Report(Diagnostic),
    /// Initialize this cached unit against the shared state: it is used for
    /// the first time.
    Init(SystemId),
    /// Open a top-level region in `context`.
    BeginRoot { begin: BeginRoot<P>, context: Context },
    /// Close the top-level region, after dropping the `unclosed` regions that
    /// were left open inside it.
    EndRoot { end: EndRoot, unclosed: usize },
    /// Open a region inside `parent` and know it as `region`.
    BeginContainer { begin: BeginContainer<P>, parent: RegionId, region: RegionId },
    /// Close `region` against `parent` and give its result to `respond`.
    EndContainer { end: EndContainer, parent: RegionId, region: RegionId, respond: Responder },
    /// Draw `widget` into `region` and give its result to `respond`.
    Draw { widget: Widget<P>, region: RegionId, respond: Responder },
}

/// The effects that initialize `fresh`, in order.
pub open spec fn inits<P>(fresh: Seq<SystemId>) -> Seq<Effect<P>> {
    fresh.map_values(|id: SystemId| Effect::Init(id))
}

/// Asks for the initialization of each of `fresh`, in order.
pub fn init_effects<P>(fresh: Vec<SystemId>) -> (effects: Vec<Effect<P>>)
    ensures
        effects@ == inits::<P>(fresh@),
{
    let mut effects: Vec<Effect<P>> = Vec::new();
    let mut i: usize = 0;
    while i < fresh.len()
        invariant
            i <= fresh@.len(),
            effects@ == inits::<P>(fresh@.take(i as int)),
        decreases fresh@.len() - i,
    {
        effects.push(Effect::Init(fresh[i]));
        proof {
            assert(fresh@.take(i + 1) == fresh@.take(i as int).push(fresh@[i as int]));
            assert(effects@ =~= inits::<P>(fresh@.take(i + 1)));
        }
        i += 1;
    }
    proof {
        assert(fresh@.take(i as int) == fresh@);
    }
    effects
}

/// The units that `effects` ask to initialize, in order.
pub open spec fn new_units<P>(effects: Seq<Effect<P>>) -> Seq<SystemId>
    decreases effects.len(),
{
    if effects.len() == 0 {
        Seq::empty()
    } else {
        let earlier = new_units(effects.drop_last());
        match effects.last() {
            Effect::Init(id) => earlier.push(id),
            _ => earlier,
        }
    }
}

/// The units that `effects` ask to initialize, in order. A region that the
/// toolkit does not show draws nothing, but the units that its body
/// registered are registered all the same, and have to be initialized.
pub fn units_to_init<P>(effects: &VecDeque<Effect<P>>) -> (units: Vec<SystemId>)
    ensures
        units@ == new_units(effects@),
{
    let mut units: Vec<SystemId> = Vec::new();
    let mut i: usize = 0;
    while i < effects.len()
        invariant
            i <= effects@.len(),
            units@ == new_units(effects@.take(i as int)),
        decreases effects@.len() - i,
    {
        proof {
            let next = effects@.take(i + 1);
            assert(next.drop_last() == effects@.take(i as int));
            assert(next.last() == effects@[i as int]);
        }
        match &effects[i] {
            Effect::Init(id) => units.push(*id),
            _ => {},
        }
        i += 1;
    }
    proof {
        assert(effects@.take(i as int) == effects@);
    }
    units
}

/// The last of `results` that is there, if any is.
pub open spec fn last_of<R>(results: Seq<Option<R>>) -> Option<R>
    decreases results.len(),
{
    if results.len() == 0 {
        None
    } else if results.last() is Some {
        results.last()
    } else {
        last_of(results.drop_last())
    }
}

/// The result that stands for a widget of several elements: that of the
/// last element that gave one. This is what the responder of the widget
/// gets.
pub fn last_result<R>(results: Vec<Option<R>>) -> (last: Option<R>)
    ensures
        last == last_of(results@),
{
    let mut rest = results;
    loop
        invariant
            last_of(rest@) == last_of(results@),
        decreases rest@.len(),
    {
        match rest.pop() {
            None => {
                return None;
            },
            Some(Some(result)) => {
                return Some(result);
            },
            Some(None) => {},
        }
    }
}

/// What an effect does to the nesting of regions.
#[derive(Clone, Copy, Debug, PartialEq, Eq, Structural)]
pub enum Nesting {
    /// Opens a region inside the current one.
    Opens,
    /// Closes the innermost region.
    Closes,
    /// Closes the top-level region and with it every region inside.
    ClosesAll,
    /// Leaves the nesting as it is.
    Keeps,
}

impl<P> Effect<P> {
    /// What this effect does to the nesting of regions.
    pub open spec fn nesting(&self) -> Nesting {
        match self {
            Effect::BeginContainer { .. } => Nesting::Opens,
            Effect::EndContainer { .. } => Nesting::Closes,
            Effect::EndRoot { .. } => Nesting::ClosesAll,
            _ => Nesting::Keeps,
        }
    }

    /// Executable form of [`Effect::nesting`].
    pub fn nests(&self) -> (nesting: Nesting)
        ensures
            nesting == self.nesting(),
    {
        match self {
            Effect::BeginContainer { .. } => Nesting::Opens,
            Effect::EndContainer { .. } => Nesting::Closes,
            Effect::EndRoot { .. } => Nesting::ClosesAll,
            _ => Nesting::Keeps,
        }
    }
}

/// How many of `effects` come before the effect that closes the region that
/// is open `depth` levels above their start: the effects up to the first
/// container end that no earlier container begin accounts for, or up to the
/// end of the top-level region, whichever comes first; all of them where
/// neither comes.
pub open spec fn body_len<P>(effects: Seq<Effect<P>>, depth: nat) -> nat
    decreases effects.len(),
{
    if effects.len() == 0 {
        0
    } else {
        match effects.first().nesting() {
            Nesting::ClosesAll => 0,
            Nesting::Closes => if depth == 0 {
                0
            } else {
                1 + body_len(effects.drop_first(), (depth - 1) as nat)
            },
            Nesting::Opens => 1 + body_len(effects.drop_first(), depth + 1),
            Nesting::Keeps => 1 + body_len(effects.drop_first(), depth),
        }
    }
}

/// Takes from the front of `effects` what fills the region that has just
/// been opened, and the end of that region with it. The body is everything
/// up to the matching container end, which is handed over as well. Where the
/// top-level region ends first, or the effects run out, the body stops
/// there, no end is handed over, and the end of the top-level region stays
/// in front.
pub fn take_region<P>(effects: &mut VecDeque<Effect<P>>) -> (region: (
    VecDeque<Effect<P>>,
    Option<Effect<P>>,
))
    ensures
        region.0@ == old(effects)@.take(body_len(old(effects)@, 0) as int),
        body_len(old(effects)@, 0) <= old(effects)@.len(),
        match region.1 {
            Some(end) => {
                &&& body_len(old(effects)@, 0) < old(effects)@.len()
                &&& end == old(effects)@[body_len(old(effects)@, 0) as int]
                &&& end.nesting() == Nesting::Closes
                &&& final(effects)@ == old(effects)@.skip(body_len(old(effects)@, 0) as int + 1)
            },
            None => {
                &&& final(effects)@ == old(effects)@.skip(body_len(old(effects)@, 0) as int)
                &&& final(effects)@.len() > 0 ==> final(effects)@.first().nesting()
                    == Nesting::ClosesAll
            },
        },
{
    let ghost all = effects@;
    let ghost mut taken: int = 0;
    let mut body: VecDeque<Effect<P>> = VecDeque::new();
    let mut depth: usize = 0;
    loop
        invariant
            all == old(effects)@,
            0 <= taken <= all.len(),
            body@ == all.take(taken),
            effects@ == all.skip(taken),
            depth <= taken,
            body_len(all, 0) == taken + body_len(all.skip(taken), depth as nat),
        decreases effects@.len(),
    {
        let Some(effect) = effects.pop_front() else {
            proof {
                assert(all.skip(taken).len() == 0);
            }
            return (body, None);
        };
        proof {
            assert(effect == all.skip(taken).first());
            assert(effect == all[taken]);
            assert(all.skip(taken).drop_first() == all.skip(taken + 1));
            assert(all.skip(taken).subrange(1, all.skip(taken).len() as int) == all.skip(
                taken + 1,
            ));
            assert(all.take(taken).push(effect) == all.take(taken + 1));
        }
        match effect.nests() {
            Nesting::ClosesAll => {
                effects.push_front(effect);
                proof {
                    assert(effects@ == all.skip(taken));
                }
                return (body, None);
            },
            Nesting::Closes => {
                if depth == 0 {
                    return (body, Some(effect));
                }
                depth -= 1;
                body.push_back(effect);
            },
            Nesting::Opens => {
                body.push_back(effect);
                proof {
                    // The depth is below the length of the body, which fits in `usize`.
                    assert(body@.len() == body.len());
                }
                depth += 1;
            },
            Nesting::Keeps => {
                body.push_back(effect);
            },
        }
        proof {
            taken = taken + 1;
        }
    }
}

} // verus!
