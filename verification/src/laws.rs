//! What holds of every script: nesting, order of delivery, and the identity
//! of cached units.

use vstd::prelude::*;
use crate::command::{
    balanced, nesting, root_script, run, step, Command, EndRootCommand, StartRootCommand,
};
use crate::container::ContainerKind;
use crate::ctx::shown_at_once;
use crate::effect::{body_len, inits, Diagnostic, Effect, Nesting};
use crate::root::{BeginRoot, EndRoot};
use crate::responder::{after_respond, response, IntoResponder, Responder, SystemResponderMarker};
use crate::state::{RegionId, WorldState};
use crate::system::{
    after_finish, after_start, after_start_in, distinct_keys, lemma_with_system_distinct,
    registered, slot_of, start_refused, started_in, with_system, with_systems, CachedSystem,
    Invocation, RegisteredSystemError, SystemDef, SystemId,
};
use crate::ui::{Region, RegionKind};
use crate::widget::{
    first_uses, has_system, prepare_refused, IntoWidget, SystemWidgetMarker, Widget,
};

verus! {
// Draining, step by step.

/// Draining one script after another is draining the two as one.
pub proof fn lemma_run_concat<P>(s: WorldState, first: Seq<Command<P>>, second: Seq<Command<P>>)
    ensures
        run(s, first + second) == ({
            let (between, earlier) = run(s, first);
            let (after, later) = run(between, second);
            (after, earlier + later)
        }),
    decreases second.len(),
{
    let (between, earlier) = run(s, first);
    if second.len() == 0 {
        assert(first + second == first);
        assert(earlier + Seq::<Effect<P>>::empty() == earlier);
    } else {
        lemma_run_concat(s, first, second.drop_last());
        assert((first + second).drop_last() == first + second.drop_last());
        assert((first + second).last() == second.last());
        let (before, mid) = run(between, second.drop_last());
        let (after, last) = step(before, second.last());
        assert(earlier + (mid + last) == (earlier + mid) + last);
    }
}

/// Draining a single command is applying it.
pub proof fn lemma_run_one<P>(s: WorldState, command: Command<P>)
    ensures
        run(s, seq![command]) == step(s, command),
{
    let script = seq![command];
    assert(script.drop_last() == Seq::<Command<P>>::empty());
    assert(run(s, script.drop_last()) == (s, Seq::<Effect<P>>::empty()));
    assert(Seq::<Effect<P>>::empty() + step(s, command).1 == step(s, command).1);
}

/// No command touches the rendering context, and none changes what the
/// world refuses.
pub proof fn lemma_run_keeps_context<P>(s: WorldState, script: Seq<Command<P>>)
    ensures
        run(s, script).0.context == s.context,
        run(s, script).0.stack_refused == s.stack_refused,
        run(s, script).0.systems_refused == s.systems_refused,
    decreases script.len(),
{
    if script.len() > 0 {
        lemma_run_keeps_context(s, script.drop_last());
    }
}

// Nesting: what a script does to the stack of open regions.

/// The regions that opening `open` pushes on a stack of depth `depth`.
pub open spec fn opened(depth: nat, open: Seq<ContainerKind>) -> Seq<Region<RegionId>> {
    Seq::new(
        open.len(),
        |i: int|
            Region { kind: RegionKind::Container(open[i]), data: RegionId((depth + i) as usize) },
    )
}

/// Where a script closes only what it opened, the stack it runs on is kept
/// below what it leaves open: without a live stack nothing is opened, on an
/// empty stack nothing is either, and otherwise the regions that were open
/// before stay, with the ones left open on top.
pub proof fn lemma_nested_stack<P>(s: WorldState, script: Seq<Command<P>>)
    requires
        nesting(script) is Some,
    ensures
        s.stack is None ==> run(s, script).0.stack is None,
        s.stack matches Some(regions) ==> run(s, script).0.stack == Some(
            if regions.len() == 0 {
                regions
            } else {
                regions + opened(regions.len(), nesting(script)->0)
            },
        ),
    decreases script.len(),
{
    if script.len() == 0 {
        if let Some(regions) = s.stack {
            assert(regions + opened(regions.len(), Seq::<ContainerKind>::empty()) == regions);
        }
    } else {
        let prefix = script.drop_last();
        lemma_nested_stack(s, prefix);
        let open = nesting(prefix)->0;
        let (before, _) = run(s, prefix);
        if let Some(regions) = s.stack {
            if regions.len() > 0 {
                let stack = regions + opened(regions.len(), open);
                assert(before.stack == Some(stack));
                match script.last() {
                    Command::StartContainer(c) => {
                        assert(stack.push(
                            Region {
                                kind: RegionKind::Container(c.0.kind),
                                data: RegionId(stack.len() as usize),
                            },
                        ) == regions + opened(regions.len(), open.push(c.0.kind)));
                    },
                    Command::EndContainer(c) => {
                        assert(stack.last() == opened(regions.len(), open).last());
                        assert(stack.drop_last() == regions + opened(
                            regions.len(),
                            open.drop_last(),
                        ));
                    },
                    _ => {},
                }
            }
        }
    }
}

/// A balanced script leaves the region stack as it found it, whatever the
/// stack held: the depth after the script is the depth before it.
pub proof fn lemma_balanced_restores_stack<P>(s: WorldState, script: Seq<Command<P>>)
    requires
        balanced(script),
    ensures
        run(s, script).0.stack == s.stack,
        run(s, script).0.context == s.context,
{
    lemma_nested_stack(s, script);
    lemma_run_keeps_context(s, script);
    if let Some(regions) = s.stack {
        assert(regions + opened(regions.len(), Seq::<ContainerKind>::empty()) == regions);
    }
}

/// A top-level region that is opened, filled by a balanced script and closed
/// leaves no region stack behind, with or without a rendering context. On a
/// world that was idle before, the depth is back at its value before the
/// script.
pub proof fn lemma_root_script_ends_idle<P>(
    s: WorldState,
    begin: BeginRoot<P>,
    body: Seq<Command<P>>,
)
    requires
        balanced(body),
    ensures
        run(s, root_script(begin, body)).0.stack is None,
        run(s, root_script(begin, body)).0.context == s.context,
{
    let start = Command::StartRoot(StartRootCommand(begin));
    let end = Command::<P>::EndRoot(EndRootCommand(EndRoot { kind: begin.kind }));
    lemma_run_keeps_context(s, root_script(begin, body));
    lemma_run_concat(s, seq![start] + body, seq![end]);
    lemma_run_concat(s, seq![start], body);
    lemma_run_one(s, start);
    let opened_up = step(s, start).0;
    lemma_balanced_restores_stack(opened_up, body);
    let filled = run(opened_up, body).0;
    lemma_run_one(filled, end);
}

/// With a rendering context, in a world that takes a region stack, the end
/// of a balanced top-level script finds the stack at depth one: the
/// top-level region alone, as it was opened.
pub proof fn lemma_root_script_closes_at_depth_one<P>(
    s: WorldState,
    begin: BeginRoot<P>,
    body: Seq<Command<P>>,
)
    requires
        s.context is Some,
        !s.stack_refused,
        balanced(body),
    ensures
        run(s, seq![Command::StartRoot(StartRootCommand(begin))] + body).0.stack == Some(
            seq![Region { kind: RegionKind::Root(begin.kind), data: RegionId(0) }],
        ),
{
    let start = Command::StartRoot(StartRootCommand(begin));
    lemma_run_concat(s, seq![start], body);
    lemma_run_one(s, start);
    lemma_balanced_restores_stack(step(s, start).0, body);
}

/// A queue that ends with a balanced top-level script leaves no region stack
/// behind, whatever was queued before it and whatever state it is drained
/// on.
pub proof fn lemma_queue_ends_idle<P>(
    s: WorldState,
    earlier: Seq<Command<P>>,
    begin: BeginRoot<P>,
    body: Seq<Command<P>>,
)
    requires
        balanced(body),
    ensures
        run(s, earlier + root_script(begin, body)).0.stack is None,
        run(s, earlier + root_script(begin, body)).0.context == s.context,
{
    lemma_run_concat(s, earlier, root_script(begin, body));
    lemma_run_keeps_context(s, earlier);
    lemma_root_script_ends_idle(run(s, earlier).0, begin, body);
}

/// Whether some widget that `script` queues holds a cached unit.
pub open spec fn holds_units<P>(script: Seq<Command<P>>) -> bool {
    exists|i: int|
        0 <= i < script.len() && (#[trigger] script[i] matches Command::Widget(c) && has_system(
            c.widget@,
        ))
}

/// Whether a world in state `s` takes the units of `script`: it refuses no
/// registry, or the script holds no unit.
pub open spec fn takes_units<P>(s: WorldState, script: Seq<Command<P>>) -> bool {
    !s.systems_refused || !holds_units(script)
}

/// A world that takes the units of a script takes those of its beginning.
pub proof fn lemma_takes_units_of_prefix<P>(s: WorldState, script: Seq<Command<P>>)
    requires
        script.len() > 0,
        takes_units(s, script),
    ensures
        takes_units(s, script.drop_last()),
        script.last() matches Command::Widget(c) ==> !prepare_refused(s, c.widget@),
{
    let prefix = script.drop_last();
    if s.systems_refused {
        if holds_units(prefix) {
            let i = choose|i: int|
                0 <= i < prefix.len() && (#[trigger] prefix[i] matches Command::Widget(c)
                    && has_system(c.widget@));
            assert(script[i] == prefix[i]);
        }
        if let Command::Widget(c) = script.last() {
            if has_system(c.widget@) {
                assert(script[script.len() - 1] == script.last());
            }
        }
    }
}

// Diagnostics.

/// The diagnostics among `effects`, in order.
pub open spec fn reports<P>(effects: Seq<Effect<P>>) -> Seq<Diagnostic>
    decreases effects.len(),
{
    if effects.len() == 0 {
        Seq::empty()
    } else {
        let earlier = reports(effects.drop_last());
        match effects.last() {
            Effect::Report(diagnostic) => earlier.push(diagnostic),
            _ => earlier,
        }
    }
}

/// What one more effect adds to the diagnostics.
pub proof fn lemma_reports_push<P>(effects: Seq<Effect<P>>, effect: Effect<P>)
    ensures
        reports(effects.push(effect)) == (match effect {
            Effect::Report(diagnostic) => reports(effects).push(diagnostic),
            _ => reports(effects),
        }),
{
    assert(effects.push(effect).drop_last() == effects);
}

/// The diagnostics of two runs of effects, one after the other.
pub proof fn lemma_reports_concat<P>(first: Seq<Effect<P>>, second: Seq<Effect<P>>)
    ensures
        reports(first + second) == reports(first) + reports(second),
    decreases second.len(),
{
    if second.len() == 0 {
        assert(first + second == first);
        assert(reports(first) + Seq::<Diagnostic>::empty() == reports(first));
    } else {
        lemma_reports_concat(first, second.drop_last());
        assert((first + second).drop_last() == first + second.drop_last());
        assert((first + second).last() == second.last());
        let earlier = reports(second.drop_last());
        match second.last() {
            Effect::Report(diagnostic) => {
                assert(reports(first) + earlier.push(diagnostic) == (reports(first)
                    + earlier).push(diagnostic));
            },
            _ => {},
        }
    }
}

/// Initializing units reports nothing.
pub proof fn lemma_inits_report_nothing<P>(fresh: Seq<SystemId>)
    ensures
        reports(inits::<P>(fresh)) == Seq::<Diagnostic>::empty(),
    decreases fresh.len(),
{
    if fresh.len() > 0 {
        lemma_inits_report_nothing::<P>(fresh.drop_last());
        assert(inits::<P>(fresh).drop_last() == inits::<P>(fresh.drop_last()));
    }
}

/// Inside an open region, in a world that takes its units, a script that
/// closes only what it opened reports nothing.
pub proof fn lemma_nested_script_reports_nothing<P>(s: WorldState, script: Seq<Command<P>>)
    requires
        s.stack is Some,
        s.stack->0.len() > 0,
        takes_units(s, script),
        nesting(script) is Some,
    ensures
        reports(run(s, script).1) == Seq::<Diagnostic>::empty(),
    decreases script.len(),
{
    if script.len() > 0 {
        let prefix = script.drop_last();
        lemma_takes_units_of_prefix(s, script);
        lemma_nested_script_reports_nothing(s, prefix);
        lemma_nested_stack(s, prefix);
        lemma_run_keeps_context(s, prefix);
        let (before, earlier) = run(s, prefix);
        let last = step(before, script.last()).1;
        lemma_reports_concat(earlier, last);
        let none = Seq::<Effect<P>>::empty();
        let open = nesting(prefix)->0;
        let stack = s.stack->0 + opened(s.stack->0.len(), open);
        assert(before.stack == Some(stack));
        assert(reports(none) == Seq::<Diagnostic>::empty());
        match script.last() {
            Command::Widget(c) => {
                let first = inits::<P>(first_uses(before.systems, c.widget@));
                lemma_inits_report_nothing::<P>(first_uses(before.systems, c.widget@));
                lemma_reports_push(first, last.last());
                assert(last == first.push(last.last()));
            },
            Command::EndContainer(c) => {
                assert(stack.last() == opened(s.stack->0.len(), open).last());
                assert(last == none.push(last[0]));
                lemma_reports_push(none, last[0]);
            },
            _ => {
                assert(last == none.push(last[0]));
                lemma_reports_push(none, last[0]);
            },
        }
        assert(Seq::<Diagnostic>::empty() + Seq::<Diagnostic>::empty() == Seq::<
            Diagnostic,
        >::empty());
    }
}

// Delivery: which results reach which responders, and in which order.

/// The results that `effects` deliver: for every draw, in order, the widget
/// that is drawn and the responder that gets its result.
pub open spec fn deliveries<P>(effects: Seq<Effect<P>>) -> Seq<(Widget<P>, Responder)>
    decreases effects.len(),
{
    if effects.len() == 0 {
        Seq::empty()
    } else {
        let earlier = deliveries(effects.drop_last());
        match effects.last() {
            Effect::Draw { widget, region, respond } => earlier.push((widget, respond)),
            _ => earlier,
        }
    }
}

/// The widgets that `script` queues, in order, each with its responder.
pub open spec fn queued_widgets<P>(script: Seq<Command<P>>) -> Seq<(Widget<P>, Responder)>
    decreases script.len(),
{
    if script.len() == 0 {
        Seq::empty()
    } else {
        let earlier = queued_widgets(script.drop_last());
        match script.last() {
            Command::Widget(c) => earlier.push((c.widget, c.respond)),
            _ => earlier,
        }
    }
}

/// Whether `part` is `whole` with some elements left out, the order of the
/// others kept.
pub open spec fn is_subsequence<T>(part: Seq<T>, whole: Seq<T>) -> bool
    decreases whole.len(),
{
    if part.len() == 0 {
        true
    } else if whole.len() == 0 {
        false
    } else {
        ||| part.last() == whole.last() && is_subsequence(part.drop_last(), whole.drop_last())
        ||| is_subsequence(part, whole.drop_last())
    }
}

/// What one more effect adds to the deliveries: a draw adds its widget and
/// responder, anything else adds nothing.
pub proof fn lemma_deliveries_push<P>(effects: Seq<Effect<P>>, effect: Effect<P>)
    ensures
        deliveries(effects.push(effect)) == (match effect {
            Effect::Draw { widget, region, respond } => deliveries(effects).push((widget, respond)),
            _ => deliveries(effects),
        }),
{
    assert(effects.push(effect).drop_last() == effects);
}

/// The deliveries of two runs of effects, one after the other.
pub proof fn lemma_deliveries_concat<P>(first: Seq<Effect<P>>, second: Seq<Effect<P>>)
    ensures
        deliveries(first + second) == deliveries(first) + deliveries(second),
    decreases second.len(),
{
    if second.len() == 0 {
        assert(first + second == first);
        assert(deliveries(first) + Seq::<(Widget<P>, Responder)>::empty() == deliveries(first));
    } else {
        lemma_deliveries_concat(first, second.drop_last());
        assert((first + second).drop_last() == first + second.drop_last());
        assert((first + second).last() == second.last());
        let earlier = deliveries(second.drop_last());
        match second.last() {
            Effect::Draw { widget, region, respond } => {
                assert(deliveries(first) + earlier.push((widget, respond)) == (deliveries(first)
                    + earlier).push((widget, respond)));
            },
            _ => {},
        }
    }
}

/// Initializing units delivers nothing.
pub proof fn lemma_inits_deliver_nothing<P>(fresh: Seq<SystemId>)
    ensures
        deliveries(inits::<P>(fresh)) == Seq::<(Widget<P>, Responder)>::empty(),
    decreases fresh.len(),
{
    if fresh.len() > 0 {
        lemma_inits_deliver_nothing::<P>(fresh.drop_last());
        assert(inits::<P>(fresh).drop_last() == inits::<P>(fresh.drop_last()));
    }
}

/// What one command delivers: a widget command that finds an open region,
/// and a world that takes its units, delivers its own widget to its own
/// responder, and nothing else delivers anything.
pub proof fn lemma_step_deliveries<P>(s: WorldState, command: Command<P>)
    ensures
        deliveries(step(s, command).1) == (match command {
            Command::Widget(c) => if s.stack is Some && s.stack->0.len() > 0 && !prepare_refused(
                s,
                c.widget@,
            ) {
                seq![(c.widget, c.respond)]
            } else {
                Seq::empty()
            },
            _ => Seq::empty(),
        }),
{
    let effects = step(s, command).1;
    let none = Seq::<Effect<P>>::empty();
    let nothing = Seq::<(Widget<P>, Responder)>::empty();
    assert(deliveries(none) == nothing);
    match command {
        Command::Widget(c) => {
            if s.stack is Some && s.stack->0.len() > 0 && !prepare_refused(s, c.widget@) {
                let first = inits::<P>(first_uses(s.systems, c.widget@));
                lemma_inits_deliver_nothing::<P>(first_uses(s.systems, c.widget@));
                let draw = Effect::Draw {
                    widget: c.widget,
                    region: s.stack->0.last().data,
                    respond: c.respond,
                };
                assert(effects == first.push(draw));
                lemma_deliveries_push(first, draw);
                assert(nothing.push((c.widget, c.respond)) == seq![(c.widget, c.respond)]);
            } else {
                assert(effects == none.push(effects[0]));
                lemma_deliveries_push(none, effects[0]);
            }
        },
        Command::StartRoot(c) => {
            assert(effects == none.push(effects[0]));
            lemma_deliveries_push(none, effects[0]);
        },
        Command::StartContainer(c) => {
            assert(effects == none.push(effects[0]));
            lemma_deliveries_push(none, effects[0]);
        },
        Command::EndContainer(c) => {
            assert(effects == none.push(effects[0]));
            lemma_deliveries_push(none, effects[0]);
        },
        Command::EndRoot(c) => {
            if s.stack is Some && s.stack->0.len() != 1 {
                let warning = none.push(Effect::Report(Diagnostic::UnbalancedNesting));
                lemma_deliveries_push(none, Effect::Report(Diagnostic::UnbalancedNesting));
                assert(effects == warning.push(effects[1]));
                lemma_deliveries_push(warning, effects[1]);
            } else {
                assert(effects == none.push(effects[0]));
                lemma_deliveries_push(none, effects[0]);
            }
        },
    }
}

/// Results reach the responders in the order in which their widgets were
/// queued: what a script delivers is what it queued, with the widgets left
/// out that could not be drawn.
pub proof fn lemma_deliveries_follow_queue<P>(s: WorldState, script: Seq<Command<P>>)
    ensures
        is_subsequence(deliveries(run(s, script).1), queued_widgets(script)),
    decreases script.len(),
{
    if script.len() > 0 {
        let prefix = script.drop_last();
        lemma_deliveries_follow_queue(s, prefix);
        let (before, earlier) = run(s, prefix);
        let last = step(before, script.last()).1;
        lemma_deliveries_concat(earlier, last);
        lemma_step_deliveries(before, script.last());
        let delivered = deliveries(earlier);
        let queued = queued_widgets(prefix);
        match script.last() {
            Command::Widget(c) => {
                let item = (c.widget, c.respond);
                if deliveries(last).len() > 0 {
                    assert(delivered + seq![item] == delivered.push(item));
                    assert(delivered.push(item).drop_last() == delivered);
                    assert(queued.push(item).drop_last() == queued);
                } else {
                    assert(delivered + Seq::<(Widget<P>, Responder)>::empty() == delivered);
                    assert(queued.push(item).drop_last() == queued);
                }
            },
            _ => {
                assert(delivered + Seq::<(Widget<P>, Responder)>::empty() == delivered);
            },
        }
    }
}

/// Inside an open region no result is lost: in a world that takes its
/// units, a script that closes only what it opened, run on a stack that
/// holds a region, delivers every widget it queued, in the order of the
/// queue.
pub proof fn lemma_nested_script_delivers_all<P>(s: WorldState, script: Seq<Command<P>>)
    requires
        s.stack is Some,
        s.stack->0.len() > 0,
        takes_units(s, script),
        nesting(script) is Some,
    ensures
        deliveries(run(s, script).1) == queued_widgets(script),
    decreases script.len(),
{
    if script.len() > 0 {
        let prefix = script.drop_last();
        lemma_takes_units_of_prefix(s, script);
        lemma_nested_script_delivers_all(s, prefix);
        lemma_nested_stack(s, prefix);
        lemma_run_keeps_context(s, prefix);
        let (before, earlier) = run(s, prefix);
        let last = step(before, script.last()).1;
        lemma_deliveries_concat(earlier, last);
        lemma_step_deliveries(before, script.last());
        let delivered = deliveries(earlier);
        match script.last() {
            Command::Widget(c) => {
                assert(delivered + seq![(c.widget, c.respond)] == delivered.push(
                    (c.widget, c.respond),
                ));
            },
            _ => {
                assert(delivered + Seq::<(Widget<P>, Responder)>::empty() == delivered);
            },
        }
    }
}

// A whole top-level region.

/// With a rendering context, in a world that takes a region stack and the
/// units of the script, a balanced top-level script runs clean: the
/// region is opened first and closed last with nothing left open inside,
/// every queued widget is drawn and delivered in the order of the queue,
/// and nothing is reported.
pub proof fn lemma_root_script_runs_clean<P>(
    s: WorldState,
    begin: BeginRoot<P>,
    body: Seq<Command<P>>,
)
    requires
        s.context is Some,
        !s.stack_refused,
        takes_units(s, body),
        balanced(body),
    ensures
        run(s, root_script(begin, body)).1.first() == (Effect::BeginRoot {
            begin,
            context: s.context->0,
        }),
        run(s, root_script(begin, body)).1.last() == (Effect::<P>::EndRoot {
            end: EndRoot { kind: begin.kind },
            unclosed: 0,
        }),
        deliveries(run(s, root_script(begin, body)).1) == queued_widgets(body),
        reports(run(s, root_script(begin, body)).1) == Seq::<Diagnostic>::empty(),
{
    let start = Command::StartRoot(StartRootCommand(begin));
    let end = Command::<P>::EndRoot(EndRootCommand(EndRoot { kind: begin.kind }));
    lemma_run_concat(s, seq![start] + body, seq![end]);
    lemma_run_concat(s, seq![start], body);
    lemma_run_one(s, start);
    let opened_up = step(s, start).0;
    let opening = step(s, start).1;
    lemma_balanced_restores_stack(opened_up, body);
    lemma_nested_script_delivers_all(opened_up, body);
    lemma_nested_script_reports_nothing(opened_up, body);
    let (filled, filling) = run(opened_up, body);
    lemma_run_one(filled, end);
    let closing = step(filled, end).1;
    lemma_step_deliveries(s, start);
    lemma_step_deliveries(filled, end);
    lemma_deliveries_concat(opening + filling, closing);
    lemma_deliveries_concat(opening, filling);
    lemma_reports_concat(opening + filling, closing);
    lemma_reports_concat(opening, filling);
    let none = Seq::<Effect<P>>::empty();
    assert(opening == none.push(opening[0]));
    lemma_reports_push(none, opening[0]);
    assert(closing == none.push(closing[0]));
    lemma_reports_push(none, closing[0]);
    assert(reports(none) == Seq::<Diagnostic>::empty());
    assert(Seq::<(Widget<P>, Responder)>::empty() + queued_widgets(body) + Seq::<
        (Widget<P>, Responder),
    >::empty() == queued_widgets(body));
}

/// Showing a top-level region at once, in the rendering context of the
/// world, is queuing its script and draining it.
pub proof fn lemma_shown_at_once_is_drained<P>(
    s: WorldState,
    begin: BeginRoot<P>,
    body: Seq<Command<P>>,
)
    requires
        s.context is Some,
    ensures
        shown_at_once(s, s.context->0, begin, body) == run(s, root_script(begin, body)),
{
    let start = Command::StartRoot(StartRootCommand(begin));
    let end = Command::<P>::EndRoot(EndRootCommand(EndRoot { kind: begin.kind }));
    assert(root_script(begin, body) == seq![start] + body.push(end));
    lemma_run_concat(s, seq![start], body.push(end));
    lemma_run_one(s, start);
}

// The nesting of the effects.

/// Effects that leave the nesting alone count towards the body of the
/// region they stand in, whatever follows them.
pub proof fn lemma_body_len_keeps<P>(plain: Seq<Effect<P>>, rest: Seq<Effect<P>>, depth: nat)
    requires
        forall|i: int| 0 <= i < plain.len() ==> (#[trigger] plain[i]).nesting() == Nesting::Keeps,
    ensures
        body_len(plain + rest, depth) == plain.len() + body_len(rest, depth),
    decreases plain.len(),
{
    if plain.len() == 0 {
        assert(plain + rest == rest);
    } else {
        let all = plain + rest;
        assert(all.first() == plain[0]);
        assert(all.drop_first() == plain.drop_first() + rest);
        assert forall|i: int| 0 <= i < plain.drop_first().len() implies (
        #[trigger] plain.drop_first()[i]).nesting() == Nesting::Keeps by {
            assert(plain.drop_first()[i] == plain[i + 1]);
        }
        lemma_body_len_keeps(plain.drop_first(), rest, depth);
    }
}

/// The effects of a script keep the nesting of its commands: inside an open
/// region, what a script that closes only what it opened asks for lies
/// wholly within the body of that region, and leaves open, for what
/// follows, as many regions as the script leaves containers open.
pub proof fn lemma_effects_nest_like_commands<P>(
    s: WorldState,
    script: Seq<Command<P>>,
    rest: Seq<Effect<P>>,
    depth: nat,
)
    requires
        s.stack is Some,
        s.stack->0.len() > 0,
        nesting(script) is Some,
    ensures
        body_len(run(s, script).1 + rest, depth) == run(s, script).1.len() + body_len(
            rest,
            depth + nesting(script)->0.len(),
        ),
    decreases script.len(),
{
    let effects = run(s, script).1;
    if script.len() == 0 {
        assert(effects + rest == rest);
    } else {
        let prefix = script.drop_last();
        let (before, earlier) = run(s, prefix);
        let last = step(before, script.last()).1;
        let open = nesting(prefix)->0;
        lemma_nested_stack(s, prefix);
        let stack = s.stack->0 + opened(s.stack->0.len(), open);
        assert(before.stack == Some(stack));
        lemma_effects_nest_like_commands(s, prefix, last + rest, depth);
        assert(effects + rest == earlier + (last + rest));
        let inner = depth + open.len();
        match script.last() {
            Command::Widget(c) => {
                if !prepare_refused(before, c.widget@) {
                    let first = inits::<P>(first_uses(before.systems, c.widget@));
                    assert(last == first.push(last.last()));
                    assert forall|i: int| 0 <= i < last.len() implies (
                    #[trigger] last[i]).nesting() == Nesting::Keeps by {
                        if i < first.len() {
                            assert(last[i] == first[i]);
                        }
                    }
                }
                lemma_body_len_keeps(last, rest, inner);
            },
            Command::StartContainer(c) => {
                assert(last.len() == 1);
                assert((last + rest).first() == last[0]);
                assert((last + rest).drop_first() == rest);
            },
            Command::EndContainer(c) => {
                assert(stack.last() == opened(s.stack->0.len(), open).last());
                assert(last.len() == 1);
                assert((last + rest).first() == last[0]);
                assert((last + rest).drop_first() == rest);
            },
            _ => {},
        }
    }
}

/// With a rendering context, in a world that takes a region stack, what a
/// balanced top-level script asks for is one region: the effect that opens it, its body, and the effect that
/// closes it. The body is exactly what the commands inside ask for.
pub proof fn lemma_root_region_is_its_script<P>(
    s: WorldState,
    begin: BeginRoot<P>,
    body: Seq<Command<P>>,
)
    requires
        s.context is Some,
        !s.stack_refused,
        balanced(body),
    ensures
        ({
            let effects = run(s, root_script(begin, body)).1;
            &&& effects.len() >= 2
            &&& body_len(effects.drop_first(), 0) == effects.len() - 2
            &&& effects[effects.len() - 1].nesting() == Nesting::ClosesAll
        }),
{
    let start = Command::StartRoot(StartRootCommand(begin));
    let end = Command::<P>::EndRoot(EndRootCommand(EndRoot { kind: begin.kind }));
    lemma_run_concat(s, seq![start] + body, seq![end]);
    lemma_run_concat(s, seq![start], body);
    lemma_run_one(s, start);
    let opened_up = step(s, start).0;
    let opening = step(s, start).1;
    lemma_balanced_restores_stack(opened_up, body);
    let (filled, filling) = run(opened_up, body);
    lemma_run_one(filled, end);
    let closing = step(filled, end).1;
    let effects = run(s, root_script(begin, body)).1;
    assert(effects == opening + filling + closing);
    assert(opening.len() == 1);
    assert(closing.len() == 1);
    assert(effects.drop_first() == filling + closing);
    lemma_effects_nest_like_commands(opened_up, body, closing, 0);
    assert(closing.first().nesting() == Nesting::ClosesAll);
}

// Cached units.

/// A handle names one unit: where no key occurs twice, the slot that holds a
/// key is the slot that is found for that key.
pub proof fn lemma_slot_of(slots: Seq<CachedSystem>, slot: int)
    requires
        distinct_keys(slots),
        0 <= slot < slots.len(),
    ensures
        registered(slots, slots[slot].key),
        slot_of(slots, slots[slot].key) == slot,
{
    let key = slots[slot].key;
    assert(registered(slots, key));
    assert(slots[slot_of(slots, key)].key == slots[slot].key);
}

/// A key has one unit: once it has been looked up, looking it up again finds
/// the unit of the first time, under the same handle, and registers nothing.
pub proof fn lemma_same_key_same_unit(slots: Seq<CachedSystem>, key: u64)
    ensures
        registered(with_system(slots, key), key),
        with_system(with_system(slots, key), key) == with_system(slots, key),
        0 <= slot_of(with_system(slots, key), key) < with_system(slots, key).len(),
        with_system(slots, key)[slot_of(with_system(slots, key), key)].key == key,
{
    let once = with_system(slots, key);
    if !registered(slots, key) {
        assert(once[slots.len() as int].key == key);
    }
}

/// A handle keeps naming its unit: looking up any key, new or not, leaves
/// every registered unit in its slot.
pub proof fn lemma_handles_are_stable(slots: Seq<CachedSystem>, key: u64, other: u64)
    requires
        distinct_keys(slots),
        registered(slots, key),
    ensures
        distinct_keys(with_system(slots, other)),
        slot_of(with_system(slots, other), key) == slot_of(slots, key),
        with_system(slots, other)[slot_of(slots, key)] == slots[slot_of(slots, key)],
{
    let grown = with_system(slots, other);
    let slot = slot_of(slots, key);
    assert(grown[slot].key == key);
    assert(registered(grown, key));
    lemma_with_system_distinct(slots, other);
    assert(grown[slot_of(grown, key)].key == grown[slot].key);
}

/// A unit gets exactly the input of the call: run twice, on `first` and then
/// on `second`, the same unit is started both times, each time on the value
/// of that call, it is initialized at most the first time, and the cache
/// after the second call is the cache after the first, whatever the two
/// values were.
pub proof fn lemma_input_reaches_unit_unchanged<I>(
    s: WorldState,
    key: u64,
    first: I,
    second: I,
)
    requires
        distinct_keys(s.systems),
        s.systems.len() < usize::MAX,
        !s.systems_refused,
        !start_refused(s.systems, key),
    ensures
        ({
            let started = after_respond(s, Some(key));
            let unit = SystemId(slot_of(started.systems, key) as usize);
            let released = WorldState { systems: after_finish(started.systems, unit), ..started };
            &&& response(s, Some(key), first) == Some(
                Invocation { system: unit, init: !registered(s.systems, key), input: first },
            )
            &&& response(released, Some(key), second) == Some(
                Invocation { system: unit, init: false, input: second },
            )
            &&& after_respond(released, Some(key)) == started
        }),
{
    let looked_up = with_system(s.systems, key);
    lemma_same_key_same_unit(s.systems, key);
    let slot = slot_of(looked_up, key);
    let started = after_start(s.systems, key);
    assert(started[slot].key == key);
    assert(registered(started, key));
    lemma_with_system_distinct(s.systems, key);
    assert(started[slot_of(started, key)].key == looked_up[slot].key);
    assert(slot_of(started, key) == slot);
    let unit = SystemId(slot as usize);
    let released = after_finish(started, unit);
    assert(released[slot].key == key);
    assert(registered(released, key));
    assert(released[slot_of(released, key)].key == looked_up[slot].key);
    assert(slot_of(released, key) == slot);
    assert(with_system(released, key) == released);
    assert(after_start(released, key) =~= started);
    assert(slot_of(after_start(released, key), key) == slot);
}

/// Run twice, a unit is one unit: started on `first`, released, and started
/// again on `second`, the second start names the unit of the first, asks
/// for no initialization, gets the value of its own call, and leaves the
/// cache as the first start left it.
pub proof fn lemma_run_twice_is_one_unit<I>(s: WorldState, key: u64, first: I, second: I)
    requires
        distinct_keys(s.systems),
        s.systems.len() < usize::MAX,
        !s.systems_refused,
        !start_refused(s.systems, key),
    ensures
        ({
            let started = after_start_in(s, key);
            let unit = SystemId(slot_of(started.systems, key) as usize);
            let released = with_systems(started, after_finish(started.systems, unit));
            &&& started_in(s, key, first) == Ok::<Invocation<I>, RegisteredSystemError>(
                Invocation { system: unit, init: !registered(s.systems, key), input: first },
            )
            &&& started_in(released, key, second) == Ok::<Invocation<I>, RegisteredSystemError>(
                Invocation { system: unit, init: false, input: second },
            )
            &&& after_start_in(released, key) == started
            &&& distinct_keys(started.systems)
        }),
{
    lemma_input_reaches_unit_unchanged(s, key, first, second);
    lemma_with_system_distinct(s.systems, key);
    let started = after_start_in(s, key);
    assert(distinct_keys(started.systems)) by {
        let looked_up = with_system(s.systems, key);
        assert forall|i: int, j: int|
            0 <= i < started.systems.len() && 0 <= j < started.systems.len()
                && #[trigger] started.systems[i].key == #[trigger] started.systems[j].key implies i
                == j by {
            assert(looked_up[i].key == started.systems[i].key);
            assert(looked_up[j].key == started.systems[j].key);
        }
    }
}

/// A definition that captures state is never cached: it meets the
/// precondition of no conversion, so no call that would register it
/// verifies.
pub proof fn lemma_captured_state_is_rejected<P>(system: SystemDef)
    requires
        !system.stateless(),
    ensures
        !IntoResponder::<SystemResponderMarker>::convertible(&system),
        !IntoWidget::<P, SystemWidgetMarker>::convertible(&system),
{
}

} // verus!
