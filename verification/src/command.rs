//! The commands a build script queues, and what each of them does when the
//! queue is drained.

use bevy_ecs::world::World;
use std::collections::VecDeque;
use vstd::prelude::*;
use crate::container::{BeginContainer, Container, ContainerKind, EndContainer, Opener};
use crate::effect::{init_effects, inits, Diagnostic, Effect};
use crate::responder::{IntoResponder, Responder};
use crate::root::{BeginRoot, EndRoot, Root};
use crate::state::{
    context_of, get_context, insert_stack, registration_of_stack, remove_stack, stack_of, state,
    RegionId, WorldState,
};
use crate::ui::{Region, RegionKind, UiStack};
use crate::widget::{after_prepare_in, first_uses, prepare_refused, IntoWidget, Widget};
use egui::Context;

verus! {

/// Opens a top-level region and with it a fresh region stack.
pub struct StartRootCommand<P>(pub BeginRoot<P>);

/// Closes the top-level region and removes the region stack.
pub struct EndRootCommand(pub EndRoot);

/// Opens a container inside the innermost open region.
pub struct StartContainerCommand<P>(pub BeginContainer<P>);

/// Closes the innermost container and hands its result to a responder.
pub struct EndContainerCommand {
    pub end: EndContainer,
    pub respond: Responder,
}

/// Draws a widget into the innermost open region and hands its result to a
/// responder.
pub struct WidgetCommand<P> {
    pub widget: Widget<P>,
    pub respond: Responder,
}

/// A queued, single-shot instruction.
pub enum Command<P> {
    /// Open a top-level region.
    StartRoot(StartRootCommand<P>),
    /// Close the top-level region.
    EndRoot(EndRootCommand),
    /// Open a container.
    StartContainer(StartContainerCommand<P>),
    /// Close the innermost container.
    EndContainer(EndContainerCommand),
    /// Draw a widget.
    Widget(WidgetCommand<P>),
}

/// The effect that reports `diagnostic`, alone.
pub open spec fn report<P>(diagnostic: Diagnostic) -> Seq<Effect<P>> {
    seq![Effect::Report(diagnostic)]
}

/// What opening a top-level region in `context` does to a world in state
/// `s`, and the effects it asks for. A world that refuses a region stack
/// stays as it is.
pub open spec fn open_root<P>(s: WorldState, begin: BeginRoot<P>, context: Context) -> (
    WorldState,
    Seq<Effect<P>>,
) {
    if s.stack_refused {
        (s, report(Diagnostic::StorageRefused))
    } else {
        (
            WorldState {
                stack: Some(seq![Region { kind: RegionKind::Root(begin.kind), data: RegionId(0) }]),
                ..s
            },
            seq![Effect::BeginRoot { begin, context }],
        )
    }
}

/// What opening a top-level region does to a world in state `s`, and the
/// effects it asks for: it is opened in the rendering context of the world,
/// if there is one.
pub open spec fn start_root<P>(s: WorldState, begin: BeginRoot<P>) -> (WorldState, Seq<Effect<P>>) {
    match s.context {
        None => (s, report(Diagnostic::MissingContext)),
        Some(context) => open_root(s, begin, context),
    }
}

/// What closing the top-level region does to a world in state `s`, and the
/// effects it asks for. A live stack is removed whatever it holds.
pub open spec fn end_root<P>(s: WorldState, end: EndRoot) -> (WorldState, Seq<Effect<P>>) {
    match s.stack {
        None => (s, report(Diagnostic::MissingStack)),
        Some(regions) => {
            let warning = if regions.len() != 1 {
                report(Diagnostic::UnbalancedNesting)
            } else {
                Seq::empty()
            };
            let outcome = if regions.len() == 0 {
                Effect::Report(Diagnostic::StackUnderflow)
            } else if regions[0].kind == RegionKind::Root(end.kind) {
                Effect::EndRoot { end, unclosed: (regions.len() - 1) as usize }
            } else {
                Effect::Report(Diagnostic::DowncastMismatch)
            };
            (WorldState { stack: None, ..s }, warning.push(outcome))
        },
    }
}

/// What opening a container does to a world in state `s`, and the effects
/// it asks for.
pub open spec fn start_container<P>(s: WorldState, begin: BeginContainer<P>) -> (
    WorldState,
    Seq<Effect<P>>,
) {
    match s.stack {
        None => (s, report(Diagnostic::MissingStack)),
        Some(regions) => if regions.len() == 0 {
            (s, report(Diagnostic::StackUnderflow))
        } else {
            let parent = regions.last().data;
            let region = RegionId(regions.len() as usize);
            (
                WorldState {
                    stack: Some(
                        regions.push(
                            Region { kind: RegionKind::Container(begin.kind), data: region },
                        ),
                    ),
                    ..s
                },
                seq![Effect::BeginContainer { begin, parent, region }],
            )
        },
    }
}

/// What closing a container does to a world in state `s`, and the effects
/// it asks for. The command needs the container and its parent; where the
/// innermost region was opened by another kind it is dropped unclosed.
pub open spec fn end_container<P>(s: WorldState, end: EndContainer, respond: Responder) -> (
    WorldState,
    Seq<Effect<P>>,
) {
    match s.stack {
        None => (s, report(Diagnostic::MissingStack)),
        Some(regions) => if regions.len() < 2 {
            (s, report(Diagnostic::StackUnderflow))
        } else {
            let popped = WorldState { stack: Some(regions.drop_last()), ..s };
            if regions.last().kind == RegionKind::Container(end.kind) {
                (
                    popped,
                    seq![
                        Effect::EndContainer {
                            end,
                            parent: regions[regions.len() - 2].data,
                            region: regions.last().data,
                            respond,
                        },
                    ],
                )
            } else {
                (popped, report(Diagnostic::DowncastMismatch))
            }
        },
    }
}

/// What drawing a widget does to a world in state `s`, and the effects it
/// asks for. Without a region to draw into nothing happens; otherwise the
/// cached units of the widget are looked up, the new ones are initialized,
/// and the widget is drawn into the innermost region. Where the units
/// cannot be looked up nothing is drawn.
pub open spec fn draw_widget<P>(s: WorldState, widget: Widget<P>, respond: Responder) -> (
    WorldState,
    Seq<Effect<P>>,
) {
    match s.stack {
        None => (s, report(Diagnostic::MissingStack)),
        Some(regions) => if regions.len() == 0 {
            (s, report(Diagnostic::StackUnderflow))
        } else if prepare_refused(s, widget@) {
            (s, report(Diagnostic::StorageRefused))
        } else {
            (
                after_prepare_in(s, widget@),
                inits(first_uses(s.systems, widget@)).push(
                    Effect::Draw { widget, region: regions.last().data, respond },
                ),
            )
        },
    }
}

/// Whether `command` leaves a world in state `s` wholly as it is, and not
/// only the engine's part of it: a top-level region that finds no context,
/// or a world that refuses a stack, and any other command that finds no
/// stack.
pub open spec fn untouched<P>(s: WorldState, command: Command<P>) -> bool {
    match command {
        Command::StartRoot(_) => s.context is None || s.stack_refused,
        _ => s.stack is None,
    }
}

/// What `command` does to a world in state `s`, and the effects it asks for.
pub open spec fn step<P>(s: WorldState, command: Command<P>) -> (WorldState, Seq<Effect<P>>) {
    match command {
        Command::StartRoot(c) => start_root(s, c.0),
        Command::EndRoot(c) => end_root(s, c.0),
        Command::StartContainer(c) => start_container(s, c.0),
        Command::EndContainer(c) => end_container(s, c.end, c.respond),
        Command::Widget(c) => draw_widget(s, c.widget, c.respond),
    }
}

impl<P> StartRootCommand<P> {
    /// Opens the region in the active rendering context and makes a fresh
    /// stack that holds it. Without a context nothing is opened.
    pub fn apply(self, world: &mut World) -> (effects: Vec<Effect<P>>)
        ensures
            (state(*final(world)), effects@) == start_root(state(*old(world)), self.0),
            context_of(*old(world)) is None || state(*old(world)).stack_refused ==> *final(world)
                == *old(world),
    {
        match get_context(world) {
            Some(context) => self.open(world, context),
            None => {
                let mut effects = Vec::new();
                effects.push(Effect::Report(Diagnostic::MissingContext));
                effects
            },
        }
    }

    /// Opens the region in `context` and makes a fresh stack that holds it.
    /// In a world that refuses a region stack nothing is opened.
    pub fn open(self, world: &mut World, context: Context) -> (effects: Vec<Effect<P>>)
        ensures
            (state(*final(world)), effects@) == open_root(state(*old(world)), self.0, context),
            state(*old(world)).stack_refused ==> *final(world) == *old(world),
    {
        let mut effects = Vec::new();
        match registration_of_stack(world) {
            Some(false) => {
                effects.push(Effect::Report(Diagnostic::StorageRefused));
            },
            _ => {
                let mut stack = UiStack::new();
                stack.push(RegionKind::Root(self.0.kind), RegionId(0));
                insert_stack(world, stack);
                effects.push(Effect::BeginRoot { begin: self.0, context });
            },
        }
        effects
    }
}

impl EndRootCommand {
    /// Removes the region stack and closes the top-level region at its
    /// bottom. Regions left open above it are reported and dropped.
    pub fn apply<P>(self, world: &mut World) -> (effects: Vec<Effect<P>>)
        ensures
            (state(*final(world)), effects@) == end_root::<P>(state(*old(world)), self.0),
            stack_of(*old(world)) is None ==> *final(world) == *old(world),
    {
        let mut effects = Vec::new();
        let Some(mut stack) = remove_stack(world) else {
            effects.push(Effect::Report(Diagnostic::MissingStack));
            return effects;
        };
        let depth = stack.len();
        if depth != 1 {
            effects.push(Effect::Report(Diagnostic::UnbalancedNesting));
        }
        if depth == 0 {
            effects.push(Effect::Report(Diagnostic::StackUnderflow));
            return effects;
        }
        stack.truncate(1);
        match stack.pop(RegionKind::Root(self.0.kind)) {
            Ok(_) => effects.push(Effect::EndRoot { end: self.0, unclosed: depth - 1 }),
            Err(_) => effects.push(Effect::Report(Diagnostic::DowncastMismatch)),
        }
        effects
    }
}

impl<P> StartContainerCommand<P> {
    /// Opens the container inside the innermost open region and pushes it.
    pub fn apply(self, world: &mut World) -> (effects: Vec<Effect<P>>)
        ensures
            (state(*final(world)), effects@) == start_container(state(*old(world)), self.0),
            stack_of(*old(world)) is None ==> *final(world) == *old(world),
    {
        let mut effects = Vec::new();
        let Some(mut stack) = remove_stack(world) else {
            effects.push(Effect::Report(Diagnostic::MissingStack));
            return effects;
        };
        match stack.top() {
            None => effects.push(Effect::Report(Diagnostic::StackUnderflow)),
            Some(parent) => {
                let parent = *parent;
                let region = RegionId(stack.len());
                stack.push(RegionKind::Container(self.0.kind), region);
                effects.push(Effect::BeginContainer { begin: self.0, parent, region });
            },
        }
        insert_stack(world, stack);
        proof {
            assert(state(*world) == start_container(state(*old(world)), self.0).0);
        }
        effects
    }
}

impl EndContainerCommand {
    /// Pops the innermost container and closes it against its parent.
    pub fn apply<P>(self, world: &mut World) -> (effects: Vec<Effect<P>>)
        ensures
            (state(*final(world)), effects@) == end_container::<P>(
                state(*old(world)),
                self.end,
                self.respond,
            ),
            stack_of(*old(world)) is None ==> *final(world) == *old(world),
    {
        let mut effects = Vec::new();
        let Some(mut stack) = remove_stack(world) else {
            effects.push(Effect::Report(Diagnostic::MissingStack));
            return effects;
        };
        if stack.len() < 2 {
            effects.push(Effect::Report(Diagnostic::StackUnderflow));
        } else {
            match stack.pop(RegionKind::Container(self.end.kind)) {
                Ok(region) => match stack.top() {
                    Some(parent) => effects.push(
                        Effect::EndContainer {
                            end: self.end,
                            parent: *parent,
                            region,
                            respond: self.respond,
                        },
                    ),
                    None => effects.push(Effect::Report(Diagnostic::StackUnderflow)),
                },
                Err(_) => effects.push(Effect::Report(Diagnostic::DowncastMismatch)),
            }
        }
        insert_stack(world, stack);
        proof {
            assert(state(*world) == end_container::<P>(
                state(*old(world)),
                self.end,
                self.respond,
            ).0);
        }
        effects
    }
}

impl<P> WidgetCommand<P> {
    /// Draws the widget into the innermost open region, after looking up
    /// its cached units.
    pub fn apply(self, world: &mut World) -> (effects: Vec<Effect<P>>)
        ensures
            (state(*final(world)), effects@) == draw_widget(
                state(*old(world)),
                self.widget,
                self.respond,
            ),
            stack_of(*old(world)) is None ==> *final(world) == *old(world),
    {
        let mut effects = Vec::new();
        let Some(stack) = remove_stack(world) else {
            effects.push(Effect::Report(Diagnostic::MissingStack));
            return effects;
        };
        match stack.top() {
            None => effects.push(Effect::Report(Diagnostic::StackUnderflow)),
            Some(top) => {
                let region = *top;
                match self.widget.prepare(world) {
                    None => effects.push(Effect::Report(Diagnostic::StorageRefused)),
                    Some(fresh) => {
                        effects = init_effects(fresh);
                        effects.push(
                            Effect::Draw { widget: self.widget, region, respond: self.respond },
                        );
                    },
                }
            },
        }
        insert_stack(world, stack);
        proof {
            assert(state(*world) == draw_widget(state(*old(world)), self.widget, self.respond).0);
        }
        effects
    }
}

impl<P> Command<P> {
    /// Applies the command to `world` and returns what it asks the toolkit
    /// to do.
    pub fn apply(self, world: &mut World) -> (effects: Vec<Effect<P>>)
        ensures
            (state(*final(world)), effects@) == step(state(*old(world)), self),
            untouched(state(*old(world)), self) ==> *final(world) == *old(world),
    {
        match self {
            Command::StartRoot(c) => c.apply(world),
            Command::EndRoot(c) => c.apply(world),
            Command::StartContainer(c) => c.apply(world),
            Command::EndContainer(c) => c.apply(world),
            Command::Widget(c) => c.apply(world),
        }
    }
}

/// What draining `script` in order does to a world in state `s`, and the
/// effects it asks for, in the order in which they have to be carried out.
pub open spec fn run<P>(s: WorldState, script: Seq<Command<P>>) -> (WorldState, Seq<Effect<P>>)
    decreases script.len(),
{
    if script.len() == 0 {
        (s, Seq::empty())
    } else {
        let (before, earlier) = run(s, script.drop_last());
        let (after, last) = step(before, script.last());
        (after, earlier + last)
    }
}

/// The queue of commands of a build pass, first in, first out. It is the
/// engine's own queue: what is queued here is seen again when it is drained,
/// whereas a queue of bevy takes only what implements its `Command` trait
/// and shows nothing of what it holds.
pub struct Commands<P> {
    queue: VecDeque<Command<P>>,
}

impl<P> View for Commands<P> {
    type V = Seq<Command<P>>;

    closed spec fn view(&self) -> Seq<Command<P>> {
        self.queue@
    }
}

impl<P> Commands<P> {
    /// An empty queue.
    pub fn new() -> (commands: Self)
        ensures
            commands@ == Seq::<Command<P>>::empty(),
    {
        Commands { queue: VecDeque::new() }
    }

    /// Number of commands that wait.
    pub fn len(&self) -> (n: usize)
        ensures
            n == self@.len(),
    {
        self.queue.len()
    }

    /// Queues `command` behind those that wait.
    pub fn queue(&mut self, command: Command<P>)
        ensures
            final(self)@ == old(self)@.push(command),
    {
        self.queue.push_back(command);
    }

    /// Moves the commands of `other` behind those that wait, in their order.
    pub fn append(&mut self, other: &mut Commands<P>)
        ensures
            final(self)@ == old(self)@ + old(other)@,
            final(other)@ == Seq::<Command<P>>::empty(),
    {
        self.queue.append(&mut other.queue);
    }

    /// Drains the queue against `world`: every command is applied exactly
    /// once, in the order in which it was queued. Returns what the commands
    /// ask the toolkit to do, in the same order.
    pub fn apply(&mut self, world: &mut World) -> (effects: Vec<Effect<P>>)
        ensures
            final(self)@ == Seq::<Command<P>>::empty(),
            (state(*final(world)), effects@) == run(state(*old(world)), old(self)@),
    {
        let ghost script = self.queue@;
        let ghost mut done: int = 0;
        let mut effects: Vec<Effect<P>> = Vec::new();
        loop
            invariant
                0 <= done <= script.len(),
                self.queue@ == script.skip(done),
                (state(*world), effects@) == run(state(*old(world)), script.take(done)),
            ensures
                self.queue@ == Seq::<Command<P>>::empty(),
                (state(*world), effects@) == run(state(*old(world)), script),
            decreases self.queue@.len(),
        {
            match self.queue.pop_front() {
                None => {
                    proof {
                        assert(script.take(done) == script);
                    }
                    break ;
                },
                Some(command) => {
                    proof {
                        assert(command == script[done]);
                        assert(script.take(done + 1).drop_last() == script.take(done));
                        assert(script.skip(done).subrange(1, script.skip(done).len() as int)
                            == script.skip(done + 1));
                    }
                    let mut more = command.apply(world);
                    effects.append(&mut more);
                    proof {
                        done = done + 1;
                    }
                },
            }
        }
        effects
    }
}

/// The containers that `script` leaves open, outermost first, provided the
/// script holds no top-level command and closes, by the matching kind, only
/// what it opened itself. `None` otherwise.
pub open spec fn nesting<P>(script: Seq<Command<P>>) -> Option<Seq<ContainerKind>>
    decreases script.len(),
{
    if script.len() == 0 {
        Some(Seq::empty())
    } else {
        match nesting(script.drop_last()) {
            None => None,
            Some(open) => match script.last() {
                Command::StartContainer(c) => Some(open.push(c.0.kind)),
                Command::EndContainer(c) => if open.len() > 0 && open.last() == c.end.kind {
                    Some(open.drop_last())
                } else {
                    None
                },
                Command::Widget(_) => Some(open),
                Command::StartRoot(_) => None,
                Command::EndRoot(_) => None,
            },
        }
    }
}

/// A script of container and widget commands in which every container that
/// is opened is closed again, innermost first and by its own kind.
pub open spec fn balanced<P>(script: Seq<Command<P>>) -> bool {
    nesting(script) == Some(Seq::<ContainerKind>::empty())
}

/// What two scripts leave open, one after the other: what the first leaves
/// open, with what the second leaves open on top.
pub proof fn lemma_nesting_concat<P>(first: Seq<Command<P>>, second: Seq<Command<P>>)
    requires
        nesting(first) is Some,
        nesting(second) is Some,
    ensures
        nesting(first + second) == Some(nesting(first)->0 + nesting(second)->0),
    decreases second.len(),
{
    let below = nesting(first)->0;
    if second.len() == 0 {
        assert(first + second == first);
        assert(below + Seq::<ContainerKind>::empty() == below);
    } else {
        let prefix = second.drop_last();
        lemma_nesting_concat(first, prefix);
        assert((first + second).drop_last() == first + prefix);
        assert((first + second).last() == second.last());
        let open = nesting(prefix)->0;
        match second.last() {
            Command::StartContainer(c) => {
                assert((below + open).push(c.0.kind) == below + open.push(c.0.kind));
            },
            Command::EndContainer(c) => {
                assert((below + open).last() == open.last());
                assert((below + open).drop_last() == below + open.drop_last());
            },
            _ => {},
        }
    }
}

/// The script that shows a container: the command that opens it, the
/// commands that fill it, and the command that closes it.
pub open spec fn container_script<P>(
    begin: BeginContainer<P>,
    body: Seq<Command<P>>,
    respond: Responder,
) -> Seq<Command<P>> {
    seq![Command::StartContainer(StartContainerCommand(begin))] + body + seq![
        Command::EndContainer(
            EndContainerCommand { end: EndContainer { kind: begin.kind }, respond },
        ),
    ]
}

/// Whether `after` is `before` followed by the script of a container of
/// kind `kind` that is opened by `opener`, filled with `body` and closed
/// with its result going to a responder with view `respond`.
pub open spec fn shown<P>(
    before: Seq<Command<P>>,
    kind: ContainerKind,
    opener: Opener<P>,
    respond: Option<u64>,
    body: Seq<Command<P>>,
    after: Seq<Command<P>>,
) -> bool {
    exists|responder: Responder|
        #[trigger] responder@ == respond && after == before + container_script(
            BeginContainer { kind, opener },
            body,
            responder,
        )
}

/// The script that shows a top-level region: the command that opens it, the
/// commands that fill it, and the command that closes it.
pub open spec fn root_script<P>(begin: BeginRoot<P>, body: Seq<Command<P>>) -> Seq<Command<P>> {
    seq![Command::StartRoot(StartRootCommand(begin))] + body + seq![
        Command::EndRoot(EndRootCommand(EndRoot { kind: begin.kind })),
    ]
}

/// Handle for queuing the widgets and containers that go into an open
/// region. Whatever is queued through it is balanced: every container is
/// closed where it was opened.
pub struct UiCommands<P> {
    commands: Commands<P>,
}

impl<P> View for UiCommands<P> {
    type V = Seq<Command<P>>;

    closed spec fn view(&self) -> Seq<Command<P>> {
        self.commands@
    }
}

impl<P> UiCommands<P> {
    #[verifier::type_invariant]
    spec fn well_nested(self) -> bool {
        balanced(self.commands@)
    }

    /// A handle through which nothing has been queued yet.
    pub fn new() -> (ui: Self)
        ensures
            ui@ == Seq::<Command<P>>::empty(),
    {
        UiCommands { commands: Commands::new() }
    }

    /// The same handle for a shorter time.
    pub fn reborrow(&mut self) -> (ui: &mut UiCommands<P>)
        ensures
            *ui == *old(self),
            *final(self) == *final(ui),
    {
        self
    }

    /// Number of commands queued through this handle.
    pub fn len(&self) -> (n: usize)
        ensures
            n == self@.len(),
    {
        self.commands.len()
    }

    /// Gives up the queued commands. They are balanced.
    pub fn into_commands(self) -> (commands: Commands<P>)
        ensures
            commands@ == self@,
            balanced(commands@),
    {
        proof {
            use_type_invariant(&self);
        }
        self.commands
    }

    /// Queues a widget to be drawn. Its result goes to `respond`. Returns
    /// the handle, for the next call.
    pub fn add<W: IntoWidget<P, WM>, WM, R: IntoResponder<RM>, RM>(
        &mut self,
        widget: W,
        respond: R,
    ) -> (ui: &mut Self)
        requires
            widget.convertible(),
            respond.convertible(),
        ensures
            ui@.len() == old(self)@.len() + 1,
            ui@.drop_last() == old(self)@,
            ui@.last() matches Command::Widget(c) && c.widget@ == widget.leaves() && c.respond@
                == respond.responder(),
            *final(self) == *final(ui),
    {
        proof {
            use_type_invariant(&*self);
        }
        let command = Command::Widget(
            WidgetCommand { widget: widget.into_widget(), respond: respond.into_responder() },
        );
        let mut commands = Commands::new();
        std::mem::swap(&mut self.commands, &mut commands);
        proof {
            assert(commands@.push(command).drop_last() == commands@);
        }
        commands.queue(command);
        std::mem::swap(&mut self.commands, &mut commands);
        self
    }

    /// Queues a container: the command that opens it, then whatever `f`
    /// queues through the handle it is given, then the command that closes
    /// it and hands its result to `respond`. `f` runs now; only the commands
    /// run later. Returns the handle, for the next call.
    pub fn show<C: Container<P>, R: IntoResponder<RM>, RM, F: FnOnce(UiCommands<P>) -> UiCommands<P>>(
        &mut self,
        container: C,
        respond: R,
        f: F,
    ) -> (ui: &mut Self)
        requires
            respond.convertible(),
            forall|inside: UiCommands<P>| inside@.len() == 0 ==> f.requires((inside,)),
        ensures
            exists|inside: UiCommands<P>, filled: UiCommands<P>|
                {
                    &&& inside@.len() == 0
                    &&& f.ensures((inside,), filled)
                    &&& shown(
                        old(self)@,
                        container.kind(),
                        container.opener(),
                        respond.responder(),
                        filled@,
                        ui@,
                    )
                },
            *final(self) == *final(ui),
    {
        proof {
            use_type_invariant(&*self);
        }
        let ghost before = self.commands@;
        let (begin, end) = container.into_container();
        let respond = respond.into_responder();
        let start = Command::StartContainer(StartContainerCommand(begin));
        let close = Command::EndContainer(EndContainerCommand { end, respond });
        let inside = UiCommands::new();
        let filled = f(inside);
        proof {
            use_type_invariant(&filled);
            let body = filled.commands@;
            let whole = container_script(begin, body, respond);
            assert(seq![start].drop_last() == Seq::<Command<P>>::empty());
            assert(nesting(Seq::<Command<P>>::empty()) == Some(Seq::<ContainerKind>::empty()));
            assert(Seq::<ContainerKind>::empty().push(begin.kind) == seq![begin.kind]);
            assert(seq![start].last() == start);
            assert(nesting(seq![start]) == Some(seq![begin.kind]));
            lemma_nesting_concat(seq![start], body);
            assert(seq![begin.kind] + Seq::<ContainerKind>::empty() == seq![begin.kind]);
            assert(whole.drop_last() == seq![start] + body);
            assert(seq![begin.kind].drop_last() == Seq::<ContainerKind>::empty());
            assert(balanced(whole));
            lemma_nesting_concat(before, whole);
            assert(Seq::<ContainerKind>::empty() + Seq::<ContainerKind>::empty() == Seq::<
                ContainerKind,
            >::empty());
        }
        let mut body = filled.into_commands();
        let mut commands = Commands::new();
        std::mem::swap(&mut self.commands, &mut commands);
        commands.queue(start);
        commands.append(&mut body);
        commands.queue(close);
        proof {
            assert(commands@ == before + container_script(begin, filled@, respond));
        }
        std::mem::swap(&mut self.commands, &mut commands);
        self
    }
}

/// Queuing of top-level regions.
pub trait RootCommands<P>: Sized {
    /// The commands that wait, first queued first.
    spec fn queued(&self) -> Seq<Command<P>>;

    /// Queues a top-level region: the command that opens it, then whatever
    /// `f` queues through the handle it is given, then the command that
    /// closes it. `f` runs now; only the commands run later. Returns the
    /// queue, for the next call.
    fn show<Ro: Root<P>, F: FnOnce(UiCommands<P>) -> UiCommands<P>>(
        &mut self,
        root: Ro,
        f: F,
    ) -> (commands: &mut Self)
        requires
            forall|inside: UiCommands<P>| inside@.len() == 0 ==> f.requires((inside,)),
        ensures
            exists|inside: UiCommands<P>, filled: UiCommands<P>|
                {
                    &&& inside@.len() == 0
                    &&& f.ensures((inside,), filled)
                    &&& balanced(filled@)
                    &&& commands.queued() == old(self).queued() + root_script(
                        BeginRoot { kind: root.kind(), region: root.region() },
                        filled@,
                    )
                },
            *final(self) == *final(commands),
    ;
}

impl<P> RootCommands<P> for Commands<P> {
    open spec fn queued(&self) -> Seq<Command<P>> {
        self@
    }

    fn show<Ro: Root<P>, F: FnOnce(UiCommands<P>) -> UiCommands<P>>(
        &mut self,
        root: Ro,
        f: F,
    ) -> (commands: &mut Self) {
        let (begin, end) = root.into_root();
        self.queue(Command::StartRoot(StartRootCommand(begin)));
        let filled = f(UiCommands::new());
        let mut body = filled.into_commands();
        self.append(&mut body);
        self.queue(Command::EndRoot(EndRootCommand(end)));
        proof {
            assert(self@ == old(self)@ + root_script(begin, filled@));
        }
        self
    }
}

} // verus!
