use bevy_ecs::world::World;
use bevy_egui_commands::command::{
    Command, Commands, EndRootCommand, RootCommands, StartContainerCommand, StartRootCommand,
};
use bevy_egui_commands::container::{BeginContainer, ContainerKind, Group, Opener};
use bevy_egui_commands::effect::{Diagnostic, Effect};
use bevy_egui_commands::responder::{IntoResponder, Responder};
use bevy_egui_commands::root::{BeginRoot, CentralPanel, EndRoot, RootKind};
use bevy_egui_commands::state::{EguiContext, RegionId};
use bevy_egui_commands::system::{finish_system, SystemDef, SystemId, SystemRegistry};
use bevy_egui_commands::ui::{UiStack, WorldUi};
use bevy_egui_commands::widget::EguiWidget;
use egui::Context;

fn reports<P>(effects: &[Effect<P>]) -> Vec<Diagnostic> {
    let mut out = Vec::new();
    for effect in effects {
        if let Effect::Report(diagnostic) = effect {
            out.push(*diagnostic);
        }
    }
    out
}

fn draws<P>(effects: &[Effect<P>]) -> usize {
    effects.iter().filter(|e| matches!(e, Effect::Draw { .. })).count()
}

fn world_with_context() -> (World, Context) {
    let mut world = World::new();
    let context = Context::default();
    world.insert_resource(EguiContext(context.clone()));
    (world, context)
}

fn depth(world: &World) -> usize {
    world.get_resource::<UiStack<RegionId>>().map_or(0, |stack| stack.len())
}

fn has_stack(world: &World) -> bool {
    world.contains_resource::<UiStack<RegionId>>()
}

fn system_count(world: &World) -> usize {
    world.get_resource::<SystemRegistry>().map_or(0, |registry| registry.len())
}

#[test]
fn root_with_one_label_drains_clean() {
    let (mut world, context) = world_with_context();
    let mut commands: Commands<&str> = Commands::new();
    commands.show(CentralPanel("root"), |mut ui| {
        ui.add(EguiWidget("Label"), ());
        ui
    });
    assert_eq!(commands.len(), 3);
    let effects = commands.apply(&mut world);
    assert_eq!(commands.len(), 0);
    assert_eq!(depth(&world), 0);
    assert!(!has_stack(&world));
    assert_eq!(draws(&effects), 1);
    assert_eq!(reports(&effects), vec![]);
    assert_eq!(effects.len(), 3);
    assert_eq!(
        effects[0],
        Effect::BeginRoot {
            begin: BeginRoot { kind: RootKind::CentralPanel, region: "root" },
            context: context.clone(),
        }
    );
    match &effects[1] {
        Effect::Draw { widget, region, respond } => {
            assert_eq!(*region, RegionId(0));
            assert_eq!(*respond, Responder::Noop);
            assert_eq!(widget.len(), 1);
        }
        other => panic!("expected a draw, got {:?}", other),
    }
    assert_eq!(
        effects[2],
        Effect::EndRoot { end: EndRoot { kind: RootKind::CentralPanel }, unclosed: 0 }
    );
}

/// Plays the toolkit for one pass: every draw yields `activated`, and the
/// responder's unit, if it is started, adds one to the counter when the
/// result says so.
fn perform(world: &mut World, effects: Vec<Effect<&str>>, activated: bool, counter: &mut u32) -> usize {
    let mut initialized = 0;
    for effect in effects {
        if let Effect::Draw { respond, .. } = effect {
            if let Some(invocation) = respond.respond(world, activated) {
                if invocation.init {
                    initialized += 1;
                }
                if invocation.input {
                    *counter += 1;
                }
                finish_system(world, invocation.system);
            }
        }
    }
    initialized
}

fn increment(_activated: bool) {}

#[test]
fn button_activated_on_second_pass_counts_once() {
    let (mut world, context) = world_with_context();
    let mut counter = 0;
    let mut initialized = 0;
    for pass in 1..=2 {
        let mut commands: Commands<&str> = Commands::new();
        commands.show(CentralPanel("root"), |mut ui| {
            ui.show(Group, (), |mut ui| {
                ui.add(EguiWidget("Button"), SystemDef::of(&increment, 7));
                ui
            });
            ui
        });
        let effects = commands.apply(&mut world);
        assert_eq!(reports(&effects), vec![]);
        assert_eq!(draws(&effects), 1);
        assert_eq!(depth(&world), 0);
        initialized += perform(&mut world, effects, pass == 2, &mut counter);
        if pass == 1 {
            assert_eq!(counter, 0);
        }
    }
    assert_eq!(counter, 1);
    assert_eq!(initialized, 1);
    assert_eq!(system_count(&world), 1);
}

#[test]
fn close_without_open_reports_missing_stack() {
    let (mut world, context) = world_with_context();
    let mut commands: Commands<&str> = Commands::new();
    commands.queue(Command::EndRoot(EndRootCommand(EndRoot { kind: RootKind::CentralPanel })));
    let effects = commands.apply(&mut world);
    assert_eq!(effects, vec![Effect::Report(Diagnostic::MissingStack)]);
    assert_eq!(draws(&effects), 0);
    assert_eq!(depth(&world), 0);
    assert!(!has_stack(&world));
}

fn open_group() -> Command<&'static str> {
    Command::StartContainer(StartContainerCommand(BeginContainer {
        kind: ContainerKind::Group,
        opener: Opener::Group,
    }))
}

#[test]
fn unclosed_containers_are_reported_once() {
    let (mut world, context) = world_with_context();
    let mut commands: Commands<&str> = Commands::new();
    commands.queue(Command::StartRoot(StartRootCommand(BeginRoot {
        kind: RootKind::CentralPanel,
        region: "root",
    })));
    commands.queue(open_group());
    commands.queue(open_group());
    commands.queue(Command::EndRoot(EndRootCommand(EndRoot { kind: RootKind::CentralPanel })));
    let effects = commands.apply(&mut world);
    assert_eq!(reports(&effects), vec![Diagnostic::UnbalancedNesting]);
    assert_eq!(depth(&world), 0);
    assert!(!has_stack(&world));
    assert_eq!(effects.len(), 5);
    assert_eq!(
        effects[1],
        Effect::BeginContainer {
            begin: BeginContainer { kind: ContainerKind::Group, opener: Opener::Group },
            parent: RegionId(0),
            region: RegionId(1),
        }
    );
    assert_eq!(
        effects[2],
        Effect::BeginContainer {
            begin: BeginContainer { kind: ContainerKind::Group, opener: Opener::Group },
            parent: RegionId(1),
            region: RegionId(2),
        }
    );
    assert_eq!(effects[3], Effect::Report(Diagnostic::UnbalancedNesting));
    assert_eq!(
        effects[4],
        Effect::EndRoot { end: EndRoot { kind: RootKind::CentralPanel }, unclosed: 2 }
    );
}

#[test]
fn unclosed_containers_without_a_root_find_no_stack() {
    let (mut world, context) = world_with_context();
    let mut commands: Commands<&str> = Commands::new();
    commands.queue(open_group());
    commands.queue(open_group());
    commands.queue(Command::EndRoot(EndRootCommand(EndRoot { kind: RootKind::CentralPanel })));
    let effects = commands.apply(&mut world);
    assert_eq!(
        reports(&effects),
        vec![Diagnostic::MissingStack, Diagnostic::MissingStack, Diagnostic::MissingStack]
    );
    assert_eq!(depth(&world), 0);
}

/// A unit that keeps a running total of its own and reports, for each call,
/// the input it was given and the total so far.
struct Totals {
    initialized: u32,
    total: i32,
}

fn tally(_input: i32) {}

#[test]
fn one_unit_over_five_frames_is_initialized_once() {
    let mut world = World::new();
    let unit = SystemDef::of(&tally, 42);
    assert!(unit.is_stateless());
    let mut state = Totals { initialized: 0, total: 0 };
    let mut outputs = Vec::new();
    let mut handles: Vec<SystemId> = Vec::new();
    for frame in 0..5 {
        let mut ui = WorldUi::new(&mut world, RegionId(0));
        let invocation = ui.run_cached_with(unit, frame).expect("the unit is idle");
        if invocation.init {
            state.initialized += 1;
        }
        assert_eq!(invocation.input.ui, RegionId(0));
        assert_eq!(invocation.input.extra, frame);
        state.total += invocation.input.extra;
        outputs.push((invocation.input.extra, state.total));
        handles.push(invocation.system);
        finish_system(&mut world, invocation.system);
    }
    assert_eq!(outputs, vec![(0, 0), (1, 1), (2, 3), (3, 6), (4, 10)]);
    assert_eq!(state.initialized, 1);
    assert_eq!(system_count(&world), 1);
    assert!(handles.iter().all(|handle| *handle == handles[0]));
}

#[test]
fn definition_with_captured_state_is_not_stateless() {
    let offset = 5u64;
    let capturing = move |x: u64| x + offset;
    let stateful = SystemDef::of(&capturing, 1);
    assert!(!stateful.is_stateless());
    assert_eq!(stateful.captured, 8);
    assert_eq!(stateful.key, 1);
    let plain = |x: u64| x + 1;
    let stateless = SystemDef::of(&plain, 2);
    assert!(stateless.is_stateless());
    assert_eq!(stateless.captured, 0);
    assert_eq!(capturing(1), 6);
    assert_eq!(plain(1), 2);
    assert_eq!(stateless.into_responder(), SystemDef { key: 2, captured: 0 }.into_responder());
}
