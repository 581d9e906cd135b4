use std::collections::VecDeque;

use bevy_ecs::world::World;
use bevy_egui_commands::command::{Commands, RootCommands, UiCommands};
use bevy_egui_commands::container::{BeginContainer, ContainerKind, EndContainer, Frame, Group, Opener};
use bevy_egui_commands::effect::{
    init_effects, last_result, take_region, units_to_init, Diagnostic, Effect, Nesting,
};
use bevy_egui_commands::responder::Responder;
use bevy_egui_commands::root::{EndRoot, RootKind, Window};
use bevy_egui_commands::state::{EguiContext, RegionId};
use bevy_egui_commands::system::SystemId;
use bevy_egui_commands::ui::UiStack;
use bevy_egui_commands::widget::EguiWidget;
use egui::Context;

type E = Effect<&'static str>;

fn begin(region: usize) -> E {
    Effect::BeginContainer {
        begin: BeginContainer { kind: ContainerKind::Group, opener: Opener::Group },
        parent: RegionId(region - 1),
        region: RegionId(region),
    }
}

fn end(region: usize) -> E {
    Effect::EndContainer {
        end: EndContainer { kind: ContainerKind::Group },
        parent: RegionId(region - 1),
        region: RegionId(region),
        respond: Responder::Noop,
    }
}

fn end_root(unclosed: usize) -> E {
    Effect::EndRoot { end: EndRoot { kind: RootKind::Window }, unclosed }
}

fn note() -> E {
    Effect::Report(Diagnostic::StackUnderflow)
}

#[test]
fn effects_tell_their_nesting() {
    assert_eq!(begin(1).nests(), Nesting::Opens);
    assert_eq!(end(1).nests(), Nesting::Closes);
    assert_eq!(end_root(0).nests(), Nesting::ClosesAll);
    assert_eq!(note().nests(), Nesting::Keeps);
    assert_eq!(E::Init(SystemId(0)).nests(), Nesting::Keeps);
}

#[test]
fn region_ends_at_its_own_end() {
    // The region is open already; its body holds a nested region.
    let mut effects: VecDeque<E> =
        VecDeque::from(vec![note(), begin(2), note(), end(2), note(), end(1), note(), end_root(0)]);
    let (body, closing) = take_region(&mut effects);
    assert_eq!(body, VecDeque::from(vec![note(), begin(2), note(), end(2), note()]));
    assert_eq!(closing, Some(end(1)));
    assert_eq!(effects, VecDeque::from(vec![note(), end_root(0)]));
}

#[test]
fn empty_region_has_an_empty_body() {
    let mut effects: VecDeque<E> = VecDeque::from(vec![end(1), note()]);
    let (body, closing) = take_region(&mut effects);
    assert!(body.is_empty());
    assert_eq!(closing, Some(end(1)));
    assert_eq!(effects, VecDeque::from(vec![note()]));
}

#[test]
fn region_left_open_ends_with_the_root() {
    let mut effects: VecDeque<E> = VecDeque::from(vec![note(), begin(2), note(), end_root(2), note()]);
    let (body, closing) = take_region(&mut effects);
    assert_eq!(body, VecDeque::from(vec![note(), begin(2), note()]));
    assert_eq!(closing, None);
    // The end of the top-level region stays in front.
    assert_eq!(effects, VecDeque::from(vec![end_root(2), note()]));
}

#[test]
fn region_without_end_takes_everything() {
    let mut effects: VecDeque<E> = VecDeque::from(vec![note(), begin(2), end(2), note()]);
    let (body, closing) = take_region(&mut effects);
    assert_eq!(body.len(), 4);
    assert_eq!(closing, None);
    assert!(effects.is_empty());
    let (body, closing) = take_region(&mut effects);
    assert!(body.is_empty());
    assert_eq!(closing, None);
}

#[test]
fn root_region_is_what_its_script_asks_for() {
    let mut world = World::new();
    world.insert_resource(EguiContext(Context::default()));
    let mut commands: Commands<&str> = Commands::new();
    commands.show(Window("window"), |mut ui| {
        ui.add(EguiWidget("a"), ());
        ui.show(Frame("frame"), (), |mut ui| {
            ui.show(Group, (), |ui| ui);
            ui.add(EguiWidget("b"), ());
            ui
        });
        ui
    });
    let mut effects = VecDeque::from(commands.apply(&mut world));
    assert_eq!(effects.len(), 8);
    assert!(matches!(effects.pop_front(), Some(Effect::BeginRoot { .. })));
    let (body, closing) = take_region(&mut effects);
    assert_eq!(closing, None);
    assert_eq!(body.len(), 6);
    assert_eq!(effects.len(), 1);
    assert_eq!(effects[0].nests(), Nesting::ClosesAll);
    // Inside, the frame is a region of its own.
    let mut inside = body;
    assert!(matches!(inside.pop_front(), Some(Effect::Draw { .. })));
    assert!(matches!(inside.pop_front(), Some(Effect::BeginContainer { .. })));
    let (frame, closing) = take_region(&mut inside);
    assert_eq!(frame.len(), 3);
    assert!(matches!(closing, Some(Effect::EndContainer { region: RegionId(1), .. })));
    assert!(inside.is_empty());
}

#[test]
fn balanced_script_keeps_the_stack() {
    let mut world = World::new();
    let mut stack = UiStack::new();
    stack.push(bevy_egui_commands::ui::RegionKind::Root(RootKind::Area), RegionId(0));
    stack.push(
        bevy_egui_commands::ui::RegionKind::Container(ContainerKind::Resize),
        RegionId(1),
    );
    world.insert_resource(stack);
    let mut ui: UiCommands<&str> = UiCommands::new();
    ui.show(Group, (), |mut ui| {
        ui.add(EguiWidget("x"), ()).show(Frame("f"), (), |ui| ui);
        ui
    })
    .add(EguiWidget("y"), ());
    let mut commands = ui.into_commands();
    let effects = commands.apply(&mut world);
    assert_eq!(effects.len(), 6);
    assert!(effects.iter().all(|effect| !matches!(effect, Effect::Report(_))));
    let stack = world.get_resource::<UiStack<RegionId>>().expect("the stack is still live");
    assert_eq!(stack.len(), 2);
    assert_eq!(stack.top(), Some(&RegionId(1)));
    assert_eq!(
        stack.top_kind(),
        Some(bevy_egui_commands::ui::RegionKind::Container(ContainerKind::Resize))
    );
}

#[test]
fn new_units_are_initialized_in_order() {
    let effects: Vec<E> = init_effects(vec![SystemId(2), SystemId(0), SystemId(5)]);
    assert_eq!(
        effects,
        vec![Effect::Init(SystemId(2)), Effect::Init(SystemId(0)), Effect::Init(SystemId(5))]
    );
    assert!(init_effects::<&str>(vec![]).is_empty());
}

#[test]
fn last_result_is_the_last_that_is_there() {
    assert_eq!(last_result::<u8>(vec![]), None);
    assert_eq!(last_result::<u8>(vec![None, None]), None);
    assert_eq!(last_result(vec![Some(1), None, Some(3)]), Some(3));
    assert_eq!(last_result(vec![Some(1), Some(2), None, None]), Some(2));
    assert_eq!(last_result(vec![Some(4)]), Some(4));
}

#[test]
fn units_of_an_unshown_body_are_found_in_order() {
    let body: VecDeque<E> = VecDeque::from(vec![
        note(),
        Effect::Init(SystemId(3)),
        begin(2),
        Effect::Init(SystemId(1)),
        end(2),
        Effect::Init(SystemId(4)),
    ]);
    assert_eq!(units_to_init(&body), vec![SystemId(3), SystemId(1), SystemId(4)]);
    assert_eq!(body.len(), 6);
    assert!(units_to_init(&VecDeque::<E>::new()).is_empty());
    assert!(units_to_init(&VecDeque::from(vec![note(), begin(1), end(1)])).is_empty());
}
