use bevy_egui_commands::command::{
    Command, Commands, EndContainerCommand, EndRootCommand, RootCommands, StartContainerCommand,
    StartRootCommand, UiCommands, WidgetCommand,
};
use bevy_egui_commands::container::{
    queued_column, BeginContainer, CollapsingHeader, Columns, ComboBox, Const, Container,
    ContainerKind, Enabled, EndContainer, Frame, Group, Layout, Opener, Resize, ScrollArea,
    SubMenu, UiBuilder,
};
use bevy_egui_commands::ctx::{WorldCtx, WorldCtxExt};
use bevy_egui_commands::effect::{Diagnostic, Effect};
use bevy_egui_commands::responder::{IntoResponder, Responder};
use bevy_egui_commands::root::{
    Area, BeginRoot, CentralPanel, EndRoot, Root, RootKind, SidePanel, TopBottomPanel, Window,
};
use bevy_ecs::world::World;
use bevy_egui_commands::state::{EguiContext, RegionId};
use bevy_egui_commands::system::{SystemDef, SystemId, SystemRegistry};
use bevy_egui_commands::ui::{UiStack, WorldUi};
use bevy_egui_commands::widget::{EguiWidget, IntoWidget, Leaf, Widget};
use egui::Context;

fn world_with_context() -> World {
    let mut world = World::new();
    world.insert_resource(EguiContext(Context::default()));
    world
}

fn depth(world: &World) -> usize {
    world.get_resource::<UiStack<RegionId>>().map_or(0, |stack| stack.len())
}

fn has_stack(world: &World) -> bool {
    world.contains_resource::<UiStack<RegionId>>()
}

fn system_count(world: &World) -> usize {
    world.get_resource::<SystemRegistry>().map_or(0, |registry| registry.len())
}

fn start_root(kind: RootKind) -> Command<&'static str> {
    Command::StartRoot(StartRootCommand(BeginRoot { kind, region: "root" }))
}

fn end_root(kind: RootKind) -> Command<&'static str> {
    Command::EndRoot(EndRootCommand(EndRoot { kind }))
}

fn start(kind: ContainerKind) -> Command<&'static str> {
    Command::StartContainer(StartContainerCommand(BeginContainer {
        kind,
        opener: Opener::Primitive("region"),
    }))
}

fn end(kind: ContainerKind) -> Command<&'static str> {
    Command::EndContainer(EndContainerCommand {
        end: EndContainer { kind },
        respond: Responder::Noop,
    })
}

fn label(text: &'static str) -> Command<&'static str> {
    Command::Widget(WidgetCommand { widget: EguiWidget(text).into_widget(), respond: Responder::Noop })
}

fn drain(world: &mut World, script: Vec<Command<&'static str>>) -> Vec<Effect<&'static str>> {
    let mut commands = Commands::new();
    for command in script {
        commands.queue(command);
    }
    commands.apply(world)
}

#[test]
fn root_without_context_reports_and_opens_nothing() {
    let mut world = World::new();
    let effects = drain(
        &mut world,
        vec![start_root(RootKind::Window), label("a"), end_root(RootKind::Window)],
    );
    assert_eq!(
        effects,
        vec![
            Effect::Report(Diagnostic::MissingContext),
            Effect::Report(Diagnostic::MissingStack),
            Effect::Report(Diagnostic::MissingStack),
        ]
    );
    assert!(!has_stack(&world));
}

#[test]
fn container_without_stack_reports_missing_stack() {
    let mut world = world_with_context();
    let effects = drain(&mut world, vec![start(ContainerKind::Frame)]);
    assert_eq!(effects, vec![Effect::Report(Diagnostic::MissingStack)]);
    let effects = drain(&mut world, vec![end(ContainerKind::Frame)]);
    assert_eq!(effects, vec![Effect::Report(Diagnostic::MissingStack)]);
    let effects = drain(&mut world, vec![label("a")]);
    assert_eq!(effects, vec![Effect::Report(Diagnostic::MissingStack)]);
    assert_eq!(system_count(&world), 0);
}

#[test]
fn closing_more_than_was_opened_underflows() {
    let mut world = world_with_context();
    let effects = drain(
        &mut world,
        vec![start_root(RootKind::Area), end(ContainerKind::Group)],
    );
    assert_eq!(effects.len(), 2);
    assert_eq!(effects[1], Effect::Report(Diagnostic::StackUnderflow));
    // The command was a no-op: the top-level region is still open.
    assert_eq!(depth(&world), 1);
    let effects = drain(&mut world, vec![end_root(RootKind::Area)]);
    assert_eq!(effects, vec![Effect::EndRoot { end: EndRoot { kind: RootKind::Area }, unclosed: 0 }]);
    assert_eq!(depth(&world), 0);
}

#[test]
fn commands_on_an_empty_live_stack_underflow() {
    let mut world = world_with_context();
    world.insert_resource(UiStack::<RegionId>::new());
    assert!(has_stack(&world));
    assert_eq!(depth(&world), 0);
    let unit = SystemDef { key: 1, captured: 0 };
    let widget: Widget<&str> = unit.into_widget();
    let effects = drain(
        &mut world,
        vec![
            start(ContainerKind::Frame),
            Command::Widget(WidgetCommand { widget, respond: Responder::Noop }),
            end(ContainerKind::Frame),
        ],
    );
    assert_eq!(
        effects,
        vec![
            Effect::Report(Diagnostic::StackUnderflow),
            Effect::Report(Diagnostic::StackUnderflow),
            Effect::Report(Diagnostic::StackUnderflow),
        ]
    );
    // Nothing was drawn, so nothing was registered either.
    assert_eq!(system_count(&world), 0);
    let effects = drain(&mut world, vec![end_root(RootKind::Area)]);
    assert_eq!(
        effects,
        vec![
            Effect::Report(Diagnostic::UnbalancedNesting),
            Effect::Report(Diagnostic::StackUnderflow),
        ]
    );
    assert!(!has_stack(&world));
}

#[test]
fn closing_by_another_kind_is_a_mismatch() {
    let mut world = world_with_context();
    let effects = drain(
        &mut world,
        vec![
            start_root(RootKind::Window),
            start(ContainerKind::Frame),
            end(ContainerKind::Group),
        ],
    );
    assert_eq!(effects.len(), 3);
    assert_eq!(effects[2], Effect::Report(Diagnostic::DowncastMismatch));
    // The region that did not match is gone.
    assert_eq!(depth(&world), 1);
    let effects = drain(&mut world, vec![end_root(RootKind::Area)]);
    assert_eq!(effects, vec![Effect::Report(Diagnostic::DowncastMismatch)]);
    assert!(!has_stack(&world));
}

#[test]
fn nested_containers_close_innermost_first() {
    let mut world = world_with_context();
    let effects = drain(
        &mut world,
        vec![
            start_root(RootKind::SidePanel),
            start(ContainerKind::Frame),
            label("a"),
            start(ContainerKind::ScrollArea),
            label("b"),
            end(ContainerKind::ScrollArea),
            label("c"),
            end(ContainerKind::Frame),
            end_root(RootKind::SidePanel),
        ],
    );
    assert_eq!(effects.len(), 9);
    let regions: Vec<RegionId> = effects
        .iter()
        .filter_map(|effect| match effect {
            Effect::Draw { region, .. } => Some(*region),
            _ => None,
        })
        .collect();
    assert_eq!(regions, vec![RegionId(1), RegionId(2), RegionId(1)]);
    assert_eq!(
        effects[5],
        Effect::EndContainer {
            end: EndContainer { kind: ContainerKind::ScrollArea },
            parent: RegionId(1),
            region: RegionId(2),
            respond: Responder::Noop,
        }
    );
    assert_eq!(
        effects[7],
        Effect::EndContainer {
            end: EndContainer { kind: ContainerKind::Frame },
            parent: RegionId(0),
            region: RegionId(1),
            respond: Responder::Noop,
        }
    );
    assert_eq!(
        effects[8],
        Effect::EndRoot { end: EndRoot { kind: RootKind::SidePanel }, unclosed: 0 }
    );
    assert!(!has_stack(&world));
}

#[test]
fn opening_a_root_replaces_a_live_stack() {
    let mut world = world_with_context();
    let effects = drain(
        &mut world,
        vec![
            start_root(RootKind::Window),
            start(ContainerKind::Frame),
            start_root(RootKind::Area),
        ],
    );
    assert_eq!(effects.len(), 3);
    assert_eq!(depth(&world), 1);
    let effects = drain(&mut world, vec![end_root(RootKind::Area)]);
    assert_eq!(effects, vec![Effect::EndRoot { end: EndRoot { kind: RootKind::Area }, unclosed: 0 }]);
}

#[test]
fn widgets_are_delivered_in_queue_order() {
    let mut world = world_with_context();
    let mut commands: Commands<&str> = Commands::new();
    commands.show(CentralPanel("root"), |mut ui| {
        ui.add(EguiWidget("first"), ()).add(EguiWidget("second"), SystemDef { key: 1, captured: 0 });
        ui.show(Group, SystemDef { key: 2, captured: 0 }, |mut ui| {
            ui.add(EguiWidget("third"), ());
            ui
        })
        .add(EguiWidget("fourth"), ());
        ui
    });
    assert_eq!(commands.len(), 8);
    let effects = commands.apply(&mut world);
    let mut order = Vec::new();
    let mut responders = Vec::new();
    for effect in effects {
        match effect {
            Effect::Draw { widget, respond, .. } => {
                for leaf in widget.into_leaves() {
                    match leaf {
                        Leaf::Primitive(name) => order.push(name),
                        Leaf::System(_) => panic!("no unit was queued as a widget"),
                    }
                }
                responders.push(respond);
            }
            Effect::EndContainer { respond, .. } => responders.push(respond),
            _ => {}
        }
    }
    assert_eq!(order, vec!["first", "second", "third", "fourth"]);
    assert_eq!(responders.len(), 5);
    assert_eq!(responders[0], Responder::Noop);
    assert_eq!(responders[1], SystemDef { key: 1, captured: 0 }.into_responder());
    assert_eq!(responders[2], Responder::Noop);
    assert_eq!(responders[3], SystemDef { key: 2, captured: 0 }.into_responder());
    assert_eq!(responders[4], Responder::Noop);
}

#[test]
fn tuple_widget_draws_left_to_right() {
    let unit = SystemDef { key: 5, captured: 0 };
    let widget: Widget<&str> =
        (EguiWidget("a"), (EguiWidget("b"), unit), (), EguiWidget("c")).into_widget();
    assert_eq!(widget.len(), 4);
    assert_eq!(
        widget.into_leaves(),
        vec![Leaf::Primitive("a"), Leaf::Primitive("b"), Leaf::System(5), Leaf::Primitive("c")]
    );
    let single: Widget<u8> = (EguiWidget(1u8),).into_widget();
    assert_eq!(single.into_leaves(), vec![Leaf::Primitive(1)]);
    let none: Widget<u8> = ().into_widget();
    assert_eq!(none.len(), 0);
    let sixteen: Widget<u8> = (
        EguiWidget(0u8),
        EguiWidget(1u8),
        EguiWidget(2u8),
        EguiWidget(3u8),
        EguiWidget(4u8),
        EguiWidget(5u8),
        EguiWidget(6u8),
        EguiWidget(7u8),
        EguiWidget(8u8),
        EguiWidget(9u8),
        EguiWidget(10u8),
        EguiWidget(11u8),
        EguiWidget(12u8),
        EguiWidget(13u8),
        EguiWidget(14u8),
        EguiWidget(15u8),
    )
        .into_widget();
    let leaves = sixteen.into_leaves();
    assert_eq!(leaves.len(), 16);
    for (i, leaf) in leaves.iter().enumerate() {
        assert_eq!(*leaf, Leaf::Primitive(i as u8));
    }
    let joined = Widget::empty().followed_by(EguiWidget(1u8).into_widget());
    assert_eq!(joined.into_leaves(), vec![Leaf::Primitive(1)]);
}

#[test]
fn cached_widget_units_are_initialized_on_first_draw_only() {
    let mut world = world_with_context();
    let unit = SystemDef { key: 77, captured: 0 };
    let other = SystemDef { key: 78, captured: 0 };
    let mut inits = Vec::new();
    for _ in 0..3 {
        let mut commands: Commands<&str> = Commands::new();
        commands.show(CentralPanel("root"), |mut ui| {
            ui.add((unit, EguiWidget("x"), other, unit), ());
            ui
        });
        for effect in commands.apply(&mut world) {
            if let Effect::Init(id) = effect {
                inits.push(id);
            }
        }
    }
    assert_eq!(inits, vec![SystemId(0), SystemId(1)]);
    assert_eq!(system_count(&world), 2);
}

#[test]
fn containers_split_into_matching_halves() {
    fn halves<C: Container<&'static str>>(container: C) -> (ContainerKind, Opener<&'static str>, ContainerKind) {
        let (begin, end) = container.into_container();
        (begin.kind, begin.opener, end.kind)
    }
    let p = Opener::Primitive("p");
    assert_eq!(halves(Layout("p")), (ContainerKind::Layout, Opener::Primitive("p"), ContainerKind::Layout));
    assert_eq!(halves(ComboBox("p")).0, ContainerKind::ComboBox);
    assert_eq!(halves(Resize("p")).0, ContainerKind::Resize);
    assert_eq!(halves(Frame("p")).2, ContainerKind::Frame);
    assert_eq!(halves(ScrollArea("p")).0, ContainerKind::ScrollArea);
    assert_eq!(halves(CollapsingHeader("p")).0, ContainerKind::CollapsingHeader);
    assert_eq!(halves(SubMenu("p")).0, ContainerKind::SubMenu);
    assert_eq!(halves(UiBuilder("p")), (ContainerKind::UiBuilder, p, ContainerKind::UiBuilder));
    assert_eq!(halves(Columns(3usize)), (ContainerKind::Columns, Opener::Columns(3), ContainerKind::Columns));
    assert_eq!(
        halves(Columns(Const::<5>)),
        (ContainerKind::ConstColumns, Opener::Columns(5), ContainerKind::ConstColumns)
    );
    assert_eq!(halves(Enabled(false)), (ContainerKind::Enabled, Opener::Enabled(false), ContainerKind::Enabled));
    assert_eq!(halves(Group), (ContainerKind::Group, Opener::Group, ContainerKind::Group));
}

#[test]
fn roots_split_into_matching_halves() {
    fn halves<R: Root<&'static str>>(root: R) -> (RootKind, &'static str, RootKind) {
        let (begin, end) = root.into_root();
        (begin.kind, begin.region, end.kind)
    }
    assert_eq!(halves(CentralPanel("c")), (RootKind::CentralPanel, "c", RootKind::CentralPanel));
    assert_eq!(halves(SidePanel("s")), (RootKind::SidePanel, "s", RootKind::SidePanel));
    assert_eq!(halves(TopBottomPanel("t")), (RootKind::TopBottomPanel, "t", RootKind::TopBottomPanel));
    assert_eq!(halves(Window("w")), (RootKind::Window, "w", RootKind::Window));
    assert_eq!(halves(Area("a")), (RootKind::Area, "a", RootKind::Area));
}

#[test]
fn builder_queues_open_then_children_then_close() {
    let mut ui: UiCommands<&str> = UiCommands::new();
    ui.show(Enabled(true), (), |mut ui| {
        ui.add(EguiWidget("inside"), ());
        ui
    });
    assert_eq!(ui.reborrow().len(), 3);
    let mut commands = ui.into_commands();
    assert_eq!(commands.len(), 3);
    let mut world = world_with_context();
    let mut script = Commands::new();
    script.queue(start_root(RootKind::Window));
    script.append(&mut commands);
    script.queue(end_root(RootKind::Window));
    assert_eq!(commands.len(), 0);
    let effects = script.apply(&mut world);
    assert_eq!(effects.len(), 5);
    assert_eq!(
        effects[1],
        Effect::BeginContainer {
            begin: BeginContainer { kind: ContainerKind::Enabled, opener: Opener::Enabled(true) },
            parent: RegionId(0),
            region: RegionId(1),
        }
    );
    assert!(matches!(effects[2], Effect::Draw { region: RegionId(1), .. }));
    assert!(matches!(effects[3], Effect::EndContainer { region: RegionId(1), .. }));
}

#[test]
fn world_ctx_needs_a_context() {
    let mut world = World::new();
    assert!(matches!(WorldCtx::new(&mut world), Err(Diagnostic::MissingContext)));
    assert!(matches!(world.try_ctx_mut(), Err(Diagnostic::MissingContext)));
    let context = Context::default();
    world.insert_resource(EguiContext(context.clone()));
    {
        let ctx = WorldCtx::new(&mut world).expect("the world has a context");
        assert_eq!(ctx.ctx, context);
    }
    let mut ctx = world.try_ctx_mut().expect("the world has a context");
    let effects: Vec<Effect<&str>> = ctx.show(TopBottomPanel("top"), |mut ui| {
        ui.add(EguiWidget("Top panel"), ());
        ui
    });
    assert_eq!(effects.len(), 3);
    assert_eq!(
        effects[0],
        Effect::BeginRoot {
            begin: BeginRoot { kind: RootKind::TopBottomPanel, region: "top" },
            context: context.clone(),
        }
    );
    assert!(!has_stack(&world));
    // Another context is another handle.
    assert_ne!(context, Context::default());
}

#[test]
fn world_ctx_shows_in_its_own_context() {
    let mut world = World::new();
    let first = Context::default();
    world.insert_resource(EguiContext(first.clone()));
    let mut ctx = WorldCtx::new(&mut world).expect("the world has a context");
    // The world loses its context; the pair keeps the one it was made with.
    let _: Option<EguiContext> = ctx.world.remove_resource();
    let effects: Vec<Effect<&str>> = ctx.show(Window("window"), |ui| ui);
    assert_eq!(
        effects,
        vec![
            Effect::BeginRoot {
                begin: BeginRoot { kind: RootKind::Window, region: "window" },
                context: first.clone(),
            },
            Effect::EndRoot { end: EndRoot { kind: RootKind::Window }, unclosed: 0 },
        ]
    );
    // Queued, the same region finds no context to open in.
    let mut commands: Commands<&str> = Commands::new();
    commands.show(Window("window"), |ui| ui);
    let effects = commands.apply(&mut world);
    assert_eq!(
        effects,
        vec![
            Effect::Report(Diagnostic::MissingContext),
            Effect::Report(Diagnostic::MissingStack),
        ]
    );
}

#[test]
fn world_bound_to_one_thread_refuses_the_stack() {
    let mut world = world_with_context();
    // Somebody keeps the stack's type as a resource of the other kind.
    world.insert_non_send_resource(UiStack::<RegionId>::default());
    let effects = drain(
        &mut world,
        vec![start_root(RootKind::Window), label("a"), end_root(RootKind::Window)],
    );
    assert_eq!(
        effects,
        vec![
            Effect::Report(Diagnostic::StorageRefused),
            Effect::Report(Diagnostic::MissingStack),
            Effect::Report(Diagnostic::MissingStack),
        ]
    );
    assert!(!has_stack(&world));
    let mut ctx = world.try_ctx_mut().expect("the world has a context");
    let effects: Vec<Effect<&str>> = ctx.show(Window("window"), |ui| ui);
    assert_eq!(
        effects,
        vec![
            Effect::Report(Diagnostic::StorageRefused),
            Effect::Report(Diagnostic::MissingStack),
        ]
    );
}

#[test]
fn widget_with_a_unit_needs_a_registry() {
    let mut world = world_with_context();
    world.insert_non_send_resource(SystemRegistry::new());
    let unit = SystemDef { key: 3, captured: 0 };
    let with_unit: Widget<&str> = (EguiWidget("a"), unit).into_widget();
    let effects = drain(
        &mut world,
        vec![
            start_root(RootKind::Window),
            Command::Widget(WidgetCommand { widget: with_unit, respond: Responder::Noop }),
            label("b"),
            end_root(RootKind::Window),
        ],
    );
    assert_eq!(effects.len(), 4);
    assert_eq!(effects[1], Effect::Report(Diagnostic::StorageRefused));
    assert!(matches!(effects[2], Effect::Draw { .. }));
    assert!(!has_stack(&world));
    assert_eq!(system_count(&world), 0);
}

#[test]
fn queued_content_goes_into_the_first_column() {
    assert_eq!(queued_column(0), None);
    assert_eq!(queued_column(1), Some(0));
    assert_eq!(queued_column(7), Some(0));
}

#[test]
fn world_ui_draws_into_its_region() {
    let mut world = World::new();
    let mut ui = WorldUi::new(&mut world, RegionId(3));
    assert_eq!(ui.ui(), RegionId(3));
    let unit = SystemDef { key: 6, captured: 0 };
    let effects: Vec<Effect<&str>> = ui.add((unit, EguiWidget("label")));
    assert_eq!(effects.len(), 2);
    assert_eq!(effects[0], Effect::Init(SystemId(0)));
    match &effects[1] {
        Effect::Draw { widget, region, respond } => {
            assert_eq!(*region, RegionId(3));
            assert_eq!(*respond, Responder::Noop);
            assert_eq!(widget.len(), 2);
        }
        other => panic!("expected a draw, got {:?}", other),
    }
    {
        let mut shorter = ui.reborrow();
        let again: Vec<Effect<&str>> = shorter.add(unit);
        assert_eq!(again.len(), 1);
    }
    {
        let (world, region) = ui.parts();
        assert_eq!(region, RegionId(3));
        assert_eq!(system_count(&world), 1);
    }
    let (world, region) = ui.into_parts();
    assert_eq!(region, RegionId(3));
    assert_eq!(system_count(&world), 1);
}
