use bevy_egui_commands::container::ContainerKind;
use bevy_egui_commands::root::RootKind;
use bevy_egui_commands::ui::{PopError, RegionKind, UiStack};

const ROOT: RegionKind = RegionKind::Root(RootKind::Window);
const GROUP: RegionKind = RegionKind::Container(ContainerKind::Group);
const FRAME: RegionKind = RegionKind::Container(ContainerKind::Frame);

#[test]
fn new_stack_is_empty() {
    let mut stack: UiStack<u32> = UiStack::new();
    assert_eq!(stack.len(), 0);
    assert!(stack.is_empty());
    assert_eq!(stack.top(), None);
    assert_eq!(stack.top_kind(), None);
    assert!(stack.top_mut().is_none());
}

#[test]
fn pop_returns_what_was_pushed_last() {
    let mut stack = UiStack::new();
    stack.push(ROOT, "panel");
    stack.push(GROUP, "group");
    stack.push(FRAME, "frame");
    assert_eq!(stack.len(), 3);
    assert_eq!(stack.top_kind(), Some(FRAME));
    assert_eq!(stack.pop(FRAME), Ok("frame"));
    assert_eq!(stack.pop(GROUP), Ok("group"));
    assert_eq!(stack.top(), Some(&"panel"));
    assert_eq!(stack.pop(ROOT), Ok("panel"));
    assert!(stack.is_empty());
}

#[test]
fn pop_on_empty_stack_changes_nothing() {
    let mut stack: UiStack<u8> = UiStack::new();
    assert_eq!(stack.pop(ROOT), Err(PopError::Empty));
    assert_eq!(stack.len(), 0);
    stack.push(ROOT, 1);
    assert_eq!(stack.pop(ROOT), Ok(1));
    assert_eq!(stack.pop(ROOT), Err(PopError::Empty));
}

#[test]
fn pop_of_another_kind_discards_the_region() {
    let mut stack = UiStack::new();
    stack.push(ROOT, 1);
    stack.push(GROUP, 2);
    assert_eq!(stack.pop(FRAME), Err(PopError::Mismatch));
    assert_eq!(stack.len(), 1);
    assert_eq!(stack.top(), Some(&1));
    assert_eq!(stack.pop(GROUP), Err(PopError::Mismatch));
    assert_eq!(stack.len(), 0);
}

#[test]
fn top_mut_writes_through_to_the_innermost_region() {
    let mut stack = UiStack::new();
    stack.push(ROOT, 10);
    stack.push(GROUP, 20);
    if let Some(data) = stack.top_mut() {
        *data += 5;
    }
    assert_eq!(stack.top(), Some(&25));
    assert_eq!(stack.top_kind(), Some(GROUP));
    assert_eq!(stack.pop(GROUP), Ok(25));
    assert_eq!(stack.pop(ROOT), Ok(10));
}

#[test]
fn truncate_drops_the_inner_regions() {
    let mut stack = UiStack::new();
    stack.push(ROOT, 'a');
    stack.push(GROUP, 'b');
    stack.push(FRAME, 'c');
    stack.truncate(5);
    assert_eq!(stack.len(), 3);
    stack.truncate(1);
    assert_eq!(stack.len(), 1);
    assert_eq!(stack.top(), Some(&'a'));
    stack.truncate(0);
    assert!(stack.is_empty());
}
