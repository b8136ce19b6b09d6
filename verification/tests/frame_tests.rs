use mips_compiler::frame::{FrameLayer, FrameStack, SlotCounter};

#[test]
fn layer_binds_a_name_once() {
    let mut layer = FrameLayer::new();
    assert_eq!(layer.find("x"), None);
    assert_eq!(layer.get_addr("x", 4), 4);
    assert_eq!(layer.get_addr("x", 9), 4);
    assert_eq!(layer.get_addr("y", 9), 9);
    assert_eq!(layer.find("x"), Some(4));
    assert_eq!(layer.len(), 2);
    assert_eq!(layer.gen_mips(), "add $t6, $sp, $zero\naddi $sp, $sp, 2\n");
}

#[test]
fn distinct_names_get_distinct_slots() {
    let mut counter = SlotCounter::new();
    let mut frame = FrameStack::new();
    let a = frame.get_addr("a", &mut counter);
    let b = frame.get_addr("b", &mut counter);
    let c = frame.get_addr("c", &mut counter);
    assert_eq!((a, b, c), (0, 1, 2));
    assert_eq!(counter.count(), 3);
}

#[test]
fn same_name_gets_same_slot() {
    let mut counter = SlotCounter::new();
    let mut frame = FrameStack::new();
    let first = frame.get_addr("a", &mut counter);
    frame.get_addr("b", &mut counter);
    let again = frame.get_addr("a", &mut counter);
    assert_eq!(first, again);
    assert_eq!(counter.count(), 2);
}

#[test]
fn enclosing_binding_wins_in_nested_block() {
    let mut counter = SlotCounter::new();
    let mut outer = FrameStack::new();
    outer.get_addr("other", &mut counter);
    let slot = outer.get_addr("x", &mut counter);
    let mut inner = outer.push();
    assert_eq!(inner.get_addr("x", &mut counter), slot);
    assert_eq!(counter.count(), 2);
}

#[test]
fn sibling_blocks_do_not_share_slots() {
    let mut counter = SlotCounter::new();
    let outer = FrameStack::new();
    let mut first = outer.push();
    assert_eq!(first.get_addr("t", &mut counter), 0);
    let mut second = outer.push();
    assert_eq!(second.get_addr("t", &mut counter), 1);
    assert_eq!(outer.find("t"), None);
}

#[test]
fn frame_and_pushed_frame_share_the_counter() {
    let mut counter = SlotCounter::new();
    let mut outer = FrameStack::new();
    let mut inner = outer.push();
    assert_eq!(outer.get_addr("x", &mut counter), 0);
    assert_eq!(inner.get_addr("y", &mut counter), 1);
    assert_eq!(outer.get_addr("z", &mut counter), 2);
}

#[test]
fn pushed_frame_is_a_snapshot_with_reserved_slots() {
    let mut counter = SlotCounter::new();
    let mut outer = FrameStack::new();
    assert_eq!(outer.get_addr("a", &mut counter), 0);
    let mut inner = outer.push();
    assert_eq!(outer.get_addr("b", &mut counter), 1);
    assert_eq!(inner.get_addr("a", &mut counter), 0);
    assert_eq!(inner.find("b"), None);
    assert_eq!(inner.get_addr("b", &mut counter), 2);
}

#[test]
fn push_leaves_the_layers_as_they_are() {
    let mut counter = SlotCounter::new();
    let mut outer = FrameStack::new();
    outer.get_addr("x", &mut counter);
    let mut inner = outer.push();
    inner.get_addr("y", &mut counter);
    assert_eq!(outer.find("y"), None);
    assert_eq!(outer.find("x"), Some(0));
    assert_eq!(inner.find("x"), Some(0));
    assert_eq!(inner.find("y"), Some(1));
    assert_eq!(counter.count(), 2);
    assert_eq!(outer.get_addr("z", &mut counter), 2);
}

#[test]
fn counter_never_goes_back() {
    let mut counter = SlotCounter::new();
    counter.skip_to(5);
    counter.skip_to(2);
    assert_eq!(counter.count(), 5);
    let mut frame = FrameStack::new();
    assert_eq!(frame.get_addr("x", &mut counter), 5);
    assert_eq!(counter.clone().count(), 6);
}

#[test]
fn full_counter_binds_no_new_name() {
    let mut counter = SlotCounter::new();
    let mut frame = FrameStack::new();
    frame.get_addr("x", &mut counter);
    counter.skip_to(usize::MAX);
    assert!(frame.can_bind("x", &counter));
    assert!(!frame.can_bind("y", &counter));
}

#[test]
fn frame_reserves_every_slot() {
    let mut counter = SlotCounter::new();
    let mut frame = FrameStack::new();
    frame.get_addr("a", &mut counter);
    let mut inner = frame.push();
    inner.get_addr("b", &mut counter);
    assert_eq!(frame.gen_mips(&counter), "add $t6, $sp, $zero\naddi $sp, $sp, 2\n");
    assert_eq!(counter.gen_mips(), "add $t6, $sp, $zero\naddi $sp, $sp, 2\n");
}
