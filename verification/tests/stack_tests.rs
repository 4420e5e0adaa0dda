use glyphmenu::error::MenuError;
use glyphmenu::menu::{MenuTree, SelectOutcome};
use glyphmenu::stack::{DispatchResult, MenuEvent, MenuStack};

/// The demo tree: root with settings, demos and games; games has children.
fn demo_tree() -> (MenuTree, usize, usize, usize, usize) {
    let mut t = MenuTree::new();
    let root = t.new_node("root", 0);
    let settings = t.add_child(root, "settings", 101).unwrap();
    let demos = t.add_child(root, "demos", 102).unwrap();
    let games = t.add_child(root, "games", 103).unwrap();
    t.set_size(root, 1, 4).unwrap();
    t.add_child(games, "chess", 3004).unwrap();
    t.add_child(games, "snake", 3005).unwrap();
    t.set_size(games, 1, 4).unwrap();
    t.build(root).unwrap();
    (t, root, settings, demos, games)
}

#[test]
fn open_makes_the_node_the_input_target() {
    let (t, root, _, _, _) = demo_tree();
    let mut stk = MenuStack::new(2);
    assert_eq!(stk.get_top_menu(), Err(MenuError::EmptyStack));
    assert_eq!(stk.open(&t, root), Ok(()));
    assert_eq!(stk.get_top_menu(), Ok(root));
}

#[test]
fn open_rejects_unknown_and_duplicate_handles() {
    let (t, root, _, _, _) = demo_tree();
    let mut stk = MenuStack::new(2);
    assert_eq!(stk.open(&t, t.nodes.len()), Err(MenuError::NotFound));
    assert_eq!(stk.open(&t, root), Ok(()));
    assert_eq!(stk.open(&t, root), Err(MenuError::NameCollision));
    assert_eq!(stk.stack, vec![root]);
}

#[test]
fn select_on_a_submenu_pushes_that_child() {
    let (mut t, root, _, _, games) = demo_tree();
    let mut stk = MenuStack::new(2);
    stk.open(&t, root).unwrap();
    // move the cursor onto "games": two rows down from the top
    stk.dispatch(&mut t, MenuEvent::Down).unwrap();
    stk.dispatch(&mut t, MenuEvent::Down).unwrap();
    let r = stk.dispatch(&mut t, MenuEvent::Select);
    assert_eq!(r, Ok(DispatchResult::Opened(games)));
    assert_eq!(stk.get_top_menu(), Ok(games));
    assert_eq!(stk.stack, vec![root, games]);
}

#[test]
fn select_on_a_leaf_activates_it_without_pushing() {
    let (mut t, root, settings, _, _) = demo_tree();
    let mut stk = MenuStack::new(2);
    stk.open(&t, root).unwrap();
    let r = stk.dispatch(&mut t, MenuEvent::Select);
    assert_eq!(r, Ok(DispatchResult::Activated(settings)));
    assert_eq!(stk.stack, vec![root]);
}

#[test]
fn cancel_on_the_root_alone_is_rejected() {
    let (mut t, root, _, _, _) = demo_tree();
    let mut stk = MenuStack::new(2);
    stk.open(&t, root).unwrap();
    let r = stk.dispatch(&mut t, MenuEvent::Cancel);
    assert_eq!(r, Err(MenuError::EmptyStack), "the root is not poppable");
    assert_eq!(stk.stack, vec![root]);
}

#[test]
fn cancel_pops_exactly_one_level() {
    let (mut t, root, _, _, games) = demo_tree();
    let mut stk = MenuStack::new(2);
    stk.open(&t, root).unwrap();
    stk.open(&t, games).unwrap();
    let r = stk.dispatch(&mut t, MenuEvent::Cancel);
    assert_eq!(r, Ok(DispatchResult::Closed(games)));
    assert_eq!(stk.stack, vec![root]);
    assert_eq!(stk.get_top_menu(), Ok(root));
}

#[test]
fn dispatch_on_an_empty_stack_is_rejected() {
    let (mut t, _, _, _, _) = demo_tree();
    let mut stk = MenuStack::new(2);
    for ev in [
        MenuEvent::Up,
        MenuEvent::Down,
        MenuEvent::Left,
        MenuEvent::Right,
        MenuEvent::Select,
        MenuEvent::Cancel,
    ] {
        assert_eq!(stk.dispatch(&mut t, ev), Err(MenuError::EmptyStack));
    }
}

#[test]
fn direction_events_move_only_the_top_menu() {
    let (mut t, root, _, _, games) = demo_tree();
    let mut stk = MenuStack::new(2);
    stk.open(&t, root).unwrap();
    stk.open(&t, games).unwrap();
    assert_eq!(stk.dispatch(&mut t, MenuEvent::Down), Ok(DispatchResult::Moved));
    assert_eq!(t.nodes[games].cursor_y, 1);
    assert_eq!(t.nodes[root].cursor_y, 0, "the covered menu does not move");
}

#[test]
fn select_past_the_last_child_reports_not_found() {
    let (mut t, root, _, _, _) = demo_tree();
    // root shows 3 children in a 4-row viewport: the last row is empty
    let mut stk = MenuStack::new(2);
    stk.open(&t, root).unwrap();
    for _ in 0..3 {
        stk.dispatch(&mut t, MenuEvent::Down).unwrap();
    }
    assert_eq!(t.nodes[root].cursor_y, 3);
    assert_eq!(stk.dispatch(&mut t, MenuEvent::Select), Err(MenuError::NotFound));
}

#[test]
fn on_select_reports_submenu_against_leaf() {
    let (mut t, root, settings, _, games) = demo_tree();
    assert_eq!(t.on_select(root), Ok(SelectOutcome::ActivatedLeaf(settings)));
    t.on_down(root).unwrap();
    t.on_down(root).unwrap();
    assert_eq!(t.on_select(root), Ok(SelectOutcome::EnteredSubmenu(games)));
}

#[test]
fn close_on_an_empty_stack_is_rejected() {
    let mut stk = MenuStack::new(2);
    assert_eq!(stk.close(), Err(MenuError::EmptyStack));
}
