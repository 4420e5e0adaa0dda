use glyphmenu::error::MenuError;
use glyphmenu::menu::MenuTree;

#[test]
fn added_names_all_resolve_and_key_order_matches() {
    let mut t = MenuTree::new();
    let root = t.new_node("root", 0);
    let names = ["alpha", "beta", "gamma", "delta"];
    let mut handles = Vec::new();
    for (k, name) in names.iter().enumerate() {
        let h = t.add_child(root, name, 100 + k as i32).unwrap();
        handles.push(h);
    }
    let node = &t.nodes[root];
    assert_eq!(node.child_keys.len(), names.len());
    assert_eq!(node.child_handles.len(), names.len());
    for (k, name) in names.iter().enumerate() {
        assert_eq!(node.child_keys[k], *name, "insertion order is kept");
        assert_eq!(t.find_child_by_name(root, name), Ok(handles[k]));
    }
}

#[test]
fn duplicate_name_fails_and_changes_nothing() {
    let mut t = MenuTree::new();
    let root = t.new_node("root", 0);
    let first = t.add_child(root, "settings", 101).unwrap();
    let second = t.add_child(root, "demos", 102).unwrap();
    let before_len = t.nodes.len();
    let r = t.add_child(root, "settings", 999);
    assert_eq!(r, Err(MenuError::NameCollision));
    assert_eq!(t.nodes.len(), before_len, "no node was created");
    let node = &t.nodes[root];
    assert_eq!(node.child_keys, vec!["settings".to_string(), "demos".to_string()]);
    assert_eq!(node.child_handles, vec![first, second]);
    assert_eq!(t.find_child_by_name(root, "settings"), Ok(first));
    assert_eq!(t.nodes[first].id, 101, "the prior child is untouched");
}

#[test]
fn unknown_parent_handle_reports_not_found() {
    let mut t = MenuTree::new();
    let root = t.new_node("root", 0);
    assert_eq!(t.add_child(root + 1, "x", 1), Err(MenuError::NotFound));
    assert_eq!(t.find_child_by_name(root + 1, "x"), Err(MenuError::NotFound));
    assert_eq!(t.find_child_by_id(root + 1, 1), Err(MenuError::NotFound));
    assert_eq!(t.set_size(root + 1, 1, 1), Err(MenuError::NotFound));
    assert_eq!(t.build(root + 1), Err(MenuError::NotFound));
    assert_eq!(t.on_up(root + 1), Err(MenuError::NotFound));
}

#[test]
fn missing_name_or_id_reports_not_found() {
    let mut t = MenuTree::new();
    let root = t.new_node("root", 0);
    t.add_child(root, "settings", 101).unwrap();
    assert_eq!(t.find_child_by_name(root, "games"), Err(MenuError::NotFound));
    assert_eq!(t.find_child_by_id(root, 103), Err(MenuError::NotFound));
}

#[test]
fn id_lookup_scans_direct_children_only() {
    let mut t = MenuTree::new();
    let root = t.new_node("root", 0);
    let games = t.add_child(root, "games", 103).unwrap();
    let chess = t.add_child(games, "chess", 3004).unwrap();
    assert_eq!(t.find_child_by_id(games, 3004), Ok(chess));
    assert_eq!(
        t.find_child_by_id(root, 3004),
        Err(MenuError::NotFound),
        "a grandchild's id is out of the one-level search scope"
    );
}

#[test]
fn cursor_moves_saturate_and_never_wrap() {
    let mut t = MenuTree::new();
    let root = t.new_node("root", 0);
    t.set_size(root, 3, 4).unwrap();
    for _ in 0..7 {
        t.on_right(root).unwrap();
    }
    assert_eq!(t.nodes[root].cursor_x, 2, "pinned at viewport width - 1");
    for _ in 0..9 {
        t.on_down(root).unwrap();
    }
    assert_eq!(t.nodes[root].cursor_y, 3, "pinned at viewport height - 1");
    for _ in 0..9 {
        t.on_left(root).unwrap();
        t.on_up(root).unwrap();
    }
    assert_eq!(t.nodes[root].cursor_x, 0);
    assert_eq!(t.nodes[root].cursor_y, 0);
}

#[test]
fn up_at_the_top_row_is_a_noop() {
    let mut t = MenuTree::new();
    let root = t.new_node("root", 0);
    t.set_size(root, 1, 4).unwrap();
    assert_eq!(t.nodes[root].cursor_y, 0);
    assert_eq!(t.on_up(root), Ok(()));
    assert_eq!(t.nodes[root].cursor_y, 0, "no underflow, no error");
    assert_eq!(t.on_left(root), Ok(()));
    assert_eq!(t.nodes[root].cursor_x, 0);
}

#[test]
fn demo_tree_scenario() {
    let mut t = MenuTree::new();
    let root = t.new_node("root", 0);
    t.add_child(root, "settings", 101).unwrap();
    let demos = t.add_child(root, "demos", 102).unwrap();
    t.add_child(root, "games", 103).unwrap();
    t.set_size(root, 1, 4).unwrap();
    t.build(root).unwrap();
    assert_eq!(t.find_child_by_id(root, 102), Ok(demos));
    assert_eq!(t.nodes[demos].name, "demos");
    t.on_down(root).unwrap();
    t.on_down(root).unwrap();
    t.on_down(root).unwrap();
    t.on_up(root).unwrap();
    assert_eq!(t.nodes[root].cursor_y, 2);
}

#[test]
fn build_caches_the_longest_child_name() {
    let mut t = MenuTree::new();
    let root = t.new_node("root", 0);
    t.add_child(root, "settings", 101).unwrap();
    t.add_child(root, "demos", 102).unwrap();
    t.add_child(root, "games", 103).unwrap();
    t.build(root).unwrap();
    assert_eq!(t.nodes[root].cell_width, "settings".len());
    let empty = t.new_node("empty", 7);
    t.build(empty).unwrap();
    assert_eq!(t.nodes[empty].cell_width, 0);
}

#[test]
fn leaf_flag_clears_when_a_child_arrives_and_never_returns() {
    let mut t = MenuTree::new();
    let root = t.new_node("root", 0);
    assert!(t.nodes[root].is_leaf);
    let child = t.add_child(root, "settings", 101).unwrap();
    assert!(!t.nodes[root].is_leaf);
    assert!(t.nodes[child].is_leaf);
    t.set_size(child, 1, 1).unwrap();
    assert!(!t.nodes[child].is_leaf, "a sized viewport marks a container");
}

#[test]
fn display_width_is_name_plus_padding() {
    let mut t = MenuTree::new();
    let root = t.new_node("root", 0);
    assert_eq!(t.display_width(root), Ok("root".len() + 2));
    assert_eq!(t.display_width(root + 1), Err(MenuError::NotFound));
}

#[test]
fn set_enabled_and_set_id_update_one_node() {
    let mut t = MenuTree::new();
    let root = t.new_node("root", 0);
    let child = t.add_child(root, "settings", 101).unwrap();
    assert!(t.nodes[child].is_enabled);
    t.set_enabled(child, false).unwrap();
    assert!(!t.nodes[child].is_enabled);
    assert!(t.nodes[root].is_enabled, "the other node is untouched");
    t.set_id(child, 42).unwrap();
    assert_eq!(t.nodes[child].id, 42);
}
