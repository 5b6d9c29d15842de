use ridgeback::keybindings::ShortcutAction;
use ridgeback::split_pane::SplitPaneManager;
use ridgeback::tabs::TabManager;
use ridgeback::workspace::{
    cleanup_empty_groups, focus_adjacent_group, handle_shortcut, move_active_tab_to_adjacent_group,
    tear_tab_to_new_group, apply_tab_bar_action, drop_tab_in_center, drop_tab_on_edge,
    ShortcutEffect, ShortcutOutcome, TabBarAction, TabBarEffect,
};
use ridgeback::split_pane::DropSide;

fn window() -> (TabManager<u32>, SplitPaneManager<u8>) {
    let mut tabs = TabManager::new();
    let g = tabs.new_group_with_tab("bash", "Bash", 1, 10);
    if let Some(group) = tabs.group_by_id_mut(g) {
        group.open_tab("bash", "Bash", 2, 11);
    }
    (tabs, SplitPaneManager::new(g))
}

fn states(tabs: &TabManager<u32>, id: usize) -> Vec<u32> {
    tabs.group_by_id(id).unwrap().tabs_ref().iter().map(|t| t.state).collect()
}

#[test]
fn tearing_off_a_tab_splits_its_pane() {
    let (mut tabs, mut panes) = window();
    tear_tab_to_new_group(&mut tabs, &mut panes, 0, 0, true, 50);
    assert_eq!(tabs.group_ids_ordered(), vec![0, 1]);
    assert_eq!(panes.leaf_group_ids(), vec![0, 1]);
    assert_eq!(states(&tabs, 0), vec![11]);
    assert_eq!(states(&tabs, 1), vec![10]);
    assert_eq!(tabs.focused_group_id(), 1);
    assert_eq!(panes.focused_group_id, 1);

    // Tearing off the last tab of a group replaces the group.
    tear_tab_to_new_group(&mut tabs, &mut panes, 0, 0, false, 50);
    assert_eq!(tabs.group_ids_ordered(), vec![1, 2]);
    assert_eq!(panes.leaf_group_ids(), vec![2, 1]);
    assert_eq!(states(&tabs, 2), vec![11]);
}

#[test]
fn moving_the_active_tab_follows_it() {
    let (mut tabs, mut panes) = window();
    tear_tab_to_new_group(&mut tabs, &mut panes, 0, 1, true, 50);
    // Groups: 0 = [10], 1 = [11]; focus on 1.
    focus_adjacent_group(&mut tabs, &mut panes, true);
    assert_eq!(tabs.focused_group_id(), 0);
    assert_eq!(panes.focused_group_id, 0);
    move_active_tab_to_adjacent_group(&mut tabs, &mut panes, true);
    // Group 0 emptied and went away; its tab is now active in group 1.
    assert_eq!(tabs.group_ids_ordered(), vec![1]);
    assert_eq!(panes.leaf_group_ids(), vec![1]);
    assert_eq!(states(&tabs, 1), vec![11, 10]);
    assert_eq!(tabs.group_by_id(1).unwrap().active_index(), 1);
    assert_eq!(tabs.focused_group_id(), 1);
    // With one group left nothing moves.
    move_active_tab_to_adjacent_group(&mut tabs, &mut panes, false);
    assert_eq!(states(&tabs, 1), vec![11, 10]);
    focus_adjacent_group(&mut tabs, &mut panes, false);
    assert_eq!(tabs.focused_group_id(), 1);
}

#[test]
fn cleanup_keeps_one_group() {
    let mut tabs: TabManager<u32> = TabManager::new();
    let a = tabs.new_group();
    let mut panes: SplitPaneManager<u8> = SplitPaneManager::new(a);
    let b = tabs.new_group_with_tab("zsh", "Zsh", 5, 50);
    panes.split_group_horizontal(a, b, 1);
    let c = tabs.new_group();
    panes.split_group_vertical(b, c, 1);
    cleanup_empty_groups(&mut tabs, &mut panes);
    assert_eq!(tabs.group_ids_ordered(), vec![b]);
    assert_eq!(panes.leaf_group_ids(), vec![b]);

    // When every group is empty, the last one stays.
    if let Some(g) = tabs.group_by_id_mut(b) {
        g.remove_tab(0);
    }
    let d = tabs.new_group();
    panes.split_group_horizontal(b, d, 1);
    cleanup_empty_groups(&mut tabs, &mut panes);
    assert_eq!(tabs.group_ids_ordered(), vec![d]);
    assert_eq!(panes.leaf_group_ids(), vec![d]);
}

#[test]
fn shortcuts_act_on_the_focused_group() {
    let (mut tabs, mut panes) = window();
    // Group 0 holds [10, 11] with the second active.
    let out = handle_shortcut(&mut tabs, &mut panes, ShortcutAction::NextTab);
    assert_eq!(out, ShortcutOutcome { effect: ShortcutEffect::Nothing, refocus: true });
    assert_eq!(tabs.group_by_id(0).unwrap().active_index(), 0);
    handle_shortcut(&mut tabs, &mut panes, ShortcutAction::PrevTab);
    assert_eq!(tabs.group_by_id(0).unwrap().active_index(), 1);

    let out = handle_shortcut(&mut tabs, &mut panes, ShortcutAction::CloseTab);
    assert_eq!(out, ShortcutOutcome { effect: ShortcutEffect::Nothing, refocus: false });
    let closing: Vec<bool> = tabs.group_by_id(0).unwrap().tabs_ref().iter().map(|t| t.closing).collect();
    assert_eq!(closing, vec![false, true]);
    handle_shortcut(&mut tabs, &mut panes, ShortcutAction::ClosePane);
    assert!(tabs.group_by_id(0).unwrap().tabs_ref().iter().all(|t| t.closing));

    let out = handle_shortcut(&mut tabs, &mut panes, ShortcutAction::NewTab);
    assert_eq!(out, ShortcutOutcome { effect: ShortcutEffect::OpenTab, refocus: true });
    let out = handle_shortcut(&mut tabs, &mut panes, ShortcutAction::SplitVertical);
    assert_eq!(out.effect, ShortcutEffect::OpenSplit { horizontal: false });
    assert_eq!(
        handle_shortcut(&mut tabs, &mut panes, ShortcutAction::FindInSession).effect,
        ShortcutEffect::ToggleFind
    );
    assert_eq!(tabs.group_ids_ordered(), vec![0]);

    tear_tab_to_new_group(&mut tabs, &mut panes, 0, 0, true, 50);
    assert_eq!(tabs.focused_group_id(), 1);
    handle_shortcut(&mut tabs, &mut panes, ShortcutAction::FocusPrevGroup);
    assert_eq!(tabs.focused_group_id(), 0);
    assert_eq!(panes.focused_group_id, 0);
    handle_shortcut(&mut tabs, &mut panes, ShortcutAction::MoveTabNextGroup);
    assert_eq!(tabs.group_ids_ordered(), vec![1]);
    assert_eq!(states(&tabs, 1), vec![10, 11]);
}

#[test]
fn tab_bar_actions() {
    let (mut tabs, mut panes) = window();
    let b = tabs.new_group();
    panes.split_group_horizontal(0, b, 50);
    // Clicking the first tab of group 0 activates it and asks for its terminal.
    let e = apply_tab_bar_action(&mut tabs, &mut panes, 0, TabBarAction::ClickTab(0), 50);
    assert_eq!(e, TabBarEffect::FocusTerminal(1));
    assert_eq!(tabs.group_by_id(0).unwrap().active_index(), 0);
    let e = apply_tab_bar_action(&mut tabs, &mut panes, b, TabBarAction::ClickTab(0), 50);
    assert_eq!(e, TabBarEffect::Nothing);
    assert_eq!(tabs.focused_group_id(), b);
    assert_eq!(panes.focused_group_id, b);

    let e = apply_tab_bar_action(
        &mut tabs,
        &mut panes,
        0,
        TabBarAction::NewTab { profile_key: "zsh".to_string() },
        50,
    );
    assert_eq!(e, TabBarEffect::OpenTab { profile_key: "zsh".to_string() });
    assert_eq!(tabs.focused_group_id(), 0);

    apply_tab_bar_action(&mut tabs, &mut panes, 0, TabBarAction::CloseTab(1), 50);
    let closing: Vec<bool> = tabs.group_by_id(0).unwrap().tabs_ref().iter().map(|t| t.closing).collect();
    assert_eq!(closing, vec![false, true]);
    apply_tab_bar_action(&mut tabs, &mut panes, 0, TabBarAction::CloseOtherTabs(1), 50);
    let closing: Vec<bool> = tabs.group_by_id(0).unwrap().tabs_ref().iter().map(|t| t.closing).collect();
    assert_eq!(closing, vec![true, true]);
    assert_eq!(
        apply_tab_bar_action(&mut tabs, &mut panes, 0, TabBarAction::DragStart { tab_idx: 1 }, 50),
        TabBarEffect::StartDrag { tab_idx: 1 }
    );

    // Splitting a tab down puts it in a new group below its own.
    apply_tab_bar_action(&mut tabs, &mut panes, 0, TabBarAction::SplitDown(1), 50);
    assert_eq!(tabs.group_ids_ordered(), vec![0, 1, 2]);
    assert_eq!(panes.leaf_group_ids(), vec![0, 2, 1]);
    assert_eq!(states(&tabs, 2), vec![11]);
    assert_eq!(tabs.focused_group_id(), 2);
    apply_tab_bar_action(&mut tabs, &mut panes, 2, TabBarAction::CloseGroup, 50);
    assert!(tabs.group_by_id(2).unwrap().tabs_ref().iter().all(|t| t.closing));
}

#[test]
fn dropping_on_left_and_top_puts_the_new_pane_first() {
    let (mut tabs, mut panes) = window();
    // Group 0 = [10, 11]; drop tab 11 on the left edge of group 0's pane.
    drop_tab_on_edge(&mut tabs, &mut panes, 0, 1, 0, DropSide::Left, 50);
    assert_eq!(panes.leaf_group_ids(), vec![1, 0]);
    assert_eq!(states(&tabs, 1), vec![11]);
    assert_eq!(tabs.focused_group_id(), 1);
    assert_eq!(panes.focused_group_id, 1);
    // Drop group 1's only tab above group 0: group 1 empties and goes.
    drop_tab_on_edge(&mut tabs, &mut panes, 1, 0, 0, DropSide::Top, 50);
    assert_eq!(tabs.group_ids_ordered(), vec![0, 2]);
    assert_eq!(panes.leaf_group_ids(), vec![2, 0]);
    assert_eq!(states(&tabs, 2), vec![11]);
    // Right and Bottom put it after.
    drop_tab_on_edge(&mut tabs, &mut panes, 0, 0, 2, DropSide::Right, 50);
    assert_eq!(panes.leaf_group_ids(), vec![2, 3]);
    assert_eq!(tabs.group_ids_ordered(), vec![2, 3]);
}

#[test]
fn dropping_in_the_center_moves_the_tab() {
    let (mut tabs, mut panes) = window();
    tear_tab_to_new_group(&mut tabs, &mut panes, 0, 1, true, 50);
    // Groups: 0 = [10], 1 = [11].
    drop_tab_in_center(&mut tabs, &mut panes, 0, 0, 1);
    assert_eq!(tabs.group_ids_ordered(), vec![1]);
    assert_eq!(panes.leaf_group_ids(), vec![1]);
    assert_eq!(states(&tabs, 1), vec![11, 10]);
    assert_eq!(tabs.group_by_id(1).unwrap().active_index(), 1);
    assert_eq!(tabs.focused_group_id(), 1);
    assert_eq!(panes.focused_group_id, 1);
}
