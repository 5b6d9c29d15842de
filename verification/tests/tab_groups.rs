use ridgeback::tabs::{profile_saved_notice, TabEntry, TabGroup, TabManager};

fn titles(g: &TabGroup<u32>) -> Vec<String> {
    g.tabs_ref().iter().map(|t| t.tab_title.clone()).collect()
}

fn states(g: &TabGroup<u32>) -> Vec<u32> {
    g.tabs_ref().iter().map(|t| t.state).collect()
}

fn group_with(states: &[u32]) -> TabGroup<u32> {
    let mut g = TabGroup::new(7);
    for (i, s) in states.iter().enumerate() {
        g.open_tab("bash", "Bash", i as u64, *s);
    }
    g
}

#[test]
fn open_tab_numbers_titles_per_profile() {
    let mut g: TabGroup<u32> = TabGroup::new(3);
    assert!(g.is_empty());
    g.open_tab("bash", "Bash", 1, 10);
    g.open_tab("bash", "Bash", 2, 11);
    g.open_tab("zsh", "Zsh", 3, 12);
    g.open_tab("bash", "Bash", 4, 13);
    assert_eq!(titles(&g), vec!["Bash", "Bash 2", "Zsh", "Bash 3"]);
    assert_eq!(g.count(), 4);
    assert_eq!(g.active_index(), 3);
    assert_eq!(g.active_tab().map(|t| t.terminal_id), Some(4));
    assert!(!g.tabs_ref()[0].closing);
    assert_eq!(g.tabs_ref()[2].profile_name, "zsh");
}

#[test]
fn titles_number_past_nine() {
    let mut g: TabGroup<u32> = TabGroup::new(0);
    for i in 0..12 {
        g.open_tab("bash", "Bash", i, 0);
    }
    assert_eq!(titles(&g)[11], "Bash 12");
    assert_eq!(titles(&g)[9], "Bash 10");
}

#[test]
fn next_and_prev_wrap_around() {
    let mut g = group_with(&[1, 2, 3]);
    assert_eq!(g.active_index(), 2);
    g.next_tab();
    assert_eq!(g.active_index(), 0);
    g.prev_tab();
    assert_eq!(g.active_index(), 2);
    g.prev_tab();
    assert_eq!(g.active_index(), 1);
    g.set_active(9);
    assert_eq!(g.active_index(), 1);
    g.set_active(0);
    assert_eq!(g.active_index(), 0);
}

#[test]
fn remove_tab_clamps_the_active_index() {
    let mut g = group_with(&[1, 2, 3]);
    g.remove_tab(2);
    assert_eq!(states(&g), vec![1, 2]);
    assert_eq!(g.active_index(), 1);
    g.remove_tab(5);
    assert_eq!(states(&g), vec![1, 2]);
    g.set_active(0);
    g.remove_tab(1);
    assert_eq!(g.active_index(), 0);
    g.remove_tab(0);
    assert!(g.is_empty());
    assert_eq!(g.active_index(), 0);
    assert!(g.active_tab().is_none());
}

#[test]
fn swap_tabs_keeps_the_active_tab() {
    let mut g = group_with(&[1, 2, 3]);
    g.set_active(0);
    g.swap_tabs(0, 2);
    assert_eq!(states(&g), vec![3, 2, 1]);
    assert_eq!(g.active_index(), 2);
    assert_eq!(g.active_tab().map(|t| t.state), Some(1));
    g.swap_tabs(1, 1);
    g.swap_tabs(1, 3);
    assert_eq!(states(&g), vec![3, 2, 1]);
}

#[test]
fn take_and_insert_tab() {
    let mut g = group_with(&[1, 2, 3]);
    let t = g.take_tab(1).unwrap();
    assert_eq!(t.state, 2);
    assert_eq!(states(&g), vec![1, 3]);
    assert_eq!(g.active_index(), 1);
    assert!(g.take_tab(2).is_none());
    g.insert_tab(1, t);
    assert_eq!(states(&g), vec![1, 2, 3]);
    assert_eq!(g.active_index(), 1);
    let extra = TabEntry {
        terminal_id: 99,
        profile_name: "fish".to_string(),
        tab_title: "Fish".to_string(),
        closing: false,
        state: 4,
    };
    g.insert_tab(50, extra);
    assert_eq!(states(&g), vec![1, 2, 3, 4]);
    assert_eq!(g.active_index(), 3);
}

#[test]
fn closing_marks_tabs() {
    let mut g = group_with(&[1, 2, 3, 4]);
    g.close_tabs_to_right(1);
    let closing: Vec<bool> = g.tabs_ref().iter().map(|t| t.closing).collect();
    assert_eq!(closing, vec![false, false, true, true]);
    g.close_other_tabs(3);
    let closing: Vec<bool> = g.tabs_ref().iter().map(|t| t.closing).collect();
    assert_eq!(closing, vec![true, true, true, true]);

    let mut h = group_with(&[1, 2, 3]);
    h.set_active(1);
    h.close_active_tab();
    let closing: Vec<bool> = h.tabs_ref().iter().map(|t| t.closing).collect();
    assert_eq!(closing, vec![false, true, false]);
    h.close_tab(7);
    h.close_all_tabs();
    assert!(h.tabs_ref().iter().all(|t| t.closing));
}

#[test]
fn tabs_change_in_place() {
    let mut g = group_with(&[1, 2]);
    if let Some(t) = g.tab_mut(0) {
        t.state = 40;
    }
    if let Some(t) = g.active_tab_mut() {
        t.tab_title = "Renamed".to_string();
    }
    assert_eq!(states(&g), vec![40, 2]);
    assert_eq!(titles(&g), vec!["Bash", "Renamed"]);
    assert!(g.tab_mut(2).is_none());
    assert_eq!(g.tab(1).map(|t| t.state), Some(2));
}

#[test]
fn manager_groups_and_focus() {
    let mut m: TabManager<u32> = TabManager::new();
    assert_eq!(m.group_count(), 0);
    assert!(!m.any_active());
    let a = m.new_group_with_tab("bash", "Bash", 1, 10);
    let b = m.new_group();
    let c = m.new_group();
    assert_eq!((a, b, c), (0, 1, 2));
    assert_eq!(m.group_ids_ordered(), vec![0, 1, 2]);
    assert!(m.any_active());
    assert_eq!(m.focused_group_id(), 0);
    assert_eq!(m.active_tab().map(|t| t.state), Some(10));
    assert!(m.is_group_empty(b));
    assert!(!m.is_group_empty(a));
    assert!(m.is_group_empty(42));

    m.set_focused_group(2);
    assert_eq!(m.focused_group_id(), 2);
    m.set_focused_group(42);
    assert_eq!(m.focused_group_id(), 2);
    assert_eq!(m.next_group_id_from_focused(), Some(0));
    assert_eq!(m.prev_group_id_from_focused(), Some(1));

    assert!(m.open_tab_in_focused("zsh", "Zsh", 2, 20));
    assert_eq!(m.active_tab().map(|t| t.state), Some(20));
    assert_eq!(m.focused_group().map(|g| g.count()), Some(1));

    assert!(m.remove_group(2));
    assert_eq!(m.focused_group_id(), 0);
    assert!(!m.remove_group(2));
    assert_eq!(m.group_ids_ordered(), vec![0, 1]);
    // A new group never reuses an identifier.
    assert_eq!(m.new_group(), 3);
}

#[test]
fn manager_move_tab_between_groups() {
    let mut m: TabManager<u32> = TabManager::new();
    let a = m.new_group_with_tab("bash", "Bash", 1, 10);
    if let Some(g) = m.group_by_id_mut(a) {
        g.open_tab("bash", "Bash", 2, 11);
    }
    let b = m.new_group_with_tab("zsh", "Zsh", 3, 20);
    assert_eq!(m.all_tabs_ref().len(), 3);

    assert!(!m.move_tab(a, 0, b));
    let ga = m.group_by_id(a).unwrap();
    assert_eq!(ga.tabs_ref().iter().map(|t| t.state).collect::<Vec<_>>(), vec![11]);
    let gb = m.group_by_id(b).unwrap();
    assert_eq!(gb.tabs_ref().iter().map(|t| t.state).collect::<Vec<_>>(), vec![20, 10]);
    assert_eq!(gb.active_index(), 1);
    assert_eq!(m.all_tabs_ref().iter().map(|t| t.state).collect::<Vec<_>>(), vec![11, 20, 10]);

    // Same group, missing index: nothing moves.
    assert!(!m.move_tab(a, 0, a));
    assert!(!m.move_tab(a, 5, b));
    assert_eq!(m.all_tabs_ref().len(), 3);
    // Emptying the source reports it.
    assert!(m.move_tab(a, 0, b));
    assert!(m.is_group_empty(a));
    // A missing source counts as empty.
    assert!(m.move_tab(77, 0, b));
}

#[test]
fn manager_changes_tabs_in_place() {
    let mut m: TabManager<u32> = TabManager::new();
    assert!(m.active_tab_mut().is_none());
    assert!(!m.open_tab_in_focused("bash", "Bash", 1, 5));
    m.new_group_with_tab("bash", "Bash", 1, 5);
    if let Some(t) = m.active_tab_mut() {
        t.state = 6;
    }
    assert_eq!(m.active_tab().map(|t| t.state), Some(6));
    if let Some(g) = m.focused_group_mut() {
        g.close_all_tabs();
    }
    assert!(m.active_tab().map(|t| t.closing).unwrap_or(false));
    assert_eq!(m.groups_ref().len(), 1);
}

#[test]
fn tabs_with_a_profile_and_the_saved_notice() {
    let mut tabs: TabManager<u32> = TabManager::new();
    let g = tabs.new_group_with_tab("bash", "Bash", 1, 10);
    if let Some(group) = tabs.group_by_id_mut(g) {
        group.open_tab("zsh", "Zsh", 2, 11);
        group.open_tab("bash", "Bash", 3, 12);
    }
    tabs.new_group_with_tab("bash", "Bash", 4, 13);
    assert_eq!(tabs.tabs_with_profile("bash"), vec![0, 2, 3]);
    assert_eq!(tabs.tabs_with_profile("fish"), Vec::<usize>::new());
    assert_eq!(profile_saved_notice("Bash", true), "\"Bash\" — settings applied to open tabs.");
    assert_eq!(profile_saved_notice("Fish", false), "\"Fish\" profile saved.");
}
