use std::sync::atomic::{AtomicBool, AtomicU64};
use std::sync::Arc;

use ridgeback::buffer::ScrollbackBuffer;
use ridgeback::cell::Cell;
use ridgeback::command_query::{CommandQueryOverlay, EnterOutcome, QueryPoll, QueryResult};
use ridgeback::find_overlay::FindOverlay;
use ridgeback::frame_pacer::FramePacer;
use ridgeback::grid::Grid;
use ridgeback::split_pane::{RemoveResult, SplitPane, SplitPaneManager};
use ridgeback::tabs::TerminalSelection;
use ridgeback::toast::{Toast, ToastIds, ToastLevel, ToastManager};

fn row_of(text: &str) -> Vec<Cell> {
    text.chars().map(Cell::new).collect()
}

#[test]
fn selection_sorting_and_containment() {
    let s = TerminalSelection { anchor_row: 3, anchor_col: 5, head_row: 1, head_col: 2 };
    assert_eq!(s.sorted(), (1, 2, 3, 5));
    assert!(s.contains(1, 2));
    assert!(!s.contains(1, 1));
    assert!(s.contains(2, 0));
    assert!(s.contains(3, 4));
    assert!(!s.contains(3, 5));
    assert!(!s.contains(4, 0));
    let one = TerminalSelection { anchor_row: 0, anchor_col: 4, head_row: 0, head_col: 1 };
    assert!(one.contains(0, 1) && one.contains(0, 3) && !one.contains(0, 4));
}

#[test]
fn selection_text_spans_scrollback_and_screen() {
    let scrollback = vec!["first line  ".to_string(), "second".to_string()];
    let rows = vec![row_of("third row"), row_of("fourth")];
    let s = TerminalSelection { anchor_row: 0, anchor_col: 6, head_row: 2, head_col: 5 };
    assert_eq!(s.selected_text(&scrollback, &rows), "line\nsecond\nthird");
    let past = TerminalSelection { anchor_row: 3, anchor_col: 0, head_row: 9, head_col: 3 };
    assert_eq!(past.selected_text(&scrollback, &rows), "fourth\n");
    let nul = vec![vec![Cell::new('a'), Cell::new('\0'), Cell::new('b')]];
    let t = TerminalSelection { anchor_row: 0, anchor_col: 0, head_row: 0, head_col: 3 };
    assert_eq!(t.selected_text(&[], &nul), "a b");
}

#[test]
fn find_overlay_searches_and_cycles() {
    let mut overlay = FindOverlay::new();
    assert!(!overlay.is_open && overlay.ignore_case && !overlay.use_regex);
    overlay.toggle();
    assert!(overlay.is_open);
    let mut sb = ScrollbackBuffer::new(10);
    sb.push(row_of("cat dog cat"));
    let grid = Grid::new(2, 5);
    overlay.query = "cat".to_string();
    overlay.perform_search(&sb, &grid);
    assert_eq!(overlay.matches.len(), 2);
    assert_eq!(overlay.current_match, 0);
    overlay.next_match();
    assert_eq!(overlay.current_match, 1);
    overlay.next_match();
    assert_eq!(overlay.current_match, 0);
    overlay.previous_match();
    assert_eq!(overlay.current_match, 1);
    overlay.toggle();
    assert!(!overlay.is_open && overlay.matches.is_empty());
}

#[test]
fn command_query_results() {
    let mut q = CommandQueryOverlay::new();
    q.toggle();
    assert!(q.is_open && q.take_focus_request());
    assert!(!q.take_focus_request());
    assert!(!q.begin_query(true));
    q.query = "list files".to_string();
    assert!(q.begin_query(true));
    assert!(q.is_loading);
    let (tx, rx) = std::sync::mpsc::channel();
    q.attach_receiver(rx);
    q.poll_results();
    assert!(q.is_loading);
    tx.send(QueryResult::Suggestions(vec!["ls".to_string(), "ls -la".to_string()])).unwrap();
    q.poll_results();
    assert!(!q.is_loading);
    assert_eq!(q.suggestions, vec!["ls", "ls -la"]);
    q.select_next();
    assert_eq!(q.selected_index, 1);
    q.select_next();
    assert_eq!(q.selected_index, 0);
    q.select_previous();
    assert_eq!(q.selected_index, 1);
    q.receive(QueryPoll::Received(QueryResult::Error("boom".to_string())));
    assert_eq!(q.error_message.as_deref(), Some("AI error: boom"));
    q.receive(QueryPoll::Received(QueryResult::Suggestions(vec![])));
    assert_eq!(
        q.error_message.as_deref(),
        Some("No suggestions — check LM Studio is running at localhost:1234")
    );
}

#[test]
fn command_query_placeholder_without_ai() {
    let mut q = CommandQueryOverlay::new();
    q.query = "x".to_string();
    assert!(!q.begin_query(false));
    assert!(!q.is_loading);
    assert_eq!(
        q.suggestions,
        vec!["echo \"x\"", "# AI not connected — start LM Studio at localhost:1234"]
    );
    assert_eq!(
        q.error_message.as_deref(),
        Some("LM Studio not running — showing placeholder commands")
    );
    q.receive(QueryPoll::Disconnected);
    assert!(!q.is_loading);
}

#[test]
fn split_tree_operations() {
    let mut tree: SplitPane<f32> = SplitPane::new_single(1);
    assert!(tree.split_horizontal(1, 2, 0.5));
    assert!(tree.split_vertical(1, 3, 0.5));
    assert!(!tree.split_vertical(9, 4, 0.5));
    assert_eq!(tree.leaf_group_ids(), vec![1, 3, 2]);
    assert_eq!(tree.remove_group(3), RemoveResult::Modified);
    assert_eq!(tree.leaf_group_ids(), vec![1, 2]);
    assert_eq!(tree.remove_group(9), RemoveResult::NoChange);
    let mut single: SplitPane<f32> = SplitPane::new_single(5);
    assert_eq!(single.remove_group(5), RemoveResult::RemoveSelf);
}

#[test]
fn split_manager_focus() {
    let mut m: SplitPaneManager<f32> = SplitPaneManager::new(1);
    m.split_horizontal(2, 0.5);
    assert_eq!(m.focused_group_id, 2);
    m.split_group_vertical(1, 3, 0.5);
    assert_eq!(m.leaf_group_ids(), vec![1, 3, 2]);
    m.swap_groups(1, 2);
    assert_eq!(m.leaf_group_ids(), vec![2, 3, 1]);
    assert_eq!(m.focused_group_id, 1);
    m.on_group_removed(1);
    assert_eq!(m.leaf_group_ids(), vec![2, 3]);
    assert_eq!(m.focused_group_id, 2);
    m.set_focused_group(3);
    m.split_vertical(4, 0.25);
    assert_eq!(m.leaf_group_ids(), vec![2, 3, 4]);
    assert!(matches!(m.root(), SplitPane::Vertical { .. }));
}

#[test]
fn frame_pacing_decisions() {
    let ms = 1_000_000u64;
    let mut p = FramePacer::new(144, false, 0);
    assert_eq!(p.effective_fps(), 144);
    p.set_battery_mode(true);
    assert_eq!(p.effective_fps(), 30);
    assert!(!p.bloom_enabled());
    p.set_battery_mode(false);
    p.set_max_fps(0);
    assert_eq!(p.effective_fps(), 1);
    p.set_max_fps(500);
    assert_eq!(p.effective_fps(), 240);
    let interval = 10 * ms;
    assert!(!p.should_render_shader(5 * ms, interval));
    assert!(p.should_render_shader(10 * ms, interval));
    assert_eq!(p.time_to_next_frame(14 * ms, interval), 6 * ms);
    // Idle for more than 100 ms: frames come at the idle rate of one per 100 ms.
    assert!(p.should_render_shader(150 * ms, interval));
    assert!(!p.should_render_shader(200 * ms, interval));
    p.signal_activity(200 * ms);
    assert!(p.should_render_shader(200 * ms, interval));
    p.set_window_focused(false);
    assert!(!p.should_render_shader(500 * ms, interval));
    p.set_update_in_background(true);
    assert!(p.should_render_shader(500 * ms, interval));
}

#[test]
fn battery_polling() {
    let s = 1_000_000_000u64;
    let mut p = FramePacer::new(60, true, 0);
    assert!(!p.poll_battery_status(10 * s));
    assert!(p.poll_battery_status(30 * s));
    p.set_battery_mode(true);
    assert!(!p.poll_battery_status(40 * s));
    p.set_battery_aware(false);
    assert!(!p.poll_battery_status(100 * s));
    assert!(p.bloom_enabled());
}

#[test]
fn toasts_queue_and_expire() {
    let s = 1_000_000_000u64;
    let mut m = ToastManager::new();
    for i in 0..7u64 {
        m.info(format!("t{}", i), i, 0);
    }
    assert_eq!(m.toasts().len(), 5);
    assert_eq!(m.toasts()[0].message, "t2");
    assert_eq!(m.toasts()[4].id, 6);
    let t = Toast::warning("w".to_string(), 10, 0);
    assert_eq!(t.level, ToastLevel::Warning);
    assert!(!t.is_expired(4 * s));
    assert!(t.is_expired(5 * s));
    assert!(Toast::error("e".to_string(), 11, 0).is_expired(6 * s));
    let done = Arc::new(AtomicBool::new(false));
    let p = Toast::progress(
        "download".to_string(),
        Arc::new(AtomicU64::new(0)),
        Arc::new(AtomicU64::new(10)),
        done,
        12,
        0,
    );
    let mut m2 = ToastManager::default();
    m2.push(Toast::info("old".to_string(), 1, 0));
    m2.push(p);
    m2.push(Toast::error("new".to_string(), 2, 2 * s));
    m2.retain_active(4 * s, &[false, false, false]);
    assert_eq!(m2.toasts().len(), 2);
    m2.retain_active(4 * s, &[true, false]);
    assert_eq!(m2.toasts().len(), 1);
    assert_eq!(m2.toasts()[0].message, "new");
}

#[test]
fn command_query_enter_and_escape() {
    let mut q = CommandQueryOverlay::new();
    q.toggle();
    assert_eq!(q.press_enter(true), EnterOutcome::Nothing);
    q.query = "list files".to_string();
    assert_eq!(q.press_enter(true), EnterOutcome::StartQuery);
    assert!(q.is_loading);
    assert_eq!(q.press_enter(true), EnterOutcome::Nothing);
    q.receive(QueryPoll::Received(QueryResult::Suggestions(vec![
        "ls".to_string(),
        "ls -la".to_string(),
    ])));
    q.select_next();
    assert_eq!(q.press_enter(true), EnterOutcome::Accept("ls -la".to_string()));
    assert!(!q.is_open);
    q.toggle();
    q.query = "x".to_string();
    assert_eq!(q.press_enter(false), EnterOutcome::Nothing);
    assert_eq!(q.suggestions.len(), 2);
    q.press_escape();
    assert!(!q.is_open);
    assert_eq!(q.query, "x");
}

#[test]
fn toast_ids_count_up_from_one() {
    let mut ids = ToastIds::new();
    let a = ids.next_id();
    let b = ids.next_id();
    let c = ids.next_id();
    assert_eq!((a, b, c), (1, 2, 3));
    let t = Toast::info("x".to_string(), ids.next_id(), 0);
    assert_eq!(t.id, 4);
}
