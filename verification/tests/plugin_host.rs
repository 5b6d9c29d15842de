use ridgeback::plugin_host::{
    first_lines, parse_trigger_mode, plugin_result, record_print, sandbox_removed_globals,
    TriggerMode,
};

#[test]
fn trigger_names_are_read_loosely() {
    assert_eq!(parse_trigger_mode(" Typing "), Some(TriggerMode::Keypress));
    assert_eq!(parse_trigger_mode("ENTER"), Some(TriggerMode::Newline));
    assert_eq!(parse_trigger_mode("ambient"), Some(TriggerMode::Fullscreen));
    assert_eq!(parse_trigger_mode("sometimes"), None);
}

#[test]
fn first_lines_takes_at_most_n() {
    let lines = vec!["a".to_string(), "b".to_string(), "c".to_string()];
    assert_eq!(first_lines(&lines, 2), vec!["a", "b"]);
    assert_eq!(first_lines(&lines, 9), vec!["a", "b", "c"]);
    assert!(first_lines(&lines, 0).is_empty());
}

#[test]
fn printed_values_are_tab_separated_lines() {
    let mut out = String::new();
    record_print(&mut out, &vec!["x".to_string(), "1".to_string()]);
    record_print(&mut out, &vec!["nil".to_string()]);
    assert_eq!(out, "x\t1\nnil");
}

#[test]
fn plugin_results_and_sandbox() {
    let ok = plugin_result("hello", Ok("hi".to_string()));
    assert_eq!((ok.name.as_str(), ok.output.as_str(), ok.error), ("hello", "hi", None));
    let bad = plugin_result("hello", Err("boom".to_string()));
    assert_eq!(bad.output, "");
    assert_eq!(bad.error.as_deref(), Some("Plugin 'hello' error: boom"));
    assert_eq!(
        sandbox_removed_globals(),
        vec!["io", "os", "loadfile", "dofile", "require", "rawset", "rawget", "debug"]
    );
}
