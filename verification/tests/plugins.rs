use visor::log_plugin::{LogEntryType, LogPlugin};
use visor::state_plugin::StatePlugin;
use visor::time::{frame_rate, FrameRate, TimePlugin};

#[test]
fn state_create_keeps_first_value() {
    let mut s = StatePlugin::new_sketch_state();
    assert_eq!(s.create("count".to_string(), "0".to_string()), "0");
    assert_eq!(s.create("count".to_string(), "5".to_string()), "0");
    assert_eq!(s.get("count"), Some("0".to_string()));
    assert_eq!(s.get("other"), None);
}

#[test]
fn state_set_then_create_returns_set_value() {
    let mut s = StatePlugin::new_sketch_state();
    s.create("count".to_string(), "0".to_string());
    s.set("count".to_string(), "3".to_string());
    assert_eq!(s.create("count".to_string(), "0".to_string()), "3");
    s.set("fresh".to_string(), "x".to_string());
    assert_eq!(s.get("fresh"), Some("x".to_string()));
}

#[test]
fn state_remove_unused() {
    let mut s = StatePlugin::new_sketch_state();
    s.set("a".to_string(), "1".to_string());
    s.set("b".to_string(), "2".to_string());
    s.set("c".to_string(), "3".to_string());
    s.remove_unused(&vec!["c".to_string(), "a".to_string(), "zzz".to_string()]);
    assert_eq!(s.get("a"), Some("1".to_string()));
    assert_eq!(s.get("b"), None);
    assert_eq!(s.get("c"), Some("3".to_string()));
    s.remove_unused(&vec![]);
    assert_eq!(s.get("a"), None);
    assert_eq!(s.get("c"), None);
}

#[test]
fn log_keeps_order_and_streams() {
    let mut log = LogPlugin::new_sketch_state();
    log.console_log("0".to_string());
    log.console_error("oops".to_string());
    log.console_log("1".to_string());
    let e = log.entries();
    assert_eq!(e.len(), 3);
    assert_eq!(e[0].message, "0");
    assert_eq!(e[0].message_type, LogEntryType::Stdout);
    assert_eq!(e[1].message, "oops");
    assert_eq!(e[1].message_type, LogEntryType::Stderr);
    assert_eq!(e[2].message, "1");
    log.clear();
    assert_eq!(log.entries().len(), 0);
}

#[test]
fn frame_rate_classes() {
    assert_eq!(frame_rate(1, 0), FrameRate::Zero);
    assert_eq!(frame_rate(3, 500), FrameRate::Zero);
    assert_eq!(frame_rate(0, 0), FrameRate::Unbounded);
    assert_eq!(frame_rate(0, 16), FrameRate::PerMillis(16));
}

#[test]
fn frame_counter_counts() {
    let mut c = TimePlugin::new_state();
    assert_eq!(c.frame_count(), 0);
    c.after_update();
    c.after_update();
    assert_eq!(c.frame_count(), 2);
}
