use rust_im::gui::login::{form_filled, form_id};
use rust_im::gui::{scroll_offset, MessageTable};
use rust_im::log::expect_log::{expect_line, expect_with_line, ExpectLog};
use rust_im::log::{debug_line, error_line, log_line, log_with_line, result_log_message, text_log_message, warn_line};

#[test]
fn scroll_up_and_down() {
    assert_eq!(scroll_offset(-60, true, false, 20), -40);
    assert_eq!(scroll_offset(-10, true, false, 20), 0);
    assert_eq!(scroll_offset(-60, false, true, 5), 0);
    assert_eq!(scroll_offset(-400, false, true, 20), -350);
    assert_eq!(scroll_offset(-100, false, true, 20), -80);
    assert_eq!(scroll_offset(-100, false, false, 20), 0);
}

#[test]
fn conversations_keep_order() {
    let mut t = MessageTable::new();
    assert!(t.conversation(3).is_none());
    t.record(3, false, "hi".to_string());
    t.record(3, true, "hello".to_string());
    t.record(4, true, "yo".to_string());
    assert_eq!(t.conversation(3).unwrap(), &vec![(false, "hi".to_string()), (true, "hello".to_string())]);
    assert_eq!(t.conversation(4).unwrap(), &vec![(true, "yo".to_string())]);
}

#[test]
fn form_checks() {
    assert!(form_filled("a", "b"));
    assert!(!form_filled("", "b"));
    assert!(!form_filled("a", ""));
    assert_eq!(form_id("12"), 12);
}

#[test]
fn log_lines() {
    assert_eq!(log_line("x"), "[LOG]: x");
    assert_eq!(log_with_line("T", "x"), "[LOG][T]: x");
    assert_eq!(error_line("T", "x"), "[ERROR][T] :x");
    assert_eq!(warn_line("T", "x"), "[WARN][T] :x");
    assert_eq!(debug_line("T", "x"), "[DEBUD][T] :x");
    assert_eq!(expect_line("x"), "[ERROR]: x");
    assert_eq!(expect_with_line("x", "W"), "[ERROR][W]: x");
    assert_eq!(text_log_message(&"abc".to_string()), ("abc".to_string(), true));
    assert_eq!(text_log_message(&String::new()), (String::new(), false));
    let ok: Result<u8, String> = Ok(1);
    assert_eq!(result_log_message(&ok), (String::new(), false));
    let err: Result<u8, String> = Err("bad".to_string());
    assert_eq!(result_log_message(&err), ("bad".to_string(), true));
}

#[test]
fn expect_takes_the_value() {
    let r: Result<u32, ()> = Ok(5);
    assert_eq!(r.log_expect("never"), 5);
    let r: Result<&str, String> = Ok("v");
    assert_eq!(r.log_expect_with("never", "T"), "v");
}

#[test]
fn scroll_bounds_only_where_computed() {
    assert_eq!(scroll_offset(-60, true, false, i32::MAX), -40);
    assert_eq!(scroll_offset(5, false, false, i32::MAX), 0);
    assert_eq!(scroll_offset(i32::MAX - 20, false, true, 3), 0);
    assert_eq!(scroll_offset(-1000, false, true, 20), -350);
}
