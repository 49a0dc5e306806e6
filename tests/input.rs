use enso::catalog::Action;
use enso::bundle::ParamValue;
use enso::input::{
    apply_entry, assign_slot, contains, default_param_value, ensure_hex_prefix, handle_input,
    handle_navigate, is_hex_digit, parse_index, set_default_param_values, InputType, KeyEvent,
};

#[test]
fn navigate_wraps() {
    assert_eq!(handle_navigate(0, 3, &KeyEvent::Down), 1);
    assert_eq!(handle_navigate(2, 3, &KeyEvent::Down), 0);
    assert_eq!(handle_navigate(0, 3, &KeyEvent::Up), 2);
    assert_eq!(handle_navigate(1, 3, &KeyEvent::Up), 0);
    assert_eq!(handle_navigate(1, 3, &KeyEvent::Enter), 1);
    assert_eq!(handle_navigate(5, 0, &KeyEvent::Down), 0);
    assert_eq!(handle_navigate(0, 1, &KeyEvent::Up), 0);
    assert_eq!(handle_navigate(usize::MAX, 10, &KeyEvent::Down), 6);
}

#[test]
fn input_filters_by_type() {
    let mut s = String::new();
    handle_input(&mut s, KeyEvent::Char('g'), &InputType::Hex);
    handle_input(&mut s, KeyEvent::Char('F'), &InputType::Hex);
    handle_input(&mut s, KeyEvent::Char('a'), &InputType::Number);
    handle_input(&mut s, KeyEvent::Char('7'), &InputType::Number);
    handle_input(&mut s, KeyEvent::Char('z'), &InputType::Text);
    handle_input(&mut s, KeyEvent::Char('q'), &InputType::All);
    handle_input(&mut s, KeyEvent::Enter, &InputType::Text);
    assert_eq!(s, "F7z");
    handle_input(&mut s, KeyEvent::Backspace, &InputType::Text);
    assert_eq!(s, "F7");
    let mut e = String::new();
    handle_input(&mut e, KeyEvent::Backspace, &InputType::Text);
    assert_eq!(e, "");
    assert_eq!(KeyEvent::NoKey, KeyEvent::NoKey);
}

#[test]
fn hex_digits() {
    assert!(is_hex_digit('0') && is_hex_digit('9') && is_hex_digit('a') && is_hex_digit('F'));
    assert!(!is_hex_digit('g') && !is_hex_digit('x') && !is_hex_digit(' '));
}

#[test]
fn substring_search() {
    assert!(contains("receivertoken", "token"));
    assert!(contains("abc", ""));
    assert!(!contains("tok", "token"));
    assert!(!contains("tokxen", "token"));
}

#[test]
fn defaults_from_parameter_names() {
    let action = Action {
        action: "x".to_owned(),
        inputs: vec![
            ("tokenIn".to_owned(), String::new()),
            ("receiverAddress".to_owned(), String::new()),
            ("Args".to_owned(), String::new()),
            ("amountIn".to_owned(), String::new()),
        ],
    };
    let v = set_default_param_values(&action);
    assert_eq!(v.len(), 4);
    assert!(matches!(&v[0], ParamValue::Value(s) if s == "0x"));
    assert!(matches!(&v[1], ParamValue::Value(s) if s == "0x"));
    assert!(matches!(&v[2], ParamValue::ValueArray(a) if a.is_empty()));
    assert!(matches!(&v[3], ParamValue::Value(s) if s == "0"));
    assert!(matches!(default_param_value("args"), ParamValue::ValueArray(_)));
    assert!(matches!(default_param_value("Args"), ParamValue::Value(s) if s == "0"));
}

#[test]
fn index_parsing_follows_usize_parse() {
    assert_eq!(parse_index("42"), 42);
    assert_eq!(parse_index("+7"), 7);
    assert_eq!(parse_index("007"), 7);
    assert_eq!(parse_index(""), 0);
    assert_eq!(parse_index("+"), 0);
    assert_eq!(parse_index("-1"), 0);
    assert_eq!(parse_index("4a"), 0);
    assert_eq!(parse_index(&usize::MAX.to_string()), usize::MAX);
    assert_eq!(parse_index("99999999999999999999999"), 0);
    for s in ["12", "+3", "x", "", "18446744073709551616"] {
        assert_eq!(parse_index(s), s.parse::<usize>().unwrap_or(0));
    }
}

#[test]
fn hex_prefix_added_once() {
    let mut s = "abc".to_owned();
    ensure_hex_prefix(&mut s);
    assert_eq!(s, "0xabc");
    ensure_hex_prefix(&mut s);
    assert_eq!(s, "0xabc");
    let mut e = String::new();
    ensure_hex_prefix(&mut e);
    assert_eq!(e, "0x");
}

#[test]
fn slot_assignment() {
    let mut p = ParamValue::Value("a".to_owned());
    assign_slot(&mut p, 5, ParamValue::LastTransaction);
    assert!(matches!(p, ParamValue::LastTransaction));
    let mut arr = ParamValue::ValueArray(vec![ParamValue::LastTransaction, ParamValue::Transaction(1)]);
    assign_slot(&mut arr, 1, ParamValue::Transaction(0));
    match &arr {
        ParamValue::ValueArray(items) => {
            assert_eq!(items.len(), 2);
            assert!(matches!(items[0], ParamValue::LastTransaction));
            assert!(matches!(items[1], ParamValue::Transaction(0)));
        }
        _ => panic!("expected an array"),
    }
}

#[test]
fn entries_commit_by_slot_kind() {
    let mut content = "12".to_owned();
    let mut p = ParamValue::Transaction(0);
    apply_entry(&mut p, 0, &mut content, InputType::Number);
    assert!(matches!(p, ParamValue::Transaction(12)));
    assert_eq!(content, "12");

    let mut content = "ff".to_owned();
    let mut p = ParamValue::Value("0".to_owned());
    apply_entry(&mut p, 0, &mut content, InputType::Hex);
    assert_eq!(content, "0xff");
    assert!(matches!(&p, ParamValue::Value(s) if s == "0xff"));

    let mut content = "hello".to_owned();
    let mut arr = ParamValue::ValueArray(vec![ParamValue::Transaction(3), ParamValue::Value("x".to_owned())]);
    apply_entry(&mut arr, 1, &mut content, InputType::Text);
    match &arr {
        ParamValue::ValueArray(items) => {
            assert!(matches!(items[0], ParamValue::Transaction(3)));
            assert!(matches!(&items[1], ParamValue::Value(s) if s == "hello"));
        }
        _ => panic!("expected an array"),
    }

    let mut content = "zz".to_owned();
    let mut p = ParamValue::LastTransaction;
    apply_entry(&mut p, 0, &mut content, InputType::Hex);
    assert!(matches!(p, ParamValue::LastTransaction));
    assert_eq!(content, "zz");

    let mut content = "x".to_owned();
    let mut p = ParamValue::Transaction(4);
    apply_entry(&mut p, 0, &mut content, InputType::Text);
    assert!(matches!(p, ParamValue::Transaction(0)));
}
