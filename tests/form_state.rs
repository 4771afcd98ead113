use register_form::form::{Field, PageState};
use register_form::notifications::KeyedNotifications;

fn check_username(s: &String) -> Result<(), String> {
    if s.chars().count() >= 3 {
        Ok(())
    } else {
        Err("username too short".to_string())
    }
}

fn check_password(s: &String) -> Result<(), String> {
    if s.chars().count() >= 8 {
        Ok(())
    } else {
        Err("password too short".to_string())
    }
}

fn pairs(v: &[(&str, &str)]) -> Vec<(String, String)> {
    v.iter().map(|(k, m)| (k.to_string(), m.to_string())).collect()
}

#[test]
fn fresh_form_cannot_submit() {
    let p = PageState::new();
    assert!(!p.can_submit());
    assert!(p.form_errors().get_all().is_empty());
    assert!(!p.form_errors().has_message());
    assert_eq!(p.field_value(Field::Username), "");
    assert_eq!(p.field_value(Field::Password), "");
}

#[test]
fn short_username_is_reported() {
    let mut p = PageState::new();
    p.update_field(Field::Username, "ab".to_string(), check_username);
    assert_eq!(p.form_errors().get_all(), pairs(&[("bad-username", "username too short")]));
    assert!(!p.can_submit());
    assert_eq!(p.field_value(Field::Username), "ab");
}

#[test]
fn corrected_username_clears_report() {
    let mut p = PageState::new();
    p.update_field(Field::Username, "ab".to_string(), check_username);
    p.update_field(Field::Username, "alice".to_string(), check_username);
    assert!(p.form_errors().get_all().is_empty());
    assert!(!p.can_submit());
}

#[test]
fn valid_password_enables_submit() {
    let mut p = PageState::new();
    p.update_field(Field::Username, "ab".to_string(), check_username);
    p.update_field(Field::Username, "alice".to_string(), check_username);
    p.update_field(Field::Password, "secretpw".to_string(), check_password);
    assert!(p.form_errors().get_all().is_empty());
    assert!(p.can_submit());
}

#[test]
fn emptied_password_disables_submit() {
    let mut p = PageState::new();
    p.update_field(Field::Username, "alice".to_string(), check_username);
    p.update_field(Field::Password, "secretpw".to_string(), check_password);
    assert!(p.can_submit());
    p.update_field(Field::Password, String::new(), check_password);
    assert!(!p.can_submit());
    assert!(!p.form_errors().has("bad-password"));
    assert!(!p.form_errors().has_message());
    assert_eq!(p.field_value(Field::Password), "");
}

#[test]
fn empty_input_clears_previous_report() {
    let mut p = PageState::new();
    p.update_field(Field::Username, "ab".to_string(), check_username);
    assert!(p.form_errors().has("bad-username"));
    p.update_field(Field::Username, String::new(), check_username);
    assert!(!p.form_errors().has("bad-username"));
    assert_eq!(p.field_value(Field::Username), "");
}

#[test]
fn empty_input_ignores_rejecting_verdict() {
    let mut p = PageState::new();
    p.apply_validation(Field::Password, String::new(), Err("password too short".to_string()));
    assert!(!p.form_errors().has_message());
    assert!(!p.can_submit());
}

#[test]
fn reset_restores_fresh_form() {
    let mut p = PageState::new();
    p.update_field(Field::Username, "ab".to_string(), check_username);
    p.update_field(Field::Password, "pw".to_string(), check_password);
    assert_eq!(p.form_errors().get_all().len(), 2);
    p.reset();
    assert!(!p.can_submit());
    assert!(p.form_errors().get_all().is_empty());
    assert_eq!(p.field_value(Field::Username), "");
    assert_eq!(p.field_value(Field::Password), "");
}

#[test]
fn valid_input_leaves_no_message_for_its_key() {
    let mut p = PageState::new();
    p.update_field(Field::Password, "pw".to_string(), check_password);
    assert!(p.form_errors().has("bad-password"));
    p.update_field(Field::Password, "longenough".to_string(), check_password);
    assert!(!p.form_errors().has("bad-password"));
}

#[test]
fn repeated_invalid_input_overwrites() {
    let mut p = PageState::new();
    p.apply_validation(Field::Username, "a".to_string(), Err("first".to_string()));
    p.apply_validation(Field::Username, "b".to_string(), Err("second".to_string()));
    assert_eq!(p.form_errors().get_all(), pairs(&[("bad-username", "second")]));
}

#[test]
fn same_valid_input_twice_is_idempotent() {
    let mut p = PageState::new();
    p.update_field(Field::Password, "pw".to_string(), check_password);
    p.update_field(Field::Username, "alice".to_string(), check_username);
    let once = p.form_errors().get_all();
    let value_once = p.field_value(Field::Username).clone();
    p.update_field(Field::Username, "alice".to_string(), check_username);
    assert_eq!(p.form_errors().get_all(), once);
    assert_eq!(*p.field_value(Field::Username), value_once);
}

#[test]
fn fixing_one_field_keeps_other_report() {
    let mut p = PageState::new();
    p.update_field(Field::Username, "ab".to_string(), check_username);
    p.update_field(Field::Password, "pw".to_string(), check_password);
    p.update_field(Field::Username, "alice".to_string(), check_username);
    assert_eq!(p.form_errors().get_all(), pairs(&[("bad-password", "password too short")]));
    assert!(!p.can_submit());
}

#[test]
fn invalid_nonempty_fields_block_submit() {
    let mut p = PageState::new();
    p.update_field(Field::Username, "alice".to_string(), check_username);
    p.update_field(Field::Password, "short".to_string(), check_password);
    assert_eq!(p.field_value(Field::Password), "short");
    assert!(!p.can_submit());
}

#[test]
fn validation_keys_are_fixed() {
    assert_eq!(Field::Username.validation_key(), "bad-username");
    assert_eq!(Field::Password.validation_key(), "bad-password");
}

#[test]
fn notifications_keep_insertion_order() {
    let mut n = KeyedNotifications::new();
    n.set("b".to_string(), "one".to_string());
    n.set("a".to_string(), "two".to_string());
    n.set("b".to_string(), "three".to_string());
    assert_eq!(n.get_all(), pairs(&[("b", "three"), ("a", "two")]));
    assert!(n.has("a"));
    assert!(!n.has("c"));
}

#[test]
fn notifications_remove_and_clear() {
    let mut n = KeyedNotifications::new();
    n.remove("absent");
    assert!(!n.has_message());
    n.set("x".to_string(), "m1".to_string());
    n.set("y".to_string(), "m2".to_string());
    n.set("z".to_string(), "m3".to_string());
    n.remove("y");
    assert_eq!(n.get_all(), pairs(&[("x", "m1"), ("z", "m3")]));
    assert!(n.has_message());
    n.clear();
    assert!(!n.has_message());
    assert!(n.get_all().is_empty());
}

#[test]
fn default_notifications_are_empty() {
    let n = KeyedNotifications::default();
    assert!(!n.has_message());
    assert!(n.get_all().is_empty());
}
