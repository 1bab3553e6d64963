use lib::mode::{mode_accepted, new_mode, parse_octal};

fn mode(spec: &str, current: u32) -> Option<u32> {
    let spec = spec.to_string();
    if mode_accepted(&spec) {
        Some(new_mode(&spec, current))
    } else {
        None
    }
}

#[test]
fn grant_user_execute() {
    assert_eq!(mode("u+x", 0o100644), Some(0o744));
}

#[test]
fn grant_all_read() {
    assert_eq!(mode("a+r", 0o600), Some(0o644));
    assert_eq!(mode("a+x", 0o644), Some(0o755));
}

#[test]
fn grant_group_and_other() {
    assert_eq!(mode("g+w", 0o644), Some(0o664));
    assert_eq!(mode("o+w", 0o644), Some(0o646));
    assert_eq!(mode("ug+x", 0o644), Some(0o754));
    assert_eq!(mode("ugo+rwx", 0), Some(0o777));
}

#[test]
fn grant_keeps_existing_permissions() {
    assert_eq!(mode("u+r", 0o777), Some(0o777));
}

#[test]
fn grant_is_idempotent() {
    let once = mode("g+w", 0o644).unwrap();
    assert_eq!(mode("g+w", once), Some(once));
    let once = mode("ua+x", 0o644).unwrap();
    assert_eq!(mode("ua+x", once), Some(once));
}

#[test]
fn grant_after_all_moves_the_other_classes() {
    // once `a` has spread the bits, `u` works on bits at the user position
    assert_eq!(mode("ua+x", 0o644), Some(0o10755));
    assert_eq!(mode("ao+x", 0o644), Some(0o755));
}

#[test]
fn flip_removes_set_permission() {
    assert_eq!(mode("g-w", 0o664), Some(0o644));
    assert_eq!(mode("a-x", 0o755), Some(0o644));
}

#[test]
fn flip_sets_unset_permission() {
    // `-` flips the bits: one that was clear becomes set
    assert_eq!(mode("u-x", 0o644), Some(0o744));
}

#[test]
fn flip_twice_restores() {
    let once = mode("go-w", 0o100666).unwrap();
    assert_eq!(once, 0o644);
    assert_eq!(mode("go-w", once), Some(0o666));
}

#[test]
fn flip_twice_with_all_and_user_leaves_high_bit() {
    // `a` with `u` flips a bit above the nine permission bits, which the
    // second flip no longer sees
    let once = mode("ua-x", 0o644).unwrap();
    assert_eq!(once, 0o10755);
    assert_eq!(mode("ua-x", once), Some(0o10644));
}

#[test]
fn unknown_permission_letters_change_nothing() {
    assert_eq!(mode("u+q", 0o640), Some(0o640));
    assert_eq!(mode("u-q", 0o640), Some(0o640));
}

#[test]
fn octal_mode_replaces() {
    assert_eq!(mode("755", 0o100600), Some(0o755));
    assert_eq!(mode("0", 0o777), Some(0));
    assert_eq!(mode("755", 0), mode("755", 0o777));
}

#[test]
fn octal_mode_rejected() {
    assert_eq!(mode("8", 0o644), None);
    assert_eq!(mode("abc", 0o644), None);
    assert_eq!(mode("", 0o644), None);
    assert_eq!(mode("40000000000", 0o644), None);
}

#[test]
fn accepted_mode_strings() {
    assert!(mode_accepted(&"u+x".to_string()));
    assert!(mode_accepted(&"q-".to_string()));
    assert!(mode_accepted(&"644".to_string()));
    assert!(!mode_accepted(&"u=rwx".to_string()));
    assert!(!mode_accepted(&"789".to_string()));
    assert!(!mode_accepted(&"".to_string()));
}

#[test]
fn parse_octal_values() {
    assert_eq!(parse_octal("17"), Some(15));
    assert_eq!(parse_octal("0755"), Some(0o755));
    assert_eq!(parse_octal("37777777777"), Some(u32::MAX));
    assert_eq!(parse_octal("40000000000"), None);
    assert_eq!(parse_octal("777777777777777777777"), None);
    assert_eq!(parse_octal("7a"), None);
    assert_eq!(parse_octal("+7"), None);
    assert_eq!(parse_octal(""), None);
}
