use lib::text::{find_char, find_nr_char, find_perms, get_perm_number, str_eq};

#[test]
fn find_char_present_and_absent() {
    assert!(find_char("u+rwx", '+'));
    assert!(find_char("a-x", 'a'));
    assert!(!find_char("u+rwx", '-'));
    assert!(!find_char("", 'a'));
}

#[test]
fn find_char_non_ascii() {
    assert!(find_char("dé/f", '/'));
    assert!(find_char("dé/f", 'é'));
}

#[test]
fn find_nr_char_counts() {
    assert_eq!(find_nr_char("a/b/c", '/'), 2);
    assert_eq!(find_nr_char("abc", '/'), 0);
    assert_eq!(find_nr_char("", '/'), 0);
    assert_eq!(find_nr_char("///", '/'), 3);
}

#[test]
fn find_perms_after_first_sign() {
    assert_eq!(find_perms(&"u+rw".to_string()), "rw");
    assert_eq!(find_perms(&"go-x".to_string()), "x");
    assert_eq!(find_perms(&"+-x".to_string()), "-x");
    assert_eq!(find_perms(&"a+".to_string()), "");
}

#[test]
fn find_perms_without_sign_is_whole_string() {
    assert_eq!(find_perms(&"755".to_string()), "755");
    assert_eq!(find_perms(&"".to_string()), "");
}

#[test]
fn get_perm_number_table() {
    assert_eq!(get_perm_number("x"), 1);
    assert_eq!(get_perm_number("w"), 2);
    assert_eq!(get_perm_number("wx"), 3);
    assert_eq!(get_perm_number("r"), 4);
    assert_eq!(get_perm_number("rx"), 5);
    assert_eq!(get_perm_number("rw"), 6);
    assert_eq!(get_perm_number("rwx"), 7);
}

#[test]
fn get_perm_number_other_strings_are_zero() {
    assert_eq!(get_perm_number(""), 0);
    assert_eq!(get_perm_number("xr"), 0);
    assert_eq!(get_perm_number("wr"), 0);
    assert_eq!(get_perm_number("rwxx"), 0);
}

#[test]
fn perm_bits_by_letter_examples() {
    // each letter carries its own bit: r 4, w 2, x 1
    for (s, r, w, x) in [("x", 0, 0, 1), ("wx", 0, 2, 1), ("rx", 4, 0, 1), ("rwx", 4, 2, 1)] {
        assert_eq!(get_perm_number(s), r + w + x);
    }
}

#[test]
fn str_eq_compares_characters() {
    assert!(str_eq("abc", "abc"));
    assert!(!str_eq("abc", "abd"));
    assert!(!str_eq("abc", "ab"));
    assert!(str_eq("", ""));
}
