use chat_relay::converters::{
    dedup_entries, extract_field, is_entry_separator, parse_kaspersky_export, render_csv,
    LastpassPasswordManager, PasswordEntry,
};

#[test]
fn after_adding_one_password_len_is_one() {
    let mut manager = LastpassPasswordManager::create();
    manager.add_password(
        String::from("www.amazon.com"),
        String::from("user"),
        String::from("password"),
    );
    assert_eq!(1, manager.password_entries.len());
}

#[test]
fn adding_under_the_same_title_replaces_the_entry() {
    let mut manager = LastpassPasswordManager::create();
    manager.add_password(String::from("a.com"), String::from("u"), String::from("one"));
    manager.add_password(String::from("b.com"), String::from("u"), String::from("two"));
    manager.add_password(String::from("a.com"), String::from("u"), String::from("three"));
    assert_eq!(2, manager.password_entries.len());
    assert_eq!(manager.password_entries[0].0, "a.com (u)");
    assert_eq!(manager.password_entries[0].1.password, "three");
    assert_eq!(manager.password_entries[1].0, "b.com (u)");
}

#[test]
fn entry_from_keeps_its_fields() {
    let e = PasswordEntry::from(
        String::from("site"),
        String::from("login"),
        String::from("secret"),
    );
    assert_eq!(e.url, "site");
    assert_eq!(e.login, "login");
    assert_eq!(e.password, "secret");
}

#[test]
fn field_is_the_trimmed_text_after_the_first_colon() {
    assert_eq!(
        extract_field("Website name: example.com"),
        Some(String::from("example.com"))
    );
    assert_eq!(extract_field("Login: user@example.com"), Some(String::from("user@example.com")));
    assert_eq!(extract_field("Website URL: http://site"), Some(String::from("http")));
    assert_eq!(extract_field("no colon here"), None);
}

#[test]
fn separator_is_any_line_with_a_triple_dash() {
    assert!(is_entry_separator("---"));
    assert!(is_entry_separator("----------"));
    assert!(is_entry_separator("end ---"));
    assert!(!is_entry_separator("--"));
    assert!(!is_entry_separator("- - -"));
}

#[test]
fn export_is_parsed_into_titled_entries() {
    let lines = vec![
        String::from("Website name: example.com"),
        String::from("Login: someone"),
        String::from("Password: hunter2"),
        String::from("Comment: unused"),
        String::from("---"),
        String::from("Website name: other.org"),
        String::from("Login: second"),
        String::from("Password: letmein"),
        String::from("---"),
    ];
    let entries = parse_kaspersky_export(&lines).expect("well-formed export");
    assert_eq!(entries.len(), 2);
    assert_eq!(entries[0].0, "example.com (someone)");
    assert_eq!(entries[0].1.url, "example.com");
    assert_eq!(entries[0].1.login, "someone");
    assert_eq!(entries[0].1.password, "hunter2");
    assert_eq!(entries[1].0, "other.org (second)");
}

#[test]
fn export_with_early_separator_is_malformed() {
    let lines = vec![String::from("Website name: example.com"), String::from("---")];
    assert!(parse_kaspersky_export(&lines).is_none());
}

#[test]
fn entries_sharing_a_title_collapse_to_the_last_value() {
    let lines = vec![
        String::from("Website name: a.com"),
        String::from("Login: u"),
        String::from("Password: old"),
        String::from("---"),
        String::from("Website name: a.com"),
        String::from("Login: u"),
        String::from("Password: new"),
        String::from("---"),
    ];
    let entries = dedup_entries(parse_kaspersky_export(&lines).expect("well-formed export"));
    assert_eq!(entries.len(), 1);
    assert_eq!(entries[0].0, "a.com (u)");
    assert_eq!(entries[0].1.password, "new");
}

#[test]
fn rendered_csv_has_header_and_one_line_per_entry() {
    let lines = vec![
        String::from("Website name: example.com"),
        String::from("Login: someone"),
        String::from("Password: hunter2"),
        String::from("---"),
    ];
    let entries = parse_kaspersky_export(&lines).expect("well-formed export");
    let out = render_csv(&entries);
    assert_eq!(out.len(), 2);
    assert_eq!(out[0], "title, url, login, password\n");
    assert_eq!(
        out[1],
        "example.com (someone), example.com, someone, hunter2\n"
    );
}
