use rustconn::startup_config::find_table_string;

/// The shape the application itself writes.
#[test]
fn finds_a_key_in_the_requested_table() {
    let content = "[ui]\nlanguage = \"uk\"\nrenderer = \"software\"\n";

    assert_eq!(find_table_string(content, "ui", "language").as_deref(), Some("uk"));
    assert_eq!(find_table_string(content, "ui", "renderer").as_deref(), Some("software"));
}

/// The same key name in another table must not answer for `[ui]`.
#[test]
fn ignores_the_same_key_in_another_table() {
    let content = "[terminal]\nrenderer = \"gpu\"\n\n[ui]\nlanguage = \"de\"\n";

    assert_eq!(find_table_string(content, "ui", "renderer"), None);
    assert_eq!(find_table_string(content, "ui", "language").as_deref(), Some("de"));
}

#[test]
fn does_not_match_a_longer_key_with_the_same_prefix() {
    let content = "[ui]\nrenderer_debug = \"1\"\n";

    assert_eq!(find_table_string(content, "ui", "renderer"), None);
}

/// Spacing around `=` is the writer's choice, not the reader's.
#[test]
fn tolerates_missing_spaces_around_the_separator() {
    let content = "[ui]\n  renderer=\"software\"\n";

    assert_eq!(find_table_string(content, "ui", "renderer").as_deref(), Some("software"));
}

/// A trailing comment belongs to the file, not to the value.
#[test]
fn stops_the_value_at_the_closing_quote() {
    let content = "[ui]\nrenderer = \"software\" # slow GPU in this VM\n";

    assert_eq!(find_table_string(content, "ui", "renderer").as_deref(), Some("software"));
}

/// An empty value is not a choice; the caller's default must win.
#[test]
fn treats_an_empty_value_as_unset() {
    let content = "[ui]\nlanguage = \"\"\n";

    assert_eq!(find_table_string(content, "ui", "language"), None);
}

/// A key before any table header is not in `[ui]`.
#[test]
fn ignores_keys_outside_any_table() {
    let content = "renderer = \"software\"\n[ui]\nlanguage = \"fr\"\n";

    assert_eq!(find_table_string(content, "ui", "renderer"), None);
}

/// Absent key, absent table, empty file: all the same answer.
#[test]
fn returns_none_when_the_key_is_absent() {
    assert_eq!(find_table_string("", "ui", "renderer"), None);
    assert_eq!(find_table_string("[ui]\n", "ui", "renderer"), None);
    assert_eq!(find_table_string("[secrets]\nbackend = \"none\"\n", "ui", "renderer"), None);
}

#[test]
fn a_value_without_a_closing_quote_is_unset() {
    assert_eq!(find_table_string("[ui]\nrenderer = \"software\n", "ui", "renderer"), None);
    assert_eq!(find_table_string("[ui]\nrenderer = \"\n", "ui", "renderer"), None);
}
