use libra_config::format_view_output;

#[test]
fn three_values_format_bracketed_and_comma_separated() {
    let values = vec!["1".to_owned(), "2".to_owned(), "3".to_owned()];
    assert_eq!(format_view_output(&values), "[1, 2, 3]");
}

#[test]
fn no_values_format_as_empty_brackets() {
    let values: Vec<String> = Vec::new();
    assert_eq!(format_view_output(&values), "[]");
}

#[test]
fn one_value_formats_without_separators() {
    let values = vec!["true".to_owned()];
    assert_eq!(format_view_output(&values), "[true]");
}
