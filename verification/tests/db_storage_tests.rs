use limiteron::db_storage::escape_string;

#[test]
fn test_sql_escape_single_quote() {
    let input = "user'name";
    let escaped = escape_string(input);
    assert_eq!(escaped, "user''name");
}

#[test]
fn test_sql_escape_multiple_quotes() {
    let input = "it's a test with 'quotes' and ''double quotes''";
    let escaped = escape_string(input);
    assert_eq!(
        escaped,
        "it''s a test with ''quotes'' and ''''double quotes''''"
    );
}

#[test]
fn test_sql_escape_no_quotes() {
    let input = "normal_string_without_quotes";
    let escaped = escape_string(input);
    assert_eq!(escaped, "normal_string_without_quotes");
}

#[test]
fn test_sql_escape_empty_string() {
    let input = "";
    let escaped = escape_string(input);
    assert_eq!(escaped, "");
}
