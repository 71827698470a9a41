use forge_backup::site::wordpress::extract_wp_var;

#[test]
fn test_extract_wp_var() {
    let contents = r#"
/** The name of the database for WordPress */
define( 'DB_NAME', 'testing' );

/** Database username */
define( 'DB_USER', 'username' );

/** Database password */
define( 'DB_PASSWORD', 'secret123' );
"#;
    assert_eq!(
        extract_wp_var(contents, "DB_NAME"),
        Some("testing".to_string())
    );
    assert_eq!(
        extract_wp_var(contents, "DB_USER"),
        Some("username".to_string())
    );
    assert_eq!(
        extract_wp_var(contents, "DB_PASSWORD"),
        Some("secret123".to_string())
    );
}

#[test]
fn define_single_line() {
    assert_eq!(
        extract_wp_var("define('DB_NAME', 'testing');", "DB_NAME"),
        Some("testing".to_string())
    );
    assert_eq!(
        extract_wp_var("define(\"DB_NAME\", \"testing\");", "DB_NAME"),
        Some("testing".to_string())
    );
}

#[test]
fn define_value_keeps_the_other_quote() {
    assert_eq!(
        extract_wp_var("define('DB_PASSWORD', 'pa\"ss');", "DB_PASSWORD"),
        Some("pa\"ss".to_string())
    );
    assert_eq!(
        extract_wp_var("define('DB_PASSWORD', \"it's\");", "DB_PASSWORD"),
        Some("it's".to_string())
    );
}

#[test]
fn define_other_quote_before_closing_bracket_does_not_end_the_value() {
    // The double quote is followed by `);`, yet a single quote opened the
    // value: it runs on to the single quote.
    assert_eq!(
        extract_wp_var("define('K', 'a\");b');", "K"),
        Some("a\");b".to_string())
    );
    assert_eq!(
        extract_wp_var("define('K', \"a');b\");", "K"),
        Some("a');b".to_string())
    );
}

#[test]
fn define_quotes_of_the_value_must_match() {
    assert_eq!(extract_wp_var("define('K', 'v\");", "K"), None);
    assert_eq!(extract_wp_var("define('K', \"v');", "K"), None);
}

#[test]
fn define_same_quote_inside_the_value() {
    // The first single quote is not followed by `);`, so the value goes on.
    assert_eq!(
        extract_wp_var("define('K', 'it's');", "K"),
        Some("it's".to_string())
    );
    // The shortest value that lets the declaration end is taken.
    assert_eq!(
        extract_wp_var("define('K', 'a'); define('L', 'b');", "K"),
        Some("a".to_string())
    );
}

#[test]
fn define_value_is_trimmed_and_not_unescaped() {
    assert_eq!(
        extract_wp_var("define('K', '  a b  ');", "K"),
        Some("a b".to_string())
    );
    assert_eq!(
        extract_wp_var("define('K', 'a\\'b');", "K"),
        Some("a\\'b".to_string())
    );
    assert_eq!(extract_wp_var("define('K', '');", "K"), Some(String::new()));
}

#[test]
fn define_tabs_and_spaces_are_skipped() {
    assert_eq!(
        extract_wp_var("\t define( \t'K'\t , \t'v' \t);", "K"),
        Some("v".to_string())
    );
}

#[test]
fn define_absent_or_malformed() {
    assert_eq!(extract_wp_var("", "K"), None);
    assert_eq!(extract_wp_var("define('L', 'v');", "K"), None);
    // not at the beginning of the line
    assert_eq!(extract_wp_var("// define('K', 'v');", "K"), None);
    // a space between `define` and the bracket
    assert_eq!(extract_wp_var("define ('K', 'v');", "K"), None);
    // no semicolon
    assert_eq!(extract_wp_var("define('K', 'v')", "K"), None);
    // the value does not end on its line
    assert_eq!(extract_wp_var("define('K', 'v\n');", "K"), None);
    // no quotes around the value
    assert_eq!(extract_wp_var("define('K', 42);", "K"), None);
    // a space between the quote and the key
    assert_eq!(extract_wp_var("define(' K', 'v');", "K"), None);
    // a key that only begins like the one asked for
    assert_eq!(extract_wp_var("define('KEY', 'v');", "K"), None);
}

#[test]
fn define_quotes_of_the_key_need_not_match() {
    assert_eq!(
        extract_wp_var("define('K\", 'v');", "K"),
        Some("v".to_string())
    );
}

#[test]
fn define_first_matching_line_wins() {
    assert_eq!(
        extract_wp_var("define('K', 'one');\ndefine('K', 'two');", "K"),
        Some("one".to_string())
    );
    assert_eq!(
        extract_wp_var("define('K', 'one'\ndefine('K', 'two');", "K"),
        Some("two".to_string())
    );
}

#[test]
fn define_text_may_follow_the_declaration() {
    assert_eq!(
        extract_wp_var("define('K', 'v'); // the key\n", "K"),
        Some("v".to_string())
    );
}
