use forge_backup::env::extract_env_var;
use forge_backup::site::wordpress::extract_wp_var;
use regex::Regex;

/// The grammar of `KEY=VALUE` lines as a regular expression.
fn env_pattern(key: &str) -> Regex {
    Regex::new(&format!(
        "(?m)^[\\t ]*{}[\\t ]*=[\\t ]*(\"(?:[^\"]*)\"|[^\"\\n]*)[\\t ]*$",
        regex::escape(key)
    ))
    .unwrap()
}

fn env_by_pattern(pattern: &Regex, text: &str) -> Option<String> {
    pattern.captures(text).and_then(|found| {
        found
            .get(1)
            .map(|value| value.as_str().trim_matches('"').trim().to_string())
    })
}

/// The grammar of `define` declarations as a regular expression, with one
/// branch for each kind of quote around the value.
fn define_pattern(key: &str) -> Regex {
    Regex::new(&format!(
        "(?m)^[\\t ]*define\\([\\t ]*['\"]{}['\"][\\t ]*,[\\t ]*(?:'(.*?)'|\"(.*?)\")[\\t ]*\\);",
        regex::escape(key)
    ))
    .unwrap()
}

fn define_by_pattern(pattern: &Regex, text: &str) -> Option<String> {
    pattern.captures(text).and_then(|found| {
        found
            .get(1)
            .or(found.get(2))
            .map(|value| value.as_str().trim().to_string())
    })
}

/// Calls `visit` on every text of at most `most` pieces out of `pieces`.
fn every_text(pieces: &[&str], most: usize, visit: &mut dyn FnMut(&str)) {
    let mut picked: Vec<usize> = Vec::new();
    let mut text = String::new();
    loop {
        text.clear();
        for &piece in &picked {
            text.push_str(pieces[piece]);
        }
        visit(&text);
        let mut at = picked.len();
        loop {
            if at == 0 {
                if picked.len() == most {
                    return;
                }
                picked.push(0);
                for slot in picked.iter_mut() {
                    *slot = 0;
                }
                break;
            }
            at -= 1;
            if picked[at] + 1 < pieces.len() {
                picked[at] += 1;
                break;
            }
            picked[at] = 0;
        }
    }
}

fn env_agrees(key: &str, pieces: &[&str], most: usize) {
    let pattern = env_pattern(key);
    let mut texts = 0;
    let mut values = 0;
    every_text(pieces, most, &mut |text| {
        let expected = env_by_pattern(&pattern, text);
        assert_eq!(extract_env_var(text, key), expected, "{:?}", text);
        texts += 1;
        if expected.is_some() {
            values += 1;
        }
    });
    assert!(texts > 1000);
    assert!(values > 0);
}

fn define_agrees(key: &str, pieces: &[&str], most: usize) {
    let pattern = define_pattern(key);
    let mut texts = 0;
    let mut values = 0;
    every_text(pieces, most, &mut |text| {
        let expected = define_by_pattern(&pattern, text);
        assert_eq!(extract_wp_var(text, key), expected, "{:?}", text);
        texts += 1;
        if expected.is_some() {
            values += 1;
        }
    });
    assert!(texts > 1000);
    assert!(values > 0);
}

#[test]
fn env_agrees_with_the_pattern_on_short_lines() {
    env_agrees("K", &["K", "=", "\"", " ", "\n", "v"], 6);
}

#[test]
fn env_agrees_with_the_pattern_on_tabs_and_returns() {
    env_agrees("K", &["K=", "\t", "\r", "\n", "\"", "v "], 6);
}

#[test]
fn env_agrees_with_the_pattern_on_longer_keys() {
    env_agrees("DB_X", &["DB_X", "DB_", "X", "=", "\"a\"", "\n", " "], 5);
}

#[test]
fn env_agrees_with_the_pattern_on_a_key_of_blanks() {
    env_agrees(" ", &[" ", "=", "\t", "\n", "v", "\""], 6);
    env_agrees(" \t", &[" ", "=", "\t", "\n", "v"], 6);
}

#[test]
fn env_agrees_with_the_pattern_on_the_empty_key() {
    env_agrees("", &[" ", "=", "\n", "v", "\""], 6);
}

#[test]
fn env_agrees_with_the_pattern_on_keys_with_operators() {
    env_agrees("a.b", &["a.b", "axb", "=", "\n", "1"], 6);
    env_agrees("=", &["=", " ", "\n", "v"], 6);
    env_agrees("\"", &["\"", "=", " ", "\n", "v"], 6);
    env_agrees("K\n", &["K", "\n", "=", "v"], 6);
}

#[test]
fn env_agrees_with_the_pattern_on_wide_white_space() {
    env_agrees(
        "K",
        &["K=", "\u{00A0}", "\u{3000}", "\u{0085}", "x", "\n", "\""],
        5,
    );
}

#[test]
fn define_agrees_with_the_pattern_on_values() {
    define_agrees(
        "K",
        &["define('K',", "'", "\"", ");", " ", "v", "\n"],
        6,
    );
}

#[test]
fn define_agrees_with_the_pattern_on_declarations() {
    define_agrees(
        "K",
        &["define(", "'K'", "\"K\"", ",", "'v'", "\"v\"", ");", " ", "\n"],
        5,
    );
}

#[test]
fn define_agrees_with_the_pattern_on_brackets() {
    define_agrees(
        "K",
        &["define('K','", "define('K',\"", "'", "\"", ")", ";", " ", "\t"],
        5,
    );
}

#[test]
fn define_agrees_with_the_pattern_on_odd_keys() {
    define_agrees("", &["define(", "'", "\"", ",", "'v');", "v", " "], 6);
    define_agrees("'", &["define(", "'", "\"", ",", "'v');", "v", " "], 6);
    define_agrees(
        "a b",
        &["define(", "'a b'", "a", " ", "b", "'", ",", "'v'", ");"],
        5,
    );
}

#[test]
fn define_agrees_with_the_looser_pattern_where_one_kind_of_quote_is_used() {
    // With one kind of quote in the text it makes no difference whether
    // the closing quote has to match the opening one.
    let loose = Regex::new(
        "(?m)^[\\t ]*define\\([\\t ]*['\"]K['\"][\\t ]*,[\\t ]*['\"](.*?)['\"][\\t ]*\\);",
    )
    .unwrap();
    let mut values = 0;
    every_text(
        &["define('K', '", "define('K','", "v", " ", "'", ")", ";", "');", "\n"],
        5,
        &mut |text| {
            let expected = loose
                .captures(text)
                .and_then(|found| found.get(1).map(|value| value.as_str().trim().to_string()));
            assert_eq!(extract_wp_var(text, "K"), expected, "{:?}", text);
            if expected.is_some() {
                values += 1;
            }
        },
    );
    assert!(values > 0);
}

#[test]
fn define_differs_from_the_looser_pattern_where_the_quotes_are_mixed() {
    let loose = Regex::new(
        "(?m)^[\\t ]*define\\([\\t ]*['\"]K['\"][\\t ]*,[\\t ]*['\"](.*?)['\"][\\t ]*\\);",
    )
    .unwrap();
    let text = "define('K', 'a\");b');";
    let found = loose
        .captures(text)
        .and_then(|found| found.get(1).map(|value| value.as_str().to_string()));
    assert_eq!(found, Some("a".to_string()));
    assert_eq!(extract_wp_var(text, "K"), Some("a\");b".to_string()));
}
