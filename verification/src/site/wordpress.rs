use vstd::prelude::*;

use crate::db::{Credentials, CredentialsView};
use crate::error::{AppError, AppResult};
use crate::text::{chars_of, seek_at, skip_blanks_at, starts_with_at, trim_range};
use crate::text::{first_from, first_match, is_line_start, is_match, no_blank, skip_blanks};
use crate::text::starts_at;
use crate::text::{lemma_first_from, lemma_first_from_is, lemma_first_match, lemma_next_line};
use crate::text::trimmed;

verus! {

/// A single or a double quote.
pub open spec fn is_quote(c: char) -> bool {
    c == '\'' || c == '"'
}

/// Whether a declaration can end behind index `i`: tabs and spaces and
/// then `);` follow.
pub open spec fn closes(t: Seq<char>, i: int) -> bool {
    starts_at(t, skip_blanks(t, i + 1), ");"@)
}

/// Holds at the indices of `t` where a value that `quote` opened is over:
/// on a line feed, and on a `quote` behind which the declaration can end.
/// The other kind of quote is part of the value wherever it stands.
pub open spec fn ends_value(t: Seq<char>, quote: char) -> spec_fn(int) -> bool {
    |j: int| t[j] == '\n' || (t[j] == quote && closes(t, j))
}

/// Where the key would begin in a declaration on the line beginning at
/// `p`: behind tabs and spaces, `define(`, tabs and spaces and a quote.
pub open spec fn key_begin(t: Seq<char>, p: int) -> int {
    skip_blanks(t, skip_blanks(t, p) + "define("@.len()) + 1
}

/// Where the quote that opens the value would stand, for a key of the
/// length `key_len`: behind the key, a quote, tabs and spaces, a comma, and
/// tabs and spaces.
pub open spec fn value_open(t: Seq<char>, key_len: int, p: int) -> int {
    skip_blanks(t, skip_blanks(t, key_begin(t, p) + key_len + 1) + 1)
}

/// Where the value that begins behind `value_open` is over.
pub open spec fn value_close(t: Seq<char>, key_len: int, p: int) -> int {
    let open = value_open(t, key_len, p);
    first_from(t.len() as int, open + 1, ends_value(t, t[open]))
}

/// The value that the line beginning at `p` declares for `key`, if it is a
/// declaration of `key`:
/// `define(`, a quote, the key, a quote, a comma, and the value between two
/// quotes of the same kind, with `);` behind it. Tabs and spaces may stand
/// before `define`, behind `(`, around the comma and before `)`. The value
/// keeps to one line and is as short as this allows; it comes trimmed of
/// white space.
#[verifier::opaque]
pub open spec fn declared_at(t: Seq<char>, key: Seq<char>, p: int) -> Option<Seq<char>> {
    let name = key_begin(t, p);
    let name_end = name + key.len();
    let comma = skip_blanks(t, name_end + 1);
    let open = value_open(t, key.len() as int, p);
    let close = value_close(t, key.len() as int, p);
    if {
        &&& starts_at(t, skip_blanks(t, p), "define("@)
        &&& name - 1 < t.len() && is_quote(t[name - 1])
        &&& starts_at(t, name, key)
        &&& name_end < t.len() && is_quote(t[name_end])
        &&& comma < t.len() && t[comma] == ','
        &&& open < t.len() && is_quote(t[open])
        &&& close < t.len() && t[close] == t[open]
    } {
        Some(trimmed(t.subrange(open + 1, close)))
    } else {
        None
    }
}

/// What each line of `t` declares for `key`, by the index at which the line
/// begins.
pub open spec fn declarations(t: Seq<char>, key: Seq<char>) -> spec_fn(int) -> Option<Seq<char>> {
    |p: int| declared_at(t, key, p)
}

/// The value of `key` in the text `t` of a file of `define` declarations:
/// what the first line that declares `key` gives it.
#[verifier::opaque]
pub open spec fn define_value(t: Seq<char>, key: Seq<char>) -> Option<Seq<char>> {
    first_match(t, declarations(t, key))
}

/// The credentials that a WordPress configuration holds, if it holds all
/// three of `DB_NAME`, `DB_USER` and `DB_PASSWORD`.
pub open spec fn credentials_in(t: Seq<char>) -> Option<CredentialsView> {
    match (
        define_value(t, "DB_NAME"@),
        define_value(t, "DB_USER"@),
        define_value(t, "DB_PASSWORD"@),
    ) {
        (Some(database), Some(username), Some(password)) => Some(
            CredentialsView { database, username, password },
        ),
        _ => None,
    }
}

/// Tells whether `c` is a single or a double quote.
fn quote(c: char) -> (r: bool)
    ensures
        r == is_quote(c),
{
    c == '\'' || c == '"'
}

/// Tells whether a declaration can end behind index `i`.
fn closes_at(t: &Vec<char>, i: usize, closer: &Vec<char>) -> (r: bool)
    requires
        i < t.len(),
        closer@ == ");"@,
    ensures
        r == closes(t@, i as int),
{
    let rest = skip_blanks_at(t, i + 1);
    starts_with_at(t, rest, closer)
}

/// Reads what the line beginning at `p` declares for `key`, as the bounds
/// of the trimmed value.
fn declared_range(
    t: &Vec<char>,
    key: &Vec<char>,
    p: usize,
    opener: &Vec<char>,
    closer: &Vec<char>,
) -> (r: Option<(usize, usize)>)
    requires
        p <= t.len(),
        opener@ == "define("@,
        closer@ == ");"@,
    ensures
        match r {
            Some((from, to)) => from <= to <= t.len() && declared_at(t@, key@, p as int) == Some(
                t@.subrange(from as int, to as int),
            ),
            None => declared_at(t@, key@, p as int) is None,
        },
{
    reveal(declared_at);
    let word = skip_blanks_at(t, p);
    if !starts_with_at(t, word, opener) {
        return None;
    }
    let name_quote = skip_blanks_at(t, word + opener.len());
    if name_quote >= t.len() || !quote(t[name_quote]) {
        return None;
    }
    let name = name_quote + 1;
    if !starts_with_at(t, name, key) {
        return None;
    }
    let name_end = name + key.len();
    if name_end >= t.len() || !quote(t[name_end]) {
        return None;
    }
    let comma = skip_blanks_at(t, name_end + 1);
    if comma >= t.len() || t[comma] != ',' {
        return None;
    }
    let open = skip_blanks_at(t, comma + 1);
    if open >= t.len() || !quote(t[open]) {
        return None;
    }
    let mark = t[open];
    let mut close: usize = open + 1;
    while close < t.len() && t[close] != '\n' && !(t[close] == mark && closes_at(t, close, closer))
        invariant
            open < close <= t.len(),
            closer@ == ");"@,
            forall|j: int| open < j < close ==> !#[trigger] ends_value(t@, mark)(j),
        decreases t.len() - close,
    {
        close += 1;
    }
    proof {
        lemma_first_from_is(t.len() as int, open + 1, ends_value(t@, mark), close as int);
    }
    if close >= t.len() || t[close] != mark {
        return None;
    }
    Some(trim_range(t, open + 1, close))
}

/// Looks up `var_name` in the text of a PHP file of `define` declarations.
///
/// A line declares the key where it holds, after tabs and spaces,
/// `define(`, the key between quotes, a comma, the value between quotes and
/// `);`. A single and a double quote both serve as a quote; the value ends
/// on the kind of quote that opened it, so that it may hold the other kind.
/// The first line that declares the key decides; its value comes back
/// trimmed of white space, with nothing unescaped. Where no line declares
/// the key there is no value.
pub fn extract_wp_var(contents: &str, var_name: &str) -> (r: Option<String>)
    ensures
        match r {
            Some(value) => define_value(contents@, var_name@) == Some(value@),
            None => define_value(contents@, var_name@) is None,
        },
{
    let t = chars_of(contents);
    let key = chars_of(var_name);
    let opener = chars_of("define(");
    let closer = chars_of(");");
    let ghost find = declarations(t@, key@);
    let mut p: usize = 0;
    loop
        invariant_except_break
            p <= t.len(),
            is_line_start(t@, p as int),
            forall|q: int| 0 <= q < p ==> !is_match(t@, find, q),
        invariant
            t@ == contents@,
            key@ == var_name@,
            opener@ == "define("@,
            closer@ == ");"@,
            find == declarations(t@, key@),
        ensures
            forall|q: int| !is_match(t@, find, q),
        decreases t.len() - p,
    {
        match declared_range(&t, &key, p, &opener, &closer) {
            Some((from, to)) => {
                proof {
                    reveal(define_value);
                    lemma_first_match(t@, find, p as int);
                }
                return Some(contents.substring_char(from, to).to_owned());
            },
            None => {},
        }
        let feed = seek_at(&t, p, '\n');
        proof {
            lemma_next_line(t@, p as int);
        }
        if feed >= t.len() {
            break ;
        }
        p = feed + 1;
    }
    proof {
        reveal(define_value);
    }
    None
}

/// The name, under the site root, of the file that holds the credentials of
/// a WordPress site.
pub fn config_file() -> (name: &'static str)
    ensures
        name@ == "wp-config.php"@,
{
    "wp-config.php"
}

/// Reads the database credentials of a WordPress site from the text of its
/// configuration file; `None` stands for a file that could not be read.
///
/// All three of `DB_NAME`, `DB_USER` and `DB_PASSWORD` must be declared:
/// with one of them missing there are no credentials, whatever the other
/// two are.
pub fn get_credentials(contents: Option<&str>) -> (r: AppResult<Credentials>)
    ensures
        match contents {
            Some(text) => match credentials_in(text@) {
                Some(found) => r matches Ok(credentials) && credentials@ == found,
                None => r matches Err(e) && e is MissingDatabaseCredentials,
            },
            None => r matches Err(e) && e is MissingDatabaseCredentials,
        },
{
    if let Some(text) = contents {
        let db_name = extract_wp_var(text, "DB_NAME");
        let username = extract_wp_var(text, "DB_USER");
        let password = extract_wp_var(text, "DB_PASSWORD");
        if let (Some(database), Some(username), Some(password)) = (db_name, username, password) {
            return Ok(Credentials { database, username, password });
        }
    }
    Err(AppError::MissingDatabaseCredentials)
}

/// The value of a declaration is all that stands between the quote that
/// opens it and the first quote of the same kind behind which the
/// declaration can end. A quote of the other kind does not end the value,
/// not even with `);` behind it.
pub proof fn lemma_value_ends_on_its_own_quote(t: Seq<char>, key: Seq<char>, p: int)
    requires
        0 <= p <= t.len(),
        declared_at(t, key, p) is Some,
    ensures
        ({
            let open = value_open(t, key.len() as int, p);
            let close = value_close(t, key.len() as int, p);
            &&& 0 <= open < close < t.len()
            &&& is_quote(t[open])
            &&& t[close] == t[open]
            &&& closes(t, close)
            &&& declared_at(t, key, p) == Some(trimmed(t.subrange(open + 1, close)))
            &&& forall|j: int|
                open < j < close ==> #[trigger] t[j] != '\n' && !(t[j] == t[open] && closes(t, j))
        }),
{
    reveal(declared_at);
    let name = key_begin(t, p);
    let open = value_open(t, key.len() as int, p);
    let close = value_close(t, key.len() as int, p);
    let len = t.len() as int;
    lemma_first_from(len, p, no_blank(t));
    lemma_first_from(len, skip_blanks(t, p) + "define("@.len(), no_blank(t));
    lemma_first_from(len, name + key.len() + 1, no_blank(t));
    lemma_first_from(len, skip_blanks(t, name + key.len() + 1) + 1, no_blank(t));
    let stop = ends_value(t, t[open]);
    lemma_first_from(len, open + 1, stop);
    assert(stop(close));
    assert forall|j: int| open < j < close implies #[trigger] t[j] != '\n' && !(t[j] == t[open]
        && closes(t, j)) by {
        assert(!stop(j));
    }
}

/// A key that stands nowhere in the text has no value.
pub proof fn lemma_absent_key(t: Seq<char>, key: Seq<char>)
    requires
        forall|i: int| !starts_at(t, i, key),
    ensures
        define_value(t, key) is None,
{
    reveal(declared_at);
    reveal(define_value);
    let find = declarations(t, key);
    assert forall|p: int| !is_match(t, find, p) by {
        if find(p) is Some {
            assert(starts_at(t, key_begin(t, p), key));
        }
    }
}

/// The line `define(` quote `KEY` quote `,` quote `VALUE` quote `);` alone
/// gives the key the value, trimmed of white space: for every key, every
/// two quotes around the key, and every value without line feed that does
/// not hold the quote that stands around it. The value may hold the other
/// kind of quote, wherever and as often as it likes.
pub proof fn lemma_single_declaration(
    key: Seq<char>,
    value: Seq<char>,
    before_key: char,
    behind_key: char,
    mark: char,
)
    requires
        is_quote(before_key),
        is_quote(behind_key),
        is_quote(mark),
        forall|j: int| 0 <= j < value.len() ==> value[j] != '\n' && value[j] != mark,
    ensures
        define_value(
            "define("@ + seq![before_key] + key + seq![behind_key, ',', mark] + value + seq![mark]
                + ");"@,
            key,
        ) == Some(trimmed(value)),
{
    let t = "define("@ + seq![before_key] + key + seq![behind_key, ',', mark] + value + seq![mark]
        + ");"@;
    assert(is_plain_declaration(t, key, value)) by {
        reveal_strlit("define(");
        reveal_strlit(");");
        let open = 10 + key.len() as int;
        let close = open + 1 + value.len() as int;
        assert(t.subrange(open + 1, close) =~= value);
    }
    lemma_plain_declaration_is_read(t, key, value);
    lemma_first_match(t, declarations(t, key), 0);
    reveal(define_value);
}

/// Whether `t` is one declaration of `key` with `value`, laid out without
/// tabs and spaces, where `value` holds neither a line feed nor the quote
/// that stands around it.
spec fn is_plain_declaration(t: Seq<char>, key: Seq<char>, value: Seq<char>) -> bool {
    let open = 10 + key.len() as int;
    let close = open + 1 + value.len() as int;
    &&& t.len() == close + 3
    &&& starts_at(t, 0, "define("@)
    &&& is_quote(t[7])
    &&& starts_at(t, 8, key)
    &&& is_quote(t[open - 2])
    &&& t[open - 1] == ','
    &&& is_quote(t[open])
    &&& t.subrange(open + 1, close) == value
    &&& forall|j: int| 0 <= j < value.len() ==> value[j] != '\n' && value[j] != t[open]
    &&& t[close] == t[open]
    &&& starts_at(t, close + 1, ");"@)
}

/// A plain declaration is read as what it declares.
proof fn lemma_plain_declaration_is_read(t: Seq<char>, key: Seq<char>, value: Seq<char>)
    requires
        is_plain_declaration(t, key, value),
    ensures
        declared_at(t, key, 0) == Some(trimmed(value)),
{
    reveal_strlit("define(");
    reveal_strlit(");");
    let len = t.len() as int;
    let open = 10 + key.len() as int;
    let close = open + 1 + value.len() as int;
    let mark = t[open];
    let blank = no_blank(t);
    assert(t[0] == "define("@[0]);
    assert(t[close + 1] == ");"@[0]);
    lemma_first_from_is(len, 0, blank, 0);
    lemma_first_from_is(len, 7, blank, 7);
    lemma_first_from_is(len, open - 1, blank, open - 1);
    lemma_first_from_is(len, open, blank, open);
    lemma_first_from_is(len, close + 1, blank, close + 1);
    assert(key_begin(t, 0) == 8);
    assert(value_open(t, key.len() as int, 0) == open);
    assert(closes(t, close));
    let stop = ends_value(t, mark);
    assert forall|j: int| open + 1 <= j < close implies !#[trigger] stop(j) by {
        assert(t[j] == t.subrange(open + 1, close)[j - open - 1]);
    }
    assert(stop(close));
    lemma_first_from_is(len, open + 1, stop, close);
    assert(value_close(t, key.len() as int, 0) == close);
    reveal(declared_at);
}

/// Credentials are all or nothing: the three values make credentials
/// exactly where each of them is declared, and they are these values.
pub proof fn lemma_all_or_nothing(t: Seq<char>)
    ensures
        credentials_in(t) is Some <==> define_value(t, "DB_NAME"@) is Some && define_value(
            t,
            "DB_USER"@,
        ) is Some && define_value(t, "DB_PASSWORD"@) is Some,
        credentials_in(t) matches Some(found) ==> define_value(t, "DB_NAME"@) == Some(
            found.database,
        ) && define_value(t, "DB_USER"@) == Some(found.username) && define_value(
            t,
            "DB_PASSWORD"@,
        ) == Some(found.password),
{
}

} // verus!
