use vstd::prelude::*;

use crate::text::{chars_of, seek_at, skip_blanks_at, starts_with_at, trim_range};
use crate::text::{first_from, first_match, is_line_end, is_line_start, is_match, seek};
use crate::text::{skip_blanks, starts_at};
use crate::text::{holds, is_blank, is_whitespace, no_blank, trimmed};
use crate::text::{lemma_first_from, lemma_first_from_is, lemma_first_match, lemma_next_line};
use crate::text::lemma_trimmed_without_lead;

verus! {

/// Holds at the indices of `t` where a value without quotes must end: on a
/// double quote or a line feed.
pub open spec fn ends_bare(t: Seq<char>) -> spec_fn(int) -> bool {
    |j: int| t[j] == '"' || t[j] == '\n'
}

/// The value that is assigned behind a key that ends just before `pos`.
///
/// Tabs and spaces, `=`, tabs and spaces, and then one of two forms. A
/// value in double quotes runs to the next double quote, may hold line
/// feeds, and only tabs and spaces may follow it on its line. A value
/// without quotes runs to the end of the line and holds no double quote.
/// Either is trimmed of white space.
#[verifier::opaque]
pub open spec fn assigned(t: Seq<char>, pos: int) -> Option<Seq<char>> {
    let eq = skip_blanks(t, pos);
    let start = skip_blanks(t, eq + 1);
    if eq < t.len() && t[eq] == '=' {
        if start < t.len() && t[start] == '"' {
            let close = seek(t, start + 1, '"');
            if close < t.len() && is_line_end(t, skip_blanks(t, close + 1)) {
                Some(trimmed(t.subrange(start + 1, close)))
            } else {
                None
            }
        } else {
            let end = first_from(t.len() as int, start, ends_bare(t));
            if is_line_end(t, end) {
                Some(trimmed(t.subrange(start, end)))
            } else {
                None
            }
        }
    } else {
        None
    }
}

/// Whether the line that begins at `p` assigns to `key` with the key at
/// index `i`: only tabs and spaces stand before the key, and a value is
/// assigned behind it.
pub open spec fn key_at(t: Seq<char>, key: Seq<char>, p: int, i: int) -> bool {
    &&& p <= i <= skip_blanks(t, p)
    &&& starts_at(t, i, key)
    &&& assigned(t, i + key.len()) is Some
}

/// The value that the line beginning at `p` assigns to `key`, if it is an
/// assignment to `key`. Where the key can be read at several places on the
/// line, which takes a key of tabs and spaces, the last of them counts;
/// the same value is assigned behind each of them.
#[verifier::opaque]
pub open spec fn assignment_at(t: Seq<char>, key: Seq<char>, p: int) -> Option<Seq<char>> {
    if exists|i: int| key_at(t, key, p, i) {
        let last = choose|i: int|
            key_at(t, key, p, i) && forall|j: int| key_at(t, key, p, j) ==> j <= i;
        assigned(t, last + key.len())
    } else {
        None
    }
}

/// What each line of `t` assigns to `key`, by the index at which the line
/// begins.
pub open spec fn assignments(t: Seq<char>, key: Seq<char>) -> spec_fn(int) -> Option<Seq<char>> {
    |p: int| assignment_at(t, key, p)
}

/// The value of `key` in the text `t` of `KEY=VALUE` lines: what the first
/// line that assigns to `key` assigns.
#[verifier::opaque]
pub open spec fn env_value(t: Seq<char>, key: Seq<char>) -> Option<Seq<char>> {
    first_match(t, assignments(t, key))
}

/// Reads the value behind a key that ends just before `pos`, as the bounds
/// of the trimmed value.
fn assigned_range(t: &Vec<char>, pos: usize) -> (r: Option<(usize, usize)>)
    requires
        pos <= t.len(),
    ensures
        match r {
            Some((from, to)) => from <= to <= t.len() && assigned(t@, pos as int) == Some(
                t@.subrange(from as int, to as int),
            ),
            None => assigned(t@, pos as int) is None,
        },
{
    reveal(assigned);
    let eq = skip_blanks_at(t, pos);
    if eq >= t.len() || t[eq] != '=' {
        return None;
    }
    let start = skip_blanks_at(t, eq + 1);
    if start < t.len() && t[start] == '"' {
        let close = seek_at(t, start + 1, '"');
        if close >= t.len() {
            return None;
        }
        let rest = skip_blanks_at(t, close + 1);
        if rest < t.len() && t[rest] != '\n' {
            return None;
        }
        Some(trim_range(t, start + 1, close))
    } else {
        let mut end: usize = start;
        while end < t.len() && t[end] != '"' && t[end] != '\n'
            invariant
                start <= end <= t.len(),
                forall|j: int| start <= j < end ==> t@[j] != '"' && t@[j] != '\n',
            decreases t.len() - end,
        {
            end += 1;
        }
        proof {
            lemma_first_from_is(t.len() as int, start as int, ends_bare(t@), end as int);
        }
        if end < t.len() && t[end] != '\n' {
            return None;
        }
        Some(trim_range(t, start, end))
    }
}

/// Reads what the line beginning at `p` assigns to `key`, as the bounds of
/// the trimmed value.
fn assignment_range(t: &Vec<char>, key: &Vec<char>, p: usize) -> (r: Option<(usize, usize)>)
    requires
        p <= t.len(),
    ensures
        match r {
            Some((from, to)) => from <= to <= t.len() && assignment_at(t@, key@, p as int) == Some(
                t@.subrange(from as int, to as int),
            ),
            None => assignment_at(t@, key@, p as int) is None,
        },
{
    let limit = skip_blanks_at(t, p);
    let mut i: usize = limit;
    loop
        invariant_except_break
            p <= i <= limit,
            forall|j: int| i < j <= limit ==> !key_at(t@, key@, p as int, j),
        invariant
            p <= limit <= t.len(),
            limit == skip_blanks(t@, p as int),
        ensures
            forall|j: int| !key_at(t@, key@, p as int, j),
        decreases i,
    {
        if starts_with_at(t, i, key) {
            match assigned_range(t, i + key.len()) {
                Some(range) => {
                    proof {
                        lemma_last_key(t@, key@, p as int, i as int);
                    }
                    return Some(range);
                },
                None => {},
            }
        }
        if i == p {
            break ;
        }
        i -= 1;
    }
    proof {
        reveal(assignment_at);
    }
    None
}

/// A place of the key behind which the key cannot be read again is the one
/// that counts.
proof fn lemma_last_key(t: Seq<char>, key: Seq<char>, p: int, i: int)
    requires
        key_at(t, key, p, i),
        forall|j: int| i < j ==> !key_at(t, key, p, j),
    ensures
        assignment_at(t, key, p) == assigned(t, i + key.len()),
{
    reveal(assignment_at);
    let last = choose|i: int|
        key_at(t, key, p, i) && forall|j: int| key_at(t, key, p, j) ==> j <= i;
    assert(key_at(t, key, p, i) && forall|j: int| key_at(t, key, p, j) ==> j <= i);
    assert(i <= last);
}

/// Looks up `var_name` in the text of a file of `KEY=VALUE` lines.
///
/// A line assigns to the key where it holds, after tabs and spaces, the
/// key, `=` and a value, with tabs and spaces allowed around the `=`. The
/// value stands in double quotes, and then holds none, or runs without
/// quotes to the end of the line. The first line that assigns to the key
/// decides; its value comes back without the quotes and trimmed of white
/// space. Where no line assigns to the key there is no value.
pub fn extract_env_var(contents: &str, var_name: &str) -> (r: Option<String>)
    ensures
        match r {
            Some(value) => env_value(contents@, var_name@) == Some(value@),
            None => env_value(contents@, var_name@) is None,
        },
{
    let t = chars_of(contents);
    let key = chars_of(var_name);
    let ghost find = assignments(t@, key@);
    let mut p: usize = 0;
    loop
        invariant_except_break
            p <= t.len(),
            is_line_start(t@, p as int),
            forall|q: int| 0 <= q < p ==> !is_match(t@, find, q),
        invariant
            t@ == contents@,
            key@ == var_name@,
            find == assignments(t@, key@),
        ensures
            forall|q: int| !is_match(t@, find, q),
        decreases t.len() - p,
    {
        match assignment_range(&t, &key, p) {
            Some((from, to)) => {
                proof {
                    reveal(env_value);
                    lemma_first_match(t@, find, p as int);
                }
                return Some(contents.substring_char(from, to).to_owned());
            },
            None => {},
        }
        let feed = seek_at(&t, p, '\n');
        proof {
            lemma_next_line(t@, p as int);
        }
        if feed >= t.len() {
            break ;
        }
        p = feed + 1;
    }
    proof {
        reveal(env_value);
    }
    None
}

/// A key that stands at two places with only tabs and spaces between
/// their beginnings is made of tabs and spaces.
proof fn lemma_key_of_blanks(t: Seq<char>, key: Seq<char>, i: int, j: int, k: int)
    requires
        i < j,
        starts_at(t, i, key),
        starts_at(t, j, key),
        forall|x: int| i <= x < j ==> is_blank(#[trigger] t[x]),
        0 <= k < key.len(),
    ensures
        is_blank(key[k]),
    decreases k,
{
    assert(t[i + k] == key[k]);
    if k >= j - i {
        let back = k - (j - i);
        assert(t[j + back] == key[back]);
        lemma_key_of_blanks(t, key, i, j, back);
    }
}

/// A line gives a key one value: where the key can be read at two places
/// on it, the same value is assigned behind both.
pub proof fn lemma_key_places_agree(t: Seq<char>, key: Seq<char>, p: int, i: int, j: int)
    requires
        key_at(t, key, p, i),
        key_at(t, key, p, j),
    ensures
        assigned(t, i + key.len()) == assigned(t, j + key.len()),
{
    if i > j {
        lemma_later_place_agrees(t, key, p, j, i);
    } else {
        lemma_later_place_agrees(t, key, p, i, j);
    }
}

/// The same value is assigned behind a place of the key and behind a later
/// one on the same line.
proof fn lemma_later_place_agrees(t: Seq<char>, key: Seq<char>, p: int, i: int, j: int)
    requires
        i <= j,
        key_at(t, key, p, i),
        key_at(t, key, p, j),
    ensures
        assigned(t, i + key.len()) == assigned(t, j + key.len()),
{
    if i < j {
        let len = t.len() as int;
        let limit = skip_blanks(t, p);
        lemma_first_from(len, p, no_blank(t));
        assert forall|x: int| p <= x < limit implies is_blank(#[trigger] t[x]) by {
            assert(!no_blank(t)(x));
        }
        assert forall|x: int| i <= x < i + key.len() implies is_blank(#[trigger] t[x]) by {
            lemma_key_of_blanks(t, key, i, j, x - i);
            assert(t[i + (x - i)] == key[x - i]);
        }
        assert forall|x: int| j <= x < j + key.len() implies is_blank(#[trigger] t[x]) by {
            lemma_key_of_blanks(t, key, i, j, x - j);
            assert(t[j + (x - j)] == key[x - j]);
        }
        if limit < len {
            assert(no_blank(t)(limit));
        }
        assert(j + key.len() <= limit) by {
            if j + key.len() > limit {
                assert(is_blank(t[limit]));
            }
        }
        lemma_first_from_is(len, i + key.len(), no_blank(t), limit);
        lemma_first_from_is(len, j + key.len(), no_blank(t), limit);
        reveal(assigned);
    }
}

/// A key that stands nowhere in the text has no value.
pub proof fn lemma_absent_key(t: Seq<char>, key: Seq<char>)
    requires
        forall|i: int| !starts_at(t, i, key),
    ensures
        env_value(t, key) is None,
{
    reveal(assignment_at);
    reveal(env_value);
    let find = assignments(t, key);
    assert forall|p: int| !is_match(t, find, p) by {
        if find(p) is Some {
            let i = choose|i: int| key_at(t, key, p, i);
            assert(starts_at(t, i, key));
        }
    }
}

/// The line `KEY=VALUE` alone gives the key the value, trimmed of white
/// space: for every key that begins with neither tab nor space, and every
/// value without double quote and line feed.
pub proof fn lemma_bare_assignment(key: Seq<char>, value: Seq<char>)
    requires
        key.len() > 0,
        !is_blank(key[0]),
        forall|j: int| 0 <= j < value.len() ==> value[j] != '"' && value[j] != '\n',
    ensures
        env_value(key + seq!['='] + value, key) == Some(trimmed(value)),
{
    let t = key + seq!['='] + value;
    let len = t.len() as int;
    let eq = key.len() as int;
    assert(t[eq] == '=');
    assert(forall|j: int| 0 <= j < value.len() ==> t[eq + 1 + j] == value[j]);
    lemma_first_from_is(len, eq, no_blank(t), eq);
    let start = skip_blanks(t, eq + 1);
    lemma_first_from(len, eq + 1, no_blank(t));
    assert forall|j: int| start <= j < len implies !#[trigger] ends_bare(t)(j) by {
        assert(t[j] == value[j - eq - 1]);
    }
    lemma_first_from_is(len, start, ends_bare(t), len);
    assert(start < len ==> t[start] != '"') by {
        if start < len {
            assert(t[start] == value[start - eq - 1]);
        }
    }
    assert(assigned(t, eq) == Some(trimmed(value))) by {
        reveal(assigned);
        let lead = start - eq - 1;
        assert(t.subrange(start, len) =~= value.subrange(lead, value.len() as int));
        assert forall|j: int| 0 <= j < lead implies is_whitespace(#[trigger] value[j]) by {
            assert(!no_blank(t)(eq + 1 + j));
        }
        lemma_trimmed_without_lead(value, lead);
    }
    lemma_key_begins_line(t, key, trimmed(value));
}

/// The line `KEY="VALUE"` alone gives the key the value, trimmed of white
/// space: for every key that begins with neither tab nor space, and every
/// value without double quote. The value may hold line feeds.
pub proof fn lemma_quoted_assignment(key: Seq<char>, value: Seq<char>)
    requires
        key.len() > 0,
        !is_blank(key[0]),
        forall|j: int| 0 <= j < value.len() ==> value[j] != '"',
    ensures
        env_value(key + seq!['=', '"'] + value + seq!['"'], key) == Some(trimmed(value)),
{
    let t = key + seq!['=', '"'] + value + seq!['"'];
    let len = t.len() as int;
    let eq = key.len() as int;
    let close = len - 1;
    assert(t[eq] == '=');
    assert(t[eq + 1] == '"');
    assert(t[close] == '"');
    assert(forall|j: int| 0 <= j < value.len() ==> t[eq + 2 + j] == value[j]);
    lemma_first_from_is(len, eq, no_blank(t), eq);
    lemma_first_from_is(len, eq + 1, no_blank(t), eq + 1);
    assert forall|j: int| eq + 2 <= j < close implies !#[trigger] holds(t, '"')(j) by {
        assert(t[j] == value[j - eq - 2]);
    }
    lemma_first_from_is(len, eq + 2, holds(t, '"'), close);
    lemma_first_from_is(len, len, no_blank(t), len);
    assert(assigned(t, eq) == Some(trimmed(value))) by {
        reveal(assigned);
        assert(t.subrange(eq + 2, close) =~= value);
    }
    lemma_key_begins_line(t, key, trimmed(value));
}

/// A text that begins with a key, which begins with neither tab nor
/// space, and assigns behind it, gives the key what it assigns there.
proof fn lemma_key_begins_line(t: Seq<char>, key: Seq<char>, value: Seq<char>)
    requires
        key.len() > 0,
        !is_blank(key[0]),
        key.len() <= t.len(),
        forall|k: int| 0 <= k < key.len() ==> t[k] == key[k],
        assigned(t, key.len() as int) == Some(value),
    ensures
        env_value(t, key) == Some(value),
{
    assert(t[0] == key[0]);
    lemma_first_from_is(t.len() as int, 0, no_blank(t), 0);
    assert(key_at(t, key, 0, 0));
    lemma_last_key(t, key, 0, 0);
    lemma_first_match(t, assignments(t, key), 0);
    reveal(env_value);
}

} // verus!
