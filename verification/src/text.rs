use vstd::prelude::*;

verus! {

/// A tab or a space: what the configuration grammars allow between tokens.
pub open spec fn is_blank(c: char) -> bool {
    c == ' ' || c == '\t'
}

/// A character with the Unicode property `White_Space`: what
/// `char::is_whitespace` tells of a character.
pub open spec fn is_whitespace(c: char) -> bool {
    ||| '\u{0009}' <= c <= '\u{000D}'
    ||| c == '\u{0020}'
    ||| c == '\u{0085}'
    ||| c == '\u{00A0}'
    ||| c == '\u{1680}'
    ||| '\u{2000}' <= c <= '\u{200A}'
    ||| c == '\u{2028}'
    ||| c == '\u{2029}'
    ||| c == '\u{202F}'
    ||| c == '\u{205F}'
    ||| c == '\u{3000}'
}

/// The first index at or after `from`, and below `len`, at which `stop`
/// holds; `len` where there is none.
pub open spec fn first_from(len: int, from: int, stop: spec_fn(int) -> bool) -> int
    decreases len - from,
{
    if from < len && !stop(from) {
        first_from(len, from + 1, stop)
    } else {
        from
    }
}

/// The least `end`, at most `to`, such that `stop` holds nowhere in
/// `end..to`: where a run of indices without `stop` that ends at `to`
/// begins.
pub open spec fn last_until(to: int, stop: spec_fn(int) -> bool) -> int
    decreases to,
{
    if to > 0 && !stop(to - 1) {
        last_until(to - 1, stop)
    } else {
        to
    }
}

/// `first_from` skips only indices without `stop` and ends on one with
/// `stop` or at `len`.
pub proof fn lemma_first_from(len: int, from: int, stop: spec_fn(int) -> bool)
    requires
        from <= len,
    ensures
        from <= first_from(len, from, stop) <= len,
        forall|j: int| from <= j < first_from(len, from, stop) ==> !#[trigger] stop(j),
        first_from(len, from, stop) < len ==> stop(first_from(len, from, stop)),
    decreases len - from,
{
    if from < len && !stop(from) {
        lemma_first_from(len, from + 1, stop);
    }
}

/// An index that ends a run without `stop` from `from` is what
/// `first_from` gives.
pub proof fn lemma_first_from_is(len: int, from: int, stop: spec_fn(int) -> bool, at: int)
    requires
        from <= at <= len,
        forall|j: int| from <= j < at ==> !#[trigger] stop(j),
        at < len ==> stop(at),
    ensures
        first_from(len, from, stop) == at,
    decreases len - from,
{
    if from < at {
        lemma_first_from_is(len, from + 1, stop, at);
    }
}

/// `last_until` walks back over indices without `stop` only and ends
/// behind one with `stop` or at 0.
pub proof fn lemma_last_until(to: int, stop: spec_fn(int) -> bool)
    requires
        0 <= to,
    ensures
        0 <= last_until(to, stop) <= to,
        forall|j: int| last_until(to, stop) <= j < to ==> !#[trigger] stop(j),
        last_until(to, stop) > 0 ==> stop(last_until(to, stop) - 1),
    decreases to,
{
    if to > 0 && !stop(to - 1) {
        lemma_last_until(to - 1, stop);
    }
}

/// An index that begins a run without `stop` up to `to` is what
/// `last_until` gives.
pub proof fn lemma_last_until_is(to: int, stop: spec_fn(int) -> bool, at: int)
    requires
        0 <= at <= to,
        forall|j: int| at <= j < to ==> !#[trigger] stop(j),
        at > 0 ==> stop(at - 1),
    ensures
        last_until(to, stop) == at,
    decreases to,
{
    if at < to {
        lemma_last_until_is(to - 1, stop, at);
    }
}

/// Holds at the indices of `t` that carry no tab or space.
pub open spec fn no_blank(t: Seq<char>) -> spec_fn(int) -> bool {
    |j: int| !is_blank(t[j])
}

/// Holds at the indices of `t` that carry `c`.
pub open spec fn holds(t: Seq<char>, c: char) -> spec_fn(int) -> bool {
    |j: int| t[j] == c
}

/// Holds at the indices of `t` that carry no white space.
pub open spec fn no_whitespace(t: Seq<char>) -> spec_fn(int) -> bool {
    |j: int| !is_whitespace(t[j])
}

/// The first index at or after `from` that carries no tab or space; the
/// length of `t` where only tabs and spaces follow.
pub open spec fn skip_blanks(t: Seq<char>, from: int) -> int {
    first_from(t.len() as int, from, no_blank(t))
}

/// The first index at or after `from` that carries `c`; the length of `t`
/// where `c` does not follow.
pub open spec fn seek(t: Seq<char>, from: int, c: char) -> int {
    first_from(t.len() as int, from, holds(t, c))
}

/// Whether `word` stands in `t` at index `at`.
pub open spec fn starts_at(t: Seq<char>, at: int, word: Seq<char>) -> bool {
    &&& 0 <= at
    &&& at + word.len() <= t.len()
    &&& forall|k: int| 0 <= k < word.len() ==> t[at + k] == #[trigger] word[k]
}

/// Whether a line of `t` begins at `p`: at the very beginning, or right
/// behind a line feed.
pub open spec fn is_line_start(t: Seq<char>, p: int) -> bool {
    p == 0 || (0 < p <= t.len() && t[p - 1] == '\n')
}

/// Whether a line of `t` ends at `p`: at the very end, or on a line feed.
pub open spec fn is_line_end(t: Seq<char>, p: int) -> bool {
    p == t.len() || (0 <= p < t.len() && t[p] == '\n')
}

/// Whether `find` finds a value on a line of `t` that begins at `p`.
pub open spec fn is_match(t: Seq<char>, find: spec_fn(int) -> Option<Seq<char>>, p: int) -> bool {
    0 <= p <= t.len() && is_line_start(t, p) && find(p) is Some
}

/// What `find` finds on the first line of `t` on which it finds a value.
pub open spec fn first_match(t: Seq<char>, find: spec_fn(int) -> Option<Seq<char>>) -> Option<
    Seq<char>,
> {
    if exists|p: int| is_match(t, find, p) {
        find(
            choose|p: int|
                is_match(t, find, p) && forall|q: int| is_match(t, find, q) ==> p <= q,
        )
    } else {
        None
    }
}

/// A line with a value before which no line has one is the first match.
pub proof fn lemma_first_match(t: Seq<char>, find: spec_fn(int) -> Option<Seq<char>>, p: int)
    requires
        is_match(t, find, p),
        forall|q: int| 0 <= q < p ==> !is_match(t, find, q),
    ensures
        first_match(t, find) == find(p),
{
    let first = choose|p: int|
        is_match(t, find, p) && forall|q: int| is_match(t, find, q) ==> p <= q;
    assert(is_match(t, find, p) && forall|q: int| is_match(t, find, q) ==> p <= q);
    assert(first <= p);
    assert(p <= first);
}

/// What the first match is: the value on a line before which no line has
/// one; and there is none exactly where no line has a value.
pub proof fn lemma_first_match_is_first(t: Seq<char>, find: spec_fn(int) -> Option<Seq<char>>)
    ensures
        first_match(t, find) is Some ==> exists|p: int|
            {
                &&& #[trigger] is_match(t, find, p)
                &&& first_match(t, find) == find(p)
                &&& forall|q: int| 0 <= q < p ==> !is_match(t, find, q)
            },
        first_match(t, find) is None <==> forall|p: int| !is_match(t, find, p),
{
    if exists|p: int| is_match(t, find, p) {
        let first = choose|p: int|
            is_match(t, find, p) && forall|q: int| is_match(t, find, q) ==> p <= q;
        let some = choose|p: int| is_match(t, find, p);
        lemma_least_match(t, find, some);
        assert(is_match(t, find, first));
        assert(forall|q: int| 0 <= q < first ==> !is_match(t, find, q));
    }
}

/// Where some line has a value, there is a first such line.
proof fn lemma_least_match(t: Seq<char>, find: spec_fn(int) -> Option<Seq<char>>, p: int)
    requires
        is_match(t, find, p),
    ensures
        exists|first: int|
            is_match(t, find, first) && forall|q: int| is_match(t, find, q) ==> first <= q,
    decreases p,
{
    if exists|q: int| 0 <= q < p && is_match(t, find, q) {
        let q = choose|q: int| 0 <= q < p && is_match(t, find, q);
        lemma_least_match(t, find, q);
    } else {
        assert(is_match(t, find, p) && forall|q: int| is_match(t, find, q) ==> p <= q);
    }
}

/// No line begins between the beginning of a line and its line feed, and
/// one begins right behind the line feed.
pub proof fn lemma_next_line(t: Seq<char>, p: int)
    requires
        0 <= p <= t.len(),
    ensures
        p <= seek(t, p, '\n') <= t.len(),
        forall|q: int| p < q <= seek(t, p, '\n') ==> !is_line_start(t, q),
        seek(t, p, '\n') < t.len() ==> is_line_start(t, seek(t, p, '\n') + 1),
{
    let stop = holds(t, '\n');
    lemma_first_from(t.len() as int, p, stop);
    assert forall|q: int| p < q <= seek(t, p, '\n') implies !is_line_start(t, q) by {
        assert(!stop(q - 1));
    }
    if seek(t, p, '\n') < t.len() {
        assert(stop(seek(t, p, '\n')));
    }
}

/// Where `s` begins once the white space at its beginning is cut off.
pub open spec fn trim_start(s: Seq<char>) -> int {
    first_from(s.len() as int, 0, no_whitespace(s))
}

/// Where `s` ends once the white space at its end is cut off, and no
/// earlier than it begins.
pub open spec fn trim_end(s: Seq<char>) -> int {
    let end = last_until(s.len() as int, no_whitespace(s));
    if end < trim_start(s) {
        trim_start(s)
    } else {
        end
    }
}

/// `s` without the white space at its two ends.
pub open spec fn trimmed(s: Seq<char>) -> Seq<char> {
    s.subrange(trim_start(s), trim_end(s))
}

/// What trimming does: it cuts a run of white space off each end, and what
/// is left neither begins nor ends with white space.
pub proof fn lemma_trimmed(s: Seq<char>)
    ensures
        0 <= trim_start(s) <= trim_end(s) <= s.len(),
        forall|j: int| 0 <= j < trim_start(s) ==> is_whitespace(#[trigger] s[j]),
        forall|j: int| trim_end(s) <= j < s.len() ==> is_whitespace(#[trigger] s[j]),
        trimmed(s).len() > 0 ==> !is_whitespace(trimmed(s).first()) && !is_whitespace(
            trimmed(s).last(),
        ),
{
    let len = s.len() as int;
    let stop = no_whitespace(s);
    lemma_first_from(len, 0, stop);
    lemma_last_until(len, stop);
    assert forall|j: int| 0 <= j < trim_start(s) implies is_whitespace(#[trigger] s[j]) by {
        assert(!stop(j));
    }
    assert forall|j: int| trim_end(s) <= j < len implies is_whitespace(#[trigger] s[j]) by {
        assert(!stop(j));
    }
    if trimmed(s).len() > 0 {
        assert(stop(trim_start(s)));
        if last_until(len, stop) <= trim_start(s) {
            assert(!stop(trim_start(s)));
        }
        assert(stop(trim_end(s) - 1));
    }
}

/// White space before a text changes nothing in what trimming leaves of
/// it.
pub proof fn lemma_trimmed_without_lead(s: Seq<char>, from: int)
    requires
        0 <= from <= s.len(),
        forall|j: int| 0 <= j < from ==> is_whitespace(#[trigger] s[j]),
    ensures
        trimmed(s.subrange(from, s.len() as int)) == trimmed(s),
{
    let rest = s.subrange(from, s.len() as int);
    let len = s.len() as int;
    let stop = no_whitespace(s);
    let rest_stop = no_whitespace(rest);
    let start = trim_start(rest);
    let end = last_until(rest.len() as int, rest_stop);
    lemma_first_from(rest.len() as int, 0, rest_stop);
    lemma_last_until(rest.len() as int, rest_stop);
    assert forall|j: int| 0 <= j < from + start implies !#[trigger] stop(j) by {
        if j >= from {
            assert(!rest_stop(j - from));
        }
    }
    if start < rest.len() {
        assert(rest_stop(start));
    }
    lemma_first_from_is(len, 0, stop, from + start);
    if end > 0 {
        assert(rest_stop(end - 1));
        assert forall|j: int| from + end <= j < len implies !#[trigger] stop(j) by {
            assert(!rest_stop(j - from));
        }
        lemma_last_until_is(len, stop, from + end);
        assert(rest.subrange(trim_start(rest), trim_end(rest)) =~= s.subrange(
            trim_start(s),
            trim_end(s),
        ));
    } else {
        assert(start == rest.len()) by {
            if start < rest.len() {
                assert(!rest_stop(start));
            }
        }
        lemma_last_until(len, stop);
        assert(rest.subrange(trim_start(rest), trim_end(rest)) =~= s.subrange(
            trim_start(s),
            trim_end(s),
        ));
    }
}

/// Tells whether `c` is a tab or a space.
pub fn blank(c: char) -> (r: bool)
    ensures
        r == is_blank(c),
{
    c == ' ' || c == '\t'
}

/// Tells whether `c` is white space.
pub fn whitespace(c: char) -> (r: bool)
    ensures
        r == is_whitespace(c),
{
    (c >= '\u{0009}' && c <= '\u{000D}') || c == '\u{0020}' || c == '\u{0085}' || c == '\u{00A0}'
        || c == '\u{1680}' || (c >= '\u{2000}' && c <= '\u{200A}') || c == '\u{2028}' || c
        == '\u{2029}' || c == '\u{202F}' || c == '\u{205F}' || c == '\u{3000}'
}

/// The characters of `s`, in order.
pub fn chars_of(s: &str) -> (t: Vec<char>)
    ensures
        t@ == s@,
{
    let mut t: Vec<char> = Vec::new();
    let chars = s.chars();
    for c in iter: chars
        invariant
            t@ == iter.seq().take(iter.index()),
            iter.seq() == s@,
    {
        t.push(c);
    }
    t
}

/// Finds the end of the tabs and spaces that begin at `from`.
pub fn skip_blanks_at(t: &Vec<char>, from: usize) -> (r: usize)
    requires
        from <= t.len(),
    ensures
        r == skip_blanks(t@, from as int),
        from <= r <= t.len(),
{
    let mut i: usize = from;
    while i < t.len() && blank(t[i])
        invariant
            from <= i <= t.len(),
            forall|j: int| from <= j < i ==> is_blank(t@[j]),
        decreases t.len() - i,
    {
        i += 1;
    }
    proof {
        lemma_first_from_is(t.len() as int, from as int, no_blank(t@), i as int);
    }
    i
}

/// Finds the next `c` at or after `from`.
pub fn seek_at(t: &Vec<char>, from: usize, c: char) -> (r: usize)
    requires
        from <= t.len(),
    ensures
        r == seek(t@, from as int, c),
        from <= r <= t.len(),
{
    let mut i: usize = from;
    while i < t.len() && t[i] != c
        invariant
            from <= i <= t.len(),
            forall|j: int| from <= j < i ==> t@[j] != c,
        decreases t.len() - i,
    {
        i += 1;
    }
    proof {
        lemma_first_from_is(t.len() as int, from as int, holds(t@, c), i as int);
    }
    i
}

/// Tells whether `word` stands in `t` at index `at`.
pub fn starts_with_at(t: &Vec<char>, at: usize, word: &Vec<char>) -> (r: bool)
    requires
        at <= t.len(),
    ensures
        r == starts_at(t@, at as int, word@),
{
    if word.len() > t.len() - at {
        return false;
    }
    let mut k: usize = 0;
    while k < word.len()
        invariant
            k <= word.len(),
            at + word.len() <= t.len(),
            forall|j: int| 0 <= j < k ==> t@[at + j] == #[trigger] word@[j],
        decreases word.len() - k,
    {
        if t[at + k] != word[k] {
            return false;
        }
        k += 1;
    }
    true
}

/// Trims the part of `t` between `from` and `to`: gives the bounds of what
/// is left of it.
pub fn trim_range(t: &Vec<char>, from: usize, to: usize) -> (r: (usize, usize))
    requires
        from <= to <= t.len(),
    ensures
        from <= r.0 <= r.1 <= to,
        t@.subrange(r.0 as int, r.1 as int) == trimmed(t@.subrange(from as int, to as int)),
{
    let ghost part = t@.subrange(from as int, to as int);
    let mut start: usize = from;
    while start < to && whitespace(t[start])
        invariant
            from <= start <= to <= t.len(),
            forall|j: int| from <= j < start ==> is_whitespace(t@[j]),
        decreases to - start,
    {
        start += 1;
    }
    let mut end: usize = to;
    while end > start && whitespace(t[end - 1])
        invariant
            start <= end <= to <= t.len(),
            forall|j: int| end <= j < to ==> is_whitespace(t@[j]),
        decreases end,
    {
        end -= 1;
    }
    proof {
        let len = part.len() as int;
        assert(forall|j: int| 0 <= j < len ==> part[j] == t@[from + j]);
        lemma_first_from_is(len, 0, no_whitespace(part), start - from);
        if start < to {
            assert(!is_whitespace(t@[start as int]));
            assert(end > start);
            lemma_last_until_is(len, no_whitespace(part), end - from);
            assert(part.subrange(start - from, end - from) =~= t@.subrange(
                start as int,
                end as int,
            ));
        } else {
            lemma_last_until(len, no_whitespace(part));
            assert(t@.subrange(start as int, end as int) =~= part.subrange(len, len));
        }
    }
    (start, end)
}

} // verus!
