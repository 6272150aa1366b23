//! Text helpers: joining, comparing, searching and trimming strings, stated
//! over their characters.

use vstd::prelude::*;
use vstd::string::*;

verus! {

/// Whether a character has the Unicode `White_Space` property: the blank, tab,
/// line feed, vertical tab, form feed and carriage return of ASCII, the next
/// line and no-break space of Latin-1, and the wider spaces and separators.
pub open spec fn white_space(c: char) -> bool {
    let n = c as int;
    ||| 0x09 <= n <= 0x0d
    ||| n == 0x20
    ||| n == 0x85
    ||| n == 0xa0
    ||| n == 0x1680
    ||| 0x2000 <= n <= 0x200a
    ||| n == 0x2028
    ||| n == 0x2029
    ||| n == 0x202f
    ||| n == 0x205f
    ||| n == 0x3000
}

/// `char::is_whitespace` of the standard library: it tells whether a character
/// has the Unicode `White_Space` property, which is a fixed list.
pub assume_specification[ char::is_whitespace ](c: char) -> (r: bool)
    ensures
        r == white_space(c),
;

/// Whether `s` begins with `prefix`.
pub open spec fn begins_with(s: Seq<char>, prefix: Seq<char>) -> bool {
    prefix.len() <= s.len() && s.subrange(0, prefix.len() as int) == prefix
}

/// Whether `s` ends with `suffix`.
pub open spec fn finishes_with(s: Seq<char>, suffix: Seq<char>) -> bool {
    suffix.len() <= s.len() && s.subrange(s.len() - suffix.len(), s.len() as int) == suffix
}

/// Whether `pattern` stands in `s` at index `at`.
pub open spec fn stands_at(s: Seq<char>, pattern: Seq<char>, at: int) -> bool {
    0 <= at && at + pattern.len() <= s.len() && s.subrange(at, at + pattern.len()) == pattern
}

/// Whether `pattern` stands anywhere in `s`.
pub open spec fn holds_text(s: Seq<char>, pattern: Seq<char>) -> bool {
    exists|at: int| stands_at(s, pattern, at)
}

/// `s` without its leading white space.
pub open spec fn trimmed_start(s: Seq<char>) -> Seq<char>
    decreases s.len(),
{
    if s.len() > 0 && white_space(s[0]) {
        trimmed_start(s.subrange(1, s.len() as int))
    } else {
        s
    }
}

/// `s` without its trailing white space.
pub open spec fn trimmed_end(s: Seq<char>) -> Seq<char>
    decreases s.len(),
{
    if s.len() > 0 && white_space(s[s.len() - 1]) {
        trimmed_end(s.subrange(0, s.len() - 1))
    } else {
        s
    }
}

/// `s` without its leading and trailing white space.
pub open spec fn trimmed(s: Seq<char>) -> Seq<char> {
    trimmed_end(trimmed_start(s))
}

/// The texts that a list of strings holds.
pub open spec fn texts(list: Seq<String>) -> Seq<Seq<char>> {
    list.map_values(|s: String| s@)
}

/// Leading white space is a prefix, and what follows it starts on a
/// character of another kind.
proof fn lemma_trimmed_start(s: Seq<char>, from: int)
    requires
        0 <= from <= s.len(),
        forall|i: int| 0 <= i < from ==> white_space(#[trigger] s[i]),
        from < s.len() ==> !white_space(s[from]),
    ensures
        trimmed_start(s) == s.subrange(from, s.len() as int),
    decreases from,
{
    if from == 0 {
        assert(s.subrange(0, s.len() as int) =~= s);
    } else {
        let t = s.subrange(1, s.len() as int);
        assert(white_space(s[0]));
        assert forall|i: int| 0 <= i < from - 1 implies white_space(#[trigger] t[i]) by {
            assert(t[i] == s[i + 1]);
        }
        lemma_trimmed_start(t, from - 1);
        assert(t.subrange(from - 1, t.len() as int) =~= s.subrange(from, s.len() as int));
    }
}

/// Trailing white space is a suffix, and what precedes it ends on a character
/// of another kind.
proof fn lemma_trimmed_end(s: Seq<char>, to: int)
    requires
        0 <= to <= s.len(),
        forall|i: int| to <= i < s.len() ==> white_space(#[trigger] s[i]),
        to > 0 ==> !white_space(s[to - 1]),
    ensures
        trimmed_end(s) == s.subrange(0, to),
    decreases s.len() - to,
{
    if to == s.len() {
        assert(s.subrange(0, to) =~= s);
    } else {
        let t = s.subrange(0, s.len() - 1);
        assert(white_space(s[s.len() - 1]));
        lemma_trimmed_end(t, to);
        assert(t.subrange(0, to) =~= s.subrange(0, to));
    }
}

/// A trimmed text is empty, or begins and ends on characters that are not
/// white space.
pub proof fn trimmed_has_clean_ends(s: Seq<char>)
    ensures
        trimmed(s).len() > 0 ==> !white_space(trimmed(s)[0]) && !white_space(
            trimmed(s)[trimmed(s).len() - 1],
        ),
{
    lemma_start_is_clean(s);
    lemma_end_is_clean(trimmed_start(s));
}

proof fn lemma_start_is_clean(s: Seq<char>)
    ensures
        trimmed_start(s).len() > 0 ==> !white_space(trimmed_start(s)[0]),
    decreases s.len(),
{
    if s.len() > 0 && white_space(s[0]) {
        lemma_start_is_clean(s.subrange(1, s.len() as int));
    }
}

proof fn lemma_end_is_clean(s: Seq<char>)
    ensures
        trimmed_end(s).len() > 0 ==> {
            &&& s.len() > 0
            &&& trimmed_end(s)[0] == s[0]
            &&& !white_space(trimmed_end(s)[trimmed_end(s).len() - 1])
        },
    decreases s.len(),
{
    if s.len() > 0 && white_space(s[s.len() - 1]) {
        lemma_end_is_clean(s.subrange(0, s.len() - 1));
    }
}

/// Trimming a text that is already trimmed leaves it alone.
pub proof fn trimming_twice_is_trimming_once(s: Seq<char>)
    ensures
        trimmed(trimmed(s)) == trimmed(s),
{
    trimmed_has_clean_ends(s);
}

/// A text begins with another when the rest of it follows, ends with it when the
/// rest comes before, and holds it when there is something before and after.
pub proof fn texts_stand_in_texts(s: Seq<char>, t: Seq<char>)
    ensures
        begins_with(s, t) <==> exists|rest: Seq<char>| s == #[trigger] (t + rest),
        finishes_with(s, t) <==> exists|rest: Seq<char>| s == #[trigger] (rest + t),
        holds_text(s, t) <==> exists|a: Seq<char>, b: Seq<char>| s == #[trigger] (a + t + b),
        forall|at: int|
            #[trigger] stands_at(s, t, at) <==> exists|a: Seq<char>, b: Seq<char>|
                a.len() == at && s == #[trigger] (a + t + b),
{
    let n = t.len() as int;
    let len = s.len() as int;
    if begins_with(s, t) {
        assert(s =~= t + s.subrange(n, len));
    }
    if exists|rest: Seq<char>| s == #[trigger] (t + rest) {
        assert(s.subrange(0, n) =~= t);
    }
    if finishes_with(s, t) {
        assert(s =~= s.subrange(0, len - n) + t);
    }
    if exists|rest: Seq<char>| s == #[trigger] (rest + t) {
        assert(s.subrange(len - n, len) =~= t);
    }
    assert forall|at: int|
        #[trigger] stands_at(s, t, at) <==> exists|a: Seq<char>, b: Seq<char>|
            a.len() == at && s == #[trigger] (a + t + b) by {
        if stands_at(s, t, at) {
            let a = s.subrange(0, at);
            let b = s.subrange(at + n, len);
            assert(s =~= a + t + b);
        }
        if exists|a: Seq<char>, b: Seq<char>| a.len() == at && s == #[trigger] (a + t + b) {
            let (a, b) = choose|a: Seq<char>, b: Seq<char>|
                a.len() == at && s == #[trigger] (a + t + b);
            assert(s.subrange(at, at + n) =~= t);
        }
    }
    if holds_text(s, t) {
        let at = choose|at: int| stands_at(s, t, at);
        assert(stands_at(s, t, at));
    }
    if exists|a: Seq<char>, b: Seq<char>| s == #[trigger] (a + t + b) {
        let (a, b) = choose|a: Seq<char>, b: Seq<char>| s == #[trigger] (a + t + b);
        assert(stands_at(s, t, a.len() as int));
    }
}

/// Trimming takes away white space at both ends and nothing else, and leaves none
/// there.
pub proof fn trimming_takes_only_white_space(s: Seq<char>) -> (r: (Seq<char>, Seq<char>))
    ensures
        s == r.0 + trimmed(s) + r.1,
        forall|i: int| 0 <= i < r.0.len() ==> white_space(#[trigger] r.0[i]),
        forall|i: int| 0 <= i < r.1.len() ==> white_space(#[trigger] r.1[i]),
        trimmed(s).len() > 0 ==> !white_space(trimmed(s)[0]) && !white_space(
            trimmed(s)[trimmed(s).len() - 1],
        ),
{
    trimmed_has_clean_ends(s);
    let a = lemma_start_taken(s);
    let b = lemma_end_taken(trimmed_start(s));
    assert(s =~= a + trimmed(s) + b);
    (a, b)
}

proof fn lemma_start_taken(s: Seq<char>) -> (a: Seq<char>)
    ensures
        s == a + trimmed_start(s),
        forall|i: int| 0 <= i < a.len() ==> white_space(#[trigger] a[i]),
    decreases s.len(),
{
    if s.len() > 0 && white_space(s[0]) {
        let t = s.subrange(1, s.len() as int);
        let rest = lemma_start_taken(t);
        let a = seq![s[0]] + rest;
        assert(trimmed_start(s) == trimmed_start(t));
        assert(s =~= seq![s[0]] + t);
        assert(a + trimmed_start(t) =~= seq![s[0]] + (rest + trimmed_start(t)));
        a
    } else {
        assert(s =~= Seq::empty() + s);
        Seq::empty()
    }
}

proof fn lemma_end_taken(s: Seq<char>) -> (b: Seq<char>)
    ensures
        s == trimmed_end(s) + b,
        forall|i: int| 0 <= i < b.len() ==> white_space(#[trigger] b[i]),
    decreases s.len(),
{
    if s.len() > 0 && white_space(s[s.len() - 1]) {
        let t = s.subrange(0, s.len() - 1);
        let rest = lemma_end_taken(t);
        let b = rest.push(s[s.len() - 1]);
        assert(trimmed_end(s) == trimmed_end(t));
        assert(s =~= t.push(s[s.len() - 1]));
        assert(trimmed_end(t) + b =~= (trimmed_end(t) + rest).push(s[s.len() - 1]));
        b
    } else {
        assert(s =~= s + Seq::empty());
        Seq::empty()
    }
}

/// The texts of a list are those of its strings, one by one.
pub proof fn texts_are_those_of_the_list(list: Seq<String>, i: int)
    requires
        0 <= i < list.len(),
    ensures
        texts(list).len() == list.len(),
        texts(list)[i] == list[i]@,
{
}

/// The characters of a text.
pub fn characters(s: &str) -> (r: Vec<char>)
    ensures
        r@ == s@,
{
    let mut out: Vec<char> = Vec::new();
    for c in it: s.chars()
        invariant
            it.seq() == s@,
            out@ == s@.subrange(0, it.index() as int),
    {
        out.push(c);
        assert(s@.subrange(0, it.index() + 1) =~= s@.subrange(0, it.index() as int).push(c));
    }
    assert(s@.subrange(0, s@.len() as int) =~= s@);
    out
}

/// Whether two texts are the same.
pub fn same(a: &str, b: &str) -> (r: bool)
    ensures
        r == (a@ == b@),
{
    let left = characters(a);
    let right = characters(b);
    assert(left@.len() == right@.len() ==> left@.subrange(0, right@.len() as int) =~= left@);
    left.len() == right.len() && matches_at(&left, &right, 0)
}

/// Whether `pattern` stands in `s` at index `at`.
pub fn matches_at(s: &Vec<char>, pattern: &Vec<char>, at: usize) -> (r: bool)
    ensures
        r == stands_at(s@, pattern@, at as int),
{
    if at > s.len() || pattern.len() > s.len() - at {
        return false;
    }
    let total: usize = s.len();
    let mut i: usize = 0;
    while i < pattern.len()
        invariant
            total == s@.len(),
            at + pattern@.len() <= total,
            i <= pattern@.len(),
            forall|k: int| 0 <= k < i ==> s@[at + k] == #[trigger] pattern@[k],
        decreases pattern@.len() - i,
    {
        if s[at + i] != pattern[i] {
            assert(s@.subrange(at as int, at + pattern@.len())[i as int] != pattern@[i as int]);
            return false;
        }
        i += 1;
    }
    assert(s@.subrange(at as int, at + pattern@.len()) =~= pattern@);
    true
}

/// The first place where `pattern` stands in `s`.
pub fn find(s: &Vec<char>, pattern: &Vec<char>) -> (r: Option<usize>)
    ensures
        match r {
            Some(at) => {
                &&& stands_at(s@, pattern@, at as int)
                &&& forall|k: int| 0 <= k < at ==> !stands_at(s@, pattern@, k)
            },
            None => !holds_text(s@, pattern@),
        },
{
    if pattern.len() > s.len() {
        return None;
    }
    let last: usize = s.len() - pattern.len();
    let mut at: usize = 0;
    loop
        invariant
            at <= last,
            last == s@.len() - pattern@.len(),
            forall|k: int| 0 <= k < at ==> !stands_at(s@, pattern@, k),
        decreases last - at,
    {
        if matches_at(s, pattern, at) {
            return Some(at);
        }
        if at == last {
            return None;
        }
        at += 1;
    }
}

/// Whether `s` begins with `prefix`.
pub fn starts_with(s: &str, prefix: &str) -> (r: bool)
    ensures
        r == begins_with(s@, prefix@),
{
    matches_at(&characters(s), &characters(prefix), 0)
}

/// Whether `s` ends with `suffix`.
pub fn ends_with(s: &str, suffix: &str) -> (r: bool)
    ensures
        r == finishes_with(s@, suffix@),
{
    let whole = characters(s);
    let part = characters(suffix);
    part.len() <= whole.len() && matches_at(&whole, &part, whole.len() - part.len())
}

/// Whether `pattern` stands anywhere in `s`.
pub fn contains(s: &str, pattern: &str) -> (r: bool)
    ensures
        r == holds_text(s@, pattern@),
{
    find(&characters(s), &characters(pattern)).is_some()
}

/// `s` without its leading and trailing white space.
pub fn trim(s: &str) -> (r: &str)
    ensures
        r@ == trimmed(s@),
{
    let chars = characters(s);
    let mut from: usize = 0;
    while from < chars.len() && chars[from].is_whitespace()
        invariant
            from <= chars@.len(),
            forall|i: int| 0 <= i < from ==> white_space(#[trigger] chars@[i]),
        decreases chars@.len() - from,
    {
        from += 1;
    }
    let ghost rest = chars@.subrange(from as int, chars@.len() as int);
    proof {
        lemma_trimmed_start(chars@, from as int);
    }
    let mut to: usize = chars.len();
    while to > from && chars[to - 1].is_whitespace()
        invariant
            from <= to <= chars@.len(),
            forall|i: int| to <= i < chars@.len() ==> white_space(#[trigger] chars@[i]),
        decreases to,
    {
        to -= 1;
    }
    proof {
        assert forall|i: int| to - from <= i < rest.len() implies white_space(#[trigger] rest[i]) by {
            assert(rest[i] == chars@[from + i]);
        }
        lemma_trimmed_end(rest, to - from);
        assert(rest.subrange(0, to - from) =~= chars@.subrange(from as int, to as int));
    }
    s.substring_char(from, to)
}

/// Two texts, one after the other.
pub fn concat2(a: &str, b: &str) -> (r: String)
    ensures
        r@ == a@ + b@,
{
    let mut out = a.to_owned();
    out.append(b);
    out
}

/// Three texts, one after another.
pub fn concat3(a: &str, b: &str, c: &str) -> (r: String)
    ensures
        r@ == a@ + b@ + c@,
{
    let mut out = concat2(a, b);
    out.append(c);
    out
}

/// Four texts, one after another.
pub fn concat4(a: &str, b: &str, c: &str, d: &str) -> (r: String)
    ensures
        r@ == a@ + b@ + c@ + d@,
{
    let mut out = concat3(a, b, c);
    out.append(d);
    out
}

/// Five texts, one after another.
pub fn concat5(a: &str, b: &str, c: &str, d: &str, e: &str) -> (r: String)
    ensures
        r@ == a@ + b@ + c@ + d@ + e@,
{
    let mut out = concat4(a, b, c, d);
    out.append(e);
    out
}

/// Six texts, one after another.
pub fn concat6(a: &str, b: &str, c: &str, d: &str, e: &str, f: &str) -> (r: String)
    ensures
        r@ == a@ + b@ + c@ + d@ + e@ + f@,
{
    let mut out = concat5(a, b, c, d, e);
    out.append(f);
    out
}

} // verus!
