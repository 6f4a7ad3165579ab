//! Text as a sequence of characters: trimming, splitting, searching and formatting.

use vstd::prelude::*;

verus! {

/// Appends one character.
///
/// Trusted: `std::string::String::push`, which "appends the given `char` to the end".
pub assume_specification[ String::push ](s: &mut String, c: char)
    ensures
        final(s)@ == old(s)@.push(c),
;

/// The `White_Space` property, character by character.
pub open spec fn is_space(c: char) -> bool {
    ||| 0x9 <= c as u32 <= 0xd
    ||| c as u32 == 0x20
    ||| c as u32 == 0x85
    ||| c as u32 == 0xa0
    ||| c as u32 == 0x1680
    ||| 0x2000 <= c as u32 <= 0x200a
    ||| c as u32 == 0x2028
    ||| c as u32 == 0x2029
    ||| c as u32 == 0x202f
    ||| c as u32 == 0x205f
    ||| c as u32 == 0x3000
}

/// `s` without its leading whitespace.
pub open spec fn trimmed_start(s: Seq<char>) -> Seq<char>
    decreases s.len(),
{
    if s.len() > 0 && is_space(s[0]) {
        trimmed_start(s.drop_first())
    } else {
        s
    }
}

/// `s` without its trailing whitespace.
pub open spec fn trimmed_end(s: Seq<char>) -> Seq<char>
    decreases s.len(),
{
    if s.len() > 0 && is_space(s.last()) {
        trimmed_end(s.drop_last())
    } else {
        s
    }
}

/// `s` without leading or trailing whitespace.
pub open spec fn trimmed(s: Seq<char>) -> Seq<char> {
    trimmed_end(trimmed_start(s))
}

/// Whether `pat` stands in `s` at position `i`.
pub open spec fn matches_at(s: Seq<char>, pat: Seq<char>, i: int) -> bool {
    0 <= i && i + pat.len() <= s.len() && s.subrange(i, i + pat.len()) == pat
}

/// The first position at or after `from` where `pat` stands in `s`.
pub open spec fn found_from(s: Seq<char>, pat: Seq<char>, from: int) -> Option<int>
    decreases s.len() + 1 - from,
{
    if from < 0 || from + pat.len() > s.len() {
        None
    } else if matches_at(s, pat, from) {
        Some(from)
    } else {
        found_from(s, pat, from + 1)
    }
}

/// The first position where `pat` stands in `s`.
pub open spec fn found(s: Seq<char>, pat: Seq<char>) -> Option<int> {
    found_from(s, pat, 0)
}

/// What is left of `s` behind `prefix`, if `s` starts with it.
pub open spec fn without_prefix(s: Seq<char>, prefix: Seq<char>) -> Option<Seq<char>> {
    if matches_at(s, prefix, 0) {
        Some(s.skip(prefix.len() as int))
    } else {
        None
    }
}

/// The characters of `s` up to the first `c`, all of `s` where there is none.
pub open spec fn before_char(s: Seq<char>, c: char) -> Seq<char>
    decreases s.len(),
{
    if s.len() == 0 || s[0] == c {
        Seq::empty()
    } else {
        seq![s[0]] + before_char(s.drop_first(), c)
    }
}

/// One line without the carriage return that ends it, if there is one.
pub open spec fn without_cr(line: Seq<char>) -> Seq<char> {
    if line.len() > 0 && line.last() == '\r' {
        line.drop_last()
    } else {
        line
    }
}

/// The lines of `s`. A line feed ends a line, a carriage return before it belongs to the ending,
/// and there is no empty line behind a final line feed.
pub open spec fn lines_of(s: Seq<char>) -> Seq<Seq<char>>
    decreases s.len(),
{
    if s.len() == 0 {
        Seq::empty()
    } else {
        let head = before_char(s, '\n');
        if head.len() < s.len() {
            seq![without_cr(head)] + lines_of(s.skip(head.len() as int + 1))
        } else {
            seq![s]
        }
    }
}

/// The view of each string of a sequence.
pub open spec fn views(v: Seq<String>) -> Seq<Seq<char>> {
    Seq::new(v.len(), |i: int| v[i]@)
}

/// The view of each string slice of a sequence.
pub open spec fn str_views(v: Seq<&str>) -> Seq<Seq<char>> {
    Seq::new(v.len(), |i: int| v[i]@)
}

/// The view of an optional string.
pub open spec fn opt_view(o: Option<String>) -> Option<Seq<char>> {
    match o {
        Some(s) => Some(s@),
        None => None,
    }
}

/// The decimal digits of `n`, without leading zeros.
pub open spec fn decimal_of(n: nat) -> Seq<char>
    decreases n,
{
    if n < 10 {
        seq![digit_char(n)]
    } else {
        decimal_of(n / 10).push(digit_char(n % 10))
    }
}

/// The character of one decimal digit.
pub open spec fn digit_char(d: nat) -> char {
    (('0' as u32) + d) as char
}

pub proof fn lemma_before_char(s: Seq<char>, c: char)
    ensures
        before_char(s, c).len() <= s.len(),
        before_char(s, c) == s.take(before_char(s, c).len() as int),
        forall|i: int| 0 <= i < before_char(s, c).len() ==> s[i] != c,
        before_char(s, c).len() < s.len() ==> s[before_char(s, c).len() as int] == c,
    decreases s.len(),
{
    if s.len() > 0 && s[0] != c {
        let t = s.drop_first();
        lemma_before_char(t, c);
        let n = before_char(t, c).len() as int;
        assert(before_char(s, c) =~= s.take(n + 1));
        assert forall|i: int| 0 <= i < before_char(s, c).len() implies s[i] != c by {
            if i > 0 {
                assert(s[i] == t[i - 1]);
            }
        }
        if n < t.len() {
            assert(s[n + 1] == t[n]);
        }
    } else {
        assert(before_char(s, c) =~= s.take(0));
    }
}

/// Where `before_char` ends is where the first `c` stands.
pub proof fn lemma_before_char_is(s: Seq<char>, c: char, n: int)
    requires
        0 <= n <= s.len(),
        forall|i: int| 0 <= i < n ==> s[i] != c,
        n < s.len() ==> s[n] == c,
    ensures
        before_char(s, c) == s.take(n),
    decreases s.len(),
{
    lemma_before_char(s, c);
    let m = before_char(s, c).len() as int;
    if m < n {
        assert(s[m] == c);
    }
    if n < m {
        assert(s[n] != c);
    }
}

pub proof fn lemma_found_from(s: Seq<char>, pat: Seq<char>, from: int)
    requires
        0 <= from,
    ensures
        match found_from(s, pat, from) {
            Some(p) => from <= p && matches_at(s, pat, p) && forall|j: int|
                from <= j < p ==> !matches_at(s, pat, j),
            None => forall|j: int| from <= j ==> !matches_at(s, pat, j),
        },
    decreases s.len() + 1 - from,
{
    if from + pat.len() <= s.len() && !matches_at(s, pat, from) {
        lemma_found_from(s, pat, from + 1);
    }
}

/// The position that `found` names, given any proof that it is the first one.
pub proof fn lemma_found_is(s: Seq<char>, pat: Seq<char>, p: int)
    requires
        matches_at(s, pat, p),
        forall|j: int| 0 <= j < p ==> !matches_at(s, pat, j),
    ensures
        found(s, pat) == Some(p),
{
    lemma_found_from(s, pat, 0);
}

/// Collects the characters of a string.
pub fn chars_of(s: &str) -> (v: Vec<char>)
    ensures
        v@ == s@,
{
    let mut v: Vec<char> = Vec::new();
    for c in iter: s.chars()
        invariant
            iter.seq() == s@,
            v@ == s@.take(iter.index() as int),
    {
        v.push(c);
    }
    v
}

/// Builds a string from characters.
pub fn string_of(chars: &Vec<char>, from: usize, to: usize) -> (r: String)
    requires
        from <= to <= chars@.len(),
    ensures
        r@ == chars@.subrange(from as int, to as int),
{
    let mut r = String::new();
    let mut i: usize = from;
    while i < to
        invariant
            from <= i <= to <= chars@.len(),
            r@ == chars@.subrange(from as int, i as int),
        decreases to - i,
    {
        r.push(chars[i]);
        i += 1;
    }
    r
}

/// Whether two strings hold the same characters.
pub fn same(a: &str, b: &str) -> (r: bool)
    ensures
        r == (a@ == b@),
{
    let x = chars_of(a);
    let y = chars_of(b);
    if x.len() != y.len() {
        return false;
    }
    let mut i: usize = 0;
    while i < x.len()
        invariant
            i <= x@.len() == y@.len(),
            x@ == a@,
            y@ == b@,
            forall|j: int| 0 <= j < i ==> x@[j] == y@[j],
        decreases x@.len() - i,
    {
        if x[i] != y[i] {
            return false;
        }
        i += 1;
    }
    assert(a@ =~= b@);
    true
}

/// Joins two strings.
pub fn join(a: &str, b: &str) -> (r: String)
    ensures
        r@ == a@ + b@,
{
    let mut r = a.to_owned();
    r.append(b);
    r
}

/// Joins three strings.
pub fn join3(a: &str, b: &str, c: &str) -> (r: String)
    ensures
        r@ == a@ + b@ + c@,
{
    let mut r = a.to_owned();
    r.append(b);
    r.append(c);
    r
}

/// Whether a character has the `White_Space` property.
pub fn whitespace(c: char) -> (r: bool)
    ensures
        r == is_space(c),
{
    let u: u32 = c as u32;
    (0x9 <= u && u <= 0xd) || u == 0x20 || u == 0x85 || u == 0xa0 || u == 0x1680 || (0x2000 <= u && u
        <= 0x200a) || u == 0x2028 || u == 0x2029 || u == 0x202f || u == 0x205f || u == 0x3000
}

proof fn lemma_trimmed_start_at(s: Seq<char>, n: int)
    requires
        0 <= n <= s.len(),
        forall|i: int| 0 <= i < n ==> is_space(s[i]),
        n < s.len() ==> !is_space(s[n]),
    ensures
        trimmed_start(s) == s.skip(n),
    decreases s.len(),
{
    if n > 0 {
        let t = s.drop_first();
        assert forall|i: int| 0 <= i < n - 1 implies is_space(t[i]) by {
            assert(t[i] == s[i + 1]);
        }
        lemma_trimmed_start_at(t, n - 1);
        assert(t.skip(n - 1) =~= s.skip(n));
    } else {
        assert(s.skip(0) =~= s);
    }
}

proof fn lemma_trimmed_end_at(s: Seq<char>, n: int)
    requires
        0 <= n <= s.len(),
        forall|i: int| n <= i < s.len() ==> is_space(s[i]),
        n > 0 ==> !is_space(s[n - 1]),
    ensures
        trimmed_end(s) == s.take(n),
    decreases s.len(),
{
    if n < s.len() {
        let t = s.drop_last();
        lemma_trimmed_end_at(t, n);
        assert(t.take(n) =~= s.take(n));
    } else {
        assert(s.take(n) =~= s);
    }
}

/// Drops leading whitespace.
pub fn trim_start(s: &str) -> (r: &str)
    ensures
        r@ == trimmed_start(s@),
{
    let v = chars_of(s);
    let mut n: usize = 0;
    while n < v.len() && whitespace(v[n])
        invariant
            n <= v@.len(),
            v@ == s@,
            forall|i: int| 0 <= i < n ==> is_space(s@[i]),
        decreases v@.len() - n,
    {
        n += 1;
    }
    proof {
        lemma_trimmed_start_at(s@, n as int);
        assert(s@.skip(n as int) =~= s@.subrange(n as int, v@.len() as int));
    }
    s.substring_char(n, v.len())
}

/// Drops trailing whitespace.
pub fn trim_end(s: &str) -> (r: &str)
    ensures
        r@ == trimmed_end(s@),
{
    let v = chars_of(s);
    let mut n: usize = v.len();
    while n > 0 && whitespace(v[n - 1])
        invariant
            n <= v@.len(),
            v@ == s@,
            forall|i: int| n <= i < v@.len() ==> is_space(s@[i]),
        decreases n,
    {
        n -= 1;
    }
    proof {
        lemma_trimmed_end_at(s@, n as int);
        assert(s@.take(n as int) =~= s@.subrange(0, n as int));
    }
    s.substring_char(0, n)
}

/// Drops leading and trailing whitespace.
pub fn trim(s: &str) -> (r: &str)
    ensures
        r@ == trimmed(s@),
{
    trim_end(trim_start(s))
}

fn match_at(s: &Vec<char>, pat: &Vec<char>, i: usize) -> (r: bool)
    requires
        i + pat@.len() <= s@.len(),
    ensures
        r == matches_at(s@, pat@, i as int),
{
    let len: usize = s.len();
    let mut k: usize = 0;
    while k < pat.len()
        invariant
            k <= pat@.len(),
            i + pat@.len() <= s@.len() == len,
            forall|j: int| 0 <= j < k ==> s@[i + j] == pat@[j],
        decreases pat@.len() - k,
    {
        if s[i + k] != pat[k] {
            assert(s@.subrange(i as int, i + pat@.len())[k as int] != pat@[k as int]);
            return false;
        }
        k += 1;
    }
    assert(s@.subrange(i as int, i + pat@.len()) =~= pat@);
    true
}

/// Finds the first place where `pat` stands in `s`, counted in characters.
pub fn find(s: &str, pat: &str) -> (r: Option<usize>)
    ensures
        match r {
            Some(p) => found(s@, pat@) == Some(p as int),
            None => found(s@, pat@) is None,
        },
{
    let v = chars_of(s);
    let p = chars_of(pat);
    if p.len() > v.len() {
        return None;
    }
    let last: usize = v.len() - p.len();
    let mut i: usize = 0;
    loop
        invariant_except_break
            forall|j: int| 0 <= j < i ==> !matches_at(s@, pat@, j),
        invariant
            v@ == s@,
            p@ == pat@,
            i <= last,
            last + p@.len() == v@.len(),
        ensures
            forall|j: int| 0 <= j ==> !matches_at(s@, pat@, j),
        decreases last - i,
    {
        if match_at(&v, &p, i) {
            proof {
                lemma_found_is(s@, pat@, i as int);
            }
            return Some(i);
        }
        if i == last {
            break;
        }
        i += 1;
    }
    proof {
        lemma_found_from(s@, pat@, 0);
    }
    None
}

/// Whether `pat` stands somewhere in `s`.
pub fn contains(s: &str, pat: &str) -> (r: bool)
    ensures
        r == (found(s@, pat@) is Some),
{
    find(s, pat).is_some()
}

/// Whether `s` starts with `prefix`.
pub fn starts_with(s: &str, prefix: &str) -> (r: bool)
    ensures
        r == matches_at(s@, prefix@, 0),
{
    let v = chars_of(s);
    let p = chars_of(prefix);
    p.len() <= v.len() && match_at(&v, &p, 0)
}

/// Returns what follows `prefix`, if `s` starts with it.
pub fn strip_prefix<'a>(s: &'a str, prefix: &str) -> (r: Option<&'a str>)
    ensures
        match r {
            Some(rest) => without_prefix(s@, prefix@) == Some(rest@),
            None => without_prefix(s@, prefix@) is None,
        },
{
    if starts_with(s, prefix) {
        let n: usize = prefix.unicode_len();
        let m: usize = s.unicode_len();
        assert(s@.skip(n as int) =~= s@.subrange(n as int, m as int));
        Some(s.substring_char(n, m))
    } else {
        None
    }
}

/// Returns what stands before the first `c`, or all of `s`.
pub fn until_char(s: &str, c: char) -> (r: &str)
    ensures
        r@ == before_char(s@, c),
{
    let v = chars_of(s);
    let mut n: usize = 0;
    while n < v.len() && v[n] != c
        invariant
            n <= v@.len(),
            v@ == s@,
            forall|i: int| 0 <= i < n ==> s@[i] != c,
        decreases v@.len() - n,
    {
        n += 1;
    }
    proof {
        lemma_before_char_is(s@, c, n as int);
        assert(s@.take(n as int) =~= s@.subrange(0, n as int));
    }
    s.substring_char(0, n)
}

proof fn lemma_lines_step(s: Seq<char>, n: int)
    requires
        0 <= n < s.len(),
        forall|i: int| 0 <= i < n ==> s[i] != '\n',
        s[n] == '\n',
    ensures
        lines_of(s) == seq![without_cr(s.take(n))] + lines_of(s.skip(n + 1)),
{
    lemma_before_char_is(s, '\n', n);
}

proof fn lemma_lines_last(s: Seq<char>)
    requires
        s.len() > 0,
        forall|i: int| 0 <= i < s.len() ==> s[i] != '\n',
    ensures
        lines_of(s) == seq![s],
{
    lemma_before_char_is(s, '\n', s.len() as int);
    assert(s.take(s.len() as int) =~= s);
}

/// The lines of two texts, the first of which ends with a line, are those of the one and of the other.
pub proof fn lemma_lines_concat(a: Seq<char>, b: Seq<char>)
    requires
        a.len() > 0 ==> a.last() == '\n',
    ensures
        lines_of(a + b) == lines_of(a) + lines_of(b),
    decreases a.len(),
{
    if a.len() == 0 {
        assert(a + b =~= b);
        assert(lines_of(a) + lines_of(b) =~= lines_of(b));
    } else {
        lemma_before_char(a, '\n');
        let n = before_char(a, '\n').len() as int;
        assert(n < a.len()) by {
            if n == a.len() {
                assert(a[n - 1] != '\n');
            }
        }
        let rest = a.skip(n + 1);
        assert forall|i: int| 0 <= i < n implies (a + b)[i] != '\n' by {
            assert((a + b)[i] == a[i]);
        }
        lemma_lines_step(a, n);
        lemma_lines_step(a + b, n);
        assert((a + b).take(n) =~= a.take(n));
        assert((a + b).skip(n + 1) =~= rest + b);
        if rest.len() > 0 {
            assert(rest.last() == a.last());
        }
        lemma_lines_concat(rest, b);
        assert(lines_of(a + b) =~= lines_of(a) + lines_of(b));
    }
}

/// Splits a text into its lines.
pub fn lines(s: &str) -> (r: Vec<String>)
    ensures
        views(r@) == lines_of(s@),
{
    let v = chars_of(s);
    let mut r: Vec<String> = Vec::new();
    let mut start: usize = 0;
    let mut i: usize = 0;
    assert(s@.skip(0) =~= s@);
    while i < v.len()
        invariant
            start <= i <= v@.len(),
            v@ == s@,
            forall|j: int| start <= j < i ==> s@[j] != '\n',
            lines_of(s@) == views(r@) + lines_of(s@.skip(start as int)),
        decreases v@.len() - i,
    {
        if v[i] == '\n' {
            let ghost rest = s@.skip(start as int);
            let ghost n = i - start;
            proof {
                assert(rest[n] == '\n');
                lemma_lines_step(rest, n);
                assert(rest.skip(n + 1) =~= s@.skip(i + 1));
                assert(rest.take(n) =~= s@.subrange(start as int, i as int));
            }
            let ghost before = r@;
            if i > start && v[i - 1] == '\r' {
                r.push(string_of(&v, start, i - 1));
                assert(s@.subrange(start as int, i - 1) =~= rest.take(n).drop_last());
            } else {
                r.push(string_of(&v, start, i));
            }
            proof {
                assert(views(r@) =~= views(before) + seq![without_cr(rest.take(n))]);
                assert(lines_of(s@) =~= views(r@) + lines_of(s@.skip(i + 1)));
            }
            start = i + 1;
        }
        i += 1;
    }
    let ghost rest = s@.skip(start as int);
    if start < v.len() {
        let ghost before = r@;
        proof {
            lemma_lines_last(rest);
            assert(s@.subrange(start as int, i as int) =~= rest);
        }
        r.push(string_of(&v, start, i));
        assert(views(r@) =~= views(before) + seq![rest]);
    }
    assert(views(r@) =~= lines_of(s@));
    r
}

/// Writes a number in decimal digits.
pub fn decimal(n: u64) -> (r: String)
    ensures
        r@ == decimal_of(n as nat),
    decreases n,
{
    let d: u64 = n % 10;
    let c: char = if d == 0 {
        '0'
    } else if d == 1 {
        '1'
    } else if d == 2 {
        '2'
    } else if d == 3 {
        '3'
    } else if d == 4 {
        '4'
    } else if d == 5 {
        '5'
    } else if d == 6 {
        '6'
    } else if d == 7 {
        '7'
    } else if d == 8 {
        '8'
    } else {
        '9'
    };
    let mut r = if n < 10 {
        String::new()
    } else {
        decimal(n / 10)
    };
    r.push(c);
    assert(c == digit_char((n % 10) as nat));
    assert(n < 10 ==> r@ =~= seq![c]);
    r
}

/// The decimal form of an integer, with a minus sign in front of a negative one.
pub open spec fn signed_decimal_of(n: int) -> Seq<char> {
    if n < 0 {
        seq!['-'] + decimal_of((-n) as nat)
    } else {
        decimal_of(n as nat)
    }
}

/// Writes a signed number in decimal digits.
pub fn signed_decimal(n: i32) -> (r: String)
    ensures
        r@ == signed_decimal_of(n as int),
{
    if n < 0 {
        let mut r = String::new();
        r.push('-');
        let magnitude: i64 = -(n as i64);
        r.append(decimal(magnitude as u64).as_str());
        assert(r@ =~= signed_decimal_of(n as int));
        r
    } else {
        decimal(n as u64)
    }
}

/// `s` with every `from` replaced by `to`.
pub open spec fn replaced(s: Seq<char>, from: char, to: char) -> Seq<char> {
    Seq::new(
        s.len(),
        |i: int|
            if s[i] == from {
                to
            } else {
                s[i]
            },
    )
}

/// Replaces one character by another.
pub fn replace_char(s: &str, from: char, to: char) -> (r: String)
    ensures
        r@ == replaced(s@, from, to),
{
    let v = chars_of(s);
    let mut r = String::new();
    let mut i: usize = 0;
    while i < v.len()
        invariant
            i <= v@.len(),
            v@ == s@,
            r@ == replaced(s@, from, to).take(i as int),
        decreases v@.len() - i,
    {
        r.push(
            if v[i] == from {
                to
            } else {
                v[i]
            },
        );
        i += 1;
        assert(r@ =~= replaced(s@, from, to).take(i as int));
    }
    assert(r@ =~= replaced(s@, from, to));
    r
}

/// The view of an optional string slice.
pub open spec fn opt_str_view(o: Option<&str>) -> Option<Seq<char>> {
    match o {
        Some(s) => Some(s@),
        None => None,
    }
}

proof fn lemma_views_push(v: Seq<String>, s: String)
    ensures
        views(v.push(s)) == views(v).push(s@),
{
    assert(views(v.push(s)) =~= views(v).push(s@));
}

/// Appends a string to a list.
pub fn push_string(v: &mut Vec<String>, s: String)
    ensures
        views(final(v)@) == views(old(v)@).push(s@),
{
    proof {
        lemma_views_push(v@, s);
    }
    v.push(s);
}

/// Appends a copy of every string of a list to another.
pub fn push_all(v: &mut Vec<String>, more: &Vec<String>)
    ensures
        views(final(v)@) == views(old(v)@) + views(more@),
{
    let ghost before = views(v@);
    let ghost all = views(more@);
    let mut i: usize = 0;
    assert(before + all.take(0) =~= before);
    while i < more.len()
        invariant
            i <= more@.len(),
            all == views(more@),
            views(v@) == before + all.take(i as int),
        decreases more@.len() - i,
    {
        push_string(v, more[i].clone());
        assert(all.take(i + 1) =~= all.take(i as int).push(all[i as int]));
        assert(views(v@) =~= before + all.take(i + 1));
        i += 1;
    }
    assert(all.take(i as int) =~= all);
}

/// The length of the run of non-whitespace that `s` starts with.
pub open spec fn word_len(s: Seq<char>) -> nat
    decreases s.len(),
{
    if s.len() == 0 || is_space(s[0]) {
        0
    } else {
        1 + word_len(s.drop_first())
    }
}

proof fn lemma_word_len(s: Seq<char>)
    ensures
        word_len(s) <= s.len(),
        forall|i: int| 0 <= i < word_len(s) ==> !is_space(s[i]),
        word_len(s) < s.len() ==> is_space(s[word_len(s) as int]),
    decreases s.len(),
{
    if s.len() > 0 && !is_space(s[0]) {
        let t = s.drop_first();
        lemma_word_len(t);
        assert forall|i: int| 0 <= i < word_len(s) implies !is_space(s[i]) by {
            if i > 0 {
                assert(s[i] == t[i - 1]);
            }
        }
        if word_len(s) < s.len() {
            assert(s[word_len(s) as int] == t[word_len(t) as int]);
        }
    }
}

proof fn lemma_trimmed_start_len(s: Seq<char>)
    ensures
        trimmed_start(s).len() <= s.len(),
        trimmed_start(s).len() > 0 ==> !is_space(trimmed_start(s)[0]),
    decreases s.len(),
{
    if s.len() > 0 && is_space(s[0]) {
        lemma_trimmed_start_len(s.drop_first());
    }
}

/// The words of `s`: what stands between whitespace.
pub open spec fn words_of(s: Seq<char>) -> Seq<Seq<char>>
    decreases s.len(),
    via words_of_decreases
{
    let t = trimmed_start(s);
    if t.len() == 0 {
        Seq::empty()
    } else {
        seq![t.take(word_len(t) as int)] + words_of(t.skip(word_len(t) as int))
    }
}

#[via_fn]
proof fn words_of_decreases(s: Seq<char>) {
    lemma_trimmed_start_len(s);
    lemma_word_len(trimmed_start(s));
}

proof fn lemma_word_len_is(s: Seq<char>, n: int)
    requires
        0 <= n <= s.len(),
        forall|i: int| 0 <= i < n ==> !is_space(s[i]),
        n < s.len() ==> is_space(s[n]),
    ensures
        word_len(s) == n,
{
    lemma_word_len(s);
    if word_len(s) < n {
        assert(!is_space(s[word_len(s) as int]));
    }
    if n < word_len(s) {
        assert(is_space(s[n]));
    }
}

/// Splits a text at whitespace.
pub fn words(s: &str) -> (r: Vec<String>)
    ensures
        views(r@) == words_of(s@),
{
    let v = chars_of(s);
    let mut r: Vec<String> = Vec::new();
    let mut i: usize = 0;
    assert(s@.skip(0) =~= s@);
    assert(views(r@) + words_of(s@) =~= words_of(s@));
    while i < v.len()
        invariant
            i <= v@.len(),
            v@ == s@,
            words_of(s@) == views(r@) + words_of(s@.skip(i as int)),
        decreases v@.len() - i,
    {
        let ghost rest = s@.skip(i as int);
        let ghost from = i as int;
        if whitespace(v[i]) {
            proof {
                assert(rest.drop_first() =~= s@.skip(i + 1));
                assert(trimmed_start(rest) == trimmed_start(rest.drop_first()));
            }
            i += 1;
        } else {
            let start: usize = i;
            while i < v.len() && !whitespace(v[i])
                invariant
                    start <= i <= v@.len(),
                    v@ == s@,
                    forall|j: int| start <= j < i ==> !is_space(s@[j]),
                decreases v@.len() - i,
            {
                i += 1;
            }
            proof {
                assert(!is_space(rest[0]));
                assert(i > start);
                assert(trimmed_start(rest) == rest);
                lemma_word_len_is(rest, i - start);
                assert(rest.take(i - start) =~= s@.subrange(start as int, i as int));
                assert(rest.skip(i - start) =~= s@.skip(i as int));
            }
            let ghost before = views(r@);
            push_string(&mut r, string_of(&v, start, i));
            assert(before + words_of(rest) =~= views(r@) + words_of(s@.skip(i as int)));
        }
    }
    assert(s@.skip(i as int).len() == 0);
    assert(views(r@) + words_of(s@.skip(i as int)) =~= views(r@));
    r
}

/// The last position of `c` in `s`, -1 where there is none.
pub open spec fn last_index(s: Seq<char>, c: char) -> int
    decreases s.len(),
{
    if s.len() == 0 {
        -1
    } else if s.last() == c {
        s.len() - 1
    } else {
        last_index(s.drop_last(), c)
    }
}

/// `s` without the `c`s it starts with.
pub open spec fn without_leading(s: Seq<char>, c: char) -> Seq<char>
    decreases s.len(),
{
    if s.len() > 0 && s[0] == c {
        without_leading(s.drop_first(), c)
    } else {
        s
    }
}

/// `s` without the `c`s it ends with.
pub open spec fn without_trailing(s: Seq<char>, c: char) -> Seq<char>
    decreases s.len(),
{
    if s.len() > 0 && s.last() == c {
        without_trailing(s.drop_last(), c)
    } else {
        s
    }
}

/// Finds the first and the last place of a character.
pub fn first_and_last(s: &str, c: char) -> (r: Option<(usize, usize)>)
    ensures
        match r {
            Some((first, last)) => before_char(s@, c).len() == first && first <= last < s@.len()
                && last_index(s@, c) == last,
            None => before_char(s@, c).len() == s@.len() && last_index(s@, c) == -1,
        },
{
    let v = chars_of(s);
    let mut first: Option<usize> = None;
    let mut last: usize = 0;
    let mut i: usize = 0;
    while i < v.len()
        invariant
            i <= v@.len(),
            v@ == s@,
            match first {
                Some(f) => f <= last < i && s@[f as int] == c && (forall|j: int|
                    0 <= j < f ==> s@[j] != c) && last_index(s@.take(i as int), c) == last,
                None => (forall|j: int| 0 <= j < i ==> s@[j] != c) && last_index(
                    s@.take(i as int),
                    c,
                ) == -1,
            },
        decreases v@.len() - i,
    {
        proof {
            assert(s@.take(i + 1).drop_last() =~= s@.take(i as int));
            assert(s@.take(i + 1).last() == s@[i as int]);
        }
        if v[i] == c {
            last = i;
            if first.is_none() {
                first = Some(i);
            }
        }
        i += 1;
    }
    assert(s@.take(i as int) =~= s@);
    match first {
        Some(f) => {
            proof {
                lemma_before_char_is(s@, c, f as int);
            }
            Some((f, last))
        },
        None => {
            proof {
                lemma_before_char_is(s@, c, i as int);
            }
            None
        },
    }
}

/// Drops a character from both ends.
pub fn trim_char(s: &str, c: char) -> (r: &str)
    ensures
        r@ == without_trailing(without_leading(s@, c), c),
{
    let v = chars_of(s);
    let mut a: usize = 0;
    assert(s@.skip(0) =~= s@);
    while a < v.len() && v[a] == c
        invariant
            a <= v@.len(),
            v@ == s@,
            without_leading(s@.skip(a as int), c) == without_leading(s@, c),
        decreases v@.len() - a,
    {
        assert(s@.skip(a as int).drop_first() =~= s@.skip(a + 1));
        a += 1;
    }
    let ghost lead = s@.skip(a as int);
    assert(lead == without_leading(s@, c));
    let mut b: usize = v.len();
    assert(lead =~= s@.subrange(a as int, b as int));
    while b > a && v[b - 1] == c
        invariant
            a <= b <= v@.len(),
            v@ == s@,
            without_trailing(s@.subrange(a as int, b as int), c) == without_trailing(lead, c),
        decreases b,
    {
        assert(s@.subrange(a as int, b as int).drop_last() =~= s@.subrange(a as int, b - 1));
        b -= 1;
    }
    s.substring_char(a, b)
}

/// The number that a row of decimal digits stands for.
pub open spec fn value_of(digits: Seq<char>) -> int
    decreases digits.len(),
{
    if digits.len() == 0 {
        0
    } else {
        10 * value_of(digits.drop_last()) + (digits.last() as u32 - '0' as u32)
    }
}

/// Reading a written number gives the number back, and no number is written with a leading zero.
pub proof fn law_written_number_is_read_back(n: u64, r: String)
    requires
        call_ensures(decimal, (n,), r),
    ensures
        value_of(r@) == n,
        r@.len() > 0,
        forall|i: int| 0 <= i < r@.len() ==> '0' <= #[trigger] r@[i] <= '9',
        n > 0 ==> r@[0] != '0',
        n == 0 ==> r@ == seq!['0'],
{
    lemma_decimal(n as nat);
}

/// A number reads back as itself.
pub proof fn lemma_decimal(n: nat)
    ensures
        value_of(decimal_of(n)) == n,
        decimal_of(n).len() > 0,
        forall|i: int| 0 <= i < decimal_of(n).len() ==> '0' <= #[trigger] decimal_of(n)[i] <= '9',
        n > 0 ==> decimal_of(n)[0] != '0',
        n == 0 ==> decimal_of(n) == seq!['0'],
    decreases n,
{
    reveal_with_fuel(value_of, 2);
    if n < 10 {
        assert(decimal_of(n).drop_last() =~= Seq::empty());
    } else {
        lemma_decimal(n / 10);
        assert(decimal_of(n).drop_last() =~= decimal_of(n / 10));
    }
}

/// Two numbers that are written alike are one number.
pub proof fn law_numbers_are_told_apart(a: nat, b: nat)
    requires
        decimal_of(a) == decimal_of(b),
    ensures
        a == b,
{
    lemma_decimal(a);
    lemma_decimal(b);
}

/// A negative number is its absolute value behind a minus sign, any other one is written as it is.
pub proof fn law_sign_stands_in_front(n: i32, r: String)
    requires
        call_ensures(signed_decimal, (n,), r),
    ensures
        n < 0 ==> r@.len() > 1 && r@[0] == '-' && value_of(r@.skip(1)) == -n && r@[1] != '0',
        n >= 0 ==> value_of(r@) == n && '0' <= r@[0] <= '9',
        forall|i: int| 1 <= i < r@.len() ==> '0' <= #[trigger] r@[i] <= '9',
{
    if n < 0 {
        lemma_decimal((-n) as nat);
        assert(r@.skip(1) =~= decimal_of((-n) as nat));
    } else {
        lemma_decimal(n as nat);
    }
}

/// The characters that count as whitespace, and no others: those of ASCII, and those that Unicode
/// adds.
pub proof fn law_whitespace_is_unicodes(c: char, r: bool)
    requires
        call_ensures(whitespace, (c,), r),
    ensures
        r <==> seq![
            0x9u32, 0xa, 0xb, 0xc, 0xd, 0x20, 0x85, 0xa0, 0x1680, 0x2000, 0x2001, 0x2002, 0x2003,
            0x2004, 0x2005, 0x2006, 0x2007, 0x2008, 0x2009, 0x200a, 0x2028, 0x2029, 0x202f, 0x205f,
            0x3000,
        ].contains(c as u32),
{
    let all = seq![
        0x9u32, 0xa, 0xb, 0xc, 0xd, 0x20, 0x85, 0xa0, 0x1680, 0x2000, 0x2001, 0x2002, 0x2003,
        0x2004, 0x2005, 0x2006, 0x2007, 0x2008, 0x2009, 0x200a, 0x2028, 0x2029, 0x202f, 0x205f,
        0x3000,
    ];
    let u = c as u32;
    assert(all[0] == 0x9 && all[1] == 0xa && all[2] == 0xb && all[3] == 0xc && all[4] == 0xd);
    assert(all[5] == 0x20 && all[6] == 0x85 && all[7] == 0xa0 && all[8] == 0x1680);
    assert(all[9] == 0x2000 && all[10] == 0x2001 && all[11] == 0x2002 && all[12] == 0x2003);
    assert(all[13] == 0x2004 && all[14] == 0x2005 && all[15] == 0x2006 && all[16] == 0x2007);
    assert(all[17] == 0x2008 && all[18] == 0x2009 && all[19] == 0x200a && all[20] == 0x2028);
    assert(all[21] == 0x2029 && all[22] == 0x202f && all[23] == 0x205f && all[24] == 0x3000);
    if all.contains(u) {
        let i = choose|i: int| 0 <= i < all.len() && all[i] == u;
        assert(0 <= i < 25);
    }
}

/// Trimming takes whitespace off both ends and nothing else: what is left stands in the text between
/// whitespace, and neither starts nor ends with any.
pub proof fn law_trimming_takes_the_outer_whitespace(s: &str, r: &str)
    requires
        call_ensures(trim, (s,), r),
    ensures
        exists|a: int, b: int|
            0 <= a <= b <= s@.len() && r@ == #[trigger] s@.subrange(a, b) && (forall|i: int|
                (0 <= i < a || b <= i < s@.len()) ==> is_space(#[trigger] s@[i])),
        r@.len() > 0 ==> !is_space(r@[0]) && !is_space(r@.last()),
        r@.len() == 0 <==> (forall|i: int| 0 <= i < s@.len() ==> is_space(#[trigger] s@[i])),
{
    lemma_trimmed(s@);
}

/// What [`trimmed`] leaves, in its place.
pub proof fn lemma_trimmed(s: Seq<char>)
    ensures
        exists|a: int, b: int|
            0 <= a <= b <= s.len() && trimmed(s) == #[trigger] s.subrange(a, b) && (forall|i: int|
                (0 <= i < a || b <= i < s.len()) ==> is_space(#[trigger] s[i])),
        trimmed(s).len() > 0 ==> !is_space(trimmed(s)[0]) && !is_space(trimmed(s).last()),
        trimmed(s).len() == 0 <==> (forall|i: int| 0 <= i < s.len() ==> is_space(#[trigger] s[i])),
{
    let a = lemma_trimmed_start_place(s);
    let t = s.skip(a);
    let n = lemma_trimmed_end_place(t);
    let b = a + n;
    assert(trimmed(s) =~= s.subrange(a, b));
    assert forall|i: int| (0 <= i < a || b <= i < s.len()) implies is_space(#[trigger] s[i]) by {
        if i >= b {
            assert(s[i] == t[i - a]);
        }
    }
    if trimmed(s).len() > 0 {
        assert(trimmed(s)[0] == s[a]);
        assert(!is_space(t[n - 1]));
        assert(trimmed(s).last() == t[n - 1]);
    }
}

proof fn lemma_trimmed_start_place(s: Seq<char>) -> (a: int)
    ensures
        0 <= a <= s.len(),
        trimmed_start(s) == s.skip(a),
        forall|i: int| 0 <= i < a ==> is_space(#[trigger] s[i]),
        a < s.len() ==> !is_space(s[a]),
    decreases s.len(),
{
    if s.len() > 0 && is_space(s[0]) {
        let t = s.drop_first();
        let a = lemma_trimmed_start_place(t);
        assert forall|i: int| 0 <= i < a + 1 implies is_space(#[trigger] s[i]) by {
            if i > 0 {
                assert(s[i] == t[i - 1]);
            }
        }
        assert(s.skip(a + 1) =~= t.skip(a));
        if a < t.len() {
            assert(s[a + 1] == t[a]);
        }
        a + 1
    } else {
        assert(s.skip(0) =~= s);
        0
    }
}

proof fn lemma_trimmed_end_place(s: Seq<char>) -> (n: int)
    ensures
        0 <= n <= s.len(),
        trimmed_end(s) == s.take(n),
        forall|i: int| n <= i < s.len() ==> is_space(#[trigger] s[i]),
        n > 0 ==> !is_space(s[n - 1]),
    decreases s.len(),
{
    if s.len() > 0 && is_space(s.last()) {
        let t = s.drop_last();
        let n = lemma_trimmed_end_place(t);
        assert forall|i: int| n <= i < s.len() implies is_space(#[trigger] s[i]) by {
            if i < t.len() {
                assert(s[i] == t[i]);
            }
        }
        assert(s.take(n) =~= t.take(n));
        n
    } else {
        assert(s.take(s.len() as int) =~= s);
        s.len() as int
    }
}

/// A search gives the first place of a text in another, and fails only where there is none.
pub proof fn law_search_finds_the_first_place(s: &str, pat: &str, r: Option<usize>)
    requires
        call_ensures(find, (s, pat), r),
    ensures
        match r {
            Some(p) => p + pat@.len() <= s@.len() && s@ == s@.take(p as int) + pat@ + s@.skip(
                p + pat@.len(),
            ) && forall|j: int| 0 <= j < p ==> #[trigger] s@.subrange(j, j + pat@.len()) != pat@,
            None => forall|j: int|
                0 <= j && j + pat@.len() <= s@.len() ==> #[trigger] s@.subrange(j, j + pat@.len())
                    != pat@,
        },
{
    lemma_found_from(s@, pat@, 0);
    match r {
        Some(p) => {
            assert(matches_at(s@, pat@, p as int));
            assert(s@ =~= s@.take(p as int) + s@.subrange(p as int, p + pat@.len()) + s@.skip(
                p + pat@.len(),
            ));
            assert forall|j: int| 0 <= j < p implies #[trigger] s@.subrange(j, j + pat@.len()) != pat@ by {
                assert(!matches_at(s@, pat@, j));
            }
        },
        None => {
            assert forall|j: int| 0 <= j && j + pat@.len() <= s@.len() implies #[trigger] s@.subrange(
                j,
                j + pat@.len(),
            ) != pat@ by {
                assert(!matches_at(s@, pat@, j));
            }
        },
    }
}

/// A text stands in another exactly where something can be put around it to give the other.
pub proof fn law_containing_is_standing_between(s: &str, pat: &str, r: bool)
    requires
        call_ensures(contains, (s, pat), r),
    ensures
        r <==> exists|a: Seq<char>, b: Seq<char>| s@ == #[trigger] (a + pat@ + b),
{
    lemma_contains(s@, pat@);
}

/// [`found`] succeeds exactly where something can be put around the pattern to give the text.
pub proof fn lemma_contains(s: Seq<char>, pat: Seq<char>)
    ensures
        found(s, pat) is Some <==> exists|a: Seq<char>, b: Seq<char>| s == #[trigger] (a + pat + b),
{
    lemma_found_from(s, pat, 0);
    if let Some(p) = found(s, pat) {
        let a = s.take(p);
        let b = s.skip(p + pat.len());
        assert(s =~= a + s.subrange(p, p + pat.len()) + b);
    }
    if exists|a: Seq<char>, b: Seq<char>| s == #[trigger] (a + pat + b) {
        let (a, b) = choose|a: Seq<char>, b: Seq<char>| s == #[trigger] (a + pat + b);
        assert(s.subrange(a.len() as int, (a.len() + pat.len()) as int) =~= pat);
        assert(matches_at(s, pat, a.len() as int));
    }
}

/// Taking a prefix off undoes putting it in front, and a text that does not start with it is refused.
pub proof fn law_prefix_is_taken_off(s: &str, prefix: &str, r: Option<&str>)
    requires
        call_ensures(strip_prefix, (s, prefix), r),
    ensures
        r matches Some(rest) ==> s@ == prefix@ + rest@,
        r is None ==> forall|rest: Seq<char>| s@ != #[trigger] (prefix@ + rest),
{
    if matches_at(s@, prefix@, 0) {
        assert(s@ =~= s@.subrange(0, prefix@.len() as int) + s@.skip(prefix@.len() as int));
    } else {
        assert forall|rest: Seq<char>| s@ != #[trigger] (prefix@ + rest) by {
            assert((prefix@ + rest).subrange(0, prefix@.len() as int) =~= prefix@);
        }
    }
}

/// A text starts with another exactly where something can follow the other to give it.
pub proof fn law_starting_with_is_being_followed(s: &str, prefix: &str, r: bool)
    requires
        call_ensures(starts_with, (s, prefix), r),
    ensures
        r <==> exists|rest: Seq<char>| s@ == #[trigger] (prefix@ + rest),
{
    if matches_at(s@, prefix@, 0) {
        assert(s@ =~= prefix@ + s@.skip(prefix@.len() as int));
    }
    if exists|rest: Seq<char>| s@ == #[trigger] (prefix@ + rest) {
        let rest = choose|rest: Seq<char>| s@ == #[trigger] (prefix@ + rest);
        assert(s@.subrange(0, prefix@.len() as int) =~= prefix@);
    }
}

/// What stands before the first of a character holds none, and is followed by one unless it is all.
pub proof fn law_text_before_a_character(s: &str, c: char, r: &str)
    requires
        call_ensures(until_char, (s, c), r),
    ensures
        !r@.contains(c),
        s@ == r@ || exists|rest: Seq<char>| s@ == #[trigger] (r@.push(c) + rest),
{
    lemma_before_char(s@, c);
    let n = before_char(s@, c).len() as int;
    if r@.contains(c) {
        let i = choose|i: int| 0 <= i < r@.len() && r@[i] == c;
        assert(s@[i] == c);
    }
    if n < s@.len() {
        assert(s@ =~= r@.push(c) + s@.skip(n + 1));
    } else {
        assert(s@ =~= r@);
    }
}

/// Lines are what stands between line feeds: a line that ends is taken off the text by itself, with
/// the carriage return in front of its line feed, and what stands behind the last line feed is a line
/// of its own.
pub proof fn law_lines_stand_between_line_feeds(line: Seq<char>, rest: Seq<char>)
    requires
        !line.contains('\n'),
    ensures
        lines_of(line + seq!['\n'] + rest) == seq![
            if line.len() > 0 && line.last() == '\r' {
                line.drop_last()
            } else {
                line
            },
        ] + lines_of(rest),
        line.len() > 0 ==> lines_of(line) == seq![line],
        lines_of(Seq::empty()) == Seq::<Seq<char>>::empty(),
{
    let s = line + seq!['\n'] + rest;
    let n = line.len() as int;
    assert forall|i: int| 0 <= i < n implies s[i] != '\n' by {
        assert(s[i] == line[i]);
        assert(line.contains(line[i]));
    }
    assert(s[n] == '\n');
    lemma_lines_step(s, n);
    assert(s.take(n) =~= line);
    assert(s.skip(n + 1) =~= rest);
    if n > 0 {
        assert forall|i: int| 0 <= i < n implies line[i] != '\n' by {
            assert(line.contains(line[i]));
        }
        lemma_lines_last(line);
    }
}

/// Words are what stands between whitespace: whitespace in front counts for nothing, and a word that
/// whitespace follows is taken off the text by itself.
pub proof fn law_words_stand_between_whitespace(word: Seq<char>, c: char, rest: Seq<char>)
    requires
        forall|i: int| 0 <= i < word.len() ==> !is_space(#[trigger] word[i]),
        is_space(c),
    ensures
        words_of(seq![c] + rest) == words_of(rest),
        word.len() > 0 ==> words_of(word + seq![c] + rest) == seq![word] + words_of(rest),
        word.len() > 0 ==> words_of(word) == seq![word],
        words_of(Seq::empty()) == Seq::<Seq<char>>::empty(),
{
    let spaced = seq![c] + rest;
    assert(spaced.drop_first() =~= rest);
    assert(trimmed_start(spaced) == trimmed_start(rest));
    assert(words_of(spaced) == words_of(rest));
    if word.len() > 0 {
        let s = word + seq![c] + rest;
        let n = word.len() as int;
        assert forall|i: int| 0 <= i < n implies !is_space(s[i]) by {
            assert(s[i] == word[i]);
        }
        assert(s[n] == c);
        lemma_word_len_is(s, n);
        assert(s[0] == word[0]);
        assert(trimmed_start(s) == s);
        assert(s.take(n) =~= word);
        assert(s.skip(n) =~= spaced);
        lemma_word_len_is(word, n);
        assert(trimmed_start(word) == word);
        assert(word.take(n) =~= word);
        assert(word.skip(n) =~= Seq::empty());
        assert(words_of(Seq::empty()) =~= Seq::<Seq<char>>::empty());
        assert(words_of(word) =~= seq![word]);
    }
}

/// Replacing a character leaves the length and every other character alone.
pub proof fn law_replacing_changes_one_character(s: &str, from: char, to: char, r: String)
    requires
        call_ensures(replace_char, (s, from, to), r),
    ensures
        r@.len() == s@.len(),
        forall|i: int|
            0 <= i < s@.len() ==> if s@[i] == from {
                #[trigger] r@[i] == to
            } else {
                r@[i] == s@[i]
            },
        from != to ==> !r@.contains(from),
{
    if from != to && r@.contains(from) {
        let i = choose|i: int| 0 <= i < r@.len() && r@[i] == from;
        assert(s@[i] == from || s@[i] != from);
    }
}

/// The first and the last place of a character are places where it stands, and it stands nowhere
/// before the one or behind the other.
pub proof fn law_first_and_last_enclose(s: &str, c: char, r: Option<(usize, usize)>)
    requires
        call_ensures(first_and_last, (s, c), r),
    ensures
        match r {
            Some((first, last)) => first <= last < s@.len() && s@[first as int] == c && s@[last as int]
                == c && forall|i: int|
                (0 <= i < first || last < i < s@.len()) ==> #[trigger] s@[i] != c,
            None => !s@.contains(c),
        },
{
    lemma_before_char(s@, c);
    lemma_last_index(s@, c);
    if r is None && s@.contains(c) {
        let i = choose|i: int| 0 <= i < s@.len() && s@[i] == c;
        assert(i <= last_index(s@, c));
    }
}

/// What [`last_index`] gives is where the last `c` stands.
pub proof fn lemma_last_index(s: Seq<char>, c: char)
    ensures
        -1 <= last_index(s, c) < s.len(),
        last_index(s, c) >= 0 ==> s[last_index(s, c)] == c,
        forall|i: int| last_index(s, c) < i < s.len() ==> #[trigger] s[i] != c,
    decreases s.len(),
{
    if s.len() > 0 && s.last() != c {
        let t = s.drop_last();
        lemma_last_index(t, c);
        assert forall|i: int| last_index(s, c) < i < s.len() implies #[trigger] s[i] != c by {
            if i < t.len() {
                assert(s[i] == t[i]);
            }
        }
    }
}

/// A character is dropped from both ends and nowhere else: what is left stands in the text between
/// such characters, and neither starts nor ends with one.
pub proof fn law_character_is_dropped_from_both_ends(s: &str, c: char, r: &str)
    requires
        call_ensures(trim_char, (s, c), r),
    ensures
        exists|a: int, b: int|
            0 <= a <= b <= s@.len() && r@ == #[trigger] s@.subrange(a, b) && (forall|i: int|
                (0 <= i < a || b <= i < s@.len()) ==> #[trigger] s@[i] == c),
        r@.len() > 0 ==> r@[0] != c && r@.last() != c,
        r@.len() == 0 <==> (forall|i: int| 0 <= i < s@.len() ==> #[trigger] s@[i] == c),
{
    let lead = without_leading(s@, c);
    lemma_without_leading(s@, c);
    lemma_without_trailing(lead, c);
    let a = s@.len() - lead.len();
    let b = a + r@.len();
    assert(r@ =~= s@.subrange(a, b));
    assert forall|i: int| (0 <= i < a || b <= i < s@.len()) implies #[trigger] s@[i] == c by {
        if i >= b {
            assert(lead[i - a] == s@[i]);
        }
    }
    if r@.len() > 0 {
        assert(r@[0] == lead[0]);
        assert(r@[0] == s@[a]);
    }
}

proof fn lemma_without_leading(s: Seq<char>, c: char)
    ensures
        without_leading(s, c).len() <= s.len(),
        without_leading(s, c) == s.skip(s.len() - without_leading(s, c).len()),
        forall|i: int|
            0 <= i < s.len() - without_leading(s, c).len() ==> #[trigger] s[i] == c,
        without_leading(s, c).len() > 0 ==> without_leading(s, c)[0] != c,
    decreases s.len(),
{
    if s.len() > 0 && s[0] == c {
        let t = s.drop_first();
        lemma_without_leading(t, c);
        let n = without_leading(t, c).len();
        assert(t.skip(t.len() - n) =~= s.skip(s.len() - n));
        assert forall|i: int| 0 <= i < s.len() - n implies #[trigger] s[i] == c by {
            if i > 0 {
                assert(t[i - 1] == s[i]);
            }
        }
    } else {
        assert(s.skip(0) =~= s);
    }
}

proof fn lemma_without_trailing(s: Seq<char>, c: char)
    ensures
        without_trailing(s, c).len() <= s.len(),
        without_trailing(s, c) == s.take(without_trailing(s, c).len() as int),
        forall|i: int| without_trailing(s, c).len() <= i < s.len() ==> #[trigger] s[i] == c,
        without_trailing(s, c).len() > 0 ==> without_trailing(s, c).last() != c,
    decreases s.len(),
{
    if s.len() > 0 && s.last() == c {
        let t = s.drop_last();
        lemma_without_trailing(t, c);
        let n = without_trailing(t, c).len() as int;
        assert(t.take(n) =~= s.take(n));
        assert forall|i: int| n <= i < s.len() implies #[trigger] s[i] == c by {
            if i < s.len() - 1 {
                assert(t[i] == s[i]);
            }
        }
    } else {
        assert(s.take(s.len() as int) =~= s);
    }
}

} // verus!
