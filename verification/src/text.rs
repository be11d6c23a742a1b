//! Text as sequences of characters.
//!
//! The functions here are the string operations the rest of the crate is built
//! on: trimming, splitting, searching, and decimal numbers. Each one is specified
//! over `Seq<char>`, the view of `str` and `String`.

use vstd::prelude::*;
use vstd::string::*;

verus! {

/// `String::push` appends one character.
pub assume_specification[ String::push ](s: &mut String, c: char)
    ensures
        final(s)@ == old(s)@.push(c),
;

/// The characters with the Unicode property `White_Space`.
pub open spec fn is_white(c: char) -> bool {
    ||| '\u{9}' <= c <= '\u{d}'
    ||| c == ' '
    ||| c == '\u{85}'
    ||| c == '\u{a0}'
    ||| c == '\u{1680}'
    ||| '\u{2000}' <= c <= '\u{200a}'
    ||| c == '\u{2028}'
    ||| c == '\u{2029}'
    ||| c == '\u{202f}'
    ||| c == '\u{205f}'
    ||| c == '\u{3000}'
}

pub open spec fn is_digit(c: char) -> bool {
    '0' <= c <= '9'
}

/// The class of white characters.
pub open spec fn white() -> spec_fn(char) -> bool {
    |c: char| is_white(c)
}

/// The class of characters that are not white.
pub open spec fn inked() -> spec_fn(char) -> bool {
    |c: char| !is_white(c)
}

/// The class of characters other than `c`.
pub open spec fn other_than(c: char) -> spec_fn(char) -> bool {
    |x: char| x != c
}

/// Length of the longest prefix of `s` made of characters that satisfy `p`.
pub open spec fn run_len(s: Seq<char>, p: spec_fn(char) -> bool) -> nat
    decreases s.len(),
{
    if s.len() > 0 && p(s[0]) {
        1 + run_len(s.drop_first(), p)
    } else {
        0
    }
}

/// Length of the longest suffix of `s` made of characters that satisfy `p`.
pub open spec fn run_back(s: Seq<char>, p: spec_fn(char) -> bool) -> nat
    decreases s.len(),
{
    if s.len() > 0 && p(s.last()) {
        1 + run_back(s.drop_last(), p)
    } else {
        0
    }
}

/// A prefix run ends at the end of the text or at a character that breaks it.
pub proof fn lemma_run_len(s: Seq<char>, p: spec_fn(char) -> bool)
    ensures
        run_len(s, p) <= s.len(),
        forall|i: int| 0 <= i < run_len(s, p) ==> p(#[trigger] s[i]),
        run_len(s, p) < s.len() ==> !p(s[run_len(s, p) as int]),
    decreases s.len(),
{
    if s.len() > 0 && p(s[0]) {
        lemma_run_len(s.drop_first(), p);
        assert forall|i: int| 0 <= i < run_len(s, p) implies p(#[trigger] s[i]) by {
            if i > 0 {
                assert(s[i] == s.drop_first()[i - 1]);
            }
        }
    }
}

/// The index where a prefix run ends identifies its length.
pub proof fn lemma_run_len_is(s: Seq<char>, p: spec_fn(char) -> bool, n: nat)
    requires
        n <= s.len(),
        forall|i: int| 0 <= i < n ==> p(#[trigger] s[i]),
        n < s.len() ==> !p(s[n as int]),
    ensures
        run_len(s, p) == n,
{
    lemma_run_len(s, p);
    if run_len(s, p) < n {
        assert(p(s[run_len(s, p) as int]));
    }
}

pub proof fn lemma_run_back(s: Seq<char>, p: spec_fn(char) -> bool)
    ensures
        run_back(s, p) <= s.len(),
        forall|i: int| s.len() - run_back(s, p) <= i < s.len() ==> p(#[trigger] s[i]),
        run_back(s, p) < s.len() ==> !p(s[s.len() - run_back(s, p) - 1]),
    decreases s.len(),
{
    if s.len() > 0 && p(s.last()) {
        lemma_run_back(s.drop_last(), p);
        assert forall|i: int| s.len() - run_back(s, p) <= i < s.len() implies p(#[trigger] s[i]) by {
            if i < s.len() - 1 {
                assert(s[i] == s.drop_last()[i]);
            }
        }
    }
}

pub proof fn lemma_run_back_is(s: Seq<char>, p: spec_fn(char) -> bool, n: nat)
    requires
        n <= s.len(),
        forall|i: int| s.len() - n <= i < s.len() ==> p(#[trigger] s[i]),
        n < s.len() ==> !p(s[s.len() - n - 1]),
    ensures
        run_back(s, p) == n,
{
    lemma_run_back(s, p);
    if run_back(s, p) < n {
        assert(p(s[s.len() - run_back(s, p) - 1]));
    }
}

/// `s` without its leading white space.
pub open spec fn trim_start_of(s: Seq<char>) -> Seq<char> {
    s.skip(run_len(s, white()) as int)
}

/// `s` without its trailing white space.
pub open spec fn trim_end_of(s: Seq<char>) -> Seq<char> {
    s.take(s.len() - run_back(s, white()))
}

/// `s` without leading and trailing white space.
pub open spec fn trim_of(s: Seq<char>) -> Seq<char> {
    trim_end_of(trim_start_of(s))
}

/// Index of the first `c` in `s`; the length of `s` if there is none.
pub open spec fn find(s: Seq<char>, c: char) -> nat {
    run_len(s, other_than(c))
}

/// The two sides of the first `c` in `s`.
pub open spec fn split_once_of(s: Seq<char>, c: char) -> Option<(Seq<char>, Seq<char>)> {
    let i = find(s, c) as int;
    if i < s.len() {
        Some((s.take(i), s.skip(i + 1)))
    } else {
        None
    }
}

/// The pieces of `s` between the occurrences of `c`. There is always at least one.
pub open spec fn split_of(s: Seq<char>, c: char) -> Seq<Seq<char>>
    decreases s.len(),
{
    match split_once_of(s, c) {
        Some((head, tail)) => seq![head] + split_of(tail, c),
        None => seq![s],
    }
}

/// The maximal runs of non-white characters of `s`, in order.
pub open spec fn words_of(s: Seq<char>) -> Seq<Seq<char>>
    decreases s.len(),
{
    let t = trim_start_of(s);
    let n = run_len(t, inked()) as int;
    if n > 0 {
        proof {
            lemma_run_len(s, white());
            lemma_run_len(t, inked());
        }
        seq![t.take(n)] + words_of(t.skip(n))
    } else {
        Seq::empty()
    }
}

/// `line` without one trailing carriage return.
pub open spec fn strip_cr(line: Seq<char>) -> Seq<char> {
    if line.len() > 0 && line.last() == '\r' {
        line.drop_last()
    } else {
        line
    }
}

/// The lines of `s`: what ends in a newline, without the newline and one carriage
/// return before it, and the rest after the last newline unless it is empty.
pub open spec fn lines_of(s: Seq<char>) -> Seq<Seq<char>>
    decreases s.len(),
{
    match split_once_of(s, '\n') {
        Some((head, tail)) => seq![strip_cr(head)] + lines_of(tail),
        None => {
            if s.len() == 0 {
                Seq::empty()
            } else {
                seq![s]
            }
        },
    }
}

/// `needle` occurs in `s` at position `at`.
pub open spec fn occurs_at(s: Seq<char>, needle: Seq<char>, at: int) -> bool {
    0 <= at && at + needle.len() <= s.len() && s.subrange(at, at + needle.len()) == needle
}

/// `needle` occurs somewhere in `s`.
pub open spec fn contains_text(s: Seq<char>, needle: Seq<char>) -> bool {
    exists|at: int| occurs_at(s, needle, at)
}

pub open spec fn starts_with_text(s: Seq<char>, prefix: Seq<char>) -> bool {
    occurs_at(s, prefix, 0)
}

pub open spec fn ends_with_text(s: Seq<char>, suffix: Seq<char>) -> bool {
    occurs_at(s, suffix, s.len() - suffix.len())
}

/// The characters of `s`.
pub fn to_chars(s: &str) -> (v: Vec<char>)
    ensures
        v@ == s@,
{
    let mut v: Vec<char> = Vec::new();
    for c in it: s.chars()
        invariant
            v@ == s@.take(it.index()),
            it.seq() == s@,
    {
        v.push(c);
        assert(s@.take(it.index() + 1) =~= s@.take(it.index()).push(c));
    }
    assert(s@.take(s@.len() as int) =~= s@);
    v
}

/// The text made of the characters `v[from..to]`.
pub fn slice(v: &Vec<char>, from: usize, to: usize) -> (s: String)
    requires
        from <= to <= v@.len(),
    ensures
        s@ == v@.subrange(from as int, to as int),
{
    let mut s = String::new();
    let mut i: usize = from;
    while i < to
        invariant
            from <= i <= to <= v@.len(),
            s@ == v@.subrange(from as int, i as int),
        decreases to - i,
    {
        s.push(v[i]);
        i = i + 1;
        assert(v@.subrange(from as int, i as int) =~= v@.subrange(from as int, i - 1).push(v@[i - 1]));
    }
    s
}

/// Whether `c` has the property `White_Space`.
pub fn char_is_white(c: char) -> (r: bool)
    ensures
        r == is_white(c),
{
    ('\u{9}' <= c && c <= '\u{d}') || c == ' ' || c == '\u{85}' || c == '\u{a0}' || c == '\u{1680}'
        || ('\u{2000}' <= c && c <= '\u{200a}') || c == '\u{2028}' || c == '\u{2029}'
        || c == '\u{202f}' || c == '\u{205f}' || c == '\u{3000}'
}

/// Index of the first `c` at or after `from`, or the length of `v`.
pub fn find_from(v: &Vec<char>, from: usize, c: char) -> (r: usize)
    requires
        from <= v@.len(),
    ensures
        from <= r <= v@.len(),
        r - from == find(v@.skip(from as int), c),
{
    let mut i: usize = from;
    while i < v.len() && v[i] != c
        invariant
            from <= i <= v@.len(),
            forall|j: int| from <= j < i ==> v@[j] != c,
        decreases v.len() - i,
    {
        i = i + 1;
    }
    proof {
        let t = v@.skip(from as int);
        assert forall|j: int| 0 <= j < i - from implies (#[trigger] t[j]) != c by {
            assert(t[j] == v@[j + from]);
        }
        lemma_run_len_is(t, other_than(c), (i - from) as nat);
    }
    i
}

/// Index of the first character at or after `from` that is white, if `seek`, or
/// that is not, if not `seek`; the length of `v` if there is none.
fn white_from(v: &Vec<char>, from: usize, seek: bool) -> (r: usize)
    requires
        from <= v@.len(),
    ensures
        from <= r <= v@.len(),
        seek ==> r - from == run_len(v@.skip(from as int), inked()),
        !seek ==> r - from == run_len(v@.skip(from as int), white()),
{
    let mut i: usize = from;
    while i < v.len() && char_is_white(v[i]) != seek
        invariant
            from <= i <= v@.len(),
            forall|j: int| from <= j < i ==> is_white(v@[j]) != seek,
        decreases v.len() - i,
    {
        i = i + 1;
    }
    proof {
        let t = v@.skip(from as int);
        assert forall|j: int| 0 <= j < i - from implies is_white(#[trigger] t[j]) != seek by {
            assert(t[j] == v@[j + from]);
        }
        if seek {
            lemma_run_len_is(t, inked(), (i - from) as nat);
        } else {
            lemma_run_len_is(t, white(), (i - from) as nat);
        }
    }
    i
}

/// Where the trailing white space of `v[from..]` starts.
fn trim_end_from(v: &Vec<char>, from: usize) -> (r: usize)
    requires
        from <= v@.len(),
    ensures
        from <= r <= v@.len(),
        v@.len() - r == run_back(v@.skip(from as int), white()),
{
    let mut i: usize = v.len();
    while i > from && char_is_white(v[i - 1])
        invariant
            from <= i <= v@.len(),
            forall|j: int| i <= j < v@.len() ==> is_white(v@[j]),
        decreases i,
    {
        i = i - 1;
    }
    proof {
        let t = v@.skip(from as int);
        assert forall|j: int| t.len() - (v@.len() - i) <= j < t.len() implies is_white(#[trigger] t[j]) by {
            assert(t[j] == v@[j + from]);
        }
        lemma_run_back_is(t, white(), (v@.len() - i) as nat);
    }
    i
}

/// `s` without leading and trailing white space.
pub fn trim(s: &str) -> (r: String)
    ensures
        r@ == trim_of(s@),
{
    let v = to_chars(s);
    let from = white_from(&v, 0, false);
    let to = trim_end_from(&v, from);
    assert(v@.skip(0) =~= v@);
    assert(v@.subrange(from as int, to as int) =~= v@.skip(from as int).take(to - from));
    slice(&v, from, to)
}

/// The two sides of the first `c` in `s`.
pub fn split_once(s: &str, c: char) -> (r: Option<(String, String)>)
    ensures
        r.deep_view() == split_once_of(s@, c),
{
    let v = to_chars(s);
    let i = find_from(&v, 0, c);
    assert(v@.skip(0) =~= v@);
    if i < v.len() {
        assert(v@.subrange(0, i as int) =~= v@.take(i as int));
        assert(v@.subrange(i + 1, v@.len() as int) =~= v@.skip(i + 1));
        Some((slice(&v, 0, i), slice(&v, i + 1, v.len())))
    } else {
        None
    }
}

/// The pieces of `s` between the occurrences of `c`.
pub fn split(s: &str, c: char) -> (r: Vec<String>)
    ensures
        r.deep_view() == split_of(s@, c),
{
    let v = to_chars(s);
    let mut r: Vec<String> = Vec::new();
    let mut from: usize = 0;
    assert(v@.skip(0) =~= v@);
    loop
        invariant_except_break
            r.deep_view() + split_of(v@.skip(from as int), c) =~= split_of(s@, c),
        invariant
            from <= v@.len(),
            v@ == s@,
        ensures
            r.deep_view() =~= split_of(s@, c),
        decreases v.len() - from,
    {
        let i = find_from(&v, from, c);
        let ghost t = v@.skip(from as int);
        let piece = slice(&v, from, i);
        assert(v@.subrange(from as int, i as int) =~= t.take(i - from));
        let ghost before = r.deep_view();
        r.push(piece);
        assert(r.deep_view() =~= before.push(piece@));
        if i < v.len() {
            assert(t.skip(i - from + 1) =~= v@.skip(i + 1));
            assert(split_of(t, c) == seq![piece@] + split_of(v@.skip(i + 1), c));
            from = i + 1;
        } else {
            assert(t.take(i - from) =~= t);
            assert(split_of(t, c) == seq![piece@]);
            break;
        }
    }
    r
}

/// The maximal runs of non-white characters of `s`, in order.
pub fn words(s: &str) -> (r: Vec<String>)
    ensures
        r.deep_view() == words_of(s@),
{
    let v = to_chars(s);
    let mut r: Vec<String> = Vec::new();
    let mut from: usize = 0;
    assert(v@.skip(0) =~= v@);
    loop
        invariant_except_break
            r.deep_view() + words_of(v@.skip(from as int)) =~= words_of(s@),
        invariant
            from <= v@.len(),
            v@ == s@,
        ensures
            r.deep_view() =~= words_of(s@),
        decreases v.len() - from,
    {
        let ghost rest = v@.skip(from as int);
        let start = white_from(&v, from, false);
        let end = white_from(&v, start, true);
        let ghost t = trim_start_of(rest);
        assert(t =~= v@.skip(start as int));
        if end == start {
            assert(words_of(rest) =~= Seq::<Seq<char>>::empty());
            break;
        }
        let word = slice(&v, start, end);
        assert(v@.subrange(start as int, end as int) =~= t.take(end - start));
        assert(t.skip(end - start) =~= v@.skip(end as int));
        assert(words_of(rest) == seq![word@] + words_of(v@.skip(end as int)));
        let ghost before = r.deep_view();
        r.push(word);
        assert(r.deep_view() =~= before.push(word@));
        from = end;
    }
    r
}

/// The lines of `s`.
pub fn lines(s: &str) -> (r: Vec<String>)
    ensures
        r.deep_view() == lines_of(s@),
{
    let v = to_chars(s);
    let mut r: Vec<String> = Vec::new();
    let mut from: usize = 0;
    assert(v@.skip(0) =~= v@);
    loop
        invariant_except_break
            r.deep_view() + lines_of(v@.skip(from as int)) =~= lines_of(s@),
        invariant
            from <= v@.len(),
            v@ == s@,
        ensures
            r.deep_view() =~= lines_of(s@),
        decreases v.len() - from,
    {
        let i = find_from(&v, from, '\n');
        let ghost t = v@.skip(from as int);
        let ghost before = r.deep_view();
        if i < v.len() {
            let head_end: usize = if i > from && v[i - 1] == '\r' {
                i - 1
            } else {
                i
            };
            let line = slice(&v, from, head_end);
            assert(line@ =~= strip_cr(t.take(i - from)));
            assert(t.skip(i - from + 1) =~= v@.skip(i + 1));
            assert(lines_of(t) == seq![line@] + lines_of(v@.skip(i + 1)));
            r.push(line);
            assert(r.deep_view() =~= before.push(line@));
            from = i + 1;
        } else {
            if from < v.len() {
                let line = slice(&v, from, v.len());
                assert(line@ =~= t);
                assert(lines_of(t) == seq![line@]);
                r.push(line);
                assert(r.deep_view() =~= before.push(line@));
            } else {
                assert(lines_of(t) =~= Seq::<Seq<char>>::empty());
            }
            break;
        }
    }
    r
}

/// Whether `needle` occurs in `v` at `at`.
fn occurs(v: &Vec<char>, needle: &Vec<char>, at: usize) -> (r: bool)
    requires
        at <= v@.len(),
    ensures
        r == occurs_at(v@, needle@, at as int),
{
    if needle.len() > v.len() - at {
        return false;
    }
    let mut i: usize = 0;
    while i < needle.len()
        invariant
            i <= needle@.len(),
            needle@.len() <= v@.len() - at,
            v@.len() <= usize::MAX,
            forall|j: int| 0 <= j < i ==> v@[at + j] == needle@[j],
        decreases needle.len() - i,
    {
        if v[at + i] != needle[i] {
            assert(v@.subrange(at as int, at + needle@.len())[i as int] == v@[at + i]);
            return false;
        }
        i = i + 1;
    }
    assert(v@.subrange(at as int, at + needle@.len()) =~= needle@);
    true
}

/// Whether `needle` occurs somewhere in `s`.
pub fn contains(s: &str, needle: &str) -> (r: bool)
    ensures
        r == contains_text(s@, needle@),
{
    let v = to_chars(s);
    let n = to_chars(needle);
    let mut at: usize = 0;
    while at < v.len()
        invariant
            at <= v@.len(),
            v@ == s@,
            n@ == needle@,
            forall|j: int| 0 <= j < at ==> !occurs_at(s@, needle@, j),
        decreases v.len() - at,
    {
        if occurs(&v, &n, at) {
            return true;
        }
        at = at + 1;
    }
    let r = occurs(&v, &n, at);
    proof {
        assert forall|j: int| j != at implies !occurs_at(s@, needle@, j) by {}
    }
    r
}

pub fn starts_with(s: &str, prefix: &str) -> (r: bool)
    ensures
        r == starts_with_text(s@, prefix@),
{
    let v = to_chars(s);
    let n = to_chars(prefix);
    occurs(&v, &n, 0)
}

pub fn ends_with(s: &str, suffix: &str) -> (r: bool)
    ensures
        r == ends_with_text(s@, suffix@),
{
    let v = to_chars(s);
    let n = to_chars(suffix);
    if n.len() > v.len() {
        return false;
    }
    occurs(&v, &n, v.len() - n.len())
}

/// Whether the two texts are the same.
pub fn same(a: &str, b: &str) -> (r: bool)
    ensures
        r == (a@ == b@),
{
    let v = to_chars(a);
    let w = to_chars(b);
    if v.len() != w.len() {
        return false;
    }
    let r = occurs(&v, &w, 0);
    assert(v@.subrange(0, w@.len() as int) =~= v@);
    r
}

/// `parts` with `sep` between each two.
pub open spec fn join_of(parts: Seq<Seq<char>>, sep: Seq<char>) -> Seq<char>
    decreases parts.len(),
{
    if parts.len() == 0 {
        Seq::empty()
    } else if parts.len() == 1 {
        parts[0]
    } else {
        join_of(parts.drop_last(), sep) + sep + parts.last()
    }
}

/// `parts` with `sep` between each two.
pub fn join(parts: &Vec<String>, sep: &str) -> (r: String)
    ensures
        r@ == join_of(parts.deep_view(), sep@),
{
    let mut r = String::new();
    let mut i: usize = 0;
    while i < parts.len()
        invariant
            i <= parts@.len(),
            r@ == join_of(parts.deep_view().take(i as int), sep@),
        decreases parts.len() - i,
    {
        if i > 0 {
            r.append(sep);
        }
        r.append(parts[i].as_str());
        assert(parts.deep_view().take(i + 1).drop_last() =~= parts.deep_view().take(i as int));
        i = i + 1;
        assert(r@ =~= join_of(parts.deep_view().take(i as int), sep@));
    }
    assert(parts.deep_view().take(i as int) =~= parts.deep_view());
    r
}

/// The character of the decimal digit `d`.
pub open spec fn digit_char_of(d: nat) -> char {
    if d == 0 {
        '0'
    } else if d == 1 {
        '1'
    } else if d == 2 {
        '2'
    } else if d == 3 {
        '3'
    } else if d == 4 {
        '4'
    } else if d == 5 {
        '5'
    } else if d == 6 {
        '6'
    } else if d == 7 {
        '7'
    } else if d == 8 {
        '8'
    } else {
        '9'
    }
}

/// The value of the decimal digit `c`.
pub open spec fn digit_value(c: char) -> nat {
    (c as int - '0' as int) as nat
}

/// The decimal notation of `n`.
pub open spec fn dec_of(n: nat) -> Seq<char>
    decreases n,
{
    if n < 10 {
        seq![digit_char_of(n)]
    } else {
        dec_of(n / 10).push(digit_char_of(n % 10))
    }
}

/// The decimal notation of `i`, with a minus sign where it is negative.
pub open spec fn dec_int_of(i: int) -> Seq<char> {
    if i < 0 {
        seq!['-'] + dec_of((-i) as nat)
    } else {
        dec_of(i as nat)
    }
}

/// The number that a sequence of decimal digits denotes.
pub open spec fn value_of(digits: Seq<char>) -> nat
    decreases digits.len(),
{
    if digits.len() == 0 {
        0
    } else {
        value_of(digits.drop_last()) * 10 + digit_value(digits.last())
    }
}

/// `s` consists of decimal digits.
pub open spec fn all_digits(s: Seq<char>) -> bool {
    forall|i: int| 0 <= i < s.len() ==> is_digit(#[trigger] s[i])
}

/// Decimal notation is made of digits, is not empty, and denotes its number.
pub proof fn lemma_dec(n: nat)
    ensures
        dec_of(n).len() > 0,
        all_digits(dec_of(n)),
        value_of(dec_of(n)) == n,
    decreases n,
{
    if n < 10 {
        assert(dec_of(n).drop_last() =~= Seq::<char>::empty());
        assert(value_of(dec_of(n).drop_last()) == 0);
    } else {
        lemma_dec(n / 10);
        assert(dec_of(n).drop_last() =~= dec_of(n / 10));
    }
}

/// The value of a digit string is at least that of each of its prefixes.
proof fn lemma_value_prefix(s: Seq<char>, n: int)
    requires
        0 <= n <= s.len(),
    ensures
        value_of(s.take(n)) <= value_of(s),
    decreases s.len() - n,
{
    if n == s.len() {
        assert(s.take(n) =~= s);
    } else {
        lemma_value_prefix(s, n + 1);
        assert(s.take(n + 1).drop_last() =~= s.take(n));
    }
}

fn digit_char(d: u64) -> (c: char)
    requires
        d < 10,
    ensures
        c == digit_char_of(d as nat),
{
    if d == 0 {
        '0'
    } else if d == 1 {
        '1'
    } else if d == 2 {
        '2'
    } else if d == 3 {
        '3'
    } else if d == 4 {
        '4'
    } else if d == 5 {
        '5'
    } else if d == 6 {
        '6'
    } else if d == 7 {
        '7'
    } else if d == 8 {
        '8'
    } else {
        '9'
    }
}

fn push_dec(s: &mut String, n: u64)
    ensures
        final(s)@ == old(s)@ + dec_of(n as nat),
    decreases n,
{
    if n >= 10 {
        push_dec(s, n / 10);
    }
    s.push(digit_char(n % 10));
    assert(s@ =~= old(s)@ + dec_of(n as nat));
}

/// The decimal notation of `n`.
pub fn decimal(n: u64) -> (s: String)
    ensures
        s@ == dec_of(n as nat),
{
    let mut s = String::new();
    push_dec(&mut s, n);
    assert(s@ =~= dec_of(n as nat));
    s
}

/// The decimal notation of `i`.
pub fn decimal_i32(i: i32) -> (s: String)
    ensures
        s@ == dec_int_of(i as int),
{
    let mut s = String::new();
    let wide: i64 = i as i64;
    if wide < 0 {
        s.push('-');
        push_dec(&mut s, (-wide) as u64);
        assert(s@ =~= dec_int_of(i as int));
    } else {
        push_dec(&mut s, wide as u64);
        assert(s@ =~= dec_int_of(i as int));
    }
    s
}

/// Why a text is not a number.
#[derive(Debug, Clone, Copy, PartialEq, Eq, Structural)]
pub enum ParseFault {
    Empty,
    InvalidDigit,
    TooLarge,
}

impl ParseFault {
    pub open spec fn text(self) -> Seq<char> {
        match self {
            ParseFault::Empty => "cannot parse integer from empty string"@,
            ParseFault::InvalidDigit => "invalid digit found in string"@,
            ParseFault::TooLarge => "number too large to fit in target type"@,
        }
    }

    pub fn to_string(&self) -> (s: String)
        ensures
            s@ == self.text(),
    {
        match self {
            ParseFault::Empty => String::from_str("cannot parse integer from empty string"),
            ParseFault::InvalidDigit => String::from_str("invalid digit found in string"),
            ParseFault::TooLarge => String::from_str("number too large to fit in target type"),
        }
    }
}

/// Reads `digits` from the left onto `acc`; the first character that is no digit,
/// or that takes the number beyond `max`, decides the fault.
pub open spec fn scan_of(digits: Seq<char>, acc: nat, max: nat) -> Result<nat, ParseFault>
    decreases digits.len(),
{
    if digits.len() == 0 {
        Ok(acc)
    } else if !is_digit(digits[0]) {
        Err(ParseFault::InvalidDigit)
    } else if acc * 10 + digit_value(digits[0]) > max {
        Err(ParseFault::TooLarge)
    } else {
        scan_of(digits.drop_first(), acc * 10 + digit_value(digits[0]), max)
    }
}

/// The unsigned number that `s` denotes: decimal digits after an optional plus sign.
pub open spec fn parse_u32_of(s: Seq<char>) -> Result<nat, ParseFault> {
    if s.len() == 0 {
        Err(ParseFault::Empty)
    } else if s[0] == '+' && s.len() > 1 {
        scan_of(s.skip(1), 0, u32::MAX as nat)
    } else {
        scan_of(s, 0, u32::MAX as nat)
    }
}

/// The signed number that `s` denotes: decimal digits after an optional sign.
pub open spec fn parse_i32_of(s: Seq<char>) -> Option<int> {
    let negative = s.len() > 0 && s[0] == '-';
    let signed = negative || (s.len() > 0 && s[0] == '+');
    let digits = if signed {
        s.skip(1)
    } else {
        s
    };
    let value = if negative {
        -value_of(digits)
    } else {
        value_of(digits) as int
    };
    if digits.len() > 0 && all_digits(digits) && i32::MIN <= value <= i32::MAX {
        Some(value)
    } else {
        None
    }
}

/// Every number of 32 bits is read back from its decimal notation.
pub proof fn lemma_parse_dec_int(i: int)
    requires
        i32::MIN <= i <= i32::MAX,
    ensures
        parse_i32_of(dec_int_of(i)) == Some(i),
{
    if i < 0 {
        lemma_dec((-i) as nat);
        assert(dec_int_of(i).skip(1) =~= dec_of((-i) as nat));
    } else {
        lemma_dec(i as nat);
        assert(is_digit(dec_of(i as nat)[0]));
    }
}

/// Parses an unsigned decimal number.
pub fn parse_u32(s: &str) -> (r: Result<u32, ParseFault>)
    ensures
        match parse_u32_of(s@) {
            Ok(n) => r == Ok::<u32, ParseFault>(n as u32) && n <= u32::MAX,
            Err(e) => r == Err::<u32, ParseFault>(e),
        },
{
    let v = to_chars(s);
    if v.len() == 0 {
        return Err(ParseFault::Empty);
    }
    let mut i: usize = if v[0] == '+' && v.len() > 1 {
        1
    } else {
        0
    };
    let mut acc: u32 = 0;
    assert(v@.skip(0) =~= v@);
    while i < v.len()
        invariant
            i <= v@.len(),
            v@ == s@,
            scan_of(v@.skip(i as int), acc as nat, u32::MAX as nat) == parse_u32_of(s@),
        decreases v.len() - i,
    {
        let c = v[i];
        assert(v@.skip(i as int).drop_first() =~= v@.skip(i + 1));
        if c < '0' || c > '9' {
            return Err(ParseFault::InvalidDigit);
        }
        let d: u64 = (c as u32 - '0' as u32) as u64;
        let next: u64 = acc as u64 * 10 + d;
        if next > u32::MAX as u64 {
            return Err(ParseFault::TooLarge);
        }
        acc = next as u32;
        i = i + 1;
    }
    Ok(acc)
}

/// Parses a signed decimal number.
pub fn parse_i32(s: &str) -> (r: Option<i32>)
    ensures
        match parse_i32_of(s@) {
            Some(n) => r == Some(n as i32) && i32::MIN <= n <= i32::MAX,
            None => r is None,
        },
{
    let v = to_chars(s);
    let negative = v.len() > 0 && v[0] == '-';
    let start: usize = if negative || (v.len() > 0 && v[0] == '+') {
        1
    } else {
        0
    };
    let ghost digits = if start == 1 {
        s@.skip(1)
    } else {
        s@
    };
    if start == v.len() {
        return None;
    }
    let mut i: usize = start;
    let mut acc: i64 = 0;
    assert(v@.subrange(start as int, i as int) =~= Seq::<char>::empty());
    assert(digits =~= v@.subrange(start as int, v@.len() as int));
    while i < v.len()
        invariant
            start <= i <= v@.len(),
            digits == v@.subrange(start as int, v@.len() as int),
            parse_i32_of(s@) is Some ==> all_digits(digits) && value_of(digits) <= 0x8000_0000,
            all_digits(v@.subrange(start as int, i as int)),
            acc == value_of(v@.subrange(start as int, i as int)),
            0 <= acc <= 0x8000_0000,
        decreases v.len() - i,
    {
        let c = v[i];
        let ghost so_far = v@.subrange(start as int, i as int);
        let ghost with_c = v@.subrange(start as int, i + 1);
        assert(with_c.drop_last() =~= so_far);
        assert(with_c =~= so_far.push(c));
        assert(digits.take(i + 1 - start) =~= with_c);
        if c < '0' || c > '9' {
            assert(!is_digit(digits[i - start]));
            return None;
        }
        let next: i64 = acc * 10 + (c as u32 - '0' as u32) as i64;
        if next > 0x8000_0000 {
            proof {
                lemma_value_prefix(digits, i + 1 - start);
            }
            return None;
        }
        acc = next;
        i = i + 1;
    }
    let value: i64 = if negative {
        -acc
    } else {
        acc
    };
    if value > i32::MAX as i64 {
        None
    } else {
        Some(value as i32)
    }
}

/// `s` without `prefix`, where it starts with it.
pub open spec fn strip_prefix_of(s: Seq<char>, prefix: Seq<char>) -> Option<Seq<char>> {
    if starts_with_text(s, prefix) {
        Some(s.skip(prefix.len() as int))
    } else {
        None
    }
}

/// The class of the character `c` alone.
pub open spec fn only(c: char) -> spec_fn(char) -> bool {
    |x: char| x == c
}

/// The class of decimal digits.
pub open spec fn digit() -> spec_fn(char) -> bool {
    |c: char| is_digit(c)
}

/// `s` without the `c`s at its start and at its end.
pub open spec fn trim_char_of(s: Seq<char>, c: char) -> Seq<char> {
    let t = s.skip(run_len(s, only(c)) as int);
    t.take(t.len() - run_back(t, only(c)))
}

/// The run of decimal digits at the end of `s`.
pub open spec fn trailing_digits(s: Seq<char>) -> Seq<char> {
    s.skip(s.len() - run_back(s, digit()))
}

/// `s` without `prefix`, where it starts with it.
pub fn strip_prefix(s: &str, prefix: &str) -> (r: Option<String>)
    ensures
        r.deep_view() == strip_prefix_of(s@, prefix@),
{
    let v = to_chars(s);
    let n = to_chars(prefix);
    if occurs(&v, &n, 0) {
        assert(v@.subrange(n@.len() as int, v@.len() as int) =~= v@.skip(n@.len() as int));
        Some(slice(&v, n.len(), v.len()))
    } else {
        None
    }
}

/// `s` without the `c`s at its start and at its end.
pub fn trim_char(s: &str, c: char) -> (r: String)
    ensures
        r@ == trim_char_of(s@, c),
{
    let v = to_chars(s);
    let mut from: usize = 0;
    while from < v.len() && v[from] == c
        invariant
            from <= v@.len(),
            forall|j: int| 0 <= j < from ==> v@[j] == c,
        decreases v.len() - from,
    {
        from = from + 1;
    }
    let mut to: usize = v.len();
    while to > from && v[to - 1] == c
        invariant
            from <= to <= v@.len(),
            forall|j: int| to <= j < v@.len() ==> v@[j] == c,
        decreases to,
    {
        to = to - 1;
    }
    proof {
        lemma_run_len_is(v@, only(c), from as nat);
        let t = v@.skip(from as int);
        assert forall|j: int| t.len() - (v@.len() - to) <= j < t.len() implies (#[trigger] t[j]) == c by {
            assert(t[j] == v@[j + from]);
        }
        lemma_run_back_is(t, only(c), (v@.len() - to) as nat);
        assert(v@.subrange(from as int, to as int) =~= t.take(to - from));
    }
    slice(&v, from, to)
}

/// Where the run of decimal digits at the end of `v` starts.
pub fn digits_start(v: &Vec<char>) -> (r: usize)
    ensures
        r <= v@.len(),
        r == v@.len() - run_back(v@, digit()),
{
    let mut i: usize = v.len();
    while i > 0 && '0' <= v[i - 1] && v[i - 1] <= '9'
        invariant
            i <= v@.len(),
            forall|j: int| i <= j < v@.len() ==> is_digit(#[trigger] v@[j]),
        decreases i,
    {
        i = i - 1;
    }
    proof {
        lemma_run_back_is(v@, digit(), (v@.len() - i) as nat);
    }
    i
}

/// Reading one more character at the end.
proof fn lemma_scan_push(s: Seq<char>, c: char, acc: nat, max: nat)
    ensures
        scan_of(s.push(c), acc, max) == match scan_of(s, acc, max) {
            Ok(v) => if !is_digit(c) {
                Err(ParseFault::InvalidDigit)
            } else if v * 10 + digit_value(c) > max {
                Err(ParseFault::TooLarge)
            } else {
                Ok((v * 10 + digit_value(c)) as nat)
            },
            Err(e) => Err(e),
        },
    decreases s.len(),
{
    reveal_with_fuel(scan_of, 3);
    if s.len() == 0 {
        assert(s.push(c).drop_first() =~= Seq::<char>::empty());
    } else {
        assert(s.push(c).drop_first() =~= s.drop_first().push(c));
        assert(s.push(c)[0] == s[0]);
        if is_digit(s[0]) && acc * 10 + digit_value(s[0]) <= max {
            lemma_scan_push(s.drop_first(), c, (acc * 10 + digit_value(s[0])) as nat, max);
        }
    }
}

proof fn lemma_scan_dec(n: nat, max: nat)
    requires
        n <= max,
    ensures
        scan_of(dec_of(n), 0, max) == Ok::<nat, ParseFault>(n),
    decreases n,
{
    if n < 10 {
        assert(dec_of(n) =~= Seq::<char>::empty().push(digit_char_of(n)));
        lemma_scan_push(Seq::empty(), digit_char_of(n), 0, max);
    } else {
        lemma_scan_dec(n / 10, max);
        lemma_scan_push(dec_of(n / 10), digit_char_of(n % 10), 0, max);
    }
}

/// Every unsigned number of 32 bits is read back from its decimal notation.
pub proof fn lemma_parse_dec(n: nat)
    requires
        n <= u32::MAX,
    ensures
        parse_u32_of(dec_of(n)) == Ok::<nat, ParseFault>(n),
{
    lemma_dec(n);
    lemma_scan_dec(n, u32::MAX as nat);
    assert(is_digit(dec_of(n)[0]));
}

/// Appends a text to a list.
pub fn push_text(v: &mut Vec<String>, s: &str)
    ensures
        final(v).deep_view() == old(v).deep_view().push(s@),
{
    v.push(s.to_owned());
    assert(v.deep_view() =~= old(v).deep_view().push(s@));
}

/// A list of one text.
pub fn list1(a: &str) -> (v: Vec<String>)
    ensures
        v.deep_view() == seq![a@],
{
    let mut v: Vec<String> = Vec::new();
    assert(v.deep_view() =~= Seq::<Seq<char>>::empty());
    push_text(&mut v, a);
    assert(v.deep_view() =~= seq![a@]);
    v
}

/// A list of two texts.
pub fn list2(a: &str, b: &str) -> (v: Vec<String>)
    ensures
        v.deep_view() == seq![a@, b@],
{
    let mut v = list1(a);
    push_text(&mut v, b);
    assert(v.deep_view() =~= seq![a@, b@]);
    v
}

/// A list of three texts.
pub fn list3(a: &str, b: &str, c: &str) -> (v: Vec<String>)
    ensures
        v.deep_view() == seq![a@, b@, c@],
{
    let mut v = list2(a, b);
    push_text(&mut v, c);
    assert(v.deep_view() =~= seq![a@, b@, c@]);
    v
}

/// A list of four texts.
pub fn list4(a: &str, b: &str, c: &str, d: &str) -> (v: Vec<String>)
    ensures
        v.deep_view() == seq![a@, b@, c@, d@],
{
    let mut v = list3(a, b, c);
    push_text(&mut v, d);
    assert(v.deep_view() =~= seq![a@, b@, c@, d@]);
    v
}

/// A list of five texts.
pub fn list5(a: &str, b: &str, c: &str, d: &str, e: &str) -> (v: Vec<String>)
    ensures
        v.deep_view() == seq![a@, b@, c@, d@, e@],
{
    let mut v = list4(a, b, c, d);
    push_text(&mut v, e);
    assert(v.deep_view() =~= seq![a@, b@, c@, d@, e@]);
    v
}

/// A list of seven texts.
pub fn list7(a: &str, b: &str, c: &str, d: &str, e: &str, f: &str, g: &str) -> (v: Vec<String>)
    ensures
        v.deep_view() == seq![a@, b@, c@, d@, e@, f@, g@],
{
    let mut v = list5(a, b, c, d, e);
    push_text(&mut v, f);
    push_text(&mut v, g);
    assert(v.deep_view() =~= seq![a@, b@, c@, d@, e@, f@, g@]);
    v
}

/// A text without white space, and not empty.
pub open spec fn is_word(w: Seq<char>) -> bool {
    w.len() > 0 && forall|i: int| 0 <= i < w.len() ==> !is_white(#[trigger] w[i])
}

/// The words of a text are words.
pub proof fn lemma_words(s: Seq<char>, i: int)
    requires
        0 <= i < words_of(s).len(),
    ensures
        is_word(words_of(s)[i]),
    decreases s.len(),
{
    let t = trim_start_of(s);
    let n = run_len(t, inked()) as int;
    lemma_run_len(s, white());
    lemma_run_len(t, inked());
    if i == 0 {
        assert forall|k: int| 0 <= k < n implies !is_white(#[trigger] t.take(n)[k]) by {
            assert(inked()(t[k]));
        }
    } else {
        lemma_words(t.skip(n), i - 1);
    }
}

/// A joined list starts with its first part.
pub proof fn lemma_join_first(parts: Seq<Seq<char>>, sep: Seq<char>)
    requires
        parts.len() > 1,
    ensures
        join_of(parts, sep) == parts[0] + sep + join_of(parts.drop_first(), sep),
    decreases parts.len(),
{
    let rest = parts.drop_first();
    if parts.len() == 2 {
        assert(parts.drop_last() =~= seq![parts[0]]);
        assert(rest =~= seq![parts[1]]);
        assert(join_of(parts.drop_last(), sep) == parts[0]);
    } else {
        lemma_join_first(parts.drop_last(), sep);
        assert(parts.drop_last().drop_first() =~= rest.drop_last());
        assert(join_of(parts, sep) =~= parts[0] + sep + join_of(rest, sep));
    }
}

/// A leading space makes no difference to the words of a text.
pub proof fn lemma_leading_space(s: Seq<char>)
    ensures
        words_of(" "@ + s) == words_of(s),
{
    reveal_strlit(" ");
    let t = " "@ + s;
    assert(t.drop_first() =~= s);
    assert(white()(' '));
    assert(run_len(t, white()) == 1 + run_len(s, white()));
    lemma_run_len(s, white());
    assert(trim_start_of(t) =~= trim_start_of(s));
}

/// The words of a word and a text behind it that starts with a space, or is empty.
pub proof fn lemma_word_first(w: Seq<char>, rest: Seq<char>)
    requires
        is_word(w),
        rest.len() > 0 ==> is_white(rest[0]),
    ensures
        words_of(w + rest) == seq![w] + words_of(rest),
{
    let s = w + rest;
    assert(!white()(w[0]));
    lemma_run_len_is(s, white(), 0);
    assert(trim_start_of(s) =~= s);
    assert forall|i: int| 0 <= i < w.len() implies inked()(#[trigger] s[i]) by {
        assert(s[i] == w[i]);
    }
    if rest.len() > 0 {
        assert(s[w.len() as int] == rest[0]);
    }
    lemma_run_len_is(s, inked(), w.len());
    assert(s.take(w.len() as int) =~= w);
    assert(s.skip(w.len() as int) =~= rest);
}

/// Words that are joined by single spaces are the words of the result.
pub proof fn lemma_words_of_join(ws: Seq<Seq<char>>)
    requires
        forall|i: int| 0 <= i < ws.len() ==> is_word(#[trigger] ws[i]),
    ensures
        words_of(join_of(ws, " "@)) == ws,
    decreases ws.len(),
{
    reveal_strlit(" ");
    if ws.len() == 0 {
        let none = Seq::<char>::empty();
        assert(run_len(none, white()) == 0);
        assert(trim_start_of(none) =~= none);
        assert(run_len(none, inked()) == 0);
        assert(words_of(none) =~= ws);
    } else if ws.len() == 1 {
        let none = Seq::<char>::empty();
        lemma_word_first(ws[0], none);
        assert(ws[0] + none =~= ws[0]);
        assert(trim_start_of(none) =~= none);
        assert(words_of(none) =~= Seq::<Seq<char>>::empty());
        assert(words_of(ws[0]) =~= ws);
    } else {
        let rest = ws.drop_first();
        lemma_join_first(ws, " "@);
        assert forall|i: int| 0 <= i < rest.len() implies is_word(#[trigger] rest[i]) by {
            assert(rest[i] == ws[i + 1]);
        }
        lemma_words_of_join(rest);
        let tail = " "@ + join_of(rest, " "@);
        assert(is_white(tail[0]));
        lemma_leading_space(join_of(rest, " "@));
        lemma_word_first(ws[0], tail);
        assert(ws[0] + " "@ + join_of(rest, " "@) =~= ws[0] + tail);
        assert(seq![ws[0]] + rest =~= ws);
    }
}

} // verus!
