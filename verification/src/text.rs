//! Character-level text model: substring search, lines, whitespace-separated
//! tokens and decimal literals, each with an executable counterpart.
//!
//! Text is modelled as `Seq<char>`, the view of `str` and `String`. The
//! executable functions work on `&[char]`, so that a line or a token is a
//! sub-slice and nothing is copied after [`chars_of`].

use vstd::prelude::*;
use vstd::slice::slice_subrange;

verus! {

/// Copies the characters of `s` into a vector.
pub fn chars_of(s: &str) -> (chars: Vec<char>)
    ensures
        chars@ == s@,
{
    let mut chars: Vec<char> = Vec::new();
    let iter = s.chars();
    proof {
        vstd::string::axiom_spec_iter(s);
    }
    for c in it: iter
        invariant
            it.seq() == s@,
            chars@ == s@.take(it.index()),
    {
        chars.push(c);
    }
    chars
}

/// `pat` occurs in `text` starting at index `at`.
pub open spec fn occurs_at(text: Seq<char>, pat: Seq<char>, at: int) -> bool {
    &&& 0 <= at
    &&& at + pat.len() <= text.len()
    &&& text.subrange(at, at + pat.len()) == pat
}

/// `pat` occurs somewhere in `text`. The empty pattern occurs in every text.
pub open spec fn contains(text: Seq<char>, pat: Seq<char>) -> bool {
    exists|at: int| occurs_at(text, pat, at)
}

/// `text` ends with `suffix`.
pub open spec fn ends_with(text: Seq<char>, suffix: Seq<char>) -> bool {
    occurs_at(text, suffix, text.len() - suffix.len())
}

/// Tests whether `pat` occurs in `text` at index `at`.
pub fn occurs_at_index(text: &[char], pat: &[char], at: usize) -> (found: bool)
    ensures
        found == occurs_at(text@, pat@, at as int),
{
    if pat.len() > text.len() || at > text.len() - pat.len() {
        return false;
    }
    let ghost window = text@.subrange(at as int, at + pat.len());
    let mut k: usize = 0;
    while k < pat.len()
        invariant
            k <= pat.len(),
            at + pat.len() <= text.len(),
            window == text@.subrange(at as int, at + pat.len()),
            forall|j: int| 0 <= j < k ==> window[j] == pat@[j],
        decreases pat.len() - k,
    {
        if text[at + k] != pat[k] {
            assert(window[k as int] != pat@[k as int]);
            return false;
        }
        k += 1;
    }
    assert(window =~= pat@);
    true
}

/// Tests whether `pat` occurs in `text`.
pub fn contains_chars(text: &[char], pat: &[char]) -> (found: bool)
    ensures
        found == contains(text@, pat@),
{
    if pat.len() > text.len() {
        return false;
    }
    if pat.len() == 0 {
        assert(occurs_at(text@, pat@, 0)) by {
            assert(text@.subrange(0, 0) =~= pat@);
        }
        return true;
    }
    let last: usize = text.len() - pat.len();
    let mut at: usize = 0;
    while at <= last
        invariant
            at <= last + 1,
            last + pat.len() == text.len(),
            pat.len() > 0,
            forall|i: int| 0 <= i < at ==> !occurs_at(text@, pat@, i),
        decreases last + 1 - at,
    {
        if occurs_at_index(text, pat, at) {
            return true;
        }
        at += 1;
    }
    false
}

/// Tests whether `text` ends with `suffix`.
pub fn ends_with_chars(text: &[char], suffix: &[char]) -> (found: bool)
    ensures
        found == ends_with(text@, suffix@),
{
    suffix.len() <= text.len() && occurs_at_index(text, suffix, text.len() - suffix.len())
}

/// Number of characters of `text` before its first line feed; the whole
/// length when it has none.
pub open spec fn line_len(text: Seq<char>) -> nat
    decreases text.len(),
{
    if text.len() == 0 || text[0] == '\n' {
        0
    } else {
        1 + line_len(text.drop_first())
    }
}

/// `line` without one trailing carriage return, if it has one.
pub open spec fn without_cr(line: Seq<char>) -> Seq<char> {
    if line.len() > 0 && line.last() == '\r' {
        line.drop_last()
    } else {
        line
    }
}

/// The lines of `text`. A line ends at a line feed, or at a carriage return
/// directly followed by a line feed; the terminator belongs to no line. What
/// follows the last line feed is a line of its own unless it is empty.
pub open spec fn lines(text: Seq<char>) -> Seq<Seq<char>>
    decreases text.len(),
{
    if text.len() == 0 {
        Seq::empty()
    } else {
        let n = line_len(text) as int;
        if n >= text.len() {
            seq![text]
        } else {
            seq![without_cr(text.take(n))] + lines(text.skip(n + 1))
        }
    }
}

/// The first of `lines` in which `pat` occurs.
pub open spec fn first_containing(lines: Seq<Seq<char>>, pat: Seq<char>) -> Option<Seq<char>>
    decreases lines.len(),
{
    if lines.len() == 0 {
        None
    } else if contains(lines.first(), pat) {
        Some(lines.first())
    } else {
        first_containing(lines.drop_first(), pat)
    }
}

/// `line_len(text)` is the one index that is preceded by no line feed and is
/// either the end of `text` or a line feed.
pub proof fn lemma_line_len(text: Seq<char>, n: int)
    requires
        0 <= n <= text.len(),
        forall|i: int| 0 <= i < n ==> text[i] != '\n',
        n < text.len() ==> text[n] == '\n',
    ensures
        line_len(text) == n,
    decreases n,
{
    if n > 0 {
        lemma_line_len(text.drop_first(), n - 1);
    }
}

/// Counts the characters of `text` before its first line feed.
pub fn measure_line(text: &[char]) -> (n: usize)
    ensures
        n == line_len(text@),
        n <= text.len(),
{
    let mut n: usize = 0;
    while n < text.len() && text[n] != '\n'
        invariant
            n <= text.len(),
            forall|i: int| 0 <= i < n ==> text@[i] != '\n',
        decreases text.len() - n,
    {
        n += 1;
    }
    proof {
        lemma_line_len(text@, n as int);
    }
    n
}

/// Drops one trailing carriage return from `line`, if it has one.
pub fn trim_cr(line: &[char]) -> (trimmed: &[char])
    ensures
        trimmed@ == without_cr(line@),
{
    let len: usize = line.len();
    if len > 0 && line[len - 1] == '\r' {
        slice_subrange(line, 0, len - 1)
    } else {
        line
    }
}

/// `c` has the Unicode property `White_Space`.
pub open spec fn is_whitespace(c: char) -> bool {
    let u = c as u32;
    ||| 0x09 <= u <= 0x0D
    ||| u == 0x20
    ||| u == 0x85
    ||| u == 0xA0
    ||| u == 0x1680
    ||| 0x2000 <= u <= 0x200A
    ||| u == 0x2028
    ||| u == 0x2029
    ||| u == 0x202F
    ||| u == 0x205F
    ||| u == 0x3000
}

/// Tests whether `c` has the Unicode property `White_Space`.
pub fn is_whitespace_char(c: char) -> (white: bool)
    ensures
        white == is_whitespace(c),
{
    let u: u32 = c as u32;
    (0x09 <= u && u <= 0x0D) || u == 0x20 || u == 0x85 || u == 0xA0 || u == 0x1680 || (0x2000 <= u
        && u <= 0x200A) || u == 0x2028 || u == 0x2029 || u == 0x202F || u == 0x205F || u == 0x3000
}

/// Number of characters of `text` before its first whitespace character; the
/// whole length when it has none.
pub open spec fn token_len(text: Seq<char>) -> nat
    decreases text.len(),
{
    if text.len() == 0 || is_whitespace(text[0]) {
        0
    } else {
        1 + token_len(text.drop_first())
    }
}

/// The tokens of `line`: its maximal runs of characters that are not
/// whitespace, from left to right.
pub open spec fn tokens(line: Seq<char>) -> Seq<Seq<char>>
    decreases line.len(),
{
    if line.len() == 0 {
        Seq::empty()
    } else if is_whitespace(line[0]) {
        tokens(line.drop_first())
    } else {
        let n = token_len(line) as int;
        if n >= line.len() {
            seq![line]
        } else {
            seq![line.take(n)] + tokens(line.skip(n))
        }
    }
}

/// `token_len(text)` is the one index that is preceded by no whitespace and
/// is either the end of `text` or a whitespace character.
pub proof fn lemma_token_len(text: Seq<char>, n: int)
    requires
        0 <= n <= text.len(),
        forall|i: int| 0 <= i < n ==> !is_whitespace(text[i]),
        n < text.len() ==> is_whitespace(text[n]),
    ensures
        token_len(text) == n,
    decreases n,
{
    if n > 0 {
        lemma_token_len(text.drop_first(), n - 1);
    }
}

/// Counts the characters of `text` before its first whitespace character.
pub fn measure_token(text: &[char]) -> (n: usize)
    ensures
        n == token_len(text@),
        n <= text.len(),
{
    let mut n: usize = 0;
    while n < text.len() && !is_whitespace_char(text[n])
        invariant
            n <= text.len(),
            forall|i: int| 0 <= i < n ==> !is_whitespace(text@[i]),
        decreases text.len() - n,
    {
        n += 1;
    }
    proof {
        lemma_token_len(text@, n as int);
    }
    n
}

/// `c` is one of the decimal digits `0` to `9`.
pub open spec fn is_digit(c: char) -> bool {
    '0' <= c <= '9'
}

/// The value of the decimal digit `c`; 0 for any other character.
pub open spec fn digit_value(c: char) -> nat {
    if is_digit(c) {
        (c as u32 - '0' as u32) as nat
    } else {
        0
    }
}

/// Every character of `digits` is a decimal digit.
pub open spec fn all_digits(digits: Seq<char>) -> bool {
    forall|i: int| 0 <= i < digits.len() ==> is_digit(#[trigger] digits[i])
}

/// The number that `digits` denotes in base ten, leading zeros allowed.
pub open spec fn decimal_value(digits: Seq<char>) -> nat
    decreases digits.len(),
{
    if digits.len() == 0 {
        0
    } else {
        10 * decimal_value(digits.drop_last()) + digit_value(digits.last())
    }
}

/// `token` without one leading plus sign, if it has one.
pub open spec fn without_plus(token: Seq<char>) -> Seq<char> {
    if token.len() > 0 && token[0] == '+' {
        token.drop_first()
    } else {
        token
    }
}

/// The number that `token` denotes as a 32-bit unsigned decimal literal: an
/// optional plus sign, then one or more decimal digits whose value is at
/// most `u32::MAX`. `None` for every other token.
pub open spec fn unsigned_value(token: Seq<char>) -> Option<u32> {
    let digits = without_plus(token);
    if digits.len() > 0 && all_digits(digits) && decimal_value(digits) <= u32::MAX {
        Some(decimal_value(digits) as u32)
    } else {
        None
    }
}

/// A prefix of a digit string denotes no more than the whole string.
pub proof fn lemma_decimal_value_prefix(digits: Seq<char>, k: int)
    requires
        0 <= k <= digits.len(),
    ensures
        decimal_value(digits.take(k)) <= decimal_value(digits),
    decreases digits.len(),
{
    if k < digits.len() {
        assert(digits.drop_last().take(k) =~= digits.take(k));
        lemma_decimal_value_prefix(digits.drop_last(), k);
    } else {
        assert(digits.take(k) =~= digits);
    }
}

/// Reads `token` as a 32-bit unsigned decimal literal.
pub fn parse_unsigned(token: &[char]) -> (value: Option<u32>)
    ensures
        value == unsigned_value(token@),
{
    let start: usize = if token.len() > 0 && token[0] == '+' {
        1
    } else {
        0
    };
    let digits = slice_subrange(token, start, token.len());
    assert(digits@ =~= without_plus(token@));
    if digits.len() == 0 {
        return None;
    }
    let mut acc: u64 = 0;
    let mut k: usize = 0;
    while k < digits.len()
        invariant
            k <= digits.len(),
            digits@ == without_plus(token@),
            all_digits(digits@.take(k as int)),
            acc == decimal_value(digits@.take(k as int)),
            acc <= u32::MAX,
        decreases digits.len() - k,
    {
        let c: char = digits[k];
        if !('0' <= c && c <= '9') {
            assert(!is_digit(digits@[k as int]));
            return None;
        }
        let d: u64 = (c as u32 - '0' as u32) as u64;
        let next: u64 = acc * 10 + d;
        proof {
            let upto = digits@.take(k + 1);
            assert(upto.drop_last() =~= digits@.take(k as int));
            assert(upto.last() == c);
            assert(next == decimal_value(upto));
            assert(all_digits(upto)) by {
                assert forall|i: int| 0 <= i < upto.len() implies is_digit(#[trigger] upto[i]) by {
                    if i < k {
                        assert(digits@.take(k as int)[i] == upto[i]);
                    }
                }
            }
        }
        if next > u32::MAX as u64 {
            proof {
                lemma_decimal_value_prefix(digits@, k + 1);
            }
            return None;
        }
        acc = next;
        k += 1;
    }
    assert(digits@.take(k as int) =~= digits@);
    Some(acc as u32)
}

/// The first of a line and further lines in which `pat` occurs is that
/// line, if `pat` occurs in it, and else the first of the further lines.
pub proof fn lemma_first_containing_cons(head: Seq<char>, tail: Seq<Seq<char>>, pat: Seq<char>)
    ensures
        first_containing(seq![head] + tail, pat) == if contains(head, pat) {
            Some(head)
        } else {
            first_containing(tail, pat)
        },
{
    assert((seq![head] + tail).drop_first() =~= tail);
}

/// What `first_containing` finds: a line in which `pat` occurs and before
/// which there is none; and it finds nothing only where there is no such
/// line.
pub proof fn lemma_first_containing(lines: Seq<Seq<char>>, pat: Seq<char>)
    ensures
        first_containing(lines, pat) matches Some(line) ==> exists|i: int|
            0 <= i < lines.len() && lines[i] == line && contains(#[trigger] lines[i], pat)
                && forall|j: int| 0 <= j < i ==> !contains(#[trigger] lines[j], pat),
        first_containing(lines, pat) is None ==> forall|i: int|
            0 <= i < lines.len() ==> !contains(#[trigger] lines[i], pat),
    decreases lines.len(),
{
    if lines.len() > 0 && !contains(lines.first(), pat) {
        let rest = lines.drop_first();
        lemma_first_containing(rest, pat);
        assert forall|i: int| 0 <= i < lines.len() && first_containing(lines, pat) is None
            implies !contains(#[trigger] lines[i], pat) by {
            if i > 0 {
                assert(lines[i] == rest[i - 1]);
            }
        }
        if first_containing(lines, pat) is Some {
            let line = first_containing(lines, pat)->0;
            let k = choose|k: int|
                0 <= k < rest.len() && rest[k] == line && contains(#[trigger] rest[k], pat)
                    && forall|j: int| 0 <= j < k ==> !contains(#[trigger] rest[j], pat);
            assert(lines[k + 1] == rest[k]);
            assert forall|j: int| 0 <= j < k + 1 implies !contains(#[trigger] lines[j], pat) by {
                if j > 0 {
                    assert(lines[j] == rest[j - 1]);
                }
            }
        }
    } else if lines.len() > 0 {
        assert(lines[0] == lines.first());
    }
}

/// What occurs in a piece of a text occurs in the text.
pub proof fn lemma_contains_in_piece(text: Seq<char>, from: int, to: int, pat: Seq<char>)
    requires
        0 <= from <= to <= text.len(),
        contains(text.subrange(from, to), pat),
    ensures
        contains(text, pat),
{
    let piece = text.subrange(from, to);
    let at = choose|at: int| occurs_at(piece, pat, at);
    assert(text.subrange(from + at, from + at + pat.len()) =~= piece.subrange(at, at + pat.len()));
    assert(occurs_at(text, pat, from + at));
}

/// A line is never longer than the text.
pub proof fn lemma_line_len_bound(text: Seq<char>)
    ensures
        line_len(text) <= text.len(),
    decreases text.len(),
{
    if text.len() > 0 && text[0] != '\n' {
        lemma_line_len_bound(text.drop_first());
    }
}

/// What occurs in no place of a text occurs in none of its lines.
pub proof fn lemma_absent_from_lines(text: Seq<char>, pat: Seq<char>)
    requires
        !contains(text, pat),
    ensures
        first_containing(lines(text), pat) is None,
    decreases text.len(),
{
    if text.len() > 0 {
        let n = line_len(text) as int;
        lemma_line_len_bound(text);
        if n >= text.len() {
            lemma_first_containing_cons(text, Seq::empty(), pat);
            assert(seq![text] + Seq::<Seq<char>>::empty() =~= seq![text]);
        } else {
            let head = without_cr(text.take(n));
            let rest = text.skip(n + 1);
            if contains(head, pat) {
                assert(head =~= text.subrange(0, head.len() as int));
                lemma_contains_in_piece(text, 0, head.len() as int, pat);
            }
            if contains(rest, pat) {
                lemma_contains_in_piece(text, n + 1, text.len() as int, pat);
            }
            lemma_absent_from_lines(rest, pat);
            lemma_first_containing_cons(head, lines(rest), pat);
        }
    }
}

} // verus!
