//! Output classifier: reads the number of planned changes off the captured
//! standard output of a plan run.
//!
//! The summary line of a plan looks like
//! `Plan: 2 to add, 0 to change, 1 to destroy.`; a run that found nothing to
//! do prints `No changes` instead. The classifier is deliberately permissive:
//! every token of the summary line that reads as an unsigned number counts,
//! whatever word follows it.

use vstd::prelude::*;
use vstd::slice::slice_subrange;
use crate::text::{
    chars_of, contains, contains_chars, first_containing, is_whitespace_char,
    lemma_absent_from_lines, lemma_first_containing_cons, lines, measure_line, measure_token,
    parse_unsigned, tokens, trim_cr, unsigned_value,
};

verus! {

/// What `token` adds to the change count: its value if it is an unsigned
/// decimal literal, nothing otherwise.
pub open spec fn token_count(token: Seq<char>) -> nat {
    match unsigned_value(token) {
        Some(value) => value as nat,
        None => 0,
    }
}

/// Sum of `token_count` over `tokens`.
pub open spec fn sum_counts(tokens: Seq<Seq<char>>) -> nat
    decreases tokens.len(),
{
    if tokens.len() == 0 {
        0
    } else {
        token_count(tokens.first()) + sum_counts(tokens.drop_first())
    }
}

/// Sum of all unsigned decimal literals among the whitespace-separated tokens
/// of `line`.
pub open spec fn line_total(line: Seq<char>) -> nat {
    sum_counts(tokens(line))
}

/// The change count of a plan run whose standard output is `output`:
/// 0 if `No changes` occurs anywhere in it; otherwise the `line_total` of the
/// first line in which `Plan:` occurs; 0 if there is no such line.
pub open spec fn plan_change_count(output: Seq<char>) -> nat {
    if contains(output, "No changes"@) {
        0
    } else {
        match first_containing(lines(output), "Plan:"@) {
            Some(line) => line_total(line),
            None => 0,
        }
    }
}

/// `n` as a `u32`, if it is small enough.
pub open spec fn checked_count(n: nat) -> Option<u32> {
    if n <= u32::MAX {
        Some(n as u32)
    } else {
        None
    }
}

/// A token and further tokens sum to the count of the token plus the sum of
/// the further ones.
proof fn lemma_sum_counts_cons(head: Seq<char>, tail: Seq<Seq<char>>)
    ensures
        sum_counts(seq![head] + tail) == token_count(head) + sum_counts(tail),
{
    assert((seq![head] + tail).drop_first() =~= tail);
}

/// Sums the unsigned decimal literals among the tokens of `line`; `None` if
/// the sum does not fit in a `u32`.
pub fn line_changes(line: &[char]) -> (total: Option<u32>)
    ensures
        total == checked_count(line_total(line@)),
{
    let mut rest: &[char] = line;
    let mut acc: u32 = 0;
    while rest.len() > 0
        invariant
            line_total(line@) == acc + sum_counts(tokens(rest@)),
        decreases rest.len(),
    {
        if is_whitespace_char(rest[0]) {
            let next = slice_subrange(rest, 1, rest.len());
            assert(next@ =~= rest@.drop_first());
            rest = next;
        } else {
            let n: usize = measure_token(rest);
            let token = slice_subrange(rest, 0, n);
            let next = slice_subrange(rest, n, rest.len());
            proof {
                assert(token@ =~= rest@.take(n as int));
                assert(next@ =~= rest@.skip(n as int));
                if n < rest.len() {
                    lemma_sum_counts_cons(token@, tokens(next@));
                } else {
                    assert(token@ =~= rest@);
                    lemma_sum_counts_cons(token@, Seq::empty());
                    assert(seq![token@] + Seq::empty() =~= seq![token@]);
                }
                assert(sum_counts(tokens(rest@)) == token_count(token@) + sum_counts(
                    tokens(next@),
                ));
            }
            match parse_unsigned(token) {
                Some(value) => {
                    if value > u32::MAX - acc {
                        return None;
                    }
                    acc = acc + value;
                },
                None => {},
            }
            rest = next;
        }
    }
    Some(acc)
}

/// Computes the change count of a plan run from its standard output; `None`
/// if the count does not fit in a `u32`.
pub fn checked_plan_changes(output: &str) -> (count: Option<u32>)
    ensures
        count == checked_count(plan_change_count(output@)),
{
    let text = chars_of(output);
    let no_changes = chars_of("No changes");
    if contains_chars(text.as_slice(), no_changes.as_slice()) {
        return Some(0);
    }
    let plan = chars_of("Plan:");
    let mut rest: &[char] = text.as_slice();
    while rest.len() > 0
        invariant
            plan@ == "Plan:"@,
            first_containing(lines(text@), plan@) == first_containing(lines(rest@), plan@),
            !contains(output@, "No changes"@),
            text@ == output@,
        decreases rest.len(),
    {
        let n: usize = measure_line(rest);
        if n == rest.len() {
            proof {
                lemma_first_containing_cons(rest@, Seq::empty(), plan@);
                assert(seq![rest@] + Seq::empty() =~= seq![rest@]);
            }
            if contains_chars(rest, plan.as_slice()) {
                return line_changes(rest);
            } else {
                return Some(0);
            }
        }
        let body = slice_subrange(rest, 0, n);
        let line = trim_cr(body);
        let next = slice_subrange(rest, n + 1, rest.len());
        proof {
            assert(body@ =~= rest@.take(n as int));
            assert(next@ =~= rest@.skip(n + 1));
            lemma_first_containing_cons(line@, lines(next@), plan@);
        }
        if contains_chars(line, plan.as_slice()) {
            return line_changes(line);
        }
        rest = next;
    }
    Some(0)
}

/// Computes the change count of a plan run from its standard output.
///
/// `No changes` anywhere in the output outweighs any summary line. Without
/// it, the first line that holds `Plan:` decides; without such a line the
/// count is 0.
///
/// The count has to fit in a `u32`, which [`checked_plan_changes`] finds
/// out.
pub fn parse_plan_changes(output: &str) -> (count: u32)
    requires
        plan_change_count(output@) <= u32::MAX,
    ensures
        count == plan_change_count(output@),
        contains(output@, "No changes"@) ==> count == 0,
        !contains(output@, "No changes"@) && first_containing(lines(output@), "Plan:"@) is None
            ==> count == 0,
{
    checked_plan_changes(output).unwrap()
}

/// An output in which neither `No changes` nor `Plan:` occurs anywhere
/// announces no change.
pub proof fn lemma_unmarked_output_counts_nothing(output: Seq<char>)
    requires
        !contains(output, "No changes"@),
        !contains(output, "Plan:"@),
    ensures
        plan_change_count(output) == 0,
{
    lemma_absent_from_lines(output, "Plan:"@);
}

} // verus!
