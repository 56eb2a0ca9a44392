//! ASCII character classes. Every generated key is drawn from three pools,
//! one per class; the classes partition the classifiable ASCII characters
//! (letters, punctuation, digits) and are mutually exclusive.

use vstd::prelude::*;
use vstd::seq_lib::{to_multiset_build, to_multiset_contains, to_multiset_len};

verus! {

/// The three ASCII character classes a key is composed of.
#[derive(Clone, Copy, Debug, PartialEq, Eq, Structural)]
pub enum ASCIIExcludeCtrl {
    Alphabetic,
    Punctuation,
    Digit,
}

/// An ASCII code point (below 128).
pub open spec fn is_ascii_char(c: char) -> bool {
    (c as u32) < 128
}

/// An ASCII letter, `A`..=`Z` or `a`..=`z`.
pub open spec fn is_letter(c: char) -> bool {
    (65 <= c as u32 && c as u32 <= 90) || (97 <= c as u32 && c as u32 <= 122)
}

/// An ASCII punctuation character: `!`..=`/`, `:`..=`@`, `[`..=`` ` `` or `{`..=`~`.
pub open spec fn is_punct(c: char) -> bool {
    (33 <= c as u32 && c as u32 <= 47) || (58 <= c as u32 && c as u32 <= 64) || (91 <= c as u32
        && c as u32 <= 96) || (123 <= c as u32 && c as u32 <= 126)
}

/// An ASCII digit, `0`..=`9`.
pub open spec fn is_digit(c: char) -> bool {
    48 <= c as u32 && c as u32 <= 57
}

/// Membership of a character in one class.
pub open spec fn is_class(c: char, k: ASCIIExcludeCtrl) -> bool {
    match k {
        ASCIIExcludeCtrl::Alphabetic => is_letter(c),
        ASCIIExcludeCtrl::Punctuation => is_punct(c),
        ASCIIExcludeCtrl::Digit => is_digit(c),
    }
}

/// The character belongs to some class (control characters and the space
/// are ASCII but belong to none).
pub open spec fn in_some_class(c: char) -> bool {
    is_letter(c) || is_punct(c) || is_digit(c)
}

/// The predicate "belongs to class `k`".
pub open spec fn class_pred(k: ASCIIExcludeCtrl) -> spec_fn(char) -> bool {
    |c: char| is_class(c, k)
}

/// How many characters of class `k` a sequence holds.
pub open spec fn count_class(s: Seq<char>, k: ASCIIExcludeCtrl) -> nat {
    s.filter(class_pred(k)).len()
}

/// Every character of the sequence is ASCII.
pub open spec fn is_ascii_seq(s: Seq<char>) -> bool {
    forall|i: int| 0 <= i < s.len() ==> is_ascii_char(#[trigger] s[i])
}

/// Every character of the sequence is an ASCII digit.
pub open spec fn is_digit_seq(s: Seq<char>) -> bool {
    forall|i: int| 0 <= i < s.len() ==> is_digit(#[trigger] s[i])
}

/// The numeric value of one ASCII digit.
pub open spec fn digit_val(c: char) -> nat {
    (c as int - 48) as nat
}

/// The number a sequence of ASCII digits denotes in base 10.
pub open spec fn dec_value(s: Seq<char>) -> nat
    decreases s.len(),
{
    if s.len() == 0 {
        0
    } else {
        dec_value(s.drop_last()) * 10 + digit_val(s.last())
    }
}

/// The three classes are mutually exclusive: a character belongs to at
/// most one of them, and every class member is ASCII.
pub proof fn lemma_classes_exclusive(c: char)
    ensures
        !(is_letter(c) && is_punct(c)),
        !(is_letter(c) && is_digit(c)),
        !(is_punct(c) && is_digit(c)),
        in_some_class(c) ==> is_ascii_char(c),
{
}

/// Filtering a sequence commutes with passing to its multiset of elements.
pub proof fn lemma_filter_to_multiset(s: Seq<char>, pred: spec_fn(char) -> bool)
    ensures
        s.filter(pred).to_multiset() == s.to_multiset().filter(pred),
    decreases s.len(),
{
    broadcast use vstd::multiset::group_multiset_axioms;

    reveal(Seq::filter);
    if s.len() == 0 {
        assert forall|c: char| #[trigger] s.to_multiset().count(c) == 0 by {
            to_multiset_contains(s, c);
        }
        assert(s.filter(pred).to_multiset() =~= s.to_multiset().filter(pred));
    } else {
        let s0 = s.drop_last();
        let a = s.last();
        lemma_filter_to_multiset(s0, pred);
        assert(s =~= s0.push(a));
        to_multiset_build(s0, a);
        if pred(a) {
            assert(s.filter(pred) == s0.filter(pred).push(a));
            to_multiset_build(s0.filter(pred), a);
            assert(s.filter(pred).to_multiset() =~= s.to_multiset().filter(pred));
        } else {
            assert(s.filter(pred) == s0.filter(pred));
            assert(s.filter(pred).to_multiset() =~= s.to_multiset().filter(pred));
        }
    }
}

/// A sequence all of whose characters satisfy the predicate filters to itself.
pub proof fn lemma_filter_all(s: Seq<char>, pred: spec_fn(char) -> bool)
    requires
        forall|i: int| 0 <= i < s.len() ==> pred(#[trigger] s[i]),
    ensures
        s.filter(pred) == s,
    decreases s.len(),
{
    reveal(Seq::filter);
    if s.len() > 0 {
        lemma_filter_all(s.drop_last(), pred);
        assert(s.drop_last().push(s.last()) =~= s);
    }
}

/// A sequence none of whose characters satisfies the predicate filters to
/// the empty sequence.
pub proof fn lemma_filter_none(s: Seq<char>, pred: spec_fn(char) -> bool)
    requires
        forall|i: int| 0 <= i < s.len() ==> !pred(#[trigger] s[i]),
    ensures
        s.filter(pred) == Seq::<char>::empty(),
    decreases s.len(),
{
    reveal(Seq::filter);
    if s.len() > 0 {
        lemma_filter_none(s.drop_last(), pred);
    }
}

/// Sequences with equal multisets hold every class in equal numbers: class
/// counts survive any permutation.
pub proof fn lemma_count_class_multiset(s1: Seq<char>, s2: Seq<char>, k: ASCIIExcludeCtrl)
    requires
        s1.to_multiset() == s2.to_multiset(),
    ensures
        count_class(s1, k) == count_class(s2, k),
{
    lemma_filter_to_multiset(s1, class_pred(k));
    lemma_filter_to_multiset(s2, class_pred(k));
    to_multiset_len(s1.filter(class_pred(k)));
    to_multiset_len(s2.filter(class_pred(k)));
}

/// Sequences with equal multisets hold the same characters.
pub proof fn lemma_contains_multiset(s1: Seq<char>, s2: Seq<char>)
    requires
        s1.to_multiset() == s2.to_multiset(),
    ensures
        forall|c: char| s1.contains(c) <==> s2.contains(c),
{
    assert forall|c: char| s1.contains(c) <==> s2.contains(c) by {
        to_multiset_contains(s1, c);
        to_multiset_contains(s2, c);
    }
}

/// Extending by one character extends the count of its class by one.
pub proof fn lemma_count_class_step(s: Seq<char>, i: int, k: ASCIIExcludeCtrl)
    requires
        0 <= i < s.len(),
    ensures
        count_class(s.take(i + 1), k) == count_class(s.take(i), k) + (if is_class(s[i], k) {
            1nat
        } else {
            0nat
        }),
{
    reveal(Seq::filter);
    assert(s.take(i + 1).drop_last() =~= s.take(i));
    assert(s.take(i + 1).last() == s[i]);
}

/// Runtime test for `is_ascii_char`.
pub fn char_is_ascii(c: char) -> (r: bool)
    ensures
        r == is_ascii_char(c),
{
    (c as u32) < 128
}

/// Runtime classification of a character; `None` for characters outside
/// all three classes.
pub fn class_of(c: char) -> (r: Option<ASCIIExcludeCtrl>)
    ensures
        match r {
            Some(k) => is_class(c, k) && in_some_class(c),
            None => !in_some_class(c),
        },
{
    let u = c as u32;
    if (65 <= u && u <= 90) || (97 <= u && u <= 122) {
        Some(ASCIIExcludeCtrl::Alphabetic)
    } else if (33 <= u && u <= 47) || (58 <= u && u <= 64) || (91 <= u && u <= 96) || (123 <= u
        && u <= 126) {
        Some(ASCIIExcludeCtrl::Punctuation)
    } else if 48 <= u && u <= 57 {
        Some(ASCIIExcludeCtrl::Digit)
    } else {
        None
    }
}

} // verus!
