//! Character pools. Each class owns an ordered, duplicate-free sequence of
//! ASCII characters of that class; generation draws from these pools. Pool
//! edits classify incoming characters by predicate, keep insertion order,
//! and never store a duplicate or a non-ASCII character.

use vstd::prelude::*;

use crate::chars::{class_of, is_class, ASCIIExcludeCtrl};

verus! {

/// A well-formed pool for class `k`: every character belongs to the class
/// (and is therefore ASCII), and no character occurs twice.
pub open spec fn pool_inv(s: Seq<char>, k: ASCIIExcludeCtrl) -> bool {
    &&& forall|i: int| 0 <= i < s.len() ==> is_class(#[trigger] s[i], k)
    &&& s.no_duplicates()
}

/// The pool after appending, in order, those of the given characters that
/// belong to class `k` and are not yet present.
pub open spec fn add_to_pool(pool: Seq<char>, items: Seq<char>, k: ASCIIExcludeCtrl) -> Seq<char>
    decreases items.len(),
{
    if items.len() == 0 {
        pool
    } else {
        let p = add_to_pool(pool, items.drop_last(), k);
        if is_class(items.last(), k) && !p.contains(items.last()) {
            p.push(items.last())
        } else {
            p
        }
    }
}

/// The pool with every listed character removed, order otherwise kept.
pub open spec fn without(pool: Seq<char>, removed: Seq<char>) -> Seq<char>
    decreases pool.len(),
{
    if pool.len() == 0 {
        pool
    } else {
        let p = without(pool.drop_last(), removed);
        if removed.contains(pool.last()) {
            p
        } else {
            p.push(pool.last())
        }
    }
}

/// What adding holds: a character is in the grown pool exactly when it was
/// already there, or arrived as a class member among the items.
pub proof fn lemma_add_contains(pool: Seq<char>, items: Seq<char>, k: ASCIIExcludeCtrl)
    ensures
        forall|c: char|
            add_to_pool(pool, items, k).contains(c) <==> (pool.contains(c) || (items.contains(c)
                && is_class(c, k))),
    decreases items.len(),
{
    if items.len() == 0 {
        assert forall|c: char| !items.contains(c) by {}
    } else {
        lemma_add_contains(pool, items.drop_last(), k);
        let p = add_to_pool(pool, items.drop_last(), k);
        let a = items.last();
        assert forall|c: char|
            items.contains(c) <==> (items.drop_last().contains(c) || c == a) by {
            if items.contains(c) {
                let j = choose|j: int| 0 <= j < items.len() && items[j] == c;
                if j < items.len() - 1 {
                    assert(items.drop_last()[j] == c);
                }
            }
            if items.drop_last().contains(c) {
                let j = choose|j: int|
                    0 <= j < items.drop_last().len() && items.drop_last()[j] == c;
                assert(items[j] == c);
            }
            if c == a {
                assert(items[items.len() - 1] == c);
            }
        }
        if is_class(a, k) && !p.contains(a) {
            assert forall|c: char|
                add_to_pool(pool, items, k).contains(c) <==> (p.contains(c) || c == a) by {
                if add_to_pool(pool, items, k).contains(c) {
                    let j = choose|j: int|
                        0 <= j < p.push(a).len() && p.push(a)[j] == c;
                    if j < p.len() {
                        assert(p[j] == c);
                    }
                }
                if p.contains(c) {
                    let j = choose|j: int| 0 <= j < p.len() && p[j] == c;
                    assert(p.push(a)[j] == c);
                }
                if c == a {
                    assert(p.push(a)[p.len() as int] == c);
                }
            }
        }
    }
}

/// Adding preserves well-formedness of the pool.
pub proof fn lemma_add_inv(pool: Seq<char>, items: Seq<char>, k: ASCIIExcludeCtrl)
    requires
        pool_inv(pool, k),
    ensures
        pool_inv(add_to_pool(pool, items, k), k),
    decreases items.len(),
{
    if items.len() > 0 {
        lemma_add_inv(pool, items.drop_last(), k);
        let p = add_to_pool(pool, items.drop_last(), k);
        let a = items.last();
        if is_class(a, k) && !p.contains(a) {
            assert forall|i: int, j: int|
                0 <= i < j < p.push(a).len() implies p.push(a)[i] != p.push(a)[j] by {
                if j < p.len() {
                } else {
                    assert(p.push(a)[j] == a);
                    assert(!p.contains(a));
                    assert(p[i] == p.push(a)[i]);
                    if p.push(a)[i] == a {
                        assert(p.contains(a));
                    }
                }
            }
            assert(p.push(a).no_duplicates());
        }
    }
}

/// Items the pool already holds add nothing.
pub proof fn lemma_add_absorbed(pool: Seq<char>, items: Seq<char>, k: ASCIIExcludeCtrl)
    requires
        forall|c: char| items.contains(c) && is_class(c, k) ==> pool.contains(c),
    ensures
        add_to_pool(pool, items, k) == pool,
    decreases items.len(),
{
    if items.len() > 0 {
        assert forall|c: char|
            items.drop_last().contains(c) && is_class(c, k) implies pool.contains(c) by {
            let j = choose|j: int| 0 <= j < items.drop_last().len() && items.drop_last()[j] == c;
            assert(items[j] == c);
        }
        lemma_add_absorbed(pool, items.drop_last(), k);
        let a = items.last();
        if is_class(a, k) {
            assert(items[items.len() - 1] == a);
            assert(items.contains(a));
        }
    }
}

/// Re-adding the same items is idempotent: the second pass finds every
/// class member already present.
pub proof fn lemma_add_idempotent(pool: Seq<char>, items: Seq<char>, k: ASCIIExcludeCtrl)
    ensures
        add_to_pool(add_to_pool(pool, items, k), items, k) == add_to_pool(pool, items, k),
{
    lemma_add_contains(pool, items, k);
    lemma_add_absorbed(add_to_pool(pool, items, k), items, k);
}

/// What removing holds: a character stays exactly when it was present and
/// is not among the removed; well-formedness is preserved.
pub proof fn lemma_without_inv(pool: Seq<char>, removed: Seq<char>, k: ASCIIExcludeCtrl)
    requires
        pool_inv(pool, k),
    ensures
        pool_inv(without(pool, removed), k),
        forall|c: char|
            without(pool, removed).contains(c) <==> (pool.contains(c) && !removed.contains(c)),
    decreases pool.len(),
{
    if pool.len() > 0 {
        let p0 = pool.drop_last();
        let a = pool.last();
        assert(p0.no_duplicates());
        lemma_without_inv(p0, removed, k);
        let w0 = without(p0, removed);
        assert forall|c: char|
            pool.contains(c) <==> (p0.contains(c) || c == a) by {
            if pool.contains(c) {
                let j = choose|j: int| 0 <= j < pool.len() && pool[j] == c;
                if j < pool.len() - 1 {
                    assert(p0[j] == c);
                }
            }
            if p0.contains(c) {
                let j = choose|j: int| 0 <= j < p0.len() && p0[j] == c;
                assert(pool[j] == c);
            }
            if c == a {
                assert(pool[pool.len() - 1] == c);
            }
        }
        if !removed.contains(a) {
            assert(!p0.contains(a));
            assert(!w0.contains(a));
            assert forall|i: int, j: int|
                0 <= i < j < w0.push(a).len() implies w0.push(a)[i] != w0.push(a)[j] by {
                if j < w0.len() {
                } else {
                    assert(w0.push(a)[i] == w0[i]);
                    if w0.push(a)[i] == a {
                        assert(w0.contains(a));
                    }
                }
            }
            assert forall|c: char|
                w0.push(a).contains(c) <==> (w0.contains(c) || c == a) by {
                if w0.push(a).contains(c) {
                    let j = choose|j: int| 0 <= j < w0.push(a).len() && w0.push(a)[j] == c;
                    if j < w0.len() {
                        assert(w0[j] == c);
                    }
                }
                if w0.contains(c) {
                    let j = choose|j: int| 0 <= j < w0.len() && w0[j] == c;
                    assert(w0.push(a)[j] == c);
                }
                if c == a {
                    assert(w0.push(a)[w0.len() as int] == c);
                }
            }
        }
    }
}

/// Linear scan for a character.
pub(crate) fn contains_char(v: &Vec<char>, c: char) -> (r: bool)
    ensures
        r == v@.contains(c),
{
    let mut i: usize = 0;
    while i < v.len()
        invariant
            i <= v@.len(),
            forall|j: int| 0 <= j < i ==> v@[j] != c,
        decreases v@.len() - i,
    {
        if v[i] == c {
            proof {
                assert(v@.contains(c)) by {
                    assert(v@[i as int] == c);
                }
            }
            return true;
        }
        i = i + 1;
    }
    false
}

/// A fresh copy of a character vector.
pub(crate) fn cloned_chars(v: &Vec<char>) -> (out: Vec<char>)
    ensures
        out@ == v@,
{
    let mut out: Vec<char> = Vec::new();
    let mut i: usize = 0;
    while i < v.len()
        invariant
            i <= v@.len(),
            out@ == v@.take(i as int),
        decreases v@.len() - i,
    {
        out.push(v[i]);
        proof {
            assert(out@ =~= v@.take(i + 1));
        }
        i = i + 1;
    }
    proof {
        assert(v@.take(v@.len() as int) =~= v@);
    }
    out
}

/// The pool grown by the class members among `items`, in item order,
/// skipping duplicates.
pub(crate) fn extended_pool(pool: &Vec<char>, items: &Vec<char>, k: ASCIIExcludeCtrl) -> (out: Vec<
    char,
>)
    ensures
        out@ == add_to_pool(pool@, items@, k),
{
    let mut out = cloned_chars(pool);
    let mut i: usize = 0;
    while i < items.len()
        invariant
            i <= items@.len(),
            out@ == add_to_pool(pool@, items@.take(i as int), k),
        decreases items@.len() - i,
    {
        let c = items[i];
        let keep = match class_of(c) {
            Some(kk) => kk == k,
            None => false,
        };
        proof {
            assert(items@.take(i + 1).drop_last() =~= items@.take(i as int));
            assert(items@.take(i + 1).last() == items@[i as int]);
        }
        if keep && !contains_char(&out, c) {
            out.push(c);
        }
        i = i + 1;
    }
    proof {
        assert(items@.take(items@.len() as int) =~= items@);
    }
    out
}

/// The pool with the listed characters removed.
pub(crate) fn removed_pool(pool: &Vec<char>, removed: &Vec<char>) -> (out: Vec<char>)
    ensures
        out@ == without(pool@, removed@),
{
    let mut out: Vec<char> = Vec::new();
    let mut i: usize = 0;
    while i < pool.len()
        invariant
            i <= pool@.len(),
            out@ == without(pool@.take(i as int), removed@),
        decreases pool@.len() - i,
    {
        let c = pool[i];
        proof {
            assert(pool@.take(i + 1).drop_last() =~= pool@.take(i as int));
            assert(pool@.take(i + 1).last() == pool@[i as int]);
        }
        if !contains_char(removed, c) {
            out.push(c);
        }
        i = i + 1;
    }
    proof {
        assert(pool@.take(pool@.len() as int) =~= pool@);
    }
    out
}

/// The full default pool of one class: every ASCII character of the class,
/// in code order.
pub(crate) fn default_class_pool(k: ASCIIExcludeCtrl) -> (out: Vec<char>)
    ensures
        pool_inv(out@, k),
        forall|c: char| out@.contains(c) <==> is_class(c, k),
{
    let mut out: Vec<char> = Vec::new();
    let mut u: u32 = 33;
    while u < 127
        invariant
            33 <= u <= 127,
            forall|i: int| 0 <= i < out@.len() ==> is_class(#[trigger] out@[i], k),
            forall|i: int| 0 <= i < out@.len() ==> ((#[trigger] out@[i]) as u32) < u,
            out@.no_duplicates(),
            forall|c: char| out@.contains(c) <==> (is_class(c, k) && (c as u32) < u),
        decreases 127 - u,
    {
        let c = (u as u8) as char;
        proof {
            assert(c as u32 == u);
        }
        let keep = match class_of(c) {
            Some(kk) => kk == k,
            None => false,
        };
        if keep {
            let ghost prev = out@;
            out.push(c);
            proof {
                assert(!prev.contains(c));
                assert forall|i: int, j: int|
                    0 <= i < j < out@.len() implies out@[i] != out@[j] by {
                    if j < prev.len() {
                    } else {
                        if out@[i] == c {
                            assert(prev.contains(c));
                        }
                    }
                }
                assert forall|cc: char|
                    out@.contains(cc) <==> (is_class(cc, k) && (cc as u32) < u + 1) by {
                    if out@.contains(cc) {
                        let j = choose|j: int| 0 <= j < out@.len() && out@[j] == cc;
                        if j < prev.len() {
                            assert(prev[j] == cc);
                            assert(prev.contains(cc));
                        }
                    }
                    if is_class(cc, k) && (cc as u32) < u + 1 {
                        if (cc as u32) < u {
                            assert(prev.contains(cc));
                            let j = choose|j: int| 0 <= j < prev.len() && prev[j] == cc;
                            assert(out@[j] == cc);
                        } else {
                            assert(cc as u32 == u);
                            vstd::utf8::char_u32_cast(cc, u);
                            vstd::utf8::char_u32_cast(c, u);
                            assert(cc == c);
                            assert(out@[prev.len() as int] == cc);
                        }
                    }
                }
            }
        } else {
            proof {
                crate::chars::lemma_classes_exclusive(c);
                assert forall|cc: char|
                    out@.contains(cc) <==> (is_class(cc, k) && (cc as u32) < u + 1) by {
                    if is_class(cc, k) && (cc as u32) == u {
                        vstd::utf8::char_u32_cast(cc, u);
                        vstd::utf8::char_u32_cast(c, u);
                        assert(cc == c);
                    }
                }
            }
        }
        u = u + 1;
    }
    out
}

} // verus!
