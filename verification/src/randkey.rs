//! The generator. A `RandKey` owns the three requested counts, the chunking
//! unit, the three class pools and the last successfully generated key.
//! Counts and unit are arbitrary-precision; pools are edited through
//! classify-and-deduplicate operations; `join` regenerates the key, or
//! fails validation and leaves every field as it was.

use vstd::prelude::*;

use crate::assemble::{all_from, class_chars};
use crate::big::{big_eq, big_from_u64, big_parse_decimal, big_to_decimal, nat_of};
use crate::chars::{
    char_is_ascii, class_of, class_pred, count_class, dec_value, is_ascii_char, is_ascii_seq,
    is_class, is_digit, is_letter, is_punct, lemma_classes_exclusive, lemma_contains_multiset,
    lemma_count_class_multiset, lemma_count_class_step, lemma_filter_all, lemma_filter_none,
    ASCIIExcludeCtrl,
};
use crate::errors::GenError;
use crate::pools::{
    add_to_pool, contains_char, default_class_pool, extended_pool, lemma_add_inv,
    lemma_without_inv, pool_inv, removed_pool, without,
};
use crate::shuffle::shuffle_chars;
use crate::strutil::{
    char_to_string, chars_of_str, check_count_text, string_of_chars, valid_count_text,
};
use num_bigint::BigUint;
use vstd::string::StrSliceExecFns;

verus! {

/// How `set_key` adopts an existing key: replace the configured counts, or
/// check the key against them first.
pub enum SetRandKeyOp {
    Update,
    Check,
}

/// All tokens are single ASCII characters.
pub open spec fn all_tokens_valid(ts: Seq<String>) -> bool {
    forall|i: int|
        0 <= i < ts.len() ==> ((#[trigger] ts[i])@.len() == 1 && is_ascii_char(ts[i]@[0]))
}

/// The character each token carries.
pub open spec fn token_chars(ts: Seq<String>) -> Seq<char> {
    ts.map_values(|t: String| t@[0])
}

/// The strings are the pool's characters, one to one and in order.
pub open spec fn strings_match_pool(ss: Seq<String>, pool: Seq<char>) -> bool {
    ss.len() == pool.len() && forall|i: int|
        0 <= i < ss.len() ==> (#[trigger] ss[i])@ == seq![pool[i]]
}

/// A random-key generator. The fields are exposed so that the
/// specification functions below, which the contracts speak over, stay
/// transparent; well-formedness is the explicit `wf` predicate.
#[derive(Clone, Debug)]
pub struct RandKey {
    pub ltr_cnt: BigUint,
    pub sbl_cnt: BigUint,
    pub num_cnt: BigUint,
    pub key: String,
    pub unit: BigUint,
    pub ltr_pool: Vec<char>,
    pub sbl_pool: Vec<char>,
    pub num_pool: Vec<char>,
}

impl RandKey {
    /// The requested count of one class.
    pub open spec fn cnt_of(&self, k: ASCIIExcludeCtrl) -> nat {
        match k {
            ASCIIExcludeCtrl::Alphabetic => nat_of(self.ltr_cnt),
            ASCIIExcludeCtrl::Punctuation => nat_of(self.sbl_cnt),
            ASCIIExcludeCtrl::Digit => nat_of(self.num_cnt),
        }
    }

    /// The pool of one class.
    pub open spec fn pool_of(&self, k: ASCIIExcludeCtrl) -> Seq<char> {
        match k {
            ASCIIExcludeCtrl::Alphabetic => self.ltr_pool@,
            ASCIIExcludeCtrl::Punctuation => self.sbl_pool@,
            ASCIIExcludeCtrl::Digit => self.num_pool@,
        }
    }

    /// The current key, as characters.
    pub open spec fn key_chars(&self) -> Seq<char> {
        self.key@
    }

    /// The configured unit.
    pub open spec fn unit_val(&self) -> nat {
        nat_of(self.unit)
    }

    /// Well-formed: each pool holds only deduplicated characters of its own
    /// class, and the unit is positive.
    pub open spec fn wf(&self) -> bool {
        &&& pool_inv(self.ltr_pool@, ASCIIExcludeCtrl::Alphabetic)
        &&& pool_inv(self.sbl_pool@, ASCIIExcludeCtrl::Punctuation)
        &&& pool_inv(self.num_pool@, ASCIIExcludeCtrl::Digit)
        &&& self.unit_val() > 0
    }

    /// Generation is possible: every class with a nonzero requested count
    /// has a non-empty pool.
    pub open spec fn satisfiable(&self) -> bool {
        &&& nat_of(self.ltr_cnt) > 0 ==> self.ltr_pool@.len() > 0
        &&& nat_of(self.sbl_cnt) > 0 ==> self.sbl_pool@.len() > 0
        &&& nat_of(self.num_cnt) > 0 ==> self.num_pool@.len() > 0
    }

    /// The character lies in the pool of its class.
    pub open spec fn char_from_pools(&self, c: char) -> bool {
        ||| (is_letter(c) && self.ltr_pool@.contains(c))
        ||| (is_punct(c) && self.sbl_pool@.contains(c))
        ||| (is_digit(c) && self.num_pool@.contains(c))
    }

    /// Everything but the key is as in `other`.
    pub open spec fn same_but_key(&self, other: &RandKey) -> bool {
        &&& self.ltr_cnt == other.ltr_cnt
        &&& self.sbl_cnt == other.sbl_cnt
        &&& self.num_cnt == other.num_cnt
        &&& self.unit == other.unit
        &&& self.ltr_pool@ == other.ltr_pool@
        &&& self.sbl_pool@ == other.sbl_pool@
        &&& self.num_pool@ == other.num_pool@
    }

    /// Everything but the pools is as in `other`.
    pub open spec fn same_but_pools(&self, other: &RandKey) -> bool {
        &&& self.ltr_cnt == other.ltr_cnt
        &&& self.sbl_cnt == other.sbl_cnt
        &&& self.num_cnt == other.num_cnt
        &&& self.unit == other.unit
        &&& self.key@ == other.key@
    }

    /// All three count texts parse as counts.
    pub fn check_init(ltr_cnt: &str, sbl_cnt: &str, num_cnt: &str) -> (r: bool)
        ensures
            r == (valid_count_text(ltr_cnt@) && valid_count_text(sbl_cnt@) && valid_count_text(
                num_cnt@,
            )),
    {
        check_count_text(ltr_cnt) && check_count_text(sbl_cnt) && check_count_text(num_cnt)
    }

    /// Builds a generator from three decimal counts, with the full default
    /// pools, an empty key, and the default unit of 65535. Fails with
    /// `InvalidNumber` exactly when some count is not a nonempty string of
    /// ASCII digits.
    pub fn new(ltr_cnt: &str, sbl_cnt: &str, num_cnt: &str) -> (r: Result<RandKey, GenError>)
        ensures
            match r {
                Ok(k) => {
                    &&& valid_count_text(ltr_cnt@)
                    &&& valid_count_text(sbl_cnt@)
                    &&& valid_count_text(num_cnt@)
                    &&& k.wf()
                    &&& k.cnt_of(ASCIIExcludeCtrl::Alphabetic) == dec_value(ltr_cnt@)
                    &&& k.cnt_of(ASCIIExcludeCtrl::Punctuation) == dec_value(sbl_cnt@)
                    &&& k.cnt_of(ASCIIExcludeCtrl::Digit) == dec_value(num_cnt@)
                    &&& k.key_chars() == Seq::<char>::empty()
                    &&& k.unit_val() == 65535
                    &&& forall|c: char, kk: ASCIIExcludeCtrl|
                        k.pool_of(kk).contains(c) <==> is_class(c, kk)
                },
                Err(e) => {
                    &&& e == GenError::InvalidNumber
                    &&& !(valid_count_text(ltr_cnt@) && valid_count_text(sbl_cnt@)
                        && valid_count_text(num_cnt@))
                },
            },
    {
        if !Self::check_init(ltr_cnt, sbl_cnt, num_cnt) {
            return Err(GenError::InvalidNumber);
        }
        Ok(
            RandKey {
                ltr_cnt: big_parse_decimal(ltr_cnt),
                sbl_cnt: big_parse_decimal(sbl_cnt),
                num_cnt: big_parse_decimal(num_cnt),
                key: String::new(),
                unit: big_from_u64(65535),
                ltr_pool: default_class_pool(ASCIIExcludeCtrl::Alphabetic),
                sbl_pool: default_class_pool(ASCIIExcludeCtrl::Punctuation),
                num_pool: default_class_pool(ASCIIExcludeCtrl::Digit),
            },
        )
    }

    /// The current key text.
    pub fn key(&self) -> (r: &str)
        ensures
            r@ == self.key_chars(),
    {
        self.key.as_str()
    }

    /// The configured unit, as decimal text.
    pub fn unit(&self) -> (r: String)
        ensures
            valid_count_text(r@),
            dec_value(r@) == self.unit_val(),
    {
        big_to_decimal(&self.unit)
    }

    /// Reconfigures the unit from decimal text. Fails with `InvalidNumber`
    /// exactly when the text is not a count, and with `InvalidUnit` exactly
    /// when it parses to zero; on failure nothing changes.
    pub fn set_unit(&mut self, val: &str) -> (r: Result<(), GenError>)
        ensures
            match r {
                Ok(()) => {
                    &&& valid_count_text(val@)
                    &&& dec_value(val@) > 0
                    &&& final(self).unit_val() == dec_value(val@)
                    &&& final(self).key@ == old(self).key@
                    &&& final(self).ltr_cnt == old(self).ltr_cnt
                    &&& final(self).sbl_cnt == old(self).sbl_cnt
                    &&& final(self).num_cnt == old(self).num_cnt
                    &&& final(self).ltr_pool@ == old(self).ltr_pool@
                    &&& final(self).sbl_pool@ == old(self).sbl_pool@
                    &&& final(self).num_pool@ == old(self).num_pool@
                },
                Err(e) => {
                    &&& *final(self) == *old(self)
                    &&& (e == GenError::InvalidNumber <==> !valid_count_text(val@))
                    &&& (e == GenError::InvalidUnit <==> (valid_count_text(val@) && dec_value(
                        val@,
                    ) == 0))
                    &&& (e == GenError::InvalidNumber || e == GenError::InvalidUnit)
                },
            },
    {
        if !check_count_text(val) {
            return Err(GenError::InvalidNumber);
        }
        let v = big_parse_decimal(val);
        let zero = big_from_u64(0);
        if big_eq(&v, &zero) {
            Err(GenError::InvalidUnit)
        } else {
            self.unit = v;
            Ok(())
        }
    }

    /// The requested count of one class, as decimal text.
    pub fn get_cnt(&self, kind: ASCIIExcludeCtrl) -> (r: String)
        ensures
            valid_count_text(r@),
            dec_value(r@) == self.cnt_of(kind),
    {
        match kind {
            ASCIIExcludeCtrl::Alphabetic => big_to_decimal(&self.ltr_cnt),
            ASCIIExcludeCtrl::Punctuation => big_to_decimal(&self.sbl_cnt),
            ASCIIExcludeCtrl::Digit => big_to_decimal(&self.num_cnt),
        }
    }

    /// Reconfigures the requested count of one class from decimal text.
    pub fn set_cnt(&mut self, kind: ASCIIExcludeCtrl, val: &str)
        requires
            valid_count_text(val@),
        ensures
            final(self).cnt_of(kind) == dec_value(val@),
            forall|k: ASCIIExcludeCtrl|
                k != kind ==> final(self).cnt_of(k) == old(self).cnt_of(k),
            final(self).key@ == old(self).key@,
            final(self).unit == old(self).unit,
            final(self).ltr_pool@ == old(self).ltr_pool@,
            final(self).sbl_pool@ == old(self).sbl_pool@,
            final(self).num_pool@ == old(self).num_pool@,
    {
        match kind {
            ASCIIExcludeCtrl::Alphabetic => self.ltr_cnt = big_parse_decimal(val),
            ASCIIExcludeCtrl::Punctuation => self.sbl_cnt = big_parse_decimal(val),
            ASCIIExcludeCtrl::Digit => self.num_cnt = big_parse_decimal(val),
        }
    }

    /// The key's length in characters, as decimal text. Keys built by this
    /// library are ASCII, so this equals their byte length.
    pub fn len(&self) -> (r: String)
        ensures
            valid_count_text(r@),
            dec_value(r@) == self.key_chars().len(),
    {
        let n = self.key.as_str().unicode_len();
        big_to_decimal(&big_from_u64(n as u64))
    }

    /// Whether the key is empty.
    pub fn is_empty(&self) -> (r: bool)
        ensures
            r == (self.key_chars().len() == 0),
    {
        self.key.as_str().unicode_len() == 0
    }

    /// One class pool, as single-character strings in pool order.
    pub fn data(&self, kind: ASCIIExcludeCtrl) -> (r: Vec<String>)
        ensures
            strings_match_pool(r@, self.pool_of(kind)),
    {
        let pool = match kind {
            ASCIIExcludeCtrl::Alphabetic => &self.ltr_pool,
            ASCIIExcludeCtrl::Punctuation => &self.sbl_pool,
            ASCIIExcludeCtrl::Digit => &self.num_pool,
        };
        let mut r: Vec<String> = Vec::new();
        let mut i: usize = 0;
        while i < pool.len()
            invariant
                i <= pool@.len(),
                r@.len() == i,
                forall|j: int| 0 <= j < i ==> (#[trigger] r@[j])@ == seq![pool@[j]],
            decreases pool@.len() - i,
        {
            r.push(char_to_string(pool[i]));
            i = i + 1;
        }
        r
    }

    /// The three pools, in class order, as single-character strings.
    pub fn all_data(&self) -> (r: Vec<Vec<String>>)
        ensures
            r@.len() == 3,
            strings_match_pool(r@[0]@, self.pool_of(ASCIIExcludeCtrl::Alphabetic)),
            strings_match_pool(r@[1]@, self.pool_of(ASCIIExcludeCtrl::Punctuation)),
            strings_match_pool(r@[2]@, self.pool_of(ASCIIExcludeCtrl::Digit)),
    {
        let mut r: Vec<Vec<String>> = Vec::new();
        r.push(self.data(ASCIIExcludeCtrl::Alphabetic));
        r.push(self.data(ASCIIExcludeCtrl::Punctuation));
        r.push(self.data(ASCIIExcludeCtrl::Digit));
        r
    }

    /// Empties one class pool; counts, key and unit are untouched.
    pub fn clear(&mut self, kind: ASCIIExcludeCtrl)
        ensures
            final(self).pool_of(kind) == Seq::<char>::empty(),
            forall|k: ASCIIExcludeCtrl|
                k != kind ==> final(self).pool_of(k) == old(self).pool_of(k),
            final(self).same_but_pools(old(self)),
            old(self).wf() ==> final(self).wf(),
    {
        match kind {
            ASCIIExcludeCtrl::Alphabetic => self.ltr_pool = Vec::new(),
            ASCIIExcludeCtrl::Punctuation => self.sbl_pool = Vec::new(),
            ASCIIExcludeCtrl::Digit => self.num_pool = Vec::new(),
        }
    }

    /// Empties all three pools; counts, key and unit are untouched.
    pub fn clear_all(&mut self)
        ensures
            forall|k: ASCIIExcludeCtrl| final(self).pool_of(k) == Seq::<char>::empty(),
            final(self).same_but_pools(old(self)),
            old(self).wf() ==> final(self).wf(),
    {
        self.ltr_pool = Vec::new();
        self.sbl_pool = Vec::new();
        self.num_pool = Vec::new();
        proof {
            assert(self.ltr_pool@ =~= Seq::<char>::empty());
            assert(self.sbl_pool@ =~= Seq::<char>::empty());
            assert(self.num_pool@ =~= Seq::<char>::empty());
        }
    }

    /// Validation before generation: succeeds exactly when every class with
    /// a nonzero requested count has a non-empty pool; otherwise fails with
    /// `MissChar`.
    pub fn check_data(&self) -> (r: Result<(), GenError>)
        ensures
            r is Ok <==> self.satisfiable(),
            r is Err ==> r == Err::<(), GenError>(GenError::MissChar),
    {
        let zero = big_from_u64(0);
        let miss_ltr = !big_eq(&self.ltr_cnt, &zero) && self.ltr_pool.len() == 0;
        let miss_sbl = !big_eq(&self.sbl_cnt, &zero) && self.sbl_pool.len() == 0;
        let miss_num = !big_eq(&self.num_cnt, &zero) && self.num_pool.len() == 0;
        if miss_ltr || miss_sbl || miss_num {
            Err(GenError::MissChar)
        } else {
            Ok(())
        }
    }

    /// Every one of the characters occurs in some pool.
    pub open spec fn chars_present(&self, cs: Seq<char>) -> bool {
        forall|j: int|
            0 <= j < cs.len() ==> (self.ltr_pool@.contains(#[trigger] cs[j])
                || self.sbl_pool@.contains(cs[j]) || self.num_pool@.contains(cs[j]))
    }

    /// Runtime test for `chars_present`.
    fn all_present(&self, cs: &Vec<char>) -> (r: bool)
        ensures
            r == self.chars_present(cs@),
    {
        let mut j: usize = 0;
        while j < cs.len()
            invariant
                j <= cs@.len(),
                forall|t: int|
                    0 <= t < j ==> (self.ltr_pool@.contains(#[trigger] cs@[t])
                        || self.sbl_pool@.contains(cs@[t]) || self.num_pool@.contains(cs@[t])),
            decreases cs@.len() - j,
        {
            let c = cs[j];
            if !(contains_char(&self.ltr_pool, c) || contains_char(&self.sbl_pool, c)
                || contains_char(&self.num_pool, c)) {
                return false;
            }
            j = j + 1;
        }
        true
    }

    /// Classifies the given single-character tokens and appends each to the
    /// pool of its class, in token order, skipping characters already
    /// present and those (such as the space) that belong to no class.
    /// Fails with `InvalidChar` exactly when some token is not one ASCII
    /// character; then nothing changes.
    pub fn add_item(&mut self, items: &Vec<String>) -> (r: Result<(), GenError>)
        requires
            old(self).wf(),
        ensures
            final(self).wf(),
            match r {
                Ok(()) => {
                    &&& all_tokens_valid(items@)
                    &&& final(self).ltr_pool@ == add_to_pool(
                        old(self).ltr_pool@,
                        token_chars(items@),
                        ASCIIExcludeCtrl::Alphabetic,
                    )
                    &&& final(self).sbl_pool@ == add_to_pool(
                        old(self).sbl_pool@,
                        token_chars(items@),
                        ASCIIExcludeCtrl::Punctuation,
                    )
                    &&& final(self).num_pool@ == add_to_pool(
                        old(self).num_pool@,
                        token_chars(items@),
                        ASCIIExcludeCtrl::Digit,
                    )
                    &&& final(self).same_but_pools(old(self))
                },
                Err(e) => {
                    &&& e == GenError::InvalidChar
                    &&& !all_tokens_valid(items@)
                    &&& *final(self) == *old(self)
                },
            },
    {
        let cs = match tokens_to_chars(items) {
            Some(cs) => cs,
            None => {
                return Err(GenError::InvalidChar);
            },
        };
        self.ltr_pool = extended_pool(&self.ltr_pool, &cs, ASCIIExcludeCtrl::Alphabetic);
        self.sbl_pool = extended_pool(&self.sbl_pool, &cs, ASCIIExcludeCtrl::Punctuation);
        self.num_pool = extended_pool(&self.num_pool, &cs, ASCIIExcludeCtrl::Digit);
        proof {
            lemma_add_inv(
                old(self).ltr_pool@,
                token_chars(items@),
                ASCIIExcludeCtrl::Alphabetic,
            );
            lemma_add_inv(
                old(self).sbl_pool@,
                token_chars(items@),
                ASCIIExcludeCtrl::Punctuation,
            );
            lemma_add_inv(old(self).num_pool@, token_chars(items@), ASCIIExcludeCtrl::Digit);
        }
        Ok(())
    }

    /// Replaces all three pools wholesale with the classification of the
    /// given single-character tokens, then validates the new state: the
    /// result is `Ok` exactly when every class with a nonzero count kept a
    /// non-empty pool, and `MissChar` otherwise — the pools stay replaced
    /// either way. Fails with `InvalidChar`, changing nothing, exactly when
    /// some token is not one ASCII character.
    pub fn replace_data(&mut self, items: &Vec<String>) -> (r: Result<(), GenError>)
        requires
            old(self).wf(),
        ensures
            final(self).wf(),
            match r {
                Ok(()) => {
                    &&& all_tokens_valid(items@)
                    &&& replaced_pools(final(self), old(self), token_chars(items@))
                    &&& final(self).satisfiable()
                },
                Err(e) => {
                    ||| {
                        &&& e == GenError::InvalidChar
                        &&& !all_tokens_valid(items@)
                        &&& *final(self) == *old(self)
                    }
                    ||| {
                        &&& e == GenError::MissChar
                        &&& all_tokens_valid(items@)
                        &&& replaced_pools(final(self), old(self), token_chars(items@))
                        &&& !final(self).satisfiable()
                    }
                },
            },
    {
        let cs = match tokens_to_chars(items) {
            Some(cs) => cs,
            None => {
                return Err(GenError::InvalidChar);
            },
        };
        let empty: Vec<char> = Vec::new();
        self.ltr_pool = extended_pool(&empty, &cs, ASCIIExcludeCtrl::Alphabetic);
        self.sbl_pool = extended_pool(&empty, &cs, ASCIIExcludeCtrl::Punctuation);
        self.num_pool = extended_pool(&empty, &cs, ASCIIExcludeCtrl::Digit);
        proof {
            lemma_add_inv(empty@, token_chars(items@), ASCIIExcludeCtrl::Alphabetic);
            lemma_add_inv(empty@, token_chars(items@), ASCIIExcludeCtrl::Punctuation);
            lemma_add_inv(empty@, token_chars(items@), ASCIIExcludeCtrl::Digit);
        }
        self.check_data()
    }

    /// Deletes the named characters from whichever pools hold them. Fails
    /// with `InvalidChar`, changing nothing, exactly when some token is not
    /// one ASCII character, and with `DelNonExistValue`, changing nothing,
    /// exactly when some named character is absent from all three pools.
    pub fn del_item(&mut self, items: &Vec<String>) -> (r: Result<(), GenError>)
        requires
            old(self).wf(),
        ensures
            final(self).wf(),
            match r {
                Ok(()) => {
                    &&& all_tokens_valid(items@)
                    &&& old(self).chars_present(token_chars(items@))
                    &&& final(self).ltr_pool@ == without(
                        old(self).ltr_pool@,
                        token_chars(items@),
                    )
                    &&& final(self).sbl_pool@ == without(
                        old(self).sbl_pool@,
                        token_chars(items@),
                    )
                    &&& final(self).num_pool@ == without(
                        old(self).num_pool@,
                        token_chars(items@),
                    )
                    &&& final(self).same_but_pools(old(self))
                },
                Err(e) => {
                    &&& *final(self) == *old(self)
                    &&& (e == GenError::InvalidChar <==> !all_tokens_valid(items@))
                    &&& (e == GenError::DelNonExistValue <==> (all_tokens_valid(items@)
                        && !old(self).chars_present(token_chars(items@))))
                    &&& (e == GenError::InvalidChar || e == GenError::DelNonExistValue)
                },
            },
    {
        let cs = match tokens_to_chars(items) {
            Some(cs) => cs,
            None => {
                return Err(GenError::InvalidChar);
            },
        };
        if !self.all_present(&cs) {
            return Err(GenError::DelNonExistValue);
        }
        self.ltr_pool = removed_pool(&self.ltr_pool, &cs);
        self.sbl_pool = removed_pool(&self.sbl_pool, &cs);
        self.num_pool = removed_pool(&self.num_pool, &cs);
        proof {
            lemma_without_inv(
                old(self).ltr_pool@,
                token_chars(items@),
                ASCIIExcludeCtrl::Alphabetic,
            );
            lemma_without_inv(
                old(self).sbl_pool@,
                token_chars(items@),
                ASCIIExcludeCtrl::Punctuation,
            );
            lemma_without_inv(
                old(self).num_pool@,
                token_chars(items@),
                ASCIIExcludeCtrl::Digit,
            );
        }
        Ok(())
    }

    /// Generates a new key. Validation runs first: if some class with a
    /// nonzero count has an empty pool, the call fails with `MissChar` and
    /// the generator — its previous key included — is untouched. Otherwise
    /// each class's count is split into unit-bounded chunks, the chunks are
    /// filled with uniform random draws from the class pools in parallel,
    /// the outputs are concatenated in fixed class order, and the whole is
    /// shuffled into the new key, which then holds exactly the requested
    /// number of characters of every class, each from the pool of its
    /// class. The bound on counts or unit keeps every chunk addressable.
    pub fn join(&mut self) -> (r: Result<(), GenError>)
        requires
            old(self).wf(),
            nat_of(old(self).ltr_cnt) <= usize::MAX || nat_of(old(self).unit) <= usize::MAX,
            nat_of(old(self).sbl_cnt) <= usize::MAX || nat_of(old(self).unit) <= usize::MAX,
            nat_of(old(self).num_cnt) <= usize::MAX || nat_of(old(self).unit) <= usize::MAX,
        ensures
            final(self).wf(),
            match r {
                Ok(()) => {
                    &&& old(self).satisfiable()
                    &&& final(self).same_but_key(old(self))
                    &&& final(self).key@.len() == old(self).cnt_of(ASCIIExcludeCtrl::Alphabetic)
                        + old(self).cnt_of(ASCIIExcludeCtrl::Punctuation) + old(self).cnt_of(
                        ASCIIExcludeCtrl::Digit,
                    )
                    &&& forall|k: ASCIIExcludeCtrl|
                        count_class(final(self).key@, k) == old(self).cnt_of(k)
                    &&& forall|i: int|
                        0 <= i < final(self).key@.len() ==> old(self).char_from_pools(
                            #[trigger] final(self).key@[i],
                        )
                },
                Err(e) => {
                    &&& e == GenError::MissChar
                    &&& !old(self).satisfiable()
                    &&& *final(self) == *old(self)
                },
            },
    {
        match self.check_data() {
            Err(e) => {
                return Err(e);
            },
            Ok(()) => {},
        }
        let l_chars = class_chars(&self.ltr_cnt, &self.unit, &self.ltr_pool);
        let s_chars = class_chars(&self.sbl_cnt, &self.unit, &self.sbl_pool);
        let n_chars = class_chars(&self.num_cnt, &self.unit, &self.num_pool);
        let ghost lseq = l_chars@;
        let ghost sseq = s_chars@;
        let ghost nseq = n_chars@;
        let mut all = l_chars;
        let mut s_chars = s_chars;
        let mut n_chars = n_chars;
        all.append(&mut s_chars);
        all.append(&mut n_chars);
        let ghost inter = all@;
        proof {
            assert(inter == (lseq + sseq) + nseq);
            lemma_class_segment(lseq, old(self).ltr_pool@, ASCIIExcludeCtrl::Alphabetic);
            lemma_class_segment(sseq, old(self).sbl_pool@, ASCIIExcludeCtrl::Punctuation);
            lemma_class_segment(nseq, old(self).num_pool@, ASCIIExcludeCtrl::Digit);
            lemma_grouped_counts(lseq, sseq, nseq);
        }
        shuffle_chars(&mut all);
        let key_str = string_of_chars(&all);
        self.key = key_str;
        proof {
            let fk = self.key@;
            assert(fk.to_multiset() == inter.to_multiset());
            assert forall|k: ASCIIExcludeCtrl|
                count_class(fk, k) == old(self).cnt_of(k) by {
                lemma_count_class_multiset(fk, inter, k);
            }
            lemma_contains_multiset(fk, inter);
            assert forall|i: int|
                0 <= i < fk.len() implies old(self).char_from_pools(#[trigger] fk[i]) by {
                assert(fk.contains(fk[i]));
                assert(inter.contains(fk[i]));
                let j = choose|j: int| 0 <= j < inter.len() && inter[j] == fk[i];
                if j < lseq.len() {
                    assert(lseq[j] == fk[i]);
                    assert(old(self).ltr_pool@.contains(fk[i]));
                } else if j < lseq.len() + sseq.len() {
                    assert(sseq[j - lseq.len()] == fk[i]);
                    assert(old(self).sbl_pool@.contains(fk[i]));
                } else {
                    assert(nseq[j - lseq.len() - sseq.len()] == fk[i]);
                    assert(old(self).num_pool@.contains(fk[i]));
                }
            }
        }
        Ok(())
    }

    /// Adopts an existing key. `Update` replaces the configured counts with
    /// the key's classified composition; `Check` demands that composition
    /// match the configured counts first, failing with `InconsistentField`.
    /// Fails with `InvalidChar`, changing nothing, exactly when the key
    /// holds a non-ASCII character.
    pub fn set_key(&mut self, val: &str, op: SetRandKeyOp) -> (r: Result<(), GenError>)
        ensures
            old(self).wf() ==> final(self).wf(),
            match r {
                Ok(()) => {
                    &&& is_ascii_seq(val@)
                    &&& final(self).key@ == val@
                    &&& final(self).unit == old(self).unit
                    &&& final(self).ltr_pool@ == old(self).ltr_pool@
                    &&& final(self).sbl_pool@ == old(self).sbl_pool@
                    &&& final(self).num_pool@ == old(self).num_pool@
                    &&& match op {
                        SetRandKeyOp::Update => {
                            &&& final(self).cnt_of(ASCIIExcludeCtrl::Alphabetic) == count_class(
                                val@,
                                ASCIIExcludeCtrl::Alphabetic,
                            )
                            &&& final(self).cnt_of(ASCIIExcludeCtrl::Punctuation) == count_class(
                                val@,
                                ASCIIExcludeCtrl::Punctuation,
                            )
                            &&& final(self).cnt_of(ASCIIExcludeCtrl::Digit) == count_class(
                                val@,
                                ASCIIExcludeCtrl::Digit,
                            )
                        },
                        SetRandKeyOp::Check => {
                            &&& final(self).ltr_cnt == old(self).ltr_cnt
                            &&& final(self).sbl_cnt == old(self).sbl_cnt
                            &&& final(self).num_cnt == old(self).num_cnt
                            &&& composition_matches(old(self), val@)
                        },
                    }
                },
                Err(e) => {
                    &&& *final(self) == *old(self)
                    &&& (e == GenError::InvalidChar <==> !is_ascii_seq(val@))
                    &&& (e == GenError::InconsistentField <==> (is_ascii_seq(val@)
                        && op is Check && !composition_matches(old(self), val@)))
                    &&& (e == GenError::InvalidChar || e == GenError::InconsistentField)
                },
            },
    {
        let cs = chars_of_str(val);
        let counts = match classify_counts(&cs) {
            Some(t) => t,
            None => {
                return Err(GenError::InvalidChar);
            },
        };
        let (l, s, n) = counts;
        match op {
            SetRandKeyOp::Update => {
                self.ltr_cnt = big_from_u64(l as u64);
                self.sbl_cnt = big_from_u64(s as u64);
                self.num_cnt = big_from_u64(n as u64);
                self.key = val.to_owned();
                Ok(())
            },
            SetRandKeyOp::Check => {
                let lb = big_from_u64(l as u64);
                let sb = big_from_u64(s as u64);
                let nb = big_from_u64(n as u64);
                if big_eq(&self.ltr_cnt, &lb) && big_eq(&self.sbl_cnt, &sb) && big_eq(
                    &self.num_cnt,
                    &nb,
                ) {
                    self.key = val.to_owned();
                    Ok(())
                } else {
                    Err(GenError::InconsistentField)
                }
            },
        }
    }
}

/// The key text's classified composition equals the generator's counts.
pub open spec fn composition_matches(rk: &RandKey, key: Seq<char>) -> bool {
    &&& count_class(key, ASCIIExcludeCtrl::Alphabetic) == rk.cnt_of(ASCIIExcludeCtrl::Alphabetic)
    &&& count_class(key, ASCIIExcludeCtrl::Punctuation) == rk.cnt_of(
        ASCIIExcludeCtrl::Punctuation,
    )
    &&& count_class(key, ASCIIExcludeCtrl::Digit) == rk.cnt_of(ASCIIExcludeCtrl::Digit)
}

/// The pools of `rk` are those of `prev` replaced wholesale by the
/// classification of the given characters; counts, key and unit are kept.
pub open spec fn replaced_pools(rk: &RandKey, prev: &RandKey, cs: Seq<char>) -> bool {
    &&& rk.ltr_pool@ == add_to_pool(Seq::<char>::empty(), cs, ASCIIExcludeCtrl::Alphabetic)
    &&& rk.sbl_pool@ == add_to_pool(Seq::<char>::empty(), cs, ASCIIExcludeCtrl::Punctuation)
    &&& rk.num_pool@ == add_to_pool(Seq::<char>::empty(), cs, ASCIIExcludeCtrl::Digit)
    &&& rk.same_but_pools(prev)
}

/// Characters drawn from a well-formed class pool all belong to the class.
proof fn lemma_class_segment(s: Seq<char>, pool: Seq<char>, k: ASCIIExcludeCtrl)
    requires
        all_from(s, pool),
        pool_inv(pool, k),
    ensures
        forall|i: int| 0 <= i < s.len() ==> is_class(#[trigger] s[i], k),
{
    assert forall|i: int| 0 <= i < s.len() implies is_class(s[i], k) by {
        assert(pool.contains(s[i]));
        let j = choose|j: int| 0 <= j < pool.len() && pool[j] == s[i];
        assert(is_class(pool[j], k));
    }
}

/// In a class-grouped concatenation, each class is counted exactly by the
/// length of its own segment: the classes are mutually exclusive, so the
/// other segments contribute nothing.
proof fn lemma_grouped_counts(lseq: Seq<char>, sseq: Seq<char>, nseq: Seq<char>)
    requires
        forall|i: int|
            0 <= i < lseq.len() ==> is_class(#[trigger] lseq[i], ASCIIExcludeCtrl::Alphabetic),
        forall|i: int|
            0 <= i < sseq.len() ==> is_class(#[trigger] sseq[i], ASCIIExcludeCtrl::Punctuation),
        forall|i: int|
            0 <= i < nseq.len() ==> is_class(#[trigger] nseq[i], ASCIIExcludeCtrl::Digit),
    ensures
        count_class((lseq + sseq) + nseq, ASCIIExcludeCtrl::Alphabetic) == lseq.len(),
        count_class((lseq + sseq) + nseq, ASCIIExcludeCtrl::Punctuation) == sseq.len(),
        count_class((lseq + sseq) + nseq, ASCIIExcludeCtrl::Digit) == nseq.len(),
{
    let inter = (lseq + sseq) + nseq;
    assert forall|i: int, k: ASCIIExcludeCtrl|
        0 <= i < lseq.len() && k != ASCIIExcludeCtrl::Alphabetic implies !(#[trigger] is_class(
        lseq[i],
        k,
    )) by {
        lemma_classes_exclusive(lseq[i]);
    }
    assert forall|i: int, k: ASCIIExcludeCtrl|
        0 <= i < sseq.len() && k != ASCIIExcludeCtrl::Punctuation implies !(#[trigger] is_class(
        sseq[i],
        k,
    )) by {
        lemma_classes_exclusive(sseq[i]);
    }
    assert forall|i: int, k: ASCIIExcludeCtrl|
        0 <= i < nseq.len() && k != ASCIIExcludeCtrl::Digit implies !(#[trigger] is_class(
        nseq[i],
        k,
    )) by {
        lemma_classes_exclusive(nseq[i]);
    }
    let pa = class_pred(ASCIIExcludeCtrl::Alphabetic);
    let ps = class_pred(ASCIIExcludeCtrl::Punctuation);
    let pn = class_pred(ASCIIExcludeCtrl::Digit);
    Seq::filter_distributes_over_add(lseq + sseq, nseq, pa);
    Seq::filter_distributes_over_add(lseq, sseq, pa);
    lemma_filter_all(lseq, pa);
    lemma_filter_none(sseq, pa);
    lemma_filter_none(nseq, pa);
    assert(inter.filter(pa) =~= lseq);
    Seq::filter_distributes_over_add(lseq + sseq, nseq, ps);
    Seq::filter_distributes_over_add(lseq, sseq, ps);
    lemma_filter_none(lseq, ps);
    lemma_filter_all(sseq, ps);
    lemma_filter_none(nseq, ps);
    assert(inter.filter(ps) =~= sseq);
    Seq::filter_distributes_over_add(lseq + sseq, nseq, pn);
    Seq::filter_distributes_over_add(lseq, sseq, pn);
    lemma_filter_none(lseq, pn);
    lemma_filter_none(sseq, pn);
    lemma_filter_all(nseq, pn);
    assert(inter.filter(pn) =~= nseq);
}

/// A generic trait for converting a value to a `RandKey`.
pub trait ToRandKey {
    /// Converts the value of `self` to a `RandKey`.
    fn to_randkey(&self) -> Option<RandKey>;
}

impl ToRandKey for str {
    /// A generator whose counts are the text's classified composition, with
    /// the default pools and the text adopted as the key; `None` exactly
    /// when the text holds a non-ASCII character.
    fn to_randkey(&self) -> (r: Option<RandKey>)
        ensures
            match r {
                Some(k) => {
                    &&& is_ascii_seq(self@)
                    &&& k.wf()
                    &&& k.key@ == self@
                    &&& k.cnt_of(ASCIIExcludeCtrl::Alphabetic) == count_class(
                        self@,
                        ASCIIExcludeCtrl::Alphabetic,
                    )
                    &&& k.cnt_of(ASCIIExcludeCtrl::Punctuation) == count_class(
                        self@,
                        ASCIIExcludeCtrl::Punctuation,
                    )
                    &&& k.cnt_of(ASCIIExcludeCtrl::Digit) == count_class(
                        self@,
                        ASCIIExcludeCtrl::Digit,
                    )
                },
                None => !is_ascii_seq(self@),
            },
    {
        proof {
            reveal_strlit("0");
        }
        let mut rk = match RandKey::new("0", "0", "0") {
            Ok(rk) => rk,
            Err(_) => {
                proof {
                    assert(false);
                }
                return None;
            },
        };
        match rk.set_key(self, SetRandKeyOp::Update) {
            Ok(()) => Some(rk),
            Err(_) => None,
        }
    }
}

/// After a clear of one class, a read of that class's data yields nothing:
/// no strings match an empty pool.
pub proof fn lemma_clear_then_data(ss: Seq<String>, rk: &RandKey, k: ASCIIExcludeCtrl)
    requires
        rk.pool_of(k) == Seq::<char>::empty(),
        strings_match_pool(ss, rk.pool_of(k)),
    ensures
        ss == Seq::<String>::empty(),
{
    assert(ss =~= Seq::<String>::empty());
}

/// Replacing the pools twice with the same tokens leaves exactly the state
/// of a single replacement: the second pass rebuilds the same pools from
/// the same classification and touches nothing else.
pub proof fn lemma_replace_idempotent(
    rk1: &RandKey,
    rk2: &RandKey,
    rk3: &RandKey,
    cs: Seq<char>,
)
    requires
        replaced_pools(rk2, rk1, cs),
        replaced_pools(rk3, rk2, cs),
    ensures
        rk3.ltr_pool@ == rk2.ltr_pool@,
        rk3.sbl_pool@ == rk2.sbl_pool@,
        rk3.num_pool@ == rk2.num_pool@,
        rk3.key@ == rk2.key@,
        rk3.ltr_cnt == rk2.ltr_cnt,
        rk3.sbl_cnt == rk2.sbl_cnt,
        rk3.num_cnt == rk2.num_cnt,
        rk3.unit == rk2.unit,
{
}

/// The single characters the tokens carry; `None` when some token is not
/// one ASCII character.
fn tokens_to_chars(items: &Vec<String>) -> (r: Option<Vec<char>>)
    ensures
        match r {
            Some(cs) => all_tokens_valid(items@) && cs@ == token_chars(items@),
            None => !all_tokens_valid(items@),
        },
{
    let mut cs: Vec<char> = Vec::new();
    let mut i: usize = 0;
    while i < items.len()
        invariant
            i <= items@.len(),
            cs@.len() == i,
            forall|j: int|
                0 <= j < i ==> ((#[trigger] items@[j])@.len() == 1 && is_ascii_char(
                    items@[j]@[0],
                )),
            forall|j: int| 0 <= j < i ==> #[trigger] cs@[j] == items@[j]@[0],
        decreases items@.len() - i,
    {
        let t = &items[i];
        if t.as_str().unicode_len() != 1 {
            return None;
        }
        let c = t.as_str().get_char(0);
        if !char_is_ascii(c) {
            return None;
        }
        cs.push(c);
        i = i + 1;
    }
    proof {
        assert(cs@ =~= token_chars(items@));
    }
    Some(cs)
}

/// Counts the letters, punctuation characters and digits of a character
/// vector; `None` when it holds a non-ASCII character.
fn classify_counts(cs: &Vec<char>) -> (r: Option<(usize, usize, usize)>)
    ensures
        match r {
            Some(t) => {
                &&& is_ascii_seq(cs@)
                &&& t.0 as nat == count_class(cs@, ASCIIExcludeCtrl::Alphabetic)
                &&& t.1 as nat == count_class(cs@, ASCIIExcludeCtrl::Punctuation)
                &&& t.2 as nat == count_class(cs@, ASCIIExcludeCtrl::Digit)
            },
            None => !is_ascii_seq(cs@),
        },
{
    let mut l: usize = 0;
    let mut s: usize = 0;
    let mut n: usize = 0;
    let mut i: usize = 0;
    while i < cs.len()
        invariant
            i <= cs@.len(),
            l <= i && s <= i && n <= i,
            l as nat == count_class(cs@.take(i as int), ASCIIExcludeCtrl::Alphabetic),
            s as nat == count_class(cs@.take(i as int), ASCIIExcludeCtrl::Punctuation),
            n as nat == count_class(cs@.take(i as int), ASCIIExcludeCtrl::Digit),
            forall|j: int| 0 <= j < i ==> is_ascii_char(#[trigger] cs@[j]),
        decreases cs@.len() - i,
    {
        let c = cs[i];
        if !char_is_ascii(c) {
            return None;
        }
        proof {
            lemma_count_class_step(cs@, i as int, ASCIIExcludeCtrl::Alphabetic);
            lemma_count_class_step(cs@, i as int, ASCIIExcludeCtrl::Punctuation);
            lemma_count_class_step(cs@, i as int, ASCIIExcludeCtrl::Digit);
            lemma_classes_exclusive(c);
        }
        match class_of(c) {
            Some(ASCIIExcludeCtrl::Alphabetic) => l = l + 1,
            Some(ASCIIExcludeCtrl::Punctuation) => s = s + 1,
            Some(ASCIIExcludeCtrl::Digit) => n = n + 1,
            None => (),
        }
        i = i + 1;
    }
    proof {
        assert(cs@.take(cs@.len() as int) =~= cs@);
    }
    Some((l, s, n))
}

} // verus!
