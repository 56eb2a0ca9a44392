use num_bigint::BigUint;
use rand_key::assemble::{assemble_unit, class_chars};
use rand_key::chunk::chunk_counts;
use rand_key::shuffle::shuffle_chars;
use rand_key::{ASCIIExcludeCtrl, GenError, RandKey};

fn s(t: &str) -> String {
    t.to_string()
}

fn count_where(key: &str, pred: fn(char) -> bool) -> usize {
    key.chars().filter(|c| pred(*c)).count()
}

#[test]
fn join_with_default_pools() {
    // Scenario: counts (10,2,3) with the default pools.
    let mut rk = RandKey::new("10", "2", "3").unwrap();
    rk.join().unwrap();
    assert_eq!(&rk.len(), "15");
    assert_eq!(rk.key().len(), 15);
    assert_eq!(count_where(rk.key(), |c| c.is_ascii_alphabetic()), 10);
    assert_eq!(count_where(rk.key(), |c| c.is_ascii_punctuation()), 2);
    assert_eq!(count_where(rk.key(), |c| c.is_ascii_digit()), 3);
}

#[test]
fn join_with_replaced_pool() {
    // Scenario: counts (0,0,2) and a digit pool of "1" and "2".
    let mut rk = RandKey::new("0", "0", "2").unwrap();
    rk.replace_data(&vec![s("1"), s("2")]).unwrap();
    rk.join().unwrap();
    assert_eq!(rk.key().len(), 2);
    assert!(rk.key().chars().all(|c| c == '1' || c == '2'));
}

#[test]
fn join_missing_class_fails_and_keeps_key() {
    let mut rk = RandKey::new("0", "0", "2").unwrap();
    rk.replace_data(&vec![s("1"), s("2")]).unwrap();
    rk.join().unwrap();
    let prior = rk.key().to_string();
    // Now make generation impossible and watch the old key survive.
    rk.set_cnt(ASCIIExcludeCtrl::Alphabetic, "1");
    assert_eq!(rk.join().unwrap_err(), GenError::MissChar);
    assert_eq!(rk.key(), prior);
}

#[test]
fn join_zero_counts_yields_empty_key() {
    let mut rk = RandKey::new("0", "0", "0").unwrap();
    rk.clear_all();
    rk.join().unwrap();
    assert_eq!(rk.key(), "");
    assert_eq!(&rk.len(), "0");
    assert!(rk.is_empty());
}

#[test]
fn join_single_character_pool() {
    let mut rk = RandKey::new("7", "0", "0").unwrap();
    rk.replace_data(&vec![s("x")]).unwrap();
    rk.join().unwrap();
    assert_eq!(rk.key(), "xxxxxxx");
}

#[test]
fn join_respects_small_units() {
    let mut rk = RandKey::new("100", "0", "0").unwrap();
    rk.set_unit("7").unwrap();
    rk.join().unwrap();
    assert_eq!(rk.key().len(), 100);
    assert!(rk.key().chars().all(|c| c.is_ascii_alphabetic()));
}

#[test]
fn chunker_sums_to_the_count() {
    // 10 split by 3: three full units and the remainder 1.
    let chunks = chunk_counts(&BigUint::from(10u32), &BigUint::from(3u32));
    assert_eq!(
        chunks,
        vec![
            BigUint::from(3u32),
            BigUint::from(3u32),
            BigUint::from(3u32),
            BigUint::from(1u32)
        ]
    );
    let total: BigUint = chunks.iter().sum();
    assert_eq!(total, BigUint::from(10u32));
}

#[test]
fn chunker_exact_division_has_no_remainder_chunk() {
    let chunks = chunk_counts(&BigUint::from(12u32), &BigUint::from(4u32));
    assert_eq!(chunks, vec![BigUint::from(4u32); 3]);
}

#[test]
fn chunker_zero_count_yields_no_chunks() {
    let chunks = chunk_counts(&BigUint::from(0u32), &BigUint::from(65535u32));
    assert!(chunks.is_empty());
}

#[test]
fn chunker_small_count_is_one_chunk() {
    let chunks = chunk_counts(&BigUint::from(5u32), &BigUint::from(65535u32));
    assert_eq!(chunks, vec![BigUint::from(5u32)]);
}

#[test]
fn assembler_draws_from_the_pool() {
    let pool = vec!['a', 'b', 'c'];
    let out = assemble_unit(40, &pool);
    assert_eq!(out.len(), 40);
    assert!(out.iter().all(|c| pool.contains(c)));
}

#[test]
fn class_chars_yields_the_requested_count() {
    let pool = vec!['q'];
    let out = class_chars(&BigUint::from(10u32), &BigUint::from(3u32), &pool);
    assert_eq!(out, vec!['q'; 10]);
}

#[test]
fn shuffle_is_a_permutation() {
    let original: Vec<char> = "aaabbcde01234!!".chars().collect();
    let mut shuffled = original.clone();
    shuffle_chars(&mut shuffled);
    assert_eq!(shuffled.len(), original.len());
    let mut a = original.clone();
    let mut b = shuffled.clone();
    a.sort();
    b.sort();
    assert_eq!(a, b);
}
