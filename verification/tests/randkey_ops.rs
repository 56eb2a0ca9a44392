use rand_key::{ASCIIExcludeCtrl, GenError, RandKey, SetRandKeyOp, ToRandKey};

fn s(t: &str) -> String {
    t.to_string()
}

#[test]
fn new_parses_counts() {
    let rk = RandKey::new("10", "2", "3").unwrap();
    assert_eq!(&rk.get_cnt(ASCIIExcludeCtrl::Alphabetic), "10");
    assert_eq!(&rk.get_cnt(ASCIIExcludeCtrl::Punctuation), "2");
    assert_eq!(&rk.get_cnt(ASCIIExcludeCtrl::Digit), "3");
    assert_eq!(rk.key(), "");
    assert!(rk.is_empty());
}

#[test]
fn new_rejects_bad_counts() {
    assert_eq!(RandKey::new("a", "2", "3").unwrap_err(), GenError::InvalidNumber);
    assert_eq!(RandKey::new("10", "", "3").unwrap_err(), GenError::InvalidNumber);
    assert_eq!(RandKey::new("10", "2", "+3").unwrap_err(), GenError::InvalidNumber);
    assert_eq!(RandKey::new("10", "2", "-3").unwrap_err(), GenError::InvalidNumber);
}

#[test]
fn new_handles_huge_counts() {
    let rk = RandKey::new("340282366920938463463374607431768211456", "0", "0").unwrap();
    assert_eq!(
        &rk.get_cnt(ASCIIExcludeCtrl::Alphabetic),
        "340282366920938463463374607431768211456"
    );
}

#[test]
fn default_unit_is_65535() {
    let rk = RandKey::new("10", "2", "3").unwrap();
    assert_eq!(&rk.unit(), "65535");
}

#[test]
fn set_unit_zero_fails() {
    // Scenario: a unit of zero is rejected.
    let mut rk = RandKey::new("10", "2", "3").unwrap();
    assert_eq!(rk.set_unit("0").unwrap_err(), GenError::InvalidUnit);
    assert_eq!(&rk.unit(), "65535");
}

#[test]
fn set_unit_updates() {
    let mut rk = RandKey::new("10", "2", "3").unwrap();
    rk.set_unit("1000").unwrap();
    assert_eq!(&rk.unit(), "1000");
    assert_eq!(rk.set_unit("12x").unwrap_err(), GenError::InvalidNumber);
    assert_eq!(&rk.unit(), "1000");
}

#[test]
fn set_cnt_updates_counts() {
    let mut rk = RandKey::new("10", "2", "3").unwrap();
    rk.set_cnt(ASCIIExcludeCtrl::Alphabetic, "20");
    assert_eq!(&rk.get_cnt(ASCIIExcludeCtrl::Alphabetic), "20");
    rk.set_cnt(ASCIIExcludeCtrl::Punctuation, "1000");
    assert_eq!(&rk.get_cnt(ASCIIExcludeCtrl::Punctuation), "1000");
    rk.set_cnt(ASCIIExcludeCtrl::Digit, "0");
    assert_eq!(&rk.get_cnt(ASCIIExcludeCtrl::Digit), "0");
}

#[test]
fn set_key_update_reclassifies() {
    let mut rk = RandKey::new("10", "2", "3").unwrap();
    assert!(rk.set_key("123456", SetRandKeyOp::Update).is_ok());
    assert_eq!(rk.key(), "123456");
    assert_eq!(&rk.len(), "6");
    assert_eq!(&rk.get_cnt(ASCIIExcludeCtrl::Alphabetic), "0");
    assert_eq!(&rk.get_cnt(ASCIIExcludeCtrl::Punctuation), "0");
    assert_eq!(&rk.get_cnt(ASCIIExcludeCtrl::Digit), "6");
}

#[test]
fn set_key_check_consistency() {
    let mut rk = RandKey::new("10", "2", "3").unwrap();
    // 10 letters, 2 punctuation characters, 3 digits: accepted.
    assert!(rk.set_key("]EH1zyqx3Bl/F8a", SetRandKeyOp::Check).is_ok());
    assert_eq!(rk.key(), "]EH1zyqx3Bl/F8a");
    // The counts stay configured, so a mismatching key is refused.
    assert_eq!(
        rk.set_key("123456", SetRandKeyOp::Check).unwrap_err(),
        GenError::InconsistentField
    );
    assert_eq!(rk.key(), "]EH1zyqx3Bl/F8a");
}

#[test]
fn set_key_rejects_non_ascii() {
    let mut rk = RandKey::new("10", "2", "3").unwrap();
    assert_eq!(
        rk.set_key("ab\u{03c0}", SetRandKeyOp::Update).unwrap_err(),
        GenError::InvalidChar
    );
    assert_eq!(rk.key(), "");
}

#[test]
fn to_randkey_classifies() {
    let rk = "=tE)n5f`sidR>BV".to_randkey().unwrap();
    assert_eq!(&rk.get_cnt(ASCIIExcludeCtrl::Alphabetic), "10");
    assert_eq!(&rk.get_cnt(ASCIIExcludeCtrl::Punctuation), "4");
    assert_eq!(&rk.get_cnt(ASCIIExcludeCtrl::Digit), "1");
    assert_eq!(rk.key(), "=tE)n5f`sidR>BV");
}

#[test]
fn to_randkey_rejects_non_ascii() {
    assert!("\u{1f980}\u{1f980}".to_randkey().is_none());
}

#[test]
fn replace_data_partitions() {
    let mut rk = RandKey::new("0", "0", "2").unwrap();
    rk.replace_data(&vec![s("1"), s("2"), s("a"), s("-")]).unwrap();
    assert_eq!(rk.data(ASCIIExcludeCtrl::Alphabetic), vec![s("a")]);
    assert_eq!(rk.data(ASCIIExcludeCtrl::Punctuation), vec![s("-")]);
    assert_eq!(rk.data(ASCIIExcludeCtrl::Digit), vec![s("1"), s("2")]);
    let all = rk.all_data();
    assert_eq!(all.len(), 3);
    assert_eq!(all[2], vec![s("1"), s("2")]);
}

#[test]
fn replace_data_missing_class_fails() {
    // Scenario: counts (10,2,3) but only a digit pool remains.
    let mut rk = RandKey::new("10", "2", "3").unwrap();
    assert_eq!(
        rk.replace_data(&vec![s("1")]).unwrap_err(),
        GenError::MissChar
    );
    // The pools are replaced nonetheless, as validation runs after the swap.
    assert_eq!(rk.data(ASCIIExcludeCtrl::Digit), vec![s("1")]);
    assert!(rk.data(ASCIIExcludeCtrl::Alphabetic).is_empty());
}

#[test]
fn replace_data_rejects_bad_tokens() {
    let mut rk = RandKey::new("0", "0", "2").unwrap();
    assert_eq!(
        rk.replace_data(&vec![s("ab")]).unwrap_err(),
        GenError::InvalidChar
    );
    assert_eq!(
        rk.replace_data(&vec![s("\u{03c0}")]).unwrap_err(),
        GenError::InvalidChar
    );
    // Nothing changed: the default pools are still in place.
    assert_eq!(rk.data(ASCIIExcludeCtrl::Digit).len(), 10);
}

#[test]
fn replace_data_twice_equals_once() {
    let tokens = vec![s("1"), s("a"), s("."), s("1")];
    let mut rk = RandKey::new("1", "1", "1").unwrap();
    rk.replace_data(&tokens).unwrap();
    let once = rk.all_data();
    rk.replace_data(&tokens).unwrap();
    assert_eq!(rk.all_data(), once);
}

#[test]
fn add_item_classifies_and_deduplicates() {
    let mut rk = RandKey::new("10", "2", "3").unwrap();
    rk.clear_all();
    rk.add_item(&vec![s("a"), s("0"), s("-")]).unwrap();
    assert_eq!(rk.data(ASCIIExcludeCtrl::Alphabetic), vec![s("a")]);
    assert_eq!(rk.data(ASCIIExcludeCtrl::Punctuation), vec![s("-")]);
    assert_eq!(rk.data(ASCIIExcludeCtrl::Digit), vec![s("0")]);
    // Re-adding the same characters changes nothing.
    rk.add_item(&vec![s("a"), s("0"), s("-")]).unwrap();
    assert_eq!(rk.data(ASCIIExcludeCtrl::Alphabetic), vec![s("a")]);
    assert_eq!(rk.data(ASCIIExcludeCtrl::Punctuation), vec![s("-")]);
    assert_eq!(rk.data(ASCIIExcludeCtrl::Digit), vec![s("0")]);
}

#[test]
fn add_item_rejects_non_ascii() {
    let mut rk = RandKey::new("0", "0", "0").unwrap();
    assert_eq!(
        rk.add_item(&vec![s("\u{00e9}")]).unwrap_err(),
        GenError::InvalidChar
    );
}

#[test]
fn del_item_removes_from_owning_pool() {
    let mut rk = RandKey::new("10", "2", "3").unwrap();
    rk.replace_data(&vec![s("1"), s("2"), s("a"), s("-")]).unwrap();
    rk.del_item(&vec![s("1")]).unwrap();
    assert_eq!(rk.data(ASCIIExcludeCtrl::Digit), vec![s("2")]);
    assert_eq!(rk.data(ASCIIExcludeCtrl::Alphabetic), vec![s("a")]);
}

#[test]
fn del_item_nonexistent_fails() {
    // Scenario: the pools hold "1" and "2"; removing "9" is refused.
    let mut rk = RandKey::new("0", "0", "2").unwrap();
    rk.replace_data(&vec![s("1"), s("2")]).unwrap();
    assert_eq!(
        rk.del_item(&vec![s("9")]).unwrap_err(),
        GenError::DelNonExistValue
    );
    assert_eq!(rk.data(ASCIIExcludeCtrl::Digit), vec![s("1"), s("2")]);
}

#[test]
fn del_item_rejects_bad_tokens() {
    let mut rk = RandKey::new("0", "0", "2").unwrap();
    assert_eq!(
        rk.del_item(&vec![s("12")]).unwrap_err(),
        GenError::InvalidChar
    );
}

#[test]
fn clear_empties_one_pool() {
    let mut rk = RandKey::new("10", "2", "3").unwrap();
    rk.clear(ASCIIExcludeCtrl::Punctuation);
    assert!(rk.data(ASCIIExcludeCtrl::Punctuation).is_empty());
    assert_eq!(rk.data(ASCIIExcludeCtrl::Alphabetic).len(), 52);
    assert_eq!(rk.data(ASCIIExcludeCtrl::Digit).len(), 10);
}

#[test]
fn clear_all_empties_every_pool() {
    let mut rk = RandKey::new("10", "2", "3").unwrap();
    rk.clear_all();
    assert!(rk.data(ASCIIExcludeCtrl::Alphabetic).is_empty());
    assert!(rk.data(ASCIIExcludeCtrl::Punctuation).is_empty());
    assert!(rk.data(ASCIIExcludeCtrl::Digit).is_empty());
}

#[test]
fn default_pools_cover_the_classes() {
    let rk = RandKey::new("1", "1", "1").unwrap();
    assert_eq!(rk.data(ASCIIExcludeCtrl::Alphabetic).len(), 52);
    assert_eq!(rk.data(ASCIIExcludeCtrl::Punctuation).len(), 32);
    assert_eq!(rk.data(ASCIIExcludeCtrl::Digit).len(), 10);
}

#[test]
fn check_init_validates_three_counts() {
    assert!(RandKey::check_init("1", "22", "333"));
    assert!(!RandKey::check_init("1", "x", "3"));
    assert!(!RandKey::check_init("", "2", "3"));
}

#[test]
fn validation_allows_empty_pools_for_zero_counts() {
    let mut rk = RandKey::new("0", "5", "0").unwrap();
    rk.clear(ASCIIExcludeCtrl::Alphabetic);
    rk.clear(ASCIIExcludeCtrl::Digit);
    assert!(rk.check_data().is_ok());
    rk.clear(ASCIIExcludeCtrl::Punctuation);
    assert_eq!(rk.check_data().unwrap_err(), GenError::MissChar);
}

#[test]
fn error_messages_name_the_kind() {
    assert_eq!(GenError::InvalidUnit.message(), "invalid unit");
    assert_eq!(
        GenError::MissChar.message(),
        "missing character for a requested class"
    );
}
