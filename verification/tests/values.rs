use settings_content::{DelayMs, ExtendingVec, MergeFromTrait, SaturatingBool};

#[test]
fn extending_vec_appends_later_layer() {
    let mut list = ExtendingVec(vec!["a".to_string(), "b".to_string()]);
    list.merge_from(&ExtendingVec(vec!["c".to_string()]));
    assert_eq!(list.0, vec!["a", "b", "c"]);
}

#[test]
fn extending_vec_empty_layer_changes_nothing() {
    let mut list = ExtendingVec(vec![1u32, 2]);
    list.merge_from(&ExtendingVec(vec![]));
    assert_eq!(list.0, vec![1, 2]);
}

#[test]
fn extending_vec_layers_keep_their_order() {
    let mut list = ExtendingVec(vec![1u32]);
    list.merge_from(&ExtendingVec(vec![2, 3]));
    list.merge_from(&ExtendingVec(vec![4]));
    assert_eq!(list.0, vec![1, 2, 3, 4]);
}

#[test]
fn extending_vec_keeps_duplicates() {
    let mut list = ExtendingVec(vec![7u8]);
    list.merge_from(&ExtendingVec(vec![7]));
    assert_eq!(list.0, vec![7, 7]);
}

#[test]
fn extending_vec_conversions_round_trip() {
    let list = ExtendingVec::from(vec![3u8, 1, 2]);
    assert_eq!(list.0, vec![3, 1, 2]);
    let back: Vec<u8> = list.into();
    assert_eq!(back, vec![3, 1, 2]);
    assert!(ExtendingVec::<u8>::default().0.is_empty());
}

#[test]
fn saturating_bool_merge_truth_table() {
    for before in [false, true] {
        for source in [false, true] {
            let mut flag = SaturatingBool(before);
            flag.merge_from(&SaturatingBool(source));
            assert_eq!(flag.0, before || source);
        }
    }
}

#[test]
fn saturating_bool_stays_on() {
    let mut flag = SaturatingBool(false);
    flag.merge_from(&SaturatingBool(true));
    flag.merge_from(&SaturatingBool(false));
    assert_eq!(flag, SaturatingBool(true));
}

#[test]
fn saturating_bool_layer_order_is_irrelevant() {
    for a in [false, true] {
        for b in [false, true] {
            let mut ab = SaturatingBool(false);
            ab.merge_from(&SaturatingBool(a));
            ab.merge_from(&SaturatingBool(b));
            let mut ba = SaturatingBool(false);
            ba.merge_from(&SaturatingBool(b));
            ba.merge_from(&SaturatingBool(a));
            assert_eq!(ab, ba);
        }
    }
}

#[test]
fn saturating_bool_conversions() {
    assert_eq!(SaturatingBool::from(true), SaturatingBool(true));
    assert_eq!(SaturatingBool::from(false), SaturatingBool(false));
    let on: bool = SaturatingBool(true).into();
    assert!(on);
    let off: bool = bool::from(SaturatingBool(false));
    assert!(!off);
    assert_eq!(SaturatingBool::default(), SaturatingBool(false));
}

#[test]
fn delay_is_shown_in_milliseconds() {
    assert_eq!(DelayMs(250).to_string(), "250ms");
    assert_eq!(DelayMs(0).to_string(), "0ms");
    assert_eq!(DelayMs(10).to_string(), "10ms");
    assert_eq!(DelayMs(700).to_string(), "700ms");
    assert_eq!(DelayMs(u64::MAX).to_string(), "18446744073709551615ms");
}

#[test]
fn delay_from_count() {
    assert_eq!(DelayMs::from(42), DelayMs(42));
    assert_eq!(DelayMs::default(), DelayMs(0));
    assert!(DelayMs(5) < DelayMs(6));
}

#[test]
fn different_delays_are_shown_differently() {
    let shown: Vec<String> = (0..2000u64).map(|n| DelayMs(n).to_string()).collect();
    for i in 0..shown.len() {
        for j in (i + 1)..shown.len() {
            assert_ne!(shown[i], shown[j]);
        }
    }
}
