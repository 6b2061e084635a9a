use settings_content::{
    default_screen_after, default_screen_before, jump_setting_from_strings,
    JumpLabelSettingsContent,
};

/// FNV-1a over the labels, each followed by a newline.
fn fingerprint(labels: &[String]) -> u64 {
    let mut hash: u64 = 0xcbf2_9ce4_8422_2325;
    for label in labels {
        for byte in label.bytes().chain(std::iter::once(b'\n')) {
            hash ^= byte as u64;
            hash = hash.wrapping_mul(0x0000_0100_0000_01b3);
        }
    }
    hash
}

#[test]
fn jump_setting_keeps_labels_and_order() {
    let labels = jump_setting_from_strings(&["a", "qr", "zwq"]);
    assert_eq!(labels, vec!["a".to_string(), "qr".to_string(), "zwq".to_string()]);
}

#[test]
fn jump_setting_of_no_labels_is_empty() {
    let labels = jump_setting_from_strings(&[]);
    assert!(labels.is_empty());
}

#[test]
fn screen_before_labels_start_with_home_row_keys() {
    let labels = default_screen_before();
    assert_eq!(labels.len(), 2372);
    assert_eq!(&labels[..8], &["a", "r", "s", "t", "qr", "qs", "qt", "qx"]);
    assert_eq!(&labels[36..42], &["gz", "gx", "gc", "gv", "zwq", "zww"]);
    assert_eq!(&labels[306..310], &["xqqq", "xqqw", "xqqf", "xqqp"]);
    assert_eq!(labels[labels.len() - 1], "ctbb");
}

#[test]
fn screen_before_labels_match_the_built_in_list() {
    assert_eq!(fingerprint(&default_screen_before()), 0xd5ef_f1e2_0a6b_9a48);
}

#[test]
fn screen_after_labels_start_with_home_row_keys() {
    let labels = default_screen_after();
    assert_eq!(labels.len(), 2372);
    assert_eq!(&labels[..6], &["n", "e", "i", "o", "jn", "je"]);
    assert_eq!(&labels[36..42], &[";k", ";m", ";,", ";.", "klj", "kll"]);
    assert_eq!(labels[labels.len() - 1], ".o./");
}

#[test]
fn screen_after_labels_match_the_built_in_list() {
    assert_eq!(fingerprint(&default_screen_after()), 0xfeee_74eb_2b3d_6f09);
}

#[test]
fn built_in_labels_are_distinct_and_prefix_free() {
    let before = default_screen_before();
    let after = default_screen_after();
    let all: Vec<&String> = before.iter().chain(after.iter()).collect();
    for (i, a) in all.iter().enumerate() {
        for (j, b) in all.iter().enumerate() {
            if i != j {
                assert!(!b.starts_with(a.as_str()), "{a} is a prefix of {b}");
            }
        }
    }
}

#[test]
fn default_jump_label_content_uses_built_in_lists() {
    let content = JumpLabelSettingsContent::default();
    assert_eq!(content.screen_before, default_screen_before());
    assert_eq!(content.screen_after, default_screen_after());
}

#[test]
fn built_in_lists_are_equally_long_and_share_no_key() {
    let before = default_screen_before();
    let after = default_screen_after();
    assert_eq!(before.len(), after.len());
    let before_keys: std::collections::BTreeSet<char> =
        before.iter().flat_map(|label| label.chars()).collect();
    let after_keys: std::collections::BTreeSet<char> =
        after.iter().flat_map(|label| label.chars()).collect();
    assert_eq!(before_keys.len(), 14);
    assert_eq!(after_keys.len(), 14);
    assert!(before_keys.is_disjoint(&after_keys));
}
