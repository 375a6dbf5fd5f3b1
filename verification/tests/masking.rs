use gemlite::mask::{is_maskable, mask_api_key, redact};

#[test]
fn no_key_is_shown_as_nothing() {
    assert_eq!(mask_api_key(""), "");
}

#[test]
fn short_key_is_shown_as_dots() {
    assert_eq!(mask_api_key("k"), "...");
    assert_eq!(mask_api_key("0123456789"), "...");
}

#[test]
fn long_key_shows_its_ends() {
    assert_eq!(mask_api_key("AIza12SECRETwxyz"), "AIza12...wxyz");
    assert_eq!(mask_api_key("0123456789a"), "012345...789a");
}

#[test]
fn length_counts_bytes() {
    assert_eq!(mask_api_key("ééééé"), "...");
    assert_eq!(mask_api_key("éééééé"), "ééé...éé");
}

#[test]
fn key_cut_inside_a_character_is_not_maskable() {
    assert!(is_maskable("aéééé"));
    assert!(!is_maskable("aééééé"));
    assert!(!is_maskable("aéééééé"));
    assert!(!is_maskable("aaaaaéaaaaaa"));
    assert!(!is_maskable("aaaaaaaaé€"));
    assert!(is_maskable("short é"));
    assert!(is_maskable(""));
}

#[test]
fn dotted_key_is_its_own_mask() {
    assert_eq!(mask_api_key("..."), "...");
    assert_eq!(mask_api_key("abcdef...wxyz"), "abcdef...wxyz");
}

#[test]
fn redaction_takes_every_occurrence() {
    assert_eq!(
        redact("key=K1 and again K1!".to_string(), "K1"),
        "key=[REDACTED] and again [REDACTED]!"
    );
    assert_eq!(redact("aaa".to_string(), "aa"), "[REDACTED]a");
    assert_eq!(redact("été K été".to_string(), "K"), "été [REDACTED] été");
}

#[test]
fn redaction_keeps_other_messages() {
    assert_eq!(redact("nothing here".to_string(), "K1"), "nothing here");
    assert_eq!(redact("nothing here".to_string(), ""), "nothing here");
    assert_eq!(redact(String::new(), "K1"), "");
}

#[test]
fn key_inside_the_marker_comes_back() {
    assert_eq!(redact("A".to_string(), "A"), "[REDACTED]");
}

#[test]
fn keys_without_dots_are_not_in_their_masks() {
    for key in ["k", "0123456789", "0123456789a", "0123456789ab", "0123456789abc", "éééééé"] {
        assert!(!mask_api_key(key).contains(key));
    }
}
