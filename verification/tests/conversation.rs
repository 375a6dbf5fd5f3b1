use gemlite::config::{configs, install_configs, parse_turns, sanitize_role, CfgEntry, Turn};

fn turn(role: &str, text: &str) -> Turn {
    Turn { role: role.to_string(), text: text.to_string() }
}

fn cfg(api_key: &str, model: &str) -> CfgEntry {
    CfgEntry {
        api_key: api_key.to_string(),
        system_prompt: String::new(),
        model: model.to_string(),
        enable_grounding: false,
    }
}

#[test]
fn plain_prompt_is_one_turn_of_the_user() {
    assert_eq!(parse_turns("hello", None), vec![turn("user", "hello")]);
    assert_eq!(parse_turns("", None), vec![turn("user", "")]);
}

#[test]
fn empty_list_is_a_plain_prompt() {
    assert_eq!(parse_turns("[]", Some(Vec::new())), vec![turn("user", "[]")]);
}

#[test]
fn listed_turns_keep_texts_and_order() {
    let listed = vec![turn("user", "a"), turn("model", "b"), turn("system", "c"), turn("", "d")];
    assert_eq!(
        parse_turns("ignored", Some(listed)),
        vec![turn("user", "a"), turn("model", "b"), turn("user", "c"), turn("user", "d")]
    );
}

#[test]
fn roles_are_matched_exactly() {
    assert_eq!(sanitize_role(turn("User", "x")), turn("user", "x"));
    assert_eq!(sanitize_role(turn("model", "x")), turn("model", "x"));
}

#[test]
fn configurations_are_replaced_or_kept() {
    let mut current = configs();
    assert!(current.is_empty());
    assert!(install_configs(&mut current, Some(vec![cfg("k", "m")])));
    assert_eq!(*current, vec![cfg("k", "m")]);
    assert!(!install_configs(&mut current, None));
    assert_eq!(*current, vec![cfg("k", "m")]);
    assert!(install_configs(&mut current, Some(Vec::new())));
    assert!(current.is_empty());
}

#[test]
fn key_and_model_make_a_configuration_usable() {
    assert!(cfg("k", "m").is_usable());
    assert!(!cfg("", "m").is_usable());
    assert!(!cfg("k", "").is_usable());
}
