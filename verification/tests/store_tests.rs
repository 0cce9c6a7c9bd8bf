use cmdrelay::store::{
    default_commands, generation_spec, render_help, static_spec, CommandSpec, ConfigError,
    TemplateStore,
};

fn two_token_store() -> TemplateStore {
    let specs = vec![
        generation_spec("!ds", "m-short", None, false, true),
        generation_spec("!dsx", "m-long", None, false, true),
    ];
    TemplateStore::new(specs).unwrap()
}

#[test]
fn prefix_token_does_not_shadow_longer_token() {
    let store = two_token_store();
    assert_eq!(store.lookup(b"!dsx hello"), Some(1));
}

#[test]
fn short_token_still_matches_itself() {
    let store = two_token_store();
    assert_eq!(store.lookup(b"!ds hello"), Some(0));
    assert_eq!(store.lookup(b"!ds"), Some(0));
}

#[test]
fn token_must_end_at_whitespace_or_end() {
    let specs = vec![generation_spec("!ds", "m", None, false, true)];
    let store = TemplateStore::new(specs).unwrap();
    assert_eq!(store.lookup(b"!dsx"), None);
    assert_eq!(store.lookup(b"!dsx hello"), None);
}

#[test]
fn first_match_in_declaration_order_wins() {
    let specs = vec![
        generation_spec("!a", "first", None, false, false),
        generation_spec("!a", "second", None, false, false),
    ];
    let store = TemplateStore::new(specs).unwrap();
    assert_eq!(store.lookup(b"!a hi"), Some(0));
}

#[test]
fn help_listing_renders_tokens_and_models() {
    let specs = vec![
        static_spec("!help", "Here is a list of commands:", true),
        generation_spec("!x", "m1", None, false, false),
    ];
    let store = TemplateStore::new(specs).unwrap();
    let text = render_help(b"Here is a list of commands:", &store);
    let rendered = String::from_utf8(text).unwrap();
    assert_eq!(rendered, "Here is a list of commands:\n!help\n!x (m1)");
    assert!(rendered.lines().any(|l| l == "!x (m1)"));
    assert!(rendered.lines().any(|l| l == "!help"));
}

#[test]
fn spec_with_neither_reply_nor_model_is_rejected() {
    let bad = CommandSpec {
        token: b"!bad".to_vec(),
        static_reply: None,
        model_id: None,
        prompt_prefix: None,
        protect_mode: false,
        persona_mode: false,
        help_mode: false,
    };
    let specs = vec![generation_spec("!ok", "m", None, false, false), bad];
    match TemplateStore::new(specs) {
        Err(ConfigError::InvalidSpec { index }) => assert_eq!(index, 1),
        Ok(_) => panic!("invalid spec accepted"),
    }
}

#[test]
fn empty_or_whitespace_token_is_rejected() {
    let empty = CommandSpec {
        token: Vec::new(),
        static_reply: None,
        model_id: Some(b"m".to_vec()),
        prompt_prefix: None,
        protect_mode: false,
        persona_mode: false,
        help_mode: false,
    };
    assert!(TemplateStore::new(vec![empty]).is_err());
    let spaced = CommandSpec {
        token: b"!a b".to_vec(),
        static_reply: None,
        model_id: Some(b"m".to_vec()),
        prompt_prefix: None,
        protect_mode: false,
        persona_mode: false,
        help_mode: false,
    };
    assert!(TemplateStore::new(vec![spaced]).is_err());
}

#[test]
fn default_commands_are_valid_and_ordered() {
    let specs = default_commands();
    let tokens: Vec<Vec<u8>> = specs.iter().map(|s| s.token.clone()).collect();
    assert_eq!(
        tokens,
        vec![
            b"!help".to_vec(),
            b"!pingb".to_vec(),
            b"!llama".to_vec(),
            b"!codel".to_vec(),
            b"!ds".to_vec(),
            b"!codeds".to_vec(),
            b"!nop".to_vec(),
        ]
    );
    let store = TemplateStore::new(specs).unwrap();
    assert_eq!(store.len(), 7);
}
