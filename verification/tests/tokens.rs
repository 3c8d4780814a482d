use sharex_upload::tokens::{get_tokens, TokenSet};

#[test]
fn get_tokens_splits_on_commas() {
    let tokens = get_tokens("alpha,beta,gamma");
    assert_eq!(tokens.len(), 3);
    assert!(tokens.contains("alpha"));
    assert!(tokens.contains("beta"));
    assert!(tokens.contains("gamma"));
    assert!(!tokens.contains("alpha,beta"));
    assert!(!tokens.contains("delta"));
}

#[test]
fn get_tokens_single_token() {
    let tokens = get_tokens("abc123");
    assert_eq!(tokens.len(), 1);
    assert!(tokens.contains("abc123"));
    assert!(!tokens.contains("abc12"));
    assert!(!tokens.contains("abc1234"));
    assert!(!tokens.contains(""));
}

#[test]
fn get_tokens_empty_configuration_admits_nobody() {
    let tokens = get_tokens("");
    assert_eq!(tokens.len(), 0);
    assert!(tokens.is_empty());
    assert!(!tokens.contains(""));
    assert!(!tokens.contains("abc123"));
}

#[test]
fn get_tokens_keeps_empty_fields_of_a_non_empty_configuration() {
    let inner = get_tokens("a,,b");
    assert_eq!(inner.len(), 3);
    assert!(inner.contains("a"));
    assert!(inner.contains(""));
    assert!(inner.contains("b"));

    let trailing = get_tokens("a,");
    assert_eq!(trailing.len(), 2);
    assert!(trailing.contains("a"));
    assert!(trailing.contains(""));

    let lone_comma = get_tokens(",");
    assert_eq!(lone_comma.len(), 1);
    assert!(lone_comma.contains(""));
}

#[test]
fn get_tokens_holds_a_repeated_token_once() {
    let tokens = get_tokens("a,b,a,a,b");
    assert_eq!(tokens.len(), 2);
    assert!(tokens.contains("a"));
    assert!(tokens.contains("b"));
}

#[test]
fn tokens_are_compared_exactly() {
    let tokens = get_tokens("Secret, padded ,ünï");
    assert_eq!(tokens.len(), 3);
    assert!(tokens.contains("Secret"));
    assert!(!tokens.contains("secret"));
    assert!(!tokens.contains("SECRET"));
    assert!(tokens.contains(" padded "));
    assert!(!tokens.contains("padded"));
    assert!(tokens.contains("ünï"));
    assert!(!tokens.contains("uni"));
}

#[test]
fn token_set_new_is_empty() {
    let tokens = TokenSet::new();
    assert_eq!(tokens.len(), 0);
    assert!(tokens.is_empty());
    assert!(!tokens.contains("anything"));
    assert!(!tokens.contains(""));
}

#[test]
fn token_set_is_not_empty_once_configured() {
    assert!(!get_tokens("x").is_empty());
    assert!(!get_tokens(",").is_empty());
}
