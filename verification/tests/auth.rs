use segmented_encoder::auth::{Error, LocalAuthenticator};

fn obj() -> u128 {
    (1u128 << 64) | 2
}

#[test]
fn authentication_create_different_tokens() {
    let mut handler = LocalAuthenticator::new();
    let token1 = handler.new_token();
    let token2 = handler.new_token();
    assert_ne!(token1, token2);
    assert_eq!((token1.as_str(), token2.as_str()), ("0", "1"));
}

#[test]
fn check_new_token_returns_false() {
    let mut handler = LocalAuthenticator::new();
    let token = handler.new_token();
    assert_eq!(handler.check(token.as_str(), obj()), Ok(false));
}

#[test]
fn add_invalid_token_errors() {
    let mut handler = LocalAuthenticator::new();
    assert_eq!(handler.add("Invalid_Token", obj()), Err(Error::InvalidCredentials));
}

#[test]
fn delete_invalid_token_errors() {
    let mut handler = LocalAuthenticator::new();
    assert_eq!(handler.delete_token("Invalid_Token"), Err(Error::InvalidCredentials));
}

#[test]
fn add_after_delete_token_errors() {
    let mut handler = LocalAuthenticator::new();
    let token = handler.new_token();
    handler.delete_token(token.as_str()).unwrap();
    assert_eq!(handler.add(token.as_str(), obj()), Err(Error::InvalidCredentials));
    assert_eq!(handler.is_valid(token.as_str()), Ok(false));
}

#[test]
fn remove_invalid_token_errors() {
    let mut handler = LocalAuthenticator::new();
    assert_eq!(handler.remove("Invalid_Token", obj()), Err(Error::InvalidCredentials));
}

#[test]
fn check_true_after_add() {
    let mut handler = LocalAuthenticator::new();
    let token = handler.new_token();
    handler.add(token.as_str(), obj()).unwrap();
    assert_eq!(handler.check(token.as_str(), obj()), Ok(true));
    assert_eq!(handler.check(token.as_str(), obj() + 1), Ok(false));
}

#[test]
fn check_false_after_add_and_remove() {
    let mut handler = LocalAuthenticator::new();
    let token = handler.new_token();
    handler.add(token.as_str(), obj()).unwrap();
    assert_eq!(handler.remove(token.as_str(), obj()), Ok(true));
    assert_eq!(handler.remove(token.as_str(), obj()), Ok(false));
    assert_eq!(handler.check(token.as_str(), obj()), Ok(false));
}

#[test]
fn new_token_is_valid() {
    let mut handler = LocalAuthenticator::new();
    assert_eq!(handler.is_valid("0"), Ok(false));
    let token = handler.new_token();
    assert_eq!(handler.is_valid(token.as_str()), Ok(true));
}

#[test]
fn tokens_count_in_decimal() {
    let mut handler = LocalAuthenticator::new();
    let mut last = String::new();
    for _ in 0..12 {
        last = handler.new_token();
    }
    assert_eq!(last, "11");
}
