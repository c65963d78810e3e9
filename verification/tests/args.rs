use exum::args::{ArgsError, MainArgs, StateArgs, Token};

fn ident(s: &str) -> Token {
    Token::Ident(s.to_string())
}

#[test]
fn state_args_empty_is_lazy() {
    assert_eq!(StateArgs::parse(&vec![]), Ok(StateArgs { prewarm: false }));
}

#[test]
fn state_args_prewarm_forms() {
    assert_eq!(StateArgs::parse(&vec![ident("prewarm")]), Ok(StateArgs { prewarm: true }));
    assert_eq!(
        StateArgs::parse(&vec![ident("prewarm"), Token::Punct('='), Token::Bool(true)]),
        Ok(StateArgs { prewarm: true })
    );
    assert_eq!(
        StateArgs::parse(&vec![ident("prewarm"), Token::Punct('='), Token::Bool(false)]),
        Ok(StateArgs { prewarm: false })
    );
}

#[test]
fn state_args_errors() {
    assert_eq!(StateArgs::parse(&vec![Token::Bool(true)]), Err(ArgsError::ExpectedIdent));
    assert_eq!(StateArgs::parse(&vec![Token::Punct('=')]), Err(ArgsError::ExpectedIdent));
    assert_eq!(StateArgs::parse(&vec![ident("eager")]), Err(ArgsError::ExpectedPrewarm));
    assert_eq!(
        StateArgs::parse(&vec![ident("prewarm"), Token::Punct('=')]),
        Err(ArgsError::ExpectedBool)
    );
    assert_eq!(
        StateArgs::parse(&vec![ident("prewarm"), Token::Punct('='), Token::Str("true".to_string())]),
        Err(ArgsError::ExpectedBool)
    );
    assert_eq!(
        StateArgs::parse(&vec![ident("prewarm"), ident("now")]),
        Err(ArgsError::UnexpectedToken)
    );
    assert_eq!(
        StateArgs::parse(&vec![ident("prewarm"), Token::Punct('='), Token::Bool(true), Token::Other]),
        Err(ArgsError::UnexpectedToken)
    );
}

#[test]
fn main_args_forms() {
    assert_eq!(MainArgs::parse(&vec![]), Ok(MainArgs { config: None }));
    assert_eq!(
        MainArgs::parse(&vec![ident("config"), Token::Punct('='), Token::Str("app.toml".to_string())]),
        Ok(MainArgs { config: Some("app.toml".to_string()) })
    );
}

#[test]
fn main_args_errors() {
    assert_eq!(MainArgs::parse(&vec![Token::Other]), Err(ArgsError::ExpectedIdent));
    assert_eq!(MainArgs::parse(&vec![ident("conf")]), Err(ArgsError::ExpectedConfig));
    assert_eq!(MainArgs::parse(&vec![ident("config")]), Err(ArgsError::ExpectedEquals));
    assert_eq!(
        MainArgs::parse(&vec![ident("config"), Token::Punct(',')]),
        Err(ArgsError::ExpectedEquals)
    );
    assert_eq!(
        MainArgs::parse(&vec![ident("config"), Token::Punct('=')]),
        Err(ArgsError::ExpectedString)
    );
    assert_eq!(
        MainArgs::parse(&vec![ident("config"), Token::Punct('='), Token::Bool(true)]),
        Err(ArgsError::ExpectedString)
    );
    assert_eq!(
        MainArgs::parse(&vec![
            ident("config"),
            Token::Punct('='),
            Token::Str("a".to_string()),
            Token::Punct(',')
        ]),
        Err(ArgsError::UnexpectedToken)
    );
}
