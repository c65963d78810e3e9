//! The arguments of the `state`, `service` and `main` attributes, read from
//! their tokens.
//!
//! `state` and `service` take nothing, `prewarm`, or `prewarm = true` /
//! `prewarm = false`. `main` takes nothing or `config = "path"`.

use crate::text::str_eq;
use vstd::prelude::*;
use vstd::string::*;

verus! {

/// One token of an attribute's arguments.
#[derive(Debug, Clone, PartialEq, Eq)]
pub enum Token {
    /// An identifier other than `true` and `false`.
    Ident(String),
    /// A punctuation character.
    Punct(char),
    /// `true` or `false`.
    Bool(bool),
    /// A string literal; holds its value.
    Str(String),
    /// Any other token.
    Other,
}

pub enum TokenView {
    Ident(Seq<char>),
    Punct(char),
    Bool(bool),
    Str(Seq<char>),
    Other,
}

impl DeepView for Token {
    type V = TokenView;

    open spec fn deep_view(&self) -> TokenView {
        match self {
            Token::Ident(name) => TokenView::Ident(name@),
            Token::Punct(c) => TokenView::Punct(*c),
            Token::Bool(b) => TokenView::Bool(*b),
            Token::Str(s) => TokenView::Str(s@),
            Token::Other => TokenView::Other,
        }
    }
}

/// Why an attribute's arguments are rejected.
#[derive(Clone, Copy, PartialEq, Eq, Structural, Debug)]
pub enum ArgsError {
    /// The first token is no identifier.
    ExpectedIdent,
    /// The identifier is not `prewarm`.
    ExpectedPrewarm,
    /// The identifier is not `config`.
    ExpectedConfig,
    /// `=` is missing after `config`.
    ExpectedEquals,
    /// `=` is not followed by `true` or `false`.
    ExpectedBool,
    /// `=` is not followed by a string.
    ExpectedString,
    /// Tokens follow the arguments.
    UnexpectedToken,
}

/// The arguments of a `state` or `service` attribute.
#[derive(Debug, Clone, PartialEq, Eq)]
pub struct StateArgs {
    pub prewarm: bool,
}

/// The arguments of the `main` attribute.
#[derive(Debug, Clone, PartialEq, Eq)]
pub struct MainArgs {
    /// The path of the configuration file, where one is given.
    pub config: Option<String>,
}

/// What the tokens of a `state` attribute say about construction before
/// serving.
pub open spec fn state_args(tokens: Seq<TokenView>) -> Result<bool, ArgsError> {
    if tokens.len() == 0 {
        Ok(false)
    } else {
        match tokens[0] {
            TokenView::Ident(name) => if name != "prewarm"@ {
                Err(ArgsError::ExpectedPrewarm)
            } else if tokens.len() >= 2 && tokens[1] == TokenView::Punct('=') {
                if tokens.len() >= 3 && tokens[2] is Bool {
                    if tokens.len() == 3 {
                        Ok(tokens[2]->Bool_0)
                    } else {
                        Err(ArgsError::UnexpectedToken)
                    }
                } else {
                    Err(ArgsError::ExpectedBool)
                }
            } else if tokens.len() == 1 {
                Ok(true)
            } else {
                Err(ArgsError::UnexpectedToken)
            },
            _ => Err(ArgsError::ExpectedIdent),
        }
    }
}

/// The configuration file that the tokens of a `main` attribute name.
pub open spec fn main_args(tokens: Seq<TokenView>) -> Result<Option<Seq<char>>, ArgsError> {
    if tokens.len() == 0 {
        Ok(None)
    } else {
        match tokens[0] {
            TokenView::Ident(name) => if name != "config"@ {
                Err(ArgsError::ExpectedConfig)
            } else if !(tokens.len() >= 2 && tokens[1] == TokenView::Punct('=')) {
                Err(ArgsError::ExpectedEquals)
            } else if !(tokens.len() >= 3 && tokens[2] is Str) {
                Err(ArgsError::ExpectedString)
            } else if tokens.len() == 3 {
                Ok(Some(tokens[2]->Str_0))
            } else {
                Err(ArgsError::UnexpectedToken)
            },
            _ => Err(ArgsError::ExpectedIdent),
        }
    }
}

/// Whether the token at `at` is `=`.
fn is_equals(tokens: &Vec<Token>, at: usize) -> (b: bool)
    ensures
        b == (at < tokens.len() && tokens.deep_view()[at as int] == TokenView::Punct('=')),
{
    if at < tokens.len() {
        match &tokens[at] {
            Token::Punct(c) => *c == '=',
            _ => false,
        }
    } else {
        false
    }
}

impl StateArgs {
    /// Reads the arguments of a `state` or `service` attribute.
    pub fn parse(tokens: &Vec<Token>) -> (res: Result<StateArgs, ArgsError>)
        ensures
            match state_args(tokens.deep_view()) {
                Ok(prewarm) => res is Ok && res->Ok_0.prewarm == prewarm,
                Err(e) => res is Err && res->Err_0 == e,
            },
    {
        if tokens.len() == 0 {
            return Ok(StateArgs { prewarm: false });
        }
        match &tokens[0] {
            Token::Ident(name) => {
                if !str_eq(name.as_str(), "prewarm") {
                    Err(ArgsError::ExpectedPrewarm)
                } else if is_equals(tokens, 1) {
                    if tokens.len() >= 3 {
                        match &tokens[2] {
                            Token::Bool(b) => {
                                if tokens.len() == 3 {
                                    Ok(StateArgs { prewarm: *b })
                                } else {
                                    Err(ArgsError::UnexpectedToken)
                                }
                            },
                            _ => Err(ArgsError::ExpectedBool),
                        }
                    } else {
                        Err(ArgsError::ExpectedBool)
                    }
                } else if tokens.len() == 1 {
                    Ok(StateArgs { prewarm: true })
                } else {
                    Err(ArgsError::UnexpectedToken)
                }
            },
            _ => Err(ArgsError::ExpectedIdent),
        }
    }
}

impl MainArgs {
    /// Reads the arguments of the `main` attribute.
    pub fn parse(tokens: &Vec<Token>) -> (res: Result<MainArgs, ArgsError>)
        ensures
            match main_args(tokens.deep_view()) {
                Ok(config) => res is Ok && res->Ok_0.config.deep_view() == config,
                Err(e) => res is Err && res->Err_0 == e,
            },
    {
        if tokens.len() == 0 {
            return Ok(MainArgs { config: None });
        }
        match &tokens[0] {
            Token::Ident(name) => {
                if !str_eq(name.as_str(), "config") {
                    Err(ArgsError::ExpectedConfig)
                } else if !is_equals(tokens, 1) {
                    Err(ArgsError::ExpectedEquals)
                } else if tokens.len() >= 3 {
                    match &tokens[2] {
                        Token::Str(s) => {
                            if tokens.len() == 3 {
                                Ok(MainArgs { config: Some(s.clone()) })
                            } else {
                                Err(ArgsError::UnexpectedToken)
                            }
                        },
                        _ => Err(ArgsError::ExpectedString),
                    }
                } else {
                    Err(ArgsError::ExpectedString)
                }
            },
            _ => Err(ArgsError::ExpectedIdent),
        }
    }
}

} // verus!
