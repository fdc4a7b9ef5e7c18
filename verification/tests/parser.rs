use ria::ast::{Block, Call, Def, DefList, Expr, Lambda, Module};
use ria::failure::{Expectation, FailureKind, ParseFailure};
use ria::lexer::{lex, LexError};
use ria::parser::{
    ident, keyword, maybe_newline, newline, parse_module, parse_source, symbol, token, SourceError,
};
use ria::span::Spanned;
use ria::lexer_stream::LexerStream;
use ria::stream::{TokenSource, TokenStream};
use ria::token::{Symbol, Token};

fn expr_of<'i>(tokens: &[Spanned<Token<'i>>], message: &str) -> Expr<'i> {
    let mut stream = TokenStream::new(tokens);
    let expr = Expr::parse(&mut stream).expect(message);
    assert!(stream.is_at_end());
    expr
}

fn expr_failure(source: &str) -> ParseFailure {
    let tokens = lex(source).collect();
    let mut stream = TokenStream::new(&tokens);
    let failure = Expr::parse(&mut stream).unwrap_err();
    assert_eq!(stream.position(), 0);
    failure
}

fn variable(name: &str, start: usize) -> Expr<'_> {
    Expr::Variable(Spanned(name, start..start + name.len()))
}

#[test]
fn test_allow_newline() {
    let tokens = [Spanned(Token::NewLine, 0..0)];
    let mut stream = TokenStream::new(tokens.as_slice());
    maybe_newline(&mut stream).expect("should eat a newline");

    let tokens = [Spanned(Token::Ident("foo"), 0..0)];
    let mut stream = TokenStream::new(tokens.as_slice());
    assert!(maybe_newline(&mut stream).is_none());
}

#[test]
fn def_parse_simple_def() {
    let input = "x = y";
    let tokens: Vec<Spanned<Token>> = lex(input).collect();

    let mut stream = TokenStream::new(&tokens);
    let def = Def::parse(&mut stream).unwrap();
    assert!(stream.is_at_end());

    assert_eq!(*def.ident.inner(), "x");
    assert!(matches!(def.expr, Expr::Variable(Spanned("y", _))));
}

#[test]
fn parser_parse_simple_def() {
    let input = "x = y";
    let tokens: Vec<Spanned<Token>> = lex(input).collect();

    let mut stream = TokenStream::new(&tokens);
    let def = Def::parse(&mut stream).unwrap();
    assert!(stream.is_at_end());

    assert_eq!(*def.ident.inner(), "x");
    assert!(matches!(def.expr, Expr::Variable(Spanned("y", _))));
}

#[test]
fn parse_def_list() {
    let input = "x = y\ny = z";
    let tokens: Vec<Spanned<Token>> = lex(input).collect();

    let mut stream = TokenStream::new(&tokens);
    let def_list = DefList::parse(&mut stream).unwrap();
    assert!(stream.is_at_end());

    assert_eq!(*def_list.defs[0].ident.inner(), "x");
    assert!(matches!(def_list.defs[0].expr, Expr::Variable(Spanned("y", _))));
    assert_eq!(*def_list.defs[1].ident.inner(), "y");
    assert!(matches!(def_list.defs[1].expr, Expr::Variable(Spanned("z", _))));
}

#[test]
fn expr_parse_arity_1_lambda() {
    let tokens: Vec<Spanned<Token>> = lex("\\x -> x").collect();
    let expr = expr_of(&tokens, "simple lambda expr should parse");
    assert_eq!(
        expr,
        Expr::Lambda(Lambda {
            param: Spanned::new("x", 1..2),
            body: Box::new(Expr::Variable(Spanned::new("x", 6..7)))
        })
    );
}

#[test]
fn parser_parse_arity_1_lambda() {
    let tokens: Vec<Spanned<Token>> = lex("\\x -> x").collect();
    let expr = expr_of(&tokens, "simple lambda expr should parse");
    assert_eq!(
        expr,
        Expr::Lambda(Lambda {
            param: Spanned::new("x", 1..2),
            body: Box::new(Expr::Variable(Spanned::new("x", 6..7)))
        })
    );
}

#[test]
fn expr_parse_arity_2_lambda() {
    let tokens = lex("\\x -> \\y -> z").collect();
    let expr = expr_of(&tokens, "arity 2 lambda expr should parse");

    assert_eq!(
        expr,
        Expr::Lambda(Lambda {
            param: Spanned::new("x", 1..2),
            body: Box::new(Expr::Lambda(Lambda {
                param: Spanned::new("y", 7..8),
                body: Box::new(Expr::Variable(Spanned::new("z", 12..13))),
            })),
        }),
    );
}

#[test]
fn parser_parse_arity_2_lambda() {
    let tokens = lex("\\x -> \\y -> z").collect();
    let expr = expr_of(&tokens, "arity 2 lambda expr should parse");

    assert_eq!(
        expr,
        Expr::Lambda(Lambda {
            param: Spanned::new("x", 1..2),
            body: Box::new(Expr::Lambda(Lambda {
                param: Spanned::new("y", 7..8),
                body: Box::new(Expr::Variable(Spanned::new("z", 12..13))),
            })),
        }),
    );
}

#[test]
fn parse_block() {
    let tokens = lex("(x = y; x)").collect();
    let expr = expr_of(&tokens, "block should parse");

    assert_eq!(
        expr,
        Expr::Block(Block {
            defs: DefList {
                defs: [Def {
                    ident: Spanned("x", 1..2),
                    expr: Expr::Variable(Spanned("y", 5..6)),
                }]
                .into(),
            },
            expr: Some(Expr::Variable(Spanned("x", 8..9)).into()),
        }),
    );
}

#[test]
fn parse_arity_1_call() {
    let tokens = lex("x y").collect();
    let expr = expr_of(&tokens, "call should parse");

    assert_eq!(
        expr,
        Expr::Call(Call {
            func: Expr::Variable(Spanned("x", 0..1)).into(),
            arg: Expr::Variable(Spanned("y", 2..3)).into(),
        })
    );
}

#[test]
fn parse_arity_2_call() {
    let tokens = lex("x y z").collect();
    let expr = expr_of(&tokens, "call should parse");

    assert_eq!(
        expr,
        Expr::Call(Call {
            func: Expr::Call(Call {
                func: Expr::Variable(Spanned("x", 0..1)).into(),
                arg: Expr::Variable(Spanned("y", 2..3)).into(),
            })
            .into(),
            arg: Expr::Variable(Spanned("z", 4..5)).into(),
        }),
    );
}

#[test]
fn identity_definition() {
    let tokens = lex("identity = \\x -> x").collect();
    let mut stream = TokenStream::new(&tokens);
    let def = Def::parse(&mut stream).unwrap();
    assert!(stream.is_at_end());
    assert_eq!(
        def,
        Def {
            ident: Spanned("identity", 0..8),
            expr: Expr::Lambda(Lambda {
                param: Spanned("x", 12..13),
                body: Box::new(variable("x", 17)),
            }),
        }
    );
}

#[test]
fn application_of_four_associates_left() {
    let tokens = lex("f a b c").collect();
    let expr = expr_of(&tokens, "call should parse");
    let call = |func: Expr<'static>, arg: Expr<'static>| {
        Expr::Call(Call { func: Box::new(func), arg: Box::new(arg) })
    };
    assert_eq!(
        expr,
        call(
            call(call(variable("f", 0), variable("a", 2)), variable("b", 4)),
            variable("c", 6)
        )
    );
}

#[test]
fn application_takes_lambdas_and_blocks_as_arguments() {
    let tokens = lex("f (x = y; x) \\a -> a b").collect();
    let expr = expr_of(&tokens, "call should parse");
    let block = Expr::Block(Block {
        defs: DefList {
            defs: vec![Def { ident: Spanned("x", 3..4), expr: variable("y", 7) }],
        },
        expr: Some(Box::new(variable("x", 10))),
    });
    let lambda = Expr::Lambda(Lambda {
        param: Spanned("a", 14..15),
        body: Box::new(Expr::Call(Call {
            func: Box::new(variable("a", 19)),
            arg: Box::new(variable("b", 21)),
        })),
    });
    assert_eq!(
        expr,
        Expr::Call(Call {
            func: Box::new(Expr::Call(Call {
                func: Box::new(variable("f", 0)),
                arg: Box::new(block),
            })),
            arg: Box::new(lambda),
        })
    );
}

#[test]
fn expression_stops_in_front_of_what_is_no_atom() {
    let tokens = lex("x y = z").collect();
    let mut stream = TokenStream::new(&tokens);
    let expr = Expr::parse(&mut stream).unwrap();
    assert_eq!(
        expr,
        Expr::Call(Call { func: Box::new(variable("x", 0)), arg: Box::new(variable("y", 2)) })
    );
    assert_eq!(stream.position(), 2);
    assert!(!stream.is_at_end());
}

#[test]
fn malformed_lambda_is_fatal() {
    let failure = expr_failure("\\-> x");
    assert_eq!(
        failure,
        ParseFailure { kind: FailureKind::Fatal, span: 1..3, expected: Expectation::Identifier }
    );
    assert!(failure.is_fatal());
    assert_eq!(failure.expected.label(), "an identifier");
}

#[test]
fn malformed_lambda_is_fatal_at_every_level() {
    let fatal =
        ParseFailure { kind: FailureKind::Fatal, span: 5..7, expected: Expectation::Identifier };

    let tokens = lex("f = \\-> x").collect();
    let mut stream = TokenStream::new(&tokens);
    assert_eq!(Def::parse(&mut stream), Err(fatal.clone()));
    assert_eq!(stream.position(), 0);
    assert_eq!(DefList::parse(&mut stream), Err(fatal.clone()));
    assert_eq!(Module::parse(&mut stream), Err(fatal.clone()));
    assert_eq!(parse_module(&tokens), Err(fatal.clone()));

    let tokens = lex("g y \\-> x").collect();
    let mut stream = TokenStream::new(&tokens);
    assert_eq!(Expr::parse(&mut stream), Err(fatal.clone()));
    assert_eq!(stream.position(), 0);
    assert_eq!(Expr::parse_atom(&mut stream), Ok(variable("g", 0)));

    let tokens = lex("(a = \\ = b; a)").collect();
    let mut stream = TokenStream::new(&tokens);
    assert_eq!(
        Block::parse(&mut stream),
        Err(ParseFailure {
            kind: FailureKind::Fatal,
            span: 7..8,
            expected: Expectation::Identifier
        })
    );

    let tokens = lex("a = b; c = \\").collect();
    assert_eq!(
        parse_module(&tokens),
        Err(ParseFailure {
            kind: FailureKind::Fatal,
            span: 12..12,
            expected: Expectation::Identifier
        })
    );

    let tokens = lex("(a = b; \\)").collect();
    let mut stream = TokenStream::new(&tokens);
    assert_eq!(
        Block::parse(&mut stream),
        Err(ParseFailure {
            kind: FailureKind::Fatal,
            span: 9..10,
            expected: Expectation::Identifier
        })
    );
}

#[test]
fn lambda_without_arrow_fails_recoverably() {
    let tokens = lex("\\x y").collect();
    let mut stream = TokenStream::new(&tokens);
    assert_eq!(
        Lambda::parse(&mut stream),
        Err(ParseFailure {
            kind: FailureKind::Recoverable,
            span: 3..4,
            expected: Expectation::Symbol(Symbol::Arrow)
        })
    );
    assert_eq!(stream.position(), 0);
    assert_eq!(
        Expr::parse(&mut stream),
        Err(ParseFailure {
            kind: FailureKind::Recoverable,
            span: 0..1,
            expected: Expectation::Symbol(Symbol::OpenParen)
        })
    );
}

#[test]
fn lambda_without_body_names_the_expression() {
    let tokens = lex("\\x ->").collect();
    let mut stream = TokenStream::new(&tokens);
    assert_eq!(
        Lambda::parse(&mut stream),
        Err(ParseFailure {
            kind: FailureKind::Recoverable,
            span: 5..5,
            expected: Expectation::Expression
        })
    );
    assert_eq!(stream.position(), 0);
}

#[test]
fn lambda_allows_line_breaks_around_arrow() {
    let tokens = lex("\\x\n->\n x").collect();
    let expr = expr_of(&tokens, "lambda should parse");
    assert_eq!(
        expr,
        Expr::Lambda(Lambda { param: Spanned("x", 1..2), body: Box::new(variable("x", 7)) })
    );
}

#[test]
fn lambda_body_is_a_whole_application() {
    let tokens = lex("\\f -> f x").collect();
    let expr = expr_of(&tokens, "lambda should parse");
    assert_eq!(
        expr,
        Expr::Lambda(Lambda {
            param: Spanned("f", 1..2),
            body: Box::new(Expr::Call(Call {
                func: Box::new(variable("f", 6)),
                arg: Box::new(variable("x", 8)),
            })),
        })
    );
}

#[test]
fn block_without_value() {
    let tokens = lex("(x = y;)").collect();
    let mut stream = TokenStream::new(&tokens);
    let block = Block::parse(&mut stream).unwrap();
    assert!(stream.is_at_end());
    assert_eq!(
        block,
        Block {
            defs: DefList {
                defs: vec![Def { ident: Spanned("x", 1..2), expr: variable("y", 5) }]
            },
            expr: None,
        }
    );
}

#[test]
fn block_with_line_breaks_and_two_definitions() {
    let tokens = lex("(\n  x = y\n  z = x\n  z x\n)").collect();
    let mut stream = TokenStream::new(&tokens);
    let block = Block::parse(&mut stream).unwrap();
    assert!(stream.is_at_end());
    assert_eq!(
        block,
        Block {
            defs: DefList {
                defs: vec![
                    Def { ident: Spanned("x", 4..5), expr: variable("y", 8) },
                    Def { ident: Spanned("z", 12..13), expr: variable("x", 16) },
                ]
            },
            expr: Some(Box::new(Expr::Call(Call {
                func: Box::new(variable("z", 20)),
                arg: Box::new(variable("x", 22)),
            }))),
        }
    );
}

#[test]
fn block_needs_a_separator_behind_its_definitions() {
    let tokens = lex("(x = y)").collect();
    let mut stream = TokenStream::new(&tokens);
    assert_eq!(
        Block::parse(&mut stream),
        Err(ParseFailure {
            kind: FailureKind::Recoverable,
            span: 6..7,
            expected: Expectation::NewLine
        })
    );
    assert_eq!(stream.position(), 0);
}

#[test]
fn block_needs_a_definition() {
    let tokens = lex("(x)").collect();
    let mut stream = TokenStream::new(&tokens);
    assert_eq!(
        Block::parse(&mut stream),
        Err(ParseFailure {
            kind: FailureKind::Recoverable,
            span: 2..3,
            expected: Expectation::DefList
        })
    );
    let tokens = lex("()").collect();
    let mut stream = TokenStream::new(&tokens);
    assert_eq!(
        Block::parse(&mut stream),
        Err(ParseFailure {
            kind: FailureKind::Recoverable,
            span: 1..2,
            expected: Expectation::DefList
        })
    );
}

#[test]
fn block_must_be_closed() {
    let tokens = lex("(x = y; x").collect();
    let mut stream = TokenStream::new(&tokens);
    assert_eq!(
        Block::parse(&mut stream),
        Err(ParseFailure {
            kind: FailureKind::Recoverable,
            span: 9..9,
            expected: Expectation::Symbol(Symbol::CloseParen)
        })
    );
    assert_eq!(stream.position(), 0);
}

#[test]
fn def_failures_are_labelled() {
    let tokens = lex("= y").collect();
    let mut stream = TokenStream::new(&tokens);
    let failure = Def::parse(&mut stream).unwrap_err();
    assert_eq!(
        failure,
        ParseFailure {
            kind: FailureKind::Recoverable,
            span: 0..1,
            expected: Expectation::DefinitionName
        }
    );
    assert_eq!(failure.expected.label(), "identifier");
    let failure = DefList::parse(&mut stream).unwrap_err();
    assert_eq!(failure.expected, Expectation::DefList);
    assert_eq!(failure.expected.label(), "def list");
    assert!(!failure.is_fatal());

    let tokens = lex("x y").collect();
    let mut stream = TokenStream::new(&tokens);
    let failure = Def::parse(&mut stream).unwrap_err();
    assert_eq!(failure.expected, Expectation::Symbol(Symbol::Define));
    assert_eq!(failure.span, 2..3);
    assert_eq!(failure.expected.label(), "=");

    let tokens = lex("x = ).collect()").collect();
    let mut stream = TokenStream::new(&tokens);
    let failure = Def::parse(&mut stream).unwrap_err();
    assert_eq!(
        failure,
        ParseFailure {
            kind: FailureKind::Recoverable,
            span: 4..5,
            expected: Expectation::Expression
        }
    );
    assert_eq!(failure.expected.label(), "an expression");
    assert_eq!(stream.position(), 0);
}

#[test]
fn def_list_keeps_order_and_repeated_names() {
    let tokens = lex("x = a; y = b\nx = c").collect();
    let mut stream = TokenStream::new(&tokens);
    let defs = DefList::parse(&mut stream).unwrap();
    assert!(stream.is_at_end());
    assert_eq!(
        defs,
        DefList {
            defs: vec![
                Def { ident: Spanned("x", 0..1), expr: variable("a", 4) },
                Def { ident: Spanned("y", 7..8), expr: variable("b", 11) },
                Def { ident: Spanned("x", 13..14), expr: variable("c", 17) },
            ]
        }
    );
}

#[test]
fn def_list_leaves_trailing_separator_unread() {
    let tokens = lex("x = a\n").collect();
    let mut stream = TokenStream::new(&tokens);
    let defs = DefList::parse(&mut stream).unwrap();
    assert_eq!(defs.defs.len(), 1);
    assert_eq!(stream.position(), 3);
    assert!(!stream.is_at_end());
}

#[test]
fn module_reads_trailing_separator() {
    let tokens = lex("x = a\ny = x x\n\n").collect();
    let mut stream = TokenStream::new(&tokens);
    let module = Module::parse(&mut stream).unwrap();
    assert!(stream.is_at_end());
    assert_eq!(module.defs().defs.len(), 2);
    assert_eq!(*module.defs().defs[1].ident.inner(), "y");
    assert_eq!(parse_module(&tokens), Ok(module));
}

#[test]
fn parse_module_refuses_leftover_tokens() {
    let tokens = lex("x = a\n).collect()").collect();
    let failure = parse_module(&tokens).unwrap_err();
    assert_eq!(
        failure,
        ParseFailure { kind: FailureKind::Fatal, span: 6..7, expected: Expectation::EndOfInput }
    );
    assert_eq!(failure.expected.label(), "end of input");
    let mut stream = TokenStream::new(&tokens);
    assert!(Module::parse(&mut stream).is_ok());
    assert_eq!(stream.position(), 4);
}

#[test]
fn parse_module_of_nothing_fails() {
    let tokens = lex("").collect();
    assert_eq!(
        parse_module(&tokens),
        Err(ParseFailure {
            kind: FailureKind::Recoverable,
            span: 0..0,
            expected: Expectation::DefList
        })
    );
}

#[test]
fn call_parse_finds_no_argument_behind_a_whole_expression() {
    let tokens = lex("f x").collect();
    let mut stream = TokenStream::new(&tokens);
    assert_eq!(
        Call::parse(&mut stream),
        Err(ParseFailure {
            kind: FailureKind::Recoverable,
            span: 3..3,
            expected: Expectation::Argument
        })
    );
    assert_eq!(stream.position(), 0);
    let tokens = lex("= x").collect();
    let mut stream = TokenStream::new(&tokens);
    let failure = Call::parse(&mut stream).unwrap_err();
    assert_eq!(failure.expected, Expectation::Function);
    assert_eq!(failure.expected.label(), "a function");
    assert_eq!(Expectation::Argument.label(), "an argument");
}

#[test]
fn primitives_read_one_token() {
    let tokens = lex("x = \n").collect();
    let mut stream = TokenStream::new(&tokens);
    assert_eq!(
        symbol(&Symbol::Define, &mut stream),
        Err(ParseFailure {
            kind: FailureKind::Recoverable,
            span: 0..1,
            expected: Expectation::Symbol(Symbol::Define)
        })
    );
    assert_eq!(newline(&mut stream).unwrap_err().expected.label(), "a newline");
    assert_eq!(ident(&mut stream), Ok(Spanned("x", 0..1)));
    assert_eq!(ident(&mut stream).unwrap_err().expected.label(), "an identifier");
    assert_eq!(stream.position(), 1);
    assert_eq!(symbol(&Symbol::Arrow, &mut stream).unwrap_err().expected.label(), "->");
    assert_eq!(symbol(&Symbol::Define, &mut stream), Ok(Spanned((), 2..3)));
    assert_eq!(newline(&mut stream), Ok(Spanned((), 4..5)));
    assert!(stream.is_at_end());
    assert_eq!(
        token(&mut stream),
        Err(ParseFailure {
            kind: FailureKind::Recoverable,
            span: 5..5,
            expected: Expectation::Token
        })
    );
    stream.reset(1);
    assert_eq!(token(&mut stream), Ok(Spanned(Token::Symbol(Symbol::Define), 2..3)));
    assert_eq!(maybe_newline(&mut stream), Some(Spanned((), 4..5)));
    assert_eq!(maybe_newline(&mut stream), None);
}

#[test]
fn symbol_texts() {
    assert_eq!(Symbol::Lambda.text(), "\\");
    assert_eq!(Symbol::Arrow.text(), "->");
    assert_eq!(Symbol::Define.text(), "=");
    assert_eq!(Symbol::OpenParen.text(), "(");
    assert_eq!(Symbol::CloseParen.text(), ")");
    assert_eq!(Expectation::Symbol(Symbol::OpenParen).label(), "(");
    assert_eq!(Expectation::Token.label(), "a token");
}

#[test]
fn stream_peeks_without_moving() {
    let tokens = lex("a b").collect();
    let mut stream = TokenStream::new(&tokens);
    assert_eq!(stream.peek_token(), Some(Spanned(Token::Ident("a"), 0..1)));
    assert_eq!(stream.position(), 0);
    assert_eq!(stream.span_here(), 0..1);
    assert_eq!(stream.next_token(), Some(Spanned(Token::Ident("a"), 0..1)));
    assert_eq!(stream.next_token(), Some(Spanned(Token::Ident("b"), 2..3)));
    assert_eq!(stream.next_token(), None);
    assert_eq!(stream.peek_token(), None);
    assert_eq!(stream.span_here(), 3..3);
    let none: [Spanned<Token>; 0] = [];
    assert_eq!(TokenStream::new(&none).span_here(), 0..0);
}

#[test]
fn failure_relabel_and_cut() {
    let failure = ParseFailure {
        kind: FailureKind::Recoverable,
        span: 2..3,
        expected: Expectation::Identifier,
    };
    let cut = failure.clone().cut();
    assert_eq!(
        cut,
        ParseFailure { kind: FailureKind::Fatal, span: 2..3, expected: Expectation::Identifier }
    );
    assert_eq!(cut.clone().relabel(Expectation::Expression), cut);
    assert_eq!(
        failure.relabel(Expectation::Expression),
        ParseFailure {
            kind: FailureKind::Recoverable,
            span: 2..3,
            expected: Expectation::Expression
        }
    );
}

#[test]
fn parse_source_reads_a_whole_module() {
    let module = parse_source("identity = \\x -> x\nconst = \\x -> \\y -> x\n").unwrap();
    let defs = &module.defs().defs;
    assert_eq!(defs.len(), 2);
    assert_eq!(defs[0].ident, Spanned("identity", 0..8));
    assert_eq!(defs[1].ident, Spanned("const", 19..24));
    assert_eq!(
        defs[1].expr,
        Expr::Lambda(Lambda {
            param: Spanned("x", 28..29),
            body: Box::new(Expr::Lambda(Lambda {
                param: Spanned("y", 34..35),
                body: Box::new(variable("x", 39)),
            })),
        })
    );
}

#[test]
fn parse_source_tells_lexical_from_syntax_errors() {
    assert_eq!(
        parse_source("x = y + z"),
        Err(SourceError::Lexical(LexError { position: 6 }))
    );
    assert_eq!(
        parse_source("x = \\ + z"),
        Err(SourceError::Lexical(LexError { position: 6 }))
    );
    assert_eq!(
        parse_source("x = y )"),
        Err(SourceError::Syntax(ParseFailure {
            kind: FailureKind::Fatal,
            span: 6..7,
            expected: Expectation::EndOfInput
        }))
    );
    assert_eq!(
        parse_source("x = \\-> y"),
        Err(SourceError::Syntax(ParseFailure {
            kind: FailureKind::Fatal,
            span: 5..7,
            expected: Expectation::Identifier
        }))
    );
    assert_eq!(
        parse_source("x"),
        Err(SourceError::Syntax(ParseFailure {
            kind: FailureKind::Recoverable,
            span: 1..1,
            expected: Expectation::DefList
        }))
    );
}

#[test]
fn checkpoint_is_a_copy_to_come_back_to() {
    let tokens = lex("a b c").collect();
    let mut stream = TokenStream::new(&tokens);
    let _ = stream.next_token();
    let saved = stream.checkpoint();
    let _ = stream.next_token();
    let _ = stream.next_token();
    assert!(stream.is_at_end());
    stream = saved;
    assert_eq!(stream.position(), 1);
    assert_eq!(stream.next_token(), Some(Spanned(Token::Ident("b"), 2..3)));
}

#[test]
fn lexer_stream_yields_the_tokens_of_the_source() {
    let source = " x = \\a ->\n (y = a; y)\n\n";
    let tokens = lex(source).collect();
    let mut stream = LexerStream::new(source);
    for expected in tokens.iter() {
        assert_eq!(stream.span_here(), expected.1.clone());
        assert_eq!(stream.peek_token().as_ref(), Some(expected));
        assert_eq!(stream.next_token().as_ref(), Some(expected));
    }
    assert_eq!(stream.peek_token(), None);
    assert_eq!(stream.next_token(), None);
    assert_eq!(stream.span_here(), 23..23);
    assert_eq!(LexerStream::new("").span_here(), 0..0);
    assert_eq!(LexerStream::new("  ?").next_token(), None);
}

#[test]
fn lexer_stream_goes_back_to_a_checkpoint() {
    let mut stream = LexerStream::new("a ; b");
    let _ = stream.next_token();
    let saved = stream.checkpoint();
    assert_eq!(stream.next_token(), Some(Spanned(Token::NewLine, 2..3)));
    assert_eq!(stream.next_token(), Some(Spanned(Token::Ident("b"), 4..5)));
    stream = saved;
    assert_eq!(stream.next_token(), Some(Spanned(Token::NewLine, 2..3)));
}

#[test]
fn parsing_from_the_lexer_gives_what_parsing_its_tokens_gives() {
    for source in [
        "x y z",
        "\\x -> \\y -> z",
        "(x = y; x)",
        "f (a = \\b -> b\n a f) c",
        "\\-> x",
        "x \\ = ",
        "(x = y)",
        "",
        "= x",
    ] {
        let tokens = lex(source).collect();
        let mut eager = TokenStream::new(&tokens);
        let mut lazy = LexerStream::new(source);
        assert_eq!(Expr::parse(&mut lazy), Expr::parse(&mut eager));
    }
    for source in ["x = y\ny = z", "x = y\n", "f = \\-> x", "a = b )", "a"] {
        let tokens = lex(source).collect();
        let mut eager = TokenStream::new(&tokens);
        let mut lazy = LexerStream::new(source);
        assert_eq!(Module::parse(&mut lazy), Module::parse(&mut eager));
        assert_eq!(lazy.peek_token(), eager.peek_token());
    }
}

#[test]
fn keyword_reads_the_given_word_alone() {
    let tokens = lex("let lets = x").collect();
    let mut stream = TokenStream::new(&tokens);
    let failure = keyword("in", &mut stream).unwrap_err();
    assert_eq!(
        failure,
        ParseFailure {
            kind: FailureKind::Recoverable,
            span: 0..3,
            expected: Expectation::Keyword("in")
        }
    );
    assert_eq!(failure.expected.label(), "in");
    assert_eq!(stream.position(), 0);
    assert!(keyword("le", &mut stream).is_err());
    assert!(keyword("lets", &mut stream).is_err());
    assert!(keyword("lat", &mut stream).is_err());
    assert_eq!(keyword("let", &mut stream), Ok(Spanned((), 0..3)));
    assert_eq!(stream.position(), 1);
    assert!(keyword("let", &mut stream).is_err());
    assert_eq!(keyword("lets", &mut stream), Ok(Spanned((), 4..8)));
    assert_eq!(
        keyword("x", &mut stream),
        Err(ParseFailure {
            kind: FailureKind::Recoverable,
            span: 9..10,
            expected: Expectation::Keyword("x")
        })
    );
    stream.reset(4);
    assert!(keyword("x", &mut stream).is_err());
}
