use cpp_parser::array::{Array, ArrayParser, Dimension};
use cpp_parser::context::Context;
use cpp_parser::decl::{
    BaseType, DeclHint, Declaration, Function, Parameter, Primitive, Specifier, Type,
    TypeDeclarator, TypeDeclaratorParser,
};
use cpp_parser::do_stmt::{Do, DoStmtParser};
use cpp_parser::error::ParserError;
use cpp_parser::expr::ExprNode;
use cpp_parser::linkage::{Linkage, LinkageParser};
use cpp_parser::name::{Identifier, Name, Qualified, QualifiedParser};
use cpp_parser::op::Operator;
use cpp_parser::stmt::Statement;
use cpp_parser::token::{Token, TokenStream};

fn id(s: &str) -> Token {
    Token::Identifier(s.to_string())
}

fn name(s: &str) -> Name {
    Name::Identifier(Identifier { val: s.to_string() })
}

fn qualified(parts: &[&str]) -> Qualified {
    Qualified { names: parts.iter().map(|p| name(p)).collect() }
}

#[test]
fn test_name_one() {
    let mut stream = TokenStream::new(vec![id("abc")]);
    let p = QualifiedParser::new();
    let mut context = Context::default();
    let (_, q) = p.parse(None, None, &mut stream, &mut context).unwrap();

    assert_eq!(q.unwrap(), qualified(&["abc"]));
}

#[test]
fn test_name_two() {
    let mut stream = TokenStream::new(vec![id("abc"), Token::ColonColon, id("defg")]);
    let p = QualifiedParser::new();
    let mut context = Context::default();
    let (_, q) = p.parse(None, None, &mut stream, &mut context).unwrap();

    assert_eq!(q.unwrap(), qualified(&["abc", "defg"]));
}

#[test]
fn test_name_three() {
    let mut stream = TokenStream::new(vec![
        id("abc"),
        Token::ColonColon,
        id("defg"),
        Token::ColonColon,
        id("hijkl"),
    ]);
    let p = QualifiedParser::new();
    let mut context = Context::default();
    let (tok, q) = p.parse(None, None, &mut stream, &mut context).unwrap();

    assert_eq!(q.unwrap(), qualified(&["abc", "defg", "hijkl"]));
    // the trailing token is end-of-stream
    assert_eq!(tok, Some(Token::Eof));
}

#[test]
fn test_name_global() {
    let mut stream = TokenStream::new(vec![Token::ColonColon, id("abc")]);
    let (_, q) = QualifiedParser::new()
        .parse(None, None, &mut stream, &mut Context::default())
        .unwrap();

    assert_eq!(q.unwrap(), Qualified { names: vec![Name::Empty, name("abc")] });
}

#[test]
fn test_name_no_match() {
    // where no name starts, the lookahead token comes back unconsumed
    let mut stream = TokenStream::new(vec![Token::SemiColon]);
    let (tok, q) = QualifiedParser::new()
        .parse(None, None, &mut stream, &mut Context::default())
        .unwrap();

    assert_eq!(q, None);
    assert_eq!(tok, Some(Token::SemiColon));
}

#[test]
fn test_name_first_given() {
    // a caller that already committed to a first identifier hands it over
    let mut stream = TokenStream::new(vec![Token::ColonColon, id("b")]);
    let (_, q) = QualifiedParser::new()
        .parse(None, Some("a".to_string()), &mut stream, &mut Context::default())
        .unwrap();

    assert_eq!(q.unwrap(), qualified(&["a", "b"]));
}

#[test]
fn test_name_operator() {
    let mut stream = TokenStream::new(vec![id("A"), Token::ColonColon, Token::Operator, Token::Plus]);
    let (_, q) = QualifiedParser::new()
        .parse(None, None, &mut stream, &mut Context::default())
        .unwrap();
    let q = q.unwrap();

    assert_eq!(
        q,
        Qualified { names: vec![name("A"), Name::Operator(Box::new(Operator::Plus))] }
    );
    assert!(!q.is_conv_op());
}

#[test]
fn test_name_conv_operator() {
    let mut stream = TokenStream::new(vec![Token::Operator, Token::Double]);
    let (_, q) = QualifiedParser::new()
        .parse(None, None, &mut stream, &mut Context::default())
        .unwrap();
    let q = q.unwrap();

    assert_eq!(
        q,
        Qualified { names: vec![Name::Operator(Box::new(Operator::Conv(Primitive::Double)))] }
    );
    assert!(q.is_conv_op());
}

#[test]
fn test_name_destructor() {
    let mut stream = TokenStream::new(vec![id("A"), Token::ColonColon, Token::Tilde, id("A")]);
    let (_, q) = QualifiedParser::new()
        .parse(None, None, &mut stream, &mut Context::default())
        .unwrap();

    assert_eq!(
        q.unwrap(),
        Qualified {
            names: vec![
                name("A"),
                Name::Destructor(cpp_parser::op::Destructor { name: "A".to_string() }),
            ],
        }
    );
}

#[test]
fn test_name_operator_error() {
    let mut stream = TokenStream::new(vec![Token::Operator, Token::SemiColon]);
    let r = QualifiedParser::new().parse(None, None, &mut stream, &mut Context::default());

    assert_eq!(
        r,
        Err(ParserError::InvalidTokenInOp { sp: 2, tok: Token::SemiColon })
    );
}

#[test]
fn test_name_destructor_error() {
    let mut stream = TokenStream::new(vec![Token::Tilde, Token::LiteralInt(1)]);
    let r = QualifiedParser::new().parse(None, None, &mut stream, &mut Context::default());

    assert_eq!(
        r,
        Err(ParserError::InvalidTokenInDtor { sp: 2, tok: Token::LiteralInt(1) })
    );
}

#[test]
fn test_qualified_accessors() {
    let q = qualified(&["a", "b"]);
    assert_eq!(q.len(), 2);
    assert_eq!(q.get_first_name(), "b".to_string());
}

fn double_sqrt_double() -> TypeDeclarator {
    TypeDeclarator {
        typ: Type {
            base: BaseType::Function(Box::new(Function {
                return_type: Some(Type { base: BaseType::Primitive(Primitive::Double) }),
                params: vec![Parameter {
                    attributes: None,
                    decl: TypeDeclarator {
                        typ: Type { base: BaseType::Primitive(Primitive::Double) },
                        specifier: Specifier { linkage: false },
                        identifier: None,
                    },
                }],
            })),
        },
        specifier: Specifier { linkage: false },
        identifier: Some(qualified(&["sqrt"])),
    }
}

#[test]
fn test_linkage_c() {
    // a braced block under a language name: one declaration, multiple=true
    let mut stream = TokenStream::new(vec![
        Token::LinkageKw,
        Token::LiteralString("C".to_string()),
        Token::LeftBrace,
        Token::Double,
        id("sqrt"),
        Token::LeftParen,
        Token::Double,
        Token::RightParen,
        Token::SemiColon,
        Token::RightBrace,
    ]);
    let p = LinkageParser::new();
    let mut context = Context::default();
    let (tok, ext) = p.parse(None, &mut stream, &mut context).unwrap();

    let ext = ext.unwrap();
    assert_eq!(
        ext,
        Declaration::Linkage(Linkage {
            language: "C".to_string(),
            decls: vec![Declaration::Type(double_sqrt_double())],
            multiple: true,
        })
    );
    // the block consumed its own closing brace
    assert_eq!(tok, None);
}

#[test]
fn test_linkage_decl() {
    // no string literal block: a plain declaration with the linkage specifier
    let mut stream = TokenStream::new(vec![
        Token::LinkageKw,
        Token::Double,
        id("sqrt"),
        Token::LeftParen,
        Token::Double,
        Token::RightParen,
        Token::SemiColon,
    ]);
    let p = LinkageParser::new();
    let mut context = Context::default();
    let (_, ext) = p.parse(None, &mut stream, &mut context).unwrap();

    let ext = ext.unwrap();
    let mut expected = double_sqrt_double();
    expected.specifier = Specifier { linkage: true };
    assert_eq!(ext, Declaration::Type(expected));
    // the declared name is now known to the context
    assert!(context.knows_type_name(&"sqrt".to_string()));
}

#[test]
fn test_linkage_single_decl() {
    // unbraced: exactly one declaration under the language name
    let mut stream = TokenStream::new(vec![
        Token::LinkageKw,
        Token::LiteralString("C".to_string()),
        Token::Int,
        id("x"),
        Token::SemiColon,
    ]);
    let (tok, ext) = LinkageParser::new()
        .parse(None, &mut stream, &mut Context::default())
        .unwrap();

    assert_eq!(
        ext.unwrap(),
        Declaration::Linkage(Linkage {
            language: "C".to_string(),
            decls: vec![Declaration::Type(TypeDeclarator {
                typ: Type { base: BaseType::Primitive(Primitive::Int) },
                specifier: Specifier { linkage: false },
                identifier: Some(qualified(&["x"])),
            })],
            multiple: false,
        })
    );
    assert_eq!(tok, Some(Token::Eof));
}

#[test]
fn test_linkage_no_match() {
    let mut stream = TokenStream::new(vec![Token::Do]);
    let (tok, ext) = LinkageParser::new()
        .parse(None, &mut stream, &mut Context::default())
        .unwrap();

    assert_eq!(ext, None);
    assert_eq!(tok, Some(Token::Do));
}

#[test]
fn test_linkage_missing_close() {
    let mut stream = TokenStream::new(vec![
        Token::LinkageKw,
        Token::LiteralString("C".to_string()),
        Token::LeftBrace,
        Token::Double,
        Token::SemiColon,
    ]);
    let r = LinkageParser::new().parse(None, &mut stream, &mut Context::default());

    assert_eq!(
        r,
        Err(ParserError::InvalidTokenInLinkage { sp: 5, tok: Token::Eof })
    );
}

#[test]
fn test_linkage_decl_missing_semi() {
    let mut stream = TokenStream::new(vec![
        Token::LinkageKw,
        Token::LiteralString("C".to_string()),
        Token::Double,
        id("x"),
        Token::Comma,
    ]);
    let r = LinkageParser::new().parse(None, &mut stream, &mut Context::default());

    assert_eq!(
        r,
        Err(ParserError::InvalidTokenInDecl { sp: 5, tok: Token::Comma })
    );
}

#[test]
fn test_type_declarator_plain() {
    let mut stream = TokenStream::new(vec![Token::Int, id("x"), Token::SemiColon]);
    let (tok, td) = TypeDeclaratorParser::new()
        .parse(None, None, &mut stream, &mut Context::default())
        .unwrap();

    assert_eq!(
        td.unwrap(),
        TypeDeclarator {
            typ: Type { base: BaseType::Primitive(Primitive::Int) },
            specifier: Specifier { linkage: false },
            identifier: Some(qualified(&["x"])),
        }
    );
    assert_eq!(tok, Some(Token::SemiColon));
}

#[test]
fn test_type_declarator_hint() {
    let mut stream = TokenStream::new(vec![Token::Void, id("f"), Token::LeftParen, Token::RightParen]);
    let hint = DeclHint::Specifier(Specifier { linkage: true });
    let (_, td) = TypeDeclaratorParser::new()
        .parse(None, Some(hint), &mut stream, &mut Context::default())
        .unwrap();
    let td = td.unwrap();

    assert_eq!(td.specifier, Specifier { linkage: true });
    assert_eq!(
        td.typ,
        Type {
            base: BaseType::Function(Box::new(Function {
                return_type: Some(Type { base: BaseType::Primitive(Primitive::Void) }),
                params: vec![],
            })),
        }
    );
}

#[test]
fn test_array_two_dims() {
    // `[10][]`: first dimension sized 10, second with no size expression
    let mut stream = TokenStream::new(vec![
        Token::LeftBrack,
        Token::LiteralInt(10),
        Token::RightBrack,
        Token::LeftBrack,
        Token::RightBrack,
    ]);
    let (tok, arr) = ArrayParser::new()
        .parse(None, &mut stream, &mut Context::default())
        .unwrap();

    assert_eq!(
        arr.unwrap(),
        Array {
            base: None,
            dimensions: vec![
                Dimension { size: Some(ExprNode::Integer(10)), attributes: None },
                Dimension { size: None, attributes: None },
            ],
        }
    );
    assert_eq!(tok, Some(Token::Eof));
}

#[test]
fn test_array_zero_dims() {
    // zero `[`-prefixed tokens yield None, never an empty array node
    let mut stream = TokenStream::new(vec![Token::SemiColon]);
    let (tok, arr) = ArrayParser::new()
        .parse(None, &mut stream, &mut Context::default())
        .unwrap();

    assert_eq!(arr, None);
    assert_eq!(tok, Some(Token::SemiColon));
}

#[test]
fn test_array_bad_size_terminator() {
    let mut stream = TokenStream::new(vec![
        Token::LeftBrack,
        Token::LiteralInt(10),
        Token::RightParen,
    ]);
    let r = ArrayParser::new().parse(None, &mut stream, &mut Context::default());

    assert_eq!(
        r,
        Err(ParserError::InvalidTokenInArraySize { sp: 3, tok: Token::RightParen })
    );
}

#[test]
fn test_array_with_attributes() {
    let mut stream = TokenStream::new(vec![
        Token::LeftBrack,
        Token::RightBrack,
        Token::DoubleLeftBrack,
        id("deprecated"),
        Token::DoubleRightBrack,
    ]);
    let (_, arr) = ArrayParser::new()
        .parse(None, &mut stream, &mut Context::default())
        .unwrap();

    assert_eq!(
        arr.unwrap(),
        Array {
            base: None,
            dimensions: vec![Dimension {
                size: None,
                attributes: Some(cpp_parser::attr::Attributes {
                    entries: vec![Identifier { val: "deprecated".to_string() }],
                }),
            }],
        }
    );
}

#[test]
fn test_attribute_error() {
    let mut stream = TokenStream::new(vec![
        Token::LeftBrack,
        Token::RightBrack,
        Token::DoubleLeftBrack,
        Token::LiteralInt(5),
    ]);
    let r = ArrayParser::new().parse(None, &mut stream, &mut Context::default());

    assert_eq!(
        r,
        Err(ParserError::InvalidTokenInAttribute { sp: 4, tok: Token::LiteralInt(5) })
    );
}

fn do_tokens() -> Vec<Token> {
    // `{ x; } while (cond);`, the part after the `do` keyword
    vec![
        Token::LeftBrace,
        id("x"),
        Token::SemiColon,
        Token::RightBrace,
        Token::While,
        Token::LeftParen,
        id("cond"),
        Token::RightParen,
        Token::SemiColon,
    ]
}

#[test]
fn test_do_full() {
    let mut stream = TokenStream::new(do_tokens());
    let mut context = Context::default();
    let depth_before = context.scope_depth();
    let (tok, d) = DoStmtParser::new().parse(None, &mut stream, &mut context).unwrap();

    assert_eq!(
        d.unwrap(),
        Do {
            attributes: None,
            body: Statement::Compound(vec![Statement::Expr(ExprNode::Qualified(Box::new(
                qualified(&["x"]),
            )))]),
            condition: ExprNode::Qualified(Box::new(qualified(&["cond"]))),
        }
    );
    // the statement consumed everything through the trailing `;`
    assert_eq!(tok, None);
    assert_eq!(stream.next_useful(), Token::Eof);
    // the do-block scope is gone again
    assert_eq!(context.scope_depth(), depth_before);
}

#[test]
fn test_do_missing_while() {
    let mut stream = TokenStream::new(vec![Token::LeftBrace, Token::RightBrace, Token::LeftParen]);
    let mut context = Context::default();
    let r = DoStmtParser::new().parse(None, &mut stream, &mut context);

    assert_eq!(
        r,
        Err(ParserError::InvalidTokenInDo { sp: 3, tok: Token::LeftParen })
    );
    assert_eq!(context.scope_depth(), 0);
}

#[test]
fn test_do_missing_lparen() {
    let mut stream = TokenStream::new(vec![Token::SemiColon, Token::While, Token::SemiColon]);
    let mut context = Context::default();
    let r = DoStmtParser::new().parse(None, &mut stream, &mut context);

    assert_eq!(
        r,
        Err(ParserError::InvalidTokenInDo { sp: 3, tok: Token::SemiColon })
    );
    assert_eq!(context.scope_depth(), 0);
}

#[test]
fn test_do_missing_rparen() {
    let mut stream = TokenStream::new(vec![
        Token::SemiColon,
        Token::While,
        Token::LeftParen,
        id("c"),
        Token::SemiColon,
    ]);
    let mut context = Context::default();
    let r = DoStmtParser::new().parse(None, &mut stream, &mut context);

    assert_eq!(
        r,
        Err(ParserError::InvalidTokenInDo { sp: 5, tok: Token::SemiColon })
    );
    assert_eq!(context.scope_depth(), 0);
}

#[test]
fn test_do_missing_semi() {
    let mut stream = TokenStream::new(vec![
        Token::SemiColon,
        Token::While,
        Token::LeftParen,
        id("c"),
        Token::RightParen,
        Token::RightBrace,
    ]);
    let mut context = Context::default();
    let r = DoStmtParser::new().parse(None, &mut stream, &mut context);

    assert_eq!(
        r,
        Err(ParserError::InvalidTokenInDo { sp: 6, tok: Token::RightBrace })
    );
    assert_eq!(context.scope_depth(), 0);
}

#[test]
fn test_do_bad_body() {
    let mut stream = TokenStream::new(vec![Token::RightParen]);
    let mut context = Context::default();
    let r = DoStmtParser::new().parse(None, &mut stream, &mut context);

    assert_eq!(
        r,
        Err(ParserError::InvalidTokenInStmt { sp: 1, tok: Token::RightParen })
    );
    assert_eq!(context.scope_depth(), 0);
}
