use cpp_parser::array::ArrayParser;
use cpp_parser::context::Context;
use cpp_parser::do_stmt::DoStmtParser;
use cpp_parser::linkage::LinkageParser;
use cpp_parser::name::{Identifier, Name, Qualified};
use cpp_parser::op::Operator;
use cpp_parser::token::{Token, TokenStream};

fn id(s: &str) -> Token {
    Token::Identifier(s.to_string())
}

#[test]
fn test_qualified_to_string() {
    let q = Qualified {
        names: vec![
            Name::Identifier(Identifier { val: "abc".to_string() }),
            Name::Identifier(Identifier { val: "defg".to_string() }),
        ],
    };
    assert_eq!(q.to_string(), "abc::defg".to_string());
    assert_eq!(q.dump(), "name: abc::defg".to_string());
}

#[test]
fn test_name_to_string() {
    let d = Name::Destructor(cpp_parser::op::Destructor { name: "A".to_string() });
    assert_eq!(d.to_string(), "~A".to_string());
    let o = Name::Operator(Box::new(Operator::Plus));
    assert_eq!(o.to_string(), "operator+".to_string());
    let c = Name::Operator(Box::new(Operator::Conv(cpp_parser::decl::Primitive::Int)));
    assert_eq!(c.to_string(), "operator int".to_string());
    assert_eq!(Name::Empty.to_string(), "".to_string());
    assert_eq!(d.as_str(), "");
    assert_eq!(
        Name::Identifier(Identifier { val: "x".to_string() }).as_str(),
        "x"
    );
}

#[test]
fn test_dump_array() {
    let mut stream = TokenStream::new(vec![
        Token::LeftBrack,
        Token::LiteralInt(10),
        Token::RightBrack,
        Token::LeftBrack,
        Token::RightBrack,
    ]);
    let (_, arr) = ArrayParser::new()
        .parse(None, &mut stream, &mut Context::default())
        .unwrap();
    let arr = arr.unwrap();

    let expected = "array(base: none, dimensions: [dim(size: 10, attributes: none), \
                    dim(size: none, attributes: none)])";
    assert_eq!(arr.dump(), expected.to_string());
    // re-dumping the same node gives identical output
    assert_eq!(arr.dump(), arr.dump());
}

#[test]
fn test_dump_do() {
    let mut stream = TokenStream::new(vec![
        Token::LeftBrace,
        id("x"),
        Token::SemiColon,
        Token::RightBrace,
        Token::While,
        Token::LeftParen,
        id("cond"),
        Token::RightParen,
        Token::SemiColon,
    ]);
    let (_, d) = DoStmtParser::new()
        .parse(None, &mut stream, &mut Context::default())
        .unwrap();
    let d = d.unwrap();

    let expected = "do(attributes: none, body: compound([expr(x)]), condition: cond)";
    assert_eq!(d.dump(), expected.to_string());
    assert_eq!(d.dump(), d.dump());
}

#[test]
fn test_dump_linkage() {
    let mut stream = TokenStream::new(vec![
        Token::LinkageKw,
        Token::LiteralString("C".to_string()),
        Token::LeftBrace,
        Token::Double,
        id("sqrt"),
        Token::LeftParen,
        Token::Double,
        Token::RightParen,
        Token::SemiColon,
        Token::RightBrace,
    ]);
    let (_, ext) = LinkageParser::new()
        .parse(None, &mut stream, &mut Context::default())
        .unwrap();
    let ext = ext.unwrap();

    let expected = "linkage(language: C, multiple: true, decls: [declarator(type: \
                    function(return: double, params: [declarator(type: double, linkage: false, \
                    name: none)]), linkage: false, name: sqrt)])";
    assert_eq!(ext.dump(), expected.to_string());
    assert_eq!(ext.dump(), ext.dump());
}

#[test]
fn test_dump_large_size() {
    let mut stream = TokenStream::new(vec![
        Token::LeftBrack,
        Token::LiteralInt(1048576),
        Token::RightBrack,
    ]);
    let (_, arr) = ArrayParser::new()
        .parse(None, &mut stream, &mut Context::default())
        .unwrap();

    assert_eq!(
        arr.unwrap().dump(),
        "array(base: none, dimensions: [dim(size: 1048576, attributes: none)])".to_string()
    );
}
