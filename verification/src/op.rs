//! Operator and destructor names: the two name forms that close a
//! qualified name for good (nothing can further qualify them).

use vstd::prelude::*;
use vstd::string::StringExecFns;

use crate::context::Context;
use crate::decl::Primitive;
use crate::error::{ErrK, ParserError};
use crate::token::{
    clip, input_of, parse_post, tok_at, Parsed, TokV, Token, TokenStream, stepped,
};

verus! {

/// An overloadable-operator name, e.g. `operator+` or a conversion
/// operator to a primitive type.
#[derive(Clone, Copy, Debug, PartialEq, Eq, Hash, Structural)]
pub enum Operator {
    Plus,
    Minus,
    Star,
    /// A conversion operator, e.g. `operator double`.
    Conv(Primitive),
}

impl View for Operator {
    type V = Operator;

    open spec fn view(&self) -> Operator {
        *self
    }
}

/// The conventional notation of an operator name, e.g. `operator+`.
pub open spec fn op_text(op: Operator) -> Seq<char> {
    match op {
        Operator::Plus => "operator+"@,
        Operator::Minus => "operator-"@,
        Operator::Star => "operator*"@,
        Operator::Conv(p) => "operator "@ + crate::decl::prim_text(p),
    }
}

impl Operator {
    /// The conventional notation of this operator name.
    pub fn to_string(&self) -> (r: String)
        ensures
            r@ == op_text(*self),
    {
        match self {
            Operator::Plus => String::from_str("operator+"),
            Operator::Minus => String::from_str("operator-"),
            Operator::Star => String::from_str("operator*"),
            Operator::Conv(p) => {
                let mut s = String::from_str("operator ");
                s.append(p.as_str());
                s
            },
        }
    }

    /// Is this a conversion operator?
    pub fn is_conv(&self) -> (r: bool)
        ensures
            r == (*self is Conv),
    {
        matches!(self, Operator::Conv(_))
    }
}

/// A destructor name, e.g. `~Foo`.
#[derive(Clone, Debug, PartialEq, Eq, Hash)]
pub struct Destructor {
    pub name: String,
}

impl View for Destructor {
    type V = Seq<char>;

    open spec fn view(&self) -> Seq<char> {
        self.name@
    }
}

/// What the operator grammar makes of its input: the `operator` keyword
/// followed by an operator symbol, or by a primitive type name for a
/// conversion operator.  Anywhere else the production does not match.
pub open spec fn op_parse(toks: Seq<TokV>) -> Parsed<Option<Operator>> {
    if tok_at(toks, 0) != TokV::Operator {
        Parsed::Found { next: 0, val: None }
    } else {
        match tok_at(toks, 1) {
            TokV::Plus => Parsed::Found { next: 2, val: Some(Operator::Plus) },
            TokV::Minus => Parsed::Found { next: 2, val: Some(Operator::Minus) },
            TokV::Star => Parsed::Found { next: 2, val: Some(Operator::Star) },
            TokV::Double => Parsed::Found { next: 2, val: Some(Operator::Conv(Primitive::Double)) },
            TokV::Int => Parsed::Found { next: 2, val: Some(Operator::Conv(Primitive::Int)) },
            TokV::Void => Parsed::Found { next: 2, val: Some(Operator::Conv(Primitive::Void)) },
            _ => Parsed::Failed { kind: ErrK::Op, at: 1 },
        }
    }
}

/// What the destructor grammar makes of its input: `~` followed by the
/// class name.  Anywhere else the production does not match.
pub open spec fn dtor_parse(toks: Seq<TokV>) -> Parsed<Option<Seq<char>>> {
    if tok_at(toks, 0) != TokV::Tilde {
        Parsed::Found { next: 0, val: None }
    } else {
        match tok_at(toks, 1) {
            TokV::Identifier(s) => Parsed::Found { next: 2, val: Some(s) },
            _ => Parsed::Failed { kind: ErrK::Dtor, at: 1 },
        }
    }
}

pub struct OperatorParser;

impl OperatorParser {
    pub fn new() -> (r: OperatorParser) {
        OperatorParser
    }

    /// Parse an operator name where `op_parse` says what must come of it.
    pub fn parse(self, tok: Option<Token>, stream: &mut TokenStream, context: &mut Context) -> (r:
        Result<(Option<Token>, Option<Operator>), ParserError>)
        requires
            old(stream).wf(),
        ensures
            stepped(*old(stream), *final(stream)),
            *final(context) == *old(context),
            parse_post::<Operator>(
                op_parse(input_of(tok, *old(stream))),
                input_of(tok, *old(stream)),
                *final(stream),
                r,
            ),
    {
        let ghost input = input_of(tok, *old(stream));
        let t0 = stream.take_or_next(tok);
        if !matches!(t0, Token::Operator) {
            return Ok((Some(t0), None));
        }
        let t1 = stream.pull_at(Ghost(input), Ghost(1));
        let op = match t1 {
            Token::Plus => Operator::Plus,
            Token::Minus => Operator::Minus,
            Token::Star => Operator::Star,
            Token::Double => Operator::Conv(Primitive::Double),
            Token::Int => Operator::Conv(Primitive::Int),
            Token::Void => Operator::Conv(Primitive::Void),
            _ => {
                return Err(ParserError::InvalidTokenInOp { sp: stream.span(), tok: t1 });
            },
        };
        let t2 = stream.pull_at(Ghost(input), Ghost(2));
        Ok((Some(t2), Some(op)))
    }
}

pub struct DtorParser;

impl DtorParser {
    pub fn new() -> (r: DtorParser) {
        DtorParser
    }

    /// Parse a destructor name where `dtor_parse` says what must come of it.
    pub fn parse(self, tok: Option<Token>, stream: &mut TokenStream, context: &mut Context) -> (r:
        Result<(Option<Token>, Option<Destructor>), ParserError>)
        requires
            old(stream).wf(),
        ensures
            stepped(*old(stream), *final(stream)),
            *final(context) == *old(context),
            parse_post::<Destructor>(
                dtor_parse(input_of(tok, *old(stream))),
                input_of(tok, *old(stream)),
                *final(stream),
                r,
            ),
    {
        let ghost input = input_of(tok, *old(stream));
        let t0 = stream.take_or_next(tok);
        if !matches!(t0, Token::Tilde) {
            return Ok((Some(t0), None));
        }
        let t1 = stream.pull_at(Ghost(input), Ghost(1));
        match t1 {
            Token::Identifier(name) => {
                let t2 = stream.pull_at(Ghost(input), Ghost(2));
                Ok((Some(t2), Some(Destructor { name })))
            },
            _ => Err(ParserError::InvalidTokenInDtor { sp: stream.span(), tok: t1 }),
        }
    }
}

} // verus!
