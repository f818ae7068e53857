//! Expressions, as far as this grammar slice needs them: a single operand,
//! either an integer literal or a possibly-qualified name.  Callers bound
//! an expression by a terminator token of their choice; operator-precedence
//! parsing between operands is a sibling subsystem outside this slice, so
//! the terminator never comes into play here.

use vstd::prelude::*;

use crate::context::Context;
use crate::error::ParserError;
use crate::name::{lemma_q_step_no_close, q_parse, NameV, Qualified, QualifiedParser};
use crate::token::{
    input_of, parse_post, stepped, tok_at, Parsed, TokV, Token, TokenStream,
};

verus! {

/// An expression node of this grammar slice.
#[derive(Clone, Debug, PartialEq, Eq)]
pub enum ExprNode {
    Integer(u64),
    Qualified(Box<Qualified>),
}

/// The value of an expression node.
pub enum ExprV {
    Integer(u64),
    Qualified(Seq<NameV>),
}

impl View for ExprNode {
    type V = ExprV;

    open spec fn view(&self) -> ExprV {
        match self {
            ExprNode::Integer(n) => ExprV::Integer(*n),
            ExprNode::Qualified(q) => ExprV::Qualified(q@),
        }
    }
}

/// A template- or call-argument list: each entry an optional expression.
pub type Parameters = Vec<Option<ExprNode>>;

/// What the expression grammar makes of its input: one operand, or `None`
/// when no operand starts here (in particular at the caller's terminator).
pub open spec fn expr_parse(toks: Seq<TokV>) -> Parsed<Option<ExprV>> {
    match tok_at(toks, 0) {
        TokV::LiteralInt(n) => Parsed::Found { next: 1, val: Some(ExprV::Integer(n)) },
        TokV::Identifier(_) | TokV::ColonColon => match q_parse(toks, None) {
            Parsed::Found { next, val } => match val {
                Some(names) => Parsed::Found { next, val: Some(ExprV::Qualified(names)) },
                // a name always starts at an identifier or a `::`
                None => Parsed::Found { next, val: None },
            },
            // the qualified-name grammar never consumes a terminator
            Parsed::Closed { next, val: _ } => Parsed::Closed { next, val: None },
            Parsed::Failed { kind, at } => Parsed::Failed { kind, at },
        },
        _ => Parsed::Found { next: 0, val: None },
    }
}

/// The expression parser, bounded by a caller-chosen terminator token.
pub struct ExpressionParser {
    term: Token,
}

impl ExpressionParser {
    pub fn new(term: Token) -> (r: ExpressionParser) {
        ExpressionParser { term }
    }

    /// Parse one operand where `expr_parse` says what must come of it.
    pub fn parse(self, tok: Option<Token>, stream: &mut TokenStream, context: &mut Context) -> (r:
        Result<(Option<Token>, Option<ExprNode>), ParserError>)
        requires
            old(stream).wf(),
        ensures
            stepped(*old(stream), *final(stream)),
            *final(context) == *old(context),
            parse_post::<ExprNode>(
                expr_parse(input_of(tok, *old(stream))),
                input_of(tok, *old(stream)),
                *final(stream),
                r,
            ),
    {
        let ghost input = input_of(tok, *old(stream));
        let cur = stream.take_or_next(tok);
        match cur {
            Token::LiteralInt(n) => {
                let t1 = stream.pull_at(Ghost(input), Ghost(1));
                Ok((Some(t1), Some(ExprNode::Integer(n))))
            },
            Token::Identifier(_) | Token::ColonColon => {
                proof {
                    assert(seq![cur@] + stream.remaining() =~= input);
                    lemma_q_step_no_close(input, 0, Seq::empty(), true);
                }
                match QualifiedParser::new().parse(Some(cur), None, stream, context) {
                    Ok((t1, Some(q))) => Ok((t1, Some(ExprNode::Qualified(Box::new(q))))),
                    Ok((t1, None)) => Ok((t1, None)),
                    Err(e) => Err(e),
                }
            },
            _ => Ok((Some(cur), None)),
        }
    }
}

} // verus!
