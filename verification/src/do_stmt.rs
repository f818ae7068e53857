//! The do-while statement: `do <stmt> while (<expr>);`.  The caller has
//! already recognised the `do` keyword and parsed any leading attributes;
//! this parser owns everything from the loop body through the trailing
//! semicolon, which it always consumes on success.

use vstd::prelude::*;

use crate::attr::Attributes;
use crate::context::{Context, ScopeKind};
use crate::error::ParserError;
use crate::expr::{expr_parse, ExprNode, ExprV, ExpressionParser};
use crate::name::{lemma_q_step_no_close, lemma_skip_at};
use crate::stmt::{lemma_stmt_bounds, stmt_parse, Statement, StatementParser, StmtV};
use crate::error::ErrK;
use crate::token::{
    clip, input_of, opt_v, parse_post, parsed_shift, stepped, tok_at, Parsed, TokV, Token,
    TokenStream,
};

verus! {

/// A parsed do-while statement.  Body and condition are always present in
/// a successfully parsed node.
#[derive(Debug, PartialEq, Eq)]
pub struct Do {
    pub attributes: Option<Attributes>,
    pub body: Statement,
    pub condition: ExprNode,
}

/// The value of a do-while statement.
pub struct DoV {
    pub attributes: Option<Seq<Seq<char>>>,
    pub body: StmtV,
    pub condition: ExprV,
}

impl View for Do {
    type V = DoV;

    open spec fn view(&self) -> DoV {
        DoV {
            attributes: opt_v(self.attributes),
            body: self.body@,
            condition: self.condition@,
        }
    }
}

/// What the do-while grammar makes of its input, which starts right after
/// the `do` keyword: a body statement, `while`, a parenthesised condition,
/// and the terminating `;`, which the construct consumes as its own
/// terminator.  `attrs` are the leading attributes the caller had already
/// parsed; they pass through into the node.
pub open spec fn do_parse(toks: Seq<TokV>, attrs: Option<Seq<Seq<char>>>) -> Parsed<Option<DoV>> {
    match stmt_parse(toks) {
        Parsed::Closed { next, val } => match val {
            Some(body) => if tok_at(toks, next as int) != TokV::While {
                Parsed::Failed { kind: ErrK::Do, at: next }
            } else if tok_at(toks, next as int + 1) != TokV::LeftParen {
                Parsed::Failed { kind: ErrK::Do, at: (next + 1) as nat }
            } else {
                match parsed_shift(expr_parse(toks.skip(next as int + 2)), (next + 2) as nat) {
                    Parsed::Found { next: m, val: cond } => match cond {
                        Some(c) => if tok_at(toks, m as int) != TokV::RightParen {
                            Parsed::Failed { kind: ErrK::Do, at: m }
                        } else if tok_at(toks, m as int + 1) == TokV::SemiColon {
                            Parsed::Closed {
                                next: (m + 2) as nat,
                                val: Some(DoV { attributes: attrs, body, condition: c }),
                            }
                        } else {
                            Parsed::Failed { kind: ErrK::Do, at: (m + 1) as nat }
                        },
                        // no condition operand starts at the token at `m`
                        None => Parsed::Failed { kind: ErrK::Do, at: m },
                    },
                    // the expression grammar never consumes a terminator
                    Parsed::Closed { next: m, .. } => Parsed::Closed { next: m, val: None },
                    Parsed::Failed { kind, at } => Parsed::Failed { kind, at },
                }
            },
            // a closed statement always carries a value
            None => Parsed::Failed { kind: ErrK::Stmt, at: next },
        },
        // the statement grammar never hands a token back
        Parsed::Found { next, .. } => Parsed::Failed { kind: ErrK::Stmt, at: next },
        Parsed::Failed { kind, at } => Parsed::Failed { kind, at },
    }
}

pub struct DoStmtParser;

impl DoStmtParser {
    pub fn new() -> (r: DoStmtParser) {
        DoStmtParser
    }

    /// Parse the body and condition of a do-while statement where
    /// `do_parse` says what must come of it.  A `DoBlock` scope is open
    /// exactly while the body is being parsed: whatever the outcome, the
    /// scope stack and the known type names leave this call as they
    /// entered it.
    pub fn parse(
        self,
        attributes: Option<Attributes>,
        stream: &mut TokenStream,
        context: &mut Context,
    ) -> (r: Result<(Option<Token>, Option<Do>), ParserError>)
        requires
            old(stream).wf(),
        ensures
            stepped(*old(stream), *final(stream)),
            final(context).scopes_v() == old(context).scopes_v(),
            final(context).type_names_v() == old(context).type_names_v(),
            parse_post::<Do>(
                do_parse(old(stream).remaining(), opt_v(attributes)),
                old(stream).remaining(),
                *final(stream),
                r,
            ),
    {
        let ghost input = old(stream).remaining();
        context.set_current(None, ScopeKind::DoBlock);
        let s_r = StatementParser::new().parse(None, stream, context);
        context.pop();
        proof {
            assert(old(context).scopes_v().push(
                crate::context::ScopeV { name: None, kind: ScopeKind::DoBlock },
            ).drop_last() =~= old(context).scopes_v());
            lemma_stmt_bounds(input);
        }
        let (ts, body) = match s_r {
            Ok(p) => p,
            Err(e) => {
                return Err(e);
            },
        };
        let body = match body {
            Some(b) => b,
            None => {
                proof {
                    assert(false);
                }
                return Err(ParserError::InvalidTokenInDo { sp: stream.span(), tok: Token::Eof });
            },
        };
        match ts {
            None => {},
            Some(_) => {
                proof {
                    assert(false);
                }
                return Err(ParserError::InvalidTokenInDo { sp: stream.span(), tok: Token::Eof });
            },
        }
        let ghost snext = stmt_parse(input)->Closed_next as int;
        let tw = stream.pull_at(Ghost(input), Ghost(snext));
        if !matches!(tw, Token::While) {
            return Err(ParserError::InvalidTokenInDo { sp: stream.span(), tok: tw });
        }
        let tp = stream.pull_at(Ghost(input), Ghost(snext + 1));
        if !matches!(tp, Token::LeftParen) {
            return Err(ParserError::InvalidTokenInDo { sp: stream.span(), tok: tp });
        }
        proof {
            assert(stream.remaining() =~= input.skip(snext + 2));
            lemma_q_step_no_close(input.skip(snext + 2), 0, Seq::empty(), true);
        }
        let e_r = ExpressionParser::new(Token::RightParen).parse(None, stream, context);
        let (tc, cond) = match e_r {
            Ok(p) => p,
            Err(err) => {
                proof {
                    let out = expr_parse(input.skip(snext + 2));
                    if let Parsed::Failed { at, .. } = out {
                        lemma_skip_at(input, snext + 2, at as int);
                        lemma_skip_at(input, snext + 2, at as int + 1);
                    }
                }
                return Err(err);
            },
        };
        proof {
            let out = expr_parse(input.skip(snext + 2));
            if let Parsed::Found { next, .. } = out {
                lemma_skip_at(input, snext + 2, next as int);
                lemma_skip_at(input, snext + 2, next as int + 1);
            }
        }
        let tc = match tc {
            Some(t) => t,
            None => {
                proof {
                    assert(false);
                }
                Token::Eof
            },
        };
        let ghost m = snext + 2 + expr_parse(input.skip(snext + 2))->Found_next;
        let cond = match cond {
            Some(c) => c,
            None => {
                return Err(ParserError::InvalidTokenInDo { sp: stream.span(), tok: tc });
            },
        };
        if !matches!(tc, Token::RightParen) {
            return Err(ParserError::InvalidTokenInDo { sp: stream.span(), tok: tc });
        }
        let tsemi = stream.pull_at(Ghost(input), Ghost(m + 1));
        match tsemi {
            Token::SemiColon => Ok((None, Some(Do { attributes, body, condition: cond }))),
            _ => Err(ParserError::InvalidTokenInDo { sp: stream.span(), tok: tsemi }),
        }
    }
}

} // verus!
