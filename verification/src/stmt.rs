//! Statements, as far as the do-while parser needs them: the empty
//! statement, an expression statement, and a braced compound of such
//! statements.  Deeper statement forms are sibling subsystems outside this
//! grammar slice.

use vstd::prelude::*;

use crate::context::Context;
use crate::error::{ErrK, ParserError};
use crate::expr::{expr_parse, ExprNode, ExprV, ExpressionParser};
use crate::name::{lemma_q_step_committed, lemma_q_step_no_close, lemma_skip_at, NameV};
use crate::token::{
    clip, input_of, parse_post, parsed_shift, stepped, tok_at, Parsed, TokV, Token, TokenStream,
};

verus! {

/// A statement of this grammar slice.
#[derive(Debug, PartialEq, Eq)]
pub enum Statement {
    Empty,
    Expr(ExprNode),
    Compound(Vec<Statement>),
}

/// The value of a statement.
pub enum StmtV {
    Empty,
    Expr(ExprV),
    Compound(Seq<StmtV>),
}

pub open spec fn stmt_v(s: Statement) -> StmtV
    decreases s,
    via stmt_v_dec
{
    match s {
        Statement::Empty => StmtV::Empty,
        Statement::Expr(e) => StmtV::Expr(e@),
        Statement::Compound(ss) => StmtV::Compound(stmts_v(ss@)),
    }
}

#[via_fn]
proof fn stmt_v_dec(s: Statement) {
    match s {
        Statement::Compound(ss) => {
            assert(decreases_to!(s => ss));
            assert(decreases_to!(ss => ss@));
        },
        _ => {},
    }
}

pub open spec fn stmts_v(s: Seq<Statement>) -> Seq<StmtV>
    decreases s,
    via stmts_v_dec
{
    if s.len() == 0 {
        Seq::empty()
    } else {
        seq![stmt_v(s[0])] + stmts_v(s.skip(1))
    }
}

#[via_fn]
proof fn stmts_v_dec(s: Seq<Statement>) {
    if s.len() > 0 {
        assert(decreases_to!(s => s[0]));
        assert(decreases_to!(s => s.skip(1)));
    }
}

impl View for Statement {
    type V = StmtV;

    open spec fn view(&self) -> StmtV {
        stmt_v(*self)
    }
}

/// `stmts_v` maps the list one element at a time.
pub proof fn lemma_stmts_v_len(s: Seq<Statement>)
    ensures
        stmts_v(s).len() == s.len(),
        forall|k: int| 0 <= k < s.len() ==> stmts_v(s)[k] == stmt_v(#[trigger] s[k]),
    decreases s.len(),
{
    if s.len() > 0 {
        lemma_stmts_v_len(s.skip(1));
        assert forall|k: int| 0 <= k < s.len() implies stmts_v(s)[k] == stmt_v(#[trigger] s[k]) by {
            if k > 0 {
                assert(stmts_v(s)[k] == stmts_v(s.skip(1))[k - 1]);
                assert(s.skip(1)[k - 1] == s[k]);
            }
        }
    }
}

/// Pushing a statement commutes with taking statement values.
pub proof fn lemma_stmts_push(stmts: Seq<Statement>, s: Statement)
    ensures
        stmts_v(stmts.push(s)) == stmts_v(stmts).push(stmt_v(s)),
    decreases stmts.len(),
{
    if stmts.len() == 0 {
        assert(stmts.push(s)[0] == s);
        assert(stmts.push(s).skip(1) =~= Seq::<Statement>::empty());
        assert(stmts_v(stmts.push(s).skip(1)) =~= Seq::<StmtV>::empty());
        assert(stmts_v(stmts.push(s)) =~= stmts_v(stmts).push(stmt_v(s)));
    } else {
        assert(stmts.push(s)[0] == stmts[0]);
        assert(stmts.push(s).skip(1) =~= stmts.skip(1).push(s));
        lemma_stmts_push(stmts.skip(1), s);
        assert(stmts_v(stmts.push(s)) =~= stmts_v(stmts).push(stmt_v(s)));
    }
}

/// The body of a compound statement, standing at position `i` after the
/// opening brace: empty and expression statements until the closing brace,
/// which the compound consumes as its own terminator.
pub open spec fn comp_step(toks: Seq<TokV>, i: nat, acc: Seq<StmtV>) -> Parsed<Option<StmtV>>
    decreases toks.len() - i,
{
    match tok_at(toks, i as int) {
        TokV::RightBrace => Parsed::Closed {
            next: (i + 1) as nat,
            val: Some(StmtV::Compound(acc)),
        },
        TokV::SemiColon => comp_step(toks, (i + 1) as nat, acc.push(StmtV::Empty)),
        TokV::LiteralInt(_) | TokV::Identifier(_) | TokV::ColonColon => match parsed_shift(
            expr_parse(toks.skip(i as int)),
            i,
        ) {
            Parsed::Found { next, val } => match val {
                Some(e) => if tok_at(toks, next as int) == TokV::SemiColon {
                    comp_step(toks, (next + 1) as nat, acc.push(StmtV::Expr(e)))
                } else {
                    Parsed::Failed { kind: ErrK::Stmt, at: next }
                },
                // an operand always starts at these tokens
                None => Parsed::Failed { kind: ErrK::Stmt, at: i },
            },
            // the expression grammar never consumes a terminator
            Parsed::Closed { next, .. } => Parsed::Closed { next, val: None },
            Parsed::Failed { kind, at } => Parsed::Failed { kind, at },
        },
        _ => Parsed::Failed { kind: ErrK::Stmt, at: i },
    }
}

/// What the statement grammar makes of its input: `;`, a braced compound,
/// or an expression statement; each consumes its own terminator.
pub open spec fn stmt_parse(toks: Seq<TokV>) -> Parsed<Option<StmtV>> {
    match tok_at(toks, 0) {
        TokV::SemiColon => Parsed::Closed { next: 1, val: Some(StmtV::Empty) },
        TokV::LeftBrace => comp_step(toks, 1, Seq::empty()),
        TokV::LiteralInt(_) | TokV::Identifier(_) | TokV::ColonColon => match expr_parse(toks) {
            Parsed::Found { next, val } => match val {
                Some(e) => if tok_at(toks, next as int) == TokV::SemiColon {
                    Parsed::Closed { next: (next + 1) as nat, val: Some(StmtV::Expr(e)) }
                } else {
                    Parsed::Failed { kind: ErrK::Stmt, at: next }
                },
                // an operand always starts at these tokens
                None => Parsed::Failed { kind: ErrK::Stmt, at: 0 },
            },
            // the expression grammar never consumes a terminator
            Parsed::Closed { next, .. } => Parsed::Closed { next, val: None },
            Parsed::Failed { kind, at } => Parsed::Failed { kind, at },
        },
        _ => Parsed::Failed { kind: ErrK::Stmt, at: 0 },
    }
}

/// A compound body either fails or closes with a value, strictly inside
/// the input.
pub proof fn lemma_comp_bounds(toks: Seq<TokV>, i: nat, acc: Seq<StmtV>)
    requires
        i <= toks.len(),
    ensures
        match comp_step(toks, i, acc) {
            Parsed::Found { .. } => false,
            Parsed::Closed { next, val } => val is Some && i < next <= toks.len(),
            Parsed::Failed { .. } => true,
        },
    decreases toks.len() - i,
{
    match tok_at(toks, i as int) {
        TokV::SemiColon => {
            lemma_comp_bounds(toks, (i + 1) as nat, acc.push(StmtV::Empty));
        },
        TokV::LiteralInt(_) | TokV::Identifier(_) | TokV::ColonColon => {
            lemma_q_step_no_close(toks.skip(i as int), 0, Seq::empty(), true);
            match parsed_shift(expr_parse(toks.skip(i as int)), i) {
                Parsed::Found { next, val } => {
                    match val {
                        Some(e) => {
                            if tok_at(toks, next as int) == TokV::SemiColon {
                                lemma_comp_bounds(toks, (next + 1) as nat, acc.push(StmtV::Expr(e)));
                            }
                        },
                        None => {},
                    }
                },
                _ => {},
            }
        },
        _ => {},
    }
}

/// A statement either fails or closes with a value, inside the input.
pub proof fn lemma_stmt_bounds(toks: Seq<TokV>)
    ensures
        match stmt_parse(toks) {
            Parsed::Found { .. } => false,
            Parsed::Closed { next, val } => val is Some && 1 <= next <= toks.len(),
            Parsed::Failed { .. } => true,
        },
{
    match tok_at(toks, 0) {
        TokV::LeftBrace => {
            lemma_comp_bounds(toks, 1, Seq::empty());
        },
        TokV::LiteralInt(_) | TokV::Identifier(_) | TokV::ColonColon => {
            lemma_q_step_no_close(toks, 0, Seq::empty(), true);
        },
        _ => {},
    }
}

pub struct StatementParser;

impl StatementParser {
    pub fn new() -> (r: StatementParser) {
        StatementParser
    }

    /// Parse one statement where `stmt_parse` says what must come of it.
    pub fn parse(self, tok: Option<Token>, stream: &mut TokenStream, context: &mut Context) -> (r:
        Result<(Option<Token>, Option<Statement>), ParserError>)
        requires
            old(stream).wf(),
        ensures
            stepped(*old(stream), *final(stream)),
            *final(context) == *old(context),
            parse_post::<Statement>(
                stmt_parse(input_of(tok, *old(stream))),
                input_of(tok, *old(stream)),
                *final(stream),
                r,
            ),
    {
        let ghost input = input_of(tok, *old(stream));
        let cur = stream.take_or_next(tok);
        match cur {
            Token::SemiColon => Ok((None, Some(Statement::Empty))),
            Token::LeftBrace => {
                let mut stmts: Vec<Statement> = Vec::new();
                proof {
                    assert(stmts_v(Seq::<Statement>::empty()) =~= Seq::<StmtV>::empty());
                }
                let mut cur2 = stream.pull_at(Ghost(input), Ghost(1));
                let ghost mut i: int = 1;
                loop
                    invariant
                        input == input_of(tok, *old(stream)),
                        stream.wf(),
                        stepped(*old(stream), *stream),
                        *context == *old(context),
                        1 <= i <= input.len(),
                        cur2@ == tok_at(input, i),
                        stream.remaining() == input.skip(clip(i + 1, input.len() as int)),
                        comp_step(input, i as nat, stmts_v(stmts@)) == stmt_parse(input),
                    decreases input.len() - i,
                {
                    match cur2 {
                        Token::RightBrace => {
                            return Ok((None, Some(Statement::Compound(stmts))));
                        },
                        Token::SemiColon => {
                            proof {
                                lemma_stmts_push(stmts@, Statement::Empty);
                            }
                            stmts.push(Statement::Empty);
                            cur2 = stream.pull_at(Ghost(input), Ghost(i + 1));
                            proof {
                                i = i + 1;
                            }
                        },
                        Token::LiteralInt(_) | Token::Identifier(_) | Token::ColonColon => {
                            proof {
                                assert(seq![cur2@] + stream.remaining() =~= input.skip(i));
                                lemma_q_step_no_close(input.skip(i), 0, Seq::empty(), true);
                                match tok_at(input, i) {
                                    TokV::Identifier(s) => {
                                        lemma_q_step_committed(
                                            input.skip(i),
                                            1,
                                            Seq::empty().push(NameV::Identifier(s)),
                                            false,
                                        );
                                    },
                                    TokV::ColonColon => {
                                        lemma_q_step_committed(
                                            input.skip(i),
                                            1,
                                            seq![NameV::Empty],
                                            true,
                                        );
                                    },
                                    _ => {},
                                }
                            }
                            let e_r = ExpressionParser::new(Token::SemiColon).parse(
                                Some(cur2),
                                stream,
                                context,
                            );
                            let (te, e) = match e_r {
                                Ok(p) => p,
                                Err(err) => {
                                    proof {
                                        let out = expr_parse(input.skip(i));
                                        if let Parsed::Failed { at, .. } = out {
                                            lemma_skip_at(input, i, at as int);
                                            lemma_skip_at(input, i, at as int + 1);
                                        }
                                    }
                                    return Err(err);
                                },
                            };
                            proof {
                                let out = expr_parse(input.skip(i));
                                if let Parsed::Found { next, .. } = out {
                                    lemma_skip_at(input, i, next as int);
                                    lemma_skip_at(input, i, next as int + 1);
                                }
                            }
                            let te = match te {
                                Some(t) => t,
                                None => {
                                    proof {
                                        assert(false);
                                    }
                                    Token::Eof
                                },
                            };
                            let e = match e {
                                Some(e) => e,
                                None => {
                                    proof {
                                        assert(false);
                                    }
                                    return Err(
                                        ParserError::InvalidTokenInStmt {
                                            sp: stream.span(),
                                            tok: te,
                                        },
                                    );
                                },
                            };
                            let ghost next = i + expr_parse(input.skip(i))->Found_next;
                            if !matches!(te, Token::SemiColon) {
                                return Err(
                                    ParserError::InvalidTokenInStmt { sp: stream.span(), tok: te },
                                );
                            }
                            proof {
                                lemma_stmts_push(stmts@, Statement::Expr(e));
                            }
                            stmts.push(Statement::Expr(e));
                            cur2 = stream.pull_at(Ghost(input), Ghost(next + 1));
                            proof {
                                i = next + 1;
                            }
                        },
                        _ => {
                            return Err(
                                ParserError::InvalidTokenInStmt { sp: stream.span(), tok: cur2 },
                            );
                        },
                    }
                }
            },
            Token::LiteralInt(_) | Token::Identifier(_) | Token::ColonColon => {
                proof {
                    assert(seq![cur@] + stream.remaining() =~= input);
                    lemma_q_step_no_close(input, 0, Seq::empty(), true);
                    match tok_at(input, 0) {
                        TokV::Identifier(s) => {
                            lemma_q_step_committed(
                                input,
                                1,
                                Seq::empty().push(NameV::Identifier(s)),
                                false,
                            );
                        },
                        TokV::ColonColon => {
                            lemma_q_step_committed(input, 1, seq![NameV::Empty], true);
                        },
                        _ => {},
                    }
                }
                let e_r = ExpressionParser::new(Token::SemiColon).parse(Some(cur), stream, context);
                let (te, e) = match e_r {
                    Ok(p) => p,
                    Err(err) => {
                        return Err(err);
                    },
                };
                let te = match te {
                    Some(t) => t,
                    None => {
                        proof {
                            assert(false);
                        }
                        Token::Eof
                    },
                };
                let e = match e {
                    Some(e) => e,
                    None => {
                        proof {
                            assert(false);
                        }
                        return Err(
                            ParserError::InvalidTokenInStmt { sp: stream.span(), tok: te },
                        );
                    },
                };
                if matches!(te, Token::SemiColon) {
                    Ok((None, Some(Statement::Expr(e))))
                } else {
                    Err(ParserError::InvalidTokenInStmt { sp: stream.span(), tok: te })
                }
            },
            _ => Err(ParserError::InvalidTokenInStmt { sp: stream.span(), tok: cur }),
        }
    }
}

} // verus!
