//! Tokens, their mathematical values, and the stream they are pulled from.
//!
//! The parsers never re-read a consumed token: a token that was pulled but
//! not used is handed back explicitly as a lookahead value.  The shared
//! spec vocabulary for stating what a production consumed lives here too.

use vstd::prelude::*;

use crate::error::{ErrK, ParserError};

verus! {

/// One lexical token, as the tokenizer collaborator delivers them.
/// `Eof` stands for an exhausted stream.
#[derive(Clone, Debug, PartialEq, Eq)]
pub enum Token {
    Eof,
    ColonColon,
    Tilde,
    /// The `operator` keyword.
    Operator,
    Identifier(String),
    LiteralString(String),
    LiteralInt(u64),
    LeftBrack,
    RightBrack,
    DoubleLeftBrack,
    DoubleRightBrack,
    LeftBrace,
    RightBrace,
    LeftParen,
    RightParen,
    SemiColon,
    Comma,
    Plus,
    Minus,
    Star,
    /// The keyword introducing a language-linkage declaration.
    LinkageKw,
    Do,
    While,
    Double,
    Int,
    Void,
}

/// The mathematical value of a token: payload strings as character sequences.
pub enum TokV {
    Eof,
    ColonColon,
    Tilde,
    Operator,
    Identifier(Seq<char>),
    LiteralString(Seq<char>),
    LiteralInt(u64),
    LeftBrack,
    RightBrack,
    DoubleLeftBrack,
    DoubleRightBrack,
    LeftBrace,
    RightBrace,
    LeftParen,
    RightParen,
    SemiColon,
    Comma,
    Plus,
    Minus,
    Star,
    LinkageKw,
    Do,
    While,
    Double,
    Int,
    Void,
}

impl View for Token {
    type V = TokV;

    open spec fn view(&self) -> TokV {
        match self {
            Token::Eof => TokV::Eof,
            Token::ColonColon => TokV::ColonColon,
            Token::Tilde => TokV::Tilde,
            Token::Operator => TokV::Operator,
            Token::Identifier(s) => TokV::Identifier(s@),
            Token::LiteralString(s) => TokV::LiteralString(s@),
            Token::LiteralInt(n) => TokV::LiteralInt(*n),
            Token::LeftBrack => TokV::LeftBrack,
            Token::RightBrack => TokV::RightBrack,
            Token::DoubleLeftBrack => TokV::DoubleLeftBrack,
            Token::DoubleRightBrack => TokV::DoubleRightBrack,
            Token::LeftBrace => TokV::LeftBrace,
            Token::RightBrace => TokV::RightBrace,
            Token::LeftParen => TokV::LeftParen,
            Token::RightParen => TokV::RightParen,
            Token::SemiColon => TokV::SemiColon,
            Token::Comma => TokV::Comma,
            Token::Plus => TokV::Plus,
            Token::Minus => TokV::Minus,
            Token::Star => TokV::Star,
            Token::LinkageKw => TokV::LinkageKw,
            Token::Do => TokV::Do,
            Token::While => TokV::While,
            Token::Double => TokV::Double,
            Token::Int => TokV::Int,
            Token::Void => TokV::Void,
        }
    }
}

/// The token at position `i` of a token sequence, with `Eof` past the end,
/// as a stream keeps answering `Eof` once it is exhausted.
pub open spec fn tok_at(toks: Seq<TokV>, i: int) -> TokV {
    if 0 <= i < toks.len() {
        toks[i]
    } else {
        TokV::Eof
    }
}

/// The tokens a parser call can see: an optional lookahead token handed over
/// by the caller, followed by what the stream still holds.
pub open spec fn input_of(tok: Option<Token>, s: TokenStream) -> Seq<TokV> {
    match tok {
        Some(t) => seq![t@] + s.remaining(),
        None => s.remaining(),
    }
}

/// `n`, capped at `len`: positions past the end of the input all mean
/// "the stream is exhausted".
pub open spec fn clip(n: int, len: int) -> int {
    if n <= len {
        n
    } else {
        len
    }
}

/// The outcome of a grammar production on a token sequence, with positions
/// counted from where the production starts.
pub enum Parsed<R> {
    /// The production stopped before the token at `next`, which it hands
    /// back unconsumed (the `Eof` value when the input is exhausted).
    Found { next: nat, val: R },
    /// The production consumed its own terminator; `next` is the first
    /// position after it, and the caller must pull a fresh token.
    Closed { next: nat, val: R },
    /// The token at `at` is not allowed where the grammar stands; every
    /// token up to and including it has been consumed.
    Failed { kind: ErrK, at: nat },
}

/// The same outcome, restated for a production that started `d` tokens
/// further into the input.
pub open spec fn parsed_shift<R>(p: Parsed<R>, d: nat) -> Parsed<R> {
    match p {
        Parsed::Found { next, val } => Parsed::Found { next: next + d, val },
        Parsed::Closed { next, val } => Parsed::Closed { next: next + d, val },
        Parsed::Failed { kind, at } => Parsed::Failed { kind, at: at + d },
    }
}

/// The view of an optional node.
pub open spec fn opt_v<T: View>(o: Option<T>) -> Option<T::V> {
    match o {
        Some(x) => Some(x@),
        None => None,
    }
}

/// What a parser promises of its result, given the outcome `out` of the
/// grammar's spec function on its input, the stream `s1` it leaves behind,
/// and the value `r` it returns.
///
/// On `Found` the trailing token at `next` is handed back unconsumed; on
/// `Closed` the construct swallowed its own terminator and hands back
/// `None`, so the caller must pull a fresh token; on `Failed` the error
/// carries the offending token, and the reported span is the stream
/// position just after it.
pub open spec fn parse_post<N: View>(
    out: Parsed<Option<N::V>>,
    input: Seq<TokV>,
    s1: TokenStream,
    r: Result<(Option<Token>, Option<N>), ParserError>,
) -> bool {
    match out {
        Parsed::Found { next, val } => match r {
            Ok((rt, rn)) => {
                &&& rt matches Some(t) && t@ == tok_at(input, next as int)
                &&& opt_v(rn) == val
                &&& s1.remaining() == input.skip(clip(next as int + 1, input.len() as int))
            },
            Err(_) => false,
        },
        Parsed::Closed { next, val } => match r {
            Ok((rt, rn)) => {
                &&& rt is None
                &&& opt_v(rn) == val
                &&& s1.remaining() == input.skip(clip(next as int, input.len() as int))
            },
            Err(_) => false,
        },
        Parsed::Failed { kind, at } => match r {
            Ok(_) => false,
            Err(e) => {
                &&& e.kind() == kind
                &&& e.tok_v() == tok_at(input, at as int)
                &&& e.sp_v() == s1.pos_v()
                &&& s1.remaining() == input.skip(clip(at as int + 1, input.len() as int))
            },
        },
    }
}

/// A token source that only moves forward: a parser call consumes a prefix
/// of what the stream held and leaves the rest.
pub struct TokenStream {
    toks: Vec<Token>,
    read: usize,
}

/// What every parser guarantees of the stream: it stays well formed, and its
/// position advances by exactly as many tokens as went missing from it.
pub open spec fn stepped(s0: TokenStream, s1: TokenStream) -> bool {
    &&& s1.wf()
    &&& s1.remaining().len() <= s0.remaining().len()
    &&& s1.pos_v() == s0.pos_v() + s0.remaining().len() - s1.remaining().len()
}

impl TokenStream {
    /// The values of the tokens not yet pulled.
    pub closed spec fn remaining(&self) -> Seq<TokV> {
        self.toks@.map_values(|t: Token| t@)
    }

    /// How many tokens have been pulled so far; error spans are stated in
    /// this coordinate.
    pub closed spec fn pos_v(&self) -> nat {
        self.read as nat
    }

    pub open spec fn wf(&self) -> bool {
        self.pos_v() + self.remaining().len() <= usize::MAX
    }

    pub fn new(toks: Vec<Token>) -> (r: TokenStream)
        ensures
            r.wf(),
            r.remaining() == toks@.map_values(|t: Token| t@),
            r.pos_v() == 0,
    {
        let n = toks.len();
        proof {
            assert(toks@.map_values(|t: Token| t@).len() == n);
        }
        TokenStream { toks, read: 0 }
    }

    /// Pull the next token, or `Eof` once the stream is exhausted.
    pub fn next_useful(&mut self) -> (r: Token)
        requires
            old(self).wf(),
        ensures
            final(self).wf(),
            old(self).remaining().len() > 0 ==> {
                &&& r@ == old(self).remaining()[0]
                &&& final(self).remaining() == old(self).remaining().skip(1)
                &&& final(self).pos_v() == old(self).pos_v() + 1
            },
            old(self).remaining().len() == 0 ==> {
                &&& r == Token::Eof
                &&& *final(self) == *old(self)
            },
    {
        if self.toks.len() > 0 {
            let t = self.toks.remove(0);
            self.read = self.read + 1;
            proof {
                assert(self.toks@ =~= old(self).toks@.skip(1));
                assert(self.toks@.map_values(|t: Token| t@) =~= old(self).toks@.map_values(
                    |t: Token| t@,
                ).skip(1));
            }
            t
        } else {
            Token::Eof
        }
    }

    /// Pull the token at position `i` of `input`, for a parser that has
    /// consumed positions `0..i` of its input; answers `Eof` past the end.
    pub(crate) fn pull_at(&mut self, Ghost(input): Ghost<Seq<TokV>>, Ghost(i): Ghost<int>) -> (r:
        Token)
        requires
            old(self).wf(),
            0 <= i,
            old(self).remaining() == input.skip(clip(i, input.len() as int)),
        ensures
            stepped(*old(self), *final(self)),
            r@ == tok_at(input, i),
            final(self).remaining() == input.skip(clip(i + 1, input.len() as int)),
    {
        proof {
            if i < input.len() {
                assert(old(self).remaining() == input.skip(i));
                assert(old(self).remaining().len() == input.len() - i);
                assert(input.skip(i)[0] == input[i]);
            } else {
                assert(old(self).remaining().len() == 0);
            }
        }
        let t = self.next_useful();
        proof {
            if i < input.len() {
                assert(input.skip(i).skip(1) =~= input.skip(i + 1));
            }
        }
        t
    }

    /// The caller's lookahead token if it handed one over, else the next
    /// token of the stream: position zero of the parser's input.
    pub fn take_or_next(&mut self, tok: Option<Token>) -> (r: Token)
        requires
            old(self).wf(),
        ensures
            stepped(*old(self), *final(self)),
            r@ == tok_at(input_of(tok, *old(self)), 0),
            final(self).remaining() == input_of(tok, *old(self)).skip(
                clip(1, input_of(tok, *old(self)).len() as int),
            ),
    {
        let ghost input = input_of(tok, *old(self));
        match tok {
            Some(t) => {
                proof {
                    assert(input.skip(1) =~= self.remaining());
                }
                t
            },
            None => {
                let t = self.next_useful();
                proof {
                    if old(self).remaining().len() == 0 {
                        assert(input.skip(0) =~= input);
                    }
                }
                t
            },
        }
    }

    /// The current position, for error reporting: the index of the next
    /// unread token, counting every token the stream ever held.
    pub fn span(&self) -> (r: usize)
        ensures
            r == self.pos_v(),
    {
        self.read
    }
}

} // verus!
