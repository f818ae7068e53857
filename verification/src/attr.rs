//! Trailing attribute lists, e.g. `[[deprecated, noreturn]]`.  This grammar
//! slice keeps each attribute as a single identifier.

use vstd::prelude::*;

use crate::context::Context;
use crate::error::{ErrK, ParserError};
use crate::name::Identifier;
use crate::token::{
    clip, input_of, opt_v, parse_post, stepped, tok_at, Parsed, TokV, Token, TokenStream,
};

verus! {

/// An attribute list: the attribute names, in source order.
#[derive(Clone, Debug, PartialEq, Eq)]
pub struct Attributes {
    pub entries: Vec<Identifier>,
}

impl View for Attributes {
    type V = Seq<Seq<char>>;

    open spec fn view(&self) -> Seq<Seq<char>> {
        self.entries@.map_values(|i: Identifier| i@)
    }
}

/// The body of an attribute list, standing at position `i` after the
/// opening `[[`: identifiers and commas until the closing `]]`.
pub open spec fn attrs_step(toks: Seq<TokV>, i: nat, acc: Seq<Seq<char>>) -> Parsed<
    Option<Seq<Seq<char>>>,
>
    decreases toks.len() - i,
{
    match tok_at(toks, i as int) {
        TokV::Identifier(s) => attrs_step(toks, (i + 1) as nat, acc.push(s)),
        TokV::Comma => attrs_step(toks, (i + 1) as nat, acc),
        TokV::DoubleRightBrack => Parsed::Found { next: (i + 1) as nat, val: Some(acc) },
        _ => Parsed::Failed { kind: ErrK::Attribute, at: i },
    }
}

/// What the attribute grammar makes of its input: a bracketed list, or
/// `None` when no `[[` stands here.
pub open spec fn attrs_parse(toks: Seq<TokV>) -> Parsed<Option<Seq<Seq<char>>>> {
    if tok_at(toks, 0) == TokV::DoubleLeftBrack {
        attrs_step(toks, 1, Seq::empty())
    } else {
        Parsed::Found { next: 0, val: None }
    }
}

/// The attribute grammar stops inside the input (a found list never points
/// past the end), and never consumes a terminator it would not report.
pub proof fn lemma_attrs_step_bounds(toks: Seq<TokV>, i: nat, acc: Seq<Seq<char>>)
    ensures
        match attrs_step(toks, i, acc) {
            Parsed::Found { next, .. } => i < toks.len() && next <= toks.len(),
            Parsed::Closed { .. } => false,
            Parsed::Failed { .. } => true,
        },
    decreases toks.len() - i,
{
    match tok_at(toks, i as int) {
        TokV::Identifier(s) => {
            lemma_attrs_step_bounds(toks, (i + 1) as nat, acc.push(s));
        },
        TokV::Comma => {
            lemma_attrs_step_bounds(toks, (i + 1) as nat, acc);
        },
        _ => {},
    }
}

/// A found attribute list stops inside the input, and the attribute
/// grammar never consumes a terminator it would not report.
pub proof fn lemma_attrs_parse_bounds(toks: Seq<TokV>)
    ensures
        match attrs_parse(toks) {
            Parsed::Found { next, .. } => next <= toks.len(),
            Parsed::Closed { .. } => false,
            Parsed::Failed { .. } => true,
        },
{
    if tok_at(toks, 0) == TokV::DoubleLeftBrack {
        lemma_attrs_step_bounds(toks, 1, Seq::empty());
    }
}

/// Pushing an attribute commutes with taking attribute values.
proof fn lemma_attrs_push(entries: Seq<Identifier>, e: Identifier)
    ensures
        entries.push(e).map_values(|x: Identifier| x@) == entries.map_values(
            |x: Identifier| x@,
        ).push(e@),
{
    assert(entries.push(e).map_values(|x: Identifier| x@) =~= entries.map_values(
        |x: Identifier| x@,
    ).push(e@));
}

pub struct AttributesParser;

impl AttributesParser {
    pub fn new() -> (r: AttributesParser) {
        AttributesParser
    }

    /// Parse an optional attribute list where `attrs_parse` says what must
    /// come of it.
    pub fn parse(self, tok: Option<Token>, stream: &mut TokenStream, context: &mut Context) -> (r:
        Result<(Option<Token>, Option<Attributes>), ParserError>)
        requires
            old(stream).wf(),
        ensures
            stepped(*old(stream), *final(stream)),
            *final(context) == *old(context),
            parse_post::<Attributes>(
                attrs_parse(input_of(tok, *old(stream))),
                input_of(tok, *old(stream)),
                *final(stream),
                r,
            ),
    {
        let ghost input = input_of(tok, *old(stream));
        let t0 = stream.take_or_next(tok);
        if !matches!(t0, Token::DoubleLeftBrack) {
            return Ok((Some(t0), None));
        }
        let mut entries: Vec<Identifier> = Vec::new();
        proof {
            assert(Seq::<Identifier>::empty().map_values(|x: Identifier| x@) =~= Seq::<
                Seq<char>,
            >::empty());
        }
        let mut cur = stream.pull_at(Ghost(input), Ghost(1));
        let ghost mut i: int = 1;
        loop
            invariant
                input == input_of(tok, *old(stream)),
                stream.wf(),
                stepped(*old(stream), *stream),
                *context == *old(context),
                1 <= i <= input.len(),
                cur@ == tok_at(input, i),
                stream.remaining() == input.skip(clip(i + 1, input.len() as int)),
                attrs_step(input, i as nat, entries@.map_values(|x: Identifier| x@)) == attrs_parse(
                    input,
                ),
            decreases input.len() - i,
        {
            match cur {
                Token::Identifier(val) => {
                    proof {
                        lemma_attrs_push(entries@, Identifier { val: val });
                    }
                    entries.push(Identifier { val });
                    cur = stream.pull_at(Ghost(input), Ghost(i + 1));
                    proof {
                        i = i + 1;
                    }
                },
                Token::Comma => {
                    cur = stream.pull_at(Ghost(input), Ghost(i + 1));
                    proof {
                        i = i + 1;
                    }
                },
                Token::DoubleRightBrack => {
                    let t = stream.pull_at(Ghost(input), Ghost(i + 1));
                    return Ok((Some(t), Some(Attributes { entries })));
                },
                _ => {
                    return Err(
                        ParserError::InvalidTokenInAttribute { sp: stream.span(), tok: cur },
                    );
                },
            }
        }
    }
}

} // verus!
