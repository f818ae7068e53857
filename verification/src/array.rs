//! Array dimensions: bracketed `[ <expr>? ] <attributes>?` groups.  At
//! least one group makes an array; zero groups is "no array" and never an
//! empty node.

use vstd::prelude::*;

use crate::attr::{attrs_parse, lemma_attrs_parse_bounds, Attributes, AttributesParser};
use crate::context::Context;
use crate::decl::{Type, TypeV};
use crate::error::{ErrK, ParserError};
use crate::expr::{expr_parse, ExprNode, ExprV, ExpressionParser};
use crate::name::{lemma_q_step_no_close, lemma_skip_at};
use crate::token::{
    clip, input_of, opt_v, parse_post, parsed_shift, stepped, tok_at, Parsed, TokV, Token,
    TokenStream,
};

verus! {

/// One array dimension: an optional size expression (`None` stands for an
/// inferred dimension, as in `int a[];`) and optional trailing attributes.
#[derive(Clone, Debug, PartialEq, Eq)]
pub struct Dimension {
    pub size: Option<ExprNode>,
    pub attributes: Option<Attributes>,
}

/// The value of one dimension.
pub struct DimV {
    pub size: Option<ExprV>,
    pub attributes: Option<Seq<Seq<char>>>,
}

impl View for Dimension {
    type V = DimV;

    open spec fn view(&self) -> DimV {
        DimV { size: opt_v(self.size), attributes: opt_v(self.attributes) }
    }
}

pub type Dimensions = Vec<Dimension>;

/// An array type: a base type placeholder that the caller fills in after
/// parsing, and the ordered, non-empty dimension list.
#[derive(Debug, PartialEq, Eq)]
pub struct Array {
    pub base: Option<Type>,
    pub dimensions: Dimensions,
}

/// The value of an array node.
pub struct ArrayV {
    pub base: Option<TypeV>,
    pub dimensions: Seq<DimV>,
}

impl View for Array {
    type V = ArrayV;

    open spec fn view(&self) -> ArrayV {
        ArrayV {
            base: opt_v(self.base),
            dimensions: self.dimensions@.map_values(|d: Dimension| d@),
        }
    }
}

/// Pushing a dimension commutes with taking dimension values.
proof fn lemma_dims_push(dims: Seq<Dimension>, d: Dimension)
    ensures
        dims.push(d).map_values(|x: Dimension| x@) == dims.map_values(|x: Dimension| x@).push(d@),
{
    assert(dims.push(d).map_values(|x: Dimension| x@) =~= dims.map_values(
        |x: Dimension| x@,
    ).push(d@));
}

/// The array grammar, standing at position `i` with the dimensions read so
/// far: while a `[` stands here, read an optional size expression up to the
/// matching `]` and an optional attribute list.  Zero dimensions yield
/// `None` for the whole array.
pub open spec fn arr_step(toks: Seq<TokV>, i: nat, dims: Seq<DimV>) -> Parsed<Option<ArrayV>>
    decreases toks.len() - i,
    via arr_step_dec
{
    if tok_at(toks, i as int) != TokV::LeftBrack {
        Parsed::Found {
            next: i,
            val: if dims.len() == 0 {
                None
            } else {
                Some(ArrayV { base: None, dimensions: dims })
            },
        }
    } else {
        match parsed_shift(expr_parse(toks.skip(i as int + 1)), (i + 1) as nat) {
            Parsed::Found { next, val: size } => if tok_at(toks, next as int) == TokV::RightBrack {
                match parsed_shift(attrs_parse(toks.skip(next as int + 1)), (next + 1) as nat) {
                    Parsed::Found { next: n2, val: attrs } => arr_step(
                        toks,
                        n2,
                        dims.push(DimV { size, attributes: attrs }),
                    ),
                    // an attribute list never consumes a terminator
                    Parsed::Closed { next: n2, .. } => Parsed::Closed { next: n2, val: None },
                    Parsed::Failed { kind, at } => Parsed::Failed { kind, at },
                }
            } else {
                Parsed::Failed { kind: ErrK::ArraySize, at: next }
            },
            // the expression grammar never consumes a terminator
            Parsed::Closed { next, .. } => Parsed::Closed { next, val: None },
            Parsed::Failed { kind, at } => Parsed::Failed { kind, at },
        }
    }
}

#[via_fn]
proof fn arr_step_dec(toks: Seq<TokV>, i: nat, dims: Seq<DimV>) {
    if tok_at(toks, i as int) == TokV::LeftBrack {
        match parsed_shift(expr_parse(toks.skip(i as int + 1)), (i + 1) as nat) {
            Parsed::Found { next, val: size } => {
                if tok_at(toks, next as int) == TokV::RightBrack {
                    lemma_attrs_parse_bounds(toks.skip(next as int + 1));
                }
            },
            _ => {},
        }
    }
}

/// What the array grammar makes of its input.
pub open spec fn arr_parse(toks: Seq<TokV>) -> Parsed<Option<ArrayV>> {
    arr_step(toks, 0, Seq::empty())
}

pub struct ArrayParser;

impl ArrayParser {
    pub fn new() -> (r: ArrayParser) {
        ArrayParser
    }

    /// Parse zero or more array dimensions where `arr_parse` says what must
    /// come of it: `Some` exactly when at least one dimension was found.
    pub fn parse(self, tok: Option<Token>, stream: &mut TokenStream, context: &mut Context) -> (r:
        Result<(Option<Token>, Option<Array>), ParserError>)
        requires
            old(stream).wf(),
        ensures
            stepped(*old(stream), *final(stream)),
            *final(context) == *old(context),
            parse_post::<Array>(
                arr_parse(input_of(tok, *old(stream))),
                input_of(tok, *old(stream)),
                *final(stream),
                r,
            ),
    {
        let ghost input = input_of(tok, *old(stream));
        let mut dims: Vec<Dimension> = Vec::new();
        proof {
            assert(Seq::<Dimension>::empty().map_values(|x: Dimension| x@) =~= Seq::<
                DimV,
            >::empty());
        }
        let mut cur = stream.take_or_next(tok);
        let ghost mut i: int = 0;
        loop
            invariant
                input == input_of(tok, *old(stream)),
                stream.wf(),
                stepped(*old(stream), *stream),
                *context == *old(context),
                0 <= i <= input.len(),
                cur@ == tok_at(input, i),
                stream.remaining() == input.skip(clip(i + 1, input.len() as int)),
                arr_step(input, i as nat, dims@.map_values(|x: Dimension| x@)) == arr_parse(input),
            decreases input.len() - i,
        {
            if !matches!(cur, Token::LeftBrack) {
                if dims.len() == 0 {
                    return Ok((Some(cur), None));
                } else {
                    return Ok((Some(cur), Some(Array { base: None, dimensions: dims })));
                }
            }
            proof {
                assert(stream.remaining() =~= input.skip(i + 1));
                lemma_q_step_no_close(input.skip(i + 1), 0, Seq::empty(), true);
            }
            let e_r = ExpressionParser::new(Token::RightBrack).parse(None, stream, context);
            let (tk, size) = match e_r {
                Ok(p) => p,
                Err(err) => {
                    proof {
                        let out = expr_parse(input.skip(i + 1));
                        if let Parsed::Failed { at, .. } = out {
                            lemma_skip_at(input, i + 1, at as int);
                            lemma_skip_at(input, i + 1, at as int + 1);
                        }
                    }
                    return Err(err);
                },
            };
            proof {
                let out = expr_parse(input.skip(i + 1));
                if let Parsed::Found { next, .. } = out {
                    lemma_skip_at(input, i + 1, next as int);
                    lemma_skip_at(input, i + 1, next as int + 1);
                }
            }
            let tk = match tk {
                Some(t) => t,
                None => {
                    proof {
                        assert(false);
                    }
                    Token::Eof
                },
            };
            let ghost next = i + 1 + expr_parse(input.skip(i + 1))->Found_next;
            if !matches!(tk, Token::RightBrack) {
                return Err(ParserError::InvalidTokenInArraySize { sp: stream.span(), tok: tk });
            }
            proof {
                assert(stream.remaining() =~= input.skip(next + 1));
                lemma_attrs_parse_bounds(input.skip(next + 1));
            }
            let a_r = AttributesParser::new().parse(None, stream, context);
            let (tk2, attrs) = match a_r {
                Ok(p) => p,
                Err(err) => {
                    proof {
                        let out = attrs_parse(input.skip(next + 1));
                        if let Parsed::Failed { at, .. } = out {
                            lemma_skip_at(input, next + 1, at as int);
                            lemma_skip_at(input, next + 1, at as int + 1);
                        }
                    }
                    return Err(err);
                },
            };
            proof {
                let out = attrs_parse(input.skip(next + 1));
                if let Parsed::Found { next: an, .. } = out {
                    lemma_skip_at(input, next + 1, an as int);
                    lemma_skip_at(input, next + 1, an as int + 1);
                }
            }
            let tk2 = match tk2 {
                Some(t) => t,
                None => {
                    proof {
                        assert(false);
                    }
                    Token::Eof
                },
            };
            let ghost n2 = next + 1 + attrs_parse(input.skip(next + 1))->Found_next;
            proof {
                lemma_dims_push(dims@, Dimension { size: size, attributes: attrs });
            }
            dims.push(Dimension { size, attributes: attrs });
            cur = tk2;
            proof {
                i = n2;
            }
        }
    }
}

} // verus!
