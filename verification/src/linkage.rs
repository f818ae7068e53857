//! Language-linkage declarations: a braced block holding zero or more
//! declarations, a single unbraced declaration under a language name, or a
//! plain storage-class use of the linkage keyword on a type declarator.

use vstd::prelude::*;

use crate::context::Context;
use crate::decl::{
    decl_stmt_parse, decls_v, dlist_parse, lemma_decl_stmt_bounds, lemma_dlist_step_bounds,
    lemma_tdecl_bounds, tdecl_parse, DeclHint, Declaration, DeclarationListParser, Declarations,
    DeclV, LinkageV, Specifier, TypeDeclV, TypeDeclaratorParser,
};
use crate::error::{ErrK, ParserError};
use crate::name::{lemma_skip_at, Identifier, Name, NameV};
use crate::token::{
    clip, input_of, parse_post, parsed_shift, stepped, tok_at, Parsed, TokV, Token, TokenStream,
};

verus! {

/// A language-linkage construct: the language name, the declarations under
/// it, and whether they stood in a braced block (`multiple`) or as a single
/// unbraced declaration.
#[derive(Debug, PartialEq, Eq)]
pub struct Linkage {
    pub language: String,
    pub decls: Declarations,
    pub multiple: bool,
}

impl View for Linkage {
    type V = LinkageV;

    open spec fn view(&self) -> LinkageV {
        crate::decl::linkage_v(*self)
    }
}

/// The name a declarator declares, if it ends in a plain identifier: the
/// name the shared context learns from a linkage storage-class declaration.
pub open spec fn registered(td: TypeDeclV) -> Option<Seq<char>> {
    match td.identifier {
        Some(names) => if names.len() > 0 && names.last() is Identifier {
            Some(names.last()->Identifier_0)
        } else {
            None
        },
        None => None,
    }
}

/// What the linkage grammar makes of its input.  After the linkage keyword,
/// a string literal starts a linkage construct: braced, it holds a
/// declaration list and swallows its closing brace; unbraced, it holds
/// exactly one declaration statement.  Any other token after the keyword
/// makes the keyword a storage-class specifier of a plain type declarator.
pub open spec fn linkage_parse(toks: Seq<TokV>) -> Parsed<Option<DeclV>> {
    if tok_at(toks, 0) != TokV::LinkageKw {
        Parsed::Found { next: 0, val: None }
    } else {
        match tok_at(toks, 1) {
            TokV::LiteralString(lang) => if tok_at(toks, 2) == TokV::LeftBrace {
                match parsed_shift(dlist_parse(toks.skip(3)), 3) {
                    Parsed::Found { next, val: ds } => if tok_at(toks, next as int)
                        == TokV::RightBrace {
                        Parsed::Closed {
                            next: (next + 1) as nat,
                            val: Some(
                                DeclV::Linkage(
                                    LinkageV { language: lang, decls: ds, multiple: true },
                                ),
                            ),
                        }
                    } else {
                        Parsed::Failed { kind: ErrK::Linkage, at: next }
                    },
                    // a declaration list never consumes past its stopper
                    Parsed::Closed { next, .. } => Parsed::Closed { next, val: None },
                    Parsed::Failed { kind, at } => Parsed::Failed { kind, at },
                }
            } else {
                match parsed_shift(decl_stmt_parse(toks.skip(2), Specifier { linkage: false }), 2) {
                    Parsed::Found { next, val } => match val {
                        Some(td) => Parsed::Found {
                            next,
                            val: Some(
                                DeclV::Linkage(
                                    LinkageV {
                                        language: lang,
                                        decls: seq![DeclV::Type(td)],
                                        multiple: false,
                                    },
                                ),
                            ),
                        },
                        // a found declaration statement always carries one
                        None => Parsed::Found { next, val: None },
                    },
                    // a declaration statement never consumes past its `;`
                    Parsed::Closed { next, .. } => Parsed::Closed { next, val: None },
                    Parsed::Failed { kind, at } => Parsed::Failed { kind, at },
                }
            },
            _ => match parsed_shift(tdecl_parse(toks.skip(1), Specifier { linkage: true }), 1) {
                Parsed::Found { next, val } => match val {
                    Some(td) => Parsed::Found { next, val: Some(DeclV::Type(td)) },
                    // a found declarator always carries a value
                    None => Parsed::Found { next, val: None },
                },
                // a declarator never consumes past its end
                Parsed::Closed { next, .. } => Parsed::Closed { next, val: None },
                Parsed::Failed { kind, at } => Parsed::Failed { kind, at },
            },
        }
    }
}

pub struct LinkageParser;

impl LinkageParser {
    pub fn new() -> (r: LinkageParser) {
        LinkageParser
    }

    /// Parse a linkage construct where `linkage_parse` says what must come
    /// of it.  In the storage-class branch the declared name is registered
    /// with the shared context; the scope stack is never touched.
    #[verifier::rlimit(60)]
    pub fn parse(self, tok: Option<Token>, stream: &mut TokenStream, context: &mut Context) -> (r:
        Result<(Option<Token>, Option<Declaration>), ParserError>)
        requires
            old(stream).wf(),
        ensures
            stepped(*old(stream), *final(stream)),
            final(context).scopes_v() == old(context).scopes_v(),
            final(context).type_names_v() == (match linkage_parse(input_of(tok, *old(stream))) {
                Parsed::Found { val: Some(DeclV::Type(td)), .. } => match registered(td) {
                    Some(n) => old(context).type_names_v().push(n),
                    None => old(context).type_names_v(),
                },
                _ => old(context).type_names_v(),
            }),
            parse_post::<Declaration>(
                linkage_parse(input_of(tok, *old(stream))),
                input_of(tok, *old(stream)),
                *final(stream),
                r,
            ),
    {
        let ghost input = input_of(tok, *old(stream));
        let cur = stream.take_or_next(tok);
        if !matches!(cur, Token::LinkageKw) {
            return Ok((Some(cur), None));
        }
        let t1 = stream.pull_at(Ghost(input), Ghost(1));
        match t1 {
            Token::LiteralString(language) => {
                let t2 = stream.pull_at(Ghost(input), Ghost(2));
                if matches!(t2, Token::LeftBrace) {
                    proof {
                        assert(stream.remaining() =~= input.skip(3));
                        lemma_dlist_step_bounds(input.skip(3), 0, Seq::empty());
                    }
                    let dl_r = DeclarationListParser::new().parse(None, stream, context);
                    let (t3, list) = match dl_r {
                        Ok(p) => p,
                        Err(e) => {
                            proof {
                                let out = dlist_parse(input.skip(3));
                                if let Parsed::Failed { at, .. } = out {
                                    lemma_skip_at(input, 3, at as int);
                                    lemma_skip_at(input, 3, at as int + 1);
                                }
                            }
                            return Err(e);
                        },
                    };
                    proof {
                        let out = dlist_parse(input.skip(3));
                        if let Parsed::Found { next, .. } = out {
                            lemma_skip_at(input, 3, next as int);
                            lemma_skip_at(input, 3, next as int + 1);
                        }
                    }
                    let t3 = match t3 {
                        Some(t) => t,
                        None => {
                            proof {
                                assert(false);
                            }
                            Token::Eof
                        },
                    };
                    let list = match list {
                        Some(l) => l,
                        None => {
                            proof {
                                assert(false);
                            }
                            Vec::new()
                        },
                    };
                    if matches!(t3, Token::RightBrace) {
                        return Ok(
                            (
                                None,
                                Some(
                                    Declaration::Linkage(
                                        Linkage { language, decls: list, multiple: true },
                                    ),
                                ),
                            ),
                        );
                    } else {
                        return Err(
                            ParserError::InvalidTokenInLinkage { sp: stream.span(), tok: t3 },
                        );
                    }
                } else {
                    // no brace: exactly one declaration statement
                    if matches!(t2, Token::Eof) {
                        return Err(ParserError::InvalidTokenInDecl { sp: stream.span(), tok: t2 });
                    }
                    proof {
                        assert(seq![t2@] + stream.remaining() =~= input.skip(2));
                        lemma_decl_stmt_bounds(input.skip(2), Specifier { linkage: false });
                        lemma_tdecl_bounds(input.skip(2), Specifier { linkage: false });
                    }
                    let td_r = TypeDeclaratorParser::new().parse(Some(t2), None, stream, context);
                    let (ts, td) = match td_r {
                        Ok(p) => p,
                        Err(e) => {
                            proof {
                                let out = tdecl_parse(input.skip(2), Specifier { linkage: false });
                                if let Parsed::Failed { at, .. } = out {
                                    lemma_skip_at(input, 2, at as int);
                                    lemma_skip_at(input, 2, at as int + 1);
                                }
                            }
                            return Err(e);
                        },
                    };
                    proof {
                        let out = tdecl_parse(input.skip(2), Specifier { linkage: false });
                        if let Parsed::Found { next, .. } = out {
                            lemma_skip_at(input, 2, next as int);
                            lemma_skip_at(input, 2, next as int + 1);
                        }
                    }
                    let ts = match ts {
                        Some(t) => t,
                        None => {
                            proof {
                                assert(false);
                            }
                            Token::Eof
                        },
                    };
                    let td = match td {
                        Some(d) => d,
                        None => {
                            proof {
                                assert(false);
                            }
                            return Err(
                                ParserError::InvalidTokenInDecl { sp: stream.span(), tok: ts },
                            );
                        },
                    };
                    let ghost tnext: int = 2 + (tdecl_parse(
                        input.skip(2),
                        Specifier { linkage: false },
                    )->Found_next as int);
                    if !matches!(ts, Token::SemiColon) {
                        return Err(ParserError::InvalidTokenInDecl { sp: stream.span(), tok: ts });
                    }
                    let trail = stream.pull_at(Ghost(input), Ghost(tnext + 1));
                    let ghost tdv = td@;
                    let decls = vec![Declaration::Type(td)];
                    proof {
                        assert(decls@[0]@ == DeclV::Type(tdv));
                        assert(decls@.skip(1) =~= Seq::<Declaration>::empty());
                        assert(decls_v(decls@.skip(1)) =~= Seq::<DeclV>::empty());
                        assert(decls_v(decls@) =~= seq![DeclV::Type(tdv)]);
                    }
                    return Ok(
                        (
                            Some(trail),
                            Some(
                                Declaration::Linkage(
                                    Linkage { language, decls, multiple: false },
                                ),
                            ),
                        ),
                    );
                }
            },
            other => {
                if matches!(other, Token::Eof) {
                    return Err(ParserError::InvalidTokenInDecl { sp: stream.span(), tok: other });
                }
                proof {
                    assert(seq![other@] + stream.remaining() =~= input.skip(1));
                    lemma_tdecl_bounds(input.skip(1), Specifier { linkage: true });
                }
                let hint = DeclHint::Specifier(Specifier { linkage: true });
                let td_r = TypeDeclaratorParser::new().parse(Some(other), Some(hint), stream, context);
                match td_r {
                    Ok((ts, Some(typ))) => {
                        proof {
                            let out = tdecl_parse(input.skip(1), Specifier { linkage: true });
                            if let Parsed::Found { next, .. } = out {
                                lemma_skip_at(input, 1, next as int);
                                lemma_skip_at(input, 1, next as int + 1);
                            }
                        }
                        match &typ.identifier {
                            Some(q) => {
                                let qn = q.names.len();
                                if qn > 0 {
                                    match &q.names[qn - 1] {
                                        Name::Identifier(id) => {
                                            context.add_type_name(
                                                Identifier { val: id.val.clone() },
                                            );
                                        },
                                        _ => {},
                                    }
                                }
                            },
                            None => {},
                        }
                        Ok((ts, Some(Declaration::Type(typ))))
                    },
                    Ok((ts, None)) => {
                        proof {
                            assert(false);
                        }
                        Ok((ts, None))
                    },
                    Err(e) => {
                        proof {
                            let out = tdecl_parse(input.skip(1), Specifier { linkage: true });
                            if let Parsed::Failed { at, .. } = out {
                                lemma_skip_at(input, 1, at as int);
                                lemma_skip_at(input, 1, at as int + 1);
                            }
                        }
                        Err(e)
                    },
                }
            },
        }
    }
}

} // verus!
