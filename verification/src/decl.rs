//! Declarations: primitive types, type declarators such as
//! `double sqrt(double)`, and declaration lists.

use vstd::prelude::*;

use crate::attr::Attributes;
use crate::context::Context;
use crate::error::{ErrK, ParserError};
use crate::name::{
    lemma_q_step_le, lemma_q_step_no_close, lemma_skip_at, q_parse, Identifier, Name, NameV,
    Qualified, QualifiedParser,
};
use crate::token::{
    clip, input_of, opt_v, parse_post, parsed_shift, stepped, tok_at, Parsed, TokV, Token,
    TokenStream,
};

verus! {

/// A primitive type name of the grammar slice.
#[derive(Clone, Copy, Debug, PartialEq, Eq, Hash, Structural)]
pub enum Primitive {
    Void,
    Int,
    Double,
}

/// The keyword that names a primitive type.
pub open spec fn prim_text(p: Primitive) -> Seq<char> {
    match p {
        Primitive::Void => "void"@,
        Primitive::Int => "int"@,
        Primitive::Double => "double"@,
    }
}

impl Primitive {
    /// The keyword that names this primitive type.
    pub fn as_str(&self) -> (r: &str)
        ensures
            r@ == prim_text(*self),
    {
        match self {
            Primitive::Void => "void",
            Primitive::Int => "int",
            Primitive::Double => "double",
        }
    }
}

/// Storage-class information attached to a declaration: this grammar slice
/// only tracks whether the declaration came with the linkage keyword.
#[derive(Clone, Copy, Debug, PartialEq, Eq, Structural)]
pub struct Specifier {
    pub linkage: bool,
}

impl Specifier {
    /// No storage-class specifier.
    pub fn empty() -> (r: Specifier)
        ensures
            r == (Specifier { linkage: false }),
    {
        Specifier { linkage: false }
    }
}

/// A hint a caller hands to the type-declarator parser about what it has
/// already consumed.
#[derive(Clone, Copy, Debug, PartialEq, Eq, Structural)]
pub enum DeclHint {
    Specifier(Specifier),
}

/// The specifier a hint carries.
pub open spec fn hint_specifier(hint: Option<DeclHint>) -> Specifier {
    match hint {
        Some(DeclHint::Specifier(s)) => s,
        None => Specifier { linkage: false },
    }
}

/// A type: a base type, possibly a whole function signature.
#[derive(Debug, PartialEq, Eq)]
pub struct Type {
    pub base: BaseType,
}

#[derive(Debug, PartialEq, Eq)]
pub enum BaseType {
    Primitive(Primitive),
    Function(Box<Function>),
}

/// A function signature: its return type and its parameters.
#[derive(Debug, PartialEq, Eq)]
pub struct Function {
    pub return_type: Option<Type>,
    pub params: Vec<Parameter>,
}

/// One function parameter.
#[derive(Debug, PartialEq, Eq)]
pub struct Parameter {
    pub attributes: Option<Attributes>,
    pub decl: TypeDeclarator,
}

/// A declarator: a type, an optional declared name, and the storage-class
/// specifier it was declared under.
#[derive(Debug, PartialEq, Eq)]
pub struct TypeDeclarator {
    pub typ: Type,
    pub specifier: Specifier,
    pub identifier: Option<Qualified>,
}

/// A declaration: a language-linkage construct or a plain type declarator.
#[derive(Debug, PartialEq, Eq)]
pub enum Declaration {
    Linkage(crate::linkage::Linkage),
    Type(TypeDeclarator),
}

pub type Declarations = Vec<Declaration>;

/// The value of a type.
pub struct TypeV {
    pub base: BaseTypeV,
}

pub enum BaseTypeV {
    Primitive(Primitive),
    Function(Box<FunctionV>),
}

pub struct FunctionV {
    pub return_type: Option<TypeV>,
    pub params: Seq<ParamV>,
}

pub struct ParamV {
    pub attributes: Option<Seq<Seq<char>>>,
    pub decl: TypeDeclV,
}

pub struct TypeDeclV {
    pub typ: TypeV,
    pub specifier: Specifier,
    pub identifier: Option<Seq<NameV>>,
}

/// The value of a declaration.
pub enum DeclV {
    Linkage(LinkageV),
    Type(TypeDeclV),
}

/// The value of a language-linkage construct.
pub struct LinkageV {
    pub language: Seq<char>,
    pub decls: Seq<DeclV>,
    pub multiple: bool,
}

pub open spec fn type_v(t: Type) -> TypeV
    decreases t,
{
    TypeV { base: base_v(t.base) }
}

pub open spec fn base_v(b: BaseType) -> BaseTypeV
    decreases b,
{
    match b {
        BaseType::Primitive(p) => BaseTypeV::Primitive(p),
        BaseType::Function(f) => BaseTypeV::Function(Box::new(fn_v(*f))),
    }
}

pub open spec fn fn_v(f: Function) -> FunctionV
    decreases f,
    via fn_v_dec
{
    FunctionV {
        return_type: match f.return_type {
            Some(t) => Some(type_v(t)),
            None => None,
        },
        params: params_v(f.params@),
    }
}

#[via_fn]
proof fn fn_v_dec(f: Function) {
    assert(decreases_to!(f => f.params));
    assert(decreases_to!(f.params => f.params@));
}

pub open spec fn params_v(s: Seq<Parameter>) -> Seq<ParamV>
    decreases s,
    via params_v_dec
{
    if s.len() == 0 {
        Seq::empty()
    } else {
        seq![param_v(s[0])] + params_v(s.skip(1))
    }
}

#[via_fn]
proof fn params_v_dec(s: Seq<Parameter>) {
    if s.len() > 0 {
        assert(decreases_to!(s => s[0]));
        assert(decreases_to!(s => s.skip(1)));
    }
}

pub open spec fn param_v(p: Parameter) -> ParamV
    decreases p,
{
    ParamV { attributes: opt_v(p.attributes), decl: tdecl_v(p.decl) }
}

pub open spec fn tdecl_v(d: TypeDeclarator) -> TypeDeclV
    decreases d,
{
    TypeDeclV { typ: type_v(d.typ), specifier: d.specifier, identifier: opt_v(d.identifier) }
}

pub open spec fn decl_v(d: Declaration) -> DeclV
    decreases d,
{
    match d {
        Declaration::Linkage(l) => DeclV::Linkage(linkage_v(l)),
        Declaration::Type(td) => DeclV::Type(tdecl_v(td)),
    }
}

pub open spec fn linkage_v(l: crate::linkage::Linkage) -> LinkageV
    decreases l,
    via linkage_v_dec
{
    LinkageV { language: l.language@, decls: decls_v(l.decls@), multiple: l.multiple }
}

#[via_fn]
proof fn linkage_v_dec(l: crate::linkage::Linkage) {
    assert(decreases_to!(l => l.decls));
    assert(decreases_to!(l.decls => l.decls@));
}

pub open spec fn decls_v(s: Seq<Declaration>) -> Seq<DeclV>
    decreases s,
    via decls_v_dec
{
    if s.len() == 0 {
        Seq::empty()
    } else {
        seq![decl_v(s[0])] + decls_v(s.skip(1))
    }
}

#[via_fn]
proof fn decls_v_dec(s: Seq<Declaration>) {
    if s.len() > 0 {
        assert(decreases_to!(s => s[0]));
        assert(decreases_to!(s => s.skip(1)));
    }
}

impl View for Type {
    type V = TypeV;

    open spec fn view(&self) -> TypeV {
        type_v(*self)
    }
}

impl View for TypeDeclarator {
    type V = TypeDeclV;

    open spec fn view(&self) -> TypeDeclV {
        tdecl_v(*self)
    }
}

impl View for Declaration {
    type V = DeclV;

    open spec fn view(&self) -> DeclV {
        decl_v(*self)
    }
}

/// Does this token name a primitive type, and which?
pub open spec fn prim_of(t: TokV) -> Option<Primitive> {
    match t {
        TokV::Void => Some(Primitive::Void),
        TokV::Int => Some(Primitive::Int),
        TokV::Double => Some(Primitive::Double),
        _ => None,
    }
}

/// The parameter list of a function declarator, standing at position `i`
/// just after the opening parenthesis: primitive types with optional
/// parameter names, separated by commas, closed by `)`.
pub open spec fn params_step(toks: Seq<TokV>, i: nat, acc: Seq<ParamV>) -> Parsed<Seq<ParamV>>
    decreases toks.len() - i,
{
    if tok_at(toks, i as int) == TokV::RightParen {
        Parsed::Found { next: (i + 1) as nat, val: acc }
    } else {
        match prim_of(tok_at(toks, i as int)) {
            Some(p) => {
                let named = tok_at(toks, i as int + 1) is Identifier;
                let j = if named {
                    (i + 2) as nat
                } else {
                    (i + 1) as nat
                };
                let param = ParamV {
                    attributes: None,
                    decl: TypeDeclV {
                        typ: TypeV { base: BaseTypeV::Primitive(p) },
                        specifier: Specifier { linkage: false },
                        identifier: if named {
                            Some(seq![NameV::Identifier(tok_at(toks, i as int + 1)->Identifier_0)])
                        } else {
                            None
                        },
                    },
                };
                if tok_at(toks, j as int) == TokV::Comma {
                    params_step(toks, (j + 1) as nat, acc.push(param))
                } else if tok_at(toks, j as int) == TokV::RightParen {
                    Parsed::Found { next: (j + 1) as nat, val: acc.push(param) }
                } else {
                    Parsed::Failed { kind: ErrK::Decl, at: j }
                }
            },
            None => Parsed::Failed { kind: ErrK::Decl, at: i },
        }
    }
}

/// A found parameter list closes strictly inside the input.
pub proof fn lemma_params_step_bounds(toks: Seq<TokV>, i: nat, acc: Seq<ParamV>)
    ensures
        match params_step(toks, i, acc) {
            Parsed::Found { next, .. } => i < next <= toks.len(),
            Parsed::Closed { .. } => false,
            Parsed::Failed { .. } => true,
        },
    decreases toks.len() - i,
{
    if tok_at(toks, i as int) == TokV::RightParen {
    } else {
        match prim_of(tok_at(toks, i as int)) {
            Some(p) => {
                let named = tok_at(toks, i as int + 1) is Identifier;
                let j = if named {
                    (i + 2) as nat
                } else {
                    (i + 1) as nat
                };
                if tok_at(toks, j as int) == TokV::Comma {
                    let param = ParamV {
                        attributes: None,
                        decl: TypeDeclV {
                            typ: TypeV { base: BaseTypeV::Primitive(p) },
                            specifier: Specifier { linkage: false },
                            identifier: if named {
                                Some(
                                    seq![
                                        NameV::Identifier(
                                            tok_at(toks, i as int + 1)->Identifier_0,
                                        ),
                                    ],
                                )
                            } else {
                                None
                            },
                        },
                    };
                    lemma_params_step_bounds(toks, (j + 1) as nat, acc.push(param));
                }
            },
            None => {},
        }
    }
}

/// What the type-declarator grammar makes of its input: a primitive type,
/// an optional declared name, and an optional parameter list turning the
/// declarator into a function signature.  `spec` is the storage-class
/// specifier the caller has already consumed.
pub open spec fn tdecl_parse(toks: Seq<TokV>, sp: Specifier) -> Parsed<Option<TypeDeclV>> {
    match prim_of(tok_at(toks, 0)) {
        Some(p) => match parsed_shift(q_parse(toks.skip(1), None), 1) {
            Parsed::Found { next, val } => if tok_at(toks, next as int) == TokV::LeftParen {
                match params_step(toks, (next + 1) as nat, Seq::empty()) {
                    Parsed::Found { next: end, val: ps } => Parsed::Found {
                        next: end,
                        val: Some(
                            TypeDeclV {
                                typ: TypeV {
                                    base: BaseTypeV::Function(
                                        Box::new(
                                            FunctionV {
                                                return_type: Some(
                                                    TypeV { base: BaseTypeV::Primitive(p) },
                                                ),
                                                params: ps,
                                            },
                                        ),
                                    ),
                                },
                                specifier: sp,
                                identifier: val,
                            },
                        ),
                    },
                    // a parameter list never consumes past its `)`
                    Parsed::Closed { next: end, .. } => Parsed::Closed { next: end, val: None },
                    Parsed::Failed { kind, at } => Parsed::Failed { kind, at },
                }
            } else {
                Parsed::Found {
                    next,
                    val: Some(
                        TypeDeclV {
                            typ: TypeV { base: BaseTypeV::Primitive(p) },
                            specifier: sp,
                            identifier: val,
                        },
                    ),
                }
            },
            // the qualified-name grammar never consumes a terminator
            Parsed::Closed { next, .. } => Parsed::Closed { next, val: None },
            Parsed::Failed { kind, at } => Parsed::Failed { kind, at },
        },
        None => Parsed::Failed { kind: ErrK::Decl, at: 0 },
    }
}

/// A found declarator stops inside the input (or right at its end) and
/// never consumes a terminator of its own.
pub proof fn lemma_tdecl_bounds(toks: Seq<TokV>, sp: Specifier)
    ensures
        match tdecl_parse(toks, sp) {
            Parsed::Found { next, .. } => 1 <= next <= toks.len(),
            Parsed::Closed { .. } => false,
            Parsed::Failed { .. } => true,
        },
{
    match prim_of(tok_at(toks, 0)) {
        Some(p) => {
            lemma_q_step_no_close(toks.skip(1), 0, Seq::empty(), true);
            lemma_q_step_le(toks.skip(1), 0, Seq::empty(), true);
            match parsed_shift(q_parse(toks.skip(1), None), 1) {
                Parsed::Found { next, val } => {
                    if tok_at(toks, next as int) == TokV::LeftParen {
                        lemma_params_step_bounds(toks, (next + 1) as nat, Seq::empty());
                    }
                },
                _ => {},
            }
        },
        None => {},
    }
}

/// One declaration statement: a type declarator followed by `;`, with the
/// token after the `;` handed back.
pub open spec fn decl_stmt_parse(toks: Seq<TokV>, sp: Specifier) -> Parsed<Option<TypeDeclV>> {
    match tdecl_parse(toks, sp) {
        Parsed::Found { next, val } => if tok_at(toks, next as int) == TokV::SemiColon {
            Parsed::Found { next: (next + 1) as nat, val }
        } else {
            Parsed::Failed { kind: ErrK::Decl, at: next }
        },
        Parsed::Closed { next, .. } => Parsed::Closed { next, val: None },
        Parsed::Failed { kind, at } => Parsed::Failed { kind, at },
    }
}

/// A found declaration statement makes progress and stays inside the input.
pub proof fn lemma_decl_stmt_bounds(toks: Seq<TokV>, sp: Specifier)
    ensures
        match decl_stmt_parse(toks, sp) {
            Parsed::Found { next, val } => 2 <= next <= toks.len() && val is Some,
            Parsed::Closed { .. } => false,
            Parsed::Failed { .. } => true,
        },
{
    lemma_tdecl_bounds(toks, sp);
    match tdecl_parse(toks, sp) {
        Parsed::Found { next, val } => {
            if tok_at(toks, next as int) == TokV::SemiColon {
                assert(next < toks.len());
            }
        },
        _ => {},
    }
}

/// A declaration list: declaration statements while a token that can start
/// one stands at the current position, stopping (without error) at the
/// first token that cannot.
pub open spec fn dlist_step(toks: Seq<TokV>, i: nat, acc: Seq<DeclV>) -> Parsed<Seq<DeclV>>
    decreases toks.len() - i,
    via dlist_step_dec
{
    if prim_of(tok_at(toks, i as int)) is Some {
        match parsed_shift(decl_stmt_parse(toks.skip(i as int), Specifier { linkage: false }), i) {
            Parsed::Found { next, val } => match val {
                Some(td) => dlist_step(toks, next, acc.push(DeclV::Type(td))),
                // a found declaration statement always carries a declarator
                None => Parsed::Found { next, val: acc },
            },
            // a declaration statement never consumes past its `;`
            Parsed::Closed { next, .. } => Parsed::Closed { next, val: acc },
            Parsed::Failed { kind, at } => Parsed::Failed { kind, at },
        }
    } else {
        Parsed::Found { next: i, val: acc }
    }
}

#[via_fn]
proof fn dlist_step_dec(toks: Seq<TokV>, i: nat, acc: Seq<DeclV>) {
    if prim_of(tok_at(toks, i as int)) is Some {
        assert(i < toks.len());
        lemma_decl_stmt_bounds(toks.skip(i as int), Specifier { linkage: false });
    }
}

/// What the declaration-list grammar makes of its input.
pub open spec fn dlist_parse(toks: Seq<TokV>) -> Parsed<Seq<DeclV>> {
    dlist_step(toks, 0, Seq::empty())
}

/// A declaration list stops inside the input (or right at its end) and
/// never consumes a terminator of its own.
pub proof fn lemma_dlist_step_bounds(toks: Seq<TokV>, i: nat, acc: Seq<DeclV>)
    requires
        i <= toks.len(),
    ensures
        match dlist_step(toks, i, acc) {
            Parsed::Found { next, .. } => i <= next <= toks.len(),
            Parsed::Closed { .. } => false,
            Parsed::Failed { .. } => true,
        },
    decreases toks.len() - i,
{
    if prim_of(tok_at(toks, i as int)) is Some {
        lemma_decl_stmt_bounds(toks.skip(i as int), Specifier { linkage: false });
        match parsed_shift(decl_stmt_parse(toks.skip(i as int), Specifier { linkage: false }), i) {
            Parsed::Found { next, val } => {
                match val {
                    Some(td) => {
                        lemma_dlist_step_bounds(toks, next, acc.push(DeclV::Type(td)));
                    },
                    None => {},
                }
            },
            _ => {},
        }
    }
}

/// `params_v` maps the list one element at a time.
pub proof fn lemma_params_v_len(s: Seq<Parameter>)
    ensures
        params_v(s).len() == s.len(),
        forall|k: int| 0 <= k < s.len() ==> params_v(s)[k] == param_v(#[trigger] s[k]),
    decreases s.len(),
{
    if s.len() > 0 {
        lemma_params_v_len(s.skip(1));
        assert forall|k: int| 0 <= k < s.len() implies params_v(s)[k] == param_v(#[trigger] s[k]) by {
            if k > 0 {
                assert(params_v(s)[k] == params_v(s.skip(1))[k - 1]);
                assert(s.skip(1)[k - 1] == s[k]);
            }
        }
    }
}

/// `decls_v` maps the list one element at a time.
pub proof fn lemma_decls_v_len(s: Seq<Declaration>)
    ensures
        decls_v(s).len() == s.len(),
        forall|k: int| 0 <= k < s.len() ==> decls_v(s)[k] == decl_v(#[trigger] s[k]),
    decreases s.len(),
{
    if s.len() > 0 {
        lemma_decls_v_len(s.skip(1));
        assert forall|k: int| 0 <= k < s.len() implies decls_v(s)[k] == decl_v(#[trigger] s[k]) by {
            if k > 0 {
                assert(decls_v(s)[k] == decls_v(s.skip(1))[k - 1]);
                assert(s.skip(1)[k - 1] == s[k]);
            }
        }
    }
}

/// Pushing a declaration commutes with taking declaration values.
pub proof fn lemma_decls_push(decls: Seq<Declaration>, d: Declaration)
    ensures
        decls_v(decls.push(d)) == decls_v(decls).push(decl_v(d)),
    decreases decls.len(),
{
    if decls.len() == 0 {
        assert(decls.push(d)[0] == d);
        assert(decls.push(d).skip(1) =~= Seq::<Declaration>::empty());
        assert(decls_v(decls.push(d).skip(1)) =~= Seq::<DeclV>::empty());
        assert(decls_v(decls.push(d)) =~= decls_v(decls).push(decl_v(d)));
    } else {
        assert(decls.push(d)[0] == decls[0]);
        assert(decls.push(d).skip(1) =~= decls.skip(1).push(d));
        lemma_decls_push(decls.skip(1), d);
        assert(decls_v(decls.push(d)) =~= decls_v(decls).push(decl_v(d)));
    }
}

pub struct TypeDeclaratorParser;

impl TypeDeclaratorParser {
    pub fn new() -> (r: TypeDeclaratorParser) {
        TypeDeclaratorParser
    }

    /// Parse a type declarator where `tdecl_parse` says what must come of
    /// it; `hint` carries a storage-class specifier the caller already
    /// consumed.
    pub fn parse(
        self,
        tok: Option<Token>,
        hint: Option<DeclHint>,
        stream: &mut TokenStream,
        context: &mut Context,
    ) -> (r: Result<(Option<Token>, Option<TypeDeclarator>), ParserError>)
        requires
            old(stream).wf(),
        ensures
            stepped(*old(stream), *final(stream)),
            *final(context) == *old(context),
            parse_post::<TypeDeclarator>(
                tdecl_parse(input_of(tok, *old(stream)), hint_specifier(hint)),
                input_of(tok, *old(stream)),
                *final(stream),
                r,
            ),
    {
        let ghost input = input_of(tok, *old(stream));
        let sp = match hint {
            Some(DeclHint::Specifier(s)) => s,
            None => Specifier::empty(),
        };
        let cur = stream.take_or_next(tok);
        let p = match cur {
            Token::Void => Primitive::Void,
            Token::Int => Primitive::Int,
            Token::Double => Primitive::Double,
            _ => {
                return Err(ParserError::InvalidTokenInDecl { sp: stream.span(), tok: cur });
            },
        };
        proof {
            assert(stream.remaining() =~= input.skip(1));
            lemma_q_step_no_close(input.skip(1), 0, Seq::empty(), true);
            lemma_q_step_le(input.skip(1), 0, Seq::empty(), true);
        }
        let q_r = QualifiedParser::new().parse(None, None, stream, context);
        let (t1, name) = match q_r {
            Ok(p) => p,
            Err(e) => {
                proof {
                    let out = q_parse(input.skip(1), None);
                    if let Parsed::Failed { at, .. } = out {
                        lemma_skip_at(input, 1, at as int);
                        lemma_skip_at(input, 1, at as int + 1);
                    }
                }
                return Err(e);
            },
        };
        let ghost q_out = q_parse(input.skip(1), None);
        let ghost next = (q_out->Found_next + 1) as nat;
        proof {
            if let Parsed::Found { next: qn, .. } = q_out {
                lemma_skip_at(input, 1, qn as int);
                lemma_skip_at(input, 1, qn as int + 1);
            }
        }
        let t1 = match t1 {
            Some(t) => t,
            None => {
                proof {
                    assert(false);
                }
                Token::Eof
            },
        };
        if !matches!(t1, Token::LeftParen) {
            return Ok(
                (
                    Some(t1),
                    Some(
                        TypeDeclarator {
                            typ: Type { base: BaseType::Primitive(p) },
                            specifier: sp,
                            identifier: name,
                        },
                    ),
                ),
            );
        }
        // a parameter list follows: `t1` is the `(` at position `next`
        let mut params: Vec<Parameter> = Vec::new();
        let mut cur2 = stream.pull_at(Ghost(input), Ghost(next as int + 1));
        let ghost mut j: int = next as int + 1;
        proof {
            assert(params_v(Seq::<Parameter>::empty()) =~= Seq::<ParamV>::empty());
        }
        loop
            invariant
                input == input_of(tok, *old(stream)),
                sp == hint_specifier(hint),
                stream.wf(),
                stepped(*old(stream), *stream),
                *context == *old(context),
                0 <= j <= input.len(),
                cur2@ == tok_at(input, j),
                stream.remaining() == input.skip(clip(j + 1, input.len() as int)),
                q_out == q_parse(input.skip(1), None),
                q_out is Found,
                next == q_out->Found_next + 1,
                tok_at(input, next as int) == TokV::LeftParen,
                tdecl_parse(input, sp) == (match params_step(input, j as nat, params_v(params@)) {
                    Parsed::Found { next: end, val: ps } => Parsed::Found::<Option<TypeDeclV>> {
                        next: end,
                        val: Some(
                            TypeDeclV {
                                typ: TypeV {
                                    base: BaseTypeV::Function(
                                        Box::new(
                                            FunctionV {
                                                return_type: Some(
                                                    TypeV { base: BaseTypeV::Primitive(p) },
                                                ),
                                                params: ps,
                                            },
                                        ),
                                    ),
                                },
                                specifier: sp,
                                identifier: opt_v(name),
                            },
                        ),
                    },
                    Parsed::Closed { next: end, .. } => Parsed::Closed { next: end, val: None },
                    Parsed::Failed { kind, at } => Parsed::Failed { kind, at },
                }),
            decreases input.len() - j,
        {
            if matches!(cur2, Token::RightParen) {
                let t3 = stream.pull_at(Ghost(input), Ghost(j + 1));
                return Ok(
                    (
                        Some(t3),
                        Some(
                            TypeDeclarator {
                                typ: Type {
                                    base: BaseType::Function(
                                        Box::new(
                                            Function {
                                                return_type: Some(
                                                    Type { base: BaseType::Primitive(p) },
                                                ),
                                                params,
                                            },
                                        ),
                                    ),
                                },
                                specifier: sp,
                                identifier: name,
                            },
                        ),
                    ),
                );
            }
            let p2 = match cur2 {
                Token::Void => Primitive::Void,
                Token::Int => Primitive::Int,
                Token::Double => Primitive::Double,
                _ => {
                    return Err(ParserError::InvalidTokenInDecl { sp: stream.span(), tok: cur2 });
                },
            };
            let after = stream.pull_at(Ghost(input), Ghost(j + 1));
            let (pname, delim, ghost_j2) = match after {
                Token::Identifier(val) => {
                    let d = stream.pull_at(Ghost(input), Ghost(j + 2));
                    (Some(Qualified { names: vec![Name::Identifier(Identifier { val })] }), d, Ghost(
                        j + 2,
                    ))
                },
                other => (None, other, Ghost(j + 1)),
            };
            let ghost j2 = ghost_j2@;
            proof {
                match &pname {
                    Some(q) => {
                        assert(q@ =~= seq![NameV::Identifier(tok_at(input, j + 1)->Identifier_0)]);
                    },
                    None => {},
                }
            }
            let param = Parameter {
                attributes: None,
                decl: TypeDeclarator {
                    typ: Type { base: BaseType::Primitive(p2) },
                    specifier: Specifier::empty(),
                    identifier: pname,
                },
            };
            proof {
                lemma_params_push(params@, param);
            }
            match delim {
                Token::Comma => {
                    params.push(param);
                    cur2 = stream.pull_at(Ghost(input), Ghost(j2 + 1));
                    proof {
                        j = j2 + 1;
                    }
                },
                Token::RightParen => {
                    params.push(param);
                    let ghost ps = params_v(params@);
                    let t3 = stream.pull_at(Ghost(input), Ghost(j2 + 1));
                    return Ok(
                        (
                            Some(t3),
                            Some(
                                TypeDeclarator {
                                    typ: Type {
                                        base: BaseType::Function(
                                            Box::new(
                                                Function {
                                                    return_type: Some(
                                                        Type { base: BaseType::Primitive(p) },
                                                    ),
                                                    params,
                                                },
                                            ),
                                        ),
                                    },
                                    specifier: sp,
                                    identifier: name,
                                },
                            ),
                        ),
                    );
                },
                other => {
                    return Err(ParserError::InvalidTokenInDecl { sp: stream.span(), tok: other });
                },
            }
        }
    }
}

/// Pushing a parameter commutes with taking parameter values.
pub proof fn lemma_params_push(params: Seq<Parameter>, p: Parameter)
    ensures
        params_v(params.push(p)) == params_v(params).push(param_v(p)),
    decreases params.len(),
{
    if params.len() == 0 {
        assert(params.push(p)[0] == p);
        assert(params.push(p).skip(1) =~= Seq::<Parameter>::empty());
        assert(params_v(params.push(p).skip(1)) =~= Seq::<ParamV>::empty());
        assert(params_v(params.push(p)) =~= params_v(params).push(param_v(p)));
    } else {
        assert(params.push(p)[0] == params[0]);
        assert(params.push(p).skip(1) =~= params.skip(1).push(p));
        lemma_params_push(params.skip(1), p);
        assert(params_v(params.push(p)) =~= params_v(params).push(param_v(p)));
    }
}

pub struct DeclarationListParser;

impl DeclarationListParser {
    pub fn new() -> (r: DeclarationListParser) {
        DeclarationListParser
    }

    /// Parse declaration statements while one can start at the current
    /// position, handing back the first token that cannot.  An empty list
    /// is a valid outcome, never an error.
    pub fn parse(self, tok: Option<Token>, stream: &mut TokenStream, context: &mut Context) -> (r:
        Result<(Option<Token>, Option<Declarations>), ParserError>)
        requires
            old(stream).wf(),
        ensures
            stepped(*old(stream), *final(stream)),
            *final(context) == *old(context),
            ({
                let input = input_of(tok, *old(stream));
                match dlist_parse(input) {
                    Parsed::Found { next, val } => match r {
                        Ok((rt, rd)) => {
                            &&& rt matches Some(t) && t@ == tok_at(input, next as int)
                            &&& rd matches Some(ds) && decls_v(ds@) == val
                            &&& final(stream).remaining() == input.skip(
                                clip(next as int + 1, input.len() as int),
                            )
                        },
                        Err(_) => false,
                    },
                    Parsed::Closed { .. } => false,
                    Parsed::Failed { kind, at } => match r {
                        Ok(_) => false,
                        Err(e) => {
                            &&& e.kind() == kind
                            &&& e.tok_v() == tok_at(input, at as int)
                            &&& e.sp_v() == final(stream).pos_v()
                            &&& final(stream).remaining() == input.skip(
                                clip(at as int + 1, input.len() as int),
                            )
                        },
                    },
                }
            }),
    {
        let ghost input = input_of(tok, *old(stream));
        proof {
            lemma_dlist_step_bounds(input, 0, Seq::empty());
        }
        let mut decls: Vec<Declaration> = Vec::new();
        let mut cur = stream.take_or_next(tok);
        let ghost mut i: int = 0;
        proof {
            assert(decls_v(Seq::<Declaration>::empty()) =~= Seq::<DeclV>::empty());
        }
        loop
            invariant
                input == input_of(tok, *old(stream)),
                stream.wf(),
                stepped(*old(stream), *stream),
                *context == *old(context),
                0 <= i <= input.len(),
                cur@ == tok_at(input, i),
                stream.remaining() == input.skip(clip(i + 1, input.len() as int)),
                dlist_step(input, i as nat, decls_v(decls@)) == dlist_parse(input),
            decreases input.len() - i,
        {
            let starts = matches!(cur, Token::Void | Token::Int | Token::Double);
            if !starts {
                return Ok((Some(cur), Some(decls)));
            }
            proof {
                assert(seq![cur@] + stream.remaining() =~= input.skip(i));
                lemma_decl_stmt_bounds(input.skip(i), Specifier { linkage: false });
            }
            let td_r = TypeDeclaratorParser::new().parse(Some(cur), None, stream, context);
            let (t1, td) = match td_r {
                Ok(p) => p,
                Err(e) => {
                    proof {
                        let out = tdecl_parse(input.skip(i), Specifier { linkage: false });
                        if let Parsed::Failed { at, .. } = out {
                            lemma_skip_at(input, i, at as int);
                            lemma_skip_at(input, i, at as int + 1);
                        }
                    }
                    return Err(e);
                },
            };
            proof {
                lemma_tdecl_bounds(input.skip(i), Specifier { linkage: false });
                let out = tdecl_parse(input.skip(i), Specifier { linkage: false });
                if let Parsed::Found { next: tn, .. } = out {
                    lemma_skip_at(input, i, tn as int);
                    lemma_skip_at(input, i, tn as int + 1);
                }
            }
            let t1 = match t1 {
                Some(t) => t,
                None => {
                    proof {
                        assert(false);
                    }
                    Token::Eof
                },
            };
            let td = match td {
                Some(d) => d,
                None => {
                    proof {
                        assert(false);
                    }
                    return Ok((Some(t1), Some(decls)));
                },
            };
            let ghost tnext = i + tdecl_parse(input.skip(i), Specifier { linkage: false })->Found_next;
            if !matches!(t1, Token::SemiColon) {
                return Err(ParserError::InvalidTokenInDecl { sp: stream.span(), tok: t1 });
            }
            proof {
                lemma_decls_push(decls@, Declaration::Type(td));
            }
            decls.push(Declaration::Type(td));
            cur = stream.pull_at(Ghost(input), Ghost(tnext + 1));
            proof {
                i = tnext + 1;
            }
        }
    }
}

} // verus!
