//! Possibly-qualified names: identifiers, destructor and operator names,
//! and the qualified-name parser that strings them together with `::`.

use vstd::prelude::*;
use vstd::string::StringExecFns;

use crate::context::Context;
use crate::error::ParserError;
use crate::expr::Parameters;
use crate::op::{dtor_parse, op_parse, op_text, Destructor, DtorParser, Operator, OperatorParser};
use crate::token::{
    clip, input_of, opt_v, parse_post, parsed_shift, stepped, tok_at, Parsed, TokV, Token,
    TokenStream,
};

verus! {

/// A plain name; equality is by string value.
#[derive(Clone, Debug, PartialEq, Eq, Hash)]
pub struct Identifier {
    pub val: String,
}

impl View for Identifier {
    type V = Seq<char>;

    open spec fn view(&self) -> Seq<char> {
        self.val@
    }
}

/// A template-qualified name segment.  The grammar production for template
/// argument lists is deferred: nothing in this crate builds one yet.
#[derive(Clone, Debug, PartialEq)]
pub struct Template {
    id: Identifier,
    params: Parameters,
}

/// One segment of a qualified name.  `Empty` marks a leading global-scope
/// qualifier, as in `::foo`.
#[derive(Clone, Debug, PartialEq, Eq, Hash)]
pub enum Name {
    Identifier(Identifier),
    Destructor(Destructor),
    Operator(Box<Operator>),
    Empty,
}

/// The value of a name segment.
pub enum NameV {
    Identifier(Seq<char>),
    Destructor(Seq<char>),
    Operator(Operator),
    Empty,
}

impl View for Name {
    type V = NameV;

    open spec fn view(&self) -> NameV {
        match self {
            Name::Identifier(id) => NameV::Identifier(id@),
            Name::Destructor(d) => NameV::Destructor(d@),
            Name::Operator(op) => NameV::Operator(**op),
            Name::Empty => NameV::Empty,
        }
    }
}

/// The text of a name segment: the identifier itself, `~name` for a
/// destructor, the operator notation for an operator, nothing for the
/// global-scope marker.
pub open spec fn name_text(n: NameV) -> Seq<char> {
    match n {
        NameV::Identifier(s) => s,
        NameV::Destructor(s) => "~"@ + s,
        NameV::Operator(op) => op_text(op),
        NameV::Empty => Seq::empty(),
    }
}

impl Name {
    /// The identifier text, or the empty string for every other name form.
    pub fn as_str(&self) -> (r: &str)
        ensures
            r@ == (match self@ {
                NameV::Identifier(s) => s,
                _ => Seq::<char>::empty(),
            }),
    {
        match self {
            Name::Identifier(id) => id.val.as_str(),
            _ => {
                let r = "";
                proof {
                    reveal_strlit("");
                }
                r
            },
        }
    }

    /// The text of this name segment.
    pub fn to_string(&self) -> (r: String)
        ensures
            r@ == name_text(self@),
    {
        match self {
            Name::Identifier(id) => id.val.clone(),
            Name::Destructor(d) => {
                let mut s = String::from_str("~");
                s.append(d.name.as_str());
                s
            },
            Name::Operator(op) => op.to_string(),
            Name::Empty => String::new(),
        }
    }
}

/// The text of a qualified name: its segments joined by `::`.
pub open spec fn qualified_text(names: Seq<NameV>) -> Seq<char>
    decreases names.len(),
{
    if names.len() == 0 {
        Seq::empty()
    } else if names.len() == 1 {
        name_text(names.last())
    } else {
        qualified_text(names.drop_last()) + "::"@ + name_text(names.last())
    }
}

/// An ordered sequence of name segments forming a possibly-qualified,
/// possibly-global name such as `A::B::c` or `::x`.
#[derive(Clone, Debug, PartialEq, Eq, Hash)]
pub struct Qualified {
    pub names: Vec<Name>,
}

impl View for Qualified {
    type V = Seq<NameV>;

    open spec fn view(&self) -> Seq<NameV> {
        self.names@.map_values(|n: Name| n@)
    }
}

impl Qualified {
    /// Does this name end in a conversion operator?
    pub fn is_conv_op(&self) -> (r: bool)
        requires
            self@.len() > 0,
        ensures
            r == (match self@.last() {
                NameV::Operator(op) => op is Conv,
                _ => false,
            }),
    {
        let n = self.names.len();
        match &self.names[n - 1] {
            Name::Operator(op) => op.is_conv(),
            _ => false,
        }
    }

    /// Take the name's one segment, which must be a plain identifier.
    pub fn get_first_name(self) -> (r: String)
        requires
            self@.len() > 0,
            self@.last() is Identifier,
        ensures
            r@ == self@.last()->Identifier_0,
    {
        let mut names = self.names;
        match names.pop() {
            Some(Name::Identifier(id)) => id.val,
            _ => {
                proof {
                    assert(false);
                }
                String::new()
            },
        }
    }

    /// How many segments the name has.
    pub fn len(&self) -> (r: usize)
        ensures
            r == self@.len(),
    {
        self.names.len()
    }

    /// The text of the name, its segments joined by `::`.
    pub fn to_string(&self) -> (r: String)
        ensures
            r@ == qualified_text(self@),
    {
        let mut buf = String::new();
        let n = self.names.len();
        let mut i: usize = 0;
        while i < n
            invariant
                n == self.names.len(),
                0 <= i <= n,
                buf@ == qualified_text(self@.take(i as int)),
            decreases n - i,
        {
            if i > 0 {
                buf.append("::");
            }
            let part = self.names[i].to_string();
            buf.append(part.as_str());
            proof {
                assert(self@.take(i + 1).drop_last() =~= self@.take(i as int));
                assert(self@.take(i + 1).last() == self@[i as int]);
            }
            i = i + 1;
        }
        proof {
            assert(self@.take(n as int) =~= self@);
        }
        buf
    }
}

/// One step of the qualified-name grammar, standing at position `i` with
/// the segments collected so far and the `wait_id` flag: `true` means the
/// next token must be an identifier to extend the name (as right after
/// `::`).  `Found` with `None` reports that no name starts here; errors
/// come only from the operator and destructor sub-grammars.
pub open spec fn q_step(toks: Seq<TokV>, i: nat, names: Seq<NameV>, wait_id: bool) -> Parsed<
    Option<Seq<NameV>>,
>
    decreases toks.len() - i,
{
    match tok_at(toks, i as int) {
        TokV::ColonColon => q_step(
            toks,
            (i + 1) as nat,
            if names.len() == 0 {
                seq![NameV::Empty]
            } else {
                names
            },
            true,
        ),
        TokV::Identifier(s) => if wait_id {
            q_step(toks, (i + 1) as nat, names.push(NameV::Identifier(s)), false)
        } else {
            Parsed::Found { next: i, val: Some(names) }
        },
        TokV::Operator => match parsed_shift(op_parse(toks.skip(i as int)), i) {
            Parsed::Found { next, val } => match val {
                Some(op) => Parsed::Found { next, val: Some(names.push(NameV::Operator(op))) },
                // op_parse always names an operator when it stands at the
                // `operator` keyword, so this arm cannot be reached
                None => Parsed::Found { next, val: Some(names) },
            },
            // op_parse never consumes a terminator of its own
            Parsed::Closed { next, val: _ } => Parsed::Closed { next, val: None },
            Parsed::Failed { kind, at } => Parsed::Failed { kind, at },
        },
        TokV::Tilde => if wait_id {
            match parsed_shift(dtor_parse(toks.skip(i as int)), i) {
                Parsed::Found { next, val } => match val {
                    Some(name) => Parsed::Found {
                        next,
                        val: Some(names.push(NameV::Destructor(name))),
                    },
                    // dtor_parse always names a destructor at a `~` token
                    None => Parsed::Found { next, val: Some(names) },
                },
                // dtor_parse never consumes a terminator of its own
                Parsed::Closed { next, val: _ } => Parsed::Closed { next, val: None },
                Parsed::Failed { kind, at } => Parsed::Failed { kind, at },
            }
        } else {
            Parsed::Found { next: i, val: Some(names) }
        },
        _ => if names.len() == 0 {
            Parsed::Found { next: i, val: None }
        } else {
            Parsed::Found { next: i, val: Some(names) }
        },
    }
}

/// What the qualified-name grammar makes of its input, given an optional
/// first identifier the caller has already committed to.
pub open spec fn q_parse(toks: Seq<TokV>, first: Option<Seq<char>>) -> Parsed<Option<Seq<NameV>>> {
    match first {
        Some(s) => q_step(toks, 0, seq![NameV::Identifier(s)], false),
        None => q_step(toks, 0, Seq::empty(), true),
    }
}

/// Once segments have been collected, the grammar always returns a name:
/// `Found` with `None` can only arise before the first segment.
pub proof fn lemma_q_step_committed(toks: Seq<TokV>, i: nat, names: Seq<NameV>, wait_id: bool)
    requires
        names.len() > 0,
    ensures
        match q_step(toks, i, names, wait_id) {
            Parsed::Found { val, .. } => val is Some,
            Parsed::Closed { .. } => false,
            Parsed::Failed { .. } => true,
        },
    decreases toks.len() - i,
{
    match tok_at(toks, i as int) {
        TokV::ColonColon => {
            lemma_q_step_committed(toks, (i + 1) as nat, names, true);
        },
        TokV::Identifier(s) => {
            if wait_id {
                lemma_q_step_committed(toks, (i + 1) as nat, names.push(NameV::Identifier(s)), false);
            }
        },
        _ => {},
    }
}

/// The qualified-name parser never consumes its trailing token, and it
/// reports an error only out of the operator and destructor sub-grammars.
pub proof fn lemma_q_step_no_close(toks: Seq<TokV>, i: nat, names: Seq<NameV>, wait_id: bool)
    ensures
        !(q_step(toks, i, names, wait_id) is Closed),
    decreases toks.len() - i,
{
    match tok_at(toks, i as int) {
        TokV::ColonColon => {
            lemma_q_step_no_close(
                toks,
                (i + 1) as nat,
                if names.len() == 0 {
                    seq![NameV::Empty]
                } else {
                    names
                },
                true,
            );
        },
        TokV::Identifier(s) => {
            if wait_id {
                lemma_q_step_no_close(toks, (i + 1) as nat, names.push(NameV::Identifier(s)), false);
            }
        },
        _ => {},
    }
}

/// A found qualified name stops inside the input (or right at its end).
pub proof fn lemma_q_step_le(toks: Seq<TokV>, i: nat, names: Seq<NameV>, wait_id: bool)
    requires
        i <= toks.len(),
    ensures
        match q_step(toks, i, names, wait_id) {
            Parsed::Found { next, .. } => next <= toks.len(),
            _ => true,
        },
    decreases toks.len() - i,
{
    match tok_at(toks, i as int) {
        TokV::ColonColon => {
            lemma_q_step_le(
                toks,
                (i + 1) as nat,
                if names.len() == 0 {
                    seq![NameV::Empty]
                } else {
                    names
                },
                true,
            );
        },
        TokV::Identifier(s) => {
            if wait_id {
                lemma_q_step_le(toks, (i + 1) as nat, names.push(NameV::Identifier(s)), false);
            }
        },
        TokV::Operator => {
            assert(match op_parse(toks.skip(i as int)) {
                Parsed::Found { next, .. } => next <= toks.skip(i as int).len(),
                _ => true,
            });
        },
        TokV::Tilde => {
            if wait_id {
                assert(match dtor_parse(toks.skip(i as int)) {
                    Parsed::Found { next, .. } => next <= toks.skip(i as int).len(),
                    _ => true,
                });
            }
        },
        _ => {},
    }
}

/// `tok_at` and suffix-taking commute: position `k` of the suffix starting
/// at `i` is position `i + k` of the whole input.
pub proof fn lemma_skip_at(toks: Seq<TokV>, i: int, k: int)
    requires
        0 <= i <= toks.len(),
        0 <= k,
    ensures
        tok_at(toks.skip(i), k) == tok_at(toks, i + k),
        toks.skip(i).skip(clip(k, toks.len() - i)) == toks.skip(clip(i + k, toks.len() as int)),
{
    assert(toks.skip(i).skip(clip(k, toks.len() - i)) =~= toks.skip(
        clip(i + k, toks.len() as int),
    ));
}

/// Pushing a segment commutes with taking segment values.
proof fn lemma_names_push(names: Seq<Name>, n: Name)
    ensures
        names.push(n).map_values(|x: Name| x@) == names.map_values(|x: Name| x@).push(n@),
{
    assert(names.push(n).map_values(|x: Name| x@) =~= names.map_values(|x: Name| x@).push(n@));
}

pub struct QualifiedParser;

impl QualifiedParser {
    pub fn new() -> (r: QualifiedParser) {
        QualifiedParser
    }

    /// Parse a possibly-qualified name where `q_parse` says what must come
    /// of it: consume tokens while they extend the name, hand the first
    /// token that does not back to the caller, and report `None` instead of
    /// an error when no name starts here at all.
    pub fn parse(
        self,
        tok: Option<Token>,
        first: Option<String>,
        stream: &mut TokenStream,
        context: &mut Context,
    ) -> (r: Result<(Option<Token>, Option<Qualified>), ParserError>)
        requires
            old(stream).wf(),
        ensures
            stepped(*old(stream), *final(stream)),
            *final(context) == *old(context),
            parse_post::<Qualified>(
                q_parse(input_of(tok, *old(stream)), opt_v(first)),
                input_of(tok, *old(stream)),
                *final(stream),
                r,
            ),
    {
        let ghost input = input_of(tok, *old(stream));
        let ghost first_v = opt_v(first);
        let mut names: Vec<Name> = Vec::new();
        let mut wait_id: bool = true;
        proof {
            assert(Seq::<Name>::empty().map_values(|x: Name| x@) =~= Seq::<NameV>::empty());
        }
        match first {
            Some(val) => {
                proof {
                    lemma_names_push(Seq::empty(), Name::Identifier(Identifier { val: val }));
                }
                names.push(Name::Identifier(Identifier { val }));
                wait_id = false;
            },
            None => {},
        }
        let mut cur = stream.take_or_next(tok);
        let ghost mut i: int = 0;
        loop
            invariant
                input == input_of(tok, *old(stream)),
                first_v == opt_v(first),
                stream.wf(),
                stepped(*old(stream), *stream),
                *context == *old(context),
                0 <= i <= input.len(),
                cur@ == tok_at(input, i),
                stream.remaining() == input.skip(clip(i + 1, input.len() as int)),
                q_step(input, i as nat, names@.map_values(|n: Name| n@), wait_id) == q_parse(
                    input,
                    first_v,
                ),
            decreases input.len() - i,
        {
            match cur {
                Token::ColonColon => {
                    if names.len() == 0 {
                        proof {
                            lemma_names_push(names@, Name::Empty);
                            assert(names@.map_values(|x: Name| x@).len() == 0);
                            assert(names@.map_values(|x: Name| x@) =~= Seq::<NameV>::empty());
                        }
                        names.push(Name::Empty);
                        proof {
                            assert(names@.map_values(|x: Name| x@) =~= seq![NameV::Empty]);
                        }
                    }
                    wait_id = true;
                    cur = stream.pull_at(Ghost(input), Ghost(i + 1));
                    proof {
                        i = i + 1;
                    }
                },
                Token::Identifier(val) => {
                    if wait_id {
                        proof {
                            lemma_names_push(names@, Name::Identifier(Identifier { val: val }));
                        }
                        names.push(Name::Identifier(Identifier { val }));
                        wait_id = false;
                        cur = stream.pull_at(Ghost(input), Ghost(i + 1));
                        proof {
                            i = i + 1;
                        }
                    } else {
                        return Ok((Some(Token::Identifier(val)), Some(Qualified { names })));
                    }
                },
                Token::Operator => {
                    proof {
                        assert(seq![cur@] + stream.remaining() =~= input.skip(i));
                    }
                    let op_r = OperatorParser::new().parse(Some(cur), stream, context);
                    proof {
                        lemma_skip_at(input, i, 0);
                    }
                    match op_r {
                        Ok((t2, Some(op))) => {
                            proof {
                                lemma_names_push(names@, Name::Operator(Box::new(op)));
                                let out = op_parse(input.skip(i));
                                if let Parsed::Found { next, .. } = out {
                                    lemma_skip_at(input, i, next as int);
                                    lemma_skip_at(input, i, next as int + 1);
                                }
                            }
                            names.push(Name::Operator(Box::new(op)));
                            return Ok((t2, Some(Qualified { names })));
                        },
                        Ok((t2, None)) => {
                            // op_parse cannot decline at an `operator` token
                            return Ok((t2, Some(Qualified { names })));
                        },
                        Err(e) => {
                            proof {
                                let out = op_parse(input.skip(i));
                                if let Parsed::Failed { at, .. } = out {
                                    lemma_skip_at(input, i, at as int);
                                    lemma_skip_at(input, i, at as int + 1);
                                }
                            }
                            return Err(e);
                        },
                    }
                },
                Token::Tilde => {
                    if wait_id {
                        proof {
                            assert(seq![cur@] + stream.remaining() =~= input.skip(i));
                        }
                        let d_r = DtorParser::new().parse(Some(cur), stream, context);
                        match d_r {
                            Ok((t2, Some(d))) => {
                                proof {
                                    lemma_names_push(names@, Name::Destructor(d));
                                    let out = dtor_parse(input.skip(i));
                                    if let Parsed::Found { next, .. } = out {
                                        lemma_skip_at(input, i, next as int);
                                        lemma_skip_at(input, i, next as int + 1);
                                    }
                                }
                                names.push(Name::Destructor(d));
                                return Ok((t2, Some(Qualified { names })));
                            },
                            Ok((t2, None)) => {
                                // dtor_parse cannot decline at a `~` token
                                return Ok((t2, Some(Qualified { names })));
                            },
                            Err(e) => {
                                proof {
                                    let out = dtor_parse(input.skip(i));
                                    if let Parsed::Failed { at, .. } = out {
                                        lemma_skip_at(input, i, at as int);
                                        lemma_skip_at(input, i, at as int + 1);
                                    }
                                }
                                return Err(e);
                            },
                        }
                    } else {
                        return Ok((Some(cur), Some(Qualified { names })));
                    }
                },
                _ => {
                    if names.len() == 0 {
                        return Ok((Some(cur), None));
                    } else {
                        return Ok((Some(cur), Some(Qualified { names })));
                    }
                },
            }
        }
    }
}

} // verus!
