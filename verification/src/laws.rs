//! Properties of the grammar that hold for every input, stated and proved
//! once and for all: the qualified-name parser reconstructs any `::`-joined
//! segment sequence exactly, declines without consuming where no name
//! starts, and every structural dump is a function of the node alone.

use vstd::prelude::*;

use crate::array::{ArrayV, DimV};
use crate::decl::LinkageV;
use crate::do_stmt::DoV;
use crate::dump::{array_text, dim_text, do_text, linkage_text};
use crate::name::{q_parse, q_step, qualified_text, NameV};
use crate::op::{dtor_parse, op_parse};
use crate::token::{parsed_shift, tok_at, Parsed, TokV};

verus! {

/// Does a qualified name start at this token?  Identifiers and `::` extend
/// or open a name; `operator` and `~` open operator and destructor names.
pub open spec fn starts_name(t: TokV) -> bool {
    match t {
        TokV::Identifier(_) => true,
        TokV::ColonColon => true,
        TokV::Operator => true,
        TokV::Tilde => true,
        _ => false,
    }
}

/// Where no name starts, the qualified-name grammar reports "no match" and
/// consumes nothing: the caller can retry another production on the same
/// lookahead token.
pub proof fn lemma_no_name_no_match(toks: Seq<TokV>)
    requires
        !starts_name(tok_at(toks, 0)),
    ensures
        q_parse(toks, None) == (Parsed::Found::<Option<Seq<NameV>>> { next: 0, val: None }),
{
}

/// The name grammar is translation invariant: parsing the suffix that
/// starts `d` tokens in gives the same outcome, shifted by `d`.
pub proof fn lemma_q_step_shift(toks: Seq<TokV>, d: nat, i: nat, names: Seq<NameV>, wait_id: bool)
    requires
        d <= toks.len(),
    ensures
        q_step(toks, (d + i) as nat, names, wait_id) == parsed_shift(
            q_step(toks.skip(d as int), i, names, wait_id),
            d,
        ),
    decreases toks.len() - (d + i),
{
    let suf = toks.skip(d as int);
    assert(tok_at(toks, (d + i) as int) == tok_at(suf, i as int));
    match tok_at(toks, (d + i) as int) {
        TokV::ColonColon => {
            lemma_q_step_shift(
                toks,
                d,
                (i + 1) as nat,
                if names.len() == 0 {
                    seq![NameV::Empty]
                } else {
                    names
                },
                true,
            );
        },
        TokV::Identifier(s) => {
            if wait_id {
                lemma_q_step_shift(toks, d, (i + 1) as nat, names.push(NameV::Identifier(s)), false);
            }
        },
        TokV::Operator => {
            assert(toks.skip((d + i) as int) =~= suf.skip(i as int));
            match op_parse(suf.skip(i as int)) {
                Parsed::Found { .. } => {},
                Parsed::Closed { .. } => {},
                Parsed::Failed { .. } => {},
            }
        },
        TokV::Tilde => {
            if wait_id {
                assert(toks.skip((d + i) as int) =~= suf.skip(i as int));
                match dtor_parse(suf.skip(i as int)) {
                    Parsed::Found { .. } => {},
                    Parsed::Closed { .. } => {},
                    Parsed::Failed { .. } => {},
                }
            }
        },
        _ => {},
    }
}

/// The token stream of identifier segments joined by `::`, with nothing
/// after the last segment.
pub open spec fn name_toks(segs: Seq<Seq<char>>) -> Seq<TokV>
    decreases segs.len(),
{
    if segs.len() == 0 {
        Seq::empty()
    } else if segs.len() == 1 {
        seq![TokV::Identifier(segs[0])]
    } else {
        seq![TokV::Identifier(segs[0]), TokV::ColonColon] + name_toks(segs.skip(1))
    }
}

proof fn lemma_q_segs(segs: Seq<Seq<char>>, names: Seq<NameV>)
    requires
        segs.len() >= 1,
    ensures
        q_step(name_toks(segs), 0, names, true) == (Parsed::Found::<Option<Seq<NameV>>> {
            next: name_toks(segs).len(),
            val: Some(names + segs.map_values(|s: Seq<char>| NameV::Identifier(s))),
        }),
    decreases segs.len(),
{
    let toks = name_toks(segs);
    let names1 = names.push(NameV::Identifier(segs[0]));
    if segs.len() == 1 {
        assert(toks.len() == 1);
        assert(tok_at(toks, 0) == TokV::Identifier(segs[0]));
        assert(tok_at(toks, 1) == TokV::Eof);
        assert(q_step(toks, 0, names, true) == q_step(toks, 1, names1, false));
        assert(q_step(toks, 1, names1, false) == (Parsed::Found::<Option<Seq<NameV>>> {
            next: 1nat,
            val: Some(names1),
        }));
        assert(names1 =~= names + segs.map_values(|s: Seq<char>| NameV::Identifier(s)));
    } else {
        assert(tok_at(toks, 0) == TokV::Identifier(segs[0]));
        assert(tok_at(toks, 1) == TokV::ColonColon);
        assert(q_step(toks, 0, names, true) == q_step(toks, 1, names1, false));
        assert(q_step(toks, 1, names1, false) == q_step(toks, 2, names1, true));
        assert(toks.skip(2) =~= name_toks(segs.skip(1)));
        lemma_q_segs(segs.skip(1), names1);
        lemma_q_step_shift(toks, 2, 0, names1, true);
        assert(names1 + segs.skip(1).map_values(|s: Seq<char>| NameV::Identifier(s)) =~= names
            + segs.map_values(|s: Seq<char>| NameV::Identifier(s)));
        assert(toks.len() == 2 + name_toks(segs.skip(1)).len());
    }
}

/// For every sequence of segments joined by `::` with nothing after the
/// last one, the qualified-name grammar reconstructs exactly that segment
/// sequence and stops at end-of-stream.
pub proof fn lemma_name_segments_round_trip(segs: Seq<Seq<char>>)
    requires
        segs.len() >= 1,
    ensures
        q_parse(name_toks(segs), None) == (Parsed::Found::<Option<Seq<NameV>>> {
            next: name_toks(segs).len(),
            val: Some(segs.map_values(|s: Seq<char>| NameV::Identifier(s))),
        }),
        tok_at(name_toks(segs), name_toks(segs).len() as int) == TokV::Eof,
{
    lemma_q_segs(segs, Seq::empty());
    assert(Seq::<NameV>::empty() + segs.map_values(|s: Seq<char>| NameV::Identifier(s)) =~= segs.map_values(
        |s: Seq<char>| NameV::Identifier(s),
    ));
}

/// Re-dumping a do-while node gives the identical text: the dump is a
/// function of the node's value alone.
pub proof fn lemma_redump_do_identical(n: DoV, first: Seq<char>, second: Seq<char>)
    requires
        first == do_text(n),
        second == do_text(n),
    ensures
        first == second,
{
}

/// Re-dumping an array node gives the identical text.
pub proof fn lemma_redump_array_identical(n: ArrayV, first: Seq<char>, second: Seq<char>)
    requires
        first == array_text(n),
        second == array_text(n),
    ensures
        first == second,
{
}

/// Re-dumping a linkage node gives the identical text.
pub proof fn lemma_redump_linkage_identical(n: LinkageV, first: Seq<char>, second: Seq<char>)
    requires
        first == linkage_text(n),
        second == linkage_text(n),
    ensures
        first == second,
{
}

/// Re-dumping a dimension gives the identical text.
pub proof fn lemma_redump_dimension_identical(n: DimV, first: Seq<char>, second: Seq<char>)
    requires
        first == dim_text(n),
        second == dim_text(n),
    ensures
        first == second,
{
}

/// Re-dumping a qualified name gives the identical text.
pub proof fn lemma_redump_qualified_identical(n: Seq<NameV>, first: Seq<char>, second: Seq<char>)
    requires
        first == qualified_text(n),
        second == qualified_text(n),
    ensures
        first == second,
{
}

} // verus!
