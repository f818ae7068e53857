//! Structural tree dumps for debugging and snapshot testing.  Every dump
//! is a pure function of the node, stated against a spec-level text
//! function, so dumping the same node twice gives the same text.

use vstd::prelude::*;
use vstd::string::StringExecFns;

use crate::array::{Array, ArrayV, DimV, Dimension};
use crate::attr::Attributes;
use crate::decl::{
    prim_text, BaseType, BaseTypeV, DeclV, Declaration, LinkageV, Parameter, ParamV, Type,
    TypeDeclV, TypeDeclarator, TypeV,
};
use crate::do_stmt::{Do, DoV};
use crate::expr::{ExprNode, ExprV};
use crate::linkage::Linkage;
use crate::name::{qualified_text, NameV, Qualified};
use crate::stmt::{stmt_v, Statement, StmtV};

verus! {

/// The decimal digit `d` as text.
pub open spec fn digit_text(d: nat) -> Seq<char> {
    if d == 0 {
        "0"@
    } else if d == 1 {
        "1"@
    } else if d == 2 {
        "2"@
    } else if d == 3 {
        "3"@
    } else if d == 4 {
        "4"@
    } else if d == 5 {
        "5"@
    } else if d == 6 {
        "6"@
    } else if d == 7 {
        "7"@
    } else if d == 8 {
        "8"@
    } else {
        "9"@
    }
}

/// The decimal notation of `n`.
pub open spec fn dec_text(n: nat) -> Seq<char>
    decreases n,
{
    if n < 10 {
        digit_text(n)
    } else {
        dec_text(n / 10) + digit_text(n % 10)
    }
}

/// The decimal digit `d` as a string slice.
fn digit_str(d: u64) -> (r: &'static str)
    requires
        d < 10,
    ensures
        r@ == digit_text(d as nat),
{
    if d == 0 {
        "0"
    } else if d == 1 {
        "1"
    } else if d == 2 {
        "2"
    } else if d == 3 {
        "3"
    } else if d == 4 {
        "4"
    } else if d == 5 {
        "5"
    } else if d == 6 {
        "6"
    } else if d == 7 {
        "7"
    } else if d == 8 {
        "8"
    } else {
        "9"
    }
}

/// `n` in decimal notation.
pub fn dec_string(n: u64) -> (r: String)
    ensures
        r@ == dec_text(n as nat),
    decreases n,
{
    if n < 10 {
        String::from_str(digit_str(n))
    } else {
        proof {
            assert(n / 10 < n) by (nonlinear_arith)
                requires
                    n >= 10,
            ;
            assert(n % 10 < 10) by (nonlinear_arith);
        }
        let mut s = dec_string(n / 10);
        s.append(digit_str(n % 10));
        s
    }
}

/// The text of `b`.
pub open spec fn bool_text(b: bool) -> Seq<char> {
    if b {
        "true"@
    } else {
        "false"@
    }
}

fn bool_str(b: bool) -> (r: &'static str)
    ensures
        r@ == bool_text(b),
{
    if b {
        "true"
    } else {
        "false"
    }
}

/// Texts joined by a separator.
pub open spec fn join_texts(items: Seq<Seq<char>>, sep: Seq<char>) -> Seq<char>
    decreases items.len(),
{
    if items.len() == 0 {
        Seq::empty()
    } else if items.len() == 1 {
        items.last()
    } else {
        join_texts(items.drop_last(), sep) + sep + items.last()
    }
}

/// The text of an expression node.
pub open spec fn expr_text(e: ExprV) -> Seq<char> {
    match e {
        ExprV::Integer(n) => dec_text(n as nat),
        ExprV::Qualified(names) => qualified_text(names),
    }
}

/// The text of an attribute list.
pub open spec fn attrs_text(a: Seq<Seq<char>>) -> Seq<char> {
    "[["@ + join_texts(a, ", "@) + "]]"@
}

/// The text of an optional attribute list.
pub open spec fn opt_attrs_text(a: Option<Seq<Seq<char>>>) -> Seq<char> {
    match a {
        None => "none"@,
        Some(a) => attrs_text(a),
    }
}

/// The dump of one array dimension.
pub open spec fn dim_text(d: DimV) -> Seq<char> {
    "dim(size: "@ + (match d.size {
        None => "none"@,
        Some(e) => expr_text(e),
    }) + ", attributes: "@ + opt_attrs_text(d.attributes) + ")"@
}

/// The dumps of a dimension list.
pub open spec fn dims_texts(s: Seq<DimV>) -> Seq<Seq<char>>
    decreases s.len(),
{
    if s.len() == 0 {
        Seq::empty()
    } else {
        dims_texts(s.drop_last()).push(dim_text(s.last()))
    }
}

/// The dump of an array node.
pub open spec fn array_text(a: ArrayV) -> Seq<char> {
    "array(base: "@ + (match a.base {
        None => "none"@,
        Some(t) => type_text(t),
    }) + ", dimensions: ["@ + join_texts(dims_texts(a.dimensions), ", "@) + "])"@
}

/// The text of a type.
pub open spec fn type_text(t: TypeV) -> Seq<char>
    decreases t,
{
    match t.base {
        BaseTypeV::Primitive(p) => prim_text(p),
        BaseTypeV::Function(f) => "function(return: "@ + (match f.return_type {
            None => "none"@,
            Some(rt) => type_text(rt),
        }) + ", params: ["@ + join_texts(params_texts(f.params), ", "@) + "])"@,
    }
}

/// The texts of a parameter list.
pub open spec fn params_texts(s: Seq<ParamV>) -> Seq<Seq<char>>
    decreases s, 0nat,
{
    if s.len() == 0 {
        Seq::empty()
    } else {
        params_texts(s.drop_last()).push(tdecl_text(s.last().decl))
    }
}

/// The dump of a type declarator.
pub open spec fn tdecl_text(td: TypeDeclV) -> Seq<char>
    decreases td, 1nat,
{
    "declarator(type: "@ + type_text(td.typ) + ", linkage: "@ + bool_text(td.specifier.linkage)
        + ", name: "@ + (match td.identifier {
        None => "none"@,
        Some(names) => qualified_text(names),
    }) + ")"@
}

/// The dump of a declaration.
pub open spec fn decl_text(d: DeclV) -> Seq<char>
    decreases d,
{
    match d {
        DeclV::Type(td) => tdecl_text(td),
        DeclV::Linkage(l) => linkage_text(l),
    }
}

/// The dumps of a declaration list.
pub open spec fn decls_texts(s: Seq<DeclV>) -> Seq<Seq<char>>
    decreases s, 0nat,
{
    if s.len() == 0 {
        Seq::empty()
    } else {
        decls_texts(s.drop_last()).push(decl_text(s.last()))
    }
}

/// The dump of a linkage construct.
pub open spec fn linkage_text(l: LinkageV) -> Seq<char>
    decreases l, 1nat,
{
    "linkage(language: "@ + l.language + ", multiple: "@ + bool_text(l.multiple) + ", decls: ["@
        + join_texts(decls_texts(l.decls), ", "@) + "])"@
}

/// The text of a statement.
pub open spec fn stmt_text(s: StmtV) -> Seq<char>
    decreases s, 1nat,
{
    match s {
        StmtV::Empty => "empty"@,
        StmtV::Expr(e) => "expr("@ + expr_text(e) + ")"@,
        StmtV::Compound(ss) => "compound(["@ + join_texts(stmts_texts(ss), ", "@) + "])"@,
    }
}

/// The texts of a statement list.
pub open spec fn stmts_texts(s: Seq<StmtV>) -> Seq<Seq<char>>
    decreases s, 0nat,
{
    if s.len() == 0 {
        Seq::empty()
    } else {
        stmts_texts(s.drop_last()).push(stmt_text(s.last()))
    }
}

/// The dump of a do-while statement.
pub open spec fn do_text(d: DoV) -> Seq<char> {
    "do(attributes: "@ + opt_attrs_text(d.attributes) + ", body: "@ + stmt_text(d.body)
        + ", condition: "@ + expr_text(d.condition) + ")"@
}

/// The text of an expression node.
pub fn expr_dump(e: &ExprNode) -> (r: String)
    ensures
        r@ == expr_text(e@),
{
    match e {
        ExprNode::Integer(n) => dec_string(*n),
        ExprNode::Qualified(q) => q.to_string(),
    }
}

impl Attributes {
    /// The text of this attribute list.
    pub fn dump(&self) -> (r: String)
        ensures
            r@ == attrs_text(self@),
    {
        let mut buf = String::from_str("[[");
        let n = self.entries.len();
        let mut i: usize = 0;
        while i < n
            invariant
                n == self.entries.len(),
                0 <= i <= n,
                buf@ == "[["@ + join_texts(self@.take(i as int), ", "@),
            decreases n - i,
        {
            if i > 0 {
                buf.append(", ");
            }
            buf.append(self.entries[i].val.as_str());
            proof {
                assert(self@.take(i + 1).drop_last() =~= self@.take(i as int));
                assert(self@.take(i + 1).last() == self@[i as int]);
                assert(buf@ =~= "[["@ + join_texts(self@.take(i + 1), ", "@));
            }
            i = i + 1;
        }
        proof {
            assert(self@.take(n as int) =~= self@);
        }
        buf.append("]]");
        buf
    }
}

/// The text of optional attributes.
fn opt_attrs_dump(a: &Option<Attributes>) -> (r: String)
    ensures
        r@ == opt_attrs_text(crate::token::opt_v(*a)),
{
    match a {
        None => String::from_str("none"),
        Some(a) => a.dump(),
    }
}

impl Dimension {
    /// The structural dump of this dimension.
    pub fn dump(&self) -> (r: String)
        ensures
            r@ == dim_text(self@),
    {
        let mut buf = String::from_str("dim(size: ");
        match &self.size {
            None => buf.append("none"),
            Some(e) => {
                let t = expr_dump(e);
                buf.append(t.as_str());
            },
        }
        buf.append(", attributes: ");
        let at = opt_attrs_dump(&self.attributes);
        buf.append(at.as_str());
        buf.append(")");
        buf
    }
}

/// The dumps of a parameter list, joined by a comma.
fn params_dump(params: &Vec<Parameter>) -> (r: String)
    ensures
        r@ == join_texts(params_texts(crate::decl::params_v(params@)), ", "@),
    decreases *params,
{
    let mut buf = String::new();
    let n = params.len();
    let mut i: usize = 0;
    let ghost pv = crate::decl::params_v(params@);
    proof {
        crate::decl::lemma_params_v_len(params@);
        assert(params_texts(pv.take(0)) =~= Seq::<Seq<char>>::empty());
    }
    while i < n
        invariant
            n == params.len(),
            0 <= i <= n,
            pv == crate::decl::params_v(params@),
            pv.len() == n,
            forall|k: int| 0 <= k < n ==> pv[k] == crate::decl::param_v(#[trigger] params@[k]),
            buf@ == join_texts(params_texts(pv.take(i as int)), ", "@),
        decreases n - i,
    {
        if i > 0 {
            buf.append(", ");
        }
        proof {
            assert(decreases_to!(*params => params@));
            assert(decreases_to!(params@ => params@[i as int]));
            assert(decreases_to!(params@[i as int] => params@[i as int].decl));
            assert(decreases_to!(*params => params@[i as int].decl));
        }
        let t = params[i].decl.dump();
        buf.append(t.as_str());
        proof {
            assert(pv.take(i + 1).drop_last() =~= pv.take(i as int));
            assert(pv.take(i + 1).last() == pv[i as int]);
            let ts0 = params_texts(pv.take(i as int));
            assert(params_texts(pv.take(i + 1)) == ts0.push(tdecl_text(pv[i as int].decl)));
            assert(ts0.push(tdecl_text(pv[i as int].decl)).drop_last() =~= ts0);
            assert(buf@ =~= join_texts(params_texts(pv.take(i + 1)), ", "@));
        }
        i = i + 1;
    }
    proof {
        assert(pv.take(n as int) =~= pv);
    }
    buf
}

impl Type {
    /// The text of this type.
    pub fn dump(&self) -> (r: String)
        ensures
            r@ == type_text(self@),
        decreases *self,
    {
        match &self.base {
            BaseType::Primitive(p) => String::from_str(p.as_str()),
            BaseType::Function(f) => {
                let mut buf = String::from_str("function(return: ");
                match &f.return_type {
                    None => buf.append("none"),
                    Some(rt) => {
                        proof {
                            assert(decreases_to!(*self => self.base));
                            assert(decreases_to!(self.base => (**f)));
                            assert(decreases_to!((**f) => (**f).return_type));
                            assert(decreases_to!((**f).return_type => *rt));
                            assert(decreases_to!(*self => *rt));
                        }
                        let t = rt.dump();
                        buf.append(t.as_str());
                    },
                }
                buf.append(", params: [");
                proof {
                    assert(decreases_to!(*self => self.base));
                    assert(decreases_to!(self.base => (**f)));
                    assert(decreases_to!((**f) => (**f).params));
                    assert(decreases_to!(*self => (**f).params));
                }
                let t = params_dump(&f.params);
                buf.append(t.as_str());
                buf.append("])");
                buf
            },
        }
    }
}

impl TypeDeclarator {
    /// The structural dump of this declarator.
    pub fn dump(&self) -> (r: String)
        ensures
            r@ == tdecl_text(self@),
        decreases *self,
    {
        let mut buf = String::from_str("declarator(type: ");
        let t = self.typ.dump();
        buf.append(t.as_str());
        buf.append(", linkage: ");
        buf.append(bool_str(self.specifier.linkage));
        buf.append(", name: ");
        match &self.identifier {
            None => buf.append("none"),
            Some(q) => {
                let qt = q.to_string();
                buf.append(qt.as_str());
            },
        }
        buf.append(")");
        buf
    }
}

impl Array {
    /// The structural dump of this array node.
    pub fn dump(&self) -> (r: String)
        ensures
            r@ == array_text(self@),
    {
        let mut buf = String::from_str("array(base: ");
        match &self.base {
            None => buf.append("none"),
            Some(t) => {
                let tt = t.dump();
                buf.append(tt.as_str());
            },
        }
        buf.append(", dimensions: [");
        let n = self.dimensions.len();
        let mut i: usize = 0;
        let ghost dv = self.dimensions@.map_values(|d: Dimension| d@);
        while i < n
            invariant
                n == self.dimensions.len(),
                0 <= i <= n,
                dv == self.dimensions@.map_values(|d: Dimension| d@),
                buf@ == "array(base: "@ + (match self@.base {
                    None => "none"@,
                    Some(t) => type_text(t),
                }) + ", dimensions: ["@ + join_texts(dims_texts(dv.take(i as int)), ", "@),
            decreases n - i,
        {
            if i > 0 {
                buf.append(", ");
            }
            let t = self.dimensions[i].dump();
            buf.append(t.as_str());
            proof {
                assert(dv.take(i + 1).drop_last() =~= dv.take(i as int));
                assert(dv.take(i + 1).last() == dv[i as int]);
                let ts0 = dims_texts(dv.take(i as int));
                assert(dims_texts(dv.take(i + 1)) == ts0.push(dim_text(dv[i as int])));
                assert(ts0.push(dim_text(dv[i as int])).drop_last() =~= ts0);
                assert(buf@ =~= "array(base: "@ + (match self@.base {
                    None => "none"@,
                    Some(t) => type_text(t),
                }) + ", dimensions: ["@ + join_texts(dims_texts(dv.take(i + 1)), ", "@));
            }
            i = i + 1;
        }
        proof {
            assert(dv.take(n as int) =~= dv);
        }
        buf.append("])");
        buf
    }
}

impl Declaration {
    /// The structural dump of this declaration.
    pub fn dump(&self) -> (r: String)
        ensures
            r@ == decl_text(self@),
        decreases *self,
    {
        match self {
            Declaration::Type(td) => td.dump(),
            Declaration::Linkage(l) => l.dump(),
        }
    }
}

impl Linkage {
    /// The structural dump of this linkage construct.
    pub fn dump(&self) -> (r: String)
        ensures
            r@ == linkage_text(self@),
        decreases *self,
    {
        let mut buf = String::from_str("linkage(language: ");
        buf.append(self.language.as_str());
        buf.append(", multiple: ");
        buf.append(bool_str(self.multiple));
        buf.append(", decls: [");
        let n = self.decls.len();
        let mut i: usize = 0;
        let ghost dv = crate::decl::decls_v(self.decls@);
        proof {
            crate::decl::lemma_decls_v_len(self.decls@);
        }
        while i < n
            invariant
                n == self.decls.len(),
                0 <= i <= n,
                dv == crate::decl::decls_v(self.decls@),
                dv.len() == n,
                forall|k: int|
                    0 <= k < n ==> dv[k] == crate::decl::decl_v(#[trigger] self.decls@[k]),
                buf@ == "linkage(language: "@ + self.language@ + ", multiple: "@ + bool_text(
                    self.multiple,
                ) + ", decls: ["@ + join_texts(decls_texts(dv.take(i as int)), ", "@),
            decreases n - i,
        {
            if i > 0 {
                buf.append(", ");
            }
            proof {
                assert(decreases_to!(*self => self.decls));
                assert(decreases_to!(self.decls => self.decls@));
                assert(decreases_to!(self.decls@ => self.decls@[i as int]));
                assert(decreases_to!(*self => self.decls@[i as int]));
            }
            let t = self.decls[i].dump();
            buf.append(t.as_str());
            proof {
                assert(dv.take(i + 1).drop_last() =~= dv.take(i as int));
                assert(dv.take(i + 1).last() == dv[i as int]);
                let ts0 = decls_texts(dv.take(i as int));
                assert(decls_texts(dv.take(i + 1)) == ts0.push(decl_text(dv[i as int])));
                assert(ts0.push(decl_text(dv[i as int])).drop_last() =~= ts0);
                assert(buf@ =~= "linkage(language: "@ + self.language@ + ", multiple: "@
                    + bool_text(self.multiple) + ", decls: ["@ + join_texts(
                    decls_texts(dv.take(i + 1)),
                    ", "@,
                ));
            }
            i = i + 1;
        }
        proof {
            assert(dv.take(n as int) =~= dv);
        }
        buf.append("])");
        buf
    }
}

impl Statement {
    /// The text of this statement.
    pub fn dump(&self) -> (r: String)
        ensures
            r@ == stmt_text(self@),
        decreases *self,
    {
        match self {
            Statement::Empty => String::from_str("empty"),
            Statement::Expr(e) => {
                let mut buf = String::from_str("expr(");
                let t = expr_dump(e);
                buf.append(t.as_str());
                buf.append(")");
                buf
            },
            Statement::Compound(ss) => {
                let mut buf = String::from_str("compound([");
                let n = ss.len();
                let mut i: usize = 0;
                let ghost sv = crate::stmt::stmts_v(ss@);
                proof {
                    crate::stmt::lemma_stmts_v_len(ss@);
                }
                while i < n
                    invariant
                        n == ss.len(),
                        0 <= i <= n,
                        sv == crate::stmt::stmts_v(ss@),
                        sv.len() == n,
                        forall|k: int| 0 <= k < n ==> sv[k] == stmt_v(#[trigger] ss@[k]),
                        *self == Statement::Compound(*ss),
                        self@ == StmtV::Compound(sv),
                        buf@ == "compound(["@ + join_texts(stmts_texts(sv.take(i as int)), ", "@),
                    decreases n - i,
                {
                    if i > 0 {
                        buf.append(", ");
                    }
                    proof {
                        assert(decreases_to!(*self => *ss));
                        assert(decreases_to!(*ss => ss@));
                        assert(decreases_to!(ss@ => ss@[i as int]));
                        assert(decreases_to!(*self => ss@[i as int]));
                    }
                    let t = ss[i].dump();
                    buf.append(t.as_str());
                    proof {
                        assert(sv.take(i + 1).drop_last() =~= sv.take(i as int));
                        assert(sv.take(i + 1).last() == sv[i as int]);
                        let ts0 = stmts_texts(sv.take(i as int));
                        assert(stmts_texts(sv.take(i + 1)) == ts0.push(stmt_text(sv[i as int])));
                        assert(ts0.push(stmt_text(sv[i as int])).drop_last() =~= ts0);
                        assert(buf@ =~= "compound(["@ + join_texts(
                            stmts_texts(sv.take(i + 1)),
                            ", "@,
                        ));
                    }
                    i = i + 1;
                }
                proof {
                    assert(sv.take(n as int) =~= sv);
                }
                buf.append("])");
                buf
            },
        }
    }
}

impl Do {
    /// The structural dump of this do-while statement.
    pub fn dump(&self) -> (r: String)
        ensures
            r@ == do_text(self@),
    {
        let mut buf = String::from_str("do(attributes: ");
        let at = opt_attrs_dump(&self.attributes);
        buf.append(at.as_str());
        buf.append(", body: ");
        let bt = self.body.dump();
        buf.append(bt.as_str());
        buf.append(", condition: ");
        let ct = expr_dump(&self.condition);
        buf.append(ct.as_str());
        buf.append(")");
        buf
    }
}

impl Qualified {
    /// The structural dump of this qualified name.
    pub fn dump(&self) -> (r: String)
        ensures
            r@ == "name: "@ + qualified_text(self@),
    {
        let mut buf = String::from_str("name: ");
        let t = self.to_string();
        buf.append(t.as_str());
        buf
    }
}

} // verus!
