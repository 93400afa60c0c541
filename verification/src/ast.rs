use vstd::prelude::*;

use crate::toks::{Tok, TokV};

verus! {

/// A pass-through annotation on a local declaration or an item: its path
/// text and the remaining argument text.
pub struct AttrMarkV {
    pub path: Seq<char>,
    pub args: Seq<char>,
}

#[derive(Debug)]
pub struct AttrMark {
    pub path: String,
    pub args: String,
}

impl AttrMark {
    pub open spec fn v(self) -> AttrMarkV {
        AttrMarkV { path: self.path@, args: self.args@ }
    }
}

pub open spec fn attrs_v(s: Seq<AttrMark>) -> Seq<AttrMarkV> {
    s.map_values(|a: AttrMark| a.v())
}

/// An expression as a method body holds it: verbatim text, a read of a
/// synthesized storage slot, or an embedded compile-time failure carrying a
/// diagnostic message.
pub enum BodyExprV {
    Code(Seq<char>),
    SlotRead(nat),
    Fail(Seq<char>),
}

pub enum BodyExpr {
    Code(String),
    SlotRead(usize),
    Fail(String),
}

impl BodyExpr {
    pub open spec fn v(self) -> BodyExprV {
        match self {
            BodyExpr::Code(s) => BodyExprV::Code(s@),
            BodyExpr::SlotRead(i) => BodyExprV::SlotRead(i as nat),
            BodyExpr::Fail(m) => BodyExprV::Fail(m@),
        }
    }
}

/// The initializer of a local declaration: the expression and, for a
/// `let ... else`, the text of the diverging alternative block.
pub struct LocalInitV {
    pub expr: BodyExprV,
    pub diverge: Option<Seq<char>>,
}

pub struct LocalInit {
    pub expr: BodyExpr,
    pub diverge: Option<String>,
}

impl LocalInit {
    pub open spec fn v(self) -> LocalInitV {
        LocalInitV {
            expr: self.expr.v(),
            diverge: match self.diverge {
                Some(d) => Some(d@),
                None => None,
            },
        }
    }
}

/// A local variable declaration: annotations, the pattern text, the declared
/// type found in the pattern (if any), and the initializer (if any).
pub struct LocalDeclV {
    pub attrs: Seq<AttrMarkV>,
    pub pat: Seq<char>,
    pub ty: Option<Seq<char>>,
    pub init: Option<LocalInitV>,
}

pub struct LocalDecl {
    pub attrs: Vec<AttrMark>,
    pub pat: String,
    pub ty: Option<String>,
    pub init: Option<LocalInit>,
}

impl LocalDecl {
    pub open spec fn v(self) -> LocalDeclV {
        LocalDeclV {
            attrs: attrs_v(self.attrs@),
            pat: self.pat@,
            ty: match self.ty {
                Some(t) => Some(t@),
                None => None,
            },
            init: match self.init {
                Some(i) => Some(i.v()),
                None => None,
            },
        }
    }
}

/// A piece of a statement that is not a local declaration: verbatim text or
/// a nested block, which the hoister enters.
pub enum SegV {
    Text(Seq<char>),
    Sub(BlockV),
}

pub enum StmtV {
    Local(LocalDeclV),
    Other(Seq<SegV>),
}

pub struct BlockV {
    pub stmts: Seq<StmtV>,
}

pub enum Seg {
    Text(String),
    Sub(Block),
}

pub enum Stmt {
    Local(LocalDecl),
    Other(Vec<Seg>),
}

/// A method body: a statement tree.
pub struct Block {
    pub stmts: Vec<Stmt>,
}

impl Block {
    pub open spec fn v(self) -> BlockV
        decreases self,
    {
        BlockV { stmts: stmts_v(self.stmts@) }
    }
}

pub open spec fn stmts_v(ss: Seq<Stmt>) -> Seq<StmtV>
    decreases ss,
{
    if ss.len() == 0 {
        Seq::empty()
    } else {
        stmts_v(ss.drop_last()).push(ss.last().v())
    }
}

impl Stmt {
    pub open spec fn v(self) -> StmtV
        decreases self,
    {
        match self {
            Stmt::Local(l) => StmtV::Local(l.v()),
            Stmt::Other(gs) => StmtV::Other(segs_v(gs@)),
        }
    }
}

pub open spec fn segs_v(gs: Seq<Seg>) -> Seq<SegV>
    decreases gs,
{
    if gs.len() == 0 {
        Seq::empty()
    } else {
        segs_v(gs.drop_last()).push(gs.last().v())
    }
}

impl Seg {
    pub open spec fn v(self) -> SegV
        decreases self,
    {
        match self {
            Seg::Text(t) => SegV::Text(t@),
            Seg::Sub(b) => SegV::Sub(b.v()),
        }
    }
}

pub proof fn lemma_stmts_v(ss: Seq<Stmt>)
    ensures
        stmts_v(ss).len() == ss.len(),
        forall|i: int| 0 <= i < ss.len() ==> stmts_v(ss)[i] == ss[i].v(),
    decreases ss,
{
    if ss.len() > 0 {
        lemma_stmts_v(ss.drop_last());
    }
}

pub proof fn lemma_stmts_v_push(s: Seq<Stmt>, x: Stmt)
    ensures
        stmts_v(s.push(x)) == stmts_v(s).push(x.v()),
{
    assert(s.push(x).drop_last() =~= s);
    assert(s.push(x).last() == x);
}

pub proof fn lemma_segs_v_push(s: Seq<Seg>, x: Seg)
    ensures
        segs_v(s.push(x)) == segs_v(s).push(x.v()),
{
    assert(s.push(x).drop_last() =~= s);
    assert(s.push(x).last() == x);
}

pub proof fn lemma_items_v_push(s: Seq<Item>, x: Item)
    ensures
        items_v(s.push(x)) == items_v(s).push(x.v()),
{
    assert(s.push(x).drop_last() =~= s);
    assert(s.push(x).last() == x);
}

pub proof fn lemma_segs_v(gs: Seq<Seg>)
    ensures
        segs_v(gs).len() == gs.len(),
        forall|i: int| 0 <= i < gs.len() ==> segs_v(gs)[i] == gs[i].v(),
    decreases gs,
{
    if gs.len() > 0 {
        lemma_segs_v(gs.drop_last());
    }
}

/// A method of the interface-implementation unit: everything before the
/// body, kept verbatim, and the body as a statement tree.
pub struct MethodV {
    pub sig: Seq<char>,
    pub body: BlockV,
}

pub struct Method {
    pub sig: String,
    pub body: Block,
}

impl Method {
    pub open spec fn v(self) -> MethodV
        decreases self,
    {
        MethodV { sig: self.sig@, body: self.body.v() }
    }
}

/// A block-level field declaration item: its annotations and the tokens of
/// its `vis? name : type = initializer` payload.
pub struct FieldMacroItemV {
    pub attrs: Seq<AttrMarkV>,
    pub body: Seq<TokV>,
}

pub struct FieldMacroItem {
    pub attrs: Vec<AttrMark>,
    pub body: Vec<Tok>,
}

impl FieldMacroItem {
    pub open spec fn v(self) -> FieldMacroItemV {
        FieldMacroItemV { attrs: attrs_v(self.attrs@), body: crate::toks::toks_v(self.body@) }
    }
}

/// One item of the unit: a method, a block-level field declaration, any
/// other item kept verbatim, or an embedded compile-time failure.
pub enum ItemV {
    Method(MethodV),
    FieldMacro(FieldMacroItemV),
    Passthrough(Seq<char>),
    Fail(Seq<char>),
}

pub enum Item {
    Method(Method),
    FieldMacro(FieldMacroItem),
    Passthrough(String),
    Fail(String),
}

impl Item {
    pub open spec fn v(self) -> ItemV
        decreases self,
    {
        match self {
            Item::Method(m) => ItemV::Method(m.v()),
            Item::FieldMacro(f) => ItemV::FieldMacro(f.v()),
            Item::Passthrough(t) => ItemV::Passthrough(t@),
            Item::Fail(m) => ItemV::Fail(m@),
        }
    }
}

pub open spec fn items_v(s: Seq<Item>) -> Seq<ItemV>
    decreases s,
{
    if s.len() == 0 {
        Seq::empty()
    } else {
        items_v(s.drop_last()).push(s.last().v())
    }
}

pub proof fn lemma_items_v(s: Seq<Item>)
    ensures
        items_v(s).len() == s.len(),
        forall|i: int| 0 <= i < s.len() ==> items_v(s)[i] == s[i].v(),
    decreases s,
{
    if s.len() > 0 {
        lemma_items_v(s.drop_last());
    }
}

/// The interface-implementation unit: its annotations, the verbatim header
/// (everything from `impl` to the opening brace), the subject type's text,
/// its generics split for an `impl`, and the item list.
pub struct UnitV {
    pub attrs: Seq<AttrMarkV>,
    pub header: Seq<char>,
    pub self_ty: Seq<char>,
    pub impl_generics: Seq<char>,
    pub where_clause: Seq<char>,
    pub items: Seq<ItemV>,
}

pub struct Unit {
    pub attrs: Vec<AttrMark>,
    pub header: String,
    pub self_ty: String,
    pub impl_generics: String,
    pub where_clause: String,
    pub items: Vec<Item>,
}

impl Unit {
    pub open spec fn v(self) -> UnitV
        decreases self,
    {
        UnitV {
            attrs: attrs_v(self.attrs@),
            header: self.header@,
            self_ty: self.self_ty@,
            impl_generics: self.impl_generics@,
            where_clause: self.where_clause@,
            items: items_v(self.items@),
        }
    }
}

} // verus!
