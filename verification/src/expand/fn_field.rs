use vstd::prelude::*;
use vstd::string::StringExecFns;

use crate::ast::{
    attrs_v, lemma_segs_v, lemma_stmts_v, segs_v, stmts_v, AttrMark, AttrMarkV, Block, BlockV,
    BodyExpr, BodyExprV, LocalDecl, LocalDeclV, LocalInit, LocalInitV, Seg, SegV, Stmt, StmtV,
};
use crate::digits::{dec_digits, dec_string};

verus! {

/// The reserved prefix of every synthesized member name. No user-visible
/// name is expected to carry it.
pub open spec fn slot_prefix() -> Seq<char> {
    "__internal_do_not_use_or_you_will_be_fired_"@
}

/// The member name of the hoisted field in storage slot `i`.
pub open spec fn slot_name(i: nat) -> Seq<char> {
    slot_prefix() + dec_digits(i)
}

/// The position-derived index of one hoisted field.
pub struct IndexIdent(pub usize);

impl IndexIdent {
    /// The member name derived from this index.
    pub fn ident(&self) -> (r: String)
        ensures
            r@ == slot_name(self.0 as nat),
    {
        let mut s = "__internal_do_not_use_or_you_will_be_fired_".to_owned();
        let d = dec_string(self.0);
        s.append(d.as_str());
        s
    }
}

/// One hoisted-local field: the annotations written after the marker, the
/// storage slot index, the declared type, and the initializer expression
/// (to be evaluated once, at construction).
pub struct FieldV {
    pub attrs: Seq<AttrMarkV>,
    pub idx: nat,
    pub ty: Seq<char>,
    pub init: BodyExprV,
}

pub struct Field {
    pub attrs: Vec<AttrMark>,
    pub idx: IndexIdent,
    pub ty: String,
    pub init: BodyExpr,
}

impl Field {
    pub open spec fn v(self) -> FieldV {
        FieldV { attrs: attrs_v(self.attrs@), idx: self.idx.0 as nat, ty: self.ty@, init: self.init.v() }
    }
}

pub open spec fn fields_v(s: Seq<Field>) -> Seq<FieldV> {
    s.map_values(|f: Field| f.v())
}

/// The marker annotation that asks for hoisting.
pub open spec fn is_marker(a: AttrMarkV) -> bool {
    a.path == "field"@
}

/// The first marker annotation at or after `i`, or the length where there
/// is none.
pub open spec fn first_marker(attrs: Seq<AttrMarkV>, i: int) -> int
    decreases attrs.len() - i,
{
    if i < 0 || i >= attrs.len() {
        attrs.len() as int
    } else if is_marker(attrs[i]) {
        i
    } else {
        first_marker(attrs, i + 1)
    }
}

pub proof fn lemma_first_marker(attrs: Seq<AttrMarkV>, i: int)
    requires
        0 <= i <= attrs.len(),
    ensures
        i <= first_marker(attrs, i) <= attrs.len(),
        first_marker(attrs, i) < attrs.len() ==> is_marker(attrs[first_marker(attrs, i)]),
        forall|j: int| i <= j < first_marker(attrs, i) ==> !is_marker(attrs[j]),
    decreases attrs.len() - i,
{
    if i < attrs.len() && !is_marker(attrs[i]) {
        lemma_first_marker(attrs, i + 1);
    }
}

pub open spec fn msg_no_type() -> Seq<char> {
    "field must have an explicit type"@
}

pub open spec fn msg_no_init() -> Seq<char> {
    "field must have an initializer"@
}

pub open spec fn msg_diverge() -> Seq<char> {
    "field initializer cannot diverge"@
}

/// A local declaration with its initializer replaced by an embedded
/// compile-time failure; everything else is kept.
pub open spec fn local_with_fail(l: LocalDeclV, msg: Seq<char>) -> LocalDeclV {
    LocalDeclV {
        attrs: l.attrs,
        pat: l.pat,
        ty: l.ty,
        init: Some(LocalInitV { expr: BodyExprV::Fail(msg), diverge: None }),
    }
}

/// The hoisting of one local declaration, `next` being the next free slot.
/// An unmarked local is kept as it is. A marked local without a declared
/// type, without an initializer, or with a diverging initializer keeps its
/// place with an embedded failure and yields no field. Otherwise the
/// declaration is rebound to read from its storage slot and the field is
/// collected, carrying the annotations written after the marker; those
/// before it stay on the declaration.
pub open spec fn spec_hoist_local(l: LocalDeclV, next: nat) -> (StmtV, Seq<FieldV>) {
    let k = first_marker(l.attrs, 0);
    if k == l.attrs.len() {
        (StmtV::Local(l), Seq::empty())
    } else if l.ty is None {
        (StmtV::Local(local_with_fail(l, msg_no_type())), Seq::empty())
    } else if l.init is None {
        (StmtV::Local(local_with_fail(l, msg_no_init())), Seq::empty())
    } else if l.init.unwrap().diverge is Some {
        (StmtV::Local(local_with_fail(l, msg_diverge())), Seq::empty())
    } else {
        (
            StmtV::Local(
                LocalDeclV {
                    attrs: l.attrs.take(k),
                    pat: l.pat,
                    ty: l.ty,
                    init: Some(LocalInitV { expr: BodyExprV::SlotRead(next), diverge: None }),
                },
            ),
            seq![
                FieldV {
                    attrs: l.attrs.skip(k + 1),
                    idx: next,
                    ty: l.ty.unwrap(),
                    init: l.init.unwrap().expr,
                }
            ],
        )
    }
}

/// Hoisting over a whole statement tree. Fields are numbered in strictly
/// increasing discovery order: each function returns the rewritten tree and
/// the fields it collected, and a sibling coming later starts numbering
/// after them.
pub open spec fn spec_hoist_block(b: BlockV, next: nat) -> (BlockV, Seq<FieldV>)
    decreases b,
{
    let r = spec_hoist_stmts(b.stmts, next);
    (BlockV { stmts: r.0 }, r.1)
}

pub open spec fn spec_hoist_stmts(ss: Seq<StmtV>, next: nat) -> (Seq<StmtV>, Seq<FieldV>)
    decreases ss,
{
    if ss.len() == 0 {
        (Seq::empty(), Seq::empty())
    } else {
        let h = spec_hoist_stmts(ss.drop_last(), next);
        let t = spec_hoist_stmt(ss.last(), next + h.1.len());
        (h.0.push(t.0), h.1 + t.1)
    }
}

pub open spec fn spec_hoist_stmt(s: StmtV, next: nat) -> (StmtV, Seq<FieldV>)
    decreases s,
{
    match s {
        StmtV::Local(l) => spec_hoist_local(l, next),
        StmtV::Other(gs) => {
            let r = spec_hoist_segs(gs, next);
            (StmtV::Other(r.0), r.1)
        },
    }
}

pub open spec fn spec_hoist_segs(gs: Seq<SegV>, next: nat) -> (Seq<SegV>, Seq<FieldV>)
    decreases gs,
{
    if gs.len() == 0 {
        (Seq::empty(), Seq::empty())
    } else {
        let h = spec_hoist_segs(gs.drop_last(), next);
        let t = spec_hoist_seg(gs.last(), next + h.1.len());
        (h.0.push(t.0), h.1 + t.1)
    }
}

pub open spec fn spec_hoist_seg(g: SegV, next: nat) -> (SegV, Seq<FieldV>)
    decreases g,
{
    match g {
        SegV::Text(t) => (SegV::Text(t), Seq::empty()),
        SegV::Sub(b) => {
            let r = spec_hoist_block(b, next);
            (SegV::Sub(r.0), r.1)
        },
    }
}

impl Clone for AttrMark {
    fn clone(&self) -> (r: Self)
        ensures
            r.v() == self.v(),
    {
        AttrMark { path: self.path.clone(), args: self.args.clone() }
    }
}

impl Clone for BodyExpr {
    fn clone(&self) -> (r: Self)
        ensures
            r.v() == self.v(),
    {
        match self {
            BodyExpr::Code(s) => BodyExpr::Code(s.clone()),
            BodyExpr::SlotRead(i) => BodyExpr::SlotRead(*i),
            BodyExpr::Fail(m) => BodyExpr::Fail(m.clone()),
        }
    }
}

impl Clone for LocalInit {
    fn clone(&self) -> (r: Self)
        ensures
            r.v() == self.v(),
    {
        LocalInit {
            expr: self.expr.clone(),
            diverge: match &self.diverge {
                Some(d) => Some(d.clone()),
                None => None,
            },
        }
    }
}

fn clone_attrs_range(attrs: &Vec<AttrMark>, from: usize, to: usize) -> (r: Vec<AttrMark>)
    requires
        from <= to <= attrs@.len(),
    ensures
        attrs_v(r@) == attrs_v(attrs@.subrange(from as int, to as int)),
{
    let mut r: Vec<AttrMark> = Vec::new();
    let mut i = from;
    while i < to
        invariant
            from <= i <= to <= attrs@.len(),
            attrs_v(r@) == attrs_v(attrs@.subrange(from as int, i as int)),
        decreases to - i,
    {
        let c = attrs[i].clone();
        let ghost cg = c;
        let ghost r_before = r@;
        r.push(c);
        proof {
            assert(attrs_v(r@) =~= attrs_v(r_before).push(cg.v()));
            assert(attrs_v(attrs@.subrange(from as int, i + 1 as int)) =~= attrs_v(
                attrs@.subrange(from as int, i as int),
            ).push(attrs@[i as int].v()));
        }
        i = i + 1;
    }
    r
}

fn clone_opt_string(s: &Option<String>) -> (r: Option<String>)
    ensures
        (match (r, s) {
            (Some(a), Some(b)) => a@ == b@,
            (None, None) => true,
            _ => false,
        }),
{
    match s {
        Some(t) => Some(t.clone()),
        None => None,
    }
}

fn clone_local(l: &LocalDecl) -> (r: LocalDecl)
    ensures
        r.v() == l.v(),
{
    let r = LocalDecl {
        attrs: clone_attrs_range(&l.attrs, 0, l.attrs.len()),
        pat: l.pat.clone(),
        ty: clone_opt_string(&l.ty),
        init: match &l.init {
            Some(i) => Some(i.clone()),
            None => None,
        },
    };
    proof {
        assert(l.attrs@.subrange(0, l.attrs@.len() as int) =~= l.attrs@);
    }
    r
}

fn find_marker_exec(attrs: &Vec<AttrMark>) -> (r: usize)
    ensures
        r == first_marker(attrs_v(attrs@), 0),
        r <= attrs@.len(),
{
    proof {
        assert(forall|x: int| 0 <= x < attrs@.len() ==> attrs_v(attrs@)[x] == attrs@[x].v());
    }
    let ghost av = attrs_v(attrs@);
    let marker_word = "field".to_owned();
    let mut i: usize = 0;
    while i < attrs.len()
        invariant
            0 <= i <= attrs@.len(),
            av == attrs_v(attrs@),
            av.len() == attrs@.len(),
            marker_word@ == "field"@,
            forall|x: int| 0 <= x < attrs@.len() ==> av[x] == attrs@[x].v(),
            first_marker(av, 0) == first_marker(av, i as int),
        decreases attrs@.len() - i,
    {
        if attrs[i].path == marker_word {
            proof {
                assert(is_marker(av[i as int]));
                assert(first_marker(av, i as int) == i as int);
            }
            return i;
        }
        proof {
            assert(!is_marker(av[i as int]));
            assert(first_marker(av, i as int) == first_marker(av, i + 1 as int));
        }
        i = i + 1;
    }
    i
}

/// The hoisting of one local declaration; the next free slot is the number
/// of fields collected so far.
fn hoist_local_exec(l: &LocalDecl, fields: &mut Vec<Field>) -> (r: Stmt)
    ensures
        ({
            let s = spec_hoist_local(l.v(), old(fields)@.len() as nat);
            r.v() == s.0 && fields_v(final(fields)@) == fields_v(old(fields)@) + s.1
        }),
{
    let k = find_marker_exec(&l.attrs);
    if k == l.attrs.len() {
        proof {
            assert(fields_v(fields@) =~= fields_v(fields@) + Seq::<FieldV>::empty());
        }
        return Stmt::Local(clone_local(l));
    }
    let has_ty = match &l.ty {
        Some(_) => true,
        None => false,
    };
    let (has_init, diverges): (bool, bool) = match &l.init {
        Some(i) => (
            true,
            match &i.diverge {
                Some(_) => true,
                None => false,
            },
        ),
        None => (false, false),
    };
    if !has_ty || !has_init || diverges {
        let msg: &str = if !has_ty {
            "field must have an explicit type"
        } else if !has_init {
            "field must have an initializer"
        } else {
            "field initializer cannot diverge"
        };
        let r = Stmt::Local(
            LocalDecl {
                attrs: clone_attrs_range(&l.attrs, 0, l.attrs.len()),
                pat: l.pat.clone(),
                ty: clone_opt_string(&l.ty),
                init: Some(LocalInit { expr: BodyExpr::Fail(msg.to_owned()), diverge: None }),
            },
        );
        proof {
            assert(l.attrs@.subrange(0, l.attrs@.len() as int) =~= l.attrs@);
            assert(fields_v(fields@) =~= fields_v(fields@) + Seq::<FieldV>::empty());
        }
        return r;
    }
    let n = fields.len();
    let (ty, init_expr): (String, BodyExpr) = match (&l.ty, &l.init) {
        (Some(t), Some(i)) => (t.clone(), i.expr.clone()),
        _ => {
            proof {
                assert(false);
            }
            (String::new(), BodyExpr::SlotRead(0))
        },
    };
    let field = Field {
        attrs: clone_attrs_range(&l.attrs, k + 1, l.attrs.len()),
        idx: IndexIdent(n),
        ty,
        init: init_expr,
    };
    let ghost before = fields@;
    fields.push(field);
    let r = Stmt::Local(
        LocalDecl {
            attrs: clone_attrs_range(&l.attrs, 0, k),
            pat: l.pat.clone(),
            ty: clone_opt_string(&l.ty),
            init: Some(LocalInit { expr: BodyExpr::SlotRead(n), diverge: None }),
        },
    );
    proof {
        let s = spec_hoist_local(l.v(), before.len() as nat);
        assert(attrs_v(l.attrs@.subrange(k + 1, l.attrs@.len() as int)) =~= l.v().attrs.skip(
            k + 1,
        ));
        assert(attrs_v(l.attrs@.subrange(0, k as int)) =~= l.v().attrs.take(k as int));
        assert(fields_v(fields@) =~= fields_v(before) + s.1);
    }
    r
}

/// Hoisting over one statement.
fn hoist_stmt_exec(s: &Stmt, fields: &mut Vec<Field>) -> (r: Stmt)
    ensures
        ({
            let sp = spec_hoist_stmt(s.v(), old(fields)@.len() as nat);
            r.v() == sp.0 && fields_v(final(fields)@) == fields_v(old(fields)@) + sp.1
        }),
    decreases s,
{
    match s {
        Stmt::Local(l) => hoist_local_exec(l, fields),
        Stmt::Other(gs) => {
            let ghost n0 = fields@.len() as nat;
            let ghost fields0 = fields@;
            let ghost gsv = segs_v(gs@);
            proof {
                lemma_segs_v(gs@);
            }
            let mut out: Vec<Seg> = Vec::new();
            let mut j: usize = 0;
            while j < gs.len()
                invariant
                    0 <= j <= gs@.len(),
                    gsv == segs_v(gs@),
                    gsv.len() == gs@.len(),
                    n0 == fields0.len(),
                    *s == Stmt::Other(*gs),
                    forall|x: int| 0 <= x < gs@.len() ==> gsv[x] == gs@[x].v(),
                    ({
                        let sp = spec_hoist_segs(gsv.take(j as int), n0);
                        segs_v(out@) == sp.0 && fields_v(fields@) == fields_v(fields0) + sp.1
                    }),
                decreases gs@.len() - j,
            {
                let ghost sp_before = spec_hoist_segs(gsv.take(j as int), n0);
                let ghost fields_pre = fields@;
                proof {
                    assert(fields@.len() == fields0.len() + sp_before.1.len()) by {
                        assert(fields_v(fields@).len() == fields@.len());
                        assert(fields_v(fields0).len() == fields0.len());
                    }
                    assert(decreases_to!(*s => s->Other_0));
                    assert(decreases_to!(s->Other_0 => gs@));
                    assert(decreases_to!(gs@ => gs@[j as int]));
                }
                let g2 = hoist_seg_exec(&gs[j], fields);
                let ghost g2g = g2;
                let ghost out_before = out@;
                out.push(g2);
                proof {
                    crate::ast::lemma_segs_v_push(out_before, g2g);
                    assert(gsv.take(j + 1 as int).drop_last() =~= gsv.take(j as int));
                    assert(gsv.take(j + 1 as int).last() == gsv[j as int]);
                    let t = spec_hoist_seg(gsv[j as int], n0 + sp_before.1.len());
                    let sp = spec_hoist_segs(gsv.take(j + 1 as int), n0);
                    assert(sp.0 == sp_before.0.push(t.0));
                    assert(sp.1 == sp_before.1 + t.1);
                    assert(gsv[j as int] == gs@[j as int].v());
                    assert(fields_pre.len() as nat == n0 + sp_before.1.len());
                    assert(g2g.v() == t.0);
                    assert(fields_v(fields@) == fields_v(fields_pre) + t.1);
                    assert(fields_v(fields0) + sp_before.1 + t.1 =~= fields_v(fields0) + sp.1);
                }
                j = j + 1;
            }
            proof {
                assert(gsv.take(gs@.len() as int) =~= gsv);
            }
            Stmt::Other(out)
        },
    }
}

/// Hoisting over one segment of a statement: verbatim text is kept, a
/// nested block is entered.
fn hoist_seg_exec(g: &Seg, fields: &mut Vec<Field>) -> (r: Seg)
    ensures
        ({
            let sp = spec_hoist_seg(g.v(), old(fields)@.len() as nat);
            r.v() == sp.0 && fields_v(final(fields)@) == fields_v(old(fields)@) + sp.1
        }),
    decreases g,
{
    match g {
        Seg::Text(t) => {
            proof {
                assert(fields_v(fields@) =~= fields_v(fields@) + Seq::<FieldV>::empty());
            }
            Seg::Text(t.clone())
        },
        Seg::Sub(b) => Seg::Sub(hoist_block_exec(b, fields)),
    }
}

/// Hoisting over a whole method body.
fn hoist_block_exec(b: &Block, fields: &mut Vec<Field>) -> (r: Block)
    ensures
        ({
            let sp = spec_hoist_block(b.v(), old(fields)@.len() as nat);
            r.v() == sp.0 && fields_v(final(fields)@) == fields_v(old(fields)@) + sp.1
        }),
    decreases b,
{
    let ghost n0 = fields@.len() as nat;
    let ghost fields0 = fields@;
    let ghost ssv = stmts_v(b.stmts@);
    proof {
        lemma_stmts_v(b.stmts@);
    }
    let mut out: Vec<Stmt> = Vec::new();
    let mut i: usize = 0;
    while i < b.stmts.len()
        invariant
            0 <= i <= b.stmts@.len(),
            ssv == stmts_v(b.stmts@),
            ssv.len() == b.stmts@.len(),
            n0 == fields0.len(),
            forall|x: int| 0 <= x < b.stmts@.len() ==> ssv[x] == b.stmts@[x].v(),
            ({
                let sp = spec_hoist_stmts(ssv.take(i as int), n0);
                stmts_v(out@) == sp.0 && fields_v(fields@) == fields_v(fields0) + sp.1
            }),
        decreases b.stmts@.len() - i,
    {
        let ghost sp_before = spec_hoist_stmts(ssv.take(i as int), n0);
        let ghost fields_pre = fields@;
        proof {
            assert(fields@.len() == fields0.len() + sp_before.1.len()) by {
                assert(fields_v(fields@).len() == fields@.len());
                assert(fields_v(fields0).len() == fields0.len());
            }
            assert(decreases_to!(*b => b.stmts));
            assert(decreases_to!(b.stmts => b.stmts@));
            assert(decreases_to!(b.stmts@ => b.stmts@[i as int]));
        }
        let s2 = hoist_stmt_exec(&b.stmts[i], fields);
        let ghost s2g = s2;
        let ghost out_before = out@;
        out.push(s2);
        proof {
            crate::ast::lemma_stmts_v_push(out_before, s2g);
            assert(ssv.take(i + 1 as int).drop_last() =~= ssv.take(i as int));
            assert(ssv.take(i + 1 as int).last() == ssv[i as int]);
            let t = spec_hoist_stmt(ssv[i as int], n0 + sp_before.1.len());
            let sp = spec_hoist_stmts(ssv.take(i + 1 as int), n0);
            assert(sp.0 == sp_before.0.push(t.0));
            assert(sp.1 == sp_before.1 + t.1);
            assert(ssv[i as int] == b.stmts@[i as int].v());
            assert(fields_pre.len() as nat == n0 + sp_before.1.len());
            assert(s2g.v() == t.0);
            assert(fields_v(fields@) == fields_v(fields_pre) + t.1);
            assert(fields_v(fields0) + sp_before.1 + t.1 =~= fields_v(fields0) + sp.1);
        }
        i = i + 1;
    }
    proof {
        assert(ssv.take(b.stmts@.len() as int) =~= ssv);
    }
    Block { stmts: out }
}

/// The local-binding hoister: it accumulates the hoisted fields of every
/// method body it is run over, numbering them across bodies.
pub struct FnFieldExpander {
    pub fields: Vec<Field>,
}

impl FnFieldExpander {
    pub fn new() -> (r: Self)
        ensures
            r.fields@.len() == 0,
    {
        FnFieldExpander { fields: Vec::new() }
    }

    /// Hoist every marked local declaration of one method body, rewriting
    /// the body in place and collecting the fields.
    pub fn expand(&mut self, block: &mut Block)
        ensures
            ({
                let sp = spec_hoist_block(old(block).v(), old(self).fields@.len() as nat);
                final(block).v() == sp.0 && fields_v(final(self).fields@) == fields_v(
                    old(self).fields@,
                ) + sp.1
            }),
    {
        let mut tmp = Block { stmts: Vec::new() };
        core::mem::swap(block, &mut tmp);
        let out = hoist_block_exec(&tmp, &mut self.fields);
        *block = out;
    }
}

} // verus!
