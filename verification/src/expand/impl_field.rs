use vstd::prelude::*;
use vstd::string::StringExecFns;

use crate::ast::{attrs_v, items_v, lemma_items_v, lemma_items_v_push, AttrMark, AttrMarkV, Item, ItemV, Unit};
use crate::attr::{
    lemma_parse_arg_bounds, lemma_scan_end, scan_end, spec_parse_arg, vis_at, ParseErr, Vis, VisV,
};
use crate::toks::{toks_text, toks_text_range, toks_v, Tok, TokV};

verus! {

/// One block-level declared field: annotations, visibility, the user-chosen
/// name kept verbatim, the type, and the initializer expression.
pub struct FieldV {
    pub attrs: Seq<AttrMarkV>,
    pub vis: VisV,
    pub name: Seq<char>,
    pub ty: Seq<char>,
    pub init: Seq<char>,
}

#[derive(Debug)]
pub struct Field {
    pub attrs: Vec<AttrMark>,
    pub vis: Vis,
    pub name: String,
    pub ty: String,
    pub init: String,
}

impl Field {
    pub open spec fn v(self) -> FieldV {
        FieldV {
            attrs: attrs_v(self.attrs@),
            vis: self.vis.v(),
            name: self.name@,
            ty: self.ty@,
            init: self.init@,
        }
    }
}

pub open spec fn fields_v(s: Seq<Field>) -> Seq<FieldV> {
    s.map_values(|f: Field| f.v())
}

/// A block-level field declaration parsed from its tokens:
/// `vis? name : type = initializer`. The type runs to the first `=` outside
/// angle brackets; the initializer is everything after it.
pub open spec fn spec_parse_field(ts: Seq<TokV>) -> Result<FieldV, ParseErr> {
    let (v, j) = match vis_at(ts, 0) {
        Some((v, j)) => (v, j),
        None => (VisV::Inherited, 0),
    };
    if j >= ts.len() || !(ts[j] is Ident) {
        Err(ParseErr::ExpectedIdent)
    } else if j + 1 >= ts.len() || !crate::toks::is_punct(ts[j + 1], ':') {
        Err(ParseErr::ExpectedColon)
    } else {
        let k = scan_end(ts, j + 2, 0, false, '=');
        if k == j + 2 {
            Err(ParseErr::ExpectedType)
        } else if k >= ts.len() {
            Err(ParseErr::ExpectedEq)
        } else if k + 1 >= ts.len() {
            Err(ParseErr::ExpectedExpr)
        } else {
            Ok(
                FieldV {
                    attrs: Seq::empty(),
                    vis: v,
                    name: ts[j]->Ident_0,
                    ty: toks_text(ts.subrange(j + 2, k)),
                    init: toks_text(ts.subrange(k + 1, ts.len() as int)),
                },
            )
        }
    }
}

pub open spec fn field_res_v(r: Result<Field, ParseErr>) -> Result<FieldV, ParseErr> {
    match r {
        Ok(f) => Ok(f.v()),
        Err(e) => Err(e),
    }
}

/// A block-level field declaration parsed from a token list.
pub fn parse_field_toks(ts: &Vec<Tok>) -> (r: Result<Field, ParseErr>)
    ensures
        field_res_v(r) == spec_parse_field(toks_v(ts@)),
{
    proof {
        assert(forall|x: int| 0 <= x < ts@.len() ==> toks_v(ts@)[x] == ts@[x].v());
    }
    let (vis, j): (Vis, usize) = match crate::attr::parse_vis_exec(ts, 0) {
        Some((v, j)) => (v, j),
        None => (Vis::Inherited, 0),
    };
    if j >= ts.len() {
        return Err(ParseErr::ExpectedIdent);
    }
    let name: String = match &ts[j] {
        Tok::Ident(s) => s.clone(),
        _ => {
            return Err(ParseErr::ExpectedIdent);
        },
    };
    let colon: bool = if j + 1 >= ts.len() {
        false
    } else {
        match &ts[j + 1] {
            Tok::Punct(c, _) => *c == ':',
            _ => false,
        }
    };
    if !colon {
        return Err(ParseErr::ExpectedColon);
    }
    let k = crate::attr::scan_end_exec(ts, j + 2, '=');
    if k == j + 2 {
        return Err(ParseErr::ExpectedType);
    }
    if k >= ts.len() {
        return Err(ParseErr::ExpectedEq);
    }
    if k + 1 >= ts.len() {
        return Err(ParseErr::ExpectedExpr);
    }
    let ty = toks_text_range(ts, j + 2, k);
    let init = toks_text_range(ts, k + 1, ts.len());
    proof {
        assert(toks_v(ts@.subrange(j + 2, k as int)) =~= toks_v(ts@).subrange(j + 2, k as int));
        assert(toks_v(ts@.subrange(k + 1 as int, ts@.len() as int)) =~= toks_v(ts@).subrange(
            k + 1 as int,
            ts@.len() as int,
        ));
        assert(attrs_v(Seq::<AttrMark>::empty()) =~= Seq::<AttrMarkV>::empty());
    }
    Ok(Field { attrs: Vec::new(), vis, name, ty, init })
}

/// The diagnostic text of a grammar error, embedded where a field
/// declaration does not parse.
pub open spec fn perr_text(e: ParseErr) -> Seq<char> {
    match e {
        ParseErr::NoLex => "attribute arguments do not lex"@,
        ParseErr::ExpectedIdent => "expected ident pattern"@,
        ParseErr::ExpectedColon => "expected `:`"@,
        ParseErr::ExpectedType => "expected a type"@,
        ParseErr::ExpectedEq => "expected `=`"@,
        ParseErr::ExpectedExpr => "expected an initializer expression"@,
    }
}

pub fn perr_string(e: ParseErr) -> (r: String)
    ensures
        r@ == perr_text(e),
{
    match e {
        ParseErr::NoLex => "attribute arguments do not lex".to_owned(),
        ParseErr::ExpectedIdent => "expected ident pattern".to_owned(),
        ParseErr::ExpectedColon => "expected `:`".to_owned(),
        ParseErr::ExpectedType => "expected a type".to_owned(),
        ParseErr::ExpectedEq => "expected `=`".to_owned(),
        ParseErr::ExpectedExpr => "expected an initializer expression".to_owned(),
    }
}

/// The effect of the block-level hoister on one item: a field declaration is
/// removed and collected, or replaced by an embedded failure where it does
/// not parse; every other item is kept.
pub open spec fn spec_impl_item(it: ItemV) -> (Seq<ItemV>, Seq<FieldV>) {
    match it {
        ItemV::FieldMacro(fm) => match spec_parse_field(fm.body) {
            Ok(f) => (
                Seq::empty(),
                seq![
                    FieldV { attrs: fm.attrs, vis: f.vis, name: f.name, ty: f.ty, init: f.init }
                ],
            ),
            Err(e) => (seq![ItemV::Fail(perr_text(e))], Seq::empty()),
        },
        _ => (seq![it], Seq::empty()),
    }
}

/// The block-level hoister over a whole item list, in source order.
pub open spec fn spec_impl_hoist(items: Seq<ItemV>) -> (Seq<ItemV>, Seq<FieldV>)
    decreases items,
{
    if items.len() == 0 {
        (Seq::empty(), Seq::empty())
    } else {
        let h = spec_impl_hoist(items.drop_last());
        let t = spec_impl_item(items.last());
        (h.0 + t.0, h.1 + t.1)
    }
}

/// The block-level field hoister.
pub struct ImplFieldExpander {
    pub fields: Vec<Field>,
}

impl ImplFieldExpander {
    pub fn new() -> (r: Self)
        ensures
            r.fields@.len() == 0,
    {
        ImplFieldExpander { fields: Vec::new() }
    }

    /// Remove every block-level field declaration from the unit's item list,
    /// collecting the declared fields and embedding a failure for each
    /// declaration that does not parse.
    pub fn expand(&mut self, unit: &mut Unit)
        ensures
            ({
                let sp = spec_impl_hoist(items_v(old(unit).items@));
                items_v(final(unit).items@) == sp.0 && fields_v(final(self).fields@) == fields_v(
                    old(self).fields@,
                ) + sp.1
            }),
            final(unit).attrs@ == old(unit).attrs@,
            final(unit).header@ == old(unit).header@,
            final(unit).self_ty@ == old(unit).self_ty@,
            final(unit).impl_generics@ == old(unit).impl_generics@,
            final(unit).where_clause@ == old(unit).where_clause@,
    {
        let mut rest: Vec<Item> = Vec::new();
        core::mem::swap(&mut unit.items, &mut rest);
        let ghost items0 = rest@;
        let ghost iv = items_v(items0);
        let ghost fields0 = self.fields@;
        proof {
            lemma_items_v(items0);
        }
        let mut out: Vec<Item> = Vec::new();
        while rest.len() > 0
            invariant
                rest@.len() <= items0.len(),
                rest@ == items0.subrange(
                    items0.len() - rest@.len(),
                    items0.len() as int,
                ),
                iv == items_v(items0),
                iv.len() == items0.len(),
                forall|x: int| 0 <= x < items0.len() ==> iv[x] == items0[x].v(),
                ({
                    let done = items0.len() - rest@.len();
                    let sp = spec_impl_hoist(iv.take(done as int));
                    items_v(out@) == sp.0 && fields_v(self.fields@) == fields_v(fields0) + sp.1
                }),
            decreases rest@.len(),
        {
            let ghost done = items0.len() - rest@.len();
            let ghost sp_before = spec_impl_hoist(iv.take(done as int));
            let it = rest.remove(0);
            proof {
                assert(it == items0[done as int]);
                assert(rest@ =~= items0.subrange(done + 1, items0.len() as int));
            }
            let ghost itv = items0[done as int].v();
            let ghost fields_pre = self.fields@;
            let ghost out_pre = out@;
            match it {
                Item::FieldMacro(fm) => {
                    let ghost fmg = fm;
                    match parse_field_toks(&fm.body) {
                        Ok(f) => {
                            let field = Field {
                                attrs: fm.attrs,
                                vis: f.vis,
                                name: f.name,
                                ty: f.ty,
                                init: f.init,
                            };
                            let ghost fg = field;
                            self.fields.push(field);
                            proof {
                                let t = spec_impl_item(itv);
                                assert(fields_v(self.fields@) =~= fields_v(fields_pre).push(
                                    fg.v(),
                                ));
                                assert(fg.v() == t.1[0]);
                                assert(fields_v(fields_pre).push(fg.v()) =~= fields_v(fields_pre)
                                    + t.1);
                                assert(items_v(out@) =~= items_v(out@) + t.0);
                            }
                        },
                        Err(e) => {
                            let msg = perr_string(e);
                            let ghost msgg = msg;
                            out.push(Item::Fail(msg));
                            proof {
                                let t = spec_impl_item(itv);
                                lemma_items_v_push(out_pre, Item::Fail(msgg));
                                assert(items_v(out_pre).push(ItemV::Fail(perr_text(e)))
                                    =~= items_v(out_pre) + t.0);
                                assert(fields_v(self.fields@) =~= fields_v(self.fields@) + t.1);
                            }
                        },
                    }
                },
                other => {
                    let ghost og = other;
                    out.push(other);
                    proof {
                        let t = spec_impl_item(itv);
                        lemma_items_v_push(out_pre, og);
                        assert(items_v(out_pre).push(itv) =~= items_v(out_pre) + t.0);
                        assert(fields_v(self.fields@) =~= fields_v(self.fields@) + t.1);
                    }
                },
            }
            proof {
                assert(iv.take(done + 1).drop_last() =~= iv.take(done as int));
                assert(iv.take(done + 1).last() == itv);
                let sp = spec_impl_hoist(iv.take(done + 1));
                let t = spec_impl_item(itv);
                assert(sp.0 == sp_before.0 + t.0);
                assert(sp.1 == sp_before.1 + t.1);
                assert(items_v(out@) == items_v(out_pre) + t.0);
                assert(sp_before.0 + t.0 == sp.0);
                assert(items_v(out@) == sp.0);
                assert(fields_v(self.fields@) == fields_v(fields_pre) + t.1);
                assert(fields_v(fields0) + sp_before.1 + t.1 =~= fields_v(fields0) + sp.1);
            }
        }
        proof {
            assert(iv.take(items0.len() as int) =~= iv);
        }
        unit.items = out;
    }
}

} // verus!
