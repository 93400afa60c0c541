use vstd::prelude::*;
use vstd::string::StringExecFns;

use crate::ast::{
    items_v, lemma_items_v, lemma_segs_v, lemma_stmts_v, segs_v, stmts_v, Block, BlockV, Item,
    ItemV, LocalDecl, LocalDeclV, Method, MethodV, Seg, SegV, Stmt, StmtV, Unit, UnitV,
};
use crate::attr::{spec_parse_attr, Attr, AttrV, ParseErr};
use crate::expand::fn_field::{spec_hoist_block, FnFieldExpander};
use crate::expand::impl_field::{spec_impl_hoist, ImplFieldExpander};
use crate::gen::{
    attrs_text, expr_text, gen_fields_v, render_gen, spec_of_decl, spec_of_hoisted, Gen, GenV,
};
use crate::toks::{lex_of, toks_text, toks_text_range};

verus! {

/// The local-binding hoister over one item: it enters a method's body;
/// anything else passes through.
pub open spec fn fn_hoist_item(it: ItemV, next: nat) -> (ItemV, Seq<crate::expand::fn_field::FieldV>) {
    match it {
        ItemV::Method(m) => {
            let r = spec_hoist_block(m.body, next);
            (ItemV::Method(MethodV { sig: m.sig, body: r.0 }), r.1)
        },
        _ => (it, Seq::empty()),
    }
}

/// The local-binding hoister over the whole item list, methods in declared
/// order, one slot numbering across all of them.
pub open spec fn fn_hoist_items(items: Seq<ItemV>, next: nat) -> (
    Seq<ItemV>,
    Seq<crate::expand::fn_field::FieldV>,
)
    decreases items.len(),
{
    if items.len() == 0 {
        (Seq::empty(), Seq::empty())
    } else {
        let h = fn_hoist_items(items.drop_last(), next);
        let t = fn_hoist_item(items.last(), next + h.1.len());
        (h.0.push(t.0), h.1 + t.1)
    }
}

/// The merged member list: block-declared fields first (in source order),
/// then hoisted-local fields (in discovery order).
pub open spec fn gen_fields_of(
    decls: Seq<crate::expand::impl_field::FieldV>,
    hoisted: Seq<crate::expand::fn_field::FieldV>,
) -> Seq<crate::gen::FieldV> {
    decls.map_values(|f: crate::expand::impl_field::FieldV| spec_of_decl(f)) + hoisted.map_values(
        |f: crate::expand::fn_field::FieldV| spec_of_hoisted(f),
    )
}

/// Everything the synthesizer is handed for one unit.
pub open spec fn spec_gen(a: AttrV, u: UnitV) -> GenV {
    let ih = spec_impl_hoist(u.items);
    let fh = fn_hoist_items(ih.0, 0);
    GenV {
        struct_attrs: u.attrs,
        attr: a,
        ty: u.self_ty,
        impl_generics: u.impl_generics,
        where_clause: u.where_clause,
        fields: gen_fields_of(ih.1, fh.1),
    }
}

/// The unit's items after both hoisters have run.
pub open spec fn spec_rewritten_items(u: UnitV) -> Seq<ItemV> {
    fn_hoist_items(spec_impl_hoist(u.items).0, 0).0
}

/// The text of a rewritten local declaration.
pub open spec fn local_text(l: LocalDeclV) -> Seq<char> {
    attrs_text(l.attrs) + "let "@ + l.pat + (match l.ty {
        Some(t) => " : "@ + t,
        None => Seq::empty(),
    }) + (match l.init {
        Some(i) => " = "@ + expr_text(i.expr) + (match i.diverge {
            Some(d) => " else "@ + d,
            None => Seq::empty(),
        }),
        None => Seq::empty(),
    }) + " ;\n"@
}

pub open spec fn seg_text(g: SegV) -> Seq<char>
    decreases g,
{
    match g {
        SegV::Text(t) => t,
        SegV::Sub(b) => block_text(b),
    }
}

pub open spec fn segs_text(gs: Seq<SegV>) -> Seq<char>
    decreases gs,
{
    if gs.len() == 0 {
        Seq::empty()
    } else {
        segs_text(gs.drop_last()) + seg_text(gs.last())
    }
}

pub open spec fn stmt_text(s: StmtV) -> Seq<char>
    decreases s,
{
    match s {
        StmtV::Local(l) => local_text(l),
        StmtV::Other(gs) => segs_text(gs) + "\n"@,
    }
}

pub open spec fn stmts_text(ss: Seq<StmtV>) -> Seq<char>
    decreases ss,
{
    if ss.len() == 0 {
        Seq::empty()
    } else {
        stmts_text(ss.drop_last()) + stmt_text(ss.last())
    }
}

pub open spec fn block_text(b: BlockV) -> Seq<char>
    decreases b,
{
    "{\n"@ + stmts_text(b.stmts) + "}"@
}

pub open spec fn item_text(it: ItemV) -> Seq<char>
    decreases it,
{
    match it {
        ItemV::Method(m) => m.sig + " "@ + block_text(m.body) + "\n"@,
        ItemV::FieldMacro(fm) => attrs_text(fm.attrs) + "field! ("@ + toks_text(fm.body)
            + ") ;\n"@,
        ItemV::Passthrough(t) => t + "\n"@,
        ItemV::Fail(m) => "::core::compile_error! { \""@ + m + "\" }\n"@,
    }
}

pub open spec fn items_text(items: Seq<ItemV>) -> Seq<char>
    decreases items,
{
    if items.len() == 0 {
        Seq::empty()
    } else {
        items_text(items.drop_last()) + item_text(items.last())
    }
}

/// The rewritten unit, written back out: its verbatim header, then its items
/// inside braces. The unit's annotations have moved onto the record type.
pub open spec fn unit_text(header: Seq<char>, items: Seq<ItemV>) -> Seq<char> {
    header + " {\n"@ + items_text(items) + "}\n"@
}

/// The whole emitted output for one unit: the synthesized type definition,
/// then the rewritten unit.
pub open spec fn spec_transform(a: AttrV, u: UnitV) -> Seq<char> {
    render_gen(spec_gen(a, u)) + "\n"@ + unit_text(u.header, spec_rewritten_items(u))
}

fn append_local(out: &mut String, l: &LocalDecl)
    ensures
        final(out)@ == old(out)@ + local_text(l.v()),
{
    crate::gen::append_attrs(out, &l.attrs);
    out.append("let ");
    out.append(l.pat.as_str());
    match &l.ty {
        Some(t) => {
            out.append(" : ");
            out.append(t.as_str());
        },
        None => {},
    }
    match &l.init {
        Some(i) => {
            out.append(" = ");
            crate::gen::append_expr(out, &i.expr);
            match &i.diverge {
                Some(d) => {
                    out.append(" else ");
                    out.append(d.as_str());
                },
                None => {},
            }
        },
        None => {},
    }
    out.append(" ;\n");
}

fn append_stmt(out: &mut String, s: &Stmt)
    ensures
        final(out)@ == old(out)@ + stmt_text(s.v()),
    decreases s,
{
    match s {
        Stmt::Local(l) => append_local(out, l),
        Stmt::Other(gs) => {
            let ghost gsv = segs_v(gs@);
            let ghost start = out@;
            proof {
                lemma_segs_v(gs@);
            }
            let mut j: usize = 0;
            while j < gs.len()
                invariant
                    0 <= j <= gs@.len(),
                    gsv == segs_v(gs@),
                    gsv.len() == gs@.len(),
                    *s == Stmt::Other(*gs),
                    forall|x: int| 0 <= x < gs@.len() ==> gsv[x] == gs@[x].v(),
                    out@ == start + segs_text(gsv.take(j as int)),
                decreases gs@.len() - j,
            {
                proof {
                    assert(decreases_to!(*s => s->Other_0));
                    assert(decreases_to!(s->Other_0 => gs@));
                    assert(decreases_to!(gs@ => gs@[j as int]));
                }
                append_seg(out, &gs[j]);
                proof {
                    assert(gsv.take(j + 1 as int).drop_last() =~= gsv.take(j as int));
                    assert(gsv.take(j + 1 as int).last() == gsv[j as int]);
                    assert(out@ =~= start + segs_text(gsv.take(j + 1 as int)));
                }
                j = j + 1;
            }
            proof {
                assert(gsv.take(gsv.len() as int) =~= gsv);
            }
            out.append("\n");
        },
    }
}

fn append_seg(out: &mut String, g: &Seg)
    ensures
        final(out)@ == old(out)@ + seg_text(g.v()),
    decreases g,
{
    match g {
        Seg::Text(t) => out.append(t.as_str()),
        Seg::Sub(b) => append_block(out, b),
    }
}

fn append_block(out: &mut String, b: &Block)
    ensures
        final(out)@ == old(out)@ + block_text(b.v()),
    decreases b,
{
    out.append("{\n");
    let ghost ssv = stmts_v(b.stmts@);
    let ghost start = out@;
    proof {
        lemma_stmts_v(b.stmts@);
    }
    let mut i: usize = 0;
    while i < b.stmts.len()
        invariant
            0 <= i <= b.stmts@.len(),
            ssv == stmts_v(b.stmts@),
            ssv.len() == b.stmts@.len(),
            forall|x: int| 0 <= x < b.stmts@.len() ==> ssv[x] == b.stmts@[x].v(),
            out@ == start + stmts_text(ssv.take(i as int)),
        decreases b.stmts@.len() - i,
    {
        proof {
            assert(decreases_to!(*b => b.stmts));
            assert(decreases_to!(b.stmts => b.stmts@));
            assert(decreases_to!(b.stmts@ => b.stmts@[i as int]));
        }
        append_stmt(out, &b.stmts[i]);
        proof {
            assert(ssv.take(i + 1 as int).drop_last() =~= ssv.take(i as int));
            assert(ssv.take(i + 1 as int).last() == ssv[i as int]);
            assert(out@ =~= start + stmts_text(ssv.take(i + 1 as int)));
        }
        i = i + 1;
    }
    proof {
        assert(ssv.take(ssv.len() as int) =~= ssv);
    }
    out.append("}");
}

fn append_item(out: &mut String, it: &Item)
    ensures
        final(out)@ == old(out)@ + item_text(it.v()),
{
    match it {
        Item::Method(m) => {
            out.append(m.sig.as_str());
            out.append(" ");
            append_block(out, &m.body);
            out.append("\n");
        },
        Item::FieldMacro(fm) => {
            crate::gen::append_attrs(out, &fm.attrs);
            out.append("field! (");
            let body = toks_text_range(&fm.body, 0, fm.body.len());
            out.append(body.as_str());
            out.append(") ;\n");
            proof {
                assert(fm.body@.subrange(0, fm.body@.len() as int) =~= fm.body@);
            }
        },
        Item::Passthrough(t) => {
            out.append(t.as_str());
            out.append("\n");
        },
        Item::Fail(m) => {
            out.append("::core::compile_error! { \"");
            out.append(m.as_str());
            out.append("\" }\n");
        },
    }
}

fn append_items(out: &mut String, items: &Vec<Item>)
    ensures
        final(out)@ == old(out)@ + items_text(items_v(items@)),
{
    let ghost iv = items_v(items@);
    let ghost start = out@;
    proof {
        lemma_items_v(items@);
    }
    let mut i: usize = 0;
    while i < items.len()
        invariant
            0 <= i <= items@.len(),
            iv == items_v(items@),
            iv.len() == items@.len(),
            forall|x: int| 0 <= x < items@.len() ==> iv[x] == items@[x].v(),
            out@ == start + items_text(iv.take(i as int)),
        decreases items@.len() - i,
    {
        append_item(out, &items[i]);
        proof {
            assert(iv.take(i + 1 as int).drop_last() =~= iv.take(i as int));
            assert(iv.take(i + 1 as int).last() == iv[i as int]);
            assert(out@ =~= start + items_text(iv.take(i + 1 as int)));
        }
        i = i + 1;
    }
    proof {
        assert(iv.take(iv.len() as int) =~= iv);
    }
}

/// The transformation driver: run the block-level hoister over the unit, the
/// local-binding hoister over every method body in declared order, merge the
/// collected fields, and emit the synthesized type definition followed by
/// the rewritten unit.
pub fn transform(attr: Attr, unit: Unit) -> (r: String)
    ensures
        r@ == spec_transform(attr.v(), unit.v()),
{
    let ghost av = attr.v();
    let ghost uv = unit.v();
    let mut u = unit;
    let mut impl_exp = ImplFieldExpander::new();
    let ghost impl_fields_empty = impl_exp.fields@;
    impl_exp.expand(&mut u);
    let ghost ih = spec_impl_hoist(uv.items);
    proof {
        assert(crate::expand::impl_field::fields_v(impl_exp.fields@) =~= ih.1) by {
            assert(crate::expand::impl_field::fields_v(impl_fields_empty) =~= Seq::<
                crate::expand::impl_field::FieldV,
            >::empty());
        }
    }

    let mut fn_exp = FnFieldExpander::new();
    let mut rest: Vec<Item> = Vec::new();
    core::mem::swap(&mut u.items, &mut rest);
    let ghost items1 = rest@;
    let ghost iv1 = items_v(items1);
    proof {
        lemma_items_v(items1);
        assert(iv1 == ih.0);
    }
    let ghost fh = fn_hoist_items(iv1, 0);
    let mut out_items: Vec<Item> = Vec::new();
    while rest.len() > 0
        invariant
            rest@.len() <= items1.len(),
            rest@ == items1.subrange(items1.len() - rest@.len(), items1.len() as int),
            iv1 == items_v(items1),
            iv1.len() == items1.len(),
            forall|x: int| 0 <= x < items1.len() ==> iv1[x] == items1[x].v(),
            ({
                let sp = fn_hoist_items(iv1.take(items1.len() - rest@.len()), 0);
                items_v(out_items@) == sp.0 && crate::expand::fn_field::fields_v(fn_exp.fields@)
                    == sp.1
            }),
        decreases rest@.len(),
    {
        let ghost done = items1.len() - rest@.len();
        let ghost sp_before = fn_hoist_items(iv1.take(done as int), 0);
        proof {
            assert(fn_exp.fields@.len() == sp_before.1.len()) by {
                assert(crate::expand::fn_field::fields_v(fn_exp.fields@).len()
                    == fn_exp.fields@.len());
            }
        }
        let it = rest.remove(0);
        proof {
            assert(it == items1[done as int]);
            assert(rest@ =~= items1.subrange(done + 1, items1.len() as int));
        }
        let ghost itv = items1[done as int].v();
        let ghost fields_pre = fn_exp.fields@;
        match it {
            Item::Method(m) => {
                let mut m = m;
                fn_exp.expand(&mut m.body);
                let ghost mg = m;
                let ghost out_pre = out_items@;
                out_items.push(Item::Method(m));
                proof {
                    crate::ast::lemma_items_v_push(out_pre, Item::Method(mg));
                    let t = fn_hoist_item(itv, sp_before.1.len());
                    assert(mg.v().body == spec_hoist_block(itv->Method_0.body, sp_before.1.len()).0);
                    assert(Item::Method(mg).v() == t.0);
                }
            },
            other => {
                let ghost og = other;
                let ghost out_pre = out_items@;
                out_items.push(other);
                proof {
                    crate::ast::lemma_items_v_push(out_pre, og);
                    let t = fn_hoist_item(itv, sp_before.1.len());
                    assert(og.v() == t.0);
                    assert(crate::expand::fn_field::fields_v(fn_exp.fields@) =~= crate
                        ::expand::fn_field::fields_v(fields_pre) + t.1);
                }
            },
        }
        proof {
            assert(iv1.take(done + 1).drop_last() =~= iv1.take(done as int));
            assert(iv1.take(done + 1).last() == itv);
            let sp = fn_hoist_items(iv1.take(done + 1), 0);
            let t = fn_hoist_item(itv, sp_before.1.len());
            assert(sp.0 == sp_before.0.push(t.0));
            assert(sp.1 == sp_before.1 + t.1);
            assert(items_v(out_items@) == sp.0);
            assert(crate::expand::fn_field::fields_v(fn_exp.fields@) =~= sp.1);
        }
    }
    proof {
        assert(iv1.take(iv1.len() as int) =~= iv1);
        assert(items_v(out_items@) == fh.0);
        assert(crate::expand::fn_field::fields_v(fn_exp.fields@) == fh.1);
    }

    // Merge: block-declared fields first, then hoisted-local fields.
    let mut gfields: Vec<crate::gen::Field> = Vec::new();
    let mut decls = impl_exp.fields;
    let ghost decls0 = decls@;
    let ghost dmap = crate::expand::impl_field::fields_v(decls0).map_values(
        |f: crate::expand::impl_field::FieldV| spec_of_decl(f),
    );
    while decls.len() > 0
        invariant
            decls@.len() <= decls0.len(),
            decls@ == decls0.subrange(decls0.len() - decls@.len(), decls0.len() as int),
            dmap == crate::expand::impl_field::fields_v(decls0).map_values(
                |f: crate::expand::impl_field::FieldV| spec_of_decl(f),
            ),
            dmap.len() == decls0.len(),
            gen_fields_v(gfields@) == dmap.take(decls0.len() - decls@.len()),
        decreases decls@.len(),
    {
        let ghost done = decls0.len() - decls@.len();
        let f = decls.remove(0);
        proof {
            assert(f == decls0[done as int]);
            assert(decls@ =~= decls0.subrange(done + 1, decls0.len() as int));
        }
        let g = crate::gen::Field::of_decl(f);
        let ghost gg = g;
        let ghost gf_pre = gfields@;
        gfields.push(g);
        proof {
            assert(gen_fields_v(gfields@) =~= gen_fields_v(gf_pre).push(gg.v()));
            assert(gg.v() == dmap[done as int]);
            assert(gen_fields_v(gf_pre).push(gg.v()) =~= dmap.take(done + 1));
        }
    }
    let ghost hmap = crate::expand::fn_field::fields_v(fn_exp.fields@).map_values(
        |f: crate::expand::fn_field::FieldV| spec_of_hoisted(f),
    );
    proof {
        assert(dmap.take(decls0.len() as int) =~= dmap);
    }
    let mut hoisted = fn_exp.fields;
    let ghost hoisted0 = hoisted@;
    while hoisted.len() > 0
        invariant
            hoisted@.len() <= hoisted0.len(),
            hoisted@ == hoisted0.subrange(hoisted0.len() - hoisted@.len(), hoisted0.len() as int),
            hmap == crate::expand::fn_field::fields_v(hoisted0).map_values(
                |f: crate::expand::fn_field::FieldV| spec_of_hoisted(f),
            ),
            hmap.len() == hoisted0.len(),
            gen_fields_v(gfields@) == dmap + hmap.take(hoisted0.len() - hoisted@.len()),
        decreases hoisted@.len(),
    {
        let ghost done = hoisted0.len() - hoisted@.len();
        let f = hoisted.remove(0);
        proof {
            assert(f == hoisted0[done as int]);
            assert(hoisted@ =~= hoisted0.subrange(done + 1, hoisted0.len() as int));
        }
        let g = crate::gen::Field::of_hoisted(f);
        let ghost gg = g;
        let ghost gf_pre = gfields@;
        gfields.push(g);
        proof {
            assert(gen_fields_v(gfields@) =~= gen_fields_v(gf_pre).push(gg.v()));
            assert(gg.v() == hmap[done as int]);
            assert(dmap + hmap.take(done as int).push(gg.v()) =~= dmap + hmap.take(done + 1));
            assert(gen_fields_v(gf_pre).push(gg.v()) =~= dmap + hmap.take(done + 1));
        }
    }
    proof {
        assert(hmap.take(hoisted0.len() as int) =~= hmap);
        assert(gen_fields_v(gfields@) == gen_fields_of(ih.1, fh.1));
    }

    let Unit { attrs, header, self_ty, impl_generics, where_clause, items: _ } = u;
    let gen = Gen {
        struct_attrs: attrs,
        attr,
        ty: self_ty,
        impl_generics,
        where_clause,
        fields: gfields,
    };
    proof {
        assert(gen.v() == spec_gen(av, uv));
    }
    let mut out = gen.render();
    out.append("\n");
    out.append(header.as_str());
    out.append(" {\n");
    append_items(&mut out, &out_items);
    out.append("}\n");
    proof {
        assert(out@ =~= spec_transform(av, uv));
    }
    out
}

/// The single entry point: parse the configuration from the attribute
/// argument text, then transform the unit. A grammar error aborts the whole
/// transformation.
pub fn opaque(attr_src: &str, unit: Unit) -> (r: Result<String, ParseErr>)
    ensures
        match lex_of(attr_src@) {
            Some(ts) => match spec_parse_attr(ts) {
                Ok(a) => r matches Ok(s) && s@ == spec_transform(a, unit.v()),
                Err(e) => r == Err::<String, ParseErr>(e),
            },
            None => r == Err::<String, ParseErr>(ParseErr::NoLex),
        },
{
    match crate::attr::parse_attr_src(attr_src) {
        Ok(a) => Ok(transform(a, unit)),
        Err(e) => Err(e),
    }
}

} // verus!
