use vstd::prelude::*;

use crate::ast::{BlockV, ItemV, LocalDeclV, SegV, StmtV, UnitV};
use crate::attr::AttrV;
use crate::digits::{dec_digits, lemma_dec_digits_injective, lemma_dec_digits_len};
use crate::driver::{fn_hoist_item, fn_hoist_items, spec_gen, spec_rewritten_items, spec_transform};
use crate::expand::fn_field::{
    first_marker, lemma_first_marker, msg_diverge, msg_no_init, slot_name, slot_prefix,
    spec_hoist_block, spec_hoist_local, spec_hoist_seg, spec_hoist_segs, spec_hoist_stmt,
    spec_hoist_stmts, FieldV,
};
use crate::expand::impl_field::spec_impl_hoist;
use crate::gen::{debug_text, opaque_member_text, render_gen, struct_text, GenV};

verus! {

/// `n` occurs somewhere inside `h`.
pub open spec fn contains_sub(h: Seq<char>, n: Seq<char>) -> bool {
    exists|i: int|
        0 <= i && i + n.len() <= h.len() && #[trigger] h.subrange(i, i + n.len() as int) == n
}

proof fn lemma_contains_mid(a: Seq<char>, b: Seq<char>, c: Seq<char>)
    ensures
        contains_sub(a + b + c, b),
{
    assert((a + b + c).subrange(a.len() as int, a.len() as int + b.len() as int) =~= b);
}

/// A statement tree without any hoist-marked local declaration.
pub open spec fn stmt_no_marked(s: StmtV) -> bool
    decreases s,
{
    match s {
        StmtV::Local(l) => first_marker(l.attrs, 0) == l.attrs.len(),
        StmtV::Other(gs) => forall|i: int| 0 <= i < gs.len() ==> seg_no_marked(#[trigger] gs[i]),
    }
}

pub open spec fn seg_no_marked(g: SegV) -> bool
    decreases g,
{
    match g {
        SegV::Text(_) => true,
        SegV::Sub(b) => forall|i: int|
            0 <= i < b.stmts.len() ==> stmt_no_marked(#[trigger] b.stmts[i]),
    }
}

pub open spec fn block_no_marked(b: BlockV) -> bool {
    forall|i: int| 0 <= i < b.stmts.len() ==> stmt_no_marked(#[trigger] b.stmts[i])
}

/// An item that contributes no field: not a field declaration, and without
/// any marked local in its body.
pub open spec fn item_no_fields(it: ItemV) -> bool {
    match it {
        ItemV::FieldMacro(_) => false,
        ItemV::Method(m) => block_no_marked(m.body),
        _ => true,
    }
}

proof fn lemma_no_marked_stmts(ss: Seq<StmtV>, next: nat)
    requires
        forall|i: int| 0 <= i < ss.len() ==> stmt_no_marked(#[trigger] ss[i]),
    ensures
        spec_hoist_stmts(ss, next) == (ss, Seq::<FieldV>::empty()),
    decreases ss, 1nat,
{
    if ss.len() > 0 {
        lemma_no_marked_stmts(ss.drop_last(), next);
        lemma_no_marked_stmt(ss.last(), next);
        assert(spec_hoist_stmts(ss, next).0 =~= ss);
        assert(spec_hoist_stmts(ss, next).1 =~= Seq::<FieldV>::empty());
    } else {
        assert(spec_hoist_stmts(ss, next).0 =~= ss);
    }
}

proof fn lemma_no_marked_stmt(s: StmtV, next: nat)
    requires
        stmt_no_marked(s),
    ensures
        spec_hoist_stmt(s, next) == (s, Seq::<FieldV>::empty()),
    decreases s, 0nat,
{
    match s {
        StmtV::Local(_) => {},
        StmtV::Other(gs) => {
            lemma_no_marked_segs(gs, next);
        },
    }
}

proof fn lemma_no_marked_segs(gs: Seq<SegV>, next: nat)
    requires
        forall|i: int| 0 <= i < gs.len() ==> seg_no_marked(#[trigger] gs[i]),
    ensures
        spec_hoist_segs(gs, next) == (gs, Seq::<FieldV>::empty()),
    decreases gs, 1nat,
{
    if gs.len() > 0 {
        lemma_no_marked_segs(gs.drop_last(), next);
        lemma_no_marked_seg(gs.last(), next);
        assert(spec_hoist_segs(gs, next).0 =~= gs);
        assert(spec_hoist_segs(gs, next).1 =~= Seq::<FieldV>::empty());
    } else {
        assert(spec_hoist_segs(gs, next).0 =~= gs);
    }
}

proof fn lemma_no_marked_seg(g: SegV, next: nat)
    requires
        seg_no_marked(g),
    ensures
        spec_hoist_seg(g, next) == (g, Seq::<FieldV>::empty()),
    decreases g, 0nat,
{
    match g {
        SegV::Text(_) => {},
        SegV::Sub(b) => {
            lemma_no_marked_stmts(b.stmts, next);
            assert(spec_hoist_block(b, next).0 =~= b);
        },
    }
}

proof fn lemma_no_fields_items(items: Seq<ItemV>)
    requires
        forall|i: int| 0 <= i < items.len() ==> item_no_fields(#[trigger] items[i]),
    ensures
        spec_impl_hoist(items) == (items, Seq::<crate::expand::impl_field::FieldV>::empty()),
        forall|n: nat| #[trigger] fn_hoist_items(items, n) == (items, Seq::<FieldV>::empty()),
    decreases items,
{
    if items.len() > 0 {
        lemma_no_fields_items(items.drop_last());
        assert(spec_impl_hoist(items).0 =~= items);
        assert(spec_impl_hoist(items).1 =~= Seq::<crate::expand::impl_field::FieldV>::empty());
        assert forall|n: nat| #[trigger] fn_hoist_items(items, n) == (
            items,
            Seq::<FieldV>::empty(),
        ) by {
            assert(item_no_fields(items[items.len() - 1]));
            assert(fn_hoist_items(items.drop_last(), n) == (
                items.drop_last(),
                Seq::<FieldV>::empty(),
            ));
            match items.last() {
                ItemV::Method(m) => {
                    lemma_no_marked_stmts(m.body.stmts, n);
                    assert(spec_hoist_block(m.body, n).0 =~= m.body);
                },
                _ => {},
            }
            assert(fn_hoist_items(items, n).0 =~= items);
            assert(fn_hoist_items(items, n).1 =~= Seq::<FieldV>::empty());
        }
    } else {
        assert(spec_impl_hoist(items).0 =~= items);
        assert forall|n: nat| #[trigger] fn_hoist_items(items, n) == (
            items,
            Seq::<FieldV>::empty(),
        ) by {
            assert(fn_hoist_items(items, n).0 =~= items);
        }
    }
}

/// With no block-level field declaration and no marked local anywhere in the
/// unit, the synthesized type carries no field beyond the promoted
/// constructor parameters: its member list is the promoted parameters, in
/// declared order, and the constructor's member initializers are exactly the
/// like-named arguments (both read off the parameter list itself). The unit
/// is emitted unchanged.
pub proof fn lemma_promoted_only(a: AttrV, u: UnitV)
    requires
        forall|i: int| 0 <= i < u.items.len() ==> item_no_fields(#[trigger] u.items[i]),
    ensures
        spec_gen(a, u).fields =~= Seq::<crate::gen::FieldV>::empty(),
        spec_rewritten_items(u) == u.items,
{
    lemma_no_fields_items(u.items);
    assert(spec_gen(a, u).fields =~= Seq::<crate::gen::FieldV>::empty());
}

/// Fields are numbered in strictly increasing discovery order: hoisting a
/// body with `next` as the first free slot yields fields whose slot indices
/// are exactly `next`, `next + 1`, ... in order.
pub open spec fn sequential_idx(fs: Seq<FieldV>, next: nat) -> bool {
    forall|k: int| 0 <= k < fs.len() ==> #[trigger] fs[k].idx == next + k
}

pub proof fn lemma_hoist_block_numbering(b: BlockV, next: nat)
    ensures
        sequential_idx(spec_hoist_block(b, next).1, next),
    decreases b, 1nat,
{
    lemma_hoist_stmts_numbering(b.stmts, next);
}

proof fn lemma_hoist_stmts_numbering(ss: Seq<StmtV>, next: nat)
    ensures
        sequential_idx(spec_hoist_stmts(ss, next).1, next),
    decreases ss, 2nat,
{
    if ss.len() > 0 {
        let h = spec_hoist_stmts(ss.drop_last(), next);
        lemma_hoist_stmts_numbering(ss.drop_last(), next);
        lemma_hoist_stmt_numbering(ss.last(), (next + h.1.len()) as nat);
    }
}

proof fn lemma_hoist_stmt_numbering(s: StmtV, next: nat)
    ensures
        sequential_idx(spec_hoist_stmt(s, next).1, next),
    decreases s, 1nat,
{
    match s {
        StmtV::Local(l) => {},
        StmtV::Other(gs) => {
            lemma_hoist_segs_numbering(gs, next);
        },
    }
}

proof fn lemma_hoist_segs_numbering(gs: Seq<SegV>, next: nat)
    ensures
        sequential_idx(spec_hoist_segs(gs, next).1, next),
    decreases gs, 2nat,
{
    if gs.len() > 0 {
        let h = spec_hoist_segs(gs.drop_last(), next);
        lemma_hoist_segs_numbering(gs.drop_last(), next);
        lemma_hoist_seg_numbering(gs.last(), (next + h.1.len()) as nat);
    }
}

proof fn lemma_hoist_seg_numbering(g: SegV, next: nat)
    ensures
        sequential_idx(spec_hoist_seg(g, next).1, next),
    decreases g, 1nat,
{
    match g {
        SegV::Text(_) => {},
        SegV::Sub(b) => {
            lemma_hoist_block_numbering(b, next);
        },
    }
}

/// The same, across the whole unit: bodies are visited in declared order and
/// share one numbering, so the fields of the whole run carry the slots
/// `next`, `next + 1`, ... in discovery order.
pub proof fn lemma_unit_numbering(items: Seq<ItemV>, next: nat)
    ensures
        sequential_idx(fn_hoist_items(items, next).1, next),
    decreases items,
{
    if items.len() > 0 {
        let h = fn_hoist_items(items.drop_last(), next);
        lemma_unit_numbering(items.drop_last(), next);
        match items.last() {
            ItemV::Method(m) => {
                lemma_hoist_block_numbering(m.body, (next + h.1.len()) as nat);
            },
            _ => {},
        }
    }
}

/// One local declaration that is marked, well-formed and hoistable: it has a
/// declared type and a non-diverging initializer.
pub open spec fn hoistable_local(s: StmtV) -> bool {
    &&& s is Local
    &&& first_marker(s->Local_0.attrs, 0) < s->Local_0.attrs.len()
    &&& s->Local_0.ty is Some
    &&& s->Local_0.init is Some
    &&& s->Local_0.init.unwrap().diverge is None
}

/// Hoisting a body whose statements hold exactly one marked local, at
/// position `si`: exactly one field is collected, carrying that local's
/// declared type and initializer expression and the slot `next`; the
/// declaration is rebound to read from that slot; every other statement is
/// kept unchanged.
pub proof fn lemma_single_hoisted_field(b: BlockV, si: int, next: nat)
    requires
        0 <= si < b.stmts.len(),
        hoistable_local(b.stmts[si]),
        forall|j: int| 0 <= j < b.stmts.len() && j != si ==> stmt_no_marked(#[trigger] b.stmts[j]),
    ensures
        ({
            let l = b.stmts[si]->Local_0;
            let r = spec_hoist_block(b, next);
            &&& r.1.len() == 1
            &&& r.1[0].ty == l.ty.unwrap()
            &&& r.1[0].init == l.init.unwrap().expr
            &&& r.1[0].idx == next
            &&& r.0.stmts =~= b.stmts.update(si, spec_hoist_local(l, next).0)
        }),
{
    lemma_single_hoist_stmts(b.stmts, si, next);
}

proof fn lemma_single_hoist_stmts(ss: Seq<StmtV>, si: int, next: nat)
    requires
        0 <= si < ss.len(),
        hoistable_local(ss[si]),
        forall|j: int| 0 <= j < ss.len() && j != si ==> stmt_no_marked(#[trigger] ss[j]),
    ensures
        ({
            let l = ss[si]->Local_0;
            let r = spec_hoist_stmts(ss, next);
            &&& r.1 == spec_hoist_local(l, next).1
            &&& r.1.len() == 1
            &&& r.1[0].ty == l.ty.unwrap()
            &&& r.1[0].init == l.init.unwrap().expr
            &&& r.1[0].idx == next
            &&& r.0 =~= ss.update(si, spec_hoist_local(l, next).0)
        }),
    decreases ss.len(),
{
    let l = ss[si]->Local_0;
    lemma_first_marker(l.attrs, 0);
    assert(forall|j: int| 0 <= j < ss.len() - 1 ==> #[trigger] ss.drop_last()[j] == ss[j]);
    if si == ss.len() - 1 {
        lemma_no_marked_stmts(ss.drop_last(), next);
        assert(ss.last() == ss[si]);
        assert(spec_hoist_stmt(ss.last(), next) == spec_hoist_local(l, next));
        assert(Seq::<FieldV>::empty() + spec_hoist_local(l, next).1 =~= spec_hoist_local(
            l,
            next,
        ).1);
        assert(spec_hoist_stmts(ss, next).0 =~= ss.update(si, spec_hoist_local(l, next).0));
    } else {
        assert(ss.drop_last()[si] == ss[si]);
        lemma_single_hoist_stmts(ss.drop_last(), si, next);
        let h = spec_hoist_stmts(ss.drop_last(), next);
        assert(h.1 == spec_hoist_local(l, next).1);
        lemma_no_marked_stmt(ss.last(), (next + h.1.len()) as nat);
        assert(h.1 + Seq::<FieldV>::empty() =~= h.1);
        assert(spec_hoist_stmts(ss, next).0 =~= ss.update(si, spec_hoist_local(l, next).0));
    }
}

proof fn lemma_no_macros_impl_hoist(items: Seq<ItemV>)
    requires
        forall|i: int| 0 <= i < items.len() ==> !(#[trigger] items[i] is FieldMacro),
    ensures
        spec_impl_hoist(items) == (items, Seq::<crate::expand::impl_field::FieldV>::empty()),
    decreases items,
{
    if items.len() > 0 {
        lemma_no_macros_impl_hoist(items.drop_last());
        assert(spec_impl_hoist(items).0 =~= items);
        assert(spec_impl_hoist(items).1 =~= Seq::<crate::expand::impl_field::FieldV>::empty());
    } else {
        assert(spec_impl_hoist(items).0 =~= items);
        assert(spec_impl_hoist(items).1 =~= Seq::<crate::expand::impl_field::FieldV>::empty());
    }
}

proof fn lemma_no_fields_item(it: ItemV, n: nat)
    requires
        item_no_fields(it),
    ensures
        fn_hoist_item(it, n) == (it, Seq::<FieldV>::empty()),
{
    match it {
        ItemV::Method(m) => {
            lemma_no_marked_stmts(m.body.stmts, n);
            assert(spec_hoist_block(m.body, n).0 =~= m.body);
        },
        _ => {},
    }
}

proof fn lemma_single_hoist_items(items: Seq<ItemV>, mi: int, si: int, next: nat)
    requires
        0 <= mi < items.len(),
        items[mi] is Method,
        ({
            let b = items[mi]->Method_0.body;
            0 <= si < b.stmts.len() && hoistable_local(b.stmts[si]) && (forall|j: int|
                0 <= j < b.stmts.len() && j != si ==> stmt_no_marked(#[trigger] b.stmts[j]))
        }),
        forall|j: int| 0 <= j < items.len() && j != mi ==> item_no_fields(#[trigger] items[j]),
    ensures
        ({
            let m = items[mi]->Method_0;
            let hb = spec_hoist_block(m.body, next);
            let r = fn_hoist_items(items, next);
            r.1 == hb.1 && r.0 =~= items.update(
                mi,
                ItemV::Method(crate::ast::MethodV { sig: m.sig, body: hb.0 }),
            )
        }),
    decreases items.len(),
{
    let m = items[mi]->Method_0;
    if mi == items.len() - 1 {
        lemma_no_fields_items(items.drop_last());
        assert(fn_hoist_items(items.drop_last(), next) == (
            items.drop_last(),
            Seq::<FieldV>::empty(),
        ));
        let hb = spec_hoist_block(m.body, next);
        assert(Seq::<FieldV>::empty() + hb.1 =~= hb.1);
        assert(fn_hoist_items(items, next).0 =~= items.update(
            mi,
            ItemV::Method(crate::ast::MethodV { sig: m.sig, body: hb.0 }),
        ));
    } else {
        lemma_single_hoist_items(items.drop_last(), mi, si, next);
        let h = fn_hoist_items(items.drop_last(), next);
        lemma_no_fields_item(items.last(), (next + h.1.len()) as nat);
        assert(h.1 + Seq::<FieldV>::empty() =~= h.1);
        assert(fn_hoist_items(items, next).0 =~= items.update(
            mi,
            ItemV::Method(crate::ast::MethodV { sig: m.sig, body: spec_hoist_block(m.body, next).0 }),
        ));
    }
}

/// For a unit whose only field is one hoisted local of type `T` initialized
/// with expression `E`: the synthesized type gains exactly one member beyond
/// the promoted parameters, of type `T`, private, under slot 0; the
/// constructor's member-initializer list writes `E` exactly once (one entry,
/// rendered once); the declaration in the method body is rebound to read
/// from that slot; and everything else is emitted unchanged.
pub proof fn lemma_single_hoisted_member(a: AttrV, u: UnitV, mi: int, si: int)
    requires
        0 <= mi < u.items.len(),
        u.items[mi] is Method,
        ({
            let b = u.items[mi]->Method_0.body;
            0 <= si < b.stmts.len() && hoistable_local(b.stmts[si]) && (forall|j: int|
                0 <= j < b.stmts.len() && j != si ==> stmt_no_marked(#[trigger] b.stmts[j]))
        }),
        forall|j: int| 0 <= j < u.items.len() && j != mi ==> item_no_fields(#[trigger] u.items[j]),
    ensures
        ({
            let m = u.items[mi]->Method_0;
            let l = m.body.stmts[si]->Local_0;
            let g = spec_gen(a, u);
            &&& g.fields.len() == 1
            &&& g.fields[0].ty == l.ty.unwrap()
            &&& g.fields[0].init == l.init.unwrap().expr
            &&& g.fields[0].name == crate::gen::GenNameV::Slot(0)
            &&& g.fields[0].vis == crate::attr::VisV::Inherited
            &&& crate::gen::field_inits_text(g.fields) == crate::gen::field_init_text(g.fields[0])
            &&& spec_rewritten_items(u) =~= u.items.update(
                mi,
                ItemV::Method(
                    crate::ast::MethodV {
                        sig: m.sig,
                        body: BlockV {
                            stmts: m.body.stmts.update(si, spec_hoist_local(l, 0).0),
                        },
                    },
                ),
            )
        }),
{
    assert(forall|j: int|
        0 <= j < u.items.len() && j != mi ==> !(#[trigger] u.items[j] is FieldMacro));
    lemma_no_macros_impl_hoist(u.items);
    lemma_single_hoist_items(u.items, mi, si, 0);
    let m = u.items[mi]->Method_0;
    lemma_single_hoisted_field(m.body, si, 0);
    let hb = spec_hoist_block(m.body, 0);
    assert(hb.0 =~= BlockV { stmts: m.body.stmts.update(si, spec_hoist_local(m.body.stmts[si]->Local_0, 0).0) });
    let g = spec_gen(a, u);
    assert(g.fields =~= hb.1.map_values(
        |f: crate::expand::fn_field::FieldV| crate::gen::spec_of_hoisted(f),
    ));
    assert(g.fields.len() == 1);
    assert(g.fields[0] == crate::gen::spec_of_hoisted(hb.1[0]));
    assert(g.fields.drop_last() =~= Seq::<crate::gen::FieldV>::empty());
    assert(g.fields.last() == g.fields[0]);
    assert(crate::gen::field_inits_text(g.fields.drop_last()) == Seq::<char>::empty());
    assert(crate::gen::field_inits_text(g.fields) == crate::gen::field_inits_text(
        g.fields.drop_last(),
    ) + crate::gen::field_init_text(g.fields.last()));
    assert(Seq::<char>::empty() + crate::gen::field_init_text(g.fields[0])
        =~= crate::gen::field_init_text(g.fields[0]));
}

/// The transformation is deterministic. The whole pipeline is specified as a
/// function of the configuration's and the unit's views, and `transform`
/// promises its output equals that function: running it twice on equal input
/// yields byte-identical output.
pub proof fn lemma_transform_deterministic(a1: AttrV, a2: AttrV, u1: UnitV, u2: UnitV)
    requires
        a1 == a2,
        u1 == u2,
    ensures
        spec_transform(a1, u1) == spec_transform(a2, u2),
{
}

/// A hoisted field declared without an initializer yields an embedded
/// failure whose message names the initializer, never a silent default: the
/// declaration's initializer becomes the failure marker, and no field (hence
/// no defaulted member) is collected.
pub proof fn lemma_missing_initializer_embeds(l: LocalDeclV, next: nat)
    requires
        first_marker(l.attrs, 0) < l.attrs.len(),
        l.ty is Some,
        l.init is None,
    ensures
        spec_hoist_local(l, next).1 =~= Seq::<FieldV>::empty(),
        spec_hoist_local(l, next).0 == StmtV::Local(
            crate::expand::fn_field::local_with_fail(l, msg_no_init()),
        ),
        contains_sub(msg_no_init(), "initializer"@),
{
    lemma_first_marker(l.attrs, 0);
    proof_msg_no_init_names_initializer();
}

proof fn proof_msg_no_init_names_initializer()
    ensures
        contains_sub(msg_no_init(), "initializer"@),
{
    reveal_strlit("field must have an initializer");
    reveal_strlit("initializer");
    assert(msg_no_init().subrange(19, 19 + "initializer"@.len() as int) =~= "initializer"@);
}

/// A hoisted field whose initializer diverges (a `let ... else` form) yields
/// an embedded failure whose message names divergence.
pub proof fn lemma_diverging_initializer_embeds(l: LocalDeclV, next: nat)
    requires
        first_marker(l.attrs, 0) < l.attrs.len(),
        l.ty is Some,
        l.init is Some,
        l.init.unwrap().diverge is Some,
    ensures
        spec_hoist_local(l, next).1 =~= Seq::<FieldV>::empty(),
        spec_hoist_local(l, next).0 == StmtV::Local(
            crate::expand::fn_field::local_with_fail(l, msg_diverge()),
        ),
        contains_sub(msg_diverge(), "diverge"@),
{
    lemma_first_marker(l.attrs, 0);
    proof_msg_diverge_names_diverge();
}

proof fn proof_msg_diverge_names_diverge()
    ensures
        contains_sub(msg_diverge(), "diverge"@),
{
    reveal_strlit("field initializer cannot diverge");
    reveal_strlit("diverge");
    assert(msg_diverge().subrange(25, 25 + "diverge"@.len() as int) =~= "diverge"@);
}

/// A user-visible name carries the reserved slot prefix or it differs from
/// every synthesized slot name: a block-declared field and a hoisted field
/// can never collapse into one member by name, whatever slot the hoisted one
/// gets.
pub open spec fn has_reserved_prefix(s: Seq<char>) -> bool {
    s.len() >= slot_prefix().len() && s.subrange(0, slot_prefix().len() as int) == slot_prefix()
}

pub proof fn lemma_slot_name_reserved(i: nat, name: Seq<char>)
    requires
        !has_reserved_prefix(name),
    ensures
        slot_name(i) != name,
{
    lemma_dec_digits_len(i);
    assert(slot_name(i).subrange(0, slot_prefix().len() as int) =~= slot_prefix());
}

/// Distinct slots get distinct synthesized names: members hoisted from
/// distinct declarations never collide with one another.
pub proof fn lemma_slot_names_distinct(i: nat, j: nat)
    requires
        i != j,
    ensures
        slot_name(i) != slot_name(j),
{
    if slot_name(i) == slot_name(j) {
        lemma_dec_digits_len(i);
        lemma_dec_digits_len(j);
        assert(slot_name(i).subrange(
            slot_prefix().len() as int,
            slot_name(i).len() as int,
        ) =~= dec_digits(i));
        assert(slot_name(j).subrange(
            slot_prefix().len() as int,
            slot_name(j).len() as int,
        ) =~= dec_digits(j));
        lemma_dec_digits_injective(i, j);
    }
}

/// The information-hiding formatter is a function of the type's name and
/// generics alone: two synthesized outputs for the same type and generics
/// carry the identical formatter, whatever their fields and parameters hold,
/// and the formatter's text names the type.
pub proof fn lemma_formatter_hides(g1: GenV, g2: GenV)
    requires
        g1.ty == g2.ty,
        g1.impl_generics == g2.impl_generics,
        g1.where_clause == g2.where_clause,
    ensures
        debug_text(g1.ty, g1.impl_generics, g1.where_clause) == debug_text(
            g2.ty,
            g2.impl_generics,
            g2.where_clause,
        ),
        contains_sub(debug_text(g1.ty, g1.impl_generics, g1.where_clause), g1.ty),
{
    let a = "impl "@ + g1.impl_generics + " ::core::fmt::Debug for "@;
    let c = " "@ + g1.where_clause + " {\n"@
        + "fn fmt(&self, f: &mut ::core::fmt::Formatter<'_>) -> ::core::fmt::Result {\n"@
        + "f.debug_struct(::core::stringify! ("@ + g1.ty + ")).finish_non_exhaustive()\n}\n}\n"@;
    assert(debug_text(g1.ty, g1.impl_generics, g1.where_clause) =~= a + g1.ty + c);
    lemma_contains_mid(a, g1.ty, c);
}

/// Every synthesized record type carries the marker member that blocks a
/// derived default-construction capability, whatever its configuration and
/// fields: the type can only be built through its explicit constructor.
pub proof fn lemma_default_guard_present(g: GenV)
    ensures
        contains_sub(struct_text(g), opaque_member_text()),
        contains_sub(render_gen(g), opaque_member_text()),
{
    let p = crate::gen::attrs_text(g.struct_attrs) + "#[repr(Rust)]\n#[non_exhaustive]\n"@
        + crate::gen::vis_prefix(g.attr.vis) + "struct "@ + g.ty + " "@ + g.where_clause + " {\n"@
        + crate::gen::param_decls_text(crate::gen::promoted(g.attr.new_args))
        + crate::gen::field_decls_text(g.fields);
    assert(struct_text(g) =~= p + opaque_member_text() + "}\n"@);
    lemma_contains_mid(p, opaque_member_text(), "}\n"@);
    let q = "}\n"@ + "const _ : () = {\n"@ + debug_text(g.ty, g.impl_generics, g.where_clause)
        + crate::gen::ctor_text(g) + "};\n"@;
    assert(render_gen(g) =~= p + opaque_member_text() + q);
    lemma_contains_mid(p, opaque_member_text(), q);
}

} // verus!
