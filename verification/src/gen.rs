use vstd::prelude::*;
use vstd::string::StringExecFns;

use crate::ast::{attrs_v, AttrMark, AttrMarkV, BodyExpr, BodyExprV};
use crate::attr::{args_v, Argument, ArgumentV, Attr, AttrV, Vis, VisV};
use crate::expand::fn_field::{slot_name, IndexIdent};
use crate::expand::{fn_field, impl_field};

verus! {

/// The name of one synthesized member: a user-chosen name kept verbatim, or
/// a position-derived slot name.
pub enum GenNameV {
    User(Seq<char>),
    Slot(nat),
}

pub enum GenName {
    User(String),
    Slot(usize),
}

impl GenName {
    pub open spec fn v(self) -> GenNameV {
        match self {
            GenName::User(s) => GenNameV::User(s@),
            GenName::Slot(i) => GenNameV::Slot(i as nat),
        }
    }
}

pub open spec fn gen_name_text(n: GenNameV) -> Seq<char> {
    match n {
        GenNameV::User(s) => s,
        GenNameV::Slot(i) => slot_name(i),
    }
}

/// One member of the synthesized type, whatever its provenance.
pub struct FieldV {
    pub attrs: Seq<AttrMarkV>,
    pub vis: VisV,
    pub name: GenNameV,
    pub ty: Seq<char>,
    pub init: BodyExprV,
}

pub struct Field {
    pub attrs: Vec<AttrMark>,
    pub vis: Vis,
    pub name: GenName,
    pub ty: String,
    pub init: BodyExpr,
}

impl Field {
    pub open spec fn v(self) -> FieldV {
        FieldV {
            attrs: attrs_v(self.attrs@),
            vis: self.vis.v(),
            name: self.name.v(),
            ty: self.ty@,
            init: self.init.v(),
        }
    }
}

pub open spec fn gen_fields_v(s: Seq<Field>) -> Seq<FieldV> {
    s.map_values(|f: Field| f.v())
}

/// A block-level declared field becomes a member under its user-chosen name
/// and visibility.
pub open spec fn spec_of_decl(f: impl_field::FieldV) -> FieldV {
    FieldV {
        attrs: f.attrs,
        vis: f.vis,
        name: GenNameV::User(f.name),
        ty: f.ty,
        init: BodyExprV::Code(f.init),
    }
}

/// A hoisted-local field becomes a member under its slot name, visible only
/// to the generated type itself.
pub open spec fn spec_of_hoisted(f: fn_field::FieldV) -> FieldV {
    FieldV {
        attrs: f.attrs,
        vis: VisV::Inherited,
        name: GenNameV::Slot(f.idx),
        ty: f.ty,
        init: f.init,
    }
}

impl Field {
    pub fn of_decl(f: impl_field::Field) -> (r: Self)
        ensures
            r.v() == spec_of_decl(f.v()),
    {
        Field {
            attrs: f.attrs,
            vis: f.vis,
            name: GenName::User(f.name),
            ty: f.ty,
            init: BodyExpr::Code(f.init),
        }
    }

    pub fn of_hoisted(f: fn_field::Field) -> (r: Self)
        ensures
            r.v() == spec_of_hoisted(f.v()),
    {
        Field {
            attrs: f.attrs,
            vis: Vis::Inherited,
            name: GenName::Slot(f.idx.0),
            ty: f.ty,
            init: f.init,
        }
    }
}

/// The text of one pass-through annotation, on a line of its own.
pub open spec fn attr_text(a: AttrMarkV) -> Seq<char> {
    "#["@ + a.path + a.args + "]\n"@
}

pub open spec fn attrs_text(s: Seq<AttrMarkV>) -> Seq<char>
    decreases s.len(),
{
    if s.len() == 0 {
        Seq::empty()
    } else {
        attrs_text(s.drop_last()) + attr_text(s.last())
    }
}

/// The text a visibility contributes in front of an item, with its trailing
/// space; nothing for an inherited visibility.
pub open spec fn vis_prefix(v: VisV) -> Seq<char> {
    match v {
        VisV::Inherited => Seq::empty(),
        VisV::Public => "pub "@,
        VisV::Restricted(p) => "pub ("@ + p + ") "@,
    }
}

pub open spec fn opt_vis(o: Option<VisV>) -> VisV {
    match o {
        Some(v) => v,
        None => VisV::Inherited,
    }
}

/// The constructor parameters that are also kept as members, in declared
/// order.
pub open spec fn promoted(args: Seq<ArgumentV>) -> Seq<ArgumentV>
    decreases args.len(),
{
    if args.len() == 0 {
        Seq::empty()
    } else {
        promoted(args.drop_last()) + (if args.last().vis is Some {
            seq![args.last()]
        } else {
            Seq::empty()
        })
    }
}

/// The member declaration of one promoted constructor parameter.
pub open spec fn param_decl_text(a: ArgumentV) -> Seq<char> {
    vis_prefix(opt_vis(a.vis)) + a.name + " : "@ + a.ty + ",\n"@
}

pub open spec fn param_decls_text(s: Seq<ArgumentV>) -> Seq<char>
    decreases s.len(),
{
    if s.len() == 0 {
        Seq::empty()
    } else {
        param_decls_text(s.drop_last()) + param_decl_text(s.last())
    }
}

/// The member declaration of one declared or hoisted field.
pub open spec fn field_decl_text(f: FieldV) -> Seq<char> {
    attrs_text(f.attrs) + vis_prefix(f.vis) + gen_name_text(f.name) + " : "@ + f.ty + ",\n"@
}

pub open spec fn field_decls_text(s: Seq<FieldV>) -> Seq<char>
    decreases s.len(),
{
    if s.len() == 0 {
        Seq::empty()
    } else {
        field_decls_text(s.drop_last()) + field_decl_text(s.last())
    }
}

/// The text of an expression as the renderers write it out.
pub open spec fn expr_text(e: BodyExprV) -> Seq<char> {
    match e {
        BodyExprV::Code(t) => t,
        BodyExprV::SlotRead(i) => "self."@ + slot_name(i),
        BodyExprV::Fail(m) => "::core::compile_error! (\""@ + m + "\")"@,
    }
}

/// One member initializer of the constructor: the field's initializer
/// expression, written once, so it is evaluated exactly once.
pub open spec fn field_init_text(f: FieldV) -> Seq<char> {
    gen_name_text(f.name) + " : "@ + expr_text(f.init) + ",\n"@
}

pub open spec fn field_inits_text(s: Seq<FieldV>) -> Seq<char>
    decreases s.len(),
{
    if s.len() == 0 {
        Seq::empty()
    } else {
        field_inits_text(s.drop_last()) + field_init_text(s.last())
    }
}

/// One promoted parameter assigned directly from the like-named argument.
pub open spec fn promoted_init_text(a: ArgumentV) -> Seq<char> {
    a.name + ",\n"@
}

pub open spec fn promoted_inits_text(s: Seq<ArgumentV>) -> Seq<char>
    decreases s.len(),
{
    if s.len() == 0 {
        Seq::empty()
    } else {
        promoted_inits_text(s.drop_last()) + promoted_init_text(s.last())
    }
}

/// One constructor parameter as the constructor's signature takes it.
pub open spec fn ctor_param_text(a: ArgumentV) -> Seq<char> {
    a.name + " : "@ + a.ty + ", "@
}

pub open spec fn ctor_params_text(s: Seq<ArgumentV>) -> Seq<char>
    decreases s.len(),
{
    if s.len() == 0 {
        Seq::empty()
    } else {
        ctor_params_text(s.drop_last()) + ctor_param_text(s.last())
    }
}

/// Everything the synthesizer needs: the unit's annotations (moved onto the
/// record type), the configuration, the subject type, its generics, and the
/// merged field list.
pub struct GenV {
    pub struct_attrs: Seq<AttrMarkV>,
    pub attr: AttrV,
    pub ty: Seq<char>,
    pub impl_generics: Seq<char>,
    pub where_clause: Seq<char>,
    pub fields: Seq<FieldV>,
}

pub struct Gen {
    pub struct_attrs: Vec<AttrMark>,
    pub attr: Attr,
    pub ty: String,
    pub impl_generics: String,
    pub where_clause: String,
    pub fields: Vec<Field>,
}

impl Gen {
    pub open spec fn v(self) -> GenV {
        GenV {
            struct_attrs: attrs_v(self.struct_attrs@),
            attr: self.attr.v(),
            ty: self.ty@,
            impl_generics: self.impl_generics@,
            where_clause: self.where_clause@,
            fields: gen_fields_v(self.fields@),
        }
    }
}

/// The record type definition: the promoted constructor parameters first,
/// then the declared and hoisted fields, then the marker member that blocks
/// derived default-construction.
pub open spec fn struct_text(g: GenV) -> Seq<char> {
    attrs_text(g.struct_attrs) + "#[repr(Rust)]\n#[non_exhaustive]\n"@ + vis_prefix(g.attr.vis)
        + "struct "@ + g.ty + " "@ + g.where_clause + " {\n"@ + param_decls_text(
        promoted(g.attr.new_args),
    ) + field_decls_text(g.fields) + opaque_member_text() + "}\n"@
}

/// The member that blocks derived default-construction.
pub open spec fn opaque_member_text() -> Seq<char> {
    "__internal_no_default_derive : ::impl_opaque::__private::Opaque,\n"@
}

/// The information-hiding formatter. It is a function of the type's name and
/// generics alone: no field, parameter or value reaches it, so no run of it
/// can reveal one.
pub open spec fn debug_text(ty: Seq<char>, impl_generics: Seq<char>, where_clause: Seq<char>) -> Seq<
    char,
> {
    "impl "@ + impl_generics + " ::core::fmt::Debug for "@ + ty + " "@ + where_clause + " {\n"@
        + "fn fmt(&self, f: &mut ::core::fmt::Formatter<'_>) -> ::core::fmt::Result {\n"@
        + "f.debug_struct(::core::stringify! ("@ + ty + ")).finish_non_exhaustive()\n}\n}\n"@
}

/// The constructor: it takes every configured parameter in declared order,
/// writes every field initializer exactly once, then assigns the promoted
/// parameters from their like-named arguments.
pub open spec fn ctor_text(g: GenV) -> Seq<char> {
    "impl "@ + g.impl_generics + " "@ + g.ty + " "@ + g.where_clause + " {\n"@ + vis_prefix(
        g.attr.vis,
    ) + "fn new ("@ + ctor_params_text(g.attr.new_args) + ") -> Self {\nSelf {\n"@
        + field_inits_text(g.fields) + promoted_inits_text(promoted(g.attr.new_args))
        + "__internal_no_default_derive : ::impl_opaque::__private::Opaque,\n}\n}\n}\n"@
}

/// The whole synthesized output for one unit: the record type, then the
/// formatter and the constructor.
pub open spec fn render_gen(g: GenV) -> Seq<char> {
    struct_text(g) + "const _ : () = {\n"@ + debug_text(g.ty, g.impl_generics, g.where_clause)
        + ctor_text(g) + "};\n"@
}

fn append_vis(out: &mut String, v: &Vis)
    ensures
        final(out)@ == old(out)@ + vis_prefix(v.v()),
{
    match v {
        Vis::Inherited => {
            proof {
                assert(old(out)@ + vis_prefix(v.v()) =~= old(out)@);
            }
        },
        Vis::Public => {
            out.append("pub ");
        },
        Vis::Restricted(p) => {
            out.append("pub (");
            out.append(p.as_str());
            out.append(") ");
        },
    }
}

pub(crate) fn append_attrs(out: &mut String, attrs: &Vec<AttrMark>)
    ensures
        final(out)@ == old(out)@ + attrs_text(attrs_v(attrs@)),
{
    let ghost av = attrs_v(attrs@);
    let ghost start = out@;
    let mut i: usize = 0;
    while i < attrs.len()
        invariant
            0 <= i <= attrs@.len(),
            av == attrs_v(attrs@),
            av.len() == attrs@.len(),
            forall|x: int| 0 <= x < attrs@.len() ==> av[x] == attrs@[x].v(),
            out@ == start + attrs_text(av.take(i as int)),
        decreases attrs@.len() - i,
    {
        out.append("#[");
        out.append(attrs[i].path.as_str());
        out.append(attrs[i].args.as_str());
        out.append("]\n");
        proof {
            assert(av.take(i + 1 as int).drop_last() =~= av.take(i as int));
            assert(av.take(i + 1 as int).last() == av[i as int]);
            assert(out@ =~= start + attrs_text(av.take(i + 1 as int)));
        }
        i = i + 1;
    }
    proof {
        assert(av.take(av.len() as int) =~= av);
    }
}

fn append_name(out: &mut String, n: &GenName)
    ensures
        final(out)@ == old(out)@ + gen_name_text(n.v()),
{
    match n {
        GenName::User(s) => out.append(s.as_str()),
        GenName::Slot(i) => {
            let id = IndexIdent(*i).ident();
            out.append(id.as_str());
        },
    }
}

pub(crate) fn append_expr(out: &mut String, e: &BodyExpr)
    ensures
        final(out)@ == old(out)@ + expr_text(e.v()),
{
    match e {
        BodyExpr::Code(t) => out.append(t.as_str()),
        BodyExpr::SlotRead(i) => {
            out.append("self.");
            let id = IndexIdent(*i).ident();
            out.append(id.as_str());
        },
        BodyExpr::Fail(m) => {
            out.append("::core::compile_error! (\"");
            out.append(m.as_str());
            out.append("\")");
        },
    }
}

/// The promoted member declarations, filtered out of the parameter list in
/// declared order.
fn append_param_decls(out: &mut String, args: &Vec<Argument>)
    ensures
        final(out)@ == old(out)@ + param_decls_text(promoted(args_v(args@))),
{
    let ghost av = args_v(args@);
    let ghost start = out@;
    let mut i: usize = 0;
    while i < args.len()
        invariant
            0 <= i <= args@.len(),
            av == args_v(args@),
            av.len() == args@.len(),
            forall|x: int| 0 <= x < args@.len() ==> av[x] == args@[x].v(),
            out@ == start + param_decls_text(promoted(av.take(i as int))),
        decreases args@.len() - i,
    {
        let ghost pd_before = promoted(av.take(i as int));
        match &args[i].vis {
            Some(v) => {
                append_vis(out, v);
                out.append(args[i].name.as_str());
                out.append(" : ");
                out.append(args[i].ty.as_str());
                out.append(",\n");
            },
            None => {},
        }
        proof {
            assert(av.take(i + 1 as int).drop_last() =~= av.take(i as int));
            assert(av.take(i + 1 as int).last() == av[i as int]);
            let pd = promoted(av.take(i + 1 as int));
            if av[i as int].vis is Some {
                assert(pd =~= pd_before.push(av[i as int]));
                assert(pd.drop_last() =~= pd_before);
                assert(out@ =~= start + param_decls_text(pd));
            } else {
                assert(pd =~= pd_before);
                assert(out@ =~= start + param_decls_text(pd));
            }
        }
        i = i + 1;
    }
    proof {
        assert(av.take(av.len() as int) =~= av);
    }
}

fn append_field_decls(out: &mut String, fields: &Vec<Field>)
    ensures
        final(out)@ == old(out)@ + field_decls_text(gen_fields_v(fields@)),
{
    let ghost fv = gen_fields_v(fields@);
    let ghost start = out@;
    let mut i: usize = 0;
    while i < fields.len()
        invariant
            0 <= i <= fields@.len(),
            fv == gen_fields_v(fields@),
            fv.len() == fields@.len(),
            forall|x: int| 0 <= x < fields@.len() ==> fv[x] == fields@[x].v(),
            out@ == start + field_decls_text(fv.take(i as int)),
        decreases fields@.len() - i,
    {
        append_attrs(out, &fields[i].attrs);
        append_vis(out, &fields[i].vis);
        append_name(out, &fields[i].name);
        out.append(" : ");
        out.append(fields[i].ty.as_str());
        out.append(",\n");
        proof {
            assert(fv.take(i + 1 as int).drop_last() =~= fv.take(i as int));
            assert(fv.take(i + 1 as int).last() == fv[i as int]);
            assert(out@ =~= start + field_decls_text(fv.take(i + 1 as int)));
        }
        i = i + 1;
    }
    proof {
        assert(fv.take(fv.len() as int) =~= fv);
    }
}

fn append_field_inits(out: &mut String, fields: &Vec<Field>)
    ensures
        final(out)@ == old(out)@ + field_inits_text(gen_fields_v(fields@)),
{
    let ghost fv = gen_fields_v(fields@);
    let ghost start = out@;
    let mut i: usize = 0;
    while i < fields.len()
        invariant
            0 <= i <= fields@.len(),
            fv == gen_fields_v(fields@),
            fv.len() == fields@.len(),
            forall|x: int| 0 <= x < fields@.len() ==> fv[x] == fields@[x].v(),
            out@ == start + field_inits_text(fv.take(i as int)),
        decreases fields@.len() - i,
    {
        append_name(out, &fields[i].name);
        out.append(" : ");
        append_expr(out, &fields[i].init);
        out.append(",\n");
        proof {
            assert(fv.take(i + 1 as int).drop_last() =~= fv.take(i as int));
            assert(fv.take(i + 1 as int).last() == fv[i as int]);
            assert(out@ =~= start + field_inits_text(fv.take(i + 1 as int)));
        }
        i = i + 1;
    }
    proof {
        assert(fv.take(fv.len() as int) =~= fv);
    }
}

fn append_promoted_inits(out: &mut String, args: &Vec<Argument>)
    ensures
        final(out)@ == old(out)@ + promoted_inits_text(promoted(args_v(args@))),
{
    let ghost av = args_v(args@);
    let ghost start = out@;
    let mut i: usize = 0;
    while i < args.len()
        invariant
            0 <= i <= args@.len(),
            av == args_v(args@),
            av.len() == args@.len(),
            forall|x: int| 0 <= x < args@.len() ==> av[x] == args@[x].v(),
            out@ == start + promoted_inits_text(promoted(av.take(i as int))),
        decreases args@.len() - i,
    {
        let ghost pd_before = promoted(av.take(i as int));
        match &args[i].vis {
            Some(_) => {
                out.append(args[i].name.as_str());
                out.append(",\n");
            },
            None => {},
        }
        proof {
            assert(av.take(i + 1 as int).drop_last() =~= av.take(i as int));
            assert(av.take(i + 1 as int).last() == av[i as int]);
            let pd = promoted(av.take(i + 1 as int));
            if av[i as int].vis is Some {
                assert(pd =~= pd_before.push(av[i as int]));
                assert(pd.drop_last() =~= pd_before);
                assert(out@ =~= start + promoted_inits_text(pd));
            } else {
                assert(pd =~= pd_before);
                assert(out@ =~= start + promoted_inits_text(pd));
            }
        }
        i = i + 1;
    }
    proof {
        assert(av.take(av.len() as int) =~= av);
    }
}

fn append_ctor_params(out: &mut String, args: &Vec<Argument>)
    ensures
        final(out)@ == old(out)@ + ctor_params_text(args_v(args@)),
{
    let ghost av = args_v(args@);
    let ghost start = out@;
    let mut i: usize = 0;
    while i < args.len()
        invariant
            0 <= i <= args@.len(),
            av == args_v(args@),
            av.len() == args@.len(),
            forall|x: int| 0 <= x < args@.len() ==> av[x] == args@[x].v(),
            out@ == start + ctor_params_text(av.take(i as int)),
        decreases args@.len() - i,
    {
        out.append(args[i].name.as_str());
        out.append(" : ");
        out.append(args[i].ty.as_str());
        out.append(", ");
        proof {
            assert(av.take(i + 1 as int).drop_last() =~= av.take(i as int));
            assert(av.take(i + 1 as int).last() == av[i as int]);
            assert(out@ =~= start + ctor_params_text(av.take(i + 1 as int)));
        }
        i = i + 1;
    }
    proof {
        assert(av.take(av.len() as int) =~= av);
    }
}

impl Gen {
    /// The synthesized output for this unit, as text.
    #[verifier::rlimit(100)]
    pub fn render(&self) -> (r: String)
        ensures
            r@ == render_gen(self.v()),
    {
        let mut out = String::new();
        append_attrs(&mut out, &self.struct_attrs);
        out.append("#[repr(Rust)]\n#[non_exhaustive]\n");
        append_vis(&mut out, &self.attr.vis);
        out.append("struct ");
        out.append(self.ty.as_str());
        out.append(" ");
        out.append(self.where_clause.as_str());
        out.append(" {\n");
        append_param_decls(&mut out, &self.attr.new_args.args);
        append_field_decls(&mut out, &self.fields);
        out.append("__internal_no_default_derive : ::impl_opaque::__private::Opaque,\n");
        out.append("}\n");
        out.append("const _ : () = {\n");
        out.append("impl ");
        out.append(self.impl_generics.as_str());
        out.append(" ::core::fmt::Debug for ");
        out.append(self.ty.as_str());
        out.append(" ");
        out.append(self.where_clause.as_str());
        out.append(" {\n");
        out.append("fn fmt(&self, f: &mut ::core::fmt::Formatter<'_>) -> ::core::fmt::Result {\n");
        out.append("f.debug_struct(::core::stringify! (");
        out.append(self.ty.as_str());
        out.append(")).finish_non_exhaustive()\n}\n}\n");
        out.append("impl ");
        out.append(self.impl_generics.as_str());
        out.append(" ");
        out.append(self.ty.as_str());
        out.append(" ");
        out.append(self.where_clause.as_str());
        out.append(" {\n");
        append_vis(&mut out, &self.attr.vis);
        out.append("fn new (");
        append_ctor_params(&mut out, &self.attr.new_args.args);
        out.append(") -> Self {\nSelf {\n");
        append_field_inits(&mut out, &self.fields);
        append_promoted_inits(&mut out, &self.attr.new_args.args);
        out.append("__internal_no_default_derive : ::impl_opaque::__private::Opaque,\n}\n}\n}\n");
        out.append("};\n");
        proof {
            assert(out@ =~= render_gen(self.v()));
        }
        out
    }
}

} // verus!
