//! Instances of generic functions and types.
use crate::ast::{
    AssociatedConst, EnumDecl, EnumVariant, Expr, Function, GenericParam, ImplDecl, Param,
    StructField, TraitBound, TraitConst, Type,
};
use crate::generic::{
    explicit_args, known_or_i32, known_types, learn, learn_from_args, take_explicit,
};
use crate::growth::{
    confined, count_from, fields_kept, grown, laid_out, lemma_listed_push, lemma_returned_more,
    same_variables, settled, stays, well_listed,
};
use crate::infer::{mangled_method_name, method_name};
use crate::ir::{LTy, LTyView, dup_l_ty_seq, l_ty_seq_view};
use crate::lists::{first_index, lemma_first_index, lemma_no_index};
use crate::literal::concrete;
use crate::model::{
    AssociatedConstView, EnumDeclView, EnumVariantView, ExprView, FunctionView, GenericParamView,
    ImplDeclView, ParamView, StructFieldView, TraitBoundView, TraitConstView, TypeView,
    associated_const_seq_view, associated_const_view, dup_attribute_seq, dup_generic_param_seq,
    dup_param_seq, dup_struct_field_seq, enum_variant_seq_view, enum_variant_view,
    generic_param_seq_view, generic_param_view, param_seq_view, param_view, struct_field_seq_view,
    struct_field_view, trait_bound_seq_view, trait_bound_view, trait_const_seq_view,
    trait_const_view, type_seq_view, type_view,
};
use crate::names::{mangled, show_type, type_text};
use crate::operators::{add_trait, trait_fn, trait_fn_spec, type_key_or_fail, type_key_or_fail_spec};
use crate::query::{implements, lower_type};
use crate::state::{CodeGen, CodegenError, Env, EnvView, ErrorView, OutView, State, err};
use crate::subst::{
    inline_block, m_substitute_block, m_substitute_const_block, m_substitute_types_in_expr,
    subst_block, subst_expr, subst_type, substitute_type_params,
};
use crate::table::{Model, Table, at};
use crate::text::{cat, cat3, join, join_texts, same, texts};
use crate::token::Span;
use crate::types::{
    infer, infer_type_mappings, names_of_params, param_names, resolve_self_fn, resolve_self_type,
    subst_fn, substitute_type_params_in_func,
};
use vstd::prelude::*;

verus! {

broadcast use crate::lists::group_list_views;

/// What is known of the type parameters after every argument was looked at once more.
#[verifier::opaque]
pub open spec fn infer_again_spec(
    ps: Seq<ParamView>,
    args: Seq<TypeView>,
    names: Seq<Seq<char>>,
    known: Map<Seq<char>, TypeView>,
) -> Map<Seq<char>, TypeView> {
    let now = known;
    infer_again_spec_each(ps, args, names, now, 0)
}

/// [`infer_again_spec`] from element `i` on.
#[verifier::opaque]
pub open spec fn infer_again_spec_each(
    ps: Seq<ParamView>,
    args: Seq<TypeView>,
    names: Seq<Seq<char>>,
    now: Map<Seq<char>, TypeView>,
    i: nat,
) -> Map<Seq<char>, TypeView>
    decreases ps.len() - i,
{
    if i < ps.len() {
        let p = ps[i as int];
        let now = if (i as usize) < (args.len() as usize) {
            infer(p.ty, args[i as int], names, now)
        } else {
            now
        };
        infer_again_spec_each(ps, args, names, now, i + 1)
    } else {
        now
    }
}

/// The type arguments of a call of a generic function: those given, then those that the arguments
/// show.
#[verifier::opaque]
pub open spec fn known_in_call_spec(
    f: FunctionView,
    names: Seq<Seq<char>>,
    args: Seq<TypeView>,
    tys: Seq<TypeView>,
) -> Map<Seq<char>, TypeView> {
    let first = learn_all(f.params, args, names, explicit_args(names, tys));
    if (tys.len() as usize) == 0 {
        infer_again_spec(f.params, args, names, first)
    } else {
        first
    }
}

/// Every type parameter has to be known.
#[verifier::opaque]
pub open spec fn check_known_spec(
    names: Seq<Seq<char>>,
    known: Map<Seq<char>, TypeView>,
    place: Seq<char>,
) -> Result<(), ErrorView> {
    check_known_spec_each(names, known, place, 0)
}

/// [`check_known_spec`] from element `i` on.
#[verifier::opaque]
pub open spec fn check_known_spec_each(
    names: Seq<Seq<char>>,
    known: Map<Seq<char>, TypeView>,
    place: Seq<char>,
    i: nat,
) -> Result<(), ErrorView>
    decreases names.len() - i,
{
    if i < names.len() {
        let n = names[i as int];
        if !known.contains_key(n) {
            Err(err("Could not infer generic parameter '"@ + n + "' in "@ + place))
        } else {
            check_known_spec_each(names, known, place, i + 1)
        }
    } else {
        Ok(())
    }
}

/// The first trait in the bounds that a type does not implement.
#[verifier::opaque]
pub open spec fn unmet_bound(
    s: EnvView,
    ty: TypeView,
    bounds: Seq<TraitBoundView>,
) -> Option<Seq<char>> {
    match first_index(bounds, unmet_bound_here(s, ty)) {
        Some(i) => {
            let b = bounds[i];
            Some(b.trait_name)
        },
        None => None,
    }
}

/// Whether [`unmet_bound`] stops at an element.
pub open spec fn unmet_bound_here(s: EnvView, ty: TypeView) -> spec_fn(TraitBoundView) -> bool {
    |b: TraitBoundView| !implements(s, ty, b.trait_name)
}

/// Every type argument has to implement the traits in the bounds of its parameter.
#[verifier::opaque]
pub open spec fn check_bounds(
    s: EnvView,
    ps: Seq<GenericParamView>,
    known: Map<Seq<char>, TypeView>,
    place: Seq<char>,
) -> Result<(), ErrorView> {
    check_bounds_each(s, ps, known, place, 0)
}

/// [`check_bounds`] from element `i` on.
#[verifier::opaque]
pub open spec fn check_bounds_each(
    s: EnvView,
    ps: Seq<GenericParamView>,
    known: Map<Seq<char>, TypeView>,
    place: Seq<char>,
    i: nat,
) -> Result<(), ErrorView>
    decreases ps.len() - i,
{
    if i < ps.len() {
        let p = ps[i as int];
        match at(known, p.name) {
            Some(ty) => {
                match unmet_bound(s, ty, p.bounds) {
                    Some(name) => {
                        Err(
                            err(
                                "Generic parameter '"@ + p.name + "' (concrete type "@ + type_text(ty) + ") does not implement trait '"@ + name + "' in "@ + place,
                            ),
                        )
                    },
                    None => check_bounds_each(s, ps, known, place, i + 1),
                }
            },
            None => Err(err("internal: a generic parameter is not known"@)),
        }
    } else {
        Ok(())
    }
}

/// The parameters with the types of the arguments in place of `impl Trait`.
#[verifier::opaque]
pub open spec fn concrete_params(
    s: EnvView,
    ps: Seq<ParamView>,
    args: Seq<TypeView>,
) -> Result<Seq<ParamView>, ErrorView> {
    let out = Seq::<ParamView>::empty();
    concrete_params_each(s, ps, args, out, 0)
}

/// [`concrete_params`] from element `i` on.
#[verifier::opaque]
pub open spec fn concrete_params_each(
    s: EnvView,
    ps: Seq<ParamView>,
    args: Seq<TypeView>,
    out: Seq<ParamView>,
    i: nat,
) -> Result<Seq<ParamView>, ErrorView>
    decreases ps.len() - i,
{
    if i < ps.len() {
        let p = ps[i as int];
        match p.ty {
            TypeView::ImplTrait(bounds) => {
                if (i as usize) < (args.len() as usize) {
                    let ty = args[i as int];
                    match unmet_bound(s, ty, bounds) {
                        Some(name) => {
                            Err(
                                err(
                                    "Argument type "@ + type_text(ty) + " does not implement trait '"@ + name + "' required by impl Trait"@,
                                ),
                            )
                        },
                        None => {
                            let out = out.push(ParamView { ty: ty, ..p });
                            concrete_params_each(s, ps, args, out, i + 1)
                        },
                    }
                } else {
                    Err(err("Mismatch in argument count"@))
                }
            },
            _ => {
                let out = out.push(p);
                concrete_params_each(s, ps, args, out, i + 1)
            },
        }
    } else {
        Ok(out)
    }
}

/// The names of some types.
#[verifier::opaque]
pub open spec fn type_keys_spec(tys: Seq<TypeView>) -> Result<Seq<Seq<char>>, ErrorView> {
    let out = Seq::<Seq<char>>::empty();
    type_keys_spec_each(tys, out, 0)
}

/// [`type_keys_spec`] from element `i` on.
#[verifier::opaque]
pub open spec fn type_keys_spec_each(
    tys: Seq<TypeView>,
    out: Seq<Seq<char>>,
    i: nat,
) -> Result<Seq<Seq<char>>, ErrorView>
    decreases tys.len() - i,
{
    if i < tys.len() {
        let t = tys[i as int];
        match type_key_or_fail_spec(t) {
            Ok(k) => {
                let out = out.push(k);
                type_keys_spec_each(tys, out, i + 1)
            },
            Err(e) => Err(e),
        }
    } else {
        Ok(out)
    }
}

/// The names `keys`, then those of the types that stand for `impl Trait`.
#[verifier::opaque]
pub open spec fn impl_trait_keys_spec(
    ps: Seq<ParamView>,
    concrete: Seq<ParamView>,
    keys: Seq<Seq<char>>,
) -> Result<Seq<Seq<char>>, ErrorView> {
    let out = keys;
    impl_trait_keys_spec_each(ps, concrete, out, 0)
}

/// [`impl_trait_keys_spec`] from element `i` on.
#[verifier::opaque]
pub open spec fn impl_trait_keys_spec_each(
    ps: Seq<ParamView>,
    concrete: Seq<ParamView>,
    out: Seq<Seq<char>>,
    i: nat,
) -> Result<Seq<Seq<char>>, ErrorView>
    decreases ps.len() - i,
{
    if i < ps.len() {
        let p = ps[i as int];
        if (p.ty is ImplTrait) && ((i as usize) < (concrete.len() as usize)) {
            match type_key_or_fail_spec(concrete[i as int].ty) {
                Ok(k) => {
                    let out = out.push(k);
                    impl_trait_keys_spec_each(ps, concrete, out, i + 1)
                },
                Err(e) => Err(e),
            }
        } else {
            impl_trait_keys_spec_each(ps, concrete, out, i + 1)
        }
    } else {
        Ok(out)
    }
}

/// What the name of an instance ends with.
#[verifier::opaque]
pub open spec fn instance_suffix_spec(keys: Seq<Seq<char>>) -> Seq<char> {
    if (keys.len() as usize) == 0 {
        ""@
    } else {
        ("_mono_"@ + join(keys, "_"@))
    }
}

/// A generic function with its type arguments in place.
#[verifier::opaque]
pub open spec fn instance_of_spec(
    f: FunctionView,
    params: Seq<ParamView>,
    names: Seq<Seq<char>>,
    tys: Seq<TypeView>,
) -> FunctionView {
    let g = subst_fn((FunctionView { params: params, ..f }), names, tys);
    FunctionView { body: subst_block(g.body, names, tys), ..g }
}

/// The instance of a generic function for a call, under its mangled name.
#[verifier::opaque]
pub open spec fn function_instance(
    s: EnvView,
    f: FunctionView,
    args: Seq<TypeView>,
    tys: Seq<TypeView>,
) -> Result<FunctionView, ErrorView> {
    let names = param_names(f.type_params);
    let known = known_in_call_spec(f, names, args, tys);
    let place = "function '"@ + f.name + "'"@;
    match check_known_spec(names, known, place) {
        Ok(_) => {
            match check_bounds(s, f.type_params, known, place) {
                Ok(_) => {
                    match concrete_params(s, f.params, args) {
                        Ok(params) => {
                            let targs = known_or_i32(names, known);
                            let g = instance_of_spec(f, params, names, targs);
                            match type_keys_spec(targs) {
                                Ok(first) => {
                                    match impl_trait_keys_spec(f.params, g.params, first) {
                                        Ok(keys) => {
                                            Ok(
                                                FunctionView {
                                                    name: (f.name + instance_suffix_spec(keys)),
                                                    type_params: Seq::<GenericParamView>::empty(),
                                                    ..g
                                                },
                                            )
                                        },
                                        Err(e) => Err(e),
                                    }
                                },
                                Err(e) => Err(e),
                            }
                        },
                        Err(e) => Err(e),
                    }
                },
                Err(e) => Err(e),
            }
        },
        Err(e) => Err(e),
    }
}

/// The instance of a generic method for a call, under its mangled name.
#[verifier::opaque]
pub open spec fn method_instance(
    s: EnvView,
    owner: Seq<char>,
    f: FunctionView,
    args: Seq<TypeView>,
    tys: Seq<TypeView>,
) -> Result<FunctionView, ErrorView> {
    let names = param_names(f.type_params);
    let known = known_in_call_spec(f, names, args, tys);
    match check_known_spec(names, known, ("method '"@ + f.name + "' of type '"@ + owner + "'"@)) {
        Ok(_) => {
            match check_bounds(s, f.type_params, known, ("method '"@ + f.name + "'"@)) {
                Ok(_) => {
                    match concrete_params(s, f.params, args) {
                        Ok(params) => {
                            let targs = known_or_i32(names, known);
                            let g = resolve_self_fn(
                                instance_of_spec(f, params, names, targs),
                                TypeView::Struct(owner),
                            );
                            match type_keys_spec(targs) {
                                Ok(first) => {
                                    match impl_trait_keys_spec(f.params, g.params, first) {
                                        Ok(keys) => {
                                            Ok(
                                                FunctionView {
                                                    name: (
                                                        method_name(owner, f.name, (f.params.len() as usize) as nat)
                                                            + instance_suffix_spec(keys)
                                                    ),
                                                    type_params: Seq::<GenericParamView>::empty(),
                                                    ..g
                                                },
                                            )
                                        },
                                        Err(e) => Err(e),
                                    }
                                },
                                Err(e) => Err(e),
                            }
                        },
                        Err(e) => Err(e),
                    }
                },
                Err(e) => Err(e),
            }
        },
        Err(e) => Err(e),
    }
}

/// Every type argument of a generic type has to implement the traits in the bounds of its
/// parameter.
#[verifier::opaque]
pub open spec fn check_type_args(
    s: EnvView,
    ps: Seq<GenericParamView>,
    args: Seq<TypeView>,
    place: Seq<char>,
) -> Result<(), ErrorView> {
    check_type_args_each(s, ps, args, place, 0)
}

/// [`check_type_args`] from element `i` on.
#[verifier::opaque]
pub open spec fn check_type_args_each(
    s: EnvView,
    ps: Seq<GenericParamView>,
    args: Seq<TypeView>,
    place: Seq<char>,
    i: nat,
) -> Result<(), ErrorView>
    decreases ps.len() - i,
{
    if i < ps.len() {
        let p = ps[i as int];
        if (i as usize) < (args.len() as usize) {
            match unmet_bound(s, args[i as int], p.bounds) {
                Some(name) => {
                    Err(
                        err(
                            "Type arg "@ + type_text(args[i as int])
                                + " does not implement trait '"@ + name + "' required by "@ + place
                                + " parameter '"@ + p.name + "'"@,
                        ),
                    )
                },
                None => check_type_args_each(s, ps, args, place, i + 1),
            }
        } else {
            check_type_args_each(s, ps, args, place, i + 1)
        }
    } else {
        Ok(())
    }
}

/// The fields of an instance of a generic struct.
#[verifier::opaque]
pub open spec fn instance_fields_spec(
    fields: Seq<StructFieldView>,
    names: Seq<Seq<char>>,
    args: Seq<TypeView>,
) -> Seq<StructFieldView> {
    Seq::new(fields.len(), |i: int| {
            let f = fields[i];
            StructFieldView { ty: subst_type(f.ty, names, args), ..f }
        })
}

/// The fields of an enum: its tag, and one field for each variant with a payload.
#[verifier::opaque]
pub open spec fn enum_fields_spec(
    variants: Seq<EnumVariantView>,
    names: Seq<Seq<char>>,
    args: Seq<TypeView>,
) -> Seq<StructFieldView> {
    let out = seq![
        (
            StructFieldView {
                name: "__tag"@,
                ty: TypeView::I8,
                is_pub: false,
                span: (Span { lo: 0, hi: 0 }),
            }
        ),
    ];
    enum_fields_spec_each(variants, names, args, out, 0)
}

/// [`enum_fields_spec`] from element `i` on.
#[verifier::opaque]
pub open spec fn enum_fields_spec_each(
    variants: Seq<EnumVariantView>,
    names: Seq<Seq<char>>,
    args: Seq<TypeView>,
    out: Seq<StructFieldView>,
    i: nat,
) -> Seq<StructFieldView>
    decreases variants.len() - i,
{
    if i < variants.len() {
        let v = variants[i as int];
        let out = match v.ty {
            Some(ty) => {
                out.push(
                    StructFieldView {
                        name: ("__"@ + v.name),
                        ty: subst_type(ty, names, args),
                        is_pub: false,
                        span: (Span { lo: 0, hi: 0 }),
                    },
                )
            },
            None => out,
        };
        enum_fields_spec_each(variants, names, args, out, i + 1)
    } else {
        out
    }
}

/// The variants of an instance of a generic enum.
#[verifier::opaque]
pub open spec fn instance_variants_spec(
    variants: Seq<EnumVariantView>,
    names: Seq<Seq<char>>,
    args: Seq<TypeView>,
) -> Seq<EnumVariantView> {
    let out = Seq::<EnumVariantView>::empty();
    instance_variants_spec_each(variants, names, args, out, 0)
}

/// [`instance_variants_spec`] from element `i` on.
#[verifier::opaque]
pub open spec fn instance_variants_spec_each(
    variants: Seq<EnumVariantView>,
    names: Seq<Seq<char>>,
    args: Seq<TypeView>,
    out: Seq<EnumVariantView>,
    i: nat,
) -> Seq<EnumVariantView>
    decreases variants.len() - i,
{
    if i < variants.len() {
        let v = variants[i as int];
        let out = match v.ty {
            Some(ty) => out.push(EnumVariantView { ty: Some(subst_type(ty, names, args)), ..v }),
            None => out.push(v),
        };
        instance_variants_spec_each(variants, names, args, out, i + 1)
    } else {
        out
    }
}

/// The machine types of fields.
#[verifier::opaque]
pub open spec fn field_machine_types(
    s: EnvView,
    fields: Seq<StructFieldView>,
) -> Result<Seq<LTyView>, ErrorView> {
    let tys = Seq::<LTyView>::empty();
    field_machine_types_each(s, fields, tys, 0)
}

/// [`field_machine_types`] from element `i` on.
#[verifier::opaque]
pub open spec fn field_machine_types_each(
    s: EnvView,
    fields: Seq<StructFieldView>,
    tys: Seq<LTyView>,
    i: nat,
) -> Result<Seq<LTyView>, ErrorView>
    decreases fields.len() - i,
{
    if i < fields.len() {
        let f = fields[i as int];
        match lower_type(s, f.ty) {
            Ok(t) => {
                let tys = tys.push(t);
                field_machine_types_each(s, fields, tys, i + 1)
            },
            Err(e) => Err(e),
        }
    } else {
        Ok(tys)
    }
}

/// Whether each field is public.
#[verifier::opaque]
pub open spec fn field_access_spec(fields: Seq<StructFieldView>) -> Map<Seq<char>, bool> {
    let m = Map::<Seq<char>, bool>::empty();
    field_access_spec_each(fields, m, 0)
}

/// [`field_access_spec`] from element `i` on.
#[verifier::opaque]
pub open spec fn field_access_spec_each(
    fields: Seq<StructFieldView>,
    m: Map<Seq<char>, bool>,
    i: nat,
) -> Map<Seq<char>, bool>
    decreases fields.len() - i,
{
    if i < fields.len() {
        let f = fields[i as int];
        let m = m.insert(f.name, f.is_pub);
        field_access_spec_each(fields, m, i + 1)
    } else {
        m
    }
}

/// Gives a struct its machine type.
#[verifier::opaque]
pub open spec fn lay_out(
    s: State,
    name: Seq<char>,
    fields: Seq<StructFieldView>,
) -> (Result<(), ErrorView>, State) {
    match field_machine_types(s.env, fields) {
        Ok(tys) => {
            let s = State {
                out: OutView { struct_bodies: s.out.struct_bodies.insert(name, tys), ..s.out },
                ..s
            };
            let s = State {
                env: EnvView { struct_fields: s.env.struct_fields.insert(name, fields), ..s.env },
                ..s
            };
            let s = declare_struct_type(s, name);
            (Ok(()), s)
        },
        Err(e) => (Err(e), s),
    }
}

/// Declares a named struct.
#[verifier::opaque]
pub open spec fn declare_struct_type(s: State, name: Seq<char>) -> State {
    let s = if !s.env.struct_types.contains(name) {
        State { out: OutView { type_order: s.out.type_order.push(name), ..s.out }, ..s }
    } else {
        s
    };
    State { env: EnvView { struct_types: s.env.struct_types.insert(name), ..s.env }, ..s }
}

/// The instance of a generic struct, if the base name is one.
#[verifier::opaque]
pub open spec fn instance_struct(
    s: State,
    base: Seq<char>,
    args: Seq<TypeView>,
    mangled: Seq<char>,
) -> (Result<(), ErrorView>, State) {
    match at(s.env.generic_struct_defs, base) {
        Some(decl) => {
            match check_type_args(s.env, decl.type_params, args, ("struct '"@ + base + "'"@)) {
                Ok(_) => {
                    let fields = instance_fields_spec(
                        decl.fields,
                        param_names(decl.type_params),
                        args,
                    );
                    match lay_out(s, mangled, fields) {
                        (Ok(_), s) => {
                            let s = State {
                                env: EnvView {
                                    visibility: s.env.visibility.insert(mangled, decl.is_pub),
                                    ..s.env
                                },
                                ..s
                            };
                            let s = State {
                                env: EnvView {
                                    field_visibility: s.env.field_visibility.insert(
                                        mangled,
                                        field_access_spec(decl.fields),
                                    ),
                                    ..s.env
                                },
                                ..s
                            };
                            (Ok(()), s)
                        },
                        (Err(e), s) => (Err(e), s),
                    }
                },
                Err(e) => (Err(e), s),
            }
        },
        None => (Ok(()), s),
    }
}

/// The instance of a generic enum, if the base name is one.
#[verifier::opaque]
pub open spec fn instance_enum(
    s: State,
    base: Seq<char>,
    args: Seq<TypeView>,
    mangled: Seq<char>,
) -> (Result<(), ErrorView>, State) {
    match at(s.env.generic_enum_defs, base) {
        Some(decl) => {
            match check_type_args(s.env, decl.type_params, args, ("enum '"@ + base + "'"@)) {
                Ok(_) => {
                    let names = param_names(decl.type_params);
                    match lay_out(s, mangled, enum_fields_spec(decl.variants, names, args)) {
                        (Ok(_), s) => {
                            let s = State {
                                env: EnvView {
                                    visibility: s.env.visibility.insert(mangled, decl.is_pub),
                                    ..s.env
                                },
                                ..s
                            };
                            let s = State {
                                env: EnvView {
                                    enum_defs: s.env.enum_defs.insert(
                                        mangled,
                                        (
                                            EnumDeclView {
                                                name: mangled,
                                                variants: instance_variants_spec(
                                                    decl.variants,
                                                    names,
                                                    args,
                                                ),
                                                ..decl
                                            }
                                        ),
                                    ),
                                    ..s.env
                                },
                                ..s
                            };
                            (Ok(()), s)
                        },
                        (Err(e), s) => (Err(e), s),
                    }
                },
                Err(e) => (Err(e), s),
            }
        },
        None => (Ok(()), s),
    }
}

/// Defines an associated constant.
#[verifier::opaque]
pub open spec fn define_const(
    s: State,
    owner: Seq<char>,
    name: Seq<char>,
    value: ExprView,
    ty: TypeView,
) -> State {
    match at(s.env.const_defs, owner) {
        Some(known) => {
            let more = known;
            let more = more.insert(name, (value, ty));
            State {
                env: EnvView { const_defs: s.env.const_defs.insert(owner, more), ..s.env },
                ..s
            }
        },
        None => {
            let more = Map::<Seq<char>, (ExprView, TypeView)>::empty();
            let more = more.insert(name, (value, ty));
            State {
                env: EnvView { const_defs: s.env.const_defs.insert(owner, more), ..s.env },
                ..s
            }
        },
    }
}

/// The associated constants of an instance: the type parameters are replaced in their types and
/// values.
#[verifier::opaque]
pub open spec fn instance_consts(
    s: State,
    consts: Seq<AssociatedConstView>,
    owner: Seq<char>,
    names: Seq<Seq<char>>,
    args: Seq<TypeView>,
) -> State {
    instance_consts_each(s, consts, owner, names, args, 0)
}

/// [`instance_consts`] from element `i` on.
#[verifier::opaque]
pub open spec fn instance_consts_each(
    s: State,
    consts: Seq<AssociatedConstView>,
    owner: Seq<char>,
    names: Seq<Seq<char>>,
    args: Seq<TypeView>,
    i: nat,
) -> State
    decreases consts.len() - i,
{
    if i < consts.len() {
        let c = consts[i as int];
        let s = define_const(
            s,
            owner,
            c.name,
            subst_expr(c.value, names, args),
            subst_type(c.ty, names, args),
        );
        instance_consts_each(s, consts, owner, names, args, i + 1)
    } else {
        s
    }
}

/// Whether an `impl` block defines a constant.
#[verifier::opaque]
pub open spec fn provides_const_spec(consts: Seq<AssociatedConstView>, name: Seq<char>) -> bool {
    exists|i: int| #![trigger consts[i]] 0 <= i < consts.len() && {
        let c = consts[i];
        c.name == name
    }
}

/// The constants of a trait that have a default and that an `impl` block does not define.
#[verifier::opaque]
pub open spec fn default_consts(
    s: State,
    defaults: Seq<TraitConstView>,
    consts: Seq<AssociatedConstView>,
    owner: Seq<char>,
    names: Seq<Seq<char>>,
    args: Seq<TypeView>,
) -> State {
    default_consts_each(s, defaults, consts, owner, names, args, 0)
}

/// [`default_consts`] from element `i` on.
#[verifier::opaque]
pub open spec fn default_consts_each(
    s: State,
    defaults: Seq<TraitConstView>,
    consts: Seq<AssociatedConstView>,
    owner: Seq<char>,
    names: Seq<Seq<char>>,
    args: Seq<TypeView>,
    i: nat,
) -> State
    decreases defaults.len() - i,
{
    if i < defaults.len() {
        let c = defaults[i as int];
        let s = match c.default_value {
            Some(value) => {
                if !provides_const_spec(consts, c.name) {
                    define_const(
                        s,
                        owner,
                        c.name,
                        subst_expr(value, names, args),
                        subst_type(c.ty, names, args),
                    )
                } else {
                    s
                }
            },
            None => s,
        };
        default_consts_each(s, defaults, consts, owner, names, args, i + 1)
    } else {
        s
    }
}

/// What an `impl` block gives an instance, but for its methods.
#[verifier::opaque]
pub open spec fn instance_impl(
    s: State,
    decl: ImplDeclView,
    owner: Seq<char>,
    names: Seq<Seq<char>>,
    args: Seq<TypeView>,
) -> State {
    let s = match decl.trait_name {
        Some(name) => add_trait(s, owner, name),
        None => s,
    };
    let s = instance_consts(s, decl.consts, owner, names, args);
    match decl.trait_name {
        Some(name) => {
            match at(s.env.trait_defs, name) {
                Some(def_) => default_consts(s, def_.consts, decl.consts, owner, names, args),
                None => s,
            }
        },
        None => s,
    }
}

/// The type arguments of an `impl` block of arrays: the element type, and `i32` for others.
#[verifier::opaque]
pub open spec fn slice_type_args_spec(
    ps: Seq<GenericParamView>,
    inner: Seq<char>,
    elem: TypeView,
) -> Seq<TypeView> {
    let out = Seq::<TypeView>::empty();
    slice_type_args_spec_each(ps, inner, elem, out, 0)
}

/// [`slice_type_args_spec`] from element `i` on.
#[verifier::opaque]
pub open spec fn slice_type_args_spec_each(
    ps: Seq<GenericParamView>,
    inner: Seq<char>,
    elem: TypeView,
    out: Seq<TypeView>,
    i: nat,
) -> Seq<TypeView>
    decreases ps.len() - i,
{
    if i < ps.len() {
        let p = ps[i as int];
        let out = if p.name == inner {
            out.push(elem)
        } else {
            out.push(TypeView::I32)
        };
        slice_type_args_spec_each(ps, inner, elem, out, i + 1)
    } else {
        out
    }
}

/// The constant arguments of an `impl` block of arrays: the length for each.
#[verifier::opaque]
pub open spec fn slice_lengths_spec(ps: Seq<Seq<char>>, len: usize) -> Seq<i64> {
    let out = Seq::<i64>::empty();
    slice_lengths_spec_each(ps, len, out, 0)
}

/// [`slice_lengths_spec`] from element `i` on.
#[verifier::opaque]
pub open spec fn slice_lengths_spec_each(
    ps: Seq<Seq<char>>,
    len: usize,
    out: Seq<i64>,
    i: nat,
) -> Seq<i64>
    decreases ps.len() - i,
{
    if i < ps.len() {
        let p = ps[i as int];
        let out = out.push(len as i64);
        slice_lengths_spec_each(ps, len, out, i + 1)
    } else {
        out
    }
}

/// The name that an `impl` block of arrays gives the element type.
#[verifier::opaque]
pub open spec fn element_param_spec(inner: TypeView) -> Seq<char> {
    match inner {
        TypeView::Struct(name) => name,
        _ => ""@,
    }
}

/// A method of an array type, under its mangled name.
#[verifier::opaque]
pub open spec fn slice_method_spec(
    f: FunctionView,
    names: Seq<Seq<char>>,
    tys: Seq<TypeView>,
    array_ty: TypeView,
    consts: Seq<Seq<char>>,
    lens: Seq<i64>,
    name: Seq<char>,
) -> FunctionView {
    let g = resolve_self_fn(subst_fn(f, names, tys), array_ty);
    let body = subst_block(inline_block(g.body, consts, lens), names, tys);
    FunctionView { body: body, name: name, ..g }
}

/// The mangled name of a method of an array type.
#[verifier::opaque]
pub open spec fn slice_method_name_spec(
    trait_name: Option<Seq<char>>,
    method: Seq<char>,
    key: Seq<char>,
    n: usize,
) -> Seq<char> {
    match trait_name {
        Some(t) => trait_fn_spec(t, method, key),
        None => method_name(key, method, n as nat),
    }
}

/// Whether a name is that of a generic struct or enum.
#[verifier::opaque]
pub open spec fn is_generic_base(s: EnvView, name: Seq<char>) -> bool {
    (s.generic_struct_defs.contains_key(name) || s.generic_enum_defs.contains_key(name))
}

/// What is known of the type parameters after the arguments were looked at.
pub open spec fn learn_all(
    ps: Seq<ParamView>,
    args: Seq<TypeView>,
    names: Seq<Seq<char>>,
    known: Map<Seq<char>, TypeView>,
) -> Map<Seq<char>, TypeView> {
    learn(ps, args, names, 0, known)
}

/// What is known of the type parameters after the arguments were looked at.
pub fn learned(
    ps: &Vec<Param>,
    args: &Vec<Type>,
    names: &Vec<String>,
    known: &Table<Type>,
) -> (r: Table<
    Type,
>)
    ensures
        r@ == learn_all(param_seq_view(ps@), type_seq_view(args@), texts(names@), known@),
{
    let mut more = known.dup();
    learn_from_args(ps, args, names, &mut more);
    more
}

/// What is known of the type parameters after one argument was looked at.
pub fn inferred(p: &Type, a: &Type, names: &Vec<String>, known: &Table<Type>) -> (r: Table<Type>)
    ensures
        r@ == infer(p@, a@, texts(names@), known@),
{
    let mut more = known.dup();
    infer_type_mappings(p, a, names, &mut more);
    more
}

/// The fields that are kept for an instance of a generic struct are those of the struct, with the
/// type parameters replaced by the arguments.
pub open spec fn struct_laid_out(
    a: EnvView,
    b: EnvView,
    base: Seq<char>,
    args: Seq<TypeView>,
    name: Seq<char>,
) -> bool {
    a.generic_struct_defs.contains_key(base) ==> b.struct_fields.contains_key(name)
        && b.struct_fields[name] == instance_fields_spec(
        a.generic_struct_defs[base].fields,
        param_names(a.generic_struct_defs[base].type_params),
        args,
    )
}

/// The fields that are kept for an instance under its mangled name, where its base is the name of a
/// generic struct and of no generic enum.
pub open spec fn instance_laid_out(
    a: EnvView,
    b: EnvView,
    base: Seq<char>,
    args: Seq<TypeView>,
) -> bool {
    !a.generic_enum_defs.contains_key(base) ==> struct_laid_out(
        a,
        b,
        base,
        args,
        mangled(base, args),
    )
}

/// What is known of the type parameters after every argument was looked at once more.
pub fn infer_again(
    ps: &Vec<Param>,
    args: &Vec<Type>,
    names: &Vec<String>,
    known: &Table<Type>,
) -> (r: Table<Type>)
    ensures
        r@ == infer_again_spec(param_seq_view(ps@), type_seq_view(args@), texts(names@), known@),
{
    proof {
        reveal(infer_again_spec);
        reveal(infer_again_spec_each);
    }
    let mut now = known.dup();
    let mut i: usize = 0;
    while i < ps.len()
        invariant
            i <= ps@.len(),
            infer_again_spec_each(
                param_seq_view(ps@),
                type_seq_view(args@),
                texts(names@),
                now@,
                i as nat,
            ) == infer_again_spec(param_seq_view(ps@), type_seq_view(args@), texts(names@), known@),
        decreases ps@.len() - i,
    {
        proof {
            reveal(infer_again_spec);
            reveal(infer_again_spec_each);
        }
        let p = &ps[i];
        proof {
            assert(param_seq_view(ps@)[i as int] == param_view(ps@[i as int]));
        }
        proof {
            assert(type_seq_view(args@).len() == args@.len());
        }
        if i < args.len() {
            proof {
                assert(type_seq_view(args@)[i as int] == type_view(args@[i as int]));
            }
            now = inferred(&p.ty, &args[i], names, &now);
        }
        i += 1;
    }
    now
}

/// The type arguments of a call of a generic function: those given, then those that the arguments
/// show.
pub fn known_in_call(
    f: &Function,
    names: &Vec<String>,
    args: &Vec<Type>,
    tys: &Vec<Type>,
) -> (r: Table<Type>)
    ensures
        r@ == known_in_call_spec(f@, texts(names@), type_seq_view(args@), type_seq_view(tys@)),
{
    proof {
        reveal(known_in_call_spec);
    }
    let first = learned(&f.params, args, names, &take_explicit(names, tys));
    proof {
        assert(type_seq_view(tys@).len() == tys@.len());
    }
    if tys.len() == 0 {
        return infer_again(&f.params, args, names, &first);
    }
    first
}

/// Every type parameter has to be known.
pub fn check_known(
    names: &Vec<String>,
    known: &Table<Type>,
    place: &str,
) -> (r: Result<(), CodegenError>)
    ensures
        r.model() == check_known_spec(texts(names@), known@, place@),
{
    proof {
        reveal(check_known_spec);
        reveal(check_known_spec_each);
    }
    let mut i: usize = 0;
    while i < names.len()
        invariant
            i <= names@.len(),
            check_known_spec_each(
                texts(names@),
                known@,
                place@,
                i as nat,
            ) == check_known_spec(texts(names@), known@, place@),
        decreases names@.len() - i,
    {
        proof {
            reveal(check_known_spec);
            reveal(check_known_spec_each);
        }
        let n = &names[i];
        if !known.contains_key(n) {
            return Err(
                CodegenError::new(
                    cat(&cat3("Could not infer generic parameter '", n, "' in "), place),
                ),
            );
        }
        i += 1;
    }
    Ok(())
}

/// The names of some types.
pub fn type_keys(tys: &Vec<Type>) -> (r: Result<Vec<String>, CodegenError>)
    ensures
        r.model() == type_keys_spec(type_seq_view(tys@)),
{
    proof {
        reveal(type_keys_spec);
        reveal(type_keys_spec_each);
    }
    let items: Vec<String> = Vec::new();
    proof {
        assert(texts(items@) =~= Seq::<Seq<char>>::empty());
    }
    let mut out = items;
    let mut i: usize = 0;
    while i < tys.len()
        invariant
            i <= tys@.len(),
            type_keys_spec_each(
                type_seq_view(tys@),
                texts(out@),
                i as nat,
            ) == type_keys_spec(type_seq_view(tys@)),
        decreases tys@.len() - i,
    {
        proof {
            reveal(type_keys_spec);
            reveal(type_keys_spec_each);
        }
        let t = &tys[i];
        proof {
            assert(type_seq_view(tys@)[i as int] == type_view(tys@[i as int]));
        }
        let k = match type_key_or_fail(t) {
            Ok(v) => v,
            Err(e) => {
                return Err(e);
            },
        };
        let ghost prior = texts(out@);
        let item = k.clone();
        out.push(item);
        proof {
            assert(texts(out@) =~= prior.push(item@));
        }
        i += 1;
    }
    Ok(out.dup())
}

/// The names `keys`, then those of the types that stand for `impl Trait`.
pub fn impl_trait_keys(
    ps: &Vec<Param>,
    concrete: &Vec<Param>,
    keys: &Vec<String>,
) -> (r: Result<Vec<String>, CodegenError>)
    ensures
        r.model() == impl_trait_keys_spec(
            param_seq_view(ps@),
            param_seq_view(concrete@),
            texts(keys@),
        ),
{
    proof {
        reveal(impl_trait_keys_spec);
        reveal(impl_trait_keys_spec_each);
    }
    let mut out = keys.dup();
    let mut i: usize = 0;
    while i < ps.len()
        invariant
            i <= ps@.len(),
            impl_trait_keys_spec_each(
                param_seq_view(ps@),
                param_seq_view(concrete@),
                texts(out@),
                i as nat,
            ) == impl_trait_keys_spec(param_seq_view(ps@), param_seq_view(concrete@), texts(keys@)),
        decreases ps@.len() - i,
    {
        proof {
            reveal(impl_trait_keys_spec);
            reveal(impl_trait_keys_spec_each);
        }
        let p = &ps[i];
        proof {
            assert(param_seq_view(ps@)[i as int] == param_view(ps@[i as int]));
        }
        proof {
            assert(param_seq_view(concrete@).len() == concrete@.len());
        }
        if matches!(&p.ty, Type::ImplTrait { .. }) && (i < concrete.len()) {
            proof {
                assert(param_seq_view(concrete@)[i as int] == param_view(concrete@[i as int]));
            }
            let k = match type_key_or_fail(&concrete[i].ty) {
                Ok(v) => v,
                Err(e) => {
                    return Err(e);
                },
            };
            let ghost prior = texts(out@);
            let item = k.clone();
            out.push(item);
            proof {
                assert(texts(out@) =~= prior.push(item@));
            }
        }
        i += 1;
    }
    Ok(out.dup())
}

/// What the name of an instance ends with.
pub fn instance_suffix(keys: &Vec<String>) -> (r: String)
    ensures
        r@ == instance_suffix_spec(texts(keys@)),
{
    proof {
        reveal(instance_suffix_spec);
    }
    if keys.len() == 0 {
        return "".to_owned();
    }
    cat("_mono_", &join_texts(keys, "_"))
}

/// A generic function with its type arguments in place.
pub fn instance_of(
    f: &Function,
    params: &Vec<Param>,
    names: &Vec<String>,
    tys: &Vec<Type>,
) -> (r: Function)
    ensures
        r@ == instance_of_spec(f@, param_seq_view(params@), texts(names@), type_seq_view(tys@)),
{
    proof {
        reveal(instance_of_spec);
    }
    let g = substitute_type_params_in_func(
        &Function {
            params: dup_param_seq(params),
            name: f.name.clone(),
            return_type: f.return_type.dup(),
            type_params: dup_generic_param_seq(&f.type_params),
            body: f.body.clone(),
            is_extern: f.is_extern,
            is_intrinsic: f.is_intrinsic,
            is_method: f.is_method,
            is_pub: f.is_pub,
            attribs: dup_attribute_seq(&f.attribs),
            span: f.span,
        },
        names,
        tys,
    );
    Function {
        body: m_substitute_block(&g.body, names, tys),
        name: g.name.clone(),
        params: dup_param_seq(&g.params),
        return_type: g.return_type.dup(),
        type_params: dup_generic_param_seq(&g.type_params),
        is_extern: g.is_extern,
        is_intrinsic: g.is_intrinsic,
        is_method: g.is_method,
        is_pub: g.is_pub,
        attribs: dup_attribute_seq(&g.attribs),
        span: g.span,
    }
}

/// The fields of an instance of a generic struct.
pub fn instance_fields(
    fields: &Vec<StructField>,
    names: &Vec<String>,
    args: &Vec<Type>,
) -> (r: Vec<StructField>)
    ensures
        struct_field_seq_view(r@) == instance_fields_spec(
            struct_field_seq_view(fields@),
            texts(names@),
            type_seq_view(args@),
        ),
{
    proof {
        reveal(instance_fields_spec);
    }
    let items: Vec<StructField> = Vec::new();
    proof {
        assert(struct_field_seq_view(items@) =~= Seq::<StructFieldView>::empty());
    }
    let mut out = items;
    let mut i: usize = 0;
    while i < fields.len()
        invariant
            i <= fields@.len(),
            struct_field_seq_view(out@).len() == i,
            forall|k: int| #![trigger struct_field_seq_view(out@)[k]] 0 <= k < i ==> struct_field_seq_view(out@)[k] == {
                let names = texts(names@);
                let args = type_seq_view(args@);
                let f = struct_field_seq_view(fields@)[k];
                (StructFieldView { ty: subst_type(f.ty, names, args), ..f })
            },
        decreases fields@.len() - i,
    {
        let f = &fields[i];
        proof {
            assert(struct_field_seq_view(fields@)[i as int] == struct_field_view(fields@[i as int]));
        }
        let ghost prior = struct_field_seq_view(out@);
        let item = StructField {
            ty: substitute_type_params(&f.ty, names, args),
            name: f.name.clone(),
            is_pub: f.is_pub,
            span: f.span,
        };
        out.push(item);
        proof {
            assert(struct_field_seq_view(out@) =~= prior.push(item@));
        }
        i += 1;
    }
    proof {
        assert(struct_field_seq_view(out@) =~= instance_fields_spec(struct_field_seq_view(fields@), texts(names@), type_seq_view(args@)));
    }
    out
}

/// The fields of an enum: its tag, and one field for each variant with a payload.
pub fn enum_fields(
    variants: &Vec<EnumVariant>,
    names: &Vec<String>,
    args: &Vec<Type>,
) -> (r: Vec<StructField>)
    ensures
        struct_field_seq_view(r@) == enum_fields_spec(
            enum_variant_seq_view(variants@),
            texts(names@),
            type_seq_view(args@),
        ),
{
    proof {
        reveal(enum_fields_spec);
        reveal(enum_fields_spec_each);
    }
    let mut items: Vec<StructField> = Vec::new();
    let item = StructField {
        name: "__tag".to_owned(),
        ty: Type::I8,
        is_pub: false,
        span: Span::empty(0),
    };
    items.push(item);
    proof {
        assert(struct_field_seq_view(items@) =~= seq![item@]);
    }
    let mut out = items;
    let mut i: usize = 0;
    while i < variants.len()
        invariant
            i <= variants@.len(),
            enum_fields_spec_each(
                enum_variant_seq_view(variants@),
                texts(names@),
                type_seq_view(args@),
                struct_field_seq_view(out@),
                i as nat,
            ) == enum_fields_spec(
                enum_variant_seq_view(variants@),
                texts(names@),
                type_seq_view(args@),
            ),
        decreases variants@.len() - i,
    {
        proof {
            reveal(enum_fields_spec);
            reveal(enum_fields_spec_each);
        }
        let v = &variants[i];
        proof {
            assert(enum_variant_seq_view(variants@)[i as int] == enum_variant_view(variants@[i as int]));
        }
        match &v.ty {
            Some(ty) => {
                let ghost prior = struct_field_seq_view(out@);
                let item2 = StructField {
                    name: cat("__", &v.name),
                    ty: substitute_type_params(ty, names, args),
                    is_pub: false,
                    span: Span::empty(0),
                };
                out.push(item2);
                proof {
                    assert(struct_field_seq_view(out@) =~= prior.push(item2@));
                }
            },
            None => {},
        }
        i += 1;
    }
    out
}

/// The variants of an instance of a generic enum.
pub fn instance_variants(
    variants: &Vec<EnumVariant>,
    names: &Vec<String>,
    args: &Vec<Type>,
) -> (r: Vec<EnumVariant>)
    ensures
        enum_variant_seq_view(r@) == instance_variants_spec(
            enum_variant_seq_view(variants@),
            texts(names@),
            type_seq_view(args@),
        ),
{
    proof {
        reveal(instance_variants_spec);
        reveal(instance_variants_spec_each);
    }
    let items: Vec<EnumVariant> = Vec::new();
    proof {
        assert(enum_variant_seq_view(items@) =~= Seq::<EnumVariantView>::empty());
    }
    let mut out = items;
    let mut i: usize = 0;
    while i < variants.len()
        invariant
            i <= variants@.len(),
            instance_variants_spec_each(
                enum_variant_seq_view(variants@),
                texts(names@),
                type_seq_view(args@),
                enum_variant_seq_view(out@),
                i as nat,
            ) == instance_variants_spec(
                enum_variant_seq_view(variants@),
                texts(names@),
                type_seq_view(args@),
            ),
        decreases variants@.len() - i,
    {
        proof {
            reveal(instance_variants_spec);
            reveal(instance_variants_spec_each);
        }
        let v = &variants[i];
        proof {
            assert(enum_variant_seq_view(variants@)[i as int] == enum_variant_view(variants@[i as int]));
        }
        match &v.ty {
            Some(ty) => {
                let ghost prior = enum_variant_seq_view(out@);
                let item = EnumVariant {
                    ty: Some(substitute_type_params(ty, names, args)),
                    name: v.name.clone(),
                    span: v.span,
                };
                out.push(item);
                proof {
                    assert(enum_variant_seq_view(out@) =~= prior.push(item@));
                }
            },
            None => {
                let ghost prior2 = enum_variant_seq_view(out@);
                let item2 = v.clone();
                out.push(item2);
                proof {
                    assert(enum_variant_seq_view(out@) =~= prior2.push(item2@));
                }
            },
        }
        i += 1;
    }
    out
}

/// Whether each field is public.
pub fn field_access(fields: &Vec<StructField>) -> (r: Table<bool>)
    ensures
        r@ == field_access_spec(struct_field_seq_view(fields@)),
{
    proof {
        reveal(field_access_spec);
        reveal(field_access_spec_each);
    }
    let table2: Table<bool> = Table::new();
    let mut m = table2;
    let mut i: usize = 0;
    while i < fields.len()
        invariant
            i <= fields@.len(),
            field_access_spec_each(
                struct_field_seq_view(fields@),
                m@,
                i as nat,
            ) == field_access_spec(struct_field_seq_view(fields@)),
        decreases fields@.len() - i,
    {
        proof {
            reveal(field_access_spec);
            reveal(field_access_spec_each);
        }
        let f = &fields[i];
        proof {
            assert(struct_field_seq_view(fields@)[i as int] == struct_field_view(fields@[i as int]));
        }
        m.insert(f.name.clone(), f.is_pub);
        i += 1;
    }
    m
}

/// Whether an `impl` block defines a constant.
pub fn provides_const(consts: &Vec<AssociatedConst>, name: &str) -> (r: bool)
    ensures
        r == provides_const_spec(associated_const_seq_view(consts@), name@),
{
    proof {
        reveal(provides_const_spec);
    }
    let mut i: usize = 0;
    while i < consts.len()
        invariant
            i <= consts@.len(),
            forall|k: int| #![trigger associated_const_seq_view(consts@)[k]] 0 <= k < i ==> !{
                let name = name@;
                let c = associated_const_seq_view(consts@)[k];
                c.name == name
            },
        decreases consts@.len() - i,
    {
        let c = &consts[i];
        proof {
            assert(associated_const_seq_view(consts@)[i as int] == associated_const_view(consts@[i as int]));
        }
        if same(&c.name, name) {
            proof {
                reveal(provides_const_spec);
            }
            return true;
        }
        i += 1;
    }
    false
}

/// The type arguments of an `impl` block of arrays: the element type, and `i32` for others.
pub fn slice_type_args(ps: &Vec<GenericParam>, inner: &str, elem: &Type) -> (r: Vec<Type>)
    ensures
        type_seq_view(r@) == slice_type_args_spec(generic_param_seq_view(ps@), inner@, elem@),
{
    proof {
        reveal(slice_type_args_spec);
        reveal(slice_type_args_spec_each);
    }
    let items: Vec<Type> = Vec::new();
    proof {
        assert(type_seq_view(items@) =~= Seq::<TypeView>::empty());
    }
    let mut out = items;
    let mut i: usize = 0;
    while i < ps.len()
        invariant
            i <= ps@.len(),
            slice_type_args_spec_each(
                generic_param_seq_view(ps@),
                inner@,
                elem@,
                type_seq_view(out@),
                i as nat,
            ) == slice_type_args_spec(generic_param_seq_view(ps@), inner@, elem@),
        decreases ps@.len() - i,
    {
        proof {
            reveal(slice_type_args_spec);
            reveal(slice_type_args_spec_each);
        }
        let p = &ps[i];
        proof {
            assert(generic_param_seq_view(ps@)[i as int] == generic_param_view(ps@[i as int]));
        }
        if same(&p.name, inner) {
            let ghost prior = type_seq_view(out@);
            let item = elem.clone();
            out.push(item);
            proof {
                assert(type_seq_view(out@) =~= prior.push(item@));
            }
        } else {
            let ghost prior2 = type_seq_view(out@);
            let item2 = Type::I32;
            out.push(item2);
            proof {
                assert(type_seq_view(out@) =~= prior2.push(item2@));
            }
        }
        i += 1;
    }
    out
}

/// The constant arguments of an `impl` block of arrays: the length for each.
pub fn slice_lengths(ps: &Vec<String>, len: usize) -> (r: Vec<i64>)
    ensures
        r@ == slice_lengths_spec(texts(ps@), len),
{
    proof {
        reveal(slice_lengths_spec);
        reveal(slice_lengths_spec_each);
    }
    let items: Vec<i64> = Vec::new();
    proof {
        assert(items@ =~= Seq::<i64>::empty());
    }
    let mut out = items;
    let mut i: usize = 0;
    while i < ps.len()
        invariant
            i <= ps@.len(),
            slice_lengths_spec_each(
                texts(ps@),
                len,
                out@,
                i as nat,
            ) == slice_lengths_spec(texts(ps@), len),
        decreases ps@.len() - i,
    {
        proof {
            reveal(slice_lengths_spec);
            reveal(slice_lengths_spec_each);
        }
        let p = &ps[i];
        let ghost prior = out@;
        let item = len as i64;
        out.push(item);
        proof {
            assert(out@ =~= prior.push(item));
        }
        i += 1;
    }
    out
}

/// The name that an `impl` block of arrays gives the element type.
pub fn element_param(inner: &Type) -> (r: String)
    ensures
        r@ == element_param_spec(inner@),
{
    proof {
        reveal(element_param_spec);
    }
    match inner {
        Type::Struct(name) => {
            return name.clone();
        },
        _ => {
            return "".to_owned();
        },
    }
}

/// A method of an array type, under its mangled name.
pub fn slice_method(
    f: &Function,
    names: &Vec<String>,
    tys: &Vec<Type>,
    array_ty: &Type,
    consts: &Vec<String>,
    lens: &Vec<i64>,
    name: &str,
) -> (r: Function)
    ensures
        r@ == slice_method_spec(
            f@,
            texts(names@),
            type_seq_view(tys@),
            array_ty@,
            texts(consts@),
            lens@,
            name@,
        ),
{
    proof {
        reveal(slice_method_spec);
    }
    let g = resolve_self_type(&substitute_type_params_in_func(f, names, tys), array_ty);
    let body = m_substitute_block(&m_substitute_const_block(&g.body, consts, lens), names, tys);
    Function {
        body: body.clone(),
        name: name.to_owned(),
        params: dup_param_seq(&g.params),
        return_type: g.return_type.dup(),
        type_params: dup_generic_param_seq(&g.type_params),
        is_extern: g.is_extern,
        is_intrinsic: g.is_intrinsic,
        is_method: g.is_method,
        is_pub: g.is_pub,
        attribs: dup_attribute_seq(&g.attribs),
        span: g.span,
    }
}

/// The mangled name of a method of an array type.
pub fn slice_method_name(
    trait_name: &Option<String>,
    method: &str,
    key: &str,
    n: usize,
) -> (r: String)
    ensures
        r@ == slice_method_name_spec(trait_name.model(), method@, key@, n),
{
    proof {
        reveal(slice_method_name_spec);
    }
    match trait_name {
        Some(t) => {
            return trait_fn(t, method, key);
        },
        None => {
            return mangled_method_name(key, method, n);
        },
    }
}

impl Env {
    /// The first trait in the bounds that a type does not implement.
    pub fn unmet_bound(&self, ty: &Type, bounds: &Vec<TraitBound>) -> (r: Option<String>)
        ensures
            r.model() == unmet_bound(self@, ty@, trait_bound_seq_view(bounds@)),
    {
        proof {
            reveal(unmet_bound);
        }
        let mut i: usize = 0;
        while i < bounds.len()
            invariant
                i <= bounds@.len(),
                forall|k: int| #![trigger trait_bound_seq_view(bounds@)[k]] 0 <= k < i ==> !unmet_bound_here(self@, ty@)(
                    trait_bound_seq_view(bounds@)[k],
                ),
            decreases bounds@.len() - i,
        {
            let b = &bounds[i];
            proof {
                assert(trait_bound_seq_view(bounds@)[i as int] == trait_bound_view(bounds@[i as int]));
            }
            if !self.check_type_implements_trait(ty, &b.trait_name) {
                proof {
                    reveal(unmet_bound);
                }
                proof {
                    lemma_first_index(
                        trait_bound_seq_view(bounds@),
                        unmet_bound_here(self@, ty@),
                        i as int,
                    );
                }
                return Some(b.trait_name.clone());
            }
            i += 1;
        }
        proof {
            lemma_no_index(trait_bound_seq_view(bounds@), unmet_bound_here(self@, ty@));
        }
        None
    }

    /// Every type argument has to implement the traits in the bounds of its parameter.
    pub fn check_bounds(
        &self,
        ps: &Vec<GenericParam>,
        known: &Table<Type>,
        place: &str,
    ) -> (r: Result<(), CodegenError>)
        ensures
            r.model() == check_bounds(self@, generic_param_seq_view(ps@), known@, place@),
    {
        proof {
            reveal(check_bounds);
            reveal(check_bounds_each);
        }
        let mut i: usize = 0;
        while i < ps.len()
            invariant
                i <= ps@.len(),
                check_bounds_each(
                    self@,
                    generic_param_seq_view(ps@),
                    known@,
                    place@,
                    i as nat,
                ) == check_bounds(self@, generic_param_seq_view(ps@), known@, place@),
            decreases ps@.len() - i,
        {
            proof {
                reveal(check_bounds);
                reveal(check_bounds_each);
            }
            let p = &ps[i];
            proof {
                assert(generic_param_seq_view(ps@)[i as int] == generic_param_view(ps@[i as int]));
            }
            let subject = known.get_dup(&p.name);
            match &subject {
                Some(ty) => {
                    let subject2 = self.unmet_bound(ty, &p.bounds);
                    match &subject2 {
                        Some(name) => {
                            return Err(
                                CodegenError::new(
                                    cat(
                                        &cat3(
                                            &cat3(
                                                &cat3(
                                                    "Generic parameter '",
                                                    &p.name,
                                                    "' (concrete type ",
                                                ),
                                                &show_type(ty),
                                                ") does not implement trait '",
                                            ),
                                            name,
                                            "' in ",
                                        ),
                                        place,
                                    ),
                                ),
                            );
                        },
                        None => {},
                    }
                },
                None => {
                    return Err(
                        CodegenError::new("internal: a generic parameter is not known".to_owned()),
                    );
                },
            }
            i += 1;
        }
        Ok(())
    }

    /// The parameters with the types of the arguments in place of `impl Trait`.
    pub fn concrete_params(
        &self,
        ps: &Vec<Param>,
        args: &Vec<Type>,
    ) -> (r: Result<Vec<Param>, CodegenError>)
        ensures
            r.model() == concrete_params(self@, param_seq_view(ps@), type_seq_view(args@)),
    {
        proof {
            reveal(concrete_params);
            reveal(concrete_params_each);
        }
        let items: Vec<Param> = Vec::new();
        proof {
            assert(param_seq_view(items@) =~= Seq::<ParamView>::empty());
        }
        let mut out = items;
        let mut i: usize = 0;
        while i < ps.len()
            invariant
                i <= ps@.len(),
                concrete_params_each(
                    self@,
                    param_seq_view(ps@),
                    type_seq_view(args@),
                    param_seq_view(out@),
                    i as nat,
                ) == concrete_params(self@, param_seq_view(ps@), type_seq_view(args@)),
            decreases ps@.len() - i,
        {
            proof {
                reveal(concrete_params);
                reveal(concrete_params_each);
            }
            let p = &ps[i];
            proof {
                assert(param_seq_view(ps@)[i as int] == param_view(ps@[i as int]));
            }
            match &p.ty {
                Type::ImplTrait(bounds) => {
                    proof {
                        assert(type_seq_view(args@).len() == args@.len());
                    }
                    if i < args.len() {
                        proof {
                            assert(type_seq_view(args@)[i as int] == type_view(args@[i as int]));
                        }
                        let ty = args[i].clone();
                        let subject = self.unmet_bound(&ty, bounds);
                        match &subject {
                            Some(name) => {
                                return Err(
                                    CodegenError::new(
                                        cat3(
                                            &cat3(
                                                "Argument type ",
                                                &show_type(&ty),
                                                " does not implement trait '",
                                            ),
                                            name,
                                            "' required by impl Trait",
                                        ),
                                    ),
                                );
                            },
                            None => {
                                let ghost prior = param_seq_view(out@);
                                let item = Param {
                                    ty: ty.clone(),
                                    name: p.name.clone(),
                                    span: p.span,
                                };
                                out.push(item);
                                proof {
                                    assert(param_seq_view(out@) =~= prior.push(item@));
                                }
                            },
                        }
                    } else {
                        return Err(CodegenError::new("Mismatch in argument count".to_owned()));
                    }
                },
                _ => {
                    let ghost prior2 = param_seq_view(out@);
                    let item2 = p.clone();
                    out.push(item2);
                    proof {
                        assert(param_seq_view(out@) =~= prior2.push(item2@));
                    }
                },
            }
            i += 1;
        }
        Ok(dup_param_seq(&out))
    }

    /// The instance of a generic function for a call, under its mangled name.
    pub fn function_instance(
        &self,
        f: &Function,
        args: &Vec<Type>,
        tys: &Vec<Type>,
    ) -> (r: Result<Function, CodegenError>)
        ensures
            r.model() == function_instance(self@, f@, type_seq_view(args@), type_seq_view(tys@)),
    {
        proof {
            reveal(function_instance);
        }
        let names = names_of_params(&f.type_params);
        let known = known_in_call(f, &names, args, tys);
        let place = cat3("function '", &f.name, "'");
        match check_known(&names, &known, &place) {
            Ok(_) => {},
            Err(e) => {
                return Err(e);
            },
        }
        match self.check_bounds(&f.type_params, &known, &place) {
            Ok(_) => {},
            Err(e) => {
                return Err(e);
            },
        }
        let params = match self.concrete_params(&f.params, args) {
            Ok(v) => v,
            Err(e) => {
                return Err(e);
            },
        };
        let targs = known_types(&names, &known);
        let g = instance_of(f, &params, &names, &targs);
        let first = match type_keys(&targs) {
            Ok(v) => v,
            Err(e) => {
                return Err(e);
            },
        };
        let keys = match impl_trait_keys(&f.params, &g.params, &first) {
            Ok(v) => v,
            Err(e) => {
                return Err(e);
            },
        };
        let items: Vec<GenericParam> = Vec::new();
        proof {
            assert(generic_param_seq_view(items@) =~= Seq::<GenericParamView>::empty());
        }
        Ok(
            Function {
                name: cat(&f.name, &instance_suffix(&keys)),
                type_params: items,
                params: dup_param_seq(&g.params),
                return_type: g.return_type.dup(),
                body: g.body.clone(),
                is_extern: g.is_extern,
                is_intrinsic: g.is_intrinsic,
                is_method: g.is_method,
                is_pub: g.is_pub,
                attribs: dup_attribute_seq(&g.attribs),
                span: g.span,
            },
        )
    }

    /// The instance of a generic method for a call, under its mangled name.
    pub fn method_instance(
        &self,
        owner: &str,
        f: &Function,
        args: &Vec<Type>,
        tys: &Vec<Type>,
    ) -> (r: Result<Function, CodegenError>)
        ensures
            r.model() == method_instance(
                self@,
                owner@,
                f@,
                type_seq_view(args@),
                type_seq_view(tys@),
            ),
    {
        proof {
            reveal(method_instance);
        }
        let names = names_of_params(&f.type_params);
        let known = known_in_call(f, &names, args, tys);
        match check_known(
            &names,
            &known,
            &cat3(&cat3("method '", &f.name, "' of type '"), owner, "'"),
        ) {
            Ok(_) => {},
            Err(e) => {
                return Err(e);
            },
        }
        match self.check_bounds(&f.type_params, &known, &cat3("method '", &f.name, "'")) {
            Ok(_) => {},
            Err(e) => {
                return Err(e);
            },
        }
        let params = match self.concrete_params(&f.params, args) {
            Ok(v) => v,
            Err(e) => {
                return Err(e);
            },
        };
        let targs = known_types(&names, &known);
        let g = resolve_self_type(
            &instance_of(f, &params, &names, &targs),
            &Type::Struct(owner.to_owned()),
        );
        let first = match type_keys(&targs) {
            Ok(v) => v,
            Err(e) => {
                return Err(e);
            },
        };
        let keys = match impl_trait_keys(&f.params, &g.params, &first) {
            Ok(v) => v,
            Err(e) => {
                return Err(e);
            },
        };
        proof {
            assert(param_seq_view(f.params@).len() == f.params@.len());
        }
        let items: Vec<GenericParam> = Vec::new();
        proof {
            assert(generic_param_seq_view(items@) =~= Seq::<GenericParamView>::empty());
        }
        Ok(
            Function {
                name: cat(
                    &mangled_method_name(owner, &f.name, f.params.len()),
                    &instance_suffix(&keys),
                ),
                type_params: items,
                params: dup_param_seq(&g.params),
                return_type: g.return_type.dup(),
                body: g.body.clone(),
                is_extern: g.is_extern,
                is_intrinsic: g.is_intrinsic,
                is_method: g.is_method,
                is_pub: g.is_pub,
                attribs: dup_attribute_seq(&g.attribs),
                span: g.span,
            },
        )
    }

    /// Every type argument of a generic type has to implement the traits in the bounds of its
    /// parameter.
    pub fn check_type_args(
        &self,
        ps: &Vec<GenericParam>,
        args: &Vec<Type>,
        place: &str,
    ) -> (r: Result<(), CodegenError>)
        ensures
            r.model() == check_type_args(
                self@,
                generic_param_seq_view(ps@),
                type_seq_view(args@),
                place@,
            ),
    {
        proof {
            reveal(check_type_args);
            reveal(check_type_args_each);
        }
        let mut i: usize = 0;
        while i < ps.len()
            invariant
                i <= ps@.len(),
                check_type_args_each(
                    self@,
                    generic_param_seq_view(ps@),
                    type_seq_view(args@),
                    place@,
                    i as nat,
                ) == check_type_args(
                    self@,
                    generic_param_seq_view(ps@),
                    type_seq_view(args@),
                    place@,
                ),
            decreases ps@.len() - i,
        {
            proof {
                reveal(check_type_args);
                reveal(check_type_args_each);
            }
            let p = &ps[i];
            proof {
                assert(generic_param_seq_view(ps@)[i as int] == generic_param_view(ps@[i as int]));
            }
            proof {
                assert(type_seq_view(args@).len() == args@.len());
            }
            if i < args.len() {
                proof {
                    assert(type_seq_view(args@)[i as int] == type_view(args@[i as int]));
                }
                let subject = self.unmet_bound(&args[i], &p.bounds);
                match &subject {
                    Some(name) => {
                        proof {
                            assert(type_seq_view(args@)[i as int] == type_view(args@[i as int]));
                        }
                        return Err(
                            CodegenError::new(
                                cat3(
                                    &cat3(
                                        &cat3(
                                            &cat3(
                                                "Type arg ",
                                                &show_type(&args[i]),
                                                " does not implement trait '",
                                            ),
                                            name,
                                            "' required by ",
                                        ),
                                        place,
                                        " parameter '",
                                    ),
                                    &p.name,
                                    "'",
                                ),
                            ),
                        );
                    },
                    None => {},
                }
            }
            i += 1;
        }
        Ok(())
    }

    /// The machine types of fields.
    pub fn field_machine_types(&self, fields: &Vec<StructField>) -> (
        r: Result<Vec<LTy>, CodegenError>
    )
        ensures
            r.model() == field_machine_types(self@, struct_field_seq_view(fields@)),
    {
        proof {
            reveal(field_machine_types);
            reveal(field_machine_types_each);
        }
        let items: Vec<LTy> = Vec::new();
        proof {
            assert(l_ty_seq_view(items@) =~= Seq::<LTyView>::empty());
        }
        let mut tys = items;
        let mut i: usize = 0;
        while i < fields.len()
            invariant
                i <= fields@.len(),
                field_machine_types_each(
                    self@,
                    struct_field_seq_view(fields@),
                    l_ty_seq_view(tys@),
                    i as nat,
                ) == field_machine_types(self@, struct_field_seq_view(fields@)),
            decreases fields@.len() - i,
        {
            proof {
                reveal(field_machine_types);
                reveal(field_machine_types_each);
            }
            let f = &fields[i];
            proof {
                assert(struct_field_seq_view(fields@)[i as int] == struct_field_view(fields@[i as int]));
            }
            let t = match self.type_to_llvm(&f.ty) {
                Ok(v) => v,
                Err(e) => {
                    return Err(e);
                },
            };
            let ghost prior = l_ty_seq_view(tys@);
            let item = t.clone();
            tys.push(item);
            proof {
                assert(l_ty_seq_view(tys@) =~= prior.push(item@));
            }
            i += 1;
        }
        Ok(dup_l_ty_seq(&tys))
    }

    /// Whether a name is that of a generic struct or enum.
    pub fn is_generic_base(&self, name: &str) -> (r: bool)
        ensures
            r == is_generic_base(self@, name@),
    {
        proof {
            reveal(is_generic_base);
        }
        (self.generic_struct_defs.contains_key(name) || self.generic_enum_defs.contains_key(name))
    }
}

impl CodeGen {
    /// Gives a struct its machine type.
    pub fn lay_out(
        &mut self,
        name: &str,
        fields: &Vec<StructField>,
    ) -> (r: Result<(), CodegenError>)
        ensures
            (r.model(), final(self)@) == lay_out(old(self)@, name@, struct_field_seq_view(fields@)),
            stays(old(self)@, final(self)@),
            r is Ok ==> same_variables(old(self)@, final(self)@),
            r is Ok ==> laid_out(old(self)@, final(self)@, name@),
            r is Ok ==> final(self)@.env.struct_fields.contains_key(name@) && final(self)@.env.struct_fields[name@] == struct_field_seq_view(fields@),
    {
        proof {
            broadcast use crate::growth::group_growth;

            count_from(old(self)@);
            reveal(declare_struct_type);
            reveal(lay_out);
        }
        let tys = match self.env.field_machine_types(fields) {
            Ok(v) => v,
            Err(e) => {
                return Err(e);
            },
        };
        let ghost past = self@.out;
        self.out.struct_bodies.insert(name.to_owned(), dup_l_ty_seq(&tys));
        proof {
            assert(grown(past, self@.out)) by {
                reveal(grown);
            }
            lemma_returned_more(past, self@.out);
        }
        self.env.struct_fields.insert(name.to_owned(), dup_struct_field_seq(fields));
        self.declare_struct_type(name);
        Ok(())
    }

    /// Declares a named struct.
    pub fn declare_struct_type(&mut self, name: &str)
        ensures
            final(self)@ == declare_struct_type(old(self)@, name@),
            stays(old(self)@, final(self)@),
            settled(old(self)@, final(self)@),
            confined(old(self)@.out.cur, final(self)@.out.cur),
            same_variables(old(self)@, final(self)@),
    {
        proof {
            broadcast use crate::growth::group_growth;

            count_from(old(self)@);
            reveal(declare_struct_type);
        }
        if !self.env.struct_types.contains(name) {
            let ghost prior = texts(self.out.type_order@);
            let item = name.to_owned();
            let ghost past = self@.out;
            self.out.type_order.push(item);
            proof {
                assert(grown(past, self@.out)) by {
                    reveal(grown);
                }
                lemma_returned_more(past, self@.out);
            }
            proof {
                assert(texts(self.out.type_order@) =~= prior.push(item@));
            }
        }
        let ghost past2 = self@.env;
        self.env.struct_types.insert(name.to_owned());
        proof {
            assert(fields_kept(past2, self@.env)) by {
                reveal(fields_kept);
            }
        }
        proof {
            if well_listed(old(self)@) {
                if old(self)@.env.struct_types.contains(name@) {
                    assert(self@.env.struct_types =~= old(self)@.env.struct_types);
                } else {
                    lemma_listed_push(
                        old(self)@.out.type_order,
                        old(self)@.env.struct_types,
                        name@,
                    );
                }
            }
        }
    }

    /// The instance of a generic struct, if the base name is one.
    pub fn instance_struct(
        &mut self,
        base: &str,
        args: &Vec<Type>,
        mangled: &str,
    ) -> (r: Result<(), CodegenError>)
        ensures
            (r.model(), final(self)@) == instance_struct(
                old(self)@,
                base@,
                type_seq_view(args@),
                mangled@,
            ),
            stays(old(self)@, final(self)@),
            r is Ok ==> same_variables(old(self)@, final(self)@),
            r is Ok ==> laid_out(old(self)@, final(self)@, mangled@),
            r is Ok ==> struct_laid_out(
                old(self)@.env,
                final(self)@.env,
                base@,
                type_seq_view(args@),
                mangled@,
            ),
    {
        proof {
            broadcast use crate::growth::group_growth;

            count_from(old(self)@);
            reveal(instance_struct);
        }
        let subject = self.env.generic_struct_defs.get_dup(base);
        match &subject {
            Some(decl) => {
                match self.env.check_type_args(
                    &decl.type_params,
                    args,
                    &cat3("struct '", base, "'"),
                ) {
                    Ok(_) => {},
                    Err(e) => {
                        return Err(e);
                    },
                }
                let fields = instance_fields(
                    &decl.fields,
                    &names_of_params(&decl.type_params),
                    args,
                );
                match self.lay_out(mangled, &fields) {
                    Ok(_) => {},
                    Err(e) => {
                        return Err(e);
                    },
                }
                let ghost past = self@.env;
                self.env.visibility.insert(mangled.to_owned(), decl.is_pub);
                proof {
                    assert(fields_kept(past, self@.env)) by {
                        reveal(fields_kept);
                    }
                }
                let ghost past2 = self@.env;
                self.env.field_visibility.insert(mangled.to_owned(), field_access(&decl.fields));
                proof {
                    assert(fields_kept(past2, self@.env)) by {
                        reveal(fields_kept);
                    }
                }
                return Ok(());
            },
            None => {
                return Ok(());
            },
        }
    }

    /// The instance of a generic enum, if the base name is one.
    pub fn instance_enum(
        &mut self,
        base: &str,
        args: &Vec<Type>,
        mangled: &str,
    ) -> (r: Result<(), CodegenError>)
        ensures
            (r.model(), final(self)@) == instance_enum(
                old(self)@,
                base@,
                type_seq_view(args@),
                mangled@,
            ),
            stays(old(self)@, final(self)@),
            r is Ok ==> same_variables(old(self)@, final(self)@),
            r is Ok ==> laid_out(old(self)@, final(self)@, mangled@),
            !old(self)@.env.generic_enum_defs.contains_key(base@) ==> final(self)@.env == old(self)@.env,
    {
        proof {
            broadcast use crate::growth::group_growth;

            count_from(old(self)@);
            reveal(instance_enum);
        }
        let subject = self.env.generic_enum_defs.get_dup(base);
        match &subject {
            Some(decl) => {
                match self.env.check_type_args(
                    &decl.type_params,
                    args,
                    &cat3("enum '", base, "'"),
                ) {
                    Ok(_) => {},
                    Err(e) => {
                        return Err(e);
                    },
                }
                let names = names_of_params(&decl.type_params);
                match self.lay_out(mangled, &enum_fields(&decl.variants, &names, args)) {
                    Ok(_) => {},
                    Err(e) => {
                        return Err(e);
                    },
                }
                let ghost past = self@.env;
                self.env.visibility.insert(mangled.to_owned(), decl.is_pub);
                proof {
                    assert(fields_kept(past, self@.env)) by {
                        reveal(fields_kept);
                    }
                }
                let ghost past2 = self@.env;
                self.env.enum_defs.insert(
                    mangled.to_owned(),
                    EnumDecl {
                        name: mangled.to_owned(),
                        variants: instance_variants(&decl.variants, &names, args),
                        type_params: dup_generic_param_seq(&decl.type_params),
                        is_pub: decl.is_pub,
                        attribs: dup_attribute_seq(&decl.attribs),
                        span: decl.span,
                    },
                );
                proof {
                    assert(fields_kept(past2, self@.env)) by {
                        reveal(fields_kept);
                    }
                }
                return Ok(());
            },
            None => {
                return Ok(());
            },
        }
    }

    /// Defines an associated constant.
    pub fn define_const(&mut self, owner: &str, name: &str, value: &Expr, ty: &Type)
        ensures
            final(self)@ == define_const(old(self)@, owner@, name@, value@, ty@),
            stays(old(self)@, final(self)@),
            settled(old(self)@, final(self)@),
            confined(old(self)@.out.cur, final(self)@.out.cur),
            same_variables(old(self)@, final(self)@),
    {
        proof {
            broadcast use crate::growth::group_growth;

            count_from(old(self)@);
            reveal(define_const);
        }
        let subject = self.env.const_defs.get_dup(owner);
        match &subject {
            Some(known) => {
                let mut more = known.dup();
                more.insert(name.to_owned(), (value.clone(), ty.clone()));
                let ghost past = self@.env;
                self.env.const_defs.insert(owner.to_owned(), more.dup());
                proof {
                    assert(fields_kept(past, self@.env)) by {
                        reveal(fields_kept);
                    }
                }
            },
            None => {
                let table2: Table<(Expr, Type)> = Table::new();
                let mut more = table2;
                more.insert(name.to_owned(), (value.clone(), ty.clone()));
                let ghost past2 = self@.env;
                self.env.const_defs.insert(owner.to_owned(), more.dup());
                proof {
                    assert(fields_kept(past2, self@.env)) by {
                        reveal(fields_kept);
                    }
                }
            },
        }
    }

    /// The associated constants of an instance: the type parameters are replaced in their types and
    /// values.
    pub fn instance_consts(
        &mut self,
        consts: &Vec<AssociatedConst>,
        owner: &str,
        names: &Vec<String>,
        args: &Vec<Type>,
    )
        ensures
            final(self)@ == instance_consts(
                old(self)@,
                associated_const_seq_view(consts@),
                owner@,
                texts(names@),
                type_seq_view(args@),
            ),
            stays(old(self)@, final(self)@),
            settled(old(self)@, final(self)@),
            confined(old(self)@.out.cur, final(self)@.out.cur),
            same_variables(old(self)@, final(self)@),
    {
        proof {
            broadcast use crate::growth::group_growth;

            count_from(old(self)@);
            reveal(instance_consts);
            reveal(instance_consts_each);
        }
        let mut i: usize = 0;
        while i < consts.len()
            invariant
                i <= consts@.len(),
                instance_consts_each(
                    self@,
                    associated_const_seq_view(consts@),
                    owner@,
                    texts(names@),
                    type_seq_view(args@),
                    i as nat,
                ) == instance_consts(
                    old(self)@,
                    associated_const_seq_view(consts@),
                    owner@,
                    texts(names@),
                    type_seq_view(args@),
                ),
                stays(old(self)@, self@),
                settled(old(self)@, self@),
                confined(old(self)@.out.cur, self@.out.cur),
                same_variables(old(self)@, self@),
            decreases consts@.len() - i,
        {
            proof {
                broadcast use crate::growth::group_growth;

                count_from(old(self)@);
                reveal(instance_consts);
                reveal(instance_consts_each);
            }
            let c = &consts[i];
            proof {
                assert(associated_const_seq_view(consts@)[i as int] == associated_const_view(consts@[i as int]));
            }
            self.define_const(
                owner,
                &c.name,
                &m_substitute_types_in_expr(&c.value, names, args),
                &substitute_type_params(&c.ty, names, args),
            );
            i += 1;
        }

    }

    /// The constants of a trait that have a default and that an `impl` block does not define.
    pub fn default_consts(
        &mut self,
        defaults: &Vec<TraitConst>,
        consts: &Vec<AssociatedConst>,
        owner: &str,
        names: &Vec<String>,
        args: &Vec<Type>,
    )
        ensures
            final(self)@ == default_consts(
                old(self)@,
                trait_const_seq_view(defaults@),
                associated_const_seq_view(consts@),
                owner@,
                texts(names@),
                type_seq_view(args@),
            ),
            stays(old(self)@, final(self)@),
            settled(old(self)@, final(self)@),
            confined(old(self)@.out.cur, final(self)@.out.cur),
            same_variables(old(self)@, final(self)@),
    {
        proof {
            broadcast use crate::growth::group_growth;

            count_from(old(self)@);
            reveal(default_consts);
            reveal(default_consts_each);
        }
        let mut i: usize = 0;
        while i < defaults.len()
            invariant
                i <= defaults@.len(),
                default_consts_each(
                    self@,
                    trait_const_seq_view(defaults@),
                    associated_const_seq_view(consts@),
                    owner@,
                    texts(names@),
                    type_seq_view(args@),
                    i as nat,
                ) == default_consts(
                    old(self)@,
                    trait_const_seq_view(defaults@),
                    associated_const_seq_view(consts@),
                    owner@,
                    texts(names@),
                    type_seq_view(args@),
                ),
                stays(old(self)@, self@),
                settled(old(self)@, self@),
                confined(old(self)@.out.cur, self@.out.cur),
                same_variables(old(self)@, self@),
            decreases defaults@.len() - i,
        {
            proof {
                broadcast use crate::growth::group_growth;

                count_from(old(self)@);
                reveal(default_consts);
                reveal(default_consts_each);
            }
            let c = &defaults[i];
            proof {
                assert(trait_const_seq_view(defaults@)[i as int] == trait_const_view(defaults@[i as int]));
            }
            match &c.default_value {
                Some(value) => {
                    if !provides_const(consts, &c.name) {
                        self.define_const(
                            owner,
                            &c.name,
                            &m_substitute_types_in_expr(value, names, args),
                            &substitute_type_params(&c.ty, names, args),
                        );
                    }
                },
                None => {},
            }
            i += 1;
        }

    }

    /// What an `impl` block gives an instance, but for its methods.
    pub fn instance_impl(
        &mut self,
        decl: &ImplDecl,
        owner: &str,
        names: &Vec<String>,
        args: &Vec<Type>,
    )
        ensures
            final(self)@ == instance_impl(
                old(self)@,
                decl@,
                owner@,
                texts(names@),
                type_seq_view(args@),
            ),
            stays(old(self)@, final(self)@),
            settled(old(self)@, final(self)@),
            confined(old(self)@.out.cur, final(self)@.out.cur),
            same_variables(old(self)@, final(self)@),
    {
        proof {
            broadcast use crate::growth::group_growth;

            count_from(old(self)@);
            reveal(instance_impl);
        }
        match &decl.trait_name {
            Some(name) => {
                self.add_trait(owner, name);
            },
            None => {},
        }
        self.instance_consts(&decl.consts, owner, names, args);
        match &decl.trait_name {
            Some(name) => {
                let subject = self.env.trait_defs.get_dup(name);
                match &subject {
                    Some(def_) => {
                        self.default_consts(&def_.consts, &decl.consts, owner, names, args);
                    },
                    None => {},
                }
            },
            None => {},
        }
    }
}

} // verus!
