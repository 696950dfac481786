//! Code for whole programs.
use crate::ast::{
    AssociatedConst, Attribute, EnumDecl, EnumVariant, Function, GenericParam, ImplDecl, Param,
    Program, StructDecl, StructField, TraitConst, TraitDecl, TraitMethodDef, Type, TypeAliasDecl,
};
use crate::builtins::{generate_primitive_trait_impls, primitive_types, primitive_types_spec};
use crate::collect::{collect_generic_instances, program_instances};
use crate::derives::process_struct_derives;
use crate::growth::{
    confined, count_from, fields_kept, grown, keeps, lemma_returned_more, same_variables, settled,
    stays, within,
};
use crate::infer::{mangled_method_name, method_name};
use crate::instances::{
    declare_struct_type, define_const, field_access, field_access_spec, field_machine_types,
    is_generic_base, provides_const, provides_const_spec,
};
use crate::ir::dup_l_ty_seq;
use crate::lists::{first_index, lemma_first_index, lemma_no_index};
use crate::model::{
    AssociatedConstView, AttributeView, EnumDeclView, EnumVariantView, FunctionView,
    GenericParamView, ImplDeclView, ParamView, ProgramView, StructDeclView, StructFieldView,
    TraitConstView, TraitDeclView, TraitMethodDefView, TypeAliasDeclView, TypeView,
    associated_const_seq_view, associated_const_view, attribute_seq_view, attribute_view,
    dup_attribute_seq, dup_function_seq, dup_generic_param_seq, dup_param_seq, dup_struct_field_seq,
    enum_decl_seq_view, enum_decl_view, enum_variant_seq_view, enum_variant_view, function_seq_view,
    function_view, generic_param_seq_view, impl_decl_seq_view, impl_decl_view, param_seq_view,
    param_view, struct_decl_seq_view, struct_decl_view, struct_field_seq_view, struct_field_view,
    trait_const_seq_view, trait_const_view, trait_decl_seq_view, trait_decl_view,
    trait_method_def_seq_view, trait_method_def_view, type_alias_decl_seq_view,
    type_alias_decl_view, type_seq_view, type_view,
};
use crate::names::{show_type, type_key, type_text};
use crate::nesting::{compile_function_body, ensure_monomorphized};
use crate::operators::{
    add_method, add_trait, trait_fn, trait_fn_spec, type_key_or_fail, type_key_or_fail_spec,
};
use crate::query::needs_drop;
use crate::scopes::{declare_function, type_key_of};
use crate::state::{CodeGen, CodegenError, Env, EnvView, ErrorView, OutView, State, err, err_at};
use crate::table::{Model, Names, at, first_name};
use crate::text::{before, cat, cat3, ends_with, has_suffix, same};
use crate::token::Span;
use crate::types::{
    floating, generic_fn, has_impl_trait_param, int_type_width, int_width, is_float,
    resolve_self_fn, resolve_self_type,
};
use vstd::prelude::*;

verus! {

broadcast use crate::lists::group_list_views;

/// Only functions can be marked `inline`.
#[verifier::opaque]
pub open spec fn check_attributes_spec(attribs: Seq<AttributeView>) -> Result<(), ErrorView> {
    match first_index(attribs, check_attributes_here()) {
        Some(i) => {
            let a = attribs[i];
            Err(err_at("attribute `inline` can only be marked on functions"@, a.span))
        },
        None => Ok(()),
    }
}

/// Whether [`check_attributes_spec`] stops at an element.
pub open spec fn check_attributes_here() -> spec_fn(AttributeView) -> bool {
    |a: AttributeView| a.name == "inline"@
}

/// Structs cannot be marked `inline`.
#[verifier::opaque]
pub open spec fn check_struct_attributes_spec(decls: Seq<StructDeclView>) -> Result<(), ErrorView> {
    check_struct_attributes_spec_each(decls, 0)
}

/// [`check_struct_attributes_spec`] from element `i` on.
#[verifier::opaque]
pub open spec fn check_struct_attributes_spec_each(
    decls: Seq<StructDeclView>,
    i: nat,
) -> Result<(), ErrorView>
    decreases decls.len() - i,
{
    if i < decls.len() {
        let d = decls[i as int];
        match check_attributes_spec(d.attribs) {
            Ok(_) => check_struct_attributes_spec_each(decls, i + 1),
            Err(e) => Err(e),
        }
    } else {
        Ok(())
    }
}

/// Enums cannot be marked `inline`.
#[verifier::opaque]
pub open spec fn check_enum_attributes_spec(decls: Seq<EnumDeclView>) -> Result<(), ErrorView> {
    check_enum_attributes_spec_each(decls, 0)
}

/// [`check_enum_attributes_spec`] from element `i` on.
#[verifier::opaque]
pub open spec fn check_enum_attributes_spec_each(
    decls: Seq<EnumDeclView>,
    i: nat,
) -> Result<(), ErrorView>
    decreases decls.len() - i,
{
    if i < decls.len() {
        let d = decls[i as int];
        match check_attributes_spec(d.attribs) {
            Ok(_) => check_enum_attributes_spec_each(decls, i + 1),
            Err(e) => Err(e),
        }
    } else {
        Ok(())
    }
}

/// Notes which functions are public.
#[verifier::opaque]
pub open spec fn show_functions(s: State, funcs: Seq<FunctionView>) -> State {
    show_functions_each(s, funcs, 0)
}

/// [`show_functions`] from element `i` on.
#[verifier::opaque]
pub open spec fn show_functions_each(s: State, funcs: Seq<FunctionView>, i: nat) -> State
    decreases funcs.len() - i,
{
    if i < funcs.len() {
        let f = funcs[i as int];
        let s = State {
            env: EnvView { visibility: s.env.visibility.insert(f.name, f.is_pub), ..s.env },
            ..s
        };
        show_functions_each(s, funcs, i + 1)
    } else {
        s
    }
}

/// Notes which structs and which of their fields are public.
#[verifier::opaque]
pub open spec fn show_structs(s: State, decls: Seq<StructDeclView>) -> State {
    show_structs_each(s, decls, 0)
}

/// [`show_structs`] from element `i` on.
#[verifier::opaque]
pub open spec fn show_structs_each(s: State, decls: Seq<StructDeclView>, i: nat) -> State
    decreases decls.len() - i,
{
    if i < decls.len() {
        let d = decls[i as int];
        let s = State {
            env: EnvView { visibility: s.env.visibility.insert(d.name, d.is_pub), ..s.env },
            ..s
        };
        let s = State {
            env: EnvView {
                field_visibility: s.env.field_visibility.insert(
                    d.name,
                    field_access_spec(d.fields),
                ),
                ..s.env
            },
            ..s
        };
        show_structs_each(s, decls, i + 1)
    } else {
        s
    }
}

/// Notes which enums are public.
#[verifier::opaque]
pub open spec fn show_enums(s: State, decls: Seq<EnumDeclView>) -> State {
    show_enums_each(s, decls, 0)
}

/// [`show_enums`] from element `i` on.
#[verifier::opaque]
pub open spec fn show_enums_each(s: State, decls: Seq<EnumDeclView>, i: nat) -> State
    decreases decls.len() - i,
{
    if i < decls.len() {
        let d = decls[i as int];
        let s = State {
            env: EnvView { visibility: s.env.visibility.insert(d.name, d.is_pub), ..s.env },
            ..s
        };
        show_enums_each(s, decls, i + 1)
    } else {
        s
    }
}

/// Notes which traits are public, and keeps all of them.
#[verifier::opaque]
pub open spec fn show_traits(s: State, decls: Seq<TraitDeclView>) -> State {
    show_traits_each(s, decls, 0)
}

/// [`show_traits`] from element `i` on.
#[verifier::opaque]
pub open spec fn show_traits_each(s: State, decls: Seq<TraitDeclView>, i: nat) -> State
    decreases decls.len() - i,
{
    if i < decls.len() {
        let d = decls[i as int];
        let s = State {
            env: EnvView { visibility: s.env.visibility.insert(d.name, d.is_pub), ..s.env },
            ..s
        };
        let s = State {
            env: EnvView { trait_defs: s.env.trait_defs.insert(d.name, d), ..s.env },
            ..s
        };
        show_traits_each(s, decls, i + 1)
    } else {
        s
    }
}

/// Notes which type aliases are public.
#[verifier::opaque]
pub open spec fn show_aliases(s: State, decls: Seq<TypeAliasDeclView>) -> State {
    show_aliases_each(s, decls, 0)
}

/// [`show_aliases`] from element `i` on.
#[verifier::opaque]
pub open spec fn show_aliases_each(s: State, decls: Seq<TypeAliasDeclView>, i: nat) -> State
    decreases decls.len() - i,
{
    if i < decls.len() {
        let d = decls[i as int];
        let s = State {
            env: EnvView { visibility: s.env.visibility.insert(d.name, d.is_pub), ..s.env },
            ..s
        };
        show_aliases_each(s, decls, i + 1)
    } else {
        s
    }
}

/// The mangled name of a method of an `impl` block.
#[verifier::opaque]
pub open spec fn method_symbol_spec(
    trait_name: Option<Seq<char>>,
    owner: Seq<char>,
    method: Seq<char>,
    n: usize,
) -> Seq<char> {
    match trait_name {
        Some(t) => trait_fn_spec(t, method, owner),
        None => method_name(owner, method, n as nat),
    }
}

/// Notes which methods are public.
#[verifier::opaque]
pub open spec fn show_methods(
    s: State,
    methods: Seq<FunctionView>,
    trait_name: Option<Seq<char>>,
    owner: Seq<char>,
) -> State {
    show_methods_each(s, methods, trait_name, owner, 0)
}

/// [`show_methods`] from element `i` on.
#[verifier::opaque]
pub open spec fn show_methods_each(
    s: State,
    methods: Seq<FunctionView>,
    trait_name: Option<Seq<char>>,
    owner: Seq<char>,
    i: nat,
) -> State
    decreases methods.len() - i,
{
    if i < methods.len() {
        let m = methods[i as int];
        let symbol = method_symbol_spec(trait_name, owner, m.name, m.params.len() as usize);
        let s = note_owner(s, symbol, trait_name, owner);
        let s = State {
            env: EnvView { visibility: s.env.visibility.insert(symbol, m.is_pub), ..s.env },
            ..s
        };
        show_methods_each(s, methods, trait_name, owner, i + 1)
    } else {
        s
    }
}

/// Notes the type that a method of a trait belongs to.
#[verifier::opaque]
pub open spec fn note_owner(
    s: State,
    symbol: Seq<char>,
    trait_name: Option<Seq<char>>,
    owner: Seq<char>,
) -> State {
    if trait_name is Some {
        State {
            env: EnvView { item_owners: s.env.item_owners.insert(symbol, owner), ..s.env },
            ..s
        }
    } else {
        s
    }
}

/// Whether a trait is `Drop`.
#[verifier::opaque]
pub open spec fn is_drop_trait_spec(name: Seq<char>) -> bool {
    ((name == "Drop"@) || ends_with(name, "::Drop"@))
}

/// Notes that a type implements a trait; `Copy` can only be derived.
#[verifier::opaque]
pub open spec fn show_impl_trait(
    s: State,
    trait_name: Seq<char>,
    owner: Seq<char>,
) -> (Result<(), ErrorView>, State) {
    if trait_name == "Copy"@ {
        (
            Err(
                err(
                    "cannot implement Copy for type '"@ + owner
                        + "', use #[derive(Clone, Copy)] instead"@,
                ),
            ),
            s,
        )
    } else {
        let s = if is_drop_trait_spec(trait_name) {
            State { env: EnvView { drop_types: s.env.drop_types.insert(owner), ..s.env }, ..s }
        } else {
            s
        };
        let s = add_trait(s, owner, trait_name);
        (Ok(()), s)
    }
}

/// The name of the struct, or of the generic struct, that an `impl` block is for.
#[verifier::opaque]
pub open spec fn impl_base_spec(ty: TypeView) -> Option<Seq<char>> {
    match ty {
        TypeView::Struct(name) => Some(name),
        TypeView::GenericInstance(name, _) => Some(name),
        _ => None,
    }
}

/// Notes the traits of structs, and which of their methods are public.
#[verifier::opaque]
pub open spec fn show_impls(s: State, impls: Seq<ImplDeclView>) -> (Result<(), ErrorView>, State) {
    show_impls_each(s, impls, 0)
}

/// [`show_impls`] from element `i` on.
#[verifier::opaque]
pub open spec fn show_impls_each(
    s: State,
    impls: Seq<ImplDeclView>,
    i: nat,
) -> (Result<(), ErrorView>, State)
    decreases impls.len() - i,
{
    if i < impls.len() {
        let d = impls[i as int];
        match impl_base_spec(d.impl_type) {
            Some(owner) => {
                match d.trait_name {
                    Some(t) => {
                        match show_impl_trait(s, t, owner) {
                            (Ok(_), s) => {
                                let s = show_methods(s, d.methods, d.trait_name, owner);
                                show_impls_each(s, impls, i + 1)
                            },
                            (Err(e), s) => (Err(e), s),
                        }
                    },
                    None => {
                        let s = show_methods(s, d.methods, d.trait_name, owner);
                        show_impls_each(s, impls, i + 1)
                    },
                }
            },
            None => show_impls_each(s, impls, i + 1),
        }
    } else {
        (Ok(()), s)
    }
}

/// Lets a type have methods.
#[verifier::opaque]
pub open spec fn ensure_methods(s: State, name: Seq<char>) -> State {
    if !s.env.impl_methods.contains_key(name) {
        State {
            env: EnvView {
                impl_methods: s.env.impl_methods.insert(
                    name,
                    Seq::<(Seq<char>, Seq<char>)>::empty(),
                ),
                ..s.env
            },
            ..s
        }
    } else {
        s
    }
}

/// Declares structs; generic ones are kept for their instances.
#[verifier::opaque]
pub open spec fn declare_structs(s: State, decls: Seq<StructDeclView>) -> State {
    declare_structs_each(s, decls, 0)
}

/// [`declare_structs`] from element `i` on.
#[verifier::opaque]
pub open spec fn declare_structs_each(s: State, decls: Seq<StructDeclView>, i: nat) -> State
    decreases decls.len() - i,
{
    if i < decls.len() {
        let d = decls[i as int];
        let s = if (d.type_params.len() as usize) > 0 {
            let s = State {
                env: EnvView {
                    generic_struct_defs: s.env.generic_struct_defs.insert(d.name, d),
                    ..s.env
                },
                ..s
            };
            ensure_methods(s, d.name)
        } else {
            s
        };
        let s = State {
            env: EnvView { struct_fields: s.env.struct_fields.insert(d.name, d.fields), ..s.env },
            ..s
        };
        let s = declare_struct_type(s, d.name);
        declare_structs_each(s, decls, i + 1)
    } else {
        s
    }
}

/// The fields of an enum: its tag, and one field for each variant with a payload.
#[verifier::opaque]
pub open spec fn plain_enum_fields_spec(variants: Seq<EnumVariantView>) -> Seq<StructFieldView> {
    let out = seq![
        (
            StructFieldView {
                name: "__tag"@,
                ty: TypeView::I8,
                is_pub: false,
                span: (Span { lo: 0, hi: 0 }),
            }
        ),
    ];
    plain_enum_fields_spec_each(variants, out, 0)
}

/// [`plain_enum_fields_spec`] from element `i` on.
#[verifier::opaque]
pub open spec fn plain_enum_fields_spec_each(
    variants: Seq<EnumVariantView>,
    out: Seq<StructFieldView>,
    i: nat,
) -> Seq<StructFieldView>
    decreases variants.len() - i,
{
    if i < variants.len() {
        let v = variants[i as int];
        let out = match v.ty {
            Some(ty) => {
                out.push(
                    StructFieldView {
                        name: ("__"@ + v.name),
                        ty: ty,
                        is_pub: false,
                        span: (Span { lo: 0, hi: 0 }),
                    },
                )
            },
            None => out,
        };
        plain_enum_fields_spec_each(variants, out, i + 1)
    } else {
        out
    }
}

/// Declares enums; generic ones are kept for their instances.
#[verifier::opaque]
pub open spec fn declare_enums(s: State, decls: Seq<EnumDeclView>) -> State {
    declare_enums_each(s, decls, 0)
}

/// [`declare_enums`] from element `i` on.
#[verifier::opaque]
pub open spec fn declare_enums_each(s: State, decls: Seq<EnumDeclView>, i: nat) -> State
    decreases decls.len() - i,
{
    if i < decls.len() {
        let d = decls[i as int];
        let s = if (d.type_params.len() as usize) > 0 {
            let s = State {
                env: EnvView {
                    generic_enum_defs: s.env.generic_enum_defs.insert(d.name, d),
                    ..s.env
                },
                ..s
            };
            ensure_methods(s, d.name)
        } else {
            s
        };
        let s = State {
            env: EnvView { enum_defs: s.env.enum_defs.insert(d.name, d), ..s.env },
            ..s
        };
        let s = State {
            env: EnvView {
                struct_fields: s.env.struct_fields.insert(
                    d.name,
                    plain_enum_fields_spec(d.variants),
                ),
                ..s.env
            },
            ..s
        };
        let s = declare_struct_type(s, d.name);
        declare_enums_each(s, decls, i + 1)
    } else {
        s
    }
}

/// The name that the methods of an `impl` block are registered under.
#[verifier::opaque]
pub open spec fn impl_owner_spec(ty: TypeView) -> Result<Seq<char>, ErrorView> {
    match ty {
        TypeView::Struct(name) => Ok(name),
        TypeView::GenericInstance(name, _) => Ok(name),
        TypeView::SelfType => Ok("Self"@),
        TypeView::Str => Ok("str"@),
        _ => {
            if (int_width(ty) is Some) || floating(ty) || (ty is Bool) {
                type_key_or_fail_spec(ty)
            } else {
                Err(err("impl target must be a struct type, str, or Self, got "@ + type_text(ty)))
            }
        },
    }
}

/// The constants of an `impl` block.
#[verifier::opaque]
pub open spec fn define_consts(
    s: State,
    consts: Seq<AssociatedConstView>,
    owner: Seq<char>,
) -> State {
    define_consts_each(s, consts, owner, 0)
}

/// [`define_consts`] from element `i` on.
#[verifier::opaque]
pub open spec fn define_consts_each(
    s: State,
    consts: Seq<AssociatedConstView>,
    owner: Seq<char>,
    i: nat,
) -> State
    decreases consts.len() - i,
{
    if i < consts.len() {
        let c = consts[i as int];
        let s = define_const(s, owner, c.name, c.value, c.ty);
        define_consts_each(s, consts, owner, i + 1)
    } else {
        s
    }
}

/// A trait by its name.
#[verifier::opaque]
pub open spec fn find_trait_spec(
    traits: Seq<TraitDeclView>,
    name: Seq<char>,
) -> Option<TraitDeclView> {
    match first_index(traits, find_trait_here(name)) {
        Some(i) => {
            let t = traits[i];
            Some(t)
        },
        None => None,
    }
}

/// Whether [`find_trait_spec`] stops at an element.
pub open spec fn find_trait_here(name: Seq<char>) -> spec_fn(TraitDeclView) -> bool {
    |t: TraitDeclView| t.name == name
}

/// The constants of a trait that an `impl` block does not define: they need a default.
#[verifier::opaque]
pub open spec fn inherit_consts(
    s: State,
    defs: Seq<TraitConstView>,
    consts: Seq<AssociatedConstView>,
    owner: Seq<char>,
    trait_name: Seq<char>,
    place: Span,
) -> (Result<(), ErrorView>, State) {
    inherit_consts_each(s, defs, consts, owner, trait_name, place, 0)
}

/// [`inherit_consts`] from element `i` on.
#[verifier::opaque]
pub open spec fn inherit_consts_each(
    s: State,
    defs: Seq<TraitConstView>,
    consts: Seq<AssociatedConstView>,
    owner: Seq<char>,
    trait_name: Seq<char>,
    place: Span,
    i: nat,
) -> (Result<(), ErrorView>, State)
    decreases defs.len() - i,
{
    if i < defs.len() {
        let c = defs[i as int];
        if !provides_const_spec(consts, c.name) {
            match c.default_value {
                Some(value) => {
                    let s = define_const(s, owner, c.name, value, c.ty);
                    inherit_consts_each(s, defs, consts, owner, trait_name, place, i + 1)
                },
                None => {
                    (
                        Err(
                            err_at(
                                (
                                    "missing associated constant '"@ + c.name
                                        + "' in implementation of trait '"@ + trait_name
                                        + "' for '"@ + owner + "'"@
                                ),
                                place,
                            ),
                        ),
                        s,
                    )
                },
            }
        } else {
            inherit_consts_each(s, defs, consts, owner, trait_name, place, i + 1)
        }
    } else {
        (Ok(()), s)
    }
}

/// Whether an `impl` block defines a method.
#[verifier::opaque]
pub open spec fn provides_method_spec(methods: Seq<FunctionView>, name: Seq<char>) -> bool {
    exists|i: int| #![trigger methods[i]] 0 <= i < methods.len() && {
        let m = methods[i];
        m.name == name
    }
}

/// An `impl` block has to define the methods of its trait that have no body.
#[verifier::opaque]
pub open spec fn check_methods_spec(
    defs: Seq<TraitMethodDefView>,
    methods: Seq<FunctionView>,
    owner: Seq<char>,
    trait_name: Seq<char>,
    place: Span,
) -> Result<(), ErrorView> {
    match first_index(defs, check_methods_here(methods)) {
        Some(i) => {
            let m = defs[i];
            Err(
                err_at(
                    (
                        "missing method '"@ + m.name + "' in implementation of trait '"@
                            + trait_name + "' for '"@ + owner + "'"@
                    ),
                    place,
                ),
            )
        },
        None => Ok(()),
    }
}

/// Whether [`check_methods_spec`] stops at an element.
pub open spec fn check_methods_here(
    methods: Seq<FunctionView>,
) -> spec_fn(TraitMethodDefView) -> bool {
    |m: TraitMethodDefView| (m.body is None) && !provides_method_spec(methods, m.name)
}

/// The methods of a trait that have a body and that an `impl` block does not define.
#[verifier::opaque]
pub open spec fn generate_default_trait_methods_spec(
    defs: Seq<TraitMethodDefView>,
    methods: Seq<FunctionView>,
) -> Seq<TraitMethodDefView> {
    defs.filter(generate_default_trait_methods_kept(methods))
}

/// Which elements are kept by [`generate_default_trait_methods_spec`].
pub open spec fn generate_default_trait_methods_kept(
    methods: Seq<FunctionView>,
) -> spec_fn(TraitMethodDefView) -> bool {
    |m: TraitMethodDefView| (m.body is Some) && !provides_method_spec(methods, m.name)
}

/// The trait that an `impl` block is for, where it is declared.
#[verifier::opaque]
pub open spec fn impl_traits_spec(
    decl: ImplDeclView,
    traits: Seq<TraitDeclView>,
) -> Option<(Seq<char>, TraitDeclView)> {
    match decl.trait_name {
        Some(name) => {
            match find_trait_spec(traits, name) {
                Some(t) => Some((name, t)),
                None => None,
            }
        },
        None => None,
    }
}

/// An `impl` block of a trait has to be complete.
#[verifier::opaque]
pub open spec fn complete_impl(
    s: State,
    decl: ImplDeclView,
    traits: Seq<TraitDeclView>,
    owner: Seq<char>,
) -> (Result<(), ErrorView>, State) {
    match impl_traits_spec(decl, traits) {
        Some((name, t)) => {
            match inherit_consts(s, t.consts, decl.consts, owner, name, decl.span) {
                (Ok(_), s) => (
                    check_methods_spec(t.methods, decl.methods, owner, name, decl.span),
                    s,
                ),
                (Err(e), s) => (Err(e), s),
            }
        },
        None => (Ok(()), s),
    }
}

/// Keeps a generic `impl` block for instances.
#[verifier::opaque]
pub open spec fn add_generic_impl(s: State, owner: Seq<char>, decl: ImplDeclView) -> State {
    match at(s.env.generic_impls, owner) {
        Some(known) => {
            let more = known;
            let more = more.push((decl.type_params, decl));
            State {
                env: EnvView { generic_impls: s.env.generic_impls.insert(owner, more), ..s.env },
                ..s
            }
        },
        None => {
            State {
                env: EnvView {
                    generic_impls: s.env.generic_impls.insert(
                        owner,
                        seq![(decl.type_params, decl)],
                    ),
                    ..s.env
                },
                ..s
            }
        },
    }
}

/// Keeps a generic method for instances.
#[verifier::opaque]
pub open spec fn add_generic_method(s: State, owner: Seq<char>, f: FunctionView) -> State {
    match at(s.env.generic_methods, owner) {
        Some(known) => {
            let more = known;
            let more = more.push(f);
            State {
                env: EnvView {
                    generic_methods: s.env.generic_methods.insert(owner, more),
                    ..s.env
                },
                ..s
            }
        },
        None => {
            State {
                env: EnvView {
                    generic_methods: s.env.generic_methods.insert(owner, seq![f]),
                    ..s.env
                },
                ..s
            }
        },
    }
}

/// The type whose methods are registered under a name.
#[verifier::opaque]
pub open spec fn owner_type_spec(name: Seq<char>) -> TypeView {
    let tys = primitive_types_spec();
    if name == "str"@ {
        TypeView::Str
    } else {
        owner_type_spec_each(name, tys, 0)
    }
}

/// [`owner_type_spec`] from element `i` on.
#[verifier::opaque]
pub open spec fn owner_type_spec_each(name: Seq<char>, tys: Seq<TypeView>, i: nat) -> TypeView
    decreases tys.len() - i,
{
    if i < tys.len() {
        let ty = tys[i as int];
        if type_key_of_primitive_spec(ty) == name {
            ty
        } else {
            owner_type_spec_each(name, tys, i + 1)
        }
    } else {
        TypeView::Struct(name)
    }
}

/// The name of a type, or nothing.
#[verifier::opaque]
pub open spec fn type_key_of_primitive_spec(ty: TypeView) -> Seq<char> {
    match type_key(ty) {
        Some(k) => k,
        None => ""@,
    }
}

/// Declares a method under its mangled name; a generic one is kept for its instances.
#[verifier::opaque]
pub open spec fn declare_method(
    s: State,
    owner: Seq<char>,
    self_ty: TypeView,
    f: FunctionView,
    name: Seq<char>,
) -> (Result<(), ErrorView>, State) {
    if generic_fn(f) {
        let s = add_generic_method(s, owner, f);
        (Ok(()), s)
    } else {
        match declare_function(s, resolve_self_fn((FunctionView { name: name, ..f }), self_ty)) {
            (Ok(_), s) => {
                let s = add_method(s, owner, f.name, name);
                (Ok(()), s)
            },
            (Err(e), s) => (Err(e), s),
        }
    }
}

/// Declares the methods of an `impl` block.
#[verifier::opaque]
pub open spec fn declare_methods(
    s: State,
    methods: Seq<FunctionView>,
    trait_name: Option<Seq<char>>,
    owner: Seq<char>,
) -> (Result<(), ErrorView>, State) {
    let self_ty = owner_type_spec(owner);
    declare_methods_each(s, methods, trait_name, owner, self_ty, 0)
}

/// [`declare_methods`] from element `i` on.
#[verifier::opaque]
pub open spec fn declare_methods_each(
    s: State,
    methods: Seq<FunctionView>,
    trait_name: Option<Seq<char>>,
    owner: Seq<char>,
    self_ty: TypeView,
    i: nat,
) -> (Result<(), ErrorView>, State)
    decreases methods.len() - i,
{
    if i < methods.len() {
        let m = methods[i as int];
        match declare_method(
            s,
            owner,
            self_ty,
            m,
            method_symbol_spec(trait_name, owner, m.name, m.params.len() as usize),
        ) {
            (Ok(_), s) => declare_methods_each(s, methods, trait_name, owner, self_ty, i + 1),
            (Err(e), s) => (Err(e), s),
        }
    } else {
        (Ok(()), s)
    }
}

/// A method that a trait provides, as a function.
#[verifier::opaque]
pub open spec fn default_function_spec(
    m: TraitMethodDefView,
    name: Seq<char>,
) -> Option<FunctionView> {
    match m.body {
        Some(b) => {
            let is_method = takes_self_spec(m.params);
            Some(
                FunctionView {
                    name: name,
                    params: m.params,
                    return_type: m.return_type,
                    type_params: Seq::<GenericParamView>::empty(),
                    body: b,
                    is_extern: false,
                    is_intrinsic: false,
                    is_method: is_method,
                    is_pub: false,
                    attribs: Seq::<AttributeView>::empty(),
                    span: (Span { lo: 0, hi: 0 }),
                },
            )
        },
        None => None,
    }
}

/// Whether the first parameter is `self`.
#[verifier::opaque]
pub open spec fn takes_self_spec(params: Seq<ParamView>) -> bool {
    if (params.len() as usize) > 0 {
        (params[0].name == "self"@)
    } else {
        false
    }
}

/// Declares the methods that a trait provides for a type.
#[verifier::opaque]
pub open spec fn declare_defaults(
    s: State,
    defs: Seq<TraitMethodDefView>,
    trait_name: Seq<char>,
    owner: Seq<char>,
) -> (Result<(), ErrorView>, State) {
    let self_ty = owner_type_spec(owner);
    declare_defaults_each(s, defs, trait_name, owner, self_ty, 0)
}

/// [`declare_defaults`] from element `i` on.
#[verifier::opaque]
pub open spec fn declare_defaults_each(
    s: State,
    defs: Seq<TraitMethodDefView>,
    trait_name: Seq<char>,
    owner: Seq<char>,
    self_ty: TypeView,
    i: nat,
) -> (Result<(), ErrorView>, State)
    decreases defs.len() - i,
{
    if i < defs.len() {
        let m = defs[i as int];
        let name = trait_fn_spec(trait_name, m.name, owner);
        match default_function_spec(m, name) {
            Some(f) => {
                if generic_fn(f) {
                    let s = add_generic_method(s, owner, f);
                    declare_defaults_each(s, defs, trait_name, owner, self_ty, i + 1)
                } else {
                    match declare_function(s, resolve_self_fn(f, self_ty)) {
                        (Ok(_), s) => {
                            let s = State {
                                env: EnvView {
                                    item_owners: s.env.item_owners.insert(name, owner),
                                    ..s.env
                                },
                                ..s
                            };
                            let s = add_method(s, owner, m.name, name);
                            declare_defaults_each(s, defs, trait_name, owner, self_ty, i + 1)
                        },
                        (Err(e), s) => (Err(e), s),
                    }
                }
            },
            None => declare_defaults_each(s, defs, trait_name, owner, self_ty, i + 1),
        }
    } else {
        (Ok(()), s)
    }
}

/// Declares what an `impl` block holds; those of slices and arrays, and generic ones, are kept for
/// their instances.
#[verifier::opaque]
pub open spec fn declare_impl(
    s: State,
    decl: ImplDeclView,
    traits: Seq<TraitDeclView>,
) -> (Result<(), ErrorView>, State) {
    if decl.impl_type is Slice || decl.impl_type is GenericArray {
        let s = State { env: EnvView { slice_impls: s.env.slice_impls.push(decl), ..s.env }, ..s };
        (Ok(()), s)
    } else {
        match impl_owner_spec(decl.impl_type) {
            Ok(owner) => {
                let s = define_consts(s, decl.consts, owner);
                match complete_impl(s, decl, traits, owner) {
                    (Ok(_), s) => {
                        if (decl.type_params.len() as usize) > 0 {
                            let s = add_generic_impl(s, owner, decl);
                            (Ok(()), s)
                        } else {
                            match declare_methods(s, decl.methods, decl.trait_name, owner) {
                                (Ok(_), s) => {
                                    match impl_traits_spec(decl, traits) {
                                        Some((name, t)) => {
                                            declare_defaults(
                                                s,
                                                generate_default_trait_methods_spec(
                                                    t.methods,
                                                    decl.methods,
                                                ),
                                                name,
                                                owner,
                                            )
                                        },
                                        None => (Ok(()), s),
                                    }
                                },
                                (Err(e), s) => (Err(e), s),
                            }
                        }
                    },
                    (Err(e), s) => (Err(e), s),
                }
            },
            Err(e) => (Err(e), s),
        }
    }
}

/// Declares what the `impl` blocks hold.
#[verifier::opaque]
pub open spec fn declare_impls(
    s: State,
    impls: Seq<ImplDeclView>,
    traits: Seq<TraitDeclView>,
) -> (Result<(), ErrorView>, State) {
    declare_impls_each(s, impls, traits, 0)
}

/// [`declare_impls`] from element `i` on.
#[verifier::opaque]
pub open spec fn declare_impls_each(
    s: State,
    impls: Seq<ImplDeclView>,
    traits: Seq<TraitDeclView>,
    i: nat,
) -> (Result<(), ErrorView>, State)
    decreases impls.len() - i,
{
    if i < impls.len() {
        let d = impls[i as int];
        match declare_impl(s, d, traits) {
            (Ok(_), s) => declare_impls_each(s, impls, traits, i + 1),
            (Err(e), s) => (Err(e), s),
        }
    } else {
        (Ok(()), s)
    }
}

/// Declares functions; generic ones are kept for their instances.
#[verifier::opaque]
pub open spec fn declare_functions(
    s: State,
    funcs: Seq<FunctionView>,
) -> (Result<(), ErrorView>, State) {
    declare_functions_each(s, funcs, 0)
}

/// [`declare_functions`] from element `i` on.
#[verifier::opaque]
pub open spec fn declare_functions_each(
    s: State,
    funcs: Seq<FunctionView>,
    i: nat,
) -> (Result<(), ErrorView>, State)
    decreases funcs.len() - i,
{
    if i < funcs.len() {
        let f = funcs[i as int];
        if generic_fn(f) {
            let s = State {
                env: EnvView { generic_funcs: s.env.generic_funcs.insert(f.name, f), ..s.env },
                ..s
            };
            declare_functions_each(s, funcs, i + 1)
        } else if f.is_intrinsic {
            let s = State {
                env: EnvView { intrinsic_funcs: s.env.intrinsic_funcs.insert(f.name), ..s.env },
                ..s
            };
            declare_functions_each(s, funcs, i + 1)
        } else {
            match declare_function(s, f) {
                (Ok(_), s) => declare_functions_each(s, funcs, i + 1),
                (Err(e), s) => (Err(e), s),
            }
        }
    } else {
        (Ok(()), s)
    }
}

/// Makes the instances of generic types that a program uses.
#[verifier::opaque]
pub open spec fn make_instances(
    s: State,
    fuel: nat,
    found: Seq<(Seq<char>, Seq<TypeView>)>,
) -> (Result<(), ErrorView>, State) {
    make_instances_each(s, fuel, found, 0)
}

/// [`make_instances`] from element `i` on.
#[verifier::opaque]
pub open spec fn make_instances_each(
    s: State,
    fuel: nat,
    found: Seq<(Seq<char>, Seq<TypeView>)>,
    i: nat,
) -> (Result<(), ErrorView>, State)
    decreases found.len() - i,
{
    if i < found.len() {
        let x = found[i as int];
        if is_generic_base(s.env, x.0) {
            match ensure_monomorphized(s, fuel, x.0, x.1) {
                (Ok(_), s) => make_instances_each(s, fuel, found, i + 1),
                (Err(e), s) => (Err(e), s),
            }
        } else {
            make_instances_each(s, fuel, found, i + 1)
        }
    } else {
        (Ok(()), s)
    }
}

/// Gives the structs that are not generic their machine types.
#[verifier::opaque]
pub open spec fn lay_out_structs(
    s: State,
    decls: Seq<StructDeclView>,
) -> (Result<(), ErrorView>, State) {
    lay_out_structs_each(s, decls, 0)
}

/// [`lay_out_structs`] from element `i` on.
#[verifier::opaque]
pub open spec fn lay_out_structs_each(
    s: State,
    decls: Seq<StructDeclView>,
    i: nat,
) -> (Result<(), ErrorView>, State)
    decreases decls.len() - i,
{
    if i < decls.len() {
        let d = decls[i as int];
        if ((d.type_params.len() as usize) == 0) && s.env.struct_types.contains(d.name) {
            match field_machine_types(s.env, d.fields) {
                Ok(tys) => {
                    let s = State {
                        out: OutView {
                            struct_bodies: s.out.struct_bodies.insert(d.name, tys),
                            ..s.out
                        },
                        ..s
                    };
                    lay_out_structs_each(s, decls, i + 1)
                },
                Err(e) => (Err(e), s),
            }
        } else {
            lay_out_structs_each(s, decls, i + 1)
        }
    } else {
        (Ok(()), s)
    }
}

/// Gives the enums that are not generic their machine types.
#[verifier::opaque]
pub open spec fn lay_out_enums(
    s: State,
    decls: Seq<EnumDeclView>,
) -> (Result<(), ErrorView>, State) {
    lay_out_enums_each(s, decls, 0)
}

/// [`lay_out_enums`] from element `i` on.
#[verifier::opaque]
pub open spec fn lay_out_enums_each(
    s: State,
    decls: Seq<EnumDeclView>,
    i: nat,
) -> (Result<(), ErrorView>, State)
    decreases decls.len() - i,
{
    if i < decls.len() {
        let d = decls[i as int];
        if ((d.type_params.len() as usize) == 0) && s.env.struct_types.contains(d.name) {
            match at(s.env.struct_fields, d.name) {
                Some(fields) => {
                    match field_machine_types(s.env, fields) {
                        Ok(tys) => {
                            let s = State {
                                out: OutView {
                                    struct_bodies: s.out.struct_bodies.insert(d.name, tys),
                                    ..s.out
                                },
                                ..s
                            };
                            lay_out_enums_each(s, decls, i + 1)
                        },
                        Err(e) => (Err(e), s),
                    }
                },
                None => (Err(err("internal: an enum without fields"@)), s),
            }
        } else {
            lay_out_enums_each(s, decls, i + 1)
        }
    } else {
        (Ok(()), s)
    }
}

/// Derives the traits of structs that are not generic.
#[verifier::opaque]
pub open spec fn derive_structs(
    s: State,
    decls: Seq<StructDeclView>,
) -> (Result<(), ErrorView>, State) {
    derive_structs_each(s, decls, 0)
}

/// [`derive_structs`] from element `i` on.
#[verifier::opaque]
pub open spec fn derive_structs_each(
    s: State,
    decls: Seq<StructDeclView>,
    i: nat,
) -> (Result<(), ErrorView>, State)
    decreases decls.len() - i,
{
    if i < decls.len() {
        let d = decls[i as int];
        if (d.type_params.len() as usize) == 0 {
            match process_struct_derives(s, d) {
                (Ok(_), s) => derive_structs_each(s, decls, i + 1),
                (Err(e), s) => (Err(e), s),
            }
        } else {
            derive_structs_each(s, decls, i + 1)
        }
    } else {
        (Ok(()), s)
    }
}

/// An enum as the struct that it is laid out as.
#[verifier::opaque]
pub open spec fn enum_as_struct(s: EnvView, d: EnumDeclView) -> StructDeclView {
    match at(s.struct_fields, d.name) {
        Some(fields) => {
            StructDeclView {
                name: d.name,
                fields: fields,
                type_params: Seq::<GenericParamView>::empty(),
                is_pub: d.is_pub,
                attribs: d.attribs,
                span: d.span,
            }
        },
        None => {
            StructDeclView {
                name: d.name,
                fields: Seq::<StructFieldView>::empty(),
                type_params: Seq::<GenericParamView>::empty(),
                is_pub: d.is_pub,
                attribs: d.attribs,
                span: d.span,
            }
        },
    }
}

/// Derives the traits of enums that are not generic.
#[verifier::opaque]
pub open spec fn derive_enums(
    s: State,
    decls: Seq<EnumDeclView>,
) -> (Result<(), ErrorView>, State) {
    derive_enums_each(s, decls, 0)
}

/// [`derive_enums`] from element `i` on.
#[verifier::opaque]
pub open spec fn derive_enums_each(
    s: State,
    decls: Seq<EnumDeclView>,
    i: nat,
) -> (Result<(), ErrorView>, State)
    decreases decls.len() - i,
{
    if i < decls.len() {
        let d = decls[i as int];
        if (d.type_params.len() as usize) == 0 {
            match process_struct_derives(s, enum_as_struct(s.env, d)) {
                (Ok(_), s) => derive_enums_each(s, decls, i + 1),
                (Err(e), s) => (Err(e), s),
            }
        } else {
            derive_enums_each(s, decls, i + 1)
        }
    } else {
        (Ok(()), s)
    }
}

/// No type can be both Copy and dropped; the error names the first of those that are, in the order
/// of their names.
#[verifier::opaque]
pub open spec fn check_copy_drops(s: EnvView) -> Result<(), ErrorView> {
    match both_copy_and_drop(s) {
        Some(name) => Err(err("type '"@ + name + "' cannot be both Copy and Drop"@)),
        None => Ok(()),
    }
}

/// Compiles the functions that have a body and are not generic.
#[verifier::opaque]
pub open spec fn compile_functions(
    s: State,
    fuel: nat,
    funcs: Seq<FunctionView>,
) -> (Result<(), ErrorView>, State) {
    compile_functions_each(s, fuel, funcs, 0)
}

/// [`compile_functions`] from element `i` on.
#[verifier::opaque]
pub open spec fn compile_functions_each(
    s: State,
    fuel: nat,
    funcs: Seq<FunctionView>,
    i: nat,
) -> (Result<(), ErrorView>, State)
    decreases funcs.len() - i,
{
    if i < funcs.len() {
        let f = funcs[i as int];
        if !(f.is_intrinsic) && !generic_fn(f) && !(f.is_extern) {
            match compile_function_body(s, fuel, f) {
                (Ok(_), s) => compile_functions_each(s, fuel, funcs, i + 1),
                (Err(e), s) => (Err(e), s),
            }
        } else {
            compile_functions_each(s, fuel, funcs, i + 1)
        }
    } else {
        (Ok(()), s)
    }
}

/// The name of the type whose methods are compiled.
#[verifier::opaque]
pub open spec fn compiled_owner_spec(ty: TypeView) -> Option<Seq<char>> {
    match ty {
        TypeView::Struct(name) => Some(name),
        TypeView::GenericInstance(name, _) => Some(name),
        TypeView::SelfType => Some("Self"@),
        TypeView::Str => Some("str"@),
        _ => {
            if (int_width(ty) is Some) || floating(ty) || (ty is Bool) {
                type_key(ty)
            } else {
                None
            }
        },
    }
}

/// Compiles the methods of an `impl` block that are not generic.
#[verifier::opaque]
pub open spec fn compile_methods(
    s: State,
    fuel: nat,
    methods: Seq<FunctionView>,
    trait_name: Option<Seq<char>>,
    owner: Seq<char>,
) -> (Result<(), ErrorView>, State) {
    let self_ty = owner_type_spec(owner);
    compile_methods_each(s, fuel, methods, trait_name, owner, self_ty, 0)
}

/// [`compile_methods`] from element `i` on.
#[verifier::opaque]
pub open spec fn compile_methods_each(
    s: State,
    fuel: nat,
    methods: Seq<FunctionView>,
    trait_name: Option<Seq<char>>,
    owner: Seq<char>,
    self_ty: TypeView,
    i: nat,
) -> (Result<(), ErrorView>, State)
    decreases methods.len() - i,
{
    if i < methods.len() {
        let m = methods[i as int];
        if !generic_fn(m) {
            let f = resolve_self_fn(
                (
                    FunctionView {
                        name: method_symbol_spec(
                            trait_name,
                            owner,
                            m.name,
                            m.params.len() as usize,
                        ),
                        ..m
                    }
                ),
                self_ty,
            );
            match compile_function_body(s, fuel, f) {
                (Ok(_), s) => compile_methods_each(
                    s,
                    fuel,
                    methods,
                    trait_name,
                    owner,
                    self_ty,
                    i + 1,
                ),
                (Err(e), s) => (Err(e), s),
            }
        } else {
            compile_methods_each(s, fuel, methods, trait_name, owner, self_ty, i + 1)
        }
    } else {
        (Ok(()), s)
    }
}

/// Compiles the methods that a trait provides for a type.
#[verifier::opaque]
pub open spec fn compile_defaults(
    s: State,
    fuel: nat,
    defs: Seq<TraitMethodDefView>,
    trait_name: Seq<char>,
    owner: Seq<char>,
) -> (Result<(), ErrorView>, State) {
    let self_ty = owner_type_spec(owner);
    compile_defaults_each(s, fuel, defs, trait_name, owner, self_ty, 0)
}

/// [`compile_defaults`] from element `i` on.
#[verifier::opaque]
pub open spec fn compile_defaults_each(
    s: State,
    fuel: nat,
    defs: Seq<TraitMethodDefView>,
    trait_name: Seq<char>,
    owner: Seq<char>,
    self_ty: TypeView,
    i: nat,
) -> (Result<(), ErrorView>, State)
    decreases defs.len() - i,
{
    if i < defs.len() {
        let m = defs[i as int];
        match default_function_spec(m, trait_fn_spec(trait_name, m.name, owner)) {
            Some(f) => {
                if !generic_fn(f) {
                    match compile_function_body(s, fuel, resolve_self_fn(f, self_ty)) {
                        (Ok(_), s) => compile_defaults_each(
                            s,
                            fuel,
                            defs,
                            trait_name,
                            owner,
                            self_ty,
                            i + 1,
                        ),
                        (Err(e), s) => (Err(e), s),
                    }
                } else {
                    compile_defaults_each(s, fuel, defs, trait_name, owner, self_ty, i + 1)
                }
            },
            None => compile_defaults_each(s, fuel, defs, trait_name, owner, self_ty, i + 1),
        }
    } else {
        (Ok(()), s)
    }
}

/// Compiles the methods of an `impl` block that is not generic.
#[verifier::opaque]
pub open spec fn compile_impl(
    s: State,
    fuel: nat,
    decl: ImplDeclView,
    traits: Seq<TraitDeclView>,
) -> (Result<(), ErrorView>, State) {
    if (decl.type_params.len() as usize) > 0 {
        (Ok(()), s)
    } else {
        match compiled_owner_spec(decl.impl_type) {
            Some(owner) => {
                match compile_methods(s, fuel, decl.methods, decl.trait_name, owner) {
                    (Ok(_), s) => {
                        match impl_traits_spec(decl, traits) {
                            Some((name, t)) => {
                                match compile_defaults(
                                    s,
                                    fuel,
                                    generate_default_trait_methods_spec(t.methods, decl.methods),
                                    name,
                                    owner,
                                ) {
                                    (Ok(_), s) => (Ok(()), s),
                                    (Err(e), s) => (Err(e), s),
                                }
                            },
                            None => (Ok(()), s),
                        }
                    },
                    (Err(e), s) => (Err(e), s),
                }
            },
            None => (Ok(()), s),
        }
    }
}

/// Compiles the methods of the `impl` blocks.
#[verifier::opaque]
pub open spec fn compile_impls(
    s: State,
    fuel: nat,
    impls: Seq<ImplDeclView>,
    traits: Seq<TraitDeclView>,
) -> (Result<(), ErrorView>, State) {
    compile_impls_each(s, fuel, impls, traits, 0)
}

/// [`compile_impls`] from element `i` on.
#[verifier::opaque]
pub open spec fn compile_impls_each(
    s: State,
    fuel: nat,
    impls: Seq<ImplDeclView>,
    traits: Seq<TraitDeclView>,
    i: nat,
) -> (Result<(), ErrorView>, State)
    decreases impls.len() - i,
{
    if i < impls.len() {
        let d = impls[i as int];
        match compile_impl(s, fuel, d, traits) {
            (Ok(_), s) => compile_impls_each(s, fuel, impls, traits, i + 1),
            (Err(e), s) => (Err(e), s),
        }
    } else {
        (Ok(()), s)
    }
}

/// Notes what is visible of a program.
#[verifier::opaque]
pub open spec fn show_program(s: State, p: ProgramView) -> (Result<(), ErrorView>, State) {
    match check_struct_attributes_spec(p.structs) {
        Ok(_) => {
            match check_enum_attributes_spec(p.enums) {
                Ok(_) => {
                    let s = show_functions(s, p.funcs);
                    let s = show_structs(s, p.structs);
                    let s = show_enums(s, p.enums);
                    let s = show_traits(s, p.traits);
                    let s = show_aliases(s, p.type_aliases);
                    show_impls(s, p.impls)
                },
                Err(e) => (Err(e), s),
            }
        },
        Err(e) => (Err(e), s),
    }
}

/// Declares the types and functions of a program, and makes the instances that it uses.
#[verifier::opaque]
pub open spec fn declare_program(
    s: State,
    fuel: nat,
    p: ProgramView,
) -> (Result<(), ErrorView>, State) {
    let s = declare_structs(s, p.structs);
    let s = declare_enums(s, p.enums);
    match generate_primitive_trait_impls(s) {
        (Ok(_), s) => {
            match declare_impls(s, p.impls, p.traits) {
                (Ok(_), s) => {
                    match declare_functions(s, p.funcs) {
                        (Ok(_), s) => {
                            match make_instances(s, fuel, program_instances(p)) {
                                (Ok(_), s) => {
                                    match lay_out_structs(s, p.structs) {
                                        (Ok(_), s) => {
                                            match lay_out_enums(s, p.enums) {
                                                (Ok(_), s) => {
                                                    match derive_structs(s, p.structs) {
                                                        (Ok(_), s) => derive_enums(s, p.enums),
                                                        (Err(e), s) => (Err(e), s),
                                                    }
                                                },
                                                (Err(e), s) => (Err(e), s),
                                            }
                                        },
                                        (Err(e), s) => (Err(e), s),
                                    }
                                },
                                (Err(e), s) => (Err(e), s),
                            }
                        },
                        (Err(e), s) => (Err(e), s),
                    }
                },
                (Err(e), s) => (Err(e), s),
            }
        },
        (Err(e), s) => (Err(e), s),
    }
}

/// Compiles a program: what it declares, then the bodies of its functions and methods.
#[verifier::opaque]
pub open spec fn compile_program(
    s: State,
    fuel: nat,
    p: ProgramView,
) -> (Result<(), ErrorView>, State) {
    match show_program(s, p) {
        (Ok(_), s) => {
            match declare_program(s, fuel, p) {
                (Ok(_), s) => {
                    let s = with_drops(s);
                    match check_copy_drops(s.env) {
                        Ok(_) => {
                            match compile_functions(s, fuel, p.funcs) {
                                (Ok(_), s) => {
                                    match compile_impls(s, fuel, p.impls, p.traits) {
                                        (Ok(_), s) => (Ok(()), s),
                                        (Err(e), s) => (Err(e), s),
                                    }
                                },
                                (Err(e), s) => (Err(e), s),
                            }
                        },
                        Err(e) => (Err(e), s),
                    }
                },
                (Err(e), s) => (Err(e), s),
            }
        },
        (Err(e), s) => (Err(e), s),
    }
}

/// Whether one of the fields needs drop glue.
pub open spec fn any_field_glue(env: EnvView, fields: Seq<StructFieldView>) -> bool {
    exists|i: int| 0 <= i < fields.len() && needs_drop(env, (#[trigger] fields[i]).ty)
}

/// Whether a struct has to be dropped: it is known to be, or one of its fields needs drop glue.
pub open spec fn drops_by_field(env: EnvView, name: Seq<char>) -> bool {
    env.drop_types.contains(name) || (env.struct_fields.contains_key(name) && any_field_glue(
        env,
        env.struct_fields[name],
    ))
}

/// The structs that have to be dropped, by what is known now.
pub open spec fn grown_drops(env: EnvView) -> Set<Seq<char>> {
    Set::new(|name: Seq<char>| drops_by_field(env, name))
}

/// What is known of drops after at most `rounds` rounds, or fewer where nothing is added any more.
pub open spec fn close_drops(env: EnvView, rounds: nat) -> EnvView
    decreases rounds,
{
    if rounds == 0 || grown_drops(env) == env.drop_types {
        env
    } else {
        close_drops(EnvView { drop_types: grown_drops(env), ..env }, (rounds - 1) as nat)
    }
}

/// All structs that have to be dropped are known.
pub open spec fn with_drops(s: State) -> State {
    State { env: close_drops(s.env, usize::MAX as nat), ..s }
}

/// The first name, in the order of names, of the types that are both Copy and dropped.
pub open spec fn both_copy_and_drop(env: EnvView) -> Option<Seq<char>> {
    first_name(env.copy_types.intersect(env.drop_types))
}

/// Whether a function is compiled by itself: one with a body that is not generic.
pub open spec fn compiled_alone(f: FunctionView) -> bool {
    !f.is_intrinsic && !generic_fn(f) && !f.is_extern
}

/// Those of the first `n` functions that are compiled by themselves have their code.
pub open spec fn all_compiled(s: State, funcs: Seq<FunctionView>, n: int) -> bool {
    forall|j: int|
        0 <= j < n && compiled_alone(
            #[trigger] funcs[j],
        ) ==> s.out.bodies.contains_key(funcs[j].name)
}

/// Functions that have their code keep it.
pub proof fn lemma_all_compiled(a: State, b: State, funcs: Seq<FunctionView>, n: int)
    requires
        all_compiled(a, funcs, n),
        keeps(a, b),
    ensures
        all_compiled(b, funcs, n),
{
    reveal(grown);
    assert forall|j: int| 0 <= j < n && compiled_alone(
        #[trigger] funcs[j],
    ) implies b.out.bodies.contains_key(funcs[j].name) by {
        assert(a.out.bodies.dom().contains(funcs[j].name));
    }
}

/// Those of the first `n` methods of an `impl` block that are not generic have their code.
pub open spec fn methods_compiled(
    s: State,
    methods: Seq<FunctionView>,
    trait_name: Option<Seq<char>>,
    owner: Seq<char>,
    n: int,
) -> bool {
    forall|j: int|
        0 <= j < n && !generic_fn(#[trigger] methods[j]) ==> s.out.bodies.contains_key(
            method_symbol_spec(
                trait_name,
                owner,
                methods[j].name,
                methods[j].params.len() as usize,
            ),
        )
}

/// Those of the first `n` methods that a trait provides for a type that are not generic have their
/// code.
pub open spec fn defaults_compiled(
    s: State,
    defs: Seq<TraitMethodDefView>,
    trait_name: Seq<char>,
    owner: Seq<char>,
    n: int,
) -> bool {
    forall|j: int|
        0 <= j < n ==> (default_function_spec(
            #[trigger] defs[j],
            trait_fn_spec(trait_name, defs[j].name, owner),
        ) matches Some(f) ==> !generic_fn(f) ==> s.out.bodies.contains_key(f.name))
}

/// The methods of an `impl` block that is not generic have their code, and so have those that its
/// trait provides.
pub open spec fn impl_compiled(s: State, decl: ImplDeclView, traits: Seq<TraitDeclView>) -> bool {
    decl.type_params.len() == 0 ==> (compiled_owner_spec(decl.impl_type) matches Some(owner) ==> {
        &&& methods_compiled(
            s,
            decl.methods,
            decl.trait_name,
            owner,
            decl.methods.len() as int,
        )
        &&& impl_traits_spec(decl, traits) matches Some((name, t)) ==> {
            let defs = generate_default_trait_methods_spec(t.methods, decl.methods);
            defaults_compiled(s, defs, name, owner, defs.len() as int)
        }
    })
}

/// The first `n` `impl` blocks have their code.
pub open spec fn impls_compiled(
    s: State,
    impls: Seq<ImplDeclView>,
    traits: Seq<TraitDeclView>,
    n: int,
) -> bool {
    forall|j: int| 0 <= j < n ==> impl_compiled(s, #[trigger] impls[j], traits)
}

/// Methods that have their code keep it.
pub proof fn lemma_methods_compiled(
    a: State,
    b: State,
    methods: Seq<FunctionView>,
    trait_name: Option<Seq<char>>,
    owner: Seq<char>,
    n: int,
)
    requires
        methods_compiled(a, methods, trait_name, owner, n),
        keeps(a, b),
    ensures
        methods_compiled(b, methods, trait_name, owner, n),
{
    reveal(grown);
    assert forall|j: int| 0 <= j < n && !generic_fn(
        #[trigger] methods[j],
    ) implies b.out.bodies.contains_key(
        method_symbol_spec(trait_name, owner, methods[j].name, methods[j].params.len() as usize),
    ) by {
        assert(a.out.bodies.dom().contains(
            method_symbol_spec(
                trait_name,
                owner,
                methods[j].name,
                methods[j].params.len() as usize,
            ),
        ));
    }
}

/// Methods that a trait provides and that have their code keep it.
pub proof fn lemma_defaults_compiled(
    a: State,
    b: State,
    defs: Seq<TraitMethodDefView>,
    trait_name: Seq<char>,
    owner: Seq<char>,
    n: int,
)
    requires
        defaults_compiled(a, defs, trait_name, owner, n),
        keeps(a, b),
    ensures
        defaults_compiled(b, defs, trait_name, owner, n),
{
    reveal(grown);
    assert forall|j: int| 0 <= j < n implies (default_function_spec(
        #[trigger] defs[j],
        trait_fn_spec(trait_name, defs[j].name, owner),
    ) matches Some(f) ==> !generic_fn(f) ==> b.out.bodies.contains_key(f.name)) by {
        let d = default_function_spec(defs[j], trait_fn_spec(trait_name, defs[j].name, owner));
        if d is Some && !generic_fn(d->0) {
            assert(a.out.bodies.dom().contains(d->0.name));
        }
    }
}

/// `impl` blocks that have their code keep it.
pub proof fn lemma_impls_compiled(
    a: State,
    b: State,
    impls: Seq<ImplDeclView>,
    traits: Seq<TraitDeclView>,
    n: int,
)
    requires
        impls_compiled(a, impls, traits, n),
        keeps(a, b),
    ensures
        impls_compiled(b, impls, traits, n),
{
    assert forall|j: int| 0 <= j < n implies impl_compiled(b, #[trigger] impls[j], traits) by {
        let d = impls[j];
        assert(impl_compiled(a, d, traits));
        if d.type_params.len() == 0 {
            if let Some(owner) = compiled_owner_spec(d.impl_type) {
                lemma_methods_compiled(
                    a,
                    b,
                    d.methods,
                    d.trait_name,
                    owner,
                    d.methods.len() as int,
                );
                if let Some((name, t)) = impl_traits_spec(d, traits) {
                    let defs = generate_default_trait_methods_spec(t.methods, d.methods);
                    lemma_defaults_compiled(a, b, defs, name, owner, defs.len() as int);
                }
            }
        }
    }
}

/// Only functions can be marked `inline`.
pub fn check_attributes(attribs: &Vec<Attribute>) -> (r: Result<(), CodegenError>)
    ensures
        r.model() == check_attributes_spec(attribute_seq_view(attribs@)),
{
    proof {
        reveal(check_attributes_spec);
    }
    let mut i: usize = 0;
    while i < attribs.len()
        invariant
            i <= attribs@.len(),
            forall|k: int| #![trigger attribute_seq_view(attribs@)[k]] 0 <= k < i ==> !check_attributes_here()(
                attribute_seq_view(attribs@)[k],
            ),
        decreases attribs@.len() - i,
    {
        let a = &attribs[i];
        proof {
            assert(attribute_seq_view(attribs@)[i as int] == attribute_view(attribs@[i as int]));
        }
        if same(&a.name, "inline") {
            proof {
                reveal(check_attributes_spec);
            }
            proof {
                lemma_first_index(attribute_seq_view(attribs@), check_attributes_here(), i as int);
            }
            return Err(
                CodegenError::with_span(
                    "attribute `inline` can only be marked on functions".to_owned(),
                    a.span,
                ),
            );
        }
        i += 1;
    }
    proof {
        lemma_no_index(attribute_seq_view(attribs@), check_attributes_here());
    }
    Ok(())
}

/// Structs cannot be marked `inline`.
pub fn check_struct_attributes(decls: &Vec<StructDecl>) -> (r: Result<(), CodegenError>)
    ensures
        r.model() == check_struct_attributes_spec(struct_decl_seq_view(decls@)),
{
    proof {
        reveal(check_struct_attributes_spec);
        reveal(check_struct_attributes_spec_each);
    }
    let mut i: usize = 0;
    while i < decls.len()
        invariant
            i <= decls@.len(),
            check_struct_attributes_spec_each(
                struct_decl_seq_view(decls@),
                i as nat,
            ) == check_struct_attributes_spec(struct_decl_seq_view(decls@)),
        decreases decls@.len() - i,
    {
        proof {
            reveal(check_struct_attributes_spec);
            reveal(check_struct_attributes_spec_each);
        }
        let d = &decls[i];
        proof {
            assert(struct_decl_seq_view(decls@)[i as int] == struct_decl_view(decls@[i as int]));
        }
        match check_attributes(&d.attribs) {
            Ok(_) => {},
            Err(e) => {
                return Err(e);
            },
        }
        i += 1;
    }
    Ok(())
}

/// Enums cannot be marked `inline`.
pub fn check_enum_attributes(decls: &Vec<EnumDecl>) -> (r: Result<(), CodegenError>)
    ensures
        r.model() == check_enum_attributes_spec(enum_decl_seq_view(decls@)),
{
    proof {
        reveal(check_enum_attributes_spec);
        reveal(check_enum_attributes_spec_each);
    }
    let mut i: usize = 0;
    while i < decls.len()
        invariant
            i <= decls@.len(),
            check_enum_attributes_spec_each(
                enum_decl_seq_view(decls@),
                i as nat,
            ) == check_enum_attributes_spec(enum_decl_seq_view(decls@)),
        decreases decls@.len() - i,
    {
        proof {
            reveal(check_enum_attributes_spec);
            reveal(check_enum_attributes_spec_each);
        }
        let d = &decls[i];
        proof {
            assert(enum_decl_seq_view(decls@)[i as int] == enum_decl_view(decls@[i as int]));
        }
        match check_attributes(&d.attribs) {
            Ok(_) => {},
            Err(e) => {
                return Err(e);
            },
        }
        i += 1;
    }
    Ok(())
}

/// The mangled name of a method of an `impl` block.
pub fn method_symbol(
    trait_name: &Option<String>,
    owner: &str,
    method: &str,
    n: usize,
) -> (r: String)
    ensures
        r@ == method_symbol_spec(trait_name.model(), owner@, method@, n),
{
    proof {
        reveal(method_symbol_spec);
    }
    match trait_name {
        Some(t) => {
            return trait_fn(t, method, owner);
        },
        None => {
            return mangled_method_name(owner, method, n);
        },
    }
}

/// Whether a trait is `Drop`.
pub fn is_drop_trait(name: &str) -> (r: bool)
    ensures
        r == is_drop_trait_spec(name@),
{
    proof {
        reveal(is_drop_trait_spec);
    }
    (same(name, "Drop") || has_suffix(name, "::Drop"))
}

/// The name of the struct, or of the generic struct, that an `impl` block is for.
pub fn impl_base(ty: &Type) -> (r: Option<String>)
    ensures
        r.model() == impl_base_spec(ty@),
{
    proof {
        reveal(impl_base_spec);
    }
    match ty {
        Type::Struct(name) => {
            return Some(name.clone());
        },
        Type::GenericInstance(name, _) => {
            return Some(name.clone());
        },
        _ => {
            return None;
        },
    }
}

/// The fields of an enum: its tag, and one field for each variant with a payload.
pub fn plain_enum_fields(variants: &Vec<EnumVariant>) -> (r: Vec<StructField>)
    ensures
        struct_field_seq_view(r@) == plain_enum_fields_spec(enum_variant_seq_view(variants@)),
{
    proof {
        reveal(plain_enum_fields_spec);
        reveal(plain_enum_fields_spec_each);
    }
    let mut items: Vec<StructField> = Vec::new();
    let item = StructField {
        name: "__tag".to_owned(),
        ty: Type::I8,
        is_pub: false,
        span: Span::empty(0),
    };
    items.push(item);
    proof {
        assert(struct_field_seq_view(items@) =~= seq![item@]);
    }
    let mut out = items;
    let mut i: usize = 0;
    while i < variants.len()
        invariant
            i <= variants@.len(),
            plain_enum_fields_spec_each(
                enum_variant_seq_view(variants@),
                struct_field_seq_view(out@),
                i as nat,
            ) == plain_enum_fields_spec(enum_variant_seq_view(variants@)),
        decreases variants@.len() - i,
    {
        proof {
            reveal(plain_enum_fields_spec);
            reveal(plain_enum_fields_spec_each);
        }
        let v = &variants[i];
        proof {
            assert(enum_variant_seq_view(variants@)[i as int] == enum_variant_view(variants@[i as int]));
        }
        match &v.ty {
            Some(ty) => {
                let ghost prior = struct_field_seq_view(out@);
                let item2 = StructField {
                    name: cat("__", &v.name),
                    ty: ty.clone(),
                    is_pub: false,
                    span: Span::empty(0),
                };
                out.push(item2);
                proof {
                    assert(struct_field_seq_view(out@) =~= prior.push(item2@));
                }
            },
            None => {},
        }
        i += 1;
    }
    out
}

/// The name that the methods of an `impl` block are registered under.
pub fn impl_owner(ty: &Type) -> (r: Result<String, CodegenError>)
    ensures
        r.model() == impl_owner_spec(ty@),
{
    proof {
        reveal(impl_owner_spec);
    }
    match ty {
        Type::Struct(name) => {
            return Ok(name.clone());
        },
        Type::GenericInstance(name, _) => {
            return Ok(name.clone());
        },
        Type::SelfType => {
            return Ok("Self".to_owned());
        },
        Type::Str => {
            return Ok("str".to_owned());
        },
        _ => {
            if matches!(
                &int_type_width(ty),
                Some(_)
            ) || is_float(ty) || matches!(ty, Type::Bool { .. }) {
                return type_key_or_fail(ty);
            }
            return Err(
                CodegenError::new(
                    cat("impl target must be a struct type, str, or Self, got ", &show_type(ty)),
                ),
            );
        },
    }
}

/// A trait by its name.
pub fn find_trait(traits: &Vec<TraitDecl>, name: &str) -> (r: Option<TraitDecl>)
    ensures
        r.model() == find_trait_spec(trait_decl_seq_view(traits@), name@),
{
    proof {
        reveal(find_trait_spec);
    }
    let mut i: usize = 0;
    while i < traits.len()
        invariant
            i <= traits@.len(),
            forall|k: int| #![trigger trait_decl_seq_view(traits@)[k]] 0 <= k < i ==> !find_trait_here(name@)(
                trait_decl_seq_view(traits@)[k],
            ),
        decreases traits@.len() - i,
    {
        let t = &traits[i];
        proof {
            assert(trait_decl_seq_view(traits@)[i as int] == trait_decl_view(traits@[i as int]));
        }
        if same(&t.name, name) {
            proof {
                reveal(find_trait_spec);
            }
            proof {
                lemma_first_index(trait_decl_seq_view(traits@), find_trait_here(name@), i as int);
            }
            return Some(t.clone());
        }
        i += 1;
    }
    proof {
        lemma_no_index(trait_decl_seq_view(traits@), find_trait_here(name@));
    }
    None
}

/// Whether an `impl` block defines a method.
pub fn provides_method(methods: &Vec<Function>, name: &str) -> (r: bool)
    ensures
        r == provides_method_spec(function_seq_view(methods@), name@),
{
    proof {
        reveal(provides_method_spec);
    }
    let mut i: usize = 0;
    while i < methods.len()
        invariant
            i <= methods@.len(),
            forall|k: int| #![trigger function_seq_view(methods@)[k]] 0 <= k < i ==> !{
                let name = name@;
                let m = function_seq_view(methods@)[k];
                m.name == name
            },
        decreases methods@.len() - i,
    {
        let m = &methods[i];
        proof {
            assert(function_seq_view(methods@)[i as int] == function_view(methods@[i as int]));
        }
        if same(&m.name, name) {
            proof {
                reveal(provides_method_spec);
            }
            return true;
        }
        i += 1;
    }
    false
}

/// An `impl` block has to define the methods of its trait that have no body.
pub fn check_methods(
    defs: &Vec<TraitMethodDef>,
    methods: &Vec<Function>,
    owner: &str,
    trait_name: &str,
    place: Span,
) -> (r: Result<(), CodegenError>)
    ensures
        r.model() == check_methods_spec(
            trait_method_def_seq_view(defs@),
            function_seq_view(methods@),
            owner@,
            trait_name@,
            place,
        ),
{
    proof {
        reveal(check_methods_spec);
    }
    let mut i: usize = 0;
    while i < defs.len()
        invariant
            i <= defs@.len(),
            forall|k: int| #![trigger trait_method_def_seq_view(defs@)[k]] 0 <= k < i ==> !check_methods_here(function_seq_view(methods@))(
                trait_method_def_seq_view(defs@)[k],
            ),
        decreases defs@.len() - i,
    {
        let m = &defs[i];
        proof {
            assert(trait_method_def_seq_view(defs@)[i as int] == trait_method_def_view(defs@[i as int]));
        }
        if matches!(&m.body, None) && !provides_method(methods, &m.name) {
            proof {
                reveal(check_methods_spec);
            }
            proof {
                lemma_first_index(
                    trait_method_def_seq_view(defs@),
                    check_methods_here(function_seq_view(methods@)),
                    i as int,
                );
            }
            return Err(
                CodegenError::with_span(
                    cat3(
                        &cat3(
                            &cat3("missing method '", &m.name, "' in implementation of trait '"),
                            trait_name,
                            "' for '",
                        ),
                        owner,
                        "'",
                    ),
                    place,
                ),
            );
        }
        i += 1;
    }
    proof {
        lemma_no_index(
            trait_method_def_seq_view(defs@),
            check_methods_here(function_seq_view(methods@)),
        );
    }
    Ok(())
}

/// The methods of a trait that have a body and that an `impl` block does not define.
pub fn generate_default_trait_methods(
    defs: &Vec<TraitMethodDef>,
    methods: &Vec<Function>,
) -> (r: Vec<TraitMethodDef>)
    ensures
        trait_method_def_seq_view(r@) == generate_default_trait_methods_spec(
            trait_method_def_seq_view(defs@),
            function_seq_view(methods@),
        ),
{
    proof {
        reveal(generate_default_trait_methods_spec);
    }
    let items: Vec<TraitMethodDef> = Vec::new();
    proof {
        assert(trait_method_def_seq_view(items@) =~= Seq::<TraitMethodDefView>::empty());
    }
    let mut out = items;
    proof {
        reveal(Seq::filter);
        assert(trait_method_def_seq_view(defs@).take(0) =~= Seq::empty());
    }
    let mut i: usize = 0;
    while i < defs.len()
        invariant
            i <= defs@.len(),
            trait_method_def_seq_view(out@) == trait_method_def_seq_view(defs@).take(i as int).filter(
                generate_default_trait_methods_kept(function_seq_view(methods@)),
            ),
        decreases defs@.len() - i,
    {
        let m = &defs[i];
        proof {
            assert(trait_method_def_seq_view(defs@)[i as int] == trait_method_def_view(defs@[i as int]));
        }
        proof {
            reveal(Seq::filter);
            let t = trait_method_def_seq_view(defs@).take(i + 1);
            assert(t.drop_last() =~= trait_method_def_seq_view(defs@).take(i as int));
            assert(t.last() == trait_method_def_seq_view(defs@)[i as int]);
        }
        if matches!(&m.body, Some(_)) && !provides_method(methods, &m.name) {
            let ghost prior = trait_method_def_seq_view(out@);
            let item = m.clone();
            out.push(item);
            proof {
                assert(trait_method_def_seq_view(out@) =~= prior.push(item@));
            }
        }
        i += 1;
    }
    proof {
        assert(trait_method_def_seq_view(defs@).take(defs@.len() as int) =~= trait_method_def_seq_view(defs@));
    }
    out
}

/// The trait that an `impl` block is for, where it is declared.
pub fn impl_traits(decl: &ImplDecl, traits: &Vec<TraitDecl>) -> (r: Option<(String, TraitDecl)>)
    ensures
        r.model() == impl_traits_spec(decl@, trait_decl_seq_view(traits@)),
{
    proof {
        reveal(impl_traits_spec);
    }
    match &decl.trait_name {
        Some(name) => {
            let subject = find_trait(traits, name);
            match &subject {
                Some(t) => {
                    return Some((name.clone(), t.clone()));
                },
                None => {
                    return None;
                },
            }
        },
        None => {
            return None;
        },
    }
}

/// The type whose methods are registered under a name.
pub fn owner_type(name: &str) -> (r: Type)
    ensures
        r@ == owner_type_spec(name@),
{
    proof {
        reveal(owner_type_spec);
        reveal(owner_type_spec_each);
    }
    let tys = primitive_types();
    if same(name, "str") {
        return Type::Str;
    }
    let mut i: usize = 0;
    while i < tys.len()
        invariant
            i <= tys@.len(),
            owner_type_spec_each(name@, type_seq_view(tys@), i as nat) == owner_type_spec(name@),
        decreases tys@.len() - i,
    {
        proof {
            reveal(owner_type_spec);
            reveal(owner_type_spec_each);
        }
        let ty = &tys[i];
        proof {
            assert(type_seq_view(tys@)[i as int] == type_view(tys@[i as int]));
        }
        if same(&type_key_of_primitive(ty), name) {
            return ty.clone();
        }
        i += 1;
    }
    Type::Struct(name.to_owned())
}

/// The name of a type, or nothing.
pub fn type_key_of_primitive(ty: &Type) -> (r: String)
    ensures
        r@ == type_key_of_primitive_spec(ty@),
{
    proof {
        reveal(type_key_of_primitive_spec);
    }
    let subject = type_key_of(ty);
    match &subject {
        Some(k) => {
            return k.clone();
        },
        None => {
            return "".to_owned();
        },
    }
}

/// A method that a trait provides, as a function.
pub fn default_function(m: &TraitMethodDef, name: &str) -> (r: Option<Function>)
    ensures
        r.model() == default_function_spec(m@, name@),
{
    proof {
        reveal(default_function_spec);
    }
    match &m.body {
        Some(b) => {
            let is_method: bool = takes_self(&m.params);
            let items: Vec<GenericParam> = Vec::new();
            proof {
                assert(generic_param_seq_view(items@) =~= Seq::<GenericParamView>::empty());
            }
            let items2: Vec<Attribute> = Vec::new();
            proof {
                assert(attribute_seq_view(items2@) =~= Seq::<AttributeView>::empty());
            }
            return Some(
                Function {
                    name: name.to_owned(),
                    params: dup_param_seq(&m.params),
                    return_type: m.return_type.dup(),
                    type_params: items,
                    body: b.clone(),
                    is_extern: false,
                    is_intrinsic: false,
                    is_method: is_method,
                    is_pub: false,
                    attribs: items2,
                    span: Span::empty(0),
                },
            );
        },
        None => {
            return None;
        },
    }
}

/// Whether the first parameter is `self`.
pub fn takes_self(params: &Vec<Param>) -> (r: bool)
    ensures
        r == takes_self_spec(param_seq_view(params@)),
{
    proof {
        reveal(takes_self_spec);
    }
    proof {
        assert(param_seq_view(params@).len() == params@.len());
    }
    if params.len() > 0 {
        proof {
            assert(param_seq_view(params@)[0] == param_view(params@[0]));
        }
        return same(&params[0].name, "self");
    }
    false
}

/// The name of the type whose methods are compiled.
pub fn compiled_owner(ty: &Type) -> (r: Option<String>)
    ensures
        r.model() == compiled_owner_spec(ty@),
{
    proof {
        reveal(compiled_owner_spec);
    }
    match ty {
        Type::Struct(name) => {
            return Some(name.clone());
        },
        Type::GenericInstance(name, _) => {
            return Some(name.clone());
        },
        Type::SelfType => {
            return Some("Self".to_owned());
        },
        Type::Str => {
            return Some("str".to_owned());
        },
        _ => {
            if matches!(
                &int_type_width(ty),
                Some(_)
            ) || is_float(ty) || matches!(ty, Type::Bool { .. }) {
                return type_key_of(ty);
            }
            return None;
        },
    }
}

impl Env {
    /// An enum as the struct that it is laid out as.
    pub fn enum_as_struct(&self, d: &EnumDecl) -> (r: StructDecl)
        ensures
            r@ == enum_as_struct(self@, d@),
    {
        proof {
            reveal(enum_as_struct);
        }
        let subject = self.struct_fields.get_dup(&d.name);
        match &subject {
            Some(fields) => {
                let items: Vec<GenericParam> = Vec::new();
                proof {
                    assert(generic_param_seq_view(items@) =~= Seq::<GenericParamView>::empty());
                }
                return StructDecl {
                    name: d.name.clone(),
                    fields: dup_struct_field_seq(fields),
                    type_params: items,
                    is_pub: d.is_pub,
                    attribs: dup_attribute_seq(&d.attribs),
                    span: d.span,
                };
            },
            None => {
                let items2: Vec<StructField> = Vec::new();
                proof {
                    assert(struct_field_seq_view(items2@) =~= Seq::<StructFieldView>::empty());
                }
                let items3: Vec<GenericParam> = Vec::new();
                proof {
                    assert(generic_param_seq_view(items3@) =~= Seq::<GenericParamView>::empty());
                }
                return StructDecl {
                    name: d.name.clone(),
                    fields: items2,
                    type_params: items3,
                    is_pub: d.is_pub,
                    attribs: dup_attribute_seq(&d.attribs),
                    span: d.span,
                };
            },
        }
    }

    /// No type can be both Copy and dropped; the error names the first of those that are, in the
    /// order of their names.
    pub fn check_copy_drops(&self) -> (r: Result<(), CodegenError>)
        ensures
            r.model() == check_copy_drops(self@),
    {
        proof {
            reveal(check_copy_drops);
        }
        let subject = self.both_copy_and_drop();
        match &subject {
            Some(name) => {
                return Err(
                    CodegenError::new(cat3("type '", name, "' cannot be both Copy and Drop")),
                );
            },
            None => {
                return Ok(());
            },
        }
    }
}

impl Env {
    /// The first name, in the order of names, of the types that are both Copy and dropped.
    pub fn both_copy_and_drop(&self) -> (r: Option<String>)
        ensures
            r.model() == both_copy_and_drop(self@),
    {
        self.copy_types.first_shared(&self.drop_types)
    }

    fn has_field_glue(&self, fields: &Vec<StructField>) -> (r: bool)
        ensures
            r == any_field_glue(self@, struct_field_seq_view(fields@)),
    {
        let ghost all = struct_field_seq_view(fields@);
        let mut i: usize = 0;
        while i < fields.len()
            invariant
                i <= fields@.len(),
                all == struct_field_seq_view(fields@),
                forall|k: int| 0 <= k < i ==> !needs_drop(self@, (#[trigger] all[k]).ty),
            decreases fields@.len() - i,
        {
            proof {
                assert(all[i as int] == struct_field_view(fields@[i as int]));
            }
            if self.has_drop_glue(&fields[i].ty) {
                return true;
            }
            i += 1;
        }
        false
    }

    /// The structs that have to be dropped, by what is known now, and whether that adds any.
    pub fn grow_drops(&self) -> (r: (Names, bool))
        ensures
            r.0@ == grown_drops(self@),
            r.1 == (grown_drops(self@) != self@.drop_types),
    {
        let names = self.struct_fields.keys();
        let mut out = self.drop_types.dup();
        let mut changed = false;
        let mut i: usize = 0;
        while i < names.len()
            invariant
                i <= names@.len(),
                forall|n: Seq<char>| #[trigger]
                    self@.struct_fields.contains_key(n) == exists|j: int|
                        0 <= j < names@.len() && (#[trigger] names@[j])@ == n,
                forall|n: Seq<char>| #[trigger]
                    out@.contains(n) == (self@.drop_types.contains(n) || exists|j: int|
                        0 <= j < i && (#[trigger] names@[j])@ == n && drops_by_field(self@, n)),
                changed == exists|j: int|
                    0 <= j < i && !self@.drop_types.contains((#[trigger] names@[j])@)
                        && drops_by_field(self@, names@[j]@),
            decreases names@.len() - i,
        {
            let name = names[i].clone();
            proof {
                assert(names@[i as int]@ == name@);
                assert(self@.struct_fields.contains_key(name@));
            }
            if !self.drop_types.contains(&name) {
                match self.struct_fields.get(&name) {
                    Some(fields) => {
                        if self.has_field_glue(fields) {
                            let ghost before = out@;
                            out.insert(name);
                            changed = true;
                            proof {
                                assert forall|n: Seq<char>| #[trigger] out@.contains(n) == (
                                self@.drop_types.contains(n) || exists|j: int|
                                    0 <= j < i
                                        + 1 && (#[trigger] names@[j])@ == n && drops_by_field(
                                        self@,
                                        n,
                                    )) by {
                                    assert(out@.contains(n) == (before.contains(n) || n == name@));
                                }
                            }
                        }
                    },
                    None => {},
                }
            }
            i += 1;
        }
        proof {
            assert(out@ =~= grown_drops(self@));
            if changed {
                let j = choose|j: int|
                    0 <= j < i && !self@.drop_types.contains((#[trigger] names@[j])@)
                        && drops_by_field(self@, names@[j]@);
                assert(grown_drops(self@).contains(names@[j]@));
            } else {
                assert(grown_drops(self@) =~= self@.drop_types);
            }
        }
        (out, changed)
    }
}

impl CodeGen {
    /// Finds all structs that have to be dropped.
    pub fn find_drops(&mut self)
        ensures
            final(self)@ == with_drops(old(self)@),
            stays(old(self)@, final(self)@),
            settled(old(self)@, final(self)@),
            confined(old(self)@.out.cur, final(self)@.out.cur),
            same_variables(old(self)@, final(self)@),
    {
        proof {
            broadcast use crate::growth::group_growth;

            reveal(fields_kept);
        }
        let mut rounds: usize = usize::MAX;
        while rounds > 0
            invariant
                self@ == (State { env: self@.env, ..old(self)@ }),
                self@.env.monomorphized == old(self)@.env.monomorphized,
                self@.env.impl_methods == old(self)@.env.impl_methods,
                self@.env.struct_types == old(self)@.env.struct_types,
                self@.env.struct_fields == old(self)@.env.struct_fields,
                close_drops(self@.env, rounds as nat) == close_drops(
                    old(self)@.env,
                    usize::MAX as nat,
                ),
            decreases rounds,
        {
            let (names, changed) = self.env.grow_drops();
            if !changed {
                proof {
                    broadcast use crate::growth::group_growth;

                    reveal(fields_kept);
                }
                return;
            }
            self.env.drop_types = names;
            rounds -= 1;
        }
    }

    /// Compile an entire program: its declarations, the instances it needs, and the bodies of its
    /// functions and methods.
    pub fn compile_module(&mut self, p: &Program) -> (r: Result<(), CodegenError>)
        ensures
            (r.model(), final(self)@) == compile_program(old(self)@, usize::MAX as nat, p@),
            keeps(old(self)@, final(self)@),
            r is Ok ==> all_compiled(final(self)@, p@.funcs, p@.funcs.len() as int),
            r is Ok ==> impls_compiled(
                final(self)@,
                p@.impls,
                p@.traits,
                p@.impls.len() as int,
            ),
    {
        self.compile_program(usize::MAX, p)
    }
}

impl CodeGen {
    /// Notes which functions are public.
    pub fn show_functions(&mut self, funcs: &Vec<Function>)
        ensures
            final(self)@ == show_functions(old(self)@, function_seq_view(funcs@)),
            stays(old(self)@, final(self)@),
            settled(old(self)@, final(self)@),
            confined(old(self)@.out.cur, final(self)@.out.cur),
            same_variables(old(self)@, final(self)@),
    {
        proof {
            broadcast use crate::growth::group_growth;

            count_from(old(self)@);
            reveal(show_functions);
            reveal(show_functions_each);
        }
        let mut i: usize = 0;
        while i < funcs.len()
            invariant
                i <= funcs@.len(),
                show_functions_each(
                    self@,
                    function_seq_view(funcs@),
                    i as nat,
                ) == show_functions(old(self)@, function_seq_view(funcs@)),
                stays(old(self)@, self@),
                settled(old(self)@, self@),
                confined(old(self)@.out.cur, self@.out.cur),
                same_variables(old(self)@, self@),
            decreases funcs@.len() - i,
        {
            proof {
                broadcast use crate::growth::group_growth;

                count_from(old(self)@);
                reveal(show_functions);
                reveal(show_functions_each);
            }
            let f = &funcs[i];
            proof {
                assert(function_seq_view(funcs@)[i as int] == function_view(funcs@[i as int]));
            }
            let ghost past = self@.env;
            self.env.visibility.insert(f.name.clone(), f.is_pub);
            proof {
                assert(fields_kept(past, self@.env)) by {
                    reveal(fields_kept);
                }
            }
            i += 1;
        }

    }

    /// Notes which structs and which of their fields are public.
    pub fn show_structs(&mut self, decls: &Vec<StructDecl>)
        ensures
            final(self)@ == show_structs(old(self)@, struct_decl_seq_view(decls@)),
            stays(old(self)@, final(self)@),
            settled(old(self)@, final(self)@),
            confined(old(self)@.out.cur, final(self)@.out.cur),
            same_variables(old(self)@, final(self)@),
    {
        proof {
            broadcast use crate::growth::group_growth;

            count_from(old(self)@);
            reveal(show_structs);
            reveal(show_structs_each);
        }
        let mut i: usize = 0;
        while i < decls.len()
            invariant
                i <= decls@.len(),
                show_structs_each(
                    self@,
                    struct_decl_seq_view(decls@),
                    i as nat,
                ) == show_structs(old(self)@, struct_decl_seq_view(decls@)),
                stays(old(self)@, self@),
                settled(old(self)@, self@),
                confined(old(self)@.out.cur, self@.out.cur),
                same_variables(old(self)@, self@),
            decreases decls@.len() - i,
        {
            proof {
                broadcast use crate::growth::group_growth;

                count_from(old(self)@);
                reveal(show_structs);
                reveal(show_structs_each);
            }
            let d = &decls[i];
            proof {
                assert(struct_decl_seq_view(decls@)[i as int] == struct_decl_view(decls@[i as int]));
            }
            let ghost past = self@.env;
            self.env.visibility.insert(d.name.clone(), d.is_pub);
            proof {
                assert(fields_kept(past, self@.env)) by {
                    reveal(fields_kept);
                }
            }
            let ghost past2 = self@.env;
            self.env.field_visibility.insert(d.name.clone(), field_access(&d.fields));
            proof {
                assert(fields_kept(past2, self@.env)) by {
                    reveal(fields_kept);
                }
            }
            i += 1;
        }

    }

    /// Notes which enums are public.
    pub fn show_enums(&mut self, decls: &Vec<EnumDecl>)
        ensures
            final(self)@ == show_enums(old(self)@, enum_decl_seq_view(decls@)),
            stays(old(self)@, final(self)@),
            settled(old(self)@, final(self)@),
            confined(old(self)@.out.cur, final(self)@.out.cur),
            same_variables(old(self)@, final(self)@),
    {
        proof {
            broadcast use crate::growth::group_growth;

            count_from(old(self)@);
            reveal(show_enums);
            reveal(show_enums_each);
        }
        let mut i: usize = 0;
        while i < decls.len()
            invariant
                i <= decls@.len(),
                show_enums_each(
                    self@,
                    enum_decl_seq_view(decls@),
                    i as nat,
                ) == show_enums(old(self)@, enum_decl_seq_view(decls@)),
                stays(old(self)@, self@),
                settled(old(self)@, self@),
                confined(old(self)@.out.cur, self@.out.cur),
                same_variables(old(self)@, self@),
            decreases decls@.len() - i,
        {
            proof {
                broadcast use crate::growth::group_growth;

                count_from(old(self)@);
                reveal(show_enums);
                reveal(show_enums_each);
            }
            let d = &decls[i];
            proof {
                assert(enum_decl_seq_view(decls@)[i as int] == enum_decl_view(decls@[i as int]));
            }
            let ghost past = self@.env;
            self.env.visibility.insert(d.name.clone(), d.is_pub);
            proof {
                assert(fields_kept(past, self@.env)) by {
                    reveal(fields_kept);
                }
            }
            i += 1;
        }

    }

    /// Notes which traits are public, and keeps all of them.
    pub fn show_traits(&mut self, decls: &Vec<TraitDecl>)
        ensures
            final(self)@ == show_traits(old(self)@, trait_decl_seq_view(decls@)),
            stays(old(self)@, final(self)@),
            settled(old(self)@, final(self)@),
            confined(old(self)@.out.cur, final(self)@.out.cur),
            same_variables(old(self)@, final(self)@),
    {
        proof {
            broadcast use crate::growth::group_growth;

            count_from(old(self)@);
            reveal(show_traits);
            reveal(show_traits_each);
        }
        let mut i: usize = 0;
        while i < decls.len()
            invariant
                i <= decls@.len(),
                show_traits_each(
                    self@,
                    trait_decl_seq_view(decls@),
                    i as nat,
                ) == show_traits(old(self)@, trait_decl_seq_view(decls@)),
                stays(old(self)@, self@),
                settled(old(self)@, self@),
                confined(old(self)@.out.cur, self@.out.cur),
                same_variables(old(self)@, self@),
            decreases decls@.len() - i,
        {
            proof {
                broadcast use crate::growth::group_growth;

                count_from(old(self)@);
                reveal(show_traits);
                reveal(show_traits_each);
            }
            let d = &decls[i];
            proof {
                assert(trait_decl_seq_view(decls@)[i as int] == trait_decl_view(decls@[i as int]));
            }
            let ghost past = self@.env;
            self.env.visibility.insert(d.name.clone(), d.is_pub);
            proof {
                assert(fields_kept(past, self@.env)) by {
                    reveal(fields_kept);
                }
            }
            let ghost past2 = self@.env;
            self.env.trait_defs.insert(d.name.clone(), d.clone());
            proof {
                assert(fields_kept(past2, self@.env)) by {
                    reveal(fields_kept);
                }
            }
            i += 1;
        }

    }

    /// Notes which type aliases are public.
    pub fn show_aliases(&mut self, decls: &Vec<TypeAliasDecl>)
        ensures
            final(self)@ == show_aliases(old(self)@, type_alias_decl_seq_view(decls@)),
            stays(old(self)@, final(self)@),
            settled(old(self)@, final(self)@),
            confined(old(self)@.out.cur, final(self)@.out.cur),
            same_variables(old(self)@, final(self)@),
    {
        proof {
            broadcast use crate::growth::group_growth;

            count_from(old(self)@);
            reveal(show_aliases);
            reveal(show_aliases_each);
        }
        let mut i: usize = 0;
        while i < decls.len()
            invariant
                i <= decls@.len(),
                show_aliases_each(
                    self@,
                    type_alias_decl_seq_view(decls@),
                    i as nat,
                ) == show_aliases(old(self)@, type_alias_decl_seq_view(decls@)),
                stays(old(self)@, self@),
                settled(old(self)@, self@),
                confined(old(self)@.out.cur, self@.out.cur),
                same_variables(old(self)@, self@),
            decreases decls@.len() - i,
        {
            proof {
                broadcast use crate::growth::group_growth;

                count_from(old(self)@);
                reveal(show_aliases);
                reveal(show_aliases_each);
            }
            let d = &decls[i];
            proof {
                assert(type_alias_decl_seq_view(decls@)[i as int] == type_alias_decl_view(decls@[i as int]));
            }
            let ghost past = self@.env;
            self.env.visibility.insert(d.name.clone(), d.is_pub);
            proof {
                assert(fields_kept(past, self@.env)) by {
                    reveal(fields_kept);
                }
            }
            i += 1;
        }

    }

    /// Notes which methods are public.
    pub fn show_methods(
        &mut self,
        methods: &Vec<Function>,
        trait_name: &Option<String>,
        owner: &str,
    )
        ensures
            final(self)@ == show_methods(
                old(self)@,
                function_seq_view(methods@),
                trait_name.model(),
                owner@,
            ),
            stays(old(self)@, final(self)@),
            settled(old(self)@, final(self)@),
            confined(old(self)@.out.cur, final(self)@.out.cur),
            same_variables(old(self)@, final(self)@),
    {
        proof {
            broadcast use crate::growth::group_growth;

            count_from(old(self)@);
            reveal(show_methods);
            reveal(show_methods_each);
        }
        let mut i: usize = 0;
        while i < methods.len()
            invariant
                i <= methods@.len(),
                show_methods_each(
                    self@,
                    function_seq_view(methods@),
                    trait_name.model(),
                    owner@,
                    i as nat,
                ) == show_methods(
                    old(self)@,
                    function_seq_view(methods@),
                    trait_name.model(),
                    owner@,
                ),
                stays(old(self)@, self@),
                settled(old(self)@, self@),
                confined(old(self)@.out.cur, self@.out.cur),
                same_variables(old(self)@, self@),
            decreases methods@.len() - i,
        {
            proof {
                broadcast use crate::growth::group_growth;

                count_from(old(self)@);
                reveal(show_methods);
                reveal(show_methods_each);
            }
            let m = &methods[i];
            proof {
                assert(function_seq_view(methods@)[i as int] == function_view(methods@[i as int]));
            }
            proof {
                assert(param_seq_view(m.params@).len() == m.params@.len());
            }
            let symbol = method_symbol(trait_name, owner, &m.name, m.params.len());
            self.note_owner(&symbol, trait_name, owner);
            let ghost past = self@.env;
            self.env.visibility.insert(symbol.clone(), m.is_pub);
            proof {
                assert(fields_kept(past, self@.env)) by {
                    reveal(fields_kept);
                }
            }
            i += 1;
        }

    }

    /// Notes the type that a method of a trait belongs to.
    pub fn note_owner(&mut self, symbol: &str, trait_name: &Option<String>, owner: &str)
        ensures
            final(self)@ == note_owner(old(self)@, symbol@, trait_name.model(), owner@),
            stays(old(self)@, final(self)@),
            settled(old(self)@, final(self)@),
            confined(old(self)@.out.cur, final(self)@.out.cur),
            same_variables(old(self)@, final(self)@),
    {
        proof {
            broadcast use crate::growth::group_growth;

            count_from(old(self)@);
            reveal(note_owner);
        }
        if matches!(trait_name, Some(_)) {
            let ghost past = self@.env;
            self.env.item_owners.insert(symbol.to_owned(), owner.to_owned());
            proof {
                assert(fields_kept(past, self@.env)) by {
                    reveal(fields_kept);
                }
            }
        }
    }

    /// Notes that a type implements a trait; `Copy` can only be derived.
    pub fn show_impl_trait(
        &mut self,
        trait_name: &str,
        owner: &str,
    ) -> (r: Result<(), CodegenError>)
        ensures
            (r.model(), final(self)@) == show_impl_trait(old(self)@, trait_name@, owner@),
            stays(old(self)@, final(self)@),
            r is Ok ==> settled(old(self)@, final(self)@),
            r is Ok ==> confined(old(self)@.out.cur, final(self)@.out.cur),
            r is Ok ==> same_variables(old(self)@, final(self)@),
    {
        proof {
            broadcast use crate::growth::group_growth;

            count_from(old(self)@);
            reveal(show_impl_trait);
        }
        if same(trait_name, "Copy") {
            return Err(
                CodegenError::new(
                    cat3(
                        "cannot implement Copy for type '",
                        owner,
                        "', use #[derive(Clone, Copy)] instead",
                    ),
                ),
            );
        }
        if is_drop_trait(trait_name) {
            let ghost past = self@.env;
            self.env.drop_types.insert(owner.to_owned());
            proof {
                assert(fields_kept(past, self@.env)) by {
                    reveal(fields_kept);
                }
            }
        }
        self.add_trait(owner, trait_name);
        Ok(())
    }

    /// Notes the traits of structs, and which of their methods are public.
    pub fn show_impls(&mut self, impls: &Vec<ImplDecl>) -> (r: Result<(), CodegenError>)
        ensures
            (r.model(), final(self)@) == show_impls(old(self)@, impl_decl_seq_view(impls@)),
            stays(old(self)@, final(self)@),
            r is Ok ==> settled(old(self)@, final(self)@),
            r is Ok ==> confined(old(self)@.out.cur, final(self)@.out.cur),
            r is Ok ==> same_variables(old(self)@, final(self)@),
    {
        proof {
            broadcast use crate::growth::group_growth;

            count_from(old(self)@);
            reveal(show_impls);
            reveal(show_impls_each);
        }
        let mut i: usize = 0;
        while i < impls.len()
            invariant
                i <= impls@.len(),
                show_impls_each(
                    self@,
                    impl_decl_seq_view(impls@),
                    i as nat,
                ) == show_impls(old(self)@, impl_decl_seq_view(impls@)),
                stays(old(self)@, self@),
                settled(old(self)@, self@),
                confined(old(self)@.out.cur, self@.out.cur),
                same_variables(old(self)@, self@),
            decreases impls@.len() - i,
        {
            proof {
                broadcast use crate::growth::group_growth;

                count_from(old(self)@);
                reveal(show_impls);
                reveal(show_impls_each);
            }
            let d = &impls[i];
            proof {
                assert(impl_decl_seq_view(impls@)[i as int] == impl_decl_view(impls@[i as int]));
            }
            let subject = impl_base(&d.impl_type);
            match &subject {
                Some(owner) => {
                    match &d.trait_name {
                        Some(t) => {
                            match self.show_impl_trait(t, owner) {
                                Ok(_) => {},
                                Err(e) => {
                                    return Err(e);
                                },
                            }
                        },
                        None => {},
                    }
                    self.show_methods(&d.methods, &d.trait_name, owner);
                },
                None => {},
            }
            i += 1;
        }
        Ok(())
    }

    /// Lets a type have methods.
    pub fn ensure_methods(&mut self, name: &str)
        ensures
            final(self)@ == ensure_methods(old(self)@, name@),
            stays(old(self)@, final(self)@),
            settled(old(self)@, final(self)@),
            confined(old(self)@.out.cur, final(self)@.out.cur),
            same_variables(old(self)@, final(self)@),
    {
        proof {
            broadcast use crate::growth::group_growth;

            count_from(old(self)@);
            reveal(ensure_methods);
        }
        if !self.env.impl_methods.contains_key(name) {
            let items: Vec<(String, String)> = Vec::new();
            proof {
                assert(items.model() =~= Seq::<(Seq<char>, Seq<char>)>::empty());
            }
            let ghost past = self@.env;
            self.env.impl_methods.insert(name.to_owned(), items);
            proof {
                assert(fields_kept(past, self@.env)) by {
                    reveal(fields_kept);
                }
                assert(within(past.impl_methods.dom(), self@.env.impl_methods.dom())) by {
                    reveal(within);
                }
            }
        }
    }

    /// Declares structs; generic ones are kept for their instances.
    pub fn declare_structs(&mut self, decls: &Vec<StructDecl>)
        ensures
            final(self)@ == declare_structs(old(self)@, struct_decl_seq_view(decls@)),
            stays(old(self)@, final(self)@),
            same_variables(old(self)@, final(self)@),
    {
        proof {
            broadcast use crate::growth::group_growth;

            count_from(old(self)@);
            reveal(declare_structs);
            reveal(declare_structs_each);
        }
        let mut i: usize = 0;
        while i < decls.len()
            invariant
                i <= decls@.len(),
                declare_structs_each(
                    self@,
                    struct_decl_seq_view(decls@),
                    i as nat,
                ) == declare_structs(old(self)@, struct_decl_seq_view(decls@)),
                stays(old(self)@, self@),
                same_variables(old(self)@, self@),
            decreases decls@.len() - i,
        {
            proof {
                broadcast use crate::growth::group_growth;

                count_from(old(self)@);
                reveal(declare_structs);
                reveal(declare_structs_each);
            }
            let d = &decls[i];
            proof {
                assert(struct_decl_seq_view(decls@)[i as int] == struct_decl_view(decls@[i as int]));
            }
            proof {
                assert(generic_param_seq_view(d.type_params@).len() == d.type_params@.len());
            }
            if d.type_params.len() > 0 {
                let ghost past = self@.env;
                self.env.generic_struct_defs.insert(d.name.clone(), d.clone());
                proof {
                    assert(fields_kept(past, self@.env)) by {
                        reveal(fields_kept);
                    }
                }
                self.ensure_methods(&d.name);
            }
            self.env.struct_fields.insert(d.name.clone(), dup_struct_field_seq(&d.fields));
            self.declare_struct_type(&d.name);
            i += 1;
        }

    }

    /// Declares enums; generic ones are kept for their instances.
    pub fn declare_enums(&mut self, decls: &Vec<EnumDecl>)
        ensures
            final(self)@ == declare_enums(old(self)@, enum_decl_seq_view(decls@)),
            stays(old(self)@, final(self)@),
            same_variables(old(self)@, final(self)@),
    {
        proof {
            broadcast use crate::growth::group_growth;

            count_from(old(self)@);
            reveal(declare_enums);
            reveal(declare_enums_each);
        }
        let mut i: usize = 0;
        while i < decls.len()
            invariant
                i <= decls@.len(),
                declare_enums_each(
                    self@,
                    enum_decl_seq_view(decls@),
                    i as nat,
                ) == declare_enums(old(self)@, enum_decl_seq_view(decls@)),
                stays(old(self)@, self@),
                same_variables(old(self)@, self@),
            decreases decls@.len() - i,
        {
            proof {
                broadcast use crate::growth::group_growth;

                count_from(old(self)@);
                reveal(declare_enums);
                reveal(declare_enums_each);
            }
            let d = &decls[i];
            proof {
                assert(enum_decl_seq_view(decls@)[i as int] == enum_decl_view(decls@[i as int]));
            }
            proof {
                assert(generic_param_seq_view(d.type_params@).len() == d.type_params@.len());
            }
            if d.type_params.len() > 0 {
                let ghost past = self@.env;
                self.env.generic_enum_defs.insert(d.name.clone(), d.clone());
                proof {
                    assert(fields_kept(past, self@.env)) by {
                        reveal(fields_kept);
                    }
                }
                self.ensure_methods(&d.name);
            }
            let ghost past2 = self@.env;
            self.env.enum_defs.insert(d.name.clone(), d.clone());
            proof {
                assert(fields_kept(past2, self@.env)) by {
                    reveal(fields_kept);
                }
            }
            self.env.struct_fields.insert(d.name.clone(), plain_enum_fields(&d.variants));
            self.declare_struct_type(&d.name);
            i += 1;
        }

    }

    /// The constants of an `impl` block.
    pub fn define_consts(&mut self, consts: &Vec<AssociatedConst>, owner: &str)
        ensures
            final(self)@ == define_consts(old(self)@, associated_const_seq_view(consts@), owner@),
            stays(old(self)@, final(self)@),
            settled(old(self)@, final(self)@),
            confined(old(self)@.out.cur, final(self)@.out.cur),
            same_variables(old(self)@, final(self)@),
    {
        proof {
            broadcast use crate::growth::group_growth;

            count_from(old(self)@);
            reveal(define_consts);
            reveal(define_consts_each);
        }
        let mut i: usize = 0;
        while i < consts.len()
            invariant
                i <= consts@.len(),
                define_consts_each(
                    self@,
                    associated_const_seq_view(consts@),
                    owner@,
                    i as nat,
                ) == define_consts(old(self)@, associated_const_seq_view(consts@), owner@),
                stays(old(self)@, self@),
                settled(old(self)@, self@),
                confined(old(self)@.out.cur, self@.out.cur),
                same_variables(old(self)@, self@),
            decreases consts@.len() - i,
        {
            proof {
                broadcast use crate::growth::group_growth;

                count_from(old(self)@);
                reveal(define_consts);
                reveal(define_consts_each);
            }
            let c = &consts[i];
            proof {
                assert(associated_const_seq_view(consts@)[i as int] == associated_const_view(consts@[i as int]));
            }
            self.define_const(owner, &c.name, &c.value, &c.ty);
            i += 1;
        }

    }

    /// The constants of a trait that an `impl` block does not define: they need a default.
    pub fn inherit_consts(
        &mut self,
        defs: &Vec<TraitConst>,
        consts: &Vec<AssociatedConst>,
        owner: &str,
        trait_name: &str,
        place: Span,
    ) -> (r: Result<(), CodegenError>)
        ensures
            (r.model(), final(self)@) == inherit_consts(
                old(self)@,
                trait_const_seq_view(defs@),
                associated_const_seq_view(consts@),
                owner@,
                trait_name@,
                place,
            ),
            stays(old(self)@, final(self)@),
            r is Ok ==> settled(old(self)@, final(self)@),
            r is Ok ==> confined(old(self)@.out.cur, final(self)@.out.cur),
            r is Ok ==> same_variables(old(self)@, final(self)@),
    {
        proof {
            broadcast use crate::growth::group_growth;

            count_from(old(self)@);
            reveal(inherit_consts);
            reveal(inherit_consts_each);
        }
        let mut i: usize = 0;
        while i < defs.len()
            invariant
                i <= defs@.len(),
                inherit_consts_each(
                    self@,
                    trait_const_seq_view(defs@),
                    associated_const_seq_view(consts@),
                    owner@,
                    trait_name@,
                    place,
                    i as nat,
                ) == inherit_consts(
                    old(self)@,
                    trait_const_seq_view(defs@),
                    associated_const_seq_view(consts@),
                    owner@,
                    trait_name@,
                    place,
                ),
                stays(old(self)@, self@),
                settled(old(self)@, self@),
                confined(old(self)@.out.cur, self@.out.cur),
                same_variables(old(self)@, self@),
            decreases defs@.len() - i,
        {
            proof {
                broadcast use crate::growth::group_growth;

                count_from(old(self)@);
                reveal(inherit_consts);
                reveal(inherit_consts_each);
            }
            let c = &defs[i];
            proof {
                assert(trait_const_seq_view(defs@)[i as int] == trait_const_view(defs@[i as int]));
            }
            if !provides_const(consts, &c.name) {
                match &c.default_value {
                    Some(value) => {
                        self.define_const(owner, &c.name, value, &c.ty);
                    },
                    None => {
                        return Err(
                            CodegenError::with_span(
                                cat3(
                                    &cat3(
                                        &cat3(
                                            "missing associated constant '",
                                            &c.name,
                                            "' in implementation of trait '",
                                        ),
                                        trait_name,
                                        "' for '",
                                    ),
                                    owner,
                                    "'",
                                ),
                                place,
                            ),
                        );
                    },
                }
            }
            i += 1;
        }
        Ok(())
    }

    /// An `impl` block of a trait has to be complete.
    pub fn complete_impl(
        &mut self,
        decl: &ImplDecl,
        traits: &Vec<TraitDecl>,
        owner: &str,
    ) -> (r: Result<(), CodegenError>)
        ensures
            (r.model(), final(self)@) == complete_impl(
                old(self)@,
                decl@,
                trait_decl_seq_view(traits@),
                owner@,
            ),
            stays(old(self)@, final(self)@),
            r is Ok ==> settled(old(self)@, final(self)@),
            r is Ok ==> confined(old(self)@.out.cur, final(self)@.out.cur),
            r is Ok ==> same_variables(old(self)@, final(self)@),
    {
        proof {
            broadcast use crate::growth::group_growth;

            count_from(old(self)@);
            reveal(complete_impl);
        }
        let subject = impl_traits(decl, traits);
        match &subject {
            Some((name, t)) => {
                match self.inherit_consts(&t.consts, &decl.consts, owner, name, decl.span) {
                    Ok(_) => {},
                    Err(e) => {
                        return Err(e);
                    },
                }
                return check_methods(&t.methods, &decl.methods, owner, name, decl.span);
            },
            None => {
                return Ok(());
            },
        }
    }

    /// Keeps a generic `impl` block for instances.
    pub fn add_generic_impl(&mut self, owner: &str, decl: &ImplDecl)
        ensures
            final(self)@ == add_generic_impl(old(self)@, owner@, decl@),
            stays(old(self)@, final(self)@),
            settled(old(self)@, final(self)@),
            confined(old(self)@.out.cur, final(self)@.out.cur),
            same_variables(old(self)@, final(self)@),
    {
        proof {
            broadcast use crate::growth::group_growth;

            count_from(old(self)@);
            reveal(add_generic_impl);
        }
        let subject = self.env.generic_impls.get_dup(owner);
        match &subject {
            Some(known) => {
                let mut more = known.dup();
                let ghost prior = more.model();
                let item = (dup_generic_param_seq(&decl.type_params), decl.clone());
                more.push(item);
                proof {
                    assert(more.model() =~= prior.push(item.model()));
                }
                let ghost past = self@.env;
                self.env.generic_impls.insert(owner.to_owned(), more.dup());
                proof {
                    assert(fields_kept(past, self@.env)) by {
                        reveal(fields_kept);
                    }
                }
            },
            None => {
                let mut items: Vec<(Vec<GenericParam>, ImplDecl)> = Vec::new();
                let item2 = (dup_generic_param_seq(&decl.type_params), decl.clone());
                items.push(item2);
                proof {
                    assert(items.model() =~= seq![item2.model()]);
                }
                let ghost past2 = self@.env;
                self.env.generic_impls.insert(owner.to_owned(), items);
                proof {
                    assert(fields_kept(past2, self@.env)) by {
                        reveal(fields_kept);
                    }
                }
            },
        }
    }

    /// Keeps a generic method for instances.
    pub fn add_generic_method(&mut self, owner: &str, f: &Function)
        ensures
            final(self)@ == add_generic_method(old(self)@, owner@, f@),
            stays(old(self)@, final(self)@),
            settled(old(self)@, final(self)@),
            confined(old(self)@.out.cur, final(self)@.out.cur),
            same_variables(old(self)@, final(self)@),
    {
        proof {
            broadcast use crate::growth::group_growth;

            count_from(old(self)@);
            reveal(add_generic_method);
        }
        let subject = self.env.generic_methods.get_dup(owner);
        match &subject {
            Some(known) => {
                let mut more = dup_function_seq(known);
                let ghost prior = function_seq_view(more@);
                let item = f.clone();
                more.push(item);
                proof {
                    assert(function_seq_view(more@) =~= prior.push(item@));
                }
                let ghost past = self@.env;
                self.env.generic_methods.insert(owner.to_owned(), dup_function_seq(&more));
                proof {
                    assert(fields_kept(past, self@.env)) by {
                        reveal(fields_kept);
                    }
                }
            },
            None => {
                let mut items: Vec<Function> = Vec::new();
                let item2 = f.clone();
                items.push(item2);
                proof {
                    assert(function_seq_view(items@) =~= seq![item2@]);
                }
                let ghost past2 = self@.env;
                self.env.generic_methods.insert(owner.to_owned(), items);
                proof {
                    assert(fields_kept(past2, self@.env)) by {
                        reveal(fields_kept);
                    }
                }
            },
        }
    }

    /// Declares a method under its mangled name; a generic one is kept for its instances.
    pub fn declare_method(
        &mut self,
        owner: &str,
        self_ty: &Type,
        f: &Function,
        name: &str,
    ) -> (r: Result<(), CodegenError>)
        ensures
            (r.model(), final(self)@) == declare_method(old(self)@, owner@, self_ty@, f@, name@),
            stays(old(self)@, final(self)@),
            r is Ok ==> settled(old(self)@, final(self)@),
            r is Ok ==> confined(old(self)@.out.cur, final(self)@.out.cur),
            r is Ok ==> same_variables(old(self)@, final(self)@),
    {
        proof {
            broadcast use crate::growth::group_growth;

            count_from(old(self)@);
            reveal(declare_method);
        }
        if has_impl_trait_param(f) {
            self.add_generic_method(owner, f);
            return Ok(());
        }
        match self.declare_function(
            &resolve_self_type(
                &Function {
                    name: name.to_owned(),
                    params: dup_param_seq(&f.params),
                    return_type: f.return_type.dup(),
                    type_params: dup_generic_param_seq(&f.type_params),
                    body: f.body.clone(),
                    is_extern: f.is_extern,
                    is_intrinsic: f.is_intrinsic,
                    is_method: f.is_method,
                    is_pub: f.is_pub,
                    attribs: dup_attribute_seq(&f.attribs),
                    span: f.span,
                },
                self_ty,
            ),
        ) {
            Ok(_) => {},
            Err(e) => {
                return Err(e);
            },
        }
        self.add_method(owner, &f.name, name);
        Ok(())
    }

    /// Declares the methods of an `impl` block.
    pub fn declare_methods(
        &mut self,
        methods: &Vec<Function>,
        trait_name: &Option<String>,
        owner: &str,
    ) -> (r: Result<(), CodegenError>)
        ensures
            (r.model(), final(self)@) == declare_methods(
                old(self)@,
                function_seq_view(methods@),
                trait_name.model(),
                owner@,
            ),
            stays(old(self)@, final(self)@),
            r is Ok ==> settled(old(self)@, final(self)@),
            r is Ok ==> confined(old(self)@.out.cur, final(self)@.out.cur),
            r is Ok ==> same_variables(old(self)@, final(self)@),
    {
        proof {
            broadcast use crate::growth::group_growth;

            count_from(old(self)@);
            reveal(declare_methods);
            reveal(declare_methods_each);
        }
        let self_ty = owner_type(owner);
        let mut i: usize = 0;
        while i < methods.len()
            invariant
                i <= methods@.len(),
                declare_methods_each(
                    self@,
                    function_seq_view(methods@),
                    trait_name.model(),
                    owner@,
                    self_ty@,
                    i as nat,
                ) == declare_methods(
                    old(self)@,
                    function_seq_view(methods@),
                    trait_name.model(),
                    owner@,
                ),
                stays(old(self)@, self@),
                settled(old(self)@, self@),
                confined(old(self)@.out.cur, self@.out.cur),
                same_variables(old(self)@, self@),
            decreases methods@.len() - i,
        {
            proof {
                broadcast use crate::growth::group_growth;

                count_from(old(self)@);
                reveal(declare_methods);
                reveal(declare_methods_each);
            }
            let m = &methods[i];
            proof {
                assert(function_seq_view(methods@)[i as int] == function_view(methods@[i as int]));
            }
            proof {
                assert(param_seq_view(m.params@).len() == m.params@.len());
            }
            match self.declare_method(
                owner,
                &self_ty,
                m,
                &method_symbol(trait_name, owner, &m.name, m.params.len()),
            ) {
                Ok(_) => {},
                Err(e) => {
                    return Err(e);
                },
            }
            i += 1;
        }
        Ok(())
    }

    /// Declares the methods that a trait provides for a type.
    pub fn declare_defaults(
        &mut self,
        defs: &Vec<TraitMethodDef>,
        trait_name: &str,
        owner: &str,
    ) -> (r: Result<(), CodegenError>)
        ensures
            (r.model(), final(self)@) == declare_defaults(
                old(self)@,
                trait_method_def_seq_view(defs@),
                trait_name@,
                owner@,
            ),
            stays(old(self)@, final(self)@),
            r is Ok ==> settled(old(self)@, final(self)@),
            r is Ok ==> confined(old(self)@.out.cur, final(self)@.out.cur),
            r is Ok ==> same_variables(old(self)@, final(self)@),
    {
        proof {
            broadcast use crate::growth::group_growth;

            count_from(old(self)@);
            reveal(declare_defaults);
            reveal(declare_defaults_each);
        }
        let self_ty = owner_type(owner);
        let mut i: usize = 0;
        while i < defs.len()
            invariant
                i <= defs@.len(),
                declare_defaults_each(
                    self@,
                    trait_method_def_seq_view(defs@),
                    trait_name@,
                    owner@,
                    self_ty@,
                    i as nat,
                ) == declare_defaults(
                    old(self)@,
                    trait_method_def_seq_view(defs@),
                    trait_name@,
                    owner@,
                ),
                stays(old(self)@, self@),
                settled(old(self)@, self@),
                confined(old(self)@.out.cur, self@.out.cur),
                same_variables(old(self)@, self@),
            decreases defs@.len() - i,
        {
            proof {
                broadcast use crate::growth::group_growth;

                count_from(old(self)@);
                reveal(declare_defaults);
                reveal(declare_defaults_each);
            }
            let m = &defs[i];
            proof {
                assert(trait_method_def_seq_view(defs@)[i as int] == trait_method_def_view(defs@[i as int]));
            }
            let name = trait_fn(trait_name, &m.name, owner);
            let subject = default_function(m, &name);
            match &subject {
                Some(f) => {
                    if has_impl_trait_param(f) {
                        self.add_generic_method(owner, f);
                    } else {
                        match self.declare_function(&resolve_self_type(f, &self_ty)) {
                            Ok(_) => {},
                            Err(e) => {
                                return Err(e);
                            },
                        }
                        let ghost past = self@.env;
                        self.env.item_owners.insert(name.clone(), owner.to_owned());
                        proof {
                            assert(fields_kept(past, self@.env)) by {
                                reveal(fields_kept);
                            }
                        }
                        self.add_method(owner, &m.name, &name);
                    }
                },
                None => {},
            }
            i += 1;
        }
        Ok(())
    }

    /// Declares what an `impl` block holds; those of slices and arrays, and generic ones, are kept
    /// for their instances.
    pub fn declare_impl(
        &mut self,
        decl: &ImplDecl,
        traits: &Vec<TraitDecl>,
    ) -> (r: Result<(), CodegenError>)
        ensures
            (r.model(), final(self)@) == declare_impl(
                old(self)@,
                decl@,
                trait_decl_seq_view(traits@),
            ),
            stays(old(self)@, final(self)@),
            r is Ok ==> settled(old(self)@, final(self)@),
            r is Ok ==> confined(old(self)@.out.cur, final(self)@.out.cur),
            r is Ok ==> same_variables(old(self)@, final(self)@),
    {
        proof {
            broadcast use crate::growth::group_growth;

            count_from(old(self)@);
            reveal(declare_impl);
        }
        if matches!(&decl.impl_type, Type::Slice { .. } | Type::GenericArray { .. }) {
            let ghost prior = impl_decl_seq_view(self.env.slice_impls@);
            let item = decl.clone();
            let ghost past = self@.env;
            self.env.slice_impls.push(item);
            proof {
                assert(fields_kept(past, self@.env)) by {
                    reveal(fields_kept);
                }
            }
            proof {
                assert(impl_decl_seq_view(self.env.slice_impls@) =~= prior.push(item@));
            }
            return Ok(());
        }
        let owner = match impl_owner(&decl.impl_type) {
            Ok(v) => v,
            Err(e) => {
                return Err(e);
            },
        };
        self.define_consts(&decl.consts, &owner);
        match self.complete_impl(decl, traits, &owner) {
            Ok(_) => {},
            Err(e) => {
                return Err(e);
            },
        }
        proof {
            assert(generic_param_seq_view(decl.type_params@).len() == decl.type_params@.len());
        }
        if decl.type_params.len() > 0 {
            self.add_generic_impl(&owner, decl);
            return Ok(());
        }
        match self.declare_methods(&decl.methods, &decl.trait_name, &owner) {
            Ok(_) => {},
            Err(e) => {
                return Err(e);
            },
        }
        let subject = impl_traits(decl, traits);
        match &subject {
            Some((name, t)) => {
                return self.declare_defaults(
                    &generate_default_trait_methods(&t.methods, &decl.methods),
                    name,
                    &owner,
                );
            },
            None => {
                return Ok(());
            },
        }
    }

    /// Declares what the `impl` blocks hold.
    pub fn declare_impls(
        &mut self,
        impls: &Vec<ImplDecl>,
        traits: &Vec<TraitDecl>,
    ) -> (r: Result<(), CodegenError>)
        ensures
            (r.model(), final(self)@) == declare_impls(
                old(self)@,
                impl_decl_seq_view(impls@),
                trait_decl_seq_view(traits@),
            ),
            stays(old(self)@, final(self)@),
            r is Ok ==> settled(old(self)@, final(self)@),
            r is Ok ==> confined(old(self)@.out.cur, final(self)@.out.cur),
            r is Ok ==> same_variables(old(self)@, final(self)@),
    {
        proof {
            broadcast use crate::growth::group_growth;

            count_from(old(self)@);
            reveal(declare_impls);
            reveal(declare_impls_each);
        }
        let mut i: usize = 0;
        while i < impls.len()
            invariant
                i <= impls@.len(),
                declare_impls_each(
                    self@,
                    impl_decl_seq_view(impls@),
                    trait_decl_seq_view(traits@),
                    i as nat,
                ) == declare_impls(
                    old(self)@,
                    impl_decl_seq_view(impls@),
                    trait_decl_seq_view(traits@),
                ),
                stays(old(self)@, self@),
                settled(old(self)@, self@),
                confined(old(self)@.out.cur, self@.out.cur),
                same_variables(old(self)@, self@),
            decreases impls@.len() - i,
        {
            proof {
                broadcast use crate::growth::group_growth;

                count_from(old(self)@);
                reveal(declare_impls);
                reveal(declare_impls_each);
            }
            let d = &impls[i];
            proof {
                assert(impl_decl_seq_view(impls@)[i as int] == impl_decl_view(impls@[i as int]));
            }
            match self.declare_impl(d, traits) {
                Ok(_) => {},
                Err(e) => {
                    return Err(e);
                },
            }
            i += 1;
        }
        Ok(())
    }

    /// Declares functions; generic ones are kept for their instances.
    pub fn declare_functions(&mut self, funcs: &Vec<Function>) -> (r: Result<(), CodegenError>)
        ensures
            (r.model(), final(self)@) == declare_functions(old(self)@, function_seq_view(funcs@)),
            stays(old(self)@, final(self)@),
            r is Ok ==> settled(old(self)@, final(self)@),
            r is Ok ==> confined(old(self)@.out.cur, final(self)@.out.cur),
            r is Ok ==> same_variables(old(self)@, final(self)@),
    {
        proof {
            broadcast use crate::growth::group_growth;

            count_from(old(self)@);
            reveal(declare_functions);
            reveal(declare_functions_each);
        }
        let mut i: usize = 0;
        while i < funcs.len()
            invariant
                i <= funcs@.len(),
                declare_functions_each(
                    self@,
                    function_seq_view(funcs@),
                    i as nat,
                ) == declare_functions(old(self)@, function_seq_view(funcs@)),
                stays(old(self)@, self@),
                settled(old(self)@, self@),
                confined(old(self)@.out.cur, self@.out.cur),
                same_variables(old(self)@, self@),
            decreases funcs@.len() - i,
        {
            proof {
                broadcast use crate::growth::group_growth;

                count_from(old(self)@);
                reveal(declare_functions);
                reveal(declare_functions_each);
            }
            let f = &funcs[i];
            proof {
                assert(function_seq_view(funcs@)[i as int] == function_view(funcs@[i as int]));
            }
            if has_impl_trait_param(f) {
                let ghost past2 = self@.env;
                self.env.generic_funcs.insert(f.name.clone(), f.clone());
                proof {
                    assert(fields_kept(past2, self@.env)) by {
                        reveal(fields_kept);
                    }
                }
            } else if f.is_intrinsic {
                let ghost past = self@.env;
                self.env.intrinsic_funcs.insert(f.name.clone());
                proof {
                    assert(fields_kept(past, self@.env)) by {
                        reveal(fields_kept);
                    }
                }
            } else {
                match self.declare_function(f) {
                    Ok(_) => {},
                    Err(e) => {
                        return Err(e);
                    },
                }
            }
            i += 1;
        }
        Ok(())
    }

    /// Makes the instances of generic types that a program uses.
    pub fn make_instances(
        &mut self,
        fuel: usize,
        found: &Vec<(String, Vec<Type>)>,
    ) -> (r: Result<(), CodegenError>)
        ensures
            (r.model(), final(self)@) == make_instances(old(self)@, fuel as nat, found.model()),
            stays(old(self)@, final(self)@),
            r is Ok ==> settled(old(self)@, final(self)@),
            r is Ok ==> confined(old(self)@.out.cur, final(self)@.out.cur),
            r is Ok ==> same_variables(old(self)@, final(self)@),
    {
        proof {
            broadcast use crate::growth::group_growth;

            count_from(old(self)@);
            reveal(make_instances);
            reveal(make_instances_each);
        }
        let mut i: usize = 0;
        while i < found.len()
            invariant
                i <= found@.len(),
                make_instances_each(
                    self@,
                    fuel as nat,
                    found.model(),
                    i as nat,
                ) == make_instances(old(self)@, fuel as nat, found.model()),
                stays(old(self)@, self@),
                settled(old(self)@, self@),
                confined(old(self)@.out.cur, self@.out.cur),
                same_variables(old(self)@, self@),
            decreases found@.len() - i,
        {
            proof {
                broadcast use crate::growth::group_growth;

                count_from(old(self)@);
                reveal(make_instances);
                reveal(make_instances_each);
            }
            let x = &found[i];
            if self.env.is_generic_base(&x.0) {
                match self.ensure_monomorphized(fuel, &x.0, &x.1) {
                    Ok(_) => {},
                    Err(e) => {
                        return Err(e);
                    },
                }
            }
            i += 1;
        }
        Ok(())
    }

    /// Gives the structs that are not generic their machine types.
    pub fn lay_out_structs(&mut self, decls: &Vec<StructDecl>) -> (r: Result<(), CodegenError>)
        ensures
            (r.model(), final(self)@) == lay_out_structs(old(self)@, struct_decl_seq_view(decls@)),
            stays(old(self)@, final(self)@),
            r is Ok ==> settled(old(self)@, final(self)@),
            r is Ok ==> confined(old(self)@.out.cur, final(self)@.out.cur),
            r is Ok ==> same_variables(old(self)@, final(self)@),
    {
        proof {
            broadcast use crate::growth::group_growth;

            count_from(old(self)@);
            reveal(lay_out_structs);
            reveal(lay_out_structs_each);
        }
        let mut i: usize = 0;
        while i < decls.len()
            invariant
                i <= decls@.len(),
                lay_out_structs_each(
                    self@,
                    struct_decl_seq_view(decls@),
                    i as nat,
                ) == lay_out_structs(old(self)@, struct_decl_seq_view(decls@)),
                stays(old(self)@, self@),
                settled(old(self)@, self@),
                confined(old(self)@.out.cur, self@.out.cur),
                same_variables(old(self)@, self@),
            decreases decls@.len() - i,
        {
            proof {
                broadcast use crate::growth::group_growth;

                count_from(old(self)@);
                reveal(lay_out_structs);
                reveal(lay_out_structs_each);
            }
            let d = &decls[i];
            proof {
                assert(struct_decl_seq_view(decls@)[i as int] == struct_decl_view(decls@[i as int]));
            }
            proof {
                assert(generic_param_seq_view(d.type_params@).len() == d.type_params@.len());
            }
            if (d.type_params.len() == 0) && self.env.struct_types.contains(&d.name) {
                let tys = match self.env.field_machine_types(&d.fields) {
                    Ok(v) => v,
                    Err(e) => {
                        return Err(e);
                    },
                };
                let ghost past = self@.out;
                self.out.struct_bodies.insert(d.name.clone(), dup_l_ty_seq(&tys));
                proof {
                    assert(grown(past, self@.out)) by {
                        reveal(grown);
                    }
                    lemma_returned_more(past, self@.out);
                }
            }
            i += 1;
        }
        Ok(())
    }

    /// Gives the enums that are not generic their machine types.
    pub fn lay_out_enums(&mut self, decls: &Vec<EnumDecl>) -> (r: Result<(), CodegenError>)
        ensures
            (r.model(), final(self)@) == lay_out_enums(old(self)@, enum_decl_seq_view(decls@)),
            stays(old(self)@, final(self)@),
            r is Ok ==> settled(old(self)@, final(self)@),
            r is Ok ==> confined(old(self)@.out.cur, final(self)@.out.cur),
            r is Ok ==> same_variables(old(self)@, final(self)@),
    {
        proof {
            broadcast use crate::growth::group_growth;

            count_from(old(self)@);
            reveal(lay_out_enums);
            reveal(lay_out_enums_each);
        }
        let mut i: usize = 0;
        while i < decls.len()
            invariant
                i <= decls@.len(),
                lay_out_enums_each(
                    self@,
                    enum_decl_seq_view(decls@),
                    i as nat,
                ) == lay_out_enums(old(self)@, enum_decl_seq_view(decls@)),
                stays(old(self)@, self@),
                settled(old(self)@, self@),
                confined(old(self)@.out.cur, self@.out.cur),
                same_variables(old(self)@, self@),
            decreases decls@.len() - i,
        {
            proof {
                broadcast use crate::growth::group_growth;

                count_from(old(self)@);
                reveal(lay_out_enums);
                reveal(lay_out_enums_each);
            }
            let d = &decls[i];
            proof {
                assert(enum_decl_seq_view(decls@)[i as int] == enum_decl_view(decls@[i as int]));
            }
            proof {
                assert(generic_param_seq_view(d.type_params@).len() == d.type_params@.len());
            }
            if (d.type_params.len() == 0) && self.env.struct_types.contains(&d.name) {
                let subject = self.env.struct_fields.get_dup(&d.name);
                match &subject {
                    Some(fields) => {
                        let tys = match self.env.field_machine_types(fields) {
                            Ok(v) => v,
                            Err(e) => {
                                return Err(e);
                            },
                        };
                        let ghost past = self@.out;
                        self.out.struct_bodies.insert(d.name.clone(), dup_l_ty_seq(&tys));
                        proof {
                            assert(grown(past, self@.out)) by {
                                reveal(grown);
                            }
                            lemma_returned_more(past, self@.out);
                        }
                    },
                    None => {
                        return Err(
                            CodegenError::new("internal: an enum without fields".to_owned()),
                        );
                    },
                }
            }
            i += 1;
        }
        Ok(())
    }

    /// Derives the traits of structs that are not generic.
    pub fn derive_structs(&mut self, decls: &Vec<StructDecl>) -> (r: Result<(), CodegenError>)
        ensures
            (r.model(), final(self)@) == derive_structs(old(self)@, struct_decl_seq_view(decls@)),
            keeps(old(self)@, final(self)@),
            r is Ok ==> same_variables(old(self)@, final(self)@),
    {
        proof {
            broadcast use crate::growth::group_growth;

            count_from(old(self)@);
            reveal(derive_structs);
            reveal(derive_structs_each);
        }
        let mut i: usize = 0;
        while i < decls.len()
            invariant
                i <= decls@.len(),
                derive_structs_each(
                    self@,
                    struct_decl_seq_view(decls@),
                    i as nat,
                ) == derive_structs(old(self)@, struct_decl_seq_view(decls@)),
                keeps(old(self)@, self@),
                same_variables(old(self)@, self@),
            decreases decls@.len() - i,
        {
            proof {
                broadcast use crate::growth::group_growth;

                count_from(old(self)@);
                reveal(derive_structs);
                reveal(derive_structs_each);
            }
            let d = &decls[i];
            proof {
                assert(struct_decl_seq_view(decls@)[i as int] == struct_decl_view(decls@[i as int]));
            }
            proof {
                assert(generic_param_seq_view(d.type_params@).len() == d.type_params@.len());
            }
            if d.type_params.len() == 0 {
                match self.process_struct_derives(d) {
                    Ok(_) => {},
                    Err(e) => {
                        return Err(e);
                    },
                }
            }
            i += 1;
        }
        Ok(())
    }

    /// Derives the traits of enums that are not generic.
    pub fn derive_enums(&mut self, decls: &Vec<EnumDecl>) -> (r: Result<(), CodegenError>)
        ensures
            (r.model(), final(self)@) == derive_enums(old(self)@, enum_decl_seq_view(decls@)),
            keeps(old(self)@, final(self)@),
            r is Ok ==> same_variables(old(self)@, final(self)@),
    {
        proof {
            broadcast use crate::growth::group_growth;

            count_from(old(self)@);
            reveal(derive_enums);
            reveal(derive_enums_each);
        }
        let mut i: usize = 0;
        while i < decls.len()
            invariant
                i <= decls@.len(),
                derive_enums_each(
                    self@,
                    enum_decl_seq_view(decls@),
                    i as nat,
                ) == derive_enums(old(self)@, enum_decl_seq_view(decls@)),
                keeps(old(self)@, self@),
                same_variables(old(self)@, self@),
            decreases decls@.len() - i,
        {
            proof {
                broadcast use crate::growth::group_growth;

                count_from(old(self)@);
                reveal(derive_enums);
                reveal(derive_enums_each);
            }
            let d = &decls[i];
            proof {
                assert(enum_decl_seq_view(decls@)[i as int] == enum_decl_view(decls@[i as int]));
            }
            proof {
                assert(generic_param_seq_view(d.type_params@).len() == d.type_params@.len());
            }
            if d.type_params.len() == 0 {
                match self.process_struct_derives(&self.env.enum_as_struct(d)) {
                    Ok(_) => {},
                    Err(e) => {
                        return Err(e);
                    },
                }
            }
            i += 1;
        }
        Ok(())
    }

    /// Compiles the functions that have a body and are not generic.
    pub fn compile_functions(
        &mut self,
        fuel: usize,
        funcs: &Vec<Function>,
    ) -> (r: Result<(), CodegenError>)
        ensures
            (r.model(), final(self)@) == compile_functions(
                old(self)@,
                fuel as nat,
                function_seq_view(funcs@),
            ),
            stays(old(self)@, final(self)@),
            r is Ok ==> settled(old(self)@, final(self)@),
            r is Ok ==> confined(old(self)@.out.cur, final(self)@.out.cur),
            r is Ok ==> same_variables(old(self)@, final(self)@),
            r is Ok ==> all_compiled(final(self)@, function_seq_view(funcs@), funcs@.len() as int),
    {
        proof {
            broadcast use crate::growth::group_growth;

            count_from(old(self)@);
            reveal(compile_functions);
            reveal(compile_functions_each);
        }
        let mut i: usize = 0;
        while i < funcs.len()
            invariant
                i <= funcs@.len(),
                compile_functions_each(
                    self@,
                    fuel as nat,
                    function_seq_view(funcs@),
                    i as nat,
                ) == compile_functions(old(self)@, fuel as nat, function_seq_view(funcs@)),
                stays(old(self)@, self@),
                settled(old(self)@, self@),
                confined(old(self)@.out.cur, self@.out.cur),
                same_variables(old(self)@, self@),
                all_compiled(self@, function_seq_view(funcs@), i as int),
            decreases funcs@.len() - i,
        {
            proof {
                broadcast use crate::growth::group_growth;

                count_from(old(self)@);
                reveal(compile_functions);
                reveal(compile_functions_each);
            }
            let f = &funcs[i];
            proof {
                assert(function_seq_view(funcs@)[i as int] == function_view(funcs@[i as int]));
            }
            let ghost earlier = self@;
            if !f.is_intrinsic && !has_impl_trait_param(f) && !f.is_extern {
                match self.compile_function_body(fuel, f) {
                    Ok(_) => {},
                    Err(e) => {
                        return Err(e);
                    },
                }
            }
            proof { lemma_all_compiled(earlier, self@, function_seq_view(funcs@), i as int); }
            i += 1;
        }
        Ok(())
    }

    /// Compiles the methods of an `impl` block that are not generic.
    pub fn compile_methods(
        &mut self,
        fuel: usize,
        methods: &Vec<Function>,
        trait_name: &Option<String>,
        owner: &str,
    ) -> (r: Result<(), CodegenError>)
        ensures
            (r.model(), final(self)@) == compile_methods(
                old(self)@,
                fuel as nat,
                function_seq_view(methods@),
                trait_name.model(),
                owner@,
            ),
            stays(old(self)@, final(self)@),
            r is Ok ==> settled(old(self)@, final(self)@),
            r is Ok ==> confined(old(self)@.out.cur, final(self)@.out.cur),
            r is Ok ==> same_variables(old(self)@, final(self)@),
            r is Ok ==> methods_compiled(
                final(self)@,
                function_seq_view(methods@),
                trait_name.model(),
                owner@,
                methods@.len() as int,
            ),
    {
        proof {
            broadcast use crate::growth::group_growth;

            count_from(old(self)@);
            reveal(resolve_self_fn);
            reveal(compile_methods);
            reveal(compile_methods_each);
        }
        let self_ty = owner_type(owner);
        let mut i: usize = 0;
        while i < methods.len()
            invariant
                i <= methods@.len(),
                compile_methods_each(
                    self@,
                    fuel as nat,
                    function_seq_view(methods@),
                    trait_name.model(),
                    owner@,
                    self_ty@,
                    i as nat,
                ) == compile_methods(
                    old(self)@,
                    fuel as nat,
                    function_seq_view(methods@),
                    trait_name.model(),
                    owner@,
                ),
                stays(old(self)@, self@),
                settled(old(self)@, self@),
                confined(old(self)@.out.cur, self@.out.cur),
                same_variables(old(self)@, self@),
                methods_compiled(
                    self@,
                    function_seq_view(methods@),
                    trait_name.model(),
                    owner@,
                    i as int,
                ),
            decreases methods@.len() - i,
        {
            proof {
                broadcast use crate::growth::group_growth;

                count_from(old(self)@);
                reveal(resolve_self_fn);
                reveal(compile_methods);
                reveal(compile_methods_each);
            }
            let m = &methods[i];
            proof {
                assert(function_seq_view(methods@)[i as int] == function_view(methods@[i as int]));
            }
            let ghost earlier = self@;
            if !has_impl_trait_param(m) {
                proof {
                    assert(param_seq_view(m.params@).len() == m.params@.len());
                }
                let f = resolve_self_type(
                    &Function {
                        name: method_symbol(trait_name, owner, &m.name, m.params.len()),
                        params: dup_param_seq(&m.params),
                        return_type: m.return_type.dup(),
                        type_params: dup_generic_param_seq(&m.type_params),
                        body: m.body.clone(),
                        is_extern: m.is_extern,
                        is_intrinsic: m.is_intrinsic,
                        is_method: m.is_method,
                        is_pub: m.is_pub,
                        attribs: dup_attribute_seq(&m.attribs),
                        span: m.span,
                    },
                    &self_ty,
                );
                match self.compile_function_body(fuel, &f) {
                    Ok(_) => {},
                    Err(e) => {
                        return Err(e);
                    },
                }
            }
            proof {
                lemma_methods_compiled(
                    earlier,
                    self@,
                    function_seq_view(methods@),
                    trait_name.model(),
                    owner@,
                    i as int,
                );
            }
            i += 1;
        }
        Ok(())
    }

    /// Compiles the methods that a trait provides for a type.
    pub fn compile_defaults(
        &mut self,
        fuel: usize,
        defs: &Vec<TraitMethodDef>,
        trait_name: &str,
        owner: &str,
    ) -> (r: Result<(), CodegenError>)
        ensures
            (r.model(), final(self)@) == compile_defaults(
                old(self)@,
                fuel as nat,
                trait_method_def_seq_view(defs@),
                trait_name@,
                owner@,
            ),
            stays(old(self)@, final(self)@),
            r is Ok ==> settled(old(self)@, final(self)@),
            r is Ok ==> confined(old(self)@.out.cur, final(self)@.out.cur),
            r is Ok ==> same_variables(old(self)@, final(self)@),
            r is Ok ==> defaults_compiled(
                final(self)@,
                trait_method_def_seq_view(defs@),
                trait_name@,
                owner@,
                defs@.len() as int,
            ),
    {
        proof {
            broadcast use crate::growth::group_growth;

            count_from(old(self)@);
            reveal(resolve_self_fn);
            reveal(compile_defaults);
            reveal(compile_defaults_each);
        }
        let self_ty = owner_type(owner);
        let mut i: usize = 0;
        while i < defs.len()
            invariant
                i <= defs@.len(),
                compile_defaults_each(
                    self@,
                    fuel as nat,
                    trait_method_def_seq_view(defs@),
                    trait_name@,
                    owner@,
                    self_ty@,
                    i as nat,
                ) == compile_defaults(
                    old(self)@,
                    fuel as nat,
                    trait_method_def_seq_view(defs@),
                    trait_name@,
                    owner@,
                ),
                stays(old(self)@, self@),
                settled(old(self)@, self@),
                confined(old(self)@.out.cur, self@.out.cur),
                same_variables(old(self)@, self@),
                defaults_compiled(
                    self@,
                    trait_method_def_seq_view(defs@),
                    trait_name@,
                    owner@,
                    i as int,
                ),
            decreases defs@.len() - i,
        {
            proof {
                broadcast use crate::growth::group_growth;

                count_from(old(self)@);
                reveal(resolve_self_fn);
                reveal(compile_defaults);
                reveal(compile_defaults_each);
            }
            let m = &defs[i];
            proof {
                assert(trait_method_def_seq_view(defs@)[i as int] == trait_method_def_view(defs@[i as int]));
            }
            let ghost earlier = self@;
            let subject = default_function(m, &trait_fn(trait_name, &m.name, owner));
            match &subject {
                Some(f) => {
                    if !has_impl_trait_param(f) {
                        match self.compile_function_body(fuel, &resolve_self_type(f, &self_ty)) {
                            Ok(_) => {},
                            Err(e) => {
                                return Err(e);
                            },
                        }
                    }
                },
                None => {},
            }
            proof {
                lemma_defaults_compiled(
                    earlier,
                    self@,
                    trait_method_def_seq_view(defs@),
                    trait_name@,
                    owner@,
                    i as int,
                );
            }
            i += 1;
        }
        Ok(())
    }

    /// Compiles the methods of an `impl` block that is not generic.
    pub fn compile_impl(
        &mut self,
        fuel: usize,
        decl: &ImplDecl,
        traits: &Vec<TraitDecl>,
    ) -> (r: Result<(), CodegenError>)
        ensures
            (r.model(), final(self)@) == compile_impl(
                old(self)@,
                fuel as nat,
                decl@,
                trait_decl_seq_view(traits@),
            ),
            stays(old(self)@, final(self)@),
            r is Ok ==> settled(old(self)@, final(self)@),
            r is Ok ==> confined(old(self)@.out.cur, final(self)@.out.cur),
            r is Ok ==> same_variables(old(self)@, final(self)@),
            r is Ok ==> impl_compiled(final(self)@, decl@, trait_decl_seq_view(traits@)),
    {
        proof {
            broadcast use crate::growth::group_growth;

            count_from(old(self)@);
            reveal(compile_impl);
        }
        proof {
            assert(generic_param_seq_view(decl.type_params@).len() == decl.type_params@.len());
        }
        if decl.type_params.len() > 0 {
            return Ok(());
        }
        let subject = compiled_owner(&decl.impl_type);
        match &subject {
            Some(owner) => {
                match self.compile_methods(fuel, &decl.methods, &decl.trait_name, owner) {
                    Ok(_) => {},
                    Err(e) => {
                        return Err(e);
                    },
                }
                let ghost earlier = self@;
                let subject2 = impl_traits(decl, traits);
                match &subject2 {
                    Some((name, t)) => {
                        match self.compile_defaults(
                            fuel,
                            &generate_default_trait_methods(&t.methods, &decl.methods),
                            name,
                            owner,
                        ) {
                            Ok(_) => {},
                            Err(e) => {
                                return Err(e);
                            },
                        }
                        proof {
                            lemma_methods_compiled(
                                earlier,
                                self@,
                                decl@.methods,
                                decl@.trait_name,
                                owner@,
                                decl@.methods.len() as int,
                            );
                        }
                        return Ok(());
                    },
                    None => {
                        return Ok(());
                    },
                }
            },
            None => {
                return Ok(());
            },
        }
    }

    /// Compiles the methods of the `impl` blocks.
    pub fn compile_impls(
        &mut self,
        fuel: usize,
        impls: &Vec<ImplDecl>,
        traits: &Vec<TraitDecl>,
    ) -> (r: Result<(), CodegenError>)
        ensures
            (r.model(), final(self)@) == compile_impls(
                old(self)@,
                fuel as nat,
                impl_decl_seq_view(impls@),
                trait_decl_seq_view(traits@),
            ),
            stays(old(self)@, final(self)@),
            r is Ok ==> settled(old(self)@, final(self)@),
            r is Ok ==> confined(old(self)@.out.cur, final(self)@.out.cur),
            r is Ok ==> same_variables(old(self)@, final(self)@),
            r is Ok ==> impls_compiled(
                final(self)@,
                impl_decl_seq_view(impls@),
                trait_decl_seq_view(traits@),
                impls@.len() as int,
            ),
    {
        proof {
            broadcast use crate::growth::group_growth;

            count_from(old(self)@);
            reveal(compile_impls);
            reveal(compile_impls_each);
        }
        let mut i: usize = 0;
        while i < impls.len()
            invariant
                i <= impls@.len(),
                compile_impls_each(
                    self@,
                    fuel as nat,
                    impl_decl_seq_view(impls@),
                    trait_decl_seq_view(traits@),
                    i as nat,
                ) == compile_impls(
                    old(self)@,
                    fuel as nat,
                    impl_decl_seq_view(impls@),
                    trait_decl_seq_view(traits@),
                ),
                stays(old(self)@, self@),
                settled(old(self)@, self@),
                confined(old(self)@.out.cur, self@.out.cur),
                same_variables(old(self)@, self@),
                impls_compiled(
                    self@,
                    impl_decl_seq_view(impls@),
                    trait_decl_seq_view(traits@),
                    i as int,
                ),
            decreases impls@.len() - i,
        {
            proof {
                broadcast use crate::growth::group_growth;

                count_from(old(self)@);
                reveal(compile_impls);
                reveal(compile_impls_each);
            }
            let d = &impls[i];
            proof {
                assert(impl_decl_seq_view(impls@)[i as int] == impl_decl_view(impls@[i as int]));
            }
            let ghost earlier = self@;
            match self.compile_impl(fuel, d, traits) {
                Ok(_) => {},
                Err(e) => {
                    return Err(e);
                },
            }
            proof {
                lemma_impls_compiled(
                    earlier,
                    self@,
                    impl_decl_seq_view(impls@),
                    trait_decl_seq_view(traits@),
                    i as int,
                );
            }
            i += 1;
        }
        Ok(())
    }

    /// Notes what is visible of a program.
    pub fn show_program(&mut self, p: &Program) -> (r: Result<(), CodegenError>)
        ensures
            (r.model(), final(self)@) == show_program(old(self)@, p@),
            stays(old(self)@, final(self)@),
            r is Ok ==> settled(old(self)@, final(self)@),
            r is Ok ==> confined(old(self)@.out.cur, final(self)@.out.cur),
            r is Ok ==> same_variables(old(self)@, final(self)@),
    {
        proof {
            broadcast use crate::growth::group_growth;

            count_from(old(self)@);
            reveal(show_program);
        }
        match check_struct_attributes(&p.structs) {
            Ok(_) => {},
            Err(e) => {
                return Err(e);
            },
        }
        match check_enum_attributes(&p.enums) {
            Ok(_) => {},
            Err(e) => {
                return Err(e);
            },
        }
        self.show_functions(&p.funcs);
        self.show_structs(&p.structs);
        self.show_enums(&p.enums);
        self.show_traits(&p.traits);
        self.show_aliases(&p.type_aliases);
        self.show_impls(&p.impls)
    }

    /// Declares the types and functions of a program, and makes the instances that it uses.
    pub fn declare_program(&mut self, fuel: usize, p: &Program) -> (r: Result<(), CodegenError>)
        ensures
            (r.model(), final(self)@) == declare_program(old(self)@, fuel as nat, p@),
            keeps(old(self)@, final(self)@),
            r is Ok ==> same_variables(old(self)@, final(self)@),
    {
        proof {
            broadcast use crate::growth::group_growth;

            count_from(old(self)@);
            reveal(declare_program);
        }
        self.declare_structs(&p.structs);
        self.declare_enums(&p.enums);
        match self.generate_primitive_trait_impls() {
            Ok(_) => {},
            Err(e) => {
                return Err(e);
            },
        }
        match self.declare_impls(&p.impls, &p.traits) {
            Ok(_) => {},
            Err(e) => {
                return Err(e);
            },
        }
        match self.declare_functions(&p.funcs) {
            Ok(_) => {},
            Err(e) => {
                return Err(e);
            },
        }
        match self.make_instances(fuel, &collect_generic_instances(p)) {
            Ok(_) => {},
            Err(e) => {
                return Err(e);
            },
        }
        match self.lay_out_structs(&p.structs) {
            Ok(_) => {},
            Err(e) => {
                return Err(e);
            },
        }
        match self.lay_out_enums(&p.enums) {
            Ok(_) => {},
            Err(e) => {
                return Err(e);
            },
        }
        match self.derive_structs(&p.structs) {
            Ok(_) => {},
            Err(e) => {
                return Err(e);
            },
        }
        self.derive_enums(&p.enums)
    }

    /// Compiles a program: what it declares, then the bodies of its functions and methods.
    pub fn compile_program(&mut self, fuel: usize, p: &Program) -> (r: Result<(), CodegenError>)
        ensures
            (r.model(), final(self)@) == compile_program(old(self)@, fuel as nat, p@),
            keeps(old(self)@, final(self)@),
            r is Ok ==> same_variables(old(self)@, final(self)@),
            r is Ok ==> all_compiled(final(self)@, p@.funcs, p@.funcs.len() as int),
            r is Ok ==> impls_compiled(final(self)@, p@.impls, p@.traits, p@.impls.len() as int),
    {
        proof {
            broadcast use crate::growth::group_growth;

            count_from(old(self)@);
            reveal(compile_program);
        }
        match self.show_program(p) {
            Ok(_) => {},
            Err(e) => {
                return Err(e);
            },
        }
        match self.declare_program(fuel, p) {
            Ok(_) => {},
            Err(e) => {
                return Err(e);
            },
        }
        self.find_drops();
        match self.env.check_copy_drops() {
            Ok(_) => {},
            Err(e) => {
                return Err(e);
            },
        }
        match self.compile_functions(fuel, &p.funcs) {
            Ok(_) => {},
            Err(e) => {
                return Err(e);
            },
        }
        let ghost earlier = self@;
        match self.compile_impls(fuel, &p.impls, &p.traits) {
            Ok(_) => {},
            Err(e) => {
                return Err(e);
            },
        }
        proof { lemma_all_compiled(earlier, self@, p@.funcs, p@.funcs.len() as int); }
        Ok(())
    }
}

} // verus!
