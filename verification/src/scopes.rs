//! Scopes, what is dropped at their end, and declarations of functions.
use crate::ast::{Attribute, Block, Expr, Function, Param, StructField, Type};
use crate::builder::{call, cast, field_ptr, load, spill, terminated};
use crate::collect::{param_types, types_of_params};
use crate::growth::{
    closed_block, confined, count_from, fields_kept, grown, inner_left, left_scope,
    lemma_listed_push, lemma_returned_more, outer_kept, same_variables, settled, stays, well_listed,
    within,
};
use crate::infer::ty_of;
use crate::ir::{
    CastKind, FnSig, FnSigView, Inlining, LTy, LTyView, Val, ValView, dup_l_ty_seq, dup_val_seq,
    l_ty_seq_view, l_ty_view, same_lty, val_seq_view, val_view,
};
use crate::lists::{
    drop_end, first_index, last_element, last_of, lemma_first_index, lemma_no_index, shorter,
};
use crate::model::{
    AttributeView, BlockView, ExprView, FunctionView, ParamView, StructFieldView, TypeView,
    attribute_seq_view, attribute_view, expr_seq_view, expr_view, param_seq_view, param_view,
    struct_field_seq_view, struct_field_view,
};
use crate::names::{has_type_key, mangle_generic_instance, mangled, type_key, type_to_mangled_name};
use crate::operators::{operator_fn, ret};
use crate::query::{copies, implements, lower_type, needs_drop};
use crate::state::{
    CodeGen, CodegenError, Env, EnvView, ErrorView, FunView, OutView, State, err, err_at,
};
use crate::table::{Model, at};
use crate::text::{before, cat3, same, texts};
use crate::token::Span;
use vstd::prelude::*;

verus! {

broadcast use crate::lists::group_list_views;

/// A type without the references around it.
#[verifier::opaque]
pub open spec fn behind_refs_spec(ty: TypeView) -> TypeView
    decreases ty,
{
    match ty {
        TypeView::Ref { inner, .. } => behind_refs_spec(*inner),
        _ => ty,
    }
}

/// Lets the base name of an expected instance stand for that instance, and tells what it stood for.
#[verifier::opaque]
pub open spec fn expect_type(s: State, ty: TypeView) -> (
    Option<(Seq<char>, Option<Seq<char>>)>,
    State,
) {
    match behind_refs_spec(ty) {
        TypeView::GenericInstance(name, args) => {
            let before = at(s.fun.mono_names, name);
            let s = State {
                fun: FunView {
                    mono_names: s.fun.mono_names.insert(name, mangled(name, args)),
                    ..s.fun
                },
                ..s
            };
            (Some((name, before)), s)
        },
        _ => (None, s),
    }
}

/// Lets a base name stand for what it stood for before.
#[verifier::opaque]
pub open spec fn unexpect(s: State, saved: Option<(Seq<char>, Option<Seq<char>>)>) -> State {
    match saved {
        Some((name, before)) => {
            match before {
                Some(old_name) => {
                    State {
                        fun: FunView {
                            mono_names: s.fun.mono_names.insert(name, old_name),
                            ..s.fun
                        },
                        ..s
                    }
                },
                None => {
                    State {
                        fun: FunView { mono_names: s.fun.mono_names.remove(name), ..s.fun },
                        ..s
                    }
                },
            }
        },
        None => s,
    }
}

/// The name of the struct that a type is.
#[verifier::opaque]
pub open spec fn struct_name_of_spec(ty: TypeView) -> Option<Seq<char>> {
    match ty {
        TypeView::Struct(name) => Some(name),
        TypeView::GenericInstance(name, args) => Some(mangled(name, args)),
        _ => None,
    }
}

/// An argument as the parameter of a function takes it: an integer of another width is brought to
/// that of the parameter, what a pointer points to is read where a value is wanted, and a value is
/// put in memory where a pointer is wanted.
#[verifier::opaque]
pub open spec fn fit_arg(s: State, v: ValView, t: LTyView) -> (Result<ValView, ErrorView>, State) {
    if v.ty == t {
        (Ok(v), s)
    } else if t is Ptr {
        let (got, s) = spill(s, v.ty, v);
        (Ok(got), s)
    } else if v.ty is Ptr {
        let (got2, s) = load(s, t, v);
        (Ok(got2), s)
    } else {
        match t {
            LTyView::Int(to) => {
                match v.ty {
                    LTyView::Int(from_) => {
                        if from_ < to {
                            let (got3, s) = cast(s, CastKind::ZeroExt, v, t);
                            (Ok(got3), s)
                        } else {
                            let (got4, s) = cast(s, CastKind::Trunc, v, t);
                            (Ok(got4), s)
                        }
                    },
                    _ => (
                        Err(err("internal: an argument is of another type than its parameter"@)),
                        s,
                    ),
                }
            },
            _ => (Err(err("internal: an argument is of another type than its parameter"@)), s),
        }
    }
}

/// The arguments of a call, one for each parameter; those that are too many are left out, unless
/// the function takes more.
#[verifier::opaque]
pub open spec fn fit_args(
    s: State,
    tys: Seq<LTyView>,
    variadic: bool,
    args: Seq<ValView>,
) -> (Result<Seq<ValView>, ErrorView>, State) {
    let out = Seq::<ValView>::empty();
    fit_args_each(s, tys, variadic, args, out, 0)
}

/// [`fit_args`] from element `i` on.
#[verifier::opaque]
pub open spec fn fit_args_each(
    s: State,
    tys: Seq<LTyView>,
    variadic: bool,
    args: Seq<ValView>,
    out: Seq<ValView>,
    i: nat,
) -> (Result<Seq<ValView>, ErrorView>, State)
    decreases args.len() - i,
{
    if i < args.len() {
        let v = args[i as int];
        if (i as usize) < (tys.len() as usize) {
            match fit_arg(s, v, tys[i as int]) {
                (Ok(x), s) => {
                    let out = out.push(x);
                    fit_args_each(s, tys, variadic, args, out, i + 1)
                },
                (Err(e), s) => (Err(e), s),
            }
        } else {
            let out = if variadic {
                out.push(v)
            } else {
                out
            };
            fit_args_each(s, tys, variadic, args, out, i + 1)
        }
    } else {
        if (out.len() as usize) < (tys.len() as usize) {
            (Err(err("internal: a call with too few arguments"@)), s)
        } else {
            (Ok(out), s)
        }
    }
}

/// Calls a declared function, with the arguments as its parameters take them.
#[verifier::opaque]
pub open spec fn call_fitted(
    s: State,
    f: Seq<char>,
    args: Seq<ValView>,
) -> (Result<ValView, ErrorView>, State) {
    match at(s.out.decls, f) {
        Some(sig) => {
            match fit_args(s, sig.params, sig.variadic, args) {
                (Ok(vals), s) => {
                    let (got3, s) = call(s, f, vals);
                    (Ok(got3), s)
                },
                (Err(e), s) => (Err(e), s),
            }
        },
        None => (Err(err("internal: function '"@ + f + "' is called and not declared"@)), s),
    }
}

/// Calls the drop function of a type that implements `Drop`, where it is declared.
#[verifier::opaque]
pub open spec fn call_drop(s: State, ty: TypeView, ptr: ValView) -> (Result<(), ErrorView>, State) {
    if implements(s.env, ty, "Drop"@) {
        match type_key(ty) {
            Some(key) => {
                match operator_fn(s, "Drop"@, "drop"@, key) {
                    Some(f) => {
                        match call_fitted(s, f, seq![ptr]) {
                            (Ok(r), s) => (Ok(()), s),
                            (Err(e), s) => (Err(e), s),
                        }
                    },
                    None => (Ok(()), s),
                }
            },
            None => (Err(err("internal: a type without a name implements Drop"@)), s),
        }
    } else {
        (Ok(()), s)
    }
}

/// Drops what `ptr` points to: its own drop function first, then its fields in the order of their
/// declaration.
#[verifier::opaque]
pub open spec fn drop_variable(
    s: State,
    fuel: nat,
    ty: TypeView,
    ptr: ValView,
) -> (Result<(), ErrorView>, State)
    decreases fuel, ty, 2int, 0int,
{
    match call_drop(s, ty, ptr) {
        (Ok(_), s) => {
            match struct_name_of_spec(ty) {
                Some(name) => {
                    if s.env.struct_types.contains(name) {
                        match at(s.env.struct_fields, name) {
                            Some(fields) => {
                                if fuel == 0 {
                                    (Err(err("internal: types are nested too deeply"@)), s)
                                } else {
                                    drop_fields(s, (fuel - 1) as nat, name, fields, ptr)
                                }
                            },
                            None => (Ok(()), s),
                        }
                    } else {
                        (Ok(()), s)
                    }
                },
                None => (Ok(()), s),
            }
        },
        (Err(e), s) => (Err(e), s),
    }
}

/// Drops the fields that need it.
#[verifier::opaque]
pub open spec fn drop_fields(
    s: State,
    fuel: nat,
    name: Seq<char>,
    fields: Seq<StructFieldView>,
    ptr: ValView,
) -> (Result<(), ErrorView>, State)
    decreases fuel, fields, 4int, 0int,
{
    drop_fields_each(s, fuel, name, fields, ptr, 0)
}

/// [`drop_fields`] from element `i` on.
#[verifier::opaque]
pub open spec fn drop_fields_each(
    s: State,
    fuel: nat,
    name: Seq<char>,
    fields: Seq<StructFieldView>,
    ptr: ValView,
    i: nat,
) -> (Result<(), ErrorView>, State)
    decreases fuel, fields, 3int, fields.len() - i,
{
    if i < fields.len() {
        let field = fields[i as int];
        if needs_drop(s.env, field.ty) {
            let (got, s) = field_ptr(s, LTyView::Named(name), ptr, ((i as usize) as u32));
            match got {
                Some(p) => {
                    if fuel == 0 {
                        (Err(err("internal: types are nested too deeply"@)), s)
                    } else {
                        match drop_variable(s, (fuel - 1) as nat, field.ty, p) {
                            (Ok(_), s) => drop_fields_each(s, fuel, name, fields, ptr, i + 1),
                            (Err(e), s) => (Err(e), s),
                        }
                    }
                },
                None => {
                    (
                        Err(
                            err(
                                "failed to GEP for field '"@ + field.name
                                    + "' drop: GEP index out of range"@,
                            ),
                        ),
                        s,
                    )
                },
            }
        } else {
            drop_fields_each(s, fuel, name, fields, ptr, i + 1)
        }
    } else {
        (Ok(()), s)
    }
}

/// Opens a scope.
#[verifier::opaque]
pub open spec fn enter_scope(s: State) -> State {
    State {
        fun: FunView {
            scopes: s.fun.scopes.push(Seq::<(Seq<char>, TypeView, ValView)>::empty()),
            ..s.fun
        },
        ..s
    }
}

/// Closes a scope: what still has its value is dropped, the last declared first. A scope whose end
/// is never reached is only closed.
#[verifier::opaque]
pub open spec fn exit_scope(s: State, fuel: nat) -> (Result<(), ErrorView>, State) {
    match last_of(s.fun.scopes) {
        Some(vars) => {
            match leave_scope(s, fuel, vars) {
                (Ok(_), s) => {
                    let s = State { fun: FunView { scopes: shorter(s.fun.scopes), ..s.fun }, ..s };
                    (Ok(()), s)
                },
                (Err(e), s) => (Err(e), s),
            }
        },
        None => {
            let s = State { fun: FunView { scopes: shorter(s.fun.scopes), ..s.fun }, ..s };
            (Ok(()), s)
        },
    }
}

/// Drops the variables of a scope, unless the place is never reached.
#[verifier::opaque]
pub open spec fn leave_scope(
    s: State,
    fuel: nat,
    vars: Seq<(Seq<char>, TypeView, ValView)>,
) -> (Result<(), ErrorView>, State) {
    if terminated(s) {
        (Ok(()), s)
    } else {
        drop_scope(s, fuel, vars)
    }
}

/// The scopes inside of the first `depth` ones.
#[verifier::opaque]
pub open spec fn scopes_from_spec(
    scopes: Seq<Seq<(Seq<char>, TypeView, ValView)>>,
    depth: usize,
) -> Seq<Seq<(Seq<char>, TypeView, ValView)>> {
    let out = Seq::<Seq<(Seq<char>, TypeView, ValView)>>::empty();
    scopes_from_spec_each(scopes, depth, out, 0)
}

/// [`scopes_from_spec`] from element `i` on.
#[verifier::opaque]
pub open spec fn scopes_from_spec_each(
    scopes: Seq<Seq<(Seq<char>, TypeView, ValView)>>,
    depth: usize,
    out: Seq<Seq<(Seq<char>, TypeView, ValView)>>,
    i: nat,
) -> Seq<Seq<(Seq<char>, TypeView, ValView)>>
    decreases scopes.len() - i,
{
    if i < scopes.len() {
        let x = scopes[i as int];
        let out = if (i as usize) >= depth {
            out.push(x)
        } else {
            out
        };
        scopes_from_spec_each(scopes, depth, out, i + 1)
    } else {
        out
    }
}

/// Drops the variables of scopes that are left at once, those of the innermost scope first.
#[verifier::opaque]
pub open spec fn leave_scopes(
    s: State,
    fuel: nat,
    scopes: Seq<Seq<(Seq<char>, TypeView, ValView)>>,
) -> (Result<(), ErrorView>, State) {
    leave_scopes_each(s, fuel, scopes, 0)
}

/// [`leave_scopes`] from element `i` on.
#[verifier::opaque]
pub open spec fn leave_scopes_each(
    s: State,
    fuel: nat,
    scopes: Seq<Seq<(Seq<char>, TypeView, ValView)>>,
    i: nat,
) -> (Result<(), ErrorView>, State)
    decreases scopes.len() - i,
{
    if i < scopes.len() {
        let vars = scopes[scopes.len() - 1 - i];
        match leave_scope(s, fuel, vars) {
            (Ok(_), s) => leave_scopes_each(s, fuel, scopes, i + 1),
            (Err(e), s) => (Err(e), s),
        }
    } else {
        (Ok(()), s)
    }
}

/// Drops the variables of the scopes inside of the first `depth` ones, which control leaves here.
#[verifier::opaque]
pub open spec fn leave_inner(s: State, fuel: nat, depth: usize) -> (Result<(), ErrorView>, State) {
    leave_scopes(s, fuel, scopes_from_spec(s.fun.scopes, depth))
}

/// Closes the scope of a block; a variable that is its value is not dropped.
#[verifier::opaque]
pub open spec fn close_block(s: State, fuel: nat, b: BlockView) -> (Result<(), ErrorView>, State) {
    let s = match b.tail_expr {
        Some(tail) => note_given(s, *tail),
        None => s,
    };
    exit_scope(s, fuel)
}

/// Drops the variables of a scope that still have their values, the last declared first.
#[verifier::opaque]
pub open spec fn drop_scope(
    s: State,
    fuel: nat,
    vars: Seq<(Seq<char>, TypeView, ValView)>,
) -> (Result<(), ErrorView>, State) {
    drop_scope_each(s, fuel, vars, 0)
}

/// [`drop_scope`] from element `i` on.
#[verifier::opaque]
pub open spec fn drop_scope_each(
    s: State,
    fuel: nat,
    vars: Seq<(Seq<char>, TypeView, ValView)>,
    i: nat,
) -> (Result<(), ErrorView>, State)
    decreases vars.len() - i,
{
    if i < vars.len() {
        let v = vars[vars.len() - 1 - i];
        if !s.fun.moved.contains(v.0) && !s.fun.given.contains_key(v.0) {
            if needs_drop(s.env, v.1) {
                match drop_variable(s, fuel, v.1, v.2) {
                    (Ok(_), s) => drop_scope_each(s, fuel, vars, i + 1),
                    (Err(e), s) => (Err(e), s),
                }
            } else {
                drop_scope_each(s, fuel, vars, i + 1)
            }
        } else {
            drop_scope_each(s, fuel, vars, i + 1)
        }
    } else {
        (Ok(()), s)
    }
}

/// The variables that are not called `name`.
#[verifier::opaque]
pub open spec fn without_name_spec(
    vars: Seq<(Seq<char>, TypeView, ValView)>,
    name: Seq<char>,
) -> Seq<(Seq<char>, TypeView, ValView)> {
    vars.filter(without_name_kept(name))
}

/// Which elements are kept by [`without_name_spec`].
pub open spec fn without_name_kept(name: Seq<char>) -> spec_fn(
    (Seq<char>, TypeView, ValView),
) -> bool {
    |v: (Seq<char>, TypeView, ValView)| v.0 != name
}

/// Takes `name` out of the innermost scope.
#[verifier::opaque]
pub open spec fn forget_in_scope(s: State, name: Seq<char>) -> State {
    match last_of(s.fun.scopes) {
        Some(vars) => {
            let kept = without_name_spec(vars, name);
            let s = State { fun: FunView { scopes: shorter(s.fun.scopes), ..s.fun }, ..s };
            State { fun: FunView { scopes: s.fun.scopes.push(kept), ..s.fun }, ..s }
        },
        None => s,
    }
}

/// Adds a variable to the innermost scope; it has its value.
#[verifier::opaque]
pub open spec fn note_in_scope(s: State, name: Seq<char>, ty: TypeView, ptr: ValView) -> State {
    let s = State { fun: FunView { given: s.fun.given.remove(name), ..s.fun }, ..s };
    match last_of(s.fun.scopes) {
        Some(vars) => {
            let more = vars;
            let more = more.push((name, ty, ptr));
            let s = State { fun: FunView { scopes: shorter(s.fun.scopes), ..s.fun }, ..s };
            State { fun: FunView { scopes: s.fun.scopes.push(more), ..s.fun }, ..s }
        },
        None => s,
    }
}

/// Drops the variable that a new one of the same name hides.
#[verifier::opaque]
pub open spec fn drop_shadowed(
    s: State,
    fuel: nat,
    name: Seq<char>,
) -> (Result<(), ErrorView>, State) {
    match at(s.fun.symbols, name) {
        Some(v) => {
            if needs_drop(s.env, v.2) {
                match drop_variable(s, fuel, v.2, v.0) {
                    (Ok(_), s) => {
                        let s = forget_in_scope(s, name);
                        (Ok(()), s)
                    },
                    (Err(e), s) => (Err(e), s),
                }
            } else {
                let s = forget_in_scope(s, name);
                (Ok(()), s)
            }
        },
        None => (Ok(()), s),
    }
}

/// A variable that is used as a whole is moved out of, unless its type is Copy.
#[verifier::opaque]
pub open spec fn note_move(s: State, init: ExprView) -> State {
    match init {
        ExprView::Ident(name, _) => {
            if !(copies(s.env, ty_of(s, init))) {
                State { fun: FunView { moved: s.fun.moved.insert(name), ..s.fun }, ..s }
            } else {
                s
            }
        },
        _ => s,
    }
}

/// A variable whose value goes elsewhere is not dropped where it was declared, unless its type is
/// Copy.
#[verifier::opaque]
pub open spec fn note_given(s: State, e: ExprView) -> State {
    match e {
        ExprView::Ident(name, _) => {
            if !(copies(s.env, ty_of(s, e))) {
                State { fun: FunView { given: s.fun.given.insert(name, true), ..s.fun }, ..s }
            } else {
                s
            }
        },
        _ => s,
    }
}

/// Variables whose values go elsewhere are not dropped where they were declared, unless their types
/// are Copy.
#[verifier::opaque]
pub open spec fn note_all_given(s: State, es: Seq<ExprView>) -> State {
    note_all_given_each(s, es, 0)
}

/// [`note_all_given`] from element `i` on.
#[verifier::opaque]
pub open spec fn note_all_given_each(s: State, es: Seq<ExprView>, i: nat) -> State
    decreases es.len() - i,
{
    if i < es.len() {
        let e = es[i as int];
        let s = note_given(s, e);
        note_all_given_each(s, es, i + 1)
    } else {
        s
    }
}

/// The machine types of parameters.
#[verifier::opaque]
pub open spec fn param_machine_types(
    s: EnvView,
    params: Seq<ParamView>,
) -> Result<Seq<LTyView>, ErrorView> {
    let tys = Seq::<LTyView>::empty();
    param_machine_types_each(s, params, tys, 0)
}

/// [`param_machine_types`] from element `i` on.
#[verifier::opaque]
pub open spec fn param_machine_types_each(
    s: EnvView,
    params: Seq<ParamView>,
    tys: Seq<LTyView>,
    i: nat,
) -> Result<Seq<LTyView>, ErrorView>
    decreases params.len() - i,
{
    if i < params.len() {
        let p = params[i as int];
        match lower_type(s, p.ty) {
            Ok(t) => {
                let tys = tys.push(t);
                param_machine_types_each(s, params, tys, i + 1)
            },
            Err(e) => Err(e),
        }
    } else {
        Ok(tys)
    }
}

/// Whether `inline` attributes ask for inlining, and whether they forbid it.
#[verifier::opaque]
pub open spec fn inline_request_spec(
    attribs: Seq<AttributeView>,
) -> Result<(bool, bool), ErrorView> {
    let force = false;
    let forbid = false;
    inline_request_spec_each(attribs, force, forbid, 0)
}

/// [`inline_request_spec`] from element `i` on.
#[verifier::opaque]
pub open spec fn inline_request_spec_each(
    attribs: Seq<AttributeView>,
    force: bool,
    forbid: bool,
    i: nat,
) -> Result<(bool, bool), ErrorView>
    decreases attribs.len() - i,
{
    if i < attribs.len() {
        let a = attribs[i as int];
        if a.name == "inline"@ {
            if (a.args.len() as usize) == 0 {
                let force = true;
                inline_request_spec_each(attribs, force, forbid, i + 1)
            } else if (a.args.len() as usize) == 1 {
                if a.args[0] == "always"@ {
                    let force = true;
                    inline_request_spec_each(attribs, force, forbid, i + 1)
                } else if a.args[0] == "never"@ {
                    let forbid = true;
                    inline_request_spec_each(attribs, force, forbid, i + 1)
                } else {
                    Err(
                        err_at(
                            (
                                "invalid 'inline' attribute argument: expected 'always' or 'never', found '"@ + a.args[0] + "'"@
                            ),
                            a.span,
                        ),
                    )
                }
            } else {
                Err(
                    err_at(
                        "invalid 'inline' attribute: expected at most 1 argument (always or never)"@,
                        a.span,
                    ),
                )
            }
        } else {
            inline_request_spec_each(attribs, force, forbid, i + 1)
        }
    } else {
        Ok((force, forbid))
    }
}

/// The place of the first `inline` attribute.
#[verifier::opaque]
pub open spec fn inline_span_spec(attribs: Seq<AttributeView>, default: Span) -> Span {
    match first_index(attribs, inline_span_here()) {
        Some(i) => {
            let a = attribs[i];
            a.span
        },
        None => default,
    }
}

/// Whether [`inline_span_spec`] stops at an element.
pub open spec fn inline_span_here() -> spec_fn(AttributeView) -> bool {
    |a: AttributeView| a.name == "inline"@
}

/// The machine signature of a function. One without a return type gives nothing, but for `main`,
/// which gives an `i32`.
#[verifier::opaque]
pub open spec fn function_signature(s: EnvView, f: FunctionView) -> Result<FnSigView, ErrorView> {
    match param_machine_types(s, f.params) {
        Ok(params) => {
            match f.return_type {
                Some(ty) => {
                    if ty is Never {
                        Ok(
                            FnSigView {
                                params: params,
                                ret: None,
                                variadic: (f.name == "printf"@),
                                noreturn: true,
                                inlining: Inlining::Free,
                            },
                        )
                    } else {
                        match lower_type(s, ty) {
                            Ok(ret) => {
                                Ok(
                                    FnSigView {
                                        params: params,
                                        ret: Some(ret),
                                        variadic: (f.name == "printf"@),
                                        noreturn: false,
                                        inlining: Inlining::Free,
                                    },
                                )
                            },
                            Err(e) => Err(e),
                        }
                    }
                },
                None => {
                    if f.name == "main"@ {
                        Ok(
                            FnSigView {
                                params: params,
                                ret: Some(LTyView::Int(32)),
                                variadic: false,
                                noreturn: false,
                                inlining: Inlining::Free,
                            },
                        )
                    } else {
                        Ok(
                            FnSigView {
                                params: params,
                                ret: None,
                                variadic: (f.name == "printf"@),
                                noreturn: false,
                                inlining: Inlining::Free,
                            },
                        )
                    }
                },
            }
        },
        Err(e) => Err(e),
    }
}

/// Declares a function. The first declaration of a name counts; its types are kept for calls.
#[verifier::opaque]
pub open spec fn declare_function(s: State, f: FunctionView) -> (Result<(), ErrorView>, State) {
    match function_signature(s.env, f) {
        Ok(fresh) => {
            match inline_request_spec(f.attribs) {
                Ok((force, forbid)) => {
                    if force && forbid {
                        (
                            Err(
                                err_at(
                                    "conflicting 'inline' attributes"@,
                                    inline_span_spec(f.attribs, f.span),
                                ),
                            ),
                            s,
                        )
                    } else {
                        let (sig, s) = match at(s.out.decls, f.name) {
                            Some(known) => {
                                let sig = known;
                                (sig, s)
                            },
                            None => {
                                let sig = fresh;
                                let s = State {
                                    out: OutView { fn_order: s.out.fn_order.push(f.name), ..s.out },
                                    ..s
                                };
                                (sig, s)
                            },
                        };
                        let s = if force {
                            State {
                                out: OutView {
                                    decls: s.out.decls.insert(
                                        f.name,
                                        (FnSigView { inlining: Inlining::Always, ..sig }),
                                    ),
                                    ..s.out
                                },
                                ..s
                            }
                        } else {
                            if forbid {
                                State {
                                    out: OutView {
                                        decls: s.out.decls.insert(
                                            f.name,
                                            (FnSigView { inlining: Inlining::Never, ..sig }),
                                        ),
                                        ..s.out
                                    },
                                    ..s
                                }
                            } else {
                                State {
                                    out: OutView {
                                        decls: s.out.decls.insert(f.name, sig),
                                        ..s.out
                                    },
                                    ..s
                                }
                            }
                        };
                        let s = note_types(s, f);
                        (Ok(()), s)
                    }
                },
                Err(e) => (Err(e), s),
            }
        },
        Err(e) => (Err(e), s),
    }
}

/// The return type of a function, or another type where it has none.
#[verifier::opaque]
pub open spec fn return_or_spec(f: FunctionView, default: TypeView) -> TypeView {
    match f.return_type {
        Some(ty) => ty,
        None => default,
    }
}

/// Keeps the types of a function for calls of it.
#[verifier::opaque]
pub open spec fn note_types(s: State, f: FunctionView) -> State {
    let s = State {
        env: EnvView {
            fn_return_types: s.env.fn_return_types.insert(f.name, return_or_spec(f, TypeView::I32)),
            ..s.env
        },
        ..s
    };
    State {
        env: EnvView {
            fn_param_types: s.env.fn_param_types.insert(f.name, param_types(f.params)),
            ..s.env
        },
        ..s
    }
}

/// The name that the trait methods of a type are built from, where it has one.
pub fn type_key_of(ty: &Type) -> (r: Option<String>)
    ensures
        r.model() == type_key(ty@),
{
    if has_type_key(ty) {
        Some(type_to_mangled_name(ty))
    } else {
        None
    }
}

/// A type without the references around it.
pub fn behind_refs(ty: &Type) -> (r: Type)
    ensures
        r@ == behind_refs_spec(ty@),
    decreases ty,
{
    proof {
        reveal(behind_refs_spec);
    }
    match ty {
        Type::Ref { inner, .. } => {
            return behind_refs(inner);
        },
        _ => {
            return ty.clone();
        },
    }
}

/// The name of the struct that a type is.
pub fn struct_name_of(ty: &Type) -> (r: Option<String>)
    ensures
        r.model() == struct_name_of_spec(ty@),
{
    proof {
        reveal(struct_name_of_spec);
    }
    match ty {
        Type::Struct(name) => {
            return Some(name.clone());
        },
        Type::GenericInstance(name, args) => {
            return Some(mangle_generic_instance(name, args));
        },
        _ => {
            return None;
        },
    }
}

/// The scopes inside of the first `depth` ones.
pub fn scopes_from(
    scopes: &Vec<Vec<(String, Type, Val)>>,
    depth: usize,
) -> (r: Vec<Vec<(String, Type, Val)>>)
    ensures
        r.model() == scopes_from_spec(scopes.model(), depth),
{
    proof {
        reveal(scopes_from_spec);
        reveal(scopes_from_spec_each);
    }
    let items: Vec<Vec<(String, Type, Val)>> = Vec::new();
    proof {
        assert(items.model() =~= Seq::<Seq<(Seq<char>, TypeView, ValView)>>::empty());
    }
    let mut out = items;
    let mut i: usize = 0;
    while i < scopes.len()
        invariant
            i <= scopes@.len(),
            scopes_from_spec_each(
                scopes.model(),
                depth,
                out.model(),
                i as nat,
            ) == scopes_from_spec(scopes.model(), depth),
        decreases scopes@.len() - i,
    {
        proof {
            reveal(scopes_from_spec);
            reveal(scopes_from_spec_each);
        }
        let x = &scopes[i];
        if i >= depth {
            let ghost prior = out.model();
            let item = x.dup();
            out.push(item);
            proof {
                assert(out.model() =~= prior.push(item.model()));
            }
        }
        i += 1;
    }
    out
}

/// The variables that are not called `name`.
pub fn without_name(vars: &Vec<(String, Type, Val)>, name: &str) -> (r: Vec<(String, Type, Val)>)
    ensures
        r.model() == without_name_spec(vars.model(), name@),
{
    proof {
        reveal(without_name_spec);
    }
    let items: Vec<(String, Type, Val)> = Vec::new();
    proof {
        assert(items.model() =~= Seq::<(Seq<char>, TypeView, ValView)>::empty());
    }
    let mut kept = items;
    proof {
        reveal(Seq::filter);
        assert(vars.model().take(0) =~= Seq::empty());
    }
    let mut i: usize = 0;
    while i < vars.len()
        invariant
            i <= vars@.len(),
            kept.model() == vars.model().take(i as int).filter(without_name_kept(name@)),
        decreases vars@.len() - i,
    {
        let v = &vars[i];
        proof {
            reveal(Seq::filter);
            let t = vars.model().take(i + 1);
            assert(t.drop_last() =~= vars.model().take(i as int));
            assert(t.last() == vars.model()[i as int]);
        }
        if !same(&v.0, name) {
            let ghost prior = kept.model();
            let item = v.dup();
            kept.push(item);
            proof {
                assert(kept.model() =~= prior.push(item.model()));
            }
        }
        i += 1;
    }
    proof {
        assert(vars.model().take(vars@.len() as int) =~= vars.model());
    }
    kept
}

/// Whether `inline` attributes ask for inlining, and whether they forbid it.
pub fn inline_request(attribs: &Vec<Attribute>) -> (r: Result<(bool, bool), CodegenError>)
    ensures
        r.model() == inline_request_spec(attribute_seq_view(attribs@)),
{
    proof {
        reveal(inline_request_spec);
        reveal(inline_request_spec_each);
    }
    let mut force: bool = false;
    let mut forbid: bool = false;
    let mut i: usize = 0;
    while i < attribs.len()
        invariant
            i <= attribs@.len(),
            inline_request_spec_each(
                attribute_seq_view(attribs@),
                force,
                forbid,
                i as nat,
            ) == inline_request_spec(attribute_seq_view(attribs@)),
        decreases attribs@.len() - i,
    {
        proof {
            reveal(inline_request_spec);
            reveal(inline_request_spec_each);
        }
        let a = &attribs[i];
        proof {
            assert(attribute_seq_view(attribs@)[i as int] == attribute_view(attribs@[i as int]));
        }
        if same(&a.name, "inline") {
            if a.args.len() == 0 {
                force = true;
            } else if a.args.len() == 1 {
                if same(&a.args[0], "always") {
                    force = true;
                } else if same(&a.args[0], "never") {
                    forbid = true;
                } else {
                    return Err(
                        CodegenError::with_span(
                            cat3(
                                "invalid 'inline' attribute argument: expected 'always' or 'never', found '",
                                &a.args[0],
                                "'",
                            ),
                            a.span,
                        ),
                    );
                }
            } else {
                return Err(
                    CodegenError::with_span(
                        "invalid 'inline' attribute: expected at most 1 argument (always or never)".to_owned(),
                        a.span,
                    ),
                );
            }
        }
        i += 1;
    }
    Ok((force, forbid))
}

/// The place of the first `inline` attribute.
pub fn inline_span(attribs: &Vec<Attribute>, default: Span) -> (r: Span)
    ensures
        r == inline_span_spec(attribute_seq_view(attribs@), default),
{
    proof {
        reveal(inline_span_spec);
    }
    let mut i: usize = 0;
    while i < attribs.len()
        invariant
            i <= attribs@.len(),
            forall|k: int| #![trigger attribute_seq_view(attribs@)[k]] 0 <= k < i ==> !inline_span_here()(
                attribute_seq_view(attribs@)[k],
            ),
        decreases attribs@.len() - i,
    {
        let a = &attribs[i];
        proof {
            assert(attribute_seq_view(attribs@)[i as int] == attribute_view(attribs@[i as int]));
        }
        if same(&a.name, "inline") {
            proof {
                reveal(inline_span_spec);
            }
            proof {
                lemma_first_index(attribute_seq_view(attribs@), inline_span_here(), i as int);
            }
            return a.span;
        }
        i += 1;
    }
    proof {
        lemma_no_index(attribute_seq_view(attribs@), inline_span_here());
    }
    default
}

/// The return type of a function, or another type where it has none.
pub fn return_or(f: &Function, default: &Type) -> (r: Type)
    ensures
        r@ == return_or_spec(f@, default@),
{
    proof {
        reveal(return_or_spec);
    }
    match &f.return_type {
        Some(ty) => {
            return ty.clone();
        },
        None => {
            return default.clone();
        },
    }
}

impl Env {
    /// The machine types of parameters.
    pub fn param_machine_types(&self, params: &Vec<Param>) -> (r: Result<Vec<LTy>, CodegenError>)
        ensures
            r.model() == param_machine_types(self@, param_seq_view(params@)),
    {
        proof {
            reveal(param_machine_types);
            reveal(param_machine_types_each);
        }
        let items: Vec<LTy> = Vec::new();
        proof {
            assert(l_ty_seq_view(items@) =~= Seq::<LTyView>::empty());
        }
        let mut tys = items;
        let mut i: usize = 0;
        while i < params.len()
            invariant
                i <= params@.len(),
                param_machine_types_each(
                    self@,
                    param_seq_view(params@),
                    l_ty_seq_view(tys@),
                    i as nat,
                ) == param_machine_types(self@, param_seq_view(params@)),
            decreases params@.len() - i,
        {
            proof {
                reveal(param_machine_types);
                reveal(param_machine_types_each);
            }
            let p = &params[i];
            proof {
                assert(param_seq_view(params@)[i as int] == param_view(params@[i as int]));
            }
            let t = match self.type_to_llvm(&p.ty) {
                Ok(v) => v,
                Err(e) => {
                    return Err(e);
                },
            };
            let ghost prior = l_ty_seq_view(tys@);
            let item = t.clone();
            tys.push(item);
            proof {
                assert(l_ty_seq_view(tys@) =~= prior.push(item@));
            }
            i += 1;
        }
        Ok(dup_l_ty_seq(&tys))
    }

    /// The machine signature of a function. One without a return type gives nothing, but for
    /// `main`, which gives an `i32`.
    pub fn function_signature(&self, f: &Function) -> (r: Result<FnSig, CodegenError>)
        ensures
            r.model() == function_signature(self@, f@),
    {
        proof {
            reveal(function_signature);
        }
        let params = match self.param_machine_types(&f.params) {
            Ok(v) => v,
            Err(e) => {
                return Err(e);
            },
        };
        match &f.return_type {
            Some(ty) => {
                if matches!(ty, Type::Never { .. }) {
                    return Ok(
                        FnSig {
                            params: dup_l_ty_seq(&params),
                            ret: None,
                            variadic: same(&f.name, "printf"),
                            noreturn: true,
                            inlining: Inlining::Free,
                        },
                    );
                }
                let ret = match self.type_to_llvm(ty) {
                    Ok(v) => v,
                    Err(e) => {
                        return Err(e);
                    },
                };
                return Ok(
                    FnSig {
                        params: dup_l_ty_seq(&params),
                        ret: Some(ret.clone()),
                        variadic: same(&f.name, "printf"),
                        noreturn: false,
                        inlining: Inlining::Free,
                    },
                );
            },
            None => {
                if same(&f.name, "main") {
                    return Ok(
                        FnSig {
                            params: dup_l_ty_seq(&params),
                            ret: Some(LTy::Int(32)),
                            variadic: false,
                            noreturn: false,
                            inlining: Inlining::Free,
                        },
                    );
                }
                return Ok(
                    FnSig {
                        params: dup_l_ty_seq(&params),
                        ret: None,
                        variadic: same(&f.name, "printf"),
                        noreturn: false,
                        inlining: Inlining::Free,
                    },
                );
            },
        }
    }
}

impl CodeGen {
    /// Lets the base name of an expected instance stand for that instance, and tells what it stood
    /// for.
    pub fn expect_type(&mut self, ty: &Type) -> (r: Option<(String, Option<String>)>)
        ensures
            (r.model(), final(self)@) == expect_type(old(self)@, ty@),
            stays(old(self)@, final(self)@),
            settled(old(self)@, final(self)@),
            confined(old(self)@.out.cur, final(self)@.out.cur),
            same_variables(old(self)@, final(self)@),
    {
        proof {
            broadcast use crate::growth::group_growth;

            count_from(old(self)@);
            reveal(expect_type);
        }
        let subject = behind_refs(ty);
        match &subject {
            Type::GenericInstance(name, args) => {
                let before = self.fun.mono_names.get_dup(name);
                self.fun.mono_names.insert(name.clone(), mangle_generic_instance(name, args));
                return Some((name.clone(), before.dup()));
            },
            _ => {
                return None;
            },
        }
    }

    /// Lets a base name stand for what it stood for before.
    pub fn unexpect(&mut self, saved: &Option<(String, Option<String>)>)
        ensures
            final(self)@ == unexpect(old(self)@, saved.model()),
            stays(old(self)@, final(self)@),
            settled(old(self)@, final(self)@),
            confined(old(self)@.out.cur, final(self)@.out.cur),
            same_variables(old(self)@, final(self)@),
    {
        proof {
            broadcast use crate::growth::group_growth;

            count_from(old(self)@);
            reveal(unexpect);
        }
        match saved {
            Some((name, before)) => {
                match before {
                    Some(old_name) => {
                        self.fun.mono_names.insert(name.clone(), old_name.clone());
                    },
                    None => {
                        self.fun.mono_names.remove(name);
                    },
                }
            },
            None => {},
        }
    }

    /// An argument as the parameter of a function takes it: an integer of another width is brought
    /// to that of the parameter, what a pointer points to is read where a value is wanted, and a
    /// value is put in memory where a pointer is wanted.
    pub fn fit_arg(&mut self, v: &Val, t: &LTy) -> (r: Result<Val, CodegenError>)
        ensures
            (r.model(), final(self)@) == fit_arg(old(self)@, v@, t@),
            stays(old(self)@, final(self)@),
            settled(old(self)@, final(self)@),
            confined(old(self)@.out.cur, final(self)@.out.cur),
            same_variables(old(self)@, final(self)@),
            final(self)@.fun == old(self)@.fun,
    {
        proof {
            broadcast use crate::growth::group_growth;

            count_from(old(self)@);
            reveal(fit_arg);
        }
        if same_lty(&v.ty, t) {
            return Ok(v.clone());
        }
        if matches!(t, LTy::Ptr { .. }) {
            let got = self.spill(&v.ty, v);
            return Ok(got);
        }
        if matches!(&v.ty, LTy::Ptr { .. }) {
            let got2 = self.load(t, v);
            return Ok(got2);
        }
        match t {
            LTy::Int(to) => {
                match &v.ty {
                    LTy::Int(from_) => {
                        if *from_ < *to {
                            let got3 = self.cast(CastKind::ZeroExt, v, t);
                            return Ok(got3);
                        }
                        let got4 = self.cast(CastKind::Trunc, v, t);
                        return Ok(got4);
                    },
                    _ => {
                        return Err(
                            CodegenError::new(
                                "internal: an argument is of another type than its parameter".to_owned(),
                            ),
                        );
                    },
                }
            },
            _ => {
                return Err(
                    CodegenError::new(
                        "internal: an argument is of another type than its parameter".to_owned(),
                    ),
                );
            },
        }
    }

    /// The arguments of a call, one for each parameter; those that are too many are left out,
    /// unless the function takes more.
    pub fn fit_args(
        &mut self,
        tys: &Vec<LTy>,
        variadic: bool,
        args: &Vec<Val>,
    ) -> (r: Result<Vec<Val>, CodegenError>)
        ensures
            (r.model(), final(self)@) == fit_args(
                old(self)@,
                l_ty_seq_view(tys@),
                variadic,
                val_seq_view(args@),
            ),
            stays(old(self)@, final(self)@),
            settled(old(self)@, final(self)@),
            confined(old(self)@.out.cur, final(self)@.out.cur),
            same_variables(old(self)@, final(self)@),
            final(self)@.fun == old(self)@.fun,
    {
        proof {
            broadcast use crate::growth::group_growth;

            count_from(old(self)@);
            reveal(fit_args);
            reveal(fit_args_each);
        }
        let items: Vec<Val> = Vec::new();
        proof {
            assert(val_seq_view(items@) =~= Seq::<ValView>::empty());
        }
        let mut out = items;
        let mut i: usize = 0;
        while i < args.len()
            invariant
                i <= args@.len(),
                fit_args_each(
                    self@,
                    l_ty_seq_view(tys@),
                    variadic,
                    val_seq_view(args@),
                    val_seq_view(out@),
                    i as nat,
                ) == fit_args(old(self)@, l_ty_seq_view(tys@), variadic, val_seq_view(args@)),
                stays(old(self)@, self@),
                settled(old(self)@, self@),
                confined(old(self)@.out.cur, self@.out.cur),
                same_variables(old(self)@, self@),
                self@.fun == old(self)@.fun,
            decreases args@.len() - i,
        {
            proof {
                broadcast use crate::growth::group_growth;

                count_from(old(self)@);
                reveal(fit_args);
                reveal(fit_args_each);
            }
            let v = &args[i];
            proof {
                assert(val_seq_view(args@)[i as int] == val_view(args@[i as int]));
            }
            proof {
                assert(l_ty_seq_view(tys@).len() == tys@.len());
            }
            if i < tys.len() {
                proof {
                    assert(l_ty_seq_view(tys@)[i as int] == l_ty_view(tys@[i as int]));
                }
                let x = match self.fit_arg(v, &tys[i]) {
                    Ok(v) => v,
                    Err(e) => {
                        return Err(e);
                    },
                };
                let ghost prior = val_seq_view(out@);
                let item = x.clone();
                out.push(item);
                proof {
                    assert(val_seq_view(out@) =~= prior.push(item@));
                }
            } else if variadic {
                let ghost prior2 = val_seq_view(out@);
                let item2 = v.clone();
                out.push(item2);
                proof {
                    assert(val_seq_view(out@) =~= prior2.push(item2@));
                }
            }
            i += 1;
        }
        proof {
            assert(val_seq_view(out@).len() == out@.len());
        }
        proof {
            assert(l_ty_seq_view(tys@).len() == tys@.len());
        }
        if out.len() < tys.len() {
            return Err(CodegenError::new("internal: a call with too few arguments".to_owned()));
        }
        Ok(dup_val_seq(&out))
    }

    /// Calls a declared function, with the arguments as its parameters take them.
    pub fn call_fitted(&mut self, f: &str, args: &Vec<Val>) -> (r: Result<Val, CodegenError>)
        ensures
            (r.model(), final(self)@) == call_fitted(old(self)@, f@, val_seq_view(args@)),
            stays(old(self)@, final(self)@),
            settled(old(self)@, final(self)@),
            confined(old(self)@.out.cur, final(self)@.out.cur),
            same_variables(old(self)@, final(self)@),
            final(self)@.fun == old(self)@.fun,
    {
        proof {
            broadcast use crate::growth::group_growth;

            count_from(old(self)@);
            reveal(call_fitted);
        }
        let subject = self.out.decls.get_dup(f);
        match &subject {
            Some(sig) => {
                let vals = match self.fit_args(&sig.params, sig.variadic, args) {
                    Ok(v) => v,
                    Err(e) => {
                        return Err(e);
                    },
                };
                let got3 = self.call(f, dup_val_seq(&vals));
                return Ok(got3);
            },
            None => {
                return Err(
                    CodegenError::new(
                        cat3("internal: function '", f, "' is called and not declared"),
                    ),
                );
            },
        }
    }

    /// Calls the drop function of a type that implements `Drop`, where it is declared.
    pub fn call_drop(&mut self, ty: &Type, ptr: &Val) -> (r: Result<(), CodegenError>)
        ensures
            (r.model(), final(self)@) == call_drop(old(self)@, ty@, ptr@),
            stays(old(self)@, final(self)@),
            settled(old(self)@, final(self)@),
            confined(old(self)@.out.cur, final(self)@.out.cur),
            same_variables(old(self)@, final(self)@),
            final(self)@.fun == old(self)@.fun,
    {
        proof {
            broadcast use crate::growth::group_growth;

            count_from(old(self)@);
            reveal(call_drop);
        }
        if self.env.check_type_implements_trait(ty, "Drop") {
            let subject = type_key_of(ty);
            match &subject {
                Some(key) => {
                    let subject2 = self.operator_fn("Drop", "drop", key);
                    match &subject2 {
                        Some(f) => {
                            let mut items: Vec<Val> = Vec::new();
                            let item = ptr.clone();
                            items.push(item);
                            proof {
                                assert(val_seq_view(items@) =~= seq![item@]);
                            }
                            let r = match self.call_fitted(f, &items) {
                                Ok(v) => v,
                                Err(e) => {
                                    return Err(e);
                                },
                            };
                            return Ok(());
                        },
                        None => {
                            return Ok(());
                        },
                    }
                },
                None => {
                    return Err(
                        CodegenError::new(
                            "internal: a type without a name implements Drop".to_owned(),
                        ),
                    );
                },
            }
        }
        Ok(())
    }

    /// Drops what `ptr` points to: its own drop function first, then its fields in the order of
    /// their declaration.
    pub fn drop_variable(
        &mut self,
        fuel: usize,
        ty: &Type,
        ptr: &Val,
    ) -> (r: Result<(), CodegenError>)
        ensures
            (r.model(), final(self)@) == drop_variable(old(self)@, fuel as nat, ty@, ptr@),
            stays(old(self)@, final(self)@),
            settled(old(self)@, final(self)@),
            confined(old(self)@.out.cur, final(self)@.out.cur),
            same_variables(old(self)@, final(self)@),
            final(self)@.fun == old(self)@.fun,
        decreases fuel, ty, 2int, 0int,
    {
        proof {
            broadcast use crate::growth::group_growth;

            count_from(old(self)@);
            reveal(drop_variable);
            reveal(drop_fields);
        }
        match self.call_drop(ty, ptr) {
            Ok(_) => {},
            Err(e) => {
                return Err(e);
            },
        }
        let subject = struct_name_of(ty);
        match &subject {
            Some(name) => {
                if self.env.struct_types.contains(name) {
                    let subject2 = self.env.struct_fields.get_dup(name);
                    match &subject2 {
                        Some(fields) => {
                            if fuel == 0 {
                                return Err(
                                    CodegenError::new(
                                        "internal: types are nested too deeply".to_owned(),
                                    ),
                                );
                            }
                            return self.drop_fields(fuel - 1, name, fields, ptr);
                        },
                        None => {
                            return Ok(());
                        },
                    }
                }
                return Ok(());
            },
            None => {
                return Ok(());
            },
        }
    }

    /// Drops the fields that need it.
    pub fn drop_fields(
        &mut self,
        fuel: usize,
        name: &str,
        fields: &Vec<StructField>,
        ptr: &Val,
    ) -> (r: Result<(), CodegenError>)
        ensures
            (r.model(), final(self)@) == drop_fields(
                old(self)@,
                fuel as nat,
                name@,
                struct_field_seq_view(fields@),
                ptr@,
            ),
            stays(old(self)@, final(self)@),
            settled(old(self)@, final(self)@),
            confined(old(self)@.out.cur, final(self)@.out.cur),
            same_variables(old(self)@, final(self)@),
            final(self)@.fun == old(self)@.fun,
        decreases fuel, fields, 4int, 0int,
    {
        proof {
            broadcast use crate::growth::group_growth;

            count_from(old(self)@);
            reveal(drop_fields);
            reveal(drop_fields_each);
            reveal(drop_variable);
        }
        let mut i: usize = 0;
        while i < fields.len()
            invariant
                i <= fields@.len(),
                drop_fields_each(
                    self@,
                    fuel as nat,
                    name@,
                    struct_field_seq_view(fields@),
                    ptr@,
                    i as nat,
                ) == drop_fields(
                    old(self)@,
                    fuel as nat,
                    name@,
                    struct_field_seq_view(fields@),
                    ptr@,
                ),
                stays(old(self)@, self@),
                settled(old(self)@, self@),
                confined(old(self)@.out.cur, self@.out.cur),
                same_variables(old(self)@, self@),
                self@.fun == old(self)@.fun,
            decreases fields@.len() - i,
        {
            proof {
                broadcast use crate::growth::group_growth;

                count_from(old(self)@);
                reveal(drop_fields);
                reveal(drop_fields_each);
                reveal(drop_variable);
            }
            let field = &fields[i];
            proof {
                assert(struct_field_seq_view(fields@)[i as int] == struct_field_view(fields@[i as int]));
            }
            if self.env.has_drop_glue(&field.ty) {
                let got = self.field_ptr(&LTy::Named(name.to_owned()), ptr, i as u32);
                match &got {
                    Some(p) => {
                        if fuel == 0 {
                            return Err(
                                CodegenError::new(
                                    "internal: types are nested too deeply".to_owned(),
                                ),
                            );
                        }
                        match self.drop_variable(fuel - 1, &field.ty, p) {
                            Ok(_) => {},
                            Err(e) => {
                                return Err(e);
                            },
                        }
                    },
                    None => {
                        return Err(
                            CodegenError::new(
                                cat3(
                                    "failed to GEP for field '",
                                    &field.name,
                                    "' drop: GEP index out of range",
                                ),
                            ),
                        );
                    },
                }
            }
            i += 1;
        }
        Ok(())
    }

    /// Opens a scope.
    pub fn enter_scope(&mut self)
        ensures
            final(self)@ == enter_scope(old(self)@),
            stays(old(self)@, final(self)@),
            same_variables(old(self)@, final(self)@),
            final(self)@ == (
                State {
                    fun: FunView {
                        scopes: old(self)@.fun.scopes.push(Seq::empty()),
                        ..old(self)@.fun
                    },
                    ..old(self)@
                }
            ),
    {
        proof {
            broadcast use crate::growth::group_growth;

            count_from(old(self)@);
            reveal(outer_kept);
            reveal(inner_left);
            reveal(enter_scope);
        }
        let items: Vec<(String, Type, Val)> = Vec::new();
        proof {
            assert(items.model() =~= Seq::<(Seq<char>, TypeView, ValView)>::empty());
        }
        let ghost prior = self.fun.scopes.model();
        let item = items;
        self.fun.scopes.push(item);
        proof {
            assert(self.fun.scopes.model() =~= prior.push(item.model()));
        }
    }

    /// Closes a scope: what still has its value is dropped, the last declared first. A scope whose
    /// end is never reached is only closed.
    pub fn exit_scope(&mut self, fuel: usize) -> (r: Result<(), CodegenError>)
        ensures
            (r.model(), final(self)@) == exit_scope(old(self)@, fuel as nat),
            stays(old(self)@, final(self)@),
            r is Ok ==> same_variables(old(self)@, final(self)@),
            left_scope(old(self)@, final(self)@),
            confined(old(self)@.out.cur, final(self)@.out.cur),
    {
        proof {
            broadcast use crate::growth::group_growth;

            count_from(old(self)@);
            reveal(outer_kept);
            reveal(inner_left);
            reveal(exit_scope);
        }
        let subject = last_element(&self.fun.scopes);
        match &subject {
            Some(vars) => {
                match self.leave_scope(fuel, vars) {
                    Ok(_) => {},
                    Err(e) => {
                        return Err(e);
                    },
                }
            },
            None => {},
        }
        drop_end(&mut self.fun.scopes);
        Ok(())
    }

    /// Drops the variables of a scope, unless the place is never reached.
    pub fn leave_scope(
        &mut self,
        fuel: usize,
        vars: &Vec<(String, Type, Val)>,
    ) -> (r: Result<(), CodegenError>)
        ensures
            (r.model(), final(self)@) == leave_scope(old(self)@, fuel as nat, vars.model()),
            stays(old(self)@, final(self)@),
            settled(old(self)@, final(self)@),
            confined(old(self)@.out.cur, final(self)@.out.cur),
            same_variables(old(self)@, final(self)@),
            final(self)@.fun == old(self)@.fun,
    {
        proof {
            broadcast use crate::growth::group_growth;

            count_from(old(self)@);
            reveal(leave_scope);
        }
        if self.is_terminated() {
            return Ok(());
        }
        self.drop_scope(fuel, vars)
    }

    /// Drops the variables of scopes that are left at once, those of the innermost scope first.
    pub fn leave_scopes(
        &mut self,
        fuel: usize,
        scopes: &Vec<Vec<(String, Type, Val)>>,
    ) -> (r: Result<(), CodegenError>)
        ensures
            (r.model(), final(self)@) == leave_scopes(old(self)@, fuel as nat, scopes.model()),
            stays(old(self)@, final(self)@),
            settled(old(self)@, final(self)@),
            confined(old(self)@.out.cur, final(self)@.out.cur),
            same_variables(old(self)@, final(self)@),
            final(self)@.fun == old(self)@.fun,
    {
        proof {
            broadcast use crate::growth::group_growth;

            count_from(old(self)@);
            reveal(leave_scopes);
            reveal(leave_scopes_each);
        }
        let mut i: usize = 0;
        while i < scopes.len()
            invariant
                i <= scopes@.len(),
                leave_scopes_each(
                    self@,
                    fuel as nat,
                    scopes.model(),
                    i as nat,
                ) == leave_scopes(old(self)@, fuel as nat, scopes.model()),
                stays(old(self)@, self@),
                settled(old(self)@, self@),
                confined(old(self)@.out.cur, self@.out.cur),
                same_variables(old(self)@, self@),
                self@.fun == old(self)@.fun,
            decreases scopes@.len() - i,
        {
            proof {
                broadcast use crate::growth::group_growth;

                count_from(old(self)@);
                reveal(leave_scopes);
                reveal(leave_scopes_each);
            }
            let vars = &scopes[scopes.len() - 1 - i];
            match self.leave_scope(fuel, vars) {
                Ok(_) => {},
                Err(e) => {
                    return Err(e);
                },
            }
            i += 1;
        }
        Ok(())
    }

    /// Drops the variables of the scopes inside of the first `depth` ones, which control leaves
    /// here.
    pub fn leave_inner(&mut self, fuel: usize, depth: usize) -> (r: Result<(), CodegenError>)
        ensures
            (r.model(), final(self)@) == leave_inner(old(self)@, fuel as nat, depth),
            stays(old(self)@, final(self)@),
            settled(old(self)@, final(self)@),
            confined(old(self)@.out.cur, final(self)@.out.cur),
            same_variables(old(self)@, final(self)@),
            final(self)@.fun == old(self)@.fun,
    {
        proof {
            broadcast use crate::growth::group_growth;

            count_from(old(self)@);
            reveal(leave_inner);
        }
        self.leave_scopes(fuel, &scopes_from(&self.fun.scopes, depth))
    }

    /// Closes the scope of a block; a variable that is its value is not dropped.
    pub fn close_block(&mut self, fuel: usize, b: &Block) -> (r: Result<(), CodegenError>)
        ensures
            (r.model(), final(self)@) == close_block(old(self)@, fuel as nat, b@),
            stays(old(self)@, final(self)@),
            r is Ok ==> same_variables(old(self)@, final(self)@),
            r is Ok ==> closed_block(old(self)@, final(self)@),
            r is Ok ==> confined(old(self)@.out.cur, final(self)@.out.cur),
    {
        proof {
            broadcast use crate::growth::group_growth;

            count_from(old(self)@);
            reveal(close_block);
        }
        match &b.tail_expr {
            Some(tail) => {
                self.note_given(tail);
            },
            None => {},
        }
        self.exit_scope(fuel)
    }

    /// Drops the variables of a scope that still have their values, the last declared first.
    pub fn drop_scope(
        &mut self,
        fuel: usize,
        vars: &Vec<(String, Type, Val)>,
    ) -> (r: Result<(), CodegenError>)
        ensures
            (r.model(), final(self)@) == drop_scope(old(self)@, fuel as nat, vars.model()),
            stays(old(self)@, final(self)@),
            settled(old(self)@, final(self)@),
            confined(old(self)@.out.cur, final(self)@.out.cur),
            same_variables(old(self)@, final(self)@),
            final(self)@.fun == old(self)@.fun,
    {
        proof {
            broadcast use crate::growth::group_growth;

            count_from(old(self)@);
            reveal(drop_scope);
            reveal(drop_scope_each);
        }
        let mut i: usize = 0;
        while i < vars.len()
            invariant
                i <= vars@.len(),
                drop_scope_each(
                    self@,
                    fuel as nat,
                    vars.model(),
                    i as nat,
                ) == drop_scope(old(self)@, fuel as nat, vars.model()),
                stays(old(self)@, self@),
                settled(old(self)@, self@),
                confined(old(self)@.out.cur, self@.out.cur),
                same_variables(old(self)@, self@),
                self@.fun == old(self)@.fun,
            decreases vars@.len() - i,
        {
            proof {
                broadcast use crate::growth::group_growth;

                count_from(old(self)@);
                reveal(drop_scope);
                reveal(drop_scope_each);
            }
            let v = &vars[vars.len() - 1 - i];
            if !self.fun.moved.contains(&v.0) && !self.fun.given.contains_key(&v.0) {
                if self.env.has_drop_glue(&v.1) {
                    match self.drop_variable(fuel, &v.1, &v.2) {
                        Ok(_) => {},
                        Err(e) => {
                            return Err(e);
                        },
                    }
                }
            }
            i += 1;
        }
        Ok(())
    }

    /// Takes `name` out of the innermost scope.
    pub fn forget_in_scope(&mut self, name: &str)
        ensures
            final(self)@ == forget_in_scope(old(self)@, name@),
            stays(old(self)@, final(self)@),
            settled(old(self)@, final(self)@),
            confined(old(self)@.out.cur, final(self)@.out.cur),
            same_variables(old(self)@, final(self)@),
    {
        proof {
            broadcast use crate::growth::group_growth;

            count_from(old(self)@);
            reveal(outer_kept);
            reveal(inner_left);
            reveal(forget_in_scope);
        }
        let subject = last_element(&self.fun.scopes);
        match &subject {
            Some(vars) => {
                let kept = without_name(vars, name);
                drop_end(&mut self.fun.scopes);
                let ghost prior = self.fun.scopes.model();
                let item = kept.dup();
                self.fun.scopes.push(item);
                proof {
                    assert(self.fun.scopes.model() =~= prior.push(item.model()));
                }
            },
            None => {},
        }
    }

    /// Adds a variable to the innermost scope; it has its value.
    pub fn note_in_scope(&mut self, name: &str, ty: &Type, ptr: &Val)
        ensures
            final(self)@ == note_in_scope(old(self)@, name@, ty@, ptr@),
            stays(old(self)@, final(self)@),
            settled(old(self)@, final(self)@),
            confined(old(self)@.out.cur, final(self)@.out.cur),
            same_variables(old(self)@, final(self)@),
    {
        proof {
            broadcast use crate::growth::group_growth;

            count_from(old(self)@);
            reveal(outer_kept);
            reveal(inner_left);
            reveal(note_in_scope);
        }
        self.fun.given.remove(name);
        let subject = last_element(&self.fun.scopes);
        match &subject {
            Some(vars) => {
                let mut more = vars.dup();
                let ghost prior = more.model();
                let item = (name.to_owned(), ty.clone(), ptr.clone());
                more.push(item);
                proof {
                    assert(more.model() =~= prior.push(item.model()));
                }
                drop_end(&mut self.fun.scopes);
                let ghost prior2 = self.fun.scopes.model();
                let item2 = more.dup();
                self.fun.scopes.push(item2);
                proof {
                    assert(self.fun.scopes.model() =~= prior2.push(item2.model()));
                }
            },
            None => {},
        }
    }

    /// Drops the variable that a new one of the same name hides.
    pub fn drop_shadowed(&mut self, fuel: usize, name: &str) -> (r: Result<(), CodegenError>)
        ensures
            (r.model(), final(self)@) == drop_shadowed(old(self)@, fuel as nat, name@),
            stays(old(self)@, final(self)@),
            r is Ok ==> settled(old(self)@, final(self)@),
            r is Ok ==> confined(old(self)@.out.cur, final(self)@.out.cur),
            r is Ok ==> same_variables(old(self)@, final(self)@),
    {
        proof {
            broadcast use crate::growth::group_growth;

            count_from(old(self)@);
            reveal(drop_shadowed);
        }
        let subject = self.fun.symbols.get_dup(name);
        match &subject {
            Some(v) => {
                if self.env.has_drop_glue(&v.2) {
                    match self.drop_variable(fuel, &v.2, &v.0) {
                        Ok(_) => {},
                        Err(e) => {
                            return Err(e);
                        },
                    }
                }
                self.forget_in_scope(name);
                return Ok(());
            },
            None => {
                return Ok(());
            },
        }
    }

    /// A variable that is used as a whole is moved out of, unless its type is Copy.
    pub fn note_move(&mut self, init: &Expr)
        ensures
            final(self)@ == note_move(old(self)@, init@),
            stays(old(self)@, final(self)@),
            settled(old(self)@, final(self)@),
            confined(old(self)@.out.cur, final(self)@.out.cur),
            same_variables(old(self)@, final(self)@),
            final(self)@ == (
                State {
                    fun: FunView { moved: final(self)@.fun.moved, ..old(self)@.fun },
                    ..old(self)@
                }
            ),
    {
        proof {
            broadcast use crate::growth::group_growth;

            count_from(old(self)@);
            reveal(note_move);
        }
        match init {
            Expr::Ident(name, _) => {
                if !self.env.is_copy_type(&self.expr_type(init)) {
                    let ghost past = self@.fun.moved;
                    self.fun.moved.insert(name.clone());
                    proof {
                        assert(within(past, self@.fun.moved)) by {
                            reveal(within);
                        }
                    }
                }
            },
            _ => {},
        }
    }

    /// A variable whose value goes elsewhere is not dropped where it was declared, unless its type
    /// is Copy.
    pub fn note_given(&mut self, e: &Expr)
        ensures
            final(self)@ == note_given(old(self)@, e@),
            stays(old(self)@, final(self)@),
            settled(old(self)@, final(self)@),
            confined(old(self)@.out.cur, final(self)@.out.cur),
            same_variables(old(self)@, final(self)@),
            final(self)@ == (
                State {
                    fun: FunView { given: final(self)@.fun.given, ..old(self)@.fun },
                    ..old(self)@
                }
            ),
    {
        proof {
            broadcast use crate::growth::group_growth;

            count_from(old(self)@);
            reveal(note_given);
        }
        match e {
            Expr::Ident(name, _) => {
                if !self.env.is_copy_type(&self.expr_type(e)) {
                    self.fun.given.insert(name.clone(), true);
                }
            },
            _ => {},
        }
    }

    /// Variables whose values go elsewhere are not dropped where they were declared, unless their
    /// types are Copy.
    pub fn note_all_given(&mut self, es: &Vec<Expr>)
        ensures
            final(self)@ == note_all_given(old(self)@, expr_seq_view(es@)),
            stays(old(self)@, final(self)@),
            settled(old(self)@, final(self)@),
            confined(old(self)@.out.cur, final(self)@.out.cur),
            same_variables(old(self)@, final(self)@),
    {
        proof {
            broadcast use crate::growth::group_growth;

            count_from(old(self)@);
            reveal(note_all_given);
            reveal(note_all_given_each);
        }
        let mut i: usize = 0;
        while i < es.len()
            invariant
                i <= es@.len(),
                note_all_given_each(
                    self@,
                    expr_seq_view(es@),
                    i as nat,
                ) == note_all_given(old(self)@, expr_seq_view(es@)),
                stays(old(self)@, self@),
                settled(old(self)@, self@),
                confined(old(self)@.out.cur, self@.out.cur),
                same_variables(old(self)@, self@),
            decreases es@.len() - i,
        {
            proof {
                broadcast use crate::growth::group_growth;

                count_from(old(self)@);
                reveal(note_all_given);
                reveal(note_all_given_each);
            }
            let e = &es[i];
            proof {
                assert(expr_seq_view(es@)[i as int] == expr_view(es@[i as int]));
            }
            self.note_given(e);
            i += 1;
        }

    }

    /// Declares a function. The first declaration of a name counts; its types are kept for calls.
    pub fn declare_function(&mut self, f: &Function) -> (r: Result<(), CodegenError>)
        ensures
            (r.model(), final(self)@) == declare_function(old(self)@, f@),
            stays(old(self)@, final(self)@),
            r is Ok ==> settled(old(self)@, final(self)@),
            r is Ok ==> confined(old(self)@.out.cur, final(self)@.out.cur),
            r is Ok ==> same_variables(old(self)@, final(self)@),
            r is Ok ==> final(self)@.out.decls.contains_key(f.name@),
    {
        proof {
            broadcast use crate::growth::group_growth;

            count_from(old(self)@);
            reveal(declare_function);
        }
        let fresh = match self.env.function_signature(f) {
            Ok(v) => v,
            Err(e) => {
                return Err(e);
            },
        };
        let (force, forbid) = match inline_request(&f.attribs) {
            Ok(v) => v,
            Err(e) => {
                return Err(e);
            },
        };
        if force && forbid {
            return Err(
                CodegenError::with_span(
                    "conflicting 'inline' attributes".to_owned(),
                    inline_span(&f.attribs, f.span),
                ),
            );
        }
        let subject = self.out.decls.get_dup(&f.name);
        let sig: FnSig = match &subject {
            Some(known) => {
                let sig = known.clone();
                sig
            },
            None => {
                let sig = fresh.clone();
                let ghost prior = texts(self.out.fn_order@);
                let item = f.name.clone();
                let ghost past = self@.out;
                self.out.fn_order.push(item);
                proof {
                    assert(grown(past, self@.out)) by {
                        reveal(grown);
                    }
                    lemma_returned_more(past, self@.out);
                }
                proof {
                    assert(texts(self.out.fn_order@) =~= prior.push(item@));
                }
                sig
            },
        };
        if force {
            let ghost past4 = self@.out;
            self.out.decls.insert(
                f.name.clone(),
                FnSig {
                    inlining: Inlining::Always,
                    params: dup_l_ty_seq(&sig.params),
                    ret: sig.ret.dup(),
                    variadic: sig.variadic,
                    noreturn: sig.noreturn,
                },
            );
            proof {
                assert(grown(past4, self@.out)) by {
                    reveal(grown);
                }
                lemma_returned_more(past4, self@.out);
            }
        } else if forbid {
            let ghost past3 = self@.out;
            self.out.decls.insert(
                f.name.clone(),
                FnSig {
                    inlining: Inlining::Never,
                    params: dup_l_ty_seq(&sig.params),
                    ret: sig.ret.dup(),
                    variadic: sig.variadic,
                    noreturn: sig.noreturn,
                },
            );
            proof {
                assert(grown(past3, self@.out)) by {
                    reveal(grown);
                }
                lemma_returned_more(past3, self@.out);
            }
        } else {
            let ghost past2 = self@.out;
            self.out.decls.insert(f.name.clone(), sig.clone());
            proof {
                assert(grown(past2, self@.out)) by {
                    reveal(grown);
                }
                lemma_returned_more(past2, self@.out);
            }
        }
        proof {
            if well_listed(old(self)@) {
                if old(self)@.out.decls.contains_key(f.name@) {
                    assert(self@.out.decls.dom() =~= old(self)@.out.decls.dom());
                } else {
                    lemma_listed_push(old(self)@.out.fn_order, old(self)@.out.decls.dom(), f.name@);
                }
                reveal(within);
            }
        }
        self.note_types(f);
        Ok(())
    }

    /// Keeps the types of a function for calls of it.
    pub fn note_types(&mut self, f: &Function)
        ensures
            final(self)@ == note_types(old(self)@, f@),
            stays(old(self)@, final(self)@),
            settled(old(self)@, final(self)@),
            confined(old(self)@.out.cur, final(self)@.out.cur),
            same_variables(old(self)@, final(self)@),
            final(self)@.out == old(self)@.out,
    {
        proof {
            broadcast use crate::growth::group_growth;

            count_from(old(self)@);
            reveal(note_types);
        }
        let ghost past = self@.env;
        self.env.fn_return_types.insert(f.name.clone(), return_or(f, &Type::I32));
        proof {
            assert(fields_kept(past, self@.env)) by {
                reveal(fields_kept);
            }
        }
        let ghost past2 = self@.env;
        self.env.fn_param_types.insert(f.name.clone(), types_of_params(&f.params));
        proof {
            assert(fields_kept(past2, self@.env)) by {
                reveal(fields_kept);
            }
        }
    }
}

} // verus!
