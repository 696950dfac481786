//! Code for calls.
use crate::ast::{Expr, Type};
use crate::bodies::{monomorphize_generic_function, monomorphize_generic_method};
use crate::builder::{cast, elem_ptr, extract, field_ptr, int_const, make_fat, mk_int, spill};
use crate::casts::{as_ptr, as_ptr_spec, const_value_to_llvm};
use crate::consts::eval_associated_const;
use crate::exprs::compile_args_vec;
use crate::growth::{confined, count_from, same_variables, settled, stays};
use crate::infer::{
    asks_for_size, asks_size, element_of_slice, find_generic_method, find_method, is_str_ref,
    is_str_reference, mangled_method_name, method_name, qualified, qualified_name, slice_element,
    ty_all, ty_of,
};
use crate::ir::{
    CastKind, LTy, LTyView, Operand, OperandView, Val, ValView, dup_val_seq, val_seq_view,
};
use crate::model::{ExprView, TypeView, expr_seq_view, expr_view, span_of, type_seq_view, type_view};
use crate::names::{show_type, type_text};
use crate::nesting::{Nested, nested, nested_expr, nested_slice};
use crate::places::{
    array_parts, as_int, as_int_spec, coerce_all, coerce_param, const_at, declared, drops_itself,
    element_pair, field_number, in_memory, is_aggregate, is_aggregate_spec, method_receiver_name,
    method_receiver_name_spec, module_function, move_args, resolve_function, takes_fat_receiver,
    variable_ptr,
};
use crate::query::{actual_name, array_type, lower_array, lower_type};
use crate::scopes::{call_fitted, note_given, struct_name_of, struct_name_of_spec};
use crate::state::{CodeGen, CodegenError, Env, EnvView, ErrorView, State, err, err_at};
use crate::table::{Model, at};
use crate::text::{cat3, same};
use crate::token::Span;
use crate::visible::check_path;
use vstd::prelude::*;

verus! {

broadcast use crate::lists::group_list_views;

/// The size of a type in bytes.
#[verifier::opaque]
pub open spec fn size_of_type(s: EnvView, ty: TypeView) -> Result<ValView, ErrorView> {
    match lower_type(s, ty) {
        Ok(lty) => Ok(ValView { op: OperandView::SizeOf(lty), ty: LTyView::Int(64) }),
        Err(e) => Err(e),
    }
}

/// The type whose size a call asks for.
#[verifier::opaque]
pub open spec fn sized_type_spec(callee: Seq<char>, type_args: Seq<TypeView>) -> Option<TypeView> {
    if asks_size(callee, (type_args.len() as usize) as nat) && ((type_args.len() as usize) > 0) {
        Some(type_args[0])
    } else {
        None
    }
}

/// A call of a function by its name.
#[verifier::opaque]
pub open spec fn compile_call(s: State, k: Nested, e: ExprView) -> (
    Result<ValView, ErrorView>,
    State,
) {
    match e {
        ExprView::Call { callee, args, type_args, .. } => {
            match check_path(s.env, s.fun.here, callee) {
                Ok(_) => {
                    match sized_type_spec(callee, type_args) {
                        Some(ty) => (size_of_type(s.env, ty), s),
                        None => {
                            if (callee == "transmute"@) && ((args.len() as usize) == 1) {
                                nested_expr(s, k, args[0])
                            } else {
                                match compile_slice_intrinsic(s, k, callee, args) {
                                    (Ok(done), s) => {
                                        match done {
                                            Some(r) => (Ok(r), s),
                                            None => {
                                                match called_function(
                                                    s,
                                                    k,
                                                    callee,
                                                    ty_all(s, args),
                                                    type_args,
                                                    span_of(e),
                                                ) {
                                                    (Ok(f), s) => {
                                                        match compile_args_vec(s, k, args) {
                                                            (Ok(vals), s) => {
                                                                let key = typed_name(
                                                                    s.env,
                                                                    f,
                                                                    callee,
                                                                );
                                                                match coerce_all(
                                                                    s,
                                                                    args,
                                                                    vals,
                                                                    key,
                                                                ) {
                                                                    (Ok(coerced), s) => {
                                                                        match call_fitted(
                                                                            s,
                                                                            f,
                                                                            coerced,
                                                                        ) {
                                                                            (Ok(r), s) => {
                                                                                let s = move_args(
                                                                                    s,
                                                                                    args,
                                                                                    key,
                                                                                );
                                                                                (Ok(r), s)
                                                                            },
                                                                            (Err(e), s) => (Err(e), s),
                                                                        }
                                                                    },
                                                                    (Err(e), s) => (Err(e), s),
                                                                }
                                                            },
                                                            (Err(e), s) => (Err(e), s),
                                                        }
                                                    },
                                                    (Err(e), s) => (Err(e), s),
                                                }
                                            },
                                        }
                                    },
                                    (Err(e), s) => (Err(e), s),
                                }
                            }
                        },
                    }
                },
                Err(e) => (Err(e), s),
            }
        },
        _ => (Err(err("internal: not a call"@)), s),
    }
}

/// The name under which the parameter types of a called function are known.
#[verifier::opaque]
pub open spec fn typed_name(s: EnvView, f: Seq<char>, callee: Seq<char>) -> Seq<char> {
    if s.fn_param_types.contains_key(f) {
        f
    } else {
        callee
    }
}

/// The function that a call means: a declared one, one of the same module, or an instance of a
/// generic one.
#[verifier::opaque]
pub open spec fn called_function(
    s: State,
    k: Nested,
    callee: Seq<char>,
    arg_tys: Seq<TypeView>,
    type_args: Seq<TypeView>,
    place: Span,
) -> (Result<Seq<char>, ErrorView>, State) {
    match resolve_function(s, callee, arg_tys) {
        Some(f) => (Ok(f), s),
        None => {
            match resolve_in_module(s, callee, arg_tys) {
                Some(f) => (Ok(f), s),
                None => {
                    match at(s.env.generic_funcs, callee) {
                        Some(g) => {
                            match monomorphize_generic_function(s, k, g, arg_tys, type_args) {
                                (Ok(name), s) => {
                                    match resolve_function(s, name, arg_tys) {
                                        Some(f) => (Ok(f), s),
                                        None => (
                                            Err(
                                                err(
                                                    "failed to resolve monomorphized function '"@
                                                        + name + "'"@,
                                                ),
                                            ),
                                            s,
                                        ),
                                    }
                                },
                                (Err(e), s) => (Err(e), s),
                            }
                        },
                        None => (Err(err_at(("unknown function '"@ + callee + "'"@), place)), s),
                    }
                },
            }
        },
    }
}

/// The function of the module that is being compiled that a name without a path stands for.
#[verifier::opaque]
pub open spec fn resolve_in_module(
    s: State,
    callee: Seq<char>,
    arg_tys: Seq<TypeView>,
) -> Option<Seq<char>> {
    match module_function(s, callee) {
        Some(name) => resolve_function(s, name, arg_tys),
        None => None,
    }
}

/// A call of a slice function that the compiler provides; nothing for other functions.
#[verifier::opaque]
pub open spec fn compile_slice_intrinsic(
    s: State,
    k: Nested,
    callee: Seq<char>,
    args: Seq<ExprView>,
) -> (Result<Option<ValView>, ErrorView>, State) {
    if (callee == "slice_index"@) && ((args.len() as usize) == 2) {
        match indexed_in_place(s, k, callee, args) {
            (Ok(p), s) => (Ok(Some(p)), s),
            (Err(e), s) => (Err(e), s),
        }
    } else if (callee == "slice_index_mut"@) && ((args.len() as usize) == 2) {
        match indexed_in_place(s, k, callee, args) {
            (Ok(p), s) => (Ok(Some(p)), s),
            (Err(e), s) => (Err(e), s),
        }
    } else if (callee == "slice_as_ptr"@) && ((args.len() as usize) == 1) {
        match nested_expr(s, k, args[0]) {
            (Ok(v), s) => {
                match as_ptr_spec(v) {
                    Ok(p) => {
                        let (got8, s) = cast(s, CastKind::Bit, p, LTyView::Ptr);
                        (Ok(Some(got8)), s)
                    },
                    Err(e) => (Err(e), s),
                }
            },
            (Err(e), s) => (Err(e), s),
        }
    } else if (
        (callee == "slice_from_raw_parts"@) || (callee == "slice_from_raw_parts_mut"@)
    ) && ((args.len() as usize) == 2) {
        match nested_expr(s, k, args[0]) {
            (Ok(v), s) => {
                match nested_expr(s, k, args[1]) {
                    (Ok(n), s) => {
                        match as_int_spec(n) {
                            Ok(len) => {
                                match as_ptr_spec(v) {
                                    Ok(p) => {
                                        let (got15, s) = make_fat(s, p, len);
                                        (Ok(Some(got15)), s)
                                    },
                                    Err(e) => (Err(e), s),
                                }
                            },
                            Err(e) => (Err(e), s),
                        }
                    },
                    (Err(e), s) => (Err(e), s),
                }
            },
            (Err(e), s) => (Err(e), s),
        }
    } else {
        (Ok(None), s)
    }
}

/// The address of an element of an array behind a reference.
#[verifier::opaque]
pub open spec fn indexed_in_place(
    s: State,
    k: Nested,
    callee: Seq<char>,
    args: Seq<ExprView>,
) -> (Result<ValView, ErrorView>, State) {
    if (args.len() as usize) == 2 {
        match nested_expr(s, k, args[0]) {
            (Ok(v), s) => {
                match nested_expr(s, k, args[1]) {
                    (Ok(i), s) => {
                        match as_ptr_spec(v) {
                            Ok(p) => {
                                match as_int_spec(i) {
                                    Ok(n) => {
                                        match array_reference_spec(ty_of(s, args[0]), callee) {
                                            Ok((elem, len)) => {
                                                match lower_type(s.env, elem) {
                                                    Ok(elem_lty) => {
                                                        match lower_array(elem_lty, len as u32) {
                                                            Ok(lty) => {
                                                                let (got10, s) = elem_ptr(
                                                                    s,
                                                                    lty,
                                                                    p,
                                                                    seq![int_const(64, 0), n],
                                                                );
                                                                (Ok(got10), s)
                                                            },
                                                            Err(e) => (Err(e), s),
                                                        }
                                                    },
                                                    Err(e) => (Err(e), s),
                                                }
                                            },
                                            Err(e) => (Err(e), s),
                                        }
                                    },
                                    Err(e) => (Err(e), s),
                                }
                            },
                            Err(e) => (Err(e), s),
                        }
                    },
                    (Err(e), s) => (Err(e), s),
                }
            },
            (Err(e), s) => (Err(e), s),
        }
    } else {
        (Err(err("internal: two arguments are expected"@)), s)
    }
}

/// The element type and the length of an array behind a reference.
#[verifier::opaque]
pub open spec fn array_reference_spec(
    ty: TypeView,
    callee: Seq<char>,
) -> Result<(TypeView, usize), ErrorView> {
    if ty is Ref {
        match array_parts(ty) {
            Some(pair) => Ok(pair),
            None => Err(err(callee + ": expected reference to array, got "@ + type_text(ty))),
        }
    } else {
        Err(err(callee + ": expected reference to array, got "@ + type_text(ty)))
    }
}

/// A call of a function of a type or a module, or an associated constant that is written like one.
#[verifier::opaque]
pub open spec fn compile_qualified_call(s: State, k: Nested, e: ExprView) -> (
    Result<ValView, ErrorView>,
    State,
) {
    match e {
        ExprView::QualifiedCall { module, callee, args, type_args, .. } => {
            match sized_type_spec(callee, type_args) {
                Some(ty) => (size_of_type(s.env, ty), s),
                None => {
                    match named_const(
                        s.env,
                        module,
                        callee,
                        args.len() as usize,
                        type_args.len() as usize,
                    ) {
                        Some(d) => {
                            match eval_associated_const(s, k.fuel, module, callee) {
                                (Ok(c), s) => (const_value_to_llvm(s.env, c, d.1), s),
                                (Err(e), s) => (Err(e), s),
                            }
                        },
                        None => {
                            let path = qualified(module, callee);
                            match check_path(s.env, s.fun.here, path) {
                                Ok(_) => {
                                    match qualified_function(
                                        s,
                                        k,
                                        module,
                                        callee,
                                        ty_all(s, args),
                                        type_args,
                                    ) {
                                        (Ok(f), s) => {
                                            match compile_args_vec(s, k, args) {
                                                (Ok(vals), s) => {
                                                    match coerce_all(s, args, vals, f) {
                                                        (Ok(coerced), s) => {
                                                            match call_fitted(s, f, coerced) {
                                                                (Ok(r), s) => {
                                                                    let s = move_args(s, args, f);
                                                                    (Ok(r), s)
                                                                },
                                                                (Err(e), s) => (Err(e), s),
                                                            }
                                                        },
                                                        (Err(e), s) => (Err(e), s),
                                                    }
                                                },
                                                (Err(e), s) => (Err(e), s),
                                            }
                                        },
                                        (Err(e), s) => (Err(e), s),
                                    }
                                },
                                Err(e) => (Err(e), s),
                            }
                        },
                    }
                },
            }
        },
        _ => (Err(err("internal: not a call"@)), s),
    }
}

/// The associated constant that a call without arguments stands for, if it does.
#[verifier::opaque]
pub open spec fn named_const(
    s: EnvView,
    owner: Seq<char>,
    name: Seq<char>,
    n_args: usize,
    n_types: usize,
) -> Option<(ExprView, TypeView)> {
    if (n_args == 0) && (n_types == 0) {
        const_at(s, owner, name)
    } else {
        None
    }
}

/// The declared function of a type or a module.
#[verifier::opaque]
pub open spec fn declared_member(
    s: State,
    module: Seq<char>,
    callee: Seq<char>,
    arg_tys: Seq<TypeView>,
) -> Option<Seq<char>> {
    let n = arg_tys.len() as usize;
    let path = qualified(module, callee);
    if s.out.decls.contains_key(path) {
        Some(path)
    } else {
        let counted = method_name(module, callee, n as nat);
        if s.out.decls.contains_key(counted) {
            Some(counted)
        } else {
            let instance = method_name(actual_name(s, module), callee, n as nat);
            if s.out.decls.contains_key(instance) {
                Some(instance)
            } else {
                match resolve_function(s, path, arg_tys) {
                    Some(f) => Some(f),
                    None => {
                        match resolve_function(s, counted, arg_tys) {
                            Some(f) => Some(f),
                            None => {
                                match find_method(s.env, module, callee) {
                                    Some(f) => declared(s, f),
                                    None => None,
                                }
                            },
                        }
                    },
                }
            }
        }
    }
}

/// The function of a type or a module that a call means; an instance of a generic function, where
/// none is declared.
#[verifier::opaque]
pub open spec fn qualified_function(
    s: State,
    k: Nested,
    module: Seq<char>,
    callee: Seq<char>,
    arg_tys: Seq<TypeView>,
    type_args: Seq<TypeView>,
) -> (Result<Seq<char>, ErrorView>, State) {
    match declared_member(s, module, callee, arg_tys) {
        Some(f) => (Ok(f), s),
        None => {
            match at(s.env.generic_funcs, callee) {
                Some(g) => {
                    let (got, s) = monomorphize_generic_function(s, k, g, arg_tys, type_args);
                    match got {
                        Ok(name) => {
                            if s.out.decls.contains_key(name) {
                                (Ok(name), s)
                            } else {
                                (
                                    Err(
                                        err(
                                            "unknown function '"@ + qualified(module, callee)
                                                + "'"@,
                                        ),
                                    ),
                                    s,
                                )
                            }
                        },
                        Err(problem) => (
                            Err(err("unknown function '"@ + qualified(module, callee) + "'"@)),
                            s,
                        ),
                    }
                },
                None => (Err(err("unknown function '"@ + qualified(module, callee) + "'"@)), s),
            }
        },
    }
}

/// A call of a method.
#[verifier::opaque]
pub open spec fn compile_method_call(s: State, k: Nested, e: ExprView) -> (
    Result<ValView, ErrorView>,
    State,
) {
    match e {
        ExprView::MethodCall { expr: receiver, method, args, type_args, .. } => {
            let ty = ty_of(s, *receiver);
            if (method == "drop"@) && drops_itself(s.env, ty) {
                (Err(err("cannot call Drop::drop directly, use std::mem::drop()"@)), s)
            } else {
                match fat_method_spec(ty, method, args.len() as usize) {
                    Some((slot_no, msg)) => {
                        match nested_expr(s, k, *receiver) {
                            (Ok(v), s) => fat_part(s, v, slot_no, msg),
                            (Err(e), s) => (Err(e), s),
                        }
                    },
                    None => {
                        match prepare_receiver(s, k, ty) {
                            (Ok(_), s) => {
                                match method_receiver_name_spec(ty, method, span_of(e)) {
                                    Ok(owner) => {
                                        match called_method(
                                            s,
                                            k,
                                            owner,
                                            method,
                                            ty,
                                            ty_all(s, args),
                                            type_args,
                                            span_of(e),
                                        ) {
                                            (Ok(f), s) => {
                                                match check_path(s.env, s.fun.here, f) {
                                                    Ok(_) => {
                                                        if !s.out.decls.contains_key(f) {
                                                            (
                                                                Err(
                                                                    err(
                                                                        "internal: method '"@ + f
                                                                            + "' not found in module"@,
                                                                    ),
                                                                ),
                                                                s,
                                                            )
                                                        } else {
                                                            call_method(s, k, e, f)
                                                        }
                                                    },
                                                    Err(e) => (Err(e), s),
                                                }
                                            },
                                            (Err(e), s) => (Err(e), s),
                                        }
                                    },
                                    Err(e) => (Err(e), s),
                                }
                            },
                            (Err(e), s) => (Err(e), s),
                        }
                    },
                }
            }
        },
        _ => (Err(err("internal: not a method call"@)), s),
    }
}

/// The part of a pointer with a length that a method gives, and what is said where there is none.
#[verifier::opaque]
pub open spec fn fat_method_spec(
    ty: TypeView,
    method: Seq<char>,
    n: usize,
) -> Option<(u32, Seq<char>)> {
    if (n == 0) && (method == "len"@) && (is_str_ref(ty) || (slice_element(ty) is Some)) {
        Some((1, "cannot call .len() on a non-fat-pointer value"@))
    } else if (n == 0) && (method == "as_ptr"@) && (slice_element(ty) is Some) {
        Some((0, "cannot call .as_ptr() on a non-fat-pointer value"@))
    } else {
        None
    }
}

/// Makes the methods of an array, or of one behind a reference, that a method is called on.
#[verifier::opaque]
pub open spec fn prepare_receiver(
    s: State,
    k: Nested,
    ty: TypeView,
) -> (Result<(), ErrorView>, State) {
    match array_parts(ty) {
        Some((elem, n)) => nested_slice(s, k, elem, n),
        None => (Ok(()), s),
    }
}

/// The pointer or the length in a pointer with a length.
#[verifier::opaque]
pub open spec fn fat_part(
    s: State,
    v: ValView,
    slot_no: u32,
    msg: Seq<char>,
) -> (Result<ValView, ErrorView>, State) {
    if !is_aggregate_spec(v.ty) {
        (Err(err(msg)), s)
    } else {
        let (got, s) = extract(s, v, slot_no);
        match got {
            Some(r) => (Ok(r), s),
            None => (
                Err(err("failed to extract length: Aggregate extract index out of range"@)),
                s,
            ),
        }
    }
}

/// A type and then other types.
#[verifier::opaque]
pub open spec fn with_first_spec(ty: TypeView, rest: Seq<TypeView>) -> Seq<TypeView> {
    let out = seq![ty];
    with_first_spec_each(rest, out, 0)
}

/// [`with_first_spec`] from element `i` on.
#[verifier::opaque]
pub open spec fn with_first_spec_each(
    rest: Seq<TypeView>,
    out: Seq<TypeView>,
    i: nat,
) -> Seq<TypeView>
    decreases rest.len() - i,
{
    if i < rest.len() {
        let t = rest[i as int];
        let out = out.push(t);
        with_first_spec_each(rest, out, i + 1)
    } else {
        out
    }
}

/// The function that a method call means: an instance of a generic method, or a registered one.
#[verifier::opaque]
pub open spec fn called_method(
    s: State,
    k: Nested,
    owner: Seq<char>,
    method: Seq<char>,
    ty: TypeView,
    arg_tys: Seq<TypeView>,
    type_args: Seq<TypeView>,
    place: Span,
) -> (Result<Seq<char>, ErrorView>, State) {
    match find_generic_method(s.env, owner, method) {
        Some(g) => {
            monomorphize_generic_method(s, k, owner, g, with_first_spec(ty, arg_tys), type_args)
        },
        None => {
            match find_method(s.env, owner, method) {
                Some(f) => (Ok(f), s),
                None => {
                    (
                        Err(
                            err_at(
                                ("type '"@ + owner + "' has no method '"@ + method + "'"@),
                                place,
                            ),
                        ),
                        s,
                    )
                },
            }
        },
    }
}

/// Calls a method: the receiver is passed by its address, or as a pointer with a length.
#[verifier::opaque]
pub open spec fn call_method(
    s: State,
    k: Nested,
    e: ExprView,
    f: Seq<char>,
) -> (Result<ValView, ErrorView>, State) {
    match e {
        ExprView::MethodCall { expr: receiver, args, .. } => {
            match nested_expr(s, k, *receiver) {
                (Ok(v), s) => {
                    if is_on_field(s, v, *receiver, f) {
                        call_on_field(s, k, e, f)
                    } else {
                        match receiver_value(s, v, *receiver, f, span_of(e)) {
                            (Ok(first), s) => {
                                match compile_method_args(s, k, args, first, f) {
                                    (Ok(vals), s) => {
                                        match call_fitted(s, f, vals) {
                                            (Ok(r), s) => {
                                                let s = give_receiver(s, *receiver, args, f);
                                                (Ok(r), s)
                                            },
                                            (Err(e), s) => (Err(e), s),
                                        }
                                    },
                                    (Err(e), s) => (Err(e), s),
                                }
                            },
                            (Err(e), s) => (Err(e), s),
                        }
                    }
                },
                (Err(e), s) => (Err(e), s),
            }
        },
        _ => (Err(err("internal: not a method call"@)), s),
    }
}

/// Whether a method is called on a named field of a struct behind a reference.
#[verifier::opaque]
pub open spec fn is_on_field(s: State, v: ValView, receiver: ExprView, f: Seq<char>) -> bool {
    if takes_fat_receiver(s.env, f) || (v.ty is Ptr) {
        false
    } else {
        match receiver {
            ExprView::Member { expr: inner, field, .. } => {
                ((field is Some) && (struct_behind_ref_spec(ty_of(s, *inner)) is Some))
            },
            _ => false,
        }
    }
}

/// What a method gets for its receiver: a pointer with a length as it is, else the address of the
/// receiver.
#[verifier::opaque]
pub open spec fn receiver_value(
    s: State,
    v: ValView,
    receiver: ExprView,
    f: Seq<char>,
    place: Span,
) -> (Result<ValView, ErrorView>, State) {
    if takes_fat_receiver(s.env, f) || (v.ty is Ptr) {
        (Ok(v), s)
    } else {
        match receiver {
            ExprView::Ident(name, _) => (variable_ptr(s, name, place), s),
            _ => {
                let (got, s) = spill(s, v.ty, v);
                (Ok(got), s)
            },
        }
    }
}

/// The receiver and the arguments of a method that are passed by value go elsewhere, unless their
/// types are Copy.
#[verifier::opaque]
pub open spec fn give_receiver(
    s: State,
    receiver: ExprView,
    args: Seq<ExprView>,
    f: Seq<char>,
) -> State {
    match at(s.env.fn_param_types, f) {
        Some(tys) => {
            let s = if (tys.len() as usize) > 0 {
                if !(tys[0] is Ref || tys[0] is Ptr) {
                    note_given(s, receiver)
                } else {
                    s
                }
            } else {
                s
            };
            give_args(s, args, after_first_spec(tys))
        },
        None => s,
    }
}

/// Arguments that are passed by value go elsewhere, unless their types are Copy.
#[verifier::opaque]
pub open spec fn give_args(s: State, args: Seq<ExprView>, tys: Seq<TypeView>) -> State {
    give_args_each(s, args, tys, 0)
}

/// [`give_args`] from element `i` on.
#[verifier::opaque]
pub open spec fn give_args_each(s: State, args: Seq<ExprView>, tys: Seq<TypeView>, i: nat) -> State
    decreases args.len() - i,
{
    if i < args.len() {
        let a = args[i as int];
        let s = if (i as usize) < (tys.len() as usize) {
            if !(tys[i as int] is Ref || tys[i as int] is Ptr) {
                note_given(s, a)
            } else {
                s
            }
        } else {
            s
        };
        give_args_each(s, args, tys, i + 1)
    } else {
        s
    }
}

/// The types behind the first one.
#[verifier::opaque]
pub open spec fn after_first_spec(tys: Seq<TypeView>) -> Seq<TypeView> {
    let out = Seq::<TypeView>::empty();
    after_first_spec_each(tys, out, 0)
}

/// [`after_first_spec`] from element `i` on.
#[verifier::opaque]
pub open spec fn after_first_spec_each(
    tys: Seq<TypeView>,
    out: Seq<TypeView>,
    i: nat,
) -> Seq<TypeView>
    decreases tys.len() - i,
{
    if i < tys.len() {
        let t = tys[i as int];
        let out = if (i as usize) > 0 {
            out.push(t)
        } else {
            out
        };
        after_first_spec_each(tys, out, i + 1)
    } else {
        out
    }
}

/// The struct behind a reference, by its name and its type.
#[verifier::opaque]
pub open spec fn struct_behind_ref_spec(ty: TypeView) -> Option<(Seq<char>, TypeView)> {
    match ty {
        TypeView::Ref { inner, .. } => {
            match struct_name_of_spec(*inner) {
                Some(name) => Some((name, *inner)),
                None => None,
            }
        },
        _ => None,
    }
}

/// Calls a method on a field of a struct behind a reference, by the address of the field.
#[verifier::opaque]
pub open spec fn call_on_field(
    s: State,
    k: Nested,
    e: ExprView,
    f: Seq<char>,
) -> (Result<ValView, ErrorView>, State) {
    match e {
        ExprView::MethodCall { expr: receiver, args, .. } => {
            match (*receiver) {
                ExprView::Member { expr: inner, field, .. } => {
                    match field {
                        Some(name) => {
                            match struct_behind_ref_spec(ty_of(s, *inner)) {
                                Some((owner, ty)) => {
                                    match field_number(s.env, owner, name) {
                                        Ok(slot_no) => {
                                            match lower_type(s.env, ty) {
                                                Ok(lty) => {
                                                    match nested_expr(s, k, *inner) {
                                                        (Ok(v), s) => {
                                                            let (base, s) = in_memory(s, v);
                                                            let (got6, s) = field_ptr(
                                                                s,
                                                                lty,
                                                                base,
                                                                slot_no,
                                                            );
                                                            match got6 {
                                                                Some(p) => {
                                                                    match compile_method_args(
                                                                        s,
                                                                        k,
                                                                        args,
                                                                        p,
                                                                        f,
                                                                    ) {
                                                                        (Ok(vals), s) => {
                                                                            match call_fitted(s, f, vals) {
                                                                                (Ok(r), s) => {
                                                                                    let s = give_receiver(
                                                                                        s,
                                                                                        *receiver,
                                                                                        args,
                                                                                        f,
                                                                                    );
                                                                                    (Ok(r), s)
                                                                                },
                                                                                (Err(e), s) => (Err(e), s),
                                                                            }
                                                                        },
                                                                        (Err(e), s) => (Err(e), s),
                                                                    }
                                                                },
                                                                None => {
                                                                    (
                                                                        Err(
                                                                            err(
                                                                                "failed to build struct GEP for field '"@
                                                                                    + name
                                                                                    + "': GEP index out of range"@,
                                                                            ),
                                                                        ),
                                                                        s,
                                                                    )
                                                                },
                                                            }
                                                        },
                                                        (Err(e), s) => (Err(e), s),
                                                    }
                                                },
                                                Err(e) => (Err(e), s),
                                            }
                                        },
                                        Err(e) => (Err(e), s),
                                    }
                                },
                                None => (Err(err("internal: not a field of a struct"@)), s),
                            }
                        },
                        None => (Err(err("internal: not a named field"@)), s),
                    }
                },
                _ => (Err(err("internal: not a field"@)), s),
            }
        },
        _ => (Err(err("internal: not a method call"@)), s),
    }
}

/// The receiver and the arguments of a method call, each as its parameter wants it.
#[verifier::opaque]
pub open spec fn compile_method_args(
    s: State,
    k: Nested,
    args: Seq<ExprView>,
    first: ValView,
    f: Seq<char>,
) -> (Result<Seq<ValView>, ErrorView>, State) {
    let vals = seq![first];
    compile_method_args_each(s, k, args, f, vals, 0)
}

/// [`compile_method_args`] from element `i` on.
#[verifier::opaque]
pub open spec fn compile_method_args_each(
    s: State,
    k: Nested,
    args: Seq<ExprView>,
    f: Seq<char>,
    vals: Seq<ValView>,
    i: nat,
) -> (Result<Seq<ValView>, ErrorView>, State)
    decreases args.len() - i,
{
    if i < args.len() {
        let a = args[i as int];
        match nested_expr(s, k, a) {
            (Ok(v), s) => {
                match coerce_param(s, v, ty_of(s, a), f, (((i as usize) + 1) as usize)) {
                    (Ok(x), s) => {
                        let vals = vals.push(x);
                        compile_method_args_each(s, k, args, f, vals, i + 1)
                    },
                    (Err(e), s) => (Err(e), s),
                }
            },
            (Err(e), s) => (Err(e), s),
        }
    } else {
        (Ok(vals), s)
    }
}

/// The type whose size a call asks for.
pub fn sized_type(callee: &str, type_args: &Vec<Type>) -> (r: Option<Type>)
    ensures
        r.model() == sized_type_spec(callee@, type_seq_view(type_args@)),
{
    proof {
        reveal(sized_type_spec);
    }
    proof {
        assert(type_seq_view(type_args@).len() == type_args@.len());
    }
    proof {
        assert(type_seq_view(type_args@).len() == type_args@.len());
    }
    if asks_for_size(callee, type_args.len()) && (type_args.len() > 0) {
        proof {
            assert(type_seq_view(type_args@)[0] == type_view(type_args@[0]));
        }
        return Some(type_args[0].clone());
    }
    None
}

/// The element type and the length of an array behind a reference.
pub fn array_reference(ty: &Type, callee: &str) -> (r: Result<(Type, usize), CodegenError>)
    ensures
        r.model() == array_reference_spec(ty@, callee@),
{
    proof {
        reveal(array_reference_spec);
    }
    if matches!(ty, Type::Ref { .. }) {
        let subject = element_pair(ty);
        match &subject {
            Some(pair) => {
                return Ok(pair.dup());
            },
            None => {
                return Err(
                    CodegenError::new(
                        cat3(callee, ": expected reference to array, got ", &show_type(ty)),
                    ),
                );
            },
        }
    }
    Err(CodegenError::new(cat3(callee, ": expected reference to array, got ", &show_type(ty))))
}

/// The part of a pointer with a length that a method gives, and what is said where there is none.
pub fn fat_method(ty: &Type, method: &str, n: usize) -> (r: Option<(u32, String)>)
    ensures
        r.model() == fat_method_spec(ty@, method@, n),
{
    proof {
        reveal(fat_method_spec);
    }
    if (n == 0) && same(method, "len") && (
        is_str_reference(ty) || matches!(&element_of_slice(ty), Some(_))
    ) {
        return Some((1, "cannot call .len() on a non-fat-pointer value".to_owned()));
    }
    if (n == 0) && same(method, "as_ptr") && matches!(&element_of_slice(ty), Some(_)) {
        return Some((0, "cannot call .as_ptr() on a non-fat-pointer value".to_owned()));
    }
    None
}

/// A type and then other types.
pub fn with_first(ty: &Type, rest: &Vec<Type>) -> (r: Vec<Type>)
    ensures
        type_seq_view(r@) == with_first_spec(ty@, type_seq_view(rest@)),
{
    proof {
        reveal(with_first_spec);
        reveal(with_first_spec_each);
    }
    let mut items: Vec<Type> = Vec::new();
    let item = ty.clone();
    items.push(item);
    proof {
        assert(type_seq_view(items@) =~= seq![item@]);
    }
    let mut out = items;
    let mut i: usize = 0;
    while i < rest.len()
        invariant
            i <= rest@.len(),
            with_first_spec_each(
                type_seq_view(rest@),
                type_seq_view(out@),
                i as nat,
            ) == with_first_spec(ty@, type_seq_view(rest@)),
        decreases rest@.len() - i,
    {
        proof {
            reveal(with_first_spec);
            reveal(with_first_spec_each);
        }
        let t = &rest[i];
        proof {
            assert(type_seq_view(rest@)[i as int] == type_view(rest@[i as int]));
        }
        let ghost prior = type_seq_view(out@);
        let item2 = t.clone();
        out.push(item2);
        proof {
            assert(type_seq_view(out@) =~= prior.push(item2@));
        }
        i += 1;
    }
    out
}

/// The types behind the first one.
pub fn after_first(tys: &Vec<Type>) -> (r: Vec<Type>)
    ensures
        type_seq_view(r@) == after_first_spec(type_seq_view(tys@)),
{
    proof {
        reveal(after_first_spec);
        reveal(after_first_spec_each);
    }
    let items: Vec<Type> = Vec::new();
    proof {
        assert(type_seq_view(items@) =~= Seq::<TypeView>::empty());
    }
    let mut out = items;
    let mut i: usize = 0;
    while i < tys.len()
        invariant
            i <= tys@.len(),
            after_first_spec_each(
                type_seq_view(tys@),
                type_seq_view(out@),
                i as nat,
            ) == after_first_spec(type_seq_view(tys@)),
        decreases tys@.len() - i,
    {
        proof {
            reveal(after_first_spec);
            reveal(after_first_spec_each);
        }
        let t = &tys[i];
        proof {
            assert(type_seq_view(tys@)[i as int] == type_view(tys@[i as int]));
        }
        if i > 0 {
            let ghost prior = type_seq_view(out@);
            let item = t.clone();
            out.push(item);
            proof {
                assert(type_seq_view(out@) =~= prior.push(item@));
            }
        }
        i += 1;
    }
    out
}

/// The struct behind a reference, by its name and its type.
pub fn struct_behind_ref(ty: &Type) -> (r: Option<(String, Type)>)
    ensures
        r.model() == struct_behind_ref_spec(ty@),
{
    proof {
        reveal(struct_behind_ref_spec);
    }
    match ty {
        Type::Ref { inner, .. } => {
            let subject = struct_name_of(inner);
            match &subject {
                Some(name) => {
                    return Some((name.clone(), (**inner).clone()));
                },
                None => {
                    return None;
                },
            }
        },
        _ => {
            return None;
        },
    }
}

impl Env {
    /// The size of a type in bytes.
    pub fn size_of_type(&self, ty: &Type) -> (r: Result<Val, CodegenError>)
        ensures
            r.model() == size_of_type(self@, ty@),
    {
        proof {
            reveal(size_of_type);
        }
        let lty = match self.type_to_llvm(ty) {
            Ok(v) => v,
            Err(e) => {
                return Err(e);
            },
        };
        Ok(Val { op: Operand::SizeOf(lty.clone()), ty: LTy::Int(64) })
    }

    /// The name under which the parameter types of a called function are known.
    pub fn typed_name(&self, f: &str, callee: &str) -> (r: String)
        ensures
            r@ == typed_name(self@, f@, callee@),
    {
        proof {
            reveal(typed_name);
        }
        if self.fn_param_types.contains_key(f) {
            return f.to_owned();
        }
        callee.to_owned()
    }

    /// The associated constant that a call without arguments stands for, if it does.
    pub fn named_const(
        &self,
        owner: &str,
        name: &str,
        n_args: usize,
        n_types: usize,
    ) -> (r: Option<(Expr, Type)>)
        ensures
            r.model() == named_const(self@, owner@, name@, n_args, n_types),
    {
        proof {
            reveal(named_const);
        }
        if (n_args == 0) && (n_types == 0) {
            return self.const_at(owner, name);
        }
        None
    }
}

impl CodeGen {
    /// A call of a function by its name.
    pub fn compile_call(&mut self, fuel: usize, e: &Expr) -> (r: Result<Val, CodegenError>)
        ensures
            (r.model(), final(self)@) == compile_call(old(self)@, nested(fuel as nat), e@),
            stays(old(self)@, final(self)@),
            r is Ok ==> settled(old(self)@, final(self)@),
            r is Ok ==> confined(old(self)@.out.cur, final(self)@.out.cur),
            r is Ok ==> same_variables(old(self)@, final(self)@),
        decreases fuel, 4int,
    {
        proof {
            broadcast use {crate::nesting::group_nesting, crate::growth::group_growth};

            count_from(old(self)@);
            reveal(compile_call);
        }
        match e {
            Expr::Call { callee, args, type_args, .. } => {
                match self.env.check_visibility_of_path(&self.fun.here, callee) {
                    Ok(_) => {},
                    Err(e) => {
                        return Err(e);
                    },
                }
                let subject = sized_type(callee, type_args);
                match &subject {
                    Some(ty) => {
                        return self.env.size_of_type(ty);
                    },
                    None => {},
                }
                proof {
                    assert(expr_seq_view(args@).len() == args@.len());
                }
                if same(callee, "transmute") && (args.len() == 1) {
                    proof {
                        assert(expr_seq_view(args@)[0] == expr_view(args@[0]));
                    }
                    return self.compile_expr(fuel, &args[0]);
                }
                let done = match self.compile_slice_intrinsic(fuel, callee, args) {
                    Ok(v) => v,
                    Err(e) => {
                        return Err(e);
                    },
                };
                match &done {
                    Some(r) => {
                        return Ok(r.clone());
                    },
                    None => {},
                }
                let f = match self.called_function(
                    fuel,
                    callee,
                    &self.expr_types(args),
                    type_args,
                    e.span(),
                ) {
                    Ok(v) => v,
                    Err(e) => {
                        return Err(e);
                    },
                };
                let vals = match self.compile_args_vec(fuel, args) {
                    Ok(v) => v,
                    Err(e) => {
                        return Err(e);
                    },
                };
                let key = self.env.typed_name(&f, callee);
                let coerced = match self.coerce_all(args, &vals, &key) {
                    Ok(v) => v,
                    Err(e) => {
                        return Err(e);
                    },
                };
                let r = match self.call_fitted(&f, &coerced) {
                    Ok(v) => v,
                    Err(e) => {
                        return Err(e);
                    },
                };
                self.move_args(args, &key);
                return Ok(r.clone());
            },
            _ => {
                return Err(CodegenError::new("internal: not a call".to_owned()));
            },
        }
    }

    /// The function that a call means: a declared one, one of the same module, or an instance of a
    /// generic one.
    pub fn called_function(
        &mut self,
        fuel: usize,
        callee: &str,
        arg_tys: &Vec<Type>,
        type_args: &Vec<Type>,
        place: Span,
    ) -> (r: Result<String, CodegenError>)
        ensures
            (r.model(), final(self)@) == called_function(
                old(self)@,
                nested(fuel as nat),
                callee@,
                type_seq_view(arg_tys@),
                type_seq_view(type_args@),
                place,
            ),
            stays(old(self)@, final(self)@),
            r is Ok ==> settled(old(self)@, final(self)@),
            r is Ok ==> confined(old(self)@.out.cur, final(self)@.out.cur),
            r is Ok ==> same_variables(old(self)@, final(self)@),
        decreases fuel, 3int,
    {
        proof {
            broadcast use {crate::nesting::group_nesting, crate::growth::group_growth};

            count_from(old(self)@);
            reveal(called_function);
        }
        let subject = self.resolve_function(callee, arg_tys);
        match &subject {
            Some(f) => {
                return Ok(f.clone());
            },
            None => {},
        }
        let subject2 = self.resolve_in_module(callee, arg_tys);
        match &subject2 {
            Some(f) => {
                return Ok(f.clone());
            },
            None => {},
        }
        let subject3 = self.env.generic_funcs.get_dup(callee);
        match &subject3 {
            Some(g) => {
                let name = match self.monomorphize_generic_function(fuel, g, arg_tys, type_args) {
                    Ok(v) => v,
                    Err(e) => {
                        return Err(e);
                    },
                };
                let subject4 = self.resolve_function(&name, arg_tys);
                match &subject4 {
                    Some(f) => {
                        return Ok(f.clone());
                    },
                    None => {
                        return Err(
                            CodegenError::new(
                                cat3("failed to resolve monomorphized function '", &name, "'"),
                            ),
                        );
                    },
                }
            },
            None => {
                return Err(CodegenError::with_span(cat3("unknown function '", callee, "'"), place));
            },
        }
    }

    /// The function of the module that is being compiled that a name without a path stands for.
    pub fn resolve_in_module(&self, callee: &str, arg_tys: &Vec<Type>) -> (r: Option<String>)
        ensures
            r.model() == resolve_in_module(self@, callee@, type_seq_view(arg_tys@)),
    {
        proof {
            reveal(resolve_in_module);
        }
        let subject = self.module_function(callee);
        match &subject {
            Some(name) => {
                return self.resolve_function(name, arg_tys);
            },
            None => {
                return None;
            },
        }
    }

    /// A call of a slice function that the compiler provides; nothing for other functions.
    pub fn compile_slice_intrinsic(
        &mut self,
        fuel: usize,
        callee: &str,
        args: &Vec<Expr>,
    ) -> (r: Result<Option<Val>, CodegenError>)
        ensures
            (r.model(), final(self)@) == compile_slice_intrinsic(
                old(self)@,
                nested(fuel as nat),
                callee@,
                expr_seq_view(args@),
            ),
            stays(old(self)@, final(self)@),
            r is Ok ==> settled(old(self)@, final(self)@),
            r is Ok ==> confined(old(self)@.out.cur, final(self)@.out.cur),
            r is Ok ==> same_variables(old(self)@, final(self)@),
        decreases fuel, 2int,
    {
        proof {
            broadcast use {crate::nesting::group_nesting, crate::growth::group_growth};

            count_from(old(self)@);
            reveal(compile_slice_intrinsic);
        }
        proof {
            assert(expr_seq_view(args@).len() == args@.len());
        }
        if same(callee, "slice_index") && (args.len() == 2) {
            let p = match self.indexed_in_place(fuel, callee, args) {
                Ok(v) => v,
                Err(e) => {
                    return Err(e);
                },
            };
            return Ok(Some(p.clone()));
        }
        proof {
            assert(expr_seq_view(args@).len() == args@.len());
        }
        if same(callee, "slice_index_mut") && (args.len() == 2) {
            let p = match self.indexed_in_place(fuel, callee, args) {
                Ok(v) => v,
                Err(e) => {
                    return Err(e);
                },
            };
            return Ok(Some(p.clone()));
        }
        proof {
            assert(expr_seq_view(args@).len() == args@.len());
        }
        if same(callee, "slice_as_ptr") && (args.len() == 1) {
            proof {
                assert(expr_seq_view(args@)[0] == expr_view(args@[0]));
            }
            let v = match self.compile_expr(fuel, &args[0]) {
                Ok(v) => v,
                Err(e) => {
                    return Err(e);
                },
            };
            let p = match as_ptr(&v) {
                Ok(v) => v,
                Err(e) => {
                    return Err(e);
                },
            };
            let got8 = self.cast(CastKind::Bit, &p, &LTy::Ptr);
            return Ok(Some(got8));
        }
        proof {
            assert(expr_seq_view(args@).len() == args@.len());
        }
        if (
            same(callee, "slice_from_raw_parts") || same(callee, "slice_from_raw_parts_mut")
        ) && (args.len() == 2) {
            proof {
                assert(expr_seq_view(args@)[0] == expr_view(args@[0]));
            }
            let v = match self.compile_expr(fuel, &args[0]) {
                Ok(v) => v,
                Err(e) => {
                    return Err(e);
                },
            };
            proof {
                assert(expr_seq_view(args@)[1] == expr_view(args@[1]));
            }
            let n = match self.compile_expr(fuel, &args[1]) {
                Ok(v) => v,
                Err(e) => {
                    return Err(e);
                },
            };
            let len = match as_int(&n) {
                Ok(v) => v,
                Err(e) => {
                    return Err(e);
                },
            };
            let p = match as_ptr(&v) {
                Ok(v) => v,
                Err(e) => {
                    return Err(e);
                },
            };
            let got15 = self.make_fat(&p, &len);
            return Ok(Some(got15));
        }
        Ok(None)
    }

    /// The address of an element of an array behind a reference.
    pub fn indexed_in_place(
        &mut self,
        fuel: usize,
        callee: &str,
        args: &Vec<Expr>,
    ) -> (r: Result<Val, CodegenError>)
        ensures
            (r.model(), final(self)@) == indexed_in_place(
                old(self)@,
                nested(fuel as nat),
                callee@,
                expr_seq_view(args@),
            ),
            stays(old(self)@, final(self)@),
            r is Ok ==> settled(old(self)@, final(self)@),
            r is Ok ==> confined(old(self)@.out.cur, final(self)@.out.cur),
            r is Ok ==> same_variables(old(self)@, final(self)@),
        decreases fuel, 1int,
    {
        proof {
            broadcast use {crate::nesting::group_nesting, crate::growth::group_growth};

            count_from(old(self)@);
            reveal(indexed_in_place);
        }
        proof {
            assert(expr_seq_view(args@).len() == args@.len());
        }
        if args.len() == 2 {
            proof {
                assert(expr_seq_view(args@)[0] == expr_view(args@[0]));
            }
            let v = match self.compile_expr(fuel, &args[0]) {
                Ok(v) => v,
                Err(e) => {
                    return Err(e);
                },
            };
            proof {
                assert(expr_seq_view(args@)[1] == expr_view(args@[1]));
            }
            let i = match self.compile_expr(fuel, &args[1]) {
                Ok(v) => v,
                Err(e) => {
                    return Err(e);
                },
            };
            let p = match as_ptr(&v) {
                Ok(v) => v,
                Err(e) => {
                    return Err(e);
                },
            };
            let n = match as_int(&i) {
                Ok(v) => v,
                Err(e) => {
                    return Err(e);
                },
            };
            proof {
                assert(expr_seq_view(args@)[0] == expr_view(args@[0]));
            }
            let (elem, len) = match array_reference(&self.expr_type(&args[0]), callee) {
                Ok(v) => v,
                Err(e) => {
                    return Err(e);
                },
            };
            let elem_lty = match self.env.type_to_llvm(&elem) {
                Ok(v) => v,
                Err(e) => {
                    return Err(e);
                },
            };
            let lty = match array_type(&elem_lty, len as u32) {
                Ok(v) => v,
                Err(e) => {
                    return Err(e);
                },
            };
            let mut items: Vec<Val> = Vec::new();
            let item = mk_int(64, 0);
            items.push(item);
            let item2 = n.clone();
            items.push(item2);
            proof {
                assert(val_seq_view(items@) =~= seq![item@, item2@]);
            }
            let got10 = self.elem_ptr(&lty, &p, items);
            return Ok(got10);
        }
        Err(CodegenError::new("internal: two arguments are expected".to_owned()))
    }

    /// A call of a function of a type or a module, or an associated constant that is written like
    /// one.
    pub fn compile_qualified_call(
        &mut self,
        fuel: usize,
        e: &Expr,
    ) -> (r: Result<Val, CodegenError>)
        ensures
            (r.model(), final(self)@) == compile_qualified_call(
                old(self)@,
                nested(fuel as nat),
                e@,
            ),
            stays(old(self)@, final(self)@),
            r is Ok ==> settled(old(self)@, final(self)@),
            r is Ok ==> confined(old(self)@.out.cur, final(self)@.out.cur),
            r is Ok ==> same_variables(old(self)@, final(self)@),
        decreases fuel, 4int,
    {
        proof {
            broadcast use {crate::nesting::group_nesting, crate::growth::group_growth};

            count_from(old(self)@);
            reveal(compile_qualified_call);
        }
        match e {
            Expr::QualifiedCall { module, callee, args, type_args, .. } => {
                let subject = sized_type(callee, type_args);
                match &subject {
                    Some(ty) => {
                        return self.env.size_of_type(ty);
                    },
                    None => {},
                }
                proof {
                    assert(expr_seq_view(args@).len() == args@.len());
                }
                proof {
                    assert(type_seq_view(type_args@).len() == type_args@.len());
                }
                let subject2 = self.env.named_const(module, callee, args.len(), type_args.len());
                match &subject2 {
                    Some(d) => {
                        let c = match self.eval_associated_const(fuel, module, callee) {
                            Ok(v) => v,
                            Err(e) => {
                                return Err(e);
                            },
                        };
                        return self.env.const_value_to_llvm(&c, &d.1);
                    },
                    None => {},
                }
                let path = qualified_name(module, callee);
                match self.env.check_visibility_of_path(&self.fun.here, &path) {
                    Ok(_) => {},
                    Err(e) => {
                        return Err(e);
                    },
                }
                let f = match self.qualified_function(
                    fuel,
                    module,
                    callee,
                    &self.expr_types(args),
                    type_args,
                ) {
                    Ok(v) => v,
                    Err(e) => {
                        return Err(e);
                    },
                };
                let vals = match self.compile_args_vec(fuel, args) {
                    Ok(v) => v,
                    Err(e) => {
                        return Err(e);
                    },
                };
                let coerced = match self.coerce_all(args, &vals, &f) {
                    Ok(v) => v,
                    Err(e) => {
                        return Err(e);
                    },
                };
                let r = match self.call_fitted(&f, &coerced) {
                    Ok(v) => v,
                    Err(e) => {
                        return Err(e);
                    },
                };
                self.move_args(args, &f);
                return Ok(r.clone());
            },
            _ => {
                return Err(CodegenError::new("internal: not a call".to_owned()));
            },
        }
    }

    /// The declared function of a type or a module.
    pub fn declared_member(
        &self,
        module: &str,
        callee: &str,
        arg_tys: &Vec<Type>,
    ) -> (r: Option<String>)
        ensures
            r.model() == declared_member(self@, module@, callee@, type_seq_view(arg_tys@)),
    {
        proof {
            reveal(declared_member);
        }
        proof {
            assert(type_seq_view(arg_tys@).len() == arg_tys@.len());
        }
        let n: usize = arg_tys.len();
        let path = qualified_name(module, callee);
        if self.out.decls.contains_key(&path) {
            return Some(path.clone());
        }
        let counted = mangled_method_name(module, callee, n);
        if self.out.decls.contains_key(&counted) {
            return Some(counted.clone());
        }
        let instance = mangled_method_name(&self.resolve_mangled_name(module), callee, n);
        if self.out.decls.contains_key(&instance) {
            return Some(instance.clone());
        }
        let subject = self.resolve_function(&path, arg_tys);
        match &subject {
            Some(f) => {
                return Some(f.clone());
            },
            None => {},
        }
        let subject2 = self.resolve_function(&counted, arg_tys);
        match &subject2 {
            Some(f) => {
                return Some(f.clone());
            },
            None => {},
        }
        let subject3 = self.env.find_method(module, callee);
        match &subject3 {
            Some(f) => {
                return self.declared(f);
            },
            None => {
                return None;
            },
        }
    }

    /// The function of a type or a module that a call means; an instance of a generic function,
    /// where none is declared.
    pub fn qualified_function(
        &mut self,
        fuel: usize,
        module: &str,
        callee: &str,
        arg_tys: &Vec<Type>,
        type_args: &Vec<Type>,
    ) -> (r: Result<String, CodegenError>)
        ensures
            (r.model(), final(self)@) == qualified_function(
                old(self)@,
                nested(fuel as nat),
                module@,
                callee@,
                type_seq_view(arg_tys@),
                type_seq_view(type_args@),
            ),
            stays(old(self)@, final(self)@),
            r is Ok ==> settled(old(self)@, final(self)@),
            r is Ok ==> confined(old(self)@.out.cur, final(self)@.out.cur),
            r is Ok ==> same_variables(old(self)@, final(self)@),
        decreases fuel, 3int,
    {
        proof {
            broadcast use {crate::nesting::group_nesting, crate::growth::group_growth};

            count_from(old(self)@);
            reveal(qualified_function);
        }
        let subject = self.declared_member(module, callee, arg_tys);
        match &subject {
            Some(f) => {
                return Ok(f.clone());
            },
            None => {},
        }
        let subject2 = self.env.generic_funcs.get_dup(callee);
        match &subject2 {
            Some(g) => {
                let got = self.monomorphize_generic_function(fuel, g, arg_tys, type_args);
                match &got {
                    Ok(name) => {
                        if self.out.decls.contains_key(name) {
                            return Ok(name.clone());
                        }
                    },
                    Err(problem) => {},
                }
            },
            None => {},
        }
        Err(CodegenError::new(cat3("unknown function '", &qualified_name(module, callee), "'")))
    }

    /// A call of a method.
    pub fn compile_method_call(&mut self, fuel: usize, e: &Expr) -> (r: Result<Val, CodegenError>)
        ensures
            (r.model(), final(self)@) == compile_method_call(old(self)@, nested(fuel as nat), e@),
            stays(old(self)@, final(self)@),
            r is Ok ==> settled(old(self)@, final(self)@),
            r is Ok ==> confined(old(self)@.out.cur, final(self)@.out.cur),
            r is Ok ==> same_variables(old(self)@, final(self)@),
        decreases fuel, 4int,
    {
        proof {
            broadcast use {crate::nesting::group_nesting, crate::growth::group_growth};

            count_from(old(self)@);
            reveal(compile_method_call);
        }
        match e {
            Expr::MethodCall { expr: receiver, method, args, type_args, .. } => {
                let ty = self.expr_type(receiver);
                if same(method, "drop") && self.env.drops_itself(&ty) {
                    return Err(
                        CodegenError::new(
                            "cannot call Drop::drop directly, use std::mem::drop()".to_owned(),
                        ),
                    );
                }
                proof {
                    assert(expr_seq_view(args@).len() == args@.len());
                }
                let subject = fat_method(&ty, method, args.len());
                match &subject {
                    Some((slot_no, msg)) => {
                        let v = match self.compile_expr(fuel, receiver) {
                            Ok(v) => v,
                            Err(e) => {
                                return Err(e);
                            },
                        };
                        return self.fat_part(&v, *slot_no, msg);
                    },
                    None => {},
                }
                match self.prepare_receiver(fuel, &ty) {
                    Ok(_) => {},
                    Err(e) => {
                        return Err(e);
                    },
                }
                let owner = match method_receiver_name(&ty, method, e.span()) {
                    Ok(v) => v,
                    Err(e) => {
                        return Err(e);
                    },
                };
                let f = match self.called_method(
                    fuel,
                    &owner,
                    method,
                    &ty,
                    &self.expr_types(args),
                    type_args,
                    e.span(),
                ) {
                    Ok(v) => v,
                    Err(e) => {
                        return Err(e);
                    },
                };
                match self.env.check_visibility_of_path(&self.fun.here, &f) {
                    Ok(_) => {},
                    Err(e) => {
                        return Err(e);
                    },
                }
                if !self.out.decls.contains_key(&f) {
                    return Err(
                        CodegenError::new(cat3("internal: method '", &f, "' not found in module")),
                    );
                }
                return self.call_method(fuel, e, &f);
            },
            _ => {
                return Err(CodegenError::new("internal: not a method call".to_owned()));
            },
        }
    }

    /// Makes the methods of an array, or of one behind a reference, that a method is called on.
    pub fn prepare_receiver(&mut self, fuel: usize, ty: &Type) -> (r: Result<(), CodegenError>)
        ensures
            (r.model(), final(self)@) == prepare_receiver(old(self)@, nested(fuel as nat), ty@),
            stays(old(self)@, final(self)@),
            r is Ok ==> settled(old(self)@, final(self)@),
            r is Ok ==> confined(old(self)@.out.cur, final(self)@.out.cur),
            r is Ok ==> same_variables(old(self)@, final(self)@),
        decreases fuel, 1int,
    {
        proof {
            broadcast use {crate::nesting::group_nesting, crate::growth::group_growth};

            count_from(old(self)@);
            reveal(prepare_receiver);
        }
        let subject = element_pair(ty);
        match &subject {
            Some((elem, n)) => {
                return self.ensure_slice_methods(fuel, elem, *n);
            },
            None => {
                return Ok(());
            },
        }
    }

    /// The pointer or the length in a pointer with a length.
    pub fn fat_part(&mut self, v: &Val, slot_no: u32, msg: &str) -> (r: Result<Val, CodegenError>)
        ensures
            (r.model(), final(self)@) == fat_part(old(self)@, v@, slot_no, msg@),
            stays(old(self)@, final(self)@),
            r is Ok ==> settled(old(self)@, final(self)@),
            r is Ok ==> confined(old(self)@.out.cur, final(self)@.out.cur),
            r is Ok ==> same_variables(old(self)@, final(self)@),
    {
        proof {
            broadcast use crate::growth::group_growth;

            count_from(old(self)@);
            reveal(fat_part);
        }
        if !is_aggregate(&v.ty) {
            return Err(CodegenError::new(msg.to_owned()));
        }
        let got = self.extract(v, slot_no);
        match &got {
            Some(r) => {
                return Ok(r.clone());
            },
            None => {
                return Err(
                    CodegenError::new(
                        "failed to extract length: Aggregate extract index out of range".to_owned(),
                    ),
                );
            },
        }
    }

    /// The function that a method call means: an instance of a generic method, or a registered one.
    pub fn called_method(
        &mut self,
        fuel: usize,
        owner: &str,
        method: &str,
        ty: &Type,
        arg_tys: &Vec<Type>,
        type_args: &Vec<Type>,
        place: Span,
    ) -> (r: Result<String, CodegenError>)
        ensures
            (r.model(), final(self)@) == called_method(
                old(self)@,
                nested(fuel as nat),
                owner@,
                method@,
                ty@,
                type_seq_view(arg_tys@),
                type_seq_view(type_args@),
                place,
            ),
            stays(old(self)@, final(self)@),
            r is Ok ==> settled(old(self)@, final(self)@),
            r is Ok ==> confined(old(self)@.out.cur, final(self)@.out.cur),
            r is Ok ==> same_variables(old(self)@, final(self)@),
        decreases fuel, 3int,
    {
        proof {
            broadcast use {crate::nesting::group_nesting, crate::growth::group_growth};

            count_from(old(self)@);
            reveal(called_method);
        }
        let subject = self.env.find_generic_method(owner, method);
        match &subject {
            Some(g) => {
                return self.monomorphize_generic_method(
                    fuel,
                    owner,
                    g,
                    &with_first(ty, arg_tys),
                    type_args,
                );
            },
            None => {},
        }
        let subject2 = self.env.find_method(owner, method);
        match &subject2 {
            Some(f) => {
                return Ok(f.clone());
            },
            None => {
                return Err(
                    CodegenError::with_span(
                        cat3(&cat3("type '", owner, "' has no method '"), method, "'"),
                        place,
                    ),
                );
            },
        }
    }

    /// Calls a method: the receiver is passed by its address, or as a pointer with a length.
    pub fn call_method(&mut self, fuel: usize, e: &Expr, f: &str) -> (r: Result<Val, CodegenError>)
        ensures
            (r.model(), final(self)@) == call_method(old(self)@, nested(fuel as nat), e@, f@),
            stays(old(self)@, final(self)@),
            r is Ok ==> settled(old(self)@, final(self)@),
            r is Ok ==> confined(old(self)@.out.cur, final(self)@.out.cur),
            r is Ok ==> same_variables(old(self)@, final(self)@),
        decreases fuel, 3int,
    {
        proof {
            broadcast use {crate::nesting::group_nesting, crate::growth::group_growth};

            count_from(old(self)@);
            reveal(call_method);
        }
        match e {
            Expr::MethodCall { expr: receiver, args, .. } => {
                let v = match self.compile_expr(fuel, receiver) {
                    Ok(v) => v,
                    Err(e) => {
                        return Err(e);
                    },
                };
                if self.is_on_field(&v, receiver, f) {
                    return self.call_on_field(fuel, e, f);
                }
                let first = match self.receiver_value(&v, receiver, f, e.span()) {
                    Ok(v) => v,
                    Err(e) => {
                        return Err(e);
                    },
                };
                let vals = match self.compile_method_args(fuel, args, &first, f) {
                    Ok(v) => v,
                    Err(e) => {
                        return Err(e);
                    },
                };
                let r = match self.call_fitted(f, &vals) {
                    Ok(v) => v,
                    Err(e) => {
                        return Err(e);
                    },
                };
                self.give_receiver(receiver, args, f);
                return Ok(r.clone());
            },
            _ => {
                return Err(CodegenError::new("internal: not a method call".to_owned()));
            },
        }
    }

    /// Whether a method is called on a named field of a struct behind a reference.
    pub fn is_on_field(&self, v: &Val, receiver: &Expr, f: &str) -> (r: bool)
        ensures
            r == is_on_field(self@, v@, receiver@, f@),
    {
        proof {
            reveal(is_on_field);
        }
        if self.env.takes_fat_receiver(f) || matches!(&v.ty, LTy::Ptr { .. }) {
            return false;
        }
        match receiver {
            Expr::Member { expr: inner, field, .. } => {
                return (
                    matches!(field, Some(_)) && matches!(
                        &struct_behind_ref(&self.expr_type(inner)),
                        Some(_)
                    )
                );
            },
            _ => {
                return false;
            },
        }
    }

    /// What a method gets for its receiver: a pointer with a length as it is, else the address of
    /// the receiver.
    pub fn receiver_value(
        &mut self,
        v: &Val,
        receiver: &Expr,
        f: &str,
        place: Span,
    ) -> (r: Result<Val, CodegenError>)
        ensures
            (r.model(), final(self)@) == receiver_value(old(self)@, v@, receiver@, f@, place),
            stays(old(self)@, final(self)@),
            r is Ok ==> settled(old(self)@, final(self)@),
            r is Ok ==> confined(old(self)@.out.cur, final(self)@.out.cur),
            r is Ok ==> same_variables(old(self)@, final(self)@),
    {
        proof {
            broadcast use crate::growth::group_growth;

            count_from(old(self)@);
            reveal(receiver_value);
        }
        if self.env.takes_fat_receiver(f) || matches!(&v.ty, LTy::Ptr { .. }) {
            return Ok(v.clone());
        }
        match receiver {
            Expr::Ident(name, _) => {
                return self.variable_ptr(name, place);
            },
            _ => {
                let got = self.spill(&v.ty, v);
                return Ok(got);
            },
        }
    }

    /// The receiver and the arguments of a method that are passed by value go elsewhere, unless
    /// their types are Copy.
    pub fn give_receiver(&mut self, receiver: &Expr, args: &Vec<Expr>, f: &str)
        ensures
            final(self)@ == give_receiver(old(self)@, receiver@, expr_seq_view(args@), f@),
            stays(old(self)@, final(self)@),
            settled(old(self)@, final(self)@),
            confined(old(self)@.out.cur, final(self)@.out.cur),
            same_variables(old(self)@, final(self)@),
    {
        proof {
            broadcast use crate::growth::group_growth;

            count_from(old(self)@);
            reveal(give_receiver);
        }
        let subject = self.env.fn_param_types.get_dup(f);
        match &subject {
            Some(tys) => {
                proof {
                    assert(type_seq_view(tys@).len() == tys@.len());
                }
                if tys.len() > 0 {
                    proof {
                        assert(type_seq_view(tys@)[0] == type_view(tys@[0]));
                    }
                    if !matches!(&tys[0], Type::Ref { .. } | Type::Ptr { .. }) {
                        self.note_given(receiver);
                    }
                }
                self.give_args(args, &after_first(tys));
            },
            None => {},
        }
    }

    /// Arguments that are passed by value go elsewhere, unless their types are Copy.
    pub fn give_args(&mut self, args: &Vec<Expr>, tys: &Vec<Type>)
        ensures
            final(self)@ == give_args(old(self)@, expr_seq_view(args@), type_seq_view(tys@)),
            stays(old(self)@, final(self)@),
            settled(old(self)@, final(self)@),
            confined(old(self)@.out.cur, final(self)@.out.cur),
            same_variables(old(self)@, final(self)@),
    {
        proof {
            broadcast use crate::growth::group_growth;

            count_from(old(self)@);
            reveal(give_args);
            reveal(give_args_each);
        }
        let mut i: usize = 0;
        while i < args.len()
            invariant
                i <= args@.len(),
                give_args_each(
                    self@,
                    expr_seq_view(args@),
                    type_seq_view(tys@),
                    i as nat,
                ) == give_args(old(self)@, expr_seq_view(args@), type_seq_view(tys@)),
                stays(old(self)@, self@),
                settled(old(self)@, self@),
                confined(old(self)@.out.cur, self@.out.cur),
                same_variables(old(self)@, self@),
            decreases args@.len() - i,
        {
            proof {
                broadcast use crate::growth::group_growth;

                count_from(old(self)@);
                reveal(give_args);
                reveal(give_args_each);
            }
            let a = &args[i];
            proof {
                assert(expr_seq_view(args@)[i as int] == expr_view(args@[i as int]));
            }
            proof {
                assert(type_seq_view(tys@).len() == tys@.len());
            }
            if i < tys.len() {
                proof {
                    assert(type_seq_view(tys@)[i as int] == type_view(tys@[i as int]));
                }
                if !matches!(&tys[i], Type::Ref { .. } | Type::Ptr { .. }) {
                    self.note_given(a);
                }
            }
            i += 1;
        }

    }

    /// Calls a method on a field of a struct behind a reference, by the address of the field.
    pub fn call_on_field(
        &mut self,
        fuel: usize,
        e: &Expr,
        f: &str,
    ) -> (r: Result<Val, CodegenError>)
        ensures
            (r.model(), final(self)@) == call_on_field(old(self)@, nested(fuel as nat), e@, f@),
            stays(old(self)@, final(self)@),
            r is Ok ==> settled(old(self)@, final(self)@),
            r is Ok ==> confined(old(self)@.out.cur, final(self)@.out.cur),
            r is Ok ==> same_variables(old(self)@, final(self)@),
        decreases fuel, 2int,
    {
        proof {
            broadcast use {crate::nesting::group_nesting, crate::growth::group_growth};

            count_from(old(self)@);
            reveal(call_on_field);
        }
        proof {
            reveal_with_fuel(expr_view, 3);
        }
        match e {
            Expr::MethodCall { expr: receiver, args, .. } => {
                match &**receiver {
                    Expr::Member { expr: inner, field, .. } => {
                        match field {
                            Some(name) => {
                                let subject = struct_behind_ref(&self.expr_type(inner));
                                match &subject {
                                    Some((owner, ty)) => {
                                        let slot_no: u32 = match self.env.field_number(
                                            owner,
                                            name,
                                        ) {
                                            Ok(v) => v,
                                            Err(e) => {
                                                return Err(e);
                                            },
                                        };
                                        let lty = match self.env.type_to_llvm(ty) {
                                            Ok(v) => v,
                                            Err(e) => {
                                                return Err(e);
                                            },
                                        };
                                        let v = match self.compile_expr(fuel, inner) {
                                            Ok(v) => v,
                                            Err(e) => {
                                                return Err(e);
                                            },
                                        };
                                        let base = self.in_memory(&v);
                                        let got6 = self.field_ptr(&lty, &base, slot_no);
                                        match &got6 {
                                            Some(p) => {
                                                let vals = match self.compile_method_args(
                                                    fuel,
                                                    args,
                                                    p,
                                                    f,
                                                ) {
                                                    Ok(v) => v,
                                                    Err(e) => {
                                                        return Err(e);
                                                    },
                                                };
                                                let r = match self.call_fitted(f, &vals) {
                                                    Ok(v) => v,
                                                    Err(e) => {
                                                        return Err(e);
                                                    },
                                                };
                                                self.give_receiver(receiver, args, f);
                                                return Ok(r.clone());
                                            },
                                            None => {
                                                return Err(
                                                    CodegenError::new(
                                                        cat3(
                                                            "failed to build struct GEP for field '",
                                                            name,
                                                            "': GEP index out of range",
                                                        ),
                                                    ),
                                                );
                                            },
                                        }
                                    },
                                    None => {
                                        return Err(
                                            CodegenError::new(
                                                "internal: not a field of a struct".to_owned(),
                                            ),
                                        );
                                    },
                                }
                            },
                            None => {
                                return Err(
                                    CodegenError::new("internal: not a named field".to_owned()),
                                );
                            },
                        }
                    },
                    _ => {
                        return Err(CodegenError::new("internal: not a field".to_owned()));
                    },
                }
            },
            _ => {
                return Err(CodegenError::new("internal: not a method call".to_owned()));
            },
        }
    }

    /// The receiver and the arguments of a method call, each as its parameter wants it.
    pub fn compile_method_args(
        &mut self,
        fuel: usize,
        args: &Vec<Expr>,
        first: &Val,
        f: &str,
    ) -> (r: Result<Vec<Val>, CodegenError>)
        ensures
            (r.model(), final(self)@) == compile_method_args(
                old(self)@,
                nested(fuel as nat),
                expr_seq_view(args@),
                first@,
                f@,
            ),
            stays(old(self)@, final(self)@),
            r is Ok ==> settled(old(self)@, final(self)@),
            r is Ok ==> confined(old(self)@.out.cur, final(self)@.out.cur),
            r is Ok ==> same_variables(old(self)@, final(self)@),
        decreases fuel, 1int,
    {
        proof {
            broadcast use {crate::nesting::group_nesting, crate::growth::group_growth};

            count_from(old(self)@);
            reveal(compile_method_args);
            reveal(compile_method_args_each);
        }
        let mut items: Vec<Val> = Vec::new();
        let item = first.clone();
        items.push(item);
        proof {
            assert(val_seq_view(items@) =~= seq![item@]);
        }
        let mut vals = items;
        let mut i: usize = 0;
        while i < args.len()
            invariant
                i <= args@.len(),
                compile_method_args_each(
                    self@,
                    nested(fuel as nat),
                    expr_seq_view(args@),
                    f@,
                    val_seq_view(vals@),
                    i as nat,
                ) == compile_method_args(
                    old(self)@,
                    nested(fuel as nat),
                    expr_seq_view(args@),
                    first@,
                    f@,
                ),
                stays(old(self)@, self@),
                settled(old(self)@, self@),
                confined(old(self)@.out.cur, self@.out.cur),
                same_variables(old(self)@, self@),
            decreases args@.len() - i,
        {
            proof {
                broadcast use {crate::nesting::group_nesting, crate::growth::group_growth};

                count_from(old(self)@);
                reveal(compile_method_args);
                reveal(compile_method_args_each);
            }
            let a = &args[i];
            proof {
                assert(expr_seq_view(args@)[i as int] == expr_view(args@[i as int]));
            }
            let v = match self.compile_expr(fuel, a) {
                Ok(v) => v,
                Err(e) => {
                    return Err(e);
                },
            };
            let x = match self.coerce_param(&v, &self.expr_type(a), f, (i + 1)) {
                Ok(v) => v,
                Err(e) => {
                    return Err(e);
                },
            };
            let ghost prior = val_seq_view(vals@);
            let item2 = x.clone();
            vals.push(item2);
            proof {
                assert(val_seq_view(vals@) =~= prior.push(item2@));
            }
            i += 1;
        }
        Ok(dup_val_seq(&vals))
    }
}

} // verus!
