//! Variables, members and elements, and the arguments of calls.
use crate::ast::{Expr, Type};
use crate::builder::{
    cast, elem_ptr, extract, fields_of, insert, int_const, int_test, load, make_fat, mk_int,
    mk_undef, spill, store, undef,
};
use crate::casts::{as_ptr, as_ptr_spec, coerce_arg, const_value_to_llvm, emit_cast};
use crate::growth::{
    confined, count_from, entered_loop, grown, lemma_returned_more, same_variables, settled, stays,
};
use crate::infer::{find_method, method_owner, method_owner_name, ty_of};
use crate::ir::{
    CastKind, FloatConst, FloatConstView, IntPred, LTy, LTyView, Operand, OperandView, Val, ValView,
    dup_val_seq, l_ty_seq_view, same_lty, val_seq_view, val_view,
};
use crate::lists::shorter;
use crate::model::{
    ExprView, TypeView, expr_seq_view, expr_view, struct_field_seq_view, struct_field_view,
    type_seq_view, type_view,
};
use crate::names::{show_type, type_text};
use crate::patterns::{field_position, field_position_spec};
use crate::query::{key_implements, lower_type};
use crate::scopes::{behind_refs, behind_refs_spec, note_move, struct_name_of, struct_name_of_spec};
use crate::state::{
    CodeGen, CodegenError, Env, EnvView, ErrorView, FunView, LoopContext, LoopContextView, OutView,
    State, err, err_at,
};
use crate::table::{Model, at};
use crate::text::{
    byte_size, bytes_in, cat, cat3, decimal_text, join, join_texts, path_segments, same, show_usize,
    split_path, texts,
};
use crate::token::Span;
use crate::types::same_types;
use crate::visible::check_field;
use vstd::prelude::*;

verus! {

broadcast use crate::lists::group_list_views;

/// Whether a machine type is a struct type.
#[verifier::opaque]
pub open spec fn is_aggregate_spec(ty: LTyView) -> bool {
    (ty is Struct || ty is Named)
}

/// Where a variable is.
#[verifier::opaque]
pub open spec fn variable_ptr(
    s: State,
    name: Seq<char>,
    place: Span,
) -> Result<ValView, ErrorView> {
    match at(s.fun.symbols, name) {
        Some(v) => Ok(v.0),
        None => Err(err_at(("undefined variable '"@ + name + "'"@), place)),
    }
}

/// The value of a constant or a variable; one that was moved out of has none.
#[verifier::opaque]
pub open spec fn load_ident(
    s: State,
    name: Seq<char>,
    place: Span,
) -> (Result<ValView, ErrorView>, State) {
    if s.fun.moved.contains(name) {
        (Err(err("cannot use moved variable '"@ + name + "'"@)), s)
    } else {
        match at(s.fun.consts, name) {
            Some(c) => (const_value_to_llvm(s.env, c.0, c.1), s),
            None => {
                match at(s.fun.symbols, name) {
                    Some(v) => {
                        match lower_type(s.env, v.2) {
                            Ok(lty) => {
                                let (got2, s) = load(s, lty, v.0);
                                (Ok(got2), s)
                            },
                            Err(e) => (Err(e), s),
                        }
                    },
                    None => (Err(err_at(("undefined variable '"@ + name + "'"@), place)), s),
                }
            },
        }
    }
}

/// Where a variable is that is assigned to.
#[verifier::opaque]
pub open spec fn assigned_variable(s: State, name: Seq<char>) -> Result<ValView, ErrorView> {
    if s.fun.consts.contains_key(name) {
        Err(err("cannot assign to constant '"@ + name + "'"@))
    } else {
        match at(s.fun.symbols, name) {
            Some(v) => {
                if v.1 {
                    Ok(v.0)
                } else {
                    Err(err("cannot assign to immutable variable '"@ + name + "'"@))
                }
            },
            None => Err(err("undefined variable '"@ + name + "'"@)),
        }
    }
}

/// A pointer to a string constant with its length.
#[verifier::opaque]
pub open spec fn string_literal(s: State, text: Seq<char>) -> (ValView, State) {
    let n = s.out.strings.len() as usize;
    let s = State { out: OutView { strings: s.out.strings.push(text), ..s.out }, ..s };
    make_fat(
        s,
        (ValView { op: OperandView::Str(n), ty: LTyView::Ptr }),
        int_const(64, (byte_size(text) as u64)),
    )
}

/// A struct that has a machine type.
#[verifier::opaque]
pub open spec fn known_struct(s: EnvView, name: Seq<char>) -> Result<Seq<char>, ErrorView> {
    if s.struct_types.contains(name) {
        Ok(name)
    } else {
        Err(err("unknown struct type '"@ + name + "'"@))
    }
}

/// The struct whose field is assigned to: itself, or behind a mutable reference.
#[verifier::opaque]
pub open spec fn assigned_struct(s: EnvView, ty: TypeView) -> Result<Seq<char>, ErrorView> {
    match ty {
        TypeView::Ref { inner, is_mut } => {
            if !(is_mut) {
                Err(err("cannot assign to field through immutable reference"@))
            } else {
                match struct_name_of_spec(*inner) {
                    Some(name) => known_struct(s, name),
                    None => Err(err("cannot access field on non-struct type"@)),
                }
            }
        },
        _ => {
            match struct_name_of_spec(ty) {
                Some(name) => known_struct(s, name),
                None => Err(err("cannot assign to field on non-struct type"@)),
            }
        },
    }
}

/// The place of a field in its struct.
#[verifier::opaque]
pub open spec fn field_number(
    s: EnvView,
    owner: Seq<char>,
    field: Seq<char>,
) -> Result<u32, ErrorView> {
    match at(s.struct_fields, owner) {
        Some(fields) => {
            match field_position_spec(fields, field) {
                Some(i) => Ok(i as u32),
                None => Err(err("struct '"@ + owner + "' has no field '"@ + field + "'"@)),
            }
        },
        None => Err(err("unknown struct '"@ + owner + "'"@)),
    }
}

/// The place of a field that is named, which has to be visible, or numbered.
#[verifier::opaque]
pub open spec fn visible_field(
    s: State,
    owner: Seq<char>,
    field: Option<Seq<char>>,
    index: usize,
) -> Result<u32, ErrorView> {
    match field {
        Some(name) => {
            match check_field(s.env, s.fun.here, owner, name) {
                Ok(_) => field_number(s.env, owner, name),
                Err(e) => Err(e),
            }
        },
        None => Ok(index as u32),
    }
}

/// The type of a field.
#[verifier::opaque]
pub open spec fn field_type_at(s: EnvView, owner: Seq<char>, k: u32) -> Option<TypeView> {
    match at(s.struct_fields, owner) {
        Some(fields) => {
            let i = k as usize;
            if i < (fields.len() as usize) {
                Some(fields[i as int].ty)
            } else {
                None
            }
        },
        None => None,
    }
}

/// The struct that a field is read from: itself, or behind a reference.
#[verifier::opaque]
pub open spec fn owner_or_fail_spec(
    ty: TypeView,
    field: Seq<char>,
    place: Span,
) -> Result<Seq<char>, ErrorView> {
    match ty {
        TypeView::Ref { inner, .. } => {
            match struct_name_of_spec(*inner) {
                Some(name) => Ok(name),
                None => Err(
                    err_at(("cannot access field '"@ + field + "' on non-struct type"@), place),
                ),
            }
        },
        _ => {
            match struct_name_of_spec(ty) {
                Some(name) => Ok(name),
                None => Err(
                    err_at(("cannot access field '"@ + field + "' on non-struct type"@), place),
                ),
            }
        },
    }
}

/// The place of a member that is read.
#[verifier::opaque]
pub open spec fn member_number(
    s: State,
    ty: TypeView,
    field: Option<Seq<char>>,
    index: usize,
    place: Span,
) -> Result<u32, ErrorView> {
    match field {
        Some(name) => {
            match owner_or_fail_spec(ty, name, place) {
                Ok(owner) => visible_field(s, owner, field, index),
                Err(e) => Err(e),
            }
        },
        None => Ok(index as u32),
    }
}

/// A struct value, read through the pointer to it.
#[verifier::opaque]
pub open spec fn read_through(
    s: State,
    v: ValView,
    ty: TypeView,
) -> (Result<ValView, ErrorView>, State) {
    if !(v.ty is Ptr) {
        (Ok(v), s)
    } else {
        match ty {
            TypeView::Ref { inner, .. } => {
                match lower_type(s.env, *inner) {
                    Ok(lty) => {
                        let (got2, s) = load(s, lty, v);
                        (Ok(got2), s)
                    },
                    Err(e) => (Err(e), s),
                }
            },
            TypeView::Struct { .. } | TypeView::GenericInstance { .. } => {
                match lower_type(s.env, ty) {
                    Ok(lty) => {
                        let (got4, s) = load(s, lty, v);
                        (Ok(got4), s)
                    },
                    Err(e) => (Err(e), s),
                }
            },
            _ => (Ok(v), s),
        }
    }
}

/// A member of a struct value.
#[verifier::opaque]
pub open spec fn member_of(
    s: State,
    v: ValView,
    ty: TypeView,
    field: Option<Seq<char>>,
    index: usize,
    place: Span,
) -> (Result<ValView, ErrorView>, State) {
    match read_through(s, v, ty) {
        (Ok(x), s) => {
            if !is_aggregate_spec(x.ty) {
                (Err(err_at("cannot access member of non-struct value"@, place)), s)
            } else {
                match member_number(s, ty, field, index, place) {
                    Ok(k) => {
                        let own = fields_of(s, x.ty);
                        let n = own.len() as usize;
                        if (k as usize) >= n {
                            (
                                Err(
                                    err_at(
                                        (
                                            "field index "@ + decimal_text((k as usize) as nat)
                                                + " out of bounds; struct has "@
                                                + decimal_text(n as nat) + " fields"@
                                        ),
                                        place,
                                    ),
                                ),
                                s,
                            )
                        } else {
                            let (got4, s) = extract(s, x, k);
                            match got4 {
                                Some(r) => (Ok(r), s),
                                None => {
                                    (
                                        Err(
                                            err(
                                                "failed to extract struct field: Aggregate extract index out of range"@,
                                            ),
                                        ),
                                        s,
                                    )
                                },
                            }
                        }
                    },
                    Err(e) => (Err(e), s),
                }
            }
        },
        (Err(e), s) => (Err(e), s),
    }
}

/// The element type and the length of an array that is indexed, itself or behind a reference.
#[verifier::opaque]
pub open spec fn array_parts_or_fail_spec(
    ty: TypeView,
    place: Span,
) -> Result<(TypeView, usize), ErrorView> {
    match array_parts(ty) {
        Some(pair) => Ok(pair),
        None => Err(err_at(("cannot index into non-array type "@ + type_text(ty)), place)),
    }
}

/// The function that indexes an array type.
#[verifier::opaque]
pub open spec fn index_method(
    s: State,
    key: Seq<char>,
    method: Seq<char>,
) -> Result<Seq<char>, ErrorView> {
    if !s.env.impl_methods.contains_key(key) {
        Err(err("no methods registered for array type '"@ + key + "'"@))
    } else {
        match find_method(s.env, key, method) {
            Some(f) => {
                if s.out.decls.contains_key(f) {
                    Ok(f)
                } else {
                    Err(err("internal: "@ + method + " function '"@ + f + "' not found"@))
                }
            },
            None => Err(err("no '"@ + method + "' method for array type '"@ + key + "'"@)),
        }
    }
}

/// The pointer in a slice.
#[verifier::opaque]
pub open spec fn slice_ptr(
    s: State,
    v: ValView,
    place: Span,
) -> (Result<ValView, ErrorView>, State) {
    if !is_aggregate_spec(v.ty) {
        (Err(err_at("expected slice fat pointer"@, place)), s)
    } else {
        let (got, s) = extract(s, v, 0);
        match got {
            Some(p) => (as_ptr_spec(p), s),
            None => {
                (Err(err("failed to extract slice ptr: Aggregate extract index out of range"@)), s)
            },
        }
    }
}

/// A value that has to be an integer.
#[verifier::opaque]
pub open spec fn as_int_spec(v: ValView) -> Result<ValView, ErrorView> {
    if v.ty is Int {
        Ok(v)
    } else {
        Err(err("internal: not an integer"@))
    }
}

/// A pointer to a value: itself, if it is one, or to where it is put.
#[verifier::opaque]
pub open spec fn in_memory(s: State, v: ValView) -> (ValView, State) {
    if v.ty is Ptr {
        (v, s)
    } else {
        spill(s, v.ty, v)
    }
}

/// A truth value: an integer of more bits is compared with zero.
#[verifier::opaque]
pub open spec fn to_bit(
    s: State,
    v: ValView,
    msg: Seq<char>,
) -> (Result<ValView, ErrorView>, State) {
    match v.ty {
        LTyView::Int(w) => {
            if w == 1 {
                (Ok(v), s)
            } else {
                let (got, s) = int_test(
                    s,
                    IntPred::Ne,
                    v,
                    (ValView { op: OperandView::Int(0), ty: v.ty }),
                );
                (Ok(got), s)
            }
        },
        _ => (Err(err(msg)), s),
    }
}

/// A truth value: an integer of more bits is truncated.
#[verifier::opaque]
pub open spec fn low_bit(s: State, v: ValView) -> (Option<ValView>, State) {
    match v.ty {
        LTyView::Int(w) => {
            if w == 1 {
                (Some(v), s)
            } else {
                let (got, s) = cast(s, CastKind::Trunc, v, LTyView::Int(1));
                (Some(got), s)
            }
        },
        _ => (None, s),
    }
}

/// Stores a value, converted where its machine type is another one.
#[verifier::opaque]
pub open spec fn store_as(
    s: State,
    v: ValView,
    from_ty: TypeView,
    to: TypeView,
    lty: LTyView,
    slot: ValView,
) -> (Result<(), ErrorView>, State) {
    if v.ty == lty {
        let s = store(s, v, slot);
        (Ok(()), s)
    } else {
        match emit_cast(s, v, from_ty, to) {
            (Ok(x), s) => {
                let s = store(s, x, slot);
                (Ok(()), s)
            },
            (Err(e), s) => (Err(e), s),
        }
    }
}

/// The machine types of values.
#[verifier::opaque]
pub open spec fn value_types_spec(vals: Seq<ValView>) -> Seq<LTyView> {
    Seq::new(vals.len(), |i: int| {
            let v = vals[i];
            v.ty
        })
}

/// A tuple of values.
#[verifier::opaque]
pub open spec fn tuple_value(s: State, vals: Seq<ValView>) -> (Result<ValView, ErrorView>, State) {
    let agg = undef(LTyView::Struct(value_types_spec(vals)));
    tuple_value_each(s, vals, agg, 0)
}

/// [`tuple_value`] from element `i` on.
#[verifier::opaque]
pub open spec fn tuple_value_each(
    s: State,
    vals: Seq<ValView>,
    agg: ValView,
    i: nat,
) -> (Result<ValView, ErrorView>, State)
    decreases vals.len() - i,
{
    if i < vals.len() {
        let v = vals[i as int];
        let (got, s) = insert(s, agg, v, ((i as usize) as u32));
        match got {
            Some(more) => {
                let agg = more;
                tuple_value_each(s, vals, agg, i + 1)
            },
            None => {
                (
                    Err(
                        err(
                            "failed to build tuple elem "@ + decimal_text((i as usize) as nat)
                                + ": Aggregate extract index out of range"@,
                        ),
                    ),
                    s,
                )
            },
        }
    } else {
        (Ok(agg), s)
    }
}

/// The name of the struct that a type is, or that is behind one reference.
#[verifier::opaque]
pub open spec fn struct_behind_spec(ty: TypeView) -> Option<Seq<char>> {
    match ty {
        TypeView::Ref { inner, .. } => struct_name_of_spec(*inner),
        _ => struct_name_of_spec(ty),
    }
}

/// Whether a struct, or one behind a reference, implements `Drop`.
#[verifier::opaque]
pub open spec fn drops_itself(s: EnvView, ty: TypeView) -> bool {
    match struct_behind_spec(ty) {
        Some(name) => key_implements(s, name, "Drop"@),
        None => false,
    }
}

/// Whether a method takes its receiver as a pointer with a length.
#[verifier::opaque]
pub open spec fn takes_fat_receiver(s: EnvView, f: Seq<char>) -> bool {
    match at(s.fn_param_types, f) {
        Some(tys) => {
            if (tys.len() as usize) > 0 {
                match tys[0] {
                    TypeView::Ref { inner, .. } => ((*inner) is Str || (*inner) is Slice),
                    _ => false,
                }
            } else {
                false
            }
        },
        None => false,
    }
}

/// An argument as parameter `k` of a function wants it, where its types are known.
#[verifier::opaque]
pub open spec fn coerce_param(
    s: State,
    v: ValView,
    ty: TypeView,
    f: Seq<char>,
    k: usize,
) -> (Result<ValView, ErrorView>, State) {
    match at(s.env.fn_param_types, f) {
        Some(tys) => {
            if k < (tys.len() as usize) {
                match lower_type(s.env, tys[k as int]) {
                    Ok(lty) => {
                        if v.ty == lty {
                            (Ok(v), s)
                        } else {
                            coerce_arg(s, v, ty, tys[k as int])
                        }
                    },
                    Err(e) => (Err(e), s),
                }
            } else {
                (Ok(v), s)
            }
        },
        None => (Ok(v), s),
    }
}

/// The arguments of a call as the parameters want them.
#[verifier::opaque]
pub open spec fn coerce_all(
    s: State,
    args: Seq<ExprView>,
    vals: Seq<ValView>,
    f: Seq<char>,
) -> (Result<Seq<ValView>, ErrorView>, State) {
    let out = Seq::<ValView>::empty();
    coerce_all_each(s, args, vals, f, out, 0)
}

/// [`coerce_all`] from element `i` on.
#[verifier::opaque]
pub open spec fn coerce_all_each(
    s: State,
    args: Seq<ExprView>,
    vals: Seq<ValView>,
    f: Seq<char>,
    out: Seq<ValView>,
    i: nat,
) -> (Result<Seq<ValView>, ErrorView>, State)
    decreases vals.len() - i,
{
    if i < vals.len() {
        let v = vals[i as int];
        if (i as usize) < (args.len() as usize) {
            match coerce_param(s, v, ty_of(s, args[i as int]), f, i as usize) {
                (Ok(x), s) => {
                    let out = out.push(x);
                    coerce_all_each(s, args, vals, f, out, i + 1)
                },
                (Err(e), s) => (Err(e), s),
            }
        } else {
            let out = out.push(v);
            coerce_all_each(s, args, vals, f, out, i + 1)
        }
    } else {
        (Ok(out), s)
    }
}

/// Variables that are passed by value are moved out of, unless their type is Copy.
#[verifier::opaque]
pub open spec fn move_args(s: State, args: Seq<ExprView>, f: Seq<char>) -> State {
    match at(s.env.fn_param_types, f) {
        Some(tys) => move_typed_args(s, args, tys),
        None => s,
    }
}

/// Variables that are passed by value are moved out of, unless their type is Copy.
#[verifier::opaque]
pub open spec fn move_typed_args(s: State, args: Seq<ExprView>, tys: Seq<TypeView>) -> State {
    move_typed_args_each(s, args, tys, 0)
}

/// [`move_typed_args`] from element `i` on.
#[verifier::opaque]
pub open spec fn move_typed_args_each(
    s: State,
    args: Seq<ExprView>,
    tys: Seq<TypeView>,
    i: nat,
) -> State
    decreases args.len() - i,
{
    if i < args.len() {
        let a = args[i as int];
        let s = if (i as usize) < (tys.len() as usize) {
            if !(tys[i as int] is Ref || tys[i as int] is Ptr) {
                note_move(s, a)
            } else {
                s
            }
        } else {
            s
        };
        move_typed_args_each(s, args, tys, i + 1)
    } else {
        s
    }
}

/// The overloads with that many parameters.
#[verifier::opaque]
pub open spec fn overload_by_count_spec(
    os: Seq<(Seq<char>, Seq<TypeView>)>,
    n: usize,
) -> Seq<(Seq<char>, Seq<TypeView>)> {
    let out = Seq::<(Seq<char>, Seq<TypeView>)>::empty();
    overload_by_count_spec_each(os, n, out, 0)
}

/// [`overload_by_count_spec`] from element `i` on.
#[verifier::opaque]
pub open spec fn overload_by_count_spec_each(
    os: Seq<(Seq<char>, Seq<TypeView>)>,
    n: usize,
    out: Seq<(Seq<char>, Seq<TypeView>)>,
    i: nat,
) -> Seq<(Seq<char>, Seq<TypeView>)>
    decreases os.len() - i,
{
    if i < os.len() {
        let o = os[i as int];
        let out = if (o.1.len() as usize) == n {
            out.push(o)
        } else {
            out
        };
        overload_by_count_spec_each(os, n, out, i + 1)
    } else {
        out
    }
}

/// A function, if it is declared.
#[verifier::opaque]
pub open spec fn declared(s: State, name: Seq<char>) -> Option<Seq<char>> {
    if s.out.decls.contains_key(name) {
        Some(name)
    } else {
        None
    }
}

/// The declared function that a name stands for: itself, the only overload with as many parameters,
/// or the one with these types.
#[verifier::opaque]
pub open spec fn resolve_function(
    s: State,
    name: Seq<char>,
    args: Seq<TypeView>,
) -> Option<Seq<char>> {
    if s.out.decls.contains_key(name) {
        Some(name)
    } else {
        match at(s.env.overloads, name) {
            Some(os) => {
                let fitting = overload_by_count_spec(os, args.len() as usize);
                if (fitting.len() as usize) == 1 {
                    declared(s, fitting[0].0)
                } else {
                    resolve_function_each(s, args, fitting, 0)
                }
            },
            None => None,
        }
    }
}

/// [`resolve_function`] from element `i` on.
#[verifier::opaque]
pub open spec fn resolve_function_each(
    s: State,
    args: Seq<TypeView>,
    fitting: Seq<(Seq<char>, Seq<TypeView>)>,
    i: nat,
) -> Option<Seq<char>>
    decreases fitting.len() - i,
{
    if i < fitting.len() {
        let o = fitting[i as int];
        if o.1 == args {
            declared(s, o.0)
        } else {
            resolve_function_each(s, args, fitting, i + 1)
        }
    } else {
        None
    }
}

/// The name that the methods of a receiver are registered under.
#[verifier::opaque]
pub open spec fn method_receiver_name_spec(
    ty: TypeView,
    method: Seq<char>,
    place: Span,
) -> Result<Seq<char>, ErrorView> {
    match method_owner(ty) {
        Some(name) => Ok(name),
        None => {
            Err(err_at(("cannot call method '"@ + method + "' on type "@ + type_text(ty)), place))
        },
    }
}

/// The element type and the length of an array, itself or behind any number of references.
#[verifier::opaque]
pub open spec fn array_behind_spec(ty: TypeView) -> Option<(TypeView, usize)> {
    match behind_refs_spec(ty) {
        TypeView::Array { inner, len: n } => Some((*inner, n)),
        _ => None,
    }
}

/// The name of a function of the module that is being compiled.
#[verifier::opaque]
pub open spec fn module_function(s: State, callee: Seq<char>) -> Option<Seq<char>> {
    if has_separator_spec(callee) || ((s.fun.here.len() as usize) == 0) {
        None
    } else {
        Some(join(s.fun.here, "::"@) + "::"@ + callee)
    }
}

/// Whether a name is a path of more than one segment.
#[verifier::opaque]
pub open spec fn has_separator_spec(name: Seq<char>) -> bool {
    let own = split_path(name);
    ((own.len() as usize) > 1)
}

/// What a function returns that comes to its end without a value.
#[verifier::opaque]
pub open spec fn zero_of_spec(lty: LTyView) -> ValView {
    match lty {
        LTyView::Int(_) => (ValView { op: OperandView::Int(0), ty: lty }),
        LTyView::F32 | LTyView::F64 => {
            ValView { op: OperandView::Float(FloatConstView::FromInt(0)), ty: lty }
        },
        LTyView::Ptr => (ValView { op: OperandView::Null, ty: lty }),
        _ => undef(lty),
    }
}

/// The definition of an associated constant.
#[verifier::opaque]
pub open spec fn const_at(
    s: EnvView,
    owner: Seq<char>,
    name: Seq<char>,
) -> Option<(ExprView, TypeView)> {
    match at(s.const_defs, owner) {
        Some(defs) => at(defs, name),
        None => None,
    }
}

/// The type in an `Option`.
#[verifier::opaque]
pub open spec fn option_payload_spec(ty: TypeView) -> Option<TypeView> {
    match ty {
        TypeView::GenericInstance(name, args) => {
            if (name == "Option"@) && ((args.len() as usize) == 1) {
                Some(args[0])
            } else {
                None
            }
        },
        _ => None,
    }
}

/// The address of an element of an array.
#[verifier::opaque]
pub open spec fn element_at(s: State, lty: LTyView, base: ValView, i: usize) -> (ValView, State) {
    elem_ptr(s, lty, base, seq![int_const(64, 0), int_const(64, i as u64)])
}

/// Stores a value in every element of an array from `i` on.
#[verifier::opaque]
pub open spec fn store_repeated(
    s: State,
    lty: LTyView,
    base: ValView,
    v: ValView,
    i: usize,
    count: usize,
) -> State
    decreases count - i,
{
    if i < count {
        let (p, s) = element_at(s, lty, base, i);
        let s = store(s, v, p);
        store_repeated(s, lty, base, v, ((i + 1) as usize), count)
    } else {
        s
    }
}

/// Goes into a loop.
#[verifier::opaque]
pub open spec fn open_loop(
    s: State,
    continue_bb: usize,
    break_bb: usize,
    result: Option<(ValView, TypeView)>,
) -> State {
    State {
        fun: FunView {
            loops: s.fun.loops.push(
                LoopContextView {
                    continue_bb: continue_bb,
                    break_bb: break_bb,
                    result: result,
                    depth: (s.fun.scopes.len() as usize),
                },
            ),
            ..s.fun
        },
        ..s
    }
}

/// The element type and the length of an array, itself or behind one reference.
pub open spec fn array_parts(ty: TypeView) -> Option<(TypeView, usize)> {
    match ty {
        TypeView::Array { inner, len } => Some((*inner, len)),
        TypeView::Ref { inner, .. } => match *inner {
            TypeView::Array { inner: elem, len } => Some((*elem, len)),
            _ => None,
        },
        _ => None,
    }
}

/// The element type and the length of an array, itself or behind one reference.
pub fn element_pair(ty: &Type) -> (r: Option<(Type, usize)>)
    ensures
        r.model() == array_parts(ty@),
{
    reveal_with_fuel(type_view, 3);
    match ty {
        Type::Array { inner, len } => Some(((**inner).clone(), *len)),
        Type::Ref { inner, .. } => match &**inner {
            Type::Array { inner: elem, len } => Some(((**elem).clone(), *len)),
            _ => None,
        },
        _ => None,
    }
}

/// Whether a machine type is a struct type.
pub fn is_aggregate(ty: &LTy) -> (r: bool)
    ensures
        r == is_aggregate_spec(ty@),
{
    proof {
        reveal(is_aggregate_spec);
    }
    matches!(ty, LTy::Struct { .. } | LTy::Named { .. })
}

/// The struct that a field is read from: itself, or behind a reference.
pub fn owner_or_fail(ty: &Type, field: &str, place: Span) -> (r: Result<String, CodegenError>)
    ensures
        r.model() == owner_or_fail_spec(ty@, field@, place),
{
    proof {
        reveal(owner_or_fail_spec);
    }
    match ty {
        Type::Ref { inner, .. } => {
            let subject = struct_name_of(inner);
            match &subject {
                Some(name) => {
                    return Ok(name.clone());
                },
                None => {
                    return Err(
                        CodegenError::with_span(
                            cat3("cannot access field '", field, "' on non-struct type"),
                            place,
                        ),
                    );
                },
            }
        },
        _ => {
            let subject2 = struct_name_of(ty);
            match &subject2 {
                Some(name) => {
                    return Ok(name.clone());
                },
                None => {
                    return Err(
                        CodegenError::with_span(
                            cat3("cannot access field '", field, "' on non-struct type"),
                            place,
                        ),
                    );
                },
            }
        },
    }
}

/// The element type and the length of an array that is indexed, itself or behind a reference.
pub fn array_parts_or_fail(ty: &Type, place: Span) -> (r: Result<(Type, usize), CodegenError>)
    ensures
        r.model() == array_parts_or_fail_spec(ty@, place),
{
    proof {
        reveal(array_parts_or_fail_spec);
    }
    let subject = element_pair(ty);
    match &subject {
        Some(pair) => {
            return Ok(pair.dup());
        },
        None => {
            return Err(
                CodegenError::with_span(
                    cat("cannot index into non-array type ", &show_type(ty)),
                    place,
                ),
            );
        },
    }
}

/// A value that has to be an integer.
pub fn as_int(v: &Val) -> (r: Result<Val, CodegenError>)
    ensures
        r.model() == as_int_spec(v@),
{
    proof {
        reveal(as_int_spec);
    }
    if matches!(&v.ty, LTy::Int { .. }) {
        return Ok(v.clone());
    }
    Err(CodegenError::new("internal: not an integer".to_owned()))
}

/// The machine types of values.
pub fn value_types(vals: &Vec<Val>) -> (r: Vec<LTy>)
    ensures
        l_ty_seq_view(r@) == value_types_spec(val_seq_view(vals@)),
{
    proof {
        reveal(value_types_spec);
    }
    let items: Vec<LTy> = Vec::new();
    proof {
        assert(l_ty_seq_view(items@) =~= Seq::<LTyView>::empty());
    }
    let mut tys = items;
    let mut i: usize = 0;
    while i < vals.len()
        invariant
            i <= vals@.len(),
            l_ty_seq_view(tys@).len() == i,
            forall|k: int| #![trigger l_ty_seq_view(tys@)[k]] 0 <= k < i ==> l_ty_seq_view(tys@)[k] == {
                let v = val_seq_view(vals@)[k];
                v.ty
            },
        decreases vals@.len() - i,
    {
        let v = &vals[i];
        proof {
            assert(val_seq_view(vals@)[i as int] == val_view(vals@[i as int]));
        }
        let ghost prior = l_ty_seq_view(tys@);
        let item = v.ty.clone();
        tys.push(item);
        proof {
            assert(l_ty_seq_view(tys@) =~= prior.push(item@));
        }
        i += 1;
    }
    proof {
        assert(l_ty_seq_view(tys@) =~= value_types_spec(val_seq_view(vals@)));
    }
    tys
}

/// The name of the struct that a type is, or that is behind one reference.
pub fn struct_behind(ty: &Type) -> (r: Option<String>)
    ensures
        r.model() == struct_behind_spec(ty@),
{
    proof {
        reveal(struct_behind_spec);
    }
    match ty {
        Type::Ref { inner, .. } => {
            return struct_name_of(inner);
        },
        _ => {
            return struct_name_of(ty);
        },
    }
}

/// The overloads with that many parameters.
pub fn overload_by_count(os: &Vec<(String, Vec<Type>)>, n: usize) -> (r: Vec<(String, Vec<Type>)>)
    ensures
        r.model() == overload_by_count_spec(os.model(), n),
{
    proof {
        reveal(overload_by_count_spec);
        reveal(overload_by_count_spec_each);
    }
    let items: Vec<(String, Vec<Type>)> = Vec::new();
    proof {
        assert(items.model() =~= Seq::<(Seq<char>, Seq<TypeView>)>::empty());
    }
    let mut out = items;
    let mut i: usize = 0;
    while i < os.len()
        invariant
            i <= os@.len(),
            overload_by_count_spec_each(
                os.model(),
                n,
                out.model(),
                i as nat,
            ) == overload_by_count_spec(os.model(), n),
        decreases os@.len() - i,
    {
        proof {
            reveal(overload_by_count_spec);
            reveal(overload_by_count_spec_each);
        }
        let o = &os[i];
        proof {
            assert(type_seq_view(o.1@).len() == o.1@.len());
        }
        if o.1.len() == n {
            let ghost prior = out.model();
            let item = o.dup();
            out.push(item);
            proof {
                assert(out.model() =~= prior.push(item.model()));
            }
        }
        i += 1;
    }
    out
}

/// The name that the methods of a receiver are registered under.
pub fn method_receiver_name(
    ty: &Type,
    method: &str,
    place: Span,
) -> (r: Result<String, CodegenError>)
    ensures
        r.model() == method_receiver_name_spec(ty@, method@, place),
{
    proof {
        reveal(method_receiver_name_spec);
    }
    let subject = method_owner_name(ty);
    match &subject {
        Some(name) => {
            return Ok(name.clone());
        },
        None => {
            return Err(
                CodegenError::with_span(
                    cat(&cat3("cannot call method '", method, "' on type "), &show_type(ty)),
                    place,
                ),
            );
        },
    }
}

/// The element type and the length of an array, itself or behind any number of references.
pub fn array_behind(ty: &Type) -> (r: Option<(Type, usize)>)
    ensures
        r.model() == array_behind_spec(ty@),
{
    proof {
        reveal(array_behind_spec);
    }
    let subject = behind_refs(ty);
    match &subject {
        Type::Array { inner, len: n } => {
            return Some(((**inner).clone(), *n));
        },
        _ => {
            return None;
        },
    }
}

/// Whether a name is a path of more than one segment.
pub fn has_separator(name: &str) -> (r: bool)
    ensures
        r == has_separator_spec(name@),
{
    proof {
        reveal(has_separator_spec);
    }
    let own = path_segments(name);
    (own.len() > 1)
}

/// What a function returns that comes to its end without a value.
pub fn zero_of(lty: &LTy) -> (r: Val)
    ensures
        r@ == zero_of_spec(lty@),
{
    proof {
        reveal(zero_of_spec);
    }
    match lty {
        LTy::Int(_) => {
            return Val { op: Operand::Int(0), ty: lty.clone() };
        },
        LTy::F32 | LTy::F64 => {
            return Val { op: Operand::Float(FloatConst::FromInt(0)), ty: lty.clone() };
        },
        LTy::Ptr => {
            return Val { op: Operand::Null, ty: lty.clone() };
        },
        _ => {
            return mk_undef(lty);
        },
    }
}

/// The type in an `Option`.
pub fn option_payload(ty: &Type) -> (r: Option<Type>)
    ensures
        r.model() == option_payload_spec(ty@),
{
    proof {
        reveal(option_payload_spec);
    }
    match ty {
        Type::GenericInstance(name, args) => {
            proof {
                assert(type_seq_view(args@).len() == args@.len());
            }
            if same(name, "Option") && (args.len() == 1) {
                proof {
                    assert(type_seq_view(args@)[0] == type_view(args@[0]));
                }
                return Some(args[0].clone());
            }
            return None;
        },
        _ => {
            return None;
        },
    }
}

impl Env {
    /// A struct that has a machine type.
    pub fn known_struct(&self, name: &str) -> (r: Result<String, CodegenError>)
        ensures
            r.model() == known_struct(self@, name@),
    {
        proof {
            reveal(known_struct);
        }
        if self.struct_types.contains(name) {
            return Ok(name.to_owned());
        }
        Err(CodegenError::new(cat3("unknown struct type '", name, "'")))
    }

    /// The struct whose field is assigned to: itself, or behind a mutable reference.
    pub fn assigned_struct(&self, ty: &Type) -> (r: Result<String, CodegenError>)
        ensures
            r.model() == assigned_struct(self@, ty@),
    {
        proof {
            reveal(assigned_struct);
        }
        match ty {
            Type::Ref { inner, is_mut } => {
                if !(*is_mut) {
                    return Err(
                        CodegenError::new(
                            "cannot assign to field through immutable reference".to_owned(),
                        ),
                    );
                }
                let subject = struct_name_of(inner);
                match &subject {
                    Some(name) => {
                        return self.known_struct(name);
                    },
                    None => {
                        return Err(
                            CodegenError::new("cannot access field on non-struct type".to_owned()),
                        );
                    },
                }
            },
            _ => {
                let subject2 = struct_name_of(ty);
                match &subject2 {
                    Some(name) => {
                        return self.known_struct(name);
                    },
                    None => {
                        return Err(
                            CodegenError::new(
                                "cannot assign to field on non-struct type".to_owned(),
                            ),
                        );
                    },
                }
            },
        }
    }

    /// The place of a field in its struct.
    pub fn field_number(&self, owner: &str, field: &str) -> (r: Result<u32, CodegenError>)
        ensures
            r.model() == field_number(self@, owner@, field@),
    {
        proof {
            reveal(field_number);
        }
        let subject = self.struct_fields.get_dup(owner);
        match &subject {
            Some(fields) => {
                let subject2 = field_position(fields, field);
                match &subject2 {
                    Some(i) => {
                        return Ok(*i as u32);
                    },
                    None => {
                        return Err(
                            CodegenError::new(
                                cat3(&cat3("struct '", owner, "' has no field '"), field, "'"),
                            ),
                        );
                    },
                }
            },
            None => {
                return Err(CodegenError::new(cat3("unknown struct '", owner, "'")));
            },
        }
    }

    /// The type of a field.
    pub fn field_type_at(&self, owner: &str, k: u32) -> (r: Option<Type>)
        ensures
            r.model() == field_type_at(self@, owner@, k),
    {
        proof {
            reveal(field_type_at);
        }
        let subject = self.struct_fields.get_dup(owner);
        match &subject {
            Some(fields) => {
                let i: usize = k as usize;
                proof {
                    assert(struct_field_seq_view(fields@).len() == fields@.len());
                }
                if i < fields.len() {
                    proof {
                        assert(struct_field_seq_view(fields@)[i as int] == struct_field_view(fields@[i as int]));
                    }
                    return Some(fields[i].ty.clone());
                }
                return None;
            },
            None => {
                return None;
            },
        }
    }

    /// Whether a struct, or one behind a reference, implements `Drop`.
    pub fn drops_itself(&self, ty: &Type) -> (r: bool)
        ensures
            r == drops_itself(self@, ty@),
    {
        proof {
            reveal(drops_itself);
        }
        let subject = struct_behind(ty);
        match &subject {
            Some(name) => {
                return self.key_implements(name, "Drop");
            },
            None => {
                return false;
            },
        }
    }

    /// Whether a method takes its receiver as a pointer with a length.
    pub fn takes_fat_receiver(&self, f: &str) -> (r: bool)
        ensures
            r == takes_fat_receiver(self@, f@),
    {
        proof {
            reveal(takes_fat_receiver);
        }
        proof {
            reveal_with_fuel(type_view, 3);
        }
        let subject = self.fn_param_types.get_dup(f);
        match &subject {
            Some(tys) => {
                proof {
                    assert(type_seq_view(tys@).len() == tys@.len());
                }
                if tys.len() > 0 {
                    proof {
                        assert(type_seq_view(tys@)[0] == type_view(tys@[0]));
                    }
                    match &tys[0] {
                        Type::Ref { inner, .. } => {
                            return matches!(&**inner, Type::Str { .. } | Type::Slice { .. });
                        },
                        _ => {
                            return false;
                        },
                    }
                }
                return false;
            },
            None => {
                return false;
            },
        }
    }

    /// The definition of an associated constant.
    pub fn const_at(&self, owner: &str, name: &str) -> (r: Option<(Expr, Type)>)
        ensures
            r.model() == const_at(self@, owner@, name@),
    {
        proof {
            reveal(const_at);
        }
        let subject = self.const_defs.get_dup(owner);
        match &subject {
            Some(defs) => {
                return defs.get_dup(name);
            },
            None => {
                return None;
            },
        }
    }
}

impl CodeGen {
    /// Where a variable is.
    pub fn variable_ptr(&self, name: &str, place: Span) -> (r: Result<Val, CodegenError>)
        ensures
            r.model() == variable_ptr(self@, name@, place),
    {
        proof {
            reveal(variable_ptr);
        }
        let subject = self.fun.symbols.get_dup(name);
        match &subject {
            Some(v) => {
                return Ok(v.0.clone());
            },
            None => {
                return Err(CodegenError::with_span(cat3("undefined variable '", name, "'"), place));
            },
        }
    }

    /// The value of a constant or a variable; one that was moved out of has none.
    pub fn load_ident(&mut self, name: &str, place: Span) -> (r: Result<Val, CodegenError>)
        ensures
            (r.model(), final(self)@) == load_ident(old(self)@, name@, place),
            stays(old(self)@, final(self)@),
            r is Ok ==> settled(old(self)@, final(self)@),
            r is Ok ==> confined(old(self)@.out.cur, final(self)@.out.cur),
            r is Ok ==> same_variables(old(self)@, final(self)@),
    {
        proof {
            broadcast use crate::growth::group_growth;

            count_from(old(self)@);
            reveal(load_ident);
        }
        if self.fun.moved.contains(name) {
            return Err(CodegenError::new(cat3("cannot use moved variable '", name, "'")));
        }
        let subject = self.fun.consts.get_dup(name);
        match &subject {
            Some(c) => {
                return self.env.const_value_to_llvm(&c.0, &c.1);
            },
            None => {},
        }
        let subject2 = self.fun.symbols.get_dup(name);
        match &subject2 {
            Some(v) => {
                let lty = match self.env.type_to_llvm(&v.2) {
                    Ok(v) => v,
                    Err(e) => {
                        return Err(e);
                    },
                };
                let got2 = self.load(&lty, &v.0);
                return Ok(got2);
            },
            None => {
                return Err(CodegenError::with_span(cat3("undefined variable '", name, "'"), place));
            },
        }
    }

    /// Where a variable is that is assigned to.
    pub fn assigned_variable(&self, name: &str) -> (r: Result<Val, CodegenError>)
        ensures
            r.model() == assigned_variable(self@, name@),
    {
        proof {
            reveal(assigned_variable);
        }
        if self.fun.consts.contains_key(name) {
            return Err(CodegenError::new(cat3("cannot assign to constant '", name, "'")));
        }
        let subject = self.fun.symbols.get_dup(name);
        match &subject {
            Some(v) => {
                if v.1 {
                    return Ok(v.0.clone());
                }
                return Err(
                    CodegenError::new(cat3("cannot assign to immutable variable '", name, "'")),
                );
            },
            None => {
                return Err(CodegenError::new(cat3("undefined variable '", name, "'")));
            },
        }
    }

    /// A pointer to a string constant with its length.
    pub fn string_literal(&mut self, text: &str) -> (r: Val)
        ensures
            (r@, final(self)@) == string_literal(old(self)@, text@),
            stays(old(self)@, final(self)@),
            settled(old(self)@, final(self)@),
            confined(old(self)@.out.cur, final(self)@.out.cur),
            same_variables(old(self)@, final(self)@),
    {
        proof {
            broadcast use crate::growth::group_growth;

            count_from(old(self)@);
            reveal(string_literal);
        }
        let n: usize = self.out.strings.len();
        let ghost prior = texts(self.out.strings@);
        let item = text.to_owned();
        let ghost past = self@.out;
        self.out.strings.push(item);
        proof {
            assert(grown(past, self@.out)) by {
                reveal(grown);
            }
            lemma_returned_more(past, self@.out);
        }
        proof {
            assert(texts(self.out.strings@) =~= prior.push(item@));
        }
        self.make_fat(
            &Val { op: Operand::Str(n), ty: LTy::Ptr },
            &mk_int(64, (bytes_in(text) as u64)),
        )
    }

    /// The place of a field that is named, which has to be visible, or numbered.
    pub fn visible_field(
        &self,
        owner: &str,
        field: &Option<String>,
        index: usize,
    ) -> (r: Result<u32, CodegenError>)
        ensures
            r.model() == visible_field(self@, owner@, field.model(), index),
    {
        proof {
            reveal(visible_field);
        }
        match field {
            Some(name) => {
                match self.env.check_field_visibility(&self.fun.here, owner, name) {
                    Ok(_) => {},
                    Err(e) => {
                        return Err(e);
                    },
                }
                return self.env.field_number(owner, name);
            },
            None => {
                return Ok(index as u32);
            },
        }
    }

    /// The place of a member that is read.
    pub fn member_number(
        &self,
        ty: &Type,
        field: &Option<String>,
        index: usize,
        place: Span,
    ) -> (r: Result<u32, CodegenError>)
        ensures
            r.model() == member_number(self@, ty@, field.model(), index, place),
    {
        proof {
            reveal(member_number);
        }
        match field {
            Some(name) => {
                let owner = match owner_or_fail(ty, name, place) {
                    Ok(v) => v,
                    Err(e) => {
                        return Err(e);
                    },
                };
                return self.visible_field(&owner, field, index);
            },
            None => {
                return Ok(index as u32);
            },
        }
    }

    /// A struct value, read through the pointer to it.
    pub fn read_through(&mut self, v: &Val, ty: &Type) -> (r: Result<Val, CodegenError>)
        ensures
            (r.model(), final(self)@) == read_through(old(self)@, v@, ty@),
            stays(old(self)@, final(self)@),
            r is Ok ==> settled(old(self)@, final(self)@),
            r is Ok ==> confined(old(self)@.out.cur, final(self)@.out.cur),
            r is Ok ==> same_variables(old(self)@, final(self)@),
    {
        proof {
            broadcast use crate::growth::group_growth;

            count_from(old(self)@);
            reveal(read_through);
        }
        if !matches!(&v.ty, LTy::Ptr { .. }) {
            return Ok(v.clone());
        }
        match ty {
            Type::Ref { inner, .. } => {
                let lty = match self.env.type_to_llvm(inner) {
                    Ok(v) => v,
                    Err(e) => {
                        return Err(e);
                    },
                };
                let got2 = self.load(&lty, v);
                return Ok(got2);
            },
            Type::Struct { .. } | Type::GenericInstance { .. } => {
                let lty = match self.env.type_to_llvm(ty) {
                    Ok(v) => v,
                    Err(e) => {
                        return Err(e);
                    },
                };
                let got4 = self.load(&lty, v);
                return Ok(got4);
            },
            _ => {
                return Ok(v.clone());
            },
        }
    }

    /// A member of a struct value.
    pub fn member_of(
        &mut self,
        v: &Val,
        ty: &Type,
        field: &Option<String>,
        index: usize,
        place: Span,
    ) -> (r: Result<Val, CodegenError>)
        ensures
            (r.model(), final(self)@) == member_of(
                old(self)@,
                v@,
                ty@,
                field.model(),
                index,
                place,
            ),
            stays(old(self)@, final(self)@),
            r is Ok ==> settled(old(self)@, final(self)@),
            r is Ok ==> confined(old(self)@.out.cur, final(self)@.out.cur),
            r is Ok ==> same_variables(old(self)@, final(self)@),
    {
        proof {
            broadcast use crate::growth::group_growth;

            count_from(old(self)@);
            reveal(member_of);
        }
        let x = match self.read_through(v, ty) {
            Ok(v) => v,
            Err(e) => {
                return Err(e);
            },
        };
        if !is_aggregate(&x.ty) {
            return Err(
                CodegenError::with_span(
                    "cannot access member of non-struct value".to_owned(),
                    place,
                ),
            );
        }
        let k: u32 = match self.member_number(ty, field, index, place) {
            Ok(v) => v,
            Err(e) => {
                return Err(e);
            },
        };
        let own = self.fields_of(&x.ty);
        proof {
            assert(l_ty_seq_view(own@).len() == own@.len());
        }
        let n: usize = own.len();
        if (k as usize) >= n {
            return Err(
                CodegenError::with_span(
                    cat3(
                        &cat3(
                            "field index ",
                            &show_usize(k as usize),
                            " out of bounds; struct has ",
                        ),
                        &show_usize(n),
                        " fields",
                    ),
                    place,
                ),
            );
        }
        let got4 = self.extract(&x, k);
        match &got4 {
            Some(r) => {
                return Ok(r.clone());
            },
            None => {
                return Err(
                    CodegenError::new(
                        "failed to extract struct field: Aggregate extract index out of range".to_owned(),
                    ),
                );
            },
        }
    }

    /// The function that indexes an array type.
    pub fn index_method(&self, key: &str, method: &str) -> (r: Result<String, CodegenError>)
        ensures
            r.model() == index_method(self@, key@, method@),
    {
        proof {
            reveal(index_method);
        }
        if !self.env.impl_methods.contains_key(key) {
            return Err(CodegenError::new(cat3("no methods registered for array type '", key, "'")));
        }
        let subject = self.env.find_method(key, method);
        match &subject {
            Some(f) => {
                if self.out.decls.contains_key(f) {
                    return Ok(f.clone());
                }
                return Err(
                    CodegenError::new(
                        cat3(&cat3("internal: ", method, " function '"), f, "' not found"),
                    ),
                );
            },
            None => {
                return Err(
                    CodegenError::new(
                        cat3(&cat3("no '", method, "' method for array type '"), key, "'"),
                    ),
                );
            },
        }
    }

    /// The pointer in a slice.
    pub fn slice_ptr(&mut self, v: &Val, place: Span) -> (r: Result<Val, CodegenError>)
        ensures
            (r.model(), final(self)@) == slice_ptr(old(self)@, v@, place),
            stays(old(self)@, final(self)@),
            r is Ok ==> settled(old(self)@, final(self)@),
            r is Ok ==> confined(old(self)@.out.cur, final(self)@.out.cur),
            r is Ok ==> same_variables(old(self)@, final(self)@),
    {
        proof {
            broadcast use crate::growth::group_growth;

            count_from(old(self)@);
            reveal(slice_ptr);
        }
        if !is_aggregate(&v.ty) {
            return Err(CodegenError::with_span("expected slice fat pointer".to_owned(), place));
        }
        let got = self.extract(v, 0);
        match &got {
            Some(p) => {
                return as_ptr(p);
            },
            None => {
                return Err(
                    CodegenError::new(
                        "failed to extract slice ptr: Aggregate extract index out of range".to_owned(),
                    ),
                );
            },
        }
    }

    /// A pointer to a value: itself, if it is one, or to where it is put.
    pub fn in_memory(&mut self, v: &Val) -> (r: Val)
        ensures
            (r@, final(self)@) == in_memory(old(self)@, v@),
            stays(old(self)@, final(self)@),
            settled(old(self)@, final(self)@),
            confined(old(self)@.out.cur, final(self)@.out.cur),
            same_variables(old(self)@, final(self)@),
    {
        proof {
            broadcast use crate::growth::group_growth;

            count_from(old(self)@);
            reveal(in_memory);
        }
        if matches!(&v.ty, LTy::Ptr { .. }) {
            return v.clone();
        }
        self.spill(&v.ty, v)
    }

    /// A truth value: an integer of more bits is compared with zero.
    pub fn to_bit(&mut self, v: &Val, msg: &str) -> (r: Result<Val, CodegenError>)
        ensures
            (r.model(), final(self)@) == to_bit(old(self)@, v@, msg@),
            stays(old(self)@, final(self)@),
            r is Ok ==> settled(old(self)@, final(self)@),
            r is Ok ==> confined(old(self)@.out.cur, final(self)@.out.cur),
            r is Ok ==> same_variables(old(self)@, final(self)@),
    {
        proof {
            broadcast use crate::growth::group_growth;

            count_from(old(self)@);
            reveal(to_bit);
        }
        match &v.ty {
            LTy::Int(w) => {
                if *w == 1 {
                    return Ok(v.clone());
                }
                let got = self.int_test(
                    IntPred::Ne,
                    v,
                    &Val { op: Operand::Int(0), ty: v.ty.clone() },
                );
                return Ok(got);
            },
            _ => {
                return Err(CodegenError::new(msg.to_owned()));
            },
        }
    }

    /// A truth value: an integer of more bits is truncated.
    pub fn low_bit(&mut self, v: &Val) -> (r: Option<Val>)
        ensures
            (r.model(), final(self)@) == low_bit(old(self)@, v@),
            stays(old(self)@, final(self)@),
            settled(old(self)@, final(self)@),
            confined(old(self)@.out.cur, final(self)@.out.cur),
            same_variables(old(self)@, final(self)@),
    {
        proof {
            broadcast use crate::growth::group_growth;

            count_from(old(self)@);
            reveal(low_bit);
        }
        match &v.ty {
            LTy::Int(w) => {
                if *w == 1 {
                    return Some(v.clone());
                }
                let got = self.cast(CastKind::Trunc, v, &LTy::Int(1));
                return Some(got);
            },
            _ => {
                return None;
            },
        }
    }

    /// Stores a value, converted where its machine type is another one.
    pub fn store_as(
        &mut self,
        v: &Val,
        from_ty: &Type,
        to: &Type,
        lty: &LTy,
        slot: &Val,
    ) -> (r: Result<(), CodegenError>)
        ensures
            (r.model(), final(self)@) == store_as(old(self)@, v@, from_ty@, to@, lty@, slot@),
            stays(old(self)@, final(self)@),
            r is Ok ==> settled(old(self)@, final(self)@),
            r is Ok ==> confined(old(self)@.out.cur, final(self)@.out.cur),
            r is Ok ==> same_variables(old(self)@, final(self)@),
    {
        proof {
            broadcast use crate::growth::group_growth;

            count_from(old(self)@);
            reveal(store_as);
        }
        if same_lty(&v.ty, lty) {
            self.store(v, slot);
            return Ok(());
        }
        let x = match self.emit_cast(v, from_ty, to) {
            Ok(v) => v,
            Err(e) => {
                return Err(e);
            },
        };
        self.store(&x, slot);
        Ok(())
    }

    /// A tuple of values.
    pub fn tuple_value(&mut self, vals: &Vec<Val>) -> (r: Result<Val, CodegenError>)
        ensures
            (r.model(), final(self)@) == tuple_value(old(self)@, val_seq_view(vals@)),
            stays(old(self)@, final(self)@),
            r is Ok ==> settled(old(self)@, final(self)@),
            r is Ok ==> confined(old(self)@.out.cur, final(self)@.out.cur),
            r is Ok ==> same_variables(old(self)@, final(self)@),
    {
        proof {
            broadcast use crate::growth::group_growth;

            count_from(old(self)@);
            reveal(tuple_value);
            reveal(tuple_value_each);
        }
        let mut agg = mk_undef(&LTy::Struct(value_types(vals)));
        let mut i: usize = 0;
        while i < vals.len()
            invariant
                i <= vals@.len(),
                tuple_value_each(
                    self@,
                    val_seq_view(vals@),
                    agg@,
                    i as nat,
                ) == tuple_value(old(self)@, val_seq_view(vals@)),
                stays(old(self)@, self@),
                settled(old(self)@, self@),
                confined(old(self)@.out.cur, self@.out.cur),
                same_variables(old(self)@, self@),
            decreases vals@.len() - i,
        {
            proof {
                broadcast use crate::growth::group_growth;

                count_from(old(self)@);
                reveal(tuple_value);
                reveal(tuple_value_each);
            }
            let v = &vals[i];
            proof {
                assert(val_seq_view(vals@)[i as int] == val_view(vals@[i as int]));
            }
            let got = self.insert(&agg, v, i as u32);
            match &got {
                Some(more) => {
                    agg = more.clone();
                },
                None => {
                    return Err(
                        CodegenError::new(
                            cat3(
                                "failed to build tuple elem ",
                                &show_usize(i),
                                ": Aggregate extract index out of range",
                            ),
                        ),
                    );
                },
            }
            i += 1;
        }
        Ok(agg.clone())
    }

    /// An argument as parameter `k` of a function wants it, where its types are known.
    pub fn coerce_param(
        &mut self,
        v: &Val,
        ty: &Type,
        f: &str,
        k: usize,
    ) -> (r: Result<Val, CodegenError>)
        ensures
            (r.model(), final(self)@) == coerce_param(old(self)@, v@, ty@, f@, k),
            stays(old(self)@, final(self)@),
            r is Ok ==> settled(old(self)@, final(self)@),
            r is Ok ==> confined(old(self)@.out.cur, final(self)@.out.cur),
            r is Ok ==> same_variables(old(self)@, final(self)@),
    {
        proof {
            broadcast use crate::growth::group_growth;

            count_from(old(self)@);
            reveal(coerce_param);
        }
        let subject = self.env.fn_param_types.get_dup(f);
        match &subject {
            Some(tys) => {
                proof {
                    assert(type_seq_view(tys@).len() == tys@.len());
                }
                if k < tys.len() {
                    proof {
                        assert(type_seq_view(tys@)[k as int] == type_view(tys@[k as int]));
                    }
                    let lty = match self.env.type_to_llvm(&tys[k]) {
                        Ok(v) => v,
                        Err(e) => {
                            return Err(e);
                        },
                    };
                    if same_lty(&v.ty, &lty) {
                        return Ok(v.clone());
                    }
                    proof {
                        assert(type_seq_view(tys@)[k as int] == type_view(tys@[k as int]));
                    }
                    return self.coerce_arg(v, ty, &tys[k]);
                }
                return Ok(v.clone());
            },
            None => {
                return Ok(v.clone());
            },
        }
    }

    /// The arguments of a call as the parameters want them.
    pub fn coerce_all(
        &mut self,
        args: &Vec<Expr>,
        vals: &Vec<Val>,
        f: &str,
    ) -> (r: Result<Vec<Val>, CodegenError>)
        ensures
            (r.model(), final(self)@) == coerce_all(
                old(self)@,
                expr_seq_view(args@),
                val_seq_view(vals@),
                f@,
            ),
            stays(old(self)@, final(self)@),
            r is Ok ==> settled(old(self)@, final(self)@),
            r is Ok ==> confined(old(self)@.out.cur, final(self)@.out.cur),
            r is Ok ==> same_variables(old(self)@, final(self)@),
    {
        proof {
            broadcast use crate::growth::group_growth;

            count_from(old(self)@);
            reveal(coerce_all);
            reveal(coerce_all_each);
        }
        let items: Vec<Val> = Vec::new();
        proof {
            assert(val_seq_view(items@) =~= Seq::<ValView>::empty());
        }
        let mut out = items;
        let mut i: usize = 0;
        while i < vals.len()
            invariant
                i <= vals@.len(),
                coerce_all_each(
                    self@,
                    expr_seq_view(args@),
                    val_seq_view(vals@),
                    f@,
                    val_seq_view(out@),
                    i as nat,
                ) == coerce_all(old(self)@, expr_seq_view(args@), val_seq_view(vals@), f@),
                stays(old(self)@, self@),
                settled(old(self)@, self@),
                confined(old(self)@.out.cur, self@.out.cur),
                same_variables(old(self)@, self@),
            decreases vals@.len() - i,
        {
            proof {
                broadcast use crate::growth::group_growth;

                count_from(old(self)@);
                reveal(coerce_all);
                reveal(coerce_all_each);
            }
            let v = &vals[i];
            proof {
                assert(val_seq_view(vals@)[i as int] == val_view(vals@[i as int]));
            }
            proof {
                assert(expr_seq_view(args@).len() == args@.len());
            }
            if i < args.len() {
                proof {
                    assert(expr_seq_view(args@)[i as int] == expr_view(args@[i as int]));
                }
                let x = match self.coerce_param(v, &self.expr_type(&args[i]), f, i) {
                    Ok(v) => v,
                    Err(e) => {
                        return Err(e);
                    },
                };
                let ghost prior = val_seq_view(out@);
                let item = x.clone();
                out.push(item);
                proof {
                    assert(val_seq_view(out@) =~= prior.push(item@));
                }
            } else {
                let ghost prior2 = val_seq_view(out@);
                let item2 = v.clone();
                out.push(item2);
                proof {
                    assert(val_seq_view(out@) =~= prior2.push(item2@));
                }
            }
            i += 1;
        }
        Ok(dup_val_seq(&out))
    }

    /// Variables that are passed by value are moved out of, unless their type is Copy.
    pub fn move_args(&mut self, args: &Vec<Expr>, f: &str)
        ensures
            final(self)@ == move_args(old(self)@, expr_seq_view(args@), f@),
            stays(old(self)@, final(self)@),
            settled(old(self)@, final(self)@),
            confined(old(self)@.out.cur, final(self)@.out.cur),
            same_variables(old(self)@, final(self)@),
    {
        proof {
            broadcast use crate::growth::group_growth;

            count_from(old(self)@);
            reveal(move_args);
        }
        let subject = self.env.fn_param_types.get_dup(f);
        match &subject {
            Some(tys) => {
                self.move_typed_args(args, tys);
            },
            None => {},
        }
    }

    /// Variables that are passed by value are moved out of, unless their type is Copy.
    pub fn move_typed_args(&mut self, args: &Vec<Expr>, tys: &Vec<Type>)
        ensures
            final(self)@ == move_typed_args(old(self)@, expr_seq_view(args@), type_seq_view(tys@)),
            stays(old(self)@, final(self)@),
            settled(old(self)@, final(self)@),
            confined(old(self)@.out.cur, final(self)@.out.cur),
            same_variables(old(self)@, final(self)@),
    {
        proof {
            broadcast use crate::growth::group_growth;

            count_from(old(self)@);
            reveal(move_typed_args);
            reveal(move_typed_args_each);
        }
        let mut i: usize = 0;
        while i < args.len()
            invariant
                i <= args@.len(),
                move_typed_args_each(
                    self@,
                    expr_seq_view(args@),
                    type_seq_view(tys@),
                    i as nat,
                ) == move_typed_args(old(self)@, expr_seq_view(args@), type_seq_view(tys@)),
                stays(old(self)@, self@),
                settled(old(self)@, self@),
                confined(old(self)@.out.cur, self@.out.cur),
                same_variables(old(self)@, self@),
            decreases args@.len() - i,
        {
            proof {
                broadcast use crate::growth::group_growth;

                count_from(old(self)@);
                reveal(move_typed_args);
                reveal(move_typed_args_each);
            }
            let a = &args[i];
            proof {
                assert(expr_seq_view(args@)[i as int] == expr_view(args@[i as int]));
            }
            proof {
                assert(type_seq_view(tys@).len() == tys@.len());
            }
            if i < tys.len() {
                proof {
                    assert(type_seq_view(tys@)[i as int] == type_view(tys@[i as int]));
                }
                if !matches!(&tys[i], Type::Ref { .. } | Type::Ptr { .. }) {
                    self.note_move(a);
                }
            }
            i += 1;
        }

    }

    /// A function, if it is declared.
    pub fn declared(&self, name: &str) -> (r: Option<String>)
        ensures
            r.model() == declared(self@, name@),
    {
        proof {
            reveal(declared);
        }
        if self.out.decls.contains_key(name) {
            return Some(name.to_owned());
        }
        None
    }

    /// The declared function that a name stands for: itself, the only overload with as many
    /// parameters, or the one with these types.
    pub fn resolve_function(&self, name: &str, args: &Vec<Type>) -> (r: Option<String>)
        ensures
            r.model() == resolve_function(self@, name@, type_seq_view(args@)),
    {
        proof {
            reveal(resolve_function);
            reveal(resolve_function_each);
        }
        if self.out.decls.contains_key(name) {
            return Some(name.to_owned());
        }
        let subject = self.env.overloads.get_dup(name);
        match &subject {
            Some(os) => {
                proof {
                    assert(type_seq_view(args@).len() == args@.len());
                }
                let fitting = overload_by_count(os, args.len());
                if fitting.len() == 1 {
                    return self.declared(&fitting[0].0);
                }
                let mut i: usize = 0;
                while i < fitting.len()
                    invariant
                        i <= fitting@.len(),
                        resolve_function_each(
                            self@,
                            type_seq_view(args@),
                            fitting.model(),
                            i as nat,
                        ) == resolve_function(self@, name@, type_seq_view(args@)),
                    decreases fitting@.len() - i,
                {
                    proof {
                        reveal(resolve_function);
                        reveal(resolve_function_each);
                    }
                    let o = &fitting[i];
                    if same_types(&o.1, args) {
                        return self.declared(&o.0);
                    }
                    i += 1;
                }
                return None;
            },
            None => {
                return None;
            },
        }
    }

    /// The name of a function of the module that is being compiled.
    pub fn module_function(&self, callee: &str) -> (r: Option<String>)
        ensures
            r.model() == module_function(self@, callee@),
    {
        proof {
            reveal(module_function);
        }
        if has_separator(callee) || (self.fun.here.len() == 0) {
            return None;
        }
        Some(cat3(&join_texts(&self.fun.here, "::"), "::", callee))
    }

    /// The address of an element of an array.
    pub fn element_at(&mut self, lty: &LTy, base: &Val, i: usize) -> (r: Val)
        ensures
            (r@, final(self)@) == element_at(old(self)@, lty@, base@, i),
            stays(old(self)@, final(self)@),
            settled(old(self)@, final(self)@),
            confined(old(self)@.out.cur, final(self)@.out.cur),
            same_variables(old(self)@, final(self)@),
    {
        proof {
            broadcast use crate::growth::group_growth;

            count_from(old(self)@);
            reveal(element_at);
        }
        let mut items: Vec<Val> = Vec::new();
        let item = mk_int(64, 0);
        items.push(item);
        let item2 = mk_int(64, i as u64);
        items.push(item2);
        proof {
            assert(val_seq_view(items@) =~= seq![item@, item2@]);
        }
        self.elem_ptr(lty, base, items)
    }

    /// Stores a value in every element of an array from `i` on.
    pub fn store_repeated(&mut self, lty: &LTy, base: &Val, v: &Val, i: usize, count: usize)
        ensures
            final(self)@ == store_repeated(old(self)@, lty@, base@, v@, i, count),
            stays(old(self)@, final(self)@),
            settled(old(self)@, final(self)@),
            confined(old(self)@.out.cur, final(self)@.out.cur),
            same_variables(old(self)@, final(self)@),
        decreases count - i,
    {
        proof {
            broadcast use crate::growth::group_growth;

            count_from(old(self)@);
            reveal(store_repeated);
        }
        if i < count {
            let p = self.element_at(lty, base, i);
            self.store(v, &p);
            self.store_repeated(lty, base, v, (i + 1), count);
        }
    }

    /// Goes into a loop.
    pub fn open_loop(&mut self, continue_bb: usize, break_bb: usize, result: &Option<(Val, Type)>)
        ensures
            final(self)@ == open_loop(old(self)@, continue_bb, break_bb, result.model()),
            stays(old(self)@, final(self)@),
            same_variables(old(self)@, final(self)@),
            entered_loop(old(self)@, final(self)@),
    {
        proof {
            broadcast use crate::growth::group_growth;

            count_from(old(self)@);
            reveal(open_loop);
        }
        let ghost prior = self.fun.loops.model();
        let item = LoopContext {
            continue_bb: continue_bb,
            break_bb: break_bb,
            result: result.dup(),
            depth: self.fun.scopes.len(),
        };
        self.fun.loops.push(item);
        proof {
            assert(self.fun.loops.model() =~= prior.push(item.model()));
        }
        proof {
            assert(shorter(self@.fun.loops) =~= old(self)@.fun.loops);
        }
    }
}

} // verus!
