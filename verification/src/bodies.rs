//! Code for statements, functions and instances.
use crate::ast::{Expr, Function, GenericParam, ImplDecl, Param, Pattern, Stmt, Type};
use crate::builder::{
    add_block, alloca, begin, emit_value, finish, go_to, int_const, mk_int, spill, store,
    terminated,
};
use crate::casts::emit_cast;
use crate::collect::{collect_generic_instances_from_method, method_instances};
use crate::consts::const_eval;
use crate::exprs::{compile_block_get_value, compile_expected, compile_stmts};
use crate::flow::{
    LetElseParts, lemma_adds_both, lemma_splits, lemma_splits_lift, lemma_still_in_block,
    lemma_unbound, let_else_built, splits,
};
use crate::growth::{
    confined, confined_to, count_from, extended, fields_kept, grown, inner_left, keeps,
    lemma_fields_laid, lemma_gone, lemma_returned_back, lemma_scope_closed, outer_kept, returned,
    same_variables, settled, stays, within,
};
use crate::infer::{block_ty, mangled_method_name, method_name, ty_of};
use crate::instances::{
    element_param, element_param_spec, function_instance, instance_enum, instance_impl,
    instance_laid_out, instance_struct, is_generic_base, method_instance, slice_lengths,
    slice_lengths_spec, slice_method, slice_method_name, slice_method_name_spec, slice_method_spec,
    slice_type_args, slice_type_args_spec,
};
use crate::ir::{
    FnSig, FnSigView, Inst, InstView, LTy, LTyView, Val, ValView, l_ty_seq_view, l_ty_view,
    same_lty,
};
use crate::lists::{last_element, last_of};
use crate::model::{
    ExprView, FunctionView, GenericParamView, ImplDeclView, ParamView, PatternView, StmtView,
    TypeView, dup_attribute_seq, dup_generic_param_seq, dup_impl_decl_seq, dup_param_seq,
    dup_type_seq, function_seq_view, function_view, impl_decl_seq_view, impl_decl_view,
    param_seq_view, param_view, type_seq_view,
};
use crate::names::{mangle_generic_instance, mangled, show_type, type_text};
use crate::nesting::{Nested, nested, nested_body, nested_expr, nested_instance};
use crate::operators::{
    add_method, add_trait, arg, arg_spec, branch_if, declared_result, ret, ret_nothing,
    slice_builtins, unreachable_here,
};
use crate::patterns::gen_pattern_check;
use crate::places::{is_aggregate, is_aggregate_spec, zero_of, zero_of_spec};
use crate::query::{array_type, lower_array, lower_type};
use crate::scopes::{
    declare_function, drop_shadowed, enter_scope, exit_scope, leave_inner, note_given,
    note_in_scope, note_move, return_or, return_or_spec,
};
use crate::state::{
    CodeGen, CodegenError, EnvView, ErrorView, FunView, LoopContext, LoopContextView, OutView,
    State, err, err_at,
};
use crate::table::{Model, Names, Table, at};
use crate::text::{before, cat, cat3, same, texts};
use crate::types::{
    array_key, array_type_key, instance_method, monomorphize_method, names_of_params, param_names,
    same_type,
};
use crate::visible::{check_type, inside, item_place};
use vstd::prelude::*;

verus! {

broadcast use crate::lists::group_list_views;

/// Compiles a statement.
#[verifier::opaque]
pub open spec fn stmt_step(s: State, k: Nested, x: StmtView) -> (Result<(), ErrorView>, State) {
    match x {
        StmtView::Let { type_ann, else_block, .. } => {
            match type_ann {
                Some(ty) => {
                    match check_type(s.env, s.fun.here, ty) {
                        Ok(_) => {
                            if else_block is Some {
                                compile_let_else(s, k, x)
                            } else {
                                compile_let(s, k, x)
                            }
                        },
                        Err(e) => (Err(e), s),
                    }
                },
                None => {
                    if else_block is Some {
                        compile_let_else(s, k, x)
                    } else {
                        compile_let(s, k, x)
                    }
                },
            }
        },
        StmtView::Const { name, type_ann, init, .. } => {
            match const_eval(s, k.fuel, init) {
                (Ok(raw), s) => {
                    let ty = type_or_spec(type_ann, ty_of(s, init));
                    let s = State {
                        fun: FunView { consts: s.fun.consts.insert(name, (raw, ty)), ..s.fun },
                        ..s
                    };
                    (Ok(()), s)
                },
                (Err(e), s) => (Err(e), s),
            }
        },
        StmtView::Expr(e) => {
            match nested_expr(s, k, e) {
                (Ok(v), s) => (Ok(()), s),
                (Err(e), s) => (Err(e), s),
            }
        },
        StmtView::Return { value, .. } => {
            match value {
                Some(e) => compile_return(s, k, *e),
                None => return_nothing(s, k.fuel),
            }
        },
        StmtView::Continue { .. } => {
            match last_of(s.fun.loops) {
                Some(c) => {
                    match leave_inner(s, k.fuel, c.depth) {
                        (Ok(_), s) => {
                            let (_, s) = emit_value(s, InstView::Br(c.continue_bb), LTyView::Ptr);
                            (Ok(()), s)
                        },
                        (Err(e), s) => (Err(e), s),
                    }
                },
                None => (Err(err("cannot use `continue` outside of a loop"@)), s),
            }
        },
        StmtView::Break { .. } => {
            match last_of(s.fun.loops) {
                Some(c) => {
                    match compile_break_value(s, k, x, c) {
                        (Ok(_), s) => {
                            match leave_inner(s, k.fuel, c.depth) {
                                (Ok(_), s) => {
                                    let (_, s) = emit_value(
                                        s,
                                        InstView::Br(c.break_bb),
                                        LTyView::Ptr,
                                    );
                                    (Ok(()), s)
                                },
                                (Err(e), s) => (Err(e), s),
                            }
                        },
                        (Err(e), s) => (Err(e), s),
                    }
                },
                None => (Err(err("cannot use `break` outside of a loop"@)), s),
            }
        },
    }
}

/// The type that is written, or another one.
#[verifier::opaque]
pub open spec fn type_or_spec(ann: Option<TypeView>, ty: TypeView) -> TypeView {
    match ann {
        Some(t) => t,
        None => ty,
    }
}

/// The return type of the function under construction.
#[verifier::opaque]
pub open spec fn return_type_here(s: State) -> TypeView {
    match at(s.env.fn_return_types, s.out.cur.name) {
        Some(ty) => ty,
        None => TypeView::I32,
    }
}

/// Stores the value of a `break`, which has to be of the type of its loop.
#[verifier::opaque]
pub open spec fn compile_break_value(
    s: State,
    k: Nested,
    x: StmtView,
    c: LoopContextView,
) -> (Result<(), ErrorView>, State) {
    match x {
        StmtView::Break { value, .. } => {
            match value {
                Some(e) => {
                    match c.result {
                        Some((slot, ty)) => {
                            let found = ty_of(s, *e);
                            if found != ty {
                                (
                                    Err(
                                        err(
                                            "mismatched types: expected "@ + type_text(ty) + ", found "@ + type_text(found),
                                        ),
                                    ),
                                    s,
                                )
                            } else {
                                match nested_expr(s, k, *e) {
                                    (Ok(v), s) => {
                                        match emit_cast(s, v, found, ty) {
                                            (Ok(w), s) => {
                                                let s = store(s, w, slot);
                                                let s = note_given(s, *e);
                                                (Ok(()), s)
                                            },
                                            (Err(e), s) => (Err(e), s),
                                        }
                                    },
                                    (Err(e), s) => (Err(e), s),
                                }
                            }
                        },
                        None => (Err(err("can only break with a value inside `loop`"@)), s),
                    }
                },
                None => {
                    match c.result {
                        Some((slot, ty)) => {
                            if ty is Unit {
                                (Ok(()), s)
                            } else {
                                (
                                    Err(
                                        err(
                                            "mismatched types: expected "@ + type_text(ty) + ", found ()"@,
                                        ),
                                    ),
                                    s,
                                )
                            }
                        },
                        None => (Ok(()), s),
                    }
                },
            }
        },
        _ => (Err(err("internal: not a break"@)), s),
    }
}

/// The first value of a variable.
#[verifier::opaque]
pub open spec fn compile_init(
    s: State,
    k: Nested,
    init: ExprView,
    ann: Option<TypeView>,
) -> (Result<ValView, ErrorView>, State) {
    match ann {
        Some(ty) => compile_expected(s, k, init, ty),
        None => nested_expr(s, k, init),
    }
}

/// A value converted to the type that is written, where its machine type is another one.
#[verifier::opaque]
pub open spec fn annotated(
    s: State,
    v: ValView,
    lty: LTyView,
    ann: Option<TypeView>,
    found: TypeView,
) -> (Result<ValView, ErrorView>, State) {
    if v.ty == lty {
        (Ok(v), s)
    } else {
        match ann {
            Some(ty) => {
                if found != ty {
                    emit_cast(s, v, found, ty)
                } else {
                    (Ok(v), s)
                }
            },
            None => (Ok(v), s),
        }
    }
}

/// A `let`: a variable that it hides is dropped first.
#[verifier::opaque]
pub open spec fn compile_let(s: State, k: Nested, x: StmtView) -> (Result<(), ErrorView>, State) {
    match x {
        StmtView::Let { pattern, is_mut, type_ann: ann, init, .. } => {
            match pattern {
                PatternView::Binding(name) => {
                    match drop_shadowed(s, k.fuel, name) {
                        (Ok(_), s) => {
                            let ty = type_or_spec(ann, ty_of(s, init));
                            match lower_type(s.env, ty) {
                                Ok(lty) => {
                                    let (a, s) = alloca(s, lty);
                                    match compile_init(s, k, init, ann) {
                                        (Ok(v), s) => {
                                            match annotated(s, v, lty, ann, ty_of(s, init)) {
                                                (Ok(w), s) => {
                                                    let s = store(s, w, a);
                                                    let s = State {
                                                        fun: FunView {
                                                            symbols: s.fun.symbols.insert(
                                                                name,
                                                                (a, is_mut, ty),
                                                            ),
                                                            ..s.fun
                                                        },
                                                        ..s
                                                    };
                                                    let s = note_in_scope(
                                                        s,
                                                        name,
                                                        type_or_spec(ann, ty_of(s, init)),
                                                        a,
                                                    );
                                                    let s = note_move(s, init);
                                                    (Ok(()), s)
                                                },
                                                (Err(e), s) => (Err(e), s),
                                            }
                                        },
                                        (Err(e), s) => (Err(e), s),
                                    }
                                },
                                Err(e) => (Err(e), s),
                            }
                        },
                        (Err(e), s) => (Err(e), s),
                    }
                },
                PatternView::Wildcard => {
                    match nested_expr(s, k, init) {
                        (Ok(v), s) => (Ok(()), s),
                        (Err(e), s) => (Err(e), s),
                    }
                },
                _ => (Err(err("internal error: refutable pattern reached codegen"@)), s),
            }
        },
        _ => (Err(err("internal: not a let"@)), s),
    }
}

/// A `let` with an `else` block, which has to diverge.
#[verifier::opaque]
pub open spec fn compile_let_else(
    s: State,
    k: Nested,
    x: StmtView,
) -> (Result<(), ErrorView>, State) {
    match x {
        StmtView::Let { pattern, is_mut, type_ann: ann, init, else_block, .. } => {
            match else_block {
                Some(b) => {
                    if !(block_ty(s, b) is Never) {
                        (
                            Err(
                                err_at(
                                    "else block of let-else statement must diverge (return never)"@,
                                    b.span,
                                ),
                            ),
                            s,
                        )
                    } else {
                        match compile_init(s, k, init, ann) {
                            (Ok(v), s) => {
                                let found = ty_of(s, init);
                                let ty = type_or_spec(ann, found);
                                match lower_type(s.env, ty) {
                                    Ok(lty) => {
                                        match annotated(s, v, lty, ann, found) {
                                            (Ok(w), s) => {
                                                match gen_pattern_check(s, pattern, w, ty) {
                                                    (Ok((c, bindings)), s) => {
                                                        let (then_bb, s) = add_block(
                                                            s,
                                                            "let_else_then"@,
                                                        );
                                                        let (else_bb, s) = add_block(
                                                            s,
                                                            "let_else_else"@,
                                                        );
                                                        let s = branch_if(s, c, then_bb, else_bb);
                                                        let s = go_to(s, else_bb);
                                                        let symbols = s.fun.symbols;
                                                        let moved = s.fun.moved;
                                                        let given = s.fun.given;
                                                        let s = enter_scope(s);
                                                        match compile_block_get_value(s, k, b) {
                                                            (Ok(r), s) => {
                                                                match exit_scope(s, k.fuel) {
                                                                    (Ok(_), s) => {
                                                                        let s = State {
                                                                            fun: FunView {
                                                                                symbols: symbols,
                                                                                ..s.fun
                                                                            },
                                                                            ..s
                                                                        };
                                                                        let s = State {
                                                                            fun: FunView {
                                                                                moved: moved,
                                                                                ..s.fun
                                                                            },
                                                                            ..s
                                                                        };
                                                                        let s = State {
                                                                            fun: FunView {
                                                                                given: given,
                                                                                ..s.fun
                                                                            },
                                                                            ..s
                                                                        };
                                                                        let s = if !terminated(s) {
                                                                            unreachable_here(s)
                                                                        } else {
                                                                            s
                                                                        };
                                                                        let s = go_to(s, then_bb);
                                                                        match declare_bindings(
                                                                            s,
                                                                            k.fuel,
                                                                            bindings,
                                                                            is_mut,
                                                                        ) {
                                                                            (Ok(_), s) => {
                                                                                let s = note_move(s, init);
                                                                                (Ok(()), s)
                                                                            },
                                                                            (Err(e), s) => (Err(e), s),
                                                                        }
                                                                    },
                                                                    (Err(e), s) => (Err(e), s),
                                                                }
                                                            },
                                                            (Err(e), s) => (Err(e), s),
                                                        }
                                                    },
                                                    (Err(e), s) => (Err(e), s),
                                                }
                                            },
                                            (Err(e), s) => (Err(e), s),
                                        }
                                    },
                                    Err(e) => (Err(e), s),
                                }
                            },
                            (Err(e), s) => (Err(e), s),
                        }
                    }
                },
                None => (Err(err("internal: not a let with an else block"@)), s),
            }
        },
        _ => (Err(err("internal: not a let"@)), s),
    }
}

/// Declares the variables of a pattern; those that they hide are dropped first.
#[verifier::opaque]
pub open spec fn declare_bindings(
    s: State,
    fuel: nat,
    bindings: Seq<(Seq<char>, ValView, TypeView)>,
    is_mut: bool,
) -> (Result<(), ErrorView>, State) {
    declare_bindings_each(s, fuel, bindings, is_mut, 0)
}

/// [`declare_bindings`] from element `i` on.
#[verifier::opaque]
pub open spec fn declare_bindings_each(
    s: State,
    fuel: nat,
    bindings: Seq<(Seq<char>, ValView, TypeView)>,
    is_mut: bool,
    i: nat,
) -> (Result<(), ErrorView>, State)
    decreases bindings.len() - i,
{
    if i < bindings.len() {
        let b = bindings[i as int];
        match drop_shadowed(s, fuel, b.0) {
            (Ok(_), s) => {
                let s = State {
                    fun: FunView {
                        symbols: s.fun.symbols.insert(b.0, (b.1, is_mut, b.2)),
                        ..s.fun
                    },
                    ..s
                };
                let s = note_in_scope(s, b.0, b.2, b.1);
                declare_bindings_each(s, fuel, bindings, is_mut, i + 1)
            },
            (Err(e), s) => (Err(e), s),
        }
    } else {
        (Ok(()), s)
    }
}

/// The types of the parameters have to be visible.
#[verifier::opaque]
pub open spec fn check_param_types(s: State, params: Seq<ParamView>) -> Result<(), ErrorView> {
    check_param_types_each(s, params, 0)
}

/// [`check_param_types`] from element `i` on.
#[verifier::opaque]
pub open spec fn check_param_types_each(
    s: State,
    params: Seq<ParamView>,
    i: nat,
) -> Result<(), ErrorView>
    decreases params.len() - i,
{
    if i < params.len() {
        let p = params[i as int];
        match check_type(s.env, s.fun.here, p.ty) {
            Ok(_) => check_param_types_each(s, params, i + 1),
            Err(e) => Err(e),
        }
    } else {
        Ok(())
    }
}

/// The return type has to be visible.
#[verifier::opaque]
pub open spec fn check_return_type(s: State, ty: Option<TypeView>) -> Result<(), ErrorView> {
    match ty {
        Some(t) => check_type(s.env, s.fun.here, t),
        None => Ok(()),
    }
}

/// The types of a function have to be visible, and it has to be declared.
#[verifier::opaque]
pub open spec fn check_function(s: State, f: FunctionView) -> Result<FnSigView, ErrorView> {
    match check_param_types(s, f.params) {
        Ok(_) => {
            match check_return_type(s, f.return_type) {
                Ok(_) => {
                    match at(s.out.decls, f.name) {
                        Some(found) => Ok(found),
                        None => Err(err("function '"@ + f.name + "' not declared"@)),
                    }
                },
                Err(e) => Err(e),
            }
        },
        Err(e) => Err(e),
    }
}

/// Gives every parameter its place on the stack.
#[verifier::opaque]
pub open spec fn store_params(
    s: State,
    params: Seq<ParamView>,
    tys: Seq<LTyView>,
) -> (Result<(), ErrorView>, State) {
    store_params_each(s, params, tys, 0)
}

/// [`store_params`] from element `i` on.
#[verifier::opaque]
pub open spec fn store_params_each(
    s: State,
    params: Seq<ParamView>,
    tys: Seq<LTyView>,
    i: nat,
) -> (Result<(), ErrorView>, State)
    decreases params.len() - i,
{
    if i < params.len() {
        let p = params[i as int];
        match lower_type(s.env, p.ty) {
            Ok(lty) => {
                if (i as usize) < (tys.len() as usize) {
                    let (a, s) = spill(s, lty, arg_spec(i as usize, tys[i as int]));
                    let s = State {
                        fun: FunView {
                            symbols: s.fun.symbols.insert(p.name, (a, false, p.ty)),
                            ..s.fun
                        },
                        ..s
                    };
                    let s = note_in_scope(s, p.name, p.ty, a);
                    store_params_each(s, params, tys, i + 1)
                } else {
                    (Err(err("internal: a parameter that was not declared"@)), s)
                }
            },
            Err(e) => (Err(e), s),
        }
    } else {
        (Ok(()), s)
    }
}

/// Compiles the body of a declared function, which sees no variable, loop or scope of the place
/// that was being compiled before. What holds there holds again afterwards.
#[verifier::opaque]
pub open spec fn body_step(s: State, k: Nested, f: FunctionView) -> (Result<(), ErrorView>, State) {
    let outer = s.out.cur;
    let symbols = s.fun.symbols;
    let moved = s.fun.moved;
    let given = s.fun.given;
    let scopes = s.fun.scopes;
    let loops = s.fun.loops;
    let here = s.fun.here;
    let s = State {
        fun: FunView { symbols: Map::<Seq<char>, (ValView, bool, TypeView)>::empty(), ..s.fun },
        ..s
    };
    let s = State { fun: FunView { moved: Set::empty(), ..s.fun }, ..s };
    let s = State { fun: FunView { given: Map::<Seq<char>, bool>::empty(), ..s.fun }, ..s };
    let s = State {
        fun: FunView { scopes: Seq::<Seq<(Seq<char>, TypeView, ValView)>>::empty(), ..s.fun },
        ..s
    };
    let s = State { fun: FunView { loops: Seq::<LoopContextView>::empty(), ..s.fun }, ..s };
    let s = enter_scope(s);
    let s = State { fun: FunView { here: item_place(s.env, f.name), ..s.fun }, ..s };
    let (res, s) = compile_function_body_inner(s, k, f);
    let s = State { out: OutView { cur: outer, ..s.out }, ..s };
    let s = State { fun: FunView { symbols: symbols, ..s.fun }, ..s };
    let s = State { fun: FunView { moved: moved, ..s.fun }, ..s };
    let s = State { fun: FunView { given: given, ..s.fun }, ..s };
    let s = State { fun: FunView { scopes: scopes, ..s.fun }, ..s };
    let s = State { fun: FunView { loops: loops, ..s.fun }, ..s };
    let s = State { fun: FunView { here: here, ..s.fun }, ..s };
    (res, s)
}

/// Compiles the body of a function from its entry block on.
#[verifier::opaque]
pub open spec fn compile_function_body_inner(
    s: State,
    k: Nested,
    f: FunctionView,
) -> (Result<(), ErrorView>, State) {
    match check_function(s, f) {
        Ok(found) => {
            let s = begin(s, f.name);
            let (res, s) = compile_code(s, k, f, found);
            let s = finish(s);
            (res, s)
        },
        Err(e) => (Err(e), s),
    }
}

/// The code of a function: its parameters, its statements, and what it returns. What is left of its
/// variables and parameters is dropped before it returns.
#[verifier::opaque]
pub open spec fn compile_code(
    s: State,
    k: Nested,
    f: FunctionView,
    found: FnSigView,
) -> (Result<(), ErrorView>, State) {
    match store_params(s, f.params, found.params) {
        (Ok(_), s) => {
            match compile_stmts(s, k, f.body.stmts) {
                (Ok(_), s) => {
                    if terminated(s) {
                        (Ok(()), s)
                    } else {
                        match f.body.tail_expr {
                            Some(tail) => compile_result(
                                s,
                                k,
                                *tail,
                                return_or_spec(f, TypeView::I32),
                            ),
                            None => {
                                match leave_inner(s, k.fuel, 0) {
                                    (Ok(_), s) => end_of_function(s, f),
                                    (Err(e), s) => (Err(e), s),
                                }
                            },
                        }
                    }
                },
                (Err(e), s) => (Err(e), s),
            }
        },
        (Err(e), s) => (Err(e), s),
    }
}

/// What a function does that comes to its end without a value.
#[verifier::opaque]
pub open spec fn end_of_function(s: State, f: FunctionView) -> (Result<(), ErrorView>, State) {
    match f.return_type {
        Some(ty) => {
            if ty is Never {
                let s = unreachable_here(s);
                (Ok(()), s)
            } else {
                match lower_type(s.env, ty) {
                    Ok(lty) => ret(s, zero_of_spec(lty)),
                    Err(e) => (Err(e), s),
                }
            }
        },
        None => {
            if f.name == "main"@ {
                ret(s, int_const(32, 0))
            } else {
                ret_nothing(s)
            }
        },
    }
}

/// A `return` with a value; what follows it is never reached.
#[verifier::opaque]
pub open spec fn compile_return(
    s: State,
    k: Nested,
    e: ExprView,
) -> (Result<(), ErrorView>, State) {
    match compile_result(s, k, e, return_type_here(s)) {
        (Ok(_), s) => {
            let s = unreachable_here(s);
            (Ok(()), s)
        },
        (Err(e), s) => (Err(e), s),
    }
}

/// A `return` without a value, which ends `main` with zero; what follows it is never reached.
#[verifier::opaque]
pub open spec fn return_nothing(s: State, fuel: nat) -> (Result<(), ErrorView>, State) {
    match leave_inner(s, fuel, 0) {
        (Ok(_), s) => {
            match return_bare(s) {
                (Ok(_), s) => {
                    let s = unreachable_here(s);
                    (Ok(()), s)
                },
                (Err(e), s) => (Err(e), s),
            }
        },
        (Err(e), s) => (Err(e), s),
    }
}

/// Returns without a value: zero from a `main` that gives an `i32`.
#[verifier::opaque]
pub open spec fn return_bare(s: State) -> (Result<(), ErrorView>, State) {
    if s.out.cur.name == "main"@ {
        ret(s, int_const(32, 0))
    } else {
        match declared_result(s) {
            Some(result) => {
                if result is Some {
                    (
                        Err(
                            err(
                                "mismatched types: expected "@ + type_text(return_type_here(s))
                                    + ", found ()"@,
                            ),
                        ),
                        s,
                    )
                } else {
                    ret_nothing(s)
                }
            },
            None => ret_nothing(s),
        }
    }
}

/// Returns the value of an expression as the type that is declared. What is left of the variables
/// of the function is dropped before.
#[verifier::opaque]
pub open spec fn compile_result(
    s: State,
    k: Nested,
    e: ExprView,
    ty: TypeView,
) -> (Result<(), ErrorView>, State) {
    match compile_expected(s, k, e, ty) {
        (Ok(v), s) => {
            match declared_result(s) {
                Some(result) => {
                    match result {
                        Some(lty) => {
                            match as_result(s, v, ty_of(s, e), ty, lty) {
                                (Ok(w), s) => {
                                    let s = note_given(s, e);
                                    match leave_inner(s, k.fuel, 0) {
                                        (Ok(_), s) => ret(s, w),
                                        (Err(e), s) => (Err(e), s),
                                    }
                                },
                                (Err(e), s) => (Err(e), s),
                            }
                        },
                        None => {
                            match leave_inner(s, k.fuel, 0) {
                                (Ok(_), s) => {
                                    if ty is Never {
                                        let s = unreachable_here(s);
                                        (Ok(()), s)
                                    } else {
                                        ret_nothing(s)
                                    }
                                },
                                (Err(e), s) => (Err(e), s),
                            }
                        },
                    }
                },
                None => ret(s, v),
            }
        },
        (Err(e), s) => (Err(e), s),
    }
}

/// A value as the type that a function returns. A `main` that gives a number ends with zero where
/// its value is none.
#[verifier::opaque]
pub open spec fn as_result(
    s: State,
    v: ValView,
    found: TypeView,
    ty: TypeView,
    lty: LTyView,
) -> (Result<ValView, ErrorView>, State) {
    if (v.ty == lty) && !(found is Never) {
        (Ok(v), s)
    } else if (
        s.out.cur.name == "main"@
    ) && is_aggregate_spec(v.ty) && (lty is Int) && !(found is Never) {
        (Ok(zero_of_spec(lty)), s)
    } else {
        emit_cast(s, v, found, ty)
    }
}

/// The instance of a generic function for a call; it is compiled where it does not exist yet.
#[verifier::opaque]
pub open spec fn monomorphize_generic_function(
    s: State,
    k: Nested,
    f: FunctionView,
    arg_tys: Seq<TypeView>,
    type_args: Seq<TypeView>,
) -> (Result<Seq<char>, ErrorView>, State) {
    match function_instance(s.env, f, arg_tys, type_args) {
        Ok(g) => {
            match compile_new(s, k, f, g) {
                (Ok(_), s) => (Ok(g.name), s),
                (Err(e), s) => (Err(e), s),
            }
        },
        Err(e) => (Err(e), s),
    }
}

/// Declares and compiles an instance, unless it is declared already.
#[verifier::opaque]
pub open spec fn compile_new(
    s: State,
    k: Nested,
    f: FunctionView,
    g: FunctionView,
) -> (Result<(), ErrorView>, State) {
    if s.out.decls.contains_key(g.name) {
        (Ok(()), s)
    } else {
        match declare_function(s, g) {
            (Ok(_), s) => nested_body(s, k, g),
            (Err(e), s) => (Err(e), s),
        }
    }
}

/// The instance of a generic method for a call; it is compiled where it does not exist yet.
#[verifier::opaque]
pub open spec fn monomorphize_generic_method(
    s: State,
    k: Nested,
    owner: Seq<char>,
    f: FunctionView,
    arg_tys: Seq<TypeView>,
    type_args: Seq<TypeView>,
) -> (Result<Seq<char>, ErrorView>, State) {
    match method_instance(s.env, owner, f, arg_tys, type_args) {
        Ok(g) => {
            match compile_new(s, k, f, g) {
                (Ok(_), s) => {
                    let s = add_method(s, owner, f.name, g.name);
                    (Ok(g.name), s)
                },
                (Err(e), s) => (Err(e), s),
            }
        },
        Err(e) => (Err(e), s),
    }
}

/// The instance of a generic type with its methods; it is made once.
#[verifier::opaque]
pub open spec fn instance_step(
    s: State,
    k: Nested,
    base: Seq<char>,
    args: Seq<TypeView>,
) -> (Result<(), ErrorView>, State) {
    let mangled = mangled(base, args);
    if s.env.monomorphized.contains(mangled) {
        (Ok(()), s)
    } else {
        let s = State {
            env: EnvView { monomorphized: s.env.monomorphized.insert(mangled), ..s.env },
            ..s
        };
        let s = State {
            fun: FunView { mono_names: s.fun.mono_names.insert(base, mangled), ..s.fun },
            ..s
        };
        match instance_struct(s, base, args, mangled) {
            (Ok(_), s) => {
                match instance_enum(s, base, args, mangled) {
                    (Ok(_), s) => {
                        let blocks = match at(s.env.generic_impls, base) {
                            Some(found) => found,
                            None => Seq::<(Seq<GenericParamView>, ImplDeclView)>::empty(),
                        };
                        let s = State {
                            env: EnvView { current_mono: Some((base, mangled)), ..s.env },
                            ..s
                        };
                        match instance_impls(s, k, base, args, mangled, blocks) {
                            (Ok(_), s) => {
                                let s = State { env: EnvView { current_mono: None, ..s.env }, ..s };
                                (Ok(()), s)
                            },
                            (Err(e), s) => (Err(e), s),
                        }
                    },
                    (Err(e), s) => (Err(e), s),
                }
            },
            (Err(e), s) => (Err(e), s),
        }
    }
}

/// What the `impl` blocks of a generic type give an instance.
#[verifier::opaque]
pub open spec fn instance_impls(
    s: State,
    k: Nested,
    base: Seq<char>,
    args: Seq<TypeView>,
    mangled: Seq<char>,
    blocks: Seq<(Seq<GenericParamView>, ImplDeclView)>,
) -> (Result<(), ErrorView>, State) {
    instance_impls_each(s, k, base, args, mangled, blocks, 0)
}

/// [`instance_impls`] from element `i` on.
#[verifier::opaque]
pub open spec fn instance_impls_each(
    s: State,
    k: Nested,
    base: Seq<char>,
    args: Seq<TypeView>,
    mangled: Seq<char>,
    blocks: Seq<(Seq<GenericParamView>, ImplDeclView)>,
    i: nat,
) -> (Result<(), ErrorView>, State)
    decreases blocks.len() - i,
{
    if i < blocks.len() {
        let b = blocks[i as int];
        let names = param_names(b.0);
        let s = instance_impl(s, b.1, mangled, names, args);
        match instance_methods(s, k, base, args, mangled, b.1.methods, names) {
            (Ok(_), s) => instance_impls_each(s, k, base, args, mangled, blocks, i + 1),
            (Err(e), s) => (Err(e), s),
        }
    } else {
        (Ok(()), s)
    }
}

/// The methods of an instance.
#[verifier::opaque]
pub open spec fn instance_methods(
    s: State,
    k: Nested,
    base: Seq<char>,
    args: Seq<TypeView>,
    mangled: Seq<char>,
    methods: Seq<FunctionView>,
    names: Seq<Seq<char>>,
) -> (Result<(), ErrorView>, State) {
    instance_methods_each(s, k, base, args, mangled, methods, names, 0)
}

/// [`instance_methods`] from element `i` on.
#[verifier::opaque]
pub open spec fn instance_methods_each(
    s: State,
    k: Nested,
    base: Seq<char>,
    args: Seq<TypeView>,
    mangled: Seq<char>,
    methods: Seq<FunctionView>,
    names: Seq<Seq<char>>,
    i: nat,
) -> (Result<(), ErrorView>, State)
    decreases methods.len() - i,
{
    if i < methods.len() {
        let m = methods[i as int];
        let g = instance_method(m, names, args, TypeView::GenericInstance(base, args));
        let f = FunctionView {
            name: method_name(mangled, g.name, (g.params.len() as usize) as nat),
            ..g
        };
        let saved = at(s.fun.mono_names, base);
        match ensure_all(s, k, base, method_instances(f)) {
            (Ok(_), s) => {
                let s = restore_name(s, base, saved);
                match declare_function(s, f) {
                    (Ok(_), s) => {
                        match nested_body(s, k, f) {
                            (Ok(_), s) => {
                                let s = add_method(s, mangled, m.name, f.name);
                                instance_methods_each(
                                    s,
                                    k,
                                    base,
                                    args,
                                    mangled,
                                    methods,
                                    names,
                                    i + 1,
                                )
                            },
                            (Err(e), s) => (Err(e), s),
                        }
                    },
                    (Err(e), s) => (Err(e), s),
                }
            },
            (Err(e), s) => (Err(e), s),
        }
    } else {
        (Ok(()), s)
    }
}

/// Lets a base name stand for what it stood for before, if it stood for anything.
#[verifier::opaque]
pub open spec fn restore_name(s: State, base: Seq<char>, saved: Option<Seq<char>>) -> State {
    match saved {
        Some(name) => {
            State { fun: FunView { mono_names: s.fun.mono_names.insert(base, name), ..s.fun }, ..s }
        },
        None => s,
    }
}

/// The instances of generic types that code uses.
#[verifier::opaque]
pub open spec fn ensure_all(
    s: State,
    k: Nested,
    base: Seq<char>,
    found: Seq<(Seq<char>, Seq<TypeView>)>,
) -> (Result<(), ErrorView>, State) {
    ensure_all_each(s, k, found, 0)
}

/// [`ensure_all`] from element `i` on.
#[verifier::opaque]
pub open spec fn ensure_all_each(
    s: State,
    k: Nested,
    found: Seq<(Seq<char>, Seq<TypeView>)>,
    i: nat,
) -> (Result<(), ErrorView>, State)
    decreases found.len() - i,
{
    if i < found.len() {
        let x = found[i as int];
        if is_generic_base(s.env, x.0) {
            match nested_instance(s, k, x.0, x.1) {
                (Ok(_), s) => ensure_all_each(s, k, found, i + 1),
                (Err(e), s) => (Err(e), s),
            }
        } else {
            ensure_all_each(s, k, found, i + 1)
        }
    } else {
        (Ok(()), s)
    }
}

/// The methods of an array type; they are made once.
#[verifier::opaque]
pub open spec fn slice_step(
    s: State,
    k: Nested,
    elem: TypeView,
    len: usize,
) -> (Result<(), ErrorView>, State) {
    let key = array_key(elem, len);
    if s.env.impl_methods.contains_key(key) {
        (Ok(()), s)
    } else {
        let s = State {
            env: EnvView {
                impl_methods: s.env.impl_methods.insert(
                    key,
                    Seq::<(Seq<char>, Seq<char>)>::empty(),
                ),
                ..s.env
            },
            ..s
        };
        let s = add_trait(s, key, "Index"@);
        let s = add_trait(s, key, "IndexMut"@);
        match lower_type(s.env, elem) {
            Ok(elem_lty) => {
                match lower_array(elem_lty, len as u32) {
                    Ok(lty) => {
                        let blocks = s.env.slice_impls;
                        match slice_impl_blocks(s, k, elem, len, key, blocks) {
                            (Ok(_), s) => {
                                match slice_builtins(
                                    s,
                                    key,
                                    (TypeView::Array { inner: Box::new(elem), len: len }),
                                    elem,
                                    lty,
                                    len,
                                ) {
                                    (Ok(_), s) => (Ok(()), s),
                                    (Err(e), s) => (Err(e), s),
                                }
                            },
                            (Err(e), s) => (Err(e), s),
                        }
                    },
                    Err(e) => (Err(e), s),
                }
            },
            Err(e) => (Err(e), s),
        }
    }
}

/// What the `impl` blocks of arrays give an array type.
#[verifier::opaque]
pub open spec fn slice_impl_blocks(
    s: State,
    k: Nested,
    elem: TypeView,
    len: usize,
    key: Seq<char>,
    blocks: Seq<ImplDeclView>,
) -> (Result<(), ErrorView>, State) {
    slice_impl_blocks_each(s, k, elem, len, key, blocks, 0)
}

/// [`slice_impl_blocks`] from element `i` on.
#[verifier::opaque]
pub open spec fn slice_impl_blocks_each(
    s: State,
    k: Nested,
    elem: TypeView,
    len: usize,
    key: Seq<char>,
    blocks: Seq<ImplDeclView>,
    i: nat,
) -> (Result<(), ErrorView>, State)
    decreases blocks.len() - i,
{
    if i < blocks.len() {
        let d = blocks[i as int];
        match d.impl_type {
            TypeView::GenericArray { inner, .. } => {
                let s = match d.trait_name {
                    Some(name) => add_trait(s, key, name),
                    None => s,
                };
                let tys = slice_type_args_spec(d.type_params, element_param_spec(*inner), elem);
                match slice_methods(
                    s,
                    k,
                    elem,
                    len,
                    key,
                    d.methods,
                    d.trait_name,
                    param_names(d.type_params),
                    tys,
                    d.const_params,
                ) {
                    (Ok(_), s) => slice_impl_blocks_each(s, k, elem, len, key, blocks, i + 1),
                    (Err(e), s) => (Err(e), s),
                }
            },
            _ => slice_impl_blocks_each(s, k, elem, len, key, blocks, i + 1),
        }
    } else {
        (Ok(()), s)
    }
}

/// The methods that one `impl` block gives an array type.
#[verifier::opaque]
pub open spec fn slice_methods(
    s: State,
    k: Nested,
    elem: TypeView,
    len: usize,
    key: Seq<char>,
    methods: Seq<FunctionView>,
    trait_name: Option<Seq<char>>,
    names: Seq<Seq<char>>,
    tys: Seq<TypeView>,
    consts: Seq<Seq<char>>,
) -> (Result<(), ErrorView>, State) {
    slice_methods_each(s, k, elem, len, key, methods, trait_name, names, tys, consts, 0)
}

/// [`slice_methods`] from element `i` on.
#[verifier::opaque]
pub open spec fn slice_methods_each(
    s: State,
    k: Nested,
    elem: TypeView,
    len: usize,
    key: Seq<char>,
    methods: Seq<FunctionView>,
    trait_name: Option<Seq<char>>,
    names: Seq<Seq<char>>,
    tys: Seq<TypeView>,
    consts: Seq<Seq<char>>,
    i: nat,
) -> (Result<(), ErrorView>, State)
    decreases methods.len() - i,
{
    if i < methods.len() {
        let m = methods[i as int];
        let name = slice_method_name_spec(trait_name, m.name, key, m.params.len() as usize);
        let f = slice_method_spec(
            m,
            names,
            tys,
            (TypeView::Array { inner: Box::new(elem), len: len }),
            consts,
            slice_lengths_spec(consts, len),
            name,
        );
        match ensure_all(s, k, key, method_instances(f)) {
            (Ok(_), s) => {
                if !s.out.decls.contains_key(name) {
                    match declare_function(s, f) {
                        (Ok(_), s) => {
                            match nested_body(s, k, f) {
                                (Ok(_), s) => {
                                    let s = add_method(s, key, m.name, name);
                                    slice_methods_each(
                                        s,
                                        k,
                                        elem,
                                        len,
                                        key,
                                        methods,
                                        trait_name,
                                        names,
                                        tys,
                                        consts,
                                        i + 1,
                                    )
                                },
                                (Err(e), s) => (Err(e), s),
                            }
                        },
                        (Err(e), s) => (Err(e), s),
                    }
                } else {
                    let s = add_method(s, key, m.name, name);
                    slice_methods_each(
                        s,
                        k,
                        elem,
                        len,
                        key,
                        methods,
                        trait_name,
                        names,
                        tys,
                        consts,
                        i + 1,
                    )
                }
            },
            (Err(e), s) => (Err(e), s),
        }
    } else {
        (Ok(()), s)
    }
}

/// The type that is written, or another one.
pub fn type_or(ann: &Option<Type>, ty: &Type) -> (r: Type)
    ensures
        r@ == type_or_spec(ann.model(), ty@),
{
    proof {
        reveal(type_or_spec);
    }
    match ann {
        Some(t) => {
            return t.clone();
        },
        None => {
            return ty.clone();
        },
    }
}

impl CodeGen {
    /// Compiles a statement.
    pub fn stmt_step(&mut self, fuel: usize, x: &Stmt) -> (r: Result<(), CodegenError>)
        ensures
            (r.model(), final(self)@) == stmt_step(old(self)@, nested(fuel as nat), x@),
            stays(old(self)@, final(self)@),
            r is Ok ==> settled(old(self)@, final(self)@),
            r is Ok ==> confined(old(self)@.out.cur, final(self)@.out.cur),
        decreases fuel, 4int,
    {
        proof {
            broadcast use {crate::nesting::group_nesting, crate::growth::group_growth};

            count_from(old(self)@);
            reveal(stmt_step);
        }
        match x {
            Stmt::Let { type_ann, else_block, .. } => {
                match type_ann {
                    Some(ty) => {
                        match self.env.check_visibility_of_type(&self.fun.here, ty) {
                            Ok(_) => {},
                            Err(e) => {
                                return Err(e);
                            },
                        }
                    },
                    None => {},
                }
                if matches!(else_block, Some(_)) {
                    return self.compile_let_else(fuel, x);
                }
                return self.compile_let(fuel, x);
            },
            Stmt::Const { name, type_ann, init, .. } => {
                let raw = match self.const_eval(fuel, init) {
                    Ok(v) => v,
                    Err(e) => {
                        return Err(e);
                    },
                };
                let ty = type_or(type_ann, &self.expr_type(init));
                self.fun.consts.insert(name.clone(), (raw.dup(), ty.clone()));
                return Ok(());
            },
            Stmt::Expr(e) => {
                let v = match self.compile_expr(fuel, e) {
                    Ok(v) => v,
                    Err(e) => {
                        return Err(e);
                    },
                };
                return Ok(());
            },
            Stmt::Return { value, .. } => {
                match value {
                    Some(e) => {
                        return self.compile_return(fuel, e);
                    },
                    None => {
                        return self.return_nothing(fuel);
                    },
                }
            },
            Stmt::Continue { .. } => {
                let subject = last_element(&self.fun.loops);
                match &subject {
                    Some(c) => {
                        match self.leave_inner(fuel, c.depth) {
                            Ok(_) => {},
                            Err(e) => {
                                return Err(e);
                            },
                        }
                        let _ = self.emit_value(Inst::Br(c.continue_bb), LTy::Ptr);
                        return Ok(());
                    },
                    None => {
                        return Err(
                            CodegenError::new("cannot use `continue` outside of a loop".to_owned()),
                        );
                    },
                }
            },
            Stmt::Break { .. } => {
                let subject2 = last_element(&self.fun.loops);
                match &subject2 {
                    Some(c) => {
                        match self.compile_break_value(fuel, x, c) {
                            Ok(_) => {},
                            Err(e) => {
                                return Err(e);
                            },
                        }
                        match self.leave_inner(fuel, c.depth) {
                            Ok(_) => {},
                            Err(e) => {
                                return Err(e);
                            },
                        }
                        let _ = self.emit_value(Inst::Br(c.break_bb), LTy::Ptr);
                        return Ok(());
                    },
                    None => {
                        return Err(
                            CodegenError::new("cannot use `break` outside of a loop".to_owned()),
                        );
                    },
                }
            },
        }
    }

    /// The return type of the function under construction.
    pub fn return_type_here(&self) -> (r: Type)
        ensures
            r@ == return_type_here(self@),
    {
        proof {
            reveal(return_type_here);
        }
        let subject = self.env.fn_return_types.get_dup(&self.out.cur.name);
        match &subject {
            Some(ty) => {
                return ty.clone();
            },
            None => {
                return Type::I32;
            },
        }
    }

    /// Stores the value of a `break`, which has to be of the type of its loop.
    pub fn compile_break_value(
        &mut self,
        fuel: usize,
        x: &Stmt,
        c: &LoopContext,
    ) -> (r: Result<(), CodegenError>)
        ensures
            (r.model(), final(self)@) == compile_break_value(
                old(self)@,
                nested(fuel as nat),
                x@,
                c.model(),
            ),
            stays(old(self)@, final(self)@),
            r is Ok ==> settled(old(self)@, final(self)@),
            r is Ok ==> confined(old(self)@.out.cur, final(self)@.out.cur),
            r is Ok ==> same_variables(old(self)@, final(self)@),
        decreases fuel, 1int,
    {
        proof {
            broadcast use {crate::nesting::group_nesting, crate::growth::group_growth};

            count_from(old(self)@);
            reveal(compile_break_value);
        }
        match x {
            Stmt::Break { value, .. } => {
                match value {
                    Some(e) => {
                        match &c.result {
                            Some((slot, ty)) => {
                                let found = self.expr_type(e);
                                if !same_type(&found, ty) {
                                    return Err(
                                        CodegenError::new(
                                            cat(
                                                &cat3(
                                                    "mismatched types: expected ",
                                                    &show_type(ty),
                                                    ", found ",
                                                ),
                                                &show_type(&found),
                                            ),
                                        ),
                                    );
                                }
                                let v = match self.compile_expr(fuel, e) {
                                    Ok(v) => v,
                                    Err(e) => {
                                        return Err(e);
                                    },
                                };
                                let w = match self.emit_cast(&v, &found, ty) {
                                    Ok(v) => v,
                                    Err(e) => {
                                        return Err(e);
                                    },
                                };
                                self.store(&w, slot);
                                self.note_given(e);
                                return Ok(());
                            },
                            None => {
                                return Err(
                                    CodegenError::new(
                                        "can only break with a value inside `loop`".to_owned(),
                                    ),
                                );
                            },
                        }
                    },
                    None => {
                        match &c.result {
                            Some((slot, ty)) => {
                                if matches!(ty, Type::Unit { .. }) {
                                    return Ok(());
                                }
                                return Err(
                                    CodegenError::new(
                                        cat3(
                                            "mismatched types: expected ",
                                            &show_type(ty),
                                            ", found ()",
                                        ),
                                    ),
                                );
                            },
                            None => {
                                return Ok(());
                            },
                        }
                    },
                }
            },
            _ => {
                return Err(CodegenError::new("internal: not a break".to_owned()));
            },
        }
    }

    /// The first value of a variable.
    pub fn compile_init(
        &mut self,
        fuel: usize,
        init: &Expr,
        ann: &Option<Type>,
    ) -> (r: Result<Val, CodegenError>)
        ensures
            (r.model(), final(self)@) == compile_init(
                old(self)@,
                nested(fuel as nat),
                init@,
                ann.model(),
            ),
            stays(old(self)@, final(self)@),
            r is Ok ==> settled(old(self)@, final(self)@),
            r is Ok ==> confined(old(self)@.out.cur, final(self)@.out.cur),
            r is Ok ==> same_variables(old(self)@, final(self)@),
        decreases fuel, 2int,
    {
        proof {
            broadcast use {crate::nesting::group_nesting, crate::growth::group_growth};

            count_from(old(self)@);
            reveal(compile_init);
        }
        match ann {
            Some(ty) => {
                return self.compile_expected(fuel, init, ty);
            },
            None => {
                return self.compile_expr(fuel, init);
            },
        }
    }

    /// A value converted to the type that is written, where its machine type is another one.
    pub fn annotated(
        &mut self,
        v: &Val,
        lty: &LTy,
        ann: &Option<Type>,
        found: &Type,
    ) -> (r: Result<Val, CodegenError>)
        ensures
            (r.model(), final(self)@) == annotated(old(self)@, v@, lty@, ann.model(), found@),
            stays(old(self)@, final(self)@),
            r is Ok ==> settled(old(self)@, final(self)@),
            r is Ok ==> confined(old(self)@.out.cur, final(self)@.out.cur),
            r is Ok ==> same_variables(old(self)@, final(self)@),
    {
        proof {
            broadcast use crate::growth::group_growth;

            count_from(old(self)@);
            reveal(annotated);
        }
        if same_lty(&v.ty, lty) {
            return Ok(v.clone());
        }
        match ann {
            Some(ty) => {
                if !same_type(found, ty) {
                    return self.emit_cast(v, found, ty);
                }
                return Ok(v.clone());
            },
            None => {
                return Ok(v.clone());
            },
        }
    }

    /// A `let`: a variable that it hides is dropped first.
    pub fn compile_let(&mut self, fuel: usize, x: &Stmt) -> (r: Result<(), CodegenError>)
        ensures
            (r.model(), final(self)@) == compile_let(old(self)@, nested(fuel as nat), x@),
            stays(old(self)@, final(self)@),
            r is Ok ==> settled(old(self)@, final(self)@),
            r is Ok ==> confined(old(self)@.out.cur, final(self)@.out.cur),
        decreases fuel, 3int,
    {
        proof {
            broadcast use {crate::nesting::group_nesting, crate::growth::group_growth};

            count_from(old(self)@);
            reveal(compile_let);
        }
        match x {
            Stmt::Let { pattern, is_mut, type_ann: ann, init, .. } => {
                match pattern {
                    Pattern::Binding(name) => {
                        match self.drop_shadowed(fuel, name) {
                            Ok(_) => {},
                            Err(e) => {
                                return Err(e);
                            },
                        }
                        let ty = type_or(ann, &self.expr_type(init));
                        let lty = match self.env.type_to_llvm(&ty) {
                            Ok(v) => v,
                            Err(e) => {
                                return Err(e);
                            },
                        };
                        let a = self.alloca(&lty);
                        let v = match self.compile_init(fuel, init, ann) {
                            Ok(v) => v,
                            Err(e) => {
                                return Err(e);
                            },
                        };
                        let w = match self.annotated(&v, &lty, ann, &self.expr_type(init)) {
                            Ok(v) => v,
                            Err(e) => {
                                return Err(e);
                            },
                        };
                        self.store(&w, &a);
                        self.fun.symbols.insert(name.clone(), (a.clone(), *is_mut, ty.clone()));
                        self.note_in_scope(name, &type_or(ann, &self.expr_type(init)), &a);
                        self.note_move(init);
                        return Ok(());
                    },
                    Pattern::Wildcard => {
                        let v = match self.compile_expr(fuel, init) {
                            Ok(v) => v,
                            Err(e) => {
                                return Err(e);
                            },
                        };
                        return Ok(());
                    },
                    _ => {
                        return Err(
                            CodegenError::new(
                                "internal error: refutable pattern reached codegen".to_owned(),
                            ),
                        );
                    },
                }
            },
            _ => {
                return Err(CodegenError::new("internal: not a let".to_owned()));
            },
        }
    }

    /// A `let` with an `else` block, which has to diverge.
    pub fn compile_let_else(&mut self, fuel: usize, x: &Stmt) -> (r: Result<(), CodegenError>)
        ensures
            (r.model(), final(self)@) == compile_let_else(old(self)@, nested(fuel as nat), x@),
            stays(old(self)@, final(self)@),
            r is Ok ==> settled(old(self)@, final(self)@),
            r is Ok ==> confined(old(self)@.out.cur, final(self)@.out.cur),
            r is Ok && old(self)@.out.cur.at < old(self)@.out.cur.blocks.len() ==> x@ is Let && x@->Let_else_block is Some && let_else_built(
                final(self)@,
                nested(fuel as nat),
                x@->Let_pattern,
                x@->Let_is_mut,
                x@->Let_else_block->Some_0,
            ),
        decreases fuel, 3int,
    {
        proof {
            broadcast use {crate::nesting::group_nesting, crate::growth::group_growth};

            count_from(old(self)@);
            reveal(compile_let_else);
        }
        match x {
            Stmt::Let { pattern, is_mut, type_ann: ann, init, else_block, .. } => {
                match else_block {
                    Some(b) => {
                        if !matches!(&self.block_type(b), Type::Never { .. }) {
                            return Err(
                                CodegenError::with_span(
                                    "else block of let-else statement must diverge (return never)".to_owned(),
                                    b.span,
                                ),
                            );
                        }
                        let v = match self.compile_init(fuel, init, ann) {
                            Ok(v) => v,
                            Err(e) => {
                                return Err(e);
                            },
                        };
                        let found = self.expr_type(init);
                        let ty = type_or(ann, &found);
                        let lty = match self.env.type_to_llvm(&ty) {
                            Ok(v) => v,
                            Err(e) => {
                                return Err(e);
                            },
                        };
                        let w = match self.annotated(&v, &lty, ann, &found) {
                            Ok(v) => v,
                            Err(e) => {
                                return Err(e);
                            },
                        };
                        let ghost looked = self@;
                        let (c, bindings) = match self.gen_pattern_check(pattern, &w, &ty) {
                            Ok(v) => v,
                            Err(e) => {
                                return Err(e);
                            },
                        };
                        let ghost before = self@;
                        let then_bb: usize = self.add_block("let_else_then");
                        let else_bb: usize = self.add_block("let_else_else");
                        self.branch_if(&c, then_bb, else_bb);
                        let ghost gone = self@.out.cur;
                        self.go_to(else_bb);
                        proof {
                            lemma_gone(
                                old(self)@.out.cur,
                                gone,
                                self@.out.cur,
                                old(self)@.out.cur.blocks.len(),
                            );
                        }
                        let symbols = self.fun.symbols.dup();
                        let moved = self.fun.moved.dup();
                        let given = self.fun.given.dup();
                        let ghost outside = self@;
                        self.enter_scope();
                        let ghost inside = self@;
                        proof { count_from(inside); }
                        let r = match self.compile_block_get_value(fuel, b) {
                            Ok(v) => v,
                            Err(e) => {
                                return Err(e);
                            },
                        };
                        let ghost done = self@;
                        match self.exit_scope(fuel) {
                            Ok(_) => {},
                            Err(e) => {
                                return Err(e);
                            },
                        }
                        let ghost closed = self@;
                        proof {
                            lemma_scope_closed(
                                outside.fun.scopes,
                                done.fun.scopes,
                                self@.fun.scopes,
                            );
                        }
                        self.fun.symbols = symbols.dup();
                        self.fun.moved = moved.dup();
                        self.fun.given = given.dup();
                        let ghost ended = self@;
                        if !self.is_terminated() {
                            self.unreachable_here();
                        }
                        let ghost left = self@;
                        let ghost gone = self@.out.cur;
                        self.go_to(then_bb);
                        proof {
                            lemma_gone(
                                old(self)@.out.cur,
                                gone,
                                self@.out.cur,
                                old(self)@.out.cur.blocks.len(),
                            );
                        }
                        let ghost yes_start = self@;
                        match self.declare_bindings(fuel, &bindings, *is_mut) {
                            Ok(_) => {},
                            Err(e) => {
                                return Err(e);
                            },
                        }
                        self.note_move(init);
                        proof {
                            if old(self)@.out.cur.at < old(self)@.out.cur.blocks.len() {
                                let p = LetElseParts {
                                    looked,
                                    value: w@,
                                    ty: ty@,
                                    before,
                                    tested: c@,
                                    bindings: bindings.model(),
                                    yes: then_bb,
                                    no: else_bb,
                                    no_start: outside,
                                    no_end: closed,
                                    yes_start,
                                };
                                lemma_still_in_block(old(self)@.out.cur, before.out.cur);
                                lemma_adds_both(outside.out.cur, done.out.cur, closed.out.cur);
                                lemma_unbound(outside);
                                lemma_splits("let_else_then"@, "let_else_else"@, p, ended, left);
                                lemma_splits_lift(yes_start.out.cur, self@.out.cur, p);
                                assert(splits(self@.out.cur, p));
                            }
                        }
                        return Ok(());
                    },
                    None => {
                        return Err(
                            CodegenError::new("internal: not a let with an else block".to_owned()),
                        );
                    },
                }
            },
            _ => {
                return Err(CodegenError::new("internal: not a let".to_owned()));
            },
        }
    }

    /// Declares the variables of a pattern; those that they hide are dropped first.
    pub fn declare_bindings(
        &mut self,
        fuel: usize,
        bindings: &Vec<(String, Val, Type)>,
        is_mut: bool,
    ) -> (r: Result<(), CodegenError>)
        ensures
            (r.model(), final(self)@) == declare_bindings(
                old(self)@,
                fuel as nat,
                bindings.model(),
                is_mut,
            ),
            stays(old(self)@, final(self)@),
            r is Ok ==> settled(old(self)@, final(self)@),
            r is Ok ==> confined(old(self)@.out.cur, final(self)@.out.cur),
    {
        proof {
            broadcast use crate::growth::group_growth;

            count_from(old(self)@);
            reveal(declare_bindings);
            reveal(declare_bindings_each);
        }
        let mut i: usize = 0;
        while i < bindings.len()
            invariant
                i <= bindings@.len(),
                declare_bindings_each(
                    self@,
                    fuel as nat,
                    bindings.model(),
                    is_mut,
                    i as nat,
                ) == declare_bindings(old(self)@, fuel as nat, bindings.model(), is_mut),
                stays(old(self)@, self@),
                settled(old(self)@, self@),
                confined(old(self)@.out.cur, self@.out.cur),
            decreases bindings@.len() - i,
        {
            proof {
                broadcast use crate::growth::group_growth;

                count_from(old(self)@);
                reveal(declare_bindings);
                reveal(declare_bindings_each);
            }
            let b = &bindings[i];
            match self.drop_shadowed(fuel, &b.0) {
                Ok(_) => {},
                Err(e) => {
                    return Err(e);
                },
            }
            self.fun.symbols.insert(b.0.clone(), (b.1.clone(), is_mut, b.2.clone()));
            self.note_in_scope(&b.0, &b.2, &b.1);
            i += 1;
        }
        Ok(())
    }

    /// The types of the parameters have to be visible.
    pub fn check_param_types(&self, params: &Vec<Param>) -> (r: Result<(), CodegenError>)
        ensures
            r.model() == check_param_types(self@, param_seq_view(params@)),
    {
        proof {
            reveal(check_param_types);
            reveal(check_param_types_each);
        }
        let mut i: usize = 0;
        while i < params.len()
            invariant
                i <= params@.len(),
                check_param_types_each(
                    self@,
                    param_seq_view(params@),
                    i as nat,
                ) == check_param_types(self@, param_seq_view(params@)),
            decreases params@.len() - i,
        {
            proof {
                reveal(check_param_types);
                reveal(check_param_types_each);
            }
            let p = &params[i];
            proof {
                assert(param_seq_view(params@)[i as int] == param_view(params@[i as int]));
            }
            match self.env.check_visibility_of_type(&self.fun.here, &p.ty) {
                Ok(_) => {},
                Err(e) => {
                    return Err(e);
                },
            }
            i += 1;
        }
        Ok(())
    }

    /// The return type has to be visible.
    pub fn check_return_type(&self, ty: &Option<Type>) -> (r: Result<(), CodegenError>)
        ensures
            r.model() == check_return_type(self@, ty.model()),
    {
        proof {
            reveal(check_return_type);
        }
        match ty {
            Some(t) => {
                return self.env.check_visibility_of_type(&self.fun.here, t);
            },
            None => {
                return Ok(());
            },
        }
    }

    /// The types of a function have to be visible, and it has to be declared.
    pub fn check_function(&self, f: &Function) -> (r: Result<FnSig, CodegenError>)
        ensures
            r.model() == check_function(self@, f@),
            r is Ok ==> self@.out.decls.contains_key(f.name@),
    {
        proof {
            reveal(check_function);
        }
        match self.check_param_types(&f.params) {
            Ok(_) => {},
            Err(e) => {
                return Err(e);
            },
        }
        match self.check_return_type(&f.return_type) {
            Ok(_) => {},
            Err(e) => {
                return Err(e);
            },
        }
        let subject = self.out.decls.get_dup(&f.name);
        match &subject {
            Some(found) => {
                return Ok(found.clone());
            },
            None => {
                return Err(CodegenError::new(cat3("function '", &f.name, "' not declared")));
            },
        }
    }

    /// Gives every parameter its place on the stack.
    pub fn store_params(
        &mut self,
        params: &Vec<Param>,
        tys: &Vec<LTy>,
    ) -> (r: Result<(), CodegenError>)
        ensures
            (r.model(), final(self)@) == store_params(
                old(self)@,
                param_seq_view(params@),
                l_ty_seq_view(tys@),
            ),
            stays(old(self)@, final(self)@),
            r is Ok ==> settled(old(self)@, final(self)@),
            r is Ok ==> confined(old(self)@.out.cur, final(self)@.out.cur),
    {
        proof {
            broadcast use crate::growth::group_growth;

            count_from(old(self)@);
            reveal(store_params);
            reveal(store_params_each);
        }
        let mut i: usize = 0;
        while i < params.len()
            invariant
                i <= params@.len(),
                store_params_each(
                    self@,
                    param_seq_view(params@),
                    l_ty_seq_view(tys@),
                    i as nat,
                ) == store_params(old(self)@, param_seq_view(params@), l_ty_seq_view(tys@)),
                stays(old(self)@, self@),
                settled(old(self)@, self@),
                confined(old(self)@.out.cur, self@.out.cur),
            decreases params@.len() - i,
        {
            proof {
                broadcast use crate::growth::group_growth;

                count_from(old(self)@);
                reveal(store_params);
                reveal(store_params_each);
            }
            let p = &params[i];
            proof {
                assert(param_seq_view(params@)[i as int] == param_view(params@[i as int]));
            }
            let lty = match self.env.type_to_llvm(&p.ty) {
                Ok(v) => v,
                Err(e) => {
                    return Err(e);
                },
            };
            proof {
                assert(l_ty_seq_view(tys@).len() == tys@.len());
            }
            if i < tys.len() {
                proof {
                    assert(l_ty_seq_view(tys@)[i as int] == l_ty_view(tys@[i as int]));
                }
                let a = self.spill(&lty, &arg(i, &tys[i]));
                self.fun.symbols.insert(p.name.clone(), (a.clone(), false, p.ty.clone()));
                self.note_in_scope(&p.name, &p.ty, &a);
            } else {
                return Err(
                    CodegenError::new("internal: a parameter that was not declared".to_owned()),
                );
            }
            i += 1;
        }
        Ok(())
    }

    /// Compiles the body of a declared function, which sees no variable, loop or scope of the place
    /// that was being compiled before. What holds there holds again afterwards.
    pub fn body_step(&mut self, fuel: usize, f: &Function) -> (r: Result<(), CodegenError>)
        ensures
            (r.model(), final(self)@) == body_step(old(self)@, nested(fuel as nat), f@),
            stays(old(self)@, final(self)@),
            r is Ok ==> settled(old(self)@, final(self)@),
            r is Ok ==> confined(old(self)@.out.cur, final(self)@.out.cur),
            same_variables(old(self)@, final(self)@),
            returned(old(self)@, final(self)@),
            r is Ok ==> final(self)@.out.bodies.contains_key(f.name@),
        decreases fuel, 5int,
    {
        proof {
            broadcast use {crate::nesting::group_nesting, crate::growth::group_growth};

            count_from(old(self)@);
            reveal(extended);
            reveal(confined_to);
            reveal(outer_kept);
            reveal(inner_left);
            reveal(enter_scope);
            reveal(body_step);
        }
        let outer = self.out.cur.dup();
        let symbols = self.fun.symbols.dup();
        let moved = self.fun.moved.dup();
        let given = self.fun.given.dup();
        let scopes = self.fun.scopes.dup();
        let loops = self.fun.loops.dup();
        let here = self.fun.here.dup();
        let table2: Table<(Val, bool, Type)> = Table::new();
        self.fun.symbols = table2;
        self.fun.moved = Names::new();
        let table3: Table<bool> = Table::new();
        self.fun.given = table3;
        let items: Vec<Vec<(String, Type, Val)>> = Vec::new();
        proof {
            assert(items.model() =~= Seq::<Seq<(Seq<char>, TypeView, ValView)>>::empty());
        }
        self.fun.scopes = items;
        let items2: Vec<LoopContext> = Vec::new();
        proof {
            assert(items2.model() =~= Seq::<LoopContextView>::empty());
        }
        self.fun.loops = items2;
        self.enter_scope();
        self.fun.here = self.env.module_of_item(&f.name);
        let res = self.compile_function_body_inner(fuel, f);
        let ghost past = self@.out;
        self.out.cur = outer.dup();
        proof {
            assert(grown(past, self@.out)) by {
                reveal(grown);
            }
            lemma_returned_back(old(self)@.out, past, self@.out);
        }
        self.fun.symbols = symbols.dup();
        self.fun.moved = moved.dup();
        self.fun.given = given.dup();
        self.fun.scopes = scopes.dup();
        self.fun.loops = loops.dup();
        self.fun.here = here.dup();
        res
    }

    /// Compiles the body of a function from its entry block on.
    pub fn compile_function_body_inner(
        &mut self,
        fuel: usize,
        f: &Function,
    ) -> (r: Result<(), CodegenError>)
        ensures
            (r.model(), final(self)@) == compile_function_body_inner(
                old(self)@,
                nested(fuel as nat),
                f@,
            ),
            keeps(old(self)@, final(self)@),
            r is Ok ==> fields_kept(old(self)@.env, final(self)@.env),
            r is Ok ==> final(self)@.out.bodies.contains_key(f.name@),
        decreases fuel, 4int,
    {
        proof {
            broadcast use {crate::nesting::group_nesting, crate::growth::group_growth};

            count_from(old(self)@);
            reveal(compile_function_body_inner);
        }
        let found = match self.check_function(f) {
            Ok(v) => v,
            Err(e) => {
                return Err(e);
            },
        };
        self.begin(&f.name);
        proof {
            count_from(self@);
        }
        let res = self.compile_code(fuel, f, &found);
        proof {
            assert(self@.out.decls.contains_key(self@.out.cur.name)) by {
                reveal(grown);
            }
        }
        self.finish();
        res
    }

    /// The code of a function: its parameters, its statements, and what it returns. What is left of
    /// its variables and parameters is dropped before it returns.
    pub fn compile_code(
        &mut self,
        fuel: usize,
        f: &Function,
        found: &FnSig,
    ) -> (r: Result<(), CodegenError>)
        ensures
            (r.model(), final(self)@) == compile_code(old(self)@, nested(fuel as nat), f@, found@),
            stays(old(self)@, final(self)@),
            r is Ok ==> settled(old(self)@, final(self)@),
            r is Ok ==> confined(old(self)@.out.cur, final(self)@.out.cur),
        decreases fuel, 3int,
    {
        proof {
            broadcast use {crate::nesting::group_nesting, crate::growth::group_growth};

            count_from(old(self)@);
            reveal(compile_code);
        }
        match self.store_params(&f.params, &found.params) {
            Ok(_) => {},
            Err(e) => {
                return Err(e);
            },
        }
        match self.compile_stmts(fuel, &f.body.stmts) {
            Ok(_) => {},
            Err(e) => {
                return Err(e);
            },
        }
        if self.is_terminated() {
            return Ok(());
        }
        match &f.body.tail_expr {
            Some(tail) => {
                return self.compile_result(fuel, tail, &return_or(f, &Type::I32));
            },
            None => {
                match self.leave_inner(fuel, 0) {
                    Ok(_) => {},
                    Err(e) => {
                        return Err(e);
                    },
                }
                return self.end_of_function(f);
            },
        }
    }

    /// What a function does that comes to its end without a value.
    pub fn end_of_function(&mut self, f: &Function) -> (r: Result<(), CodegenError>)
        ensures
            (r.model(), final(self)@) == end_of_function(old(self)@, f@),
            stays(old(self)@, final(self)@),
            r is Ok ==> settled(old(self)@, final(self)@),
            r is Ok ==> confined(old(self)@.out.cur, final(self)@.out.cur),
            r is Ok ==> same_variables(old(self)@, final(self)@),
    {
        proof {
            broadcast use crate::growth::group_growth;

            count_from(old(self)@);
            reveal(end_of_function);
        }
        match &f.return_type {
            Some(ty) => {
                if matches!(ty, Type::Never { .. }) {
                    self.unreachable_here();
                    return Ok(());
                }
                let lty = match self.env.type_to_llvm(ty) {
                    Ok(v) => v,
                    Err(e) => {
                        return Err(e);
                    },
                };
                return self.ret(&zero_of(&lty));
            },
            None => {
                if same(&f.name, "main") {
                    return self.ret(&mk_int(32, 0));
                }
                return self.ret_nothing();
            },
        }
    }

    /// A `return` with a value; what follows it is never reached.
    pub fn compile_return(&mut self, fuel: usize, e: &Expr) -> (r: Result<(), CodegenError>)
        ensures
            (r.model(), final(self)@) == compile_return(old(self)@, nested(fuel as nat), e@),
            stays(old(self)@, final(self)@),
            r is Ok ==> settled(old(self)@, final(self)@),
            r is Ok ==> confined(old(self)@.out.cur, final(self)@.out.cur),
            r is Ok ==> same_variables(old(self)@, final(self)@),
        decreases fuel, 3int,
    {
        proof {
            broadcast use {crate::nesting::group_nesting, crate::growth::group_growth};

            count_from(old(self)@);
            reveal(compile_return);
        }
        match self.compile_result(fuel, e, &self.return_type_here()) {
            Ok(_) => {},
            Err(e) => {
                return Err(e);
            },
        }
        self.unreachable_here();
        Ok(())
    }

    /// A `return` without a value, which ends `main` with zero; what follows it is never reached.
    pub fn return_nothing(&mut self, fuel: usize) -> (r: Result<(), CodegenError>)
        ensures
            (r.model(), final(self)@) == return_nothing(old(self)@, fuel as nat),
            stays(old(self)@, final(self)@),
            r is Ok ==> settled(old(self)@, final(self)@),
            r is Ok ==> confined(old(self)@.out.cur, final(self)@.out.cur),
            r is Ok ==> same_variables(old(self)@, final(self)@),
    {
        proof {
            broadcast use crate::growth::group_growth;

            count_from(old(self)@);
            reveal(return_nothing);
        }
        match self.leave_inner(fuel, 0) {
            Ok(_) => {},
            Err(e) => {
                return Err(e);
            },
        }
        match self.return_bare() {
            Ok(_) => {},
            Err(e) => {
                return Err(e);
            },
        }
        self.unreachable_here();
        Ok(())
    }

    /// Returns without a value: zero from a `main` that gives an `i32`.
    pub fn return_bare(&mut self) -> (r: Result<(), CodegenError>)
        ensures
            (r.model(), final(self)@) == return_bare(old(self)@),
            stays(old(self)@, final(self)@),
            r is Ok ==> settled(old(self)@, final(self)@),
            r is Ok ==> confined(old(self)@.out.cur, final(self)@.out.cur),
            r is Ok ==> same_variables(old(self)@, final(self)@),
    {
        proof {
            broadcast use crate::growth::group_growth;

            count_from(old(self)@);
            reveal(return_bare);
        }
        if same(&self.out.cur.name, "main") {
            return self.ret(&mk_int(32, 0));
        }
        let subject = self.declared_result();
        match &subject {
            Some(result) => {
                if matches!(result, Some(_)) {
                    return Err(
                        CodegenError::new(
                            cat3(
                                "mismatched types: expected ",
                                &show_type(&self.return_type_here()),
                                ", found ()",
                            ),
                        ),
                    );
                }
                return self.ret_nothing();
            },
            None => {
                return self.ret_nothing();
            },
        }
    }

    /// Returns the value of an expression as the type that is declared. What is left of the
    /// variables of the function is dropped before.
    pub fn compile_result(
        &mut self,
        fuel: usize,
        e: &Expr,
        ty: &Type,
    ) -> (r: Result<(), CodegenError>)
        ensures
            (r.model(), final(self)@) == compile_result(old(self)@, nested(fuel as nat), e@, ty@),
            stays(old(self)@, final(self)@),
            r is Ok ==> settled(old(self)@, final(self)@),
            r is Ok ==> confined(old(self)@.out.cur, final(self)@.out.cur),
            r is Ok ==> same_variables(old(self)@, final(self)@),
        decreases fuel, 2int,
    {
        proof {
            broadcast use {crate::nesting::group_nesting, crate::growth::group_growth};

            count_from(old(self)@);
            reveal(compile_result);
        }
        let v = match self.compile_expected(fuel, e, ty) {
            Ok(v) => v,
            Err(e) => {
                return Err(e);
            },
        };
        let subject = self.declared_result();
        match &subject {
            Some(result) => {
                match result {
                    Some(lty) => {
                        let w = match self.as_result(&v, &self.expr_type(e), ty, lty) {
                            Ok(v) => v,
                            Err(e) => {
                                return Err(e);
                            },
                        };
                        self.note_given(e);
                        match self.leave_inner(fuel, 0) {
                            Ok(_) => {},
                            Err(e) => {
                                return Err(e);
                            },
                        }
                        return self.ret(&w);
                    },
                    None => {
                        match self.leave_inner(fuel, 0) {
                            Ok(_) => {},
                            Err(e) => {
                                return Err(e);
                            },
                        }
                        if matches!(ty, Type::Never { .. }) {
                            self.unreachable_here();
                            return Ok(());
                        }
                        return self.ret_nothing();
                    },
                }
            },
            None => {
                return self.ret(&v);
            },
        }
    }

    /// A value as the type that a function returns. A `main` that gives a number ends with zero
    /// where its value is none.
    pub fn as_result(
        &mut self,
        v: &Val,
        found: &Type,
        ty: &Type,
        lty: &LTy,
    ) -> (r: Result<Val, CodegenError>)
        ensures
            (r.model(), final(self)@) == as_result(old(self)@, v@, found@, ty@, lty@),
            stays(old(self)@, final(self)@),
            r is Ok ==> settled(old(self)@, final(self)@),
            r is Ok ==> confined(old(self)@.out.cur, final(self)@.out.cur),
            r is Ok ==> same_variables(old(self)@, final(self)@),
    {
        proof {
            broadcast use crate::growth::group_growth;

            count_from(old(self)@);
            reveal(as_result);
        }
        if same_lty(&v.ty, lty) && !matches!(found, Type::Never { .. }) {
            return Ok(v.clone());
        }
        if same(
            &self.out.cur.name,
            "main",
        ) && is_aggregate(&v.ty) && matches!(lty, LTy::Int { .. }) && !matches!(
            found,
            Type::Never { .. }
        ) {
            return Ok(zero_of(lty));
        }
        self.emit_cast(v, found, ty)
    }

    /// The instance of a generic function for a call; it is compiled where it does not exist yet.
    pub fn monomorphize_generic_function(
        &mut self,
        fuel: usize,
        f: &Function,
        arg_tys: &Vec<Type>,
        type_args: &Vec<Type>,
    ) -> (r: Result<String, CodegenError>)
        ensures
            (r.model(), final(self)@) == monomorphize_generic_function(
                old(self)@,
                nested(fuel as nat),
                f@,
                type_seq_view(arg_tys@),
                type_seq_view(type_args@),
            ),
            stays(old(self)@, final(self)@),
            r is Ok ==> settled(old(self)@, final(self)@),
            r is Ok ==> confined(old(self)@.out.cur, final(self)@.out.cur),
            r is Ok ==> same_variables(old(self)@, final(self)@),
        decreases fuel, 2int,
    {
        proof {
            broadcast use {crate::nesting::group_nesting, crate::growth::group_growth};

            count_from(old(self)@);
            reveal(monomorphize_generic_function);
        }
        let g = match self.env.function_instance(f, arg_tys, type_args) {
            Ok(v) => v,
            Err(e) => {
                return Err(e);
            },
        };
        match self.compile_new(fuel, f, &g) {
            Ok(_) => {},
            Err(e) => {
                return Err(e);
            },
        }
        Ok(g.name.clone())
    }

    /// Declares and compiles an instance, unless it is declared already.
    pub fn compile_new(
        &mut self,
        fuel: usize,
        f: &Function,
        g: &Function,
    ) -> (r: Result<(), CodegenError>)
        ensures
            (r.model(), final(self)@) == compile_new(old(self)@, nested(fuel as nat), f@, g@),
            stays(old(self)@, final(self)@),
            r is Ok ==> settled(old(self)@, final(self)@),
            r is Ok ==> confined(old(self)@.out.cur, final(self)@.out.cur),
            r is Ok ==> same_variables(old(self)@, final(self)@),
        decreases fuel, 1int,
    {
        proof {
            broadcast use {crate::nesting::group_nesting, crate::growth::group_growth};

            count_from(old(self)@);
            reveal(compile_new);
        }
        if self.out.decls.contains_key(&g.name) {
            return Ok(());
        }
        match self.declare_function(g) {
            Ok(_) => {},
            Err(e) => {
                return Err(e);
            },
        }
        self.compile_function_body(fuel, g)
    }

    /// The instance of a generic method for a call; it is compiled where it does not exist yet.
    pub fn monomorphize_generic_method(
        &mut self,
        fuel: usize,
        owner: &str,
        f: &Function,
        arg_tys: &Vec<Type>,
        type_args: &Vec<Type>,
    ) -> (r: Result<String, CodegenError>)
        ensures
            (r.model(), final(self)@) == monomorphize_generic_method(
                old(self)@,
                nested(fuel as nat),
                owner@,
                f@,
                type_seq_view(arg_tys@),
                type_seq_view(type_args@),
            ),
            stays(old(self)@, final(self)@),
            r is Ok ==> settled(old(self)@, final(self)@),
            r is Ok ==> confined(old(self)@.out.cur, final(self)@.out.cur),
            r is Ok ==> same_variables(old(self)@, final(self)@),
        decreases fuel, 2int,
    {
        proof {
            broadcast use {crate::nesting::group_nesting, crate::growth::group_growth};

            count_from(old(self)@);
            reveal(monomorphize_generic_method);
        }
        let g = match self.env.method_instance(owner, f, arg_tys, type_args) {
            Ok(v) => v,
            Err(e) => {
                return Err(e);
            },
        };
        match self.compile_new(fuel, f, &g) {
            Ok(_) => {},
            Err(e) => {
                return Err(e);
            },
        }
        self.add_method(owner, &f.name, &g.name);
        Ok(g.name.clone())
    }

    /// The instance of a generic type with its methods; it is made once.
    pub fn instance_step(
        &mut self,
        fuel: usize,
        base: &str,
        args: &Vec<Type>,
    ) -> (r: Result<(), CodegenError>)
        ensures
            (r.model(), final(self)@) == instance_step(
                old(self)@,
                nested(fuel as nat),
                base@,
                type_seq_view(args@),
            ),
            stays(old(self)@, final(self)@),
            r is Ok ==> settled(old(self)@, final(self)@),
            r is Ok ==> confined(old(self)@.out.cur, final(self)@.out.cur),
            r is Ok ==> same_variables(old(self)@, final(self)@),
            r is Ok && !old(self)@.env.monomorphized.contains(mangled(base@, type_seq_view(args@))) ==> instance_laid_out(
                old(self)@.env,
                final(self)@.env,
                base@,
                type_seq_view(args@),
            ),
            r is Ok ==> final(self)@.env.monomorphized.contains(
                mangled(base@, type_seq_view(args@)),
            ),
        decreases fuel, 4int,
    {
        proof {
            broadcast use {crate::nesting::group_nesting, crate::growth::group_growth};

            count_from(old(self)@);
            reveal(instance_step);
        }
        let mangled = mangle_generic_instance(base, args);
        if self.env.monomorphized.contains(&mangled) {
            return Ok(());
        }
        let ghost past = self@.env;
        self.env.monomorphized.insert(mangled.clone());
        proof {
            assert(fields_kept(past, self@.env)) by {
                reveal(fields_kept);
            }
            assert(within(past.monomorphized, self@.env.monomorphized)) by {
                reveal(within);
            }
        }
        let ghost made = self@;
        proof { count_from(made); }
        self.fun.mono_names.insert(base.to_owned(), mangled.clone());
        match self.instance_struct(base, args, &mangled) {
            Ok(_) => {},
            Err(e) => {
                return Err(e);
            },
        }
        match self.instance_enum(base, args, &mangled) {
            Ok(_) => {},
            Err(e) => {
                return Err(e);
            },
        }
        let ghost known = self@;
        proof {
            count_from(known);
            lemma_fields_laid(old(self)@.env, made.env, known.env, mangled@);
        }
        let subject = self.env.generic_impls.get_dup(base);
        let blocks: Vec<(Vec<GenericParam>, ImplDecl)> = match &subject {
            Some(found) => {
                let blocks = found.dup();
                blocks
            },
            None => {
                let items: Vec<(Vec<GenericParam>, ImplDecl)> = Vec::new();
                proof {
                    assert(items.model() =~= Seq::<(Seq<GenericParamView>, ImplDeclView)>::empty());
                }
                let blocks = items;
                blocks
            },
        };
        let ghost past2 = self@.env;
        self.env.current_mono = Some((base.to_owned(), mangled.clone()));
        proof {
            assert(fields_kept(past2, self@.env)) by {
                reveal(fields_kept);
            }
        }
        match self.instance_impls(fuel, base, args, &mangled, &blocks) {
            Ok(_) => {},
            Err(e) => {
                return Err(e);
            },
        }
        let ghost past3 = self@.env;
        self.env.current_mono = None;
        proof {
            assert(fields_kept(past3, self@.env)) by {
                reveal(fields_kept);
            }
        }
        proof {
            assert(self@.env.monomorphized.contains(mangled@)) by {
                assert(made.env.monomorphized.contains(mangled@));
                reveal(within);
            }
            assert(known.env.monomorphized.contains(mangled@));
            reveal(fields_kept);
        }
        Ok(())
    }

    /// What the `impl` blocks of a generic type give an instance.
    pub fn instance_impls(
        &mut self,
        fuel: usize,
        base: &str,
        args: &Vec<Type>,
        mangled: &str,
        blocks: &Vec<(Vec<GenericParam>, ImplDecl)>,
    ) -> (r: Result<(), CodegenError>)
        ensures
            (r.model(), final(self)@) == instance_impls(
                old(self)@,
                nested(fuel as nat),
                base@,
                type_seq_view(args@),
                mangled@,
                blocks.model(),
            ),
            stays(old(self)@, final(self)@),
            r is Ok ==> settled(old(self)@, final(self)@),
            r is Ok ==> confined(old(self)@.out.cur, final(self)@.out.cur),
            r is Ok ==> same_variables(old(self)@, final(self)@),
        decreases fuel, 3int,
    {
        proof {
            broadcast use {crate::nesting::group_nesting, crate::growth::group_growth};

            count_from(old(self)@);
            reveal(instance_impls);
            reveal(instance_impls_each);
        }
        let mut i: usize = 0;
        while i < blocks.len()
            invariant
                i <= blocks@.len(),
                instance_impls_each(
                    self@,
                    nested(fuel as nat),
                    base@,
                    type_seq_view(args@),
                    mangled@,
                    blocks.model(),
                    i as nat,
                ) == instance_impls(
                    old(self)@,
                    nested(fuel as nat),
                    base@,
                    type_seq_view(args@),
                    mangled@,
                    blocks.model(),
                ),
                stays(old(self)@, self@),
                settled(old(self)@, self@),
                confined(old(self)@.out.cur, self@.out.cur),
                same_variables(old(self)@, self@),
            decreases blocks@.len() - i,
        {
            proof {
                broadcast use {crate::nesting::group_nesting, crate::growth::group_growth};

                count_from(old(self)@);
                reveal(instance_impls);
                reveal(instance_impls_each);
            }
            let b = &blocks[i];
            let names = names_of_params(&b.0);
            self.instance_impl(&b.1, mangled, &names, args);
            match self.instance_methods(fuel, base, args, mangled, &b.1.methods, &names) {
                Ok(_) => {},
                Err(e) => {
                    return Err(e);
                },
            }
            i += 1;
        }
        Ok(())
    }

    /// The methods of an instance.
    pub fn instance_methods(
        &mut self,
        fuel: usize,
        base: &str,
        args: &Vec<Type>,
        mangled: &str,
        methods: &Vec<Function>,
        names: &Vec<String>,
    ) -> (r: Result<(), CodegenError>)
        ensures
            (r.model(), final(self)@) == instance_methods(
                old(self)@,
                nested(fuel as nat),
                base@,
                type_seq_view(args@),
                mangled@,
                function_seq_view(methods@),
                texts(names@),
            ),
            stays(old(self)@, final(self)@),
            r is Ok ==> settled(old(self)@, final(self)@),
            r is Ok ==> confined(old(self)@.out.cur, final(self)@.out.cur),
            r is Ok ==> same_variables(old(self)@, final(self)@),
        decreases fuel, 2int,
    {
        proof {
            broadcast use {crate::nesting::group_nesting, crate::growth::group_growth};

            count_from(old(self)@);
            reveal(instance_methods);
            reveal(instance_methods_each);
        }
        let mut i: usize = 0;
        while i < methods.len()
            invariant
                i <= methods@.len(),
                instance_methods_each(
                    self@,
                    nested(fuel as nat),
                    base@,
                    type_seq_view(args@),
                    mangled@,
                    function_seq_view(methods@),
                    texts(names@),
                    i as nat,
                ) == instance_methods(
                    old(self)@,
                    nested(fuel as nat),
                    base@,
                    type_seq_view(args@),
                    mangled@,
                    function_seq_view(methods@),
                    texts(names@),
                ),
                stays(old(self)@, self@),
                settled(old(self)@, self@),
                confined(old(self)@.out.cur, self@.out.cur),
                same_variables(old(self)@, self@),
            decreases methods@.len() - i,
        {
            proof {
                broadcast use {crate::nesting::group_nesting, crate::growth::group_growth};

                count_from(old(self)@);
                reveal(instance_methods);
                reveal(instance_methods_each);
            }
            let m = &methods[i];
            proof {
                assert(function_seq_view(methods@)[i as int] == function_view(methods@[i as int]));
            }
            let g = monomorphize_method(
                m,
                names,
                args,
                &Type::GenericInstance(base.to_owned(), dup_type_seq(args)),
            );
            proof {
                assert(param_seq_view(g.params@).len() == g.params@.len());
            }
            let f = Function {
                name: mangled_method_name(mangled, &g.name, g.params.len()),
                params: dup_param_seq(&g.params),
                return_type: g.return_type.dup(),
                type_params: dup_generic_param_seq(&g.type_params),
                body: g.body.clone(),
                is_extern: g.is_extern,
                is_intrinsic: g.is_intrinsic,
                is_method: g.is_method,
                is_pub: g.is_pub,
                attribs: dup_attribute_seq(&g.attribs),
                span: g.span,
            };
            let saved = self.fun.mono_names.get_dup(base);
            match self.ensure_all(fuel, base, &collect_generic_instances_from_method(&f)) {
                Ok(_) => {},
                Err(e) => {
                    return Err(e);
                },
            }
            self.restore_name(base, &saved);
            match self.declare_function(&f) {
                Ok(_) => {},
                Err(e) => {
                    return Err(e);
                },
            }
            match self.compile_function_body(fuel, &f) {
                Ok(_) => {},
                Err(e) => {
                    return Err(e);
                },
            }
            self.add_method(mangled, &m.name, &f.name);
            i += 1;
        }
        Ok(())
    }

    /// Lets a base name stand for what it stood for before, if it stood for anything.
    pub fn restore_name(&mut self, base: &str, saved: &Option<String>)
        ensures
            final(self)@ == restore_name(old(self)@, base@, saved.model()),
            stays(old(self)@, final(self)@),
            settled(old(self)@, final(self)@),
            confined(old(self)@.out.cur, final(self)@.out.cur),
            same_variables(old(self)@, final(self)@),
    {
        proof {
            broadcast use crate::growth::group_growth;

            count_from(old(self)@);
            reveal(restore_name);
        }
        match saved {
            Some(name) => {
                self.fun.mono_names.insert(base.to_owned(), name.clone());
            },
            None => {},
        }
    }

    /// The instances of generic types that code uses.
    pub fn ensure_all(
        &mut self,
        fuel: usize,
        base: &str,
        found: &Vec<(String, Vec<Type>)>,
    ) -> (r: Result<(), CodegenError>)
        ensures
            (r.model(), final(self)@) == ensure_all(
                old(self)@,
                nested(fuel as nat),
                base@,
                found.model(),
            ),
            stays(old(self)@, final(self)@),
            r is Ok ==> settled(old(self)@, final(self)@),
            r is Ok ==> confined(old(self)@.out.cur, final(self)@.out.cur),
            r is Ok ==> same_variables(old(self)@, final(self)@),
        decreases fuel, 1int,
    {
        proof {
            broadcast use {crate::nesting::group_nesting, crate::growth::group_growth};

            count_from(old(self)@);
            reveal(ensure_all);
            reveal(ensure_all_each);
        }
        let mut i: usize = 0;
        while i < found.len()
            invariant
                i <= found@.len(),
                ensure_all_each(self@, nested(fuel as nat), found.model(), i as nat) == ensure_all(
                    old(self)@,
                    nested(fuel as nat),
                    base@,
                    found.model(),
                ),
                stays(old(self)@, self@),
                settled(old(self)@, self@),
                confined(old(self)@.out.cur, self@.out.cur),
                same_variables(old(self)@, self@),
            decreases found@.len() - i,
        {
            proof {
                broadcast use {crate::nesting::group_nesting, crate::growth::group_growth};

                count_from(old(self)@);
                reveal(ensure_all);
                reveal(ensure_all_each);
            }
            let x = &found[i];
            if self.env.is_generic_base(&x.0) {
                match self.ensure_monomorphized(fuel, &x.0, &x.1) {
                    Ok(_) => {},
                    Err(e) => {
                        return Err(e);
                    },
                }
            }
            i += 1;
        }
        Ok(())
    }

    /// The methods of an array type; they are made once.
    pub fn slice_step(
        &mut self,
        fuel: usize,
        elem: &Type,
        len: usize,
    ) -> (r: Result<(), CodegenError>)
        ensures
            (r.model(), final(self)@) == slice_step(old(self)@, nested(fuel as nat), elem@, len),
            stays(old(self)@, final(self)@),
            r is Ok ==> settled(old(self)@, final(self)@),
            r is Ok ==> confined(old(self)@.out.cur, final(self)@.out.cur),
            r is Ok ==> same_variables(old(self)@, final(self)@),
            r is Ok ==> final(self)@.env.impl_methods.contains_key(array_key(elem@, len)),
        decreases fuel, 4int,
    {
        proof {
            broadcast use {crate::nesting::group_nesting, crate::growth::group_growth};

            count_from(old(self)@);
            reveal(slice_step);
        }
        let key = array_type_key(elem, len);
        if self.env.impl_methods.contains_key(&key) {
            return Ok(());
        }
        let items: Vec<(String, String)> = Vec::new();
        proof {
            assert(items.model() =~= Seq::<(Seq<char>, Seq<char>)>::empty());
        }
        let ghost past = self@.env;
        self.env.impl_methods.insert(key.clone(), items);
        proof {
            assert(fields_kept(past, self@.env)) by {
                reveal(fields_kept);
            }
            assert(within(past.impl_methods.dom(), self@.env.impl_methods.dom())) by {
                reveal(within);
            }
        }
        let ghost made = self@;
        proof { count_from(made); }
        self.add_trait(&key, "Index");
        self.add_trait(&key, "IndexMut");
        let elem_lty = match self.env.type_to_llvm(elem) {
            Ok(v) => v,
            Err(e) => {
                return Err(e);
            },
        };
        let lty = match array_type(&elem_lty, len as u32) {
            Ok(v) => v,
            Err(e) => {
                return Err(e);
            },
        };
        let blocks = dup_impl_decl_seq(&self.env.slice_impls);
        match self.slice_impl_blocks(fuel, elem, len, &key, &blocks) {
            Ok(_) => {},
            Err(e) => {
                return Err(e);
            },
        }
        match self.slice_builtins(
            &key,
            &Type::Array { inner: Box::new(elem.clone()), len: len },
            elem,
            &lty,
            len,
        ) {
            Ok(_) => {},
            Err(e) => {
                return Err(e);
            },
        }
        proof {
            assert(self@.env.impl_methods.dom().contains(key@)) by {
                assert(made.env.impl_methods.dom().contains(key@));
                reveal(within);
            }
        }
        Ok(())
    }

    /// What the `impl` blocks of arrays give an array type.
    pub fn slice_impl_blocks(
        &mut self,
        fuel: usize,
        elem: &Type,
        len: usize,
        key: &str,
        blocks: &Vec<ImplDecl>,
    ) -> (r: Result<(), CodegenError>)
        ensures
            (r.model(), final(self)@) == slice_impl_blocks(
                old(self)@,
                nested(fuel as nat),
                elem@,
                len,
                key@,
                impl_decl_seq_view(blocks@),
            ),
            stays(old(self)@, final(self)@),
            r is Ok ==> settled(old(self)@, final(self)@),
            r is Ok ==> confined(old(self)@.out.cur, final(self)@.out.cur),
            r is Ok ==> same_variables(old(self)@, final(self)@),
        decreases fuel, 3int,
    {
        proof {
            broadcast use {crate::nesting::group_nesting, crate::growth::group_growth};

            count_from(old(self)@);
            reveal(slice_impl_blocks);
            reveal(slice_impl_blocks_each);
        }
        let mut i: usize = 0;
        while i < blocks.len()
            invariant
                i <= blocks@.len(),
                slice_impl_blocks_each(
                    self@,
                    nested(fuel as nat),
                    elem@,
                    len,
                    key@,
                    impl_decl_seq_view(blocks@),
                    i as nat,
                ) == slice_impl_blocks(
                    old(self)@,
                    nested(fuel as nat),
                    elem@,
                    len,
                    key@,
                    impl_decl_seq_view(blocks@),
                ),
                stays(old(self)@, self@),
                settled(old(self)@, self@),
                confined(old(self)@.out.cur, self@.out.cur),
                same_variables(old(self)@, self@),
            decreases blocks@.len() - i,
        {
            proof {
                broadcast use {crate::nesting::group_nesting, crate::growth::group_growth};

                count_from(old(self)@);
                reveal(slice_impl_blocks);
                reveal(slice_impl_blocks_each);
            }
            let d = &blocks[i];
            proof {
                assert(impl_decl_seq_view(blocks@)[i as int] == impl_decl_view(blocks@[i as int]));
            }
            match &d.impl_type {
                Type::GenericArray { inner, .. } => {
                    match &d.trait_name {
                        Some(name) => {
                            self.add_trait(key, name);
                        },
                        None => {},
                    }
                    let tys = slice_type_args(&d.type_params, &element_param(inner), elem);
                    match self.slice_methods(
                        fuel,
                        elem,
                        len,
                        key,
                        &d.methods,
                        &d.trait_name,
                        &names_of_params(&d.type_params),
                        &tys,
                        &d.const_params,
                    ) {
                        Ok(_) => {},
                        Err(e) => {
                            return Err(e);
                        },
                    }
                },
                _ => {},
            }
            i += 1;
        }
        Ok(())
    }

    /// The methods that one `impl` block gives an array type.
    pub fn slice_methods(
        &mut self,
        fuel: usize,
        elem: &Type,
        len: usize,
        key: &str,
        methods: &Vec<Function>,
        trait_name: &Option<String>,
        names: &Vec<String>,
        tys: &Vec<Type>,
        consts: &Vec<String>,
    ) -> (r: Result<(), CodegenError>)
        ensures
            (r.model(), final(self)@) == slice_methods(
                old(self)@,
                nested(fuel as nat),
                elem@,
                len,
                key@,
                function_seq_view(methods@),
                trait_name.model(),
                texts(names@),
                type_seq_view(tys@),
                texts(consts@),
            ),
            stays(old(self)@, final(self)@),
            r is Ok ==> settled(old(self)@, final(self)@),
            r is Ok ==> confined(old(self)@.out.cur, final(self)@.out.cur),
            r is Ok ==> same_variables(old(self)@, final(self)@),
        decreases fuel, 2int,
    {
        proof {
            broadcast use {crate::nesting::group_nesting, crate::growth::group_growth};

            count_from(old(self)@);
            reveal(slice_methods);
            reveal(slice_methods_each);
        }
        let mut i: usize = 0;
        while i < methods.len()
            invariant
                i <= methods@.len(),
                slice_methods_each(
                    self@,
                    nested(fuel as nat),
                    elem@,
                    len,
                    key@,
                    function_seq_view(methods@),
                    trait_name.model(),
                    texts(names@),
                    type_seq_view(tys@),
                    texts(consts@),
                    i as nat,
                ) == slice_methods(
                    old(self)@,
                    nested(fuel as nat),
                    elem@,
                    len,
                    key@,
                    function_seq_view(methods@),
                    trait_name.model(),
                    texts(names@),
                    type_seq_view(tys@),
                    texts(consts@),
                ),
                stays(old(self)@, self@),
                settled(old(self)@, self@),
                confined(old(self)@.out.cur, self@.out.cur),
                same_variables(old(self)@, self@),
            decreases methods@.len() - i,
        {
            proof {
                broadcast use {crate::nesting::group_nesting, crate::growth::group_growth};

                count_from(old(self)@);
                reveal(slice_methods);
                reveal(slice_methods_each);
            }
            let m = &methods[i];
            proof {
                assert(function_seq_view(methods@)[i as int] == function_view(methods@[i as int]));
            }
            proof {
                assert(param_seq_view(m.params@).len() == m.params@.len());
            }
            let name = slice_method_name(trait_name, &m.name, key, m.params.len());
            let f = slice_method(
                m,
                names,
                tys,
                &Type::Array { inner: Box::new(elem.clone()), len: len },
                consts,
                &slice_lengths(consts, len),
                &name,
            );
            match self.ensure_all(fuel, key, &collect_generic_instances_from_method(&f)) {
                Ok(_) => {},
                Err(e) => {
                    return Err(e);
                },
            }
            if !self.out.decls.contains_key(&name) {
                match self.declare_function(&f) {
                    Ok(_) => {},
                    Err(e) => {
                        return Err(e);
                    },
                }
                match self.compile_function_body(fuel, &f) {
                    Ok(_) => {},
                    Err(e) => {
                        return Err(e);
                    },
                }
            }
            self.add_method(key, &m.name, &name);
            i += 1;
        }
        Ok(())
    }
}

} // verus!
