//! Code for expressions.
use crate::ast::{BinOp, Block, Expr, MatchArm, Pattern, Stmt, Type};
use crate::builder::{
    add_block, alloca, binary, elem_ptr, emit_value, field_ptr, go_to, insert, int_const, invert,
    jump, load, mk_int, mk_undef, mk_unit, spill, store, terminated, undef, unit_value,
};
use crate::calls::{compile_call, compile_method_call, compile_qualified_call};
use crate::casts::{as_ptr, as_ptr_spec, const_value_to_llvm, emit_cast};
use crate::collect::{field_types, types_of_fields};
use crate::consts::eval_associated_const;
use crate::flow::{
    ArmParts, ElifParts, ForkParts, LogicParts, LoopParts, MatchParts, MeetParts, RoundParts,
    arms_built, arms_ready, block_built, body_built, chain_stands, decides_early, for_built, forks,
    goes_round, if_built, if_let_built, lemma_adds_both, lemma_arm_built, lemma_body_built,
    lemma_decides_early, lemma_elif_stands, lemma_forks, lemma_goes_round, lemma_match_built,
    lemma_repeats, lemma_still_in_block, lemma_untouched, logic_built, loop_built, match_built,
    only_blocks, repeats, some_of, waiting, while_built,
};
use crate::growth::{
    blocks_follow, blocks_ready, confined, confined_to, count_from, left_loop, lemma_gone,
    lemma_scope_closed, same_variables, settled, stays,
};
use crate::infer::{element_of_slice, enum_name_of, slice_element, ty_of};
use crate::ir::{
    BinKind, FloatConst, FloatConstView, Inst, InstView, LTy, LTyView, Operand, OperandView, Val,
    ValView, dup_val_seq, same_lty, val_seq_view,
};
use crate::lists::{drop_end, shorter};
use crate::literal::{lit_type, literal_type};
use crate::model::{
    BlockView, ExprView, MatchArmView, PatternView, StmtView, TypeView, block_view,
    expr_block_seq_view, expr_seq_view, expr_view, match_arm_seq_view, match_arm_view, span_of,
    stmt_seq_view, stmt_view, string_expr_seq_view, type_seq_view, type_view,
};
use crate::names::{show_type, type_text};
use crate::nesting::{Nested, nested, nested_expr, nested_instance, nested_slice, nested_stmt};
use crate::operators::{branch_if, compile_trait_arithmetic, compile_trait_comparison};
use crate::patterns::{
    bind_all, field_position, field_position_spec, gen_pattern_check, variant_number,
};
use crate::places::{
    array_behind, array_behind_spec, array_parts_or_fail, array_parts_or_fail_spec, as_int,
    as_int_spec, assigned_struct, assigned_variable, const_at, element_at, field_number,
    field_type_at, in_memory, index_method, load_ident, low_bit, member_of, open_loop,
    option_payload, option_payload_spec, slice_ptr, store_as, store_repeated, string_literal,
    to_bit, tuple_value, variable_ptr, visible_field,
};
use crate::query::{actual_name, array_type, implements, lower_array, lower_type};
use crate::scopes::{
    call_fitted, close_block, enter_scope, exit_scope, expect_type, note_all_given, note_given,
    unexpect,
};
use crate::state::{CodeGen, CodegenError, Env, EnvView, ErrorView, FunView, State, err, err_at};
use crate::table::{Model, at};
use crate::text::{before, cat, cat3, decimal_text, show_usize};
use crate::token::Span;
use crate::types::{array_key, array_type_key, same_type};
use crate::visible::{check_literal, check_path, check_type, inside};
use vstd::prelude::*;

verus! {

broadcast use crate::lists::group_list_views;

/// An expression: literals and variables give their value at once.
#[verifier::opaque]
pub open spec fn expr_step(s: State, k: Nested, e: ExprView) -> (
    Result<ValView, ErrorView>,
    State,
) {
    match e {
        ExprView::BoolLit(b, _) => (Ok(int_const(1, if b { 1 } else { 0 })), s),
        ExprView::IntLit(n, _) => (Ok(int_const(32, n as u64)), s),
        ExprView::FloatLit(digits, _) => {
            (
                Ok(
                    ValView {
                        op: OperandView::Float(FloatConstView::Lit(digits)),
                        ty: LTyView::F64,
                    },
                ),
                s,
            )
        },
        ExprView::StrLit(text, _) => {
            let (got, s) = string_literal(s, text);
            (Ok(got), s)
        },
        ExprView::Ident(name, _) => load_ident(s, name, span_of(e)),
        ExprView::Unit(_) => (Ok(unit_value()), s),
        _ => compound_step(s, k, e),
    }
}

/// An expression that is made of others.
#[verifier::opaque]
pub open spec fn compound_step(s: State, k: Nested, e: ExprView) -> (
    Result<ValView, ErrorView>,
    State,
) {
    match e {
        ExprView::Assign { .. } => compile_assign(s, k, e),
        ExprView::Ref { .. } => compile_ref(s, k, e),
        ExprView::Deref { .. } => compile_deref(s, k, e),
        ExprView::Call { .. } => compile_call(s, k, e),
        ExprView::QualifiedCall { .. } => compile_qualified_call(s, k, e),
        ExprView::MethodCall { .. } => compile_method_call(s, k, e),
        ExprView::Binary { .. } => compile_binary(s, k, e),
        ExprView::UnaryNot { .. } => compile_unary(s, k, e),
        ExprView::UnaryMinus { .. } => compile_unary(s, k, e),
        ExprView::Member { .. } => compile_member(s, k, e),
        ExprView::Index { .. } => compile_index(s, k, e),
        ExprView::Cast { .. } => compile_cast(s, k, e),
        _ => literal_step(s, k, e),
    }
}

/// A literal of several values, or control flow.
#[verifier::opaque]
pub open spec fn literal_step(s: State, k: Nested, e: ExprView) -> (
    Result<ValView, ErrorView>,
    State,
) {
    match e {
        ExprView::Tuple { .. } => compile_tuple(s, k, e),
        ExprView::StructLit { .. } => compile_struct_lit(s, k, e),
        ExprView::EnumLit { .. } => compile_enum_lit(s, k, e),
        ExprView::Array { .. } => compile_array(s, k, e),
        ExprView::Repeat { .. } => compile_repeat(s, k, e),
        ExprView::If { .. } => compile_if(s, k, e),
        ExprView::Loop { .. } => compile_loop(s, k, e),
        ExprView::While { .. } => compile_while(s, k, e),
        ExprView::For { .. } => compile_for(s, k, e),
        ExprView::IfLet { .. } => compile_if_let(s, k, e),
        ExprView::Match { .. } => compile_match(s, k, e),
        ExprView::Block(block, _) => compile_scope(s, k, block),
        _ => (Err(err("internal: not an expression with parts"@)), s),
    }
}

/// What a pointer points to.
#[verifier::opaque]
pub open spec fn compile_deref(s: State, k: Nested, e: ExprView) -> (
    Result<ValView, ErrorView>,
    State,
) {
    match e {
        ExprView::Deref(inner, _) => {
            match nested_expr(s, k, *inner) {
                (Ok(v), s) => {
                    match as_ptr_spec(v) {
                        Ok(p) => {
                            match lower_type(s.env, referent_spec(ty_of(s, *inner))) {
                                Ok(lty) => {
                                    let (got5, s) = load(s, lty, p);
                                    (Ok(got5), s)
                                },
                                Err(e) => (Err(e), s),
                            }
                        },
                        Err(e) => (Err(e), s),
                    }
                },
                (Err(e), s) => (Err(e), s),
            }
        },
        _ => (Err(err("internal: not a dereference"@)), s),
    }
}

/// A binary operator.
#[verifier::opaque]
pub open spec fn compile_binary(s: State, k: Nested, e: ExprView) -> (
    Result<ValView, ErrorView>,
    State,
) {
    match e {
        ExprView::Binary { op, lhs, rhs, .. } => {
            match op {
                BinOp::And | BinOp::Or => compile_logic(s, k, e),
                _ => {
                    match nested_expr(s, k, *lhs) {
                        (Ok(a), s) => {
                            match nested_expr(s, k, *rhs) {
                                (Ok(b), s) => apply_operator(
                                    s,
                                    op,
                                    ty_of(s, *lhs),
                                    ty_of(s, *rhs),
                                    a,
                                    b,
                                ),
                                (Err(e), s) => (Err(e), s),
                            }
                        },
                        (Err(e), s) => (Err(e), s),
                    }
                },
            }
        },
        _ => (Err(err("internal: not a binary operator"@)), s),
    }
}

/// A tuple.
#[verifier::opaque]
pub open spec fn compile_tuple(s: State, k: Nested, e: ExprView) -> (
    Result<ValView, ErrorView>,
    State,
) {
    match e {
        ExprView::Tuple(elems, _) => {
            match compile_args_vec(s, k, elems) {
                (Ok(vals), s) => {
                    let s = note_all_given(s, elems);
                    tuple_value(s, vals)
                },
                (Err(e), s) => (Err(e), s),
            }
        },
        _ => (Err(err("internal: not a tuple"@)), s),
    }
}

/// A member of a struct or a tuple.
#[verifier::opaque]
pub open spec fn compile_member(s: State, k: Nested, e: ExprView) -> (
    Result<ValView, ErrorView>,
    State,
) {
    match e {
        ExprView::Member { expr: inner, index, field, .. } => {
            match nested_expr(s, k, *inner) {
                (Ok(v), s) => member_of(s, v, ty_of(s, *inner), field, index, span_of(*inner)),
                (Err(e), s) => (Err(e), s),
            }
        },
        _ => (Err(err("internal: not a member"@)), s),
    }
}

/// An element of a slice or an array.
#[verifier::opaque]
pub open spec fn compile_index(s: State, k: Nested, e: ExprView) -> (
    Result<ValView, ErrorView>,
    State,
) {
    match element_place(s, k, e, span_of(e), "index"@) {
        (Ok((p, ty)), s) => {
            match lower_type(s.env, ty) {
                Ok(lty) => {
                    let (got4, s) = load(s, lty, p);
                    (Ok(got4), s)
                },
                Err(e) => (Err(e), s),
            }
        },
        (Err(e), s) => (Err(e), s),
    }
}

/// A conversion to a type that has to be visible.
#[verifier::opaque]
pub open spec fn compile_cast(s: State, k: Nested, e: ExprView) -> (
    Result<ValView, ErrorView>,
    State,
) {
    match e {
        ExprView::Cast { expr: inner, to_type: to, .. } => {
            match check_type(s.env, s.fun.here, to) {
                Ok(_) => {
                    match nested_expr(s, k, *inner) {
                        (Ok(v), s) => emit_cast(s, v, ty_of(s, *inner), to),
                        (Err(e), s) => (Err(e), s),
                    }
                },
                Err(e) => (Err(e), s),
            }
        },
        _ => (Err(err("internal: not a cast"@)), s),
    }
}

/// A unary operator.
#[verifier::opaque]
pub open spec fn compile_unary(s: State, k: Nested, e: ExprView) -> (
    Result<ValView, ErrorView>,
    State,
) {
    match e {
        ExprView::UnaryNot(inner, _) => {
            match nested_expr(s, k, *inner) {
                (Ok(v), s) => {
                    if v.ty is Int {
                        let (got3, s) = invert(s, v);
                        (Ok(got3), s)
                    } else {
                        (
                            Err(
                                err_at(
                                    "unary not requires integer or boolean operand"@,
                                    span_of(e),
                                ),
                            ),
                            s,
                        )
                    }
                },
                (Err(e), s) => (Err(e), s),
            }
        },
        ExprView::UnaryMinus(inner, _) => {
            match nested_expr(s, k, *inner) {
                (Ok(v), s) => minus(s, v, span_of(e)),
                (Err(e), s) => (Err(e), s),
            }
        },
        _ => (Err(err("internal: not a unary operator"@)), s),
    }
}

/// The type that is read through a reference or a pointer.
#[verifier::opaque]
pub open spec fn referent_spec(ty: TypeView) -> TypeView {
    match ty {
        TypeView::Ref { inner, .. } => (*inner),
        TypeView::Ptr { inner, .. } => (*inner),
        _ => ty,
    }
}

/// An operator on two values, by a trait method.
#[verifier::opaque]
pub open spec fn apply_operator(
    s: State,
    op: BinOp,
    ta: TypeView,
    tb: TypeView,
    a: ValView,
    b: ValView,
) -> (Result<ValView, ErrorView>, State) {
    match op {
        BinOp::Add | BinOp::Sub | BinOp::Mul | BinOp::Div => {
            compile_trait_arithmetic(s, op, ta, tb, a, b)
        },
        _ => compile_trait_comparison(s, op, ta, tb, a, b),
    }
}

/// A number negated.
#[verifier::opaque]
pub open spec fn minus(s: State, v: ValView, place: Span) -> (Result<ValView, ErrorView>, State) {
    match v.ty {
        LTyView::Int(_) => {
            let (got, s) = emit_value(s, InstView::Neg(v), v.ty);
            (Ok(got), s)
        },
        LTyView::F32 | LTyView::F64 => {
            let (got2, s) = emit_value(s, InstView::FloatNeg(v), v.ty);
            (Ok(got2), s)
        },
        _ => (Err(err_at("unary - requires numeric operand"@, place)), s),
    }
}

/// Compiles expressions one after the other.
#[verifier::opaque]
pub open spec fn compile_args_vec(
    s: State,
    k: Nested,
    args: Seq<ExprView>,
) -> (Result<Seq<ValView>, ErrorView>, State) {
    let vals = Seq::<ValView>::empty();
    compile_args_vec_each(s, k, args, vals, 0)
}

/// [`compile_args_vec`] from element `i` on.
#[verifier::opaque]
pub open spec fn compile_args_vec_each(
    s: State,
    k: Nested,
    args: Seq<ExprView>,
    vals: Seq<ValView>,
    i: nat,
) -> (Result<Seq<ValView>, ErrorView>, State)
    decreases args.len() - i,
{
    if i < args.len() {
        let a = args[i as int];
        match nested_expr(s, k, a) {
            (Ok(v), s) => {
                let vals = vals.push(v);
                compile_args_vec_each(s, k, args, vals, i + 1)
            },
            (Err(e), s) => (Err(e), s),
        }
    } else {
        (Ok(vals), s)
    }
}

/// Compiles an expression whose type is expected: while it is compiled, the base name of an
/// expected instance stands for that instance.
#[verifier::opaque]
pub open spec fn compile_expected(
    s: State,
    k: Nested,
    e: ExprView,
    ty: TypeView,
) -> (Result<ValView, ErrorView>, State) {
    let (saved, s) = expect_type(s, ty);
    let (res, s) = nested_expr(s, k, e);
    let s = unexpect(s, saved);
    (res, s)
}

/// Compiles an expression whose type is expected, and converts its value where the machine type is
/// another one.
#[verifier::opaque]
pub open spec fn compile_as(
    s: State,
    k: Nested,
    e: ExprView,
    ty: TypeView,
) -> (Result<ValView, ErrorView>, State) {
    match compile_expected(s, k, e, ty) {
        (Ok(v), s) => {
            match lower_type(s.env, ty) {
                Ok(lty) => {
                    if v.ty == lty {
                        (Ok(v), s)
                    } else {
                        emit_cast(s, v, ty_of(s, e), ty)
                    }
                },
                Err(e) => (Err(e), s),
            }
        },
        (Err(e), s) => (Err(e), s),
    }
}

/// An assignment: the place first, then the value, which is what the assignment gives.
#[verifier::opaque]
pub open spec fn compile_assign(s: State, k: Nested, e: ExprView) -> (
    Result<ValView, ErrorView>,
    State,
) {
    match e {
        ExprView::Assign { target, value, .. } => {
            match assign_place(s, k, *target, span_of(e)) {
                (Ok((p, want)), s) => {
                    match nested_expr(s, k, *value) {
                        (Ok(v), s) => {
                            match want {
                                Some(ty) => {
                                    match lower_type(s.env, ty) {
                                        Ok(lty) => {
                                            if v.ty != lty {
                                                match emit_cast(s, v, ty_of(s, *value), ty) {
                                                    (Ok(x), s) => {
                                                        let s = store(s, x, p);
                                                        let s = note_given(s, *value);
                                                        (Ok(x), s)
                                                    },
                                                    (Err(e), s) => (Err(e), s),
                                                }
                                            } else {
                                                let s = store(s, v, p);
                                                let s = note_given(s, *value);
                                                (Ok(v), s)
                                            }
                                        },
                                        Err(e) => (Err(e), s),
                                    }
                                },
                                None => {
                                    let s = store(s, v, p);
                                    let s = note_given(s, *value);
                                    (Ok(v), s)
                                },
                            }
                        },
                        (Err(e), s) => (Err(e), s),
                    }
                },
                (Err(e), s) => (Err(e), s),
            }
        },
        _ => (Err(err("internal: not an assignment"@)), s),
    }
}

/// Where an assignment writes to, and the type that the value is converted to, if any.
#[verifier::opaque]
pub open spec fn assign_place(s: State, k: Nested, target: ExprView, place: Span) -> (
    Result<(ValView, Option<TypeView>), ErrorView>,
    State,
) {
    match target {
        ExprView::Ident(name, _) => {
            match assigned_variable(s, name) {
                Ok(p) => (Ok((p, None)), s),
                Err(e) => (Err(e), s),
            }
        },
        ExprView::Deref(inner, _) => {
            match nested_expr(s, k, *inner) {
                (Ok(v), s) => {
                    match as_ptr_spec(v) {
                        Ok(p) => (Ok((p, None)), s),
                        Err(e) => (Err(e), s),
                    }
                },
                (Err(e), s) => (Err(e), s),
            }
        },
        ExprView::Member { expr: inner, index, field, .. } => {
            match nested_expr(s, k, *inner) {
                (Ok(v), s) => {
                    match member_base(s, v, *inner, place) {
                        Ok(base) => {
                            match assigned_struct(s.env, ty_of(s, *inner)) {
                                Ok(owner) => {
                                    match visible_field(s, owner, field, index) {
                                        Ok(slot_no) => {
                                            let (got10, s) = field_ptr(
                                                s,
                                                LTyView::Named(owner),
                                                base,
                                                slot_no,
                                            );
                                            match got10 {
                                                Some(p) => (
                                                    Ok((p, field_type_at(s.env, owner, slot_no))),
                                                    s,
                                                ),
                                                None => {
                                                    (
                                                        Err(
                                                            err(
                                                                "failed to get field pointer for assignment: GEP index out of range"@,
                                                            ),
                                                        ),
                                                        s,
                                                    )
                                                },
                                            }
                                        },
                                        Err(e) => (Err(e), s),
                                    }
                                },
                                Err(e) => (Err(e), s),
                            }
                        },
                        Err(e) => (Err(e), s),
                    }
                },
                (Err(e), s) => (Err(e), s),
            }
        },
        ExprView::Index { .. } => {
            match element_place(s, k, target, place, "index_mut"@) {
                (Ok((p, ty)), s) => (Ok((p, None)), s),
                (Err(e), s) => (Err(e), s),
            }
        },
        _ => (Err(err_at("invalid assignment target"@, place)), s),
    }
}

/// The pointer to the struct whose field is assigned to.
#[verifier::opaque]
pub open spec fn member_base(
    s: State,
    v: ValView,
    inner: ExprView,
    place: Span,
) -> Result<ValView, ErrorView> {
    if v.ty is Ptr {
        Ok(v)
    } else {
        match inner {
            ExprView::Ident(name, _) => variable_ptr(s, name, place),
            _ => Err(err("expected pointer for member assignment"@)),
        }
    }
}

/// The address of an element of a slice or an array, and its type. An array is indexed by its
/// method.
#[verifier::opaque]
pub open spec fn element_place(
    s: State,
    k: Nested,
    e: ExprView,
    place: Span,
    method: Seq<char>,
) -> (Result<(ValView, TypeView), ErrorView>, State) {
    match e {
        ExprView::Index { array, index, .. } => {
            let array_ty = ty_of(s, *array);
            match slice_element(array_ty) {
                Some(elem) => {
                    match nested_expr(s, k, *array) {
                        (Ok(v), s) => {
                            match slice_ptr(s, v, place) {
                                (Ok(p), s) => {
                                    match lower_type(s.env, elem) {
                                        Ok(lty) => {
                                            match nested_expr(s, k, *index) {
                                                (Ok(i), s) => {
                                                    match as_int_spec(i) {
                                                        Ok(n) => {
                                                            let (q, s) = elem_ptr(
                                                                s,
                                                                lty,
                                                                p,
                                                                seq![n],
                                                            );
                                                            (Ok((q, elem)), s)
                                                        },
                                                        Err(e) => (Err(e), s),
                                                    }
                                                },
                                                (Err(e), s) => (Err(e), s),
                                            }
                                        },
                                        Err(e) => (Err(e), s),
                                    }
                                },
                                (Err(e), s) => (Err(e), s),
                            }
                        },
                        (Err(e), s) => (Err(e), s),
                    }
                },
                None => {
                    match array_parts_or_fail_spec(array_ty, place) {
                        Ok((elem_ty, len)) => {
                            match nested_slice(s, k, elem_ty, len) {
                                (Ok(_), s) => {
                                    match index_method(s, array_key(elem_ty, len), method) {
                                        Ok(f) => {
                                            match array_base(s, k, e, place) {
                                                (Ok(base), s) => {
                                                    match nested_expr(s, k, *index) {
                                                        (Ok(i), s) => {
                                                            match call_fitted(s, f, seq![base, i]) {
                                                                (Ok(found), s) => {
                                                                    match as_ptr_spec(found) {
                                                                        Ok(q) => (
                                                                            Ok((q, elem_ty)),
                                                                            s,
                                                                        ),
                                                                        Err(e) => (Err(e), s),
                                                                    }
                                                                },
                                                                (Err(e), s) => (Err(e), s),
                                                            }
                                                        },
                                                        (Err(e), s) => (Err(e), s),
                                                    }
                                                },
                                                (Err(e), s) => (Err(e), s),
                                            }
                                        },
                                        Err(e) => (Err(e), s),
                                    }
                                },
                                (Err(e), s) => (Err(e), s),
                            }
                        },
                        Err(e) => (Err(e), s),
                    }
                },
            }
        },
        _ => (Err(err("internal: not an index expression"@)), s),
    }
}

/// The pointer to the array that is indexed.
#[verifier::opaque]
pub open spec fn array_base(
    s: State,
    k: Nested,
    e: ExprView,
    place: Span,
) -> (Result<ValView, ErrorView>, State) {
    match e {
        ExprView::Index { array, .. } => {
            match (*array) {
                ExprView::Ident(name, _) => (variable_ptr(s, name, place), s),
                _ => {
                    match nested_expr(s, k, *array) {
                        (Ok(v), s) => {
                            let (got3, s) = in_memory(s, v);
                            (Ok(got3), s)
                        },
                        (Err(e), s) => (Err(e), s),
                    }
                },
            }
        },
        _ => (Err(err("internal: not an index expression"@)), s),
    }
}

/// A reference: to a variable, to what a pointer points to, or to a temporary.
#[verifier::opaque]
pub open spec fn compile_ref(s: State, k: Nested, e: ExprView) -> (
    Result<ValView, ErrorView>,
    State,
) {
    match e {
        ExprView::Ref { expr: inner, .. } => {
            match (*inner) {
                ExprView::Ident(name, _) => (variable_ptr(s, name, span_of(*inner)), s),
                ExprView::Deref(pointer, _) => nested_expr(s, k, *pointer),
                _ => {
                    match lower_type(s.env, lit_type(*inner)) {
                        Ok(lty) => {
                            let (a, s) = alloca(s, lty);
                            match nested_expr(s, k, *inner) {
                                (Ok(v), s) => {
                                    let s = store(s, v, a);
                                    (Ok(a), s)
                                },
                                (Err(e), s) => (Err(e), s),
                            }
                        },
                        Err(e) => (Err(e), s),
                    }
                },
            }
        },
        _ => (Err(err("internal: not a reference"@)), s),
    }
}

/// The label of a block of a logical operator.
#[verifier::opaque]
pub open spec fn logic_label_spec(op: BinOp, part: Seq<char>) -> Seq<char> {
    if op == BinOp::And {
        ("and_"@ + part)
    } else {
        ("or_"@ + part)
    }
}

/// What is said of an operand that is no truth value.
#[verifier::opaque]
pub open spec fn logic_error_spec(op: BinOp) -> Seq<char> {
    if op == BinOp::And {
        "logical AND operands must be booleans or integers"@
    } else {
        "logical OR operands must be booleans or integers"@
    }
}

/// A logical operator: the second operand is evaluated only where the first one does not decide.
#[verifier::opaque]
pub open spec fn compile_logic(s: State, k: Nested, e: ExprView) -> (
    Result<ValView, ErrorView>,
    State,
) {
    match e {
        ExprView::Binary { op, lhs, rhs, .. } => {
            let (rhs_bb, s) = add_block(s, logic_label_spec(op, "rhs"@));
            let (merge_bb, s) = add_block(s, logic_label_spec(op, "merge"@));
            let (slot, s) = alloca(s, LTyView::Int(1));
            match nested_expr(s, k, *lhs) {
                (Ok(a), s) => {
                    match to_bit(s, a, logic_error_spec(op)) {
                        (Ok(x), s) => {
                            let s = store(s, x, slot);
                            if terminated(s) {
                                (Ok(a), s)
                            } else {
                                let s = if op == BinOp::And {
                                    branch_if(s, x, rhs_bb, merge_bb)
                                } else {
                                    branch_if(s, x, merge_bb, rhs_bb)
                                };
                                let s = go_to(s, rhs_bb);
                                match nested_expr(s, k, *rhs) {
                                    (Ok(b), s) => {
                                        match to_bit(s, b, logic_error_spec(op)) {
                                            (Ok(y), s) => {
                                                let s = store(s, y, slot);
                                                let s = jump(s, merge_bb);
                                                let s = go_to(s, merge_bb);
                                                let (got12, s) = load(s, LTyView::Int(1), slot);
                                                (Ok(got12), s)
                                            },
                                            (Err(e), s) => (Err(e), s),
                                        }
                                    },
                                    (Err(e), s) => (Err(e), s),
                                }
                            }
                        },
                        (Err(e), s) => (Err(e), s),
                    }
                },
                (Err(e), s) => (Err(e), s),
            }
        },
        _ => (Err(err("internal: not a logical operator"@)), s),
    }
}

/// A struct literal: the initializers in the order in which they are written, each for the field it
/// names.
#[verifier::opaque]
pub open spec fn compile_struct_lit(s: State, k: Nested, e: ExprView) -> (
    Result<ValView, ErrorView>,
    State,
) {
    match e {
        ExprView::StructLit { struct_name: name, fields, .. } => {
            let owner = actual_name(s, name);
            match check_path(s.env, s.fun.here, owner) {
                Ok(_) => {
                    match check_literal(s.env, s.fun.here, owner) {
                        Ok(_) => {
                            if !s.env.struct_types.contains(owner) {
                                (Err(err("unknown struct '"@ + owner + "'"@)), s)
                            } else {
                                compile_fields(
                                    s,
                                    k,
                                    owner,
                                    fields,
                                    struct_field_types(s.env, owner),
                                    undef(LTyView::Named(owner)),
                                )
                            }
                        },
                        Err(e) => (Err(e), s),
                    }
                },
                Err(e) => (Err(e), s),
            }
        },
        _ => (Err(err("internal: not a struct literal"@)), s),
    }
}

/// The types of the fields of a struct.
#[verifier::opaque]
pub open spec fn struct_field_types(s: EnvView, owner: Seq<char>) -> Seq<TypeView> {
    match at(s.struct_fields, owner) {
        Some(fields) => field_types(fields),
        None => Seq::<TypeView>::empty(),
    }
}

/// The type with an index, where there is one.
#[verifier::opaque]
pub open spec fn type_at_spec(tys: Seq<TypeView>, n: usize) -> Option<TypeView> {
    if n < (tys.len() as usize) {
        Some(tys[n as int])
    } else {
        None
    }
}

/// A struct value with its fields set one after the other, each by its name.
#[verifier::opaque]
pub open spec fn compile_fields(
    s: State,
    k: Nested,
    owner: Seq<char>,
    fields: Seq<(Seq<char>, ExprView)>,
    tys: Seq<TypeView>,
    start: ValView,
) -> (Result<ValView, ErrorView>, State) {
    let agg = start;
    compile_fields_each(s, k, owner, fields, tys, agg, 0)
}

/// [`compile_fields`] from element `i` on.
#[verifier::opaque]
pub open spec fn compile_fields_each(
    s: State,
    k: Nested,
    owner: Seq<char>,
    fields: Seq<(Seq<char>, ExprView)>,
    tys: Seq<TypeView>,
    agg: ValView,
    i: nat,
) -> (Result<ValView, ErrorView>, State)
    decreases fields.len() - i,
{
    if i < fields.len() {
        let f = fields[i as int];
        match field_number(s.env, owner, f.0) {
            Ok(at_) => {
                let k_ = at_ as usize;
                let want = type_at_spec(tys, k_);
                match compile_payload(s, k, f.1, want) {
                    (Ok(v), s) => {
                        let s = note_given(s, f.1);
                        let (got4, s) = insert(s, agg, v, at_);
                        match got4 {
                            Some(more) => {
                                let agg = more;
                                compile_fields_each(s, k, owner, fields, tys, agg, i + 1)
                            },
                            None => {
                                (
                                    Err(
                                        err(
                                            "failed to insert struct field '"@ + f.0
                                                + "': Aggregate extract index out of range"@,
                                        ),
                                    ),
                                    s,
                                )
                            },
                        }
                    },
                    (Err(e), s) => (Err(e), s),
                }
            },
            Err(e) => (Err(e), s),
        }
    } else {
        (Ok(agg), s)
    }
}

/// An array literal.
#[verifier::opaque]
pub open spec fn compile_array(s: State, k: Nested, e: ExprView) -> (
    Result<ValView, ErrorView>,
    State,
) {
    match e {
        ExprView::Array(elems, _) => {
            if (elems.len() as usize) == 0 {
                (Err(err_at("empty array literals are not supported"@, span_of(e))), s)
            } else {
                let elem_ty = ty_of(s, elems[0]);
                match lower_type(s.env, elem_ty) {
                    Ok(elem_lty) => {
                        match lower_array(elem_lty, ((elems.len() as usize) as u32)) {
                            Ok(lty) => {
                                let (a, s) = alloca(s, lty);
                                match store_elements(s, k, elems, lty, a) {
                                    (Ok(_), s) => {
                                        match nested_slice(s, k, elem_ty, elems.len() as usize) {
                                            (Ok(_), s) => {
                                                let (got6, s) = load(s, lty, a);
                                                (Ok(got6), s)
                                            },
                                            (Err(e), s) => (Err(e), s),
                                        }
                                    },
                                    (Err(e), s) => (Err(e), s),
                                }
                            },
                            Err(e) => (Err(e), s),
                        }
                    },
                    Err(e) => (Err(e), s),
                }
            }
        },
        _ => (Err(err("internal: not an array literal"@)), s),
    }
}

/// Compiles the elements of an array and stores each in its place.
#[verifier::opaque]
pub open spec fn store_elements(
    s: State,
    k: Nested,
    elems: Seq<ExprView>,
    lty: LTyView,
    base: ValView,
) -> (Result<(), ErrorView>, State) {
    store_elements_each(s, k, elems, lty, base, 0)
}

/// [`store_elements`] from element `i` on.
#[verifier::opaque]
pub open spec fn store_elements_each(
    s: State,
    k: Nested,
    elems: Seq<ExprView>,
    lty: LTyView,
    base: ValView,
    i: nat,
) -> (Result<(), ErrorView>, State)
    decreases elems.len() - i,
{
    if i < elems.len() {
        let x = elems[i as int];
        match nested_expr(s, k, x) {
            (Ok(v), s) => {
                let (p, s) = element_at(s, lty, base, i as usize);
                let s = store(s, v, p);
                let s = note_given(s, x);
                store_elements_each(s, k, elems, lty, base, i + 1)
            },
            (Err(e), s) => (Err(e), s),
        }
    } else {
        (Ok(()), s)
    }
}

/// An array of equal elements.
#[verifier::opaque]
pub open spec fn compile_repeat(s: State, k: Nested, e: ExprView) -> (
    Result<ValView, ErrorView>,
    State,
) {
    match e {
        ExprView::Repeat(inner, count, _) => {
            let elem_ty = ty_of(s, *inner);
            match lower_type(s.env, elem_ty) {
                Ok(elem_lty) => {
                    match lower_array(elem_lty, count as u32) {
                        Ok(lty) => {
                            let (a, s) = alloca(s, lty);
                            match nested_expr(s, k, *inner) {
                                (Ok(v), s) => {
                                    let s = store_repeated(s, lty, a, v, 0, count);
                                    match nested_slice(s, k, elem_ty, count) {
                                        (Ok(_), s) => {
                                            let (got7, s) = load(s, lty, a);
                                            (Ok(got7), s)
                                        },
                                        (Err(e), s) => (Err(e), s),
                                    }
                                },
                                (Err(e), s) => (Err(e), s),
                            }
                        },
                        Err(e) => (Err(e), s),
                    }
                },
                Err(e) => (Err(e), s),
            }
        },
        _ => (Err(err("internal: not an array literal"@)), s),
    }
}

/// An enum literal, or an associated constant that is written like one.
#[verifier::opaque]
pub open spec fn compile_enum_lit(s: State, k: Nested, e: ExprView) -> (
    Result<ValView, ErrorView>,
    State,
) {
    match e {
        ExprView::EnumLit { enum_name: name, variant, payload, .. } => {
            match payload {
                Some(inner) => {
                    let owner = enum_name_of(s, name, Some(ty_of(s, *inner)));
                    match tagged_value(s, owner, variant) {
                        (Ok(agg), s) => {
                            match variant_field(s.env, owner, variant) {
                                Some(slot_no) => {
                                    match compile_payload(
                                        s,
                                        k,
                                        *inner,
                                        field_type_at(s.env, owner, slot_no),
                                    ) {
                                        (Ok(v), s) => {
                                            let (got5, s) = insert(s, agg, v, slot_no);
                                            match got5 {
                                                Some(r) => {
                                                    let s = note_given(s, *inner);
                                                    (Ok(r), s)
                                                },
                                                None => {
                                                    (
                                                        Err(
                                                            err(
                                                                "failed to insert enum payload: Aggregate extract index out of range"@,
                                                            ),
                                                        ),
                                                        s,
                                                    )
                                                },
                                            }
                                        },
                                        (Err(e), s) => (Err(e), s),
                                    }
                                },
                                None => (Ok(agg), s),
                            }
                        },
                        (Err(e), s) => (Err(e), s),
                    }
                },
                None => {
                    match const_at(s.env, name, variant) {
                        Some(d) => {
                            match eval_associated_const(s, k.fuel, name, variant) {
                                (Ok(c), s) => (const_value_to_llvm(s.env, c, d.1), s),
                                (Err(e), s) => (Err(e), s),
                            }
                        },
                        None => tagged_value(s, enum_name_of(s, name, None), variant),
                    }
                },
            }
        },
        _ => (Err(err("internal: not an enum literal"@)), s),
    }
}

/// A part of a value, as the type that is declared for it.
#[verifier::opaque]
pub open spec fn compile_payload(
    s: State,
    k: Nested,
    e: ExprView,
    want: Option<TypeView>,
) -> (Result<ValView, ErrorView>, State) {
    match want {
        Some(ty) => compile_as(s, k, e, ty),
        None => nested_expr(s, k, e),
    }
}

/// The field that holds the payload of a variant, if there is one.
#[verifier::opaque]
pub open spec fn variant_field(s: EnvView, owner: Seq<char>, variant: Seq<char>) -> Option<u32> {
    match at(s.struct_fields, owner) {
        Some(fields) => {
            match field_position_spec(fields, ("__"@ + variant)) {
                Some(i) => Some(i as u32),
                None => None,
            }
        },
        None => None,
    }
}

/// An enum value with its tag set.
#[verifier::opaque]
pub open spec fn tagged_value(
    s: State,
    owner: Seq<char>,
    variant: Seq<char>,
) -> (Result<ValView, ErrorView>, State) {
    match check_path(s.env, s.fun.here, owner) {
        Ok(_) => {
            if !s.env.struct_types.contains(owner) {
                (Err(err("unknown enum type '"@ + owner + "'"@)), s)
            } else {
                match variant_number(s.env, owner, variant) {
                    Ok(tag) => {
                        if !s.env.struct_fields.contains_key(owner) {
                            (Err(err("unknown enum '"@ + owner + "'"@)), s)
                        } else {
                            let (got2, s) = insert(
                                s,
                                undef(LTyView::Named(owner)),
                                int_const(8, tag),
                                0,
                            );
                            match got2 {
                                Some(r) => (Ok(r), s),
                                None => (
                                    Err(
                                        err(
                                            "failed to insert enum tag: Aggregate extract index out of range"@,
                                        ),
                                    ),
                                    s,
                                ),
                            }
                        }
                    },
                    Err(e) => (Err(e), s),
                }
            }
        },
        Err(e) => (Err(e), s),
    }
}

/// A conditional: its value goes through memory.
#[verifier::opaque]
pub open spec fn compile_if(s: State, k: Nested, e: ExprView) -> (
    Result<ValView, ErrorView>,
    State,
) {
    match e {
        ExprView::If { cond, then_block, else_ifs, else_block, .. } => {
            let cond_ty = ty_of(s, *cond);
            if cond_ty != TypeView::Bool {
                (
                    Err(
                        err_at(
                            ("if condition must be bool, found "@ + type_text(cond_ty)),
                            span_of(e),
                        ),
                    ),
                    s,
                )
            } else {
                match nested_expr(s, k, *cond) {
                    (Ok(c), s) => {
                        if !(c.ty is Int) {
                            (Err(err_at("if condition must be a boolean"@, span_of(e))), s)
                        } else {
                            let ty = ty_of(s, e);
                            match lower_type(s.env, ty) {
                                Ok(lty) => {
                                    let (slot, s) = alloca(s, lty);
                                    let (then_bb, s) = add_block(s, "if_then"@);
                                    let (else_bb, s) = add_block(s, "if_else"@);
                                    let (merge_bb, s) = add_block(s, "if_merge"@);
                                    let s = branch_if(s, c, then_bb, else_bb);
                                    let s = go_to(s, then_bb);
                                    match compile_branch(
                                        s,
                                        k,
                                        then_block,
                                        Seq::<(Seq<char>, ValView, TypeView)>::empty(),
                                        slot,
                                        ty,
                                        lty,
                                    ) {
                                        (Ok(_), s) => {
                                            let s = jump(s, merge_bb);
                                            let s = go_to(s, else_bb);
                                            match compile_else_chain_store(
                                                s,
                                                k,
                                                else_ifs,
                                                merge_bb,
                                                slot,
                                                ty,
                                                lty,
                                            ) {
                                                (Ok(_), s) => {
                                                    match compile_last_else(
                                                        s,
                                                        k,
                                                        else_block,
                                                        slot,
                                                        ty,
                                                        lty,
                                                    ) {
                                                        (Ok(_), s) => {
                                                            let s = jump(s, merge_bb);
                                                            let s = go_to(s, merge_bb);
                                                            let (got11, s) = load(s, lty, slot);
                                                            (Ok(got11), s)
                                                        },
                                                        (Err(e), s) => (Err(e), s),
                                                    }
                                                },
                                                (Err(e), s) => (Err(e), s),
                                            }
                                        },
                                        (Err(e), s) => (Err(e), s),
                                    }
                                },
                                Err(e) => (Err(e), s),
                            }
                        }
                    },
                    (Err(e), s) => (Err(e), s),
                }
            }
        },
        _ => (Err(err("internal: not a conditional"@)), s),
    }
}

/// The last branch of a conditional, where there is one.
#[verifier::opaque]
pub open spec fn compile_last_else(
    s: State,
    k: Nested,
    else_block: Option<BlockView>,
    slot: ValView,
    ty: TypeView,
    lty: LTyView,
) -> (Result<(), ErrorView>, State) {
    match else_block {
        Some(b) => {
            compile_branch(s, k, b, Seq::<(Seq<char>, ValView, TypeView)>::empty(), slot, ty, lty)
        },
        None => (Ok(()), s),
    }
}

/// The `else if` branches of a conditional; code goes on where none of them was taken.
#[verifier::opaque]
pub open spec fn compile_else_chain_store(
    s: State,
    k: Nested,
    else_ifs: Seq<(ExprView, BlockView)>,
    merge_bb: usize,
    slot: ValView,
    ty: TypeView,
    lty: LTyView,
) -> (Result<(), ErrorView>, State) {
    compile_else_chain_store_each(s, k, else_ifs, merge_bb, slot, ty, lty, 0)
}

/// [`compile_else_chain_store`] from element `i` on.
#[verifier::opaque]
pub open spec fn compile_else_chain_store_each(
    s: State,
    k: Nested,
    else_ifs: Seq<(ExprView, BlockView)>,
    merge_bb: usize,
    slot: ValView,
    ty: TypeView,
    lty: LTyView,
    i: nat,
) -> (Result<(), ErrorView>, State)
    decreases else_ifs.len() - i,
{
    if i < else_ifs.len() {
        let c = else_ifs[i as int];
        match nested_expr(s, k, c.0) {
            (Ok(v), s) => {
                let (got3, s) = low_bit(s, v);
                match got3 {
                    Some(x) => {
                        let (then_bb, s) = add_block(s, "elif_then"@);
                        let (rest_bb, s) = add_block(s, "elif_rest"@);
                        let s = branch_if(s, x, then_bb, rest_bb);
                        let s = go_to(s, then_bb);
                        match compile_branch(
                            s,
                            k,
                            c.1,
                            Seq::<(Seq<char>, ValView, TypeView)>::empty(),
                            slot,
                            ty,
                            lty,
                        ) {
                            (Ok(_), s) => {
                                let s = jump(s, merge_bb);
                                let s = go_to(s, rest_bb);
                                compile_else_chain_store_each(
                                    s,
                                    k,
                                    else_ifs,
                                    merge_bb,
                                    slot,
                                    ty,
                                    lty,
                                    i + 1,
                                )
                            },
                            (Err(e), s) => (Err(e), s),
                        }
                    },
                    None => (Err(err("else-if condition must be a boolean or integer"@)), s),
                }
            },
            (Err(e), s) => (Err(e), s),
        }
    } else {
        (Ok(()), s)
    }
}

/// A branch whose value goes to `slot`. Its variables are dropped at its end; they, and what it
/// moves out of, are forgotten.
#[verifier::opaque]
pub open spec fn compile_branch(
    s: State,
    k: Nested,
    b: BlockView,
    bindings: Seq<(Seq<char>, ValView, TypeView)>,
    slot: ValView,
    ty: TypeView,
    lty: LTyView,
) -> (Result<(), ErrorView>, State) {
    let symbols = s.fun.symbols;
    let moved = s.fun.moved;
    let given = s.fun.given;
    let s = bind_all(s, bindings);
    let s = enter_scope(s);
    match compile_block_get_value(s, k, b) {
        (Ok(v), s) => {
            match store_value(s, v, tail_type(s, b), ty, lty, slot) {
                (Ok(_), s) => {
                    match close_block(s, k.fuel, b) {
                        (Ok(_), s) => {
                            let s = State { fun: FunView { symbols: symbols, ..s.fun }, ..s };
                            let s = State { fun: FunView { moved: moved, ..s.fun }, ..s };
                            let s = State { fun: FunView { given: given, ..s.fun }, ..s };
                            (Ok(()), s)
                        },
                        (Err(e), s) => (Err(e), s),
                    }
                },
                (Err(e), s) => (Err(e), s),
            }
        },
        (Err(e), s) => (Err(e), s),
    }
}

/// Stores a value as another type, if there is one.
#[verifier::opaque]
pub open spec fn store_value(
    s: State,
    v: Option<ValView>,
    found: TypeView,
    ty: TypeView,
    lty: LTyView,
    slot: ValView,
) -> (Result<(), ErrorView>, State) {
    match v {
        Some(x) => store_as(s, x, found, ty, lty, slot),
        None => (Ok(()), s),
    }
}

/// The type of the value of a block.
#[verifier::opaque]
pub open spec fn tail_type(s: State, b: BlockView) -> TypeView {
    match b.tail_expr {
        Some(tail) => ty_of(s, *tail),
        None => TypeView::Unit,
    }
}

/// Compiles a block and gives its value, if it has one.
#[verifier::opaque]
pub open spec fn compile_block_get_value(s: State, k: Nested, b: BlockView) -> (
    Result<Option<ValView>, ErrorView>,
    State,
) {
    match compile_stmts(s, k, b.stmts) {
        (Ok(_), s) => {
            match b.tail_expr {
                Some(tail) => {
                    match nested_expr(s, k, *tail) {
                        (Ok(v), s) => (Ok(Some(v)), s),
                        (Err(e), s) => (Err(e), s),
                    }
                },
                None => (Ok(None), s),
            }
        },
        (Err(e), s) => (Err(e), s),
    }
}

/// Compiles statements one after the other.
#[verifier::opaque]
pub open spec fn compile_stmts(
    s: State,
    k: Nested,
    stmts: Seq<StmtView>,
) -> (Result<(), ErrorView>, State) {
    compile_stmts_each(s, k, stmts, 0)
}

/// [`compile_stmts`] from element `i` on.
#[verifier::opaque]
pub open spec fn compile_stmts_each(
    s: State,
    k: Nested,
    stmts: Seq<StmtView>,
    i: nat,
) -> (Result<(), ErrorView>, State)
    decreases stmts.len() - i,
{
    if i < stmts.len() {
        let x = stmts[i as int];
        match nested_stmt(s, k, x) {
            (Ok(_), s) => compile_stmts_each(s, k, stmts, i + 1),
            (Err(e), s) => (Err(e), s),
        }
    } else {
        (Ok(()), s)
    }
}

/// A block expression: its variables are dropped at its end, and it gives the unit value where it
/// has none.
#[verifier::opaque]
pub open spec fn compile_scope(
    s: State,
    k: Nested,
    b: BlockView,
) -> (Result<ValView, ErrorView>, State) {
    let symbols = s.fun.symbols;
    let moved = s.fun.moved;
    let given = s.fun.given;
    let s = enter_scope(s);
    match compile_block_get_value(s, k, b) {
        (Ok(v), s) => {
            match close_block(s, k.fuel, b) {
                (Ok(_), s) => {
                    let s = State { fun: FunView { moved: moved, ..s.fun }, ..s };
                    let s = State { fun: FunView { given: given, ..s.fun }, ..s };
                    let s = State { fun: FunView { symbols: symbols, ..s.fun }, ..s };
                    match v {
                        Some(x) => (Ok(x), s),
                        None => (Ok(unit_value()), s),
                    }
                },
                (Err(e), s) => (Err(e), s),
            }
        },
        (Err(e), s) => (Err(e), s),
    }
}

/// The body of a loop, which is left by a jump back; its variables are dropped before.
#[verifier::opaque]
pub open spec fn compile_body(
    s: State,
    k: Nested,
    b: BlockView,
    bindings: Seq<(Seq<char>, ValView, TypeView)>,
    back_bb: usize,
) -> (Result<(), ErrorView>, State) {
    let symbols = s.fun.symbols;
    let moved = s.fun.moved;
    let given = s.fun.given;
    let s = bind_all(s, bindings);
    let s = enter_scope(s);
    match compile_block_get_value(s, k, b) {
        (Ok(v), s) => {
            match exit_scope(s, k.fuel) {
                (Ok(_), s) => {
                    let s = State { fun: FunView { loops: shorter(s.fun.loops), ..s.fun }, ..s };
                    let s = State { fun: FunView { symbols: symbols, ..s.fun }, ..s };
                    let s = State { fun: FunView { moved: moved, ..s.fun }, ..s };
                    let s = State { fun: FunView { given: given, ..s.fun }, ..s };
                    let s = jump(s, back_bb);
                    (Ok(()), s)
                },
                (Err(e), s) => (Err(e), s),
            }
        },
        (Err(e), s) => (Err(e), s),
    }
}

/// A `loop`, whose value is that of the `break` that leaves it.
#[verifier::opaque]
pub open spec fn compile_loop(s: State, k: Nested, e: ExprView) -> (
    Result<ValView, ErrorView>,
    State,
) {
    match e {
        ExprView::Loop { body, .. } => {
            let ty = ty_of(s, e);
            match lower_type(s.env, ty) {
                Ok(lty) => {
                    let (slot, s) = spill(s, lty, undef(lty));
                    let (header_bb, s) = add_block(s, "loop_header"@);
                    let (after_bb, s) = add_block(s, "loop_after"@);
                    let (_, s) = emit_value(s, InstView::Br(header_bb), LTyView::Ptr);
                    let s = go_to(s, header_bb);
                    let s = open_loop(s, header_bb, after_bb, Some((slot, ty)));
                    match compile_body(
                        s,
                        k,
                        body,
                        Seq::<(Seq<char>, ValView, TypeView)>::empty(),
                        header_bb,
                    ) {
                        (Ok(_), s) => {
                            let s = go_to(s, after_bb);
                            let (got7, s) = load(s, lty, slot);
                            (Ok(got7), s)
                        },
                        (Err(e), s) => (Err(e), s),
                    }
                },
                Err(e) => (Err(e), s),
            }
        },
        _ => (Err(err("internal: not a loop"@)), s),
    }
}

/// A `while` loop.
#[verifier::opaque]
pub open spec fn compile_while(s: State, k: Nested, e: ExprView) -> (
    Result<ValView, ErrorView>,
    State,
) {
    match e {
        ExprView::While { cond, body, .. } => {
            let (cond_bb, s) = add_block(s, "while_cond"@);
            let (body_bb, s) = add_block(s, "while_body"@);
            let (after_bb, s) = add_block(s, "while_after"@);
            let (_, s) = emit_value(s, InstView::Br(cond_bb), LTyView::Ptr);
            let s = go_to(s, cond_bb);
            let cond_ty = ty_of(s, *cond);
            if cond_ty != TypeView::Bool {
                (
                    Err(
                        err_at(
                            ("while condition must be bool, found "@ + type_text(cond_ty)),
                            span_of(e),
                        ),
                    ),
                    s,
                )
            } else {
                match nested_expr(s, k, *cond) {
                    (Ok(c), s) => {
                        if !(c.ty is Int) {
                            (Err(err_at("while condition must be a boolean"@, span_of(e))), s)
                        } else {
                            let s = branch_if(s, c, body_bb, after_bb);
                            let s = go_to(s, body_bb);
                            let s = open_loop(s, cond_bb, after_bb, None);
                            match compile_body(
                                s,
                                k,
                                body,
                                Seq::<(Seq<char>, ValView, TypeView)>::empty(),
                                cond_bb,
                            ) {
                                (Ok(_), s) => {
                                    let s = go_to(s, after_bb);
                                    (Ok(unit_value()), s)
                                },
                                (Err(e), s) => (Err(e), s),
                            }
                        }
                    },
                    (Err(e), s) => (Err(e), s),
                }
            }
        },
        _ => (Err(err("internal: not a loop"@)), s),
    }
}

/// The expression that gives the iterator of a `for` loop.
#[verifier::opaque]
pub open spec fn iterator_of(
    s: EnvView,
    container: ExprView,
    ty: TypeView,
) -> Result<ExprView, ErrorView> {
    if implements(s, ty, "IntoIterator"@) {
        Ok(
            ExprView::MethodCall {
                expr: Box::new(container),
                method: "iter"@,
                args: Seq::<ExprView>::empty(),
                type_args: Seq::<TypeView>::empty(),
                span: (Span { lo: 0, hi: 0 }),
            },
        )
    } else if implements(s, ty, "Iterator"@) {
        Ok(container)
    } else {
        Err(
            err_at(
                ("type "@ + type_text(ty) + " does not implement IntoIterator or Iterator"@),
                span_of(container),
            ),
        )
    }
}

/// The call that a `for` loop makes for each element.
#[verifier::opaque]
pub open spec fn next_call_spec() -> ExprView {
    ExprView::MethodCall {
        expr: Box::new(ExprView::Ident("__for_loop_iter"@, (Span { lo: 0, hi: 0 }))),
        method: "next"@,
        args: Seq::<ExprView>::empty(),
        type_args: Seq::<TypeView>::empty(),
        span: (Span { lo: 0, hi: 0 }),
    }
}

/// The type of what a `for` loop gets for each element.
#[verifier::opaque]
pub open spec fn next_type(s: State, iter_ty: TypeView) -> (TypeView, State) {
    let symbols = s.fun.symbols;
    let s = State {
        fun: FunView {
            symbols: s.fun.symbols.insert(
                "__for_loop_iter"@,
                ((ValView { op: OperandView::Null, ty: LTyView::Ptr }), true, iter_ty),
            ),
            ..s.fun
        },
        ..s
    };
    let ty = ty_of(s, next_call_spec());
    let s = State { fun: FunView { symbols: symbols, ..s.fun }, ..s };
    (ty, s)
}

/// A `for` loop: as long as the iterator gives an element, it is matched with the pattern.
#[verifier::opaque]
pub open spec fn compile_for(s: State, k: Nested, e: ExprView) -> (
    Result<ValView, ErrorView>,
    State,
) {
    match e {
        ExprView::For { container, .. } => {
            let ty = ty_of(s, *container);
            match prepare_array(s, k, ty) {
                (Ok(_), s) => {
                    match iterator_of(s.env, *container, ty) {
                        Ok(iterator) => {
                            let iter_ty = ty_of(s, iterator);
                            let symbols = s.fun.symbols;
                            let moved = s.fun.moved;
                            let given = s.fun.given;
                            match prepare_next(s, k, iter_ty, span_of(*container)) {
                                (Ok(option_ty), s) => {
                                    match start_iterator(s, k, iterator, iter_ty) {
                                        (Ok(_), s) => {
                                            match compile_for_body(s, k, e, option_ty) {
                                                (Ok(_), s) => {
                                                    let s = State {
                                                        fun: FunView { symbols: symbols, ..s.fun },
                                                        ..s
                                                    };
                                                    let s = State {
                                                        fun: FunView { moved: moved, ..s.fun },
                                                        ..s
                                                    };
                                                    let s = State {
                                                        fun: FunView { given: given, ..s.fun },
                                                        ..s
                                                    };
                                                    (Ok(unit_value()), s)
                                                },
                                                (Err(e), s) => (Err(e), s),
                                            }
                                        },
                                        (Err(e), s) => (Err(e), s),
                                    }
                                },
                                (Err(e), s) => (Err(e), s),
                            }
                        },
                        Err(e) => (Err(e), s),
                    }
                },
                (Err(e), s) => (Err(e), s),
            }
        },
        _ => (Err(err("internal: not a loop"@)), s),
    }
}

/// Makes the methods of the array that a `for` loop goes through, if it is one.
#[verifier::opaque]
pub open spec fn prepare_array(
    s: State,
    k: Nested,
    ty: TypeView,
) -> (Result<(), ErrorView>, State) {
    match array_behind_spec(ty) {
        Some((elem, n)) => nested_slice(s, k, elem, n),
        None => (Ok(()), s),
    }
}

/// The type of what an iterator gives for each element, which has to be an `Option`; its instance
/// is made.
#[verifier::opaque]
pub open spec fn prepare_next(
    s: State,
    k: Nested,
    iter_ty: TypeView,
    place: Span,
) -> (Result<TypeView, ErrorView>, State) {
    let (option_ty, s) = next_type(s, iter_ty);
    match option_payload_spec(option_ty) {
        Some(elem_ty) => {
            match nested_instance(s, k, "Option"@, seq![elem_ty]) {
                (Ok(_), s) => (Ok(option_ty), s),
                (Err(e), s) => (Err(e), s),
            }
        },
        None => {
            (
                Err(
                    err_at(
                        ("iterator's next() must return Option<T>, found "@ + type_text(option_ty)),
                        place,
                    ),
                ),
                s,
            )
        },
    }
}

/// Keeps the iterator of a `for` loop in a variable.
#[verifier::opaque]
pub open spec fn start_iterator(
    s: State,
    k: Nested,
    iterator: ExprView,
    iter_ty: TypeView,
) -> (Result<(), ErrorView>, State) {
    match lower_type(s.env, iter_ty) {
        Ok(lty) => {
            let (slot, s) = alloca(s, lty);
            match nested_expr(s, k, iterator) {
                (Ok(v), s) => {
                    let s = store(s, v, slot);
                    let s = State {
                        fun: FunView {
                            symbols: s.fun.symbols.insert(
                                "__for_loop_iter"@,
                                (slot, true, iter_ty),
                            ),
                            ..s.fun
                        },
                        ..s
                    };
                    (Ok(()), s)
                },
                (Err(e), s) => (Err(e), s),
            }
        },
        Err(e) => (Err(e), s),
    }
}

/// The blocks of a `for` loop.
#[verifier::opaque]
pub open spec fn compile_for_body(
    s: State,
    k: Nested,
    e: ExprView,
    option_ty: TypeView,
) -> (Result<(), ErrorView>, State) {
    match e {
        ExprView::For { pattern, body, .. } => {
            let (cond_bb, s) = add_block(s, "for_cond"@);
            let (body_bb, s) = add_block(s, "for_body"@);
            let (after_bb, s) = add_block(s, "for_after"@);
            let (_, s) = emit_value(s, InstView::Br(cond_bb), LTyView::Ptr);
            let s = go_to(s, cond_bb);
            match nested_expr(s, k, next_call_spec()) {
                (Ok(v), s) => {
                    let some_pattern = PatternView::EnumVariant {
                        enum_name: None,
                        variant: "Some"@,
                        payload: Some(Box::new(pattern)),
                    };
                    match gen_pattern_check(s, some_pattern, v, option_ty) {
                        (Ok((c, bindings)), s) => {
                            let s = branch_if(s, c, body_bb, after_bb);
                            let s = go_to(s, body_bb);
                            let s = open_loop(s, cond_bb, after_bb, None);
                            match compile_body(s, k, body, bindings, cond_bb) {
                                (Ok(_), s) => {
                                    let s = go_to(s, after_bb);
                                    (Ok(()), s)
                                },
                                (Err(e), s) => (Err(e), s),
                            }
                        },
                        (Err(e), s) => (Err(e), s),
                    }
                },
                (Err(e), s) => (Err(e), s),
            }
        },
        _ => (Err(err("internal: not a loop"@)), s),
    }
}

/// An `if let`: the first block sees the variables of the pattern.
#[verifier::opaque]
pub open spec fn compile_if_let(s: State, k: Nested, e: ExprView) -> (
    Result<ValView, ErrorView>,
    State,
) {
    match e {
        ExprView::IfLet { pattern, scrutinee, then_block, else_block, .. } => {
            match nested_expr(s, k, *scrutinee) {
                (Ok(v), s) => {
                    let ty = ty_of(s, e);
                    match lower_type(s.env, ty) {
                        Ok(lty) => {
                            let (slot, s) = alloca(s, lty);
                            match gen_pattern_check(s, pattern, v, ty_of(s, *scrutinee)) {
                                (Ok((c, bindings)), s) => {
                                    let (then_bb, s) = add_block(s, "if_let_then"@);
                                    let (else_bb, s) = add_block(s, "if_let_else"@);
                                    let (merge_bb, s) = add_block(s, "if_let_merge"@);
                                    let s = branch_if(s, c, then_bb, else_bb);
                                    let s = go_to(s, then_bb);
                                    match compile_branch(
                                        s,
                                        k,
                                        then_block,
                                        bindings,
                                        slot,
                                        ty,
                                        lty,
                                    ) {
                                        (Ok(_), s) => {
                                            let s = jump(s, merge_bb);
                                            let s = go_to(s, else_bb);
                                            match else_block {
                                                Some(b) => {
                                                    match compile_branch(
                                                        s,
                                                        k,
                                                        b,
                                                        Seq::<(
                                                            Seq<char>,
                                                            ValView,
                                                            TypeView,
                                                        )>::empty(),
                                                        slot,
                                                        ty,
                                                        lty,
                                                    ) {
                                                        (Ok(_), s) => {
                                                            let s = jump(s, merge_bb);
                                                            let s = go_to(s, merge_bb);
                                                            result_of(s, ty, lty, slot)
                                                        },
                                                        (Err(e), s) => (Err(e), s),
                                                    }
                                                },
                                                None => {
                                                    let s = jump(s, merge_bb);
                                                    let s = go_to(s, merge_bb);
                                                    result_of(s, ty, lty, slot)
                                                },
                                            }
                                        },
                                        (Err(e), s) => (Err(e), s),
                                    }
                                },
                                (Err(e), s) => (Err(e), s),
                            }
                        },
                        Err(e) => (Err(e), s),
                    }
                },
                (Err(e), s) => (Err(e), s),
            }
        },
        _ => (Err(err("internal: not an if let"@)), s),
    }
}

/// The value of a conditional: the unit value, or what was stored.
#[verifier::opaque]
pub open spec fn result_of(
    s: State,
    ty: TypeView,
    lty: LTyView,
    slot: ValView,
) -> (Result<ValView, ErrorView>, State) {
    if ty is Unit {
        (Ok(unit_value()), s)
    } else {
        let (got, s) = load(s, lty, slot);
        (Ok(got), s)
    }
}

/// A `match`: the arms are tried one after the other.
#[verifier::opaque]
pub open spec fn compile_match(s: State, k: Nested, e: ExprView) -> (
    Result<ValView, ErrorView>,
    State,
) {
    match e {
        ExprView::Match { scrutinee, arms, .. } => {
            match nested_expr(s, k, *scrutinee) {
                (Ok(v), s) => {
                    let ty = ty_of(s, e);
                    match lower_type(s.env, ty) {
                        Ok(lty) => {
                            let (slot, s) = alloca(s, lty);
                            let (merge_bb, s) = add_block(s, "match_merge"@);
                            match try_arms(
                                s,
                                k,
                                arms,
                                v,
                                ty_of(s, *scrutinee),
                                span_of(*scrutinee),
                                merge_bb,
                                slot,
                                ty,
                                lty,
                            ) {
                                (Ok(_), s) => {
                                    let s = go_to(s, merge_bb);
                                    if (arms.len() as usize) == 0 {
                                        (Ok(unit_value()), s)
                                    } else {
                                        result_of(s, ty, lty, slot)
                                    }
                                },
                                (Err(e), s) => (Err(e), s),
                            }
                        },
                        Err(e) => (Err(e), s),
                    }
                },
                (Err(e), s) => (Err(e), s),
            }
        },
        _ => (Err(err("internal: not a match"@)), s),
    }
}

/// The blocks of a `match`; one without arms is left at once.
#[verifier::opaque]
pub open spec fn try_arms(
    s: State,
    k: Nested,
    arms: Seq<MatchArmView>,
    v: ValView,
    scrutinee_ty: TypeView,
    place: Span,
    merge_bb: usize,
    slot: ValView,
    ty: TypeView,
    lty: LTyView,
) -> (Result<(), ErrorView>, State) {
    if (arms.len() as usize) == 0 {
        let (_, s) = emit_value(s, InstView::Br(merge_bb), LTyView::Ptr);
        (Ok(()), s)
    } else {
        let ((checks, bodies), s) = arm_blocks(s, arms);
        let s = if (checks.len() as usize) > 0 {
            emit_value(s, InstView::Br(checks[0]), LTyView::Ptr).1
        } else {
            s
        };
        match compile_arms(
            s,
            k,
            arms,
            v,
            scrutinee_ty,
            place,
            checks,
            bodies,
            merge_bb,
            slot,
            ty,
            lty,
        ) {
            (Ok(_), s) => (Ok(()), s),
            (Err(e), s) => (Err(e), s),
        }
    }
}

/// The blocks that test each arm, and those that hold the arms.
#[verifier::opaque]
pub open spec fn arm_blocks(
    s: State,
    arms: Seq<MatchArmView>,
) -> ((Seq<usize>, Seq<usize>), State) {
    let checks = Seq::<usize>::empty();
    let bodies = Seq::<usize>::empty();
    arm_blocks_each(s, arms, checks, bodies, 0)
}

/// [`arm_blocks`] from element `i` on.
#[verifier::opaque]
pub open spec fn arm_blocks_each(
    s: State,
    arms: Seq<MatchArmView>,
    checks: Seq<usize>,
    bodies: Seq<usize>,
    i: nat,
) -> ((Seq<usize>, Seq<usize>), State)
    decreases arms.len() - i,
{
    if i < arms.len() {
        let a = arms[i as int];
        let (c, s) = add_block(s, ("match_check_"@ + decimal_text((i as usize) as nat)));
        let checks = checks.push(c);
        let (b, s) = add_block(s, ("match_body_"@ + decimal_text((i as usize) as nat)));
        let bodies = bodies.push(b);
        arm_blocks_each(s, arms, checks, bodies, i + 1)
    } else {
        ((checks, bodies), s)
    }
}

/// The arms of a `match`.
#[verifier::opaque]
pub open spec fn compile_arms(
    s: State,
    k: Nested,
    arms: Seq<MatchArmView>,
    v: ValView,
    scrutinee_ty: TypeView,
    place: Span,
    checks: Seq<usize>,
    bodies: Seq<usize>,
    merge_bb: usize,
    slot: ValView,
    ty: TypeView,
    lty: LTyView,
) -> (Result<(), ErrorView>, State) {
    compile_arms_each(
        s,
        k,
        arms,
        v,
        scrutinee_ty,
        place,
        checks,
        bodies,
        merge_bb,
        slot,
        ty,
        lty,
        0,
    )
}

/// [`compile_arms`] from element `i` on.
#[verifier::opaque]
pub open spec fn compile_arms_each(
    s: State,
    k: Nested,
    arms: Seq<MatchArmView>,
    v: ValView,
    scrutinee_ty: TypeView,
    place: Span,
    checks: Seq<usize>,
    bodies: Seq<usize>,
    merge_bb: usize,
    slot: ValView,
    ty: TypeView,
    lty: LTyView,
    i: nat,
) -> (Result<(), ErrorView>, State)
    decreases arms.len() - i,
{
    if i < arms.len() {
        let a = arms[i as int];
        if ((i as usize) < (checks.len() as usize)) && ((i as usize) < (bodies.len() as usize)) {
            let s = go_to(s, checks[i as int]);
            match gen_pattern_check(s, a.pattern, v, scrutinee_ty) {
                (Ok((m, bindings)), s) => {
                    match guarded(s, k, a, m, bindings, place) {
                        (Ok(c), s) => {
                            let next_bb = if (
                                (((i as usize) + 1) as usize) < (checks.len() as usize)
                            ) { checks[(((i as usize) + 1) as int)] } else { merge_bb };
                            let s = branch_if(s, c, bodies[i as int], next_bb);
                            let s = go_to(s, bodies[i as int]);
                            match compile_branch(s, k, a.body, bindings, slot, ty, lty) {
                                (Ok(_), s) => {
                                    let s = jump(s, merge_bb);
                                    compile_arms_each(
                                        s,
                                        k,
                                        arms,
                                        v,
                                        scrutinee_ty,
                                        place,
                                        checks,
                                        bodies,
                                        merge_bb,
                                        slot,
                                        ty,
                                        lty,
                                        i + 1,
                                    )
                                },
                                (Err(e), s) => (Err(e), s),
                            }
                        },
                        (Err(e), s) => (Err(e), s),
                    }
                },
                (Err(e), s) => (Err(e), s),
            }
        } else {
            (Err(err("internal: an arm without blocks"@)), s)
        }
    } else {
        (Ok(()), s)
    }
}

/// Whether an arm is taken whose pattern matches: its guard, which sees the variables of the
/// pattern, has to hold.
#[verifier::opaque]
pub open spec fn guarded(
    s: State,
    k: Nested,
    a: MatchArmView,
    m: ValView,
    bindings: Seq<(Seq<char>, ValView, TypeView)>,
    place: Span,
) -> (Result<ValView, ErrorView>, State) {
    match a.guard {
        Some(guard) => {
            let symbols = s.fun.symbols;
            let s = bind_all(s, bindings);
            match nested_expr(s, k, *guard) {
                (Ok(g), s) => {
                    let s = State { fun: FunView { symbols: symbols, ..s.fun }, ..s };
                    let (got3, s) = low_bit(s, g);
                    match got3 {
                        Some(x) => {
                            let (got4, s) = binary(s, BinKind::And, m, x);
                            (Ok(got4), s)
                        },
                        None => (Err(err_at("match guard must be a boolean"@, place)), s),
                    }
                },
                (Err(e), s) => (Err(e), s),
            }
        },
        None => (Ok(m), s),
    }
}

/// The type that is read through a reference or a pointer.
pub fn referent(ty: &Type) -> (r: Type)
    ensures
        r@ == referent_spec(ty@),
{
    proof {
        reveal(referent_spec);
    }
    match ty {
        Type::Ref { inner, .. } => {
            return (**inner).clone();
        },
        Type::Ptr { inner, .. } => {
            return (**inner).clone();
        },
        _ => {
            return ty.clone();
        },
    }
}

/// The label of a block of a logical operator.
pub fn logic_label(op: BinOp, part: &str) -> (r: String)
    ensures
        r@ == logic_label_spec(op, part@),
{
    proof {
        reveal(logic_label_spec);
    }
    if op == BinOp::And {
        return cat("and_", part);
    }
    cat("or_", part)
}

/// What is said of an operand that is no truth value.
pub fn logic_error(op: BinOp) -> (r: String)
    ensures
        r@ == logic_error_spec(op),
{
    proof {
        reveal(logic_error_spec);
    }
    if op == BinOp::And {
        return "logical AND operands must be booleans or integers".to_owned();
    }
    "logical OR operands must be booleans or integers".to_owned()
}

/// The type with an index, where there is one.
pub fn type_at(tys: &Vec<Type>, n: usize) -> (r: Option<Type>)
    ensures
        r.model() == type_at_spec(type_seq_view(tys@), n),
{
    proof {
        reveal(type_at_spec);
    }
    proof {
        assert(type_seq_view(tys@).len() == tys@.len());
    }
    if n < tys.len() {
        proof {
            assert(type_seq_view(tys@)[n as int] == type_view(tys@[n as int]));
        }
        return Some(tys[n].clone());
    }
    None
}

/// The call that a `for` loop makes for each element.
pub fn next_call() -> (r: Expr)
    ensures
        r@ == next_call_spec(),
{
    proof {
        reveal(next_call_spec);
    }
    proof { reveal_with_fuel(expr_view, 2); }
    let items: Vec<Expr> = Vec::new();
    proof {
        assert(expr_seq_view(items@) =~= Seq::<ExprView>::empty());
    }
    let items2: Vec<Type> = Vec::new();
    proof {
        assert(type_seq_view(items2@) =~= Seq::<TypeView>::empty());
    }
    Expr::MethodCall {
        expr: Box::new(Expr::Ident("__for_loop_iter".to_owned(), Span::empty(0))),
        method: "next".to_owned(),
        args: items,
        type_args: items2,
        span: Span::empty(0),
    }
}

impl Env {
    /// The types of the fields of a struct.
    pub fn struct_field_types(&self, owner: &str) -> (r: Vec<Type>)
        ensures
            type_seq_view(r@) == struct_field_types(self@, owner@),
    {
        proof {
            reveal(struct_field_types);
        }
        let subject = self.struct_fields.get_dup(owner);
        match &subject {
            Some(fields) => {
                return types_of_fields(fields);
            },
            None => {
                let items: Vec<Type> = Vec::new();
                proof {
                    assert(type_seq_view(items@) =~= Seq::<TypeView>::empty());
                }
                return items;
            },
        }
    }

    /// The field that holds the payload of a variant, if there is one.
    pub fn variant_field(&self, owner: &str, variant: &str) -> (r: Option<u32>)
        ensures
            r.model() == variant_field(self@, owner@, variant@),
    {
        proof {
            reveal(variant_field);
        }
        let subject = self.struct_fields.get_dup(owner);
        match &subject {
            Some(fields) => {
                let subject2 = field_position(fields, &cat("__", variant));
                match &subject2 {
                    Some(i) => {
                        return Some(*i as u32);
                    },
                    None => {
                        return None;
                    },
                }
            },
            None => {
                return None;
            },
        }
    }

    /// The expression that gives the iterator of a `for` loop.
    pub fn iterator_of(&self, container: &Expr, ty: &Type) -> (r: Result<Expr, CodegenError>)
        ensures
            r.model() == iterator_of(self@, container@, ty@),
    {
        proof {
            reveal(iterator_of);
        }
        if self.check_type_implements_trait(ty, "IntoIterator") {
            let items: Vec<Expr> = Vec::new();
            proof {
                assert(expr_seq_view(items@) =~= Seq::<ExprView>::empty());
            }
            let items2: Vec<Type> = Vec::new();
            proof {
                assert(type_seq_view(items2@) =~= Seq::<TypeView>::empty());
            }
            return Ok(
                Expr::MethodCall {
                    expr: Box::new(container.clone()),
                    method: "iter".to_owned(),
                    args: items,
                    type_args: items2,
                    span: Span::empty(0),
                },
            );
        }
        if self.check_type_implements_trait(ty, "Iterator") {
            return Ok(container.clone());
        }
        Err(
            CodegenError::with_span(
                cat3("type ", &show_type(ty), " does not implement IntoIterator or Iterator"),
                container.span(),
            ),
        )
    }
}

impl CodeGen {
    /// An expression: literals and variables give their value at once.
    pub fn expr_step(&mut self, fuel: usize, e: &Expr) -> (r: Result<Val, CodegenError>)
        ensures
            (r.model(), final(self)@) == expr_step(old(self)@, nested(fuel as nat), e@),
            stays(old(self)@, final(self)@),
            r is Ok ==> settled(old(self)@, final(self)@),
            r is Ok ==> confined(old(self)@.out.cur, final(self)@.out.cur),
            r is Ok ==> same_variables(old(self)@, final(self)@),
        decreases fuel, 9int,
    {
        proof {
            broadcast use {crate::nesting::group_nesting, crate::growth::group_growth};

            count_from(old(self)@);
            reveal(expr_step);
        }
        match e {
            Expr::BoolLit(b, _) => {
                return Ok(mk_int(1, if *b { 1 } else { 0 }));
            },
            Expr::IntLit(n, _) => {
                return Ok(mk_int(32, (*n as u64)));
            },
            Expr::FloatLit(digits, _) => {
                return Ok(
                    Val { op: Operand::Float(FloatConst::Lit(digits.clone())), ty: LTy::F64 },
                );
            },
            Expr::StrLit(text, _) => {
                let got = self.string_literal(text);
                return Ok(got);
            },
            Expr::Ident(name, _) => {
                return self.load_ident(name, e.span());
            },
            Expr::Unit(_) => {
                return Ok(mk_unit());
            },
            _ => {
                return self.compound_step(fuel, e);
            },
        }
    }

    /// An expression that is made of others.
    pub fn compound_step(&mut self, fuel: usize, e: &Expr) -> (r: Result<Val, CodegenError>)
        ensures
            (r.model(), final(self)@) == compound_step(old(self)@, nested(fuel as nat), e@),
            stays(old(self)@, final(self)@),
            r is Ok ==> settled(old(self)@, final(self)@),
            r is Ok ==> confined(old(self)@.out.cur, final(self)@.out.cur),
            r is Ok ==> same_variables(old(self)@, final(self)@),
        decreases fuel, 8int,
    {
        proof {
            broadcast use {crate::nesting::group_nesting, crate::growth::group_growth};

            count_from(old(self)@);
            reveal(compound_step);
        }
        match e {
            Expr::Assign { .. } => {
                return self.compile_assign(fuel, e);
            },
            Expr::Ref { .. } => {
                return self.compile_ref(fuel, e);
            },
            Expr::Deref { .. } => {
                return self.compile_deref(fuel, e);
            },
            Expr::Call { .. } => {
                return self.compile_call(fuel, e);
            },
            Expr::QualifiedCall { .. } => {
                return self.compile_qualified_call(fuel, e);
            },
            Expr::MethodCall { .. } => {
                return self.compile_method_call(fuel, e);
            },
            Expr::Binary { .. } => {
                return self.compile_binary(fuel, e);
            },
            Expr::UnaryNot { .. } => {
                return self.compile_unary(fuel, e);
            },
            Expr::UnaryMinus { .. } => {
                return self.compile_unary(fuel, e);
            },
            Expr::Member { .. } => {
                return self.compile_member(fuel, e);
            },
            Expr::Index { .. } => {
                return self.compile_index(fuel, e);
            },
            Expr::Cast { .. } => {
                return self.compile_cast(fuel, e);
            },
            _ => {
                return self.literal_step(fuel, e);
            },
        }
    }

    /// A literal of several values, or control flow.
    pub fn literal_step(&mut self, fuel: usize, e: &Expr) -> (r: Result<Val, CodegenError>)
        ensures
            (r.model(), final(self)@) == literal_step(old(self)@, nested(fuel as nat), e@),
            stays(old(self)@, final(self)@),
            r is Ok ==> settled(old(self)@, final(self)@),
            r is Ok ==> confined(old(self)@.out.cur, final(self)@.out.cur),
            r is Ok ==> same_variables(old(self)@, final(self)@),
        decreases fuel, 7int,
    {
        proof {
            broadcast use {crate::nesting::group_nesting, crate::growth::group_growth};

            count_from(old(self)@);
            reveal(literal_step);
        }
        match e {
            Expr::Tuple { .. } => {
                return self.compile_tuple(fuel, e);
            },
            Expr::StructLit { .. } => {
                return self.compile_struct_lit(fuel, e);
            },
            Expr::EnumLit { .. } => {
                return self.compile_enum_lit(fuel, e);
            },
            Expr::Array { .. } => {
                return self.compile_array(fuel, e);
            },
            Expr::Repeat { .. } => {
                return self.compile_repeat(fuel, e);
            },
            Expr::If { .. } => {
                return self.compile_if(fuel, e);
            },
            Expr::Loop { .. } => {
                return self.compile_loop(fuel, e);
            },
            Expr::While { .. } => {
                return self.compile_while(fuel, e);
            },
            Expr::For { .. } => {
                return self.compile_for(fuel, e);
            },
            Expr::IfLet { .. } => {
                return self.compile_if_let(fuel, e);
            },
            Expr::Match { .. } => {
                return self.compile_match(fuel, e);
            },
            Expr::Block(block, _) => {
                return self.compile_scope(fuel, block);
            },
            _ => {
                return Err(CodegenError::new("internal: not an expression with parts".to_owned()));
            },
        }
    }

    /// What a pointer points to.
    pub fn compile_deref(&mut self, fuel: usize, e: &Expr) -> (r: Result<Val, CodegenError>)
        ensures
            (r.model(), final(self)@) == compile_deref(old(self)@, nested(fuel as nat), e@),
            stays(old(self)@, final(self)@),
            r is Ok ==> settled(old(self)@, final(self)@),
            r is Ok ==> confined(old(self)@.out.cur, final(self)@.out.cur),
            r is Ok ==> same_variables(old(self)@, final(self)@),
        decreases fuel, 1int,
    {
        proof {
            broadcast use {crate::nesting::group_nesting, crate::growth::group_growth};

            count_from(old(self)@);
            reveal(compile_deref);
        }
        match e {
            Expr::Deref(inner, _) => {
                let v = match self.compile_expr(fuel, inner) {
                    Ok(v) => v,
                    Err(e) => {
                        return Err(e);
                    },
                };
                let p = match as_ptr(&v) {
                    Ok(v) => v,
                    Err(e) => {
                        return Err(e);
                    },
                };
                let lty = match self.env.type_to_llvm(&referent(&self.expr_type(inner))) {
                    Ok(v) => v,
                    Err(e) => {
                        return Err(e);
                    },
                };
                let got5 = self.load(&lty, &p);
                return Ok(got5);
            },
            _ => {
                return Err(CodegenError::new("internal: not a dereference".to_owned()));
            },
        }
    }

    /// A binary operator.
    pub fn compile_binary(&mut self, fuel: usize, e: &Expr) -> (r: Result<Val, CodegenError>)
        ensures
            (r.model(), final(self)@) == compile_binary(old(self)@, nested(fuel as nat), e@),
            stays(old(self)@, final(self)@),
            r is Ok ==> settled(old(self)@, final(self)@),
            r is Ok ==> confined(old(self)@.out.cur, final(self)@.out.cur),
            r is Ok ==> same_variables(old(self)@, final(self)@),
        decreases fuel, 2int,
    {
        proof {
            broadcast use {crate::nesting::group_nesting, crate::growth::group_growth};

            count_from(old(self)@);
            reveal(compile_binary);
        }
        match e {
            Expr::Binary { op, lhs, rhs, .. } => {
                match op {
                    BinOp::And | BinOp::Or => {
                        return self.compile_logic(fuel, e);
                    },
                    _ => {
                        let a = match self.compile_expr(fuel, lhs) {
                            Ok(v) => v,
                            Err(e) => {
                                return Err(e);
                            },
                        };
                        let b = match self.compile_expr(fuel, rhs) {
                            Ok(v) => v,
                            Err(e) => {
                                return Err(e);
                            },
                        };
                        return self.apply_operator(
                            *op,
                            &self.expr_type(lhs),
                            &self.expr_type(rhs),
                            &a,
                            &b,
                        );
                    },
                }
            },
            _ => {
                return Err(CodegenError::new("internal: not a binary operator".to_owned()));
            },
        }
    }

    /// A tuple.
    pub fn compile_tuple(&mut self, fuel: usize, e: &Expr) -> (r: Result<Val, CodegenError>)
        ensures
            (r.model(), final(self)@) == compile_tuple(old(self)@, nested(fuel as nat), e@),
            stays(old(self)@, final(self)@),
            r is Ok ==> settled(old(self)@, final(self)@),
            r is Ok ==> confined(old(self)@.out.cur, final(self)@.out.cur),
            r is Ok ==> same_variables(old(self)@, final(self)@),
        decreases fuel, 2int,
    {
        proof {
            broadcast use {crate::nesting::group_nesting, crate::growth::group_growth};

            count_from(old(self)@);
            reveal(compile_tuple);
        }
        match e {
            Expr::Tuple(elems, _) => {
                let vals = match self.compile_args_vec(fuel, elems) {
                    Ok(v) => v,
                    Err(e) => {
                        return Err(e);
                    },
                };
                self.note_all_given(elems);
                return self.tuple_value(&vals);
            },
            _ => {
                return Err(CodegenError::new("internal: not a tuple".to_owned()));
            },
        }
    }

    /// A member of a struct or a tuple.
    pub fn compile_member(&mut self, fuel: usize, e: &Expr) -> (r: Result<Val, CodegenError>)
        ensures
            (r.model(), final(self)@) == compile_member(old(self)@, nested(fuel as nat), e@),
            stays(old(self)@, final(self)@),
            r is Ok ==> settled(old(self)@, final(self)@),
            r is Ok ==> confined(old(self)@.out.cur, final(self)@.out.cur),
            r is Ok ==> same_variables(old(self)@, final(self)@),
        decreases fuel, 1int,
    {
        proof {
            broadcast use {crate::nesting::group_nesting, crate::growth::group_growth};

            count_from(old(self)@);
            reveal(compile_member);
        }
        match e {
            Expr::Member { expr: inner, index, field, .. } => {
                let v = match self.compile_expr(fuel, inner) {
                    Ok(v) => v,
                    Err(e) => {
                        return Err(e);
                    },
                };
                return self.member_of(&v, &self.expr_type(inner), field, *index, inner.span());
            },
            _ => {
                return Err(CodegenError::new("internal: not a member".to_owned()));
            },
        }
    }

    /// An element of a slice or an array.
    pub fn compile_index(&mut self, fuel: usize, e: &Expr) -> (r: Result<Val, CodegenError>)
        ensures
            (r.model(), final(self)@) == compile_index(old(self)@, nested(fuel as nat), e@),
            stays(old(self)@, final(self)@),
            r is Ok ==> settled(old(self)@, final(self)@),
            r is Ok ==> confined(old(self)@.out.cur, final(self)@.out.cur),
            r is Ok ==> same_variables(old(self)@, final(self)@),
        decreases fuel, 3int,
    {
        proof {
            broadcast use {crate::nesting::group_nesting, crate::growth::group_growth};

            count_from(old(self)@);
            reveal(compile_index);
        }
        let (p, ty) = match self.element_place(fuel, e, e.span(), "index") {
            Ok(v) => v,
            Err(e) => {
                return Err(e);
            },
        };
        let lty = match self.env.type_to_llvm(&ty) {
            Ok(v) => v,
            Err(e) => {
                return Err(e);
            },
        };
        let got4 = self.load(&lty, &p);
        Ok(got4)
    }

    /// A conversion to a type that has to be visible.
    pub fn compile_cast(&mut self, fuel: usize, e: &Expr) -> (r: Result<Val, CodegenError>)
        ensures
            (r.model(), final(self)@) == compile_cast(old(self)@, nested(fuel as nat), e@),
            stays(old(self)@, final(self)@),
            r is Ok ==> settled(old(self)@, final(self)@),
            r is Ok ==> confined(old(self)@.out.cur, final(self)@.out.cur),
            r is Ok ==> same_variables(old(self)@, final(self)@),
        decreases fuel, 1int,
    {
        proof {
            broadcast use {crate::nesting::group_nesting, crate::growth::group_growth};

            count_from(old(self)@);
            reveal(compile_cast);
        }
        match e {
            Expr::Cast { expr: inner, to_type: to, .. } => {
                match self.env.check_visibility_of_type(&self.fun.here, to) {
                    Ok(_) => {},
                    Err(e) => {
                        return Err(e);
                    },
                }
                let v = match self.compile_expr(fuel, inner) {
                    Ok(v) => v,
                    Err(e) => {
                        return Err(e);
                    },
                };
                return self.emit_cast(&v, &self.expr_type(inner), to);
            },
            _ => {
                return Err(CodegenError::new("internal: not a cast".to_owned()));
            },
        }
    }

    /// A unary operator.
    pub fn compile_unary(&mut self, fuel: usize, e: &Expr) -> (r: Result<Val, CodegenError>)
        ensures
            (r.model(), final(self)@) == compile_unary(old(self)@, nested(fuel as nat), e@),
            stays(old(self)@, final(self)@),
            r is Ok ==> settled(old(self)@, final(self)@),
            r is Ok ==> confined(old(self)@.out.cur, final(self)@.out.cur),
            r is Ok ==> same_variables(old(self)@, final(self)@),
        decreases fuel, 1int,
    {
        proof {
            broadcast use {crate::nesting::group_nesting, crate::growth::group_growth};

            count_from(old(self)@);
            reveal(compile_unary);
        }
        match e {
            Expr::UnaryNot(inner, _) => {
                let v = match self.compile_expr(fuel, inner) {
                    Ok(v) => v,
                    Err(e) => {
                        return Err(e);
                    },
                };
                if matches!(&v.ty, LTy::Int { .. }) {
                    let got3 = self.invert(&v);
                    return Ok(got3);
                }
                return Err(
                    CodegenError::with_span(
                        "unary not requires integer or boolean operand".to_owned(),
                        e.span(),
                    ),
                );
            },
            Expr::UnaryMinus(inner, _) => {
                let v = match self.compile_expr(fuel, inner) {
                    Ok(v) => v,
                    Err(e) => {
                        return Err(e);
                    },
                };
                return self.minus(&v, e.span());
            },
            _ => {
                return Err(CodegenError::new("internal: not a unary operator".to_owned()));
            },
        }
    }

    /// An operator on two values, by a trait method.
    pub fn apply_operator(
        &mut self,
        op: BinOp,
        ta: &Type,
        tb: &Type,
        a: &Val,
        b: &Val,
    ) -> (r: Result<Val, CodegenError>)
        ensures
            (r.model(), final(self)@) == apply_operator(old(self)@, op, ta@, tb@, a@, b@),
            stays(old(self)@, final(self)@),
            r is Ok ==> settled(old(self)@, final(self)@),
            r is Ok ==> confined(old(self)@.out.cur, final(self)@.out.cur),
            r is Ok ==> same_variables(old(self)@, final(self)@),
    {
        proof {
            broadcast use crate::growth::group_growth;

            count_from(old(self)@);
            reveal(apply_operator);
        }
        match &op {
            BinOp::Add | BinOp::Sub | BinOp::Mul | BinOp::Div => {
                return self.compile_trait_arithmetic(op, ta, tb, a, b);
            },
            _ => {
                return self.compile_trait_comparison(op, ta, tb, a, b);
            },
        }
    }

    /// A number negated.
    pub fn minus(&mut self, v: &Val, place: Span) -> (r: Result<Val, CodegenError>)
        ensures
            (r.model(), final(self)@) == minus(old(self)@, v@, place),
            stays(old(self)@, final(self)@),
            r is Ok ==> settled(old(self)@, final(self)@),
            r is Ok ==> confined(old(self)@.out.cur, final(self)@.out.cur),
            r is Ok ==> same_variables(old(self)@, final(self)@),
    {
        proof {
            broadcast use crate::growth::group_growth;

            count_from(old(self)@);
            reveal(minus);
        }
        match &v.ty {
            LTy::Int(_) => {
                let got = self.emit_value(Inst::Neg(v.clone()), v.ty.clone());
                return Ok(got);
            },
            LTy::F32 | LTy::F64 => {
                let got2 = self.emit_value(Inst::FloatNeg(v.clone()), v.ty.clone());
                return Ok(got2);
            },
            _ => {
                return Err(
                    CodegenError::with_span("unary - requires numeric operand".to_owned(), place),
                );
            },
        }
    }

    /// Compiles expressions one after the other.
    pub fn compile_args_vec(
        &mut self,
        fuel: usize,
        args: &Vec<Expr>,
    ) -> (r: Result<Vec<Val>, CodegenError>)
        ensures
            (r.model(), final(self)@) == compile_args_vec(
                old(self)@,
                nested(fuel as nat),
                expr_seq_view(args@),
            ),
            stays(old(self)@, final(self)@),
            r is Ok ==> settled(old(self)@, final(self)@),
            r is Ok ==> confined(old(self)@.out.cur, final(self)@.out.cur),
            r is Ok ==> same_variables(old(self)@, final(self)@),
        decreases fuel, 1int,
    {
        proof {
            broadcast use {crate::nesting::group_nesting, crate::growth::group_growth};

            count_from(old(self)@);
            reveal(compile_args_vec);
            reveal(compile_args_vec_each);
        }
        let items: Vec<Val> = Vec::new();
        proof {
            assert(val_seq_view(items@) =~= Seq::<ValView>::empty());
        }
        let mut vals = items;
        let mut i: usize = 0;
        while i < args.len()
            invariant
                i <= args@.len(),
                compile_args_vec_each(
                    self@,
                    nested(fuel as nat),
                    expr_seq_view(args@),
                    val_seq_view(vals@),
                    i as nat,
                ) == compile_args_vec(old(self)@, nested(fuel as nat), expr_seq_view(args@)),
                stays(old(self)@, self@),
                settled(old(self)@, self@),
                confined(old(self)@.out.cur, self@.out.cur),
                same_variables(old(self)@, self@),
            decreases args@.len() - i,
        {
            proof {
                broadcast use {crate::nesting::group_nesting, crate::growth::group_growth};

                count_from(old(self)@);
                reveal(compile_args_vec);
                reveal(compile_args_vec_each);
            }
            let a = &args[i];
            proof {
                assert(expr_seq_view(args@)[i as int] == expr_view(args@[i as int]));
            }
            let v = match self.compile_expr(fuel, a) {
                Ok(v) => v,
                Err(e) => {
                    return Err(e);
                },
            };
            let ghost prior = val_seq_view(vals@);
            let item = v.clone();
            vals.push(item);
            proof {
                assert(val_seq_view(vals@) =~= prior.push(item@));
            }
            i += 1;
        }
        Ok(dup_val_seq(&vals))
    }

    /// Compiles an expression whose type is expected: while it is compiled, the base name of an
    /// expected instance stands for that instance.
    pub fn compile_expected(
        &mut self,
        fuel: usize,
        e: &Expr,
        ty: &Type,
    ) -> (r: Result<Val, CodegenError>)
        ensures
            (r.model(), final(self)@) == compile_expected(old(self)@, nested(fuel as nat), e@, ty@),
            stays(old(self)@, final(self)@),
            r is Ok ==> settled(old(self)@, final(self)@),
            r is Ok ==> confined(old(self)@.out.cur, final(self)@.out.cur),
            r is Ok ==> same_variables(old(self)@, final(self)@),
        decreases fuel, 1int,
    {
        proof {
            broadcast use {crate::nesting::group_nesting, crate::growth::group_growth};

            count_from(old(self)@);
            reveal(compile_expected);
        }
        let saved = self.expect_type(ty);
        let res = self.compile_expr(fuel, e);
        self.unexpect(&saved);
        res
    }

    /// Compiles an expression whose type is expected, and converts its value where the machine type
    /// is another one.
    pub fn compile_as(&mut self, fuel: usize, e: &Expr, ty: &Type) -> (r: Result<Val, CodegenError>)
        ensures
            (r.model(), final(self)@) == compile_as(old(self)@, nested(fuel as nat), e@, ty@),
            stays(old(self)@, final(self)@),
            r is Ok ==> settled(old(self)@, final(self)@),
            r is Ok ==> confined(old(self)@.out.cur, final(self)@.out.cur),
            r is Ok ==> same_variables(old(self)@, final(self)@),
        decreases fuel, 2int,
    {
        proof {
            broadcast use {crate::nesting::group_nesting, crate::growth::group_growth};

            count_from(old(self)@);
            reveal(compile_as);
        }
        let v = match self.compile_expected(fuel, e, ty) {
            Ok(v) => v,
            Err(e) => {
                return Err(e);
            },
        };
        let lty = match self.env.type_to_llvm(ty) {
            Ok(v) => v,
            Err(e) => {
                return Err(e);
            },
        };
        if same_lty(&v.ty, &lty) {
            return Ok(v.clone());
        }
        self.emit_cast(&v, &self.expr_type(e), ty)
    }

    /// An assignment: the place first, then the value, which is what the assignment gives.
    pub fn compile_assign(&mut self, fuel: usize, e: &Expr) -> (r: Result<Val, CodegenError>)
        ensures
            (r.model(), final(self)@) == compile_assign(old(self)@, nested(fuel as nat), e@),
            stays(old(self)@, final(self)@),
            r is Ok ==> settled(old(self)@, final(self)@),
            r is Ok ==> confined(old(self)@.out.cur, final(self)@.out.cur),
            r is Ok ==> same_variables(old(self)@, final(self)@),
        decreases fuel, 4int,
    {
        proof {
            broadcast use {crate::nesting::group_nesting, crate::growth::group_growth};

            count_from(old(self)@);
            reveal(compile_assign);
        }
        match e {
            Expr::Assign { target, value, .. } => {
                let (p, want) = match self.assign_place(fuel, target, e.span()) {
                    Ok(v) => v,
                    Err(e) => {
                        return Err(e);
                    },
                };
                let v = match self.compile_expr(fuel, value) {
                    Ok(v) => v,
                    Err(e) => {
                        return Err(e);
                    },
                };
                match &want {
                    Some(ty) => {
                        let lty = match self.env.type_to_llvm(ty) {
                            Ok(v) => v,
                            Err(e) => {
                                return Err(e);
                            },
                        };
                        if !same_lty(&v.ty, &lty) {
                            let x = match self.emit_cast(&v, &self.expr_type(value), ty) {
                                Ok(v) => v,
                                Err(e) => {
                                    return Err(e);
                                },
                            };
                            self.store(&x, &p);
                            self.note_given(value);
                            return Ok(x.clone());
                        }
                    },
                    None => {},
                }
                self.store(&v, &p);
                self.note_given(value);
                return Ok(v.clone());
            },
            _ => {
                return Err(CodegenError::new("internal: not an assignment".to_owned()));
            },
        }
    }

    /// Where an assignment writes to, and the type that the value is converted to, if any.
    pub fn assign_place(
        &mut self,
        fuel: usize,
        target: &Expr,
        place: Span,
    ) -> (r: Result<(Val, Option<Type>), CodegenError>)
        ensures
            (r.model(), final(self)@) == assign_place(
                old(self)@,
                nested(fuel as nat),
                target@,
                place,
            ),
            stays(old(self)@, final(self)@),
            r is Ok ==> settled(old(self)@, final(self)@),
            r is Ok ==> confined(old(self)@.out.cur, final(self)@.out.cur),
            r is Ok ==> same_variables(old(self)@, final(self)@),
        decreases fuel, 3int,
    {
        proof {
            broadcast use {crate::nesting::group_nesting, crate::growth::group_growth};

            count_from(old(self)@);
            reveal(assign_place);
        }
        match target {
            Expr::Ident(name, _) => {
                let p = match self.assigned_variable(name) {
                    Ok(v) => v,
                    Err(e) => {
                        return Err(e);
                    },
                };
                return Ok((p.clone(), None));
            },
            Expr::Deref(inner, _) => {
                let v = match self.compile_expr(fuel, inner) {
                    Ok(v) => v,
                    Err(e) => {
                        return Err(e);
                    },
                };
                let p = match as_ptr(&v) {
                    Ok(v) => v,
                    Err(e) => {
                        return Err(e);
                    },
                };
                return Ok((p.clone(), None));
            },
            Expr::Member { expr: inner, index, field, .. } => {
                let v = match self.compile_expr(fuel, inner) {
                    Ok(v) => v,
                    Err(e) => {
                        return Err(e);
                    },
                };
                let base = match self.member_base(&v, inner, place) {
                    Ok(v) => v,
                    Err(e) => {
                        return Err(e);
                    },
                };
                let owner = match self.env.assigned_struct(&self.expr_type(inner)) {
                    Ok(v) => v,
                    Err(e) => {
                        return Err(e);
                    },
                };
                let slot_no: u32 = match self.visible_field(&owner, field, *index) {
                    Ok(v) => v,
                    Err(e) => {
                        return Err(e);
                    },
                };
                let got10 = self.field_ptr(&LTy::Named(owner.clone()), &base, slot_no);
                match &got10 {
                    Some(p) => {
                        return Ok((p.clone(), self.env.field_type_at(&owner, slot_no)));
                    },
                    None => {
                        return Err(
                            CodegenError::new(
                                "failed to get field pointer for assignment: GEP index out of range".to_owned(),
                            ),
                        );
                    },
                }
            },
            Expr::Index { .. } => {
                let (p, ty) = match self.element_place(fuel, target, place, "index_mut") {
                    Ok(v) => v,
                    Err(e) => {
                        return Err(e);
                    },
                };
                return Ok((p.clone(), None));
            },
            _ => {
                return Err(CodegenError::with_span("invalid assignment target".to_owned(), place));
            },
        }
    }

    /// The pointer to the struct whose field is assigned to.
    pub fn member_base(&self, v: &Val, inner: &Expr, place: Span) -> (r: Result<Val, CodegenError>)
        ensures
            r.model() == member_base(self@, v@, inner@, place),
    {
        proof {
            reveal(member_base);
        }
        if matches!(&v.ty, LTy::Ptr { .. }) {
            return Ok(v.clone());
        }
        match inner {
            Expr::Ident(name, _) => {
                return self.variable_ptr(name, place);
            },
            _ => {
                return Err(CodegenError::new("expected pointer for member assignment".to_owned()));
            },
        }
    }

    /// The address of an element of a slice or an array, and its type. An array is indexed by its
    /// method.
    pub fn element_place(
        &mut self,
        fuel: usize,
        e: &Expr,
        place: Span,
        method: &str,
    ) -> (r: Result<(Val, Type), CodegenError>)
        ensures
            (r.model(), final(self)@) == element_place(
                old(self)@,
                nested(fuel as nat),
                e@,
                place,
                method@,
            ),
            stays(old(self)@, final(self)@),
            r is Ok ==> settled(old(self)@, final(self)@),
            r is Ok ==> confined(old(self)@.out.cur, final(self)@.out.cur),
            r is Ok ==> same_variables(old(self)@, final(self)@),
        decreases fuel, 2int,
    {
        proof {
            broadcast use {crate::nesting::group_nesting, crate::growth::group_growth};

            count_from(old(self)@);
            reveal(element_place);
        }
        match e {
            Expr::Index { array, index, .. } => {
                let array_ty = self.expr_type(array);
                let subject = element_of_slice(&array_ty);
                match &subject {
                    Some(elem) => {
                        let v = match self.compile_expr(fuel, array) {
                            Ok(v) => v,
                            Err(e) => {
                                return Err(e);
                            },
                        };
                        let p = match self.slice_ptr(&v, place) {
                            Ok(v) => v,
                            Err(e) => {
                                return Err(e);
                            },
                        };
                        let lty = match self.env.type_to_llvm(elem) {
                            Ok(v) => v,
                            Err(e) => {
                                return Err(e);
                            },
                        };
                        let i = match self.compile_expr(fuel, index) {
                            Ok(v) => v,
                            Err(e) => {
                                return Err(e);
                            },
                        };
                        let n = match as_int(&i) {
                            Ok(v) => v,
                            Err(e) => {
                                return Err(e);
                            },
                        };
                        let mut items: Vec<Val> = Vec::new();
                        let item = n.clone();
                        items.push(item);
                        proof {
                            assert(val_seq_view(items@) =~= seq![item@]);
                        }
                        let q = self.elem_ptr(&lty, &p, items);
                        return Ok((q.clone(), elem.clone()));
                    },
                    None => {},
                }
                let (elem_ty, len) = match array_parts_or_fail(&array_ty, place) {
                    Ok(v) => v,
                    Err(e) => {
                        return Err(e);
                    },
                };
                match self.ensure_slice_methods(fuel, &elem_ty, len) {
                    Ok(_) => {},
                    Err(e) => {
                        return Err(e);
                    },
                }
                let f = match self.index_method(&array_type_key(&elem_ty, len), method) {
                    Ok(v) => v,
                    Err(e) => {
                        return Err(e);
                    },
                };
                let base = match self.array_base(fuel, e, place) {
                    Ok(v) => v,
                    Err(e) => {
                        return Err(e);
                    },
                };
                let i = match self.compile_expr(fuel, index) {
                    Ok(v) => v,
                    Err(e) => {
                        return Err(e);
                    },
                };
                let mut items2: Vec<Val> = Vec::new();
                let item2 = base.clone();
                items2.push(item2);
                let item3 = i.clone();
                items2.push(item3);
                proof {
                    assert(val_seq_view(items2@) =~= seq![item2@, item3@]);
                }
                let found = match self.call_fitted(&f, &items2) {
                    Ok(v) => v,
                    Err(e) => {
                        return Err(e);
                    },
                };
                let q = match as_ptr(&found) {
                    Ok(v) => v,
                    Err(e) => {
                        return Err(e);
                    },
                };
                return Ok((q.clone(), elem_ty.clone()));
            },
            _ => {
                return Err(CodegenError::new("internal: not an index expression".to_owned()));
            },
        }
    }

    /// The pointer to the array that is indexed.
    pub fn array_base(
        &mut self,
        fuel: usize,
        e: &Expr,
        place: Span,
    ) -> (r: Result<Val, CodegenError>)
        ensures
            (r.model(), final(self)@) == array_base(old(self)@, nested(fuel as nat), e@, place),
            stays(old(self)@, final(self)@),
            r is Ok ==> settled(old(self)@, final(self)@),
            r is Ok ==> confined(old(self)@.out.cur, final(self)@.out.cur),
            r is Ok ==> same_variables(old(self)@, final(self)@),
        decreases fuel, 1int,
    {
        proof {
            broadcast use {crate::nesting::group_nesting, crate::growth::group_growth};

            count_from(old(self)@);
            reveal(array_base);
        }
        proof {
            reveal_with_fuel(expr_view, 3);
        }
        match e {
            Expr::Index { array, .. } => {
                match &**array {
                    Expr::Ident(name, _) => {
                        return self.variable_ptr(name, place);
                    },
                    _ => {
                        let v = match self.compile_expr(fuel, array) {
                            Ok(v) => v,
                            Err(e) => {
                                return Err(e);
                            },
                        };
                        let got3 = self.in_memory(&v);
                        return Ok(got3);
                    },
                }
            },
            _ => {
                return Err(CodegenError::new("internal: not an index expression".to_owned()));
            },
        }
    }

    /// A reference: to a variable, to what a pointer points to, or to a temporary.
    pub fn compile_ref(&mut self, fuel: usize, e: &Expr) -> (r: Result<Val, CodegenError>)
        ensures
            (r.model(), final(self)@) == compile_ref(old(self)@, nested(fuel as nat), e@),
            stays(old(self)@, final(self)@),
            r is Ok ==> settled(old(self)@, final(self)@),
            r is Ok ==> confined(old(self)@.out.cur, final(self)@.out.cur),
            r is Ok ==> same_variables(old(self)@, final(self)@),
        decreases fuel, 1int,
    {
        proof {
            broadcast use {crate::nesting::group_nesting, crate::growth::group_growth};

            count_from(old(self)@);
            reveal(compile_ref);
        }
        proof {
            reveal_with_fuel(expr_view, 3);
        }
        match e {
            Expr::Ref { expr: inner, .. } => {
                match &**inner {
                    Expr::Ident(name, _) => {
                        return self.variable_ptr(name, inner.span());
                    },
                    Expr::Deref(pointer, _) => {
                        return self.compile_expr(fuel, pointer);
                    },
                    _ => {
                        let lty = match self.env.type_to_llvm(&literal_type(inner)) {
                            Ok(v) => v,
                            Err(e) => {
                                return Err(e);
                            },
                        };
                        let a = self.alloca(&lty);
                        let v = match self.compile_expr(fuel, inner) {
                            Ok(v) => v,
                            Err(e) => {
                                return Err(e);
                            },
                        };
                        self.store(&v, &a);
                        return Ok(a.clone());
                    },
                }
            },
            _ => {
                return Err(CodegenError::new("internal: not a reference".to_owned()));
            },
        }
    }

    /// A logical operator: the second operand is evaluated only where the first one does not
    /// decide.
    pub fn compile_logic(&mut self, fuel: usize, e: &Expr) -> (r: Result<Val, CodegenError>)
        ensures
            (r.model(), final(self)@) == compile_logic(old(self)@, nested(fuel as nat), e@),
            stays(old(self)@, final(self)@),
            r is Ok ==> settled(old(self)@, final(self)@),
            r is Ok ==> confined(old(self)@.out.cur, final(self)@.out.cur),
            r is Ok ==> same_variables(old(self)@, final(self)@),
            r is Ok && (e@->Binary_op is And || e@->Binary_op is Or) && old(self)@.out.cur.at < old(self)@.out.cur.blocks.len() ==> e@ is Binary && (
                terminated(final(self)@) || logic_built(
                    final(self)@,
                    r->Ok_0@,
                    nested(fuel as nat),
                    e@->Binary_op,
                    *e@->Binary_lhs,
                    *e@->Binary_rhs,
                )
            ),
        decreases fuel, 1int,
    {
        proof {
            broadcast use {crate::nesting::group_nesting, crate::growth::group_growth};

            count_from(old(self)@);
            reveal(compile_logic);
        }
        match e {
            Expr::Binary { op, lhs, rhs, .. } => {
                let rhs_bb: usize = self.add_block(&logic_label(*op, "rhs"));
                let merge_bb: usize = self.add_block(&logic_label(*op, "merge"));
                let ghost blocks = self@.out.cur;
                let slot = self.alloca(&LTy::Int(1));
                let ghost room = self@;
                let a = match self.compile_expr(fuel, lhs) {
                    Ok(v) => v,
                    Err(e) => {
                        return Err(e);
                    },
                };
                let ghost a_done = self@;
                let x = match self.to_bit(&a, &logic_error(*op)) {
                    Ok(v) => v,
                    Err(e) => {
                        return Err(e);
                    },
                };
                let ghost x_done = self@;
                self.store(&x, &slot);
                let ghost before = self@;
                if self.is_terminated() {
                    return Ok(a.clone());
                }
                if *op == BinOp::And {
                    self.branch_if(&x, rhs_bb, merge_bb);
                } else {
                    self.branch_if(&x, merge_bb, rhs_bb);
                }
                let ghost gone = self@.out.cur;
                self.go_to(rhs_bb);
                proof {
                    lemma_gone(
                        old(self)@.out.cur,
                        gone,
                        self@.out.cur,
                        old(self)@.out.cur.blocks.len(),
                    );
                }
                let ghost second_start = self@;
                let b = match self.compile_expr(fuel, rhs) {
                    Ok(v) => v,
                    Err(e) => {
                        return Err(e);
                    },
                };
                let ghost b_done = self@;
                let y = match self.to_bit(&b, &logic_error(*op)) {
                    Ok(v) => v,
                    Err(e) => {
                        return Err(e);
                    },
                };
                let ghost y_done = self@;
                self.store(&y, &slot);
                let ghost second_end = self@;
                self.jump(merge_bb);
                let ghost left = self@;
                let ghost gone = self@.out.cur;
                self.go_to(merge_bb);
                proof {
                    lemma_gone(
                        old(self)@.out.cur,
                        gone,
                        self@.out.cur,
                        old(self)@.out.cur.blocks.len(),
                    );
                }
                proof {
                    if old(self)@.out.cur.at < old(self)@.out.cur.blocks.len() {
                        let p = LogicParts {
                            room,
                            slot: slot@,
                            a: a@,
                            a_done,
                            x: x@,
                            before,
                            second: rhs_bb,
                            meet: merge_bb,
                            second_start,
                            b: b@,
                            b_done,
                            y: y@,
                            second_end,
                            met: self@,
                        };
                        lemma_adds_both(blocks, room.out.cur, a_done.out.cur);
                        lemma_adds_both(blocks, a_done.out.cur, x_done.out.cur);
                        lemma_adds_both(blocks, x_done.out.cur, before.out.cur);
                        lemma_untouched(blocks, before.out.cur, rhs_bb as int);
                        lemma_untouched(blocks, before.out.cur, merge_bb as int);
                        lemma_adds_both(second_start.out.cur, b_done.out.cur, y_done.out.cur);
                        lemma_adds_both(second_start.out.cur, y_done.out.cur, second_end.out.cur);
                        lemma_decides_early(p, *op, left);
                        assert(decides_early(p, *op));
                        let msg = logic_error_spec(*op);
                        assert(to_bit(p.a_done, p.a, msg) == (Ok::<ValView, ErrorView>(p.x), x_done));
                        assert(to_bit(p.b_done, p.b, msg) == (Ok::<ValView, ErrorView>(p.y), y_done));
                        assert(nested_expr(p.room, nested(fuel as nat), *e@->Binary_lhs) == (Ok::<ValView, ErrorView>(p.a), p.a_done));
                        assert(nested_expr(p.second_start, nested(fuel as nat), *e@->Binary_rhs) == (Ok::<ValView, ErrorView>(p.b), p.b_done));
                    }
                }
                let got12 = self.load(&LTy::Int(1), &slot);
                return Ok(got12);
            },
            _ => {
                return Err(CodegenError::new("internal: not a logical operator".to_owned()));
            },
        }
    }

    /// A struct literal: the initializers in the order in which they are written, each for the
    /// field it names.
    pub fn compile_struct_lit(&mut self, fuel: usize, e: &Expr) -> (r: Result<Val, CodegenError>)
        ensures
            (r.model(), final(self)@) == compile_struct_lit(old(self)@, nested(fuel as nat), e@),
            stays(old(self)@, final(self)@),
            r is Ok ==> settled(old(self)@, final(self)@),
            r is Ok ==> confined(old(self)@.out.cur, final(self)@.out.cur),
            r is Ok ==> same_variables(old(self)@, final(self)@),
        decreases fuel, 5int,
    {
        proof {
            broadcast use {crate::nesting::group_nesting, crate::growth::group_growth};

            count_from(old(self)@);
            reveal(compile_struct_lit);
        }
        match e {
            Expr::StructLit { struct_name: name, fields, .. } => {
                let owner = self.resolve_mangled_name(name);
                match self.env.check_visibility_of_path(&self.fun.here, &owner) {
                    Ok(_) => {},
                    Err(e) => {
                        return Err(e);
                    },
                }
                match self.env.check_struct_literal_construction(&self.fun.here, &owner) {
                    Ok(_) => {},
                    Err(e) => {
                        return Err(e);
                    },
                }
                if !self.env.struct_types.contains(&owner) {
                    return Err(CodegenError::new(cat3("unknown struct '", &owner, "'")));
                }
                return self.compile_fields(
                    fuel,
                    &owner,
                    fields,
                    &self.env.struct_field_types(&owner),
                    &mk_undef(&LTy::Named(owner.clone())),
                );
            },
            _ => {
                return Err(CodegenError::new("internal: not a struct literal".to_owned()));
            },
        }
    }

    /// A struct value with its fields set one after the other, each by its name.
    pub fn compile_fields(
        &mut self,
        fuel: usize,
        owner: &str,
        fields: &Vec<(String, Expr)>,
        tys: &Vec<Type>,
        start: &Val,
    ) -> (r: Result<Val, CodegenError>)
        ensures
            (r.model(), final(self)@) == compile_fields(
                old(self)@,
                nested(fuel as nat),
                owner@,
                string_expr_seq_view(fields@),
                type_seq_view(tys@),
                start@,
            ),
            stays(old(self)@, final(self)@),
            r is Ok ==> settled(old(self)@, final(self)@),
            r is Ok ==> confined(old(self)@.out.cur, final(self)@.out.cur),
            r is Ok ==> same_variables(old(self)@, final(self)@),
        decreases fuel, 4int,
    {
        proof {
            broadcast use {crate::nesting::group_nesting, crate::growth::group_growth};

            count_from(old(self)@);
            reveal(compile_fields);
            reveal(compile_fields_each);
        }
        let mut agg = start.clone();
        let mut i: usize = 0;
        while i < fields.len()
            invariant
                i <= fields@.len(),
                compile_fields_each(
                    self@,
                    nested(fuel as nat),
                    owner@,
                    string_expr_seq_view(fields@),
                    type_seq_view(tys@),
                    agg@,
                    i as nat,
                ) == compile_fields(
                    old(self)@,
                    nested(fuel as nat),
                    owner@,
                    string_expr_seq_view(fields@),
                    type_seq_view(tys@),
                    start@,
                ),
                stays(old(self)@, self@),
                settled(old(self)@, self@),
                confined(old(self)@.out.cur, self@.out.cur),
                same_variables(old(self)@, self@),
            decreases fields@.len() - i,
        {
            proof {
                broadcast use {crate::nesting::group_nesting, crate::growth::group_growth};

                count_from(old(self)@);
                reveal(compile_fields);
                reveal(compile_fields_each);
            }
            let f = &fields[i];
            proof {
                assert(string_expr_seq_view(fields@)[i as int] == (fields@[i as int].0@, expr_view(fields@[i as int].1)));
            }
            let at_: u32 = match self.env.field_number(owner, &f.0) {
                Ok(v) => v,
                Err(e) => {
                    return Err(e);
                },
            };
            let k_: usize = at_ as usize;
            let want = type_at(tys, k_);
            let v = match self.compile_payload(fuel, &f.1, &want) {
                Ok(v) => v,
                Err(e) => {
                    return Err(e);
                },
            };
            self.note_given(&f.1);
            let got4 = self.insert(&agg, &v, at_);
            match &got4 {
                Some(more) => {
                    agg = more.clone();
                },
                None => {
                    return Err(
                        CodegenError::new(
                            cat3(
                                "failed to insert struct field '",
                                &f.0,
                                "': Aggregate extract index out of range",
                            ),
                        ),
                    );
                },
            }
            i += 1;
        }
        Ok(agg.clone())
    }

    /// An array literal.
    pub fn compile_array(&mut self, fuel: usize, e: &Expr) -> (r: Result<Val, CodegenError>)
        ensures
            (r.model(), final(self)@) == compile_array(old(self)@, nested(fuel as nat), e@),
            stays(old(self)@, final(self)@),
            r is Ok ==> settled(old(self)@, final(self)@),
            r is Ok ==> confined(old(self)@.out.cur, final(self)@.out.cur),
            r is Ok ==> same_variables(old(self)@, final(self)@),
        decreases fuel, 2int,
    {
        proof {
            broadcast use {crate::nesting::group_nesting, crate::growth::group_growth};

            count_from(old(self)@);
            reveal(compile_array);
        }
        match e {
            Expr::Array(elems, _) => {
                proof {
                    assert(expr_seq_view(elems@).len() == elems@.len());
                }
                if elems.len() == 0 {
                    return Err(
                        CodegenError::with_span(
                            "empty array literals are not supported".to_owned(),
                            e.span(),
                        ),
                    );
                }
                proof {
                    assert(expr_seq_view(elems@)[0] == expr_view(elems@[0]));
                }
                let elem_ty = self.expr_type(&elems[0]);
                let elem_lty = match self.env.type_to_llvm(&elem_ty) {
                    Ok(v) => v,
                    Err(e) => {
                        return Err(e);
                    },
                };
                proof {
                    assert(expr_seq_view(elems@).len() == elems@.len());
                }
                let lty = match array_type(&elem_lty, (elems.len() as u32)) {
                    Ok(v) => v,
                    Err(e) => {
                        return Err(e);
                    },
                };
                let a = self.alloca(&lty);
                match self.store_elements(fuel, elems, &lty, &a) {
                    Ok(_) => {},
                    Err(e) => {
                        return Err(e);
                    },
                }
                proof {
                    assert(expr_seq_view(elems@).len() == elems@.len());
                }
                match self.ensure_slice_methods(fuel, &elem_ty, elems.len()) {
                    Ok(_) => {},
                    Err(e) => {
                        return Err(e);
                    },
                }
                let got6 = self.load(&lty, &a);
                return Ok(got6);
            },
            _ => {
                return Err(CodegenError::new("internal: not an array literal".to_owned()));
            },
        }
    }

    /// Compiles the elements of an array and stores each in its place.
    pub fn store_elements(
        &mut self,
        fuel: usize,
        elems: &Vec<Expr>,
        lty: &LTy,
        base: &Val,
    ) -> (r: Result<(), CodegenError>)
        ensures
            (r.model(), final(self)@) == store_elements(
                old(self)@,
                nested(fuel as nat),
                expr_seq_view(elems@),
                lty@,
                base@,
            ),
            stays(old(self)@, final(self)@),
            r is Ok ==> settled(old(self)@, final(self)@),
            r is Ok ==> confined(old(self)@.out.cur, final(self)@.out.cur),
            r is Ok ==> same_variables(old(self)@, final(self)@),
        decreases fuel, 1int,
    {
        proof {
            broadcast use {crate::nesting::group_nesting, crate::growth::group_growth};

            count_from(old(self)@);
            reveal(store_elements);
            reveal(store_elements_each);
        }
        let mut i: usize = 0;
        while i < elems.len()
            invariant
                i <= elems@.len(),
                store_elements_each(
                    self@,
                    nested(fuel as nat),
                    expr_seq_view(elems@),
                    lty@,
                    base@,
                    i as nat,
                ) == store_elements(
                    old(self)@,
                    nested(fuel as nat),
                    expr_seq_view(elems@),
                    lty@,
                    base@,
                ),
                stays(old(self)@, self@),
                settled(old(self)@, self@),
                confined(old(self)@.out.cur, self@.out.cur),
                same_variables(old(self)@, self@),
            decreases elems@.len() - i,
        {
            proof {
                broadcast use {crate::nesting::group_nesting, crate::growth::group_growth};

                count_from(old(self)@);
                reveal(store_elements);
                reveal(store_elements_each);
            }
            let x = &elems[i];
            proof {
                assert(expr_seq_view(elems@)[i as int] == expr_view(elems@[i as int]));
            }
            let v = match self.compile_expr(fuel, x) {
                Ok(v) => v,
                Err(e) => {
                    return Err(e);
                },
            };
            let p = self.element_at(lty, base, i);
            self.store(&v, &p);
            self.note_given(x);
            i += 1;
        }
        Ok(())
    }

    /// An array of equal elements.
    pub fn compile_repeat(&mut self, fuel: usize, e: &Expr) -> (r: Result<Val, CodegenError>)
        ensures
            (r.model(), final(self)@) == compile_repeat(old(self)@, nested(fuel as nat), e@),
            stays(old(self)@, final(self)@),
            r is Ok ==> settled(old(self)@, final(self)@),
            r is Ok ==> confined(old(self)@.out.cur, final(self)@.out.cur),
            r is Ok ==> same_variables(old(self)@, final(self)@),
        decreases fuel, 1int,
    {
        proof {
            broadcast use {crate::nesting::group_nesting, crate::growth::group_growth};

            count_from(old(self)@);
            reveal(compile_repeat);
        }
        match e {
            Expr::Repeat(inner, count, _) => {
                let elem_ty = self.expr_type(inner);
                let elem_lty = match self.env.type_to_llvm(&elem_ty) {
                    Ok(v) => v,
                    Err(e) => {
                        return Err(e);
                    },
                };
                let lty = match array_type(&elem_lty, (*count as u32)) {
                    Ok(v) => v,
                    Err(e) => {
                        return Err(e);
                    },
                };
                let a = self.alloca(&lty);
                let v = match self.compile_expr(fuel, inner) {
                    Ok(v) => v,
                    Err(e) => {
                        return Err(e);
                    },
                };
                self.store_repeated(&lty, &a, &v, 0, *count);
                match self.ensure_slice_methods(fuel, &elem_ty, *count) {
                    Ok(_) => {},
                    Err(e) => {
                        return Err(e);
                    },
                }
                let got7 = self.load(&lty, &a);
                return Ok(got7);
            },
            _ => {
                return Err(CodegenError::new("internal: not an array literal".to_owned()));
            },
        }
    }

    /// An enum literal, or an associated constant that is written like one.
    pub fn compile_enum_lit(&mut self, fuel: usize, e: &Expr) -> (r: Result<Val, CodegenError>)
        ensures
            (r.model(), final(self)@) == compile_enum_lit(old(self)@, nested(fuel as nat), e@),
            stays(old(self)@, final(self)@),
            r is Ok ==> settled(old(self)@, final(self)@),
            r is Ok ==> confined(old(self)@.out.cur, final(self)@.out.cur),
            r is Ok ==> same_variables(old(self)@, final(self)@),
        decreases fuel, 4int,
    {
        proof {
            broadcast use {crate::nesting::group_nesting, crate::growth::group_growth};

            count_from(old(self)@);
            reveal(compile_enum_lit);
        }
        match e {
            Expr::EnumLit { enum_name: name, variant, payload, .. } => {
                match payload {
                    Some(inner) => {
                        let owner = self.enum_name_of(name, &Some(self.expr_type(inner)));
                        let agg = match self.tagged_value(&owner, variant) {
                            Ok(v) => v,
                            Err(e) => {
                                return Err(e);
                            },
                        };
                        let subject = self.env.variant_field(&owner, variant);
                        match &subject {
                            Some(slot_no) => {
                                let v = match self.compile_payload(
                                    fuel,
                                    inner,
                                    &self.env.field_type_at(&owner, *slot_no),
                                ) {
                                    Ok(v) => v,
                                    Err(e) => {
                                        return Err(e);
                                    },
                                };
                                let got5 = self.insert(&agg, &v, *slot_no);
                                match &got5 {
                                    Some(r) => {
                                        self.note_given(inner);
                                        return Ok(r.clone());
                                    },
                                    None => {
                                        return Err(
                                            CodegenError::new(
                                                "failed to insert enum payload: Aggregate extract index out of range".to_owned(),
                                            ),
                                        );
                                    },
                                }
                            },
                            None => {
                                return Ok(agg.clone());
                            },
                        }
                    },
                    None => {
                        let subject2 = self.env.const_at(name, variant);
                        match &subject2 {
                            Some(d) => {
                                let c = match self.eval_associated_const(fuel, name, variant) {
                                    Ok(v) => v,
                                    Err(e) => {
                                        return Err(e);
                                    },
                                };
                                return self.env.const_value_to_llvm(&c, &d.1);
                            },
                            None => {
                                return self.tagged_value(&self.enum_name_of(name, &None), variant);
                            },
                        }
                    },
                }
            },
            _ => {
                return Err(CodegenError::new("internal: not an enum literal".to_owned()));
            },
        }
    }

    /// A part of a value, as the type that is declared for it.
    pub fn compile_payload(
        &mut self,
        fuel: usize,
        e: &Expr,
        want: &Option<Type>,
    ) -> (r: Result<Val, CodegenError>)
        ensures
            (r.model(), final(self)@) == compile_payload(
                old(self)@,
                nested(fuel as nat),
                e@,
                want.model(),
            ),
            stays(old(self)@, final(self)@),
            r is Ok ==> settled(old(self)@, final(self)@),
            r is Ok ==> confined(old(self)@.out.cur, final(self)@.out.cur),
            r is Ok ==> same_variables(old(self)@, final(self)@),
        decreases fuel, 3int,
    {
        proof {
            broadcast use {crate::nesting::group_nesting, crate::growth::group_growth};

            count_from(old(self)@);
            reveal(compile_payload);
        }
        match want {
            Some(ty) => {
                return self.compile_as(fuel, e, ty);
            },
            None => {
                return self.compile_expr(fuel, e);
            },
        }
    }

    /// An enum value with its tag set.
    pub fn tagged_value(&mut self, owner: &str, variant: &str) -> (r: Result<Val, CodegenError>)
        ensures
            (r.model(), final(self)@) == tagged_value(old(self)@, owner@, variant@),
            stays(old(self)@, final(self)@),
            r is Ok ==> settled(old(self)@, final(self)@),
            r is Ok ==> confined(old(self)@.out.cur, final(self)@.out.cur),
            r is Ok ==> same_variables(old(self)@, final(self)@),
    {
        proof {
            broadcast use crate::growth::group_growth;

            count_from(old(self)@);
            reveal(tagged_value);
        }
        match self.env.check_visibility_of_path(&self.fun.here, owner) {
            Ok(_) => {},
            Err(e) => {
                return Err(e);
            },
        }
        if !self.env.struct_types.contains(owner) {
            return Err(CodegenError::new(cat3("unknown enum type '", owner, "'")));
        }
        let tag: u64 = match self.env.variant_number(owner, variant) {
            Ok(v) => v,
            Err(e) => {
                return Err(e);
            },
        };
        if !self.env.struct_fields.contains_key(owner) {
            return Err(CodegenError::new(cat3("unknown enum '", owner, "'")));
        }
        let got2 = self.insert(&mk_undef(&LTy::Named(owner.to_owned())), &mk_int(8, tag), 0);
        match &got2 {
            Some(r) => {
                return Ok(r.clone());
            },
            None => {
                return Err(
                    CodegenError::new(
                        "failed to insert enum tag: Aggregate extract index out of range".to_owned(),
                    ),
                );
            },
        }
    }

    /// A conditional: its value goes through memory.
    pub fn compile_if(&mut self, fuel: usize, e: &Expr) -> (r: Result<Val, CodegenError>)
        ensures
            (r.model(), final(self)@) == compile_if(old(self)@, nested(fuel as nat), e@),
            stays(old(self)@, final(self)@),
            r is Ok ==> settled(old(self)@, final(self)@),
            r is Ok ==> confined(old(self)@.out.cur, final(self)@.out.cur),
            r is Ok ==> same_variables(old(self)@, final(self)@),
            r is Ok && old(self)@.out.cur.at < old(self)@.out.cur.blocks.len() ==> e@ is If && if_built(
                old(self)@,
                final(self)@,
                r->Ok_0@,
                nested(fuel as nat),
                *e@->If_cond,
                e@->If_then_block,
                e@->If_else_ifs,
                e@->If_else_block,
            ),
        decreases fuel, 5int,
    {
        proof {
            broadcast use {crate::nesting::group_nesting, crate::growth::group_growth};

            count_from(old(self)@);
            reveal(compile_if);
        }
        match e {
            Expr::If { cond, then_block, else_ifs, else_block, .. } => {
                let cond_ty = self.expr_type(cond);
                if !same_type(&cond_ty, &Type::Bool) {
                    return Err(
                        CodegenError::with_span(
                            cat("if condition must be bool, found ", &show_type(&cond_ty)),
                            e.span(),
                        ),
                    );
                }
                let c = match self.compile_expr(fuel, cond) {
                    Ok(v) => v,
                    Err(e) => {
                        return Err(e);
                    },
                };
                let ghost tested = self@;
                if !matches!(&c.ty, LTy::Int { .. }) {
                    return Err(
                        CodegenError::with_span(
                            "if condition must be a boolean".to_owned(),
                            e.span(),
                        ),
                    );
                }
                let ty = self.expr_type(e);
                let lty = match self.env.type_to_llvm(&ty) {
                    Ok(v) => v,
                    Err(e) => {
                        return Err(e);
                    },
                };
                let slot = self.alloca(&lty);
                let ghost before = self@;
                let then_bb: usize = self.add_block("if_then");
                let else_bb: usize = self.add_block("if_else");
                let merge_bb: usize = self.add_block("if_merge");
                self.branch_if(&c, then_bb, else_bb);
                let ghost gone = self@.out.cur;
                self.go_to(then_bb);
                proof {
                    lemma_gone(
                        old(self)@.out.cur,
                        gone,
                        self@.out.cur,
                        old(self)@.out.cur.blocks.len(),
                    );
                }
                let ghost yes_start = self@;
                let items: Vec<(String, Val, Type)> = Vec::new();
                proof {
                    assert(items.model() =~= Seq::<(Seq<char>, ValView, TypeView)>::empty());
                }
                match self.compile_branch(fuel, then_block, &items, &slot, &ty, &lty) {
                    Ok(_) => {},
                    Err(e) => {
                        return Err(e);
                    },
                }
                let ghost yes_end = self@;
                self.jump(merge_bb);
                let ghost yes_left = self@;
                let ghost gone = self@.out.cur;
                self.go_to(else_bb);
                proof {
                    lemma_gone(
                        old(self)@.out.cur,
                        gone,
                        self@.out.cur,
                        old(self)@.out.cur.blocks.len(),
                    );
                }
                let ghost no_start = self@;
                match self.compile_else_chain_store(fuel, else_ifs, merge_bb, &slot, &ty, &lty) {
                    Ok(_) => {},
                    Err(e) => {
                        return Err(e);
                    },
                }
                let ghost chained = self@;
                match self.compile_last_else(fuel, else_block, &slot, &ty, &lty) {
                    Ok(_) => {},
                    Err(e) => {
                        return Err(e);
                    },
                }
                let ghost no_end = self@;
                self.jump(merge_bb);
                let ghost no_left = self@;
                let ghost gone = self@.out.cur;
                self.go_to(merge_bb);
                proof {
                    lemma_gone(
                        old(self)@.out.cur,
                        gone,
                        self@.out.cur,
                        old(self)@.out.cur.blocks.len(),
                    );
                }
                proof {
                    if old(self)@.out.cur.at < old(self)@.out.cur.blocks.len() {
                        let p = ForkParts {
                            before,
                            tested: c@,
                            yes: then_bb,
                            no: else_bb,
                            meet: merge_bb,
                            yes_start,
                            yes_end,
                            no_start,
                            no_end,
                            met: self@,
                        };
                        lemma_adds_both(old(self)@.out.cur, tested.out.cur, before.out.cur);
                        lemma_adds_both(no_start.out.cur, chained.out.cur, no_end.out.cur);
                        lemma_still_in_block(old(self)@.out.cur, before.out.cur);
                        lemma_forks(
                            before,
                            "if_then"@,
                            "if_else"@,
                            "if_merge"@,
                            p,
                            yes_left,
                            no_left,
                        );
                        assert(forks(p));
                    }
                }
                let got11 = self.load(&lty, &slot);
                return Ok(got11);
            },
            _ => {
                return Err(CodegenError::new("internal: not a conditional".to_owned()));
            },
        }
    }

    /// The last branch of a conditional, where there is one.
    pub fn compile_last_else(
        &mut self,
        fuel: usize,
        else_block: &Option<Block>,
        slot: &Val,
        ty: &Type,
        lty: &LTy,
    ) -> (r: Result<(), CodegenError>)
        ensures
            (r.model(), final(self)@) == compile_last_else(
                old(self)@,
                nested(fuel as nat),
                else_block.model(),
                slot@,
                ty@,
                lty@,
            ),
            stays(old(self)@, final(self)@),
            r is Ok ==> settled(old(self)@, final(self)@),
            r is Ok ==> confined(old(self)@.out.cur, final(self)@.out.cur),
            r is Ok ==> same_variables(old(self)@, final(self)@),
        decreases fuel, 4int,
    {
        proof {
            broadcast use {crate::nesting::group_nesting, crate::growth::group_growth};

            count_from(old(self)@);
            reveal(compile_last_else);
        }
        match else_block {
            Some(b) => {
                let items: Vec<(String, Val, Type)> = Vec::new();
                proof {
                    assert(items.model() =~= Seq::<(Seq<char>, ValView, TypeView)>::empty());
                }
                return self.compile_branch(fuel, b, &items, slot, ty, lty);
            },
            None => {
                return Ok(());
            },
        }
    }

    /// The `else if` branches of a conditional; code goes on where none of them was taken.
    pub fn compile_else_chain_store(
        &mut self,
        fuel: usize,
        else_ifs: &Vec<(Expr, Block)>,
        merge_bb: usize,
        slot: &Val,
        ty: &Type,
        lty: &LTy,
    ) -> (r: Result<(), CodegenError>)
        ensures
            (r.model(), final(self)@) == compile_else_chain_store(
                old(self)@,
                nested(fuel as nat),
                expr_block_seq_view(else_ifs@),
                merge_bb,
                slot@,
                ty@,
                lty@,
            ),
            stays(old(self)@, final(self)@),
            r is Ok ==> settled(old(self)@, final(self)@),
            r is Ok ==> confined(old(self)@.out.cur, final(self)@.out.cur),
            r is Ok ==> same_variables(old(self)@, final(self)@),
            r is Ok && old(self)@.out.cur.at < old(self)@.out.cur.blocks.len() ==> exists|parts: Seq<ElifParts>| #[trigger] chain_stands(
                old(self)@,
                final(self)@,
                nested(fuel as nat),
                expr_block_seq_view(else_ifs@),
                parts,
                MeetParts { meet: merge_bb, slot: slot@, ty: ty@, lty: lty@ },
                else_ifs@.len() as int,
            ),
        decreases fuel, 4int,
    {
        proof {
            broadcast use {crate::nesting::group_nesting, crate::growth::group_growth};

            count_from(old(self)@);
            reveal(compile_else_chain_store);
            reveal(compile_else_chain_store_each);
        }
        let ghost mut parts: Seq<ElifParts> = Seq::empty();
        let mut i: usize = 0;
        while i < else_ifs.len()
            invariant
                i <= else_ifs@.len(),
                compile_else_chain_store_each(
                    self@,
                    nested(fuel as nat),
                    expr_block_seq_view(else_ifs@),
                    merge_bb,
                    slot@,
                    ty@,
                    lty@,
                    i as nat,
                ) == compile_else_chain_store(
                    old(self)@,
                    nested(fuel as nat),
                    expr_block_seq_view(else_ifs@),
                    merge_bb,
                    slot@,
                    ty@,
                    lty@,
                ),
                stays(old(self)@, self@),
                settled(old(self)@, self@),
                confined(old(self)@.out.cur, self@.out.cur),
                same_variables(old(self)@, self@),
                old(self)@.out.cur.at < old(self)@.out.cur.blocks.len() ==> chain_stands(
                    old(self)@,
                    self@,
                    nested(fuel as nat),
                    expr_block_seq_view(else_ifs@),
                    parts,
                    MeetParts { meet: merge_bb, slot: slot@, ty: ty@, lty: lty@ },
                    i as int,
                ),
            decreases else_ifs@.len() - i,
        {
            proof {
                broadcast use {crate::nesting::group_nesting, crate::growth::group_growth};

                count_from(old(self)@);
                reveal(compile_else_chain_store);
                reveal(compile_else_chain_store_each);
            }
            let c = &else_ifs[i];
            proof {
                assert(expr_block_seq_view(else_ifs@)[i as int] == (expr_view(else_ifs@[i as int].0), block_view(else_ifs@[i as int].1)));
            }
            let ghost start = self@;
            let v = match self.compile_expr(fuel, &c.0) {
                Ok(v) => v,
                Err(e) => {
                    return Err(e);
                },
            };
            let ghost v_done = self@;
            let got3 = self.low_bit(&v);
            match &got3 {
                Some(x) => {
                    let ghost before = self@;
                    let then_bb: usize = self.add_block("elif_then");
                    let rest_bb: usize = self.add_block("elif_rest");
                    self.branch_if(x, then_bb, rest_bb);
                    let ghost gone = self@.out.cur;
                    self.go_to(then_bb);
                    proof {
                        lemma_gone(
                            old(self)@.out.cur,
                            gone,
                            self@.out.cur,
                            old(self)@.out.cur.blocks.len(),
                        );
                    }
                    let ghost yes_start = self@;
                    let items: Vec<(String, Val, Type)> = Vec::new();
                    proof {
                        assert(items.model() =~= Seq::<(Seq<char>, ValView, TypeView)>::empty());
                    }
                    match self.compile_branch(fuel, &c.1, &items, slot, ty, lty) {
                        Ok(_) => {},
                        Err(e) => {
                            return Err(e);
                        },
                    }
                    let ghost yes_end = self@;
                    self.jump(merge_bb);
                    let ghost left = self@;
                    let ghost gone = self@.out.cur;
                    self.go_to(rest_bb);
                    proof {
                        lemma_gone(
                            old(self)@.out.cur,
                            gone,
                            self@.out.cur,
                            old(self)@.out.cur.blocks.len(),
                        );
                    }
                    proof {
                        let part = ElifParts {
                            start,
                            v: v@,
                            v_done,
                            x: x@,
                            before,
                            yes: then_bb,
                            rest: rest_bb,
                            yes_start,
                            yes_end,
                            rest_start: self@,
                        };
                        if old(self)@.out.cur.at < old(self)@.out.cur.blocks.len() {
                            lemma_still_in_block(old(self)@.out.cur, start.out.cur);
                            lemma_adds_both(start.out.cur, v_done.out.cur, before.out.cur);
                            lemma_elif_stands(
                                old(self)@,
                                nested(fuel as nat),
                                expr_block_seq_view(else_ifs@),
                                parts,
                                MeetParts { meet: merge_bb, slot: slot@, ty: ty@, lty: lty@ },
                                i as int,
                                part,
                                "elif_then"@,
                                "elif_rest"@,
                                left,
                            );
                        }
                        parts = parts.push(part);
                    }
                },
                None => {
                    return Err(
                        CodegenError::new(
                            "else-if condition must be a boolean or integer".to_owned(),
                        ),
                    );
                },
            }
            i += 1;
        }
        Ok(())
    }

    /// A branch whose value goes to `slot`. Its variables are dropped at its end; they, and what it
    /// moves out of, are forgotten.
    pub fn compile_branch(
        &mut self,
        fuel: usize,
        b: &Block,
        bindings: &Vec<(String, Val, Type)>,
        slot: &Val,
        ty: &Type,
        lty: &LTy,
    ) -> (r: Result<(), CodegenError>)
        ensures
            (r.model(), final(self)@) == compile_branch(
                old(self)@,
                nested(fuel as nat),
                b@,
                bindings.model(),
                slot@,
                ty@,
                lty@,
            ),
            stays(old(self)@, final(self)@),
            r is Ok ==> settled(old(self)@, final(self)@),
            r is Ok ==> confined(old(self)@.out.cur, final(self)@.out.cur),
            r is Ok ==> same_variables(old(self)@, final(self)@),
        decreases fuel, 3int,
    {
        proof {
            broadcast use {crate::nesting::group_nesting, crate::growth::group_growth};

            count_from(old(self)@);
            reveal(compile_branch);
        }
        let symbols = self.fun.symbols.dup();
        let moved = self.fun.moved.dup();
        let given = self.fun.given.dup();
        self.bind_all(bindings);
        let ghost entering = self@;
        self.enter_scope();
        let ghost inside = self@;
        proof { count_from(inside); }
        let v = match self.compile_block_get_value(fuel, b) {
            Ok(v) => v,
            Err(e) => {
                return Err(e);
            },
        };
        match self.store_value(&v, &self.tail_type(b), ty, lty, slot) {
            Ok(_) => {},
            Err(e) => {
                return Err(e);
            },
        }
        let ghost done = self@;
        match self.close_block(fuel, b) {
            Ok(_) => {},
            Err(e) => {
                return Err(e);
            },
        }
        proof { lemma_scope_closed(entering.fun.scopes, done.fun.scopes, self@.fun.scopes); }
        self.fun.symbols = symbols.dup();
        self.fun.moved = moved.dup();
        self.fun.given = given.dup();
        Ok(())
    }

    /// Stores a value as another type, if there is one.
    pub fn store_value(
        &mut self,
        v: &Option<Val>,
        found: &Type,
        ty: &Type,
        lty: &LTy,
        slot: &Val,
    ) -> (r: Result<(), CodegenError>)
        ensures
            (r.model(), final(self)@) == store_value(
                old(self)@,
                v.model(),
                found@,
                ty@,
                lty@,
                slot@,
            ),
            stays(old(self)@, final(self)@),
            r is Ok ==> settled(old(self)@, final(self)@),
            r is Ok ==> confined(old(self)@.out.cur, final(self)@.out.cur),
            r is Ok ==> same_variables(old(self)@, final(self)@),
    {
        proof {
            broadcast use crate::growth::group_growth;

            count_from(old(self)@);
            reveal(store_value);
        }
        match v {
            Some(x) => {
                return self.store_as(x, found, ty, lty, slot);
            },
            None => {
                return Ok(());
            },
        }
    }

    /// The type of the value of a block.
    pub fn tail_type(&self, b: &Block) -> (r: Type)
        ensures
            r@ == tail_type(self@, b@),
    {
        proof {
            reveal(tail_type);
        }
        match &b.tail_expr {
            Some(tail) => {
                return self.expr_type(tail);
            },
            None => {
                return Type::Unit;
            },
        }
    }

    /// Compiles a block and gives its value, if it has one.
    pub fn compile_block_get_value(&mut self, fuel: usize, b: &Block) -> (
        r: Result<Option<Val>, CodegenError>
    )
        ensures
            (r.model(), final(self)@) == compile_block_get_value(
                old(self)@,
                nested(fuel as nat),
                b@,
            ),
            stays(old(self)@, final(self)@),
            r is Ok ==> settled(old(self)@, final(self)@),
            r is Ok ==> confined(old(self)@.out.cur, final(self)@.out.cur),
        decreases fuel, 2int,
    {
        proof {
            broadcast use {crate::nesting::group_nesting, crate::growth::group_growth};

            count_from(old(self)@);
            reveal(compile_block_get_value);
        }
        match self.compile_stmts(fuel, &b.stmts) {
            Ok(_) => {},
            Err(e) => {
                return Err(e);
            },
        }
        match &b.tail_expr {
            Some(tail) => {
                let v = match self.compile_expr(fuel, tail) {
                    Ok(v) => v,
                    Err(e) => {
                        return Err(e);
                    },
                };
                return Ok(Some(v.clone()));
            },
            None => {
                return Ok(None);
            },
        }
    }

    /// Compiles statements one after the other.
    pub fn compile_stmts(&mut self, fuel: usize, stmts: &Vec<Stmt>) -> (r: Result<(), CodegenError>)
        ensures
            (r.model(), final(self)@) == compile_stmts(
                old(self)@,
                nested(fuel as nat),
                stmt_seq_view(stmts@),
            ),
            stays(old(self)@, final(self)@),
            r is Ok ==> settled(old(self)@, final(self)@),
            r is Ok ==> confined(old(self)@.out.cur, final(self)@.out.cur),
        decreases fuel, 1int,
    {
        proof {
            broadcast use {crate::nesting::group_nesting, crate::growth::group_growth};

            count_from(old(self)@);
            reveal(compile_stmts);
            reveal(compile_stmts_each);
        }
        let mut i: usize = 0;
        while i < stmts.len()
            invariant
                i <= stmts@.len(),
                compile_stmts_each(
                    self@,
                    nested(fuel as nat),
                    stmt_seq_view(stmts@),
                    i as nat,
                ) == compile_stmts(old(self)@, nested(fuel as nat), stmt_seq_view(stmts@)),
                stays(old(self)@, self@),
                settled(old(self)@, self@),
                confined(old(self)@.out.cur, self@.out.cur),
            decreases stmts@.len() - i,
        {
            proof {
                broadcast use {crate::nesting::group_nesting, crate::growth::group_growth};

                count_from(old(self)@);
                reveal(compile_stmts);
                reveal(compile_stmts_each);
            }
            let x = &stmts[i];
            proof {
                assert(stmt_seq_view(stmts@)[i as int] == stmt_view(stmts@[i as int]));
            }
            match self.compile_stmt(fuel, x) {
                Ok(_) => {},
                Err(e) => {
                    return Err(e);
                },
            }
            i += 1;
        }
        Ok(())
    }

    /// A block expression: its variables are dropped at its end, and it gives the unit value where
    /// it has none.
    pub fn compile_scope(&mut self, fuel: usize, b: &Block) -> (r: Result<Val, CodegenError>)
        ensures
            (r.model(), final(self)@) == compile_scope(old(self)@, nested(fuel as nat), b@),
            stays(old(self)@, final(self)@),
            r is Ok ==> settled(old(self)@, final(self)@),
            r is Ok ==> confined(old(self)@.out.cur, final(self)@.out.cur),
            r is Ok ==> same_variables(old(self)@, final(self)@),
        decreases fuel, 3int,
    {
        proof {
            broadcast use {crate::nesting::group_nesting, crate::growth::group_growth};

            count_from(old(self)@);
            reveal(compile_scope);
        }
        let symbols = self.fun.symbols.dup();
        let moved = self.fun.moved.dup();
        let given = self.fun.given.dup();
        let ghost entering = self@;
        self.enter_scope();
        let ghost inside = self@;
        proof { count_from(inside); }
        let v = match self.compile_block_get_value(fuel, b) {
            Ok(v) => v,
            Err(e) => {
                return Err(e);
            },
        };
        let ghost done = self@;
        match self.close_block(fuel, b) {
            Ok(_) => {},
            Err(e) => {
                return Err(e);
            },
        }
        proof { lemma_scope_closed(entering.fun.scopes, done.fun.scopes, self@.fun.scopes); }
        self.fun.moved = moved.dup();
        self.fun.given = given.dup();
        self.fun.symbols = symbols.dup();
        match &v {
            Some(x) => {
                return Ok(x.clone());
            },
            None => {
                return Ok(mk_unit());
            },
        }
    }

    /// The body of a loop, which is left by a jump back; its variables are dropped before.
    pub fn compile_body(
        &mut self,
        fuel: usize,
        b: &Block,
        bindings: &Vec<(String, Val, Type)>,
        back_bb: usize,
    ) -> (r: Result<(), CodegenError>)
        ensures
            (r.model(), final(self)@) == compile_body(
                old(self)@,
                nested(fuel as nat),
                b@,
                bindings.model(),
                back_bb,
            ),
            stays(old(self)@, final(self)@),
            r is Ok ==> same_variables(old(self)@, final(self)@),
            r is Ok ==> body_built(
                old(self)@,
                final(self)@,
                nested(fuel as nat),
                b@,
                bindings.model(),
                back_bb,
            ),
            r is Ok ==> left_loop(old(self)@, final(self)@),
            r is Ok ==> confined(old(self)@.out.cur, final(self)@.out.cur),
        decreases fuel, 3int,
    {
        proof {
            broadcast use {crate::nesting::group_nesting, crate::growth::group_growth};

            count_from(old(self)@);
            reveal(compile_body);
        }
        let symbols = self.fun.symbols.dup();
        let moved = self.fun.moved.dup();
        let given = self.fun.given.dup();
        self.bind_all(bindings);
        let ghost entering = self@;
        self.enter_scope();
        let ghost inside = self@;
        proof { count_from(inside); }
        let v = match self.compile_block_get_value(fuel, b) {
            Ok(v) => v,
            Err(e) => {
                return Err(e);
            },
        };
        let ghost done = self@;
        match self.exit_scope(fuel) {
            Ok(_) => {},
            Err(e) => {
                return Err(e);
            },
        }
        let ghost closed = self@;
        proof { lemma_scope_closed(entering.fun.scopes, done.fun.scopes, self@.fun.scopes); }
        drop_end(&mut self.fun.loops);
        self.fun.symbols = symbols.dup();
        self.fun.moved = moved.dup();
        self.fun.given = given.dup();
        let ghost jumping = self@;
        self.jump(back_bb);
        proof {
            lemma_body_built(
                old(self)@,
                closed,
                jumping,
                self@,
                nested(fuel as nat),
                b@,
                bindings.model(),
                back_bb,
            );
        }
        Ok(())
    }

    /// A `loop`, whose value is that of the `break` that leaves it.
    pub fn compile_loop(&mut self, fuel: usize, e: &Expr) -> (r: Result<Val, CodegenError>)
        ensures
            (r.model(), final(self)@) == compile_loop(old(self)@, nested(fuel as nat), e@),
            stays(old(self)@, final(self)@),
            r is Ok ==> settled(old(self)@, final(self)@),
            r is Ok ==> confined(old(self)@.out.cur, final(self)@.out.cur),
            r is Ok ==> same_variables(old(self)@, final(self)@),
            r is Ok && old(self)@.out.cur.at < old(self)@.out.cur.blocks.len() ==> e@ is Loop && loop_built(
                final(self)@,
                r->Ok_0@,
                nested(fuel as nat),
                e@->Loop_body,
            ),
        decreases fuel, 4int,
    {
        proof {
            broadcast use {crate::nesting::group_nesting, crate::growth::group_growth};

            count_from(old(self)@);
            reveal(compile_loop);
        }
        match e {
            Expr::Loop { body, .. } => {
                let ty = self.expr_type(e);
                let lty = match self.env.type_to_llvm(&ty) {
                    Ok(v) => v,
                    Err(e) => {
                        return Err(e);
                    },
                };
                let slot = self.spill(&lty, &mk_undef(&lty));
                let ghost before = self@;
                let header_bb: usize = self.add_block("loop_header");
                let after_bb: usize = self.add_block("loop_after");
                let _ = self.emit_value(Inst::Br(header_bb), LTy::Ptr);
                let ghost gone = self@.out.cur;
                self.go_to(header_bb);
                proof {
                    lemma_gone(
                        old(self)@.out.cur,
                        gone,
                        self@.out.cur,
                        old(self)@.out.cur.blocks.len(),
                    );
                }
                self.open_loop(header_bb, after_bb, &Some((slot.clone(), ty.clone())));
                let ghost body_start = self@;
                let items: Vec<(String, Val, Type)> = Vec::new();
                proof {
                    assert(items.model() =~= Seq::<(Seq<char>, ValView, TypeView)>::empty());
                }
                match self.compile_body(fuel, body, &items, header_bb) {
                    Ok(_) => {},
                    Err(e) => {
                        return Err(e);
                    },
                }
                let ghost looped = self@;
                let ghost gone = self@.out.cur;
                self.go_to(after_bb);
                proof {
                    lemma_gone(
                        old(self)@.out.cur,
                        gone,
                        self@.out.cur,
                        old(self)@.out.cur.blocks.len(),
                    );
                }
                proof {
                    if old(self)@.out.cur.at < old(self)@.out.cur.blocks.len() {
                        lemma_still_in_block(old(self)@.out.cur, before.out.cur);
                        let p = RoundParts {
                            before,
                            slot: slot@,
                            ty: ty@,
                            body: header_bb,
                            after: after_bb,
                            body_start,
                            body_end: body_start,
                            left: self@,
                        };
                        let q = lemma_repeats(
                            before,
                            "loop_header"@,
                            "loop_after"@,
                            p,
                            looped,
                            nested(fuel as nat),
                            body@,
                        );
                        assert(repeats(q));
                    }
                }
                let got7 = self.load(&lty, &slot);
                return Ok(got7);
            },
            _ => {
                return Err(CodegenError::new("internal: not a loop".to_owned()));
            },
        }
    }

    /// A `while` loop.
    pub fn compile_while(&mut self, fuel: usize, e: &Expr) -> (r: Result<Val, CodegenError>)
        ensures
            (r.model(), final(self)@) == compile_while(old(self)@, nested(fuel as nat), e@),
            stays(old(self)@, final(self)@),
            r is Ok ==> settled(old(self)@, final(self)@),
            r is Ok ==> confined(old(self)@.out.cur, final(self)@.out.cur),
            r is Ok ==> same_variables(old(self)@, final(self)@),
            r is Ok && old(self)@.out.cur.at < old(self)@.out.cur.blocks.len() ==> e@ is While && while_built(
                old(self)@,
                final(self)@,
                nested(fuel as nat),
                *e@->While_cond,
                e@->While_body,
            ),
        decreases fuel, 4int,
    {
        proof {
            broadcast use {crate::nesting::group_nesting, crate::growth::group_growth};

            count_from(old(self)@);
            reveal(compile_while);
        }
        match e {
            Expr::While { cond, body, .. } => {
                let cond_bb: usize = self.add_block("while_cond");
                let body_bb: usize = self.add_block("while_body");
                let after_bb: usize = self.add_block("while_after");
                let _ = self.emit_value(Inst::Br(cond_bb), LTy::Ptr);
                let ghost gone = self@.out.cur;
                self.go_to(cond_bb);
                proof {
                    lemma_gone(
                        old(self)@.out.cur,
                        gone,
                        self@.out.cur,
                        old(self)@.out.cur.blocks.len(),
                    );
                }
                let ghost test_start = self@;
                let cond_ty = self.expr_type(cond);
                if !same_type(&cond_ty, &Type::Bool) {
                    return Err(
                        CodegenError::with_span(
                            cat("while condition must be bool, found ", &show_type(&cond_ty)),
                            e.span(),
                        ),
                    );
                }
                let c = match self.compile_expr(fuel, cond) {
                    Ok(v) => v,
                    Err(e) => {
                        return Err(e);
                    },
                };
                if !matches!(&c.ty, LTy::Int { .. }) {
                    return Err(
                        CodegenError::with_span(
                            "while condition must be a boolean".to_owned(),
                            e.span(),
                        ),
                    );
                }
                let ghost test_end = self@;
                self.branch_if(&c, body_bb, after_bb);
                let ghost gone = self@.out.cur;
                self.go_to(body_bb);
                proof {
                    lemma_gone(
                        old(self)@.out.cur,
                        gone,
                        self@.out.cur,
                        old(self)@.out.cur.blocks.len(),
                    );
                }
                self.open_loop(cond_bb, after_bb, &None);
                let ghost body_start = self@;
                let items: Vec<(String, Val, Type)> = Vec::new();
                proof {
                    assert(items.model() =~= Seq::<(Seq<char>, ValView, TypeView)>::empty());
                }
                match self.compile_body(fuel, body, &items, cond_bb) {
                    Ok(_) => {},
                    Err(e) => {
                        return Err(e);
                    },
                }
                let ghost looped = self@;
                let ghost gone = self@.out.cur;
                self.go_to(after_bb);
                proof {
                    lemma_gone(
                        old(self)@.out.cur,
                        gone,
                        self@.out.cur,
                        old(self)@.out.cur.blocks.len(),
                    );
                }
                proof {
                    if old(self)@.out.cur.at < old(self)@.out.cur.blocks.len() {
                        let p = LoopParts {
                            test: cond_bb,
                            body: body_bb,
                            after: after_bb,
                            test_start,
                            test_end,
                            tested: c@,
                            body_start,
                            body_end: body_start,
                        };
                        let q = lemma_goes_round(
                            old(self)@,
                            "while_cond"@,
                            "while_body"@,
                            "while_after"@,
                            p,
                            looped,
                            self@,
                            nested(fuel as nat),
                            body@,
                            Seq::empty(),
                            None,
                        );
                        assert(goes_round(old(self)@, self@, q));
                    }
                }
                return Ok(mk_unit());
            },
            _ => {
                return Err(CodegenError::new("internal: not a loop".to_owned()));
            },
        }
    }

    /// The type of what a `for` loop gets for each element.
    pub fn next_type(&mut self, iter_ty: &Type) -> (r: Type)
        ensures
            (r@, final(self)@) == next_type(old(self)@, iter_ty@),
            stays(old(self)@, final(self)@),
            settled(old(self)@, final(self)@),
            confined(old(self)@.out.cur, final(self)@.out.cur),
            same_variables(old(self)@, final(self)@),
    {
        proof {
            broadcast use crate::growth::group_growth;

            count_from(old(self)@);
            reveal(next_type);
        }
        let symbols = self.fun.symbols.dup();
        self.fun.symbols.insert(
            "__for_loop_iter".to_owned(),
            (Val { op: Operand::Null, ty: LTy::Ptr }, true, iter_ty.clone()),
        );
        let ty = self.expr_type(&next_call());
        self.fun.symbols = symbols.dup();
        ty
    }

    /// A `for` loop: as long as the iterator gives an element, it is matched with the pattern.
    pub fn compile_for(&mut self, fuel: usize, e: &Expr) -> (r: Result<Val, CodegenError>)
        ensures
            (r.model(), final(self)@) == compile_for(old(self)@, nested(fuel as nat), e@),
            stays(old(self)@, final(self)@),
            r is Ok ==> settled(old(self)@, final(self)@),
            r is Ok ==> confined(old(self)@.out.cur, final(self)@.out.cur),
            r is Ok ==> same_variables(old(self)@, final(self)@),
        decreases fuel, 5int,
    {
        proof {
            broadcast use {crate::nesting::group_nesting, crate::growth::group_growth};

            count_from(old(self)@);
            reveal(compile_for);
        }
        match e {
            Expr::For { container, .. } => {
                let ty = self.expr_type(container);
                match self.prepare_array(fuel, &ty) {
                    Ok(_) => {},
                    Err(e) => {
                        return Err(e);
                    },
                }
                let iterator = match self.env.iterator_of(container, &ty) {
                    Ok(v) => v,
                    Err(e) => {
                        return Err(e);
                    },
                };
                let iter_ty = self.expr_type(&iterator);
                let symbols = self.fun.symbols.dup();
                let moved = self.fun.moved.dup();
                let given = self.fun.given.dup();
                let option_ty = match self.prepare_next(fuel, &iter_ty, container.span()) {
                    Ok(v) => v,
                    Err(e) => {
                        return Err(e);
                    },
                };
                match self.start_iterator(fuel, &iterator, &iter_ty) {
                    Ok(_) => {},
                    Err(e) => {
                        return Err(e);
                    },
                }
                match self.compile_for_body(fuel, e, &option_ty) {
                    Ok(_) => {},
                    Err(e) => {
                        return Err(e);
                    },
                }
                self.fun.symbols = symbols.dup();
                self.fun.moved = moved.dup();
                self.fun.given = given.dup();
                return Ok(mk_unit());
            },
            _ => {
                return Err(CodegenError::new("internal: not a loop".to_owned()));
            },
        }
    }

    /// Makes the methods of the array that a `for` loop goes through, if it is one.
    pub fn prepare_array(&mut self, fuel: usize, ty: &Type) -> (r: Result<(), CodegenError>)
        ensures
            (r.model(), final(self)@) == prepare_array(old(self)@, nested(fuel as nat), ty@),
            stays(old(self)@, final(self)@),
            r is Ok ==> settled(old(self)@, final(self)@),
            r is Ok ==> confined(old(self)@.out.cur, final(self)@.out.cur),
            r is Ok ==> same_variables(old(self)@, final(self)@),
        decreases fuel, 1int,
    {
        proof {
            broadcast use {crate::nesting::group_nesting, crate::growth::group_growth};

            count_from(old(self)@);
            reveal(prepare_array);
        }
        let subject = array_behind(ty);
        match &subject {
            Some((elem, n)) => {
                return self.ensure_slice_methods(fuel, elem, *n);
            },
            None => {
                return Ok(());
            },
        }
    }

    /// The type of what an iterator gives for each element, which has to be an `Option`; its
    /// instance is made.
    pub fn prepare_next(
        &mut self,
        fuel: usize,
        iter_ty: &Type,
        place: Span,
    ) -> (r: Result<Type, CodegenError>)
        ensures
            (r.model(), final(self)@) == prepare_next(
                old(self)@,
                nested(fuel as nat),
                iter_ty@,
                place,
            ),
            stays(old(self)@, final(self)@),
            r is Ok ==> settled(old(self)@, final(self)@),
            r is Ok ==> confined(old(self)@.out.cur, final(self)@.out.cur),
            r is Ok ==> same_variables(old(self)@, final(self)@),
        decreases fuel, 1int,
    {
        proof {
            broadcast use {crate::nesting::group_nesting, crate::growth::group_growth};

            count_from(old(self)@);
            reveal(prepare_next);
        }
        let option_ty = self.next_type(iter_ty);
        let subject = option_payload(&option_ty);
        match &subject {
            Some(elem_ty) => {
                let mut items: Vec<Type> = Vec::new();
                let item = elem_ty.clone();
                items.push(item);
                proof {
                    assert(type_seq_view(items@) =~= seq![item@]);
                }
                match self.ensure_monomorphized(fuel, "Option", &items) {
                    Ok(_) => {},
                    Err(e) => {
                        return Err(e);
                    },
                }
                return Ok(option_ty.clone());
            },
            None => {
                return Err(
                    CodegenError::with_span(
                        cat(
                            "iterator's next() must return Option<T>, found ",
                            &show_type(&option_ty),
                        ),
                        place,
                    ),
                );
            },
        }
    }

    /// Keeps the iterator of a `for` loop in a variable.
    pub fn start_iterator(
        &mut self,
        fuel: usize,
        iterator: &Expr,
        iter_ty: &Type,
    ) -> (r: Result<(), CodegenError>)
        ensures
            (r.model(), final(self)@) == start_iterator(
                old(self)@,
                nested(fuel as nat),
                iterator@,
                iter_ty@,
            ),
            stays(old(self)@, final(self)@),
            r is Ok ==> settled(old(self)@, final(self)@),
            r is Ok ==> confined(old(self)@.out.cur, final(self)@.out.cur),
        decreases fuel, 1int,
    {
        proof {
            broadcast use {crate::nesting::group_nesting, crate::growth::group_growth};

            count_from(old(self)@);
            reveal(start_iterator);
        }
        let lty = match self.env.type_to_llvm(iter_ty) {
            Ok(v) => v,
            Err(e) => {
                return Err(e);
            },
        };
        let slot = self.alloca(&lty);
        let v = match self.compile_expr(fuel, iterator) {
            Ok(v) => v,
            Err(e) => {
                return Err(e);
            },
        };
        self.store(&v, &slot);
        self.fun.symbols.insert(
            "__for_loop_iter".to_owned(),
            (slot.clone(), true, iter_ty.clone()),
        );
        Ok(())
    }

    /// The blocks of a `for` loop.
    pub fn compile_for_body(
        &mut self,
        fuel: usize,
        e: &Expr,
        option_ty: &Type,
    ) -> (r: Result<(), CodegenError>)
        ensures
            (r.model(), final(self)@) == compile_for_body(
                old(self)@,
                nested(fuel as nat),
                e@,
                option_ty@,
            ),
            stays(old(self)@, final(self)@),
            r is Ok ==> settled(old(self)@, final(self)@),
            r is Ok ==> confined(old(self)@.out.cur, final(self)@.out.cur),
            r is Ok ==> same_variables(old(self)@, final(self)@),
            r is Ok && old(self)@.out.cur.at < old(self)@.out.cur.blocks.len() ==> e@ is For && for_built(
                old(self)@,
                final(self)@,
                nested(fuel as nat),
                e@->For_pattern,
                e@->For_body,
                option_ty@,
            ),
        decreases fuel, 4int,
    {
        proof {
            broadcast use {crate::nesting::group_nesting, crate::growth::group_growth};

            count_from(old(self)@);
            reveal(compile_for_body);
        }
        match e {
            Expr::For { pattern, body, .. } => {
                let cond_bb: usize = self.add_block("for_cond");
                let body_bb: usize = self.add_block("for_body");
                let after_bb: usize = self.add_block("for_after");
                let _ = self.emit_value(Inst::Br(cond_bb), LTy::Ptr);
                let ghost gone = self@.out.cur;
                self.go_to(cond_bb);
                proof {
                    lemma_gone(
                        old(self)@.out.cur,
                        gone,
                        self@.out.cur,
                        old(self)@.out.cur.blocks.len(),
                    );
                }
                let ghost test_start = self@;
                let v = match self.compile_expr(fuel, &next_call()) {
                    Ok(v) => v,
                    Err(e) => {
                        return Err(e);
                    },
                };
                let ghost asked = self@;
                let some_pattern = Pattern::EnumVariant {
                    enum_name: None,
                    variant: "Some".to_owned(),
                    payload: Some(Box::new(pattern.clone())),
                };
                let (c, bindings) = match self.gen_pattern_check(&some_pattern, &v, option_ty) {
                    Ok(v) => v,
                    Err(e) => {
                        return Err(e);
                    },
                };
                let ghost test_end = self@;
                self.branch_if(&c, body_bb, after_bb);
                let ghost gone = self@.out.cur;
                self.go_to(body_bb);
                proof {
                    lemma_gone(
                        old(self)@.out.cur,
                        gone,
                        self@.out.cur,
                        old(self)@.out.cur.blocks.len(),
                    );
                }
                self.open_loop(cond_bb, after_bb, &None);
                let ghost body_start = self@;
                match self.compile_body(fuel, body, &bindings, cond_bb) {
                    Ok(_) => {},
                    Err(e) => {
                        return Err(e);
                    },
                }
                let ghost looped = self@;
                let ghost gone = self@.out.cur;
                self.go_to(after_bb);
                proof {
                    lemma_gone(
                        old(self)@.out.cur,
                        gone,
                        self@.out.cur,
                        old(self)@.out.cur.blocks.len(),
                    );
                }
                proof {
                    if old(self)@.out.cur.at < old(self)@.out.cur.blocks.len() {
                        let p = LoopParts {
                            test: cond_bb,
                            body: body_bb,
                            after: after_bb,
                            test_start,
                            test_end,
                            tested: c@,
                            body_start,
                            body_end: body_start,
                        };
                        lemma_adds_both(test_start.out.cur, asked.out.cur, test_end.out.cur);
                        let q = lemma_goes_round(
                            old(self)@,
                            "for_cond"@,
                            "for_body"@,
                            "for_after"@,
                            p,
                            looped,
                            self@,
                            nested(fuel as nat),
                            body@,
                            bindings.model(),
                            None,
                        );
                        assert(goes_round(old(self)@, self@, q));
                        assert(gen_pattern_check(asked, some_of(pattern@), v@, option_ty@).0 is Ok);
                        assert(block_built(q.body_start, q.body_end, nested(fuel as nat), body@, bindings.model()));
                    }
                }
                return Ok(());
            },
            _ => {
                return Err(CodegenError::new("internal: not a loop".to_owned()));
            },
        }
    }

    /// An `if let`: the first block sees the variables of the pattern.
    pub fn compile_if_let(&mut self, fuel: usize, e: &Expr) -> (r: Result<Val, CodegenError>)
        ensures
            (r.model(), final(self)@) == compile_if_let(old(self)@, nested(fuel as nat), e@),
            stays(old(self)@, final(self)@),
            r is Ok ==> settled(old(self)@, final(self)@),
            r is Ok ==> confined(old(self)@.out.cur, final(self)@.out.cur),
            r is Ok ==> same_variables(old(self)@, final(self)@),
            r is Ok && old(self)@.out.cur.at < old(self)@.out.cur.blocks.len() ==> e@ is IfLet && if_let_built(
                old(self)@,
                final(self)@,
                r->Ok_0@,
                nested(fuel as nat),
                e@->IfLet_pattern,
                *e@->IfLet_scrutinee,
                e@->IfLet_then_block,
                e@->IfLet_else_block,
            ),
        decreases fuel, 4int,
    {
        proof {
            broadcast use {crate::nesting::group_nesting, crate::growth::group_growth};

            count_from(old(self)@);
            reveal(compile_if_let);
        }
        match e {
            Expr::IfLet { pattern, scrutinee, then_block, else_block, .. } => {
                let v = match self.compile_expr(fuel, scrutinee) {
                    Ok(v) => v,
                    Err(e) => {
                        return Err(e);
                    },
                };
                let ghost looked = self@;
                let ty = self.expr_type(e);
                let lty = match self.env.type_to_llvm(&ty) {
                    Ok(v) => v,
                    Err(e) => {
                        return Err(e);
                    },
                };
                let slot = self.alloca(&lty);
                let ghost roomy = self@;
                let (c, bindings) = match self.gen_pattern_check(
                    pattern,
                    &v,
                    &self.expr_type(scrutinee),
                ) {
                    Ok(v) => v,
                    Err(e) => {
                        return Err(e);
                    },
                };
                let ghost before = self@;
                let then_bb: usize = self.add_block("if_let_then");
                let else_bb: usize = self.add_block("if_let_else");
                let merge_bb: usize = self.add_block("if_let_merge");
                self.branch_if(&c, then_bb, else_bb);
                let ghost gone = self@.out.cur;
                self.go_to(then_bb);
                proof {
                    lemma_gone(
                        old(self)@.out.cur,
                        gone,
                        self@.out.cur,
                        old(self)@.out.cur.blocks.len(),
                    );
                }
                let ghost yes_start = self@;
                match self.compile_branch(fuel, then_block, &bindings, &slot, &ty, &lty) {
                    Ok(_) => {},
                    Err(e) => {
                        return Err(e);
                    },
                }
                let ghost yes_end = self@;
                self.jump(merge_bb);
                let ghost yes_left = self@;
                let ghost gone = self@.out.cur;
                self.go_to(else_bb);
                proof {
                    lemma_gone(
                        old(self)@.out.cur,
                        gone,
                        self@.out.cur,
                        old(self)@.out.cur.blocks.len(),
                    );
                }
                let ghost no_start = self@;
                match else_block {
                    Some(b) => {
                        let items: Vec<(String, Val, Type)> = Vec::new();
                        proof {
                            assert(items.model() =~= Seq::<(Seq<char>, ValView, TypeView)>::empty());
                        }
                        match self.compile_branch(fuel, b, &items, &slot, &ty, &lty) {
                            Ok(_) => {},
                            Err(e) => {
                                return Err(e);
                            },
                        }
                    },
                    None => {},
                }
                let ghost no_end = self@;
                self.jump(merge_bb);
                let ghost no_left = self@;
                let ghost gone = self@.out.cur;
                self.go_to(merge_bb);
                proof {
                    lemma_gone(
                        old(self)@.out.cur,
                        gone,
                        self@.out.cur,
                        old(self)@.out.cur.blocks.len(),
                    );
                }
                proof {
                    if old(self)@.out.cur.at < old(self)@.out.cur.blocks.len() {
                        let p = ForkParts {
                            before,
                            tested: c@,
                            yes: then_bb,
                            no: else_bb,
                            meet: merge_bb,
                            yes_start,
                            yes_end,
                            no_start,
                            no_end,
                            met: self@,
                        };
                        lemma_adds_both(old(self)@.out.cur, looked.out.cur, roomy.out.cur);
                        lemma_adds_both(old(self)@.out.cur, roomy.out.cur, before.out.cur);
                        lemma_still_in_block(old(self)@.out.cur, before.out.cur);
                        lemma_forks(
                            before,
                            "if_let_then"@,
                            "if_let_else"@,
                            "if_let_merge"@,
                            p,
                            yes_left,
                            no_left,
                        );
                        assert(forks(p));
                    }
                }
                return self.result_of(&ty, &lty, &slot);
            },
            _ => {
                return Err(CodegenError::new("internal: not an if let".to_owned()));
            },
        }
    }

    /// The value of a conditional: the unit value, or what was stored.
    pub fn result_of(&mut self, ty: &Type, lty: &LTy, slot: &Val) -> (r: Result<Val, CodegenError>)
        ensures
            (r.model(), final(self)@) == result_of(old(self)@, ty@, lty@, slot@),
            stays(old(self)@, final(self)@),
            r is Ok ==> settled(old(self)@, final(self)@),
            r is Ok ==> confined(old(self)@.out.cur, final(self)@.out.cur),
            r is Ok ==> same_variables(old(self)@, final(self)@),
    {
        proof {
            broadcast use crate::growth::group_growth;

            count_from(old(self)@);
            reveal(result_of);
        }
        if matches!(ty, Type::Unit { .. }) {
            return Ok(mk_unit());
        }
        let got = self.load(lty, slot);
        Ok(got)
    }

    /// A `match`: the arms are tried one after the other.
    pub fn compile_match(&mut self, fuel: usize, e: &Expr) -> (r: Result<Val, CodegenError>)
        ensures
            (r.model(), final(self)@) == compile_match(old(self)@, nested(fuel as nat), e@),
            stays(old(self)@, final(self)@),
            r is Ok ==> settled(old(self)@, final(self)@),
            r is Ok ==> confined(old(self)@.out.cur, final(self)@.out.cur),
            r is Ok ==> same_variables(old(self)@, final(self)@),
        decreases fuel, 6int,
    {
        proof {
            broadcast use {crate::nesting::group_nesting, crate::growth::group_growth};

            count_from(old(self)@);
            reveal(compile_match);
        }
        match e {
            Expr::Match { scrutinee, arms, .. } => {
                let v = match self.compile_expr(fuel, scrutinee) {
                    Ok(v) => v,
                    Err(e) => {
                        return Err(e);
                    },
                };
                let ty = self.expr_type(e);
                let lty = match self.env.type_to_llvm(&ty) {
                    Ok(v) => v,
                    Err(e) => {
                        return Err(e);
                    },
                };
                let slot = self.alloca(&lty);
                let merge_bb: usize = self.add_block("match_merge");
                match self.try_arms(
                    fuel,
                    arms,
                    &v,
                    &self.expr_type(scrutinee),
                    scrutinee.span(),
                    merge_bb,
                    &slot,
                    &ty,
                    &lty,
                ) {
                    Ok(_) => {},
                    Err(e) => {
                        return Err(e);
                    },
                }
                let ghost gone = self@.out.cur;
                self.go_to(merge_bb);
                proof {
                    lemma_gone(
                        old(self)@.out.cur,
                        gone,
                        self@.out.cur,
                        old(self)@.out.cur.blocks.len(),
                    );
                }
                proof {
                    assert(match_arm_seq_view(arms@).len() == arms@.len());
                }
                if arms.len() == 0 {
                    return Ok(mk_unit());
                }
                return self.result_of(&ty, &lty, &slot);
            },
            _ => {
                return Err(CodegenError::new("internal: not a match".to_owned()));
            },
        }
    }

    /// The blocks of a `match`; one without arms is left at once.
    pub fn try_arms(
        &mut self,
        fuel: usize,
        arms: &Vec<MatchArm>,
        v: &Val,
        scrutinee_ty: &Type,
        place: Span,
        merge_bb: usize,
        slot: &Val,
        ty: &Type,
        lty: &LTy,
    ) -> (r: Result<(), CodegenError>)
        ensures
            (r.model(), final(self)@) == try_arms(
                old(self)@,
                nested(fuel as nat),
                match_arm_seq_view(arms@),
                v@,
                scrutinee_ty@,
                place,
                merge_bb,
                slot@,
                ty@,
                lty@,
            ),
            stays(old(self)@, final(self)@),
            r is Ok ==> settled(old(self)@, final(self)@),
            r is Ok ==> confined(old(self)@.out.cur, final(self)@.out.cur),
            r is Ok ==> same_variables(old(self)@, final(self)@),
            r is Ok && arms@.len() > 0 && old(self)@.out.cur.at < old(self)@.out.cur.blocks.len() ==> match_built(
                old(self)@,
                final(self)@,
                nested(fuel as nat),
                match_arm_seq_view(arms@),
                MatchParts {
                    value: v@,
                    ty: scrutinee_ty@,
                    place,
                    meet: merge_bb,
                    slot: slot@,
                    result_ty: ty@,
                    lty: lty@,
                },
            ),
        decreases fuel, 5int,
    {
        proof {
            broadcast use {crate::nesting::group_nesting, crate::growth::group_growth};

            count_from(old(self)@);
            reveal(try_arms);
        }
        proof {
            assert(match_arm_seq_view(arms@).len() == arms@.len());
        }
        if arms.len() == 0 {
            let _ = self.emit_value(Inst::Br(merge_bb), LTy::Ptr);
            return Ok(());
        }
        let (checks, bodies) = self.arm_blocks(arms);
        let ghost ready = self@;
        if checks.len() > 0 {
            let _ = self.emit_value(Inst::Br(checks[0]), LTy::Ptr);
        }
        match self.compile_arms(
            fuel,
            arms,
            v,
            scrutinee_ty,
            place,
            &checks,
            &bodies,
            merge_bb,
            slot,
            ty,
            lty,
        ) {
            Ok(_) => {},
            Err(e) => {
                return Err(e);
            },
        }
        proof {
            if old(self)@.out.cur.at < old(self)@.out.cur.blocks.len() {
                lemma_match_built(
                    old(self)@,
                    ready,
                    self@,
                    nested(fuel as nat),
                    match_arm_seq_view(arms@),
                    MatchParts {
                        value: v@,
                        ty: scrutinee_ty@,
                        place,
                        meet: merge_bb,
                        slot: slot@,
                        result_ty: ty@,
                        lty: lty@,
                    },
                    checks@,
                    bodies@,
                );
            }
        }
        Ok(())
    }

    /// The blocks that test each arm, and those that hold the arms.
    pub fn arm_blocks(&mut self, arms: &Vec<MatchArm>) -> (r: (Vec<usize>, Vec<usize>))
        ensures
            (r.model(), final(self)@) == arm_blocks(old(self)@, match_arm_seq_view(arms@)),
            stays(old(self)@, final(self)@),
            settled(old(self)@, final(self)@),
            confined(old(self)@.out.cur, final(self)@.out.cur),
            same_variables(old(self)@, final(self)@),
            r.0@.len() == arms@.len(),
            blocks_follow(final(self)@.out.cur, old(self)@.out.cur.blocks.len(), r.0@, r.1@),
            waiting(final(self)@.out.cur, r.0@, r.1@, 0),
            only_blocks(old(self)@.out.cur, final(self)@.out.cur),
    {
        proof {
            broadcast use crate::growth::group_growth;

            count_from(old(self)@);
            reveal(arm_blocks);
            reveal(arm_blocks_each);
        }
        let items: Vec<usize> = Vec::new();
        proof {
            assert(items@ =~= Seq::<usize>::empty());
        }
        let mut checks = items;
        let items2: Vec<usize> = Vec::new();
        proof {
            assert(items2@ =~= Seq::<usize>::empty());
        }
        let mut bodies = items2;
        let mut i: usize = 0;
        while i < arms.len()
            invariant
                i <= arms@.len(),
                arm_blocks_each(
                    self@,
                    match_arm_seq_view(arms@),
                    checks@,
                    bodies@,
                    i as nat,
                ) == arm_blocks(old(self)@, match_arm_seq_view(arms@)),
                stays(old(self)@, self@),
                settled(old(self)@, self@),
                confined(old(self)@.out.cur, self@.out.cur),
                same_variables(old(self)@, self@),
                self@.out.cur.blocks.len() == old(self)@.out.cur.blocks.len() + 2 * i,
                checks@.len() == i,
                blocks_follow(self@.out.cur, old(self)@.out.cur.blocks.len(), checks@, bodies@),
                waiting(self@.out.cur, checks@, bodies@, 0),
                only_blocks(old(self)@.out.cur, self@.out.cur),
            decreases arms@.len() - i,
        {
            proof {
                broadcast use crate::growth::group_growth;

                count_from(old(self)@);
                reveal(arm_blocks);
                reveal(arm_blocks_each);
            }
            let a = &arms[i];
            proof {
                assert(match_arm_seq_view(arms@)[i as int] == match_arm_view(arms@[i as int]));
            }
            let c: usize = self.add_block(&cat("match_check_", &show_usize(i)));
            let ghost prior = checks@;
            let item = c;
            checks.push(item);
            proof {
                assert(checks@ =~= prior.push(item));
            }
            let b: usize = self.add_block(&cat("match_body_", &show_usize(i)));
            let ghost prior2 = bodies@;
            let item2 = b;
            bodies.push(item2);
            proof {
                assert(bodies@ =~= prior2.push(item2));
            }
            i += 1;
        }
        (checks.dup(), bodies.dup())
    }

    /// The arms of a `match`.
    pub fn compile_arms(
        &mut self,
        fuel: usize,
        arms: &Vec<MatchArm>,
        v: &Val,
        scrutinee_ty: &Type,
        place: Span,
        checks: &Vec<usize>,
        bodies: &Vec<usize>,
        merge_bb: usize,
        slot: &Val,
        ty: &Type,
        lty: &LTy,
    ) -> (r: Result<(), CodegenError>)
        ensures
            (r.model(), final(self)@) == compile_arms(
                old(self)@,
                nested(fuel as nat),
                match_arm_seq_view(arms@),
                v@,
                scrutinee_ty@,
                place,
                checks@,
                bodies@,
                merge_bb,
                slot@,
                ty@,
                lty@,
            ),
            stays(old(self)@, final(self)@),
            r is Ok ==> settled(old(self)@, final(self)@),
            r is Ok ==> same_variables(old(self)@, final(self)@),
            r is Ok && blocks_ready(old(self)@.out.cur, checks@, bodies@) ==> confined_to(
                old(self)@.out.cur,
                final(self)@.out.cur,
                checks@[0] as nat,
            ),
            r is Ok && arms_ready(old(self)@.out.cur, checks@, bodies@, arms@.len()) ==> exists|parts: Seq<ArmParts>| #[trigger] arms_built(
                old(self)@.out.cur,
                final(self)@.out.cur,
                nested(fuel as nat),
                match_arm_seq_view(arms@),
                parts,
                MatchParts {
                    value: v@,
                    ty: scrutinee_ty@,
                    place,
                    meet: merge_bb,
                    slot: slot@,
                    result_ty: ty@,
                    lty: lty@,
                },
                checks@,
                bodies@,
                arms@.len() as int,
            ),
        decreases fuel, 4int,
    {
        proof {
            broadcast use {crate::nesting::group_nesting, crate::growth::group_growth};

            count_from(old(self)@);
            reveal(compile_arms);
            reveal(compile_arms_each);
        }
        let ghost mut parts: Seq<ArmParts> = Seq::empty();
        let mut i: usize = 0;
        while i < arms.len()
            invariant
                i <= arms@.len(),
                compile_arms_each(
                    self@,
                    nested(fuel as nat),
                    match_arm_seq_view(arms@),
                    v@,
                    scrutinee_ty@,
                    place,
                    checks@,
                    bodies@,
                    merge_bb,
                    slot@,
                    ty@,
                    lty@,
                    i as nat,
                ) == compile_arms(
                    old(self)@,
                    nested(fuel as nat),
                    match_arm_seq_view(arms@),
                    v@,
                    scrutinee_ty@,
                    place,
                    checks@,
                    bodies@,
                    merge_bb,
                    slot@,
                    ty@,
                    lty@,
                ),
                stays(old(self)@, self@),
                settled(old(self)@, self@),
                same_variables(old(self)@, self@),
                blocks_ready(old(self)@.out.cur, checks@, bodies@) ==> confined_to(
                    old(self)@.out.cur,
                    self@.out.cur,
                    checks@[0] as nat,
                ),
                arms_ready(old(self)@.out.cur, checks@, bodies@, arms@.len()) ==> waiting(self@.out.cur, checks@, bodies@, i as int) && arms_built(
                    old(self)@.out.cur,
                    self@.out.cur,
                    nested(fuel as nat),
                    match_arm_seq_view(arms@),
                    parts,
                    MatchParts {
                        value: v@,
                        ty: scrutinee_ty@,
                        place,
                        meet: merge_bb,
                        slot: slot@,
                        result_ty: ty@,
                        lty: lty@,
                    },
                    checks@,
                    bodies@,
                    i as int,
                ),
            decreases arms@.len() - i,
        {
            proof {
                broadcast use {crate::nesting::group_nesting, crate::growth::group_growth};

                count_from(old(self)@);
                reveal(compile_arms);
                reveal(compile_arms_each);
            }
            let a = &arms[i];
            proof {
                assert(match_arm_seq_view(arms@)[i as int] == match_arm_view(arms@[i as int]));
            }
            let ghost begun = self@;
            if (i < checks.len()) && (i < bodies.len()) {
                let ghost gone = self@.out.cur;
                self.go_to(checks[i]);
                proof {
                    if blocks_ready(old(self)@.out.cur, checks@, bodies@) { lemma_gone(old(self)@.out.cur, gone, self@.out.cur, checks@[0] as nat); }
                }
                let ghost test_start = self@;
                let (m, bindings) = match self.gen_pattern_check(&a.pattern, v, scrutinee_ty) {
                    Ok(v) => v,
                    Err(e) => {
                        return Err(e);
                    },
                };
                let ghost matched = self@;
                let c = match self.guarded(fuel, a, &m, &bindings, place) {
                    Ok(v) => v,
                    Err(e) => {
                        return Err(e);
                    },
                };
                let next_bb: usize = if (
                    (i + 1) < checks.len()
                ) { checks[(i + 1)] } else { merge_bb };
                let ghost test_end = self@;
                self.branch_if(&c, bodies[i], next_bb);
                let ghost gone = self@.out.cur;
                self.go_to(bodies[i]);
                proof {
                    if blocks_ready(old(self)@.out.cur, checks@, bodies@) { lemma_gone(old(self)@.out.cur, gone, self@.out.cur, checks@[0] as nat); }
                }
                let ghost body_start = self@;
                match self.compile_branch(fuel, &a.body, &bindings, slot, ty, lty) {
                    Ok(_) => {},
                    Err(e) => {
                        return Err(e);
                    },
                }
                let ghost body_end = self@;
                self.jump(merge_bb);
                proof {
                    let part = ArmParts {
                        test: checks[i as int],
                        body: bodies[i as int],
                        next: next_bb,
                        test_start,
                        matched,
                        test_end,
                        pattern_holds: m@,
                        tested: c@,
                        bindings: bindings.model(),
                        body_start,
                        body_end,
                    };
                    if arms_ready(old(self)@.out.cur, checks@, bodies@, arms@.len()) {
                        lemma_adds_both(test_start.out.cur, matched.out.cur, test_end.out.cur);
                        lemma_arm_built(
                            old(self)@.out.cur,
                            begun,
                            self@,
                            nested(fuel as nat),
                            match_arm_seq_view(arms@),
                            parts,
                            MatchParts {
                                value: v@,
                                ty: scrutinee_ty@,
                                place,
                                meet: merge_bb,
                                slot: slot@,
                                result_ty: ty@,
                                lty: lty@,
                            },
                            checks@,
                            bodies@,
                            i as int,
                            part,
                        );
                    }
                    parts = parts.push(part);
                }
            } else {
                return Err(CodegenError::new("internal: an arm without blocks".to_owned()));
            }
            i += 1;
        }
        Ok(())
    }

    /// Whether an arm is taken whose pattern matches: its guard, which sees the variables of the
    /// pattern, has to hold.
    pub fn guarded(
        &mut self,
        fuel: usize,
        a: &MatchArm,
        m: &Val,
        bindings: &Vec<(String, Val, Type)>,
        place: Span,
    ) -> (r: Result<Val, CodegenError>)
        ensures
            (r.model(), final(self)@) == guarded(
                old(self)@,
                nested(fuel as nat),
                a@,
                m@,
                bindings.model(),
                place,
            ),
            stays(old(self)@, final(self)@),
            r is Ok ==> settled(old(self)@, final(self)@),
            r is Ok ==> confined(old(self)@.out.cur, final(self)@.out.cur),
            r is Ok ==> same_variables(old(self)@, final(self)@),
        decreases fuel, 1int,
    {
        proof {
            broadcast use {crate::nesting::group_nesting, crate::growth::group_growth};

            count_from(old(self)@);
            reveal(guarded);
        }
        match &a.guard {
            Some(guard) => {
                let symbols = self.fun.symbols.dup();
                self.bind_all(bindings);
                let g = match self.compile_expr(fuel, guard) {
                    Ok(v) => v,
                    Err(e) => {
                        return Err(e);
                    },
                };
                self.fun.symbols = symbols.dup();
                let got3 = self.low_bit(&g);
                match &got3 {
                    Some(x) => {
                        let got4 = self.binary(BinKind::And, m, x);
                        return Ok(got4);
                    },
                    None => {
                        return Err(
                            CodegenError::with_span(
                                "match guard must be a boolean".to_owned(),
                                place,
                            ),
                        );
                    },
                }
            },
            None => {
                return Ok(m.clone());
            },
        }
    }
}

} // verus!
