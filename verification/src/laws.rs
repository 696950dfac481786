//! What holds of compiling, whatever the program.
use crate::bodies::{compile_break_value, instance_step, slice_step, stmt_step};
use crate::builder::{load, undef};
use crate::casts::{
    array_to_slice_spec, cast_plain, cast_width_spec, check_number_spec, const_value_to_llvm,
    emit_cast, is_lowered_to,
};
use crate::collect::{
    distinct, enum_lits_program, has_instance, named_program, one_param_enums, program_instances,
};
use crate::consts::{ask, find_answer, find_answer_each};
use crate::error::{line_ends, line_of};
use crate::exprs::{assign_place, compile_assign, compound_step, expr_step};
use crate::growth::{fits, listed, typed_blocks, well_listed, well_returned, within};
use crate::infer::ty_of;
use crate::instances::{declare_struct_type, instance_fields_spec, instance_struct, lay_out};
use crate::ir::{InstView, ValView};
use crate::model::{
    BlockView, ExprView, FunctionView, MatchArmView, ProgramView, StmtView, StructFieldView,
    TypeView, span_of,
};
use crate::names::{item_module, last_of_char, mangled, path_start, without_trait_prefix};
use crate::nesting::{compile_expr, compile_stmt, ensure_monomorphized, ensure_slice_methods};
use crate::places::{
    assigned_variable, declared, load_ident, overload_by_count_spec, resolve_function,
    resolve_function_each,
};
use crate::print::{escaped, name_char};
use crate::programs::{method_symbol_spec, note_owner, show_methods, show_methods_each};
use crate::query::{all_copy, copies, lower_type, needs_drop};
use crate::scopes::{
    drop_scope, drop_scope_each, drop_variable, enter_scope, exit_scope, expect_type, leave_scope,
    note_move, unexpect,
};
use crate::state::{EnvView, ErrorView, FloatQuestionView, OutView, State, answered, err, err_at};
use crate::subst::{
    position, subst_block, subst_expr, subst_expr_block_seq, subst_expr_seq, subst_match_arm,
    subst_match_arm_seq, subst_owner, subst_stmt, subst_stmt_seq, subst_string_expr_seq,
    subst_struct_name, subst_trait_bound, subst_trait_bound_seq, subst_type, subst_type_seq,
};
use crate::table::at;
use crate::text::{index_of, starts_with};
use crate::token::Span;
use crate::types::{array_key, param_names};
use crate::visible::{
    check_field, check_literal, check_path, field_public, has_private_field, inside, item_place,
    item_public,
};
use vstd::prelude::*;

verus! {

/// A `break` outside of a loop is refused, and nothing is compiled for it.
pub proof fn law_break_outside_loop(s: State, fuel: nat, x: StmtView)
    requires
        fuel > 0,
        x is Break,
        s.fun.loops.len() == 0,
    ensures
        compile_stmt(s, fuel, x) == (
            Err::<(), ErrorView>(err("cannot use `break` outside of a loop"@)),
            s,
        ),
{
    reveal(compile_stmt);
    reveal(stmt_step);
}

/// A `continue` outside of a loop is refused, and nothing is compiled for it.
pub proof fn law_continue_outside_loop(s: State, fuel: nat, x: StmtView)
    requires
        fuel > 0,
        x is Continue,
        s.fun.loops.len() == 0,
    ensures
        compile_stmt(s, fuel, x) == (
            Err::<(), ErrorView>(err("cannot use `continue` outside of a loop"@)),
            s,
        ),
{
    reveal(compile_stmt);
    reveal(stmt_step);
}

/// Only a `loop` has a value: a `break` with a value inside of another loop is refused.
pub proof fn law_break_with_value(s: State, fuel: nat, x: StmtView)
    requires
        fuel > 0,
        x is Break,
        x->Break_value is Some,
        s.fun.loops.len() > 0,
        s.fun.loops.last().result is None,
    ensures
        compile_stmt(s, fuel, x) == (
            Err::<(), ErrorView>(err("can only break with a value inside `loop`"@)),
            s,
        ),
{
    reveal(compile_stmt);
    reveal(stmt_step);
    reveal(compile_break_value);
}

/// A variable that was moved out of cannot be used.
pub proof fn law_moved_variable(s: State, fuel: nat, name: Seq<char>, span: Span)
    requires
        fuel > 0,
        s.fun.moved.contains(name),
    ensures
        compile_expr(s, fuel, ExprView::Ident(name, span)) == (
            Err::<ValView, ErrorView>(err("cannot use moved variable '"@ + name + "'"@)),
            s,
        ),
{
    reveal(compile_expr);
    reveal(expr_step);
    reveal(load_ident);
}

/// Using a variable as a whole moves out of it, unless its type is Copy: after a move it cannot be
/// used again, and a variable of a Copy type stays as it is.
pub proof fn law_use_after_move(s: State, fuel: nat, name: Seq<char>, span: Span)
    requires
        fuel > 0,
    ensures
        copies(s.env, ty_of(s, ExprView::Ident(name, span))) ==> note_move(
            s,
            ExprView::Ident(name, span),
        ) == s,
        !copies(s.env, ty_of(s, ExprView::Ident(name, span))) ==> {
            let t = note_move(s, ExprView::Ident(name, span));
            compile_expr(t, fuel, ExprView::Ident(name, span)) == (
                Err::<ValView, ErrorView>(err("cannot use moved variable '"@ + name + "'"@)),
                t,
            )
        },
{
    reveal(note_move);
    if !copies(s.env, ty_of(s, ExprView::Ident(name, span))) {
        let t = note_move(s, ExprView::Ident(name, span));
        law_moved_variable(t, fuel, name, span);
    }
}

/// A name that was not declared cannot be used; the error says where it stands.
pub proof fn law_undefined_variable(s: State, fuel: nat, name: Seq<char>, span: Span)
    requires
        fuel > 0,
        !s.fun.moved.contains(name),
        !s.fun.consts.contains_key(name),
        !s.fun.symbols.contains_key(name),
    ensures
        compile_expr(s, fuel, ExprView::Ident(name, span)) == (
            Err::<ValView, ErrorView>(err_at("undefined variable '"@ + name + "'"@, span)),
            s,
        ),
{
    reveal(compile_expr);
    reveal(expr_step);
    reveal(load_ident);
}

/// A constant is read as its value, and nothing is compiled for it; it hides a variable of the
/// same name.
pub proof fn law_constant_read(s: State, fuel: nat, name: Seq<char>, span: Span)
    requires
        fuel > 0,
        !s.fun.moved.contains(name),
        s.fun.consts.contains_key(name),
    ensures
        compile_expr(s, fuel, ExprView::Ident(name, span)) == (
            const_value_to_llvm(s.env, s.fun.consts[name].0, s.fun.consts[name].1),
            s,
        ),
{
    reveal(compile_expr);
    reveal(expr_step);
    reveal(load_ident);
}

/// A variable is read from its place on the stack.
pub proof fn law_variable_read(s: State, fuel: nat, name: Seq<char>, span: Span)
    requires
        fuel > 0,
        !s.fun.moved.contains(name),
        !s.fun.consts.contains_key(name),
        s.fun.symbols.contains_key(name),
        lower_type(s.env, s.fun.symbols[name].2) is Ok,
    ensures
        ({
            let (p, _, ty) = s.fun.symbols[name];
            let (v, t) = load(s, lower_type(s.env, ty)->Ok_0, p);
            compile_expr(s, fuel, ExprView::Ident(name, span)) == (Ok::<ValView, ErrorView>(v), t)
        }),
{
    reveal(compile_expr);
    reveal(expr_step);
    reveal(load_ident);
}

/// Nothing is assigned to a constant, to a variable that was not declared `mut`, and to a name that
/// was not declared: the assignment is refused before its value is compiled.
pub proof fn law_assignment_refused(s: State, fuel: nat, name: Seq<char>, e: ExprView)
    requires
        fuel > 0,
        e is Assign,
        e->Assign_target matches ident && *ident is Ident && (*ident)->Ident_0 == name,
        s.fun.consts.contains_key(name) || !s.fun.symbols.contains_key(name)
            || !s.fun.symbols[name].1,
    ensures
        compile_expr(s, fuel, e) == (
            Err::<ValView, ErrorView>(
                if s.fun.consts.contains_key(name) {
                    err("cannot assign to constant '"@ + name + "'"@)
                } else if s.fun.symbols.contains_key(name) {
                    err("cannot assign to immutable variable '"@ + name + "'"@)
                } else {
                    err("undefined variable '"@ + name + "'"@)
                },
            ),
            s,
        ),
{
    reveal(compile_expr);
    reveal(expr_step);
    reveal(compound_step);
    reveal(compile_assign);
    reveal(assign_place);
    reveal(assigned_variable);
}

/// Leaving a scope at once undoes entering it.
pub proof fn law_scope_undone(s: State, fuel: nat)
    ensures
        exit_scope(enter_scope(s), fuel) == (Ok::<(), ErrorView>(()), s),
{
    reveal(enter_scope);
    reveal(exit_scope);
    reveal(leave_scope);
    reveal(drop_scope);
    reveal(drop_scope_each);
    let t = enter_scope(s);
    assert(t.fun.scopes.last() =~= Seq::empty());
    assert(t.fun.scopes.drop_last() =~= s.fun.scopes);
}

/// What an expected type changes is undone.
pub proof fn law_expectation_undone(s: State, ty: TypeView)
    ensures
        unexpect(expect_type(s, ty).1, expect_type(s, ty).0) == s,
{
    reveal(expect_type);
    reveal(unexpect);
    let (saved, t) = expect_type(s, ty);
    match saved {
        Some((name, before)) => {
            match before {
                Some(old_name) => {
                    assert(t.fun.mono_names.insert(name, old_name) =~= s.fun.mono_names);
                },
                None => {
                    assert(t.fun.mono_names.remove(name) =~= s.fun.mono_names);
                },
            }
        },
        None => {},
    }
}

proof fn lemma_drop_rest(
    s: State,
    fuel: nat,
    vars: Seq<(Seq<char>, TypeView, ValView)>,
    v: (Seq<char>, TypeView, ValView),
    i: nat,
)
    requires
        i <= vars.len(),
    ensures
        drop_scope_each(s, fuel, vars.push(v), i + 1) == drop_scope_each(s, fuel, vars, i),
    decreases vars.len() - i,
{
    reveal(drop_scope_each);
    if i < vars.len() {
        let w = vars[vars.len() - 1 - i];
        assert(vars.push(v)[vars.push(v).len() - 1 - (i + 1)] == w);
        lemma_drop_rest(s, fuel, vars, v, i + 1);
        let t = drop_variable(s, fuel, w.1, w.2).1;
        lemma_drop_rest(t, fuel, vars, v, i + 1);
    }
}

/// Whether a variable is passed over at the end of its scope: it was moved out of, its value went
/// elsewhere, or its type needs no drop.
pub open spec fn passed_over(s: State, v: (Seq<char>, TypeView, ValView)) -> bool {
    s.fun.moved.contains(v.0) || s.fun.given.contains_key(v.0) || !needs_drop(s.env, v.1)
}

/// At the end of a scope the variable that was declared last is dropped first, unless it is passed
/// over.
pub proof fn law_drop_order(
    s: State,
    fuel: nat,
    vars: Seq<(Seq<char>, TypeView, ValView)>,
    v: (Seq<char>, TypeView, ValView),
)
    ensures
        passed_over(s, v) ==> drop_scope(s, fuel, vars.push(v)) == drop_scope(s, fuel, vars),
        !passed_over(s, v) ==> drop_scope(s, fuel, vars.push(v)) == match drop_variable(
            s,
            fuel,
            v.1,
            v.2,
        ) {
            (Ok(_), t) => drop_scope(t, fuel, vars),
            (Err(e), t) => (Err(e), t),
        },
{
    reveal(drop_scope);
    reveal(drop_scope_each);
    let all = vars.push(v);
    assert(all[all.len() - 1] == v);
    lemma_drop_rest(s, fuel, vars, v, 0);
    lemma_drop_rest(drop_variable(s, fuel, v.1, v.2).1, fuel, vars, v, 0);
}

/// An instance of a generic type that was made is not made again.
pub proof fn law_instance_made_once(s: State, fuel: nat, base: Seq<char>, args: Seq<TypeView>)
    requires
        fuel > 0,
        s.env.monomorphized.contains(mangled(base, args)),
    ensures
        ensure_monomorphized(s, fuel, base, args) == (Ok::<(), ErrorView>(()), s),
{
    reveal(ensure_monomorphized);
    reveal(instance_step);
}

/// The methods of an array type that were made are not made again.
pub proof fn law_array_methods_made_once(s: State, fuel: nat, elem: TypeView, len: usize)
    requires
        fuel > 0,
        s.env.impl_methods.contains_key(array_key(elem, len)),
    ensures
        ensure_slice_methods(s, fuel, elem, len) == (Ok::<(), ErrorView>(()), s),
{
    reveal(ensure_slice_methods);
    reveal(slice_step);
}

/// A function that is declared under the name itself is the one that a call means, whatever the
/// arguments; otherwise one of the overloads is, which is declared too.
pub proof fn law_direct_name_first(s: State, name: Seq<char>, args: Seq<TypeView>)
    ensures
        s.out.decls.contains_key(name) ==> resolve_function(s, name, args) == Some(name),
        resolve_function(s, name, args) matches Some(f) ==> s.out.decls.contains_key(f),
        !s.out.decls.contains_key(name) && !s.env.overloads.contains_key(name)
            ==> resolve_function(s, name, args) is None,
{
    reveal(resolve_function);
    if !s.out.decls.contains_key(name) && s.env.overloads.contains_key(name) {
        let fitting = overload_by_count_spec(s.env.overloads[name], args.len() as usize);
        reveal(declared);
        lemma_overload_declared(s, args, fitting, 0);
    }
}

proof fn lemma_overload_declared(
    s: State,
    args: Seq<TypeView>,
    fitting: Seq<(Seq<char>, Seq<TypeView>)>,
    i: nat,
)
    ensures
        resolve_function_each(s, args, fitting, i) matches Some(f) ==> s.out.decls.contains_key(f),
    decreases fitting.len() - i,
{
    reveal(resolve_function_each);
    reveal(declared);
    if i < fitting.len() {
        lemma_overload_declared(s, args, fitting, i + 1);
    }
}

/// References and pointers are copied; an array is copied where its elements are, and a tuple where
/// all its elements are.
pub proof fn law_copies(env: EnvView, ty: TypeView)
    ensures
        ty is Ref || ty is Ptr || ty is Unit || ty is Never ==> copies(env, ty),
        ty matches TypeView::Array { inner, .. } ==> copies(env, ty) == copies(env, *inner),
        ty matches TypeView::Tuple(tys) ==> copies(env, ty) == (forall|i: int|
            0 <= i < tys.len() ==> copies(env, #[trigger] tys[i])),
{
    reveal(copies);
    reveal(all_copy);
    if let TypeView::Tuple(tys) = ty {
        lemma_all_copy(env, tys);
    }
}

proof fn lemma_all_copy(env: EnvView, tys: Seq<TypeView>)
    ensures
        all_copy(env, tys) == (
            forall|i: int| 0 <= i < tys.len() ==> copies(env, #[trigger] tys[i])
        ),
    decreases tys.len(),
{
    reveal(copies);
    reveal(all_copy);
    if tys.len() > 0 {
        let head = tys.drop_last();
        lemma_all_copy(env, head);
        assert(tys.last() == tys[tys.len() - 1]);
        assert forall|i: int| 0 <= i < head.len() implies copies(env, #[trigger] tys[i]) == copies(
            env,
            head[i],
        ) by {
            assert(head[i] == tys[i]);
        }
        if all_copy(env, tys) {
            assert forall|i: int| 0 <= i < tys.len() implies copies(env, #[trigger] tys[i]) by {
                if i < head.len() {
                    assert(copies(env, head[i]));
                }
            }
        } else if all_copy(env, head) {
            assert(!copies(env, tys[tys.len() - 1]));
        } else {
            let i = choose|i: int| 0 <= i < head.len() && !copies(env, #[trigger] head[i]);
            assert(!copies(env, tys[i]));
        }
    }
}

/// The fields of an instance are those of the generic struct, with the type parameters replaced.
pub proof fn law_instance_fields(
    s: State,
    base: Seq<char>,
    args: Seq<TypeView>,
    name: Seq<char>,
)
    requires
        s.env.generic_struct_defs.contains_key(base),
        instance_struct(s, base, args, name).0 is Ok,
    ensures
        ({
            let decl = s.env.generic_struct_defs[base];
            let ps = param_names(decl.type_params);
            let t = instance_struct(s, base, args, name).1;
            &&& t.env.struct_fields.contains_key(name)
            &&& t.env.struct_fields[name].len() == decl.fields.len()
            &&& forall|i: int|
                0 <= i < decl.fields.len() ==> (#[trigger] t.env.struct_fields[name][i]) == (
                StructFieldView {
                    ty: subst_type(decl.fields[i].ty, ps, args),
                    ..decl.fields[i]
                })
        }),
{
    reveal(instance_struct);
    reveal(lay_out);
    reveal(declare_struct_type);
    reveal(instance_fields_spec);
}

/// A module sees what it holds itself, and so do the modules inside it; anyone sees what is public,
/// and nobody else sees the rest.
pub proof fn law_visibility(
    env: EnvView,
    caller: Seq<Seq<char>>,
    name: Seq<char>,
    field: Seq<char>,
)
    ensures
        check_path(env, caller, name) is Ok <==> inside(caller, item_place(env, name))
            || item_public(env, name),
        check_field(env, caller, name, field) is Ok <==> inside(caller, item_module(name))
            || field_public(env, name, field),
        check_literal(env, caller, name) is Ok <==> inside(caller, item_module(name))
            || !has_private_field(env, name),
{
    reveal(check_path);
    reveal(check_field);
    reveal(check_literal);
}

/// A module lies inside itself, and what lies inside a module inside another one lies inside that.
pub proof fn law_modules_nest(a: Seq<Seq<char>>, b: Seq<Seq<char>>, c: Seq<Seq<char>>)
    ensures
        inside(a, a),
        inside(a, b) && inside(b, c) ==> inside(a, c),
        inside(a, Seq::empty()),
{
    reveal(inside);
    assert(a.take(a.len() as int) =~= a);
    assert(a.take(0) =~= Seq::empty());
    if inside(a, b) && inside(b, c) {
        assert(a.take(c.len() as int) =~= a.take(b.len() as int).take(c.len() as int));
    }
}

/// A value of the type that it is converted to is kept, and so is one that has the machine type of
/// that type; nothing is compiled.
pub proof fn law_cast_to_same(s: State, v: ValView, from: TypeView, to: TypeView)
    requires
        !(from is Never),
        from == to || (!(to is Never) && lower_type(s.env, to) == Ok::<_, ErrorView>(v.ty)),
    ensures
        emit_cast(s, v, from, to) == (Ok::<ValView, ErrorView>(v), s),
{
    reveal(emit_cast);
    reveal(is_lowered_to);
}

/// A number is converted to a number only: for every other type but a pointer there is an error
/// that
/// names its kind, and nothing is compiled.
pub proof fn law_cast_refused(s: State, v: ValView, from: TypeView, to: TypeView)
    requires
        !(from is Never),
        from != to,
        v.ty is Int || v.ty is F32 || v.ty is F64,
        cast_width_spec(to) is Err,
        !(to is Ptr),
        array_to_slice_spec(from, to) is None,
        lower_type(s.env, to) != Ok::<_, ErrorView>(v.ty),
    ensures
        emit_cast(s, v, from, to) == (Err::<ValView, ErrorView>(cast_width_spec(to)->Err_0), s),
        to is ImplTrait ==> cast_width_spec(to) == Err::<u32, ErrorView>(
            err("cannot cast to impl Trait type"@),
        ),
{
    reveal(emit_cast);
    reveal(is_lowered_to);
    reveal(cast_plain);
    reveal(check_number_spec);
    reveal(cast_width_spec);
}

/// A value of the never type becomes one of any type, which is not determined.
pub proof fn law_cast_of_never(s: State, v: ValView, to: TypeView)
    requires
        lower_type(s.env, to) is Ok,
    ensures
        emit_cast(s, v, TypeView::Never, to) == (
            Ok::<ValView, ErrorView>(undef(lower_type(s.env, to)->Ok_0)),
            s,
        ),
{
    reveal(emit_cast);
}

proof fn lemma_answer_found(
    env: EnvView,
    q: FloatQuestionView,
    known: Seq<(FloatQuestionView, i64)>,
    n: i64,
    i: nat,
)
    requires
        i <= known.len(),
        find_answer_each(env, q, known, i) is None,
    ensures
        find_answer_each(env, q, known.push((q, n)), i) == Some(n),
    decreases known.len() - i,
{
    reveal(find_answer_each);
    let more = known.push((q, n));
    if i < known.len() {
        assert(more[i as int] == known[i as int]);
        lemma_answer_found(env, q, known, n, i + 1);
    } else {
        assert(more[i as int] == (q, n));
    }
}

proof fn lemma_answers_alone(
    a: EnvView,
    b: EnvView,
    q: FloatQuestionView,
    known: Seq<(FloatQuestionView, i64)>,
    i: nat,
)
    ensures
        find_answer_each(a, q, known, i) == find_answer_each(b, q, known, i),
    decreases known.len() - i,
{
    reveal(find_answer_each);
    if i < known.len() {
        lemma_answers_alone(a, b, q, known, i + 1);
    }
}

/// A question on float constants that has no answer is left, and once it is answered it has that
/// answer.
pub proof fn law_question_answered(s: State, q: FloatQuestionView, n: i64)
    requires
        find_answer(s.env, q) is None,
    ensures
        ask(s, q).0 is Err,
        ask(s, q).1 == (State { env: EnvView { pending: Some(q), ..s.env }, ..s }),
        ({
            let t = answered(s, ask(s, q).1.env.pending, n);
            ask(t, q) == (Ok::<i64, ErrorView>(n), t)
        }),
{
    reveal(ask);
    reveal(find_answer);
    let t = answered(s, ask(s, q).1.env.pending, n);
    lemma_answer_found(s.env, q, s.env.float_answers, n, 0);
    lemma_answers_alone(s.env, t.env, q, t.env.float_answers, 0);
}

proof fn lemma_distinct(s: Seq<(Seq<char>, Seq<TypeView>)>)
    ensures
        forall|i: int, j: int|
            #![trigger distinct(s)[i], distinct(s)[j]]
            0 <= i < j < distinct(s).len() ==> mangled(distinct(s)[i].0, distinct(s)[i].1)
                != mangled(distinct(s)[j].0, distinct(s)[j].1),
        forall|key: Seq<char>| #[trigger] has_instance(distinct(s), key) == has_instance(s, key),
        forall|i: int| 0 <= i < distinct(s).len() ==> s.contains(#[trigger] distinct(s)[i]),
    decreases s.len(),
{
    if s.len() > 0 {
        let t = s.drop_last();
        lemma_distinct(t);
        let d = distinct(t);
        let r = distinct(s);
        let key = mangled(s.last().0, s.last().1);
        assert forall|k: Seq<char>| #[trigger] has_instance(r, k) == has_instance(s, k) by {
            assert(has_instance(d, k) == has_instance(t, k));
            if has_instance(t, k) {
                let i = choose|i: int| 0 <= i < t.len() && mangled(
                    (#[trigger] t[i]).0,
                    t[i].1,
                ) == k;
                assert(s[i] == t[i]);
                let j = choose|j: int| 0 <= j < d.len() && mangled(
                    (#[trigger] d[j]).0,
                    d[j].1,
                ) == k;
                assert(r[j] == d[j]);
            }
            if k == key {
                assert(s[s.len() - 1] == s.last());
                if !has_instance(t, k) {
                    assert(r[r.len() - 1] == s.last());
                }
            }
            if has_instance(s, k) && k != key {
                let i = choose|i: int| 0 <= i < s.len() && mangled(
                    (#[trigger] s[i]).0,
                    s[i].1,
                ) == k;
                assert(t[i] == s[i]);
            }
            if has_instance(r, k) && k != key {
                let j = choose|j: int| 0 <= j < r.len() && mangled(
                    (#[trigger] r[j]).0,
                    r[j].1,
                ) == k;
                assert(d[j] == r[j]);
            }
        }
        assert forall|i: int| 0 <= i < r.len() implies s.contains(#[trigger] r[i]) by {
            if i < d.len() {
                assert(r[i] == d[i]);
                assert(t.contains(d[i]));
                let j = choose|j: int| 0 <= j < t.len() && t[j] == d[i];
                assert(s[j] == d[i]);
            } else {
                assert(s[s.len() - 1] == r[i]);
            }
        }
        assert forall|i: int, j: int| #![trigger r[i], r[j]] 0 <= i < j < r.len() implies mangled(
            r[i].0,
            r[i].1,
        ) != mangled(r[j].0, r[j].1) by {
            assert(r[i] == d[i]);
            if j < d.len() {
                assert(r[j] == d[j]);
            } else {
                assert(has_instance(d, mangled(d[i].0, d[i].1)));
            }
        }
    }
}

/// The instances that a program needs are each found once: no two have the same mangled name.
pub proof fn law_instances_found_once(p: ProgramView, i: int, j: int)
    requires
        0 <= i < j < program_instances(p).len(),
    ensures
        mangled(program_instances(p)[i].0, program_instances(p)[i].1) != mangled(
            program_instances(p)[j].0,
            program_instances(p)[j].1,
        ),
{
    lemma_distinct(named_program(p) + enum_lits_program(p, one_param_enums(p.enums)));
}

/// Where there are no type parameters, a type stays as it is.
pub proof fn law_no_parameters(t: TypeView, tys: Seq<TypeView>)
    ensures
        subst_type(t, Seq::empty(), tys) == t,
    decreases t, 1int,
{
    reveal(subst_type);
    reveal(subst_type_seq);
    reveal(subst_trait_bound);
    reveal(subst_trait_bound_seq);
    match t {
        TypeView::Tuple(ts) => lemma_no_parameters(ts, tys),
        TypeView::Ptr { inner, .. } => law_no_parameters(*inner, tys),
        TypeView::Ref { inner, .. } => law_no_parameters(*inner, tys),
        TypeView::Array { inner, .. } => law_no_parameters(*inner, tys),
        TypeView::GenericArray { inner, .. } => law_no_parameters(*inner, tys),
        TypeView::Slice { inner } => law_no_parameters(*inner, tys),
        TypeView::GenericInstance(_, ts) => lemma_no_parameters(ts, tys),
        TypeView::Alias(_, ts) => lemma_no_parameters(ts, tys),
        TypeView::ImplTrait(bs) => lemma_no_parameters_in_bounds(bs, tys),
        _ => {},
    }
}

proof fn lemma_no_parameters(ts: Seq<TypeView>, tys: Seq<TypeView>)
    ensures
        subst_type_seq(ts, Seq::empty(), tys) == ts,
    decreases ts,
{
    reveal(subst_type);
    reveal(subst_type_seq);
    reveal(subst_trait_bound);
    reveal(subst_trait_bound_seq);
    if ts.len() > 0 {
        lemma_no_parameters(ts.drop_last(), tys);
        law_no_parameters(ts.last(), tys);
        assert(ts.drop_last().push(ts.last()) =~= ts);
    } else {
        assert(ts =~= Seq::empty());
    }
}

proof fn lemma_no_parameters_in_bounds(
    bs: Seq<crate::model::TraitBoundView>,
    tys: Seq<TypeView>,
)
    ensures
        subst_trait_bound_seq(bs, Seq::empty(), tys) == bs,
    decreases bs,
{
    reveal(subst_type);
    reveal(subst_type_seq);
    reveal(subst_trait_bound);
    reveal(subst_trait_bound_seq);
    if bs.len() > 0 {
        lemma_no_parameters_in_bounds(bs.drop_last(), tys);
        lemma_no_parameters(bs.last().generic_args, tys);
        assert(bs.drop_last().push(bs.last()) =~= bs);
    } else {
        assert(bs =~= Seq::empty());
    }
}

/// Where there are no type parameters, code stays as it is.
pub proof fn law_code_without_parameters(b: BlockView, tys: Seq<TypeView>)
    ensures
        subst_block(b, Seq::empty(), tys) == b,
{
    lemma_same_block(b, tys);
}

proof fn lemma_no_owner(name: Seq<char>, tys: Seq<TypeView>)
    ensures
        subst_owner(name, Seq::empty(), tys) == name,
{
    reveal(subst_owner);
}

proof fn lemma_no_struct_name(name: Seq<char>, tys: Seq<TypeView>)
    ensures
        subst_struct_name(name, Seq::empty(), tys) == name,
{
    reveal(subst_struct_name);
}

proof fn lemma_same_expr(x: ExprView, tys: Seq<TypeView>)
    ensures
        subst_expr(x, Seq::empty(), tys) == x,
    decreases x,
{
    reveal(subst_expr);
    reveal(subst_block);
    reveal(subst_stmt);
    reveal(subst_match_arm);
    reveal(subst_expr_seq);
    reveal(subst_string_expr_seq);
    reveal(subst_expr_block_seq);
    reveal(subst_match_arm_seq);
    reveal(subst_stmt_seq);
    match x {
        ExprView::Call { args, type_args, .. } => {
            lemma_same_expr_seq(args, tys);
            lemma_no_parameters(type_args, tys);
        },
        ExprView::QualifiedCall { module, args, type_args, .. } => {
            lemma_no_owner(module, tys);
            lemma_same_expr_seq(args, tys);
            lemma_no_parameters(type_args, tys);
        },
        ExprView::Binary { lhs, rhs, .. } => {
            lemma_same_expr(*lhs, tys);
            lemma_same_expr(*rhs, tys);
        },
        ExprView::Assign { target, value, .. } => {
            lemma_same_expr(*target, tys);
            lemma_same_expr(*value, tys);
        },
        ExprView::Ref { expr, .. } => {
            lemma_same_expr(*expr, tys);
        },
        ExprView::UnaryNot(x0, _) => {
            lemma_same_expr(*x0, tys);
        },
        ExprView::UnaryMinus(x0, _) => {
            lemma_same_expr(*x0, tys);
        },
        ExprView::Deref(x0, _) => {
            lemma_same_expr(*x0, tys);
        },
        ExprView::Cast { expr, to_type, .. } => {
            lemma_same_expr(*expr, tys);
            law_no_parameters(to_type, tys);
        },
        ExprView::Tuple(x0, _) => {
            lemma_same_expr_seq(x0, tys);
        },
        ExprView::Member { expr, .. } => {
            lemma_same_expr(*expr, tys);
        },
        ExprView::MethodCall { expr, args, type_args, .. } => {
            lemma_same_expr(*expr, tys);
            lemma_same_expr_seq(args, tys);
            lemma_no_parameters(type_args, tys);
        },
        ExprView::StructLit { struct_name, fields, .. } => {
            lemma_no_struct_name(struct_name, tys);
            lemma_same_string_expr_seq(fields, tys);
        },
        ExprView::EnumLit { enum_name, payload, .. } => {
            lemma_no_owner(enum_name, tys);
            if let Some(y) = payload {
                lemma_same_expr(*y, tys);
            }
        },
        ExprView::If { cond, then_block, else_ifs, else_block, .. } => {
            lemma_same_expr(*cond, tys);
            lemma_same_block(then_block, tys);
            lemma_same_expr_block_seq(else_ifs, tys);
            if let Some(y) = else_block {
                lemma_same_block(y, tys);
            }
        },
        ExprView::Loop { body, .. } => {
            lemma_same_block(body, tys);
        },
        ExprView::While { cond, body, .. } => {
            lemma_same_expr(*cond, tys);
            lemma_same_block(body, tys);
        },
        ExprView::For { container, body, .. } => {
            lemma_same_expr(*container, tys);
            lemma_same_block(body, tys);
        },
        ExprView::Array(x0, _) => {
            lemma_same_expr_seq(x0, tys);
        },
        ExprView::Repeat(x0, _, _) => {
            lemma_same_expr(*x0, tys);
        },
        ExprView::Index { array, index, .. } => {
            lemma_same_expr(*array, tys);
            lemma_same_expr(*index, tys);
        },
        ExprView::IfLet { scrutinee, then_block, else_block, .. } => {
            lemma_same_expr(*scrutinee, tys);
            lemma_same_block(then_block, tys);
            if let Some(y) = else_block {
                lemma_same_block(y, tys);
            }
        },
        ExprView::Match { scrutinee, arms, .. } => {
            lemma_same_expr(*scrutinee, tys);
            lemma_same_match_arm_seq(arms, tys);
        },
        ExprView::Block(x0, _) => {
            lemma_same_block(x0, tys);
        },
        _ => {},
    }
}

proof fn lemma_same_stmt(x: StmtView, tys: Seq<TypeView>)
    ensures
        subst_stmt(x, Seq::empty(), tys) == x,
    decreases x,
{
    reveal(subst_expr);
    reveal(subst_block);
    reveal(subst_stmt);
    reveal(subst_match_arm);
    reveal(subst_expr_seq);
    reveal(subst_string_expr_seq);
    reveal(subst_expr_block_seq);
    reveal(subst_match_arm_seq);
    reveal(subst_stmt_seq);
    match x {
        StmtView::Let { type_ann, init, else_block, .. } => {
            lemma_same_expr(init, tys);
            if let Some(y) = type_ann {
                law_no_parameters(y, tys);
            }
            if let Some(y) = else_block {
                lemma_same_block(y, tys);
            }
        },
        StmtView::Const { type_ann, init, .. } => {
            lemma_same_expr(init, tys);
            if let Some(y) = type_ann {
                law_no_parameters(y, tys);
            }
        },
        StmtView::Expr(x0) => {
            lemma_same_expr(x0, tys);
        },
        StmtView::Return { value, .. } => {
            if let Some(y) = value {
                lemma_same_expr(*y, tys);
            }
        },
        StmtView::Break { value, .. } => {
            if let Some(y) = value {
                lemma_same_expr(*y, tys);
            }
        },
        _ => {},
    }
}

proof fn lemma_same_block(x: BlockView, tys: Seq<TypeView>)
    ensures
        subst_block(x, Seq::empty(), tys) == x,
    decreases x,
{
    reveal(subst_expr);
    reveal(subst_block);
    reveal(subst_stmt);
    reveal(subst_match_arm);
    reveal(subst_expr_seq);
    reveal(subst_string_expr_seq);
    reveal(subst_expr_block_seq);
    reveal(subst_match_arm_seq);
    reveal(subst_stmt_seq);
    lemma_same_stmt_seq(x.stmts, tys);
    if let Some(y) = x.tail_expr {
        lemma_same_expr(*y, tys);
    }
}

proof fn lemma_same_match_arm(x: MatchArmView, tys: Seq<TypeView>)
    ensures
        subst_match_arm(x, Seq::empty(), tys) == x,
    decreases x,
{
    reveal(subst_expr);
    reveal(subst_block);
    reveal(subst_stmt);
    reveal(subst_match_arm);
    reveal(subst_expr_seq);
    reveal(subst_string_expr_seq);
    reveal(subst_expr_block_seq);
    reveal(subst_match_arm_seq);
    reveal(subst_stmt_seq);
    lemma_same_block(x.body, tys);
    if let Some(y) = x.guard {
        lemma_same_expr(*y, tys);
    }
}

proof fn lemma_same_expr_seq(s: Seq<ExprView>, tys: Seq<TypeView>)
    ensures
        subst_expr_seq(s, Seq::empty(), tys) == s,
    decreases s,
{
    reveal(subst_expr);
    reveal(subst_block);
    reveal(subst_stmt);
    reveal(subst_match_arm);
    reveal(subst_expr_seq);
    reveal(subst_string_expr_seq);
    reveal(subst_expr_block_seq);
    reveal(subst_match_arm_seq);
    reveal(subst_stmt_seq);
    let r = subst_expr_seq(s, Seq::empty(), tys);
    assert forall|i: int| 0 <= i < s.len() implies #[trigger] r[i] == s[i] by {
        lemma_same_expr(s[i], tys);
    }
    assert(r =~= s);
}

proof fn lemma_same_string_expr_seq(s: Seq<(Seq<char>, ExprView)>, tys: Seq<TypeView>)
    ensures
        subst_string_expr_seq(s, Seq::empty(), tys) == s,
    decreases s,
{
    reveal(subst_expr);
    reveal(subst_block);
    reveal(subst_stmt);
    reveal(subst_match_arm);
    reveal(subst_expr_seq);
    reveal(subst_string_expr_seq);
    reveal(subst_expr_block_seq);
    reveal(subst_match_arm_seq);
    reveal(subst_stmt_seq);
    let r = subst_string_expr_seq(s, Seq::empty(), tys);
    assert forall|i: int| 0 <= i < s.len() implies #[trigger] r[i] == s[i] by {
        lemma_same_expr(s[i].1, tys);
    }
    assert(r =~= s);
}

proof fn lemma_same_expr_block_seq(s: Seq<(ExprView, BlockView)>, tys: Seq<TypeView>)
    ensures
        subst_expr_block_seq(s, Seq::empty(), tys) == s,
    decreases s,
{
    reveal(subst_expr);
    reveal(subst_block);
    reveal(subst_stmt);
    reveal(subst_match_arm);
    reveal(subst_expr_seq);
    reveal(subst_string_expr_seq);
    reveal(subst_expr_block_seq);
    reveal(subst_match_arm_seq);
    reveal(subst_stmt_seq);
    let r = subst_expr_block_seq(s, Seq::empty(), tys);
    assert forall|i: int| 0 <= i < s.len() implies #[trigger] r[i] == s[i] by {
        lemma_same_expr(s[i].0, tys);
        lemma_same_block(s[i].1, tys);
    }
    assert(r =~= s);
}

proof fn lemma_same_match_arm_seq(s: Seq<MatchArmView>, tys: Seq<TypeView>)
    ensures
        subst_match_arm_seq(s, Seq::empty(), tys) == s,
    decreases s,
{
    reveal(subst_expr);
    reveal(subst_block);
    reveal(subst_stmt);
    reveal(subst_match_arm);
    reveal(subst_expr_seq);
    reveal(subst_string_expr_seq);
    reveal(subst_expr_block_seq);
    reveal(subst_match_arm_seq);
    reveal(subst_stmt_seq);
    let r = subst_match_arm_seq(s, Seq::empty(), tys);
    assert forall|i: int| 0 <= i < s.len() implies #[trigger] r[i] == s[i] by {
        lemma_same_match_arm(s[i], tys);
    }
    assert(r =~= s);
}

proof fn lemma_same_stmt_seq(s: Seq<StmtView>, tys: Seq<TypeView>)
    ensures
        subst_stmt_seq(s, Seq::empty(), tys) == s,
    decreases s,
{
    reveal(subst_expr);
    reveal(subst_block);
    reveal(subst_stmt);
    reveal(subst_match_arm);
    reveal(subst_expr_seq);
    reveal(subst_string_expr_seq);
    reveal(subst_expr_block_seq);
    reveal(subst_match_arm_seq);
    reveal(subst_stmt_seq);
    let r = subst_stmt_seq(s, Seq::empty(), tys);
    assert forall|i: int| 0 <= i < s.len() implies #[trigger] r[i] == s[i] by {
        lemma_same_stmt(s[i], tys);
    }
    assert(r =~= s);
}

/// A type parameter is replaced by the type at its place.
pub proof fn law_parameter_replaced(ps: Seq<Seq<char>>, tys: Seq<TypeView>, i: int)
    requires
        0 <= i < ps.len(),
        i < tys.len(),
        ps.no_duplicates(),
    ensures
        subst_type(TypeView::Struct(ps[i]), ps, tys) == tys[i],
{
    reveal(subst_type);
    lemma_place_of(ps, i);
}

proof fn lemma_place_of(ps: Seq<Seq<char>>, i: int)
    requires
        0 <= i < ps.len(),
        ps.no_duplicates(),
    ensures
        position(ps, ps[i]) == Some(i),
    decreases ps.len(),
{
    if i > 0 {
        let rest = ps.drop_first();
        assert forall|a: int, b: int| 0 <= a < b < rest.len() implies rest[a] != rest[b] by {
            assert(rest[a] == ps[a + 1] && rest[b] == ps[b + 1]);
        }
        assert(rest[i - 1] == ps[i]);
        lemma_place_of(rest, i - 1);
    }
}

proof fn lemma_escaped_first(name: Seq<char>)
    requires
        name.len() > 0,
    ensures
        escaped(name) == name_char(name[0]) + escaped(name.drop_first()),
    decreases name.len(),
{
    if name.len() == 1 {
        assert(name.drop_last() =~= Seq::empty());
        assert(name.drop_first() =~= Seq::empty());
        assert(escaped(name) =~= name_char(name[0]) + escaped(name.drop_first()));
    } else {
        let init = name.drop_last();
        let rest = name.drop_first();
        lemma_escaped_first(init);
        assert(init.drop_first() =~= rest.drop_last());
        assert(rest.last() == name.last());
        assert(escaped(name) =~= name_char(name[0]) + escaped(rest));
    }
}

/// Different names are written differently.
pub proof fn law_names_stay_apart(a: Seq<char>, b: Seq<char>)
    requires
        escaped(a) == escaped(b),
    ensures
        a == b,
    decreases a.len(),
{
    reveal_strlit("\\22");
    reveal_strlit("\\5C");
    if a.len() == 0 || b.len() == 0 {
        if a.len() > 0 {
            lemma_escaped_first(a);
            assert(escaped(a).len() > 0);
        }
        if b.len() > 0 {
            lemma_escaped_first(b);
            assert(escaped(b).len() > 0);
        }
        assert(a =~= b);
    } else {
        lemma_escaped_first(a);
        lemma_escaped_first(b);
        let (x, y) = (name_char(a[0]), name_char(b[0]));
        let (p, q) = (escaped(a.drop_first()), escaped(b.drop_first()));
        assert((x + p)[0] == (y + q)[0]);
        assert(x[0] == y[0]);
        if x.len() == 3 && y.len() == 3 {
            assert((x + p)[1] == (y + q)[1]);
            assert(x[1] == y[1]);
        }
        assert(a[0] == b[0]);
        assert(p =~= (x + p).skip(x.len() as int));
        assert(q =~= (y + q).skip(y.len() as int));
        law_names_stay_apart(a.drop_first(), b.drop_first());
        assert(a =~= seq![a[0]] + a.drop_first());
        assert(b =~= seq![b[0]] + b.drop_first());
    }
}

proof fn lemma_more_lines(source: Seq<char>, n: int, a: nat, b: nat)
    requires
        a <= b,
    ensures
        line_ends(source, n, a) <= line_ends(source, n, b),
    decreases n,
{
    if n > 0 {
        lemma_more_lines(source, n - 1, a, b);
    }
}

proof fn lemma_no_lines(source: Seq<char>, n: int)
    ensures
        line_ends(source, n, 0) == 0,
    decreases n,
{
    if n > 0 {
        lemma_no_lines(source, n - 1);
    }
}

/// A source starts in its first line, and a place further on is in the same line or a later one.
pub proof fn law_lines(source: Seq<char>, a: nat, b: nat)
    ensures
        line_of(source, 0) == 1,
        a <= b ==> line_of(source, a) <= line_of(source, b),
{
    lemma_no_lines(source, source.len() as int);
    if a <= b {
        lemma_more_lines(source, source.len() as int, a, b);
    }
}

proof fn lemma_index_of(s: Seq<char>, c: char, from: int, n: int)
    requires
        0 <= from <= n < s.len(),
        s[n] == c,
        forall|i: int| from <= i < n ==> #[trigger] s[i] != c,
    ensures
        index_of(s, c, from) == n,
    decreases n - from,
{
    if from < n {
        lemma_index_of(s, c, from + 1, n);
    }
}

proof fn lemma_last_of_char(s: Seq<char>, c: char, n: int, end: int)
    requires
        0 <= n < end <= s.len(),
        s[n] == c,
        forall|i: int| n < i < end ==> #[trigger] s[i] != c,
    ensures
        last_of_char(s, c, end) == n,
    decreases end,
{
    if n < end - 1 {
        lemma_last_of_char(s, c, n, end - 1);
    }
}

proof fn lemma_path_start_range(s: Seq<char>, from: int)
    requires
        0 <= from <= s.len(),
    ensures
        from <= path_start(s, from) <= s.len(),
    decreases s.len() - from,
{
    if from + 1 < s.len() && !(s[from] == ':' && s[from + 1] == ':') {
        lemma_path_start_range(s, from + 1);
    }
}

proof fn lemma_path_start_within(a: Seq<char>, b: Seq<char>, from: int)
    requires
        0 <= from <= b.len(),
    ensures
        path_start(a + b, a.len() + from) == a.len() + path_start(b, from),
    decreases b.len() - from,
{
    if from + 1 < b.len() {
        assert((a + b)[a.len() + from] == b[from]);
        assert((a + b)[a.len() + from + 1] == b[from + 1]);
        if !(b[from] == ':' && b[from + 1] == ':') {
            lemma_path_start_within(a, b, from + 1);
        }
    }
}

proof fn lemma_path_start_behind(a: Seq<char>, b: Seq<char>, from: int)
    requires
        0 <= from <= a.len(),
        forall|i: int| 0 <= i < a.len() ==> #[trigger] a[i] != ':',
    ensures
        path_start(a + b, from) == a.len() + path_start(b, 0),
    decreases a.len() - from,
{
    if from < a.len() {
        assert((a + b)[from] == a[from]);
        lemma_path_start_behind(a, b, from + 1);
        if from + 1 >= (a + b).len() {
            assert(b.len() == 0);
        }
    } else {
        lemma_path_start_within(a, b, 0);
    }
}

/// A method of a trait stands in the module of the type it belongs to, whatever underscores its
/// own name holds: its name is read so where neither the name of the trait nor the first segment
/// of the path to the type holds one.
pub proof fn law_trait_method_name(t: Seq<char>, m: Seq<char>, owner: Seq<char>)
    requires
        forall|i: int| 0 <= i < t.len() ==> #[trigger] t[i] != '_',
        forall|i: int| 0 <= i < m.len() ==> #[trigger] m[i] != ':',
        forall|i: int| 0 <= i < path_start(owner, 0) ==> #[trigger] owner[i] != '_',
    ensures
        without_trait_prefix("__trait_"@ + t + "_"@ + m + "_"@ + owner) == owner,
        item_module("__trait_"@ + t + "_"@ + m + "_"@ + owner) == item_module(owner),
{
    reveal_strlit("__trait_");
    reveal_strlit("_");
    let prefix = "__trait_"@;
    let name = prefix + t + "_"@ + m + "_"@ + owner;
    let rest = t + "_"@ + m + "_"@ + owner;
    let front = m + "_"@;
    let tail = front + owner;
    assert(name.take(prefix.len() as int) =~= prefix);
    assert(name.skip(prefix.len() as int) =~= rest);
    assert(rest[t.len() as int] == '_');
    assert forall|i: int| 0 <= i < t.len() implies #[trigger] rest[i] != '_' by {
        assert(rest[i] == t[i]);
    }
    lemma_index_of(rest, '_', 0, t.len() as int);
    assert(rest.skip(t.len() as int + 1) =~= tail);
    assert forall|i: int| 0 <= i < front.len() implies #[trigger] front[i] != ':' by {
        if i < m.len() {
            assert(front[i] == m[i]);
        }
    }
    lemma_path_start_behind(front, owner, 0);
    lemma_path_start_range(owner, 0);
    let end = front.len() + path_start(owner, 0);
    assert(tail[m.len() as int] == '_');
    assert forall|i: int| m.len() < i < end implies #[trigger] tail[i] != '_' by {
        assert(tail[i] == owner[i - front.len()]);
    }
    lemma_last_of_char(tail, '_', m.len() as int, end);
    assert(tail.skip(m.len() as int + 1) =~= owner);
    assert(without_trait_prefix(owner) == owner) by {
        if starts_with(owner, prefix) {
            assert(owner[0] == owner.take(prefix.len() as int)[0]);
            assert(owner[1] == owner.take(prefix.len() as int)[1]);
            lemma_path_start_range(owner, 1);
            assert(path_start(owner, 0) > 0);
        }
    }
    reveal(item_module);
}

proof fn lemma_shown_owner(
    s: State,
    methods: Seq<FunctionView>,
    trait_name: Seq<char>,
    owner: Seq<char>,
    i: nat,
    symbol: Seq<char>,
)
    requires
        s.env.item_owners.contains_key(symbol),
        s.env.item_owners[symbol] == owner,
    ensures
        ({
            let env = show_methods_each(s, methods, Some(trait_name), owner, i).env;
            env.item_owners.contains_key(symbol) && env.item_owners[symbol] == owner
        }),
    decreases methods.len() - i,
{
    reveal(show_methods_each);
    reveal(note_owner);
    if i < methods.len() {
        let m = methods[i as int];
        let made = method_symbol_spec(Some(trait_name), owner, m.name, m.params.len() as usize);
        let t = note_owner(s, made, Some(trait_name), owner);
        let t = State {
            env: EnvView { visibility: t.env.visibility.insert(made, m.is_pub), ..t.env },
            ..t
        };
        lemma_shown_owner(t, methods, trait_name, owner, i + 1, symbol);
    }
}

proof fn lemma_shown_from(
    s: State,
    methods: Seq<FunctionView>,
    trait_name: Seq<char>,
    owner: Seq<char>,
    i: nat,
    n: int,
)
    requires
        i <= n < methods.len(),
    ensures
        ({
            let env = show_methods_each(s, methods, Some(trait_name), owner, i).env;
            let symbol = method_symbol_spec(
                Some(trait_name),
                owner,
                methods[n].name,
                methods[n].params.len() as usize,
            );
            env.item_owners.contains_key(symbol) && env.item_owners[symbol] == owner
        }),
    decreases methods.len() - i,
{
    reveal(show_methods_each);
    reveal(note_owner);
    let m = methods[i as int];
    let made = method_symbol_spec(Some(trait_name), owner, m.name, m.params.len() as usize);
    let t = note_owner(s, made, Some(trait_name), owner);
    let t = State {
        env: EnvView { visibility: t.env.visibility.insert(made, m.is_pub), ..t.env },
        ..t
    };
    if i < n {
        lemma_shown_from(t, methods, trait_name, owner, i + 1, n);
    } else {
        lemma_shown_owner(t, methods, trait_name, owner, i + 1, made);
    }
}

/// Once the methods that a type has by a trait are known, each of them stands in the module of the
/// type, whatever the names hold.
pub proof fn law_trait_method_place(
    s: State,
    methods: Seq<FunctionView>,
    trait_name: Seq<char>,
    owner: Seq<char>,
    n: int,
)
    requires
        0 <= n < methods.len(),
    ensures
        item_place(
            show_methods(s, methods, Some(trait_name), owner).env,
            method_symbol_spec(
                Some(trait_name),
                owner,
                methods[n].name,
                methods[n].params.len() as usize,
            ),
        ) == item_module(owner),
{
    reveal(show_methods);
    lemma_shown_from(s, methods, trait_name, owner, 0, n);
}

/// A new generator has declared nothing twice and returns nothing of a wrong type; what keeps both
/// can go on from there.
pub proof fn law_well_begun(source: Seq<char>, path: Seq<char>)
    ensures
        well_listed(State::empty(source, path)),
        well_returned(State::empty(source, path).out),
{
    reveal(listed);
    reveal(within);
    reveal(well_returned);
    reveal(typed_blocks);
}

/// A value that finished code returns has the machine type that is declared for the result of its
/// function; a function that returns nothing has no declared result.
pub proof fn law_returns_fit(out: OutView, name: Seq<char>, b: int, i: int)
    requires
        well_returned(out),
        out.bodies.contains_key(name),
        0 <= b < out.bodies[name].len(),
        0 <= i < out.bodies[name][b].insts.len(),
    ensures
        match out.bodies[name][b].insts[i] {
            InstView::Ret(Some(v)) => out.decls.contains_key(name) && out.decls[name].ret == Some(
                v.ty,
            ),
            InstView::Ret(None) => out.decls.contains_key(name) && out.decls[name].ret is None,
            _ => true,
        },
{
    reveal(well_returned);
    reveal(typed_blocks);
    assert(fits(at(out.decls, name), out.bodies[name][b].insts[i]));
}

} // verus!
