//! What holds of operators when they run.
use crate::ast::BinOp;
use crate::builder::{call, cast, emit_value, int_const, int_test, spill};
use crate::builtins::two_pointers_spec;
use crate::cast_laws::{float_type, integer_type, lemma_ranges, number};
use crate::exprs::apply_operator;
use crate::growth::extended;
use crate::ir::{CastKind, InstView, LTyView, ValView};
use crate::machine::{Frame, Machine, Word, as_signed, bit, range, read, value, values, wrapped};
use crate::method_laws::{
    answers, arithmetic, calls_compiled, compiled_as, equal_words, is_arithmetic, methods_work,
    operator_method, order_word, ordering, pair_works, value_of_type,
};
use crate::model::TypeView;
use crate::names::{primitive_name, type_key};
use crate::operators::{
    bits_of_spec, builtin_fn_spec, call_order, compare_by_trait, compile_trait_arithmetic,
    compile_trait_comparison, operator_fn, operator_trait_spec, order_test_spec, promote,
    type_key_or_fail_spec,
};
use crate::query::{lower_type, machine_type};
use crate::running::{
    countable, goes, known, lemma_call, lemma_countable, lemma_emit_any, lemma_extended,
    lemma_goes_refl, lemma_goes_trans, lemma_known, lemma_plain, lemma_spill, lemma_value,
    same_rest, writable,
};
use crate::scopes::{call_fitted, fit_arg, fit_args, fit_args_each};
use crate::state::{ErrorView, State};
use vstd::prelude::*;

verus! {

/// The type that two operands have in common: that of more bits, or the first one.
pub open spec fn common_type(ta: TypeView, tb: TypeView) -> TypeView {
    match (integer_type(ta), integer_type(tb)) {
        (Some(a), Some(b)) => if b.0 > a.0 {
            tb
        } else {
            ta
        },
        _ => ta,
    }
}

/// What a comparison says of two values of a primitive type.
pub open spec fn comparison(m: Machine, op: BinOp, ty: TypeView, a: Word, b: Word) -> bool {
    let c = ordering(m, ty, a, b);
    match op {
        BinOp::Eq => equal_words(m, a, b),
        BinOp::Neq => !equal_words(m, a, b),
        BinOp::Lt => c < 0,
        BinOp::Gt => c > 0,
        BinOp::Le => c <= 0,
        BinOp::Ge => c >= 0,
        _ => false,
    }
}

proof fn lemma_fitted_from(
    s: State,
    tys: Seq<LTyView>,
    args: Seq<ValView>,
    out: Seq<ValView>,
    i: nat,
)
    requires
        tys.len() == args.len(),
        tys.len() <= usize::MAX,
        i <= args.len(),
        out == args.take(i as int),
        forall|j: int| 0 <= j < args.len() ==> (#[trigger] args[j]).ty == tys[j],
    ensures
        fit_args_each(s, tys, false, args, out, i) == (
            Ok::<Seq<ValView>, ErrorView>(args),
            s,
        ),
    decreases args.len() - i,
{
    reveal(fit_args_each);
    reveal(fit_arg);
    if i < args.len() {
        assert(args.take(i as int + 1) =~= out.push(args[i as int]));
        lemma_fitted_from(s, tys, args, out.push(args[i as int]), i + 1);
    } else {
        assert(args.take(i as int) =~= args);
    }
}

/// Arguments of the declared types are passed as they are.
pub proof fn lemma_fitted(s: State, f: Seq<char>, args: Seq<ValView>)
    requires
        s.out.decls.contains_key(f),
        s.out.decls[f].params.len() == args.len(),
        args.len() <= usize::MAX,
        !s.out.decls[f].variadic,
        forall|j: int|
            0 <= j < args.len() ==> (#[trigger] args[j]).ty == s.out.decls[f].params[j],
    ensures
        call_fitted(s, f, args) == (
            Ok::<ValView, ErrorView>(call(s, f, args).0),
            call(s, f, args).1,
        ),
{
    reveal(call_fitted);
    reveal(fit_args);
    assert(args.take(0) =~= Seq::empty());
    lemma_fitted_from(s, s.out.decls[f].params, args, Seq::empty(), 0);
}

/// Building a call only adds to the code.
pub proof fn lemma_call_adds(s: State, f: Seq<char>, args: Seq<ValView>)
    ensures
        extended(s.out.cur, call(s, f, args).1.out.cur),
        same_rest(s, call(s, f, args).1),
{
    reveal(call);
    lemma_emit_any(s, InstView::Call(f, args));
    reveal(extended);
}

/// Building an instruction only adds to the code.
pub proof fn lemma_adds(s: State, inst: InstView, ty: LTyView)
    ensures
        extended(s.out.cur, emit_value(s, inst, ty).1.out.cur),
        same_rest(s, emit_value(s, inst, ty).1),
{
    reveal(emit_value);
    lemma_emit_any(s, inst);
    reveal(extended);
}

/// Building room on the stack only adds to the code.
pub proof fn lemma_spill_adds(s: State, ty: LTyView, v: ValView)
    ensures
        extended(s.out.cur, spill(s, ty, v).1.out.cur),
        same_rest(s, spill(s, ty, v).1),
        spill(s, ty, v).0.ty == LTyView::Ptr,
{
    reveal(spill);
    reveal(crate::builder::alloca);
    reveal(crate::builder::store);
    lemma_adds(s, InstView::Alloca(ty), LTyView::Ptr);
    let (p, s1) = crate::builder::alloca(s, ty);
    reveal(emit_value);
    lemma_emit_any(s1, InstView::Store(v, p));
    let t = crate::builder::store(s1, v, p);
    lemma_extended(s.out.cur, s1.out.cur, t.out.cur);
    reveal(extended);
}

/// Two operands with one width.
proof fn lemma_promote(
    m: Machine,
    s: State,
    a: ValView,
    b: ValView,
    ta: TypeView,
    tb: TypeView,
    x: Word,
    y: Word,
    f: Frame,
) -> (g: Frame)
    requires
        writable(s.out.cur),
        countable(promote(s, a, b, ta, tb).1.out.cur),
        known(s.out.cur, a),
        known(s.out.cur, b),
        machine_type(s.env, ta) == Some(a.ty),
        machine_type(s.env, tb) == Some(b.ty),
        value(m, f, a) == x,
        value(m, f, b) == y,
        value_of_type(ta, x),
        value_of_type(tb, y),
        float_type(ta) is Some || float_type(tb) is Some ==> ta == tb,
    ensures
        ({
            let ((p, q, ty), t) = promote(s, a, b, ta, tb);
            &&& goes(m, s.out.cur, t.out.cur, f, g)
            &&& same_rest(s, t)
            &&& g.mem == f.mem
            &&& ty == common_type(ta, tb)
            &&& known(t.out.cur, p)
            &&& known(t.out.cur, q)
            &&& value(m, g, p) == x
            &&& value(m, g, q) == y
            &&& machine_type(s.env, ty) == Some(p.ty)
            &&& p.ty == q.ty
            &&& value_of_type(ty, x)
            &&& value_of_type(ty, y)
        }),
{
    reveal(promote);
    reveal(bits_of_spec);
    reveal(machine_type);
    lemma_ranges();
    lemma_goes_refl(m, s.out.cur, f);
    match (integer_type(ta), integer_type(tb)) {
        (Some(i), Some(j)) => {
            if i.0 > j.0 {
                reveal(cast);
                let (c, t) = cast(s, CastKind::ZeroExt, b, a.ty);
                let g = lemma_plain(m, s, InstView::Cast(CastKind::ZeroExt, b, a.ty), a.ty, f);
                lemma_known(s.out.cur, t.out.cur, a);
                lemma_value(m, s.out.cur, f, g, a);
                g
            } else if j.0 > i.0 {
                reveal(cast);
                let (c, t) = cast(s, CastKind::ZeroExt, a, b.ty);
                let g = lemma_plain(m, s, InstView::Cast(CastKind::ZeroExt, a, b.ty), b.ty, f);
                lemma_known(s.out.cur, t.out.cur, b);
                lemma_value(m, s.out.cur, f, g, b);
                g
            } else {
                f
            }
        },
        _ => f,
    }
}

/// A call of a compiled method on two values that were put on the stack.
proof fn lemma_pair_call(
    m: Machine,
    s: State,
    f: Seq<char>,
    ty: TypeView,
    lty: LTyView,
    says: spec_fn(Word, Word) -> Word,
    pa: ValView,
    pb: ValView,
    x: Word,
    y: Word,
    g: Frame,
) -> (h: Frame)
    requires
        writable(s.out.cur),
        countable(call_fitted(s, f, seq![pa, pb]).1.out.cur),
        calls_compiled(m, s.out),
        pair_works(m, s.out, ty, lty, f, says),
        pa.ty == LTyView::Ptr,
        pb.ty == LTyView::Ptr,
        read(g.mem, value(m, g, pa)) == x,
        read(g.mem, value(m, g, pb)) == y,
        value_of_type(ty, x),
        value_of_type(ty, y),
    ensures
        ({
            let (r, t) = call_fitted(s, f, seq![pa, pb]);
            &&& r is Ok
            &&& goes(m, s.out.cur, t.out.cur, g, h)
            &&& same_rest(s, t)
            &&& known(t.out.cur, r->Ok_0)
            &&& r->Ok_0.ty == lty
            &&& value(m, h, r->Ok_0) == says(x, y)
            &&& h.mem == g.mem
        }),
{
    reveal(two_pointers_spec);
    let args = seq![pa, pb];
    lemma_fitted(s, f, args);
    let p = value(m, g, pa);
    let q = value(m, g, pb);
    let words = values(m, g, args);
    assert(words =~= seq![p, q]);
    assert(answers(m, s.out.bodies[f], seq![p, q], g.mem, says(x, y), g.mem));
    assert((m.calls)(f, words, g.mem) == (says(x, y), g.mem));
    lemma_call(m, s, f, args, g)
}

/// An arithmetic operator on two numbers gives their sum, difference, product or quotient in the
/// type that they have in common.
pub proof fn law_arithmetic_operator(
    m: Machine,
    s: State,
    op: BinOp,
    ta: TypeView,
    tb: TypeView,
    a: ValView,
    b: ValView,
    x: Word,
    y: Word,
    f: Frame,
) -> (g: Frame)
    requires
        writable(s.out.cur),
        countable(apply_operator(s, op, ta, tb, a, b).1.out.cur),
        known(s.out.cur, a),
        known(s.out.cur, b),
        machine_type(s.env, ta) == Some(a.ty),
        machine_type(s.env, tb) == Some(b.ty),
        value(m, f, a) == x,
        value(m, f, b) == y,
        value_of_type(ta, x),
        value_of_type(tb, y),
        float_type(ta) is Some || float_type(tb) is Some ==> ta == tb,
        is_arithmetic(op),
        !(common_type(ta, tb) is Bool),
        calls_compiled(m, s.out),
        methods_work(
            m,
            s.out,
            common_type(ta, tb),
            machine_type(s.env, common_type(ta, tb))->Some_0,
            type_key(common_type(ta, tb))->Some_0,
        ),
    ensures
        ({
            let ty = common_type(ta, tb);
            let (r, t) = apply_operator(s, op, ta, tb, a, b);
            &&& r is Ok
            &&& goes(m, s.out.cur, t.out.cur, f, g)
            &&& same_rest(s, t)
            &&& known(t.out.cur, r->Ok_0)
            &&& machine_type(s.env, ty) == Some(r->Ok_0.ty)
            &&& value(m, g, r->Ok_0) == arithmetic(m, op, ty, x, y)
        }),
{
    reveal(apply_operator);
    reveal(compile_trait_arithmetic);
    reveal(operator_trait_spec);
    reveal(type_key_or_fail_spec);
    reveal(operator_fn);
    reveal(lower_type);
    let ty = common_type(ta, tb);
    let lty = machine_type(s.env, ty)->Some_0;
    let key = type_key(ty)->Some_0;
    assert(type_key(ty) is Some) by {
        reveal(type_key);
        reveal(primitive_name);
    }
    let ((p, q, _), s1) = promote(s, a, b, ta, tb);
    lemma_promote_adds(s, a, b, ta, tb);
    let (pa, s2) = spill(s1, lty, p);
    lemma_spill_adds(s1, lty, p);
    let (pb, s3) = spill(s2, lty, q);
    lemma_spill_adds(s2, lty, q);
    let (tr, me) = operator_method(op);
    let fun = builtin_fn_spec(tr, me, key);
    let says = |a: Word, b: Word| arithmetic(m, op, ty, a, b);
    assert(pair_works(m, s.out, ty, lty, fun, says));
    let t = call_fitted(s3, fun, seq![pa, pb]).1;
    assert(apply_operator(s, op, ta, tb, a, b).1 == t) by {
        lemma_promoted_type(s, a, b, ta, tb);
    }
    lemma_fitted_two(s3, fun, pa, pb, lty);
    lemma_call_adds(s3, fun, seq![pa, pb]);
    lemma_countable(s3.out.cur, t.out.cur);
    lemma_countable(s2.out.cur, s3.out.cur);
    lemma_countable(s1.out.cur, s2.out.cur);
    let f1 = lemma_promote(m, s, a, b, ta, tb, x, y, f);
    let f2 = lemma_spill(m, s1, lty, p, f1);
    lemma_goes_trans(m, s.out.cur, s1.out.cur, s2.out.cur, f, f1, f2);
    lemma_known(s1.out.cur, s2.out.cur, q);
    lemma_value(m, s1.out.cur, f1, f2, q);
    let f3 = lemma_spill(m, s2, lty, q, f2);
    lemma_goes_trans(m, s.out.cur, s2.out.cur, s3.out.cur, f, f2, f3);
    lemma_value(m, s2.out.cur, f2, f3, pa);
    let g = lemma_pair_call(m, s3, fun, ty, lty, says, pa, pb, x, y, f3);
    lemma_goes_trans(m, s.out.cur, s3.out.cur, t.out.cur, f, f3, g);
    g
}

proof fn lemma_fitted_two(s: State, f: Seq<char>, pa: ValView, pb: ValView, lty: LTyView)
    requires
        compiled_as(s.out, f, two_pointers_spec(), lty),
        pa.ty == LTyView::Ptr,
        pb.ty == LTyView::Ptr,
    ensures
        call_fitted(s, f, seq![pa, pb]) == (
            Ok::<ValView, ErrorView>(call(s, f, seq![pa, pb]).0),
            call(s, f, seq![pa, pb]).1,
        ),
{
    reveal(two_pointers_spec);
    lemma_fitted(s, f, seq![pa, pb]);
}

proof fn lemma_promote_adds(s: State, a: ValView, b: ValView, ta: TypeView, tb: TypeView)
    requires
        writable(s.out.cur),
    ensures
        extended(s.out.cur, promote(s, a, b, ta, tb).1.out.cur),
        writable(promote(s, a, b, ta, tb).1.out.cur),
        same_rest(s, promote(s, a, b, ta, tb).1),
{
    reveal(promote);
    reveal(cast);
    crate::growth::lemma_extended_refl(s.out.cur);
    lemma_adds(s, InstView::Cast(CastKind::ZeroExt, b, a.ty), a.ty);
    lemma_adds(s, InstView::Cast(CastKind::ZeroExt, a, b.ty), b.ty);
}

proof fn lemma_promoted_type(s: State, a: ValView, b: ValView, ta: TypeView, tb: TypeView)
    requires
        machine_type(s.env, ta) == Some(a.ty),
        machine_type(s.env, tb) == Some(b.ty),
        integer_type(ta) is Some && integer_type(tb) is Some || float_type(ta) is Some && ta == tb,
    ensures
        promote(s, a, b, ta, tb).0.2 == common_type(ta, tb),
{
    reveal(promote);
    reveal(bits_of_spec);
    reveal(machine_type);
}

/// A comparison of two values of primitive types tells how their numbers are ordered.
pub proof fn law_comparison_operator(
    m: Machine,
    s: State,
    op: BinOp,
    ta: TypeView,
    tb: TypeView,
    a: ValView,
    b: ValView,
    x: Word,
    y: Word,
    f: Frame,
) -> (g: Frame)
    requires
        writable(s.out.cur),
        countable(apply_operator(s, op, ta, tb, a, b).1.out.cur),
        known(s.out.cur, a),
        known(s.out.cur, b),
        machine_type(s.env, ta) == Some(a.ty),
        machine_type(s.env, tb) == Some(b.ty),
        value(m, f, a) == x,
        value(m, f, b) == y,
        value_of_type(ta, x),
        value_of_type(tb, y),
        float_type(ta) is Some || float_type(tb) is Some ==> ta == tb,
        op is Eq || op is Neq || op is Lt || op is Gt || op is Le || op is Ge,
        calls_compiled(m, s.out),
        methods_work(
            m,
            s.out,
            common_type(ta, tb),
            machine_type(s.env, common_type(ta, tb))->Some_0,
            type_key(common_type(ta, tb))->Some_0,
        ),
    ensures
        ({
            let (r, t) = apply_operator(s, op, ta, tb, a, b);
            &&& r is Ok
            &&& goes(m, s.out.cur, t.out.cur, f, g)
            &&& same_rest(s, t)
            &&& known(t.out.cur, r->Ok_0)
            &&& r->Ok_0.ty == LTyView::Int(1)
            &&& value(m, g, r->Ok_0) == bit(comparison(m, op, common_type(ta, tb), x, y))
        }),
{
    reveal(apply_operator);
    reveal(compile_trait_comparison);
    reveal(compare_by_trait);
    reveal(call_order);
    reveal(type_key_or_fail_spec);
    reveal(operator_fn);
    reveal(lower_type);
    let ty = common_type(ta, tb);
    let lty = machine_type(s.env, ty)->Some_0;
    let key = type_key(ty)->Some_0;
    assert(type_key(ty) is Some) by {
        reveal(type_key);
        reveal(primitive_name);
    }
    let ((p, q, _), s1) = promote(s, a, b, ta, tb);
    lemma_promote_adds(s, a, b, ta, tb);
    let (pa, s2) = spill(s1, lty, p);
    lemma_spill_adds(s1, lty, p);
    let (pb, s3) = spill(s2, lty, q);
    lemma_spill_adds(s2, lty, q);
    let fun = if op is Eq {
        builtin_fn_spec("Eq"@, "eq"@, key)
    } else if op is Neq {
        builtin_fn_spec("Eq"@, "ne"@, key)
    } else {
        builtin_fn_spec("Ord"@, "cmp"@, key)
    };
    let says = if op is Eq {
        |a: Word, b: Word| bit(equal_words(m, a, b))
    } else if op is Neq {
        |a: Word, b: Word| bit(!equal_words(m, a, b))
    } else {
        |a: Word, b: Word| order_word(m, ty, a, b)
    };
    let given = if op is Eq || op is Neq {
        LTyView::Int(1)
    } else {
        LTyView::Int(32)
    };
    assert(pair_works(m, s.out, ty, given, fun, says));
    lemma_promoted_type(s, a, b, ta, tb);
    let (c, s4) = call(s3, fun, seq![pa, pb]);
    lemma_fitted_two(s3, fun, pa, pb, given);
    lemma_call_adds(s3, fun, seq![pa, pb]);
    reveal(call);
    assert(c.ty == given);
    let zero = int_const(32, 0);
    let pred = order_test_spec(op);
    let t = apply_operator(s, op, ta, tb, a, b).1;
    if op is Eq || op is Neq {
        assert(t == s4);
        crate::growth::lemma_extended_refl(s4.out.cur);
    } else {
        reveal(int_test);
        assert(t == int_test(s4, pred, c, zero).1);
        lemma_adds(s4, InstView::IntTest(pred, c, zero), LTyView::Int(1));
    }
    lemma_countable(s4.out.cur, t.out.cur);
    lemma_countable(s3.out.cur, s4.out.cur);
    lemma_countable(s2.out.cur, s3.out.cur);
    lemma_countable(s1.out.cur, s2.out.cur);
    let f1 = lemma_promote(m, s, a, b, ta, tb, x, y, f);
    let f2 = lemma_spill(m, s1, lty, p, f1);
    lemma_goes_trans(m, s.out.cur, s1.out.cur, s2.out.cur, f, f1, f2);
    lemma_known(s1.out.cur, s2.out.cur, q);
    lemma_value(m, s1.out.cur, f1, f2, q);
    let f3 = lemma_spill(m, s2, lty, q, f2);
    lemma_goes_trans(m, s.out.cur, s2.out.cur, s3.out.cur, f, f2, f3);
    lemma_value(m, s2.out.cur, f2, f3, pa);
    let f4 = lemma_pair_call(m, s3, fun, ty, given, says, pa, pb, x, y, f3);
    lemma_goes_trans(m, s.out.cur, s3.out.cur, s4.out.cur, f, f3, f4);
    if op is Eq || op is Neq {
        f4
    } else {
        let g = lemma_plain(m, s4, InstView::IntTest(pred, c, zero), LTyView::Int(1), f4);
        lemma_goes_trans(m, s.out.cur, s4.out.cur, t.out.cur, f, f4, g);
        reveal(order_test_spec);
        reveal(int_const);
        lemma_ranges();
        let o = ordering(m, ty, x, y);
        assert(wrapped(0, 32) == 0);
        assert(as_signed(wrapped(o, 32), 32) == o);
        g
    }
}

/// What is taken away and added again leaves what there was; what is less is not more.
pub proof fn law_operators_belong_together(m: Machine, ty: TypeView, x: nat, y: nat)
    requires
        integer_type(ty) is Some,
        x < range(integer_type(ty)->Some_0.0),
        y < range(integer_type(ty)->Some_0.0),
    ensures
        ({
            let (a, b) = (Word::Bits(x), Word::Bits(y));
            &&& arithmetic(m, BinOp::Add, ty, arithmetic(m, BinOp::Sub, ty, a, b), b) == a
            &&& comparison(m, BinOp::Lt, ty, a, b) == comparison(m, BinOp::Gt, ty, b, a)
            &&& comparison(m, BinOp::Lt, ty, a, b) != comparison(m, BinOp::Ge, ty, a, b)
            &&& comparison(m, BinOp::Gt, ty, a, b) != comparison(m, BinOp::Le, ty, a, b)
            &&& comparison(m, BinOp::Eq, ty, a, b) == (comparison(m, BinOp::Le, ty, a, b)
                && comparison(m, BinOp::Ge, ty, a, b))
        }),
{
    lemma_ranges();
    let (w, has_sign) = integer_type(ty)->Some_0;
    let d = range(w);
    let p = number(x, w, has_sign);
    let q = number(y, w, has_sign);
    let z = wrapped(p - q, w);
    vstd::arithmetic::div_mod::lemma_mod_bound(p - q, d);
    let r = number(z, w, has_sign);
    let i: int = if r == z {
        0
    } else {
        -1
    };
    assert(d * -1 == -d && d * 0 == 0);
    assert(r == z + d * i);
    let k = (p - q) / d;
    vstd::arithmetic::div_mod::lemma_fundamental_div_mod(p - q, d);
    assert(z == (p - q) - d * k);
    let j: int = if p == x {
        0
    } else {
        -1
    };
    assert(p == x + d * j);
    assert(r + q == d * (i - k + j) + x) by (nonlinear_arith)
        requires
            r == z + d * i,
            z == (p - q) - d * k,
            p == x + d * j,
    ;
    vstd::arithmetic::div_mod::lemma_mod_multiples_vanish(i - k + j, x as int, d);
    vstd::arithmetic::div_mod::lemma_small_mod(x, d as nat);
}

} // verus!
