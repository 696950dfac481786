//! What holds of the trait methods that the compiler provides for primitive types when they run.
use crate::ast::BinOp;
use crate::builder::{
    begin, binary, cast, emit, emit_value, finish, float_test, int_test, invert, load,
};
use crate::builtins::{
    arithmetic_kind_spec, equal_values, greater_value, less_value, load_pair, numeric_operators,
    primitive_arithmetic, primitive_arithmetic_code, primitive_clone, primitive_clone_code,
    primitive_default, primitive_default_code, primitive_eq, primitive_eq_code, primitive_impls,
    primitive_ne, primitive_ne_code, primitive_operators, primitive_ord, primitive_ord_code,
    two_pointers_spec,
};
use crate::cast_laws::{float_type, integer_type, lemma_ranges, number};
use crate::ir::{
    BinKind, CastKind, CurView, FloatConstView, FloatPred, InstView, IntPred, IrBlockView, LTyView,
    ValView,
};
use crate::machine::{
    Frame, Machine, Moment, Spot, Word, bit, leads, range, read, result, truncated, value, wrapped,
};
use crate::model::TypeView;
use crate::names::{primitive_name, type_key};
use crate::operators::{
    add_method, arg_spec, builtin_fn_spec, declare_builtin, declared_result, ret,
    type_key_or_fail_spec,
};
use crate::places::zero_of_spec;
use crate::query::{lower_type, machine_type};
use crate::running::{
    countable, end_of, goes, known, lemma_emitted, lemma_ended, lemma_goes_refl, lemma_goes_trans,
    lemma_leads_lift, lemma_leads_trans, lemma_plain, lemma_value, runs, same_rest, writable,
};
use crate::state::{OutView, State};
use crate::table::at;
use crate::types::{floating, signed};
use vstd::prelude::*;

verus! {

/// A function at its start.
pub open spec fn entry(args: Seq<Word>, mem: Seq<Word>) -> Moment {
    Moment { spot: Spot::At(0, 0), frame: Frame { regs: Map::empty(), args, mem } }
}

/// Whether the code of a function, run on arguments and memory, returns a word and leaves memory
/// behind.
pub open spec fn answers(
    m: Machine,
    blocks: Seq<IrBlockView>,
    args: Seq<Word>,
    mem: Seq<Word>,
    w: Word,
    behind: Seq<Word>,
) -> bool {
    exists|g: Frame| #[trigger]
        leads(m, blocks, entry(args, mem), Moment { spot: Spot::Left(Some(w)), frame: g }) && g.mem
            == behind
}

/// Whether a machine calls the functions that were compiled: a call gives what running the code of
/// the function gives.
pub open spec fn calls_compiled(m: Machine, out: OutView) -> bool {
    forall|name: Seq<char>, args: Seq<Word>, mem: Seq<Word>, w: Word, behind: Seq<Word>|
        out.bodies.contains_key(name) && #[trigger] answers(
            m,
            out.bodies[name],
            args,
            mem,
            w,
            behind,
        ) ==> (m.calls)(name, args, mem) == (w, behind)
}

/// Whether a word is a value of a primitive type.
pub open spec fn value_of_type(ty: TypeView, w: Word) -> bool {
    match w {
        Word::Bits(x) => integer_type(ty) is Some && x < range(integer_type(ty)->Some_0.0),
        Word::Real(_) => float_type(ty) is Some,
        _ => false,
    }
}

/// What an arithmetic operator gives for two values of a number type: the sum, the difference or
/// the product, of which an integer type keeps as much as fits, or the quotient, which for integers
/// is rounded towards zero. Nothing is divided by the integer zero.
pub open spec fn arithmetic(m: Machine, op: BinOp, ty: TypeView, a: Word, b: Word) -> Word {
    match (a, b) {
        (Word::Bits(x), Word::Bits(y)) => {
            let (w, has_sign) = integer_type(ty)->Some_0;
            let p = number(x, w, has_sign);
            let q = number(y, w, has_sign);
            match op {
                BinOp::Add => Word::Bits(wrapped(p + q, w)),
                BinOp::Sub => Word::Bits(wrapped(p - q, w)),
                BinOp::Mul => Word::Bits(wrapped(p * q, w)),
                BinOp::Div => if q == 0 {
                    Word::Unknown
                } else {
                    Word::Bits(wrapped(truncated(p, q), w))
                },
                _ => Word::Unknown,
            }
        },
        (Word::Real(x), Word::Real(y)) => match op {
            BinOp::Add => Word::Real((m.sum)(x, y)),
            BinOp::Sub => Word::Real((m.difference)(x, y)),
            BinOp::Mul => Word::Real((m.product)(x, y)),
            BinOp::Div => Word::Real((m.quotient)(x, y)),
            _ => Word::Unknown,
        },
        _ => Word::Unknown,
    }
}

/// Whether two values of a primitive type are the same number.
pub open spec fn equal_words(m: Machine, a: Word, b: Word) -> bool {
    match (a, b) {
        (Word::Bits(x), Word::Bits(y)) => x == y,
        (Word::Real(x), Word::Real(y)) => (m.equal)(x, y),
        _ => false,
    }
}

/// Whether a value of a primitive type is a smaller number than another one.
pub open spec fn smaller(m: Machine, ty: TypeView, a: Word, b: Word) -> bool {
    match (a, b) {
        (Word::Bits(x), Word::Bits(y)) => {
            let (w, has_sign) = integer_type(ty)->Some_0;
            number(x, w, has_sign) < number(y, w, has_sign)
        },
        (Word::Real(x), Word::Real(y)) => (m.less)(x, y),
        _ => false,
    }
}

/// How two values of a primitive type are ordered: one where the first is the greater number, minus
/// one where it is the smaller one, else zero.
pub open spec fn ordering(m: Machine, ty: TypeView, a: Word, b: Word) -> int {
    let more: int = if smaller(m, ty, b, a) {
        1
    } else {
        0
    };
    let less: int = if smaller(m, ty, a, b) {
        1
    } else {
        0
    };
    more - less
}

/// How two values of a primitive type are ordered, in 32 bits.
pub open spec fn order_word(m: Machine, ty: TypeView, a: Word, b: Word) -> Word {
    Word::Bits(wrapped(ordering(m, ty, a, b), 32))
}

/// The zero of a primitive type.
pub open spec fn zero_word(m: Machine, ty: TypeView) -> Word {
    match float_type(ty) {
        Some(lty) => Word::Real((m.constant)(FloatConstView::FromInt(0), lty)),
        None => Word::Bits(0),
    }
}

/// One short block is being built.
pub open spec fn short(cur: CurView, n: nat) -> bool {
    &&& cur.blocks.len() == 1
    &&& cur.at == 0
    &&& cur.blocks[0].insts.len() == n
    &&& n < 1000
}

/// A function that is begun.
pub proof fn lemma_begun(
    s: State,
    f: Seq<char>,
    params: Seq<LTyView>,
    result: LTyView,
    args: Seq<Word>,
    mem: Seq<Word>,
)
    ensures
        ({
            let t = begin(declare_builtin(s, f, params, result), f);
            &&& short(t.out.cur, 0)
            &&& end_of(t.out.cur) == entry(args, mem).spot
            &&& writable(t.out.cur)
            &&& countable(t.out.cur)
            &&& t.out.cur.name == f
            &&& t.out.bodies == s.out.bodies
            &&& t.out.decls.contains_key(f)
            &&& t.out.decls == s.out.decls.insert(f, t.out.decls[f])
            &&& t.out.decls[f].ret == Some(result)
            &&& t.out.decls[f].params == params
            &&& !t.out.decls[f].variadic
            &&& t.env == s.env
            &&& t.fun == s.fun
            &&& t.out.struct_bodies == s.out.struct_bodies
        }),
{
    reveal(begin);
    reveal(declare_builtin);
}

/// Running over an instruction of a short block.
pub proof fn lemma_next(
    m: Machine,
    s: State,
    inst: InstView,
    ty: LTyView,
    f: Frame,
    n: nat,
) -> (g: Frame)
    requires
        short(s.out.cur, n),
        n < 900,
        !crate::builder::ends_block(inst),
        !(inst is Store),
        !(inst is Call),
        !(inst is Alloca),
    ensures
        ({
            let (v, t) = emit_value(s, inst, ty);
            &&& goes(m, s.out.cur, t.out.cur, f, g)
            &&& same_rest(s, t)
            &&& short(t.out.cur, n + 1)
            &&& known(t.out.cur, v)
            &&& v.ty == ty
            &&& value(m, g, v) == result(m, f, inst)
            &&& g.mem == f.mem
            &&& g.args == f.args
        }),
{
    reveal(emit_value);
    lemma_emitted(s, inst);
    let t = emit(s, inst);
    let g = lemma_plain(m, s, inst, ty, f);
    reveal(crate::running::kept);
    g
}

/// A function that returns and is finished.
pub proof fn lemma_finished(
    m: Machine,
    s0: State,
    s: State,
    v: ValView,
    args: Seq<Word>,
    mem: Seq<Word>,
    g: Frame,
)
    requires
        end_of(s0.out.cur) == entry(args, mem).spot,
        goes(m, s0.out.cur, s.out.cur, entry(args, mem).frame, g),
        s.out.decls.contains_key(s.out.cur.name),
        s.out.decls[s.out.cur.name].ret == Some(v.ty),
        !s.out.bodies.contains_key(s.out.cur.name),
    ensures
        ({
            let (r, t) = ret(s, v);
            let u = finish(t);
            let f = s.out.cur.name;
            &&& r is Ok
            &&& u.out.bodies.contains_key(f)
            &&& u.out.bodies == s.out.bodies.insert(f, u.out.bodies[f])
            &&& answers(m, u.out.bodies[f], args, mem, value(m, g, v), g.mem)
            &&& u.out.decls == s.out.decls
            &&& u.env == s.env
            &&& u.fun == s.fun
        }),
{
    reveal(ret);
    reveal(declared_result);
    reveal(emit_value);
    reveal(finish);
    let inst = InstView::Ret(Some(v));
    let t = emit(s, inst);
    lemma_emitted(s, inst);
    reveal(crate::growth::extended);
    lemma_ended(m, s, inst, g);
    reveal(runs);
    let c = entry(args, mem);
    let d = Moment { spot: end_of(s.out.cur), frame: g };
    lemma_leads_lift(m, s.out.cur, t.out.cur, c, d);
    lemma_leads_trans(
        m,
        t.out.cur.blocks,
        c,
        d,
        Moment { spot: Spot::Left(Some(value(m, g, v))), frame: g },
    );
}

/// The values that the parameters of a method point to.
pub proof fn lemma_pair(
    m: Machine,
    s: State,
    lty: LTyView,
    p: Word,
    q: Word,
    f: Frame,
) -> (g: Frame)
    requires
        short(s.out.cur, 0),
        f.args == seq![p, q],
    ensures
        ({
            let ((a, b), t) = load_pair(s, lty);
            &&& goes(m, s.out.cur, t.out.cur, f, g)
            &&& same_rest(s, t)
            &&& short(t.out.cur, 2)
            &&& known(t.out.cur, a)
            &&& known(t.out.cur, b)
            &&& a.ty == lty
            &&& b.ty == lty
            &&& value(m, g, a) == read(f.mem, p)
            &&& value(m, g, b) == read(f.mem, q)
            &&& g.mem == f.mem
            &&& g.args == f.args
        }),
{
    reveal(load_pair);
    reveal(load);
    reveal(arg_spec);
    let first = InstView::Load(lty, arg_spec(0, LTyView::Ptr));
    let second = InstView::Load(lty, arg_spec(1, LTyView::Ptr));
    let (a, s1) = emit_value(s, first, lty);
    let (b, t) = emit_value(s1, second, lty);
    let h = lemma_next(m, s, first, lty, f, 0);
    let g = lemma_next(m, s1, second, lty, h, 1);
    lemma_goes_trans(m, s.out.cur, s1.out.cur, t.out.cur, f, h, g);
    lemma_value(m, s1.out.cur, h, g, a);
    crate::running::lemma_known(s1.out.cur, t.out.cur, a);
    g
}

/// What is left after a method was made: its code and its declaration are new, all other ones are
/// what they were.
pub open spec fn made(
    s: State,
    t: State,
    f: Seq<char>,
    params: Seq<LTyView>,
    lty: LTyView,
) -> bool {
    &&& t.out.decls.contains_key(f)
    &&& t.out.bodies.contains_key(f)
    &&& t.out.decls == s.out.decls.insert(f, t.out.decls[f])
    &&& t.out.bodies == s.out.bodies.insert(f, t.out.bodies[f])
    &&& t.out.decls[f].params == params
    &&& t.out.decls[f].ret == Some(lty)
    &&& !t.out.decls[f].variadic
    &&& t.env.struct_types == s.env.struct_types
}

/// The code of an arithmetic method.
proof fn lemma_arithmetic_code(
    m: Machine,
    s: State,
    f: Seq<char>,
    lty: LTyView,
    ty: TypeView,
    op: BinOp,
    p: Word,
    q: Word,
    mem: Seq<Word>,
)
    requires
        !s.out.decls.contains_key(f),
        !s.out.bodies.contains_key(f),
        machine_type(s.env, ty) == Some(lty),
        integer_type(ty) is Some || float_type(ty) is Some,
        op is Add || op is Sub || op is Mul || op is Div,
    ensures
        ({
            let (r, t) = primitive_arithmetic_code(
                s,
                f,
                lty,
                arithmetic_kind_spec(op, floating(ty), signed(ty)),
            );
            &&& r is Ok
            &&& made(s, t, f, two_pointers_spec(), lty)
            &&& value_of_type(ty, read(mem, p)) && value_of_type(ty, read(mem, q)) ==> answers(
                m,
                t.out.bodies[f],
                seq![p, q],
                mem,
                arithmetic(m, op, ty, read(mem, p), read(mem, q)),
                mem,
            )
        }),
{
    reveal(primitive_arithmetic_code);
    reveal(arithmetic_kind_spec);
    reveal(floating);
    reveal(signed);
    reveal(machine_type);
    let kind = arithmetic_kind_spec(op, floating(ty), signed(ty));
    let args = seq![p, q];
    let s0 = begin(declare_builtin(s, f, two_pointers_spec(), lty), f);
    lemma_begun(s, f, two_pointers_spec(), lty, args, mem);
    let e = entry(args, mem).frame;
    let ((a, b), s1) = load_pair(s0, lty);
    let h = lemma_pair(m, s0, lty, p, q, e);
    let inst = InstView::Bin(kind, a, b);
    let (c, s2) = binary(s1, kind, a, b);
    reveal(binary);
    let g = lemma_next(m, s1, inst, lty, h, 2);
    lemma_goes_trans(m, s0.out.cur, s1.out.cur, s2.out.cur, e, h, g);
    lemma_finished(m, s0, s2, c, args, mem, g);
    let x = read(mem, p);
    let y = read(mem, q);
    if value_of_type(ty, x) && value_of_type(ty, y) {
        match (x, y) {
            (Word::Bits(i), Word::Bits(j)) => {
                lemma_arithmetic_bits(m, op, ty, i, j);
            },
            _ => {},
        }
        assert(value(m, g, c) == arithmetic(m, op, ty, x, y));
    }
}

/// Sums, differences and products of bits are the same with and without a sign.
proof fn lemma_arithmetic_bits(m: Machine, op: BinOp, ty: TypeView, x: nat, y: nat)
    requires
        integer_type(ty) is Some,
        x < range(integer_type(ty)->Some_0.0),
        y < range(integer_type(ty)->Some_0.0),
        op is Add || op is Sub || op is Mul || op is Div,
    ensures
        arithmetic(m, op, ty, Word::Bits(x), Word::Bits(y)) == crate::machine::computed(
            arithmetic_kind_spec(op, false, integer_type(ty)->Some_0.1),
            x,
            y,
            integer_type(ty)->Some_0.0,
        ),
{
    reveal(arithmetic_kind_spec);
    lemma_ranges();
    let (w, has_sign) = integer_type(ty)->Some_0;
    let d = range(w);
    let p = number(x, w, has_sign);
    let q = number(y, w, has_sign);
    let i: int = if p < 0 {
        -1
    } else {
        0
    };
    let j: int = if q < 0 {
        -1
    } else {
        0
    };
    assert(d * -1 == -d && d * 0 == 0);
    assert(d * i == (if p < 0 {
        -d
    } else {
        0
    }));
    assert(d * j == (if q < 0 {
        -d
    } else {
        0
    }));
    assert(p == x + d * i);
    assert(q == y + d * j);
    vstd::arithmetic::div_mod::lemma_mod_multiples_vanish(i + j, (x + y) as int, d);
    vstd::arithmetic::div_mod::lemma_mod_multiples_vanish(i - j, x - y, d);
    let k = i * y + x * j + d * i * j;
    vstd::arithmetic::div_mod::lemma_mod_multiples_vanish(k, (x * y) as int, d);
    assert(p + q == d * (i + j) + (x + y)) by (nonlinear_arith)
        requires
            p == x + d * i,
            q == y + d * j,
    ;
    assert(p - q == d * (i - j) + (x - y)) by (nonlinear_arith)
        requires
            p == x + d * i,
            q == y + d * j,
    ;
    assert(p * q == d * k + x * y) by (nonlinear_arith)
        requires
            p == x + d * i,
            q == y + d * j,
            k == i * y + x * j + d * i * j,
    ;
    if op is Div && !has_sign && y != 0 {
        assert(truncated(p, q) == x / y);
        assert(0 <= x / y <= x) by (nonlinear_arith)
            requires
                x >= 0,
                y > 0,
        ;
        vstd::arithmetic::div_mod::lemma_small_mod((x / y) as nat, d as nat);
    }
}

/// The code of a method that returns zero.
proof fn lemma_default_code(
    m: Machine,
    s: State,
    f: Seq<char>,
    lty: LTyView,
    ty: TypeView,
    mem: Seq<Word>,
)
    requires
        !s.out.decls.contains_key(f),
        !s.out.bodies.contains_key(f),
        machine_type(s.env, ty) == Some(lty),
        integer_type(ty) is Some || float_type(ty) is Some,
    ensures
        ({
            let (r, t) = primitive_default_code(s, f, lty);
            &&& r is Ok
            &&& made(s, t, f, Seq::empty(), lty)
            &&& answers(m, t.out.bodies[f], Seq::empty(), mem, zero_word(m, ty), mem)
        }),
{
    reveal(primitive_default_code);
    reveal(zero_of_spec);
    reveal(machine_type);
    lemma_ranges();
    let s0 = begin(declare_builtin(s, f, Seq::empty(), lty), f);
    lemma_begun(s, f, Seq::empty(), lty, Seq::empty(), mem);
    let e = entry(Seq::empty(), mem).frame;
    lemma_goes_refl(m, s0.out.cur, e);
    lemma_finished(m, s0, s0, zero_of_spec(lty), Seq::empty(), mem, e);
}

/// The code of a method that returns what its parameter points to.
proof fn lemma_clone_code(
    m: Machine,
    s: State,
    f: Seq<char>,
    lty: LTyView,
    p: Word,
    mem: Seq<Word>,
)
    requires
        !s.out.decls.contains_key(f),
        !s.out.bodies.contains_key(f),
    ensures
        ({
            let (r, t) = primitive_clone_code(s, f, lty);
            &&& r is Ok
            &&& made(s, t, f, seq![LTyView::Ptr], lty)
            &&& answers(m, t.out.bodies[f], seq![p], mem, read(mem, p), mem)
        }),
{
    reveal(primitive_clone_code);
    reveal(load);
    reveal(arg_spec);
    let args = seq![p];
    let s0 = begin(declare_builtin(s, f, seq![LTyView::Ptr], lty), f);
    lemma_begun(s, f, seq![LTyView::Ptr], lty, args, mem);
    let e = entry(args, mem).frame;
    let inst = InstView::Load(lty, arg_spec(0, LTyView::Ptr));
    let (v, s1) = emit_value(s0, inst, lty);
    let g = lemma_next(m, s0, inst, lty, e, 0);
    lemma_finished(m, s0, s1, v, args, mem, g);
}

proof fn lemma_equal_values(
    m: Machine,
    s: State,
    ty: TypeView,
    a: ValView,
    b: ValView,
    f: Frame,
) -> (g: Frame)
    requires
        short(s.out.cur, 2),
        integer_type(ty) is Some || float_type(ty) is Some,
    ensures
        ({
            let (c, t) = equal_values(s, floating(ty), a, b);
            &&& goes(m, s.out.cur, t.out.cur, f, g)
            &&& same_rest(s, t)
            &&& short(t.out.cur, 3)
            &&& known(t.out.cur, c)
            &&& c.ty == LTyView::Int(1)
            &&& g.mem == f.mem
            &&& value_of_type(ty, value(m, f, a)) && value_of_type(ty, value(m, f, b)) ==> value(
                m,
                g,
                c,
            ) == bit(equal_words(m, value(m, f, a), value(m, f, b)))
        }),
{
    reveal(equal_values);
    reveal(floating);
    reveal(int_test);
    reveal(float_test);
    if floating(ty) {
        lemma_next(m, s, InstView::FloatTest(FloatPred::Eq, a, b), LTyView::Int(1), f, 2)
    } else {
        lemma_next(m, s, InstView::IntTest(IntPred::Eq, a, b), LTyView::Int(1), f, 2)
    }
}

/// The code of a method that tells whether two numbers are equal.
proof fn lemma_eq_code(
    m: Machine,
    s: State,
    f: Seq<char>,
    lty: LTyView,
    ty: TypeView,
    p: Word,
    q: Word,
    mem: Seq<Word>,
)
    requires
        !s.out.decls.contains_key(f),
        !s.out.bodies.contains_key(f),
        integer_type(ty) is Some || float_type(ty) is Some,
    ensures
        ({
            let (r, t) = primitive_eq_code(s, f, lty, floating(ty));
            &&& r is Ok
            &&& made(s, t, f, two_pointers_spec(), LTyView::Int(1))
            &&& value_of_type(ty, read(mem, p)) && value_of_type(ty, read(mem, q)) ==> answers(
                m,
                t.out.bodies[f],
                seq![p, q],
                mem,
                bit(equal_words(m, read(mem, p), read(mem, q))),
                mem,
            )
        }),
{
    reveal(primitive_eq_code);
    let args = seq![p, q];
    let one = LTyView::Int(1);
    let s0 = begin(declare_builtin(s, f, two_pointers_spec(), one), f);
    lemma_begun(s, f, two_pointers_spec(), one, args, mem);
    let e = entry(args, mem).frame;
    let ((a, b), s1) = load_pair(s0, lty);
    let h = lemma_pair(m, s0, lty, p, q, e);
    let (c, s2) = equal_values(s1, floating(ty), a, b);
    let g = lemma_equal_values(m, s1, ty, a, b, h);
    lemma_goes_trans(m, s0.out.cur, s1.out.cur, s2.out.cur, e, h, g);
    lemma_finished(m, s0, s2, c, args, mem, g);
}

/// The code of a method that tells whether two numbers differ.
proof fn lemma_ne_code(
    m: Machine,
    s: State,
    f: Seq<char>,
    lty: LTyView,
    ty: TypeView,
    p: Word,
    q: Word,
    mem: Seq<Word>,
)
    requires
        !s.out.decls.contains_key(f),
        !s.out.bodies.contains_key(f),
        integer_type(ty) is Some || float_type(ty) is Some,
    ensures
        ({
            let (r, t) = primitive_ne_code(s, f, lty, floating(ty));
            &&& r is Ok
            &&& made(s, t, f, two_pointers_spec(), LTyView::Int(1))
            &&& value_of_type(ty, read(mem, p)) && value_of_type(ty, read(mem, q)) ==> answers(
                m,
                t.out.bodies[f],
                seq![p, q],
                mem,
                bit(!equal_words(m, read(mem, p), read(mem, q))),
                mem,
            )
        }),
{
    reveal(primitive_ne_code);
    lemma_ranges();
    let args = seq![p, q];
    let one = LTyView::Int(1);
    let s0 = begin(declare_builtin(s, f, two_pointers_spec(), one), f);
    lemma_begun(s, f, two_pointers_spec(), one, args, mem);
    let e = entry(args, mem).frame;
    let ((a, b), s1) = load_pair(s0, lty);
    let h = lemma_pair(m, s0, lty, p, q, e);
    let (c, s2) = equal_values(s1, floating(ty), a, b);
    let k = lemma_equal_values(m, s1, ty, a, b, h);
    lemma_goes_trans(m, s0.out.cur, s1.out.cur, s2.out.cur, e, h, k);
    reveal(invert);
    let (d, s3) = invert(s2, c);
    let g = lemma_next(m, s2, InstView::Not(c), one, k, 3);
    lemma_goes_trans(m, s0.out.cur, s2.out.cur, s3.out.cur, e, k, g);
    lemma_finished(m, s0, s3, d, args, mem, g);
}

proof fn lemma_ordering_test(
    m: Machine,
    s: State,
    ty: TypeView,
    greater: bool,
    a: ValView,
    b: ValView,
    f: Frame,
    n: nat,
) -> (g: Frame)
    requires
        short(s.out.cur, n),
        n < 10,
        machine_type(s.env, ty) == Some(a.ty),
        integer_type(ty) is Some || float_type(ty) is Some,
    ensures
        ({
            let (c, t) = if greater {
                greater_value(s, floating(ty), signed(ty), a, b)
            } else {
                less_value(s, floating(ty), signed(ty), a, b)
            };
            &&& goes(m, s.out.cur, t.out.cur, f, g)
            &&& same_rest(s, t)
            &&& short(t.out.cur, n + 1)
            &&& known(t.out.cur, c)
            &&& c.ty == LTyView::Int(1)
            &&& g.mem == f.mem
            &&& value_of_type(ty, value(m, f, a)) && value_of_type(ty, value(m, f, b)) ==> value(
                m,
                g,
                c,
            ) == bit(
                if greater {
                    smaller(m, ty, value(m, f, b), value(m, f, a))
                } else {
                    smaller(m, ty, value(m, f, a), value(m, f, b))
                },
            )
        }),
{
    reveal(greater_value);
    reveal(less_value);
    reveal(floating);
    reveal(signed);
    reveal(machine_type);
    reveal(int_test);
    reveal(float_test);
    let one = LTyView::Int(1);
    if floating(ty) {
        let pred = if greater {
            FloatPred::Gt
        } else {
            FloatPred::Lt
        };
        lemma_next(m, s, InstView::FloatTest(pred, a, b), one, f, n)
    } else {
        let pred = if signed(ty) {
            if greater {
                IntPred::Gt
            } else {
                IntPred::Lt
            }
        } else if greater {
            IntPred::UnsignedGt
        } else {
            IntPred::UnsignedLt
        };
        lemma_next(m, s, InstView::IntTest(pred, a, b), one, f, n)
    }
}

/// The code of a method that orders two numbers.
proof fn lemma_ord_code(
    m: Machine,
    s: State,
    f: Seq<char>,
    lty: LTyView,
    ty: TypeView,
    p: Word,
    q: Word,
    mem: Seq<Word>,
)
    requires
        !s.out.decls.contains_key(f),
        !s.out.bodies.contains_key(f),
        machine_type(s.env, ty) == Some(lty),
        integer_type(ty) is Some || float_type(ty) is Some,
    ensures
        ({
            let (r, t) = primitive_ord_code(s, f, lty, floating(ty), signed(ty));
            &&& r is Ok
            &&& made(s, t, f, two_pointers_spec(), LTyView::Int(32))
            &&& value_of_type(ty, read(mem, p)) && value_of_type(ty, read(mem, q)) ==> answers(
                m,
                t.out.bodies[f],
                seq![p, q],
                mem,
                order_word(m, ty, read(mem, p), read(mem, q)),
                mem,
            )
        }),
{
    reveal(primitive_ord_code);
    lemma_ranges();
    let args = seq![p, q];
    let word = LTyView::Int(32);
    let s0 = begin(declare_builtin(s, f, two_pointers_spec(), word), f);
    lemma_begun(s, f, two_pointers_spec(), word, args, mem);
    let e = entry(args, mem).frame;
    let ((a, b), s1) = load_pair(s0, lty);
    let f1 = lemma_pair(m, s0, lty, p, q, e);
    let (g, s2) = greater_value(s1, floating(ty), signed(ty), a, b);
    let f2 = lemma_ordering_test(m, s1, ty, true, a, b, f1, 2);
    lemma_goes_trans(m, s0.out.cur, s1.out.cur, s2.out.cur, e, f1, f2);
    lemma_value(m, s1.out.cur, f1, f2, a);
    lemma_value(m, s1.out.cur, f1, f2, b);
    let (l, s3) = less_value(s2, floating(ty), signed(ty), a, b);
    let f3 = lemma_ordering_test(m, s2, ty, false, a, b, f2, 3);
    lemma_goes_trans(m, s0.out.cur, s2.out.cur, s3.out.cur, e, f2, f3);
    lemma_value(m, s2.out.cur, f2, f3, g);
    reveal(cast);
    let (x, s4) = cast(s3, CastKind::ZeroExt, g, word);
    let f4 = lemma_next(m, s3, InstView::Cast(CastKind::ZeroExt, g, word), word, f3, 4);
    lemma_goes_trans(m, s0.out.cur, s3.out.cur, s4.out.cur, e, f3, f4);
    lemma_value(m, s3.out.cur, f3, f4, l);
    let (y, s5) = cast(s4, CastKind::ZeroExt, l, word);
    let f5 = lemma_next(m, s4, InstView::Cast(CastKind::ZeroExt, l, word), word, f4, 5);
    lemma_goes_trans(m, s0.out.cur, s4.out.cur, s5.out.cur, e, f4, f5);
    lemma_value(m, s4.out.cur, f4, f5, x);
    reveal(binary);
    let (d, s6) = binary(s5, BinKind::Sub, x, y);
    let f6 = lemma_next(m, s5, InstView::Bin(BinKind::Sub, x, y), word, f5, 6);
    lemma_goes_trans(m, s0.out.cur, s5.out.cur, s6.out.cur, e, f5, f6);
    lemma_finished(m, s0, s6, d, args, mem, f6);
}

/// The names of the methods differ.
proof fn lemma_method_names(key: Seq<char>)
    ensures
        ({
            let name = |t: Seq<char>, n: Seq<char>| builtin_fn_spec(t, n, key);
            let names = seq![
                name("Default"@, "default"@),
                name("Clone"@, "clone"@),
                name("Eq"@, "eq"@),
                name("Eq"@, "ne"@),
                name("Ord"@, "cmp"@),
                name("Add"@, "add"@),
                name("Sub"@, "sub"@),
                name("Mul"@, "mul"@),
                name("Div"@, "div"@),
            ];
            names.no_duplicates()
        }),
{
    reveal(builtin_fn_spec);
    reveal_strlit("__builtin_");
    reveal_strlit("_");
    reveal_strlit("Default");
    reveal_strlit("default");
    reveal_strlit("Clone");
    reveal_strlit("clone");
    reveal_strlit("Eq");
    reveal_strlit("eq");
    reveal_strlit("ne");
    reveal_strlit("Ord");
    reveal_strlit("cmp");
    reveal_strlit("Add");
    reveal_strlit("add");
    reveal_strlit("Sub");
    reveal_strlit("sub");
    reveal_strlit("Mul");
    reveal_strlit("mul");
    reveal_strlit("Div");
    reveal_strlit("div");
    let name = |t: Seq<char>, n: Seq<char>| builtin_fn_spec(t, n, key);
    let a = name("Default"@, "default"@);
    let b = name("Clone"@, "clone"@);
    let c = name("Eq"@, "eq"@);
    let d = name("Eq"@, "ne"@);
    let e = name("Ord"@, "cmp"@);
    let f = name("Add"@, "add"@);
    let g = name("Sub"@, "sub"@);
    let h = name("Mul"@, "mul"@);
    let i = name("Div"@, "div"@);
    assert(a[10] == 'D' && a[11] == 'e');
    assert(b[10] == 'C');
    assert(c[10] == 'E' && c[13] == 'e');
    assert(d[10] == 'E' && d[13] == 'n');
    assert(e[10] == 'O');
    assert(f[10] == 'A');
    assert(g[10] == 'S');
    assert(h[10] == 'M');
    assert(i[10] == 'D' && i[11] == 'i');
}

/// The trait and the method of an arithmetic operator.
pub open spec fn operator_method(op: BinOp) -> (Seq<char>, Seq<char>) {
    match op {
        BinOp::Add => ("Add"@, "add"@),
        BinOp::Sub => ("Sub"@, "sub"@),
        BinOp::Mul => ("Mul"@, "mul"@),
        _ => ("Div"@, "div"@),
    }
}

/// Whether an operator is an arithmetic one.
pub open spec fn is_arithmetic(op: BinOp) -> bool {
    op is Add || op is Sub || op is Mul || op is Div
}

/// Whether a function has code and is declared so.
pub open spec fn compiled_as(
    out: OutView,
    f: Seq<char>,
    params: Seq<LTyView>,
    lty: LTyView,
) -> bool {
    &&& out.bodies.contains_key(f)
    &&& out.decls.contains_key(f)
    &&& out.decls[f].params == params
    &&& out.decls[f].ret == Some(lty)
    &&& !out.decls[f].variadic
}

/// `default` gives zero.
pub open spec fn default_works(
    m: Machine,
    out: OutView,
    ty: TypeView,
    lty: LTyView,
    f: Seq<char>,
) -> bool {
    &&& compiled_as(out, f, Seq::empty(), lty)
    &&& forall|mem: Seq<Word>| #[trigger]
        answers(m, out.bodies[f], Seq::empty(), mem, zero_word(m, ty), mem)
}

/// `clone` gives what its argument points to.
pub open spec fn clone_works(m: Machine, out: OutView, lty: LTyView, f: Seq<char>) -> bool {
    &&& compiled_as(out, f, seq![LTyView::Ptr], lty)
    &&& forall|p: Word, mem: Seq<Word>|
        answers(m, out.bodies[f], seq![p], mem, #[trigger] read(mem, p), mem)
}

/// A method on two values of a type gives what a function says.
pub open spec fn pair_works(
    m: Machine,
    out: OutView,
    ty: TypeView,
    lty: LTyView,
    f: Seq<char>,
    says: spec_fn(Word, Word) -> Word,
) -> bool {
    &&& compiled_as(out, f, two_pointers_spec(), lty)
    &&& forall|p: Word, q: Word, mem: Seq<Word>|
        #![trigger read(mem, p), read(mem, q)]
        value_of_type(ty, read(mem, p)) && value_of_type(ty, read(mem, q)) ==> answers(
            m,
            out.bodies[f],
            seq![p, q],
            mem,
            says(read(mem, p), read(mem, q)),
            mem,
        )
}

/// The methods of a primitive type do what they are for: `default` gives zero, `clone` the same
/// value, `eq` and `ne` tell whether two numbers are equal, `cmp` how they are ordered, and the
/// arithmetic methods give sum, difference, product and quotient.
pub open spec fn methods_work(
    m: Machine,
    out: OutView,
    ty: TypeView,
    lty: LTyView,
    key: Seq<char>,
) -> bool {
    &&& default_works(m, out, ty, lty, builtin_fn_spec("Default"@, "default"@, key))
    &&& clone_works(m, out, lty, builtin_fn_spec("Clone"@, "clone"@, key))
    &&& pair_works(
        m,
        out,
        ty,
        LTyView::Int(1),
        builtin_fn_spec("Eq"@, "eq"@, key),
        |a: Word, b: Word| bit(equal_words(m, a, b)),
    )
    &&& pair_works(
        m,
        out,
        ty,
        LTyView::Int(1),
        builtin_fn_spec("Eq"@, "ne"@, key),
        |a: Word, b: Word| bit(!equal_words(m, a, b)),
    )
    &&& pair_works(
        m,
        out,
        ty,
        LTyView::Int(32),
        builtin_fn_spec("Ord"@, "cmp"@, key),
        |a: Word, b: Word| order_word(m, ty, a, b),
    )
    &&& !(ty is Bool) ==> operators_work(m, out, ty, lty, key)
}

/// The arithmetic methods of a number type do what they are for.
pub open spec fn operators_work(
    m: Machine,
    out: OutView,
    ty: TypeView,
    lty: LTyView,
    key: Seq<char>,
) -> bool {
    forall|op: BinOp| #[trigger]
        is_arithmetic(op) ==> pair_works(
            m,
            out,
            ty,
            lty,
            builtin_fn_spec(operator_method(op).0, operator_method(op).1, key),
            |a: Word, b: Word| arithmetic(m, op, ty, a, b),
        )
}

/// No method of a type was made yet.
pub open spec fn unmade(s: State, key: Seq<char>) -> bool {
    forall|t: Seq<char>, n: Seq<char>|
        #![trigger builtin_fn_spec(t, n, key)]
        !s.out.decls.contains_key(builtin_fn_spec(t, n, key)) && !s.out.bodies.contains_key(
            builtin_fn_spec(t, n, key),
        )
}

proof fn lemma_added(s: State, key: Seq<char>, name: Seq<char>, f: Seq<char>)
    ensures
        add_method(s, key, name, f).out == s.out,
        add_method(s, key, name, f).env.struct_types == s.env.struct_types,
{
    reveal(add_method);
}

proof fn lemma_default(m: Machine, s: State, key: Seq<char>, lty: LTyView, ty: TypeView)
    requires
        !s.out.decls.contains_key(builtin_fn_spec("Default"@, "default"@, key)),
        !s.out.bodies.contains_key(builtin_fn_spec("Default"@, "default"@, key)),
        machine_type(s.env, ty) == Some(lty),
        integer_type(ty) is Some || float_type(ty) is Some,
    ensures
        ({
            let f = builtin_fn_spec("Default"@, "default"@, key);
            let (r, t) = primitive_default(s, key, lty);
            &&& r is Ok
            &&& made(s, t, f, Seq::empty(), lty)
            &&& default_works(m, t.out, ty, lty, f)
        }),
{
    reveal(primitive_default);
    let f = builtin_fn_spec("Default"@, "default"@, key);
    lemma_default_code(m, s, f, lty, ty, Seq::empty());
    let t = primitive_default_code(s, f, lty).1;
    lemma_added(t, key, "default"@, f);
    assert forall|mem: Seq<Word>| #[trigger]
        answers(m, t.out.bodies[f], Seq::empty(), mem, zero_word(m, ty), mem) by {
        lemma_default_code(m, s, f, lty, ty, mem);
    }
}

proof fn lemma_clone(m: Machine, s: State, key: Seq<char>, lty: LTyView)
    requires
        !s.out.decls.contains_key(builtin_fn_spec("Clone"@, "clone"@, key)),
        !s.out.bodies.contains_key(builtin_fn_spec("Clone"@, "clone"@, key)),
    ensures
        ({
            let f = builtin_fn_spec("Clone"@, "clone"@, key);
            let (r, t) = primitive_clone(s, key, lty);
            &&& r is Ok
            &&& made(s, t, f, seq![LTyView::Ptr], lty)
            &&& clone_works(m, t.out, lty, f)
        }),
{
    reveal(primitive_clone);
    let f = builtin_fn_spec("Clone"@, "clone"@, key);
    lemma_clone_code(m, s, f, lty, Word::Unknown, Seq::empty());
    let t = primitive_clone_code(s, f, lty).1;
    lemma_added(t, key, "clone"@, f);
    assert forall|p: Word, mem: Seq<Word>|
        answers(m, t.out.bodies[f], seq![p], mem, #[trigger] read(mem, p), mem) by {
        lemma_clone_code(m, s, f, lty, p, mem);
    }
}

proof fn lemma_eq(m: Machine, s: State, key: Seq<char>, lty: LTyView, ty: TypeView)
    requires
        !s.out.decls.contains_key(builtin_fn_spec("Eq"@, "eq"@, key)),
        !s.out.bodies.contains_key(builtin_fn_spec("Eq"@, "eq"@, key)),
        integer_type(ty) is Some || float_type(ty) is Some,
        machine_type(s.env, ty) == Some(lty),
    ensures
        ({
            let f = builtin_fn_spec("Eq"@, "eq"@, key);
            let (r, t) = primitive_eq(s, key, lty, floating(ty));
            &&& r is Ok
            &&& made(s, t, f, two_pointers_spec(), LTyView::Int(1))
            &&& pair_works(
                m,
                t.out,
                ty,
                LTyView::Int(1),
                f,
                |a: Word,
                b: Word| bit(equal_words(m, a, b)),
            )
        }),
{
    reveal(primitive_eq);
    let f = builtin_fn_spec("Eq"@, "eq"@, key);
    lemma_eq_code(m, s, f, lty, ty, Word::Unknown, Word::Unknown, Seq::empty());
    let t = primitive_eq_code(s, f, lty, floating(ty)).1;
    lemma_added(t, key, "eq"@, f);
    let says = |a: Word, b: Word| bit(equal_words(m, a, b));
    assert forall|p: Word, q: Word, mem: Seq<Word>|
        #![trigger read(mem, p), read(mem, q)]
        value_of_type(ty, read(mem, p)) && value_of_type(ty, read(mem, q)) implies answers(
        m,
        t.out.bodies[f],
        seq![p, q],
        mem,
        says(read(mem, p), read(mem, q)),
        mem,
    ) by {
        lemma_eq_code(m, s, f, lty, ty, p, q, mem);
    }
}

proof fn lemma_ne(m: Machine, s: State, key: Seq<char>, lty: LTyView, ty: TypeView)
    requires
        !s.out.decls.contains_key(builtin_fn_spec("Eq"@, "ne"@, key)),
        !s.out.bodies.contains_key(builtin_fn_spec("Eq"@, "ne"@, key)),
        integer_type(ty) is Some || float_type(ty) is Some,
        machine_type(s.env, ty) == Some(lty),
    ensures
        ({
            let f = builtin_fn_spec("Eq"@, "ne"@, key);
            let (r, t) = primitive_ne(s, key, lty, floating(ty));
            &&& r is Ok
            &&& made(s, t, f, two_pointers_spec(), LTyView::Int(1))
            &&& pair_works(
                m,
                t.out,
                ty,
                LTyView::Int(1),
                f,
                |a: Word,
                b: Word| bit(!equal_words(m, a, b)),
            )
        }),
{
    reveal(primitive_ne);
    let f = builtin_fn_spec("Eq"@, "ne"@, key);
    lemma_ne_code(m, s, f, lty, ty, Word::Unknown, Word::Unknown, Seq::empty());
    let t = primitive_ne_code(s, f, lty, floating(ty)).1;
    lemma_added(t, key, "ne"@, f);
    let says = |a: Word, b: Word| bit(!equal_words(m, a, b));
    assert forall|p: Word, q: Word, mem: Seq<Word>|
        #![trigger read(mem, p), read(mem, q)]
        value_of_type(ty, read(mem, p)) && value_of_type(ty, read(mem, q)) implies answers(
        m,
        t.out.bodies[f],
        seq![p, q],
        mem,
        says(read(mem, p), read(mem, q)),
        mem,
    ) by {
        lemma_ne_code(m, s, f, lty, ty, p, q, mem);
    }
}

proof fn lemma_ord(m: Machine, s: State, key: Seq<char>, lty: LTyView, ty: TypeView)
    requires
        !s.out.decls.contains_key(builtin_fn_spec("Ord"@, "cmp"@, key)),
        !s.out.bodies.contains_key(builtin_fn_spec("Ord"@, "cmp"@, key)),
        integer_type(ty) is Some || float_type(ty) is Some,
        machine_type(s.env, ty) == Some(lty),
    ensures
        ({
            let f = builtin_fn_spec("Ord"@, "cmp"@, key);
            let (r, t) = primitive_ord(s, key, lty, floating(ty), signed(ty));
            &&& r is Ok
            &&& made(s, t, f, two_pointers_spec(), LTyView::Int(32))
            &&& pair_works(
                m,
                t.out,
                ty,
                LTyView::Int(32),
                f,
                |a: Word,
                b: Word| order_word(m, ty, a, b),
            )
        }),
{
    reveal(primitive_ord);
    let f = builtin_fn_spec("Ord"@, "cmp"@, key);
    lemma_ord_code(m, s, f, lty, ty, Word::Unknown, Word::Unknown, Seq::empty());
    let t = primitive_ord_code(s, f, lty, floating(ty), signed(ty)).1;
    lemma_added(t, key, "cmp"@, f);
    let says = |a: Word, b: Word| order_word(m, ty, a, b);
    assert forall|p: Word, q: Word, mem: Seq<Word>|
        #![trigger read(mem, p), read(mem, q)]
        value_of_type(ty, read(mem, p)) && value_of_type(ty, read(mem, q)) implies answers(
        m,
        t.out.bodies[f],
        seq![p, q],
        mem,
        says(read(mem, p), read(mem, q)),
        mem,
    ) by {
        lemma_ord_code(m, s, f, lty, ty, p, q, mem);
    }
}

proof fn lemma_arithmetic(
    m: Machine,
    s: State,
    key: Seq<char>,
    lty: LTyView,
    ty: TypeView,
    op: BinOp,
)
    requires
        !s.out.decls.contains_key(
            builtin_fn_spec(operator_method(op).0, operator_method(op).1, key),
        ),
        !s.out.bodies.contains_key(
            builtin_fn_spec(operator_method(op).0, operator_method(op).1, key),
        ),
        integer_type(ty) is Some || float_type(ty) is Some,
        machine_type(s.env, ty) == Some(lty),
        is_arithmetic(op),
    ensures
        ({
            let f = builtin_fn_spec(operator_method(op).0, operator_method(op).1, key);
            let (r, t) = primitive_arithmetic(
                s,
                key,
                lty,
                operator_method(op).0,
                operator_method(op).1,
                arithmetic_kind_spec(op, floating(ty), signed(ty)),
            );
            &&& r is Ok
            &&& made(s, t, f, two_pointers_spec(), lty)
            &&& pair_works(m, t.out, ty, lty, f, |a: Word, b: Word| arithmetic(m, op, ty, a, b))
        }),
{
    reveal(primitive_arithmetic);
    let f = builtin_fn_spec(operator_method(op).0, operator_method(op).1, key);
    lemma_arithmetic_code(m, s, f, lty, ty, op, Word::Unknown, Word::Unknown, Seq::empty());
    let t = primitive_arithmetic_code(
        s,
        f,
        lty,
        arithmetic_kind_spec(op, floating(ty), signed(ty)),
    ).1;
    lemma_added(t, key, operator_method(op).1, f);
    let says = |a: Word, b: Word| arithmetic(m, op, ty, a, b);
    assert forall|p: Word, q: Word, mem: Seq<Word>|
        #![trigger read(mem, p), read(mem, q)]
        value_of_type(ty, read(mem, p)) && value_of_type(ty, read(mem, q)) implies answers(
        m,
        t.out.bodies[f],
        seq![p, q],
        mem,
        says(read(mem, p), read(mem, q)),
        mem,
    ) by {
        lemma_arithmetic_code(m, s, f, lty, ty, op, p, q, mem);
    }
}

/// The trait methods that the compiler makes for a primitive type work: on every value of the type
/// they give what they are for.
pub proof fn law_primitive_methods(m: Machine, s: State, ty: TypeView)
    requires
        integer_type(ty) is Some || float_type(ty) is Some,
        unmade(s, type_key(ty)->Some_0),
    ensures
        ({
            let (r, t) = primitive_impls(s, ty);
            &&& type_key(ty) is Some
            &&& machine_type(s.env, ty) is Some
            &&& r is Ok
            &&& methods_work(m, t.out, ty, machine_type(s.env, ty)->Some_0, type_key(ty)->Some_0)
        }),
{
    reveal(primitive_impls);
    reveal(type_key_or_fail_spec);
    reveal(type_key);
    reveal(primitive_name);
    reveal(lower_type);
    reveal(machine_type);
    reveal(numeric_operators);
    reveal(primitive_operators);
    let key = type_key(ty)->Some_0;
    let lty = machine_type(s.env, ty)->Some_0;
    lemma_method_names(key);
    let names = seq![
        builtin_fn_spec("Default"@, "default"@, key),
        builtin_fn_spec("Clone"@, "clone"@, key),
        builtin_fn_spec("Eq"@, "eq"@, key),
        builtin_fn_spec("Eq"@, "ne"@, key),
        builtin_fn_spec("Ord"@, "cmp"@, key),
        builtin_fn_spec("Add"@, "add"@, key),
        builtin_fn_spec("Sub"@, "sub"@, key),
        builtin_fn_spec("Mul"@, "mul"@, key),
        builtin_fn_spec("Div"@, "div"@, key),
    ];
    assert(names.no_duplicates());
    assert forall|i: int, j: int| 0 <= i < 9 && 0 <= j < 9 && i != j implies names[i] != names[j] by {}
    assert(names[0] != names[1]);
    let s1 = primitive_default(s, key, lty).1;
    lemma_default(m, s, key, lty, ty);
    let s2 = primitive_clone(s1, key, lty).1;
    lemma_clone(m, s1, key, lty);
    let s3 = primitive_eq(s2, key, lty, floating(ty)).1;
    lemma_eq(m, s2, key, lty, ty);
    let s4 = primitive_ne(s3, key, lty, floating(ty)).1;
    lemma_ne(m, s3, key, lty, ty);
    let s5 = primitive_ord(s4, key, lty, floating(ty), signed(ty)).1;
    lemma_ord(m, s4, key, lty, ty);
    if !(ty is Bool) {
        let kind = |op: BinOp| arithmetic_kind_spec(op, floating(ty), signed(ty));
        let s6 = primitive_arithmetic(s5, key, lty, "Add"@, "add"@, kind(BinOp::Add)).1;
        lemma_arithmetic(m, s5, key, lty, ty, BinOp::Add);
        let s7 = primitive_arithmetic(s6, key, lty, "Sub"@, "sub"@, kind(BinOp::Sub)).1;
        lemma_arithmetic(m, s6, key, lty, ty, BinOp::Sub);
        let s8 = primitive_arithmetic(s7, key, lty, "Mul"@, "mul"@, kind(BinOp::Mul)).1;
        lemma_arithmetic(m, s7, key, lty, ty, BinOp::Mul);
        let s9 = primitive_arithmetic(s8, key, lty, "Div"@, "div"@, kind(BinOp::Div)).1;
        lemma_arithmetic(m, s8, key, lty, ty, BinOp::Div);
        let t = primitive_impls(s, ty).1;
        assert(t.out == s9.out);
        assert forall|op: BinOp| #[trigger] is_arithmetic(op) implies pair_works(
            m,
            t.out,
            ty,
            lty,
            builtin_fn_spec(operator_method(op).0, operator_method(op).1, key),
            |a: Word, b: Word| arithmetic(m, op, ty, a, b),
        ) by {
            let says = |a: Word, b: Word| arithmetic(m, op, ty, a, b);
            let f = builtin_fn_spec(operator_method(op).0, operator_method(op).1, key);
            let u = if op is Add {
                s6
            } else if op is Sub {
                s7
            } else if op is Mul {
                s8
            } else {
                s9
            };
            assert(pair_works(m, u.out, ty, lty, f, says));
            assert(t.out.bodies[f] == u.out.bodies[f]);
            assert(t.out.decls[f] == u.out.decls[f]);
            assert(compiled_as(t.out, f, two_pointers_spec(), lty));
        }
    }
}

} // verus!
