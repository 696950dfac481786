//! What holds of conversions when they run.
use crate::builder::{cast, emit_value, float_test};
use crate::casts::{
    array_to_slice_spec, cast_float, cast_int, cast_plain, cast_to_bool, cast_to_ptr,
    cast_width_spec, check_number_spec, emit_cast, float_ty_spec, is_lowered_to, need_int_spec,
    ptr_to_int,
};
use crate::infer::slice_element;
use crate::ir::{CastKind, FloatConstView, FloatPred, InstView, LTyView, OperandView, ValView};
use crate::machine::{Frame, Machine, Word, as_signed, bit, range, value, wrapped};
use crate::model::TypeView;
use crate::query::{lower_type, machine_type};
use crate::running::{
    countable, goes, known, lemma_countable, lemma_emitted, lemma_goes_refl, lemma_goes_trans,
    lemma_plain, same_rest, writable,
};
use crate::state::State;
use crate::types::{floating, int_width, signed};
use vstd::prelude::*;

verus! {

/// The width of an integer type in bits, and whether its highest bit is a sign.
pub open spec fn integer_type(ty: TypeView) -> Option<(u32, bool)> {
    match ty {
        TypeView::Bool => Some((1, false)),
        TypeView::I8 => Some((8, true)),
        TypeView::U8 => Some((8, false)),
        TypeView::I16 => Some((16, true)),
        TypeView::U16 => Some((16, false)),
        TypeView::I32 => Some((32, true)),
        TypeView::U32 => Some((32, false)),
        TypeView::I64 | TypeView::Isize => Some((64, true)),
        TypeView::U64 | TypeView::Usize => Some((64, false)),
        _ => None,
    }
}

/// The machine type of a float type.
pub open spec fn float_type(ty: TypeView) -> Option<LTyView> {
    match ty {
        TypeView::F32 => Some(LTyView::F32),
        TypeView::F64 => Some(LTyView::F64),
        _ => None,
    }
}

/// Whether integers have that many bits.
pub open spec fn usual_width(w: u32) -> bool {
    w == 1 || w == 8 || w == 16 || w == 32 || w == 64
}

/// The number that `w` bits are, with or without a sign.
pub open spec fn number(x: nat, w: u32, has_sign: bool) -> int {
    if has_sign {
        as_signed(x, w)
    } else {
        x as int
    }
}

/// How many values the integer types have.
pub proof fn lemma_ranges()
    ensures
        range(1) == 2,
        range(8) == 256,
        range(16) == 65536,
        range(32) == 4294967296,
        range(64) == 18446744073709551616,
{
    reveal(range);
    vstd::arithmetic::power2::lemma2_to64();
    vstd::arithmetic::power2::lemma2_to64_rest();
}

proof fn lemma_wrapped(x: nat, w: u32, to: u32)
    requires
        usual_width(w),
        usual_width(to),
        x < range(w),
    ensures
        w <= to ==> wrapped(x as int, to) == x,
        wrapped(x as int, to) < range(to),
        to <= w ==> wrapped(as_signed(x, w), to) == wrapped(x as int, to),
        w <= to ==> as_signed(wrapped(as_signed(x, w), to), to) == as_signed(x, w),
{
    lemma_ranges();
    let n = x as int;
    let d = range(to);
    assert(range(w) > 0 && d > 0);
    assert(w <= to ==> range(w) <= d);
    vstd::arithmetic::div_mod::lemma_mod_bound(n, d);
    if w <= to {
        vstd::arithmetic::div_mod::lemma_small_mod(x, d as nat);
        if 2 * x >= range(w) {
            let k = n - range(w);
            vstd::arithmetic::div_mod::lemma_mod_multiples_vanish(1, k, d);
            assert(d * 1 + k == d + k);
            vstd::arithmetic::div_mod::lemma_small_mod((d + k) as nat, d as nat);
        }
    }
    if to <= w && 2 * x >= range(w) {
        reveal(range);
        vstd::arithmetic::power2::lemma_pow2_adds(to as nat, (w - to) as nat);
        let k = vstd::arithmetic::power2::pow2((w - to) as nat) as int;
        assert(range(w) == d * k);
        vstd::arithmetic::div_mod::lemma_mod_multiples_vanish(-k, n, d);
        assert(d * -k + n == n - range(w)) by (nonlinear_arith)
            requires
                range(w) == d * k,
        ;
    }
}

proof fn lemma_there_and_back(x: nat, w: u32, to: u32, a: bool, b: bool)
    requires
        usual_width(w),
        usual_width(to),
        1 < w <= to,
        x < range(w),
    ensures
        ({
            let y = wrapped(number(x, w, b), to);
            y < range(to) && wrapped(number(y, to, a), w) == x
        }),
{
    lemma_ranges();
    lemma_wrapped(x, w, to);
    let d = range(w);
    let e = range(to);
    let y = wrapped(number(x, w, b), to);
    vstd::arithmetic::div_mod::lemma_mod_bound(number(x, w, b), e);
    lemma_wrapped(y, to, w);
    vstd::arithmetic::div_mod::lemma_small_mod(x, d as nat);
    if b && 2 * x >= d {
        let k = x - d;
        vstd::arithmetic::div_mod::lemma_mod_multiples_vanish(1, k, e);
        assert(e * 1 + k == e + k);
        vstd::arithmetic::div_mod::lemma_small_mod((e + k) as nat, e as nat);
        assert(y == x + e - d);
        reveal(range);
        vstd::arithmetic::power2::lemma_pow2_adds(w as nat, (to - w) as nat);
        let j = vstd::arithmetic::power2::pow2((to - w) as nat) as int;
        assert(e == d * j);
        vstd::arithmetic::div_mod::lemma_mod_multiples_vanish(j - 1, x as int, d);
        assert(d * (j - 1) + x == x + e - d) by (nonlinear_arith)
            requires
                e == d * j,
        ;
    } else {
        vstd::arithmetic::div_mod::lemma_small_mod(x, e as nat);
    }
}

/// Running over a conversion.
proof fn lemma_cast(m: Machine, s: State, kind: CastKind, v: ValView, ty: LTyView, f: Frame) -> (g:
    Frame)
    requires
        writable(s.out.cur),
        countable(cast(s, kind, v, ty).1.out.cur),
    ensures
        ({
            let (r, t) = cast(s, kind, v, ty);
            &&& goes(m, s.out.cur, t.out.cur, f, g)
            &&& same_rest(s, t)
            &&& known(t.out.cur, r)
            &&& r.ty == ty
            &&& g.mem == f.mem
            &&& value(m, g, r) == crate::machine::converted(
                m,
                kind,
                value(m, f, v),
                crate::machine::bits_of_type(v.ty),
                ty,
            )
        }),
{
    reveal(cast);
    lemma_plain(m, s, InstView::Cast(kind, v, ty), ty, f)
}

/// Running over two conversions.
proof fn lemma_two_casts(
    m: Machine,
    s: State,
    first: CastKind,
    v: ValView,
    mid: LTyView,
    second: CastKind,
    ty: LTyView,
    f: Frame,
) -> (g: Frame)
    requires
        writable(s.out.cur),
        ({
            let (n, s1) = cast(s, first, v, mid);
            countable(cast(s1, second, n, ty).1.out.cur)
        }),
    ensures
        ({
            let (n, s1) = cast(s, first, v, mid);
            let (r, t) = cast(s1, second, n, ty);
            let x = crate::machine::converted(
                m,
                first,
                value(m, f, v),
                crate::machine::bits_of_type(v.ty),
                mid,
            );
            &&& goes(m, s.out.cur, t.out.cur, f, g)
            &&& same_rest(s, t)
            &&& known(t.out.cur, r)
            &&& r.ty == ty
            &&& g.mem == f.mem
            &&& value(m, g, r) == crate::machine::converted(
                m,
                second,
                x,
                crate::machine::bits_of_type(mid),
                ty,
            )
        }),
{
    let (n, s1) = cast(s, first, v, mid);
    let (r, t) = cast(s1, second, n, ty);
    reveal(cast);
    reveal(emit_value);
    lemma_emitted(s, InstView::Cast(first, v, mid));
    lemma_emitted(s1, InstView::Cast(second, n, ty));
    lemma_countable(s1.out.cur, t.out.cur);
    let h = lemma_cast(m, s, first, v, mid, f);
    let g = lemma_cast(m, s1, second, n, ty, h);
    lemma_goes_trans(m, s.out.cur, s1.out.cur, t.out.cur, f, h, g);
    g
}

/// An integer that is converted to an integer type, or to `bool`, keeps its number as far as the
/// type has it: it is read with the sign that the type has, a `bool` without one, and what does not
/// fit in the bits of the type is cut off. No memory is written.
pub proof fn law_integer_as_integer(
    m: Machine,
    s: State,
    v: ValView,
    from: TypeView,
    to: TypeView,
    w: u32,
    x: nat,
    f: Frame,
) -> (g: Frame)
    requires
        writable(s.out.cur),
        countable(emit_cast(s, v, from, to).1.out.cur),
        known(s.out.cur, v),
        v.ty == LTyView::Int(w),
        usual_width(w),
        value(m, f, v) == Word::Bits(x),
        x < range(w),
        !(from is Never),
        from == to ==> integer_type(to) is Some && integer_type(to)->Some_0.0 == w,
        integer_type(to) is Some,
    ensures
        ({
            let (to_w, has_sign) = integer_type(to)->Some_0;
            let (r, t) = emit_cast(s, v, from, to);
            &&& r is Ok
            &&& goes(m, s.out.cur, t.out.cur, f, g)
            &&& same_rest(s, t)
            &&& known(t.out.cur, r->Ok_0)
            &&& r->Ok_0.ty == LTyView::Int(to_w)
            &&& g.mem == f.mem
            &&& value(m, g, r->Ok_0) == Word::Bits(wrapped(number(x, w, has_sign && w > 1), to_w))
        }),
{
    reveal(emit_cast);
    reveal(is_lowered_to);
    reveal(lower_type);
    reveal(machine_type);
    reveal(array_to_slice_spec);
    reveal(slice_element);
    reveal(cast_to_bool);
    reveal(cast_plain);
    reveal(cast_width_spec);
    reveal(cast_int);
    reveal(need_int_spec);
    reveal(floating);
    reveal(signed);
    let (to_w, has_sign) = integer_type(to)->Some_0;
    lemma_ranges();
    lemma_wrapped(x, w, to_w);
    let dst = LTyView::Int(to_w);
    assert(machine_type(s.env, to) == Some(dst));
    if from == to || v.ty == dst {
        lemma_goes_refl(m, s.out.cur, f);
        f
    } else if to is Bool {
        lemma_cast(m, s, CastKind::Trunc, v, dst, f)
    } else if w == 1 {
        lemma_cast(m, s, CastKind::ZeroExt, v, dst, f)
    } else if w < to_w {
        if has_sign {
            lemma_cast(m, s, CastKind::SignExt, v, dst, f)
        } else {
            lemma_cast(m, s, CastKind::ZeroExt, v, dst, f)
        }
    } else {
        lemma_cast(m, s, CastKind::Trunc, v, dst, f)
    }
}

/// A conversion to a type with more bits keeps the number: to one with a sign the number with its
/// sign, to one without the number without.
pub proof fn law_widening_keeps_numbers(x: nat, w: u32, to_w: u32, has_sign: bool)
    requires
        usual_width(w),
        usual_width(to_w),
        1 < w <= to_w,
        x < range(w),
    ensures
        number(wrapped(number(x, w, has_sign), to_w), to_w, has_sign) == number(x, w, has_sign),
{
    lemma_wrapped(x, w, to_w);
}

/// What is converted to a type with at least as many bits and back is what it was.
pub proof fn law_there_and_back(
    m: Machine,
    s: State,
    v: ValView,
    from: TypeView,
    to: TypeView,
    x: nat,
    f: Frame,
) -> (g: Frame)
    requires
        writable(s.out.cur),
        integer_type(from) is Some,
        integer_type(to) is Some,
        1 < integer_type(from)->Some_0.0 <= integer_type(to)->Some_0.0,
        ({
            let (r, t) = emit_cast(s, v, from, to);
            r is Ok ==> countable(emit_cast(t, r->Ok_0, to, from).1.out.cur)
        }),
        known(s.out.cur, v),
        v.ty == LTyView::Int(integer_type(from)->Some_0.0),
        value(m, f, v) == Word::Bits(x),
        x < range(integer_type(from)->Some_0.0),
        countable(emit_cast(s, v, from, to).1.out.cur),
    ensures
        ({
            let (r, t) = emit_cast(s, v, from, to);
            let (q, u) = emit_cast(t, r->Ok_0, to, from);
            &&& r is Ok
            &&& q is Ok
            &&& goes(m, s.out.cur, u.out.cur, f, g)
            &&& value(m, g, q->Ok_0) == Word::Bits(x)
        }),
{
    let (w, a) = integer_type(from)->Some_0;
    let (to_w, b) = integer_type(to)->Some_0;
    let (r, t) = emit_cast(s, v, from, to);
    let h = law_integer_as_integer(m, s, v, from, to, w, x, f);
    let y = wrapped(number(x, w, b), to_w);
    lemma_there_and_back(x, w, to_w, a, b);
    let g = law_integer_as_integer(m, t, r->Ok_0, to, from, to_w, y, h);
    lemma_goes_trans(
        m,
        s.out.cur,
        t.out.cur,
        emit_cast(t, r->Ok_0, to, from).1.out.cur,
        f,
        h,
        g,
    );
    g
}

/// An integer that is converted to a float becomes the nearest one; 32 bits are read with a sign,
/// all others without.
pub proof fn law_integer_as_float(
    m: Machine,
    s: State,
    v: ValView,
    from: TypeView,
    to: TypeView,
    w: u32,
    x: nat,
    f: Frame,
) -> (g: Frame)
    requires
        writable(s.out.cur),
        countable(emit_cast(s, v, from, to).1.out.cur),
        known(s.out.cur, v),
        v.ty == LTyView::Int(w),
        usual_width(w),
        value(m, f, v) == Word::Bits(x),
        x < range(w),
        !(from is Never),
        from != to,
        float_type(to) is Some,
    ensures
        ({
            let ty = float_type(to)->Some_0;
            let (r, t) = emit_cast(s, v, from, to);
            &&& r is Ok
            &&& goes(m, s.out.cur, t.out.cur, f, g)
            &&& same_rest(s, t)
            &&& known(t.out.cur, r->Ok_0)
            &&& r->Ok_0.ty == ty
            &&& g.mem == f.mem
            &&& value(m, g, r->Ok_0) == Word::Real((m.nearest)(number(x, w, w == 32), ty))
        }),
{
    reveal(emit_cast);
    reveal(is_lowered_to);
    reveal(lower_type);
    reveal(machine_type);
    reveal(array_to_slice_spec);
    reveal(slice_element);
    reveal(cast_plain);
    reveal(cast_width_spec);
    reveal(cast_int);
    reveal(floating);
    reveal(signed);
    reveal(float_ty_spec);
    lemma_ranges();
    let ty = float_type(to)->Some_0;
    assert(machine_type(s.env, to) == Some(ty));
    if w == 1 {
        let (n, s1) = cast(s, CastKind::ZeroExt, v, LTyView::Int(32));
        let (r, t) = cast(s1, CastKind::UnsignedToFloat, n, ty);
        assert(emit_cast(s, v, from, to) == (Ok::<ValView, crate::state::ErrorView>(r), t));
        lemma_two_casts(
            m,
            s,
            CastKind::ZeroExt,
            v,
            LTyView::Int(32),
            CastKind::UnsignedToFloat,
            ty,
            f,
        )
    } else if w == 32 {
        lemma_cast(m, s, CastKind::SignedToFloat, v, ty, f)
    } else {
        lemma_cast(m, s, CastKind::UnsignedToFloat, v, ty, f)
    }
}

/// A float that is converted to an integer type becomes its integer part, where the type has it; a
/// float that is converted to another float type is rounded to it; as a `bool` it is true where it
/// is not zero.
pub proof fn law_float_as_number(
    m: Machine,
    s: State,
    v: ValView,
    from: TypeView,
    to: TypeView,
    x: int,
    f: Frame,
) -> (g: Frame)
    requires
        writable(s.out.cur),
        countable(emit_cast(s, v, from, to).1.out.cur),
        known(s.out.cur, v),
        float_type(from) == Some(v.ty),
        value(m, f, v) == Word::Real(x),
        from != to,
        integer_type(to) is Some || float_type(to) is Some,
    ensures
        ({
            let (r, t) = emit_cast(s, v, from, to);
            &&& r is Ok
            &&& goes(m, s.out.cur, t.out.cur, f, g)
            &&& same_rest(s, t)
            &&& known(t.out.cur, r->Ok_0)
            &&& g.mem == f.mem
            &&& float_type(to) is Some ==> value(m, g, r->Ok_0) == Word::Real(
                (m.rounded)(x, float_type(to)->Some_0),
            )
            &&& to is Bool ==> value(m, g, r->Ok_0) == bit(
                (m.less)(x, (m.constant)(FloatConstView::FromInt(0), v.ty)) || (m.less)(
                    (m.constant)(FloatConstView::FromInt(0), v.ty),
                    x,
                ),
            )
            &&& integer_type(to) is Some && !(to is Bool) ==> {
                let (w, has_sign) = integer_type(to)->Some_0;
                let n = (m.whole)(x);
                (if has_sign {
                    -range(w) <= 2 * n < range(w)
                } else {
                    0 <= n < range(w)
                }) ==> value(m, g, r->Ok_0) == Word::Bits(wrapped(n, w))
            }
        }),
{
    reveal(emit_cast);
    reveal(is_lowered_to);
    reveal(lower_type);
    reveal(machine_type);
    reveal(array_to_slice_spec);
    reveal(slice_element);
    reveal(cast_to_bool);
    reveal(cast_plain);
    reveal(cast_width_spec);
    reveal(check_number_spec);
    reveal(cast_float);
    reveal(need_int_spec);
    reveal(floating);
    reveal(signed);
    reveal(float_ty_spec);
    lemma_ranges();
    if to is Bool {
        reveal(float_test);
        let zero = ValView { op: OperandView::Float(FloatConstView::FromInt(0)), ty: v.ty };
        lemma_plain(m, s, InstView::FloatTest(FloatPred::Ne, v, zero), LTyView::Int(1), f)
    } else if float_type(to) is Some {
        if v.ty is F32 {
            lemma_cast(m, s, CastKind::FloatExt, v, LTyView::F64, f)
        } else {
            lemma_cast(m, s, CastKind::FloatTrunc, v, LTyView::F32, f)
        }
    } else {
        let (w, has_sign) = integer_type(to)->Some_0;
        assert(machine_type(s.env, to) == Some(LTyView::Int(w)));
        let n = (m.whole)(x);
        if 0 <= n < range(w) {
            vstd::arithmetic::div_mod::lemma_small_mod(n as nat, range(w) as nat);
        }
        if has_sign {
            lemma_cast(m, s, CastKind::FloatToSigned, v, LTyView::Int(w), f)
        } else {
            lemma_cast(m, s, CastKind::FloatToUnsigned, v, LTyView::Int(w), f)
        }
    }
}

/// A pointer that is converted to an integer becomes its number, as far as the bits of the type
/// hold it.
pub proof fn law_pointer_as_integer(
    m: Machine,
    s: State,
    v: ValView,
    from: TypeView,
    to: TypeView,
    f: Frame,
) -> (g: Frame)
    requires
        writable(s.out.cur),
        countable(emit_cast(s, v, from, to).1.out.cur),
        known(s.out.cur, v),
        v.ty == LTyView::Ptr,
        !(from is Never),
        from != to,
        integer_type(to) is Some,
        !(to is Bool),
    ensures
        ({
            let (w, has_sign) = integer_type(to)->Some_0;
            let (r, t) = emit_cast(s, v, from, to);
            &&& r is Ok
            &&& goes(m, s.out.cur, t.out.cur, f, g)
            &&& same_rest(s, t)
            &&& r->Ok_0.ty == LTyView::Int(w)
            &&& value(m, g, r->Ok_0) == Word::Bits(wrapped((m.number)(value(m, f, v)), w))
        }),
{
    reveal(emit_cast);
    reveal(is_lowered_to);
    reveal(lower_type);
    reveal(machine_type);
    reveal(array_to_slice_spec);
    reveal(slice_element);
    reveal(int_width);
    reveal(ptr_to_int);
    lemma_ranges();
    let (w, has_sign) = integer_type(to)->Some_0;
    assert(machine_type(s.env, to) == Some(LTyView::Int(w)));
    let (n, s1) = cast(s, CastKind::PtrToInt, v, LTyView::Int(64));
    let (r, t) = ptr_to_int(s, v, w);
    assert(emit_cast(s, v, from, to) == (Ok::<ValView, crate::state::ErrorView>(r), t));
    if w < 64 {
        let n = (m.number)(value(m, f, v));
        let d = range(w);
        let k = vstd::arithmetic::power2::pow2((64 - w) as nat) as int;
        assert(range(64) == d * k && k > 0) by {
            reveal(range);
            vstd::arithmetic::power2::lemma_pow2_adds(w as nat, (64 - w) as nat);
            vstd::arithmetic::power2::lemma_pow2_pos((64 - w) as nat);
        }
        vstd::arithmetic::div_mod::lemma_mod_mod(n, d, k);
        vstd::arithmetic::div_mod::lemma_mod_bound(n, range(64));
        lemma_two_casts(
            m,
            s,
            CastKind::PtrToInt,
            v,
            LTyView::Int(64),
            CastKind::Trunc,
            LTyView::Int(w),
            f,
        )
    } else {
        lemma_cast(m, s, CastKind::PtrToInt, v, LTyView::Int(64), f)
    }
}

/// An integer that is converted to a pointer is one to the place with that number.
pub proof fn law_integer_as_pointer(
    m: Machine,
    s: State,
    v: ValView,
    from: TypeView,
    to: TypeView,
    w: u32,
    x: nat,
    f: Frame,
) -> (g: Frame)
    requires
        writable(s.out.cur),
        countable(emit_cast(s, v, from, to).1.out.cur),
        known(s.out.cur, v),
        v.ty == LTyView::Int(w),
        usual_width(w),
        value(m, f, v) == Word::Bits(x),
        !(from is Never),
        from != to,
        to is Ptr,
    ensures
        ({
            let (r, t) = emit_cast(s, v, from, to);
            &&& r is Ok
            &&& goes(m, s.out.cur, t.out.cur, f, g)
            &&& same_rest(s, t)
            &&& r->Ok_0.ty == LTyView::Ptr
            &&& value(m, g, r->Ok_0) == (m.place)(x as int)
        }),
{
    reveal(emit_cast);
    reveal(is_lowered_to);
    reveal(lower_type);
    reveal(machine_type);
    reveal(array_to_slice_spec);
    reveal(slice_element);
    reveal(cast_to_ptr);
    let (n, s1) = cast(s, CastKind::ZeroExt, v, LTyView::Int(64));
    let (r, t) = cast_to_ptr(s, v);
    assert(emit_cast(s, v, from, to) == (Ok::<ValView, crate::state::ErrorView>(r), t));
    if w < 64 {
        lemma_two_casts(
            m,
            s,
            CastKind::ZeroExt,
            v,
            LTyView::Int(64),
            CastKind::IntToPtr,
            LTyView::Ptr,
            f,
        )
    } else {
        lemma_cast(m, s, CastKind::IntToPtr, v, LTyView::Ptr, f)
    }
}

} // verus!
