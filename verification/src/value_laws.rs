//! What holds of values when they are computed, read and put together.
use crate::ast::BinOp;
use crate::builder::{
    begin, cast, elem_ptr, emit, emit_value, extract, fat_ptr, insert, int_const, int_test, invert,
    load, make_fat, undef,
};
use crate::cast_laws::{float_type, integer_type, lemma_ranges, number, usual_width};
use crate::casts::{const_value_to_llvm, slice_of_array};
use crate::consts::{
    bool_binary_spec, const_cast, const_minus_spec, const_not_spec, int_binary, inverted, negated,
};
use crate::derives::{check_copy_fields, check_copy_fields_here, derive_copy};
use crate::exprs::{
    compile_enum_lit, compile_payload, compile_unary, minus, tagged_value, variant_field,
};
use crate::growth::extended;
use crate::infer::{enum_name_of, ty_of};
use crate::ir::{CastKind, FloatConstView, InstView, IntPred, LTyView, OperandView, ValView};
use crate::lists::{first_at, first_index};
use crate::machine::{
    Frame, Machine, Word, bit, bits_of_type, part, part_place, range, read, truncated, value,
    with_part, wrapped,
};
use crate::method_laws::{answers, entry, lemma_begun, lemma_finished, lemma_next};
use crate::model::{ExprView, StructDeclView, StructFieldView, TypeView};
use crate::nesting::{Nested, nested_expr};
use crate::operator_laws::lemma_adds;
use crate::operators::{add_trait, arg_spec, declare_builtin, slice_index_code, slice_len_code};
use crate::pattern_laws::{
    countable_types, has_tag, is_variant, lemma_extract, lemma_extract_adds, lemma_literal,
    lemma_payload, lemma_variant, payload_type, place_of_payload, place_of_variant,
};
use crate::patterns::{field_position_here, field_position_spec, payload_field, variant_number};
use crate::places::{
    field_number, field_type_at, is_aggregate_spec, load_ident, low_bit, member_number, member_of,
    read_through, string_literal, to_bit, tuple_value, tuple_value_each, value_types_spec,
};
use crate::query::{copies, implements, lower_type, machine_type};
use crate::running::{
    countable, goes, known, lemma_countable, lemma_extended, lemma_goes_refl, lemma_goes_trans,
    lemma_known, lemma_plain, lemma_spill, lemma_value, same_rest, writable,
};
use crate::scopes::{fit_arg, note_given};
use crate::state::{ConstValueView, EnvView, ErrorView, OutView, State};
use crate::text::byte_size;
use crate::token::Span;
use vstd::prelude::*;

verus! {

/// A number behind a minus is the number with the other sign, of which an integer keeps what fits;
/// a truth value behind a `!` is the other one, an integer has all its bits inverted.
pub proof fn law_unary_operator(
    m: Machine,
    s: State,
    k: Nested,
    e: ExprView,
    operand: ExprView,
    f: Frame,
) -> (g: Frame)
    requires
        e matches ExprView::UnaryMinus(x, _) ==> *x == operand,
        e matches ExprView::UnaryNot(x, _) ==> *x == operand,
        e is UnaryMinus || e is UnaryNot,
        nested_expr(s, k, operand).0 is Ok,
        ({
            let (v, s1) = nested_expr(s, k, operand);
            &&& writable(s1.out.cur)
            &&& known(s1.out.cur, v->Ok_0)
            &&& v->Ok_0.ty is Int && value(m, f, v->Ok_0) is Bits || (v->Ok_0.ty is F32
                || v->Ok_0.ty is F64) && value(m, f, v->Ok_0) is Real && e is UnaryMinus
        }),
        countable(compile_unary(s, k, e).1.out.cur),
    ensures
        ({
            let (v, s1) = nested_expr(s, k, operand);
            let w = bits_of_type(v->Ok_0.ty);
            let (r, t) = compile_unary(s, k, e);
            &&& r is Ok
            &&& goes(m, s1.out.cur, t.out.cur, f, g)
            &&& r->Ok_0.ty == v->Ok_0.ty
            &&& value(m, g, r->Ok_0) == match value(m, f, v->Ok_0) {
                Word::Bits(x) => if e is UnaryMinus {
                    Word::Bits(wrapped(-x, w))
                } else {
                    Word::Bits(wrapped(-1 - x, w))
                },
                Word::Real(x) => Word::Real((m.opposite)(x)),
                _ => Word::Unknown,
            }
            &&& e is UnaryNot && v->Ok_0.ty == LTyView::Int(1) ==> forall|b: bool|
                value(m, f, v->Ok_0) == #[trigger] bit(b) ==> value(m, g, r->Ok_0) == bit(!b)
        }),
{
    reveal(compile_unary);
    reveal(minus);
    reveal(invert);
    lemma_ranges();
    let (v, s1) = nested_expr(s, k, operand);
    let v = v->Ok_0;
    if e is UnaryNot {
        lemma_plain(m, s1, InstView::Not(v), v.ty, f)
    } else if v.ty is Int {
        lemma_plain(m, s1, InstView::Neg(v), v.ty, f)
    } else {
        lemma_plain(m, s1, InstView::FloatNeg(v), v.ty, f)
    }
}

/// A truth value that an integer stands for says whether the integer is not zero.
pub proof fn law_truth_of_integer(
    m: Machine,
    s: State,
    v: ValView,
    msg: Seq<char>,
    w: u32,
    x: nat,
    f: Frame,
) -> (g: Frame)
    requires
        writable(s.out.cur),
        countable(to_bit(s, v, msg).1.out.cur),
        known(s.out.cur, v),
        v.ty == LTyView::Int(w),
        usual_width(w),
        value(m, f, v) == Word::Bits(x),
        x < range(w),
    ensures
        ({
            let (r, t) = to_bit(s, v, msg);
            &&& r is Ok
            &&& goes(m, s.out.cur, t.out.cur, f, g)
            &&& same_rest(s, t)
            &&& known(t.out.cur, r->Ok_0)
            &&& value(m, g, r->Ok_0) == bit(x != 0)
        }),
{
    reveal(to_bit);
    reveal(int_test);
    lemma_ranges();
    lemma_goes_refl(m, s.out.cur, f);
    if w == 1 {
        f
    } else {
        let zero = ValView { op: OperandView::Int(0), ty: v.ty };
        assert(wrapped(0, w) == 0);
        lemma_plain(m, s, InstView::IntTest(IntPred::Ne, v, zero), LTyView::Int(1), f)
    }
}

/// A variable has the value that was stored where it is; a constant has its value.
pub proof fn law_names_have_their_values(
    m: Machine,
    s: State,
    name: Seq<char>,
    place: Span,
    f: Frame,
) -> (g: Frame)
    requires
        writable(s.out.cur),
        load_ident(s, name, place).0 is Ok,
        countable(load_ident(s, name, place).1.out.cur),
    ensures
        ({
            let (r, t) = load_ident(s, name, place);
            let v = r->Ok_0;
            &&& goes(m, s.out.cur, t.out.cur, f, g)
            &&& !s.fun.consts.contains_key(name) ==> s.fun.symbols.contains_key(name) && value(
                m,
                g,
                v,
            ) == read(f.mem, value(m, f, s.fun.symbols[name].0)) && machine_type(
                s.env,
                s.fun.symbols[name].2,
            ) == Some(v.ty)
            &&& s.fun.consts.contains_key(name) ==> match s.fun.consts[name] {
                (ConstValueView::Int(n), ty) => integer_type(ty) is Some ==> value(m, g, v)
                    == Word::Bits(wrapped(n as int, integer_type(ty)->Some_0.0)),
                (ConstValueView::Bool(b), _) => value(m, g, v) == bit(b),
                (ConstValueView::Float(c), ty) => float_type(ty) is Some ==> value(m, g, v)
                    == Word::Real((m.constant)(c, float_type(ty)->Some_0)),
            }
        }),
{
    reveal(load_ident);
    reveal(const_value_to_llvm);
    reveal(lower_type);
    reveal(machine_type);
    reveal(int_const);
    reveal(load);
    lemma_ranges();
    lemma_goes_refl(m, s.out.cur, f);
    if s.fun.consts.contains_key(name) {
        match s.fun.consts[name] {
            (ConstValueView::Int(n), ty) => {
                if integer_type(ty) is Some {
                    lemma_literal(n, integer_type(ty)->Some_0.0);
                }
            },
            _ => {},
        }
        assert(wrapped(1, 1) == 1 && wrapped(0, 1) == 0);
        f
    } else {
        let v = s.fun.symbols[name];
        let lty = lower_type(s.env, v.2)->Ok_0;
        lemma_plain(m, s, InstView::Load(lty, v.0), lty, f)
    }
}

/// Whether `i` is the place of a field in its struct.
pub open spec fn is_field(env: EnvView, owner: Seq<char>, field: Seq<char>, i: int) -> bool {
    &&& env.struct_fields.contains_key(owner)
    &&& 0 <= i < env.struct_fields[owner].len()
    &&& env.struct_fields[owner][i].name == field
    &&& forall|j: int| 0 <= j < i ==> (#[trigger] env.struct_fields[owner][j]).name != field
}

/// A field is found at its place in the declaration.
pub proof fn law_field_number(env: EnvView, owner: Seq<char>, field: Seq<char>)
    requires
        field_number(env, owner, field) is Ok,
        env.struct_fields[owner].len() <= u32::MAX,
    ensures
        is_field(env, owner, field, field_number(env, owner, field)->Ok_0 as int),
{
    reveal(field_number);
    reveal(field_position_spec);
    let fs = env.struct_fields[owner];
    let here = field_position_here(field);
    let i = choose|i: int| crate::lists::first_at(fs, here, i);
    assert(crate::lists::first_at(fs, here, i));
    assert forall|j: int| 0 <= j < i implies (#[trigger] fs[j]).name != field by {
        assert(!here(fs[j]));
    }
}

/// A member of a struct or a tuple is the part at its place, of the value itself or of what a
/// pointer to it points to.
pub proof fn law_member(
    m: Machine,
    s: State,
    v: ValView,
    ty: TypeView,
    field: Option<Seq<char>>,
    index: usize,
    place: Span,
    f: Frame,
) -> (g: Frame)
    requires
        writable(s.out.cur),
        known(s.out.cur, v),
        member_of(s, v, ty, field, index, place).0 is Ok,
        countable(member_of(s, v, ty, field, index, place).1.out.cur),
    ensures
        ({
            let (r, t) = member_of(s, v, ty, field, index, place);
            let whole = if v.ty is Ptr {
                read(f.mem, value(m, f, v))
            } else {
                value(m, f, v)
            };
            let number = member_number(s, ty, field, index, place);
            &&& number is Ok
            &&& field is None ==> number->Ok_0 == index as u32
            &&& goes(m, s.out.cur, t.out.cur, f, g)
            &&& same_rest(s, t)
            &&& known(t.out.cur, r->Ok_0)
            &&& value(m, g, r->Ok_0) == part(whole, number->Ok_0 as nat)
        }),
{
    reveal(member_of);
    reveal(read_through);
    reveal(is_aggregate_spec);
    reveal(load);
    lemma_goes_refl(m, s.out.cur, f);
    crate::growth::lemma_extended_refl(s.out.cur);
    let (got, s1) = read_through(s, v, ty);
    let x = got->Ok_0;
    reveal(member_number);
    reveal(crate::places::visible_field);
    let k = member_number(s1, ty, field, index, place)->Ok_0;
    if v.ty is Ptr {
        let lty = match ty {
            TypeView::Ref { inner, .. } => lower_type(s.env, *inner)->Ok_0,
            _ => lower_type(s.env, ty)->Ok_0,
        };
        assert(ty is Ref || ty is Struct || ty is GenericInstance);
        let inst = InstView::Load(lty, v);
        lemma_adds(s, inst, lty);
        lemma_extract_adds(s1, x, k);
        lemma_countable(s1.out.cur, extract(s1, x, k).1.out.cur);
        let h = lemma_plain(m, s, inst, lty, f);
        let g = lemma_extract(m, s1, x, k, h);
        lemma_goes_trans(m, s.out.cur, s1.out.cur, extract(s1, x, k).1.out.cur, f, h, g);
        g
    } else {
        lemma_extract(m, s, v, k, f)
    }
}

proof fn lemma_tuple_adds(s: State, vals: Seq<ValView>, agg: ValView, i: nat)
    ensures
        extended(s.out.cur, tuple_value_each(s, vals, agg, i).1.out.cur),
        same_rest(s, tuple_value_each(s, vals, agg, i).1),
    decreases vals.len() - i,
{
    reveal(tuple_value_each);
    reveal(insert);
    crate::growth::lemma_extended_refl(s.out.cur);
    if i < vals.len() {
        let v = vals[i as int];
        let k = (i as usize) as u32;
        lemma_adds(s, InstView::Insert(agg, v, k), agg.ty);
        let (got, s1) = insert(s, agg, v, k);
        match got {
            Some(more) => {
                lemma_tuple_adds(s1, vals, more, i + 1);
                lemma_extended(
                    s.out.cur,
                    s1.out.cur,
                    tuple_value_each(s1, vals, more, i + 1).1.out.cur,
                );
            },
            None => {},
        }
    }
}

proof fn lemma_tuple(
    m: Machine,
    s: State,
    vals: Seq<ValView>,
    agg: ValView,
    i: nat,
    words: Seq<Word>,
    f: Frame,
) -> (g: Frame)
    requires
        writable(s.out.cur),
        i <= vals.len() <= u32::MAX,
        words.len() == vals.len(),
        tuple_value_each(s, vals, agg, i).0 is Ok,
        countable(tuple_value_each(s, vals, agg, i).1.out.cur),
        known(s.out.cur, agg),
        forall|j: int|
            0 <= j < vals.len() ==> known(s.out.cur, #[trigger] vals[j]) && value(m, f, vals[j])
                == words[j],
        forall|j: int| 0 <= j < i ==> part(value(m, f, agg), j as nat) == #[trigger] words[j],
    ensures
        ({
            let (r, t) = tuple_value_each(s, vals, agg, i);
            &&& goes(m, s.out.cur, t.out.cur, f, g)
            &&& known(t.out.cur, r->Ok_0)
            &&& forall|j: int|
                0 <= j < words.len() ==> part(value(m, g, r->Ok_0), j as nat) == #[trigger] words[j]
        }),
    decreases vals.len() - i,
{
    reveal(tuple_value_each);
    if i < vals.len() {
        reveal(insert);
        let v = vals[i as int];
        let k = (i as usize) as u32;
        let inst = InstView::Insert(agg, v, k);
        let (got, s1) = insert(s, agg, v, k);
        let more = got->Some_0;
        lemma_adds(s, inst, agg.ty);
        lemma_tuple_adds(s1, vals, more, i + 1);
        let t = tuple_value_each(s, vals, agg, i).1;
        lemma_countable(s1.out.cur, t.out.cur);
        let h = lemma_plain(m, s, inst, agg.ty, f);
        assert forall|j: int| 0 <= j < vals.len() implies known(s1.out.cur, #[trigger] vals[j])
            && value(m, h, vals[j]) == words[j] by {
            lemma_known(s.out.cur, s1.out.cur, vals[j]);
            lemma_value(m, s.out.cur, f, h, vals[j]);
        }
        assert(value(m, h, more) == with_part(value(m, f, agg), i, words[i as int]));
        let g = lemma_tuple(m, s1, vals, more, i + 1, words, h);
        lemma_goes_trans(m, s.out.cur, s1.out.cur, t.out.cur, f, h, g);
        g
    } else {
        lemma_goes_refl(m, s.out.cur, f);
        f
    }
}

/// The parts of a tuple are the values that it is made of, in their order.
pub proof fn law_tuple(
    m: Machine,
    s: State,
    vals: Seq<ValView>,
    words: Seq<Word>,
    f: Frame,
) -> (g: Frame)
    requires
        writable(s.out.cur),
        vals.len() <= u32::MAX,
        words.len() == vals.len(),
        tuple_value(s, vals).0 is Ok,
        countable(tuple_value(s, vals).1.out.cur),
        forall|j: int|
            0 <= j < vals.len() ==> known(s.out.cur, #[trigger] vals[j]) && value(m, f, vals[j])
                == words[j],
    ensures
        ({
            let (r, t) = tuple_value(s, vals);
            &&& goes(m, s.out.cur, t.out.cur, f, g)
            &&& known(t.out.cur, r->Ok_0)
            &&& forall|j: int|
                0 <= j < words.len() ==> part(value(m, g, r->Ok_0), j as nat) == #[trigger] words[j]
        }),
{
    reveal(tuple_value);
    lemma_tuple(m, s, vals, undef(LTyView::Struct(value_types_spec(vals))), 0, words, f)
}

/// A pointer with a length has the two as its parts.
proof fn lemma_fat(m: Machine, s: State, p: ValView, len: ValView, f: Frame) -> (g: Frame)
    requires
        writable(s.out.cur),
        known(s.out.cur, p),
        known(s.out.cur, len),
        countable(make_fat(s, p, len).1.out.cur),
    ensures
        ({
            let (r, t) = make_fat(s, p, len);
            &&& goes(m, s.out.cur, t.out.cur, f, g)
            &&& known(t.out.cur, r)
            &&& part(value(m, g, r), 0) == value(m, f, p)
            &&& part(value(m, g, r), 1) == value(m, f, len)
        }),
{
    reveal(make_fat);
    let first = InstView::Insert(undef(fat_ptr()), p, 0);
    let (a, s1) = emit_value(s, first, fat_ptr());
    let second = InstView::Insert(a, len, 1);
    let t = emit_value(s1, second, fat_ptr()).1;
    lemma_adds(s, first, fat_ptr());
    lemma_adds(s1, second, fat_ptr());
    lemma_countable(s1.out.cur, t.out.cur);
    let h = lemma_plain(m, s, first, fat_ptr(), f);
    lemma_value(m, s.out.cur, f, h, len);
    let g = lemma_plain(m, s1, second, fat_ptr(), h);
    lemma_goes_trans(m, s.out.cur, s1.out.cur, t.out.cur, f, h, g);
    g
}

/// A string literal is a pointer to a constant that holds its text, with the number of its bytes.
pub proof fn law_string_literal(m: Machine, s: State, text: Seq<char>, f: Frame) -> (g: Frame)
    requires
        writable(s.out.cur),
        s.out.strings.len() < usize::MAX,
        countable(string_literal(s, text).1.out.cur),
    ensures
        ({
            let (r, t) = string_literal(s, text);
            let n = s.out.strings.len();
            &&& t.out.strings == s.out.strings.push(text)
            &&& goes(m, s.out.cur, t.out.cur, f, g)
            &&& part(value(m, g, r), 0) == (m.string)(n as usize)
            &&& part(value(m, g, r), 1) == Word::Bits(byte_size(text) as nat)
        }),
{
    reveal(string_literal);
    let s1 = State { out: OutView { strings: s.out.strings.push(text), ..s.out }, ..s };
    let p = ValView { op: OperandView::Str(s.out.strings.len() as usize), ty: LTyView::Ptr };
    let len = int_const(64, byte_size(text) as u64);
    reveal(int_const);
    lemma_ranges();
    let x = byte_size(text) as u64 as int;
    assert(wrapped(x, 64) == x) by {
        vstd::arithmetic::div_mod::lemma_small_mod(x as nat, range(64) as nat);
    }
    assert(string_literal(s, text).1.out.strings == s1.out.strings) by {
        reveal(make_fat);
        reveal(emit_value);
        reveal(emit);
    }
    lemma_fat(m, s1, p, len, f)
}

/// An enum value of a variant has the tag of that variant.
pub proof fn law_variant_has_its_tag(
    m: Machine,
    s: State,
    owner: Seq<char>,
    variant: Seq<char>,
    f: Frame,
) -> (g: Frame)
    requires
        writable(s.out.cur),
        tagged_value(s, owner, variant).0 is Ok,
        countable(tagged_value(s, owner, variant).1.out.cur),
        countable_types(s.env),
    ensures
        ({
            let (r, t) = tagged_value(s, owner, variant);
            &&& goes(m, s.out.cur, t.out.cur, f, g)
            &&& same_rest(s, t)
            &&& known(t.out.cur, r->Ok_0)
            &&& r->Ok_0.ty == LTyView::Named(owner)
            &&& is_variant(s.env, owner, variant, place_of_variant(s.env, owner, variant))
            &&& has_tag(s.env, owner, variant, value(m, g, r->Ok_0))
        }),
{
    reveal(tagged_value);
    reveal(insert);
    reveal(int_const);
    let tag = variant_number(s.env, owner, variant)->Ok_0;
    assert(s.env.enum_defs[owner].variants.len() <= usize::MAX);
    lemma_variant(s.env, owner, variant);
    let lty = LTyView::Named(owner);
    lemma_plain(m, s, InstView::Insert(undef(lty), int_const(8, tag), 0), lty, f)
}

/// A value that has the tags of two variants has one of them twice, as long as the tags of the enum
/// fit in their bits.
pub proof fn law_tags_differ(
    env: EnvView,
    owner: Seq<char>,
    a: Seq<char>,
    b: Seq<char>,
    w: Word,
)
    requires
        exists|i: int| is_variant(env, owner, a, i),
        exists|i: int| is_variant(env, owner, b, i),
        env.enum_defs[owner].variants.len() <= 256,
        has_tag(env, owner, a, w),
        has_tag(env, owner, b, w),
    ensures
        a == b,
{
    lemma_ranges();
    let i = place_of_variant(env, owner, a);
    let j = place_of_variant(env, owner, b);
    assert(is_variant(env, owner, a, i));
    assert(is_variant(env, owner, b, j));
    vstd::arithmetic::div_mod::lemma_small_mod(i as nat, 256);
    vstd::arithmetic::div_mod::lemma_small_mod(j as nat, 256);
}

/// The method `len` of an array type gives the number of elements.
pub proof fn law_array_length(
    m: Machine,
    s: State,
    f: Seq<char>,
    len: usize,
    p: Word,
    mem: Seq<Word>,
)
    requires
        !s.out.bodies.contains_key(f),
    ensures
        ({
            let (r, t) = slice_len_code(s, f, len);
            &&& r is Ok
            &&& t.out.bodies.contains_key(f)
            &&& answers(m, t.out.bodies[f], seq![p], mem, Word::Bits(len as nat), mem)
        }),
{
    reveal(slice_len_code);
    reveal(int_const);
    lemma_ranges();
    let args = seq![p];
    let lty = LTyView::Int(64);
    let s0 = begin(declare_builtin(s, f, seq![LTyView::Ptr], lty), f);
    lemma_begun(s, f, seq![LTyView::Ptr], lty, args, mem);
    let e = entry(args, mem).frame;
    lemma_goes_refl(m, s0.out.cur, e);
    vstd::arithmetic::div_mod::lemma_small_mod(len as nat, range(64) as nat);
    lemma_finished(m, s0, s0, int_const(64, len as u64), args, mem, e);
}

/// The method `index` of an array type gives the place of the element with that index.
pub proof fn law_array_index(
    m: Machine,
    s: State,
    f: Seq<char>,
    lty: LTyView,
    p: Word,
    i: nat,
    mem: Seq<Word>,
)
    requires
        !s.out.bodies.contains_key(f),
    ensures
        ({
            let (r, t) = slice_index_code(s, f, lty);
            &&& r is Ok
            &&& t.out.bodies.contains_key(f)
            &&& answers(
                m,
                t.out.bodies[f],
                seq![p, Word::Bits(i)],
                mem,
                part_place(p, i),
                mem,
            )
        }),
{
    reveal(slice_index_code);
    reveal(elem_ptr);
    reveal(arg_spec);
    let args = seq![p, Word::Bits(i)];
    let params = seq![LTyView::Ptr, LTyView::Int(64)];
    let s0 = begin(declare_builtin(s, f, params, LTyView::Ptr), f);
    lemma_begun(s, f, params, LTyView::Ptr, args, mem);
    let e = entry(args, mem).frame;
    let inst = InstView::ElemPtr(
        lty,
        arg_spec(0, LTyView::Ptr),
        seq![int_const(64, 0), arg_spec(1, LTyView::Int(64))],
    );
    let (v, s1) = emit_value(s0, inst, LTyView::Ptr);
    let g = lemma_next(m, s0, inst, LTyView::Ptr, e, 0);
    lemma_finished(m, s0, s1, v, args, mem, g);
}

/// An operator on two constant integers gives their sum, difference or product in 64 bits, the
/// quotient rounded towards zero, or tells how they are ordered; nothing is divided by zero.
pub proof fn law_constant_integers(op: BinOp, a: i64, b: i64, span: Span)
    ensures
        ({
            let r = int_binary(op, a, b, span);
            let n = match op {
                BinOp::Add => a + b,
                BinOp::Sub => a - b,
                BinOp::Mul => a * b,
                _ => truncated(a as int, b as int),
            };
            let says = match op {
                BinOp::Eq => a == b,
                BinOp::Neq => a != b,
                BinOp::Lt => a < b,
                BinOp::Gt => a > b,
                BinOp::Le => a <= b,
                BinOp::Ge => a >= b,
                BinOp::And => a != 0 && b != 0,
                _ => a != 0 || b != 0,
            };
            &&& op is Add || op is Sub || op is Mul ==> r is Ok && r->Ok_0 is Int && exists|z: int|
                #![trigger z * 18446744073709551616]
                r->Ok_0->Int_0 == n + z * 18446744073709551616
            &&& op is Div ==> (r is Ok <==> b != 0 && i64::MIN <= n <= i64::MAX) && (r is Ok
                ==> r->Ok_0 is Int && r->Ok_0->Int_0 == n)
            &&& !(op is Add || op is Sub || op is Mul || op is Div) ==> r == Ok::<
                ConstValueView,
                ErrorView,
            >(ConstValueView::Bool(says))
        }),
{
    let n = match op {
        BinOp::Add => a + b,
        BinOp::Sub => a - b,
        BinOp::Mul => a * b,
        _ => truncated(a as int, b as int),
    };
    if op is Add || op is Sub {
        let z: int = if n > i64::MAX {
            -1
        } else if n < i64::MIN {
            1
        } else {
            0
        };
        assert(int_binary(op, a, b, span)->Ok_0->Int_0 == n + z * 18446744073709551616);
    }
    if op is Mul {
        let r = int_binary(op, a, b, span)->Ok_0->Int_0 as int;
        let z = (r - n) / 18446744073709551616;
        assert(r == n + z * 18446744073709551616);
    }
}

/// Two constant truth values are combined and compared as truth values are, and a constant is
/// negated and inverted as its value is.
pub proof fn law_constant_truths(op: BinOp, a: bool, b: bool, n: i64)
    ensures
        op is And ==> bool_binary_spec(op, a, b) == Ok::<ConstValueView, ErrorView>(
            ConstValueView::Bool(a && b),
        ),
        op is Or ==> bool_binary_spec(op, a, b) == Ok::<ConstValueView, ErrorView>(
            ConstValueView::Bool(a || b),
        ),
        op is Eq ==> bool_binary_spec(op, a, b) == Ok::<ConstValueView, ErrorView>(
            ConstValueView::Bool(a == b),
        ),
        op is Neq ==> bool_binary_spec(op, a, b) == Ok::<ConstValueView, ErrorView>(
            ConstValueView::Bool(a != b),
        ),
        const_not_spec(ConstValueView::Bool(a)) == Ok::<ConstValueView, ErrorView>(
            ConstValueView::Bool(!a),
        ),
        negated(n) == -n || n == i64::MIN && negated(n) == n,
        inverted(inverted(n)) == n,
        inverted(n) + n == -1,
{
    reveal(bool_binary_spec);
    reveal(const_not_spec);
}

/// An argument that is an integer is passed as an integer of the bits that are declared: one of
/// fewer bits keeps its number without a sign, of one of more bits what fits is passed. One that is
/// wanted by its address is put on the stack, one that is wanted by its value is read.
pub proof fn law_argument(m: Machine, s: State, v: ValView, t: LTyView, f: Frame) -> (g: Frame)
    requires
        writable(s.out.cur),
        known(s.out.cur, v),
        fit_arg(s, v, t).0 is Ok,
        countable(fit_arg(s, v, t).1.out.cur),
        v.ty is Int && t is Int ==> value(m, f, v) is Bits && value(m, f, v)->Bits_0 < range(
            bits_of_type(v.ty),
        ) && usual_width(bits_of_type(v.ty)) && usual_width(bits_of_type(t)),
    ensures
        ({
            let (r, u) = fit_arg(s, v, t);
            let x = r->Ok_0;
            let w = value(m, f, v);
            &&& goes(m, s.out.cur, u.out.cur, f, g)
            &&& same_rest(s, u)
            &&& known(u.out.cur, x)
            &&& x.ty == t
            &&& v.ty == t ==> value(m, g, x) == w
            &&& v.ty is Int && t is Int ==> value(m, g, x) == Word::Bits(
                wrapped(w->Bits_0 as int, bits_of_type(t)),
            )
            &&& t is Ptr && !(v.ty is Ptr) ==> read(g.mem, value(m, g, x)) == w
            &&& v.ty is Ptr && !(t is Ptr) ==> value(m, g, x) == read(f.mem, w)
        }),
{
    reveal(fit_arg);
    reveal(cast);
    reveal(load);
    lemma_ranges();
    lemma_goes_refl(m, s.out.cur, f);
    if v.ty is Int && t is Int {
        let x = value(m, f, v)->Bits_0;
        if bits_of_type(v.ty) <= bits_of_type(t) {
            vstd::arithmetic::div_mod::lemma_small_mod(x, range(bits_of_type(t)) as nat);
        }
    }
    if v.ty == t {
        f
    } else if t is Ptr {
        lemma_spill(m, s, v.ty, v, f)
    } else if v.ty is Ptr {
        lemma_plain(m, s, InstView::Load(t, v), t, f)
    } else if bits_of_type(v.ty) < bits_of_type(t) {
        lemma_plain(m, s, InstView::Cast(CastKind::ZeroExt, v, t), t, f)
    } else {
        lemma_plain(m, s, InstView::Cast(CastKind::Trunc, v, t), t, f)
    }
}

/// The truth value that a condition stands for is its lowest bit.
pub proof fn law_condition(
    m: Machine,
    s: State,
    v: ValView,
    w: u32,
    x: nat,
    f: Frame,
) -> (g: Frame)
    requires
        writable(s.out.cur),
        countable(low_bit(s, v).1.out.cur),
        known(s.out.cur, v),
        v.ty == LTyView::Int(w),
        value(m, f, v) == Word::Bits(x),
        w == 1 ==> x < 2,
    ensures
        ({
            let (r, t) = low_bit(s, v);
            &&& r is Some
            &&& goes(m, s.out.cur, t.out.cur, f, g)
            &&& same_rest(s, t)
            &&& known(t.out.cur, r->Some_0)
            &&& value(m, g, r->Some_0) == bit(x % 2 == 1)
        }),
{
    reveal(low_bit);
    reveal(cast);
    lemma_ranges();
    lemma_goes_refl(m, s.out.cur, f);
    if w == 1 {
        f
    } else {
        lemma_plain(m, s, InstView::Cast(CastKind::Trunc, v, LTyView::Int(1)), LTyView::Int(1), f)
    }
}

/// A slice of an array is a pointer to the array with the number of its elements.
pub proof fn law_slice_of_array(
    m: Machine,
    s: State,
    v: ValView,
    n: usize,
    f: Frame,
) -> (g: Frame)
    requires
        writable(s.out.cur),
        known(s.out.cur, v),
        v.ty == LTyView::Ptr,
        countable(slice_of_array(s, v, n, true).1.out.cur),
    ensures
        ({
            let (r, t) = slice_of_array(s, v, n, true);
            &&& r is Ok
            &&& goes(m, s.out.cur, t.out.cur, f, g)
            &&& part(value(m, g, r->Ok_0), 0) == value(m, f, v)
            &&& part(value(m, g, r->Ok_0), 1) == Word::Bits(n as nat)
        }),
{
    reveal(slice_of_array);
    reveal(crate::casts::as_ptr_spec);
    reveal(cast);
    reveal(int_const);
    lemma_ranges();
    let inst = InstView::Cast(CastKind::Bit, v, LTyView::Ptr);
    let (q, s1) = emit_value(s, inst, LTyView::Ptr);
    let len = int_const(64, n as u64);
    let t = make_fat(s1, q, len).1;
    lemma_adds(s, inst, LTyView::Ptr);
    assert(extended(s1.out.cur, t.out.cur)) by {
        reveal(make_fat);
        let first = InstView::Insert(undef(fat_ptr()), q, 0);
        let (a, s2) = emit_value(s1, first, fat_ptr());
        lemma_adds(s1, first, fat_ptr());
        lemma_adds(s2, InstView::Insert(a, len, 1), fat_ptr());
        lemma_extended(s1.out.cur, s2.out.cur, t.out.cur);
    }
    lemma_countable(s1.out.cur, t.out.cur);
    let h = lemma_plain(m, s, inst, LTyView::Ptr, f);
    vstd::arithmetic::div_mod::lemma_small_mod(n as nat, range(64) as nat);
    let g = lemma_fat(m, s1, q, len, h);
    lemma_goes_trans(m, s.out.cur, s1.out.cur, t.out.cur, f, h, g);
    g
}

/// A struct for which `Copy` is derived is copied from then on; each of its fields was, and it has
/// `Clone`.
pub proof fn law_derived_copy(s: State, decl: StructDeclView, i: int)
    requires
        derive_copy(s, decl).0 is Ok,
        0 <= i < decl.fields.len(),
    ensures
        copies(s.env, decl.fields[i].ty),
        implements(s.env, TypeView::Struct(decl.name), "Clone"@),
        copies(derive_copy(s, decl).1.env, TypeView::Struct(decl.name)),
{
    reveal(derive_copy);
    reveal(check_copy_fields);
    reveal(add_trait);
    reveal(copies);
    let here = check_copy_fields_here(s.env);
    if !copies(s.env, decl.fields[i].ty) {
        lemma_some_index(decl.fields, here, i);
    }
}

/// Where something holds at a place of a list, there is a first such place.
proof fn lemma_some_index(fields: Seq<StructFieldView>, p: spec_fn(StructFieldView) -> bool, i: int)
    requires
        0 <= i < fields.len(),
        p(fields[i]),
    ensures
        first_index(fields, p) is Some,
    decreases i,
{
    if exists|j: int| 0 <= j < i && p(#[trigger] fields[j]) {
        let j = choose|j: int| 0 <= j < i && p(#[trigger] fields[j]);
        lemma_some_index(fields, p, j);
    } else {
        assert(first_at(fields, p, i));
    }
}

/// A constant that is converted is a truth value where it is not zero, one or zero where it is a
/// truth value, and else keeps its number.
pub proof fn law_constant_conversion(s: State, n: i64, b: bool, to: TypeView)
    ensures
        to is Bool ==> const_cast(s, ConstValueView::Int(n), to) == (
            Ok::<ConstValueView, ErrorView>(ConstValueView::Bool(n != 0)),
            s,
        ),
        integer_type(to) is Some && !(to is Bool) ==> const_cast(s, ConstValueView::Int(n), to) == (
            Ok::<ConstValueView, ErrorView>(ConstValueView::Int(n)),
            s,
        ),
        float_type(to) is Some ==> const_cast(s, ConstValueView::Int(n), to) == (
            Ok::<ConstValueView, ErrorView>(ConstValueView::Float(FloatConstView::FromInt(n))),
            s,
        ),
        integer_type(to) is Some && !(to is Bool) ==> const_cast(s, ConstValueView::Bool(b), to)
            == (
            Ok::<ConstValueView, ErrorView>(
                ConstValueView::Int(
                    if b {
                        1
                    } else {
                        0
                    },
                ),
            ),
            s,
        ),
        const_minus_spec(ConstValueView::Int(n)) is Ok,
        n != i64::MIN ==> const_minus_spec(ConstValueView::Int(n))->Ok_0->Int_0 == -n,
{
    reveal(const_cast);
    reveal(const_minus_spec);
    reveal(crate::types::floating);
    reveal(crate::types::int_width);
}

/// An enum literal with a payload has the tag of its variant and the payload at the place of that
/// variant.
pub proof fn law_enum_literal(
    m: Machine,
    s: State,
    k: Nested,
    e: ExprView,
    owner: Seq<char>,
    agg: ValView,
    s1: State,
    n: u32,
    v: ValView,
    s2: State,
    f: Frame,
) -> (g: Frame)
    requires
        e is EnumLit,
        e->EnumLit_payload is Some,
        owner == enum_name_of(
            s,
            e->EnumLit_enum_name,
            Some(ty_of(s, *e->EnumLit_payload->Some_0)),
        ),
        tagged_value(s, owner, e->EnumLit_variant) == (Ok::<ValView, ErrorView>(agg), s1),
        payload_field(s1.env, owner, e->EnumLit_variant) is Ok,
        s1.env.struct_fields[owner].len() <= u32::MAX,
        n == place_of_payload(s1.env, owner, e->EnumLit_variant),
        n > 0,
        compile_payload(
            s1,
            k,
            *e->EnumLit_payload->Some_0,
            Some(payload_type(s1.env, owner, e->EnumLit_variant)),
        ) == (Ok::<ValView, ErrorView>(v), s2),
        writable(s2.out.cur),
        known(s2.out.cur, agg),
        known(s2.out.cur, v),
        compile_enum_lit(s, k, e).0 is Ok,
        countable(compile_enum_lit(s, k, e).1.out.cur),
    ensures
        ({
            let (r, t) = compile_enum_lit(s, k, e);
            &&& goes(m, s2.out.cur, t.out.cur, f, g)
            &&& part(value(m, g, r->Ok_0), n as nat) == value(m, f, v)
            &&& value(m, f, agg) is Parts ==> part(value(m, g, r->Ok_0), 0) == part(
                value(m, f, agg),
                0,
            )
        }),
{
    reveal(compile_enum_lit);
    reveal(variant_field);
    reveal(field_type_at);
    reveal(insert);
    reveal(note_given);
    lemma_payload(s1.env, owner, e->EnumLit_variant);
    reveal(payload_field);
    assert(variant_field(s1.env, owner, e->EnumLit_variant) == Some(n));
    assert(field_type_at(s1.env, owner, n) == Some(
        payload_type(s1.env, owner, e->EnumLit_variant),
    ));
    lemma_plain(m, s2, InstView::Insert(agg, v, n), agg.ty, f)
}

} // verus!
