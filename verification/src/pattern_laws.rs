//! What holds of patterns when they are tested.
use crate::builder::{binary, emit_value, extract, fields_of, int_const, int_test};
use crate::cast_laws::{lemma_ranges, usual_width};
use crate::growth::extended;
use crate::infer::pattern_owner;
use crate::ir::{BinKind, InstView, IntPred, LTyView, OperandView, ValView};
use crate::lists::first_at;
use crate::machine::{Frame, Machine, Word, bit, bits_of_type, part, range, read, value, wrapped};
use crate::model::{PatternView, TypeView};
use crate::operator_laws::{lemma_adds, lemma_spill_adds};
use crate::patterns::{
    field_position_here, field_position_spec, gen_pattern_check, int_pattern, payload_field,
    tag_test, variant_number, variant_position_here, variant_position_spec,
};
use crate::query::{last_instance, lower_type};
use crate::running::{
    countable, goes, known, lemma_countable, lemma_extended, lemma_goes_refl, lemma_goes_trans,
    lemma_known, lemma_plain, lemma_spill, lemma_value, same_rest, writable,
};
use crate::state::{EnvView, State};
use vstd::prelude::*;

verus! {

/// Whether `i` is the place of a variant in the declaration of its enum.
pub open spec fn is_variant(env: EnvView, owner: Seq<char>, variant: Seq<char>, i: int) -> bool {
    &&& env.enum_defs.contains_key(owner)
    &&& 0 <= i < env.enum_defs[owner].variants.len()
    &&& env.enum_defs[owner].variants[i].name == variant
    &&& forall|j: int| 0 <= j < i ==> (#[trigger] env.enum_defs[owner].variants[j]).name != variant
}

/// The place of a variant in the declaration of its enum.
pub open spec fn place_of_variant(env: EnvView, owner: Seq<char>, variant: Seq<char>) -> int {
    choose|i: int| is_variant(env, owner, variant, i)
}

/// Whether `i` is the field in which the payload of a variant is.
pub open spec fn is_payload(env: EnvView, owner: Seq<char>, variant: Seq<char>, i: int) -> bool {
    &&& env.struct_fields.contains_key(owner)
    &&& 0 <= i < env.struct_fields[owner].len()
    &&& env.struct_fields[owner][i].name == "__"@ + variant
    &&& forall|j: int|
        0 <= j < i ==> (#[trigger] env.struct_fields[owner][j]).name != "__"@ + variant
}

/// The field in which the payload of a variant is.
pub open spec fn place_of_payload(env: EnvView, owner: Seq<char>, variant: Seq<char>) -> int {
    choose|i: int| is_payload(env, owner, variant, i)
}

/// Whether an enum value is of a variant: its tag is the place of the variant.
pub open spec fn has_tag(env: EnvView, owner: Seq<char>, variant: Seq<char>, w: Word) -> bool {
    part(w, 0) == Word::Bits(wrapped(place_of_variant(env, owner, variant), 8))
}

/// The payload of an enum value of a variant.
pub open spec fn payload_word(env: EnvView, owner: Seq<char>, variant: Seq<char>, w: Word) -> Word {
    part(w, place_of_payload(env, owner, variant) as nat)
}

/// The type of the payload of a variant.
pub open spec fn payload_type(env: EnvView, owner: Seq<char>, variant: Seq<char>) -> TypeView {
    env.struct_fields[owner][place_of_payload(env, owner, variant)].ty
}

/// Whether a word of a machine type matches a pattern: an integer matches its own literal and no
/// other one, an enum value the variant that it is of, with a payload that matches; anything
/// matches `_` and a variable.
pub open spec fn matches_pattern(
    s: State,
    p: PatternView,
    w: Word,
    lty: LTyView,
    ty: TypeView,
) -> bool
    decreases p,
{
    match p {
        PatternView::Wildcard => true,
        PatternView::Binding(_) => true,
        PatternView::IntLit(n) => w == Word::Bits(wrapped(n as int, bits_of_type(lty))),
        PatternView::BoolLit(b) => w == bit(b),
        PatternView::EnumVariant { variant, payload, .. } => {
            let owner = pattern_owner(s, ty)->Some_0;
            has_tag(s.env, owner, variant, w) && match payload {
                Some(inner) => matches_pattern(
                    s,
                    *inner,
                    payload_word(s.env, owner, variant, w),
                    fields_of(s, lty)[place_of_payload(s.env, owner, variant)],
                    payload_type(s.env, owner, variant),
                ),
                None => true,
            }
        },
    }
}

/// Whether a word can be tested: where a literal or a tag is looked at, there are bits.
pub open spec fn testable(s: State, p: PatternView, w: Word, lty: LTyView, ty: TypeView) -> bool
    decreases p,
{
    match p {
        PatternView::Wildcard => true,
        PatternView::Binding(_) => true,
        PatternView::IntLit(_) => w is Bits && usual_width(bits_of_type(lty)),
        PatternView::BoolLit(_) => w is Bits && usual_width(bits_of_type(lty)),
        PatternView::EnumVariant { variant, payload, .. } => {
            let owner = pattern_owner(s, ty)->Some_0;
            part(w, 0) is Bits && (has_tag(s.env, owner, variant, w) ==> match payload {
                Some(inner) => testable(
                    s,
                    *inner,
                    payload_word(s.env, owner, variant, w),
                    fields_of(s, lty)[place_of_payload(s.env, owner, variant)],
                    payload_type(s.env, owner, variant),
                ),
                None => true,
            })
        },
    }
}

/// The variable that a pattern binds, with its value and its type, if there is one.
pub open spec fn bound(
    s: State,
    p: PatternView,
    w: Word,
    ty: TypeView,
) -> Option<(Seq<char>, Word, TypeView)>
    decreases p,
{
    match p {
        PatternView::Binding(name) => Some((name, w, ty)),
        PatternView::EnumVariant { variant, payload, .. } => {
            let owner = pattern_owner(s, ty)->Some_0;
            match payload {
                Some(inner) => bound(
                    s,
                    *inner,
                    payload_word(s.env, owner, variant, w),
                    payload_type(s.env, owner, variant),
                ),
                None => None,
            }
        },
        _ => None,
    }
}

/// Whether variables hold what a pattern binds.
pub open spec fn holds_bound(
    m: Machine,
    g: Frame,
    bindings: Seq<(Seq<char>, ValView, TypeView)>,
    b: Option<(Seq<char>, Word, TypeView)>,
) -> bool {
    match b {
        Some((name, w, ty)) => {
            &&& bindings.len() == 1
            &&& bindings[0].0 == name
            &&& bindings[0].2 == ty
            &&& read(g.mem, value(m, g, bindings[0].1)) == w
        },
        None => bindings.len() == 0,
    }
}

/// Whether all variables of a pattern are there.
pub open spec fn all_known(s: State, bindings: Seq<(Seq<char>, ValView, TypeView)>) -> bool {
    forall|i: int| 0 <= i < bindings.len() ==> known(s.out.cur, (#[trigger] bindings[i]).1)
}

pub proof fn lemma_variant(env: EnvView, owner: Seq<char>, variant: Seq<char>)
    requires
        variant_number(env, owner, variant) is Ok,
        env.enum_defs[owner].variants.len() <= usize::MAX,
    ensures
        is_variant(env, owner, variant, variant_number(env, owner, variant)->Ok_0 as int),
        place_of_variant(env, owner, variant) == variant_number(env, owner, variant)->Ok_0,
{
    reveal(variant_number);
    reveal(variant_position_spec);
    let vs = env.enum_defs[owner].variants;
    let here = variant_position_here(variant);
    let i = choose|i: int| first_at(vs, here, i);
    assert(first_at(vs, here, i));
    assert(is_variant(env, owner, variant, i)) by {
        assert forall|j: int| 0 <= j < i implies (#[trigger] vs[j]).name != variant by {
            assert(!here(vs[j]));
        }
    }
    let k = place_of_variant(env, owner, variant);
    assert(is_variant(env, owner, variant, k));
    if k < i {
        assert(vs[k].name == variant);
    }
}

pub proof fn lemma_payload(env: EnvView, owner: Seq<char>, variant: Seq<char>)
    requires
        payload_field(env, owner, variant) is Ok,
        env.struct_fields[owner].len() <= u32::MAX,
    ensures
        ({
            let (i, ty) = payload_field(env, owner, variant)->Ok_0;
            &&& place_of_payload(env, owner, variant) == i
            &&& payload_type(env, owner, variant) == ty
        }),
{
    reveal(payload_field);
    reveal(field_position_spec);
    let fs = env.struct_fields[owner];
    let name = "__"@ + variant;
    let here = field_position_here(name);
    let i = choose|i: int| first_at(fs, here, i);
    assert(first_at(fs, here, i));
    assert(is_payload(env, owner, variant, i)) by {
        assert forall|j: int| 0 <= j < i implies (#[trigger] fs[j]).name != name by {
            assert(!here(fs[j]));
        }
    }
    let k = place_of_payload(env, owner, variant);
    assert(is_payload(env, owner, variant, k));
    if k < i {
        assert(fs[k].name == name);
    }
}

/// The bits of a literal are the same from 64 bits.
pub proof fn lemma_literal(n: i64, w: u32)
    requires
        usual_width(w),
    ensures
        wrapped((n as u64) as int, w) == wrapped(n as int, w),
{
    lemma_ranges();
    if n < 0 {
        assert((n as u64) as int == n + 18446744073709551616) by (bit_vector)
            requires
                n < 0,
        ;
        let d = range(w);
        reveal(range);
        vstd::arithmetic::power2::lemma_pow2_adds(w as nat, (64 - w) as nat);
        let k = vstd::arithmetic::power2::pow2((64 - w) as nat) as int;
        assert(d * k == 18446744073709551616);
        vstd::arithmetic::div_mod::lemma_mod_multiples_vanish(k, n as int, d);
    }
}

/// Whether the fields and variants of all types can be counted.
pub open spec fn countable_types(env: EnvView) -> bool {
    &&& forall|n: Seq<char>| (#[trigger] env.enum_defs[n]).variants.len() <= usize::MAX
    &&& forall|n: Seq<char>| (#[trigger] env.struct_fields[n]).len() <= u32::MAX
}

/// Whether what patterns are resolved by is the same.
proof fn lemma_same_meaning(s: State, t: State, p: PatternView, w: Word, lty: LTyView, ty: TypeView)
    requires
        same_rest(s, t),
    ensures
        pattern_owner(t, ty) == pattern_owner(s, ty),
        fields_of(t, lty) == fields_of(s, lty),
        matches_pattern(t, p, w, lty, ty) == matches_pattern(s, p, w, lty, ty),
        testable(t, p, w, lty, ty) == testable(s, p, w, lty, ty),
        bound(t, p, w, ty) == bound(s, p, w, ty),
    decreases p,
{
    reveal(pattern_owner);
    reveal(last_instance);
    reveal(fields_of);
    match p {
        PatternView::EnumVariant { variant, payload, .. } => {
            let owner = pattern_owner(s, ty)->Some_0;
            match payload {
                Some(inner) => {
                    lemma_same_meaning(
                        s,
                        t,
                        *inner,
                        payload_word(s.env, owner, variant, w),
                        fields_of(s, lty)[place_of_payload(s.env, owner, variant)],
                        payload_type(s.env, owner, variant),
                    );
                },
                None => {},
            }
        },
        _ => {},
    }
}

pub proof fn lemma_extract_adds(s: State, v: ValView, i: u32)
    ensures
        extended(s.out.cur, extract(s, v, i).1.out.cur),
        same_rest(s, extract(s, v, i).1),
{
    reveal(extract);
    crate::growth::lemma_extended_refl(s.out.cur);
    lemma_adds(s, InstView::Extract(v, i), fields_of(s, v.ty)[i as int]);
}

proof fn lemma_tag_test_adds(s: State, owner: Seq<char>, variant: Seq<char>, v: ValView)
    requires
        writable(s.out.cur),
    ensures
        extended(s.out.cur, tag_test(s, owner, variant, v).1.out.cur),
        writable(tag_test(s, owner, variant, v).1.out.cur),
        same_rest(s, tag_test(s, owner, variant, v).1),
{
    reveal(tag_test);
    reveal(int_test);
    crate::growth::lemma_extended_refl(s.out.cur);
    lemma_extract_adds(s, v, 0);
    let (t, s1) = extract(s, v, 0);
    match (variant_number(s.env, owner, variant), t) {
        (Ok(tag), Some(x)) => {
            let inst = InstView::IntTest(IntPred::Eq, x, int_const(8, tag));
            lemma_adds(s1, inst, LTyView::Int(1));
            lemma_extended(s.out.cur, s1.out.cur, emit_value(s1, inst, LTyView::Int(1)).1.out.cur);
        },
        _ => {},
    }
}

/// Testing a pattern only adds to the code.
pub proof fn lemma_pattern_adds(s: State, p: PatternView, v: ValView, ty: TypeView)
    requires
        writable(s.out.cur),
    ensures
        extended(s.out.cur, gen_pattern_check(s, p, v, ty).1.out.cur),
        writable(gen_pattern_check(s, p, v, ty).1.out.cur),
        same_rest(s, gen_pattern_check(s, p, v, ty).1),
    decreases p,
{
    reveal_with_fuel(gen_pattern_check, 2);
    reveal(int_pattern);
    reveal(int_test);
    reveal(binary);
    crate::growth::lemma_extended_refl(s.out.cur);
    match p {
        PatternView::Binding(_) => {
            match lower_type(s.env, ty) {
                Ok(lty) => {
                    lemma_spill_adds(s, lty, v);
                },
                Err(_) => {},
            }
        },
        PatternView::IntLit(n) => {
            let k = ValView { op: OperandView::Int(n as u64), ty: v.ty };
            lemma_adds(s, InstView::IntTest(IntPred::Eq, v, k), LTyView::Int(1));
        },
        PatternView::BoolLit(b) => {
            let k = ValView {
                op: OperandView::Int(
                    if b {
                        1
                    } else {
                        0
                    },
                ),
                ty: v.ty,
            };
            lemma_adds(s, InstView::IntTest(IntPred::Eq, v, k), LTyView::Int(1));
        },
        PatternView::EnumVariant { variant, payload, .. } => {
            match pattern_owner(s, ty) {
                Some(owner) => {
                    lemma_tag_test_adds(s, owner, variant, v);
                    let (tested, s1) = tag_test(s, owner, variant, v);
                    match (tested, payload, payload_field(s1.env, owner, variant)) {
                        (Ok(t), Some(inner), Ok((k, inner_ty))) => {
                            lemma_extract_adds(s1, v, k);
                            let (x, s2) = extract(s1, v, k);
                            lemma_extended(s.out.cur, s1.out.cur, s2.out.cur);
                            match x {
                                Some(x) => {
                                    lemma_pattern_adds(s2, *inner, x, inner_ty);
                                    let (r, s3) = gen_pattern_check(s2, *inner, x, inner_ty);
                                    lemma_extended(s.out.cur, s2.out.cur, s3.out.cur);
                                    match r {
                                        Ok((c, _)) => {
                                            let inst = InstView::Bin(BinKind::And, t, c);
                                            lemma_adds(s3, inst, t.ty);
                                            lemma_extended(
                                                s.out.cur,
                                                s3.out.cur,
                                                emit_value(s3, inst, t.ty).1.out.cur,
                                            );
                                        },
                                        Err(_) => {},
                                    }
                                },
                                None => {},
                            }
                        },
                        _ => {},
                    }
                },
                None => {},
            }
        },
        _ => {},
    }
}

pub proof fn lemma_extract(m: Machine, s: State, v: ValView, i: u32, f: Frame) -> (g: Frame)
    requires
        writable(s.out.cur),
        countable(extract(s, v, i).1.out.cur),
        extract(s, v, i).0 is Some,
    ensures
        ({
            let (r, t) = extract(s, v, i);
            let x = r->Some_0;
            &&& goes(m, s.out.cur, t.out.cur, f, g)
            &&& same_rest(s, t)
            &&& known(t.out.cur, x)
            &&& x.ty == fields_of(s, v.ty)[i as int]
            &&& value(m, g, x) == part(value(m, f, v), i as nat)
            &&& g.mem == f.mem
        }),
{
    reveal(extract);
    lemma_plain(m, s, InstView::Extract(v, i), fields_of(s, v.ty)[i as int], f)
}

proof fn lemma_tag_test(
    m: Machine,
    s: State,
    owner: Seq<char>,
    variant: Seq<char>,
    v: ValView,
    f: Frame,
) -> (g: Frame)
    requires
        writable(s.out.cur),
        countable(tag_test(s, owner, variant, v).1.out.cur),
        tag_test(s, owner, variant, v).0 is Ok,
        countable_types(s.env),
    ensures
        ({
            let (r, t) = tag_test(s, owner, variant, v);
            let c = r->Ok_0;
            &&& goes(m, s.out.cur, t.out.cur, f, g)
            &&& same_rest(s, t)
            &&& known(t.out.cur, c)
            &&& c.ty == LTyView::Int(1)
            &&& part(value(m, f, v), 0) is Bits ==> value(m, g, c) == bit(
                has_tag(s.env, owner, variant, value(m, f, v)),
            )
        }),
{
    lemma_tag_test_adds(s, owner, variant, v);
    reveal(tag_test);
    reveal(int_test);
    reveal(int_const);
    let tag = variant_number(s.env, owner, variant)->Ok_0;
    assert(variant_number(s.env, owner, variant) is Ok);
    assert(s.env.enum_defs[owner].variants.len() <= usize::MAX);
    lemma_variant(s.env, owner, variant);
    let (t, s1) = extract(s, v, 0);
    lemma_extract_adds(s, v, 0);
    let x = t->Some_0;
    let inst = InstView::IntTest(IntPred::Eq, x, int_const(8, tag));
    let u = emit_value(s1, inst, LTyView::Int(1)).1;
    lemma_adds(s1, inst, LTyView::Int(1));
    lemma_countable(s1.out.cur, u.out.cur);
    let h = lemma_extract(m, s, v, 0, f);
    let g = lemma_plain(m, s1, inst, LTyView::Int(1), h);
    lemma_goes_trans(m, s.out.cur, s1.out.cur, u.out.cur, f, h, g);
    g
}

/// The test of a pattern tells whether the value matches it, and the variables of the pattern hold
/// what they are bound to.
pub proof fn law_pattern(
    m: Machine,
    s: State,
    p: PatternView,
    v: ValView,
    ty: TypeView,
    w: Word,
    f: Frame,
) -> (g: Frame)
    requires
        writable(s.out.cur),
        countable(gen_pattern_check(s, p, v, ty).1.out.cur),
        known(s.out.cur, v),
        value(m, f, v) == w,
        gen_pattern_check(s, p, v, ty).0 is Ok,
        countable_types(s.env),
    ensures
        ({
            let (r, t) = gen_pattern_check(s, p, v, ty);
            let (c, bindings) = r->Ok_0;
            &&& goes(m, s.out.cur, t.out.cur, f, g)
            &&& same_rest(s, t)
            &&& known(t.out.cur, c)
            &&& c.ty == LTyView::Int(1)
            &&& all_known(t, bindings)
            &&& holds_bound(m, g, bindings, bound(s, p, w, ty))
            &&& testable(s, p, w, v.ty, ty) ==> value(m, g, c) == bit(
                matches_pattern(s, p, w, v.ty, ty),
            )
        }),
    decreases p,
{
    reveal_with_fuel(gen_pattern_check, 2);
    reveal(int_pattern);
    reveal(int_test);
    reveal(int_const);
    lemma_ranges();
    lemma_goes_refl(m, s.out.cur, f);
    lemma_pattern_adds(s, p, v, ty);
    match p {
        PatternView::Wildcard => f,
        PatternView::Binding(name) => {
            let lty = lower_type(s.env, ty)->Ok_0;
            lemma_spill(m, s, lty, v, f)
        },
        PatternView::IntLit(n) => {
            let k = ValView { op: OperandView::Int(n as u64), ty: v.ty };
            let g = lemma_plain(
                m,
                s,
                InstView::IntTest(IntPred::Eq, v, k),
                LTyView::Int(1),
                f,
            );
            if usual_width(bits_of_type(v.ty)) {
                lemma_literal(n, bits_of_type(v.ty));
            }
            g
        },
        PatternView::BoolLit(b) => {
            let k = ValView {
                op: OperandView::Int(
                    if b {
                        1
                    } else {
                        0
                    },
                ),
                ty: v.ty,
            };
            lemma_plain(m, s, InstView::IntTest(IntPred::Eq, v, k), LTyView::Int(1), f)
        },
        PatternView::EnumVariant { variant, payload, .. } => {
            let owner = pattern_owner(s, ty)->Some_0;
            let (tested, s1) = tag_test(s, owner, variant, v);
            lemma_tag_test_adds(s, owner, variant, v);
            let t = tested->Ok_0;
            match payload {
                None => lemma_tag_test(m, s, owner, variant, v, f),
                Some(inner) => {
                    let (k, inner_ty) = payload_field(s1.env, owner, variant)->Ok_0;
                    assert(s.env.struct_fields[owner].len() <= u32::MAX);
                    lemma_payload(s.env, owner, variant);
                    let (got, s2) = extract(s1, v, k);
                    lemma_extract_adds(s1, v, k);
                    let x = got->Some_0;
                    let (r, s3) = gen_pattern_check(s2, *inner, x, inner_ty);
                    lemma_pattern_adds(s2, *inner, x, inner_ty);
                    let (c, bindings) = r->Ok_0;
                    reveal(binary);
                    let inst = InstView::Bin(BinKind::And, t, c);
                    let s4 = emit_value(s3, inst, t.ty).1;
                    lemma_adds(s3, inst, t.ty);
                    assert(gen_pattern_check(s, p, v, ty).1 == s4);
                    lemma_countable(s3.out.cur, s4.out.cur);
                    lemma_countable(s2.out.cur, s3.out.cur);
                    lemma_countable(s1.out.cur, s2.out.cur);
                    let f1 = lemma_tag_test(m, s, owner, variant, v, f);
                    lemma_known(s.out.cur, s1.out.cur, v);
                    lemma_value(m, s.out.cur, f, f1, v);
                    let f2 = lemma_extract(m, s1, v, k, f1);
                    lemma_goes_trans(m, s.out.cur, s1.out.cur, s2.out.cur, f, f1, f2);
                    lemma_value(m, s1.out.cur, f1, f2, t);
                    lemma_known(s1.out.cur, s2.out.cur, t);
                    let y = payload_word(s.env, owner, variant, w);
                    let f3 = law_pattern(m, s2, *inner, x, inner_ty, y, f2);
                    lemma_goes_trans(m, s.out.cur, s2.out.cur, s3.out.cur, f, f2, f3);
                    lemma_value(m, s2.out.cur, f2, f3, t);
                    let g = lemma_plain(m, s3, inst, t.ty, f3);
                    lemma_goes_trans(m, s.out.cur, s3.out.cur, s4.out.cur, f, f3, g);
                    lemma_same_meaning(s, s1, *inner, y, v.ty, inner_ty);
                    lemma_same_meaning(s, s2, *inner, y, x.ty, inner_ty);
                    assert((1u64 & 1u64) == 1) by (bit_vector);
                    if bindings.len() == 1 {
                        let b = bindings[0].1;
                        assert(known(s3.out.cur, b));
                        lemma_value(m, s3.out.cur, f3, g, b);
                    }
                    assert forall|i: int| 0 <= i < bindings.len() implies known(
                        s4.out.cur,
                        (#[trigger] bindings[i]).1,
                    ) by {
                        lemma_known(s3.out.cur, s4.out.cur, bindings[i].1);
                    }
                    g
                },
            }
        },
    }
}

} // verus!
