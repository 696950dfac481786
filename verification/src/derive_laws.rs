//! What holds of derived trait methods when they run.
use crate::builder::{
    add_block, begin, binary, call, emit, emit_value, extract, finish, go_to, insert, int_const,
    int_test, invert, load, spill, undef,
};
use crate::builtins::{load_pair, two_pointers_spec};
use crate::cast_laws::lemma_ranges;
use crate::derives::{
    call_on_fields, clone_fields, clone_fields_each, declared_struct, default_fields,
    default_fields_each, derive_eq, derive_ne, equal_fields, equal_fields_each, field_fn, field_of,
    generate_derive_clone, generate_derive_default, generate_derive_ord, ordered_field,
    ordered_fields, ordered_fields_each, with_field,
};
use crate::growth::extended;
use crate::ir::{BinKind, CurView, FnSigView, InstView, IntPred, LTyView, ValView};
use crate::machine::{
    Frame, Machine, Moment, Spot, Word, as_signed, bit, block_start, has_inst, leads, part, range,
    read, value, values, with_part, wrapped,
};
use crate::method_laws::{answers, entry, lemma_begun, lemma_finished, lemma_pair};
use crate::model::{StructDeclView, StructFieldView};
use crate::names::type_key;
use crate::operator_laws::{lemma_adds, lemma_call_adds, lemma_fitted, lemma_spill_adds};
use crate::operators::{
    add_method, arg_spec, branch_if, builtin_fn_spec, declare_builtin, declared_result, ret,
    type_key_or_fail_spec,
};
use crate::pattern_laws::{lemma_extract, lemma_extract_adds};
use crate::places::as_int_spec;
use crate::query::lower_type;
use crate::running::{
    countable, end_of, goes, kept, known, lemma_add_block, lemma_at_inst, lemma_call,
    lemma_countable, lemma_emit_any, lemma_emitted, lemma_ended, lemma_extended, lemma_go_to,
    lemma_goes_refl, lemma_goes_trans, lemma_inst_stays, lemma_known, lemma_leads_lift,
    lemma_leads_trans, lemma_plain, lemma_spill, lemma_value, runs, same_rest, spares, writable,
};
use crate::state::State;
use crate::table::at;
use vstd::prelude::*;

verus! {

/// Whether a function is declared so.
pub open spec fn declared_as(
    decls: Map<Seq<char>, FnSigView>,
    f: Seq<char>,
    params: Seq<LTyView>,
    lty: LTyView,
) -> bool {
    &&& decls.contains_key(f)
    &&& decls[f].params == params
    &&& decls[f].ret == Some(lty)
    &&& !decls[f].variadic
}

/// The method that a field is treated with.
pub open spec fn field_method(field: StructFieldView, tr: Seq<char>, me: Seq<char>) -> Seq<char> {
    builtin_fn_spec(tr, me, type_key(field.ty)->Some_0)
}

/// Whether a method on two values gives a word for two of them, wherever they are in memory, and
/// leaves the memory alone.
pub open spec fn tells(m: Machine, f: Seq<char>, x: Word, y: Word, w: Word) -> bool {
    forall|p: Word, q: Word, mem: Seq<Word>|
        #![trigger read(mem, p), read(mem, q)]
        read(mem, p) == x && read(mem, q) == y ==> (m.calls)(f, seq![p, q], mem).0 == w && spares(
            mem,
            (m.calls)(f, seq![p, q], mem).1,
        )
}

/// Whether the methods of the fields of a struct give these words for the fields of two values.
pub open spec fn fields_tell(
    m: Machine,
    decls: Map<Seq<char>, FnSigView>,
    fields: Seq<StructFieldView>,
    tr: Seq<char>,
    me: Seq<char>,
    lty: LTyView,
    a: Word,
    b: Word,
    words: Seq<Word>,
) -> bool {
    &&& words.len() == fields.len()
    &&& forall|i: int|
        0 <= i < fields.len() ==> #[trigger] field_tells(
            m,
            decls,
            fields,
            tr,
            me,
            lty,
            a,
            b,
            words,
            i,
        )
}

/// Whether the method of one field gives its word.
pub open spec fn field_tells(
    m: Machine,
    decls: Map<Seq<char>, FnSigView>,
    fields: Seq<StructFieldView>,
    tr: Seq<char>,
    me: Seq<char>,
    lty: LTyView,
    a: Word,
    b: Word,
    words: Seq<Word>,
    i: int,
) -> bool {
    &&& type_key(fields[i].ty) is Some
    &&& declared_as(decls, field_method(fields[i], tr, me), two_pointers_spec(), lty)
    &&& tells(
        m,
        field_method(fields[i], tr, me),
        part(a, i as nat),
        part(b, i as nat),
        words[i],
    )
}

/// Whether an operand points to a cell that holds a word.
pub open spec fn points(m: Machine, f: Frame, p: ValView, w: Word) -> bool {
    &&& value(m, f, p) is Addr
    &&& value(m, f, p)->Addr_0 < f.mem.len()
    &&& read(f.mem, value(m, f, p)) == w
}

proof fn lemma_points(m: Machine, cur: CurView, f: Frame, g: Frame, p: ValView, w: Word)
    requires
        kept(cur, f, g),
        known(cur, p),
        points(m, f, p, w),
    ensures
        points(m, g, p, w),
{
    lemma_value(m, cur, f, g, p);
    reveal(kept);
    let c = value(m, f, p)->Addr_0 as int;
    assert(g.mem[c] == f.mem[c]);
}

proof fn lemma_field_fn(s: State, field: StructFieldView, tr: Seq<char>, me: Seq<char>)
    requires
        field_fn(s, field, tr, me) is Ok,
    ensures
        field_fn(s, field, tr, me)->Ok_0 == field_method(field, tr, me),
{
    reveal(field_fn);
    reveal(type_key_or_fail_spec);
}

/// A method is called on a field of two struct values.
proof fn lemma_call_on_fields(
    m: Machine,
    s: State,
    field: StructFieldView,
    a: ValView,
    b: ValView,
    i: u32,
    tr: Seq<char>,
    me: Seq<char>,
    bits: u32,
    w: Word,
    f: Frame,
) -> (g: Frame)
    requires
        writable(s.out.cur),
        countable(call_on_fields(s, field, a, b, i, tr, me).1.out.cur),
        call_on_fields(s, field, a, b, i, tr, me).0 is Ok,
        known(s.out.cur, a),
        known(s.out.cur, b),
        declared_as(
            s.out.decls,
            field_method(field, tr, me),
            two_pointers_spec(),
            LTyView::Int(bits),
        ),
        tells(
            m,
            field_method(field, tr, me),
            part(value(m, f, a), i as nat),
            part(value(m, f, b), i as nat),
            w,
        ),
    ensures
        ({
            let (r, t) = call_on_fields(s, field, a, b, i, tr, me);
            let c = r->Ok_0;
            &&& goes(m, s.out.cur, t.out.cur, f, g)
            &&& same_rest(s, t)
            &&& known(t.out.cur, c)
            &&& c.ty == LTyView::Int(bits)
            &&& value(m, g, c) == w
        }),
{
    reveal(call_on_fields);
    reveal(field_of);
    reveal(as_int_spec);
    reveal(two_pointers_spec);
    let fun = field_method(field, tr, me);
    let (gx, s1) = extract(s, a, i);
    lemma_extract_adds(s, a, i);
    let (gy, s2) = extract(s1, b, i);
    lemma_extract_adds(s1, b, i);
    let x = gx->Some_0;
    let y = gy->Some_0;
    lemma_field_fn(s2, field, tr, me);
    let lty = lower_type(s2.env, field.ty)->Ok_0;
    let (p, s3) = spill(s2, lty, x);
    lemma_spill_adds(s2, lty, x);
    let (q, s4) = spill(s3, lty, y);
    lemma_spill_adds(s3, lty, y);
    let args = seq![p, q];
    lemma_fitted(s4, fun, args);
    let (c, t) = call(s4, fun, args);
    lemma_call_adds(s4, fun, args);
    assert(call_on_fields(s, field, a, b, i, tr, me).1 == t);
    lemma_countable(s4.out.cur, t.out.cur);
    lemma_countable(s3.out.cur, s4.out.cur);
    lemma_countable(s2.out.cur, s3.out.cur);
    lemma_countable(s1.out.cur, s2.out.cur);
    let f1 = lemma_extract(m, s, a, i, f);
    lemma_value(m, s.out.cur, f, f1, b);
    lemma_known(s.out.cur, s1.out.cur, b);
    let f2 = lemma_extract(m, s1, b, i, f1);
    lemma_goes_trans(m, s.out.cur, s1.out.cur, s2.out.cur, f, f1, f2);
    lemma_value(m, s1.out.cur, f1, f2, x);
    lemma_known(s1.out.cur, s2.out.cur, x);
    let f3 = lemma_spill(m, s2, lty, x, f2);
    lemma_goes_trans(m, s.out.cur, s2.out.cur, s3.out.cur, f, f2, f3);
    lemma_value(m, s2.out.cur, f2, f3, y);
    lemma_known(s2.out.cur, s3.out.cur, y);
    let f4 = lemma_spill(m, s3, lty, y, f3);
    lemma_goes_trans(m, s.out.cur, s3.out.cur, s4.out.cur, f, f3, f4);
    lemma_value(m, s3.out.cur, f3, f4, p);
    let words = values(m, f4, args);
    let wp = value(m, f4, p);
    let wq = value(m, f4, q);
    assert(words =~= seq![wp, wq]);
    assert(read(f4.mem, wp) == part(value(m, f, a), i as nat));
    assert(read(f4.mem, wq) == part(value(m, f, b), i as nat));
    let g = lemma_call(m, s4, fun, args, f4);
    lemma_goes_trans(m, s.out.cur, s4.out.cur, t.out.cur, f, f4, g);
    g
}

/// Only code was added, and nothing else differs but the block that is written to.
pub open spec fn more_code(s: State, t: State) -> bool {
    &&& extended(s.out.cur, t.out.cur)
    &&& t.env == s.env
    &&& t.fun == s.fun
    &&& t.out.decls == s.out.decls
    &&& t.out.struct_bodies == s.out.struct_bodies
    &&& t.out.bodies == s.out.bodies
    &&& t.out.cur.name == s.out.cur.name
}

/// What is returned.
proof fn lemma_ret_built(s: State, v: ValView)
    requires
        ret(s, v).0 is Ok,
    ensures
        ret(s, v).1 == emit(s, InstView::Ret(Some(v))),
{
    reveal(ret);
    reveal(declared_result);
    reveal(emit_value);
}

/// Two struct values are ordered by one field: where the result is not zero, or the field is the
/// last one, it is returned, else the code goes on in the next block.
proof fn lemma_ordered_field(
    m: Machine,
    s: State,
    field: StructFieldView,
    i: usize,
    is_last: bool,
    lty: LTyView,
    pa: ValView,
    pb: ValView,
    current: usize,
    me: Seq<char>,
    tr: Seq<char>,
    a: Word,
    b: Word,
    w: nat,
    f: Frame,
) -> (g: Frame)
    requires
        current < s.out.cur.blocks.len(),
        ordered_field(s, field, i, is_last, lty, pa, pb, current, me, tr).0 is Ok,
        countable(ordered_field(s, field, i, is_last, lty, pa, pb, current, me, tr).1.out.cur),
        known(s.out.cur, pa),
        known(s.out.cur, pb),
        points(m, f, pa, a),
        points(m, f, pb, b),
        i <= u32::MAX,
        declared_as(
            s.out.decls,
            field_method(field, tr, me),
            two_pointers_spec(),
            LTyView::Int(32),
        ),
        tells(
            m,
            field_method(field, tr, me),
            part(a, i as nat),
            part(b, i as nat),
            Word::Bits(w),
        ),
    ensures
        ({
            let (r, t) = ordered_field(s, field, i, is_last, lty, pa, pb, current, me, tr);
            let next = r->Ok_0;
            let c = Moment {
                spot: Spot::At(current as nat, s.out.cur.blocks[current as int].insts.len()),
                frame: f,
            };
            &&& more_code(s, t)
            &&& f.mem.len() <= g.mem.len()
            &&& spares(f.mem, g.mem)
            &&& if is_last || w != 0 {
                leads(
                    m,
                    t.out.cur.blocks,
                    c,
                    Moment { spot: Spot::Left(Some(Word::Bits(w))), frame: g },
                )
            } else {
                &&& leads(m, t.out.cur.blocks, c, Moment { spot: block_start(next), frame: g })
                &&& kept(s.out.cur, f, g)
            }
            &&& !is_last ==> next < t.out.cur.blocks.len()
                && t.out.cur.blocks[next as int].insts.len() == 0
        }),
{
    reveal(ordered_field);
    reveal(load);
    reveal(int_test);
    reveal(branch_if);
    let label = "field_"@ + crate::text::decimal_text(i as nat);
    let (next, s1) = if is_last {
        (current, s)
    } else {
        add_block(s, label)
    };
    crate::growth::lemma_extended_refl(s.out.cur);
    let s2 = go_to(s1, current);
    lemma_go_to(s1, current);
    let (x, s3) = load(s2, lty, pa);
    let (y, s4) = load(s3, lty, pb);
    let (r, s5) = call_on_fields(s4, field, x, y, i as u32, tr, me);
    let c = r->Ok_0;
    let last = ret(s5, c).1;
    let (test, s6) = int_test(s5, IntPred::Ne, c, int_const(32, 0));
    let ret_label = "ret_field_"@ + crate::text::decimal_text(i as nat);
    let (ret_bb, s7) = add_block(s6, ret_label);
    let s8 = go_to(s7, ret_bb);
    let s9 = ret(s8, c).1;
    let s10 = go_to(s9, current);
    let s11 = branch_if(s10, test, ret_bb, next);
    let t = ordered_field(s, field, i, is_last, lty, pa, pb, current, me, tr).1;
    if !is_last {
        lemma_add_block(s, label);
    }
    assert(writable(s2.out.cur));
    lemma_extended(s.out.cur, s1.out.cur, s2.out.cur);
    lemma_known(s.out.cur, s2.out.cur, pa);
    lemma_known(s.out.cur, s2.out.cur, pb);
    lemma_adds(s2, InstView::Load(lty, pa), lty);
    lemma_adds(s3, InstView::Load(lty, pb), lty);
    lemma_call_on_fields_adds(s4, field, x, y, i as u32, tr, me);
    lemma_extended(s2.out.cur, s3.out.cur, s4.out.cur);
    lemma_extended(s2.out.cur, s4.out.cur, s5.out.cur);
    lemma_extended(s.out.cur, s2.out.cur, s5.out.cur);
    let one = LTyView::Int(1);
    let inst = InstView::IntTest(IntPred::Ne, c, int_const(32, 0));
    lemma_adds(s5, inst, one);
    if is_last {
        lemma_ret_built(s5, c);
        lemma_emitted(s5, InstView::Ret(Some(c)));
        lemma_extended(s.out.cur, s5.out.cur, t.out.cur);
        lemma_countable(s5.out.cur, t.out.cur);
        reveal(extended);
    } else {
        lemma_add_block(s6, ret_label);
        lemma_go_to(s7, ret_bb);
        lemma_ret_built(s8, c);
        lemma_emit_any(s8, InstView::Ret(Some(c)));
        lemma_go_to(s9, current);
        let br = InstView::CondBr(test, ret_bb, next);
        reveal(emit_value);
        lemma_emit_any(s10, br);
        reveal(extended);
        assert(s6.out.cur.blocks.len() < t.out.cur.blocks.len() <= usize::MAX);
        assert(s.out.cur.blocks.len() <= s6.out.cur.blocks.len());
        lemma_emitted(s8, InstView::Ret(Some(c)));
        lemma_emitted(s10, br);
        lemma_extended(s6.out.cur, s7.out.cur, s8.out.cur);
        lemma_extended(s6.out.cur, s8.out.cur, s9.out.cur);
        lemma_extended(s6.out.cur, s9.out.cur, s10.out.cur);
        lemma_extended(s6.out.cur, s10.out.cur, t.out.cur);
        lemma_extended(s5.out.cur, s6.out.cur, t.out.cur);
        lemma_extended(s.out.cur, s5.out.cur, t.out.cur);
        lemma_countable(s6.out.cur, t.out.cur);
        lemma_countable(s5.out.cur, t.out.cur);
    }
    lemma_countable(s4.out.cur, s5.out.cur);
    lemma_countable(s3.out.cur, s4.out.cur);
    let f1 = lemma_plain(m, s2, InstView::Load(lty, pa), lty, f);
    lemma_value(m, s2.out.cur, f, f1, pb);
    lemma_known(s2.out.cur, s3.out.cur, pb);
    let f2 = lemma_plain(m, s3, InstView::Load(lty, pb), lty, f1);
    lemma_goes_trans(m, s2.out.cur, s3.out.cur, s4.out.cur, f, f1, f2);
    lemma_value(m, s3.out.cur, f1, f2, x);
    lemma_known(s3.out.cur, s4.out.cur, x);
    let f3 = lemma_call_on_fields(
        m,
        s4,
        field,
        x,
        y,
        i as u32,
        tr,
        me,
        32,
        Word::Bits(w),
        f2,
    );
    lemma_goes_trans(m, s2.out.cur, s4.out.cur, s5.out.cur, f, f2, f3);
    let start = Moment { spot: end_of(s2.out.cur), frame: f };
    assert(end_of(s2.out.cur) == Spot::At(
        current as nat,
        s.out.cur.blocks[current as int].insts.len(),
    ));
    reveal(runs);
    if is_last {
        let mid = Moment { spot: end_of(s5.out.cur), frame: f3 };
        lemma_leads_lift(m, s5.out.cur, t.out.cur, start, mid);
        lemma_ended(m, s5, InstView::Ret(Some(c)), f3);
        lemma_leads_trans(
            m,
            t.out.cur.blocks,
            start,
            mid,
            Moment { spot: Spot::Left(Some(Word::Bits(w))), frame: f3 },
        );
        reveal(kept);
        f3
    } else {
        let f4 = lemma_plain(m, s5, inst, one, f3);
        lemma_goes_trans(m, s2.out.cur, s5.out.cur, s6.out.cur, f, f3, f4);
        lemma_value(m, s5.out.cur, f3, f4, c);
        lemma_ranges();
        reveal(int_const);
        assert(wrapped(0, 32) == 0);
        assert(value(m, f4, test) == bit(w != 0));
        let mid = Moment { spot: end_of(s6.out.cur), frame: f4 };
        lemma_leads_lift(m, s6.out.cur, t.out.cur, start, mid);
        let here = s6.out.cur.blocks[current as int].insts.len();
        let br = InstView::CondBr(test, ret_bb, next);
        assert(t.out.cur.blocks[current as int].insts[here as int] == br);
        lemma_at_inst(m, t.out.cur, current as nat, here, f4);
        reveal(kept);
        if w != 0 {
            let into = Moment { spot: block_start(ret_bb), frame: f4 };
            lemma_leads_trans(m, t.out.cur.blocks, start, mid, into);
            assert(t.out.cur.blocks[ret_bb as int].insts[0] == InstView::Ret(Some(c)));
            lemma_at_inst(m, t.out.cur, ret_bb as nat, 0, f4);
            lemma_leads_trans(
                m,
                t.out.cur.blocks,
                start,
                into,
                Moment { spot: Spot::Left(Some(Word::Bits(w))), frame: f4 },
            );
        } else {
            let into = Moment { spot: block_start(next), frame: f4 };
            lemma_leads_trans(m, t.out.cur.blocks, start, mid, into);
            assert(kept(s.out.cur, f, f4)) by {
                lemma_kept_blocks(s.out.cur, s2.out.cur, f, f4);
            }
        }
        f4
    }
}

/// What is kept of more code is kept of less.
proof fn lemma_kept_blocks(a: CurView, b: CurView, f: Frame, g: Frame)
    requires
        extended(a, b),
        kept(b, f, g),
    ensures
        kept(a, f, g),
{
    reveal(kept);
    assert forall|x: nat, i: nat| has_inst(a.blocks, x, i) implies #[trigger] crate::running::reg(
        g,
        x,
        i,
    ) == crate::running::reg(f, x, i) by {
        lemma_inst_stays(a, b, x, i);
    }
}

proof fn lemma_call_on_fields_adds(
    s: State,
    field: StructFieldView,
    a: ValView,
    b: ValView,
    i: u32,
    tr: Seq<char>,
    me: Seq<char>,
)
    requires
        call_on_fields(s, field, a, b, i, tr, me).0 is Ok,
        declared_as(
            s.out.decls,
            field_method(field, tr, me),
            two_pointers_spec(),
            LTyView::Int(32),
        ) || declared_as(
            s.out.decls,
            field_method(field, tr, me),
            two_pointers_spec(),
            LTyView::Int(1),
        ),
    ensures
        extended(s.out.cur, call_on_fields(s, field, a, b, i, tr, me).1.out.cur),
        same_rest(s, call_on_fields(s, field, a, b, i, tr, me).1),
{
    reveal(call_on_fields);
    reveal(field_of);
    reveal(two_pointers_spec);
    let fun = field_method(field, tr, me);
    let (gx, s1) = extract(s, a, i);
    lemma_extract_adds(s, a, i);
    let (gy, s2) = extract(s1, b, i);
    lemma_extract_adds(s1, b, i);
    let x = gx->Some_0;
    let y = gy->Some_0;
    lemma_field_fn(s2, field, tr, me);
    let lty = lower_type(s2.env, field.ty)->Ok_0;
    let (p, s3) = spill(s2, lty, x);
    lemma_spill_adds(s2, lty, x);
    let (q, s4) = spill(s3, lty, y);
    lemma_spill_adds(s3, lty, y);
    let args = seq![p, q];
    lemma_fitted(s4, fun, args);
    let (c, t) = call(s4, fun, args);
    lemma_call_adds(s4, fun, args);
    lemma_extended(s.out.cur, s1.out.cur, s2.out.cur);
    lemma_extended(s.out.cur, s2.out.cur, s3.out.cur);
    lemma_extended(s.out.cur, s3.out.cur, s4.out.cur);
    lemma_extended(s.out.cur, s4.out.cur, t.out.cur);
}

/// The first of some words that is not zero, or zero.
pub open spec fn deciding(words: Seq<Word>, i: nat) -> Word
    decreases words.len() - i,
{
    if i < words.len() {
        if words[i as int] != Word::Bits(0) {
            words[i as int]
        } else {
            deciding(words, i + 1)
        }
    } else {
        Word::Bits(0)
    }
}

proof fn lemma_ordered_fields(
    m: Machine,
    s: State,
    fields: Seq<StructFieldView>,
    lty: LTyView,
    pa: ValView,
    pb: ValView,
    me: Seq<char>,
    tr: Seq<char>,
    current: usize,
    i: nat,
    a: Word,
    b: Word,
    words: Seq<Word>,
    f: Frame,
) -> (g: Frame)
    requires
        i < fields.len(),
        fields.len() <= u32::MAX,
        current < s.out.cur.blocks.len(),
        ordered_fields_each(s, fields, lty, pa, pb, me, tr, current, i).0 is Ok,
        countable(ordered_fields_each(s, fields, lty, pa, pb, me, tr, current, i).1.out.cur),
        known(s.out.cur, pa),
        known(s.out.cur, pb),
        points(m, f, pa, a),
        points(m, f, pb, b),
        fields_tell(m, s.out.decls, fields, tr, me, LTyView::Int(32), a, b, words),
        forall|j: int| 0 <= j < words.len() ==> (#[trigger] words[j]) is Bits,
    ensures
        ({
            let t = ordered_fields_each(s, fields, lty, pa, pb, me, tr, current, i).1;
            let c = Moment {
                spot: Spot::At(current as nat, s.out.cur.blocks[current as int].insts.len()),
                frame: f,
            };
            &&& more_code(s, t)
            &&& spares(f.mem, g.mem)
            &&& leads(
                m,
                t.out.cur.blocks,
                c,
                Moment { spot: Spot::Left(Some(deciding(words, i))), frame: g },
            )
        }),
    decreases fields.len() - i,
{
    reveal(ordered_fields_each);
    let k = i as usize;
    let is_last = i + 1 == fields.len();
    let field = fields[i as int];
    let (r, s1) = ordered_field(s, field, k, is_last, lty, pa, pb, current, me, tr);
    let next = r->Ok_0;
    let t = ordered_fields_each(s, fields, lty, pa, pb, me, tr, current, i).1;
    let w = words[i as int]->Bits_0;
    assert(words[i as int] is Bits);
    assert(field_tells(
        m,
        s.out.decls,
        fields,
        tr,
        me,
        LTyView::Int(32),
        a,
        b,
        words,
        i as int,
    ));
    let c = Moment {
        spot: Spot::At(current as nat, s.out.cur.blocks[current as int].insts.len()),
        frame: f,
    };
    if is_last {
        let g = lemma_ordered_field(
            m,
            s,
            field,
            k,
            is_last,
            lty,
            pa,
            pb,
            current,
            me,
            tr,
            a,
            b,
            w,
            f,
        );
        assert(deciding(words, i + 1) == Word::Bits(0));
        g
    } else {
        assert forall|j: int| #![trigger fields[j]] 0 <= j < fields.len() implies declared_as(
            s.out.decls,
            field_method(fields[j], tr, me),
            two_pointers_spec(),
            LTyView::Int(32),
        ) by {
            assert(field_tells(
                m,
                s.out.decls,
                fields,
                tr,
                me,
                LTyView::Int(32),
                a,
                b,
                words,
                j,
            ));
        }
        lemma_ordered_field_adds(s, field, k, is_last, lty, pa, pb, current, me, tr);
        lemma_rest_adds(s1, fields, lty, pa, pb, me, tr, next, i + 1);
        lemma_countable(s1.out.cur, t.out.cur);
        let g = lemma_ordered_field(
            m,
            s,
            field,
            k,
            is_last,
            lty,
            pa,
            pb,
            current,
            me,
            tr,
            a,
            b,
            w,
            f,
        );
        lemma_extended(s.out.cur, s1.out.cur, t.out.cur);
        if w != 0 {
            lemma_leads_lift(
                m,
                s1.out.cur,
                t.out.cur,
                c,
                Moment { spot: Spot::Left(Some(Word::Bits(w))), frame: g },
            );
            g
        } else {
            lemma_known(s.out.cur, s1.out.cur, pa);
            lemma_known(s.out.cur, s1.out.cur, pb);
            lemma_points(m, s.out.cur, f, g, pa, a);
            lemma_points(m, s.out.cur, f, g, pb, b);
            let mid = Moment { spot: block_start(next), frame: g };
            lemma_leads_lift(m, s1.out.cur, t.out.cur, c, mid);
            let h = lemma_ordered_fields(
                m,
                s1,
                fields,
                lty,
                pa,
                pb,
                me,
                tr,
                next,
                i + 1,
                a,
                b,
                words,
                g,
            );
            lemma_leads_trans(
                m,
                t.out.cur.blocks,
                c,
                mid,
                Moment { spot: Spot::Left(Some(deciding(words, i))), frame: h },
            );
            assert forall|x: int| 0 <= x < f.mem.len() implies #[trigger] h.mem[x] == f.mem[x] by {
                assert(g.mem[x] == f.mem[x]);
            }
            h
        }
    }
}

/// Ordering by one field takes no code away.
proof fn lemma_ordered_field_adds(
    s: State,
    field: StructFieldView,
    i: usize,
    is_last: bool,
    lty: LTyView,
    pa: ValView,
    pb: ValView,
    current: usize,
    me: Seq<char>,
    tr: Seq<char>,
)
    requires
        ordered_field(s, field, i, is_last, lty, pa, pb, current, me, tr).0 is Ok,
        declared_as(
            s.out.decls,
            field_method(field, tr, me),
            two_pointers_spec(),
            LTyView::Int(32),
        ),
    ensures
        more_code(s, ordered_field(s, field, i, is_last, lty, pa, pb, current, me, tr).1),
{
    reveal(ordered_field);
    reveal(load);
    reveal(int_test);
    reveal(branch_if);
    reveal(emit_value);
    let label = "field_"@ + crate::text::decimal_text(i as nat);
    let (next, s1) = if is_last {
        (current, s)
    } else {
        add_block(s, label)
    };
    crate::growth::lemma_extended_refl(s.out.cur);
    lemma_add_block(s, label);
    let s2 = go_to(s1, current);
    lemma_go_to(s1, current);
    lemma_extended(s.out.cur, s1.out.cur, s2.out.cur);
    let (x, s3) = load(s2, lty, pa);
    lemma_emit_any(s2, InstView::Load(lty, pa));
    lemma_extended(s.out.cur, s2.out.cur, s3.out.cur);
    let (y, s4) = load(s3, lty, pb);
    lemma_emit_any(s3, InstView::Load(lty, pb));
    lemma_extended(s.out.cur, s3.out.cur, s4.out.cur);
    let (r, s5) = call_on_fields(s4, field, x, y, i as u32, tr, me);
    lemma_call_on_fields_adds(s4, field, x, y, i as u32, tr, me);
    lemma_extended(s.out.cur, s4.out.cur, s5.out.cur);
    let c = r->Ok_0;
    if is_last {
        lemma_ret_built(s5, c);
        lemma_emit_any(s5, InstView::Ret(Some(c)));
        lemma_extended(s.out.cur, s5.out.cur, ret(s5, c).1.out.cur);
    } else {
        let (test, s6) = int_test(s5, IntPred::Ne, c, int_const(32, 0));
        lemma_emit_any(s5, InstView::IntTest(IntPred::Ne, c, int_const(32, 0)));
        lemma_extended(s.out.cur, s5.out.cur, s6.out.cur);
        let ret_label = "ret_field_"@ + crate::text::decimal_text(i as nat);
        let (ret_bb, s7) = add_block(s6, ret_label);
        lemma_add_block(s6, ret_label);
        lemma_extended(s.out.cur, s6.out.cur, s7.out.cur);
        let s8 = go_to(s7, ret_bb);
        lemma_go_to(s7, ret_bb);
        lemma_extended(s.out.cur, s7.out.cur, s8.out.cur);
        let s9 = ret(s8, c).1;
        lemma_ret_built(s8, c);
        lemma_emit_any(s8, InstView::Ret(Some(c)));
        lemma_extended(s.out.cur, s8.out.cur, s9.out.cur);
        let s10 = go_to(s9, current);
        lemma_go_to(s9, current);
        lemma_extended(s.out.cur, s9.out.cur, s10.out.cur);
        let s11 = branch_if(s10, test, ret_bb, next);
        lemma_emit_any(s10, InstView::CondBr(test, ret_bb, next));
        lemma_extended(s.out.cur, s10.out.cur, s11.out.cur);
    }
}

/// Ordering by the rest of the fields takes no code away.
proof fn lemma_rest_adds(
    s: State,
    fields: Seq<StructFieldView>,
    lty: LTyView,
    pa: ValView,
    pb: ValView,
    me: Seq<char>,
    tr: Seq<char>,
    current: usize,
    i: nat,
)
    requires
        fields.len() <= u32::MAX,
        ordered_fields_each(s, fields, lty, pa, pb, me, tr, current, i).0 is Ok,
        forall|j: int|
            #![trigger fields[j]]
            0 <= j < fields.len() ==> declared_as(
                s.out.decls,
                field_method(fields[j], tr, me),
                two_pointers_spec(),
                LTyView::Int(32),
            ),
    ensures
        more_code(s, ordered_fields_each(s, fields, lty, pa, pb, me, tr, current, i).1),
    decreases fields.len() - i,
{
    reveal(ordered_fields_each);
    crate::growth::lemma_extended_refl(s.out.cur);
    if i < fields.len() {
        let k = i as usize;
        let is_last = i + 1 == fields.len();
        let field = fields[i as int];
        let (r, s1) = ordered_field(s, field, k, is_last, lty, pa, pb, current, me, tr);
        lemma_ordered_field_adds(s, field, k, is_last, lty, pa, pb, current, me, tr);
        lemma_rest_adds(s1, fields, lty, pa, pb, me, tr, r->Ok_0, i + 1);
        lemma_extended(
            s.out.cur,
            s1.out.cur,
            ordered_fields_each(s, fields, lty, pa, pb, me, tr, current, i).1.out.cur,
        );
    }
}

/// The words of a struct method stay told when more is declared.
proof fn lemma_still_tell(
    m: Machine,
    decls: Map<Seq<char>, FnSigView>,
    more: Map<Seq<char>, FnSigView>,
    f: Seq<char>,
    fields: Seq<StructFieldView>,
    tr: Seq<char>,
    me: Seq<char>,
    lty: LTyView,
    a: Word,
    b: Word,
    words: Seq<Word>,
)
    requires
        fields_tell(m, decls, fields, tr, me, lty, a, b, words),
        !decls.contains_key(f),
        more == decls.insert(f, more[f]),
    ensures
        fields_tell(m, more, fields, tr, me, lty, a, b, words),
{
    assert forall|i: int| 0 <= i < fields.len() implies #[trigger] field_tells(
        m,
        more,
        fields,
        tr,
        me,
        lty,
        a,
        b,
        words,
        i,
    ) by {
        assert(field_tells(m, decls, fields, tr, me, lty, a, b, words, i));
        assert(field_method(fields[i], tr, me) != f);
    }
}

/// The derived `cmp` of two struct values is that of the first field that does not compare as
/// equal, and zero if there is none.
pub proof fn law_derived_cmp(
    m: Machine,
    s: State,
    decl: StructDeclView,
    p: Word,
    q: Word,
    mem: Seq<Word>,
    words: Seq<Word>,
) -> (behind: Seq<Word>)
    requires
        generate_derive_ord(s, decl, "Ord"@, "cmp"@).0 is Ok,
        countable(generate_derive_ord(s, decl, "Ord"@, "cmp"@).1.out.cur),
        !s.out.decls.contains_key(builtin_fn_spec("Ord"@, "cmp"@, decl.name)),
        !s.out.bodies.contains_key(builtin_fn_spec("Ord"@, "cmp"@, decl.name)),
        decl.fields.len() <= u32::MAX,
        fields_tell(
            m,
            s.out.decls,
            decl.fields,
            "Ord"@,
            "cmp"@,
            LTyView::Int(32),
            read(mem, p),
            read(mem, q),
            words,
        ),
        forall|j: int| 0 <= j < words.len() ==> (#[trigger] words[j]) is Bits,
    ensures
        ({
            let f = builtin_fn_spec("Ord"@, "cmp"@, decl.name);
            let t = generate_derive_ord(s, decl, "Ord"@, "cmp"@).1;
            &&& t.out.bodies.contains_key(f)
            &&& answers(m, t.out.bodies[f], seq![p, q], mem, deciding(words, 0), behind)
            &&& spares(mem, behind)
        }),
{
    reveal(generate_derive_ord);
    reveal(declared_struct);
    reveal(ordered_fields);
    let tr = "Ord"@;
    let me = "cmp"@;
    let f = builtin_fn_spec(tr, me, decl.name);
    let lty = LTyView::Named(decl.name);
    let word = LTyView::Int(32);
    let args = seq![p, q];
    let s0 = begin(declare_builtin(s, f, two_pointers_spec(), word), f);
    lemma_begun(s, f, two_pointers_spec(), word, args, mem);
    let e = entry(args, mem).frame;
    let ((a, b), s1) = load_pair(s0, lty);
    let f1 = lemma_pair(m, s0, lty, p, q, e);
    let (pa, s2) = spill(s1, lty, a);
    lemma_spill_adds(s1, lty, a);
    let (pb, s3) = spill(s2, lty, b);
    lemma_spill_adds(s2, lty, b);
    let t = generate_derive_ord(s, decl, tr, me).1;
    lemma_still_tell(
        m,
        s.out.decls,
        s3.out.decls,
        f,
        decl.fields,
        tr,
        me,
        word,
        read(mem, p),
        read(mem, q),
        words,
    );
    let start = s3.out.cur.at;
    let s4 = if decl.fields.len() == 0 {
        ret(s3, int_const(32, 0)).1
    } else {
        ordered_fields_each(s3, decl.fields, lty, pa, pb, me, tr, start, 0).1
    };
    reveal(add_method);
    reveal(finish);
    assert(t.out.cur == s4.out.cur);
    if decl.fields.len() == 0 {
        lemma_ret_built(s3, int_const(32, 0));
        lemma_emit_any(s3, InstView::Ret(Some(int_const(32, 0))));
    } else {
        assert forall|j: int|
            #![trigger decl.fields[j]]
            0 <= j < decl.fields.len() implies declared_as(
            s3.out.decls,
            field_method(decl.fields[j], tr, me),
            two_pointers_spec(),
            word,
        ) by {
            assert(field_tells(
                m,
                s3.out.decls,
                decl.fields,
                tr,
                me,
                word,
                read(mem, p),
                read(mem, q),
                words,
                j,
            ));
        }
        lemma_rest_adds(s3, decl.fields, lty, pa, pb, me, tr, start, 0);
    }
    lemma_countable(s3.out.cur, s4.out.cur);
    lemma_countable(s2.out.cur, s3.out.cur);
    let f2 = lemma_spill(m, s1, lty, a, f1);
    lemma_goes_trans(m, s0.out.cur, s1.out.cur, s2.out.cur, e, f1, f2);
    lemma_value(m, s1.out.cur, f1, f2, b);
    lemma_known(s1.out.cur, s2.out.cur, b);
    let f3 = lemma_spill(m, s2, lty, b, f2);
    lemma_goes_trans(m, s0.out.cur, s2.out.cur, s3.out.cur, e, f2, f3);
    lemma_value(m, s2.out.cur, f2, f3, pa);
    lemma_known(s2.out.cur, s3.out.cur, pa);
    reveal(runs);
    let c = entry(args, mem);
    let mid = Moment { spot: end_of(s3.out.cur), frame: f3 };
    lemma_leads_lift(m, s3.out.cur, s4.out.cur, c, mid);
    let g = if decl.fields.len() == 0 {
        lemma_ended(m, s3, InstView::Ret(Some(int_const(32, 0))), f3);
        lemma_ranges();
        reveal(int_const);
        assert(wrapped(0, 32) == 0);
        assert(deciding(words, 0) == Word::Bits(0));
        f3
    } else {
        lemma_ordered_fields(
            m,
            s3,
            decl.fields,
            lty,
            pa,
            pb,
            me,
            tr,
            start,
            0,
            read(mem, p),
            read(mem, q),
            words,
            f3,
        )
    };
    lemma_leads_trans(
        m,
        s4.out.cur.blocks,
        c,
        mid,
        Moment { spot: Spot::Left(Some(deciding(words, 0))), frame: g },
    );
    reveal(extended);
    assert(s4.out.cur.name == f);
    assert(t.out.bodies[f] == s4.out.cur.blocks);
    assert forall|x: int| 0 <= x < mem.len() implies #[trigger] g.mem[x] == mem[x] by {
        assert(f3.mem[x] == mem[x]);
    }
    g.mem
}

/// What decides is the word of a field behind equal ones only; where no field differs, nothing
/// does.
pub proof fn law_first_difference_decides(words: Seq<Word>, k: int)
    requires
        0 <= k <= words.len(),
        forall|j: int| 0 <= j < k ==> #[trigger] words[j] == Word::Bits(0),
    ensures
        k < words.len() && words[k] != Word::Bits(0) ==> deciding(words, 0) == words[k],
        k == words.len() ==> deciding(words, 0) == Word::Bits(0),
{
    lemma_deciding(words, 0, k);
}

proof fn lemma_deciding(words: Seq<Word>, i: nat, k: int)
    requires
        i <= k <= words.len(),
        forall|j: int| 0 <= j < k ==> #[trigger] words[j] == Word::Bits(0),
    ensures
        deciding(words, i) == deciding(words, k as nat),
    decreases k - i,
{
    if i < k {
        assert(words[i as int] == Word::Bits(0));
        lemma_deciding(words, i + 1, k);
    }
}

/// Where every field is ordered the other way round, so are the structs.
pub proof fn law_order_is_antisymmetric(there: Seq<Word>, back: Seq<Word>, i: nat)
    requires
        there.len() == back.len(),
        i <= there.len(),
        forall|j: int|
            0 <= j < there.len() ==> (#[trigger] there[j]) is Bits && back[j] is Bits
                && there[j]->Bits_0 < range(32) && back[j]->Bits_0 < range(32) && as_signed(
                back[j]->Bits_0,
                32,
            ) == -as_signed(there[j]->Bits_0, 32),
    ensures
        deciding(there, i) is Bits,
        deciding(back, i) is Bits,
        as_signed(deciding(back, i)->Bits_0, 32) == -as_signed(deciding(there, i)->Bits_0, 32),
    decreases there.len() - i,
{
    lemma_ranges();
    if i < there.len() {
        assert(there[i as int] is Bits);
        law_order_is_antisymmetric(there, back, i + 1);
    }
}

/// Whether all of some answers from `i` on are yes.
pub open spec fn all_yes(answers: Seq<bool>, i: nat) -> bool {
    forall|j: int| i <= j < answers.len() ==> #[trigger] answers[j]
}

/// Truth values as words.
pub open spec fn bits(answers: Seq<bool>) -> Seq<Word> {
    Seq::new(answers.len(), |i: int| bit(answers[i]))
}

proof fn lemma_equal_fields_adds(
    m: Machine,
    s: State,
    fields: Seq<StructFieldView>,
    a: ValView,
    b: ValView,
    acc: ValView,
    i: nat,
    x: Word,
    y: Word,
    words: Seq<Word>,
)
    requires
        equal_fields_each(s, fields, a, b, acc, i).0 is Ok,
        fields_tell(m, s.out.decls, fields, "Eq"@, "eq"@, LTyView::Int(1), x, y, words),
    ensures
        extended(s.out.cur, equal_fields_each(s, fields, a, b, acc, i).1.out.cur),
        same_rest(s, equal_fields_each(s, fields, a, b, acc, i).1),
    decreases fields.len() - i,
{
    reveal(equal_fields_each);
    reveal(binary);
    crate::growth::lemma_extended_refl(s.out.cur);
    if i < fields.len() {
        let k = (i as usize) as u32;
        let field = fields[i as int];
        assert(field_tells(
            m,
            s.out.decls,
            fields,
            "Eq"@,
            "eq"@,
            LTyView::Int(1),
            x,
            y,
            words,
            i as int,
        ));
        let (r, s1) = call_on_fields(s, field, a, b, k, "Eq"@, "eq"@);
        lemma_call_on_fields_adds(s, field, a, b, k, "Eq"@, "eq"@);
        let c = r->Ok_0;
        let (both, s2) = binary(s1, BinKind::And, acc, c);
        lemma_adds(s1, InstView::Bin(BinKind::And, acc, c), acc.ty);
        lemma_equal_fields_adds(m, s2, fields, a, b, both, i + 1, x, y, words);
        lemma_extended(s.out.cur, s1.out.cur, s2.out.cur);
        lemma_extended(
            s.out.cur,
            s2.out.cur,
            equal_fields_each(s, fields, a, b, acc, i).1.out.cur,
        );
    }
}

proof fn lemma_equal_fields(
    m: Machine,
    s: State,
    fields: Seq<StructFieldView>,
    a: ValView,
    b: ValView,
    acc: ValView,
    i: nat,
    so_far: bool,
    answers: Seq<bool>,
    f: Frame,
) -> (g: Frame)
    requires
        i <= fields.len(),
        fields.len() <= u32::MAX,
        writable(s.out.cur),
        equal_fields_each(s, fields, a, b, acc, i).0 is Ok,
        countable(equal_fields_each(s, fields, a, b, acc, i).1.out.cur),
        known(s.out.cur, a),
        known(s.out.cur, b),
        known(s.out.cur, acc),
        acc.ty == LTyView::Int(1),
        value(m, f, acc) == bit(so_far),
        fields_tell(
            m,
            s.out.decls,
            fields,
            "Eq"@,
            "eq"@,
            LTyView::Int(1),
            value(m, f, a),
            value(m, f, b),
            bits(answers),
        ),
    ensures
        ({
            let (r, t) = equal_fields_each(s, fields, a, b, acc, i);
            &&& goes(m, s.out.cur, t.out.cur, f, g)
            &&& same_rest(s, t)
            &&& known(t.out.cur, r->Ok_0)
            &&& r->Ok_0.ty == LTyView::Int(1)
            &&& value(m, g, r->Ok_0) == bit(so_far && all_yes(answers, i))
        }),
    decreases fields.len() - i,
{
    reveal(equal_fields_each);
    if i < fields.len() {
        let k = (i as usize) as u32;
        let field = fields[i as int];
        let x = value(m, f, a);
        let y = value(m, f, b);
        let words = bits(answers);
        let one = LTyView::Int(1);
        assert(field_tells(m, s.out.decls, fields, "Eq"@, "eq"@, one, x, y, words, i as int));
        let (r, s1) = call_on_fields(s, field, a, b, k, "Eq"@, "eq"@);
        lemma_call_on_fields_adds(s, field, a, b, k, "Eq"@, "eq"@);
        let c = r->Ok_0;
        reveal(binary);
        let inst = InstView::Bin(BinKind::And, acc, c);
        let (both, s2) = binary(s1, BinKind::And, acc, c);
        lemma_adds(s1, inst, one);
        lemma_equal_fields_adds(m, s2, fields, a, b, both, i + 1, x, y, words);
        let t = equal_fields_each(s, fields, a, b, acc, i).1;
        lemma_countable(s2.out.cur, t.out.cur);
        lemma_countable(s1.out.cur, s2.out.cur);
        let f1 = lemma_call_on_fields(
            m,
            s,
            field,
            a,
            b,
            k,
            "Eq"@,
            "eq"@,
            1,
            words[i as int],
            f,
        );
        lemma_known(s.out.cur, s1.out.cur, acc);
        lemma_value(m, s.out.cur, f, f1, acc);
        let f2 = lemma_plain(m, s1, inst, one, f1);
        lemma_goes_trans(m, s.out.cur, s1.out.cur, s2.out.cur, f, f1, f2);
        assert((1u64 & 1u64) == 1) by (bit_vector);
        let now = so_far && answers[i as int];
        assert(value(m, f2, both) == bit(now));
        lemma_extended(s.out.cur, s1.out.cur, s2.out.cur);
        lemma_known(s.out.cur, s2.out.cur, a);
        lemma_known(s.out.cur, s2.out.cur, b);
        lemma_value(m, s.out.cur, f, f2, a);
        lemma_value(m, s.out.cur, f, f2, b);
        let g = lemma_equal_fields(m, s2, fields, a, b, both, i + 1, now, answers, f2);
        lemma_goes_trans(m, s.out.cur, s2.out.cur, t.out.cur, f, f2, g);
        assert((so_far && all_yes(answers, i)) == (now && all_yes(answers, i + 1))) by {
            if now && all_yes(answers, i + 1) {
                assert forall|j: int| i <= j < answers.len() implies #[trigger] answers[j] by {}
            }
            if all_yes(answers, i) {
                assert(answers[i as int]);
            }
        }
        g
    } else {
        lemma_goes_refl(m, s.out.cur, f);
        f
    }
}

/// The derived `eq` of two struct values holds where that of every field does.
pub proof fn law_derived_eq(
    m: Machine,
    s: State,
    decl: StructDeclView,
    p: Word,
    q: Word,
    mem: Seq<Word>,
    equal: Seq<bool>,
) -> (behind: Seq<Word>)
    requires
        ({
            let f = builtin_fn_spec("Eq"@, "eq"@, decl.name);
            let lty = LTyView::Named(decl.name);
            &&& derive_eq(s, decl, f, lty).0 is Ok
            &&& countable(derive_eq(s, decl, f, lty).1.out.cur)
            &&& !s.out.decls.contains_key(f)
            &&& !s.out.bodies.contains_key(f)
        }),
        decl.fields.len() <= u32::MAX,
        fields_tell(
            m,
            s.out.decls,
            decl.fields,
            "Eq"@,
            "eq"@,
            LTyView::Int(1),
            read(mem, p),
            read(mem, q),
            bits(equal),
        ),
    ensures
        ({
            let f = builtin_fn_spec("Eq"@, "eq"@, decl.name);
            let t = derive_eq(s, decl, f, LTyView::Named(decl.name)).1;
            &&& t.out.bodies.contains_key(f)
            &&& answers(m, t.out.bodies[f], seq![p, q], mem, bit(all_yes(equal, 0)), behind)
            &&& spares(mem, behind)
        }),
{
    reveal(derive_eq);
    reveal(equal_fields);
    let f = builtin_fn_spec("Eq"@, "eq"@, decl.name);
    let lty = LTyView::Named(decl.name);
    let one = LTyView::Int(1);
    let args = seq![p, q];
    let s0 = begin(declare_builtin(s, f, two_pointers_spec(), one), f);
    lemma_begun(s, f, two_pointers_spec(), one, args, mem);
    let e = entry(args, mem).frame;
    let ((a, b), s1) = load_pair(s0, lty);
    let f1 = lemma_pair(m, s0, lty, p, q, e);
    let yes = int_const(1, 1);
    let (r, s2) = equal_fields_each(s1, decl.fields, a, b, yes, 0);
    let c = r->Ok_0;
    lemma_still_tell(
        m,
        s.out.decls,
        s1.out.decls,
        f,
        decl.fields,
        "Eq"@,
        "eq"@,
        one,
        read(mem, p),
        read(mem, q),
        bits(equal),
    );
    lemma_equal_fields_adds(
        m,
        s1,
        decl.fields,
        a,
        b,
        yes,
        0,
        read(mem, p),
        read(mem, q),
        bits(equal),
    );
    let t = derive_eq(s, decl, f, lty).1;
    reveal(add_method);
    reveal(finish);
    let s3 = ret(s2, c).1;
    lemma_ret_built(s2, c);
    lemma_emit_any(s2, InstView::Ret(Some(c)));
    assert(t.out.cur == s3.out.cur);
    lemma_countable(s2.out.cur, s3.out.cur);
    reveal(int_const);
    lemma_ranges();
    assert(wrapped(1, 1) == 1);
    let g = lemma_equal_fields(m, s1, decl.fields, a, b, yes, 0, true, equal, f1);
    lemma_goes_trans(m, s0.out.cur, s1.out.cur, s2.out.cur, e, f1, g);
    lemma_finished(m, s0, s2, c, args, mem, g);
    reveal(kept);
    g.mem
}

/// The derived `ne` of two struct values holds where `eq` does not.
pub proof fn law_derived_ne(
    m: Machine,
    s: State,
    decl: StructDeclView,
    p: Word,
    q: Word,
    mem: Seq<Word>,
    equal: bool,
) -> (behind: Seq<Word>)
    requires
        ({
            let eq = builtin_fn_spec("Eq"@, "eq"@, decl.name);
            let f = builtin_fn_spec("Eq"@, "ne"@, decl.name);
            let lty = LTyView::Named(decl.name);
            &&& derive_ne(s, decl, eq, f, lty).0 is Ok
            &&& countable(derive_ne(s, decl, eq, f, lty).1.out.cur)
            &&& !s.out.decls.contains_key(f)
            &&& !s.out.bodies.contains_key(f)
            &&& declared_as(s.out.decls, eq, two_pointers_spec(), LTyView::Int(1))
            &&& tells(m, eq, read(mem, p), read(mem, q), bit(equal))
        }),
    ensures
        ({
            let eq = builtin_fn_spec("Eq"@, "eq"@, decl.name);
            let f = builtin_fn_spec("Eq"@, "ne"@, decl.name);
            let t = derive_ne(s, decl, eq, f, LTyView::Named(decl.name)).1;
            &&& t.out.bodies.contains_key(f)
            &&& answers(m, t.out.bodies[f], seq![p, q], mem, bit(!equal), behind)
            &&& spares(mem, behind)
        }),
{
    reveal(derive_ne);
    reveal(as_int_spec);
    reveal(invert);
    let eq = builtin_fn_spec("Eq"@, "eq"@, decl.name);
    let f = builtin_fn_spec("Eq"@, "ne"@, decl.name);
    let lty = LTyView::Named(decl.name);
    let one = LTyView::Int(1);
    let args = seq![p, q];
    let s0 = begin(declare_builtin(s, f, two_pointers_spec(), one), f);
    lemma_begun(s, f, two_pointers_spec(), one, args, mem);
    let e = entry(args, mem).frame;
    let ((a, b), s1) = load_pair(s0, lty);
    let f1 = lemma_pair(m, s0, lty, p, q, e);
    let (pa, s2) = spill(s1, lty, a);
    lemma_spill_adds(s1, lty, a);
    let (pb, s3) = spill(s2, lty, b);
    lemma_spill_adds(s2, lty, b);
    let vals = seq![pa, pb];
    assert(eq != f);
    reveal(two_pointers_spec);
    lemma_fitted(s3, eq, vals);
    let (c, s4) = call(s3, eq, vals);
    lemma_call_adds(s3, eq, vals);
    reveal(call);
    assert(c.ty == one);
    let inst = InstView::Not(c);
    let (d, s5) = invert(s4, c);
    lemma_adds(s4, inst, one);
    let s6 = ret(s5, d).1;
    lemma_ret_built(s5, d);
    lemma_emit_any(s5, InstView::Ret(Some(d)));
    let t = derive_ne(s, decl, eq, f, lty).1;
    reveal(add_method);
    reveal(finish);
    assert(t.out.cur == s6.out.cur);
    lemma_countable(s5.out.cur, s6.out.cur);
    lemma_countable(s4.out.cur, s5.out.cur);
    lemma_countable(s3.out.cur, s4.out.cur);
    lemma_countable(s2.out.cur, s3.out.cur);
    let f2 = lemma_spill(m, s1, lty, a, f1);
    lemma_goes_trans(m, s0.out.cur, s1.out.cur, s2.out.cur, e, f1, f2);
    lemma_value(m, s1.out.cur, f1, f2, b);
    lemma_known(s1.out.cur, s2.out.cur, b);
    let f3 = lemma_spill(m, s2, lty, b, f2);
    lemma_goes_trans(m, s0.out.cur, s2.out.cur, s3.out.cur, e, f2, f3);
    lemma_value(m, s2.out.cur, f2, f3, pa);
    let wp = value(m, f3, pa);
    let wq = value(m, f3, pb);
    assert(values(m, f3, vals) =~= seq![wp, wq]);
    assert(read(f3.mem, wp) == read(mem, p));
    assert(read(f3.mem, wq) == read(mem, q));
    let f4 = lemma_call(m, s3, eq, vals, f3);
    lemma_goes_trans(m, s0.out.cur, s3.out.cur, s4.out.cur, e, f3, f4);
    let g = lemma_plain(m, s4, inst, one, f4);
    lemma_goes_trans(m, s0.out.cur, s4.out.cur, s5.out.cur, e, f4, g);
    lemma_ranges();
    assert(value(m, g, d) == bit(!equal));
    lemma_finished(m, s0, s5, d, args, mem, g);
    reveal(kept);
    g.mem
}

/// Whether a method gives a word for a value, wherever it is in memory, and leaves the memory
/// alone.
pub open spec fn gives(m: Machine, f: Seq<char>, x: Word, w: Word) -> bool {
    forall|p: Word, mem: Seq<Word>|
        #![trigger read(mem, p)]
        read(mem, p) == x ==> (m.calls)(f, seq![p], mem).0 == w && spares(
            mem,
            (m.calls)(f, seq![p], mem).1,
        )
}

/// Whether `clone` of a field gives its word.
pub open spec fn field_clones(
    m: Machine,
    s: State,
    fields: Seq<StructFieldView>,
    x: Word,
    words: Seq<Word>,
    i: int,
) -> bool {
    let f = field_method(fields[i], "Clone"@, "clone"@);
    &&& s.out.decls.contains_key(f)
    &&& s.out.decls[f].params == seq![LTyView::Ptr]
    &&& s.out.decls[f].ret is Some
    &&& !s.out.decls[f].variadic
    &&& gives(m, f, part(x, i as nat), words[i])
}

/// Whether `default` of a field gives its word.
pub open spec fn field_defaults(
    m: Machine,
    s: State,
    fields: Seq<StructFieldView>,
    words: Seq<Word>,
    i: int,
) -> bool {
    let f = field_method(fields[i], "Default"@, "default"@);
    &&& s.out.decls.contains_key(f)
    &&& s.out.decls[f].params == Seq::<LTyView>::empty()
    &&& s.out.decls[f].ret is Some
    &&& !s.out.decls[f].variadic
    &&& forall|mem: Seq<Word>| #[trigger]
        (m.calls)(f, Seq::empty(), mem).0 == words[i] && spares(
            mem,
            (m.calls)(f, Seq::empty(), mem).1,
        )
}

proof fn lemma_with_field(
    m: Machine,
    s: State,
    agg: ValView,
    v: ValView,
    i: u32,
    name: Seq<char>,
    f: Frame,
) -> (g: Frame)
    requires
        writable(s.out.cur),
        with_field(s, agg, v, i, name).0 is Ok,
        countable(with_field(s, agg, v, i, name).1.out.cur),
    ensures
        ({
            let (r, t) = with_field(s, agg, v, i, name);
            &&& goes(m, s.out.cur, t.out.cur, f, g)
            &&& same_rest(s, t)
            &&& known(t.out.cur, r->Ok_0)
            &&& r->Ok_0.ty == agg.ty
            &&& value(m, g, r->Ok_0) == with_part(value(m, f, agg), i as nat, value(m, f, v))
        }),
{
    reveal(with_field);
    reveal(insert);
    lemma_plain(m, s, InstView::Insert(agg, v, i), agg.ty, f)
}

proof fn lemma_with_field_adds(s: State, agg: ValView, v: ValView, i: u32, name: Seq<char>)
    ensures
        extended(s.out.cur, with_field(s, agg, v, i, name).1.out.cur),
        same_rest(s, with_field(s, agg, v, i, name).1),
{
    reveal(with_field);
    reveal(insert);
    crate::growth::lemma_extended_refl(s.out.cur);
    lemma_adds(s, InstView::Insert(agg, v, i), agg.ty);
}

/// Whether the first parts of a word are these.
pub open spec fn has_parts(w: Word, words: Seq<Word>, n: nat) -> bool {
    forall|j: int| 0 <= j < n ==> part(w, j as nat) == #[trigger] words[j]
}

proof fn lemma_default_fields_adds(
    m: Machine,
    s: State,
    fields: Seq<StructFieldView>,
    agg: ValView,
    i: nat,
    words: Seq<Word>,
)
    requires
        default_fields_each(s, fields, agg, i).0 is Ok,
        forall|j: int| 0 <= j < fields.len() ==> #[trigger] field_defaults(m, s, fields, words, j),
    ensures
        extended(s.out.cur, default_fields_each(s, fields, agg, i).1.out.cur),
        same_rest(s, default_fields_each(s, fields, agg, i).1),
    decreases fields.len() - i,
{
    reveal(default_fields_each);
    crate::growth::lemma_extended_refl(s.out.cur);
    if i < fields.len() {
        let k = (i as usize) as u32;
        let field = fields[i as int];
        let f = field_method(field, "Default"@, "default"@);
        lemma_field_fn(s, field, "Default"@, "default"@);
        assert(field_defaults(m, s, fields, words, i as int));
        let none = Seq::<ValView>::empty();
        lemma_fitted(s, f, none);
        let (v, s1) = call(s, f, none);
        lemma_call_adds(s, f, none);
        let (r, s2) = with_field(s1, agg, v, k, field.name);
        lemma_with_field_adds(s1, agg, v, k, field.name);
        assert forall|j: int| 0 <= j < fields.len() implies #[trigger] field_defaults(
            m,
            s2,
            fields,
            words,
            j,
        ) by {
            assert(field_defaults(m, s, fields, words, j));
        }
        lemma_default_fields_adds(m, s2, fields, r->Ok_0, i + 1, words);
        lemma_extended(s.out.cur, s1.out.cur, s2.out.cur);
        lemma_extended(
            s.out.cur,
            s2.out.cur,
            default_fields_each(s, fields, agg, i).1.out.cur,
        );
    }
}

proof fn lemma_default_fields(
    m: Machine,
    s: State,
    fields: Seq<StructFieldView>,
    agg: ValView,
    i: nat,
    words: Seq<Word>,
    f: Frame,
) -> (g: Frame)
    requires
        i <= fields.len() <= u32::MAX,
        writable(s.out.cur),
        default_fields_each(s, fields, agg, i).0 is Ok,
        countable(default_fields_each(s, fields, agg, i).1.out.cur),
        known(s.out.cur, agg),
        has_parts(value(m, f, agg), words, i),
        words.len() == fields.len(),
        forall|j: int| 0 <= j < fields.len() ==> #[trigger] field_defaults(m, s, fields, words, j),
    ensures
        ({
            let (r, t) = default_fields_each(s, fields, agg, i);
            &&& goes(m, s.out.cur, t.out.cur, f, g)
            &&& same_rest(s, t)
            &&& known(t.out.cur, r->Ok_0)
            &&& r->Ok_0.ty == agg.ty
            &&& has_parts(value(m, g, r->Ok_0), words, words.len())
        }),
    decreases fields.len() - i,
{
    reveal(default_fields_each);
    if i < fields.len() {
        let k = (i as usize) as u32;
        let field = fields[i as int];
        let fun = field_method(field, "Default"@, "default"@);
        lemma_field_fn(s, field, "Default"@, "default"@);
        assert(field_defaults(m, s, fields, words, i as int));
        let none = Seq::<ValView>::empty();
        lemma_fitted(s, fun, none);
        let (v, s1) = call(s, fun, none);
        lemma_call_adds(s, fun, none);
        let (r, s2) = with_field(s1, agg, v, k, field.name);
        lemma_with_field_adds(s1, agg, v, k, field.name);
        assert forall|j: int| 0 <= j < fields.len() implies #[trigger] field_defaults(
            m,
            s2,
            fields,
            words,
            j,
        ) by {
            assert(field_defaults(m, s, fields, words, j));
        }
        lemma_default_fields_adds(m, s2, fields, r->Ok_0, i + 1, words);
        let t = default_fields_each(s, fields, agg, i).1;
        lemma_countable(s2.out.cur, t.out.cur);
        lemma_countable(s1.out.cur, s2.out.cur);
        assert(values(m, f, none) =~= Seq::empty());
        assert((m.calls)(fun, Seq::empty(), f.mem).0 == words[i as int]);
        let f1 = lemma_call(m, s, fun, none, f);
        lemma_known(s.out.cur, s1.out.cur, agg);
        lemma_value(m, s.out.cur, f, f1, agg);
        let f2 = lemma_with_field(m, s1, agg, v, k, field.name, f1);
        lemma_goes_trans(m, s.out.cur, s1.out.cur, s2.out.cur, f, f1, f2);
        let g = lemma_default_fields(m, s2, fields, r->Ok_0, i + 1, words, f2);
        lemma_goes_trans(m, s.out.cur, s2.out.cur, t.out.cur, f, f2, g);
        g
    } else {
        lemma_goes_refl(m, s.out.cur, f);
        f
    }
}

/// The derived `default` is a struct whose fields are the defaults of their types, each in its own
/// place.
pub proof fn law_derived_default(
    m: Machine,
    s: State,
    decl: StructDeclView,
    mem: Seq<Word>,
    words: Seq<Word>,
) -> (r: (Word, Seq<Word>))
    requires
        generate_derive_default(s, decl).0 is Ok,
        countable(generate_derive_default(s, decl).1.out.cur),
        !s.out.decls.contains_key(builtin_fn_spec("Default"@, "default"@, decl.name)),
        !s.out.bodies.contains_key(builtin_fn_spec("Default"@, "default"@, decl.name)),
        decl.fields.len() <= u32::MAX,
        words.len() == decl.fields.len(),
        forall|j: int|
            0 <= j < decl.fields.len() ==> #[trigger] field_defaults(m, s, decl.fields, words, j),
    ensures
        ({
            let f = builtin_fn_spec("Default"@, "default"@, decl.name);
            let t = generate_derive_default(s, decl).1;
            &&& t.out.bodies.contains_key(f)
            &&& answers(m, t.out.bodies[f], Seq::empty(), mem, r.0, r.1)
            &&& has_parts(r.0, words, words.len())
            &&& spares(mem, r.1)
        }),
{
    reveal(generate_derive_default);
    reveal(declared_struct);
    reveal(default_fields);
    let f = builtin_fn_spec("Default"@, "default"@, decl.name);
    let lty = LTyView::Named(decl.name);
    let args = Seq::<Word>::empty();
    let s0 = begin(declare_builtin(s, f, Seq::empty(), lty), f);
    lemma_begun(s, f, Seq::empty(), lty, args, mem);
    let e = entry(args, mem).frame;
    assert forall|j: int| 0 <= j < decl.fields.len() implies #[trigger] field_defaults(
        m,
        s0,
        decl.fields,
        words,
        j,
    ) by {
        assert(field_defaults(m, s, decl.fields, words, j));
    }
    let (r, s1) = default_fields_each(s0, decl.fields, undef(lty), 0);
    let c = r->Ok_0;
    lemma_default_fields_adds(m, s0, decl.fields, undef(lty), 0, words);
    let s2 = ret(s1, c).1;
    lemma_ret_built(s1, c);
    lemma_emit_any(s1, InstView::Ret(Some(c)));
    let t = generate_derive_default(s, decl).1;
    reveal(add_method);
    reveal(finish);
    assert(t.out.cur == s2.out.cur);
    lemma_countable(s1.out.cur, s2.out.cur);
    let g = lemma_default_fields(m, s0, decl.fields, undef(lty), 0, words, e);
    lemma_finished(m, s0, s1, c, args, mem, g);
    reveal(kept);
    (value(m, g, c), g.mem)
}

proof fn lemma_clone_fields_adds(
    m: Machine,
    s: State,
    fields: Seq<StructFieldView>,
    v: ValView,
    agg: ValView,
    i: nat,
    x: Word,
    words: Seq<Word>,
)
    requires
        clone_fields_each(s, fields, v, agg, i).0 is Ok,
        forall|j: int| 0 <= j < fields.len() ==> #[trigger] field_clones(m, s, fields, x, words, j),
    ensures
        extended(s.out.cur, clone_fields_each(s, fields, v, agg, i).1.out.cur),
        same_rest(s, clone_fields_each(s, fields, v, agg, i).1),
    decreases fields.len() - i,
{
    reveal(clone_fields_each);
    reveal(field_of);
    crate::growth::lemma_extended_refl(s.out.cur);
    if i < fields.len() {
        let k = (i as usize) as u32;
        let field = fields[i as int];
        let f = field_method(field, "Clone"@, "clone"@);
        let (gx, s1) = extract(s, v, k);
        lemma_extract_adds(s, v, k);
        lemma_field_fn(s1, field, "Clone"@, "clone"@);
        assert(field_clones(m, s, fields, x, words, i as int));
        let lty = lower_type(s1.env, field.ty)->Ok_0;
        let (p, s2) = spill(s1, lty, gx->Some_0);
        lemma_spill_adds(s1, lty, gx->Some_0);
        lemma_fitted(s2, f, seq![p]);
        let (c, s3) = call(s2, f, seq![p]);
        lemma_call_adds(s2, f, seq![p]);
        let (r, s4) = with_field(s3, agg, c, k, field.name);
        lemma_with_field_adds(s3, agg, c, k, field.name);
        assert forall|j: int| 0 <= j < fields.len() implies #[trigger] field_clones(
            m,
            s4,
            fields,
            x,
            words,
            j,
        ) by {
            assert(field_clones(m, s, fields, x, words, j));
        }
        lemma_clone_fields_adds(m, s4, fields, v, r->Ok_0, i + 1, x, words);
        lemma_extended(s.out.cur, s1.out.cur, s2.out.cur);
        lemma_extended(s.out.cur, s2.out.cur, s3.out.cur);
        lemma_extended(s.out.cur, s3.out.cur, s4.out.cur);
        lemma_extended(
            s.out.cur,
            s4.out.cur,
            clone_fields_each(s, fields, v, agg, i).1.out.cur,
        );
    }
}

proof fn lemma_clone_fields(
    m: Machine,
    s: State,
    fields: Seq<StructFieldView>,
    v: ValView,
    agg: ValView,
    i: nat,
    words: Seq<Word>,
    f: Frame,
) -> (g: Frame)
    requires
        i <= fields.len() <= u32::MAX,
        writable(s.out.cur),
        clone_fields_each(s, fields, v, agg, i).0 is Ok,
        countable(clone_fields_each(s, fields, v, agg, i).1.out.cur),
        known(s.out.cur, agg),
        known(s.out.cur, v),
        has_parts(value(m, f, agg), words, i),
        words.len() == fields.len(),
        forall|j: int|
            0 <= j < fields.len() ==> #[trigger] field_clones(
                m,
                s,
                fields,
                value(m, f, v),
                words,
                j,
            ),
    ensures
        ({
            let (r, t) = clone_fields_each(s, fields, v, agg, i);
            &&& goes(m, s.out.cur, t.out.cur, f, g)
            &&& same_rest(s, t)
            &&& known(t.out.cur, r->Ok_0)
            &&& r->Ok_0.ty == agg.ty
            &&& has_parts(value(m, g, r->Ok_0), words, words.len())
        }),
    decreases fields.len() - i,
{
    reveal(clone_fields_each);
    reveal(field_of);
    if i < fields.len() {
        let k = (i as usize) as u32;
        let field = fields[i as int];
        let fun = field_method(field, "Clone"@, "clone"@);
        let whole = value(m, f, v);
        let (gx, s1) = extract(s, v, k);
        let x = gx->Some_0;
        lemma_extract_adds(s, v, k);
        lemma_field_fn(s1, field, "Clone"@, "clone"@);
        assert(field_clones(m, s, fields, whole, words, i as int));
        let lty = lower_type(s1.env, field.ty)->Ok_0;
        let (p, s2) = spill(s1, lty, x);
        lemma_spill_adds(s1, lty, x);
        let args = seq![p];
        lemma_fitted(s2, fun, args);
        let (c, s3) = call(s2, fun, args);
        lemma_call_adds(s2, fun, args);
        let (r, s4) = with_field(s3, agg, c, k, field.name);
        lemma_with_field_adds(s3, agg, c, k, field.name);
        assert forall|j: int| 0 <= j < fields.len() implies #[trigger] field_clones(
            m,
            s4,
            fields,
            whole,
            words,
            j,
        ) by {
            assert(field_clones(m, s, fields, whole, words, j));
        }
        lemma_clone_fields_adds(m, s4, fields, v, r->Ok_0, i + 1, whole, words);
        let t = clone_fields_each(s, fields, v, agg, i).1;
        lemma_countable(s4.out.cur, t.out.cur);
        lemma_countable(s3.out.cur, s4.out.cur);
        lemma_countable(s2.out.cur, s3.out.cur);
        lemma_countable(s1.out.cur, s2.out.cur);
        let f1 = lemma_extract(m, s, v, k, f);
        let f2 = lemma_spill(m, s1, lty, x, f1);
        lemma_goes_trans(m, s.out.cur, s1.out.cur, s2.out.cur, f, f1, f2);
        let wp = value(m, f2, p);
        assert(values(m, f2, args) =~= seq![wp]);
        assert(read(f2.mem, wp) == part(whole, i));
        let f3 = lemma_call(m, s2, fun, args, f2);
        lemma_goes_trans(m, s.out.cur, s2.out.cur, s3.out.cur, f, f2, f3);
        lemma_known(s.out.cur, s3.out.cur, agg);
        lemma_value(m, s.out.cur, f, f3, agg);
        let f4 = lemma_with_field(m, s3, agg, c, k, field.name, f3);
        lemma_goes_trans(m, s.out.cur, s3.out.cur, s4.out.cur, f, f3, f4);
        lemma_known(s.out.cur, s4.out.cur, v);
        lemma_value(m, s.out.cur, f, f4, v);
        let g = lemma_clone_fields(m, s4, fields, v, r->Ok_0, i + 1, words, f4);
        lemma_goes_trans(m, s.out.cur, s4.out.cur, t.out.cur, f, f4, g);
        g
    } else {
        lemma_goes_refl(m, s.out.cur, f);
        f
    }
}

/// The derived `clone` is a struct whose fields are the clones of the fields of its argument, each
/// in its own place.
pub proof fn law_derived_clone(
    m: Machine,
    s: State,
    decl: StructDeclView,
    p: Word,
    mem: Seq<Word>,
    words: Seq<Word>,
) -> (r: (Word, Seq<Word>))
    requires
        generate_derive_clone(s, decl).0 is Ok,
        countable(generate_derive_clone(s, decl).1.out.cur),
        !s.out.decls.contains_key(builtin_fn_spec("Clone"@, "clone"@, decl.name)),
        !s.out.bodies.contains_key(builtin_fn_spec("Clone"@, "clone"@, decl.name)),
        decl.fields.len() <= u32::MAX,
        words.len() == decl.fields.len(),
        forall|j: int|
            0 <= j < decl.fields.len() ==> #[trigger] field_clones(
                m,
                s,
                decl.fields,
                read(mem, p),
                words,
                j,
            ),
    ensures
        ({
            let f = builtin_fn_spec("Clone"@, "clone"@, decl.name);
            let t = generate_derive_clone(s, decl).1;
            &&& t.out.bodies.contains_key(f)
            &&& answers(m, t.out.bodies[f], seq![p], mem, r.0, r.1)
            &&& has_parts(r.0, words, words.len())
            &&& spares(mem, r.1)
        }),
{
    reveal(generate_derive_clone);
    reveal(declared_struct);
    reveal(clone_fields);
    reveal(load);
    reveal(arg_spec);
    let f = builtin_fn_spec("Clone"@, "clone"@, decl.name);
    let lty = LTyView::Named(decl.name);
    let args = seq![p];
    let s0 = begin(declare_builtin(s, f, seq![LTyView::Ptr], lty), f);
    lemma_begun(s, f, seq![LTyView::Ptr], lty, args, mem);
    let e = entry(args, mem).frame;
    let inst = InstView::Load(lty, arg_spec(0, LTyView::Ptr));
    let (v, s1) = emit_value(s0, inst, lty);
    lemma_adds(s0, inst, lty);
    assert forall|j: int| 0 <= j < decl.fields.len() implies #[trigger] field_clones(
        m,
        s1,
        decl.fields,
        read(mem, p),
        words,
        j,
    ) by {
        assert(field_clones(m, s, decl.fields, read(mem, p), words, j));
    }
    let (r, s2) = clone_fields_each(s1, decl.fields, v, undef(lty), 0);
    let c = r->Ok_0;
    lemma_clone_fields_adds(m, s1, decl.fields, v, undef(lty), 0, read(mem, p), words);
    let s3 = ret(s2, c).1;
    lemma_ret_built(s2, c);
    lemma_emit_any(s2, InstView::Ret(Some(c)));
    let t = generate_derive_clone(s, decl).1;
    reveal(add_method);
    reveal(finish);
    assert(t.out.cur == s3.out.cur);
    lemma_countable(s2.out.cur, s3.out.cur);
    lemma_countable(s1.out.cur, s2.out.cur);
    let f1 = lemma_plain(m, s0, inst, lty, e);
    let g = lemma_clone_fields(m, s1, decl.fields, v, undef(lty), 0, words, f1);
    lemma_goes_trans(m, s0.out.cur, s1.out.cur, s2.out.cur, e, f1, g);
    lemma_finished(m, s0, s2, c, args, mem, g);
    reveal(kept);
    (value(m, g, c), g.mem)
}

} // verus!
