//! What holds of variables and of what is stored when code runs.
use crate::bodies::{annotated, compile_break_value, compile_init, compile_let, type_or_spec};
use crate::builder::{alloca, binary, elem_ptr, emit_value, int_const, load, store};
use crate::cast_laws::lemma_ranges;
use crate::casts::{as_ptr_spec, emit_cast};
use crate::exprs::{
    assign_place, compile_assign, compile_deref, compile_ref, guarded, referent_spec,
    start_iterator,
};
use crate::growth::extended;
use crate::infer::ty_of;
use crate::ir::{BinKind, CurView, InstView, LTyView, ValView};
use crate::machine::{
    Frame, Machine, Moment, Word, bit, part, part_at, part_place, range, read, value, with_part_at,
    written,
};
use crate::model::{ExprView, MatchArmView, PatternView, StmtView, TypeView};
use crate::nesting::{Nested, nested_expr};
use crate::patterns::bind_all;
use crate::places::{element_at, low_bit, store_repeated, variable_ptr};
use crate::query::lower_type;
use crate::running::{
    countable, end_of, goes, known, lemma_countable, lemma_emit_any, lemma_extended, lemma_known,
    lemma_leads_lift, lemma_leads_refl, lemma_leads_trans, lemma_plain, lemma_store, lemma_value,
    lemma_value_kept, runs, same_rest, writable,
};
use crate::scopes::{drop_shadowed, note_given, note_in_scope, note_move};
use crate::state::{ErrorView, LoopContextView, State};
use crate::token::Span;
use vstd::prelude::*;

verus! {

/// Whether a word is a place in memory that there is.
pub open spec fn in_memory_at(mem: Seq<Word>, p: Word) -> bool {
    p is Addr && p->Addr_0 < mem.len()
}

proof fn lemma_part_written(w: Word, path: Seq<nat>, v: Word)
    ensures
        part_at(with_part_at(w, path, v), path) == v,
    decreases path.len(),
{
    if path.len() > 0 {
        lemma_part_written(crate::machine::part(w, path[0]), path.drop_first(), v);
    }
}

/// What is written to a place is read there; what other cells hold is not changed.
pub proof fn law_what_is_written_is_read(mem: Seq<Word>, p: Word, v: Word)
    requires
        in_memory_at(mem, p),
    ensures
        read(written(mem, p, v), p) == v,
        written(mem, p, v).len() == mem.len(),
        forall|c: int|
            0 <= c < mem.len() && c != p->Addr_0 ==> #[trigger] written(mem, p, v)[c] == mem[c],
{
    let c = p->Addr_0 as int;
    lemma_part_written(mem[c], p->Addr_1, v);
}

/// A store leads to a memory in which the place holds the value.
proof fn lemma_stored(m: Machine, s: State, v: ValView, p: ValView, f: Frame) -> (g: Frame)
    requires
        writable(s.out.cur),
        countable(store(s, v, p).out.cur),
        known(s.out.cur, p),
        in_memory_at(f.mem, value(m, f, p)),
    ensures
        runs(m, s.out.cur, store(s, v, p).out.cur, f, g),
        value(m, g, p) == value(m, f, p),
        read(g.mem, value(m, g, p)) == value(m, f, v),
        forall|c: int|
            0 <= c < f.mem.len() && c != value(m, f, p)->Addr_0 ==> #[trigger] g.mem[c] == f.mem[c],
{
    let g = lemma_store(m, s, v, p, f);
    lemma_value_kept(m, s.out.cur, f, g, p);
    law_what_is_written_is_read(f.mem, value(m, f, p), value(m, f, v));
    g
}

/// A variable that is declared holds its first value, converted to the type that is written, and no
/// other cell changes.
pub proof fn law_let(
    m: Machine,
    s: State,
    k: Nested,
    x: StmtView,
    name: Seq<char>,
    s1: State,
    lty: LTyView,
    s3: State,
    v: ValView,
    s4: State,
    w: ValView,
    f: Frame,
) -> (g: Frame)
    requires
        x is Let,
        x->Let_pattern == PatternView::Binding(name),
        drop_shadowed(s, k.fuel, name) == (Ok::<(), ErrorView>(()), s1),
        lower_type(s1.env, type_or_spec(x->Let_type_ann, ty_of(s1, x->Let_init))) == Ok::<
            LTyView,
            ErrorView,
        >(lty),
        compile_init(alloca(s1, lty).1, k, x->Let_init, x->Let_type_ann) == (
            Ok::<ValView, ErrorView>(v),
            s3,
        ),
        annotated(s3, v, lty, x->Let_type_ann, ty_of(s3, x->Let_init)) == (
            Ok::<ValView, ErrorView>(w),
            s4,
        ),
        writable(s4.out.cur),
        known(s4.out.cur, alloca(s1, lty).0),
        countable(compile_let(s, k, x).1.out.cur),
        in_memory_at(f.mem, value(m, f, alloca(s1, lty).0)),
    ensures
        ({
            let (r, t) = compile_let(s, k, x);
            let a = alloca(s1, lty).0;
            &&& r is Ok
            &&& t.fun.symbols.contains_key(name)
            &&& t.fun.symbols[name].0 == a
            &&& t.fun.symbols[name].1 == x->Let_is_mut
            &&& t.fun.symbols[name].2 == type_or_spec(x->Let_type_ann, ty_of(s1, x->Let_init))
            &&& runs(m, s4.out.cur, t.out.cur, f, g)
            &&& read(g.mem, value(m, g, a)) == value(m, f, w)
            &&& forall|c: int|
                0 <= c < f.mem.len() && c != value(m, f, a)->Addr_0 ==> #[trigger] g.mem[c]
                    == f.mem[c]
        }),
{
    reveal(compile_let);
    reveal(note_in_scope);
    reveal(note_move);
    let a = alloca(s1, lty).0;
    let t = compile_let(s, k, x).1;
    assert(t.out == store(s4, w, a).out);
    lemma_stored(m, s4, w, a, f)
}

/// What is assigned is what the place holds afterwards, and what the assignment gives.
pub proof fn law_assignment(
    m: Machine,
    s: State,
    k: Nested,
    e: ExprView,
    p: ValView,
    want: Option<TypeView>,
    s1: State,
    v: ValView,
    s2: State,
    f: Frame,
) -> (g: Frame)
    requires
        e is Assign,
        assign_place(s, k, *e->Assign_target, crate::model::span_of(e)) == (
            Ok::<(ValView, Option<TypeView>), ErrorView>((p, want)),
            s1,
        ),
        nested_expr(s1, k, *e->Assign_value) == (Ok::<ValView, ErrorView>(v), s2),
        want matches Some(ty) ==> lower_type(s2.env, ty) == Ok::<LTyView, ErrorView>(v.ty),
        writable(s2.out.cur),
        known(s2.out.cur, p),
        known(s2.out.cur, v),
        countable(compile_assign(s, k, e).1.out.cur),
        in_memory_at(f.mem, value(m, f, p)),
    ensures
        ({
            let (r, t) = compile_assign(s, k, e);
            &&& r is Ok
            &&& runs(m, s2.out.cur, t.out.cur, f, g)
            &&& read(g.mem, value(m, g, p)) == value(m, f, v)
            &&& value(m, g, r->Ok_0) == value(m, f, v)
            &&& forall|c: int|
                0 <= c < f.mem.len() && c != value(m, f, p)->Addr_0 ==> #[trigger] g.mem[c]
                    == f.mem[c]
        }),
{
    reveal(compile_assign);
    reveal(note_given);
    let t = compile_assign(s, k, e).1;
    assert(t.out == store(s2, v, p).out);
    let h = lemma_store(m, s2, v, p, f);
    let g = lemma_stored(m, s2, v, p, f);
    law_what_is_written_is_read(f.mem, value(m, f, p), value(m, f, v));
    lemma_value_kept(m, s2.out.cur, f, h, p);
    lemma_value_kept(m, s2.out.cur, f, h, v);
    h
}

/// The value of a `break` is where the value of its loop is read.
pub proof fn law_break_value(
    m: Machine,
    s: State,
    k: Nested,
    x: StmtView,
    c: LoopContextView,
    slot: ValView,
    ty: TypeView,
    v: ValView,
    s1: State,
    f: Frame,
) -> (g: Frame)
    requires
        x is Break,
        x->Break_value is Some,
        c.result == Some((slot, ty)),
        ty_of(s, *x->Break_value->Some_0) == ty,
        !(ty is Never),
        nested_expr(s, k, *x->Break_value->Some_0) == (Ok::<ValView, ErrorView>(v), s1),
        writable(s1.out.cur),
        known(s1.out.cur, slot),
        countable(compile_break_value(s, k, x, c).1.out.cur),
        in_memory_at(f.mem, value(m, f, slot)),
    ensures
        ({
            let (r, t) = compile_break_value(s, k, x, c);
            &&& r is Ok
            &&& runs(m, s1.out.cur, t.out.cur, f, g)
            &&& read(g.mem, value(m, g, slot)) == value(m, f, v)
        }),
{
    reveal(compile_break_value);
    reveal(emit_cast);
    reveal(note_given);
    let t = compile_break_value(s, k, x, c).1;
    assert(t.out == store(s1, v, slot).out);
    lemma_stored(m, s1, v, slot, f)
}

/// The iterator of a `for` loop is kept in the variable that its test asks.
pub proof fn law_iterator_is_kept(
    m: Machine,
    s: State,
    k: Nested,
    iterator: ExprView,
    iter_ty: TypeView,
    lty: LTyView,
    v: ValView,
    s1: State,
    f: Frame,
) -> (g: Frame)
    requires
        lower_type(s.env, iter_ty) == Ok::<LTyView, ErrorView>(lty),
        nested_expr(alloca(s, lty).1, k, iterator) == (Ok::<ValView, ErrorView>(v), s1),
        writable(s1.out.cur),
        known(s1.out.cur, alloca(s, lty).0),
        countable(start_iterator(s, k, iterator, iter_ty).1.out.cur),
        in_memory_at(f.mem, value(m, f, alloca(s, lty).0)),
    ensures
        ({
            let (r, t) = start_iterator(s, k, iterator, iter_ty);
            let kept = t.fun.symbols["__for_loop_iter"@];
            &&& r is Ok
            &&& t.fun.symbols.contains_key("__for_loop_iter"@)
            &&& kept.1
            &&& kept.2 == iter_ty
            &&& runs(m, s1.out.cur, t.out.cur, f, g)
            &&& read(g.mem, value(m, g, kept.0)) == value(m, f, v)
        }),
{
    reveal(start_iterator);
    let a = alloca(s, lty).0;
    let t = start_iterator(s, k, iterator, iter_ty).1;
    assert(t.out == store(s1, v, a).out);
    lemma_stored(m, s1, v, a, f)
}

/// An arm with a guard is taken where its pattern matches and its guard holds.
pub proof fn law_guard(
    m: Machine,
    s: State,
    k: Nested,
    a: MatchArmView,
    matched: ValView,
    bindings: Seq<(Seq<char>, ValView, TypeView)>,
    place: Span,
    x: ValView,
    s1: State,
    matches_it: bool,
    holds: bool,
    f: Frame,
) -> (g: Frame)
    requires
        a.guard is Some,
        nested_expr(bind_all(s, bindings), k, *a.guard->Some_0) == (
            Ok::<ValView, ErrorView>(x),
            s1,
        ),
        x.ty == LTyView::Int(1),
        matched.ty == LTyView::Int(1),
        writable(s1.out.cur),
        known(s1.out.cur, matched),
        known(s1.out.cur, x),
        value(m, f, matched) == bit(matches_it),
        value(m, f, x) == bit(holds),
        countable(guarded(s, k, a, matched, bindings, place).1.out.cur),
    ensures
        ({
            let (r, t) = guarded(s, k, a, matched, bindings, place);
            &&& r is Ok
            &&& t.fun.symbols == s.fun.symbols
            &&& goes(m, s1.out.cur, t.out.cur, f, g)
            &&& known(t.out.cur, r->Ok_0)
            &&& value(m, g, r->Ok_0) == bit(matches_it && holds)
        }),
{
    reveal(guarded);
    reveal(low_bit);
    reveal(binary);
    let s2 = State {
        fun: crate::state::FunView { symbols: s.fun.symbols, ..s1.fun },
        ..s1
    };
    assert((1u64 & 1u64) == 1) by (bit_vector);
    lemma_plain(m, s2, InstView::Bin(BinKind::And, matched, x), LTyView::Int(1), f)
}

/// What a pointer points to is what memory holds there.
pub proof fn law_dereference(
    m: Machine,
    s: State,
    k: Nested,
    e: ExprView,
    pointer: ExprView,
    v: ValView,
    s1: State,
    f: Frame,
) -> (g: Frame)
    requires
        e matches ExprView::Deref(x, _) ==> *x == pointer,
        e is Deref,
        nested_expr(s, k, pointer) == (Ok::<ValView, ErrorView>(v), s1),
        writable(s1.out.cur),
        compile_deref(s, k, e).0 is Ok,
        countable(compile_deref(s, k, e).1.out.cur),
    ensures
        ({
            let (r, t) = compile_deref(s, k, e);
            &&& v.ty is Ptr
            &&& goes(m, s1.out.cur, t.out.cur, f, g)
            &&& value(m, g, r->Ok_0) == read(f.mem, value(m, f, v))
        }),
{
    reveal(compile_deref);
    reveal(as_ptr_spec);
    reveal(load);
    let lty = lower_type(s1.env, referent_spec(ty_of(s1, pointer)))->Ok_0;
    lemma_plain(m, s1, InstView::Load(lty, v), lty, f)
}

/// A reference to a variable is the place where it is.
pub proof fn law_reference(s: State, k: Nested, e: ExprView, name: Seq<char>, place: Span)
    requires
        e is Ref,
        *e->Ref_expr == ExprView::Ident(name, place),
        s.fun.symbols.contains_key(name),
    ensures
        compile_ref(s, k, e) == (Ok::<ValView, ErrorView>(s.fun.symbols[name].0), s),
{
    reveal(compile_ref);
    reveal(variable_ptr);
}

/// The place of an element of an array is the part of the array with that index.
pub proof fn law_element_place(
    m: Machine,
    s: State,
    lty: LTyView,
    base: ValView,
    i: usize,
    f: Frame,
) -> (g: Frame)
    requires
        writable(s.out.cur),
        countable(element_at(s, lty, base, i).1.out.cur),
    ensures
        ({
            let (p, t) = element_at(s, lty, base, i);
            &&& goes(m, s.out.cur, t.out.cur, f, g)
            &&& known(t.out.cur, p)
            &&& g.mem == f.mem
            &&& value(m, g, p) == part_place(value(m, f, base), i as nat)
        }),
{
    reveal(element_at);
    reveal(elem_ptr);
    reveal(int_const);
    lemma_ranges();
    vstd::arithmetic::div_mod::lemma_small_mod(i as nat, range(64) as nat);
    let idx = seq![int_const(64, 0), int_const(64, i as u64)];
    lemma_plain(m, s, InstView::ElemPtr(lty, base, idx), LTyView::Ptr, f)
}

proof fn lemma_other_part(w: Word, path: Seq<nat>, i: nat, j: nat, v: Word)
    requires
        i != j,
    ensures
        part_at(with_part_at(w, path.push(i), v), path.push(j)) == part_at(w, path.push(j)),
    decreases path.len(),
{
    let a = path.push(i);
    let b = path.push(j);
    assert(a.len() > 0 && b.len() > 0);
    if path.len() == 0 {
        assert(a.drop_first() =~= Seq::empty());
        assert(b.drop_first() =~= Seq::empty());
        reveal_with_fuel(part_at, 2);
        reveal_with_fuel(with_part_at, 2);
    } else {
        let rest = path.drop_first();
        assert(a.drop_first() =~= rest.push(i));
        assert(b.drop_first() =~= rest.push(j));
        lemma_other_part(part(w, path[0]), rest, i, j, v);
    }
}

/// What is written to one element of an array is not read at another one.
pub proof fn law_elements_are_apart(mem: Seq<Word>, p: Word, i: nat, j: nat, v: Word)
    requires
        in_memory_at(mem, p),
        i != j,
    ensures
        read(written(mem, part_place(p, i), v), part_place(p, j)) == read(mem, part_place(p, j)),
{
    lemma_other_part(mem[p->Addr_0 as int], p->Addr_1, i, j, v);
}

proof fn lemma_repeated_adds(
    s: State,
    lty: LTyView,
    base: ValView,
    v: ValView,
    i: usize,
    count: usize,
)
    ensures
        extended(s.out.cur, store_repeated(s, lty, base, v, i, count).out.cur),
        same_rest(s, store_repeated(s, lty, base, v, i, count)),
    decreases count - i,
{
    reveal(store_repeated);
    reveal(element_at);
    reveal(elem_ptr);
    reveal(emit_value);
    reveal(store);
    crate::growth::lemma_extended_refl(s.out.cur);
    if i < count {
        let idx = seq![int_const(64, 0), int_const(64, i as u64)];
        let (p, s1) = element_at(s, lty, base, i);
        lemma_emit_any(s, InstView::ElemPtr(lty, base, idx));
        let s2 = store(s1, v, p);
        lemma_emit_any(s1, InstView::Store(v, p));
        lemma_extended(s.out.cur, s1.out.cur, s2.out.cur);
        lemma_repeated_adds(s2, lty, base, v, (i + 1) as usize, count);
        lemma_extended(
            s.out.cur,
            s2.out.cur,
            store_repeated(s, lty, base, v, i, count).out.cur,
        );
    }
}

/// Every element of an array from `i` on holds the value that is stored in all of them, and those
/// in
/// front of `i` what they held.
pub proof fn law_all_elements_are_stored(
    m: Machine,
    s: State,
    lty: LTyView,
    base: ValView,
    v: ValView,
    i: usize,
    count: usize,
    f: Frame,
) -> (g: Frame)
    requires
        i <= count,
        writable(s.out.cur),
        known(s.out.cur, base),
        known(s.out.cur, v),
        in_memory_at(f.mem, value(m, f, base)),
        countable(store_repeated(s, lty, base, v, i, count).out.cur),
    ensures
        ({
            let t = store_repeated(s, lty, base, v, i, count);
            let p = value(m, f, base);
            &&& runs(m, s.out.cur, t.out.cur, f, g)
            &&& value(m, g, base) == p
            &&& g.mem.len() == f.mem.len()
            &&& forall|j: nat|
                i <= j < count ==> read(g.mem, #[trigger] part_place(p, j)) == value(m, f, v)
            &&& forall|j: nat|
                j < i ==> read(g.mem, #[trigger] part_place(p, j)) == read(f.mem, part_place(p, j))
        }),
    decreases count - i,
{
    reveal(store_repeated);
    let t = store_repeated(s, lty, base, v, i, count);
    let p = value(m, f, base);
    if i < count {
        let (q, s1) = element_at(s, lty, base, i);
        let s2 = store(s1, v, q);
        reveal(element_at);
        reveal(elem_ptr);
        reveal(emit_value);
        reveal(store);
        let idx = seq![int_const(64, 0), int_const(64, i as u64)];
        lemma_emit_any(s, InstView::ElemPtr(lty, base, idx));
        lemma_emit_any(s1, InstView::Store(v, q));
        lemma_repeated_adds(s2, lty, base, v, (i + 1) as usize, count);
        lemma_countable(s2.out.cur, t.out.cur);
        lemma_countable(s1.out.cur, s2.out.cur);
        let f1 = law_element_place(m, s, lty, base, i, f);
        lemma_value(m, s.out.cur, f, f1, base);
        lemma_value(m, s.out.cur, f, f1, v);
        lemma_known(s.out.cur, s1.out.cur, base);
        lemma_known(s.out.cur, s1.out.cur, v);
        let f2 = lemma_store(m, s1, v, q, f1);
        lemma_value_kept(m, s1.out.cur, f1, f2, base);
        lemma_value_kept(m, s1.out.cur, f1, f2, v);
        lemma_known(s1.out.cur, s2.out.cur, base);
        lemma_known(s1.out.cur, s2.out.cur, v);
        let here = part_place(p, i as nat);
        assert(in_memory_at(f1.mem, here));
        law_what_is_written_is_read(f1.mem, here, value(m, f, v));
        let g = law_all_elements_are_stored(
            m,
            s2,
            lty,
            base,
            v,
            (i + 1) as usize,
            count,
            f2,
        );
        lemma_runs_trans(m, s.out.cur, s1.out.cur, s2.out.cur, f, f1, f2);
        lemma_extended(s.out.cur, s1.out.cur, s2.out.cur);
        lemma_runs_trans(m, s.out.cur, s2.out.cur, t.out.cur, f, f2, g);
        assert forall|j: nat| i <= j < count implies read(g.mem, #[trigger] part_place(p, j))
            == value(m, f, v) by {
            if j == i {
                assert(read(g.mem, part_place(p, j)) == read(f2.mem, part_place(p, j)));
            }
        }
        assert forall|j: nat| j < i implies read(g.mem, #[trigger] part_place(p, j)) == read(
            f.mem,
            part_place(p, j),
        ) by {
            law_elements_are_apart(f1.mem, p, i as nat, j, value(m, f, v));
        }
        g
    } else {
        reveal(runs);
        lemma_leads_refl(
            m,
            s.out.cur.blocks,
            Moment { spot: end_of(s.out.cur), frame: f },
        );
        f
    }
}

/// One run after the other.
proof fn lemma_runs_trans(
    m: Machine,
    a: CurView,
    b: CurView,
    c: CurView,
    f: Frame,
    g: Frame,
    h: Frame,
)
    requires
        runs(m, a, b, f, g),
        runs(m, b, c, g, h),
        extended(b, c),
    ensures
        runs(m, a, c, f, h),
{
    reveal(runs);
    let x = Moment { spot: end_of(a), frame: f };
    let y = Moment { spot: end_of(b), frame: g };
    lemma_leads_lift(m, b, c, x, y);
    lemma_leads_trans(m, c.blocks, x, y, Moment { spot: end_of(c), frame: h });
}

} // verus!
