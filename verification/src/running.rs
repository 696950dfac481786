//! Running code while it is built: what the code does that one state has more than another one.
use crate::builder::{
    add_block, alloca, call, emit, emit_value, ends_block, go_to, int_const, next_reg, spill, store,
};
use crate::growth::extended;
use crate::ir::{CurView, InstView, IrBlockView, LTyView, OperandView, ValView};
use crate::machine::{
    Frame, Machine, Moment, Spot, Word, carried_out, has_inst, leads, next_spot, result, step,
    steps, value, values,
};
use crate::state::State;
use vstd::prelude::*;

verus! {

/// The place behind the last instruction of the block that is written to.
pub open spec fn end_of(cur: CurView) -> Spot {
    Spot::At(cur.at as nat, cur.blocks[cur.at as int].insts.len())
}

/// Whether there is a block to write to.
pub open spec fn writable(cur: CurView) -> bool {
    cur.at < cur.blocks.len()
}

/// Whether every instruction can be named by its place.
pub open spec fn countable(cur: CurView) -> bool {
    &&& cur.blocks.len() <= usize::MAX
    &&& forall|b: int|
        0 <= b < cur.blocks.len() ==> #[trigger] cur.blocks[b].insts.len() <= usize::MAX
}

/// Whether an operand is there: the instruction whose result it is was built.
pub open spec fn known(cur: CurView, v: ValView) -> bool {
    match v.op {
        OperandView::Reg(b, i) => has_inst(cur.blocks, b as nat, i as nat),
        _ => true,
    }
}

/// The result of an instruction.
pub open spec fn reg(f: Frame, b: nat, i: nat) -> Word {
    if f.regs.contains_key((b, i)) {
        f.regs[(b, i)]
    } else {
        Word::Unknown
    }
}

/// What a frame knew is still so: its arguments, the results of the instructions that were built,
/// and what the cells hold that there were.
#[verifier::opaque]
pub open spec fn kept(cur: CurView, f: Frame, g: Frame) -> bool {
    &&& g.args == f.args
    &&& f.mem.len() <= g.mem.len()
    &&& forall|c: int| 0 <= c < f.mem.len() ==> #[trigger] g.mem[c] == f.mem[c]
    &&& forall|b: nat, i: nat| has_inst(
        cur.blocks,
        b,
        i,
    ) ==> #[trigger] reg(g, b, i) == reg(f, b, i)
}

/// The code that was built between two states leads from one frame to another one.
#[verifier::opaque]
pub open spec fn runs(m: Machine, a: CurView, b: CurView, f: Frame, g: Frame) -> bool {
    leads(m, b.blocks, Moment { spot: end_of(a), frame: f }, Moment { spot: end_of(b), frame: g })
}

/// The code that was built between two states leads from one frame to another one, which still
/// knows what the first one knew.
pub open spec fn goes(m: Machine, a: CurView, b: CurView, f: Frame, g: Frame) -> bool {
    &&& extended(a, b)
    &&& writable(b)
    &&& runs(m, a, b, f, g)
    &&& kept(a, f, g)
}

pub proof fn lemma_stuck(m: Machine, blocks: Seq<IrBlockView>, c: Moment, n: nat)
    requires
        !(c.spot is At),
    ensures
        steps(m, blocks, c, n) == c,
    decreases n,
{
    if n > 0 {
        lemma_stuck(m, blocks, step(m, blocks, c), (n - 1) as nat);
    }
}

pub proof fn lemma_steps_add(m: Machine, blocks: Seq<IrBlockView>, c: Moment, n: nat, k: nat)
    ensures
        steps(m, blocks, steps(m, blocks, c, n), k) == steps(m, blocks, c, n + k),
    decreases n,
{
    if n > 0 {
        lemma_steps_add(m, blocks, step(m, blocks, c), (n - 1) as nat, k);
    }
}

/// Nothing has to run.
pub proof fn lemma_leads_refl(m: Machine, blocks: Seq<IrBlockView>, c: Moment)
    ensures
        leads(m, blocks, c, c),
{
    reveal(leads);
    assert(steps(m, blocks, c, 0) == c);
}

/// One run after the other.
pub proof fn lemma_leads_trans(
    m: Machine,
    blocks: Seq<IrBlockView>,
    c: Moment,
    d: Moment,
    e: Moment,
)
    requires
        leads(m, blocks, c, d),
        leads(m, blocks, d, e),
    ensures
        leads(m, blocks, c, e),
{
    reveal(leads);
    let n = choose|n: nat| #[trigger] steps(m, blocks, c, n) == d;
    let k = choose|n: nat| #[trigger] steps(m, blocks, d, n) == e;
    lemma_steps_add(m, blocks, c, n, k);
    assert(steps(m, blocks, c, n + k) == e);
}

/// One instruction.
pub proof fn lemma_leads_step(m: Machine, blocks: Seq<IrBlockView>, c: Moment)
    ensures
        leads(m, blocks, c, step(m, blocks, c)),
{
    reveal(leads);
    assert(steps(m, blocks, c, 1) == steps(m, blocks, step(m, blocks, c), 0));
}

proof fn lemma_steps_lift(m: Machine, a: CurView, b: CurView, c: Moment, n: nat)
    requires
        extended(a, b),
        !(steps(m, a.blocks, c, n).spot is Stuck),
    ensures
        steps(m, b.blocks, c, n) == steps(m, a.blocks, c, n),
    decreases n,
{
    if n > 0 {
        let d = step(m, a.blocks, c);
        if d.spot is Stuck {
            lemma_stuck(m, a.blocks, d, (n - 1) as nat);
        }
        match c.spot {
            Spot::At(x, i) => {
                if has_inst(a.blocks, x, i) {
                    lemma_inst_stays(a, b, x, i);
                }
                assert(step(m, b.blocks, c) == d);
            },
            _ => {},
        }
        lemma_steps_lift(m, a, b, d, (n - 1) as nat);
    }
}

/// An instruction stays where it was built.
pub proof fn lemma_inst_stays(a: CurView, b: CurView, x: nat, i: nat)
    requires
        extended(a, b),
        has_inst(a.blocks, x, i),
    ensures
        has_inst(b.blocks, x, i),
        b.blocks[x as int].insts[i as int] == a.blocks[x as int].insts[i as int],
{
    reveal(extended);
    let p = a.blocks[x as int].insts;
    let q = b.blocks[x as int].insts;
    assert(p.is_prefix_of(q));
    assert(q.subrange(0, p.len() as int)[i as int] == q[i as int]);
}

/// What code does does not change by more code.
pub proof fn lemma_leads_lift(m: Machine, a: CurView, b: CurView, c: Moment, d: Moment)
    requires
        extended(a, b),
        leads(m, a.blocks, c, d),
        !(d.spot is Stuck),
    ensures
        leads(m, b.blocks, c, d),
{
    reveal(leads);
    let n = choose|n: nat| #[trigger] steps(m, a.blocks, c, n) == d;
    lemma_steps_lift(m, a, b, c, n);
    assert(steps(m, b.blocks, c, n) == d);
}

pub proof fn lemma_extended(a: CurView, b: CurView, c: CurView)
    requires
        extended(a, b),
        extended(b, c),
    ensures
        extended(a, c),
{
    assert(crate::growth::from_cur(a));
    crate::growth::lemma_extended_trans(a, b, c);
}

/// An operand that is there stays there.
pub proof fn lemma_known(a: CurView, b: CurView, v: ValView)
    requires
        extended(a, b),
        known(a, v),
    ensures
        known(b, v),
{
    match v.op {
        OperandView::Reg(x, i) => {
            lemma_inst_stays(a, b, x as nat, i as nat);
        },
        _ => {},
    }
}

/// An operand that was there is the same word in a frame that still knows it.
pub proof fn lemma_value(m: Machine, cur: CurView, f: Frame, g: Frame, v: ValView)
    requires
        kept(cur, f, g),
        known(cur, v),
    ensures
        value(m, g, v) == value(m, f, v),
{
    reveal(kept);
    match v.op {
        OperandView::Reg(b, i) => {
            assert(reg(g, b as nat, i as nat) == reg(f, b as nat, i as nat));
        },
        _ => {},
    }
}

pub proof fn lemma_kept_refl(cur: CurView, f: Frame)
    ensures
        kept(cur, f, f),
{
    reveal(kept);
}

pub proof fn lemma_kept_trans(a: CurView, b: CurView, f: Frame, g: Frame, h: Frame)
    requires
        extended(a, b),
        kept(a, f, g),
        kept(b, g, h),
    ensures
        kept(a, f, h),
{
    reveal(kept);
    assert forall|x: nat, i: nat| has_inst(a.blocks, x, i) implies #[trigger] reg(h, x, i) == reg(
        f,
        x,
        i,
    ) by {
        lemma_inst_stays(a, b, x, i);
        assert(reg(h, x, i) == reg(g, x, i));
        assert(reg(g, x, i) == reg(f, x, i));
    }
    assert forall|c: int| 0 <= c < f.mem.len() implies #[trigger] h.mem[c] == f.mem[c] by {
        assert(h.mem[c] == g.mem[c]);
        assert(g.mem[c] == f.mem[c]);
    }
}

/// Nothing was built.
pub proof fn lemma_goes_refl(m: Machine, a: CurView, f: Frame)
    requires
        writable(a),
    ensures
        goes(m, a, a, f, f),
{
    crate::growth::lemma_extended_refl(a);
    lemma_kept_refl(a, f);
    reveal(runs);
    lemma_leads_refl(m, a.blocks, Moment { spot: end_of(a), frame: f });
}

/// Code behind code.
pub proof fn lemma_goes_trans(
    m: Machine,
    a: CurView,
    b: CurView,
    c: CurView,
    f: Frame,
    g: Frame,
    h: Frame,
)
    requires
        goes(m, a, b, f, g),
        goes(m, b, c, g, h),
    ensures
        goes(m, a, c, f, h),
{
    lemma_extended(a, b, c);
    lemma_kept_trans(a, b, f, g, h);
    reveal(runs);
    let x = Moment { spot: end_of(a), frame: f };
    let y = Moment { spot: end_of(b), frame: g };
    let z = Moment { spot: end_of(c), frame: h };
    lemma_leads_lift(m, b, c, x, y);
    lemma_leads_trans(m, c.blocks, x, y, z);
}

/// What was countable at the end was so before.
pub proof fn lemma_countable(a: CurView, b: CurView)
    requires
        extended(a, b),
        countable(b),
    ensures
        countable(a),
{
    reveal(extended);
    assert forall|x: int| 0 <= x < a.blocks.len() implies #[trigger] a.blocks[x].insts.len()
        <= usize::MAX by {
        let _ = b.blocks[x];
        assert(a.blocks[x].insts.is_prefix_of(b.blocks[x].insts));
    }
}

/// An instruction that was built is there.
pub proof fn lemma_emitted(s: State, inst: InstView)
    requires
        writable(s.out.cur),
    ensures
        ({
            let a = s.out.cur;
            let t = emit(s, inst);
            let b = t.out.cur;
            let n = a.blocks[a.at as int].insts.len();
            &&& extended(a, b)
            &&& b.at == a.at
            &&& writable(b)
            &&& end_of(a) == Spot::At(a.at as nat, n)
            &&& end_of(b) == Spot::At(a.at as nat, n + 1)
            &&& has_inst(b.blocks, a.at as nat, n)
            &&& b.blocks[a.at as int].insts[n as int] == inst
            &&& b.blocks.len() == a.blocks.len()
            &&& t.env == s.env
            &&& t.fun == s.fun
            &&& t.out.decls == s.out.decls
            &&& t.out.struct_bodies == s.out.struct_bodies
            &&& t.out.bodies == s.out.bodies
            &&& forall|x: int|
                0 <= x < a.blocks.len() && x != a.at ==> #[trigger] b.blocks[x] == a.blocks[x]
        }),
{
    reveal(emit);
    reveal(extended);
    let a = s.out.cur;
    let b = emit(s, inst).out.cur;
    let p = a.blocks[a.at as int].insts;
    assert(p.is_prefix_of(p.push(inst)));
}

/// Running over an instruction that was just built.
pub proof fn lemma_emit(m: Machine, s: State, inst: InstView, f: Frame) -> (g: Frame)
    requires
        writable(s.out.cur),
        !ends_block(inst),
        countable(emit(s, inst).out.cur),
    ensures
        runs(m, s.out.cur, emit(s, inst).out.cur, f, g),
        extended(s.out.cur, emit(s, inst).out.cur),
        writable(emit(s, inst).out.cur),
        emit(s, inst).out.cur.at == s.out.cur.at,
        emit(s, inst).env == s.env,
        emit(s, inst).fun == s.fun,
        emit(s, inst).out.decls == s.out.decls,
        emit(s, inst).out.struct_bodies == s.out.struct_bodies,
        emit(s, inst).out.bodies == s.out.bodies,
        same_rest(s, emit(s, inst)),
        forall|ty: LTyView|
            #![trigger value(m, g, ValView { op: next_reg(s), ty })]
            known(emit(s, inst).out.cur, ValView { op: next_reg(s), ty }) && value(
                m,
                g,
                ValView { op: next_reg(s), ty },
            ) == result(m, f, inst),
        g.args == f.args,
        g.mem == crate::machine::memory(m, f, inst),
        forall|b: nat, i: nat|
            has_inst(s.out.cur.blocks, b, i) ==> #[trigger] reg(g, b, i) == reg(f, b, i),
{
    let a = s.out.cur;
    let t = emit(s, inst);
    let b = t.out.cur;
    lemma_emitted(s, inst);
    let n = a.blocks[a.at as int].insts.len();
    reveal(extended);
    assert(b.blocks[a.at as int].insts.len() <= usize::MAX);
    reveal(next_reg);
    let g = carried_out(m, f, inst, a.at as nat, n);
    reveal(runs);
    let c = Moment { spot: end_of(a), frame: f };
    lemma_leads_step(m, b.blocks, c);
    assert(step(m, b.blocks, c) == Moment { spot: end_of(b), frame: g });
    g
}

/// Running over an instruction that writes to no cell that there was and calls nothing.
pub proof fn lemma_plain(m: Machine, s: State, inst: InstView, ty: LTyView, f: Frame) -> (g: Frame)
    requires
        writable(s.out.cur),
        !ends_block(inst),
        !(inst is Store),
        !(inst is Call),
        countable(emit_value(s, inst, ty).1.out.cur),
    ensures
        ({
            let (v, t) = emit_value(s, inst, ty);
            &&& goes(m, s.out.cur, t.out.cur, f, g)
            &&& same_rest(s, t)
            &&& known(t.out.cur, v)
            &&& v.ty == ty
            &&& value(m, g, v) == result(m, f, inst)
            &&& g.mem == (if inst is Alloca {
                f.mem.push(Word::Unknown)
            } else {
                f.mem
            })
        }),
{
    reveal(emit_value);
    let g = lemma_emit(m, s, inst, f);
    reveal(kept);
    reveal(extended);
    let _ = value(m, g, ValView { op: next_reg(s), ty });
    g
}

/// Nothing but the code of the function under construction differs, and there only the block that
/// is written to, which is the same one.
pub open spec fn same_rest(s: State, t: State) -> bool {
    &&& t.env == s.env
    &&& t.fun == s.fun
    &&& t.out.decls == s.out.decls
    &&& t.out.struct_bodies == s.out.struct_bodies
    &&& t.out.bodies == s.out.bodies
    &&& t.out.cur.at == s.out.cur.at
    &&& t.out.cur.name == s.out.cur.name
    &&& t.out.cur.blocks.len() == s.out.cur.blocks.len()
    &&& forall|x: int|
        0 <= x < s.out.cur.blocks.len() && x != s.out.cur.at ==> #[trigger] t.out.cur.blocks[x]
            == s.out.cur.blocks[x]
}

/// Running over room on the stack for a value.
pub proof fn lemma_spill(m: Machine, s: State, ty: LTyView, v: ValView, f: Frame) -> (g: Frame)
    requires
        writable(s.out.cur),
        known(s.out.cur, v),
        countable(spill(s, ty, v).1.out.cur),
    ensures
        ({
            let (p, t) = spill(s, ty, v);
            &&& goes(m, s.out.cur, t.out.cur, f, g)
            &&& same_rest(s, t)
            &&& known(t.out.cur, p)
            &&& p.ty == LTyView::Ptr
            &&& value(m, g, p) == Word::Addr(f.mem.len(), Seq::empty())
            &&& g.mem == f.mem.push(value(m, f, v))
        }),
{
    reveal(spill);
    reveal(alloca);
    reveal(store);
    reveal(emit_value);
    let (p, s1) = alloca(s, ty);
    let inst = InstView::Store(v, p);
    let t = emit(s1, inst);
    lemma_emitted(s, InstView::Alloca(ty));
    lemma_emitted(s1, inst);
    lemma_countable(s1.out.cur, t.out.cur);
    let h = lemma_plain(m, s, InstView::Alloca(ty), LTyView::Ptr, f);
    let g = lemma_emit(m, s1, inst, h);
    lemma_value(m, s.out.cur, f, h, v);
    let cell = f.mem.len();
    assert(h.mem.len() == cell + 1);
    assert(g.mem == h.mem.update(cell as int, value(m, f, v)));
    assert(g.mem =~= f.mem.push(value(m, f, v)));
    lemma_extended(s.out.cur, s1.out.cur, t.out.cur);
    assert(kept(s.out.cur, f, g)) by {
        reveal(kept);
        assert forall|b: nat, i: nat| has_inst(s.out.cur.blocks, b, i) implies #[trigger] reg(
            g,
            b,
            i,
        ) == reg(f, b, i) by {
            lemma_inst_stays(s.out.cur, s1.out.cur, b, i);
            assert(reg(g, b, i) == reg(h, b, i));
            assert(reg(h, b, i) == reg(f, b, i));
        }
    }
    reveal(runs);
    lemma_leads_lift(
        m,
        s1.out.cur,
        t.out.cur,
        Moment { spot: end_of(s.out.cur), frame: f },
        Moment { spot: end_of(s1.out.cur), frame: h },
    );
    lemma_leads_trans(
        m,
        t.out.cur.blocks,
        Moment { spot: end_of(s.out.cur), frame: f },
        Moment { spot: end_of(s1.out.cur), frame: h },
        Moment { spot: end_of(t.out.cur), frame: g },
    );
    lemma_known(s1.out.cur, t.out.cur, p);
    match p.op {
        OperandView::Reg(b, i) => {
            assert(reg(g, b as nat, i as nat) == reg(h, b as nat, i as nat));
        },
        _ => {},
    }
    reveal(extended);
    g
}

/// Whether a call leaves the cells alone that there are.
pub open spec fn spares(before: Seq<Word>, behind: Seq<Word>) -> bool {
    &&& before.len() <= behind.len()
    &&& forall|c: int| 0 <= c < before.len() ==> #[trigger] behind[c] == before[c]
}

/// Running over a call that leaves the cells alone.
pub proof fn lemma_call(
    m: Machine,
    s: State,
    name: Seq<char>,
    args: Seq<ValView>,
    f: Frame,
) -> (g: Frame)
    requires
        writable(s.out.cur),
        countable(call(s, name, args).1.out.cur),
        spares(f.mem, (m.calls)(name, values(m, f, args), f.mem).1),
    ensures
        ({
            let (v, t) = call(s, name, args);
            let (w, mem) = (m.calls)(name, values(m, f, args), f.mem);
            &&& goes(m, s.out.cur, t.out.cur, f, g)
            &&& same_rest(s, t)
            &&& known(t.out.cur, v)
            &&& s.out.decls.contains_key(name) && s.out.decls[name].ret is Some ==> value(m, g, v)
                == w && v.ty == s.out.decls[name].ret->Some_0
            &&& g.mem == mem
        }),
{
    reveal(call);
    let inst = InstView::Call(name, args);
    let g = lemma_emit(m, s, inst, f);
    reveal(kept);
    reveal(extended);
    reveal(int_const);
    if s.out.decls.contains_key(name) {
        match s.out.decls[name].ret {
            Some(ty) => {
                let _ = value(m, g, ValView { op: next_reg(s), ty });
            },
            None => {},
        }
    }
    g
}

/// A terminator leads where it says.
pub proof fn lemma_ended(m: Machine, s: State, inst: InstView, f: Frame)
    requires
        writable(s.out.cur),
        ends_block(inst),
    ensures
        leads(
            m,
            emit(s, inst).out.cur.blocks,
            Moment { spot: end_of(s.out.cur), frame: f },
            Moment {
                spot: next_spot(
                    m,
                    f,
                    inst,
                    s.out.cur.at as nat,
                    s.out.cur.blocks[s.out.cur.at as int].insts.len(),
                ),
                frame: f,
            },
        ),
{
    lemma_emitted(s, inst);
    lemma_leads_step(
        m,
        emit(s, inst).out.cur.blocks,
        Moment { spot: end_of(s.out.cur), frame: f },
    );
}

/// A new block is empty, and the code there was is the same.
pub proof fn lemma_add_block(s: State, label: Seq<char>)
    ensures
        ({
            let (b, t) = add_block(s, label);
            let n = s.out.cur.blocks.len();
            &&& extended(s.out.cur, t.out.cur)
            &&& t.out.cur.at == s.out.cur.at
            &&& t.out.cur.name == s.out.cur.name
            &&& t.env == s.env
            &&& t.fun == s.fun
            &&& t.out.decls == s.out.decls
            &&& t.out.struct_bodies == s.out.struct_bodies
            &&& t.out.bodies == s.out.bodies
            &&& n <= usize::MAX ==> b == n
            &&& t.out.cur.blocks.len() == n + 1
            &&& t.out.cur.blocks[n as int].insts.len() == 0
            &&& forall|x: int| 0 <= x < n ==> #[trigger] t.out.cur.blocks[x] == s.out.cur.blocks[x]
        }),
{
    reveal(add_block);
    reveal(extended);
}

/// To write to another block changes no code.
pub proof fn lemma_go_to(s: State, b: usize)
    ensures
        ({
            let t = go_to(s, b);
            &&& extended(s.out.cur, t.out.cur)
            &&& t.out.cur.blocks == s.out.cur.blocks
            &&& t.out.cur.at == b
            &&& t.out.cur.name == s.out.cur.name
            &&& t.env == s.env
            &&& t.fun == s.fun
            &&& t.out.decls == s.out.decls
            &&& t.out.struct_bodies == s.out.struct_bodies
            &&& t.out.bodies == s.out.bodies
        }),
{
    reveal(go_to);
    reveal(extended);
}

/// Where an instruction was built, running goes on as it says.
pub proof fn lemma_at_inst(m: Machine, cur: CurView, b: nat, i: nat, f: Frame)
    requires
        has_inst(cur.blocks, b, i),
        ends_block(cur.blocks[b as int].insts[i as int]),
    ensures
        leads(
            m,
            cur.blocks,
            Moment { spot: Spot::At(b, i), frame: f },
            Moment {
                spot: next_spot(m, f, cur.blocks[b as int].insts[i as int], b, i),
                frame: f,
            },
        ),
{
    lemma_leads_step(m, cur.blocks, Moment { spot: Spot::At(b, i), frame: f });
}

/// Building an instruction takes no code away.
pub proof fn lemma_emit_any(s: State, inst: InstView)
    ensures
        extended(s.out.cur, emit(s, inst).out.cur),
        same_rest(s, emit(s, inst)),
{
    reveal(extended);
    if writable(s.out.cur) {
        lemma_emitted(s, inst);
    } else {
        reveal(emit);
        crate::growth::lemma_extended_refl(s.out.cur);
    }
}

/// Running over a value that is written to memory.
pub proof fn lemma_store(m: Machine, s: State, v: ValView, p: ValView, f: Frame) -> (g: Frame)
    requires
        writable(s.out.cur),
        countable(store(s, v, p).out.cur),
    ensures
        runs(m, s.out.cur, store(s, v, p).out.cur, f, g),
        extended(s.out.cur, store(s, v, p).out.cur),
        writable(store(s, v, p).out.cur),
        same_rest(s, store(s, v, p)),
        g.args == f.args,
        g.mem == crate::machine::written(f.mem, value(m, f, p), value(m, f, v)),
        forall|b: nat, i: nat|
            has_inst(s.out.cur.blocks, b, i) ==> #[trigger] reg(g, b, i) == reg(f, b, i),
{
    reveal(store);
    lemma_emit(m, s, InstView::Store(v, p), f)
}

/// An operand that was there is the same word behind a store.
pub proof fn lemma_value_kept(m: Machine, cur: CurView, f: Frame, g: Frame, v: ValView)
    requires
        known(cur, v),
        g.args == f.args,
        forall|b: nat, i: nat|
            has_inst(cur.blocks, b, i) ==> #[trigger] reg(g, b, i) == reg(f, b, i),
    ensures
        value(m, g, v) == value(m, f, v),
{
    match v.op {
        OperandView::Reg(b, i) => {
            assert(reg(g, b as nat, i as nat) == reg(f, b as nat, i as nat));
        },
        _ => {},
    }
}

} // verus!
