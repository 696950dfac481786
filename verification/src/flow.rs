//! Where control goes: the blocks of loops and branches, and how running goes through them.
use crate::ast::BinOp;
use crate::bodies::declare_bindings;
use crate::builder::{
    add_block, alloca, emit, emit_value, ends_block, go_to, jump, load, store, terminated,
};
use crate::exprs::{
    compile_block_get_value, compile_branch, compile_else_chain_store, compile_last_else, guarded,
    next_call_spec, result_of,
};
use crate::growth::{blocks_follow, blocks_ready, confined, confined_to, extended};
use crate::ir::{CurView, InstView, LTyView, ValView};
use crate::machine::{Frame, Machine, Moment, Spot, block_start, has_inst, leads, next_spot, value};
use crate::model::{BlockView, ExprView, MatchArmView, PatternView, TypeView};
use crate::nesting::{Nested, nested_expr};
use crate::operators::{branch_if, unreachable_here};
use crate::patterns::{bind_all, bind_all_each, gen_pattern_check};
use crate::places::{low_bit, open_loop, to_bit};
use crate::running::{
    end_of, lemma_add_block, lemma_at_inst, lemma_emit_any, lemma_emitted, lemma_extended,
    lemma_go_to, lemma_inst_stays, lemma_leads_trans, same_rest, writable,
};
use crate::scopes::{enter_scope, exit_scope};
use crate::state::{ErrorView, State};
use crate::token::Span;
use vstd::prelude::*;

verus! {

/// The instruction at a place, if there is one.
pub open spec fn inst_in(cur: CurView, spot: Spot) -> Option<InstView> {
    match spot {
        Spot::At(b, i) => if has_inst(cur.blocks, b, i) {
            Some(cur.blocks[b as int].insts[i as int])
        } else {
            None
        },
        _ => None,
    }
}

/// Code was added, and only where code was written or where a new block is.
pub open spec fn adds_code(a: CurView, b: CurView) -> bool {
    extended(a, b) && confined(a, b)
}

/// The parts of a loop with a test: the blocks of the test, of the body and behind the loop; the
/// states at the start and the end of the test, the value that is tested, and the states at the
/// start and the end of the body.
pub struct LoopParts {
    pub test: usize,
    pub body: usize,
    pub after: usize,
    pub test_start: State,
    pub test_end: State,
    pub tested: ValView,
    pub body_start: State,
    pub body_end: State,
}

/// A loop with a test is built so that its code goes round: the code before it leads to the test;
/// where the test holds, the body is run, else what is behind the loop; the end of the body leads
/// back to the test. A `continue` in the body goes to the test, a `break` behind the loop.
pub open spec fn goes_round(s: State, t: State, p: LoopParts) -> bool {
    let cur = t.out.cur;
    let inner = p.body_start.fun.loops.last();
    &&& inst_in(cur, end_of(s.out.cur)) == Some(InstView::Br(p.test))
    &&& end_of(p.test_start.out.cur) == block_start(p.test)
    &&& writable(p.test_start.out.cur)
    &&& extended(s.out.cur, p.test_start.out.cur)
    &&& extended(p.test_end.out.cur, cur)
    &&& inst_in(cur, end_of(p.test_end.out.cur)) == Some(
        InstView::CondBr(p.tested, p.body, p.after),
    )
    &&& end_of(p.body_start.out.cur) == block_start(p.body)
    &&& extended(p.body_end.out.cur, cur)
    &&& !terminated(p.body_end) ==> inst_in(cur, end_of(p.body_end.out.cur)) == Some(
        InstView::Br(p.test),
    )
    &&& p.body_start.fun.loops.len() > 0
    &&& inner.continue_bb == p.test
    &&& inner.break_bb == p.after
    &&& end_of(cur) == block_start(p.after)
    &&& writable(cur)
}

/// The code of a block, with what its variables need at its end, was built between two states.
pub open spec fn block_built(
    a: State,
    b: State,
    k: Nested,
    body: BlockView,
    bindings: Seq<(Seq<char>, ValView, TypeView)>,
) -> bool {
    let (v, c) = compile_block_get_value(enter_scope(bind_all(a, bindings)), k, body);
    v is Ok && exit_scope(c, k.fuel) == (Ok::<(), ErrorView>(()), b)
}

/// The body of a loop is built: at its end is a jump back, unless that is never reached.
pub open spec fn body_built(
    s: State,
    t: State,
    k: Nested,
    body: BlockView,
    bindings: Seq<(Seq<char>, ValView, TypeView)>,
    back: usize,
) -> bool {
    exists|b: State| #[trigger]
        block_built(s, b, k, body, bindings) && adds_code(s.out.cur, b.out.cur) && extended(
            b.out.cur,
            t.out.cur,
        ) && confined(b.out.cur, t.out.cur) && (writable(b.out.cur) && !terminated(b) ==> inst_in(
            t.out.cur,
            end_of(b.out.cur),
        ) == Some(InstView::Br(back)))
}

/// A `while` loop is built: its test is the condition, its body the block.
pub open spec fn while_built(
    s: State,
    t: State,
    k: Nested,
    cond: ExprView,
    body: BlockView,
) -> bool {
    exists|p: LoopParts| #[trigger]
        goes_round(s, t, p) && nested_expr(p.test_start, k, cond) == (
            Ok::<ValView, ErrorView>(p.tested),
            p.test_end,
        ) && block_built(p.body_start, p.body_end, k, body, Seq::empty())
}

/// The pattern that an element of a `for` loop is matched with.
pub open spec fn some_of(pattern: PatternView) -> PatternView {
    PatternView::EnumVariant { enum_name: None, variant: "Some"@, payload: Some(Box::new(pattern)) }
}

/// A `for` loop is built: its test asks the iterator for an element and matches what it gives with
/// `Some`, its body is the block, which sees the variables of the pattern.
pub open spec fn for_built(
    s: State,
    t: State,
    k: Nested,
    pattern: PatternView,
    body: BlockView,
    option_ty: TypeView,
) -> bool {
    exists|p: LoopParts, v: ValView, asked: State, bindings: Seq<(Seq<char>, ValView, TypeView)>|
        #![trigger goes_round(s, t, p), gen_pattern_check(
            asked,
            some_of(pattern),
            v,
            option_ty,
        ), block_built(
            p.body_start,
            p.body_end,
            k,
            body,
            bindings,
        )]
        goes_round(s, t, p) && nested_expr(p.test_start, k, next_call_spec()) == (
            Ok::<ValView, ErrorView>(v),
            asked,
        ) && gen_pattern_check(asked, some_of(pattern), v, option_ty) == (
            Ok::<(ValView, Seq<(Seq<char>, ValView, TypeView)>), ErrorView>((p.tested, bindings)),
            p.test_end,
        ) && block_built(p.body_start, p.body_end, k, body, bindings)
}

pub proof fn lemma_confined(a: CurView, b: CurView, c: CurView)
    requires
        confined(a, b),
        confined(b, c),
    ensures
        confined(a, c),
{
    assert(crate::growth::from_cur(a));
    crate::growth::lemma_confined_len(a, b, a.blocks.len());
    crate::growth::lemma_confined_trans(a, b, c, a.blocks.len(), b.blocks.len());
}

/// Code that is added behind added code.
pub proof fn lemma_adds_both(a: CurView, b: CurView, c: CurView)
    requires
        adds_code(a, b),
        adds_code(b, c),
    ensures
        adds_code(a, c),
{
    lemma_extended(a, b, c);
    lemma_confined(a, b, c);
}

/// Where there was a block to write to, there is one.
pub proof fn lemma_still_in_block(a: CurView, b: CurView)
    requires
        writable(a),
        confined(a, b),
    ensures
        writable(b),
{
    reveal(confined_to);
}

/// An instruction stays at its place.
pub proof fn lemma_inst_in(a: CurView, b: CurView, spot: Spot)
    requires
        extended(a, b),
        inst_in(a, spot) is Some,
    ensures
        inst_in(b, spot) == inst_in(a, spot),
{
    match spot {
        Spot::At(x, i) => {
            lemma_inst_stays(a, b, x, i);
        },
        _ => {},
    }
}

/// An instruction that was just built is at the place that was the end.
pub proof fn lemma_just_built(s: State, inst: InstView)
    requires
        writable(s.out.cur),
    ensures
        inst_in(emit(s, inst).out.cur, end_of(s.out.cur)) == Some(inst),
        adds_code(s.out.cur, emit(s, inst).out.cur),
        same_rest(s, emit(s, inst)),
        writable(emit(s, inst).out.cur),
{
    lemma_emitted(s, inst);
    lemma_emit_any(s, inst);
    reveal(confined_to);
}

/// What a block held that nothing was written to.
pub proof fn lemma_untouched(a: CurView, b: CurView, x: int)
    requires
        confined(a, b),
        0 <= x < a.blocks.len(),
        x != a.at,
    ensures
        b.blocks[x] == a.blocks[x],
        a.blocks.len() <= b.blocks.len(),
        b.at == a.at || a.blocks.len() <= b.at < b.blocks.len(),
{
    reveal(confined_to);
}

/// A jump at the end of a body.
pub proof fn lemma_body_built(
    s: State,
    b: State,
    c: State,
    t: State,
    k: Nested,
    body: BlockView,
    bindings: Seq<(Seq<char>, ValView, TypeView)>,
    back: usize,
)
    requires
        block_built(s, b, k, body, bindings),
        adds_code(s.out.cur, b.out.cur),
        c.out == b.out,
        t == jump(c, back),
    ensures
        body_built(s, t, k, body, bindings, back),
{
    reveal(jump);
    reveal(terminated);
    crate::growth::lemma_extended_refl(b.out.cur);
    crate::growth::lemma_confined_refl(b.out.cur, b.out.cur.blocks.len());
    if !terminated(c) {
        lemma_emit_any(c, InstView::Br(back));
        assert(confined(c.out.cur, t.out.cur)) by {
            reveal(confined_to);
        }
        if writable(c.out.cur) {
            lemma_just_built(c, InstView::Br(back));
        }
    }
}

/// How a loop with a test is built from its parts.
pub proof fn lemma_goes_round(
    s: State,
    l1: Seq<char>,
    l2: Seq<char>,
    l3: Seq<char>,
    p: LoopParts,
    d: State,
    t: State,
    k: Nested,
    body: BlockView,
    bindings: Seq<(Seq<char>, ValView, TypeView)>,
    result: Option<(ValView, TypeView)>,
) -> (q: LoopParts)
    requires
        writable(s.out.cur),
        ({
            let (x, s1) = add_block(s, l1);
            let (y, s2) = add_block(s1, l2);
            let (z, s3) = add_block(s2, l3);
            &&& p.test == x == s.out.cur.blocks.len()
            &&& p.body == y == s.out.cur.blocks.len() + 1
            &&& p.after == z == s.out.cur.blocks.len() + 2
            &&& p.test_start == go_to(emit_value(s3, InstView::Br(x), LTyView::Ptr).1, x)
        }),
        adds_code(p.test_start.out.cur, p.test_end.out.cur),
        p.body_start == open_loop(
            go_to(branch_if(p.test_end, p.tested, p.body, p.after), p.body),
            p.test,
            p.after,
            result,
        ),
        body_built(p.body_start, d, k, body, bindings, p.test),
        t == go_to(d, p.after),
    ensures
        goes_round(s, t, q),
        q == (LoopParts { body_end: q.body_end, ..p }),
        block_built(p.body_start, q.body_end, k, body, bindings),
{
    let (x, s1) = add_block(s, l1);
    let (y, s2) = add_block(s1, l2);
    let (z, s3) = add_block(s2, l3);
    lemma_add_block(s, l1);
    lemma_add_block(s1, l2);
    lemma_add_block(s2, l3);
    lemma_extended(s.out.cur, s1.out.cur, s2.out.cur);
    lemma_extended(s.out.cur, s2.out.cur, s3.out.cur);
    let at = s.out.cur.at as int;
    assert(s3.out.cur.blocks[at] == s2.out.cur.blocks[at]);
    assert(s2.out.cur.blocks[at] == s1.out.cur.blocks[at]);
    assert(s1.out.cur.blocks[at] == s.out.cur.blocks[at]);
    assert(end_of(s3.out.cur) == end_of(s.out.cur));
    reveal(emit_value);
    let enter = InstView::Br(x);
    let s4 = emit(s3, enter);
    lemma_emitted(s3, enter);
    lemma_just_built(s3, enter);
    lemma_extended(s.out.cur, s3.out.cur, s4.out.cur);
    let c0 = p.test_start;
    lemma_go_to(s4, x);
    lemma_extended(s.out.cur, s4.out.cur, c0.out.cur);
    assert(s1.out.cur.blocks[x as int].insts.len() == 0);
    assert(s2.out.cur.blocks[x as int] == s1.out.cur.blocks[x as int]);
    assert(s3.out.cur.blocks[x as int] == s2.out.cur.blocks[x as int]);
    assert(s4.out.cur.blocks[x as int] == s3.out.cur.blocks[x as int]);
    assert(s2.out.cur.blocks[y as int].insts.len() == 0);
    assert(s3.out.cur.blocks[y as int] == s2.out.cur.blocks[y as int]);
    assert(s4.out.cur.blocks[y as int] == s3.out.cur.blocks[y as int]);
    assert(s4.out.cur.blocks[z as int] == s3.out.cur.blocks[z as int]);
    let c1 = p.test_end;
    lemma_untouched(c0.out.cur, c1.out.cur, y as int);
    lemma_untouched(c0.out.cur, c1.out.cur, z as int);
    assert(writable(c1.out.cur));
    reveal(branch_if);
    let fork = InstView::CondBr(p.tested, y, z);
    let s5 = emit(c1, fork);
    lemma_emitted(c1, fork);
    lemma_just_built(c1, fork);
    let s6 = go_to(s5, y);
    lemma_go_to(s5, y);
    reveal(open_loop);
    let b0 = p.body_start;
    assert(b0.out == s6.out);
    assert(b0.out.cur.blocks[y as int].insts.len() == 0);
    assert(b0.out.cur.blocks[z as int].insts.len() == 0);
    let b1 = choose|b: State| #[trigger]
        block_built(b0, b, k, body, bindings) && adds_code(b0.out.cur, b.out.cur) && extended(
            b.out.cur,
            d.out.cur,
        ) && confined(b.out.cur, d.out.cur) && (writable(b.out.cur) && !terminated(b) ==> inst_in(
            d.out.cur,
            end_of(b.out.cur),
        ) == Some(InstView::Br(x)));
    lemma_untouched(b0.out.cur, b1.out.cur, z as int);
    assert(writable(b1.out.cur));
    lemma_untouched(b1.out.cur, d.out.cur, z as int);
    lemma_go_to(d, z);
    let cur = t.out.cur;
    lemma_extended(b1.out.cur, d.out.cur, cur);
    lemma_extended(b0.out.cur, b1.out.cur, cur);
    assert(extended(s5.out.cur, b0.out.cur));
    lemma_extended(s5.out.cur, b0.out.cur, cur);
    lemma_extended(c1.out.cur, s5.out.cur, cur);
    lemma_extended(c0.out.cur, c1.out.cur, cur);
    lemma_extended(s4.out.cur, c0.out.cur, cur);
    lemma_inst_in(s4.out.cur, cur, end_of(s3.out.cur));
    lemma_inst_in(s5.out.cur, cur, end_of(c1.out.cur));
    if !terminated(b1) {
        lemma_inst_in(d.out.cur, cur, end_of(b1.out.cur));
    }
    LoopParts { body_end: b1, ..p }
}

/// The body of a loop runs as often as its test holds, and then code goes on behind the loop: where
/// the test, run on one frame after the other, holds `n` times, and each time the body leads to the
/// next frame, running comes from in front of the loop to what is behind it.
pub proof fn law_loop_runs_while_test_holds(
    m: Machine,
    s: State,
    t: State,
    p: LoopParts,
    before: Seq<Frame>,
    tested: Seq<Frame>,
    n: nat,
)
    requires
        goes_round(s, t, p),
        before.len() == n + 1,
        tested.len() == n + 1,
        forall|i: int|
            0 <= i <= n ==> leads(
                m,
                t.out.cur.blocks,
                Moment { spot: block_start(p.test), frame: #[trigger] before[i] },
                Moment { spot: end_of(p.test_end.out.cur), frame: tested[i] },
            ),
        forall|i: int|
            0 <= i <= n ==> value(m, #[trigger] tested[i], p.tested) == crate::machine::bit(i < n),
        n > 0 ==> !terminated(p.body_end),
        forall|i: int|
            0 <= i < n ==> leads(
                m,
                t.out.cur.blocks,
                Moment { spot: block_start(p.body), frame: #[trigger] tested[i] },
                Moment { spot: end_of(p.body_end.out.cur), frame: before[i + 1] },
            ),
    ensures
        leads(
            m,
            t.out.cur.blocks,
            Moment { spot: end_of(s.out.cur), frame: before[0] },
            Moment { spot: end_of(t.out.cur), frame: tested[n as int] },
        ),
{
    let blocks = t.out.cur.blocks;
    let start = Moment { spot: end_of(s.out.cur), frame: before[0] };
    let first = Moment { spot: block_start(p.test), frame: before[0] };
    lemma_jumps(m, t.out.cur, end_of(s.out.cur), before[0]);
    lemma_rounds(m, s, t, p, before, tested, n, 0);
    lemma_leads_trans(
        m,
        blocks,
        start,
        first,
        Moment { spot: end_of(t.out.cur), frame: tested[n as int] },
    );
}

/// A terminator leads where it says.
pub proof fn lemma_jumps(m: Machine, cur: CurView, spot: Spot, f: Frame)
    requires
        inst_in(cur, spot) is Some,
        ends_block(inst_in(cur, spot)->Some_0),
    ensures
        ({
            let inst = inst_in(cur, spot)->Some_0;
            match spot {
                Spot::At(b, i) => leads(
                    m,
                    cur.blocks,
                    Moment { spot, frame: f },
                    Moment { spot: next_spot(m, f, inst, b, i), frame: f },
                ),
                _ => true,
            }
        }),
{
    match spot {
        Spot::At(b, i) => {
            lemma_at_inst(m, cur, b, i, f);
        },
        _ => {},
    }
}

proof fn lemma_rounds(
    m: Machine,
    s: State,
    t: State,
    p: LoopParts,
    before: Seq<Frame>,
    tested: Seq<Frame>,
    n: nat,
    i: nat,
)
    requires
        goes_round(s, t, p),
        i <= n,
        before.len() == n + 1,
        tested.len() == n + 1,
        forall|i: int|
            0 <= i <= n ==> leads(
                m,
                t.out.cur.blocks,
                Moment { spot: block_start(p.test), frame: #[trigger] before[i] },
                Moment { spot: end_of(p.test_end.out.cur), frame: tested[i] },
            ),
        forall|i: int|
            0 <= i <= n ==> value(m, #[trigger] tested[i], p.tested) == crate::machine::bit(i < n),
        n > 0 ==> !terminated(p.body_end),
        forall|i: int|
            0 <= i < n ==> leads(
                m,
                t.out.cur.blocks,
                Moment { spot: block_start(p.body), frame: #[trigger] tested[i] },
                Moment { spot: end_of(p.body_end.out.cur), frame: before[i + 1] },
            ),
    ensures
        leads(
            m,
            t.out.cur.blocks,
            Moment { spot: block_start(p.test), frame: before[i as int] },
            Moment { spot: end_of(t.out.cur), frame: tested[n as int] },
        ),
    decreases n - i,
{
    let cur = t.out.cur;
    let f = before[i as int];
    let g = tested[i as int];
    let top = Moment { spot: block_start(p.test), frame: f };
    let fork = Moment { spot: end_of(p.test_end.out.cur), frame: g };
    let last = Moment { spot: end_of(cur), frame: tested[n as int] };
    lemma_jumps(m, cur, end_of(p.test_end.out.cur), g);
    if i == n {
        lemma_leads_trans(m, cur.blocks, top, fork, last);
    } else {
        let inside = Moment { spot: block_start(p.body), frame: g };
        lemma_leads_trans(m, cur.blocks, top, fork, inside);
        let end = Moment { spot: end_of(p.body_end.out.cur), frame: before[i as int + 1] };
        lemma_leads_trans(m, cur.blocks, top, inside, end);
        lemma_jumps(m, cur, end_of(p.body_end.out.cur), before[i as int + 1]);
        let again = Moment { spot: block_start(p.test), frame: before[i as int + 1] };
        lemma_leads_trans(m, cur.blocks, top, end, again);
        lemma_rounds(m, s, t, p, before, tested, n, i + 1);
        lemma_leads_trans(m, cur.blocks, top, again, last);
    }
}

/// The parts of a branch in two: the state in front of it, the value that is tested, the blocks of
/// both ways and of where they meet, the states at the start and the end of each way, and the state
/// where they meet.
pub struct ForkParts {
    pub before: State,
    pub tested: ValView,
    pub yes: usize,
    pub no: usize,
    pub meet: usize,
    pub yes_start: State,
    pub yes_end: State,
    pub no_start: State,
    pub no_end: State,
    pub met: State,
}

/// A branch in two is built: where the test holds, the one way is run, else the other one, and both
/// lead to where they meet.
pub open spec fn forks(p: ForkParts) -> bool {
    let cur = p.met.out.cur;
    &&& inst_in(cur, end_of(p.before.out.cur)) == Some(InstView::CondBr(p.tested, p.yes, p.no))
    &&& extended(p.before.out.cur, cur)
    &&& end_of(p.yes_start.out.cur) == block_start(p.yes)
    &&& extended(p.yes_end.out.cur, cur)
    &&& !terminated(p.yes_end) ==> inst_in(cur, end_of(p.yes_end.out.cur)) == Some(
        InstView::Br(p.meet),
    )
    &&& end_of(p.no_start.out.cur) == block_start(p.no)
    &&& extended(p.no_end.out.cur, cur)
    &&& !terminated(p.no_end) ==> inst_in(cur, end_of(p.no_end.out.cur)) == Some(
        InstView::Br(p.meet),
    )
    &&& end_of(cur) == block_start(p.meet)
    &&& writable(cur)
}

/// An `if` is built: where the condition holds, the first block is run, else the other ones; what
/// was stored by that is the value.
pub open spec fn if_built(
    s: State,
    t: State,
    v: ValView,
    k: Nested,
    cond: ExprView,
    then_block: BlockView,
    else_ifs: Seq<(ExprView, BlockView)>,
    else_block: Option<BlockView>,
) -> bool {
    exists|
        p: ForkParts,
        tested: State,
        chained: State,
        slot: ValView,
        ty: TypeView,
        lty: LTyView,
    |
        #![trigger forks(p), alloca(tested, lty), compile_last_else(
            chained,
            k,
            else_block,
            slot,
            ty,
            lty,
        )]
        forks(p) && nested_expr(s, k, cond) == (Ok::<ValView, ErrorView>(p.tested), tested)
            && alloca(tested, lty) == (slot, p.before) && compile_branch(
            p.yes_start,
            k,
            then_block,
            Seq::empty(),
            slot,
            ty,
            lty,
        ) == (Ok::<(), ErrorView>(()), p.yes_end) && compile_else_chain_store(
            p.no_start,
            k,
            else_ifs,
            p.meet,
            slot,
            ty,
            lty,
        ) == (Ok::<(), ErrorView>(()), chained) && compile_last_else(
            chained,
            k,
            else_block,
            slot,
            ty,
            lty,
        ) == (Ok::<(), ErrorView>(()), p.no_end) && (v, t) == load(p.met, lty, slot)
}

/// An `if let` is built: where the value matches the pattern, the first block is run, which sees
/// the variables of the pattern, else the other one, if there is one.
pub open spec fn if_let_built(
    s: State,
    t: State,
    v: ValView,
    k: Nested,
    pattern: PatternView,
    scrutinee: ExprView,
    then_block: BlockView,
    else_block: Option<BlockView>,
) -> bool {
    exists|
        p: ForkParts,
        looked: State,
        x: ValView,
        slot: ValView,
        roomy: State,
        bindings: Seq<(Seq<char>, ValView, TypeView)>,
        scrutinee_ty: TypeView,
        ty: TypeView,
        lty: LTyView,
    |
        #![trigger forks(p), alloca(looked, lty), gen_pattern_check(
            roomy,
            pattern,
            x,
            scrutinee_ty,
        ), compile_branch(
            p.yes_start,
            k,
            then_block,
            bindings,
            slot,
            ty,
            lty,
        )]
        forks(p) && nested_expr(s, k, scrutinee) == (Ok::<ValView, ErrorView>(x), looked) && alloca(
            looked,
            lty,
        ) == (slot, roomy) && gen_pattern_check(roomy, pattern, x, scrutinee_ty) == (
            Ok::<(ValView, Seq<(Seq<char>, ValView, TypeView)>), ErrorView>((p.tested, bindings)),
            p.before,
        ) && compile_branch(p.yes_start, k, then_block, bindings, slot, ty, lty) == (
            Ok::<(), ErrorView>(()),
            p.yes_end,
        ) && match else_block {
            Some(b) => compile_branch(p.no_start, k, b, Seq::empty(), slot, ty, lty) == (
                Ok::<(), ErrorView>(()),
                p.no_end,
            ),
            None => p.no_end == p.no_start,
        } && result_of(p.met, ty, lty, slot) == (Ok::<ValView, ErrorView>(v), t)
}

/// How a branch in two is built from its parts.
pub proof fn lemma_forks(
    s: State,
    l1: Seq<char>,
    l2: Seq<char>,
    l3: Seq<char>,
    p: ForkParts,
    yes_left: State,
    no_left: State,
)
    requires
        writable(s.out.cur),
        p.before == s,
        ({
            let (x, s1) = add_block(s, l1);
            let (y, s2) = add_block(s1, l2);
            let (z, s3) = add_block(s2, l3);
            &&& p.yes == x == s.out.cur.blocks.len()
            &&& p.no == y == s.out.cur.blocks.len() + 1
            &&& p.meet == z == s.out.cur.blocks.len() + 2
            &&& p.yes_start == go_to(branch_if(s3, p.tested, x, y), x)
        }),
        adds_code(p.yes_start.out.cur, p.yes_end.out.cur),
        yes_left == jump(p.yes_end, p.meet),
        p.no_start == go_to(yes_left, p.no),
        adds_code(p.no_start.out.cur, p.no_end.out.cur),
        no_left == jump(p.no_end, p.meet),
        p.met == go_to(no_left, p.meet),
    ensures
        forks(p),
{
    let (x, s1) = add_block(s, l1);
    let (y, s2) = add_block(s1, l2);
    let (z, s3) = add_block(s2, l3);
    lemma_add_block(s, l1);
    lemma_add_block(s1, l2);
    lemma_add_block(s2, l3);
    lemma_extended(s.out.cur, s1.out.cur, s2.out.cur);
    lemma_extended(s.out.cur, s2.out.cur, s3.out.cur);
    let at = s.out.cur.at as int;
    assert(s3.out.cur.blocks[at] == s2.out.cur.blocks[at]);
    assert(s2.out.cur.blocks[at] == s1.out.cur.blocks[at]);
    assert(s1.out.cur.blocks[at] == s.out.cur.blocks[at]);
    assert(end_of(s3.out.cur) == end_of(s.out.cur));
    reveal(branch_if);
    reveal(emit_value);
    let fork = InstView::CondBr(p.tested, x, y);
    let s4 = emit(s3, fork);
    lemma_emitted(s3, fork);
    lemma_just_built(s3, fork);
    lemma_extended(s.out.cur, s3.out.cur, s4.out.cur);
    let a0 = p.yes_start;
    lemma_go_to(s4, x);
    assert(s1.out.cur.blocks[x as int].insts.len() == 0);
    assert(s2.out.cur.blocks[x as int] == s1.out.cur.blocks[x as int]);
    assert(s3.out.cur.blocks[x as int] == s2.out.cur.blocks[x as int]);
    assert(s4.out.cur.blocks[x as int] == s3.out.cur.blocks[x as int]);
    assert(s2.out.cur.blocks[y as int].insts.len() == 0);
    assert(s3.out.cur.blocks[y as int] == s2.out.cur.blocks[y as int]);
    assert(s4.out.cur.blocks[y as int] == s3.out.cur.blocks[y as int]);
    assert(s4.out.cur.blocks[z as int] == s3.out.cur.blocks[z as int]);
    let a1 = p.yes_end;
    lemma_untouched(a0.out.cur, a1.out.cur, y as int);
    lemma_untouched(a0.out.cur, a1.out.cur, z as int);
    lemma_jumped(a1, p.meet);
    lemma_untouched(a1.out.cur, yes_left.out.cur, y as int);
    lemma_untouched(a1.out.cur, yes_left.out.cur, z as int);
    let b0 = p.no_start;
    lemma_go_to(yes_left, y);
    let b1 = p.no_end;
    lemma_untouched(b0.out.cur, b1.out.cur, z as int);
    lemma_jumped(b1, p.meet);
    lemma_untouched(b1.out.cur, no_left.out.cur, z as int);
    lemma_go_to(no_left, z);
    let cur = p.met.out.cur;
    lemma_extended(b1.out.cur, no_left.out.cur, cur);
    lemma_extended(b0.out.cur, b1.out.cur, cur);
    lemma_extended(yes_left.out.cur, b0.out.cur, cur);
    lemma_extended(a1.out.cur, yes_left.out.cur, cur);
    lemma_extended(a0.out.cur, a1.out.cur, cur);
    lemma_extended(s4.out.cur, a0.out.cur, cur);
    lemma_extended(s.out.cur, s4.out.cur, cur);
    lemma_inst_in(s4.out.cur, cur, end_of(s3.out.cur));
    if !terminated(a1) {
        lemma_inst_in(yes_left.out.cur, cur, end_of(a1.out.cur));
    }
    if !terminated(b1) {
        lemma_inst_in(no_left.out.cur, cur, end_of(b1.out.cur));
    }
}

/// A jump at the end of some code.
pub proof fn lemma_jumped(s: State, b: usize)
    requires
        writable(s.out.cur),
    ensures
        adds_code(s.out.cur, jump(s, b).out.cur),
        same_rest(s, jump(s, b)),
        !terminated(s) ==> inst_in(jump(s, b).out.cur, end_of(s.out.cur)) == Some(InstView::Br(b)),
{
    reveal(jump);
    crate::growth::lemma_extended_refl(s.out.cur);
    crate::growth::lemma_confined_refl(s.out.cur, s.out.cur.blocks.len());
    if !terminated(s) {
        lemma_just_built(s, InstView::Br(b));
    }
}

/// Of the two ways of a branch the one that the test tells is run, and then code goes on where they
/// meet.
pub proof fn law_branch_goes_by_its_test(m: Machine, p: ForkParts, holds: bool, f: Frame, g: Frame)
    requires
        forks(p),
        value(m, f, p.tested) == crate::machine::bit(holds),
        holds ==> !terminated(p.yes_end) && leads(
            m,
            p.met.out.cur.blocks,
            Moment { spot: block_start(p.yes), frame: f },
            Moment { spot: end_of(p.yes_end.out.cur), frame: g },
        ),
        !holds ==> !terminated(p.no_end) && leads(
            m,
            p.met.out.cur.blocks,
            Moment { spot: block_start(p.no), frame: f },
            Moment { spot: end_of(p.no_end.out.cur), frame: g },
        ),
    ensures
        leads(
            m,
            p.met.out.cur.blocks,
            Moment { spot: end_of(p.before.out.cur), frame: f },
            Moment { spot: end_of(p.met.out.cur), frame: g },
        ),
{
    let cur = p.met.out.cur;
    let from = Moment { spot: end_of(p.before.out.cur), frame: f };
    lemma_jumps(m, cur, end_of(p.before.out.cur), f);
    let (block, end) = if holds {
        (p.yes, p.yes_end)
    } else {
        (p.no, p.no_end)
    };
    let into = Moment { spot: block_start(block), frame: f };
    let done = Moment { spot: end_of(end.out.cur), frame: g };
    lemma_leads_trans(m, cur.blocks, from, into, done);
    lemma_jumps(m, cur, end_of(end.out.cur), g);
    lemma_leads_trans(m, cur.blocks, from, done, Moment { spot: end_of(cur), frame: g });
}

/// The parts of an arm of a `match`: the blocks of its test and of its body, the block that comes
/// next where it is not taken, the states at the start of the test, behind the pattern and at the
/// end of the test, what the pattern and the whole test give, the variables of the pattern, and the
/// states at the start and the end of the body.
pub struct ArmParts {
    pub test: usize,
    pub body: usize,
    pub next: usize,
    pub test_start: State,
    pub matched: State,
    pub test_end: State,
    pub pattern_holds: ValView,
    pub tested: ValView,
    pub bindings: Seq<(Seq<char>, ValView, TypeView)>,
    pub body_start: State,
    pub body_end: State,
}

/// What all arms of a `match` have in common.
pub struct MatchParts {
    pub value: ValView,
    pub ty: TypeView,
    pub place: Span,
    pub meet: usize,
    pub slot: ValView,
    pub result_ty: TypeView,
    pub lty: LTyView,
}

/// An arm of a `match` is built: where its pattern matches and its guard holds, its body is run,
/// which leads to where the arms meet, else the next arm is tried.
pub open spec fn arm_built(
    cur: CurView,
    k: Nested,
    arm: MatchArmView,
    a: ArmParts,
    c: MatchParts,
) -> bool {
    &&& end_of(a.test_start.out.cur) == block_start(a.test)
    &&& writable(a.test_start.out.cur)
    &&& gen_pattern_check(a.test_start, arm.pattern, c.value, c.ty) == (
        Ok::<(ValView, Seq<(Seq<char>, ValView, TypeView)>), ErrorView>(
            (a.pattern_holds, a.bindings),
        ),
        a.matched,
    )
    &&& guarded(a.matched, k, arm, a.pattern_holds, a.bindings, c.place) == (
        Ok::<ValView, ErrorView>(a.tested),
        a.test_end,
    )
    &&& extended(a.test_end.out.cur, cur)
    &&& inst_in(cur, end_of(a.test_end.out.cur)) == Some(
        InstView::CondBr(a.tested, a.body, a.next),
    )
    &&& end_of(a.body_start.out.cur) == block_start(a.body)
    &&& compile_branch(a.body_start, k, arm.body, a.bindings, c.slot, c.result_ty, c.lty) == (
        Ok::<(), ErrorView>(()),
        a.body_end,
    )
    &&& extended(a.body_end.out.cur, cur)
    &&& !terminated(a.body_end) ==> inst_in(cur, end_of(a.body_end.out.cur)) == Some(
        InstView::Br(c.meet),
    )
}

/// The first `n` arms of a `match` are built, one behind the other; behind the last one is where
/// they meet.
pub open spec fn arms_built(
    start: CurView,
    cur: CurView,
    k: Nested,
    arms: Seq<MatchArmView>,
    parts: Seq<ArmParts>,
    c: MatchParts,
    tests: Seq<usize>,
    bodies: Seq<usize>,
    n: int,
) -> bool {
    &&& parts.len() == n
    &&& n <= tests.len()
    &&& n <= bodies.len()
    &&& forall|i: int|
        0 <= i < n ==> #[trigger] arm_stands(start, cur, k, arms, parts, c, tests, bodies, i)
}

/// One arm of a `match` is built, in its blocks, and behind it is the next one.
pub open spec fn arm_stands(
    start: CurView,
    cur: CurView,
    k: Nested,
    arms: Seq<MatchArmView>,
    parts: Seq<ArmParts>,
    c: MatchParts,
    tests: Seq<usize>,
    bodies: Seq<usize>,
    i: int,
) -> bool {
    &&& arm_built(cur, k, arms[i], parts[i], c)
    &&& extended(start, parts[i].test_start.out.cur)
    &&& parts[i].test == tests[i]
    &&& parts[i].body == bodies[i]
    &&& parts[i].next == (if i + 1 < tests.len() {
        tests[i + 1]
    } else {
        c.meet
    })
}

/// The blocks from the arm `n` on are still empty.
pub open spec fn waiting(cur: CurView, tests: Seq<usize>, bodies: Seq<usize>, n: int) -> bool {
    &&& forall|i: int|
        n <= i < tests.len() ==> cur.blocks[#[trigger] tests[i] as int].insts.len() == 0
    &&& forall|i: int|
        n <= i < bodies.len() ==> cur.blocks[#[trigger] bodies[i] as int].insts.len() == 0
}

/// The blocks of the arms are there, and all are empty.
pub open spec fn arms_ready(cur: CurView, tests: Seq<usize>, bodies: Seq<usize>, n: nat) -> bool {
    blocks_ready(cur, tests, bodies) && tests.len() == n && waiting(cur, tests, bodies, 0)
}

/// Blocks were added, and no code.
pub open spec fn only_blocks(a: CurView, b: CurView) -> bool {
    &&& b.at == a.at
    &&& a.blocks.len() <= b.blocks.len()
    &&& forall|i: int| 0 <= i < a.blocks.len() ==> #[trigger] b.blocks[i] == a.blocks[i]
}

/// How a `match` is built from its arms.
pub proof fn lemma_match_built(
    s: State,
    ready: State,
    t: State,
    k: Nested,
    arms: Seq<MatchArmView>,
    c: MatchParts,
    tests: Seq<usize>,
    bodies: Seq<usize>,
)
    requires
        writable(s.out.cur),
        arms.len() > 0,
        tests.len() == arms.len(),
        only_blocks(s.out.cur, ready.out.cur),
        extended(s.out.cur, ready.out.cur),
        blocks_follow(ready.out.cur, s.out.cur.blocks.len(), tests, bodies),
        waiting(ready.out.cur, tests, bodies, 0),
        ({
            let entered = emit_value(ready, InstView::Br(tests[0]), LTyView::Ptr).1;
            &&& extended(entered.out.cur, t.out.cur)
            &&& arms_ready(entered.out.cur, tests, bodies, arms.len()) ==> exists|
                parts: Seq<ArmParts>,
            | #[trigger]
                arms_built(
                    entered.out.cur,
                    t.out.cur,
                    k,
                    arms,
                    parts,
                    c,
                    tests,
                    bodies,
                    arms.len() as int,
                )
        }),
    ensures
        match_built(s, t, k, arms, c),
{
    reveal(emit_value);
    let inst = InstView::Br(tests[0]);
    let entered = emit(ready, inst);
    lemma_emitted(ready, inst);
    lemma_just_built(ready, inst);
    assert(tests[0] == s.out.cur.blocks.len());
    assert(entered.out.cur.blocks.len() == ready.out.cur.blocks.len());
    assert(waiting(entered.out.cur, tests, bodies, 0)) by {
        assert forall|i: int| 0 <= i < tests.len() implies entered.out.cur.blocks[#[trigger] tests[
            i
        ] as int].insts.len() == 0 by {
            assert(tests[i] != ready.out.cur.at);
            assert(entered.out.cur.blocks[tests[i] as int] == ready.out.cur.blocks[tests[
                i
            ] as int]);
        }
        assert forall|i: int|
            0 <= i < bodies.len() implies entered.out.cur.blocks[#[trigger] bodies[
            i
        ] as int].insts.len() == 0 by {
            assert(bodies[i] != ready.out.cur.at);
            assert(entered.out.cur.blocks[bodies[i] as int] == ready.out.cur.blocks[bodies[
                i
            ] as int]);
        }
    }
    let n = arms.len() as int;
    let parts = choose|parts: Seq<ArmParts>| #[trigger]
        arms_built(entered.out.cur, t.out.cur, k, arms, parts, c, tests, bodies, n);
    lemma_extended(s.out.cur, ready.out.cur, entered.out.cur);
    assert forall|i: int| 0 <= i < n implies #[trigger] arm_stands(
        s.out.cur,
        t.out.cur,
        k,
        arms,
        parts,
        c,
        tests,
        bodies,
        i,
    ) by {
        assert(arm_stands(
            entered.out.cur,
            t.out.cur,
            k,
            arms,
            parts,
            c,
            tests,
            bodies,
            i,
        ));
        lemma_extended(s.out.cur, entered.out.cur, parts[i].test_start.out.cur);
    }
    assert(arms_built(s.out.cur, t.out.cur, k, arms, parts, c, tests, bodies, n));
    let at = s.out.cur.at as int;
    assert(ready.out.cur.blocks[at] == s.out.cur.blocks[at]);
    lemma_inst_in(entered.out.cur, t.out.cur, end_of(ready.out.cur));
}

/// A `match` is built: the code before it leads to the test of the first arm, and all arms are
/// built.
pub open spec fn match_built(
    s: State,
    t: State,
    k: Nested,
    arms: Seq<MatchArmView>,
    c: MatchParts,
) -> bool {
    exists|parts: Seq<ArmParts>, tests: Seq<usize>, bodies: Seq<usize>| #[trigger]
        arms_built(
            s.out.cur,
            t.out.cur,
            k,
            arms,
            parts,
            c,
            tests,
            bodies,
            arms.len() as int,
        ) && tests.len() == arms.len() && (arms.len() > 0 ==> inst_in(
            t.out.cur,
            end_of(s.out.cur),
        ) == Some(InstView::Br(tests[0])))
}

/// What is built of the arms stays when code is added.
pub proof fn lemma_arms_lift(
    start: CurView,
    a: CurView,
    b: CurView,
    k: Nested,
    arms: Seq<MatchArmView>,
    parts: Seq<ArmParts>,
    c: MatchParts,
    tests: Seq<usize>,
    bodies: Seq<usize>,
    n: int,
)
    requires
        arms_built(start, a, k, arms, parts, c, tests, bodies, n),
        extended(a, b),
    ensures
        arms_built(start, b, k, arms, parts, c, tests, bodies, n),
{
    assert forall|i: int| 0 <= i < n implies #[trigger] arm_stands(
        start,
        b,
        k,
        arms,
        parts,
        c,
        tests,
        bodies,
        i,
    ) by {
        let p = parts[i];
        assert(arm_stands(start, a, k, arms, parts, c, tests, bodies, i));
        lemma_extended(p.test_end.out.cur, a, b);
        lemma_extended(p.body_end.out.cur, a, b);
        lemma_inst_in(a, b, end_of(p.test_end.out.cur));
        if !terminated(p.body_end) {
            lemma_inst_in(a, b, end_of(p.body_end.out.cur));
        }
    }
}

/// How one more arm is built.
pub proof fn lemma_arm_built(
    start: CurView,
    s: State,
    t: State,
    k: Nested,
    arms: Seq<MatchArmView>,
    parts: Seq<ArmParts>,
    c: MatchParts,
    tests: Seq<usize>,
    bodies: Seq<usize>,
    n: int,
    a: ArmParts,
)
    requires
        0 <= n < arms.len(),
        tests.len() == bodies.len(),
        n < tests.len(),
        blocks_ready(start, tests, bodies),
        extended(start, s.out.cur),
        start.blocks.len() <= s.out.cur.blocks.len(),
        arms_built(start, s.out.cur, k, arms, parts, c, tests, bodies, n),
        waiting(s.out.cur, tests, bodies, n),
        a.test == tests[n],
        a.body == bodies[n],
        a.next == (if n + 1 < tests.len() {
            tests[n + 1]
        } else {
            c.meet
        }),
        a.test_start == go_to(s, a.test),
        gen_pattern_check(a.test_start, arms[n].pattern, c.value, c.ty) == (
            Ok::<(ValView, Seq<(Seq<char>, ValView, TypeView)>), ErrorView>(
                (a.pattern_holds, a.bindings),
            ),
            a.matched,
        ),
        guarded(a.matched, k, arms[n], a.pattern_holds, a.bindings, c.place) == (
            Ok::<ValView, ErrorView>(a.tested),
            a.test_end,
        ),
        adds_code(a.test_start.out.cur, a.test_end.out.cur),
        a.body_start == go_to(branch_if(a.test_end, a.tested, a.body, a.next), a.body),
        compile_branch(
            a.body_start,
            k,
            arms[n].body,
            a.bindings,
            c.slot,
            c.result_ty,
            c.lty,
        ) == (Ok::<(), ErrorView>(()), a.body_end),
        adds_code(a.body_start.out.cur, a.body_end.out.cur),
        t == jump(a.body_end, c.meet),
    ensures
        arms_built(start, t.out.cur, k, arms, parts.push(a), c, tests, bodies, n + 1),
        waiting(t.out.cur, tests, bodies, n + 1),
        extended(s.out.cur, t.out.cur),
{
    let x = a.test as int;
    let y = a.body as int;
    assert(tests[n] == tests[0] + 2 * n);
    assert(bodies[n] == tests[0] + 2 * n + 1);
    let c0 = a.test_start;
    lemma_go_to(s, a.test);
    assert(c0.out.cur.blocks[x].insts.len() == 0);
    let c1 = a.test_end;
    lemma_untouched(c0.out.cur, c1.out.cur, y);
    reveal(branch_if);
    reveal(emit_value);
    let fork = InstView::CondBr(a.tested, a.body, a.next);
    let s1 = emit(c1, fork);
    lemma_emitted(c1, fork);
    lemma_just_built(c1, fork);
    let b0 = a.body_start;
    lemma_go_to(s1, a.body);
    assert(b0.out.cur.blocks[y].insts.len() == 0);
    let b1 = a.body_end;
    assert(writable(b1.out.cur)) by {
        reveal(confined_to);
    }
    lemma_jumped(b1, c.meet);
    let cur = t.out.cur;
    lemma_extended(b0.out.cur, b1.out.cur, cur);
    lemma_extended(s1.out.cur, b0.out.cur, cur);
    lemma_extended(c1.out.cur, s1.out.cur, cur);
    lemma_extended(c0.out.cur, c1.out.cur, cur);
    lemma_extended(s.out.cur, c0.out.cur, cur);
    lemma_inst_in(s1.out.cur, cur, end_of(c1.out.cur));
    lemma_extended(start, s.out.cur, c0.out.cur);
    assert(arm_built(cur, k, arms[n], a, c));
    lemma_arms_lift(start, s.out.cur, cur, k, arms, parts, c, tests, bodies, n);
    let more = parts.push(a);
    assert forall|i: int| 0 <= i < n + 1 implies #[trigger] arm_stands(
        start,
        cur,
        k,
        arms,
        more,
        c,
        tests,
        bodies,
        i,
    ) by {
        if i < n {
            assert(arm_stands(start, cur, k, arms, parts, c, tests, bodies, i));
        }
    }
    assert forall|i: int| n + 1 <= i < tests.len() implies cur.blocks[#[trigger] tests[
        i
    ] as int].insts.len() == 0 by {
        lemma_still_empty(s, a, t, tests[i] as int);
    }
    assert forall|i: int| n + 1 <= i < bodies.len() implies cur.blocks[#[trigger] bodies[
        i
    ] as int].insts.len() == 0 by {
        lemma_still_empty(s, a, t, bodies[i] as int);
    }
}

/// A block that an arm has nothing to do with stays as it is.
proof fn lemma_still_empty(s: State, a: ArmParts, t: State, z: int)
    requires
        0 <= z < s.out.cur.blocks.len(),
        z != a.test,
        z != a.body,
        a.test < s.out.cur.blocks.len(),
        a.body < s.out.cur.blocks.len(),
        a.test_start == go_to(s, a.test),
        adds_code(a.test_start.out.cur, a.test_end.out.cur),
        a.body_start == go_to(branch_if(a.test_end, a.tested, a.body, a.next), a.body),
        adds_code(a.body_start.out.cur, a.body_end.out.cur),
        exists|meet: usize| t == jump(a.body_end, meet),
    ensures
        t.out.cur.blocks[z] == s.out.cur.blocks[z],
{
    lemma_go_to(s, a.test);
    let c0 = a.test_start.out.cur;
    let c1 = a.test_end.out.cur;
    lemma_untouched(c0, c1, z);
    reveal(branch_if);
    reveal(emit_value);
    let fork = InstView::CondBr(a.tested, a.body, a.next);
    let s1 = emit(a.test_end, fork);
    lemma_emit_any(a.test_end, fork);
    assert(s1.out.cur.blocks[z] == c1.blocks[z]);
    lemma_go_to(s1, a.body);
    let b0 = a.body_start.out.cur;
    let b1 = a.body_end.out.cur;
    lemma_untouched(b0, b1, z);
    let meet = choose|meet: usize| t == jump(a.body_end, meet);
    assert(writable(b1));
    lemma_jumped(a.body_end, meet);
    lemma_untouched(b1, t.out.cur, z);
}

/// The arm that is taken is the first one whose test holds: where the tests in front of it, run one
/// after the other, do not hold, and its own does, running comes from in front of the `match` to
/// its
/// body, and from the end of the body to where the arms meet.
pub proof fn law_first_arm_that_holds_is_taken(
    m: Machine,
    start: CurView,
    cur: CurView,
    k: Nested,
    arms: Seq<MatchArmView>,
    parts: Seq<ArmParts>,
    c: MatchParts,
    tests: Seq<usize>,
    bodies: Seq<usize>,
    f: Seq<Frame>,
    j: int,
    i: int,
)
    requires
        arms_built(start, cur, k, arms, parts, c, tests, bodies, arms.len() as int),
        tests.len() == arms.len(),
        0 <= i <= j < arms.len(),
        f.len() == j + 2,
        forall|x: int|
            0 <= x <= j ==> leads(
                m,
                cur.blocks,
                Moment { spot: block_start(tests[x]), frame: #[trigger] f[x] },
                Moment { spot: end_of(parts[x].test_end.out.cur), frame: f[x + 1] },
            ),
        forall|x: int|
            0 <= x <= j ==> value(m, f[x + 1], (#[trigger] parts[x]).tested)
                == crate::machine::bit(x == j),
    ensures
        leads(
            m,
            cur.blocks,
            Moment { spot: block_start(tests[i]), frame: f[i] },
            Moment { spot: block_start(bodies[j]), frame: f[j + 1] },
        ),
    decreases j - i,
{
    let p = parts[i];
    assert(arm_stands(start, cur, k, arms, parts, c, tests, bodies, i));
    let from = Moment { spot: block_start(tests[i]), frame: f[i] };
    let fork = Moment { spot: end_of(p.test_end.out.cur), frame: f[i + 1] };
    let last = Moment { spot: block_start(bodies[j]), frame: f[j + 1] };
    lemma_jumps(m, cur, end_of(p.test_end.out.cur), f[i + 1]);
    if i == j {
        lemma_leads_trans(m, cur.blocks, from, fork, last);
    } else {
        let next = Moment { spot: block_start(tests[i + 1]), frame: f[i + 1] };
        lemma_leads_trans(m, cur.blocks, from, fork, next);
        law_first_arm_that_holds_is_taken(
            m,
            start,
            cur,
            k,
            arms,
            parts,
            c,
            tests,
            bodies,
            f,
            j,
            i + 1,
        );
        lemma_leads_trans(m, cur.blocks, from, next, last);
    }
}

/// The parts of a logical operator: what its operands give, as they are and as truth values, the
/// place of the result, the blocks of the second operand and of what is behind it, and the states
/// in
/// front of the branch, at the start and the end of the second operand, and behind it.
pub struct LogicParts {
    pub room: State,
    pub slot: ValView,
    pub a: ValView,
    pub a_done: State,
    pub x: ValView,
    pub before: State,
    pub second: usize,
    pub meet: usize,
    pub second_start: State,
    pub b: ValView,
    pub b_done: State,
    pub y: ValView,
    pub second_end: State,
    pub met: State,
}

/// A logical operator is built: of `&&` the second operand is run where the first one holds, of
/// `||` where it does not; else what is behind is run at once.
pub open spec fn decides_early(p: LogicParts, op: BinOp) -> bool {
    let cur = p.met.out.cur;
    &&& inst_in(cur, end_of(p.before.out.cur)) == Some(
        if op is And {
            InstView::CondBr(p.x, p.second, p.meet)
        } else {
            InstView::CondBr(p.x, p.meet, p.second)
        },
    )
    &&& extended(p.before.out.cur, cur)
    &&& end_of(p.second_start.out.cur) == block_start(p.second)
    &&& extended(p.second_end.out.cur, cur)
    &&& !terminated(p.second_end) ==> inst_in(cur, end_of(p.second_end.out.cur)) == Some(
        InstView::Br(p.meet),
    )
    &&& end_of(cur) == block_start(p.meet)
    &&& writable(cur)
}

/// A logical operator is built from the code of its operands, each of which is stored as the result
/// where it is run; the result is what was stored last.
pub open spec fn logic_built(
    t: State,
    v: ValView,
    k: Nested,
    op: BinOp,
    lhs: ExprView,
    rhs: ExprView,
) -> bool {
    exists|p: LogicParts, msg: Seq<char>|
        #![trigger decides_early(p, op), to_bit(p.a_done, p.a, msg)]
        decides_early(p, op) && nested_expr(p.room, k, lhs) == (
            Ok::<ValView, ErrorView>(p.a),
            p.a_done,
        ) && to_bit(p.a_done, p.a, msg).0 == Ok::<ValView, ErrorView>(p.x) && p.before == store(
            to_bit(p.a_done, p.a, msg).1,
            p.x,
            p.slot,
        ) && nested_expr(p.second_start, k, rhs) == (Ok::<ValView, ErrorView>(p.b), p.b_done)
            && to_bit(p.b_done, p.b, msg).0 == Ok::<ValView, ErrorView>(p.y) && p.second_end
            == store(to_bit(p.b_done, p.b, msg).1, p.y, p.slot) && (v, t) == load(
            p.met,
            LTyView::Int(1),
            p.slot,
        )
}

/// How a logical operator is built from its parts.
pub proof fn lemma_decides_early(p: LogicParts, op: BinOp, left: State)
    requires
        writable(p.before.out.cur),
        p.second != p.meet,
        p.second != p.before.out.cur.at,
        p.meet != p.before.out.cur.at,
        p.second < p.before.out.cur.blocks.len(),
        p.meet < p.before.out.cur.blocks.len(),
        p.before.out.cur.blocks[p.second as int].insts.len() == 0,
        p.before.out.cur.blocks[p.meet as int].insts.len() == 0,
        p.second_start == go_to(
            if op is And {
                branch_if(p.before, p.x, p.second, p.meet)
            } else {
                branch_if(p.before, p.x, p.meet, p.second)
            },
            p.second,
        ),
        adds_code(p.second_start.out.cur, p.second_end.out.cur),
        left == jump(p.second_end, p.meet),
        p.met == go_to(left, p.meet),
    ensures
        decides_early(p, op),
{
    reveal(branch_if);
    reveal(emit_value);
    let fork = if op is And {
        InstView::CondBr(p.x, p.second, p.meet)
    } else {
        InstView::CondBr(p.x, p.meet, p.second)
    };
    let s1 = emit(p.before, fork);
    lemma_emitted(p.before, fork);
    lemma_just_built(p.before, fork);
    lemma_go_to(s1, p.second);
    let b0 = p.second_start;
    let b1 = p.second_end;
    let z = p.meet as int;
    lemma_untouched(b0.out.cur, b1.out.cur, z);
    lemma_jumped(b1, p.meet);
    lemma_untouched(b1.out.cur, left.out.cur, z);
    lemma_go_to(left, p.meet);
    let cur = p.met.out.cur;
    lemma_extended(b1.out.cur, left.out.cur, cur);
    lemma_extended(b0.out.cur, b1.out.cur, cur);
    lemma_extended(s1.out.cur, b0.out.cur, cur);
    lemma_extended(p.before.out.cur, s1.out.cur, cur);
    lemma_inst_in(s1.out.cur, cur, end_of(p.before.out.cur));
    if !terminated(b1) {
        lemma_inst_in(left.out.cur, cur, end_of(b1.out.cur));
    }
}

/// The second operand of a logical operator is run only where the first one does not decide: behind
/// a false one of `&&` and behind a true one of `||` code goes on at once, else from the end of the
/// second operand.
pub proof fn law_logic_decides_early(
    m: Machine,
    p: LogicParts,
    op: BinOp,
    holds: bool,
    f: Frame,
    g: Frame,
)
    requires
        decides_early(p, op),
        op is And || op is Or,
        value(m, f, p.x) == crate::machine::bit(holds),
        holds == (op is Or) ==> g == f,
        holds == (op is And) ==> !terminated(p.second_end) && leads(
            m,
            p.met.out.cur.blocks,
            Moment { spot: block_start(p.second), frame: f },
            Moment { spot: end_of(p.second_end.out.cur), frame: g },
        ),
    ensures
        leads(
            m,
            p.met.out.cur.blocks,
            Moment { spot: end_of(p.before.out.cur), frame: f },
            Moment { spot: end_of(p.met.out.cur), frame: g },
        ),
{
    let cur = p.met.out.cur;
    let from = Moment { spot: end_of(p.before.out.cur), frame: f };
    lemma_jumps(m, cur, end_of(p.before.out.cur), f);
    if holds == (op is And) {
        let into = Moment { spot: block_start(p.second), frame: f };
        let done = Moment { spot: end_of(p.second_end.out.cur), frame: g };
        lemma_leads_trans(m, cur.blocks, from, into, done);
        lemma_jumps(m, cur, end_of(p.second_end.out.cur), g);
        lemma_leads_trans(m, cur.blocks, from, done, Moment { spot: end_of(cur), frame: g });
    }
}

/// The parts of a `loop`: the state in front of it, the place of its value, the blocks of the body
/// and behind the loop, the states at the start and the end of the body, and the state behind it.
pub struct RoundParts {
    pub before: State,
    pub slot: ValView,
    pub ty: TypeView,
    pub body: usize,
    pub after: usize,
    pub body_start: State,
    pub body_end: State,
    pub left: State,
}

/// A `loop` is built so that its code goes round: the code before it leads to the body, and the end
/// of the body to its start. A `continue` goes to the start, a `break` behind the loop.
pub open spec fn repeats(p: RoundParts) -> bool {
    let cur = p.left.out.cur;
    let inner = p.body_start.fun.loops.last();
    &&& inst_in(cur, end_of(p.before.out.cur)) == Some(InstView::Br(p.body))
    &&& extended(p.before.out.cur, cur)
    &&& end_of(p.body_start.out.cur) == block_start(p.body)
    &&& extended(p.body_end.out.cur, cur)
    &&& !terminated(p.body_end) ==> inst_in(cur, end_of(p.body_end.out.cur)) == Some(
        InstView::Br(p.body),
    )
    &&& p.body_start.fun.loops.len() > 0
    &&& inner.continue_bb == p.body
    &&& inner.break_bb == p.after
    &&& inner.result == Some((p.slot, p.ty))
    &&& end_of(cur) == block_start(p.after)
    &&& writable(cur)
}

/// A `loop` is built from the code of its body; its value is what was stored for it.
pub open spec fn loop_built(t: State, v: ValView, k: Nested, body: BlockView) -> bool {
    exists|p: RoundParts, lty: LTyView|
        #![trigger repeats(p), load(p.left, lty, p.slot)]
        repeats(p) && block_built(p.body_start, p.body_end, k, body, Seq::empty()) && (v, t)
            == load(p.left, lty, p.slot)
}

/// How a `loop` is built from its parts.
pub proof fn lemma_repeats(
    s: State,
    l1: Seq<char>,
    l2: Seq<char>,
    p: RoundParts,
    d: State,
    k: Nested,
    body: BlockView,
) -> (q: RoundParts)
    requires
        writable(s.out.cur),
        p.before == s,
        ({
            let (x, s1) = add_block(s, l1);
            let (y, s2) = add_block(s1, l2);
            &&& p.body == x == s.out.cur.blocks.len()
            &&& p.after == y == s.out.cur.blocks.len() + 1
            &&& p.body_start == open_loop(
                go_to(emit_value(s2, InstView::Br(x), LTyView::Ptr).1, x),
                x,
                y,
                Some((p.slot, p.ty)),
            )
        }),
        body_built(p.body_start, d, k, body, Seq::empty(), p.body),
        p.left == go_to(d, p.after),
    ensures
        repeats(q),
        q == (RoundParts { body_end: q.body_end, ..p }),
        block_built(p.body_start, q.body_end, k, body, Seq::empty()),
{
    let (x, s1) = add_block(s, l1);
    let (y, s2) = add_block(s1, l2);
    lemma_add_block(s, l1);
    lemma_add_block(s1, l2);
    lemma_extended(s.out.cur, s1.out.cur, s2.out.cur);
    let at = s.out.cur.at as int;
    assert(s2.out.cur.blocks[at] == s1.out.cur.blocks[at]);
    assert(s1.out.cur.blocks[at] == s.out.cur.blocks[at]);
    reveal(emit_value);
    let enter = InstView::Br(x);
    let s3 = emit(s2, enter);
    lemma_emitted(s2, enter);
    lemma_just_built(s2, enter);
    lemma_extended(s.out.cur, s2.out.cur, s3.out.cur);
    lemma_go_to(s3, x);
    reveal(open_loop);
    let b0 = p.body_start;
    assert(b0.out == go_to(s3, x).out);
    assert(s1.out.cur.blocks[x as int].insts.len() == 0);
    assert(s2.out.cur.blocks[x as int] == s1.out.cur.blocks[x as int]);
    assert(s3.out.cur.blocks[x as int] == s2.out.cur.blocks[x as int]);
    assert(s2.out.cur.blocks[y as int].insts.len() == 0);
    assert(s3.out.cur.blocks[y as int] == s2.out.cur.blocks[y as int]);
    let none = Seq::<(Seq<char>, ValView, TypeView)>::empty();
    let b1 = choose|b: State| #[trigger]
        block_built(b0, b, k, body, none) && adds_code(b0.out.cur, b.out.cur) && extended(
            b.out.cur,
            d.out.cur,
        ) && confined(b.out.cur, d.out.cur) && (writable(b.out.cur) && !terminated(b) ==> inst_in(
            d.out.cur,
            end_of(b.out.cur),
        ) == Some(InstView::Br(x)));
    lemma_untouched(b0.out.cur, b1.out.cur, y as int);
    lemma_untouched(b1.out.cur, d.out.cur, y as int);
    lemma_go_to(d, y);
    let cur = p.left.out.cur;
    lemma_extended(b1.out.cur, d.out.cur, cur);
    lemma_extended(b0.out.cur, b1.out.cur, cur);
    lemma_extended(s3.out.cur, b0.out.cur, cur);
    lemma_extended(s.out.cur, s3.out.cur, cur);
    lemma_inst_in(s3.out.cur, cur, end_of(s2.out.cur));
    if !terminated(b1) {
        lemma_inst_in(d.out.cur, cur, end_of(b1.out.cur));
    }
    RoundParts { body_end: b1, ..p }
}

/// The body of a `loop` runs again and again: where it leads from one frame to the next one, `n`
/// times, running comes from in front of the loop to the start of the body with the last of them.
pub proof fn law_loop_repeats(m: Machine, p: RoundParts, f: Seq<Frame>, n: nat)
    requires
        repeats(p),
        f.len() == n + 1,
        n > 0 ==> !terminated(p.body_end),
        forall|i: int|
            0 <= i < n ==> leads(
                m,
                p.left.out.cur.blocks,
                Moment { spot: block_start(p.body), frame: #[trigger] f[i] },
                Moment { spot: end_of(p.body_end.out.cur), frame: f[i + 1] },
            ),
    ensures
        leads(
            m,
            p.left.out.cur.blocks,
            Moment { spot: end_of(p.before.out.cur), frame: f[0] },
            Moment { spot: block_start(p.body), frame: f[n as int] },
        ),
{
    lemma_repeated(m, p, f, n, n);
}

proof fn lemma_repeated(m: Machine, p: RoundParts, f: Seq<Frame>, n: nat, i: nat)
    requires
        repeats(p),
        f.len() == n + 1,
        i <= n,
        n > 0 ==> !terminated(p.body_end),
        forall|i: int|
            0 <= i < n ==> leads(
                m,
                p.left.out.cur.blocks,
                Moment { spot: block_start(p.body), frame: #[trigger] f[i] },
                Moment { spot: end_of(p.body_end.out.cur), frame: f[i + 1] },
            ),
    ensures
        leads(
            m,
            p.left.out.cur.blocks,
            Moment { spot: end_of(p.before.out.cur), frame: f[0] },
            Moment { spot: block_start(p.body), frame: f[i as int] },
        ),
    decreases i,
{
    let cur = p.left.out.cur;
    let from = Moment { spot: end_of(p.before.out.cur), frame: f[0] };
    if i == 0 {
        lemma_jumps(m, cur, end_of(p.before.out.cur), f[0]);
    } else {
        lemma_repeated(m, p, f, n, (i - 1) as nat);
        let again = Moment { spot: block_start(p.body), frame: f[i - 1] };
        let done = Moment { spot: end_of(p.body_end.out.cur), frame: f[i as int] };
        lemma_leads_trans(m, cur.blocks, from, again, done);
        lemma_jumps(m, cur, end_of(p.body_end.out.cur), f[i as int]);
        lemma_leads_trans(
            m,
            cur.blocks,
            from,
            done,
            Moment { spot: block_start(p.body), frame: f[i as int] },
        );
    }
}

/// The parts of an `else if`: the states at the start of its condition, behind it and in front of
/// the branch, what the condition gives, as it is and as a truth value, the blocks of its body and
/// of what comes next, the states at the start and the end of the body, and the state that comes
/// next.
pub struct ElifParts {
    pub start: State,
    pub v: ValView,
    pub v_done: State,
    pub x: ValView,
    pub before: State,
    pub yes: usize,
    pub rest: usize,
    pub yes_start: State,
    pub yes_end: State,
    pub rest_start: State,
}

/// Where the value of a conditional goes, and where its branches meet.
pub struct MeetParts {
    pub meet: usize,
    pub slot: ValView,
    pub ty: TypeView,
    pub lty: LTyView,
}

/// An `else if` is built: where its condition holds, its block is run, which leads to where the
/// branches meet, else what comes next.
pub open spec fn elif_stands(
    s: State,
    cur: CurView,
    k: Nested,
    else_ifs: Seq<(ExprView, BlockView)>,
    parts: Seq<ElifParts>,
    c: MeetParts,
    i: int,
) -> bool {
    let p = parts[i];
    &&& p.start == (if i == 0 {
        s
    } else {
        parts[i - 1].rest_start
    })
    &&& nested_expr(p.start, k, else_ifs[i].0) == (Ok::<ValView, ErrorView>(p.v), p.v_done)
    &&& low_bit(p.v_done, p.v) == (Some(p.x), p.before)
    &&& extended(p.before.out.cur, cur)
    &&& inst_in(cur, end_of(p.before.out.cur)) == Some(InstView::CondBr(p.x, p.yes, p.rest))
    &&& end_of(p.yes_start.out.cur) == block_start(p.yes)
    &&& compile_branch(
        p.yes_start,
        k,
        else_ifs[i].1,
        Seq::empty(),
        c.slot,
        c.ty,
        c.lty,
    ) == (Ok::<(), ErrorView>(()), p.yes_end)
    &&& extended(p.yes_end.out.cur, cur)
    &&& !terminated(p.yes_end) ==> inst_in(cur, end_of(p.yes_end.out.cur)) == Some(
        InstView::Br(c.meet),
    )
    &&& end_of(p.rest_start.out.cur) == block_start(p.rest)
}

/// The first `n` branches of a chain are built, each behind the one before.
pub open spec fn chain_stands(
    s: State,
    t: State,
    k: Nested,
    else_ifs: Seq<(ExprView, BlockView)>,
    parts: Seq<ElifParts>,
    c: MeetParts,
    n: int,
) -> bool {
    &&& parts.len() == n
    &&& t == (if n == 0 {
        s
    } else {
        parts[n - 1].rest_start
    })
    &&& forall|i: int|
        0 <= i < n ==> #[trigger] elif_stands(s, t.out.cur, k, else_ifs, parts, c, i)
}

/// How one more branch of a chain is built.
pub proof fn lemma_elif_stands(
    s: State,
    k: Nested,
    else_ifs: Seq<(ExprView, BlockView)>,
    parts: Seq<ElifParts>,
    c: MeetParts,
    n: int,
    p: ElifParts,
    l1: Seq<char>,
    l2: Seq<char>,
    left: State,
)
    requires
        0 <= n < else_ifs.len(),
        chain_stands(s, p.start, k, else_ifs, parts, c, n),
        writable(p.start.out.cur),
        nested_expr(p.start, k, else_ifs[n].0) == (Ok::<ValView, ErrorView>(p.v), p.v_done),
        low_bit(p.v_done, p.v) == (Some(p.x), p.before),
        adds_code(p.start.out.cur, p.before.out.cur),
        ({
            let (x, s1) = add_block(p.before, l1);
            let (y, s2) = add_block(s1, l2);
            &&& p.yes == x == p.before.out.cur.blocks.len()
            &&& p.rest == y == p.before.out.cur.blocks.len() + 1
            &&& p.yes_start == go_to(branch_if(s2, p.x, x, y), x)
        }),
        compile_branch(p.yes_start, k, else_ifs[n].1, Seq::empty(), c.slot, c.ty, c.lty) == (
            Ok::<(), ErrorView>(()),
            p.yes_end,
        ),
        adds_code(p.yes_start.out.cur, p.yes_end.out.cur),
        left == jump(p.yes_end, c.meet),
        p.rest_start == go_to(left, p.rest),
    ensures
        chain_stands(s, p.rest_start, k, else_ifs, parts.push(p), c, n + 1),
        writable(p.rest_start.out.cur),
{
    let b = p.before;
    lemma_still_in_block(p.start.out.cur, b.out.cur);
    let (x, s1) = add_block(b, l1);
    let (y, s2) = add_block(s1, l2);
    lemma_add_block(b, l1);
    lemma_add_block(s1, l2);
    lemma_extended(b.out.cur, s1.out.cur, s2.out.cur);
    let at = b.out.cur.at as int;
    assert(s2.out.cur.blocks[at] == s1.out.cur.blocks[at]);
    assert(s1.out.cur.blocks[at] == b.out.cur.blocks[at]);
    reveal(branch_if);
    reveal(emit_value);
    let fork = InstView::CondBr(p.x, x, y);
    let s3 = emit(s2, fork);
    lemma_emitted(s2, fork);
    lemma_just_built(s2, fork);
    lemma_extended(b.out.cur, s2.out.cur, s3.out.cur);
    let a0 = p.yes_start;
    lemma_go_to(s3, x);
    assert(s1.out.cur.blocks[x as int].insts.len() == 0);
    assert(s2.out.cur.blocks[x as int] == s1.out.cur.blocks[x as int]);
    assert(s3.out.cur.blocks[x as int] == s2.out.cur.blocks[x as int]);
    assert(s3.out.cur.blocks[y as int] == s2.out.cur.blocks[y as int]);
    let a1 = p.yes_end;
    lemma_untouched(a0.out.cur, a1.out.cur, y as int);
    lemma_jumped(a1, c.meet);
    lemma_untouched(a1.out.cur, left.out.cur, y as int);
    lemma_go_to(left, y);
    let cur = p.rest_start.out.cur;
    lemma_extended(a1.out.cur, left.out.cur, cur);
    lemma_extended(a0.out.cur, a1.out.cur, cur);
    lemma_extended(s3.out.cur, a0.out.cur, cur);
    lemma_extended(b.out.cur, s3.out.cur, cur);
    lemma_extended(p.start.out.cur, b.out.cur, cur);
    lemma_inst_in(s3.out.cur, cur, end_of(s2.out.cur));
    if !terminated(a1) {
        lemma_inst_in(left.out.cur, cur, end_of(a1.out.cur));
    }
    let more = parts.push(p);
    assert forall|i: int| 0 <= i < n + 1 implies #[trigger] elif_stands(
        s,
        cur,
        k,
        else_ifs,
        more,
        c,
        i,
    ) by {
        if i < n {
            assert(elif_stands(s, p.start.out.cur, k, else_ifs, parts, c, i));
            let q = parts[i];
            assert(more[i] == q);
            if i > 0 {
                assert(more[i - 1] == parts[i - 1]);
            }
            lemma_extended(q.before.out.cur, p.start.out.cur, cur);
            lemma_extended(q.yes_end.out.cur, p.start.out.cur, cur);
            lemma_inst_in(p.start.out.cur, cur, end_of(q.before.out.cur));
            if !terminated(q.yes_end) {
                lemma_inst_in(p.start.out.cur, cur, end_of(q.yes_end.out.cur));
            }
        }
    }
}

/// An `else if` goes by its condition: where it holds, to its block, and from the end of that to
/// where the branches meet, else to what comes next.
pub proof fn law_else_if_goes_by_its_condition(
    m: Machine,
    s: State,
    t: State,
    k: Nested,
    else_ifs: Seq<(ExprView, BlockView)>,
    parts: Seq<ElifParts>,
    c: MeetParts,
    i: int,
    holds: bool,
    f: Frame,
    g: Frame,
)
    requires
        chain_stands(s, t, k, else_ifs, parts, c, else_ifs.len() as int),
        0 <= i < else_ifs.len(),
        value(m, f, parts[i].x) == crate::machine::bit(holds),
        holds ==> !terminated(parts[i].yes_end) && leads(
            m,
            t.out.cur.blocks,
            Moment { spot: block_start(parts[i].yes), frame: f },
            Moment { spot: end_of(parts[i].yes_end.out.cur), frame: g },
        ),
        !holds ==> g == f,
    ensures
        leads(
            m,
            t.out.cur.blocks,
            Moment { spot: end_of(parts[i].before.out.cur), frame: f },
            Moment {
                spot: if holds {
                    block_start(c.meet)
                } else if i + 1 < else_ifs.len() {
                    end_of(parts[i + 1].start.out.cur)
                } else {
                    end_of(t.out.cur)
                },
                frame: g,
            },
        ),
{
    let p = parts[i];
    let cur = t.out.cur;
    assert(elif_stands(s, cur, k, else_ifs, parts, c, i));
    if i + 1 < else_ifs.len() {
        assert(elif_stands(s, cur, k, else_ifs, parts, c, i + 1));
    }
    let from = Moment { spot: end_of(p.before.out.cur), frame: f };
    lemma_jumps(m, cur, end_of(p.before.out.cur), f);
    if holds {
        let into = Moment { spot: block_start(p.yes), frame: f };
        let done = Moment { spot: end_of(p.yes_end.out.cur), frame: g };
        lemma_leads_trans(m, cur.blocks, from, into, done);
        lemma_jumps(m, cur, end_of(p.yes_end.out.cur), g);
        lemma_leads_trans(
            m,
            cur.blocks,
            from,
            done,
            Moment { spot: block_start(c.meet), frame: g },
        );
    }
}

/// The parts of a `let` with an `else` block: the state in which the value is looked at, the value
/// and its type, the state in front of the branch, what the pattern gives, the variables that it
/// binds, the blocks of both ways, the states at the start and the end of the `else` block, and the
/// state in which the variables are declared.
pub struct LetElseParts {
    pub looked: State,
    pub value: ValView,
    pub ty: TypeView,
    pub before: State,
    pub tested: ValView,
    pub bindings: Seq<(Seq<char>, ValView, TypeView)>,
    pub yes: usize,
    pub no: usize,
    pub no_start: State,
    pub no_end: State,
    pub yes_start: State,
}

/// A `let` with an `else` block is built: where the value matches the pattern, code goes on with
/// the
/// variables of the pattern, else the `else` block is run, whose end is never reached.
pub open spec fn splits(cur: CurView, p: LetElseParts) -> bool {
    &&& inst_in(cur, end_of(p.before.out.cur)) == Some(InstView::CondBr(p.tested, p.yes, p.no))
    &&& end_of(p.no_start.out.cur) == block_start(p.no)
    &&& extended(p.no_end.out.cur, cur)
    &&& !terminated(p.no_end) ==> inst_in(cur, end_of(p.no_end.out.cur)) == Some(
        InstView::Unreachable,
    )
    &&& end_of(p.yes_start.out.cur) == block_start(p.yes)
    &&& extended(p.yes_start.out.cur, cur)
}

/// A `let` with an `else` block is built from the code of its parts.
pub open spec fn let_else_built(
    t: State,
    k: Nested,
    pattern: PatternView,
    is_mut: bool,
    else_block: BlockView,
) -> bool {
    exists|p: LetElseParts| #[trigger]
        splits(t.out.cur, p) && gen_pattern_check(p.looked, pattern, p.value, p.ty) == (
            Ok::<(ValView, Seq<(Seq<char>, ValView, TypeView)>), ErrorView>((p.tested, p.bindings)),
            p.before,
        ) && block_built(p.no_start, p.no_end, k, else_block, Seq::empty())
            && declare_bindings(p.yes_start, k.fuel, p.bindings, is_mut).0 is Ok
            && declare_bindings(p.yes_start, k.fuel, p.bindings, is_mut).1.out == t.out
}

/// How a `let` with an `else` block is built from its parts.
pub proof fn lemma_splits(
    l1: Seq<char>,
    l2: Seq<char>,
    p: LetElseParts,
    ended: State,
    left: State,
)
    requires
        writable(p.before.out.cur),
        ({
            let (x, s1) = add_block(p.before, l1);
            let (y, s2) = add_block(s1, l2);
            &&& p.yes == x == p.before.out.cur.blocks.len()
            &&& p.no == y == p.before.out.cur.blocks.len() + 1
            &&& p.no_start == go_to(branch_if(s2, p.tested, x, y), y)
        }),
        adds_code(p.no_start.out.cur, p.no_end.out.cur),
        ended.out == p.no_end.out,
        left == (if terminated(ended) {
            ended
        } else {
            unreachable_here(ended)
        }),
        p.yes_start == go_to(left, p.yes),
    ensures
        splits(p.yes_start.out.cur, p),
{
    let b = p.before;
    let (x, s1) = add_block(b, l1);
    let (y, s2) = add_block(s1, l2);
    lemma_add_block(b, l1);
    lemma_add_block(s1, l2);
    lemma_extended(b.out.cur, s1.out.cur, s2.out.cur);
    let at = b.out.cur.at as int;
    assert(s2.out.cur.blocks[at] == s1.out.cur.blocks[at]);
    assert(s1.out.cur.blocks[at] == b.out.cur.blocks[at]);
    reveal(branch_if);
    reveal(emit_value);
    reveal(unreachable_here);
    reveal(terminated);
    let fork = InstView::CondBr(p.tested, x, y);
    let s3 = emit(s2, fork);
    lemma_emitted(s2, fork);
    lemma_just_built(s2, fork);
    let a0 = p.no_start;
    lemma_go_to(s3, y);
    assert(s1.out.cur.blocks[x as int].insts.len() == 0);
    assert(s2.out.cur.blocks[x as int] == s1.out.cur.blocks[x as int]);
    assert(s3.out.cur.blocks[x as int] == s2.out.cur.blocks[x as int]);
    assert(s3.out.cur.blocks[y as int] == s2.out.cur.blocks[y as int]);
    let a1 = p.no_end;
    lemma_untouched(a0.out.cur, a1.out.cur, x as int);
    assert(writable(a1.out.cur));
    crate::growth::lemma_extended_refl(ended.out.cur);
    if !terminated(ended) {
        lemma_emitted(ended, InstView::Unreachable);
        lemma_just_built(ended, InstView::Unreachable);
    }
    assert(left.out.cur.blocks[x as int].insts.len() == 0);
    lemma_go_to(left, x);
    let cur = p.yes_start.out.cur;
    lemma_extended(a1.out.cur, left.out.cur, cur);
    lemma_extended(a0.out.cur, a1.out.cur, cur);
    lemma_extended(s3.out.cur, a0.out.cur, cur);
    lemma_inst_in(s3.out.cur, cur, end_of(s2.out.cur));
    if !terminated(a1) {
        lemma_inst_in(left.out.cur, cur, end_of(a1.out.cur));
    }
    crate::growth::lemma_extended_refl(cur);
}

/// The parts stay when code is added.
pub proof fn lemma_splits_lift(a: CurView, b: CurView, p: LetElseParts)
    requires
        splits(a, p),
        extended(a, b),
    ensures
        splits(b, p),
{
    lemma_extended(p.no_end.out.cur, a, b);
    lemma_extended(p.yes_start.out.cur, a, b);
    lemma_inst_in(a, b, end_of(p.before.out.cur));
    if !terminated(p.no_end) {
        lemma_inst_in(a, b, end_of(p.no_end.out.cur));
    }
}

/// A block that no pattern binds variables for is built as it is.
pub proof fn lemma_unbound(s: State)
    ensures
        bind_all(s, Seq::empty()) == s,
{
    reveal(bind_all);
    reveal(bind_all_each);
}

/// A `let` with an `else` block goes by its pattern: where it matches, code goes on where the
/// variables are declared, else in the `else` block.
pub proof fn law_let_else_goes_by_its_pattern(
    m: Machine,
    cur: CurView,
    p: LetElseParts,
    holds: bool,
    f: Frame,
)
    requires
        splits(cur, p),
        value(m, f, p.tested) == crate::machine::bit(holds),
    ensures
        leads(
            m,
            cur.blocks,
            Moment { spot: end_of(p.before.out.cur), frame: f },
            Moment {
                spot: if holds {
                    end_of(p.yes_start.out.cur)
                } else {
                    end_of(p.no_start.out.cur)
                },
                frame: f,
            },
        ),
{
    lemma_jumps(m, cur, end_of(p.before.out.cur), f);
}

} // verus!
