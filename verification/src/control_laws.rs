//! What holds of matches and jumps when they run.
use crate::bodies::stmt_step;
use crate::builder::{emit, emit_value};
use crate::exprs::guarded;
use crate::flow::{ArmParts, MatchParts, arm_stands, arms_built, lemma_jumps};
use crate::ir::{CurView, InstView};
use crate::lists::last_of;
use crate::machine::{Frame, Machine, Moment, Word, block_start, leads, value};
use crate::model::{MatchArmView, StmtView};
use crate::nesting::Nested;
use crate::pattern_laws::{
    bound, countable_types, holds_bound, law_pattern, matches_pattern, testable,
};
use crate::running::{
    countable, end_of, known, lemma_countable, lemma_known, lemma_leads_lift, lemma_leads_trans,
    lemma_value, runs, writable,
};
use crate::state::State;
use vstd::prelude::*;

verus! {

/// A value that is matched takes the first arm whose pattern it matches: where no arm in front of
/// it matches, and none of them has a guard, running comes from the test of the first arm to the
/// body of that arm, and the variables of its pattern hold what they are bound to.
pub proof fn law_first_matching_arm_is_taken(
    m: Machine,
    start: CurView,
    cur: CurView,
    k: Nested,
    arms: Seq<MatchArmView>,
    parts: Seq<ArmParts>,
    c: MatchParts,
    tests: Seq<usize>,
    bodies: Seq<usize>,
    w: Word,
    f: Frame,
    i: int,
    j: int,
) -> (g: Frame)
    requires
        arms_built(start, cur, k, arms, parts, c, tests, bodies, arms.len() as int),
        tests.len() == arms.len(),
        0 <= i <= j < arms.len(),
        countable(cur),
        known(start, c.value),
        value(m, f, c.value) == w,
        forall|x: int|
            i <= x <= j ==> (#[trigger] arms[x]).guard is None && countable_types(
                parts[x].test_start.env,
            ) && testable(parts[x].test_start, arms[x].pattern, w, c.value.ty, c.ty),
        forall|x: int|
            i <= x <= j ==> matches_pattern(
                parts[x].test_start,
                (#[trigger] arms[x]).pattern,
                w,
                c.value.ty,
                c.ty,
            ) == (x == j),
    ensures
        leads(
            m,
            cur.blocks,
            Moment { spot: block_start(tests[i]), frame: f },
            Moment { spot: block_start(bodies[j]), frame: g },
        ),
        holds_bound(
            m,
            g,
            parts[j].bindings,
            bound(parts[j].test_start, arms[j].pattern, w, c.ty),
        ),
        value(m, g, c.value) == w,
    decreases j - i,
{
    let p = parts[i];
    let arm = arms[i];
    assert(arm_stands(start, cur, k, arms, parts, c, tests, bodies, i));
    reveal(guarded);
    assert(p.test_end == p.matched && p.tested == p.pattern_holds);
    lemma_countable(p.matched.out.cur, cur);
    lemma_known(start, p.test_start.out.cur, c.value);
    let h = law_pattern(m, p.test_start, arm.pattern, c.value, c.ty, w, f);
    lemma_value(m, p.test_start.out.cur, f, h, c.value);
    reveal(runs);
    let from = Moment { spot: block_start(tests[i]), frame: f };
    let fork = Moment { spot: end_of(p.test_end.out.cur), frame: h };
    lemma_leads_lift(m, p.matched.out.cur, cur, from, fork);
    lemma_jumps(m, cur, end_of(p.test_end.out.cur), h);
    let last = |g: Frame| Moment { spot: block_start(bodies[j]), frame: g };
    if i == j {
        lemma_leads_trans(m, cur.blocks, from, fork, last(h));
        h
    } else {
        let next = Moment { spot: block_start(tests[i + 1]), frame: h };
        lemma_leads_trans(m, cur.blocks, from, fork, next);
        let g = law_first_matching_arm_is_taken(
            m,
            start,
            cur,
            k,
            arms,
            parts,
            c,
            tests,
            bodies,
            w,
            h,
            i + 1,
            j,
        );
        lemma_leads_trans(m, cur.blocks, from, next, last(g));
        g
    }
}

/// A `continue` ends with a jump to where the innermost loop goes on, a `break` with one to behind
/// it.
pub proof fn law_jumps_out_of_loops(s: State, k: Nested, x: StmtView)
    requires
        x is Continue || x is Break,
        stmt_step(s, k, x).0 is Ok,
        writable(stmt_step(s, k, x).1.out.cur),
    ensures
        ({
            let cur = stmt_step(s, k, x).1.out.cur;
            let c = s.fun.loops.last();
            &&& s.fun.loops.len() > 0
            &&& cur.blocks[cur.at as int].insts.len() > 0
            &&& cur.blocks[cur.at as int].insts.last() == InstView::Br(
                if x is Continue {
                    c.continue_bb
                } else {
                    c.break_bb
                },
            )
        }),
{
    reveal(stmt_step);
    reveal(last_of);
    reveal(emit_value);
    reveal(emit);
}

} // verus!
