//! Which `break` statements leave a loop.
use crate::ast::{Block, Expr, MatchArm, Stmt};
use crate::collect::{lemma_cat_assoc, lemma_cat_empty};
use crate::model::{
    BlockView, ExprView, MatchArmView, StmtView, dup_stmt, expr_block_seq_view, expr_seq_view,
    match_arm_seq_view, stmt_seq_view, string_expr_seq_view,
};
use vstd::prelude::*;

verus! {

/// The `break` statements in a block that leave the loop around it, in their order.
#[verifier::opaque]
pub open spec fn breaks_block(x: BlockView) -> Seq<StmtView>
    decreases x,
{
    breaks_stmt_seq(x.stmts) + (
        match x.tail_expr { Some(y) => breaks_expr(*y), None => Seq::empty() }
    )
}

/// The `break` statements in a statement that leave the loop around it, in their order; the value
/// of
/// a `break` is not searched.
#[verifier::opaque]
pub open spec fn breaks_stmt(x: StmtView) -> Seq<StmtView>
    decreases x,
{
    match x {
        StmtView::Let { init, else_block, .. } => breaks_expr(init) + (
            match else_block { Some(y) => breaks_block(y), None => Seq::empty() }
        ),
        StmtView::Const { init, .. } => breaks_expr(init),
        StmtView::Expr(x0) => breaks_expr(x0),
        StmtView::Return { value, .. } => (
            match value { Some(y) => breaks_expr(*y), None => Seq::empty() }
        ),
        StmtView::Break { .. } => seq![x],
        _ => Seq::empty(),
    }
}

/// The `break` statements in an expression that leave the loop around it, in their order: those of
/// inner
/// loops leave only these.
#[verifier::opaque]
pub open spec fn breaks_expr(x: ExprView) -> Seq<StmtView>
    decreases x,
{
    match x {
        ExprView::Call { args, .. } => breaks_expr_seq(args),
        ExprView::QualifiedCall { args, .. } => breaks_expr_seq(args),
        ExprView::Binary { lhs, rhs, .. } => breaks_expr(*lhs) + breaks_expr(*rhs),
        ExprView::Assign { target, value, .. } => breaks_expr(*target) + breaks_expr(*value),
        ExprView::Ref { expr, .. } => breaks_expr(*expr),
        ExprView::UnaryNot(x0, _) => breaks_expr(*x0),
        ExprView::UnaryMinus(x0, _) => breaks_expr(*x0),
        ExprView::Deref(x0, _) => breaks_expr(*x0),
        ExprView::Cast { expr, .. } => breaks_expr(*expr),
        ExprView::Tuple(x0, _) => breaks_expr_seq(x0),
        ExprView::Member { expr, .. } => breaks_expr(*expr),
        ExprView::MethodCall { expr, args, .. } => breaks_expr(*expr) + breaks_expr_seq(args),
        ExprView::StructLit { fields, .. } => breaks_string_expr_seq(fields),
        ExprView::EnumLit { payload, .. } => (
            match payload { Some(y) => breaks_expr(*y), None => Seq::empty() }
        ),
        ExprView::If { cond, then_block, else_ifs, else_block, .. } => breaks_expr(*cond) + breaks_block(then_block) + breaks_expr_block_seq(else_ifs) + (
            match else_block { Some(y) => breaks_block(y), None => Seq::empty() }
        ),
        ExprView::Array(x0, _) => breaks_expr_seq(x0),
        ExprView::Repeat(x0, _, _) => breaks_expr(*x0),
        ExprView::Index { array, index, .. } => breaks_expr(*array) + breaks_expr(*index),
        ExprView::IfLet { scrutinee, then_block, else_block, .. } => breaks_expr(*scrutinee) + breaks_block(then_block) + (
            match else_block { Some(y) => breaks_block(y), None => Seq::empty() }
        ),
        ExprView::Match {
            scrutinee,
            arms,
            ..
        } => breaks_expr(*scrutinee) + breaks_match_arm_seq(arms),
        ExprView::Block(x0, _) => breaks_block(x0),
        _ => Seq::empty(),
    }
}

/// The `break` statements in an arm that leave the loop around it, in their order.
#[verifier::opaque]
pub open spec fn breaks_match_arm(x: MatchArmView) -> Seq<StmtView>
    decreases x,
{
    (match x.guard { Some(y) => breaks_expr(*y), None => Seq::empty() }) + breaks_block(x.body)
}

/// The same over all elements, in order.
#[verifier::opaque]
pub open spec fn breaks_stmt_seq(s: Seq<StmtView>) -> Seq<StmtView>
    decreases s,
{
    if s.len() == 0 {
        Seq::empty()
    } else {
        breaks_stmt_seq(s.drop_last()) + (breaks_stmt(s.last()))
    }
}

/// The same over all elements, in order.
#[verifier::opaque]
pub open spec fn breaks_expr_seq(s: Seq<ExprView>) -> Seq<StmtView>
    decreases s,
{
    if s.len() == 0 {
        Seq::empty()
    } else {
        breaks_expr_seq(s.drop_last()) + (breaks_expr(s.last()))
    }
}

/// The same over all elements, in order.
#[verifier::opaque]
pub open spec fn breaks_string_expr_seq(s: Seq<(Seq<char>, ExprView)>) -> Seq<StmtView>
    decreases s,
{
    if s.len() == 0 {
        Seq::empty()
    } else {
        breaks_string_expr_seq(s.drop_last()) + (breaks_expr(s.last().1))
    }
}

/// The same over all elements, in order.
#[verifier::opaque]
pub open spec fn breaks_expr_block_seq(s: Seq<(ExprView, BlockView)>) -> Seq<StmtView>
    decreases s,
{
    if s.len() == 0 {
        Seq::empty()
    } else {
        breaks_expr_block_seq(s.drop_last()) + (breaks_expr(s.last().0) + breaks_block(s.last().1))
    }
}

/// The same over all elements, in order.
#[verifier::opaque]
pub open spec fn breaks_match_arm_seq(s: Seq<MatchArmView>) -> Seq<StmtView>
    decreases s,
{
    if s.len() == 0 {
        Seq::empty()
    } else {
        breaks_match_arm_seq(s.drop_last()) + (breaks_match_arm(s.last()))
    }
}

/// Appends a statement to a list.
fn push_break(x: &Stmt, out: &mut Vec<Stmt>)
    ensures
        stmt_seq_view(final(out)@) == stmt_seq_view(old(out)@) + seq![x@],
{
    out.push(dup_stmt(x));
    proof {
        assert(stmt_seq_view(out@) =~= stmt_seq_view(old(out)@) + seq![x@]);
    }
}

/// The `break` statements in a block that leave the loop around it, in their order.
pub fn find_loop_breaks(x: &Block, out: &mut Vec<Stmt>)
    ensures
        stmt_seq_view(final(out)@) == stmt_seq_view(old(out)@) + breaks_block(x@),
    decreases x,
{
    proof {
        reveal(breaks_block);
        reveal(breaks_expr);
        reveal(breaks_expr_block_seq);
        reveal(breaks_expr_seq);
        reveal(breaks_match_arm);
        reveal(breaks_match_arm_seq);
        reveal(breaks_stmt);
        reveal(breaks_stmt_seq);
        reveal(breaks_string_expr_seq);
    }
    proof {
        let o = stmt_seq_view(out@);
        let v = x@;
        lemma_cat_empty(o + (breaks_stmt_seq(v.stmts)));
        lemma_cat_assoc(
            o,
            breaks_stmt_seq(v.stmts),
            (match v.tail_expr { Some(y) => breaks_expr(*y), None => Seq::empty() }),
        );
    }
    find_breaks_stmt_seq(&x.stmts, out);
    match &x.tail_expr {
        Some(y) => {
            find_expr_breaks(y, out);
        },
        None => {},
    }
}

/// The `break` statements in a statement that leave the loop around it, in their order; the value
/// of
/// a `break` is not searched.
pub fn find_stmt_breaks(x: &Stmt, out: &mut Vec<Stmt>)
    ensures
        stmt_seq_view(final(out)@) == stmt_seq_view(old(out)@) + breaks_stmt(x@),
    decreases x,
{
    proof {
        reveal(breaks_block);
        reveal(breaks_expr);
        reveal(breaks_expr_block_seq);
        reveal(breaks_expr_seq);
        reveal(breaks_match_arm);
        reveal(breaks_match_arm_seq);
        reveal(breaks_stmt);
        reveal(breaks_stmt_seq);
        reveal(breaks_string_expr_seq);
    }
    proof {
        let o = stmt_seq_view(out@);
        lemma_cat_empty(o);
        match x@ {
            StmtView::Let { init, else_block, .. } => {
                lemma_cat_empty(o + (breaks_expr(init)));
                lemma_cat_assoc(
                    o,
                    breaks_expr(init),
                    (match else_block { Some(y) => breaks_block(y), None => Seq::empty() }),
                );
            },
            StmtView::Return { value, .. } => {
                lemma_cat_empty(o);
            },
            _ => {},
        }
    }
    match x {
        Stmt::Let { init, else_block, .. } => {
            find_expr_breaks(init, out);
            match else_block {
                Some(y) => {
                    find_loop_breaks(y, out);
                },
                None => {},
            }
        },
        Stmt::Const { init, .. } => {
            find_expr_breaks(init, out);
        },
        Stmt::Expr(x0) => {
            find_expr_breaks(x0, out);
        },
        Stmt::Return { value, .. } => {
            match value {
                Some(y) => {
                    find_expr_breaks(y, out);
                },
                None => {},
            }
        },
        Stmt::Break { .. } => push_break(x, out),
        _ => {},
    }
}

/// The `break` statements in an expression that leave the loop around it, in their order: those of
/// inner
/// loops leave only these.
pub fn find_expr_breaks(x: &Expr, out: &mut Vec<Stmt>)
    ensures
        stmt_seq_view(final(out)@) == stmt_seq_view(old(out)@) + breaks_expr(x@),
    decreases x,
{
    proof {
        reveal(breaks_block);
        reveal(breaks_expr);
        reveal(breaks_expr_block_seq);
        reveal(breaks_expr_seq);
        reveal(breaks_match_arm);
        reveal(breaks_match_arm_seq);
        reveal(breaks_stmt);
        reveal(breaks_stmt_seq);
        reveal(breaks_string_expr_seq);
    }
    proof {
        let o = stmt_seq_view(out@);
        lemma_cat_empty(o);
        match x@ {
            ExprView::Binary { lhs, rhs, .. } => {
                lemma_cat_assoc(o, breaks_expr(*lhs), breaks_expr(*rhs));
            },
            ExprView::Assign { target, value, .. } => {
                lemma_cat_assoc(o, breaks_expr(*target), breaks_expr(*value));
            },
            ExprView::MethodCall { expr, args, .. } => {
                lemma_cat_assoc(o, breaks_expr(*expr), breaks_expr_seq(args));
            },
            ExprView::EnumLit { payload, .. } => {
                lemma_cat_empty(o);
            },
            ExprView::If { cond, then_block, else_ifs, else_block, .. } => {
                lemma_cat_assoc(o, breaks_expr(*cond), breaks_block(then_block));
                lemma_cat_assoc(
                    o,
                    breaks_expr(*cond) + breaks_block(then_block),
                    breaks_expr_block_seq(else_ifs),
                );
                lemma_cat_empty(
                    o
                        + (breaks_expr(*cond) + breaks_block(then_block) + breaks_expr_block_seq(else_ifs)),
                );
                lemma_cat_assoc(
                    o,
                    breaks_expr(*cond) + breaks_block(then_block) + breaks_expr_block_seq(else_ifs),
                    (match else_block { Some(y) => breaks_block(y), None => Seq::empty() }),
                );
            },
            ExprView::Index { array, index, .. } => {
                lemma_cat_assoc(o, breaks_expr(*array), breaks_expr(*index));
            },
            ExprView::IfLet { scrutinee, then_block, else_block, .. } => {
                lemma_cat_assoc(o, breaks_expr(*scrutinee), breaks_block(then_block));
                lemma_cat_empty(o + (breaks_expr(*scrutinee) + breaks_block(then_block)));
                lemma_cat_assoc(
                    o,
                    breaks_expr(*scrutinee) + breaks_block(then_block),
                    (match else_block { Some(y) => breaks_block(y), None => Seq::empty() }),
                );
            },
            ExprView::Match { scrutinee, arms, .. } => {
                lemma_cat_assoc(o, breaks_expr(*scrutinee), breaks_match_arm_seq(arms));
            },
            _ => {},
        }
    }
    match x {
        Expr::Call { args, .. } => {
            find_breaks_expr_seq(args, out);
        },
        Expr::QualifiedCall { args, .. } => {
            find_breaks_expr_seq(args, out);
        },
        Expr::Binary { lhs, rhs, .. } => {
            find_expr_breaks(lhs, out);
            find_expr_breaks(rhs, out);
        },
        Expr::Assign { target, value, .. } => {
            find_expr_breaks(target, out);
            find_expr_breaks(value, out);
        },
        Expr::Ref { expr, .. } => {
            find_expr_breaks(expr, out);
        },
        Expr::UnaryNot(x0, _) => {
            find_expr_breaks(x0, out);
        },
        Expr::UnaryMinus(x0, _) => {
            find_expr_breaks(x0, out);
        },
        Expr::Deref(x0, _) => {
            find_expr_breaks(x0, out);
        },
        Expr::Cast { expr, .. } => {
            find_expr_breaks(expr, out);
        },
        Expr::Tuple(x0, _) => {
            find_breaks_expr_seq(x0, out);
        },
        Expr::Member { expr, .. } => {
            find_expr_breaks(expr, out);
        },
        Expr::MethodCall { expr, args, .. } => {
            find_expr_breaks(expr, out);
            find_breaks_expr_seq(args, out);
        },
        Expr::StructLit { fields, .. } => {
            find_breaks_string_expr_seq(fields, out);
        },
        Expr::EnumLit { payload, .. } => {
            match payload {
                Some(y) => {
                    find_expr_breaks(y, out);
                },
                None => {},
            }
        },
        Expr::If { cond, then_block, else_ifs, else_block, .. } => {
            find_expr_breaks(cond, out);
            find_loop_breaks(then_block, out);
            find_breaks_expr_block_seq(else_ifs, out);
            match else_block {
                Some(y) => {
                    find_loop_breaks(y, out);
                },
                None => {},
            }
        },
        Expr::Array(x0, _) => {
            find_breaks_expr_seq(x0, out);
        },
        Expr::Repeat(x0, _, _) => {
            find_expr_breaks(x0, out);
        },
        Expr::Index { array, index, .. } => {
            find_expr_breaks(array, out);
            find_expr_breaks(index, out);
        },
        Expr::IfLet { scrutinee, then_block, else_block, .. } => {
            find_expr_breaks(scrutinee, out);
            find_loop_breaks(then_block, out);
            match else_block {
                Some(y) => {
                    find_loop_breaks(y, out);
                },
                None => {},
            }
        },
        Expr::Match { scrutinee, arms, .. } => {
            find_expr_breaks(scrutinee, out);
            find_breaks_match_arm_seq(arms, out);
        },
        Expr::Block(x0, _) => {
            find_loop_breaks(x0, out);
        },
        _ => {},
    }
}

/// The `break` statements in an arm that leave the loop around it, in their order.
pub fn find_arm_breaks(x: &MatchArm, out: &mut Vec<Stmt>)
    ensures
        stmt_seq_view(final(out)@) == stmt_seq_view(old(out)@) + breaks_match_arm(x@),
    decreases x,
{
    proof {
        reveal(breaks_block);
        reveal(breaks_expr);
        reveal(breaks_expr_block_seq);
        reveal(breaks_expr_seq);
        reveal(breaks_match_arm);
        reveal(breaks_match_arm_seq);
        reveal(breaks_stmt);
        reveal(breaks_stmt_seq);
        reveal(breaks_string_expr_seq);
    }
    proof {
        let o = stmt_seq_view(out@);
        let v = x@;
        lemma_cat_empty(o);
        lemma_cat_assoc(
            o,
            (match v.guard { Some(y) => breaks_expr(*y), None => Seq::empty() }),
            breaks_block(v.body),
        );
    }
    match &x.guard {
        Some(y) => {
            find_expr_breaks(y, out);
        },
        None => {},
    }
    find_loop_breaks(&x.body, out);
}

fn find_breaks_stmt_seq(v: &Vec<Stmt>, out: &mut Vec<Stmt>)
    ensures
        stmt_seq_view(final(out)@) == stmt_seq_view(old(out)@) + breaks_stmt_seq(stmt_seq_view(v@)),
    decreases v,
{
    proof {
        reveal(breaks_block);
        reveal(breaks_expr);
        reveal(breaks_expr_block_seq);
        reveal(breaks_expr_seq);
        reveal(breaks_match_arm);
        reveal(breaks_match_arm_seq);
        reveal(breaks_stmt);
        reveal(breaks_stmt_seq);
        reveal(breaks_string_expr_seq);
    }
    let ghost all = stmt_seq_view(v@);
    let ghost start = stmt_seq_view(out@);
    let mut i: usize = 0;
    proof {
        lemma_cat_empty(start);
    }
    while i < v.len()
        invariant
            i <= v@.len(),
            all == stmt_seq_view(v@),
            stmt_seq_view(out@) == start + breaks_stmt_seq(all.take(i as int)),
        decreases v@.len() - i,
    {
        proof {
            reveal(breaks_block);
            reveal(breaks_expr);
            reveal(breaks_expr_block_seq);
            reveal(breaks_expr_seq);
            reveal(breaks_match_arm);
            reveal(breaks_match_arm_seq);
            reveal(breaks_stmt);
            reveal(breaks_stmt_seq);
            reveal(breaks_string_expr_seq);
        }
        find_stmt_breaks(&v[i], out);
        proof {
            lemma_cat_assoc(start, breaks_stmt_seq(all.take(i as int)), breaks_stmt(all[i as int]));
            let t = all.take(i + 1);
            assert(t.drop_last() =~= all.take(i as int));
            assert(t.last() == all[i as int]);
        }
        i += 1;
    }
    proof {
        assert(all.take(i as int) =~= all);
    }
}

fn find_breaks_expr_seq(v: &Vec<Expr>, out: &mut Vec<Stmt>)
    ensures
        stmt_seq_view(final(out)@) == stmt_seq_view(old(out)@) + breaks_expr_seq(expr_seq_view(v@)),
    decreases v,
{
    proof {
        reveal(breaks_block);
        reveal(breaks_expr);
        reveal(breaks_expr_block_seq);
        reveal(breaks_expr_seq);
        reveal(breaks_match_arm);
        reveal(breaks_match_arm_seq);
        reveal(breaks_stmt);
        reveal(breaks_stmt_seq);
        reveal(breaks_string_expr_seq);
    }
    let ghost all = expr_seq_view(v@);
    let ghost start = stmt_seq_view(out@);
    let mut i: usize = 0;
    proof {
        lemma_cat_empty(start);
    }
    while i < v.len()
        invariant
            i <= v@.len(),
            all == expr_seq_view(v@),
            stmt_seq_view(out@) == start + breaks_expr_seq(all.take(i as int)),
        decreases v@.len() - i,
    {
        proof {
            reveal(breaks_block);
            reveal(breaks_expr);
            reveal(breaks_expr_block_seq);
            reveal(breaks_expr_seq);
            reveal(breaks_match_arm);
            reveal(breaks_match_arm_seq);
            reveal(breaks_stmt);
            reveal(breaks_stmt_seq);
            reveal(breaks_string_expr_seq);
        }
        find_expr_breaks(&v[i], out);
        proof {
            lemma_cat_assoc(start, breaks_expr_seq(all.take(i as int)), breaks_expr(all[i as int]));
            let t = all.take(i + 1);
            assert(t.drop_last() =~= all.take(i as int));
            assert(t.last() == all[i as int]);
        }
        i += 1;
    }
    proof {
        assert(all.take(i as int) =~= all);
    }
}

fn find_breaks_string_expr_seq(v: &Vec<(String, Expr)>, out: &mut Vec<Stmt>)
    ensures
        stmt_seq_view(final(out)@) == stmt_seq_view(old(out)@)
            + breaks_string_expr_seq(string_expr_seq_view(v@)),
    decreases v,
{
    proof {
        reveal(breaks_block);
        reveal(breaks_expr);
        reveal(breaks_expr_block_seq);
        reveal(breaks_expr_seq);
        reveal(breaks_match_arm);
        reveal(breaks_match_arm_seq);
        reveal(breaks_stmt);
        reveal(breaks_stmt_seq);
        reveal(breaks_string_expr_seq);
    }
    let ghost all = string_expr_seq_view(v@);
    let ghost start = stmt_seq_view(out@);
    let mut i: usize = 0;
    proof {
        lemma_cat_empty(start);
    }
    while i < v.len()
        invariant
            i <= v@.len(),
            all == string_expr_seq_view(v@),
            stmt_seq_view(out@) == start + breaks_string_expr_seq(all.take(i as int)),
        decreases v@.len() - i,
    {
        proof {
            reveal(breaks_block);
            reveal(breaks_expr);
            reveal(breaks_expr_block_seq);
            reveal(breaks_expr_seq);
            reveal(breaks_match_arm);
            reveal(breaks_match_arm_seq);
            reveal(breaks_stmt);
            reveal(breaks_stmt_seq);
            reveal(breaks_string_expr_seq);
        }
        find_expr_breaks(&v[i].1, out);
        proof {
            lemma_cat_assoc(
                start,
                breaks_string_expr_seq(all.take(i as int)),
                breaks_expr(all[i as int].1),
            );
            let t = all.take(i + 1);
            assert(t.drop_last() =~= all.take(i as int));
            assert(t.last() == all[i as int]);
        }
        i += 1;
    }
    proof {
        assert(all.take(i as int) =~= all);
    }
}

fn find_breaks_expr_block_seq(v: &Vec<(Expr, Block)>, out: &mut Vec<Stmt>)
    ensures
        stmt_seq_view(final(out)@) == stmt_seq_view(old(out)@)
            + breaks_expr_block_seq(expr_block_seq_view(v@)),
    decreases v,
{
    proof {
        reveal(breaks_block);
        reveal(breaks_expr);
        reveal(breaks_expr_block_seq);
        reveal(breaks_expr_seq);
        reveal(breaks_match_arm);
        reveal(breaks_match_arm_seq);
        reveal(breaks_stmt);
        reveal(breaks_stmt_seq);
        reveal(breaks_string_expr_seq);
    }
    let ghost all = expr_block_seq_view(v@);
    let ghost start = stmt_seq_view(out@);
    let mut i: usize = 0;
    proof {
        lemma_cat_empty(start);
    }
    while i < v.len()
        invariant
            i <= v@.len(),
            all == expr_block_seq_view(v@),
            stmt_seq_view(out@) == start + breaks_expr_block_seq(all.take(i as int)),
        decreases v@.len() - i,
    {
        proof {
            reveal(breaks_block);
            reveal(breaks_expr);
            reveal(breaks_expr_block_seq);
            reveal(breaks_expr_seq);
            reveal(breaks_match_arm);
            reveal(breaks_match_arm_seq);
            reveal(breaks_stmt);
            reveal(breaks_stmt_seq);
            reveal(breaks_string_expr_seq);
        }
        find_expr_breaks(&v[i].0, out);
        find_loop_breaks(&v[i].1, out);
        proof {
            lemma_cat_assoc(
                start,
                breaks_expr_block_seq(all.take(i as int)),
                breaks_expr(all[i as int].0) + breaks_block(all[i as int].1),
            );
            lemma_cat_assoc(
                start + breaks_expr_block_seq(all.take(i as int)),
                breaks_expr(all[i as int].0),
                breaks_block(all[i as int].1),
            );
            let t = all.take(i + 1);
            assert(t.drop_last() =~= all.take(i as int));
            assert(t.last() == all[i as int]);
        }
        i += 1;
    }
    proof {
        assert(all.take(i as int) =~= all);
    }
}

fn find_breaks_match_arm_seq(v: &Vec<MatchArm>, out: &mut Vec<Stmt>)
    ensures
        stmt_seq_view(final(out)@) == stmt_seq_view(old(out)@)
            + breaks_match_arm_seq(match_arm_seq_view(v@)),
    decreases v,
{
    proof {
        reveal(breaks_block);
        reveal(breaks_expr);
        reveal(breaks_expr_block_seq);
        reveal(breaks_expr_seq);
        reveal(breaks_match_arm);
        reveal(breaks_match_arm_seq);
        reveal(breaks_stmt);
        reveal(breaks_stmt_seq);
        reveal(breaks_string_expr_seq);
    }
    let ghost all = match_arm_seq_view(v@);
    let ghost start = stmt_seq_view(out@);
    let mut i: usize = 0;
    proof {
        lemma_cat_empty(start);
    }
    while i < v.len()
        invariant
            i <= v@.len(),
            all == match_arm_seq_view(v@),
            stmt_seq_view(out@) == start + breaks_match_arm_seq(all.take(i as int)),
        decreases v@.len() - i,
    {
        proof {
            reveal(breaks_block);
            reveal(breaks_expr);
            reveal(breaks_expr_block_seq);
            reveal(breaks_expr_seq);
            reveal(breaks_match_arm);
            reveal(breaks_match_arm_seq);
            reveal(breaks_stmt);
            reveal(breaks_stmt_seq);
            reveal(breaks_string_expr_seq);
        }
        find_arm_breaks(&v[i], out);
        proof {
            lemma_cat_assoc(
                start,
                breaks_match_arm_seq(all.take(i as int)),
                breaks_match_arm(all[i as int]),
            );
            let t = all.take(i + 1);
            assert(t.drop_last() =~= all.take(i as int));
            assert(t.last() == all[i as int]);
        }
        i += 1;
    }
    proof {
        assert(all.take(i as int) =~= all);
    }
}

} // verus!
