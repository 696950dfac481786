//! What holds of the `break` statements of a loop.
use crate::breaks::{
    breaks_block, breaks_expr, breaks_expr_block_seq, breaks_expr_seq, breaks_match_arm,
    breaks_match_arm_seq, breaks_stmt, breaks_stmt_seq, breaks_string_expr_seq,
};
use crate::collect::{lemma_cat_assoc, lemma_cat_empty};
use crate::infer::{
    brk_block, brk_expr, brk_expr_block_seq, brk_expr_seq, brk_match_arm, brk_match_arm_seq,
    brk_stmt, brk_stmt_seq, brk_string_expr_seq, ty_of,
};
use crate::literal::{
    break_lit_block, break_lit_expr, break_lit_expr_block_seq, break_lit_expr_seq,
    break_lit_match_arm, break_lit_match_arm_seq, break_lit_stmt, break_lit_stmt_seq,
    break_lit_string_expr_seq, lit_type, or_type,
};
use crate::model::{BlockView, ExprView, MatchArmView, StmtView, TypeView};
use crate::state::State;
use vstd::prelude::*;

verus! {

/// The type of the first `break` that is found for a loop is that of the first of all that leave
/// it.
pub proof fn law_first_break(s: State, body: BlockView)
    ensures
        break_lit_block(body) == first_break_lit(breaks_block(body)),
        brk_block(s, body) == first_brk(s, breaks_block(body)),
{
    lemma_break_lit_block(body);
    lemma_brk_block(s, body);
}

/// The type of the value of the first of some `break` statements, by its syntax alone.
pub open spec fn first_break_lit(l: Seq<StmtView>) -> Option<TypeView> {
    if l.len() == 0 {
        None
    } else {
        match l[0] {
            StmtView::Break { value: Some(v), .. } => Some(lit_type(*v)),
            _ => Some(TypeView::Unit),
        }
    }
}

proof fn lemma_first_break_lit_cat(a: Seq<StmtView>, b: Seq<StmtView>)
    ensures
        first_break_lit(a + b) == or_type(first_break_lit(a), first_break_lit(b)),
{
    if a.len() == 0 {
        assert(a + b =~= b);
    } else {
        assert((a + b)[0] == a[0]);
    }
}

proof fn lemma_break_lit_block(x: BlockView)
    ensures
        break_lit_block(x) == first_break_lit(breaks_block(x)),
    decreases x,
{
    reveal(breaks_block);
    reveal(breaks_expr);
    reveal(breaks_expr_block_seq);
    reveal(breaks_expr_seq);
    reveal(breaks_match_arm);
    reveal(breaks_match_arm_seq);
    reveal(breaks_stmt);
    reveal(breaks_stmt_seq);
    reveal(breaks_string_expr_seq);
    lemma_break_lit_stmt_seq(x.stmts);
    if let Some(y) = x.tail_expr {
        lemma_break_lit_expr(*y);
    }
    lemma_first_break_lit_cat(
        breaks_stmt_seq(x.stmts),
        ( match x.tail_expr { Some(y) => breaks_expr(*y), None => Seq::empty() } ),
    );
}

proof fn lemma_break_lit_stmt(x: StmtView)
    ensures
        break_lit_stmt(x) == first_break_lit(breaks_stmt(x)),
    decreases x,
{
    reveal(breaks_block);
    reveal(breaks_expr);
    reveal(breaks_expr_block_seq);
    reveal(breaks_expr_seq);
    reveal(breaks_match_arm);
    reveal(breaks_match_arm_seq);
    reveal(breaks_stmt);
    reveal(breaks_stmt_seq);
    reveal(breaks_string_expr_seq);
    match x {
        StmtView::Let { init, else_block, .. } => {
            lemma_break_lit_expr(init);
            if let Some(y) = else_block {
                lemma_break_lit_block(y);
            }
            lemma_first_break_lit_cat(
                breaks_expr(init),
                ( match else_block { Some(y) => breaks_block(y), None => Seq::empty() } ),
            );
        },
        StmtView::Const { init, .. } => {
            lemma_break_lit_expr(init);
        },
        StmtView::Expr(x0) => {
            lemma_break_lit_expr(x0);
        },
        StmtView::Return { value, .. } => {
            if let Some(y) = value {
                lemma_break_lit_expr(*y);
            }
        },
        _ => {},
    }
}

proof fn lemma_break_lit_expr(x: ExprView)
    ensures
        break_lit_expr(x) == first_break_lit(breaks_expr(x)),
    decreases x,
{
    reveal(breaks_block);
    reveal(breaks_expr);
    reveal(breaks_expr_block_seq);
    reveal(breaks_expr_seq);
    reveal(breaks_match_arm);
    reveal(breaks_match_arm_seq);
    reveal(breaks_stmt);
    reveal(breaks_stmt_seq);
    reveal(breaks_string_expr_seq);
    match x {
        ExprView::Call { args, .. } => {
            lemma_break_lit_expr_seq(args);
        },
        ExprView::QualifiedCall { args, .. } => {
            lemma_break_lit_expr_seq(args);
        },
        ExprView::Binary { lhs, rhs, .. } => {
            lemma_break_lit_expr(*lhs);
            lemma_break_lit_expr(*rhs);
            lemma_first_break_lit_cat(breaks_expr(*lhs), breaks_expr(*rhs));
        },
        ExprView::Assign { target, value, .. } => {
            lemma_break_lit_expr(*target);
            lemma_break_lit_expr(*value);
            lemma_first_break_lit_cat(breaks_expr(*target), breaks_expr(*value));
        },
        ExprView::Ref { expr, .. } => {
            lemma_break_lit_expr(*expr);
        },
        ExprView::UnaryNot(x0, _) => {
            lemma_break_lit_expr(*x0);
        },
        ExprView::UnaryMinus(x0, _) => {
            lemma_break_lit_expr(*x0);
        },
        ExprView::Deref(x0, _) => {
            lemma_break_lit_expr(*x0);
        },
        ExprView::Cast { expr, .. } => {
            lemma_break_lit_expr(*expr);
        },
        ExprView::Tuple(x0, _) => {
            lemma_break_lit_expr_seq(x0);
        },
        ExprView::Member { expr, .. } => {
            lemma_break_lit_expr(*expr);
        },
        ExprView::MethodCall { expr, args, .. } => {
            lemma_break_lit_expr(*expr);
            lemma_break_lit_expr_seq(args);
            lemma_first_break_lit_cat(breaks_expr(*expr), breaks_expr_seq(args));
        },
        ExprView::StructLit { fields, .. } => {
            lemma_break_lit_string_expr_seq(fields);
        },
        ExprView::EnumLit { payload, .. } => {
            if let Some(y) = payload {
                lemma_break_lit_expr(*y);
            }
        },
        ExprView::If { cond, then_block, else_ifs, else_block, .. } => {
            lemma_break_lit_expr(*cond);
            lemma_break_lit_block(then_block);
            lemma_break_lit_expr_block_seq(else_ifs);
            if let Some(y) = else_block {
                lemma_break_lit_block(y);
            }
            lemma_first_break_lit_cat(breaks_expr(*cond), breaks_block(then_block));
            lemma_first_break_lit_cat(
                breaks_expr(*cond) + breaks_block(then_block),
                breaks_expr_block_seq(else_ifs),
            );
            lemma_first_break_lit_cat(
                breaks_expr(*cond) + breaks_block(then_block) + breaks_expr_block_seq(else_ifs),
                ( match else_block { Some(y) => breaks_block(y), None => Seq::empty() } ),
            );
        },
        ExprView::Array(x0, _) => {
            lemma_break_lit_expr_seq(x0);
        },
        ExprView::Repeat(x0, _, _) => {
            lemma_break_lit_expr(*x0);
        },
        ExprView::Index { array, index, .. } => {
            lemma_break_lit_expr(*array);
            lemma_break_lit_expr(*index);
            lemma_first_break_lit_cat(breaks_expr(*array), breaks_expr(*index));
        },
        ExprView::IfLet { scrutinee, then_block, else_block, .. } => {
            lemma_break_lit_expr(*scrutinee);
            lemma_break_lit_block(then_block);
            if let Some(y) = else_block {
                lemma_break_lit_block(y);
            }
            lemma_first_break_lit_cat(breaks_expr(*scrutinee), breaks_block(then_block));
            lemma_first_break_lit_cat(
                breaks_expr(*scrutinee) + breaks_block(then_block),
                ( match else_block { Some(y) => breaks_block(y), None => Seq::empty() } ),
            );
        },
        ExprView::Match { scrutinee, arms, .. } => {
            lemma_break_lit_expr(*scrutinee);
            lemma_break_lit_match_arm_seq(arms);
            lemma_first_break_lit_cat(breaks_expr(*scrutinee), breaks_match_arm_seq(arms));
        },
        ExprView::Block(x0, _) => {
            lemma_break_lit_block(x0);
        },
        _ => {},
    }
}

proof fn lemma_break_lit_match_arm(x: MatchArmView)
    ensures
        break_lit_match_arm(x) == first_break_lit(breaks_match_arm(x)),
    decreases x,
{
    reveal(breaks_block);
    reveal(breaks_expr);
    reveal(breaks_expr_block_seq);
    reveal(breaks_expr_seq);
    reveal(breaks_match_arm);
    reveal(breaks_match_arm_seq);
    reveal(breaks_stmt);
    reveal(breaks_stmt_seq);
    reveal(breaks_string_expr_seq);
    if let Some(y) = x.guard {
        lemma_break_lit_expr(*y);
    }
    lemma_break_lit_block(x.body);
    lemma_first_break_lit_cat(
        (match x.guard { Some(y) => breaks_expr(*y), None => Seq::empty() }),
        breaks_block(x.body),
    );
}

proof fn lemma_front_expr_block_seq(s: Seq<(ExprView, BlockView)>)
    requires
        s.len() > 0,
    ensures
        breaks_expr_block_seq(s) == (breaks_expr(s[0].0) + breaks_block(s[0].1))
            + breaks_expr_block_seq(s.drop_first()),
    decreases s.len(),
{
    reveal(breaks_block);reveal(breaks_expr);reveal(breaks_expr_block_seq);reveal(breaks_expr_seq);reveal(breaks_match_arm);reveal(breaks_match_arm_seq);reveal(breaks_stmt);reveal(breaks_stmt_seq);reveal(breaks_string_expr_seq);
    if s.len() == 1 {
        assert(s.drop_last() =~= Seq::empty());
        assert(s.drop_first() =~= Seq::empty());
        lemma_cat_empty(breaks_expr(s[0].0) + breaks_block(s[0].1));
        assert(Seq::<StmtView>::empty() + (breaks_expr(s[0].0) + breaks_block(s[0].1)) =~= breaks_expr(s[0].0) + breaks_block(s[0].1));
    } else {
        let init = s.drop_last();
        let rest = s.drop_first();
        lemma_front_expr_block_seq(init);
        assert(init.drop_first() =~= rest.drop_last());
        assert(rest.last() == s.last());
        lemma_cat_assoc(
            breaks_expr(s[0].0) + breaks_block(s[0].1),
            breaks_expr_block_seq(rest.drop_last()),
            breaks_expr_block_seq(s).skip(breaks_expr_block_seq(init).len() as int),
        );
        assert(breaks_expr_block_seq(s) =~= (breaks_expr(s[0].0) + breaks_block(s[0].1)) + breaks_expr_block_seq(rest));
    }
}

proof fn lemma_break_lit_expr_block_seq(s: Seq<(ExprView, BlockView)>)
    ensures
        break_lit_expr_block_seq(s) == first_break_lit(breaks_expr_block_seq(s)),
    decreases s,
{
    reveal(breaks_block);
    reveal(breaks_expr);
    reveal(breaks_expr_block_seq);
    reveal(breaks_expr_seq);
    reveal(breaks_match_arm);
    reveal(breaks_match_arm_seq);
    reveal(breaks_stmt);
    reveal(breaks_stmt_seq);
    reveal(breaks_string_expr_seq);
    if s.len() > 0 {
        lemma_break_lit_expr(s[0].0);
        lemma_break_lit_block(s[0].1);
        lemma_first_break_lit_cat(breaks_expr(s[0].0), breaks_block(s[0].1));
        lemma_break_lit_expr_block_seq(s.drop_first());
        lemma_front_expr_block_seq(s);
        lemma_first_break_lit_cat(
            breaks_expr(s[0].0) + breaks_block(s[0].1),
            breaks_expr_block_seq(s.drop_first()),
        );
    }
}

proof fn lemma_front_expr_seq(s: Seq<ExprView>)
    requires
        s.len() > 0,
    ensures
        breaks_expr_seq(s) == (breaks_expr(s[0])) + breaks_expr_seq(s.drop_first()),
    decreases s.len(),
{
    reveal(breaks_block);reveal(breaks_expr);reveal(breaks_expr_block_seq);reveal(breaks_expr_seq);reveal(breaks_match_arm);reveal(breaks_match_arm_seq);reveal(breaks_stmt);reveal(breaks_stmt_seq);reveal(breaks_string_expr_seq);
    if s.len() == 1 {
        assert(s.drop_last() =~= Seq::empty());
        assert(s.drop_first() =~= Seq::empty());
        lemma_cat_empty(breaks_expr(s[0]));
        assert(Seq::<StmtView>::empty() + (breaks_expr(s[0])) =~= breaks_expr(s[0]));
    } else {
        let init = s.drop_last();
        let rest = s.drop_first();
        lemma_front_expr_seq(init);
        assert(init.drop_first() =~= rest.drop_last());
        assert(rest.last() == s.last());
        lemma_cat_assoc(
            breaks_expr(s[0]),
            breaks_expr_seq(rest.drop_last()),
            breaks_expr_seq(s).skip(breaks_expr_seq(init).len() as int),
        );
        assert(breaks_expr_seq(s) =~= (breaks_expr(s[0])) + breaks_expr_seq(rest));
    }
}

proof fn lemma_break_lit_expr_seq(s: Seq<ExprView>)
    ensures
        break_lit_expr_seq(s) == first_break_lit(breaks_expr_seq(s)),
    decreases s,
{
    reveal(breaks_block);
    reveal(breaks_expr);
    reveal(breaks_expr_block_seq);
    reveal(breaks_expr_seq);
    reveal(breaks_match_arm);
    reveal(breaks_match_arm_seq);
    reveal(breaks_stmt);
    reveal(breaks_stmt_seq);
    reveal(breaks_string_expr_seq);
    if s.len() > 0 {
        lemma_break_lit_expr(s[0]);
        lemma_break_lit_expr_seq(s.drop_first());
        lemma_front_expr_seq(s);
        lemma_first_break_lit_cat(breaks_expr(s[0]), breaks_expr_seq(s.drop_first()));
    }
}

proof fn lemma_front_match_arm_seq(s: Seq<MatchArmView>)
    requires
        s.len() > 0,
    ensures
        breaks_match_arm_seq(s) == (breaks_match_arm(s[0])) + breaks_match_arm_seq(s.drop_first()),
    decreases s.len(),
{
    reveal(breaks_block);reveal(breaks_expr);reveal(breaks_expr_block_seq);reveal(breaks_expr_seq);reveal(breaks_match_arm);reveal(breaks_match_arm_seq);reveal(breaks_stmt);reveal(breaks_stmt_seq);reveal(breaks_string_expr_seq);
    if s.len() == 1 {
        assert(s.drop_last() =~= Seq::empty());
        assert(s.drop_first() =~= Seq::empty());
        lemma_cat_empty(breaks_match_arm(s[0]));
        assert(Seq::<StmtView>::empty() + (breaks_match_arm(s[0])) =~= breaks_match_arm(s[0]));
    } else {
        let init = s.drop_last();
        let rest = s.drop_first();
        lemma_front_match_arm_seq(init);
        assert(init.drop_first() =~= rest.drop_last());
        assert(rest.last() == s.last());
        lemma_cat_assoc(
            breaks_match_arm(s[0]),
            breaks_match_arm_seq(rest.drop_last()),
            breaks_match_arm_seq(s).skip(breaks_match_arm_seq(init).len() as int),
        );
        assert(breaks_match_arm_seq(s) =~= (breaks_match_arm(s[0])) + breaks_match_arm_seq(rest));
    }
}

proof fn lemma_break_lit_match_arm_seq(s: Seq<MatchArmView>)
    ensures
        break_lit_match_arm_seq(s) == first_break_lit(breaks_match_arm_seq(s)),
    decreases s,
{
    reveal(breaks_block);
    reveal(breaks_expr);
    reveal(breaks_expr_block_seq);
    reveal(breaks_expr_seq);
    reveal(breaks_match_arm);
    reveal(breaks_match_arm_seq);
    reveal(breaks_stmt);
    reveal(breaks_stmt_seq);
    reveal(breaks_string_expr_seq);
    if s.len() > 0 {
        lemma_break_lit_match_arm(s[0]);
        lemma_break_lit_match_arm_seq(s.drop_first());
        lemma_front_match_arm_seq(s);
        lemma_first_break_lit_cat(breaks_match_arm(s[0]), breaks_match_arm_seq(s.drop_first()));
    }
}

proof fn lemma_front_stmt_seq(s: Seq<StmtView>)
    requires
        s.len() > 0,
    ensures
        breaks_stmt_seq(s) == (breaks_stmt(s[0])) + breaks_stmt_seq(s.drop_first()),
    decreases s.len(),
{
    reveal(breaks_block);reveal(breaks_expr);reveal(breaks_expr_block_seq);reveal(breaks_expr_seq);reveal(breaks_match_arm);reveal(breaks_match_arm_seq);reveal(breaks_stmt);reveal(breaks_stmt_seq);reveal(breaks_string_expr_seq);
    if s.len() == 1 {
        assert(s.drop_last() =~= Seq::empty());
        assert(s.drop_first() =~= Seq::empty());
        lemma_cat_empty(breaks_stmt(s[0]));
        assert(Seq::<StmtView>::empty() + (breaks_stmt(s[0])) =~= breaks_stmt(s[0]));
    } else {
        let init = s.drop_last();
        let rest = s.drop_first();
        lemma_front_stmt_seq(init);
        assert(init.drop_first() =~= rest.drop_last());
        assert(rest.last() == s.last());
        lemma_cat_assoc(
            breaks_stmt(s[0]),
            breaks_stmt_seq(rest.drop_last()),
            breaks_stmt_seq(s).skip(breaks_stmt_seq(init).len() as int),
        );
        assert(breaks_stmt_seq(s) =~= (breaks_stmt(s[0])) + breaks_stmt_seq(rest));
    }
}

proof fn lemma_break_lit_stmt_seq(s: Seq<StmtView>)
    ensures
        break_lit_stmt_seq(s) == first_break_lit(breaks_stmt_seq(s)),
    decreases s,
{
    reveal(breaks_block);
    reveal(breaks_expr);
    reveal(breaks_expr_block_seq);
    reveal(breaks_expr_seq);
    reveal(breaks_match_arm);
    reveal(breaks_match_arm_seq);
    reveal(breaks_stmt);
    reveal(breaks_stmt_seq);
    reveal(breaks_string_expr_seq);
    if s.len() > 0 {
        lemma_break_lit_stmt(s[0]);
        lemma_break_lit_stmt_seq(s.drop_first());
        lemma_front_stmt_seq(s);
        lemma_first_break_lit_cat(breaks_stmt(s[0]), breaks_stmt_seq(s.drop_first()));
    }
}

proof fn lemma_front_string_expr_seq(s: Seq<(Seq<char>, ExprView)>)
    requires
        s.len() > 0,
    ensures
        breaks_string_expr_seq(s) == (breaks_expr(s[0].1)) + breaks_string_expr_seq(s.drop_first()),
    decreases s.len(),
{
    reveal(breaks_block);reveal(breaks_expr);reveal(breaks_expr_block_seq);reveal(breaks_expr_seq);reveal(breaks_match_arm);reveal(breaks_match_arm_seq);reveal(breaks_stmt);reveal(breaks_stmt_seq);reveal(breaks_string_expr_seq);
    if s.len() == 1 {
        assert(s.drop_last() =~= Seq::empty());
        assert(s.drop_first() =~= Seq::empty());
        lemma_cat_empty(breaks_expr(s[0].1));
        assert(Seq::<StmtView>::empty() + (breaks_expr(s[0].1)) =~= breaks_expr(s[0].1));
    } else {
        let init = s.drop_last();
        let rest = s.drop_first();
        lemma_front_string_expr_seq(init);
        assert(init.drop_first() =~= rest.drop_last());
        assert(rest.last() == s.last());
        lemma_cat_assoc(
            breaks_expr(s[0].1),
            breaks_string_expr_seq(rest.drop_last()),
            breaks_string_expr_seq(s).skip(breaks_string_expr_seq(init).len() as int),
        );
        assert(breaks_string_expr_seq(s) =~= (breaks_expr(s[0].1)) + breaks_string_expr_seq(rest));
    }
}

proof fn lemma_break_lit_string_expr_seq(s: Seq<(Seq<char>, ExprView)>)
    ensures
        break_lit_string_expr_seq(s) == first_break_lit(breaks_string_expr_seq(s)),
    decreases s,
{
    reveal(breaks_block);
    reveal(breaks_expr);
    reveal(breaks_expr_block_seq);
    reveal(breaks_expr_seq);
    reveal(breaks_match_arm);
    reveal(breaks_match_arm_seq);
    reveal(breaks_stmt);
    reveal(breaks_stmt_seq);
    reveal(breaks_string_expr_seq);
    if s.len() > 0 {
        lemma_break_lit_expr(s[0].1);
        lemma_break_lit_string_expr_seq(s.drop_first());
        lemma_front_string_expr_seq(s);
        lemma_first_break_lit_cat(breaks_expr(s[0].1), breaks_string_expr_seq(s.drop_first()));
    }
}

/// The type of the value of the first of some `break` statements.
pub open spec fn first_brk(s: State, l: Seq<StmtView>) -> Option<TypeView> {
    if l.len() == 0 {
        None
    } else {
        match l[0] {
            StmtView::Break { value: Some(v), .. } => Some(ty_of(s, *v)),
            _ => Some(TypeView::Unit),
        }
    }
}

proof fn lemma_first_brk_cat(s: State, a: Seq<StmtView>, b: Seq<StmtView>)
    ensures
        first_brk(s, a + b) == or_type(first_brk(s, a), first_brk(s, b)),
{
    if a.len() == 0 {
        assert(a + b =~= b);
    } else {
        assert((a + b)[0] == a[0]);
    }
}

proof fn lemma_brk_block(s: State, x: BlockView)
    ensures
        brk_block(s, x) == first_brk(s, breaks_block(x)),
    decreases x,
{
    reveal(breaks_block);
    reveal(breaks_expr);
    reveal(breaks_expr_block_seq);
    reveal(breaks_expr_seq);
    reveal(breaks_match_arm);
    reveal(breaks_match_arm_seq);
    reveal(breaks_stmt);
    reveal(breaks_stmt_seq);
    reveal(breaks_string_expr_seq);
    reveal(brk_block);
    reveal(brk_expr);
    reveal(brk_expr_block_seq);
    reveal(brk_expr_seq);
    reveal(brk_match_arm);
    reveal(brk_match_arm_seq);
    reveal(brk_stmt);
    reveal(brk_stmt_seq);
    reveal(brk_string_expr_seq);
    lemma_brk_stmt_seq(s, x.stmts);
    if let Some(y) = x.tail_expr {
        lemma_brk_expr(s, *y);
    }
    lemma_first_brk_cat(
        s,
        breaks_stmt_seq(x.stmts),
        ( match x.tail_expr { Some(y) => breaks_expr(*y), None => Seq::empty() } ),
    );
}

proof fn lemma_brk_stmt(s: State, x: StmtView)
    ensures
        brk_stmt(s, x) == first_brk(s, breaks_stmt(x)),
    decreases x,
{
    reveal(breaks_block);
    reveal(breaks_expr);
    reveal(breaks_expr_block_seq);
    reveal(breaks_expr_seq);
    reveal(breaks_match_arm);
    reveal(breaks_match_arm_seq);
    reveal(breaks_stmt);
    reveal(breaks_stmt_seq);
    reveal(breaks_string_expr_seq);
    reveal(brk_block);
    reveal(brk_expr);
    reveal(brk_expr_block_seq);
    reveal(brk_expr_seq);
    reveal(brk_match_arm);
    reveal(brk_match_arm_seq);
    reveal(brk_stmt);
    reveal(brk_stmt_seq);
    reveal(brk_string_expr_seq);
    match x {
        StmtView::Let { init, else_block, .. } => {
            lemma_brk_expr(s, init);
            if let Some(y) = else_block {
                lemma_brk_block(s, y);
            }
            lemma_first_brk_cat(
                s,
                breaks_expr(init),
                ( match else_block { Some(y) => breaks_block(y), None => Seq::empty() } ),
            );
        },
        StmtView::Const { init, .. } => {
            lemma_brk_expr(s, init);
        },
        StmtView::Expr(x0) => {
            lemma_brk_expr(s, x0);
        },
        StmtView::Return { value, .. } => {
            if let Some(y) = value {
                lemma_brk_expr(s, *y);
            }
        },
        _ => {},
    }
}

proof fn lemma_brk_expr(s: State, x: ExprView)
    ensures
        brk_expr(s, x) == first_brk(s, breaks_expr(x)),
    decreases x,
{
    reveal(breaks_block);
    reveal(breaks_expr);
    reveal(breaks_expr_block_seq);
    reveal(breaks_expr_seq);
    reveal(breaks_match_arm);
    reveal(breaks_match_arm_seq);
    reveal(breaks_stmt);
    reveal(breaks_stmt_seq);
    reveal(breaks_string_expr_seq);
    reveal(brk_block);
    reveal(brk_expr);
    reveal(brk_expr_block_seq);
    reveal(brk_expr_seq);
    reveal(brk_match_arm);
    reveal(brk_match_arm_seq);
    reveal(brk_stmt);
    reveal(brk_stmt_seq);
    reveal(brk_string_expr_seq);
    match x {
        ExprView::Call { args, .. } => {
            lemma_brk_expr_seq(s, args);
        },
        ExprView::QualifiedCall { args, .. } => {
            lemma_brk_expr_seq(s, args);
        },
        ExprView::Binary { lhs, rhs, .. } => {
            lemma_brk_expr(s, *lhs);
            lemma_brk_expr(s, *rhs);
            lemma_first_brk_cat(s, breaks_expr(*lhs), breaks_expr(*rhs));
        },
        ExprView::Assign { target, value, .. } => {
            lemma_brk_expr(s, *target);
            lemma_brk_expr(s, *value);
            lemma_first_brk_cat(s, breaks_expr(*target), breaks_expr(*value));
        },
        ExprView::Ref { expr, .. } => {
            lemma_brk_expr(s, *expr);
        },
        ExprView::UnaryNot(x0, _) => {
            lemma_brk_expr(s, *x0);
        },
        ExprView::UnaryMinus(x0, _) => {
            lemma_brk_expr(s, *x0);
        },
        ExprView::Deref(x0, _) => {
            lemma_brk_expr(s, *x0);
        },
        ExprView::Cast { expr, .. } => {
            lemma_brk_expr(s, *expr);
        },
        ExprView::Tuple(x0, _) => {
            lemma_brk_expr_seq(s, x0);
        },
        ExprView::Member { expr, .. } => {
            lemma_brk_expr(s, *expr);
        },
        ExprView::MethodCall { expr, args, .. } => {
            lemma_brk_expr(s, *expr);
            lemma_brk_expr_seq(s, args);
            lemma_first_brk_cat(s, breaks_expr(*expr), breaks_expr_seq(args));
        },
        ExprView::StructLit { fields, .. } => {
            lemma_brk_string_expr_seq(s, fields);
        },
        ExprView::EnumLit { payload, .. } => {
            if let Some(y) = payload {
                lemma_brk_expr(s, *y);
            }
        },
        ExprView::If { cond, then_block, else_ifs, else_block, .. } => {
            lemma_brk_expr(s, *cond);
            lemma_brk_block(s, then_block);
            lemma_brk_expr_block_seq(s, else_ifs);
            if let Some(y) = else_block {
                lemma_brk_block(s, y);
            }
            lemma_first_brk_cat(s, breaks_expr(*cond), breaks_block(then_block));
            lemma_first_brk_cat(
                s,
                breaks_expr(*cond) + breaks_block(then_block),
                breaks_expr_block_seq(else_ifs),
            );
            lemma_first_brk_cat(
                s,
                breaks_expr(*cond) + breaks_block(then_block) + breaks_expr_block_seq(else_ifs),
                ( match else_block { Some(y) => breaks_block(y), None => Seq::empty() } ),
            );
        },
        ExprView::Array(x0, _) => {
            lemma_brk_expr_seq(s, x0);
        },
        ExprView::Repeat(x0, _, _) => {
            lemma_brk_expr(s, *x0);
        },
        ExprView::Index { array, index, .. } => {
            lemma_brk_expr(s, *array);
            lemma_brk_expr(s, *index);
            lemma_first_brk_cat(s, breaks_expr(*array), breaks_expr(*index));
        },
        ExprView::IfLet { scrutinee, then_block, else_block, .. } => {
            lemma_brk_expr(s, *scrutinee);
            lemma_brk_block(s, then_block);
            if let Some(y) = else_block {
                lemma_brk_block(s, y);
            }
            lemma_first_brk_cat(s, breaks_expr(*scrutinee), breaks_block(then_block));
            lemma_first_brk_cat(
                s,
                breaks_expr(*scrutinee) + breaks_block(then_block),
                ( match else_block { Some(y) => breaks_block(y), None => Seq::empty() } ),
            );
        },
        ExprView::Match { scrutinee, arms, .. } => {
            lemma_brk_expr(s, *scrutinee);
            lemma_brk_match_arm_seq(s, arms);
            lemma_first_brk_cat(s, breaks_expr(*scrutinee), breaks_match_arm_seq(arms));
        },
        ExprView::Block(x0, _) => {
            lemma_brk_block(s, x0);
        },
        _ => {},
    }
}

proof fn lemma_brk_match_arm(s: State, x: MatchArmView)
    ensures
        brk_match_arm(s, x) == first_brk(s, breaks_match_arm(x)),
    decreases x,
{
    reveal(breaks_block);
    reveal(breaks_expr);
    reveal(breaks_expr_block_seq);
    reveal(breaks_expr_seq);
    reveal(breaks_match_arm);
    reveal(breaks_match_arm_seq);
    reveal(breaks_stmt);
    reveal(breaks_stmt_seq);
    reveal(breaks_string_expr_seq);
    reveal(brk_block);
    reveal(brk_expr);
    reveal(brk_expr_block_seq);
    reveal(brk_expr_seq);
    reveal(brk_match_arm);
    reveal(brk_match_arm_seq);
    reveal(brk_stmt);
    reveal(brk_stmt_seq);
    reveal(brk_string_expr_seq);
    if let Some(y) = x.guard {
        lemma_brk_expr(s, *y);
    }
    lemma_brk_block(s, x.body);
    lemma_first_brk_cat(
        s,
        (match x.guard { Some(y) => breaks_expr(*y), None => Seq::empty() }),
        breaks_block(x.body),
    );
}

proof fn lemma_brk_expr_block_seq(s: State, t: Seq<(ExprView, BlockView)>)
    ensures
        brk_expr_block_seq(s, t) == first_brk(s, breaks_expr_block_seq(t)),
    decreases t,
{
    reveal(breaks_block);
    reveal(breaks_expr);
    reveal(breaks_expr_block_seq);
    reveal(breaks_expr_seq);
    reveal(breaks_match_arm);
    reveal(breaks_match_arm_seq);
    reveal(breaks_stmt);
    reveal(breaks_stmt_seq);
    reveal(breaks_string_expr_seq);
    reveal(brk_block);
    reveal(brk_expr);
    reveal(brk_expr_block_seq);
    reveal(brk_expr_seq);
    reveal(brk_match_arm);
    reveal(brk_match_arm_seq);
    reveal(brk_stmt);
    reveal(brk_stmt_seq);
    reveal(brk_string_expr_seq);
    if t.len() > 0 {
        lemma_brk_expr(s, t[0].0);
        lemma_brk_block(s, t[0].1);
        lemma_first_brk_cat(s, breaks_expr(t[0].0), breaks_block(t[0].1));
        lemma_brk_expr_block_seq(s, t.drop_first());
        lemma_front_expr_block_seq(t);
        lemma_first_brk_cat(
            s,
            breaks_expr(t[0].0) + breaks_block(t[0].1),
            breaks_expr_block_seq(t.drop_first()),
        );
    }
}

proof fn lemma_brk_expr_seq(s: State, t: Seq<ExprView>)
    ensures
        brk_expr_seq(s, t) == first_brk(s, breaks_expr_seq(t)),
    decreases t,
{
    reveal(breaks_block);
    reveal(breaks_expr);
    reveal(breaks_expr_block_seq);
    reveal(breaks_expr_seq);
    reveal(breaks_match_arm);
    reveal(breaks_match_arm_seq);
    reveal(breaks_stmt);
    reveal(breaks_stmt_seq);
    reveal(breaks_string_expr_seq);
    reveal(brk_block);
    reveal(brk_expr);
    reveal(brk_expr_block_seq);
    reveal(brk_expr_seq);
    reveal(brk_match_arm);
    reveal(brk_match_arm_seq);
    reveal(brk_stmt);
    reveal(brk_stmt_seq);
    reveal(brk_string_expr_seq);
    if t.len() > 0 {
        lemma_brk_expr(s, t[0]);
        lemma_brk_expr_seq(s, t.drop_first());
        lemma_front_expr_seq(t);
        lemma_first_brk_cat(s, breaks_expr(t[0]), breaks_expr_seq(t.drop_first()));
    }
}

proof fn lemma_brk_match_arm_seq(s: State, t: Seq<MatchArmView>)
    ensures
        brk_match_arm_seq(s, t) == first_brk(s, breaks_match_arm_seq(t)),
    decreases t,
{
    reveal(breaks_block);
    reveal(breaks_expr);
    reveal(breaks_expr_block_seq);
    reveal(breaks_expr_seq);
    reveal(breaks_match_arm);
    reveal(breaks_match_arm_seq);
    reveal(breaks_stmt);
    reveal(breaks_stmt_seq);
    reveal(breaks_string_expr_seq);
    reveal(brk_block);
    reveal(brk_expr);
    reveal(brk_expr_block_seq);
    reveal(brk_expr_seq);
    reveal(brk_match_arm);
    reveal(brk_match_arm_seq);
    reveal(brk_stmt);
    reveal(brk_stmt_seq);
    reveal(brk_string_expr_seq);
    if t.len() > 0 {
        lemma_brk_match_arm(s, t[0]);
        lemma_brk_match_arm_seq(s, t.drop_first());
        lemma_front_match_arm_seq(t);
        lemma_first_brk_cat(s, breaks_match_arm(t[0]), breaks_match_arm_seq(t.drop_first()));
    }
}

proof fn lemma_brk_stmt_seq(s: State, t: Seq<StmtView>)
    ensures
        brk_stmt_seq(s, t) == first_brk(s, breaks_stmt_seq(t)),
    decreases t,
{
    reveal(breaks_block);
    reveal(breaks_expr);
    reveal(breaks_expr_block_seq);
    reveal(breaks_expr_seq);
    reveal(breaks_match_arm);
    reveal(breaks_match_arm_seq);
    reveal(breaks_stmt);
    reveal(breaks_stmt_seq);
    reveal(breaks_string_expr_seq);
    reveal(brk_block);
    reveal(brk_expr);
    reveal(brk_expr_block_seq);
    reveal(brk_expr_seq);
    reveal(brk_match_arm);
    reveal(brk_match_arm_seq);
    reveal(brk_stmt);
    reveal(brk_stmt_seq);
    reveal(brk_string_expr_seq);
    if t.len() > 0 {
        lemma_brk_stmt(s, t[0]);
        lemma_brk_stmt_seq(s, t.drop_first());
        lemma_front_stmt_seq(t);
        lemma_first_brk_cat(s, breaks_stmt(t[0]), breaks_stmt_seq(t.drop_first()));
    }
}

proof fn lemma_brk_string_expr_seq(s: State, t: Seq<(Seq<char>, ExprView)>)
    ensures
        brk_string_expr_seq(s, t) == first_brk(s, breaks_string_expr_seq(t)),
    decreases t,
{
    reveal(breaks_block);
    reveal(breaks_expr);
    reveal(breaks_expr_block_seq);
    reveal(breaks_expr_seq);
    reveal(breaks_match_arm);
    reveal(breaks_match_arm_seq);
    reveal(breaks_stmt);
    reveal(breaks_stmt_seq);
    reveal(breaks_string_expr_seq);
    reveal(brk_block);
    reveal(brk_expr);
    reveal(brk_expr_block_seq);
    reveal(brk_expr_seq);
    reveal(brk_match_arm);
    reveal(brk_match_arm_seq);
    reveal(brk_stmt);
    reveal(brk_stmt_seq);
    reveal(brk_string_expr_seq);
    if t.len() > 0 {
        lemma_brk_expr(s, t[0].1);
        lemma_brk_string_expr_seq(s, t.drop_first());
        lemma_front_string_expr_seq(t);
        lemma_first_brk_cat(s, breaks_expr(t[0].1), breaks_string_expr_seq(t.drop_first()));
    }
}

} // verus!
