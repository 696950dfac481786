//! What the syntax alone says of an expression: the type that it has without any declarations.
use crate::ast::{BinOp, Block, Expr, MatchArm, Stmt, Type};
use crate::model::{
    BlockView, ExprView, MatchArmView, StmtView, TypeView, dup_type, expr_block_seq_view,
    expr_seq_view, expr_view, match_arm_seq_view, stmt_seq_view, string_expr_seq_view,
    type_seq_view, type_view,
};
use crate::names::{primitive_name, primitive_type_name};
use crate::table::Model;
use crate::text::same;
use vstd::prelude::*;

verus! {

/// `a`, or `b` where `a` is nothing.
pub open spec fn or_type(a: Option<TypeView>, b: Option<TypeView>) -> Option<TypeView> {
    if a is Some {
        a
    } else {
        b
    }
}

/// The type of the value of the first `break` in a block that leaves the loop around it, by its
/// syntax alone: the unit type where it has no value, nothing where there is no such `break`.
pub open spec fn break_lit_block(x: BlockView) -> Option<TypeView>
    decreases x,
{
    or_type(
        break_lit_stmt_seq(x.stmts),
        match x.tail_expr { Some(y) => break_lit_expr(*y), None => None },
    )
}

/// The type of the value of the first `break` in a statement that leaves the loop around it.
pub open spec fn break_lit_stmt(x: StmtView) -> Option<TypeView>
    decreases x,
{
    match x {
        StmtView::Let { init, else_block, .. } => or_type(
            break_lit_expr(init),
            match else_block { Some(y) => break_lit_block(y), None => None },
        ),
        StmtView::Const { init, .. } => break_lit_expr(init),
        StmtView::Expr(x0) => break_lit_expr(x0),
        StmtView::Return { value, .. } => match value {
            Some(y) => break_lit_expr(*y),
            None => None,
        },
        StmtView::Break { value, .. } => Some(
            match value { Some(v) => lit_type(*v), None => TypeView::Unit },
        ),
        _ => None,
    }
}

/// The type of the value of the first `break` in an expression that leaves the loop around it:
/// those of inner loops do not count.
pub open spec fn break_lit_expr(x: ExprView) -> Option<TypeView>
    decreases x,
{
    match x {
        ExprView::Call { args, .. } => break_lit_expr_seq(args),
        ExprView::QualifiedCall { args, .. } => break_lit_expr_seq(args),
        ExprView::Binary { lhs, rhs, .. } => or_type(break_lit_expr(*lhs), break_lit_expr(*rhs)),
        ExprView::Assign { target, value, .. } => or_type(
            break_lit_expr(*target),
            break_lit_expr(*value),
        ),
        ExprView::Ref { expr, .. } => break_lit_expr(*expr),
        ExprView::UnaryNot(x0, _) => break_lit_expr(*x0),
        ExprView::UnaryMinus(x0, _) => break_lit_expr(*x0),
        ExprView::Deref(x0, _) => break_lit_expr(*x0),
        ExprView::Cast { expr, .. } => break_lit_expr(*expr),
        ExprView::Tuple(x0, _) => break_lit_expr_seq(x0),
        ExprView::Member { expr, .. } => break_lit_expr(*expr),
        ExprView::MethodCall { expr, args, .. } => or_type(
            break_lit_expr(*expr),
            break_lit_expr_seq(args),
        ),
        ExprView::StructLit { fields, .. } => break_lit_string_expr_seq(fields),
        ExprView::EnumLit { payload, .. } => match payload {
            Some(y) => break_lit_expr(*y),
            None => None,
        },
        ExprView::If { cond, then_block, else_ifs, else_block, .. } => or_type(
            break_lit_expr(*cond),
            or_type(
                break_lit_block(then_block),
                or_type(
                    break_lit_expr_block_seq(else_ifs),
                    match else_block { Some(y) => break_lit_block(y), None => None },
                ),
            ),
        ),
        ExprView::Array(x0, _) => break_lit_expr_seq(x0),
        ExprView::Repeat(x0, _, _) => break_lit_expr(*x0),
        ExprView::Index { array, index, .. } => or_type(
            break_lit_expr(*array),
            break_lit_expr(*index),
        ),
        ExprView::IfLet { scrutinee, then_block, else_block, .. } => or_type(
            break_lit_expr(*scrutinee),
            or_type(
                break_lit_block(then_block),
                match else_block { Some(y) => break_lit_block(y), None => None },
            ),
        ),
        ExprView::Match { scrutinee, arms, .. } => or_type(
            break_lit_expr(*scrutinee),
            break_lit_match_arm_seq(arms),
        ),
        ExprView::Block(x0, _) => break_lit_block(x0),
        _ => None,
    }
}

/// The type of the value of the first `break` in an arm.
pub open spec fn break_lit_match_arm(x: MatchArmView) -> Option<TypeView>
    decreases x,
{
    or_type(match x.guard { Some(y) => break_lit_expr(*y), None => None }, break_lit_block(x.body))
}

/// The same over the elements: the first that gives one counts.
pub open spec fn break_lit_stmt_seq(xs: Seq<StmtView>) -> Option<TypeView>
    decreases xs,
{
    if xs.len() == 0 {
        None
    } else {
        or_type(break_lit_stmt(xs[0]), break_lit_stmt_seq(xs.drop_first()))
    }
}

/// The same over the elements: the first that gives one counts.
pub open spec fn break_lit_expr_seq(xs: Seq<ExprView>) -> Option<TypeView>
    decreases xs,
{
    if xs.len() == 0 {
        None
    } else {
        or_type(break_lit_expr(xs[0]), break_lit_expr_seq(xs.drop_first()))
    }
}

/// The same over the elements: the first that gives one counts.
pub open spec fn break_lit_string_expr_seq(xs: Seq<(Seq<char>, ExprView)>) -> Option<TypeView>
    decreases xs,
{
    if xs.len() == 0 {
        None
    } else {
        or_type(break_lit_expr(xs[0].1), break_lit_string_expr_seq(xs.drop_first()))
    }
}

/// The same over the elements: the first that gives one counts.
pub open spec fn break_lit_expr_block_seq(xs: Seq<(ExprView, BlockView)>) -> Option<TypeView>
    decreases xs,
{
    if xs.len() == 0 {
        None
    } else {
        or_type(
            or_type(break_lit_expr(xs[0].0), break_lit_block(xs[0].1)),
            break_lit_expr_block_seq(xs.drop_first()),
        )
    }
}

/// The same over the elements: the first that gives one counts.
pub open spec fn break_lit_match_arm_seq(xs: Seq<MatchArmView>) -> Option<TypeView>
    decreases xs,
{
    if xs.len() == 0 {
        None
    } else {
        or_type(break_lit_match_arm(xs[0]), break_lit_match_arm_seq(xs.drop_first()))
    }
}

/// The type of the value of the first `break` in a block that leaves the loop around it, by its
/// syntax alone: the unit type where it has no value, nothing where there is no such `break`.
pub fn first_break_in_block(x: &Block) -> (r: Option<Type>)
    ensures
        r.model() == break_lit_block(x@),
    decreases x,
{
    let found = first_break_in_stmt_seq(&x.stmts);
    if found.is_some() {
        return found;
    }
    match &x.tail_expr { Some(y) => first_break_in_expr(y), None => None }
}

/// The type of the value of the first `break` in a statement that leaves the loop around it.
pub fn first_break_in_stmt(x: &Stmt) -> (r: Option<Type>)
    ensures
        r.model() == break_lit_stmt(x@),
    decreases x,
{
    match x {
        Stmt::Let { init, else_block, .. } => {
            let found = first_break_in_expr(init);
            if found.is_some() {
                return found;
            }
            match else_block { Some(y) => first_break_in_block(y), None => None }
        },
        Stmt::Const { init, .. } => {
            first_break_in_expr(init)
        },
        Stmt::Expr(x0) => {
            first_break_in_expr(x0)
        },
        Stmt::Return { value, .. } => {
            match value { Some(y) => first_break_in_expr(y), None => None }
        },
        Stmt::Break { value, .. } => Some(
            match value { Some(v) => literal_type(v), None => Type::Unit },
        ),
        _ => None,
    }
}

/// The type of the value of the first `break` in an expression that leaves the loop around it:
/// those of inner loops do not count.
pub fn first_break_in_expr(x: &Expr) -> (r: Option<Type>)
    ensures
        r.model() == break_lit_expr(x@),
    decreases x,
{
    match x {
        Expr::Call { args, .. } => {
            first_break_in_expr_seq(args)
        },
        Expr::QualifiedCall { args, .. } => {
            first_break_in_expr_seq(args)
        },
        Expr::Binary { lhs, rhs, .. } => {
            let found = first_break_in_expr(lhs);
            if found.is_some() {
                return found;
            }
            first_break_in_expr(rhs)
        },
        Expr::Assign { target, value, .. } => {
            let found = first_break_in_expr(target);
            if found.is_some() {
                return found;
            }
            first_break_in_expr(value)
        },
        Expr::Ref { expr, .. } => {
            first_break_in_expr(expr)
        },
        Expr::UnaryNot(x0, _) => {
            first_break_in_expr(x0)
        },
        Expr::UnaryMinus(x0, _) => {
            first_break_in_expr(x0)
        },
        Expr::Deref(x0, _) => {
            first_break_in_expr(x0)
        },
        Expr::Cast { expr, .. } => {
            first_break_in_expr(expr)
        },
        Expr::Tuple(x0, _) => {
            first_break_in_expr_seq(x0)
        },
        Expr::Member { expr, .. } => {
            first_break_in_expr(expr)
        },
        Expr::MethodCall { expr, args, .. } => {
            let found = first_break_in_expr(expr);
            if found.is_some() {
                return found;
            }
            first_break_in_expr_seq(args)
        },
        Expr::StructLit { fields, .. } => {
            first_break_in_string_expr_seq(fields)
        },
        Expr::EnumLit { payload, .. } => {
            match payload { Some(y) => first_break_in_expr(y), None => None }
        },
        Expr::If { cond, then_block, else_ifs, else_block, .. } => {
            let found = first_break_in_expr(cond);
            if found.is_some() {
                return found;
            }
            let found = first_break_in_block(then_block);
            if found.is_some() {
                return found;
            }
            let found = first_break_in_expr_block_seq(else_ifs);
            if found.is_some() {
                return found;
            }
            match else_block { Some(y) => first_break_in_block(y), None => None }
        },
        Expr::Array(x0, _) => {
            first_break_in_expr_seq(x0)
        },
        Expr::Repeat(x0, _, _) => {
            first_break_in_expr(x0)
        },
        Expr::Index { array, index, .. } => {
            let found = first_break_in_expr(array);
            if found.is_some() {
                return found;
            }
            first_break_in_expr(index)
        },
        Expr::IfLet { scrutinee, then_block, else_block, .. } => {
            let found = first_break_in_expr(scrutinee);
            if found.is_some() {
                return found;
            }
            let found = first_break_in_block(then_block);
            if found.is_some() {
                return found;
            }
            match else_block { Some(y) => first_break_in_block(y), None => None }
        },
        Expr::Match { scrutinee, arms, .. } => {
            let found = first_break_in_expr(scrutinee);
            if found.is_some() {
                return found;
            }
            first_break_in_match_arm_seq(arms)
        },
        Expr::Block(x0, _) => {
            first_break_in_block(x0)
        },
        _ => None,
    }
}

/// The type of the value of the first `break` in an arm.
pub fn first_break_in_arm(x: &MatchArm) -> (r: Option<Type>)
    ensures
        r.model() == break_lit_match_arm(x@),
    decreases x,
{
    let found = match &x.guard { Some(y) => first_break_in_expr(y), None => None };
    if found.is_some() {
        return found;
    }
    first_break_in_block(&x.body)
}

fn first_break_in_stmt_seq(v: &Vec<Stmt>) -> (r: Option<Type>)
    ensures
        r.model() == break_lit_stmt_seq(stmt_seq_view(v@)),
    decreases v,
{
    let ghost all = stmt_seq_view(v@);
    let mut i: usize = 0;
    proof {
        assert(all.skip(0) =~= all);
    }
    while i < v.len()
        invariant
            i <= v@.len(),
            all == stmt_seq_view(v@),
            break_lit_stmt_seq(all.skip(i as int)) == break_lit_stmt_seq(all),
        decreases v@.len() - i,
    {
        proof {
            assert(all.skip(i as int)[0] == all[i as int]);
            assert(all.skip(i as int).drop_first() =~= all.skip(i + 1));
        }
        let found = first_break_in_stmt(&v[i]);
        if found.is_some() {
            return found;
        }
        i += 1;
    }
    None
}

fn first_break_in_expr_seq(v: &Vec<Expr>) -> (r: Option<Type>)
    ensures
        r.model() == break_lit_expr_seq(expr_seq_view(v@)),
    decreases v,
{
    let ghost all = expr_seq_view(v@);
    let mut i: usize = 0;
    proof {
        assert(all.skip(0) =~= all);
    }
    while i < v.len()
        invariant
            i <= v@.len(),
            all == expr_seq_view(v@),
            break_lit_expr_seq(all.skip(i as int)) == break_lit_expr_seq(all),
        decreases v@.len() - i,
    {
        proof {
            assert(all.skip(i as int)[0] == all[i as int]);
            assert(all.skip(i as int).drop_first() =~= all.skip(i + 1));
        }
        let found = first_break_in_expr(&v[i]);
        if found.is_some() {
            return found;
        }
        i += 1;
    }
    None
}

fn first_break_in_string_expr_seq(v: &Vec<(String, Expr)>) -> (r: Option<Type>)
    ensures
        r.model() == break_lit_string_expr_seq(string_expr_seq_view(v@)),
    decreases v,
{
    let ghost all = string_expr_seq_view(v@);
    let mut i: usize = 0;
    proof {
        assert(all.skip(0) =~= all);
    }
    while i < v.len()
        invariant
            i <= v@.len(),
            all == string_expr_seq_view(v@),
            break_lit_string_expr_seq(all.skip(i as int)) == break_lit_string_expr_seq(all),
        decreases v@.len() - i,
    {
        proof {
            assert(all.skip(i as int)[0] == all[i as int]);
            assert(all.skip(i as int).drop_first() =~= all.skip(i + 1));
        }
        let found = first_break_in_expr(&v[i].1);
        if found.is_some() {
            return found;
        }
        i += 1;
    }
    None
}

fn first_break_in_expr_block_seq(v: &Vec<(Expr, Block)>) -> (r: Option<Type>)
    ensures
        r.model() == break_lit_expr_block_seq(expr_block_seq_view(v@)),
    decreases v,
{
    let ghost all = expr_block_seq_view(v@);
    let mut i: usize = 0;
    proof {
        assert(all.skip(0) =~= all);
    }
    while i < v.len()
        invariant
            i <= v@.len(),
            all == expr_block_seq_view(v@),
            break_lit_expr_block_seq(all.skip(i as int)) == break_lit_expr_block_seq(all),
        decreases v@.len() - i,
    {
        proof {
            assert(all.skip(i as int)[0] == all[i as int]);
            assert(all.skip(i as int).drop_first() =~= all.skip(i + 1));
        }
        let found = first_break_in_expr(&v[i].0);
        if found.is_some() {
            return found;
        }
        let found = first_break_in_block(&v[i].1);
        if found.is_some() {
            return found;
        }
        i += 1;
    }
    None
}

fn first_break_in_match_arm_seq(v: &Vec<MatchArm>) -> (r: Option<Type>)
    ensures
        r.model() == break_lit_match_arm_seq(match_arm_seq_view(v@)),
    decreases v,
{
    let ghost all = match_arm_seq_view(v@);
    let mut i: usize = 0;
    proof {
        assert(all.skip(0) =~= all);
    }
    while i < v.len()
        invariant
            i <= v@.len(),
            all == match_arm_seq_view(v@),
            break_lit_match_arm_seq(all.skip(i as int)) == break_lit_match_arm_seq(all),
        decreases v@.len() - i,
    {
        proof {
            assert(all.skip(i as int)[0] == all[i as int]);
            assert(all.skip(i as int).drop_first() =~= all.skip(i + 1));
        }
        let found = first_break_in_arm(&v[i]);
        if found.is_some() {
            return found;
        }
        i += 1;
    }
    None
}

/// The type of a reference or pointer's target; `i32` for anything else.
pub open spec fn pointee(ty: TypeView) -> TypeView {
    match ty {
        TypeView::Ptr { inner, .. } => *inner,
        TypeView::Ref { inner, .. } => *inner,
        _ => TypeView::I32,
    }
}

/// The type `&str`.
pub open spec fn str_ref_type() -> TypeView {
    TypeView::Ref { inner: Box::new(TypeView::Str), is_mut: false }
}

/// The type `&str`.
pub fn str_ref() -> (r: Type)
    ensures
        r@ == str_ref_type(),
{
    reveal_with_fuel(type_view, 2);
    Type::Ref { inner: Box::new(Type::Str), is_mut: false }
}

/// The element type of an array, a slice or a reference to a slice; `i32` for anything else.
pub open spec fn lit_element(ty: TypeView) -> TypeView {
    match ty {
        TypeView::Array { inner, .. } => *inner,
        TypeView::Slice { inner } => *inner,
        TypeView::Ref { inner, .. } => match *inner {
            TypeView::Slice { inner: si } => *si,
            _ => TypeView::I32,
        },
        _ => TypeView::I32,
    }
}

fn literal_element(ty: &Type) -> (r: Type)
    ensures
        r@ == lit_element(ty@),
{
    reveal_with_fuel(type_view, 3);
    match ty {
        Type::Array { inner, .. } => dup_type(inner),
        Type::Slice { inner } => dup_type(inner),
        Type::Ref { inner, .. } => match &**inner {
            Type::Slice { inner: si } => dup_type(si),
            _ => Type::I32,
        },
        _ => Type::I32,
    }
}

/// Whether an operator gives a `bool`.
pub open spec fn gives_bool(op: BinOp) -> bool {
    match op {
        BinOp::Add | BinOp::Sub | BinOp::Mul | BinOp::Div => false,
        _ => true,
    }
}

/// Whether an operator gives a `bool`.
pub fn is_bool_op(op: BinOp) -> (r: bool)
    ensures
        r == gives_bool(op),
{
    match op {
        BinOp::Add | BinOp::Sub | BinOp::Mul | BinOp::Div => false,
        _ => true,
    }
}

/// The type that an expression has by its syntax alone, with no declarations known.
pub open spec fn lit_type(e: ExprView) -> TypeView
    decreases e,
{
    match e {
        ExprView::BoolLit(_, _) => TypeView::Bool,
        ExprView::IntLit(_, _) => TypeView::I32,
        ExprView::FloatLit(_, _) => TypeView::F64,
        ExprView::StrLit(_, _) => str_ref_type(),
        ExprView::Ref { expr, is_mut, .. } => TypeView::Ref {
            inner: Box::new(lit_type(*expr)),
            is_mut,
        },
        ExprView::Deref(expr, _) => pointee(lit_type(*expr)),
        ExprView::UnaryMinus(expr, _) => lit_type(*expr),
        ExprView::UnaryNot(expr, _) => lit_type(*expr),
        ExprView::Assign { value, .. } => lit_type(*value),
        ExprView::Cast { to_type, .. } => to_type,
        ExprView::Tuple(elems, _) => TypeView::Tuple(lit_types(elems)),
        ExprView::Unit(_) => TypeView::Unit,
        ExprView::MethodCall { expr, method, .. } => if method == "clone"@ || method == "default"@ {
            lit_type(*expr)
        } else if method == "cmp"@ {
            TypeView::I32
        } else if method == "eq"@ || method == "ne"@ {
            TypeView::Bool
        } else {
            TypeView::Usize
        },
        ExprView::StructLit { struct_name, .. } => TypeView::Struct(struct_name),
        ExprView::EnumLit { enum_name, .. } => TypeView::Struct(enum_name),
        ExprView::Binary { op, .. } => if gives_bool(op) {
            TypeView::Bool
        } else {
            TypeView::I32
        },
        ExprView::Array(elems, _) => if elems.len() == 0 {
            TypeView::I32
        } else {
            TypeView::Array { inner: Box::new(lit_type(elems[0])), len: elems.len() as usize }
        },
        ExprView::Repeat(expr, count, _) => TypeView::Array {
            inner: Box::new(lit_type(*expr)),
            len: count,
        },
        ExprView::Index { array, .. } => lit_element(lit_type(*array)),
        ExprView::Loop { body, .. } => match break_lit_block(body) {
            Some(t) => t,
            None => TypeView::Unit,
        },
        ExprView::While { .. } => TypeView::Unit,
        ExprView::For { .. } => TypeView::Unit,
        ExprView::Block(block, _) => lit_block(block),
        _ => TypeView::I32,
    }
}

/// The type of a block by its syntax alone: that of its last expression.
pub open spec fn lit_block(b: BlockView) -> TypeView
    decreases b,
{
    match b.tail_expr {
        Some(tail) => lit_type(*tail),
        None => TypeView::Unit,
    }
}

/// The types of some expressions by their syntax alone.
pub open spec fn lit_types(es: Seq<ExprView>) -> Seq<TypeView>
    decreases es,
{
    Seq::new(
        es.len(),
        |i: int|
            if 0 <= i < es.len() {
                lit_type(es[i])
            } else {
                arbitrary()
            },
    )
}

/// The target of a reference or pointer type; `i32` for anything else.
pub fn pointee_type(ty: &Type) -> (r: Type)
    ensures
        r@ == pointee(ty@),
{
    match ty {
        Type::Ptr { inner, .. } => dup_type(inner),
        Type::Ref { inner, .. } => dup_type(inner),
        _ => Type::I32,
    }
}

/// The type that an expression has by its syntax alone, with no declarations known.
pub fn literal_type(e: &Expr) -> (r: Type)
    ensures
        r@ == lit_type(e@),
    decreases e,
{
    match e {
        Expr::BoolLit(_, _) => Type::Bool,
        Expr::IntLit(_, _) => Type::I32,
        Expr::FloatLit(_, _) => Type::F64,
        Expr::StrLit(_, _) => str_ref(),
        Expr::Ref { expr, is_mut, .. } => Type::Ref {
            inner: Box::new(literal_type(expr)),
            is_mut: *is_mut,
        },
        Expr::Deref(expr, _) => pointee_type(&literal_type(expr)),
        Expr::UnaryMinus(expr, _) => literal_type(expr),
        Expr::UnaryNot(expr, _) => literal_type(expr),
        Expr::Assign { value, .. } => literal_type(value),
        Expr::Cast { to_type, .. } => dup_type(to_type),
        Expr::Tuple(elems, _) => Type::Tuple(literal_types(elems)),
        Expr::Unit(_) => Type::Unit,
        Expr::MethodCall {
            expr,
            method,
            ..
        } => if same(method, "clone") || same(method, "default") {
            literal_type(expr)
        } else if same(method, "cmp") {
            Type::I32
        } else if same(method, "eq") || same(method, "ne") {
            Type::Bool
        } else {
            Type::Usize
        },
        Expr::StructLit { struct_name, .. } => Type::Struct(struct_name.clone()),
        Expr::EnumLit { enum_name, .. } => Type::Struct(enum_name.clone()),
        Expr::Binary { op, .. } => if is_bool_op(*op) {
            Type::Bool
        } else {
            Type::I32
        },
        Expr::Array(elems, _) => if elems.len() == 0 {
            Type::I32
        } else {
            proof {
                assert(expr_seq_view(elems@).len() == elems@.len());
                assert(expr_seq_view(elems@)[0] == expr_view(elems@[0]));
            }
            Type::Array { inner: Box::new(literal_type(&elems[0])), len: elems.len() }
        },
        Expr::Repeat(expr, count, _) => Type::Array {
            inner: Box::new(literal_type(expr)),
            len: *count,
        },
        Expr::Index { array, .. } => literal_element(&literal_type(array)),
        Expr::Loop { body, .. } => match first_break_in_block(body) {
            Some(t) => t,
            None => Type::Unit,
        },
        Expr::While { .. } => Type::Unit,
        Expr::For { .. } => Type::Unit,
        Expr::Block(block, _) => literal_block_type(block),
        _ => Type::I32,
    }
}

fn literal_block_type(b: &Block) -> (r: Type)
    ensures
        r@ == lit_block(b@),
    decreases b,
{
    match &b.tail_expr {
        Some(tail) => literal_type(tail),
        None => Type::Unit,
    }
}

fn literal_types(es: &Vec<Expr>) -> (r: Vec<Type>)
    ensures
        type_seq_view(r@) == lit_types(expr_seq_view(es@)),
    decreases es,
{
    let mut tys: Vec<Type> = Vec::new();
    let mut i: usize = 0;
    while i < es.len()
        invariant
            i <= es@.len(),
            tys@.len() == i,
            forall|k: int| 0 <= k < i ==> type_view(
                #[trigger] tys@[k],
            ) == lit_types(expr_seq_view(es@))[k],
        decreases es@.len() - i,
    {
        tys.push(literal_type(&es[i]));
        i += 1;
    }
    proof {
        assert(type_seq_view(tys@) =~= lit_types(expr_seq_view(es@)));
    }
    tys
}

/// Whether `ty` is a primitive type, `str` among them.
pub open spec fn concrete(ty: TypeView) -> bool {
    primitive_name(ty) is Some
}

/// Check if a type is concrete (not a type parameter).
pub fn is_concrete_type(ty: &Type) -> (r: bool)
    ensures
        r == concrete(ty@),
{
    primitive_type_name(ty).is_some()
}

} // verus!
