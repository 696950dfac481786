//! The `Debug` texts of the syntax tree, as error messages show them.
use vstd::prelude::*;

use crate::ast::{BinOp, Block, Expr, MatchArm, Pattern, Stmt, Type};
use crate::model::{
    BlockView, ExprView, MatchArmView, PatternView, StmtView, TypeView, block_view,
    expr_block_seq_view, expr_seq_view, expr_view, match_arm_seq_view, match_arm_view, pattern_view,
    stmt_seq_view, stmt_view, string_expr_seq_view, type_view,
};
use crate::names::{bool_text, show_bool, show_type, show_types, type_text, type_texts};
use crate::text::{
    cat3, decimal_text, int_text, join, join_texts, quoted, show_i64, show_quoted, show_usize,
    texts,
};
use crate::token::Span;

verus! {

/// The `Debug` text of a span.
pub open spec fn span_text(x: Span) -> Seq<char> {
    "Span { lo: "@ + decimal_text(x.lo as nat) + ", hi: "@ + decimal_text(x.hi as nat) + " }"@
}

/// The `Debug` text of an expression; a number with a fraction is shown with the digits that it
/// was written with.
#[verifier::opaque]
pub open spec fn expr_text(x: ExprView) -> Seq<char>
    decreases x,
{
    match x {
        ExprView::BoolLit(x0, x1) => "BoolLit("@ + bool_text(x0) + ", "@ + span_text(x1) + ")"@,
        ExprView::IntLit(x0, x1) => "IntLit("@ + int_text(x0 as int) + ", "@ + span_text(x1) + ")"@,
        ExprView::FloatLit(x0, x1) => "FloatLit("@ + x0 + ", "@ + span_text(x1) + ")"@,
        ExprView::StrLit(x0, x1) => "StrLit("@ + quoted(x0) + ", "@ + span_text(x1) + ")"@,
        ExprView::Ident(x0, x1) => "Ident("@ + quoted(x0) + ", "@ + span_text(x1) + ")"@,
        ExprView::Call {
            callee,
            args,
            type_args,
            span,
        } => "Call { callee: "@ + quoted(callee) + ", args: ["@ + join(expr_texts(args), ", "@)
        + "], type_args: ["@ + join(
            type_texts(type_args),
            ", "@,
        ) + "], span: "@ + span_text(span) + " }"@,
        ExprView::QualifiedCall {
            module,
            callee,
            args,
            type_args,
            span,
        } => "QualifiedCall { module: "@ + quoted(module) + ", callee: "@ + quoted(callee)
        + ", args: ["@ + join(expr_texts(args), ", "@) + "], type_args: ["@ + join(
            type_texts(type_args),
            ", "@,
        ) + "], span: "@ + span_text(span) + " }"@,
        ExprView::Binary {
            op,
            lhs,
            rhs,
            span,
        } => "Binary { op: "@ + bin_op_text(op) + ", lhs: "@ + expr_text(*lhs) + ", rhs: "@
        + expr_text(*rhs) + ", span: "@ + span_text(span) + " }"@,
        ExprView::Assign {
            target,
            value,
            span,
        } => "Assign { target: "@ + expr_text(*target) + ", value: "@ + expr_text(*value)
        + ", span: "@ + span_text(span) + " }"@,
        ExprView::Ref {
            expr,
            is_mut,
            span,
        } => "Ref { expr: "@ + expr_text(*expr) + ", is_mut: "@ + bool_text(is_mut) + ", span: "@
        + span_text(span) + " }"@,
        ExprView::UnaryNot(x0, x1) => "UnaryNot("@ + expr_text(*x0) + ", "@ + span_text(x1) + ")"@,
        ExprView::UnaryMinus(x0, x1) => "UnaryMinus("@ + expr_text(*x0) + ", "@ + span_text(x1)
            + ")"@,
        ExprView::Deref(x0, x1) => "Deref("@ + expr_text(*x0) + ", "@ + span_text(x1) + ")"@,
        ExprView::Cast {
            expr,
            to_type,
            span,
        } => "Cast { expr: "@ + expr_text(*expr) + ", to_type: "@ + type_text(to_type) + ", span: "@
        + span_text(span) + " }"@,
        ExprView::Tuple(x0, x1) => "Tuple(["@ + join(
            expr_texts(x0),
            ", "@,
        ) + "], "@ + span_text(x1) + ")"@,
        ExprView::Unit(x0) => "Unit("@ + span_text(x0) + ")"@,
        ExprView::Member {
            expr,
            index,
            field,
            span,
        } => "Member { expr: "@ + expr_text(*expr) + ", index: "@ + decimal_text(
            index as nat,
        ) + ", field: "@ + opt_string_text(field) + ", span: "@ + span_text(span) + " }"@,
        ExprView::MethodCall {
            expr,
            method,
            args,
            type_args,
            span,
        } => "MethodCall { expr: "@ + expr_text(*expr) + ", method: "@ + quoted(method)
        + ", args: ["@ + join(expr_texts(args), ", "@) + "], type_args: ["@ + join(
            type_texts(type_args),
            ", "@,
        ) + "], span: "@ + span_text(span) + " }"@,
        ExprView::StructLit { struct_name, fields, span } => "StructLit { struct_name: "@
            + quoted(struct_name) + ", fields: ["@ + join(
            string_and_expr_texts(fields),
            ", "@,
        ) + "], span: "@ + span_text(span) + " }"@,
        ExprView::EnumLit {
            enum_name,
            variant,
            payload,
            span,
        } => "EnumLit { enum_name: "@ + quoted(enum_name) + ", variant: "@ + quoted(variant)
        + ", payload: "@ + opt_expr_text(payload) + ", span: "@ + span_text(span) + " }"@,
        ExprView::If {
            cond,
            then_block,
            else_ifs,
            else_block,
            span,
        } => "If { cond: "@ + expr_text(*cond) + ", then_block: "@ + block_text(then_block)
        + ", else_ifs: ["@ + join(
            expr_and_block_texts(else_ifs),
            ", "@,
        ) + "], else_block: "@ + opt_block_text(else_block) + ", span: "@ + span_text(span) + " }"@,
        ExprView::Loop {
            body,
            span,
        } => "Loop { body: "@ + block_text(body) + ", span: "@ + span_text(span) + " }"@,
        ExprView::While {
            cond,
            body,
            span,
        } => "While { cond: "@ + expr_text(*cond) + ", body: "@ + block_text(body) + ", span: "@
        + span_text(span) + " }"@,
        ExprView::For {
            pattern,
            container,
            body,
            span,
        } => "For { pattern: "@ + pattern_text(pattern) + ", container: "@ + expr_text(*container)
        + ", body: "@ + block_text(body) + ", span: "@ + span_text(span) + " }"@,
        ExprView::Array(x0, x1) => "Array(["@ + join(
            expr_texts(x0),
            ", "@,
        ) + "], "@ + span_text(x1) + ")"@,
        ExprView::Repeat(x0, x1, x2) => "Repeat("@ + expr_text(*x0) + ", "@
            + decimal_text(x1 as nat) + ", "@ + span_text(x2) + ")"@,
        ExprView::Index {
            array,
            index,
            span,
        } => "Index { array: "@ + expr_text(*array) + ", index: "@ + expr_text(*index) + ", span: "@
        + span_text(span) + " }"@,
        ExprView::IfLet {
            pattern,
            scrutinee,
            then_block,
            else_block,
            span,
        } => "IfLet { pattern: "@ + pattern_text(pattern) + ", scrutinee: "@ + expr_text(*scrutinee)
        + ", then_block: "@ + block_text(then_block) + ", else_block: "@
        + opt_block_text(else_block) + ", span: "@ + span_text(span) + " }"@,
        ExprView::Match { scrutinee, arms, span } => "Match { scrutinee: "@ + expr_text(*scrutinee)
            + ", arms: ["@ + join(
            match_arm_texts(arms),
            ", "@,
        ) + "], span: "@ + span_text(span) + " }"@,
        ExprView::Block(x0, x1) => "Block("@ + block_text(x0) + ", "@ + span_text(x1) + ")"@,
    }
}

/// The `Debug` text of an operator.
pub open spec fn bin_op_text(op: BinOp) -> Seq<char> {
    match op {
        BinOp::Add => "Add"@,
        BinOp::Sub => "Sub"@,
        BinOp::Mul => "Mul"@,
        BinOp::Div => "Div"@,
        BinOp::Eq => "Eq"@,
        BinOp::Neq => "Neq"@,
        BinOp::Lt => "Lt"@,
        BinOp::Gt => "Gt"@,
        BinOp::Le => "Le"@,
        BinOp::Ge => "Ge"@,
        BinOp::And => "And"@,
        BinOp::Or => "Or"@,
    }
}

/// The `Debug` text of a block.
#[verifier::opaque]
pub open spec fn block_text(x: BlockView) -> Seq<char>
    decreases x,
{
    "Block { stmts: ["@ + join(stmt_texts(x.stmts), ", "@) + "], tail_expr: "@
        + opt_expr_text(x.tail_expr) + ", span: "@ + span_text(x.span) + " }"@
}

/// The `Debug` text of a pattern.
#[verifier::opaque]
pub open spec fn pattern_text(x: PatternView) -> Seq<char>
    decreases x,
{
    match x {
        PatternView::Wildcard => "Wildcard"@,
        PatternView::Binding(x0) => "Binding("@ + quoted(x0) + ")"@,
        PatternView::EnumVariant {
            enum_name,
            variant,
            payload,
        } => "EnumVariant { enum_name: "@ + opt_string_text(enum_name) + ", variant: "@
        + quoted(variant) + ", payload: "@ + opt_pattern_text(payload) + " }"@,
        PatternView::IntLit(x0) => "IntLit("@ + int_text(x0 as int) + ")"@,
        PatternView::BoolLit(x0) => "BoolLit("@ + bool_text(x0) + ")"@,
    }
}

/// The `Debug` text of an arm of a `match`.
#[verifier::opaque]
pub open spec fn match_arm_text(x: MatchArmView) -> Seq<char>
    decreases x,
{
    "MatchArm { pattern: "@ + pattern_text(x.pattern) + ", guard: "@ + opt_expr_text(x.guard)
        + ", body: "@ + block_text(x.body) + " }"@
}

/// The `Debug` text of a statement.
#[verifier::opaque]
pub open spec fn stmt_text(x: StmtView) -> Seq<char>
    decreases x,
{
    match x {
        StmtView::Let {
            pattern,
            is_mut,
            type_ann,
            init,
            else_block,
            span,
        } => "Let { pattern: "@ + pattern_text(pattern) + ", is_mut: "@ + bool_text(is_mut)
        + ", type_ann: "@ + opt_type_text(type_ann) + ", init: "@ + expr_text(init)
        + ", else_block: "@ + opt_block_text(else_block) + ", span: "@ + span_text(span) + " }"@,
        StmtView::Const {
            name,
            type_ann,
            init,
            span,
        } => "Const { name: "@ + quoted(name) + ", type_ann: "@ + opt_type_text(type_ann)
        + ", init: "@ + expr_text(init) + ", span: "@ + span_text(span) + " }"@,
        StmtView::Expr(x0) => "Expr("@ + expr_text(x0) + ")"@,
        StmtView::Return {
            value,
            span,
        } => "Return { value: "@ + opt_expr_text(value) + ", span: "@ + span_text(span) + " }"@,
        StmtView::Continue { span } => "Continue { span: "@ + span_text(span) + " }"@,
        StmtView::Break {
            value,
            span,
        } => "Break { value: "@ + opt_expr_text(value) + ", span: "@ + span_text(span) + " }"@,
    }
}

/// The `Debug` texts of some expressions.
#[verifier::opaque]
pub open spec fn expr_texts(xs: Seq<ExprView>) -> Seq<Seq<char>>
    decreases xs,
{
    Seq::new(
        xs.len(),
        |i: int| if 0 <= i < xs.len() { expr_text(xs[i]) } else { arbitrary() },
    )
}

/// The `Debug` texts of some fields.
#[verifier::opaque]
pub open spec fn string_and_expr_texts(xs: Seq<(Seq<char>, ExprView)>) -> Seq<Seq<char>>
    decreases xs,
{
    Seq::new(
        xs.len(),
        |i: int| if 0 <= i < xs.len() { string_and_expr_text(xs[i]) } else { arbitrary() },
    )
}

/// The `Debug` texts of some conditions with their blocks.
#[verifier::opaque]
pub open spec fn expr_and_block_texts(xs: Seq<(ExprView, BlockView)>) -> Seq<Seq<char>>
    decreases xs,
{
    Seq::new(
        xs.len(),
        |i: int| if 0 <= i < xs.len() { expr_and_block_text(xs[i]) } else { arbitrary() },
    )
}

/// The `Debug` texts of some arms.
#[verifier::opaque]
pub open spec fn match_arm_texts(xs: Seq<MatchArmView>) -> Seq<Seq<char>>
    decreases xs,
{
    Seq::new(
        xs.len(),
        |i: int| if 0 <= i < xs.len() { match_arm_text(xs[i]) } else { arbitrary() },
    )
}

/// The `Debug` texts of some statements.
#[verifier::opaque]
pub open spec fn stmt_texts(xs: Seq<StmtView>) -> Seq<Seq<char>>
    decreases xs,
{
    Seq::new(
        xs.len(),
        |i: int| if 0 <= i < xs.len() { stmt_text(xs[i]) } else { arbitrary() },
    )
}

/// The `Debug` text of an option.
#[verifier::opaque]
pub open spec fn opt_string_text(x: Option<Seq<char>>) -> Seq<char>
    decreases x,
{
    match x {
        Some(y) => "Some("@ + quoted(y) + ")"@,
        None => "None"@,
    }
}

/// The `Debug` text of a pair.
#[verifier::opaque]
pub open spec fn string_and_expr_text(x: (Seq<char>, ExprView)) -> Seq<char>
    decreases x,
{
    "("@ + quoted(x.0) + ", "@ + expr_text(x.1) + ")"@
}

/// The `Debug` text of an option.
#[verifier::opaque]
pub open spec fn opt_expr_text(x: Option<Box<ExprView>>) -> Seq<char>
    decreases x,
{
    match x {
        Some(y) => "Some("@ + expr_text(*y) + ")"@,
        None => "None"@,
    }
}

/// The `Debug` text of a pair.
#[verifier::opaque]
pub open spec fn expr_and_block_text(x: (ExprView, BlockView)) -> Seq<char>
    decreases x,
{
    "("@ + expr_text(x.0) + ", "@ + block_text(x.1) + ")"@
}

/// The `Debug` text of an option.
#[verifier::opaque]
pub open spec fn opt_block_text(x: Option<BlockView>) -> Seq<char>
    decreases x,
{
    match x {
        Some(y) => "Some("@ + block_text(y) + ")"@,
        None => "None"@,
    }
}

/// The `Debug` text of an option.
#[verifier::opaque]
pub open spec fn opt_pattern_text(x: Option<Box<PatternView>>) -> Seq<char>
    decreases x,
{
    match x {
        Some(y) => "Some("@ + pattern_text(*y) + ")"@,
        None => "None"@,
    }
}

/// The `Debug` text of an option.
#[verifier::opaque]
pub open spec fn opt_type_text(x: Option<TypeView>) -> Seq<char>
    decreases x,
{
    match x {
        Some(y) => "Some("@ + type_text(y) + ")"@,
        None => "None"@,
    }
}

/// The `Debug` text of a span.
pub fn show_span(x: Span) -> (r: String)
    ensures
        r@ == span_text(x),
{
    cat3("Span { lo: ", &show_usize(x.lo), ", hi: ").concat(&show_usize(x.hi)).concat(" }")
}

/// The `Debug` text of an expression; a number with a fraction is shown with the digits that it
/// was written with.
pub fn show_expr(x: &Expr) -> (r: String)
    ensures
        r@ == expr_text(x@),
    decreases x,
{
    proof {
        reveal(block_text);
        reveal(expr_and_block_text);
        reveal(expr_and_block_texts);
        reveal(expr_text);
        reveal(expr_texts);
        reveal(match_arm_text);
        reveal(match_arm_texts);
        reveal(opt_block_text);
        reveal(opt_expr_text);
        reveal(stmt_text);
        reveal(stmt_texts);
        reveal(string_and_expr_text);
        reveal(string_and_expr_texts);
    }
    match x {
        Expr::BoolLit(x0, x1) => cat3(
            "BoolLit(",
            show_bool(*x0),
            ", ",
        ).concat(&show_span(*x1)).concat(")"),
        Expr::IntLit(x0, x1) => cat3(
            "IntLit(",
            &show_i64(*x0),
            ", ",
        ).concat(&show_span(*x1)).concat(")"),
        Expr::FloatLit(x0, x1) => cat3("FloatLit(", x0, ", ").concat(&show_span(*x1)).concat(")"),
        Expr::StrLit(x0, x1) => cat3(
            "StrLit(",
            &show_quoted(x0),
            ", ",
        ).concat(&show_span(*x1)).concat(")"),
        Expr::Ident(x0, x1) => cat3(
            "Ident(",
            &show_quoted(x0),
            ", ",
        ).concat(&show_span(*x1)).concat(")"),
        Expr::Call { callee, args, type_args, span } => cat3(
            "Call { callee: ",
            &show_quoted(callee),
            ", args: [",
        ).concat(&join_texts(&show_expr_all(args), ", ")).concat("], type_args: [").concat(
            &join_texts(&show_types(type_args), ", "),
        ).concat("], span: ").concat(&show_span(*span)).concat(" }"),
        Expr::QualifiedCall { module, callee, args, type_args, span } => cat3(
            "QualifiedCall { module: ",
            &show_quoted(module),
            ", callee: ",
        ).concat(&show_quoted(callee)).concat(", args: [")
            .concat(&join_texts(&show_expr_all(args), ", ")).concat("], type_args: [").concat(
            &join_texts(&show_types(type_args), ", "),
        ).concat("], span: ").concat(&show_span(*span)).concat(" }"),
        Expr::Binary { op, lhs, rhs, span } => cat3(
            "Binary { op: ",
            show_bin_op(*op),
            ", lhs: ",
        ).concat(&show_expr(lhs)).concat(", rhs: ").concat(&show_expr(rhs)).concat(", span: ")
            .concat(
            &show_span(*span),
        ).concat(" }"),
        Expr::Assign { target, value, span } => cat3(
            "Assign { target: ",
            &show_expr(target),
            ", value: ",
        ).concat(&show_expr(value)).concat(", span: ").concat(&show_span(*span)).concat(" }"),
        Expr::Ref { expr, is_mut, span } => cat3(
            "Ref { expr: ",
            &show_expr(expr),
            ", is_mut: ",
        ).concat(show_bool(*is_mut)).concat(", span: ").concat(&show_span(*span)).concat(" }"),
        Expr::UnaryNot(x0, x1) => cat3(
            "UnaryNot(",
            &show_expr(x0),
            ", ",
        ).concat(&show_span(*x1)).concat(")"),
        Expr::UnaryMinus(x0, x1) => cat3(
            "UnaryMinus(",
            &show_expr(x0),
            ", ",
        ).concat(&show_span(*x1)).concat(")"),
        Expr::Deref(x0, x1) => cat3(
            "Deref(",
            &show_expr(x0),
            ", ",
        ).concat(&show_span(*x1)).concat(")"),
        Expr::Cast { expr, to_type, span } => cat3(
            "Cast { expr: ",
            &show_expr(expr),
            ", to_type: ",
        ).concat(&show_type(to_type)).concat(", span: ").concat(&show_span(*span)).concat(" }"),
        Expr::Tuple(x0, x1) => cat3(
            "Tuple([",
            &join_texts(&show_expr_all(x0), ", "),
            "], ",
        ).concat(&show_span(*x1)).concat(")"),
        Expr::Unit(x0) => cat3("Unit(", &show_span(*x0), ")"),
        Expr::Member { expr, index, field, span } => cat3(
            "Member { expr: ",
            &show_expr(expr),
            ", index: ",
        ).concat(&show_usize(*index)).concat(", field: ").concat(
            &show_opt_string(field),
        ).concat(", span: ").concat(&show_span(*span)).concat(" }"),
        Expr::MethodCall { expr, method, args, type_args, span } => cat3(
            "MethodCall { expr: ",
            &show_expr(expr),
            ", method: ",
        ).concat(&show_quoted(method)).concat(", args: [")
            .concat(&join_texts(&show_expr_all(args), ", ")).concat("], type_args: [").concat(
            &join_texts(&show_types(type_args), ", "),
        ).concat("], span: ").concat(&show_span(*span)).concat(" }"),
        Expr::StructLit { struct_name, fields, span } => cat3(
            "StructLit { struct_name: ",
            &show_quoted(struct_name),
            ", fields: [",
        ).concat(
            &join_texts(&show_string_and_expr_all(fields), ", "),
        ).concat("], span: ").concat(&show_span(*span)).concat(" }"),
        Expr::EnumLit { enum_name, variant, payload, span } => cat3(
            "EnumLit { enum_name: ",
            &show_quoted(enum_name),
            ", variant: ",
        ).concat(&show_quoted(variant)).concat(", payload: ").concat(
            &show_opt_expr(payload),
        ).concat(", span: ").concat(&show_span(*span)).concat(" }"),
        Expr::If { cond, then_block, else_ifs, else_block, span } => cat3("If { cond: ", &show_expr(cond), ", then_block: ").concat(&show_block(then_block)).concat(", else_ifs: [").concat(
            &join_texts(&show_expr_and_block_all(else_ifs), ", "),
        ).concat("], else_block: ").concat(
            &show_opt_block(else_block),
        ).concat(", span: ").concat(&show_span(*span)).concat(" }"),
        Expr::Loop { body, span } => cat3(
            "Loop { body: ",
            &show_block(body),
            ", span: ",
        ).concat(&show_span(*span)).concat(" }"),
        Expr::While { cond, body, span } => cat3(
            "While { cond: ",
            &show_expr(cond),
            ", body: ",
        ).concat(&show_block(body)).concat(", span: ").concat(&show_span(*span)).concat(" }"),
        Expr::For { pattern, container, body, span } => cat3(
            "For { pattern: ",
            &show_pattern(pattern),
            ", container: ",
        ).concat(
            &show_expr(container),
        ).concat(", body: ").concat(
            &show_block(body),
        ).concat(", span: ").concat(&show_span(*span)).concat(" }"),
        Expr::Array(x0, x1) => cat3(
            "Array([",
            &join_texts(&show_expr_all(x0), ", "),
            "], ",
        ).concat(&show_span(*x1)).concat(")"),
        Expr::Repeat(x0, x1, x2) => cat3(
            "Repeat(",
            &show_expr(x0),
            ", ",
        ).concat(&show_usize(*x1)).concat(", ").concat(&show_span(*x2)).concat(")"),
        Expr::Index { array, index, span } => cat3(
            "Index { array: ",
            &show_expr(array),
            ", index: ",
        ).concat(&show_expr(index)).concat(", span: ").concat(&show_span(*span)).concat(" }"),
        Expr::IfLet { pattern, scrutinee, then_block, else_block, span } => cat3(
            "IfLet { pattern: ",
            &show_pattern(pattern),
            ", scrutinee: ",
        ).concat(&show_expr(scrutinee)).concat(", then_block: ").concat(&show_block(then_block))
            .concat(", else_block: ").concat(
            &show_opt_block(else_block),
        ).concat(", span: ").concat(&show_span(*span)).concat(" }"),
        Expr::Match { scrutinee, arms, span } => cat3(
            "Match { scrutinee: ",
            &show_expr(scrutinee),
            ", arms: [",
        ).concat(
            &join_texts(&show_match_arm_all(arms), ", "),
        ).concat("], span: ").concat(&show_span(*span)).concat(" }"),
        Expr::Block(x0, x1) => cat3(
            "Block(",
            &show_block(x0),
            ", ",
        ).concat(&show_span(*x1)).concat(")"),
    }
}

/// The `Debug` text of an operator.
pub fn show_bin_op(op: BinOp) -> (r: &'static str)
    ensures
        r@ == bin_op_text(op),
{
    match op {
        BinOp::Add => "Add",
        BinOp::Sub => "Sub",
        BinOp::Mul => "Mul",
        BinOp::Div => "Div",
        BinOp::Eq => "Eq",
        BinOp::Neq => "Neq",
        BinOp::Lt => "Lt",
        BinOp::Gt => "Gt",
        BinOp::Le => "Le",
        BinOp::Ge => "Ge",
        BinOp::And => "And",
        BinOp::Or => "Or",
    }
}

/// The `Debug` text of a block.
pub fn show_block(x: &Block) -> (r: String)
    ensures
        r@ == block_text(x@),
    decreases x,
{
    proof {
        reveal(block_text);
        reveal(expr_and_block_text);
        reveal(expr_and_block_texts);
        reveal(expr_text);
        reveal(expr_texts);
        reveal(match_arm_text);
        reveal(match_arm_texts);
        reveal(opt_block_text);
        reveal(opt_expr_text);
        reveal(stmt_text);
        reveal(stmt_texts);
        reveal(string_and_expr_text);
        reveal(string_and_expr_texts);
    }
    cat3(
        "Block { stmts: [",
        &join_texts(&show_stmt_all(&x.stmts), ", "),
        "], tail_expr: ",
    ).concat(
        &show_opt_expr(&x.tail_expr),
    ).concat(", span: ").concat(&show_span(x.span)).concat(" }")
}

/// The `Debug` text of a pattern.
pub fn show_pattern(x: &Pattern) -> (r: String)
    ensures
        r@ == pattern_text(x@),
    decreases x,
{
    proof {
        reveal(opt_pattern_text);
        reveal(pattern_text);
    }
    match x {
        Pattern::Wildcard => "Wildcard".to_owned(),
        Pattern::Binding(x0) => cat3("Binding(", &show_quoted(x0), ")"),
        Pattern::EnumVariant { enum_name, variant, payload } => cat3(
            "EnumVariant { enum_name: ",
            &show_opt_string(enum_name),
            ", variant: ",
        ).concat(&show_quoted(variant)).concat(", payload: ").concat(
            &show_opt_pattern(payload),
        ).concat(" }"),
        Pattern::IntLit(x0) => cat3("IntLit(", &show_i64(*x0), ")"),
        Pattern::BoolLit(x0) => cat3("BoolLit(", show_bool(*x0), ")"),
    }
}

/// The `Debug` text of an arm of a `match`.
pub fn show_match_arm(x: &MatchArm) -> (r: String)
    ensures
        r@ == match_arm_text(x@),
    decreases x,
{
    proof {
        reveal(block_text);
        reveal(expr_and_block_text);
        reveal(expr_and_block_texts);
        reveal(expr_text);
        reveal(expr_texts);
        reveal(match_arm_text);
        reveal(match_arm_texts);
        reveal(opt_block_text);
        reveal(opt_expr_text);
        reveal(stmt_text);
        reveal(stmt_texts);
        reveal(string_and_expr_text);
        reveal(string_and_expr_texts);
    }
    cat3(
        "MatchArm { pattern: ",
        &show_pattern(&x.pattern),
        ", guard: ",
    ).concat(&show_opt_expr(&x.guard)).concat(", body: ").concat(&show_block(&x.body)).concat(" }")
}

/// The `Debug` text of a statement.
pub fn show_stmt(x: &Stmt) -> (r: String)
    ensures
        r@ == stmt_text(x@),
    decreases x,
{
    proof {
        reveal(block_text);
        reveal(expr_and_block_text);
        reveal(expr_and_block_texts);
        reveal(expr_text);
        reveal(expr_texts);
        reveal(match_arm_text);
        reveal(match_arm_texts);
        reveal(opt_block_text);
        reveal(opt_expr_text);
        reveal(stmt_text);
        reveal(stmt_texts);
        reveal(string_and_expr_text);
        reveal(string_and_expr_texts);
    }
    match x {
        Stmt::Let { pattern, is_mut, type_ann, init, else_block, span } => cat3(
            "Let { pattern: ",
            &show_pattern(pattern),
            ", is_mut: ",
        ).concat(show_bool(*is_mut)).concat(", type_ann: ").concat(&show_opt_type(type_ann))
            .concat(", init: ").concat(&show_expr(init)).concat(", else_block: ").concat(
            &show_opt_block(else_block),
        ).concat(", span: ").concat(&show_span(*span)).concat(" }"),
        Stmt::Const { name, type_ann, init, span } => cat3(
            "Const { name: ",
            &show_quoted(name),
            ", type_ann: ",
        ).concat(
            &show_opt_type(type_ann),
        ).concat(", init: ").concat(&show_expr(init)).concat(", span: ").concat(
            &show_span(*span),
        ).concat(" }"),
        Stmt::Expr(x0) => cat3("Expr(", &show_expr(x0), ")"),
        Stmt::Return { value, span } => cat3(
            "Return { value: ",
            &show_opt_expr(value),
            ", span: ",
        ).concat(&show_span(*span)).concat(" }"),
        Stmt::Continue { span } => cat3("Continue { span: ", &show_span(*span), " }"),
        Stmt::Break { value, span } => cat3(
            "Break { value: ",
            &show_opt_expr(value),
            ", span: ",
        ).concat(&show_span(*span)).concat(" }"),
    }
}

/// The `Debug` texts of some expressions.
fn show_expr_all(xs: &Vec<Expr>) -> (r: Vec<String>)
    ensures
        texts(r@) == expr_texts(expr_seq_view(xs@)),
    decreases xs,
{
    proof {
        reveal(block_text);
        reveal(expr_and_block_text);
        reveal(expr_and_block_texts);
        reveal(expr_text);
        reveal(expr_texts);
        reveal(match_arm_text);
        reveal(match_arm_texts);
        reveal(opt_block_text);
        reveal(opt_expr_text);
        reveal(stmt_text);
        reveal(stmt_texts);
        reveal(string_and_expr_text);
        reveal(string_and_expr_texts);
    }
    let mut r: Vec<String> = Vec::new();
    let mut i: usize = 0;
    while i < xs.len()
        invariant
            i <= xs@.len(),
            r@.len() == i,
            forall|j: int| 0 <= j < i ==> (#[trigger] r@[j])@ == expr_text(expr_view(xs@[j])),
        decreases xs@.len() - i,
    {
        proof {
            reveal(block_text);
            reveal(expr_and_block_text);
            reveal(expr_and_block_texts);
            reveal(expr_text);
            reveal(expr_texts);
            reveal(match_arm_text);
            reveal(match_arm_texts);
            reveal(opt_block_text);
            reveal(opt_expr_text);
            reveal(stmt_text);
            reveal(stmt_texts);
            reveal(string_and_expr_text);
            reveal(string_and_expr_texts);
        }
        r.push(show_expr(&xs[i]));
        i += 1;
    }
    proof {
        assert(texts(r@) =~= expr_texts(expr_seq_view(xs@)));
    }
    r
}

/// The `Debug` texts of some fields.
fn show_string_and_expr_all(xs: &Vec<(String, Expr)>) -> (r: Vec<String>)
    ensures
        texts(r@) == string_and_expr_texts(string_expr_seq_view(xs@)),
    decreases xs,
{
    proof {
        reveal(block_text);
        reveal(expr_and_block_text);
        reveal(expr_and_block_texts);
        reveal(expr_text);
        reveal(expr_texts);
        reveal(match_arm_text);
        reveal(match_arm_texts);
        reveal(opt_block_text);
        reveal(opt_expr_text);
        reveal(stmt_text);
        reveal(stmt_texts);
        reveal(string_and_expr_text);
        reveal(string_and_expr_texts);
    }
    let mut r: Vec<String> = Vec::new();
    let mut i: usize = 0;
    while i < xs.len()
        invariant
            i <= xs@.len(),
            r@.len() == i,
            forall|j: int| 0 <= j < i ==> (#[trigger] r@[j])@ == string_and_expr_text(
                (xs@[j].0@, expr_view(xs@[j].1)),
            ),
        decreases xs@.len() - i,
    {
        proof {
            reveal(block_text);
            reveal(expr_and_block_text);
            reveal(expr_and_block_texts);
            reveal(expr_text);
            reveal(expr_texts);
            reveal(match_arm_text);
            reveal(match_arm_texts);
            reveal(opt_block_text);
            reveal(opt_expr_text);
            reveal(stmt_text);
            reveal(stmt_texts);
            reveal(string_and_expr_text);
            reveal(string_and_expr_texts);
        }
        r.push(show_string_and_expr(&xs[i]));
        i += 1;
    }
    proof {
        assert(texts(r@) =~= string_and_expr_texts(string_expr_seq_view(xs@)));
    }
    r
}

/// The `Debug` texts of some conditions with their blocks.
fn show_expr_and_block_all(xs: &Vec<(Expr, Block)>) -> (r: Vec<String>)
    ensures
        texts(r@) == expr_and_block_texts(expr_block_seq_view(xs@)),
    decreases xs,
{
    proof {
        reveal(block_text);
        reveal(expr_and_block_text);
        reveal(expr_and_block_texts);
        reveal(expr_text);
        reveal(expr_texts);
        reveal(match_arm_text);
        reveal(match_arm_texts);
        reveal(opt_block_text);
        reveal(opt_expr_text);
        reveal(stmt_text);
        reveal(stmt_texts);
        reveal(string_and_expr_text);
        reveal(string_and_expr_texts);
    }
    let mut r: Vec<String> = Vec::new();
    let mut i: usize = 0;
    while i < xs.len()
        invariant
            i <= xs@.len(),
            r@.len() == i,
            forall|j: int| 0 <= j < i ==> (#[trigger] r@[j])@ == expr_and_block_text(
                (expr_view(xs@[j].0), block_view(xs@[j].1)),
            ),
        decreases xs@.len() - i,
    {
        proof {
            reveal(block_text);
            reveal(expr_and_block_text);
            reveal(expr_and_block_texts);
            reveal(expr_text);
            reveal(expr_texts);
            reveal(match_arm_text);
            reveal(match_arm_texts);
            reveal(opt_block_text);
            reveal(opt_expr_text);
            reveal(stmt_text);
            reveal(stmt_texts);
            reveal(string_and_expr_text);
            reveal(string_and_expr_texts);
        }
        r.push(show_expr_and_block(&xs[i]));
        i += 1;
    }
    proof {
        assert(texts(r@) =~= expr_and_block_texts(expr_block_seq_view(xs@)));
    }
    r
}

/// The `Debug` texts of some arms.
fn show_match_arm_all(xs: &Vec<MatchArm>) -> (r: Vec<String>)
    ensures
        texts(r@) == match_arm_texts(match_arm_seq_view(xs@)),
    decreases xs,
{
    proof {
        reveal(block_text);
        reveal(expr_and_block_text);
        reveal(expr_and_block_texts);
        reveal(expr_text);
        reveal(expr_texts);
        reveal(match_arm_text);
        reveal(match_arm_texts);
        reveal(opt_block_text);
        reveal(opt_expr_text);
        reveal(stmt_text);
        reveal(stmt_texts);
        reveal(string_and_expr_text);
        reveal(string_and_expr_texts);
    }
    let mut r: Vec<String> = Vec::new();
    let mut i: usize = 0;
    while i < xs.len()
        invariant
            i <= xs@.len(),
            r@.len() == i,
            forall|j: int| 0 <= j < i ==> (#[trigger] r@[j])@ == match_arm_text(
                match_arm_view(xs@[j]),
            ),
        decreases xs@.len() - i,
    {
        proof {
            reveal(block_text);
            reveal(expr_and_block_text);
            reveal(expr_and_block_texts);
            reveal(expr_text);
            reveal(expr_texts);
            reveal(match_arm_text);
            reveal(match_arm_texts);
            reveal(opt_block_text);
            reveal(opt_expr_text);
            reveal(stmt_text);
            reveal(stmt_texts);
            reveal(string_and_expr_text);
            reveal(string_and_expr_texts);
        }
        r.push(show_match_arm(&xs[i]));
        i += 1;
    }
    proof {
        assert(texts(r@) =~= match_arm_texts(match_arm_seq_view(xs@)));
    }
    r
}

/// The `Debug` texts of some statements.
fn show_stmt_all(xs: &Vec<Stmt>) -> (r: Vec<String>)
    ensures
        texts(r@) == stmt_texts(stmt_seq_view(xs@)),
    decreases xs,
{
    proof {
        reveal(block_text);
        reveal(expr_and_block_text);
        reveal(expr_and_block_texts);
        reveal(expr_text);
        reveal(expr_texts);
        reveal(match_arm_text);
        reveal(match_arm_texts);
        reveal(opt_block_text);
        reveal(opt_expr_text);
        reveal(stmt_text);
        reveal(stmt_texts);
        reveal(string_and_expr_text);
        reveal(string_and_expr_texts);
    }
    let mut r: Vec<String> = Vec::new();
    let mut i: usize = 0;
    while i < xs.len()
        invariant
            i <= xs@.len(),
            r@.len() == i,
            forall|j: int| 0 <= j < i ==> (#[trigger] r@[j])@ == stmt_text(stmt_view(xs@[j])),
        decreases xs@.len() - i,
    {
        proof {
            reveal(block_text);
            reveal(expr_and_block_text);
            reveal(expr_and_block_texts);
            reveal(expr_text);
            reveal(expr_texts);
            reveal(match_arm_text);
            reveal(match_arm_texts);
            reveal(opt_block_text);
            reveal(opt_expr_text);
            reveal(stmt_text);
            reveal(stmt_texts);
            reveal(string_and_expr_text);
            reveal(string_and_expr_texts);
        }
        r.push(show_stmt(&xs[i]));
        i += 1;
    }
    proof {
        assert(texts(r@) =~= stmt_texts(stmt_seq_view(xs@)));
    }
    r
}

fn show_opt_string(x: &Option<String>) -> (r: String)
    ensures
        r@ == opt_string_text(match *x { Some(y) => Some(y@), None => None }),
    decreases x,
{
    proof {
        reveal(opt_string_text);
    }
    match x {
        Some(y) => cat3("Some(", &show_quoted(y), ")"),
        None => "None".to_owned(),
    }
}

fn show_string_and_expr(x: &(String, Expr)) -> (r: String)
    ensures
        r@ == string_and_expr_text((x.0@, expr_view(x.1))),
    decreases x,
{
    proof {
        reveal(block_text);
        reveal(expr_and_block_text);
        reveal(expr_and_block_texts);
        reveal(expr_text);
        reveal(expr_texts);
        reveal(match_arm_text);
        reveal(match_arm_texts);
        reveal(opt_block_text);
        reveal(opt_expr_text);
        reveal(stmt_text);
        reveal(stmt_texts);
        reveal(string_and_expr_text);
        reveal(string_and_expr_texts);
    }
    cat3("(", &show_quoted(&x.0), ", ").concat(&show_expr(&x.1)).concat(")")
}

fn show_opt_expr(x: &Option<Box<Expr>>) -> (r: String)
    ensures
        r@ == opt_expr_text(match *x { Some(y) => Some(Box::new(expr_view(*y))), None => None }),
    decreases x,
{
    proof {
        reveal(block_text);
        reveal(expr_and_block_text);
        reveal(expr_and_block_texts);
        reveal(expr_text);
        reveal(expr_texts);
        reveal(match_arm_text);
        reveal(match_arm_texts);
        reveal(opt_block_text);
        reveal(opt_expr_text);
        reveal(stmt_text);
        reveal(stmt_texts);
        reveal(string_and_expr_text);
        reveal(string_and_expr_texts);
    }
    match x {
        Some(y) => cat3("Some(", &show_expr(y), ")"),
        None => "None".to_owned(),
    }
}

fn show_expr_and_block(x: &(Expr, Block)) -> (r: String)
    ensures
        r@ == expr_and_block_text((expr_view(x.0), block_view(x.1))),
    decreases x,
{
    proof {
        reveal(block_text);
        reveal(expr_and_block_text);
        reveal(expr_and_block_texts);
        reveal(expr_text);
        reveal(expr_texts);
        reveal(match_arm_text);
        reveal(match_arm_texts);
        reveal(opt_block_text);
        reveal(opt_expr_text);
        reveal(stmt_text);
        reveal(stmt_texts);
        reveal(string_and_expr_text);
        reveal(string_and_expr_texts);
    }
    cat3("(", &show_expr(&x.0), ", ").concat(&show_block(&x.1)).concat(")")
}

fn show_opt_block(x: &Option<Block>) -> (r: String)
    ensures
        r@ == opt_block_text(match *x { Some(y) => Some(block_view(y)), None => None }),
    decreases x,
{
    proof {
        reveal(block_text);
        reveal(expr_and_block_text);
        reveal(expr_and_block_texts);
        reveal(expr_text);
        reveal(expr_texts);
        reveal(match_arm_text);
        reveal(match_arm_texts);
        reveal(opt_block_text);
        reveal(opt_expr_text);
        reveal(stmt_text);
        reveal(stmt_texts);
        reveal(string_and_expr_text);
        reveal(string_and_expr_texts);
    }
    match x {
        Some(y) => cat3("Some(", &show_block(y), ")"),
        None => "None".to_owned(),
    }
}

fn show_opt_pattern(x: &Option<Box<Pattern>>) -> (r: String)
    ensures
        r@ == opt_pattern_text(
            match *x { Some(y) => Some(Box::new(pattern_view(*y))), None => None },
        ),
    decreases x,
{
    proof {
        reveal(opt_pattern_text);
        reveal(pattern_text);
    }
    match x {
        Some(y) => cat3("Some(", &show_pattern(y), ")"),
        None => "None".to_owned(),
    }
}

fn show_opt_type(x: &Option<Type>) -> (r: String)
    ensures
        r@ == opt_type_text(match *x { Some(y) => Some(type_view(y)), None => None }),
    decreases x,
{
    proof {
        reveal(opt_type_text);
    }
    match x {
        Some(y) => cat3("Some(", &show_type(y), ")"),
        None => "None".to_owned(),
    }
}

} // verus!
