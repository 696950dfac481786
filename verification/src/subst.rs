//! Substitution of type parameters and const parameters.
use crate::ast::{Block, Expr, MatchArm, Stmt, TraitBound, Type};
use crate::model::{
    BlockView, ExprView, MatchArmView, StmtView, TraitBoundView, TypeView, dup_expr, dup_pattern,
    dup_type, dup_type_seq, expr_block_seq_view, expr_seq_view, match_arm_seq_view, stmt_seq_view,
    string_expr_seq_view, trait_bound_seq_view, type_seq_view,
};
use crate::names::{primitive_name, primitive_type_name};
use crate::text::{same, texts};
use vstd::prelude::*;

verus! {

/// The index of the first of `ps` that is `name`.
pub open spec fn position(ps: Seq<Seq<char>>, name: Seq<char>) -> Option<int>
    decreases ps.len(),
{
    if ps.len() == 0 {
        None
    } else if ps[0] == name {
        Some(0)
    } else {
        match position(ps.drop_first(), name) {
            Some(i) => Some(i + 1),
            None => None,
        }
    }
}

/// What stands in `vals` at the place of the first of `ps` that is `name`.
pub open spec fn lookup<A>(ps: Seq<Seq<char>>, vals: Seq<A>, name: Seq<char>) -> Option<A> {
    match position(ps, name) {
        Some(i) => if i < vals.len() {
            Some(vals[i])
        } else {
            None
        },
        None => None,
    }
}

proof fn lemma_position(ps: Seq<Seq<char>>, name: Seq<char>, i: int)
    requires
        0 <= i <= ps.len(),
        forall|k: int| 0 <= k < i ==> #[trigger] ps[k] != name,
    ensures
        i < ps.len() && ps[i] == name ==> position(ps, name) == Some(i),
        i == ps.len() ==> position(ps, name) is None,
    decreases i,
{
    if i > 0 {
        let t = ps.drop_first();
        assert(ps[0] != name);
        assert forall|k: int| 0 <= k < i - 1 implies #[trigger] t[k] != name by {
            assert(t[k] == ps[k + 1]);
        }
        lemma_position(t, name, i - 1);
    }
}

/// The index of the first of `ps` that is `name`.
pub fn find_name(ps: &Vec<String>, name: &str) -> (r: Option<usize>)
    ensures
        match r {
            Some(i) => i < ps@.len() && position(texts(ps@), name@) == Some(i as int),
            None => position(texts(ps@), name@) is None,
        },
{
    let mut i: usize = 0;
    while i < ps.len()
        invariant
            i <= ps@.len(),
            forall|k: int| 0 <= k < i ==> #[trigger] texts(ps@)[k] != name@,
        decreases ps@.len() - i,
    {
        if same(&ps[i], name) {
            proof {
                lemma_position(texts(ps@), name@, i as int);
            }
            return Some(i);
        }
        i += 1;
    }
    proof {
        lemma_position(texts(ps@), name@, i as int);
    }
    None
}

/// The type that stands for the parameter `name`.
fn find_arg<'a>(ps: &Vec<String>, args: &'a Vec<Type>, name: &str) -> (r: Option<&'a Type>)
    ensures
        match r {
            Some(t) => lookup(texts(ps@), type_seq_view(args@), name@) == Some(t@),
            None => lookup(texts(ps@), type_seq_view(args@), name@) is None,
        },
{
    match find_name(ps, name) {
        Some(i) => if i < args.len() {
            Some(&args[i])
        } else {
            None
        },
        None => None,
    }
}

/// The name that stands for a type in front of `::`: that of a struct or primitive type, or the
/// base of an instance.
#[verifier::opaque]
pub open spec fn subst_owner(
    name: Seq<char>,
    ps: Seq<Seq<char>>,
    args: Seq<TypeView>,
) -> Seq<char> {
    match lookup(ps, args, name) {
        Some(TypeView::GenericInstance(base, _)) => base,
        Some(TypeView::Struct(s)) => s,
        Some(a) => match primitive_name(a) {
            Some(p) => p,
            None => name,
        },
        None => name,
    }
}

fn substitute_owner(name: &str, ps: &Vec<String>, args: &Vec<Type>) -> (r: String)
    ensures
        r@ == subst_owner(name@, texts(ps@), type_seq_view(args@)),
{
    proof {
        reveal(subst_owner);
    }
    match find_arg(ps, args, name) {
        Some(Type::GenericInstance(base, _)) => base.clone(),
        Some(Type::Struct(s)) => s.clone(),
        Some(a) => match primitive_type_name(a) {
            Some(p) => p.to_owned(),
            None => name.to_owned(),
        },
        None => name.to_owned(),
    }
}

/// The name of a struct literal: the base of an instance or a primitive name replaces a parameter.
#[verifier::opaque]
pub open spec fn subst_struct_name(
    name: Seq<char>,
    ps: Seq<Seq<char>>,
    args: Seq<TypeView>,
) -> Seq<char> {
    match lookup(ps, args, name) {
        Some(TypeView::GenericInstance(base, _)) => base,
        Some(a) => match primitive_name(a) {
            Some(p) => p,
            None => name,
        },
        None => name,
    }
}

fn substitute_struct_name(name: &str, ps: &Vec<String>, args: &Vec<Type>) -> (r: String)
    ensures
        r@ == subst_struct_name(name@, texts(ps@), type_seq_view(args@)),
{
    proof {
        reveal(subst_struct_name);
    }
    match find_arg(ps, args, name) {
        Some(Type::GenericInstance(base, _)) => base.clone(),
        Some(a) => match primitive_type_name(a) {
            Some(p) => p.to_owned(),
            None => name.to_owned(),
        },
        None => name.to_owned(),
    }
}

/// The type with its type parameters `ps` replaced by `tys`.
#[verifier::opaque]
pub open spec fn subst_type(x: TypeView, ps: Seq<Seq<char>>, tys: Seq<TypeView>) -> TypeView
    decreases x,
{
    match x {
        TypeView::I8 => TypeView::I8,
        TypeView::I16 => TypeView::I16,
        TypeView::I32 => TypeView::I32,
        TypeView::I64 => TypeView::I64,
        TypeView::U8 => TypeView::U8,
        TypeView::U16 => TypeView::U16,
        TypeView::U32 => TypeView::U32,
        TypeView::U64 => TypeView::U64,
        TypeView::Usize => TypeView::Usize,
        TypeView::Isize => TypeView::Isize,
        TypeView::F32 => TypeView::F32,
        TypeView::F64 => TypeView::F64,
        TypeView::Bool => TypeView::Bool,
        TypeView::Never => TypeView::Never,
        TypeView::Tuple(x0) => TypeView::Tuple(subst_type_seq(x0, ps, tys)),
        TypeView::Unit => TypeView::Unit,
        TypeView::Str => TypeView::Str,
        TypeView::Ptr { inner, is_mut } => TypeView::Ptr {
            inner: Box::new(subst_type(*inner, ps, tys)),
            is_mut,
        },
        TypeView::Ref { inner, is_mut } => TypeView::Ref {
            inner: Box::new(subst_type(*inner, ps, tys)),
            is_mut,
        },
        TypeView::Array { inner, len } => TypeView::Array {
            inner: Box::new(subst_type(*inner, ps, tys)),
            len,
        },
        TypeView::GenericArray { inner, len_var } => TypeView::GenericArray {
            inner: Box::new(subst_type(*inner, ps, tys)),
            len_var,
        },
        TypeView::Slice { inner } => TypeView::Slice {
            inner: Box::new(subst_type(*inner, ps, tys)),
        },
        TypeView::Struct(name) => match lookup(ps, tys, name) {
            Some(a) => a,
            None => x,
        },
        TypeView::GenericInstance(x0, x1) => TypeView::GenericInstance(
            x0,
            subst_type_seq(x1, ps, tys),
        ),
        TypeView::Alias(x0, x1) => TypeView::Alias(x0, subst_type_seq(x1, ps, tys)),
        TypeView::SelfType => TypeView::SelfType,
        TypeView::Infer => TypeView::Infer,
        TypeView::ImplTrait(x0) => TypeView::ImplTrait(subst_trait_bound_seq(x0, ps, tys)),
    }
}

/// The bound with its type parameters replaced.
#[verifier::opaque]
pub open spec fn subst_trait_bound(
    x: TraitBoundView,
    ps: Seq<Seq<char>>,
    tys: Seq<TypeView>,
) -> TraitBoundView
    decreases x,
{
    TraitBoundView {
        trait_name: x.trait_name,
        generic_args: subst_type_seq(x.generic_args, ps, tys),
    }
}

/// The expression with the type parameters `ps` replaced by `tys`: in casts, type arguments and
/// annotations, and where a parameter stands for the owner of a name.
#[verifier::opaque]
pub open spec fn subst_expr(x: ExprView, ps: Seq<Seq<char>>, tys: Seq<TypeView>) -> ExprView
    decreases x,
{
    match x {
        ExprView::BoolLit(x0, x1) => ExprView::BoolLit(x0, x1),
        ExprView::IntLit(x0, x1) => ExprView::IntLit(x0, x1),
        ExprView::FloatLit(x0, x1) => ExprView::FloatLit(x0, x1),
        ExprView::StrLit(x0, x1) => ExprView::StrLit(x0, x1),
        ExprView::Ident(x0, x1) => ExprView::Ident(x0, x1),
        ExprView::Call { callee, args, type_args, span } => ExprView::Call {
            callee,
            args: subst_expr_seq(args, ps, tys),
            type_args: subst_type_seq(type_args, ps, tys),
            span,
        },
        ExprView::QualifiedCall { module, callee, args, type_args, span } => ExprView::QualifiedCall {
            module: subst_owner(module, ps, tys),
            callee,
            args: subst_expr_seq(args, ps, tys),
            type_args: subst_type_seq(type_args, ps, tys),
            span,
        },
        ExprView::Binary { op, lhs, rhs, span } => ExprView::Binary {
            op,
            lhs: Box::new(subst_expr(*lhs, ps, tys)),
            rhs: Box::new(subst_expr(*rhs, ps, tys)),
            span,
        },
        ExprView::Assign { target, value, span } => ExprView::Assign {
            target: Box::new(subst_expr(*target, ps, tys)),
            value: Box::new(subst_expr(*value, ps, tys)),
            span,
        },
        ExprView::Ref { expr, is_mut, span } => ExprView::Ref {
            expr: Box::new(subst_expr(*expr, ps, tys)),
            is_mut,
            span,
        },
        ExprView::UnaryNot(x0, x1) => ExprView::UnaryNot(Box::new(subst_expr(*x0, ps, tys)), x1),
        ExprView::UnaryMinus(x0, x1) => ExprView::UnaryMinus(
            Box::new(subst_expr(*x0, ps, tys)),
            x1,
        ),
        ExprView::Deref(x0, x1) => ExprView::Deref(Box::new(subst_expr(*x0, ps, tys)), x1),
        ExprView::Cast { expr, to_type, span } => ExprView::Cast {
            expr: Box::new(subst_expr(*expr, ps, tys)),
            to_type: subst_type(to_type, ps, tys),
            span,
        },
        ExprView::Tuple(x0, x1) => ExprView::Tuple(subst_expr_seq(x0, ps, tys), x1),
        ExprView::Unit(x0) => ExprView::Unit(x0),
        ExprView::Member { expr, index, field, span } => ExprView::Member {
            expr: Box::new(subst_expr(*expr, ps, tys)),
            index,
            field,
            span,
        },
        ExprView::MethodCall { expr, method, args, type_args, span } => ExprView::MethodCall {
            expr: Box::new(subst_expr(*expr, ps, tys)),
            method,
            args: subst_expr_seq(args, ps, tys),
            type_args: subst_type_seq(type_args, ps, tys),
            span,
        },
        ExprView::StructLit { struct_name, fields, span } => ExprView::StructLit {
            struct_name: subst_struct_name(struct_name, ps, tys),
            fields: subst_string_expr_seq(fields, ps, tys),
            span,
        },
        ExprView::EnumLit { enum_name, variant, payload, span } => ExprView::EnumLit {
            enum_name: subst_owner(enum_name, ps, tys),
            variant,
            payload: match payload {
                Some(y) => Some(Box::new(subst_expr(*y, ps, tys))),
                None => None,
            },
            span,
        },
        ExprView::If { cond, then_block, else_ifs, else_block, span } => ExprView::If {
            cond: Box::new(subst_expr(*cond, ps, tys)),
            then_block: subst_block(then_block, ps, tys),
            else_ifs: subst_expr_block_seq(else_ifs, ps, tys),
            else_block: match else_block { Some(y) => Some(subst_block(y, ps, tys)), None => None },
            span,
        },
        ExprView::Loop { body, span } => ExprView::Loop { body: subst_block(body, ps, tys), span },
        ExprView::While { cond, body, span } => ExprView::While {
            cond: Box::new(subst_expr(*cond, ps, tys)),
            body: subst_block(body, ps, tys),
            span,
        },
        ExprView::For { pattern, container, body, span } => ExprView::For {
            pattern,
            container: Box::new(subst_expr(*container, ps, tys)),
            body: subst_block(body, ps, tys),
            span,
        },
        ExprView::Array(x0, x1) => ExprView::Array(subst_expr_seq(x0, ps, tys), x1),
        ExprView::Repeat(x0, x1, x2) => ExprView::Repeat(
            Box::new(subst_expr(*x0, ps, tys)),
            x1,
            x2,
        ),
        ExprView::Index { array, index, span } => ExprView::Index {
            array: Box::new(subst_expr(*array, ps, tys)),
            index: Box::new(subst_expr(*index, ps, tys)),
            span,
        },
        ExprView::IfLet { pattern, scrutinee, then_block, else_block, span } => ExprView::IfLet {
            pattern,
            scrutinee: Box::new(subst_expr(*scrutinee, ps, tys)),
            then_block: subst_block(then_block, ps, tys),
            else_block: match else_block { Some(y) => Some(subst_block(y, ps, tys)), None => None },
            span,
        },
        ExprView::Match { scrutinee, arms, span } => ExprView::Match {
            scrutinee: Box::new(subst_expr(*scrutinee, ps, tys)),
            arms: subst_match_arm_seq(arms, ps, tys),
            span,
        },
        ExprView::Block(x0, x1) => ExprView::Block(subst_block(x0, ps, tys), x1),
    }
}

/// The block with the type parameters `ps` replaced by `tys`.
#[verifier::opaque]
pub open spec fn subst_block(x: BlockView, ps: Seq<Seq<char>>, tys: Seq<TypeView>) -> BlockView
    decreases x,
{
    BlockView {
        stmts: subst_stmt_seq(x.stmts, ps, tys),
        tail_expr: match x.tail_expr {
            Some(y) => Some(Box::new(subst_expr(*y, ps, tys))),
            None => None,
        },
        span: x.span,
    }
}

/// The statement with the type parameters `ps` replaced by `tys`.
#[verifier::opaque]
pub open spec fn subst_stmt(x: StmtView, ps: Seq<Seq<char>>, tys: Seq<TypeView>) -> StmtView
    decreases x,
{
    match x {
        StmtView::Let { pattern, is_mut, type_ann, init, else_block, span } => StmtView::Let {
            pattern,
            is_mut,
            type_ann: match type_ann { Some(y) => Some(subst_type(y, ps, tys)), None => None },
            init: subst_expr(init, ps, tys),
            else_block: match else_block { Some(y) => Some(subst_block(y, ps, tys)), None => None },
            span,
        },
        StmtView::Const { name, type_ann, init, span } => StmtView::Const {
            name,
            type_ann: match type_ann { Some(y) => Some(subst_type(y, ps, tys)), None => None },
            init: subst_expr(init, ps, tys),
            span,
        },
        StmtView::Expr(x0) => StmtView::Expr(subst_expr(x0, ps, tys)),
        StmtView::Return { value, span } => StmtView::Return {
            value: match value { Some(y) => Some(Box::new(subst_expr(*y, ps, tys))), None => None },
            span,
        },
        StmtView::Continue { span } => StmtView::Continue { span },
        StmtView::Break { value, span } => StmtView::Break {
            value: match value { Some(y) => Some(Box::new(subst_expr(*y, ps, tys))), None => None },
            span,
        },
    }
}

/// The arm with the type parameters `ps` replaced by `tys`.
#[verifier::opaque]
pub open spec fn subst_match_arm(
    x: MatchArmView,
    ps: Seq<Seq<char>>,
    tys: Seq<TypeView>,
) -> MatchArmView
    decreases x,
{
    MatchArmView {
        pattern: x.pattern,
        guard: match x.guard { Some(y) => Some(Box::new(subst_expr(*y, ps, tys))), None => None },
        body: subst_block(x.body, ps, tys),
    }
}

/// The same for each element.
#[verifier::opaque]
pub open spec fn subst_type_seq(
    s: Seq<TypeView>,
    ps: Seq<Seq<char>>,
    tys: Seq<TypeView>,
) -> Seq<TypeView>
    decreases s,
{
    Seq::new(
        s.len(),
        |i: int|
            if 0 <= i < s.len() {
                subst_type(s[i], ps, tys)
            } else {
                arbitrary()
            },
    )
}

/// The same for each element.
#[verifier::opaque]
pub open spec fn subst_trait_bound_seq(
    s: Seq<TraitBoundView>,
    ps: Seq<Seq<char>>,
    tys: Seq<TypeView>,
) -> Seq<TraitBoundView>
    decreases s,
{
    Seq::new(
        s.len(),
        |i: int|
            if 0 <= i < s.len() {
                subst_trait_bound(s[i], ps, tys)
            } else {
                arbitrary()
            },
    )
}

/// The same for each element.
#[verifier::opaque]
pub open spec fn subst_expr_seq(
    s: Seq<ExprView>,
    ps: Seq<Seq<char>>,
    tys: Seq<TypeView>,
) -> Seq<ExprView>
    decreases s,
{
    Seq::new(
        s.len(),
        |i: int|
            if 0 <= i < s.len() {
                subst_expr(s[i], ps, tys)
            } else {
                arbitrary()
            },
    )
}

/// The same for each element.
#[verifier::opaque]
pub open spec fn subst_string_expr_seq(
    s: Seq<(Seq<char>, ExprView)>,
    ps: Seq<Seq<char>>,
    tys: Seq<TypeView>,
) -> Seq<(Seq<char>, ExprView)>
    decreases s,
{
    Seq::new(
        s.len(),
        |i: int|
            if 0 <= i < s.len() {
                (s[i].0, subst_expr(s[i].1, ps, tys))
            } else {
                arbitrary()
            },
    )
}

/// The same for each element.
#[verifier::opaque]
pub open spec fn subst_expr_block_seq(
    s: Seq<(ExprView, BlockView)>,
    ps: Seq<Seq<char>>,
    tys: Seq<TypeView>,
) -> Seq<(ExprView, BlockView)>
    decreases s,
{
    Seq::new(
        s.len(),
        |i: int|
            if 0 <= i < s.len() {
                (subst_expr(s[i].0, ps, tys), subst_block(s[i].1, ps, tys))
            } else {
                arbitrary()
            },
    )
}

/// The same for each element.
#[verifier::opaque]
pub open spec fn subst_match_arm_seq(
    s: Seq<MatchArmView>,
    ps: Seq<Seq<char>>,
    tys: Seq<TypeView>,
) -> Seq<MatchArmView>
    decreases s,
{
    Seq::new(
        s.len(),
        |i: int|
            if 0 <= i < s.len() {
                subst_match_arm(s[i], ps, tys)
            } else {
                arbitrary()
            },
    )
}

/// The same for each element.
#[verifier::opaque]
pub open spec fn subst_stmt_seq(
    s: Seq<StmtView>,
    ps: Seq<Seq<char>>,
    tys: Seq<TypeView>,
) -> Seq<StmtView>
    decreases s,
{
    Seq::new(
        s.len(),
        |i: int|
            if 0 <= i < s.len() {
                subst_stmt(s[i], ps, tys)
            } else {
                arbitrary()
            },
    )
}

/// The type with its type parameters `ps` replaced by `tys`.
pub fn substitute_type_params(x: &Type, ps: &Vec<String>, tys: &Vec<Type>) -> (r: Type)
    ensures
        r@ == subst_type(x@, texts(ps@), type_seq_view(tys@)),
    decreases x,
{
    proof {
        reveal(subst_trait_bound);
        reveal(subst_trait_bound_seq);
        reveal(subst_type);
        reveal(subst_type_seq);
    }
    match x {
        Type::I8 => Type::I8,
        Type::I16 => Type::I16,
        Type::I32 => Type::I32,
        Type::I64 => Type::I64,
        Type::U8 => Type::U8,
        Type::U16 => Type::U16,
        Type::U32 => Type::U32,
        Type::U64 => Type::U64,
        Type::Usize => Type::Usize,
        Type::Isize => Type::Isize,
        Type::F32 => Type::F32,
        Type::F64 => Type::F64,
        Type::Bool => Type::Bool,
        Type::Never => Type::Never,
        Type::Tuple(x0) => Type::Tuple(substitute_type_seq(x0, ps, tys)),
        Type::Unit => Type::Unit,
        Type::Str => Type::Str,
        Type::Ptr { inner, is_mut } => Type::Ptr {
            inner: Box::new(substitute_type_params(inner, ps, tys)),
            is_mut: *is_mut,
        },
        Type::Ref { inner, is_mut } => Type::Ref {
            inner: Box::new(substitute_type_params(inner, ps, tys)),
            is_mut: *is_mut,
        },
        Type::Array { inner, len } => Type::Array {
            inner: Box::new(substitute_type_params(inner, ps, tys)),
            len: *len,
        },
        Type::GenericArray { inner, len_var } => Type::GenericArray {
            inner: Box::new(substitute_type_params(inner, ps, tys)),
            len_var: len_var.clone(),
        },
        Type::Slice { inner } => Type::Slice {
            inner: Box::new(substitute_type_params(inner, ps, tys)),
        },
        Type::Struct(name) => match find_arg(ps, tys, name) {
            Some(a) => dup_type(a),
            None => dup_type(x),
        },
        Type::GenericInstance(x0, x1) => Type::GenericInstance(
            x0.clone(),
            substitute_type_seq(x1, ps, tys),
        ),
        Type::Alias(x0, x1) => Type::Alias(x0.clone(), substitute_type_seq(x1, ps, tys)),
        Type::SelfType => Type::SelfType,
        Type::Infer => Type::Infer,
        Type::ImplTrait(x0) => Type::ImplTrait(substitute_trait_bound_seq(x0, ps, tys)),
    }
}

/// The bound with its type parameters replaced.
pub fn substitute_trait_bound(x: &TraitBound, ps: &Vec<String>, tys: &Vec<Type>) -> (r: TraitBound)
    ensures
        r@ == subst_trait_bound(x@, texts(ps@), type_seq_view(tys@)),
    decreases x,
{
    proof {
        reveal(subst_trait_bound);
        reveal(subst_trait_bound_seq);
        reveal(subst_type);
        reveal(subst_type_seq);
    }
    TraitBound {
        trait_name: x.trait_name.clone(),
        generic_args: substitute_type_seq(&x.generic_args, ps, tys),
    }
}

/// The expression with the type parameters `ps` replaced by `tys`: in casts, type arguments and
/// annotations, and where a parameter stands for the owner of a name.
pub fn m_substitute_types_in_expr(x: &Expr, ps: &Vec<String>, tys: &Vec<Type>) -> (r: Expr)
    ensures
        r@ == subst_expr(x@, texts(ps@), type_seq_view(tys@)),
    decreases x,
{
    proof {
        reveal(subst_block);
        reveal(subst_expr);
        reveal(subst_expr_block_seq);
        reveal(subst_expr_seq);
        reveal(subst_match_arm);
        reveal(subst_match_arm_seq);
        reveal(subst_stmt);
        reveal(subst_stmt_seq);
        reveal(subst_string_expr_seq);
    }
    match x {
        Expr::BoolLit(x0, x1) => Expr::BoolLit(*x0, *x1),
        Expr::IntLit(x0, x1) => Expr::IntLit(*x0, *x1),
        Expr::FloatLit(x0, x1) => Expr::FloatLit(x0.clone(), *x1),
        Expr::StrLit(x0, x1) => Expr::StrLit(x0.clone(), *x1),
        Expr::Ident(x0, x1) => Expr::Ident(x0.clone(), *x1),
        Expr::Call { callee, args, type_args, span } => Expr::Call {
            callee: callee.clone(),
            args: substitute_expr_seq(args, ps, tys),
            type_args: substitute_type_seq(type_args, ps, tys),
            span: *span,
        },
        Expr::QualifiedCall { module, callee, args, type_args, span } => Expr::QualifiedCall {
            module: substitute_owner(module, ps, tys),
            callee: callee.clone(),
            args: substitute_expr_seq(args, ps, tys),
            type_args: substitute_type_seq(type_args, ps, tys),
            span: *span,
        },
        Expr::Binary { op, lhs, rhs, span } => Expr::Binary {
            op: *op,
            lhs: Box::new(m_substitute_types_in_expr(lhs, ps, tys)),
            rhs: Box::new(m_substitute_types_in_expr(rhs, ps, tys)),
            span: *span,
        },
        Expr::Assign { target, value, span } => Expr::Assign {
            target: Box::new(m_substitute_types_in_expr(target, ps, tys)),
            value: Box::new(m_substitute_types_in_expr(value, ps, tys)),
            span: *span,
        },
        Expr::Ref { expr, is_mut, span } => Expr::Ref {
            expr: Box::new(m_substitute_types_in_expr(expr, ps, tys)),
            is_mut: *is_mut,
            span: *span,
        },
        Expr::UnaryNot(x0, x1) => Expr::UnaryNot(
            Box::new(m_substitute_types_in_expr(x0, ps, tys)),
            *x1,
        ),
        Expr::UnaryMinus(x0, x1) => Expr::UnaryMinus(
            Box::new(m_substitute_types_in_expr(x0, ps, tys)),
            *x1,
        ),
        Expr::Deref(x0, x1) => Expr::Deref(Box::new(m_substitute_types_in_expr(x0, ps, tys)), *x1),
        Expr::Cast { expr, to_type, span } => Expr::Cast {
            expr: Box::new(m_substitute_types_in_expr(expr, ps, tys)),
            to_type: substitute_type_params(to_type, ps, tys),
            span: *span,
        },
        Expr::Tuple(x0, x1) => Expr::Tuple(substitute_expr_seq(x0, ps, tys), *x1),
        Expr::Unit(x0) => Expr::Unit(*x0),
        Expr::Member { expr, index, field, span } => Expr::Member {
            expr: Box::new(m_substitute_types_in_expr(expr, ps, tys)),
            index: *index,
            field: match field { Some(y) => Some(y.clone()), None => None },
            span: *span,
        },
        Expr::MethodCall { expr, method, args, type_args, span } => Expr::MethodCall {
            expr: Box::new(m_substitute_types_in_expr(expr, ps, tys)),
            method: method.clone(),
            args: substitute_expr_seq(args, ps, tys),
            type_args: substitute_type_seq(type_args, ps, tys),
            span: *span,
        },
        Expr::StructLit { struct_name, fields, span } => Expr::StructLit {
            struct_name: substitute_struct_name(struct_name, ps, tys),
            fields: substitute_string_expr_seq(fields, ps, tys),
            span: *span,
        },
        Expr::EnumLit { enum_name, variant, payload, span } => Expr::EnumLit {
            enum_name: substitute_owner(enum_name, ps, tys),
            variant: variant.clone(),
            payload: match payload {
                Some(y) => Some(Box::new(m_substitute_types_in_expr(y, ps, tys))),
                None => None,
            },
            span: *span,
        },
        Expr::If { cond, then_block, else_ifs, else_block, span } => Expr::If {
            cond: Box::new(m_substitute_types_in_expr(cond, ps, tys)),
            then_block: m_substitute_block(then_block, ps, tys),
            else_ifs: substitute_expr_block_seq(else_ifs, ps, tys),
            else_block: match else_block {
                Some(y) => Some(m_substitute_block(y, ps, tys)),
                None => None,
            },
            span: *span,
        },
        Expr::Loop { body, span } => Expr::Loop {
            body: m_substitute_block(body, ps, tys),
            span: *span,
        },
        Expr::While { cond, body, span } => Expr::While {
            cond: Box::new(m_substitute_types_in_expr(cond, ps, tys)),
            body: m_substitute_block(body, ps, tys),
            span: *span,
        },
        Expr::For { pattern, container, body, span } => Expr::For {
            pattern: dup_pattern(pattern),
            container: Box::new(m_substitute_types_in_expr(container, ps, tys)),
            body: m_substitute_block(body, ps, tys),
            span: *span,
        },
        Expr::Array(x0, x1) => Expr::Array(substitute_expr_seq(x0, ps, tys), *x1),
        Expr::Repeat(x0, x1, x2) => Expr::Repeat(
            Box::new(m_substitute_types_in_expr(x0, ps, tys)),
            *x1,
            *x2,
        ),
        Expr::Index { array, index, span } => Expr::Index {
            array: Box::new(m_substitute_types_in_expr(array, ps, tys)),
            index: Box::new(m_substitute_types_in_expr(index, ps, tys)),
            span: *span,
        },
        Expr::IfLet { pattern, scrutinee, then_block, else_block, span } => Expr::IfLet {
            pattern: dup_pattern(pattern),
            scrutinee: Box::new(m_substitute_types_in_expr(scrutinee, ps, tys)),
            then_block: m_substitute_block(then_block, ps, tys),
            else_block: match else_block {
                Some(y) => Some(m_substitute_block(y, ps, tys)),
                None => None,
            },
            span: *span,
        },
        Expr::Match { scrutinee, arms, span } => Expr::Match {
            scrutinee: Box::new(m_substitute_types_in_expr(scrutinee, ps, tys)),
            arms: substitute_match_arm_seq(arms, ps, tys),
            span: *span,
        },
        Expr::Block(x0, x1) => Expr::Block(m_substitute_block(x0, ps, tys), *x1),
    }
}

/// The block with the type parameters `ps` replaced by `tys`.
pub fn m_substitute_block(x: &Block, ps: &Vec<String>, tys: &Vec<Type>) -> (r: Block)
    ensures
        r@ == subst_block(x@, texts(ps@), type_seq_view(tys@)),
    decreases x,
{
    proof {
        reveal(subst_block);
        reveal(subst_expr);
        reveal(subst_expr_block_seq);
        reveal(subst_expr_seq);
        reveal(subst_match_arm);
        reveal(subst_match_arm_seq);
        reveal(subst_stmt);
        reveal(subst_stmt_seq);
        reveal(subst_string_expr_seq);
    }
    Block {
        stmts: substitute_stmt_seq(&x.stmts, ps, tys),
        tail_expr: match &x.tail_expr {
            Some(y) => Some(Box::new(m_substitute_types_in_expr(y, ps, tys))),
            None => None,
        },
        span: x.span,
    }
}

/// The statement with the type parameters `ps` replaced by `tys`.
pub fn substitute_stmt(x: &Stmt, ps: &Vec<String>, tys: &Vec<Type>) -> (r: Stmt)
    ensures
        r@ == subst_stmt(x@, texts(ps@), type_seq_view(tys@)),
    decreases x,
{
    proof {
        reveal(subst_block);
        reveal(subst_expr);
        reveal(subst_expr_block_seq);
        reveal(subst_expr_seq);
        reveal(subst_match_arm);
        reveal(subst_match_arm_seq);
        reveal(subst_stmt);
        reveal(subst_stmt_seq);
        reveal(subst_string_expr_seq);
    }
    match x {
        Stmt::Let { pattern, is_mut, type_ann, init, else_block, span } => Stmt::Let {
            pattern: dup_pattern(pattern),
            is_mut: *is_mut,
            type_ann: match type_ann {
                Some(y) => Some(substitute_type_params(y, ps, tys)),
                None => None,
            },
            init: m_substitute_types_in_expr(init, ps, tys),
            else_block: match else_block {
                Some(y) => Some(m_substitute_block(y, ps, tys)),
                None => None,
            },
            span: *span,
        },
        Stmt::Const { name, type_ann, init, span } => Stmt::Const {
            name: name.clone(),
            type_ann: match type_ann {
                Some(y) => Some(substitute_type_params(y, ps, tys)),
                None => None,
            },
            init: m_substitute_types_in_expr(init, ps, tys),
            span: *span,
        },
        Stmt::Expr(x0) => Stmt::Expr(m_substitute_types_in_expr(x0, ps, tys)),
        Stmt::Return { value, span } => Stmt::Return {
            value: match value {
                Some(y) => Some(Box::new(m_substitute_types_in_expr(y, ps, tys))),
                None => None,
            },
            span: *span,
        },
        Stmt::Continue { span } => Stmt::Continue { span: *span },
        Stmt::Break { value, span } => Stmt::Break {
            value: match value {
                Some(y) => Some(Box::new(m_substitute_types_in_expr(y, ps, tys))),
                None => None,
            },
            span: *span,
        },
    }
}

/// The arm with the type parameters `ps` replaced by `tys`.
pub fn substitute_match_arm(x: &MatchArm, ps: &Vec<String>, tys: &Vec<Type>) -> (r: MatchArm)
    ensures
        r@ == subst_match_arm(x@, texts(ps@), type_seq_view(tys@)),
    decreases x,
{
    proof {
        reveal(subst_block);
        reveal(subst_expr);
        reveal(subst_expr_block_seq);
        reveal(subst_expr_seq);
        reveal(subst_match_arm);
        reveal(subst_match_arm_seq);
        reveal(subst_stmt);
        reveal(subst_stmt_seq);
        reveal(subst_string_expr_seq);
    }
    MatchArm {
        pattern: dup_pattern(&x.pattern),
        guard: match &x.guard {
            Some(y) => Some(Box::new(m_substitute_types_in_expr(y, ps, tys))),
            None => None,
        },
        body: m_substitute_block(&x.body, ps, tys),
    }
}

fn substitute_type_seq(v: &Vec<Type>, ps: &Vec<String>, tys: &Vec<Type>) -> (r: Vec<Type>)
    ensures
        type_seq_view(r@) == subst_type_seq(type_seq_view(v@), texts(ps@), type_seq_view(tys@)),
    decreases v,
{
    proof {
        reveal(subst_trait_bound);
        reveal(subst_trait_bound_seq);
        reveal(subst_type);
        reveal(subst_type_seq);
    }
    let mut r: Vec<Type> = Vec::new();
    let ghost want = subst_type_seq(type_seq_view(v@), texts(ps@), type_seq_view(tys@));
    let mut i: usize = 0;
    while i < v.len()
        invariant
            i <= v@.len(),
            r@.len() == i,
            want == subst_type_seq(type_seq_view(v@), texts(ps@), type_seq_view(tys@)),
            forall|k: int| 0 <= k < i ==> type_seq_view(r@)[k] == want[k],
        decreases v@.len() - i,
    {
        proof {
            reveal(subst_trait_bound);
            reveal(subst_trait_bound_seq);
            reveal(subst_type);
            reveal(subst_type_seq);
        }
        let c = substitute_type_params(&v[i], ps, tys);
        let ghost before = r@;
        r.push(c);
        proof {
            assert forall|k: int| 0 <= k < i + 1 implies type_seq_view(r@)[k] == want[k] by {
                if k < i {
                    assert(type_seq_view(before)[k] == want[k]);
                }
            }
        }
        i += 1;
    }
    proof {
        assert(type_seq_view(r@) =~= want);
    }
    r
}

fn substitute_trait_bound_seq(
    v: &Vec<TraitBound>,
    ps: &Vec<String>,
    tys: &Vec<Type>,
) -> (r: Vec<TraitBound>)
    ensures
        trait_bound_seq_view(r@) == subst_trait_bound_seq(
            trait_bound_seq_view(v@),
            texts(ps@),
            type_seq_view(tys@),
        ),
    decreases v,
{
    proof {
        reveal(subst_trait_bound);
        reveal(subst_trait_bound_seq);
        reveal(subst_type);
        reveal(subst_type_seq);
    }
    let mut r: Vec<TraitBound> = Vec::new();
    let ghost want = subst_trait_bound_seq(
        trait_bound_seq_view(v@),
        texts(ps@),
        type_seq_view(tys@),
    );
    let mut i: usize = 0;
    while i < v.len()
        invariant
            i <= v@.len(),
            r@.len() == i,
            want == subst_trait_bound_seq(
                trait_bound_seq_view(v@),
                texts(ps@),
                type_seq_view(tys@),
            ),
            forall|k: int| 0 <= k < i ==> trait_bound_seq_view(r@)[k] == want[k],
        decreases v@.len() - i,
    {
        proof {
            reveal(subst_trait_bound);
            reveal(subst_trait_bound_seq);
            reveal(subst_type);
            reveal(subst_type_seq);
        }
        let c = substitute_trait_bound(&v[i], ps, tys);
        let ghost before = r@;
        r.push(c);
        proof {
            assert forall|k: int| 0 <= k < i + 1 implies trait_bound_seq_view(r@)[k] == want[k] by {
                if k < i {
                    assert(trait_bound_seq_view(before)[k] == want[k]);
                }
            }
        }
        i += 1;
    }
    proof {
        assert(trait_bound_seq_view(r@) =~= want);
    }
    r
}

fn substitute_expr_seq(v: &Vec<Expr>, ps: &Vec<String>, tys: &Vec<Type>) -> (r: Vec<Expr>)
    ensures
        expr_seq_view(r@) == subst_expr_seq(expr_seq_view(v@), texts(ps@), type_seq_view(tys@)),
    decreases v,
{
    proof {
        reveal(subst_block);
        reveal(subst_expr);
        reveal(subst_expr_block_seq);
        reveal(subst_expr_seq);
        reveal(subst_match_arm);
        reveal(subst_match_arm_seq);
        reveal(subst_stmt);
        reveal(subst_stmt_seq);
        reveal(subst_string_expr_seq);
    }
    let mut r: Vec<Expr> = Vec::new();
    let ghost want = subst_expr_seq(expr_seq_view(v@), texts(ps@), type_seq_view(tys@));
    let mut i: usize = 0;
    while i < v.len()
        invariant
            i <= v@.len(),
            r@.len() == i,
            want == subst_expr_seq(expr_seq_view(v@), texts(ps@), type_seq_view(tys@)),
            forall|k: int| 0 <= k < i ==> expr_seq_view(r@)[k] == want[k],
        decreases v@.len() - i,
    {
        proof {
            reveal(subst_block);
            reveal(subst_expr);
            reveal(subst_expr_block_seq);
            reveal(subst_expr_seq);
            reveal(subst_match_arm);
            reveal(subst_match_arm_seq);
            reveal(subst_stmt);
            reveal(subst_stmt_seq);
            reveal(subst_string_expr_seq);
        }
        let c = m_substitute_types_in_expr(&v[i], ps, tys);
        let ghost before = r@;
        r.push(c);
        proof {
            assert forall|k: int| 0 <= k < i + 1 implies expr_seq_view(r@)[k] == want[k] by {
                if k < i {
                    assert(expr_seq_view(before)[k] == want[k]);
                }
            }
        }
        i += 1;
    }
    proof {
        assert(expr_seq_view(r@) =~= want);
    }
    r
}

fn substitute_string_expr_seq(
    v: &Vec<(String, Expr)>,
    ps: &Vec<String>,
    tys: &Vec<Type>,
) -> (r: Vec<(String, Expr)>)
    ensures
        string_expr_seq_view(r@) == subst_string_expr_seq(
            string_expr_seq_view(v@),
            texts(ps@),
            type_seq_view(tys@),
        ),
    decreases v,
{
    proof {
        reveal(subst_block);
        reveal(subst_expr);
        reveal(subst_expr_block_seq);
        reveal(subst_expr_seq);
        reveal(subst_match_arm);
        reveal(subst_match_arm_seq);
        reveal(subst_stmt);
        reveal(subst_stmt_seq);
        reveal(subst_string_expr_seq);
    }
    let mut r: Vec<(String, Expr)> = Vec::new();
    let ghost want = subst_string_expr_seq(
        string_expr_seq_view(v@),
        texts(ps@),
        type_seq_view(tys@),
    );
    let mut i: usize = 0;
    while i < v.len()
        invariant
            i <= v@.len(),
            r@.len() == i,
            want == subst_string_expr_seq(
                string_expr_seq_view(v@),
                texts(ps@),
                type_seq_view(tys@),
            ),
            forall|k: int| 0 <= k < i ==> string_expr_seq_view(r@)[k] == want[k],
        decreases v@.len() - i,
    {
        proof {
            reveal(subst_block);
            reveal(subst_expr);
            reveal(subst_expr_block_seq);
            reveal(subst_expr_seq);
            reveal(subst_match_arm);
            reveal(subst_match_arm_seq);
            reveal(subst_stmt);
            reveal(subst_stmt_seq);
            reveal(subst_string_expr_seq);
        }
        let c = (v[i].0.clone(), m_substitute_types_in_expr(&v[i].1, ps, tys));
        let ghost before = r@;
        r.push(c);
        proof {
            assert forall|k: int| 0 <= k < i + 1 implies string_expr_seq_view(r@)[k] == want[k] by {
                if k < i {
                    assert(string_expr_seq_view(before)[k] == want[k]);
                }
            }
        }
        i += 1;
    }
    proof {
        assert(string_expr_seq_view(r@) =~= want);
    }
    r
}

fn substitute_expr_block_seq(
    v: &Vec<(Expr, Block)>,
    ps: &Vec<String>,
    tys: &Vec<Type>,
) -> (r: Vec<(Expr, Block)>)
    ensures
        expr_block_seq_view(r@) == subst_expr_block_seq(
            expr_block_seq_view(v@),
            texts(ps@),
            type_seq_view(tys@),
        ),
    decreases v,
{
    proof {
        reveal(subst_block);
        reveal(subst_expr);
        reveal(subst_expr_block_seq);
        reveal(subst_expr_seq);
        reveal(subst_match_arm);
        reveal(subst_match_arm_seq);
        reveal(subst_stmt);
        reveal(subst_stmt_seq);
        reveal(subst_string_expr_seq);
    }
    let mut r: Vec<(Expr, Block)> = Vec::new();
    let ghost want = subst_expr_block_seq(expr_block_seq_view(v@), texts(ps@), type_seq_view(tys@));
    let mut i: usize = 0;
    while i < v.len()
        invariant
            i <= v@.len(),
            r@.len() == i,
            want == subst_expr_block_seq(expr_block_seq_view(v@), texts(ps@), type_seq_view(tys@)),
            forall|k: int| 0 <= k < i ==> expr_block_seq_view(r@)[k] == want[k],
        decreases v@.len() - i,
    {
        proof {
            reveal(subst_block);
            reveal(subst_expr);
            reveal(subst_expr_block_seq);
            reveal(subst_expr_seq);
            reveal(subst_match_arm);
            reveal(subst_match_arm_seq);
            reveal(subst_stmt);
            reveal(subst_stmt_seq);
            reveal(subst_string_expr_seq);
        }
        let c = (
            m_substitute_types_in_expr(&v[i].0, ps, tys),
            m_substitute_block(&v[i].1, ps, tys),
        );
        let ghost before = r@;
        r.push(c);
        proof {
            assert forall|k: int| 0 <= k < i + 1 implies expr_block_seq_view(r@)[k] == want[k] by {
                if k < i {
                    assert(expr_block_seq_view(before)[k] == want[k]);
                }
            }
        }
        i += 1;
    }
    proof {
        assert(expr_block_seq_view(r@) =~= want);
    }
    r
}

fn substitute_match_arm_seq(
    v: &Vec<MatchArm>,
    ps: &Vec<String>,
    tys: &Vec<Type>,
) -> (r: Vec<MatchArm>)
    ensures
        match_arm_seq_view(r@) == subst_match_arm_seq(
            match_arm_seq_view(v@),
            texts(ps@),
            type_seq_view(tys@),
        ),
    decreases v,
{
    proof {
        reveal(subst_block);
        reveal(subst_expr);
        reveal(subst_expr_block_seq);
        reveal(subst_expr_seq);
        reveal(subst_match_arm);
        reveal(subst_match_arm_seq);
        reveal(subst_stmt);
        reveal(subst_stmt_seq);
        reveal(subst_string_expr_seq);
    }
    let mut r: Vec<MatchArm> = Vec::new();
    let ghost want = subst_match_arm_seq(match_arm_seq_view(v@), texts(ps@), type_seq_view(tys@));
    let mut i: usize = 0;
    while i < v.len()
        invariant
            i <= v@.len(),
            r@.len() == i,
            want == subst_match_arm_seq(match_arm_seq_view(v@), texts(ps@), type_seq_view(tys@)),
            forall|k: int| 0 <= k < i ==> match_arm_seq_view(r@)[k] == want[k],
        decreases v@.len() - i,
    {
        proof {
            reveal(subst_block);
            reveal(subst_expr);
            reveal(subst_expr_block_seq);
            reveal(subst_expr_seq);
            reveal(subst_match_arm);
            reveal(subst_match_arm_seq);
            reveal(subst_stmt);
            reveal(subst_stmt_seq);
            reveal(subst_string_expr_seq);
        }
        let c = substitute_match_arm(&v[i], ps, tys);
        let ghost before = r@;
        r.push(c);
        proof {
            assert forall|k: int| 0 <= k < i + 1 implies match_arm_seq_view(r@)[k] == want[k] by {
                if k < i {
                    assert(match_arm_seq_view(before)[k] == want[k]);
                }
            }
        }
        i += 1;
    }
    proof {
        assert(match_arm_seq_view(r@) =~= want);
    }
    r
}

fn substitute_stmt_seq(v: &Vec<Stmt>, ps: &Vec<String>, tys: &Vec<Type>) -> (r: Vec<Stmt>)
    ensures
        stmt_seq_view(r@) == subst_stmt_seq(stmt_seq_view(v@), texts(ps@), type_seq_view(tys@)),
    decreases v,
{
    proof {
        reveal(subst_block);
        reveal(subst_expr);
        reveal(subst_expr_block_seq);
        reveal(subst_expr_seq);
        reveal(subst_match_arm);
        reveal(subst_match_arm_seq);
        reveal(subst_stmt);
        reveal(subst_stmt_seq);
        reveal(subst_string_expr_seq);
    }
    let mut r: Vec<Stmt> = Vec::new();
    let ghost want = subst_stmt_seq(stmt_seq_view(v@), texts(ps@), type_seq_view(tys@));
    let mut i: usize = 0;
    while i < v.len()
        invariant
            i <= v@.len(),
            r@.len() == i,
            want == subst_stmt_seq(stmt_seq_view(v@), texts(ps@), type_seq_view(tys@)),
            forall|k: int| 0 <= k < i ==> stmt_seq_view(r@)[k] == want[k],
        decreases v@.len() - i,
    {
        proof {
            reveal(subst_block);
            reveal(subst_expr);
            reveal(subst_expr_block_seq);
            reveal(subst_expr_seq);
            reveal(subst_match_arm);
            reveal(subst_match_arm_seq);
            reveal(subst_stmt);
            reveal(subst_stmt_seq);
            reveal(subst_string_expr_seq);
        }
        let c = substitute_stmt(&v[i], ps, tys);
        let ghost before = r@;
        r.push(c);
        proof {
            assert forall|k: int| 0 <= k < i + 1 implies stmt_seq_view(r@)[k] == want[k] by {
                if k < i {
                    assert(stmt_seq_view(before)[k] == want[k]);
                }
            }
        }
        i += 1;
    }
    proof {
        assert(stmt_seq_view(r@) =~= want);
    }
    r
}

/// The expression with every identifier that is one of the const parameters `ps`, at any depth,
/// replaced by its literal in `vals`.
#[verifier::opaque]
pub open spec fn inline_expr(x: ExprView, ps: Seq<Seq<char>>, vals: Seq<i64>) -> ExprView
    decreases x,
{
    match x {
        ExprView::BoolLit(x0, x1) => ExprView::BoolLit(x0, x1),
        ExprView::IntLit(x0, x1) => ExprView::IntLit(x0, x1),
        ExprView::FloatLit(x0, x1) => ExprView::FloatLit(x0, x1),
        ExprView::StrLit(x0, x1) => ExprView::StrLit(x0, x1),
        ExprView::Ident(name, span) => match lookup(ps, vals, name) {
            Some(v) => ExprView::IntLit(v, span),
            None => x,
        },
        ExprView::Call { callee, args, type_args, span } => ExprView::Call {
            callee,
            args: inline_expr_seq(args, ps, vals),
            type_args,
            span,
        },
        ExprView::QualifiedCall { module, callee, args, type_args, span } => ExprView::QualifiedCall {
            module,
            callee,
            args: inline_expr_seq(args, ps, vals),
            type_args,
            span,
        },
        ExprView::Binary { op, lhs, rhs, span } => ExprView::Binary {
            op,
            lhs: Box::new(inline_expr(*lhs, ps, vals)),
            rhs: Box::new(inline_expr(*rhs, ps, vals)),
            span,
        },
        ExprView::Assign { target, value, span } => ExprView::Assign {
            target: Box::new(inline_expr(*target, ps, vals)),
            value: Box::new(inline_expr(*value, ps, vals)),
            span,
        },
        ExprView::Ref { expr, is_mut, span } => ExprView::Ref {
            expr: Box::new(inline_expr(*expr, ps, vals)),
            is_mut,
            span,
        },
        ExprView::UnaryNot(x0, x1) => ExprView::UnaryNot(Box::new(inline_expr(*x0, ps, vals)), x1),
        ExprView::UnaryMinus(x0, x1) => ExprView::UnaryMinus(
            Box::new(inline_expr(*x0, ps, vals)),
            x1,
        ),
        ExprView::Deref(x0, x1) => ExprView::Deref(Box::new(inline_expr(*x0, ps, vals)), x1),
        ExprView::Cast { expr, to_type, span } => ExprView::Cast {
            expr: Box::new(inline_expr(*expr, ps, vals)),
            to_type,
            span,
        },
        ExprView::Tuple(x0, x1) => ExprView::Tuple(inline_expr_seq(x0, ps, vals), x1),
        ExprView::Unit(x0) => ExprView::Unit(x0),
        ExprView::Member { expr, index, field, span } => ExprView::Member {
            expr: Box::new(inline_expr(*expr, ps, vals)),
            index,
            field,
            span,
        },
        ExprView::MethodCall { expr, method, args, type_args, span } => ExprView::MethodCall {
            expr: Box::new(inline_expr(*expr, ps, vals)),
            method,
            args: inline_expr_seq(args, ps, vals),
            type_args,
            span,
        },
        ExprView::StructLit { struct_name, fields, span } => ExprView::StructLit {
            struct_name,
            fields: inline_string_expr_seq(fields, ps, vals),
            span,
        },
        ExprView::EnumLit { enum_name, variant, payload, span } => ExprView::EnumLit {
            enum_name,
            variant,
            payload: match payload {
                Some(y) => Some(Box::new(inline_expr(*y, ps, vals))),
                None => None,
            },
            span,
        },
        ExprView::If { cond, then_block, else_ifs, else_block, span } => ExprView::If {
            cond: Box::new(inline_expr(*cond, ps, vals)),
            then_block: inline_block(then_block, ps, vals),
            else_ifs: inline_expr_block_seq(else_ifs, ps, vals),
            else_block: match else_block {
                Some(y) => Some(inline_block(y, ps, vals)),
                None => None,
            },
            span,
        },
        ExprView::Loop { body, span } => ExprView::Loop {
            body: inline_block(body, ps, vals),
            span,
        },
        ExprView::While { cond, body, span } => ExprView::While {
            cond: Box::new(inline_expr(*cond, ps, vals)),
            body: inline_block(body, ps, vals),
            span,
        },
        ExprView::For { pattern, container, body, span } => ExprView::For {
            pattern,
            container: Box::new(inline_expr(*container, ps, vals)),
            body: inline_block(body, ps, vals),
            span,
        },
        ExprView::Array(x0, x1) => ExprView::Array(inline_expr_seq(x0, ps, vals), x1),
        ExprView::Repeat(x0, x1, x2) => ExprView::Repeat(
            Box::new(inline_expr(*x0, ps, vals)),
            x1,
            x2,
        ),
        ExprView::Index { array, index, span } => ExprView::Index {
            array: Box::new(inline_expr(*array, ps, vals)),
            index: Box::new(inline_expr(*index, ps, vals)),
            span,
        },
        ExprView::IfLet { pattern, scrutinee, then_block, else_block, span } => ExprView::IfLet {
            pattern,
            scrutinee: Box::new(inline_expr(*scrutinee, ps, vals)),
            then_block: inline_block(then_block, ps, vals),
            else_block: match else_block {
                Some(y) => Some(inline_block(y, ps, vals)),
                None => None,
            },
            span,
        },
        ExprView::Match { scrutinee, arms, span } => ExprView::Match {
            scrutinee: Box::new(inline_expr(*scrutinee, ps, vals)),
            arms: inline_match_arm_seq(arms, ps, vals),
            span,
        },
        ExprView::Block(x0, x1) => ExprView::Block(inline_block(x0, ps, vals), x1),
    }
}

/// The block with the const parameters `ps` replaced by the literals `vals`.
#[verifier::opaque]
pub open spec fn inline_block(x: BlockView, ps: Seq<Seq<char>>, vals: Seq<i64>) -> BlockView
    decreases x,
{
    BlockView {
        stmts: inline_stmt_seq(x.stmts, ps, vals),
        tail_expr: match x.tail_expr {
            Some(y) => Some(Box::new(inline_expr(*y, ps, vals))),
            None => None,
        },
        span: x.span,
    }
}

/// The statement with the const parameters replaced.
#[verifier::opaque]
pub open spec fn inline_stmt(x: StmtView, ps: Seq<Seq<char>>, vals: Seq<i64>) -> StmtView
    decreases x,
{
    match x {
        StmtView::Let { pattern, is_mut, type_ann, init, else_block, span } => StmtView::Let {
            pattern,
            is_mut,
            type_ann,
            init: inline_expr(init, ps, vals),
            else_block: match else_block {
                Some(y) => Some(inline_block(y, ps, vals)),
                None => None,
            },
            span,
        },
        StmtView::Const { name, type_ann, init, span } => StmtView::Const {
            name,
            type_ann,
            init: inline_expr(init, ps, vals),
            span,
        },
        StmtView::Expr(x0) => StmtView::Expr(inline_expr(x0, ps, vals)),
        StmtView::Return { value, span } => StmtView::Return {
            value: match value {
                Some(y) => Some(Box::new(inline_expr(*y, ps, vals))),
                None => None,
            },
            span,
        },
        StmtView::Continue { span } => StmtView::Continue { span },
        StmtView::Break { value, span } => StmtView::Break {
            value: match value {
                Some(y) => Some(Box::new(inline_expr(*y, ps, vals))),
                None => None,
            },
            span,
        },
    }
}

/// The arm with the const parameters replaced.
#[verifier::opaque]
pub open spec fn inline_match_arm(
    x: MatchArmView,
    ps: Seq<Seq<char>>,
    vals: Seq<i64>,
) -> MatchArmView
    decreases x,
{
    MatchArmView {
        pattern: x.pattern,
        guard: match x.guard { Some(y) => Some(Box::new(inline_expr(*y, ps, vals))), None => None },
        body: inline_block(x.body, ps, vals),
    }
}

/// The same for each element.
#[verifier::opaque]
pub open spec fn inline_expr_seq(
    s: Seq<ExprView>,
    ps: Seq<Seq<char>>,
    vals: Seq<i64>,
) -> Seq<ExprView>
    decreases s,
{
    Seq::new(
        s.len(),
        |i: int|
            if 0 <= i < s.len() {
                inline_expr(s[i], ps, vals)
            } else {
                arbitrary()
            },
    )
}

/// The same for each element.
#[verifier::opaque]
pub open spec fn inline_string_expr_seq(
    s: Seq<(Seq<char>, ExprView)>,
    ps: Seq<Seq<char>>,
    vals: Seq<i64>,
) -> Seq<(Seq<char>, ExprView)>
    decreases s,
{
    Seq::new(
        s.len(),
        |i: int|
            if 0 <= i < s.len() {
                (s[i].0, inline_expr(s[i].1, ps, vals))
            } else {
                arbitrary()
            },
    )
}

/// The same for each element.
#[verifier::opaque]
pub open spec fn inline_expr_block_seq(
    s: Seq<(ExprView, BlockView)>,
    ps: Seq<Seq<char>>,
    vals: Seq<i64>,
) -> Seq<(ExprView, BlockView)>
    decreases s,
{
    Seq::new(
        s.len(),
        |i: int|
            if 0 <= i < s.len() {
                (inline_expr(s[i].0, ps, vals), inline_block(s[i].1, ps, vals))
            } else {
                arbitrary()
            },
    )
}

/// The same for each element.
#[verifier::opaque]
pub open spec fn inline_match_arm_seq(
    s: Seq<MatchArmView>,
    ps: Seq<Seq<char>>,
    vals: Seq<i64>,
) -> Seq<MatchArmView>
    decreases s,
{
    Seq::new(
        s.len(),
        |i: int|
            if 0 <= i < s.len() {
                inline_match_arm(s[i], ps, vals)
            } else {
                arbitrary()
            },
    )
}

/// The same for each element.
#[verifier::opaque]
pub open spec fn inline_stmt_seq(
    s: Seq<StmtView>,
    ps: Seq<Seq<char>>,
    vals: Seq<i64>,
) -> Seq<StmtView>
    decreases s,
{
    Seq::new(
        s.len(),
        |i: int|
            if 0 <= i < s.len() {
                inline_stmt(s[i], ps, vals)
            } else {
                arbitrary()
            },
    )
}

/// The expression with every identifier that is one of the const parameters `ps`, at any depth,
/// replaced by its literal in `vals`.
pub fn m_substitute_const_in_expr(x: &Expr, ps: &Vec<String>, vals: &Vec<i64>) -> (r: Expr)
    ensures
        r@ == inline_expr(x@, texts(ps@), vals@),
    decreases x,
{
    proof {
        reveal(inline_block);
        reveal(inline_expr);
        reveal(inline_expr_block_seq);
        reveal(inline_expr_seq);
        reveal(inline_match_arm);
        reveal(inline_match_arm_seq);
        reveal(inline_stmt);
        reveal(inline_stmt_seq);
        reveal(inline_string_expr_seq);
    }
    match x {
        Expr::BoolLit(x0, x1) => Expr::BoolLit(*x0, *x1),
        Expr::IntLit(x0, x1) => Expr::IntLit(*x0, *x1),
        Expr::FloatLit(x0, x1) => Expr::FloatLit(x0.clone(), *x1),
        Expr::StrLit(x0, x1) => Expr::StrLit(x0.clone(), *x1),
        Expr::Ident(name, span) => match find_name(ps, name) {
            Some(i) => if i < vals.len() {
                Expr::IntLit(vals[i], *span)
            } else {
                dup_expr(x)
            },
            None => dup_expr(x),
        },
        Expr::Call { callee, args, type_args, span } => Expr::Call {
            callee: callee.clone(),
            args: inline_in_expr_seq(args, ps, vals),
            type_args: dup_type_seq(type_args),
            span: *span,
        },
        Expr::QualifiedCall { module, callee, args, type_args, span } => Expr::QualifiedCall {
            module: module.clone(),
            callee: callee.clone(),
            args: inline_in_expr_seq(args, ps, vals),
            type_args: dup_type_seq(type_args),
            span: *span,
        },
        Expr::Binary { op, lhs, rhs, span } => Expr::Binary {
            op: *op,
            lhs: Box::new(m_substitute_const_in_expr(lhs, ps, vals)),
            rhs: Box::new(m_substitute_const_in_expr(rhs, ps, vals)),
            span: *span,
        },
        Expr::Assign { target, value, span } => Expr::Assign {
            target: Box::new(m_substitute_const_in_expr(target, ps, vals)),
            value: Box::new(m_substitute_const_in_expr(value, ps, vals)),
            span: *span,
        },
        Expr::Ref { expr, is_mut, span } => Expr::Ref {
            expr: Box::new(m_substitute_const_in_expr(expr, ps, vals)),
            is_mut: *is_mut,
            span: *span,
        },
        Expr::UnaryNot(x0, x1) => Expr::UnaryNot(
            Box::new(m_substitute_const_in_expr(x0, ps, vals)),
            *x1,
        ),
        Expr::UnaryMinus(x0, x1) => Expr::UnaryMinus(
            Box::new(m_substitute_const_in_expr(x0, ps, vals)),
            *x1,
        ),
        Expr::Deref(x0, x1) => Expr::Deref(Box::new(m_substitute_const_in_expr(x0, ps, vals)), *x1),
        Expr::Cast { expr, to_type, span } => Expr::Cast {
            expr: Box::new(m_substitute_const_in_expr(expr, ps, vals)),
            to_type: dup_type(to_type),
            span: *span,
        },
        Expr::Tuple(x0, x1) => Expr::Tuple(inline_in_expr_seq(x0, ps, vals), *x1),
        Expr::Unit(x0) => Expr::Unit(*x0),
        Expr::Member { expr, index, field, span } => Expr::Member {
            expr: Box::new(m_substitute_const_in_expr(expr, ps, vals)),
            index: *index,
            field: match field { Some(y) => Some(y.clone()), None => None },
            span: *span,
        },
        Expr::MethodCall { expr, method, args, type_args, span } => Expr::MethodCall {
            expr: Box::new(m_substitute_const_in_expr(expr, ps, vals)),
            method: method.clone(),
            args: inline_in_expr_seq(args, ps, vals),
            type_args: dup_type_seq(type_args),
            span: *span,
        },
        Expr::StructLit { struct_name, fields, span } => Expr::StructLit {
            struct_name: struct_name.clone(),
            fields: inline_in_string_expr_seq(fields, ps, vals),
            span: *span,
        },
        Expr::EnumLit { enum_name, variant, payload, span } => Expr::EnumLit {
            enum_name: enum_name.clone(),
            variant: variant.clone(),
            payload: match payload {
                Some(y) => Some(Box::new(m_substitute_const_in_expr(y, ps, vals))),
                None => None,
            },
            span: *span,
        },
        Expr::If { cond, then_block, else_ifs, else_block, span } => Expr::If {
            cond: Box::new(m_substitute_const_in_expr(cond, ps, vals)),
            then_block: m_substitute_const_block(then_block, ps, vals),
            else_ifs: inline_in_expr_block_seq(else_ifs, ps, vals),
            else_block: match else_block {
                Some(y) => Some(m_substitute_const_block(y, ps, vals)),
                None => None,
            },
            span: *span,
        },
        Expr::Loop { body, span } => Expr::Loop {
            body: m_substitute_const_block(body, ps, vals),
            span: *span,
        },
        Expr::While { cond, body, span } => Expr::While {
            cond: Box::new(m_substitute_const_in_expr(cond, ps, vals)),
            body: m_substitute_const_block(body, ps, vals),
            span: *span,
        },
        Expr::For { pattern, container, body, span } => Expr::For {
            pattern: dup_pattern(pattern),
            container: Box::new(m_substitute_const_in_expr(container, ps, vals)),
            body: m_substitute_const_block(body, ps, vals),
            span: *span,
        },
        Expr::Array(x0, x1) => Expr::Array(inline_in_expr_seq(x0, ps, vals), *x1),
        Expr::Repeat(x0, x1, x2) => Expr::Repeat(
            Box::new(m_substitute_const_in_expr(x0, ps, vals)),
            *x1,
            *x2,
        ),
        Expr::Index { array, index, span } => Expr::Index {
            array: Box::new(m_substitute_const_in_expr(array, ps, vals)),
            index: Box::new(m_substitute_const_in_expr(index, ps, vals)),
            span: *span,
        },
        Expr::IfLet { pattern, scrutinee, then_block, else_block, span } => Expr::IfLet {
            pattern: dup_pattern(pattern),
            scrutinee: Box::new(m_substitute_const_in_expr(scrutinee, ps, vals)),
            then_block: m_substitute_const_block(then_block, ps, vals),
            else_block: match else_block {
                Some(y) => Some(m_substitute_const_block(y, ps, vals)),
                None => None,
            },
            span: *span,
        },
        Expr::Match { scrutinee, arms, span } => Expr::Match {
            scrutinee: Box::new(m_substitute_const_in_expr(scrutinee, ps, vals)),
            arms: inline_in_match_arm_seq(arms, ps, vals),
            span: *span,
        },
        Expr::Block(x0, x1) => Expr::Block(m_substitute_const_block(x0, ps, vals), *x1),
    }
}

/// The block with the const parameters `ps` replaced by the literals `vals`.
pub fn m_substitute_const_block(x: &Block, ps: &Vec<String>, vals: &Vec<i64>) -> (r: Block)
    ensures
        r@ == inline_block(x@, texts(ps@), vals@),
    decreases x,
{
    proof {
        reveal(inline_block);
        reveal(inline_expr);
        reveal(inline_expr_block_seq);
        reveal(inline_expr_seq);
        reveal(inline_match_arm);
        reveal(inline_match_arm_seq);
        reveal(inline_stmt);
        reveal(inline_stmt_seq);
        reveal(inline_string_expr_seq);
    }
    Block {
        stmts: inline_in_stmt_seq(&x.stmts, ps, vals),
        tail_expr: match &x.tail_expr {
            Some(y) => Some(Box::new(m_substitute_const_in_expr(y, ps, vals))),
            None => None,
        },
        span: x.span,
    }
}

/// The statement with the const parameters replaced.
pub fn inline_in_stmt(x: &Stmt, ps: &Vec<String>, vals: &Vec<i64>) -> (r: Stmt)
    ensures
        r@ == inline_stmt(x@, texts(ps@), vals@),
    decreases x,
{
    proof {
        reveal(inline_block);
        reveal(inline_expr);
        reveal(inline_expr_block_seq);
        reveal(inline_expr_seq);
        reveal(inline_match_arm);
        reveal(inline_match_arm_seq);
        reveal(inline_stmt);
        reveal(inline_stmt_seq);
        reveal(inline_string_expr_seq);
    }
    match x {
        Stmt::Let { pattern, is_mut, type_ann, init, else_block, span } => Stmt::Let {
            pattern: dup_pattern(pattern),
            is_mut: *is_mut,
            type_ann: match type_ann { Some(y) => Some(dup_type(y)), None => None },
            init: m_substitute_const_in_expr(init, ps, vals),
            else_block: match else_block {
                Some(y) => Some(m_substitute_const_block(y, ps, vals)),
                None => None,
            },
            span: *span,
        },
        Stmt::Const { name, type_ann, init, span } => Stmt::Const {
            name: name.clone(),
            type_ann: match type_ann { Some(y) => Some(dup_type(y)), None => None },
            init: m_substitute_const_in_expr(init, ps, vals),
            span: *span,
        },
        Stmt::Expr(x0) => Stmt::Expr(m_substitute_const_in_expr(x0, ps, vals)),
        Stmt::Return { value, span } => Stmt::Return {
            value: match value {
                Some(y) => Some(Box::new(m_substitute_const_in_expr(y, ps, vals))),
                None => None,
            },
            span: *span,
        },
        Stmt::Continue { span } => Stmt::Continue { span: *span },
        Stmt::Break { value, span } => Stmt::Break {
            value: match value {
                Some(y) => Some(Box::new(m_substitute_const_in_expr(y, ps, vals))),
                None => None,
            },
            span: *span,
        },
    }
}

/// The arm with the const parameters replaced.
pub fn inline_in_match_arm(x: &MatchArm, ps: &Vec<String>, vals: &Vec<i64>) -> (r: MatchArm)
    ensures
        r@ == inline_match_arm(x@, texts(ps@), vals@),
    decreases x,
{
    proof {
        reveal(inline_block);
        reveal(inline_expr);
        reveal(inline_expr_block_seq);
        reveal(inline_expr_seq);
        reveal(inline_match_arm);
        reveal(inline_match_arm_seq);
        reveal(inline_stmt);
        reveal(inline_stmt_seq);
        reveal(inline_string_expr_seq);
    }
    MatchArm {
        pattern: dup_pattern(&x.pattern),
        guard: match &x.guard {
            Some(y) => Some(Box::new(m_substitute_const_in_expr(y, ps, vals))),
            None => None,
        },
        body: m_substitute_const_block(&x.body, ps, vals),
    }
}

fn inline_in_expr_seq(v: &Vec<Expr>, ps: &Vec<String>, vals: &Vec<i64>) -> (r: Vec<Expr>)
    ensures
        expr_seq_view(r@) == inline_expr_seq(expr_seq_view(v@), texts(ps@), vals@),
    decreases v,
{
    proof {
        reveal(inline_block);
        reveal(inline_expr);
        reveal(inline_expr_block_seq);
        reveal(inline_expr_seq);
        reveal(inline_match_arm);
        reveal(inline_match_arm_seq);
        reveal(inline_stmt);
        reveal(inline_stmt_seq);
        reveal(inline_string_expr_seq);
    }
    let mut r: Vec<Expr> = Vec::new();
    let ghost want = inline_expr_seq(expr_seq_view(v@), texts(ps@), vals@);
    let mut i: usize = 0;
    while i < v.len()
        invariant
            i <= v@.len(),
            r@.len() == i,
            want == inline_expr_seq(expr_seq_view(v@), texts(ps@), vals@),
            forall|k: int| 0 <= k < i ==> expr_seq_view(r@)[k] == want[k],
        decreases v@.len() - i,
    {
        proof {
            reveal(inline_block);
            reveal(inline_expr);
            reveal(inline_expr_block_seq);
            reveal(inline_expr_seq);
            reveal(inline_match_arm);
            reveal(inline_match_arm_seq);
            reveal(inline_stmt);
            reveal(inline_stmt_seq);
            reveal(inline_string_expr_seq);
        }
        let c = m_substitute_const_in_expr(&v[i], ps, vals);
        let ghost before = r@;
        r.push(c);
        proof {
            assert forall|k: int| 0 <= k < i + 1 implies expr_seq_view(r@)[k] == want[k] by {
                if k < i {
                    assert(expr_seq_view(before)[k] == want[k]);
                }
            }
        }
        i += 1;
    }
    proof {
        assert(expr_seq_view(r@) =~= want);
    }
    r
}

fn inline_in_string_expr_seq(
    v: &Vec<(String, Expr)>,
    ps: &Vec<String>,
    vals: &Vec<i64>,
) -> (r: Vec<(String, Expr)>)
    ensures
        string_expr_seq_view(r@) == inline_string_expr_seq(
            string_expr_seq_view(v@),
            texts(ps@),
            vals@,
        ),
    decreases v,
{
    proof {
        reveal(inline_block);
        reveal(inline_expr);
        reveal(inline_expr_block_seq);
        reveal(inline_expr_seq);
        reveal(inline_match_arm);
        reveal(inline_match_arm_seq);
        reveal(inline_stmt);
        reveal(inline_stmt_seq);
        reveal(inline_string_expr_seq);
    }
    let mut r: Vec<(String, Expr)> = Vec::new();
    let ghost want = inline_string_expr_seq(string_expr_seq_view(v@), texts(ps@), vals@);
    let mut i: usize = 0;
    while i < v.len()
        invariant
            i <= v@.len(),
            r@.len() == i,
            want == inline_string_expr_seq(string_expr_seq_view(v@), texts(ps@), vals@),
            forall|k: int| 0 <= k < i ==> string_expr_seq_view(r@)[k] == want[k],
        decreases v@.len() - i,
    {
        proof {
            reveal(inline_block);
            reveal(inline_expr);
            reveal(inline_expr_block_seq);
            reveal(inline_expr_seq);
            reveal(inline_match_arm);
            reveal(inline_match_arm_seq);
            reveal(inline_stmt);
            reveal(inline_stmt_seq);
            reveal(inline_string_expr_seq);
        }
        let c = (v[i].0.clone(), m_substitute_const_in_expr(&v[i].1, ps, vals));
        let ghost before = r@;
        r.push(c);
        proof {
            assert forall|k: int| 0 <= k < i + 1 implies string_expr_seq_view(r@)[k] == want[k] by {
                if k < i {
                    assert(string_expr_seq_view(before)[k] == want[k]);
                }
            }
        }
        i += 1;
    }
    proof {
        assert(string_expr_seq_view(r@) =~= want);
    }
    r
}

fn inline_in_expr_block_seq(
    v: &Vec<(Expr, Block)>,
    ps: &Vec<String>,
    vals: &Vec<i64>,
) -> (r: Vec<(Expr, Block)>)
    ensures
        expr_block_seq_view(r@) == inline_expr_block_seq(
            expr_block_seq_view(v@),
            texts(ps@),
            vals@,
        ),
    decreases v,
{
    proof {
        reveal(inline_block);
        reveal(inline_expr);
        reveal(inline_expr_block_seq);
        reveal(inline_expr_seq);
        reveal(inline_match_arm);
        reveal(inline_match_arm_seq);
        reveal(inline_stmt);
        reveal(inline_stmt_seq);
        reveal(inline_string_expr_seq);
    }
    let mut r: Vec<(Expr, Block)> = Vec::new();
    let ghost want = inline_expr_block_seq(expr_block_seq_view(v@), texts(ps@), vals@);
    let mut i: usize = 0;
    while i < v.len()
        invariant
            i <= v@.len(),
            r@.len() == i,
            want == inline_expr_block_seq(expr_block_seq_view(v@), texts(ps@), vals@),
            forall|k: int| 0 <= k < i ==> expr_block_seq_view(r@)[k] == want[k],
        decreases v@.len() - i,
    {
        proof {
            reveal(inline_block);
            reveal(inline_expr);
            reveal(inline_expr_block_seq);
            reveal(inline_expr_seq);
            reveal(inline_match_arm);
            reveal(inline_match_arm_seq);
            reveal(inline_stmt);
            reveal(inline_stmt_seq);
            reveal(inline_string_expr_seq);
        }
        let c = (
            m_substitute_const_in_expr(&v[i].0, ps, vals),
            m_substitute_const_block(&v[i].1, ps, vals),
        );
        let ghost before = r@;
        r.push(c);
        proof {
            assert forall|k: int| 0 <= k < i + 1 implies expr_block_seq_view(r@)[k] == want[k] by {
                if k < i {
                    assert(expr_block_seq_view(before)[k] == want[k]);
                }
            }
        }
        i += 1;
    }
    proof {
        assert(expr_block_seq_view(r@) =~= want);
    }
    r
}

fn inline_in_match_arm_seq(
    v: &Vec<MatchArm>,
    ps: &Vec<String>,
    vals: &Vec<i64>,
) -> (r: Vec<MatchArm>)
    ensures
        match_arm_seq_view(r@) == inline_match_arm_seq(match_arm_seq_view(v@), texts(ps@), vals@),
    decreases v,
{
    proof {
        reveal(inline_block);
        reveal(inline_expr);
        reveal(inline_expr_block_seq);
        reveal(inline_expr_seq);
        reveal(inline_match_arm);
        reveal(inline_match_arm_seq);
        reveal(inline_stmt);
        reveal(inline_stmt_seq);
        reveal(inline_string_expr_seq);
    }
    let mut r: Vec<MatchArm> = Vec::new();
    let ghost want = inline_match_arm_seq(match_arm_seq_view(v@), texts(ps@), vals@);
    let mut i: usize = 0;
    while i < v.len()
        invariant
            i <= v@.len(),
            r@.len() == i,
            want == inline_match_arm_seq(match_arm_seq_view(v@), texts(ps@), vals@),
            forall|k: int| 0 <= k < i ==> match_arm_seq_view(r@)[k] == want[k],
        decreases v@.len() - i,
    {
        proof {
            reveal(inline_block);
            reveal(inline_expr);
            reveal(inline_expr_block_seq);
            reveal(inline_expr_seq);
            reveal(inline_match_arm);
            reveal(inline_match_arm_seq);
            reveal(inline_stmt);
            reveal(inline_stmt_seq);
            reveal(inline_string_expr_seq);
        }
        let c = inline_in_match_arm(&v[i], ps, vals);
        let ghost before = r@;
        r.push(c);
        proof {
            assert forall|k: int| 0 <= k < i + 1 implies match_arm_seq_view(r@)[k] == want[k] by {
                if k < i {
                    assert(match_arm_seq_view(before)[k] == want[k]);
                }
            }
        }
        i += 1;
    }
    proof {
        assert(match_arm_seq_view(r@) =~= want);
    }
    r
}

fn inline_in_stmt_seq(v: &Vec<Stmt>, ps: &Vec<String>, vals: &Vec<i64>) -> (r: Vec<Stmt>)
    ensures
        stmt_seq_view(r@) == inline_stmt_seq(stmt_seq_view(v@), texts(ps@), vals@),
    decreases v,
{
    proof {
        reveal(inline_block);
        reveal(inline_expr);
        reveal(inline_expr_block_seq);
        reveal(inline_expr_seq);
        reveal(inline_match_arm);
        reveal(inline_match_arm_seq);
        reveal(inline_stmt);
        reveal(inline_stmt_seq);
        reveal(inline_string_expr_seq);
    }
    let mut r: Vec<Stmt> = Vec::new();
    let ghost want = inline_stmt_seq(stmt_seq_view(v@), texts(ps@), vals@);
    let mut i: usize = 0;
    while i < v.len()
        invariant
            i <= v@.len(),
            r@.len() == i,
            want == inline_stmt_seq(stmt_seq_view(v@), texts(ps@), vals@),
            forall|k: int| 0 <= k < i ==> stmt_seq_view(r@)[k] == want[k],
        decreases v@.len() - i,
    {
        proof {
            reveal(inline_block);
            reveal(inline_expr);
            reveal(inline_expr_block_seq);
            reveal(inline_expr_seq);
            reveal(inline_match_arm);
            reveal(inline_match_arm_seq);
            reveal(inline_stmt);
            reveal(inline_stmt_seq);
            reveal(inline_string_expr_seq);
        }
        let c = inline_in_stmt(&v[i], ps, vals);
        let ghost before = r@;
        r.push(c);
        proof {
            assert forall|k: int| 0 <= k < i + 1 implies stmt_seq_view(r@)[k] == want[k] by {
                if k < i {
                    assert(stmt_seq_view(before)[k] == want[k]);
                }
            }
        }
        i += 1;
    }
    proof {
        assert(stmt_seq_view(r@) =~= want);
    }
    r
}

} // verus!
