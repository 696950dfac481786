//! The types of expressions.
use crate::ast::{Block, EnumVariant, Expr, Function, MatchArm, Pattern, Stmt, StructField, Type};
use crate::generic::{generic_return_type, return_type_in};
use crate::literal::{
    concrete, gives_bool, is_bool_op, is_concrete_type, lit_type, literal_type, or_type, pointee,
    pointee_type,
};
use crate::model::{
    BlockView, ExprView, FunctionView, MatchArmView, PatternView, StmtView, StructFieldView,
    TypeView, block_view, dup_type, dup_type_seq, expr_block_seq_view, expr_seq_view, expr_view,
    match_arm_seq_view, match_arm_view, stmt_seq_view, stmt_view, string_expr_seq_view,
    struct_field_view, type_seq_view, type_view,
};
use crate::names::{mangle_generic_instance, mangled, primitive_name, primitive_type_name};
use crate::query::last_instance;
use crate::state::{CodeGen, Env, EnvView, State};
use crate::table::Model;
use crate::text::{cat, cat3, decimal_text, ends_with, has_suffix, same, show_usize};
use crate::types::{array_key, array_type_key, rank_width, same_types, type_width};
use vstd::prelude::*;

verus! {

/// The element type of a slice or of a reference to one.
#[verifier::opaque]
pub open spec fn slice_element(ty: TypeView) -> Option<TypeView> {
    match ty {
        TypeView::Slice { inner } => Some(*inner),
        TypeView::Ref { inner, .. } => match *inner {
            TypeView::Slice { inner: elem } => Some(*elem),
            _ => None,
        },
        _ => None,
    }
}

/// Whether a type is `&str`.
#[verifier::opaque]
pub open spec fn is_str_ref(ty: TypeView) -> bool {
    match ty {
        TypeView::Ref { inner, .. } => *inner is Str,
        _ => false,
    }
}

/// The name under which the methods of a type are registered.
#[verifier::opaque]
pub open spec fn own_name(ty: TypeView) -> Option<Seq<char>> {
    match ty {
        TypeView::Array { inner, len } => Some(array_key(*inner, len)),
        TypeView::Struct(name) => Some(name),
        TypeView::GenericInstance(name, args) => Some(mangled(name, args)),
        _ => primitive_name(ty),
    }
}

/// The name under which the methods of a receiver are registered, behind one reference.
#[verifier::opaque]
pub open spec fn method_owner(ty: TypeView) -> Option<Seq<char>> {
    match ty {
        TypeView::Ref { inner, .. } => own_name(*inner),
        _ => own_name(ty),
    }
}

/// The second part of the first pair that has `name` as its first part.
#[verifier::opaque]
pub open spec fn find_pair(pairs: Seq<(Seq<char>, Seq<char>)>, name: Seq<char>) -> Option<Seq<char>>
    decreases pairs.len(),
{
    if pairs.len() == 0 {
        None
    } else if pairs[0].0 == name {
        Some(pairs[0].1)
    } else {
        find_pair(pairs.drop_first(), name)
    }
}

/// The mangled name of a method of a type.
#[verifier::opaque]
pub open spec fn find_method(
    env: EnvView,
    owner: Seq<char>,
    method: Seq<char>,
) -> Option<Seq<char>> {
    if env.impl_methods.contains_key(owner) {
        find_pair(env.impl_methods[owner], method)
    } else {
        None
    }
}

/// The first function called `name`.
#[verifier::opaque]
pub open spec fn find_fn(fs: Seq<FunctionView>, name: Seq<char>) -> Option<FunctionView>
    decreases fs.len(),
{
    if fs.len() == 0 {
        None
    } else if fs[0].name == name {
        Some(fs[0])
    } else {
        find_fn(fs.drop_first(), name)
    }
}

/// The generic method of a type that is called `method`.
#[verifier::opaque]
pub open spec fn find_generic_method(env: EnvView, owner: Seq<char>, method: Seq<char>) -> Option<
    FunctionView,
> {
    if env.generic_methods.contains_key(owner) {
        find_fn(env.generic_methods[owner], method)
    } else {
        None
    }
}

/// The declared return type of a function; `i32` where none is known.
#[verifier::opaque]
pub open spec fn declared_return(env: EnvView, name: Seq<char>) -> TypeView {
    if env.fn_return_types.contains_key(name) {
        env.fn_return_types[name]
    } else {
        TypeView::I32
    }
}

/// The type of a method call, from the types of the receiver and of the arguments. `fallback` is
/// what the syntax alone says.
#[verifier::opaque]
pub open spec fn method_type(
    env: EnvView,
    receiver: TypeView,
    method: Seq<char>,
    tys: Seq<TypeView>,
    args: Seq<TypeView>,
    fallback: TypeView,
) -> TypeView {
    if method == "len"@ && (is_str_ref(receiver) || slice_element(receiver) is Some) {
        TypeView::Usize
    } else if method == "as_ptr"@ && slice_element(receiver) is Some {
        TypeView::Ptr { inner: Box::new(slice_element(receiver)->0), is_mut: false }
    } else {
        match method_owner(receiver) {
            Some(owner) => owned_method_type(env, owner, receiver, method, tys, args, fallback),
            None => fallback,
        }
    }
}

/// The type of a call of a method that is registered under `owner`.
#[verifier::opaque]
pub open spec fn owned_method_type(
    env: EnvView,
    owner: Seq<char>,
    receiver: TypeView,
    method: Seq<char>,
    tys: Seq<TypeView>,
    args: Seq<TypeView>,
    fallback: TypeView,
) -> TypeView {
    match find_generic_method(env, owner, method) {
        Some(f) => return_type_in(f, tys, seq![receiver] + args),
        None => {
            let found = find_method(env, owner, method);
            if found is Some && env.fn_return_types.contains_key(found->0) {
                env.fn_return_types[found->0]
            } else if method == "clone"@ || method == "default"@ {
                receiver
            } else if method == "eq"@ || method == "ne"@ {
                TypeView::Bool
            } else if found is Some {
                TypeView::I32
            } else {
                fallback
            }
        },
    }
}

/// The index of the field called `name`.
#[verifier::opaque]
pub open spec fn field_index(
    fields: Seq<StructFieldView>,
    name: Seq<char>,
    from: int,
) -> Option<int>
    decreases fields.len() - from,
{
    if from < 0 || from >= fields.len() {
        None
    } else if fields[from].name == name {
        Some(from)
    } else {
        field_index(fields, name, from + 1)
    }
}

/// The type of a field of a struct, by its name or else by its index; `i32` where there is none.
#[verifier::opaque]
pub open spec fn struct_member(
    env: EnvView,
    owner: Seq<char>,
    index: usize,
    field: Option<Seq<char>>,
) -> TypeView {
    if env.struct_fields.contains_key(owner) {
        let fields = env.struct_fields[owner];
        let by_name = match field {
            Some(name) => field_index(fields, name, 0),
            None => None,
        };
        match by_name {
            Some(i) => fields[i].ty,
            None => if index < fields.len() && index < usize::MAX {
                fields[index as int].ty
            } else {
                TypeView::I32
            },
        }
    } else {
        TypeView::I32
    }
}

/// The parts of a pointer with a length.
#[verifier::opaque]
pub open spec fn str_member(index: usize) -> TypeView {
    if index == 0 {
        TypeView::Ptr { inner: Box::new(TypeView::I8), is_mut: false }
    } else if index == 1 {
        TypeView::Usize
    } else {
        TypeView::I32
    }
}

/// The type behind one reference.
pub open spec fn behind_ref(ty: TypeView) -> TypeView {
    match ty {
        TypeView::Ref { inner, .. } => *inner,
        _ => ty,
    }
}

/// The type of a member of a value of type `parent`.
#[verifier::opaque]
pub open spec fn member_type(
    env: EnvView,
    parent: TypeView,
    index: usize,
    field: Option<Seq<char>>,
) -> TypeView {
    let ty = behind_ref(parent);
    match ty {
        TypeView::Tuple(elems) => if index < elems.len() {
            elems[index as int]
        } else {
            TypeView::I32
        },
        TypeView::Ref { .. } => if is_str_ref(ty) {
            str_member(index)
        } else {
            TypeView::I32
        },
        TypeView::Str => str_member(index),
        TypeView::Struct(name) => struct_member(env, name, index, field),
        TypeView::GenericInstance(name, args) => struct_member(
            env,
            mangled(name, args),
            index,
            field,
        ),
        _ => TypeView::I32,
    }
}

/// The element type of an array behind a reference.
#[verifier::opaque]
pub open spec fn array_behind_ref(ty: TypeView) -> Option<TypeView> {
    match ty {
        TypeView::Ref { inner, .. } => match *inner {
            TypeView::Array { inner: elem, .. } => Some(*elem),
            _ => None,
        },
        _ => None,
    }
}

/// The type of a reference to a slice.
#[verifier::opaque]
pub open spec fn slice_ref(elem: TypeView, is_mut: bool) -> TypeView {
    TypeView::Ref { inner: Box::new(TypeView::Slice { inner: Box::new(elem) }), is_mut }
}

/// The type of a call of one of the functions that the compiler provides for slices, from the
/// number of its arguments and the type of the first one.
#[verifier::opaque]
pub open spec fn intrinsic_type(callee: Seq<char>, n: nat, first: TypeView) -> Option<TypeView> {
    if callee == "slice_index"@ && n == 2 {
        match array_behind_ref(first) {
            Some(elem) => Some(TypeView::Ref { inner: Box::new(elem), is_mut: false }),
            None => None,
        }
    } else if callee == "slice_index_mut"@ && n == 2 {
        match array_behind_ref(first) {
            Some(elem) => Some(TypeView::Ref { inner: Box::new(elem), is_mut: true }),
            None => None,
        }
    } else if callee == "slice_as_ptr"@ && n == 1 {
        match array_behind_ref(first) {
            Some(elem) => Some(TypeView::Ptr { inner: Box::new(elem), is_mut: false }),
            None => None,
        }
    } else if callee == "slice_from_raw_parts"@ && n == 2 {
        match first {
            TypeView::Ptr { inner, .. } => Some(slice_ref(*inner, false)),
            _ => None,
        }
    } else if callee == "slice_from_raw_parts_mut"@ && n == 2 {
        match first {
            TypeView::Ptr { inner, .. } => Some(slice_ref(*inner, true)),
            _ => None,
        }
    } else {
        None
    }
}

/// Whether a call asks for the size of a type.
#[verifier::opaque]
pub open spec fn asks_size(callee: Seq<char>, n: nat) -> bool {
    (callee == "size_of"@ || ends_with(callee, "::size_of"@)) && n == 1
}

/// The mangled name of the overload with exactly these parameter types.
#[verifier::opaque]
pub open spec fn exact_overload(os: Seq<(Seq<char>, Seq<TypeView>)>, args: Seq<TypeView>) -> Option<
    Seq<char>,
>
    decreases os.len(),
{
    if os.len() == 0 {
        None
    } else if os[0].1 == args {
        Some(os[0].0)
    } else {
        exact_overload(os.drop_first(), args)
    }
}

/// The overload of a function with exactly these parameter types.
pub open spec fn find_overload(env: EnvView, callee: Seq<char>, args: Seq<TypeView>) -> Option<
    Seq<char>,
> {
    if env.overloads.contains_key(callee) {
        exact_overload(env.overloads[callee], args)
    } else {
        None
    }
}

/// The type of a call, from the types of its arguments.
#[verifier::opaque]
pub open spec fn call_type(
    s: State,
    callee: Seq<char>,
    tys: Seq<TypeView>,
    args: Seq<TypeView>,
) -> TypeView {
    let first = if args.len() > 0 {
        args[0]
    } else {
        TypeView::Unit
    };
    match intrinsic_type(callee, args.len(), first) {
        Some(t) => t,
        None => if asks_size(callee, tys.len()) {
            TypeView::Usize
        } else if callee == "transmute"@ && args.len() == 1 && tys.len() == 2 {
            tys[1]
        } else if s.out.decls.contains_key(callee) {
            declared_return(s.env, callee)
        } else {
            match find_overload(s.env, callee, args) {
                Some(name) => declared_return(s.env, name),
                None => if s.env.generic_funcs.contains_key(callee) {
                    return_type_in(s.env.generic_funcs[callee], tys, args)
                } else {
                    declared_return(s.env, callee)
                },
            }
        },
    }
}

/// Whether a type has an associated constant.
#[verifier::opaque]
pub open spec fn has_const(env: EnvView, owner: Seq<char>, name: Seq<char>) -> bool {
    env.const_defs.contains_key(owner) && env.const_defs[owner].contains_key(name)
}

/// The name of an item in a module or type.
#[verifier::opaque]
pub open spec fn qualified(module: Seq<char>, name: Seq<char>) -> Seq<char> {
    module + "::"@ + name
}

/// The mangled name of a method with `n` parameters.
#[verifier::opaque]
pub open spec fn method_name(owner: Seq<char>, name: Seq<char>, n: nat) -> Seq<char> {
    owner + "::"@ + name + "/"@ + decimal_text(n)
}

/// The name of the function that a qualified call means, as far as its type is concerned.
pub open spec fn qualified_target(
    s: State,
    module: Seq<char>,
    callee: Seq<char>,
    n: nat,
) -> Seq<char> {
    match find_method(s.env, module, callee) {
        Some(name) => name,
        None => if s.out.decls.contains_key(qualified(module, callee)) {
            qualified(module, callee)
        } else if s.out.decls.contains_key(method_name(module, callee, n)) {
            method_name(module, callee, n)
        } else {
            qualified(module, callee)
        },
    }
}

/// The type of a qualified call, from the types of its arguments.
#[verifier::opaque]
pub open spec fn qualified_type(
    s: State,
    module: Seq<char>,
    callee: Seq<char>,
    tys: Seq<TypeView>,
    args: Seq<TypeView>,
) -> TypeView {
    if asks_size(callee, tys.len()) {
        TypeView::Usize
    } else if args.len() == 0 && tys.len() == 0 && has_const(s.env, module, callee) {
        s.env.const_defs[module][callee].1
    } else {
        let name = qualified_target(s, module, callee, args.len());
        if !s.out.decls.contains_key(name) && s.env.generic_funcs.contains_key(callee) {
            return_type_in(s.env.generic_funcs[callee], tys, args)
        } else {
            declared_return(s.env, name)
        }
    }
}

/// The name of the type of an enum literal, from the type of its payload.
#[verifier::opaque]
pub open spec fn enum_name_of(s: State, name: Seq<char>, payload: Option<TypeView>) -> Seq<char> {
    match payload {
        Some(t) => if s.env.generic_enum_defs.contains_key(name) {
            if concrete(t) {
                let key = mangled(name, seq![t]);
                if s.env.struct_types.contains(key) || !s.fun.mono_names.contains_key(name) {
                    key
                } else {
                    s.fun.mono_names[name]
                }
            } else {
                last_instance(s, name)
            }
        } else {
            name
        },
        None => last_instance(s, name),
    }
}

/// The element type of what can be indexed; `i32` for anything else.
#[verifier::opaque]
pub open spec fn element_type(ty: TypeView) -> TypeView {
    match ty {
        TypeView::Array { inner, .. } => *inner,
        TypeView::Slice { inner } => *inner,
        TypeView::Ref { inner, .. } => match *inner {
            TypeView::Array { inner: e, .. } => *e,
            TypeView::Slice { inner: e } => *e,
            _ => TypeView::I32,
        },
        _ => TypeView::I32,
    }
}

/// The wider of two operand types; the first, where they are as wide.
pub open spec fn wider(a: TypeView, b: TypeView) -> TypeView {
    if rank_width(a) >= rank_width(b) {
        a
    } else {
        b
    }
}

/// The name of the enum type that a pattern is matched against.
#[verifier::opaque]
pub open spec fn pattern_owner(s: State, ty: TypeView) -> Option<Seq<char>> {
    match behind_ref(ty) {
        TypeView::Struct(name) => Some(last_instance(s, name)),
        TypeView::GenericInstance(name, args) => Some(mangled(name, args)),
        _ => None,
    }
}

/// The type that a pattern gives the variable `name` when it is matched against a value of type
/// `ty`.
#[verifier::opaque]
pub open spec fn pattern_var(
    s: State,
    p: PatternView,
    ty: TypeView,
    name: Seq<char>,
) -> Option<TypeView>
    decreases p,
{
    match p {
        PatternView::Binding(b) => if b == name {
            Some(ty)
        } else {
            None
        },
        PatternView::EnumVariant { variant, payload, .. } => match payload {
            Some(inner) => match pattern_owner(s, ty) {
                Some(owner) => if s.env.struct_fields.contains_key(owner) {
                    match field_index(s.env.struct_fields[owner], "__"@ + variant, 0) {
                        Some(i) => pattern_var(s, *inner, s.env.struct_fields[owner][i].ty, name),
                        None => None,
                    }
                } else {
                    None
                },
                None => None,
            },
            None => None,
        },
        _ => None,
    }
}

/// The type of a variable: that of a constant, or of a variable; `i32` where there is none.
#[verifier::opaque]
pub open spec fn ident_type(s: State, name: Seq<char>) -> TypeView {
    if s.fun.consts.contains_key(name) {
        s.fun.consts[name].1
    } else if s.fun.symbols.contains_key(name) {
        s.fun.symbols[name].2
    } else {
        TypeView::I32
    }
}

/// The type of an expression.
#[verifier::opaque]
pub open spec fn ty_of(s: State, e: ExprView) -> TypeView
    decreases e,
{
    match e {
        ExprView::MethodCall { expr, method, args, type_args, .. } => method_type(
            s.env,
            ty_of(s, *expr),
            method,
            type_args,
            ty_all(s, args),
            lit_type(e),
        ),
        ExprView::Ident(name, _) => ident_type(s, name),
        ExprView::Member { expr, index, field, .. } => member_type(
            s.env,
            ty_of(s, *expr),
            index,
            field,
        ),
        ExprView::If {
            then_block,
            else_ifs,
            else_block,
            ..
        } => if block_ty(s, then_block) is Never {
            match else_if_ty(s, else_ifs) {
                Some(t) => t,
                None => match else_block {
                    Some(b) => block_ty(s, b),
                    None => TypeView::Never,
                },
            }
        } else {
            block_ty(s, then_block)
        },
        ExprView::IfLet { then_block, else_block, .. } => if block_ty(s, then_block) is Never {
            match else_block {
                Some(b) => block_ty(s, b),
                None => TypeView::Never,
            }
        } else {
            block_ty(s, then_block)
        },
        ExprView::For { .. } => TypeView::Unit,
        ExprView::Block(block, _) => block_ty(s, block),
        ExprView::Match { scrutinee, arms, .. } => arms_ty(s, ty_of(s, *scrutinee), arms),
        ExprView::Call { callee, args, type_args, .. } => call_type(
            s,
            callee,
            type_args,
            ty_all(s, args),
        ),
        ExprView::QualifiedCall { module, callee, args, type_args, .. } => qualified_type(
            s,
            module,
            callee,
            type_args,
            ty_all(s, args),
        ),
        ExprView::Binary { op, lhs, rhs, .. } => if gives_bool(op) {
            TypeView::Bool
        } else {
            wider(ty_of(s, *lhs), ty_of(s, *rhs))
        },
        ExprView::EnumLit { enum_name, variant, payload, .. } => match payload {
            Some(p) => TypeView::Struct(enum_name_of(s, enum_name, Some(ty_of(s, *p)))),
            None => if has_const(s.env, enum_name, variant) {
                s.env.const_defs[enum_name][variant].1
            } else {
                TypeView::Struct(enum_name_of(s, enum_name, None))
            },
        },
        ExprView::Index { array, .. } => element_type(ty_of(s, *array)),
        ExprView::Array(elems, _) => if elems.len() == 0 {
            TypeView::I32
        } else {
            TypeView::Array { inner: Box::new(ty_of(s, elems[0])), len: elems.len() as usize }
        },
        ExprView::Repeat(expr, count, _) => TypeView::Array {
            inner: Box::new(ty_of(s, *expr)),
            len: count,
        },
        ExprView::Deref(expr, _) => pointee(ty_of(s, *expr)),
        ExprView::Ref { expr, is_mut, .. } => TypeView::Ref {
            inner: Box::new(ty_of(s, *expr)),
            is_mut,
        },
        ExprView::UnaryNot(expr, _) => ty_of(s, *expr),
        ExprView::UnaryMinus(expr, _) => ty_of(s, *expr),
        ExprView::Tuple(elems, _) => TypeView::Tuple(ty_all(s, elems)),
        ExprView::Loop { body, .. } => match brk_block(s, body) {
            Some(t) => t,
            None => TypeView::Unit,
        },
        _ => lit_type(e),
    }
}

/// The types of some expressions.
#[verifier::opaque]
pub open spec fn ty_all(s: State, es: Seq<ExprView>) -> Seq<TypeView>
    decreases es,
{
    Seq::new(
        es.len(),
        |i: int|
            if 0 <= i < es.len() {
                ty_of(s, es[i])
            } else {
                arbitrary()
            },
    )
}

/// The type of a block: that of its last expression; never, where it does not reach its end.
#[verifier::opaque]
pub open spec fn block_ty(s: State, b: BlockView) -> TypeView
    decreases b,
{
    match b.tail_expr {
        Some(tail) => ty_of(s, *tail),
        None => if some_diverges(s, b.stmts) {
            TypeView::Never
        } else {
            TypeView::Unit
        },
    }
}

/// Whether one of the statements never comes to its end.
#[verifier::opaque]
pub open spec fn some_diverges(s: State, stmts: Seq<StmtView>) -> bool
    decreases stmts,
{
    if stmts.len() == 0 {
        false
    } else {
        diverges(s, stmts[0]) || some_diverges(s, stmts.drop_first())
    }
}

/// Whether a statement never comes to its end.
#[verifier::opaque]
pub open spec fn diverges(s: State, stmt: StmtView) -> bool
    decreases stmt,
{
    match stmt {
        StmtView::Return { .. } => true,
        StmtView::Break { .. } => true,
        StmtView::Continue { .. } => true,
        StmtView::Expr(e) => ty_of(s, e) is Never,
        StmtView::Let { init, .. } => ty_of(s, init) is Never,
        StmtView::Const { init, .. } => ty_of(s, init) is Never,
    }
}

/// The type of the first of the `else if` branches that comes to its end.
#[verifier::opaque]
pub open spec fn else_if_ty(s: State, else_ifs: Seq<(ExprView, BlockView)>) -> Option<TypeView>
    decreases else_ifs,
{
    if else_ifs.len() == 0 {
        None
    } else {
        let t = block_ty(s, else_ifs[0].1);
        if t is Never {
            else_if_ty(s, else_ifs.drop_first())
        } else {
            Some(t)
        }
    }
}

/// The type of an arm: a variable that only the pattern binds has the type that the pattern gives.
#[verifier::opaque]
pub open spec fn arm_ty(s: State, ty: TypeView, arm: MatchArmView) -> TypeView
    decreases arm,
{
    match arm.body.tail_expr {
        Some(tail) => match *tail {
            ExprView::Ident(name, _) => if s.fun.consts.contains_key(name)
                || s.fun.symbols.contains_key(name) {
                ident_type(s, name)
            } else {
                match pattern_var(s, arm.pattern, ty, name) {
                    Some(t) => t,
                    None => TypeView::I32,
                }
            },
            _ => block_ty(s, arm.body),
        },
        None => block_ty(s, arm.body),
    }
}

/// The type of the first arm that comes to its end; never, where none does, and the unit type,
/// where there is no arm.
#[verifier::opaque]
pub open spec fn arms_ty(s: State, ty: TypeView, arms: Seq<MatchArmView>) -> TypeView
    decreases arms,
{
    if arms.len() == 0 {
        TypeView::Unit
    } else {
        let t = arm_ty(s, ty, arms[0]);
        if !(t is Never) || arms.len() == 1 {
            t
        } else {
            arms_ty(s, ty, arms.drop_first())
        }
    }
}

/// The type of the value of the first `break` in a block that leaves the loop around it: the unit
/// type
/// where it has no value, nothing where there is no such `break`.
#[verifier::opaque]
pub open spec fn brk_block(s: State, x: BlockView) -> Option<TypeView>
    decreases x,
{
    or_type(
        brk_stmt_seq(s, x.stmts),
        match x.tail_expr { Some(y) => brk_expr(s, *y), None => None },
    )
}

/// The type of the value of the first `break` in a statement that leaves the loop around it.
#[verifier::opaque]
pub open spec fn brk_stmt(s: State, x: StmtView) -> Option<TypeView>
    decreases x,
{
    match x {
        StmtView::Let { init, else_block, .. } => or_type(
            brk_expr(s, init),
            match else_block { Some(y) => brk_block(s, y), None => None },
        ),
        StmtView::Const { init, .. } => brk_expr(s, init),
        StmtView::Expr(x0) => brk_expr(s, x0),
        StmtView::Return { value, .. } => match value { Some(y) => brk_expr(s, *y), None => None },
        StmtView::Break { value, .. } => Some(
            match value { Some(v) => ty_of(s, *v), None => TypeView::Unit },
        ),
        _ => None,
    }
}

/// The type of the value of the first `break` in an expression that leaves the loop around it.
#[verifier::opaque]
pub open spec fn brk_expr(s: State, x: ExprView) -> Option<TypeView>
    decreases x,
{
    match x {
        ExprView::Call { args, .. } => brk_expr_seq(s, args),
        ExprView::QualifiedCall { args, .. } => brk_expr_seq(s, args),
        ExprView::Binary { lhs, rhs, .. } => or_type(brk_expr(s, *lhs), brk_expr(s, *rhs)),
        ExprView::Assign { target, value, .. } => or_type(
            brk_expr(s, *target),
            brk_expr(s, *value),
        ),
        ExprView::Ref { expr, .. } => brk_expr(s, *expr),
        ExprView::UnaryNot(x0, _) => brk_expr(s, *x0),
        ExprView::UnaryMinus(x0, _) => brk_expr(s, *x0),
        ExprView::Deref(x0, _) => brk_expr(s, *x0),
        ExprView::Cast { expr, .. } => brk_expr(s, *expr),
        ExprView::Tuple(x0, _) => brk_expr_seq(s, x0),
        ExprView::Member { expr, .. } => brk_expr(s, *expr),
        ExprView::MethodCall { expr, args, .. } => or_type(
            brk_expr(s, *expr),
            brk_expr_seq(s, args),
        ),
        ExprView::StructLit { fields, .. } => brk_string_expr_seq(s, fields),
        ExprView::EnumLit { payload, .. } => match payload {
            Some(y) => brk_expr(s, *y),
            None => None,
        },
        ExprView::If { cond, then_block, else_ifs, else_block, .. } => or_type(
            brk_expr(s, *cond),
            or_type(
                brk_block(s, then_block),
                or_type(
                    brk_expr_block_seq(s, else_ifs),
                    match else_block { Some(y) => brk_block(s, y), None => None },
                ),
            ),
        ),
        ExprView::Array(x0, _) => brk_expr_seq(s, x0),
        ExprView::Repeat(x0, _, _) => brk_expr(s, *x0),
        ExprView::Index { array, index, .. } => or_type(brk_expr(s, *array), brk_expr(s, *index)),
        ExprView::IfLet { scrutinee, then_block, else_block, .. } => or_type(
            brk_expr(s, *scrutinee),
            or_type(
                brk_block(s, then_block),
                match else_block { Some(y) => brk_block(s, y), None => None },
            ),
        ),
        ExprView::Match { scrutinee, arms, .. } => or_type(
            brk_expr(s, *scrutinee),
            brk_match_arm_seq(s, arms),
        ),
        ExprView::Block(x0, _) => brk_block(s, x0),
        _ => None,
    }
}

/// The type of the value of the first `break` in an arm.
#[verifier::opaque]
pub open spec fn brk_match_arm(s: State, x: MatchArmView) -> Option<TypeView>
    decreases x,
{
    or_type(match x.guard { Some(y) => brk_expr(s, *y), None => None }, brk_block(s, x.body))
}

/// The same over the elements: the first that gives one counts.
#[verifier::opaque]
pub open spec fn brk_stmt_seq(s: State, xs: Seq<StmtView>) -> Option<TypeView>
    decreases xs,
{
    if xs.len() == 0 {
        None
    } else {
        or_type(brk_stmt(s, xs[0]), brk_stmt_seq(s, xs.drop_first()))
    }
}

/// The same over the elements: the first that gives one counts.
#[verifier::opaque]
pub open spec fn brk_expr_seq(s: State, xs: Seq<ExprView>) -> Option<TypeView>
    decreases xs,
{
    if xs.len() == 0 {
        None
    } else {
        or_type(brk_expr(s, xs[0]), brk_expr_seq(s, xs.drop_first()))
    }
}

/// The same over the elements: the first that gives one counts.
#[verifier::opaque]
pub open spec fn brk_string_expr_seq(s: State, xs: Seq<(Seq<char>, ExprView)>) -> Option<TypeView>
    decreases xs,
{
    if xs.len() == 0 {
        None
    } else {
        or_type(brk_expr(s, xs[0].1), brk_string_expr_seq(s, xs.drop_first()))
    }
}

/// The same over the elements: the first that gives one counts.
#[verifier::opaque]
pub open spec fn brk_expr_block_seq(s: State, xs: Seq<(ExprView, BlockView)>) -> Option<TypeView>
    decreases xs,
{
    if xs.len() == 0 {
        None
    } else {
        or_type(
            or_type(brk_expr(s, xs[0].0), brk_block(s, xs[0].1)),
            brk_expr_block_seq(s, xs.drop_first()),
        )
    }
}

/// The same over the elements: the first that gives one counts.
#[verifier::opaque]
pub open spec fn brk_match_arm_seq(s: State, xs: Seq<MatchArmView>) -> Option<TypeView>
    decreases xs,
{
    if xs.len() == 0 {
        None
    } else {
        or_type(brk_match_arm(s, xs[0]), brk_match_arm_seq(s, xs.drop_first()))
    }
}


fn slice_element_type(ty: &Type) -> (r: Option<Type>)
    ensures
        r.model() == slice_element(ty@),
{
    proof {
        reveal(slice_element);
    }
    reveal_with_fuel(type_view, 3);
    match ty {
        Type::Slice { inner } => Some(dup_type(inner)),
        Type::Ref { inner, .. } => match &**inner {
            Type::Slice { inner: elem } => Some(dup_type(elem)),
            _ => None,
        },
        _ => None,
    }
}

/// Whether a type is a slice or a reference to one.
pub fn is_slice(ty: &Type) -> (r: bool)
    ensures
        r == (slice_element(ty@) is Some),
{
    proof {
        reveal(slice_element);
    }
    slice_element_type(ty).is_some()
}

/// The element type of a slice or of a reference to one.
pub fn element_of_slice(ty: &Type) -> (r: Option<Type>)
    ensures
        r.model() == slice_element(ty@),
{
    proof {
        reveal(slice_element);
    }
    slice_element_type(ty)
}

/// Whether a type is `&str`.
pub fn is_str_reference(ty: &Type) -> (r: bool)
    ensures
        r == is_str_ref(ty@),
{
    proof {
        reveal(is_str_ref);
    }
    reveal_with_fuel(type_view, 2);
    match ty {
        Type::Ref { inner, .. } => match &**inner {
            Type::Str => true,
            _ => false,
        },
        _ => false,
    }
}

fn own_type_name(ty: &Type) -> (r: Option<String>)
    ensures
        r.model() == own_name(ty@),
{
    proof {
        reveal(own_name);
    }
    match ty {
        Type::Array { inner, len } => Some(array_type_key(inner, *len)),
        Type::Struct(name) => Some(name.clone()),
        Type::GenericInstance(name, args) => Some(mangle_generic_instance(name, args)),
        _ => match primitive_type_name(ty) {
            Some(name) => Some(name.to_owned()),
            None => None,
        },
    }
}

/// The name under which the methods of a receiver are registered, behind one reference.
pub fn method_owner_name(ty: &Type) -> (r: Option<String>)
    ensures
        r.model() == method_owner(ty@),
{
    proof {
        reveal(method_owner);
    }
    match ty {
        Type::Ref { inner, .. } => own_type_name(inner),
        _ => own_type_name(ty),
    }
}

fn second_of(pairs: &Vec<(String, String)>, name: &str) -> (r: Option<String>)
    ensures
        r.model() == find_pair(pairs.model(), name@),
{
    proof {
        reveal(find_pair);
    }
    let ghost all = pairs.model();
    let mut i: usize = 0;
    proof {
        assert(all.skip(0) =~= all);
    }
    while i < pairs.len()
        invariant
            i <= pairs@.len(),
            all == pairs.model(),
            find_pair(all.skip(i as int), name@) == find_pair(all, name@),
        decreases pairs@.len() - i,
    {
        proof {
            reveal(find_pair);
        }
        proof {
            assert(all.skip(i as int)[0] == all[i as int]);
            assert(all.skip(i as int).drop_first() =~= all.skip(i + 1));
        }
        if same(&pairs[i].0, name) {
            return Some(pairs[i].1.clone());
        }
        i += 1;
    }
    None
}

fn fn_called(fs: &Vec<Function>, name: &str) -> (r: Option<Function>)
    ensures
        r.model() == find_fn(fs.model(), name@),
{
    proof {
        reveal(find_fn);
    }
    let ghost all = fs.model();
    let mut i: usize = 0;
    proof {
        assert(all.skip(0) =~= all);
    }
    while i < fs.len()
        invariant
            i <= fs@.len(),
            all == fs.model(),
            find_fn(all.skip(i as int), name@) == find_fn(all, name@),
        decreases fs@.len() - i,
    {
        proof {
            reveal(find_fn);
        }
        proof {
            assert(all.skip(i as int)[0] == fs@[i as int]@);
            assert(all.skip(i as int).drop_first() =~= all.skip(i + 1));
        }
        if same(&fs[i].name, name) {
            return Some(fs[i].clone());
        }
        i += 1;
    }
    None
}

/// The index of the field called `name`.
pub fn find_field(fields: &Vec<StructField>, name: &str) -> (r: Option<usize>)
    ensures
        match r {
            Some(i) => i < fields@.len() && field_index(fields.model(), name@, 0) == Some(i as int),
            None => field_index(fields.model(), name@, 0) is None,
        },
{
    proof {
        reveal(field_index);
    }
    let mut i: usize = 0;
    while i < fields.len()
        invariant
            i <= fields@.len(),
            field_index(fields.model(), name@, i as int) == field_index(fields.model(), name@, 0),
        decreases fields@.len() - i,
    {
        proof {
            reveal(field_index);
        }
        proof {
            assert(fields.model()[i as int] == struct_field_view(fields@[i as int]));
        }
        if same(&fields[i].name, name) {
            return Some(i);
        }
        i += 1;
    }
    None
}

fn str_member_type(index: usize) -> (r: Type)
    ensures
        r@ == str_member(index),
{
    proof {
        reveal(str_member);
    }
    reveal_with_fuel(type_view, 2);
    if index == 0 {
        Type::Ptr { inner: Box::new(Type::I8), is_mut: false }
    } else if index == 1 {
        Type::Usize
    } else {
        Type::I32
    }
}

fn array_element_behind_ref(ty: &Type) -> (r: Option<Type>)
    ensures
        r.model() == array_behind_ref(ty@),
{
    proof {
        reveal(array_behind_ref);
    }
    reveal_with_fuel(type_view, 3);
    match ty {
        Type::Ref { inner, .. } => match &**inner {
            Type::Array { inner: elem, .. } => Some(dup_type(elem)),
            _ => None,
        },
        _ => None,
    }
}

fn slice_ref_type(elem: Type, is_mut: bool) -> (r: Type)
    ensures
        r@ == slice_ref(elem@, is_mut),
{
    proof {
        reveal(slice_ref);
    }
    reveal_with_fuel(type_view, 3);
    Type::Ref { inner: Box::new(Type::Slice { inner: Box::new(elem) }), is_mut }
}

/// Determine return type of builtin slice intrinsics.
pub fn slice_intrinsic_return_type(callee: &str, n: usize, first: &Type) -> (r: Option<Type>)
    ensures
        r.model() == intrinsic_type(callee@, n as nat, first@),
{
    proof {
        reveal(intrinsic_type);
    }
    if same(callee, "slice_index") && n == 2 {
        match array_element_behind_ref(first) {
            Some(elem) => Some(Type::Ref { inner: Box::new(elem), is_mut: false }),
            None => None,
        }
    } else if same(callee, "slice_index_mut") && n == 2 {
        match array_element_behind_ref(first) {
            Some(elem) => Some(Type::Ref { inner: Box::new(elem), is_mut: true }),
            None => None,
        }
    } else if same(callee, "slice_as_ptr") && n == 1 {
        match array_element_behind_ref(first) {
            Some(elem) => Some(Type::Ptr { inner: Box::new(elem), is_mut: false }),
            None => None,
        }
    } else if same(callee, "slice_from_raw_parts") && n == 2 {
        match first {
            Type::Ptr { inner, .. } => Some(slice_ref_type(dup_type(inner), false)),
            _ => None,
        }
    } else if same(callee, "slice_from_raw_parts_mut") && n == 2 {
        match first {
            Type::Ptr { inner, .. } => Some(slice_ref_type(dup_type(inner), true)),
            _ => None,
        }
    } else {
        None
    }
}

/// Whether a call asks for the size of a type.
pub fn asks_for_size(callee: &str, n: usize) -> (r: bool)
    ensures
        r == asks_size(callee@, n as nat),
{
    proof {
        reveal(asks_size);
    }
    (same(callee, "size_of") || has_suffix(callee, "::size_of")) && n == 1
}

fn overload_for(os: &Vec<(String, Vec<Type>)>, args: &Vec<Type>) -> (r: Option<String>)
    ensures
        r.model() == exact_overload(os.model(), type_seq_view(args@)),
{
    proof {
        reveal(exact_overload);
    }
    let ghost all = os.model();
    let mut i: usize = 0;
    proof {
        assert(all.skip(0) =~= all);
    }
    while i < os.len()
        invariant
            i <= os@.len(),
            all == os.model(),
            exact_overload(all.skip(i as int), type_seq_view(args@)) == exact_overload(
                all,
                type_seq_view(args@),
            ),
        decreases os@.len() - i,
    {
        proof {
            reveal(exact_overload);
        }
        proof {
            assert(all.skip(i as int)[0] == all[i as int]);
            assert(all.skip(i as int).drop_first() =~= all.skip(i + 1));
            assert(os@[i as int].1.model() =~= type_seq_view(os@[i as int].1@));
        }
        if same_types(&os[i].1, args) {
            return Some(os[i].0.clone());
        }
        i += 1;
    }
    None
}

/// The name of an item in a module or type.
pub fn qualified_name(module: &str, name: &str) -> (r: String)
    ensures
        r@ == qualified(module@, name@),
{
    proof {
        reveal(qualified);
    }
    cat3(module, "::", name)
}

/// The mangled name of a method with `n` parameters.
pub fn mangled_method_name(owner: &str, name: &str, n: usize) -> (r: String)
    ensures
        r@ == method_name(owner@, name@, n as nat),
{
    proof {
        reveal(method_name);
    }
    cat3(owner, "::", name).concat("/").concat(&show_usize(n))
}

fn indexed_element(ty: &Type) -> (r: Type)
    ensures
        r@ == element_type(ty@),
{
    proof {
        reveal(element_type);
    }
    reveal_with_fuel(type_view, 3);
    match ty {
        Type::Array { inner, .. } => dup_type(inner),
        Type::Slice { inner } => dup_type(inner),
        Type::Ref { inner, .. } => match &**inner {
            Type::Array { inner: e, .. } => dup_type(e),
            Type::Slice { inner: e } => dup_type(e),
            _ => Type::I32,
        },
        _ => Type::I32,
    }
}

/// Whether a type is the never type.
pub fn is_never(ty: &Type) -> (r: bool)
    ensures
        r == (ty@ is Never),
{
    match ty {
        Type::Never => true,
        _ => false,
    }
}

impl Env {
    /// The mangled name of a method of a type.
    pub fn find_method(&self, owner: &str, method: &str) -> (r: Option<String>)
        ensures
            r.model() == find_method(self@, owner@, method@),
    {
        proof {
            reveal(find_method);
        }
        match self.impl_methods.get(owner) {
            Some(ms) => second_of(ms, method),
            None => None,
        }
    }

    /// The generic method of a type that is called `method`.
    pub fn find_generic_method(&self, owner: &str, method: &str) -> (r: Option<Function>)
        ensures
            r.model() == find_generic_method(self@, owner@, method@),
    {
        proof {
            reveal(find_generic_method);
        }
        match self.generic_methods.get(owner) {
            Some(ms) => fn_called(ms, method),
            None => None,
        }
    }

    fn declared_return(&self, name: &str) -> (r: Type)
        ensures
            r@ == declared_return(self@, name@),
    {
        proof {
            reveal(declared_return);
        }
        match self.fn_return_types.get(name) {
            Some(t) => dup_type(t),
            None => Type::I32,
        }
    }

    fn owned_method_type(
        &self,
        owner: &str,
        receiver: &Type,
        method: &str,
        tys: &Vec<Type>,
        args: &Vec<Type>,
        fallback: &Type,
    ) -> (r: Type)
        ensures
            r@ == owned_method_type(
                self@,
                owner@,
                receiver@,
                method@,
                type_seq_view(tys@),
                type_seq_view(args@),
                fallback@,
            ),
    {
        proof {
            reveal(owned_method_type);
        }
        match self.find_generic_method(owner, method) {
            Some(f) => {
                let mut all: Vec<Type> = Vec::new();
                all.push(dup_type(receiver));
                let mut rest = dup_type_seq(args);
                let ghost before = rest@;
                all.append(&mut rest);
                proof {
                    assert forall|k: int| 0 <= k < args@.len() implies type_view(
                        #[trigger] before[k],
                    ) == type_seq_view(args@)[k] by {
                        assert(type_seq_view(before)[k] == type_seq_view(args@)[k]);
                    }
                    assert(type_seq_view(before).len() == type_seq_view(args@).len());
                    assert(type_seq_view(all@) =~= seq![receiver@] + type_seq_view(args@));
                }
                generic_return_type(&f, tys, &all)
            },
            None => {
                let found = self.find_method(owner, method);
                match &found {
                    Some(name) => match self.fn_return_types.get(name) {
                        Some(t) => {
                            return dup_type(t);
                        },
                        None => {},
                    },
                    None => {},
                }
                if same(method, "clone") || same(method, "default") {
                    dup_type(receiver)
                } else if same(method, "eq") || same(method, "ne") {
                    Type::Bool
                } else if found.is_some() {
                    Type::I32
                } else {
                    dup_type(fallback)
                }
            },
        }
    }

    fn method_type(
        &self,
        receiver: &Type,
        method: &str,
        tys: &Vec<Type>,
        args: &Vec<Type>,
        fallback: &Type,
    ) -> (r: Type)
        ensures
            r@ == method_type(
                self@,
                receiver@,
                method@,
                type_seq_view(tys@),
                type_seq_view(args@),
                fallback@,
            ),
    {
        proof {
            reveal(method_type);
        }
        if same(method, "len") && (is_str_reference(receiver) || is_slice(receiver)) {
            return Type::Usize;
        }
        if same(method, "as_ptr") {
            match slice_element_type(receiver) {
                Some(elem) => {
                    return Type::Ptr { inner: Box::new(elem), is_mut: false };
                },
                None => {},
            }
        }
        match method_owner_name(receiver) {
            Some(owner) => self.owned_method_type(&owner, receiver, method, tys, args, fallback),
            None => dup_type(fallback),
        }
    }

    fn struct_member(&self, owner: &str, index: usize, field: &Option<String>) -> (r: Type)
        ensures
            r@ == struct_member(self@, owner@, index, field.model()),
    {
        proof {
            reveal(struct_member);
        }
        match self.struct_fields.get(owner) {
            Some(fields) => {
                let by_name: Option<usize> = match field {
                    Some(name) => find_field(fields, name),
                    None => None,
                };
                proof {
                    assert forall|k: int| 0 <= k < fields@.len() implies #[trigger] fields.model()[k]
                        == struct_field_view(fields@[k]) by {}
                }
                match by_name {
                    Some(i) => {
                        proof {
                            assert(fields.model()[i as int] == struct_field_view(fields@[i as int]));
                        }
                        dup_type(&fields[i].ty)
                    },
                    None => if index < fields.len() && index < usize::MAX {
                        proof {
                            assert(fields.model()[index as int] == struct_field_view(fields@[index as int]));
                        }
                        dup_type(&fields[index].ty)
                    } else {
                        Type::I32
                    },
                }
            },
            None => Type::I32,
        }
    }

    fn member_type(&self, parent: &Type, index: usize, field: &Option<String>) -> (r: Type)
        ensures
            r@ == member_type(self@, parent@, index, field.model()),
    {
        proof {
            reveal(member_type);
        }
        reveal_with_fuel(type_view, 2);
        let ty: &Type = match parent {
            Type::Ref { inner, .. } => inner,
            _ => parent,
        };
        match ty {
            Type::Tuple(elems) => if index < elems.len() {
                proof {
                    assert(type_seq_view(elems@)[index as int] == type_view(elems@[index as int]));
                }
                dup_type(&elems[index])
            } else {
                Type::I32
            },
            Type::Ref { .. } => if is_str_reference(ty) {
                str_member_type(index)
            } else {
                Type::I32
            },
            Type::Str => str_member_type(index),
            Type::Struct(name) => self.struct_member(name, index, field),
            Type::GenericInstance(name, args) => self.struct_member(
                &mangle_generic_instance(name, args),
                index,
                field,
            ),
            _ => Type::I32,
        }
    }

    /// The type of an associated constant.
    pub fn const_type(&self, owner: &str, name: &str) -> (r: Option<Type>)
        ensures
            match r {
                Some(t) => has_const(
                    self@,
                    owner@,
                    name@,
                ) && t@ == self@.const_defs[owner@][name@].1,
                None => !has_const(self@, owner@, name@),
            },
    {
        proof {
            reveal(has_const);
        }
        match self.const_defs.get(owner) {
            Some(defs) => match defs.get(name) {
                Some(def) => Some(dup_type(&def.1)),
                None => None,
            },
            None => None,
        }
    }
}

impl CodeGen {
    fn call_type(&self, callee: &str, tys: &Vec<Type>, args: &Vec<Type>) -> (r: Type)
        ensures
            r@ == call_type(self@, callee@, type_seq_view(tys@), type_seq_view(args@)),
    {
        proof {
            reveal(call_type);
        }
        let n: usize = args.len();
        let first: Type = if n > 0 {
            dup_type(&args[0])
        } else {
            Type::Unit
        };
        match slice_intrinsic_return_type(callee, n, &first) {
            Some(t) => {
                return t;
            },
            None => {},
        }
        if asks_for_size(callee, tys.len()) {
            return Type::Usize;
        }
        if same(callee, "transmute") && n == 1 && tys.len() == 2 {
            return dup_type(&tys[1]);
        }
        if self.out.decls.contains_key(callee) {
            return self.env.declared_return(callee);
        }
        match self.env.overloads.get(callee) {
            Some(os) => match overload_for(os, args) {
                Some(name) => {
                    return self.env.declared_return(&name);
                },
                None => {},
            },
            None => {},
        }
        match self.env.generic_funcs.get(callee) {
            Some(f) => generic_return_type(f, tys, args),
            None => self.env.declared_return(callee),
        }
    }

    fn qualified_type(
        &self,
        module: &str,
        callee: &str,
        tys: &Vec<Type>,
        args: &Vec<Type>,
    ) -> (r: Type)
        ensures
            r@ == qualified_type(
                self@,
                module@,
                callee@,
                type_seq_view(tys@),
                type_seq_view(args@),
            ),
    {
        proof {
            reveal(qualified_type);
        }
        let n: usize = args.len();
        if asks_for_size(callee, tys.len()) {
            return Type::Usize;
        }
        if n == 0 && tys.len() == 0 {
            match self.env.const_type(module, callee) {
                Some(t) => {
                    return t;
                },
                None => {},
            }
        }
        let plain = qualified_name(module, callee);
        let counted = mangled_method_name(module, callee, n);
        let name: String = match self.env.find_method(module, callee) {
            Some(name) => name,
            None => if self.out.decls.contains_key(&plain) {
                plain
            } else if self.out.decls.contains_key(&counted) {
                counted
            } else {
                plain
            },
        };
        if !self.out.decls.contains_key(&name) {
            match self.env.generic_funcs.get(callee) {
                Some(f) => {
                    return generic_return_type(f, tys, args);
                },
                None => {},
            }
        }
        self.env.declared_return(&name)
    }

    /// The name of the type of an enum literal, from the type of its payload.
    pub fn enum_name_of(&self, name: &str, payload: &Option<Type>) -> (r: String)
        ensures
            r@ == enum_name_of(self@, name@, payload.model()),
    {
        proof {
            reveal(enum_name_of);
        }
        match payload {
            Some(t) => if self.env.generic_enum_defs.contains_key(name) {
                if is_concrete_type(t) {
                    let mut args: Vec<Type> = Vec::new();
                    args.push(dup_type(t));
                    proof {
                        assert(type_seq_view(args@) =~= seq![t@]);
                    }
                    let key = mangle_generic_instance(name, &args);
                    if self.env.struct_types.contains(&key) {
                        key
                    } else {
                        match self.fun.mono_names.get(name) {
                            Some(m) => m.clone(),
                            None => key,
                        }
                    }
                } else {
                    self.last_instance(name)
                }
            } else {
                name.to_owned()
            },
            None => self.last_instance(name),
        }
    }

    /// The name of the enum type that a pattern is matched against.
    pub fn pattern_owner_name(&self, ty: &Type) -> (r: Option<String>)
        ensures
            r.model() == pattern_owner(self@, ty@),
    {
        proof {
            reveal(pattern_owner);
        }
        reveal_with_fuel(type_view, 2);
        let inner: &Type = match ty {
            Type::Ref { inner, .. } => inner,
            _ => ty,
        };
        match inner {
            Type::Struct(name) => Some(self.last_instance(name)),
            Type::GenericInstance(name, args) => Some(mangle_generic_instance(name, args)),
            _ => None,
        }
    }

    /// The type that a pattern gives the variable `name` when it is matched against a value of type
    /// `ty`.
    pub fn resolve_pattern_var_type(&self, p: &Pattern, ty: &Type, name: &str) -> (r: Option<Type>)
        ensures
            r.model() == pattern_var(self@, p@, ty@, name@),
        decreases p,
    {
        proof {
            reveal(pattern_var);
        }
        match p {
            Pattern::Binding(b) => if same(b, name) {
                Some(dup_type(ty))
            } else {
                None
            },
            Pattern::EnumVariant { variant, payload, .. } => match payload {
                Some(inner) => match self.pattern_owner_name(ty) {
                    Some(owner) => match self.env.struct_fields.get(&owner) {
                        Some(fields) => match find_field(fields, &cat("__", variant)) {
                            Some(i) => {
                                proof {
                                    assert(fields.model()[i as int] == struct_field_view(
                                        fields@[i as int],
                                    ));
                                }
                                self.resolve_pattern_var_type(inner, &fields[i].ty, name)
                            },
                            None => None,
                        },
                        None => None,
                    },
                    None => None,
                },
                None => None,
            },
            _ => None,
        }
    }

    fn ident_type(&self, name: &str) -> (r: Type)
        ensures
            r@ == ident_type(self@, name@),
    {
        proof {
            reveal(ident_type);
        }
        match self.fun.consts.get(name) {
            Some(c) => dup_type(&c.1),
            None => match self.fun.symbols.get(name) {
                Some(v) => dup_type(&v.2),
                None => Type::I32,
            },
        }
    }

    /// Compute the type of an expression, using the symbol table for variable lookups.
    pub fn expr_type(&self, e: &Expr) -> (r: Type)
        ensures
            r@ == ty_of(self@, e@),
        decreases e,
    {
        proof {
            reveal(arm_ty);
            reveal(arms_ty);
            reveal(block_ty);
            reveal(brk_block);
            reveal(brk_expr);
            reveal(brk_expr_block_seq);
            reveal(brk_expr_seq);
            reveal(brk_match_arm);
            reveal(brk_match_arm_seq);
            reveal(brk_stmt);
            reveal(brk_stmt_seq);
            reveal(brk_string_expr_seq);
            reveal(diverges);
            reveal(else_if_ty);
            reveal(some_diverges);
            reveal(ty_all);
            reveal(ty_of);
        }
        match e {
            Expr::MethodCall { expr, method, args, type_args, .. } => self.env.method_type(
                &self.expr_type(expr),
                method,
                type_args,
                &self.expr_types(args),
                &literal_type(e),
            ),
            Expr::Ident(name, _) => self.ident_type(name),
            Expr::Member { expr, index, field, .. } => self.env.member_type(
                &self.expr_type(expr),
                *index,
                field,
            ),
            Expr::If { then_block, else_ifs, else_block, .. } => {
                let t = self.block_type(then_block);
                if is_never(&t) {
                    match self.else_if_type(else_ifs) {
                        Some(t) => t,
                        None => match else_block {
                            Some(b) => self.block_type(b),
                            None => Type::Never,
                        },
                    }
                } else {
                    t
                }
            },
            Expr::IfLet { then_block, else_block, .. } => {
                let t = self.block_type(then_block);
                if is_never(&t) {
                    match else_block {
                        Some(b) => self.block_type(b),
                        None => Type::Never,
                    }
                } else {
                    t
                }
            },
            Expr::For { .. } => Type::Unit,
            Expr::Block(block, _) => self.block_type(block),
            Expr::Match { scrutinee, arms, .. } => self.resolve_match_result_type(
                &self.expr_type(scrutinee),
                arms,
            ),
            Expr::Call { callee, args, type_args, .. } => self.call_type(
                callee,
                type_args,
                &self.expr_types(args),
            ),
            Expr::QualifiedCall { module, callee, args, type_args, .. } => self.qualified_type(
                module,
                callee,
                type_args,
                &self.expr_types(args),
            ),
            Expr::Binary { op, lhs, rhs, .. } => if is_bool_op(*op) {
                Type::Bool
            } else {
                let a = self.expr_type(lhs);
                let b = self.expr_type(rhs);
                if type_width(&a) >= type_width(&b) {
                    a
                } else {
                    b
                }
            },
            Expr::EnumLit { enum_name, variant, payload, .. } => match payload {
                Some(p) => {
                    let t = Some(self.expr_type(p));
                    Type::Struct(self.enum_name_of(enum_name, &t))
                },
                None => match self.env.const_type(enum_name, variant) {
                    Some(t) => t,
                    None => Type::Struct(self.enum_name_of(enum_name, &None)),
                },
            },
            Expr::Index { array, .. } => indexed_element(&self.expr_type(array)),
            Expr::Array(elems, _) => if elems.len() == 0 {
                Type::I32
            } else {
                proof {
                    assert(expr_seq_view(elems@).len() == elems@.len());
                    assert(expr_seq_view(elems@)[0] == expr_view(elems@[0]));
                }
                Type::Array { inner: Box::new(self.expr_type(&elems[0])), len: elems.len() }
            },
            Expr::Repeat(expr, count, _) => Type::Array {
                inner: Box::new(self.expr_type(expr)),
                len: *count,
            },
            Expr::Deref(expr, _) => pointee_type(&self.expr_type(expr)),
            Expr::Ref { expr, is_mut, .. } => Type::Ref {
                inner: Box::new(self.expr_type(expr)),
                is_mut: *is_mut,
            },
            Expr::UnaryNot(expr, _) => self.expr_type(expr),
            Expr::UnaryMinus(expr, _) => self.expr_type(expr),
            Expr::Tuple(elems, _) => Type::Tuple(self.expr_types(elems)),
            Expr::Loop { body, .. } => match self.loop_break_type(body) {
                Some(t) => t,
                None => Type::Unit,
            },
            _ => literal_type(e),
        }
    }

    /// The types of some expressions.
    pub fn expr_types(&self, es: &Vec<Expr>) -> (r: Vec<Type>)
        ensures
            type_seq_view(r@) == ty_all(self@, expr_seq_view(es@)),
        decreases es,
    {
        proof {
            reveal(arm_ty);
            reveal(arms_ty);
            reveal(block_ty);
            reveal(brk_block);
            reveal(brk_expr);
            reveal(brk_expr_block_seq);
            reveal(brk_expr_seq);
            reveal(brk_match_arm);
            reveal(brk_match_arm_seq);
            reveal(brk_stmt);
            reveal(brk_stmt_seq);
            reveal(brk_string_expr_seq);
            reveal(diverges);
            reveal(else_if_ty);
            reveal(some_diverges);
            reveal(ty_all);
            reveal(ty_of);
        }
        let mut tys: Vec<Type> = Vec::new();
        let mut i: usize = 0;
        while i < es.len()
            invariant
                i <= es@.len(),
                tys@.len() == i,
                forall|k: int| 0 <= k < i ==> type_view(#[trigger] tys@[k]) == ty_all(
                    self@,
                    expr_seq_view(es@),
                )[k],
            decreases es@.len() - i,
        {
            proof {
                reveal(arm_ty);
                reveal(arms_ty);
                reveal(block_ty);
                reveal(brk_block);
                reveal(brk_expr);
                reveal(brk_expr_block_seq);
                reveal(brk_expr_seq);
                reveal(brk_match_arm);
                reveal(brk_match_arm_seq);
                reveal(brk_stmt);
                reveal(brk_stmt_seq);
                reveal(brk_string_expr_seq);
                reveal(diverges);
                reveal(else_if_ty);
                reveal(some_diverges);
                reveal(ty_all);
                reveal(ty_of);
            }
            tys.push(self.expr_type(&es[i]));
            i += 1;
        }
        proof {
            assert(type_seq_view(tys@) =~= ty_all(self@, expr_seq_view(es@)));
        }
        tys
    }

    /// The type of a block.
    pub fn block_type(&self, b: &Block) -> (r: Type)
        ensures
            r@ == block_ty(self@, b@),
        decreases b,
    {
        proof {
            reveal(arm_ty);
            reveal(arms_ty);
            reveal(block_ty);
            reveal(brk_block);
            reveal(brk_expr);
            reveal(brk_expr_block_seq);
            reveal(brk_expr_seq);
            reveal(brk_match_arm);
            reveal(brk_match_arm_seq);
            reveal(brk_stmt);
            reveal(brk_stmt_seq);
            reveal(brk_string_expr_seq);
            reveal(diverges);
            reveal(else_if_ty);
            reveal(some_diverges);
            reveal(ty_all);
            reveal(ty_of);
        }
        match &b.tail_expr {
            Some(tail) => self.expr_type(tail),
            None => if self.block_diverges(&b.stmts) {
                Type::Never
            } else {
                Type::Unit
            },
        }
    }

    fn block_diverges(&self, stmts: &Vec<Stmt>) -> (r: bool)
        ensures
            r == some_diverges(self@, stmt_seq_view(stmts@)),
        decreases stmts,
    {
        proof {
            reveal(arm_ty);
            reveal(arms_ty);
            reveal(block_ty);
            reveal(brk_block);
            reveal(brk_expr);
            reveal(brk_expr_block_seq);
            reveal(brk_expr_seq);
            reveal(brk_match_arm);
            reveal(brk_match_arm_seq);
            reveal(brk_stmt);
            reveal(brk_stmt_seq);
            reveal(brk_string_expr_seq);
            reveal(diverges);
            reveal(else_if_ty);
            reveal(some_diverges);
            reveal(ty_all);
            reveal(ty_of);
        }
        let ghost all = stmt_seq_view(stmts@);
        let mut i: usize = 0;
        proof {
            assert(all.skip(0) =~= all);
        }
        while i < stmts.len()
            invariant
                i <= stmts@.len(),
                all == stmt_seq_view(stmts@),
                some_diverges(self@, all.skip(i as int)) == some_diverges(self@, all),
            decreases stmts@.len() - i,
        {
            proof {
                reveal(arm_ty);
                reveal(arms_ty);
                reveal(block_ty);
                reveal(brk_block);
                reveal(brk_expr);
                reveal(brk_expr_block_seq);
                reveal(brk_expr_seq);
                reveal(brk_match_arm);
                reveal(brk_match_arm_seq);
                reveal(brk_stmt);
                reveal(brk_stmt_seq);
                reveal(brk_string_expr_seq);
                reveal(diverges);
                reveal(else_if_ty);
                reveal(some_diverges);
                reveal(ty_all);
                reveal(ty_of);
            }
            proof {
                assert(all.skip(i as int)[0] == stmt_view(stmts@[i as int]));
                assert(all.skip(i as int).drop_first() =~= all.skip(i + 1));
            }
            if self.stmt_diverges(&stmts[i]) {
                return true;
            }
            i += 1;
        }
        false
    }

    fn stmt_diverges(&self, stmt: &Stmt) -> (r: bool)
        ensures
            r == diverges(self@, stmt@),
        decreases stmt,
    {
        proof {
            reveal(arm_ty);
            reveal(arms_ty);
            reveal(block_ty);
            reveal(brk_block);
            reveal(brk_expr);
            reveal(brk_expr_block_seq);
            reveal(brk_expr_seq);
            reveal(brk_match_arm);
            reveal(brk_match_arm_seq);
            reveal(brk_stmt);
            reveal(brk_stmt_seq);
            reveal(brk_string_expr_seq);
            reveal(diverges);
            reveal(else_if_ty);
            reveal(some_diverges);
            reveal(ty_all);
            reveal(ty_of);
        }
        match stmt {
            Stmt::Return { .. } => true,
            Stmt::Break { .. } => true,
            Stmt::Continue { .. } => true,
            Stmt::Expr(e) => is_never(&self.expr_type(e)),
            Stmt::Let { init, .. } => is_never(&self.expr_type(init)),
            Stmt::Const { init, .. } => is_never(&self.expr_type(init)),
        }
    }

    fn else_if_type(&self, else_ifs: &Vec<(Expr, Block)>) -> (r: Option<Type>)
        ensures
            r.model() == else_if_ty(self@, expr_block_seq_view(else_ifs@)),
        decreases else_ifs,
    {
        proof {
            reveal(arm_ty);
            reveal(arms_ty);
            reveal(block_ty);
            reveal(brk_block);
            reveal(brk_expr);
            reveal(brk_expr_block_seq);
            reveal(brk_expr_seq);
            reveal(brk_match_arm);
            reveal(brk_match_arm_seq);
            reveal(brk_stmt);
            reveal(brk_stmt_seq);
            reveal(brk_string_expr_seq);
            reveal(diverges);
            reveal(else_if_ty);
            reveal(some_diverges);
            reveal(ty_all);
            reveal(ty_of);
        }
        let ghost all = expr_block_seq_view(else_ifs@);
        let mut i: usize = 0;
        proof {
            assert(all.skip(0) =~= all);
        }
        while i < else_ifs.len()
            invariant
                i <= else_ifs@.len(),
                all == expr_block_seq_view(else_ifs@),
                else_if_ty(self@, all.skip(i as int)) == else_if_ty(self@, all),
            decreases else_ifs@.len() - i,
        {
            proof {
                reveal(arm_ty);
                reveal(arms_ty);
                reveal(block_ty);
                reveal(brk_block);
                reveal(brk_expr);
                reveal(brk_expr_block_seq);
                reveal(brk_expr_seq);
                reveal(brk_match_arm);
                reveal(brk_match_arm_seq);
                reveal(brk_stmt);
                reveal(brk_stmt_seq);
                reveal(brk_string_expr_seq);
                reveal(diverges);
                reveal(else_if_ty);
                reveal(some_diverges);
                reveal(ty_all);
                reveal(ty_of);
            }
            proof {
                assert(all.skip(i as int)[0].1 == block_view(else_ifs@[i as int].1));
                assert(all.skip(i as int).drop_first() =~= all.skip(i + 1));
            }
            let t = self.block_type(&else_ifs[i].1);
            if !is_never(&t) {
                return Some(t);
            }
            i += 1;
        }
        None
    }

    fn arm_type(&self, ty: &Type, arm: &MatchArm) -> (r: Type)
        ensures
            r@ == arm_ty(self@, ty@, arm@),
        decreases arm,
    {
        proof {
            reveal(arm_ty);
            reveal(arms_ty);
            reveal(block_ty);
            reveal(brk_block);
            reveal(brk_expr);
            reveal(brk_expr_block_seq);
            reveal(brk_expr_seq);
            reveal(brk_match_arm);
            reveal(brk_match_arm_seq);
            reveal(brk_stmt);
            reveal(brk_stmt_seq);
            reveal(brk_string_expr_seq);
            reveal(diverges);
            reveal(else_if_ty);
            reveal(some_diverges);
            reveal(ty_all);
            reveal(ty_of);
        }
        proof {
            assert(arm@.body == arm.body@);
        }
        match &arm.body.tail_expr {
            Some(tail) => {
                proof {
                    assert(arm@.body.tail_expr == Some(Box::new(tail@)));
                }
                match &**tail {
                    Expr::Ident(name, _) => {
                        proof {
                            assert(tail@ is Ident);
                        }
                        if self.fun.consts.contains_key(name) || self.fun.symbols.contains_key(name) {
                            self.ident_type(name)
                        } else {
                            match self.resolve_pattern_var_type(&arm.pattern, ty, name) {
                                Some(t) => t,
                                None => Type::I32,
                            }
                        }
                    },
                    _ => self.block_type(&arm.body),
                }
            },
            None => self.block_type(&arm.body),
        }
    }

    fn resolve_match_result_type(&self, ty: &Type, arms: &Vec<MatchArm>) -> (r: Type)
        ensures
            r@ == arms_ty(self@, ty@, match_arm_seq_view(arms@)),
        decreases arms,
    {
        proof {
            reveal(arm_ty);
            reveal(arms_ty);
            reveal(block_ty);
            reveal(brk_block);
            reveal(brk_expr);
            reveal(brk_expr_block_seq);
            reveal(brk_expr_seq);
            reveal(brk_match_arm);
            reveal(brk_match_arm_seq);
            reveal(brk_stmt);
            reveal(brk_stmt_seq);
            reveal(brk_string_expr_seq);
            reveal(diverges);
            reveal(else_if_ty);
            reveal(some_diverges);
            reveal(ty_all);
            reveal(ty_of);
        }
        let ghost all = match_arm_seq_view(arms@);
        let mut i: usize = 0;
        proof {
            assert(all.skip(0) =~= all);
        }
        while i < arms.len()
            invariant
                i <= arms@.len(),
                all == match_arm_seq_view(arms@),
                arms_ty(self@, ty@, all.skip(i as int)) == arms_ty(self@, ty@, all),
            decreases arms@.len() - i,
        {
            proof {
                reveal(arm_ty);
                reveal(arms_ty);
                reveal(block_ty);
                reveal(brk_block);
                reveal(brk_expr);
                reveal(brk_expr_block_seq);
                reveal(brk_expr_seq);
                reveal(brk_match_arm);
                reveal(brk_match_arm_seq);
                reveal(brk_stmt);
                reveal(brk_stmt_seq);
                reveal(brk_string_expr_seq);
                reveal(diverges);
                reveal(else_if_ty);
                reveal(some_diverges);
                reveal(ty_all);
                reveal(ty_of);
            }
            proof {
                assert(all.skip(i as int)[0] == match_arm_view(arms@[i as int]));
                assert(all.skip(i as int).drop_first() =~= all.skip(i + 1));
            }
            let t = self.arm_type(ty, &arms[i]);
            if !is_never(&t) || i + 1 == arms.len() {
                return t;
            }
            i += 1;
        }
        Type::Unit
    }

    /// The type of the value of the first `break` in a block that leaves the loop around it: the
    /// unit type
    /// where it has no value, nothing where there is no such `break`.
    pub fn loop_break_type(&self, x: &Block) -> (r: Option<Type>)
        ensures
            r.model() == brk_block(self@, x@),
        decreases x,
    {
        proof {
            reveal(arm_ty);
            reveal(arms_ty);
            reveal(block_ty);
            reveal(brk_block);
            reveal(brk_expr);
            reveal(brk_expr_block_seq);
            reveal(brk_expr_seq);
            reveal(brk_match_arm);
            reveal(brk_match_arm_seq);
            reveal(brk_stmt);
            reveal(brk_stmt_seq);
            reveal(brk_string_expr_seq);
            reveal(diverges);
            reveal(else_if_ty);
            reveal(some_diverges);
            reveal(ty_all);
            reveal(ty_of);
        }
        let found = self.find_typed_breaks_stmt_seq(&x.stmts);
        if found.is_some() {
            return found;
        }
        match &x.tail_expr { Some(y) => self.expr_break_type(y), None => None }
    }

    /// The type of the value of the first `break` in a statement that leaves the loop around it.
    pub fn stmt_break_type(&self, x: &Stmt) -> (r: Option<Type>)
        ensures
            r.model() == brk_stmt(self@, x@),
        decreases x,
    {
        proof {
            reveal(arm_ty);
            reveal(arms_ty);
            reveal(block_ty);
            reveal(brk_block);
            reveal(brk_expr);
            reveal(brk_expr_block_seq);
            reveal(brk_expr_seq);
            reveal(brk_match_arm);
            reveal(brk_match_arm_seq);
            reveal(brk_stmt);
            reveal(brk_stmt_seq);
            reveal(brk_string_expr_seq);
            reveal(diverges);
            reveal(else_if_ty);
            reveal(some_diverges);
            reveal(ty_all);
            reveal(ty_of);
        }
        match x {
            Stmt::Let { init, else_block, .. } => {
                let found = self.expr_break_type(init);
                if found.is_some() {
                    return found;
                }
                match else_block { Some(y) => self.loop_break_type(y), None => None }
            },
            Stmt::Const { init, .. } => {
                self.expr_break_type(init)
            },
            Stmt::Expr(x0) => {
                self.expr_break_type(x0)
            },
            Stmt::Return { value, .. } => {
                match value { Some(y) => self.expr_break_type(y), None => None }
            },
            Stmt::Break { value, .. } => Some(
                match value { Some(v) => self.expr_type(v), None => Type::Unit },
            ),
            _ => None,
        }
    }

    /// The type of the value of the first `break` in an expression that leaves the loop around it.
    pub fn expr_break_type(&self, x: &Expr) -> (r: Option<Type>)
        ensures
            r.model() == brk_expr(self@, x@),
        decreases x,
    {
        proof {
            reveal(arm_ty);
            reveal(arms_ty);
            reveal(block_ty);
            reveal(brk_block);
            reveal(brk_expr);
            reveal(brk_expr_block_seq);
            reveal(brk_expr_seq);
            reveal(brk_match_arm);
            reveal(brk_match_arm_seq);
            reveal(brk_stmt);
            reveal(brk_stmt_seq);
            reveal(brk_string_expr_seq);
            reveal(diverges);
            reveal(else_if_ty);
            reveal(some_diverges);
            reveal(ty_all);
            reveal(ty_of);
        }
        match x {
            Expr::Call { args, .. } => {
                self.find_typed_breaks_expr_seq(args)
            },
            Expr::QualifiedCall { args, .. } => {
                self.find_typed_breaks_expr_seq(args)
            },
            Expr::Binary { lhs, rhs, .. } => {
                let found = self.expr_break_type(lhs);
                if found.is_some() {
                    return found;
                }
                self.expr_break_type(rhs)
            },
            Expr::Assign { target, value, .. } => {
                let found = self.expr_break_type(target);
                if found.is_some() {
                    return found;
                }
                self.expr_break_type(value)
            },
            Expr::Ref { expr, .. } => {
                self.expr_break_type(expr)
            },
            Expr::UnaryNot(x0, _) => {
                self.expr_break_type(x0)
            },
            Expr::UnaryMinus(x0, _) => {
                self.expr_break_type(x0)
            },
            Expr::Deref(x0, _) => {
                self.expr_break_type(x0)
            },
            Expr::Cast { expr, .. } => {
                self.expr_break_type(expr)
            },
            Expr::Tuple(x0, _) => {
                self.find_typed_breaks_expr_seq(x0)
            },
            Expr::Member { expr, .. } => {
                self.expr_break_type(expr)
            },
            Expr::MethodCall { expr, args, .. } => {
                let found = self.expr_break_type(expr);
                if found.is_some() {
                    return found;
                }
                self.find_typed_breaks_expr_seq(args)
            },
            Expr::StructLit { fields, .. } => {
                self.find_typed_breaks_string_expr_seq(fields)
            },
            Expr::EnumLit { payload, .. } => {
                match payload { Some(y) => self.expr_break_type(y), None => None }
            },
            Expr::If { cond, then_block, else_ifs, else_block, .. } => {
                let found = self.expr_break_type(cond);
                if found.is_some() {
                    return found;
                }
                let found = self.loop_break_type(then_block);
                if found.is_some() {
                    return found;
                }
                let found = self.find_typed_breaks_expr_block_seq(else_ifs);
                if found.is_some() {
                    return found;
                }
                match else_block { Some(y) => self.loop_break_type(y), None => None }
            },
            Expr::Array(x0, _) => {
                self.find_typed_breaks_expr_seq(x0)
            },
            Expr::Repeat(x0, _, _) => {
                self.expr_break_type(x0)
            },
            Expr::Index { array, index, .. } => {
                let found = self.expr_break_type(array);
                if found.is_some() {
                    return found;
                }
                self.expr_break_type(index)
            },
            Expr::IfLet { scrutinee, then_block, else_block, .. } => {
                let found = self.expr_break_type(scrutinee);
                if found.is_some() {
                    return found;
                }
                let found = self.loop_break_type(then_block);
                if found.is_some() {
                    return found;
                }
                match else_block { Some(y) => self.loop_break_type(y), None => None }
            },
            Expr::Match { scrutinee, arms, .. } => {
                let found = self.expr_break_type(scrutinee);
                if found.is_some() {
                    return found;
                }
                self.find_typed_breaks_match_arm_seq(arms)
            },
            Expr::Block(x0, _) => {
                self.loop_break_type(x0)
            },
            _ => None,
        }
    }

    /// The type of the value of the first `break` in an arm.
    pub fn arm_break_type(&self, x: &MatchArm) -> (r: Option<Type>)
        ensures
            r.model() == brk_match_arm(self@, x@),
        decreases x,
    {
        proof {
            reveal(arm_ty);
            reveal(arms_ty);
            reveal(block_ty);
            reveal(brk_block);
            reveal(brk_expr);
            reveal(brk_expr_block_seq);
            reveal(brk_expr_seq);
            reveal(brk_match_arm);
            reveal(brk_match_arm_seq);
            reveal(brk_stmt);
            reveal(brk_stmt_seq);
            reveal(brk_string_expr_seq);
            reveal(diverges);
            reveal(else_if_ty);
            reveal(some_diverges);
            reveal(ty_all);
            reveal(ty_of);
        }
        let found = match &x.guard { Some(y) => self.expr_break_type(y), None => None };
        if found.is_some() {
            return found;
        }
        self.loop_break_type(&x.body)
    }

    fn find_typed_breaks_stmt_seq(&self, v: &Vec<Stmt>) -> (r: Option<Type>)
        ensures
            r.model() == brk_stmt_seq(self@, stmt_seq_view(v@)),
        decreases v,
    {
        proof {
            reveal(arm_ty);
            reveal(arms_ty);
            reveal(block_ty);
            reveal(brk_block);
            reveal(brk_expr);
            reveal(brk_expr_block_seq);
            reveal(brk_expr_seq);
            reveal(brk_match_arm);
            reveal(brk_match_arm_seq);
            reveal(brk_stmt);
            reveal(brk_stmt_seq);
            reveal(brk_string_expr_seq);
            reveal(diverges);
            reveal(else_if_ty);
            reveal(some_diverges);
            reveal(ty_all);
            reveal(ty_of);
        }
        let ghost all = stmt_seq_view(v@);
        let mut i: usize = 0;
        proof {
            assert(all.skip(0) =~= all);
        }
        while i < v.len()
            invariant
                i <= v@.len(),
                all == stmt_seq_view(v@),
                brk_stmt_seq(self@, all.skip(i as int)) == brk_stmt_seq(self@, all),
            decreases v@.len() - i,
        {
            proof {
                reveal(arm_ty);
                reveal(arms_ty);
                reveal(block_ty);
                reveal(brk_block);
                reveal(brk_expr);
                reveal(brk_expr_block_seq);
                reveal(brk_expr_seq);
                reveal(brk_match_arm);
                reveal(brk_match_arm_seq);
                reveal(brk_stmt);
                reveal(brk_stmt_seq);
                reveal(brk_string_expr_seq);
                reveal(diverges);
                reveal(else_if_ty);
                reveal(some_diverges);
                reveal(ty_all);
                reveal(ty_of);
            }
            proof {
                assert(all.skip(i as int)[0] == all[i as int]);
                assert(all.skip(i as int).drop_first() =~= all.skip(i + 1));
            }
            let found = self.stmt_break_type(&v[i]);
            if found.is_some() {
                return found;
            }
            i += 1;
        }
        None
    }

    fn find_typed_breaks_expr_seq(&self, v: &Vec<Expr>) -> (r: Option<Type>)
        ensures
            r.model() == brk_expr_seq(self@, expr_seq_view(v@)),
        decreases v,
    {
        proof {
            reveal(arm_ty);
            reveal(arms_ty);
            reveal(block_ty);
            reveal(brk_block);
            reveal(brk_expr);
            reveal(brk_expr_block_seq);
            reveal(brk_expr_seq);
            reveal(brk_match_arm);
            reveal(brk_match_arm_seq);
            reveal(brk_stmt);
            reveal(brk_stmt_seq);
            reveal(brk_string_expr_seq);
            reveal(diverges);
            reveal(else_if_ty);
            reveal(some_diverges);
            reveal(ty_all);
            reveal(ty_of);
        }
        let ghost all = expr_seq_view(v@);
        let mut i: usize = 0;
        proof {
            assert(all.skip(0) =~= all);
        }
        while i < v.len()
            invariant
                i <= v@.len(),
                all == expr_seq_view(v@),
                brk_expr_seq(self@, all.skip(i as int)) == brk_expr_seq(self@, all),
            decreases v@.len() - i,
        {
            proof {
                reveal(arm_ty);
                reveal(arms_ty);
                reveal(block_ty);
                reveal(brk_block);
                reveal(brk_expr);
                reveal(brk_expr_block_seq);
                reveal(brk_expr_seq);
                reveal(brk_match_arm);
                reveal(brk_match_arm_seq);
                reveal(brk_stmt);
                reveal(brk_stmt_seq);
                reveal(brk_string_expr_seq);
                reveal(diverges);
                reveal(else_if_ty);
                reveal(some_diverges);
                reveal(ty_all);
                reveal(ty_of);
            }
            proof {
                assert(all.skip(i as int)[0] == all[i as int]);
                assert(all.skip(i as int).drop_first() =~= all.skip(i + 1));
            }
            let found = self.expr_break_type(&v[i]);
            if found.is_some() {
                return found;
            }
            i += 1;
        }
        None
    }

    fn find_typed_breaks_string_expr_seq(&self, v: &Vec<(String, Expr)>) -> (r: Option<Type>)
        ensures
            r.model() == brk_string_expr_seq(self@, string_expr_seq_view(v@)),
        decreases v,
    {
        proof {
            reveal(arm_ty);
            reveal(arms_ty);
            reveal(block_ty);
            reveal(brk_block);
            reveal(brk_expr);
            reveal(brk_expr_block_seq);
            reveal(brk_expr_seq);
            reveal(brk_match_arm);
            reveal(brk_match_arm_seq);
            reveal(brk_stmt);
            reveal(brk_stmt_seq);
            reveal(brk_string_expr_seq);
            reveal(diverges);
            reveal(else_if_ty);
            reveal(some_diverges);
            reveal(ty_all);
            reveal(ty_of);
        }
        let ghost all = string_expr_seq_view(v@);
        let mut i: usize = 0;
        proof {
            assert(all.skip(0) =~= all);
        }
        while i < v.len()
            invariant
                i <= v@.len(),
                all == string_expr_seq_view(v@),
                brk_string_expr_seq(self@, all.skip(i as int)) == brk_string_expr_seq(self@, all),
            decreases v@.len() - i,
        {
            proof {
                reveal(arm_ty);
                reveal(arms_ty);
                reveal(block_ty);
                reveal(brk_block);
                reveal(brk_expr);
                reveal(brk_expr_block_seq);
                reveal(brk_expr_seq);
                reveal(brk_match_arm);
                reveal(brk_match_arm_seq);
                reveal(brk_stmt);
                reveal(brk_stmt_seq);
                reveal(brk_string_expr_seq);
                reveal(diverges);
                reveal(else_if_ty);
                reveal(some_diverges);
                reveal(ty_all);
                reveal(ty_of);
            }
            proof {
                assert(all.skip(i as int)[0] == all[i as int]);
                assert(all.skip(i as int).drop_first() =~= all.skip(i + 1));
            }
            let found = self.expr_break_type(&v[i].1);
            if found.is_some() {
                return found;
            }
            i += 1;
        }
        None
    }

    fn find_typed_breaks_expr_block_seq(&self, v: &Vec<(Expr, Block)>) -> (r: Option<Type>)
        ensures
            r.model() == brk_expr_block_seq(self@, expr_block_seq_view(v@)),
        decreases v,
    {
        proof {
            reveal(arm_ty);
            reveal(arms_ty);
            reveal(block_ty);
            reveal(brk_block);
            reveal(brk_expr);
            reveal(brk_expr_block_seq);
            reveal(brk_expr_seq);
            reveal(brk_match_arm);
            reveal(brk_match_arm_seq);
            reveal(brk_stmt);
            reveal(brk_stmt_seq);
            reveal(brk_string_expr_seq);
            reveal(diverges);
            reveal(else_if_ty);
            reveal(some_diverges);
            reveal(ty_all);
            reveal(ty_of);
        }
        let ghost all = expr_block_seq_view(v@);
        let mut i: usize = 0;
        proof {
            assert(all.skip(0) =~= all);
        }
        while i < v.len()
            invariant
                i <= v@.len(),
                all == expr_block_seq_view(v@),
                brk_expr_block_seq(self@, all.skip(i as int)) == brk_expr_block_seq(self@, all),
            decreases v@.len() - i,
        {
            proof {
                reveal(arm_ty);
                reveal(arms_ty);
                reveal(block_ty);
                reveal(brk_block);
                reveal(brk_expr);
                reveal(brk_expr_block_seq);
                reveal(brk_expr_seq);
                reveal(brk_match_arm);
                reveal(brk_match_arm_seq);
                reveal(brk_stmt);
                reveal(brk_stmt_seq);
                reveal(brk_string_expr_seq);
                reveal(diverges);
                reveal(else_if_ty);
                reveal(some_diverges);
                reveal(ty_all);
                reveal(ty_of);
            }
            proof {
                assert(all.skip(i as int)[0] == all[i as int]);
                assert(all.skip(i as int).drop_first() =~= all.skip(i + 1));
            }
            let found = self.expr_break_type(&v[i].0);
            if found.is_some() {
                return found;
            }
            let found = self.loop_break_type(&v[i].1);
            if found.is_some() {
                return found;
            }
            i += 1;
        }
        None
    }

    fn find_typed_breaks_match_arm_seq(&self, v: &Vec<MatchArm>) -> (r: Option<Type>)
        ensures
            r.model() == brk_match_arm_seq(self@, match_arm_seq_view(v@)),
        decreases v,
    {
        proof {
            reveal(arm_ty);
            reveal(arms_ty);
            reveal(block_ty);
            reveal(brk_block);
            reveal(brk_expr);
            reveal(brk_expr_block_seq);
            reveal(brk_expr_seq);
            reveal(brk_match_arm);
            reveal(brk_match_arm_seq);
            reveal(brk_stmt);
            reveal(brk_stmt_seq);
            reveal(brk_string_expr_seq);
            reveal(diverges);
            reveal(else_if_ty);
            reveal(some_diverges);
            reveal(ty_all);
            reveal(ty_of);
        }
        let ghost all = match_arm_seq_view(v@);
        let mut i: usize = 0;
        proof {
            assert(all.skip(0) =~= all);
        }
        while i < v.len()
            invariant
                i <= v@.len(),
                all == match_arm_seq_view(v@),
                brk_match_arm_seq(self@, all.skip(i as int)) == brk_match_arm_seq(self@, all),
            decreases v@.len() - i,
        {
            proof {
                reveal(arm_ty);
                reveal(arms_ty);
                reveal(block_ty);
                reveal(brk_block);
                reveal(brk_expr);
                reveal(brk_expr_block_seq);
                reveal(brk_expr_seq);
                reveal(brk_match_arm);
                reveal(brk_match_arm_seq);
                reveal(brk_stmt);
                reveal(brk_stmt_seq);
                reveal(brk_string_expr_seq);
                reveal(diverges);
                reveal(else_if_ty);
                reveal(some_diverges);
                reveal(ty_all);
                reveal(ty_of);
            }
            proof {
                assert(all.skip(i as int)[0] == all[i as int]);
                assert(all.skip(i as int).drop_first() =~= all.skip(i + 1));
            }
            let found = self.arm_break_type(&v[i]);
            if found.is_some() {
                return found;
            }
            i += 1;
        }
        None
    }

}

} // verus!
