//! Operators by trait methods, and the methods that arrays have.
use crate::ast::{BinOp, Type};
use crate::builder::{begin, cast, elem_ptr, emit_value, finish, int_const, int_test, mk_int, spill};
use crate::growth::{
    confined, confined_to, count_from, extended, fields_kept, grown, lemma_listed_push,
    lemma_returned_back, lemma_returned_more, same_variables, settled, stays, well_listed, within,
};
use crate::infer::find_method;
use crate::ir::{
    CastKind, FnSig, FnSigView, Inlining, Inst, InstView, IntPred, LTy, LTyView, Operand,
    OperandView, Val, ValView, dup_l_ty_seq, l_ty_seq_view, same_lty, val_seq_view,
};
use crate::model::{TypeView, dup_type_seq, type_seq_view};
use crate::names::{mangled, show_type, type_key, type_text};
use crate::query::{implements, lower_type};
use crate::scopes::{call_fitted, type_key_of};
use crate::state::{CodeGen, CodegenError, Env, EnvView, ErrorView, OutView, State, err};
use crate::table::{Model, Names, at};
use crate::text::{cat, cat3, texts};
use vstd::prelude::*;

verus! {

broadcast use crate::lists::group_list_views;

/// Registers a method of a type under its mangled name.
#[verifier::opaque]
pub open spec fn add_method(
    s: State,
    key: Seq<char>,
    name: Seq<char>,
    mangled: Seq<char>,
) -> State {
    match at(s.env.impl_methods, key) {
        Some(known) => {
            let more = known;
            let more = more.push((name, mangled));
            State {
                env: EnvView { impl_methods: s.env.impl_methods.insert(key, more), ..s.env },
                ..s
            }
        },
        None => {
            State {
                env: EnvView {
                    impl_methods: s.env.impl_methods.insert(key, seq![(name, mangled)]),
                    ..s.env
                },
                ..s
            }
        },
    }
}

/// Registers a trait that a type implements.
#[verifier::opaque]
pub open spec fn add_trait(s: State, key: Seq<char>, name: Seq<char>) -> State {
    match at(s.env.trait_impls, key) {
        Some(known) => {
            let more = known;
            let more = more.insert(name);
            State {
                env: EnvView { trait_impls: s.env.trait_impls.insert(key, more), ..s.env },
                ..s
            }
        },
        None => {
            let more = Set::empty();
            let more = more.insert(name);
            State {
                env: EnvView { trait_impls: s.env.trait_impls.insert(key, more), ..s.env },
                ..s
            }
        },
    }
}

/// Whether a method of that name is registered for a type.
#[verifier::opaque]
pub open spec fn has_method_named(s: EnvView, key: Seq<char>, name: Seq<char>) -> bool {
    (find_method(s, key, name) is Some)
}

/// The name of a trait method that the compiler provides.
#[verifier::opaque]
pub open spec fn builtin_fn_spec(
    trait_name: Seq<char>,
    method: Seq<char>,
    key: Seq<char>,
) -> Seq<char> {
    ("__builtin_"@ + trait_name + "_"@ + method + "_"@ + key)
}

/// The name of a trait method that the program provides.
#[verifier::opaque]
pub open spec fn trait_fn_spec(
    trait_name: Seq<char>,
    method: Seq<char>,
    key: Seq<char>,
) -> Seq<char> {
    ("__trait_"@ + trait_name + "_"@ + method + "_"@ + key)
}

/// The declared function that carries out a trait method on a type.
#[verifier::opaque]
pub open spec fn operator_fn(
    s: State,
    trait_name: Seq<char>,
    method: Seq<char>,
    key: Seq<char>,
) -> Option<Seq<char>> {
    let a = builtin_fn_spec(trait_name, method, key);
    if s.out.decls.contains_key(a) {
        Some(a)
    } else {
        let b = trait_fn_spec(trait_name, method, key);
        if s.out.decls.contains_key(b) {
            Some(b)
        } else if implements(s.env, TypeView::Struct(key), trait_name) {
            declared_method(s, key, method)
        } else {
            None
        }
    }
}

/// The declared function that a method of a type is registered under; the methods of an instance
/// are found this way.
#[verifier::opaque]
pub open spec fn declared_method(s: State, key: Seq<char>, method: Seq<char>) -> Option<Seq<char>> {
    match find_method(s.env, key, method) {
        Some(f) => {
            if s.out.decls.contains_key(f) {
                Some(f)
            } else {
                None
            }
        },
        None => None,
    }
}

/// The width of an integer type.
#[verifier::opaque]
pub open spec fn bits_of_spec(ty: LTyView) -> Option<u32> {
    match ty {
        LTyView::Int(w) => Some(w),
        _ => None,
    }
}

/// Two operands with the narrower integer widened to the other one, and the type they have.
#[verifier::opaque]
pub open spec fn promote(
    s: State,
    a: ValView,
    b: ValView,
    ta: TypeView,
    tb: TypeView,
) -> ((ValView, ValView, TypeView), State) {
    match bits_of_spec(a.ty) {
        Some(wa) => {
            match bits_of_spec(b.ty) {
                Some(wb) => {
                    if wa > wb {
                        let (c, s) = cast(s, CastKind::ZeroExt, b, a.ty);
                        ((a, c, ta), s)
                    } else if wb > wa {
                        let (c, s) = cast(s, CastKind::ZeroExt, a, b.ty);
                        ((c, b, tb), s)
                    } else {
                        ((a, b, ta), s)
                    }
                },
                None => ((a, b, ta), s),
            }
        },
        None => ((a, b, ta), s),
    }
}

/// The name that the trait methods of a type are built from.
#[verifier::opaque]
pub open spec fn type_key_or_fail_spec(ty: TypeView) -> Result<Seq<char>, ErrorView> {
    match type_key(ty) {
        Some(key) => Ok(key),
        None => Err(err("internal: unsupported type for trait method: "@ + type_text(ty))),
    }
}

/// The test on the result of `cmp` that an ordering operator makes.
#[verifier::opaque]
pub open spec fn order_test_spec(op: BinOp) -> IntPred {
    match op {
        BinOp::Lt => IntPred::Lt,
        BinOp::Gt => IntPred::Gt,
        BinOp::Le => IntPred::Le,
        _ => IntPred::Ge,
    }
}

/// An ordering operator by a call of `cmp`.
#[verifier::opaque]
pub open spec fn call_order(
    s: State,
    op: BinOp,
    f: Seq<char>,
    pa: ValView,
    pb: ValView,
) -> (Result<ValView, ErrorView>, State) {
    match call_fitted(s, f, seq![pa, pb]) {
        (Ok(c), s) => {
            if c.ty is Int {
                let (got3, s) = int_test(s, order_test_spec(op), c, int_const(32, 0));
                (Ok(got3), s)
            } else {
                (Err(err("internal: cmp does not give an integer"@)), s)
            }
        },
        (Err(e), s) => (Err(e), s),
    }
}

/// A comparison of what two pointers point to, by the methods of `Eq` and `Ord`.
#[verifier::opaque]
pub open spec fn compare_by_trait(
    s: State,
    op: BinOp,
    ty: TypeView,
    pa: ValView,
    pb: ValView,
) -> (Result<ValView, ErrorView>, State) {
    match type_key_or_fail_spec(ty) {
        Ok(key) => {
            match op {
                BinOp::Eq => {
                    match operator_fn(s, "Eq"@, "eq"@, key) {
                        Some(f) => call_fitted(s, f, seq![pa, pb]),
                        None => (
                            Err(err("internal: Eq::eq not found for type "@ + type_text(ty))),
                            s,
                        ),
                    }
                },
                BinOp::Neq => {
                    match operator_fn(s, "Eq"@, "ne"@, key) {
                        Some(f) => call_fitted(s, f, seq![pa, pb]),
                        None => (
                            Err(err("internal: Eq::ne not found for type "@ + type_text(ty))),
                            s,
                        ),
                    }
                },
                _ => {
                    match operator_fn(s, "Ord"@, "cmp"@, key) {
                        Some(f) => call_order(s, op, f, pa, pb),
                        None => (
                            Err(err("internal: Ord::cmp not found for type "@ + type_text(ty))),
                            s,
                        ),
                    }
                },
            }
        },
        Err(e) => (Err(e), s),
    }
}

/// A comparison by trait methods: the operands go to memory, widened to one type.
#[verifier::opaque]
pub open spec fn compile_trait_comparison(
    s: State,
    op: BinOp,
    ta: TypeView,
    tb: TypeView,
    a: ValView,
    b: ValView,
) -> (Result<ValView, ErrorView>, State) {
    let ((x, y, ty), s) = promote(s, a, b, ta, tb);
    match lower_type(s.env, ty) {
        Ok(lty) => {
            let (pa, s) = spill(s, lty, x);
            let (pb, s) = spill(s, lty, y);
            compare_by_trait(s, op, ty, pa, pb)
        },
        Err(e) => (Err(e), s),
    }
}

/// The name of an operator.
#[verifier::opaque]
pub open spec fn operator_text_spec(op: BinOp) -> Seq<char> {
    match op {
        BinOp::Add => "Add"@,
        BinOp::Sub => "Sub"@,
        BinOp::Mul => "Mul"@,
        BinOp::Div => "Div"@,
        BinOp::Eq => "Eq"@,
        BinOp::Neq => "Neq"@,
        BinOp::Lt => "Lt"@,
        BinOp::Gt => "Gt"@,
        BinOp::Le => "Le"@,
        BinOp::Ge => "Ge"@,
        BinOp::And => "And"@,
        BinOp::Or => "Or"@,
    }
}

/// The trait and the method of an arithmetic operator.
#[verifier::opaque]
pub open spec fn operator_trait_spec(op: BinOp) -> Result<(Seq<char>, Seq<char>), ErrorView> {
    match op {
        BinOp::Add => Ok(("Add"@, "add"@)),
        BinOp::Sub => Ok(("Sub"@, "sub"@)),
        BinOp::Mul => Ok(("Mul"@, "mul"@)),
        BinOp::Div => Ok(("Div"@, "div"@)),
        _ => Err(err("unsupported arithmetic operator "@ + operator_text_spec(op))),
    }
}

/// An arithmetic operator by a trait method: the operands go to memory, widened to one type.
#[verifier::opaque]
pub open spec fn compile_trait_arithmetic(
    s: State,
    op: BinOp,
    ta: TypeView,
    tb: TypeView,
    a: ValView,
    b: ValView,
) -> (Result<ValView, ErrorView>, State) {
    let ((x, y, ty), s) = promote(s, a, b, ta, tb);
    match lower_type(s.env, ty) {
        Ok(lty) => {
            let (pa, s) = spill(s, lty, x);
            let (pb, s) = spill(s, lty, y);
            match operator_trait_spec(op) {
                Ok((trait_name, method)) => {
                    match type_key_or_fail_spec(ty) {
                        Ok(key) => {
                            match operator_fn(s, trait_name, method, key) {
                                Some(f) => call_fitted(s, f, seq![pa, pb]),
                                None => {
                                    (
                                        Err(
                                            err(
                                                "type '"@ + type_text(ty) + "' does not implement trait '"@ + trait_name + "' (method '"@ + method + "' not found)"@,
                                            ),
                                        ),
                                        s,
                                    )
                                },
                            }
                        },
                        Err(e) => (Err(e), s),
                    }
                },
                Err(e) => (Err(e), s),
            }
        },
        Err(e) => (Err(e), s),
    }
}

/// The machine type of what the function under construction returns, if it returns something;
/// nothing, where it is not declared.
#[verifier::opaque]
pub open spec fn declared_result(s: State) -> Option<Option<LTyView>> {
    match at(s.out.decls, s.out.cur.name) {
        Some(sig) => Some(sig.ret),
        None => None,
    }
}

/// Returns a value, which has to be of the type that is declared.
#[verifier::opaque]
pub open spec fn ret(s: State, v: ValView) -> (Result<(), ErrorView>, State) {
    match declared_result(s) {
        Some(result) => {
            match result {
                Some(t) => {
                    if t == v.ty {
                        let (_, s) = emit_value(s, InstView::Ret(Some(v)), LTyView::Ptr);
                        (Ok(()), s)
                    } else {
                        (
                            Err(
                                err(
                                    "internal: a value of another type than the declared one is returned"@,
                                ),
                            ),
                            s,
                        )
                    }
                },
                None => (Err(err("internal: a value is returned where none is declared"@)), s),
            }
        },
        None => (Err(err("internal: a function that is not declared returns"@)), s),
    }
}

/// Returns without a value, which no value may be declared for.
#[verifier::opaque]
pub open spec fn ret_nothing(s: State) -> (Result<(), ErrorView>, State) {
    match declared_result(s) {
        Some(result) => {
            if result is None {
                let (_, s) = emit_value(s, InstView::Ret(None), LTyView::Ptr);
                (Ok(()), s)
            } else {
                (Err(err("internal: no value is returned where one is declared"@)), s)
            }
        },
        None => (Err(err("internal: a function that is not declared returns"@)), s),
    }
}

/// Marks a place that control never reaches.
#[verifier::opaque]
pub open spec fn unreachable_here(s: State) -> State {
    emit_value(s, InstView::Unreachable, LTyView::Ptr).1
}

/// A jump to one of two blocks.
#[verifier::opaque]
pub open spec fn branch_if(s: State, c: ValView, yes: usize, no: usize) -> State {
    emit_value(s, InstView::CondBr(c, yes, no), LTyView::Ptr).1
}

/// A parameter of the function under construction.
#[verifier::opaque]
pub open spec fn arg_spec(i: usize, ty: LTyView) -> ValView {
    ValView { op: OperandView::Arg(i), ty: ty }
}

/// Declares a function that the compiler provides.
#[verifier::opaque]
pub open spec fn declare_builtin(
    s: State,
    name: Seq<char>,
    params: Seq<LTyView>,
    result: LTyView,
) -> State {
    let s = State { out: OutView { fn_order: s.out.fn_order.push(name), ..s.out }, ..s };
    State {
        out: OutView {
            decls: s.out.decls.insert(
                name,
                (
                    FnSigView {
                        params: params,
                        ret: Some(result),
                        variadic: false,
                        noreturn: false,
                        inlining: Inlining::Free,
                    }
                ),
            ),
            ..s.out
        },
        ..s
    }
}

/// Registers a method of an array type with its types.
#[verifier::opaque]
pub open spec fn slice_fn(
    s: State,
    key: Seq<char>,
    name: Seq<char>,
    mangled: Seq<char>,
    ty: TypeView,
    params: Seq<TypeView>,
) -> State {
    let s = add_method(s, key, name, mangled);
    let s = State {
        env: EnvView { fn_return_types: s.env.fn_return_types.insert(mangled, ty), ..s.env },
        ..s
    };
    State {
        env: EnvView { fn_param_types: s.env.fn_param_types.insert(mangled, params), ..s.env },
        ..s
    }
}

/// The code of the method `len` of an array type.
#[verifier::opaque]
pub open spec fn slice_len_code(
    s: State,
    f: Seq<char>,
    len: usize,
) -> (Result<(), ErrorView>, State) {
    let s = declare_builtin(s, f, seq![LTyView::Ptr], LTyView::Int(64));
    let outer = s.out.cur;
    let s = begin(s, f);
    let (res, s) = ret(s, int_const(64, len as u64));
    let s = finish(s);
    let s = State { out: OutView { cur: outer, ..s.out }, ..s };
    (res, s)
}

/// The method `len` of an array type, where the program does not provide it.
#[verifier::opaque]
pub open spec fn slice_len(
    s: State,
    key: Seq<char>,
    array_ty: TypeView,
    len: usize,
) -> (Result<(), ErrorView>, State) {
    if has_method_named(s.env, key, "len"@) {
        (Ok(()), s)
    } else {
        let f = key + "::len/1"@;
        if !s.out.decls.contains_key(f) {
            match slice_len_code(s, f, len) {
                (Ok(_), s) => {
                    let s = slice_fn(
                        s,
                        key,
                        "len"@,
                        f,
                        TypeView::Usize,
                        seq![(TypeView::Ref { inner: Box::new(array_ty), is_mut: false })],
                    );
                    (Ok(()), s)
                },
                (Err(e), s) => (Err(e), s),
            }
        } else {
            let s = slice_fn(
                s,
                key,
                "len"@,
                f,
                TypeView::Usize,
                seq![(TypeView::Ref { inner: Box::new(array_ty), is_mut: false })],
            );
            (Ok(()), s)
        }
    }
}

/// The code of the method `index` or `index_mut` of an array type.
#[verifier::opaque]
pub open spec fn slice_index_code(
    s: State,
    f: Seq<char>,
    lty: LTyView,
) -> (Result<(), ErrorView>, State) {
    let s = declare_builtin(s, f, seq![LTyView::Ptr, LTyView::Int(64)], LTyView::Ptr);
    let outer = s.out.cur;
    let s = begin(s, f);
    let (p, s) = elem_ptr(
        s,
        lty,
        arg_spec(0, LTyView::Ptr),
        seq![int_const(64, 0), arg_spec(1, LTyView::Int(64))],
    );
    let (res, s) = ret(s, p);
    let s = finish(s);
    let s = State { out: OutView { cur: outer, ..s.out }, ..s };
    (res, s)
}

/// The method `index` or `index_mut` of an array type, where the program does not provide it: the
/// address of an element.
#[verifier::opaque]
pub open spec fn slice_index(
    s: State,
    key: Seq<char>,
    array_ty: TypeView,
    elem: TypeView,
    lty: LTyView,
    name: Seq<char>,
    f: Seq<char>,
    is_mut: bool,
) -> (Result<(), ErrorView>, State) {
    if has_method_named(s.env, key, name) {
        (Ok(()), s)
    } else if !s.out.decls.contains_key(f) {
        match slice_index_code(s, f, lty) {
            (Ok(_), s) => {
                let s = slice_fn(
                    s,
                    key,
                    name,
                    f,
                    (TypeView::Ptr { inner: Box::new(elem), is_mut: is_mut }),
                    seq![
                        (TypeView::Ref { inner: Box::new(array_ty), is_mut: is_mut }),
                        TypeView::Usize,
                    ],
                );
                (Ok(()), s)
            },
            (Err(e), s) => (Err(e), s),
        }
    } else {
        let s = slice_fn(
            s,
            key,
            name,
            f,
            (TypeView::Ptr { inner: Box::new(elem), is_mut: is_mut }),
            seq![(TypeView::Ref { inner: Box::new(array_ty), is_mut: is_mut }), TypeView::Usize],
        );
        (Ok(()), s)
    }
}

/// The code of the method `as_ptr` of an array type.
#[verifier::opaque]
pub open spec fn slice_as_ptr_code(s: State, f: Seq<char>) -> (Result<(), ErrorView>, State) {
    let s = declare_builtin(s, f, seq![LTyView::Ptr], LTyView::Ptr);
    let outer = s.out.cur;
    let s = begin(s, f);
    let (p, s) = cast(s, CastKind::Bit, arg_spec(0, LTyView::Ptr), LTyView::Ptr);
    let (res, s) = ret(s, p);
    let s = finish(s);
    let s = State { out: OutView { cur: outer, ..s.out }, ..s };
    (res, s)
}

/// The method `as_ptr` of an array type, where the program does not provide it.
#[verifier::opaque]
pub open spec fn slice_as_ptr(
    s: State,
    key: Seq<char>,
    array_ty: TypeView,
    elem: TypeView,
) -> (Result<(), ErrorView>, State) {
    if has_method_named(s.env, key, "as_ptr"@) {
        (Ok(()), s)
    } else {
        let f = key + "::as_ptr/1"@;
        if !s.out.decls.contains_key(f) {
            match slice_as_ptr_code(s, f) {
                (Ok(_), s) => {
                    let s = slice_fn(
                        s,
                        key,
                        "as_ptr"@,
                        f,
                        (TypeView::Ptr { inner: Box::new(elem), is_mut: false }),
                        seq![(TypeView::Ref { inner: Box::new(array_ty), is_mut: false })],
                    );
                    (Ok(()), s)
                },
                (Err(e), s) => (Err(e), s),
            }
        } else {
            let s = slice_fn(
                s,
                key,
                "as_ptr"@,
                f,
                (TypeView::Ptr { inner: Box::new(elem), is_mut: false }),
                seq![(TypeView::Ref { inner: Box::new(array_ty), is_mut: false })],
            );
            (Ok(()), s)
        }
    }
}

/// The methods that every array type has, where the program does not provide them.
#[verifier::opaque]
pub open spec fn slice_builtins(
    s: State,
    key: Seq<char>,
    array_ty: TypeView,
    elem: TypeView,
    lty: LTyView,
    len: usize,
) -> (Result<(), ErrorView>, State) {
    match slice_len(s, key, array_ty, len) {
        (Ok(_), s) => {
            match slice_index(
                s,
                key,
                array_ty,
                elem,
                lty,
                "index"@,
                builtin_fn_spec("Index"@, "index"@, key),
                false,
            ) {
                (Ok(_), s) => {
                    match slice_index(
                        s,
                        key,
                        array_ty,
                        elem,
                        lty,
                        "index_mut"@,
                        builtin_fn_spec("IndexMut"@, "index_mut"@, key),
                        true,
                    ) {
                        (Ok(_), s) => slice_as_ptr(s, key, array_ty, elem),
                        (Err(e), s) => (Err(e), s),
                    }
                },
                (Err(e), s) => (Err(e), s),
            }
        },
        (Err(e), s) => (Err(e), s),
    }
}

/// The name of a trait method that the compiler provides.
pub fn builtin_fn(trait_name: &str, method: &str, key: &str) -> (r: String)
    ensures
        r@ == builtin_fn_spec(trait_name@, method@, key@),
{
    proof {
        reveal(builtin_fn_spec);
    }
    cat(&cat3(&cat3("__builtin_", trait_name, "_"), method, "_"), key)
}

/// The name of a trait method that the program provides.
pub fn trait_fn(trait_name: &str, method: &str, key: &str) -> (r: String)
    ensures
        r@ == trait_fn_spec(trait_name@, method@, key@),
{
    proof {
        reveal(trait_fn_spec);
    }
    cat(&cat3(&cat3("__trait_", trait_name, "_"), method, "_"), key)
}

/// The width of an integer type.
pub fn bits_of(ty: &LTy) -> (r: Option<u32>)
    ensures
        r.model() == bits_of_spec(ty@),
{
    proof {
        reveal(bits_of_spec);
    }
    match ty {
        LTy::Int(w) => {
            return Some(*w);
        },
        _ => {
            return None;
        },
    }
}

/// The name that the trait methods of a type are built from.
pub fn type_key_or_fail(ty: &Type) -> (r: Result<String, CodegenError>)
    ensures
        r.model() == type_key_or_fail_spec(ty@),
{
    proof {
        reveal(type_key_or_fail_spec);
    }
    let subject = type_key_of(ty);
    match &subject {
        Some(key) => {
            return Ok(key.clone());
        },
        None => {
            return Err(
                CodegenError::new(
                    cat("internal: unsupported type for trait method: ", &show_type(ty)),
                ),
            );
        },
    }
}

/// The test on the result of `cmp` that an ordering operator makes.
pub fn order_test(op: BinOp) -> (r: IntPred)
    ensures
        r == order_test_spec(op),
{
    proof {
        reveal(order_test_spec);
    }
    match &op {
        BinOp::Lt => {
            return IntPred::Lt;
        },
        BinOp::Gt => {
            return IntPred::Gt;
        },
        BinOp::Le => {
            return IntPred::Le;
        },
        _ => {
            return IntPred::Ge;
        },
    }
}

/// The name of an operator.
pub fn operator_text(op: BinOp) -> (r: String)
    ensures
        r@ == operator_text_spec(op),
{
    proof {
        reveal(operator_text_spec);
    }
    match &op {
        BinOp::Add => {
            return "Add".to_owned();
        },
        BinOp::Sub => {
            return "Sub".to_owned();
        },
        BinOp::Mul => {
            return "Mul".to_owned();
        },
        BinOp::Div => {
            return "Div".to_owned();
        },
        BinOp::Eq => {
            return "Eq".to_owned();
        },
        BinOp::Neq => {
            return "Neq".to_owned();
        },
        BinOp::Lt => {
            return "Lt".to_owned();
        },
        BinOp::Gt => {
            return "Gt".to_owned();
        },
        BinOp::Le => {
            return "Le".to_owned();
        },
        BinOp::Ge => {
            return "Ge".to_owned();
        },
        BinOp::And => {
            return "And".to_owned();
        },
        BinOp::Or => {
            return "Or".to_owned();
        },
    }
}

/// The trait and the method of an arithmetic operator.
pub fn operator_trait(op: BinOp) -> (r: Result<(String, String), CodegenError>)
    ensures
        r.model() == operator_trait_spec(op),
{
    proof {
        reveal(operator_trait_spec);
    }
    match &op {
        BinOp::Add => {
            return Ok(("Add".to_owned(), "add".to_owned()));
        },
        BinOp::Sub => {
            return Ok(("Sub".to_owned(), "sub".to_owned()));
        },
        BinOp::Mul => {
            return Ok(("Mul".to_owned(), "mul".to_owned()));
        },
        BinOp::Div => {
            return Ok(("Div".to_owned(), "div".to_owned()));
        },
        _ => {
            return Err(
                CodegenError::new(cat("unsupported arithmetic operator ", &operator_text(op))),
            );
        },
    }
}

/// A parameter of the function under construction.
pub fn arg(i: usize, ty: &LTy) -> (r: Val)
    ensures
        r@ == arg_spec(i, ty@),
{
    proof {
        reveal(arg_spec);
    }
    Val { op: Operand::Arg(i), ty: ty.clone() }
}

impl Env {
    /// Whether a method of that name is registered for a type.
    pub fn has_method_named(&self, key: &str, name: &str) -> (r: bool)
        ensures
            r == has_method_named(self@, key@, name@),
    {
        proof {
            reveal(has_method_named);
        }
        matches!(&self.find_method(key, name), Some(_))
    }
}

impl CodeGen {
    /// Registers a method of a type under its mangled name.
    pub fn add_method(&mut self, key: &str, name: &str, mangled: &str)
        ensures
            final(self)@ == add_method(old(self)@, key@, name@, mangled@),
            stays(old(self)@, final(self)@),
            settled(old(self)@, final(self)@),
            confined(old(self)@.out.cur, final(self)@.out.cur),
            same_variables(old(self)@, final(self)@),
    {
        proof {
            broadcast use crate::growth::group_growth;

            count_from(old(self)@);
            reveal(add_method);
        }
        let subject = self.env.impl_methods.get_dup(key);
        match &subject {
            Some(known) => {
                let mut more = known.dup();
                let ghost prior = more.model();
                let item = (name.to_owned(), mangled.to_owned());
                more.push(item);
                proof {
                    assert(more.model() =~= prior.push(item.model()));
                }
                let ghost past = self@.env;
                self.env.impl_methods.insert(key.to_owned(), more.dup());
                proof {
                    assert(fields_kept(past, self@.env)) by {
                        reveal(fields_kept);
                    }
                    assert(within(past.impl_methods.dom(), self@.env.impl_methods.dom())) by {
                        reveal(within);
                    }
                }
            },
            None => {
                let mut items: Vec<(String, String)> = Vec::new();
                let item2 = (name.to_owned(), mangled.to_owned());
                items.push(item2);
                proof {
                    assert(items.model() =~= seq![item2.model()]);
                }
                let ghost past2 = self@.env;
                self.env.impl_methods.insert(key.to_owned(), items);
                proof {
                    assert(fields_kept(past2, self@.env)) by {
                        reveal(fields_kept);
                    }
                    assert(within(past2.impl_methods.dom(), self@.env.impl_methods.dom())) by {
                        reveal(within);
                    }
                }
            },
        }
    }

    /// Registers a trait that a type implements.
    pub fn add_trait(&mut self, key: &str, name: &str)
        ensures
            final(self)@ == add_trait(old(self)@, key@, name@),
            stays(old(self)@, final(self)@),
            settled(old(self)@, final(self)@),
            confined(old(self)@.out.cur, final(self)@.out.cur),
            same_variables(old(self)@, final(self)@),
    {
        proof {
            broadcast use crate::growth::group_growth;

            count_from(old(self)@);
            reveal(add_trait);
        }
        let subject = self.env.trait_impls.get_dup(key);
        match &subject {
            Some(known) => {
                let mut more = known.dup();
                more.insert(name.to_owned());
                let ghost past = self@.env;
                self.env.trait_impls.insert(key.to_owned(), more.dup());
                proof {
                    assert(fields_kept(past, self@.env)) by {
                        reveal(fields_kept);
                    }
                }
            },
            None => {
                let mut more = Names::new();
                more.insert(name.to_owned());
                let ghost past2 = self@.env;
                self.env.trait_impls.insert(key.to_owned(), more.dup());
                proof {
                    assert(fields_kept(past2, self@.env)) by {
                        reveal(fields_kept);
                    }
                }
            },
        }
    }

    /// The declared function that carries out a trait method on a type.
    pub fn operator_fn(&self, trait_name: &str, method: &str, key: &str) -> (r: Option<String>)
        ensures
            r.model() == operator_fn(self@, trait_name@, method@, key@),
    {
        proof {
            reveal(operator_fn);
        }
        let a = builtin_fn(trait_name, method, key);
        if self.out.decls.contains_key(&a) {
            return Some(a.clone());
        }
        let b = trait_fn(trait_name, method, key);
        if self.out.decls.contains_key(&b) {
            return Some(b.clone());
        }
        if self.env.check_type_implements_trait(&Type::Struct(key.to_owned()), trait_name) {
            return self.declared_method(key, method);
        }
        None
    }

    /// The declared function that a method of a type is registered under; the methods of an
    /// instance are found this way.
    pub fn declared_method(&self, key: &str, method: &str) -> (r: Option<String>)
        ensures
            r.model() == declared_method(self@, key@, method@),
    {
        proof {
            reveal(declared_method);
        }
        let subject = self.env.find_method(key, method);
        match &subject {
            Some(f) => {
                if self.out.decls.contains_key(f) {
                    return Some(f.clone());
                }
                return None;
            },
            None => {
                return None;
            },
        }
    }

    /// Two operands with the narrower integer widened to the other one, and the type they have.
    pub fn promote(&mut self, a: &Val, b: &Val, ta: &Type, tb: &Type) -> (r: (Val, Val, Type))
        ensures
            (r.model(), final(self)@) == promote(old(self)@, a@, b@, ta@, tb@),
            stays(old(self)@, final(self)@),
            settled(old(self)@, final(self)@),
            confined(old(self)@.out.cur, final(self)@.out.cur),
            same_variables(old(self)@, final(self)@),
    {
        proof {
            broadcast use crate::growth::group_growth;

            count_from(old(self)@);
            reveal(promote);
        }
        let subject = bits_of(&a.ty);
        match &subject {
            Some(wa) => {
                let subject2 = bits_of(&b.ty);
                match &subject2 {
                    Some(wb) => {
                        if *wa > *wb {
                            let c = self.cast(CastKind::ZeroExt, b, &a.ty);
                            return (a.clone(), c.clone(), ta.clone());
                        }
                        if *wb > *wa {
                            let c = self.cast(CastKind::ZeroExt, a, &b.ty);
                            return (c.clone(), b.clone(), tb.clone());
                        }
                        return (a.clone(), b.clone(), ta.clone());
                    },
                    None => {
                        return (a.clone(), b.clone(), ta.clone());
                    },
                }
            },
            None => {
                return (a.clone(), b.clone(), ta.clone());
            },
        }
    }

    /// An ordering operator by a call of `cmp`.
    pub fn call_order(
        &mut self,
        op: BinOp,
        f: &str,
        pa: &Val,
        pb: &Val,
    ) -> (r: Result<Val, CodegenError>)
        ensures
            (r.model(), final(self)@) == call_order(old(self)@, op, f@, pa@, pb@),
            stays(old(self)@, final(self)@),
            r is Ok ==> settled(old(self)@, final(self)@),
            r is Ok ==> confined(old(self)@.out.cur, final(self)@.out.cur),
            r is Ok ==> same_variables(old(self)@, final(self)@),
    {
        proof {
            broadcast use crate::growth::group_growth;

            count_from(old(self)@);
            reveal(call_order);
        }
        let mut items: Vec<Val> = Vec::new();
        let item = pa.clone();
        items.push(item);
        let item2 = pb.clone();
        items.push(item2);
        proof {
            assert(val_seq_view(items@) =~= seq![item@, item2@]);
        }
        let c = match self.call_fitted(f, &items) {
            Ok(v) => v,
            Err(e) => {
                return Err(e);
            },
        };
        if matches!(&c.ty, LTy::Int { .. }) {
            let got3 = self.int_test(order_test(op), &c, &mk_int(32, 0));
            return Ok(got3);
        }
        Err(CodegenError::new("internal: cmp does not give an integer".to_owned()))
    }

    /// A comparison of what two pointers point to, by the methods of `Eq` and `Ord`.
    pub fn compare_by_trait(
        &mut self,
        op: BinOp,
        ty: &Type,
        pa: &Val,
        pb: &Val,
    ) -> (r: Result<Val, CodegenError>)
        ensures
            (r.model(), final(self)@) == compare_by_trait(old(self)@, op, ty@, pa@, pb@),
            stays(old(self)@, final(self)@),
            r is Ok ==> settled(old(self)@, final(self)@),
            r is Ok ==> confined(old(self)@.out.cur, final(self)@.out.cur),
            r is Ok ==> same_variables(old(self)@, final(self)@),
    {
        proof {
            broadcast use crate::growth::group_growth;

            count_from(old(self)@);
            reveal(compare_by_trait);
        }
        let key = match type_key_or_fail(ty) {
            Ok(v) => v,
            Err(e) => {
                return Err(e);
            },
        };
        match &op {
            BinOp::Eq => {
                let subject = self.operator_fn("Eq", "eq", &key);
                match &subject {
                    Some(f) => {
                        let mut items: Vec<Val> = Vec::new();
                        let item = pa.clone();
                        items.push(item);
                        let item2 = pb.clone();
                        items.push(item2);
                        proof {
                            assert(val_seq_view(items@) =~= seq![item@, item2@]);
                        }
                        return self.call_fitted(f, &items);
                    },
                    None => {
                        return Err(
                            CodegenError::new(
                                cat("internal: Eq::eq not found for type ", &show_type(ty)),
                            ),
                        );
                    },
                }
            },
            BinOp::Neq => {
                let subject2 = self.operator_fn("Eq", "ne", &key);
                match &subject2 {
                    Some(f) => {
                        let mut items2: Vec<Val> = Vec::new();
                        let item3 = pa.clone();
                        items2.push(item3);
                        let item4 = pb.clone();
                        items2.push(item4);
                        proof {
                            assert(val_seq_view(items2@) =~= seq![item3@, item4@]);
                        }
                        return self.call_fitted(f, &items2);
                    },
                    None => {
                        return Err(
                            CodegenError::new(
                                cat("internal: Eq::ne not found for type ", &show_type(ty)),
                            ),
                        );
                    },
                }
            },
            _ => {
                let subject3 = self.operator_fn("Ord", "cmp", &key);
                match &subject3 {
                    Some(f) => {
                        return self.call_order(op, f, pa, pb);
                    },
                    None => {
                        return Err(
                            CodegenError::new(
                                cat("internal: Ord::cmp not found for type ", &show_type(ty)),
                            ),
                        );
                    },
                }
            },
        }
    }

    /// A comparison by trait methods: the operands go to memory, widened to one type.
    pub fn compile_trait_comparison(
        &mut self,
        op: BinOp,
        ta: &Type,
        tb: &Type,
        a: &Val,
        b: &Val,
    ) -> (r: Result<Val, CodegenError>)
        ensures
            (r.model(), final(self)@) == compile_trait_comparison(old(self)@, op, ta@, tb@, a@, b@),
            stays(old(self)@, final(self)@),
            r is Ok ==> settled(old(self)@, final(self)@),
            r is Ok ==> confined(old(self)@.out.cur, final(self)@.out.cur),
            r is Ok ==> same_variables(old(self)@, final(self)@),
    {
        proof {
            broadcast use crate::growth::group_growth;

            count_from(old(self)@);
            reveal(compile_trait_comparison);
        }
        let (x, y, ty) = self.promote(a, b, ta, tb);
        let lty = match self.env.type_to_llvm(&ty) {
            Ok(v) => v,
            Err(e) => {
                return Err(e);
            },
        };
        let pa = self.spill(&lty, &x);
        let pb = self.spill(&lty, &y);
        self.compare_by_trait(op, &ty, &pa, &pb)
    }

    /// An arithmetic operator by a trait method: the operands go to memory, widened to one type.
    pub fn compile_trait_arithmetic(
        &mut self,
        op: BinOp,
        ta: &Type,
        tb: &Type,
        a: &Val,
        b: &Val,
    ) -> (r: Result<Val, CodegenError>)
        ensures
            (r.model(), final(self)@) == compile_trait_arithmetic(old(self)@, op, ta@, tb@, a@, b@),
            stays(old(self)@, final(self)@),
            r is Ok ==> settled(old(self)@, final(self)@),
            r is Ok ==> confined(old(self)@.out.cur, final(self)@.out.cur),
            r is Ok ==> same_variables(old(self)@, final(self)@),
    {
        proof {
            broadcast use crate::growth::group_growth;

            count_from(old(self)@);
            reveal(compile_trait_arithmetic);
        }
        let (x, y, ty) = self.promote(a, b, ta, tb);
        let lty = match self.env.type_to_llvm(&ty) {
            Ok(v) => v,
            Err(e) => {
                return Err(e);
            },
        };
        let pa = self.spill(&lty, &x);
        let pb = self.spill(&lty, &y);
        let (trait_name, method) = match operator_trait(op) {
            Ok(v) => v,
            Err(e) => {
                return Err(e);
            },
        };
        let key = match type_key_or_fail(&ty) {
            Ok(v) => v,
            Err(e) => {
                return Err(e);
            },
        };
        let subject = self.operator_fn(&trait_name, &method, &key);
        match &subject {
            Some(f) => {
                let mut items: Vec<Val> = Vec::new();
                let item = pa.clone();
                items.push(item);
                let item2 = pb.clone();
                items.push(item2);
                proof {
                    assert(val_seq_view(items@) =~= seq![item@, item2@]);
                }
                return self.call_fitted(f, &items);
            },
            None => {
                return Err(
                    CodegenError::new(
                        cat3(
                            &cat3(
                                &cat3("type '", &show_type(&ty), "' does not implement trait '"),
                                &trait_name,
                                "' (method '",
                            ),
                            &method,
                            "' not found)",
                        ),
                    ),
                );
            },
        }
    }

    /// The machine type of what the function under construction returns, if it returns something;
    /// nothing, where it is not declared.
    pub fn declared_result(&self) -> (r: Option<Option<LTy>>)
        ensures
            r.model() == declared_result(self@),
    {
        proof {
            reveal(declared_result);
        }
        let subject = self.out.decls.get_dup(&self.out.cur.name);
        match &subject {
            Some(sig) => {
                return Some(sig.ret.dup());
            },
            None => {
                return None;
            },
        }
    }

    /// Returns a value, which has to be of the type that is declared.
    pub fn ret(&mut self, v: &Val) -> (r: Result<(), CodegenError>)
        ensures
            (r.model(), final(self)@) == ret(old(self)@, v@),
            stays(old(self)@, final(self)@),
            r is Ok ==> settled(old(self)@, final(self)@),
            r is Ok ==> confined(old(self)@.out.cur, final(self)@.out.cur),
            r is Ok ==> same_variables(old(self)@, final(self)@),
    {
        proof {
            broadcast use crate::growth::group_growth;

            count_from(old(self)@);
            reveal(declared_result);
            reveal(ret);
        }
        let subject = self.declared_result();
        match &subject {
            Some(result) => {
                match result {
                    Some(t) => {
                        if same_lty(t, &v.ty) {
                            let _ = self.emit_value(Inst::Ret(Some(v.clone())), LTy::Ptr);
                            return Ok(());
                        }
                        return Err(
                            CodegenError::new(
                                "internal: a value of another type than the declared one is returned".to_owned(),
                            ),
                        );
                    },
                    None => {
                        return Err(
                            CodegenError::new(
                                "internal: a value is returned where none is declared".to_owned(),
                            ),
                        );
                    },
                }
            },
            None => {
                return Err(
                    CodegenError::new(
                        "internal: a function that is not declared returns".to_owned(),
                    ),
                );
            },
        }
    }

    /// Returns without a value, which no value may be declared for.
    pub fn ret_nothing(&mut self) -> (r: Result<(), CodegenError>)
        ensures
            (r.model(), final(self)@) == ret_nothing(old(self)@),
            stays(old(self)@, final(self)@),
            r is Ok ==> settled(old(self)@, final(self)@),
            r is Ok ==> confined(old(self)@.out.cur, final(self)@.out.cur),
            r is Ok ==> same_variables(old(self)@, final(self)@),
    {
        proof {
            broadcast use crate::growth::group_growth;

            count_from(old(self)@);
            reveal(declared_result);
            reveal(ret_nothing);
        }
        let subject = self.declared_result();
        match &subject {
            Some(result) => {
                if matches!(result, None) {
                    let _ = self.emit_value(Inst::Ret(None), LTy::Ptr);
                    return Ok(());
                }
                return Err(
                    CodegenError::new(
                        "internal: no value is returned where one is declared".to_owned(),
                    ),
                );
            },
            None => {
                return Err(
                    CodegenError::new(
                        "internal: a function that is not declared returns".to_owned(),
                    ),
                );
            },
        }
    }

    /// Marks a place that control never reaches.
    pub fn unreachable_here(&mut self)
        ensures
            final(self)@ == unreachable_here(old(self)@),
            stays(old(self)@, final(self)@),
            settled(old(self)@, final(self)@),
            confined(old(self)@.out.cur, final(self)@.out.cur),
            same_variables(old(self)@, final(self)@),
    {
        proof {
            broadcast use crate::growth::group_growth;

            count_from(old(self)@);
            reveal(unreachable_here);
        }
        let _ = self.emit_value(Inst::Unreachable, LTy::Ptr);
    }

    /// A jump to one of two blocks.
    pub fn branch_if(&mut self, c: &Val, yes: usize, no: usize)
        ensures
            final(self)@ == branch_if(old(self)@, c@, yes, no),
            stays(old(self)@, final(self)@),
            settled(old(self)@, final(self)@),
            confined(old(self)@.out.cur, final(self)@.out.cur),
            same_variables(old(self)@, final(self)@),
    {
        proof {
            broadcast use crate::growth::group_growth;

            count_from(old(self)@);
            reveal(branch_if);
        }
        let _ = self.emit_value(Inst::CondBr(c.clone(), yes, no), LTy::Ptr);
    }

    /// Declares a function that the compiler provides.
    pub fn declare_builtin(&mut self, name: &str, params: &Vec<LTy>, result: &LTy)
        requires
            !old(self)@.out.decls.contains_key(name@),
        ensures
            final(self)@ == declare_builtin(old(self)@, name@, l_ty_seq_view(params@), result@),
            stays(old(self)@, final(self)@),
            settled(old(self)@, final(self)@),
            confined(old(self)@.out.cur, final(self)@.out.cur),
            same_variables(old(self)@, final(self)@),
            final(self)@.out.cur == old(self)@.out.cur,
            final(self)@.out.decls.contains_key(name@),
    {
        proof {
            broadcast use crate::growth::group_growth;

            count_from(old(self)@);
            reveal(declare_builtin);
        }
        let ghost prior = texts(self.out.fn_order@);
        let item = name.to_owned();
        let ghost past = self@.out;
        self.out.fn_order.push(item);
        proof {
            assert(grown(past, self@.out)) by {
                reveal(grown);
            }
            lemma_returned_more(past, self@.out);
        }
        proof {
            assert(texts(self.out.fn_order@) =~= prior.push(item@));
        }
        let ghost past2 = self@.out;
        self.out.decls.insert(
            name.to_owned(),
            FnSig {
                params: dup_l_ty_seq(params),
                ret: Some(result.clone()),
                variadic: false,
                noreturn: false,
                inlining: Inlining::Free,
            },
        );
        proof {
            assert(grown(past2, self@.out)) by {
                reveal(grown);
            }
            lemma_returned_more(past2, self@.out);
        }
        proof {
            if well_listed(old(self)@) {
                lemma_listed_push(old(self)@.out.fn_order, old(self)@.out.decls.dom(), name@);
                reveal(within);
            }
        }
    }

    /// Registers a method of an array type with its types.
    pub fn slice_fn(&mut self, key: &str, name: &str, mangled: &str, ty: &Type, params: &Vec<Type>)
        ensures
            final(self)@ == slice_fn(
                old(self)@,
                key@,
                name@,
                mangled@,
                ty@,
                type_seq_view(params@),
            ),
            stays(old(self)@, final(self)@),
            settled(old(self)@, final(self)@),
            confined(old(self)@.out.cur, final(self)@.out.cur),
            same_variables(old(self)@, final(self)@),
    {
        proof {
            broadcast use crate::growth::group_growth;

            count_from(old(self)@);
            reveal(slice_fn);
        }
        self.add_method(key, name, mangled);
        let ghost past = self@.env;
        self.env.fn_return_types.insert(mangled.to_owned(), ty.clone());
        proof {
            assert(fields_kept(past, self@.env)) by {
                reveal(fields_kept);
            }
        }
        let ghost past2 = self@.env;
        self.env.fn_param_types.insert(mangled.to_owned(), dup_type_seq(params));
        proof {
            assert(fields_kept(past2, self@.env)) by {
                reveal(fields_kept);
            }
        }
    }

    /// The code of the method `len` of an array type.
    pub fn slice_len_code(&mut self, f: &str, len: usize) -> (r: Result<(), CodegenError>)
        requires
            !old(self)@.out.decls.contains_key(f@),
        ensures
            (r.model(), final(self)@) == slice_len_code(old(self)@, f@, len),
            stays(old(self)@, final(self)@),
            r is Ok ==> settled(old(self)@, final(self)@),
            r is Ok ==> confined(old(self)@.out.cur, final(self)@.out.cur),
            r is Ok ==> same_variables(old(self)@, final(self)@),
    {
        proof {
            broadcast use crate::growth::group_growth;

            count_from(old(self)@);
            reveal(extended);
            reveal(confined_to);
            reveal(slice_len_code);
        }
        let mut items: Vec<LTy> = Vec::new();
        let item = LTy::Ptr;
        items.push(item);
        proof {
            assert(l_ty_seq_view(items@) =~= seq![item@]);
        }
        self.declare_builtin(f, &items, &LTy::Int(64));
        let outer = self.out.cur.dup();
        self.begin(f);
        proof {
            count_from(self@);
        }
        let res = self.ret(&mk_int(64, len as u64));
        proof {
            assert(self@.out.decls.contains_key(self@.out.cur.name)) by {
                reveal(grown);
            }
        }
        self.finish();
        let ghost past = self@.out;
        self.out.cur = outer.dup();
        proof {
            assert(grown(past, self@.out)) by {
                reveal(grown);
            }
            lemma_returned_back(old(self)@.out, past, self@.out);
        }
        res
    }

    /// The method `len` of an array type, where the program does not provide it.
    pub fn slice_len(
        &mut self,
        key: &str,
        array_ty: &Type,
        len: usize,
    ) -> (r: Result<(), CodegenError>)
        ensures
            (r.model(), final(self)@) == slice_len(old(self)@, key@, array_ty@, len),
            stays(old(self)@, final(self)@),
            r is Ok ==> settled(old(self)@, final(self)@),
            r is Ok ==> confined(old(self)@.out.cur, final(self)@.out.cur),
            r is Ok ==> same_variables(old(self)@, final(self)@),
    {
        proof {
            broadcast use crate::growth::group_growth;

            count_from(old(self)@);
            reveal(slice_len);
        }
        if self.env.has_method_named(key, "len") {
            return Ok(());
        }
        let f = cat(key, "::len/1");
        if !self.out.decls.contains_key(&f) {
            match self.slice_len_code(&f, len) {
                Ok(_) => {},
                Err(e) => {
                    return Err(e);
                },
            }
        }
        let mut items: Vec<Type> = Vec::new();
        let item = Type::Ref { inner: Box::new(array_ty.clone()), is_mut: false };
        items.push(item);
        proof {
            assert(type_seq_view(items@) =~= seq![item@]);
        }
        self.slice_fn(key, "len", &f, &Type::Usize, &items);
        Ok(())
    }

    /// The code of the method `index` or `index_mut` of an array type.
    pub fn slice_index_code(&mut self, f: &str, lty: &LTy) -> (r: Result<(), CodegenError>)
        requires
            !old(self)@.out.decls.contains_key(f@),
        ensures
            (r.model(), final(self)@) == slice_index_code(old(self)@, f@, lty@),
            stays(old(self)@, final(self)@),
            r is Ok ==> settled(old(self)@, final(self)@),
            r is Ok ==> confined(old(self)@.out.cur, final(self)@.out.cur),
            r is Ok ==> same_variables(old(self)@, final(self)@),
    {
        proof {
            broadcast use crate::growth::group_growth;

            count_from(old(self)@);
            reveal(extended);
            reveal(confined_to);
            reveal(slice_index_code);
        }
        let mut items: Vec<LTy> = Vec::new();
        let item = LTy::Ptr;
        items.push(item);
        let item2 = LTy::Int(64);
        items.push(item2);
        proof {
            assert(l_ty_seq_view(items@) =~= seq![item@, item2@]);
        }
        self.declare_builtin(f, &items, &LTy::Ptr);
        let outer = self.out.cur.dup();
        self.begin(f);
        proof {
            count_from(self@);
        }
        let mut items2: Vec<Val> = Vec::new();
        let item3 = mk_int(64, 0);
        items2.push(item3);
        let item4 = arg(1, &LTy::Int(64));
        items2.push(item4);
        proof {
            assert(val_seq_view(items2@) =~= seq![item3@, item4@]);
        }
        let p = self.elem_ptr(lty, &arg(0, &LTy::Ptr), items2);
        let res = self.ret(&p);
        proof {
            assert(self@.out.decls.contains_key(self@.out.cur.name)) by {
                reveal(grown);
            }
        }
        self.finish();
        let ghost past = self@.out;
        self.out.cur = outer.dup();
        proof {
            assert(grown(past, self@.out)) by {
                reveal(grown);
            }
            lemma_returned_back(old(self)@.out, past, self@.out);
        }
        res
    }

    /// The method `index` or `index_mut` of an array type, where the program does not provide it:
    /// the address of an element.
    pub fn slice_index(
        &mut self,
        key: &str,
        array_ty: &Type,
        elem: &Type,
        lty: &LTy,
        name: &str,
        f: &str,
        is_mut: bool,
    ) -> (r: Result<(), CodegenError>)
        ensures
            (r.model(), final(self)@) == slice_index(
                old(self)@,
                key@,
                array_ty@,
                elem@,
                lty@,
                name@,
                f@,
                is_mut,
            ),
            stays(old(self)@, final(self)@),
            r is Ok ==> settled(old(self)@, final(self)@),
            r is Ok ==> confined(old(self)@.out.cur, final(self)@.out.cur),
            r is Ok ==> same_variables(old(self)@, final(self)@),
    {
        proof {
            broadcast use crate::growth::group_growth;

            count_from(old(self)@);
            reveal(slice_index);
        }
        if self.env.has_method_named(key, name) {
            return Ok(());
        }
        if !self.out.decls.contains_key(f) {
            match self.slice_index_code(f, lty) {
                Ok(_) => {},
                Err(e) => {
                    return Err(e);
                },
            }
        }
        let mut items: Vec<Type> = Vec::new();
        let item = Type::Ref { inner: Box::new(array_ty.clone()), is_mut: is_mut };
        items.push(item);
        let item2 = Type::Usize;
        items.push(item2);
        proof {
            assert(type_seq_view(items@) =~= seq![item@, item2@]);
        }
        self.slice_fn(
            key,
            name,
            f,
            &Type::Ptr { inner: Box::new(elem.clone()), is_mut: is_mut },
            &items,
        );
        Ok(())
    }

    /// The code of the method `as_ptr` of an array type.
    pub fn slice_as_ptr_code(&mut self, f: &str) -> (r: Result<(), CodegenError>)
        requires
            !old(self)@.out.decls.contains_key(f@),
        ensures
            (r.model(), final(self)@) == slice_as_ptr_code(old(self)@, f@),
            stays(old(self)@, final(self)@),
            r is Ok ==> settled(old(self)@, final(self)@),
            r is Ok ==> confined(old(self)@.out.cur, final(self)@.out.cur),
            r is Ok ==> same_variables(old(self)@, final(self)@),
    {
        proof {
            broadcast use crate::growth::group_growth;

            count_from(old(self)@);
            reveal(extended);
            reveal(confined_to);
            reveal(slice_as_ptr_code);
        }
        let mut items: Vec<LTy> = Vec::new();
        let item = LTy::Ptr;
        items.push(item);
        proof {
            assert(l_ty_seq_view(items@) =~= seq![item@]);
        }
        self.declare_builtin(f, &items, &LTy::Ptr);
        let outer = self.out.cur.dup();
        self.begin(f);
        proof {
            count_from(self@);
        }
        let p = self.cast(CastKind::Bit, &arg(0, &LTy::Ptr), &LTy::Ptr);
        let res = self.ret(&p);
        proof {
            assert(self@.out.decls.contains_key(self@.out.cur.name)) by {
                reveal(grown);
            }
        }
        self.finish();
        let ghost past = self@.out;
        self.out.cur = outer.dup();
        proof {
            assert(grown(past, self@.out)) by {
                reveal(grown);
            }
            lemma_returned_back(old(self)@.out, past, self@.out);
        }
        res
    }

    /// The method `as_ptr` of an array type, where the program does not provide it.
    pub fn slice_as_ptr(
        &mut self,
        key: &str,
        array_ty: &Type,
        elem: &Type,
    ) -> (r: Result<(), CodegenError>)
        ensures
            (r.model(), final(self)@) == slice_as_ptr(old(self)@, key@, array_ty@, elem@),
            stays(old(self)@, final(self)@),
            r is Ok ==> settled(old(self)@, final(self)@),
            r is Ok ==> confined(old(self)@.out.cur, final(self)@.out.cur),
            r is Ok ==> same_variables(old(self)@, final(self)@),
    {
        proof {
            broadcast use crate::growth::group_growth;

            count_from(old(self)@);
            reveal(slice_as_ptr);
        }
        if self.env.has_method_named(key, "as_ptr") {
            return Ok(());
        }
        let f = cat(key, "::as_ptr/1");
        if !self.out.decls.contains_key(&f) {
            match self.slice_as_ptr_code(&f) {
                Ok(_) => {},
                Err(e) => {
                    return Err(e);
                },
            }
        }
        let mut items: Vec<Type> = Vec::new();
        let item = Type::Ref { inner: Box::new(array_ty.clone()), is_mut: false };
        items.push(item);
        proof {
            assert(type_seq_view(items@) =~= seq![item@]);
        }
        self.slice_fn(
            key,
            "as_ptr",
            &f,
            &Type::Ptr { inner: Box::new(elem.clone()), is_mut: false },
            &items,
        );
        Ok(())
    }

    /// The methods that every array type has, where the program does not provide them.
    pub fn slice_builtins(
        &mut self,
        key: &str,
        array_ty: &Type,
        elem: &Type,
        lty: &LTy,
        len: usize,
    ) -> (r: Result<(), CodegenError>)
        ensures
            (r.model(), final(self)@) == slice_builtins(
                old(self)@,
                key@,
                array_ty@,
                elem@,
                lty@,
                len,
            ),
            stays(old(self)@, final(self)@),
            r is Ok ==> settled(old(self)@, final(self)@),
            r is Ok ==> confined(old(self)@.out.cur, final(self)@.out.cur),
            r is Ok ==> same_variables(old(self)@, final(self)@),
    {
        proof {
            broadcast use crate::growth::group_growth;

            count_from(old(self)@);
            reveal(slice_builtins);
        }
        match self.slice_len(key, array_ty, len) {
            Ok(_) => {},
            Err(e) => {
                return Err(e);
            },
        }
        match self.slice_index(
            key,
            array_ty,
            elem,
            lty,
            "index",
            &builtin_fn("Index", "index", key),
            false,
        ) {
            Ok(_) => {},
            Err(e) => {
                return Err(e);
            },
        }
        match self.slice_index(
            key,
            array_ty,
            elem,
            lty,
            "index_mut",
            &builtin_fn("IndexMut", "index_mut", key),
            true,
        ) {
            Ok(_) => {},
            Err(e) => {
                return Err(e);
            },
        }
        self.slice_as_ptr(key, array_ty, elem)
    }
}

} // verus!
