//! Trait methods of the primitive types.
use crate::ast::{BinOp, Type};
use crate::builder::{begin, binary, cast, finish, float_test, int_test, invert, load};
use crate::growth::{
    confined, count_from, fields_kept, grown, keeps, same_variables, settled, stays,
};
use crate::ir::{BinKind, CastKind, FloatPred, IntPred, LTy, LTyView, Val, ValView, l_ty_seq_view};
use crate::model::{TypeView, type_seq_view, type_view};
use crate::operators::{
    add_method, arg, arg_spec, builtin_fn, builtin_fn_spec, declare_builtin, ret, type_key_or_fail,
    type_key_or_fail_spec,
};
use crate::places::{zero_of, zero_of_spec};
use crate::query::lower_type;
use crate::state::{CodeGen, CodegenError, EnvView, ErrorView, State};
use crate::table::{Model, Names};
use crate::types::{floating, is_float, is_signed, signed};
use vstd::prelude::*;

verus! {

broadcast use crate::lists::group_list_views;

/// The parameters of a method on two values.
#[verifier::opaque]
pub open spec fn two_pointers_spec() -> Seq<LTyView> {
    seq![LTyView::Ptr, LTyView::Ptr]
}

/// The values that the two parameters of a method point to.
#[verifier::opaque]
pub open spec fn load_pair(s: State, lty: LTyView) -> ((ValView, ValView), State) {
    let (a, s) = load(s, lty, arg_spec(0, LTyView::Ptr));
    let (b, s) = load(s, lty, arg_spec(1, LTyView::Ptr));
    ((a, b), s)
}

/// The code of `Default::default` of a primitive type: zero.
#[verifier::opaque]
pub open spec fn primitive_default_code(
    s: State,
    f: Seq<char>,
    lty: LTyView,
) -> (Result<(), ErrorView>, State) {
    let s = declare_builtin(s, f, Seq::<LTyView>::empty(), lty);
    let s = begin(s, f);
    let (res, s) = ret(s, zero_of_spec(lty));
    let s = finish(s);
    (res, s)
}

/// `Default::default` of a primitive type: zero.
#[verifier::opaque]
pub open spec fn primitive_default(
    s: State,
    key: Seq<char>,
    lty: LTyView,
) -> (Result<(), ErrorView>, State) {
    let f = builtin_fn_spec("Default"@, "default"@, key);
    if !s.out.decls.contains_key(f) {
        match primitive_default_code(s, f, lty) {
            (Ok(_), s) => {
                let s = add_method(s, key, "default"@, f);
                (Ok(()), s)
            },
            (Err(e), s) => (Err(e), s),
        }
    } else {
        let s = add_method(s, key, "default"@, f);
        (Ok(()), s)
    }
}

/// The code of `Clone::clone` of a primitive type: the value itself.
#[verifier::opaque]
pub open spec fn primitive_clone_code(
    s: State,
    f: Seq<char>,
    lty: LTyView,
) -> (Result<(), ErrorView>, State) {
    let s = declare_builtin(s, f, seq![LTyView::Ptr], lty);
    let s = begin(s, f);
    let (v, s) = load(s, lty, arg_spec(0, LTyView::Ptr));
    let (res, s) = ret(s, v);
    let s = finish(s);
    (res, s)
}

/// `Clone::clone` of a primitive type: the value itself.
#[verifier::opaque]
pub open spec fn primitive_clone(
    s: State,
    key: Seq<char>,
    lty: LTyView,
) -> (Result<(), ErrorView>, State) {
    let f = builtin_fn_spec("Clone"@, "clone"@, key);
    if !s.out.decls.contains_key(f) {
        match primitive_clone_code(s, f, lty) {
            (Ok(_), s) => {
                let s = add_method(s, key, "clone"@, f);
                (Ok(()), s)
            },
            (Err(e), s) => (Err(e), s),
        }
    } else {
        let s = add_method(s, key, "clone"@, f);
        (Ok(()), s)
    }
}

/// Whether two numbers are equal.
#[verifier::opaque]
pub open spec fn equal_values(s: State, is_fp: bool, a: ValView, b: ValView) -> (ValView, State) {
    if is_fp {
        float_test(s, FloatPred::Eq, a, b)
    } else {
        int_test(s, IntPred::Eq, a, b)
    }
}

/// The code of `Eq::eq` of a primitive type.
#[verifier::opaque]
pub open spec fn primitive_eq_code(
    s: State,
    f: Seq<char>,
    lty: LTyView,
    is_fp: bool,
) -> (Result<(), ErrorView>, State) {
    let s = declare_builtin(s, f, two_pointers_spec(), LTyView::Int(1));
    let s = begin(s, f);
    let ((a, b), s) = load_pair(s, lty);
    let (c, s) = equal_values(s, is_fp, a, b);
    let (res, s) = ret(s, c);
    let s = finish(s);
    (res, s)
}

/// `Eq::eq` of a primitive type.
#[verifier::opaque]
pub open spec fn primitive_eq(
    s: State,
    key: Seq<char>,
    lty: LTyView,
    is_fp: bool,
) -> (Result<(), ErrorView>, State) {
    let f = builtin_fn_spec("Eq"@, "eq"@, key);
    if !s.out.decls.contains_key(f) {
        match primitive_eq_code(s, f, lty, is_fp) {
            (Ok(_), s) => {
                let s = add_method(s, key, "eq"@, f);
                (Ok(()), s)
            },
            (Err(e), s) => (Err(e), s),
        }
    } else {
        let s = add_method(s, key, "eq"@, f);
        (Ok(()), s)
    }
}

/// The code of `Eq::ne` of a primitive type.
#[verifier::opaque]
pub open spec fn primitive_ne_code(
    s: State,
    f: Seq<char>,
    lty: LTyView,
    is_fp: bool,
) -> (Result<(), ErrorView>, State) {
    let s = declare_builtin(s, f, two_pointers_spec(), LTyView::Int(1));
    let s = begin(s, f);
    let ((a, b), s) = load_pair(s, lty);
    let (c, s) = equal_values(s, is_fp, a, b);
    let (d, s) = invert(s, c);
    let (res, s) = ret(s, d);
    let s = finish(s);
    (res, s)
}

/// `Eq::ne` of a primitive type.
#[verifier::opaque]
pub open spec fn primitive_ne(
    s: State,
    key: Seq<char>,
    lty: LTyView,
    is_fp: bool,
) -> (Result<(), ErrorView>, State) {
    let f = builtin_fn_spec("Eq"@, "ne"@, key);
    if !s.out.decls.contains_key(f) {
        match primitive_ne_code(s, f, lty, is_fp) {
            (Ok(_), s) => {
                let s = add_method(s, key, "ne"@, f);
                (Ok(()), s)
            },
            (Err(e), s) => (Err(e), s),
        }
    } else {
        let s = add_method(s, key, "ne"@, f);
        (Ok(()), s)
    }
}

/// Whether a number is greater than another one.
#[verifier::opaque]
pub open spec fn greater_value(
    s: State,
    is_fp: bool,
    with_sign: bool,
    a: ValView,
    b: ValView,
) -> (ValView, State) {
    if is_fp {
        float_test(s, FloatPred::Gt, a, b)
    } else if with_sign {
        int_test(s, IntPred::Gt, a, b)
    } else {
        int_test(s, IntPred::UnsignedGt, a, b)
    }
}

/// Whether a number is less than another one.
#[verifier::opaque]
pub open spec fn less_value(
    s: State,
    is_fp: bool,
    with_sign: bool,
    a: ValView,
    b: ValView,
) -> (ValView, State) {
    if is_fp {
        float_test(s, FloatPred::Lt, a, b)
    } else if with_sign {
        int_test(s, IntPred::Lt, a, b)
    } else {
        int_test(s, IntPred::UnsignedLt, a, b)
    }
}

/// The code of `Ord::cmp` of a primitive type: one, zero or minus one, the sign of what the first
/// is more than the second as values of that type.
#[verifier::opaque]
pub open spec fn primitive_ord_code(
    s: State,
    f: Seq<char>,
    lty: LTyView,
    is_fp: bool,
    with_sign: bool,
) -> (Result<(), ErrorView>, State) {
    let s = declare_builtin(s, f, two_pointers_spec(), LTyView::Int(32));
    let s = begin(s, f);
    let ((a, b), s) = load_pair(s, lty);
    let (g, s) = greater_value(s, is_fp, with_sign, a, b);
    let (l, s) = less_value(s, is_fp, with_sign, a, b);
    let (x, s) = cast(s, CastKind::ZeroExt, g, LTyView::Int(32));
    let (y, s) = cast(s, CastKind::ZeroExt, l, LTyView::Int(32));
    let (d, s) = binary(s, BinKind::Sub, x, y);
    let (res, s) = ret(s, d);
    let s = finish(s);
    (res, s)
}

/// `Ord::cmp` of a primitive type: one, zero or minus one, the sign of what the first is more than
/// the second as values of that type.
#[verifier::opaque]
pub open spec fn primitive_ord(
    s: State,
    key: Seq<char>,
    lty: LTyView,
    is_fp: bool,
    with_sign: bool,
) -> (Result<(), ErrorView>, State) {
    let f = builtin_fn_spec("Ord"@, "cmp"@, key);
    if !s.out.decls.contains_key(f) {
        match primitive_ord_code(s, f, lty, is_fp, with_sign) {
            (Ok(_), s) => {
                let s = add_method(s, key, "cmp"@, f);
                (Ok(()), s)
            },
            (Err(e), s) => (Err(e), s),
        }
    } else {
        let s = add_method(s, key, "cmp"@, f);
        (Ok(()), s)
    }
}

/// The machine operation of an arithmetic operator.
#[verifier::opaque]
pub open spec fn arithmetic_kind_spec(op: BinOp, is_fp: bool, with_sign: bool) -> BinKind {
    match op {
        BinOp::Add => {
            if is_fp {
                BinKind::FloatAdd
            } else {
                BinKind::Add
            }
        },
        BinOp::Sub => {
            if is_fp {
                BinKind::FloatSub
            } else {
                BinKind::Sub
            }
        },
        BinOp::Mul => {
            if is_fp {
                BinKind::FloatMul
            } else {
                BinKind::Mul
            }
        },
        _ => {
            if is_fp {
                BinKind::FloatDiv
            } else if with_sign {
                BinKind::SignedDiv
            } else {
                BinKind::UnsignedDiv
            }
        },
    }
}

/// The code of A method of a primitive type that carries out an arithmetic operator.
#[verifier::opaque]
pub open spec fn primitive_arithmetic_code(
    s: State,
    f: Seq<char>,
    lty: LTyView,
    kind: BinKind,
) -> (Result<(), ErrorView>, State) {
    let s = declare_builtin(s, f, two_pointers_spec(), lty);
    let s = begin(s, f);
    let ((a, b), s) = load_pair(s, lty);
    let (c, s) = binary(s, kind, a, b);
    let (res, s) = ret(s, c);
    let s = finish(s);
    (res, s)
}

/// A method of a primitive type that carries out an arithmetic operator.
#[verifier::opaque]
pub open spec fn primitive_arithmetic(
    s: State,
    key: Seq<char>,
    lty: LTyView,
    trait_name: Seq<char>,
    method: Seq<char>,
    kind: BinKind,
) -> (Result<(), ErrorView>, State) {
    let f = builtin_fn_spec(trait_name, method, key);
    if !s.out.decls.contains_key(f) {
        match primitive_arithmetic_code(s, f, lty, kind) {
            (Ok(_), s) => {
                let s = add_method(s, key, method, f);
                (Ok(()), s)
            },
            (Err(e), s) => (Err(e), s),
        }
    } else {
        let s = add_method(s, key, method, f);
        (Ok(()), s)
    }
}

/// The arithmetic operators of a primitive type.
#[verifier::opaque]
pub open spec fn primitive_operators(
    s: State,
    key: Seq<char>,
    lty: LTyView,
    is_fp: bool,
    with_sign: bool,
) -> (Result<(), ErrorView>, State) {
    match primitive_arithmetic(
        s,
        key,
        lty,
        "Add"@,
        "add"@,
        arithmetic_kind_spec(BinOp::Add, is_fp, with_sign),
    ) {
        (Ok(_), s) => {
            match primitive_arithmetic(
                s,
                key,
                lty,
                "Sub"@,
                "sub"@,
                arithmetic_kind_spec(BinOp::Sub, is_fp, with_sign),
            ) {
                (Ok(_), s) => {
                    match primitive_arithmetic(
                        s,
                        key,
                        lty,
                        "Mul"@,
                        "mul"@,
                        arithmetic_kind_spec(BinOp::Mul, is_fp, with_sign),
                    ) {
                        (Ok(_), s) => {
                            primitive_arithmetic(
                                s,
                                key,
                                lty,
                                "Div"@,
                                "div"@,
                                arithmetic_kind_spec(BinOp::Div, is_fp, with_sign),
                            )
                        },
                        (Err(e), s) => (Err(e), s),
                    }
                },
                (Err(e), s) => (Err(e), s),
            }
        },
        (Err(e), s) => (Err(e), s),
    }
}

/// The arithmetic operators of a primitive type; `bool` has none.
#[verifier::opaque]
pub open spec fn numeric_operators(
    s: State,
    ty: TypeView,
    key: Seq<char>,
    lty: LTyView,
) -> (Result<(), ErrorView>, State) {
    if ty is Bool {
        (Ok(()), s)
    } else {
        primitive_operators(s, key, lty, floating(ty), signed(ty))
    }
}

/// The traits of a primitive type; `bool` has no arithmetic.
#[verifier::opaque]
pub open spec fn primitive_traits_spec(is_bool: bool) -> Set<Seq<char>> {
    let names = Set::empty();
    let names = names.insert("Default"@);
    let names = names.insert("Clone"@);
    let names = names.insert("Eq"@);
    let names = names.insert("Ord"@);
    if !(is_bool) {
        let names = names.insert("Add"@);
        let names = names.insert("Sub"@);
        let names = names.insert("Mul"@);
        names.insert("Div"@)
    } else {
        names
    }
}

/// The trait methods of a primitive type.
#[verifier::opaque]
pub open spec fn primitive_impls(s: State, ty: TypeView) -> (Result<(), ErrorView>, State) {
    match type_key_or_fail_spec(ty) {
        Ok(key) => {
            match lower_type(s.env, ty) {
                Ok(lty) => {
                    let is_fp = floating(ty);
                    match primitive_default(s, key, lty) {
                        (Ok(_), s) => {
                            match primitive_clone(s, key, lty) {
                                (Ok(_), s) => {
                                    match primitive_eq(s, key, lty, is_fp) {
                                        (Ok(_), s) => {
                                            match primitive_ne(s, key, lty, is_fp) {
                                                (Ok(_), s) => {
                                                    match primitive_ord(
                                                        s,
                                                        key,
                                                        lty,
                                                        is_fp,
                                                        signed(ty),
                                                    ) {
                                                        (Ok(_), s) => {
                                                            match numeric_operators(
                                                                s,
                                                                ty,
                                                                key,
                                                                lty,
                                                            ) {
                                                                (Ok(_), s) => {
                                                                    let s = State {
                                                                        env: EnvView {
                                                                            trait_impls: s.env.trait_impls.insert(
                                                                                key,
                                                                                primitive_traits_spec(ty is Bool),
                                                                            ),
                                                                            ..s.env
                                                                        },
                                                                        ..s
                                                                    };
                                                                    let s = State {
                                                                        env: EnvView {
                                                                            copy_types: s.env.copy_types.insert(key),
                                                                            ..s.env
                                                                        },
                                                                        ..s
                                                                    };
                                                                    (Ok(()), s)
                                                                },
                                                                (Err(e), s) => (Err(e), s),
                                                            }
                                                        },
                                                        (Err(e), s) => (Err(e), s),
                                                    }
                                                },
                                                (Err(e), s) => (Err(e), s),
                                            }
                                        },
                                        (Err(e), s) => (Err(e), s),
                                    }
                                },
                                (Err(e), s) => (Err(e), s),
                            }
                        },
                        (Err(e), s) => (Err(e), s),
                    }
                },
                Err(e) => (Err(e), s),
            }
        },
        Err(e) => (Err(e), s),
    }
}

/// The primitive types but `str`.
#[verifier::opaque]
pub open spec fn primitive_types_spec() -> Seq<TypeView> {
    seq![
        TypeView::Bool,
        TypeView::I8,
        TypeView::I16,
        TypeView::I32,
        TypeView::I64,
        TypeView::U8,
        TypeView::U16,
        TypeView::U32,
        TypeView::U64,
        TypeView::Usize,
        TypeView::Isize,
        TypeView::F32,
        TypeView::F64,
    ]
}

/// The trait methods of the primitive types.
#[verifier::opaque]
pub open spec fn generate_primitive_trait_impls(s: State) -> (Result<(), ErrorView>, State) {
    let tys = primitive_types_spec();
    generate_primitive_trait_impls_each(s, tys, 0)
}

/// [`generate_primitive_trait_impls`] from element `i` on.
#[verifier::opaque]
pub open spec fn generate_primitive_trait_impls_each(
    s: State,
    tys: Seq<TypeView>,
    i: nat,
) -> (Result<(), ErrorView>, State)
    decreases tys.len() - i,
{
    if i < tys.len() {
        let ty = tys[i as int];
        match primitive_impls(s, ty) {
            (Ok(_), s) => generate_primitive_trait_impls_each(s, tys, i + 1),
            (Err(e), s) => (Err(e), s),
        }
    } else {
        (Ok(()), s)
    }
}

/// The parameters of a method on two values.
pub fn two_pointers() -> (r: Vec<LTy>)
    ensures
        l_ty_seq_view(r@) == two_pointers_spec(),
{
    proof {
        reveal(two_pointers_spec);
    }
    let mut items: Vec<LTy> = Vec::new();
    let item = LTy::Ptr;
    items.push(item);
    let item2 = LTy::Ptr;
    items.push(item2);
    proof {
        assert(l_ty_seq_view(items@) =~= seq![item@, item2@]);
    }
    items
}

/// The machine operation of an arithmetic operator.
pub fn arithmetic_kind(op: BinOp, is_fp: bool, with_sign: bool) -> (r: BinKind)
    ensures
        r == arithmetic_kind_spec(op, is_fp, with_sign),
{
    proof {
        reveal(arithmetic_kind_spec);
    }
    match &op {
        BinOp::Add => {
            if is_fp {
                return BinKind::FloatAdd;
            }
            return BinKind::Add;
        },
        BinOp::Sub => {
            if is_fp {
                return BinKind::FloatSub;
            }
            return BinKind::Sub;
        },
        BinOp::Mul => {
            if is_fp {
                return BinKind::FloatMul;
            }
            return BinKind::Mul;
        },
        _ => {
            if is_fp {
                return BinKind::FloatDiv;
            }
            if with_sign {
                return BinKind::SignedDiv;
            }
            return BinKind::UnsignedDiv;
        },
    }
}

/// The traits of a primitive type; `bool` has no arithmetic.
pub fn primitive_traits(is_bool: bool) -> (r: Names)
    ensures
        r@ == primitive_traits_spec(is_bool),
{
    proof {
        reveal(primitive_traits_spec);
    }
    let mut names = Names::new();
    names.insert("Default".to_owned());
    names.insert("Clone".to_owned());
    names.insert("Eq".to_owned());
    names.insert("Ord".to_owned());
    if !is_bool {
        names.insert("Add".to_owned());
        names.insert("Sub".to_owned());
        names.insert("Mul".to_owned());
        names.insert("Div".to_owned());
    }
    names
}

/// The primitive types but `str`.
pub fn primitive_types() -> (r: Vec<Type>)
    ensures
        type_seq_view(r@) == primitive_types_spec(),
{
    proof {
        reveal(primitive_types_spec);
    }
    let mut items: Vec<Type> = Vec::new();
    let item = Type::Bool;
    items.push(item);
    let item2 = Type::I8;
    items.push(item2);
    let item3 = Type::I16;
    items.push(item3);
    let item4 = Type::I32;
    items.push(item4);
    let item5 = Type::I64;
    items.push(item5);
    let item6 = Type::U8;
    items.push(item6);
    let item7 = Type::U16;
    items.push(item7);
    let item8 = Type::U32;
    items.push(item8);
    let item9 = Type::U64;
    items.push(item9);
    let item10 = Type::Usize;
    items.push(item10);
    let item11 = Type::Isize;
    items.push(item11);
    let item12 = Type::F32;
    items.push(item12);
    let item13 = Type::F64;
    items.push(item13);
    proof {
        assert(type_seq_view(items@) =~= seq![item@, item2@, item3@, item4@, item5@, item6@, item7@, item8@, item9@, item10@, item11@, item12@, item13@]);
    }
    items
}

impl CodeGen {
    /// The values that the two parameters of a method point to.
    pub fn load_pair(&mut self, lty: &LTy) -> (r: (Val, Val))
        ensures
            (r.model(), final(self)@) == load_pair(old(self)@, lty@),
            stays(old(self)@, final(self)@),
            settled(old(self)@, final(self)@),
            confined(old(self)@.out.cur, final(self)@.out.cur),
            same_variables(old(self)@, final(self)@),
    {
        proof {
            broadcast use crate::growth::group_growth;

            count_from(old(self)@);
            reveal(load_pair);
        }
        let a = self.load(lty, &arg(0, &LTy::Ptr));
        let b = self.load(lty, &arg(1, &LTy::Ptr));
        (a.clone(), b.clone())
    }

    /// The code of `Default::default` of a primitive type: zero.
    pub fn primitive_default_code(&mut self, f: &str, lty: &LTy) -> (r: Result<(), CodegenError>)
        requires
            !old(self)@.out.decls.contains_key(f@),
        ensures
            (r.model(), final(self)@) == primitive_default_code(old(self)@, f@, lty@),
            keeps(old(self)@, final(self)@),
            r is Ok ==> same_variables(old(self)@, final(self)@),
    {
        proof {
            broadcast use crate::growth::group_growth;

            count_from(old(self)@);
            reveal(primitive_default_code);
        }
        let items: Vec<LTy> = Vec::new();
        proof {
            assert(l_ty_seq_view(items@) =~= Seq::<LTyView>::empty());
        }
        self.declare_builtin(f, &items, lty);
        self.begin(f);
        proof {
            count_from(self@);
        }
        let res = self.ret(&zero_of(lty));
        proof {
            assert(self@.out.decls.contains_key(self@.out.cur.name)) by {
                reveal(grown);
            }
        }
        self.finish();
        res
    }

    /// `Default::default` of a primitive type: zero.
    pub fn primitive_default(&mut self, key: &str, lty: &LTy) -> (r: Result<(), CodegenError>)
        ensures
            (r.model(), final(self)@) == primitive_default(old(self)@, key@, lty@),
            keeps(old(self)@, final(self)@),
            r is Ok ==> same_variables(old(self)@, final(self)@),
    {
        proof {
            broadcast use crate::growth::group_growth;

            count_from(old(self)@);
            reveal(primitive_default);
        }
        let f = builtin_fn("Default", "default", key);
        if !self.out.decls.contains_key(&f) {
            match self.primitive_default_code(&f, lty) {
                Ok(_) => {},
                Err(e) => {
                    return Err(e);
                },
            }
        }
        self.add_method(key, "default", &f);
        Ok(())
    }

    /// The code of `Clone::clone` of a primitive type: the value itself.
    pub fn primitive_clone_code(&mut self, f: &str, lty: &LTy) -> (r: Result<(), CodegenError>)
        requires
            !old(self)@.out.decls.contains_key(f@),
        ensures
            (r.model(), final(self)@) == primitive_clone_code(old(self)@, f@, lty@),
            keeps(old(self)@, final(self)@),
            r is Ok ==> same_variables(old(self)@, final(self)@),
    {
        proof {
            broadcast use crate::growth::group_growth;

            count_from(old(self)@);
            reveal(primitive_clone_code);
        }
        let mut items: Vec<LTy> = Vec::new();
        let item = LTy::Ptr;
        items.push(item);
        proof {
            assert(l_ty_seq_view(items@) =~= seq![item@]);
        }
        self.declare_builtin(f, &items, lty);
        self.begin(f);
        proof {
            count_from(self@);
        }
        let v = self.load(lty, &arg(0, &LTy::Ptr));
        let res = self.ret(&v);
        proof {
            assert(self@.out.decls.contains_key(self@.out.cur.name)) by {
                reveal(grown);
            }
        }
        self.finish();
        res
    }

    /// `Clone::clone` of a primitive type: the value itself.
    pub fn primitive_clone(&mut self, key: &str, lty: &LTy) -> (r: Result<(), CodegenError>)
        ensures
            (r.model(), final(self)@) == primitive_clone(old(self)@, key@, lty@),
            keeps(old(self)@, final(self)@),
            r is Ok ==> same_variables(old(self)@, final(self)@),
    {
        proof {
            broadcast use crate::growth::group_growth;

            count_from(old(self)@);
            reveal(primitive_clone);
        }
        let f = builtin_fn("Clone", "clone", key);
        if !self.out.decls.contains_key(&f) {
            match self.primitive_clone_code(&f, lty) {
                Ok(_) => {},
                Err(e) => {
                    return Err(e);
                },
            }
        }
        self.add_method(key, "clone", &f);
        Ok(())
    }

    /// Whether two numbers are equal.
    pub fn equal_values(&mut self, is_fp: bool, a: &Val, b: &Val) -> (r: Val)
        ensures
            (r@, final(self)@) == equal_values(old(self)@, is_fp, a@, b@),
            stays(old(self)@, final(self)@),
            settled(old(self)@, final(self)@),
            confined(old(self)@.out.cur, final(self)@.out.cur),
            same_variables(old(self)@, final(self)@),
    {
        proof {
            broadcast use crate::growth::group_growth;

            count_from(old(self)@);
            reveal(equal_values);
        }
        if is_fp {
            return self.float_test(FloatPred::Eq, a, b);
        }
        self.int_test(IntPred::Eq, a, b)
    }

    /// The code of `Eq::eq` of a primitive type.
    pub fn primitive_eq_code(
        &mut self,
        f: &str,
        lty: &LTy,
        is_fp: bool,
    ) -> (r: Result<(), CodegenError>)
        requires
            !old(self)@.out.decls.contains_key(f@),
        ensures
            (r.model(), final(self)@) == primitive_eq_code(old(self)@, f@, lty@, is_fp),
            keeps(old(self)@, final(self)@),
            r is Ok ==> same_variables(old(self)@, final(self)@),
    {
        proof {
            broadcast use crate::growth::group_growth;

            count_from(old(self)@);
            reveal(primitive_eq_code);
        }
        self.declare_builtin(f, &two_pointers(), &LTy::Int(1));
        self.begin(f);
        proof {
            count_from(self@);
        }
        let (a, b) = self.load_pair(lty);
        let c = self.equal_values(is_fp, &a, &b);
        let res = self.ret(&c);
        proof {
            assert(self@.out.decls.contains_key(self@.out.cur.name)) by {
                reveal(grown);
            }
        }
        self.finish();
        res
    }

    /// `Eq::eq` of a primitive type.
    pub fn primitive_eq(
        &mut self,
        key: &str,
        lty: &LTy,
        is_fp: bool,
    ) -> (r: Result<(), CodegenError>)
        ensures
            (r.model(), final(self)@) == primitive_eq(old(self)@, key@, lty@, is_fp),
            keeps(old(self)@, final(self)@),
            r is Ok ==> same_variables(old(self)@, final(self)@),
    {
        proof {
            broadcast use crate::growth::group_growth;

            count_from(old(self)@);
            reveal(primitive_eq);
        }
        let f = builtin_fn("Eq", "eq", key);
        if !self.out.decls.contains_key(&f) {
            match self.primitive_eq_code(&f, lty, is_fp) {
                Ok(_) => {},
                Err(e) => {
                    return Err(e);
                },
            }
        }
        self.add_method(key, "eq", &f);
        Ok(())
    }

    /// The code of `Eq::ne` of a primitive type.
    pub fn primitive_ne_code(
        &mut self,
        f: &str,
        lty: &LTy,
        is_fp: bool,
    ) -> (r: Result<(), CodegenError>)
        requires
            !old(self)@.out.decls.contains_key(f@),
        ensures
            (r.model(), final(self)@) == primitive_ne_code(old(self)@, f@, lty@, is_fp),
            keeps(old(self)@, final(self)@),
            r is Ok ==> same_variables(old(self)@, final(self)@),
    {
        proof {
            broadcast use crate::growth::group_growth;

            count_from(old(self)@);
            reveal(primitive_ne_code);
        }
        self.declare_builtin(f, &two_pointers(), &LTy::Int(1));
        self.begin(f);
        proof {
            count_from(self@);
        }
        let (a, b) = self.load_pair(lty);
        let c = self.equal_values(is_fp, &a, &b);
        let d = self.invert(&c);
        let res = self.ret(&d);
        proof {
            assert(self@.out.decls.contains_key(self@.out.cur.name)) by {
                reveal(grown);
            }
        }
        self.finish();
        res
    }

    /// `Eq::ne` of a primitive type.
    pub fn primitive_ne(
        &mut self,
        key: &str,
        lty: &LTy,
        is_fp: bool,
    ) -> (r: Result<(), CodegenError>)
        ensures
            (r.model(), final(self)@) == primitive_ne(old(self)@, key@, lty@, is_fp),
            keeps(old(self)@, final(self)@),
            r is Ok ==> same_variables(old(self)@, final(self)@),
    {
        proof {
            broadcast use crate::growth::group_growth;

            count_from(old(self)@);
            reveal(primitive_ne);
        }
        let f = builtin_fn("Eq", "ne", key);
        if !self.out.decls.contains_key(&f) {
            match self.primitive_ne_code(&f, lty, is_fp) {
                Ok(_) => {},
                Err(e) => {
                    return Err(e);
                },
            }
        }
        self.add_method(key, "ne", &f);
        Ok(())
    }

    /// Whether a number is greater than another one.
    pub fn greater_value(&mut self, is_fp: bool, with_sign: bool, a: &Val, b: &Val) -> (r: Val)
        ensures
            (r@, final(self)@) == greater_value(old(self)@, is_fp, with_sign, a@, b@),
            stays(old(self)@, final(self)@),
            settled(old(self)@, final(self)@),
            confined(old(self)@.out.cur, final(self)@.out.cur),
            same_variables(old(self)@, final(self)@),
    {
        proof {
            broadcast use crate::growth::group_growth;

            count_from(old(self)@);
            reveal(greater_value);
        }
        if is_fp {
            return self.float_test(FloatPred::Gt, a, b);
        }
        if with_sign {
            return self.int_test(IntPred::Gt, a, b);
        }
        self.int_test(IntPred::UnsignedGt, a, b)
    }

    /// Whether a number is less than another one.
    pub fn less_value(&mut self, is_fp: bool, with_sign: bool, a: &Val, b: &Val) -> (r: Val)
        ensures
            (r@, final(self)@) == less_value(old(self)@, is_fp, with_sign, a@, b@),
            stays(old(self)@, final(self)@),
            settled(old(self)@, final(self)@),
            confined(old(self)@.out.cur, final(self)@.out.cur),
            same_variables(old(self)@, final(self)@),
    {
        proof {
            broadcast use crate::growth::group_growth;

            count_from(old(self)@);
            reveal(less_value);
        }
        if is_fp {
            return self.float_test(FloatPred::Lt, a, b);
        }
        if with_sign {
            return self.int_test(IntPred::Lt, a, b);
        }
        self.int_test(IntPred::UnsignedLt, a, b)
    }

    /// The code of `Ord::cmp` of a primitive type: one, zero or minus one, the sign of what the
    /// first is more than the second as values of that type.
    pub fn primitive_ord_code(
        &mut self,
        f: &str,
        lty: &LTy,
        is_fp: bool,
        with_sign: bool,
    ) -> (r: Result<(), CodegenError>)
        requires
            !old(self)@.out.decls.contains_key(f@),
        ensures
            (r.model(), final(self)@) == primitive_ord_code(old(self)@, f@, lty@, is_fp, with_sign),
            keeps(old(self)@, final(self)@),
            r is Ok ==> same_variables(old(self)@, final(self)@),
    {
        proof {
            broadcast use crate::growth::group_growth;

            count_from(old(self)@);
            reveal(primitive_ord_code);
        }
        self.declare_builtin(f, &two_pointers(), &LTy::Int(32));
        self.begin(f);
        proof {
            count_from(self@);
        }
        let (a, b) = self.load_pair(lty);
        let g = self.greater_value(is_fp, with_sign, &a, &b);
        let l = self.less_value(is_fp, with_sign, &a, &b);
        let x = self.cast(CastKind::ZeroExt, &g, &LTy::Int(32));
        let y = self.cast(CastKind::ZeroExt, &l, &LTy::Int(32));
        let d = self.binary(BinKind::Sub, &x, &y);
        let res = self.ret(&d);
        proof {
            assert(self@.out.decls.contains_key(self@.out.cur.name)) by {
                reveal(grown);
            }
        }
        self.finish();
        res
    }

    /// `Ord::cmp` of a primitive type: one, zero or minus one, the sign of what the first is more
    /// than the second as values of that type.
    pub fn primitive_ord(
        &mut self,
        key: &str,
        lty: &LTy,
        is_fp: bool,
        with_sign: bool,
    ) -> (r: Result<(), CodegenError>)
        ensures
            (r.model(), final(self)@) == primitive_ord(old(self)@, key@, lty@, is_fp, with_sign),
            keeps(old(self)@, final(self)@),
            r is Ok ==> same_variables(old(self)@, final(self)@),
    {
        proof {
            broadcast use crate::growth::group_growth;

            count_from(old(self)@);
            reveal(primitive_ord);
        }
        let f = builtin_fn("Ord", "cmp", key);
        if !self.out.decls.contains_key(&f) {
            match self.primitive_ord_code(&f, lty, is_fp, with_sign) {
                Ok(_) => {},
                Err(e) => {
                    return Err(e);
                },
            }
        }
        self.add_method(key, "cmp", &f);
        Ok(())
    }

    /// The code of A method of a primitive type that carries out an arithmetic operator.
    pub fn primitive_arithmetic_code(
        &mut self,
        f: &str,
        lty: &LTy,
        kind: BinKind,
    ) -> (r: Result<(), CodegenError>)
        requires
            !old(self)@.out.decls.contains_key(f@),
        ensures
            (r.model(), final(self)@) == primitive_arithmetic_code(old(self)@, f@, lty@, kind),
            keeps(old(self)@, final(self)@),
            r is Ok ==> same_variables(old(self)@, final(self)@),
    {
        proof {
            broadcast use crate::growth::group_growth;

            count_from(old(self)@);
            reveal(primitive_arithmetic_code);
        }
        self.declare_builtin(f, &two_pointers(), lty);
        self.begin(f);
        proof {
            count_from(self@);
        }
        let (a, b) = self.load_pair(lty);
        let c = self.binary(kind, &a, &b);
        let res = self.ret(&c);
        proof {
            assert(self@.out.decls.contains_key(self@.out.cur.name)) by {
                reveal(grown);
            }
        }
        self.finish();
        res
    }

    /// A method of a primitive type that carries out an arithmetic operator.
    pub fn primitive_arithmetic(
        &mut self,
        key: &str,
        lty: &LTy,
        trait_name: &str,
        method: &str,
        kind: BinKind,
    ) -> (r: Result<(), CodegenError>)
        ensures
            (r.model(), final(self)@) == primitive_arithmetic(
                old(self)@,
                key@,
                lty@,
                trait_name@,
                method@,
                kind,
            ),
            keeps(old(self)@, final(self)@),
            r is Ok ==> same_variables(old(self)@, final(self)@),
    {
        proof {
            broadcast use crate::growth::group_growth;

            count_from(old(self)@);
            reveal(primitive_arithmetic);
        }
        let f = builtin_fn(trait_name, method, key);
        if !self.out.decls.contains_key(&f) {
            match self.primitive_arithmetic_code(&f, lty, kind) {
                Ok(_) => {},
                Err(e) => {
                    return Err(e);
                },
            }
        }
        self.add_method(key, method, &f);
        Ok(())
    }

    /// The arithmetic operators of a primitive type.
    pub fn primitive_operators(
        &mut self,
        key: &str,
        lty: &LTy,
        is_fp: bool,
        with_sign: bool,
    ) -> (r: Result<(), CodegenError>)
        ensures
            (r.model(), final(self)@) == primitive_operators(
                old(self)@,
                key@,
                lty@,
                is_fp,
                with_sign,
            ),
            keeps(old(self)@, final(self)@),
            r is Ok ==> same_variables(old(self)@, final(self)@),
    {
        proof {
            broadcast use crate::growth::group_growth;

            count_from(old(self)@);
            reveal(primitive_operators);
        }
        match self.primitive_arithmetic(
            key,
            lty,
            "Add",
            "add",
            arithmetic_kind(BinOp::Add, is_fp, with_sign),
        ) {
            Ok(_) => {},
            Err(e) => {
                return Err(e);
            },
        }
        match self.primitive_arithmetic(
            key,
            lty,
            "Sub",
            "sub",
            arithmetic_kind(BinOp::Sub, is_fp, with_sign),
        ) {
            Ok(_) => {},
            Err(e) => {
                return Err(e);
            },
        }
        match self.primitive_arithmetic(
            key,
            lty,
            "Mul",
            "mul",
            arithmetic_kind(BinOp::Mul, is_fp, with_sign),
        ) {
            Ok(_) => {},
            Err(e) => {
                return Err(e);
            },
        }
        self.primitive_arithmetic(
            key,
            lty,
            "Div",
            "div",
            arithmetic_kind(BinOp::Div, is_fp, with_sign),
        )
    }

    /// The arithmetic operators of a primitive type; `bool` has none.
    pub fn numeric_operators(
        &mut self,
        ty: &Type,
        key: &str,
        lty: &LTy,
    ) -> (r: Result<(), CodegenError>)
        ensures
            (r.model(), final(self)@) == numeric_operators(old(self)@, ty@, key@, lty@),
            keeps(old(self)@, final(self)@),
            r is Ok ==> same_variables(old(self)@, final(self)@),
    {
        proof {
            broadcast use crate::growth::group_growth;

            count_from(old(self)@);
            reveal(numeric_operators);
        }
        if matches!(ty, Type::Bool { .. }) {
            return Ok(());
        }
        self.primitive_operators(key, lty, is_float(ty), is_signed(ty))
    }

    /// The trait methods of a primitive type.
    pub fn primitive_impls(&mut self, ty: &Type) -> (r: Result<(), CodegenError>)
        ensures
            (r.model(), final(self)@) == primitive_impls(old(self)@, ty@),
            keeps(old(self)@, final(self)@),
            r is Ok ==> same_variables(old(self)@, final(self)@),
    {
        proof {
            broadcast use crate::growth::group_growth;

            count_from(old(self)@);
            reveal(primitive_impls);
        }
        let key = match type_key_or_fail(ty) {
            Ok(v) => v,
            Err(e) => {
                return Err(e);
            },
        };
        let lty = match self.env.type_to_llvm(ty) {
            Ok(v) => v,
            Err(e) => {
                return Err(e);
            },
        };
        let is_fp: bool = is_float(ty);
        match self.primitive_default(&key, &lty) {
            Ok(_) => {},
            Err(e) => {
                return Err(e);
            },
        }
        match self.primitive_clone(&key, &lty) {
            Ok(_) => {},
            Err(e) => {
                return Err(e);
            },
        }
        match self.primitive_eq(&key, &lty, is_fp) {
            Ok(_) => {},
            Err(e) => {
                return Err(e);
            },
        }
        match self.primitive_ne(&key, &lty, is_fp) {
            Ok(_) => {},
            Err(e) => {
                return Err(e);
            },
        }
        match self.primitive_ord(&key, &lty, is_fp, is_signed(ty)) {
            Ok(_) => {},
            Err(e) => {
                return Err(e);
            },
        }
        match self.numeric_operators(ty, &key, &lty) {
            Ok(_) => {},
            Err(e) => {
                return Err(e);
            },
        }
        let ghost past = self@.env;
        self.env.trait_impls.insert(key.clone(), primitive_traits(matches!(ty, Type::Bool { .. })));
        proof {
            assert(fields_kept(past, self@.env)) by {
                reveal(fields_kept);
            }
        }
        let ghost past2 = self@.env;
        self.env.copy_types.insert(key.clone());
        proof {
            assert(fields_kept(past2, self@.env)) by {
                reveal(fields_kept);
            }
        }
        Ok(())
    }

    /// The trait methods of the primitive types.
    pub fn generate_primitive_trait_impls(&mut self) -> (r: Result<(), CodegenError>)
        ensures
            (r.model(), final(self)@) == generate_primitive_trait_impls(old(self)@),
            keeps(old(self)@, final(self)@),
            r is Ok ==> same_variables(old(self)@, final(self)@),
    {
        proof {
            broadcast use crate::growth::group_growth;

            count_from(old(self)@);
            reveal(generate_primitive_trait_impls);
            reveal(generate_primitive_trait_impls_each);
        }
        let tys = primitive_types();
        let mut i: usize = 0;
        while i < tys.len()
            invariant
                i <= tys@.len(),
                generate_primitive_trait_impls_each(
                    self@,
                    type_seq_view(tys@),
                    i as nat,
                ) == generate_primitive_trait_impls(old(self)@),
                keeps(old(self)@, self@),
                same_variables(old(self)@, self@),
            decreases tys@.len() - i,
        {
            proof {
                broadcast use crate::growth::group_growth;

                count_from(old(self)@);
                reveal(generate_primitive_trait_impls);
                reveal(generate_primitive_trait_impls_each);
            }
            let ty = &tys[i];
            proof {
                assert(type_seq_view(tys@)[i as int] == type_view(tys@[i as int]));
            }
            match self.primitive_impls(ty) {
                Ok(_) => {},
                Err(e) => {
                    return Err(e);
                },
            }
            i += 1;
        }
        Ok(())
    }
}

} // verus!
