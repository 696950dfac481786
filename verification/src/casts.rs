//! Conversions between machine values.
use crate::ast::Type;
use crate::builder::{cast, float_test, int_const, load, make_fat, mk_int, mk_undef, spill, undef};
use crate::growth::{confined, count_from, same_variables, settled, stays};
use crate::infer::{element_of_slice, slice_element};
use crate::ir::{
    CastKind, FloatConst, FloatConstView, FloatPred, LTy, LTyView, Operand, OperandView, Val,
    ValView, same_lty,
};
use crate::model::{TypeView, type_view};
use crate::query::lower_type;
use crate::state::{
    CodeGen, CodegenError, ConstValue, ConstValueView, Env, EnvView, ErrorView, State, err,
};
use crate::table::Model;
use crate::types::{floating, int_type_width, int_width, is_float, is_signed, same_type, signed};
use vstd::prelude::*;

verus! {

broadcast use crate::lists::group_list_views;

/// A value that has to be a pointer.
#[verifier::opaque]
pub open spec fn as_ptr_spec(v: ValView) -> Result<ValView, ErrorView> {
    if v.ty is Ptr {
        Ok(v)
    } else {
        Err(err("internal: not a pointer"@))
    }
}

/// A machine type that has to be an integer type.
#[verifier::opaque]
pub open spec fn need_int_spec(ty: LTyView) -> Result<LTyView, ErrorView> {
    if ty is Int {
        Ok(ty)
    } else {
        Err(err("internal: not an integer type"@))
    }
}

/// A conversion to `bool`: an integer is truncated, a float is compared with zero.
#[verifier::opaque]
pub open spec fn cast_to_bool(s: State, v: ValView) -> (Result<ValView, ErrorView>, State) {
    match v.ty {
        LTyView::Int(w) => {
            if w == 1 {
                (Ok(v), s)
            } else {
                let (got, s) = cast(s, CastKind::Trunc, v, LTyView::Int(1));
                (Ok(got), s)
            }
        },
        LTyView::F32 => {
            let (got2, s) = float_test(
                s,
                FloatPred::Ne,
                v,
                (ValView { op: OperandView::Float(FloatConstView::FromInt(0)), ty: LTyView::F32 }),
            );
            (Ok(got2), s)
        },
        LTyView::F64 => {
            let (got3, s) = float_test(
                s,
                FloatPred::Ne,
                v,
                (ValView { op: OperandView::Float(FloatConstView::FromInt(0)), ty: LTyView::F64 }),
            );
            (Ok(got3), s)
        },
        _ => (Err(err("unsupported value type for cast to bool"@)), s),
    }
}

/// The width of the type that an integer is converted to; zero for a float.
#[verifier::opaque]
pub open spec fn cast_width_spec(to: TypeView) -> Result<u32, ErrorView> {
    match to {
        TypeView::ImplTrait(_) => Err(err("cannot cast to impl Trait type"@)),
        TypeView::I8 | TypeView::U8 => Ok(8),
        TypeView::I16 | TypeView::U16 => Ok(16),
        TypeView::I32 | TypeView::U32 => Ok(32),
        TypeView::I64 | TypeView::U64 | TypeView::Isize | TypeView::Usize => Ok(64),
        TypeView::F32 | TypeView::F64 => Ok(0),
        TypeView::Never => Err(err("cast to never type is not allowed"@)),
        TypeView::Tuple { .. } | TypeView::Unit => Err(err("cannot cast to tuple or unit type"@)),
        TypeView::Str => Err(err("cannot cast to string type"@)),
        TypeView::Ref { .. } => Err(err("cannot cast to reference type"@)),
        TypeView::Ptr { .. } => Err(err("internal: cast to pointer type"@)),
        TypeView::Struct { .. } | TypeView::GenericInstance { .. } | TypeView::Alias { .. } => {
            Err(err("cannot cast to struct type"@))
        },
        TypeView::Array { .. } => Err(err("cannot cast to array type"@)),
        TypeView::Slice { .. } | TypeView::GenericArray { .. } => {
            Err(err("cannot cast to slice or generic array type"@))
        },
        TypeView::SelfType => Err(err("cannot cast to Self type"@)),
        TypeView::Bool => Ok(1),
        TypeView::Infer => Err(err("cannot cast to inferred type"@)),
    }
}

/// The machine type of a float type.
#[verifier::opaque]
pub open spec fn float_ty_spec(to: TypeView) -> LTyView {
    if to is F32 {
        LTyView::F32
    } else {
        LTyView::F64
    }
}

/// A conversion of an integer of `w` bits to one of `width` bits, or to a float.
#[verifier::opaque]
pub open spec fn cast_int(
    s: State,
    v: ValView,
    w: u32,
    to: TypeView,
    width: u32,
    dst: LTyView,
) -> (Result<ValView, ErrorView>, State) {
    if w == 1 {
        if floating(to) {
            let (n, s) = cast(s, CastKind::ZeroExt, v, LTyView::Int(32));
            let (got2, s) = cast(s, CastKind::UnsignedToFloat, n, float_ty_spec(to));
            (Ok(got2), s)
        } else {
            match need_int_spec(dst) {
                Ok(d) => {
                    let (got4, s) = cast(s, CastKind::ZeroExt, v, d);
                    (Ok(got4), s)
                },
                Err(e) => (Err(e), s),
            }
        }
    } else if floating(to) {
        if (w == 32) || signed(to) {
            let (got5, s) = cast(s, CastKind::SignedToFloat, v, float_ty_spec(to));
            (Ok(got5), s)
        } else {
            let (got6, s) = cast(s, CastKind::UnsignedToFloat, v, float_ty_spec(to));
            (Ok(got6), s)
        }
    } else {
        match need_int_spec(dst) {
            Ok(d) => {
                if w < width {
                    if signed(to) {
                        let (got8, s) = cast(s, CastKind::SignExt, v, d);
                        (Ok(got8), s)
                    } else {
                        let (got9, s) = cast(s, CastKind::ZeroExt, v, d);
                        (Ok(got9), s)
                    }
                } else if w > width {
                    let (got10, s) = cast(s, CastKind::Trunc, v, d);
                    (Ok(got10), s)
                } else {
                    let (got11, s) = cast(s, CastKind::Bit, v, d);
                    (Ok(got11), s)
                }
            },
            Err(e) => (Err(e), s),
        }
    }
}

/// A conversion of a float.
#[verifier::opaque]
pub open spec fn cast_float(
    s: State,
    v: ValView,
    to: TypeView,
    dst: LTyView,
) -> (Result<ValView, ErrorView>, State) {
    if floating(to) {
        if v.ty == float_ty_spec(to) {
            (Ok(v), s)
        } else if v.ty is F32 {
            let (got, s) = cast(s, CastKind::FloatExt, v, LTyView::F64);
            (Ok(got), s)
        } else {
            let (got2, s) = cast(s, CastKind::FloatTrunc, v, LTyView::F32);
            (Ok(got2), s)
        }
    } else {
        match need_int_spec(dst) {
            Ok(d) => {
                if signed(to) {
                    let (got4, s) = cast(s, CastKind::FloatToSigned, v, d);
                    (Ok(got4), s)
                } else {
                    let (got5, s) = cast(s, CastKind::FloatToUnsigned, v, d);
                    (Ok(got5), s)
                }
            },
            Err(e) => (Err(e), s),
        }
    }
}

/// A conversion to a pointer: an integer is widened to 64 bits first, another value is kept.
#[verifier::opaque]
pub open spec fn cast_to_ptr(s: State, v: ValView) -> (ValView, State) {
    match v.ty {
        LTyView::Int(w) => {
            if w < 64 {
                let (n, s) = cast(s, CastKind::ZeroExt, v, LTyView::Int(64));
                cast(s, CastKind::IntToPtr, n, LTyView::Ptr)
            } else {
                cast(s, CastKind::IntToPtr, v, LTyView::Ptr)
            }
        },
        _ => (v, s),
    }
}

/// The address in a pointer, as an integer of `width` bits.
#[verifier::opaque]
pub open spec fn ptr_to_int(s: State, v: ValView, width: u32) -> (ValView, State) {
    let (n, s) = cast(s, CastKind::PtrToInt, v, LTyView::Int(64));
    if width < 64 {
        cast(s, CastKind::Trunc, n, LTyView::Int(width))
    } else {
        (n, s)
    }
}

/// A number is converted to a number only.
#[verifier::opaque]
pub open spec fn check_number_spec(to: TypeView) -> Result<(), ErrorView> {
    match cast_width_spec(to) {
        Ok(w) => Ok(()),
        Err(e) => Err(e),
    }
}

/// A conversion of a number to a number; every other type is refused.
#[verifier::opaque]
pub open spec fn cast_plain(
    s: State,
    v: ValView,
    to: TypeView,
) -> (Result<ValView, ErrorView>, State) {
    match v.ty {
        LTyView::Int(w) => {
            match cast_width_spec(to) {
                Ok(width) => {
                    match lower_type(s.env, to) {
                        Ok(dst) => cast_int(s, v, w, to, width, dst),
                        Err(e) => (Err(e), s),
                    }
                },
                Err(e) => (Err(e), s),
            }
        },
        LTyView::F32 | LTyView::F64 => {
            match check_number_spec(to) {
                Ok(_) => {
                    match lower_type(s.env, to) {
                        Ok(dst) => cast_float(s, v, to, dst),
                        Err(e) => (Err(e), s),
                    }
                },
                Err(e) => (Err(e), s),
            }
        },
        _ => (Err(err("unsupported value type for cast"@)), s),
    }
}

/// Whether a value has the machine type of `to`; never has none to compare with, and neither have
/// types without a machine type.
#[verifier::opaque]
pub open spec fn is_lowered_to(s: EnvView, v: ValView, to: TypeView) -> bool {
    if to is Never {
        false
    } else {
        match lower_type(s, to) {
            Ok(dst) => (v.ty == dst),
            Err(_) => false,
        }
    }
}

/// A pointer with a length to the elements of an array, which is put on the stack unless it is
/// behind a reference.
#[verifier::opaque]
pub open spec fn slice_of_array(
    s: State,
    v: ValView,
    n: usize,
    is_ref: bool,
) -> (Result<ValView, ErrorView>, State) {
    if is_ref {
        match as_ptr_spec(v) {
            Ok(p) => {
                let (q, s) = cast(s, CastKind::Bit, p, LTyView::Ptr);
                let (got5, s) = make_fat(s, q, int_const(64, n as u64));
                (Ok(got5), s)
            },
            Err(e) => (Err(e), s),
        }
    } else {
        let (a, s) = spill(s, v.ty, v);
        let (q, s) = cast(s, CastKind::Bit, a, LTyView::Ptr);
        let (got5, s) = make_fat(s, q, int_const(64, n as u64));
        (Ok(got5), s)
    }
}

/// The length of an array that a slice is wanted of, and whether it is behind a reference.
#[verifier::opaque]
pub open spec fn array_to_slice_spec(from_ty: TypeView, to: TypeView) -> Option<(usize, bool)> {
    if slice_element(to) is None {
        None
    } else {
        array_length_spec(from_ty)
    }
}

/// A conversion between types. A value of the never type becomes a value that is not determined;
/// one that is of the type `to`, or has its machine type, is kept. An array becomes a slice of its
/// elements.
#[verifier::opaque]
pub open spec fn emit_cast(
    s: State,
    v: ValView,
    from_ty: TypeView,
    to: TypeView,
) -> (Result<ValView, ErrorView>, State) {
    if from_ty is Never {
        match lower_type(s.env, to) {
            Ok(dst) => (Ok(undef(dst)), s),
            Err(e) => (Err(e), s),
        }
    } else if (from_ty == to) || is_lowered_to(s.env, v, to) {
        (Ok(v), s)
    } else {
        match array_to_slice_spec(from_ty, to) {
            Some((n, is_ref)) => slice_of_array(s, v, n, is_ref),
            None => {
                if to is Bool {
                    cast_to_bool(s, v)
                } else if v.ty is Ptr {
                    match int_width(to) {
                        Some(width) => {
                            let (got4, s) = ptr_to_int(s, v, width);
                            (Ok(got4), s)
                        },
                        None => {
                            if to is Ptr {
                                let (got5, s) = cast_to_ptr(s, v);
                                (Ok(got5), s)
                            } else {
                                cast_plain(s, v, to)
                            }
                        },
                    }
                } else if to is Ptr {
                    let (got5, s) = cast_to_ptr(s, v);
                    (Ok(got5), s)
                } else {
                    cast_plain(s, v, to)
                }
            },
        }
    }
}

/// An argument is read through its reference as long as that gives the parameter's type or another
/// reference.
#[verifier::opaque]
pub open spec fn deref_arg(
    s: State,
    v: ValView,
    ty: TypeView,
    param: TypeView,
) -> (Result<(ValView, TypeView), ErrorView>, State)
    decreases ty,
{
    match ty {
        TypeView::Ref { inner, .. } => {
            if ((*inner) == param) || ((*inner) is Ref) {
                match lower_type(s.env, *inner) {
                    Ok(lty) => {
                        match as_ptr_spec(v) {
                            Ok(p) => {
                                let (x, s) = load(s, lty, p);
                                deref_arg(s, x, *inner, param)
                            },
                            Err(e) => (Err(e), s),
                        }
                    },
                    Err(e) => (Err(e), s),
                }
            } else {
                (Ok((v, ty)), s)
            }
        },
        _ => (Ok((v, ty)), s),
    }
}

/// The length of an array or of an array behind a reference, and which of the two it is.
#[verifier::opaque]
pub open spec fn array_length_spec(ty: TypeView) -> Option<(usize, bool)> {
    match ty {
        TypeView::Array { len: n, .. } => Some((n, false)),
        TypeView::Ref { inner, .. } => {
            match (*inner) {
                TypeView::Array { len: n, .. } => Some((n, true)),
                _ => None,
            }
        },
        _ => None,
    }
}

/// An argument as its parameter wants it: read through references, turned to a pointer with a
/// length where a slice is wanted of an array, or converted.
#[verifier::opaque]
pub open spec fn coerce_arg(
    s: State,
    v: ValView,
    arg_ty: TypeView,
    param: TypeView,
) -> (Result<ValView, ErrorView>, State) {
    match deref_arg(s, v, arg_ty, param) {
        (Ok((x, ty)), s) => emit_cast(s, x, ty, param),
        (Err(e), s) => (Err(e), s),
    }
}

/// A constant as a value of the type `ty`.
#[verifier::opaque]
pub open spec fn const_value_to_llvm(
    s: EnvView,
    v: ConstValueView,
    ty: TypeView,
) -> Result<ValView, ErrorView> {
    match lower_type(s, ty) {
        Ok(lty) => {
            match v {
                ConstValueView::Int(n) => {
                    if lty is Int {
                        Ok(ValView { op: OperandView::Int(n as u64), ty: lty })
                    } else if lty is F32 || lty is F64 {
                        Ok(ValView { op: OperandView::Float(FloatConstView::FromInt(n)), ty: lty })
                    } else {
                        Ok(int_const(32, n as u64))
                    }
                },
                ConstValueView::Float(f) => {
                    if lty is F32 || lty is F64 {
                        Ok(ValView { op: OperandView::Float(f), ty: lty })
                    } else {
                        Ok(ValView { op: OperandView::Float(f), ty: LTyView::F64 })
                    }
                },
                ConstValueView::Bool(b) => Ok(int_const(1, if b { 1 } else { 0 })),
            }
        },
        Err(e) => Err(e),
    }
}

/// A value that has to be a pointer.
pub fn as_ptr(v: &Val) -> (r: Result<Val, CodegenError>)
    ensures
        r.model() == as_ptr_spec(v@),
{
    proof {
        reveal(as_ptr_spec);
    }
    if matches!(&v.ty, LTy::Ptr { .. }) {
        return Ok(v.clone());
    }
    Err(CodegenError::new("internal: not a pointer".to_owned()))
}

/// A machine type that has to be an integer type.
pub fn need_int(ty: &LTy) -> (r: Result<LTy, CodegenError>)
    ensures
        r.model() == need_int_spec(ty@),
{
    proof {
        reveal(need_int_spec);
    }
    if matches!(ty, LTy::Int { .. }) {
        return Ok(ty.clone());
    }
    Err(CodegenError::new("internal: not an integer type".to_owned()))
}

/// The width of the type that an integer is converted to; zero for a float.
pub fn cast_width(to: &Type) -> (r: Result<u32, CodegenError>)
    ensures
        r.model() == cast_width_spec(to@),
{
    proof {
        reveal(cast_width_spec);
    }
    match to {
        Type::ImplTrait(_) => {
            return Err(CodegenError::new("cannot cast to impl Trait type".to_owned()));
        },
        Type::I8 | Type::U8 => {
            return Ok(8);
        },
        Type::I16 | Type::U16 => {
            return Ok(16);
        },
        Type::I32 | Type::U32 => {
            return Ok(32);
        },
        Type::I64 | Type::U64 | Type::Isize | Type::Usize => {
            return Ok(64);
        },
        Type::F32 | Type::F64 => {
            return Ok(0);
        },
        Type::Never => {
            return Err(CodegenError::new("cast to never type is not allowed".to_owned()));
        },
        Type::Tuple { .. } | Type::Unit => {
            return Err(CodegenError::new("cannot cast to tuple or unit type".to_owned()));
        },
        Type::Str => {
            return Err(CodegenError::new("cannot cast to string type".to_owned()));
        },
        Type::Ref { .. } => {
            return Err(CodegenError::new("cannot cast to reference type".to_owned()));
        },
        Type::Ptr { .. } => {
            return Err(CodegenError::new("internal: cast to pointer type".to_owned()));
        },
        Type::Struct { .. } | Type::GenericInstance { .. } | Type::Alias { .. } => {
            return Err(CodegenError::new("cannot cast to struct type".to_owned()));
        },
        Type::Array { .. } => {
            return Err(CodegenError::new("cannot cast to array type".to_owned()));
        },
        Type::Slice { .. } | Type::GenericArray { .. } => {
            return Err(CodegenError::new("cannot cast to slice or generic array type".to_owned()));
        },
        Type::SelfType => {
            return Err(CodegenError::new("cannot cast to Self type".to_owned()));
        },
        Type::Bool => {
            return Ok(1);
        },
        Type::Infer => {
            return Err(CodegenError::new("cannot cast to inferred type".to_owned()));
        },
    }
}

/// The machine type of a float type.
pub fn float_ty(to: &Type) -> (r: LTy)
    ensures
        r@ == float_ty_spec(to@),
{
    proof {
        reveal(float_ty_spec);
    }
    if matches!(to, Type::F32 { .. }) {
        return LTy::F32;
    }
    LTy::F64
}

/// A number is converted to a number only.
pub fn check_number(to: &Type) -> (r: Result<(), CodegenError>)
    ensures
        r.model() == check_number_spec(to@),
{
    proof {
        reveal(check_number_spec);
    }
    let w: u32 = match cast_width(to) {
        Ok(v) => v,
        Err(e) => {
            return Err(e);
        },
    };
    Ok(())
}

/// The length of an array that a slice is wanted of, and whether it is behind a reference.
pub fn array_to_slice(from_ty: &Type, to: &Type) -> (r: Option<(usize, bool)>)
    ensures
        r.model() == array_to_slice_spec(from_ty@, to@),
{
    proof {
        reveal(array_to_slice_spec);
    }
    if matches!(&element_of_slice(to), None) {
        return None;
    }
    array_length(from_ty)
}

/// The length of an array or of an array behind a reference, and which of the two it is.
pub fn array_length(ty: &Type) -> (r: Option<(usize, bool)>)
    ensures
        r.model() == array_length_spec(ty@),
{
    proof {
        reveal(array_length_spec);
    }
    proof {
        reveal_with_fuel(type_view, 3);
    }
    match ty {
        Type::Array { len: n, .. } => {
            return Some((*n, false));
        },
        Type::Ref { inner, .. } => {
            match &**inner {
                Type::Array { len: n, .. } => {
                    return Some((*n, true));
                },
                _ => {
                    return None;
                },
            }
        },
        _ => {
            return None;
        },
    }
}

impl Env {
    /// Whether a value has the machine type of `to`; never has none to compare with, and neither
    /// have types without a machine type.
    pub fn is_lowered_to(&self, v: &Val, to: &Type) -> (r: bool)
        ensures
            r == is_lowered_to(self@, v@, to@),
    {
        proof {
            reveal(is_lowered_to);
        }
        if matches!(to, Type::Never { .. }) {
            return false;
        }
        let subject = self.type_to_llvm(to);
        match &subject {
            Ok(dst) => {
                return same_lty(&v.ty, dst);
            },
            Err(_) => {
                return false;
            },
        }
    }

    /// A constant as a value of the type `ty`.
    pub fn const_value_to_llvm(&self, v: &ConstValue, ty: &Type) -> (r: Result<Val, CodegenError>)
        ensures
            r.model() == const_value_to_llvm(self@, v@, ty@),
    {
        proof {
            reveal(const_value_to_llvm);
        }
        let lty = match self.type_to_llvm(ty) {
            Ok(v) => v,
            Err(e) => {
                return Err(e);
            },
        };
        match v {
            ConstValue::Int(n) => {
                if matches!(&lty, LTy::Int { .. }) {
                    return Ok(Val { op: Operand::Int(*n as u64), ty: lty.clone() });
                }
                if matches!(&lty, LTy::F32 { .. } | LTy::F64 { .. }) {
                    return Ok(Val { op: Operand::Float(FloatConst::FromInt(*n)), ty: lty.clone() });
                }
                return Ok(mk_int(32, (*n as u64)));
            },
            ConstValue::Float(f) => {
                if matches!(&lty, LTy::F32 { .. } | LTy::F64 { .. }) {
                    return Ok(Val { op: Operand::Float(f.clone()), ty: lty.clone() });
                }
                return Ok(Val { op: Operand::Float(f.clone()), ty: LTy::F64 });
            },
            ConstValue::Bool(b) => {
                return Ok(mk_int(1, if *b { 1 } else { 0 }));
            },
        }
    }
}

impl CodeGen {
    /// A conversion to `bool`: an integer is truncated, a float is compared with zero.
    pub fn cast_to_bool(&mut self, v: &Val) -> (r: Result<Val, CodegenError>)
        ensures
            (r.model(), final(self)@) == cast_to_bool(old(self)@, v@),
            stays(old(self)@, final(self)@),
            r is Ok ==> settled(old(self)@, final(self)@),
            r is Ok ==> confined(old(self)@.out.cur, final(self)@.out.cur),
            r is Ok ==> same_variables(old(self)@, final(self)@),
    {
        proof {
            broadcast use crate::growth::group_growth;

            count_from(old(self)@);
            reveal(cast_to_bool);
        }
        match &v.ty {
            LTy::Int(w) => {
                if *w == 1 {
                    return Ok(v.clone());
                }
                let got = self.cast(CastKind::Trunc, v, &LTy::Int(1));
                return Ok(got);
            },
            LTy::F32 => {
                let got2 = self.float_test(
                    FloatPred::Ne,
                    v,
                    &Val { op: Operand::Float(FloatConst::FromInt(0)), ty: LTy::F32 },
                );
                return Ok(got2);
            },
            LTy::F64 => {
                let got3 = self.float_test(
                    FloatPred::Ne,
                    v,
                    &Val { op: Operand::Float(FloatConst::FromInt(0)), ty: LTy::F64 },
                );
                return Ok(got3);
            },
            _ => {
                return Err(CodegenError::new("unsupported value type for cast to bool".to_owned()));
            },
        }
    }

    /// A conversion of an integer of `w` bits to one of `width` bits, or to a float.
    pub fn cast_int(
        &mut self,
        v: &Val,
        w: u32,
        to: &Type,
        width: u32,
        dst: &LTy,
    ) -> (r: Result<Val, CodegenError>)
        ensures
            (r.model(), final(self)@) == cast_int(old(self)@, v@, w, to@, width, dst@),
            stays(old(self)@, final(self)@),
            r is Ok ==> settled(old(self)@, final(self)@),
            r is Ok ==> confined(old(self)@.out.cur, final(self)@.out.cur),
            r is Ok ==> same_variables(old(self)@, final(self)@),
    {
        proof {
            broadcast use crate::growth::group_growth;

            count_from(old(self)@);
            reveal(cast_int);
        }
        if w == 1 {
            if is_float(to) {
                let n = self.cast(CastKind::ZeroExt, v, &LTy::Int(32));
                let got2 = self.cast(CastKind::UnsignedToFloat, &n, &float_ty(to));
                return Ok(got2);
            }
            let d = match need_int(dst) {
                Ok(v) => v,
                Err(e) => {
                    return Err(e);
                },
            };
            let got4 = self.cast(CastKind::ZeroExt, v, &d);
            return Ok(got4);
        }
        if is_float(to) {
            if (w == 32) || is_signed(to) {
                let got5 = self.cast(CastKind::SignedToFloat, v, &float_ty(to));
                return Ok(got5);
            }
            let got6 = self.cast(CastKind::UnsignedToFloat, v, &float_ty(to));
            return Ok(got6);
        }
        let d = match need_int(dst) {
            Ok(v) => v,
            Err(e) => {
                return Err(e);
            },
        };
        if w < width {
            if is_signed(to) {
                let got8 = self.cast(CastKind::SignExt, v, &d);
                return Ok(got8);
            }
            let got9 = self.cast(CastKind::ZeroExt, v, &d);
            return Ok(got9);
        }
        if w > width {
            let got10 = self.cast(CastKind::Trunc, v, &d);
            return Ok(got10);
        }
        let got11 = self.cast(CastKind::Bit, v, &d);
        Ok(got11)
    }

    /// A conversion of a float.
    pub fn cast_float(&mut self, v: &Val, to: &Type, dst: &LTy) -> (r: Result<Val, CodegenError>)
        ensures
            (r.model(), final(self)@) == cast_float(old(self)@, v@, to@, dst@),
            stays(old(self)@, final(self)@),
            r is Ok ==> settled(old(self)@, final(self)@),
            r is Ok ==> confined(old(self)@.out.cur, final(self)@.out.cur),
            r is Ok ==> same_variables(old(self)@, final(self)@),
    {
        proof {
            broadcast use crate::growth::group_growth;

            count_from(old(self)@);
            reveal(cast_float);
        }
        if is_float(to) {
            if same_lty(&v.ty, &float_ty(to)) {
                return Ok(v.clone());
            }
            if matches!(&v.ty, LTy::F32 { .. }) {
                let got = self.cast(CastKind::FloatExt, v, &LTy::F64);
                return Ok(got);
            }
            let got2 = self.cast(CastKind::FloatTrunc, v, &LTy::F32);
            return Ok(got2);
        }
        let d = match need_int(dst) {
            Ok(v) => v,
            Err(e) => {
                return Err(e);
            },
        };
        if is_signed(to) {
            let got4 = self.cast(CastKind::FloatToSigned, v, &d);
            return Ok(got4);
        }
        let got5 = self.cast(CastKind::FloatToUnsigned, v, &d);
        Ok(got5)
    }

    /// A conversion to a pointer: an integer is widened to 64 bits first, another value is kept.
    pub fn cast_to_ptr(&mut self, v: &Val) -> (r: Val)
        ensures
            (r@, final(self)@) == cast_to_ptr(old(self)@, v@),
            stays(old(self)@, final(self)@),
            settled(old(self)@, final(self)@),
            confined(old(self)@.out.cur, final(self)@.out.cur),
            same_variables(old(self)@, final(self)@),
    {
        proof {
            broadcast use crate::growth::group_growth;

            count_from(old(self)@);
            reveal(cast_to_ptr);
        }
        match &v.ty {
            LTy::Int(w) => {
                if *w < 64 {
                    let n = self.cast(CastKind::ZeroExt, v, &LTy::Int(64));
                    return self.cast(CastKind::IntToPtr, &n, &LTy::Ptr);
                }
                return self.cast(CastKind::IntToPtr, v, &LTy::Ptr);
            },
            _ => {
                return v.clone();
            },
        }
    }

    /// The address in a pointer, as an integer of `width` bits.
    pub fn ptr_to_int(&mut self, v: &Val, width: u32) -> (r: Val)
        ensures
            (r@, final(self)@) == ptr_to_int(old(self)@, v@, width),
            stays(old(self)@, final(self)@),
            settled(old(self)@, final(self)@),
            confined(old(self)@.out.cur, final(self)@.out.cur),
            same_variables(old(self)@, final(self)@),
    {
        proof {
            broadcast use crate::growth::group_growth;

            count_from(old(self)@);
            reveal(ptr_to_int);
        }
        let n = self.cast(CastKind::PtrToInt, v, &LTy::Int(64));
        if width < 64 {
            return self.cast(CastKind::Trunc, &n, &LTy::Int(width));
        }
        n
    }

    /// A conversion of a number to a number; every other type is refused.
    pub fn cast_plain(&mut self, v: &Val, to: &Type) -> (r: Result<Val, CodegenError>)
        ensures
            (r.model(), final(self)@) == cast_plain(old(self)@, v@, to@),
            stays(old(self)@, final(self)@),
            r is Ok ==> settled(old(self)@, final(self)@),
            r is Ok ==> confined(old(self)@.out.cur, final(self)@.out.cur),
            r is Ok ==> same_variables(old(self)@, final(self)@),
    {
        proof {
            broadcast use crate::growth::group_growth;

            count_from(old(self)@);
            reveal(cast_plain);
        }
        match &v.ty {
            LTy::Int(w) => {
                let width: u32 = match cast_width(to) {
                    Ok(v) => v,
                    Err(e) => {
                        return Err(e);
                    },
                };
                let dst = match self.env.type_to_llvm(to) {
                    Ok(v) => v,
                    Err(e) => {
                        return Err(e);
                    },
                };
                return self.cast_int(v, *w, to, width, &dst);
            },
            LTy::F32 | LTy::F64 => {
                match check_number(to) {
                    Ok(_) => {},
                    Err(e) => {
                        return Err(e);
                    },
                }
                let dst = match self.env.type_to_llvm(to) {
                    Ok(v) => v,
                    Err(e) => {
                        return Err(e);
                    },
                };
                return self.cast_float(v, to, &dst);
            },
            _ => {
                return Err(CodegenError::new("unsupported value type for cast".to_owned()));
            },
        }
    }

    /// A pointer with a length to the elements of an array, which is put on the stack unless it is
    /// behind a reference.
    pub fn slice_of_array(
        &mut self,
        v: &Val,
        n: usize,
        is_ref: bool,
    ) -> (r: Result<Val, CodegenError>)
        ensures
            (r.model(), final(self)@) == slice_of_array(old(self)@, v@, n, is_ref),
            stays(old(self)@, final(self)@),
            r is Ok ==> settled(old(self)@, final(self)@),
            r is Ok ==> confined(old(self)@.out.cur, final(self)@.out.cur),
            r is Ok ==> same_variables(old(self)@, final(self)@),
    {
        proof {
            broadcast use crate::growth::group_growth;

            count_from(old(self)@);
            reveal(slice_of_array);
        }
        let q: Val = if is_ref {
            let p = match as_ptr(v) {
                Ok(v) => v,
                Err(e) => {
                    return Err(e);
                },
            };
            let q = self.cast(CastKind::Bit, &p, &LTy::Ptr);
            q
        } else {
            let a = self.spill(&v.ty, v);
            let q = self.cast(CastKind::Bit, &a, &LTy::Ptr);
            q
        };
        let got5 = self.make_fat(&q, &mk_int(64, n as u64));
        Ok(got5)
    }

    /// A conversion between types. A value of the never type becomes a value that is not
    /// determined; one that is of the type `to`, or has its machine type, is kept. An array becomes
    /// a slice of its elements.
    pub fn emit_cast(
        &mut self,
        v: &Val,
        from_ty: &Type,
        to: &Type,
    ) -> (r: Result<Val, CodegenError>)
        ensures
            (r.model(), final(self)@) == emit_cast(old(self)@, v@, from_ty@, to@),
            stays(old(self)@, final(self)@),
            r is Ok ==> settled(old(self)@, final(self)@),
            r is Ok ==> confined(old(self)@.out.cur, final(self)@.out.cur),
            r is Ok ==> same_variables(old(self)@, final(self)@),
    {
        proof {
            broadcast use crate::growth::group_growth;

            count_from(old(self)@);
            reveal(emit_cast);
        }
        if matches!(from_ty, Type::Never { .. }) {
            let dst = match self.env.type_to_llvm(to) {
                Ok(v) => v,
                Err(e) => {
                    return Err(e);
                },
            };
            return Ok(mk_undef(&dst));
        }
        if same_type(from_ty, to) || self.env.is_lowered_to(v, to) {
            return Ok(v.clone());
        }
        let subject = array_to_slice(from_ty, to);
        match &subject {
            Some((n, is_ref)) => {
                return self.slice_of_array(v, *n, *is_ref);
            },
            None => {},
        }
        if matches!(to, Type::Bool { .. }) {
            return self.cast_to_bool(v);
        }
        if matches!(&v.ty, LTy::Ptr { .. }) {
            let subject2 = int_type_width(to);
            match &subject2 {
                Some(width) => {
                    let got4 = self.ptr_to_int(v, *width);
                    return Ok(got4);
                },
                None => {},
            }
        }
        if matches!(to, Type::Ptr { .. }) {
            let got5 = self.cast_to_ptr(v);
            return Ok(got5);
        }
        self.cast_plain(v, to)
    }

    /// An argument is read through its reference as long as that gives the parameter's type or
    /// another reference.
    pub fn deref_arg(
        &mut self,
        v: &Val,
        ty: &Type,
        param: &Type,
    ) -> (r: Result<(Val, Type), CodegenError>)
        ensures
            (r.model(), final(self)@) == deref_arg(old(self)@, v@, ty@, param@),
            stays(old(self)@, final(self)@),
            r is Ok ==> settled(old(self)@, final(self)@),
            r is Ok ==> confined(old(self)@.out.cur, final(self)@.out.cur),
            r is Ok ==> same_variables(old(self)@, final(self)@),
        decreases ty,
    {
        proof {
            broadcast use crate::growth::group_growth;

            count_from(old(self)@);
            reveal(deref_arg);
        }
        proof {
            reveal_with_fuel(type_view, 3);
        }
        match ty {
            Type::Ref { inner, .. } => {
                if same_type(inner, param) || matches!(&**inner, Type::Ref { .. }) {
                    let lty = match self.env.type_to_llvm(inner) {
                        Ok(v) => v,
                        Err(e) => {
                            return Err(e);
                        },
                    };
                    let p = match as_ptr(v) {
                        Ok(v) => v,
                        Err(e) => {
                            return Err(e);
                        },
                    };
                    let x = self.load(&lty, &p);
                    return self.deref_arg(&x, inner, param);
                }
                return Ok((v.clone(), ty.clone()));
            },
            _ => {
                return Ok((v.clone(), ty.clone()));
            },
        }
    }

    /// An argument as its parameter wants it: read through references, turned to a pointer with a
    /// length where a slice is wanted of an array, or converted.
    pub fn coerce_arg(
        &mut self,
        v: &Val,
        arg_ty: &Type,
        param: &Type,
    ) -> (r: Result<Val, CodegenError>)
        ensures
            (r.model(), final(self)@) == coerce_arg(old(self)@, v@, arg_ty@, param@),
            stays(old(self)@, final(self)@),
            r is Ok ==> settled(old(self)@, final(self)@),
            r is Ok ==> confined(old(self)@.out.cur, final(self)@.out.cur),
            r is Ok ==> same_variables(old(self)@, final(self)@),
    {
        proof {
            broadcast use crate::growth::group_growth;

            count_from(old(self)@);
            reveal(coerce_arg);
        }
        let (x, ty) = match self.deref_arg(v, arg_ty, param) {
            Ok(v) => v,
            Err(e) => {
                return Err(e);
            },
        };
        self.emit_cast(&x, &ty, param)
    }
}

} // verus!
