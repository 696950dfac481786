//! Types: equality, the `Self` type, and what arguments say of type parameters.
use crate::ast::{Block, Function, GenericParam, Param, TraitBound, Type};
use crate::model::{
    FunctionView, GenericParamView, ParamView, TypeView, dup_block, dup_function,
    dup_generic_param_seq, dup_param, dup_type, function_view, generic_param_seq_view,
    param_seq_view, param_view, trait_bound_seq_view, trait_bound_view, type_seq_view, type_view,
};
use crate::names::{
    mangle_generic_instance, mangled, primitive_name, primitive_type_name, show_type, type_text,
};
use crate::subst::{
    find_name, m_substitute_block, position, subst_block, subst_type, substitute_type_params,
};
use crate::table::{Model, Table};
use crate::text::{cat3, decimal_text, same, show_usize, texts};
use vstd::prelude::*;

verus! {

/// Whether two types are the same.
pub fn same_type(a: &Type, b: &Type) -> (r: bool)
    ensures
        r == (a@ == b@),
    decreases a,
{
    match (a, b) {
        (Type::I8, Type::I8) => true,
        (Type::I16, Type::I16) => true,
        (Type::I32, Type::I32) => true,
        (Type::I64, Type::I64) => true,
        (Type::U8, Type::U8) => true,
        (Type::U16, Type::U16) => true,
        (Type::U32, Type::U32) => true,
        (Type::U64, Type::U64) => true,
        (Type::Usize, Type::Usize) => true,
        (Type::Isize, Type::Isize) => true,
        (Type::F32, Type::F32) => true,
        (Type::F64, Type::F64) => true,
        (Type::Bool, Type::Bool) => true,
        (Type::Never, Type::Never) => true,
        (Type::Tuple(x), Type::Tuple(y)) => same_types(x, y),
        (Type::Unit, Type::Unit) => true,
        (Type::Str, Type::Str) => true,
        (Type::Ptr { inner: x, is_mut: m }, Type::Ptr { inner: y, is_mut: n }) => *m == *n
            && same_type(x, y),
        (Type::Ref { inner: x, is_mut: m }, Type::Ref { inner: y, is_mut: n }) => *m == *n
            && same_type(x, y),
        (Type::Array { inner: x, len: m }, Type::Array { inner: y, len: n }) => *m == *n
            && same_type(x, y),
        (
            Type::GenericArray { inner: x, len_var: m },
            Type::GenericArray { inner: y, len_var: n },
        ) => same(m, n) && same_type(x, y),
        (Type::Slice { inner: x }, Type::Slice { inner: y }) => same_type(x, y),
        (Type::Struct(x), Type::Struct(y)) => same(x, y),
        (Type::GenericInstance(x, xs), Type::GenericInstance(y, ys)) => same(x, y) && same_types(
            xs,
            ys,
        ),
        (Type::Alias(x, xs), Type::Alias(y, ys)) => same(x, y) && same_types(xs, ys),
        (Type::SelfType, Type::SelfType) => true,
        (Type::Infer, Type::Infer) => true,
        (Type::ImplTrait(xs), Type::ImplTrait(ys)) => same_bounds(xs, ys),
        _ => false,
    }
}

/// Whether two lists of types are the same.
pub fn same_types(a: &Vec<Type>, b: &Vec<Type>) -> (r: bool)
    ensures
        r == (type_seq_view(a@) == type_seq_view(b@)),
    decreases a,
{
    if a.len() != b.len() {
        proof {
            assert(type_seq_view(a@).len() != type_seq_view(b@).len());
        }
        return false;
    }
    let mut i: usize = 0;
    while i < a.len()
        invariant
            i <= a@.len() == b@.len(),
            forall|k: int| 0 <= k < i ==> type_seq_view(a@)[k] == type_seq_view(b@)[k],
        decreases a@.len() - i,
    {
        if !same_type(&a[i], &b[i]) {
            proof {
                assert(type_seq_view(a@)[i as int] != type_seq_view(b@)[i as int]);
            }
            return false;
        }
        i += 1;
    }
    proof {
        assert(type_seq_view(a@) =~= type_seq_view(b@));
    }
    true
}

fn same_bounds(a: &Vec<TraitBound>, b: &Vec<TraitBound>) -> (r: bool)
    ensures
        r == (trait_bound_seq_view(a@) == trait_bound_seq_view(b@)),
    decreases a,
{
    if a.len() != b.len() {
        proof {
            assert(trait_bound_seq_view(a@).len() != trait_bound_seq_view(b@).len());
        }
        return false;
    }
    let mut i: usize = 0;
    while i < a.len()
        invariant
            i <= a@.len() == b@.len(),
            forall|k: int| 0 <= k < i ==> trait_bound_seq_view(a@)[k] == trait_bound_seq_view(b@)[k],
        decreases a@.len() - i,
    {
        if !same_bound(&a[i], &b[i]) {
            proof {
                assert(trait_bound_seq_view(a@)[i as int] != trait_bound_seq_view(b@)[i as int]);
            }
            return false;
        }
        i += 1;
    }
    proof {
        assert(trait_bound_seq_view(a@) =~= trait_bound_seq_view(b@));
    }
    true
}

fn same_bound(a: &TraitBound, b: &TraitBound) -> (r: bool)
    ensures
        r == (trait_bound_view(*a) == trait_bound_view(*b)),
    decreases a,
{
    same(&a.trait_name, &b.trait_name) && same_types(&a.generic_args, &b.generic_args)
}

/// Whether a type is a signed integer.
#[verifier::opaque]
pub open spec fn signed(ty: TypeView) -> bool {
    match ty {
        TypeView::I8 | TypeView::I16 | TypeView::I32 | TypeView::I64 | TypeView::Isize => true,
        _ => false,
    }
}

/// Whether a type is a signed integer.
pub fn is_signed(ty: &Type) -> (r: bool)
    ensures
        r == signed(ty@),
{
    proof {
        reveal(signed);
    }
    match ty {
        Type::I8 | Type::I16 | Type::I32 | Type::I64 | Type::Isize => true,
        _ => false,
    }
}

/// Whether a type is a float.
#[verifier::opaque]
pub open spec fn floating(ty: TypeView) -> bool {
    match ty {
        TypeView::F32 | TypeView::F64 => true,
        _ => false,
    }
}

/// Whether a type is a float.
pub fn is_float(ty: &Type) -> (r: bool)
    ensures
        r == floating(ty@),
{
    proof {
        reveal(floating);
    }
    match ty {
        Type::F32 | Type::F64 => true,
        _ => false,
    }
}

/// The width of an integer type in bits; `None` for other types.
#[verifier::opaque]
pub open spec fn int_width(ty: TypeView) -> Option<u32> {
    match ty {
        TypeView::I8 | TypeView::U8 => Some(8),
        TypeView::I16 | TypeView::U16 => Some(16),
        TypeView::I32 | TypeView::U32 => Some(32),
        TypeView::I64 | TypeView::U64 | TypeView::Isize | TypeView::Usize => Some(64),
        _ => None,
    }
}

/// The width of an integer type in bits; `None` for other types.
pub fn int_type_width(ty: &Type) -> (r: Option<u32>)
    ensures
        r == int_width(ty@),
{
    proof {
        reveal(int_width);
    }
    match ty {
        Type::I8 | Type::U8 => Some(8),
        Type::I16 | Type::U16 => Some(16),
        Type::I32 | Type::U32 => Some(32),
        Type::I64 | Type::U64 | Type::Isize | Type::Usize => Some(64),
        _ => None,
    }
}

/// The width by which operands are ordered: `bool` counts as one bit, what is no integer as 32.
#[verifier::opaque]
pub open spec fn rank_width(ty: TypeView) -> u32 {
    match ty {
        TypeView::Bool => 1,
        _ => match int_width(ty) {
            Some(w) => w,
            None => 32,
        },
    }
}

/// The width by which operands are ordered.
pub fn type_width(ty: &Type) -> (r: u32)
    ensures
        r == rank_width(ty@),
{
    proof {
        reveal(rank_width);
    }
    match ty {
        Type::Bool => 1,
        _ => match int_type_width(ty) {
            Some(w) => w,
            None => 32,
        },
    }
}

/// The type with `Self` replaced, behind references, pointers, arrays and slices.
#[verifier::opaque]
pub open spec fn resolve_self(ty: TypeView, actual: TypeView) -> TypeView
    decreases ty,
{
    match ty {
        TypeView::SelfType => actual,
        TypeView::Ref { inner, is_mut } => TypeView::Ref {
            inner: Box::new(resolve_self(*inner, actual)),
            is_mut,
        },
        TypeView::Ptr { inner, is_mut } => TypeView::Ptr {
            inner: Box::new(resolve_self(*inner, actual)),
            is_mut,
        },
        TypeView::Array { inner, len } => TypeView::Array {
            inner: Box::new(resolve_self(*inner, actual)),
            len,
        },
        TypeView::GenericArray { inner, len_var } => TypeView::GenericArray {
            inner: Box::new(resolve_self(*inner, actual)),
            len_var,
        },
        TypeView::Slice { inner } => TypeView::Slice {
            inner: Box::new(resolve_self(*inner, actual)),
        },
        _ => ty,
    }
}

/// The type with `Self` replaced, behind references, pointers, arrays and slices.
pub fn resolve_type_self(ty: &Type, actual: &Type) -> (r: Type)
    ensures
        r@ == resolve_self(ty@, actual@),
    decreases ty,
{
    proof {
        reveal(resolve_self);
    }
    match ty {
        Type::SelfType => dup_type(actual),
        Type::Ref { inner, is_mut } => Type::Ref {
            inner: Box::new(resolve_type_self(inner, actual)),
            is_mut: *is_mut,
        },
        Type::Ptr { inner, is_mut } => Type::Ptr {
            inner: Box::new(resolve_type_self(inner, actual)),
            is_mut: *is_mut,
        },
        Type::Array { inner, len } => Type::Array {
            inner: Box::new(resolve_type_self(inner, actual)),
            len: *len,
        },
        Type::GenericArray { inner, len_var } => Type::GenericArray {
            inner: Box::new(resolve_type_self(inner, actual)),
            len_var: len_var.clone(),
        },
        Type::Slice { inner } => Type::Slice { inner: Box::new(resolve_type_self(inner, actual)) },
        _ => dup_type(ty),
    }
}

/// A parameter with its type replaced by `f` of it.
pub open spec fn map_params(
    ps: Seq<ParamView>,
    f: spec_fn(TypeView) -> TypeView,
) -> Seq<ParamView> {
    Seq::new(ps.len(), |i: int| ParamView { ty: f(ps[i].ty), ..ps[i] })
}

/// An optional type with `f` applied.
pub open spec fn map_type(
    ty: Option<TypeView>,
    f: spec_fn(TypeView) -> TypeView,
) -> Option<TypeView> {
    match ty {
        Some(t) => Some(f(t)),
        None => None,
    }
}

/// The function with `Self` replaced in its signature.
#[verifier::opaque]
pub open spec fn resolve_self_fn(f: FunctionView, actual: TypeView) -> FunctionView {
    FunctionView {
        params: map_params(f.params, |t: TypeView| resolve_self(t, actual)),
        return_type: map_type(f.return_type, |t: TypeView| resolve_self(t, actual)),
        ..f
    }
}

/// The function with its type parameters replaced in its signature.
#[verifier::opaque]
pub open spec fn subst_fn(f: FunctionView, ps: Seq<Seq<char>>, tys: Seq<TypeView>) -> FunctionView {
    FunctionView {
        params: map_params(f.params, |t: TypeView| subst_type(t, ps, tys)),
        return_type: map_type(f.return_type, |t: TypeView| subst_type(t, ps, tys)),
        ..f
    }
}

/// Resolve `Self` in the signature of a function.
pub fn resolve_self_type(f: &Function, actual: &Type) -> (r: Function)
    ensures
        r@ == resolve_self_fn(f@, actual@),
{
    proof {
        reveal(resolve_self_fn);
    }
    let mut params: Vec<Param> = Vec::new();
    let mut i: usize = 0;
    let ghost want = resolve_self_fn(f@, actual@);
    while i < f.params.len()
        invariant
            i <= f.params@.len(),
            params@.len() == i,
            want == resolve_self_fn(f@, actual@),
            forall|k: int| 0 <= k < i ==> param_view(#[trigger] params@[k]) == want.params[k],
        decreases f.params@.len() - i,
    {
        proof {
            reveal(resolve_self_fn);
        }
        let p = &f.params[i];
        params.push(
            Param { name: p.name.clone(), ty: resolve_type_self(&p.ty, actual), span: p.span },
        );
        i += 1;
    }
    let mut r = dup_function(f);
    r.params = params;
    r.return_type =
    match &f.return_type {
        Some(t) => Some(resolve_type_self(t, actual)),
        None => None,
    };
    proof {
        assert(param_seq_view(params@) =~= want.params);
    }
    r
}

/// Substitute type params in a function's param types and return type.
pub fn substitute_type_params_in_func(
    f: &Function,
    ps: &Vec<String>,
    tys: &Vec<Type>,
) -> (r: Function)
    ensures
        r@ == subst_fn(f@, texts(ps@), type_seq_view(tys@)),
{
    proof {
        reveal(subst_fn);
    }
    let mut params: Vec<Param> = Vec::new();
    let mut i: usize = 0;
    let ghost want = subst_fn(f@, texts(ps@), type_seq_view(tys@));
    while i < f.params.len()
        invariant
            i <= f.params@.len(),
            params@.len() == i,
            want == subst_fn(f@, texts(ps@), type_seq_view(tys@)),
            forall|k: int| 0 <= k < i ==> param_view(#[trigger] params@[k]) == want.params[k],
        decreases f.params@.len() - i,
    {
        proof {
            reveal(subst_fn);
        }
        let p = &f.params[i];
        params.push(
            Param {
                name: p.name.clone(),
                ty: substitute_type_params(&p.ty, ps, tys),
                span: p.span,
            },
        );
        i += 1;
    }
    let mut r = dup_function(f);
    r.params = params;
    r.return_type =
    match &f.return_type {
        Some(t) => Some(substitute_type_params(t, ps, tys)),
        None => None,
    };
    proof {
        assert(param_seq_view(params@) =~= want.params);
    }
    r
}

/// A method of a generic `impl`, for one instance: the parameters replaced in the signature and
/// the body, and `Self` in the signature.
#[verifier::opaque]
pub open spec fn instance_method(
    f: FunctionView,
    ps: Seq<Seq<char>>,
    tys: Seq<TypeView>,
    actual: TypeView,
) -> FunctionView {
    FunctionView {
        body: subst_block(f.body, ps, tys),
        ..resolve_self_fn(subst_fn(f, ps, tys), actual)
    }
}

/// Monomorphize a generic method by substituting type params and resolving SelfType.
pub fn monomorphize_method(f: &Function, ps: &Vec<String>, tys: &Vec<Type>, actual: &Type) -> (r:
    Function)
    ensures
        r@ == instance_method(f@, texts(ps@), type_seq_view(tys@), actual@),
{
    proof {
        reveal(instance_method);
    }
    let mut r = resolve_self_type(&substitute_type_params_in_func(f, ps, tys), actual);
    r.body = m_substitute_block(&f.body, ps, tys);
    r
}

/// Whether a function is generic: it has type parameters or a parameter of an `impl Trait` type.
#[verifier::opaque]
pub open spec fn generic_fn(f: FunctionView) -> bool {
    f.type_params.len() > 0 || exists|i: int| 0 <= i < f.params.len() && (
        #[trigger] f.params[i]
    ).ty is ImplTrait
}

/// Whether a function is generic.
pub fn has_impl_trait_param(f: &Function) -> (r: bool)
    ensures
        r == generic_fn(f@),
{
    proof {
        reveal(generic_fn);
    }
    if f.type_params.len() > 0 {
        return true;
    }
    let mut i: usize = 0;
    while i < f.params.len()
        invariant
            i <= f.params@.len(),
            forall|k: int| 0 <= k < i ==> !((#[trigger] f@.params[k]).ty is ImplTrait),
        decreases f.params@.len() - i,
    {
        proof {
            reveal(generic_fn);
        }
        match &f.params[i].ty {
            Type::ImplTrait(_) => {
                proof {
                    assert(f@.params[i as int].ty is ImplTrait);
                }
                return true;
            },
            _ => {},
        }
        i += 1;
    }
    false
}

/// The names of some generic parameters.
#[verifier::opaque]
pub open spec fn param_names(ps: Seq<GenericParamView>) -> Seq<Seq<char>> {
    Seq::new(ps.len(), |i: int| ps[i].name)
}

/// The names of some generic parameters.
pub fn names_of_params(ps: &Vec<GenericParam>) -> (r: Vec<String>)
    ensures
        texts(r@) == param_names(generic_param_seq_view(ps@)),
{
    proof {
        reveal(param_names);
    }
    let mut r: Vec<String> = Vec::new();
    let mut i: usize = 0;
    while i < ps.len()
        invariant
            i <= ps@.len(),
            r@.len() == i,
            forall|k: int| 0 <= k < i ==> (
                #[trigger] r@[k]
            )@ == generic_param_seq_view(ps@)[k].name,
        decreases ps@.len() - i,
    {
        proof {
            reveal(param_names);
        }
        r.push(ps[i].name.clone());
        i += 1;
    }
    proof {
        assert(texts(r@) =~= param_names(generic_param_seq_view(ps@)));
    }
    r
}

/// What is known of type parameters once a parameter of type `p` got an argument of type `a`.
#[verifier::opaque]
pub open spec fn infer(
    p: TypeView,
    a: TypeView,
    names: Seq<Seq<char>>,
    known: Map<Seq<char>, TypeView>,
) -> Map<Seq<char>, TypeView>
    decreases p,
{
    match (p, a) {
        (TypeView::Struct(name), _) => if position(names, name) is Some {
            known.insert(name, a)
        } else {
            known
        },
        (
            TypeView::Ref { inner: x, is_mut: m },
            TypeView::Ref { inner: y, is_mut: n },
        ) => if m == n {
            infer(*x, *y, names, known)
        } else {
            known
        },
        (
            TypeView::Ptr { inner: x, is_mut: m },
            TypeView::Ptr { inner: y, is_mut: n },
        ) => if m == n {
            infer(*x, *y, names, known)
        } else {
            known
        },
        (TypeView::Array { inner: x, .. }, TypeView::Array { inner: y, .. }) => infer(
            *x,
            *y,
            names,
            known,
        ),
        (TypeView::Slice { inner: x }, TypeView::Slice { inner: y }) => infer(*x, *y, names, known),
        (
            TypeView::GenericInstance(x, xs),
            TypeView::GenericInstance(y, ys),
        ) => if x == y && xs.len()
            == ys.len() {
            infer_all(xs, ys, names, known)
        } else {
            known
        },
        (TypeView::Tuple(xs), TypeView::Tuple(ys)) => if xs.len() == ys.len() {
            infer_all(xs, ys, names, known)
        } else {
            known
        },
        _ => known,
    }
}

/// The same over pairs of types, from the first on.
#[verifier::opaque]
pub open spec fn infer_all(
    ps: Seq<TypeView>,
    args: Seq<TypeView>,
    names: Seq<Seq<char>>,
    known: Map<Seq<char>, TypeView>,
) -> Map<Seq<char>, TypeView>
    decreases ps,
{
    if ps.len() == 0 || args.len() == 0 {
        known
    } else {
        infer(
            ps.last(),
            args[ps.len() - 1],
            names,
            infer_all(ps.drop_last(), args, names, known),
        )
    }
}

/// Learns of type parameters from one parameter and its argument.
pub fn infer_type_mappings(
    p: &Type,
    a: &Type,
    names: &Vec<String>,
    known: &mut Table<Type>,
)
    ensures
        final(known)@ == infer(p@, a@, texts(names@), old(known)@),
    decreases p,
{
    proof {
        reveal(infer);
        reveal(infer_all);
    }
    match (p, a) {
        (Type::Struct(name), _) => {
            if find_name(names, name).is_some() {
                known.insert(name.clone(), dup_type(a));
            }
        },
        (Type::Ref { inner: x, is_mut: m }, Type::Ref { inner: y, is_mut: n }) => {
            if *m == *n {
                infer_type_mappings(x, y, names, known);
            }
        },
        (Type::Ptr { inner: x, is_mut: m }, Type::Ptr { inner: y, is_mut: n }) => {
            if *m == *n {
                infer_type_mappings(x, y, names, known);
            }
        },
        (Type::Array { inner: x, .. }, Type::Array { inner: y, .. }) => {
            infer_type_mappings(x, y, names, known);
        },
        (Type::Slice { inner: x }, Type::Slice { inner: y }) => {
            infer_type_mappings(x, y, names, known);
        },
        (Type::GenericInstance(x, xs), Type::GenericInstance(y, ys)) => {
            proof {
                assert(type_seq_view(xs@).len() == xs@.len());
                assert(type_seq_view(ys@).len() == ys@.len());
            }
            if same(x, y) && xs.len() == ys.len() {
                infer_lists(xs, ys, names, known);
            }
        },
        (Type::Tuple(xs), Type::Tuple(ys)) => {
            proof {
                assert(type_seq_view(xs@).len() == xs@.len());
                assert(type_seq_view(ys@).len() == ys@.len());
            }
            if xs.len() == ys.len() {
                infer_lists(xs, ys, names, known);
            }
        },
        _ => {},
    }
}

fn infer_lists(xs: &Vec<Type>, ys: &Vec<Type>, names: &Vec<String>, known: &mut Table<Type>)
    requires
        xs@.len() == ys@.len(),
    ensures
        final(known)@ == infer_all(
            type_seq_view(xs@),
            type_seq_view(ys@),
            texts(names@),
            old(known)@,
        ),
    decreases xs,
{
    proof {
        reveal(infer);
        reveal(infer_all);
    }
    let ghost all = type_seq_view(xs@);
    let ghost args = type_seq_view(ys@);
    let mut i: usize = 0;
    while i < xs.len()
        invariant
            i <= xs@.len() == ys@.len(),
            all == type_seq_view(xs@),
            args == type_seq_view(ys@),
            known@ == infer_all(all.take(i as int), args, texts(names@), old(known)@),
        decreases xs@.len() - i,
    {
        proof {
            reveal(infer);
            reveal(infer_all);
        }
        proof {
            let t = all.take(i + 1);
            assert(t.drop_last() =~= all.take(i as int));
            assert(t.last() == all[i as int]);
        }
        infer_type_mappings(&xs[i], &ys[i], names, known);
        i += 1;
    }
    proof {
        assert(all.take(i as int) =~= all);
    }
}

/// The name of an element type in the key of an array type.
pub open spec fn element_name(ty: TypeView) -> Seq<char> {
    match primitive_name(ty) {
        Some(name) => name,
        None => match ty {
            TypeView::Struct(name) => name,
            TypeView::GenericInstance(name, args) => mangled(name, args),
            _ => type_text(ty),
        },
    }
}

/// The key under which the methods of an array type are found.
#[verifier::opaque]
pub open spec fn array_key(inner: TypeView, len: usize) -> Seq<char> {
    "array_"@ + element_name(inner) + "_"@ + decimal_text(len as nat)
}

/// Get the key used for looking up array methods in impl_methods.
pub fn array_type_key(inner: &Type, len: usize) -> (r: String)
    ensures
        r@ == array_key(inner@, len),
{
    proof {
        reveal(array_key);
    }
    let name = match primitive_type_name(inner) {
        Some(name) => name.to_owned(),
        None => match inner {
            Type::Struct(name) => name.clone(),
            Type::GenericInstance(name, args) => mangle_generic_instance(name, args),
            _ => show_type(inner),
        },
    };
    cat3("array_", &name, "_").concat(&show_usize(len))
}

} // verus!
