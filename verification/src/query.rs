//! What the declarations say of types: traits, copying, drop glue, and machine types.
use crate::ast::{TraitBound, Type};
use crate::builder::{fat_ptr, fat_ptr_type};
use crate::collect::{field_types, types_of_fields};
use crate::ir::{LTy, LTyView, l_ty_seq_view, l_ty_view};
use crate::model::{
    TraitBoundView, TypeView, struct_field_seq_view, trait_bound_seq_view, trait_bound_view,
    type_seq_view, type_view,
};
use crate::names::{mangle_generic_instance, mangled, show_type, type_text};
use crate::state::{CodeGen, CodegenError, Env, EnvView, ErrorView, State, err};
use crate::table::{Model, Names, has_segment, names_segment};
use crate::text::{cat, cat3, ends_with, has_suffix, same};
use crate::types::{array_key, array_type_key};
use vstd::prelude::*;

verus! {

/// Whether the type with the key `key` implements a trait.
#[verifier::opaque]
pub open spec fn key_implements(env: EnvView, key: Seq<char>, name: Seq<char>) -> bool {
    env.trait_impls.contains_key(key) && has_segment(env.trait_impls[key], name)
}

/// Whether one of the bounds is the trait `name`.
#[verifier::opaque]
pub open spec fn bounds_name(bounds: Seq<TraitBoundView>, name: Seq<char>) -> bool {
    exists|i: int| 0 <= i < bounds.len() && names_segment((#[trigger] bounds[i]).trait_name, name)
}

/// Whether a type implements a trait. The primitive types but `str` implement every trait; arrays
/// implement indexing and iteration.
#[verifier::opaque]
pub open spec fn implements(env: EnvView, ty: TypeView, name: Seq<char>) -> bool
    decreases ty,
{
    match ty {
        TypeView::Bool | TypeView::I8 | TypeView::I16 | TypeView::I32 | TypeView::I64
        | TypeView::U8 | TypeView::U16 | TypeView::U32 | TypeView::U64 | TypeView::Usize
        | TypeView::Isize | TypeView::F32 | TypeView::F64 => true,
        TypeView::Str => key_implements(env, "str"@, name),
        TypeView::Struct(key) => key_implements(env, key, name),
        TypeView::GenericInstance(base, args) => key_implements(env, mangled(base, args), name),
        TypeView::Ref { inner, .. } => implements(env, *inner, name),
        TypeView::Array { inner, len } => name == "Index"@ || name == "IndexMut"@ || name
            == "IntoIterator"@ || name == "IntoIteratorMut"@ || key_implements(
            env,
            array_key(*inner, len),
            name,
        ),
        TypeView::ImplTrait(bounds) => bounds_name(bounds, name),
        _ => false,
    }
}

/// Whether values of a type are copied where they are used.
#[verifier::opaque]
pub open spec fn copies(env: EnvView, ty: TypeView) -> bool
    decreases ty,
{
    match ty {
        TypeView::Bool | TypeView::I8 | TypeView::I16 | TypeView::I32 | TypeView::I64
        | TypeView::U8 | TypeView::U16 | TypeView::U32 | TypeView::U64 | TypeView::Usize
        | TypeView::Isize | TypeView::F32 | TypeView::F64 | TypeView::Unit | TypeView::Never => true,
        TypeView::Ref { .. } => true,
        TypeView::Ptr { .. } => true,
        TypeView::Tuple(elems) => all_copy(env, elems),
        TypeView::Struct(name) => env.copy_types.contains(name),
        TypeView::GenericInstance(name, args) => env.copy_types.contains(mangled(name, args)),
        TypeView::Array { inner, .. } => copies(env, *inner),
        _ => false,
    }
}

/// Whether values of all the types are copied where they are used.
#[verifier::opaque]
pub open spec fn all_copy(env: EnvView, tys: Seq<TypeView>) -> bool
    decreases tys,
{
    tys.len() == 0 || (all_copy(env, tys.drop_last()) && copies(env, tys.last()))
}

/// Whether a type needs drop glue, searching its fields; the second part is the set of the types
/// whose fields were searched, which are searched once only. The depth bounds how many structs
/// are nested.
#[verifier::opaque]
pub open spec fn glue(env: EnvView, depth: nat, ty: TypeView, seen: Set<Seq<char>>) -> (
    bool,
    Set<Seq<char>>,
)
    decreases depth, ty, 1int,
{
    match ty {
        TypeView::Struct(name) => named_glue(env, depth, name, seen, ty),
        TypeView::GenericInstance(name, args) => named_glue(
            env,
            depth,
            mangled(name, args),
            seen,
            ty,
        ),
        TypeView::Tuple(elems) => any_glue(env, depth, elems, seen),
        TypeView::Array { inner, .. } => glue(env, depth, *inner, seen),
        _ => (false, seen),
    }
}

/// The same for a struct by its name.
#[verifier::opaque]
pub open spec fn named_glue(
    env: EnvView,
    depth: nat,
    name: Seq<char>,
    seen: Set<Seq<char>>,
    ty: TypeView,
) -> (bool, Set<Seq<char>>)
    decreases depth, ty, 0int,
{
    if env.drop_types.contains(name) {
        (true, seen)
    } else if seen.contains(name) || depth == 0 {
        (false, seen)
    } else if env.struct_fields.contains_key(name) {
        any_glue(
            env,
            (depth - 1) as nat,
            field_types(env.struct_fields[name]),
            seen.insert(name),
        )
    } else {
        (false, seen.insert(name))
    }
}

/// Whether one of the types needs drop glue.
#[verifier::opaque]
pub open spec fn any_glue(env: EnvView, depth: nat, tys: Seq<TypeView>, seen: Set<Seq<char>>) -> (
    bool,
    Set<Seq<char>>,
)
    decreases depth, tys, 1int,
{
    if tys.len() == 0 {
        (false, seen)
    } else {
        let (found, seen1) = any_glue(env, depth, tys.drop_last(), seen);
        if found {
            (true, seen1)
        } else {
            glue(env, depth, tys.last(), seen1)
        }
    }
}

/// Whether a type needs drop glue: it implements `Drop` or holds something that does.
#[verifier::opaque]
pub open spec fn needs_drop(env: EnvView, ty: TypeView) -> bool {
    glue(env, usize::MAX as nat, ty, Set::empty()).0
}

/// The machine type of an array, if its elements can be in one.
pub open spec fn array_of(elem: LTyView, len: u32) -> Option<LTyView> {
    match elem {
        LTyView::Ptr => None,
        _ => Some(LTyView::Array(Box::new(elem), len)),
    }
}

/// The machine type of a type; `None` for types that are resolved before code is generated, and
/// for structs that were not declared.
#[verifier::opaque]
pub open spec fn machine_type(env: EnvView, ty: TypeView) -> Option<LTyView>
    decreases ty,
{
    match ty {
        TypeView::Bool => Some(LTyView::Int(1)),
        TypeView::I8 | TypeView::U8 => Some(LTyView::Int(8)),
        TypeView::I16 | TypeView::U16 => Some(LTyView::Int(16)),
        TypeView::I32 | TypeView::U32 => Some(LTyView::Int(32)),
        TypeView::I64 | TypeView::U64 | TypeView::Isize | TypeView::Usize => Some(LTyView::Int(64)),
        TypeView::F32 => Some(LTyView::F32),
        TypeView::F64 => Some(LTyView::F64),
        TypeView::Never | TypeView::Unit => Some(LTyView::Struct(Seq::empty())),
        TypeView::Tuple(elems) => match machine_types(env, elems) {
            Some(tys) => Some(LTyView::Struct(tys)),
            None => None,
        },
        TypeView::Str | TypeView::Slice { .. } => Some(fat_ptr()),
        TypeView::Ref { inner, .. } => match *inner {
            TypeView::Str | TypeView::Slice { .. } => Some(fat_ptr()),
            _ => Some(LTyView::Ptr),
        },
        TypeView::Ptr { .. } => Some(LTyView::Ptr),
        TypeView::Array { inner, len } => match machine_type(env, *inner) {
            Some(elem) => array_of(elem, len as u32),
            None => None,
        },
        TypeView::Struct(name) => if env.struct_types.contains(name) {
            Some(LTyView::Named(name))
        } else {
            None
        },
        TypeView::GenericInstance(name, args) => if env.struct_types.contains(mangled(name, args)) {
            Some(LTyView::Named(mangled(name, args)))
        } else if env.struct_types.contains(name) {
            Some(LTyView::Named(name))
        } else {
            None
        },
        _ => None,
    }
}

/// The machine types of some types, if all have one.
#[verifier::opaque]
pub open spec fn machine_types(env: EnvView, tys: Seq<TypeView>) -> Option<Seq<LTyView>>
    decreases tys,
{
    if tys.len() == 0 {
        Some(Seq::empty())
    } else {
        match machine_types(env, tys.drop_last()) {
            Some(done) => match machine_type(env, tys.last()) {
                Some(t) => Some(done.push(t)),
                None => None,
            },
            None => None,
        }
    }
}

/// The machine type of a type that has to have one.
#[verifier::opaque]
pub open spec fn lower_type(env: EnvView, ty: TypeView) -> Result<LTyView, ErrorView> {
    match machine_type(env, ty) {
        Some(t) => Ok(t),
        None => Err(err("internal: no machine type for "@ + type_text(ty))),
    }
}

/// The machine type of an array that has to have one.
#[verifier::opaque]
pub open spec fn lower_array(elem: LTyView, len: u32) -> Result<LTyView, ErrorView> {
    match array_of(elem, len) {
        Some(t) => Ok(t),
        None => Err(err("internal: unsupported array element type"@)),
    }
}

/// The name that a base name stands for: that of the instance being made, or of the last one.
#[verifier::opaque]
pub open spec fn actual_name(s: State, base: Seq<char>) -> Seq<char> {
    match s.env.current_mono {
        Some(m) => if m.0 == base {
            m.1
        } else {
            last_instance(s, base)
        },
        None => last_instance(s, base),
    }
}

/// The instance that was made last for a base name; the name itself, where there is none.
#[verifier::opaque]
pub open spec fn last_instance(s: State, base: Seq<char>) -> Seq<char> {
    if s.fun.mono_names.contains_key(base) {
        s.fun.mono_names[base]
    } else {
        base
    }
}

/// The machine type of an array, if its elements can be in one.
pub fn array_type(elem: &LTy, len: u32) -> (r: Result<LTy, CodegenError>)
    ensures
        r.model() == lower_array(elem@, len),
{
    proof {
        reveal(lower_array);
    }
    match elem {
        LTy::Ptr => Err(CodegenError::new("internal: unsupported array element type".to_owned())),
        _ => Ok(LTy::Array(Box::new(elem.clone()), len)),
    }
}

impl Env {
    /// Whether the type with the key `key` implements a trait.
    pub fn key_implements(&self, key: &str, name: &str) -> (r: bool)
        ensures
            r == key_implements(self@, key@, name@),
    {
        proof {
            reveal(key_implements);
        }
        match self.trait_impls.get(key) {
            Some(traits) => traits.contains_segment(name),
            None => false,
        }
    }

    /// Check if a type implements a given trait.
    pub fn check_type_implements_trait(&self, ty: &Type, name: &str) -> (r: bool)
        ensures
            r == implements(self@, ty@, name@),
        decreases ty,
    {
        proof {
            reveal(implements);
        }
        match ty {
            Type::Bool | Type::I8 | Type::I16 | Type::I32 | Type::I64 | Type::U8 | Type::U16
            | Type::U32 | Type::U64 | Type::Usize | Type::Isize | Type::F32 | Type::F64 => true,
            Type::Str => self.key_implements("str", name),
            Type::Struct(key) => self.key_implements(key, name),
            Type::GenericInstance(base, args) => self.key_implements(
                &mangle_generic_instance(base, args),
                name,
            ),
            Type::Ref { inner, .. } => self.check_type_implements_trait(inner, name),
            Type::Array { inner, len } => same(name, "Index") || same(name, "IndexMut") || same(
                name,
                "IntoIterator",
            ) || same(name, "IntoIteratorMut") || self.key_implements(
                &array_type_key(inner, *len),
                name,
            ),
            Type::ImplTrait(bounds) => any_bound_names(bounds, name),
            _ => false,
        }
    }

    /// Check if a type is Copy (primitives, unit, never, refs, raw pointers,
    /// tuples of Copy types, or explicitly marked as Copy via derive).
    pub fn is_copy_type(&self, ty: &Type) -> (r: bool)
        ensures
            r == copies(self@, ty@),
        decreases ty,
    {
        proof {
            reveal(all_copy);
            reveal(copies);
        }
        match ty {
            Type::Bool | Type::I8 | Type::I16 | Type::I32 | Type::I64 | Type::U8 | Type::U16
            | Type::U32 | Type::U64 | Type::Usize | Type::Isize | Type::F32 | Type::F64
            | Type::Unit | Type::Never => true,
            Type::Ref { .. } => true,
            Type::Ptr { .. } => true,
            Type::Tuple(elems) => self.are_copy_types(elems),
            Type::Struct(name) => self.copy_types.contains(name),
            Type::GenericInstance(name, args) => self.copy_types.contains(
                &mangle_generic_instance(name, args),
            ),
            Type::Array { inner, .. } => self.is_copy_type(inner),
            _ => false,
        }
    }

    fn are_copy_types(&self, tys: &Vec<Type>) -> (r: bool)
        ensures
            r == all_copy(self@, type_seq_view(tys@)),
        decreases tys,
    {
        proof {
            reveal(all_copy);
            reveal(copies);
        }
        let ghost all = type_seq_view(tys@);
        let mut i: usize = 0;
        while i < tys.len()
            invariant
                i <= tys@.len(),
                all == type_seq_view(tys@),
                all_copy(self@, all.take(i as int)),
            decreases tys@.len() - i,
        {
            proof {
                reveal(all_copy);
                reveal(copies);
            }
            proof {
                let t = all.take(i + 1);
                assert(t.drop_last() =~= all.take(i as int));
                assert(t.last() == type_view(tys@[i as int]));
            }
            if !self.is_copy_type(&tys[i]) {
                proof {
                    lemma_all_copy_prefix(self@, all, i + 1);
                }
                return false;
            }
            i += 1;
        }
        proof {
            assert(all.take(i as int) =~= all);
        }
        true
    }

    /// Check if a type needs drop glue (has a direct `impl Drop` or has
    /// fields whose types need drop glue). Uses a visited set for cycle
    /// detection (returns false if cycle is detected).
    pub fn has_drop_glue(&self, ty: &Type) -> (r: bool)
        ensures
            r == needs_drop(self@, ty@),
    {
        proof {
            reveal(needs_drop);
        }
        let mut seen = Names::new();
        self.has_drop_glue_inner(usize::MAX, ty, &mut seen)
    }

    fn has_drop_glue_inner(&self, depth: usize, ty: &Type, seen: &mut Names) -> (r: bool)
        ensures
            (r, final(seen)@) == glue(self@, depth as nat, ty@, old(seen)@),
        decreases depth, ty, 1int,
    {
        proof {
            reveal(any_glue);
            reveal(glue);
            reveal(named_glue);
        }
        match ty {
            Type::Struct(name) => self.named_drop_glue(depth, name, seen, ty),
            Type::GenericInstance(name, args) => {
                let key = mangle_generic_instance(name, args);
                self.named_drop_glue(depth, &key, seen, ty)
            },
            Type::Tuple(elems) => self.any_drop_glue(depth, elems, seen),
            Type::Array { inner, .. } => self.has_drop_glue_inner(depth, inner, seen),
            _ => false,
        }
    }

    fn named_drop_glue(&self, depth: usize, name: &str, seen: &mut Names, ty: &Type) -> (r: bool)
        ensures
            (r, final(seen)@) == named_glue(self@, depth as nat, name@, old(seen)@, ty@),
        decreases depth, ty, 0int,
    {
        proof {
            reveal(any_glue);
            reveal(glue);
            reveal(named_glue);
        }
        if self.drop_types.contains(name) {
            return true;
        }
        if seen.contains(name) || depth == 0 {
            return false;
        }
        seen.insert(name.to_owned());
        match self.struct_fields.get(name) {
            Some(fields) => {
                proof {
                    assert(fields.model() =~= struct_field_seq_view(fields@));
                }
                self.any_drop_glue(depth - 1, &types_of_fields(fields), seen)
            },
            None => false,
        }
    }

    fn any_drop_glue(&self, depth: usize, tys: &Vec<Type>, seen: &mut Names) -> (r: bool)
        ensures
            (r, final(seen)@) == any_glue(self@, depth as nat, type_seq_view(tys@), old(seen)@),
        decreases depth, tys, 1int,
    {
        proof {
            reveal(any_glue);
            reveal(glue);
            reveal(named_glue);
        }
        let ghost all = type_seq_view(tys@);
        let mut i: usize = 0;
        while i < tys.len()
            invariant
                i <= tys@.len(),
                all == type_seq_view(tys@),
                (false, seen@) == any_glue(self@, depth as nat, all.take(i as int), old(seen)@),
            decreases tys@.len() - i,
        {
            proof {
                reveal(any_glue);
                reveal(glue);
                reveal(named_glue);
            }
            proof {
                let t = all.take(i + 1);
                assert(t.drop_last() =~= all.take(i as int));
                assert(t.last() == type_view(tys@[i as int]));
            }
            if self.has_drop_glue_inner(depth, &tys[i], seen) {
                proof {
                    lemma_any_glue_found(self@, depth as nat, all, old(seen)@, i + 1);
                }
                return true;
            }
            i += 1;
        }
        proof {
            assert(all.take(i as int) =~= all);
        }
        false
    }

    /// The machine type of a type, if it has one.
    pub fn machine_type(&self, ty: &Type) -> (r: Option<LTy>)
        ensures
            r.model() == machine_type(self@, ty@),
        decreases ty,
    {
        proof {
            reveal(machine_type);
            reveal(machine_types);
        }
        reveal_with_fuel(type_view, 2);
        match ty {
            Type::Bool => Some(LTy::Int(1)),
            Type::I8 | Type::U8 => Some(LTy::Int(8)),
            Type::I16 | Type::U16 => Some(LTy::Int(16)),
            Type::I32 | Type::U32 => Some(LTy::Int(32)),
            Type::I64 | Type::U64 | Type::Isize | Type::Usize => Some(LTy::Int(64)),
            Type::F32 => Some(LTy::F32),
            Type::F64 => Some(LTy::F64),
            Type::Never | Type::Unit => {
                let v: Vec<LTy> = Vec::new();
                proof {
                    assert(l_ty_seq_view(v@) =~= Seq::empty());
                }
                Some(LTy::Struct(v))
            },
            Type::Tuple(elems) => match self.machine_types(elems) {
                Some(tys) => Some(LTy::Struct(tys)),
                None => None,
            },
            Type::Str | Type::Slice { .. } => Some(fat_ptr_type()),
            Type::Ref { inner, .. } => match &**inner {
                Type::Str | Type::Slice { .. } => Some(fat_ptr_type()),
                _ => Some(LTy::Ptr),
            },
            Type::Ptr { .. } => Some(LTy::Ptr),
            Type::Array { inner, len } => match self.machine_type(inner) {
                Some(elem) => match elem {
                    LTy::Ptr => None,
                    _ => Some(LTy::Array(Box::new(elem), *len as u32)),
                },
                None => None,
            },
            Type::Struct(name) => if self.struct_types.contains(name) {
                Some(LTy::Named(name.clone()))
            } else {
                None
            },
            Type::GenericInstance(name, args) => {
                let key = mangle_generic_instance(name, args);
                if self.struct_types.contains(&key) {
                    Some(LTy::Named(key))
                } else if self.struct_types.contains(name) {
                    Some(LTy::Named(name.clone()))
                } else {
                    None
                }
            },
            _ => None,
        }
    }

    fn machine_types(&self, tys: &Vec<Type>) -> (r: Option<Vec<LTy>>)
        ensures
            match r {
                Some(v) => machine_types(self@, type_seq_view(tys@)) == Some(l_ty_seq_view(v@)),
                None => machine_types(self@, type_seq_view(tys@)) is None,
            },
        decreases tys,
    {
        proof {
            reveal(machine_type);
            reveal(machine_types);
        }
        let ghost all = type_seq_view(tys@);
        let mut v: Vec<LTy> = Vec::new();
        let mut i: usize = 0;
        proof {
            assert(l_ty_seq_view(v@) =~= Seq::empty());
        }
        while i < tys.len()
            invariant
                i <= tys@.len(),
                all == type_seq_view(tys@),
                machine_types(self@, all.take(i as int)) == Some(l_ty_seq_view(v@)),
            decreases tys@.len() - i,
        {
            proof {
                reveal(machine_type);
                reveal(machine_types);
            }
            proof {
                let t = all.take(i + 1);
                assert(t.drop_last() =~= all.take(i as int));
                assert(t.last() == type_view(tys@[i as int]));
            }
            match self.machine_type(&tys[i]) {
                Some(t) => {
                    let ghost before = l_ty_seq_view(v@);
                    v.push(t);
                    proof {
                        assert(l_ty_seq_view(v@) =~= before.push(t@));
                    }
                },
                None => {
                    proof {
                        lemma_machine_types_fail(self@, all, i + 1);
                    }
                    return None;
                },
            }
            i += 1;
        }
        proof {
            assert(all.take(i as int) =~= all);
        }
        Some(v)
    }

    /// Convert a ulang type to its machine representation.
    ///
    /// Maps each `Type` variant to the corresponding machine type:
    /// - Primitives (Bool, I32, F64, etc.) map to integers and floats.
    /// - `Struct`/`GenericInstance` look up the named struct type.
    /// - `Ref` maps to a pointer type; references to `str`/`Slice` become `{ptr, i64}` fat
    /// pointers.
    /// - `Array` produces an array type.
    /// - `Tuple`/`Unit` produce struct types.
    /// - `Str`/`Slice` produce the `{ptr, i64}` fat pointer struct.
    pub fn type_to_llvm(&self, ty: &Type) -> (r: Result<LTy, CodegenError>)
        ensures
            r.model() == lower_type(self@, ty@),
    {
        proof {
            reveal(lower_type);
        }
        match self.machine_type(ty) {
            Some(t) => Ok(t),
            None => Err(
                CodegenError::new(cat("internal: no machine type for ", &show_type(ty))),
            ),
        }
    }
}

fn any_bound_names(bounds: &Vec<TraitBound>, name: &str) -> (r: bool)
    ensures
        r == bounds_name(trait_bound_seq_view(bounds@), name@),
{
    proof {
        reveal(bounds_name);
    }
    let tail = cat("::", name);
    let mut i: usize = 0;
    while i < bounds.len()
        invariant
            i <= bounds@.len(),
            tail@ == "::"@ + name@,
            forall|k: int|
                0 <= k < i ==> !names_segment(
                    (#[trigger] trait_bound_seq_view(bounds@)[k]).trait_name,
                    name@,
                ),
        decreases bounds@.len() - i,
    {
        proof {
            reveal(bounds_name);
        }
        if same(&bounds[i].trait_name, name) || has_suffix(&bounds[i].trait_name, &tail) {
            proof {
                assert(names_segment(trait_bound_seq_view(bounds@)[i as int].trait_name, name@));
            }
            return true;
        }
        i += 1;
    }
    false
}

/// Where all types copy, the first ones do.
proof fn lemma_all_copy_prefix(env: EnvView, tys: Seq<TypeView>, n: int)
    requires
        0 <= n <= tys.len(),
        !all_copy(env, tys.take(n)),
    ensures
        !all_copy(env, tys),
    decreases tys.len(),
{
    reveal(all_copy);
    reveal(copies);
    if n < tys.len() {
        assert(tys.drop_last().take(n) =~= tys.take(n));
        lemma_all_copy_prefix(env, tys.drop_last(), n);
    } else {
        assert(tys.take(n) =~= tys);
    }
}

/// Glue that was found among the first types is the glue of all.
proof fn lemma_any_glue_found(
    env: EnvView,
    depth: nat,
    tys: Seq<TypeView>,
    seen: Set<Seq<char>>,
    n: int,
)
    requires
        0 <= n <= tys.len(),
        any_glue(env, depth, tys.take(n), seen).0,
    ensures
        any_glue(env, depth, tys, seen) == any_glue(env, depth, tys.take(n), seen),
    decreases tys.len(),
{
    reveal(any_glue);
    reveal(glue);
    reveal(named_glue);
    if n < tys.len() {
        assert(tys.drop_last().take(n) =~= tys.take(n));
        lemma_any_glue_found(env, depth, tys.drop_last(), seen, n);
    } else {
        assert(tys.take(n) =~= tys);
    }
}

/// A type without a machine type among the first ones leaves all without.
proof fn lemma_machine_types_fail(env: EnvView, tys: Seq<TypeView>, n: int)
    requires
        0 <= n <= tys.len(),
        machine_types(env, tys.take(n)) is None,
    ensures
        machine_types(env, tys) is None,
    decreases tys.len(),
{
    reveal(machine_type);
    reveal(machine_types);
    if n < tys.len() {
        assert(tys.drop_last().take(n) =~= tys.take(n));
        lemma_machine_types_fail(env, tys.drop_last(), n);
    } else {
        assert(tys.take(n) =~= tys);
    }
}

impl CodeGen {
    /// The name that a base name stands for.
    pub fn resolve_mangled_name(&self, base: &str) -> (r: String)
        ensures
            r@ == actual_name(self@, base@),
    {
        proof {
            reveal(actual_name);
        }
        match &self.env.current_mono {
            Some(m) => {
                if same(&m.0, base) {
                    return m.1.clone();
                }
            },
            None => {},
        }
        self.last_instance(base)
    }

    /// The instance that was made last for a base name.
    pub fn last_instance(&self, base: &str) -> (r: String)
        ensures
            r@ == last_instance(self@, base@),
    {
        proof {
            reveal(last_instance);
        }
        match self.fun.mono_names.get(base) {
            Some(name) => name.clone(),
            None => base.to_owned(),
        }
    }
}

} // verus!
