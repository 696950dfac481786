//! Names: the text of types, the mangled names of instances and methods, and module paths.
use crate::ast::{TraitBound, Type};
use crate::model::{
    TraitBoundView, TypeView, trait_bound_seq_view, trait_bound_view, type_seq_view, type_view,
};
use crate::text::{
    before, cat, cat3, cut_at, decimal_text, drop_chars, find_char, has_prefix, has_upper_start,
    index_of, join, join_texts, path_segments, quoted, show_quoted, show_usize, split_path,
    starts_upper, starts_with, texts, to_chars,
};
use vstd::prelude::*;

verus! {

/// The names of the primitive types.
#[verifier::opaque]
pub open spec fn primitive_name(ty: TypeView) -> Option<Seq<char>> {
    match ty {
        TypeView::Bool => Some("bool"@),
        TypeView::I8 => Some("i8"@),
        TypeView::I16 => Some("i16"@),
        TypeView::I32 => Some("i32"@),
        TypeView::I64 => Some("i64"@),
        TypeView::U8 => Some("u8"@),
        TypeView::U16 => Some("u16"@),
        TypeView::U32 => Some("u32"@),
        TypeView::U64 => Some("u64"@),
        TypeView::Usize => Some("usize"@),
        TypeView::Isize => Some("isize"@),
        TypeView::F32 => Some("f32"@),
        TypeView::F64 => Some("f64"@),
        TypeView::Str => Some("str"@),
        _ => None,
    }
}

/// The name of `ty`, where it is a primitive type.
pub fn primitive_type_name(ty: &Type) -> (r: Option<&'static str>)
    ensures
        match r {
            Some(s) => primitive_name(ty@) == Some(s@),
            None => primitive_name(ty@) is None,
        },
{
    proof {
        reveal(primitive_name);
    }
    match ty {
        Type::Bool => Some("bool"),
        Type::I8 => Some("i8"),
        Type::I16 => Some("i16"),
        Type::I32 => Some("i32"),
        Type::I64 => Some("i64"),
        Type::U8 => Some("u8"),
        Type::U16 => Some("u16"),
        Type::U32 => Some("u32"),
        Type::U64 => Some("u64"),
        Type::Usize => Some("usize"),
        Type::Isize => Some("isize"),
        Type::F32 => Some("f32"),
        Type::F64 => Some("f64"),
        Type::Str => Some("str"),
        _ => None,
    }
}

/// `true` or `false`.
#[verifier::opaque]
pub open spec fn bool_text(b: bool) -> Seq<char> {
    if b {
        "true"@
    } else {
        "false"@
    }
}

/// `true` or `false`.
pub fn show_bool(b: bool) -> (r: &'static str)
    ensures
        r@ == bool_text(b),
{
    proof {
        reveal(bool_text);
    }
    if b {
        "true"
    } else {
        "false"
    }
}

/// The `Debug` text of a type.
#[verifier::opaque]
pub open spec fn type_text(ty: TypeView) -> Seq<char>
    decreases ty,
{
    match ty {
        TypeView::I8 => "I8"@,
        TypeView::I16 => "I16"@,
        TypeView::I32 => "I32"@,
        TypeView::I64 => "I64"@,
        TypeView::U8 => "U8"@,
        TypeView::U16 => "U16"@,
        TypeView::U32 => "U32"@,
        TypeView::U64 => "U64"@,
        TypeView::Usize => "Usize"@,
        TypeView::Isize => "Isize"@,
        TypeView::F32 => "F32"@,
        TypeView::F64 => "F64"@,
        TypeView::Bool => "Bool"@,
        TypeView::Never => "Never"@,
        TypeView::Tuple(elems) => "Tuple(["@ + join(type_texts(elems), ", "@) + "])"@,
        TypeView::Unit => "Unit"@,
        TypeView::Str => "Str"@,
        TypeView::Ptr { inner, is_mut } => "Ptr { inner: "@ + type_text(*inner) + ", is_mut: "@
            + bool_text(is_mut) + " }"@,
        TypeView::Ref { inner, is_mut } => "Ref { inner: "@ + type_text(*inner) + ", is_mut: "@
            + bool_text(is_mut) + " }"@,
        TypeView::Array { inner, len } => "Array { inner: "@ + type_text(*inner) + ", len: "@
            + decimal_text(len as nat) + " }"@,
        TypeView::GenericArray { inner, len_var } => "GenericArray { inner: "@ + type_text(*inner)
            + ", len_var: "@ + quoted(len_var) + " }"@,
        TypeView::Slice { inner } => "Slice { inner: "@ + type_text(*inner) + " }"@,
        TypeView::Struct(name) => "Struct("@ + quoted(name) + ")"@,
        TypeView::GenericInstance(name, args) => "GenericInstance("@ + quoted(name) + ", ["@ + join(
            type_texts(args),
            ", "@,
        ) + "])"@,
        TypeView::Alias(name, args) => "Alias("@ + quoted(name) + ", ["@ + join(
            type_texts(args),
            ", "@,
        ) + "])"@,
        TypeView::SelfType => "SelfType"@,
        TypeView::Infer => "Infer"@,
        TypeView::ImplTrait(bounds) => "ImplTrait(["@ + join(bound_texts(bounds), ", "@) + "])"@,
    }
}

/// The `Debug` texts of some types.
#[verifier::opaque]
pub open spec fn type_texts(tys: Seq<TypeView>) -> Seq<Seq<char>>
    decreases tys,
{
    Seq::new(
        tys.len(),
        |i: int|
            if 0 <= i < tys.len() {
                type_text(tys[i])
            } else {
                arbitrary()
            },
    )
}

/// The `Debug` text of a trait bound.
#[verifier::opaque]
pub open spec fn bound_text(b: TraitBoundView) -> Seq<char>
    decreases b,
{
    "TraitBound { trait_name: "@ + quoted(b.trait_name) + ", generic_args: ["@ + join(
        type_texts(b.generic_args),
        ", "@,
    ) + "] }"@
}

/// The `Debug` texts of some trait bounds.
#[verifier::opaque]
pub open spec fn bound_texts(bs: Seq<TraitBoundView>) -> Seq<Seq<char>>
    decreases bs,
{
    Seq::new(
        bs.len(),
        |i: int|
            if 0 <= i < bs.len() {
                bound_text(bs[i])
            } else {
                arbitrary()
            },
    )
}

/// The `Debug` text of a type.
pub fn show_type(ty: &Type) -> (r: String)
    ensures
        r@ == type_text(ty@),
    decreases ty,
{
    proof {
        reveal(bound_text);
        reveal(bound_texts);
        reveal(type_text);
        reveal(type_texts);
    }
    match ty {
        Type::I8 => "I8".to_owned(),
        Type::I16 => "I16".to_owned(),
        Type::I32 => "I32".to_owned(),
        Type::I64 => "I64".to_owned(),
        Type::U8 => "U8".to_owned(),
        Type::U16 => "U16".to_owned(),
        Type::U32 => "U32".to_owned(),
        Type::U64 => "U64".to_owned(),
        Type::Usize => "Usize".to_owned(),
        Type::Isize => "Isize".to_owned(),
        Type::F32 => "F32".to_owned(),
        Type::F64 => "F64".to_owned(),
        Type::Bool => "Bool".to_owned(),
        Type::Never => "Never".to_owned(),
        Type::Tuple(elems) => cat3("Tuple([", &join_texts(&show_types(elems), ", "), "])"),
        Type::Unit => "Unit".to_owned(),
        Type::Str => "Str".to_owned(),
        Type::Ptr { inner, is_mut } => cat3(
            "Ptr { inner: ",
            &show_type(inner),
            ", is_mut: ",
        ).concat(
            show_bool(*is_mut),
        ).concat(" }"),
        Type::Ref { inner, is_mut } => cat3(
            "Ref { inner: ",
            &show_type(inner),
            ", is_mut: ",
        ).concat(
            show_bool(*is_mut),
        ).concat(" }"),
        Type::Array { inner, len } => cat3("Array { inner: ", &show_type(inner), ", len: ").concat(
            &show_usize(*len),
        ).concat(" }"),
        Type::GenericArray { inner, len_var } => cat3(
            "GenericArray { inner: ",
            &show_type(inner),
            ", len_var: ",
        ).concat(&show_quoted(len_var)).concat(" }"),
        Type::Slice { inner } => cat3("Slice { inner: ", &show_type(inner), " }"),
        Type::Struct(name) => cat3("Struct(", &show_quoted(name), ")"),
        Type::GenericInstance(name, args) => cat3(
            "GenericInstance(",
            &show_quoted(name),
            ", [",
        ).concat(
            &join_texts(&show_types(args), ", "),
        ).concat("])"),
        Type::Alias(name, args) => cat3("Alias(", &show_quoted(name), ", [").concat(
            &join_texts(&show_types(args), ", "),
        ).concat("])"),
        Type::SelfType => "SelfType".to_owned(),
        Type::Infer => "Infer".to_owned(),
        Type::ImplTrait(bounds) => cat3(
            "ImplTrait([",
            &join_texts(&show_bounds(bounds), ", "),
            "])",
        ),
    }
}

/// The `Debug` texts of some types.
pub fn show_types(tys: &Vec<Type>) -> (r: Vec<String>)
    ensures
        texts(r@) == type_texts(type_seq_view(tys@)),
    decreases tys,
{
    proof {
        reveal(bound_text);
        reveal(bound_texts);
        reveal(type_text);
        reveal(type_texts);
    }
    let mut r: Vec<String> = Vec::new();
    let mut i: usize = 0;
    while i < tys.len()
        invariant
            i <= tys@.len(),
            r@.len() == i,
            forall|k: int| 0 <= k < i ==> (#[trigger] r@[k])@ == type_text(type_view(tys@[k])),
        decreases tys@.len() - i,
    {
        proof {
            reveal(bound_text);
            reveal(bound_texts);
            reveal(type_text);
            reveal(type_texts);
        }
        r.push(show_type(&tys[i]));
        i += 1;
    }
    proof {
        assert(texts(r@) =~= type_texts(type_seq_view(tys@)));
    }
    r
}

fn show_bounds(bs: &Vec<TraitBound>) -> (r: Vec<String>)
    ensures
        texts(r@) == bound_texts(trait_bound_seq_view(bs@)),
    decreases bs,
{
    proof {
        reveal(bound_text);
        reveal(bound_texts);
        reveal(type_text);
        reveal(type_texts);
    }
    let mut r: Vec<String> = Vec::new();
    let mut i: usize = 0;
    while i < bs.len()
        invariant
            i <= bs@.len(),
            r@.len() == i,
            forall|k: int| 0 <= k < i ==> (#[trigger] r@[k])@ == bound_text(
                trait_bound_view(bs@[k]),
            ),
        decreases bs@.len() - i,
    {
        proof {
            reveal(bound_text);
            reveal(bound_texts);
            reveal(type_text);
            reveal(type_texts);
        }
        r.push(show_bound(&bs[i]));
        i += 1;
    }
    proof {
        assert(texts(r@) =~= bound_texts(trait_bound_seq_view(bs@)));
    }
    r
}

fn show_bound(b: &TraitBound) -> (r: String)
    ensures
        r@ == bound_text(trait_bound_view(*b)),
    decreases b,
{
    proof {
        reveal(bound_text);
        reveal(bound_texts);
        reveal(type_text);
        reveal(type_texts);
    }
    cat3("TraitBound { trait_name: ", &show_quoted(&b.trait_name), ", generic_args: [").concat(
        &join_texts(&show_types(&b.generic_args), ", "),
    ).concat("] }")
}

/// The mangled name of the instance of `base` for `args`: `Base__Arg1_Arg2_...`.
#[verifier::opaque]
pub open spec fn mangled(base: Seq<char>, args: Seq<TypeView>) -> Seq<char>
    decreases args, 1int,
{
    base + "__"@ + join(mangled_args(args), "_"@)
}

/// The parts of a mangled name that stand for the arguments.
#[verifier::opaque]
pub open spec fn mangled_args(args: Seq<TypeView>) -> Seq<Seq<char>>
    decreases args, 0int,
{
    Seq::new(
        args.len(),
        |i: int|
            if 0 <= i < args.len() {
                mangled_arg(args[i])
            } else {
                arbitrary()
            },
    )
}

/// The part of a mangled name that stands for one argument.
#[verifier::opaque]
pub open spec fn mangled_arg(a: TypeView) -> Seq<char>
    decreases a, 0int,
{
    match primitive_name(a) {
        Some(name) => name,
        None => match a {
            TypeView::Struct(name) => name,
            TypeView::GenericInstance(name, args) => mangled(name, args),
            TypeView::Ref { inner, .. } => "ref_"@ + mangled_inner(*inner),
            TypeView::Ptr { inner, .. } => "ptr_"@ + mangled_inner(*inner),
            TypeView::Array { inner, len } => "array_"@ + mangled_inner(*inner) + "_"@
                + decimal_text(len as nat),
            _ => type_text(a),
        },
    }
}

/// What a mangled name holds of the target of a reference or the element of an array.
#[verifier::opaque]
pub open spec fn mangled_inner(a: TypeView) -> Seq<char>
    decreases a, 0int,
{
    match primitive_name(a) {
        Some(name) => name,
        None => match a {
            TypeView::Struct(name) => name,
            TypeView::GenericInstance(name, args) => mangled(name, args),
            TypeView::Array { inner, len } => "array_"@ + mangled_inner(*inner) + "_"@
                + decimal_text(len as nat),
            _ => type_text(a),
        },
    }
}

/// Mangle a generic instance name: BaseName__Arg1_Arg2_...
pub fn mangle_generic_instance(base: &str, args: &Vec<Type>) -> (r: String)
    ensures
        r@ == mangled(base@, type_seq_view(args@)),
    decreases args,
{
    proof {
        reveal(mangled);
        reveal(mangled_arg);
        reveal(mangled_args);
        reveal(mangled_inner);
    }
    let mut parts: Vec<String> = Vec::new();
    let mut i: usize = 0;
    while i < args.len()
        invariant
            i <= args@.len(),
            parts@.len() == i,
            forall|k: int| 0 <= k < i ==> (
                #[trigger] parts@[k]
            )@ == mangled_arg(type_view(args@[k])),
        decreases args@.len() - i,
    {
        proof {
            reveal(mangled);
            reveal(mangled_arg);
            reveal(mangled_args);
            reveal(mangled_inner);
        }
        parts.push(mangle_arg(&args[i]));
        i += 1;
    }
    proof {
        assert(texts(parts@) =~= mangled_args(type_seq_view(args@)));
    }
    cat3(base, "__", &join_texts(&parts, "_"))
}

fn mangle_arg(a: &Type) -> (r: String)
    ensures
        r@ == mangled_arg(a@),
    decreases a,
{
    proof {
        reveal(mangled);
        reveal(mangled_arg);
        reveal(mangled_args);
        reveal(mangled_inner);
    }
    match primitive_type_name(a) {
        Some(name) => name.to_owned(),
        None => match a {
            Type::Struct(name) => name.clone(),
            Type::GenericInstance(name, args) => mangle_generic_instance(name, args),
            Type::Ref { inner, .. } => cat("ref_", &mangle_generic_instance_inner(inner)),
            Type::Ptr { inner, .. } => cat("ptr_", &mangle_generic_instance_inner(inner)),
            Type::Array { inner, len } => cat3(
                "array_",
                &mangle_generic_instance_inner(inner),
                "_",
            ).concat(&show_usize(*len)),
            _ => show_type(a),
        },
    }
}

/// What a mangled name holds of the target of a reference or the element of an array.
pub fn mangle_generic_instance_inner(a: &Type) -> (r: String)
    ensures
        r@ == mangled_inner(a@),
    decreases a,
{
    proof {
        reveal(mangled);
        reveal(mangled_arg);
        reveal(mangled_args);
        reveal(mangled_inner);
    }
    match primitive_type_name(a) {
        Some(name) => name.to_owned(),
        None => match a {
            Type::Struct(name) => name.clone(),
            Type::GenericInstance(name, args) => mangle_generic_instance(name, args),
            Type::Array { inner, len } => cat3(
                "array_",
                &mangle_generic_instance_inner(inner),
                "_",
            ).concat(&show_usize(*len)),
            _ => show_type(a),
        },
    }
}

/// The key under which the methods of a type are found; `None` for types that have no methods.
#[verifier::opaque]
pub open spec fn type_key(ty: TypeView) -> Option<Seq<char>>
    decreases ty,
{
    match primitive_name(ty) {
        Some(name) => Some(name),
        None => match ty {
            TypeView::Slice { inner } => match type_key(*inner) {
                Some(k) => Some("slice_"@ + k),
                None => None,
            },
            TypeView::Ptr { inner, is_mut } => match type_key(*inner) {
                Some(k) => Some(
                    "ptr_"@ + (if is_mut {
                        "mut"@
                    } else {
                        "const"@
                    }) + "_"@ + k,
                ),
                None => None,
            },
            TypeView::Struct(name) => Some(name),
            TypeView::GenericInstance(name, args) => Some(mangled(name, args)),
            TypeView::Ref { inner, .. } => type_key(*inner),
            TypeView::Array { inner, len } => match type_key(*inner) {
                Some(k) => Some("array_"@ + k + "_"@ + decimal_text(len as nat)),
                None => None,
            },
            _ => None,
        },
    }
}

/// Convert a type to a string key for trait method lookup and debugging.
/// Primitives use their name ("i32", "bool"); structs use their declared
/// name; generic instances use their mangled name.
pub fn type_to_mangled_name(ty: &Type) -> (r: String)
    requires
        type_key(ty@) is Some,
    ensures
        Some(r@) == type_key(ty@),
    decreases ty,
{
    proof {
        reveal(type_key);
    }
    match primitive_type_name(ty) {
        Some(name) => name.to_owned(),
        None => match ty {
            Type::Slice { inner } => cat("slice_", &type_to_mangled_name(inner)),
            Type::Ptr { inner, is_mut } => cat3(
                "ptr_",
                if *is_mut {
                    "mut"
                } else {
                    "const"
                },
                "_",
            ).concat(&type_to_mangled_name(inner)),
            Type::Struct(name) => name.clone(),
            Type::GenericInstance(name, args) => mangle_generic_instance(name, args),
            Type::Ref { inner, .. } => type_to_mangled_name(inner),
            Type::Array { inner, len } => cat3("array_", &type_to_mangled_name(inner), "_").concat(
                &show_usize(*len),
            ),
            _ => String::new(),
        },
    }
}

/// Whether a type has a method key.
pub fn has_type_key(ty: &Type) -> (r: bool)
    ensures
        r == (type_key(ty@) is Some),
    decreases ty,
{
    proof {
        reveal(type_key);
    }
    match primitive_type_name(ty) {
        Some(_) => true,
        None => match ty {
            Type::Slice { inner } => has_type_key(inner),
            Type::Ptr { inner, .. } => has_type_key(inner),
            Type::Struct(_) => true,
            Type::GenericInstance(_, _) => true,
            Type::Ref { inner, .. } => has_type_key(inner),
            Type::Array { inner, .. } => has_type_key(inner),
            _ => false,
        },
    }
}

/// The name of the function that implements a method of a built-in trait.
#[verifier::opaque]
pub open spec fn builtin_name(
    trait_name: Seq<char>,
    method: Seq<char>,
    key: Seq<char>,
) -> Seq<char> {
    "__builtin_"@ + trait_name + "_"@ + method + "_"@ + key
}

/// Get the mangled function name for a trait method on a given type.
pub fn trait_method_name(ty: &Type, trait_name: &str, method_name: &str) -> (r: String)
    requires
        type_key(ty@) is Some,
    ensures
        r@ == builtin_name(trait_name@, method_name@, type_key(ty@)->0),
{
    proof {
        reveal(builtin_name);
        reveal(type_key);
    }
    cat3("__builtin_", trait_name, "_").concat(method_name).concat("_").concat(
        &type_to_mangled_name(ty),
    )
}

/// Whether `ty` is a type parameter: a name of one upper-case letter.
#[verifier::opaque]
pub open spec fn type_param(ty: TypeView) -> bool {
    match ty {
        TypeView::Struct(name) => name.len() == 1 && (name[0] as u32) < 0x80 && starts_upper(name),
        _ => false,
    }
}

/// Check if a type is a type parameter (single uppercase letter name).
pub fn is_type_param(ty: &Type) -> (r: bool)
    ensures
        r == type_param(ty@),
{
    proof {
        reveal(type_param);
    }
    match ty {
        Type::Struct(name) => {
            let a = to_chars(name);
            a.len() == 1 && (a[0] as u32) < 0x80 && has_upper_start(name)
        },
        _ => false,
    }
}

/// The name of the type in the name of a trait method, `__trait_TraitName_method_TypeName`: what
/// stands behind the trait and the method. The method may hold underscores, so that the name of the
/// type starts behind the last one in front of its first `::`. Other names stay as they are.
pub open spec fn without_trait_prefix(name: Seq<char>) -> Seq<char> {
    let prefix = "__trait_"@;
    if starts_with(name, prefix) {
        let rest = name.skip(prefix.len() as int);
        let tail = rest.skip(step_over(rest, index_of(rest, '_', 0)));
        let j = last_of_char(tail, '_', path_start(tail, 0));
        if j >= 0 {
            tail.skip(j + 1)
        } else {
            name
        }
    } else {
        name
    }
}

/// The index behind `i`, or the end of the text.
pub open spec fn step_over(s: Seq<char>, i: int) -> int {
    if i < s.len() {
        i + 1
    } else {
        s.len() as int
    }
}

/// The first index from `from` on at which `::` stands, or the length.
pub open spec fn path_start(s: Seq<char>, from: int) -> int
    decreases s.len() - from,
{
    if from + 1 < s.len() {
        if s[from] == ':' && s[from + 1] == ':' {
            from
        } else {
            path_start(s, from + 1)
        }
    } else {
        s.len() as int
    }
}

/// The last index below `end` at which `c` stands, or -1.
pub open spec fn last_of_char(s: Seq<char>, c: char, end: int) -> int
    decreases end,
{
    if end <= 0 {
        -1
    } else if s[end - 1] == c {
        end - 1
    } else {
        last_of_char(s, c, end - 1)
    }
}

/// The first index at which `::` stands, or the length.
fn find_path(s: &Vec<char>) -> (r: usize)
    ensures
        r == path_start(s@, 0),
        r <= s@.len(),
{
    let n: usize = s.len();
    let mut i: usize = 0;
    while i < n && i + 1 < n
        invariant
            n == s@.len(),
            i <= n,
            path_start(s@, i as int) == path_start(s@, 0),
        decreases n - i,
    {
        if s[i] == ':' && s[i + 1] == ':' {
            return i;
        }
        i += 1;
    }
    n
}

/// The index behind the last `c` below `end`, or zero.
fn behind_last(s: &Vec<char>, c: char, end: usize) -> (r: usize)
    requires
        end <= s@.len(),
    ensures
        r == last_of_char(s@, c, end as int) + 1,
        r <= end,
{
    let mut i: usize = end;
    while i > 0 && s[i - 1] != c
        invariant
            i <= end <= s@.len(),
            last_of_char(s@, c, i as int) == last_of_char(s@, c, end as int),
        decreases i,
    {
        i -= 1;
    }
    i
}

/// The index of the first segment that starts with an upper-case letter, or the count.
pub open spec fn first_upper(segs: Seq<Seq<char>>, from: int) -> int
    decreases segs.len() - from,
{
    if 0 <= from < segs.len() && !starts_upper(segs[from]) {
        first_upper(segs, from + 1)
    } else {
        from
    }
}

/// The segments of an item name, the last one without what a mangled name adds to it.
pub open spec fn item_segments(name: Seq<char>) -> Seq<Seq<char>> {
    let segs = split_path(without_trait_prefix(name));
    segs.drop_last().push(before(before(segs.last(), '/'), '$'))
}

/// The path of the module in which an item of that name stands.
#[verifier::opaque]
pub open spec fn item_module(name: Seq<char>) -> Seq<Seq<char>> {
    let segs = item_segments(name);
    let i = first_upper(segs, 0);
    if i < segs.len() {
        segs.take(i)
    } else {
        segs.drop_last()
    }
}

/// Extract the module path segments from a fully qualified item name.
///
/// Strips trait prefixes (`__trait_...` mangling), splits on `::`,
/// and truncates at the first uppercase segment (the type name).
/// Used by visibility checks to determine if a caller is in a descendant module.
pub fn get_module_path_for_item_name(name: &str) -> (r: Vec<String>)
    ensures
        texts(r@) == item_module(name@),
{
    proof {
        reveal(item_module);
    }
    let mut clean = name.to_owned();
    if has_prefix(name, "__trait_") {
        proof {
            reveal_strlit("__trait_");
        }
        let rest = drop_chars(name, 8);
        let chars = to_chars(&rest);
        let i: usize = find_char(&chars, '_', 0);
        let tail = drop_chars(&rest, if i < chars.len() { i + 1 } else { i });
        let letters = to_chars(&tail);
        let j: usize = behind_last(&letters, '_', find_path(&letters));
        if j > 0 {
            clean = drop_chars(&tail, j);
        }
    }
    let mut segs = path_segments(&clean);
    let ghost all = split_path(without_trait_prefix(name@));
    proof {
        assert(texts(segs@) == all);
        assert(all.len() > 0);
    }
    let n: usize = segs.len() - 1;
    let last = cut_at(&cut_at(&segs[n], '/'), '$');
    segs.set(n, last);
    let ghost parts = item_segments(name@);
    proof {
        assert(texts(segs@) =~= parts);
    }
    let mut i: usize = 0;
    while i < segs.len() && !has_upper_start(&segs[i])
        invariant
            i <= segs@.len(),
            texts(segs@) == parts,
            first_upper(parts, 0) == first_upper(parts, i as int),
        decreases segs@.len() - i,
    {
        proof {
            reveal(item_module);
        }
        i += 1;
    }
    if i < segs.len() {
        segs.truncate(i);
        proof {
            assert(texts(segs@) =~= parts.take(i as int));
        }
    } else {
        segs.truncate(n);
        proof {
            assert(texts(segs@) =~= parts.drop_last());
        }
    }
    segs
}

} // verus!
