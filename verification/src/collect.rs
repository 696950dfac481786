//! Which instances of generic types a program names.
use crate::ast::{
    AssociatedConst, Block, EnumDecl, EnumVariant, Expr, Function, ImplDecl, MatchArm, Param,
    Program, Stmt, StructDecl, StructField, TraitConst, TraitDecl, TraitMethodDef, Type,
    TypeAliasDecl,
};
use crate::literal::{concrete, is_concrete_type, lit_type, literal_type};
use crate::model::{
    AssociatedConstView, BlockView, EnumDeclView, EnumVariantView, ExprView, FunctionView,
    ImplDeclView, MatchArmView, ParamView, ProgramView, StmtView, StructDeclView, StructFieldView,
    TraitConstView, TraitDeclView, TraitMethodDefView, TypeAliasDeclView, TypeView,
    associated_const_seq_view, dup_type, dup_type_seq, enum_decl_seq_view, enum_decl_view,
    enum_variant_seq_view, expr_block_seq_view, expr_seq_view, function_seq_view,
    impl_decl_seq_view, match_arm_seq_view, param_seq_view, stmt_seq_view, string_expr_seq_view,
    struct_decl_seq_view, struct_field_seq_view, trait_const_seq_view, trait_decl_seq_view,
    trait_method_def_seq_view, type_alias_decl_seq_view, type_seq_view, type_view,
};
use crate::names::{is_type_param, mangle_generic_instance, mangled, type_param};
use crate::table::Names;
use crate::text::same;
use vstd::prelude::*;

verus! {

/// Lists one after the other can be grouped either way.
pub broadcast proof fn lemma_cat_assoc<A>(a: Seq<A>, b: Seq<A>, c: Seq<A>)
    ensures
        #[trigger] ((a + b) + c) == a + (b + c),
{
    assert((a + b) + c =~= a + (b + c));
}

/// Nothing behind a list leaves it as it is.
pub broadcast proof fn lemma_cat_empty<A>(a: Seq<A>)
    ensures
        #[trigger] (a + Seq::<A>::empty()) == a,
{
    assert(a + Seq::<A>::empty() =~= a);
}

/// How lists are joined.
pub broadcast group group_cat {
    lemma_cat_assoc,
    lemma_cat_empty,
}

/// What a list of instances is: base names with their arguments.
pub open spec fn instances(s: Seq<(String, Vec<Type>)>) -> Seq<(Seq<char>, Seq<TypeView>)> {
    Seq::new(s.len(), |i: int| (s[i].0@, type_seq_view(s[i].1@)))
}

/// Whether a type still holds a type parameter, or stands for the type around it, at any depth.
pub open spec fn unresolved(ty: TypeView) -> bool
    decreases ty,
{
    match ty {
        TypeView::Struct(_) => type_param(ty),
        TypeView::SelfType => true,
        TypeView::GenericInstance(_, args) => any_unresolved(args),
        TypeView::Alias(_, args) => any_unresolved(args),
        TypeView::Tuple(elems) => any_unresolved(elems),
        TypeView::Ref { inner, .. } => unresolved(*inner),
        TypeView::Ptr { inner, .. } => unresolved(*inner),
        TypeView::Array { inner, .. } => unresolved(*inner),
        TypeView::GenericArray { .. } => true,
        TypeView::Slice { inner } => unresolved(*inner),
        _ => false,
    }
}

/// Whether one of the types is unresolved.
pub open spec fn any_unresolved(tys: Seq<TypeView>) -> bool
    decreases tys,
{
    if tys.len() == 0 {
        false
    } else {
        any_unresolved(tys.drop_last()) || unresolved(tys.last())
    }
}

/// Whether a type still holds a type parameter, or stands for the type around it, at any depth.
pub fn is_unresolved(ty: &Type) -> (r: bool)
    ensures
        r == unresolved(ty@),
    decreases ty,
{
    match ty {
        Type::Struct(_) => is_type_param(ty),
        Type::SelfType => true,
        Type::GenericInstance(_, args) => has_unresolved(args),
        Type::Alias(_, args) => has_unresolved(args),
        Type::Tuple(elems) => has_unresolved(elems),
        Type::Ref { inner, .. } => is_unresolved(inner),
        Type::Ptr { inner, .. } => is_unresolved(inner),
        Type::Array { inner, .. } => is_unresolved(inner),
        Type::GenericArray { .. } => true,
        Type::Slice { inner } => is_unresolved(inner),
        _ => false,
    }
}

/// Whether one of the types is unresolved.
pub fn has_unresolved(tys: &Vec<Type>) -> (r: bool)
    ensures
        r == any_unresolved(type_seq_view(tys@)),
    decreases tys,
{
    let ghost all = type_seq_view(tys@);
    let mut found = false;
    let mut i: usize = 0;
    while i < tys.len()
        invariant
            i <= tys@.len(),
            all == type_seq_view(tys@),
            found == any_unresolved(all.take(i as int)),
        decreases tys@.len() - i,
    {
        let here = is_unresolved(&tys[i]);
        proof {
            let t = all.take(i + 1);
            assert(t.drop_last() =~= all.take(i as int));
            assert(t.last() == all[i as int]);
        }
        found = found || here;
        i += 1;
    }
    proof {
        assert(all.take(i as int) =~= all);
    }
    found
}

/// The instances that a type names, at any depth, the arguments of an instance before the instance;
/// those that are not resolved are left out.
pub open spec fn type_instances(ty: TypeView) -> Seq<(Seq<char>, Seq<TypeView>)>
    decreases ty,
{
    match ty {
        TypeView::GenericInstance(name, args) => all_type_instances(args) + (if any_unresolved(
            args,
        ) {
            Seq::empty()
        } else {
            seq![(name, args)]
        }),
        TypeView::Ref { inner, .. } => type_instances(*inner),
        TypeView::Ptr { inner, .. } => type_instances(*inner),
        TypeView::Array { inner, .. } => type_instances(*inner),
        TypeView::GenericArray { inner, .. } => type_instances(*inner),
        TypeView::Slice { inner } => type_instances(*inner),
        TypeView::Tuple(elems) => all_type_instances(elems),
        TypeView::Alias(_, args) => all_type_instances(args),
        _ => Seq::empty(),
    }
}

/// The instances that some types name, in order.
pub open spec fn all_type_instances(tys: Seq<TypeView>) -> Seq<(Seq<char>, Seq<TypeView>)>
    decreases tys,
{
    if tys.len() == 0 {
        Seq::empty()
    } else {
        all_type_instances(tys.drop_last()) + type_instances(tys.last())
    }
}

/// Appends an instance.
fn collect_instance(name: &str, args: Vec<Type>, out: &mut Vec<(String, Vec<Type>)>)
    ensures
        instances(final(out)@) == instances(old(out)@) + seq![(name@, type_seq_view(args@))],
{
    out.push((name.to_owned(), args));
    proof {
        assert(instances(out@) =~= instances(old(out)@) + seq![(name@, type_seq_view(args@))]);
    }
}

/// The instance that a literal of an enum with one type parameter needs, by the type of its
/// payload.
pub open spec fn enum_lit_need(name: Seq<char>, ty: TypeView, one: Set<Seq<char>>) -> Seq<
    (Seq<char>, Seq<TypeView>),
> {
    if one.contains(name) && concrete(ty) {
        seq![(name, seq![ty])]
    } else {
        Seq::empty()
    }
}

/// Appends the instance that an enum literal needs.
fn collect_enum_lit(name: &str, ty: Type, one: &Names, out: &mut Vec<(String, Vec<Type>)>)
    ensures
        instances(final(out)@) == instances(old(out)@) + enum_lit_need(name@, ty@, one@),
{
    broadcast use group_cat;

    if one.contains(name) && is_concrete_type(&ty) {
        let mut args: Vec<Type> = Vec::new();
        args.push(ty);
        proof {
            assert(type_seq_view(args@) =~= seq![ty@]);
        }
        collect_instance(name, args, out);
    }
}

/// Appends the instances that a type names.
fn collect_from_type(ty: &Type, out: &mut Vec<(String, Vec<Type>)>)
    ensures
        instances(final(out)@) == instances(old(out)@) + type_instances(ty@),
    decreases ty,
{
    broadcast use group_cat;

    match ty {
        Type::GenericInstance(name, args) => {
            collect_from_types(args, out);
            if !has_unresolved(args) {
                collect_instance(name, dup_type_seq(args), out);
            }
        },
        Type::Ref { inner, .. } => collect_from_type(inner, out),
        Type::Ptr { inner, .. } => collect_from_type(inner, out),
        Type::Array { inner, .. } => collect_from_type(inner, out),
        Type::GenericArray { inner, .. } => collect_from_type(inner, out),
        Type::Slice { inner } => collect_from_type(inner, out),
        Type::Tuple(elems) => collect_from_types(elems, out),
        Type::Alias(_, args) => collect_from_types(args, out),
        _ => {},
    }
}

/// Collect GenericInstance from a list of types.
pub fn collect_from_types(tys: &Vec<Type>, out: &mut Vec<(String, Vec<Type>)>)
    ensures
        instances(final(out)@) == instances(old(out)@) + all_type_instances(type_seq_view(tys@)),
    decreases tys,
{
    let ghost all = type_seq_view(tys@);
    let ghost start = instances(out@);
    let mut i: usize = 0;
    proof {
        assert(instances(out@) =~= start + all_type_instances(all.take(0)));
    }
    while i < tys.len()
        invariant
            i <= tys@.len(),
            all == type_seq_view(tys@),
            instances(out@) == start + all_type_instances(all.take(i as int)),
        decreases tys@.len() - i,
    {
        collect_from_type(&tys[i], out);
        proof {
            let t = all.take(i + 1);
            assert(t.drop_last() =~= all.take(i as int));
            assert(t.last() == all[i as int]);
            assert(instances(out@) =~= start + all_type_instances(t));
        }
        i += 1;
    }
    proof {
        assert(all.take(i as int) =~= all);
    }
}

/// Whether one of the instances has the mangled name `key`.
pub open spec fn has_instance(s: Seq<(Seq<char>, Seq<TypeView>)>, key: Seq<char>) -> bool {
    exists|i: int| 0 <= i < s.len() && mangled((#[trigger] s[i]).0, s[i].1) == key
}

/// The instances without those whose mangled name occurs before.
pub open spec fn distinct(s: Seq<(Seq<char>, Seq<TypeView>)>) -> Seq<(Seq<char>, Seq<TypeView>)>
    decreases s.len(),
{
    if s.len() == 0 {
        Seq::empty()
    } else {
        let d = distinct(s.drop_last());
        if has_instance(d, mangled(s.last().0, s.last().1)) {
            d
        } else {
            d.push(s.last())
        }
    }
}

fn is_listed(s: &Vec<(String, Vec<Type>)>, key: &str) -> (r: bool)
    ensures
        r == has_instance(instances(s@), key@),
{
    let mut i: usize = 0;
    while i < s.len()
        invariant
            i <= s@.len(),
            forall|k: int|
                0 <= k < i ==> mangled((#[trigger] instances(s@)[k]).0, instances(s@)[k].1) != key@,
        decreases s@.len() - i,
    {
        if same(&mangle_generic_instance(&s[i].0, &s[i].1), key) {
            proof {
                assert(mangled(instances(s@)[i as int].0, instances(s@)[i as int].1) == key@);
            }
            return true;
        }
        i += 1;
    }
    false
}

/// Drops the instances whose mangled name occurs before.
fn keep_distinct(s: Vec<(String, Vec<Type>)>) -> (r: Vec<(String, Vec<Type>)>)
    ensures
        instances(r@) == distinct(instances(s@)),
{
    let ghost all = instances(s@);
    let mut r: Vec<(String, Vec<Type>)> = Vec::new();
    let mut i: usize = 0;
    proof {
        assert(instances(r@) =~= distinct(all.take(0)));
    }
    while i < s.len()
        invariant
            i <= s@.len(),
            all == instances(s@),
            instances(r@) == distinct(all.take(i as int)),
        decreases s@.len() - i,
    {
        proof {
            let t = all.take(i + 1);
            assert(t.drop_last() =~= all.take(i as int));
            assert(t.last() == all[i as int]);
        }
        let key = mangle_generic_instance(&s[i].0, &s[i].1);
        if !is_listed(&r, &key) {
            let ghost before = instances(r@);
            r.push((s[i].0.clone(), dup_type_seq(&s[i].1)));
            proof {
                assert(instances(r@) =~= before.push(all[i as int]));
            }
        }
        i += 1;
    }
    proof {
        assert(all.take(i as int) =~= all);
    }
    r
}

/// The types of some parameters.
pub open spec fn param_types(ps: Seq<ParamView>) -> Seq<TypeView> {
    Seq::new(ps.len(), |i: int| ps[i].ty)
}

/// The types of some parameters.
pub fn types_of_params(ps: &Vec<Param>) -> (r: Vec<Type>)
    ensures
        type_seq_view(r@) == param_types(param_seq_view(ps@)),
{
    let mut r: Vec<Type> = Vec::new();
    let mut i: usize = 0;
    while i < ps.len()
        invariant
            i <= ps@.len(),
            r@.len() == i,
            forall|k: int| 0 <= k < i ==> type_view(#[trigger] r@[k]) == param_seq_view(ps@)[k].ty,
        decreases ps@.len() - i,
    {
        r.push(dup_type(&ps[i].ty));
        i += 1;
    }
    proof {
        assert(type_seq_view(r@) =~= param_types(param_seq_view(ps@)));
    }
    r
}

/// The types of some fields.
pub open spec fn field_types(fs: Seq<StructFieldView>) -> Seq<TypeView> {
    Seq::new(fs.len(), |i: int| fs[i].ty)
}

/// The types of some fields.
pub fn types_of_fields(fs: &Vec<StructField>) -> (r: Vec<Type>)
    ensures
        type_seq_view(r@) == field_types(struct_field_seq_view(fs@)),
{
    let mut r: Vec<Type> = Vec::new();
    let mut i: usize = 0;
    while i < fs.len()
        invariant
            i <= fs@.len(),
            r@.len() == i,
            forall|k: int| 0 <= k < i ==> type_view(
                #[trigger] r@[k],
            ) == struct_field_seq_view(fs@)[k].ty,
        decreases fs@.len() - i,
    {
        r.push(dup_type(&fs[i].ty));
        i += 1;
    }
    proof {
        assert(type_seq_view(r@) =~= field_types(struct_field_seq_view(fs@)));
    }
    r
}

/// The instances that a function names, each once: in its parameters, its return type and its body,
/// and those that the literals of `Option` in its body need.
pub open spec fn method_instances(f: FunctionView) -> Seq<(Seq<char>, Seq<TypeView>)> {
    distinct(named_function(f) + enum_lits_function(f, set!["Option"@]))
}

/// Collect GenericInstance from a method's params, return type, and body.
pub fn collect_generic_instances_from_method(f: &Function) -> (r: Vec<(String, Vec<Type>)>)
    ensures
        instances(r@) == method_instances(f@),
{
    proof {
        reveal(enum_lits_function);
        reveal(named_function);
    }
    let mut found: Vec<(String, Vec<Type>)> = Vec::new();
    proof {
        assert(instances(found@) =~= Seq::empty());
    }
    collect_from_function(f, &mut found);
    let mut one = Names::new();
    one.insert("Option".to_owned());
    collect_enum_lits_from_function(f, &one, &mut found);
    proof {
        assert(one@ =~= set!["Option"@]);
        assert(instances(found@) =~= named_function(f@) + enum_lits_function(
            f@,
            set!["Option"@],
        ));
    }
    keep_distinct(found)
}

/// The names of the enums that have exactly one type parameter.
pub open spec fn one_param_enums(ds: Seq<EnumDeclView>) -> Set<Seq<char>>
    decreases ds.len(),
{
    if ds.len() == 0 {
        Set::empty()
    } else if ds.last().type_params.len() == 1 {
        one_param_enums(ds.drop_last()).insert(ds.last().name)
    } else {
        one_param_enums(ds.drop_last())
    }
}

fn find_one_param_enums(ds: &Vec<EnumDecl>) -> (r: Names)
    ensures
        r@ == one_param_enums(enum_decl_seq_view(ds@)),
{
    let ghost all = enum_decl_seq_view(ds@);
    let mut r = Names::new();
    let mut i: usize = 0;
    while i < ds.len()
        invariant
            i <= ds@.len(),
            all == enum_decl_seq_view(ds@),
            r@ == one_param_enums(all.take(i as int)),
        decreases ds@.len() - i,
    {
        proof {
            let t = all.take(i + 1);
            assert(t.drop_last() =~= all.take(i as int));
            assert(t.last() == enum_decl_view(ds@[i as int]));
        }
        if ds[i].type_params.len() == 1 {
            r.insert(ds[i].name.clone());
        }
        i += 1;
    }
    proof {
        assert(all.take(i as int) =~= all);
    }
    r
}

/// All instances that a program names, and those that its enum literals need; each once, in the
/// order of their first occurrence.
pub open spec fn program_instances(p: ProgramView) -> Seq<(Seq<char>, Seq<TypeView>)> {
    distinct(named_program(p) + enum_lits_program(p, one_param_enums(p.enums)))
}

/// Collect all Type::GenericInstance references from a program.
pub fn collect_generic_instances(p: &Program) -> (r: Vec<(String, Vec<Type>)>)
    ensures
        instances(r@) == program_instances(p@),
{
    proof {
        reveal(enum_lits_program);
        reveal(named_program);
    }
    let mut found: Vec<(String, Vec<Type>)> = Vec::new();
    proof {
        assert(instances(found@) =~= Seq::empty());
    }
    collect_from_program(p, &mut found);
    let one = find_one_param_enums(&p.enums);
    collect_enum_lits_from_program(p, &one, &mut found);
    proof {
        assert(instances(found@) =~= named_program(p@) + enum_lits_program(
            p@,
            one_param_enums(p@.enums),
        ));
    }
    keep_distinct(found)
}

/// The instances that the types in a program name, at any depth.
#[verifier::opaque]
pub open spec fn named_program(x: ProgramView) -> Seq<(Seq<char>, Seq<TypeView>)>
    decreases x,
{
    named_function_seq(x.funcs) + named_struct_decl_seq(x.structs) + named_enum_decl_seq(x.enums)
        + named_trait_decl_seq(x.traits) + named_impl_decl_seq(x.impls)
        + named_type_alias_decl_seq(x.type_aliases)
}

/// The instances that the types in a function name, at any depth.
#[verifier::opaque]
pub open spec fn named_function(x: FunctionView) -> Seq<(Seq<char>, Seq<TypeView>)>
    decreases x,
{
    named_param_seq(x.params) + (
        match x.return_type { Some(y) => type_instances(y), None => Seq::empty() }
    ) + named_block(x.body)
}

/// The instances that the types in a parameter name, at any depth.
#[verifier::opaque]
pub open spec fn named_param(x: ParamView) -> Seq<(Seq<char>, Seq<TypeView>)>
    decreases x,
{
    type_instances(x.ty)
}

/// The instances that the types in a struct name, at any depth.
#[verifier::opaque]
pub open spec fn named_struct_decl(x: StructDeclView) -> Seq<(Seq<char>, Seq<TypeView>)>
    decreases x,
{
    named_struct_field_seq(x.fields)
}

/// The instances that the types in a field name, at any depth.
#[verifier::opaque]
pub open spec fn named_struct_field(x: StructFieldView) -> Seq<(Seq<char>, Seq<TypeView>)>
    decreases x,
{
    type_instances(x.ty)
}

/// The instances that the types in an enum name, at any depth.
#[verifier::opaque]
pub open spec fn named_enum_decl(x: EnumDeclView) -> Seq<(Seq<char>, Seq<TypeView>)>
    decreases x,
{
    named_enum_variant_seq(x.variants)
}

/// The instances that the types in a variant name, at any depth.
#[verifier::opaque]
pub open spec fn named_enum_variant(x: EnumVariantView) -> Seq<(Seq<char>, Seq<TypeView>)>
    decreases x,
{
    (match x.ty { Some(y) => type_instances(y), None => Seq::empty() })
}

/// The instances that the types in a trait name, at any depth.
#[verifier::opaque]
pub open spec fn named_trait_decl(x: TraitDeclView) -> Seq<(Seq<char>, Seq<TypeView>)>
    decreases x,
{
    named_trait_method_def_seq(x.methods) + named_trait_const_seq(x.consts)
}

/// The instances that the types in a method of a trait name, at any depth.
#[verifier::opaque]
pub open spec fn named_trait_method_def(x: TraitMethodDefView) -> Seq<(Seq<char>, Seq<TypeView>)>
    decreases x,
{
    named_param_seq(x.params) + (
        match x.return_type { Some(y) => type_instances(y), None => Seq::empty() }
    ) + (match x.body { Some(y) => named_block(y), None => Seq::empty() })
}

/// The instances that the types in a constant of a trait name, at any depth.
#[verifier::opaque]
pub open spec fn named_trait_const(x: TraitConstView) -> Seq<(Seq<char>, Seq<TypeView>)>
    decreases x,
{
    type_instances(x.ty) + (
        match x.default_value { Some(y) => named_expr(y), None => Seq::empty() }
    )
}

/// The instances that the types in an `impl` block name, at any depth.
#[verifier::opaque]
pub open spec fn named_impl_decl(x: ImplDeclView) -> Seq<(Seq<char>, Seq<TypeView>)>
    decreases x,
{
    type_instances(x.impl_type) + all_type_instances(x.trait_args) + named_function_seq(x.methods)
        + named_associated_const_seq(x.consts)
}

/// The instances that the types in an associated constant name, at any depth.
#[verifier::opaque]
pub open spec fn named_associated_const(x: AssociatedConstView) -> Seq<(Seq<char>, Seq<TypeView>)>
    decreases x,
{
    type_instances(x.ty) + named_expr(x.value)
}

/// The instances that the types in a type alias name, at any depth.
#[verifier::opaque]
pub open spec fn named_type_alias_decl(x: TypeAliasDeclView) -> Seq<(Seq<char>, Seq<TypeView>)>
    decreases x,
{
    type_instances(x.aliased_type)
}

/// The instances that the types in a block name, at any depth.
#[verifier::opaque]
pub open spec fn named_block(x: BlockView) -> Seq<(Seq<char>, Seq<TypeView>)>
    decreases x,
{
    named_stmt_seq(x.stmts) + (
        match x.tail_expr { Some(y) => named_expr(*y), None => Seq::empty() }
    )
}

/// The instances that the types in a statement name, at any depth.
#[verifier::opaque]
pub open spec fn named_stmt(x: StmtView) -> Seq<(Seq<char>, Seq<TypeView>)>
    decreases x,
{
    match x {
        StmtView::Let { type_ann, init, else_block, .. } => (
            match type_ann { Some(y) => type_instances(y), None => Seq::empty() }
        ) + named_expr(init) + (
            match else_block { Some(y) => named_block(y), None => Seq::empty() }
        ),
        StmtView::Const { type_ann, init, .. } => (
            match type_ann { Some(y) => type_instances(y), None => Seq::empty() }
        ) + named_expr(init),
        StmtView::Expr(x0) => named_expr(x0),
        StmtView::Return { value, .. } => (
            match value { Some(y) => named_expr(*y), None => Seq::empty() }
        ),
        StmtView::Break { value, .. } => (
            match value { Some(y) => named_expr(*y), None => Seq::empty() }
        ),
        _ => Seq::empty(),
    }
}

/// The instances that the types in an expression name, at any depth.
#[verifier::opaque]
pub open spec fn named_expr(x: ExprView) -> Seq<(Seq<char>, Seq<TypeView>)>
    decreases x,
{
    match x {
        ExprView::Call {
            args,
            type_args,
            ..
        } => named_expr_seq(args) + all_type_instances(type_args),
        ExprView::QualifiedCall {
            args,
            type_args,
            ..
        } => named_expr_seq(args) + all_type_instances(type_args),
        ExprView::Binary { lhs, rhs, .. } => named_expr(*lhs) + named_expr(*rhs),
        ExprView::Assign { target, value, .. } => named_expr(*target) + named_expr(*value),
        ExprView::Ref { expr, .. } => named_expr(*expr),
        ExprView::UnaryNot(x0, _) => named_expr(*x0),
        ExprView::UnaryMinus(x0, _) => named_expr(*x0),
        ExprView::Deref(x0, _) => named_expr(*x0),
        ExprView::Cast { expr, to_type, .. } => named_expr(*expr) + type_instances(to_type),
        ExprView::Tuple(x0, _) => named_expr_seq(x0),
        ExprView::Member { expr, .. } => named_expr(*expr),
        ExprView::MethodCall {
            expr,
            args,
            type_args,
            ..
        } => named_expr(*expr) + named_expr_seq(args) + all_type_instances(type_args),
        ExprView::StructLit { fields, .. } => named_string_expr_seq(fields),
        ExprView::EnumLit { payload, .. } => (
            match payload { Some(y) => named_expr(*y), None => Seq::empty() }
        ),
        ExprView::If { cond, then_block, else_ifs, else_block, .. } => named_expr(*cond) + named_block(then_block) + named_expr_block_seq(else_ifs) + (
            match else_block { Some(y) => named_block(y), None => Seq::empty() }
        ),
        ExprView::Loop { body, .. } => named_block(body),
        ExprView::While { cond, body, .. } => named_expr(*cond) + named_block(body),
        ExprView::For { container, body, .. } => named_expr(*container) + named_block(body),
        ExprView::Array(x0, _) => named_expr_seq(x0),
        ExprView::Repeat(x0, _, _) => named_expr(*x0),
        ExprView::Index { array, index, .. } => named_expr(*array) + named_expr(*index),
        ExprView::IfLet { scrutinee, then_block, else_block, .. } => named_expr(*scrutinee) + named_block(then_block) + (
            match else_block { Some(y) => named_block(y), None => Seq::empty() }
        ),
        ExprView::Match {
            scrutinee,
            arms,
            ..
        } => named_expr(*scrutinee) + named_match_arm_seq(arms),
        ExprView::Block(x0, _) => named_block(x0),
        _ => Seq::empty(),
    }
}

/// The instances that the types in an arm name, at any depth.
#[verifier::opaque]
pub open spec fn named_match_arm(x: MatchArmView) -> Seq<(Seq<char>, Seq<TypeView>)>
    decreases x,
{
    (match x.guard { Some(y) => named_expr(*y), None => Seq::empty() }) + named_block(x.body)
}

/// The same over all elements, in order.
#[verifier::opaque]
pub open spec fn named_function_seq(s: Seq<FunctionView>) -> Seq<(Seq<char>, Seq<TypeView>)>
    decreases s,
{
    if s.len() == 0 {
        Seq::empty()
    } else {
        named_function_seq(s.drop_last()) + (named_function(s.last()))
    }
}

/// The same over all elements, in order.
#[verifier::opaque]
pub open spec fn named_struct_decl_seq(s: Seq<StructDeclView>) -> Seq<(Seq<char>, Seq<TypeView>)>
    decreases s,
{
    if s.len() == 0 {
        Seq::empty()
    } else {
        named_struct_decl_seq(s.drop_last()) + (named_struct_decl(s.last()))
    }
}

/// The same over all elements, in order.
#[verifier::opaque]
pub open spec fn named_enum_decl_seq(s: Seq<EnumDeclView>) -> Seq<(Seq<char>, Seq<TypeView>)>
    decreases s,
{
    if s.len() == 0 {
        Seq::empty()
    } else {
        named_enum_decl_seq(s.drop_last()) + (named_enum_decl(s.last()))
    }
}

/// The same over all elements, in order.
#[verifier::opaque]
pub open spec fn named_trait_decl_seq(s: Seq<TraitDeclView>) -> Seq<(Seq<char>, Seq<TypeView>)>
    decreases s,
{
    if s.len() == 0 {
        Seq::empty()
    } else {
        named_trait_decl_seq(s.drop_last()) + (named_trait_decl(s.last()))
    }
}

/// The same over all elements, in order.
#[verifier::opaque]
pub open spec fn named_impl_decl_seq(s: Seq<ImplDeclView>) -> Seq<(Seq<char>, Seq<TypeView>)>
    decreases s,
{
    if s.len() == 0 {
        Seq::empty()
    } else {
        named_impl_decl_seq(s.drop_last()) + (named_impl_decl(s.last()))
    }
}

/// The same over all elements, in order.
#[verifier::opaque]
pub open spec fn named_type_alias_decl_seq(
    s: Seq<TypeAliasDeclView>,
) -> Seq<(Seq<char>, Seq<TypeView>)>
    decreases s,
{
    if s.len() == 0 {
        Seq::empty()
    } else {
        named_type_alias_decl_seq(s.drop_last()) + (named_type_alias_decl(s.last()))
    }
}

/// The same over all elements, in order.
#[verifier::opaque]
pub open spec fn named_param_seq(s: Seq<ParamView>) -> Seq<(Seq<char>, Seq<TypeView>)>
    decreases s,
{
    if s.len() == 0 {
        Seq::empty()
    } else {
        named_param_seq(s.drop_last()) + (named_param(s.last()))
    }
}

/// The same over all elements, in order.
#[verifier::opaque]
pub open spec fn named_struct_field_seq(s: Seq<StructFieldView>) -> Seq<(Seq<char>, Seq<TypeView>)>
    decreases s,
{
    if s.len() == 0 {
        Seq::empty()
    } else {
        named_struct_field_seq(s.drop_last()) + (named_struct_field(s.last()))
    }
}

/// The same over all elements, in order.
#[verifier::opaque]
pub open spec fn named_enum_variant_seq(s: Seq<EnumVariantView>) -> Seq<(Seq<char>, Seq<TypeView>)>
    decreases s,
{
    if s.len() == 0 {
        Seq::empty()
    } else {
        named_enum_variant_seq(s.drop_last()) + (named_enum_variant(s.last()))
    }
}

/// The same over all elements, in order.
#[verifier::opaque]
pub open spec fn named_trait_method_def_seq(
    s: Seq<TraitMethodDefView>,
) -> Seq<(Seq<char>, Seq<TypeView>)>
    decreases s,
{
    if s.len() == 0 {
        Seq::empty()
    } else {
        named_trait_method_def_seq(s.drop_last()) + (named_trait_method_def(s.last()))
    }
}

/// The same over all elements, in order.
#[verifier::opaque]
pub open spec fn named_trait_const_seq(s: Seq<TraitConstView>) -> Seq<(Seq<char>, Seq<TypeView>)>
    decreases s,
{
    if s.len() == 0 {
        Seq::empty()
    } else {
        named_trait_const_seq(s.drop_last()) + (named_trait_const(s.last()))
    }
}

/// The same over all elements, in order.
#[verifier::opaque]
pub open spec fn named_associated_const_seq(
    s: Seq<AssociatedConstView>,
) -> Seq<(Seq<char>, Seq<TypeView>)>
    decreases s,
{
    if s.len() == 0 {
        Seq::empty()
    } else {
        named_associated_const_seq(s.drop_last()) + (named_associated_const(s.last()))
    }
}

/// The same over all elements, in order.
#[verifier::opaque]
pub open spec fn named_stmt_seq(s: Seq<StmtView>) -> Seq<(Seq<char>, Seq<TypeView>)>
    decreases s,
{
    if s.len() == 0 {
        Seq::empty()
    } else {
        named_stmt_seq(s.drop_last()) + (named_stmt(s.last()))
    }
}

/// The same over all elements, in order.
#[verifier::opaque]
pub open spec fn named_expr_seq(s: Seq<ExprView>) -> Seq<(Seq<char>, Seq<TypeView>)>
    decreases s,
{
    if s.len() == 0 {
        Seq::empty()
    } else {
        named_expr_seq(s.drop_last()) + (named_expr(s.last()))
    }
}

/// The same over all elements, in order.
#[verifier::opaque]
pub open spec fn named_string_expr_seq(
    s: Seq<(Seq<char>, ExprView)>,
) -> Seq<(Seq<char>, Seq<TypeView>)>
    decreases s,
{
    if s.len() == 0 {
        Seq::empty()
    } else {
        named_string_expr_seq(s.drop_last()) + (named_expr(s.last().1))
    }
}

/// The same over all elements, in order.
#[verifier::opaque]
pub open spec fn named_expr_block_seq(
    s: Seq<(ExprView, BlockView)>,
) -> Seq<(Seq<char>, Seq<TypeView>)>
    decreases s,
{
    if s.len() == 0 {
        Seq::empty()
    } else {
        named_expr_block_seq(s.drop_last()) + (named_expr(s.last().0) + named_block(s.last().1))
    }
}

/// The same over all elements, in order.
#[verifier::opaque]
pub open spec fn named_match_arm_seq(s: Seq<MatchArmView>) -> Seq<(Seq<char>, Seq<TypeView>)>
    decreases s,
{
    if s.len() == 0 {
        Seq::empty()
    } else {
        named_match_arm_seq(s.drop_last()) + (named_match_arm(s.last()))
    }
}

/// The instances that the types in a program name, at any depth.
pub fn collect_from_program(x: &Program, out: &mut Vec<(String, Vec<Type>)>)
    ensures
        instances(final(out)@) == instances(old(out)@) + named_program(x@),
    decreases x,
{
    proof {
        reveal(named_enum_decl_seq);
        reveal(named_function_seq);
        reveal(named_impl_decl_seq);
        reveal(named_program);
        reveal(named_struct_decl_seq);
        reveal(named_trait_decl_seq);
        reveal(named_type_alias_decl_seq);
    }
    proof {
        let o = instances(out@);
        let v = x@;
        lemma_cat_assoc(o, named_function_seq(v.funcs), named_struct_decl_seq(v.structs));
        lemma_cat_assoc(
            o,
            named_function_seq(v.funcs) + named_struct_decl_seq(v.structs),
            named_enum_decl_seq(v.enums),
        );
        lemma_cat_assoc(
            o,
            named_function_seq(v.funcs) + named_struct_decl_seq(v.structs) + named_enum_decl_seq(v.enums),
            named_trait_decl_seq(v.traits),
        );
        lemma_cat_assoc(
            o,
            named_function_seq(v.funcs) + named_struct_decl_seq(v.structs) + named_enum_decl_seq(v.enums) + named_trait_decl_seq(v.traits),
            named_impl_decl_seq(v.impls),
        );
        lemma_cat_assoc(
            o,
            named_function_seq(v.funcs) + named_struct_decl_seq(v.structs) + named_enum_decl_seq(v.enums) + named_trait_decl_seq(v.traits) + named_impl_decl_seq(v.impls),
            named_type_alias_decl_seq(v.type_aliases),
        );
    }
    collect_from_function_seq(&x.funcs, out);
    collect_from_struct_decl_seq(&x.structs, out);
    collect_from_enum_decl_seq(&x.enums, out);
    collect_from_trait_decl_seq(&x.traits, out);
    collect_from_impl_decl_seq(&x.impls, out);
    collect_from_type_alias_decl_seq(&x.type_aliases, out);
}

/// The instances that the types in a function name, at any depth.
pub fn collect_from_function(x: &Function, out: &mut Vec<(String, Vec<Type>)>)
    ensures
        instances(final(out)@) == instances(old(out)@) + named_function(x@),
    decreases x,
{
    proof {
        reveal(named_block);
        reveal(named_expr);
        reveal(named_expr_block_seq);
        reveal(named_expr_seq);
        reveal(named_function);
        reveal(named_match_arm);
        reveal(named_match_arm_seq);
        reveal(named_param_seq);
        reveal(named_stmt);
        reveal(named_stmt_seq);
        reveal(named_string_expr_seq);
    }
    proof {
        let o = instances(out@);
        let v = x@;
        lemma_cat_empty(o + (named_param_seq(v.params)));
        lemma_cat_assoc(
            o,
            named_param_seq(v.params),
            (match v.return_type { Some(y) => type_instances(y), None => Seq::empty() }),
        );
        lemma_cat_assoc(
            o,
            named_param_seq(v.params) + (
                match v.return_type { Some(y) => type_instances(y), None => Seq::empty() }
            ),
            named_block(v.body),
        );
    }
    collect_from_param_seq(&x.params, out);
    match &x.return_type {
        Some(y) => {
            collect_from_type(y, out);
        },
        None => {},
    }
    collect_from_block(&x.body, out);
}

/// The instances that the types in a parameter name, at any depth.
pub fn collect_from_param(x: &Param, out: &mut Vec<(String, Vec<Type>)>)
    ensures
        instances(final(out)@) == instances(old(out)@) + named_param(x@),
    decreases x,
{
    proof {
        reveal(named_param);
    }
    collect_from_type(&x.ty, out);
}

/// The instances that the types in a struct name, at any depth.
pub fn collect_from_struct_decl(x: &StructDecl, out: &mut Vec<(String, Vec<Type>)>)
    ensures
        instances(final(out)@) == instances(old(out)@) + named_struct_decl(x@),
    decreases x,
{
    proof {
        reveal(named_struct_decl);
    }
    collect_from_struct_field_seq(&x.fields, out);
}

/// The instances that the types in a field name, at any depth.
pub fn collect_from_struct_field(x: &StructField, out: &mut Vec<(String, Vec<Type>)>)
    ensures
        instances(final(out)@) == instances(old(out)@) + named_struct_field(x@),
    decreases x,
{
    proof {
        reveal(named_struct_field);
    }
    collect_from_type(&x.ty, out);
}

/// The instances that the types in an enum name, at any depth.
pub fn collect_from_enum_decl(x: &EnumDecl, out: &mut Vec<(String, Vec<Type>)>)
    ensures
        instances(final(out)@) == instances(old(out)@) + named_enum_decl(x@),
    decreases x,
{
    proof {
        reveal(named_enum_decl);
    }
    collect_from_enum_variant_seq(&x.variants, out);
}

/// The instances that the types in a variant name, at any depth.
pub fn collect_from_enum_variant(x: &EnumVariant, out: &mut Vec<(String, Vec<Type>)>)
    ensures
        instances(final(out)@) == instances(old(out)@) + named_enum_variant(x@),
    decreases x,
{
    proof {
        reveal(named_enum_variant);
    }
    proof {
        let o = instances(out@);
        let v = x@;
        lemma_cat_empty(o);
    }
    match &x.ty {
        Some(y) => {
            collect_from_type(y, out);
        },
        None => {},
    }
}

/// The instances that the types in a trait name, at any depth.
pub fn collect_from_trait_decl(x: &TraitDecl, out: &mut Vec<(String, Vec<Type>)>)
    ensures
        instances(final(out)@) == instances(old(out)@) + named_trait_decl(x@),
    decreases x,
{
    proof {
        reveal(named_trait_const_seq);
        reveal(named_trait_decl);
        reveal(named_trait_method_def_seq);
    }
    proof {
        let o = instances(out@);
        let v = x@;
        lemma_cat_assoc(o, named_trait_method_def_seq(v.methods), named_trait_const_seq(v.consts));
    }
    collect_from_trait_method_def_seq(&x.methods, out);
    collect_from_trait_const_seq(&x.consts, out);
}

/// The instances that the types in a method of a trait name, at any depth.
pub fn collect_from_trait_method_def(x: &TraitMethodDef, out: &mut Vec<(String, Vec<Type>)>)
    ensures
        instances(final(out)@) == instances(old(out)@) + named_trait_method_def(x@),
    decreases x,
{
    proof {
        reveal(named_block);
        reveal(named_expr);
        reveal(named_expr_block_seq);
        reveal(named_expr_seq);
        reveal(named_match_arm);
        reveal(named_match_arm_seq);
        reveal(named_param_seq);
        reveal(named_stmt);
        reveal(named_stmt_seq);
        reveal(named_string_expr_seq);
        reveal(named_trait_method_def);
    }
    proof {
        let o = instances(out@);
        let v = x@;
        lemma_cat_empty(o + (named_param_seq(v.params)));
        lemma_cat_assoc(
            o,
            named_param_seq(v.params),
            (match v.return_type { Some(y) => type_instances(y), None => Seq::empty() }),
        );
        lemma_cat_empty(
            o + (
                named_param_seq(v.params) + (
                    match v.return_type { Some(y) => type_instances(y), None => Seq::empty() }
                )
            ),
        );
        lemma_cat_assoc(
            o,
            named_param_seq(v.params) + (
                match v.return_type { Some(y) => type_instances(y), None => Seq::empty() }
            ),
            (match v.body { Some(y) => named_block(y), None => Seq::empty() }),
        );
    }
    collect_from_param_seq(&x.params, out);
    match &x.return_type {
        Some(y) => {
            collect_from_type(y, out);
        },
        None => {},
    }
    match &x.body {
        Some(y) => {
            collect_from_block(y, out);
        },
        None => {},
    }
}

/// The instances that the types in a constant of a trait name, at any depth.
pub fn collect_from_trait_const(x: &TraitConst, out: &mut Vec<(String, Vec<Type>)>)
    ensures
        instances(final(out)@) == instances(old(out)@) + named_trait_const(x@),
    decreases x,
{
    proof {
        reveal(named_block);
        reveal(named_expr);
        reveal(named_expr_block_seq);
        reveal(named_expr_seq);
        reveal(named_match_arm);
        reveal(named_match_arm_seq);
        reveal(named_stmt);
        reveal(named_stmt_seq);
        reveal(named_string_expr_seq);
        reveal(named_trait_const);
    }
    proof {
        let o = instances(out@);
        let v = x@;
        lemma_cat_empty(o + (type_instances(v.ty)));
        lemma_cat_assoc(
            o,
            type_instances(v.ty),
            (match v.default_value { Some(y) => named_expr(y), None => Seq::empty() }),
        );
    }
    collect_from_type(&x.ty, out);
    match &x.default_value {
        Some(y) => {
            collect_from_expr(y, out);
        },
        None => {},
    }
}

/// The instances that the types in an `impl` block name, at any depth.
pub fn collect_from_impl_decl(x: &ImplDecl, out: &mut Vec<(String, Vec<Type>)>)
    ensures
        instances(final(out)@) == instances(old(out)@) + named_impl_decl(x@),
    decreases x,
{
    proof {
        reveal(named_associated_const_seq);
        reveal(named_function_seq);
        reveal(named_impl_decl);
    }
    proof {
        let o = instances(out@);
        let v = x@;
        lemma_cat_assoc(o, type_instances(v.impl_type), all_type_instances(v.trait_args));
        lemma_cat_assoc(
            o,
            type_instances(v.impl_type) + all_type_instances(v.trait_args),
            named_function_seq(v.methods),
        );
        lemma_cat_assoc(
            o,
            type_instances(v.impl_type) + all_type_instances(v.trait_args)
                + named_function_seq(v.methods),
            named_associated_const_seq(v.consts),
        );
    }
    collect_from_type(&x.impl_type, out);
    collect_from_types(&x.trait_args, out);
    collect_from_function_seq(&x.methods, out);
    collect_from_associated_const_seq(&x.consts, out);
}

/// The instances that the types in an associated constant name, at any depth.
pub fn collect_from_associated_const(x: &AssociatedConst, out: &mut Vec<(String, Vec<Type>)>)
    ensures
        instances(final(out)@) == instances(old(out)@) + named_associated_const(x@),
    decreases x,
{
    proof {
        reveal(named_associated_const);
        reveal(named_block);
        reveal(named_expr);
        reveal(named_expr_block_seq);
        reveal(named_expr_seq);
        reveal(named_match_arm);
        reveal(named_match_arm_seq);
        reveal(named_stmt);
        reveal(named_stmt_seq);
        reveal(named_string_expr_seq);
    }
    proof {
        let o = instances(out@);
        let v = x@;
        lemma_cat_assoc(o, type_instances(v.ty), named_expr(v.value));
    }
    collect_from_type(&x.ty, out);
    collect_from_expr(&x.value, out);
}

/// The instances that the types in a type alias name, at any depth.
pub fn collect_from_type_alias_decl(x: &TypeAliasDecl, out: &mut Vec<(String, Vec<Type>)>)
    ensures
        instances(final(out)@) == instances(old(out)@) + named_type_alias_decl(x@),
    decreases x,
{
    proof {
        reveal(named_type_alias_decl);
    }
    collect_from_type(&x.aliased_type, out);
}

/// The instances that the types in a block name, at any depth.
pub fn collect_from_block(x: &Block, out: &mut Vec<(String, Vec<Type>)>)
    ensures
        instances(final(out)@) == instances(old(out)@) + named_block(x@),
    decreases x,
{
    proof {
        reveal(named_block);
        reveal(named_expr);
        reveal(named_expr_block_seq);
        reveal(named_expr_seq);
        reveal(named_match_arm);
        reveal(named_match_arm_seq);
        reveal(named_stmt);
        reveal(named_stmt_seq);
        reveal(named_string_expr_seq);
    }
    proof {
        let o = instances(out@);
        let v = x@;
        lemma_cat_empty(o + (named_stmt_seq(v.stmts)));
        lemma_cat_assoc(
            o,
            named_stmt_seq(v.stmts),
            (match v.tail_expr { Some(y) => named_expr(*y), None => Seq::empty() }),
        );
    }
    collect_from_stmt_seq(&x.stmts, out);
    match &x.tail_expr {
        Some(y) => {
            collect_from_expr(y, out);
        },
        None => {},
    }
}

/// The instances that the types in a statement name, at any depth.
pub fn collect_from_stmt(x: &Stmt, out: &mut Vec<(String, Vec<Type>)>)
    ensures
        instances(final(out)@) == instances(old(out)@) + named_stmt(x@),
    decreases x,
{
    proof {
        reveal(named_block);
        reveal(named_expr);
        reveal(named_expr_block_seq);
        reveal(named_expr_seq);
        reveal(named_match_arm);
        reveal(named_match_arm_seq);
        reveal(named_stmt);
        reveal(named_stmt_seq);
        reveal(named_string_expr_seq);
    }
    proof {
        let o = instances(out@);
        lemma_cat_empty(o);
        match x@ {
            StmtView::Let { type_ann, init, else_block, .. } => {
                lemma_cat_empty(o);
                lemma_cat_assoc(
                    o,
                    (match type_ann { Some(y) => type_instances(y), None => Seq::empty() }),
                    named_expr(init),
                );
                lemma_cat_empty(
                    o + (
                        (
                            match type_ann { Some(y) => type_instances(y), None => Seq::empty() }
                        ) + named_expr(init)
                    ),
                );
                lemma_cat_assoc(
                    o,
                    (
                        match type_ann { Some(y) => type_instances(y), None => Seq::empty() }
                    ) + named_expr(init),
                    (match else_block { Some(y) => named_block(y), None => Seq::empty() }),
                );
            },
            StmtView::Const { type_ann, init, .. } => {
                lemma_cat_empty(o);
                lemma_cat_assoc(
                    o,
                    (match type_ann { Some(y) => type_instances(y), None => Seq::empty() }),
                    named_expr(init),
                );
            },
            StmtView::Return { value, .. } => {
                lemma_cat_empty(o);
            },
            StmtView::Break { value, .. } => {
                lemma_cat_empty(o);
            },
            _ => {},
        }
    }
    match x {
        Stmt::Let { type_ann, init, else_block, .. } => {
            match type_ann {
                Some(y) => {
                    collect_from_type(y, out);
                },
                None => {},
            }
            collect_from_expr(init, out);
            match else_block {
                Some(y) => {
                    collect_from_block(y, out);
                },
                None => {},
            }
        },
        Stmt::Const { type_ann, init, .. } => {
            match type_ann {
                Some(y) => {
                    collect_from_type(y, out);
                },
                None => {},
            }
            collect_from_expr(init, out);
        },
        Stmt::Expr(x0) => {
            collect_from_expr(x0, out);
        },
        Stmt::Return { value, .. } => {
            match value {
                Some(y) => {
                    collect_from_expr(y, out);
                },
                None => {},
            }
        },
        Stmt::Break { value, .. } => {
            match value {
                Some(y) => {
                    collect_from_expr(y, out);
                },
                None => {},
            }
        },
        _ => {},
    }
}

/// The instances that the types in an expression name, at any depth.
pub fn collect_from_expr(x: &Expr, out: &mut Vec<(String, Vec<Type>)>)
    ensures
        instances(final(out)@) == instances(old(out)@) + named_expr(x@),
    decreases x,
{
    proof {
        reveal(named_block);
        reveal(named_expr);
        reveal(named_expr_block_seq);
        reveal(named_expr_seq);
        reveal(named_match_arm);
        reveal(named_match_arm_seq);
        reveal(named_stmt);
        reveal(named_stmt_seq);
        reveal(named_string_expr_seq);
    }
    proof {
        let o = instances(out@);
        lemma_cat_empty(o);
        match x@ {
            ExprView::Call { args, type_args, .. } => {
                lemma_cat_assoc(o, named_expr_seq(args), all_type_instances(type_args));
            },
            ExprView::QualifiedCall { args, type_args, .. } => {
                lemma_cat_assoc(o, named_expr_seq(args), all_type_instances(type_args));
            },
            ExprView::Binary { lhs, rhs, .. } => {
                lemma_cat_assoc(o, named_expr(*lhs), named_expr(*rhs));
            },
            ExprView::Assign { target, value, .. } => {
                lemma_cat_assoc(o, named_expr(*target), named_expr(*value));
            },
            ExprView::Cast { expr, to_type, .. } => {
                lemma_cat_assoc(o, named_expr(*expr), type_instances(to_type));
            },
            ExprView::MethodCall { expr, args, type_args, .. } => {
                lemma_cat_assoc(o, named_expr(*expr), named_expr_seq(args));
                lemma_cat_assoc(
                    o,
                    named_expr(*expr) + named_expr_seq(args),
                    all_type_instances(type_args),
                );
            },
            ExprView::EnumLit { payload, .. } => {
                lemma_cat_empty(o);
            },
            ExprView::If { cond, then_block, else_ifs, else_block, .. } => {
                lemma_cat_assoc(o, named_expr(*cond), named_block(then_block));
                lemma_cat_assoc(
                    o,
                    named_expr(*cond) + named_block(then_block),
                    named_expr_block_seq(else_ifs),
                );
                lemma_cat_empty(
                    o
                        + (named_expr(*cond) + named_block(then_block) + named_expr_block_seq(else_ifs)),
                );
                lemma_cat_assoc(
                    o,
                    named_expr(*cond) + named_block(then_block) + named_expr_block_seq(else_ifs),
                    (match else_block { Some(y) => named_block(y), None => Seq::empty() }),
                );
            },
            ExprView::While { cond, body, .. } => {
                lemma_cat_assoc(o, named_expr(*cond), named_block(body));
            },
            ExprView::For { container, body, .. } => {
                lemma_cat_assoc(o, named_expr(*container), named_block(body));
            },
            ExprView::Index { array, index, .. } => {
                lemma_cat_assoc(o, named_expr(*array), named_expr(*index));
            },
            ExprView::IfLet { scrutinee, then_block, else_block, .. } => {
                lemma_cat_assoc(o, named_expr(*scrutinee), named_block(then_block));
                lemma_cat_empty(o + (named_expr(*scrutinee) + named_block(then_block)));
                lemma_cat_assoc(
                    o,
                    named_expr(*scrutinee) + named_block(then_block),
                    (match else_block { Some(y) => named_block(y), None => Seq::empty() }),
                );
            },
            ExprView::Match { scrutinee, arms, .. } => {
                lemma_cat_assoc(o, named_expr(*scrutinee), named_match_arm_seq(arms));
            },
            _ => {},
        }
    }
    match x {
        Expr::Call { args, type_args, .. } => {
            collect_from_expr_seq(args, out);
            collect_from_types(type_args, out);
        },
        Expr::QualifiedCall { args, type_args, .. } => {
            collect_from_expr_seq(args, out);
            collect_from_types(type_args, out);
        },
        Expr::Binary { lhs, rhs, .. } => {
            collect_from_expr(lhs, out);
            collect_from_expr(rhs, out);
        },
        Expr::Assign { target, value, .. } => {
            collect_from_expr(target, out);
            collect_from_expr(value, out);
        },
        Expr::Ref { expr, .. } => {
            collect_from_expr(expr, out);
        },
        Expr::UnaryNot(x0, _) => {
            collect_from_expr(x0, out);
        },
        Expr::UnaryMinus(x0, _) => {
            collect_from_expr(x0, out);
        },
        Expr::Deref(x0, _) => {
            collect_from_expr(x0, out);
        },
        Expr::Cast { expr, to_type, .. } => {
            collect_from_expr(expr, out);
            collect_from_type(to_type, out);
        },
        Expr::Tuple(x0, _) => {
            collect_from_expr_seq(x0, out);
        },
        Expr::Member { expr, .. } => {
            collect_from_expr(expr, out);
        },
        Expr::MethodCall { expr, args, type_args, .. } => {
            collect_from_expr(expr, out);
            collect_from_expr_seq(args, out);
            collect_from_types(type_args, out);
        },
        Expr::StructLit { fields, .. } => {
            collect_from_string_expr_seq(fields, out);
        },
        Expr::EnumLit { payload, .. } => {
            match payload {
                Some(y) => {
                    collect_from_expr(y, out);
                },
                None => {},
            }
        },
        Expr::If { cond, then_block, else_ifs, else_block, .. } => {
            collect_from_expr(cond, out);
            collect_from_block(then_block, out);
            collect_from_expr_block_seq(else_ifs, out);
            match else_block {
                Some(y) => {
                    collect_from_block(y, out);
                },
                None => {},
            }
        },
        Expr::Loop { body, .. } => {
            collect_from_block(body, out);
        },
        Expr::While { cond, body, .. } => {
            collect_from_expr(cond, out);
            collect_from_block(body, out);
        },
        Expr::For { container, body, .. } => {
            collect_from_expr(container, out);
            collect_from_block(body, out);
        },
        Expr::Array(x0, _) => {
            collect_from_expr_seq(x0, out);
        },
        Expr::Repeat(x0, _, _) => {
            collect_from_expr(x0, out);
        },
        Expr::Index { array, index, .. } => {
            collect_from_expr(array, out);
            collect_from_expr(index, out);
        },
        Expr::IfLet { scrutinee, then_block, else_block, .. } => {
            collect_from_expr(scrutinee, out);
            collect_from_block(then_block, out);
            match else_block {
                Some(y) => {
                    collect_from_block(y, out);
                },
                None => {},
            }
        },
        Expr::Match { scrutinee, arms, .. } => {
            collect_from_expr(scrutinee, out);
            collect_from_match_arm_seq(arms, out);
        },
        Expr::Block(x0, _) => {
            collect_from_block(x0, out);
        },
        _ => {},
    }
}

/// The instances that the types in an arm name, at any depth.
pub fn collect_from_match_arm(x: &MatchArm, out: &mut Vec<(String, Vec<Type>)>)
    ensures
        instances(final(out)@) == instances(old(out)@) + named_match_arm(x@),
    decreases x,
{
    proof {
        reveal(named_block);
        reveal(named_expr);
        reveal(named_expr_block_seq);
        reveal(named_expr_seq);
        reveal(named_match_arm);
        reveal(named_match_arm_seq);
        reveal(named_stmt);
        reveal(named_stmt_seq);
        reveal(named_string_expr_seq);
    }
    proof {
        let o = instances(out@);
        let v = x@;
        lemma_cat_empty(o);
        lemma_cat_assoc(
            o,
            (match v.guard { Some(y) => named_expr(*y), None => Seq::empty() }),
            named_block(v.body),
        );
    }
    match &x.guard {
        Some(y) => {
            collect_from_expr(y, out);
        },
        None => {},
    }
    collect_from_block(&x.body, out);
}

fn collect_from_function_seq(v: &Vec<Function>, out: &mut Vec<(String, Vec<Type>)>)
    ensures
        instances(final(out)@) == instances(old(out)@) + named_function_seq(function_seq_view(v@)),
    decreases v,
{
    proof {
        reveal(named_function);
        reveal(named_function_seq);
    }
    let ghost all = function_seq_view(v@);
    let ghost start = instances(out@);
    let mut i: usize = 0;
    proof {
        lemma_cat_empty(start);
    }
    while i < v.len()
        invariant
            i <= v@.len(),
            all == function_seq_view(v@),
            instances(out@) == start + named_function_seq(all.take(i as int)),
        decreases v@.len() - i,
    {
        proof {
            reveal(named_function);
            reveal(named_function_seq);
        }
        collect_from_function(&v[i], out);
        proof {
            lemma_cat_assoc(
                start,
                named_function_seq(all.take(i as int)),
                named_function(all[i as int]),
            );
            let t = all.take(i + 1);
            assert(t.drop_last() =~= all.take(i as int));
            assert(t.last() == all[i as int]);
        }
        i += 1;
    }
    proof {
        assert(all.take(i as int) =~= all);
    }
}

fn collect_from_struct_decl_seq(v: &Vec<StructDecl>, out: &mut Vec<(String, Vec<Type>)>)
    ensures
        instances(final(out)@) == instances(old(out)@)
            + named_struct_decl_seq(struct_decl_seq_view(v@)),
    decreases v,
{
    proof {
        reveal(named_struct_decl);
        reveal(named_struct_decl_seq);
    }
    let ghost all = struct_decl_seq_view(v@);
    let ghost start = instances(out@);
    let mut i: usize = 0;
    proof {
        lemma_cat_empty(start);
    }
    while i < v.len()
        invariant
            i <= v@.len(),
            all == struct_decl_seq_view(v@),
            instances(out@) == start + named_struct_decl_seq(all.take(i as int)),
        decreases v@.len() - i,
    {
        proof {
            reveal(named_struct_decl);
            reveal(named_struct_decl_seq);
        }
        collect_from_struct_decl(&v[i], out);
        proof {
            lemma_cat_assoc(
                start,
                named_struct_decl_seq(all.take(i as int)),
                named_struct_decl(all[i as int]),
            );
            let t = all.take(i + 1);
            assert(t.drop_last() =~= all.take(i as int));
            assert(t.last() == all[i as int]);
        }
        i += 1;
    }
    proof {
        assert(all.take(i as int) =~= all);
    }
}

fn collect_from_enum_decl_seq(v: &Vec<EnumDecl>, out: &mut Vec<(String, Vec<Type>)>)
    ensures
        instances(final(out)@) == instances(old(out)@)
            + named_enum_decl_seq(enum_decl_seq_view(v@)),
    decreases v,
{
    proof {
        reveal(named_enum_decl);
        reveal(named_enum_decl_seq);
    }
    let ghost all = enum_decl_seq_view(v@);
    let ghost start = instances(out@);
    let mut i: usize = 0;
    proof {
        lemma_cat_empty(start);
    }
    while i < v.len()
        invariant
            i <= v@.len(),
            all == enum_decl_seq_view(v@),
            instances(out@) == start + named_enum_decl_seq(all.take(i as int)),
        decreases v@.len() - i,
    {
        proof {
            reveal(named_enum_decl);
            reveal(named_enum_decl_seq);
        }
        collect_from_enum_decl(&v[i], out);
        proof {
            lemma_cat_assoc(
                start,
                named_enum_decl_seq(all.take(i as int)),
                named_enum_decl(all[i as int]),
            );
            let t = all.take(i + 1);
            assert(t.drop_last() =~= all.take(i as int));
            assert(t.last() == all[i as int]);
        }
        i += 1;
    }
    proof {
        assert(all.take(i as int) =~= all);
    }
}

fn collect_from_trait_decl_seq(v: &Vec<TraitDecl>, out: &mut Vec<(String, Vec<Type>)>)
    ensures
        instances(final(out)@) == instances(old(out)@)
            + named_trait_decl_seq(trait_decl_seq_view(v@)),
    decreases v,
{
    proof {
        reveal(named_trait_decl);
        reveal(named_trait_decl_seq);
    }
    let ghost all = trait_decl_seq_view(v@);
    let ghost start = instances(out@);
    let mut i: usize = 0;
    proof {
        lemma_cat_empty(start);
    }
    while i < v.len()
        invariant
            i <= v@.len(),
            all == trait_decl_seq_view(v@),
            instances(out@) == start + named_trait_decl_seq(all.take(i as int)),
        decreases v@.len() - i,
    {
        proof {
            reveal(named_trait_decl);
            reveal(named_trait_decl_seq);
        }
        collect_from_trait_decl(&v[i], out);
        proof {
            lemma_cat_assoc(
                start,
                named_trait_decl_seq(all.take(i as int)),
                named_trait_decl(all[i as int]),
            );
            let t = all.take(i + 1);
            assert(t.drop_last() =~= all.take(i as int));
            assert(t.last() == all[i as int]);
        }
        i += 1;
    }
    proof {
        assert(all.take(i as int) =~= all);
    }
}

fn collect_from_impl_decl_seq(v: &Vec<ImplDecl>, out: &mut Vec<(String, Vec<Type>)>)
    ensures
        instances(final(out)@) == instances(old(out)@)
            + named_impl_decl_seq(impl_decl_seq_view(v@)),
    decreases v,
{
    proof {
        reveal(named_impl_decl);
        reveal(named_impl_decl_seq);
    }
    let ghost all = impl_decl_seq_view(v@);
    let ghost start = instances(out@);
    let mut i: usize = 0;
    proof {
        lemma_cat_empty(start);
    }
    while i < v.len()
        invariant
            i <= v@.len(),
            all == impl_decl_seq_view(v@),
            instances(out@) == start + named_impl_decl_seq(all.take(i as int)),
        decreases v@.len() - i,
    {
        proof {
            reveal(named_impl_decl);
            reveal(named_impl_decl_seq);
        }
        collect_from_impl_decl(&v[i], out);
        proof {
            lemma_cat_assoc(
                start,
                named_impl_decl_seq(all.take(i as int)),
                named_impl_decl(all[i as int]),
            );
            let t = all.take(i + 1);
            assert(t.drop_last() =~= all.take(i as int));
            assert(t.last() == all[i as int]);
        }
        i += 1;
    }
    proof {
        assert(all.take(i as int) =~= all);
    }
}

fn collect_from_type_alias_decl_seq(v: &Vec<TypeAliasDecl>, out: &mut Vec<(String, Vec<Type>)>)
    ensures
        instances(final(out)@) == instances(old(out)@)
            + named_type_alias_decl_seq(type_alias_decl_seq_view(v@)),
    decreases v,
{
    proof {
        reveal(named_type_alias_decl);
        reveal(named_type_alias_decl_seq);
    }
    let ghost all = type_alias_decl_seq_view(v@);
    let ghost start = instances(out@);
    let mut i: usize = 0;
    proof {
        lemma_cat_empty(start);
    }
    while i < v.len()
        invariant
            i <= v@.len(),
            all == type_alias_decl_seq_view(v@),
            instances(out@) == start + named_type_alias_decl_seq(all.take(i as int)),
        decreases v@.len() - i,
    {
        proof {
            reveal(named_type_alias_decl);
            reveal(named_type_alias_decl_seq);
        }
        collect_from_type_alias_decl(&v[i], out);
        proof {
            lemma_cat_assoc(
                start,
                named_type_alias_decl_seq(all.take(i as int)),
                named_type_alias_decl(all[i as int]),
            );
            let t = all.take(i + 1);
            assert(t.drop_last() =~= all.take(i as int));
            assert(t.last() == all[i as int]);
        }
        i += 1;
    }
    proof {
        assert(all.take(i as int) =~= all);
    }
}

fn collect_from_param_seq(v: &Vec<Param>, out: &mut Vec<(String, Vec<Type>)>)
    ensures
        instances(final(out)@) == instances(old(out)@) + named_param_seq(param_seq_view(v@)),
    decreases v,
{
    proof {
        reveal(named_param);
        reveal(named_param_seq);
    }
    let ghost all = param_seq_view(v@);
    let ghost start = instances(out@);
    let mut i: usize = 0;
    proof {
        lemma_cat_empty(start);
    }
    while i < v.len()
        invariant
            i <= v@.len(),
            all == param_seq_view(v@),
            instances(out@) == start + named_param_seq(all.take(i as int)),
        decreases v@.len() - i,
    {
        proof {
            reveal(named_param);
            reveal(named_param_seq);
        }
        collect_from_param(&v[i], out);
        proof {
            lemma_cat_assoc(start, named_param_seq(all.take(i as int)), named_param(all[i as int]));
            let t = all.take(i + 1);
            assert(t.drop_last() =~= all.take(i as int));
            assert(t.last() == all[i as int]);
        }
        i += 1;
    }
    proof {
        assert(all.take(i as int) =~= all);
    }
}

fn collect_from_struct_field_seq(v: &Vec<StructField>, out: &mut Vec<(String, Vec<Type>)>)
    ensures
        instances(final(out)@) == instances(old(out)@)
            + named_struct_field_seq(struct_field_seq_view(v@)),
    decreases v,
{
    proof {
        reveal(named_struct_field);
        reveal(named_struct_field_seq);
    }
    let ghost all = struct_field_seq_view(v@);
    let ghost start = instances(out@);
    let mut i: usize = 0;
    proof {
        lemma_cat_empty(start);
    }
    while i < v.len()
        invariant
            i <= v@.len(),
            all == struct_field_seq_view(v@),
            instances(out@) == start + named_struct_field_seq(all.take(i as int)),
        decreases v@.len() - i,
    {
        proof {
            reveal(named_struct_field);
            reveal(named_struct_field_seq);
        }
        collect_from_struct_field(&v[i], out);
        proof {
            lemma_cat_assoc(
                start,
                named_struct_field_seq(all.take(i as int)),
                named_struct_field(all[i as int]),
            );
            let t = all.take(i + 1);
            assert(t.drop_last() =~= all.take(i as int));
            assert(t.last() == all[i as int]);
        }
        i += 1;
    }
    proof {
        assert(all.take(i as int) =~= all);
    }
}

fn collect_from_enum_variant_seq(v: &Vec<EnumVariant>, out: &mut Vec<(String, Vec<Type>)>)
    ensures
        instances(final(out)@) == instances(old(out)@)
            + named_enum_variant_seq(enum_variant_seq_view(v@)),
    decreases v,
{
    proof {
        reveal(named_enum_variant);
        reveal(named_enum_variant_seq);
    }
    let ghost all = enum_variant_seq_view(v@);
    let ghost start = instances(out@);
    let mut i: usize = 0;
    proof {
        lemma_cat_empty(start);
    }
    while i < v.len()
        invariant
            i <= v@.len(),
            all == enum_variant_seq_view(v@),
            instances(out@) == start + named_enum_variant_seq(all.take(i as int)),
        decreases v@.len() - i,
    {
        proof {
            reveal(named_enum_variant);
            reveal(named_enum_variant_seq);
        }
        collect_from_enum_variant(&v[i], out);
        proof {
            lemma_cat_assoc(
                start,
                named_enum_variant_seq(all.take(i as int)),
                named_enum_variant(all[i as int]),
            );
            let t = all.take(i + 1);
            assert(t.drop_last() =~= all.take(i as int));
            assert(t.last() == all[i as int]);
        }
        i += 1;
    }
    proof {
        assert(all.take(i as int) =~= all);
    }
}

fn collect_from_trait_method_def_seq(v: &Vec<TraitMethodDef>, out: &mut Vec<(String, Vec<Type>)>)
    ensures
        instances(final(out)@) == instances(old(out)@)
            + named_trait_method_def_seq(trait_method_def_seq_view(v@)),
    decreases v,
{
    proof {
        reveal(named_trait_method_def);
        reveal(named_trait_method_def_seq);
    }
    let ghost all = trait_method_def_seq_view(v@);
    let ghost start = instances(out@);
    let mut i: usize = 0;
    proof {
        lemma_cat_empty(start);
    }
    while i < v.len()
        invariant
            i <= v@.len(),
            all == trait_method_def_seq_view(v@),
            instances(out@) == start + named_trait_method_def_seq(all.take(i as int)),
        decreases v@.len() - i,
    {
        proof {
            reveal(named_trait_method_def);
            reveal(named_trait_method_def_seq);
        }
        collect_from_trait_method_def(&v[i], out);
        proof {
            lemma_cat_assoc(
                start,
                named_trait_method_def_seq(all.take(i as int)),
                named_trait_method_def(all[i as int]),
            );
            let t = all.take(i + 1);
            assert(t.drop_last() =~= all.take(i as int));
            assert(t.last() == all[i as int]);
        }
        i += 1;
    }
    proof {
        assert(all.take(i as int) =~= all);
    }
}

fn collect_from_trait_const_seq(v: &Vec<TraitConst>, out: &mut Vec<(String, Vec<Type>)>)
    ensures
        instances(final(out)@) == instances(old(out)@)
            + named_trait_const_seq(trait_const_seq_view(v@)),
    decreases v,
{
    proof {
        reveal(named_trait_const);
        reveal(named_trait_const_seq);
    }
    let ghost all = trait_const_seq_view(v@);
    let ghost start = instances(out@);
    let mut i: usize = 0;
    proof {
        lemma_cat_empty(start);
    }
    while i < v.len()
        invariant
            i <= v@.len(),
            all == trait_const_seq_view(v@),
            instances(out@) == start + named_trait_const_seq(all.take(i as int)),
        decreases v@.len() - i,
    {
        proof {
            reveal(named_trait_const);
            reveal(named_trait_const_seq);
        }
        collect_from_trait_const(&v[i], out);
        proof {
            lemma_cat_assoc(
                start,
                named_trait_const_seq(all.take(i as int)),
                named_trait_const(all[i as int]),
            );
            let t = all.take(i + 1);
            assert(t.drop_last() =~= all.take(i as int));
            assert(t.last() == all[i as int]);
        }
        i += 1;
    }
    proof {
        assert(all.take(i as int) =~= all);
    }
}

fn collect_from_associated_const_seq(v: &Vec<AssociatedConst>, out: &mut Vec<(String, Vec<Type>)>)
    ensures
        instances(final(out)@) == instances(old(out)@)
            + named_associated_const_seq(associated_const_seq_view(v@)),
    decreases v,
{
    proof {
        reveal(named_associated_const);
        reveal(named_associated_const_seq);
    }
    let ghost all = associated_const_seq_view(v@);
    let ghost start = instances(out@);
    let mut i: usize = 0;
    proof {
        lemma_cat_empty(start);
    }
    while i < v.len()
        invariant
            i <= v@.len(),
            all == associated_const_seq_view(v@),
            instances(out@) == start + named_associated_const_seq(all.take(i as int)),
        decreases v@.len() - i,
    {
        proof {
            reveal(named_associated_const);
            reveal(named_associated_const_seq);
        }
        collect_from_associated_const(&v[i], out);
        proof {
            lemma_cat_assoc(
                start,
                named_associated_const_seq(all.take(i as int)),
                named_associated_const(all[i as int]),
            );
            let t = all.take(i + 1);
            assert(t.drop_last() =~= all.take(i as int));
            assert(t.last() == all[i as int]);
        }
        i += 1;
    }
    proof {
        assert(all.take(i as int) =~= all);
    }
}

fn collect_from_stmt_seq(v: &Vec<Stmt>, out: &mut Vec<(String, Vec<Type>)>)
    ensures
        instances(final(out)@) == instances(old(out)@) + named_stmt_seq(stmt_seq_view(v@)),
    decreases v,
{
    proof {
        reveal(named_block);
        reveal(named_expr);
        reveal(named_expr_block_seq);
        reveal(named_expr_seq);
        reveal(named_match_arm);
        reveal(named_match_arm_seq);
        reveal(named_stmt);
        reveal(named_stmt_seq);
        reveal(named_string_expr_seq);
    }
    let ghost all = stmt_seq_view(v@);
    let ghost start = instances(out@);
    let mut i: usize = 0;
    proof {
        lemma_cat_empty(start);
    }
    while i < v.len()
        invariant
            i <= v@.len(),
            all == stmt_seq_view(v@),
            instances(out@) == start + named_stmt_seq(all.take(i as int)),
        decreases v@.len() - i,
    {
        proof {
            reveal(named_block);
            reveal(named_expr);
            reveal(named_expr_block_seq);
            reveal(named_expr_seq);
            reveal(named_match_arm);
            reveal(named_match_arm_seq);
            reveal(named_stmt);
            reveal(named_stmt_seq);
            reveal(named_string_expr_seq);
        }
        collect_from_stmt(&v[i], out);
        proof {
            lemma_cat_assoc(start, named_stmt_seq(all.take(i as int)), named_stmt(all[i as int]));
            let t = all.take(i + 1);
            assert(t.drop_last() =~= all.take(i as int));
            assert(t.last() == all[i as int]);
        }
        i += 1;
    }
    proof {
        assert(all.take(i as int) =~= all);
    }
}

fn collect_from_expr_seq(v: &Vec<Expr>, out: &mut Vec<(String, Vec<Type>)>)
    ensures
        instances(final(out)@) == instances(old(out)@) + named_expr_seq(expr_seq_view(v@)),
    decreases v,
{
    proof {
        reveal(named_block);
        reveal(named_expr);
        reveal(named_expr_block_seq);
        reveal(named_expr_seq);
        reveal(named_match_arm);
        reveal(named_match_arm_seq);
        reveal(named_stmt);
        reveal(named_stmt_seq);
        reveal(named_string_expr_seq);
    }
    let ghost all = expr_seq_view(v@);
    let ghost start = instances(out@);
    let mut i: usize = 0;
    proof {
        lemma_cat_empty(start);
    }
    while i < v.len()
        invariant
            i <= v@.len(),
            all == expr_seq_view(v@),
            instances(out@) == start + named_expr_seq(all.take(i as int)),
        decreases v@.len() - i,
    {
        proof {
            reveal(named_block);
            reveal(named_expr);
            reveal(named_expr_block_seq);
            reveal(named_expr_seq);
            reveal(named_match_arm);
            reveal(named_match_arm_seq);
            reveal(named_stmt);
            reveal(named_stmt_seq);
            reveal(named_string_expr_seq);
        }
        collect_from_expr(&v[i], out);
        proof {
            lemma_cat_assoc(start, named_expr_seq(all.take(i as int)), named_expr(all[i as int]));
            let t = all.take(i + 1);
            assert(t.drop_last() =~= all.take(i as int));
            assert(t.last() == all[i as int]);
        }
        i += 1;
    }
    proof {
        assert(all.take(i as int) =~= all);
    }
}

fn collect_from_string_expr_seq(v: &Vec<(String, Expr)>, out: &mut Vec<(String, Vec<Type>)>)
    ensures
        instances(final(out)@) == instances(old(out)@)
            + named_string_expr_seq(string_expr_seq_view(v@)),
    decreases v,
{
    proof {
        reveal(named_block);
        reveal(named_expr);
        reveal(named_expr_block_seq);
        reveal(named_expr_seq);
        reveal(named_match_arm);
        reveal(named_match_arm_seq);
        reveal(named_stmt);
        reveal(named_stmt_seq);
        reveal(named_string_expr_seq);
    }
    let ghost all = string_expr_seq_view(v@);
    let ghost start = instances(out@);
    let mut i: usize = 0;
    proof {
        lemma_cat_empty(start);
    }
    while i < v.len()
        invariant
            i <= v@.len(),
            all == string_expr_seq_view(v@),
            instances(out@) == start + named_string_expr_seq(all.take(i as int)),
        decreases v@.len() - i,
    {
        proof {
            reveal(named_block);
            reveal(named_expr);
            reveal(named_expr_block_seq);
            reveal(named_expr_seq);
            reveal(named_match_arm);
            reveal(named_match_arm_seq);
            reveal(named_stmt);
            reveal(named_stmt_seq);
            reveal(named_string_expr_seq);
        }
        collect_from_expr(&v[i].1, out);
        proof {
            lemma_cat_assoc(
                start,
                named_string_expr_seq(all.take(i as int)),
                named_expr(all[i as int].1),
            );
            let t = all.take(i + 1);
            assert(t.drop_last() =~= all.take(i as int));
            assert(t.last() == all[i as int]);
        }
        i += 1;
    }
    proof {
        assert(all.take(i as int) =~= all);
    }
}

fn collect_from_expr_block_seq(v: &Vec<(Expr, Block)>, out: &mut Vec<(String, Vec<Type>)>)
    ensures
        instances(final(out)@) == instances(old(out)@)
            + named_expr_block_seq(expr_block_seq_view(v@)),
    decreases v,
{
    proof {
        reveal(named_block);
        reveal(named_expr);
        reveal(named_expr_block_seq);
        reveal(named_expr_seq);
        reveal(named_match_arm);
        reveal(named_match_arm_seq);
        reveal(named_stmt);
        reveal(named_stmt_seq);
        reveal(named_string_expr_seq);
    }
    let ghost all = expr_block_seq_view(v@);
    let ghost start = instances(out@);
    let mut i: usize = 0;
    proof {
        lemma_cat_empty(start);
    }
    while i < v.len()
        invariant
            i <= v@.len(),
            all == expr_block_seq_view(v@),
            instances(out@) == start + named_expr_block_seq(all.take(i as int)),
        decreases v@.len() - i,
    {
        proof {
            reveal(named_block);
            reveal(named_expr);
            reveal(named_expr_block_seq);
            reveal(named_expr_seq);
            reveal(named_match_arm);
            reveal(named_match_arm_seq);
            reveal(named_stmt);
            reveal(named_stmt_seq);
            reveal(named_string_expr_seq);
        }
        collect_from_expr(&v[i].0, out);
        collect_from_block(&v[i].1, out);
        proof {
            lemma_cat_assoc(
                start,
                named_expr_block_seq(all.take(i as int)),
                named_expr(all[i as int].0) + named_block(all[i as int].1),
            );
            lemma_cat_assoc(
                start + named_expr_block_seq(all.take(i as int)),
                named_expr(all[i as int].0),
                named_block(all[i as int].1),
            );
            let t = all.take(i + 1);
            assert(t.drop_last() =~= all.take(i as int));
            assert(t.last() == all[i as int]);
        }
        i += 1;
    }
    proof {
        assert(all.take(i as int) =~= all);
    }
}

fn collect_from_match_arm_seq(v: &Vec<MatchArm>, out: &mut Vec<(String, Vec<Type>)>)
    ensures
        instances(final(out)@) == instances(old(out)@)
            + named_match_arm_seq(match_arm_seq_view(v@)),
    decreases v,
{
    proof {
        reveal(named_block);
        reveal(named_expr);
        reveal(named_expr_block_seq);
        reveal(named_expr_seq);
        reveal(named_match_arm);
        reveal(named_match_arm_seq);
        reveal(named_stmt);
        reveal(named_stmt_seq);
        reveal(named_string_expr_seq);
    }
    let ghost all = match_arm_seq_view(v@);
    let ghost start = instances(out@);
    let mut i: usize = 0;
    proof {
        lemma_cat_empty(start);
    }
    while i < v.len()
        invariant
            i <= v@.len(),
            all == match_arm_seq_view(v@),
            instances(out@) == start + named_match_arm_seq(all.take(i as int)),
        decreases v@.len() - i,
    {
        proof {
            reveal(named_block);
            reveal(named_expr);
            reveal(named_expr_block_seq);
            reveal(named_expr_seq);
            reveal(named_match_arm);
            reveal(named_match_arm_seq);
            reveal(named_stmt);
            reveal(named_stmt_seq);
            reveal(named_string_expr_seq);
        }
        collect_from_match_arm(&v[i], out);
        proof {
            lemma_cat_assoc(
                start,
                named_match_arm_seq(all.take(i as int)),
                named_match_arm(all[i as int]),
            );
            let t = all.take(i + 1);
            assert(t.drop_last() =~= all.take(i as int));
            assert(t.last() == all[i as int]);
        }
        i += 1;
    }
    proof {
        assert(all.take(i as int) =~= all);
    }
}

/// The instances that the enum literals in a program need.
#[verifier::opaque]
pub open spec fn enum_lits_program(
    x: ProgramView,
    one: Set<Seq<char>>,
) -> Seq<(Seq<char>, Seq<TypeView>)>
    decreases x,
{
    enum_lits_function_seq(x.funcs, one) + enum_lits_trait_decl_seq(x.traits, one)
        + enum_lits_impl_decl_seq(x.impls, one)
}

/// The instances that the enum literals in a function need.
#[verifier::opaque]
pub open spec fn enum_lits_function(
    x: FunctionView,
    one: Set<Seq<char>>,
) -> Seq<(Seq<char>, Seq<TypeView>)>
    decreases x,
{
    enum_lits_block(x.body, one)
}

/// The instances that the enum literals in a trait need.
#[verifier::opaque]
pub open spec fn enum_lits_trait_decl(
    x: TraitDeclView,
    one: Set<Seq<char>>,
) -> Seq<(Seq<char>, Seq<TypeView>)>
    decreases x,
{
    enum_lits_trait_method_def_seq(x.methods, one) + enum_lits_trait_const_seq(x.consts, one)
}

/// The instances that the enum literals in a method of a trait need.
#[verifier::opaque]
pub open spec fn enum_lits_trait_method_def(
    x: TraitMethodDefView,
    one: Set<Seq<char>>,
) -> Seq<(Seq<char>, Seq<TypeView>)>
    decreases x,
{
    (match x.body { Some(y) => enum_lits_block(y, one), None => Seq::empty() })
}

/// The instances that the enum literals in a constant of a trait need.
#[verifier::opaque]
pub open spec fn enum_lits_trait_const(
    x: TraitConstView,
    one: Set<Seq<char>>,
) -> Seq<(Seq<char>, Seq<TypeView>)>
    decreases x,
{
    (match x.default_value { Some(y) => enum_lits_expr(y, one), None => Seq::empty() })
}

/// The instances that the enum literals in an `impl` block need.
#[verifier::opaque]
pub open spec fn enum_lits_impl_decl(
    x: ImplDeclView,
    one: Set<Seq<char>>,
) -> Seq<(Seq<char>, Seq<TypeView>)>
    decreases x,
{
    enum_lits_function_seq(x.methods, one) + enum_lits_associated_const_seq(x.consts, one)
}

/// The instances that the enum literals in an associated constant need.
#[verifier::opaque]
pub open spec fn enum_lits_associated_const(
    x: AssociatedConstView,
    one: Set<Seq<char>>,
) -> Seq<(Seq<char>, Seq<TypeView>)>
    decreases x,
{
    enum_lits_expr(x.value, one)
}

/// The instances that the enum literals in a block need, at any depth: a literal of an enum with
/// one
/// type parameter whose payload is, by its syntax, of a primitive type.
#[verifier::opaque]
pub open spec fn enum_lits_block(
    x: BlockView,
    one: Set<Seq<char>>,
) -> Seq<(Seq<char>, Seq<TypeView>)>
    decreases x,
{
    enum_lits_stmt_seq(x.stmts, one) + (
        match x.tail_expr { Some(y) => enum_lits_expr(*y, one), None => Seq::empty() }
    )
}

/// The instances that the enum literals in a statement need.
#[verifier::opaque]
pub open spec fn enum_lits_stmt(x: StmtView, one: Set<Seq<char>>) -> Seq<(Seq<char>, Seq<TypeView>)>
    decreases x,
{
    match x {
        StmtView::Let { init, else_block, .. } => enum_lits_expr(init, one) + (
            match else_block { Some(y) => enum_lits_block(y, one), None => Seq::empty() }
        ),
        StmtView::Const { init, .. } => enum_lits_expr(init, one),
        StmtView::Expr(x0) => enum_lits_expr(x0, one),
        StmtView::Return { value, .. } => (
            match value { Some(y) => enum_lits_expr(*y, one), None => Seq::empty() }
        ),
        StmtView::Break { value, .. } => (
            match value { Some(y) => enum_lits_expr(*y, one), None => Seq::empty() }
        ),
        _ => Seq::empty(),
    }
}

/// The instances that the enum literals in an expression need.
#[verifier::opaque]
pub open spec fn enum_lits_expr(x: ExprView, one: Set<Seq<char>>) -> Seq<(Seq<char>, Seq<TypeView>)>
    decreases x,
{
    match x {
        ExprView::Call { args, .. } => enum_lits_expr_seq(args, one),
        ExprView::QualifiedCall { args, .. } => enum_lits_expr_seq(args, one),
        ExprView::Binary { lhs, rhs, .. } => enum_lits_expr(*lhs, one) + enum_lits_expr(*rhs, one),
        ExprView::Assign {
            target,
            value,
            ..
        } => enum_lits_expr(*target, one) + enum_lits_expr(*value, one),
        ExprView::Ref { expr, .. } => enum_lits_expr(*expr, one),
        ExprView::UnaryNot(x0, _) => enum_lits_expr(*x0, one),
        ExprView::UnaryMinus(x0, _) => enum_lits_expr(*x0, one),
        ExprView::Deref(x0, _) => enum_lits_expr(*x0, one),
        ExprView::Cast { expr, .. } => enum_lits_expr(*expr, one),
        ExprView::Tuple(x0, _) => enum_lits_expr_seq(x0, one),
        ExprView::Member { expr, .. } => enum_lits_expr(*expr, one),
        ExprView::MethodCall {
            expr,
            args,
            ..
        } => enum_lits_expr(*expr, one) + enum_lits_expr_seq(args, one),
        ExprView::StructLit { fields, .. } => enum_lits_string_expr_seq(fields, one),
        ExprView::EnumLit { enum_name, payload, .. } => match payload {
            Some(p) => enum_lits_expr(*p, one) + enum_lit_need(enum_name, lit_type(*p), one),
            None => Seq::empty(),
        },
        ExprView::If { cond, then_block, else_ifs, else_block, .. } => enum_lits_expr(*cond, one) + enum_lits_block(then_block, one) + enum_lits_expr_block_seq(else_ifs, one) + (
            match else_block { Some(y) => enum_lits_block(y, one), None => Seq::empty() }
        ),
        ExprView::Loop { body, .. } => enum_lits_block(body, one),
        ExprView::While {
            cond,
            body,
            ..
        } => enum_lits_expr(*cond, one) + enum_lits_block(body, one),
        ExprView::For {
            container,
            body,
            ..
        } => enum_lits_expr(*container, one) + enum_lits_block(body, one),
        ExprView::Array(x0, _) => enum_lits_expr_seq(x0, one),
        ExprView::Repeat(x0, _, _) => enum_lits_expr(*x0, one),
        ExprView::Index {
            array,
            index,
            ..
        } => enum_lits_expr(*array, one) + enum_lits_expr(*index, one),
        ExprView::IfLet { scrutinee, then_block, else_block, .. } => enum_lits_expr(*scrutinee, one) + enum_lits_block(then_block, one) + (
            match else_block { Some(y) => enum_lits_block(y, one), None => Seq::empty() }
        ),
        ExprView::Match {
            scrutinee,
            arms,
            ..
        } => enum_lits_expr(*scrutinee, one) + enum_lits_match_arm_seq(arms, one),
        ExprView::Block(x0, _) => enum_lits_block(x0, one),
        _ => Seq::empty(),
    }
}

/// The instances that the enum literals in an arm need.
#[verifier::opaque]
pub open spec fn enum_lits_match_arm(
    x: MatchArmView,
    one: Set<Seq<char>>,
) -> Seq<(Seq<char>, Seq<TypeView>)>
    decreases x,
{
    (
        match x.guard { Some(y) => enum_lits_expr(*y, one), None => Seq::empty() }
    ) + enum_lits_block(x.body, one)
}

/// The same over all elements, in order.
#[verifier::opaque]
pub open spec fn enum_lits_function_seq(
    s: Seq<FunctionView>,
    one: Set<Seq<char>>,
) -> Seq<(Seq<char>, Seq<TypeView>)>
    decreases s,
{
    if s.len() == 0 {
        Seq::empty()
    } else {
        enum_lits_function_seq(s.drop_last(), one) + (enum_lits_function(s.last(), one))
    }
}

/// The same over all elements, in order.
#[verifier::opaque]
pub open spec fn enum_lits_trait_decl_seq(
    s: Seq<TraitDeclView>,
    one: Set<Seq<char>>,
) -> Seq<(Seq<char>, Seq<TypeView>)>
    decreases s,
{
    if s.len() == 0 {
        Seq::empty()
    } else {
        enum_lits_trait_decl_seq(s.drop_last(), one) + (enum_lits_trait_decl(s.last(), one))
    }
}

/// The same over all elements, in order.
#[verifier::opaque]
pub open spec fn enum_lits_impl_decl_seq(
    s: Seq<ImplDeclView>,
    one: Set<Seq<char>>,
) -> Seq<(Seq<char>, Seq<TypeView>)>
    decreases s,
{
    if s.len() == 0 {
        Seq::empty()
    } else {
        enum_lits_impl_decl_seq(s.drop_last(), one) + (enum_lits_impl_decl(s.last(), one))
    }
}

/// The same over all elements, in order.
#[verifier::opaque]
pub open spec fn enum_lits_trait_method_def_seq(
    s: Seq<TraitMethodDefView>,
    one: Set<Seq<char>>,
) -> Seq<(Seq<char>, Seq<TypeView>)>
    decreases s,
{
    if s.len() == 0 {
        Seq::empty()
    } else {
        enum_lits_trait_method_def_seq(s.drop_last(), one)
            + (enum_lits_trait_method_def(s.last(), one))
    }
}

/// The same over all elements, in order.
#[verifier::opaque]
pub open spec fn enum_lits_trait_const_seq(
    s: Seq<TraitConstView>,
    one: Set<Seq<char>>,
) -> Seq<(Seq<char>, Seq<TypeView>)>
    decreases s,
{
    if s.len() == 0 {
        Seq::empty()
    } else {
        enum_lits_trait_const_seq(s.drop_last(), one) + (enum_lits_trait_const(s.last(), one))
    }
}

/// The same over all elements, in order.
#[verifier::opaque]
pub open spec fn enum_lits_associated_const_seq(
    s: Seq<AssociatedConstView>,
    one: Set<Seq<char>>,
) -> Seq<(Seq<char>, Seq<TypeView>)>
    decreases s,
{
    if s.len() == 0 {
        Seq::empty()
    } else {
        enum_lits_associated_const_seq(s.drop_last(), one)
            + (enum_lits_associated_const(s.last(), one))
    }
}

/// The same over all elements, in order.
#[verifier::opaque]
pub open spec fn enum_lits_stmt_seq(
    s: Seq<StmtView>,
    one: Set<Seq<char>>,
) -> Seq<(Seq<char>, Seq<TypeView>)>
    decreases s,
{
    if s.len() == 0 {
        Seq::empty()
    } else {
        enum_lits_stmt_seq(s.drop_last(), one) + (enum_lits_stmt(s.last(), one))
    }
}

/// The same over all elements, in order.
#[verifier::opaque]
pub open spec fn enum_lits_expr_seq(
    s: Seq<ExprView>,
    one: Set<Seq<char>>,
) -> Seq<(Seq<char>, Seq<TypeView>)>
    decreases s,
{
    if s.len() == 0 {
        Seq::empty()
    } else {
        enum_lits_expr_seq(s.drop_last(), one) + (enum_lits_expr(s.last(), one))
    }
}

/// The same over all elements, in order.
#[verifier::opaque]
pub open spec fn enum_lits_string_expr_seq(
    s: Seq<(Seq<char>, ExprView)>,
    one: Set<Seq<char>>,
) -> Seq<(Seq<char>, Seq<TypeView>)>
    decreases s,
{
    if s.len() == 0 {
        Seq::empty()
    } else {
        enum_lits_string_expr_seq(s.drop_last(), one) + (enum_lits_expr(s.last().1, one))
    }
}

/// The same over all elements, in order.
#[verifier::opaque]
pub open spec fn enum_lits_expr_block_seq(
    s: Seq<(ExprView, BlockView)>,
    one: Set<Seq<char>>,
) -> Seq<(Seq<char>, Seq<TypeView>)>
    decreases s,
{
    if s.len() == 0 {
        Seq::empty()
    } else {
        enum_lits_expr_block_seq(s.drop_last(), one)
            + (enum_lits_expr(s.last().0, one) + enum_lits_block(s.last().1, one))
    }
}

/// The same over all elements, in order.
#[verifier::opaque]
pub open spec fn enum_lits_match_arm_seq(
    s: Seq<MatchArmView>,
    one: Set<Seq<char>>,
) -> Seq<(Seq<char>, Seq<TypeView>)>
    decreases s,
{
    if s.len() == 0 {
        Seq::empty()
    } else {
        enum_lits_match_arm_seq(s.drop_last(), one) + (enum_lits_match_arm(s.last(), one))
    }
}

/// The instances that the enum literals in a program need.
pub fn collect_enum_lits_from_program(x: &Program, one: &Names, out: &mut Vec<(String, Vec<Type>)>)
    ensures
        instances(final(out)@) == instances(old(out)@) + enum_lits_program(x@, one@),
    decreases x,
{
    proof {
        reveal(enum_lits_function_seq);
        reveal(enum_lits_impl_decl_seq);
        reveal(enum_lits_program);
        reveal(enum_lits_trait_decl_seq);
    }
    proof {
        let o = instances(out@);
        let v = x@;
        lemma_cat_assoc(
            o,
            enum_lits_function_seq(v.funcs, one@),
            enum_lits_trait_decl_seq(v.traits, one@),
        );
        lemma_cat_assoc(
            o,
            enum_lits_function_seq(v.funcs, one@) + enum_lits_trait_decl_seq(v.traits, one@),
            enum_lits_impl_decl_seq(v.impls, one@),
        );
    }
    collect_enum_lits_from_function_seq(&x.funcs, one, out);
    collect_enum_lits_from_trait_decl_seq(&x.traits, one, out);
    collect_enum_lits_from_impl_decl_seq(&x.impls, one, out);
}

/// The instances that the enum literals in a function need.
pub fn collect_enum_lits_from_function(
    x: &Function,
    one: &Names,
    out: &mut Vec<(String, Vec<Type>)>,
)
    ensures
        instances(final(out)@) == instances(old(out)@) + enum_lits_function(x@, one@),
    decreases x,
{
    proof {
        reveal(enum_lits_function);
    }
    collect_enum_lits_from_block(&x.body, one, out);
}

/// The instances that the enum literals in a trait need.
pub fn collect_enum_lits_from_trait_decl(
    x: &TraitDecl,
    one: &Names,
    out: &mut Vec<(String, Vec<Type>)>,
)
    ensures
        instances(final(out)@) == instances(old(out)@) + enum_lits_trait_decl(x@, one@),
    decreases x,
{
    proof {
        reveal(enum_lits_trait_const_seq);
        reveal(enum_lits_trait_decl);
        reveal(enum_lits_trait_method_def_seq);
    }
    proof {
        let o = instances(out@);
        let v = x@;
        lemma_cat_assoc(
            o,
            enum_lits_trait_method_def_seq(v.methods, one@),
            enum_lits_trait_const_seq(v.consts, one@),
        );
    }
    collect_enum_lits_from_trait_method_def_seq(&x.methods, one, out);
    collect_enum_lits_from_trait_const_seq(&x.consts, one, out);
}

/// The instances that the enum literals in a method of a trait need.
pub fn collect_enum_lits_from_trait_method_def(
    x: &TraitMethodDef,
    one: &Names,
    out: &mut Vec<(String, Vec<Type>)>,
)
    ensures
        instances(final(out)@) == instances(old(out)@) + enum_lits_trait_method_def(x@, one@),
    decreases x,
{
    proof {
        reveal(enum_lits_trait_method_def);
    }
    proof {
        let o = instances(out@);
        let v = x@;
        lemma_cat_empty(o);
    }
    match &x.body {
        Some(y) => {
            collect_enum_lits_from_block(y, one, out);
        },
        None => {},
    }
}

/// The instances that the enum literals in a constant of a trait need.
pub fn collect_enum_lits_from_trait_const(
    x: &TraitConst,
    one: &Names,
    out: &mut Vec<(String, Vec<Type>)>,
)
    ensures
        instances(final(out)@) == instances(old(out)@) + enum_lits_trait_const(x@, one@),
    decreases x,
{
    proof {
        reveal(enum_lits_trait_const);
    }
    proof {
        let o = instances(out@);
        let v = x@;
        lemma_cat_empty(o);
    }
    match &x.default_value {
        Some(y) => {
            collect_enum_lits_from_expr(y, one, out);
        },
        None => {},
    }
}

/// The instances that the enum literals in an `impl` block need.
pub fn collect_enum_lits_from_impl_decl(
    x: &ImplDecl,
    one: &Names,
    out: &mut Vec<(String, Vec<Type>)>,
)
    ensures
        instances(final(out)@) == instances(old(out)@) + enum_lits_impl_decl(x@, one@),
    decreases x,
{
    proof {
        reveal(enum_lits_associated_const_seq);
        reveal(enum_lits_function_seq);
        reveal(enum_lits_impl_decl);
    }
    proof {
        let o = instances(out@);
        let v = x@;
        lemma_cat_assoc(
            o,
            enum_lits_function_seq(v.methods, one@),
            enum_lits_associated_const_seq(v.consts, one@),
        );
    }
    collect_enum_lits_from_function_seq(&x.methods, one, out);
    collect_enum_lits_from_associated_const_seq(&x.consts, one, out);
}

/// The instances that the enum literals in an associated constant need.
pub fn collect_enum_lits_from_associated_const(
    x: &AssociatedConst,
    one: &Names,
    out: &mut Vec<(String, Vec<Type>)>,
)
    ensures
        instances(final(out)@) == instances(old(out)@) + enum_lits_associated_const(x@, one@),
    decreases x,
{
    proof {
        reveal(enum_lits_associated_const);
    }
    collect_enum_lits_from_expr(&x.value, one, out);
}

/// The instances that the enum literals in a block need, at any depth: a literal of an enum with
/// one
/// type parameter whose payload is, by its syntax, of a primitive type.
pub fn collect_enum_lits_from_block(x: &Block, one: &Names, out: &mut Vec<(String, Vec<Type>)>)
    ensures
        instances(final(out)@) == instances(old(out)@) + enum_lits_block(x@, one@),
    decreases x,
{
    proof {
        reveal(enum_lits_block);
        reveal(enum_lits_expr);
        reveal(enum_lits_expr_block_seq);
        reveal(enum_lits_expr_seq);
        reveal(enum_lits_match_arm);
        reveal(enum_lits_match_arm_seq);
        reveal(enum_lits_stmt);
        reveal(enum_lits_stmt_seq);
        reveal(enum_lits_string_expr_seq);
    }
    proof {
        let o = instances(out@);
        let v = x@;
        lemma_cat_empty(o + (enum_lits_stmt_seq(v.stmts, one@)));
        lemma_cat_assoc(
            o,
            enum_lits_stmt_seq(v.stmts, one@),
            (match v.tail_expr { Some(y) => enum_lits_expr(*y, one@), None => Seq::empty() }),
        );
    }
    collect_enum_lits_from_stmt_seq(&x.stmts, one, out);
    match &x.tail_expr {
        Some(y) => {
            collect_enum_lits_from_expr(y, one, out);
        },
        None => {},
    }
}

/// The instances that the enum literals in a statement need.
pub fn collect_enum_lits_from_stmt(x: &Stmt, one: &Names, out: &mut Vec<(String, Vec<Type>)>)
    ensures
        instances(final(out)@) == instances(old(out)@) + enum_lits_stmt(x@, one@),
    decreases x,
{
    proof {
        reveal(enum_lits_block);
        reveal(enum_lits_expr);
        reveal(enum_lits_expr_block_seq);
        reveal(enum_lits_expr_seq);
        reveal(enum_lits_match_arm);
        reveal(enum_lits_match_arm_seq);
        reveal(enum_lits_stmt);
        reveal(enum_lits_stmt_seq);
        reveal(enum_lits_string_expr_seq);
    }
    proof {
        let o = instances(out@);
        lemma_cat_empty(o);
        match x@ {
            StmtView::Let { init, else_block, .. } => {
                lemma_cat_empty(o + (enum_lits_expr(init, one@)));
                lemma_cat_assoc(
                    o,
                    enum_lits_expr(init, one@),
                    (
                        match else_block { Some(y) => enum_lits_block(y, one@), None => Seq::empty() }
                    ),
                );
            },
            StmtView::Return { value, .. } => {
                lemma_cat_empty(o);
            },
            StmtView::Break { value, .. } => {
                lemma_cat_empty(o);
            },
            _ => {},
        }
    }
    match x {
        Stmt::Let { init, else_block, .. } => {
            collect_enum_lits_from_expr(init, one, out);
            match else_block {
                Some(y) => {
                    collect_enum_lits_from_block(y, one, out);
                },
                None => {},
            }
        },
        Stmt::Const { init, .. } => {
            collect_enum_lits_from_expr(init, one, out);
        },
        Stmt::Expr(x0) => {
            collect_enum_lits_from_expr(x0, one, out);
        },
        Stmt::Return { value, .. } => {
            match value {
                Some(y) => {
                    collect_enum_lits_from_expr(y, one, out);
                },
                None => {},
            }
        },
        Stmt::Break { value, .. } => {
            match value {
                Some(y) => {
                    collect_enum_lits_from_expr(y, one, out);
                },
                None => {},
            }
        },
        _ => {},
    }
}

/// The instances that the enum literals in an expression need.
pub fn collect_enum_lits_from_expr(x: &Expr, one: &Names, out: &mut Vec<(String, Vec<Type>)>)
    ensures
        instances(final(out)@) == instances(old(out)@) + enum_lits_expr(x@, one@),
    decreases x,
{
    proof {
        reveal(enum_lits_block);
        reveal(enum_lits_expr);
        reveal(enum_lits_expr_block_seq);
        reveal(enum_lits_expr_seq);
        reveal(enum_lits_match_arm);
        reveal(enum_lits_match_arm_seq);
        reveal(enum_lits_stmt);
        reveal(enum_lits_stmt_seq);
        reveal(enum_lits_string_expr_seq);
    }
    proof {
        let o = instances(out@);
        lemma_cat_empty(o);
        match x@ {
            ExprView::Binary { lhs, rhs, .. } => {
                lemma_cat_assoc(o, enum_lits_expr(*lhs, one@), enum_lits_expr(*rhs, one@));
            },
            ExprView::Assign { target, value, .. } => {
                lemma_cat_assoc(o, enum_lits_expr(*target, one@), enum_lits_expr(*value, one@));
            },
            ExprView::MethodCall { expr, args, .. } => {
                lemma_cat_assoc(o, enum_lits_expr(*expr, one@), enum_lits_expr_seq(args, one@));
            },
            ExprView::EnumLit { enum_name, payload, .. } => {
                if let Some(p) = payload {
                    lemma_cat_assoc(
                        o,
                        enum_lits_expr(*p, one@),
                        enum_lit_need(enum_name, lit_type(*p), one@),
                    );
                }
            },
            ExprView::If { cond, then_block, else_ifs, else_block, .. } => {
                lemma_cat_assoc(o, enum_lits_expr(*cond, one@), enum_lits_block(then_block, one@));
                lemma_cat_assoc(
                    o,
                    enum_lits_expr(*cond, one@) + enum_lits_block(then_block, one@),
                    enum_lits_expr_block_seq(else_ifs, one@),
                );
                lemma_cat_empty(
                    o
                        + (enum_lits_expr(*cond, one@) + enum_lits_block(then_block, one@) + enum_lits_expr_block_seq(else_ifs, one@)),
                );
                lemma_cat_assoc(
                    o,
                    enum_lits_expr(*cond, one@) + enum_lits_block(then_block, one@)
                        + enum_lits_expr_block_seq(else_ifs, one@),
                    (
                        match else_block { Some(y) => enum_lits_block(y, one@), None => Seq::empty() }
                    ),
                );
            },
            ExprView::While { cond, body, .. } => {
                lemma_cat_assoc(o, enum_lits_expr(*cond, one@), enum_lits_block(body, one@));
            },
            ExprView::For { container, body, .. } => {
                lemma_cat_assoc(o, enum_lits_expr(*container, one@), enum_lits_block(body, one@));
            },
            ExprView::Index { array, index, .. } => {
                lemma_cat_assoc(o, enum_lits_expr(*array, one@), enum_lits_expr(*index, one@));
            },
            ExprView::IfLet { scrutinee, then_block, else_block, .. } => {
                lemma_cat_assoc(
                    o,
                    enum_lits_expr(*scrutinee, one@),
                    enum_lits_block(then_block, one@),
                );
                lemma_cat_empty(
                    o + (enum_lits_expr(*scrutinee, one@) + enum_lits_block(then_block, one@)),
                );
                lemma_cat_assoc(
                    o,
                    enum_lits_expr(*scrutinee, one@) + enum_lits_block(then_block, one@),
                    (
                        match else_block { Some(y) => enum_lits_block(y, one@), None => Seq::empty() }
                    ),
                );
            },
            ExprView::Match { scrutinee, arms, .. } => {
                lemma_cat_assoc(
                    o,
                    enum_lits_expr(*scrutinee, one@),
                    enum_lits_match_arm_seq(arms, one@),
                );
            },
            _ => {},
        }
    }
    match x {
        Expr::Call { args, .. } => {
            collect_enum_lits_from_expr_seq(args, one, out);
        },
        Expr::QualifiedCall { args, .. } => {
            collect_enum_lits_from_expr_seq(args, one, out);
        },
        Expr::Binary { lhs, rhs, .. } => {
            collect_enum_lits_from_expr(lhs, one, out);
            collect_enum_lits_from_expr(rhs, one, out);
        },
        Expr::Assign { target, value, .. } => {
            collect_enum_lits_from_expr(target, one, out);
            collect_enum_lits_from_expr(value, one, out);
        },
        Expr::Ref { expr, .. } => {
            collect_enum_lits_from_expr(expr, one, out);
        },
        Expr::UnaryNot(x0, _) => {
            collect_enum_lits_from_expr(x0, one, out);
        },
        Expr::UnaryMinus(x0, _) => {
            collect_enum_lits_from_expr(x0, one, out);
        },
        Expr::Deref(x0, _) => {
            collect_enum_lits_from_expr(x0, one, out);
        },
        Expr::Cast { expr, .. } => {
            collect_enum_lits_from_expr(expr, one, out);
        },
        Expr::Tuple(x0, _) => {
            collect_enum_lits_from_expr_seq(x0, one, out);
        },
        Expr::Member { expr, .. } => {
            collect_enum_lits_from_expr(expr, one, out);
        },
        Expr::MethodCall { expr, args, .. } => {
            collect_enum_lits_from_expr(expr, one, out);
            collect_enum_lits_from_expr_seq(args, one, out);
        },
        Expr::StructLit { fields, .. } => {
            collect_enum_lits_from_string_expr_seq(fields, one, out);
        },
        Expr::EnumLit { enum_name, payload, .. } => {
            match payload {
                Some(p) => {
                    collect_enum_lits_from_expr(p, one, out);
                    collect_enum_lit(enum_name, literal_type(p), one, out);
                },
                None => {},
            }
        },
        Expr::If { cond, then_block, else_ifs, else_block, .. } => {
            collect_enum_lits_from_expr(cond, one, out);
            collect_enum_lits_from_block(then_block, one, out);
            collect_enum_lits_from_expr_block_seq(else_ifs, one, out);
            match else_block {
                Some(y) => {
                    collect_enum_lits_from_block(y, one, out);
                },
                None => {},
            }
        },
        Expr::Loop { body, .. } => {
            collect_enum_lits_from_block(body, one, out);
        },
        Expr::While { cond, body, .. } => {
            collect_enum_lits_from_expr(cond, one, out);
            collect_enum_lits_from_block(body, one, out);
        },
        Expr::For { container, body, .. } => {
            collect_enum_lits_from_expr(container, one, out);
            collect_enum_lits_from_block(body, one, out);
        },
        Expr::Array(x0, _) => {
            collect_enum_lits_from_expr_seq(x0, one, out);
        },
        Expr::Repeat(x0, _, _) => {
            collect_enum_lits_from_expr(x0, one, out);
        },
        Expr::Index { array, index, .. } => {
            collect_enum_lits_from_expr(array, one, out);
            collect_enum_lits_from_expr(index, one, out);
        },
        Expr::IfLet { scrutinee, then_block, else_block, .. } => {
            collect_enum_lits_from_expr(scrutinee, one, out);
            collect_enum_lits_from_block(then_block, one, out);
            match else_block {
                Some(y) => {
                    collect_enum_lits_from_block(y, one, out);
                },
                None => {},
            }
        },
        Expr::Match { scrutinee, arms, .. } => {
            collect_enum_lits_from_expr(scrutinee, one, out);
            collect_enum_lits_from_match_arm_seq(arms, one, out);
        },
        Expr::Block(x0, _) => {
            collect_enum_lits_from_block(x0, one, out);
        },
        _ => {},
    }
}

/// The instances that the enum literals in an arm need.
pub fn collect_enum_lits_from_match_arm(
    x: &MatchArm,
    one: &Names,
    out: &mut Vec<(String, Vec<Type>)>,
)
    ensures
        instances(final(out)@) == instances(old(out)@) + enum_lits_match_arm(x@, one@),
    decreases x,
{
    proof {
        reveal(enum_lits_block);
        reveal(enum_lits_expr);
        reveal(enum_lits_expr_block_seq);
        reveal(enum_lits_expr_seq);
        reveal(enum_lits_match_arm);
        reveal(enum_lits_match_arm_seq);
        reveal(enum_lits_stmt);
        reveal(enum_lits_stmt_seq);
        reveal(enum_lits_string_expr_seq);
    }
    proof {
        let o = instances(out@);
        let v = x@;
        lemma_cat_empty(o);
        lemma_cat_assoc(
            o,
            (match v.guard { Some(y) => enum_lits_expr(*y, one@), None => Seq::empty() }),
            enum_lits_block(v.body, one@),
        );
    }
    match &x.guard {
        Some(y) => {
            collect_enum_lits_from_expr(y, one, out);
        },
        None => {},
    }
    collect_enum_lits_from_block(&x.body, one, out);
}

fn collect_enum_lits_from_function_seq(
    v: &Vec<Function>,
    one: &Names,
    out: &mut Vec<(String, Vec<Type>)>,
)
    ensures
        instances(final(out)@) == instances(old(out)@)
            + enum_lits_function_seq(function_seq_view(v@), one@),
    decreases v,
{
    proof {
        reveal(enum_lits_function);
        reveal(enum_lits_function_seq);
    }
    let ghost all = function_seq_view(v@);
    let ghost start = instances(out@);
    let mut i: usize = 0;
    proof {
        lemma_cat_empty(start);
    }
    while i < v.len()
        invariant
            i <= v@.len(),
            all == function_seq_view(v@),
            instances(out@) == start + enum_lits_function_seq(all.take(i as int), one@),
        decreases v@.len() - i,
    {
        proof {
            reveal(enum_lits_function);
            reveal(enum_lits_function_seq);
        }
        collect_enum_lits_from_function(&v[i], one, out);
        proof {
            lemma_cat_assoc(
                start,
                enum_lits_function_seq(all.take(i as int), one@),
                enum_lits_function(all[i as int], one@),
            );
            let t = all.take(i + 1);
            assert(t.drop_last() =~= all.take(i as int));
            assert(t.last() == all[i as int]);
        }
        i += 1;
    }
    proof {
        assert(all.take(i as int) =~= all);
    }
}

fn collect_enum_lits_from_trait_decl_seq(
    v: &Vec<TraitDecl>,
    one: &Names,
    out: &mut Vec<(String, Vec<Type>)>,
)
    ensures
        instances(final(out)@) == instances(old(out)@)
            + enum_lits_trait_decl_seq(trait_decl_seq_view(v@), one@),
    decreases v,
{
    proof {
        reveal(enum_lits_trait_decl);
        reveal(enum_lits_trait_decl_seq);
    }
    let ghost all = trait_decl_seq_view(v@);
    let ghost start = instances(out@);
    let mut i: usize = 0;
    proof {
        lemma_cat_empty(start);
    }
    while i < v.len()
        invariant
            i <= v@.len(),
            all == trait_decl_seq_view(v@),
            instances(out@) == start + enum_lits_trait_decl_seq(all.take(i as int), one@),
        decreases v@.len() - i,
    {
        proof {
            reveal(enum_lits_trait_decl);
            reveal(enum_lits_trait_decl_seq);
        }
        collect_enum_lits_from_trait_decl(&v[i], one, out);
        proof {
            lemma_cat_assoc(
                start,
                enum_lits_trait_decl_seq(all.take(i as int), one@),
                enum_lits_trait_decl(all[i as int], one@),
            );
            let t = all.take(i + 1);
            assert(t.drop_last() =~= all.take(i as int));
            assert(t.last() == all[i as int]);
        }
        i += 1;
    }
    proof {
        assert(all.take(i as int) =~= all);
    }
}

fn collect_enum_lits_from_impl_decl_seq(
    v: &Vec<ImplDecl>,
    one: &Names,
    out: &mut Vec<(String, Vec<Type>)>,
)
    ensures
        instances(final(out)@) == instances(old(out)@)
            + enum_lits_impl_decl_seq(impl_decl_seq_view(v@), one@),
    decreases v,
{
    proof {
        reveal(enum_lits_impl_decl);
        reveal(enum_lits_impl_decl_seq);
    }
    let ghost all = impl_decl_seq_view(v@);
    let ghost start = instances(out@);
    let mut i: usize = 0;
    proof {
        lemma_cat_empty(start);
    }
    while i < v.len()
        invariant
            i <= v@.len(),
            all == impl_decl_seq_view(v@),
            instances(out@) == start + enum_lits_impl_decl_seq(all.take(i as int), one@),
        decreases v@.len() - i,
    {
        proof {
            reveal(enum_lits_impl_decl);
            reveal(enum_lits_impl_decl_seq);
        }
        collect_enum_lits_from_impl_decl(&v[i], one, out);
        proof {
            lemma_cat_assoc(
                start,
                enum_lits_impl_decl_seq(all.take(i as int), one@),
                enum_lits_impl_decl(all[i as int], one@),
            );
            let t = all.take(i + 1);
            assert(t.drop_last() =~= all.take(i as int));
            assert(t.last() == all[i as int]);
        }
        i += 1;
    }
    proof {
        assert(all.take(i as int) =~= all);
    }
}

fn collect_enum_lits_from_trait_method_def_seq(
    v: &Vec<TraitMethodDef>,
    one: &Names,
    out: &mut Vec<(String, Vec<Type>)>,
)
    ensures
        instances(final(out)@) == instances(old(out)@)
            + enum_lits_trait_method_def_seq(trait_method_def_seq_view(v@), one@),
    decreases v,
{
    proof {
        reveal(enum_lits_trait_method_def);
        reveal(enum_lits_trait_method_def_seq);
    }
    let ghost all = trait_method_def_seq_view(v@);
    let ghost start = instances(out@);
    let mut i: usize = 0;
    proof {
        lemma_cat_empty(start);
    }
    while i < v.len()
        invariant
            i <= v@.len(),
            all == trait_method_def_seq_view(v@),
            instances(out@) == start + enum_lits_trait_method_def_seq(all.take(i as int), one@),
        decreases v@.len() - i,
    {
        proof {
            reveal(enum_lits_trait_method_def);
            reveal(enum_lits_trait_method_def_seq);
        }
        collect_enum_lits_from_trait_method_def(&v[i], one, out);
        proof {
            lemma_cat_assoc(
                start,
                enum_lits_trait_method_def_seq(all.take(i as int), one@),
                enum_lits_trait_method_def(all[i as int], one@),
            );
            let t = all.take(i + 1);
            assert(t.drop_last() =~= all.take(i as int));
            assert(t.last() == all[i as int]);
        }
        i += 1;
    }
    proof {
        assert(all.take(i as int) =~= all);
    }
}

fn collect_enum_lits_from_trait_const_seq(
    v: &Vec<TraitConst>,
    one: &Names,
    out: &mut Vec<(String, Vec<Type>)>,
)
    ensures
        instances(final(out)@) == instances(old(out)@)
            + enum_lits_trait_const_seq(trait_const_seq_view(v@), one@),
    decreases v,
{
    proof {
        reveal(enum_lits_trait_const);
        reveal(enum_lits_trait_const_seq);
    }
    let ghost all = trait_const_seq_view(v@);
    let ghost start = instances(out@);
    let mut i: usize = 0;
    proof {
        lemma_cat_empty(start);
    }
    while i < v.len()
        invariant
            i <= v@.len(),
            all == trait_const_seq_view(v@),
            instances(out@) == start + enum_lits_trait_const_seq(all.take(i as int), one@),
        decreases v@.len() - i,
    {
        proof {
            reveal(enum_lits_trait_const);
            reveal(enum_lits_trait_const_seq);
        }
        collect_enum_lits_from_trait_const(&v[i], one, out);
        proof {
            lemma_cat_assoc(
                start,
                enum_lits_trait_const_seq(all.take(i as int), one@),
                enum_lits_trait_const(all[i as int], one@),
            );
            let t = all.take(i + 1);
            assert(t.drop_last() =~= all.take(i as int));
            assert(t.last() == all[i as int]);
        }
        i += 1;
    }
    proof {
        assert(all.take(i as int) =~= all);
    }
}

fn collect_enum_lits_from_associated_const_seq(
    v: &Vec<AssociatedConst>,
    one: &Names,
    out: &mut Vec<(String, Vec<Type>)>,
)
    ensures
        instances(final(out)@) == instances(old(out)@)
            + enum_lits_associated_const_seq(associated_const_seq_view(v@), one@),
    decreases v,
{
    proof {
        reveal(enum_lits_associated_const);
        reveal(enum_lits_associated_const_seq);
    }
    let ghost all = associated_const_seq_view(v@);
    let ghost start = instances(out@);
    let mut i: usize = 0;
    proof {
        lemma_cat_empty(start);
    }
    while i < v.len()
        invariant
            i <= v@.len(),
            all == associated_const_seq_view(v@),
            instances(out@) == start + enum_lits_associated_const_seq(all.take(i as int), one@),
        decreases v@.len() - i,
    {
        proof {
            reveal(enum_lits_associated_const);
            reveal(enum_lits_associated_const_seq);
        }
        collect_enum_lits_from_associated_const(&v[i], one, out);
        proof {
            lemma_cat_assoc(
                start,
                enum_lits_associated_const_seq(all.take(i as int), one@),
                enum_lits_associated_const(all[i as int], one@),
            );
            let t = all.take(i + 1);
            assert(t.drop_last() =~= all.take(i as int));
            assert(t.last() == all[i as int]);
        }
        i += 1;
    }
    proof {
        assert(all.take(i as int) =~= all);
    }
}

fn collect_enum_lits_from_stmt_seq(v: &Vec<Stmt>, one: &Names, out: &mut Vec<(String, Vec<Type>)>)
    ensures
        instances(final(out)@) == instances(old(out)@)
            + enum_lits_stmt_seq(stmt_seq_view(v@), one@),
    decreases v,
{
    proof {
        reveal(enum_lits_block);
        reveal(enum_lits_expr);
        reveal(enum_lits_expr_block_seq);
        reveal(enum_lits_expr_seq);
        reveal(enum_lits_match_arm);
        reveal(enum_lits_match_arm_seq);
        reveal(enum_lits_stmt);
        reveal(enum_lits_stmt_seq);
        reveal(enum_lits_string_expr_seq);
    }
    let ghost all = stmt_seq_view(v@);
    let ghost start = instances(out@);
    let mut i: usize = 0;
    proof {
        lemma_cat_empty(start);
    }
    while i < v.len()
        invariant
            i <= v@.len(),
            all == stmt_seq_view(v@),
            instances(out@) == start + enum_lits_stmt_seq(all.take(i as int), one@),
        decreases v@.len() - i,
    {
        proof {
            reveal(enum_lits_block);
            reveal(enum_lits_expr);
            reveal(enum_lits_expr_block_seq);
            reveal(enum_lits_expr_seq);
            reveal(enum_lits_match_arm);
            reveal(enum_lits_match_arm_seq);
            reveal(enum_lits_stmt);
            reveal(enum_lits_stmt_seq);
            reveal(enum_lits_string_expr_seq);
        }
        collect_enum_lits_from_stmt(&v[i], one, out);
        proof {
            lemma_cat_assoc(
                start,
                enum_lits_stmt_seq(all.take(i as int), one@),
                enum_lits_stmt(all[i as int], one@),
            );
            let t = all.take(i + 1);
            assert(t.drop_last() =~= all.take(i as int));
            assert(t.last() == all[i as int]);
        }
        i += 1;
    }
    proof {
        assert(all.take(i as int) =~= all);
    }
}

fn collect_enum_lits_from_expr_seq(v: &Vec<Expr>, one: &Names, out: &mut Vec<(String, Vec<Type>)>)
    ensures
        instances(final(out)@) == instances(old(out)@)
            + enum_lits_expr_seq(expr_seq_view(v@), one@),
    decreases v,
{
    proof {
        reveal(enum_lits_block);
        reveal(enum_lits_expr);
        reveal(enum_lits_expr_block_seq);
        reveal(enum_lits_expr_seq);
        reveal(enum_lits_match_arm);
        reveal(enum_lits_match_arm_seq);
        reveal(enum_lits_stmt);
        reveal(enum_lits_stmt_seq);
        reveal(enum_lits_string_expr_seq);
    }
    let ghost all = expr_seq_view(v@);
    let ghost start = instances(out@);
    let mut i: usize = 0;
    proof {
        lemma_cat_empty(start);
    }
    while i < v.len()
        invariant
            i <= v@.len(),
            all == expr_seq_view(v@),
            instances(out@) == start + enum_lits_expr_seq(all.take(i as int), one@),
        decreases v@.len() - i,
    {
        proof {
            reveal(enum_lits_block);
            reveal(enum_lits_expr);
            reveal(enum_lits_expr_block_seq);
            reveal(enum_lits_expr_seq);
            reveal(enum_lits_match_arm);
            reveal(enum_lits_match_arm_seq);
            reveal(enum_lits_stmt);
            reveal(enum_lits_stmt_seq);
            reveal(enum_lits_string_expr_seq);
        }
        collect_enum_lits_from_expr(&v[i], one, out);
        proof {
            lemma_cat_assoc(
                start,
                enum_lits_expr_seq(all.take(i as int), one@),
                enum_lits_expr(all[i as int], one@),
            );
            let t = all.take(i + 1);
            assert(t.drop_last() =~= all.take(i as int));
            assert(t.last() == all[i as int]);
        }
        i += 1;
    }
    proof {
        assert(all.take(i as int) =~= all);
    }
}

fn collect_enum_lits_from_string_expr_seq(
    v: &Vec<(String, Expr)>,
    one: &Names,
    out: &mut Vec<(String, Vec<Type>)>,
)
    ensures
        instances(final(out)@) == instances(old(out)@)
            + enum_lits_string_expr_seq(string_expr_seq_view(v@), one@),
    decreases v,
{
    proof {
        reveal(enum_lits_block);
        reveal(enum_lits_expr);
        reveal(enum_lits_expr_block_seq);
        reveal(enum_lits_expr_seq);
        reveal(enum_lits_match_arm);
        reveal(enum_lits_match_arm_seq);
        reveal(enum_lits_stmt);
        reveal(enum_lits_stmt_seq);
        reveal(enum_lits_string_expr_seq);
    }
    let ghost all = string_expr_seq_view(v@);
    let ghost start = instances(out@);
    let mut i: usize = 0;
    proof {
        lemma_cat_empty(start);
    }
    while i < v.len()
        invariant
            i <= v@.len(),
            all == string_expr_seq_view(v@),
            instances(out@) == start + enum_lits_string_expr_seq(all.take(i as int), one@),
        decreases v@.len() - i,
    {
        proof {
            reveal(enum_lits_block);
            reveal(enum_lits_expr);
            reveal(enum_lits_expr_block_seq);
            reveal(enum_lits_expr_seq);
            reveal(enum_lits_match_arm);
            reveal(enum_lits_match_arm_seq);
            reveal(enum_lits_stmt);
            reveal(enum_lits_stmt_seq);
            reveal(enum_lits_string_expr_seq);
        }
        collect_enum_lits_from_expr(&v[i].1, one, out);
        proof {
            lemma_cat_assoc(
                start,
                enum_lits_string_expr_seq(all.take(i as int), one@),
                enum_lits_expr(all[i as int].1, one@),
            );
            let t = all.take(i + 1);
            assert(t.drop_last() =~= all.take(i as int));
            assert(t.last() == all[i as int]);
        }
        i += 1;
    }
    proof {
        assert(all.take(i as int) =~= all);
    }
}

fn collect_enum_lits_from_expr_block_seq(
    v: &Vec<(Expr, Block)>,
    one: &Names,
    out: &mut Vec<(String, Vec<Type>)>,
)
    ensures
        instances(final(out)@) == instances(old(out)@)
            + enum_lits_expr_block_seq(expr_block_seq_view(v@), one@),
    decreases v,
{
    proof {
        reveal(enum_lits_block);
        reveal(enum_lits_expr);
        reveal(enum_lits_expr_block_seq);
        reveal(enum_lits_expr_seq);
        reveal(enum_lits_match_arm);
        reveal(enum_lits_match_arm_seq);
        reveal(enum_lits_stmt);
        reveal(enum_lits_stmt_seq);
        reveal(enum_lits_string_expr_seq);
    }
    let ghost all = expr_block_seq_view(v@);
    let ghost start = instances(out@);
    let mut i: usize = 0;
    proof {
        lemma_cat_empty(start);
    }
    while i < v.len()
        invariant
            i <= v@.len(),
            all == expr_block_seq_view(v@),
            instances(out@) == start + enum_lits_expr_block_seq(all.take(i as int), one@),
        decreases v@.len() - i,
    {
        proof {
            reveal(enum_lits_block);
            reveal(enum_lits_expr);
            reveal(enum_lits_expr_block_seq);
            reveal(enum_lits_expr_seq);
            reveal(enum_lits_match_arm);
            reveal(enum_lits_match_arm_seq);
            reveal(enum_lits_stmt);
            reveal(enum_lits_stmt_seq);
            reveal(enum_lits_string_expr_seq);
        }
        collect_enum_lits_from_expr(&v[i].0, one, out);
        collect_enum_lits_from_block(&v[i].1, one, out);
        proof {
            lemma_cat_assoc(
                start,
                enum_lits_expr_block_seq(all.take(i as int), one@),
                enum_lits_expr(all[i as int].0, one@) + enum_lits_block(all[i as int].1, one@),
            );
            lemma_cat_assoc(
                start + enum_lits_expr_block_seq(all.take(i as int), one@),
                enum_lits_expr(all[i as int].0, one@),
                enum_lits_block(all[i as int].1, one@),
            );
            let t = all.take(i + 1);
            assert(t.drop_last() =~= all.take(i as int));
            assert(t.last() == all[i as int]);
        }
        i += 1;
    }
    proof {
        assert(all.take(i as int) =~= all);
    }
}

fn collect_enum_lits_from_match_arm_seq(
    v: &Vec<MatchArm>,
    one: &Names,
    out: &mut Vec<(String, Vec<Type>)>,
)
    ensures
        instances(final(out)@) == instances(old(out)@)
            + enum_lits_match_arm_seq(match_arm_seq_view(v@), one@),
    decreases v,
{
    proof {
        reveal(enum_lits_block);
        reveal(enum_lits_expr);
        reveal(enum_lits_expr_block_seq);
        reveal(enum_lits_expr_seq);
        reveal(enum_lits_match_arm);
        reveal(enum_lits_match_arm_seq);
        reveal(enum_lits_stmt);
        reveal(enum_lits_stmt_seq);
        reveal(enum_lits_string_expr_seq);
    }
    let ghost all = match_arm_seq_view(v@);
    let ghost start = instances(out@);
    let mut i: usize = 0;
    proof {
        lemma_cat_empty(start);
    }
    while i < v.len()
        invariant
            i <= v@.len(),
            all == match_arm_seq_view(v@),
            instances(out@) == start + enum_lits_match_arm_seq(all.take(i as int), one@),
        decreases v@.len() - i,
    {
        proof {
            reveal(enum_lits_block);
            reveal(enum_lits_expr);
            reveal(enum_lits_expr_block_seq);
            reveal(enum_lits_expr_seq);
            reveal(enum_lits_match_arm);
            reveal(enum_lits_match_arm_seq);
            reveal(enum_lits_stmt);
            reveal(enum_lits_stmt_seq);
            reveal(enum_lits_string_expr_seq);
        }
        collect_enum_lits_from_match_arm(&v[i], one, out);
        proof {
            lemma_cat_assoc(
                start,
                enum_lits_match_arm_seq(all.take(i as int), one@),
                enum_lits_match_arm(all[i as int], one@),
            );
            let t = all.take(i + 1);
            assert(t.drop_last() =~= all.take(i as int));
            assert(t.last() == all[i as int]);
        }
        i += 1;
    }
    proof {
        assert(all.take(i as int) =~= all);
    }
}

} // verus!
