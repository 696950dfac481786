//! Lists and what they hold.
use crate::ast::{
    AssociatedConst, Attribute, BinOp, EnumVariant, Expr, Function, GenericParam, ImplDecl,
    MatchArm, Param, Pattern, Stmt, StructField, TraitBound, TraitConst, TraitMethodDef, Type,
    TypeAliasDecl,
};
use crate::collect::instances;
use crate::ir::{IrBlock, LTy, Val, ir_block_seq_view, l_ty_seq_view, val_seq_view};
use crate::model::{
    AssociatedConstView, AttributeView, EnumVariantView, MatchArmView, ParamView, PatternView,
    StmtView, TraitBoundView, TraitConstView, TraitMethodDefView, TypeAliasDeclView, expr_seq_view,
    function_seq_view, generic_param_seq_view, impl_decl_seq_view, param_seq_view, string_seq_view,
    struct_field_seq_view, trait_method_def_seq_view, type_seq_view,
};
use crate::table::Model;
use crate::text::texts;
use crate::token::Span;
use vstd::prelude::*;

verus! {

impl Model for u32 {
    type M = u32;

    open spec fn model(&self) -> u32 {
        *self
    }

    fn dup(&self) -> (r: Self) {
        *self
    }
}

impl Model for u64 {
    type M = u64;

    open spec fn model(&self) -> u64 {
        *self
    }

    fn dup(&self) -> (r: Self) {
        *self
    }
}

impl Model for Span {
    type M = Span;

    open spec fn model(&self) -> Span {
        *self
    }

    fn dup(&self) -> (r: Self) {
        *self
    }
}

impl Model for BinOp {
    type M = BinOp;

    open spec fn model(&self) -> BinOp {
        *self
    }

    fn dup(&self) -> (r: Self) {
        *self
    }
}

impl Model for Param {
    type M = ParamView;

    open spec fn model(&self) -> ParamView {
        self@
    }

    fn dup(&self) -> (r: Self) {
        self.clone()
    }
}

impl Model for Stmt {
    type M = StmtView;

    open spec fn model(&self) -> StmtView {
        self@
    }

    fn dup(&self) -> (r: Self) {
        self.clone()
    }
}

impl Model for Pattern {
    type M = PatternView;

    open spec fn model(&self) -> PatternView {
        self@
    }

    fn dup(&self) -> (r: Self) {
        self.clone()
    }
}

impl Model for MatchArm {
    type M = MatchArmView;

    open spec fn model(&self) -> MatchArmView {
        self@
    }

    fn dup(&self) -> (r: Self) {
        self.clone()
    }
}

impl Model for EnumVariant {
    type M = EnumVariantView;

    open spec fn model(&self) -> EnumVariantView {
        self@
    }

    fn dup(&self) -> (r: Self) {
        self.clone()
    }
}

impl Model for Attribute {
    type M = AttributeView;

    open spec fn model(&self) -> AttributeView {
        self@
    }

    fn dup(&self) -> (r: Self) {
        self.clone()
    }
}

impl Model for TraitBound {
    type M = TraitBoundView;

    open spec fn model(&self) -> TraitBoundView {
        self@
    }

    fn dup(&self) -> (r: Self) {
        self.clone()
    }
}

impl Model for TraitMethodDef {
    type M = TraitMethodDefView;

    open spec fn model(&self) -> TraitMethodDefView {
        self@
    }

    fn dup(&self) -> (r: Self) {
        self.clone()
    }
}

impl Model for TraitConst {
    type M = TraitConstView;

    open spec fn model(&self) -> TraitConstView {
        self@
    }

    fn dup(&self) -> (r: Self) {
        self.clone()
    }
}

impl Model for AssociatedConst {
    type M = AssociatedConstView;

    open spec fn model(&self) -> AssociatedConstView {
        self@
    }

    fn dup(&self) -> (r: Self) {
        self.clone()
    }
}

impl Model for TypeAliasDecl {
    type M = TypeAliasDeclView;

    open spec fn model(&self) -> TypeAliasDeclView {
        self@
    }

    fn dup(&self) -> (r: Self) {
        self.clone()
    }
}

/// Two ways to see a list.
pub broadcast proof fn lemma_type_list(v: Vec<Type>)
    ensures
        #[trigger] v.model() == type_seq_view(v@),
{
    assert(v.model() =~= type_seq_view(v@));
}

/// Two ways to see a list.
pub broadcast proof fn lemma_struct_field_list(v: Vec<StructField>)
    ensures
        #[trigger] v.model() == struct_field_seq_view(v@),
{
    assert(v.model() =~= struct_field_seq_view(v@));
}

/// Two ways to see a list.
pub broadcast proof fn lemma_function_list(v: Vec<Function>)
    ensures
        #[trigger] v.model() == function_seq_view(v@),
{
    assert(v.model() =~= function_seq_view(v@));
}

/// Two ways to see a list.
pub broadcast proof fn lemma_generic_param_list(v: Vec<GenericParam>)
    ensures
        #[trigger] v.model() == generic_param_seq_view(v@),
{
    assert(v.model() =~= generic_param_seq_view(v@));
}

/// Two ways to see a list.
pub broadcast proof fn lemma_impl_decl_list(v: Vec<ImplDecl>)
    ensures
        #[trigger] v.model() == impl_decl_seq_view(v@),
{
    assert(v.model() =~= impl_decl_seq_view(v@));
}

/// Two ways to see a list.
pub broadcast proof fn lemma_expr_list(v: Vec<Expr>)
    ensures
        #[trigger] v.model() == expr_seq_view(v@),
{
    assert(v.model() =~= expr_seq_view(v@));
}

/// Two ways to see a list.
pub broadcast proof fn lemma_l_ty_list(v: Vec<LTy>)
    ensures
        #[trigger] v.model() == l_ty_seq_view(v@),
{
    assert(v.model() =~= l_ty_seq_view(v@));
}

/// Two ways to see a list.
pub broadcast proof fn lemma_val_list(v: Vec<Val>)
    ensures
        #[trigger] v.model() == val_seq_view(v@),
{
    assert(v.model() =~= val_seq_view(v@));
}

/// Two ways to see a list.
pub broadcast proof fn lemma_ir_block_list(v: Vec<IrBlock>)
    ensures
        #[trigger] v.model() == ir_block_seq_view(v@),
{
    assert(v.model() =~= ir_block_seq_view(v@));
}

/// Two ways to see a list.
pub broadcast proof fn lemma_param_list(v: Vec<Param>)
    ensures
        #[trigger] v.model() == param_seq_view(v@),
{
    assert(v.model() =~= param_seq_view(v@));
}

/// Two ways to see a list.
pub broadcast proof fn lemma_trait_method_def_list(v: Vec<TraitMethodDef>)
    ensures
        #[trigger] v.model() == trait_method_def_seq_view(v@),
{
    assert(v.model() =~= trait_method_def_seq_view(v@));
}

/// Two ways to see a list of texts.
pub broadcast proof fn lemma_text_list(v: Vec<String>)
    ensures
        #[trigger] v.model() == texts(v@),
{
    assert(v.model() =~= texts(v@));
}

/// Two ways to see a list of numbers.
pub broadcast proof fn lemma_number_list(v: Vec<i64>)
    ensures
        #[trigger] v.model() == v@,
{
    assert(v.model() =~= v@);
}

/// Two ways to see a list of instances.
pub broadcast proof fn lemma_instance_list(v: Vec<(String, Vec<Type>)>)
    ensures
        #[trigger] v.model() == instances(v@),
{
    broadcast use lemma_type_list;

    assert(v.model() =~= instances(v@));
}

/// Two ways to see a list of indices.
pub broadcast proof fn lemma_index_list(v: Vec<usize>)
    ensures
        #[trigger] v.model() == v@,
{
    assert(v.model() =~= v@);
}

/// Two ways to see the texts in a declaration.
pub broadcast proof fn lemma_declared_texts(v: Seq<String>)
    ensures
        #[trigger] string_seq_view(v) == texts(v),
{
    assert(string_seq_view(v) =~= texts(v));
}

/// The two ways to see a list agree.
pub broadcast group group_list_views {
    lemma_type_list,
    lemma_struct_field_list,
    lemma_function_list,
    lemma_generic_param_list,
    lemma_impl_decl_list,
    lemma_expr_list,
    lemma_l_ty_list,
    lemma_val_list,
    lemma_ir_block_list,
    lemma_param_list,
    lemma_trait_method_def_list,
    lemma_declared_texts,
    lemma_text_list,
    lemma_number_list,
    lemma_index_list,
    lemma_instance_list,
}

/// A list without its last element.
pub open spec fn shorter<T>(s: Seq<T>) -> Seq<T> {
    if s.len() > 0 {
        s.drop_last()
    } else {
        s
    }
}

/// The last element of a list.
pub open spec fn last_of<T>(s: Seq<T>) -> Option<T> {
    if s.len() > 0 {
        Some(s.last())
    } else {
        None
    }
}

/// Drops the last element of a list.
pub fn drop_end<T: Model>(v: &mut Vec<T>)
    ensures
        final(v).model() == shorter(old(v).model()),
{
    let _ = v.pop();
    proof {
        assert(v.model() =~= shorter(old(v).model()));
    }
}

/// The last element of a list.
pub fn last_element<T: Model>(v: &Vec<T>) -> (r: Option<T>)
    ensures
        r.model() == last_of(v.model()),
{
    let n: usize = v.len();
    if n == 0 {
        None
    } else {
        Some(v[n - 1].dup())
    }
}

/// Whether `i` is the first place of a list at which something holds.
pub open spec fn first_at<A>(s: Seq<A>, p: spec_fn(A) -> bool, i: int) -> bool {
    0 <= i < s.len() && p(s[i]) && forall|j: int| 0 <= j < i ==> !p(#[trigger] s[j])
}

/// The first place of a list at which something holds, if there is one.
pub open spec fn first_index<A>(s: Seq<A>, p: spec_fn(A) -> bool) -> Option<int> {
    if exists|i: int| first_at(s, p, i) {
        Some(choose|i: int| first_at(s, p, i))
    } else {
        None
    }
}

/// There is one first place.
pub proof fn lemma_first_index<A>(s: Seq<A>, p: spec_fn(A) -> bool, i: int)
    requires
        first_at(s, p, i),
    ensures
        first_index(s, p) == Some(i),
{
    let k = choose|k: int| first_at(s, p, k);
    assert(first_at(s, p, k));
    if k < i {
        assert(!p(s[k]));
    } else if i < k {
        assert(!p(s[i]));
    }
}

/// Where it holds nowhere, there is no first place.
pub proof fn lemma_no_index<A>(s: Seq<A>, p: spec_fn(A) -> bool)
    requires
        forall|j: int| 0 <= j < s.len() ==> !p(#[trigger] s[j]),
    ensures
        first_index(s, p) is None,
{
}

} // verus!
