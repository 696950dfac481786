//! The state of the code generator.
use crate::ast::{
    BinOp, EnumDecl, Expr, Function, GenericParam, ImplDecl, StructDecl, StructField, TraitDecl,
    Type,
};
use crate::ir::{
    Cur, CurView, FloatConst, FloatConstView, FnSig, FnSigView, IrBlock, IrBlockView, LTy, LTyView,
    Val, ValView, float_const_view,
};
use crate::model::{
    EnumDeclView, ExprView, FunctionView, GenericParamView, ImplDeclView, StructDeclView,
    StructFieldView, TraitDeclView, TypeView, dup_type, type_seq_view, type_view,
};
use crate::table::{Model, Names, Table};
use crate::text::texts;
use crate::token::Span;
use vstd::prelude::*;

verus! {

/// Errors from code generation.
///
/// A span names the place in the source that is at fault, where one is known.
#[derive(Debug)]
pub struct CodegenError {
    /// What went wrong.
    pub msg: String,
    /// Where, if that is known.
    pub span: Option<Span>,
}

/// What a [`CodegenError`] says.
pub struct ErrorView {
    pub msg: Seq<char>,
    pub span: Option<Span>,
}

impl View for CodegenError {
    type V = ErrorView;

    open spec fn view(&self) -> ErrorView {
        ErrorView { msg: self.msg@, span: self.span }
    }
}

impl CodegenError {
    /// An error without a place.
    pub fn new(msg: String) -> (r: Self)
        ensures
            r@ == (ErrorView { msg: msg@, span: None }),
    {
        CodegenError { msg, span: None }
    }

    /// An error at `span`.
    pub fn with_span(msg: String, span: Span) -> (r: Self)
        ensures
            r@ == (ErrorView { msg: msg@, span: Some(span) }),
    {
        CodegenError { msg, span: Some(span) }
    }

    /// An error without a place, from a text that stays with its owner.
    pub fn from_text(msg: &str) -> (r: Self)
        ensures
            r@ == (ErrorView { msg: msg@, span: None }),
    {
        CodegenError { msg: msg.to_owned(), span: None }
    }

    /// The message.
    pub fn message(&self) -> (r: String)
        ensures
            r@ == self@.msg,
    {
        self.msg.clone()
    }
}

impl From<String> for CodegenError {
    fn from(msg: String) -> (r: Self) {
        CodegenError { msg, span: None }
    }
}

impl vstd::std_specs::convert::FromSpecImpl<String> for CodegenError {
    open spec fn obeys_from_spec() -> bool {
        true
    }

    open spec fn from_spec(msg: String) -> Self {
        CodegenError { msg, span: None }
    }
}

impl Model for CodegenError {
    type M = ErrorView;

    open spec fn model(&self) -> ErrorView {
        self@
    }

    fn dup(&self) -> (r: Self) {
        CodegenError { msg: self.msg.clone(), span: self.span }
    }
}

impl<T: Model> Model for Result<T, CodegenError> {
    type M = Result<T::M, ErrorView>;

    open spec fn model(&self) -> Result<T::M, ErrorView> {
        match *self {
            Ok(v) => Ok(v.model()),
            Err(e) => Err(e@),
        }
    }

    fn dup(&self) -> (r: Self) {
        match self {
            Ok(v) => Ok(v.dup()),
            Err(e) => Err(e.dup()),
        }
    }
}

impl Model for () {
    type M = ();

    open spec fn model(&self) -> () {
        ()
    }

    fn dup(&self) -> (r: Self) {
        ()
    }
}

/// An error without a place.
pub open spec fn err(msg: Seq<char>) -> ErrorView {
    ErrorView { msg, span: None }
}

/// An error at `span`.
pub open spec fn err_at(msg: Seq<char>, span: Span) -> ErrorView {
    ErrorView { msg, span: Some(span) }
}

/// A compile-time constant value evaluated during codegen.
///
/// Used for `const` declarations and `const` generic parameters. The three
/// variants mirror the primitive literal types supported at compile time.
#[derive(Debug)]
pub enum ConstValue {
    /// Integer literals and arithmetic results.
    Int(i64),
    /// Floating-point literals and results, as the expression that gives them.
    Float(FloatConst),
    /// Boolean literals and logical results.
    Bool(bool),
}

/// What a [`ConstValue`] is.
pub enum ConstValueView {
    Int(i64),
    Float(FloatConstView),
    Bool(bool),
}

impl View for ConstValue {
    type V = ConstValueView;

    open spec fn view(&self) -> ConstValueView {
        match *self {
            ConstValue::Int(v) => ConstValueView::Int(v),
            ConstValue::Float(v) => ConstValueView::Float(v@),
            ConstValue::Bool(v) => ConstValueView::Bool(v),
        }
    }
}

impl Model for ConstValue {
    type M = ConstValueView;

    open spec fn model(&self) -> ConstValueView {
        self@
    }

    fn dup(&self) -> (r: Self) {
        match self {
            ConstValue::Int(v) => ConstValue::Int(*v),
            ConstValue::Float(v) => ConstValue::Float(v.dup()),
            ConstValue::Bool(v) => ConstValue::Bool(*v),
        }
    }
}

/// Something about float constants that only float arithmetic can tell.
#[derive(Debug)]
pub enum FloatQuestion {
    /// Whether a comparison holds: 1 or 0.
    Compare(BinOp, FloatConst, FloatConst),
    /// A float converted to an integer, as `as` converts it.
    ToInt(FloatConst),
    /// Whether a float differs from zero: 1 or 0.
    NonZero(FloatConst),
}

/// What a [`FloatQuestion`] asks.
pub enum FloatQuestionView {
    Compare(BinOp, FloatConstView, FloatConstView),
    ToInt(FloatConstView),
    NonZero(FloatConstView),
}

impl View for FloatQuestion {
    type V = FloatQuestionView;

    open spec fn view(&self) -> FloatQuestionView {
        match *self {
            FloatQuestion::Compare(op, a, b) => FloatQuestionView::Compare(op, a@, b@),
            FloatQuestion::ToInt(a) => FloatQuestionView::ToInt(a@),
            FloatQuestion::NonZero(a) => FloatQuestionView::NonZero(a@),
        }
    }
}

impl Model for FloatQuestion {
    type M = FloatQuestionView;

    open spec fn model(&self) -> FloatQuestionView {
        self@
    }

    fn dup(&self) -> (r: Self) {
        match self {
            FloatQuestion::Compare(op, a, b) => FloatQuestion::Compare(*op, a.dup(), b.dup()),
            FloatQuestion::ToInt(a) => FloatQuestion::ToInt(a.dup()),
            FloatQuestion::NonZero(a) => FloatQuestion::NonZero(a.dup()),
        }
    }
}

/// Context for a single loop level
///
/// Carries the blocks and the result storage of a loop. `continue` and `break`
/// jump to the blocks; `break` with a value stores to the result.
pub struct LoopContext {
    /// Block to branch to on `continue`.
    pub continue_bb: usize,
    /// Block to branch to on `break`.
    pub break_bb: usize,
    /// Where the result of a `loop` goes, and its type; `None` for `while` and `for`, which
    /// support no `break` with a value.
    pub result: Option<(Val, Type)>,
    /// How many scopes there are around the loop; those inside of it are left with it.
    pub depth: usize,
}

/// What a [`LoopContext`] holds.
pub struct LoopContextView {
    pub continue_bb: usize,
    pub break_bb: usize,
    pub result: Option<(ValView, TypeView)>,
    pub depth: usize,
}

impl Model for LoopContext {
    type M = LoopContextView;

    open spec fn model(&self) -> LoopContextView {
        LoopContextView {
            continue_bb: self.continue_bb,
            break_bb: self.break_bb,
            result: self.result.model(),
            depth: self.depth,
        }
    }

    fn dup(&self) -> (r: Self) {
        LoopContext {
            continue_bb: self.continue_bb,
            break_bb: self.break_bb,
            result: self.result.dup(),
            depth: self.depth,
        }
    }
}

impl Model for i64 {
    type M = i64;

    open spec fn model(&self) -> i64 {
        *self
    }

    fn dup(&self) -> (r: Self) {
        *self
    }
}

/// What has been declared.
pub struct Env {
    /// Overloads: the mangled names of a function and their parameter types.
    pub overloads: Table<Vec<(String, Vec<Type>)>>,
    /// The fields of each struct and enum type.
    pub struct_fields: Table<Vec<StructField>>,
    /// The struct and enum types that have a machine type.
    pub struct_types: Names,
    /// The methods of each type, with their mangled names.
    pub impl_methods: Table<Vec<(String, String)>>,
    /// The traits that each type implements.
    pub trait_impls: Table<Names>,
    /// The declared return type of each function.
    pub fn_return_types: Table<Type>,
    /// The declared parameter types of each function.
    pub fn_param_types: Table<Vec<Type>>,
    /// Generic structs, kept for their instances.
    pub generic_struct_defs: Table<StructDecl>,
    /// Generic enums, kept for their instances.
    pub generic_enum_defs: Table<EnumDecl>,
    /// Enums, instances among them.
    pub enum_defs: Table<EnumDecl>,
    /// Generic `impl` blocks of each base name.
    pub generic_impls: Table<Vec<(Vec<GenericParam>, ImplDecl)>>,
    /// Traits.
    pub trait_defs: Table<TraitDecl>,
    /// The instances that exist already.
    pub monomorphized: Names,
    /// The instance that is being made: its base name and its mangled name.
    pub current_mono: Option<(String, String)>,
    /// `impl` blocks of slices and arrays.
    pub slice_impls: Vec<ImplDecl>,
    /// Whether an item is public.
    pub visibility: Table<bool>,
    /// Whether a field of a struct is public.
    pub field_visibility: Table<Table<bool>>,
    /// The type that the method of a trait belongs to, by the mangled name of the method.
    pub item_owners: Table<String>,
    /// Generic methods of each type.
    pub generic_methods: Table<Vec<Function>>,
    /// Generic functions.
    pub generic_funcs: Table<Function>,
    /// The types that are Copy.
    pub copy_types: Names,
    /// The types that need drop glue.
    pub drop_types: Names,
    /// Functions that the compiler provides.
    pub intrinsic_funcs: Names,
    /// Associated constants: type, name, value and type.
    pub const_defs: Table<Table<(Expr, Type)>>,
    /// Associated constants that were evaluated already.
    pub const_values: Table<Table<ConstValue>>,
    /// What is known of float constants.
    pub float_answers: Vec<(FloatQuestion, i64)>,
    /// What has to be known of a float constant to go on.
    pub pending: Option<FloatQuestion>,
}

/// What [`Env`] holds.
pub struct EnvView {
    pub overloads: Map<Seq<char>, Seq<(Seq<char>, Seq<TypeView>)>>,
    pub struct_fields: Map<Seq<char>, Seq<StructFieldView>>,
    pub struct_types: Set<Seq<char>>,
    pub impl_methods: Map<Seq<char>, Seq<(Seq<char>, Seq<char>)>>,
    pub trait_impls: Map<Seq<char>, Set<Seq<char>>>,
    pub fn_return_types: Map<Seq<char>, TypeView>,
    pub fn_param_types: Map<Seq<char>, Seq<TypeView>>,
    pub generic_struct_defs: Map<Seq<char>, StructDeclView>,
    pub generic_enum_defs: Map<Seq<char>, EnumDeclView>,
    pub enum_defs: Map<Seq<char>, EnumDeclView>,
    pub generic_impls: Map<Seq<char>, Seq<(Seq<GenericParamView>, ImplDeclView)>>,
    pub trait_defs: Map<Seq<char>, TraitDeclView>,
    pub monomorphized: Set<Seq<char>>,
    pub current_mono: Option<(Seq<char>, Seq<char>)>,
    pub slice_impls: Seq<ImplDeclView>,
    pub visibility: Map<Seq<char>, bool>,
    pub field_visibility: Map<Seq<char>, Map<Seq<char>, bool>>,
    pub item_owners: Map<Seq<char>, Seq<char>>,
    pub generic_methods: Map<Seq<char>, Seq<FunctionView>>,
    pub generic_funcs: Map<Seq<char>, FunctionView>,
    pub copy_types: Set<Seq<char>>,
    pub drop_types: Set<Seq<char>>,
    pub intrinsic_funcs: Set<Seq<char>>,
    pub const_defs: Map<Seq<char>, Map<Seq<char>, (ExprView, TypeView)>>,
    pub const_values: Map<Seq<char>, Map<Seq<char>, ConstValueView>>,
    pub float_answers: Seq<(FloatQuestionView, i64)>,
    pub pending: Option<FloatQuestionView>,
}

impl View for Env {
    type V = EnvView;

    open spec fn view(&self) -> EnvView {
        EnvView {
            overloads: self.overloads.model(),
            struct_fields: self.struct_fields.model(),
            struct_types: self.struct_types.model(),
            impl_methods: self.impl_methods.model(),
            trait_impls: self.trait_impls.model(),
            fn_return_types: self.fn_return_types.model(),
            fn_param_types: self.fn_param_types.model(),
            generic_struct_defs: self.generic_struct_defs.model(),
            generic_enum_defs: self.generic_enum_defs.model(),
            enum_defs: self.enum_defs.model(),
            generic_impls: self.generic_impls.model(),
            trait_defs: self.trait_defs.model(),
            monomorphized: self.monomorphized.model(),
            current_mono: self.current_mono.model(),
            slice_impls: self.slice_impls.model(),
            visibility: self.visibility.model(),
            field_visibility: self.field_visibility.model(),
            item_owners: self.item_owners.model(),
            generic_methods: self.generic_methods.model(),
            generic_funcs: self.generic_funcs.model(),
            copy_types: self.copy_types.model(),
            drop_types: self.drop_types.model(),
            intrinsic_funcs: self.intrinsic_funcs.model(),
            const_defs: self.const_defs.model(),
            const_values: self.const_values.model(),
            float_answers: self.float_answers.model(),
            pending: self.pending.model(),
        }
    }
}

impl EnvView {
    /// Nothing declared.
    pub open spec fn empty() -> EnvView {
        EnvView {
            overloads: Map::empty(),
            struct_fields: Map::empty(),
            struct_types: Set::empty(),
            impl_methods: Map::empty(),
            trait_impls: Map::empty(),
            fn_return_types: Map::empty(),
            fn_param_types: Map::empty(),
            generic_struct_defs: Map::empty(),
            generic_enum_defs: Map::empty(),
            enum_defs: Map::empty(),
            generic_impls: Map::empty(),
            trait_defs: Map::empty(),
            monomorphized: Set::empty(),
            current_mono: None,
            slice_impls: Seq::empty(),
            visibility: Map::empty(),
            field_visibility: Map::empty(),
            item_owners: Map::empty(),
            generic_methods: Map::empty(),
            generic_funcs: Map::empty(),
            copy_types: Set::empty(),
            drop_types: Set::empty(),
            intrinsic_funcs: Set::empty(),
            const_defs: Map::empty(),
            const_values: Map::empty(),
            float_answers: Seq::empty(),
            pending: None,
        }
    }
}

impl Env {
    /// Nothing declared.
    pub fn new() -> (r: Env)
        ensures
            r@ == EnvView::empty(),
    {
        let r = Env {
            overloads: Table::new(),
            struct_fields: Table::new(),
            struct_types: Names::new(),
            impl_methods: Table::new(),
            trait_impls: Table::new(),
            fn_return_types: Table::new(),
            fn_param_types: Table::new(),
            generic_struct_defs: Table::new(),
            generic_enum_defs: Table::new(),
            enum_defs: Table::new(),
            generic_impls: Table::new(),
            trait_defs: Table::new(),
            monomorphized: Names::new(),
            current_mono: None,
            slice_impls: Vec::new(),
            visibility: Table::new(),
            field_visibility: Table::new(),
            item_owners: Table::new(),
            generic_methods: Table::new(),
            generic_funcs: Table::new(),
            copy_types: Names::new(),
            drop_types: Names::new(),
            intrinsic_funcs: Names::new(),
            const_defs: Table::new(),
            const_values: Table::new(),
            float_answers: Vec::new(),
            pending: None,
        };
        proof {
            assert(r.overloads.model() =~= EnvView::empty().overloads);
            assert(r.struct_fields.model() =~= EnvView::empty().struct_fields);
            assert(r.struct_types.model() =~= EnvView::empty().struct_types);
            assert(r.impl_methods.model() =~= EnvView::empty().impl_methods);
            assert(r.trait_impls.model() =~= EnvView::empty().trait_impls);
            assert(r.fn_return_types.model() =~= EnvView::empty().fn_return_types);
            assert(r.fn_param_types.model() =~= EnvView::empty().fn_param_types);
            assert(r.generic_struct_defs.model() =~= EnvView::empty().generic_struct_defs);
            assert(r.generic_enum_defs.model() =~= EnvView::empty().generic_enum_defs);
            assert(r.enum_defs.model() =~= EnvView::empty().enum_defs);
            assert(r.generic_impls.model() =~= EnvView::empty().generic_impls);
            assert(r.trait_defs.model() =~= EnvView::empty().trait_defs);
            assert(r.monomorphized.model() =~= EnvView::empty().monomorphized);
            assert(r.current_mono.model() =~= EnvView::empty().current_mono);
            assert(r.slice_impls.model() =~= EnvView::empty().slice_impls);
            assert(r.visibility.model() =~= EnvView::empty().visibility);
            assert(r.field_visibility.model() =~= EnvView::empty().field_visibility);
            assert(r.item_owners.model() =~= EnvView::empty().item_owners);
            assert(r.generic_methods.model() =~= EnvView::empty().generic_methods);
            assert(r.generic_funcs.model() =~= EnvView::empty().generic_funcs);
            assert(r.copy_types.model() =~= EnvView::empty().copy_types);
            assert(r.drop_types.model() =~= EnvView::empty().drop_types);
            assert(r.intrinsic_funcs.model() =~= EnvView::empty().intrinsic_funcs);
            assert(r.const_defs.model() =~= EnvView::empty().const_defs);
            assert(r.const_values.model() =~= EnvView::empty().const_values);
            assert(r.float_answers.model() =~= EnvView::empty().float_answers);
            assert(r.pending.model() =~= EnvView::empty().pending);
        }
        r
    }

    /// A copy.
    pub fn copied(&self) -> (r: Env)
        ensures
            r@ == self@,
    {
        Env {
            overloads: self.overloads.dup(),
            struct_fields: self.struct_fields.dup(),
            struct_types: self.struct_types.dup(),
            impl_methods: self.impl_methods.dup(),
            trait_impls: self.trait_impls.dup(),
            fn_return_types: self.fn_return_types.dup(),
            fn_param_types: self.fn_param_types.dup(),
            generic_struct_defs: self.generic_struct_defs.dup(),
            generic_enum_defs: self.generic_enum_defs.dup(),
            enum_defs: self.enum_defs.dup(),
            generic_impls: self.generic_impls.dup(),
            trait_defs: self.trait_defs.dup(),
            monomorphized: self.monomorphized.dup(),
            current_mono: self.current_mono.dup(),
            slice_impls: self.slice_impls.dup(),
            visibility: self.visibility.dup(),
            field_visibility: self.field_visibility.dup(),
            item_owners: self.item_owners.dup(),
            generic_methods: self.generic_methods.dup(),
            generic_funcs: self.generic_funcs.dup(),
            copy_types: self.copy_types.dup(),
            drop_types: self.drop_types.dup(),
            intrinsic_funcs: self.intrinsic_funcs.dup(),
            const_defs: self.const_defs.dup(),
            const_values: self.const_values.dup(),
            float_answers: self.float_answers.dup(),
            pending: self.pending.dup(),
        }
    }
}

/// What holds at the place that is being compiled.
pub struct Fun {
    /// Variables: where they are, whether they are mutable, and their type.
    pub symbols: Table<(Val, bool, Type)>,
    /// Constants with their types.
    pub consts: Table<(ConstValue, Type)>,
    /// The instance that a base name stands for.
    pub mono_names: Table<String>,
    /// The module that is being compiled.
    pub here: Vec<String>,
    /// Variables that were moved out of, which cannot be used.
    pub moved: Names,
    /// Variables whose values went elsewhere, which are not dropped.
    pub given: Table<bool>,
    /// The variables of each scope, in the order of their declaration.
    pub scopes: Vec<Vec<(String, Type, Val)>>,
    /// The loops around the current place.
    pub loops: Vec<LoopContext>,
}

/// What [`Fun`] holds.
pub struct FunView {
    pub symbols: Map<Seq<char>, (ValView, bool, TypeView)>,
    pub consts: Map<Seq<char>, (ConstValueView, TypeView)>,
    pub mono_names: Map<Seq<char>, Seq<char>>,
    pub here: Seq<Seq<char>>,
    pub moved: Set<Seq<char>>,
    pub given: Map<Seq<char>, bool>,
    pub scopes: Seq<Seq<(Seq<char>, TypeView, ValView)>>,
    pub loops: Seq<LoopContextView>,
}

impl View for Fun {
    type V = FunView;

    open spec fn view(&self) -> FunView {
        FunView {
            symbols: self.symbols.model(),
            consts: self.consts.model(),
            mono_names: self.mono_names.model(),
            here: self.here.model(),
            moved: self.moved.model(),
            given: self.given.model(),
            scopes: self.scopes.model(),
            loops: self.loops.model(),
        }
    }
}

impl FunView {
    /// Nothing declared.
    pub open spec fn empty() -> FunView {
        FunView {
            symbols: Map::empty(),
            consts: Map::empty(),
            mono_names: Map::empty(),
            here: Seq::empty(),
            moved: Set::empty(),
            given: Map::empty(),
            scopes: Seq::empty(),
            loops: Seq::empty(),
        }
    }
}

impl Fun {
    /// Nothing declared.
    pub fn new() -> (r: Fun)
        ensures
            r@ == FunView::empty(),
    {
        let r = Fun {
            symbols: Table::new(),
            consts: Table::new(),
            mono_names: Table::new(),
            here: Vec::new(),
            moved: Names::new(),
            given: Table::new(),
            scopes: Vec::new(),
            loops: Vec::new(),
        };
        proof {
            assert(r.symbols.model() =~= FunView::empty().symbols);
            assert(r.consts.model() =~= FunView::empty().consts);
            assert(r.mono_names.model() =~= FunView::empty().mono_names);
            assert(r.here.model() =~= FunView::empty().here);
            assert(r.moved.model() =~= FunView::empty().moved);
            assert(r.given.model() =~= FunView::empty().given);
            assert(r.scopes.model() =~= FunView::empty().scopes);
            assert(r.loops.model() =~= FunView::empty().loops);
        }
        r
    }

    /// A copy.
    pub fn copied(&self) -> (r: Fun)
        ensures
            r@ == self@,
    {
        Fun {
            symbols: self.symbols.dup(),
            consts: self.consts.dup(),
            mono_names: self.mono_names.dup(),
            here: self.here.dup(),
            moved: self.moved.dup(),
            given: self.given.dup(),
            scopes: self.scopes.dup(),
            loops: self.loops.dup(),
        }
    }
}

/// What has been compiled.
pub struct Out {
    /// Functions that were declared.
    pub decls: Table<FnSig>,
    /// The declared functions, in the order of their declaration.
    pub fn_order: Vec<String>,
    /// Functions that were compiled.
    pub bodies: Table<Vec<IrBlock>>,
    /// String constants.
    pub strings: Vec<String>,
    /// The field types of the named structs.
    pub struct_bodies: Table<Vec<LTy>>,
    /// The named structs, in the order of their declaration.
    pub type_order: Vec<String>,
    /// The function under construction.
    pub cur: Cur,
}

/// What [`Out`] holds.
pub struct OutView {
    pub decls: Map<Seq<char>, FnSigView>,
    pub fn_order: Seq<Seq<char>>,
    pub bodies: Map<Seq<char>, Seq<IrBlockView>>,
    pub strings: Seq<Seq<char>>,
    pub struct_bodies: Map<Seq<char>, Seq<LTyView>>,
    pub type_order: Seq<Seq<char>>,
    pub cur: CurView,
}

impl View for Out {
    type V = OutView;

    open spec fn view(&self) -> OutView {
        OutView {
            decls: self.decls.model(),
            fn_order: self.fn_order.model(),
            bodies: self.bodies.model(),
            strings: self.strings.model(),
            struct_bodies: self.struct_bodies.model(),
            type_order: self.type_order.model(),
            cur: self.cur.model(),
        }
    }
}

impl OutView {
    /// Nothing declared.
    pub open spec fn empty() -> OutView {
        OutView {
            decls: Map::empty(),
            fn_order: Seq::empty(),
            bodies: Map::empty(),
            strings: Seq::empty(),
            struct_bodies: Map::empty(),
            type_order: Seq::empty(),
            cur: CurView { name: Seq::empty(), blocks: Seq::empty(), at: 0 },
        }
    }
}

impl Out {
    /// Nothing declared.
    pub fn new() -> (r: Out)
        ensures
            r@ == OutView::empty(),
    {
        let r = Out {
            decls: Table::new(),
            fn_order: Vec::new(),
            bodies: Table::new(),
            strings: Vec::new(),
            struct_bodies: Table::new(),
            type_order: Vec::new(),
            cur: Cur { name: String::new(), blocks: Vec::new(), at: 0 },
        };
        proof {
            assert(r.decls.model() =~= OutView::empty().decls);
            assert(r.fn_order.model() =~= OutView::empty().fn_order);
            assert(r.bodies.model() =~= OutView::empty().bodies);
            assert(r.strings.model() =~= OutView::empty().strings);
            assert(r.struct_bodies.model() =~= OutView::empty().struct_bodies);
            assert(r.type_order.model() =~= OutView::empty().type_order);
            assert(r.cur@.name =~= Seq::<char>::empty());
            assert(r.cur@.blocks =~= Seq::<IrBlockView>::empty());
        }
        r
    }

    /// A copy.
    pub fn copied(&self) -> (r: Out)
        ensures
            r@ == self@,
    {
        Out {
            decls: self.decls.dup(),
            fn_order: self.fn_order.dup(),
            bodies: self.bodies.dup(),
            strings: self.strings.dup(),
            struct_bodies: self.struct_bodies.dup(),
            type_order: self.type_order.dup(),
            cur: self.cur.dup(),
        }
    }
}


/// The code generator.
pub struct CodeGen {
    /// What has been declared.
    pub env: Env,
    /// What holds at the place that is being compiled.
    pub fun: Fun,
    /// What has been compiled.
    pub out: Out,
    /// Source code text (used for error messages).
    pub source: String,
    /// File path of the source being compiled.
    pub path: String,
}

/// The state of the code generator.
pub struct State {
    pub env: EnvView,
    pub fun: FunView,
    pub out: OutView,
    pub source: Seq<char>,
    pub path: Seq<char>,
}

impl View for CodeGen {
    type V = State;

    open spec fn view(&self) -> State {
        State {
            env: self.env@,
            fun: self.fun@,
            out: self.out@,
            source: self.source@,
            path: self.path@,
        }
    }
}

impl State {
    /// Nothing declared, and nothing compiled.
    pub open spec fn empty(source: Seq<char>, path: Seq<char>) -> State {
        State {
            env: EnvView::empty(),
            fun: FunView::empty(),
            out: OutView::empty(),
            source,
            path,
        }
    }
}

/// A state with one more answer: that to the question, if one was left.
pub open spec fn answered(s: State, question: Option<FloatQuestionView>, answer: i64) -> State {
    match question {
        Some(q) => State {
            env: EnvView { float_answers: s.env.float_answers.push((q, answer)), ..s.env },
            ..s
        },
        None => s,
    }
}

impl CodeGen {
    /// Create a new `CodeGen` instance for a source text and the path it comes from.
    pub fn new_native(source: String, path: String) -> (r: CodeGen)
        ensures
            r@ == State::empty(source@, path@),
    {
        CodeGen { env: Env::new(), fun: Fun::new(), out: Out::new(), source, path }
    }

    /// A copy.
    pub fn copied(&self) -> (r: CodeGen)
        ensures
            r@ == self@,
    {
        CodeGen {
            env: self.env.copied(),
            fun: self.fun.copied(),
            out: self.out.copied(),
            source: self.source.clone(),
            path: self.path.clone(),
        }
    }

    /// Takes the answer to a question that was left, to compile again what left it.
    pub fn answer(&mut self, question: Option<FloatQuestion>, answer: i64)
        ensures
            final(self)@ == answered(old(self)@, question.model(), answer),
    {
        match question {
            Some(q) => {
                let ghost known = self.env@.float_answers;
                self.env.float_answers.push((q, answer));
                proof {
                    assert(self.env@.float_answers =~= known.push((q@, answer)));
                }
            },
            None => {},
        }
    }
}

} // verus!
