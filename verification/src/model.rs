//! The mathematical counterparts of the AST types: what a tree is, with texts and lists as
//! sequences, and copying of trees.
use crate::ast::{
    AssociatedConst, Attribute, BinOp, Block, EnumDecl, EnumVariant, Expr, Function, GenericParam,
    ImplDecl, MatchArm, ModuleDecl, Param, Pattern, Program, Stmt, StructDecl, StructField,
    TraitBound, TraitConst, TraitDecl, TraitMethodDef, Type, TypeAliasDecl, Use,
};
use crate::token::Span;
use vstd::prelude::*;

verus! {

/// What a [`Attribute`] is, over sequences.
pub struct AttributeView {
    pub name: Seq<char>,
    pub args: Seq<Seq<char>>,
    pub span: Span,
}

impl View for Attribute {
    type V = AttributeView;

    open spec fn view(&self) -> AttributeView {
        attribute_view(*self)
    }
}

/// What a [`ModuleDecl`] is, over sequences.
pub struct ModuleDeclView {
    pub name: Seq<char>,
    pub body: Option<ProgramView>,
    pub is_pub: bool,
    pub span: Span,
}

impl View for ModuleDecl {
    type V = ModuleDeclView;

    open spec fn view(&self) -> ModuleDeclView {
        module_decl_view(*self)
    }
}

/// What a [`Program`] is, over sequences.
pub struct ProgramView {
    pub uses: Seq<UseView>,
    pub modules: Seq<ModuleDeclView>,
    pub funcs: Seq<FunctionView>,
    pub structs: Seq<StructDeclView>,
    pub enums: Seq<EnumDeclView>,
    pub traits: Seq<TraitDeclView>,
    pub impls: Seq<ImplDeclView>,
    pub type_aliases: Seq<TypeAliasDeclView>,
}

impl View for Program {
    type V = ProgramView;

    open spec fn view(&self) -> ProgramView {
        program_view(*self)
    }
}

/// What a [`Use`] is, over sequences.
pub struct UseView {
    pub path: Seq<Seq<char>>,
    pub is_pub: bool,
    pub in_module: Seq<Seq<char>>,
    pub span: Span,
}

impl View for Use {
    type V = UseView;

    open spec fn view(&self) -> UseView {
        use_view(*self)
    }
}

/// What a [`Function`] is, over sequences.
pub struct FunctionView {
    pub name: Seq<char>,
    pub params: Seq<ParamView>,
    pub return_type: Option<TypeView>,
    pub type_params: Seq<GenericParamView>,
    pub body: BlockView,
    pub is_extern: bool,
    pub is_intrinsic: bool,
    pub is_method: bool,
    pub is_pub: bool,
    pub attribs: Seq<AttributeView>,
    pub span: Span,
}

impl View for Function {
    type V = FunctionView;

    open spec fn view(&self) -> FunctionView {
        function_view(*self)
    }
}

/// What a [`Param`] is, over sequences.
pub struct ParamView {
    pub name: Seq<char>,
    pub ty: TypeView,
    pub span: Span,
}

impl View for Param {
    type V = ParamView;

    open spec fn view(&self) -> ParamView {
        param_view(*self)
    }
}

/// What a [`Block`] is, over sequences.
pub struct BlockView {
    pub stmts: Seq<StmtView>,
    pub tail_expr: Option<Box<ExprView>>,
    pub span: Span,
}

impl View for Block {
    type V = BlockView;

    open spec fn view(&self) -> BlockView {
        block_view(*self)
    }
}

/// What a [`Stmt`] is, over sequences.
pub enum StmtView {
    Let {
        pattern: PatternView,
        is_mut: bool,
        type_ann: Option<TypeView>,
        init: ExprView,
        else_block: Option<BlockView>,
        span: Span,
    },
    Const { name: Seq<char>, type_ann: Option<TypeView>, init: ExprView, span: Span },
    Expr(ExprView),
    Return { value: Option<Box<ExprView>>, span: Span },
    Continue { span: Span },
    Break { value: Option<Box<ExprView>>, span: Span },
}

impl View for Stmt {
    type V = StmtView;

    open spec fn view(&self) -> StmtView {
        stmt_view(*self)
    }
}

/// What a [`Type`] is, over sequences.
pub enum TypeView {
    I8,
    I16,
    I32,
    I64,
    U8,
    U16,
    U32,
    U64,
    Usize,
    Isize,
    F32,
    F64,
    Bool,
    Never,
    Tuple(Seq<TypeView>),
    Unit,
    Str,
    Ptr { inner: Box<TypeView>, is_mut: bool },
    Ref { inner: Box<TypeView>, is_mut: bool },
    Array { inner: Box<TypeView>, len: usize },
    GenericArray { inner: Box<TypeView>, len_var: Seq<char> },
    Slice { inner: Box<TypeView> },
    Struct(Seq<char>),
    GenericInstance(Seq<char>, Seq<TypeView>),
    Alias(Seq<char>, Seq<TypeView>),
    SelfType,
    Infer,
    ImplTrait(Seq<TraitBoundView>),
}

impl View for Type {
    type V = TypeView;

    open spec fn view(&self) -> TypeView {
        type_view(*self)
    }
}

/// What a [`TraitBound`] is, over sequences.
pub struct TraitBoundView {
    pub trait_name: Seq<char>,
    pub generic_args: Seq<TypeView>,
}

impl View for TraitBound {
    type V = TraitBoundView;

    open spec fn view(&self) -> TraitBoundView {
        trait_bound_view(*self)
    }
}

/// What a [`GenericParam`] is, over sequences.
pub struct GenericParamView {
    pub name: Seq<char>,
    pub bounds: Seq<TraitBoundView>,
}

impl View for GenericParam {
    type V = GenericParamView;

    open spec fn view(&self) -> GenericParamView {
        generic_param_view(*self)
    }
}

/// What a [`Expr`] is, over sequences.
pub enum ExprView {
    BoolLit(bool, Span),
    IntLit(i64, Span),
    FloatLit(Seq<char>, Span),
    StrLit(Seq<char>, Span),
    Ident(Seq<char>, Span),
    Call { callee: Seq<char>, args: Seq<ExprView>, type_args: Seq<TypeView>, span: Span },
    QualifiedCall {
        module: Seq<char>,
        callee: Seq<char>,
        args: Seq<ExprView>,
        type_args: Seq<TypeView>,
        span: Span,
    },
    Binary { op: BinOp, lhs: Box<ExprView>, rhs: Box<ExprView>, span: Span },
    Assign { target: Box<ExprView>, value: Box<ExprView>, span: Span },
    Ref { expr: Box<ExprView>, is_mut: bool, span: Span },
    UnaryNot(Box<ExprView>, Span),
    UnaryMinus(Box<ExprView>, Span),
    Deref(Box<ExprView>, Span),
    Cast { expr: Box<ExprView>, to_type: TypeView, span: Span },
    Tuple(Seq<ExprView>, Span),
    Unit(Span),
    Member { expr: Box<ExprView>, index: usize, field: Option<Seq<char>>, span: Span },
    MethodCall {
        expr: Box<ExprView>,
        method: Seq<char>,
        args: Seq<ExprView>,
        type_args: Seq<TypeView>,
        span: Span,
    },
    StructLit { struct_name: Seq<char>, fields: Seq<(Seq<char>, ExprView)>, span: Span },
    EnumLit {
        enum_name: Seq<char>,
        variant: Seq<char>,
        payload: Option<Box<ExprView>>,
        span: Span,
    },
    If {
        cond: Box<ExprView>,
        then_block: BlockView,
        else_ifs: Seq<(ExprView, BlockView)>,
        else_block: Option<BlockView>,
        span: Span,
    },
    Loop { body: BlockView, span: Span },
    While { cond: Box<ExprView>, body: BlockView, span: Span },
    For { pattern: PatternView, container: Box<ExprView>, body: BlockView, span: Span },
    Array(Seq<ExprView>, Span),
    Repeat(Box<ExprView>, usize, Span),
    Index { array: Box<ExprView>, index: Box<ExprView>, span: Span },
    IfLet {
        pattern: PatternView,
        scrutinee: Box<ExprView>,
        then_block: BlockView,
        else_block: Option<BlockView>,
        span: Span,
    },
    Match { scrutinee: Box<ExprView>, arms: Seq<MatchArmView>, span: Span },
    Block(BlockView, Span),
}

impl View for Expr {
    type V = ExprView;

    open spec fn view(&self) -> ExprView {
        expr_view(*self)
    }
}

/// What a [`StructDecl`] is, over sequences.
pub struct StructDeclView {
    pub name: Seq<char>,
    pub fields: Seq<StructFieldView>,
    pub type_params: Seq<GenericParamView>,
    pub is_pub: bool,
    pub attribs: Seq<AttributeView>,
    pub span: Span,
}

impl View for StructDecl {
    type V = StructDeclView;

    open spec fn view(&self) -> StructDeclView {
        struct_decl_view(*self)
    }
}

/// What a [`StructField`] is, over sequences.
pub struct StructFieldView {
    pub name: Seq<char>,
    pub ty: TypeView,
    pub is_pub: bool,
    pub span: Span,
}

impl View for StructField {
    type V = StructFieldView;

    open spec fn view(&self) -> StructFieldView {
        struct_field_view(*self)
    }
}

/// What a [`TraitConst`] is, over sequences.
pub struct TraitConstView {
    pub name: Seq<char>,
    pub ty: TypeView,
    pub default_value: Option<ExprView>,
    pub span: Span,
}

impl View for TraitConst {
    type V = TraitConstView;

    open spec fn view(&self) -> TraitConstView {
        trait_const_view(*self)
    }
}

/// What a [`TraitDecl`] is, over sequences.
pub struct TraitDeclView {
    pub name: Seq<char>,
    pub type_params: Seq<GenericParamView>,
    pub methods: Seq<TraitMethodDefView>,
    pub consts: Seq<TraitConstView>,
    pub is_pub: bool,
    pub span: Span,
}

impl View for TraitDecl {
    type V = TraitDeclView;

    open spec fn view(&self) -> TraitDeclView {
        trait_decl_view(*self)
    }
}

/// What a [`TraitMethodDef`] is, over sequences.
pub struct TraitMethodDefView {
    pub name: Seq<char>,
    pub params: Seq<ParamView>,
    pub return_type: Option<TypeView>,
    pub body: Option<BlockView>,
}

impl View for TraitMethodDef {
    type V = TraitMethodDefView;

    open spec fn view(&self) -> TraitMethodDefView {
        trait_method_def_view(*self)
    }
}

/// What a [`TypeAliasDecl`] is, over sequences.
pub struct TypeAliasDeclView {
    pub name: Seq<char>,
    pub type_params: Seq<GenericParamView>,
    pub aliased_type: TypeView,
    pub is_pub: bool,
    pub span: Span,
}

impl View for TypeAliasDecl {
    type V = TypeAliasDeclView;

    open spec fn view(&self) -> TypeAliasDeclView {
        type_alias_decl_view(*self)
    }
}

/// What a [`EnumDecl`] is, over sequences.
pub struct EnumDeclView {
    pub name: Seq<char>,
    pub variants: Seq<EnumVariantView>,
    pub type_params: Seq<GenericParamView>,
    pub is_pub: bool,
    pub attribs: Seq<AttributeView>,
    pub span: Span,
}

impl View for EnumDecl {
    type V = EnumDeclView;

    open spec fn view(&self) -> EnumDeclView {
        enum_decl_view(*self)
    }
}

/// What a [`EnumVariant`] is, over sequences.
pub struct EnumVariantView {
    pub name: Seq<char>,
    pub ty: Option<TypeView>,
    pub span: Span,
}

impl View for EnumVariant {
    type V = EnumVariantView;

    open spec fn view(&self) -> EnumVariantView {
        enum_variant_view(*self)
    }
}

/// What a [`AssociatedConst`] is, over sequences.
pub struct AssociatedConstView {
    pub name: Seq<char>,
    pub ty: TypeView,
    pub value: ExprView,
    pub is_pub: bool,
    pub span: Span,
}

impl View for AssociatedConst {
    type V = AssociatedConstView;

    open spec fn view(&self) -> AssociatedConstView {
        associated_const_view(*self)
    }
}

/// What a [`ImplDecl`] is, over sequences.
pub struct ImplDeclView {
    pub impl_type: TypeView,
    pub trait_name: Option<Seq<char>>,
    pub trait_args: Seq<TypeView>,
    pub type_params: Seq<GenericParamView>,
    pub const_params: Seq<Seq<char>>,
    pub methods: Seq<FunctionView>,
    pub consts: Seq<AssociatedConstView>,
    pub span: Span,
}

impl View for ImplDecl {
    type V = ImplDeclView;

    open spec fn view(&self) -> ImplDeclView {
        impl_decl_view(*self)
    }
}

/// What a [`Pattern`] is, over sequences.
pub enum PatternView {
    Wildcard,
    Binding(Seq<char>),
    EnumVariant {
        enum_name: Option<Seq<char>>,
        variant: Seq<char>,
        payload: Option<Box<PatternView>>,
    },
    IntLit(i64),
    BoolLit(bool),
}

impl View for Pattern {
    type V = PatternView;

    open spec fn view(&self) -> PatternView {
        pattern_view(*self)
    }
}

/// What a [`MatchArm`] is, over sequences.
pub struct MatchArmView {
    pub pattern: PatternView,
    pub guard: Option<Box<ExprView>>,
    pub body: BlockView,
}

impl View for MatchArm {
    type V = MatchArmView;

    open spec fn view(&self) -> MatchArmView {
        match_arm_view(*self)
    }
}

pub open spec fn attribute_view(x: Attribute) -> AttributeView
    decreases x,
{
    AttributeView {
        name: x.name@,
        args: string_seq_view(x.args@),
        span: x.span,
    }
}

pub open spec fn module_decl_view(x: ModuleDecl) -> ModuleDeclView
    decreases x,
{
    ModuleDeclView {
        name: x.name@,
        body: match x.body { Some(x) => Some(program_view(x)), None => None },
        is_pub: x.is_pub,
        span: x.span,
    }
}

pub open spec fn program_view(x: Program) -> ProgramView
    decreases x,
{
    ProgramView {
        uses: use_seq_view(x.uses@),
        modules: module_decl_seq_view(x.modules@),
        funcs: function_seq_view(x.funcs@),
        structs: struct_decl_seq_view(x.structs@),
        enums: enum_decl_seq_view(x.enums@),
        traits: trait_decl_seq_view(x.traits@),
        impls: impl_decl_seq_view(x.impls@),
        type_aliases: type_alias_decl_seq_view(x.type_aliases@),
    }
}

pub open spec fn use_view(x: Use) -> UseView
    decreases x,
{
    UseView {
        path: string_seq_view(x.path@),
        is_pub: x.is_pub,
        in_module: string_seq_view(x.in_module@),
        span: x.span,
    }
}

pub open spec fn function_view(x: Function) -> FunctionView
    decreases x,
{
    FunctionView {
        name: x.name@,
        params: param_seq_view(x.params@),
        return_type: match x.return_type { Some(x) => Some(type_view(x)), None => None },
        type_params: generic_param_seq_view(x.type_params@),
        body: block_view(x.body),
        is_extern: x.is_extern,
        is_intrinsic: x.is_intrinsic,
        is_method: x.is_method,
        is_pub: x.is_pub,
        attribs: attribute_seq_view(x.attribs@),
        span: x.span,
    }
}

pub open spec fn param_view(x: Param) -> ParamView
    decreases x,
{
    ParamView {
        name: x.name@,
        ty: type_view(x.ty),
        span: x.span,
    }
}

pub open spec fn block_view(x: Block) -> BlockView
    decreases x,
{
    BlockView {
        stmts: stmt_seq_view(x.stmts@),
        tail_expr: match x.tail_expr { Some(x) => Some(Box::new(expr_view(*x))), None => None },
        span: x.span,
    }
}

pub open spec fn stmt_view(x: Stmt) -> StmtView
    decreases x,
{
    match x {
        Stmt::Let { pattern, is_mut, type_ann, init, else_block, span } => StmtView::Let {
            pattern: pattern_view(pattern),
            is_mut: is_mut,
            type_ann: match type_ann { Some(x) => Some(type_view(x)), None => None },
            init: expr_view(init),
            else_block: match else_block { Some(x) => Some(block_view(x)), None => None },
            span: span,
        },
        Stmt::Const { name, type_ann, init, span } => StmtView::Const {
            name: name@,
            type_ann: match type_ann { Some(x) => Some(type_view(x)), None => None },
            init: expr_view(init),
            span: span,
        },
        Stmt::Expr(x0) => StmtView::Expr(expr_view(x0)),
        Stmt::Return { value, span } => StmtView::Return {
            value: match value { Some(x) => Some(Box::new(expr_view(*x))), None => None },
            span: span,
        },
        Stmt::Continue { span } => StmtView::Continue { span: span },
        Stmt::Break { value, span } => StmtView::Break {
            value: match value { Some(x) => Some(Box::new(expr_view(*x))), None => None },
            span: span,
        },
    }
}

pub open spec fn type_view(x: Type) -> TypeView
    decreases x,
{
    match x {
        Type::I8 => TypeView::I8,
        Type::I16 => TypeView::I16,
        Type::I32 => TypeView::I32,
        Type::I64 => TypeView::I64,
        Type::U8 => TypeView::U8,
        Type::U16 => TypeView::U16,
        Type::U32 => TypeView::U32,
        Type::U64 => TypeView::U64,
        Type::Usize => TypeView::Usize,
        Type::Isize => TypeView::Isize,
        Type::F32 => TypeView::F32,
        Type::F64 => TypeView::F64,
        Type::Bool => TypeView::Bool,
        Type::Never => TypeView::Never,
        Type::Tuple(x0) => TypeView::Tuple(type_seq_view(x0@)),
        Type::Unit => TypeView::Unit,
        Type::Str => TypeView::Str,
        Type::Ptr { inner, is_mut } => TypeView::Ptr {
            inner: Box::new(type_view(*inner)),
            is_mut: is_mut,
        },
        Type::Ref { inner, is_mut } => TypeView::Ref {
            inner: Box::new(type_view(*inner)),
            is_mut: is_mut,
        },
        Type::Array { inner, len } => TypeView::Array {
            inner: Box::new(type_view(*inner)),
            len: len,
        },
        Type::GenericArray { inner, len_var } => TypeView::GenericArray {
            inner: Box::new(type_view(*inner)),
            len_var: len_var@,
        },
        Type::Slice { inner } => TypeView::Slice { inner: Box::new(type_view(*inner)) },
        Type::Struct(x0) => TypeView::Struct(x0@),
        Type::GenericInstance(x0, x1) => TypeView::GenericInstance(x0@, type_seq_view(x1@)),
        Type::Alias(x0, x1) => TypeView::Alias(x0@, type_seq_view(x1@)),
        Type::SelfType => TypeView::SelfType,
        Type::Infer => TypeView::Infer,
        Type::ImplTrait(x0) => TypeView::ImplTrait(trait_bound_seq_view(x0@)),
    }
}

pub open spec fn trait_bound_view(x: TraitBound) -> TraitBoundView
    decreases x,
{
    TraitBoundView {
        trait_name: x.trait_name@,
        generic_args: type_seq_view(x.generic_args@),
    }
}

pub open spec fn generic_param_view(x: GenericParam) -> GenericParamView
    decreases x,
{
    GenericParamView {
        name: x.name@,
        bounds: trait_bound_seq_view(x.bounds@),
    }
}

pub open spec fn expr_view(x: Expr) -> ExprView
    decreases x,
{
    match x {
        Expr::BoolLit(x0, x1) => ExprView::BoolLit(x0, x1),
        Expr::IntLit(x0, x1) => ExprView::IntLit(x0, x1),
        Expr::FloatLit(x0, x1) => ExprView::FloatLit(x0@, x1),
        Expr::StrLit(x0, x1) => ExprView::StrLit(x0@, x1),
        Expr::Ident(x0, x1) => ExprView::Ident(x0@, x1),
        Expr::Call { callee, args, type_args, span } => ExprView::Call {
            callee: callee@,
            args: expr_seq_view(args@),
            type_args: type_seq_view(type_args@),
            span: span,
        },
        Expr::QualifiedCall { module, callee, args, type_args, span } => ExprView::QualifiedCall {
            module: module@,
            callee: callee@,
            args: expr_seq_view(args@),
            type_args: type_seq_view(type_args@),
            span: span,
        },
        Expr::Binary { op, lhs, rhs, span } => ExprView::Binary {
            op: op,
            lhs: Box::new(expr_view(*lhs)),
            rhs: Box::new(expr_view(*rhs)),
            span: span,
        },
        Expr::Assign { target, value, span } => ExprView::Assign {
            target: Box::new(expr_view(*target)),
            value: Box::new(expr_view(*value)),
            span: span,
        },
        Expr::Ref { expr, is_mut, span } => ExprView::Ref {
            expr: Box::new(expr_view(*expr)),
            is_mut: is_mut,
            span: span,
        },
        Expr::UnaryNot(x0, x1) => ExprView::UnaryNot(Box::new(expr_view(*x0)), x1),
        Expr::UnaryMinus(x0, x1) => ExprView::UnaryMinus(Box::new(expr_view(*x0)), x1),
        Expr::Deref(x0, x1) => ExprView::Deref(Box::new(expr_view(*x0)), x1),
        Expr::Cast { expr, to_type, span } => ExprView::Cast {
            expr: Box::new(expr_view(*expr)),
            to_type: type_view(to_type),
            span: span,
        },
        Expr::Tuple(x0, x1) => ExprView::Tuple(expr_seq_view(x0@), x1),
        Expr::Unit(x0) => ExprView::Unit(x0),
        Expr::Member { expr, index, field, span } => ExprView::Member {
            expr: Box::new(expr_view(*expr)),
            index: index,
            field: match field { Some(x) => Some(x@), None => None },
            span: span,
        },
        Expr::MethodCall { expr, method, args, type_args, span } => ExprView::MethodCall {
            expr: Box::new(expr_view(*expr)),
            method: method@,
            args: expr_seq_view(args@),
            type_args: type_seq_view(type_args@),
            span: span,
        },
        Expr::StructLit { struct_name, fields, span } => ExprView::StructLit {
            struct_name: struct_name@,
            fields: string_expr_seq_view(fields@),
            span: span,
        },
        Expr::EnumLit { enum_name, variant, payload, span } => ExprView::EnumLit {
            enum_name: enum_name@,
            variant: variant@,
            payload: match payload { Some(x) => Some(Box::new(expr_view(*x))), None => None },
            span: span,
        },
        Expr::If { cond, then_block, else_ifs, else_block, span } => ExprView::If {
            cond: Box::new(expr_view(*cond)),
            then_block: block_view(then_block),
            else_ifs: expr_block_seq_view(else_ifs@),
            else_block: match else_block { Some(x) => Some(block_view(x)), None => None },
            span: span,
        },
        Expr::Loop { body, span } => ExprView::Loop { body: block_view(body), span: span },
        Expr::While { cond, body, span } => ExprView::While {
            cond: Box::new(expr_view(*cond)),
            body: block_view(body),
            span: span,
        },
        Expr::For { pattern, container, body, span } => ExprView::For {
            pattern: pattern_view(pattern),
            container: Box::new(expr_view(*container)),
            body: block_view(body),
            span: span,
        },
        Expr::Array(x0, x1) => ExprView::Array(expr_seq_view(x0@), x1),
        Expr::Repeat(x0, x1, x2) => ExprView::Repeat(Box::new(expr_view(*x0)), x1, x2),
        Expr::Index { array, index, span } => ExprView::Index {
            array: Box::new(expr_view(*array)),
            index: Box::new(expr_view(*index)),
            span: span,
        },
        Expr::IfLet { pattern, scrutinee, then_block, else_block, span } => ExprView::IfLet {
            pattern: pattern_view(pattern),
            scrutinee: Box::new(expr_view(*scrutinee)),
            then_block: block_view(then_block),
            else_block: match else_block { Some(x) => Some(block_view(x)), None => None },
            span: span,
        },
        Expr::Match { scrutinee, arms, span } => ExprView::Match {
            scrutinee: Box::new(expr_view(*scrutinee)),
            arms: match_arm_seq_view(arms@),
            span: span,
        },
        Expr::Block(x0, x1) => ExprView::Block(block_view(x0), x1),
    }
}

pub open spec fn struct_decl_view(x: StructDecl) -> StructDeclView
    decreases x,
{
    StructDeclView {
        name: x.name@,
        fields: struct_field_seq_view(x.fields@),
        type_params: generic_param_seq_view(x.type_params@),
        is_pub: x.is_pub,
        attribs: attribute_seq_view(x.attribs@),
        span: x.span,
    }
}

pub open spec fn struct_field_view(x: StructField) -> StructFieldView
    decreases x,
{
    StructFieldView {
        name: x.name@,
        ty: type_view(x.ty),
        is_pub: x.is_pub,
        span: x.span,
    }
}

pub open spec fn trait_const_view(x: TraitConst) -> TraitConstView
    decreases x,
{
    TraitConstView {
        name: x.name@,
        ty: type_view(x.ty),
        default_value: match x.default_value { Some(x) => Some(expr_view(x)), None => None },
        span: x.span,
    }
}

pub open spec fn trait_decl_view(x: TraitDecl) -> TraitDeclView
    decreases x,
{
    TraitDeclView {
        name: x.name@,
        type_params: generic_param_seq_view(x.type_params@),
        methods: trait_method_def_seq_view(x.methods@),
        consts: trait_const_seq_view(x.consts@),
        is_pub: x.is_pub,
        span: x.span,
    }
}

pub open spec fn trait_method_def_view(x: TraitMethodDef) -> TraitMethodDefView
    decreases x,
{
    TraitMethodDefView {
        name: x.name@,
        params: param_seq_view(x.params@),
        return_type: match x.return_type { Some(x) => Some(type_view(x)), None => None },
        body: match x.body { Some(x) => Some(block_view(x)), None => None },
    }
}

pub open spec fn type_alias_decl_view(x: TypeAliasDecl) -> TypeAliasDeclView
    decreases x,
{
    TypeAliasDeclView {
        name: x.name@,
        type_params: generic_param_seq_view(x.type_params@),
        aliased_type: type_view(x.aliased_type),
        is_pub: x.is_pub,
        span: x.span,
    }
}

pub open spec fn enum_decl_view(x: EnumDecl) -> EnumDeclView
    decreases x,
{
    EnumDeclView {
        name: x.name@,
        variants: enum_variant_seq_view(x.variants@),
        type_params: generic_param_seq_view(x.type_params@),
        is_pub: x.is_pub,
        attribs: attribute_seq_view(x.attribs@),
        span: x.span,
    }
}

pub open spec fn enum_variant_view(x: EnumVariant) -> EnumVariantView
    decreases x,
{
    EnumVariantView {
        name: x.name@,
        ty: match x.ty { Some(x) => Some(type_view(x)), None => None },
        span: x.span,
    }
}

pub open spec fn associated_const_view(x: AssociatedConst) -> AssociatedConstView
    decreases x,
{
    AssociatedConstView {
        name: x.name@,
        ty: type_view(x.ty),
        value: expr_view(x.value),
        is_pub: x.is_pub,
        span: x.span,
    }
}

pub open spec fn impl_decl_view(x: ImplDecl) -> ImplDeclView
    decreases x,
{
    ImplDeclView {
        impl_type: type_view(x.impl_type),
        trait_name: match x.trait_name { Some(x) => Some(x@), None => None },
        trait_args: type_seq_view(x.trait_args@),
        type_params: generic_param_seq_view(x.type_params@),
        const_params: string_seq_view(x.const_params@),
        methods: function_seq_view(x.methods@),
        consts: associated_const_seq_view(x.consts@),
        span: x.span,
    }
}

pub open spec fn pattern_view(x: Pattern) -> PatternView
    decreases x,
{
    match x {
        Pattern::Wildcard => PatternView::Wildcard,
        Pattern::Binding(x0) => PatternView::Binding(x0@),
        Pattern::EnumVariant { enum_name, variant, payload } => PatternView::EnumVariant {
            enum_name: match enum_name { Some(x) => Some(x@), None => None },
            variant: variant@,
            payload: match payload { Some(x) => Some(Box::new(pattern_view(*x))), None => None },
        },
        Pattern::IntLit(x0) => PatternView::IntLit(x0),
        Pattern::BoolLit(x0) => PatternView::BoolLit(x0),
    }
}

pub open spec fn match_arm_view(x: MatchArm) -> MatchArmView
    decreases x,
{
    MatchArmView {
        pattern: pattern_view(x.pattern),
        guard: match x.guard { Some(x) => Some(Box::new(expr_view(*x))), None => None },
        body: block_view(x.body),
    }
}

pub open spec fn string_seq_view(s: Seq<String>) -> Seq<Seq<char>>
    decreases s,
{
    Seq::new(
        s.len(),
        |i: int|
            if 0 <= i < s.len() {
                s[i]@
            } else {
                arbitrary()
            },
    )
}

pub open spec fn use_seq_view(s: Seq<Use>) -> Seq<UseView>
    decreases s,
{
    Seq::new(
        s.len(),
        |i: int|
            if 0 <= i < s.len() {
                use_view(s[i])
            } else {
                arbitrary()
            },
    )
}

pub open spec fn module_decl_seq_view(s: Seq<ModuleDecl>) -> Seq<ModuleDeclView>
    decreases s,
{
    Seq::new(
        s.len(),
        |i: int|
            if 0 <= i < s.len() {
                module_decl_view(s[i])
            } else {
                arbitrary()
            },
    )
}

pub open spec fn function_seq_view(s: Seq<Function>) -> Seq<FunctionView>
    decreases s,
{
    Seq::new(
        s.len(),
        |i: int|
            if 0 <= i < s.len() {
                function_view(s[i])
            } else {
                arbitrary()
            },
    )
}

pub open spec fn struct_decl_seq_view(s: Seq<StructDecl>) -> Seq<StructDeclView>
    decreases s,
{
    Seq::new(
        s.len(),
        |i: int|
            if 0 <= i < s.len() {
                struct_decl_view(s[i])
            } else {
                arbitrary()
            },
    )
}

pub open spec fn enum_decl_seq_view(s: Seq<EnumDecl>) -> Seq<EnumDeclView>
    decreases s,
{
    Seq::new(
        s.len(),
        |i: int|
            if 0 <= i < s.len() {
                enum_decl_view(s[i])
            } else {
                arbitrary()
            },
    )
}

pub open spec fn trait_decl_seq_view(s: Seq<TraitDecl>) -> Seq<TraitDeclView>
    decreases s,
{
    Seq::new(
        s.len(),
        |i: int|
            if 0 <= i < s.len() {
                trait_decl_view(s[i])
            } else {
                arbitrary()
            },
    )
}

pub open spec fn impl_decl_seq_view(s: Seq<ImplDecl>) -> Seq<ImplDeclView>
    decreases s,
{
    Seq::new(
        s.len(),
        |i: int|
            if 0 <= i < s.len() {
                impl_decl_view(s[i])
            } else {
                arbitrary()
            },
    )
}

pub open spec fn type_alias_decl_seq_view(s: Seq<TypeAliasDecl>) -> Seq<TypeAliasDeclView>
    decreases s,
{
    Seq::new(
        s.len(),
        |i: int|
            if 0 <= i < s.len() {
                type_alias_decl_view(s[i])
            } else {
                arbitrary()
            },
    )
}

pub open spec fn param_seq_view(s: Seq<Param>) -> Seq<ParamView>
    decreases s,
{
    Seq::new(
        s.len(),
        |i: int|
            if 0 <= i < s.len() {
                param_view(s[i])
            } else {
                arbitrary()
            },
    )
}

pub open spec fn generic_param_seq_view(s: Seq<GenericParam>) -> Seq<GenericParamView>
    decreases s,
{
    Seq::new(
        s.len(),
        |i: int|
            if 0 <= i < s.len() {
                generic_param_view(s[i])
            } else {
                arbitrary()
            },
    )
}

pub open spec fn attribute_seq_view(s: Seq<Attribute>) -> Seq<AttributeView>
    decreases s,
{
    Seq::new(
        s.len(),
        |i: int|
            if 0 <= i < s.len() {
                attribute_view(s[i])
            } else {
                arbitrary()
            },
    )
}

pub open spec fn stmt_seq_view(s: Seq<Stmt>) -> Seq<StmtView>
    decreases s,
{
    Seq::new(
        s.len(),
        |i: int|
            if 0 <= i < s.len() {
                stmt_view(s[i])
            } else {
                arbitrary()
            },
    )
}

pub open spec fn type_seq_view(s: Seq<Type>) -> Seq<TypeView>
    decreases s,
{
    Seq::new(
        s.len(),
        |i: int|
            if 0 <= i < s.len() {
                type_view(s[i])
            } else {
                arbitrary()
            },
    )
}

pub open spec fn trait_bound_seq_view(s: Seq<TraitBound>) -> Seq<TraitBoundView>
    decreases s,
{
    Seq::new(
        s.len(),
        |i: int|
            if 0 <= i < s.len() {
                trait_bound_view(s[i])
            } else {
                arbitrary()
            },
    )
}

pub open spec fn expr_seq_view(s: Seq<Expr>) -> Seq<ExprView>
    decreases s,
{
    Seq::new(
        s.len(),
        |i: int|
            if 0 <= i < s.len() {
                expr_view(s[i])
            } else {
                arbitrary()
            },
    )
}

pub open spec fn string_expr_seq_view(s: Seq<(String, Expr)>) -> Seq<(Seq<char>, ExprView)>
    decreases s,
{
    Seq::new(
        s.len(),
        |i: int|
            if 0 <= i < s.len() {
                (s[i].0@, expr_view(s[i].1))
            } else {
                arbitrary()
            },
    )
}

pub open spec fn expr_block_seq_view(s: Seq<(Expr, Block)>) -> Seq<(ExprView, BlockView)>
    decreases s,
{
    Seq::new(
        s.len(),
        |i: int|
            if 0 <= i < s.len() {
                (expr_view(s[i].0), block_view(s[i].1))
            } else {
                arbitrary()
            },
    )
}

pub open spec fn match_arm_seq_view(s: Seq<MatchArm>) -> Seq<MatchArmView>
    decreases s,
{
    Seq::new(
        s.len(),
        |i: int|
            if 0 <= i < s.len() {
                match_arm_view(s[i])
            } else {
                arbitrary()
            },
    )
}

pub open spec fn struct_field_seq_view(s: Seq<StructField>) -> Seq<StructFieldView>
    decreases s,
{
    Seq::new(
        s.len(),
        |i: int|
            if 0 <= i < s.len() {
                struct_field_view(s[i])
            } else {
                arbitrary()
            },
    )
}

pub open spec fn trait_method_def_seq_view(s: Seq<TraitMethodDef>) -> Seq<TraitMethodDefView>
    decreases s,
{
    Seq::new(
        s.len(),
        |i: int|
            if 0 <= i < s.len() {
                trait_method_def_view(s[i])
            } else {
                arbitrary()
            },
    )
}

pub open spec fn trait_const_seq_view(s: Seq<TraitConst>) -> Seq<TraitConstView>
    decreases s,
{
    Seq::new(
        s.len(),
        |i: int|
            if 0 <= i < s.len() {
                trait_const_view(s[i])
            } else {
                arbitrary()
            },
    )
}

pub open spec fn enum_variant_seq_view(s: Seq<EnumVariant>) -> Seq<EnumVariantView>
    decreases s,
{
    Seq::new(
        s.len(),
        |i: int|
            if 0 <= i < s.len() {
                enum_variant_view(s[i])
            } else {
                arbitrary()
            },
    )
}

pub open spec fn associated_const_seq_view(s: Seq<AssociatedConst>) -> Seq<AssociatedConstView>
    decreases s,
{
    Seq::new(
        s.len(),
        |i: int|
            if 0 <= i < s.len() {
                associated_const_view(s[i])
            } else {
                arbitrary()
            },
    )
}

/// The span that an expression carries.
pub open spec fn span_of(e: ExprView) -> Span {
    match e {
        ExprView::BoolLit(_, s) => s,
        ExprView::IntLit(_, s) => s,
        ExprView::FloatLit(_, s) => s,
        ExprView::StrLit(_, s) => s,
        ExprView::Ident(_, s) => s,
        ExprView::Call { span, .. } => span,
        ExprView::QualifiedCall { span, .. } => span,
        ExprView::Binary { span, .. } => span,
        ExprView::Assign { span, .. } => span,
        ExprView::Ref { span, .. } => span,
        ExprView::UnaryNot(_, s) => s,
        ExprView::UnaryMinus(_, s) => s,
        ExprView::Deref(_, s) => s,
        ExprView::Cast { span, .. } => span,
        ExprView::Tuple(_, s) => s,
        ExprView::Unit(s) => s,
        ExprView::Member { span, .. } => span,
        ExprView::MethodCall { span, .. } => span,
        ExprView::StructLit { span, .. } => span,
        ExprView::EnumLit { span, .. } => span,
        ExprView::If { span, .. } => span,
        ExprView::Loop { span, .. } => span,
        ExprView::While { span, .. } => span,
        ExprView::For { span, .. } => span,
        ExprView::Array(_, s) => s,
        ExprView::Repeat(_, _, s) => s,
        ExprView::Index { span, .. } => span,
        ExprView::IfLet { span, .. } => span,
        ExprView::Match { span, .. } => span,
        ExprView::Block(_, s) => s,
    }
}

/// A copy of `x`.
pub fn dup_attribute(x: &Attribute) -> (r: Attribute)
    ensures
        r@ == x@,
    decreases x,
{
    Attribute {
        name: x.name.clone(),
        args: dup_string_seq(&x.args),
        span: x.span,
    }
}

impl Clone for Attribute {
    fn clone(&self) -> (r: Attribute)
        ensures
            r@ == self@,
    {
        dup_attribute(self)
    }
}

/// A copy of `x`.
pub fn dup_module_decl(x: &ModuleDecl) -> (r: ModuleDecl)
    ensures
        r@ == x@,
    decreases x,
{
    ModuleDecl {
        name: x.name.clone(),
        body: match &x.body { Some(x) => Some(dup_program(x)), None => None },
        is_pub: x.is_pub,
        span: x.span,
    }
}

impl Clone for ModuleDecl {
    fn clone(&self) -> (r: ModuleDecl)
        ensures
            r@ == self@,
    {
        dup_module_decl(self)
    }
}

/// A copy of `x`.
pub fn dup_program(x: &Program) -> (r: Program)
    ensures
        r@ == x@,
    decreases x,
{
    Program {
        uses: dup_use_seq(&x.uses),
        modules: dup_module_decl_seq(&x.modules),
        funcs: dup_function_seq(&x.funcs),
        structs: dup_struct_decl_seq(&x.structs),
        enums: dup_enum_decl_seq(&x.enums),
        traits: dup_trait_decl_seq(&x.traits),
        impls: dup_impl_decl_seq(&x.impls),
        type_aliases: dup_type_alias_decl_seq(&x.type_aliases),
    }
}

impl Clone for Program {
    fn clone(&self) -> (r: Program)
        ensures
            r@ == self@,
    {
        dup_program(self)
    }
}

/// A copy of `x`.
pub fn dup_use(x: &Use) -> (r: Use)
    ensures
        r@ == x@,
    decreases x,
{
    Use {
        path: dup_string_seq(&x.path),
        is_pub: x.is_pub,
        in_module: dup_string_seq(&x.in_module),
        span: x.span,
    }
}

impl Clone for Use {
    fn clone(&self) -> (r: Use)
        ensures
            r@ == self@,
    {
        dup_use(self)
    }
}

/// A copy of `x`.
pub fn dup_function(x: &Function) -> (r: Function)
    ensures
        r@ == x@,
    decreases x,
{
    Function {
        name: x.name.clone(),
        params: dup_param_seq(&x.params),
        return_type: match &x.return_type { Some(x) => Some(dup_type(x)), None => None },
        type_params: dup_generic_param_seq(&x.type_params),
        body: dup_block(&x.body),
        is_extern: x.is_extern,
        is_intrinsic: x.is_intrinsic,
        is_method: x.is_method,
        is_pub: x.is_pub,
        attribs: dup_attribute_seq(&x.attribs),
        span: x.span,
    }
}

impl Clone for Function {
    fn clone(&self) -> (r: Function)
        ensures
            r@ == self@,
    {
        dup_function(self)
    }
}

/// A copy of `x`.
pub fn dup_param(x: &Param) -> (r: Param)
    ensures
        r@ == x@,
    decreases x,
{
    Param {
        name: x.name.clone(),
        ty: dup_type(&x.ty),
        span: x.span,
    }
}

impl Clone for Param {
    fn clone(&self) -> (r: Param)
        ensures
            r@ == self@,
    {
        dup_param(self)
    }
}

/// A copy of `x`.
pub fn dup_block(x: &Block) -> (r: Block)
    ensures
        r@ == x@,
    decreases x,
{
    Block {
        stmts: dup_stmt_seq(&x.stmts),
        tail_expr: match &x.tail_expr { Some(x) => Some(Box::new(dup_expr(&**x))), None => None },
        span: x.span,
    }
}

impl Clone for Block {
    fn clone(&self) -> (r: Block)
        ensures
            r@ == self@,
    {
        dup_block(self)
    }
}

/// A copy of `x`.
pub fn dup_stmt(x: &Stmt) -> (r: Stmt)
    ensures
        r@ == x@,
    decreases x,
{
    match x {
        Stmt::Let { pattern, is_mut, type_ann, init, else_block, span } => Stmt::Let {
            pattern: dup_pattern(pattern),
            is_mut: *is_mut,
            type_ann: match type_ann { Some(x) => Some(dup_type(x)), None => None },
            init: dup_expr(init),
            else_block: match else_block { Some(x) => Some(dup_block(x)), None => None },
            span: *span,
        },
        Stmt::Const { name, type_ann, init, span } => Stmt::Const {
            name: name.clone(),
            type_ann: match type_ann { Some(x) => Some(dup_type(x)), None => None },
            init: dup_expr(init),
            span: *span,
        },
        Stmt::Expr(x0) => Stmt::Expr(dup_expr(x0)),
        Stmt::Return { value, span } => Stmt::Return {
            value: match value { Some(x) => Some(Box::new(dup_expr(&**x))), None => None },
            span: *span,
        },
        Stmt::Continue { span } => Stmt::Continue { span: *span },
        Stmt::Break { value, span } => Stmt::Break {
            value: match value { Some(x) => Some(Box::new(dup_expr(&**x))), None => None },
            span: *span,
        },
    }
}

impl Clone for Stmt {
    fn clone(&self) -> (r: Stmt)
        ensures
            r@ == self@,
    {
        dup_stmt(self)
    }
}

/// A copy of `x`.
pub fn dup_type(x: &Type) -> (r: Type)
    ensures
        r@ == x@,
    decreases x,
{
    match x {
        Type::I8 => Type::I8,
        Type::I16 => Type::I16,
        Type::I32 => Type::I32,
        Type::I64 => Type::I64,
        Type::U8 => Type::U8,
        Type::U16 => Type::U16,
        Type::U32 => Type::U32,
        Type::U64 => Type::U64,
        Type::Usize => Type::Usize,
        Type::Isize => Type::Isize,
        Type::F32 => Type::F32,
        Type::F64 => Type::F64,
        Type::Bool => Type::Bool,
        Type::Never => Type::Never,
        Type::Tuple(x0) => Type::Tuple(dup_type_seq(x0)),
        Type::Unit => Type::Unit,
        Type::Str => Type::Str,
        Type::Ptr { inner, is_mut } => Type::Ptr {
            inner: Box::new(dup_type(&**inner)),
            is_mut: *is_mut,
        },
        Type::Ref { inner, is_mut } => Type::Ref {
            inner: Box::new(dup_type(&**inner)),
            is_mut: *is_mut,
        },
        Type::Array { inner, len } => Type::Array {
            inner: Box::new(dup_type(&**inner)),
            len: *len,
        },
        Type::GenericArray { inner, len_var } => Type::GenericArray {
            inner: Box::new(dup_type(&**inner)),
            len_var: len_var.clone(),
        },
        Type::Slice { inner } => Type::Slice { inner: Box::new(dup_type(&**inner)) },
        Type::Struct(x0) => Type::Struct(x0.clone()),
        Type::GenericInstance(x0, x1) => Type::GenericInstance(x0.clone(), dup_type_seq(x1)),
        Type::Alias(x0, x1) => Type::Alias(x0.clone(), dup_type_seq(x1)),
        Type::SelfType => Type::SelfType,
        Type::Infer => Type::Infer,
        Type::ImplTrait(x0) => Type::ImplTrait(dup_trait_bound_seq(x0)),
    }
}

impl Clone for Type {
    fn clone(&self) -> (r: Type)
        ensures
            r@ == self@,
    {
        dup_type(self)
    }
}

/// A copy of `x`.
pub fn dup_trait_bound(x: &TraitBound) -> (r: TraitBound)
    ensures
        r@ == x@,
    decreases x,
{
    TraitBound {
        trait_name: x.trait_name.clone(),
        generic_args: dup_type_seq(&x.generic_args),
    }
}

impl Clone for TraitBound {
    fn clone(&self) -> (r: TraitBound)
        ensures
            r@ == self@,
    {
        dup_trait_bound(self)
    }
}

/// A copy of `x`.
pub fn dup_generic_param(x: &GenericParam) -> (r: GenericParam)
    ensures
        r@ == x@,
    decreases x,
{
    GenericParam {
        name: x.name.clone(),
        bounds: dup_trait_bound_seq(&x.bounds),
    }
}

impl Clone for GenericParam {
    fn clone(&self) -> (r: GenericParam)
        ensures
            r@ == self@,
    {
        dup_generic_param(self)
    }
}

/// A copy of `x`.
pub fn dup_expr(x: &Expr) -> (r: Expr)
    ensures
        r@ == x@,
    decreases x,
{
    match x {
        Expr::BoolLit(x0, x1) => Expr::BoolLit(*x0, *x1),
        Expr::IntLit(x0, x1) => Expr::IntLit(*x0, *x1),
        Expr::FloatLit(x0, x1) => Expr::FloatLit(x0.clone(), *x1),
        Expr::StrLit(x0, x1) => Expr::StrLit(x0.clone(), *x1),
        Expr::Ident(x0, x1) => Expr::Ident(x0.clone(), *x1),
        Expr::Call { callee, args, type_args, span } => Expr::Call {
            callee: callee.clone(),
            args: dup_expr_seq(args),
            type_args: dup_type_seq(type_args),
            span: *span,
        },
        Expr::QualifiedCall { module, callee, args, type_args, span } => Expr::QualifiedCall {
            module: module.clone(),
            callee: callee.clone(),
            args: dup_expr_seq(args),
            type_args: dup_type_seq(type_args),
            span: *span,
        },
        Expr::Binary { op, lhs, rhs, span } => Expr::Binary {
            op: *op,
            lhs: Box::new(dup_expr(&**lhs)),
            rhs: Box::new(dup_expr(&**rhs)),
            span: *span,
        },
        Expr::Assign { target, value, span } => Expr::Assign {
            target: Box::new(dup_expr(&**target)),
            value: Box::new(dup_expr(&**value)),
            span: *span,
        },
        Expr::Ref { expr, is_mut, span } => Expr::Ref {
            expr: Box::new(dup_expr(&**expr)),
            is_mut: *is_mut,
            span: *span,
        },
        Expr::UnaryNot(x0, x1) => Expr::UnaryNot(Box::new(dup_expr(&**x0)), *x1),
        Expr::UnaryMinus(x0, x1) => Expr::UnaryMinus(Box::new(dup_expr(&**x0)), *x1),
        Expr::Deref(x0, x1) => Expr::Deref(Box::new(dup_expr(&**x0)), *x1),
        Expr::Cast { expr, to_type, span } => Expr::Cast {
            expr: Box::new(dup_expr(&**expr)),
            to_type: dup_type(to_type),
            span: *span,
        },
        Expr::Tuple(x0, x1) => Expr::Tuple(dup_expr_seq(x0), *x1),
        Expr::Unit(x0) => Expr::Unit(*x0),
        Expr::Member { expr, index, field, span } => Expr::Member {
            expr: Box::new(dup_expr(&**expr)),
            index: *index,
            field: match field { Some(x) => Some(x.clone()), None => None },
            span: *span,
        },
        Expr::MethodCall { expr, method, args, type_args, span } => Expr::MethodCall {
            expr: Box::new(dup_expr(&**expr)),
            method: method.clone(),
            args: dup_expr_seq(args),
            type_args: dup_type_seq(type_args),
            span: *span,
        },
        Expr::StructLit { struct_name, fields, span } => Expr::StructLit {
            struct_name: struct_name.clone(),
            fields: dup_string_expr_seq(fields),
            span: *span,
        },
        Expr::EnumLit { enum_name, variant, payload, span } => Expr::EnumLit {
            enum_name: enum_name.clone(),
            variant: variant.clone(),
            payload: match payload { Some(x) => Some(Box::new(dup_expr(&**x))), None => None },
            span: *span,
        },
        Expr::If { cond, then_block, else_ifs, else_block, span } => Expr::If {
            cond: Box::new(dup_expr(&**cond)),
            then_block: dup_block(then_block),
            else_ifs: dup_expr_block_seq(else_ifs),
            else_block: match else_block { Some(x) => Some(dup_block(x)), None => None },
            span: *span,
        },
        Expr::Loop { body, span } => Expr::Loop { body: dup_block(body), span: *span },
        Expr::While { cond, body, span } => Expr::While {
            cond: Box::new(dup_expr(&**cond)),
            body: dup_block(body),
            span: *span,
        },
        Expr::For { pattern, container, body, span } => Expr::For {
            pattern: dup_pattern(pattern),
            container: Box::new(dup_expr(&**container)),
            body: dup_block(body),
            span: *span,
        },
        Expr::Array(x0, x1) => Expr::Array(dup_expr_seq(x0), *x1),
        Expr::Repeat(x0, x1, x2) => Expr::Repeat(Box::new(dup_expr(&**x0)), *x1, *x2),
        Expr::Index { array, index, span } => Expr::Index {
            array: Box::new(dup_expr(&**array)),
            index: Box::new(dup_expr(&**index)),
            span: *span,
        },
        Expr::IfLet { pattern, scrutinee, then_block, else_block, span } => Expr::IfLet {
            pattern: dup_pattern(pattern),
            scrutinee: Box::new(dup_expr(&**scrutinee)),
            then_block: dup_block(then_block),
            else_block: match else_block { Some(x) => Some(dup_block(x)), None => None },
            span: *span,
        },
        Expr::Match { scrutinee, arms, span } => Expr::Match {
            scrutinee: Box::new(dup_expr(&**scrutinee)),
            arms: dup_match_arm_seq(arms),
            span: *span,
        },
        Expr::Block(x0, x1) => Expr::Block(dup_block(x0), *x1),
    }
}

impl Clone for Expr {
    fn clone(&self) -> (r: Expr)
        ensures
            r@ == self@,
    {
        dup_expr(self)
    }
}

/// A copy of `x`.
pub fn dup_struct_decl(x: &StructDecl) -> (r: StructDecl)
    ensures
        r@ == x@,
    decreases x,
{
    StructDecl {
        name: x.name.clone(),
        fields: dup_struct_field_seq(&x.fields),
        type_params: dup_generic_param_seq(&x.type_params),
        is_pub: x.is_pub,
        attribs: dup_attribute_seq(&x.attribs),
        span: x.span,
    }
}

impl Clone for StructDecl {
    fn clone(&self) -> (r: StructDecl)
        ensures
            r@ == self@,
    {
        dup_struct_decl(self)
    }
}

/// A copy of `x`.
pub fn dup_struct_field(x: &StructField) -> (r: StructField)
    ensures
        r@ == x@,
    decreases x,
{
    StructField {
        name: x.name.clone(),
        ty: dup_type(&x.ty),
        is_pub: x.is_pub,
        span: x.span,
    }
}

impl Clone for StructField {
    fn clone(&self) -> (r: StructField)
        ensures
            r@ == self@,
    {
        dup_struct_field(self)
    }
}

/// A copy of `x`.
pub fn dup_trait_const(x: &TraitConst) -> (r: TraitConst)
    ensures
        r@ == x@,
    decreases x,
{
    TraitConst {
        name: x.name.clone(),
        ty: dup_type(&x.ty),
        default_value: match &x.default_value { Some(x) => Some(dup_expr(x)), None => None },
        span: x.span,
    }
}

impl Clone for TraitConst {
    fn clone(&self) -> (r: TraitConst)
        ensures
            r@ == self@,
    {
        dup_trait_const(self)
    }
}

/// A copy of `x`.
pub fn dup_trait_decl(x: &TraitDecl) -> (r: TraitDecl)
    ensures
        r@ == x@,
    decreases x,
{
    TraitDecl {
        name: x.name.clone(),
        type_params: dup_generic_param_seq(&x.type_params),
        methods: dup_trait_method_def_seq(&x.methods),
        consts: dup_trait_const_seq(&x.consts),
        is_pub: x.is_pub,
        span: x.span,
    }
}

impl Clone for TraitDecl {
    fn clone(&self) -> (r: TraitDecl)
        ensures
            r@ == self@,
    {
        dup_trait_decl(self)
    }
}

/// A copy of `x`.
pub fn dup_trait_method_def(x: &TraitMethodDef) -> (r: TraitMethodDef)
    ensures
        r@ == x@,
    decreases x,
{
    TraitMethodDef {
        name: x.name.clone(),
        params: dup_param_seq(&x.params),
        return_type: match &x.return_type { Some(x) => Some(dup_type(x)), None => None },
        body: match &x.body { Some(x) => Some(dup_block(x)), None => None },
    }
}

impl Clone for TraitMethodDef {
    fn clone(&self) -> (r: TraitMethodDef)
        ensures
            r@ == self@,
    {
        dup_trait_method_def(self)
    }
}

/// A copy of `x`.
pub fn dup_type_alias_decl(x: &TypeAliasDecl) -> (r: TypeAliasDecl)
    ensures
        r@ == x@,
    decreases x,
{
    TypeAliasDecl {
        name: x.name.clone(),
        type_params: dup_generic_param_seq(&x.type_params),
        aliased_type: dup_type(&x.aliased_type),
        is_pub: x.is_pub,
        span: x.span,
    }
}

impl Clone for TypeAliasDecl {
    fn clone(&self) -> (r: TypeAliasDecl)
        ensures
            r@ == self@,
    {
        dup_type_alias_decl(self)
    }
}

/// A copy of `x`.
pub fn dup_enum_decl(x: &EnumDecl) -> (r: EnumDecl)
    ensures
        r@ == x@,
    decreases x,
{
    EnumDecl {
        name: x.name.clone(),
        variants: dup_enum_variant_seq(&x.variants),
        type_params: dup_generic_param_seq(&x.type_params),
        is_pub: x.is_pub,
        attribs: dup_attribute_seq(&x.attribs),
        span: x.span,
    }
}

impl Clone for EnumDecl {
    fn clone(&self) -> (r: EnumDecl)
        ensures
            r@ == self@,
    {
        dup_enum_decl(self)
    }
}

/// A copy of `x`.
pub fn dup_enum_variant(x: &EnumVariant) -> (r: EnumVariant)
    ensures
        r@ == x@,
    decreases x,
{
    EnumVariant {
        name: x.name.clone(),
        ty: match &x.ty { Some(x) => Some(dup_type(x)), None => None },
        span: x.span,
    }
}

impl Clone for EnumVariant {
    fn clone(&self) -> (r: EnumVariant)
        ensures
            r@ == self@,
    {
        dup_enum_variant(self)
    }
}

/// A copy of `x`.
pub fn dup_associated_const(x: &AssociatedConst) -> (r: AssociatedConst)
    ensures
        r@ == x@,
    decreases x,
{
    AssociatedConst {
        name: x.name.clone(),
        ty: dup_type(&x.ty),
        value: dup_expr(&x.value),
        is_pub: x.is_pub,
        span: x.span,
    }
}

impl Clone for AssociatedConst {
    fn clone(&self) -> (r: AssociatedConst)
        ensures
            r@ == self@,
    {
        dup_associated_const(self)
    }
}

/// A copy of `x`.
pub fn dup_impl_decl(x: &ImplDecl) -> (r: ImplDecl)
    ensures
        r@ == x@,
    decreases x,
{
    ImplDecl {
        impl_type: dup_type(&x.impl_type),
        trait_name: match &x.trait_name { Some(x) => Some(x.clone()), None => None },
        trait_args: dup_type_seq(&x.trait_args),
        type_params: dup_generic_param_seq(&x.type_params),
        const_params: dup_string_seq(&x.const_params),
        methods: dup_function_seq(&x.methods),
        consts: dup_associated_const_seq(&x.consts),
        span: x.span,
    }
}

impl Clone for ImplDecl {
    fn clone(&self) -> (r: ImplDecl)
        ensures
            r@ == self@,
    {
        dup_impl_decl(self)
    }
}

/// A copy of `x`.
pub fn dup_pattern(x: &Pattern) -> (r: Pattern)
    ensures
        r@ == x@,
    decreases x,
{
    match x {
        Pattern::Wildcard => Pattern::Wildcard,
        Pattern::Binding(x0) => Pattern::Binding(x0.clone()),
        Pattern::EnumVariant { enum_name, variant, payload } => Pattern::EnumVariant {
            enum_name: match enum_name { Some(x) => Some(x.clone()), None => None },
            variant: variant.clone(),
            payload: match payload { Some(x) => Some(Box::new(dup_pattern(&**x))), None => None },
        },
        Pattern::IntLit(x0) => Pattern::IntLit(*x0),
        Pattern::BoolLit(x0) => Pattern::BoolLit(*x0),
    }
}

impl Clone for Pattern {
    fn clone(&self) -> (r: Pattern)
        ensures
            r@ == self@,
    {
        dup_pattern(self)
    }
}

/// A copy of `x`.
pub fn dup_match_arm(x: &MatchArm) -> (r: MatchArm)
    ensures
        r@ == x@,
    decreases x,
{
    MatchArm {
        pattern: dup_pattern(&x.pattern),
        guard: match &x.guard { Some(x) => Some(Box::new(dup_expr(&**x))), None => None },
        body: dup_block(&x.body),
    }
}

impl Clone for MatchArm {
    fn clone(&self) -> (r: MatchArm)
        ensures
            r@ == self@,
    {
        dup_match_arm(self)
    }
}

/// A copy of `v`, element by element.
pub fn dup_string_seq(v: &Vec<String>) -> (r: Vec<String>)
    ensures
        string_seq_view(r@) == string_seq_view(v@),
    decreases v,
{
    let mut r: Vec<String> = Vec::new();
    let mut i: usize = 0;
    while i < v.len()
        invariant
            i <= v@.len(),
            r@.len() == i,
            forall|k: int| 0 <= k < i ==> string_seq_view(r@)[k] == string_seq_view(v@)[k],
        decreases v@.len() - i,
    {
        let c = v[i].clone();
        let ghost before = r@;
        r.push(c);
        proof {
            assert forall|k: int| 0 <= k < i + 1 implies string_seq_view(r@)[k] == string_seq_view(v@)[k] by {
                if k < i {
                    assert(string_seq_view(before)[k] == string_seq_view(v@)[k]);
                }
            }
        }
        i += 1;
    }
    proof {
        assert(string_seq_view(r@) =~= string_seq_view(v@));
    }
    r
}

/// A copy of `v`, element by element.
pub fn dup_use_seq(v: &Vec<Use>) -> (r: Vec<Use>)
    ensures
        use_seq_view(r@) == use_seq_view(v@),
    decreases v,
{
    let mut r: Vec<Use> = Vec::new();
    let mut i: usize = 0;
    while i < v.len()
        invariant
            i <= v@.len(),
            r@.len() == i,
            forall|k: int| 0 <= k < i ==> use_seq_view(r@)[k] == use_seq_view(v@)[k],
        decreases v@.len() - i,
    {
        let c = dup_use(&v[i]);
        let ghost before = r@;
        r.push(c);
        proof {
            assert forall|k: int| 0 <= k < i + 1 implies use_seq_view(r@)[k] == use_seq_view(v@)[k] by {
                if k < i {
                    assert(use_seq_view(before)[k] == use_seq_view(v@)[k]);
                }
            }
        }
        i += 1;
    }
    proof {
        assert(use_seq_view(r@) =~= use_seq_view(v@));
    }
    r
}

/// A copy of `v`, element by element.
pub fn dup_module_decl_seq(v: &Vec<ModuleDecl>) -> (r: Vec<ModuleDecl>)
    ensures
        module_decl_seq_view(r@) == module_decl_seq_view(v@),
    decreases v,
{
    let mut r: Vec<ModuleDecl> = Vec::new();
    let mut i: usize = 0;
    while i < v.len()
        invariant
            i <= v@.len(),
            r@.len() == i,
            forall|k: int| 0 <= k < i ==> module_decl_seq_view(r@)[k] == module_decl_seq_view(v@)[k],
        decreases v@.len() - i,
    {
        let c = dup_module_decl(&v[i]);
        let ghost before = r@;
        r.push(c);
        proof {
            assert forall|k: int| 0 <= k < i + 1 implies module_decl_seq_view(r@)[k] == module_decl_seq_view(v@)[k] by {
                if k < i {
                    assert(module_decl_seq_view(before)[k] == module_decl_seq_view(v@)[k]);
                }
            }
        }
        i += 1;
    }
    proof {
        assert(module_decl_seq_view(r@) =~= module_decl_seq_view(v@));
    }
    r
}

/// A copy of `v`, element by element.
pub fn dup_function_seq(v: &Vec<Function>) -> (r: Vec<Function>)
    ensures
        function_seq_view(r@) == function_seq_view(v@),
    decreases v,
{
    let mut r: Vec<Function> = Vec::new();
    let mut i: usize = 0;
    while i < v.len()
        invariant
            i <= v@.len(),
            r@.len() == i,
            forall|k: int| 0 <= k < i ==> function_seq_view(r@)[k] == function_seq_view(v@)[k],
        decreases v@.len() - i,
    {
        let c = dup_function(&v[i]);
        let ghost before = r@;
        r.push(c);
        proof {
            assert forall|k: int| 0 <= k < i + 1 implies function_seq_view(r@)[k] == function_seq_view(v@)[k] by {
                if k < i {
                    assert(function_seq_view(before)[k] == function_seq_view(v@)[k]);
                }
            }
        }
        i += 1;
    }
    proof {
        assert(function_seq_view(r@) =~= function_seq_view(v@));
    }
    r
}

/// A copy of `v`, element by element.
pub fn dup_struct_decl_seq(v: &Vec<StructDecl>) -> (r: Vec<StructDecl>)
    ensures
        struct_decl_seq_view(r@) == struct_decl_seq_view(v@),
    decreases v,
{
    let mut r: Vec<StructDecl> = Vec::new();
    let mut i: usize = 0;
    while i < v.len()
        invariant
            i <= v@.len(),
            r@.len() == i,
            forall|k: int| 0 <= k < i ==> struct_decl_seq_view(r@)[k] == struct_decl_seq_view(v@)[k],
        decreases v@.len() - i,
    {
        let c = dup_struct_decl(&v[i]);
        let ghost before = r@;
        r.push(c);
        proof {
            assert forall|k: int| 0 <= k < i + 1 implies struct_decl_seq_view(r@)[k] == struct_decl_seq_view(v@)[k] by {
                if k < i {
                    assert(struct_decl_seq_view(before)[k] == struct_decl_seq_view(v@)[k]);
                }
            }
        }
        i += 1;
    }
    proof {
        assert(struct_decl_seq_view(r@) =~= struct_decl_seq_view(v@));
    }
    r
}

/// A copy of `v`, element by element.
pub fn dup_enum_decl_seq(v: &Vec<EnumDecl>) -> (r: Vec<EnumDecl>)
    ensures
        enum_decl_seq_view(r@) == enum_decl_seq_view(v@),
    decreases v,
{
    let mut r: Vec<EnumDecl> = Vec::new();
    let mut i: usize = 0;
    while i < v.len()
        invariant
            i <= v@.len(),
            r@.len() == i,
            forall|k: int| 0 <= k < i ==> enum_decl_seq_view(r@)[k] == enum_decl_seq_view(v@)[k],
        decreases v@.len() - i,
    {
        let c = dup_enum_decl(&v[i]);
        let ghost before = r@;
        r.push(c);
        proof {
            assert forall|k: int| 0 <= k < i + 1 implies enum_decl_seq_view(r@)[k] == enum_decl_seq_view(v@)[k] by {
                if k < i {
                    assert(enum_decl_seq_view(before)[k] == enum_decl_seq_view(v@)[k]);
                }
            }
        }
        i += 1;
    }
    proof {
        assert(enum_decl_seq_view(r@) =~= enum_decl_seq_view(v@));
    }
    r
}

/// A copy of `v`, element by element.
pub fn dup_trait_decl_seq(v: &Vec<TraitDecl>) -> (r: Vec<TraitDecl>)
    ensures
        trait_decl_seq_view(r@) == trait_decl_seq_view(v@),
    decreases v,
{
    let mut r: Vec<TraitDecl> = Vec::new();
    let mut i: usize = 0;
    while i < v.len()
        invariant
            i <= v@.len(),
            r@.len() == i,
            forall|k: int| 0 <= k < i ==> trait_decl_seq_view(r@)[k] == trait_decl_seq_view(v@)[k],
        decreases v@.len() - i,
    {
        let c = dup_trait_decl(&v[i]);
        let ghost before = r@;
        r.push(c);
        proof {
            assert forall|k: int| 0 <= k < i + 1 implies trait_decl_seq_view(r@)[k] == trait_decl_seq_view(v@)[k] by {
                if k < i {
                    assert(trait_decl_seq_view(before)[k] == trait_decl_seq_view(v@)[k]);
                }
            }
        }
        i += 1;
    }
    proof {
        assert(trait_decl_seq_view(r@) =~= trait_decl_seq_view(v@));
    }
    r
}

/// A copy of `v`, element by element.
pub fn dup_impl_decl_seq(v: &Vec<ImplDecl>) -> (r: Vec<ImplDecl>)
    ensures
        impl_decl_seq_view(r@) == impl_decl_seq_view(v@),
    decreases v,
{
    let mut r: Vec<ImplDecl> = Vec::new();
    let mut i: usize = 0;
    while i < v.len()
        invariant
            i <= v@.len(),
            r@.len() == i,
            forall|k: int| 0 <= k < i ==> impl_decl_seq_view(r@)[k] == impl_decl_seq_view(v@)[k],
        decreases v@.len() - i,
    {
        let c = dup_impl_decl(&v[i]);
        let ghost before = r@;
        r.push(c);
        proof {
            assert forall|k: int| 0 <= k < i + 1 implies impl_decl_seq_view(r@)[k] == impl_decl_seq_view(v@)[k] by {
                if k < i {
                    assert(impl_decl_seq_view(before)[k] == impl_decl_seq_view(v@)[k]);
                }
            }
        }
        i += 1;
    }
    proof {
        assert(impl_decl_seq_view(r@) =~= impl_decl_seq_view(v@));
    }
    r
}

/// A copy of `v`, element by element.
pub fn dup_type_alias_decl_seq(v: &Vec<TypeAliasDecl>) -> (r: Vec<TypeAliasDecl>)
    ensures
        type_alias_decl_seq_view(r@) == type_alias_decl_seq_view(v@),
    decreases v,
{
    let mut r: Vec<TypeAliasDecl> = Vec::new();
    let mut i: usize = 0;
    while i < v.len()
        invariant
            i <= v@.len(),
            r@.len() == i,
            forall|k: int| 0 <= k < i ==> type_alias_decl_seq_view(r@)[k] == type_alias_decl_seq_view(v@)[k],
        decreases v@.len() - i,
    {
        let c = dup_type_alias_decl(&v[i]);
        let ghost before = r@;
        r.push(c);
        proof {
            assert forall|k: int| 0 <= k < i + 1 implies type_alias_decl_seq_view(r@)[k] == type_alias_decl_seq_view(v@)[k] by {
                if k < i {
                    assert(type_alias_decl_seq_view(before)[k] == type_alias_decl_seq_view(v@)[k]);
                }
            }
        }
        i += 1;
    }
    proof {
        assert(type_alias_decl_seq_view(r@) =~= type_alias_decl_seq_view(v@));
    }
    r
}

/// A copy of `v`, element by element.
pub fn dup_param_seq(v: &Vec<Param>) -> (r: Vec<Param>)
    ensures
        param_seq_view(r@) == param_seq_view(v@),
    decreases v,
{
    let mut r: Vec<Param> = Vec::new();
    let mut i: usize = 0;
    while i < v.len()
        invariant
            i <= v@.len(),
            r@.len() == i,
            forall|k: int| 0 <= k < i ==> param_seq_view(r@)[k] == param_seq_view(v@)[k],
        decreases v@.len() - i,
    {
        let c = dup_param(&v[i]);
        let ghost before = r@;
        r.push(c);
        proof {
            assert forall|k: int| 0 <= k < i + 1 implies param_seq_view(r@)[k] == param_seq_view(v@)[k] by {
                if k < i {
                    assert(param_seq_view(before)[k] == param_seq_view(v@)[k]);
                }
            }
        }
        i += 1;
    }
    proof {
        assert(param_seq_view(r@) =~= param_seq_view(v@));
    }
    r
}

/// A copy of `v`, element by element.
pub fn dup_generic_param_seq(v: &Vec<GenericParam>) -> (r: Vec<GenericParam>)
    ensures
        generic_param_seq_view(r@) == generic_param_seq_view(v@),
    decreases v,
{
    let mut r: Vec<GenericParam> = Vec::new();
    let mut i: usize = 0;
    while i < v.len()
        invariant
            i <= v@.len(),
            r@.len() == i,
            forall|k: int| 0 <= k < i ==> generic_param_seq_view(r@)[k] == generic_param_seq_view(v@)[k],
        decreases v@.len() - i,
    {
        let c = dup_generic_param(&v[i]);
        let ghost before = r@;
        r.push(c);
        proof {
            assert forall|k: int| 0 <= k < i + 1 implies generic_param_seq_view(r@)[k] == generic_param_seq_view(v@)[k] by {
                if k < i {
                    assert(generic_param_seq_view(before)[k] == generic_param_seq_view(v@)[k]);
                }
            }
        }
        i += 1;
    }
    proof {
        assert(generic_param_seq_view(r@) =~= generic_param_seq_view(v@));
    }
    r
}

/// A copy of `v`, element by element.
pub fn dup_attribute_seq(v: &Vec<Attribute>) -> (r: Vec<Attribute>)
    ensures
        attribute_seq_view(r@) == attribute_seq_view(v@),
    decreases v,
{
    let mut r: Vec<Attribute> = Vec::new();
    let mut i: usize = 0;
    while i < v.len()
        invariant
            i <= v@.len(),
            r@.len() == i,
            forall|k: int| 0 <= k < i ==> attribute_seq_view(r@)[k] == attribute_seq_view(v@)[k],
        decreases v@.len() - i,
    {
        let c = dup_attribute(&v[i]);
        let ghost before = r@;
        r.push(c);
        proof {
            assert forall|k: int| 0 <= k < i + 1 implies attribute_seq_view(r@)[k] == attribute_seq_view(v@)[k] by {
                if k < i {
                    assert(attribute_seq_view(before)[k] == attribute_seq_view(v@)[k]);
                }
            }
        }
        i += 1;
    }
    proof {
        assert(attribute_seq_view(r@) =~= attribute_seq_view(v@));
    }
    r
}

/// A copy of `v`, element by element.
pub fn dup_stmt_seq(v: &Vec<Stmt>) -> (r: Vec<Stmt>)
    ensures
        stmt_seq_view(r@) == stmt_seq_view(v@),
    decreases v,
{
    let mut r: Vec<Stmt> = Vec::new();
    let mut i: usize = 0;
    while i < v.len()
        invariant
            i <= v@.len(),
            r@.len() == i,
            forall|k: int| 0 <= k < i ==> stmt_seq_view(r@)[k] == stmt_seq_view(v@)[k],
        decreases v@.len() - i,
    {
        let c = dup_stmt(&v[i]);
        let ghost before = r@;
        r.push(c);
        proof {
            assert forall|k: int| 0 <= k < i + 1 implies stmt_seq_view(r@)[k] == stmt_seq_view(v@)[k] by {
                if k < i {
                    assert(stmt_seq_view(before)[k] == stmt_seq_view(v@)[k]);
                }
            }
        }
        i += 1;
    }
    proof {
        assert(stmt_seq_view(r@) =~= stmt_seq_view(v@));
    }
    r
}

/// A copy of `v`, element by element.
pub fn dup_type_seq(v: &Vec<Type>) -> (r: Vec<Type>)
    ensures
        type_seq_view(r@) == type_seq_view(v@),
    decreases v,
{
    let mut r: Vec<Type> = Vec::new();
    let mut i: usize = 0;
    while i < v.len()
        invariant
            i <= v@.len(),
            r@.len() == i,
            forall|k: int| 0 <= k < i ==> type_seq_view(r@)[k] == type_seq_view(v@)[k],
        decreases v@.len() - i,
    {
        let c = dup_type(&v[i]);
        let ghost before = r@;
        r.push(c);
        proof {
            assert forall|k: int| 0 <= k < i + 1 implies type_seq_view(r@)[k] == type_seq_view(v@)[k] by {
                if k < i {
                    assert(type_seq_view(before)[k] == type_seq_view(v@)[k]);
                }
            }
        }
        i += 1;
    }
    proof {
        assert(type_seq_view(r@) =~= type_seq_view(v@));
    }
    r
}

/// A copy of `v`, element by element.
pub fn dup_trait_bound_seq(v: &Vec<TraitBound>) -> (r: Vec<TraitBound>)
    ensures
        trait_bound_seq_view(r@) == trait_bound_seq_view(v@),
    decreases v,
{
    let mut r: Vec<TraitBound> = Vec::new();
    let mut i: usize = 0;
    while i < v.len()
        invariant
            i <= v@.len(),
            r@.len() == i,
            forall|k: int| 0 <= k < i ==> trait_bound_seq_view(r@)[k] == trait_bound_seq_view(v@)[k],
        decreases v@.len() - i,
    {
        let c = dup_trait_bound(&v[i]);
        let ghost before = r@;
        r.push(c);
        proof {
            assert forall|k: int| 0 <= k < i + 1 implies trait_bound_seq_view(r@)[k] == trait_bound_seq_view(v@)[k] by {
                if k < i {
                    assert(trait_bound_seq_view(before)[k] == trait_bound_seq_view(v@)[k]);
                }
            }
        }
        i += 1;
    }
    proof {
        assert(trait_bound_seq_view(r@) =~= trait_bound_seq_view(v@));
    }
    r
}

/// A copy of `v`, element by element.
pub fn dup_expr_seq(v: &Vec<Expr>) -> (r: Vec<Expr>)
    ensures
        expr_seq_view(r@) == expr_seq_view(v@),
    decreases v,
{
    let mut r: Vec<Expr> = Vec::new();
    let mut i: usize = 0;
    while i < v.len()
        invariant
            i <= v@.len(),
            r@.len() == i,
            forall|k: int| 0 <= k < i ==> expr_seq_view(r@)[k] == expr_seq_view(v@)[k],
        decreases v@.len() - i,
    {
        let c = dup_expr(&v[i]);
        let ghost before = r@;
        r.push(c);
        proof {
            assert forall|k: int| 0 <= k < i + 1 implies expr_seq_view(r@)[k] == expr_seq_view(v@)[k] by {
                if k < i {
                    assert(expr_seq_view(before)[k] == expr_seq_view(v@)[k]);
                }
            }
        }
        i += 1;
    }
    proof {
        assert(expr_seq_view(r@) =~= expr_seq_view(v@));
    }
    r
}

/// A copy of `v`, element by element.
pub fn dup_string_expr_seq(v: &Vec<(String, Expr)>) -> (r: Vec<(String, Expr)>)
    ensures
        string_expr_seq_view(r@) == string_expr_seq_view(v@),
    decreases v,
{
    let mut r: Vec<(String, Expr)> = Vec::new();
    let mut i: usize = 0;
    while i < v.len()
        invariant
            i <= v@.len(),
            r@.len() == i,
            forall|k: int| 0 <= k < i ==> string_expr_seq_view(r@)[k] == string_expr_seq_view(v@)[k],
        decreases v@.len() - i,
    {
        let c = (v[i].0.clone(), dup_expr(&v[i].1));
        let ghost before = r@;
        r.push(c);
        proof {
            assert forall|k: int| 0 <= k < i + 1 implies string_expr_seq_view(r@)[k] == string_expr_seq_view(v@)[k] by {
                if k < i {
                    assert(string_expr_seq_view(before)[k] == string_expr_seq_view(v@)[k]);
                }
            }
        }
        i += 1;
    }
    proof {
        assert(string_expr_seq_view(r@) =~= string_expr_seq_view(v@));
    }
    r
}

/// A copy of `v`, element by element.
pub fn dup_expr_block_seq(v: &Vec<(Expr, Block)>) -> (r: Vec<(Expr, Block)>)
    ensures
        expr_block_seq_view(r@) == expr_block_seq_view(v@),
    decreases v,
{
    let mut r: Vec<(Expr, Block)> = Vec::new();
    let mut i: usize = 0;
    while i < v.len()
        invariant
            i <= v@.len(),
            r@.len() == i,
            forall|k: int| 0 <= k < i ==> expr_block_seq_view(r@)[k] == expr_block_seq_view(v@)[k],
        decreases v@.len() - i,
    {
        let c = (dup_expr(&v[i].0), dup_block(&v[i].1));
        let ghost before = r@;
        r.push(c);
        proof {
            assert forall|k: int| 0 <= k < i + 1 implies expr_block_seq_view(r@)[k] == expr_block_seq_view(v@)[k] by {
                if k < i {
                    assert(expr_block_seq_view(before)[k] == expr_block_seq_view(v@)[k]);
                }
            }
        }
        i += 1;
    }
    proof {
        assert(expr_block_seq_view(r@) =~= expr_block_seq_view(v@));
    }
    r
}

/// A copy of `v`, element by element.
pub fn dup_match_arm_seq(v: &Vec<MatchArm>) -> (r: Vec<MatchArm>)
    ensures
        match_arm_seq_view(r@) == match_arm_seq_view(v@),
    decreases v,
{
    let mut r: Vec<MatchArm> = Vec::new();
    let mut i: usize = 0;
    while i < v.len()
        invariant
            i <= v@.len(),
            r@.len() == i,
            forall|k: int| 0 <= k < i ==> match_arm_seq_view(r@)[k] == match_arm_seq_view(v@)[k],
        decreases v@.len() - i,
    {
        let c = dup_match_arm(&v[i]);
        let ghost before = r@;
        r.push(c);
        proof {
            assert forall|k: int| 0 <= k < i + 1 implies match_arm_seq_view(r@)[k] == match_arm_seq_view(v@)[k] by {
                if k < i {
                    assert(match_arm_seq_view(before)[k] == match_arm_seq_view(v@)[k]);
                }
            }
        }
        i += 1;
    }
    proof {
        assert(match_arm_seq_view(r@) =~= match_arm_seq_view(v@));
    }
    r
}

/// A copy of `v`, element by element.
pub fn dup_struct_field_seq(v: &Vec<StructField>) -> (r: Vec<StructField>)
    ensures
        struct_field_seq_view(r@) == struct_field_seq_view(v@),
    decreases v,
{
    let mut r: Vec<StructField> = Vec::new();
    let mut i: usize = 0;
    while i < v.len()
        invariant
            i <= v@.len(),
            r@.len() == i,
            forall|k: int| 0 <= k < i ==> struct_field_seq_view(r@)[k] == struct_field_seq_view(v@)[k],
        decreases v@.len() - i,
    {
        let c = dup_struct_field(&v[i]);
        let ghost before = r@;
        r.push(c);
        proof {
            assert forall|k: int| 0 <= k < i + 1 implies struct_field_seq_view(r@)[k] == struct_field_seq_view(v@)[k] by {
                if k < i {
                    assert(struct_field_seq_view(before)[k] == struct_field_seq_view(v@)[k]);
                }
            }
        }
        i += 1;
    }
    proof {
        assert(struct_field_seq_view(r@) =~= struct_field_seq_view(v@));
    }
    r
}

/// A copy of `v`, element by element.
pub fn dup_trait_method_def_seq(v: &Vec<TraitMethodDef>) -> (r: Vec<TraitMethodDef>)
    ensures
        trait_method_def_seq_view(r@) == trait_method_def_seq_view(v@),
    decreases v,
{
    let mut r: Vec<TraitMethodDef> = Vec::new();
    let mut i: usize = 0;
    while i < v.len()
        invariant
            i <= v@.len(),
            r@.len() == i,
            forall|k: int| 0 <= k < i ==> trait_method_def_seq_view(r@)[k] == trait_method_def_seq_view(v@)[k],
        decreases v@.len() - i,
    {
        let c = dup_trait_method_def(&v[i]);
        let ghost before = r@;
        r.push(c);
        proof {
            assert forall|k: int| 0 <= k < i + 1 implies trait_method_def_seq_view(r@)[k] == trait_method_def_seq_view(v@)[k] by {
                if k < i {
                    assert(trait_method_def_seq_view(before)[k] == trait_method_def_seq_view(v@)[k]);
                }
            }
        }
        i += 1;
    }
    proof {
        assert(trait_method_def_seq_view(r@) =~= trait_method_def_seq_view(v@));
    }
    r
}

/// A copy of `v`, element by element.
pub fn dup_trait_const_seq(v: &Vec<TraitConst>) -> (r: Vec<TraitConst>)
    ensures
        trait_const_seq_view(r@) == trait_const_seq_view(v@),
    decreases v,
{
    let mut r: Vec<TraitConst> = Vec::new();
    let mut i: usize = 0;
    while i < v.len()
        invariant
            i <= v@.len(),
            r@.len() == i,
            forall|k: int| 0 <= k < i ==> trait_const_seq_view(r@)[k] == trait_const_seq_view(v@)[k],
        decreases v@.len() - i,
    {
        let c = dup_trait_const(&v[i]);
        let ghost before = r@;
        r.push(c);
        proof {
            assert forall|k: int| 0 <= k < i + 1 implies trait_const_seq_view(r@)[k] == trait_const_seq_view(v@)[k] by {
                if k < i {
                    assert(trait_const_seq_view(before)[k] == trait_const_seq_view(v@)[k]);
                }
            }
        }
        i += 1;
    }
    proof {
        assert(trait_const_seq_view(r@) =~= trait_const_seq_view(v@));
    }
    r
}

/// A copy of `v`, element by element.
pub fn dup_enum_variant_seq(v: &Vec<EnumVariant>) -> (r: Vec<EnumVariant>)
    ensures
        enum_variant_seq_view(r@) == enum_variant_seq_view(v@),
    decreases v,
{
    let mut r: Vec<EnumVariant> = Vec::new();
    let mut i: usize = 0;
    while i < v.len()
        invariant
            i <= v@.len(),
            r@.len() == i,
            forall|k: int| 0 <= k < i ==> enum_variant_seq_view(r@)[k] == enum_variant_seq_view(v@)[k],
        decreases v@.len() - i,
    {
        let c = dup_enum_variant(&v[i]);
        let ghost before = r@;
        r.push(c);
        proof {
            assert forall|k: int| 0 <= k < i + 1 implies enum_variant_seq_view(r@)[k] == enum_variant_seq_view(v@)[k] by {
                if k < i {
                    assert(enum_variant_seq_view(before)[k] == enum_variant_seq_view(v@)[k]);
                }
            }
        }
        i += 1;
    }
    proof {
        assert(enum_variant_seq_view(r@) =~= enum_variant_seq_view(v@));
    }
    r
}

/// A copy of `v`, element by element.
pub fn dup_associated_const_seq(v: &Vec<AssociatedConst>) -> (r: Vec<AssociatedConst>)
    ensures
        associated_const_seq_view(r@) == associated_const_seq_view(v@),
    decreases v,
{
    let mut r: Vec<AssociatedConst> = Vec::new();
    let mut i: usize = 0;
    while i < v.len()
        invariant
            i <= v@.len(),
            r@.len() == i,
            forall|k: int| 0 <= k < i ==> associated_const_seq_view(r@)[k] == associated_const_seq_view(v@)[k],
        decreases v@.len() - i,
    {
        let c = dup_associated_const(&v[i]);
        let ghost before = r@;
        r.push(c);
        proof {
            assert forall|k: int| 0 <= k < i + 1 implies associated_const_seq_view(r@)[k] == associated_const_seq_view(v@)[k] by {
                if k < i {
                    assert(associated_const_seq_view(before)[k] == associated_const_seq_view(v@)[k]);
                }
            }
        }
        i += 1;
    }
    proof {
        assert(associated_const_seq_view(r@) =~= associated_const_seq_view(v@));
    }
    r
}

} // verus!
