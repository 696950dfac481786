//! The intermediate representation: machine types, values, instructions and functions.
use crate::ast::BinOp;
use crate::table::Model;
use crate::text::same;
use vstd::prelude::*;

verus! {

/// An operation on two operands.
#[derive(Debug, Clone, Copy, PartialEq, Eq, Structural)]
pub enum BinKind {
    Add,
    Sub,
    Mul,
    SignedDiv,
    UnsignedDiv,
    And,
    FloatAdd,
    FloatSub,
    FloatMul,
    FloatDiv,
}

/// A test on two integers, signed where it orders them.
#[derive(Debug, Clone, Copy, PartialEq, Eq, Structural)]
pub enum IntPred {
    Eq,
    Ne,
    Lt,
    Gt,
    Le,
    Ge,
    UnsignedLt,
    UnsignedGt,
}

/// A test on two floats that fails where one of them is not a number.
#[derive(Debug, Clone, Copy, PartialEq, Eq, Structural)]
pub enum FloatPred {
    Eq,
    Ne,
    Gt,
    Lt,
}

/// A conversion.
#[derive(Debug, Clone, Copy, PartialEq, Eq, Structural)]
pub enum CastKind {
    Trunc,
    ZeroExt,
    SignExt,
    FloatTrunc,
    FloatExt,
    SignedToFloat,
    UnsignedToFloat,
    FloatToSigned,
    FloatToUnsigned,
    PtrToInt,
    IntToPtr,
    Bit,
}

/// What is asked of the inliner.
#[derive(Debug, Clone, Copy, PartialEq, Eq, Structural)]
pub enum Inlining {
    Free,
    Always,
    Never,
}

/// A machine type.
#[derive(Debug)]
pub enum LTy {
    /// An integer of that many bits.
    Int(u32),
    /// A single precision float.
    F32,
    /// A double precision float.
    F64,
    /// A pointer.
    Ptr,
    /// A struct without a name.
    Struct(Vec<LTy>),
    /// A struct that is known by its name.
    Named(String),
    /// An array of that many elements.
    Array(Box<LTy>, u32),
}

/// A constant float, as the expression that gives it.
#[derive(Debug)]
pub enum FloatConst {
    /// A literal, as the digits it was written with.
    Lit(String),
    /// An integer as a float.
    FromInt(i64),
    /// A negated float.
    Neg(Box<FloatConst>),
    /// The result of an arithmetic operator.
    Bin(BinOp, Box<FloatConst>, Box<FloatConst>),
}

/// What an operand refers to.
#[derive(Debug)]
pub enum Operand {
    /// The result of an instruction, by its block and its place there.
    Reg(usize, usize),
    /// A parameter of the function.
    Arg(usize),
    /// An integer constant, by its bits.
    Int(u64),
    /// A float constant.
    Float(FloatConst),
    /// The null pointer.
    Null,
    /// A value that is not determined.
    Undef,
    /// The address of a string constant of the module.
    Str(usize),
    /// The size of a type in bytes.
    SizeOf(LTy),
}

/// A value with its machine type.
#[derive(Debug)]
pub struct Val {
    /// Where the value comes from.
    pub op: Operand,
    /// Its type.
    pub ty: LTy,
}

/// An instruction.
#[derive(Debug)]
pub enum Inst {
    /// Room for a value of that type on the stack.
    Alloca(LTy),
    /// Reads a value of that type.
    Load(LTy, Val),
    /// Writes the first operand to where the second one points.
    Store(Val, Val),
    /// The address of a field of a struct.
    FieldPtr(LTy, Val, u32),
    /// The address of an element, by indices into a type.
    ElemPtr(LTy, Val, Vec<Val>),
    /// An arithmetic or logical operation on two operands.
    Bin(BinKind, Val, Val),
    /// A test on two integers.
    IntTest(IntPred, Val, Val),
    /// A test on two floats.
    FloatTest(FloatPred, Val, Val),
    /// A conversion to another type.
    Cast(CastKind, Val, LTy),
    /// All bits inverted.
    Not(Val),
    /// An integer negated.
    Neg(Val),
    /// A float negated.
    FloatNeg(Val),
    /// A call of a function by its name.
    Call(String, Vec<Val>),
    /// A field of a struct value.
    Extract(Val, u32),
    /// A struct value with one field replaced.
    Insert(Val, Val, u32),
    /// A jump.
    Br(usize),
    /// A jump to the first block if the value is true, else to the second.
    CondBr(Val, usize, usize),
    /// The end of the function, with its result.
    Ret(Option<Val>),
    /// A place that is never reached.
    Unreachable,
}

/// A basic block.
#[derive(Debug)]
pub struct IrBlock {
    /// What the label of the block starts with.
    pub label: String,
    /// Its instructions.
    pub insts: Vec<Inst>,
}

/// The signature of a function.
#[derive(Debug)]
pub struct FnSig {
    /// The types of the parameters.
    pub params: Vec<LTy>,
    /// The type of the result, if there is one.
    pub ret: Option<LTy>,
    /// Whether more arguments may follow.
    pub variadic: bool,
    /// Whether the function never returns.
    pub noreturn: bool,
    /// What is asked of the inliner.
    pub inlining: Inlining,
}

/// The function under construction, and the block that is written to.
#[derive(Debug)]
pub struct Cur {
    /// The name of the function.
    pub name: String,
    /// Its blocks so far.
    pub blocks: Vec<IrBlock>,
    /// The index of the block that instructions go to.
    pub at: usize,
}

/// What a [`LTy`] is, over sequences.
pub enum LTyView {
    Int(u32),
    F32,
    F64,
    Ptr,
    Struct(Seq<LTyView>),
    Named(Seq<char>),
    Array(Box<LTyView>, u32),
}

impl View for LTy {
    type V = LTyView;

    open spec fn view(&self) -> LTyView {
        l_ty_view(*self)
    }
}

/// What a [`FloatConst`] is, over sequences.
pub enum FloatConstView {
    Lit(Seq<char>),
    FromInt(i64),
    Neg(Box<FloatConstView>),
    Bin(BinOp, Box<FloatConstView>, Box<FloatConstView>),
}

impl View for FloatConst {
    type V = FloatConstView;

    open spec fn view(&self) -> FloatConstView {
        float_const_view(*self)
    }
}

/// What a [`Operand`] is, over sequences.
pub enum OperandView {
    Reg(usize, usize),
    Arg(usize),
    Int(u64),
    Float(FloatConstView),
    Null,
    Undef,
    Str(usize),
    SizeOf(LTyView),
}

impl View for Operand {
    type V = OperandView;

    open spec fn view(&self) -> OperandView {
        operand_view(*self)
    }
}

/// What a [`Val`] is, over sequences.
pub struct ValView {
    pub op: OperandView,
    pub ty: LTyView,
}

impl View for Val {
    type V = ValView;

    open spec fn view(&self) -> ValView {
        val_view(*self)
    }
}

/// What a [`Inst`] is, over sequences.
pub enum InstView {
    Alloca(LTyView),
    Load(LTyView, ValView),
    Store(ValView, ValView),
    FieldPtr(LTyView, ValView, u32),
    ElemPtr(LTyView, ValView, Seq<ValView>),
    Bin(BinKind, ValView, ValView),
    IntTest(IntPred, ValView, ValView),
    FloatTest(FloatPred, ValView, ValView),
    Cast(CastKind, ValView, LTyView),
    Not(ValView),
    Neg(ValView),
    FloatNeg(ValView),
    Call(Seq<char>, Seq<ValView>),
    Extract(ValView, u32),
    Insert(ValView, ValView, u32),
    Br(usize),
    CondBr(ValView, usize, usize),
    Ret(Option<ValView>),
    Unreachable,
}

impl View for Inst {
    type V = InstView;

    open spec fn view(&self) -> InstView {
        inst_view(*self)
    }
}

/// What a [`IrBlock`] is, over sequences.
pub struct IrBlockView {
    pub label: Seq<char>,
    pub insts: Seq<InstView>,
}

impl View for IrBlock {
    type V = IrBlockView;

    open spec fn view(&self) -> IrBlockView {
        ir_block_view(*self)
    }
}

/// What a [`FnSig`] is, over sequences.
pub struct FnSigView {
    pub params: Seq<LTyView>,
    pub ret: Option<LTyView>,
    pub variadic: bool,
    pub noreturn: bool,
    pub inlining: Inlining,
}

impl View for FnSig {
    type V = FnSigView;

    open spec fn view(&self) -> FnSigView {
        fn_sig_view(*self)
    }
}

/// What a [`Cur`] is, over sequences.
pub struct CurView {
    pub name: Seq<char>,
    pub blocks: Seq<IrBlockView>,
    pub at: usize,
}

impl View for Cur {
    type V = CurView;

    open spec fn view(&self) -> CurView {
        cur_view(*self)
    }
}

pub open spec fn l_ty_view(x: LTy) -> LTyView
    decreases x,
{
    match x {
        LTy::Int(x0) => LTyView::Int(x0),
        LTy::F32 => LTyView::F32,
        LTy::F64 => LTyView::F64,
        LTy::Ptr => LTyView::Ptr,
        LTy::Struct(x0) => LTyView::Struct(l_ty_seq_view(x0@)),
        LTy::Named(x0) => LTyView::Named(x0@),
        LTy::Array(x0, x1) => LTyView::Array(Box::new(l_ty_view(*x0)), x1),
    }
}

pub open spec fn float_const_view(x: FloatConst) -> FloatConstView
    decreases x,
{
    match x {
        FloatConst::Lit(x0) => FloatConstView::Lit(x0@),
        FloatConst::FromInt(x0) => FloatConstView::FromInt(x0),
        FloatConst::Neg(x0) => FloatConstView::Neg(Box::new(float_const_view(*x0))),
        FloatConst::Bin(x0, x1, x2) => FloatConstView::Bin(
            x0,
            Box::new(float_const_view(*x1)),
            Box::new(float_const_view(*x2)),
        ),
    }
}

pub open spec fn operand_view(x: Operand) -> OperandView
    decreases x,
{
    match x {
        Operand::Reg(x0, x1) => OperandView::Reg(x0, x1),
        Operand::Arg(x0) => OperandView::Arg(x0),
        Operand::Int(x0) => OperandView::Int(x0),
        Operand::Float(x0) => OperandView::Float(float_const_view(x0)),
        Operand::Null => OperandView::Null,
        Operand::Undef => OperandView::Undef,
        Operand::Str(x0) => OperandView::Str(x0),
        Operand::SizeOf(x0) => OperandView::SizeOf(l_ty_view(x0)),
    }
}

pub open spec fn val_view(x: Val) -> ValView
    decreases x,
{
    ValView {
        op: operand_view(x.op),
        ty: l_ty_view(x.ty),
    }
}

pub open spec fn inst_view(x: Inst) -> InstView
    decreases x,
{
    match x {
        Inst::Alloca(x0) => InstView::Alloca(l_ty_view(x0)),
        Inst::Load(x0, x1) => InstView::Load(l_ty_view(x0), val_view(x1)),
        Inst::Store(x0, x1) => InstView::Store(val_view(x0), val_view(x1)),
        Inst::FieldPtr(x0, x1, x2) => InstView::FieldPtr(l_ty_view(x0), val_view(x1), x2),
        Inst::ElemPtr(x0, x1, x2) => InstView::ElemPtr(
            l_ty_view(x0),
            val_view(x1),
            val_seq_view(x2@),
        ),
        Inst::Bin(x0, x1, x2) => InstView::Bin(x0, val_view(x1), val_view(x2)),
        Inst::IntTest(x0, x1, x2) => InstView::IntTest(x0, val_view(x1), val_view(x2)),
        Inst::FloatTest(x0, x1, x2) => InstView::FloatTest(x0, val_view(x1), val_view(x2)),
        Inst::Cast(x0, x1, x2) => InstView::Cast(x0, val_view(x1), l_ty_view(x2)),
        Inst::Not(x0) => InstView::Not(val_view(x0)),
        Inst::Neg(x0) => InstView::Neg(val_view(x0)),
        Inst::FloatNeg(x0) => InstView::FloatNeg(val_view(x0)),
        Inst::Call(x0, x1) => InstView::Call(x0@, val_seq_view(x1@)),
        Inst::Extract(x0, x1) => InstView::Extract(val_view(x0), x1),
        Inst::Insert(x0, x1, x2) => InstView::Insert(val_view(x0), val_view(x1), x2),
        Inst::Br(x0) => InstView::Br(x0),
        Inst::CondBr(x0, x1, x2) => InstView::CondBr(val_view(x0), x1, x2),
        Inst::Ret(x0) => InstView::Ret(match x0 { Some(x) => Some(val_view(x)), None => None }),
        Inst::Unreachable => InstView::Unreachable,
    }
}

pub open spec fn ir_block_view(x: IrBlock) -> IrBlockView
    decreases x,
{
    IrBlockView {
        label: x.label@,
        insts: inst_seq_view(x.insts@),
    }
}

pub open spec fn fn_sig_view(x: FnSig) -> FnSigView
    decreases x,
{
    FnSigView {
        params: l_ty_seq_view(x.params@),
        ret: match x.ret { Some(x) => Some(l_ty_view(x)), None => None },
        variadic: x.variadic,
        noreturn: x.noreturn,
        inlining: x.inlining,
    }
}

pub open spec fn cur_view(x: Cur) -> CurView
    decreases x,
{
    CurView {
        name: x.name@,
        blocks: ir_block_seq_view(x.blocks@),
        at: x.at,
    }
}

pub open spec fn l_ty_seq_view(s: Seq<LTy>) -> Seq<LTyView>
    decreases s,
{
    Seq::new(
        s.len(),
        |i: int|
            if 0 <= i < s.len() {
                l_ty_view(s[i])
            } else {
                arbitrary()
            },
    )
}

pub open spec fn val_seq_view(s: Seq<Val>) -> Seq<ValView>
    decreases s,
{
    Seq::new(
        s.len(),
        |i: int|
            if 0 <= i < s.len() {
                val_view(s[i])
            } else {
                arbitrary()
            },
    )
}

pub open spec fn inst_seq_view(s: Seq<Inst>) -> Seq<InstView>
    decreases s,
{
    Seq::new(
        s.len(),
        |i: int|
            if 0 <= i < s.len() {
                inst_view(s[i])
            } else {
                arbitrary()
            },
    )
}

pub open spec fn ir_block_seq_view(s: Seq<IrBlock>) -> Seq<IrBlockView>
    decreases s,
{
    Seq::new(
        s.len(),
        |i: int|
            if 0 <= i < s.len() {
                ir_block_view(s[i])
            } else {
                arbitrary()
            },
    )
}

/// A copy of `x`.
pub fn dup_l_ty(x: &LTy) -> (r: LTy)
    ensures
        r@ == x@,
    decreases x,
{
    match x {
        LTy::Int(x0) => LTy::Int(*x0),
        LTy::F32 => LTy::F32,
        LTy::F64 => LTy::F64,
        LTy::Ptr => LTy::Ptr,
        LTy::Struct(x0) => LTy::Struct(dup_l_ty_seq(x0)),
        LTy::Named(x0) => LTy::Named(x0.clone()),
        LTy::Array(x0, x1) => LTy::Array(Box::new(dup_l_ty(&**x0)), *x1),
    }
}

impl Clone for LTy {
    fn clone(&self) -> (r: LTy)
        ensures
            r@ == self@,
    {
        dup_l_ty(self)
    }
}

/// A copy of `x`.
pub fn dup_float_const(x: &FloatConst) -> (r: FloatConst)
    ensures
        r@ == x@,
    decreases x,
{
    match x {
        FloatConst::Lit(x0) => FloatConst::Lit(x0.clone()),
        FloatConst::FromInt(x0) => FloatConst::FromInt(*x0),
        FloatConst::Neg(x0) => FloatConst::Neg(Box::new(dup_float_const(&**x0))),
        FloatConst::Bin(x0, x1, x2) => FloatConst::Bin(
            *x0,
            Box::new(dup_float_const(&**x1)),
            Box::new(dup_float_const(&**x2)),
        ),
    }
}

impl Clone for FloatConst {
    fn clone(&self) -> (r: FloatConst)
        ensures
            r@ == self@,
    {
        dup_float_const(self)
    }
}

/// A copy of `x`.
pub fn dup_operand(x: &Operand) -> (r: Operand)
    ensures
        r@ == x@,
    decreases x,
{
    match x {
        Operand::Reg(x0, x1) => Operand::Reg(*x0, *x1),
        Operand::Arg(x0) => Operand::Arg(*x0),
        Operand::Int(x0) => Operand::Int(*x0),
        Operand::Float(x0) => Operand::Float(dup_float_const(x0)),
        Operand::Null => Operand::Null,
        Operand::Undef => Operand::Undef,
        Operand::Str(x0) => Operand::Str(*x0),
        Operand::SizeOf(x0) => Operand::SizeOf(dup_l_ty(x0)),
    }
}

impl Clone for Operand {
    fn clone(&self) -> (r: Operand)
        ensures
            r@ == self@,
    {
        dup_operand(self)
    }
}

/// A copy of `x`.
pub fn dup_val(x: &Val) -> (r: Val)
    ensures
        r@ == x@,
    decreases x,
{
    Val {
        op: dup_operand(&x.op),
        ty: dup_l_ty(&x.ty),
    }
}

impl Clone for Val {
    fn clone(&self) -> (r: Val)
        ensures
            r@ == self@,
    {
        dup_val(self)
    }
}

/// A copy of `x`.
pub fn dup_inst(x: &Inst) -> (r: Inst)
    ensures
        r@ == x@,
    decreases x,
{
    match x {
        Inst::Alloca(x0) => Inst::Alloca(dup_l_ty(x0)),
        Inst::Load(x0, x1) => Inst::Load(dup_l_ty(x0), dup_val(x1)),
        Inst::Store(x0, x1) => Inst::Store(dup_val(x0), dup_val(x1)),
        Inst::FieldPtr(x0, x1, x2) => Inst::FieldPtr(dup_l_ty(x0), dup_val(x1), *x2),
        Inst::ElemPtr(x0, x1, x2) => Inst::ElemPtr(dup_l_ty(x0), dup_val(x1), dup_val_seq(x2)),
        Inst::Bin(x0, x1, x2) => Inst::Bin(*x0, dup_val(x1), dup_val(x2)),
        Inst::IntTest(x0, x1, x2) => Inst::IntTest(*x0, dup_val(x1), dup_val(x2)),
        Inst::FloatTest(x0, x1, x2) => Inst::FloatTest(*x0, dup_val(x1), dup_val(x2)),
        Inst::Cast(x0, x1, x2) => Inst::Cast(*x0, dup_val(x1), dup_l_ty(x2)),
        Inst::Not(x0) => Inst::Not(dup_val(x0)),
        Inst::Neg(x0) => Inst::Neg(dup_val(x0)),
        Inst::FloatNeg(x0) => Inst::FloatNeg(dup_val(x0)),
        Inst::Call(x0, x1) => Inst::Call(x0.clone(), dup_val_seq(x1)),
        Inst::Extract(x0, x1) => Inst::Extract(dup_val(x0), *x1),
        Inst::Insert(x0, x1, x2) => Inst::Insert(dup_val(x0), dup_val(x1), *x2),
        Inst::Br(x0) => Inst::Br(*x0),
        Inst::CondBr(x0, x1, x2) => Inst::CondBr(dup_val(x0), *x1, *x2),
        Inst::Ret(x0) => Inst::Ret(match x0 { Some(x) => Some(dup_val(x)), None => None }),
        Inst::Unreachable => Inst::Unreachable,
    }
}

impl Clone for Inst {
    fn clone(&self) -> (r: Inst)
        ensures
            r@ == self@,
    {
        dup_inst(self)
    }
}

/// A copy of `x`.
pub fn dup_ir_block(x: &IrBlock) -> (r: IrBlock)
    ensures
        r@ == x@,
    decreases x,
{
    IrBlock {
        label: x.label.clone(),
        insts: dup_inst_seq(&x.insts),
    }
}

impl Clone for IrBlock {
    fn clone(&self) -> (r: IrBlock)
        ensures
            r@ == self@,
    {
        dup_ir_block(self)
    }
}

/// A copy of `x`.
pub fn dup_fn_sig(x: &FnSig) -> (r: FnSig)
    ensures
        r@ == x@,
    decreases x,
{
    FnSig {
        params: dup_l_ty_seq(&x.params),
        ret: match &x.ret { Some(x) => Some(dup_l_ty(x)), None => None },
        variadic: x.variadic,
        noreturn: x.noreturn,
        inlining: x.inlining,
    }
}

impl Clone for FnSig {
    fn clone(&self) -> (r: FnSig)
        ensures
            r@ == self@,
    {
        dup_fn_sig(self)
    }
}

/// A copy of `x`.
pub fn dup_cur(x: &Cur) -> (r: Cur)
    ensures
        r@ == x@,
    decreases x,
{
    Cur {
        name: x.name.clone(),
        blocks: dup_ir_block_seq(&x.blocks),
        at: x.at,
    }
}

impl Clone for Cur {
    fn clone(&self) -> (r: Cur)
        ensures
            r@ == self@,
    {
        dup_cur(self)
    }
}

/// A copy of `v`, element by element.
pub fn dup_l_ty_seq(v: &Vec<LTy>) -> (r: Vec<LTy>)
    ensures
        l_ty_seq_view(r@) == l_ty_seq_view(v@),
    decreases v,
{
    let mut r: Vec<LTy> = Vec::new();
    let mut i: usize = 0;
    while i < v.len()
        invariant
            i <= v@.len(),
            r@.len() == i,
            forall|k: int| 0 <= k < i ==> l_ty_seq_view(r@)[k] == l_ty_seq_view(v@)[k],
        decreases v@.len() - i,
    {
        let c = dup_l_ty(&v[i]);
        let ghost before = r@;
        r.push(c);
        proof {
            assert forall|k: int| 0 <= k < i + 1 implies l_ty_seq_view(r@)[k] == l_ty_seq_view(v@)[k] by {
                if k < i {
                    assert(l_ty_seq_view(before)[k] == l_ty_seq_view(v@)[k]);
                }
            }
        }
        i += 1;
    }
    proof {
        assert(l_ty_seq_view(r@) =~= l_ty_seq_view(v@));
    }
    r
}

/// A copy of `v`, element by element.
pub fn dup_val_seq(v: &Vec<Val>) -> (r: Vec<Val>)
    ensures
        val_seq_view(r@) == val_seq_view(v@),
    decreases v,
{
    let mut r: Vec<Val> = Vec::new();
    let mut i: usize = 0;
    while i < v.len()
        invariant
            i <= v@.len(),
            r@.len() == i,
            forall|k: int| 0 <= k < i ==> val_seq_view(r@)[k] == val_seq_view(v@)[k],
        decreases v@.len() - i,
    {
        let c = dup_val(&v[i]);
        let ghost before = r@;
        r.push(c);
        proof {
            assert forall|k: int| 0 <= k < i + 1 implies val_seq_view(r@)[k] == val_seq_view(v@)[k] by {
                if k < i {
                    assert(val_seq_view(before)[k] == val_seq_view(v@)[k]);
                }
            }
        }
        i += 1;
    }
    proof {
        assert(val_seq_view(r@) =~= val_seq_view(v@));
    }
    r
}

/// A copy of `v`, element by element.
pub fn dup_inst_seq(v: &Vec<Inst>) -> (r: Vec<Inst>)
    ensures
        inst_seq_view(r@) == inst_seq_view(v@),
    decreases v,
{
    let mut r: Vec<Inst> = Vec::new();
    let mut i: usize = 0;
    while i < v.len()
        invariant
            i <= v@.len(),
            r@.len() == i,
            forall|k: int| 0 <= k < i ==> inst_seq_view(r@)[k] == inst_seq_view(v@)[k],
        decreases v@.len() - i,
    {
        let c = dup_inst(&v[i]);
        let ghost before = r@;
        r.push(c);
        proof {
            assert forall|k: int| 0 <= k < i + 1 implies inst_seq_view(r@)[k] == inst_seq_view(v@)[k] by {
                if k < i {
                    assert(inst_seq_view(before)[k] == inst_seq_view(v@)[k]);
                }
            }
        }
        i += 1;
    }
    proof {
        assert(inst_seq_view(r@) =~= inst_seq_view(v@));
    }
    r
}

/// A copy of `v`, element by element.
pub fn dup_ir_block_seq(v: &Vec<IrBlock>) -> (r: Vec<IrBlock>)
    ensures
        ir_block_seq_view(r@) == ir_block_seq_view(v@),
    decreases v,
{
    let mut r: Vec<IrBlock> = Vec::new();
    let mut i: usize = 0;
    while i < v.len()
        invariant
            i <= v@.len(),
            r@.len() == i,
            forall|k: int| 0 <= k < i ==> ir_block_seq_view(r@)[k] == ir_block_seq_view(v@)[k],
        decreases v@.len() - i,
    {
        let c = dup_ir_block(&v[i]);
        let ghost before = r@;
        r.push(c);
        proof {
            assert forall|k: int| 0 <= k < i + 1 implies ir_block_seq_view(r@)[k] == ir_block_seq_view(v@)[k] by {
                if k < i {
                    assert(ir_block_seq_view(before)[k] == ir_block_seq_view(v@)[k]);
                }
            }
        }
        i += 1;
    }
    proof {
        assert(ir_block_seq_view(r@) =~= ir_block_seq_view(v@));
    }
    r
}

impl Model for LTy {
    type M = LTyView;

    open spec fn model(&self) -> LTyView {
        self@
    }

    fn dup(&self) -> (r: Self) {
        self.clone()
    }
}

impl Model for FloatConst {
    type M = FloatConstView;

    open spec fn model(&self) -> FloatConstView {
        self@
    }

    fn dup(&self) -> (r: Self) {
        self.clone()
    }
}

impl Model for Operand {
    type M = OperandView;

    open spec fn model(&self) -> OperandView {
        self@
    }

    fn dup(&self) -> (r: Self) {
        self.clone()
    }
}

impl Model for Val {
    type M = ValView;

    open spec fn model(&self) -> ValView {
        self@
    }

    fn dup(&self) -> (r: Self) {
        self.clone()
    }
}

impl Model for Inst {
    type M = InstView;

    open spec fn model(&self) -> InstView {
        self@
    }

    fn dup(&self) -> (r: Self) {
        self.clone()
    }
}

impl Model for IrBlock {
    type M = IrBlockView;

    open spec fn model(&self) -> IrBlockView {
        self@
    }

    fn dup(&self) -> (r: Self) {
        self.clone()
    }
}

impl Model for FnSig {
    type M = FnSigView;

    open spec fn model(&self) -> FnSigView {
        self@
    }

    fn dup(&self) -> (r: Self) {
        self.clone()
    }
}

impl Model for Cur {
    type M = CurView;

    open spec fn model(&self) -> CurView {
        self@
    }

    fn dup(&self) -> (r: Self) {
        self.clone()
    }
}

/// Whether two machine types are the same.
pub fn same_lty(a: &LTy, b: &LTy) -> (r: bool)
    ensures
        r == (a@ == b@),
    decreases a,
{
    match (a, b) {
        (LTy::Int(m), LTy::Int(n)) => *m == *n,
        (LTy::F32, LTy::F32) => true,
        (LTy::F64, LTy::F64) => true,
        (LTy::Ptr, LTy::Ptr) => true,
        (LTy::Struct(x), LTy::Struct(y)) => same_ltys(x, y),
        (LTy::Named(x), LTy::Named(y)) => same(x, y),
        (LTy::Array(x, m), LTy::Array(y, n)) => *m == *n && same_lty(x, y),
        _ => false,
    }
}

fn same_ltys(a: &Vec<LTy>, b: &Vec<LTy>) -> (r: bool)
    ensures
        r == (l_ty_seq_view(a@) == l_ty_seq_view(b@)),
    decreases a,
{
    if a.len() != b.len() {
        proof {
            assert(l_ty_seq_view(a@).len() != l_ty_seq_view(b@).len());
        }
        return false;
    }
    let mut i: usize = 0;
    while i < a.len()
        invariant
            i <= a@.len() == b@.len(),
            forall|k: int| 0 <= k < i ==> l_ty_seq_view(a@)[k] == l_ty_seq_view(b@)[k],
        decreases a@.len() - i,
    {
        if !same_lty(&a[i], &b[i]) {
            proof {
                assert(l_ty_seq_view(a@)[i as int] != l_ty_seq_view(b@)[i as int]);
            }
            return false;
        }
        i += 1;
    }
    proof {
        assert(l_ty_seq_view(a@) =~= l_ty_seq_view(b@));
    }
    true
}

} // verus!
