//! Building functions: instructions go to the end of the current block.
use crate::growth::{
    confined, confined_to, count_from, extended, fits, grown, keeps, settled, stays, typed_blocks, well_returned, within,
};
use crate::ir::{
    BinKind, CastKind, Cur, CurView, FloatConst, FloatConstView, FloatPred, Inst, InstView, IntPred,
    IrBlock, IrBlockView, LTy, LTyView, Operand, OperandView, Val, ValView, inst_seq_view,
    inst_view, ir_block_seq_view, l_ty_seq_view, l_ty_view, val_seq_view,
};
use crate::state::{CodeGen, OutView, State};
use crate::table::{Model, at};
use vstd::prelude::*;

verus! {

/// The state with another function under construction.
pub open spec fn with_cur(s: State, cur: CurView) -> State {
    State { out: OutView { cur, ..s.out }, ..s }
}

/// What the next instruction of the current block gives.
#[verifier::opaque]
pub open spec fn next_reg(s: State) -> OperandView {
    let cur = s.out.cur;
    if cur.at < cur.blocks.len() {
        OperandView::Reg(cur.at, cur.blocks[cur.at as int].insts.len() as usize)
    } else {
        OperandView::Undef
    }
}

/// The state with one more instruction in the current block.
#[verifier::opaque]
pub open spec fn emit(s: State, inst: InstView) -> State {
    let cur = s.out.cur;
    if cur.at < cur.blocks.len() {
        let b = cur.blocks[cur.at as int];
        with_cur(
            s,
            CurView {
                blocks: cur.blocks.update(
                    cur.at as int,
                    IrBlockView { insts: b.insts.push(inst), ..b },
                ),
                ..cur
            },
        )
    } else {
        s
    }
}

/// An instruction with a result of type `ty`.
#[verifier::opaque]
pub open spec fn emit_value(s: State, inst: InstView, ty: LTyView) -> (ValView, State) {
    (ValView { op: next_reg(s), ty }, emit(s, inst))
}

/// Whether an instruction ends a block.
pub open spec fn ends_block(inst: InstView) -> bool {
    match inst {
        InstView::Br(_) => true,
        InstView::CondBr(_, _, _) => true,
        InstView::Ret(_) => true,
        InstView::Unreachable => true,
        _ => false,
    }
}

/// Whether the current block has come to its end.
#[verifier::opaque]
pub open spec fn terminated(s: State) -> bool {
    let cur = s.out.cur;
    cur.at < cur.blocks.len() && cur.blocks[cur.at as int].insts.len() > 0 && ends_block(
        cur.blocks[cur.at as int].insts.last(),
    )
}

/// A new, empty block at the end of the function, by its index.
#[verifier::opaque]
pub open spec fn add_block(s: State, label: Seq<char>) -> (usize, State) {
    let cur = s.out.cur;
    (
        cur.blocks.len() as usize,
        with_cur(
            s,
            CurView {
                blocks: cur.blocks.push(IrBlockView { label, insts: Seq::empty() }),
                ..cur
            },
        ),
    )
}

/// Go on writing to the end of block `b`.
#[verifier::opaque]
pub open spec fn go_to(s: State, b: usize) -> State {
    with_cur(s, CurView { at: b, ..s.out.cur })
}

/// Room on the stack.
#[verifier::opaque]
pub open spec fn alloca(s: State, ty: LTyView) -> (ValView, State) {
    emit_value(s, InstView::Alloca(ty), LTyView::Ptr)
}

/// A value read from memory.
#[verifier::opaque]
pub open spec fn load(s: State, ty: LTyView, ptr: ValView) -> (ValView, State) {
    emit_value(s, InstView::Load(ty, ptr), ty)
}

/// A value written to memory.
#[verifier::opaque]
pub open spec fn store(s: State, value: ValView, ptr: ValView) -> State {
    emit(s, InstView::Store(value, ptr))
}

/// Room on the stack that holds `value`.
#[verifier::opaque]
pub open spec fn spill(s: State, ty: LTyView, value: ValView) -> (ValView, State) {
    let (p, s1) = alloca(s, ty);
    (p, store(s1, value, p))
}

/// An integer constant.
#[verifier::opaque]
pub open spec fn int_const(bits: u32, n: u64) -> ValView {
    ValView { op: OperandView::Int(n), ty: LTyView::Int(bits) }
}

/// A value that is not determined.
pub open spec fn undef(ty: LTyView) -> ValView {
    ValView { op: OperandView::Undef, ty }
}

/// The unit value.
#[verifier::opaque]
pub open spec fn unit_value() -> ValView {
    undef(LTyView::Struct(Seq::empty()))
}

/// The type of a pointer with a length.
#[verifier::opaque]
pub open spec fn fat_ptr() -> LTyView {
    LTyView::Struct(seq![LTyView::Ptr, LTyView::Int(64)])
}

/// The types of the fields of a struct type; none for other types and for a struct whose fields
/// are not known yet.
#[verifier::opaque]
pub open spec fn fields_of(s: State, ty: LTyView) -> Seq<LTyView> {
    match ty {
        LTyView::Struct(tys) => tys,
        LTyView::Named(name) => if s.out.struct_bodies.contains_key(name) {
            s.out.struct_bodies[name]
        } else {
            Seq::empty()
        },
        _ => Seq::empty(),
    }
}

/// A field of a struct value; `None` where there is no such field.
#[verifier::opaque]
pub open spec fn extract(s: State, v: ValView, i: u32) -> (Option<ValView>, State) {
    let tys = fields_of(s, v.ty);
    if i < tys.len() {
        let (r, s1) = emit_value(s, InstView::Extract(v, i), tys[i as int]);
        (Some(r), s1)
    } else {
        (None, s)
    }
}

/// A struct value with one field replaced; `None` where there is no such field.
#[verifier::opaque]
pub open spec fn insert(s: State, agg: ValView, v: ValView, i: u32) -> (Option<ValView>, State) {
    if i < fields_of(s, agg.ty).len() {
        let (r, s1) = emit_value(s, InstView::Insert(agg, v, i), agg.ty);
        (Some(r), s1)
    } else {
        (None, s)
    }
}

/// The address of a field; `None` where there is no such field.
#[verifier::opaque]
pub open spec fn field_ptr(s: State, ty: LTyView, p: ValView, i: u32) -> (Option<ValView>, State) {
    if i < fields_of(s, ty).len() {
        let (r, s1) = emit_value(s, InstView::FieldPtr(ty, p, i), LTyView::Ptr);
        (Some(r), s1)
    } else {
        (None, s)
    }
}

/// The address of an element.
#[verifier::opaque]
pub open spec fn elem_ptr(
    s: State,
    ty: LTyView,
    p: ValView,
    idx: Seq<ValView>,
) -> (ValView, State) {
    emit_value(s, InstView::ElemPtr(ty, p, idx), LTyView::Ptr)
}

/// A pointer with a length, from its two parts.
#[verifier::opaque]
pub open spec fn make_fat(s: State, p: ValView, len: ValView) -> (ValView, State) {
    let (a, s1) = emit_value(s, InstView::Insert(undef(fat_ptr()), p, 0), fat_ptr());
    emit_value(s1, InstView::Insert(a, len, 1), fat_ptr())
}

/// A call of a declared function. A call without a result gives zero.
#[verifier::opaque]
pub open spec fn call(s: State, name: Seq<char>, args: Seq<ValView>) -> (ValView, State) {
    let s1 = emit(s, InstView::Call(name, args));
    if s.out.decls.contains_key(name) {
        match s.out.decls[name].ret {
            Some(ty) => (ValView { op: next_reg(s), ty }, s1),
            None => (int_const(32, 0), s1),
        }
    } else {
        (int_const(32, 0), s1)
    }
}

/// A conversion to the type `ty`.
#[verifier::opaque]
pub open spec fn cast(s: State, kind: CastKind, v: ValView, ty: LTyView) -> (ValView, State) {
    emit_value(s, InstView::Cast(kind, v, ty), ty)
}

/// An operation on two operands of the same type.
#[verifier::opaque]
pub open spec fn binary(s: State, kind: BinKind, a: ValView, b: ValView) -> (ValView, State) {
    emit_value(s, InstView::Bin(kind, a, b), a.ty)
}

/// A test on two integers.
#[verifier::opaque]
pub open spec fn int_test(s: State, pred: IntPred, a: ValView, b: ValView) -> (ValView, State) {
    emit_value(s, InstView::IntTest(pred, a, b), LTyView::Int(1))
}

/// A test on two floats.
#[verifier::opaque]
pub open spec fn float_test(s: State, pred: FloatPred, a: ValView, b: ValView) -> (ValView, State) {
    emit_value(s, InstView::FloatTest(pred, a, b), LTyView::Int(1))
}

/// All bits inverted.
#[verifier::opaque]
pub open spec fn invert(s: State, v: ValView) -> (ValView, State) {
    emit_value(s, InstView::Not(v), v.ty)
}

/// Start the function `name` with its entry block.
#[verifier::opaque]
pub open spec fn begin(s: State, name: Seq<char>) -> State {
    with_cur(
        s,
        CurView {
            name,
            blocks: seq![IrBlockView { label: "entry"@, insts: Seq::empty() }],
            at: 0,
        },
    )
}

/// The function under construction is finished: the first body of a name counts.
#[verifier::opaque]
pub open spec fn finish(s: State) -> State {
    if s.out.bodies.contains_key(s.out.cur.name) {
        s
    } else {
        State {
            out: OutView {
                bodies: s.out.bodies.insert(s.out.cur.name, s.out.cur.blocks),
                ..s.out
            },
            ..s
        }
    }
}

/// A jump to `b`, unless the current block has come to its end.
#[verifier::opaque]
pub open spec fn jump(s: State, b: usize) -> State {
    if terminated(s) {
        s
    } else {
        emit(s, InstView::Br(b))
    }
}

/// An integer constant.
pub fn mk_int(bits: u32, n: u64) -> (r: Val)
    ensures
        r@ == int_const(bits, n),
{
    proof {
        reveal(int_const);
    }
    Val { op: Operand::Int(n), ty: LTy::Int(bits) }
}

/// A value that is not determined.
pub fn mk_undef(ty: &LTy) -> (r: Val)
    ensures
        r@ == undef(ty@),
{
    Val { op: Operand::Undef, ty: ty.clone() }
}

/// The type of a pointer with a length.
pub fn fat_ptr_type() -> (r: LTy)
    ensures
        r@ == fat_ptr(),
{
    proof {
        reveal(fat_ptr);
    }
    let mut v: Vec<LTy> = Vec::new();
    v.push(LTy::Ptr);
    v.push(LTy::Int(64));
    proof {
        assert(l_ty_seq_view(v@) =~= seq![LTyView::Ptr, LTyView::Int(64)]);
    }
    LTy::Struct(v)
}

/// The unit value.
pub fn mk_unit() -> (r: Val)
    ensures
        r@ == unit_value(),
{
    proof {
        reveal(unit_value);
    }
    let v: Vec<LTy> = Vec::new();
    proof {
        assert(l_ty_seq_view(v@) =~= Seq::empty());
    }
    Val { op: Operand::Undef, ty: LTy::Struct(v) }
}

/// A list of two values.
pub fn two(a: Val, b: Val) -> (r: Vec<Val>)
    ensures
        val_seq_view(r@) == seq![a@, b@],
{
    let mut v: Vec<Val> = Vec::new();
    v.push(a);
    v.push(b);
    proof {
        assert(val_seq_view(v@) =~= seq![a@, b@]);
    }
    v
}

/// A list of one value.
pub fn one(a: Val) -> (r: Vec<Val>)
    ensures
        val_seq_view(r@) == seq![a@],
{
    let mut v: Vec<Val> = Vec::new();
    v.push(a);
    proof {
        assert(val_seq_view(v@) =~= seq![a@]);
    }
    v
}

impl Cur {
    /// Appends an instruction to the current block.
    fn push(&mut self, inst: Inst)
        requires
            old(self).at < old(self).blocks@.len(),
        ensures
            final(self)@ == (CurView {
                blocks: old(self)@.blocks.update(
                    old(self).at as int,
                    IrBlockView {
                        insts: old(self)@.blocks[old(self).at as int].insts.push(inst@),
                        ..old(self)@.blocks[old(self).at as int]
                    },
                ),
                ..old(self)@
            }),
    {
        let at: usize = self.at;
        let ghost before = self.blocks@;
        let mut b = IrBlock { label: String::new(), insts: Vec::new() };
        std::mem::swap(&mut b, &mut self.blocks[at]);
        let ghost old_insts = b.insts@;
        b.insts.push(inst);
        proof {
            assert(inst_seq_view(b.insts@) =~= inst_seq_view(old_insts).push(inst@));
        }
        self.blocks[at] = b;
        proof {
            assert(ir_block_seq_view(self.blocks@) =~= ir_block_seq_view(before).update(
                at as int,
                b@,
            ));
        }
    }
}

impl CodeGen {
    /// Appends an instruction to the current block, and tells what it gives.
    pub fn emit(&mut self, inst: Inst) -> (r: Operand)
        requires
            fits(at(old(self)@.out.decls, old(self)@.out.cur.name), inst@),
        ensures
            r@ == next_reg(old(self)@),
            final(self)@ == emit(old(self)@, inst@),
            stays(old(self)@, final(self)@),
            settled(old(self)@, final(self)@),
            confined(old(self)@.out.cur, final(self)@.out.cur),
            final(self)@.env == old(self)@.env,
            final(self)@.fun == old(self)@.fun,
    {
        proof {
            broadcast use crate::growth::group_growth;

            count_from(old(self)@);
            reveal(extended);
            reveal(confined_to);
            reveal(grown);
            reveal(well_returned);
            reveal(typed_blocks);
            reveal(emit);
            reveal(next_reg);
        }
        let at: usize = self.out.cur.at;
        if at < self.out.cur.blocks.len() {
            let n: usize = self.out.cur.blocks[at].insts.len();
            self.out.cur.push(inst);
            Operand::Reg(at, n)
        } else {
            Operand::Undef
        }
    }

    /// Appends an instruction that gives a value of type `ty`.
    pub fn emit_value(&mut self, inst: Inst, ty: LTy) -> (r: Val)
        requires
            fits(at(old(self)@.out.decls, old(self)@.out.cur.name), inst@),
        ensures
            (r@, final(self)@) == emit_value(old(self)@, inst@, ty@),
            stays(old(self)@, final(self)@),
            settled(old(self)@, final(self)@),
            confined(old(self)@.out.cur, final(self)@.out.cur),
            final(self)@.env == old(self)@.env,
            final(self)@.fun == old(self)@.fun,
    {
        proof {
            broadcast use crate::growth::group_growth;

            count_from(old(self)@);
            reveal(emit_value);
        }
        let op = self.emit(inst);
        Val { op, ty }
    }

    /// Whether the current block has come to its end.
    pub fn is_terminated(&self) -> (r: bool)
        ensures
            r == terminated(self@),
    {
        proof {
            reveal(terminated);
        }
        let at: usize = self.out.cur.at;
        if at >= self.out.cur.blocks.len() {
            return false;
        }
        let insts = &self.out.cur.blocks[at].insts;
        let n: usize = insts.len();
        proof {
            let b = self.out.cur.blocks@[at as int];
            assert(self@.out.cur.blocks[at as int] == b@);
            assert(b@.insts == inst_seq_view(insts@));
        }
        if n == 0 {
            return false;
        }
        match &insts[n - 1] {
            Inst::Br(_) => true,
            Inst::CondBr(_, _, _) => true,
            Inst::Ret(_) => true,
            Inst::Unreachable => true,
            _ => false,
        }
    }

    /// Appends an empty block to the function.
    pub fn add_block(&mut self, label: &str) -> (r: usize)
        ensures
            (r, final(self)@) == add_block(old(self)@, label@),
            r == old(self)@.out.cur.blocks.len(),
            final(self)@.out.cur == (CurView {
                blocks: old(self)@.out.cur.blocks.push(
                    IrBlockView { label: label@, insts: Seq::empty() },
                ),
                ..old(self)@.out.cur
            }),
            stays(old(self)@, final(self)@),
            settled(old(self)@, final(self)@),
            confined(old(self)@.out.cur, final(self)@.out.cur),
            final(self)@.env == old(self)@.env,
            final(self)@.fun == old(self)@.fun,
    {
        proof {
            broadcast use crate::growth::group_growth;

            count_from(old(self)@);
            reveal(extended);
            reveal(confined_to);
            reveal(grown);
            reveal(well_returned);
            reveal(typed_blocks);
            reveal(add_block);
        }
        let n: usize = self.out.cur.blocks.len();
        let ghost before = self.out.cur.blocks@;
        let b = IrBlock { label: label.to_owned(), insts: Vec::new() };
        proof {
            assert(inst_seq_view(b.insts@) =~= Seq::empty());
        }
        self.out.cur.blocks.push(b);
        proof {
            assert(ir_block_seq_view(self.out.cur.blocks@) =~= ir_block_seq_view(before).push(b@));
        }
        n
    }

    /// Goes on writing to the end of block `b`.
    pub fn go_to(&mut self, b: usize)
        ensures
            final(self)@ == go_to(old(self)@, b),
            stays(old(self)@, final(self)@),
            settled(old(self)@, final(self)@),
            final(self)@.out.cur.blocks == old(self)@.out.cur.blocks,
            final(self)@.out.cur.at == b,
            final(self)@.env == old(self)@.env,
            final(self)@.fun == old(self)@.fun,
    {
        proof {
            broadcast use crate::growth::group_growth;

            count_from(old(self)@);
            reveal(extended);
            reveal(grown);
            reveal(well_returned);
            reveal(typed_blocks);
            reveal(go_to);
        }
        self.out.cur.at = b;
    }

    /// Room on the stack.
    pub fn alloca(&mut self, ty: &LTy) -> (r: Val)
        ensures
            (r@, final(self)@) == alloca(old(self)@, ty@),
            stays(old(self)@, final(self)@),
            settled(old(self)@, final(self)@),
            confined(old(self)@.out.cur, final(self)@.out.cur),
            final(self)@.env == old(self)@.env,
            final(self)@.fun == old(self)@.fun,
    {
        proof {
            broadcast use crate::growth::group_growth;

            count_from(old(self)@);
            reveal(alloca);
        }
        self.emit_value(Inst::Alloca(ty.clone()), LTy::Ptr)
    }

    /// Reads a value of type `ty`.
    pub fn load(&mut self, ty: &LTy, ptr: &Val) -> (r: Val)
        ensures
            (r@, final(self)@) == load(old(self)@, ty@, ptr@),
            stays(old(self)@, final(self)@),
            settled(old(self)@, final(self)@),
            confined(old(self)@.out.cur, final(self)@.out.cur),
            final(self)@.env == old(self)@.env,
            final(self)@.fun == old(self)@.fun,
    {
        proof {
            broadcast use crate::growth::group_growth;

            count_from(old(self)@);
            reveal(load);
        }
        self.emit_value(Inst::Load(ty.clone(), ptr.clone()), ty.clone())
    }

    /// Writes a value.
    pub fn store(&mut self, value: &Val, ptr: &Val)
        ensures
            final(self)@ == store(old(self)@, value@, ptr@),
            stays(old(self)@, final(self)@),
            settled(old(self)@, final(self)@),
            confined(old(self)@.out.cur, final(self)@.out.cur),
            final(self)@.env == old(self)@.env,
            final(self)@.fun == old(self)@.fun,
    {
        proof {
            broadcast use crate::growth::group_growth;

            count_from(old(self)@);
            reveal(store);
        }
        let _ = self.emit(Inst::Store(value.clone(), ptr.clone()));
    }

    /// Room on the stack that holds `value`.
    pub fn spill(&mut self, ty: &LTy, value: &Val) -> (r: Val)
        ensures
            (r@, final(self)@) == spill(old(self)@, ty@, value@),
            stays(old(self)@, final(self)@),
            settled(old(self)@, final(self)@),
            confined(old(self)@.out.cur, final(self)@.out.cur),
            final(self)@.env == old(self)@.env,
            final(self)@.fun == old(self)@.fun,
    {
        proof {
            broadcast use crate::growth::group_growth;

            count_from(old(self)@);
            reveal(spill);
        }
        let p = self.alloca(ty);
        self.store(value, &p);
        p
    }

    /// The types of the fields of a struct type.
    pub fn fields_of(&self, ty: &LTy) -> (r: Vec<LTy>)
        ensures
            l_ty_seq_view(r@) == fields_of(self@, ty@),
    {
        proof {
            reveal(fields_of);
        }
        match ty {
            LTy::Struct(tys) => crate::ir::dup_l_ty_seq(tys),
            LTy::Named(name) => match self.out.struct_bodies.get(name) {
                Some(tys) => {
                    proof {
                        assert(tys.model() =~= l_ty_seq_view(tys@));
                    }
                    crate::ir::dup_l_ty_seq(tys)
                },
                None => {
                    let v: Vec<LTy> = Vec::new();
                    proof {
                        assert(l_ty_seq_view(v@) =~= Seq::empty());
                    }
                    v
                },
            },
            _ => {
                let v: Vec<LTy> = Vec::new();
                proof {
                    assert(l_ty_seq_view(v@) =~= Seq::empty());
                }
                v
            },
        }
    }

    /// A field of a struct value.
    pub fn extract(&mut self, v: &Val, i: u32) -> (r: Option<Val>)
        ensures
            (r.model(), final(self)@) == extract(old(self)@, v@, i),
            stays(old(self)@, final(self)@),
            settled(old(self)@, final(self)@),
            confined(old(self)@.out.cur, final(self)@.out.cur),
            final(self)@.env == old(self)@.env,
            final(self)@.fun == old(self)@.fun,
    {
        proof {
            broadcast use crate::growth::group_growth;

            count_from(old(self)@);
            reveal(extract);
        }
        let tys = self.fields_of(&v.ty);
        if (i as usize) < tys.len() {
            let ty = tys[i as usize].clone();
            Some(self.emit_value(Inst::Extract(v.clone(), i), ty))
        } else {
            None
        }
    }

    /// A struct value with one field replaced.
    pub fn insert(&mut self, agg: &Val, v: &Val, i: u32) -> (r: Option<Val>)
        ensures
            (r.model(), final(self)@) == insert(old(self)@, agg@, v@, i),
            stays(old(self)@, final(self)@),
            settled(old(self)@, final(self)@),
            confined(old(self)@.out.cur, final(self)@.out.cur),
            final(self)@.env == old(self)@.env,
            final(self)@.fun == old(self)@.fun,
    {
        proof {
            broadcast use crate::growth::group_growth;

            count_from(old(self)@);
            reveal(insert);
        }
        let tys = self.fields_of(&agg.ty);
        if (i as usize) < tys.len() {
            Some(self.emit_value(Inst::Insert(agg.clone(), v.clone(), i), agg.ty.clone()))
        } else {
            None
        }
    }

    /// The address of a field.
    pub fn field_ptr(&mut self, ty: &LTy, p: &Val, i: u32) -> (r: Option<Val>)
        ensures
            (r.model(), final(self)@) == field_ptr(old(self)@, ty@, p@, i),
            stays(old(self)@, final(self)@),
            settled(old(self)@, final(self)@),
            confined(old(self)@.out.cur, final(self)@.out.cur),
            final(self)@.env == old(self)@.env,
            final(self)@.fun == old(self)@.fun,
    {
        proof {
            broadcast use crate::growth::group_growth;

            count_from(old(self)@);
            reveal(field_ptr);
        }
        let tys = self.fields_of(ty);
        if (i as usize) < tys.len() {
            Some(self.emit_value(Inst::FieldPtr(ty.clone(), p.clone(), i), LTy::Ptr))
        } else {
            None
        }
    }

    /// The address of an element.
    pub fn elem_ptr(&mut self, ty: &LTy, p: &Val, idx: Vec<Val>) -> (r: Val)
        ensures
            (r@, final(self)@) == elem_ptr(old(self)@, ty@, p@, val_seq_view(idx@)),
            stays(old(self)@, final(self)@),
            settled(old(self)@, final(self)@),
            confined(old(self)@.out.cur, final(self)@.out.cur),
            final(self)@.env == old(self)@.env,
            final(self)@.fun == old(self)@.fun,
    {
        proof {
            broadcast use crate::growth::group_growth;

            count_from(old(self)@);
            reveal(elem_ptr);
        }
        self.emit_value(Inst::ElemPtr(ty.clone(), p.clone(), idx), LTy::Ptr)
    }

    /// A pointer with a length, from its two parts.
    pub fn make_fat(&mut self, p: &Val, len: &Val) -> (r: Val)
        ensures
            (r@, final(self)@) == make_fat(old(self)@, p@, len@),
            stays(old(self)@, final(self)@),
            settled(old(self)@, final(self)@),
            confined(old(self)@.out.cur, final(self)@.out.cur),
            final(self)@.env == old(self)@.env,
            final(self)@.fun == old(self)@.fun,
    {
        proof {
            broadcast use crate::growth::group_growth;

            count_from(old(self)@);
            reveal(make_fat);
        }
        let ty = fat_ptr_type();
        let a = self.emit_value(Inst::Insert(mk_undef(&ty), p.clone(), 0), ty.clone());
        self.emit_value(Inst::Insert(a, len.clone(), 1), ty)
    }

    /// A call of a declared function.
    pub fn call(&mut self, name: &str, args: Vec<Val>) -> (r: Val)
        ensures
            (r@, final(self)@) == call(old(self)@, name@, val_seq_view(args@)),
            stays(old(self)@, final(self)@),
            settled(old(self)@, final(self)@),
            confined(old(self)@.out.cur, final(self)@.out.cur),
            final(self)@.env == old(self)@.env,
            final(self)@.fun == old(self)@.fun,
    {
        proof {
            broadcast use crate::growth::group_growth;

            count_from(old(self)@);
            reveal(call);
        }
        let ret: Option<LTy> = match self.out.decls.get(name) {
            Some(sig) => match &sig.ret {
                Some(ty) => Some(ty.clone()),
                None => None,
            },
            None => None,
        };
        let op = self.emit(Inst::Call(name.to_owned(), args));
        match ret {
            Some(ty) => Val { op, ty },
            None => mk_int(32, 0),
        }
    }

    /// A conversion to the type `ty`.
    pub fn cast(&mut self, kind: CastKind, v: &Val, ty: &LTy) -> (r: Val)
        ensures
            (r@, final(self)@) == cast(old(self)@, kind, v@, ty@),
            stays(old(self)@, final(self)@),
            settled(old(self)@, final(self)@),
            confined(old(self)@.out.cur, final(self)@.out.cur),
            final(self)@.env == old(self)@.env,
            final(self)@.fun == old(self)@.fun,
    {
        proof {
            broadcast use crate::growth::group_growth;

            count_from(old(self)@);
            reveal(cast);
        }
        self.emit_value(Inst::Cast(kind, v.clone(), ty.clone()), ty.clone())
    }

    /// An operation on two operands of the same type.
    pub fn binary(&mut self, kind: BinKind, a: &Val, b: &Val) -> (r: Val)
        ensures
            (r@, final(self)@) == binary(old(self)@, kind, a@, b@),
            stays(old(self)@, final(self)@),
            settled(old(self)@, final(self)@),
            confined(old(self)@.out.cur, final(self)@.out.cur),
            final(self)@.env == old(self)@.env,
            final(self)@.fun == old(self)@.fun,
    {
        proof {
            broadcast use crate::growth::group_growth;

            count_from(old(self)@);
            reveal(binary);
        }
        self.emit_value(Inst::Bin(kind, a.clone(), b.clone()), a.ty.clone())
    }

    /// A test on two integers.
    pub fn int_test(&mut self, pred: IntPred, a: &Val, b: &Val) -> (r: Val)
        ensures
            (r@, final(self)@) == int_test(old(self)@, pred, a@, b@),
            stays(old(self)@, final(self)@),
            settled(old(self)@, final(self)@),
            confined(old(self)@.out.cur, final(self)@.out.cur),
            final(self)@.env == old(self)@.env,
            final(self)@.fun == old(self)@.fun,
    {
        proof {
            broadcast use crate::growth::group_growth;

            count_from(old(self)@);
            reveal(int_test);
        }
        self.emit_value(Inst::IntTest(pred, a.clone(), b.clone()), LTy::Int(1))
    }

    /// A test on two floats.
    pub fn float_test(&mut self, pred: FloatPred, a: &Val, b: &Val) -> (r: Val)
        ensures
            (r@, final(self)@) == float_test(old(self)@, pred, a@, b@),
            stays(old(self)@, final(self)@),
            settled(old(self)@, final(self)@),
            confined(old(self)@.out.cur, final(self)@.out.cur),
            final(self)@.env == old(self)@.env,
            final(self)@.fun == old(self)@.fun,
    {
        proof {
            broadcast use crate::growth::group_growth;

            count_from(old(self)@);
            reveal(float_test);
        }
        self.emit_value(Inst::FloatTest(pred, a.clone(), b.clone()), LTy::Int(1))
    }

    /// All bits inverted.
    pub fn invert(&mut self, v: &Val) -> (r: Val)
        ensures
            (r@, final(self)@) == invert(old(self)@, v@),
            stays(old(self)@, final(self)@),
            settled(old(self)@, final(self)@),
            confined(old(self)@.out.cur, final(self)@.out.cur),
            final(self)@.env == old(self)@.env,
            final(self)@.fun == old(self)@.fun,
    {
        proof {
            broadcast use crate::growth::group_growth;

            count_from(old(self)@);
            reveal(invert);
        }
        self.emit_value(Inst::Not(v.clone()), v.ty.clone())
    }

    /// Starts the function `name` with its entry block.
    pub fn begin(&mut self, name: &str)
        ensures
            final(self)@ == begin(old(self)@, name@),
            keeps(old(self)@, final(self)@),
            final(self)@.out.cur.name == name@,
            final(self)@.env == old(self)@.env,
            final(self)@.fun == old(self)@.fun,
    {
        proof {
            broadcast use crate::growth::group_growth;

            count_from(old(self)@);
            reveal(grown);
            reveal(well_returned);
            reveal(typed_blocks);
            reveal(begin);
        }
        let mut blocks: Vec<IrBlock> = Vec::new();
        let b = IrBlock { label: "entry".to_owned(), insts: Vec::new() };
        proof {
            assert(inst_seq_view(b.insts@) =~= Seq::empty());
        }
        blocks.push(b);
        proof {
            assert(ir_block_seq_view(blocks@) =~= seq![b@]);
        }
        self.out.cur = Cur { name: name.to_owned(), blocks, at: 0 };
    }

    /// Finishes the function under construction.
    pub fn finish(&mut self)
        requires
            old(self)@.out.decls.contains_key(old(self)@.out.cur.name),
        ensures
            final(self)@ == finish(old(self)@),
            final(self)@.out.bodies.contains_key(old(self)@.out.cur.name),
            stays(old(self)@, final(self)@),
            settled(old(self)@, final(self)@),
            confined(old(self)@.out.cur, final(self)@.out.cur),
            final(self)@.env == old(self)@.env,
            final(self)@.fun == old(self)@.fun,
    {
        proof {
            broadcast use crate::growth::group_growth;

            count_from(old(self)@);
            reveal(grown);
            reveal(well_returned);
            reveal(typed_blocks);
            reveal(within);
            reveal(finish);
        }
        let name = self.out.cur.name.clone();
        if !self.out.bodies.contains_key(&name) {
            let blocks = crate::ir::dup_ir_block_seq(&self.out.cur.blocks);
            proof {
                assert(blocks.model() =~= ir_block_seq_view(blocks@));
            }
            self.out.bodies.insert(name, blocks);
        }
    }

    /// A jump to `b`, unless the current block has come to its end.
    pub fn jump(&mut self, b: usize)
        ensures
            final(self)@ == jump(old(self)@, b),
            stays(old(self)@, final(self)@),
            settled(old(self)@, final(self)@),
            confined(old(self)@.out.cur, final(self)@.out.cur),
            final(self)@.env == old(self)@.env,
            final(self)@.fun == old(self)@.fun,
    {
        proof {
            broadcast use crate::growth::group_growth;

            count_from(old(self)@);
            reveal(jump);
        }
        if !self.is_terminated() {
            let _ = self.emit(Inst::Br(b));
        }
    }
}

} // verus!
