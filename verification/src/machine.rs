//! What the built code does when it runs: a machine of words, cells and frames.
use crate::builder::ends_block;
use crate::ir::{
    BinKind, CastKind, FloatConstView, FloatPred, InstView, IntPred, IrBlockView, LTyView,
    OperandView, ValView,
};
use vstd::arithmetic::power2::pow2;
use vstd::prelude::*;

verus! {

/// A value at run time.
pub enum Word {
    /// The bits of an integer, read as a natural number.
    Bits(nat),
    /// A place in memory: a cell, and the way to a part of what it holds.
    Addr(nat, Seq<nat>),
    /// A struct or an array, by its parts.
    Parts(Map<nat, Word>),
    /// A float, by a number that stands for it.
    Real(int),
    /// A value that is not determined.
    Unknown,
}

/// What code runs on: what the functions that are called give, with the memory they leave behind,
/// and what is left to the hardware.
pub struct Machine {
    /// What a function gives for its arguments and the memory it finds.
    pub calls: spec_fn(Seq<char>, Seq<Word>, Seq<Word>) -> (Word, Seq<Word>),
    /// The sum of two floats.
    pub sum: spec_fn(int, int) -> int,
    /// The difference of two floats.
    pub difference: spec_fn(int, int) -> int,
    /// The product of two floats.
    pub product: spec_fn(int, int) -> int,
    /// The quotient of two floats.
    pub quotient: spec_fn(int, int) -> int,
    /// A float with the other sign.
    pub opposite: spec_fn(int) -> int,
    /// Whether two floats are equal numbers.
    pub equal: spec_fn(int, int) -> bool,
    /// Whether a float is less than another one.
    pub less: spec_fn(int, int) -> bool,
    /// The float of a type that is next to an integer.
    pub nearest: spec_fn(int, LTyView) -> int,
    /// A float in another float type.
    pub rounded: spec_fn(int, LTyView) -> int,
    /// The integer part of a float.
    pub whole: spec_fn(int) -> int,
    /// The float that a constant of a type is.
    pub constant: spec_fn(FloatConstView, LTyView) -> int,
    /// The number of a place in memory.
    pub number: spec_fn(Word) -> int,
    /// The place in memory with a number.
    pub place: spec_fn(int) -> Word,
    /// Where a string constant is.
    pub string: spec_fn(usize) -> Word,
    /// The size of a type in bytes.
    pub size: spec_fn(LTyView) -> nat,
}

/// What a running function knows: the results of its instructions, its arguments, and the memory.
pub struct Frame {
    pub regs: Map<(nat, nat), Word>,
    pub args: Seq<Word>,
    pub mem: Seq<Word>,
}

/// How many values an integer of `w` bits has.
#[verifier::opaque]
pub open spec fn range(w: u32) -> int {
    pow2(w as nat) as int
}

/// The bits of an integer in `w` bits.
pub open spec fn wrapped(n: int, w: u32) -> nat {
    (n % range(w)) as nat
}

/// The number that `w` bits are, where the highest one is the sign.
pub open spec fn as_signed(x: nat, w: u32) -> int {
    if 2 * x < range(w) {
        x as int
    } else {
        x - range(w)
    }
}

/// The quotient of two numbers, rounded towards zero.
pub open spec fn truncated(a: int, b: int) -> int {
    let q = if a < 0 {
        -a
    } else {
        a
    } / (if b < 0 {
        -b
    } else {
        b
    });
    if (a < 0) == (b < 0) {
        q
    } else {
        -q
    }
}

/// A truth value as a word.
pub open spec fn bit(b: bool) -> Word {
    Word::Bits(
        if b {
            1
        } else {
            0
        },
    )
}

/// A part of a struct or an array.
pub open spec fn part(w: Word, i: nat) -> Word {
    match w {
        Word::Parts(m) => if m.contains_key(i) {
            m[i]
        } else {
            Word::Unknown
        },
        _ => Word::Unknown,
    }
}

/// A struct or an array with another part.
pub open spec fn with_part(w: Word, i: nat, v: Word) -> Word {
    match w {
        Word::Parts(m) => Word::Parts(m.insert(i, v)),
        _ => Word::Parts(Map::empty().insert(i, v)),
    }
}

/// What a way leads to.
pub open spec fn part_at(w: Word, path: Seq<nat>) -> Word
    decreases path.len(),
{
    if path.len() == 0 {
        w
    } else {
        part_at(part(w, path[0]), path.drop_first())
    }
}

/// A word with another part where a way leads to.
pub open spec fn with_part_at(w: Word, path: Seq<nat>, v: Word) -> Word
    decreases path.len(),
{
    if path.len() == 0 {
        v
    } else {
        with_part(w, path[0], with_part_at(part(w, path[0]), path.drop_first(), v))
    }
}

/// What memory holds at a place.
pub open spec fn read(mem: Seq<Word>, p: Word) -> Word {
    match p {
        Word::Addr(c, path) => if c < mem.len() {
            part_at(mem[c as int], path)
        } else {
            Word::Unknown
        },
        _ => Word::Unknown,
    }
}

/// Memory with another word at a place.
pub open spec fn written(mem: Seq<Word>, p: Word, v: Word) -> Seq<Word> {
    match p {
        Word::Addr(c, path) => if c < mem.len() {
            mem.update(c as int, with_part_at(mem[c as int], path, v))
        } else {
            mem
        },
        _ => mem,
    }
}

/// The place of a part of what is at a place.
pub open spec fn part_place(p: Word, i: nat) -> Word {
    match p {
        Word::Addr(c, path) => Word::Addr(c, path.push(i)),
        _ => Word::Unknown,
    }
}

/// The width of an integer type.
pub open spec fn bits_of_type(ty: LTyView) -> u32 {
    match ty {
        LTyView::Int(w) => w,
        _ => 64,
    }
}

/// The word that an operand is.
pub open spec fn value(m: Machine, f: Frame, v: ValView) -> Word {
    match v.op {
        OperandView::Reg(b, i) => if f.regs.contains_key((b as nat, i as nat)) {
            f.regs[(b as nat, i as nat)]
        } else {
            Word::Unknown
        },
        OperandView::Arg(i) => if i < f.args.len() {
            f.args[i as int]
        } else {
            Word::Unknown
        },
        OperandView::Int(n) => Word::Bits(wrapped(n as int, bits_of_type(v.ty))),
        OperandView::Float(c) => Word::Real((m.constant)(c, v.ty)),
        OperandView::Null => (m.place)(0),
        OperandView::Undef => Word::Unknown,
        OperandView::Str(i) => (m.string)(i),
        OperandView::SizeOf(ty) => Word::Bits((m.size)(ty)),
    }
}

/// The words that operands are.
pub open spec fn values(m: Machine, f: Frame, vs: Seq<ValView>) -> Seq<Word> {
    Seq::new(vs.len(), |i: int| value(m, f, vs[i]))
}

/// What an operation on two integers of `w` bits gives.
pub open spec fn computed(kind: BinKind, x: nat, y: nat, w: u32) -> Word {
    match kind {
        BinKind::Add => Word::Bits(wrapped((x + y) as int, w)),
        BinKind::Sub => Word::Bits(wrapped(x - y, w)),
        BinKind::Mul => Word::Bits(wrapped((x * y) as int, w)),
        BinKind::SignedDiv => if y == 0 {
            Word::Unknown
        } else {
            Word::Bits(wrapped(truncated(as_signed(x, w), as_signed(y, w)), w))
        },
        BinKind::UnsignedDiv => if y == 0 {
            Word::Unknown
        } else {
            Word::Bits(x / y)
        },
        BinKind::And => Word::Bits(((x as u64) & (y as u64)) as nat),
        _ => Word::Unknown,
    }
}

/// What an operation on two floats gives.
pub open spec fn float_computed(m: Machine, kind: BinKind, x: int, y: int) -> Word {
    match kind {
        BinKind::FloatAdd => Word::Real((m.sum)(x, y)),
        BinKind::FloatSub => Word::Real((m.difference)(x, y)),
        BinKind::FloatMul => Word::Real((m.product)(x, y)),
        BinKind::FloatDiv => Word::Real((m.quotient)(x, y)),
        _ => Word::Unknown,
    }
}

/// Whether a test on two integers of `w` bits holds.
pub open spec fn int_holds(pred: IntPred, x: nat, y: nat, w: u32) -> bool {
    match pred {
        IntPred::Eq => x == y,
        IntPred::Ne => x != y,
        IntPred::Lt => as_signed(x, w) < as_signed(y, w),
        IntPred::Gt => as_signed(x, w) > as_signed(y, w),
        IntPred::Le => as_signed(x, w) <= as_signed(y, w),
        IntPred::Ge => as_signed(x, w) >= as_signed(y, w),
        IntPred::UnsignedLt => x < y,
        IntPred::UnsignedGt => x > y,
    }
}

/// Whether a test on two floats holds.
pub open spec fn float_holds(m: Machine, pred: FloatPred, x: int, y: int) -> bool {
    match pred {
        FloatPred::Eq => (m.equal)(x, y),
        FloatPred::Ne => (m.less)(x, y) || (m.less)(y, x),
        FloatPred::Gt => (m.less)(y, x),
        FloatPred::Lt => (m.less)(x, y),
    }
}

/// What a conversion gives.
pub open spec fn converted(m: Machine, kind: CastKind, v: Word, from: u32, ty: LTyView) -> Word {
    let to = bits_of_type(ty);
    match kind {
        CastKind::Trunc => match v {
            Word::Bits(x) => Word::Bits(wrapped(x as int, to)),
            _ => Word::Unknown,
        },
        CastKind::ZeroExt => match v {
            Word::Bits(x) => Word::Bits(x),
            _ => Word::Unknown,
        },
        CastKind::SignExt => match v {
            Word::Bits(x) => Word::Bits(wrapped(as_signed(x, from), to)),
            _ => Word::Unknown,
        },
        CastKind::FloatTrunc | CastKind::FloatExt => match v {
            Word::Real(x) => Word::Real((m.rounded)(x, ty)),
            _ => Word::Unknown,
        },
        CastKind::SignedToFloat => match v {
            Word::Bits(x) => Word::Real((m.nearest)(as_signed(x, from), ty)),
            _ => Word::Unknown,
        },
        CastKind::UnsignedToFloat => match v {
            Word::Bits(x) => Word::Real((m.nearest)(x as int, ty)),
            _ => Word::Unknown,
        },
        CastKind::FloatToSigned => match v {
            Word::Real(x) => if -range(to) <= 2 * (m.whole)(x) < range(to) {
                Word::Bits(wrapped((m.whole)(x), to))
            } else {
                Word::Unknown
            },
            _ => Word::Unknown,
        },
        CastKind::FloatToUnsigned => match v {
            Word::Real(x) => if 0 <= (m.whole)(x) < range(to) {
                Word::Bits((m.whole)(x) as nat)
            } else {
                Word::Unknown
            },
            _ => Word::Unknown,
        },
        CastKind::PtrToInt => Word::Bits(wrapped((m.number)(v), to)),
        CastKind::IntToPtr => match v {
            Word::Bits(x) => (m.place)(x as int),
            _ => Word::Unknown,
        },
        CastKind::Bit => v,
    }
}

/// What an instruction gives that does not end its block, where there is something.
pub open spec fn result(m: Machine, f: Frame, inst: InstView) -> Word {
    match inst {
        InstView::Alloca(_) => Word::Addr(f.mem.len(), Seq::empty()),
        InstView::Load(_, p) => read(f.mem, value(m, f, p)),
        InstView::FieldPtr(_, p, i) => part_place(value(m, f, p), i as nat),
        // A pointer to the elements of an array is the place of the array.
        InstView::ElemPtr(_, p, idx) => if idx.len() > 0 {
            match value(m, f, idx.last()) {
                Word::Bits(i) => part_place(value(m, f, p), i),
                _ => Word::Unknown,
            }
        } else {
            Word::Unknown
        },
        InstView::Bin(kind, a, b) => if kind is And && (value(m, f, a) == Word::Bits(0) || value(
            m,
            f,
            b,
        ) == Word::Bits(0)) {
            Word::Bits(0)
        } else {
            match (value(m, f, a), value(m, f, b)) {
                (Word::Bits(x), Word::Bits(y)) => computed(kind, x, y, bits_of_type(a.ty)),
                (Word::Real(x), Word::Real(y)) => float_computed(m, kind, x, y),
                _ => Word::Unknown,
            }
        },
        InstView::IntTest(pred, a, b) => match (value(m, f, a), value(m, f, b)) {
            (Word::Bits(x), Word::Bits(y)) => bit(int_holds(pred, x, y, bits_of_type(a.ty))),
            _ => Word::Unknown,
        },
        InstView::FloatTest(pred, a, b) => match (value(m, f, a), value(m, f, b)) {
            (Word::Real(x), Word::Real(y)) => bit(float_holds(m, pred, x, y)),
            _ => Word::Unknown,
        },
        InstView::Cast(kind, v, ty) => converted(m, kind, value(m, f, v), bits_of_type(v.ty), ty),
        InstView::Not(v) => match value(m, f, v) {
            Word::Bits(x) => Word::Bits(wrapped(-1 - x, bits_of_type(v.ty))),
            _ => Word::Unknown,
        },
        InstView::Neg(v) => match value(m, f, v) {
            Word::Bits(x) => Word::Bits(wrapped(-x, bits_of_type(v.ty))),
            _ => Word::Unknown,
        },
        InstView::FloatNeg(v) => match value(m, f, v) {
            Word::Real(x) => Word::Real((m.opposite)(x)),
            _ => Word::Unknown,
        },
        InstView::Call(name, args) => (m.calls)(name, values(m, f, args), f.mem).0,
        InstView::Extract(v, i) => part(value(m, f, v), i as nat),
        InstView::Insert(a, v, i) => with_part(value(m, f, a), i as nat, value(m, f, v)),
        _ => Word::Unknown,
    }
}

/// The memory behind an instruction.
pub open spec fn memory(m: Machine, f: Frame, inst: InstView) -> Seq<Word> {
    match inst {
        InstView::Alloca(_) => f.mem.push(Word::Unknown),
        InstView::Store(v, p) => written(f.mem, value(m, f, p), value(m, f, v)),
        InstView::Call(name, args) => (m.calls)(name, values(m, f, args), f.mem).1,
        _ => f.mem,
    }
}

/// The frame behind the instruction `i` of the block `b`.
pub open spec fn carried_out(m: Machine, f: Frame, inst: InstView, b: nat, i: nat) -> Frame {
    Frame {
        regs: f.regs.insert((b, i), result(m, f, inst)),
        args: f.args,
        mem: memory(m, f, inst),
    }
}

/// Where a running function is.
pub enum Spot {
    /// In front of an instruction of a block.
    At(nat, nat),
    /// At its end, with its result.
    Left(Option<Word>),
    /// Where nothing goes on.
    Stuck,
}

/// A running function at one moment.
pub struct Moment {
    pub spot: Spot,
    pub frame: Frame,
}

/// The start of a block.
pub open spec fn block_start(b: usize) -> Spot {
    Spot::At(b as nat, 0)
}

/// Where an instruction leads.
pub open spec fn next_spot(m: Machine, f: Frame, inst: InstView, b: nat, i: nat) -> Spot {
    match inst {
        InstView::Br(t) => block_start(t),
        InstView::CondBr(c, yes, no) => match value(m, f, c) {
            Word::Bits(x) => if x != 0 {
                block_start(yes)
            } else {
                block_start(no)
            },
            _ => Spot::Stuck,
        },
        InstView::Ret(Some(v)) => Spot::Left(Some(value(m, f, v))),
        InstView::Ret(None) => Spot::Left(None),
        InstView::Unreachable => Spot::Stuck,
        _ => Spot::At(b, i + 1),
    }
}

/// Whether a place holds an instruction.
pub open spec fn has_inst(blocks: Seq<IrBlockView>, b: nat, i: nat) -> bool {
    b < blocks.len() && i < blocks[b as int].insts.len()
}

/// The moment behind one instruction.
pub open spec fn step(m: Machine, blocks: Seq<IrBlockView>, c: Moment) -> Moment {
    match c.spot {
        Spot::At(b, i) => if has_inst(blocks, b, i) {
            let inst = blocks[b as int].insts[i as int];
            Moment {
                spot: next_spot(m, c.frame, inst, b, i),
                frame: if ends_block(inst) {
                    c.frame
                } else {
                    carried_out(m, c.frame, inst, b, i)
                },
            }
        } else {
            Moment { spot: Spot::Stuck, frame: c.frame }
        },
        _ => c,
    }
}

/// The moment behind `n` instructions.
pub open spec fn steps(m: Machine, blocks: Seq<IrBlockView>, c: Moment, n: nat) -> Moment
    decreases n,
{
    if n == 0 {
        c
    } else {
        steps(m, blocks, step(m, blocks, c), (n - 1) as nat)
    }
}

/// Whether running goes on from one moment to another one.
#[verifier::opaque]
pub open spec fn leads(m: Machine, blocks: Seq<IrBlockView>, c: Moment, d: Moment) -> bool {
    exists|n: nat| #[trigger] steps(m, blocks, c, n) == d
}

} // verus!
