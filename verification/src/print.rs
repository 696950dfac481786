//! What was compiled, in the language of LLVM.
use crate::ast::BinOp;
use crate::builder::fields_of;
use crate::ir::{
    BinKind, CastKind, FloatConst, FloatConstView, FloatPred, FnSig, FnSigView, Inlining, Inst,
    InstView, IntPred, IrBlock, IrBlockView, LTy, LTyView, Operand, OperandView, Val, ValView,
    inst_seq_view, inst_view, ir_block_seq_view, ir_block_view, l_ty_seq_view, l_ty_view,
    val_seq_view, val_view,
};
use crate::state::{CodeGen, State};
use crate::table::{Model, at};
use crate::text::{
    before, byte_size, bytes_in, cat, cat3, decimal_text, int_text, join, join_texts, show_i64,
    show_u64, show_usize, texts, to_chars,
};
use vstd::prelude::*;

verus! {

broadcast use crate::lists::group_list_views;

/// The name of the result of an instruction.
#[verifier::opaque]
pub open spec fn reg_text_spec(b: usize, i: usize) -> Seq<char> {
    ("%v"@ + decimal_text(b as nat) + "_"@ + decimal_text(i as nat))
}

/// The name of a function.
#[verifier::opaque]
pub open spec fn global_text_spec(name: Seq<char>) -> Seq<char> {
    ("@\""@ + escaped(name) + "\""@)
}

/// The type of a string constant, which ends with a zero byte.
#[verifier::opaque]
pub open spec fn string_type_spec(text: Seq<char>) -> Seq<char> {
    ("["@ + decimal_text(zero_ended(byte_size(text)) as nat) + " x i8]"@)
}

/// The address of a string constant.
#[verifier::opaque]
pub open spec fn string_ref(s: State, i: usize) -> Seq<char> {
    let texts_ = s.out.strings;
    if i < (texts_.len() as usize) {
        let t = string_type_spec(texts_[i as int]);
        (
            "getelementptr inbounds ("@ + t + ", "@ + t + "* @str."@ + decimal_text(i as nat) + ", i64 0, i64 0)"@
        )
    } else {
        "null"@
    }
}

/// An operand as LLVM writes it, without its type.
#[verifier::opaque]
pub open spec fn operand_text(s: State, v: ValView) -> Seq<char> {
    match v.op {
        OperandView::Reg(b, i) => reg_text_spec(b, i),
        OperandView::Arg(i) => ("%a"@ + decimal_text(i as nat)),
        OperandView::Int(n) => {
            match v.ty {
                LTyView::Int(w) => decimal_text(bits_in(n, w) as nat),
                _ => decimal_text(n as nat),
            }
        },
        OperandView::Float(f) => {
            if v.ty is F32 {
                ("fptrunc (double "@ + float_text(f) + " to float)"@)
            } else {
                float_text(f)
            }
        },
        OperandView::Null => "null"@,
        OperandView::Undef => "undef"@,
        OperandView::Str(i) => string_ref(s, i),
        OperandView::SizeOf(ty) => {
            let t = ty_text(ty);
            ("ptrtoint ("@ + t + "* getelementptr ("@ + t + ", "@ + t + "* null, i32 1) to i64)"@)
        },
    }
}

/// An operand as LLVM writes it, with its type.
#[verifier::opaque]
pub open spec fn value_text(s: State, v: ValView) -> Seq<char> {
    (ty_text(v.ty) + " "@ + operand_text(s, v))
}

/// Operands as LLVM writes them, with their types.
#[verifier::opaque]
pub open spec fn value_texts(s: State, vals: Seq<ValView>) -> Seq<Seq<char>> {
    Seq::new(vals.len(), |i: int| {
            let v = vals[i];
            value_text(s, v)
        })
}

/// The instruction of an operation on two operands.
#[verifier::opaque]
pub open spec fn bin_text_spec(kind: BinKind) -> Seq<char> {
    match kind {
        BinKind::Add => "add"@,
        BinKind::Sub => "sub"@,
        BinKind::Mul => "mul"@,
        BinKind::SignedDiv => "sdiv"@,
        BinKind::UnsignedDiv => "udiv"@,
        BinKind::And => "and"@,
        BinKind::FloatAdd => "fadd"@,
        BinKind::FloatSub => "fsub"@,
        BinKind::FloatMul => "fmul"@,
        BinKind::FloatDiv => "fdiv"@,
    }
}

/// The name of a test on integers.
#[verifier::opaque]
pub open spec fn int_test_text_spec(pred: IntPred) -> Seq<char> {
    match pred {
        IntPred::Eq => "eq"@,
        IntPred::Ne => "ne"@,
        IntPred::Lt => "slt"@,
        IntPred::Gt => "sgt"@,
        IntPred::Le => "sle"@,
        IntPred::Ge => "sge"@,
        IntPred::UnsignedLt => "ult"@,
        IntPred::UnsignedGt => "ugt"@,
    }
}

/// The name of a test on floats.
#[verifier::opaque]
pub open spec fn float_test_text_spec(pred: FloatPred) -> Seq<char> {
    match pred {
        FloatPred::Eq => "oeq"@,
        FloatPred::Ne => "one"@,
        FloatPred::Gt => "ogt"@,
        FloatPred::Lt => "olt"@,
    }
}

/// The instruction of a conversion.
#[verifier::opaque]
pub open spec fn cast_text_spec(kind: CastKind) -> Seq<char> {
    match kind {
        CastKind::Trunc => "trunc"@,
        CastKind::ZeroExt => "zext"@,
        CastKind::SignExt => "sext"@,
        CastKind::FloatTrunc => "fptrunc"@,
        CastKind::FloatExt => "fpext"@,
        CastKind::SignedToFloat => "sitofp"@,
        CastKind::UnsignedToFloat => "uitofp"@,
        CastKind::FloatToSigned => "fptosi"@,
        CastKind::FloatToUnsigned => "fptoui"@,
        CastKind::PtrToInt => "ptrtoint"@,
        CastKind::IntToPtr => "inttoptr"@,
        CastKind::Bit => "bitcast"@,
    }
}

/// The line that makes a pointer one to a type, under the name of a result with `.p` added.
#[verifier::opaque]
pub open spec fn typed_ptr(s: State, r: Seq<char>, ty: Seq<char>, p: ValView) -> Seq<char> {
    ("  "@ + r + ".p = bitcast "@ + value_text(s, p) + " to "@ + ty + "*\n"@)
}

/// The line that makes a pointer to a type, under the name of a result with `.q` added, one to
/// bytes.
#[verifier::opaque]
pub open spec fn byte_ptr_spec(r: Seq<char>, ty: Seq<char>) -> Seq<char> {
    ("  "@ + r + " = bitcast "@ + ty + "* "@ + r + ".q to i8*\n"@)
}

/// The type of a field as LLVM writes it.
#[verifier::opaque]
pub open spec fn field_text(s: State, ty: LTyView, i: u32) -> Seq<char> {
    let tys = fields_of(s, ty);
    let k = i as usize;
    if k < (tys.len() as usize) {
        ty_text(tys[k as int])
    } else {
        "i8"@
    }
}

/// The type that `n` indices into a type lead to, as LLVM writes it.
#[verifier::opaque]
pub open spec fn indexed_text_spec(ty: LTyView, n: usize) -> Seq<char> {
    match ty {
        LTyView::Array(elem, _) => {
            if n == 2 {
                ty_text(*elem)
            } else {
                ty_text(ty)
            }
        },
        _ => ty_text(ty),
    }
}

/// The type of a function that takes more arguments than its parameters.
#[verifier::opaque]
pub open spec fn signature_text_spec(f: FnSigView) -> Seq<char> {
    (
        return_text_spec(f) + " ("@
            + join(variadic_params_spec(ty_texts(f.params), f.variadic), ", "@) + ")"@
    )
}

/// The return type of a function as LLVM writes it.
#[verifier::opaque]
pub open spec fn return_text_spec(f: FnSigView) -> Seq<char> {
    match f.ret {
        Some(ty) => ty_text(ty),
        None => "void"@,
    }
}

/// Parameters, with dots where more arguments may follow.
#[verifier::opaque]
pub open spec fn variadic_params_spec(params: Seq<Seq<char>>, variadic: bool) -> Seq<Seq<char>> {
    let out = params;
    if variadic {
        out.push("..."@)
    } else {
        out
    }
}

/// A call as LLVM writes it.
#[verifier::opaque]
pub open spec fn call_text(
    s: State,
    r: Seq<char>,
    name: Seq<char>,
    args: Seq<ValView>,
) -> Seq<char> {
    match at(s.out.decls, name) {
        Some(f) => {
            let list = join(value_texts(s, args), ", "@);
            let callee = if f.variadic { signature_text_spec(f) } else { return_text_spec(f) };
            if f.ret is Some {
                (
                    "  "@ + r + " = call "@ + callee + " "@ + global_text_spec(name) + "("@ + list + ")\n"@
                )
            } else {
                ("  call "@ + callee + " "@ + global_text_spec(name) + "("@ + list + ")\n"@)
            }
        },
        None => {
            (
                "  call void "@ + global_text_spec(name) + "("@ + join(value_texts(s, args), ", "@)
                    + ")\n"@
            )
        },
    }
}

/// The label of a block: what it is called, and its number.
#[verifier::opaque]
pub open spec fn label_text_spec(blocks: Seq<IrBlockView>, b: usize) -> Seq<char> {
    if b < (blocks.len() as usize) {
        (blocks[b as int].label + "."@ + decimal_text(b as nat))
    } else {
        ("block."@ + decimal_text(b as nat))
    }
}

/// An instruction on memory as LLVM writes it.
#[verifier::opaque]
pub open spec fn memory_text(s: State, r: Seq<char>, inst: InstView) -> Seq<char> {
    match inst {
        InstView::Alloca(ty) => {
            let t = ty_text(ty);
            ("  "@ + r + ".q = alloca "@ + t + "\n"@ + byte_ptr_spec(r, t))
        },
        InstView::Load(ty, p) => {
            let t = ty_text(ty);
            (typed_ptr(s, r, t, p) + "  "@ + r + " = load "@ + t + ", "@ + t + "* "@ + r + ".p\n"@)
        },
        InstView::Store(v, p) => {
            let t = ty_text(v.ty);
            (
                typed_ptr(s, r, t, p) + "  store "@ + value_text(s, v) + ", "@ + t + "* "@ + r + ".p\n"@
            )
        },
        InstView::FieldPtr(ty, p, i) => {
            let t = ty_text(ty);
            (
                typed_ptr(s, r, t, p) + "  "@ + r + ".q = getelementptr inbounds "@ + t + ", "@ + t
                    + "* "@ + r + ".p, i32 0, i32 "@ + decimal_text((i as u64) as nat) + "\n"@
                    + byte_ptr_spec(r, field_text(s, ty, i))
            )
        },
        InstView::ElemPtr(ty, p, idx) => {
            let t = ty_text(ty);
            (
                typed_ptr(s, r, t, p) + "  "@ + r + ".q = getelementptr inbounds "@ + t + ", "@ + t
                    + "* "@ + r + ".p, "@ + join(value_texts(s, idx), ", "@) + "\n"@
                    + byte_ptr_spec(r, indexed_text_spec(ty, idx.len() as usize))
            )
        },
        _ => ""@,
    }
}

/// An instruction on values as LLVM writes it.
#[verifier::opaque]
pub open spec fn value_inst_text(s: State, r: Seq<char>, inst: InstView) -> Seq<char> {
    match inst {
        InstView::Bin(kind, a, b) => {
            (
                "  "@ + r + " = "@ + bin_text_spec(kind) + " "@ + value_text(s, a) + ", "@ + operand_text(s, b) + "\n"@
            )
        },
        InstView::IntTest(pred, a, b) => {
            (
                "  "@ + r + " = icmp "@ + int_test_text_spec(pred) + " "@ + value_text(s, a) + ", "@ + operand_text(s, b) + "\n"@
            )
        },
        InstView::FloatTest(pred, a, b) => {
            (
                "  "@ + r + " = fcmp "@ + float_test_text_spec(pred) + " "@ + value_text(s, a) + ", "@ + operand_text(s, b) + "\n"@
            )
        },
        InstView::Cast(kind, v, ty) => {
            (
                "  "@ + r + " = "@ + cast_text_spec(kind) + " "@ + value_text(s, v) + " to "@ + ty_text(ty) + "\n"@
            )
        },
        InstView::Not(v) => ("  "@ + r + " = xor "@ + value_text(s, v) + ", -1\n"@),
        InstView::Neg(v) => {
            ("  "@ + r + " = sub "@ + ty_text(v.ty) + " 0, "@ + operand_text(s, v) + "\n"@)
        },
        InstView::FloatNeg(v) => ("  "@ + r + " = fneg "@ + value_text(s, v) + "\n"@),
        InstView::Call(name, args) => call_text(s, r, name, args),
        InstView::Extract(v, i) => {
            (
                "  "@ + r + " = extractvalue "@ + value_text(s, v) + ", "@
                    + decimal_text((i as u64) as nat) + "\n"@
            )
        },
        InstView::Insert(a, v, i) => {
            (
                "  "@ + r + " = insertvalue "@ + value_text(s, a) + ", "@ + value_text(s, v) + ", "@
                    + decimal_text((i as u64) as nat) + "\n"@
            )
        },
        _ => ""@,
    }
}

/// A return as LLVM writes it.
#[verifier::opaque]
pub open spec fn return_value_text(s: State, v: Option<ValView>) -> Seq<char> {
    match v {
        Some(x) => ("  ret "@ + value_text(s, x) + "\n"@),
        None => "  ret void\n"@,
    }
}

/// An instruction that ends a block as LLVM writes it.
#[verifier::opaque]
pub open spec fn end_text(s: State, inst: InstView, blocks: Seq<IrBlockView>) -> Seq<char> {
    match inst {
        InstView::Br(b) => ("  br label %"@ + label_text_spec(blocks, b) + "\n"@),
        InstView::CondBr(c, yes, no) => {
            (
                "  br "@ + value_text(s, c) + ", label %"@ + label_text_spec(blocks, yes)
                    + ", label %"@ + label_text_spec(blocks, no) + "\n"@
            )
        },
        InstView::Ret(v) => return_value_text(s, v),
        InstView::Unreachable => "  unreachable\n"@,
        _ => ""@,
    }
}

/// An instruction as LLVM writes it.
#[verifier::opaque]
pub open spec fn inst_text(
    s: State,
    b: usize,
    i: usize,
    inst: InstView,
    blocks: Seq<IrBlockView>,
) -> Seq<char> {
    let r = reg_text_spec(b, i);
    (memory_text(s, r, inst) + value_inst_text(s, r, inst) + end_text(s, inst, blocks))
}

/// The instructions of a block as LLVM writes them.
#[verifier::opaque]
pub open spec fn insts_text(
    s: State,
    b: usize,
    insts: Seq<InstView>,
    blocks: Seq<IrBlockView>,
) -> Seq<char> {
    let text = ""@;
    insts_text_each(s, b, insts, blocks, text, 0)
}

/// [`insts_text`] from element `i` on.
#[verifier::opaque]
pub open spec fn insts_text_each(
    s: State,
    b: usize,
    insts: Seq<InstView>,
    blocks: Seq<IrBlockView>,
    text: Seq<char>,
    i: nat,
) -> Seq<char>
    decreases insts.len() - i,
{
    if i < insts.len() {
        let inst = insts[i as int];
        let text = text + inst_text(s, b, i as usize, inst, blocks);
        insts_text_each(s, b, insts, blocks, text, i + 1)
    } else {
        text
    }
}

/// Whether an instruction ends a block.
#[verifier::opaque]
pub open spec fn is_end_spec(inst: InstView) -> bool {
    (inst is Br || inst is CondBr || inst is Ret || inst is Unreachable)
}

/// Whether instructions come to an end.
#[verifier::opaque]
pub open spec fn ends_spec(insts: Seq<InstView>) -> bool {
    let n = insts.len() as usize;
    if n > 0 {
        is_end_spec(insts[((n - 1) as int)])
    } else {
        false
    }
}

/// A block as LLVM writes it. One that does not come to an end is never left.
#[verifier::opaque]
pub open spec fn block_text(
    s: State,
    b: usize,
    block: IrBlockView,
    blocks: Seq<IrBlockView>,
) -> Seq<char> {
    let body = label_text_spec(blocks, b) + ":\n"@ + insts_text(s, b, block.insts, blocks);
    if ends_spec(block.insts) {
        body
    } else {
        (body + "  unreachable\n"@)
    }
}

/// The blocks of a function as LLVM writes them.
#[verifier::opaque]
pub open spec fn blocks_text(s: State, blocks: Seq<IrBlockView>) -> Seq<char> {
    let text = ""@;
    blocks_text_each(s, blocks, text, 0)
}

/// [`blocks_text`] from element `b` on.
#[verifier::opaque]
pub open spec fn blocks_text_each(
    s: State,
    blocks: Seq<IrBlockView>,
    text: Seq<char>,
    b: nat,
) -> Seq<char>
    decreases blocks.len() - b,
{
    if b < blocks.len() {
        let block = blocks[b as int];
        let text = text + block_text(s, b as usize, block, blocks);
        blocks_text_each(s, blocks, text, b + 1)
    } else {
        text
    }
}

/// The parameters of a function with their names.
#[verifier::opaque]
pub open spec fn named_params_spec(tys: Seq<LTyView>) -> Seq<Seq<char>> {
    Seq::new(tys.len(), |i: int| {
            let t = tys[i];
            ty_text(t) + " %a"@ + decimal_text((i as usize) as nat)
        })
}

/// The attributes of a function as LLVM writes them.
#[verifier::opaque]
pub open spec fn attribute_text_spec(f: FnSigView) -> Seq<char> {
    let inline = if f.inlining == Inlining::Always {
        " alwaysinline"@
    } else {
        if f.inlining == Inlining::Never {
            " noinline"@
        } else {
            ""@
        }
    };
    if f.noreturn {
        (" noreturn"@ + inline)
    } else {
        inline
    }
}

/// A function as LLVM writes it: its declaration, or its code where it has some.
#[verifier::opaque]
pub open spec fn function_text(s: State, name: Seq<char>) -> Seq<char> {
    match at(s.out.decls, name) {
        Some(f) => {
            match at(s.out.bodies, name) {
                Some(blocks) => {
                    let params = join(
                        variadic_params_spec(named_params_spec(f.params), f.variadic),
                        ", "@,
                    );
                    (
                        "define "@ + return_text_spec(f) + " "@ + global_text_spec(name) + "("@ + params + ")"@ + attribute_text_spec(f) + " {\n"@ + blocks_text(s, blocks) + "}\n"@
                    )
                },
                None => {
                    let params = join(variadic_params_spec(ty_texts(f.params), f.variadic), ", "@);
                    (
                        "declare "@ + return_text_spec(f) + " "@ + global_text_spec(name) + "("@ + params + ")"@ + attribute_text_spec(f) + "\n"@
                    )
                },
            }
        },
        None => ""@,
    }
}

/// The functions in the order of their declaration.
#[verifier::opaque]
pub open spec fn functions_text(s: State) -> Seq<char> {
    let names = s.out.fn_order;
    let text = ""@;
    functions_text_each(s, names, text, 0)
}

/// [`functions_text`] from element `i` on.
#[verifier::opaque]
pub open spec fn functions_text_each(
    s: State,
    names: Seq<Seq<char>>,
    text: Seq<char>,
    i: nat,
) -> Seq<char>
    decreases names.len() - i,
{
    if i < names.len() {
        let n = names[i as int];
        let text = text + function_text(s, n);
        functions_text_each(s, names, text, i + 1)
    } else {
        text
    }
}

/// A named struct as LLVM writes it; its fields may not be known.
#[verifier::opaque]
pub open spec fn struct_text(s: State, name: Seq<char>) -> Seq<char> {
    let head = "%\""@ + escaped(name) + "\" = type "@;
    match at(s.out.struct_bodies, name) {
        Some(tys) => (head + "{ "@ + join(ty_texts(tys), ", "@) + " }\n"@),
        None => (head + "opaque\n"@),
    }
}

/// The named structs in the order of their declaration.
#[verifier::opaque]
pub open spec fn structs_text(s: State) -> Seq<char> {
    let names = s.out.type_order;
    let text = ""@;
    structs_text_each(s, names, text, 0)
}

/// [`structs_text`] from element `i` on.
#[verifier::opaque]
pub open spec fn structs_text_each(
    s: State,
    names: Seq<Seq<char>>,
    text: Seq<char>,
    i: nat,
) -> Seq<char>
    decreases names.len() - i,
{
    if i < names.len() {
        let n = names[i as int];
        let text = text + struct_text(s, n);
        structs_text_each(s, names, text, i + 1)
    } else {
        text
    }
}

/// The string constants as LLVM writes them.
#[verifier::opaque]
pub open spec fn strings_text(s: State) -> Seq<char> {
    let all = s.out.strings;
    let text = ""@;
    strings_text_each(s, all, text, 0)
}

/// [`strings_text`] from element `i` on.
#[verifier::opaque]
pub open spec fn strings_text_each(
    s: State,
    all: Seq<Seq<char>>,
    text: Seq<char>,
    i: nat,
) -> Seq<char>
    decreases all.len() - i,
{
    if i < all.len() {
        let x = all[i as int];
        let text = text + "@str."@ + decimal_text(
            (i as usize) as nat,
        ) + " = private unnamed_addr constant "@ + string_type_spec(x) + " c\""@ + text_bytes(x) + "\\00\"\n"@;
        strings_text_each(s, all, text, i + 1)
    } else {
        text
    }
}

/// What was compiled, in the language of LLVM.
#[verifier::opaque]
pub open spec fn module_text(s: State) -> Seq<char> {
    (structs_text(s) + strings_text(s) + functions_text(s))
}

/// The hexadecimal digit for a number below sixteen.
pub open spec fn hex_digit(n: u8) -> char {
    if n < 10 {
        (n + 48) as char
    } else {
        (n + 55) as char
    }
}

/// A byte as LLVM writes it in a quoted text.
pub open spec fn hex_byte(b: u8) -> Seq<char> {
    seq!['\\', hex_digit((b / 16) as u8), hex_digit((b % 16) as u8)]
}

/// Bytes as LLVM writes them in a quoted text.
pub open spec fn hex_bytes(bytes: Seq<u8>) -> Seq<char>
    decreases bytes.len(),
{
    if bytes.len() == 0 {
        Seq::empty()
    } else {
        hex_bytes(bytes.drop_last()) + hex_byte(bytes.last())
    }
}

/// A character as LLVM writes it in a quoted name: quotes and backslashes are escaped.
pub open spec fn name_char(c: char) -> Seq<char> {
    if c == '"' {
        "\\22"@
    } else if c == '\\' {
        "\\5C"@
    } else {
        seq![c]
    }
}

/// A name as LLVM writes it between quotes.
pub open spec fn escaped(name: Seq<char>) -> Seq<char>
    decreases name.len(),
{
    if name.len() == 0 {
        Seq::empty()
    } else {
        escaped(name.drop_last()) + name_char(name.last())
    }
}

/// A machine type as LLVM writes it. Pointers are pointers to bytes.
pub open spec fn ty_text(t: LTyView) -> Seq<char>
    decreases t,
{
    match t {
        LTyView::Int(w) => "i"@ + decimal_text(w as nat),
        LTyView::F32 => "float"@,
        LTyView::F64 => "double"@,
        LTyView::Ptr => "i8*"@,
        LTyView::Struct(tys) => "{ "@ + join(ty_texts(tys), ", "@) + " }"@,
        LTyView::Named(name) => "%\""@ + escaped(name) + "\""@,
        LTyView::Array(elem, n) => "["@ + decimal_text(n as nat) + " x "@ + ty_text(*elem) + "]"@,
    }
}

/// Machine types as LLVM writes them.
pub open spec fn ty_texts(tys: Seq<LTyView>) -> Seq<Seq<char>>
    decreases tys,
{
    Seq::new(
        tys.len(),
        |i: int|
            if 0 <= i < tys.len() {
                ty_text(tys[i])
            } else {
                arbitrary()
            },
    )
}

/// The instruction that carries out an arithmetic operator on floats.
pub open spec fn float_op(op: BinOp) -> Seq<char> {
    match op {
        BinOp::Add => "fadd"@,
        BinOp::Sub => "fsub"@,
        BinOp::Mul => "fmul"@,
        _ => "fdiv"@,
    }
}

/// A constant float as LLVM writes it, in double precision.
pub open spec fn float_text(f: FloatConstView) -> Seq<char>
    decreases f,
{
    match f {
        FloatConstView::Lit(digits) => digits,
        FloatConstView::FromInt(n) => "sitofp (i64 "@ + int_text(n as int) + " to double)"@,
        FloatConstView::Neg(x) => "fneg (double "@ + float_text(*x) + ")"@,
        FloatConstView::Bin(op, a, b) => float_op(op) + " (double "@ + float_text(*a) + ", double "@
            + float_text(*b) + ")"@,
    }
}

/// The bits of an integer of a width.
pub open spec fn bits_in(n: u64, w: u32) -> u64 {
    if w == 1 {
        n % 2
    } else if w == 8 {
        n % 256
    } else if w == 16 {
        n % 65536
    } else if w == 32 {
        n % 4294967296
    } else {
        n
    }
}

fn digit_of(n: u8) -> (r: char)
    requires
        n < 16,
    ensures
        r == hex_digit(n),
{
    if n < 10 {
        (n + 48) as char
    } else {
        (n + 55) as char
    }
}

/// The bytes of a text as LLVM writes them in a quoted text.
pub open spec fn text_bytes(text: Seq<char>) -> Seq<char> {
    hex_bytes(vstd::utf8::encode_utf8(text))
}

/// The bytes of a text as LLVM writes them in a quoted text.
pub fn show_bytes(text: &str) -> (r: String)
    ensures
        r@ == text_bytes(text@),
{
    let bytes = text.as_bytes();
    let ghost all = bytes@;
    let mut r = String::new();
    let mut i: usize = 0;
    proof {
        assert(all.take(0) =~= Seq::empty());
        assert(r@ =~= Seq::empty());
    }
    while i < bytes.len()
        invariant
            i <= bytes@.len(),
            all == bytes@,
            r@ == hex_bytes(all.take(i as int)),
        decreases bytes@.len() - i,
    {
        let b: u8 = bytes[i];
        let ghost before = r@;
        r.push('\\');
        r.push(digit_of(b / 16));
        r.push(digit_of(b % 16));
        proof {
            assert(all.take(i + 1).drop_last() =~= all.take(i as int));
            assert(r@ =~= before + hex_byte(b));
        }
        i += 1;
    }
    proof {
        assert(all.take(all.len() as int) =~= all);
    }
    r
}

/// A name as LLVM writes it between quotes.
pub fn escape(name: &str) -> (r: String)
    ensures
        r@ == escaped(name@),
{
    let chars = to_chars(name);
    let ghost all = chars@;
    let mut r = String::new();
    let mut i: usize = 0;
    proof {
        assert(all.take(0) =~= Seq::empty());
        assert(r@ =~= Seq::empty());
    }
    while i < chars.len()
        invariant
            i <= chars@.len(),
            all == chars@,
            r@ == escaped(all.take(i as int)),
        decreases chars@.len() - i,
    {
        let c: char = chars[i];
        let ghost before = r@;
        if c == '"' {
            r.append("\\22");
        } else if c == '\\' {
            r.append("\\5C");
        } else {
            r.push(c);
        }
        proof {
            assert(all.take(i + 1).drop_last() =~= all.take(i as int));
            assert(r@ =~= before + name_char(c));
        }
        i += 1;
    }
    proof {
        assert(all.take(all.len() as int) =~= all);
    }
    r
}

/// A machine type as LLVM writes it.
pub fn show_ty(t: &LTy) -> (r: String)
    ensures
        r@ == ty_text(t@),
    decreases t,
{
    match t {
        LTy::Int(w) => cat("i", &show_u64(*w as u64)),
        LTy::F32 => "float".to_owned(),
        LTy::F64 => "double".to_owned(),
        LTy::Ptr => "i8*".to_owned(),
        LTy::Struct(tys) => cat3("{ ", &join_texts(&show_tys(tys), ", "), " }"),
        LTy::Named(name) => cat3("%\"", &escape(name), "\""),
        LTy::Array(elem, n) => cat3(
            &cat3("[", &show_u64(*n as u64), " x "),
            &show_ty(elem),
            "]",
        ),
    }
}

/// Machine types as LLVM writes them.
pub fn show_tys(tys: &Vec<LTy>) -> (r: Vec<String>)
    ensures
        texts(r@) == ty_texts(l_ty_seq_view(tys@)),
    decreases tys,
{
    let mut r: Vec<String> = Vec::new();
    let mut i: usize = 0;
    while i < tys.len()
        invariant
            i <= tys@.len(),
            r@.len() == i,
            forall|k: int| 0 <= k < i ==> (#[trigger] r@[k])@ == ty_texts(l_ty_seq_view(tys@))[k],
        decreases tys@.len() - i,
    {
        proof {
            assert(l_ty_seq_view(tys@)[i as int] == l_ty_view(tys@[i as int]));
        }
        r.push(show_ty(&tys[i]));
        i += 1;
    }
    proof {
        assert(texts(r@) =~= ty_texts(l_ty_seq_view(tys@)));
    }
    r
}

fn show_float_op(op: BinOp) -> (r: &'static str)
    ensures
        r@ == float_op(op),
{
    match op {
        BinOp::Add => "fadd",
        BinOp::Sub => "fsub",
        BinOp::Mul => "fmul",
        _ => "fdiv",
    }
}

/// A constant float as LLVM writes it, in double precision.
pub fn show_float(f: &FloatConst) -> (r: String)
    ensures
        r@ == float_text(f@),
    decreases f,
{
    match f {
        FloatConst::Lit(digits) => digits.clone(),
        FloatConst::FromInt(n) => cat3("sitofp (i64 ", &show_i64(*n), " to double)"),
        FloatConst::Neg(x) => cat3("fneg (double ", &show_float(x), ")"),
        FloatConst::Bin(op, a, b) => cat(
            &cat3(
                &cat3(show_float_op(*op), " (double ", &show_float(a)),
                ", double ",
                &show_float(b),
            ),
            ")",
        ),
    }
}

/// The bits of an integer of a width.
pub fn low_bits(n: u64, w: u32) -> (r: u64)
    ensures
        r == bits_in(n, w),
{
    if w == 1 {
        n % 2
    } else if w == 8 {
        n % 256
    } else if w == 16 {
        n % 65536
    } else if w == 32 {
        n % 4294967296
    } else {
        n
    }
}

/// The size of a text of `n` bytes with a zero byte at its end.
pub open spec fn zero_ended(n: usize) -> u64 {
    (n as u64).wrapping_add(1)
}

/// The size of a text of `n` bytes with a zero byte at its end.
pub fn with_zero(n: usize) -> (r: u64)
    ensures
        r == zero_ended(n),
{
    (n as u64).wrapping_add(1)
}

/// The name of the result of an instruction.
pub fn reg_text(b: usize, i: usize) -> (r: String)
    ensures
        r@ == reg_text_spec(b, i),
{
    proof {
        reveal(reg_text_spec);
    }
    cat(&cat3("%v", &show_usize(b), "_"), &show_usize(i))
}

/// The name of a function.
pub fn global_text(name: &str) -> (r: String)
    ensures
        r@ == global_text_spec(name@),
{
    proof {
        reveal(global_text_spec);
    }
    cat3("@\"", &escape(name), "\"")
}

/// The type of a string constant, which ends with a zero byte.
pub fn string_type(text: &str) -> (r: String)
    ensures
        r@ == string_type_spec(text@),
{
    proof {
        reveal(string_type_spec);
    }
    cat3("[", &show_u64(with_zero(bytes_in(text))), " x i8]")
}

/// The instruction of an operation on two operands.
pub fn bin_text(kind: BinKind) -> (r: String)
    ensures
        r@ == bin_text_spec(kind),
{
    proof {
        reveal(bin_text_spec);
    }
    match &kind {
        BinKind::Add => {
            return "add".to_owned();
        },
        BinKind::Sub => {
            return "sub".to_owned();
        },
        BinKind::Mul => {
            return "mul".to_owned();
        },
        BinKind::SignedDiv => {
            return "sdiv".to_owned();
        },
        BinKind::UnsignedDiv => {
            return "udiv".to_owned();
        },
        BinKind::And => {
            return "and".to_owned();
        },
        BinKind::FloatAdd => {
            return "fadd".to_owned();
        },
        BinKind::FloatSub => {
            return "fsub".to_owned();
        },
        BinKind::FloatMul => {
            return "fmul".to_owned();
        },
        BinKind::FloatDiv => {
            return "fdiv".to_owned();
        },
    }
}

/// The name of a test on integers.
pub fn int_test_text(pred: IntPred) -> (r: String)
    ensures
        r@ == int_test_text_spec(pred),
{
    proof {
        reveal(int_test_text_spec);
    }
    match &pred {
        IntPred::Eq => {
            return "eq".to_owned();
        },
        IntPred::Ne => {
            return "ne".to_owned();
        },
        IntPred::Lt => {
            return "slt".to_owned();
        },
        IntPred::Gt => {
            return "sgt".to_owned();
        },
        IntPred::Le => {
            return "sle".to_owned();
        },
        IntPred::Ge => {
            return "sge".to_owned();
        },
        IntPred::UnsignedLt => {
            return "ult".to_owned();
        },
        IntPred::UnsignedGt => {
            return "ugt".to_owned();
        },
    }
}

/// The name of a test on floats.
pub fn float_test_text(pred: FloatPred) -> (r: String)
    ensures
        r@ == float_test_text_spec(pred),
{
    proof {
        reveal(float_test_text_spec);
    }
    match &pred {
        FloatPred::Eq => {
            return "oeq".to_owned();
        },
        FloatPred::Ne => {
            return "one".to_owned();
        },
        FloatPred::Gt => {
            return "ogt".to_owned();
        },
        FloatPred::Lt => {
            return "olt".to_owned();
        },
    }
}

/// The instruction of a conversion.
pub fn cast_text(kind: CastKind) -> (r: String)
    ensures
        r@ == cast_text_spec(kind),
{
    proof {
        reveal(cast_text_spec);
    }
    match &kind {
        CastKind::Trunc => {
            return "trunc".to_owned();
        },
        CastKind::ZeroExt => {
            return "zext".to_owned();
        },
        CastKind::SignExt => {
            return "sext".to_owned();
        },
        CastKind::FloatTrunc => {
            return "fptrunc".to_owned();
        },
        CastKind::FloatExt => {
            return "fpext".to_owned();
        },
        CastKind::SignedToFloat => {
            return "sitofp".to_owned();
        },
        CastKind::UnsignedToFloat => {
            return "uitofp".to_owned();
        },
        CastKind::FloatToSigned => {
            return "fptosi".to_owned();
        },
        CastKind::FloatToUnsigned => {
            return "fptoui".to_owned();
        },
        CastKind::PtrToInt => {
            return "ptrtoint".to_owned();
        },
        CastKind::IntToPtr => {
            return "inttoptr".to_owned();
        },
        CastKind::Bit => {
            return "bitcast".to_owned();
        },
    }
}

/// The line that makes a pointer to a type, under the name of a result with `.q` added, one to
/// bytes.
pub fn byte_ptr(r: &str, ty: &str) -> (res: String)
    ensures
        res@ == byte_ptr_spec(r@, ty@),
{
    proof {
        reveal(byte_ptr_spec);
    }
    cat3(&cat3(&cat3("  ", r, " = bitcast "), ty, "* "), r, ".q to i8*\n")
}

/// The type that `n` indices into a type lead to, as LLVM writes it.
pub fn indexed_text(ty: &LTy, n: usize) -> (r: String)
    ensures
        r@ == indexed_text_spec(ty@, n),
{
    proof {
        reveal(indexed_text_spec);
    }
    match ty {
        LTy::Array(elem, _) => {
            if n == 2 {
                return show_ty(elem);
            }
            return show_ty(ty);
        },
        _ => {
            return show_ty(ty);
        },
    }
}

/// The type of a function that takes more arguments than its parameters.
pub fn signature_text(f: &FnSig) -> (r: String)
    ensures
        r@ == signature_text_spec(f@),
{
    proof {
        reveal(signature_text_spec);
    }
    cat(
        &cat3(
            &return_text(f),
            " (",
            &join_texts(&variadic_params(&show_tys(&f.params), f.variadic), ", "),
        ),
        ")",
    )
}

/// The return type of a function as LLVM writes it.
pub fn return_text(f: &FnSig) -> (r: String)
    ensures
        r@ == return_text_spec(f@),
{
    proof {
        reveal(return_text_spec);
    }
    match &f.ret {
        Some(ty) => {
            return show_ty(ty);
        },
        None => {
            return "void".to_owned();
        },
    }
}

/// Parameters, with dots where more arguments may follow.
pub fn variadic_params(params: &Vec<String>, variadic: bool) -> (r: Vec<String>)
    ensures
        texts(r@) == variadic_params_spec(texts(params@), variadic),
{
    proof {
        reveal(variadic_params_spec);
    }
    let mut out = params.dup();
    if variadic {
        let ghost prior = texts(out@);
        let item = "...".to_owned();
        out.push(item);
        proof {
            assert(texts(out@) =~= prior.push(item@));
        }
    }
    out
}

/// The label of a block: what it is called, and its number.
pub fn label_text(blocks: &Vec<IrBlock>, b: usize) -> (r: String)
    ensures
        r@ == label_text_spec(ir_block_seq_view(blocks@), b),
{
    proof {
        reveal(label_text_spec);
    }
    proof {
        assert(ir_block_seq_view(blocks@).len() == blocks@.len());
    }
    if b < blocks.len() {
        proof {
            assert(ir_block_seq_view(blocks@)[b as int] == ir_block_view(blocks@[b as int]));
        }
        return cat3(&blocks[b].label, ".", &show_usize(b));
    }
    cat("block.", &show_usize(b))
}

/// Whether an instruction ends a block.
pub fn is_end(inst: &Inst) -> (r: bool)
    ensures
        r == is_end_spec(inst@),
{
    proof {
        reveal(is_end_spec);
    }
    matches!(
        inst,
        Inst::Br { .. } | Inst::CondBr { .. } | Inst::Ret { .. } | Inst::Unreachable { .. }
    )
}

/// Whether instructions come to an end.
pub fn ends(insts: &Vec<Inst>) -> (r: bool)
    ensures
        r == ends_spec(inst_seq_view(insts@)),
{
    proof {
        reveal(ends_spec);
    }
    proof {
        assert(inst_seq_view(insts@).len() == insts@.len());
    }
    let n: usize = insts.len();
    if n > 0 {
        proof {
            assert(inst_seq_view(insts@)[(n - 1) as int] == inst_view(insts@[(n - 1) as int]));
        }
        return is_end(&insts[(n - 1)]);
    }
    false
}

/// The parameters of a function with their names.
pub fn named_params(tys: &Vec<LTy>) -> (r: Vec<String>)
    ensures
        texts(r@) == named_params_spec(l_ty_seq_view(tys@)),
{
    proof {
        reveal(named_params_spec);
    }
    let items: Vec<String> = Vec::new();
    proof {
        assert(texts(items@) =~= Seq::<Seq<char>>::empty());
    }
    let mut out = items;
    let mut i: usize = 0;
    while i < tys.len()
        invariant
            i <= tys@.len(),
            texts(out@).len() == i,
            forall|k: int| #![trigger texts(out@)[k]] 0 <= k < i ==> texts(out@)[k] == {
                let i = k;
                let t = l_ty_seq_view(tys@)[k];
                ty_text(t) + " %a"@ + decimal_text((i as usize) as nat)
            },
        decreases tys@.len() - i,
    {
        let t = &tys[i];
        proof {
            assert(l_ty_seq_view(tys@)[i as int] == l_ty_view(tys@[i as int]));
        }
        let ghost prior = texts(out@);
        let item = cat3(&show_ty(t), " %a", &show_usize(i));
        out.push(item);
        proof {
            assert(texts(out@) =~= prior.push(item@));
        }
        i += 1;
    }
    proof {
        assert(texts(out@) =~= named_params_spec(l_ty_seq_view(tys@)));
    }
    out
}

/// The attributes of a function as LLVM writes them.
pub fn attribute_text(f: &FnSig) -> (r: String)
    ensures
        r@ == attribute_text_spec(f@),
{
    proof {
        reveal(attribute_text_spec);
    }
    let inline: String = if f.inlining == Inlining::Always {
        let inline = " alwaysinline".to_owned();
        inline
    } else {
        let inline: String = if f.inlining == Inlining::Never {
            let inline = " noinline".to_owned();
            inline
        } else {
            let inline = "".to_owned();
            inline
        };
        inline
    };
    if f.noreturn {
        return cat(" noreturn", &inline);
    }
    inline
}

impl CodeGen {
    /// The address of a string constant.
    pub fn string_ref(&self, i: usize) -> (r: String)
        ensures
            r@ == string_ref(self@, i),
    {
        proof {
            reveal(string_ref);
        }
        let texts_ = self.out.strings.dup();
        if i < texts_.len() {
            let t = string_type(&texts_[i]);
            return cat3(
                &cat3(&cat3("getelementptr inbounds (", &t, ", "), &t, "* @str."),
                &show_usize(i),
                ", i64 0, i64 0)",
            );
        }
        "null".to_owned()
    }

    /// An operand as LLVM writes it, without its type.
    pub fn operand_text(&self, v: &Val) -> (r: String)
        ensures
            r@ == operand_text(self@, v@),
    {
        proof {
            reveal(operand_text);
        }
        match &v.op {
            Operand::Reg(b, i) => {
                return reg_text(*b, *i);
            },
            Operand::Arg(i) => {
                return cat("%a", &show_usize(*i));
            },
            Operand::Int(n) => {
                match &v.ty {
                    LTy::Int(w) => {
                        return show_u64(low_bits(*n, *w));
                    },
                    _ => {
                        return show_u64(*n);
                    },
                }
            },
            Operand::Float(f) => {
                if matches!(&v.ty, LTy::F32 { .. }) {
                    return cat3("fptrunc (double ", &show_float(f), " to float)");
                }
                return show_float(f);
            },
            Operand::Null => {
                return "null".to_owned();
            },
            Operand::Undef => {
                return "undef".to_owned();
            },
            Operand::Str(i) => {
                return self.string_ref(*i);
            },
            Operand::SizeOf(ty) => {
                let t = show_ty(ty);
                return cat3(
                    &cat3(&cat3("ptrtoint (", &t, "* getelementptr ("), &t, ", "),
                    &t,
                    "* null, i32 1) to i64)",
                );
            },
        }
    }

    /// An operand as LLVM writes it, with its type.
    pub fn value_text(&self, v: &Val) -> (r: String)
        ensures
            r@ == value_text(self@, v@),
    {
        proof {
            reveal(value_text);
        }
        cat3(&show_ty(&v.ty), " ", &self.operand_text(v))
    }

    /// Operands as LLVM writes them, with their types.
    pub fn value_texts(&self, vals: &Vec<Val>) -> (r: Vec<String>)
        ensures
            texts(r@) == value_texts(self@, val_seq_view(vals@)),
    {
        proof {
            reveal(value_texts);
        }
        let items: Vec<String> = Vec::new();
        proof {
            assert(texts(items@) =~= Seq::<Seq<char>>::empty());
        }
        let mut out = items;
        let mut i: usize = 0;
        while i < vals.len()
            invariant
                i <= vals@.len(),
                texts(out@).len() == i,
                forall|k: int| #![trigger texts(out@)[k]] 0 <= k < i ==> texts(out@)[k] == {
                    let s = self@;
                    let v = val_seq_view(vals@)[k];
                    value_text(s, v)
                },
            decreases vals@.len() - i,
        {
            let v = &vals[i];
            proof {
                assert(val_seq_view(vals@)[i as int] == val_view(vals@[i as int]));
            }
            let ghost prior = texts(out@);
            let item = self.value_text(v);
            out.push(item);
            proof {
                assert(texts(out@) =~= prior.push(item@));
            }
            i += 1;
        }
        proof {
            assert(texts(out@) =~= value_texts(self@, val_seq_view(vals@)));
        }
        out
    }

    /// The line that makes a pointer one to a type, under the name of a result with `.p` added.
    pub fn typed_ptr(&self, r: &str, ty: &str, p: &Val) -> (res: String)
        ensures
            res@ == typed_ptr(self@, r@, ty@, p@),
    {
        proof {
            reveal(typed_ptr);
        }
        cat3(&cat3(&cat3("  ", r, ".p = bitcast "), &self.value_text(p), " to "), ty, "*\n")
    }

    /// The type of a field as LLVM writes it.
    pub fn field_text(&self, ty: &LTy, i: u32) -> (r: String)
        ensures
            r@ == field_text(self@, ty@, i),
    {
        proof {
            reveal(field_text);
        }
        let tys = self.fields_of(ty);
        let k: usize = i as usize;
        proof {
            assert(l_ty_seq_view(tys@).len() == tys@.len());
        }
        if k < tys.len() {
            proof {
                assert(l_ty_seq_view(tys@)[k as int] == l_ty_view(tys@[k as int]));
            }
            return show_ty(&tys[k]);
        }
        "i8".to_owned()
    }

    /// A call as LLVM writes it.
    pub fn call_text(&self, r: &str, name: &str, args: &Vec<Val>) -> (res: String)
        ensures
            res@ == call_text(self@, r@, name@, val_seq_view(args@)),
    {
        proof {
            reveal(call_text);
        }
        let subject = self.out.decls.get_dup(name);
        match &subject {
            Some(f) => {
                let list = join_texts(&self.value_texts(args), ", ");
                let callee = if f.variadic { signature_text(f) } else { return_text(f) };
                if matches!(&f.ret, Some(_)) {
                    return cat3(
                        &cat3(
                            &cat3(&cat3("  ", r, " = call "), &callee, " "),
                            &global_text(name),
                            "(",
                        ),
                        &list,
                        ")\n",
                    );
                }
                return cat3(
                    &cat3(&cat3("  call ", &callee, " "), &global_text(name), "("),
                    &list,
                    ")\n",
                );
            },
            None => {
                return cat3(
                    &cat3("  call void ", &global_text(name), "("),
                    &join_texts(&self.value_texts(args), ", "),
                    ")\n",
                );
            },
        }
    }

    /// An instruction on memory as LLVM writes it.
    pub fn memory_text(&self, r: &str, inst: &Inst) -> (res: String)
        ensures
            res@ == memory_text(self@, r@, inst@),
    {
        proof {
            reveal(memory_text);
        }
        match inst {
            Inst::Alloca(ty) => {
                let t = show_ty(ty);
                return cat(&cat3(&cat3("  ", r, ".q = alloca "), &t, "\n"), &byte_ptr(r, &t));
            },
            Inst::Load(ty, p) => {
                let t = show_ty(ty);
                return cat(
                    &cat3(
                        &cat3(
                            &cat3(&cat3(&self.typed_ptr(r, &t, p), "  ", r), " = load ", &t),
                            ", ",
                            &t,
                        ),
                        "* ",
                        r,
                    ),
                    ".p\n",
                );
            },
            Inst::Store(v, p) => {
                let t = show_ty(&v.ty);
                return cat(
                    &cat3(
                        &cat3(
                            &cat3(&self.typed_ptr(r, &t, p), "  store ", &self.value_text(v)),
                            ", ",
                            &t,
                        ),
                        "* ",
                        r,
                    ),
                    ".p\n",
                );
            },
            Inst::FieldPtr(ty, p, i) => {
                let t = show_ty(ty);
                return cat3(
                    &cat3(
                        &cat3(
                            &cat3(
                                &cat3(
                                    &cat3(&self.typed_ptr(r, &t, p), "  ", r),
                                    ".q = getelementptr inbounds ",
                                    &t,
                                ),
                                ", ",
                                &t,
                            ),
                            "* ",
                            r,
                        ),
                        ".p, i32 0, i32 ",
                        &show_u64(*i as u64),
                    ),
                    "\n",
                    &byte_ptr(r, &self.field_text(ty, *i)),
                );
            },
            Inst::ElemPtr(ty, p, idx) => {
                let t = show_ty(ty);
                proof {
                    assert(val_seq_view(idx@).len() == idx@.len());
                }
                return cat3(
                    &cat3(
                        &cat3(
                            &cat3(
                                &cat3(
                                    &cat3(&self.typed_ptr(r, &t, p), "  ", r),
                                    ".q = getelementptr inbounds ",
                                    &t,
                                ),
                                ", ",
                                &t,
                            ),
                            "* ",
                            r,
                        ),
                        ".p, ",
                        &join_texts(&self.value_texts(idx), ", "),
                    ),
                    "\n",
                    &byte_ptr(r, &indexed_text(ty, idx.len())),
                );
            },
            _ => {
                return "".to_owned();
            },
        }
    }

    /// An instruction on values as LLVM writes it.
    pub fn value_inst_text(&self, r: &str, inst: &Inst) -> (res: String)
        ensures
            res@ == value_inst_text(self@, r@, inst@),
    {
        proof {
            reveal(value_inst_text);
        }
        match inst {
            Inst::Bin(kind, a, b) => {
                return cat3(
                    &cat3(
                        &cat3(&cat3("  ", r, " = "), &bin_text(*kind), " "),
                        &self.value_text(a),
                        ", ",
                    ),
                    &self.operand_text(b),
                    "\n",
                );
            },
            Inst::IntTest(pred, a, b) => {
                return cat3(
                    &cat3(
                        &cat3(&cat3("  ", r, " = icmp "), &int_test_text(*pred), " "),
                        &self.value_text(a),
                        ", ",
                    ),
                    &self.operand_text(b),
                    "\n",
                );
            },
            Inst::FloatTest(pred, a, b) => {
                return cat3(
                    &cat3(
                        &cat3(&cat3("  ", r, " = fcmp "), &float_test_text(*pred), " "),
                        &self.value_text(a),
                        ", ",
                    ),
                    &self.operand_text(b),
                    "\n",
                );
            },
            Inst::Cast(kind, v, ty) => {
                return cat3(
                    &cat3(
                        &cat3(&cat3("  ", r, " = "), &cast_text(*kind), " "),
                        &self.value_text(v),
                        " to ",
                    ),
                    &show_ty(ty),
                    "\n",
                );
            },
            Inst::Not(v) => {
                return cat3(&cat3("  ", r, " = xor "), &self.value_text(v), ", -1\n");
            },
            Inst::Neg(v) => {
                return cat3(
                    &cat3(&cat3("  ", r, " = sub "), &show_ty(&v.ty), " 0, "),
                    &self.operand_text(v),
                    "\n",
                );
            },
            Inst::FloatNeg(v) => {
                return cat3(&cat3("  ", r, " = fneg "), &self.value_text(v), "\n");
            },
            Inst::Call(name, args) => {
                return self.call_text(r, name, args);
            },
            Inst::Extract(v, i) => {
                return cat3(
                    &cat3(&cat3("  ", r, " = extractvalue "), &self.value_text(v), ", "),
                    &show_u64(*i as u64),
                    "\n",
                );
            },
            Inst::Insert(a, v, i) => {
                return cat3(
                    &cat3(
                        &cat3(&cat3("  ", r, " = insertvalue "), &self.value_text(a), ", "),
                        &self.value_text(v),
                        ", ",
                    ),
                    &show_u64(*i as u64),
                    "\n",
                );
            },
            _ => {
                return "".to_owned();
            },
        }
    }

    /// A return as LLVM writes it.
    pub fn return_value_text(&self, v: &Option<Val>) -> (r: String)
        ensures
            r@ == return_value_text(self@, v.model()),
    {
        proof {
            reveal(return_value_text);
        }
        match v {
            Some(x) => {
                return cat3("  ret ", &self.value_text(x), "\n");
            },
            None => {
                return "  ret void\n".to_owned();
            },
        }
    }

    /// An instruction that ends a block as LLVM writes it.
    pub fn end_text(&self, inst: &Inst, blocks: &Vec<IrBlock>) -> (r: String)
        ensures
            r@ == end_text(self@, inst@, ir_block_seq_view(blocks@)),
    {
        proof {
            reveal(end_text);
        }
        match inst {
            Inst::Br(b) => {
                return cat3("  br label %", &label_text(blocks, *b), "\n");
            },
            Inst::CondBr(c, yes, no) => {
                return cat3(
                    &cat3(
                        &cat3("  br ", &self.value_text(c), ", label %"),
                        &label_text(blocks, *yes),
                        ", label %",
                    ),
                    &label_text(blocks, *no),
                    "\n",
                );
            },
            Inst::Ret(v) => {
                return self.return_value_text(v);
            },
            Inst::Unreachable => {
                return "  unreachable\n".to_owned();
            },
            _ => {
                return "".to_owned();
            },
        }
    }

    /// An instruction as LLVM writes it.
    pub fn inst_text(&self, b: usize, i: usize, inst: &Inst, blocks: &Vec<IrBlock>) -> (r: String)
        ensures
            r@ == inst_text(self@, b, i, inst@, ir_block_seq_view(blocks@)),
    {
        proof {
            reveal(inst_text);
        }
        let r = reg_text(b, i);
        cat3(
            &self.memory_text(&r, inst),
            &self.value_inst_text(&r, inst),
            &self.end_text(inst, blocks),
        )
    }

    /// The instructions of a block as LLVM writes them.
    pub fn insts_text(&self, b: usize, insts: &Vec<Inst>, blocks: &Vec<IrBlock>) -> (r: String)
        ensures
            r@ == insts_text(self@, b, inst_seq_view(insts@), ir_block_seq_view(blocks@)),
    {
        proof {
            reveal(insts_text);
            reveal(insts_text_each);
        }
        let mut text = "".to_owned();
        let mut i: usize = 0;
        while i < insts.len()
            invariant
                i <= insts@.len(),
                insts_text_each(
                    self@,
                    b,
                    inst_seq_view(insts@),
                    ir_block_seq_view(blocks@),
                    text@,
                    i as nat,
                ) == insts_text(self@, b, inst_seq_view(insts@), ir_block_seq_view(blocks@)),
            decreases insts@.len() - i,
        {
            proof {
                reveal(insts_text);
                reveal(insts_text_each);
            }
            let inst = &insts[i];
            proof {
                assert(inst_seq_view(insts@)[i as int] == inst_view(insts@[i as int]));
            }
            text = cat(&text, &self.inst_text(b, i, inst, blocks));
            i += 1;
        }
        text
    }

    /// A block as LLVM writes it. One that does not come to an end is never left.
    pub fn block_text(&self, b: usize, block: &IrBlock, blocks: &Vec<IrBlock>) -> (r: String)
        ensures
            r@ == block_text(self@, b, block@, ir_block_seq_view(blocks@)),
    {
        proof {
            reveal(block_text);
        }
        let body = cat3(&label_text(blocks, b), ":\n", &self.insts_text(b, &block.insts, blocks));
        if ends(&block.insts) {
            return body;
        }
        cat(&body, "  unreachable\n")
    }

    /// The blocks of a function as LLVM writes them.
    pub fn blocks_text(&self, blocks: &Vec<IrBlock>) -> (r: String)
        ensures
            r@ == blocks_text(self@, ir_block_seq_view(blocks@)),
    {
        proof {
            reveal(blocks_text);
            reveal(blocks_text_each);
        }
        let mut text = "".to_owned();
        let mut b: usize = 0;
        while b < blocks.len()
            invariant
                b <= blocks@.len(),
                blocks_text_each(
                    self@,
                    ir_block_seq_view(blocks@),
                    text@,
                    b as nat,
                ) == blocks_text(self@, ir_block_seq_view(blocks@)),
            decreases blocks@.len() - b,
        {
            proof {
                reveal(blocks_text);
                reveal(blocks_text_each);
            }
            let block = &blocks[b];
            proof {
                assert(ir_block_seq_view(blocks@)[b as int] == ir_block_view(blocks@[b as int]));
            }
            text = cat(&text, &self.block_text(b, block, blocks));
            b += 1;
        }
        text
    }

    /// A function as LLVM writes it: its declaration, or its code where it has some.
    pub fn function_text(&self, name: &str) -> (r: String)
        ensures
            r@ == function_text(self@, name@),
    {
        proof {
            reveal(function_text);
        }
        let subject = self.out.decls.get_dup(name);
        match &subject {
            Some(f) => {
                let subject2 = self.out.bodies.get_dup(name);
                match &subject2 {
                    Some(blocks) => {
                        let params = join_texts(
                            &variadic_params(&named_params(&f.params), f.variadic),
                            ", ",
                        );
                        return cat3(
                            &cat3(
                                &cat3(
                                    &cat3(
                                        &cat3("define ", &return_text(f), " "),
                                        &global_text(name),
                                        "(",
                                    ),
                                    &params,
                                    ")",
                                ),
                                &attribute_text(f),
                                " {\n",
                            ),
                            &self.blocks_text(blocks),
                            "}\n",
                        );
                    },
                    None => {
                        let params = join_texts(
                            &variadic_params(&show_tys(&f.params), f.variadic),
                            ", ",
                        );
                        return cat3(
                            &cat3(
                                &cat3(
                                    &cat3("declare ", &return_text(f), " "),
                                    &global_text(name),
                                    "(",
                                ),
                                &params,
                                ")",
                            ),
                            &attribute_text(f),
                            "\n",
                        );
                    },
                }
            },
            None => {
                return "".to_owned();
            },
        }
    }

    /// The functions in the order of their declaration.
    pub fn functions_text(&self) -> (r: String)
        ensures
            r@ == functions_text(self@),
    {
        proof {
            reveal(functions_text);
            reveal(functions_text_each);
        }
        let names = self.out.fn_order.dup();
        let mut text = "".to_owned();
        let mut i: usize = 0;
        while i < names.len()
            invariant
                i <= names@.len(),
                functions_text_each(self@, texts(names@), text@, i as nat) == functions_text(self@),
            decreases names@.len() - i,
        {
            proof {
                reveal(functions_text);
                reveal(functions_text_each);
            }
            let n = &names[i];
            text = cat(&text, &self.function_text(n));
            i += 1;
        }
        text
    }

    /// A named struct as LLVM writes it; its fields may not be known.
    pub fn struct_text(&self, name: &str) -> (r: String)
        ensures
            r@ == struct_text(self@, name@),
    {
        proof {
            reveal(struct_text);
        }
        let head = cat3("%\"", &escape(name), "\" = type ");
        let subject = self.out.struct_bodies.get_dup(name);
        match &subject {
            Some(tys) => {
                return cat(&cat3(&head, "{ ", &join_texts(&show_tys(tys), ", ")), " }\n");
            },
            None => {
                return cat(&head, "opaque\n");
            },
        }
    }

    /// The named structs in the order of their declaration.
    pub fn structs_text(&self) -> (r: String)
        ensures
            r@ == structs_text(self@),
    {
        proof {
            reveal(structs_text);
            reveal(structs_text_each);
        }
        let names = self.out.type_order.dup();
        let mut text = "".to_owned();
        let mut i: usize = 0;
        while i < names.len()
            invariant
                i <= names@.len(),
                structs_text_each(self@, texts(names@), text@, i as nat) == structs_text(self@),
            decreases names@.len() - i,
        {
            proof {
                reveal(structs_text);
                reveal(structs_text_each);
            }
            let n = &names[i];
            text = cat(&text, &self.struct_text(n));
            i += 1;
        }
        text
    }

    /// The string constants as LLVM writes them.
    pub fn strings_text(&self) -> (r: String)
        ensures
            r@ == strings_text(self@),
    {
        proof {
            reveal(strings_text);
            reveal(strings_text_each);
        }
        let all = self.out.strings.dup();
        let mut text = "".to_owned();
        let mut i: usize = 0;
        while i < all.len()
            invariant
                i <= all@.len(),
                strings_text_each(self@, texts(all@), text@, i as nat) == strings_text(self@),
            decreases all@.len() - i,
        {
            proof {
                reveal(strings_text);
                reveal(strings_text_each);
            }
            let x = &all[i];
            text = cat(
                &cat3(
                    &cat3(
                        &cat3(&text, "@str.", &show_usize(i)),
                        " = private unnamed_addr constant ",
                        &string_type(x),
                    ),
                    " c\"",
                    &show_bytes(x),
                ),
                "\\00\"\n",
            );
            i += 1;
        }
        text
    }

    /// What was compiled, in the language of LLVM.
    pub fn module_text(&self) -> (r: String)
        ensures
            r@ == module_text(self@),
    {
        proof {
            reveal(module_text);
        }
        cat3(&self.structs_text(), &self.strings_text(), &self.functions_text())
    }
}

} // verus!
