//! What holds of the text that is written for LLVM.
use crate::cast_laws::{lemma_ranges, usual_width};
use crate::ir::{BinKind, CastKind, FloatPred, IntPred};
use crate::machine::wrapped;
use crate::print::{
    bin_text_spec, bits_in, cast_text_spec, float_test_text_spec, int_test_text_spec,
};
use vstd::prelude::*;

verus! {

/// The operation that an LLVM instruction with two operands carries out, by its name.
pub open spec fn read_operation(t: Seq<char>) -> Option<BinKind> {
    if t == "add"@ {
        Some(BinKind::Add)
    } else if t == "sub"@ {
        Some(BinKind::Sub)
    } else if t == "mul"@ {
        Some(BinKind::Mul)
    } else if t == "sdiv"@ {
        Some(BinKind::SignedDiv)
    } else if t == "udiv"@ {
        Some(BinKind::UnsignedDiv)
    } else if t == "and"@ {
        Some(BinKind::And)
    } else if t == "fadd"@ {
        Some(BinKind::FloatAdd)
    } else if t == "fsub"@ {
        Some(BinKind::FloatSub)
    } else if t == "fmul"@ {
        Some(BinKind::FloatMul)
    } else if t == "fdiv"@ {
        Some(BinKind::FloatDiv)
    } else {
        None
    }
}

/// The test that a condition of `icmp` makes, by its name.
pub open spec fn read_int_test(t: Seq<char>) -> Option<IntPred> {
    if t == "eq"@ {
        Some(IntPred::Eq)
    } else if t == "ne"@ {
        Some(IntPred::Ne)
    } else if t == "slt"@ {
        Some(IntPred::Lt)
    } else if t == "sgt"@ {
        Some(IntPred::Gt)
    } else if t == "sle"@ {
        Some(IntPred::Le)
    } else if t == "sge"@ {
        Some(IntPred::Ge)
    } else if t == "ult"@ {
        Some(IntPred::UnsignedLt)
    } else if t == "ugt"@ {
        Some(IntPred::UnsignedGt)
    } else {
        None
    }
}

/// The test that a condition of `fcmp` makes, by its name.
pub open spec fn read_float_test(t: Seq<char>) -> Option<FloatPred> {
    if t == "oeq"@ {
        Some(FloatPred::Eq)
    } else if t == "one"@ {
        Some(FloatPred::Ne)
    } else if t == "ogt"@ {
        Some(FloatPred::Gt)
    } else if t == "olt"@ {
        Some(FloatPred::Lt)
    } else {
        None
    }
}

/// The conversion that an LLVM instruction carries out, by its name.
pub open spec fn read_conversion(t: Seq<char>) -> Option<CastKind> {
    if t == "trunc"@ {
        Some(CastKind::Trunc)
    } else if t == "zext"@ {
        Some(CastKind::ZeroExt)
    } else if t == "sext"@ {
        Some(CastKind::SignExt)
    } else if t == "fptrunc"@ {
        Some(CastKind::FloatTrunc)
    } else if t == "fpext"@ {
        Some(CastKind::FloatExt)
    } else if t == "sitofp"@ {
        Some(CastKind::SignedToFloat)
    } else if t == "uitofp"@ {
        Some(CastKind::UnsignedToFloat)
    } else if t == "fptosi"@ {
        Some(CastKind::FloatToSigned)
    } else if t == "fptoui"@ {
        Some(CastKind::FloatToUnsigned)
    } else if t == "ptrtoint"@ {
        Some(CastKind::PtrToInt)
    } else if t == "inttoptr"@ {
        Some(CastKind::IntToPtr)
    } else if t == "bitcast"@ {
        Some(CastKind::Bit)
    } else {
        None
    }
}

/// What is written for an operation, a test or a conversion is read back by LLVM as the same one.
pub proof fn law_instructions_are_read_back(b: BinKind, i: IntPred, f: FloatPred, c: CastKind)
    ensures
        read_operation(bin_text_spec(b)) == Some(b),
        read_int_test(int_test_text_spec(i)) == Some(i),
        read_float_test(float_test_text_spec(f)) == Some(f),
        read_conversion(cast_text_spec(c)) == Some(c),
{
    lemma_operations(b);
    lemma_tests(i, f);
    lemma_conversions(c);
}

proof fn lemma_operations(b: BinKind)
    ensures
        read_operation(bin_text_spec(b)) == Some(b),
{
    reveal(bin_text_spec);
    reveal_strlit("add");
    reveal_strlit("sub");
    reveal_strlit("mul");
    reveal_strlit("sdiv");
    reveal_strlit("udiv");
    reveal_strlit("and");
    reveal_strlit("fadd");
    reveal_strlit("fsub");
    reveal_strlit("fmul");
    reveal_strlit("fdiv");
    let t = bin_text_spec(b);
    assert("add"@[0] == 'a' && "add"@[1] == 'd');
    assert("sub"@[0] == 's' && "sub"@.len() == 3);
    assert("mul"@[0] == 'm');
    assert("sdiv"@[0] == 's' && "sdiv"@.len() == 4);
    assert("udiv"@[0] == 'u');
    assert("and"@[0] == 'a' && "and"@[1] == 'n');
    assert("fadd"@[0] == 'f' && "fadd"@[1] == 'a');
    assert("fsub"@[0] == 'f' && "fsub"@[1] == 's');
    assert("fmul"@[0] == 'f' && "fmul"@[1] == 'm');
    assert("fdiv"@[0] == 'f' && "fdiv"@[1] == 'd');
}

proof fn lemma_tests(i: IntPred, f: FloatPred)
    ensures
        read_int_test(int_test_text_spec(i)) == Some(i),
        read_float_test(float_test_text_spec(f)) == Some(f),
{
    reveal(int_test_text_spec);
    reveal(float_test_text_spec);
    reveal_strlit("eq");
    reveal_strlit("ne");
    reveal_strlit("slt");
    reveal_strlit("sgt");
    reveal_strlit("sle");
    reveal_strlit("sge");
    reveal_strlit("ult");
    reveal_strlit("ugt");
    reveal_strlit("oeq");
    reveal_strlit("one");
    reveal_strlit("ogt");
    reveal_strlit("olt");
    assert("eq"@[0] == 'e');
    assert("ne"@[0] == 'n');
    assert("slt"@[0] == 's' && "slt"@[1] == 'l' && "slt"@[2] == 't');
    assert("sgt"@[0] == 's' && "sgt"@[1] == 'g' && "sgt"@[2] == 't');
    assert("sle"@[0] == 's' && "sle"@[1] == 'l' && "sle"@[2] == 'e');
    assert("sge"@[0] == 's' && "sge"@[1] == 'g' && "sge"@[2] == 'e');
    assert("ult"@[0] == 'u' && "ult"@[1] == 'l');
    assert("ugt"@[0] == 'u' && "ugt"@[1] == 'g');
    assert("oeq"@[1] == 'e');
    assert("one"@[1] == 'n');
    assert("ogt"@[1] == 'g');
    assert("olt"@[1] == 'l');
}

proof fn lemma_conversions(c: CastKind)
    ensures
        read_conversion(cast_text_spec(c)) == Some(c),
{
    reveal(cast_text_spec);
    reveal_strlit("trunc");
    reveal_strlit("zext");
    reveal_strlit("sext");
    reveal_strlit("fptrunc");
    reveal_strlit("fpext");
    reveal_strlit("sitofp");
    reveal_strlit("uitofp");
    reveal_strlit("fptosi");
    reveal_strlit("fptoui");
    reveal_strlit("ptrtoint");
    reveal_strlit("inttoptr");
    reveal_strlit("bitcast");
    assert("trunc"@[0] == 't');
    assert("zext"@[0] == 'z');
    assert("sext"@[0] == 's' && "sext"@[1] == 'e');
    assert("fptrunc"@[0] == 'f' && "fptrunc"@[2] == 't' && "fptrunc"@[3] == 'r');
    assert("fpext"@[0] == 'f' && "fpext"@[2] == 'e');
    assert("sitofp"@[0] == 's' && "sitofp"@[1] == 'i');
    assert("uitofp"@[0] == 'u');
    assert("fptosi"@[0] == 'f' && "fptosi"@[2] == 't' && "fptosi"@[3] == 'o' && "fptosi"@[4] == 's');
    assert("fptoui"@[0] == 'f' && "fptoui"@[2] == 't' && "fptoui"@[3] == 'o' && "fptoui"@[4] == 'u');
    assert("ptrtoint"@[0] == 'p');
    assert("inttoptr"@[0] == 'i');
    assert("bitcast"@[0] == 'b');
}

/// An integer constant is written as the bits that its type keeps of it.
pub proof fn law_constants_keep_their_bits(n: u64, w: u32)
    requires
        usual_width(w),
    ensures
        bits_in(n, w) == wrapped(n as int, w),
{
    lemma_ranges();
    if w == 64 {
        vstd::arithmetic::div_mod::lemma_small_mod(n as nat, 18446744073709551616);
    }
}

} // verus!
