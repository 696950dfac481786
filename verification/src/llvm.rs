//! Handing what was compiled to LLVM.
use crate::print::module_text;
use crate::state::{CodeGen, CodegenError, ErrorView, State, err};
use crate::table::Model;
use crate::text::cat;
use vstd::prelude::*;

verus! {

/// What LLVM prints of a module that it reads from a text, or its message where it cannot read it.
pub uninterp spec fn llvm_printed(text: Seq<char>) -> Result<Seq<char>, Seq<char>>;

/// Lets LLVM read a module from a text and print it.
///
/// This is for the text of a compiled module only. It calls `Context::create_module_from_ir` of inkwell on a copy of the text, and
/// `Module::print_to_string` on the module. Both depend on the text alone. What LLVM prints is not
/// stated; it has a name.
#[verifier::external_body]
fn llvm_print(text: &str) -> (r: Result<String, String>)
    requires
        exists|s: State| text@ == #[trigger] module_text(s),
    ensures
        match r {
            Ok(printed) => llvm_printed(text@) == Ok::<Seq<char>, Seq<char>>(printed@),
            Err(message) => llvm_printed(text@) == Err::<Seq<char>, Seq<char>>(message@),
        },
{
    let context = inkwell::context::Context::create();
    let buffer = inkwell::memory_buffer::MemoryBuffer::create_from_memory_range_copy(
        text.as_bytes(),
        "ulang",
    );
    let read = context.create_module_from_ir(buffer);
    match read {
        Ok(module) => Ok(module.print_to_string().to_string()),
        Err(message) => Err(message.to_string()),
    }
}

/// What is given out for what LLVM says of a module.
pub open spec fn accepted(reply: Result<Seq<char>, Seq<char>>) -> Result<Seq<char>, ErrorView> {
    match reply {
        Ok(printed) => Ok(printed),
        Err(message) => Err(err("LLVM does not accept the module: "@ + message)),
    }
}

/// Gives out the module that LLVM printed, or an error with its message.
pub fn accept(reply: Result<String, String>) -> (r: Result<String, CodegenError>)
    ensures
        r.model() == accepted(
            match reply {
                Ok(printed) => Ok(printed@),
                Err(message) => Err(message@),
            },
        ),
{
    match reply {
        Ok(printed) => Ok(printed),
        Err(message) => Err(CodegenError::new(cat("LLVM does not accept the module: ", &message))),
    }
}

impl CodeGen {
    /// Emit the LLVM IR of everything compiled so far as a string.
    pub fn emit_ir(&self) -> (r: Result<String, CodegenError>)
        ensures
            r.model() == accepted(llvm_printed(module_text(self@))),
    {
        let text = self.module_text();
        accept(llvm_print(&text))
    }
}

} // verus!
