# ulang

A compiler library for ulang, a small language with structs, enums, traits, generics and move
semantics. It is written in Verus: every function in `src/` states what it does and is proved to do
it.

A program goes through these stages:

- `lexer` reads source text into tokens (`token`), and `lexer_laws` proves what holds of every text:
  reading goes on, names, numbers and strings are read back, blanks and comments in front of a text
  only shift what is read.
- `ast` is the syntax tree, and `model` the mathematical view of it that all contracts speak of.
- `show` writes the syntax tree out for messages.
- `infer`, `literal`, `generic`, `query`, `types`, `names`, `visible`, `subst` and `collect` answer
  questions on types, names and generic instances; `breaks` finds what leaves a loop, and `break_laws`
  proves that the first of these gives the loop its type.
- `state` is the state of the code generator; `builder` and `ir` are the code it builds.
- `casts`, `consts`, `scopes`, `operators`, `patterns`, `instances`, `places`, `exprs`, `calls` and
  `bodies` compile the parts of a program; `nesting` ties them together for code nested in code.
- `builtins` and `derives` make the trait methods that nobody writes; `programs` compiles a program.
- `print` writes what was compiled in the language of LLVM, and `llvm` hands it to LLVM.
- `error` shows errors with their source, `link` works out how a linker is called.

Each compiling function has a twin of the same name over the view of the state, and its contract
says that the two agree. `growth` states what every one of them keeps: finished code is never
changed, what was declared keeps its signature and is listed once, the function under construction
only gets longer, what a function returns is of its declared type, scopes and loops are as they
were. `laws` proves what holds of compiling as a whole: what is refused, what is undone, what is
made once, in which order values are dropped, in which module an item stands.

Float arithmetic is not part of the library. A constant that depends on it is left as a question in
`env.pending`; `CodeGen::answer` takes the answer, and the program is compiled again.

`app/` runs what was compiled, writes object files and calls the linker.
