use vstd::prelude::*;

pub mod ast;
pub mod bodies;
pub mod break_laws;
pub mod breaks;
pub mod builder;
pub mod builtins;
pub mod calls;
pub mod cast_laws;
pub mod casts;
pub mod collect;
pub mod consts;
pub mod control_laws;
pub mod derive_laws;
pub mod derives;
pub mod error;
pub mod exprs;
pub mod flow;
pub mod generic;
pub mod growth;
pub mod infer;
pub mod instances;
pub mod ir;
pub mod laws;
pub mod lexer;
pub mod lexer_laws;
pub mod link;
pub mod lists;
pub mod literal;
pub mod llvm;
pub mod machine;
pub mod memory_laws;
pub mod method_laws;
pub mod model;
pub mod names;
pub mod nesting;
pub mod operator_laws;
pub mod operators;
pub mod pattern_laws;
pub mod patterns;
pub mod places;
pub mod print;
pub mod print_laws;
pub mod programs;
pub mod query;
pub mod running;
pub mod scopes;
pub mod show;
pub mod state;
pub mod subst;
pub mod table;
pub mod text;
pub mod token;
pub mod types;
pub mod value_laws;
pub mod visible;

verus! {

} // verus!
