//! Recursion through the program: what is nested deeper is compiled with less fuel.
use crate::ast::{Expr, Function, Stmt, Type};
use crate::bodies::{body_step, instance_step, slice_step, stmt_step};
use crate::exprs::expr_step;
use crate::growth::{confined, count_from, returned, same_variables, settled, stays};
use crate::instances::instance_laid_out;
use crate::ir::{Val, ValView};
use crate::model::{ExprView, FunctionView, StmtView, TypeView, type_seq_view};
use crate::names::mangled;
use crate::state::{CodeGen, CodegenError, ErrorView, State, err};
use crate::table::Model;
use crate::types::array_key;
use vstd::prelude::*;

verus! {

/// How what is nested in the code at hand is compiled.
pub struct Nested {
    /// How much deeper code may be nested.
    pub fuel: nat,
    /// An expression.
    pub expr: spec_fn(State, ExprView) -> (Result<ValView, ErrorView>, State),
    /// A statement.
    pub stmt: spec_fn(State, StmtView) -> (Result<(), ErrorView>, State),
    /// The body of a function.
    pub body: spec_fn(State, FunctionView) -> (Result<(), ErrorView>, State),
    /// An instance of a generic type.
    pub instance: spec_fn(State, Seq<char>, Seq<TypeView>) -> (Result<(), ErrorView>, State),
    /// The methods of an array type.
    pub slice: spec_fn(State, TypeView, usize) -> (Result<(), ErrorView>, State),
}

/// How nested code is compiled with that much fuel.
#[verifier::opaque]
pub open spec fn nested(fuel: nat) -> Nested
    decreases fuel, 1int,
{
    Nested {
        fuel,
        expr: |s: State, e: ExprView| compile_expr(s, fuel, e),
        stmt: |s: State, x: StmtView| compile_stmt(s, fuel, x),
        body: |s: State, f: FunctionView| compile_function_body(s, fuel, f),
        instance: |s: State, base: Seq<char>, args: Seq<TypeView>|
            ensure_monomorphized(s, fuel, base, args),
        slice: |s: State, elem: TypeView, len: usize| ensure_slice_methods(s, fuel, elem, len),
    }
}

/// A nested expression.
#[verifier::opaque]
pub open spec fn nested_expr(s: State, k: Nested, e: ExprView) -> (
    Result<ValView, ErrorView>,
    State,
) {
    (k.expr)(s, e)
}

/// A nested statement.
#[verifier::opaque]
pub open spec fn nested_stmt(s: State, k: Nested, x: StmtView) -> (Result<(), ErrorView>, State) {
    (k.stmt)(s, x)
}

/// The body of a function that is needed.
#[verifier::opaque]
pub open spec fn nested_body(
    s: State,
    k: Nested,
    f: FunctionView,
) -> (Result<(), ErrorView>, State) {
    (k.body)(s, f)
}

/// An instance of a generic type that is needed.
#[verifier::opaque]
pub open spec fn nested_instance(s: State, k: Nested, base: Seq<char>, args: Seq<TypeView>) -> (
    Result<(), ErrorView>,
    State,
) {
    (k.instance)(s, base, args)
}

/// The methods of an array type that are needed.
#[verifier::opaque]
pub open spec fn nested_slice(s: State, k: Nested, elem: TypeView, len: usize) -> (
    Result<(), ErrorView>,
    State,
) {
    (k.slice)(s, elem, len)
}

/// What is said where code is nested too deeply.
pub open spec fn too_deep() -> ErrorView {
    err("internal: the program is nested too deeply"@)
}

/// Compiles an expression and gives its value.
#[verifier::opaque]
pub open spec fn compile_expr(s: State, fuel: nat, e: ExprView) -> (
    Result<ValView, ErrorView>,
    State,
)
    decreases fuel, 0int,
{
    if fuel == 0 {
        (Err(too_deep()), s)
    } else {
        expr_step(s, nested((fuel - 1) as nat), e)
    }
}

/// Compiles a statement.
#[verifier::opaque]
pub open spec fn compile_stmt(s: State, fuel: nat, x: StmtView) -> (Result<(), ErrorView>, State)
    decreases fuel, 0int,
{
    if fuel == 0 {
        (Err(too_deep()), s)
    } else {
        stmt_step(s, nested((fuel - 1) as nat), x)
    }
}

/// Compiles the body of a declared function.
#[verifier::opaque]
pub open spec fn compile_function_body(s: State, fuel: nat, f: FunctionView) -> (
    Result<(), ErrorView>,
    State,
)
    decreases fuel, 0int,
{
    if fuel == 0 {
        (Err(too_deep()), s)
    } else {
        body_step(s, nested((fuel - 1) as nat), f)
    }
}

/// Makes an instance of a generic type with its methods.
#[verifier::opaque]
pub open spec fn ensure_monomorphized(
    s: State,
    fuel: nat,
    base: Seq<char>,
    args: Seq<TypeView>,
) -> (Result<(), ErrorView>, State)
    decreases fuel, 0int,
{
    if fuel == 0 {
        (Err(too_deep()), s)
    } else {
        instance_step(s, nested((fuel - 1) as nat), base, args)
    }
}

/// Makes the methods of an array type.
#[verifier::opaque]
pub open spec fn ensure_slice_methods(s: State, fuel: nat, elem: TypeView, len: usize) -> (
    Result<(), ErrorView>,
    State,
)
    decreases fuel, 0int,
{
    if fuel == 0 {
        (Err(too_deep()), s)
    } else {
        slice_step(s, nested((fuel - 1) as nat), elem, len)
    }
}

/// What a nested expression is.
pub broadcast proof fn lemma_nested_expr(s: State, fuel: nat, e: ExprView)
    ensures
        #[trigger] nested_expr(s, nested(fuel), e) == compile_expr(s, fuel, e),
{
    reveal(nested_expr);
    reveal(nested);
    reveal(compile_expr);
}

/// What a nested statement is.
pub broadcast proof fn lemma_nested_stmt(s: State, fuel: nat, x: StmtView)
    ensures
        #[trigger] nested_stmt(s, nested(fuel), x) == compile_stmt(s, fuel, x),
{
    reveal(nested_stmt);
    reveal(nested);
    reveal(compile_stmt);
}

/// What the body of a function is.
pub broadcast proof fn lemma_nested_body(s: State, fuel: nat, f: FunctionView)
    ensures
        #[trigger] nested_body(s, nested(fuel), f) == compile_function_body(s, fuel, f),
{
    reveal(nested_body);
    reveal(nested);
    reveal(compile_function_body);
}

/// What an instance is.
pub broadcast proof fn lemma_nested_instance(
    s: State,
    fuel: nat,
    base: Seq<char>,
    args: Seq<TypeView>,
)
    ensures
        #[trigger] nested_instance(s, nested(fuel), base, args) == ensure_monomorphized(
            s,
            fuel,
            base,
            args,
        ),
{
    reveal(nested_instance);
    reveal(nested);
    reveal(ensure_monomorphized);
}

/// What the methods of an array type are.
pub broadcast proof fn lemma_nested_slice(s: State, fuel: nat, elem: TypeView, len: usize)
    ensures
        #[trigger] nested_slice(s, nested(fuel), elem, len) == ensure_slice_methods(
            s,
            fuel,
            elem,
            len,
        ),
{
    reveal(nested_slice);
    reveal(nested);
    reveal(ensure_slice_methods);
}

/// How much fuel nested code has.
pub broadcast proof fn lemma_nested_fuel(fuel: nat)
    ensures
        (#[trigger] nested(fuel)).fuel == fuel,
{
    reveal(nested);
}

/// What is nested is compiled like any other code, with its fuel.
pub broadcast group group_nesting {
    lemma_nested_expr,
    lemma_nested_stmt,
    lemma_nested_body,
    lemma_nested_instance,
    lemma_nested_slice,
    lemma_nested_fuel,
}

fn depth_error() -> (r: CodegenError)
    ensures
        r@ == too_deep(),
{
    CodegenError::new("internal: the program is nested too deeply".to_owned())
}

impl CodeGen {
    /// Compiles an expression and gives its value.
    pub fn compile_expr(&mut self, fuel: usize, e: &Expr) -> (r: Result<Val, CodegenError>)
        ensures
            (r.model(), final(self)@) == compile_expr(old(self)@, fuel as nat, e@),
            stays(old(self)@, final(self)@),
            r is Ok ==> settled(old(self)@, final(self)@),
            r is Ok ==> confined(old(self)@.out.cur, final(self)@.out.cur),
            r is Ok ==> same_variables(old(self)@, final(self)@),
        decreases fuel, 0int,
    {
        proof {
            broadcast use crate::growth::group_growth;

            count_from(old(self)@);
            reveal(nested);
            reveal(compile_expr);
        }
        if fuel == 0 {
            return Err(depth_error());
        }
        self.expr_step(fuel - 1, e)
    }

    /// Compiles a statement.
    pub fn compile_stmt(&mut self, fuel: usize, x: &Stmt) -> (r: Result<(), CodegenError>)
        ensures
            (r.model(), final(self)@) == compile_stmt(old(self)@, fuel as nat, x@),
            stays(old(self)@, final(self)@),
            r is Ok ==> settled(old(self)@, final(self)@),
            r is Ok ==> confined(old(self)@.out.cur, final(self)@.out.cur),
        decreases fuel, 0int,
    {
        proof {
            broadcast use crate::growth::group_growth;

            count_from(old(self)@);
            reveal(nested);
            reveal(compile_stmt);
        }
        if fuel == 0 {
            return Err(depth_error());
        }
        self.stmt_step(fuel - 1, x)
    }

    /// Compiles the body of a declared function.
    pub fn compile_function_body(&mut self, fuel: usize, f: &Function) -> (r: Result<
        (),
        CodegenError,
    >)
        ensures
            (r.model(), final(self)@) == compile_function_body(old(self)@, fuel as nat, f@),
            stays(old(self)@, final(self)@),
            r is Ok ==> settled(old(self)@, final(self)@),
            r is Ok ==> confined(old(self)@.out.cur, final(self)@.out.cur),
            same_variables(old(self)@, final(self)@),
            returned(old(self)@, final(self)@),
            r is Ok ==> final(self)@.out.bodies.contains_key(f@.name),
        decreases fuel, 0int,
    {
        proof {
            broadcast use crate::growth::group_growth;

            count_from(old(self)@);
            reveal(nested);
            reveal(compile_function_body);
        }
        if fuel == 0 {
            return Err(depth_error());
        }
        self.body_step(fuel - 1, f)
    }

    /// Makes an instance of a generic type with its methods.
    pub fn ensure_monomorphized(&mut self, fuel: usize, base: &str, args: &Vec<Type>) -> (r: Result<
        (),
        CodegenError,
    >)
        ensures
            (r.model(), final(self)@) == ensure_monomorphized(
                old(self)@,
                fuel as nat,
                base@,
                type_seq_view(args@),
            ),
            stays(old(self)@, final(self)@),
            r is Ok ==> settled(old(self)@, final(self)@),
            r is Ok ==> confined(old(self)@.out.cur, final(self)@.out.cur),
            r is Ok ==> same_variables(old(self)@, final(self)@),
            r is Ok && !old(self)@.env.monomorphized.contains(
                mangled(base@, type_seq_view(args@)),
            ) ==> instance_laid_out(
                old(self)@.env,
                final(self)@.env,
                base@,
                type_seq_view(args@),
            ),
            r is Ok ==> final(self)@.env.monomorphized.contains(
                mangled(base@, type_seq_view(args@)),
            ),
        decreases fuel, 0int,
    {
        proof {
            broadcast use crate::growth::group_growth;

            count_from(old(self)@);
            reveal(nested);
            reveal(ensure_monomorphized);
        }
        if fuel == 0 {
            return Err(depth_error());
        }
        self.instance_step(fuel - 1, base, args)
    }

    /// Makes the methods of an array type.
    pub fn ensure_slice_methods(&mut self, fuel: usize, elem: &Type, len: usize) -> (r: Result<
        (),
        CodegenError,
    >)
        ensures
            (r.model(), final(self)@) == ensure_slice_methods(
                old(self)@,
                fuel as nat,
                elem@,
                len,
            ),
            stays(old(self)@, final(self)@),
            r is Ok ==> settled(old(self)@, final(self)@),
            r is Ok ==> confined(old(self)@.out.cur, final(self)@.out.cur),
            r is Ok ==> same_variables(old(self)@, final(self)@),
            r is Ok ==> final(self)@.env.impl_methods.contains_key(array_key(elem@, len)),
        decreases fuel, 0int,
    {
        proof {
            broadcast use crate::growth::group_growth;

            count_from(old(self)@);
            reveal(nested);
            reveal(ensure_slice_methods);
        }
        if fuel == 0 {
            return Err(depth_error());
        }
        self.slice_step(fuel - 1, elem, len)
    }
}

} // verus!
