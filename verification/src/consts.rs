//! Constants and their values.
use crate::ast::{BinOp, Expr, Type};
use crate::growth::{confined, count_from, fields_kept, same_variables, settled, stays};
use crate::ir::{FloatConst, FloatConstView};
use crate::model::{ExprView, TypeView, expr_seq_view, span_of, type_seq_view};
use crate::show::{expr_text, show_expr};
use crate::state::{
    CodeGen, CodegenError, ConstValue, ConstValueView, Env, EnvView, ErrorView, FloatQuestion,
    FloatQuestionView, State, err, err_at,
};
use crate::table::{Model, Table, at};
use crate::text::{byte_size, bytes_in, cat, cat3, same};
use crate::token::Span;
use crate::types::{floating, int_type_width, int_width, is_float};
use vstd::prelude::*;

verus! {

broadcast use crate::lists::group_list_views;

/// What is known of a float constant.
#[verifier::opaque]
pub open spec fn find_answer(s: EnvView, q: FloatQuestionView) -> Option<i64> {
    let known = s.float_answers;
    find_answer_each(s, q, known, 0)
}

/// [`find_answer`] from element `i` on.
#[verifier::opaque]
pub open spec fn find_answer_each(
    s: EnvView,
    q: FloatQuestionView,
    known: Seq<(FloatQuestionView, i64)>,
    i: nat,
) -> Option<i64>
    decreases known.len() - i,
{
    if i < known.len() {
        let a = known[i as int];
        if a.0 == q {
            Some(a.1)
        } else {
            find_answer_each(s, q, known, i + 1)
        }
    } else {
        None
    }
}

/// The answer to a question on float constants. Where it is not known, the question is left for
/// whoever can compute with floats.
#[verifier::opaque]
pub open spec fn ask(s: State, q: FloatQuestionView) -> (Result<i64, ErrorView>, State) {
    match find_answer(s.env, q) {
        Some(n) => (Ok(n), s),
        None => {
            let s = State { env: EnvView { pending: Some(q), ..s.env }, ..s };
            (Err(err("internal: the value of a float constant has to be known"@)), s)
        },
    }
}

/// The value of an operator on two floats.
#[verifier::opaque]
pub open spec fn float_binary(
    s: State,
    op: BinOp,
    l: FloatConstView,
    r: FloatConstView,
) -> (Result<ConstValueView, ErrorView>, State) {
    match op {
        BinOp::Add | BinOp::Sub | BinOp::Mul | BinOp::Div => {
            (Ok(ConstValueView::Float(FloatConstView::Bin(op, Box::new(l), Box::new(r)))), s)
        },
        BinOp::And | BinOp::Or => (Err(err("invalid operators on float constants"@)), s),
        _ => {
            match ask(s, FloatQuestionView::Compare(op, l, r)) {
                (Ok(n), s) => (Ok(ConstValueView::Bool(n != 0)), s),
                (Err(e), s) => (Err(e), s),
            }
        },
    }
}

/// The value of an operator on two truth values.
#[verifier::opaque]
pub open spec fn bool_binary_spec(
    op: BinOp,
    l: bool,
    r: bool,
) -> Result<ConstValueView, ErrorView> {
    match op {
        BinOp::Eq => Ok(ConstValueView::Bool(l == r)),
        BinOp::Neq => Ok(ConstValueView::Bool(l != r)),
        BinOp::And => Ok(ConstValueView::Bool(l && r)),
        BinOp::Or => Ok(ConstValueView::Bool(l || r)),
        _ => Err(err("invalid operators on bool constants"@)),
    }
}

/// The value of an operator on two constants.
#[verifier::opaque]
pub open spec fn const_binary(
    s: State,
    op: BinOp,
    l: ConstValueView,
    r: ConstValueView,
    span: Span,
) -> (Result<ConstValueView, ErrorView>, State) {
    match l {
        ConstValueView::Int(a) => {
            match r {
                ConstValueView::Int(b) => (int_binary(op, a, b, span), s),
                _ => (Err(err("type mismatch in const expression"@)), s),
            }
        },
        ConstValueView::Float(a) => {
            match r {
                ConstValueView::Float(b) => float_binary(s, op, a, b),
                _ => (Err(err("type mismatch in const expression"@)), s),
            }
        },
        ConstValueView::Bool(a) => {
            match r {
                ConstValueView::Bool(b) => (bool_binary_spec(op, a, b), s),
                _ => (Err(err("type mismatch in const expression"@)), s),
            }
        },
    }
}

/// A constant negated.
#[verifier::opaque]
pub open spec fn const_minus_spec(v: ConstValueView) -> Result<ConstValueView, ErrorView> {
    match v {
        ConstValueView::Int(n) => Ok(ConstValueView::Int(negated(n))),
        ConstValueView::Float(f) => Ok(ConstValueView::Float(FloatConstView::Neg(Box::new(f)))),
        _ => Err(err("invalid operand for unary minus"@)),
    }
}

/// A constant inverted.
#[verifier::opaque]
pub open spec fn const_not_spec(v: ConstValueView) -> Result<ConstValueView, ErrorView> {
    match v {
        ConstValueView::Bool(b) => Ok(ConstValueView::Bool(!(b))),
        ConstValueView::Int(n) => Ok(ConstValueView::Int(inverted(n))),
        _ => Err(err("invalid operand for unary not"@)),
    }
}

/// A constant converted.
#[verifier::opaque]
pub open spec fn const_cast(
    s: State,
    v: ConstValueView,
    to: TypeView,
) -> (Result<ConstValueView, ErrorView>, State) {
    match v {
        ConstValueView::Int(n) => {
            if floating(to) {
                (Ok(ConstValueView::Float(FloatConstView::FromInt(n))), s)
            } else if to is Bool {
                (Ok(ConstValueView::Bool(n != 0)), s)
            } else {
                (Ok(v), s)
            }
        },
        ConstValueView::Float(f) => {
            if int_width(to) is Some {
                match ask(s, FloatQuestionView::ToInt(f)) {
                    (Ok(n), s) => (Ok(ConstValueView::Int(n)), s),
                    (Err(e), s) => (Err(e), s),
                }
            } else if to is Bool {
                match ask(s, FloatQuestionView::NonZero(f)) {
                    (Ok(n), s) => (Ok(ConstValueView::Bool(n != 0)), s),
                    (Err(e), s) => (Err(e), s),
                }
            } else {
                (Ok(v), s)
            }
        },
        ConstValueView::Bool(b) => {
            if int_width(to) is Some {
                (Ok(ConstValueView::Int(if b { 1 } else { 0 })), s)
            } else if floating(to) {
                (Ok(ConstValueView::Float(FloatConstView::FromInt(if b { 1 } else { 0 }))), s)
            } else {
                (Ok(v), s)
            }
        },
    }
}

/// A method call in a constant: only the length of a string literal has a value.
#[verifier::opaque]
pub open spec fn const_method_spec(
    receiver: ExprView,
    method: Seq<char>,
    n: usize,
) -> Result<ConstValueView, ErrorView> {
    if (method == "len"@) && (n == 0) {
        match receiver {
            ExprView::StrLit(text, _) => Ok(ConstValueView::Int(byte_size(text) as i64)),
            _ => Err(err("non-constant receiver for method call in const initializer"@)),
        }
    } else {
        Err(err("non-constant method call in const initializer"@))
    }
}

/// The value of an associated constant that was computed already.
#[verifier::opaque]
pub open spec fn computed_const(
    s: EnvView,
    owner: Seq<char>,
    name: Seq<char>,
) -> Option<ConstValueView> {
    match at(s.const_values, owner) {
        Some(values) => at(values, name),
        None => None,
    }
}

/// The value of an associated constant. A value that was computed once is kept.
#[verifier::opaque]
pub open spec fn eval_associated_const(
    s: State,
    fuel: nat,
    owner: Seq<char>,
    name: Seq<char>,
) -> (Result<ConstValueView, ErrorView>, State)
    decreases fuel, owner, 2int, 0int,
{
    match computed_const(s.env, owner, name) {
        Some(v) => (Ok(v), s),
        None => {
            match at(s.env.const_defs, owner) {
                Some(defs) => {
                    match at(defs, name) {
                        Some(d) => {
                            if fuel == 0 {
                                (Err(err("internal: constants are nested too deeply"@)), s)
                            } else {
                                match const_eval(s, (fuel - 1) as nat, d.0) {
                                    (Ok(v), s) => {
                                        let s = keep_const(s, owner, name, v);
                                        (Ok(v), s)
                                    },
                                    (Err(e), s) => (Err(e), s),
                                }
                            }
                        },
                        None => (
                            Err(
                                err(
                                    "undefined associated constant '"@ + owner + "::"@ + name
                                        + "'"@,
                                ),
                            ),
                            s,
                        ),
                    }
                },
                None => (
                    Err(err("undefined associated constant '"@ + owner + "::"@ + name + "'"@)),
                    s,
                ),
            }
        },
    }
}

/// Keeps the value of an associated constant.
#[verifier::opaque]
pub open spec fn keep_const(
    s: State,
    owner: Seq<char>,
    name: Seq<char>,
    v: ConstValueView,
) -> State {
    match at(s.env.const_values, owner) {
        Some(values) => {
            let known = values;
            let known = known.insert(name, v);
            State {
                env: EnvView { const_values: s.env.const_values.insert(owner, known), ..s.env },
                ..s
            }
        },
        None => {
            let fresh = Map::<Seq<char>, ConstValueView>::empty();
            let fresh = fresh.insert(name, v);
            State {
                env: EnvView { const_values: s.env.const_values.insert(owner, fresh), ..s.env },
                ..s
            }
        },
    }
}

/// Evaluates an expression at compile time: literals, constants, operators, conversions, and the
/// length of a string literal.
#[verifier::opaque]
pub open spec fn const_eval(s: State, fuel: nat, e: ExprView) -> (
    Result<ConstValueView, ErrorView>,
    State,
)
    decreases fuel, e, 2int, 0int,
{
    match e {
        ExprView::BoolLit(b, _) => (Ok(ConstValueView::Bool(b)), s),
        ExprView::IntLit(n, _) => (Ok(ConstValueView::Int(n)), s),
        ExprView::FloatLit(digits, _) => {
            (Ok(ConstValueView::Float(FloatConstView::Lit(digits))), s)
        },
        ExprView::StrLit(_, _) => {
            (Err(err("string literals are not supported in const initializers"@)), s)
        },
        ExprView::Ident(name, _) => {
            match at(s.fun.consts, name) {
                Some(c) => (Ok(c.0), s),
                None => (Err(err("undefined constant '"@ + name + "'"@)), s),
            }
        },
        ExprView::EnumLit { enum_name, variant, payload, .. } => {
            if payload is None {
                if fuel == 0 {
                    (Err(err("internal: constants are nested too deeply"@)), s)
                } else {
                    eval_associated_const(s, (fuel - 1) as nat, enum_name, variant)
                }
            } else {
                (
                    Err(
                        err_at(
                            ("expression not supported in const initializers: "@ + expr_text(e)),
                            span_of(e),
                        ),
                    ),
                    s,
                )
            }
        },
        ExprView::QualifiedCall { module, callee, args, type_args, .. } => {
            if ((args.len() as usize) == 0) && ((type_args.len() as usize) == 0) {
                if fuel == 0 {
                    (Err(err("internal: constants are nested too deeply"@)), s)
                } else {
                    eval_associated_const(s, (fuel - 1) as nat, module, callee)
                }
            } else {
                (Err(err("function calls are not supported in const initializers"@)), s)
            }
        },
        ExprView::Binary { op, lhs, rhs, .. } => {
            match const_eval(s, fuel, *lhs) {
                (Ok(l), s) => {
                    match const_eval(s, fuel, *rhs) {
                        (Ok(r), s) => const_binary(s, op, l, r, span_of(e)),
                        (Err(e), s) => (Err(e), s),
                    }
                },
                (Err(e), s) => (Err(e), s),
            }
        },
        ExprView::UnaryMinus(inner, _) => {
            match const_eval(s, fuel, *inner) {
                (Ok(v), s) => (const_minus_spec(v), s),
                (Err(e), s) => (Err(e), s),
            }
        },
        ExprView::UnaryNot(inner, _) => {
            match const_eval(s, fuel, *inner) {
                (Ok(v), s) => (const_not_spec(v), s),
                (Err(e), s) => (Err(e), s),
            }
        },
        ExprView::Cast { expr: inner, to_type: to, .. } => {
            match const_eval(s, fuel, *inner) {
                (Ok(v), s) => const_cast(s, v, to),
                (Err(e), s) => (Err(e), s),
            }
        },
        ExprView::MethodCall { expr: inner, method, args, .. } => {
            (const_method_spec(*inner, method, args.len() as usize), s)
        },
        _ => {
            (
                Err(
                    err_at(
                        ("expression not supported in const initializers: "@ + expr_text(e)),
                        span_of(e),
                    ),
                ),
                s,
            )
        },
    }
}

/// The value of an operator on two integers: arithmetic wraps around, a test gives a truth value.
pub open spec fn int_binary(
    op: BinOp,
    l: i64,
    r: i64,
    span: Span,
) -> Result<ConstValueView, ErrorView> {
    match op {
        BinOp::Add => Ok(ConstValueView::Int(l.wrapping_add(r))),
        BinOp::Sub => Ok(ConstValueView::Int(l.wrapping_sub(r))),
        BinOp::Mul => Ok(ConstValueView::Int(l.wrapping_mul(r))),
        BinOp::Div => if r == 0 {
            Err(err_at("division by zero in const expression"@, span))
        } else {
            match l.checked_div(r) {
                Some(q) => Ok(ConstValueView::Int(q)),
                None => Err(err("internal: attempt to divide with overflow"@)),
            }
        },
        BinOp::Eq => Ok(ConstValueView::Bool(l == r)),
        BinOp::Neq => Ok(ConstValueView::Bool(l != r)),
        BinOp::Lt => Ok(ConstValueView::Bool(l < r)),
        BinOp::Gt => Ok(ConstValueView::Bool(l > r)),
        BinOp::Le => Ok(ConstValueView::Bool(l <= r)),
        BinOp::Ge => Ok(ConstValueView::Bool(l >= r)),
        BinOp::And => Ok(ConstValueView::Bool(l != 0 && r != 0)),
        BinOp::Or => Ok(ConstValueView::Bool(l != 0 || r != 0)),
    }
}

/// The value of an operator on two integers.
pub fn const_int_op(
    op: BinOp,
    l: i64,
    r: i64,
    span: Span,
) -> (res: Result<ConstValue, CodegenError>)
    ensures
        res.model() == int_binary(op, l, r, span),
{
    match op {
        BinOp::Add => Ok(ConstValue::Int(l.wrapping_add(r))),
        BinOp::Sub => Ok(ConstValue::Int(l.wrapping_sub(r))),
        BinOp::Mul => Ok(ConstValue::Int(l.wrapping_mul(r))),
        BinOp::Div => if r == 0 {
            Err(CodegenError::with_span("division by zero in const expression".to_owned(), span))
        } else {
            match l.checked_div(r) {
                Some(q) => Ok(ConstValue::Int(q)),
                None => Err(
                    CodegenError::new("internal: attempt to divide with overflow".to_owned()),
                ),
            }
        },
        BinOp::Eq => Ok(ConstValue::Bool(l == r)),
        BinOp::Neq => Ok(ConstValue::Bool(l != r)),
        BinOp::Lt => Ok(ConstValue::Bool(l < r)),
        BinOp::Gt => Ok(ConstValue::Bool(l > r)),
        BinOp::Le => Ok(ConstValue::Bool(l <= r)),
        BinOp::Ge => Ok(ConstValue::Bool(l >= r)),
        BinOp::And => Ok(ConstValue::Bool(l != 0 && r != 0)),
        BinOp::Or => Ok(ConstValue::Bool(l != 0 || r != 0)),
    }
}

/// An integer negated, around the end of its range.
pub open spec fn negated(n: i64) -> i64 {
    0i64.wrapping_sub(n)
}

/// An integer negated, around the end of its range.
pub fn negate(n: i64) -> (r: i64)
    ensures
        r == negated(n),
{
    0i64.wrapping_sub(n)
}

/// An integer with all its bits inverted.
pub open spec fn inverted(n: i64) -> i64 {
    (-1 - n) as i64
}

/// An integer with all its bits inverted.
pub fn invert_bits(n: i64) -> (r: i64)
    ensures
        r == inverted(n),
{
    -1 - n
}

/// Whether two float constants are the same expression.
pub fn same_float(a: &FloatConst, b: &FloatConst) -> (r: bool)
    ensures
        r == (a@ == b@),
    decreases a,
{
    match (a, b) {
        (FloatConst::Lit(x), FloatConst::Lit(y)) => same(x, y),
        (FloatConst::FromInt(x), FloatConst::FromInt(y)) => *x == *y,
        (FloatConst::Neg(x), FloatConst::Neg(y)) => same_float(x, y),
        (FloatConst::Bin(o, x1, x2), FloatConst::Bin(p, y1, y2)) => *o == *p && same_float(x1, y1)
            && same_float(x2, y2),
        _ => false,
    }
}

/// Whether two questions on float constants are the same.
pub fn same_question(a: &FloatQuestion, b: &FloatQuestion) -> (r: bool)
    ensures
        r == (a@ == b@),
{
    match (a, b) {
        (FloatQuestion::Compare(o, x1, x2), FloatQuestion::Compare(p, y1, y2)) => *o == *p
            && same_float(x1, y1) && same_float(x2, y2),
        (FloatQuestion::ToInt(x), FloatQuestion::ToInt(y)) => same_float(x, y),
        (FloatQuestion::NonZero(x), FloatQuestion::NonZero(y)) => same_float(x, y),
        _ => false,
    }
}

/// The value of an operator on two truth values.
pub fn bool_binary(op: BinOp, l: bool, r: bool) -> (res: Result<ConstValue, CodegenError>)
    ensures
        res.model() == bool_binary_spec(op, l, r),
{
    proof {
        reveal(bool_binary_spec);
    }
    match &op {
        BinOp::Eq => {
            return Ok(ConstValue::Bool(l == r));
        },
        BinOp::Neq => {
            return Ok(ConstValue::Bool(l != r));
        },
        BinOp::And => {
            return Ok(ConstValue::Bool(l && r));
        },
        BinOp::Or => {
            return Ok(ConstValue::Bool(l || r));
        },
        _ => {
            return Err(CodegenError::new("invalid operators on bool constants".to_owned()));
        },
    }
}

/// A constant negated.
pub fn const_minus(v: &ConstValue) -> (r: Result<ConstValue, CodegenError>)
    ensures
        r.model() == const_minus_spec(v@),
{
    proof {
        reveal(const_minus_spec);
    }
    match v {
        ConstValue::Int(n) => {
            return Ok(ConstValue::Int(negate(*n)));
        },
        ConstValue::Float(f) => {
            return Ok(ConstValue::Float(FloatConst::Neg(Box::new(f.clone()))));
        },
        _ => {
            return Err(CodegenError::new("invalid operand for unary minus".to_owned()));
        },
    }
}

/// A constant inverted.
pub fn const_not(v: &ConstValue) -> (r: Result<ConstValue, CodegenError>)
    ensures
        r.model() == const_not_spec(v@),
{
    proof {
        reveal(const_not_spec);
    }
    match v {
        ConstValue::Bool(b) => {
            return Ok(ConstValue::Bool(!(*b)));
        },
        ConstValue::Int(n) => {
            return Ok(ConstValue::Int(invert_bits(*n)));
        },
        _ => {
            return Err(CodegenError::new("invalid operand for unary not".to_owned()));
        },
    }
}

/// A method call in a constant: only the length of a string literal has a value.
pub fn const_method(
    receiver: &Expr,
    method: &str,
    n: usize,
) -> (r: Result<ConstValue, CodegenError>)
    ensures
        r.model() == const_method_spec(receiver@, method@, n),
{
    proof {
        reveal(const_method_spec);
    }
    if same(method, "len") && (n == 0) {
        match receiver {
            Expr::StrLit(text, _) => {
                return Ok(ConstValue::Int(bytes_in(text) as i64));
            },
            _ => {
                return Err(
                    CodegenError::new(
                        "non-constant receiver for method call in const initializer".to_owned(),
                    ),
                );
            },
        }
    }
    Err(CodegenError::new("non-constant method call in const initializer".to_owned()))
}

impl Env {
    /// What is known of a float constant.
    pub fn find_answer(&self, q: &FloatQuestion) -> (r: Option<i64>)
        ensures
            r.model() == find_answer(self@, q@),
    {
        proof {
            reveal(find_answer);
            reveal(find_answer_each);
        }
        let known = self.float_answers.dup();
        let mut i: usize = 0;
        while i < known.len()
            invariant
                i <= known@.len(),
                find_answer_each(self@, q@, known.model(), i as nat) == find_answer(self@, q@),
            decreases known@.len() - i,
        {
            proof {
                reveal(find_answer);
                reveal(find_answer_each);
            }
            let a = &known[i];
            if same_question(&a.0, q) {
                return Some(a.1);
            }
            i += 1;
        }
        None
    }

    /// The value of an associated constant that was computed already.
    pub fn computed_const(&self, owner: &str, name: &str) -> (r: Option<ConstValue>)
        ensures
            r.model() == computed_const(self@, owner@, name@),
    {
        proof {
            reveal(computed_const);
        }
        let subject = self.const_values.get_dup(owner);
        match &subject {
            Some(values) => {
                return values.get_dup(name);
            },
            None => {
                return None;
            },
        }
    }
}

impl CodeGen {
    /// The answer to a question on float constants. Where it is not known, the question is left for
    /// whoever can compute with floats.
    pub fn ask(&mut self, q: &FloatQuestion) -> (r: Result<i64, CodegenError>)
        ensures
            (r.model(), final(self)@) == ask(old(self)@, q@),
            stays(old(self)@, final(self)@),
            r is Ok ==> settled(old(self)@, final(self)@),
            r is Ok ==> confined(old(self)@.out.cur, final(self)@.out.cur),
            r is Ok ==> same_variables(old(self)@, final(self)@),
    {
        proof {
            broadcast use crate::growth::group_growth;

            count_from(old(self)@);
            reveal(ask);
        }
        let subject = self.env.find_answer(q);
        match &subject {
            Some(n) => {
                return Ok(*n);
            },
            None => {
                let ghost past = self@.env;
                self.env.pending = Some(q.dup());
                proof {
                    assert(fields_kept(past, self@.env)) by {
                        reveal(fields_kept);
                    }
                }
                return Err(
                    CodegenError::new(
                        "internal: the value of a float constant has to be known".to_owned(),
                    ),
                );
            },
        }
    }

    /// The value of an operator on two floats.
    pub fn float_binary(
        &mut self,
        op: BinOp,
        l: &FloatConst,
        r: &FloatConst,
    ) -> (res: Result<ConstValue, CodegenError>)
        ensures
            (res.model(), final(self)@) == float_binary(old(self)@, op, l@, r@),
            stays(old(self)@, final(self)@),
            res is Ok ==> settled(old(self)@, final(self)@),
            res is Ok ==> confined(old(self)@.out.cur, final(self)@.out.cur),
            res is Ok ==> same_variables(old(self)@, final(self)@),
    {
        proof {
            broadcast use crate::growth::group_growth;

            count_from(old(self)@);
            reveal(float_binary);
        }
        match &op {
            BinOp::Add | BinOp::Sub | BinOp::Mul | BinOp::Div => {
                return Ok(
                    ConstValue::Float(
                        FloatConst::Bin(op, Box::new(l.clone()), Box::new(r.clone())),
                    ),
                );
            },
            BinOp::And | BinOp::Or => {
                return Err(CodegenError::new("invalid operators on float constants".to_owned()));
            },
            _ => {
                let n: i64 = match self.ask(&FloatQuestion::Compare(op, l.clone(), r.clone())) {
                    Ok(v) => v,
                    Err(e) => {
                        return Err(e);
                    },
                };
                return Ok(ConstValue::Bool(n != 0));
            },
        }
    }

    /// The value of an operator on two constants.
    pub fn const_binary(
        &mut self,
        op: BinOp,
        l: &ConstValue,
        r: &ConstValue,
        span: Span,
    ) -> (res: Result<ConstValue, CodegenError>)
        ensures
            (res.model(), final(self)@) == const_binary(old(self)@, op, l@, r@, span),
            stays(old(self)@, final(self)@),
            res is Ok ==> settled(old(self)@, final(self)@),
            res is Ok ==> confined(old(self)@.out.cur, final(self)@.out.cur),
            res is Ok ==> same_variables(old(self)@, final(self)@),
    {
        proof {
            broadcast use crate::growth::group_growth;

            count_from(old(self)@);
            reveal(const_binary);
        }
        match l {
            ConstValue::Int(a) => {
                match r {
                    ConstValue::Int(b) => {
                        return const_int_op(op, *a, *b, span);
                    },
                    _ => {
                        return Err(
                            CodegenError::new("type mismatch in const expression".to_owned()),
                        );
                    },
                }
            },
            ConstValue::Float(a) => {
                match r {
                    ConstValue::Float(b) => {
                        return self.float_binary(op, a, b);
                    },
                    _ => {
                        return Err(
                            CodegenError::new("type mismatch in const expression".to_owned()),
                        );
                    },
                }
            },
            ConstValue::Bool(a) => {
                match r {
                    ConstValue::Bool(b) => {
                        return bool_binary(op, *a, *b);
                    },
                    _ => {
                        return Err(
                            CodegenError::new("type mismatch in const expression".to_owned()),
                        );
                    },
                }
            },
        }
    }

    /// A constant converted.
    pub fn const_cast(&mut self, v: &ConstValue, to: &Type) -> (r: Result<ConstValue, CodegenError>)
        ensures
            (r.model(), final(self)@) == const_cast(old(self)@, v@, to@),
            stays(old(self)@, final(self)@),
            r is Ok ==> settled(old(self)@, final(self)@),
            r is Ok ==> confined(old(self)@.out.cur, final(self)@.out.cur),
            r is Ok ==> same_variables(old(self)@, final(self)@),
    {
        proof {
            broadcast use crate::growth::group_growth;

            count_from(old(self)@);
            reveal(const_cast);
        }
        match v {
            ConstValue::Int(n) => {
                if is_float(to) {
                    return Ok(ConstValue::Float(FloatConst::FromInt(*n)));
                }
                if matches!(to, Type::Bool { .. }) {
                    return Ok(ConstValue::Bool(*n != 0));
                }
                return Ok(v.dup());
            },
            ConstValue::Float(f) => {
                if matches!(&int_type_width(to), Some(_)) {
                    let n: i64 = match self.ask(&FloatQuestion::ToInt(f.clone())) {
                        Ok(v) => v,
                        Err(e) => {
                            return Err(e);
                        },
                    };
                    return Ok(ConstValue::Int(n));
                }
                if matches!(to, Type::Bool { .. }) {
                    let n: i64 = match self.ask(&FloatQuestion::NonZero(f.clone())) {
                        Ok(v) => v,
                        Err(e) => {
                            return Err(e);
                        },
                    };
                    return Ok(ConstValue::Bool(n != 0));
                }
                return Ok(v.dup());
            },
            ConstValue::Bool(b) => {
                if matches!(&int_type_width(to), Some(_)) {
                    return Ok(ConstValue::Int(if *b { 1 } else { 0 }));
                }
                if is_float(to) {
                    return Ok(ConstValue::Float(FloatConst::FromInt(if *b { 1 } else { 0 })));
                }
                return Ok(v.dup());
            },
        }
    }

    /// The value of an associated constant. A value that was computed once is kept.
    pub fn eval_associated_const(
        &mut self,
        fuel: usize,
        owner: &str,
        name: &str,
    ) -> (r: Result<ConstValue, CodegenError>)
        ensures
            (r.model(), final(self)@) == eval_associated_const(
                old(self)@,
                fuel as nat,
                owner@,
                name@,
            ),
            stays(old(self)@, final(self)@),
            r is Ok ==> settled(old(self)@, final(self)@),
            r is Ok ==> confined(old(self)@.out.cur, final(self)@.out.cur),
            r is Ok ==> same_variables(old(self)@, final(self)@),
        decreases fuel, owner@, 2int, 0int,
    {
        proof {
            broadcast use crate::growth::group_growth;

            count_from(old(self)@);
            reveal(eval_associated_const);
            reveal(const_eval);
        }
        let subject = self.env.computed_const(owner, name);
        match &subject {
            Some(v) => {
                return Ok(v.dup());
            },
            None => {},
        }
        let subject2 = self.env.const_defs.get_dup(owner);
        match &subject2 {
            Some(defs) => {
                let subject3 = defs.get_dup(name);
                match &subject3 {
                    Some(d) => {
                        if fuel == 0 {
                            return Err(
                                CodegenError::new(
                                    "internal: constants are nested too deeply".to_owned(),
                                ),
                            );
                        }
                        let v = match self.const_eval(fuel - 1, &d.0) {
                            Ok(v) => v,
                            Err(e) => {
                                return Err(e);
                            },
                        };
                        self.keep_const(owner, name, &v);
                        return Ok(v.dup());
                    },
                    None => {
                        return Err(
                            CodegenError::new(
                                cat3(
                                    &cat3("undefined associated constant '", owner, "::"),
                                    name,
                                    "'",
                                ),
                            ),
                        );
                    },
                }
            },
            None => {
                return Err(
                    CodegenError::new(
                        cat3(&cat3("undefined associated constant '", owner, "::"), name, "'"),
                    ),
                );
            },
        }
    }

    /// Keeps the value of an associated constant.
    pub fn keep_const(&mut self, owner: &str, name: &str, v: &ConstValue)
        ensures
            final(self)@ == keep_const(old(self)@, owner@, name@, v@),
            stays(old(self)@, final(self)@),
            settled(old(self)@, final(self)@),
            confined(old(self)@.out.cur, final(self)@.out.cur),
            same_variables(old(self)@, final(self)@),
    {
        proof {
            broadcast use crate::growth::group_growth;

            count_from(old(self)@);
            reveal(keep_const);
        }
        let subject = self.env.const_values.get_dup(owner);
        match &subject {
            Some(values) => {
                let mut known = values.dup();
                known.insert(name.to_owned(), v.dup());
                let ghost past = self@.env;
                self.env.const_values.insert(owner.to_owned(), known.dup());
                proof {
                    assert(fields_kept(past, self@.env)) by {
                        reveal(fields_kept);
                    }
                }
            },
            None => {
                let table2: Table<ConstValue> = Table::new();
                let mut fresh = table2;
                fresh.insert(name.to_owned(), v.dup());
                let ghost past2 = self@.env;
                self.env.const_values.insert(owner.to_owned(), fresh.dup());
                proof {
                    assert(fields_kept(past2, self@.env)) by {
                        reveal(fields_kept);
                    }
                }
            },
        }
    }

    /// Evaluates an expression at compile time: literals, constants, operators, conversions, and
    /// the length of a string literal.
    pub fn const_eval(&mut self, fuel: usize, e: &Expr) -> (r: Result<ConstValue, CodegenError>)
        ensures
            (r.model(), final(self)@) == const_eval(old(self)@, fuel as nat, e@),
            stays(old(self)@, final(self)@),
            r is Ok ==> settled(old(self)@, final(self)@),
            r is Ok ==> confined(old(self)@.out.cur, final(self)@.out.cur),
            r is Ok ==> same_variables(old(self)@, final(self)@),
        decreases fuel, e, 2int, 0int,
    {
        proof {
            broadcast use crate::growth::group_growth;

            count_from(old(self)@);
            reveal(const_eval);
            reveal(eval_associated_const);
        }
        match e {
            Expr::BoolLit(b, _) => {
                return Ok(ConstValue::Bool(*b));
            },
            Expr::IntLit(n, _) => {
                return Ok(ConstValue::Int(*n));
            },
            Expr::FloatLit(digits, _) => {
                return Ok(ConstValue::Float(FloatConst::Lit(digits.clone())));
            },
            Expr::StrLit(_, _) => {
                return Err(
                    CodegenError::new(
                        "string literals are not supported in const initializers".to_owned(),
                    ),
                );
            },
            Expr::Ident(name, _) => {
                let subject = self.fun.consts.get_dup(name);
                match &subject {
                    Some(c) => {
                        return Ok(c.0.dup());
                    },
                    None => {
                        return Err(CodegenError::new(cat3("undefined constant '", name, "'")));
                    },
                }
            },
            Expr::EnumLit { enum_name, variant, payload, .. } => {
                if matches!(payload, None) {
                    if fuel == 0 {
                        return Err(
                            CodegenError::new(
                                "internal: constants are nested too deeply".to_owned(),
                            ),
                        );
                    }
                    return self.eval_associated_const(fuel - 1, enum_name, variant);
                }
                return Err(
                    CodegenError::with_span(
                        cat("expression not supported in const initializers: ", &show_expr(e)),
                        e.span(),
                    ),
                );
            },
            Expr::QualifiedCall { module, callee, args, type_args, .. } => {
                proof {
                    assert(expr_seq_view(args@).len() == args@.len());
                }
                proof {
                    assert(type_seq_view(type_args@).len() == type_args@.len());
                }
                if (args.len() == 0) && (type_args.len() == 0) {
                    if fuel == 0 {
                        return Err(
                            CodegenError::new(
                                "internal: constants are nested too deeply".to_owned(),
                            ),
                        );
                    }
                    return self.eval_associated_const(fuel - 1, module, callee);
                }
                return Err(
                    CodegenError::new(
                        "function calls are not supported in const initializers".to_owned(),
                    ),
                );
            },
            Expr::Binary { op, lhs, rhs, .. } => {
                let l = match self.const_eval(fuel, lhs) {
                    Ok(v) => v,
                    Err(e) => {
                        return Err(e);
                    },
                };
                let r = match self.const_eval(fuel, rhs) {
                    Ok(v) => v,
                    Err(e) => {
                        return Err(e);
                    },
                };
                return self.const_binary(*op, &l, &r, e.span());
            },
            Expr::UnaryMinus(inner, _) => {
                let v = match self.const_eval(fuel, inner) {
                    Ok(v) => v,
                    Err(e) => {
                        return Err(e);
                    },
                };
                return const_minus(&v);
            },
            Expr::UnaryNot(inner, _) => {
                let v = match self.const_eval(fuel, inner) {
                    Ok(v) => v,
                    Err(e) => {
                        return Err(e);
                    },
                };
                return const_not(&v);
            },
            Expr::Cast { expr: inner, to_type: to, .. } => {
                let v = match self.const_eval(fuel, inner) {
                    Ok(v) => v,
                    Err(e) => {
                        return Err(e);
                    },
                };
                return self.const_cast(&v, to);
            },
            Expr::MethodCall { expr: inner, method, args, .. } => {
                proof {
                    assert(expr_seq_view(args@).len() == args@.len());
                }
                return const_method(inner, method, args.len());
            },
            _ => {
                return Err(
                    CodegenError::with_span(
                        cat("expression not supported in const initializers: ", &show_expr(e)),
                        e.span(),
                    ),
                );
            },
        }
    }
}

} // verus!
