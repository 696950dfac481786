//! What a call of a generic function says of its type parameters.
use crate::ast::{Function, Param, Type};
use crate::model::{
    FunctionView, ParamView, TypeView, dup_type, param_seq_view, param_view, type_seq_view,
    type_view,
};
use crate::subst::{subst_type, substitute_type_params};
use crate::table::{Model, Table};
use crate::text::texts;
use crate::types::{infer, infer_type_mappings, names_of_params, param_names};
use vstd::prelude::*;

verus! {

/// What explicit type arguments say: each names the type of its parameter, but for `_`.
#[verifier::opaque]
pub open spec fn explicit_args(
    names: Seq<Seq<char>>,
    tys: Seq<TypeView>,
) -> Map<Seq<char>, TypeView>
    decreases tys.len(),
{
    if tys.len() == 0 {
        Map::empty()
    } else {
        let known = explicit_args(names, tys.drop_last());
        let i = tys.len() - 1;
        if i < names.len() && !(tys[i] is Infer) {
            known.insert(names[i], tys[i])
        } else {
            known
        }
    }
}

/// What is known after one argument was looked at for each parameter from `i` on that is not known
/// yet.
#[verifier::opaque]
pub open spec fn learn_missing(
    p: TypeView,
    a: TypeView,
    names: Seq<Seq<char>>,
    i: int,
    known: Map<Seq<char>, TypeView>,
) -> Map<Seq<char>, TypeView>
    decreases names.len() - i,
{
    if i < 0 || i >= names.len() {
        known
    } else if known.contains_key(names[i]) {
        learn_missing(p, a, names, i + 1, known)
    } else {
        learn_missing(p, a, names, i + 1, infer(p, a, names, known))
    }
}

/// What is known after the arguments from `i` on were looked at.
#[verifier::opaque]
pub open spec fn learn(
    ps: Seq<ParamView>,
    args: Seq<TypeView>,
    names: Seq<Seq<char>>,
    i: int,
    known: Map<Seq<char>, TypeView>,
) -> Map<Seq<char>, TypeView>
    decreases ps.len() - i,
{
    if i < 0 || i >= ps.len() || i >= args.len() {
        known
    } else {
        learn(ps, args, names, i + 1, learn_missing(ps[i].ty, args[i], names, 0, known))
    }
}

/// The types of the parameters, as far as they are known; `i32` for the others.
#[verifier::opaque]
pub open spec fn known_or_i32(names: Seq<Seq<char>>, known: Map<Seq<char>, TypeView>) -> Seq<
    TypeView,
> {
    Seq::new(
        names.len(),
        |i: int|
            if known.contains_key(names[i]) {
                known[names[i]]
            } else {
                TypeView::I32
            },
    )
}

/// The return type of a generic function in a call.
#[verifier::opaque]
pub open spec fn return_type_in(
    f: FunctionView,
    tys: Seq<TypeView>,
    args: Seq<TypeView>,
) -> TypeView {
    let names = param_names(f.type_params);
    let known = learn(f.params, args, names, 0, explicit_args(names, tys));
    match f.return_type {
        Some(t) => subst_type(t, names, known_or_i32(names, known)),
        None => TypeView::Unit,
    }
}

/// What explicit type arguments say of the parameters.
pub fn take_explicit(names: &Vec<String>, tys: &Vec<Type>) -> (r: Table<Type>)
    ensures
        r@ == explicit_args(texts(names@), type_seq_view(tys@)),
{
    proof {
        reveal(explicit_args);
    }
    let ghost all = type_seq_view(tys@);
    let mut known: Table<Type> = Table::new();
    let mut i: usize = 0;
    while i < tys.len()
        invariant
            i <= tys@.len(),
            all == type_seq_view(tys@),
            known@ == explicit_args(texts(names@), all.take(i as int)),
        decreases tys@.len() - i,
    {
        proof {
            reveal(explicit_args);
        }
        proof {
            let t = all.take(i + 1);
            assert(t.drop_last() =~= all.take(i as int));
            assert(t[i as int] == type_view(tys@[i as int]));
        }
        if i < names.len() {
            match &tys[i] {
                Type::Infer => {},
                t => known.insert(names[i].clone(), dup_type(t)),
            }
        }
        i += 1;
    }
    proof {
        assert(all.take(i as int) =~= all);
    }
    known
}

fn learn_missing_names(p: &Type, a: &Type, names: &Vec<String>, known: &mut Table<Type>)
    ensures
        final(known)@ == learn_missing(p@, a@, texts(names@), 0, old(known)@),
{
    proof {
        reveal(learn_missing);
    }
    let mut i: usize = 0;
    while i < names.len()
        invariant
            i <= names@.len(),
            learn_missing(p@, a@, texts(names@), i as int, known@) == learn_missing(
                p@,
                a@,
                texts(names@),
                0,
                old(known)@,
            ),
        decreases names@.len() - i,
    {
        proof {
            reveal(learn_missing);
        }
        if !known.contains_key(&names[i]) {
            infer_type_mappings(p, a, names, known);
        }
        i += 1;
    }
}

/// Learns of type parameters from the arguments.
pub fn learn_from_args(
    ps: &Vec<Param>,
    args: &Vec<Type>,
    names: &Vec<String>,
    known: &mut Table<Type>,
)
    ensures
        final(known)@ == learn(
            param_seq_view(ps@),
            type_seq_view(args@),
            texts(names@),
            0,
            old(known)@,
        ),
{
    proof {
        reveal(learn);
    }
    let mut i: usize = 0;
    while i < ps.len() && i < args.len()
        invariant
            i <= ps@.len(),
            learn(param_seq_view(ps@), type_seq_view(args@), texts(names@), i as int, known@)
                == learn(param_seq_view(ps@), type_seq_view(args@), texts(names@), 0, old(known)@),
        decreases ps@.len() - i,
    {
        proof {
            reveal(learn);
        }
        proof {
            assert(param_seq_view(ps@)[i as int] == param_view(ps@[i as int]));
            assert(type_seq_view(args@)[i as int] == type_view(args@[i as int]));
        }
        learn_missing_names(&ps[i].ty, &args[i], names, known);
        i += 1;
    }
}

/// The types of the parameters, as far as they are known; `i32` for the others.
pub fn known_types(names: &Vec<String>, known: &Table<Type>) -> (r: Vec<Type>)
    ensures
        type_seq_view(r@) == known_or_i32(texts(names@), known@),
{
    proof {
        reveal(known_or_i32);
    }
    let mut r: Vec<Type> = Vec::new();
    let mut i: usize = 0;
    while i < names.len()
        invariant
            i <= names@.len(),
            r@.len() == i,
            forall|k: int| 0 <= k < i ==> type_view(#[trigger] r@[k]) == known_or_i32(
                texts(names@),
                known@,
            )[k],
        decreases names@.len() - i,
    {
        proof {
            reveal(known_or_i32);
        }
        r.push(
            match known.get(&names[i]) {
                Some(t) => dup_type(t),
                None => Type::I32,
            },
        );
        i += 1;
    }
    proof {
        assert(type_seq_view(r@) =~= known_or_i32(texts(names@), known@));
    }
    r
}

/// The return type of a generic function in a call.
pub fn generic_return_type(f: &Function, tys: &Vec<Type>, args: &Vec<Type>) -> (r: Type)
    ensures
        r@ == return_type_in(f@, type_seq_view(tys@), type_seq_view(args@)),
{
    proof {
        reveal(return_type_in);
    }
    let names = names_of_params(&f.type_params);
    let mut known = take_explicit(&names, tys);
    learn_from_args(&f.params, args, &names, &mut known);
    match &f.return_type {
        Some(t) => substitute_type_params(t, &names, &known_types(&names, &known)),
        None => Type::Unit,
    }
}

} // verus!
