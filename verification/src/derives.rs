//! Derived traits.
use crate::ast::{StructDecl, StructField, Type};
use crate::builder::{
    add_block, begin, binary, extract, finish, go_to, insert, int_const, int_test, invert, load,
    mk_int, mk_undef, spill, undef,
};
use crate::builtins::{load_pair, two_pointers, two_pointers_spec};
use crate::growth::{
    confined, count_from, fields_kept, grown, keeps, same_variables, settled, stays,
};
use crate::ir::{BinKind, IntPred, LTy, LTyView, Val, ValView, l_ty_seq_view, val_seq_view};
use crate::lists::{first_index, lemma_first_index, lemma_no_index};
use crate::model::{
    AttributeView, StructDeclView, StructFieldView, TypeView, attribute_seq_view, attribute_view,
    dup_attribute_seq, struct_field_seq_view, struct_field_view,
};
use crate::names::{show_type, type_text};
use crate::operators::{
    add_method, add_trait, arg, arg_spec, branch_if, builtin_fn, builtin_fn_spec, declare_builtin,
    ret, type_key_or_fail, type_key_or_fail_spec,
};
use crate::places::{as_int, as_int_spec};
use crate::query::{copies, implements, lower_type};
use crate::scopes::call_fitted;
use crate::state::{CodeGen, CodegenError, Env, EnvView, ErrorView, State, err};
use crate::table::Model;
use crate::text::{cat, cat3, decimal_text, same, show_usize, texts};
use vstd::prelude::*;

verus! {

broadcast use crate::lists::group_list_views;

/// The function that carries out a trait method on a field.
#[verifier::opaque]
pub open spec fn field_fn(
    s: State,
    field: StructFieldView,
    trait_name: Seq<char>,
    method: Seq<char>,
) -> Result<Seq<char>, ErrorView> {
    match type_key_or_fail_spec(field.ty) {
        Ok(key) => {
            let f = builtin_fn_spec(trait_name, method, key);
            if s.out.decls.contains_key(f) {
                Ok(f)
            } else {
                Err(
                    err(
                        "internal: "@ + method + " function '"@ + f + "' not found for field '"@
                            + field.name + "'"@,
                    ),
                )
            }
        },
        Err(e) => Err(e),
    }
}

/// The machine type of a struct whose traits are derived.
#[verifier::opaque]
pub open spec fn declared_struct(s: EnvView, name: Seq<char>) -> Result<LTyView, ErrorView> {
    if s.struct_types.contains(name) {
        Ok(LTyView::Named(name))
    } else {
        Err(err("struct type '"@ + name + "' not declared"@))
    }
}

/// A field of a struct value.
#[verifier::opaque]
pub open spec fn field_of(
    s: State,
    v: ValView,
    i: u32,
    name: Seq<char>,
) -> (Result<ValView, ErrorView>, State) {
    let (got, s) = extract(s, v, i);
    match got {
        Some(x) => (Ok(x), s),
        None => {
            (
                Err(
                    err(
                        "failed to extract field '"@ + name
                            + "': Aggregate extract index out of range"@,
                    ),
                ),
                s,
            )
        },
    }
}

/// A struct value with a field set.
#[verifier::opaque]
pub open spec fn with_field(
    s: State,
    agg: ValView,
    v: ValView,
    i: u32,
    name: Seq<char>,
) -> (Result<ValView, ErrorView>, State) {
    let (got, s) = insert(s, agg, v, i);
    match got {
        Some(x) => (Ok(x), s),
        None => {
            (
                Err(
                    err(
                        "failed to insert field '"@ + name
                            + "': Aggregate extract index out of range"@,
                    ),
                ),
                s,
            )
        },
    }
}

/// A struct value of the default values of its fields.
#[verifier::opaque]
pub open spec fn default_fields(
    s: State,
    fields: Seq<StructFieldView>,
    lty: LTyView,
) -> (Result<ValView, ErrorView>, State) {
    let agg = undef(lty);
    default_fields_each(s, fields, agg, 0)
}

/// [`default_fields`] from element `i` on.
#[verifier::opaque]
pub open spec fn default_fields_each(
    s: State,
    fields: Seq<StructFieldView>,
    agg: ValView,
    i: nat,
) -> (Result<ValView, ErrorView>, State)
    decreases fields.len() - i,
{
    if i < fields.len() {
        let field = fields[i as int];
        match field_fn(s, field, "Default"@, "default"@) {
            Ok(f) => {
                match call_fitted(s, f, Seq::<ValView>::empty()) {
                    (Ok(v), s) => {
                        match with_field(s, agg, v, ((i as usize) as u32), field.name) {
                            (Ok(more), s) => {
                                let agg = more;
                                default_fields_each(s, fields, agg, i + 1)
                            },
                            (Err(e), s) => (Err(e), s),
                        }
                    },
                    (Err(e), s) => (Err(e), s),
                }
            },
            Err(e) => (Err(e), s),
        }
    } else {
        (Ok(agg), s)
    }
}

/// Derives `Default`: the default value of every field.
#[verifier::opaque]
pub open spec fn generate_derive_default(
    s: State,
    decl: StructDeclView,
) -> (Result<(), ErrorView>, State) {
    let f = builtin_fn_spec("Default"@, "default"@, decl.name);
    match declared_struct(s.env, decl.name) {
        Ok(lty) => {
            if s.out.decls.contains_key(f) {
                (Ok(()), s)
            } else {
                let s = declare_builtin(s, f, Seq::<LTyView>::empty(), lty);
                let s = begin(s, f);
                match default_fields(s, decl.fields, lty) {
                    (Ok(v), s) => {
                        match ret(s, v) {
                            (Ok(_), s) => {
                                let s = finish(s);
                                let s = add_method(s, decl.name, "default"@, f);
                                (Ok(()), s)
                            },
                            (Err(e), s) => (Err(e), s),
                        }
                    },
                    (Err(e), s) => (Err(e), s),
                }
            }
        },
        Err(e) => (Err(e), s),
    }
}

/// A struct value of the clones of the fields of another one.
#[verifier::opaque]
pub open spec fn clone_fields(
    s: State,
    fields: Seq<StructFieldView>,
    v: ValView,
    lty: LTyView,
) -> (Result<ValView, ErrorView>, State) {
    let agg = undef(lty);
    clone_fields_each(s, fields, v, agg, 0)
}

/// [`clone_fields`] from element `i` on.
#[verifier::opaque]
pub open spec fn clone_fields_each(
    s: State,
    fields: Seq<StructFieldView>,
    v: ValView,
    agg: ValView,
    i: nat,
) -> (Result<ValView, ErrorView>, State)
    decreases fields.len() - i,
{
    if i < fields.len() {
        let field = fields[i as int];
        match field_of(s, v, ((i as usize) as u32), field.name) {
            (Ok(x), s) => {
                match field_fn(s, field, "Clone"@, "clone"@) {
                    Ok(f) => {
                        match lower_type(s.env, field.ty) {
                            Ok(field_lty) => {
                                let (p, s) = spill(s, field_lty, x);
                                match call_fitted(s, f, seq![p]) {
                                    (Ok(c), s) => {
                                        match with_field(
                                            s,
                                            agg,
                                            c,
                                            ((i as usize) as u32),
                                            field.name,
                                        ) {
                                            (Ok(more), s) => {
                                                let agg = more;
                                                clone_fields_each(s, fields, v, agg, i + 1)
                                            },
                                            (Err(e), s) => (Err(e), s),
                                        }
                                    },
                                    (Err(e), s) => (Err(e), s),
                                }
                            },
                            Err(e) => (Err(e), s),
                        }
                    },
                    Err(e) => (Err(e), s),
                }
            },
            (Err(e), s) => (Err(e), s),
        }
    } else {
        (Ok(agg), s)
    }
}

/// Derives `Clone`: a clone of every field.
#[verifier::opaque]
pub open spec fn generate_derive_clone(
    s: State,
    decl: StructDeclView,
) -> (Result<(), ErrorView>, State) {
    let f = builtin_fn_spec("Clone"@, "clone"@, decl.name);
    match declared_struct(s.env, decl.name) {
        Ok(lty) => {
            if s.out.decls.contains_key(f) {
                (Ok(()), s)
            } else {
                let s = declare_builtin(s, f, seq![LTyView::Ptr], lty);
                let s = begin(s, f);
                let (v, s) = load(s, lty, arg_spec(0, LTyView::Ptr));
                match clone_fields(s, decl.fields, v, lty) {
                    (Ok(r), s) => {
                        match ret(s, r) {
                            (Ok(_), s) => {
                                let s = finish(s);
                                let s = add_method(s, decl.name, "clone"@, f);
                                (Ok(()), s)
                            },
                            (Err(e), s) => (Err(e), s),
                        }
                    },
                    (Err(e), s) => (Err(e), s),
                }
            }
        },
        Err(e) => (Err(e), s),
    }
}

/// Calls a trait method on a field of two struct values.
#[verifier::opaque]
pub open spec fn call_on_fields(
    s: State,
    field: StructFieldView,
    a: ValView,
    b: ValView,
    i: u32,
    trait_name: Seq<char>,
    method: Seq<char>,
) -> (Result<ValView, ErrorView>, State) {
    match field_of(s, a, i, field.name) {
        (Ok(x), s) => {
            match field_of(s, b, i, field.name) {
                (Ok(y), s) => {
                    match field_fn(s, field, trait_name, method) {
                        Ok(f) => {
                            match lower_type(s.env, field.ty) {
                                Ok(lty) => {
                                    let (p, s) = spill(s, lty, x);
                                    let (q, s) = spill(s, lty, y);
                                    match call_fitted(s, f, seq![p, q]) {
                                        (Ok(c), s) => (as_int_spec(c), s),
                                        (Err(e), s) => (Err(e), s),
                                    }
                                },
                                Err(e) => (Err(e), s),
                            }
                        },
                        Err(e) => (Err(e), s),
                    }
                },
                (Err(e), s) => (Err(e), s),
            }
        },
        (Err(e), s) => (Err(e), s),
    }
}

/// Whether all fields of two struct values are equal.
#[verifier::opaque]
pub open spec fn equal_fields(
    s: State,
    fields: Seq<StructFieldView>,
    a: ValView,
    b: ValView,
) -> (Result<ValView, ErrorView>, State) {
    let all_equal = int_const(1, 1);
    equal_fields_each(s, fields, a, b, all_equal, 0)
}

/// [`equal_fields`] from element `i` on.
#[verifier::opaque]
pub open spec fn equal_fields_each(
    s: State,
    fields: Seq<StructFieldView>,
    a: ValView,
    b: ValView,
    all_equal: ValView,
    i: nat,
) -> (Result<ValView, ErrorView>, State)
    decreases fields.len() - i,
{
    if i < fields.len() {
        let field = fields[i as int];
        match call_on_fields(s, field, a, b, ((i as usize) as u32), "Eq"@, "eq"@) {
            (Ok(c), s) => {
                let (got3, s) = binary(s, BinKind::And, all_equal, c);
                let all_equal = got3;
                equal_fields_each(s, fields, a, b, all_equal, i + 1)
            },
            (Err(e), s) => (Err(e), s),
        }
    } else {
        (Ok(all_equal), s)
    }
}

/// The derived `Eq::eq`.
#[verifier::opaque]
pub open spec fn derive_eq(
    s: State,
    decl: StructDeclView,
    f: Seq<char>,
    lty: LTyView,
) -> (Result<(), ErrorView>, State) {
    if !s.out.decls.contains_key(f) {
        let s = declare_builtin(s, f, two_pointers_spec(), LTyView::Int(1));
        let s = begin(s, f);
        let ((a, b), s) = load_pair(s, lty);
        match equal_fields(s, decl.fields, a, b) {
            (Ok(r), s) => {
                match ret(s, r) {
                    (Ok(_), s) => {
                        let s = finish(s);
                        let s = add_method(s, decl.name, "eq"@, f);
                        (Ok(()), s)
                    },
                    (Err(e), s) => (Err(e), s),
                }
            },
            (Err(e), s) => (Err(e), s),
        }
    } else {
        let s = add_method(s, decl.name, "eq"@, f);
        (Ok(()), s)
    }
}

/// The derived `Eq::ne`: that `eq` does not hold.
#[verifier::opaque]
pub open spec fn derive_ne(
    s: State,
    decl: StructDeclView,
    eq: Seq<char>,
    f: Seq<char>,
    lty: LTyView,
) -> (Result<(), ErrorView>, State) {
    if !s.out.decls.contains_key(f) {
        let s = declare_builtin(s, f, two_pointers_spec(), LTyView::Int(1));
        let s = begin(s, f);
        let ((a, b), s) = load_pair(s, lty);
        let (p, s) = spill(s, lty, a);
        let (q, s) = spill(s, lty, b);
        match call_fitted(s, eq, seq![p, q]) {
            (Ok(e), s) => {
                match as_int_spec(e) {
                    Ok(c) => {
                        let (d, s) = invert(s, c);
                        match ret(s, d) {
                            (Ok(_), s) => {
                                let s = finish(s);
                                let s = add_method(s, decl.name, "ne"@, f);
                                (Ok(()), s)
                            },
                            (Err(e), s) => (Err(e), s),
                        }
                    },
                    Err(e) => (Err(e), s),
                }
            },
            (Err(e), s) => (Err(e), s),
        }
    } else {
        let s = add_method(s, decl.name, "ne"@, f);
        (Ok(()), s)
    }
}

/// Derives `Eq`: all fields are equal.
#[verifier::opaque]
pub open spec fn generate_derive_eq(
    s: State,
    decl: StructDeclView,
) -> (Result<(), ErrorView>, State) {
    match declared_struct(s.env, decl.name) {
        Ok(lty) => {
            let eq = builtin_fn_spec("Eq"@, "eq"@, decl.name);
            match derive_eq(s, decl, eq, lty) {
                (Ok(_), s) => derive_ne(s, decl, eq, builtin_fn_spec("Eq"@, "ne"@, decl.name), lty),
                (Err(e), s) => (Err(e), s),
            }
        },
        Err(e) => (Err(e), s),
    }
}

/// Orders two struct values by one field; where it does not decide, the next one does. Gives the
/// block that goes on.
#[verifier::opaque]
pub open spec fn ordered_field(
    s: State,
    field: StructFieldView,
    i: usize,
    is_last: bool,
    lty: LTyView,
    pa: ValView,
    pb: ValView,
    current: usize,
    method: Seq<char>,
    trait_name: Seq<char>,
) -> (Result<usize, ErrorView>, State) {
    let (next_bb, s) = if is_last {
        let next_bb = current;
        (next_bb, s)
    } else {
        let (next_bb, s) = add_block(s, ("field_"@ + decimal_text(i as nat)));
        (next_bb, s)
    };
    let s = go_to(s, current);
    let (a, s) = load(s, lty, pa);
    let (b, s) = load(s, lty, pb);
    match call_on_fields(s, field, a, b, i as u32, trait_name, method) {
        (Ok(c), s) => {
            if is_last {
                match ret(s, c) {
                    (Ok(_), s) => (Ok(current), s),
                    (Err(e), s) => (Err(e), s),
                }
            } else {
                let (t, s) = int_test(s, IntPred::Ne, c, int_const(32, 0));
                let (ret_bb, s) = add_block(s, ("ret_field_"@ + decimal_text(i as nat)));
                let s = go_to(s, ret_bb);
                match ret(s, c) {
                    (Ok(_), s) => {
                        let s = go_to(s, current);
                        let s = branch_if(s, t, ret_bb, next_bb);
                        (Ok(next_bb), s)
                    },
                    (Err(e), s) => (Err(e), s),
                }
            }
        },
        (Err(e), s) => (Err(e), s),
    }
}

/// Orders two struct values by their fields, the first one first.
#[verifier::opaque]
pub open spec fn ordered_fields(
    s: State,
    fields: Seq<StructFieldView>,
    lty: LTyView,
    pa: ValView,
    pb: ValView,
    start: usize,
    method: Seq<char>,
    trait_name: Seq<char>,
) -> (Result<(), ErrorView>, State) {
    let current = start;
    ordered_fields_each(s, fields, lty, pa, pb, method, trait_name, current, 0)
}

/// [`ordered_fields`] from element `i` on.
#[verifier::opaque]
pub open spec fn ordered_fields_each(
    s: State,
    fields: Seq<StructFieldView>,
    lty: LTyView,
    pa: ValView,
    pb: ValView,
    method: Seq<char>,
    trait_name: Seq<char>,
    current: usize,
    i: nat,
) -> (Result<(), ErrorView>, State)
    decreases fields.len() - i,
{
    if i < fields.len() {
        let field = fields[i as int];
        match ordered_field(
            s,
            field,
            i as usize,
            ((((i as usize) + 1) as usize) == (fields.len() as usize)),
            lty,
            pa,
            pb,
            current,
            method,
            trait_name,
        ) {
            (Ok(next_bb), s) => {
                let current = next_bb;
                ordered_fields_each(s, fields, lty, pa, pb, method, trait_name, current, i + 1)
            },
            (Err(e), s) => (Err(e), s),
        }
    } else {
        (Ok(()), s)
    }
}

/// Derives `Ord`: the first field that differs decides.
#[verifier::opaque]
pub open spec fn generate_derive_ord(
    s: State,
    decl: StructDeclView,
    trait_name: Seq<char>,
    method: Seq<char>,
) -> (Result<(), ErrorView>, State) {
    match declared_struct(s.env, decl.name) {
        Ok(lty) => {
            let f = builtin_fn_spec(trait_name, method, decl.name);
            if s.out.decls.contains_key(f) {
                (Ok(()), s)
            } else {
                let s = declare_builtin(s, f, two_pointers_spec(), LTyView::Int(32));
                let s = begin(s, f);
                let ((a, b), s) = load_pair(s, lty);
                let (pa, s) = spill(s, lty, a);
                let (pb, s) = spill(s, lty, b);
                if (decl.fields.len() as usize) == 0 {
                    match ret(s, int_const(32, 0)) {
                        (Ok(_), s) => {
                            let s = finish(s);
                            let s = add_method(s, decl.name, method, f);
                            (Ok(()), s)
                        },
                        (Err(e), s) => (Err(e), s),
                    }
                } else {
                    match ordered_fields(
                        s,
                        decl.fields,
                        lty,
                        pa,
                        pb,
                        s.out.cur.at,
                        method,
                        trait_name,
                    ) {
                        (Ok(_), s) => {
                            let s = finish(s);
                            let s = add_method(s, decl.name, method, f);
                            (Ok(()), s)
                        },
                        (Err(e), s) => (Err(e), s),
                    }
                }
            }
        },
        Err(e) => (Err(e), s),
    }
}

/// Derives `Copy`, which every field has to be, and which needs `Clone`.
#[verifier::opaque]
pub open spec fn derive_copy(s: State, decl: StructDeclView) -> (Result<(), ErrorView>, State) {
    match check_copy_fields(s.env, decl.name, decl.fields) {
        Ok(_) => {
            if !(implements(s.env, TypeView::Struct(decl.name), "Clone"@)) {
                (
                    Err(
                        err(
                            "cannot derive Copy for struct '"@ + decl.name
                                + "': Copy requires Clone to be implemented or derived"@,
                        ),
                    ),
                    s,
                )
            } else {
                let s = State {
                    env: EnvView { copy_types: s.env.copy_types.insert(decl.name), ..s.env },
                    ..s
                };
                let s = add_trait(s, decl.name, "Copy"@);
                (Ok(()), s)
            }
        },
        Err(e) => (Err(e), s),
    }
}

/// Every field of a struct that is Copy has to be Copy.
#[verifier::opaque]
pub open spec fn check_copy_fields(
    s: EnvView,
    name: Seq<char>,
    fields: Seq<StructFieldView>,
) -> Result<(), ErrorView> {
    match first_index(fields, check_copy_fields_here(s)) {
        Some(i) => {
            let f = fields[i];
            Err(
                err(
                    "cannot derive Copy for struct '"@ + name + "': field '"@ + f.name + "' of type "@ + type_text(f.ty) + " is not Copy"@,
                ),
            )
        },
        None => Ok(()),
    }
}

/// Whether [`check_copy_fields`] stops at an element.
pub open spec fn check_copy_fields_here(s: EnvView) -> spec_fn(StructFieldView) -> bool {
    |f: StructFieldView| !copies(s, f.ty)
}

/// Every field of a struct has to implement a trait that is derived for it.
#[verifier::opaque]
pub open spec fn check_derived_fields(
    s: EnvView,
    name: Seq<char>,
    fields: Seq<StructFieldView>,
    trait_name: Seq<char>,
) -> Result<(), ErrorView> {
    match first_index(fields, check_derived_fields_here(s, trait_name)) {
        Some(i) => {
            let f = fields[i];
            Err(
                err(
                    "cannot derive trait '"@ + trait_name + "' for struct '"@ + name + "': field '"@ + f.name + "' of type "@ + type_text(f.ty) + " does not implement "@ + trait_name,
                ),
            )
        },
        None => Ok(()),
    }
}

/// Whether [`check_derived_fields`] stops at an element.
pub open spec fn check_derived_fields_here(
    s: EnvView,
    trait_name: Seq<char>,
) -> spec_fn(StructFieldView) -> bool {
    |f: StructFieldView| !implements(s, f.ty, trait_name)
}

/// Derives a trait for a struct.
#[verifier::opaque]
pub open spec fn process_derive_trait(
    s: State,
    decl: StructDeclView,
    trait_name: Seq<char>,
) -> (Result<(), ErrorView>, State) {
    if trait_name == "Drop"@ {
        (Err(err("cannot derive Drop for struct '"@ + decl.name + "', use impl Drop"@)), s)
    } else if trait_name == "Copy"@ {
        derive_copy(s, decl)
    } else {
        match check_derived_fields(s.env, decl.name, decl.fields, trait_name) {
            Ok(_) => {
                match generate_derived(s, decl, trait_name) {
                    (Ok(_), s) => {
                        let s = add_trait(s, decl.name, trait_name);
                        (Ok(()), s)
                    },
                    (Err(e), s) => (Err(e), s),
                }
            },
            Err(e) => (Err(e), s),
        }
    }
}

/// The methods of a derived trait.
#[verifier::opaque]
pub open spec fn generate_derived(
    s: State,
    decl: StructDeclView,
    trait_name: Seq<char>,
) -> (Result<(), ErrorView>, State) {
    if trait_name == "Default"@ {
        generate_derive_default(s, decl)
    } else if trait_name == "Clone"@ {
        generate_derive_clone(s, decl)
    } else if trait_name == "Eq"@ {
        generate_derive_eq(s, decl)
    } else if trait_name == "Ord"@ {
        generate_derive_ord(s, decl, "Ord"@, "cmp"@)
    } else {
        (
            Err(
                err(
                    "cannot derive unknown trait '"@ + trait_name + "' for struct '"@ + decl.name
                        + "'"@,
                ),
            ),
            s,
        )
    }
}

/// Derives traits for a struct.
#[verifier::opaque]
pub open spec fn derive_all(
    s: State,
    decl: StructDeclView,
    names: Seq<Seq<char>>,
) -> (Result<(), ErrorView>, State) {
    derive_all_each(s, decl, names, 0)
}

/// [`derive_all`] from element `i` on.
#[verifier::opaque]
pub open spec fn derive_all_each(
    s: State,
    decl: StructDeclView,
    names: Seq<Seq<char>>,
    i: nat,
) -> (Result<(), ErrorView>, State)
    decreases names.len() - i,
{
    if i < names.len() {
        let n = names[i as int];
        match process_derive_trait(s, decl, n) {
            (Ok(_), s) => derive_all_each(s, decl, names, i + 1),
            (Err(e), s) => (Err(e), s),
        }
    } else {
        (Ok(()), s)
    }
}

/// Derives the traits in the `derive` attributes of a struct.
#[verifier::opaque]
pub open spec fn process_struct_derives(
    s: State,
    decl: StructDeclView,
) -> (Result<(), ErrorView>, State) {
    let attribs = decl.attribs;
    process_struct_derives_each(s, decl, attribs, 0)
}

/// [`process_struct_derives`] from element `i` on.
#[verifier::opaque]
pub open spec fn process_struct_derives_each(
    s: State,
    decl: StructDeclView,
    attribs: Seq<AttributeView>,
    i: nat,
) -> (Result<(), ErrorView>, State)
    decreases attribs.len() - i,
{
    if i < attribs.len() {
        let a = attribs[i as int];
        if a.name == "derive"@ {
            match derive_all(s, decl, a.args) {
                (Ok(_), s) => process_struct_derives_each(s, decl, attribs, i + 1),
                (Err(e), s) => (Err(e), s),
            }
        } else {
            process_struct_derives_each(s, decl, attribs, i + 1)
        }
    } else {
        (Ok(()), s)
    }
}

impl Env {
    /// The machine type of a struct whose traits are derived.
    pub fn declared_struct(&self, name: &str) -> (r: Result<LTy, CodegenError>)
        ensures
            r.model() == declared_struct(self@, name@),
    {
        proof {
            reveal(declared_struct);
        }
        if self.struct_types.contains(name) {
            return Ok(LTy::Named(name.to_owned()));
        }
        Err(CodegenError::new(cat3("struct type '", name, "' not declared")))
    }

    /// Every field of a struct that is Copy has to be Copy.
    pub fn check_copy_fields(
        &self,
        name: &str,
        fields: &Vec<StructField>,
    ) -> (r: Result<(), CodegenError>)
        ensures
            r.model() == check_copy_fields(self@, name@, struct_field_seq_view(fields@)),
    {
        proof {
            reveal(check_copy_fields);
        }
        let mut i: usize = 0;
        while i < fields.len()
            invariant
                i <= fields@.len(),
                forall|k: int| #![trigger struct_field_seq_view(fields@)[k]] 0 <= k < i ==> !check_copy_fields_here(self@)(
                    struct_field_seq_view(fields@)[k],
                ),
            decreases fields@.len() - i,
        {
            let f = &fields[i];
            proof {
                assert(struct_field_seq_view(fields@)[i as int] == struct_field_view(fields@[i as int]));
            }
            if !self.is_copy_type(&f.ty) {
                proof {
                    reveal(check_copy_fields);
                }
                proof {
                    lemma_first_index(
                        struct_field_seq_view(fields@),
                        check_copy_fields_here(self@),
                        i as int,
                    );
                }
                return Err(
                    CodegenError::new(
                        cat3(
                            &cat3(
                                &cat3("cannot derive Copy for struct '", name, "': field '"),
                                &f.name,
                                "' of type ",
                            ),
                            &show_type(&f.ty),
                            " is not Copy",
                        ),
                    ),
                );
            }
            i += 1;
        }
        proof {
            lemma_no_index(struct_field_seq_view(fields@), check_copy_fields_here(self@));
        }
        Ok(())
    }

    /// Every field of a struct has to implement a trait that is derived for it.
    pub fn check_derived_fields(
        &self,
        name: &str,
        fields: &Vec<StructField>,
        trait_name: &str,
    ) -> (r: Result<(), CodegenError>)
        ensures
            r.model() == check_derived_fields(
                self@,
                name@,
                struct_field_seq_view(fields@),
                trait_name@,
            ),
    {
        proof {
            reveal(check_derived_fields);
        }
        let mut i: usize = 0;
        while i < fields.len()
            invariant
                i <= fields@.len(),
                forall|k: int| #![trigger struct_field_seq_view(fields@)[k]] 0 <= k < i ==> !check_derived_fields_here(self@, trait_name@)(
                    struct_field_seq_view(fields@)[k],
                ),
            decreases fields@.len() - i,
        {
            let f = &fields[i];
            proof {
                assert(struct_field_seq_view(fields@)[i as int] == struct_field_view(fields@[i as int]));
            }
            if !self.check_type_implements_trait(&f.ty, trait_name) {
                proof {
                    reveal(check_derived_fields);
                }
                proof {
                    lemma_first_index(
                        struct_field_seq_view(fields@),
                        check_derived_fields_here(self@, trait_name@),
                        i as int,
                    );
                }
                return Err(
                    CodegenError::new(
                        cat(
                            &cat3(
                                &cat3(
                                    &cat3(
                                        &cat3(
                                            "cannot derive trait '",
                                            trait_name,
                                            "' for struct '",
                                        ),
                                        name,
                                        "': field '",
                                    ),
                                    &f.name,
                                    "' of type ",
                                ),
                                &show_type(&f.ty),
                                " does not implement ",
                            ),
                            trait_name,
                        ),
                    ),
                );
            }
            i += 1;
        }
        proof {
            lemma_no_index(
                struct_field_seq_view(fields@),
                check_derived_fields_here(self@, trait_name@),
            );
        }
        Ok(())
    }
}

impl CodeGen {
    /// The function that carries out a trait method on a field.
    pub fn field_fn(
        &self,
        field: &StructField,
        trait_name: &str,
        method: &str,
    ) -> (r: Result<String, CodegenError>)
        ensures
            r.model() == field_fn(self@, field@, trait_name@, method@),
    {
        proof {
            reveal(field_fn);
        }
        let key = match type_key_or_fail(&field.ty) {
            Ok(v) => v,
            Err(e) => {
                return Err(e);
            },
        };
        let f = builtin_fn(trait_name, method, &key);
        if self.out.decls.contains_key(&f) {
            return Ok(f.clone());
        }
        Err(
            CodegenError::new(
                cat3(
                    &cat3(
                        &cat3("internal: ", method, " function '"),
                        &f,
                        "' not found for field '",
                    ),
                    &field.name,
                    "'",
                ),
            ),
        )
    }

    /// A field of a struct value.
    pub fn field_of(&mut self, v: &Val, i: u32, name: &str) -> (r: Result<Val, CodegenError>)
        ensures
            (r.model(), final(self)@) == field_of(old(self)@, v@, i, name@),
            stays(old(self)@, final(self)@),
            r is Ok ==> settled(old(self)@, final(self)@),
            r is Ok ==> confined(old(self)@.out.cur, final(self)@.out.cur),
            r is Ok ==> same_variables(old(self)@, final(self)@),
    {
        proof {
            broadcast use crate::growth::group_growth;

            count_from(old(self)@);
            reveal(field_of);
        }
        let got = self.extract(v, i);
        match &got {
            Some(x) => {
                return Ok(x.clone());
            },
            None => {
                return Err(
                    CodegenError::new(
                        cat3(
                            "failed to extract field '",
                            name,
                            "': Aggregate extract index out of range",
                        ),
                    ),
                );
            },
        }
    }

    /// A struct value with a field set.
    pub fn with_field(
        &mut self,
        agg: &Val,
        v: &Val,
        i: u32,
        name: &str,
    ) -> (r: Result<Val, CodegenError>)
        ensures
            (r.model(), final(self)@) == with_field(old(self)@, agg@, v@, i, name@),
            stays(old(self)@, final(self)@),
            r is Ok ==> settled(old(self)@, final(self)@),
            r is Ok ==> confined(old(self)@.out.cur, final(self)@.out.cur),
            r is Ok ==> same_variables(old(self)@, final(self)@),
    {
        proof {
            broadcast use crate::growth::group_growth;

            count_from(old(self)@);
            reveal(with_field);
        }
        let got = self.insert(agg, v, i);
        match &got {
            Some(x) => {
                return Ok(x.clone());
            },
            None => {
                return Err(
                    CodegenError::new(
                        cat3(
                            "failed to insert field '",
                            name,
                            "': Aggregate extract index out of range",
                        ),
                    ),
                );
            },
        }
    }

    /// A struct value of the default values of its fields.
    pub fn default_fields(
        &mut self,
        fields: &Vec<StructField>,
        lty: &LTy,
    ) -> (r: Result<Val, CodegenError>)
        ensures
            (r.model(), final(self)@) == default_fields(
                old(self)@,
                struct_field_seq_view(fields@),
                lty@,
            ),
            stays(old(self)@, final(self)@),
            r is Ok ==> settled(old(self)@, final(self)@),
            r is Ok ==> confined(old(self)@.out.cur, final(self)@.out.cur),
            r is Ok ==> same_variables(old(self)@, final(self)@),
    {
        proof {
            broadcast use crate::growth::group_growth;

            count_from(old(self)@);
            reveal(default_fields);
            reveal(default_fields_each);
        }
        let mut agg = mk_undef(lty);
        let mut i: usize = 0;
        while i < fields.len()
            invariant
                i <= fields@.len(),
                default_fields_each(
                    self@,
                    struct_field_seq_view(fields@),
                    agg@,
                    i as nat,
                ) == default_fields(old(self)@, struct_field_seq_view(fields@), lty@),
                stays(old(self)@, self@),
                settled(old(self)@, self@),
                confined(old(self)@.out.cur, self@.out.cur),
                same_variables(old(self)@, self@),
            decreases fields@.len() - i,
        {
            proof {
                broadcast use crate::growth::group_growth;

                count_from(old(self)@);
                reveal(default_fields);
                reveal(default_fields_each);
            }
            let field = &fields[i];
            proof {
                assert(struct_field_seq_view(fields@)[i as int] == struct_field_view(fields@[i as int]));
            }
            let f = match self.field_fn(field, "Default", "default") {
                Ok(v) => v,
                Err(e) => {
                    return Err(e);
                },
            };
            let items: Vec<Val> = Vec::new();
            proof {
                assert(val_seq_view(items@) =~= Seq::<ValView>::empty());
            }
            let v = match self.call_fitted(&f, &items) {
                Ok(v) => v,
                Err(e) => {
                    return Err(e);
                },
            };
            let more = match self.with_field(&agg, &v, i as u32, &field.name) {
                Ok(v) => v,
                Err(e) => {
                    return Err(e);
                },
            };
            agg = more.clone();
            i += 1;
        }
        Ok(agg.clone())
    }

    /// Derives `Default`: the default value of every field.
    pub fn generate_derive_default(&mut self, decl: &StructDecl) -> (r: Result<(), CodegenError>)
        ensures
            (r.model(), final(self)@) == generate_derive_default(old(self)@, decl@),
            keeps(old(self)@, final(self)@),
            r is Ok ==> same_variables(old(self)@, final(self)@),
    {
        proof {
            broadcast use crate::growth::group_growth;

            count_from(old(self)@);
            reveal(generate_derive_default);
        }
        let f = builtin_fn("Default", "default", &decl.name);
        let lty = match self.env.declared_struct(&decl.name) {
            Ok(v) => v,
            Err(e) => {
                return Err(e);
            },
        };
        if self.out.decls.contains_key(&f) {
            return Ok(());
        }
        let items: Vec<LTy> = Vec::new();
        proof {
            assert(l_ty_seq_view(items@) =~= Seq::<LTyView>::empty());
        }
        self.declare_builtin(&f, &items, &lty);
        self.begin(&f);
        proof {
            count_from(self@);
        }
        let v = match self.default_fields(&decl.fields, &lty) {
            Ok(v) => v,
            Err(e) => {
                return Err(e);
            },
        };
        match self.ret(&v) {
            Ok(_) => {},
            Err(e) => {
                return Err(e);
            },
        }
        proof {
            assert(self@.out.decls.contains_key(self@.out.cur.name)) by {
                reveal(grown);
            }
        }
        self.finish();
        self.add_method(&decl.name, "default", &f);
        Ok(())
    }

    /// A struct value of the clones of the fields of another one.
    pub fn clone_fields(
        &mut self,
        fields: &Vec<StructField>,
        v: &Val,
        lty: &LTy,
    ) -> (r: Result<Val, CodegenError>)
        ensures
            (r.model(), final(self)@) == clone_fields(
                old(self)@,
                struct_field_seq_view(fields@),
                v@,
                lty@,
            ),
            stays(old(self)@, final(self)@),
            r is Ok ==> settled(old(self)@, final(self)@),
            r is Ok ==> confined(old(self)@.out.cur, final(self)@.out.cur),
            r is Ok ==> same_variables(old(self)@, final(self)@),
    {
        proof {
            broadcast use crate::growth::group_growth;

            count_from(old(self)@);
            reveal(clone_fields);
            reveal(clone_fields_each);
        }
        let mut agg = mk_undef(lty);
        let mut i: usize = 0;
        while i < fields.len()
            invariant
                i <= fields@.len(),
                clone_fields_each(
                    self@,
                    struct_field_seq_view(fields@),
                    v@,
                    agg@,
                    i as nat,
                ) == clone_fields(old(self)@, struct_field_seq_view(fields@), v@, lty@),
                stays(old(self)@, self@),
                settled(old(self)@, self@),
                confined(old(self)@.out.cur, self@.out.cur),
                same_variables(old(self)@, self@),
            decreases fields@.len() - i,
        {
            proof {
                broadcast use crate::growth::group_growth;

                count_from(old(self)@);
                reveal(clone_fields);
                reveal(clone_fields_each);
            }
            let field = &fields[i];
            proof {
                assert(struct_field_seq_view(fields@)[i as int] == struct_field_view(fields@[i as int]));
            }
            let x = match self.field_of(v, i as u32, &field.name) {
                Ok(v) => v,
                Err(e) => {
                    return Err(e);
                },
            };
            let f = match self.field_fn(field, "Clone", "clone") {
                Ok(v) => v,
                Err(e) => {
                    return Err(e);
                },
            };
            let field_lty = match self.env.type_to_llvm(&field.ty) {
                Ok(v) => v,
                Err(e) => {
                    return Err(e);
                },
            };
            let p = self.spill(&field_lty, &x);
            let mut items: Vec<Val> = Vec::new();
            let item = p.clone();
            items.push(item);
            proof {
                assert(val_seq_view(items@) =~= seq![item@]);
            }
            let c = match self.call_fitted(&f, &items) {
                Ok(v) => v,
                Err(e) => {
                    return Err(e);
                },
            };
            let more = match self.with_field(&agg, &c, i as u32, &field.name) {
                Ok(v) => v,
                Err(e) => {
                    return Err(e);
                },
            };
            agg = more.clone();
            i += 1;
        }
        Ok(agg.clone())
    }

    /// Derives `Clone`: a clone of every field.
    pub fn generate_derive_clone(&mut self, decl: &StructDecl) -> (r: Result<(), CodegenError>)
        ensures
            (r.model(), final(self)@) == generate_derive_clone(old(self)@, decl@),
            keeps(old(self)@, final(self)@),
            r is Ok ==> same_variables(old(self)@, final(self)@),
    {
        proof {
            broadcast use crate::growth::group_growth;

            count_from(old(self)@);
            reveal(generate_derive_clone);
        }
        let f = builtin_fn("Clone", "clone", &decl.name);
        let lty = match self.env.declared_struct(&decl.name) {
            Ok(v) => v,
            Err(e) => {
                return Err(e);
            },
        };
        if self.out.decls.contains_key(&f) {
            return Ok(());
        }
        let mut items: Vec<LTy> = Vec::new();
        let item = LTy::Ptr;
        items.push(item);
        proof {
            assert(l_ty_seq_view(items@) =~= seq![item@]);
        }
        self.declare_builtin(&f, &items, &lty);
        self.begin(&f);
        proof {
            count_from(self@);
        }
        let v = self.load(&lty, &arg(0, &LTy::Ptr));
        let r = match self.clone_fields(&decl.fields, &v, &lty) {
            Ok(v) => v,
            Err(e) => {
                return Err(e);
            },
        };
        match self.ret(&r) {
            Ok(_) => {},
            Err(e) => {
                return Err(e);
            },
        }
        proof {
            assert(self@.out.decls.contains_key(self@.out.cur.name)) by {
                reveal(grown);
            }
        }
        self.finish();
        self.add_method(&decl.name, "clone", &f);
        Ok(())
    }

    /// Calls a trait method on a field of two struct values.
    pub fn call_on_fields(
        &mut self,
        field: &StructField,
        a: &Val,
        b: &Val,
        i: u32,
        trait_name: &str,
        method: &str,
    ) -> (r: Result<Val, CodegenError>)
        ensures
            (r.model(), final(self)@) == call_on_fields(
                old(self)@,
                field@,
                a@,
                b@,
                i,
                trait_name@,
                method@,
            ),
            stays(old(self)@, final(self)@),
            r is Ok ==> settled(old(self)@, final(self)@),
            r is Ok ==> confined(old(self)@.out.cur, final(self)@.out.cur),
            r is Ok ==> same_variables(old(self)@, final(self)@),
    {
        proof {
            broadcast use crate::growth::group_growth;

            count_from(old(self)@);
            reveal(call_on_fields);
        }
        let x = match self.field_of(a, i, &field.name) {
            Ok(v) => v,
            Err(e) => {
                return Err(e);
            },
        };
        let y = match self.field_of(b, i, &field.name) {
            Ok(v) => v,
            Err(e) => {
                return Err(e);
            },
        };
        let f = match self.field_fn(field, trait_name, method) {
            Ok(v) => v,
            Err(e) => {
                return Err(e);
            },
        };
        let lty = match self.env.type_to_llvm(&field.ty) {
            Ok(v) => v,
            Err(e) => {
                return Err(e);
            },
        };
        let p = self.spill(&lty, &x);
        let q = self.spill(&lty, &y);
        let mut items: Vec<Val> = Vec::new();
        let item = p.clone();
        items.push(item);
        let item2 = q.clone();
        items.push(item2);
        proof {
            assert(val_seq_view(items@) =~= seq![item@, item2@]);
        }
        let c = match self.call_fitted(&f, &items) {
            Ok(v) => v,
            Err(e) => {
                return Err(e);
            },
        };
        as_int(&c)
    }

    /// Whether all fields of two struct values are equal.
    pub fn equal_fields(
        &mut self,
        fields: &Vec<StructField>,
        a: &Val,
        b: &Val,
    ) -> (r: Result<Val, CodegenError>)
        ensures
            (r.model(), final(self)@) == equal_fields(
                old(self)@,
                struct_field_seq_view(fields@),
                a@,
                b@,
            ),
            stays(old(self)@, final(self)@),
            r is Ok ==> settled(old(self)@, final(self)@),
            r is Ok ==> confined(old(self)@.out.cur, final(self)@.out.cur),
            r is Ok ==> same_variables(old(self)@, final(self)@),
    {
        proof {
            broadcast use crate::growth::group_growth;

            count_from(old(self)@);
            reveal(equal_fields);
            reveal(equal_fields_each);
        }
        let mut all_equal = mk_int(1, 1);
        let mut i: usize = 0;
        while i < fields.len()
            invariant
                i <= fields@.len(),
                equal_fields_each(
                    self@,
                    struct_field_seq_view(fields@),
                    a@,
                    b@,
                    all_equal@,
                    i as nat,
                ) == equal_fields(old(self)@, struct_field_seq_view(fields@), a@, b@),
                stays(old(self)@, self@),
                settled(old(self)@, self@),
                confined(old(self)@.out.cur, self@.out.cur),
                same_variables(old(self)@, self@),
            decreases fields@.len() - i,
        {
            proof {
                broadcast use crate::growth::group_growth;

                count_from(old(self)@);
                reveal(equal_fields);
                reveal(equal_fields_each);
            }
            let field = &fields[i];
            proof {
                assert(struct_field_seq_view(fields@)[i as int] == struct_field_view(fields@[i as int]));
            }
            let c = match self.call_on_fields(field, a, b, i as u32, "Eq", "eq") {
                Ok(v) => v,
                Err(e) => {
                    return Err(e);
                },
            };
            let got3 = self.binary(BinKind::And, &all_equal, &c);
            all_equal = got3;
            i += 1;
        }
        Ok(all_equal.clone())
    }

    /// The derived `Eq::eq`.
    pub fn derive_eq(
        &mut self,
        decl: &StructDecl,
        f: &str,
        lty: &LTy,
    ) -> (r: Result<(), CodegenError>)
        ensures
            (r.model(), final(self)@) == derive_eq(old(self)@, decl@, f@, lty@),
            keeps(old(self)@, final(self)@),
            r is Ok ==> same_variables(old(self)@, final(self)@),
    {
        proof {
            broadcast use crate::growth::group_growth;

            count_from(old(self)@);
            reveal(derive_eq);
        }
        if !self.out.decls.contains_key(f) {
            self.declare_builtin(f, &two_pointers(), &LTy::Int(1));
            self.begin(f);
            proof {
                count_from(self@);
            }
            let (a, b) = self.load_pair(lty);
            let r = match self.equal_fields(&decl.fields, &a, &b) {
                Ok(v) => v,
                Err(e) => {
                    return Err(e);
                },
            };
            match self.ret(&r) {
                Ok(_) => {},
                Err(e) => {
                    return Err(e);
                },
            }
            proof {
                assert(self@.out.decls.contains_key(self@.out.cur.name)) by {
                    reveal(grown);
                }
            }
            self.finish();
        }
        self.add_method(&decl.name, "eq", f);
        Ok(())
    }

    /// The derived `Eq::ne`: that `eq` does not hold.
    pub fn derive_ne(
        &mut self,
        decl: &StructDecl,
        eq: &str,
        f: &str,
        lty: &LTy,
    ) -> (r: Result<(), CodegenError>)
        ensures
            (r.model(), final(self)@) == derive_ne(old(self)@, decl@, eq@, f@, lty@),
            keeps(old(self)@, final(self)@),
            r is Ok ==> same_variables(old(self)@, final(self)@),
    {
        proof {
            broadcast use crate::growth::group_growth;

            count_from(old(self)@);
            reveal(derive_ne);
        }
        if !self.out.decls.contains_key(f) {
            self.declare_builtin(f, &two_pointers(), &LTy::Int(1));
            self.begin(f);
            proof {
                count_from(self@);
            }
            let (a, b) = self.load_pair(lty);
            let p = self.spill(lty, &a);
            let q = self.spill(lty, &b);
            let mut items: Vec<Val> = Vec::new();
            let item = p.clone();
            items.push(item);
            let item2 = q.clone();
            items.push(item2);
            proof {
                assert(val_seq_view(items@) =~= seq![item@, item2@]);
            }
            let e = match self.call_fitted(eq, &items) {
                Ok(v) => v,
                Err(e) => {
                    return Err(e);
                },
            };
            let c = match as_int(&e) {
                Ok(v) => v,
                Err(e) => {
                    return Err(e);
                },
            };
            let d = self.invert(&c);
            match self.ret(&d) {
                Ok(_) => {},
                Err(e) => {
                    return Err(e);
                },
            }
            proof {
                assert(self@.out.decls.contains_key(self@.out.cur.name)) by {
                    reveal(grown);
                }
            }
            self.finish();
        }
        self.add_method(&decl.name, "ne", f);
        Ok(())
    }

    /// Derives `Eq`: all fields are equal.
    pub fn generate_derive_eq(&mut self, decl: &StructDecl) -> (r: Result<(), CodegenError>)
        ensures
            (r.model(), final(self)@) == generate_derive_eq(old(self)@, decl@),
            keeps(old(self)@, final(self)@),
            r is Ok ==> same_variables(old(self)@, final(self)@),
    {
        proof {
            broadcast use crate::growth::group_growth;

            count_from(old(self)@);
            reveal(generate_derive_eq);
        }
        let lty = match self.env.declared_struct(&decl.name) {
            Ok(v) => v,
            Err(e) => {
                return Err(e);
            },
        };
        let eq = builtin_fn("Eq", "eq", &decl.name);
        match self.derive_eq(decl, &eq, &lty) {
            Ok(_) => {},
            Err(e) => {
                return Err(e);
            },
        }
        self.derive_ne(decl, &eq, &builtin_fn("Eq", "ne", &decl.name), &lty)
    }

    /// Orders two struct values by one field; where it does not decide, the next one does. Gives
    /// the block that goes on.
    pub fn ordered_field(
        &mut self,
        field: &StructField,
        i: usize,
        is_last: bool,
        lty: &LTy,
        pa: &Val,
        pb: &Val,
        current: usize,
        method: &str,
        trait_name: &str,
    ) -> (r: Result<usize, CodegenError>)
        ensures
            (r.model(), final(self)@) == ordered_field(
                old(self)@,
                field@,
                i,
                is_last,
                lty@,
                pa@,
                pb@,
                current,
                method@,
                trait_name@,
            ),
            stays(old(self)@, final(self)@),
            r is Ok ==> settled(old(self)@, final(self)@),
            r is Ok ==> same_variables(old(self)@, final(self)@),
    {
        proof {
            broadcast use crate::growth::group_growth;

            count_from(old(self)@);
            reveal(ordered_field);
        }
        let next_bb: usize = if is_last {
            let next_bb: usize = current;
            next_bb
        } else {
            let next_bb: usize = self.add_block(&cat("field_", &show_usize(i)));
            next_bb
        };
        self.go_to(current);
        let a = self.load(lty, pa);
        let b = self.load(lty, pb);
        let c = match self.call_on_fields(field, &a, &b, i as u32, trait_name, method) {
            Ok(v) => v,
            Err(e) => {
                return Err(e);
            },
        };
        if is_last {
            match self.ret(&c) {
                Ok(_) => {},
                Err(e) => {
                    return Err(e);
                },
            }
            return Ok(current);
        }
        let t = self.int_test(IntPred::Ne, &c, &mk_int(32, 0));
        let ret_bb: usize = self.add_block(&cat("ret_field_", &show_usize(i)));
        self.go_to(ret_bb);
        match self.ret(&c) {
            Ok(_) => {},
            Err(e) => {
                return Err(e);
            },
        }
        self.go_to(current);
        self.branch_if(&t, ret_bb, next_bb);
        Ok(next_bb)
    }

    /// Orders two struct values by their fields, the first one first.
    pub fn ordered_fields(
        &mut self,
        fields: &Vec<StructField>,
        lty: &LTy,
        pa: &Val,
        pb: &Val,
        start: usize,
        method: &str,
        trait_name: &str,
    ) -> (r: Result<(), CodegenError>)
        ensures
            (r.model(), final(self)@) == ordered_fields(
                old(self)@,
                struct_field_seq_view(fields@),
                lty@,
                pa@,
                pb@,
                start,
                method@,
                trait_name@,
            ),
            stays(old(self)@, final(self)@),
            r is Ok ==> settled(old(self)@, final(self)@),
            r is Ok ==> same_variables(old(self)@, final(self)@),
    {
        proof {
            broadcast use crate::growth::group_growth;

            count_from(old(self)@);
            reveal(ordered_fields);
            reveal(ordered_fields_each);
        }
        let mut current: usize = start;
        let mut i: usize = 0;
        while i < fields.len()
            invariant
                i <= fields@.len(),
                ordered_fields_each(
                    self@,
                    struct_field_seq_view(fields@),
                    lty@,
                    pa@,
                    pb@,
                    method@,
                    trait_name@,
                    current,
                    i as nat,
                ) == ordered_fields(
                    old(self)@,
                    struct_field_seq_view(fields@),
                    lty@,
                    pa@,
                    pb@,
                    start,
                    method@,
                    trait_name@,
                ),
                stays(old(self)@, self@),
                settled(old(self)@, self@),
                same_variables(old(self)@, self@),
            decreases fields@.len() - i,
        {
            proof {
                broadcast use crate::growth::group_growth;

                count_from(old(self)@);
                reveal(ordered_fields);
                reveal(ordered_fields_each);
            }
            let field = &fields[i];
            proof {
                assert(struct_field_seq_view(fields@)[i as int] == struct_field_view(fields@[i as int]));
            }
            proof {
                assert(struct_field_seq_view(fields@).len() == fields@.len());
            }
            let next_bb: usize = match self.ordered_field(
                field,
                i,
                ((i + 1) == fields.len()),
                lty,
                pa,
                pb,
                current,
                method,
                trait_name,
            ) {
                Ok(v) => v,
                Err(e) => {
                    return Err(e);
                },
            };
            current = next_bb;
            i += 1;
        }
        Ok(())
    }

    /// Derives `Ord`: the first field that differs decides.
    pub fn generate_derive_ord(
        &mut self,
        decl: &StructDecl,
        trait_name: &str,
        method: &str,
    ) -> (r: Result<(), CodegenError>)
        ensures
            (r.model(), final(self)@) == generate_derive_ord(
                old(self)@,
                decl@,
                trait_name@,
                method@,
            ),
            keeps(old(self)@, final(self)@),
            r is Ok ==> same_variables(old(self)@, final(self)@),
    {
        proof {
            broadcast use crate::growth::group_growth;

            count_from(old(self)@);
            reveal(generate_derive_ord);
        }
        let lty = match self.env.declared_struct(&decl.name) {
            Ok(v) => v,
            Err(e) => {
                return Err(e);
            },
        };
        let f = builtin_fn(trait_name, method, &decl.name);
        if self.out.decls.contains_key(&f) {
            return Ok(());
        }
        self.declare_builtin(&f, &two_pointers(), &LTy::Int(32));
        self.begin(&f);
        proof {
            count_from(self@);
        }
        let (a, b) = self.load_pair(&lty);
        let pa = self.spill(&lty, &a);
        let pb = self.spill(&lty, &b);
        proof {
            assert(struct_field_seq_view(decl.fields@).len() == decl.fields@.len());
        }
        if decl.fields.len() == 0 {
            match self.ret(&mk_int(32, 0)) {
                Ok(_) => {},
                Err(e) => {
                    return Err(e);
                },
            }
        } else {
            match self.ordered_fields(
                &decl.fields,
                &lty,
                &pa,
                &pb,
                self.out.cur.at,
                method,
                trait_name,
            ) {
                Ok(_) => {},
                Err(e) => {
                    return Err(e);
                },
            }
        }
        proof {
            assert(self@.out.decls.contains_key(self@.out.cur.name)) by {
                reveal(grown);
            }
        }
        self.finish();
        self.add_method(&decl.name, method, &f);
        Ok(())
    }

    /// Derives `Copy`, which every field has to be, and which needs `Clone`.
    pub fn derive_copy(&mut self, decl: &StructDecl) -> (r: Result<(), CodegenError>)
        ensures
            (r.model(), final(self)@) == derive_copy(old(self)@, decl@),
            stays(old(self)@, final(self)@),
            r is Ok ==> settled(old(self)@, final(self)@),
            r is Ok ==> confined(old(self)@.out.cur, final(self)@.out.cur),
            r is Ok ==> same_variables(old(self)@, final(self)@),
    {
        proof {
            broadcast use crate::growth::group_growth;

            count_from(old(self)@);
            reveal(derive_copy);
        }
        match self.env.check_copy_fields(&decl.name, &decl.fields) {
            Ok(_) => {},
            Err(e) => {
                return Err(e);
            },
        }
        if !self.env.check_type_implements_trait(&Type::Struct(decl.name.clone()), "Clone") {
            return Err(
                CodegenError::new(
                    cat3(
                        "cannot derive Copy for struct '",
                        &decl.name,
                        "': Copy requires Clone to be implemented or derived",
                    ),
                ),
            );
        }
        let ghost past = self@.env;
        self.env.copy_types.insert(decl.name.clone());
        proof {
            assert(fields_kept(past, self@.env)) by {
                reveal(fields_kept);
            }
        }
        self.add_trait(&decl.name, "Copy");
        Ok(())
    }

    /// Derives a trait for a struct.
    pub fn process_derive_trait(
        &mut self,
        decl: &StructDecl,
        trait_name: &str,
    ) -> (r: Result<(), CodegenError>)
        ensures
            (r.model(), final(self)@) == process_derive_trait(old(self)@, decl@, trait_name@),
            keeps(old(self)@, final(self)@),
            r is Ok ==> same_variables(old(self)@, final(self)@),
    {
        proof {
            broadcast use crate::growth::group_growth;

            count_from(old(self)@);
            reveal(process_derive_trait);
        }
        if same(trait_name, "Drop") {
            return Err(
                CodegenError::new(
                    cat3("cannot derive Drop for struct '", &decl.name, "', use impl Drop"),
                ),
            );
        }
        if same(trait_name, "Copy") {
            return self.derive_copy(decl);
        }
        match self.env.check_derived_fields(&decl.name, &decl.fields, trait_name) {
            Ok(_) => {},
            Err(e) => {
                return Err(e);
            },
        }
        match self.generate_derived(decl, trait_name) {
            Ok(_) => {},
            Err(e) => {
                return Err(e);
            },
        }
        self.add_trait(&decl.name, trait_name);
        Ok(())
    }

    /// The methods of a derived trait.
    pub fn generate_derived(
        &mut self,
        decl: &StructDecl,
        trait_name: &str,
    ) -> (r: Result<(), CodegenError>)
        ensures
            (r.model(), final(self)@) == generate_derived(old(self)@, decl@, trait_name@),
            keeps(old(self)@, final(self)@),
            r is Ok ==> same_variables(old(self)@, final(self)@),
    {
        proof {
            broadcast use crate::growth::group_growth;

            count_from(old(self)@);
            reveal(generate_derived);
        }
        if same(trait_name, "Default") {
            return self.generate_derive_default(decl);
        }
        if same(trait_name, "Clone") {
            return self.generate_derive_clone(decl);
        }
        if same(trait_name, "Eq") {
            return self.generate_derive_eq(decl);
        }
        if same(trait_name, "Ord") {
            return self.generate_derive_ord(decl, "Ord", "cmp");
        }
        Err(
            CodegenError::new(
                cat3(
                    &cat3("cannot derive unknown trait '", trait_name, "' for struct '"),
                    &decl.name,
                    "'",
                ),
            ),
        )
    }

    /// Derives traits for a struct.
    pub fn derive_all(
        &mut self,
        decl: &StructDecl,
        names: &Vec<String>,
    ) -> (r: Result<(), CodegenError>)
        ensures
            (r.model(), final(self)@) == derive_all(old(self)@, decl@, texts(names@)),
            keeps(old(self)@, final(self)@),
            r is Ok ==> same_variables(old(self)@, final(self)@),
    {
        proof {
            broadcast use crate::growth::group_growth;

            count_from(old(self)@);
            reveal(derive_all);
            reveal(derive_all_each);
        }
        let mut i: usize = 0;
        while i < names.len()
            invariant
                i <= names@.len(),
                derive_all_each(
                    self@,
                    decl@,
                    texts(names@),
                    i as nat,
                ) == derive_all(old(self)@, decl@, texts(names@)),
                keeps(old(self)@, self@),
                same_variables(old(self)@, self@),
            decreases names@.len() - i,
        {
            proof {
                broadcast use crate::growth::group_growth;

                count_from(old(self)@);
                reveal(derive_all);
                reveal(derive_all_each);
            }
            let n = &names[i];
            match self.process_derive_trait(decl, n) {
                Ok(_) => {},
                Err(e) => {
                    return Err(e);
                },
            }
            i += 1;
        }
        Ok(())
    }

    /// Derives the traits in the `derive` attributes of a struct.
    pub fn process_struct_derives(&mut self, decl: &StructDecl) -> (r: Result<(), CodegenError>)
        ensures
            (r.model(), final(self)@) == process_struct_derives(old(self)@, decl@),
            keeps(old(self)@, final(self)@),
            r is Ok ==> same_variables(old(self)@, final(self)@),
    {
        proof {
            broadcast use crate::growth::group_growth;

            count_from(old(self)@);
            reveal(process_struct_derives);
            reveal(process_struct_derives_each);
        }
        let attribs = dup_attribute_seq(&decl.attribs);
        let mut i: usize = 0;
        while i < attribs.len()
            invariant
                i <= attribs@.len(),
                process_struct_derives_each(
                    self@,
                    decl@,
                    attribute_seq_view(attribs@),
                    i as nat,
                ) == process_struct_derives(old(self)@, decl@),
                keeps(old(self)@, self@),
                same_variables(old(self)@, self@),
            decreases attribs@.len() - i,
        {
            proof {
                broadcast use crate::growth::group_growth;

                count_from(old(self)@);
                reveal(process_struct_derives);
                reveal(process_struct_derives_each);
            }
            let a = &attribs[i];
            proof {
                assert(attribute_seq_view(attribs@)[i as int] == attribute_view(attribs@[i as int]));
            }
            if same(&a.name, "derive") {
                match self.derive_all(decl, &a.args) {
                    Ok(_) => {},
                    Err(e) => {
                        return Err(e);
                    },
                }
            }
            i += 1;
        }
        Ok(())
    }
}

} // verus!
