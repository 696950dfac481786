//! Matching values against patterns.
use crate::ast::{EnumVariant, Pattern, StructField, Type};
use crate::builder::{binary, extract, int_const, int_test, mk_int, spill};
use crate::growth::{confined, count_from, same_variables, settled, stays};
use crate::infer::pattern_owner;
use crate::ir::{BinKind, IntPred, LTy, Operand, OperandView, Val, ValView};
use crate::lists::{first_index, lemma_first_index, lemma_no_index};
use crate::model::{
    EnumVariantView, PatternView, StructFieldView, TypeView, enum_variant_seq_view,
    enum_variant_view, struct_field_seq_view, struct_field_view,
};
use crate::names::{show_type, type_text};
use crate::query::lower_type;
use crate::state::{CodeGen, CodegenError, Env, EnvView, ErrorView, FunView, State, err};
use crate::table::{Model, at};
use crate::text::{cat, cat3, same};
use vstd::prelude::*;

verus! {

broadcast use crate::lists::group_list_views;

/// The place of a variant in its enum.
#[verifier::opaque]
pub open spec fn variant_position_spec(
    variants: Seq<EnumVariantView>,
    name: Seq<char>,
) -> Option<usize> {
    match first_index(variants, variant_position_here(name)) {
        Some(i) => Some(i as usize),
        None => None,
    }
}

/// Whether [`variant_position_spec`] stops at an element.
pub open spec fn variant_position_here(name: Seq<char>) -> spec_fn(EnumVariantView) -> bool {
    |v: EnumVariantView| v.name == name
}

/// The place of a field in its struct.
#[verifier::opaque]
pub open spec fn field_position_spec(
    fields: Seq<StructFieldView>,
    name: Seq<char>,
) -> Option<usize> {
    match first_index(fields, field_position_here(name)) {
        Some(i) => Some(i as usize),
        None => None,
    }
}

/// Whether [`field_position_spec`] stops at an element.
pub open spec fn field_position_here(name: Seq<char>) -> spec_fn(StructFieldView) -> bool {
    |f: StructFieldView| f.name == name
}

/// The tag of a variant.
#[verifier::opaque]
pub open spec fn variant_number(
    s: EnvView,
    owner: Seq<char>,
    variant: Seq<char>,
) -> Result<u64, ErrorView> {
    match at(s.enum_defs, owner) {
        Some(decl) => {
            match variant_position_spec(decl.variants, variant) {
                Some(i) => Ok(i as u64),
                None => Err(err("unknown variant '"@ + variant + "' in enum '"@ + owner + "'"@)),
            }
        },
        None => Err(err("unknown enum '"@ + owner + "'"@)),
    }
}

/// The field that holds the payload of a variant.
#[verifier::opaque]
pub open spec fn payload_field(
    s: EnvView,
    owner: Seq<char>,
    variant: Seq<char>,
) -> Result<(u32, TypeView), ErrorView> {
    match at(s.struct_fields, owner) {
        Some(fields) => {
            let name = "__"@ + variant;
            match field_position_spec(fields, name) {
                Some(i) => {
                    if i < (fields.len() as usize) {
                        Ok((i as u32, fields[i as int].ty))
                    } else {
                        Err(err("internal: no such field"@))
                    }
                },
                None => Err(
                    err("payload field '"@ + name + "' not found in enum '"@ + owner + "'"@),
                ),
            }
        },
        None => Err(err("unknown enum '"@ + owner + "'"@)),
    }
}

/// A test on a literal.
#[verifier::opaque]
pub open spec fn int_pattern(
    s: State,
    v: ValView,
    n: u64,
    msg: Seq<char>,
) -> (Result<ValView, ErrorView>, State) {
    if v.ty is Int {
        let (got, s) = int_test(s, IntPred::Eq, v, (ValView { op: OperandView::Int(n), ty: v.ty }));
        (Ok(got), s)
    } else {
        (Err(err(msg)), s)
    }
}

/// A test on the tag of an enum value.
#[verifier::opaque]
pub open spec fn tag_test(
    s: State,
    owner: Seq<char>,
    variant: Seq<char>,
    v: ValView,
) -> (Result<ValView, ErrorView>, State) {
    match variant_number(s.env, owner, variant) {
        Ok(tag) => {
            if !(v.ty is Struct || v.ty is Named) {
                (Err(err("enum pattern matching requires struct scrutinee"@)), s)
            } else {
                let (got2, s) = extract(s, v, 0);
                match got2 {
                    Some(t) => {
                        if t.ty is Int {
                            let (got3, s) = int_test(s, IntPred::Eq, t, int_const(8, tag));
                            (Ok(got3), s)
                        } else {
                            (Err(err("enum tag is not an integer"@)), s)
                        }
                    },
                    None => (
                        Err(
                            err(
                                "failed to extract enum tag: Aggregate extract index out of range"@,
                            ),
                        ),
                        s,
                    ),
                }
            }
        },
        Err(e) => (Err(e), s),
    }
}

/// Whether a value matches a pattern, and the variables that the pattern binds.
#[verifier::opaque]
pub open spec fn gen_pattern_check(s: State, p: PatternView, v: ValView, ty: TypeView) -> (
    Result<(ValView, Seq<(Seq<char>, ValView, TypeView)>), ErrorView>,
    State,
)
    decreases p,
{
    match p {
        PatternView::Wildcard => {
            (Ok((int_const(1, 1), Seq::<(Seq<char>, ValView, TypeView)>::empty())), s)
        },
        PatternView::Binding(name) => {
            match lower_type(s.env, ty) {
                Ok(lty) => {
                    let (a, s) = spill(s, lty, v);
                    (Ok((int_const(1, 1), seq![(name, a, ty)])), s)
                },
                Err(e) => (Err(e), s),
            }
        },
        PatternView::IntLit(n) => {
            match int_pattern(s, v, n as u64, "integer pattern requires integer scrutinee"@) {
                (Ok(c), s) => (Ok((c, Seq::<(Seq<char>, ValView, TypeView)>::empty())), s),
                (Err(e), s) => (Err(e), s),
            }
        },
        PatternView::BoolLit(b) => {
            match int_pattern(
                s,
                v,
                if b { 1 } else { 0 },
                "bool pattern requires integer scrutinee"@,
            ) {
                (Ok(c), s) => (Ok((c, Seq::<(Seq<char>, ValView, TypeView)>::empty())), s),
                (Err(e), s) => (Err(e), s),
            }
        },
        PatternView::EnumVariant { variant, payload, .. } => {
            match pattern_owner(s, ty) {
                Some(owner) => {
                    match tag_test(s, owner, variant, v) {
                        (Ok(t), s) => {
                            match payload {
                                Some(inner) => {
                                    match payload_field(s.env, owner, variant) {
                                        Ok((k, payload_ty)) => {
                                            let (got10, s) = extract(s, v, k);
                                            match got10 {
                                                Some(x) => {
                                                    match gen_pattern_check(
                                                        s,
                                                        *inner,
                                                        x,
                                                        payload_ty,
                                                    ) {
                                                        (Ok((c, bindings)), s) => {
                                                            let (both_hold, s) = binary(
                                                                s,
                                                                BinKind::And,
                                                                t,
                                                                c,
                                                            );
                                                            (Ok((both_hold, bindings)), s)
                                                        },
                                                        (Err(e), s) => (Err(e), s),
                                                    }
                                                },
                                                None => {
                                                    (
                                                        Err(
                                                            err(
                                                                "failed to extract enum payload: Aggregate extract index out of range"@,
                                                            ),
                                                        ),
                                                        s,
                                                    )
                                                },
                                            }
                                        },
                                        Err(e) => (Err(e), s),
                                    }
                                },
                                None => (
                                    Ok((t, Seq::<(Seq<char>, ValView, TypeView)>::empty())),
                                    s,
                                ),
                            }
                        },
                        (Err(e), s) => (Err(e), s),
                    }
                },
                None => (Err(err("cannot pattern-match on type "@ + type_text(ty))), s),
            }
        },
    }
}

/// Declares the variables that a pattern binds.
#[verifier::opaque]
pub open spec fn bind_all(s: State, bindings: Seq<(Seq<char>, ValView, TypeView)>) -> State {
    bind_all_each(s, bindings, 0)
}

/// [`bind_all`] from element `i` on.
#[verifier::opaque]
pub open spec fn bind_all_each(
    s: State,
    bindings: Seq<(Seq<char>, ValView, TypeView)>,
    i: nat,
) -> State
    decreases bindings.len() - i,
{
    if i < bindings.len() {
        let b = bindings[i as int];
        let s = State {
            fun: FunView { symbols: s.fun.symbols.insert(b.0, (b.1, false, b.2)), ..s.fun },
            ..s
        };
        bind_all_each(s, bindings, i + 1)
    } else {
        s
    }
}

/// The place of a variant in its enum.
pub fn variant_position(variants: &Vec<EnumVariant>, name: &str) -> (r: Option<usize>)
    ensures
        r.model() == variant_position_spec(enum_variant_seq_view(variants@), name@),
{
    proof {
        reveal(variant_position_spec);
    }
    let mut i: usize = 0;
    while i < variants.len()
        invariant
            i <= variants@.len(),
            forall|k: int| #![trigger enum_variant_seq_view(variants@)[k]] 0 <= k < i ==> !variant_position_here(name@)(
                enum_variant_seq_view(variants@)[k],
            ),
        decreases variants@.len() - i,
    {
        let v = &variants[i];
        proof {
            assert(enum_variant_seq_view(variants@)[i as int] == enum_variant_view(variants@[i as int]));
        }
        if same(&v.name, name) {
            proof {
                reveal(variant_position_spec);
            }
            proof {
                lemma_first_index(
                    enum_variant_seq_view(variants@),
                    variant_position_here(name@),
                    i as int,
                );
            }
            return Some(i);
        }
        i += 1;
    }
    proof {
        lemma_no_index(enum_variant_seq_view(variants@), variant_position_here(name@));
    }
    None
}

/// The place of a field in its struct.
pub fn field_position(fields: &Vec<StructField>, name: &str) -> (r: Option<usize>)
    ensures
        r.model() == field_position_spec(struct_field_seq_view(fields@), name@),
{
    proof {
        reveal(field_position_spec);
    }
    let mut i: usize = 0;
    while i < fields.len()
        invariant
            i <= fields@.len(),
            forall|k: int| #![trigger struct_field_seq_view(fields@)[k]] 0 <= k < i ==> !field_position_here(name@)(
                struct_field_seq_view(fields@)[k],
            ),
        decreases fields@.len() - i,
    {
        let f = &fields[i];
        proof {
            assert(struct_field_seq_view(fields@)[i as int] == struct_field_view(fields@[i as int]));
        }
        if same(&f.name, name) {
            proof {
                reveal(field_position_spec);
            }
            proof {
                lemma_first_index(
                    struct_field_seq_view(fields@),
                    field_position_here(name@),
                    i as int,
                );
            }
            return Some(i);
        }
        i += 1;
    }
    proof {
        lemma_no_index(struct_field_seq_view(fields@), field_position_here(name@));
    }
    None
}

impl Env {
    /// The tag of a variant.
    pub fn variant_number(&self, owner: &str, variant: &str) -> (r: Result<u64, CodegenError>)
        ensures
            r.model() == variant_number(self@, owner@, variant@),
    {
        proof {
            reveal(variant_number);
        }
        let subject = self.enum_defs.get_dup(owner);
        match &subject {
            Some(decl) => {
                let subject2 = variant_position(&decl.variants, variant);
                match &subject2 {
                    Some(i) => {
                        return Ok(*i as u64);
                    },
                    None => {
                        return Err(
                            CodegenError::new(
                                cat3(
                                    &cat3("unknown variant '", variant, "' in enum '"),
                                    owner,
                                    "'",
                                ),
                            ),
                        );
                    },
                }
            },
            None => {
                return Err(CodegenError::new(cat3("unknown enum '", owner, "'")));
            },
        }
    }

    /// The field that holds the payload of a variant.
    pub fn payload_field(&self, owner: &str, variant: &str) -> (
        r: Result<(u32, Type), CodegenError>
    )
        ensures
            r.model() == payload_field(self@, owner@, variant@),
    {
        proof {
            reveal(payload_field);
        }
        let subject = self.struct_fields.get_dup(owner);
        match &subject {
            Some(fields) => {
                let name = cat("__", variant);
                let subject2 = field_position(fields, &name);
                match &subject2 {
                    Some(i) => {
                        proof {
                            assert(struct_field_seq_view(fields@).len() == fields@.len());
                        }
                        if *i < fields.len() {
                            proof {
                                assert(struct_field_seq_view(fields@)[*i as int] == struct_field_view(fields@[*i as int]));
                            }
                            return Ok(((*i as u32), fields[*i].ty.clone()));
                        }
                        return Err(CodegenError::new("internal: no such field".to_owned()));
                    },
                    None => {
                        return Err(
                            CodegenError::new(
                                cat3(
                                    &cat3("payload field '", &name, "' not found in enum '"),
                                    owner,
                                    "'",
                                ),
                            ),
                        );
                    },
                }
            },
            None => {
                return Err(CodegenError::new(cat3("unknown enum '", owner, "'")));
            },
        }
    }
}

impl CodeGen {
    /// A test on a literal.
    pub fn int_pattern(&mut self, v: &Val, n: u64, msg: &str) -> (r: Result<Val, CodegenError>)
        ensures
            (r.model(), final(self)@) == int_pattern(old(self)@, v@, n, msg@),
            stays(old(self)@, final(self)@),
            r is Ok ==> settled(old(self)@, final(self)@),
            r is Ok ==> confined(old(self)@.out.cur, final(self)@.out.cur),
            r is Ok ==> same_variables(old(self)@, final(self)@),
    {
        proof {
            broadcast use crate::growth::group_growth;

            count_from(old(self)@);
            reveal(int_pattern);
        }
        if matches!(&v.ty, LTy::Int { .. }) {
            let got = self.int_test(IntPred::Eq, v, &Val { op: Operand::Int(n), ty: v.ty.clone() });
            return Ok(got);
        }
        Err(CodegenError::new(msg.to_owned()))
    }

    /// A test on the tag of an enum value.
    pub fn tag_test(
        &mut self,
        owner: &str,
        variant: &str,
        v: &Val,
    ) -> (r: Result<Val, CodegenError>)
        ensures
            (r.model(), final(self)@) == tag_test(old(self)@, owner@, variant@, v@),
            stays(old(self)@, final(self)@),
            r is Ok ==> settled(old(self)@, final(self)@),
            r is Ok ==> confined(old(self)@.out.cur, final(self)@.out.cur),
            r is Ok ==> same_variables(old(self)@, final(self)@),
    {
        proof {
            broadcast use crate::growth::group_growth;

            count_from(old(self)@);
            reveal(tag_test);
        }
        let tag: u64 = match self.env.variant_number(owner, variant) {
            Ok(v) => v,
            Err(e) => {
                return Err(e);
            },
        };
        if !matches!(&v.ty, LTy::Struct { .. } | LTy::Named { .. }) {
            return Err(
                CodegenError::new("enum pattern matching requires struct scrutinee".to_owned()),
            );
        }
        let got2 = self.extract(v, 0);
        match &got2 {
            Some(t) => {
                if matches!(&t.ty, LTy::Int { .. }) {
                    let got3 = self.int_test(IntPred::Eq, t, &mk_int(8, tag));
                    return Ok(got3);
                }
                return Err(CodegenError::new("enum tag is not an integer".to_owned()));
            },
            None => {
                return Err(
                    CodegenError::new(
                        "failed to extract enum tag: Aggregate extract index out of range".to_owned(),
                    ),
                );
            },
        }
    }

    /// Whether a value matches a pattern, and the variables that the pattern binds.
    pub fn gen_pattern_check(&mut self, p: &Pattern, v: &Val, ty: &Type) -> (
        r: Result<(Val, Vec<(String, Val, Type)>), CodegenError>
    )
        ensures
            (r.model(), final(self)@) == gen_pattern_check(old(self)@, p@, v@, ty@),
            stays(old(self)@, final(self)@),
            r is Ok ==> settled(old(self)@, final(self)@),
            r is Ok ==> confined(old(self)@.out.cur, final(self)@.out.cur),
            r is Ok ==> same_variables(old(self)@, final(self)@),
        decreases p,
    {
        proof {
            broadcast use crate::growth::group_growth;

            count_from(old(self)@);
            reveal(gen_pattern_check);
        }
        match p {
            Pattern::Wildcard => {
                let items: Vec<(String, Val, Type)> = Vec::new();
                proof {
                    assert(items.model() =~= Seq::<(Seq<char>, ValView, TypeView)>::empty());
                }
                return Ok((mk_int(1, 1), items));
            },
            Pattern::Binding(name) => {
                let lty = match self.env.type_to_llvm(ty) {
                    Ok(v) => v,
                    Err(e) => {
                        return Err(e);
                    },
                };
                let a = self.spill(&lty, v);
                let mut items2: Vec<(String, Val, Type)> = Vec::new();
                let item = (name.clone(), a.clone(), ty.clone());
                items2.push(item);
                proof {
                    assert(items2.model() =~= seq![item.model()]);
                }
                return Ok((mk_int(1, 1), items2));
            },
            Pattern::IntLit(n) => {
                let c = match self.int_pattern(
                    v,
                    (*n as u64),
                    "integer pattern requires integer scrutinee",
                ) {
                    Ok(v) => v,
                    Err(e) => {
                        return Err(e);
                    },
                };
                let items3: Vec<(String, Val, Type)> = Vec::new();
                proof {
                    assert(items3.model() =~= Seq::<(Seq<char>, ValView, TypeView)>::empty());
                }
                return Ok((c.clone(), items3));
            },
            Pattern::BoolLit(b) => {
                let c = match self.int_pattern(
                    v,
                    if *b { 1 } else { 0 },
                    "bool pattern requires integer scrutinee",
                ) {
                    Ok(v) => v,
                    Err(e) => {
                        return Err(e);
                    },
                };
                let items4: Vec<(String, Val, Type)> = Vec::new();
                proof {
                    assert(items4.model() =~= Seq::<(Seq<char>, ValView, TypeView)>::empty());
                }
                return Ok((c.clone(), items4));
            },
            Pattern::EnumVariant { variant, payload, .. } => {
                let subject = self.pattern_owner_name(ty);
                match &subject {
                    Some(owner) => {
                        let t = match self.tag_test(owner, variant, v) {
                            Ok(v) => v,
                            Err(e) => {
                                return Err(e);
                            },
                        };
                        match payload {
                            Some(inner) => {
                                let (k, payload_ty) = match self.env.payload_field(owner, variant) {
                                    Ok(v) => v,
                                    Err(e) => {
                                        return Err(e);
                                    },
                                };
                                let got10 = self.extract(v, k);
                                match &got10 {
                                    Some(x) => {
                                        let (c, bindings) = match self.gen_pattern_check(
                                            inner,
                                            x,
                                            &payload_ty,
                                        ) {
                                            Ok(v) => v,
                                            Err(e) => {
                                                return Err(e);
                                            },
                                        };
                                        let both_hold = self.binary(BinKind::And, &t, &c);
                                        return Ok((both_hold.clone(), bindings.dup()));
                                    },
                                    None => {
                                        return Err(
                                            CodegenError::new(
                                                "failed to extract enum payload: Aggregate extract index out of range".to_owned(),
                                            ),
                                        );
                                    },
                                }
                            },
                            None => {
                                let items5: Vec<(String, Val, Type)> = Vec::new();
                                proof {
                                    assert(items5.model() =~= Seq::<(Seq<char>, ValView, TypeView)>::empty());
                                }
                                return Ok((t.clone(), items5));
                            },
                        }
                    },
                    None => {
                        return Err(
                            CodegenError::new(cat("cannot pattern-match on type ", &show_type(ty))),
                        );
                    },
                }
            },
        }
    }

    /// Declares the variables that a pattern binds.
    pub fn bind_all(&mut self, bindings: &Vec<(String, Val, Type)>)
        ensures
            final(self)@ == bind_all(old(self)@, bindings.model()),
            stays(old(self)@, final(self)@),
            settled(old(self)@, final(self)@),
            confined(old(self)@.out.cur, final(self)@.out.cur),
    {
        proof {
            broadcast use crate::growth::group_growth;

            count_from(old(self)@);
            reveal(bind_all);
            reveal(bind_all_each);
        }
        let mut i: usize = 0;
        while i < bindings.len()
            invariant
                i <= bindings@.len(),
                bind_all_each(
                    self@,
                    bindings.model(),
                    i as nat,
                ) == bind_all(old(self)@, bindings.model()),
                stays(old(self)@, self@),
                settled(old(self)@, self@),
                confined(old(self)@.out.cur, self@.out.cur),
            decreases bindings@.len() - i,
        {
            proof {
                broadcast use crate::growth::group_growth;

                count_from(old(self)@);
                reveal(bind_all);
                reveal(bind_all_each);
            }
            let b = &bindings[i];
            self.fun.symbols.insert(b.0.clone(), (b.1.clone(), false, b.2.clone()));
            i += 1;
        }

    }
}

} // verus!
