//! Visibility: which items and fields a module may use.
use crate::ast::Type;
use crate::model::{TypeView, type_seq_view, type_view};
use crate::names::{get_module_path_for_item_name, item_module};
use crate::state::{CodeGen, CodegenError, Env, EnvView, ErrorView, err};
use crate::table::Model;
use crate::text::{before, cat3, cut_at, join, join_texts, same, texts};
use vstd::prelude::*;

verus! {

/// Whether the module `caller` is the one at `path` or lies inside it.
#[verifier::opaque]
pub open spec fn inside(caller: Seq<Seq<char>>, path: Seq<Seq<char>>) -> bool {
    caller.len() >= path.len() && caller.take(path.len() as int) == path
}

/// Whether an item is public: as its name says without what an instance adds to it, or else as
/// the full name says; items that nothing is known of are public.
pub open spec fn item_public(env: EnvView, name: Seq<char>) -> bool {
    let base = before(name, '$');
    if env.visibility.contains_key(base) {
        env.visibility[base]
    } else if env.visibility.contains_key(name) {
        env.visibility[name]
    } else {
        true
    }
}

/// The module in which an item stands: a method of a trait stands in that of the type it belongs
/// to.
pub open spec fn item_place(env: EnvView, name: Seq<char>) -> Seq<Seq<char>> {
    if env.item_owners.contains_key(name) {
        item_module(env.item_owners[name])
    } else {
        item_module(name)
    }
}

/// Whether the module `caller` may use the item `name`: from inside the item's module always, else
/// only where the item is public.
#[verifier::opaque]
pub open spec fn check_path(env: EnvView, caller: Seq<Seq<char>>, name: Seq<char>) -> Result<
    (),
    ErrorView,
> {
    if inside(caller, item_place(env, name)) || item_public(env, name) {
        Ok(())
    } else {
        Err(
            err(
                "error: '"@ + name + "' is private and cannot be accessed from module '"@ + join(
                    caller,
                    "::"@,
                ) + "'"@,
            ),
        )
    }
}

/// The first error that some checks give.
pub open spec fn both(a: Result<(), ErrorView>, b: Result<(), ErrorView>) -> Result<(), ErrorView> {
    match a {
        Ok(_) => b,
        Err(e) => Err(e),
    }
}

/// Whether the module `caller` may use all that a type names.
#[verifier::opaque]
pub open spec fn check_type(env: EnvView, caller: Seq<Seq<char>>, ty: TypeView) -> Result<
    (),
    ErrorView,
>
    decreases ty,
{
    match ty {
        TypeView::Struct(name) => check_path(env, caller, name),
        TypeView::GenericInstance(name, args) => both(
            check_path(env, caller, name),
            check_types(env, caller, args),
        ),
        TypeView::Tuple(elems) => check_types(env, caller, elems),
        TypeView::Ref { inner, .. } => check_type(env, caller, *inner),
        TypeView::Ptr { inner, .. } => check_type(env, caller, *inner),
        TypeView::Array { inner, .. } => check_type(env, caller, *inner),
        TypeView::Alias(name, args) => both(
            check_path(env, caller, name),
            check_types(env, caller, args),
        ),
        _ => Ok(()),
    }
}

/// Whether the module `caller` may use all that some types name.
#[verifier::opaque]
pub open spec fn check_types(env: EnvView, caller: Seq<Seq<char>>, tys: Seq<TypeView>) -> Result<
    (),
    ErrorView,
>
    decreases tys,
{
    if tys.len() == 0 {
        Ok(())
    } else {
        both(check_types(env, caller, tys.drop_last()), check_type(env, caller, tys.last()))
    }
}

/// Whether a field is public; fields that nothing is known of are.
pub open spec fn field_public(env: EnvView, owner: Seq<char>, field: Seq<char>) -> bool {
    env.field_visibility.contains_key(owner) && env.field_visibility[owner].contains_key(field)
        ==> env.field_visibility[owner][field]
}

/// Whether the module `caller` may use a field.
#[verifier::opaque]
pub open spec fn check_field(
    env: EnvView,
    caller: Seq<Seq<char>>,
    owner: Seq<char>,
    field: Seq<char>,
) -> Result<(), ErrorView> {
    if inside(caller, item_module(owner)) || field_public(env, owner, field) {
        Ok(())
    } else {
        Err(
            err(
                "error: field '"@ + field + "' of struct '"@ + owner
                    + "' is private and cannot be accessed from module '"@ + join(caller, "::"@)
                    + "'"@,
            ),
        )
    }
}

/// Whether a struct has a field that is not public.
pub open spec fn has_private_field(env: EnvView, owner: Seq<char>) -> bool {
    env.field_visibility.contains_key(owner) && exists|f: Seq<char>| #[trigger]
        env.field_visibility[owner].contains_key(f) && !env.field_visibility[owner][f]
}

/// Whether the module `caller` may write a literal of a struct.
#[verifier::opaque]
pub open spec fn check_literal(env: EnvView, caller: Seq<Seq<char>>, owner: Seq<char>) -> Result<
    (),
    ErrorView,
> {
    if inside(caller, item_module(owner)) || !has_private_field(env, owner) {
        Ok(())
    } else {
        Err(
            err(
                "error: cannot construct struct '"@ + owner
                    + "' with private fields from module '"@ + join(caller, "::"@) + "'"@,
            ),
        )
    }
}

/// Whether the module `caller` is the one at `path` or lies inside it.
fn is_inside(caller: &Vec<String>, path: &Vec<String>) -> (r: bool)
    ensures
        r == inside(texts(caller@), texts(path@)),
{
    proof {
        reveal(inside);
    }
    if caller.len() < path.len() {
        return false;
    }
    let mut i: usize = 0;
    while i < path.len()
        invariant
            i <= path@.len() <= caller@.len(),
            forall|k: int| 0 <= k < i ==> texts(caller@)[k] == texts(path@)[k],
        decreases path@.len() - i,
    {
        proof {
            reveal(inside);
        }
        if !same(&caller[i], &path[i]) {
            proof {
                let n = path@.len() as int;
                assert(texts(caller@).take(n)[i as int] != texts(path@)[i as int]);
            }
            return false;
        }
        i += 1;
    }
    proof {
        assert(texts(caller@).take(path@.len() as int) =~= texts(path@));
    }
    true
}

impl Env {
    /// The module in which an item stands: a method of a trait stands in that of the type it
    /// belongs
    /// to.
    pub fn module_of_item(&self, name: &str) -> (r: Vec<String>)
        ensures
            texts(r@) == item_place(self@, name@),
    {
        match self.item_owners.get(name) {
            Some(owner) => get_module_path_for_item_name(owner),
            None => get_module_path_for_item_name(name),
        }
    }

    /// Check that `caller_path` can access `target_name` based on module visibility.
    ///
    /// Items are accessible if the caller is a descendant module of the item's
    /// defining module, or if the item is `pub`. Returns an error for private
    /// items accessed from non-descendant modules.
    pub fn check_visibility_of_path(&self, caller: &Vec<String>, name: &str) -> (r: Result<
        (),
        CodegenError,
    >)
        ensures
            r.model() == check_path(self@, texts(caller@), name@),
    {
        proof {
            reveal(check_path);
        }
        if is_inside(caller, &self.module_of_item(name)) {
            return Ok(());
        }
        let base = cut_at(name, '$');
        let public: bool = match self.visibility.get(&base) {
            Some(b) => *b,
            None => match self.visibility.get(name) {
                Some(b) => *b,
                None => true,
            },
        };
        if public {
            Ok(())
        } else {
            Err(
                CodegenError::new(
                    cat3(
                        "error: '",
                        name,
                        "' is private and cannot be accessed from module '",
                    ).concat(&join_texts(caller, "::")).concat("'"),
                ),
            )
        }
    }

    /// Check that all types referenced in a type expression are visible from `caller_path`.
    /// Recurses into struct names, generic arguments, tuple elements, reference/pointer
    /// inner types, and array inner types.
    pub fn check_visibility_of_type(&self, caller: &Vec<String>, ty: &Type) -> (r: Result<
        (),
        CodegenError,
    >)
        ensures
            r.model() == check_type(self@, texts(caller@), ty@),
        decreases ty,
    {
        proof {
            reveal(check_type);
            reveal(check_types);
        }
        match ty {
            Type::Struct(name) => self.check_visibility_of_path(caller, name),
            Type::GenericInstance(name, args) => match self.check_visibility_of_path(caller, name) {
                Ok(()) => self.check_visibility_of_types(caller, args),
                Err(e) => Err(e),
            },
            Type::Tuple(elems) => self.check_visibility_of_types(caller, elems),
            Type::Ref { inner, .. } => self.check_visibility_of_type(caller, inner),
            Type::Ptr { inner, .. } => self.check_visibility_of_type(caller, inner),
            Type::Array { inner, .. } => self.check_visibility_of_type(caller, inner),
            Type::Alias(name, args) => match self.check_visibility_of_path(caller, name) {
                Ok(()) => self.check_visibility_of_types(caller, args),
                Err(e) => Err(e),
            },
            _ => Ok(()),
        }
    }

    fn check_visibility_of_types(&self, caller: &Vec<String>, tys: &Vec<Type>) -> (r: Result<
        (),
        CodegenError,
    >)
        ensures
            r.model() == check_types(self@, texts(caller@), type_seq_view(tys@)),
        decreases tys,
    {
        proof {
            reveal(check_type);
            reveal(check_types);
        }
        let ghost all = type_seq_view(tys@);
        let mut i: usize = 0;
        while i < tys.len()
            invariant
                i <= tys@.len(),
                all == type_seq_view(tys@),
                check_types(self@, texts(caller@), all.take(i as int)) == Ok::<(), ErrorView>(()),
            decreases tys@.len() - i,
        {
            proof {
                reveal(check_type);
                reveal(check_types);
            }
            proof {
                let t = all.take(i + 1);
                assert(t.drop_last() =~= all.take(i as int));
                assert(t.last() == type_view(tys@[i as int]));
            }
            match self.check_visibility_of_type(caller, &tys[i]) {
                Ok(()) => {},
                Err(e) => {
                    proof {
                        lemma_check_types_fail(self@, texts(caller@), all, i + 1);
                    }
                    return Err(e);
                },
            }
            i += 1;
        }
        proof {
            assert(all.take(i as int) =~= all);
        }
        Ok(())
    }

    /// Check that `field_name` of `struct_name` is visible to `caller_path`.
    /// Fields in descendant modules are always accessible; otherwise requires
    /// the field to be `pub`.
    pub fn check_field_visibility(
        &self,
        caller: &Vec<String>,
        owner: &str,
        field: &str,
    ) -> (r: Result<
        (),
        CodegenError,
    >)
        ensures
            r.model() == check_field(self@, texts(caller@), owner@, field@),
    {
        proof {
            reveal(check_field);
        }
        if is_inside(caller, &get_module_path_for_item_name(owner)) {
            return Ok(());
        }
        let public: bool = match self.field_visibility.get(owner) {
            Some(fields) => match fields.get(field) {
                Some(b) => *b,
                None => true,
            },
            None => true,
        };
        if public {
            Ok(())
        } else {
            Err(
                CodegenError::new(
                    cat3("error: field '", field, "' of struct '").concat(owner).concat(
                        "' is private and cannot be accessed from module '",
                    ).concat(&join_texts(caller, "::")).concat("'"),
                ),
            )
        }
    }

    /// Verify that a struct can be constructed from `caller_path`.
    /// Construction is forbidden if the struct has any non-public fields and
    /// the caller is not a descendant module.
    pub fn check_struct_literal_construction(
        &self,
        caller: &Vec<String>,
        owner: &str,
    ) -> (r: Result<
        (),
        CodegenError,
    >)
        ensures
            r.model() == check_literal(self@, texts(caller@), owner@),
    {
        proof {
            reveal(check_literal);
        }
        if is_inside(caller, &get_module_path_for_item_name(owner)) {
            return Ok(());
        }
        let private: bool = match self.field_visibility.get(owner) {
            Some(fields) => fields.has_false(),
            None => false,
        };
        if private {
            Err(
                CodegenError::new(
                    cat3(
                        "error: cannot construct struct '",
                        owner,
                        "' with private fields from module '",
                    ).concat(&join_texts(caller, "::")).concat("'"),
                ),
            )
        } else {
            Ok(())
        }
    }
}

/// An error among the first types is the error of all.
proof fn lemma_check_types_fail(env: EnvView, caller: Seq<Seq<char>>, tys: Seq<TypeView>, n: int)
    requires
        0 <= n <= tys.len(),
        check_types(env, caller, tys.take(n)) is Err,
    ensures
        check_types(env, caller, tys) == check_types(env, caller, tys.take(n)),
    decreases tys.len(),
{
    reveal(check_type);
    reveal(check_types);
    if n < tys.len() {
        assert(tys.drop_last().take(n) =~= tys.take(n));
        lemma_check_types_fail(env, caller, tys.drop_last(), n);
    } else {
        assert(tys.take(n) =~= tys);
    }
}

} // verus!
