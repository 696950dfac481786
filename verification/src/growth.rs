//! What every step of the code generator keeps.
use crate::ir::{CurView, FnSigView, InstView, IrBlockView, ValView};
use crate::lists::shorter;
use crate::model::TypeView;
use crate::state::{EnvView, FunView, OutView, State};
use crate::table::at;
use vstd::prelude::*;

verus! {

/// Two signatures that differ in the inlining that is asked for, if at all.
pub open spec fn same_signature(a: FnSigView, b: FnSigView) -> bool {
    b == (FnSigView { inlining: b.inlining, ..a })
}

/// What was compiled stays: the code of a finished function is never changed, nothing that was
/// declared goes away, a function keeps the signature it was first declared with, and the lists of
/// functions, types and strings only get longer.
#[verifier::opaque]
pub open spec fn grown(a: OutView, b: OutView) -> bool {
    &&& a.bodies.submap_of(b.bodies)
    &&& forall|n: Seq<char>| #[trigger]
        a.decls.contains_key(n) ==> b.decls.contains_key(n) && same_signature(
            a.decls[n],
            b.decls[n],
        )
    &&& a.struct_bodies.dom().subset_of(b.struct_bodies.dom())
    &&& a.strings.is_prefix_of(b.strings)
    &&& a.fn_order.is_prefix_of(b.fn_order)
    &&& a.type_order.is_prefix_of(b.type_order)
}

/// The function under construction is the same, and its blocks only get longer: each keeps its
/// label and its instructions, and more may follow.
#[verifier::opaque]
pub open spec fn extended(a: CurView, b: CurView) -> bool {
    &&& a.name == b.name
    &&& a.blocks.len() <= b.blocks.len()
    &&& forall|i: int|
        #![trigger b.blocks[i]]
        0 <= i < a.blocks.len() ==> a.blocks[i].label == b.blocks[i].label
            && a.blocks[i].insts.is_prefix_of(b.blocks[i].insts)
}

/// Of the first `n` blocks only the one that was written to may have got longer, and what is written
/// to now is that block or another one that is none of the first `n`.
#[verifier::opaque]
pub open spec fn confined_to(a: CurView, b: CurView, n: nat) -> bool {
    &&& n <= a.blocks.len() <= b.blocks.len()
    &&& b.at == a.at || n <= b.at < b.blocks.len()
    &&& forall|i: int|
        #![trigger b.blocks[i]]
        0 <= i < n && i != a.at ==> b.blocks[i] == a.blocks[i]
}

/// Code was only written to the block that was written to and to new blocks.
pub open spec fn confined(a: CurView, b: CurView) -> bool {
    confined_to(a, b, a.blocks.len())
}

/// Some blocks for tests and for what is behind them: they follow each other from one block on, and
/// all are there.
pub open spec fn blocks_follow(cur: CurView, base: nat, tests: Seq<usize>, behind: Seq<usize>) -> bool {
    &&& tests.len() == behind.len()
    &&& base + 2 * tests.len() <= cur.blocks.len()
    &&& forall|i: int| 0 <= i < tests.len() ==> #[trigger] tests[i] == base + 2 * i
    &&& forall|i: int| 0 <= i < behind.len() ==> #[trigger] behind[i] == base + 2 * i + 1
}

/// Some blocks for tests and for what is behind them, the first of which is known by its number.
pub open spec fn blocks_ready(cur: CurView, tests: Seq<usize>, behind: Seq<usize>) -> bool {
    tests.len() > 0 && blocks_follow(cur, tests[0] as nat, tests, behind)
}

/// The scopes around the innermost one are as they were.
#[verifier::opaque]
pub open spec fn outer_kept(
    a: Seq<Seq<(Seq<char>, TypeView, ValView)>>,
    b: Seq<Seq<(Seq<char>, TypeView, ValView)>>,
) -> bool {
    &&& a.len() <= b.len()
    &&& forall|i: int| #![trigger b[i]] 0 <= i < a.len() - 1 ==> a[i] == b[i]
}

/// At most the innermost scope was left; those around it are as they were.
#[verifier::opaque]
pub open spec fn inner_left(
    a: Seq<Seq<(Seq<char>, TypeView, ValView)>>,
    b: Seq<Seq<(Seq<char>, TypeView, ValView)>>,
) -> bool {
    &&& a.len() <= b.len() + 1
    &&& forall|i: int| #![trigger b[i]] 0 <= i < a.len() - 1 ==> a[i] == b[i]
}

/// Every element of one set is in the other.
#[verifier::opaque]
pub open spec fn within(a: Set<Seq<char>>, b: Set<Seq<char>>) -> bool {
    forall|n: Seq<char>| #[trigger] a.contains(n) ==> b.contains(n)
}

/// The list holds each name of the set exactly once, and nothing else.
#[verifier::opaque]
pub open spec fn listed(order: Seq<Seq<char>>, names: Set<Seq<char>>) -> bool {
    &&& order.no_duplicates()
    &&& forall|n: Seq<char>| #[trigger] names.contains(n) <==> order.contains(n)
}

/// Every declared function and every declared struct is listed once, and no function has code that
/// was not declared.
pub open spec fn well_listed(s: State) -> bool {
    &&& listed(s.out.fn_order, s.out.decls.dom())
    &&& listed(s.out.type_order, s.env.struct_types)
    &&& within(s.out.bodies.dom(), s.out.decls.dom())
}

/// Whether an instruction may stand in a function that is declared so: what a function returns is
/// of the type that is declared, and one without a result returns nothing. A function that is not
/// declared does not return.
pub open spec fn fits(sig: Option<FnSigView>, inst: InstView) -> bool {
    match inst {
        InstView::Ret(v) => match sig {
            Some(f) => match v {
                Some(x) => f.ret == Some(x.ty),
                None => f.ret is None,
            },
            None => false,
        },
        _ => true,
    }
}

/// Whether every instruction of some blocks may stand in a function.
#[verifier::opaque]
pub open spec fn typed_blocks(sig: Option<FnSigView>, blocks: Seq<IrBlockView>) -> bool {
    forall|b: int, i: int|
        0 <= b < blocks.len() && 0 <= i < blocks[b].insts.len() ==> fits(
            sig,
            #[trigger] blocks[b].insts[i],
        )
}

/// Every value that a function returns has the machine type of its declared result, in the finished
/// functions and in the one under construction.
#[verifier::opaque]
pub open spec fn well_returned(out: OutView) -> bool {
    &&& forall|n: Seq<char>| #[trigger]
        out.bodies.contains_key(n) ==> typed_blocks(at(out.decls, n), out.bodies[n])
    &&& typed_blocks(at(out.decls, out.cur.name), out.cur.blocks)
}

/// The fields of the instances that were made stay as they are.
#[verifier::opaque]
pub open spec fn fields_kept(a: EnvView, b: EnvView) -> bool {
    forall|n: Seq<char>| #[trigger]
        a.monomorphized.contains(n) ==> b.monomorphized.contains(n) && (a.struct_fields.contains_key(
            n,
        ) ==> b.struct_fields.contains_key(n) && b.struct_fields[n] == a.struct_fields[n])
}

/// What was compiled stays, an instance that was made is not forgotten, a type that has methods
/// goes on having some, the lists of what was declared stay complete, values are returned as they
/// are
/// declared, and the source is the same.
pub open spec fn keeps(a: State, b: State) -> bool {
    &&& b.source == a.source
    &&& b.path == a.path
    &&& grown(a.out, b.out)
    &&& within(a.env.monomorphized, b.env.monomorphized)
    &&& within(a.env.impl_methods.dom(), b.env.impl_methods.dom())
    &&& well_listed(a) ==> well_listed(b)
    &&& well_returned(a.out) ==> well_returned(b.out)
}

/// What was compiled stays, and the function under construction is the same one.
pub open spec fn stays(a: State, b: State) -> bool {
    &&& keeps(a, b)
    &&& b.out.cur.name == a.out.cur.name
}

/// The place that is being compiled is the same: the module, the loops around it, the scopes around
/// the innermost one, and the function, whose code only got longer. A variable that was moved out
/// of stays so, and so do the fields of the instances that were made.
pub open spec fn settled(a: State, b: State) -> bool {
    &&& fields_kept(a.env, b.env)
    &&& within(a.fun.moved, b.fun.moved)
    &&& b.fun.here == a.fun.here
    &&& b.fun.loops == a.fun.loops
    &&& outer_kept(a.fun.scopes, b.fun.scopes)
    &&& extended(a.out.cur, b.out.cur)
}

/// The innermost scope was left, and nothing else of the place has changed.
pub open spec fn left_scope(a: State, b: State) -> bool {
    &&& fields_kept(a.env, b.env)
    &&& b.fun == (FunView { scopes: b.fun.scopes, ..a.fun })
    &&& inner_left(a.fun.scopes, b.fun.scopes)
    &&& extended(a.out.cur, b.out.cur)
}

/// The scope of a block was left; what its value is went elsewhere.
pub open spec fn closed_block(a: State, b: State) -> bool {
    &&& fields_kept(a.env, b.env)
    &&& b.fun == (FunView { scopes: b.fun.scopes, given: b.fun.given, ..a.fun })
    &&& inner_left(a.fun.scopes, b.fun.scopes)
    &&& extended(a.out.cur, b.out.cur)
}

/// A loop was entered, and nothing else has changed.
pub open spec fn entered_loop(a: State, b: State) -> bool {
    &&& shorter(b.fun.loops) == a.fun.loops
    &&& b.fun == (FunView { loops: b.fun.loops, ..a.fun })
    &&& b.env == a.env
    &&& b.out == a.out
}

/// The innermost loop was left, and nothing else of the place has changed.
pub open spec fn left_loop(a: State, b: State) -> bool {
    &&& fields_kept(a.env, b.env)
    &&& within(a.fun.moved, b.fun.moved)
    &&& b.fun.here == a.fun.here
    &&& b.fun.loops == shorter(a.fun.loops)
    &&& outer_kept(a.fun.scopes, b.fun.scopes)
    &&& extended(a.out.cur, b.out.cur)
}

/// A struct was laid out, and nothing else has changed but for what is known of it.
pub open spec fn laid_out(a: State, b: State, name: Seq<char>) -> bool {
    &&& b.fun == a.fun
    &&& b.out.cur == a.out.cur
    &&& b.env.monomorphized == a.env.monomorphized
    &&& b.env.generic_enum_defs == a.env.generic_enum_defs
    &&& forall|n: Seq<char>|
        n != name && #[trigger] a.env.struct_fields.contains_key(n)
            ==> b.env.struct_fields.contains_key(n) && b.env.struct_fields[n]
            == a.env.struct_fields[n]
}

/// Whatever was compiled in between, the place is the one that it was: the module, the variables,
/// those without a value, the scopes, the loops, and the function with the place in its
/// code.
pub open spec fn returned(a: State, b: State) -> bool {
    &&& b.fun.here == a.fun.here
    &&& b.fun.symbols == a.fun.symbols
    &&& b.fun.moved == a.fun.moved
    &&& b.fun.given == a.fun.given
    &&& b.fun.scopes == a.fun.scopes
    &&& b.fun.loops == a.fun.loops
    &&& b.out.cur == a.out.cur
}

/// The same variables can be named.
pub open spec fn same_variables(a: State, b: State) -> bool {
    b.fun.symbols == a.fun.symbols
}

/// Marks what steps are counted from.
pub open spec fn from_out(a: OutView) -> bool {
    true
}

/// Marks what steps are counted from.
pub open spec fn from_cur(a: CurView) -> bool {
    true
}

/// Marks what steps are counted from.
pub open spec fn from_scopes(a: Seq<Seq<(Seq<char>, TypeView, ValView)>>) -> bool {
    true
}

/// Marks what steps are counted from.
pub open spec fn from_set(a: Set<Seq<char>>) -> bool {
    true
}

/// Marks what steps are counted from.
pub open spec fn from_env(a: EnvView) -> bool {
    true
}

/// Steps are counted from this state on.
pub proof fn count_from(a: State)
    ensures
        from_env(a.env),
        from_set(a.fun.moved),
        from_set(a.env.monomorphized),
        from_set(a.env.impl_methods.dom()),
        from_out(a.out),
        from_cur(a.out.cur),
        from_scopes(a.fun.scopes),
{
}

pub broadcast proof fn lemma_grown_refl(a: OutView)
    ensures
        #[trigger] grown(a, a),
{
    reveal(grown);
}

pub broadcast proof fn lemma_grown_trans(a: OutView, b: OutView, c: OutView)
    requires
        #[trigger] from_out(a),
        #[trigger] grown(a, b),
        #[trigger] grown(b, c),
    ensures
        grown(a, c),
{
    reveal(grown);
    assert forall|k: Seq<char>| #[trigger] a.bodies.dom().contains(k) implies c.bodies.dom().contains(
        k,
    ) && a.bodies[k] == c.bodies[k] by {
        assert(b.bodies.dom().contains(k));
    }
}

pub broadcast proof fn lemma_extended_refl(a: CurView)
    ensures
        #[trigger] extended(a, a),
{
    reveal(extended);
}

pub broadcast proof fn lemma_extended_trans(a: CurView, b: CurView, c: CurView)
    requires
        #[trigger] from_cur(a),
        #[trigger] extended(a, b),
        #[trigger] extended(b, c),
    ensures
        extended(a, c),
{
    reveal(extended);
    assert forall|i: int| #![trigger c.blocks[i]] 0 <= i < a.blocks.len() implies a.blocks[i].label
        == c.blocks[i].label && a.blocks[i].insts.is_prefix_of(c.blocks[i].insts) by {
        let _ = b.blocks[i];
    }
}

pub broadcast proof fn lemma_confined_refl(a: CurView, n: nat)
    requires
        n <= a.blocks.len(),
    ensures
        #[trigger] confined_to(a, a, n),
{
    reveal(confined_to);
}

pub broadcast proof fn lemma_confined_trans(a: CurView, b: CurView, c: CurView, n: nat, k: nat)
    requires
        #[trigger] from_cur(a),
        #[trigger] confined_to(a, b, n),
        #[trigger] confined_to(b, c, k),
        n <= k,
    ensures
        confined_to(a, c, n),
{
    reveal(confined_to);
    assert forall|i: int| #![trigger c.blocks[i]] 0 <= i < n && i != a.at implies c.blocks[i]
        == a.blocks[i] by {
        assert(b.blocks[i] == a.blocks[i]);
    }
}

/// There are no fewer blocks.
pub broadcast proof fn lemma_confined_len(a: CurView, b: CurView, n: nat)
    requires
        #[trigger] confined_to(a, b, n),
    ensures
        n <= a.blocks.len() <= b.blocks.len(),
{
    reveal(confined_to);
}

/// Code goes on in a block that is none of the first ones.
pub proof fn lemma_gone(a: CurView, b: CurView, c: CurView, n: nat)
    requires
        confined_to(a, b, n),
        c.blocks == b.blocks,
        n <= c.at < c.blocks.len(),
    ensures
        confined_to(a, c, n),
{
    reveal(confined_to);
}

pub broadcast proof fn lemma_outer_refl(a: Seq<Seq<(Seq<char>, TypeView, ValView)>>)
    ensures
        #[trigger] outer_kept(a, a),
{
    reveal(outer_kept);
}

pub broadcast proof fn lemma_outer_trans(
    a: Seq<Seq<(Seq<char>, TypeView, ValView)>>,
    b: Seq<Seq<(Seq<char>, TypeView, ValView)>>,
    c: Seq<Seq<(Seq<char>, TypeView, ValView)>>,
)
    requires
        #[trigger] from_scopes(a),
        #[trigger] outer_kept(a, b),
        #[trigger] outer_kept(b, c),
    ensures
        outer_kept(a, c),
{
    reveal(outer_kept);
    assert forall|i: int| #![trigger c[i]] 0 <= i < a.len() - 1 implies a[i] == c[i] by {
        assert(a[i] == b[i]);
    }
}

pub broadcast proof fn lemma_within_refl(a: Set<Seq<char>>)
    ensures
        #[trigger] within(a, a),
{
    reveal(within);
}

pub broadcast proof fn lemma_within_trans(a: Set<Seq<char>>, b: Set<Seq<char>>, c: Set<Seq<char>>)
    requires
        #[trigger] from_set(a),
        #[trigger] within(a, b),
        #[trigger] within(b, c),
    ensures
        within(a, c),
{
    reveal(within);
}

/// A new name at the end of the list.
pub proof fn lemma_listed_push(order: Seq<Seq<char>>, names: Set<Seq<char>>, n: Seq<char>)
    requires
        listed(order, names),
        !names.contains(n),
    ensures
        listed(order.push(n), names.insert(n)),
{
    reveal(listed);
    assert forall|m: Seq<char>| #[trigger] names.insert(n).contains(m) <==> order.push(n).contains(
        m,
    ) by {
        if order.contains(m) {
            let i = choose|i: int| 0 <= i < order.len() && order[i] == m;
            assert(order.push(n)[i] == m);
        }
        assert(order.push(n)[order.len() as int] == n);
    }
}

pub broadcast proof fn lemma_fields_refl(a: EnvView)
    ensures
        #[trigger] fields_kept(a, a),
{
    reveal(fields_kept);
}

/// What is known of an environment that is the same for instances.
pub broadcast proof fn lemma_fields_trans(a: EnvView, b: EnvView, c: EnvView)
    requires
        #[trigger] from_env(a),
        #[trigger] fields_kept(a, b),
        #[trigger] fields_kept(b, c),
    ensures
        fields_kept(a, c),
{
    reveal(fields_kept);
}

/// A signature that returns the same lets the same instructions stand.
proof fn lemma_typed_as(
    a: Option<FnSigView>,
    b: Option<FnSigView>,
    blocks: Seq<IrBlockView>,
)
    requires
        typed_blocks(a, blocks),
        a matches Some(f) ==> b matches Some(g) && g.ret == f.ret,
    ensures
        typed_blocks(b, blocks),
{
    reveal(typed_blocks);
}

/// More declarations change nothing of what is returned.
pub proof fn lemma_returned_more(a: OutView, b: OutView)
    requires
        grown(a, b),
        b.bodies == a.bodies,
        b.cur == a.cur,
    ensures
        well_returned(a) ==> well_returned(b),
{
    if well_returned(a) {
        reveal(grown);
        reveal(well_returned);
        assert forall|n: Seq<char>| #[trigger] b.bodies.contains_key(n) implies typed_blocks(
            at(b.decls, n),
            b.bodies[n],
        ) by {
            assert(a.bodies.contains_key(n));
            lemma_typed_as(at(a.decls, n), at(b.decls, n), a.bodies[n]);
        }
        lemma_typed_as(at(a.decls, a.cur.name), at(b.decls, a.cur.name), a.cur.blocks);
    }
}

/// A function that was left for others is gone on with.
pub proof fn lemma_returned_back(a: OutView, b: OutView, c: OutView)
    requires
        grown(a, b),
        well_returned(a) ==> well_returned(b),
        c == (OutView { cur: a.cur, ..b }),
    ensures
        well_returned(a) ==> well_returned(c),
{
    if well_returned(a) {
        reveal(grown);
        reveal(well_returned);
        lemma_typed_as(at(a.decls, a.cur.name), at(b.decls, a.cur.name), a.cur.blocks);
    }
}

/// A scope that was entered is left again.
pub proof fn lemma_scope_closed(
    a: Seq<Seq<(Seq<char>, TypeView, ValView)>>,
    b: Seq<Seq<(Seq<char>, TypeView, ValView)>>,
    c: Seq<Seq<(Seq<char>, TypeView, ValView)>>,
)
    requires
        outer_kept(a.push(Seq::empty()), b),
        inner_left(b, c),
    ensures
        outer_kept(a, c),
{
    reveal(outer_kept);
    reveal(inner_left);
    assert forall|i: int| #![trigger c[i]] 0 <= i < a.len() - 1 implies a[i] == c[i] by {
        assert(a.push(Seq::empty())[i] == a[i]);
        assert(b[i] == a[i]);
    }
}

/// A struct that was laid out is no instance that was made before.
pub proof fn lemma_fields_laid(a: EnvView, b: EnvView, c: EnvView, name: Seq<char>)
    requires
        !a.monomorphized.contains(name),
        b.monomorphized == a.monomorphized.insert(name),
        b.struct_fields == a.struct_fields,
        c.monomorphized == b.monomorphized,
        forall|n: Seq<char>|
            n != name && #[trigger] b.struct_fields.contains_key(n)
                ==> c.struct_fields.contains_key(n) && c.struct_fields[n] == b.struct_fields[n],
    ensures
        fields_kept(a, c),
{
    reveal(fields_kept);
}

/// Steps that keep what there was can follow one another.
pub broadcast group group_growth {
    lemma_fields_refl,
    lemma_fields_trans,
    lemma_within_refl,
    lemma_within_trans,
    lemma_grown_refl,
    lemma_grown_trans,
    lemma_extended_refl,
    lemma_extended_trans,
    lemma_confined_refl,
    lemma_confined_trans,
    lemma_confined_len,
    lemma_outer_refl,
    lemma_outer_trans,
}

} // verus!
