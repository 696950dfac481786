//! Tables keyed by names, and sets of names.
use crate::ast::{
    Block, EnumDecl, Expr, Function, GenericParam, ImplDecl, StructDecl, StructField, TraitDecl,
    Type,
};
use crate::model::{
    BlockView, EnumDeclView, ExprView, FunctionView, GenericParamView, ImplDeclView, StructDeclView,
    StructFieldView, TraitDeclView, TypeView,
};
use crate::text::{cat, ends_with, has_suffix, to_chars};
use vstd::prelude::*;

verus! {

/// A type with a mathematical counterpart, which copies keep.
pub trait Model: Sized {
    type M;

    /// What the value is.
    spec fn model(&self) -> Self::M;

    /// A copy of the value.
    fn dup(&self) -> (r: Self)
        ensures
            r.model() == self.model(),
    ;
}

impl Model for String {
    type M = Seq<char>;

    open spec fn model(&self) -> Seq<char> {
        self@
    }

    fn dup(&self) -> (r: Self) {
        self.clone()
    }
}

impl Model for bool {
    type M = bool;

    open spec fn model(&self) -> bool {
        *self
    }

    fn dup(&self) -> (r: Self) {
        *self
    }
}

impl Model for usize {
    type M = usize;

    open spec fn model(&self) -> usize {
        *self
    }

    fn dup(&self) -> (r: Self) {
        *self
    }
}

impl Model for Type {
    type M = TypeView;

    open spec fn model(&self) -> TypeView {
        self@
    }

    fn dup(&self) -> (r: Self) {
        self.clone()
    }
}

impl Model for Expr {
    type M = ExprView;

    open spec fn model(&self) -> ExprView {
        self@
    }

    fn dup(&self) -> (r: Self) {
        self.clone()
    }
}

impl Model for Block {
    type M = BlockView;

    open spec fn model(&self) -> BlockView {
        self@
    }

    fn dup(&self) -> (r: Self) {
        self.clone()
    }
}

impl Model for Function {
    type M = FunctionView;

    open spec fn model(&self) -> FunctionView {
        self@
    }

    fn dup(&self) -> (r: Self) {
        self.clone()
    }
}

impl Model for GenericParam {
    type M = GenericParamView;

    open spec fn model(&self) -> GenericParamView {
        self@
    }

    fn dup(&self) -> (r: Self) {
        self.clone()
    }
}

impl Model for StructField {
    type M = StructFieldView;

    open spec fn model(&self) -> StructFieldView {
        self@
    }

    fn dup(&self) -> (r: Self) {
        self.clone()
    }
}

impl Model for StructDecl {
    type M = StructDeclView;

    open spec fn model(&self) -> StructDeclView {
        self@
    }

    fn dup(&self) -> (r: Self) {
        self.clone()
    }
}

impl Model for EnumDecl {
    type M = EnumDeclView;

    open spec fn model(&self) -> EnumDeclView {
        self@
    }

    fn dup(&self) -> (r: Self) {
        self.clone()
    }
}

impl Model for ImplDecl {
    type M = ImplDeclView;

    open spec fn model(&self) -> ImplDeclView {
        self@
    }

    fn dup(&self) -> (r: Self) {
        self.clone()
    }
}

impl Model for TraitDecl {
    type M = TraitDeclView;

    open spec fn model(&self) -> TraitDeclView {
        self@
    }

    fn dup(&self) -> (r: Self) {
        self.clone()
    }
}

impl<T: Model> Model for Option<T> {
    type M = Option<T::M>;

    open spec fn model(&self) -> Option<T::M> {
        match *self {
            Some(x) => Some(x.model()),
            None => None,
        }
    }

    fn dup(&self) -> (r: Self) {
        match self {
            Some(x) => Some(x.dup()),
            None => None,
        }
    }
}

impl<A: Model, B: Model> Model for (A, B) {
    type M = (A::M, B::M);

    open spec fn model(&self) -> (A::M, B::M) {
        (self.0.model(), self.1.model())
    }

    fn dup(&self) -> (r: Self) {
        (self.0.dup(), self.1.dup())
    }
}

impl<A: Model, B: Model, C: Model> Model for (A, B, C) {
    type M = (A::M, B::M, C::M);

    open spec fn model(&self) -> (A::M, B::M, C::M) {
        (self.0.model(), self.1.model(), self.2.model())
    }

    fn dup(&self) -> (r: Self) {
        (self.0.dup(), self.1.dup(), self.2.dup())
    }
}

impl<T: Model> Model for Vec<T> {
    type M = Seq<T::M>;

    open spec fn model(&self) -> Seq<T::M> {
        Seq::new(self@.len(), |i: int| self@[i].model())
    }

    fn dup(&self) -> (r: Self) {
        let mut r: Vec<T> = Vec::new();
        let mut i: usize = 0;
        while i < self.len()
            invariant
                i <= self@.len(),
                r@.len() == i,
                forall|k: int| 0 <= k < i ==> (#[trigger] r@[k]).model() == self@[k].model(),
            decreases self@.len() - i,
        {
            r.push(self[i].dup());
            i += 1;
        }
        proof {
            assert(r.model() =~= self.model());
        }
        r
    }
}

/// The value of `name`, if it has one.
pub open spec fn at<V>(m: Map<Seq<char>, V>, name: Seq<char>) -> Option<V> {
    if m.contains_key(name) {
        Some(m[name])
    } else {
        None
    }
}

/// A table from names to values.
pub struct Table<V: Model> {
    entries: Vec<(String, V)>,
}

/// The entry that counts for `name`: the first one with that key.
pub closed spec fn find_entry<V: Model>(s: Seq<(String, V)>, name: Seq<char>) -> Option<V::M>
    decreases s.len(),
{
    if s.len() == 0 {
        None
    } else if s[0].0@ == name {
        Some(s[0].1.model())
    } else {
        find_entry(s.drop_first(), name)
    }
}

impl<V: Model> View for Table<V> {
    type V = Map<Seq<char>, V::M>;

    closed spec fn view(&self) -> Map<Seq<char>, V::M> {
        Map::new(
            |k: Seq<char>| find_entry(self.entries@, k) is Some,
            |k: Seq<char>| find_entry(self.entries@, k)->0,
        )
    }
}

proof fn lemma_find_skip<V: Model>(s: Seq<(String, V)>, name: Seq<char>, i: int)
    requires
        0 <= i <= s.len(),
        forall|k: int| 0 <= k < i ==> (#[trigger] s[k]).0@ != name,
    ensures
        find_entry(s, name) == find_entry(s.skip(i), name),
    decreases i,
{
    if i > 0 {
        let t = s.drop_first();
        assert forall|k: int| 0 <= k < i - 1 implies (#[trigger] t[k]).0@ != name by {
            assert(t[k] == s[k + 1]);
        }
        lemma_find_skip(t, name, i - 1);
        assert(t.skip(i - 1) =~= s.skip(i));
        assert(s[0].0@ != name);
    } else {
        assert(s.skip(0) =~= s);
    }
}

proof fn lemma_find_push<V: Model>(s: Seq<(String, V)>, e: (String, V), name: Seq<char>)
    ensures
        find_entry(s.push(e), name) == (if find_entry(s, name) is Some {
            find_entry(s, name)
        } else if e.0@ == name {
            Some(e.1.model())
        } else {
            None
        }),
    decreases s.len(),
{
    if s.len() == 0 {
        assert(s.push(e).drop_first() =~= Seq::<(String, V)>::empty());
        reveal_with_fuel(find_entry, 2);
    } else {
        assert(s.push(e).drop_first() =~= s.drop_first().push(e));
        lemma_find_push(s.drop_first(), e, name);
    }
}

impl<V: Model> Table<V> {
    /// The empty table.
    pub fn new() -> (r: Self)
        ensures
            r@ == Map::<Seq<char>, V::M>::empty(),
    {
        let r = Table { entries: Vec::new() };
        proof {
            assert(r@ =~= Map::<Seq<char>, V::M>::empty());
        }
        r
    }

    /// The value of `name`.
    pub fn get(&self, name: &str) -> (r: Option<&V>)
        ensures
            match r {
                Some(v) => self@.contains_key(name@) && v.model() == self@[name@],
                None => !self@.contains_key(name@),
            },
    {
        let mut i: usize = 0;
        while i < self.entries.len()
            invariant
                i <= self.entries@.len(),
                forall|k: int| 0 <= k < i ==> (#[trigger] self.entries@[k]).0@ != name@,
            decreases self.entries@.len() - i,
        {
            if self.entries[i].0.as_str().to_owned() == name.to_owned() {
                proof {
                    lemma_find_skip(self.entries@, name@, i as int);
                    assert(self.entries@.skip(i as int)[0] == self.entries@[i as int]);
                }
                return Some(&self.entries[i].1);
            }
            i += 1;
        }
        proof {
            lemma_find_skip(self.entries@, name@, self.entries@.len() as int);
            assert(self.entries@.skip(self.entries@.len() as int) =~= Seq::empty());
        }
        None
    }

    /// A copy of the value of `name`.
    pub fn get_dup(&self, name: &str) -> (r: Option<V>)
        ensures
            r.model() == at(self@, name@),
    {
        match self.get(name) {
            Some(v) => Some(v.dup()),
            None => None,
        }
    }

    /// Whether `name` has a value.
    pub fn contains_key(&self, name: &str) -> (r: bool)
        ensures
            r == self@.contains_key(name@),
    {
        self.get(name).is_some()
    }

    /// Drops the value of `name`.
    pub fn remove(&mut self, name: &str)
        ensures
            final(self)@ == old(self)@.remove(name@),
    {
        let ghost s = self.entries@;
        let mut kept: Vec<(String, V)> = Vec::new();
        let mut i: usize = 0;
        while i < self.entries.len()
            invariant
                i <= self.entries@.len(),
                self.entries@ == s,
                forall|k: Seq<char>|
                    k != name@ ==> #[trigger] find_entry(kept@, k) == find_entry(
                        s.take(i as int),
                        k,
                    ),
                find_entry(kept@, name@) is None,
            decreases self.entries@.len() - i,
        {
            let key = self.entries[i].0.clone();
            let value = self.entries[i].1.dup();
            proof {
                assert(s.take(i + 1) =~= s.take(i as int).push(s[i as int]));
                assert forall|k: Seq<char>| true implies #[trigger] find_entry(
                    s.take(i + 1),
                    k,
                ) == (
                if find_entry(s.take(i as int), k) is Some {
                    find_entry(s.take(i as int), k)
                } else if s[i as int].0@ == k {
                    Some(s[i as int].1.model())
                } else {
                    None
                }) by {
                    lemma_find_push(s.take(i as int), s[i as int], k);
                }
            }
            if key != name.to_owned() {
                let ghost before = kept@;
                kept.push((key, value));
                proof {
                    assert forall|k: Seq<char>| true implies #[trigger] find_entry(kept@, k) == (
                    if find_entry(before, k) is Some {
                        find_entry(before, k)
                    } else if s[i as int].0@ == k {
                        Some(s[i as int].1.model())
                    } else {
                        None
                    }) by {
                        lemma_find_push(before, (key, value), k);
                    }
                }
            }
            i += 1;
        }
        proof {
            assert(s.take(s.len() as int) =~= s);
        }
        self.entries = kept;
        proof {
            assert(self@ =~= old(self)@.remove(name@));
        }
    }

    /// Gives `name` the value `value`.
    pub fn insert(&mut self, name: String, value: V)
        ensures
            final(self)@ == old(self)@.insert(name@, value.model()),
    {
        self.remove(&name);
        let ghost before = self.entries@;
        let ghost mid = self@;
        proof {
            assert(!mid.contains_key(name@));
            assert forall|k: Seq<char>| mid.contains_key(k) == (
                #[trigger] find_entry(before, k) is Some
            )
                && (mid.contains_key(k) ==> mid[k] == find_entry(before, k)->0) by {}
        }
        self.entries.push((name, value));
        proof {
            assert forall|k: Seq<char>| true implies #[trigger] find_entry(self.entries@, k) == (
            if find_entry(before, k) is Some {
                find_entry(before, k)
            } else if name@ == k {
                Some(value.model())
            } else {
                None
            }) by {
                lemma_find_push(before, (name, value), k);
            }
            let r = old(self)@.insert(name@, value.model());
            assert forall|k: Seq<char>| self@.contains_key(k) == r.contains_key(k) by {
                assert(find_entry(self.entries@, k) is Some == self@.contains_key(k));
                assert(find_entry(before, k) is Some == mid.contains_key(k));
            }
            assert forall|k: Seq<char>| r.contains_key(k) implies self@[k] == r[k] by {
                assert(find_entry(self.entries@, k) is Some == self@.contains_key(k));
                assert(find_entry(before, k) is Some == mid.contains_key(k));
            }
            assert(self@ =~= r);
        }
    }
}

proof fn lemma_find_index<V: Model>(s: Seq<(String, V)>, name: Seq<char>)
    requires
        find_entry(s, name) is Some,
    ensures
        exists|i: int| 0 <= i < s.len() && (#[trigger] s[i]).0@ == name,
    decreases s.len(),
{
    if s[0].0@ != name {
        lemma_find_index(s.drop_first(), name);
        let i = choose|i: int|
            0 <= i < s.drop_first().len() && (#[trigger] s.drop_first()[i]).0@ == name;
        assert(s[i + 1].0@ == name);
    }
}

impl<V: Model> Table<V> {
    /// The names that have a value.
    pub fn keys(&self) -> (r: Vec<String>)
        ensures
            forall|n: Seq<char>| #[trigger]
                self@.contains_key(n) == exists|i: int| 0 <= i < r@.len() && (
                    #[trigger] r@[i]
                )@ == n,
    {
        let mut r: Vec<String> = Vec::new();
        let mut i: usize = 0;
        while i < self.entries.len()
            invariant
                i <= self.entries@.len(),
                r@.len() == i,
                forall|k: int| 0 <= k < i ==> (#[trigger] r@[k])@ == self.entries@[k].0@,
            decreases self.entries@.len() - i,
        {
            r.push(self.entries[i].0.clone());
            i += 1;
        }
        proof {
            assert forall|n: Seq<char>| #[trigger] self@.contains_key(n) == exists|i: int|
                0 <= i < r@.len() && (#[trigger] r@[i])@ == n by {
                if self@.contains_key(n) {
                    lemma_find_index(self.entries@, n);
                    let j = choose|j: int|
                        0 <= j < self.entries@.len() && (#[trigger] self.entries@[j]).0@ == n;
                    assert(r@[j]@ == n);
                }
                if exists|i: int| 0 <= i < r@.len() && (#[trigger] r@[i])@ == n {
                    let j = choose|j: int| 0 <= j < r@.len() && (#[trigger] r@[j])@ == n;
                    lemma_find_present(self.entries@, j);
                    assert(self.entries@[j].0@ == n);
                }
            }
        }
        r
    }
}

impl Table<bool> {
    /// Whether some name has the value `false`.
    pub fn has_false(&self) -> (r: bool)
        ensures
            r == exists|k: Seq<char>| #[trigger] self@.contains_key(k) && !self@[k],
    {
        let mut i: usize = 0;
        while i < self.entries.len()
            invariant
                i <= self.entries@.len(),
                forall|j: int|
                    0 <= j < i ==> {
                        let k = (#[trigger] self.entries@[j]).0@;
                        self@.contains_key(k) && self@[k]
                    },
            decreases self.entries@.len() - i,
        {
            let key = self.entries[i].0.clone();
            proof {
                lemma_find_present(self.entries@, i as int);
            }
            match self.get(&key) {
                Some(b) => {
                    if !*b {
                        return true;
                    }
                },
                None => {
                    proof {
                        assert(self@.contains_key(key@));
                    }
                },
            }
            i += 1;
        }
        proof {
            assert forall|k: Seq<char>| #[trigger] self@.contains_key(k) implies self@[k] by {
                lemma_find_index(self.entries@, k);
            }
        }
        false
    }
}

proof fn lemma_find_present<V: Model>(s: Seq<(String, V)>, i: int)
    requires
        0 <= i < s.len(),
    ensures
        find_entry(s, s[i].0@) is Some,
    decreases s.len(),
{
    if i > 0 && s[0].0@ != s[i].0@ {
        lemma_find_present(s.drop_first(), i - 1);
        assert(s.drop_first()[i - 1] == s[i]);
    }
}

impl<V: Model> Model for Table<V> {
    type M = Map<Seq<char>, V::M>;

    open spec fn model(&self) -> Map<Seq<char>, V::M> {
        self@
    }

    fn dup(&self) -> (r: Self) {
        let r = Table { entries: self.entries.dup() };
        proof {
            assert forall|k: Seq<char>| true implies #[trigger] find_entry(r.entries@, k)
                == find_entry(self.entries@, k) by {
                assert(r.entries.model() == self.entries.model());
                lemma_find_same(r.entries, self.entries, 0, k);
                assert(r.entries@.skip(0) =~= r.entries@);
                assert(self.entries@.skip(0) =~= self.entries@);
            }
            assert(r@ =~= self@);
        }
        r
    }
}

proof fn lemma_find_same<V: Model>(
    a: Vec<(String, V)>,
    b: Vec<(String, V)>,
    i: int,
    name: Seq<char>,
)
    requires
        a.model() == b.model(),
        0 <= i <= a@.len(),
    ensures
        find_entry(a@.skip(i), name) == find_entry(b@.skip(i), name),
    decreases a@.len() - i,
{
    assert(a.model().len() == a@.len());
    assert(b.model().len() == b@.len());
    if i < a@.len() {
        assert(a.model()[i] == b.model()[i]);
        lemma_find_same(a, b, i + 1, name);
        assert(a@.skip(i).drop_first() =~= a@.skip(i + 1));
        assert(b@.skip(i).drop_first() =~= b@.skip(i + 1));
    } else {
        assert(a@.skip(i) =~= Seq::empty());
        assert(b@.skip(i) =~= Seq::empty());
    }
}

impl Model for Names {
    type M = Set<Seq<char>>;

    open spec fn model(&self) -> Set<Seq<char>> {
        self@
    }

    fn dup(&self) -> (r: Self) {
        let r = Names { items: self.items.dup() };
        proof {
            assert(r.items.model() == self.items.model());
            assert(r.items@.len() == r.items.model().len());
            assert(self.items@.len() == self.items.model().len());
            assert forall|k: int| 0 <= k < r.items@.len() implies (
                #[trigger] r.items@[k]
            )@ == self.items@[k]@ by {
                assert(r.items.model()[k] == self.items.model()[k]);
            }
            assert forall|x: Seq<char>| r@.contains(x) == self@.contains(x) by {
                if r@.contains(x) {
                    let i = choose|i: int| 0 <= i < r.items@.len() && (
                        #[trigger] r.items@[i]
                    )@ == x;
                    assert(self.items@[i]@ == x);
                }
                if self@.contains(x) {
                    let i = choose|i: int| 0 <= i < self.items@.len() && (
                        #[trigger] self.items@[i]
                    )@ == x;
                    assert(r.items@[i]@ == x);
                }
            }
            assert(r@ =~= self@);
        }
        r
    }
}

/// Whether a path is `name` or ends with it as a segment.
pub open spec fn names_segment(path: Seq<char>, name: Seq<char>) -> bool {
    path == name || ends_with(path, "::"@ + name)
}

/// Whether one of the paths is `name` or ends with it as a segment.
pub open spec fn has_segment(paths: Set<Seq<char>>, name: Seq<char>) -> bool {
    exists|p: Seq<char>| #[trigger] paths.contains(p) && names_segment(p, name)
}

/// A set of names.
pub struct Names {
    items: Vec<String>,
}

impl View for Names {
    type V = Set<Seq<char>>;

    closed spec fn view(&self) -> Set<Seq<char>> {
        Set::new(
            |k: Seq<char>| exists|i: int| 0 <= i < self.items@.len() && (
                #[trigger] self.items@[i]
            )@ == k,
        )
    }
}

/// Whether a text comes before another one in the order of their characters.
pub open spec fn text_before(a: Seq<char>, b: Seq<char>) -> bool
    decreases a.len(),
{
    if b.len() == 0 {
        false
    } else if a.len() == 0 {
        true
    } else if a[0] == b[0] {
        text_before(a.drop_first(), b.drop_first())
    } else {
        a[0] < b[0]
    }
}

/// Of two texts that differ, exactly one comes first.
pub proof fn lemma_text_order(a: Seq<char>, b: Seq<char>)
    ensures
        !(text_before(a, b) && text_before(b, a)),
        a == b || text_before(a, b) || text_before(b, a),
        !text_before(a, a),
    decreases a.len(),
{
    if a.len() > 0 {
        lemma_text_order(a.drop_first(), a.drop_first());
    }
    if a.len() > 0 && b.len() > 0 {
        if a[0] == b[0] {
            lemma_text_order(a.drop_first(), b.drop_first());
            if a.drop_first() == b.drop_first() {
                assert(a =~= seq![a[0]] + a.drop_first());
                assert(b =~= seq![b[0]] + b.drop_first());
            }
        } else {
            assert(a[0] < b[0] || b[0] < a[0]);
        }
    } else if a.len() == 0 && b.len() == 0 {
        assert(a =~= b);
    }
}

/// What comes before a text comes before all that this comes before.
pub proof fn lemma_text_before(a: Seq<char>, b: Seq<char>, c: Seq<char>)
    requires
        text_before(a, b),
        text_before(b, c),
    ensures
        text_before(a, c),
    decreases a.len(),
{
    if a.len() > 0 && a[0] == b[0] && b[0] == c[0] {
        lemma_text_before(a.drop_first(), b.drop_first(), c.drop_first());
    }
}

/// Whether a text comes before another one in the order of their characters.
fn comes_before(a: &str, b: &str) -> (r: bool)
    ensures
        r == text_before(a@, b@),
{
    let x = to_chars(a);
    let y = to_chars(b);
    let mut i: usize = 0;
    proof {
        assert(a@.skip(0) =~= a@);
        assert(b@.skip(0) =~= b@);
    }
    while i < x.len() && i < y.len()
        invariant
            x@ == a@,
            y@ == b@,
            i <= x@.len(),
            i <= y@.len(),
            text_before(a@.skip(i as int), b@.skip(i as int)) == text_before(a@, b@),
        decreases x@.len() - i,
    {
        proof {
            assert(a@.skip(i as int).drop_first() =~= a@.skip(i + 1));
            assert(b@.skip(i as int).drop_first() =~= b@.skip(i + 1));
        }
        if x[i] != y[i] {
            return x[i] < y[i];
        }
        i += 1;
    }
    i < y.len()
}

/// Whether a name is the first of a set.
pub open spec fn is_first_name(names: Set<Seq<char>>, n: Seq<char>) -> bool {
    names.contains(n) && forall|m: Seq<char>| #[trigger] names.contains(m) ==> !text_before(m, n)
}

/// The first name of a set in the order of their characters, if it has a first one.
pub open spec fn first_name(names: Set<Seq<char>>) -> Option<Seq<char>> {
    if exists|n: Seq<char>| is_first_name(names, n) {
        Some(choose|n: Seq<char>| is_first_name(names, n))
    } else {
        None
    }
}

impl Names {
    /// The first name, in the order of their characters, that two sets share.
    pub fn first_shared(&self, other: &Names) -> (r: Option<String>)
        ensures
            r.model() == first_name(self@.intersect(other@)),
            r is None <==> self@.disjoint(other@),
    {
        let ghost shared = self@.intersect(other@);
        let mut best: Option<String> = None;
        let mut i: usize = 0;
        while i < self.items.len()
            invariant
                i <= self.items@.len(),
                shared == self@.intersect(other@),
                best matches Some(b) ==> shared.contains(b@),
                forall|k: int|
                    0 <= k < i && other@.contains(
                        (#[trigger] self.items@[k])@,
                    ) ==> (best matches Some(
                        b,
                    ) && !text_before(self.items@[k]@, b@)),
            decreases self.items@.len() - i,
        {
            let ghost before = best;
            proof {
                assert(self@.contains(self.items@[i as int]@));
            }
            if other.contains(&self.items[i]) {
                let better = match &best {
                    Some(b) => comes_before(&self.items[i], b),
                    None => true,
                };
                if better {
                    best = Some(self.items[i].clone());
                }
                proof {
                    let new = self.items@[i as int]@;
                    lemma_text_order(new, new);
                    assert forall|k: int|
                        0 <= k < i + 1 && other@.contains((#[trigger] self.items@[k])@) implies (
                    best matches Some(b) && !text_before(self.items@[k]@, b@)) by {
                        if k < i {
                            let x = self.items@[k]@;
                            let b = before->0@;
                            if better && text_before(x, new) {
                                lemma_text_before(x, new, b);
                            }
                        }
                    }
                }
            }
            i += 1;
        }
        proof {
            assert forall|m: Seq<char>| #[trigger] shared.contains(m) implies (best matches Some(b)
                && !text_before(m, b@)) by {
                let k = choose|k: int| 0 <= k < self.items@.len() && (
                    #[trigger] self.items@[k]
                )@ == m;
                assert(other@.contains(self.items@[k]@));
            }
            if best is Some {
                let b = best->0@;
                assert(is_first_name(shared, b));
                let c = choose|n: Seq<char>| is_first_name(shared, n);
                assert(is_first_name(shared, c));
                lemma_text_order(b, c);
                assert(!self@.disjoint(other@)) by {
                    assert(self@.contains(b) && other@.contains(b));
                }
            } else {
                assert(self@.disjoint(other@)) by {
                    assert forall|m: Seq<char>| self@.contains(m) implies !other@.contains(m) by {
                        if other@.contains(m) {
                            assert(shared.contains(m));
                        }
                    }
                }
            }
        }
        best
    }

    /// The empty set.
    pub fn new() -> (r: Self)
        ensures
            r@ == Set::<Seq<char>>::empty(),
    {
        let r = Names { items: Vec::new() };
        proof {
            assert(r@ =~= Set::<Seq<char>>::empty());
        }
        r
    }

    /// Whether `name` is in the set.
    pub fn contains(&self, name: &str) -> (r: bool)
        ensures
            r == self@.contains(name@),
    {
        let mut i: usize = 0;
        while i < self.items.len()
            invariant
                i <= self.items@.len(),
                forall|k: int| 0 <= k < i ==> (#[trigger] self.items@[k])@ != name@,
            decreases self.items@.len() - i,
        {
            if self.items[i] == name.to_owned() {
                return true;
            }
            i += 1;
        }
        false
    }

    /// Whether `name` is in the set, by itself or as the last segment of a path.
    pub fn contains_segment(&self, name: &str) -> (r: bool)
        ensures
            r == has_segment(self@, name@),
    {
        let tail = cat("::", name);
        let mut i: usize = 0;
        while i < self.items.len()
            invariant
                i <= self.items@.len(),
                tail@ == "::"@ + name@,
                forall|k: int| 0 <= k < i ==> !names_segment((#[trigger] self.items@[k])@, name@),
            decreases self.items@.len() - i,
        {
            if self.items[i] == name.to_owned() || has_suffix(&self.items[i], &tail) {
                proof {
                    assert(self@.contains(self.items@[i as int]@));
                    assert(names_segment(self.items@[i as int]@, name@));
                }
                return true;
            }
            i += 1;
        }
        proof {
            assert forall|k: Seq<char>| #[trigger] self@.contains(k) implies !names_segment(k, name@) by {
                let j = choose|j: int| 0 <= j < self.items@.len() && (
                    #[trigger] self.items@[j]
                )@ == k;
                assert(!names_segment(self.items@[j]@, name@));
            }
        }
        false
    }

    /// Puts `name` into the set.
    pub fn insert(&mut self, name: String)
        ensures
            final(self)@ == old(self)@.insert(name@),
    {
        let ghost before = self.items@;
        self.items.push(name);
        proof {
            assert(self@ =~= old(self)@.insert(name@)) by {
                assert forall|k: Seq<char>| self@.contains(k) == old(self)@.insert(name@).contains(k) by {
                    if old(self)@.contains(k) {
                        let i = choose|i: int| 0 <= i < before.len() && (
                            #[trigger] before[i]
                        )@ == k;
                        assert(self.items@[i]@ == k);
                    }
                    if k == name@ {
                        assert(self.items@[before.len() as int]@ == k);
                    }
                    if self@.contains(k) {
                        let i = choose|i: int|
                            0 <= i < self.items@.len() && (#[trigger] self.items@[i])@ == k;
                        if i < before.len() {
                            assert(before[i]@ == k);
                        }
                    }
                }
            }
        }
    }
}

} // verus!
