//! Evaluation values and the chained scope structure: an attribute mapping
//! with unique keys, an optional exclusively-owned parent scope, and a stack
//! of attached attribute sets used for `with`-scoping.
//!
//! Name resolution order: local attributes, then the parent chain (each
//! scope's local attributes), then the attached sets innermost first, then a
//! `Dep` placeholder naming the unresolved identifier.

#![verifier::loop_isolation(false)]

use vstd::prelude::*;
use crate::ast::{IdentExpr, LiteralExpr, LiteralV};

verus! {

/// An evaluation result. Text payloads own copies of their source slices;
/// float values are carried as text. `Dep` holds the names this value still
/// depends on.
#[derive(Debug, PartialEq)]
pub enum Value {
    Dep(Vec<String>),
    Str(String),
    Path(String),
    NixPath(String),
    Int(i32),
    Flo(String),
    Bool(bool),
    Null(),
    List(),
    AttrSet(),
    Func(),
    PFunc(),
}

/// The mathematical image of a value.
pub enum ValueV {
    Dep(Seq<Seq<char>>),
    Str(Seq<char>),
    Path(Seq<char>),
    NixPath(Seq<char>),
    Int(i32),
    Flo(Seq<char>),
    Bool(bool),
    Null,
    List,
    AttrSet,
    Func,
    PFunc,
}

/// The image of a sequence of names.
pub open spec fn names_view(s: Seq<String>) -> Seq<Seq<char>> {
    s.map_values(|x: String| x@)
}

impl View for Value {
    type V = ValueV;

    open spec fn view(&self) -> ValueV {
        match self {
            Value::Dep(names) => ValueV::Dep(names_view(names@)),
            Value::Str(s) => ValueV::Str(s@),
            Value::Path(s) => ValueV::Path(s@),
            Value::NixPath(s) => ValueV::NixPath(s@),
            Value::Int(i) => ValueV::Int(*i),
            Value::Flo(s) => ValueV::Flo(s@),
            Value::Bool(b) => ValueV::Bool(*b),
            Value::Null() => ValueV::Null,
            Value::List() => ValueV::List,
            Value::AttrSet() => ValueV::AttrSet,
            Value::Func() => ValueV::Func,
            Value::PFunc() => ValueV::PFunc,
        }
    }
}

/// The value a literal evaluates to, unconditionally.
pub open spec fn lit_value(l: LiteralV) -> ValueV {
    match l {
        LiteralV::Str(s) => ValueV::Str(s),
        LiteralV::Path(s) => ValueV::Path(s),
        LiteralV::NixPath(s) => ValueV::NixPath(s),
        LiteralV::Int(i) => ValueV::Int(i),
        LiteralV::Flo(s) => ValueV::Flo(s),
        LiteralV::Bool(b) => ValueV::Bool(b),
        LiteralV::Null => ValueV::Null,
    }
}

impl Clone for Value {
    /// Clones a value, preserving its mathematical image.
    fn clone(&self) -> (res: Self)
        ensures
            res@ == self@,
    {
        match self {
            Value::Dep(names) => Value::Dep(clone_names(names)),
            Value::Str(s) => Value::Str(s.clone()),
            Value::Path(s) => Value::Path(s.clone()),
            Value::NixPath(s) => Value::NixPath(s.clone()),
            Value::Int(i) => Value::Int(*i),
            Value::Flo(s) => Value::Flo(s.clone()),
            Value::Bool(b) => Value::Bool(*b),
            Value::Null() => Value::Null(),
            Value::List() => Value::List(),
            Value::AttrSet() => Value::AttrSet(),
            Value::Func() => Value::Func(),
            Value::PFunc() => Value::PFunc(),
        }
    }
}

impl Value {
    /// The value of a literal node.
    pub fn from(l: &LiteralExpr) -> (v: Value)
        ensures
            v@ == lit_value(l@),
    {
        match l {
            LiteralExpr::Str(s) => Value::Str(s.clone()),
            LiteralExpr::Int(i) => Value::Int(*i),
            LiteralExpr::Flo(s) => Value::Flo(s.clone()),
            LiteralExpr::Path(s) => Value::Path(s.clone()),
            LiteralExpr::NixPath(s) => Value::NixPath(s.clone()),
            LiteralExpr::Bool(b) => Value::Bool(*b),
            LiteralExpr::Null() => Value::Null(),
        }
    }
}

fn clone_names(v: &Vec<String>) -> (r: Vec<String>)
    ensures
        names_view(r@) == names_view(v@),
{
    let mut r: Vec<String> = Vec::new();
    let mut i: usize = 0;
    while i < v.len()
        invariant
            i <= v@.len(),
            r@.len() == i,
            forall|t: int| 0 <= t < i ==> r@[t]@ == v@[t]@,
        decreases v@.len() - i,
    {
        r.push(v[i].clone());
        i += 1;
    }
    proof {
        assert(names_view(r@) =~= names_view(v@));
    }
    r
}

/// One scope's attribute mapping, as stored: name-to-value pairs with
/// pairwise distinct names.
pub type Attributes = Vec<(String, Value)>;

/// The image of a stored attribute mapping.
pub open spec fn attrs_map(s: Seq<(String, Value)>) -> Map<Seq<char>, ValueV>
    decreases s.len(),
{
    if s.len() == 0 {
        Map::empty()
    } else {
        attrs_map(s.drop_last()).insert(s.last().0@, s.last().1@)
    }
}

/// Pairwise distinct names: the invariant of every stored attribute
/// mapping.
pub open spec fn attrs_wf(s: Seq<(String, Value)>) -> bool {
    forall|i: int, j: int| 0 <= i < j < s.len() ==> s[i].0@ != s[j].0@
}

/// A name is in the image exactly when some pair holds it.
pub proof fn lemma_attrs_map_contains(s: Seq<(String, Value)>, k: Seq<char>)
    ensures
        attrs_map(s).contains_key(k) <==> exists|i: int| 0 <= i < s.len() && s[i].0@ == k,
    decreases s.len(),
{
    if s.len() > 0 {
        lemma_attrs_map_contains(s.drop_last(), k);
        if attrs_map(s).contains_key(k) {
            if s.last().0@ != k {
                let i = choose|i: int| 0 <= i < s.drop_last().len() && s.drop_last()[i].0@ == k;
                assert(s[i].0@ == k);
            }
        }
        if exists|i: int| 0 <= i < s.len() && s[i].0@ == k {
            let i = choose|i: int| 0 <= i < s.len() && s[i].0@ == k;
            if i < s.len() - 1 {
                assert(s.drop_last()[i].0@ == k);
            }
        }
    }
}

/// Under the invariant, the image maps each stored name to its stored
/// value.
pub proof fn lemma_attrs_map_at(s: Seq<(String, Value)>, i: int)
    requires
        attrs_wf(s),
        0 <= i < s.len(),
    ensures
        attrs_map(s).contains_key(s[i].0@),
        attrs_map(s)[s[i].0@] == s[i].1@,
    decreases s.len(),
{
    lemma_attrs_map_contains(s, s[i].0@);
    if i < s.len() - 1 {
        assert(s.drop_last()[i] == s[i]);
        lemma_attrs_map_at(s.drop_last(), i);
        assert(s.last().0@ != s[i].0@);
    }
}

/// Appending a fresh pair inserts it into the image.
pub proof fn lemma_attrs_map_push(s: Seq<(String, Value)>, p: (String, Value))
    ensures
        attrs_map(s.push(p)) == attrs_map(s).insert(p.0@, p.1@),
{
    assert(s.push(p).drop_last() =~= s);
}

/// The failure of inserting a duplicate key into a scope.
#[derive(Debug, PartialEq, Eq, Structural, Clone, Copy)]
pub enum EnvError {
    /// The key is already present in the local attribute mapping.
    DuplicateKey,
}

/// A lexical scope: local attributes, an optional exclusively-owned parent,
/// and the stack of attached `with`-sets.
#[derive(Debug)]
pub struct Env {
    parent: Option<Box<Env>>,
    children: Vec<Attributes>,
    attrs: Attributes,
    allow_dep: bool,
}

/// The mathematical image of a scope.
pub struct EnvV {
    pub parent: Option<Box<EnvV>>,
    pub children: Seq<Map<Seq<char>, ValueV>>,
    pub attrs: Map<Seq<char>, ValueV>,
    pub allow_dep: bool,
}

/// The image of the attached-set stack.
pub open spec fn children_view(s: Seq<Attributes>) -> Seq<Map<Seq<char>, ValueV>>
    decreases s.len(),
{
    if s.len() == 0 {
        Seq::empty()
    } else {
        children_view(s.drop_last()).push(attrs_map(s.last()@))
    }
}

/// The image of a scope, parents included.
pub closed spec fn env_view(e: Env) -> EnvV
    decreases e,
{
    EnvV {
        parent: match e.parent {
            Some(p) => Some(Box::new(env_view(*p))),
            None => None,
        },
        children: children_view(e.children@),
        attrs: attrs_map(e.attrs@),
        allow_dep: e.allow_dep,
    }
}

impl View for Env {
    type V = EnvV;

    open spec fn view(&self) -> EnvV {
        env_view(*self)
    }
}

/// The invariant of a scope: every stored attribute mapping, its own and
/// each attached one, has pairwise distinct names, and so does every
/// ancestor.
pub closed spec fn env_wf(e: Env) -> bool
    decreases e,
{
    &&& attrs_wf(e.attrs@)
    &&& (forall|i: int| 0 <= i < e.children@.len() ==> attrs_wf(#[trigger] e.children@[i]@))
    &&& match e.parent {
        Some(p) => env_wf(*p),
        None => true,
    }
}

/// The first value stored under `name` in the parent chain's local
/// attributes, outermost scopes searched last.
pub open spec fn chain_find(p: Option<Box<EnvV>>, name: Seq<char>) -> Option<ValueV>
    decreases p,
{
    match p {
        None => None,
        Some(e) => if e.attrs.contains_key(name) {
            Some(e.attrs[name])
        } else {
            chain_find(e.parent, name)
        },
    }
}

/// The value stored under `name` in the attached sets, innermost first.
pub open spec fn attached_find(children: Seq<Map<Seq<char>, ValueV>>, name: Seq<char>) -> Option<
    ValueV,
>
    decreases children.len(),
{
    if children.len() == 0 {
        None
    } else if children.last().contains_key(name) {
        Some(children.last()[name])
    } else {
        attached_find(children.drop_last(), name)
    }
}

/// Resolution: local attributes, then the parent chain, then the attached
/// sets innermost first, then a `Dep` placeholder naming the identifier.
pub open spec fn spec_resolve(env: EnvV, name: Seq<char>) -> ValueV {
    if env.attrs.contains_key(name) {
        env.attrs[name]
    } else {
        match chain_find(env.parent, name) {
            Some(v) => v,
            None => match attached_find(env.children, name) {
                Some(v) => v,
                None => ValueV::Dep(seq![name]),
            },
        }
    }
}

/// Finds the first pair holding `name` in a stored attribute mapping.
fn attrs_get<'a>(attrs: &'a Vec<(String, Value)>, name: &str) -> (r: Option<&'a Value>)
    ensures
        match r {
            Some(v) => attrs_map(attrs@).contains_key(name@) && (attrs_wf(attrs@)
                ==> attrs_map(attrs@)[name@] == v@),
            None => !attrs_map(attrs@).contains_key(name@),
        },
{
    let mut i: usize = 0;
    while i < attrs.len()
        invariant
            i <= attrs@.len(),
            forall|t: int| 0 <= t < i ==> attrs@[t].0@ != name@,
        decreases attrs@.len() - i,
    {
        if crate::tokens::str_eq(attrs[i].0.as_str(), name) {
            proof {
                lemma_attrs_map_contains(attrs@, name@);
                if attrs_wf(attrs@) {
                    lemma_attrs_map_at(attrs@, i as int);
                }
            }
            return Some(&attrs[i].1);
        }
        i += 1;
    }
    proof {
        lemma_attrs_map_contains(attrs@, name@);
    }
    None
}

impl Env {
    /// Creates a scope, childless and empty, over an optional parent.
    pub fn new(maybe_parent: Option<Env>, allow_dep: bool) -> (r: Self)
        requires
            match maybe_parent {
                Some(p) => env_wf(p),
                None => true,
            },
        ensures
            env_wf(r),
            r@.attrs == Map::<Seq<char>, ValueV>::empty(),
            r@.children == Seq::<Map<Seq<char>, ValueV>>::empty(),
            r@.allow_dep == allow_dep,
            match maybe_parent {
                Some(p) => r@.parent == Some(Box::new(p@)),
                None => r@.parent is None,
            },
    {
        let children: Vec<Attributes> = Vec::new();
        let attrs: Attributes = Vec::new();
        Self { parent: match maybe_parent {
            Some(p) => Some(Box::new(p)),
            None => None,
        }, children, attrs, allow_dep }
    }

    /// Binds `key` locally; a key already present is a usage error and
    /// leaves the scope unchanged.
    pub fn set(&mut self, key: String, val: Value) -> (r: Result<(), EnvError>)
        requires
            env_wf(*old(self)),
        ensures
            env_wf(*final(self)),
            old(self)@.attrs.contains_key(key@) ==> r is Err && *final(self) == *old(self),
            !old(self)@.attrs.contains_key(key@) ==> {
                &&& r is Ok
                &&& final(self)@.attrs == old(self)@.attrs.insert(key@, val@)
                &&& final(self)@.parent == old(self)@.parent
                &&& final(self)@.children == old(self)@.children
                &&& final(self)@.allow_dep == old(self)@.allow_dep
            },
    {
        if attrs_get(&self.attrs, key.as_str()).is_some() {
            return Err(EnvError::DuplicateKey);
        }
        proof {
            lemma_attrs_map_contains(self.attrs@, key@);
            lemma_attrs_map_push(self.attrs@, (key, val));
        }
        self.attrs.push((key, val));
        Ok(())
    }

    /// Whether `key` is bound locally to a value that does not still depend
    /// on unresolved names.
    pub fn has_indep(&self, key: &str) -> (r: bool)
        requires
            env_wf(*self),
        ensures
            r == (self@.attrs.contains_key(key@) && !(self@.attrs[key@] is Dep)),
    {
        if let Some(v) = attrs_get(&self.attrs, key) {
            if let Value::Dep(_) = v {
                return false;
            }
            return true;
        }
        false
    }

    /// Local lookup only.
    pub fn get(&self, id: &IdentExpr) -> (r: Option<&Value>)
        requires
            env_wf(*self),
        ensures
            match r {
                Some(v) => self@.attrs.contains_key(id.name@) && v@ == self@.attrs[id.name@],
                None => !self@.attrs.contains_key(id.name@),
            },
    {
        attrs_get(&self.attrs, id.name.as_str())
    }

    /// Resolves a name: local attributes, then the parent chain, then the
    /// attached sets innermost first, then a `Dep` placeholder naming it.
    pub fn resolve(&self, id: &IdentExpr) -> (r: Value)
        requires
            env_wf(*self),
        ensures
            r@ == spec_resolve(self@, id.name@),
    {
        proof {
            assert(self@.attrs == attrs_map(self.attrs@));
            assert(self@.children == children_view(self.children@));
            assert(self@.parent == opt_env_view(self.parent));
        }
        if let Some(v) = attrs_get(&self.attrs, id.name.as_str()) {
            return v.clone();
        }
        if let Some(v) = chain_get(&self.parent, id.name.as_str()) {
            return v.clone();
        }
        let mut i: usize = self.children.len();
        proof {
            assert(self.children@.subrange(0, self.children@.len() as int) =~= self.children@);
        }
        while i > 0
            invariant
                i <= self.children@.len(),
                env_wf(*self),
                attached_find(env_view(*self).children, id.name@) == attached_find(
                    children_view(self.children@.subrange(0, i as int)),
                    id.name@,
                ),
            decreases i,
        {
            i = i - 1;
            proof {
                lemma_children_view_subrange(self.children@, i as int);
            }
            if let Some(v) = attrs_get(&self.children[i], id.name.as_str()) {
                return v.clone();
            }
            proof {
                assert(children_view(self.children@.subrange(0, i + 1)).drop_last()
                    =~= children_view(self.children@.subrange(0, i as int)));
                assert(attached_find(
                    children_view(self.children@.subrange(0, i + 1)),
                    id.name@,
                ) == attached_find(
                    children_view(self.children@.subrange(0, i as int)),
                    id.name@,
                ));
            }
        }
        proof {
            assert(self.children@.subrange(0, 0) =~= Seq::<Attributes>::empty());
        }
        let mut names: Vec<String> = Vec::new();
        names.push(String::from_str(id.name.as_str()));
        proof {
            assert(names_view(names@) =~= seq![id.name@]);
        }
        Value::Dep(names)
    }

    /// Pushes one attribute mapping onto the attached-set stack.
    pub fn attach(&mut self, attrs: Attributes)
        requires
            env_wf(*old(self)),
            attrs_wf(attrs@),
        ensures
            env_wf(*final(self)),
            final(self)@.children == old(self)@.children.push(attrs_map(attrs@)),
            final(self)@.attrs == old(self)@.attrs,
            final(self)@.parent == old(self)@.parent,
            final(self)@.allow_dep == old(self)@.allow_dep,
    {
        proof {
            lemma_children_view_push(self.children@, attrs);
        }
        self.children.push(attrs);
    }

    /// Pops the innermost attached attribute mapping, if any.
    pub fn dettach(&mut self) -> (r: Option<Attributes>)
        requires
            env_wf(*old(self)),
        ensures
            env_wf(*final(self)),
            final(self)@.attrs == old(self)@.attrs,
            final(self)@.parent == old(self)@.parent,
            final(self)@.allow_dep == old(self)@.allow_dep,
            match r {
                Some(a) => {
                    &&& old(self)@.children.len() > 0
                    &&& attrs_map(a@) == old(self)@.children.last()
                    &&& final(self)@.children == old(self)@.children.drop_last()
                },
                None => old(self)@.children.len() == 0 && final(self)@.children == old(self)@.children,
            },
    {
        let r = self.children.pop();
        proof {
            if old(self).children@.len() > 0 {
                assert(children_view(old(self).children@).drop_last() =~= children_view(
                    old(self).children@.drop_last(),
                )) by {
                    lemma_children_view_len(old(self).children@);
                    lemma_children_view_len(old(self).children@.drop_last());
                    assert(children_view(old(self).children@) == children_view(
                        old(self).children@.drop_last(),
                    ).push(attrs_map(old(self).children@.last()@)));
                }
            }
        }
        r
    }
}

/// The image of an optional parent link.
pub closed spec fn opt_env_view(p: Option<Box<Env>>) -> Option<Box<EnvV>>
    decreases p,
{
    match p {
        Some(e) => Some(Box::new(env_view(*e))),
        None => None,
    }
}

/// Walks the parent chain, returning the first local binding of `name`.
fn chain_get<'a>(cur: &'a Option<Box<Env>>, name: &str) -> (r: Option<&'a Value>)
    requires
        match cur {
            Some(e) => env_wf(**e),
            None => true,
        },
    ensures
        match r {
            Some(v) => chain_find(opt_env_view(*cur), name@) == Some(v@),
            None => chain_find(opt_env_view(*cur), name@) is None,
        },
    decreases cur,
{
    match cur {
        Some(e) => {
            if let Some(v) = attrs_get(&e.attrs, name) {
                Some(v)
            } else {
                chain_get(&e.parent, name)
            }
        },
        None => None,
    }
}

proof fn lemma_children_view_len(s: Seq<Attributes>)
    ensures
        children_view(s).len() == s.len(),
    decreases s.len(),
{
    if s.len() > 0 {
        lemma_children_view_len(s.drop_last());
    }
}

proof fn lemma_children_view_push(s: Seq<Attributes>, a: Attributes)
    ensures
        children_view(s.push(a)) == children_view(s).push(attrs_map(a@)),
{
    assert(s.push(a).drop_last() =~= s);
}

/// Searching the first `i + 1` attached sets checks the one at `i` first.
proof fn lemma_children_view_subrange(s: Seq<Attributes>, i: int)
    requires
        0 <= i < s.len(),
    ensures
        children_view(s.subrange(0, i + 1)) == children_view(s.subrange(0, i)).push(
            attrs_map(s[i]@),
        ),
{
    assert(s.subrange(0, i + 1).drop_last() =~= s.subrange(0, i));
    assert(s.subrange(0, i + 1).last() == s[i]);
}

} // verus!
