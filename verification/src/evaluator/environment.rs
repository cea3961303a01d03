//! Scopes and the chains they form.

use vstd::prelude::*;
use crate::evaluator::error::{EvalError, EvalErrorView, outcome_view};
use crate::evaluator::value::{Builtin, Callable, Value, ValueView};
use crate::text::same_text;

verus! {

/// One name with its value.
#[derive(Debug)]
pub struct Binding {
    name: String,
    value: Value,
}

/// One scope: its own bindings and the scope it was made inside of.
#[derive(Debug)]
pub struct Scope {
    bindings: Vec<Binding>,
    parent: Option<usize>,
}

/// What a [`Scope`] stands for: a map from names to values, and the parent.
pub struct ScopeView {
    pub bindings: Map<Seq<char>, ValueView>,
    pub parent: Option<usize>,
}

/// The map that a list of bindings stands for: a later binding of a name
/// hides the earlier ones.
pub closed spec fn map_of(entries: Seq<Binding>) -> Map<Seq<char>, ValueView>
    decreases entries.len(),
{
    if entries.len() == 0 {
        Map::empty()
    } else {
        map_of(entries.drop_last()).insert(entries.last().name@, entries.last().value@)
    }
}

proof fn lemma_map_of_push(entries: Seq<Binding>, last: Binding)
    ensures
        map_of(entries.push(last)) == map_of(entries).insert(last.name@, last.value@),
{
    assert(entries.push(last).drop_last() =~= entries);
}

/// Bindings from `from` on that do not bind `name` do not matter to `name`.
proof fn lemma_map_of_skips(entries: Seq<Binding>, from: int, name: Seq<char>)
    requires
        0 <= from <= entries.len(),
        forall|j: int| from <= j < entries.len() ==> entries[j].name@ != name,
    ensures
        map_of(entries).contains_key(name) == map_of(entries.take(from)).contains_key(name),
        map_of(entries).contains_key(name) ==> map_of(entries)[name] == map_of(
            entries.take(from),
        )[name],
    decreases entries.len() - from,
{
    if from == entries.len() {
        assert(entries.take(from) =~= entries);
    } else {
        let shorter = entries.drop_last();
        lemma_map_of_skips(shorter, from, name);
        assert(shorter.take(from) =~= entries.take(from));
    }
}

/// The last binding of a name is the one that counts.
proof fn lemma_map_of_last_match(entries: Seq<Binding>, at: int, name: Seq<char>)
    requires
        0 <= at < entries.len(),
        entries[at].name@ == name,
        forall|j: int| at < j < entries.len() ==> entries[j].name@ != name,
    ensures
        map_of(entries).contains_key(name),
        map_of(entries)[name] == entries[at].value@,
{
    lemma_map_of_skips(entries, at + 1, name);
    assert(entries.take(at + 1).drop_last() =~= entries.take(at));
    assert(entries.take(at + 1).last() == entries[at]);
}

/// Replacing the last binding of a name rebinds the name and nothing else.
proof fn lemma_map_of_update(entries: Seq<Binding>, at: int, replacement: Binding)
    requires
        0 <= at < entries.len(),
        entries[at].name@ == replacement.name@,
        forall|j: int| at < j < entries.len() ==> entries[j].name@ != replacement.name@,
    ensures
        map_of(entries.update(at, replacement)) == map_of(entries).insert(
            replacement.name@,
            replacement.value@,
        ),
    decreases entries.len(),
{
    let updated = entries.update(at, replacement);
    if at == entries.len() - 1 {
        assert(updated.drop_last() =~= entries.drop_last());
        assert(map_of(updated) =~= map_of(entries).insert(replacement.name@, replacement.value@));
    } else {
        lemma_map_of_update(entries.drop_last(), at, replacement);
        assert(updated.drop_last() =~= entries.drop_last().update(at, replacement));
        assert(updated.last() == entries.last());
        assert(map_of(updated) =~= map_of(entries).insert(replacement.name@, replacement.value@));
    }
}

/// Lists that bind the same names to the same values in the same order
/// stand for the same map.
proof fn lemma_map_of_same(a: Seq<Binding>, b: Seq<Binding>)
    requires
        a.len() == b.len(),
        forall|i: int| 0 <= i < a.len() ==> a[i]@ == b[i]@,
    ensures
        map_of(a) == map_of(b),
    decreases a.len(),
{
    if a.len() > 0 {
        lemma_map_of_same(a.drop_last(), b.drop_last());
    }
}

impl View for Binding {
    type V = (Seq<char>, ValueView);

    closed spec fn view(&self) -> (Seq<char>, ValueView) {
        (self.name@, self.value@)
    }
}

impl Clone for Binding {
    fn clone(&self) -> (r: Binding)
        ensures
            r@ == self@,
    {
        Binding { name: self.name.clone(), value: self.value.clone() }
    }
}

impl Clone for Scope {
    /// A copy with the same bindings and the same parent.
    fn clone(&self) -> (r: Scope)
        ensures
            r@ == self@,
    {
        let mut bindings: Vec<Binding> = Vec::new();
        let mut i: usize = 0;
        while i < self.bindings.len()
            invariant
                i <= self.bindings.len(),
                bindings.len() == i,
                forall|j: int| 0 <= j < i ==> bindings@[j]@ == self.bindings@[j]@,
            decreases self.bindings.len() - i,
        {
            bindings.push(self.bindings[i].clone());
            i += 1;
        }
        proof {
            lemma_map_of_same(bindings@, self.bindings@);
        }
        Scope { bindings, parent: self.parent }
    }
}

/// What a list of bindings binds, one of its bindings binds.
proof fn lemma_map_of_keys(entries: Seq<Binding>, name: Seq<char>)
    requires
        map_of(entries).contains_key(name),
    ensures
        exists|i: int| 0 <= i < entries.len() && (#[trigger] entries[i]).name@ == name,
    decreases entries.len(),
{
    if entries.len() > 0 {
        if entries.last().name@ == name {
            assert(entries[entries.len() - 1].name@ == name);
        } else {
            lemma_map_of_keys(entries.drop_last(), name);
            let i = choose|i: int|
                0 <= i < entries.drop_last().len() && (#[trigger] entries.drop_last()[i]).name@
                    == name;
            assert(entries[i].name@ == name);
        }
    }
}

/// What one of the bindings of a list binds, the list binds.
proof fn lemma_map_of_has(entries: Seq<Binding>, at: int)
    requires
        0 <= at < entries.len(),
    ensures
        map_of(entries).contains_key(entries[at].name@),
    decreases entries.len(),
{
    if at < entries.len() - 1 {
        lemma_map_of_has(entries.drop_last(), at);
    }
}

impl View for Scope {
    type V = ScopeView;

    closed spec fn view(&self) -> ScopeView {
        ScopeView { bindings: map_of(self.bindings@), parent: self.parent }
    }
}

impl Scope {
    fn new(parent: Option<usize>) -> (r: Scope)
        ensures
            r@ == (ScopeView { bindings: Map::empty(), parent }),
    {
        Scope { bindings: Vec::new(), parent }
    }

    /// The index of the binding of `name` that counts, if there is one.
    fn find(&self, name: &str) -> (r: Option<usize>)
        ensures
            r is Some == self@.bindings.contains_key(name@),
            r matches Some(i) ==> {
                &&& i < self.bindings@.len()
                &&& self.bindings@[i as int].name@ == name@
                &&& self.bindings@[i as int].value@ == self@.bindings[name@]
                &&& forall|j: int| i < j < self.bindings@.len() ==> self.bindings@[j].name@ != name@
            },
    {
        let mut i: usize = self.bindings.len();
        while i > 0
            invariant
                i <= self.bindings@.len(),
                forall|j: int| i <= j < self.bindings@.len() ==> self.bindings@[j].name@ != name@,
            decreases i,
        {
            i -= 1;
            if same_text(self.bindings[i].name.as_str(), name) {
                proof {
                    lemma_map_of_last_match(self.bindings@, i as int, name@);
                }
                return Some(i);
            }
        }
        proof {
            lemma_map_of_skips(self.bindings@, 0, name@);
            assert(self.bindings@.take(0) =~= Seq::empty());
        }
        None
    }

    /// Whether `other` binds every name that this scope binds, and to the
    /// same value.
    fn within(&self, other: &Scope) -> (r: bool)
        ensures
            r == (forall|name: Seq<char>| #[trigger]
                self@.bindings.contains_key(name) ==> other@.bindings.contains_key(name)
                    && other@.bindings[name] == self@.bindings[name]),
    {
        let mut i: usize = 0;
        while i < self.bindings.len()
            invariant
                i <= self.bindings.len(),
                forall|j: int|
                    0 <= j < i ==> self@.bindings.contains_key((#[trigger] self.bindings@[j]).name@)
                        && other@.bindings.contains_key(self.bindings@[j].name@)
                        && other@.bindings[self.bindings@[j].name@]
                        == self@.bindings[self.bindings@[j].name@],
            decreases self.bindings.len() - i,
        {
            let name = self.bindings[i].name.as_str();
            let own = self.find(name);
            proof {
                lemma_map_of_has(self.bindings@, i as int);
            }
            match (own, other.find(name)) {
                (Some(mine), Some(theirs)) => {
                    if !self.bindings[mine].value.identical(&other.bindings[theirs].value) {
                        return false;
                    }
                },
                _ => {
                    return false;
                },
            }
            i += 1;
        }
        proof {
            assert forall|name: Seq<char>| #[trigger]
                self@.bindings.contains_key(name) implies other@.bindings.contains_key(name)
                && other@.bindings[name] == self@.bindings[name] by {
                lemma_map_of_keys(self.bindings@, name);
            }
        }
        true
    }

    /// Whether two scopes bind the same names to the same values and have
    /// the same parent.
    fn same(&self, other: &Scope) -> (r: bool)
        ensures
            r == (self@ == other@),
    {
        let parents = match (self.parent, other.parent) {
            (Some(a), Some(b)) => a == b,
            (None, None) => true,
            _ => false,
        };
        let r = parents && self.within(other) && other.within(self);
        proof {
            if r {
                assert(self@.bindings =~= other@.bindings);
            }
        }
        r
    }

    /// Binds `name` to `value`, in place of what it was bound to.
    fn put(&mut self, name: String, value: Value)
        ensures
            final(self)@ == (ScopeView {
                bindings: old(self)@.bindings.insert(name@, value@),
                parent: old(self)@.parent,
            }),
    {
        match self.find(name.as_str()) {
            Some(i) => {
                let replacement = Binding { name, value };
                proof {
                    lemma_map_of_update(self.bindings@, i as int, replacement);
                }
                self.bindings.set(i, replacement);
            },
            None => {
                let added = Binding { name, value };
                proof {
                    lemma_map_of_push(self.bindings@, added);
                }
                self.bindings.push(added);
            },
        }
    }
}

/// The scopes of one evaluator. A scope is named by its index; the global scope
/// has index 0. A scope's parent is an earlier scope, so a chain of parents
/// ends after finitely many steps: a parent link that does not lead to an
/// earlier scope is never followed.
#[derive(Debug)]
pub struct Environment {
    scopes: Vec<Scope>,
}

impl View for Environment {
    type V = Seq<ScopeView>;

    closed spec fn view(&self) -> Seq<ScopeView> {
        Seq::new(self.scopes@.len(), |i: int| self.scopes@[i]@)
    }
}

impl Clone for Environment {
    /// A copy with the same scopes. The copy is on its own: what is bound in
    /// one of the two afterwards is not seen in the other.
    fn clone(&self) -> (r: Environment)
        ensures
            r@ == self@,
    {
        let mut scopes: Vec<Scope> = Vec::new();
        let mut i: usize = 0;
        while i < self.scopes.len()
            invariant
                i <= self.scopes.len(),
                scopes.len() == i,
                forall|j: int| 0 <= j < i ==> scopes@[j]@ == self.scopes@[j]@,
            decreases self.scopes.len() - i,
        {
            scopes.push(self.scopes[i].clone());
            i += 1;
        }
        let r = Environment { scopes };
        assert(r@ =~= self@);
        r
    }
}

impl PartialEq for Environment {
    /// Two environments are equal when they have the same scopes: as many,
    /// and each with the bindings and the parent of its counterpart, in
    /// whatever order the names were bound.
    fn eq(&self, other: &Environment) -> (r: bool) {
        if self.scopes.len() != other.scopes.len() {
            assert(self@.len() != other@.len());
            return false;
        }
        let mut i: usize = 0;
        while i < self.scopes.len()
            invariant
                i <= self.scopes.len(),
                self.scopes.len() == other.scopes.len(),
                forall|j: int| 0 <= j < i ==> self.scopes@[j]@ == other.scopes@[j]@,
            decreases self.scopes.len() - i,
        {
            if !self.scopes[i].same(&other.scopes[i]) {
                assert(self@[i as int] != other@[i as int]);
                return false;
            }
            i += 1;
        }
        assert(self@ =~= other@);
        true
    }
}

impl vstd::std_specs::cmp::PartialEqSpecImpl for Environment {
    open spec fn obeys_eq_spec() -> bool {
        true
    }

    open spec fn eq_spec(&self, other: &Environment) -> bool {
        self@ == other@
    }
}

/// The parent that a lookup goes on with after `scope`, if there is one.
pub open spec fn outer(scopes: Seq<ScopeView>, scope: int) -> Option<int> {
    if 0 <= scope < scopes.len() {
        match scopes[scope].parent {
            Some(p) => if p < scope {
                Some(p as int)
            } else {
                None
            },
            None => None,
        }
    } else {
        None
    }
}

/// The value that `name` resolves to from `scope`: that of the innermost scope
/// of the chain that binds it.
pub open spec fn lookup(scopes: Seq<ScopeView>, scope: int, name: Seq<char>) -> Option<ValueView>
    decreases scope,
{
    if 0 <= scope < scopes.len() {
        if scopes[scope].bindings.contains_key(name) {
            Some(scopes[scope].bindings[name])
        } else {
            match outer(scopes, scope) {
                Some(p) => lookup(scopes, p, name),
                None => None,
            }
        }
    } else {
        None
    }
}

/// The scopes after `name` is bound to `value` in `scope` itself. A scope that
/// does not exist holds no bindings and takes none.
pub open spec fn defined(
    scopes: Seq<ScopeView>,
    scope: int,
    name: Seq<char>,
    value: ValueView,
) -> Seq<ScopeView> {
    if 0 <= scope < scopes.len() {
        scopes.update(
            scope,
            ScopeView {
                bindings: scopes[scope].bindings.insert(name, value),
                parent: scopes[scope].parent,
            },
        )
    } else {
        scopes
    }
}

/// The scope of the chain from `scope` that binds `name`, innermost first.
pub open spec fn binder(scopes: Seq<ScopeView>, scope: int, name: Seq<char>) -> Option<int>
    decreases scope,
{
    if 0 <= scope < scopes.len() {
        if scopes[scope].bindings.contains_key(name) {
            Some(scope)
        } else {
            match outer(scopes, scope) {
                Some(p) => binder(scopes, p, name),
                None => None,
            }
        }
    } else {
        None
    }
}

/// The bindings of the global scope of a new environment: each builtin under
/// its name.
pub open spec fn global_bindings() -> Map<Seq<char>, ValueView> {
    Map::<Seq<char>, ValueView>::empty().insert(
        "+"@,
        ValueView::Function(Callable::Builtin(Builtin::Add)),
    ).insert("-"@, ValueView::Function(Callable::Builtin(Builtin::Subtract))).insert(
        "*"@,
        ValueView::Function(Callable::Builtin(Builtin::Multiply)),
    ).insert("/"@, ValueView::Function(Callable::Builtin(Builtin::Divide))).insert(
        "="@,
        ValueView::Function(Callable::Builtin(Builtin::Equal)),
    ).insert("!="@, ValueView::Function(Callable::Builtin(Builtin::NotEqual))).insert(
        ">"@,
        ValueView::Function(Callable::Builtin(Builtin::Greater)),
    ).insert("<"@, ValueView::Function(Callable::Builtin(Builtin::Less))).insert(
        ">="@,
        ValueView::Function(Callable::Builtin(Builtin::GreaterOrEqual)),
    ).insert("<="@, ValueView::Function(Callable::Builtin(Builtin::LessOrEqual))).insert(
        "print"@,
        ValueView::Function(Callable::Builtin(Builtin::Print)),
    )
}

/// The scopes of a new environment: the global scope alone.
pub open spec fn initial_scopes() -> Seq<ScopeView> {
    seq![ScopeView { bindings: global_bindings(), parent: None }]
}

impl Environment {
    /// A new environment: one global scope, which has no parent and binds each
    /// builtin under its name.
    pub fn new() -> (r: Environment)
        ensures
            r@ == initial_scopes(),
    {
        let mut global = Scope::new(None);
        global.put(String::from_str("+"), Value::Function(Callable::Builtin(Builtin::Add)));
        global.put(String::from_str("-"), Value::Function(Callable::Builtin(Builtin::Subtract)));
        global.put(String::from_str("*"), Value::Function(Callable::Builtin(Builtin::Multiply)));
        global.put(String::from_str("/"), Value::Function(Callable::Builtin(Builtin::Divide)));
        global.put(String::from_str("="), Value::Function(Callable::Builtin(Builtin::Equal)));
        global.put(String::from_str("!="), Value::Function(Callable::Builtin(Builtin::NotEqual)));
        global.put(String::from_str(">"), Value::Function(Callable::Builtin(Builtin::Greater)));
        global.put(String::from_str("<"), Value::Function(Callable::Builtin(Builtin::Less)));
        global.put(
            String::from_str(">="),
            Value::Function(Callable::Builtin(Builtin::GreaterOrEqual)),
        );
        global.put(
            String::from_str("<="),
            Value::Function(Callable::Builtin(Builtin::LessOrEqual)),
        );
        global.put(String::from_str("print"), Value::Function(Callable::Builtin(Builtin::Print)));
        let mut scopes: Vec<Scope> = Vec::new();
        scopes.push(global);
        let r = Environment { scopes };
        assert(r@ =~= initial_scopes());
        r
    }

    /// The scopes can be counted.
    pub proof fn lemma_len_is_bounded(&self)
        ensures
            self@.len() <= usize::MAX,
    {
        assert(self.scopes.len() <= usize::MAX);
    }

    /// The number of scopes.
    pub fn len(&self) -> (r: usize)
        ensures
            r == self@.len(),
    {
        self.scopes.len()
    }

    /// Adds an empty scope inside `parent` and returns its index.
    pub fn new_with_parent(&mut self, parent: usize) -> (id: usize)
        ensures
            id == old(self)@.len(),
            final(self)@ == old(self)@.push(
                ScopeView { bindings: Map::empty(), parent: Some(parent) },
            ),
    {
        let id = self.scopes.len();
        self.scopes.push(Scope::new(Some(parent)));
        assert(self@ =~= old(self)@.push(
            ScopeView { bindings: Map::empty(), parent: Some(parent) },
        ));
        id
    }

    /// Resolves `name` from `scope`: the innermost scope of the chain that
    /// binds the name gives the value; if none does, the name is undefined.
    pub fn get(&self, scope: usize, name: &str) -> (r: Result<Value, EvalError>)
        ensures
            outcome_view(r) == match lookup(self@, scope as int, name@) {
                Some(v) => Ok::<ValueView, EvalErrorView>(v),
                None => Err(EvalErrorView::UndefinedVariable(name@)),
            },
    {
        let mut current: usize = scope;
        loop
            invariant
                lookup(self@, current as int, name@) == lookup(self@, scope as int, name@),
            decreases current,
        {
            if current >= self.scopes.len() {
                return Err(EvalError::UndefinedVariable(String::from_str(name)));
            }
            let here = &self.scopes[current];
            match here.find(name) {
                Some(i) => {
                    return Ok(here.bindings[i].value.clone());
                },
                None => {},
            }
            match here.parent {
                Some(p) => {
                    if p < current {
                        current = p;
                    } else {
                        return Err(EvalError::UndefinedVariable(String::from_str(name)));
                    }
                },
                None => {
                    return Err(EvalError::UndefinedVariable(String::from_str(name)));
                },
            }
        }
    }

    /// Binds `name` to `value` in `scope` itself, whatever the scopes around
    /// it bind.
    pub fn define(&mut self, scope: usize, name: String, value: Value)
        ensures
            final(self)@ == defined(old(self)@, scope as int, name@, value@),
    {
        if scope < self.scopes.len() {
            self.scopes[scope].put(name, value);
            assert(self@ =~= defined(old(self)@, scope as int, name@, value@));
        }
    }

    /// Rebinds `name` in the innermost scope of the chain from `scope` that
    /// binds it. If none does, nothing changes and the name is undefined.
    pub fn set(&mut self, scope: usize, name: String, value: Value) -> (r: Result<(), EvalError>)
        ensures
            match binder(old(self)@, scope as int, name@) {
                Some(b) => r is Ok && final(self)@ == defined(old(self)@, b, name@, value@),
                None => r matches Err(e) && e@ == EvalErrorView::UndefinedVariable(name@)
                    && final(self)@ == old(self)@,
            },
    {
        let mut current: usize = scope;
        loop
            invariant
                self@ == old(self)@,
                binder(self@, current as int, name@) == binder(self@, scope as int, name@),
            decreases current,
        {
            if current >= self.scopes.len() {
                return Err(EvalError::UndefinedVariable(name));
            }
            if self.scopes[current].find(name.as_str()).is_some() {
                self.define(current, name, value);
                return Ok(());
            }
            match self.scopes[current].parent {
                Some(p) => {
                    if p < current {
                        current = p;
                    } else {
                        return Err(EvalError::UndefinedVariable(name));
                    }
                },
                None => {
                    return Err(EvalError::UndefinedVariable(name));
                },
            }
        }
    }
}

} // verus!
