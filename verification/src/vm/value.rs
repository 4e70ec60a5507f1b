//! Runtime values and the environments that closures capture.
//!
//! Values are plain data. A closure owns a copy of the environment it was
//! created in, so no two holders ever share mutable state. Contracts speak
//! of values through their views: a tuple is a sequence, an environment is
//! a pair of maps keyed by name.

use vstd::prelude::*;
use vstd::std_specs::cmp::PartialEqSpecImpl;
use vstd::string::*;
use crate::text::{append_boolean, append_decimal, append_signed_decimal, boolean_text, decimal, signed_decimal};
use crate::types::Type;

verus! {

/// A runtime value.
#[derive(Debug)]
pub enum Value {
    Boolean(bool),
    /// A closure: the index of its first instruction and the environment
    /// it captured.
    Function(usize, Environment),
    Integer(i64),
    Tuple(Vec<Value>),
    Unit,
}

/// Named bindings: a value and a static type for each name, held
/// independently of each other. A name is bound at most once in the
/// mathematical view; binding it again replaces what it had.
#[derive(Debug)]
pub struct Environment {
    values: Vec<(String, Value)>,
    types: Vec<(String, Type)>,
}

/// What a value is, mathematically.
pub enum ValueView {
    Boolean(bool),
    Function(nat, EnvironmentView),
    Integer(i64),
    Tuple(Seq<ValueView>),
    Unit,
}

/// What an environment is, mathematically: two maps from names.
pub struct EnvironmentView {
    pub values: Map<Seq<char>, ValueView>,
    pub types: Map<Seq<char>, Type>,
}

impl EnvironmentView {
    /// The environment that binds nothing.
    pub open spec fn empty() -> EnvironmentView {
        EnvironmentView { values: Map::empty(), types: Map::empty() }
    }

    /// This environment with `name` bound to `value`.
    pub open spec fn with_value(self, name: Seq<char>, value: ValueView) -> EnvironmentView {
        EnvironmentView { values: self.values.insert(name, value), types: self.types }
    }

    /// This environment with `name` given the static type `typ`.
    pub open spec fn with_type(self, name: Seq<char>, typ: Type) -> EnvironmentView {
        EnvironmentView { values: self.values, types: self.types.insert(name, typ) }
    }
}

/// The index of the entry that decides what `name` is bound to: the last one
/// that carries the name.
spec fn position<V>(entries: Seq<(String, V)>, name: Seq<char>) -> Option<int>
    decreases entries.len(),
{
    if entries.len() == 0 {
        None
    } else if entries.last().0@ == name {
        Some(entries.len() - 1)
    } else {
        position(entries.drop_last(), name)
    }
}

/// The views of a sequence of values, in order.
pub open spec fn values_view(items: Seq<Value>) -> Seq<ValueView>
    decreases items,
{
    if items.len() == 0 {
        Seq::empty()
    } else {
        values_view(items.drop_last()).push(items.last().view())
    }
}

/// The map that a list of value bindings stands for.
spec fn value_bindings_view(entries: Seq<(String, Value)>) -> Map<Seq<char>, ValueView>
    decreases entries,
{
    if entries.len() == 0 {
        Map::empty()
    } else {
        value_bindings_view(entries.drop_last()).insert(
            entries.last().0@,
            entries.last().1.view(),
        )
    }
}

/// The map that a list of type bindings stands for.
spec fn type_bindings_view(entries: Seq<(String, Type)>) -> Map<Seq<char>, Type>
    decreases entries.len(),
{
    if entries.len() == 0 {
        Map::empty()
    } else {
        type_bindings_view(entries.drop_last()).insert(entries.last().0@, entries.last().1)
    }
}

impl View for Value {
    type V = ValueView;

    open spec fn view(&self) -> ValueView
        decreases self,
    {
        match self {
            Value::Boolean(b) => ValueView::Boolean(*b),
            Value::Function(entry, env) => ValueView::Function(*entry as nat, env.view()),
            Value::Integer(i) => ValueView::Integer(*i),
            Value::Tuple(items) => ValueView::Tuple(values_view(items@)),
            Value::Unit => ValueView::Unit,
        }
    }
}

impl View for Environment {
    type V = EnvironmentView;

    closed spec fn view(&self) -> EnvironmentView
        decreases self,
    {
        EnvironmentView {
            values: value_bindings_view(self.values@),
            types: type_bindings_view(self.types@),
        }
    }
}

/// `values_view` acts on each item by itself.
pub proof fn lemma_values_view(items: Seq<Value>)
    ensures
        values_view(items).len() == items.len(),
        forall|i: int| 0 <= i < items.len() ==> #[trigger] values_view(items)[i] == items[i]@,
    decreases items.len(),
{
    if items.len() > 0 {
        lemma_values_view(items.drop_last());
        assert(values_view(items) == values_view(items.drop_last()).push(items.last()@));
    } else {
        assert(values_view(items).len() == 0);
    }
}

/// What `position` finds: the last entry with the name, if there is one.
proof fn lemma_position<V>(entries: Seq<(String, V)>, name: Seq<char>)
    ensures
        match position(entries, name) {
            Some(i) => 0 <= i < entries.len() && entries[i].0@ == name && forall|j: int|
                i < j < entries.len() ==> (#[trigger] entries[j]).0@ != name,
            None => forall|j: int| 0 <= j < entries.len() ==> (#[trigger] entries[j]).0@ != name,
        },
    decreases entries.len(),
{
    if entries.len() == 0 {
        assert(position(entries, name) is None);
    } else if entries.last().0@ == name {
        assert(position(entries, name) == Some(entries.len() - 1));
    } else {
        let shorter = entries.drop_last();
        lemma_position(shorter, name);
        assert(position(entries, name) == position(shorter, name));
        assert forall|j: int| 0 <= j < shorter.len() implies #[trigger] entries[j] == shorter[j] by {}
    }
}

/// Replacing the deciding entry of a name by another entry of that name
/// moves no position.
proof fn lemma_position_update<V>(entries: Seq<(String, V)>, i: int, entry: (String, V))
    requires
        0 <= i < entries.len(),
        entries[i].0@ == entry.0@,
    ensures
        forall|name: Seq<char>| #[trigger]
            position(entries.update(i, entry), name) == position(entries, name),
    decreases entries.len(),
{
    let updated = entries.update(i, entry);
    if i == entries.len() - 1 {
        assert(updated.drop_last() =~= entries.drop_last());
    } else {
        lemma_position_update(entries.drop_last(), i, entry);
        assert(updated.drop_last() =~= entries.drop_last().update(i, entry));
        assert(updated.last() == entries.last());
    }
    assert forall|name: Seq<char>| #[trigger]
        position(updated, name) == position(entries, name) by {
        if updated.last().0@ == name {
            assert(position(updated, name) == Some(updated.len() - 1));
            assert(position(entries, name) == Some(entries.len() - 1));
        } else {
            assert(position(updated, name) == position(updated.drop_last(), name));
            assert(position(entries, name) == position(entries.drop_last(), name));
        }
    }
}

/// A value binding list binds exactly the names that have a position, each
/// to the value of its deciding entry.
proof fn lemma_value_lookup(entries: Seq<(String, Value)>, name: Seq<char>)
    ensures
        value_bindings_view(entries).contains_key(name) <==> position(entries, name) is Some,
        position(entries, name) matches Some(i) ==> value_bindings_view(entries)[name]
            == entries[i].1@,
    decreases entries.len(),
{
    if entries.len() == 0 {
        assert(position(entries, name) is None);
        assert(value_bindings_view(entries) == Map::<Seq<char>, ValueView>::empty());
    } else {
        let shorter = entries.drop_last();
        lemma_value_lookup(shorter, name);
        lemma_position(shorter, name);
        assert(value_bindings_view(entries) == value_bindings_view(shorter).insert(
            entries.last().0@,
            entries.last().1@,
        ));
        if entries.last().0@ == name {
            assert(position(entries, name) == Some(entries.len() - 1));
        } else {
            assert(position(entries, name) == position(shorter, name));
        }
    }
}

/// A type binding list binds exactly the names that have a position, each
/// to the type of its deciding entry.
proof fn lemma_type_lookup(entries: Seq<(String, Type)>, name: Seq<char>)
    ensures
        type_bindings_view(entries).contains_key(name) <==> position(entries, name) is Some,
        position(entries, name) matches Some(i) ==> type_bindings_view(entries)[name]
            == entries[i].1,
    decreases entries.len(),
{
    if entries.len() == 0 {
        assert(position(entries, name) is None);
        assert(type_bindings_view(entries) == Map::<Seq<char>, Type>::empty());
    } else {
        let shorter = entries.drop_last();
        lemma_type_lookup(shorter, name);
        lemma_position(shorter, name);
        assert(type_bindings_view(entries) == type_bindings_view(shorter).insert(
            entries.last().0@,
            entries.last().1,
        ));
        if entries.last().0@ == name {
            assert(position(entries, name) == Some(entries.len() - 1));
        } else {
            assert(position(entries, name) == position(shorter, name));
        }
    }
}

/// Finds the entry that decides what `name` is bound to.
fn find<V>(entries: &Vec<(String, V)>, name: &String) -> (found: Option<usize>)
    ensures
        match found {
            Some(i) => position(entries@, name@) == Some(i as int),
            None => position(entries@, name@) is None,
        },
{
    let mut i: usize = entries.len();
    assert(entries@.take(i as int) =~= entries@);
    while i > 0
        invariant
            i <= entries.len(),
            position(entries@, name@) == position(entries@.take(i as int), name@),
        decreases i,
    {
        let ghost prefix = entries@.take(i as int);
        assert(prefix.last() == entries@[i - 1]);
        assert(prefix.drop_last() =~= entries@.take(i - 1));
        if entries[i - 1].0 == *name {
            assert(position(prefix, name@) == Some(i - 1));
            return Some(i - 1);
        }
        assert(position(prefix, name@) == position(prefix.drop_last(), name@));
        i -= 1;
    }
    assert(position(entries@.take(0), name@) is None);
    None
}

/// Binds `name` in a list of value bindings, in place of what it had.
fn bind_value(entries: &mut Vec<(String, Value)>, name: String, value: Value)
    ensures
        value_bindings_view(final(entries)@) == value_bindings_view(old(entries)@).insert(
            name@,
            value@,
        ),
{
    let ghost key = name@;
    let ghost bound = value@;
    match find(entries, &name) {
        Some(i) => {
            proof {
                lemma_position(entries@, key);
                lemma_position_update(entries@, i as int, (name, value));
            }
            entries.set(i, (name, value));
        },
        None => {
            entries.push((name, value));
            assert(entries@.drop_last() =~= old(entries)@);
        },
    }
    proof {
        assert forall|k: Seq<char>|
            value_bindings_view(entries@).contains_key(k) <==> value_bindings_view(
                old(entries)@,
            ).insert(key, bound).contains_key(k) by {
            lemma_value_lookup(entries@, k);
            lemma_value_lookup(old(entries)@, k);
        }
        assert forall|k: Seq<char>| #[trigger]
            value_bindings_view(entries@).contains_key(k) implies value_bindings_view(
            entries@,
        )[k] == value_bindings_view(old(entries)@).insert(key, bound)[k] by {
            lemma_value_lookup(entries@, k);
            lemma_value_lookup(old(entries)@, k);
            lemma_position(entries@, k);
            lemma_position(old(entries)@, k);
        }
        assert(value_bindings_view(entries@) =~= value_bindings_view(old(entries)@).insert(
            key,
            bound,
        ));
    }
}

/// Binds `name` in a list of type bindings, in place of what it had.
fn bind_type(entries: &mut Vec<(String, Type)>, name: String, typ: Type)
    ensures
        type_bindings_view(final(entries)@) == type_bindings_view(old(entries)@).insert(
            name@,
            typ,
        ),
{
    let ghost key = name@;
    match find(entries, &name) {
        Some(i) => {
            proof {
                lemma_position(entries@, key);
                lemma_position_update(entries@, i as int, (name, typ));
            }
            entries.set(i, (name, typ));
        },
        None => {
            entries.push((name, typ));
            assert(entries@.drop_last() =~= old(entries)@);
        },
    }
    proof {
        assert forall|k: Seq<char>|
            type_bindings_view(entries@).contains_key(k) <==> type_bindings_view(
                old(entries)@,
            ).insert(key, typ).contains_key(k) by {
            lemma_type_lookup(entries@, k);
            lemma_type_lookup(old(entries)@, k);
        }
        assert forall|k: Seq<char>| #[trigger]
            type_bindings_view(entries@).contains_key(k) implies type_bindings_view(entries@)[k]
            == type_bindings_view(old(entries)@).insert(key, typ)[k] by {
            lemma_type_lookup(entries@, k);
            lemma_type_lookup(old(entries)@, k);
            lemma_position(entries@, k);
            lemma_position(old(entries)@, k);
        }
        assert(type_bindings_view(entries@) =~= type_bindings_view(old(entries)@).insert(
            key,
            typ,
        ));
    }
}

impl Environment {
    /// An environment that binds nothing.
    pub fn new() -> (env: Environment)
        ensures
            env@ == EnvironmentView::empty(),
    {
        Environment { values: Vec::new(), types: Vec::new() }
    }

    /// The value bound to `name`, if any.
    pub fn get_value(&self, name: &String) -> (found: Option<&Value>)
        ensures
            match found {
                Some(value) => self@.values.contains_key(name@) && value@ == self@.values[name@],
                None => !self@.values.contains_key(name@),
            },
    {
        proof {
            lemma_value_lookup(self.values@, name@);
            lemma_position(self.values@, name@);
        }
        match find(&self.values, name) {
            Some(i) => Some(&self.values[i].1),
            None => None,
        }
    }

    /// The static type given to `name`, if any.
    pub fn get_type(&self, name: &String) -> (found: Option<Type>)
        ensures
            match found {
                Some(typ) => self@.types.contains_key(name@) && typ == self@.types[name@],
                None => !self@.types.contains_key(name@),
            },
    {
        proof {
            lemma_type_lookup(self.types@, name@);
            lemma_position(self.types@, name@);
        }
        match find(&self.types, name) {
            Some(i) => Some(self.types[i].1),
            None => None,
        }
    }

    /// Binds `name` to `value`; the static types stay as they are.
    pub fn set_value(&mut self, name: String, value: Value)
        ensures
            final(self)@ == old(self)@.with_value(name@, value@),
    {
        bind_value(&mut self.values, name, value);
    }

    /// Gives `name` the static type `typ`; the values stay as they are.
    pub fn set_type(&mut self, name: String, typ: Type)
        ensures
            final(self)@ == old(self)@.with_type(name@, typ),
    {
        bind_type(&mut self.types, name, typ);
    }
}

/// Whether every name bound in `a` is bound in `b`.
fn names_covered<V, W>(a: &Vec<(String, V)>, b: &Vec<(String, W)>) -> (covered: bool)
    ensures
        covered == (forall|name: Seq<char>|
            position(a@, name) is Some ==> position(b@, name) is Some),
{
    let mut i: usize = 0;
    while i < a.len()
        invariant
            i <= a.len(),
            forall|j: int| 0 <= j < i ==> position(b@, (#[trigger] a@[j]).0@) is Some,
        decreases a.len() - i,
    {
        if find(b, &a[i].0).is_none() {
            proof {
                lemma_position(a@, a@[i as int].0@);
            }
            return false;
        }
        i += 1;
    }
    proof {
        assert forall|name: Seq<char>| position(a@, name) is Some implies position(
            b@,
            name,
        ) is Some by {
            lemma_position(a@, name);
            let p = position(a@, name)->Some_0;
            assert(position(b@, a@[p].0@) is Some);
        }
    }
    true
}

/// Whether two values are structurally equal.
fn value_equal(a: &Value, b: &Value) -> (equal: bool)
    ensures
        equal == (a@ == b@),
    decreases a,
{
    match (a, b) {
        (Value::Boolean(x), Value::Boolean(y)) => *x == *y,
        (Value::Function(entry_a, env_a), Value::Function(entry_b, env_b)) => {
            *entry_a == *entry_b && environment_equal(env_a, env_b)
        },
        (Value::Integer(x), Value::Integer(y)) => *x == *y,
        (Value::Tuple(items_a), Value::Tuple(items_b)) => values_equal(items_a, items_b),
        (Value::Unit, Value::Unit) => true,
        _ => false,
    }
}

/// Whether two sequences of values have the same length and equal items.
fn values_equal(a: &Vec<Value>, b: &Vec<Value>) -> (equal: bool)
    ensures
        equal == (values_view(a@) == values_view(b@)),
    decreases a,
{
    proof {
        lemma_values_view(a@);
        lemma_values_view(b@);
    }
    if a.len() != b.len() {
        return false;
    }
    let mut i: usize = 0;
    while i < a.len()
        invariant
            i <= a.len(),
            a.len() == b.len(),
            forall|j: int| 0 <= j < i ==> (#[trigger] a@[j])@ == b@[j]@,
            values_view(a@).len() == a.len(),
            values_view(b@).len() == b.len(),
            forall|j: int| 0 <= j < a.len() ==> #[trigger] values_view(a@)[j] == a@[j]@,
            forall|j: int| 0 <= j < b.len() ==> #[trigger] values_view(b@)[j] == b@[j]@,
        decreases a.len() - i,
    {
        if !value_equal(&a[i], &b[i]) {
            assert(values_view(a@)[i as int] != values_view(b@)[i as int]);
            return false;
        }
        i += 1;
    }
    assert(values_view(a@) =~= values_view(b@));
    true
}

/// Whether the names bound in `a` have equal values in `a` and in `b`.
fn values_agree(a: &Vec<(String, Value)>, b: &Vec<(String, Value)>) -> (agree: bool)
    requires
        forall|name: Seq<char>| position(a@, name) is Some ==> position(b@, name) is Some,
    ensures
        agree == (forall|name: Seq<char>|
            position(a@, name) is Some ==> value_bindings_view(a@)[name] == value_bindings_view(
                b@,
            )[name]),
    decreases a,
{
    let mut i: usize = 0;
    while i < a.len()
        invariant
            i <= a.len(),
            forall|name: Seq<char>| position(a@, name) is Some ==> position(b@, name) is Some,
            forall|j: int|
                0 <= j < i ==> value_bindings_view(a@)[(#[trigger] a@[j]).0@]
                    == value_bindings_view(b@)[a@[j].0@],
        decreases a.len() - i,
    {
        let ghost name = a@[i as int].0@;
        proof {
            lemma_position(a@, name);
            lemma_position(b@, name);
            lemma_value_lookup(a@, name);
            lemma_value_lookup(b@, name);
        }
        match (find(a, &a[i].0), find(b, &a[i].0)) {
            (Some(in_a), Some(in_b)) => {
                if !value_equal(&a[in_a].1, &b[in_b].1) {
                    return false;
                }
            },
            _ => {
                return false;
            },
        }
        i += 1;
    }
    proof {
        assert forall|name: Seq<char>| position(a@, name) is Some implies value_bindings_view(
            a@,
        )[name] == value_bindings_view(b@)[name] by {
            lemma_position(a@, name);
            let p = position(a@, name)->Some_0;
            assert(value_bindings_view(a@)[a@[p].0@] == value_bindings_view(b@)[a@[p].0@]);
        }
    }
    true
}

/// Whether the names bound in `a` have equal types in `a` and in `b`.
fn types_agree(a: &Vec<(String, Type)>, b: &Vec<(String, Type)>) -> (agree: bool)
    requires
        forall|name: Seq<char>| position(a@, name) is Some ==> position(b@, name) is Some,
    ensures
        agree == (forall|name: Seq<char>|
            position(a@, name) is Some ==> type_bindings_view(a@)[name] == type_bindings_view(
                b@,
            )[name]),
{
    let mut i: usize = 0;
    while i < a.len()
        invariant
            i <= a.len(),
            forall|name: Seq<char>| position(a@, name) is Some ==> position(b@, name) is Some,
            forall|j: int|
                0 <= j < i ==> type_bindings_view(a@)[(#[trigger] a@[j]).0@] == type_bindings_view(
                    b@,
                )[a@[j].0@],
        decreases a.len() - i,
    {
        let ghost name = a@[i as int].0@;
        proof {
            lemma_position(a@, name);
            lemma_position(b@, name);
            lemma_type_lookup(a@, name);
            lemma_type_lookup(b@, name);
        }
        match (find(a, &a[i].0), find(b, &a[i].0)) {
            (Some(in_a), Some(in_b)) => {
                if a[in_a].1 != b[in_b].1 {
                    return false;
                }
            },
            _ => {
                return false;
            },
        }
        i += 1;
    }
    proof {
        assert forall|name: Seq<char>| position(a@, name) is Some implies type_bindings_view(
            a@,
        )[name] == type_bindings_view(b@)[name] by {
            lemma_position(a@, name);
            let p = position(a@, name)->Some_0;
            assert(type_bindings_view(a@)[a@[p].0@] == type_bindings_view(b@)[a@[p].0@]);
        }
    }
    true
}

/// Two value binding lists stand for the same map exactly when they bind
/// the same names to equal values.
proof fn lemma_value_bindings_equal(a: Seq<(String, Value)>, b: Seq<(String, Value)>)
    ensures
        (value_bindings_view(a) == value_bindings_view(b)) <==> {
            &&& forall|name: Seq<char>| position(a, name) is Some ==> position(b, name) is Some
            &&& forall|name: Seq<char>| position(b, name) is Some ==> position(a, name) is Some
            &&& forall|name: Seq<char>|
                position(a, name) is Some ==> value_bindings_view(a)[name] == value_bindings_view(
                    b,
                )[name]
        },
{
    let va = value_bindings_view(a);
    let vb = value_bindings_view(b);
    assert forall|name: Seq<char>| #[trigger]
        va.contains_key(name) <==> position(a, name) is Some by {
        lemma_value_lookup(a, name);
    }
    assert forall|name: Seq<char>| #[trigger]
        vb.contains_key(name) <==> position(b, name) is Some by {
        lemma_value_lookup(b, name);
    }
    if va == vb {
        assert forall|name: Seq<char>| position(a, name) is Some implies position(
            b,
            name,
        ) is Some by {
            assert(va.contains_key(name));
        }
        assert forall|name: Seq<char>| position(b, name) is Some implies position(
            a,
            name,
        ) is Some by {
            assert(vb.contains_key(name));
        }
    } else if {
        &&& forall|name: Seq<char>| position(a, name) is Some ==> position(b, name) is Some
        &&& forall|name: Seq<char>| position(b, name) is Some ==> position(a, name) is Some
        &&& forall|name: Seq<char>| position(a, name) is Some ==> va[name] == vb[name]
    } {
        assert forall|name: Seq<char>| va.contains_key(name) <==> vb.contains_key(name) by {
            assert(va.contains_key(name) <==> position(a, name) is Some);
            assert(vb.contains_key(name) <==> position(b, name) is Some);
        }
        assert forall|name: Seq<char>| va.contains_key(name) implies va[name] == vb[name] by {
            assert(va.contains_key(name) <==> position(a, name) is Some);
        }
        assert(va =~= vb);
    }
}

/// Two type binding lists stand for the same map exactly when they bind
/// the same names to equal types.
proof fn lemma_type_bindings_equal(a: Seq<(String, Type)>, b: Seq<(String, Type)>)
    ensures
        (type_bindings_view(a) == type_bindings_view(b)) <==> {
            &&& forall|name: Seq<char>| position(a, name) is Some ==> position(b, name) is Some
            &&& forall|name: Seq<char>| position(b, name) is Some ==> position(a, name) is Some
            &&& forall|name: Seq<char>|
                position(a, name) is Some ==> type_bindings_view(a)[name] == type_bindings_view(
                    b,
                )[name]
        },
{
    let va = type_bindings_view(a);
    let vb = type_bindings_view(b);
    assert forall|name: Seq<char>| #[trigger]
        va.contains_key(name) <==> position(a, name) is Some by {
        lemma_type_lookup(a, name);
    }
    assert forall|name: Seq<char>| #[trigger]
        vb.contains_key(name) <==> position(b, name) is Some by {
        lemma_type_lookup(b, name);
    }
    if va == vb {
        assert forall|name: Seq<char>| position(a, name) is Some implies position(
            b,
            name,
        ) is Some by {
            assert(va.contains_key(name));
        }
        assert forall|name: Seq<char>| position(b, name) is Some implies position(
            a,
            name,
        ) is Some by {
            assert(vb.contains_key(name));
        }
    } else if {
        &&& forall|name: Seq<char>| position(a, name) is Some ==> position(b, name) is Some
        &&& forall|name: Seq<char>| position(b, name) is Some ==> position(a, name) is Some
        &&& forall|name: Seq<char>| position(a, name) is Some ==> va[name] == vb[name]
    } {
        assert forall|name: Seq<char>| va.contains_key(name) <==> vb.contains_key(name) by {
            assert(va.contains_key(name) <==> position(a, name) is Some);
            assert(vb.contains_key(name) <==> position(b, name) is Some);
        }
        assert forall|name: Seq<char>| va.contains_key(name) implies va[name] == vb[name] by {
            assert(va.contains_key(name) <==> position(a, name) is Some);
        }
        assert(va =~= vb);
    }
}

/// Whether two environments bind the same names to equal values and types.
fn environment_equal(a: &Environment, b: &Environment) -> (equal: bool)
    ensures
        equal == (a@ == b@),
    decreases a,
{
    proof {
        lemma_value_bindings_equal(a.values@, b.values@);
        lemma_type_bindings_equal(a.types@, b.types@);
    }
    names_covered(&a.values, &b.values) && names_covered(&b.values, &a.values) && values_agree(
        &a.values,
        &b.values,
    ) && names_covered(&a.types, &b.types) && names_covered(&b.types, &a.types) && types_agree(
        &a.types,
        &b.types,
    )
}

impl PartialEq for Value {
    /// Structural equality: same kind and equal contents.
    fn eq(&self, other: &Value) -> (equal: bool) {
        value_equal(self, other)
    }
}

impl PartialEqSpecImpl for Value {
    open spec fn obeys_eq_spec() -> bool {
        true
    }

    open spec fn eq_spec(&self, other: &Value) -> bool {
        self@ == other@
    }
}

impl PartialEq for Environment {
    /// Structural equality: the same names bound to equal values and types.
    fn eq(&self, other: &Environment) -> (equal: bool) {
        environment_equal(self, other)
    }
}

impl PartialEqSpecImpl for Environment {
    open spec fn obeys_eq_spec() -> bool {
        true
    }

    open spec fn eq_spec(&self, other: &Environment) -> bool {
        self@ == other@
    }
}

fn clone_values(items: &Vec<Value>) -> (copy: Vec<Value>)
    ensures
        values_view(copy@) == values_view(items@),
    decreases items,
{
    let mut copy: Vec<Value> = Vec::new();
    let mut i: usize = 0;
    while i < items.len()
        invariant
            i <= items.len(),
            values_view(copy@) == values_view(items@.take(i as int)),
        decreases items.len() - i,
    {
        let item = items[i].clone();
        proof {
            assert(items@.take(i as int + 1).drop_last() == items@.take(i as int));
            assert(copy@.push(item).drop_last() == copy@);
        }
        copy.push(item);
        i += 1;
    }
    proof {
        assert(items@.take(i as int) == items@);
    }
    copy
}

fn clone_value_bindings(entries: &Vec<(String, Value)>) -> (copy: Vec<(String, Value)>)
    ensures
        value_bindings_view(copy@) == value_bindings_view(entries@),
    decreases entries,
{
    let mut copy: Vec<(String, Value)> = Vec::new();
    let mut i: usize = 0;
    while i < entries.len()
        invariant
            i <= entries.len(),
            value_bindings_view(copy@) == value_bindings_view(entries@.take(i as int)),
        decreases entries.len() - i,
    {
        let name = entries[i].0.clone();
        let value = entries[i].1.clone();
        proof {
            assert(entries@.take(i as int + 1).drop_last() == entries@.take(i as int));
            assert(copy@.push((name, value)).drop_last() == copy@);
        }
        copy.push((name, value));
        i += 1;
    }
    proof {
        assert(entries@.take(i as int) == entries@);
    }
    copy
}

fn clone_type_bindings(entries: &Vec<(String, Type)>) -> (copy: Vec<(String, Type)>)
    ensures
        type_bindings_view(copy@) == type_bindings_view(entries@),
{
    let mut copy: Vec<(String, Type)> = Vec::new();
    let mut i: usize = 0;
    while i < entries.len()
        invariant
            i <= entries.len(),
            type_bindings_view(copy@) == type_bindings_view(entries@.take(i as int)),
        decreases entries.len() - i,
    {
        let name = entries[i].0.clone();
        let typ = entries[i].1;
        proof {
            assert(entries@.take(i as int + 1).drop_last() == entries@.take(i as int));
            assert(copy@.push((name, typ)).drop_last() == copy@);
        }
        copy.push((name, typ));
        i += 1;
    }
    proof {
        assert(entries@.take(i as int) == entries@);
    }
    copy
}

impl Clone for Value {
    /// A deep copy: the copy shares nothing with the value it is made from.
    fn clone(&self) -> (copy: Value)
        ensures
            copy@ == self@,
        decreases self,
    {
        match self {
            Value::Boolean(b) => Value::Boolean(*b),
            Value::Function(entry, env) => Value::Function(*entry, env.clone()),
            Value::Integer(i) => Value::Integer(*i),
            Value::Tuple(items) => Value::Tuple(clone_values(items)),
            Value::Unit => Value::Unit,
        }
    }
}

impl Clone for Environment {
    /// A deep copy: the copy shares nothing with the value it is made from.
    fn clone(&self) -> (copy: Environment)
        ensures
            copy@ == self@,
        decreases self,
    {
        Environment {
            values: clone_value_bindings(&self.values),
            types: clone_type_bindings(&self.types),
        }
    }
}

/// How a value is shown to the user.
pub open spec fn value_text(value: ValueView) -> Seq<char>
    decreases value,
{
    match value {
        ValueView::Boolean(b) => boolean_text(b),
        ValueView::Function(entry, _) => "(lambda @"@ + decimal(entry) + ")"@,
        ValueView::Integer(i) => signed_decimal(i as int),
        ValueView::Tuple(items) => "("@ + items_text(items) + ")"@,
        ValueView::Unit => "()"@,
    }
}

/// The texts of the items of a tuple, separated by a comma and a space.
pub open spec fn items_text(items: Seq<ValueView>) -> Seq<char>
    decreases items,
{
    if items.len() == 0 {
        Seq::empty()
    } else if items.len() == 1 {
        value_text(items[0])
    } else {
        items_text(items.drop_last()) + ", "@ + value_text(items.last())
    }
}

fn append_value(out: &mut String, value: &Value)
    ensures
        final(out)@ == old(out)@ + value_text(value@),
    decreases value,
{
    match value {
        Value::Boolean(b) => {
            append_boolean(out, *b);
        },
        Value::Function(entry, _) => {
            out.append("(lambda @");
            append_decimal(out, *entry as u64);
            out.append(")");
            assert(out@ =~= old(out)@ + value_text(value@));
        },
        Value::Integer(i) => {
            append_signed_decimal(out, *i);
        },
        Value::Tuple(items) => {
            out.append("(");
            append_items(out, items);
            out.append(")");
            assert(out@ =~= old(out)@ + value_text(value@));
        },
        Value::Unit => {
            out.append("()");
        },
    }
}

fn append_items(out: &mut String, items: &Vec<Value>)
    ensures
        final(out)@ == old(out)@ + items_text(values_view(items@)),
    decreases items,
{
    let ghost views = values_view(items@);
    proof {
        lemma_values_view(items@);
        assert(items_text(views.take(0)) == Seq::<char>::empty());
    }
    let mut i: usize = 0;
    while i < items.len()
        invariant
            i <= items.len(),
            views == values_view(items@),
            views.len() == items.len(),
            forall|j: int| 0 <= j < items.len() ==> #[trigger] views[j] == items@[j]@,
            out@ == old(out)@ + items_text(views.take(i as int)),
        decreases items.len() - i,
    {
        let ghost before = out@;
        if i > 0 {
            out.append(", ");
        }
        append_value(out, &items[i]);
        proof {
            let longer = views.take(i as int + 1);
            assert(longer.drop_last() =~= views.take(i as int));
            assert(longer.last() == views[i as int]);
            if i == 0 {
                assert(longer[0] == views[0]);
                assert(items_text(longer) == value_text(views[0]));
            } else {
                assert(items_text(longer) == items_text(longer.drop_last()) + ", "@ + value_text(
                    longer.last(),
                ));
            }
            assert(out@ =~= old(out)@ + items_text(longer));
        }
        i += 1;
    }
    proof {
        assert(views.take(i as int) =~= views);
    }
}

impl Value {
    /// The text that shows this value to the user.
    pub fn to_string(&self) -> (text: String)
        ensures
            text@ == value_text(self@),
    {
        let mut text = String::new();
        append_value(&mut text, self);
        assert(text@ =~= value_text(self@));
        text
    }
}

} // verus!
