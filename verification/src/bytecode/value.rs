use vstd::prelude::*;
use crate::number::Real;

verus! {

broadcast use vstd::std_specs::vec::group_vec_axioms;

/// A function together with the values it captured when it was made.
#[derive(Debug, PartialEq)]
pub struct Closure {
    /// Index into the function table.
    pub function_index: usize,
    /// The captured values, in the order of the function's capture names.
    pub captures: Vec<Value>,
}

impl Closure {
    pub fn new(function_index: usize, captures: Vec<Value>) -> (r: Self)
        ensures
            r.function_index == function_index,
            r.captures == captures,
    {
        Self { function_index, captures }
    }
}

/// A runtime value.
#[derive(Debug, PartialEq)]
pub enum Value {
    Integer(i64),
    Real(Real),
    String(String),
    Boolean(bool),
    Rune(char),
    Array(Vec<Value>),
    /// Key/value pairs in insertion order.
    Mapping(Vec<(Value, Value)>),
    Null,
    /// Index into the function table.
    Function(usize),
    ClosureVal(Box<Closure>),
    /// Index into the module table.
    Module(usize),
}

/// The mathematical content of a [`Value`].
pub enum ValueView {
    Integer(i64),
    Real(Real),
    String(Seq<char>),
    Boolean(bool),
    Rune(char),
    Array(Seq<ValueView>),
    Mapping(Seq<(ValueView, ValueView)>),
    Null,
    Function(usize),
    Closure(usize, Seq<ValueView>),
    Module(usize),
}

/// The views of the values of a vector, in order.
pub open spec fn views_of(values: Seq<Value>) -> Seq<ValueView>
    decreases values,
{
    Seq::new(
        values.len(),
        |i: int|
            if 0 <= i < values.len() {
                values[i].view()
            } else {
                ValueView::Null
            },
    )
}

/// The views of the entries of a map, in order.
pub open spec fn entry_views_of(entries: Seq<(Value, Value)>) -> Seq<(ValueView, ValueView)>
    decreases entries,
{
    Seq::new(
        entries.len(),
        |i: int|
            if 0 <= i < entries.len() {
                (entries[i].0.view(), entries[i].1.view())
            } else {
                (ValueView::Null, ValueView::Null)
            },
    )
}

impl View for Value {
    type V = ValueView;

    open spec fn view(&self) -> ValueView
        decreases self,
    {
        match self {
            Value::Integer(i) => ValueView::Integer(*i),
            Value::Real(r) => ValueView::Real(*r),
            Value::String(s) => ValueView::String(s@),
            Value::Boolean(b) => ValueView::Boolean(*b),
            Value::Rune(c) => ValueView::Rune(*c),
            Value::Array(a) => ValueView::Array(views_of(a@)),
            Value::Mapping(m) => ValueView::Mapping(entry_views_of(m@)),
            Value::Null => ValueView::Null,
            Value::Function(i) => ValueView::Function(*i),
            Value::ClosureVal(c) => ValueView::Closure(c.function_index, views_of(c.captures@)),
            Value::Module(i) => ValueView::Module(*i),
        }
    }
}

/// `views_of` maps a sequence item by item.
pub broadcast proof fn lemma_views_of(values: Seq<Value>)
    ensures
        #![trigger views_of(values)]
        views_of(values).len() == values.len(),
        forall|i: int| 0 <= i < values.len() ==> (#[trigger] views_of(values)[i]) == values[i]@,
{
}

/// `entry_views_of` maps a sequence entry by entry.
pub broadcast proof fn lemma_entry_views_of(entries: Seq<(Value, Value)>)
    ensures
        #![trigger entry_views_of(entries)]
        entry_views_of(entries).len() == entries.len(),
        forall|i: int|
            0 <= i < entries.len() ==> (#[trigger] entry_views_of(entries)[i]) == (
                entries[i].0@,
                entries[i].1@,
            ),
{
}

/// The view of a container is made of the views of what it holds.
pub broadcast proof fn lemma_view_of_container(v: Value)
    ensures
        #![trigger v.view()]
        v matches Value::Array(a) ==> v@ == ValueView::Array(views_of(a@)),
        v matches Value::Mapping(m) ==> v@ == ValueView::Mapping(entry_views_of(m@)),
        v matches Value::ClosureVal(c) ==> v@ == ValueView::Closure(
            c.function_index,
            views_of(c.captures@),
        ),
{
}

pub broadcast group group_value_views {
    lemma_views_of,
    lemma_entry_views_of,
    lemma_view_of_container,
}

pub proof fn lemma_views_of_push(values: Seq<Value>, value: Value)
    ensures
        views_of(values.push(value)) == views_of(values).push(value@),
{
    assert(views_of(values.push(value)) =~= views_of(values).push(value@));
}

pub proof fn lemma_entry_views_of_push(entries: Seq<(Value, Value)>, entry: (Value, Value))
    ensures
        entry_views_of(entries.push(entry)) == entry_views_of(entries).push((entry.0@, entry.1@)),
{
    assert(entry_views_of(entries.push(entry)) =~= entry_views_of(entries).push(
        (entry.0@, entry.1@),
    ));
}

/// A copy of each value of `values`, in order.
pub fn clone_values(values: &Vec<Value>) -> (r: Vec<Value>)
    ensures
        views_of(r@) == views_of(values@),
    decreases values,
{
    let mut out: Vec<Value> = Vec::new();
    let mut i: usize = 0;
    while i < values.len()
        invariant
            i <= values.len(),
            out.len() == i,
            views_of(out@) == views_of(values@.take(i as int)),
        decreases values.len() - i,
    {
        let item = values[i].clone();
        proof {
            lemma_views_of_push(out@, item);
            assert(values@.take(i as int + 1) =~= values@.take(i as int).push(values@[i as int]));
            lemma_views_of_push(values@.take(i as int), values@[i as int]);
        }
        out.push(item);
        i += 1;
    }
    proof {
        assert(values@.take(i as int) =~= values@);
    }
    out
}

/// A copy of each entry of `entries`, in order.
pub fn clone_entries(entries: &Vec<(Value, Value)>) -> (r: Vec<(Value, Value)>)
    ensures
        entry_views_of(r@) == entry_views_of(entries@),
    decreases entries,
{
    let mut out: Vec<(Value, Value)> = Vec::new();
    let mut i: usize = 0;
    while i < entries.len()
        invariant
            i <= entries.len(),
            out.len() == i,
            entry_views_of(out@) == entry_views_of(entries@.take(i as int)),
        decreases entries.len() - i,
    {
        let key = entries[i].0.clone();
        let value = entries[i].1.clone();
        proof {
            lemma_entry_views_of_push(out@, (key, value));
            assert(entries@.take(i as int + 1) =~= entries@.take(i as int).push(
                entries@[i as int],
            ));
            lemma_entry_views_of_push(entries@.take(i as int), entries@[i as int]);
        }
        out.push((key, value));
        i += 1;
    }
    proof {
        assert(entries@.take(i as int) =~= entries@);
    }
    out
}

impl Clone for Closure {
    fn clone(&self) -> (r: Self)
        ensures
            r.function_index == self.function_index,
            views_of(r.captures@) == views_of(self.captures@),
        decreases self,
    {
        Closure { function_index: self.function_index, captures: clone_values(&self.captures) }
    }
}

impl Clone for Value {
    fn clone(&self) -> (r: Self)
        ensures
            r@ == self@,
        decreases self,
    {
        match self {
            Value::Integer(i) => Value::Integer(*i),
            Value::Real(x) => Value::Real(*x),
            Value::String(s) => Value::String(s.clone()),
            Value::Boolean(b) => Value::Boolean(*b),
            Value::Rune(c) => Value::Rune(*c),
            Value::Array(a) => Value::Array(clone_values(a)),
            Value::Mapping(m) => Value::Mapping(clone_entries(m)),
            Value::Null => Value::Null,
            Value::Function(i) => Value::Function(*i),
            Value::ClosureVal(c) => {
                let inner = Closure {
                    function_index: c.function_index,
                    captures: clone_values(&c.captures),
                };
                Value::ClosureVal(Box::new(inner))
            },
            Value::Module(i) => Value::Module(*i),
        }
    }
}

} // verus!
