use vstd::prelude::*;

verus! {

/// A value of the scripting language.
///
/// A `Double` holds the bits of a 64-bit IEEE 754 number. An `Object` holds
/// its entries as pairs of a key and a value, in the order in which they were
/// given; two objects are equal when they hold the same entries in the same
/// order.
#[derive(Debug, PartialEq)]
pub enum Value {
    String(String),
    Object(Vec<(String, Value)>),
    Array(Vec<Value>),
    Integer(i64),
    Double(u64),
    Boolean(bool),
    Function(),
    /// The absence of a value.
    Nil,
}

/// The mathematical content of a [`Value`].
pub enum ValueView {
    String(Seq<char>),
    Object(Seq<(Seq<char>, ValueView)>),
    Array(Seq<ValueView>),
    Integer(i64),
    Double(u64),
    Boolean(bool),
    Function,
    Nil,
}

/// The content of `v`, entry by entry and item by item.
pub open spec fn value_view(v: Value) -> ValueView
    decreases v,
{
    match v {
        Value::String(s) => ValueView::String(s@),
        Value::Object(m) => ValueView::Object(
            Seq::new(
                m@.len(),
                |i: int|
                    if 0 <= i < m@.len() {
                        (m@[i].0@, value_view(m@[i].1))
                    } else {
                        (Seq::empty(), ValueView::Nil)
                    },
            ),
        ),
        Value::Array(a) => ValueView::Array(
            Seq::new(
                a@.len(),
                |i: int|
                    if 0 <= i < a@.len() {
                        value_view(a@[i])
                    } else {
                        ValueView::Nil
                    },
            ),
        ),
        Value::Integer(i) => ValueView::Integer(i),
        Value::Double(d) => ValueView::Double(d),
        Value::Boolean(b) => ValueView::Boolean(b),
        Value::Function() => ValueView::Function,
        Value::Nil => ValueView::Nil,
    }
}

impl View for Value {
    type V = ValueView;

    open spec fn view(&self) -> ValueView {
        value_view(*self)
    }
}

impl Clone for Value {
    fn clone(&self) -> (r: Value)
        ensures
            r@ == self@,
        decreases self,
    {
        match self {
            Value::String(s) => Value::String(s.clone()),
            Value::Object(m) => {
                let mut entries: Vec<(String, Value)> = Vec::new();
                let mut i: usize = 0;
                while i < m.len()
                    invariant
                        i <= m.len(),
                        *self is Object,
                        self->Object_0 == *m,
                        entries.len() == i,
                        forall|k: int|
                            0 <= k < i ==> entries@[k].0@ == m@[k].0@ && (#[trigger] entries@[k]).1@
                                == m@[k].1@,
                    decreases m.len() - i,
                {
                    let key = m[i].0.clone();
                    assert(decreases_to!(*self => self->Object_0[i as int].1));
                    let value = m[i].1.clone();
                    entries.push((key, value));
                    i += 1;
                }
                let r = Value::Object(entries);
                assert(r@->Object_0 =~= self@->Object_0);
                r
            },
            Value::Array(v) => {
                let mut items: Vec<Value> = Vec::new();
                let mut i: usize = 0;
                while i < v.len()
                    invariant
                        i <= v.len(),
                        *self is Array,
                        self->Array_0 == *v,
                        items.len() == i,
                        forall|k: int| 0 <= k < i ==> (#[trigger] items@[k])@ == v@[k]@,
                    decreases v.len() - i,
                {
                    assert(decreases_to!(*self => self->Array_0[i as int]));
                    let item = v[i].clone();
                    items.push(item);
                    i += 1;
                }
                let r = Value::Array(items);
                assert(r@->Array_0 =~= self@->Array_0);
                r
            },
            Value::Integer(i) => Value::Integer(*i),
            Value::Double(d) => Value::Double(*d),
            Value::Boolean(b) => Value::Boolean(*b),
            Value::Function() => Value::Function(),
            Value::Nil => Value::Nil,
        }
    }
}

} // verus!
