use crate::parser::value::{Value, ValueView};
use vstd::prelude::*;

verus! {

/// A name bound to a value.
pub struct Variable {
    name: String,
    value: Value,
}

/// The mathematical content of a [`Variable`].
pub struct VariableView {
    pub name: Seq<char>,
    pub value: ValueView,
}

impl View for Variable {
    type V = VariableView;

    closed spec fn view(&self) -> VariableView {
        VariableView { name: self.name@, value: self.value@ }
    }
}

impl Variable {
    /// Binds `name` to `value`.
    pub fn new(name: String, value: Value) -> (v: Variable)
        ensures
            v@ == (VariableView { name: name@, value: value@ }),
    {
        Variable { name, value }
    }
}

} // verus!
