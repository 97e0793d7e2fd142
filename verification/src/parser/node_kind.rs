use vstd::prelude::*;

verus! {

/// What a node of the syntax tree stands for.
#[derive(Copy, Clone, Debug, PartialEq, Eq, Structural, PartialOrd)]
pub enum NodeKind {
    Global,
    Function,
    FunctionParams,
    FunctionParam,
    FunctionImpl,
    Class,
    Enum,
    Method,
    Assignment,
    Add,
    Subtract,
    Multiply,
    Divide,
    Call,
    Litteral,
    ObjectLitteral,
    /// A plain block or a node that only gathers an expression.
    Leaf,
}

impl Default for NodeKind {
    fn default() -> (k: NodeKind)
        ensures
            k == NodeKind::Global,
    {
        NodeKind::Global
    }
}

} // verus!
