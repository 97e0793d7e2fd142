use vstd::prelude::*;

verus! {

/// What a lexical scope stands for.
#[derive(Copy, Clone, Debug, PartialEq, Eq, Structural, PartialOrd)]
pub enum ScopeKind {
    Global,
    Function,
    FunctionParams,
    FunctionParam,
    FunctionImpl,
    Class,
    Enum,
    Method,
    /// A plain block.
    Leaf,
}

impl Default for ScopeKind {
    fn default() -> (k: ScopeKind)
        ensures
            k == ScopeKind::Global,
    {
        ScopeKind::Global
    }
}

} // verus!
