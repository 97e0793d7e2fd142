use crate::parser::value::Value;
use crate::parser::variable::Variable;
use vstd::prelude::*;

verus! {

/// The operations that a script can be broken down into.
pub enum OpCode {
    DeclareVariable(String),
    AssignVariable(String),
    FinishStatement,
    DeclareFunction(String),
    StartFunctionParams,
    AddFunctionParam(Variable),
    EndFunctionParams,
    StartFunctionImpl,
    EndFunctionImpl,
    SetReturnType(Variable),
    CallFunction(String, Vec<Variable>),
    ReturnValue(Value),
}

impl OpCode {
    /// The operation's name, whatever it carries. The end of a parameter
    /// list has an empty name.
    pub open spec fn text(&self) -> Seq<char> {
        match self {
            OpCode::DeclareVariable(..) => "declare_variable"@,
            OpCode::AssignVariable(..) => "assign_variable"@,
            OpCode::FinishStatement => "finish_statement"@,
            OpCode::DeclareFunction(..) => "declare_function"@,
            OpCode::StartFunctionParams => "start_function_params"@,
            OpCode::AddFunctionParam(..) => "add_function_param"@,
            OpCode::SetReturnType(..) => "set_return_type"@,
            OpCode::EndFunctionParams => ""@,
            OpCode::StartFunctionImpl => "start_function_impl"@,
            OpCode::EndFunctionImpl => "end_function_impl"@,
            OpCode::CallFunction(..) => "call_function"@,
            OpCode::ReturnValue(..) => "return_value"@,
        }
    }

    /// The operation's name, whatever it carries.
    pub fn as_str(&self) -> (r: &'static str)
        ensures
            r@ == self.text(),
    {
        match self {
            OpCode::DeclareVariable(..) => "declare_variable",
            OpCode::AssignVariable(..) => "assign_variable",
            OpCode::FinishStatement => "finish_statement",
            OpCode::DeclareFunction(..) => "declare_function",
            OpCode::StartFunctionParams => "start_function_params",
            OpCode::AddFunctionParam(..) => "add_function_param",
            OpCode::SetReturnType(..) => "set_return_type",
            OpCode::EndFunctionParams => "",
            OpCode::StartFunctionImpl => "start_function_impl",
            OpCode::EndFunctionImpl => "end_function_impl",
            OpCode::CallFunction(..) => "call_function",
            OpCode::ReturnValue(..) => "return_value",
        }
    }

    /// The operation's name as an owned string.
    pub fn to_string(&self) -> (r: String)
        ensures
            r@ == self.text(),
    {
        String::from_str(self.as_str())
    }
}

} // verus!
