pub mod ast;
pub mod keyword;
pub mod model;
pub mod node;
pub mod node_kind;
pub mod op_code;
pub mod options;
pub mod parser;
pub mod scope;
pub mod symbol;
pub mod value;
pub mod variable;

pub use self::ast::{dump_lines, tree_wf, with_child, with_node, DumpLine, AST};
pub use self::keyword::Keyword;
pub use self::model::{Outcome, ParserView};
pub use self::node::{name_view, value_opt_view, Node, NodePtr, NodeView};
pub use self::node_kind::NodeKind;
pub use self::op_code::OpCode;
pub use self::options::ParserOption;
pub use self::parser::Parser;
pub use self::scope::ScopeKind;
pub use self::symbol::Symbol;
pub use self::value::{value_view, Value, ValueView};
pub use self::variable::Variable;
