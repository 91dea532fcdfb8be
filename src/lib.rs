//! A lowering engine from the syntax tree of a C-family scripting language to
//! a typed, basic-block-structured intermediate representation.
pub mod ast;
pub mod codegen;
pub mod context;
pub mod ir;
pub mod laws;
pub mod model;
pub mod text;

pub use ast::{CompileError, Construct, Expression, Literal, ModuleItem, Statement, StatementListItem};
pub use codegen::CodeGenerator;
pub use context::{InsertionPoint, LLVMContext};
pub use ir::{BasicBlock, Function, FunctionType, Global, Instruction, IrType, Module, Value};
