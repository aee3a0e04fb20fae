//! Code generation and hashing for a Python implementation.
pub mod alike;
pub mod alike_expr;
pub mod alike_stmt;
pub mod ast;
pub mod bigint;
pub mod branches;
pub mod bytecode;
pub mod compile;
pub mod compile_call;
pub mod compile_comprehension;
pub mod compile_definition;
pub mod compile_expr;
pub mod compile_flow;
pub mod compile_fstring;
pub mod compile_function;
pub mod compile_logic;
pub mod compile_simple;
pub mod compile_store;
pub mod compiler;
pub mod comprehending;
pub mod contains;
pub mod doc;
pub mod error;
pub mod eval;
pub mod eval_call;
pub mod eval_logic;
pub mod expr_code;
pub mod handling;
pub mod hash;
pub mod integer;
pub mod laws;
pub mod machine;
pub mod meaning;
pub mod modular;
pub mod noting;
pub mod onward;
pub mod pool;
pub mod running;
pub mod state;
pub mod steady;
pub mod stmt_code;
pub mod symboltable;
pub mod text;
pub mod trying;
pub mod validity;
pub mod values;
pub mod walking;
pub mod weakproxy;
pub mod whole;
