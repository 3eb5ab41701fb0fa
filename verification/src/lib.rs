//! The decision core of a Tcl interpreter.

pub mod arena;
pub mod argv;
pub mod background;
pub mod bodies;
pub mod bytes;
pub mod calls;
pub mod child;
pub mod cmd_traces;
pub mod code;
pub mod commands;
pub mod completion;
pub mod coro;
pub mod definitions;
pub mod dispatch;
pub mod ensemble;
pub mod errors;
pub mod eval;
pub mod exec_traces;
pub mod frames;
pub mod globals;
pub mod guards;
pub mod imports;
pub mod limits;
pub mod lines;
pub mod listing;
pub mod namespaces;
pub mod native;
pub mod number;
pub mod order;
pub mod release;
pub mod rename;
pub mod serve;
pub mod state;
pub mod subst;
pub mod subst_laws;
pub mod teardown;
pub mod traces;
pub mod value_ops;
pub mod variables;
pub mod words;
