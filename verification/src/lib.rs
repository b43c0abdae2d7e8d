//! A declarative, graph-driven line tokenizer for building interactive
//! command shells.
//!
//! A textual line is matched token by token against a directed graph of
//! nodes (the "diagram"), where each node carries either a literal string
//! or a regular-expression pattern, an optional callback name, and a
//! mapping from named exit labels to candidate next-node labels.  The
//! cursor tracks the current graph position across tokens, and the engine
//! drives one line through the graph, matching tokens, advancing the
//! cursor and invoking callbacks.

pub mod assoc;
pub mod diagram;
pub mod line_parser;
pub mod matcher;
pub mod player;
