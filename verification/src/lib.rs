//! A recursive-descent parser front-end for a C-family declaration grammar:
//! qualified names, array dimensions, language-linkage blocks and do-while
//! statements, produced as a typed abstract syntax tree from a token stream.
//!
//! Every parser follows one calling convention: it takes an optional
//! already-consumed lookahead token, pulls further tokens from a shared
//! [`token::TokenStream`], and returns the first unconsumed trailing token
//! (or `None` when the construct consumed its own terminator) together with
//! the parsed node, or `None` for the node when the grammar does not match
//! at the current position, so that the caller can dispatch to another
//! alternative without backtracking.  A syntax error aborts the parse and
//! propagates unchanged; what each parser consumed, returned and reported
//! is pinned down against spec-level grammar functions over the token
//! values.

pub mod array;
pub mod attr;
pub mod context;
pub mod decl;
pub mod do_stmt;
pub mod dump;
pub mod error;
pub mod expr;
pub mod laws;
pub mod linkage;
pub mod name;
pub mod op;
pub mod stmt;
pub mod token;
