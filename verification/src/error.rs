//! The single error taxonomy: one variant per "expected construct X but
//! found an unexpected token" situation, each carrying the offending token
//! and the stream position just after it.

use vstd::prelude::*;

use crate::token::{TokV, Token};

verus! {

/// Which construct rejected the token; the spec-level tag of a failure.
pub enum ErrK {
    ArraySize,
    Linkage,
    Do,
    Op,
    Dtor,
    Decl,
    Attribute,
    Stmt,
}

/// A syntax error: the first malformed construct aborts the parse, and the
/// error propagates up through every caller unchanged.
#[derive(Clone, Debug, PartialEq, Eq)]
pub enum ParserError {
    InvalidTokenInArraySize { sp: usize, tok: Token },
    InvalidTokenInLinkage { sp: usize, tok: Token },
    InvalidTokenInDo { sp: usize, tok: Token },
    InvalidTokenInOp { sp: usize, tok: Token },
    InvalidTokenInDtor { sp: usize, tok: Token },
    InvalidTokenInDecl { sp: usize, tok: Token },
    InvalidTokenInAttribute { sp: usize, tok: Token },
    InvalidTokenInStmt { sp: usize, tok: Token },
}

impl ParserError {
    /// The construct that rejected the token.
    pub open spec fn kind(&self) -> ErrK {
        match self {
            ParserError::InvalidTokenInArraySize { .. } => ErrK::ArraySize,
            ParserError::InvalidTokenInLinkage { .. } => ErrK::Linkage,
            ParserError::InvalidTokenInDo { .. } => ErrK::Do,
            ParserError::InvalidTokenInOp { .. } => ErrK::Op,
            ParserError::InvalidTokenInDtor { .. } => ErrK::Dtor,
            ParserError::InvalidTokenInDecl { .. } => ErrK::Decl,
            ParserError::InvalidTokenInAttribute { .. } => ErrK::Attribute,
            ParserError::InvalidTokenInStmt { .. } => ErrK::Stmt,
        }
    }

    /// The value of the offending token.
    pub open spec fn tok_v(&self) -> TokV {
        match self {
            ParserError::InvalidTokenInArraySize { tok, .. } => tok@,
            ParserError::InvalidTokenInLinkage { tok, .. } => tok@,
            ParserError::InvalidTokenInDo { tok, .. } => tok@,
            ParserError::InvalidTokenInDtor { tok, .. } => tok@,
            ParserError::InvalidTokenInOp { tok, .. } => tok@,
            ParserError::InvalidTokenInDecl { tok, .. } => tok@,
            ParserError::InvalidTokenInAttribute { tok, .. } => tok@,
            ParserError::InvalidTokenInStmt { tok, .. } => tok@,
        }
    }

    /// The stream position just after the offending token.
    pub open spec fn sp_v(&self) -> nat {
        match self {
            ParserError::InvalidTokenInArraySize { sp, .. } => *sp as nat,
            ParserError::InvalidTokenInLinkage { sp, .. } => *sp as nat,
            ParserError::InvalidTokenInDo { sp, .. } => *sp as nat,
            ParserError::InvalidTokenInDtor { sp, .. } => *sp as nat,
            ParserError::InvalidTokenInOp { sp, .. } => *sp as nat,
            ParserError::InvalidTokenInDecl { sp, .. } => *sp as nat,
            ParserError::InvalidTokenInAttribute { sp, .. } => *sp as nat,
            ParserError::InvalidTokenInStmt { sp, .. } => *sp as nat,
        }
    }
}

} // verus!
