//! A compiler from a small C-like language to programs for a one-register
//! machine with 256 memory cells, an inbox, an outbox and three jumps.
//!
//! `compile` runs the pipeline from a source text to commands:
//! `lexer::lex`, then `parser::parse_tokens`, then
//! `parser::AST::to_commands`. `compiler::render_program` writes the commands
//! as the text of a program.
use vstd::prelude::*;

pub mod compiler;
pub mod grammar;
pub mod labelling;
pub mod laws;
pub mod lexer;
pub mod machine;
pub mod model;
pub mod nodes;
pub mod parser;
pub mod pattern;

use crate::compiler::{Command, LABEL_LIMIT};
use crate::lexer::{lex, tokens_of, LexError, Lexeme};
use crate::model::{block_code, block_labels};
use crate::parser::{parse_tokens, program};

verus! {

/// Why a token sequence could not be turned into a program.
#[derive(Debug, Clone, PartialEq, Eq)]
pub enum CompileError {
    /// A node that is not what its place asks for (a literal where an
    /// expression must stand, an expression where a comparison must stand, a
    /// statement that is no expression), or a construct that has no code.
    Error,
    /// Tokens that form no command: nothing in the grammar matches them, the
    /// passes have run out, or they reduce to no node or to several where one
    /// is asked for.
    InvalidCommandError(Vec<Lexeme>),
    /// Tokens that name nothing that can be assigned to.
    InvalidToAssignTo(Vec<Lexeme>),
    /// A value that names no memory cell where the machine needs one: a
    /// dereference that goes deeper than a pointer to a cell, or an increment
    /// or decrement of anything but a cell.
    NumberInsertionError,
}

/// A `CompileError` with the tokens it holds as a sequence.
pub enum CompileErrorView {
    Error,
    InvalidCommandError(Seq<Lexeme>),
    InvalidToAssignTo(Seq<Lexeme>),
    NumberInsertionError,
}

impl View for CompileError {
    type V = CompileErrorView;

    open spec fn view(&self) -> CompileErrorView {
        match self {
            CompileError::Error => CompileErrorView::Error,
            CompileError::InvalidCommandError(tokens) => CompileErrorView::InvalidCommandError(
                tokens@,
            ),
            CompileError::InvalidToAssignTo(tokens) => CompileErrorView::InvalidToAssignTo(tokens@),
            CompileError::NumberInsertionError => CompileErrorView::NumberInsertionError,
        }
    }
}

/// Why a source text has no program.
#[derive(Debug, Clone, PartialEq, Eq)]
pub enum Failure {
    /// The text holds something that is no token.
    Tokens(LexError),
    /// The tokens stand for no program, or the program has no code.
    Program(CompileError),
    /// The code needs more labels than there are.
    Labels,
}

/// A `Failure` with what it holds as sequences.
pub enum FailureModel {
    Tokens(Seq<char>),
    Program(CompileErrorView),
    Labels,
}

impl View for Failure {
    type V = FailureModel;

    open spec fn view(&self) -> FailureModel {
        match self {
            Failure::Tokens(LexError::InvalidTokenError(rest)) => FailureModel::Tokens(rest@),
            Failure::Program(e) => FailureModel::Program(e@),
            Failure::Labels => FailureModel::Labels,
        }
    }
}

/// The commands that the source text `source` stands for: the code of the
/// program of its tokens, with labels from 0 on and with the cell `scratch`
/// for arithmetic; or the failure of the first of these steps that fails.
pub open spec fn compilation(source: Seq<char>, scratch: u8) -> Result<Seq<Command>, FailureModel> {
    match tokens_of(source) {
        Err(rest) => Err(FailureModel::Tokens(rest)),
        Ok(tokens) => match program(tokens) {
            Err(e) => Err(FailureModel::Program(e)),
            Ok(statements) => if block_labels(statements) > LABEL_LIMIT {
                Err(FailureModel::Labels)
            } else {
                match block_code(statements, 0, scratch) {
                    Err(e) => Err(FailureModel::Program(e)),
                    Ok(commands) => Ok(commands),
                }
            },
        },
    }
}

/// Compiles the source text `source`, which holds no comments and no macros
/// and neither begins nor ends with white space, to the commands of a
/// program that keeps the first operand of its arithmetic in the cell
/// `add_addr`.
pub fn compile(source: &str, add_addr: u8) -> (r: Result<Vec<Command>, Failure>)
    ensures
        match r {
            Ok(commands) => compilation(source@, add_addr) == Ok::<Seq<Command>, FailureModel>(
                commands@,
            ),
            Err(e) => compilation(source@, add_addr) == Err::<Seq<Command>, FailureModel>(e@),
        },
{
    let tokens = match lex(source) {
        Ok(tokens) => tokens,
        Err(e) => {
            return Err(Failure::Tokens(e));
        },
    };
    let ast = match parse_tokens(tokens) {
        Ok(ast) => ast,
        Err(e) => {
            return Err(Failure::Program(e));
        },
    };
    if ast.label_count() > LABEL_LIMIT {
        return Err(Failure::Labels);
    }
    match ast.to_commands(add_addr) {
        Ok(commands) => Ok(commands),
        Err(e) => Err(Failure::Program(e)),
    }
}

} // verus!
