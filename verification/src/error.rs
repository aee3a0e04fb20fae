//! The errors of the compiler.
use vstd::prelude::*;

use crate::ast::SourceLocation;

verus! {

/// An error of the compiler, and where it was found.
pub struct CodegenError {
    pub location: Option<SourceLocation>,
    pub error: CodegenErrorType,
    pub source_path: String,
}

/// What is wrong with a program.
pub enum CodegenErrorType {
    /// Invalid assignment, to an expression of the kind named.
    Assign(&'static str),
    /// Invalid delete, of an expression of the kind named.
    Delete(&'static str),
    SyntaxError(String),
    /// Multiple `*` detected.
    MultipleStarArgs,
    /// Misplaced `*` expression.
    InvalidStarExpr,
    /// Break statement outside of loop.
    InvalidBreak,
    /// Continue statement outside of loop.
    InvalidContinue,
    InvalidReturn,
    InvalidYield,
    InvalidYieldFrom,
    InvalidAwait,
    AsyncYieldFrom,
    AsyncReturnValue,
    InvalidFuturePlacement,
    InvalidFutureFeature(String),
    FunctionImportStar,
    TooManyStarUnpack,
    EmptyWithItems,
    EmptyWithBody,
    InvalidMatchCase,
    NotImplementedYet,
}

/// The contents of a [`CodegenErrorType`].
pub enum ErrorKind {
    Assign(Seq<char>),
    Delete(Seq<char>),
    SyntaxError(Seq<char>),
    MultipleStarArgs,
    InvalidStarExpr,
    InvalidBreak,
    InvalidContinue,
    InvalidReturn,
    InvalidYield,
    InvalidYieldFrom,
    InvalidAwait,
    AsyncYieldFrom,
    AsyncReturnValue,
    InvalidFuturePlacement,
    InvalidFutureFeature(Seq<char>),
    FunctionImportStar,
    TooManyStarUnpack,
    EmptyWithItems,
    EmptyWithBody,
    InvalidMatchCase,
    NotImplementedYet,
}

/// The contents of a [`CodegenError`].
pub struct ErrorModel {
    pub location: Option<SourceLocation>,
    pub error: ErrorKind,
    pub source_path: Seq<char>,
}

impl View for CodegenErrorType {
    type V = ErrorKind;

    open spec fn view(&self) -> ErrorKind {
        match *self {
            CodegenErrorType::Assign(s) => ErrorKind::Assign(s@),
            CodegenErrorType::Delete(s) => ErrorKind::Delete(s@),
            CodegenErrorType::SyntaxError(s) => ErrorKind::SyntaxError(s@),
            CodegenErrorType::MultipleStarArgs => ErrorKind::MultipleStarArgs,
            CodegenErrorType::InvalidStarExpr => ErrorKind::InvalidStarExpr,
            CodegenErrorType::InvalidBreak => ErrorKind::InvalidBreak,
            CodegenErrorType::InvalidContinue => ErrorKind::InvalidContinue,
            CodegenErrorType::InvalidReturn => ErrorKind::InvalidReturn,
            CodegenErrorType::InvalidYield => ErrorKind::InvalidYield,
            CodegenErrorType::InvalidYieldFrom => ErrorKind::InvalidYieldFrom,
            CodegenErrorType::InvalidAwait => ErrorKind::InvalidAwait,
            CodegenErrorType::AsyncYieldFrom => ErrorKind::AsyncYieldFrom,
            CodegenErrorType::AsyncReturnValue => ErrorKind::AsyncReturnValue,
            CodegenErrorType::InvalidFuturePlacement => ErrorKind::InvalidFuturePlacement,
            CodegenErrorType::InvalidFutureFeature(s) => ErrorKind::InvalidFutureFeature(s@),
            CodegenErrorType::FunctionImportStar => ErrorKind::FunctionImportStar,
            CodegenErrorType::TooManyStarUnpack => ErrorKind::TooManyStarUnpack,
            CodegenErrorType::EmptyWithItems => ErrorKind::EmptyWithItems,
            CodegenErrorType::EmptyWithBody => ErrorKind::EmptyWithBody,
            CodegenErrorType::InvalidMatchCase => ErrorKind::InvalidMatchCase,
            CodegenErrorType::NotImplementedYet => ErrorKind::NotImplementedYet,
        }
    }
}

impl View for CodegenError {
    type V = ErrorModel;

    open spec fn view(&self) -> ErrorModel {
        ErrorModel {
            location: self.location,
            error: self.error@,
            source_path: self.source_path@,
        }
    }
}

} // verus!
