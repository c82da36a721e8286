//! The errors of the library.

use vstd::prelude::*;

verus! {

/// Why an extraction could not be carried out.
#[derive(Debug, Clone, Copy, PartialEq, Eq, Structural)]
pub enum ExtractError {
    /// The witness script could not be decoded into instructions.
    MalformedScript,
    /// The requested input index is past the transaction's inputs.
    InputNotFound,
}

impl ExtractError {
    /// A short description of the error for display.
    pub fn message(&self) -> (text: &'static str)
        ensures
            text@ == match *self {
                ExtractError::MalformedScript => "Malformed script"@,
                ExtractError::InputNotFound => "Missing input"@,
            },
    {
        match self {
            ExtractError::MalformedScript => "Malformed script",
            ExtractError::InputNotFound => "Missing input",
        }
    }
}

/// Why a text could not be read.
#[derive(Debug, Clone, Copy, PartialEq, Eq, Structural)]
pub enum ParseError {
    /// The text is no inscription id.
    InscriptionId,
    /// The text names no filter.
    UnknownFilter,
}

impl ParseError {
    /// A short description of the error for display.
    pub fn message(&self) -> (text: &'static str)
        ensures
            text@ == match *self {
                ParseError::InscriptionId => "Inscription ID parse error"@,
                ParseError::UnknownFilter => "Unknown filter type"@,
            },
    {
        match self {
            ParseError::InscriptionId => "Inscription ID parse error",
            ParseError::UnknownFilter => "Unknown filter type",
        }
    }
}

/// Why the command line does not say what to do.
#[derive(Debug, Clone, Copy, PartialEq, Eq, Structural)]
pub enum ArgsError {
    /// Neither a cookie file nor a user with a password is known.
    MissingAuth,
    /// Neither a block nor a transaction is named.
    NoScanMode,
}

impl ArgsError {
    /// A short description of the error for display.
    pub fn message(&self) -> (text: &'static str)
        ensures
            text@ == match *self {
                ArgsError::MissingAuth => "Missing RPC auth info"@,
                ArgsError::NoScanMode => "Cannot determine scan mode"@,
            },
    {
        match self {
            ArgsError::MissingAuth => "Missing RPC auth info",
            ArgsError::NoScanMode => "Cannot determine scan mode",
        }
    }
}

} // verus!
