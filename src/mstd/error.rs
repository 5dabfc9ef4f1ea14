//! Error kinds and the error values built from them.

use vstd::prelude::*;

verus! {

/// The closed set of error kinds.
#[derive(Debug, Clone, Copy, PartialEq, Eq, Structural)]
pub enum ErrorCode {
    LengthMustBeGreaterThanZero,
    UnableToConvertNumberToChar,
    UnableToReadInput,
    UnableToWriteOutput,
    UnableToParseInput,
    UnableToEncodeT,
    UnableToDecodeT,
    UnableToParseInputToT,
}

impl ErrorCode {
    /// The name of the kind, as written in its declaration.
    pub open spec fn variant_name(self) -> Seq<char> {
        match self {
            ErrorCode::LengthMustBeGreaterThanZero => "LengthMustBeGreaterThanZero"@,
            ErrorCode::UnableToConvertNumberToChar => "UnableToConvertNumberToChar"@,
            ErrorCode::UnableToReadInput => "UnableToReadInput"@,
            ErrorCode::UnableToWriteOutput => "UnableToWriteOutput"@,
            ErrorCode::UnableToParseInput => "UnableToParseInput"@,
            ErrorCode::UnableToEncodeT => "UnableToEncodeT"@,
            ErrorCode::UnableToDecodeT => "UnableToDecodeT"@,
            ErrorCode::UnableToParseInputToT => "UnableToParseInputToT"@,
        }
    }

    /// A sentence that describes the kind to a person.
    pub open spec fn description_text(self) -> Seq<char> {
        match self {
            ErrorCode::LengthMustBeGreaterThanZero => "Length must be greater than zero"@,
            ErrorCode::UnableToConvertNumberToChar => "Unable to convert number to char"@,
            ErrorCode::UnableToReadInput => "Unable to read input"@,
            ErrorCode::UnableToWriteOutput => "Unable to write input"@,
            ErrorCode::UnableToParseInput => "Unable to parse input"@,
            ErrorCode::UnableToEncodeT => "Unable to encode value"@,
            ErrorCode::UnableToDecodeT => "Unable to decode value"@,
            ErrorCode::UnableToParseInputToT => "Unable to parse input to value"@,
        }
    }

    /// What a person is told of the kind.
    pub open spec fn message_text(self) -> Seq<char> {
        match self {
            ErrorCode::LengthMustBeGreaterThanZero => "Length must be greater than 0"@,
            ErrorCode::UnableToConvertNumberToChar => "Unable to convert number to char"@,
            ErrorCode::UnableToReadInput => "Unable to read input"@,
            ErrorCode::UnableToWriteOutput => "Unable to write input"@,
            ErrorCode::UnableToParseInput => "Unable to parse input"@,
            ErrorCode::UnableToEncodeT => "Unable to encode value"@,
            ErrorCode::UnableToDecodeT => "Unable to decode value"@,
            ErrorCode::UnableToParseInputToT => "Unable to parse input to value"@,
        }
    }

    /// What a person is told of the kind: the text an error of this kind
    /// displays as.
    pub fn message(&self) -> (r: &'static str)
        ensures
            r@ == self.message_text(),
    {
        match self {
            ErrorCode::LengthMustBeGreaterThanZero => "Length must be greater than 0",
            ErrorCode::UnableToConvertNumberToChar => "Unable to convert number to char",
            ErrorCode::UnableToReadInput => "Unable to read input",
            ErrorCode::UnableToWriteOutput => "Unable to write input",
            ErrorCode::UnableToParseInput => "Unable to parse input",
            ErrorCode::UnableToEncodeT => "Unable to encode value",
            ErrorCode::UnableToDecodeT => "Unable to decode value",
            ErrorCode::UnableToParseInputToT => "Unable to parse input to value",
        }
    }

    /// The name of the kind.
    pub fn variant(&self) -> (r: &'static str)
        ensures
            r@ == self.variant_name(),
    {
        match self {
            ErrorCode::LengthMustBeGreaterThanZero => "LengthMustBeGreaterThanZero",
            ErrorCode::UnableToConvertNumberToChar => "UnableToConvertNumberToChar",
            ErrorCode::UnableToReadInput => "UnableToReadInput",
            ErrorCode::UnableToWriteOutput => "UnableToWriteOutput",
            ErrorCode::UnableToParseInput => "UnableToParseInput",
            ErrorCode::UnableToEncodeT => "UnableToEncodeT",
            ErrorCode::UnableToDecodeT => "UnableToDecodeT",
            ErrorCode::UnableToParseInputToT => "UnableToParseInputToT",
        }
    }

    /// A sentence that describes the kind.
    pub fn description(&self) -> (r: &'static str)
        ensures
            r@ == self.description_text(),
    {
        match self {
            ErrorCode::LengthMustBeGreaterThanZero => "Length must be greater than zero",
            ErrorCode::UnableToConvertNumberToChar => "Unable to convert number to char",
            ErrorCode::UnableToReadInput => "Unable to read input",
            ErrorCode::UnableToWriteOutput => "Unable to write input",
            ErrorCode::UnableToParseInput => "Unable to parse input",
            ErrorCode::UnableToEncodeT => "Unable to encode value",
            ErrorCode::UnableToDecodeT => "Unable to decode value",
            ErrorCode::UnableToParseInputToT => "Unable to parse input to value",
        }
    }
}

/// The text of an optional borrowed string.
pub open spec fn opt_text(s: Option<&str>) -> Option<Seq<char>> {
    match s {
        Some(t) => Some(t@),
        None => None,
    }
}

/// An error of the password generator.
#[derive(Debug)]
pub struct GenError {
    pub code: ErrorCode,
    pub cause: String,
}

impl GenError {
    pub fn new(code: ErrorCode, cause: String) -> (r: GenError)
        ensures
            r.code == code,
            r.cause == cause,
    {
        GenError { code, cause }
    }
}

/// An error met while reading or checking input.
#[derive(Debug)]
pub struct GetInputError {
    pub code: ErrorCode,
    pub cause: String,
}

impl GetInputError {
    pub fn new(code: ErrorCode, cause: String) -> (r: GetInputError)
        ensures
            r.code == code,
            r.cause == cause,
    {
        GetInputError { code, cause }
    }
}

/// A value could not be decoded from its text.
#[derive(Debug)]
pub struct DecodeError {
    pub code: ErrorCode,
    pub cause: String,
}

impl DecodeError {
    pub fn new(code: ErrorCode, cause: String) -> (r: DecodeError)
        ensures
            r.code == code,
            r.cause == cause,
    {
        DecodeError { code, cause }
    }
}

/// A command line could not be parsed.
#[derive(Debug)]
pub struct ParseError {
    pub code: ErrorCode,
    pub cause: String,
}

impl ParseError {
    pub fn new(code: ErrorCode, cause: String) -> (r: ParseError)
        ensures
            r.code == code,
            r.cause == cause,
    {
        ParseError { code, cause }
    }
}

} // verus!
