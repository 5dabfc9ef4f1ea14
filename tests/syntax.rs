use mokuba::mstd::error::{DecodeError, ErrorCode, GenError, GetInputError, ParseError};
use mokuba::syntax::option::OptionOps;
use mokuba::syntax::printer::PrettyPrint;

#[test]
fn test_some() {
    let ok: Result<i32, String> = Ok(1);
    assert_eq!(Some("hello".to_string()), "hello".to_string().some());
    assert_eq!(Some(ok), Ok(1).some());
}

#[test]
fn test_none() {
    let ok: Result<i32, String> = Ok(1);

    assert_eq!(None, "hello".to_string().none());
    assert_eq!(None, ok.none());
}

#[test]
fn test_derive_enum_variants() {
    assert_eq!(
        ErrorCode::LengthMustBeGreaterThanZero.variant(),
        "LengthMustBeGreaterThanZero"
    );
    assert_eq!(
        ErrorCode::UnableToConvertNumberToChar.variant(),
        "UnableToConvertNumberToChar"
    );
    assert_eq!(ErrorCode::UnableToReadInput.variant(), "UnableToReadInput");
    assert_eq!(
        ErrorCode::UnableToWriteOutput.variant(),
        "UnableToWriteOutput"
    );
    assert_eq!(ErrorCode::UnableToParseInput.variant(), "UnableToParseInput");
    assert_eq!(ErrorCode::UnableToEncodeT.variant(), "UnableToEncodeT");
    assert_eq!(ErrorCode::UnableToDecodeT.variant(), "UnableToDecodeT");
}

#[test]
fn error_kinds_describe_themselves() {
    assert_eq!(
        ErrorCode::LengthMustBeGreaterThanZero.description(),
        "Length must be greater than zero"
    );
    assert_eq!(ErrorCode::UnableToReadInput.description(), "Unable to read input");
    assert_eq!(ErrorCode::UnableToParseInputToT.variant(), "UnableToParseInputToT");
}

#[test]
fn errors_keep_their_fields() {
    let g = GenError::new(ErrorCode::UnableToConvertNumberToChar, "c".to_string());
    assert_eq!(g.code, ErrorCode::UnableToConvertNumberToChar);
    assert_eq!(g.cause, "c");
    let i = GetInputError::new(ErrorCode::UnableToReadInput, "r".to_string());
    assert_eq!((i.code, i.cause.as_str()), (ErrorCode::UnableToReadInput, "r"));
    let d = DecodeError::new(ErrorCode::UnableToDecodeT, "d".to_string());
    assert_eq!((d.code, d.cause.as_str()), (ErrorCode::UnableToDecodeT, "d"));
    let p = ParseError::new(ErrorCode::UnableToParseInput, "p".to_string());
    assert_eq!((p.code, p.cause.as_str()), (ErrorCode::UnableToParseInput, "p"));
}

#[test]
fn values_print_readably() {
    assert_eq!("hi".to_string().pretty_print(), "hi");
    assert_eq!(Some(3u32).pretty_print(), "3");
    assert_eq!(None::<u32>.pretty_print(), "None");
    assert_eq!(Ok::<i8, String>(-8).pretty_print(), "-8");
    assert_eq!(Err::<i8, String>("bad".to_string()).pretty_print(), "bad");
    assert_eq!(vec![1i16, -2, 30].pretty_print(), "[1, -2, 30]");
    assert_eq!(Vec::<bool>::new().pretty_print(), "[]");
    assert_eq!(vec![true].pretty_print(), "[true]");
    assert_eq!('q'.pretty_print(), "q");
    assert_eq!(i64::MIN.pretty_print(), "-9223372036854775808");
    assert_eq!(i32::MAX.pretty_print(), "2147483647");
    assert_eq!(u32::MAX.pretty_print(), "4294967295");
}

#[test]
fn error_kinds_have_messages() {
    assert_eq!(
        ErrorCode::LengthMustBeGreaterThanZero.message(),
        "Length must be greater than 0"
    );
    assert_eq!(ErrorCode::UnableToWriteOutput.message(), "Unable to write input");
}
