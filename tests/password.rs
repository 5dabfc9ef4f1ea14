use mokuba::mstd::error::ErrorCode;
use mokuba::mstd::param::{GenerateParams, PassParams};
use mokuba::password::password_from_codes;
use mokuba::{gen, gen_with_seed};

#[test]
fn lib_produces_a_password_of_10_digits() {
    let result = gen_with_seed(GenerateParams::new(10, None), "");
    assert_eq!(result.unwrap().len(), 10);
}

#[test]
fn lib_produces_a_password_of_20_digits() {
    let result = gen_with_seed(GenerateParams::new(20, None), "");
    assert_eq!(result.unwrap().len(), 20);
}

#[test]
fn lib_produces_a_password_of_30_digits() {
    let result = gen_with_seed(GenerateParams::new(30, None), "");
    assert_eq!(result.unwrap().len(), 30);
}

#[test]
fn lib_produces_an_error_when_length_is_less_than_1() {
    let result = gen_with_seed(GenerateParams::new(0, None), "");
    assert!(result.unwrap_err().code == ErrorCode::LengthMustBeGreaterThanZero);
}

#[test]
fn produces_a_password_prepended_with_a_seed() {
    let test_seed = "test_seed";
    let result = gen_with_seed(GenerateParams::new(15, None), test_seed);
    assert!(result.unwrap().len() == 15 + test_seed.len());
}

#[test]
fn mod_produces_a_password_of_10_digits() {
    let result = gen_with_seed(GenerateParams { length: 10, username: None }, "");
    assert_eq!(result.unwrap().len(), 10);
}

#[test]
fn mod_produces_a_password_of_20_digits() {
    let result = gen_with_seed(GenerateParams { length: 20, username: None }, "");
    assert_eq!(result.unwrap().len(), 20);
}

#[test]
fn mod_produces_a_password_of_30_digits() {
    let result = gen_with_seed(GenerateParams { length: 30, username: None }, "");
    assert_eq!(result.unwrap().len(), 30);
}

#[test]
fn mod_produces_an_error_when_length_is_less_than_1() {
    let result = gen_with_seed(GenerateParams { length: 0, username: None }, "");
    assert!(result.unwrap_err().cause == "Length must be greater than 0");
}

#[test]
fn passwords_stay_in_their_range() {
    let p = gen(GenerateParams::new(200, None)).unwrap();
    assert_eq!(p.chars().count(), 200);
    assert!(p.chars().all(|c| ('0'..='y').contains(&c)));
    let seeded = gen_with_seed(GenerateParams::new(3, None), "ab").unwrap();
    assert!(seeded.starts_with("ab"));
    assert_eq!(gen_with_seed(GenerateParams::new(0, None), "keep").unwrap(), "keep");
}

#[test]
fn codes_become_characters() {
    assert_eq!(password_from_codes("x", &vec![104, 105]).unwrap(), "xhi");
    assert_eq!(password_from_codes("", &vec![0x5B57]).unwrap(), "字");
    let e = password_from_codes("", &vec![65, 0xD800]).unwrap_err();
    assert_eq!(e.code, ErrorCode::UnableToConvertNumberToChar);
    let e = password_from_codes("", &vec![]).unwrap_err();
    assert_eq!(e.code, ErrorCode::LengthMustBeGreaterThanZero);
}

#[test]
fn parameters_have_defaults() {
    let g = GenerateParams::default();
    assert_eq!(g.length, 10);
    assert_eq!(g.username, None);
    assert_eq!(PassParams::default().length, 10);
    assert_eq!(PassParams::new(7).length, 7);
}
