//! Random passwords drawn from the printable range between `0` and `z`.

use vstd::prelude::*;
use vstd::string::*;
use rand::Rng;
use crate::mstd::error::{ErrorCode, GenError};
use crate::mstd::param::GenerateParams;
use crate::mstd::text::push_char;

verus! {

/// The smallest code point a password character can have (`0`).
pub const LOWEST_CODE: u32 = 48;

/// One past the largest code point a password character can have (`y`).
pub const CODE_LIMIT: u32 = 122;

/// Relies on `rand::thread_rng` and `Rng::gen_range`: a number drawn from
/// `low..high`, which panics on an empty range.
#[verifier::external_body]
fn random_in(low: u32, high: u32) -> (r: u32)
    requires
        low < high,
    ensures
        low <= r < high,
{
    rand::thread_rng().gen_range(low..high)
}

/// The Unicode scalar values: code points outside the surrogate range, up to
/// `0x10FFFF`.
pub open spec fn is_scalar_value(code: u32) -> bool {
    code < 0xD800 || (0xE000 <= code && code <= 0x10FFFF)
}

/// Relies on `char::from_u32`: the character with the given code point,
/// present exactly for Unicode scalar values.
#[verifier::external_body]
fn char_from_code(code: u32) -> (r: Option<char>)
    ensures
        r is Some <==> is_scalar_value(code),
        r matches Some(c) ==> c as u32 == code,
{
    char::from_u32(code)
}

/// `s` is `acc` followed by the characters with the code points `codes`.
pub open spec fn extends_with_codes(s: Seq<char>, acc: Seq<char>, codes: Seq<u32>) -> bool {
    &&& s.len() == acc.len() + codes.len()
    &&& s.take(acc.len() as int) == acc
    &&& forall|i: int| 0 <= i < codes.len() ==> #[trigger] s[acc.len() + i] as u32 == codes[i]
}

/// Appends to `acc` the characters whose code points are `codes`. Nothing to
/// append to nothing is an error, and so is a code that names no character.
pub fn password_from_codes(acc: &str, codes: &Vec<u32>) -> (r: Result<String, GenError>)
    ensures
        codes@.len() == 0 && acc@.len() == 0 ==> (r matches Err(e) && e.code
            == ErrorCode::LengthMustBeGreaterThanZero && e.cause@ == "Length must be greater than 0"@),
        !(codes@.len() == 0 && acc@.len() == 0) && (forall|i: int|
            0 <= i < codes@.len() ==> is_scalar_value(#[trigger] codes@[i])) ==> (r matches Ok(s)
            && extends_with_codes(s@, acc@, codes@)),
        !(forall|i: int| 0 <= i < codes@.len() ==> is_scalar_value(#[trigger] codes@[i]))
            ==> (r matches Err(e) && e.code == ErrorCode::UnableToConvertNumberToChar),
{
    if codes.len() == 0 && acc.unicode_len() == 0 {
        return Err(
            GenError::new(
                ErrorCode::LengthMustBeGreaterThanZero,
                String::from_str("Length must be greater than 0"),
            ),
        );
    }
    let mut s = acc.to_owned();
    let mut i: usize = 0;
    assert(s@.take(acc@.len() as int) =~= acc@);
    while i < codes.len()
        invariant
            i <= codes@.len(),
            forall|j: int| 0 <= j < i ==> is_scalar_value(#[trigger] codes@[j]),
            extends_with_codes(s@, acc@, codes@.take(i as int)),
        decreases codes@.len() - i,
    {
        match char_from_code(codes[i]) {
            Some(c) => {
                let ghost before = s@;
                push_char(&mut s, c);
                assert(s@.take(acc@.len() as int) =~= before.take(acc@.len() as int));
                assert forall|j: int| 0 <= j < i + 1 implies #[trigger] s@[acc@.len() + j] as u32
                    == codes@.take(i + 1)[j] by {
                    if j < i {
                        assert(s@[acc@.len() + j] == before[acc@.len() + j]);
                        assert(codes@.take(i as int)[j] == codes@[j]);
                    }
                }
            },
            None => {
                return Err(
                    GenError::new(
                        ErrorCode::UnableToConvertNumberToChar,
                        String::from_str("Unable to convert number to char"),
                    ),
                );
            },
        }
        i += 1;
    }
    assert(codes@.take(codes@.len() as int) =~= codes@);
    Ok(s)
}

/// A password of `params.length` random characters between `0` and `y`,
/// after `acc`. Asking for no character and giving no `acc` is an error.
pub fn gen_with_seed(params: GenerateParams, acc: &str) -> (r: Result<String, GenError>)
    ensures
        r is Err <==> params.length == 0 && acc@.len() == 0,
        r matches Err(e) ==> e.code == ErrorCode::LengthMustBeGreaterThanZero && e.cause@
            == "Length must be greater than 0"@,
        r matches Ok(s) ==> {
            &&& s@.len() == acc@.len() + params.length
            &&& s@.take(acc@.len() as int) == acc@
            &&& forall|i: int|
                acc@.len() <= i < s@.len() ==> LOWEST_CODE <= #[trigger] (s@[i] as u32) < CODE_LIMIT
        },
{
    let mut codes: Vec<u32> = Vec::new();
    let mut k: u32 = 0;
    while k < params.length
        invariant
            k <= params.length,
            codes@.len() == k,
            forall|j: int| 0 <= j < k ==> LOWEST_CODE <= #[trigger] codes@[j] < CODE_LIMIT,
        decreases params.length - k,
    {
        codes.push(random_in(LOWEST_CODE, CODE_LIMIT));
        k += 1;
    }
    let r = password_from_codes(acc, &codes);
    proof {
        if r is Ok {
            let s = r->Ok_0@;
            assert forall|i: int| acc@.len() <= i < s.len() implies LOWEST_CODE <= #[trigger] (
            s[i] as u32) < CODE_LIMIT by {
                assert(s[acc@.len() + (i - acc@.len())] as u32 == codes@[i - acc@.len()]);
            }
        }
    }
    r
}

/// A password of `params.length` random characters between `0` and `y`;
/// asking for none is an error.
pub fn gen(params: GenerateParams) -> (r: Result<String, GenError>)
    ensures
        r is Err <==> params.length == 0,
        r matches Err(e) ==> e.code == ErrorCode::LengthMustBeGreaterThanZero && e.cause@
            == "Length must be greater than 0"@,
        r matches Ok(s) ==> s@.len() == params.length && forall|i: int|
            0 <= i < s@.len() ==> LOWEST_CODE <= #[trigger] (s@[i] as u32) < CODE_LIMIT,
{
    let ghost empty = ""@;
    proof {
        reveal_strlit("");
    }
    gen_with_seed(params, "")
}

} // verus!
