//! The commands this program knows: `generate` and `help`.

use vstd::prelude::*;
use vstd::string::*;
use crate::mstd::cmd::{Argument, Execute, Input, Parse, HELP, lookup};
use crate::mstd::codec::Codec;
use crate::mstd::error::{ErrorCode, GetInputError};
use crate::mstd::param::GenerateParams;
use crate::mstd::text::{concat2, push_char, same_text};
use crate::password::{gen, LOWEST_CODE, CODE_LIMIT};

verus! {

/// The length of a password when none is asked for.
pub const DEFAULT_LENGTH: u32 = 16;

/// What `generate` says about itself, after its short and full names.
pub const GENERATE_ABOUT: &'static str = ": Generate a password with the given length and username. \n            If no length is given, the default length is 16. \n            If no username is given, only a password is generated. \n            If a username is given, a password and a username are generated.\n            \n            Usage: generate --password Optional<{} --username <<{}>>>";

/// The first of two lookups that finds something.
pub open spec fn either(a: Option<Seq<char>>, b: Option<Seq<char>>) -> Option<Seq<char>> {
    if a is Some {
        a
    } else {
        b
    }
}

/// The first flag of `ps` that commands of type `C` do not take.
pub open spec fn first_invalid_flag<C: Argument>(ps: Seq<(Seq<char>, Seq<char>)>) -> Option<
    Seq<char>,
>
    decreases ps.len(),
{
    if ps.len() == 0 {
        None
    } else if !C::accepts_flag(ps[0].0) {
        Some(ps[0].0)
    } else {
        first_invalid_flag::<C>(ps.skip(1))
    }
}

/// Why `input` is not a call of `command`, or `None` where it is one.
pub open spec fn validation_failure<C: Argument>(command: &C, input: &Input) -> Option<Seq<char>> {
    if input.arg@.len() == 0 {
        Some("No argument provided"@)
    } else if input.arg@ != command.name() {
        Some("Invalid argument: "@ + input.arg@)
    } else {
        match first_invalid_flag::<C>(input.pairs()) {
            Some(k) => Some("Invalid flag provided: "@ + k),
            None => None,
        }
    }
}

/// Checks that `input` calls `command` and uses only flags it takes.
pub fn validate<C: Argument>(command: &C, input: &Input) -> (r: Result<(), GetInputError>)
    ensures
        match validation_failure(command, input) {
            None => r is Ok,
            Some(c) => r matches Err(e) && e.code == ErrorCode::UnableToParseInputToT && e.cause@
                == c,
        },
{
    if input.arg.as_str().unicode_len() == 0 {
        return Err(
            GetInputError::new(
                ErrorCode::UnableToParseInputToT,
                String::from_str("No argument provided"),
            ),
        );
    }
    if input.arg != command.argument() {
        return Err(
            GetInputError::new(
                ErrorCode::UnableToParseInputToT,
                concat2("Invalid argument: ", input.arg.as_str()),
            ),
        );
    }
    let ghost ps = input.pairs();
    let mut i: usize = 0;
    assert(ps.skip(0) =~= ps);
    while i < input.params.len()
        invariant
            ps == input.pairs(),
            input.arg@.len() > 0,
            input.arg@ == command.name(),
            i <= ps.len(),
            first_invalid_flag::<C>(ps) == first_invalid_flag::<C>(ps.skip(i as int)),
        decreases ps.len() - i,
    {
        let key = input.params[i].0.as_str();
        assert(ps.skip(i as int)[0] == ps[i as int]);
        assert(ps.skip(i as int).skip(1) =~= ps.skip(i + 1));
        if !C::is_valid_flag(key) {
            return Err(
                GetInputError::new(
                    ErrorCode::UnableToParseInputToT,
                    concat2("Invalid flag provided: ", key),
                ),
            );
        }
        i += 1;
    }
    assert(ps.skip(i as int) =~= Seq::<(Seq<char>, Seq<char>)>::empty());
    Ok(())
}

/// The command that generates a password.
#[derive(Debug, Copy, Clone)]
pub struct Generate;

/// The value given for the password flag, long or short.
pub open spec fn password_flag(input: &Input) -> Option<Seq<char>> {
    either(lookup(input.pairs(), "-p"@), lookup(input.pairs(), "--password"@))
}

/// The value given for the username flag, long or short.
pub open spec fn username_flag(input: &Input) -> Option<Seq<char>> {
    either(lookup(input.pairs(), "-u"@), lookup(input.pairs(), "--username"@))
}

/// What running a generator for `length` characters may return.
pub open spec fn generated(length: nat, r: Result<String, String>) -> bool {
    if length == 0 {
        r matches Err(e) && e@ == "Length must be greater than 0"@
    } else {
        r matches Ok(s) && s@.len() == length && forall|i: int|
            0 <= i < s@.len() ==> LOWEST_CODE <= #[trigger] (s@[i] as u32) < CODE_LIMIT
    }
}

impl Execute<GenerateParams> for Generate {
    /// A password of the length asked for, or of the default length.
    open spec fn executed(&self, params: Option<GenerateParams>, r: Result<String, String>) -> bool {
        match params {
            Some(p) => generated(p.length as nat, r),
            None => generated(DEFAULT_LENGTH as nat, r),
        }
    }

    fn execute(&self, params: Option<GenerateParams>) -> (r: Result<String, String>) {
        let p = match params {
            Some(p) => p,
            None => GenerateParams::new(DEFAULT_LENGTH, None),
        };
        match gen(p) {
            Ok(s) => Ok(s),
            Err(e) => Err(e.cause),
        }
    }
}

/// The flags `generate` takes.
pub open spec fn is_generate_flag(key: Seq<char>) -> bool {
    key == "-p"@ || key == "--password"@ || key == "-u"@ || key == "--username"@
}

impl Argument for Generate {
    open spec fn short_name(&self) -> char {
        'g'
    }

    open spec fn name(&self) -> Seq<char> {
        "generate"@
    }

    open spec fn about(&self) -> Seq<char> {
        seq!['g', ' '] + "generate"@ + GENERATE_ABOUT@
    }

    open spec fn accepts_flag(key: Seq<char>) -> bool {
        is_generate_flag(key)
    }

    fn short(&self) -> (r: char) {
        'g'
    }

    fn argument(&self) -> (r: String) {
        String::from_str("generate")
    }

    fn is_valid_flag(key: &str) -> (r: bool) {
        same_text(key, "-p") || same_text(key, "--password") || same_text(key, "-u") || same_text(
            key,
            "--username",
        )
    }

    fn description(&self) -> (r: String) {
        let mut s = String::new();
        push_char(&mut s, self.short());
        push_char(&mut s, ' ');
        let name = self.argument();
        s.append(name.as_str());
        s.append(GENERATE_ABOUT);
        assert(s@ =~= seq!['g', ' '] + "generate"@ + GENERATE_ABOUT@);
        s
    }
}

/// The length that `generate` asks for on `input`, or `None` where reading
/// its parameters fails. A password that is absent or malformed falls back
/// to the default length.
pub open spec fn requested_length(input: &Input) -> Option<nat> {
    if validation_failure(&Generate, input) is Some {
        None
    } else {
        match (
            <u32 as Codec<u32>>::decoding(password_flag(input)),
            <String as Codec<String>>::decoding(username_flag(input)),
        ) {
            (Some(p), Some(_)) => Some(p as nat),
            (None, _) => Some(DEFAULT_LENGTH as nat),
            (Some(_), None) => None,
        }
    }
}

/// A flag's value as a borrowed string.
fn flag_value<'a>(input: &'a Input, short: &str, long: &str) -> (r: Option<&'a str>)
    ensures
        match r {
            Some(v) => either(lookup(input.pairs(), short@), lookup(input.pairs(), long@)) == Some(
                v@,
            ),
            None => either(lookup(input.pairs(), short@), lookup(input.pairs(), long@)) is None,
        },
{
    match input.get(short) {
        Some(v) => Some(v.as_str()),
        None => match input.get(long) {
            Some(v) => Some(v.as_str()),
            None => None,
        },
    }
}

impl Parse<GenerateParams> for Generate {
    /// The length asked for and the user named; the default length and no
    /// user where the length is absent or malformed; an error where the input
    /// is no call of `generate` or names no user.
    open spec fn parsed(&self, input: &Input, r: Result<GenerateParams, String>) -> bool {
        match validation_failure(self, input) {
            Some(c) => r matches Err(e) && e@ == c,
            None => match (
                <u32 as Codec<u32>>::decoding(password_flag(input)),
                <String as Codec<String>>::decoding(username_flag(input)),
            ) {
                (Some(p), Some(u)) => r matches Ok(g) && g.length == p && (g.username matches Some(
                    name,
                ) && name@ == u),
                (None, _) => r matches Ok(g) && g.length == DEFAULT_LENGTH && g.username is None,
                (Some(_), None) => r is Err,
            },
        }
    }

    fn parse(&self, input: &Input) -> (r: Result<GenerateParams, String>) {
        match validate(self, input) {
            Ok(_) => {},
            Err(e) => return Err(e.cause),
        }
        let option_password = flag_value(input, "-p", "--password");
        let option_username = flag_value(input, "-u", "--username");
        let password = u32::decode(option_password);
        let username = String::decode(option_username);
        match (password, username) {
            (Ok(p), Ok(u)) => Ok(GenerateParams::new(p, Some(u))),
            (Err(_), _) => Ok(GenerateParams::new(DEFAULT_LENGTH, None)),
            (_, Err(e)) => Err(e.cause),
        }
    }
}

/// The command that shows how to call this program.
#[derive(Debug, Copy, Clone)]
pub struct Help;

impl Execute<()> for Help {
    /// The usage text.
    open spec fn executed(&self, params: Option<()>, r: Result<String, String>) -> bool {
        r matches Ok(s) && s@ == HELP@
    }

    fn execute(&self, params: Option<()>) -> (r: Result<String, String>) {
        Ok(HELP.to_owned())
    }
}

impl Argument for Help {
    open spec fn short_name(&self) -> char {
        'h'
    }

    open spec fn name(&self) -> Seq<char> {
        "help"@
    }

    open spec fn about(&self) -> Seq<char> {
        "Show this help message"@
    }

    open spec fn accepts_flag(key: Seq<char>) -> bool {
        true
    }

    fn short(&self) -> (r: char) {
        'h'
    }

    fn argument(&self) -> (r: String) {
        String::from_str("help")
    }

    fn is_valid_flag(key: &str) -> (r: bool) {
        true
    }

    fn description(&self) -> (r: String) {
        String::from_str("Show this help message")
    }
}

impl Parse<()> for Help {
    /// Any input will do.
    open spec fn parsed(&self, input: &Input, r: Result<(), String>) -> bool {
        r is Ok
    }

    fn parse(&self, input: &Input) -> (r: Result<(), String>) {
        Ok(())
    }
}

} // verus!
