//! The short-flag command line: `-h`, `-v`, `-p <length>`, and
//! `-s <user> <password> <url>`.

use vstd::prelude::*;
use vstd::string::*;
use crate::executable::Execute;
use crate::mstd::cmd::{BIN_NAME, HELP, VERSION};
use crate::mstd::codec::{Codec, lemma_decode_all_strings};
use crate::mstd::numeral::{decimal, decimal_string};
use crate::mstd::param::GenerateParams;
use crate::mstd::error::{DecodeError, opt_text};
use crate::mstd::text::{lemma_words_not_empty, same_text, words};
use crate::password::{gen, CODE_LIMIT, LOWEST_CODE};

verus! {

/// A user, a password and a url to keep together.
#[derive(Debug, PartialEq, Eq)]
pub struct Save {
    pub user: String,
    pub password: String,
    pub url: String,
}

impl Save {
    pub fn new(user: String, password: String, url: String) -> (r: Save)
        ensures
            r.user == user,
            r.password == password,
            r.url == url,
    {
        Save { user, password, url }
    }
}

/// What a command line asks for.
#[derive(Debug, PartialEq, Eq)]
pub enum Command {
    Help,
    Version,
    Password(u32),
    Save(Save),
    /// A line that asks for nothing known: why, and what else it held.
    Unknown(String, Option<String>),
}

/// The first four words of a command line, and the others.
#[derive(Debug)]
struct Args {
    pub first: Option<String>,
    pub second: Option<String>,
    pub third: Option<String>,
    pub fourth: Option<String>,
    pub rest: Vec<String>,
}

/// The word at `i`, where there is one.
pub open spec fn word_at(ws: Seq<Seq<char>>, i: int) -> Option<Seq<char>> {
    if 0 <= i < ws.len() {
        Some(ws[i])
    } else {
        None
    }
}

/// The text of an optional string.
pub open spec fn opt_view(s: Option<String>) -> Option<Seq<char>> {
    match s {
        Some(t) => Some(t@),
        None => None,
    }
}

/// The next word from a list, taken from its front.
fn next_word(ws: &mut Vec<String>) -> (r: Option<String>)
    ensures
        old(ws)@.len() == 0 ==> r is None && final(ws)@ == old(ws)@,
        old(ws)@.len() > 0 ==> r == Some(old(ws)@[0]) && final(ws)@ == old(ws)@.skip(1),
{
    if ws.len() == 0 {
        None
    } else {
        Some(ws.remove(0))
    }
}

/// Splits a command line into its words.
fn deconstruct(input: &str) -> (r: Result<Args, DecodeError>)
    ensures
        r matches Ok(a) && {
            let ws = words(input@);
            &&& opt_view(a.first) == word_at(ws, 0)
            &&& opt_view(a.second) == word_at(ws, 1)
            &&& opt_view(a.third) == word_at(ws, 2)
            &&& opt_view(a.fourth) == word_at(ws, 3)
        },
{
    proof {
        lemma_words_not_empty(input@, Seq::empty());
        lemma_decode_all_strings(words(input@));
    }
    match Vec::<String>::decode(Some(input)) {
        Ok(v) => {
            let ghost ws = v.deep_view();
            let mut v = v;
            let first = next_word(&mut v);
            let second = next_word(&mut v);
            let third = next_word(&mut v);
            let fourth = next_word(&mut v);
            Ok(Args { first, second, third, fourth, rest: v })
        },
        Err(e) => Err(e),
    }
}

/// What a command line of the words `ws` asks for, where `line` is the whole
/// line. Causes of failures are left open.
pub open spec fn parsed_command(ws: Seq<Seq<char>>, line: Seq<char>, c: Command) -> bool {
    let first = word_at(ws, 0);
    if first == Some("-h"@) {
        c is Help
    } else if first == Some("-v"@) {
        c is Version
    } else if first == Some("-p"@) {
        match <u32 as Codec<u32>>::decoding(word_at(ws, 1)) {
            Some(n) => c == Command::Password(n),
            None => c matches Command::Unknown(_, None),
        }
    } else if first == Some("-s"@) {
        if ws.len() >= 4 {
            c matches Command::Save(s) && s.user@ == ws[1] && s.password@ == ws[2] && s.url@
                == ws[3]
        } else if ws.len() == 1 {
            c matches Command::Unknown(_, Some(l)) && l@ == line
        } else {
            c matches Command::Unknown(_, None)
        }
    } else {
        c matches Command::Unknown(cause, rest) && cause@ == line && opt_view(rest) == word_at(
            ws,
            1,
        )
    }
}

/// Tells whether an optional word is the text `lit`.
fn word_is(w: &Option<String>, lit: &str) -> (r: bool)
    ensures
        r == (opt_view(*w) == Some(lit@)),
{
    match w {
        Some(t) => same_text(t.as_str(), lit),
        None => false,
    }
}

/// An optional word, borrowed.
fn borrow_word(w: &Option<String>) -> (r: Option<&str>)
    ensures
        opt_text(r) == opt_view(*w),
{
    match w {
        Some(t) => Some(t.as_str()),
        None => None,
    }
}

impl Command {
    /// Reads what a command line asks for; a line with nothing known in it
    /// reads as `Unknown`.
    pub fn parse(input: &str) -> (r: Result<Command, String>)
        ensures
            r matches Ok(c) && parsed_command(words(input@), input@, c),
    {
        let command = match deconstruct(input) {
            Ok(a) => a,
            Err(e) => return Err(e.cause),
        };
        let ghost ws = words(input@);
        proof {
            lemma_words_not_empty(input@, Seq::empty());
        }
        if word_is(&command.first, "-h") {
            Ok(Command::Help)
        } else if word_is(&command.first, "-v") {
            Ok(Command::Version)
        } else if word_is(&command.first, "-p") {
            match u32::decode(borrow_word(&command.second)) {
                Ok(n) => Ok(Command::Password(n)),
                Err(e) => Ok(Command::Unknown(e.cause, None)),
            }
        } else if word_is(&command.first, "-s") {
            let user = String::decode(borrow_word(&command.second));
            let password = String::decode(borrow_word(&command.third));
            let url = String::decode(borrow_word(&command.fourth));
            match (user, password, url) {
                (Ok(user), Ok(password), Ok(url)) => Ok(
                    Command::Save(Save::new(user, password, url)),
                ),
                (Err(e1), Err(e2), Err(e3)) => {
                    let mut cause = e1.cause;
                    cause.append(" ");
                    cause.append(e2.cause.as_str());
                    cause.append(" ");
                    cause.append(e3.cause.as_str());
                    Ok(Command::Unknown(cause, Some(input.to_owned())))
                },
                (Err(e), _, _) => Ok(Command::Unknown(e.cause, Some(input.to_owned()))),
                (_, Err(e), _) => Ok(Command::Unknown(e.cause, None)),
                (_, _, Err(e)) => Ok(Command::Unknown(e.cause, None)),
            }
        } else {
            Ok(Command::Unknown(input.to_owned(), command.second))
        }
    }
}

/// The characters of a generated password: each between `0` and `y`.
pub open spec fn password_chars(p: Seq<char>) -> bool {
    forall|i: int| 0 <= i < p.len() ==> LOWEST_CODE <= #[trigger] (p[i] as u32) < CODE_LIMIT
}

impl Execute<Command, String, String> for Command {
    /// The usage text, the version line, a fresh password, or the saved
    /// triple; an unknown command, or a password of no characters, is an error.
    open spec fn executed(&self, r: Result<String, String>) -> bool {
        match self {
            Command::Unknown(cause, code) => r matches Err(e) && e@ == "Unknown command: "@ + cause@
                + " "@ + match code {
                Some(c) => c@,
                None => Seq::empty(),
            },
            Command::Help => r matches Ok(s) && s@ == HELP@,
            Command::Version => r matches Ok(s) && s@ == BIN_NAME@ + " version: "@ + VERSION@
                + "\n"@,
            Command::Password(n) => if *n == 0 {
                r matches Err(e) && e@ == "Length must be greater than 0"@
            } else {
                r matches Ok(s) && exists|p: Seq<char>|
                    p.len() == *n && password_chars(p) && s@ == "Password generated with length "@
                        + decimal(*n as nat) + ": '"@ + p + "'\n"@
            },
            Command::Save(save) => r matches Ok(s) && s@ == "User: "@ + save.user@ + ", password: "@
                + save.password@ + ", url: "@ + save.url@ + "\n saved successfully\n"@,
        }
    }

    fn execute(&self) -> (r: Result<String, String>) {
        match self {
            Command::Unknown(cause, code) => {
                let mut s = String::from_str("Unknown command: ");
                s.append(cause.as_str());
                s.append(" ");
                match code {
                    Some(c) => s.append(c.as_str()),
                    None => {
                        proof {
                            reveal_strlit("");
                        }
                        s.append("");
                    },
                }
                Err(s)
            },
            Command::Help => Ok(HELP.to_owned()),
            Command::Version => {
                let mut s = String::from_str(BIN_NAME);
                s.append(" version: ");
                s.append(VERSION);
                s.append("\n");
                Ok(s)
            },
            Command::Password(n) => match gen(GenerateParams::new(*n, None)) {
                Ok(p) => {
                    let mut s = String::from_str("Password generated with length ");
                    let digits = decimal_string(*n as u64);
                    s.append(digits.as_str());
                    s.append(": '");
                    s.append(p.as_str());
                    s.append("'\n");
                    Ok(s)
                },
                Err(e) => Err(e.cause),
            },
            Command::Save(save) => {
                let mut s = String::from_str("User: ");
                s.append(save.user.as_str());
                s.append(", password: ");
                s.append(save.password.as_str());
                s.append(", url: ");
                s.append(save.url.as_str());
                s.append("\n saved successfully\n");
                Ok(s)
            },
        }
    }
}

} // verus!
