//! Text handling, value codecs, errors and command-line plumbing.

pub mod cmd;
pub mod cmds;
pub mod codec;
pub mod error;
pub mod numeral;
pub mod param;
pub mod text;

use vstd::prelude::*;
use vstd::string::*;
use cmd::{Execute, Input, Parse, insert_param, keys_unique, lookup};
use cmds::{Generate, generated, requested_length, validation_failure};
use text::{concat3, same_text, split_words, words};

verus! {

/// A word that names a flag: it starts with `-` (so also with `--`).
pub open spec fn is_flag(w: Seq<char>) -> bool {
    w.len() > 0 && w[0] == '-'
}

/// Pairs each flag in `ws` with the last word that follows it before the next
/// flag, or with the empty text where none does. `key` is a flag read before
/// `ws`, still open, with `value` its value so far; an empty `key` is none.
/// Words before the first flag belong to no flag.
pub open spec fn flag_pairs_from(ws: Seq<Seq<char>>, key: Seq<char>, value: Seq<char>) -> Seq<
    (Seq<char>, Seq<char>),
>
    decreases ws.len(),
{
    let closed = if key.len() > 0 {
        seq![(key, value)]
    } else {
        Seq::empty()
    };
    if ws.len() == 0 {
        closed
    } else if is_flag(ws[0]) {
        closed + flag_pairs_from(ws.skip(1), ws[0], Seq::empty())
    } else {
        flag_pairs_from(ws.skip(1), key, ws[0])
    }
}

/// The value bound last to `k`.
pub open spec fn last_lookup(ps: Seq<(Seq<char>, Seq<char>)>, k: Seq<char>) -> Option<Seq<char>>
    decreases ps.len(),
{
    if ps.len() == 0 {
        None
    } else if ps.last().0 == k {
        Some(ps.last().1)
    } else {
        last_lookup(ps.drop_last(), k)
    }
}

/// The flags of a command line made of the words `ws`, each with its value;
/// where a flag occurs twice, the later value wins.
pub open spec fn flag_value(ws: Seq<Seq<char>>, k: Seq<char>) -> Option<Seq<char>> {
    last_lookup(flag_pairs_from(ws.skip(1), Seq::empty(), Seq::empty()), k)
}

/// Splits a command line into its command, its first word, and the values of
/// its flags. A line with no word is an error.
pub fn deserialize(args_vec: &str) -> (r: Result<Input, String>)
    ensures
        r is Err <==> words(args_vec@).len() == 0,
        r matches Err(e) ==> e@ == "No command was provided"@,
        r matches Ok(input) ==> {
            &&& input.arg@ == words(args_vec@)[0]
            &&& keys_unique(input.pairs())
            &&& forall|k: Seq<char>| #[trigger]
                lookup(input.pairs(), k) == flag_value(words(args_vec@), k)
        },
{
    let ws = split_words(args_vec);
    let ghost wv = ws.deep_view();
    if ws.len() == 0 {
        return Err(String::from_str("No command was provided"));
    }
    let command = ws[0].clone();
    let mut params: Vec<(String, String)> = Vec::new();
    let mut key = String::new();
    let mut value = String::new();
    let ghost mut emitted: Seq<(Seq<char>, Seq<char>)> = Seq::empty();
    let ghost e = Seq::<char>::empty();
    let mut i: usize = 1;
    assert(emitted + flag_pairs_from(wv.skip(1), e, e) =~= flag_pairs_from(wv.skip(1), e, e));
    while i < ws.len()
        invariant
            wv == ws.deep_view(),
            1 <= i <= wv.len(),
            keys_unique(params.deep_view()),
            forall|k: Seq<char>| #[trigger]
                lookup(params.deep_view(), k) == last_lookup(emitted, k),
            emitted + flag_pairs_from(wv.skip(i as int), key@, value@) == flag_pairs_from(
                wv.skip(1),
                e,
                e,
            ),
        decreases wv.len() - i,
    {
        let arg = ws[i].as_str();
        let ghost rest = wv.skip(i as int);
        assert(rest[0] == arg@);
        assert(rest.skip(1) =~= wv.skip(i + 1));
        if arg.unicode_len() > 0 && arg.get_char(0) == '-' {
            if key.as_str().unicode_len() > 0 {
                let ghost pair = (key@, value@);
                let ghost old_emitted = emitted;
                insert_param(&mut params, key, value);
                proof {
                    emitted = emitted.push(pair);
                    assert(emitted.drop_last() =~= old_emitted);
                    assert forall|k: Seq<char>| #[trigger]
                        lookup(params.deep_view(), k) == last_lookup(emitted, k) by {}
                    assert(old_emitted + (seq![pair] + flag_pairs_from(wv.skip(i + 1), arg@, e))
                        =~= emitted + flag_pairs_from(wv.skip(i + 1), arg@, e));
                }
            } else {
                assert(Seq::<(Seq<char>, Seq<char>)>::empty() + flag_pairs_from(
                    wv.skip(i + 1),
                    arg@,
                    e,
                ) =~= flag_pairs_from(wv.skip(i + 1), arg@, e));
            }
            key = arg.to_owned();
            value = String::new();
        } else {
            value = arg.to_owned();
        }
        i += 1;
    }
    assert(wv.skip(i as int) =~= Seq::<Seq<char>>::empty());
    if key.as_str().unicode_len() > 0 {
        let ghost pair = (key@, value@);
        let ghost old_emitted = emitted;
        insert_param(&mut params, key, value);
        proof {
            emitted = emitted.push(pair);
            assert(emitted.drop_last() =~= old_emitted);
            assert forall|k: Seq<char>| #[trigger]
                lookup(params.deep_view(), k) == last_lookup(emitted, k) by {}
            assert(old_emitted + seq![pair] =~= emitted);
        }
    } else {
        assert(emitted + Seq::<(Seq<char>, Seq<char>)>::empty() =~= emitted);
    }
    assert(emitted == flag_pairs_from(wv.skip(1), e, e));
    assert(command@ == words(args_vec@)[0]);
    Ok(Input { arg: command, params })
}

/// Runs the command that `input` names. Only `generate` is known: it makes a
/// password of the length asked for, or of the default length.
pub fn matcher(input: &Input) -> (r: Result<String, String>)
    ensures
        input.arg@ != "generate"@ ==> (r matches Err(e) && e@ == "Command "@ + input.arg@
            + " not found"@),
        input.arg@ == "generate"@ ==> match requested_length(input) {
            Some(n) => generated(n, r),
            None => r is Err,
        },
        input.arg@ == "generate"@ ==> (validation_failure(&Generate, input) matches Some(c) ==> (
        r matches Err(e) && e@ == c)),
{
    if same_text(input.arg.as_str(), "generate") {
        let command = Generate;
        match command.parse(input) {
            Ok(params) => command.execute(Some(params)),
            Err(e) => Err(e),
        }
    } else {
        Err(concat3("Command ", input.arg.as_str(), " not found"))
    }
}

} // verus!
