//! Reading typed values from text and writing them back.

use vstd::prelude::*;
use vstd::string::*;
use vstd::std_specs::convert::TryFromSpec;
use crate::mstd::error::{DecodeError, ErrorCode, opt_text};
use crate::mstd::numeral::{
    decimal, signed_decimal, unsigned_literal, signed_literal, parse_unsigned, parse_signed,
    decimal_string, signed_decimal_string, lemma_unsigned_literal_of_decimal,
    lemma_signed_literal_of_decimal, lemma_decimal,
};
use crate::mstd::text::{
    concat3, push_char, same_text, split_words, words, join_words, is_word, lemma_words_of_join,
};

verus! {

/// A type whose values can be written as text and read back from it.
pub trait Codec<A: DeepView>: Sized {
    /// The text that `encode` writes for this value.
    spec fn encoding(&self) -> Seq<char>;

    /// What `decode` makes of its input: the model of the value read, or
    /// `None` where the input is rejected.
    spec fn decoding(s: Option<Seq<char>>) -> Option<A::V>;

    /// Writes the value as text.
    fn encode(&self) -> (r: String)
        ensures
            r@ == self.encoding(),
    ;

    /// Reads a value from the input; an absent or malformed input is an error.
    fn decode(s: Option<&str>) -> (r: Result<A, DecodeError>)
        ensures
            r is Ok <==> Self::decoding(opt_text(s)) is Some,
            r matches Ok(v) ==> Self::decoding(opt_text(s)) == Some(v.deep_view()),
            r matches Err(e) ==> e.code == ErrorCode::UnableToDecodeT,
    ;

    /// Tells whether `decode` succeeds on the text `s`.
    fn is(s: String) -> (r: bool)
        ensures
            r == Self::decoding(Some(s@)) is Some,
    ;

    /// Converts `a` into a related type, failing where the value has no
    /// counterpart there.
    fn _as<T: TryFrom<A>>(&self, a: A) -> (r: Result<T, DecodeError>)
        ensures
            <T as TryFromSpec<A>>::obeys_try_from_spec() ==> (r is Ok <==> <T as TryFromSpec<
                A,
            >>::try_from_spec(a) is Ok),
            <T as TryFromSpec<A>>::obeys_try_from_spec() ==> (r matches Ok(t) ==> <T as TryFromSpec<
                A,
            >>::try_from_spec(a) matches Ok(u) && u == t),
            r matches Err(e) ==> e.code == ErrorCode::UnableToDecodeT,
    {
        match T::try_from(a) {
            Ok(t) => Ok(t),
            Err(_) => Err(DecodeError::new(ErrorCode::UnableToDecodeT, String::from_str("Unable to decode T"))),
        }
    }
}

/// A decoding error whose cause is `prefix`, then `s`, then `suffix`.
fn decode_error(prefix: &str, s: &str, suffix: &str) -> (r: DecodeError)
    ensures
        r.code == ErrorCode::UnableToDecodeT,
        r.cause@ == prefix@ + s@ + suffix@,
{
    DecodeError::new(ErrorCode::UnableToDecodeT, concat3(prefix, s, suffix))
}

/// A decoding error with a fixed cause.
fn absent_error(cause: &str) -> (r: DecodeError)
    ensures
        r.code == ErrorCode::UnableToDecodeT,
        r.cause@ == cause@,
{
    DecodeError::new(ErrorCode::UnableToDecodeT, cause.to_owned())
}

/// The value of an unsigned literal that fits under `limit`.
pub open spec fn bounded_unsigned(t: Seq<char>, limit: nat) -> Option<nat> {
    match unsigned_literal(t) {
        Some(n) => if n <= limit {
            Some(n)
        } else {
            None
        },
        None => None,
    }
}

impl Codec<String> for String {
    open spec fn encoding(&self) -> Seq<char> {
        self@
    }

    /// Any text but the empty one is read as itself.
    open spec fn decoding(s: Option<Seq<char>>) -> Option<Seq<char>> {
        match s {
            Some(t) => if t.len() > 0 {
                Some(t)
            } else {
                None
            },
            None => None,
        }
    }

    fn encode(&self) -> (r: String) {
        self.clone()
    }

    fn decode(s: Option<&str>) -> (r: Result<String, DecodeError>) {
        match s {
            Some(t) => if t.unicode_len() == 0 {
                Err(decode_error("Unable to decode ", t, " to String"))
            } else {
                Ok(t.to_owned())
            },
            None => Err(absent_error("Unable to decode because the String is empty")),
        }
    }

    fn is(s: String) -> (r: bool) {
        s.as_str().unicode_len() > 0
    }
}

impl Codec<u32> for u32 {
    open spec fn encoding(&self) -> Seq<char> {
        decimal(*self as nat)
    }

    /// Decimal digits, after an optional `+`, of a value that fits.
    open spec fn decoding(s: Option<Seq<char>>) -> Option<u32> {
        match s {
            Some(t) => match bounded_unsigned(t, u32::MAX as nat) {
                Some(n) => Some(n as u32),
                None => None,
            },
            None => None,
        }
    }

    fn encode(&self) -> (r: String) {
        decimal_string(*self as u64)
    }

    fn decode(s: Option<&str>) -> (r: Result<u32, DecodeError>) {
        match s {
            Some(t) => match parse_unsigned(t, u32::MAX as u64) {
                Some(v) => Ok(v as u32),
                None => Err(decode_error("Unable to decode ", t, " to u32")),
            },
            None => Err(absent_error("Unable to decode because the u32 is empty")),
        }
    }

    fn is(s: String) -> (r: bool) {
        parse_unsigned(s.as_str(), u32::MAX as u64).is_some()
    }
}

impl Codec<u64> for u64 {
    open spec fn encoding(&self) -> Seq<char> {
        decimal(*self as nat)
    }

    /// Decimal digits, after an optional `+`, of a value that fits.
    open spec fn decoding(s: Option<Seq<char>>) -> Option<u64> {
        match s {
            Some(t) => match bounded_unsigned(t, u64::MAX as nat) {
                Some(n) => Some(n as u64),
                None => None,
            },
            None => None,
        }
    }

    fn encode(&self) -> (r: String) {
        decimal_string(*self)
    }

    fn decode(s: Option<&str>) -> (r: Result<u64, DecodeError>) {
        match s {
            Some(t) => match parse_unsigned(t, u64::MAX) {
                Some(v) => Ok(v),
                None => Err(decode_error("Unable to decode ", t, " to u64")),
            },
            None => Err(absent_error("Unable to decode because the u64 is empty")),
        }
    }

    fn is(s: String) -> (r: bool) {
        parse_unsigned(s.as_str(), u64::MAX).is_some()
    }
}

impl Codec<i32> for i32 {
    open spec fn encoding(&self) -> Seq<char> {
        signed_decimal(*self as int)
    }

    /// Decimal digits, after an optional `+` or `-`, of a value that fits.
    open spec fn decoding(s: Option<Seq<char>>) -> Option<i32> {
        match s {
            Some(t) => match signed_literal(t) {
                Some(i) => if i32::MIN <= i <= i32::MAX {
                    Some(i as i32)
                } else {
                    None
                },
                None => None,
            },
            None => None,
        }
    }

    fn encode(&self) -> (r: String) {
        signed_decimal_string(*self as i64)
    }

    fn decode(s: Option<&str>) -> (r: Result<i32, DecodeError>) {
        match s {
            Some(t) => match parse_signed(t, i32::MIN as i64, i32::MAX as i64) {
                Some(v) => Ok(v as i32),
                None => Err(absent_error("Unable to decode T")),
            },
            None => Err(absent_error("Unable to decode T")),
        }
    }

    fn is(s: String) -> (r: bool) {
        parse_signed(s.as_str(), i32::MIN as i64, i32::MAX as i64).is_some()
    }
}

impl Codec<bool> for bool {
    open spec fn encoding(&self) -> Seq<char> {
        if *self {
            "true"@
        } else {
            "false"@
        }
    }

    /// Exactly `true` or `false`.
    open spec fn decoding(s: Option<Seq<char>>) -> Option<bool> {
        match s {
            Some(t) => if t == "true"@ {
                Some(true)
            } else if t == "false"@ {
                Some(false)
            } else {
                None
            },
            None => None,
        }
    }

    fn encode(&self) -> (r: String) {
        if *self {
            String::from_str("true")
        } else {
            String::from_str("false")
        }
    }

    fn decode(s: Option<&str>) -> (r: Result<bool, DecodeError>) {
        match s {
            Some(t) => if same_text(t, "true") {
                Ok(true)
            } else if same_text(t, "false") {
                Ok(false)
            } else {
                Err(decode_error("Unable to decode ", t, " to bool"))
            },
            None => Err(absent_error("Unable to decode because the bool is empty")),
        }
    }

    fn is(s: String) -> (r: bool) {
        same_text(s.as_str(), "true") || same_text(s.as_str(), "false")
    }
}

impl Codec<char> for char {
    open spec fn encoding(&self) -> Seq<char> {
        seq![*self]
    }

    /// A text of exactly one character.
    open spec fn decoding(s: Option<Seq<char>>) -> Option<char> {
        match s {
            Some(t) => if t.len() == 1 {
                Some(t[0])
            } else {
                None
            },
            None => None,
        }
    }

    fn encode(&self) -> (r: String) {
        let mut s = String::new();
        push_char(&mut s, *self);
        s
    }

    fn decode(s: Option<&str>) -> (r: Result<char, DecodeError>) {
        match s {
            Some(t) => if t.unicode_len() == 1 {
                Ok(t.get_char(0))
            } else {
                Err(decode_error("Unable to decode ", t, " to char"))
            },
            None => Err(absent_error("Unable to decode because the char is empty")),
        }
    }

    fn is(s: String) -> (r: bool) {
        s.as_str().unicode_len() == 1
    }
}

} // verus!

verus! {

/// Reads each word with `A`'s decoder: the models read, in order, or `None`
/// where some word is rejected.
pub open spec fn decode_all<A: Codec<A> + DeepView>(ws: Seq<Seq<char>>) -> Option<Seq<A::V>>
    decreases ws.len(),
{
    if ws.len() == 0 {
        Some(Seq::empty())
    } else {
        match (decode_all::<A>(ws.drop_last()), <A as Codec<A>>::decoding(Some(ws.last()))) {
            (Some(p), Some(v)) => Some(p.push(v)),
            _ => None,
        }
    }
}

/// The encodings of the elements of `v`, in order.
pub open spec fn encodings<A: Codec<A> + DeepView>(v: Seq<A>) -> Seq<Seq<char>> {
    v.map(|_i: int, a: A| a.encoding())
}

/// Where all the words are read, so is each prefix of them.
pub proof fn lemma_decode_all_prefix<A: Codec<A> + DeepView>(ws: Seq<Seq<char>>, k: int)
    requires
        0 <= k <= ws.len(),
        decode_all::<A>(ws) is Some,
    ensures
        decode_all::<A>(ws.take(k)) is Some,
    decreases ws.len(),
{
    if k < ws.len() {
        assert(ws.drop_last().take(k) =~= ws.take(k));
        lemma_decode_all_prefix::<A>(ws.drop_last(), k);
    } else {
        assert(ws.take(k) =~= ws);
    }
}

/// A sequence of values: each element is written as its encoding, and the
/// encodings are joined by single spaces. Reading splits the text at
/// whitespace and decodes every word; one rejected word rejects the whole.
impl<A: Codec<A> + DeepView> Codec<Vec<A>> for Vec<A> {
    open spec fn encoding(&self) -> Seq<char> {
        join_words(encodings(self@))
    }

    open spec fn decoding(s: Option<Seq<char>>) -> Option<Seq<A::V>> {
        match s {
            Some(t) => decode_all::<A>(words(t)),
            None => None,
        }
    }

    fn encode(&self) -> (r: String) {
        let ghost encs = encodings(self@);
        let mut out = String::new();
        let mut i: usize = 0;
        assert(encs.take(0) =~= Seq::<Seq<char>>::empty());
        while i < self.len()
            invariant
                i <= self@.len(),
                encs == encodings(self@),
                out@ == join_words(encs.take(i as int)),
            decreases self@.len() - i,
        {
            let e = self[i].encode();
            let ghost before = out@;
            if i > 0 {
                push_char(&mut out, ' ');
            }
            out.append(e.as_str());
            assert(encs.take(i + 1).drop_last() =~= encs.take(i as int));
            assert(encs.take(i + 1).last() == e@);
            if i == 0 {
                assert(before + e@ =~= e@);
            }
            i += 1;
        }
        assert(encs.take(self@.len() as int) =~= encs);
        out
    }

    fn decode(s: Option<&str>) -> (r: Result<Vec<A>, DecodeError>) {
        match s {
            Some(t) => {
                let ws = split_words(t);
                let ghost wv = ws.deep_view();
                let mut out: Vec<A> = Vec::new();
                let mut i: usize = 0;
                assert(wv.take(0) =~= Seq::<Seq<char>>::empty());
                assert(out.deep_view() =~= Seq::<A::V>::empty());
                while i < ws.len()
                    invariant
                        s == Some(t),
                        wv == ws.deep_view(),
                        wv == words(t@),
                        i <= ws@.len(),
                        decode_all::<A>(wv.take(i as int)) == Some(out.deep_view()),
                    decreases ws@.len() - i,
                {
                    let w = ws[i].as_str();
                    assert(w@ == wv[i as int]);
                    assert(wv.take(i + 1).drop_last() =~= wv.take(i as int));
                    assert(wv.take(i + 1).last() == wv[i as int]);
                    match A::decode(Some(w)) {
                        Ok(v) => {
                            let ghost before = out.deep_view();
                            out.push(v);
                            assert(out.deep_view() =~= before.push(v.deep_view()));
                        },
                        Err(_) => {
                            proof {
                                assert(opt_text(Some(w)) == Some(wv[i as int]));
                                assert(decode_all::<A>(wv.take(i + 1)) is None);
                                if decode_all::<A>(wv) is Some {
                                    lemma_decode_all_prefix::<A>(wv, i + 1);
                                }
                            }
                            return Err(decode_error("Unable to decode ", w, " to Vec<A>"));
                        },
                    }
                    i += 1;
                }
                assert(wv.take(ws@.len() as int) =~= wv);
                Ok(out)
            },
            None => Err(absent_error("Unable to decode because the Vec<A> is empty")),
        }
    }

    fn is(s: String) -> (r: bool) {
        Self::decode(Some(s.as_str())).is_ok()
    }
}

/// An optional value: a present value is written as itself and an absent one
/// as the empty text. An absent input reads as an absent value; a present one
/// is read with `A`'s decoder.
impl<A: Codec<A> + DeepView> Codec<Option<A>> for Option<A> {
    open spec fn encoding(&self) -> Seq<char> {
        match self {
            Some(a) => a.encoding(),
            None => Seq::empty(),
        }
    }

    open spec fn decoding(s: Option<Seq<char>>) -> Option<Option<A::V>> {
        match s {
            Some(t) => match <A as Codec<A>>::decoding(Some(t)) {
                Some(v) => Some(Some(v)),
                None => None,
            },
            None => Some(None),
        }
    }

    fn encode(&self) -> (r: String) {
        match self {
            Some(a) => a.encode(),
            None => String::new(),
        }
    }

    fn decode(s: Option<&str>) -> (r: Result<Option<A>, DecodeError>) {
        match s {
            Some(t) => match A::decode(Some(t)) {
                Ok(a) => Ok(Some(a)),
                Err(_) => Err(absent_error("Unable to decode T")),
            },
            None => Ok(None),
        }
    }

    fn is(s: String) -> (r: bool) {
        A::decode(Some(s.as_str())).is_ok()
    }
}

} // verus!

verus! {

/// Every unsigned integer reads back from its encoding.
pub proof fn lemma_u32_round_trip(v: u32)
    ensures
        <u32 as Codec<u32>>::decoding(Some(v.encoding())) == Some(v),
{
    lemma_unsigned_literal_of_decimal(v as nat);
}

pub proof fn lemma_u64_round_trip(v: u64)
    ensures
        <u64 as Codec<u64>>::decoding(Some(v.encoding())) == Some(v),
{
    lemma_unsigned_literal_of_decimal(v as nat);
}

/// Every signed integer reads back from its encoding.
pub proof fn lemma_i32_round_trip(v: i32)
    ensures
        <i32 as Codec<i32>>::decoding(Some(v.encoding())) == Some(v),
{
    lemma_signed_literal_of_decimal(v as int);
}

/// Both booleans read back from their encodings.
pub proof fn lemma_bool_round_trip(v: bool)
    ensures
        <bool as Codec<bool>>::decoding(Some(v.encoding())) == Some(v),
{
    reveal_strlit("true");
    reveal_strlit("false");
    assert("true"@.len() != "false"@.len());
}

/// Every character reads back from its encoding.
pub proof fn lemma_char_round_trip(v: char)
    ensures
        <char as Codec<char>>::decoding(Some(v.encoding())) == Some(v),
{
}

/// Every string but the empty one reads back from its encoding; the empty
/// string is rejected on reading.
pub proof fn lemma_string_round_trip(v: String)
    requires
        v@.len() > 0,
    ensures
        <String as Codec<String>>::decoding(Some(v.encoding())) == Some(v.deep_view()),
{
}

/// Decoding the encodings of a sequence gives the models of its elements,
/// where each element reads back from its own encoding.
pub proof fn lemma_decode_all_encodings<A: Codec<A> + DeepView>(v: Seq<A>)
    requires
        forall|i: int|
            0 <= i < v.len() ==> <A as Codec<A>>::decoding(Some(#[trigger] v[i].encoding()))
                == Some(v[i].deep_view()),
    ensures
        decode_all::<A>(encodings(v)) == Some(Seq::new(v.len(), |i: int| v[i].deep_view())),
    decreases v.len(),
{
    if v.len() > 0 {
        let p = v.drop_last();
        assert forall|i: int| 0 <= i < p.len() implies <A as Codec<A>>::decoding(
            Some(#[trigger] p[i].encoding()),
        ) == Some(p[i].deep_view()) by {
            assert(p[i] == v[i]);
        }
        lemma_decode_all_encodings::<A>(p);
        assert(encodings(v).drop_last() =~= encodings(p));
        assert(encodings(v).last() == v.last().encoding());
        assert(Seq::new(p.len(), |i: int| p[i].deep_view()).push(v.last().deep_view()) =~= Seq::new(
            v.len(),
            |i: int| v[i].deep_view(),
        ));
    } else {
        assert(encodings(v) =~= Seq::<Seq<char>>::empty());
        assert(Seq::new(v.len(), |i: int| v[i].deep_view()) =~= Seq::<A::V>::empty());
    }
}

/// A sequence reads back from its encoding where each element's encoding is a
/// single word that reads back as that element.
pub proof fn lemma_vec_round_trip<A: Codec<A> + DeepView>(v: Vec<A>)
    requires
        forall|i: int| 0 <= i < v@.len() ==> is_word(#[trigger] v@[i].encoding()),
        forall|i: int|
            0 <= i < v@.len() ==> <A as Codec<A>>::decoding(Some(#[trigger] v@[i].encoding()))
                == Some(v@[i].deep_view()),
    ensures
        <Vec<A> as Codec<Vec<A>>>::decoding(Some(v.encoding())) == Some(v.deep_view()),
{
    let encs = encodings(v@);
    assert forall|i: int| 0 <= i < encs.len() implies is_word(#[trigger] encs[i]) by {
        assert(encs[i] == v@[i].encoding());
    }
    lemma_words_of_join(encs);
    lemma_decode_all_encodings::<A>(v@);
}

/// Every sequence of unsigned integers reads back from its encoding.
pub proof fn lemma_vec_u32_round_trip(v: Vec<u32>)
    ensures
        <Vec<u32> as Codec<Vec<u32>>>::decoding(Some(v.encoding())) == Some(v.deep_view()),
{
    assert forall|i: int| 0 <= i < v@.len() implies is_word(#[trigger] v@[i].encoding()) by {
        lemma_decimal(v@[i] as nat);
    }
    assert forall|i: int|
        0 <= i < v@.len() implies <u32 as Codec<u32>>::decoding(Some(#[trigger] v@[i].encoding()))
        == Some(v@[i].deep_view()) by {
        lemma_u32_round_trip(v@[i]);
    }
    lemma_vec_round_trip(v);
}

/// Every sequence of signed integers reads back from its encoding.
pub proof fn lemma_vec_i32_round_trip(v: Vec<i32>)
    ensures
        <Vec<i32> as Codec<Vec<i32>>>::decoding(Some(v.encoding())) == Some(v.deep_view()),
{
    assert forall|i: int| 0 <= i < v@.len() implies is_word(#[trigger] v@[i].encoding()) by {
        let x = v@[i] as int;
        if x < 0 {
            lemma_decimal((-x) as nat);
            assert(v@[i].encoding() == seq!['-'] + decimal((-x) as nat));
        } else {
            lemma_decimal(x as nat);
        }
    }
    assert forall|i: int|
        0 <= i < v@.len() implies <i32 as Codec<i32>>::decoding(Some(#[trigger] v@[i].encoding()))
        == Some(v@[i].deep_view()) by {
        lemma_i32_round_trip(v@[i]);
    }
    lemma_vec_round_trip(v);
}

/// An absent input is rejected by every codec but the optional one, which
/// reads it as an absent value.
pub proof fn lemma_absent_input<A: Codec<A> + DeepView>()
    ensures
        <String as Codec<String>>::decoding(None) is None,
        <u32 as Codec<u32>>::decoding(None) is None,
        <u64 as Codec<u64>>::decoding(None) is None,
        <i32 as Codec<i32>>::decoding(None) is None,
        <bool as Codec<bool>>::decoding(None) is None,
        <char as Codec<char>>::decoding(None) is None,
        <Vec<A> as Codec<Vec<A>>>::decoding(None) is None,
        <Option<A> as Codec<Option<A>>>::decoding(None) == Some(None::<A::V>),
{
}

} // verus!

verus! {

/// Words that are not empty read as strings, each as itself.
pub proof fn lemma_decode_all_strings(ws: Seq<Seq<char>>)
    requires
        forall|i: int| 0 <= i < ws.len() ==> (#[trigger] ws[i]).len() > 0,
    ensures
        decode_all::<String>(ws) == Some(ws),
    decreases ws.len(),
{
    if ws.len() > 0 {
        lemma_decode_all_strings(ws.drop_last());
        assert(ws.drop_last().push(ws.last()) =~= ws);
    }
}

} // verus!
